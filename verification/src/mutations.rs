//! The mutation surface handed to the transport collaborator: every call
//! that changes content. Mutations are gated behind a verified bearer
//! token whose subject must name the author of the content touched.

use vstd::prelude::*;

use crate::digits::dec_str;
use crate::digits::u64_to_dec;
use crate::errors::AppError;
use crate::message::create_post;
use crate::message::delete_post;
use crate::message::modify_post;
use crate::message::MessageModel;
use crate::message::MessageModelResponse;
use crate::store::Store;
use crate::token::jwt_claims_of;
use crate::token::token_accepted;
use crate::token::verify_token;
use crate::users::register_post;
use crate::users::UsersModel;
use crate::users::UsersModelResponse;

verus! {

/// The root of all mutating operations.
pub struct MutationRoot;

/// The token subject names the user `user_id`: the subject is exactly that
/// id rendered in decimal (so it never names a negative id).
pub open spec fn subject_ok(sub: Seq<char>, user_id: i32) -> bool {
    user_id >= 0 && sub == dec_str(user_id as nat)
}

impl MutationRoot {
    /// Creates a message on behalf of `user_id` at instant `now`. The token
    /// must verify and its subject must be `user_id`; then the call behaves
    /// as `MessageModel::create_at`.
    pub fn create_message(
        user_id: i32,
        message: String,
        parent_id: Option<i32>,
        token: String,
        now: u64,
        secret: &[u8],
        store: &mut Store,
    ) -> (r: Result<MessageModelResponse, AppError>)
        requires
            old(store).wf(),
        ensures
            final(store).wf(),
            jwt_claims_of(token@, secret@) is None ==> (r matches Err(e) && e is InvalidToken)
                && *final(store) == *old(store),
            (jwt_claims_of(token@, secret@) matches Some(c) && c.1 <= now) ==> (r matches Err(e)
                && e is TokenExpired) && *final(store) == *old(store),
            (jwt_claims_of(token@, secret@) matches Some(c) && now < c.1 && !subject_ok(
                c.0,
                user_id,
            )) ==> (r matches Err(e) && e is InvalidToken) && *final(store) == *old(store),
            (jwt_claims_of(token@, secret@) matches Some(c) && now < c.1 && subject_ok(
                c.0,
                user_id,
            )) ==> create_post(*old(store), *final(store), user_id, message, parent_id, now, r),
    {
        let claims = match verify_token(token.as_str(), now, secret) {
            Err(e) => {
                return Err(e);
            },
            Ok(c) => c,
        };
        if user_id >= 0 {
            let rendered = u64_to_dec(user_id as u64);
            if claims.sub == rendered {
                return MessageModel::create_at(user_id, message, parent_id, now, store);
            }
        }
        Err(AppError::InvalidToken)
    }

    /// Replaces the body of message `id` at instant `now`. The token must
    /// verify and its subject must be the author of the target message;
    /// then the call behaves as `MessageModel::modify_at`.
    pub fn modify_message(
        id: i32,
        message: String,
        token: String,
        now: u64,
        secret: &[u8],
        store: &mut Store,
    ) -> (r: Result<MessageModelResponse, AppError>)
        requires
            old(store).wf(),
        ensures
            final(store).wf(),
            jwt_claims_of(token@, secret@) is None ==> (r matches Err(e) && e is InvalidToken)
                && *final(store) == *old(store),
            (jwt_claims_of(token@, secret@) matches Some(c) && c.1 <= now) ==> (r matches Err(e)
                && e is TokenExpired) && *final(store) == *old(store),
            (token_accepted(jwt_claims_of(token@, secret@), now) && !crate::store::has_msg_id(
                old(store).messages@,
                id,
            )) ==> (r matches Err(e) && e matches AppError::NotFound(m) && m@
                == "Message not found."@) && *final(store) == *old(store),
            forall|k: int|
                (jwt_claims_of(token@, secret@) matches Some(c) && now < c.1 && 0 <= k < old(
                    store,
                ).messages@.len() && (#[trigger] old(store).messages@[k]).id == id && !subject_ok(
                    c.0,
                    old(store).messages@[k].user_id,
                )) ==> ((r matches Err(e) && e is InvalidToken) && *final(store) == *old(store)),
            forall|k: int|
                (jwt_claims_of(token@, secret@) matches Some(c) && now < c.1 && 0 <= k < old(
                    store,
                ).messages@.len() && (#[trigger] old(store).messages@[k]).id == id && subject_ok(
                    c.0,
                    old(store).messages@[k].user_id,
                )) ==> modify_post(*old(store), *final(store), id, message, now, r),
    {
        let claims = match verify_token(token.as_str(), now, secret) {
            Err(e) => {
                return Err(e);
            },
            Ok(c) => c,
        };
        let k = match store.find_message_index(id) {
            None => {
                return Err(AppError::NotFound("Message not found.".to_owned()));
            },
            Some(k) => k,
        };
        let author = store.messages[k].user_id;
        proof {
            assert forall|k2: int|
                0 <= k2 < store.messages@.len() && (#[trigger] store.messages@[k2]).id
                    == id implies k2 == k as int by {
                if k2 < k as int {
                    assert(store.messages@[k2].id < store.messages@[k as int].id);
                } else if k2 > k as int {
                    assert(store.messages@[k as int].id < store.messages@[k2].id);
                }
            }
        }
        if author >= 0 {
            let rendered = u64_to_dec(author as u64);
            if claims.sub == rendered {
                return MessageModel::modify_at(id, message, now, store);
            }
        }
        Err(AppError::InvalidToken)
    }

    /// Deletes message `id`. The token must verify and its subject must be
    /// the author of the target message; then the call behaves as
    /// `MessageModel::delete`.
    pub fn delete_message(
        id: i32,
        token: String,
        now: u64,
        secret: &[u8],
        store: &mut Store,
    ) -> (r: Result<i32, AppError>)
        requires
            old(store).wf(),
        ensures
            final(store).wf(),
            jwt_claims_of(token@, secret@) is None ==> (r matches Err(e) && e is InvalidToken)
                && *final(store) == *old(store),
            (jwt_claims_of(token@, secret@) matches Some(c) && c.1 <= now) ==> (r matches Err(e)
                && e is TokenExpired) && *final(store) == *old(store),
            (token_accepted(jwt_claims_of(token@, secret@), now) && !crate::store::has_msg_id(
                old(store).messages@,
                id,
            )) ==> (r matches Err(e) && e matches AppError::NotFound(m) && m@
                == "Message not found."@) && *final(store) == *old(store),
            forall|k: int|
                (jwt_claims_of(token@, secret@) matches Some(c) && now < c.1 && 0 <= k < old(
                    store,
                ).messages@.len() && (#[trigger] old(store).messages@[k]).id == id && !subject_ok(
                    c.0,
                    old(store).messages@[k].user_id,
                )) ==> ((r matches Err(e) && e is InvalidToken) && *final(store) == *old(store)),
            forall|k: int|
                (jwt_claims_of(token@, secret@) matches Some(c) && now < c.1 && 0 <= k < old(
                    store,
                ).messages@.len() && (#[trigger] old(store).messages@[k]).id == id && subject_ok(
                    c.0,
                    old(store).messages@[k].user_id,
                )) ==> delete_post(*old(store), *final(store), id, r),
    {
        let claims = match verify_token(token.as_str(), now, secret) {
            Err(e) => {
                return Err(e);
            },
            Ok(c) => c,
        };
        let k = match store.find_message_index(id) {
            None => {
                return Err(AppError::NotFound("Message not found.".to_owned()));
            },
            Some(k) => k,
        };
        let author = store.messages[k].user_id;
        proof {
            assert forall|k2: int|
                0 <= k2 < store.messages@.len() && (#[trigger] store.messages@[k2]).id
                    == id implies k2 == k as int by {
                if k2 < k as int {
                    assert(store.messages@[k2].id < store.messages@[k as int].id);
                } else if k2 > k as int {
                    assert(store.messages@[k as int].id < store.messages@[k2].id);
                }
            }
        }
        if author >= 0 {
            let rendered = u64_to_dec(author as u64);
            if claims.sub == rendered {
                return MessageModel::delete(id, store);
            }
        }
        Err(AppError::InvalidToken)
    }

    /// Registers a user at instant `now`: behaves as `UsersModel::create_at`.
    /// Registration itself needs no token — it is how an identity is first
    /// obtained.
    pub fn create_user(
        name: String,
        email: String,
        password: String,
        now: u64,
        store: &mut Store,
    ) -> (r: Result<UsersModelResponse, AppError>)
        requires
            old(store).wf(),
        ensures
            final(store).wf(),
            register_post(*old(store), *final(store), name, email, password, now, r),
    {
        UsersModel::create_at(name, email, password, now, store)
    }
}

} // verus!
