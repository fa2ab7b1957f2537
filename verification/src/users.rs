//! The credential manager: user rows, registration with a salted
//! memory-hard password hash, and login that verifies a password and issues
//! a signed bearer token.

use vstd::prelude::*;

use argon2::PasswordHasher;
use argon2::PasswordVerifier;

use crate::digits::dec_str;
use crate::errors::AppError;
use crate::store::has_user_email;
use crate::store::Store;
use crate::token::jwt_claims_of;
use crate::token::token_expiry;

verus! {

/// A persisted user row. `password` holds the salted password hash (a PHC
/// string), never the plaintext. Timestamps are whole seconds since the Unix
/// epoch.
#[derive(Debug)]
pub struct UsersModel {
    pub id: i32,
    pub name: String,
    pub email: String,
    pub password: String,
    pub created_at: u64,
    pub updated_at: u64,
}

/// The caller-facing view of a user row: the credential never leaves the
/// store.
#[derive(Debug)]
pub struct UsersModelResponse {
    pub id: i32,
    pub name: String,
    pub email: String,
}

/// Whether `password` verifies against the PHC hash string `hash` under the
/// Argon2 scheme (with the parameters and salt the hash itself carries). A
/// hash that does not parse as a PHC string verifies as false. This is a
/// function of the two arguments alone; what it is on given values only the
/// hashing primitive determines.
pub uninterp spec fn argon2_matches(password: Seq<char>, hash: Seq<char>) -> bool;

/// Relies on argon2::Argon2::hash_password (Argon2id v19, default
/// parameters, a fresh random salt from the OS RNG): on success the result
/// is a non-empty PHC string that verifies against the same password —
/// verification reparses the PHC string and recomputes the hash with the
/// algorithm, version, parameters and salt the string itself carries, so
/// this holds of every outcome whatever salt was drawn. The salt is random,
/// so nothing relates two calls.
#[verifier::external_body]
fn argon2_hash(password: &str) -> (r: Option<String>)
    ensures
        r matches Some(h) ==> h@.len() > 0 && argon2_matches(password@, h@),
{
    match PasswordHasher::hash_password(&argon2::Argon2::default(), password.as_bytes()) {
        Ok(h) => Some(h.to_string()),
        Err(_) => None,
    }
}

/// Relies on argon2::Argon2::verify_password against a parsed PHC string:
/// deterministic in password and hash, constant-time comparison inside the
/// primitive; a hash that does not parse verifies as false.
#[verifier::external_body]
fn argon2_verify(password: &str, hash: &str) -> (r: bool)
    ensures
        r == argon2_matches(password@, hash@),
{
    match argon2::PasswordHash::new(hash) {
        Ok(parsed) => PasswordVerifier::verify_password(
            &argon2::Argon2::default(),
            password.as_bytes(),
            &parsed,
        ).is_ok(),
        Err(_) => false,
    }
}

/// How registration at instant `now` relates the store before and after and
/// the result: a taken email is rejected as `DuplicateEmail`; an exhausted
/// id space as `StorageFailure`; otherwise only a failure of the hashing
/// primitive stands between the caller and success. Success appends exactly
/// one user row, carrying the fresh id, the given name and email, the audit
/// timestamps, and a non-empty stored hash that verifies against the given
/// password; the messages table is never touched. In particular a
/// successful registration leaves the email present, so registering it
/// again is rejected as `DuplicateEmail`.
pub open spec fn register_post(
    old_s: Store,
    new_s: Store,
    name: String,
    email: String,
    password: String,
    now: u64,
    r: Result<UsersModelResponse, AppError>,
) -> bool {
    &&& new_s.messages@ == old_s.messages@
    &&& new_s.next_message_id == old_s.next_message_id
    &&& (has_user_email(old_s.users@, email@) ==> (r matches Err(e) && e is DuplicateEmail))
    &&& (!has_user_email(old_s.users@, email@) && old_s.next_user_id == i32::MAX ==> (
    r matches Err(e) && e is StorageFailure))
    &&& (!has_user_email(old_s.users@, email@) && old_s.next_user_id < i32::MAX ==> (r is Ok || (
    r matches Err(e) && e is HashingFailure)))
    &&& (r is Err ==> new_s.users@ == old_s.users@ && new_s.next_user_id == old_s.next_user_id)
    &&& (r matches Ok(resp) ==> {
        &&& !has_user_email(old_s.users@, email@)
        &&& new_s.users@.len() == old_s.users@.len() + 1
        &&& new_s.users@.drop_last() == old_s.users@
        &&& new_s.users@.last().id == old_s.next_user_id
        &&& new_s.users@.last().name == name
        &&& new_s.users@.last().email == email
        &&& new_s.users@.last().password@.len() > 0
        &&& argon2_matches(password@, new_s.users@.last().password@)
        &&& new_s.users@.last().created_at == now
        &&& new_s.users@.last().updated_at == now
        &&& new_s.next_user_id == old_s.next_user_id + 1
        &&& resp.id == old_s.next_user_id
        &&& resp.name@ == name@
        &&& resp.email@ == email@
        &&& has_user_email(new_s.users@, email@)
    })
}

/// How login relates the store, the inputs and the result. The quantified
/// clauses pin the behaviour against the (under `wf` unique) user row whose
/// email matches: a wrong password is `InvalidCredentials`; a right one
/// yields a token — signing cannot fail. A token returned decodes, under
/// the same secret, to the user's id in decimal and an expiry 24 hours past
/// `now`.
pub open spec fn login_post(
    s: Store,
    email: String,
    password: String,
    now: u64,
    secret: Seq<u8>,
    r: Result<String, AppError>,
) -> bool {
    &&& (!has_user_email(s.users@, email@) ==> (r matches Err(e) && e matches AppError::NotFound(m)
        && m@ == "User not found."@))
    &&& (forall|k: int|
        0 <= k < s.users@.len() && (#[trigger] s.users@[k]).email@ == email@ && !argon2_matches(
            password@,
            s.users@[k].password@,
        ) ==> (r matches Err(e) && e is InvalidCredentials))
    &&& (forall|k: int|
        0 <= k < s.users@.len() && (#[trigger] s.users@[k]).email@ == email@ && argon2_matches(
            password@,
            s.users@[k].password@,
        ) ==> r is Ok)
    &&& (r matches Ok(t) ==> (exists|k: int|
        0 <= k < s.users@.len() && (#[trigger] s.users@[k]).email@ == email@ && argon2_matches(
            password@,
            s.users@[k].password@,
        ) && jwt_claims_of(t@, secret) == Some((dec_str(s.users@[k].id as nat), token_expiry(now)))
            && t@.len() > 0))
}

impl UsersModel {
    /// Registers a user at instant `now`: hashes the password with a fresh
    /// random salt, stores name, email and hash, and returns the public
    /// view. The plaintext and the hash never leave this component.
    pub fn create_at(
        name: String,
        email: String,
        password: String,
        now: u64,
        store: &mut Store,
    ) -> (r: Result<UsersModelResponse, AppError>)
        requires
            old(store).wf(),
        ensures
            final(store).wf(),
            register_post(*old(store), *final(store), name, email, password, now, r),
    {
        if store.find_user_by_email(&email).is_some() {
            return Err(AppError::DuplicateEmail);
        }
        if store.next_user_id == i32::MAX {
            return Err(AppError::StorageFailure);
        }
        let hash = match argon2_hash(password.as_str()) {
            Some(h) => h,
            None => {
                return Err(AppError::HashingFailure);
            },
        };
        let id = store.next_user_id;
        let ghost email0 = email;
        let resp = UsersModelResponse { id, name: name.clone(), email: email.clone() };
        let row = UsersModel { id, name, email, password: hash, created_at: now, updated_at: now };
        store.users.push(row);
        store.next_user_id = id + 1;
        proof {
            let u0 = old(store).users@;
            let u1 = store.users@;
            assert(u1.drop_last() =~= u0);
            assert(u1[u0.len() as int].email@ == email0@);
            assert(has_user_email(u1, email0@));
            assert forall|j: int, k2: int|
                0 <= j < k2 < u1.len() implies (#[trigger] u1[j]).id != (#[trigger] u1[k2]).id by {
                if k2 == u0.len() as int {
                    assert(u1[j].id < old(store).next_user_id);
                }
            }
            assert forall|j: int, k2: int|
                0 <= j < k2 < u1.len() implies (#[trigger] u1[j]).email@ != (
                #[trigger] u1[k2]).email@ by {
                if k2 == u0.len() as int {
                    assert(!(0 <= j < u0.len() && u0[j].email@ == email0@));
                }
            }
        }
        Ok(resp)
    }

    /// Registration against the store's clock: as `create_at`, at the
    /// instant the store accepted the row.
    pub fn create(name: String, email: String, password: String, store: &mut Store) -> (r: Result<
        UsersModelResponse,
        AppError,
    >)
        requires
            old(store).wf(),
        ensures
            final(store).wf(),
            exists|t: u64| register_post(*old(store), *final(store), name, email, password, t, r),
    {
        let now = crate::clock::now_unix();
        let ghost name0 = name;
        let ghost email0 = email;
        let ghost password0 = password;
        let r = Self::create_at(name, email, password, now, store);
        proof {
            assert(register_post(*old(store), *store, name0, email0, password0, now, r));
        }
        r
    }

    /// Verifies a password against the stored hash for `email` and, on a
    /// match, issues a token for that user expiring 24 hours after `now`.
    pub fn login_at(
        email: String,
        password: String,
        now: u64,
        secret: &[u8],
        store: &Store,
    ) -> (r: Result<String, AppError>)
        requires
            store.wf(),
        ensures
            login_post(*store, email, password, now, secret@, r),
    {
        let k = match store.find_user_by_email(&email) {
            None => {
                return Err(AppError::NotFound("User not found.".to_owned()));
            },
            Some(k) => k,
        };
        let u = &store.users[k];
        proof {
            assert forall|k2: int|
                0 <= k2 < store.users@.len() && (#[trigger] store.users@[k2]).email@
                    == email@ implies k2 == k as int by {
                if k2 < k as int {
                    assert(store.users@[k2].email@ != store.users@[k as int].email@);
                } else if k2 > k as int {
                    assert(store.users@[k as int].email@ != store.users@[k2].email@);
                }
            }
        }
        if !argon2_verify(password.as_str(), u.password.as_str()) {
            return Err(AppError::InvalidCredentials);
        }
        crate::token::encode_token(u.id, now, secret)
    }

    /// Login against the store's clock: as `login_at`, at the instant the
    /// attempt was made.
    pub fn login(email: String, password: String, secret: &[u8], store: &Store) -> (r: Result<
        String,
        AppError,
    >)
        requires
            store.wf(),
        ensures
            exists|t: u64| login_post(*store, email, password, t, secret@, r),
    {
        let now = crate::clock::now_unix();
        let ghost email0 = email;
        let ghost password0 = password;
        let r = Self::login_at(email, password, now, secret, store);
        proof {
            assert(login_post(*store, email0, password0, now, secret@, r));
        }
        r
    }
}

} // verus!
