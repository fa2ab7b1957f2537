//! Message store operations: the message rows, their response views, and
//! create / modify / delete / time-range retrieval, each gated by the
//! referential-integrity probes.

use vstd::prelude::*;

use crate::errors::AppError;
use crate::store::has_msg_id;
use crate::store::has_user_id;
use crate::store::Store;
use crate::thread::contains_resp_id;
use crate::thread::has_resp_id;
use crate::thread::idx_of;
use crate::thread::in_closure_idx;
use crate::thread::lemma_idx_of;
use crate::thread::lemma_idx_of_unique;
use crate::thread::lemma_upto_ids;
use crate::thread::subtree_rows;
use crate::thread::subtree_rows_upto;

verus! {

/// A persisted message row. `parent_id` is `None` for a thread root and
/// otherwise names a message that existed when this row was inserted, so the
/// parent relation forms a forest. Timestamps are whole seconds since the
/// Unix epoch: `message_time` is the client-observable creation instant,
/// `created_at` / `updated_at` are audit timestamps.
#[derive(Debug)]
pub struct MessageModel {
    pub id: i32,
    pub user_id: i32,
    pub message: String,
    pub parent_id: Option<i32>,
    pub message_time: u64,
    pub created_at: u64,
    pub updated_at: u64,
}

/// The caller-facing view of a message row: everything but the audit
/// timestamps.
#[derive(Debug)]
pub struct MessageModelResponse {
    pub id: i32,
    pub user_id: i32,
    pub message: String,
    pub parent_id: Option<i32>,
    pub message_time: u64,
}

/// The response `r` carries exactly the caller-facing fields of the row `m`.
pub open spec fn resp_matches(r: MessageModelResponse, m: MessageModel) -> bool {
    &&& r.id == m.id
    &&& r.user_id == m.user_id
    &&& r.message@ == m.message@
    &&& r.parent_id == m.parent_id
    &&& r.message_time == m.message_time
}

/// Each response in `rs` carries the caller-facing fields of the row of `ms`
/// at the same position.
pub open spec fn rows_match(rs: Seq<MessageModelResponse>, ms: Seq<MessageModel>) -> bool {
    &&& rs.len() == ms.len()
    &&& forall|i: int| 0 <= i < rs.len() ==> resp_matches(#[trigger] rs[i], ms[i])
}

/// The row a creation at instant `now` appends: body and parent as given,
/// all three timestamps set to `now`.
pub open spec fn new_message_row(
    id: i32,
    user_id: i32,
    body: String,
    parent_id: Option<i32>,
    now: u64,
) -> MessageModel {
    MessageModel {
        id,
        user_id,
        message: body,
        parent_id,
        message_time: now,
        created_at: now,
        updated_at: now,
    }
}

/// The row a modification at instant `now` leaves behind: the body and the
/// update-audit timestamp change, everything else — id, author, parent,
/// message timestamp, creation timestamp — is immutable.
pub open spec fn modified_row(m: MessageModel, body: String, now: u64) -> MessageModel {
    MessageModel {
        id: m.id,
        user_id: m.user_id,
        message: body,
        parent_id: m.parent_id,
        message_time: m.message_time,
        created_at: m.created_at,
        updated_at: now,
    }
}

/// An optional parent reference is acceptable when absent (a thread root) or
/// when it names an existing message.
pub open spec fn parent_ok(msgs: Seq<MessageModel>, parent_id: Option<i32>) -> bool {
    parent_id matches Some(p) ==> has_msg_id(msgs, p)
}

/// How message creation at instant `now` relates the store before and after
/// and the result: a missing author or parent is rejected with the precise
/// message, an exhausted id space as `StorageFailure`, and otherwise the
/// call succeeds, appending exactly one row with the fresh id; the user
/// table is never touched.
pub open spec fn create_post(
    old_s: Store,
    new_s: Store,
    user_id: i32,
    message: String,
    parent_id: Option<i32>,
    now: u64,
    r: Result<MessageModelResponse, AppError>,
) -> bool {
    &&& new_s.users@ == old_s.users@
    &&& new_s.next_user_id == old_s.next_user_id
    &&& (!has_user_id(old_s.users@, user_id) ==> (r matches Err(e) && e matches AppError::NotFound(
        m,
    ) && m@ == "User not found."@))
    &&& (has_user_id(old_s.users@, user_id) && !parent_ok(old_s.messages@, parent_id) ==> (
    r matches Err(e) && e matches AppError::NotFound(m) && m@ == "Parent message not found."@))
    &&& (has_user_id(old_s.users@, user_id) && parent_ok(old_s.messages@, parent_id)
        && old_s.next_message_id == i32::MAX ==> (r matches Err(e) && e is StorageFailure))
    &&& (has_user_id(old_s.users@, user_id) && parent_ok(old_s.messages@, parent_id)
        && old_s.next_message_id < i32::MAX ==> r is Ok)
    &&& (r is Err ==> new_s.messages@ == old_s.messages@ && new_s.next_message_id
        == old_s.next_message_id)
    &&& (r matches Ok(resp) ==> {
        &&& has_user_id(old_s.users@, user_id)
        &&& parent_ok(old_s.messages@, parent_id)
        &&& new_s.messages@ == old_s.messages@.push(
            new_message_row(old_s.next_message_id, user_id, message, parent_id, now),
        )
        &&& new_s.next_message_id == old_s.next_message_id + 1
        &&& resp_matches(resp, new_message_row(old_s.next_message_id, user_id, message, parent_id, now))
    })
}

/// How message modification at instant `now` relates the store before and
/// after and the result: a missing id is rejected with the precise message;
/// otherwise the one row carrying `id` is replaced by `modified_row` of it
/// and its caller-facing view is returned.
pub open spec fn modify_post(
    old_s: Store,
    new_s: Store,
    id: i32,
    message: String,
    now: u64,
    r: Result<MessageModelResponse, AppError>,
) -> bool {
    &&& new_s.users@ == old_s.users@
    &&& new_s.next_user_id == old_s.next_user_id
    &&& new_s.next_message_id == old_s.next_message_id
    &&& (!has_msg_id(old_s.messages@, id) ==> (r matches Err(e) && e matches AppError::NotFound(m)
        && m@ == "Message not found."@) && new_s.messages@ == old_s.messages@)
    &&& (has_msg_id(old_s.messages@, id) ==> r is Ok)
    &&& (r is Err ==> new_s.messages@ == old_s.messages@)
    &&& (r matches Ok(resp) ==> (exists|k: int|
        0 <= k < old_s.messages@.len() && (#[trigger] old_s.messages@[k]).id == id
            && new_s.messages@ == old_s.messages@.update(
            k,
            modified_row(old_s.messages@[k], message, now),
        ) && resp_matches(resp, modified_row(old_s.messages@[k], message, now))))
}

/// How message deletion relates the store before and after and the result: a
/// missing id is rejected with the precise message; otherwise the one row
/// carrying `id` is removed — and nothing else: descendants are not
/// cascaded, they stay behind with a dangling parent reference — and the
/// deleted id is returned as confirmation.
pub open spec fn delete_post(
    old_s: Store,
    new_s: Store,
    id: i32,
    r: Result<i32, AppError>,
) -> bool {
    &&& new_s.users@ == old_s.users@
    &&& new_s.next_user_id == old_s.next_user_id
    &&& new_s.next_message_id == old_s.next_message_id
    &&& (!has_msg_id(old_s.messages@, id) ==> (r matches Err(e) && e matches AppError::NotFound(m)
        && m@ == "Message not found."@) && new_s.messages@ == old_s.messages@)
    &&& (has_msg_id(old_s.messages@, id) ==> r is Ok)
    &&& (r is Err ==> new_s.messages@ == old_s.messages@)
    &&& (r matches Ok(rid) ==> rid == id && (exists|k: int|
        0 <= k < old_s.messages@.len() && (#[trigger] old_s.messages@[k]).id == id
            && new_s.messages@ == old_s.messages@.remove(k)))
}

/// Whether `t` lies in the optional closed time range: each bound constrains
/// only when present, so the four start/end combinations give between-,
/// at-least-, at-most- and no filtering.
pub open spec fn in_time_range(t: u64, start: Option<u64>, end: Option<u64>) -> bool {
    &&& (start matches Some(s) ==> s <= t)
    &&& (end matches Some(e) ==> t <= e)
}

/// The rows of `msgs`, in store order, whose author is `user_id` and whose
/// message timestamp lies in the range.
pub open spec fn range_rows(
    msgs: Seq<MessageModel>,
    user_id: i32,
    start: Option<u64>,
    end: Option<u64>,
) -> Seq<MessageModel>
    decreases msgs.len(),
{
    if msgs.len() == 0 {
        Seq::empty()
    } else {
        let rest = range_rows(msgs.drop_last(), user_id, start, end);
        if msgs.last().user_id == user_id && in_time_range(msgs.last().message_time, start, end) {
            rest.push(msgs.last())
        } else {
            rest
        }
    }
}

impl MessageModel {
    /// The caller-facing view of this row.
    pub fn to_response(&self) -> (r: MessageModelResponse)
        ensures
            resp_matches(r, *self),
    {
        MessageModelResponse {
            id: self.id,
            user_id: self.user_id,
            message: self.message.clone(),
            parent_id: self.parent_id,
            message_time: self.message_time,
        }
    }

    /// Creates a message at instant `now`: validates the author and the
    /// optional parent, then appends the row with a fresh id and returns its
    /// caller-facing view.
    pub fn create_at(
        user_id: i32,
        message: String,
        parent_id: Option<i32>,
        now: u64,
        store: &mut Store,
    ) -> (r: Result<MessageModelResponse, AppError>)
        requires
            old(store).wf(),
        ensures
            final(store).wf(),
            create_post(*old(store), *final(store), user_id, message, parent_id, now, r),
    {
        match store.assert_user_exists(user_id) {
            Err(e) => {
                return Err(e);
            },
            Ok(()) => {},
        }
        match store.assert_parent_valid(parent_id) {
            Err(e) => {
                return Err(e);
            },
            Ok(()) => {},
        }
        if store.next_message_id == i32::MAX {
            return Err(AppError::StorageFailure);
        }
        let id = store.next_message_id;
        let resp = MessageModelResponse {
            id,
            user_id,
            message: message.clone(),
            parent_id,
            message_time: now,
        };
        let row = MessageModel {
            id,
            user_id,
            message,
            parent_id,
            message_time: now,
            created_at: now,
            updated_at: now,
        };
        store.messages.push(row);
        store.next_message_id = id + 1;
        proof {
            let m0 = old(store).messages@;
            let m1 = store.messages@;
            assert forall|j: int, k2: int|
                0 <= j < k2 < m1.len() implies (#[trigger] m1[j]).id < (#[trigger] m1[k2]).id by {
                if k2 == m0.len() as int {
                    assert(m1[j].id < old(store).next_message_id);
                }
            }
            if parent_id is Some {
                let p = parent_id->0;
                let pk = choose|k: int| 0 <= k < m0.len() && (#[trigger] m0[k]).id == p;
                assert(0 < m0[pk].id < old(store).next_message_id);
            }
        }
        Ok(resp)
    }

    /// Creation against the store's clock: as `create_at`, at the instant
    /// the store accepted the row.
    pub fn create(
        user_id: i32,
        message: String,
        parent_id: Option<i32>,
        store: &mut Store,
    ) -> (r: Result<MessageModelResponse, AppError>)
        requires
            old(store).wf(),
        ensures
            final(store).wf(),
            exists|t: u64|
                create_post(*old(store), *final(store), user_id, message, parent_id, t, r),
    {
        let now = crate::clock::now_unix();
        let ghost message0 = message;
        let r = Self::create_at(user_id, message, parent_id, now, store);
        proof {
            assert(create_post(*old(store), *store, user_id, message0, parent_id, now, r));
        }
        r
    }

    /// Replaces the body of the message carrying `id` at instant `now`; the
    /// message timestamp and the creation timestamp are immutable.
    pub fn modify_at(id: i32, message: String, now: u64, store: &mut Store) -> (r: Result<
        MessageModelResponse,
        AppError,
    >)
        requires
            old(store).wf(),
        ensures
            final(store).wf(),
            modify_post(*old(store), *final(store), id, message, now, r),
    {
        let k = match store.find_message_index(id) {
            None => {
                return Err(AppError::NotFound("Message not found.".to_owned()));
            },
            Some(k) => k,
        };
        let old_row = &store.messages[k];
        let resp = MessageModelResponse {
            id: old_row.id,
            user_id: old_row.user_id,
            message: message.clone(),
            parent_id: old_row.parent_id,
            message_time: old_row.message_time,
        };
        let new_row = MessageModel {
            id: old_row.id,
            user_id: old_row.user_id,
            message,
            parent_id: old_row.parent_id,
            message_time: old_row.message_time,
            created_at: old_row.created_at,
            updated_at: now,
        };
        store.messages[k] = new_row;
        Ok(resp)
    }

    /// Modification against the store's clock: as `modify_at`, at the
    /// instant the store accepted the new body.
    pub fn modify(id: i32, message: String, store: &mut Store) -> (r: Result<
        MessageModelResponse,
        AppError,
    >)
        requires
            old(store).wf(),
        ensures
            final(store).wf(),
            exists|t: u64| modify_post(*old(store), *final(store), id, message, t, r),
    {
        let now = crate::clock::now_unix();
        let ghost message0 = message;
        let r = Self::modify_at(id, message, now, store);
        proof {
            assert(modify_post(*old(store), *store, id, message0, now, r));
        }
        r
    }

    /// Removes the message carrying `id` and returns the id as
    /// confirmation. Descendants are not cascaded: they keep their (now
    /// dangling) parent reference.
    pub fn delete(id: i32, store: &mut Store) -> (r: Result<i32, AppError>)
        requires
            old(store).wf(),
        ensures
            final(store).wf(),
            delete_post(*old(store), *final(store), id, r),
    {
        let k = match store.find_message_index(id) {
            None => {
                return Err(AppError::NotFound("Message not found.".to_owned()));
            },
            Some(k) => k,
        };
        store.messages.remove(k);
        Ok(id)
    }

    /// All messages by `user_id` whose message timestamp lies in the
    /// optional closed time range, in store order.
    pub fn find_by_user_id_and_time_range(
        user_id: i32,
        start_time: Option<u64>,
        end_time: Option<u64>,
        store: &Store,
    ) -> (r: Result<Vec<MessageModelResponse>, AppError>)
        requires
            store.wf(),
        ensures
            r is Ok <==> has_user_id(store.users@, user_id),
            r matches Err(e) ==> e matches AppError::NotFound(m) && m@ == "User not found."@,
            r matches Ok(rows) ==> rows_match(
                rows@,
                range_rows(store.messages@, user_id, start_time, end_time),
            ),
    {
        match store.assert_user_exists(user_id) {
            Err(e) => {
                return Err(e);
            },
            Ok(()) => {},
        }
        let mut out: Vec<MessageModelResponse> = Vec::new();
        let n = store.messages.len();
        for i in 0..n
            invariant
                n == store.messages@.len(),
                rows_match(
                    out@,
                    range_rows(store.messages@.take(i as int), user_id, start_time, end_time),
                ),
        {
            let m = &store.messages[i];
            let in_range = match start_time {
                Some(s) => s <= m.message_time,
                None => true,
            } && match end_time {
                Some(e) => m.message_time <= e,
                None => true,
            };
            proof {
                assert(store.messages@.take(i + 1).drop_last() =~= store.messages@.take(i as int));
                assert(store.messages@.take(i + 1).last() == store.messages@[i as int]);
            }
            if m.user_id == user_id && in_range {
                out.push(m.to_response());
            }
        }
        proof {
            assert(store.messages@.take(n as int) =~= store.messages@);
        }
        Ok(out)
    }

    /// Reconstructs the full reply thread of the message carrying `id`: the
    /// row itself plus every descendant — each row whose parent references
    /// chain back to it — in store order. A single left-to-right pass
    /// suffices because a parent always sits before its children.
    pub fn find_messages_by_id(id: i32, store: &Store) -> (r: Result<
        Vec<MessageModelResponse>,
        AppError,
    >)
        requires
            store.wf(),
        ensures
            r is Ok <==> has_msg_id(store.messages@, id),
            r matches Err(e) ==> e matches AppError::NotFound(m) && m@ == "Message not found."@,
            r matches Ok(rows) ==> rows_match(rows@, subtree_rows(store.messages@, id)),
    {
        match store.assert_message_exists(id) {
            Err(e) => {
                return Err(e);
            },
            Ok(()) => {},
        }
        let ghost msgs = store.messages@;
        let mut out: Vec<MessageModelResponse> = Vec::new();
        let n = store.messages.len();
        for i in 0..n
            invariant
                n == msgs.len(),
                msgs == store.messages@,
                store.wf(),
                rows_match(out@, subtree_rows_upto(msgs, id, i as int)),
        {
            let m = &store.messages[i];
            let belongs = if m.id == id {
                true
            } else {
                match m.parent_id {
                    Some(p) => contains_resp_id(&out, p),
                    None => false,
                }
            };
            proof {
                let upto = subtree_rows_upto(msgs, id, i as int);
                if m.id != id && m.parent_id is Some {
                    let p = m.parent_id->0;
                    lemma_upto_ids(msgs, id, i as int, p);
                    if has_resp_id(out@, p) {
                        let k = choose|k: int| 0 <= k < out@.len() && (#[trigger] out@[k]).id == p;
                        assert(upto[k].id == p);
                        assert(has_msg_id(upto, p));
                        let j = choose|j: int|
                            0 <= j < i && (#[trigger] msgs[j]).id == p && in_closure_idx(
                                msgs,
                                id,
                                j,
                            );
                        lemma_idx_of_unique(msgs, p, j);
                        assert(in_closure_idx(msgs, id, i as int));
                    } else {
                        assert(!has_msg_id(upto, p)) by {
                            if has_msg_id(upto, p) {
                                let k = choose|k: int|
                                    0 <= k < upto.len() && (#[trigger] upto[k]).id == p;
                                assert(out@[k].id == p);
                            }
                        }
                        if in_closure_idx(msgs, id, i as int) {
                            let j = idx_of(msgs, p);
                            lemma_idx_of(msgs, p);
                            assert(0 <= j < i && msgs[j].id == p && in_closure_idx(msgs, id, j));
                        }
                    }
                }
                assert(belongs == in_closure_idx(msgs, id, i as int));
            }
            if belongs {
                out.push(m.to_response());
            }
        }
        Ok(out)
    }
}

} // verus!
