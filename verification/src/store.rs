//! The transactional store, modelled in memory: two tables and the id
//! counters the store uses to assign fresh primary keys, together with the
//! referential-integrity probes that run before every write.

use vstd::prelude::*;

use crate::errors::AppError;
use crate::message::MessageModel;
use crate::users::UsersModel;

verus! {

/// Some user row carries the id `id`.
pub open spec fn has_user_id(users: Seq<UsersModel>, id: i32) -> bool {
    exists|k: int| 0 <= k < users.len() && (#[trigger] users[k]).id == id
}

/// Some user row carries the email `email`.
pub open spec fn has_user_email(users: Seq<UsersModel>, email: Seq<char>) -> bool {
    exists|k: int| 0 <= k < users.len() && (#[trigger] users[k]).email@ == email
}

/// Some message row carries the id `id`.
pub open spec fn has_msg_id(msgs: Seq<MessageModel>, id: i32) -> bool {
    exists|k: int| 0 <= k < msgs.len() && (#[trigger] msgs[k]).id == id
}

/// Well-formedness of the message table alone: ids are positive and strictly
/// increasing in store order (rows are inserted with fresh, growing ids and
/// deletion keeps the order), and a parent reference is always to a smaller
/// id, because the parent had to exist when the child was inserted. The
/// parent row itself may have been deleted since: descendants are orphaned,
/// never cascaded. A smaller-id parent makes a cycle impossible, so the
/// parent relation is a forest.
pub open spec fn msgs_wf(msgs: Seq<MessageModel>) -> bool {
    &&& forall|j: int, k: int|
        0 <= j < k < msgs.len() ==> (#[trigger] msgs[j]).id < (#[trigger] msgs[k]).id
    &&& forall|k: int| 0 <= k < msgs.len() ==> 0 < (#[trigger] msgs[k]).id
    &&& forall|k: int|
        0 <= k < msgs.len() ==> ((#[trigger] msgs[k]).parent_id matches Some(p) ==> 0 < p
            < msgs[k].id)
}

/// Well-formedness of the user table alone: ids positive and distinct,
/// emails distinct.
pub open spec fn users_wf(users: Seq<UsersModel>) -> bool {
    &&& forall|k: int| 0 <= k < users.len() ==> 0 < (#[trigger] users[k]).id
    &&& forall|j: int, k: int|
        0 <= j < k < users.len() ==> (#[trigger] users[j]).id != (#[trigger] users[k]).id
    &&& forall|j: int, k: int|
        0 <= j < k < users.len() ==> (#[trigger] users[j]).email@ != (#[trigger] users[k]).email@
}

/// The store: both tables plus the counters from which fresh ids are drawn.
#[derive(Debug)]
pub struct Store {
    pub users: Vec<UsersModel>,
    pub messages: Vec<MessageModel>,
    pub next_user_id: i32,
    pub next_message_id: i32,
}

impl Store {
    /// The store invariant: both tables are well formed and every id already
    /// handed out is below the matching counter, so a fresh id never
    /// collides.
    pub open spec fn wf(self) -> bool {
        &&& users_wf(self.users@)
        &&& msgs_wf(self.messages@)
        &&& 0 < self.next_user_id
        &&& 0 < self.next_message_id
        &&& forall|k: int|
            0 <= k < self.users@.len() ==> (#[trigger] self.users@[k]).id < self.next_user_id
        &&& forall|k: int|
            0 <= k < self.messages@.len() ==> (#[trigger] self.messages@[k]).id
                < self.next_message_id
    }

    /// An empty store.
    pub fn new() -> (s: Store)
        ensures
            s.wf(),
            s.users@.len() == 0,
            s.messages@.len() == 0,
            s.next_user_id == 1,
            s.next_message_id == 1,
    {
        Store { users: Vec::new(), messages: Vec::new(), next_user_id: 1, next_message_id: 1 }
    }

    /// Existence probe for a user id, run before any write that references
    /// one. Fails with the precise user-facing message.
    pub fn assert_user_exists(&self, user_id: i32) -> (r: Result<(), AppError>)
        ensures
            r is Ok <==> has_user_id(self.users@, user_id),
            r matches Err(e) ==> e matches AppError::NotFound(m) && m@ == "User not found."@,
    {
        let n = self.users.len();
        for k in 0..n
            invariant
                n == self.users@.len(),
                forall|j: int| 0 <= j < k ==> (#[trigger] self.users@[j]).id != user_id,
        {
            if self.users[k].id == user_id {
                return Ok(());
            }
        }
        Err(AppError::NotFound("User not found.".to_owned()))
    }

    /// Existence probe for a message id, run before modify/delete and before
    /// accepting a parent reference.
    pub fn assert_message_exists(&self, message_id: i32) -> (r: Result<(), AppError>)
        ensures
            r is Ok <==> has_msg_id(self.messages@, message_id),
            r matches Err(e) ==> e matches AppError::NotFound(m) && m@ == "Message not found."@,
    {
        let n = self.messages.len();
        for k in 0..n
            invariant
                n == self.messages@.len(),
                forall|j: int| 0 <= j < k ==> (#[trigger] self.messages@[j]).id != message_id,
        {
            if self.messages[k].id == message_id {
                return Ok(());
            }
        }
        Err(AppError::NotFound("Message not found.".to_owned()))
    }

    /// Looks a user up by email; under `wf` at most one row can match.
    pub fn find_user_by_email(&self, email: &String) -> (r: Option<usize>)
        ensures
            r matches Some(k) ==> k < self.users@.len() && self.users@[k as int].email@ == email@,
            r is None ==> !has_user_email(self.users@, email@),
            r is Some ==> has_user_email(self.users@, email@),
    {
        let n = self.users.len();
        for k in 0..n
            invariant
                n == self.users@.len(),
                forall|j: int| 0 <= j < k ==> (#[trigger] self.users@[j]).email@ != email@,
        {
            if self.users[k].email == *email {
                return Some(k);
            }
        }
        None
    }

    /// Looks a message up by id; under `wf` at most one row can match.
    pub fn find_message_index(&self, message_id: i32) -> (r: Option<usize>)
        ensures
            r matches Some(k) ==> k < self.messages@.len() && self.messages@[k as int].id
                == message_id,
            r is None <==> !has_msg_id(self.messages@, message_id),
    {
        let n = self.messages.len();
        for k in 0..n
            invariant
                n == self.messages@.len(),
                forall|j: int| 0 <= j < k ==> (#[trigger] self.messages@[j]).id != message_id,
        {
            if self.messages[k].id == message_id {
                return Some(k);
            }
        }
        None
    }

    /// Validity probe for an optional parent reference: a missing parent id
    /// denotes a thread root and passes; a present one must name an existing
    /// message.
    pub fn assert_parent_valid(&self, parent_id: Option<i32>) -> (r: Result<(), AppError>)
        ensures
            r is Ok <==> (parent_id matches Some(p) ==> has_msg_id(self.messages@, p)),
            r matches Err(e) ==> e matches AppError::NotFound(m) && m@
                == "Parent message not found."@,
    {
        match parent_id {
            None => Ok(()),
            Some(p) => match self.assert_message_exists(p) {
                Ok(()) => Ok(()),
                Err(_) => Err(AppError::NotFound("Parent message not found.".to_owned())),
            },
        }
    }
}

} // verus!
