//! The query surface handed to the transport collaborator: reads need no
//! token. Also the per-field resolvers of the two response views.

use vstd::prelude::*;

use crate::errors::AppError;
use crate::message::range_rows;
use crate::message::rows_match;
use crate::message::MessageModel;
use crate::message::MessageModelResponse;
use crate::store::has_msg_id;
use crate::store::has_user_id;
use crate::store::Store;
use crate::thread::subtree_rows;
use crate::users::UsersModelResponse;

verus! {

/// The root of all read-only operations.
pub struct QueryRoot;

impl QueryRoot {
    /// All messages by `user_id` in the optional closed time range: behaves
    /// as `MessageModel::find_by_user_id_and_time_range`.
    pub fn find_by_user_id_and_time_range(
        user_id: i32,
        start_time: Option<u64>,
        end_time: Option<u64>,
        store: &Store,
    ) -> (r: Result<Vec<MessageModelResponse>, AppError>)
        requires
            store.wf(),
        ensures
            r is Ok <==> has_user_id(store.users@, user_id),
            r matches Err(e) ==> e matches AppError::NotFound(m) && m@ == "User not found."@,
            r matches Ok(rows) ==> rows_match(
                rows@,
                range_rows(store.messages@, user_id, start_time, end_time),
            ),
    {
        MessageModel::find_by_user_id_and_time_range(user_id, start_time, end_time, store)
    }

    /// The full reply thread of message `id`: behaves as
    /// `MessageModel::find_messages_by_id`.
    pub fn find_messages_by_id(id: i32, store: &Store) -> (r: Result<
        Vec<MessageModelResponse>,
        AppError,
    >)
        requires
            store.wf(),
        ensures
            r is Ok <==> has_msg_id(store.messages@, id),
            r matches Err(e) ==> e matches AppError::NotFound(m) && m@ == "Message not found."@,
            r matches Ok(rows) ==> rows_match(rows@, subtree_rows(store.messages@, id)),
    {
        MessageModel::find_messages_by_id(id, store)
    }
}

impl MessageModelResponse {
    /// The message id.
    pub fn id(&self) -> (r: i32)
        ensures
            r == self.id,
    {
        self.id
    }

    /// The author's user id.
    pub fn user_id(&self) -> (r: i32)
        ensures
            r == self.user_id,
    {
        self.user_id
    }

    /// The message body.
    pub fn message(&self) -> (r: String)
        ensures
            r@ == self.message@,
    {
        self.message.clone()
    }

    /// The parent message id, absent for a thread root.
    pub fn parent_id(&self) -> (r: Option<i32>)
        ensures
            r == self.parent_id,
    {
        self.parent_id
    }

    /// The message timestamp, in Unix seconds.
    pub fn message_time(&self) -> (r: u64)
        ensures
            r == self.message_time,
    {
        self.message_time
    }
}

impl UsersModelResponse {
    /// The user id.
    pub fn id(&self) -> (r: i32)
        ensures
            r == self.id,
    {
        self.id
    }

    /// The display name.
    pub fn name(&self) -> (r: String)
        ensures
            r@ == self.name@,
    {
        self.name.clone()
    }

    /// The email address.
    pub fn email(&self) -> (r: String)
        ensures
            r@ == self.email@,
    {
        self.email.clone()
    }
}

} // verus!
