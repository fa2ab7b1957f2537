//! Core of a threaded-messaging backend: an in-memory relational store of
//! users and messages, message creation/modification/deletion guarded by
//! referential-integrity checks, reply-subtree reconstruction, and a
//! credential manager (salted password hashes, signed bearer tokens).

mod clock;
pub mod digits;
pub mod errors;
pub mod message;
pub mod mutations;
pub mod queries;
pub mod store;
pub mod thread;
pub mod token;
pub mod users;
