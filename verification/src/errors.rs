//! The error taxonomy of the service.

use vstd::prelude::*;

verus! {

/// Every failure a service operation can report.
///
/// `NotFound` always carries a precise, user-displayable message naming the
/// missing entity. Hashing or signing primitive failures are mapped to
/// `HashingFailure`; they indicate an environment defect, not a user error.
/// `StorageFailure` reports a store-level fault not otherwise classified
/// (here: exhaustion of the id space).
#[derive(Debug)]
pub enum AppError {
    NotFound(String),
    InvalidCredentials,
    DuplicateEmail,
    HashingFailure,
    TokenExpired,
    InvalidToken,
    StorageFailure,
}

impl AppError {
    /// A user-displayable description of the error.
    pub fn describe(&self) -> (r: String)
        ensures
            self matches AppError::NotFound(m) ==> r@ == m@,
            self is InvalidCredentials ==> r@ == "Invalid password."@,
            self is DuplicateEmail ==> r@ == "Email already registered."@,
            self is HashingFailure ==> r@ == "Credential primitive failure."@,
            self is TokenExpired ==> r@ == "Token expired."@,
            self is InvalidToken ==> r@ == "Invalid token."@,
            self is StorageFailure ==> r@ == "Storage failure."@,
    {
        match self {
            AppError::NotFound(m) => m.clone(),
            AppError::InvalidCredentials => "Invalid password.".to_owned(),
            AppError::DuplicateEmail => "Email already registered.".to_owned(),
            AppError::HashingFailure => "Credential primitive failure.".to_owned(),
            AppError::TokenExpired => "Token expired.".to_owned(),
            AppError::InvalidToken => "Invalid token.".to_owned(),
            AppError::StorageFailure => "Storage failure.".to_owned(),
        }
    }
}

} // verus!
