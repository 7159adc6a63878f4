use crate::user::UserId;
use vstd::prelude::*;

verus! {

/// The closed set of failures an operation can report.
#[derive(Debug, Clone)]
pub enum AppError {
    /// No user with this identity is stored.
    UserNotFound(UserId),
    /// The email text fails the format check.
    InvalidEmail(String),
    /// A repository-level limit was hit.
    RepositoryError(String),
}

} // verus!
