//! Application-level errors.
use vstd::prelude::*;

verus! {

/// An application error: a message for the user.
#[derive(Debug, PartialEq, Eq)]
pub struct AppError {
    pub message: String,
}

/// Result of an application operation.
pub type AppResult<T> = Result<T, AppError>;

impl AppError {
    /// An error with the given message.
    pub fn new(message: &str) -> (e: AppError)
        ensures
            e.message@ == message@,
    {
        AppError { message: message.to_owned() }
    }

    /// An error carrying another error's display text.
    pub fn from_error(description: String) -> (e: AppError)
        ensures
            e.message@ == description@,
    {
        AppError { message: description }
    }
}

impl Clone for AppError {
    fn clone(&self) -> (c: AppError)
        ensures
            c.message@ == self.message@,
    {
        AppError { message: self.message.clone() }
    }
}

} // verus!
