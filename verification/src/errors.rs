//! The typed failures the services return, and their mapping to HTTP
//! status codes, which the surrounding adapter performs.

use vstd::prelude::*;

verus! {

/// A terminal failure of one service call. `DatabaseError` covers any
/// store failure, uniqueness conflicts included; `NotFound` a token with
/// no record; `BadRequest` rejected input; `Gone` a record past its
/// expiration.
#[derive(Debug)]
pub enum AppError {
    DatabaseError(String),
    NotFound(String),
    BadRequest(String),
    Gone(String),
}

impl AppError {
    /// The HTTP status code each failure maps to.
    pub open spec fn spec_status_code(&self) -> u16 {
        match self {
            AppError::DatabaseError(_) => 500,
            AppError::NotFound(_) => 404,
            AppError::BadRequest(_) => 400,
            AppError::Gone(_) => 410,
        }
    }

    /// The message carried by the failure.
    pub open spec fn spec_message(&self) -> Seq<char> {
        match self {
            AppError::DatabaseError(m) => m@,
            AppError::NotFound(m) => m@,
            AppError::BadRequest(m) => m@,
            AppError::Gone(m) => m@,
        }
    }

    pub fn status_code(&self) -> (r: u16)
        ensures
            r == self.spec_status_code(),
    {
        match self {
            AppError::DatabaseError(_) => 500,
            AppError::NotFound(_) => 404,
            AppError::BadRequest(_) => 400,
            AppError::Gone(_) => 410,
        }
    }

    /// Hands out the message, consuming the error.
    pub fn into_message(self) -> (r: String)
        ensures
            r@ == self.spec_message(),
    {
        match self {
            AppError::DatabaseError(m) => m,
            AppError::NotFound(m) => m,
            AppError::BadRequest(m) => m,
            AppError::Gone(m) => m,
        }
    }
}

} // verus!
