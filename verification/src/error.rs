//! How a failed REST request is answered.

use vstd::prelude::*;
use vstd::string::*;

verus! {

#[derive(Debug)]
pub enum AppError {
    BadRequest(String),
    NotFound,
    Internal(String),
}

/// The status and the words of the answer.
pub open spec fn answer(e: AppError) -> (u16, Seq<char>) {
    match e {
        AppError::BadRequest(message) => (400, message@),
        AppError::NotFound => (404, "not found"@),
        AppError::Internal(message) => (500, message@),
    }
}

/// The error in words, for a log. What went wrong inside is not among them.
pub open spec fn words(e: AppError) -> Seq<char> {
    match e {
        AppError::BadRequest(message) => "bad request: "@ + message@,
        AppError::NotFound => "not found"@,
        AppError::Internal(_) => "internal error"@,
    }
}

impl AppError {
    /// The status and the words of the answer.
    pub fn into_answer(self) -> (r: (u16, String))
        ensures
            (r.0, r.1@) == answer(self),
    {
        match self {
            AppError::BadRequest(message) => (400, message),
            AppError::NotFound => (404, "not found".to_owned()),
            AppError::Internal(message) => (500, message),
        }
    }

    /// The error in words, for a log.
    pub fn message(&self) -> (r: String)
        ensures
            r@ == words(*self),
    {
        match self {
            AppError::BadRequest(message) => {
                let mut out: String = "bad request: ".to_owned();
                out.append(message.as_str());
                out
            },
            AppError::NotFound => "not found".to_owned(),
            AppError::Internal(_) => "internal error".to_owned(),
        }
    }
}

} // verus!
