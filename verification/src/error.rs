//! The library's error type.
use vstd::prelude::*;

verus! {

/// Errors reported back to callers of the library.
#[derive(Debug)]
pub enum AppError {
    /// An input was rejected; the text says why.
    Validation(String),
    /// Data produced at run time is not what it should be; the text says
    /// why.
    Runtime(String),
}

pub type AppResult<T> = Result<T, AppError>;

impl AppError {
    /// The explanation carried by the error.
    pub open spec fn message(self) -> Seq<char> {
        match self {
            AppError::Validation(m) => m@,
            AppError::Runtime(m) => m@,
        }
    }

    /// The explanation as an owned string.
    pub fn message_text(&self) -> (out: String)
        ensures
            out@ == self.message(),
    {
        match self {
            AppError::Validation(m) => m.clone(),
            AppError::Runtime(m) => m.clone(),
        }
    }
}

/// A text result seen through the views: the accepted text, or the error's
/// explanation.
pub open spec fn text_outcome(r: AppResult<String>) -> Result<Seq<char>, Seq<char>> {
    match r {
        Ok(s) => Ok(s@),
        Err(e) => Err(e.message()),
    }
}

/// A validation error carrying a copy of `msg`.
pub fn validation(msg: &str) -> (e: AppError)
    ensures
        e.message() == msg@,
        e is Validation,
{
    AppError::Validation(crate::text::owned(msg))
}

} // verus!
