//! What a refused or failed operation answers.

use vstd::prelude::*;
use vstd::string::*;

verus! {

/// What kind of failure an [`Error`] reports, as coarsely as a caller acts on it.
#[derive(Debug, Clone, Copy, PartialEq, Eq, Hash, Structural)]
pub enum ErrorCode {
    /// The request itself is refused.
    Invalid,
    /// Something the request names does not exist.
    NotFound,
    /// The request was fine and something underneath it failed.
    Internal,
}

/// A failure: its kind, and the sentence a reader sees.
#[derive(Debug, Clone, PartialEq, Eq)]
pub struct Error {
    pub code: ErrorCode,
    pub message: String,
}

impl Error {
    /// The error has this kind and exactly this sentence.
    pub open spec fn says(self, code: ErrorCode, message: Seq<char>) -> bool {
        self.code == code && self.message@ == message
    }

    /// A refused request.
    pub fn invalid(message: String) -> (r: Error)
        ensures
            r.code == ErrorCode::Invalid,
            r.message == message,
    {
        Error { code: ErrorCode::Invalid, message }
    }

    /// A request that names something that does not exist.
    pub fn not_found(message: String) -> (r: Error)
        ensures
            r.code == ErrorCode::NotFound,
            r.message == message,
    {
        Error { code: ErrorCode::NotFound, message }
    }

    /// A failure underneath a request that was fine.
    pub fn internal(message: String) -> (r: Error)
        ensures
            r.code == ErrorCode::Internal,
            r.message == message,
    {
        Error { code: ErrorCode::Internal, message }
    }

    /// The kind of failure.
    pub fn code(&self) -> (r: ErrorCode)
        ensures
            r == self.code,
    {
        self.code
    }
}

/// The refusal for a task id that names no task.
pub open spec fn no_task(id: Seq<char>) -> Seq<char> {
    "no task with id "@ + id
}

/// The refusal for a task id that names no task.
pub fn missing_task(id: &str) -> (r: Error)
    ensures
        r.says(ErrorCode::NotFound, no_task(id@)),
{
    let mut message = "no task with id ".to_owned();
    message.append(id);
    Error::not_found(message)
}

} // verus!
