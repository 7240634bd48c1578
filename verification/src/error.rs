use vstd::prelude::*;
use crate::text::concat2;

verus! {

/// Errors reported by the session and memory stores.
#[derive(Debug)]
pub enum MemoryError {
    NotFound(String),
    AccessDenied(String),
    NotResumable(String),
    DeletionBlocked(String),
    Internal(String),
}

/// The message of an error: its kind, a colon, and its detail.
pub open spec fn error_message(e: MemoryError) -> Seq<char> {
    match e {
        MemoryError::NotFound(d) => "not found: "@ + d@,
        MemoryError::AccessDenied(d) => "access denied: "@ + d@,
        MemoryError::NotResumable(d) => "session not resumable: "@ + d@,
        MemoryError::DeletionBlocked(d) => "deletion blocked: "@ + d@,
        MemoryError::Internal(d) => "internal error: "@ + d@,
    }
}

impl MemoryError {
    /// The human-readable message of the error, such as `not found: mem_1`.
    pub fn message(&self) -> (m: String)
        ensures
            m@ == error_message(*self),
    {
        match self {
            MemoryError::NotFound(d) => concat2("not found: ", d.as_str()),
            MemoryError::AccessDenied(d) => concat2("access denied: ", d.as_str()),
            MemoryError::NotResumable(d) => concat2("session not resumable: ", d.as_str()),
            MemoryError::DeletionBlocked(d) => concat2("deletion blocked: ", d.as_str()),
            MemoryError::Internal(d) => concat2("internal error: ", d.as_str()),
        }
    }
}

} // verus!
