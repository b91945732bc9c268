//! The closed set of failure kinds of the service, and their mapping to
//! transport-level status codes and opaque messages.

use vstd::prelude::*;

verus! {

/// Everything a request can fail with.
///
/// * `Validation`: the submitted payload was rejected (empty content).
/// * `NotFound`: the addressed task does not exist.
/// * `Storage`: the store could not perform the operation.
#[derive(Clone, Copy, Debug, PartialEq, Eq, Structural)]
pub enum ApiError {
    Validation,
    NotFound,
    Storage,
}

impl ApiError {
    /// The HTTP status code each failure kind maps to.
    pub open spec fn spec_status_code(self) -> u16 {
        match self {
            ApiError::Validation => 400,
            ApiError::NotFound => 404,
            ApiError::Storage => 500,
        }
    }

    /// The response body for each failure kind.  Internal details are never
    /// leaked: the storage message is deliberately opaque.
    pub open spec fn spec_message(self) -> Seq<char> {
        match self {
            ApiError::Validation => "Won't use empty payloads"@,
            ApiError::NotFound => "No such task"@,
            ApiError::Storage => "An unexpected exception has occured"@,
        }
    }

    pub fn status_code(&self) -> (c: u16)
        ensures
            c == self.spec_status_code(),
    {
        match self {
            ApiError::Validation => 400,
            ApiError::NotFound => 404,
            ApiError::Storage => 500,
        }
    }

    pub fn message(&self) -> (m: String)
        ensures
            m@ == self.spec_message(),
    {
        match self {
            ApiError::Validation => String::from_str("Won't use empty payloads"),
            ApiError::NotFound => String::from_str("No such task"),
            ApiError::Storage => String::from_str("An unexpected exception has occured"),
        }
    }
}

} // verus!
