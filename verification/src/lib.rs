//! A process-wide registry of uniqueness-qualified 128-bit tokens ("UUIDs"),
//! partitioned by caller-supplied string contexts.  Within one context no two
//! tracked tokens are ever equal; operations are reserve (generate-and-claim),
//! add, remove, replace, snapshot and drain.
use vstd::prelude::*;

pub mod coarse;
pub mod interface;
pub mod laws;
pub mod model;
pub mod registry;
pub mod sharded;
pub mod token;

verus! {

/// Errors returned by the pool operations.  Each variant carries a
/// human-readable detail string.
#[derive(Debug)]
pub enum UuidPoolError {
    /// `reserve` ran out of retries before finding an unused token.
    FailedToGenerateUniqueUuidError(String),
    /// A token or context that an operation expected to find was absent.
    FailedToFindUuidInPoolError(String),
    /// A token that an operation expected to establish was already tracked.
    FailedToSetUuidInPoolError(String),
}

impl UuidPoolError {
    /// The detail string carried by the error, whatever its kind.
    pub open spec fn message_spec(&self) -> Seq<char> {
        match self {
            UuidPoolError::FailedToGenerateUniqueUuidError(s) => s@,
            UuidPoolError::FailedToFindUuidInPoolError(s) => s@,
            UuidPoolError::FailedToSetUuidInPoolError(s) => s@,
        }
    }

    /// A copy of the detail string, for callers that want to display the error.
    pub fn message(&self) -> (r: String)
        ensures
            r@ == self.message_spec(),
    {
        match self {
            UuidPoolError::FailedToGenerateUniqueUuidError(s) => s.clone(),
            UuidPoolError::FailedToFindUuidInPoolError(s) => s.clone(),
            UuidPoolError::FailedToSetUuidInPoolError(s) => s.clone(),
        }
    }
}

} // verus!
