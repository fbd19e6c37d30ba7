//! The error taxonomy of the fetch layer.
//!
//! Rate limiting never appears here: a rate-limited request is retried
//! internally and is not an error.

use vstd::prelude::*;

verus! {

/// Why a fetch or a search failed.
#[derive(Debug, PartialEq, Eq, Structural)]
pub enum Error {
    /// A transport-level failure (connection or body decoding).
    NetworkFailure,
    /// A non-success, non-rate-limit HTTP status.
    UpstreamStatus(u16),
    /// A search returned an empty result set.
    NotFound,
}

impl Error {
    /// A short stable label for each variant, for callers that print errors.
    pub fn label(&self) -> (r: &'static str)
        ensures
            matches!(self, Error::NetworkFailure) ==> r@ == "network failure"@,
            matches!(self, Error::UpstreamStatus(_)) ==> r@ == "upstream status"@,
            matches!(self, Error::NotFound) ==> r@ == "not found"@,
    {
        match self {
            Error::NetworkFailure => "network failure",
            Error::UpstreamStatus(_) => "upstream status",
            Error::NotFound => "not found",
        }
    }
}

} // verus!
