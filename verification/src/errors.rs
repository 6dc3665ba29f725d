//! The kinds of failure in the pipeline, and which of them a caller sees.

use vstd::prelude::*;

verus! {

/// What can go wrong between observing an activity and storing its event.
#[derive(Clone, Copy, Debug, PartialEq, Eq, Structural)]
pub enum ErrorKind {
    /// An ancillary lookup failed; a fallback value stands in for its result.
    ProbeFailure,
    /// A read from or write to the store failed.
    PersistenceFailure,
    /// A concurrent insert of the same natural key won; the resolver retries.
    ResolutionConflict,
    /// A submission holds a malformed or missing field.
    ValidationFailure,
}

impl ErrorKind {
    /// Whether the direct caller gets to see this failure. Probe failures are
    /// recovered on the spot and resolution conflicts are retried, so neither
    /// is.
    pub open spec fn surfaced(self) -> bool {
        self == ErrorKind::PersistenceFailure || self == ErrorKind::ValidationFailure
    }

    /// The HTTP status that reports this failure: a client error for a bad
    /// submission, a server error for a failing store, none for a failure
    /// that is never surfaced.
    pub open spec fn status(self) -> Option<u16> {
        match self {
            ErrorKind::ValidationFailure => Some(400u16),
            ErrorKind::PersistenceFailure => Some(500u16),
            ErrorKind::ProbeFailure => None,
            ErrorKind::ResolutionConflict => None,
        }
    }

    /// See [`ErrorKind::surfaced`].
    pub fn is_surfaced(&self) -> (yes: bool)
        ensures
            yes == self.surfaced(),
    {
        match self {
            ErrorKind::PersistenceFailure => true,
            ErrorKind::ValidationFailure => true,
            ErrorKind::ProbeFailure => false,
            ErrorKind::ResolutionConflict => false,
        }
    }

    /// See [`ErrorKind::status`].
    pub fn status_code(&self) -> (code: Option<u16>)
        ensures
            code == self.status(),
            code is Some <==> self.surfaced(),
            code matches Some(c) ==> 400 <= c < 600,
    {
        match self {
            ErrorKind::ValidationFailure => Some(400),
            ErrorKind::PersistenceFailure => Some(500),
            ErrorKind::ProbeFailure => None,
            ErrorKind::ResolutionConflict => None,
        }
    }
}

} // verus!
