//! Errors reported to callers of the runtime.
use vstd::prelude::*;

verus! {

/// Any error the runtime reports.
#[derive(Debug, Clone, PartialEq, Eq)]
pub enum ActlibError {
    ActorNotFound(String),
    LockPoisoned(String),
    SpawnFailed(String),
    InvalidState(String),
    NetworkError(String),
    InvalidActorRef(String),
}

impl ActlibError {
    /// The error for a lock whose holder panicked, carrying the lock error's description.
    pub fn from_poison_error(description: String) -> (r: ActlibError)
        ensures
            r matches ActlibError::LockPoisoned(d) && d@ == description@,
    {
        ActlibError::LockPoisoned(description)
    }
}

} // verus!
