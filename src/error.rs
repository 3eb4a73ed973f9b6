//! What can go wrong.
use vstd::prelude::*;

verus! {

/// A broken invariant of the stored state: the invocation cannot go on.
#[derive(Clone, Copy, Debug, PartialEq, Eq, Structural)]
pub enum Fatal {
    /// A stored record does not decode.
    CorruptRecord,
    /// A counter has reached the largest identifier.
    CounterExhausted,
    /// Stable memory could not grow to hold a write.
    WriteFailed,
}

/// Why an operation was refused.
#[derive(Clone, Copy, Debug, PartialEq, Eq, Structural)]
pub enum StoreError {
    /// A referenced entity is absent.
    NotFound,
    /// The caller lacks the role or relationship the operation requires.
    Unauthorized,
    /// The entity is not in a state that permits the transition.
    InvalidState,
    /// The input is self-referential or otherwise nonsensical.
    InvalidArgument,
    /// See [`Fatal`].
    Fatal(Fatal),
}

} // verus!
