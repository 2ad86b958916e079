//! Errors raised during the fallible phase of archiving.
//!
//! Every failure surfaces during the `archive`/`serialize` step; the
//! `resolve` step is infallible by contract and has no error path.

use vstd::prelude::*;

verus! {

/// An error from the fallible phase of an archive operation.
#[derive(Clone, Copy, Debug, PartialEq, Eq, Structural)]
pub enum ArchiveError {
    /// The writer's underlying sink cannot grow any further.
    SinkFull,
    /// An OS-native string did not hold valid UTF-8 text.
    InvalidEncoding,
    /// A lock guarding a value to serialize was poisoned.
    Poisoned,
}

} // verus!
