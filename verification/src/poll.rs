//! The answer of a poll.

use vstd::prelude::*;

verus! {

/// Whether a value is available yet.
#[derive(Debug, PartialEq, Eq)]
pub enum Poll<T> {
    /// The value is available.
    Ready(T),
    /// The value is not available yet, and the waker that was handed in is woken
    /// when it may be.
    Pending,
}

} // verus!
