//! The name of whoever is waiting for something.

use vstd::prelude::*;

verus! {

/// Somebody who can be woken.
///
/// The library never wakes anybody itself: it keeps wakers for the callers that
/// left them and hands them back when what they wait for has happened. A waker
/// is therefore only a name here. Two wakers with the same token wake the same
/// task.
#[derive(Clone, Copy, Debug, PartialEq, Eq, Structural)]
pub struct Waker {
    pub token: u64,
}

impl Waker {
    /// Whether waking `other` wakes the same task as waking this.
    pub fn will_wake(&self, other: &Waker) -> (same: bool)
        ensures
            same == (*self == *other),
    {
        self.token == other.token
    }
}

} // verus!
