//! Points on the monotonic clock.

use vstd::prelude::*;

verus! {

/// A point on the monotonic clock, counted in nanoseconds from wherever that
/// clock starts.
#[derive(Clone, Copy, Debug, PartialEq, Eq, Structural)]
pub struct Instant {
    pub nanos: u128,
}

impl Instant {
    /// Nanoseconds from `earlier` to here, or none at all if `earlier` is later.
    pub fn saturating_nanos_since(self, earlier: Instant) -> (nanos: u128)
        ensures
            nanos == if self.nanos >= earlier.nanos {
                self.nanos - earlier.nanos
            } else {
                0
            },
    {
        if self.nanos >= earlier.nanos {
            self.nanos - earlier.nanos
        } else {
            0
        }
    }
}

} // verus!
