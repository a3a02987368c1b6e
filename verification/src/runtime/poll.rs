//! Whether something has happened yet.

use vstd::prelude::*;

verus! {

/// The answer to asking for a value that may not be there yet.
#[derive(Debug, PartialEq, Eq)]
pub enum Poll<T> {
    /// The value is there.
    Ready(T),
    /// It is not, and whoever asked will be told when it is.
    Pending,
}

impl<T> Poll<T> {
    /// Whether the value is there.
    pub fn is_ready(&self) -> (ready: bool)
        ensures
            ready == (*self is Ready),
    {
        match self {
            Poll::Ready(_) => true,
            Poll::Pending => false,
        }
    }
}

} // verus!
