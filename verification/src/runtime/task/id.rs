//! What a task is called.

use vstd::prelude::*;

use crate::runtime::context;
use crate::runtime::context::Context;
use crate::runtime::text;

verus! {

/// Identifies a task among those currently live on its runtime.
///
/// It is the slot the task occupies in the runtime's registry, counted from one,
/// and so is used again once the task has completed.
#[derive(Clone, Copy, Debug, PartialEq, Eq, PartialOrd, Ord, Hash, Structural)]
pub struct Id {
    v: u32,
}

impl View for Id {
    type V = u32;

    closed spec fn view(&self) -> u32 {
        self.v
    }
}

impl Id {
    #[verifier::type_invariant]
    spec fn not_zero(self) -> bool {
        self.v != 0
    }

    /// The id of the task in slot `slot` of the registry.
    pub fn from_slot(slot: usize) -> (id: Id)
        requires
            slot < u32::MAX,
        ensures
            id@ == slot + 1,
    {
        Id { v: slot as u32 + 1 }
    }

    /// The slot of the registry.
    pub fn slot(self) -> (slot: usize)
        ensures
            slot == self@ - 1,
            slot < u32::MAX,
    {
        proof {
            use_type_invariant(self);
        }
        (self.v - 1) as usize
    }

    /// The number, as it is printed.
    pub fn text(self) -> (text: String)
        ensures
            text@ == text::decimal(self@ as nat),
    {
        text::decimal_string(self.v)
    }
}

/// The id of the task that is being polled. Must be called from inside a task.
pub fn id(context: &Context) -> (id: Id)
    requires
        context@.task is Some,
    ensures
        Some(id) == context@.task,
{
    match try_id(context) {
        Some(id) => id,
        // There is a task being polled, so this is never reached.
        None => Id { v: 1 },
    }
}

/// The id of the task that is being polled, if any.
pub fn try_id(context: &Context) -> (id: Option<Id>)
    ensures
        id == context@.task,
{
    context::current_task_id(context)
}

} // verus!
