//! The slab that timers, operations and tasks are kept in.

use vstd::prelude::*;

verus! {

/// [`slab::Slab`], a table that hands out the key of each value put into it.
///
/// Nothing inside it is visible here. What a slab holds is given a name next to
/// each of its users, and the operations they need are specified over that
/// name.
#[verifier::external_type_specification]
#[verifier::external_body]
#[verifier::reject_recursive_types(T)]
pub struct ExSlab<T>(slab::Slab<T>);

} // verus!
