//! Where tasks live.

use vstd::prelude::*;

verus! {

/// Values in places of their own, each of which stays where it is until it is
/// taken out. Places are used again.
pub struct Arena<T> {
    slots: Vec<Option<T>>,
    /// Places that are empty.
    free: Vec<usize>,
}

impl<T> View for Arena<T> {
    type V = Map<usize, T>;

    closed spec fn view(&self) -> Map<usize, T> {
        Map::new(
            |k: usize| k < self.slots@.len() && self.slots@[k as int] is Some,
            |k: usize| self.slots@[k as int]->0,
        )
    }
}

impl<T> Arena<T> {
    /// Every place listed as empty is, and is listed once.
    pub closed spec fn wf(&self) -> bool {
        &&& self.free@.no_duplicates()
        &&& forall|i: int|
            0 <= i < self.free@.len() ==> #[trigger] self.free@[i] < self.slots@.len()
                && self.slots@[self.free@[i] as int] is None
    }

    /// An arena with nothing in it.
    pub fn new() -> (arena: Arena<T>)
        ensures
            arena.wf(),
            arena@ == Map::<usize, T>::empty(),
    {
        let arena = Arena { slots: Vec::new(), free: Vec::new() };
        proof {
            assert(arena@ =~= Map::<usize, T>::empty());
        }
        arena
    }

    /// Give a value a place.
    pub fn insert(&mut self, value: T) -> (place: usize)
        requires
            old(self).wf(),
        ensures
            final(self).wf(),
            !old(self)@.contains_key(place),
            final(self)@ == old(self)@.insert(place, value),
    {
        let ghost before = *self;
        match self.free.pop() {
            Some(place) => {
                proof {
                    assert(before.free@[before.free@.len() - 1] == place);
                }
                self.slots[place] = Some(value);
                proof {
                    assert(self@ =~= before@.insert(place, value));
                    assert forall|i: int| 0 <= i < self.free@.len() implies #[trigger] self.free@[i]
                        < self.slots@.len() && self.slots@[self.free@[i] as int] is None by {
                        assert(self.free@[i] == before.free@[i]);
                    }
                }
                place
            },
            None => {
                let place = self.slots.len();
                self.slots.push(Some(value));
                proof {
                    assert(self.slots@.len() == self.slots.len());
                    assert(self@ =~= before@.insert(place, value));
                }
                place
            },
        }
    }

    /// Take a value out of its place.
    pub fn remove(&mut self, place: usize) -> (value: T)
        requires
            old(self).wf(),
            old(self)@.contains_key(place),
        ensures
            final(self).wf(),
            value == old(self)@[place],
            final(self)@ == old(self)@.remove(place),
    {
        let ghost before = *self;
        let mut taken: Option<T> = None;
        std::mem::swap(&mut taken, &mut self.slots[place]);
        self.free.push(place);
        proof {
            assert(self@ =~= before@.remove(place));
            assert forall|i: int| 0 <= i < self.free@.len() implies #[trigger] self.free@[i]
                < self.slots@.len() && self.slots@[self.free@[i] as int] is None by {
                if i < before.free@.len() {
                    assert(self.free@[i] == before.free@[i]);
                }
            }
            assert(self.free@.no_duplicates()) by {
                assert forall|i: int, j: int|
                    0 <= i < j < self.free@.len() implies self.free@[i] != self.free@[j] by {
                    assert(self.free@[i] == before.free@[i]);
                    if j < before.free@.len() {
                        assert(self.free@[j] == before.free@[j]);
                    }
                }
            }
        }
        taken.unwrap()
    }

    /// The value in a place.
    pub fn get(&self, place: usize) -> (value: &T)
        requires
            self@.contains_key(place),
        ensures
            *value == self@[place],
    {
        self.slots[place].as_ref().unwrap()
    }

    /// The value in a place, to be written to.
    pub fn get_mut(&mut self, place: usize) -> (value: &mut T)
        requires
            old(self).wf(),
            old(self)@.contains_key(place),
        ensures
            *value == old(self)@[place],
            final(self).wf(),
            final(self)@ == old(self)@.insert(place, *final(value)),
    {
        self.slots[place].as_mut().unwrap()
    }
}

} // verus!
