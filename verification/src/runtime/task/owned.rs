//! The registry of tasks spawned on a runtime.
//!
//! Tasks are filed in a slab, and each one records the slot it was put in as its
//! id. Removal is therefore a single indexed lookup, and the id a task reports is
//! the same number the registry files it under.
//!
//! The registry can be closed, which stops new tasks from being added while a
//! runtime shuts down.

use slab::Slab;
use vstd::prelude::*;

use super::id::Id;

verus! {

/// A pointer to a task that does not own a reference to it.
#[derive(Clone, Copy, Debug, PartialEq, Eq, Structural)]
pub struct RawTask {
    pub place: usize,
}

/// What a slab of tasks holds: the task in each slot.
pub uninterp spec fn task_entries(slab: Slab<RawTask>) -> Map<usize, RawTask>;

/// The slot that the next insertion into a slab of tasks will use.
pub uninterp spec fn task_vacant_key(slab: Slab<RawTask>) -> usize;

/// `Slab::new`: a slab with nothing in it, that hands out key zero first.
#[verifier::external_body]
fn slab_new() -> (empty: Slab<RawTask>)
    ensures
        task_entries(empty) == (Map::<usize, RawTask>::empty()),
        task_vacant_key(empty) == 0,
{
    Slab::new()
}

/// `Slab::vacant_key`: the key the next insertion will use, which is vacant.
#[verifier::external_body]
fn slab_vacant_key(slab: &Slab<RawTask>) -> (key: usize)
    ensures
        key == task_vacant_key(*slab),
        !task_entries(*slab).contains_key(key),
{
    slab.vacant_key()
}

/// `Slab::insert`: the value goes under the vacant key, which comes back. Which
/// key is vacant next is not said.
#[verifier::external_body]
fn slab_insert(slab: &mut Slab<RawTask>, task: RawTask) -> (key: usize)
    ensures
        key == task_vacant_key(*old(slab)),
        !task_entries(*old(slab)).contains_key(key),
        task_entries(*final(slab)) == task_entries(*old(slab)).insert(key, task),
{
    slab.insert(task)
}

/// `Slab::remove`: the value under an occupied key comes out, and the key is the
/// next to be used.
#[verifier::external_body]
fn slab_remove(slab: &mut Slab<RawTask>, key: usize) -> (task: RawTask)
    requires
        task_entries(*old(slab)).contains_key(key),
    ensures
        task == task_entries(*old(slab))[key],
        task_entries(*final(slab)) == task_entries(*old(slab)).remove(key),
        task_vacant_key(*final(slab)) == key,
{
    slab.remove(key)
}

/// `Slab::get`: the value under a key, or `None` if the key is vacant.
#[verifier::external_body]
fn slab_get(slab: &Slab<RawTask>, key: usize) -> (task: Option<&RawTask>)
    ensures
        match task {
            Some(task) => task_entries(*slab).contains_key(key) && *task
                == task_entries(*slab)[key],
            None => !task_entries(*slab).contains_key(key),
        },
{
    slab.get(key)
}

/// `Slab::is_empty`: whether no key is occupied.
#[verifier::external_body]
fn slab_is_empty(slab: &Slab<RawTask>) -> (empty: bool)
    ensures
        empty == (task_entries(*slab) == (Map::<usize, RawTask>::empty())),
{
    slab.is_empty()
}

/// `Slab::iter`: the occupied keys and their values, in ascending order of keys.
#[verifier::external_body]
fn slab_list(slab: &Slab<RawTask>) -> (list: Vec<(usize, RawTask)>)
    ensures
        lists(task_entries(*slab), list@),
{
    slab.iter().map(|(key, task)| (key, *task)).collect()
}

/// `list` is the whole of `tasks`, in ascending order of slots.
pub open spec fn lists(tasks: Map<usize, RawTask>, list: Seq<(usize, RawTask)>) -> bool {
    &&& forall|i: int|
        0 <= i < list.len() ==> tasks.contains_key((#[trigger] list[i]).0) && tasks[list[i].0]
            == list[i].1
    &&& forall|i: int, j: int|
        0 <= i < j < list.len() ==> (#[trigger] list[i]).0 < (#[trigger] list[j]).0
    &&& forall|k: usize| #[trigger]
        tasks.contains_key(k) ==> exists|i: int| 0 <= i < list.len() && (#[trigger] list[i]).0 == k
}

/// The registry.
pub struct OwnedTasks {
    tasks: Slab<RawTask>,
    closed: bool,
}

impl View for OwnedTasks {
    type V = Map<usize, RawTask>;

    closed spec fn view(&self) -> Map<usize, RawTask> {
        task_entries(self.tasks)
    }
}

impl OwnedTasks {
    /// No task can be added any more.
    pub closed spec fn shut(&self) -> bool {
        self.closed
    }

    /// The slot the next task gets.
    pub closed spec fn vacant(&self) -> usize {
        task_vacant_key(self.tasks)
    }

    /// An empty registry.
    pub fn new() -> (owned: OwnedTasks)
        ensures
            owned@ == Map::<usize, RawTask>::empty(),
            !owned.shut(),
            owned.vacant() == 0,
    {
        OwnedTasks { tasks: slab_new(), closed: false }
    }

    /// Whether there are as many tasks as there are ids.
    pub fn is_full(&self) -> (full: bool)
        ensures
            full == (self.vacant() >= u32::MAX),
    {
        slab_vacant_key(&self.tasks) >= 0xffff_ffff
    }

    /// The id of the next task, which is baked into the task before it is filed.
    pub fn next_id(&self) -> (id: Id)
        requires
            self.vacant() < u32::MAX,
        ensures
            id@ == self.vacant() + 1,
            !self@.contains_key((id@ - 1) as usize),
    {
        Id::from_slot(slab_vacant_key(&self.tasks))
    }

    /// File a task.
    pub fn bind(&mut self, task: RawTask) -> (slot: usize)
        requires
            !old(self).shut(),
        ensures
            slot == old(self).vacant(),
            !old(self)@.contains_key(slot),
            final(self)@ == old(self)@.insert(slot, task),
            !final(self).shut(),
    {
        slab_insert(&mut self.tasks, task)
    }

    /// Close the registry and take every task out of it, in the order of their
    /// slots.
    ///
    /// Shutting one down drops its future, which runs user code that can reach
    /// the registry again, so that is left for afterwards.
    pub fn close(&mut self) -> (tasks: Vec<(usize, RawTask)>)
        ensures
            lists(old(self)@, tasks@),
            final(self)@ == Map::<usize, RawTask>::empty(),
            final(self).shut(),
            final(self).vacant() == 0,
    {
        self.closed = true;
        let tasks = slab_list(&self.tasks);
        self.tasks = slab_new();
        tasks
    }

    /// Takes a task out of the registry, handing back the reference it held.
    ///
    /// Returns `None` if the slot does not hold the task, which then belongs to
    /// another runtime. Leaving the slot alone leaks the other runtime's entry,
    /// where evicting it would take an unrelated task down with it.
    pub fn remove(&mut self, slot: usize, task: RawTask) -> (removed: Option<RawTask>)
        ensures
            match removed {
                Some(removed) => {
                    &&& removed == task
                    &&& old(self)@.contains_key(slot)
                    &&& old(self)@[slot] == task
                    &&& final(self)@ == old(self)@.remove(slot)
                    &&& final(self).vacant() == slot
                },
                None => {
                    &&& !(old(self)@.contains_key(slot) && old(self)@[slot] == task)
                    &&& final(self)@ == old(self)@
                    &&& final(self).vacant() == old(self).vacant()
                },
            },
            final(self).shut() == old(self).shut(),
    {
        let here = match slab_get(&self.tasks, slot) {
            Some(found) => found.place == task.place,
            None => false,
        };
        if here {
            Some(slab_remove(&mut self.tasks, slot))
        } else {
            None
        }
    }

    /// Returns `true` if the task is registered somewhere other than here.
    ///
    /// A task in no registry at all is being shut down, and belongs to whoever is
    /// doing the shutting down.
    pub fn is_foreign(&self, owned: bool, slot: usize, task: RawTask) -> (foreign: bool)
        ensures
            foreign == (owned && !(self@.contains_key(slot) && self@[slot] == task)),
    {
        if !owned {
            return false;
        }
        match slab_get(&self.tasks, slot) {
            Some(found) => found.place != task.place,
            None => true,
        }
    }

    /// Whether no task can be added any more.
    pub fn is_closed(&self) -> (closed: bool)
        ensures
            closed == self.shut(),
    {
        self.closed
    }

    /// Whether there is no task in the registry.
    pub fn is_empty(&self) -> (empty: bool)
        ensures
            empty == (self@ == Map::<usize, RawTask>::empty()),
    {
        slab_is_empty(&self.tasks)
    }
}

} // verus!
