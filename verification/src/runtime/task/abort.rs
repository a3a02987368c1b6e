//! A handle to kill a task with.

use vstd::prelude::*;

use super::id::Id;
use super::owned::RawTask;
use super::raw::Header;
use super::state::Lifecycle;
use crate::runtime::moves;
use crate::runtime::moves::Move;
use crate::runtime::sched::Handle;

verus! {

/// A handle to kill a task with, which holds a reference to it.
#[derive(Debug)]
pub struct AbortHandle {
    raw: RawTask,
}

impl View for AbortHandle {
    type V = usize;

    /// The place of the task.
    closed spec fn view(&self) -> usize {
        self.raw.place
    }
}

impl AbortHandle {
    /// A handle for a reference that has been counted.
    pub fn new(raw: RawTask) -> (abort: AbortHandle)
        ensures
            abort@ == raw.place,
    {
        AbortHandle { raw }
    }

    /// Ask for the task to be killed, which is final: see
    /// [`moves::lemma_an_abort_is_final`].
    pub fn abort(&self, handle: &mut Handle)
        requires
            old(handle).wf(),
            old(handle)@.tasks.contains_key(self@),
            old(handle)@.tasks[self@].life.wakeable(),
        ensures
            final(handle).wf(),
            moves::moves(old(handle)@, Move::Abort(self@), final(handle)@),
            final(handle)@ == old(handle)@.with_cancelled(self@).with_woken(self@),
    {
        handle.remote_abort(self.raw);
    }

    /// Whether the task has completed.
    pub fn is_finished(&self, handle: &Handle) -> (finished: bool)
        requires
            handle@.tasks.contains_key(self@),
        ensures
            finished == handle@.tasks[self@].life.complete,
    {
        handle.is_finished(self.raw)
    }

    /// The task's id.
    pub fn id(&self, handle: &Handle) -> (id: Id)
        requires
            handle@.tasks.contains_key(self@),
        ensures
            id == handle@.tasks[self@].id,
    {
        handle.id(self.raw)
    }

    /// Another handle to the same task, with a reference of its own.
    pub fn clone_in(&self, handle: &mut Handle) -> (abort: AbortHandle)
        requires
            old(handle).wf(),
            old(handle)@.tasks.contains_key(self@),
            old(handle)@.tasks[self@].life.countable(),
        ensures
            final(handle).wf(),
            abort@ == self@,
            ({
                let h = old(handle)@.tasks[self@];
                final(handle)@ == old(handle)@.with_task(
                    self@,
                    h.with_life(Lifecycle { refs: h.life.refs + 1, ..h.life }),
                )
            }),
    {
        handle.ref_inc(self.raw);
        AbortHandle::new(self.raw)
    }

    /// Let go of the task. What is left of it comes back, to be dropped, if this
    /// was the last reference.
    pub fn close(self, handle: &mut Handle) -> (freed: Option<Header>)
        requires
            old(handle).wf(),
            old(handle)@.tasks.contains_key(self@),
            old(handle)@.spare(self@) >= 1,
        ensures
            final(handle).wf(),
            final(handle)@ == old(handle)@.with_dropped(self@),
            (freed is Some) == (old(handle)@.tasks[self@].life.refs == 1),
            freed matches Some(header) ==> header@.is_left_of(old(handle)@.tasks[self@]),
    {
        handle.drop_reference(self.raw)
    }
}

} // verus!
