//! A handle to wait for a task with.

use vstd::prelude::*;

use super::abort::AbortHandle;
use super::error::JoinError;
use super::id::Id;
use super::owned::RawTask;
use super::raw;
use super::raw::{Header, HeaderView, Location, StageView};
use super::state::Lifecycle;
use crate::runtime::moves;
use crate::runtime::moves::Move;
use crate::runtime::poll::Poll;
use crate::runtime::sched::Handle;
use crate::runtime::waker::Waker;

verus! {

/// A handle to wait for a task with. There is one to each task.
#[derive(Debug)]
pub struct JoinHandle {
    raw: RawTask,
}

impl View for JoinHandle {
    type V = usize;

    /// The place of the task.
    closed spec fn view(&self) -> usize {
        self.raw.place
    }
}

impl JoinHandle {
    /// The handle of a task that has just been made.
    pub fn new(raw: RawTask) -> (join: JoinHandle)
        ensures
            join@ == raw.place,
    {
        JoinHandle { raw }
    }

    /// The task, by which whoever runs it finds its future.
    pub fn raw(&self) -> (raw: RawTask)
        ensures
            raw.place == self@,
    {
        self.raw
    }

    /// Ask for the task to be killed, which is final: see
    /// [`moves::lemma_an_abort_is_final`].
    pub fn abort(&self, handle: &mut Handle)
        requires
            old(handle).wf(),
            old(handle)@.tasks.contains_key(self@),
            old(handle)@.tasks[self@].life.wakeable(),
        ensures
            final(handle).wf(),
            moves::moves(old(handle)@, Move::Abort(self@), final(handle)@),
            final(handle)@ == old(handle)@.with_cancelled(self@).with_woken(self@),
    {
        handle.remote_abort(self.raw);
    }

    /// A handle to kill the task with, with a reference of its own.
    pub fn abort_handle(&self, handle: &mut Handle) -> (abort: AbortHandle)
        requires
            old(handle).wf(),
            old(handle)@.tasks.contains_key(self@),
            old(handle)@.tasks[self@].life.countable(),
        ensures
            final(handle).wf(),
            abort@ == self@,
            ({
                let h = old(handle)@.tasks[self@];
                final(handle)@ == old(handle)@.with_task(
                    self@,
                    h.with_life(Lifecycle { refs: h.life.refs + 1, ..h.life }),
                )
            }),
    {
        handle.ref_inc(self.raw);
        AbortHandle::new(self.raw)
    }

    /// Whether the task has completed.
    pub fn is_finished(&self, handle: &Handle) -> (finished: bool)
        requires
            handle@.tasks.contains_key(self@),
        ensures
            finished == handle@.tasks[self@].life.complete,
    {
        handle.is_finished(self.raw)
    }

    /// The task's id.
    pub fn id(&self, handle: &Handle) -> (id: Id)
        requires
            handle@.tasks.contains_key(self@),
        ensures
            id == handle@.tasks[self@].id,
    {
        handle.id(self.raw)
    }

    /// Where the task was spawned.
    pub fn spawned_at(&self, handle: &Handle) -> (location: Location)
        requires
            handle@.tasks.contains_key(self@),
        ensures
            location == handle@.tasks[self@].spawned_at,
    {
        handle.spawned_at(self.raw)
    }

    /// Take the task's result, or leave `waker` to be woken when there is one.
    ///
    /// Must not be called again once the result has been taken.
    pub fn poll(&self, handle: &mut Handle, waker: &Waker) -> (polled: Poll<
        Result<u64, JoinError>,
    >)
        requires
            old(handle).wf(),
            old(handle)@.tasks.contains_key(self@),
            old(handle)@.tasks[self@].life.join_interest,
            !old(handle)@.tasks[self@].life.output_taken,
        ensures
            final(handle).wf(),
            polled matches Poll::Ready(Err(error)) ==> error@.id == old(handle)@.tasks[self@].id,
            ({
                let h = old(handle)@.tasks[self@];
                if h.life.complete {
                    &&& polled matches Poll::Ready(result) && h.stage == StageView::Finished(
                        raw::result_view(result),
                    )
                    &&& final(handle)@ == old(handle)@.with_task(
                        self@,
                        HeaderView {
                            life: Lifecycle { output_taken: true, ..h.life },
                            stage: StageView::Consumed,
                            ..h
                        },
                    )
                } else {
                    &&& polled is Pending
                    &&& final(handle)@ == old(handle)@.with_task(
                        self@,
                        HeaderView { waker: Some(*waker), ..h },
                    )
                }
            }),
    {
        handle.poll_join(self.raw, waker)
    }

    /// Let go of the task, which goes on by itself if it is not done. What is left
    /// of it comes back, to be dropped, if this was the last reference.
    pub fn close(self, handle: &mut Handle) -> (freed: Option<Header>)
        requires
            old(handle).wf(),
            old(handle)@.tasks.contains_key(self@),
            old(handle)@.tasks[self@].life.join_interest,
        ensures
            final(handle).wf(),
            ({
                let h = old(handle)@.tasks[self@];
                &&& final(handle)@ == old(handle)@.with_or_without(
                    self@,
                    HeaderView {
                        life: Lifecycle { join_interest: false, refs: h.life.refs - 1, ..h.life },
                        waker: None,
                        ..h
                    },
                )
                &&& (freed is Some) == (h.life.refs == 1)
                &&& freed matches Some(header) ==> header@.is_left_of(h)
            }),
    {
        handle.drop_join(self.raw)
    }
}

} // verus!
