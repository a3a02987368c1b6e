//! The waker handed to a task's future while it is polled.
//!
//! A waker is a reference to a task, so it says which task that is. Two wakers of
//! one task are therefore alike, and [`Waker::will_wake`] tells.

use vstd::prelude::*;

use super::owned::RawTask;
use super::state::Lifecycle;
use crate::runtime::sched::Handle;
use crate::runtime::waker::Waker;

verus! {

/// The token of whoever is blocked on a future, which is no task.
pub const BLOCKED_ON: u64 = 0;

/// The waker of a task, without touching its reference count.
///
/// A clone of it does take a reference, as usual.
pub fn waker_ref(task: RawTask) -> (waker: Waker)
    requires
        task.place < u64::MAX,
    ensures
        waker.token == task.place + 1,
        task_of(waker) == Some(task),
{
    Waker { token: task.place as u64 + 1 }
}

/// The task a waker refers to, `None` for that of whoever is blocked on a future.
pub open spec fn task_of(waker: Waker) -> Option<RawTask> {
    if waker.token == BLOCKED_ON {
        None
    } else {
        Some(RawTask { place: (waker.token - 1) as usize })
    }
}

/// The task a waker refers to.
pub fn task_of_waker(waker: &Waker) -> (task: Option<RawTask>)
    ensures
        task == task_of(*waker),
        waker.token == 0 <==> task is None,
        0 < waker.token <= usize::MAX ==> (task matches Some(task) && task.place + 1
            == waker.token),
{
    if waker.token == BLOCKED_ON {
        None
    } else {
        Some(RawTask { place: (waker.token - 1) as usize })
    }
}

/// Another waker of the same task, with a reference of its own.
pub fn clone(handle: &mut Handle, task: RawTask) -> (waker: Waker)
    requires
        old(handle).wf(),
        old(handle)@.tasks.contains_key(task.place),
        old(handle)@.tasks[task.place].life.countable(),
        task.place < u64::MAX,
    ensures
        final(handle).wf(),
        task_of(waker) == Some(task),
        ({
            let h = old(handle)@.tasks[task.place];
            final(handle)@ == old(handle)@.with_task(
                task.place,
                h.with_life(Lifecycle { refs: h.life.refs + 1, ..h.life }),
            )
        }),
{
    handle.ref_inc(task);
    waker_ref(task)
}

/// Wakers of the same task are alike, and wakers of different tasks are not.
pub proof fn lemma_wakers_tell_tasks_apart(a: RawTask, b: RawTask, x: Waker, y: Waker)
    requires
        x.token == a.place + 1,
        y.token == b.place + 1,
    ensures
        (x == y) == (a == b),
{
}

/// Which task a waker is of, by its token: none for zero, and for any other the task in
/// the place before that.
pub proof fn lemma_which_task_a_waker_is_of(waker: Waker)
    ensures
        waker.token == 0 <==> task_of(waker) is None,
        0 < waker.token <= usize::MAX ==> (task_of(waker) matches Some(task) && task.place + 1
            == waker.token),
{
}

} // verus!
