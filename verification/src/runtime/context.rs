//! Which runtime the thread has entered, and which task it is polling.

use vstd::prelude::*;

use crate::runtime::task::id::Id;

verus! {

/// What the current thread is in the middle of.
#[derive(Debug)]
pub struct Context {
    /// The runtime the current thread is entered into, if any.
    runtime: Option<u64>,
    /// The task currently being polled, if any.
    current_task_id: Option<Id>,
}

/// What the current thread is in the middle of.
pub struct ContextView {
    pub runtime: Option<u64>,
    pub task: Option<Id>,
}

impl View for Context {
    type V = ContextView;

    closed spec fn view(&self) -> ContextView {
        ContextView { runtime: self.runtime, task: self.current_task_id }
    }
}

/// What to restore once a runtime is left again.
#[derive(Debug)]
pub struct EnterGuard {
    prev: Option<u64>,
}

impl View for EnterGuard {
    type V = Option<u64>;

    closed spec fn view(&self) -> Option<u64> {
        self.prev
    }
}

/// What to restore once a task is left again.
#[derive(Debug)]
pub struct TaskIdGuard {
    parent: Option<Id>,
}

impl View for TaskIdGuard {
    type V = Option<Id>;

    closed spec fn view(&self) -> Option<Id> {
        self.parent
    }
}

impl Context {
    /// Outside of any runtime.
    pub fn empty() -> (context: Context)
        ensures
            context@ == (ContextView { runtime: None, task: None }),
    {
        Context { runtime: None, current_task_id: None }
    }

    /// The runtime the current thread is entered into, if any.
    pub fn try_current_handle(&self) -> (runtime: Option<u64>)
        ensures
            runtime == self@.runtime,
    {
        self.runtime
    }

    /// The runtime the current thread is entered into. Must be called from the
    /// context of a runtime.
    pub fn current_handle(&self) -> (runtime: u64)
        requires
            self@.runtime is Some,
        ensures
            Some(runtime) == self@.runtime,
    {
        match self.runtime {
            Some(runtime) => runtime,
            // There is a runtime, so this is never reached.
            None => 0,
        }
    }

    /// Enter the runtime, so that `spawn` and friends can find it.
    pub fn enter_runtime(&mut self, runtime: u64) -> (guard: EnterGuard)
        ensures
            final(self)@ == (ContextView { runtime: Some(runtime), ..old(self)@ }),
            guard@ == old(self)@.runtime,
    {
        let prev = self.runtime;
        self.runtime = Some(runtime);
        EnterGuard { prev }
    }

    /// Leave it again, back into the previously entered runtime, if any.
    pub fn leave_runtime(&mut self, guard: EnterGuard)
        ensures
            final(self)@ == (ContextView { runtime: guard@, ..old(self)@ }),
    {
        self.runtime = guard.prev;
    }
}

/// Sets the id of the task currently being polled, returning the previous value
/// so that the caller can restore it.
pub fn set_current_task_id(context: &mut Context, id: Option<Id>) -> (previous: Option<Id>)
    ensures
        final(context)@ == (ContextView { task: id, ..old(context)@ }),
        previous == old(context)@.task,
{
    let previous = context.current_task_id;
    context.current_task_id = id;
    previous
}

/// Returns the id of the task currently being polled, if any.
pub fn current_task_id(context: &Context) -> (id: Option<Id>)
    ensures
        id == context@.task,
{
    context.current_task_id
}

impl TaskIdGuard {
    /// Name the task the current thread is running inside.
    pub fn enter(context: &mut Context, id: Id) -> (guard: TaskIdGuard)
        ensures
            final(context)@ == (ContextView { task: Some(id), ..old(context)@ }),
            guard@ == old(context)@.task,
    {
        TaskIdGuard { parent: set_current_task_id(context, Some(id)) }
    }

    /// Back to the task outside of it, if any.
    pub fn leave(self, context: &mut Context)
        ensures
            final(context)@ == (ContextView { task: self@, ..old(context)@ }),
    {
        set_current_task_id(context, self.parent);
    }
}

/// Leaving what was just entered restores the context, however deep it is
/// nested.
pub proof fn lemma_leaving_undoes_entering(outside: ContextView, runtime: u64, id: Id)
    ensures
        (ContextView {
            runtime: outside.runtime,
            ..(ContextView { runtime: Some(runtime), ..outside })
        }) == outside,
        (ContextView { task: outside.task, ..(ContextView { task: Some(id), ..outside }) })
            == outside,
{
}

} // verus!
