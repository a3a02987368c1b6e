//! What there is of a task, but for the future itself.
//!
//! The future, and the values that user code makes, are kept by whoever runs the
//! tasks: a result is a token here, and a poll is something that somebody else
//! does and reports on.

use vstd::prelude::*;

use super::error::{JoinError, JoinErrorView, Payload};
use super::id::Id;
use super::state;
use super::state::{Lifecycle, State, TransitionToIdle, TransitionToRunning};
use crate::runtime::poll::Poll;
use crate::runtime::waker::Waker;

verus! {

/// A place in the source.
#[derive(Clone, Copy, Debug, PartialEq, Eq)]
pub struct Location {
    pub file: &'static str,
    pub line: u32,
    pub column: u32,
}

/// The future and its result share a slot: the future is dropped before the
/// result is stored, and the result is moved out when it is read.
#[derive(Debug)]
pub enum Stage {
    /// The future is still there.
    Running,
    /// The result is there, a token standing for the output.
    Finished(Result<u64, JoinError>),
    /// Neither is.
    Consumed,
}

/// What the slot holds.
pub enum StageView {
    Running,
    Finished(Result<u64, JoinErrorView>),
    Consumed,
}

/// A result, its error taken by what it says.
pub open spec fn result_view(result: Result<u64, JoinError>) -> Result<u64, JoinErrorView> {
    match result {
        Ok(output) => Ok(output),
        Err(error) => Err(error@),
    }
}

impl View for Stage {
    type V = StageView;

    open spec fn view(&self) -> StageView {
        match self {
            Stage::Running => StageView::Running,
            Stage::Finished(result) => StageView::Finished(result_view(*result)),
            Stage::Consumed => StageView::Consumed,
        }
    }
}

/// What came of polling a future, and of dropping it if it is not pending.
#[derive(Debug)]
pub enum Polled {
    /// It is not ready.
    Pending,
    /// It is ready, with this output, and has been dropped.
    Ready(u64),
    /// It panicked, or dropping it after it was ready did. Whatever was left of it
    /// has been dropped, and a panic while doing that ignored.
    Panicked(Payload),
}

/// What a poll comes to once the future has been dropped, which is what follows
/// unless it is pending, with `dropped` being what that panicked with if it did.
///
/// A panic takes the place of the output. There is only one to report, and the
/// first is the one.
pub open spec fn outcome<T, P>(polled: Result<Poll<T>, P>, dropped: Option<P>) -> Result<
    Poll<T>,
    P,
> {
    match (polled, dropped) {
        (Ok(Poll::Ready(_)), Some(panic)) => Err(panic),
        _ => polled,
    }
}

/// Decide what a poll comes to once the future has been dropped.
pub fn after_drop<T, P>(polled: Result<Poll<T>, P>, dropped: Option<P>) -> (kept: Result<
    Poll<T>,
    P,
>)
    ensures
        kept == outcome(polled, dropped),
        polled matches Ok(Poll::Ready(output)) ==> match dropped {
            None => kept == Ok::<Poll<T>, P>(Poll::Ready(output)),
            Some(panic) => kept == Err::<Poll<T>, P>(panic),
        },
        !(polled matches Ok(Poll::Ready(_))) ==> kept == polled,
{
    match polled {
        Ok(Poll::Ready(output)) => match dropped {
            None => Ok(Poll::Ready(output)),
            Some(panic) => Err(panic),
        },
        _ => polled,
    }
}

impl Polled {
    /// What came of polling a future, `polled` being its output or what it panicked
    /// with, and of dropping it, `dropped` being what that panicked with if it did.
    pub fn new(polled: Result<Poll<u64>, Payload>, dropped: Option<Payload>) -> (came: Polled)
        ensures
            match polled {
                Ok(Poll::Pending) => came is Pending,
                Ok(Poll::Ready(output)) => match dropped {
                    None => came == Polled::Ready(output),
                    Some(payload) => came == Polled::Panicked(payload),
                },
                Err(payload) => came == Polled::Panicked(payload),
            },
    {
        match after_drop(polled, dropped) {
            Ok(Poll::Pending) => Polled::Pending,
            Ok(Poll::Ready(output)) => Polled::Ready(output),
            Err(payload) => Polled::Panicked(payload),
        }
    }
}

/// What is left to be done about a task that has just completed, before
/// [`super::super::sched::Handle::settled`]. Either reaches user code.
#[derive(Debug)]
pub enum Settle {
    /// Wake whoever is awaiting the `JoinHandle`, if anyone is. The `JoinHandle`
    /// takes the result from here.
    Wake(Option<Waker>),
    /// Nobody will read the result, so drop it now rather than leave it to
    /// whichever reference happens to outlive the others.
    Discard(Stage),
}

/// A task, but for its future.
#[derive(Debug)]
pub struct Header {
    /// Lifecycle flags and the reference count.
    state: State,
    /// The slot the task occupies in the runtime's registry, which doubles as
    /// its public id.
    id: Id,
    /// Where the task was spawned.
    spawned_at: Location,
    /// Whoever is awaiting the `JoinHandle`.
    waker: Option<Waker>,
    /// The future, or what it left behind.
    stage: Stage,
    /// The task is being killed: its future is to be dropped, not polled.
    dropping: bool,
    /// The task has completed and its last poll has yet to let go of it.
    settling: bool,
}

/// What a task's header holds.
pub struct HeaderView {
    pub life: Lifecycle,
    pub id: Id,
    pub spawned_at: Location,
    pub waker: Option<Waker>,
    pub stage: StageView,
    pub dropping: bool,
    pub settling: bool,
}

impl View for Header {
    type V = HeaderView;

    closed spec fn view(&self) -> HeaderView {
        HeaderView {
            life: self.state@,
            id: self.id,
            spawned_at: self.spawned_at,
            waker: self.waker,
            stage: self.stage@,
            dropping: self.dropping,
            settling: self.settling,
        }
    }
}

impl HeaderView {
    /// The future is there until the task is complete, and the result from then
    /// until somebody takes it. An error says which task it is of. Only a task that
    /// was to be killed is.
    pub open spec fn sound(self) -> bool {
        &&& !(self.life.running && self.life.complete)
        &&& self.life.complete == !(self.stage is Running)
        &&& self.dropping ==> self.life.running && self.life.cancelled
        &&& self.settling ==> self.life.complete
        &&& self.life.complete && self.life.join_interest && !self.life.output_taken
            ==> self.stage is Finished
        &&& self.life.output_taken ==> self.life.complete && self.stage is Consumed
        &&& self.stage matches StageView::Finished(Err(error)) ==> error.id == self.id
    }

    /// The header with its lifecycle changed.
    pub open spec fn with_life(self, life: Lifecycle) -> HeaderView {
        HeaderView { life, ..self }
    }

    /// What is left of the task `h` was the header of, once its last reference is
    /// gone: whatever was in its slot.
    pub open spec fn is_left_of(self, h: HeaderView) -> bool {
        &&& self.id == h.id
        &&& self.spawned_at == h.spawned_at
        &&& self.stage == h.stage
        &&& self.life.refs == 0
    }

    /// The header of an idle task once somebody has taken its poll lock: its future
    /// is polled, or dropped if the task is to be killed.
    pub open spec fn begun(self) -> HeaderView {
        HeaderView {
            life: Lifecycle { running: true, notified: false, ..self.life },
            dropping: self.life.cancelled,
            ..self
        }
    }

    /// The header of an idle task that is being killed.
    pub open spec fn killed(self) -> HeaderView {
        self.with_life(Lifecycle { cancelled: true, ..self.life }).begun()
    }

    /// What a completed task leaves behind, `result` being its result: the result
    /// itself if there is a `JoinHandle` to take it, nothing if not.
    pub open spec fn completed(
        self,
        result: Result<u64, JoinErrorView>,
        cancelled: bool,
    ) -> HeaderView {
        HeaderView {
            life: Lifecycle { running: false, complete: true, cancelled, ..self.life },
            stage: if self.life.join_interest {
                StageView::Finished(result)
            } else {
                StageView::Consumed
            },
            dropping: false,
            settling: true,
            ..self
        }
    }

    /// What is left to be done about a task that completes with `result`.
    pub open spec fn to_settle(self, settle: Settle, result: Result<u64, JoinErrorView>) -> bool {
        if self.life.join_interest {
            settle == Settle::Wake(self.waker)
        } else {
            settle matches Settle::Discard(stage) && stage@ == StageView::Finished(result)
        }
    }
}

/// The header of a task that has just been made.
pub open spec fn new_header(id: Id, spawned_at: Location) -> HeaderView {
    HeaderView {
        life: state::fresh(),
        id,
        spawned_at,
        waker: None,
        stage: StageView::Running,
        dropping: false,
        settling: false,
    }
}

/// The result of a task whose future was dropped before it was ready.
pub open spec fn cancel_result(id: Id, panic: Option<Payload>) -> JoinErrorView {
    JoinErrorView {
        panic: match panic {
            Some(payload) => Some(payload@),
            None => None,
        },
        id,
    }
}

impl Header {
    /// The header of a task that has just been made.
    pub fn new(id: Id, spawned_at: Location) -> (header: Header)
        ensures
            header@ == new_header(id, spawned_at),
    {
        Header {
            state: State::new(),
            id,
            spawned_at,
            waker: None,
            stage: Stage::Running,
            dropping: false,
            settling: false,
        }
    }

    /// The lifecycle flags and the reference count.
    pub fn state(&self) -> (state: &State)
        ensures
            state@ == self@.life,
    {
        &self.state
    }

    /// The lifecycle flags and the reference count, to be changed.
    pub fn state_mut(&mut self) -> (state: &mut State)
        ensures
            state@ == old(self)@.life,
            final(self)@ == old(self)@.with_life(final(state)@),
    {
        &mut self.state
    }

    /// The task's id.
    pub fn id(&self) -> (id: Id)
        ensures
            id == self@.id,
    {
        self.id
    }

    /// Where the task was spawned.
    pub fn spawned_at(&self) -> (location: Location)
        ensures
            location == self@.spawned_at,
    {
        self.spawned_at
    }

    /// Stores the waker to notify when the task completes.
    pub fn set_waker(&mut self, waker: Option<Waker>)
        ensures
            final(self)@ == (HeaderView { waker, ..old(self)@ }),
    {
        self.waker = waker;
    }

    /// Returns `true` if a waker is stored that wakes the same task as `waker`.
    pub fn will_wake(&self, waker: &Waker) -> (same: bool)
        ensures
            same == (self@.waker == Some(*waker)),
    {
        match self.waker {
            Some(stored) => stored.will_wake(waker),
            None => false,
        }
    }

    /// Take the poll lock, if the task is idle.
    pub fn begin(&mut self) -> (transition: TransitionToRunning)
        ensures
            final(self)@ == if old(self)@.life.idle() {
                old(self)@.begun()
            } else {
                old(self)@
            },
            transition == if !old(self)@.life.idle() {
                TransitionToRunning::Dead
            } else if old(self)@.life.cancelled {
                TransitionToRunning::Cancelled
            } else {
                TransitionToRunning::Polled
            },
    {
        let transition = self.state.transition_to_running();
        match transition {
            TransitionToRunning::Polled => {
                self.dropping = false;
            },
            TransitionToRunning::Cancelled => {
                self.dropping = true;
            },
            TransitionToRunning::Dead => {},
        }
        transition
    }

    /// Give the poll lock back, unless the task has been cancelled meanwhile, which
    /// is then to be killed.
    pub fn pause(&mut self) -> (transition: TransitionToIdle)
        requires
            old(self)@.life.running,
        ensures
            final(self)@ == if old(self)@.life.cancelled {
                HeaderView { dropping: true, ..old(self)@ }
            } else {
                old(self)@.with_life(Lifecycle { running: false, ..old(self)@.life })
            },
            transition == if old(self)@.life.cancelled {
                TransitionToIdle::Cancelled
            } else if old(self)@.life.notified {
                TransitionToIdle::Notified
            } else {
                TransitionToIdle::Idle
            },
    {
        let transition = self.state.transition_to_idle();
        match transition {
            TransitionToIdle::Cancelled => {
                self.dropping = true;
            },
            _ => {},
        }
        transition
    }

    /// If the future finished, store its result and complete the task. `None` if
    /// it did not, and the task is left as it was.
    pub fn poll_future(&mut self, polled: Polled) -> (settle: Option<Settle>)
        requires
            old(self)@.life.running,
            !old(self)@.dropping,
            !old(self)@.life.complete,
        ensures
            match polled {
                Polled::Pending => settle is None && final(self)@ == old(self)@,
                Polled::Ready(output) => {
                    let result = Ok(output);
                    &&& settle is Some
                    &&& old(self)@.to_settle(settle->0, result)
                    &&& final(self)@ == old(self)@.completed(result, false)
                },
                Polled::Panicked(payload) => {
                    let result = Err(cancel_result(old(self)@.id, Some(payload)));
                    &&& settle is Some
                    &&& old(self)@.to_settle(settle->0, result)
                    &&& final(self)@ == old(self)@.completed(result, false)
                },
            },
            !(polled is Pending) && old(self)@.life.join_interest ==> settle == Some(
                Settle::Wake(old(self)@.waker),
            ),
    {
        match polled {
            Polled::Pending => None,
            Polled::Ready(output) => Some(self.complete(Ok(output), false)),
            Polled::Panicked(payload) => {
                let error = JoinError::panic(self.id, payload);
                Some(self.complete(Err(error), false))
            },
        }
    }

    /// Kills a task that has not finished: its future has been dropped, with
    /// `panic` being what that panicked with if it did, and an error takes its
    /// place.
    pub fn cancel(&mut self, panic: Option<Payload>) -> (settle: Settle)
        requires
            old(self)@.life.running,
            old(self)@.dropping,
            !old(self)@.life.complete,
        ensures
            ({
                let result = Err(cancel_result(old(self)@.id, panic));
                &&& old(self)@.to_settle(settle, result)
                &&& final(self)@ == old(self)@.completed(result, true)
            }),
            old(self)@.life.join_interest ==> settle == Settle::Wake(old(self)@.waker),
    {
        let error = match panic {
            None => JoinError::cancelled(self.id),
            Some(payload) => JoinError::panic(self.id, payload),
        };
        self.complete(Err(error), true)
    }

    /// Finishes a task with a result.
    fn complete(&mut self, result: Result<u64, JoinError>, cancelled: bool) -> (settle: Settle)
        requires
            old(self)@.life.running,
            !old(self)@.life.complete,
        ensures
            old(self)@.to_settle(settle, result_view(result)),
            final(self)@ == old(self)@.completed(result_view(result), cancelled),
            old(self)@.life.join_interest ==> settle == Settle::Wake(old(self)@.waker),
            !old(self)@.life.join_interest ==> settle == Settle::Discard(Stage::Finished(result)),
    {
        let snapshot = self.state.transition_to_complete(cancelled);
        self.dropping = false;
        self.settling = true;
        if snapshot.is_join_interested() {
            self.stage = Stage::Finished(result);
            Settle::Wake(self.waker)
        } else {
            self.stage = Stage::Consumed;
            Settle::Discard(Stage::Finished(result))
        }
    }

    /// The last poll lets go of the task, with `count` references.
    pub fn settle(&mut self, count: usize) -> (last: bool)
        requires
            old(self)@.life.refs >= count,
        ensures
            final(self)@ == (HeaderView {
                life: Lifecycle { refs: old(self)@.life.refs - count, ..old(self)@.life },
                settling: false,
                ..old(self)@
            }),
            last == (old(self)@.life.refs == count),
    {
        self.settling = false;
        self.state.transition_to_terminal(count)
    }

    /// Take the result of a task that has completed, or leave `waker` to be woken
    /// when it does.
    ///
    /// Must not be called again once the result has been taken.
    pub fn poll_join(&mut self, waker: &Waker) -> (polled: Poll<Result<u64, JoinError>>)
        requires
            old(self)@.sound(),
            old(self)@.life.join_interest,
            !old(self)@.life.output_taken,
        ensures
            final(self)@.sound(),
            polled matches Poll::Ready(Err(error)) ==> error@.id == old(self)@.id,
            if old(self)@.life.complete {
                &&& polled matches Poll::Ready(result) && old(self)@.stage == StageView::Finished(
                    result_view(result),
                )
                &&& final(self)@ == (HeaderView {
                    life: Lifecycle { output_taken: true, ..old(self)@.life },
                    stage: StageView::Consumed,
                    ..old(self)@
                })
            } else {
                &&& polled is Pending
                &&& final(self)@ == (HeaderView { waker: Some(*waker), ..old(self)@ })
            },
    {
        if !self.state.load().is_complete() {
            if !self.will_wake(waker) {
                self.set_waker(Some(*waker));
            }
            return Poll::Pending;
        }
        self.state.take_output();
        let mut stage = Stage::Consumed;
        std::mem::swap(&mut stage, &mut self.stage);
        match stage {
            Stage::Finished(result) => Poll::Ready(result),
            // The task is complete, so this is never reached.
            _ => Poll::Pending,
        }
    }

    /// Whatever the slot still holds, once the last reference is gone.
    pub fn into_stage(self) -> (stage: Stage)
        ensures
            stage@ == self@.stage,
    {
        self.stage
    }
}

/// Whoever awaits a task is woken when it completes, whatever it completes with and
/// whoever that is: what is left to be done is to wake exactly the waker that was
/// left, if one was. Nothing is discarded.
pub proof fn lemma_whoever_awaits_is_woken(
    h: HeaderView,
    settle: Settle,
    result: Result<u64, JoinErrorView>,
)
    requires
        h.life.join_interest,
    ensures
        h.to_settle(settle, result) <==> settle == Settle::Wake(h.waker),
{
}

/// What nobody will read is discarded, and nobody is woken: what is left to be done is
/// to drop the result that the task completed with.
pub proof fn lemma_what_nobody_reads_is_discarded(
    h: HeaderView,
    settle: Settle,
    result: Result<u64, JoinErrorView>,
)
    requires
        !h.life.join_interest,
        h.to_settle(settle, result),
    ensures
        settle matches Settle::Discard(stage) && stage@ == StageView::Finished(result),
{
}

/// A task that completes is complete, not running, and not being killed any more. Its
/// result is kept exactly if there is a `JoinHandle`; who spawned it, who awaits it
/// and how many hold it stay as they were.
pub proof fn lemma_what_a_completed_task_is(
    h: HeaderView,
    result: Result<u64, JoinErrorView>,
    cancelled: bool,
)
    ensures
        ({
            let done = h.completed(result, cancelled);
            &&& done.life.complete && !done.life.running && done.life.cancelled == cancelled
            &&& done.life.notified == h.life.notified
            &&& done.life.join_interest == h.life.join_interest
            &&& done.life.owned == h.life.owned
            &&& done.life.output_taken == h.life.output_taken
            &&& done.life.refs == h.life.refs
            &&& done.id == h.id && done.spawned_at == h.spawned_at && done.waker == h.waker
            &&& !done.dropping && done.settling
            &&& h.life.join_interest ==> done.stage == StageView::Finished(result)
            &&& !h.life.join_interest ==> done.stage == StageView::Consumed
        }),
{
}

/// A result is told apart from every other: an output by itself, and an error by the
/// task it is of and by what it says of a panic.
pub proof fn lemma_what_a_result_says(result: Result<u64, JoinError>)
    ensures
        result matches Ok(output) ==> result_view(result) == Ok::<u64, JoinErrorView>(output),
        result matches Err(error) ==> result_view(result) == Err::<u64, JoinErrorView>(error@),
        Stage::Finished(result)@ == StageView::Finished(result_view(result)),
        Stage::Running@ == StageView::Running,
        Stage::Consumed@ == StageView::Consumed,
{
}

/// The error of a task that did not finish names the task, and holds a payload exactly
/// if something panicked, which it then is.
pub proof fn lemma_what_a_cancelled_task_says(id: Id, payload: Payload)
    ensures
        cancel_result(id, None) == (JoinErrorView { id, panic: None }),
        cancel_result(id, Some(payload)) == (JoinErrorView { id, panic: Some(payload@) }),
{
}

/// An output is only lost to a panic of the drop that follows it. A panic of the poll
/// is never replaced, and what is pending stays pending.
pub proof fn lemma_the_first_panic_is_reported<T, P>(output: T, first: P, dropped: Option<P>)
    ensures
        outcome(Err::<Poll<T>, P>(first), dropped) == Err::<Poll<T>, P>(first),
        outcome(Ok::<Poll<T>, P>(Poll::Pending), dropped) == Ok::<Poll<T>, P>(Poll::Pending),
        outcome(Ok::<Poll<T>, P>(Poll::Ready(output)), Some(first)) == Err::<Poll<T>, P>(first),
        outcome(Ok::<Poll<T>, P>(Poll::Ready(output)), None) == Ok::<Poll<T>, P>(
            Poll::Ready(output),
        ),
{
}

/// Taking the poll lock answers the wake-up that led to it, and changes nothing else of
/// the task: what is cancelled is dropped, what is not is polled. To kill a task is to
/// cancel it and take the lock.
pub proof fn lemma_what_the_poll_lock_changes(h: HeaderView)
    ensures
        ({
            let begun = h.begun();
            &&& begun.life.running && !begun.life.notified
            &&& begun.dropping == h.life.cancelled
            &&& begun.life == (Lifecycle {
                running: true,
                notified: false,
                complete: h.life.complete,
                join_interest: h.life.join_interest,
                cancelled: h.life.cancelled,
                owned: h.life.owned,
                output_taken: h.life.output_taken,
                refs: h.life.refs,
            })
            &&& begun.id == h.id && begun.spawned_at == h.spawned_at && begun.waker == h.waker
            &&& begun.stage == h.stage && begun.settling == h.settling
        }),
        ({
            let killed = h.killed();
            &&& killed.life.running && !killed.life.notified && killed.life.cancelled
            &&& killed.dropping
            &&& killed.life.complete == h.life.complete
            &&& killed.life.join_interest == h.life.join_interest
            &&& killed.life.owned == h.life.owned
            &&& killed.life.output_taken == h.life.output_taken
            &&& killed.life.refs == h.life.refs
            &&& killed.id == h.id && killed.spawned_at == h.spawned_at && killed.waker == h.waker
            &&& killed.stage == h.stage && killed.settling == h.settling
        }),
{
}

/// A task is made with its future still to be polled, a poll owed, a `JoinHandle`, and
/// three references: the queue's, the registry's and the `JoinHandle`'s. Nobody awaits
/// it, and nobody has cancelled it.
pub proof fn lemma_what_a_new_task_is(id: Id, spawned_at: Location)
    ensures
        ({
            let h = new_header(id, spawned_at);
            &&& h.id == id && h.spawned_at == spawned_at
            &&& h.waker is None && h.stage is Running && !h.dropping && !h.settling
            &&& h.life.notified && h.life.join_interest && h.life.refs == 3
            &&& !h.life.running && !h.life.complete && !h.life.cancelled
            &&& !h.life.owned && !h.life.output_taken
            &&& h.sound()
        }),
{
}

/// What is always so of a task: its future is there until it is complete, its result
/// until somebody takes it, and the error in it is its own.
pub proof fn lemma_what_is_always_so(h: HeaderView)
    requires
        h.sound(),
    ensures
        h.life.complete ==> !h.life.running,
        h.life.complete <==> !(h.stage is Running),
        h.dropping ==> h.life.running && h.life.cancelled,
        h.settling ==> h.life.complete,
        h.life.complete && h.life.join_interest && !h.life.output_taken ==> h.stage is Finished,
        h.life.output_taken ==> h.stage is Consumed,
        h.stage matches StageView::Finished(Err(error)) ==> error.id == h.id,
{
}

/// What is left of a task is what was in its slot, under its own id, held by nobody.
pub proof fn lemma_what_is_left(left: HeaderView, h: HeaderView)
    requires
        left.is_left_of(h),
    ensures
        left.id == h.id,
        left.spawned_at == h.spawned_at,
        left.stage == h.stage,
        left.life.refs == 0,
{
}

} // verus!
