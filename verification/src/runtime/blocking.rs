//! Blocking on a future: when to poll it, when to run tasks, and when to give up.

use vstd::prelude::*;

use super::sched::{Handle, HandleView, Step};
use super::task::owned::RawTask;

verus! {

/// Tasks to run before looking at anything else.
pub const EVENT_INTERVAL: u32 = 61;

/// A flag recording whether the blocked-on future has been woken.
#[derive(Debug)]
pub struct Signal {
    notified: bool,
}

impl View for Signal {
    type V = bool;

    closed spec fn view(&self) -> bool {
        self.notified
    }
}

impl Signal {
    /// A flag that starts notified, so that the future is polled once up front.
    pub fn new() -> (signal: Signal)
        ensures
            signal@,
    {
        Signal { notified: true }
    }

    /// Wake the blocked-on future.
    pub fn wake(&mut self)
        ensures
            final(self)@,
    {
        self.notified = true;
    }

    /// Whether the blocked-on future has been woken.
    pub fn is_notified(&self) -> (notified: bool)
        ensures
            notified == self@,
    {
        self.notified
    }

    /// Returns whether the signal was notified, clearing it.
    pub fn take_notified(&mut self) -> (notified: bool)
        ensures
            notified == old(self)@,
            !final(self)@,
    {
        let notified = self.notified;
        self.notified = false;
        notified
    }
}

/// What to do next.
#[derive(Debug)]
pub enum Action {
    /// Poll the blocked-on future. If it is ready, that is the end.
    PollRoot,
    /// Run the task named, as the step says.
    Run(RawTask, Step),
    /// Nothing can happen any more: the run queue is empty and the blocked-on
    /// future is pending, so nothing will ever wake it.
    Deadlock,
}

/// How far the loop has come.
#[derive(Clone, Copy, Debug, PartialEq, Eq, Structural)]
pub enum Phase {
    /// At the top.
    Top,
    /// In the middle of running tasks, with so many left in this batch.
    Batch { left: u32, ran: bool },
}

/// The loop that blocks on a future.
#[derive(Debug)]
pub struct BlockOn {
    phase: Phase,
}

impl View for BlockOn {
    type V = Phase;

    closed spec fn view(&self) -> Phase {
        self.phase
    }
}

/// The batch goes on: there are tasks left in it, and none of those it ran has
/// woken the blocked-on future.
pub open spec fn goes_on(phase: Phase, notified: bool) -> bool {
    phase matches Phase::Batch { left, ran } && left > 0 && !(ran && notified)
}

/// A batch that has run something may have reached its end; one that has not still
/// has all of it left.
pub open spec fn sound(phase: Phase) -> bool {
    phase matches Phase::Batch { left, ran } ==> left <= EVENT_INTERVAL && (!ran ==> left
        == EVENT_INTERVAL)
}

/// What comes next, given whether the blocked-on future has been woken and how
/// many tasks wait to be polled.
pub open spec fn next_phase(phase: Phase, notified: bool, waiting: nat) -> Phase {
    if goes_on(phase, notified) && waiting > 0 {
        Phase::Batch { left: (phase->left - 1) as u32, ran: true }
    } else if notified {
        Phase::Batch { left: EVENT_INTERVAL, ran: false }
    } else if waiting > 0 {
        Phase::Batch { left: (EVENT_INTERVAL - 1) as u32, ran: true }
    } else {
        Phase::Batch { left: EVENT_INTERVAL, ran: false }
    }
}

/// `action` is what to do next: run a task while the batch goes on; otherwise poll
/// the blocked-on future if it has been woken, or else begin another batch.
pub open spec fn is_next(
    phase: Phase,
    notified: bool,
    queue: Seq<usize>,
    action: Action,
) -> bool {
    if queue.len() > 0 && (goes_on(phase, notified) || !notified) {
        action matches Action::Run(task, _) && task.place == queue[0]
    } else if notified {
        action is PollRoot
    } else {
        action is Deadlock
    }
}

impl BlockOn {
    /// The loop, about to begin.
    pub fn new() -> (block_on: BlockOn)
        ensures
            block_on@ is Top,
    {
        BlockOn { phase: Phase::Top }
    }

    /// Says what to do next. The future is only polled when it has actually been
    /// woken.
    pub fn next(&mut self, signal: &mut Signal, handle: &mut Handle) -> (action: Action)
        requires
            old(handle).wf(),
            sound(old(self)@),
        ensures
            final(handle).wf(),
            sound(final(self)@),
            is_next(old(self)@, old(signal)@, old(handle)@.queue, action),
            final(self)@ == next_phase(old(self)@, old(signal)@, old(handle)@.queue.len()),
            final(signal)@ == (old(signal)@ && !(action is PollRoot)),
            match action {
                Action::Run(task, step) => {
                    let p = old(handle)@.queue[0];
                    let h = old(handle)@.tasks[p];
                    let popped = HandleView { queue: old(handle)@.queue.skip(1), ..old(handle)@ };
                    if h.life.idle() {
                        &&& final(handle)@ == popped.with_task(p, h.begun())
                        &&& if h.life.cancelled {
                            step is DropFuture
                        } else {
                            step is PollFuture
                        }
                    } else {
                        &&& final(handle)@ == popped.with_dropped(p)
                        &&& step matches Step::Done(freed) && (freed is Some) == (h.life.refs == 1)
                            && (freed matches Some(header) ==> header@.is_left_of(h))
                    }
                },
                _ => final(handle)@ == old(handle)@,
            },
    {
        if let Phase::Batch { left, ran } = self.phase {
            if left > 0 && !(ran && signal.is_notified()) {
                if let Some((task, step)) = handle.next_task() {
                    self.phase = Phase::Batch { left: left - 1, ran: true };
                    return Action::Run(task, step);
                }
            }
        }
        if signal.take_notified() {
            self.phase = Phase::Batch { left: EVENT_INTERVAL, ran: false };
            return Action::PollRoot;
        }
        match handle.next_task() {
            Some((task, step)) => {
                self.phase = Phase::Batch { left: EVENT_INTERVAL - 1, ran: true };
                Action::Run(task, step)
            },
            None => {
                self.phase = Phase::Batch { left: EVENT_INTERVAL, ran: false };
                Action::Deadlock
            },
        }
    }
}

/// Blocking gives up only if nothing can happen any more, and always then.
pub proof fn lemma_deadlock_is_exact(
    phase: Phase,
    notified: bool,
    queue: Seq<usize>,
    action: Action,
)
    requires
        is_next(phase, notified, queue, action),
    ensures
        (action is Deadlock) == (queue.len() == 0 && !notified),
{
}

/// A task that wakes the blocked-on future is the last to run before it is
/// polled.
pub proof fn lemma_a_wake_ends_the_batch(left: u32, queue: Seq<usize>, action: Action)
    requires
        is_next(Phase::Batch { left, ran: true }, true, queue, action),
    ensures
        action is PollRoot,
{
}

/// What comes next, case by case. While a batch has tasks left in it, and none that it
/// ran has woken the blocked-on future, the task at the front of the queue runs. A
/// future that has been woken is polled when a batch is over, or there is nothing else
/// to run. One that has not is left alone, and tasks go on running.
pub proof fn lemma_what_comes_next(
    left: u32,
    ran: bool,
    notified: bool,
    queue: Seq<usize>,
    action: Action,
)
    requires
        is_next(Phase::Batch { left, ran }, notified, queue, action),
    ensures
        queue.len() > 0 && left > 0 && !(ran && notified) ==> (action matches Action::Run(task, _)
            && task.place == queue[0]),
        queue.len() > 0 && !notified ==> (action matches Action::Run(task, _) && task.place
            == queue[0]),
        notified && (queue.len() == 0 || left == 0 || ran) ==> action is PollRoot,
        queue.len() == 0 && !notified ==> action is Deadlock,
        action is PollRoot ==> notified,
{
}

/// The loop begins with the blocked-on future if that has been woken, and with a task
/// if not.
pub proof fn lemma_what_comes_first(notified: bool, queue: Seq<usize>, action: Action)
    requires
        is_next(Phase::Top, notified, queue, action),
    ensures
        action is PollRoot <==> notified,
        action is Deadlock <==> !notified && queue.len() == 0,
        !notified && queue.len() > 0 ==> (action matches Action::Run(task, _) && task.place
            == queue[0]),
{
}

/// A batch is sixty-one tasks. Each that runs takes one off it; the next begins with
/// all of it once the blocked-on future has been polled, or, where that has not been
/// woken, with the first of it run.
pub proof fn lemma_how_long_a_batch_is(left: u32, ran: bool, notified: bool, waiting: nat)
    requires
        sound(Phase::Batch { left, ran }),
    ensures
        left <= 61,
        !ran ==> left == 61,
        ({
            let next = next_phase(Phase::Batch { left, ran }, notified, waiting);
            if waiting > 0 && left > 0 && !(ran && notified) {
                next == Phase::Batch { left: (left - 1) as u32, ran: true }
            } else if waiting > 0 && !notified {
                next == Phase::Batch { left: 60, ran: true }
            } else {
                next == Phase::Batch { left: 61, ran: false }
            }
        }),
        next_phase(Phase::Top, notified, waiting) == if waiting > 0 && !notified {
            Phase::Batch { left: 60, ran: true }
        } else {
            Phase::Batch { left: 61, ran: false }
        },
{
}

/// A future that has been woken does not wait for ever: each task that runs before it
/// leaves fewer to run, and once there are none left it is polled.
pub proof fn lemma_a_woken_future_is_polled_soon(
    left: u32,
    ran: bool,
    queue: Seq<usize>,
    action: Action,
)
    requires
        sound(Phase::Batch { left, ran }),
        is_next(Phase::Batch { left, ran }, true, queue, action),
    ensures
        action is PollRoot || action is Run,
        action is Run ==> (next_phase(Phase::Batch { left, ran }, true, queue.len()) matches Phase::Batch {
            left: fewer,
            ran: has,
        } && fewer < left && has),
{
}

} // verus!
