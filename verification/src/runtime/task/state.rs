//! The lifecycle flags and the reference count of a task, in one word.
//!
//! The low bits are flags:
//!
//!  * `RUNNING` - Tracks whether the task is currently being polled or
//!    cancelled. This bit functions as a lock around the task.
//!
//!  * `COMPLETE` - Is one once the future has fully completed and has been
//!    dropped. Never unset once set. Never set together with `RUNNING`.
//!
//!  * `NOTIFIED` - Tracks whether the task has been woken since it was last
//!    polled.
//!
//!  * `JOIN_INTEREST` - Is set to one if there exists a `JoinHandle`.
//!
//!  * `CANCELLED` - Is set to one for tasks that should be cancelled as soon as
//!    possible.
//!
//!  * `OWNED` - Is set to one while the task is in a runtime's registry.
//!
//!  * `OUTPUT_TAKEN` - Is set to one once the result has been handed out.
//!
//! The rest of the bits are used for the reference count.

use vstd::prelude::*;

verus! {

pub const RUNNING: usize = 1;

pub const COMPLETE: usize = 2;

pub const NOTIFIED: usize = 4;

pub const JOIN_INTEREST: usize = 8;

pub const CANCELLED: usize = 16;

pub const OWNED: usize = 32;

pub const OUTPUT_TAKEN: usize = 64;

/// One reference.
pub const REF_ONE: usize = 128;

/// Where the reference count starts.
pub const REF_COUNT_SHIFT: usize = 7;

/// Three references, a `JoinHandle`, and a first poll owed.
pub const INITIAL_STATE: usize = 396;

/// Whether flag `bit` is set in `val`.
pub open spec fn flag(val: usize, bit: usize) -> bool {
    val & bit != 0
}

/// `bit` is one of the flags.
pub open spec fn is_flag(bit: usize) -> bool {
    bit == 1 || bit == 2 || bit == 4 || bit == 8 || bit == 16 || bit == 32 || bit == 64
}

/// What a task's state word says.
pub struct Lifecycle {
    pub running: bool,
    pub complete: bool,
    pub notified: bool,
    pub join_interest: bool,
    pub cancelled: bool,
    pub owned: bool,
    pub output_taken: bool,
    pub refs: int,
}

impl Lifecycle {
    /// Neither being polled nor done for.
    pub open spec fn idle(self) -> bool {
        !self.running && !self.complete
    }

    /// There is one reference or another left to count: the state word has no more
    /// bits for them.
    pub open spec fn countable(self) -> bool {
        self.refs < usize::MAX / 128
    }

    /// Waking the task puts it on the run queue: it is idle and has not been woken
    /// since it was last polled.
    pub open spec fn wake_queues(self) -> bool {
        self.idle() && !self.notified
    }

    /// There is a reference left to count if waking the task takes one, for the run
    /// queue.
    pub open spec fn wakeable(self) -> bool {
        self.wake_queues() ==> self.countable()
    }

    /// The task once it has been woken, with a reference for the run queue unless
    /// whoever woke it gives its own.
    pub open spec fn woken(self, caller_ref: CallerRef) -> Lifecycle {
        if self.complete || self.notified {
            self
        } else {
            Lifecycle {
                notified: true,
                refs: self.refs + if self.wake_queues() && caller_ref is Kept {
                    1int
                } else {
                    0int
                },
                ..self
            }
        }
    }

    /// The task once it has been woken by each of these.
    pub open spec fn woken_by_all(self, callers: Seq<CallerRef>) -> Lifecycle
        decreases callers.len(),
    {
        if callers.len() == 0 {
            self
        } else {
            self.woken_by_all(callers.drop_last()).woken(callers.last())
        }
    }
}

/// A state word, taken apart.
pub open spec fn lifecycle(val: usize) -> Lifecycle {
    Lifecycle {
        running: flag(val, RUNNING),
        complete: flag(val, COMPLETE),
        notified: flag(val, NOTIFIED),
        join_interest: flag(val, JOIN_INTEREST),
        cancelled: flag(val, CANCELLED),
        owned: flag(val, OWNED),
        output_taken: flag(val, OUTPUT_TAKEN),
        refs: (val / 128) as int,
    }
}

/// Setting a flag sets that flag and nothing else.
proof fn lemma_set(val: usize, bit: usize, other: usize)
    requires
        is_flag(bit),
        is_flag(other),
    ensures
        flag(val | bit, other) == (flag(val, other) || other == bit),
        (val | bit) / 128 == val / 128,
{
    assert(((val | bit) & other != 0) == (val & other != 0 || other == bit) && (val | bit) / 128
        == val / 128) by (bit_vector)
        requires
            bit == 1 || bit == 2 || bit == 4 || bit == 8 || bit == 16 || bit == 32 || bit == 64,
            other == 1 || other == 2 || other == 4 || other == 8 || other == 16 || other == 32
                || other == 64,
    ;
}

/// Clearing a flag clears that flag and nothing else.
proof fn lemma_clear(val: usize, bit: usize, other: usize)
    requires
        is_flag(bit),
        is_flag(other),
    ensures
        flag(val & !bit, other) == (flag(val, other) && other != bit),
        (val & !bit) / 128 == val / 128,
{
    assert(((val & !bit) & other != 0) == (val & other != 0 && other != bit) && (val & !bit) / 128
        == val / 128) by (bit_vector)
        requires
            bit == 1 || bit == 2 || bit == 4 || bit == 8 || bit == 16 || bit == 32 || bit == 64,
            other == 1 || other == 2 || other == 4 || other == 8 || other == 16 || other == 32
                || other == 64,
    ;
}

/// The flags are in the remainder.
proof fn lemma_flags_are_low(val: usize, bit: usize)
    requires
        is_flag(bit),
    ensures
        flag(val, bit) == flag((val % 128) as usize, bit),
{
    assert((val & bit != 0) == (((val % 128) as usize) & bit != 0)) by (bit_vector)
        requires
            bit == 1 || bit == 2 || bit == 4 || bit == 8 || bit == 16 || bit == 32 || bit == 64,
    ;
}

/// Words with the same remainder have the same flags.
proof fn lemma_same_low(a: usize, b: usize)
    requires
        a % 128 == b % 128,
    ensures
        lifecycle(a) == (Lifecycle { refs: (a / 128) as int, ..lifecycle(b) }),
{
    lemma_flags_are_low(a, RUNNING);
    lemma_flags_are_low(b, RUNNING);
    lemma_flags_are_low(a, COMPLETE);
    lemma_flags_are_low(b, COMPLETE);
    lemma_flags_are_low(a, NOTIFIED);
    lemma_flags_are_low(b, NOTIFIED);
    lemma_flags_are_low(a, JOIN_INTEREST);
    lemma_flags_are_low(b, JOIN_INTEREST);
    lemma_flags_are_low(a, CANCELLED);
    lemma_flags_are_low(b, CANCELLED);
    lemma_flags_are_low(a, OWNED);
    lemma_flags_are_low(b, OWNED);
    lemma_flags_are_low(a, OUTPUT_TAKEN);
    lemma_flags_are_low(b, OUTPUT_TAKEN);
}

/// Setting flag `bit`, seen on the word taken apart.
proof fn lemma_set_all(val: usize, bit: usize)
    requires
        is_flag(bit),
    ensures
        ({
            let a = lifecycle(val);
            lifecycle(val | bit) == Lifecycle {
                running: a.running || bit == RUNNING,
                complete: a.complete || bit == COMPLETE,
                notified: a.notified || bit == NOTIFIED,
                join_interest: a.join_interest || bit == JOIN_INTEREST,
                cancelled: a.cancelled || bit == CANCELLED,
                owned: a.owned || bit == OWNED,
                output_taken: a.output_taken || bit == OUTPUT_TAKEN,
                refs: a.refs,
            }
        }),
{
    lemma_set(val, bit, RUNNING);
    lemma_set(val, bit, COMPLETE);
    lemma_set(val, bit, NOTIFIED);
    lemma_set(val, bit, JOIN_INTEREST);
    lemma_set(val, bit, CANCELLED);
    lemma_set(val, bit, OWNED);
    lemma_set(val, bit, OUTPUT_TAKEN);
}

/// Clearing flag `bit`, seen on the word taken apart.
proof fn lemma_clear_all(val: usize, bit: usize)
    requires
        is_flag(bit),
    ensures
        ({
            let a = lifecycle(val);
            lifecycle(val & !bit) == Lifecycle {
                running: a.running && bit != RUNNING,
                complete: a.complete && bit != COMPLETE,
                notified: a.notified && bit != NOTIFIED,
                join_interest: a.join_interest && bit != JOIN_INTEREST,
                cancelled: a.cancelled && bit != CANCELLED,
                owned: a.owned && bit != OWNED,
                output_taken: a.output_taken && bit != OUTPUT_TAKEN,
                refs: a.refs,
            }
        }),
{
    lemma_clear(val, bit, RUNNING);
    lemma_clear(val, bit, COMPLETE);
    lemma_clear(val, bit, NOTIFIED);
    lemma_clear(val, bit, JOIN_INTEREST);
    lemma_clear(val, bit, CANCELLED);
    lemma_clear(val, bit, OWNED);
    lemma_clear(val, bit, OUTPUT_TAKEN);
}

/// A state word at one moment.
#[derive(Clone, Copy, Debug, PartialEq, Eq, Structural)]
pub struct Snapshot {
    bits: usize,
}

impl View for Snapshot {
    type V = Lifecycle;

    closed spec fn view(&self) -> Lifecycle {
        lifecycle(self.bits)
    }
}

impl Snapshot {
    /// Neither running nor complete.
    pub fn is_idle(self) -> (yes: bool)
        ensures
            yes == self@.idle(),
            yes == (!self@.running && !self@.complete),
    {
        let bits = self.bits;
        proof {
            assert((bits & (1usize | 2usize) == 0) == (bits & 1 == 0 && bits & 2 == 0))
                by (bit_vector);
        }
        self.bits & (RUNNING | COMPLETE) == 0
    }

    pub fn is_running(self) -> (yes: bool)
        ensures
            yes == self@.running,
    {
        self.bits & RUNNING != 0
    }

    fn set_running(&mut self)
        ensures
            final(self)@ == (Lifecycle { running: true, ..old(self)@ }),
    {
        proof {
            lemma_set_all(self.bits, RUNNING);
        }
        self.bits = self.bits | RUNNING;
    }

    fn unset_running(&mut self)
        ensures
            final(self)@ == (Lifecycle { running: false, ..old(self)@ }),
    {
        proof {
            lemma_clear_all(self.bits, RUNNING);
        }
        self.bits = self.bits & !RUNNING;
    }

    pub fn is_complete(self) -> (yes: bool)
        ensures
            yes == self@.complete,
    {
        self.bits & COMPLETE != 0
    }

    fn set_complete(&mut self)
        ensures
            final(self)@ == (Lifecycle { complete: true, ..old(self)@ }),
    {
        proof {
            lemma_set_all(self.bits, COMPLETE);
        }
        self.bits = self.bits | COMPLETE;
    }

    pub fn is_notified(self) -> (yes: bool)
        ensures
            yes == self@.notified,
    {
        self.bits & NOTIFIED != 0
    }

    fn set_notified(&mut self)
        ensures
            final(self)@ == (Lifecycle { notified: true, ..old(self)@ }),
    {
        proof {
            lemma_set_all(self.bits, NOTIFIED);
        }
        self.bits = self.bits | NOTIFIED;
    }

    fn unset_notified(&mut self)
        ensures
            final(self)@ == (Lifecycle { notified: false, ..old(self)@ }),
    {
        proof {
            lemma_clear_all(self.bits, NOTIFIED);
        }
        self.bits = self.bits & !NOTIFIED;
    }

    pub fn is_cancelled(self) -> (yes: bool)
        ensures
            yes == self@.cancelled,
    {
        self.bits & CANCELLED != 0
    }

    fn set_cancelled(&mut self)
        ensures
            final(self)@ == (Lifecycle { cancelled: true, ..old(self)@ }),
    {
        proof {
            lemma_set_all(self.bits, CANCELLED);
        }
        self.bits = self.bits | CANCELLED;
    }

    fn unset_cancelled(&mut self)
        ensures
            final(self)@ == (Lifecycle { cancelled: false, ..old(self)@ }),
    {
        proof {
            lemma_clear_all(self.bits, CANCELLED);
        }
        self.bits = self.bits & !CANCELLED;
    }

    pub fn is_join_interested(self) -> (yes: bool)
        ensures
            yes == self@.join_interest,
    {
        self.bits & JOIN_INTEREST != 0
    }

    fn unset_join_interested(&mut self)
        ensures
            final(self)@ == (Lifecycle { join_interest: false, ..old(self)@ }),
    {
        proof {
            lemma_clear_all(self.bits, JOIN_INTEREST);
        }
        self.bits = self.bits & !JOIN_INTEREST;
    }

    pub fn is_owned(self) -> (yes: bool)
        ensures
            yes == self@.owned,
    {
        self.bits & OWNED != 0
    }

    fn set_owned(&mut self)
        ensures
            final(self)@ == (Lifecycle { owned: true, ..old(self)@ }),
    {
        proof {
            lemma_set_all(self.bits, OWNED);
        }
        self.bits = self.bits | OWNED;
    }

    fn unset_owned(&mut self)
        ensures
            final(self)@ == (Lifecycle { owned: false, ..old(self)@ }),
    {
        proof {
            lemma_clear_all(self.bits, OWNED);
        }
        self.bits = self.bits & !OWNED;
    }

    pub fn is_output_taken(self) -> (yes: bool)
        ensures
            yes == self@.output_taken,
    {
        self.bits & OUTPUT_TAKEN != 0
    }

    fn set_output_taken(&mut self)
        ensures
            final(self)@ == (Lifecycle { output_taken: true, ..old(self)@ }),
    {
        proof {
            lemma_set_all(self.bits, OUTPUT_TAKEN);
        }
        self.bits = self.bits | OUTPUT_TAKEN;
    }

    pub fn ref_count(self) -> (refs: usize)
        ensures
            refs == self@.refs,
    {
        let bits = self.bits;
        proof {
            assert(bits >> 7usize == bits / 128) by (bit_vector);
        }
        self.bits >> REF_COUNT_SHIFT
    }

    /// Whether there is a reference left to count.
    pub fn is_countable(self) -> (yes: bool)
        ensures
            yes == self@.countable(),
            yes == (self@.refs < usize::MAX / 128),
    {
        self.ref_count() < usize::MAX / 128
    }

    /// Whether there is a reference left to count if waking the task takes one.
    pub fn is_wakeable(self) -> (yes: bool)
        ensures
            yes == self@.wakeable(),
            yes == (self@.running || self@.complete || self@.notified || self@.refs < usize::MAX
                / 128),
    {
        !self.is_idle() || self.is_notified() || self.is_countable()
    }

    fn ref_inc(&mut self)
        requires
            old(self)@.countable(),
        ensures
            final(self)@ == (Lifecycle { refs: old(self)@.refs + 1, ..old(self)@ }),
    {
        proof {
            lemma_same_low((self.bits + 128) as usize, self.bits);
        }
        self.bits = self.bits + REF_ONE;
    }

    fn ref_dec(&mut self)
        requires
            old(self)@.refs > 0,
        ensures
            final(self)@ == (Lifecycle { refs: old(self)@.refs - 1, ..old(self)@ }),
    {
        self.ref_sub(1);
    }

    fn ref_sub(&mut self, count: usize)
        requires
            old(self)@.refs >= count,
        ensures
            final(self)@ == (Lifecycle { refs: old(self)@.refs - count, ..old(self)@ }),
    {
        proof {
            lemma_same_low((self.bits - count * 128) as usize, self.bits);
        }
        self.bits = self.bits - count * REF_ONE;
    }
}

/// What taking the poll lock found.
#[derive(Clone, Copy, Debug, PartialEq, Eq, Structural)]
pub enum TransitionToRunning {
    /// The task is to be polled.
    Polled,
    /// The task is to be killed instead.
    Cancelled,
    /// Somebody else has the lock, or there is nothing left to poll.
    Dead,
}

/// What giving the poll lock back found.
#[derive(Clone, Copy, Debug, PartialEq, Eq, Structural)]
pub enum TransitionToIdle {
    /// Nothing happened meanwhile.
    Idle,
    /// The task was woken while it was being polled.
    Notified,
    /// The task was cancelled while it was being polled, and the lock is kept to
    /// kill it.
    Cancelled,
}

/// Whether whoever wakes a task gives its reference up.
#[derive(Clone, Copy, Debug, PartialEq, Eq, Structural)]
pub enum CallerRef {
    Kept,
    Consumed,
}

/// `b` is a sound state if `a` is, and complete if `a` is.
pub open spec fn follows(a: Lifecycle, b: Lifecycle) -> bool {
    &&& !(a.running && a.complete) ==> !(b.running && b.complete)
    &&& a.complete ==> b.complete
}

/// The state word of a task.
#[derive(Clone, Copy, Debug, PartialEq, Eq, Structural)]
pub struct State {
    val: usize,
}

impl View for State {
    type V = Lifecycle;

    closed spec fn view(&self) -> Lifecycle {
        lifecycle(self.val)
    }
}

/// A task that has just been made: three references, a `JoinHandle`, and a first
/// poll owed.
pub open spec fn fresh() -> Lifecycle {
    Lifecycle {
        running: false,
        complete: false,
        notified: true,
        join_interest: true,
        cancelled: false,
        owned: false,
        output_taken: false,
        refs: 3,
    }
}

impl State {
    /// The state of a task that has just been made.
    pub fn new() -> (state: State)
        ensures
            state@ == fresh(),
            state@.notified && state@.join_interest && state@.refs == 3,
            !(state@.running || state@.complete || state@.cancelled || state@.owned),
            !state@.output_taken,
    {
        proof {
            assert(396usize & 1 == 0 && 396usize & 2 == 0 && 396usize & 4 != 0 && 396usize & 8 != 0
                && 396usize & 16 == 0 && 396usize & 32 == 0 && 396usize & 64 == 0)
                by (bit_vector);
        }
        State { val: INITIAL_STATE }
    }

    /// The state at this moment.
    pub fn load(&self) -> (snapshot: Snapshot)
        ensures
            snapshot@ == self@,
    {
        Snapshot { bits: self.val }
    }

    fn store(&mut self, snapshot: Snapshot)
        ensures
            final(self)@ == snapshot@,
    {
        self.val = snapshot.bits;
    }

    /// Take the poll lock, if the task is idle.
    pub fn transition_to_running(&mut self) -> (transition: TransitionToRunning)
        ensures
            follows(old(self)@, final(self)@),
            final(self)@ == if old(self)@.idle() {
                Lifecycle { running: true, notified: false, ..old(self)@ }
            } else {
                old(self)@
            },
            transition == if !old(self)@.idle() {
                TransitionToRunning::Dead
            } else if old(self)@.cancelled {
                TransitionToRunning::Cancelled
            } else {
                TransitionToRunning::Polled
            },
    {
        let mut next = self.load();

        if !next.is_idle() {
            return TransitionToRunning::Dead;
        }
        next.set_running();
        next.unset_notified();
        self.store(next);

        if next.is_cancelled() {
            TransitionToRunning::Cancelled
        } else {
            TransitionToRunning::Polled
        }
    }

    /// Give the poll lock back, unless the task has been cancelled meanwhile.
    pub fn transition_to_idle(&mut self) -> (transition: TransitionToIdle)
        requires
            old(self)@.running,
        ensures
            follows(old(self)@, final(self)@),
            final(self)@ == if old(self)@.cancelled {
                old(self)@
            } else {
                Lifecycle { running: false, ..old(self)@ }
            },
            transition == if old(self)@.cancelled {
                TransitionToIdle::Cancelled
            } else if old(self)@.notified {
                TransitionToIdle::Notified
            } else {
                TransitionToIdle::Idle
            },
    {
        let mut next = self.load();

        if next.is_cancelled() {
            return TransitionToIdle::Cancelled;
        }
        next.unset_running();
        self.store(next);

        if next.is_notified() {
            TransitionToIdle::Notified
        } else {
            TransitionToIdle::Idle
        }
    }

    /// Give the poll lock back for good.
    pub fn transition_to_complete(&mut self, cancelled: bool) -> (snapshot: Snapshot)
        requires
            old(self)@.running,
            !old(self)@.complete,
        ensures
            follows(old(self)@, final(self)@),
            final(self)@ == (Lifecycle { running: false, complete: true, cancelled, ..old(self)@ }),
            snapshot@ == final(self)@,
    {
        let mut next = self.load();

        next.unset_running();
        next.set_complete();

        if cancelled {
            next.set_cancelled();
        } else {
            next.unset_cancelled();
        }
        self.store(next);

        next
    }

    /// Drop `count` references at once. Returns whether they were the last.
    pub fn transition_to_terminal(&mut self, count: usize) -> (last: bool)
        requires
            old(self)@.refs >= count,
        ensures
            follows(old(self)@, final(self)@),
            final(self)@ == (Lifecycle { refs: old(self)@.refs - count, ..old(self)@ }),
            last == (old(self)@.refs == count),
    {
        let prev = self.load();
        let mut next = prev;
        next.ref_sub(count);
        self.store(next);

        prev.ref_count() == count
    }

    /// Mark the task as woken. Returns whether it is now the caller's job to
    /// queue it, for which a reference is made unless the caller gives its own.
    pub fn transition_to_notified(&mut self, caller_ref: CallerRef) -> (queue: bool)
        requires
            caller_ref is Kept ==> old(self)@.wakeable(),
        ensures
            follows(old(self)@, final(self)@),
            queue == old(self)@.wake_queues(),
            final(self)@ == old(self)@.woken(caller_ref),
            queue <==> !old(self)@.running && !old(self)@.complete && !old(self)@.notified,
            final(self)@.notified == (old(self)@.notified || !old(self)@.complete),
            final(self)@.refs == old(self)@.refs + if queue && caller_ref is Kept {
                1int
            } else {
                0int
            },
    {
        let mut next = self.load();

        if next.is_complete() || next.is_notified() {
            return false;
        }
        next.set_notified();
        let was_idle = !next.is_running();

        if was_idle {
            match caller_ref {
                CallerRef::Kept => {
                    next.ref_inc();
                },
                CallerRef::Consumed => {},
            }
        }
        self.store(next);
        was_idle
    }

    /// Ask for the task to be killed, unless it is done for already.
    pub fn set_cancelled(&mut self)
        ensures
            follows(old(self)@, final(self)@),
            final(self)@ == if old(self)@.complete {
                old(self)@
            } else {
                Lifecycle { cancelled: true, ..old(self)@ }
            },
    {
        let mut next = self.load();

        if next.is_complete() {
            return;
        }
        next.set_cancelled();
        self.store(next);
    }

    /// Claim the result. Returns whether it was still there to claim.
    pub fn take_output(&mut self) -> (claimed: bool)
        requires
            old(self)@.complete,
        ensures
            follows(old(self)@, final(self)@),
            claimed == !old(self)@.output_taken,
            final(self)@ == (Lifecycle { output_taken: true, ..old(self)@ }),
    {
        let mut next = self.load();

        if next.is_output_taken() {
            return false;
        }
        next.set_output_taken();
        self.store(next);

        true
    }

    /// Record that the task is in a registry.
    pub fn set_owned(&mut self)
        requires
            !old(self)@.owned,
        ensures
            follows(old(self)@, final(self)@),
            final(self)@ == (Lifecycle { owned: true, ..old(self)@ }),
    {
        let mut next = self.load();
        next.set_owned();
        self.store(next);
    }

    /// Record that the task is in no registry. Returns whether it was in one.
    pub fn unset_owned(&mut self) -> (was_owned: bool)
        ensures
            follows(old(self)@, final(self)@),
            was_owned == old(self)@.owned,
            final(self)@ == (Lifecycle { owned: false, ..old(self)@ }),
    {
        let mut next = self.load();

        if !next.is_owned() {
            return false;
        }
        next.unset_owned();
        self.store(next);

        true
    }

    /// Record that there is no `JoinHandle` any more.
    pub fn unset_join_interested(&mut self)
        requires
            old(self)@.join_interest,
        ensures
            follows(old(self)@, final(self)@),
            final(self)@ == (Lifecycle { join_interest: false, ..old(self)@ }),
    {
        let mut next = self.load();
        next.unset_join_interested();
        self.store(next);
    }

    /// Count one more reference.
    pub fn ref_inc(&mut self)
        requires
            old(self)@.countable(),
        ensures
            follows(old(self)@, final(self)@),
            final(self)@ == (Lifecycle { refs: old(self)@.refs + 1, ..old(self)@ }),
    {
        let mut next = self.load();
        next.ref_inc();
        self.store(next);
    }

    /// Count one reference less. Returns whether it was the last.
    pub fn ref_dec(&mut self) -> (last: bool)
        requires
            old(self)@.refs > 0,
        ensures
            follows(old(self)@, final(self)@),
            final(self)@ == (Lifecycle { refs: old(self)@.refs - 1, ..old(self)@ }),
            last == (old(self)@.refs == 1),
    {
        let mut next = self.load();
        next.ref_dec();
        self.store(next);

        next.ref_count() == 0
    }
}

/// Of many wakes with no poll in between at most one queues the task, and that is the
/// first: once a task has been woken, by anybody, no wake after that does.
pub proof fn lemma_only_the_first_wake_queues(life: Lifecycle, callers: Seq<CallerRef>)
    requires
        callers.len() > 0,
    ensures
        !life.woken_by_all(callers).wake_queues(),
        life.complete || life.notified ==> life.woken_by_all(callers) == life,
        !(life.complete || life.notified) ==> life.woken_by_all(callers) == life.woken(callers[0]),
    decreases callers.len(),
{
    let fewer = callers.drop_last();
    reveal_with_fuel(Lifecycle::woken_by_all, 2);
    if fewer.len() > 0 {
        lemma_only_the_first_wake_queues(life, fewer);
        assert(fewer[0] == callers[0]);
    }
}

/// Where each flag is in the word, counted from the lowest bit, and that the references
/// are counted in all the bits above.
pub proof fn lemma_where_each_flag_is(val: usize)
    ensures
        lifecycle(val) == (Lifecycle {
            running: val % 2 == 1,
            complete: val / 2 % 2 == 1,
            notified: val / 4 % 2 == 1,
            join_interest: val / 8 % 2 == 1,
            cancelled: val / 16 % 2 == 1,
            owned: val / 32 % 2 == 1,
            output_taken: val / 64 % 2 == 1,
            refs: val as int / 128,
        }),
{
    assert((val & 1 != 0) == (val % 2 == 1) && (val & 2 != 0) == (val / 2 % 2 == 1) && (val & 4
        != 0) == (val / 4 % 2 == 1) && (val & 8 != 0) == (val / 8 % 2 == 1) && (val & 16 != 0) == (
    val / 16 % 2 == 1) && (val & 32 != 0) == (val / 32 % 2 == 1) && (val & 64 != 0) == (val / 64 % 2
        == 1)) by (bit_vector);
}

/// What a wake does: nothing to a task that is complete or has been woken already; to
/// any other it says that it was woken. One that is idle is queued, for which there is
/// one more reference unless whoever wakes it gives its own. Nothing else changes.
pub proof fn lemma_what_a_wake_does(life: Lifecycle, caller_ref: CallerRef)
    ensures
        life.wake_queues() <==> !life.running && !life.complete && !life.notified,
        life.complete || life.notified ==> life.woken(caller_ref) == life,
        !(life.complete || life.notified) ==> life.woken(caller_ref) == (Lifecycle {
            notified: true,
            refs: if !life.running && caller_ref is Kept {
                life.refs + 1
            } else {
                life.refs
            },
            ..life
        }),
        life.wakeable() <==> life.running || life.complete || life.notified || life.refs < usize::MAX
            / 128,
        life.idle() <==> !life.running && !life.complete,
        life.countable() <==> life.refs < usize::MAX / 128,
{
}

/// What every change of the state word keeps: a complete task stays complete, and none
/// is complete while it runs.
pub proof fn lemma_what_follows(a: Lifecycle, b: Lifecycle)
    requires
        follows(a, b),
    ensures
        a.complete ==> b.complete,
        b.running && b.complete ==> a.running && a.complete,
{
}

} // verus!
