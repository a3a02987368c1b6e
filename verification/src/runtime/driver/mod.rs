//! The io_uring driver: one ring and the operations in flight on it.
//!
//! # Why every turn is a system call
//!
//! The ring is created with [`SetupFlags::DEFER_TASKRUN`], which holds completion
//! work until the owning thread next enters the kernel. That is what makes
//! completions arrive in batches on our own schedule rather than at interrupt
//! time, and it is why the ring is bound to one thread.
//!
//! It also means there is no userspace signal that completions are waiting. The
//! kernel raises `SqRingFlags::TASKRUN` only from its ordinary task-work path,
//! never from the deferred one, so an empty completion ring proves nothing — the
//! only way to find out is to call `io_uring_enter` with
//! [`EnterFlags::GETEVENTS`]. [`Driver::turn`] therefore always enters while
//! anything is outstanding, and the executor's polling budget is what keeps the
//! rate of those calls bounded.
//!
//! # Submission
//!
//! Entries are written straight into the submission ring, and the tail is
//! published once per turn rather than once per operation: without SQPOLL the
//! kernel only reads it inside `io_uring_enter`, so the intervening stores would
//! be for nobody's benefit.
//!
//! When the ring fills, further entries go on a backlog and the executor stops
//! polling tasks to come drain it. Under load that settles into one enter per
//! full ring, which is the batching the ring size is for.

pub mod ledger;

use std::collections::VecDeque;

use vstd::prelude::*;

use self::ledger::{Action, Entry, Ledger, OpKey, Outcome, State};
use crate::io_uring::cq::{Completions, CqView};
use crate::io_uring::flags::{AsyncCancelFlags, CqeFlags, EnterFlags, SetupFlags, SqeFlags};
use crate::io_uring::op::{AsyncCancel, Op};
use crate::io_uring::queue;
use crate::io_uring::ring::{Ring, RingView};
use crate::io_uring::sq;
use crate::io_uring::sq::SqView;
use crate::io_uring::sys;
use crate::io_uring::sys::{Params, Sqe};
use crate::io_uring::syscall::Errno;
use crate::runtime::poll::Poll;
use crate::runtime::waker::Waker;

verus! {

/// Submission ring entries. Small on purpose: the backlog path is a correctness
/// requirement rather than an edge case, so it should be exercised constantly
/// instead of lying dormant until production.
pub const SQ_ENTRIES: u32 = 64;

/// Completion ring entries. Twice the submission ring, so an ordinary batch lands
/// without overflowing into the kernel's side list.
pub const CQ_ENTRIES: u32 = 128;

/// Direct descriptor slots. Fixed at registration — the table cannot grow — so
/// this is the connection ceiling.
pub const FILE_SLOTS: u32 = 1024;

/// Slots left to the kernel's own allocator.
pub const KERNEL_SLOTS: u32 = 256;

/// What `io_uring_setup` is asked for, with this many completion entries.
///
/// Without [`SetupFlags::SUBMIT_ALL`] the kernel stops consuming a batch at the
/// first malformed entry, turning one bad SQE into a stall.
pub fn params(cq_entries: u32) -> (params: Params)
    ensures
        params == (Params {
            flags: SetupFlags {
                bits: SetupFlags::SINGLE_ISSUER | SetupFlags::DEFER_TASKRUN
                    | SetupFlags::NO_SQARRAY | SetupFlags::CQSIZE | SetupFlags::SUBMIT_ALL,
            },
            cq_entries,
            ..sys::no_params()
        }),
        params.flags.bits == 0x1_3088,
{
    proof {
        assert((1u32 << 12) | (1u32 << 13) | (1u32 << 16) | (1u32 << 3) | (1u32 << 7) == 0x1_3088)
            by (bit_vector);
    }
    Params {
        flags: SetupFlags::from_bits_retain(
            SetupFlags::SINGLE_ISSUER | SetupFlags::DEFER_TASKRUN | SetupFlags::NO_SQARRAY
                | SetupFlags::CQSIZE | SetupFlags::SUBMIT_ALL,
        ),
        cq_entries,
        ..Params::default()
    }
}

/// The entry goes on to the one after it.
pub open spec fn linked(sqe: Sqe) -> bool {
    sqe.flags.bits & (SqeFlags::IO_LINK | SqeFlags::IO_HARDLINK) != 0
}

/// Whether the entry goes on to the one after it.
pub fn is_linked(sqe: &Sqe) -> (yes: bool)
    ensures
        yes == linked(*sqe),
{
    sqe.flags.intersects(SqeFlags::IO_LINK | SqeFlags::IO_HARDLINK)
}

/// How many entries at the front have to go out together: up to and including the
/// first that is not linked, or all of them if there is none.
pub open spec fn run_len(backlog: Seq<Sqe>) -> nat
    decreases backlog.len(),
{
    if backlog.len() == 0 {
        0
    } else if linked(backlog[0]) {
        1 + run_len(backlog.skip(1))
    } else {
        1
    }
}

/// The entries form one chain: linked on every entry but the last.
pub open spec fn is_chain(sqes: Seq<Sqe>) -> bool {
    &&& sqes.len() >= 1
    &&& forall|i: int| 0 <= i < sqes.len() - 1 ==> linked(#[trigger] sqes[i])
    &&& !linked(sqes.last())
}

/// A run ends where its first unlinked entry is.
proof fn lemma_run_len(backlog: Seq<Sqe>, n: int)
    requires
        0 <= n <= backlog.len(),
        forall|i: int| 0 <= i < n ==> linked(#[trigger] backlog[i]),
    ensures
        n < backlog.len() && !linked(backlog[n]) ==> run_len(backlog) == n + 1,
        n == backlog.len() ==> run_len(backlog) == n,
        n <= run_len(backlog) <= backlog.len(),
        backlog.len() > 0 ==> run_len(backlog) >= 1,
    decreases backlog.len(),
{
    if backlog.len() > 0 {
        let rest = backlog.skip(1);
        if linked(backlog[0]) {
            let m = if n > 0 {
                n - 1
            } else {
                0
            };
            assert forall|i: int| 0 <= i < m implies linked(#[trigger] rest[i]) by {
                assert(rest[i] == backlog[i + 1]);
            }
            if n > 0 && n < backlog.len() {
                assert(rest[n - 1] == backlog[n]);
            }
            lemma_run_len(rest, m);
        }
    }
}

/// How many entries at the front of the backlog have to go out together.
///
/// A link chain has to reach the kernel in one submission. At the end of a batch
/// the kernel issues a dangling link head immediately rather than holding it for
/// the next one, so a chain split across two calls does not stall — it silently
/// becomes two unrelated runs, and the second one starts against whatever state
/// the first left.
///
/// Chains are only ever appended whole, so the terminator is always there; a
/// backlog without one is a single run.
pub fn leading_chain_len(backlog: &VecDeque<Sqe>) -> (run: u32)
    requires
        backlog@.len() <= u32::MAX,
    ensures
        run == run_len(backlog@),
{
    let mut run: u32 = 0;
    while (run as usize) < backlog.len()
        invariant
            run <= backlog@.len() <= u32::MAX,
            forall|i: int| 0 <= i < run ==> linked(#[trigger] backlog@[i]),
        decreases backlog@.len() - run,
    {
        if !is_linked(&backlog[run as usize]) {
            proof {
                lemma_run_len(backlog@, run as int);
            }
            return run + 1;
        }
        run += 1;
    }
    proof {
        lemma_run_len(backlog@, run as int);
    }
    run
}

/// What the kernel has been asked and what it has been left to ask.
struct Submission {
    /// Written up to, but not yet published to the kernel.
    tail: u32,
    /// Entries that did not fit in the ring, in submission order.
    backlog: VecDeque<Sqe>,
}

/// The driver.
pub struct Driver {
    ring: Ring,
    sub: Submission,
    ledger: Ledger,
}

/// What a driver holds.
pub struct DriverView {
    pub ring: RingView,
    pub sq: SqView,
    pub cq: CqView,
    /// Written up to, but not yet published to the kernel.
    pub tail: u32,
    /// Entries that did not fit in the ring, in submission order.
    pub backlog: Seq<Sqe>,
    /// The operations, by entry.
    pub ops: Map<usize, Entry>,
}

impl DriverView {
    /// The tail is at or above the published one and within a ring of the
    /// kernel's head, and the ring is sound.
    pub open spec fn valid(self) -> bool {
        &&& queue::is_mask(self.sq.entries, self.sq.mask)
        &&& self.sq.sqe_shift <= 1
        &&& self.sq.sqes.len() == self.sq.places()
        &&& self.sq.pending() <= self.written() <= self.sq.entries
        &&& self.backlog.len() <= u32::MAX
    }

    /// Entries in the ring that the kernel has not consumed, published or not.
    pub open spec fn written(self) -> int {
        queue::ahead(self.sq.head, self.tail)
    }

    /// Room in the ring, measured against our unpublished tail.
    pub open spec fn room(self) -> int {
        self.sq.entries - self.written()
    }

    /// Everything the kernel has yet to consume, in the order it will: what is in
    /// the ring, then the backlog.
    pub open spec fn queued(self) -> Seq<Sqe> {
        self.sq.queued(self.tail) + self.backlog
    }

    /// One more entry in the ring.
    pub open spec fn with_written(self, sqe: Sqe) -> DriverView {
        DriverView {
            sq: SqView { sqes: self.sq.sqes.update(self.sq.slot(self.tail), sqe), ..self.sq },
            tail: queue::after(self.tail, 1),
            ..self
        }
    }

    /// One more entry, in the ring if it fits and on the backlog if not. Once
    /// anything is on the backlog everything goes there, or later submissions
    /// would overtake the ones already waiting.
    pub open spec fn with_pushed(self, sqe: Sqe) -> DriverView {
        if self.backlog.len() > 0 || self.room() == 0 {
            DriverView { backlog: self.backlog.push(sqe), ..self }
        } else {
            self.with_written(sqe)
        }
    }

    /// All of these in the ring, one after the other.
    pub open spec fn with_all_written(self, sqes: Seq<Sqe>) -> DriverView
        decreases sqes.len(),
    {
        if sqes.len() == 0 {
            self
        } else {
            self.with_all_written(sqes.drop_last()).with_written(sqes.last())
        }
    }

    /// One more entry for each of these, one after the other.
    pub open spec fn with_all_pushed(self, sqes: Seq<Sqe>) -> DriverView
        decreases sqes.len(),
    {
        if sqes.len() == 0 {
            self
        } else {
            self.with_all_pushed(sqes.drop_last()).with_pushed(sqes.last())
        }
    }

    /// A chain, in the ring if all of it fits and on the backlog as a block if
    /// not.
    pub open spec fn with_chain(self, sqes: Seq<Sqe>) -> DriverView {
        if self.backlog.len() == 0 && self.room() >= sqes.len() {
            self.with_all_written(sqes)
        } else {
            DriverView { backlog: self.backlog + sqes, ..self }
        }
    }

    /// The first `n` entries of the backlog moved into the ring.
    pub open spec fn with_drained(self, n: nat) -> DriverView {
        (DriverView { backlog: self.backlog.skip(n as int), ..self }).with_all_written(
            self.backlog.take(n as int),
        )
    }

    /// As much of the backlog moved into the ring as fits, a chain at a time.
    pub open spec fn flushed(self) -> DriverView
        decreases self.backlog.len(),
        when self.backlog.len() <= u32::MAX
        via Self::flushing_ends
    {
        let run = run_len(self.backlog);
        if self.backlog.len() == 0 || self.room() < run {
            self
        } else {
            self.with_drained(run).flushed()
        }
    }

    #[via_fn]
    proof fn flushing_ends(self) {
        lemma_run_len(self.backlog, 0);
        lemma_all_written_keeps(
            DriverView { backlog: self.backlog.skip(run_len(self.backlog) as int), ..self },
            self.backlog.take(run_len(self.backlog) as int),
        );
    }

    /// One round of a turn: what entering the kernel takes, once as much of the
    /// backlog as fits has been published.
    pub open spec fn round(self, wait: bool) -> Round {
        let to_submit = self.flushed().written() as u32;
        Round {
            backlog_before: self.backlog.len() as usize,
            step: if to_submit == 0 && !wait && ledger::owed(self.ops).len() == 0 {
                TurnStep::Idle
            } else {
                TurnStep::Enter(
                    EnterCall {
                        fd: self.ring.enter_fd,
                        to_submit,
                        min_complete: if wait {
                            1
                        } else {
                            0
                        },
                        flags: EnterFlags {
                            bits: self.ring.enter_flags | EnterFlags::GETEVENTS,
                        },
                    },
                )
            },
        }
    }

    /// The tail published.
    pub open spec fn published(self) -> DriverView {
        DriverView { sq: SqView { tail: self.tail, ..self.sq }, ..self }
    }
}

/// Writing into the ring leaves everything else alone.
pub proof fn lemma_all_written_keeps(v: DriverView, sqes: Seq<Sqe>)
    ensures
        ({
            let w = v.with_all_written(sqes);
            &&& w.backlog == v.backlog
            &&& w.ops == v.ops
            &&& w.ring == v.ring
            &&& w.cq == v.cq
            &&& w.sq == (SqView { sqes: w.sq.sqes, ..v.sq })
            &&& w.tail == queue::after(v.tail, sqes.len() as int)
        }),
    decreases sqes.len(),
{
    if sqes.len() > 0 {
        lemma_all_written_keeps(v, sqes.drop_last());
        queue::lemma_after_after(v.tail, sqes.len() - 1, 1);
    } else {
        queue::lemma_ahead_of_after(v.tail, 0);
    }
}

/// One entry written into a ring with room for it goes to the end of what is in
/// the ring.
proof fn lemma_written_appends(v: DriverView, sqe: Sqe)
    requires
        v.valid(),
        v.room() > 0,
    ensures
        v.with_written(sqe).valid(),
        v.with_written(sqe).written() == v.written() + 1,
        v.with_written(sqe).sq.queued(v.with_written(sqe).tail) == v.sq.queued(v.tail).push(sqe),
{
    sq::lemma_write_appends(v.sq, sqe, v.tail);
    queue::lemma_slot_in_range(v.sq.entries, v.sq.mask, v.tail);
    queue::lemma_after_ahead(v.sq.head, v.tail);
    queue::lemma_after_after(v.sq.head, v.written(), 1);
    queue::lemma_ahead_of_after(v.sq.head, v.written() + 1);
}

/// Entries written into a ring with room for all of them go to the end of what is
/// in the ring, in order.
proof fn lemma_all_written_append(v: DriverView, sqes: Seq<Sqe>)
    requires
        v.valid(),
        v.room() >= sqes.len(),
    ensures
        v.with_all_written(sqes).valid(),
        v.with_all_written(sqes).written() == v.written() + sqes.len(),
        v.with_all_written(sqes).sq.queued(v.with_all_written(sqes).tail) == v.sq.queued(v.tail)
            + sqes,
    decreases sqes.len(),
{
    if sqes.len() == 0 {
        assert(v.sq.queued(v.tail) + sqes =~= v.sq.queued(v.tail));
    } else {
        let most = sqes.drop_last();
        lemma_all_written_append(v, most);
        lemma_all_written_keeps(v, most);
        lemma_written_appends(v.with_all_written(most), sqes.last());
        assert((v.sq.queued(v.tail) + most).push(sqes.last()) =~= v.sq.queued(v.tail) + sqes);
    }
}

/// Submissions reach the kernel in the order they were made: one more goes to the
/// end of the queue, wherever it is put.
pub proof fn lemma_push_is_last_in_line(v: DriverView, sqe: Sqe)
    requires
        v.valid(),
        v.backlog.len() < u32::MAX,
    ensures
        v.with_pushed(sqe).valid(),
        v.with_pushed(sqe).queued() == v.queued().push(sqe),
{
    if v.backlog.len() > 0 || v.room() == 0 {
        assert(v.with_pushed(sqe).queued() =~= v.queued().push(sqe));
    } else {
        lemma_written_appends(v, sqe);
        assert(v.with_pushed(sqe).queued() =~= v.queued().push(sqe));
    }
}

/// A chain goes to the end of the queue whole, and lands either in the ring or on
/// the backlog, never in both.
pub proof fn lemma_a_chain_stays_together(v: DriverView, sqes: Seq<Sqe>)
    requires
        v.valid(),
        v.backlog.len() + sqes.len() <= u32::MAX,
    ensures
        v.with_chain(sqes).valid(),
        v.with_chain(sqes).queued() == v.queued() + sqes,
        v.with_chain(sqes).backlog == v.backlog || v.with_chain(sqes).tail == v.tail,
        v.with_chain(sqes).backlog == v.backlog ==> v.with_chain(sqes).written() == v.written()
            + sqes.len() || sqes.len() == 0,
{
    lemma_all_written_keeps(v, sqes);
    if v.backlog.len() == 0 && v.room() >= sqes.len() {
        lemma_all_written_append(v, sqes);
    } else if sqes.len() > 0 {
        assert((v.backlog + sqes).len() != v.backlog.len());
    }
    assert(v.with_chain(sqes).queued() =~= v.queued() + sqes);
}

/// Moving the front of the backlog into the ring changes nothing about what is
/// queued.
proof fn lemma_drained(v: DriverView, n: nat)
    requires
        v.valid(),
        n <= v.backlog.len(),
        n <= v.room(),
    ensures
        v.with_drained(n).valid(),
        v.with_drained(n).queued() == v.queued(),
        v.with_drained(n).backlog == v.backlog.skip(n as int),
        v.with_drained(n).ops == v.ops,
        v.with_drained(n).ring == v.ring,
        v.with_drained(n).cq == v.cq,
        v.with_drained(n).sq == (SqView { sqes: v.with_drained(n).sq.sqes, ..v.sq }),
{
    let shorter = DriverView { backlog: v.backlog.skip(n as int), ..v };
    lemma_all_written_append(shorter, v.backlog.take(n as int));
    lemma_all_written_keeps(shorter, v.backlog.take(n as int));
    assert(v.with_drained(n).queued() =~= v.queued());
}

/// Draining the backlog neither reorders nor loses anything, and stops only when
/// the backlog is empty or its leading chain does not fit.
pub proof fn lemma_flush_keeps_the_queue(v: DriverView)
    requires
        v.valid(),
    ensures
        v.flushed().valid(),
        v.flushed().queued() == v.queued(),
        v.flushed().ops == v.ops,
        v.flushed().ring == v.ring,
        v.flushed().cq == v.cq,
        v.flushed().sq == (SqView { sqes: v.flushed().sq.sqes, ..v.sq }),
        v.flushed().backlog.len() <= v.backlog.len(),
        v.flushed().backlog == v.backlog.skip(v.backlog.len() - v.flushed().backlog.len()),
        v.flushed().backlog.len() == 0 || v.flushed().room() < run_len(v.flushed().backlog),
    decreases v.backlog.len(),
{
    let run = run_len(v.backlog);
    lemma_run_len(v.backlog, 0);
    if v.backlog.len() == 0 || v.room() < run {
        assert(v.backlog.skip(0) =~= v.backlog);
    } else {
        lemma_drained(v, run);
        let next = v.with_drained(run);
        lemma_flush_keeps_the_queue(next);
        assert(v.flushed().backlog =~= v.backlog.skip(
            v.backlog.len() - v.flushed().backlog.len(),
        ));
    }
}

/// Where a flush stops is never inside a chain: the entry before the backlog that
/// is left, if it came off the backlog, is not linked to it.
pub proof fn lemma_flush_never_splits_a_chain(v: DriverView)
    requires
        v.valid(),
    ensures
        ({
            let moved = v.backlog.len() - v.flushed().backlog.len();
            0 < moved < v.backlog.len() ==> !linked(v.backlog[moved - 1])
        }),
    decreases v.backlog.len(),
{
    let run = run_len(v.backlog);
    lemma_run_len(v.backlog, 0);
    if v.backlog.len() > 0 && v.room() >= run {
        lemma_drained(v, run);
        let next = v.with_drained(run);
        lemma_flush_never_splits_a_chain(next);
        lemma_flush_keeps_the_queue(next);
        let moved = next.backlog.len() - next.flushed().backlog.len();
        if moved > 0 {
            assert(next.backlog[moved - 1] == v.backlog[run + moved - 1]);
        } else {
            lemma_run_ends_unlinked(v.backlog);
        }
    }
}

/// A run that ends before the backlog does ends in an entry that is not linked.
proof fn lemma_run_ends_unlinked(backlog: Seq<Sqe>)
    ensures
        0 < run_len(backlog) < backlog.len() ==> !linked(backlog[run_len(backlog) - 1]),
    decreases backlog.len(),
{
    if backlog.len() > 0 && linked(backlog[0]) {
        let rest = backlog.skip(1);
        lemma_run_ends_unlinked(rest);
        lemma_run_len(rest, 0);
        if rest.len() > 0 && run_len(rest) < rest.len() {
            assert(rest[run_len(rest) - 1] == backlog[run_len(backlog) - 1]);
        }
    }
}

/// Nothing ends in the middle of a chain: neither what is in the ring nor the
/// backlog has a linked entry last.
pub open spec fn whole(v: DriverView) -> bool {
    &&& v.written() > 0 ==> !linked(v.sq.queued(v.tail).last())
    &&& v.backlog.len() > 0 ==> !linked(v.backlog.last())
}

/// Chains reach the kernel whole. Submitting an entry that is not linked, or a
/// chain, leaves nothing ending in the middle of one, and neither does a flush;
/// so what a turn publishes, which is all that is in the ring, never ends in a
/// link that the kernel would break.
pub proof fn lemma_chains_are_published_whole(v: DriverView, sqe: Sqe, chain: Seq<Sqe>)
    requires
        v.valid(),
        whole(v),
        v.backlog.len() + chain.len() < u32::MAX,
        !linked(sqe),
        is_chain(chain),
    ensures
        whole(v.with_pushed(sqe)),
        whole(v.with_chain(chain)),
        whole(v.flushed().published()),
        ({
            let w = v.flushed().published();
            w.sq.pending() > 0 ==> !linked(w.sq.queued(w.sq.tail).last())
        }),
{
    if v.backlog.len() == 0 && v.room() > 0 {
        lemma_written_appends(v, sqe);
    }
    lemma_all_written_keeps(v, chain);
    if v.backlog.len() == 0 && v.room() >= chain.len() {
        lemma_all_written_append(v, chain);
        if chain.len() > 0 {
            assert((v.sq.queued(v.tail) + chain).last() == chain.last());
        }
    } else if chain.len() > 0 {
        assert((v.backlog + chain).last() == chain.last());
    } else {
        assert(v.backlog + chain =~= v.backlog);
    }
    lemma_flush_is_whole(v);
    let f = v.flushed();
    assert(f.published().sq.queued(f.tail) =~= f.sq.queued(f.tail));
}

/// A flush leaves nothing ending in the middle of a chain.
proof fn lemma_flush_is_whole(v: DriverView)
    requires
        v.valid(),
        whole(v),
    ensures
        whole(v.flushed()),
    decreases v.backlog.len(),
{
    let run = run_len(v.backlog);
    lemma_run_len(v.backlog, 0);
    if v.backlog.len() > 0 && v.room() >= run {
        lemma_drained(v, run);
        lemma_run_ends_unlinked(v.backlog);
        let next = v.with_drained(run);
        let front = v.backlog.take(run as int);
        let shorter = DriverView { backlog: v.backlog.skip(run as int), ..v };
        lemma_all_written_append(shorter, front);
        assert((v.sq.queued(v.tail) + front).last() == front.last());
        assert(front.last() == v.backlog[run - 1]);
        if next.backlog.len() > 0 {
            assert(next.backlog.last() == v.backlog.last());
        }
        lemma_flush_is_whole(next);
    }
}

/// The kernel consuming some of what was published leaves nothing ending in the
/// middle of a chain.
pub proof fn lemma_consuming_keeps_chains_whole(v: DriverView, head: u32)
    requires
        v.valid(),
        whole(v),
        queue::ahead(head, v.sq.tail) <= v.sq.pending(),
    ensures
        whole(DriverView { sq: SqView { head, ..v.sq }, ..v }),
{
    let w = DriverView { sq: SqView { head, ..v.sq }, ..v };
    if w.written() > 0 {
        lemma_last_written(v);
        lemma_last_written(w);
    }
}

/// The last entry in the ring is the one before the tail.
proof fn lemma_last_written(v: DriverView)
    requires
        v.written() > 0,
    ensures
        v.sq.queued(v.tail).last() == v.sq.sqes[v.sq.slot(queue::after(v.tail, -1))],
{
    queue::lemma_after_ahead(v.sq.head, v.tail);
}

impl View for Driver {
    type V = DriverView;

    closed spec fn view(&self) -> DriverView {
        DriverView {
            ring: self.ring@,
            sq: self.ring.sq_ring()@,
            cq: self.ring.cq_ring()@,
            tail: self.sub.tail,
            backlog: self.sub.backlog@,
            ops: self.ledger@,
        }
    }
}

/// The entry with the token of operation `key`.
pub open spec fn stamped(sqe: Sqe, key: OpKey) -> Sqe {
    Sqe { user_data: ledger::packed(key), ..sqe }
}

/// The entry that asks for the operation with this token to be cancelled.
pub open spec fn cancel_sqe(target: u64) -> Sqe {
    Sqe { fd: -1i32, addr: target, ..sys::blank(sys::Opcode::AsyncCancel) }
}

/// The entry that asks for everything on a direct descriptor to be cancelled.
pub open spec fn cancel_slot_sqe(slot: u32) -> Sqe {
    Sqe {
        fd: slot as i32,
        op_flags: AsyncCancelFlags::FD | AsyncCancelFlags::FD_FIXED | AsyncCancelFlags::ALL,
        ..sys::blank(sys::Opcode::AsyncCancel)
    }
}

/// The table with a new entry for each of `keys`, in order.
pub open spec fn with_submitted(ops: Map<usize, Entry>, keys: Seq<OpKey>) -> Map<usize, Entry>
    decreases keys.len(),
{
    if keys.len() == 0 {
        ops
    } else {
        let key = keys.last();
        with_submitted(ops, keys.drop_last()).insert(
            key.index as usize,
            Entry { seq: key.seq, state: State::Submitted },
        )
    }
}

/// The table with an operation nobody waits for under each of `keys`, in order.
pub open spec fn with_discarded(ops: Map<usize, Entry>, keys: Seq<OpKey>) -> Map<usize, Entry>
    decreases keys.len(),
{
    if keys.len() == 0 {
        ops
    } else {
        let key = keys.last();
        with_discarded(ops, keys.drop_last()).insert(
            key.index as usize,
            Entry { seq: key.seq, state: State::Detached(Action::Discard) },
        )
    }
}

/// The entries that ask for `targets` to be cancelled, each with the token of its
/// own among `own`.
pub open spec fn cancel_sqes(targets: Seq<OpKey>, own: Seq<OpKey>) -> Seq<Sqe> {
    Seq::new(targets.len(), |i: int| stamped(cancel_sqe(ledger::packed(targets[i])), own[i]))
}

/// Shutting down leads from one state to the other: what is in the ledger is
/// abandoned, and `cancelled` are cancelled, each by an entry that is pushed in turn
/// and accounted for under its own among `own`, numbered from `seq`.
pub open spec fn shuts_down(
    v: DriverView,
    seq: u32,
    cancelled: Seq<OpKey>,
    own: Seq<OpKey>,
    w: DriverView,
) -> bool {
    let left = ledger::abandoned(v.ops);
    &&& ledger::attended(v.ops, cancelled)
    &&& own.len() == cancelled.len()
    &&& consecutive(left, seq, own)
    &&& w == DriverView {
        ops: with_discarded(left, own),
        ..v.with_all_pushed(cancel_sqes(cancelled, own))
    }
}

/// `keys` are new, distinct and numbered consecutively from `seq`.
pub open spec fn consecutive(ops: Map<usize, Entry>, seq: u32, keys: Seq<OpKey>) -> bool {
    &&& forall|i: int|
        0 <= i < keys.len() ==> !ops.contains_key((#[trigger] keys[i]).index as usize)
            && keys[i].seq == queue::after(seq, i)
    &&& forall|i: int, j: int|
        0 <= i < j < keys.len() ==> (#[trigger] keys[i]).index != (#[trigger] keys[j]).index
}

/// What one `io_uring_enter` is given. There is no argument.
#[derive(Clone, Copy, Debug, PartialEq, Eq, Structural)]
pub struct EnterCall {
    pub fd: u32,
    pub to_submit: u32,
    pub min_complete: u32,
    pub flags: EnterFlags,
}

/// What a turn has to do first.
#[derive(Clone, Copy, Debug, PartialEq, Eq, Structural)]
pub enum TurnStep {
    /// Nothing: entering the kernel could not tell us anything.
    Idle,
    /// Enter the kernel.
    Enter(EnterCall),
}

/// One round of a turn.
#[derive(Clone, Copy, Debug, PartialEq, Eq, Structural)]
pub struct Round {
    /// How many entries were on the backlog before it.
    pub backlog_before: usize,
    /// What it has to do.
    pub step: TurnStep,
}

/// What came of entering the kernel, as far as the turn is concerned.
pub open spec fn tolerated(entered: Result<u32, Errno>) -> Result<(), Errno> {
    match entered {
        Ok(_) => Ok(()),
        Err(e) => if e.0 == Errno::INTR || e.0 == Errno::AGAIN || e.0 == Errno::BUSY {
            Ok(())
        } else {
            Err(e)
        },
    }
}

/// Whether a turn goes on after entering the kernel.
///
/// Interrupted, nothing ready, or no room to post more completions: all three
/// want the same thing, which is to reap, and let whatever was not submitted wait
/// on the backlog.
pub fn entered(result: Result<u32, Errno>) -> (goes_on: Result<(), Errno>)
    ensures
        goes_on == tolerated(result),
        result is Ok ==> goes_on is Ok,
        result matches Err(e) ==> (goes_on is Ok <==> e.0 == 4 || e.0 == 11 || e.0 == 16),
        goes_on matches Err(e) ==> result == Err::<u32, Errno>(e),
{
    match result {
        Ok(_) => Ok(()),
        Err(e) => {
            if e.0 == Errno::INTR || e.0 == Errno::AGAIN || e.0 == Errno::BUSY {
                Ok(())
            } else {
                Err(e)
            }
        },
    }
}

impl Driver {
    /// The ring, the ledger and the queue of submissions are sound.
    pub closed spec fn wf(&self) -> bool {
        &&& self.ring.wf()
        &&& self.ledger.wf()
        &&& self@.valid()
    }

    /// The sequence number the next operation gets.
    pub closed spec fn next_seq(&self) -> u32 {
        self.ledger.next_seq()
    }

    /// The entry the next operation gets.
    pub closed spec fn vacant(&self) -> usize {
        self.ledger.vacant()
    }

    /// How many entries have ever been used at once.
    pub closed spec fn slots(&self) -> int {
        self.ledger.slots()
    }

    /// There is no room for one more operation.
    pub open spec fn full(&self) -> bool {
        self.vacant() > u32::MAX || ledger::owed(self@.ops).len() >= u32::MAX
            || self@.backlog.len() >= u32::MAX
    }

    /// What a driver holds is sound.
    pub proof fn lemma_valid(&self)
        requires
            self.wf(),
        ensures
            self@.valid(),
            self@.ops.dom().finite(),
            ledger::owed(self@.ops).finite(),
            ledger::owed(self@.ops).len() <= self.slots(),
    {
        self.ledger.lemma_finite();
        self.ledger.lemma_owed_bound();
    }

    /// A driver that has used fewer entries than there are keys, with room on its
    /// backlog, is not full.
    pub proof fn lemma_room(&self)
        requires
            self.wf(),
            self.slots() < u32::MAX,
            self@.backlog.len() < u32::MAX,
        ensures
            !self.full(),
    {
        self.ledger.lemma_room();
    }

    /// A driver for `ring`, which was set up with `sq_entries` entries.
    pub fn with_ring(ring: Ring, sq_entries: u32) -> (driver: Driver)
        requires
            ring.wf(),
            sq_entries <= isize::MAX / 64,
        ensures
            driver.wf(),
            driver@ == (DriverView {
                ring: ring@,
                sq: ring.sq_ring()@,
                cq: ring.cq_ring()@,
                tail: ring.sq_ring()@.tail,
                backlog: Seq::empty(),
                ops: Map::empty(),
            }),
            driver.next_seq() == 0,
            driver.vacant() == 0,
            driver.slots() == 0,
            !driver.full(),
    {
        let tail = ring.sq().tail();
        let driver = Driver {
            ring,
            sub: Submission { tail, backlog: VecDeque::with_capacity(sq_entries as usize) },
            ledger: Ledger::with_capacity(sq_entries as usize),
        };
        proof {
            assert(driver@.backlog =~= Seq::<Sqe>::empty());
            assert(ledger::owed(driver@.ops) =~= Set::<usize>::empty());
        }
        driver
    }

    /// The ring this driver turns.
    pub fn ring(&self) -> (ring: &Ring)
        ensures
            ring@ == self@.ring,
            ring.sq_ring()@ == self@.sq,
            ring.cq_ring()@ == self@.cq,
            self.wf() ==> ring.wf(),
    {
        &self.ring
    }

    /// Take in what the kernel has written to the ring.
    ///
    /// It consumes only what has been published, and posts no more completions
    /// than fit.
    pub fn sync(
        &mut self,
        sq_head: u32,
        sq_flags: u32,
        dropped: u32,
        cq_tail: u32,
        overflow: u32,
        cq_flags: u32,
        cqes: Vec<(u64, u64)>,
    )
        requires
            old(self).wf(),
            queue::ahead(sq_head, old(self)@.sq.tail) <= old(self)@.sq.pending(),
            queue::ahead(old(self)@.cq.head, cq_tail) <= old(self)@.cq.entries,
            cqes@.len() == old(self)@.cq.cqes.len(),
        ensures
            final(self).wf(),
            final(self)@ == (DriverView {
                sq: SqView { head: sq_head, flags: sq_flags, dropped, ..old(self)@.sq },
                cq: CqView {
                    tail: cq_tail,
                    overflow,
                    flags: if old(self)@.cq.flags is Some {
                        Some(cq_flags)
                    } else {
                        None
                    },
                    cqes: cqes@,
                    ..old(self)@.cq
                },
                ..old(self)@
            }),
            final(self)@.queued() == old(self)@.queued().skip(
                old(self)@.sq.pending() - queue::ahead(sq_head, old(self)@.sq.tail),
            ),
            final(self).next_seq() == old(self).next_seq(),
            final(self).vacant() == old(self).vacant(),
            final(self).slots() == old(self).slots(),
    {
        let ghost before = self@;
        let ghost n = before.sq.pending() - queue::ahead(sq_head, before.sq.tail);
        proof {
            let v = before;
            queue::lemma_after_ahead(v.sq.head, v.sq.tail);
            queue::lemma_after_ahead(sq_head, v.sq.tail);
            queue::lemma_after_ahead(v.sq.head, v.tail);
            sq::lemma_consuming_takes_the_front(v.sq, n, v.tail);
            assert(sq_head == queue::after(v.sq.head, n));
        }
        self.ring.sq_mut().sync(sq_head, sq_flags, dropped);
        self.ring.cq_mut().sync(cq_tail, overflow, cq_flags, cqes);
        proof {
            let moved = SqView { head: sq_head, ..before.sq };
            assert(self@.sq.queued(self@.tail) =~= moved.queued(before.tail));
            assert(self@.queued() =~= before.queued().skip(n));
        }
    }

    /// Completions the kernel still owes us.
    ///
    /// The predicate for whether blocking is safe, which is why it counts what
    /// the kernel owes rather than what the ledger holds: a result that has
    /// already arrived and is waiting to be collected will never be delivered a
    /// second time, so waiting on one would wait for ever.
    pub fn in_flight(&self) -> (owes: u32)
        requires
            self.wf(),
        ensures
            owes == ledger::owed(self@.ops).len(),
    {
        self.ledger.outstanding()
    }

    /// Whether entries are waiting for room in the submission ring.
    ///
    /// The executor checks this after every task it polls: the ring filling is
    /// the signal that we are producing faster than one turn per budget can
    /// drain, and the right response is to go turn the reactor now.
    pub fn backlog_pending(&self) -> (pending: bool)
        ensures
            pending == (self@.backlog.len() > 0),
    {
        self.sub.backlog.len() > 0
    }

    /// Whether there is no room for one more operation.
    pub fn is_full(&self) -> (full: bool)
        requires
            self.wf(),
        ensures
            full == self.full(),
            full == (self.vacant() > u32::MAX || ledger::owed(self@.ops).len() >= u32::MAX
                || self@.backlog.len() >= u32::MAX),
    {
        self.ledger.is_full() || self.sub.backlog.len() >= 0xffff_ffff
    }

    /// Whether there is certainly room for `count` more operations.
    pub fn has_room(&self, count: usize) -> (room: bool)
        requires
            self.wf(),
        ensures
            room == (self.slots() + count <= u32::MAX && self@.backlog.len() + count <= u32::MAX),
    {
        self.ledger.has_room(count) && count <= 0xffff_ffff && self.sub.backlog.len() <= 0xffff_ffff
            - count
    }

    /// Submit one operation and take a ledger entry for its result.
    pub fn submit(&mut self, sqe: Sqe) -> (key: OpKey)
        requires
            old(self).wf(),
            !old(self).full(),
        ensures
            final(self).wf(),
            key == (OpKey { index: old(self).vacant() as u32, seq: old(self).next_seq() }),
            !old(self)@.ops.contains_key(key.index as usize),
            final(self)@ == (DriverView {
                ops: old(self)@.ops.insert(
                    key.index as usize,
                    Entry { seq: key.seq, state: State::Submitted },
                ),
                ..old(self)@.with_pushed(stamped(sqe, key))
            }),
            final(self)@.queued() == old(self)@.queued().push(stamped(sqe, key)),
            ledger::owed(final(self)@.ops).len() == ledger::owed(old(self)@.ops).len() + 1,
            final(self).next_seq() == old(self).next_seq().wrapping_add(1),
            old(self).slots() <= final(self).slots() <= old(self).slots() + 1,
            final(self).slots() == old(self).slots() + 1 <==> old(self).vacant()
                == old(self).slots(),
            old(self).vacant() == old(self).slots() ==> final(self).vacant()
                == final(self).slots(),
    {
        let key = self.ledger.submit();
        self.push(Sqe { user_data: key.user_data(), ..sqe });
        key
    }

    /// Submit a chain of linked operations, which run in order and stop at the
    /// first failure.
    ///
    /// Every entry but the last must carry [`SqeFlags::IO_LINK`] or
    /// [`SqeFlags::IO_HARDLINK`]; the chain is only a chain because of those
    /// flags, and this keeps the whole run together on its way to the kernel.
    /// Each member gets its own ledger entry, and each posts exactly one
    /// completion — its own result, or `ECANCELED` once an earlier one failed.
    pub fn submit_chain(&mut self, sqes: &Vec<Sqe>) -> (keys: Vec<OpKey>)
        requires
            old(self).wf(),
            is_chain(sqes@),
            sqes@.len() <= old(self)@.sq.entries,
            old(self).slots() + sqes@.len() <= u32::MAX,
            old(self)@.backlog.len() + sqes@.len() <= u32::MAX,
        ensures
            final(self).wf(),
            keys@.len() == sqes@.len(),
            consecutive(old(self)@.ops, old(self).next_seq(), keys@),
            ({
                let chain = Seq::new(sqes@.len(), |i: int| stamped(sqes@[i], keys@[i]));
                &&& final(self)@ == (DriverView {
                    ops: with_submitted(old(self)@.ops, keys@),
                    ..old(self)@.with_chain(chain)
                })
                &&& final(self)@.queued() == old(self)@.queued() + chain
            }),
            ledger::owed(final(self)@.ops).len() == ledger::owed(old(self)@.ops).len()
                + sqes@.len(),
            final(self).next_seq() == queue::after(old(self).next_seq(), sqes@.len() as int),
            final(self).slots() <= old(self).slots() + sqes@.len(),
    {
        let ghost before = self@;
        let ghost seq = self.ledger.next_seq();
        let ghost slots = self.ledger.slots();
        let mut keys: Vec<OpKey> = Vec::new();
        let mut chain: Vec<Sqe> = Vec::new();
        while keys.len() < sqes.len()
            invariant
                keys@.len() <= sqes@.len(),
                chain@.len() == keys@.len(),
                self.ring.wf(),
                self.ledger.wf(),
                self@.valid(),
                slots <= self.ledger.slots() <= slots + keys@.len(),
                slots + sqes@.len() <= u32::MAX,
                self@ == (DriverView { ops: with_submitted(before.ops, keys@), ..before }),
                ledger::owed(self@.ops).len() == ledger::owed(before.ops).len() + keys@.len(),
                consecutive(before.ops, seq, keys@),
                forall|i: int|
                    0 <= i < keys@.len() ==> self@.ops.contains_key(
                        (#[trigger] keys@[i]).index as usize,
                    ),
                forall|k: usize| #[trigger] before.ops.contains_key(k) ==> self@.ops.contains_key(k),
                self.ledger.next_seq() == queue::after(seq, keys@.len() as int),
                forall|i: int|
                    0 <= i < keys@.len() ==> #[trigger] chain@[i] == stamped(sqes@[i], keys@[i]),
            decreases sqes@.len() - keys@.len(),
        {
            let ghost held = keys@;
            proof {
                self.ledger.lemma_room();
                queue::lemma_after_after(seq, keys@.len() as int, 1);
            }
            let key = self.ledger.submit();
            chain.push(Sqe { user_data: key.user_data(), ..sqes[keys.len()] });
            keys.push(key);
            proof {
                assert(keys@.drop_last() =~= held);
                assert(self@.ops =~= with_submitted(before.ops, keys@));
            }
        }
        self.push_chain(&chain);
        proof {
            let expected = Seq::new(sqes@.len(), |i: int| stamped(sqes@[i], keys@[i]));
            assert(chain@ =~= expected);
            let mid = DriverView { ops: with_submitted(before.ops, keys@), ..before };
            lemma_ops_are_immaterial(before, mid.ops, expected);
        }
        keys
    }

    /// Submit an operation nobody will wait for, with an action to run when it
    /// lands.
    pub fn submit_detached(&mut self, sqe: Sqe, action: Action) -> (key: OpKey)
        requires
            old(self).wf(),
            !old(self).full(),
        ensures
            final(self).wf(),
            key == (OpKey { index: old(self).vacant() as u32, seq: old(self).next_seq() }),
            !old(self)@.ops.contains_key(key.index as usize),
            final(self)@ == (DriverView {
                ops: old(self)@.ops.insert(
                    key.index as usize,
                    Entry { seq: key.seq, state: State::Detached(action) },
                ),
                ..old(self)@.with_pushed(stamped(sqe, key))
            }),
            final(self)@.queued() == old(self)@.queued().push(stamped(sqe, key)),
            ledger::owed(final(self)@.ops).len() == ledger::owed(old(self)@.ops).len() + 1,
            final(self).next_seq() == old(self).next_seq().wrapping_add(1),
            old(self).slots() <= final(self).slots() <= old(self).slots() + 1,
            final(self).slots() == old(self).slots() + 1 <==> old(self).vacant()
                == old(self).slots(),
            old(self).vacant() == old(self).slots() ==> final(self).vacant()
                == final(self).slots(),
    {
        let key = self.ledger.submit_detached(action);
        self.push(Sqe { user_data: key.user_data(), ..sqe });
        key
    }

    /// Ask the kernel to stop the operation `key` names.
    ///
    /// Best effort by nature: it may already have completed, in which case the
    /// cancel completes with `ENOENT` and the operation's own result stands.
    pub fn cancel(&mut self, key: OpKey)
        requires
            old(self).wf(),
            !old(self).full(),
        ensures
            final(self).wf(),
            ({
                let own = OpKey { index: old(self).vacant() as u32, seq: old(self).next_seq() };
                let sqe = stamped(cancel_sqe(ledger::packed(key)), own);
                &&& !old(self)@.ops.contains_key(own.index as usize)
                &&& final(self)@ == (DriverView {
                    ops: old(self)@.ops.insert(
                        own.index as usize,
                        Entry { seq: own.seq, state: State::Detached(Action::Discard) },
                    ),
                    ..old(self)@.with_pushed(sqe)
                })
                &&& final(self)@.queued() == old(self)@.queued().push(sqe)
            }),
            ledger::owed(final(self)@.ops).len() == ledger::owed(old(self)@.ops).len() + 1,
            final(self).next_seq() == old(self).next_seq().wrapping_add(1),
            old(self).slots() <= final(self).slots() <= old(self).slots() + 1,
            final(self).slots() == old(self).slots() + 1 <==> old(self).vacant()
                == old(self).slots(),
            old(self).vacant() == old(self).slots() ==> final(self).vacant()
                == final(self).slots(),
    {
        let sqe = AsyncCancel::new().target(key.user_data()).into_sqe();
        self.submit_detached(sqe, Action::Discard);
    }

    /// Stop every operation still in flight on `slot`, in one entry.
    pub fn cancel_slot(&mut self, slot: u32)
        requires
            old(self).wf(),
            !old(self).full(),
        ensures
            final(self).wf(),
            ({
                let own = OpKey { index: old(self).vacant() as u32, seq: old(self).next_seq() };
                let sqe = stamped(cancel_slot_sqe(slot), own);
                &&& !old(self)@.ops.contains_key(own.index as usize)
                &&& final(self)@ == (DriverView {
                    ops: old(self)@.ops.insert(
                        own.index as usize,
                        Entry { seq: own.seq, state: State::Detached(Action::Discard) },
                    ),
                    ..old(self)@.with_pushed(sqe)
                })
                &&& final(self)@.queued() == old(self)@.queued().push(sqe)
            }),
            ledger::owed(final(self)@.ops).len() == ledger::owed(old(self)@.ops).len() + 1,
            final(self).next_seq() == old(self).next_seq().wrapping_add(1),
            old(self).slots() <= final(self).slots() <= old(self).slots() + 1,
            final(self).slots() == old(self).slots() + 1 <==> old(self).vacant()
                == old(self).slots(),
            old(self).vacant() == old(self).slots() ==> final(self).vacant()
                == final(self).slots(),
    {
        let sqe = AsyncCancel::new().fd(slot as i32).flags(
            AsyncCancelFlags::from_bits_retain(
                AsyncCancelFlags::FD | AsyncCancelFlags::FD_FIXED | AsyncCancelFlags::ALL,
            ),
        ).into_sqe();
        self.submit_detached(sqe, Action::Discard);
    }

    /// Take an operation's result, or register `waker` to be told when it lands.
    pub fn poll_op(&mut self, key: OpKey, waker: &Waker) -> (polled: Poll<(i32, CqeFlags)>)
        requires
            old(self).wf(),
            ledger::is_live(old(self)@.ops, key),
        ensures
            final(self).wf(),
            match old(self)@.ops[key.index as usize].state {
                State::Completed(res, flags) => {
                    &&& polled == Poll::Ready((res, flags))
                    &&& final(self)@ == (DriverView {
                        ops: old(self)@.ops.remove(key.index as usize),
                        ..old(self)@
                    })
                },
                _ => {
                    &&& polled is Pending
                    &&& final(self)@ == (DriverView {
                        ops: old(self)@.ops.insert(
                            key.index as usize,
                            Entry { seq: key.seq, state: State::Waiting(*waker) },
                        ),
                        ..old(self)@
                    })
                },
            },
            final(self).next_seq() == old(self).next_seq(),
            final(self).slots() == old(self).slots(),
    {
        self.ledger.poll(key, waker)
    }

    /// Take an operation's result if it has already arrived.
    pub fn take_completed(&mut self, key: OpKey) -> (taken: Option<(i32, CqeFlags)>)
        requires
            old(self).wf(),
        ensures
            final(self).wf(),
            match taken {
                Some((res, flags)) => {
                    &&& ledger::is_live(old(self)@.ops, key)
                    &&& old(self)@.ops[key.index as usize].state == State::Completed(res, flags)
                    &&& final(self)@ == (DriverView {
                        ops: old(self)@.ops.remove(key.index as usize),
                        ..old(self)@
                    })
                },
                None => {
                    &&& ledger::is_live(old(self)@.ops, key) ==> ledger::in_kernel(
                        old(self)@.ops[key.index as usize],
                    )
                    &&& final(self)@ == old(self)@
                },
            },
            final(self).next_seq() == old(self).next_seq(),
            final(self).slots() == old(self).slots(),
    {
        self.ledger.take_completed(key)
    }

    /// Leave `action` for a running operation's completion to find.
    pub fn detach(&mut self, key: OpKey, action: Action)
        requires
            old(self).wf(),
            ledger::is_live(old(self)@.ops, key),
            ledger::is_attended(old(self)@.ops[key.index as usize]),
        ensures
            final(self).wf(),
            final(self)@ == (DriverView {
                ops: old(self)@.ops.insert(
                    key.index as usize,
                    Entry { seq: key.seq, state: State::Detached(action) },
                ),
                ..old(self)@
            }),
            final(self).next_seq() == old(self).next_seq(),
            final(self).vacant() == old(self).vacant(),
            final(self).slots() == old(self).slots(),
    {
        self.ledger.detach(key, action);
    }

    fn push(&mut self, sqe: Sqe)
        requires
            old(self).wf(),
            old(self)@.backlog.len() < u32::MAX,
        ensures
            final(self).wf(),
            final(self)@ == old(self)@.with_pushed(sqe),
            final(self)@.queued() == old(self)@.queued().push(sqe),
            final(self).ledger == old(self).ledger,
    {
        proof {
            lemma_push_is_last_in_line(self@, sqe);
        }
        self.write(sqe);
    }

    fn push_chain(&mut self, sqes: &Vec<Sqe>)
        requires
            old(self).wf(),
            sqes@.len() <= old(self)@.sq.entries,
            old(self)@.backlog.len() + sqes@.len() <= u32::MAX,
        ensures
            final(self).wf(),
            final(self)@ == old(self)@.with_chain(sqes@),
            final(self)@.queued() == old(self)@.queued() + sqes@,
            final(self).ledger == old(self).ledger,
    {
        let ghost before = self@;
        proof {
            lemma_a_chain_stays_together(before, sqes@);
        }
        let fits = self.sub.backlog.len() == 0 && self.space_left() as usize >= sqes.len();
        let mut at: usize = 0;
        proof {
            assert(sqes@.take(0) =~= Seq::<Sqe>::empty());
            assert(before.backlog + sqes@.take(0) =~= before.backlog);
        }
        while at < sqes.len()
            invariant
                at <= sqes@.len(),
                before.valid(),
                fits == (before.backlog.len() == 0 && before.room() >= sqes@.len()),
                self.ring.wf(),
                self.ledger == old(self).ledger,
                self.ledger.wf(),
                self@ == if fits {
                    before.with_all_written(sqes@.take(at as int))
                } else {
                    DriverView { backlog: before.backlog + sqes@.take(at as int), ..before }
                },
                before.backlog.len() + sqes@.len() <= u32::MAX,
            decreases sqes@.len() - at,
        {
            proof {
                let next = sqes@.take(at + 1);
                assert(next.drop_last() =~= sqes@.take(at as int));
                if fits {
                    lemma_all_written_append(before, sqes@.take(at as int));
                    lemma_all_written_keeps(before, sqes@.take(at as int));
                }
                assert((before.backlog + sqes@.take(at as int)).push(sqes@[at as int])
                    =~= before.backlog + next);
            }
            if fits {
                self.write(sqes[at]);
            } else {
                // As a block, so that the drain can recognise it as one.
                self.sub.backlog.push_back(sqes[at]);
            }
            at += 1;
        }
        proof {
            assert(sqes@.take(at as int) =~= sqes@);
        }
    }

    /// Write one entry, into the ring if it fits and onto the backlog if not.
    ///
    /// Once anything is on the backlog everything goes there, or later
    /// submissions would overtake the ones already waiting.
    fn write(&mut self, sqe: Sqe)
        requires
            old(self).wf(),
            old(self)@.backlog.len() < u32::MAX,
        ensures
            final(self).wf(),
            final(self)@ == old(self)@.with_pushed(sqe),
            final(self).ledger == old(self).ledger,
    {
        if self.sub.backlog.len() > 0 || self.space_left() == 0 {
            self.sub.backlog.push_back(sqe);
            return;
        }
        self.write_to_ring(sqe);
    }

    /// Write one entry into the ring, which has room for it.
    fn write_to_ring(&mut self, sqe: Sqe)
        requires
            old(self).wf(),
            old(self)@.room() > 0,
        ensures
            final(self).wf(),
            final(self)@ == old(self)@.with_written(sqe),
            final(self).ledger == old(self).ledger,
    {
        proof {
            lemma_written_appends(self@, sqe);
            queue::lemma_after_ahead(self@.sq.head, self@.sq.tail);
            queue::lemma_after_ahead(self@.sq.head, self@.tail);
        }
        *self.ring.sq_mut().sqe(self.sub.tail) = sqe;
        self.sub.tail = self.sub.tail.wrapping_add(1);
    }

    /// Room in the ring, measured against our unpublished tail rather than the
    /// ring's own, which lags by up to a turn.
    fn space_left(&self) -> (free: u32)
        requires
            self.wf(),
        ensures
            free == self@.room(),
    {
        let sq = self.ring.sq();
        sq.entries() - self.sub.tail.wrapping_sub(sq.head())
    }

    /// Move as much of the backlog into the ring as fits, a chain at a time.
    fn flush_backlog(&mut self)
        requires
            old(self).wf(),
        ensures
            final(self).wf(),
            final(self)@ == old(self)@.flushed(),
            final(self).ledger == old(self).ledger,
    {
        while self.sub.backlog.len() > 0
            invariant_except_break
                self.wf(),
                self.ledger == old(self).ledger,
                self@.flushed() == old(self)@.flushed(),
            ensures
                self.wf(),
                self.ledger == old(self).ledger,
                self@ == old(self)@.flushed(),
            decreases self@.backlog.len(),
        {
            let run = leading_chain_len(&self.sub.backlog);
            if self.space_left() < run {
                break;
            }
            let ghost before = self@;
            proof {
                lemma_run_len(before.backlog, 0);
                lemma_drained(before, run as nat);
                assert(before.backlog.take(0) =~= Seq::<Sqe>::empty());
                assert(before.backlog.skip(0) =~= before.backlog);
            }
            let mut moved: u32 = 0;
            while moved < run
                invariant
                    moved <= run <= before.backlog.len(),
                    run <= before.room(),
                    before.valid(),
                    self.wf(),
                    self.ledger == old(self).ledger,
                    self@ == before.with_drained(moved as nat),
                decreases run - moved,
            {
                proof {
                    let n = moved as nat;
                    lemma_drained(before, n);
                    let shorter = DriverView { backlog: before.backlog.skip(n as int), ..before };
                    lemma_all_written_append(shorter, before.backlog.take(n as int));
                    lemma_step(before, n);
                }
                match self.sub.backlog.pop_front() {
                    Some(sqe) => {
                        self.write_to_ring(sqe);
                    },
                    // The run was counted just above, so this is never reached.
                    None => {},
                }
                moved += 1;
            }
        }
    }

    /// Begin to submit what is queued and collect whatever has completed: drain the
    /// backlog into the ring, publish it, and say whether to enter the kernel and
    /// how.
    ///
    /// After entering, [`entered`] says whether the turn goes on; then what the
    /// kernel wrote is taken in with [`Driver::sync`], everything it posted is
    /// reaped, and [`Driver::turn_again`] says how to go on.
    ///
    /// With `wait`, entering blocks until at least one completion arrives; the
    /// caller must have checked that something is actually outstanding, or it will
    /// block forever. Without it, this is a flush.
    pub fn turn(&mut self, wait: bool) -> (round: Round)
        requires
            old(self).wf(),
        ensures
            final(self).wf(),
            final(self)@ == old(self)@.flushed().published(),
            final(self)@.queued() == old(self)@.queued(),
            final(self)@.ops == old(self)@.ops,
            round == old(self)@.round(wait),
            final(self).next_seq() == old(self).next_seq(),
            final(self).vacant() == old(self).vacant(),
            final(self).slots() == old(self).slots(),
    {
        let backlog_before = self.sub.backlog.len();
        proof {
            lemma_flush_keeps_the_queue(self@);
        }
        self.flush_backlog();
        let ghost flushed = self@;
        let tail = self.sub.tail;
        self.ring.sq_mut().set_tail(tail);
        let to_submit = tail.wrapping_sub(self.ring.sq().head());
        proof {
            assert(self@.sq.queued(self@.tail) =~= flushed.sq.queued(flushed.tail));
        }

        // Nothing queued, nobody to wait for, nothing outstanding: entering the
        // kernel could not tell us anything.
        if to_submit == 0 && !wait && self.in_flight() == 0 {
            return Round { backlog_before, step: TurnStep::Idle };
        }
        let call = EnterCall {
            fd: self.ring.enter_fd(),
            to_submit,
            min_complete: if wait {
                1
            } else {
                0
            },
            flags: self.ring.enter_flags().with(EnterFlags::GETEVENTS),
        };
        Round { backlog_before, step: TurnStep::Enter(call) }
    }

    /// Go on with a turn after one round of it, or end it.
    ///
    /// One task can fill the ring several times over in a single poll, so keep
    /// going while the backlog is actually shrinking. It stops shrinking when the
    /// kernel is not consuming, and then the answer is to reap rather than to push
    /// harder. Only the first round waits.
    ///
    /// Everything the round brought has been delivered by then.
    pub fn turn_again(&mut self, round: Round) -> (next: Option<Round>)
        requires
            old(self).wf(),
            old(self)@.cq.waiting().len() == 0,
        ensures
            final(self).wf(),
            (next is Some) == (0 < old(self)@.backlog.len() < round.backlog_before),
            match next {
                Some(next) => {
                    &&& final(self)@ == old(self)@.flushed().published()
                    &&& next == old(self)@.round(false)
                },
                None => final(self)@ == old(self)@,
            },
            final(self)@.queued() == old(self)@.queued(),
            final(self)@.ops == old(self)@.ops,
            final(self).next_seq() == old(self).next_seq(),
            final(self).vacant() == old(self).vacant(),
            final(self).slots() == old(self).slots(),
    {
        let backlog_after = self.sub.backlog.len();
        if backlog_after == 0 || backlog_after >= round.backlog_before {
            return None;
        }
        Some(self.turn(false))
    }

    /// How many entries are waiting for room in the submission ring.
    pub fn backlog_len(&self) -> (len: usize)
        ensures
            len == self@.backlog.len(),
    {
        self.sub.backlog.len()
    }

    /// Begin to deliver every completion the ring is holding.
    pub fn reap(&self) -> (batch: Completions)
        requires
            self.wf(),
            self@.cq.is_well_posted(),
        ensures
            batch.wf(self@.cq),
            batch.taken() == 0,
            batch.rest(self@.cq) == self@.cq.waiting(),
    {
        self.ring.cq().completions()
    }

    /// Record the next completion of a batch, and say what to do about it: wake
    /// somebody, run an action, or nothing. `None` once the batch is through.
    ///
    /// Waking a task and running a detached action may both submit more, which
    /// does not disturb the batch.
    pub fn reap_next(&mut self, batch: &mut Completions) -> (todo: Option<Outcome>)
        requires
            old(self).wf(),
            old(batch).wf(old(self)@.cq),
        ensures
            final(self).wf(),
            final(batch).wf(final(self)@.cq),
            match todo {
                Some(outcome) => {
                    let rest = old(batch).rest(old(self)@.cq);
                    let cqe = rest[0].0;
                    &&& rest.len() > 0
                    &&& final(batch).rest(final(self)@.cq) == rest.skip(1)
                    &&& final(batch).taken() == old(self)@.cq.taken_next(old(batch).taken())
                    &&& outcome == ledger::outcome(
                        old(self)@.ops,
                        cqe.user_data,
                        cqe.res,
                        cqe.flags,
                    )
                    &&& final(self)@ == (DriverView {
                        ops: ledger::landed(old(self)@.ops, cqe.user_data, cqe.res, cqe.flags),
                        ..old(self)@
                    })
                },
                None => {
                    &&& old(batch).rest(old(self)@.cq).len() == 0
                    &&& final(batch).taken() == old(self)@.cq.ready()
                    &&& final(self)@ == old(self)@
                },
            },
            final(self).next_seq() == old(self).next_seq(),
            final(self).slots() == old(self).slots(),
    {
        match batch.next(self.ring.cq()) {
            None => None,
            Some(completion) => {
                let res = completion.raw().res;
                let flags = completion.flags();
                proof {
                    let rest = old(batch).rest(self@.cq);
                    assert(rest[0] == completion@);
                    assert(rest.skip(1) =~= batch.rest(self@.cq));
                }
                Some(self.ledger.complete(completion.user_data(), res, flags))
            },
        }
    }

    /// Release what has been reaped back to the kernel.
    pub fn reap_done(&mut self, batch: Completions)
        requires
            old(self).wf(),
            batch.wf(old(self)@.cq),
        ensures
            final(self).wf(),
            final(self)@ == (DriverView {
                cq: CqView {
                    head: queue::after(old(self)@.cq.head, batch.taken()),
                    ..old(self)@.cq
                },
                ..old(self)@
            }),
            final(self)@.cq.waiting() == batch.rest(old(self)@.cq),
            final(self)@.cq.ready() == old(self)@.cq.ready() - batch.taken(),
            final(self).next_seq() == old(self).next_seq(),
            final(self).vacant() == old(self).vacant(),
            final(self).slots() == old(self).slots(),
    {
        batch.finish(self.ring.cq_mut());
    }

    /// Whether there is certainly room to cancel everything that is outstanding.
    pub fn can_shut_down(&self) -> (room: bool)
        requires
            self.wf(),
        ensures
            room == (self.slots() + ledger::owed(self@.ops).len() <= u32::MAX
                && self@.backlog.len() + ledger::owed(self@.ops).len() <= u32::MAX),
    {
        let count = self.in_flight() as usize;
        self.has_room(count)
    }

    /// Cancel everything, on the way to waiting for the kernel to give it all
    /// back.
    ///
    /// Buffers handed to the kernel are owned by detached ledger entries, so they
    /// live exactly as long as the operations pointing at them — but only if the
    /// caller goes on turning until nothing is in flight. Stopping early would
    /// drop the ring, and its mappings, with the kernel still writing into them.
    pub fn shutdown(&mut self) -> (cancelled: Vec<OpKey>)
        requires
            old(self).wf(),
            old(self).slots() + ledger::owed(old(self)@.ops).len() <= u32::MAX,
            old(self)@.backlog.len() + ledger::owed(old(self)@.ops).len() <= u32::MAX,
        ensures
            final(self).wf(),
            ledger::attended(old(self)@.ops, cancelled@),
            exists|own: Seq<OpKey>|
                {
                    &&& #[trigger] shuts_down(
                        old(self)@,
                        old(self).next_seq(),
                        cancelled@,
                        own,
                        final(self)@,
                    )
                    &&& final(self)@.queued() == old(self)@.queued() + cancel_sqes(cancelled@, own)
                },
            ledger::owed(final(self)@.ops).len() == ledger::owed(old(self)@.ops).len()
                + cancelled@.len(),
            final(self).next_seq() == queue::after(
                old(self).next_seq(),
                cancelled@.len() as int,
            ),
            final(self).slots() <= old(self).slots() + cancelled@.len(),
    {
        let ghost before = self@;
        let ghost slots = self.ledger.slots();
        let ghost owes = ledger::owed(before.ops).len();
        proof {
            self.ledger.lemma_finite();
        }
        let keys = self.ledger.abandon_all();
        let ghost left = self@.ops;
        let ghost seq = self.ledger.next_seq();
        let ghost mut own = Seq::<OpKey>::empty();
        proof {
            lemma_attended_bound(before.ops, keys@);
            assert(cancel_sqes(keys@.take(0), own) =~= Seq::<Sqe>::empty());
            assert(before.queued() + Seq::<Sqe>::empty() =~= before.queued());
        }
        let mut at: usize = 0;
        while at < keys.len()
            invariant
                self.wf(),
                at <= keys@.len() <= owes,
                slots + owes <= u32::MAX,
                before.backlog.len() + owes <= u32::MAX,
                self.ledger.slots() <= slots + at,
                self@.backlog.len() <= before.backlog.len() + at,
                own.len() == at,
                consecutive(left, seq, own),
                forall|i: int|
                    0 <= i < own.len() ==> self@.ops.contains_key(
                        (#[trigger] own[i]).index as usize,
                    ),
                forall|k: usize| #[trigger] left.contains_key(k) ==> self@.ops.contains_key(k),
                self@ == (DriverView {
                    ops: with_discarded(left, own),
                    ..before.with_all_pushed(cancel_sqes(keys@.take(at as int), own))
                }),
                self@.queued() == before.queued() + cancel_sqes(keys@.take(at as int), own),
                ledger::owed(self@.ops).len() == owes + at,
                self.ledger.next_seq() == queue::after(seq, at as int),
            decreases keys@.len() - at,
        {
            let ghost v = self@;
            let ghost key = OpKey { index: self.vacant() as u32, seq: self.next_seq() };
            let ghost pushed = cancel_sqes(keys@.take(at as int), own);
            proof {
                self.ledger.lemma_room();
                queue::lemma_after_after(seq, at as int, 1);
            }
            self.cancel(keys[at]);
            proof {
                let sqe = stamped(cancel_sqe(ledger::packed(keys@[at as int])), key);
                let longer = cancel_sqes(keys@.take(at + 1), own.push(key));
                assert(longer =~= pushed.push(sqe));
                assert(longer.drop_last() =~= pushed);
                assert(own.push(key).drop_last() =~= own);
                assert(before.queued() + longer =~= (before.queued() + pushed).push(sqe));
                own = own.push(key);
            }
            at += 1;
        }
        proof {
            assert(keys@.take(keys@.len() as int) =~= keys@);
            assert(shuts_down(old(self)@, old(self).next_seq(), keys@, own, self@));
            assert(self@.queued() == old(self)@.queued() + cancel_sqes(keys@, own));
        }
        keys
    }

    /// Go on waiting for the kernel to give everything back, after a turn that ended
    /// in `turned`, or stop: once nothing is in flight, or the kernel can no longer
    /// be entered.
    ///
    /// Begin with `Ok`, right after [`Driver::shutdown`]. Each round waits.
    pub fn shutdown_next(&mut self, turned: Result<(), Errno>) -> (next: Option<Round>)
        requires
            old(self).wf(),
        ensures
            final(self).wf(),
            (next is Some) == (turned is Ok && ledger::owed(old(self)@.ops).len() > 0),
            match next {
                Some(next) => {
                    &&& final(self)@ == old(self)@.flushed().published()
                    &&& next == old(self)@.round(true)
                },
                None => final(self)@ == old(self)@,
            },
            final(self)@.queued() == old(self)@.queued(),
            final(self)@.ops == old(self)@.ops,
            final(self).next_seq() == old(self).next_seq(),
            final(self).vacant() == old(self).vacant(),
            final(self).slots() == old(self).slots(),
    {
        if turned.is_err() || self.in_flight() == 0 {
            return None;
        }
        Some(self.turn(true))
    }
}

/// What a table holds once operations nobody waits for have been added under keys
/// that were vacant.
pub proof fn lemma_discarded(ops: Map<usize, Entry>, seq: u32, keys: Seq<OpKey>)
    requires
        consecutive(ops, seq, keys),
    ensures
        forall|k: usize| #[trigger]
            ops.contains_key(k) ==> with_discarded(ops, keys).contains_key(k) && with_discarded(
                ops,
                keys,
            )[k] == ops[k],
        forall|i: int|
            0 <= i < keys.len() ==> with_discarded(ops, keys).contains_key(
                (#[trigger] keys[i]).index as usize,
            ) && with_discarded(ops, keys)[keys[i].index as usize] == (Entry {
                seq: keys[i].seq,
                state: State::Detached(Action::Discard),
            }),
        forall|k: usize| #[trigger]
            with_discarded(ops, keys).contains_key(k) ==> ops.contains_key(k) || exists|i: int|
                0 <= i < keys.len() && (#[trigger] keys[i]).index == k,
    decreases keys.len(),
{
    if keys.len() > 0 {
        let fewer = keys.drop_last();
        let n = keys.len() - 1;
        assert forall|i: int| 0 <= i < n implies fewer[i] == #[trigger] keys[i] by {}
        assert(consecutive(ops, seq, fewer)) by {
            assert forall|i: int| 0 <= i < fewer.len() implies !ops.contains_key(
                (#[trigger] fewer[i]).index as usize,
            ) && fewer[i].seq == queue::after(seq, i) by {
                assert(fewer[i] == keys[i]);
            }
            assert forall|i: int, j: int| 0 <= i < j < fewer.len() implies (
            #[trigger] fewer[i]).index != (#[trigger] fewer[j]).index by {
                assert(fewer[i] == keys[i] && fewer[j] == keys[j]);
            }
        }
        lemma_discarded(ops, seq, fewer);
        assert(keys[n] == keys.last());
        assert forall|i: int| 0 <= i < keys.len() implies with_discarded(ops, keys).contains_key(
            (#[trigger] keys[i]).index as usize,
        ) && with_discarded(ops, keys)[keys[i].index as usize] == (Entry {
            seq: keys[i].seq,
            state: State::Detached(Action::Discard),
        }) by {
            if i < n {
                assert(fewer[i] == keys[i]);
                assert(keys[i].index != keys[n].index);
            }
        }
        assert forall|k: usize| #[trigger]
            with_discarded(ops, keys).contains_key(k) implies ops.contains_key(k) || exists|i: int|
            0 <= i < keys.len() && (#[trigger] keys[i]).index == k by {
            if k == keys[n].index {
            } else if !ops.contains_key(k) {
                assert(with_discarded(ops, fewer).contains_key(k));
                let i = choose|i: int| 0 <= i < fewer.len() && (#[trigger] fewer[i]).index == k;
                assert(keys[i].index == k);
            }
        }
    }
}

/// Everything that is owed after shutting down is given back by a completion of its
/// own. Each cancel carries the token of the entry it was given, and its completion
/// frees that entry and nothing else, with nothing to be done about it: the operation
/// it cancels is still there, until its own completion.
pub proof fn lemma_a_shutdown_is_given_back(
    v: DriverView,
    seq: u32,
    cancelled: Seq<OpKey>,
    own: Seq<OpKey>,
    w: DriverView,
    i: int,
    res: i32,
    flags: CqeFlags,
)
    requires
        shuts_down(v, seq, cancelled, own, w),
        0 <= i < own.len(),
    ensures
        cancel_sqes(cancelled, own)[i].user_data == ledger::packed(own[i]),
        cancel_sqes(cancelled, own)[i].addr == ledger::packed(cancelled[i]),
        ledger::is_live(w.ops, own[i]),
        ledger::outcome(w.ops, ledger::packed(own[i]), res, flags) == Outcome::Detached(
            Action::Discard,
            res,
            flags,
        ),
        ledger::landed(w.ops, ledger::packed(own[i]), res, flags) == w.ops.remove(
            own[i].index as usize,
        ),
        ledger::is_live(
            ledger::landed(w.ops, ledger::packed(own[i]), res, flags),
            cancelled[i],
        ),
        ledger::landed(w.ops, ledger::packed(cancelled[i]), res, flags) == w.ops.remove(
            cancelled[i].index as usize,
        ),
{
    let left = ledger::abandoned(v.ops);
    lemma_discarded(left, seq, own);
    ledger::lemma_key_round_trips(own[i], 0);
    ledger::lemma_key_round_trips(cancelled[i], 0);
    assert(ledger::is_live(v.ops, cancelled[i]));
    assert(left.contains_key(cancelled[i].index as usize));
}

/// Nothing is in the ledger after shutting down but what was in the kernel before and
/// the cancels, and nobody waits for any of it. Nothing that was in the kernel is
/// forgotten.
pub proof fn lemma_a_shutdown_forgets_nothing(
    v: DriverView,
    seq: u32,
    cancelled: Seq<OpKey>,
    own: Seq<OpKey>,
    w: DriverView,
)
    requires
        shuts_down(v, seq, cancelled, own, w),
    ensures
        forall|k: usize| #[trigger]
            w.ops.contains_key(k) ==> w.ops[k].state is Detached && (ledger::owed(v.ops).contains(k)
                || exists|j: int| 0 <= j < own.len() && (#[trigger] own[j]).index == k),
        forall|k: usize| #[trigger] ledger::owed(v.ops).contains(k) ==> w.ops.contains_key(k),
{
    let left = ledger::abandoned(v.ops);
    lemma_discarded(left, seq, own);
    assert forall|k: usize| #[trigger] w.ops.contains_key(k) implies w.ops[k].state is Detached && (
    ledger::owed(v.ops).contains(k) || exists|j: int|
        0 <= j < own.len() && (#[trigger] own[j]).index == k) by {
        if left.contains_key(k) {
            ledger::lemma_abandoning_keeps_actions(v.ops, k);
        } else {
            let j = choose|j: int| 0 <= j < own.len() && (#[trigger] own[j]).index == k;
            assert(w.ops[own[j].index as usize].state is Detached);
        }
    }
    assert forall|k: usize| #[trigger] ledger::owed(v.ops).contains(k) implies w.ops.contains_key(
        k,
    ) by {
        assert(left.contains_key(k));
    }
}

/// Only operations in the kernel are attended, so no more keys come back than are
/// owed.
proof fn lemma_attended_bound(ops: Map<usize, Entry>, keys: Seq<OpKey>)
    requires
        ledger::attended(ops, keys),
        ledger::owed(ops).finite(),
    ensures
        keys.len() <= ledger::owed(ops).len(),
{
    let named = Seq::new(keys.len(), |i: int| keys[i].index as usize);
    assert forall|i: int, j: int| 0 <= i < j < named.len() implies named[i] != named[j] by {
        assert(keys[i].index < keys[j].index);
    }
    named.unique_seq_to_set();
    assert(named.to_set().subset_of(ledger::owed(ops))) by {
        assert forall|k: usize| #[trigger] named.to_set().contains(k) implies ledger::owed(
            ops,
        ).contains(k) by {
            let i = choose|i: int| 0 <= i < named.len() && named[i] == k;
            assert(ledger::is_live(ops, keys[i]));
        }
    }
    vstd::set_lib::lemma_len_subset(named.to_set(), ledger::owed(ops));
}

/// Draining one entry more is draining what came before and then writing that
/// entry.
proof fn lemma_step(v: DriverView, n: nat)
    requires
        n < v.backlog.len(),
    ensures
        ({
            let d = v.with_drained(n);
            let shorter = DriverView { backlog: d.backlog.skip(1), ..d };
            &&& d.backlog == v.backlog.skip(n as int)
            &&& d.backlog[0] == v.backlog[n as int]
            &&& v.with_drained(n + 1) == shorter.with_written(v.backlog[n as int])
        }),
{
    let m = n as int;
    let a = DriverView { backlog: v.backlog.skip(m), ..v };
    let b = DriverView { backlog: v.backlog.skip(m + 1), ..v };
    lemma_all_written_keeps(a, v.backlog.take(m));
    lemma_backlog_is_immaterial(a, b.backlog, v.backlog.take(m));
    assert(v.backlog.take(m + 1).drop_last() =~= v.backlog.take(m));
    assert(v.backlog.skip(m).skip(1) =~= v.backlog.skip(m + 1));
}

/// What writing does to the ring does not depend on the backlog.
proof fn lemma_backlog_is_immaterial(v: DriverView, backlog: Seq<Sqe>, sqes: Seq<Sqe>)
    ensures
        (DriverView { backlog, ..v }).with_all_written(sqes) == (DriverView {
            backlog,
            ..v.with_all_written(sqes)
        }),
    decreases sqes.len(),
{
    if sqes.len() > 0 {
        lemma_backlog_is_immaterial(v, backlog, sqes.drop_last());
    }
}

/// What a chain does to the queue does not depend on the table of operations.
proof fn lemma_ops_are_immaterial(v: DriverView, ops: Map<usize, Entry>, sqes: Seq<Sqe>)
    ensures
        (DriverView { ops, ..v }).with_all_written(sqes) == (DriverView {
            ops,
            ..v.with_all_written(sqes)
        }),
        (DriverView { ops, ..v }).with_chain(sqes) == (DriverView { ops, ..v.with_chain(sqes) }),
    decreases sqes.len(),
{
    if sqes.len() > 0 {
        lemma_ops_are_immaterial(v, ops, sqes.drop_last());
    }
}

/// An entry goes on to the next where bit 2 or bit 3 of its flags is set, and not
/// otherwise.
pub proof fn lemma_what_links(sqe: Sqe)
    ensures
        linked(sqe) <==> sqe.flags.bits / 4 % 2 == 1 || sqe.flags.bits / 8 % 2 == 1,
{
    let bits = sqe.flags.bits;
    assert((bits & ((1u8 << 2) | (1u8 << 3)) != 0) == (bits / 4 % 2 == 1 || bits / 8 % 2 == 1))
        by (bit_vector);
}

/// What goes out together is one chain and no more: every entry of the run but the
/// last goes on to the next, and the last does not, unless it is the last there is.
pub proof fn lemma_a_run_is_one_chain(backlog: Seq<Sqe>, i: int)
    ensures
        backlog.len() == 0 <==> run_len(backlog) == 0,
        run_len(backlog) <= backlog.len(),
        0 <= i < run_len(backlog) - 1 ==> linked(backlog[i]),
        0 < run_len(backlog) < backlog.len() ==> !linked(backlog[run_len(backlog) - 1]),
    decreases backlog.len(),
{
    lemma_run_ends_unlinked(backlog);
    if backlog.len() > 0 && linked(backlog[0]) {
        let rest = backlog.skip(1);
        lemma_a_run_is_one_chain(rest, i - 1);
        if i > 0 && i < run_len(backlog) - 1 {
            assert(rest[i - 1] == backlog[i]);
        }
    }
}

/// A chain is linked on every entry but the last.
pub proof fn lemma_what_a_chain_is(sqes: Seq<Sqe>)
    ensures
        is_chain(sqes) <==> sqes.len() > 0 && run_len(sqes) == sqes.len() && !linked(sqes.last()),
    decreases sqes.len(),
{
    if sqes.len() > 1 && linked(sqes[0]) {
        let rest = sqes.skip(1);
        lemma_what_a_chain_is(rest);
        assert(rest.last() == sqes.last());
        if is_chain(sqes) {
            assert forall|i: int| 0 <= i < rest.len() - 1 implies linked(#[trigger] rest[i]) by {
                assert(rest[i] == sqes[i + 1]);
            }
        }
        if is_chain(rest) {
            assert forall|i: int| 0 <= i < sqes.len() - 1 implies linked(#[trigger] sqes[i]) by {
                if i > 0 {
                    assert(sqes[i] == rest[i - 1]);
                }
            }
        }
    }
    if sqes.len() > 1 && is_chain(sqes) {
        assert(linked(sqes[0]));
    }
}

/// Where an entry is put: in the ring if there is room and nothing waits, so that the
/// next turn submits it, and on the backlog if not. Nothing else changes.
pub proof fn lemma_where_an_entry_goes(v: DriverView, sqe: Sqe)
    requires
        v.valid(),
        v.backlog.len() < u32::MAX,
    ensures
        ({
            let w = v.with_pushed(sqe);
            &&& w.ops == v.ops && w.ring == v.ring && w.cq == v.cq
            &&& w.sq == (SqView { sqes: w.sq.sqes, ..v.sq })
            &&& v.backlog.len() == 0 && v.written() < v.sq.entries ==> {
                &&& w.backlog.len() == 0
                &&& w.tail == v.tail.wrapping_add(1)
                &&& w.sq.queued(w.tail) == v.sq.queued(v.tail).push(sqe)
            }
            &&& v.backlog.len() > 0 || v.written() == v.sq.entries ==> {
                &&& w.backlog == v.backlog.push(sqe)
                &&& w.tail == v.tail
                &&& w.sq == v.sq
            }
        }),
{
    if v.backlog.len() == 0 && v.written() < v.sq.entries {
        lemma_written_appends(v, sqe);
        queue::lemma_counting_goes_up(v.tail, v.tail);
    }
}

/// Where a chain is put: in the ring if nothing waits and there is room for all of it,
/// and on the backlog, all of it, if not. Nothing else changes.
pub proof fn lemma_where_a_chain_goes(v: DriverView, sqes: Seq<Sqe>)
    requires
        v.valid(),
    ensures
        ({
            let w = v.with_chain(sqes);
            let fits = v.backlog.len() == 0 && v.written() + sqes.len() <= v.sq.entries;
            &&& w.ops == v.ops && w.ring == v.ring && w.cq == v.cq
            &&& w.sq == (SqView { sqes: w.sq.sqes, ..v.sq })
            &&& fits ==> w.backlog.len() == 0 && w.sq.queued(w.tail) == v.sq.queued(v.tail) + sqes
            &&& !fits ==> w.backlog == v.backlog + sqes && w.tail == v.tail && w.sq == v.sq
        }),
{
    lemma_all_written_keeps(v, sqes);
    if v.backlog.len() == 0 && v.written() + sqes.len() <= v.sq.entries {
        lemma_all_written_append(v, sqes);
    }
}

/// Room is what the ring holds less what the kernel has yet to consume of it, and what
/// the kernel will consume is what is in the ring and then what waits, in order.
pub proof fn lemma_room_and_queue(v: DriverView)
    requires
        v.valid(),
    ensures
        v.written() == v.sq.queued(v.tail).len(),
        v.room() + v.written() == v.sq.entries,
        v.queued().len() == v.written() + v.backlog.len(),
        v.queued().take(v.written()) == v.sq.queued(v.tail),
        v.queued().skip(v.written()) == v.backlog,
{
    assert(v.queued().take(v.written()) =~= v.sq.queued(v.tail));
    assert(v.queued().skip(v.written()) =~= v.backlog);
}

/// A turn takes as many chains off the backlog as fit: while there is room for the
/// chain in front it goes, and where nothing is left waiting all of it went.
pub proof fn lemma_a_turn_takes_what_fits(v: DriverView)
    requires
        v.valid(),
    ensures
        v.backlog.len() > 0 && v.room() >= run_len(v.backlog) ==> v.flushed().backlog.len()
            < v.backlog.len(),
        v.written() + v.backlog.len() <= v.sq.entries ==> v.flushed().backlog.len() == 0,
        v.flushed().written() + v.flushed().backlog.len() == v.written() + v.backlog.len(),
        v.flushed().published().sq.tail == v.flushed().tail,
        v.flushed().published().sq.pending() == v.flushed().written(),
        v.flushed().published().sq == (SqView {
            tail: v.flushed().tail,
            sqes: v.flushed().sq.sqes,
            ..v.sq
        }),
        v.flushed().published().backlog == v.flushed().backlog,
{
    lemma_flush_keeps_the_queue(v);
    lemma_room_and_queue(v);
    lemma_room_and_queue(v.flushed());
    lemma_a_run_is_one_chain(v.flushed().backlog, 0);
    if v.backlog.len() > 0 && v.room() >= run_len(v.backlog) {
        lemma_a_run_is_one_chain(v.backlog, 0);
        lemma_drained(v, run_len(v.backlog));
        lemma_flush_keeps_the_queue(v.with_drained(run_len(v.backlog)));
        lemma_all_written_keeps(
            DriverView { backlog: v.backlog.skip(run_len(v.backlog) as int), ..v },
            v.backlog.take(run_len(v.backlog) as int),
        );
    }
}

/// What a round asks of the kernel: to submit everything that is in the ring once the
/// backlog has been flushed, and to wait for a completion only if it is to wait. The
/// kernel is always asked for what has completed, and addressed as the ring is. Only
/// where there is nothing to submit, nobody waits and nothing is owed is it left
/// alone.
pub proof fn lemma_what_a_round_asks(v: DriverView, wait: bool)
    requires
        v.valid(),
    ensures
        ({
            let round = v.round(wait);
            let ready = v.flushed().sq.queued(v.flushed().tail);
            &&& round.backlog_before == v.backlog.len()
            &&& round.step is Idle <==> ready.len() == 0 && !wait && ledger::owed(v.ops).len() == 0
            &&& round.step matches TurnStep::Enter(call) ==> {
                &&& call.fd == v.ring.enter_fd
                &&& call.to_submit == ready.len()
                &&& call.min_complete == if wait {
                    1u32
                } else {
                    0
                }
                &&& call.flags.bits % 2 == 1
                &&& call.flags.bits / 2 == v.ring.enter_flags / 2
            }
        }),
{
    lemma_flush_keeps_the_queue(v);
    lemma_room_and_queue(v.flushed());
    queue::lemma_entries_bound(v.sq.entries, v.sq.mask);
    let flags = v.ring.enter_flags;
    assert((flags | (1u32 << 0)) % 2 == 1 && (flags | (1u32 << 0)) / 2 == flags / 2)
        by (bit_vector);
}

/// A turn goes on where the kernel took the entries, or was interrupted, or has
/// nothing ready, or no room; it ends with every other error, as it is.
pub proof fn lemma_what_ends_a_turn(entered: Result<u32, Errno>)
    ensures
        match entered {
            Ok(_) => tolerated(entered) == Ok::<(), Errno>(()),
            Err(Errno(4)) => tolerated(entered) == Ok::<(), Errno>(()),
            Err(Errno(11)) => tolerated(entered) == Ok::<(), Errno>(()),
            Err(Errno(16)) => tolerated(entered) == Ok::<(), Errno>(()),
            Err(errno) => tolerated(entered) == Err::<(), Errno>(errno),
        },
{
}

/// An entry goes out as it was made but for the token, which is that of its own
/// operation.
pub proof fn lemma_a_stamp_is_the_token(sqe: Sqe, key: OpKey)
    ensures
        stamped(sqe, key).user_data % 0x1_0000_0000 == key.index,
        stamped(sqe, key).user_data / 0x1_0000_0000 == key.seq,
        (Sqe { user_data: sqe.user_data, ..stamped(sqe, key) }) == sqe,
{
    ledger::lemma_a_token_is_index_and_sequence(key, key);
}

/// A cancel names what it cancels, by its token or by its slot, and says nothing else:
/// the words the kernel reads are the number of the operation with no descriptor, and
/// the token; or with the slot for a descriptor, and the flags that make it one and
/// ask for all of them.
pub proof fn lemma_what_a_cancel_says(target: u64, slot: u32)
    ensures
        sys::sqe_words(cancel_sqe(target)) == seq![
            14 + 0xffff_ffff_0000_0000u64 as int,
            0,
            target as int,
            0,
            0,
            0,
            0,
            0,
        ].map_values(|n: int| n as u64),
        sys::sqe_words(cancel_slot_sqe(slot)) == seq![
            14 + slot * 0x1_0000_0000,
            0,
            0,
            11int * 0x1_0000_0000,
            0,
            0,
            0,
            0,
        ].map_values(|n: int| n as u64),
{
    sys::lemma_stored(-1i32, slot);
    assert((1u32 << 1) | (1u32 << 3) | (1u32 << 0) == 11) by (bit_vector);
    let one = cancel_sqe(target);
    let all = cancel_slot_sqe(slot);
    sys::lemma_stored(all.fd, slot);
    sys::lemma_opcode_numbers();
    assert(sys::sqe_words(one) =~= seq![
        14 + 0xffff_ffff_0000_0000u64 as int,
        0,
        target as int,
        0,
        0,
        0,
        0,
        0,
    ].map_values(|n: int| n as u64));
    assert(sys::sqe_words(all) =~= seq![
        14 + slot * 0x1_0000_0000,
        0,
        0,
        11int * 0x1_0000_0000,
        0,
        0,
        0,
        0,
    ].map_values(|n: int| n as u64));
}

/// Each member of a chain has an entry of its own, that nobody waits on yet, and
/// nothing that was there changes.
pub proof fn lemma_each_member_has_an_entry(ops: Map<usize, Entry>, seq: u32, keys: Seq<OpKey>)
    requires
        consecutive(ops, seq, keys),
    ensures
        forall|i: int|
            0 <= i < keys.len() ==> {
                let k = (#[trigger] keys[i]).index as usize;
                &&& !ops.contains_key(k)
                &&& with_submitted(ops, keys).contains_key(k)
                &&& with_submitted(ops, keys)[k] == (Entry {
                    seq: keys[i].seq,
                    state: State::Submitted,
                })
                &&& keys[i].seq == (seq + i) % 0x1_0000_0000
            },
        forall|k: usize| #[trigger]
            ops.contains_key(k) ==> with_submitted(ops, keys).contains_key(k) && with_submitted(
                ops,
                keys,
            )[k] == ops[k],
        forall|k: usize| #[trigger]
            with_submitted(ops, keys).contains_key(k) ==> ops.contains_key(k) || exists|i: int|
                0 <= i < keys.len() && (#[trigger] keys[i]).index == k,
    decreases keys.len(),
{
    if keys.len() > 0 {
        let fewer = keys.drop_last();
        let n = keys.len() - 1;
        assert(consecutive(ops, seq, fewer)) by {
            assert forall|i: int| 0 <= i < fewer.len() implies !ops.contains_key(
                (#[trigger] fewer[i]).index as usize,
            ) && fewer[i].seq == queue::after(seq, i) by {
                assert(fewer[i] == keys[i]);
            }
            assert forall|i: int, j: int| 0 <= i < j < fewer.len() implies (
            #[trigger] fewer[i]).index != (#[trigger] fewer[j]).index by {
                assert(fewer[i] == keys[i] && fewer[j] == keys[j]);
            }
        }
        lemma_each_member_has_an_entry(ops, seq, fewer);
        assert(keys[n] == keys.last());
        assert forall|i: int| 0 <= i < keys.len() implies {
            let k = (#[trigger] keys[i]).index as usize;
            &&& !ops.contains_key(k)
            &&& with_submitted(ops, keys).contains_key(k)
            &&& with_submitted(ops, keys)[k] == (Entry {
                seq: keys[i].seq,
                state: State::Submitted,
            })
            &&& keys[i].seq == (seq + i) % 0x1_0000_0000
        } by {
            if i < n {
                assert(fewer[i] == keys[i]);
                assert(keys[i].index != keys[n].index);
            }
        }
        assert forall|k: usize| #[trigger]
            with_submitted(ops, keys).contains_key(k) implies ops.contains_key(k) || exists|i: int|
            0 <= i < keys.len() && (#[trigger] keys[i]).index == k by {
            if k == keys[n].index {
            } else if !ops.contains_key(k) {
                assert(with_submitted(ops, fewer).contains_key(k));
                let i = choose|i: int| 0 <= i < fewer.len() && (#[trigger] fewer[i]).index == k;
                assert(keys[i].index == k);
            }
        }
    }
}

/// What is always so of what is queued: the ring holds at least what has been
/// published, and no more than there is room for; what was published and what was
/// written are counted from the kernel's head, across the wrap.
pub proof fn lemma_what_is_so_of_the_ring(v: DriverView)
    requires
        v.valid(),
    ensures
        v.written() == (v.tail - v.sq.head) % 0x1_0000_0000,
        v.sq.pending() == (v.sq.tail - v.sq.head) % 0x1_0000_0000,
        v.sq.pending() <= v.written() <= v.sq.entries,
        0 <= v.room() <= v.sq.entries,
        v.sq.entries > 0,
        v.sq.mask == v.sq.entries - 1,
{
}

/// What a shutdown asks for: one cancel for each operation that somebody may yet ask
/// for, of that operation and with a token of its own, and none for any other.
pub proof fn lemma_what_a_shutdown_cancels(
    v: DriverView,
    seq: u32,
    cancelled: Seq<OpKey>,
    own: Seq<OpKey>,
    w: DriverView,
    i: int,
    k: usize,
)
    requires
        shuts_down(v, seq, cancelled, own, w),
    ensures
        cancel_sqes(cancelled, own).len() == cancelled.len(),
        own.len() == cancelled.len(),
        0 <= i < cancelled.len() ==> {
            let sqe = cancel_sqes(cancelled, own)[i];
            let op = v.ops[cancelled[i].index as usize];
            &&& sqe.opcode == sys::Opcode::AsyncCancel
            &&& sqe.fd == -1
            &&& sqe.addr == cancelled[i].index + cancelled[i].seq * 0x1_0000_0000
            &&& sqe.user_data == own[i].index + own[i].seq * 0x1_0000_0000
            &&& sqe.op_flags == 0
            &&& v.ops.contains_key(cancelled[i].index as usize)
            &&& op.seq == cancelled[i].seq
            &&& op.state is Submitted || op.state is Waiting
            &&& w.ops[cancelled[i].index as usize] == (Entry {
                seq: op.seq,
                state: State::Detached(Action::Discard),
            })
        },
        v.ops.contains_key(k) && (v.ops[k].state is Submitted || v.ops[k].state is Waiting)
            ==> exists|j: int| 0 <= j < cancelled.len() && (#[trigger] cancelled[j]).index == k,
        v.ops.contains_key(k) && v.ops[k].state is Detached ==> w.ops.contains_key(k) && w.ops[k]
            == v.ops[k],
{
    let left = ledger::abandoned(v.ops);
    lemma_discarded(left, seq, own);
    ledger::lemma_what_is_attended(v.ops, cancelled, k);
    ledger::lemma_what_is_abandoned(v.ops, k);
    if 0 <= i < cancelled.len() {
        ledger::lemma_what_is_abandoned(v.ops, cancelled[i].index as usize);
        ledger::lemma_a_token_is_index_and_sequence(cancelled[i], own[i]);
        ledger::lemma_a_token_is_index_and_sequence(own[i], own[i]);
        assert(ledger::is_live(v.ops, cancelled[i]));
    }
}

/// An operation's completion finds its way back. Whatever was submitted, and whatever
/// else is in the ledger, the completion that carries the token it went out with wakes
/// whoever was left waiting for it, and leaves them its result to take; it changes
/// nothing of any other operation.
pub proof fn lemma_a_completion_finds_its_way_back(
    ops: Map<usize, Entry>,
    sqe: Sqe,
    key: OpKey,
    waker: Waker,
    res: i32,
    flags: CqeFlags,
    k: usize,
)
    requires
        ops.contains_key(key.index as usize),
        ops[key.index as usize] == (Entry { seq: key.seq, state: State::Waiting(waker) }),
    ensures
        ({
            let token = stamped(sqe, key).user_data;
            let then = ledger::landed(ops, token, res, flags);
            &&& ledger::outcome(ops, token, res, flags) == Outcome::Wake(waker)
            &&& then.contains_key(key.index as usize)
            &&& then[key.index as usize] == (Entry {
                seq: key.seq,
                state: State::Completed(res, flags),
            })
            &&& k != key.index ==> then.contains_key(k) == ops.contains_key(k) && then[k] == ops[k]
        }),
{
    ledger::lemma_key_round_trips(key, 0);
}

} // verus!
