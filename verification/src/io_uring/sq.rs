//! The submission queue.

use vstd::prelude::*;

use super::flags::{SetupFlags, SqRingFlags};
use super::queue;
use super::sys;
use super::sys::{Params, SqRingOffsets, Sqe};

verus! {

/// What a mapped region holds: the word at byte offset `off`.
pub open spec fn word_at(region: Seq<u32>, off: u32) -> u32 {
    region[off as int / 4]
}

/// A whole word of the region sits at byte offset `off`.
pub open spec fn has_word(region: Seq<u32>, off: u32) -> bool {
    off % 4 == 0 && off / 4 < region.len()
}

/// Whether a whole word of the region sits at `off` bytes into it.
pub fn holds_word(region: &Vec<u32>, off: u32) -> (holds: bool)
    ensures
        holds == has_word(region@, off),
{
    off % 4 == 0 && ((off / 4) as usize) < region.len()
}

/// The word at `off` bytes into a mapped ring.
pub fn load_word(region: &Vec<u32>, off: u32) -> (word: u32)
    requires
        has_word(region@, off),
    ensures
        word == word_at(region@, off),
{
    region[(off / 4) as usize]
}

/// The submission queue: control words plus the SQE array.
///
/// The kernel shares the words; what it has done to them since is made known
/// with [`SqRing::sync`].
#[derive(Debug)]
pub struct SqRing {
    head: u32,
    tail: u32,
    flags: u32,
    dropped: u32,
    sqes: Vec<Sqe>,
    array: Vec<u32>,
    ring_sz: u64,
    sqes_sz: u64,
    mask: u32,
    entries: u32,
    /// SQE array stride shift: 1 for [`SetupFlags::SQE128`], else 0. Note that
    /// [`SetupFlags::SQE_MIXED`] keeps a 64-byte stride and spends two adjacent
    /// slots on a 128-byte entry, so it does not shift.
    sqe_shift: u32,
    /// Under SQPOLL the kernel walks the ring on its own thread, so the index
    /// handoff needs real acquire/release ordering rather than relying on the
    /// `io_uring_enter` barrier.
    sqpoll: bool,
}

/// What the submission queue holds.
pub struct SqView {
    /// The kernel's consumer index.
    pub head: u32,
    /// Our producer index, as the kernel last saw it.
    pub tail: u32,
    pub flags: u32,
    pub dropped: u32,
    /// The SQE array, one element for every 64 bytes of it.
    pub sqes: Seq<Sqe>,
    /// The index array, empty where there is none.
    pub array: Seq<u32>,
    pub ring_sz: u64,
    pub sqes_sz: u64,
    pub mask: u32,
    pub entries: u32,
    pub sqe_shift: u32,
    pub sqpoll: bool,
}

impl SqView {
    /// How many 64-byte places the SQE array has.
    pub open spec fn places(self) -> int {
        if self.sqe_shift == 0 {
            self.entries as int
        } else {
            2 * self.entries
        }
    }

    /// The place of running index `index` in the SQE array.
    pub open spec fn slot(self, index: u32) -> int {
        if self.sqe_shift == 0 {
            (index & self.mask) as int
        } else {
            2 * (index & self.mask)
        }
    }

    /// Submissions written but not yet consumed by the kernel.
    pub open spec fn pending(self) -> int {
        queue::ahead(self.head, self.tail)
    }

    /// The entry at running index `index`.
    pub open spec fn at(self, index: u32) -> Sqe {
        self.sqes[self.slot(index)]
    }

    /// The entries from the kernel's head up to `tail`, oldest first.
    pub open spec fn queued(self, tail: u32) -> Seq<Sqe> {
        Seq::new(
            queue::ahead(self.head, tail) as nat,
            |i: int| self.at(queue::after(self.head, i)),
        )
    }
}

/// Every control word of the offsets lies within the region.
pub open spec fn sq_words_fit(region: Seq<u32>, off: SqRingOffsets) -> bool {
    &&& has_word(region, off.head)
    &&& has_word(region, off.tail)
    &&& has_word(region, off.ring_mask)
    &&& has_word(region, off.ring_entries)
    &&& has_word(region, off.flags)
    &&& has_word(region, off.dropped)
}

/// The submission queue that `params` describes, resolved against what a mapped
/// region holds, with nothing written to it yet.
pub open spec fn resolved(
    params: Params,
    region: Seq<u32>,
    ring_sz: u64,
    sqes_sz: u64,
) -> SqView {
    let off = params.sq_off;
    let entries = word_at(region, off.ring_entries);
    let wide = params.flags.bits & SetupFlags::SQE128 == SetupFlags::SQE128;
    SqView {
        head: word_at(region, off.head),
        tail: word_at(region, off.tail),
        flags: word_at(region, off.flags),
        dropped: word_at(region, off.dropped),
        sqes: Seq::new(
            (entries * if wide { 2int } else { 1int }) as nat,
            |i: int| sys::blank(sys::Opcode::Nop),
        ),
        array: if params.flags.bits & SetupFlags::NO_SQARRAY == SetupFlags::NO_SQARRAY {
            Seq::empty()
        } else {
            identity(entries)
        },
        ring_sz,
        sqes_sz,
        mask: word_at(region, off.ring_mask),
        entries,
        sqe_shift: if wide { 1 } else { 0 },
        sqpoll: params.flags.bits & SetupFlags::SQPOLL == SetupFlags::SQPOLL,
    }
}

/// The identity map on the first `n` slots.
pub open spec fn identity(n: u32) -> Seq<u32> {
    Seq::new(n as nat, |i: int| i as u32)
}

impl View for SqRing {
    type V = SqView;

    closed spec fn view(&self) -> SqView {
        SqView {
            head: self.head,
            tail: self.tail,
            flags: self.flags,
            dropped: self.dropped,
            sqes: self.sqes@,
            array: self.array@,
            ring_sz: self.ring_sz,
            sqes_sz: self.sqes_sz,
            mask: self.mask,
            entries: self.entries,
            sqe_shift: self.sqe_shift,
            sqpoll: self.sqpoll,
        }
    }
}

impl SqRing {
    /// The mask fits the number of entries, there is a place for every entry,
    /// and no more are pending than there are places.
    pub open spec fn wf(&self) -> bool {
        &&& queue::is_mask(self@.entries, self@.mask)
        &&& self@.sqe_shift <= 1
        &&& self@.sqes.len() == self@.places()
        &&& self@.pending() <= self@.entries
    }

    /// Resolve the SQ offsets in `params` against what a mapped ring holds.
    ///
    /// Unless the ring was created with [`SetupFlags::NO_SQARRAY`], this also
    /// makes the SQ index array the identity map, which is the only time that
    /// array is ever written.
    pub fn new(region: &Vec<u32>, ring_sz: u64, sqes_sz: u64, params: &Params) -> (sq: SqRing)
        requires
            sq_words_fit(region@, params.sq_off),
            queue::is_mask(
                word_at(region@, params.sq_off.ring_entries),
                word_at(region@, params.sq_off.ring_mask),
            ),
            word_at(region@, params.sq_off.ring_entries) * 2 <= usize::MAX,
            queue::ahead(
                word_at(region@, params.sq_off.head),
                word_at(region@, params.sq_off.tail),
            ) <= word_at(region@, params.sq_off.ring_entries),
        ensures
            sq.wf(),
            sq@ == resolved(*params, region@, ring_sz, sqes_sz),
    {
        let off = &params.sq_off;
        let entries = load_word(region, off.ring_entries);

        let mut array: Vec<u32> = Vec::new();
        if !params.flags.contains(SetupFlags::NO_SQARRAY) {
            // Map SQ slot n directly onto SQE n.
            let mut i: u32 = 0;
            while i < entries
                invariant
                    i <= entries,
                    array@ == identity(i),
                decreases entries - i,
            {
                proof {
                    assert(array@.push(i) =~= identity((i + 1) as u32));
                }
                array.push(i);
                i += 1;
            }
        } else {
            proof {
                assert(array@ =~= Seq::<u32>::empty());
            }
        }

        let wide = params.flags.contains(SetupFlags::SQE128);
        let slots: usize = if wide {
            entries as usize * 2
        } else {
            entries as usize
        };
        let mut sqes: Vec<Sqe> = Vec::new();
        while sqes.len() < slots
            invariant
                sqes@.len() <= slots,
                forall|i: int|
                    0 <= i < sqes@.len() ==> #[trigger] sqes@[i] == sys::blank(sys::Opcode::Nop),
            decreases slots - sqes@.len(),
        {
            sqes.push(Sqe::zeroed());
        }
        proof {
            assert(sqes@ =~= Seq::new(slots as nat, |i: int| sys::blank(sys::Opcode::Nop)));
        }

        SqRing {
            head: load_word(region, off.head),
            tail: load_word(region, off.tail),
            flags: load_word(region, off.flags),
            dropped: load_word(region, off.dropped),
            sqes,
            array,
            ring_sz,
            sqes_sz,
            mask: load_word(region, off.ring_mask),
            entries,
            sqe_shift: if wide {
                1
            } else {
                0
            },
            sqpoll: params.flags.contains(SetupFlags::SQPOLL),
        }
    }

    /// Take in what the kernel has written to its words of the ring.
    ///
    /// It consumes only what has been published, so its head never passes the
    /// tail.
    pub fn sync(&mut self, head: u32, flags: u32, dropped: u32)
        requires
            old(self).wf(),
            queue::ahead(head, old(self)@.tail) <= old(self)@.pending(),
        ensures
            final(self).wf(),
            final(self)@ == (SqView { head, flags, dropped, ..old(self)@ }),
    {
        self.head = head;
        self.flags = flags;
        self.dropped = dropped;
    }

    /// Number of SQEs the ring holds.
    pub fn entries(&self) -> (entries: u32)
        ensures
            entries == self@.entries,
    {
        self.entries
    }

    /// Mask that turns a running index into a slot index.
    pub fn mask(&self) -> (mask: u32)
        ensures
            mask == self@.mask,
    {
        self.mask
    }

    /// The kernel's consumer index.
    pub fn head(&self) -> (head: u32)
        ensures
            head == self@.head,
    {
        self.head
    }

    /// Our producer index, as the kernel last saw it.
    pub fn tail(&self) -> (tail: u32)
        ensures
            tail == self@.tail,
    {
        self.tail
    }

    /// Whether the kernel walks the ring on its own thread, so that reading its
    /// head has to acquire and publishing our tail has to release.
    pub fn sqpoll(&self) -> (sqpoll: bool)
        ensures
            sqpoll == self@.sqpoll,
    {
        self.sqpoll
    }

    /// The index array to be written into the mapping once, empty where the ring
    /// has none.
    pub fn array(&self) -> (array: &Vec<u32>)
        ensures
            array@ == self@.array,
    {
        &self.array
    }

    /// The size of the ring mapping in bytes.
    pub fn ring_sz(&self) -> (size: u64)
        ensures
            size == self@.ring_sz,
    {
        self.ring_sz
    }

    /// The size of the SQE array's mapping in bytes.
    pub fn sqes_sz(&self) -> (size: u64)
        ensures
            size == self@.sqes_sz,
    {
        self.sqes_sz
    }

    /// Publish `tail`, releasing every SQE written below it.
    pub fn set_tail(&mut self, tail: u32)
        requires
            old(self).wf(),
            queue::ahead(old(self)@.head, tail) <= old(self)@.entries,
        ensures
            final(self).wf(),
            final(self)@ == (SqView { tail, ..old(self)@ }),
    {
        self.tail = tail;
    }

    /// Ring flags: [`SqRingFlags::NEED_WAKEUP`] and friends.
    pub fn flags(&self) -> (flags: SqRingFlags)
        ensures
            flags.bits == self@.flags,
    {
        SqRingFlags::from_bits_retain(self.flags)
    }

    /// Count of SQ entries the kernel rejected as invalid.
    pub fn dropped(&self) -> (dropped: u32)
        ensures
            dropped == self@.dropped,
    {
        self.dropped
    }

    /// Submissions written but not yet consumed by the kernel.
    pub fn pending(&self) -> (pending: u32)
        ensures
            pending == self@.pending(),
    {
        self.tail.wrapping_sub(self.head)
    }

    /// Free slots in the ring.
    pub fn space_left(&self) -> (free: u32)
        requires
            self.wf(),
        ensures
            free == self@.entries - self@.pending(),
    {
        self.entries - self.pending()
    }

    /// The SQE slot for running index `index`, which is masked for you.
    ///
    /// The slot must be free — that is, `index` must be at or above the last
    /// published tail and within [`SqRing::space_left`] of it. Writing a slot
    /// the kernel is still reading is a data race.
    pub fn sqe(&mut self, index: u32) -> (sqe: &mut Sqe)
        requires
            old(self).wf(),
            queue::ahead(old(self)@.tail, index) < old(self)@.entries - old(self)@.pending(),
        ensures
            *sqe == old(self)@.at(index),
            final(self).wf(),
            final(self)@ == (SqView {
                sqes: old(self)@.sqes.update(old(self)@.slot(index), *final(sqe)),
                ..old(self)@
            }),
    {
        let slot = self.slot(index);
        &mut self.sqes[slot]
    }

    /// The entry last written for running index `index`.
    pub fn written(&self, index: u32) -> (sqe: &Sqe)
        requires
            self.wf(),
        ensures
            *sqe == self@.at(index),
    {
        &self.sqes[self.slot(index)]
    }

    /// Where in the SQE array the entry for `index` goes.
    fn slot(&self, index: u32) -> (slot: usize)
        requires
            self.wf(),
        ensures
            slot == self@.slot(index),
            slot < self@.sqes.len(),
    {
        proof {
            queue::lemma_slot_in_range(self@.entries, self@.mask, index);
            queue::lemma_entries_bound(self@.entries, self@.mask);
            queue::lemma_doubled(index & self.mask);
            assert(self.sqes@.len() == self.sqes.len());
        }
        ((index & self.mask) << self.sqe_shift) as usize
    }
}

/// Writing the entry one past the end of what is queued appends it.
pub proof fn lemma_write_appends(before: SqView, sqe: Sqe, tail: u32)
    requires
        queue::is_mask(before.entries, before.mask),
        before.sqe_shift <= 1,
        before.sqes.len() == before.places(),
        queue::ahead(before.head, tail) < before.entries,
    ensures
        ({
            let after = SqView { sqes: before.sqes.update(before.slot(tail), sqe), ..before };
            after.queued(queue::after(tail, 1)) == before.queued(tail).push(sqe)
        }),
{
    let after = SqView { sqes: before.sqes.update(before.slot(tail), sqe), ..before };
    let n = queue::ahead(before.head, tail);
    queue::lemma_after_ahead(before.head, tail);
    queue::lemma_after_after(before.head, n, 1);
    queue::lemma_ahead_of_after(before.head, n + 1);
    queue::lemma_slot_in_range(before.entries, before.mask, tail);
    assert forall|i: int| 0 <= i <= n implies #[trigger] after.at(queue::after(before.head, i))
        == if i == n {
        sqe
    } else {
        before.at(queue::after(before.head, i))
    } by {
        let index = queue::after(before.head, i);
        queue::lemma_slot_in_range(before.entries, before.mask, index);
        if i < n {
            queue::lemma_after_after(before.head, i, n - i);
            queue::lemma_ahead_of_after(index, n - i);
            queue::lemma_ahead_of_after(before.head, i);
            queue::lemma_slots_differ(before.entries, before.mask, index, tail);
        }
    }
    assert(after.queued(queue::after(tail, 1)) =~= before.queued(tail).push(sqe));
}

/// The kernel consuming `n` entries takes them off the front of what is queued.
pub proof fn lemma_consuming_takes_the_front(before: SqView, n: int, tail: u32)
    requires
        0 <= n <= queue::ahead(before.head, tail),
    ensures
        ({
            let after = SqView { head: queue::after(before.head, n), ..before };
            after.queued(tail) == before.queued(tail).skip(n)
        }),
{
    let after = SqView { head: queue::after(before.head, n), ..before };
    let len = queue::ahead(before.head, tail);
    queue::lemma_after_ahead(before.head, tail);
    queue::lemma_after_after(before.head, n, len - n);
    queue::lemma_ahead_of_after(after.head, len - n);
    assert forall|i: int| 0 <= i < len - n implies #[trigger] queue::after(after.head, i)
        == queue::after(before.head, n + i) by {
        queue::lemma_after_after(before.head, n, i);
    }
    assert(after.queued(tail) =~= before.queued(tail).skip(n));
}

/// The word a queue finds at a byte offset is the fourth as many words into the
/// region, and there is one exactly where a whole word fits.
pub proof fn lemma_words_are_four_bytes(region: Seq<u32>, i: int)
    requires
        0 <= i,
        4 * i <= u32::MAX,
    ensures
        has_word(region, (4 * i) as u32) == (i < region.len()),
        i < region.len() ==> word_at(region, (4 * i) as u32) == region[i],
        forall|off: u32| #[trigger]
            has_word(region, off) ==> off % 4 == 0 && off + 4 <= 4 * region.len(),
{
}

/// What is queued lies in the array in turn, from the slot of the head on and round
/// again: entry `i` is where the kernel looks for it, twice as far in where entries
/// are 128 bytes long.
pub proof fn lemma_queued_in_turn(sq: SqView, tail: u32, i: int)
    requires
        queue::is_mask(sq.entries, sq.mask),
        sq.sqe_shift <= 1,
        0 <= i < queue::ahead(sq.head, tail),
    ensures
        sq.queued(tail).len() == queue::ahead(sq.head, tail),
        sq.sqe_shift == 0 ==> sq.queued(tail)[i] == sq.sqes[(sq.head + i) % (sq.entries as int)],
        sq.sqe_shift == 1 ==> sq.queued(tail)[i] == sq.sqes[2 * ((sq.head + i) % (
        sq.entries as int))],
{
    queue::lemma_slots_are_taken_in_turn(sq.entries, sq.mask, sq.head, i);
}

/// Nothing is queued exactly where the head has caught up, and there are as many
/// pending as the tail is ahead.
pub proof fn lemma_pending_is_what_is_queued(sq: SqView)
    ensures
        sq.queued(sq.tail).len() == sq.pending(),
        sq.head == sq.tail <==> sq.pending() == 0,
        sq.head <= sq.tail ==> sq.pending() == sq.tail - sq.head,
{
    queue::lemma_after_ahead(sq.head, sq.tail);
}

/// A submission queue is what the region holds where the offsets say: every control
/// word is the one at its own offset, the array is empty entries, one for each slot
/// or two where they are 128 bytes long, and the index array maps each slot to the
/// entry of the same number, unless there is none.
pub proof fn lemma_resolved_by_the_offsets(
    params: Params,
    region: Seq<u32>,
    ring_sz: u64,
    sqes_sz: u64,
    i: int,
)
    requires
        sq_words_fit(region, params.sq_off),
    ensures
        ({
            let sq = resolved(params, region, ring_sz, sqes_sz);
            let off = params.sq_off;
            let wide = params.flags.bits & 1024 != 0;
            let bare = params.flags.bits & 65536 != 0;
            &&& sq.head == region[(off.head / 4) as int]
            &&& sq.tail == region[(off.tail / 4) as int]
            &&& sq.mask == region[(off.ring_mask / 4) as int]
            &&& sq.entries == region[(off.ring_entries / 4) as int]
            &&& sq.flags == region[(off.flags / 4) as int]
            &&& sq.dropped == region[(off.dropped / 4) as int]
            &&& sq.ring_sz == ring_sz
            &&& sq.sqes_sz == sqes_sz
            &&& sq.sqpoll == (params.flags.bits & 2 != 0)
            &&& sq.sqe_shift == if wide {
                1u32
            } else {
                0
            }
            &&& sq.sqes.len() == sq.entries * if wide {
                2int
            } else {
                1
            }
            &&& 0 <= i < sq.sqes.len() ==> sq.sqes[i] == sys::blank(sys::Opcode::Nop)
            &&& sq.array.len() == if bare {
                0
            } else {
                sq.entries as nat
            }
            &&& 0 <= i < sq.array.len() ==> sq.array[i] == i
        }),
{
    let bits = params.flags.bits;
    assert(((bits & (1u32 << 10) == (1u32 << 10)) == (bits & 1024 != 0)) && ((bits & (1u32 << 16)
        == (1u32 << 16)) == (bits & 65536 != 0)) && ((bits & (1u32 << 1) == (1u32 << 1)) == (bits
        & 2 != 0))) by (bit_vector);
}

} // verus!
