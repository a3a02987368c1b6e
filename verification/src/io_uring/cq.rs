//! The completion queue.

use vstd::prelude::*;

use super::flags::{CqRingFlags, CqeFlags, SetupFlags};
use super::queue;
use super::sq;
use super::sys;
use super::sys::{CqRingOffsets, Cqe, Params};
use super::syscall::Errno;

verus! {

/// The outcome encoded in a completion's `res`, read according to its flags.
#[derive(Clone, Copy, Debug, PartialEq, Eq, Structural)]
pub enum CqeResult {
    /// Success. The meaning is operation-defined: bytes transferred, a file
    /// descriptor, a direct descriptor slot, a poll event mask, and so on.
    Value(u32),
    /// The operation failed.
    Error(Errno),
    /// A zero-copy notification, not a result at all — the send's own outcome
    /// arrived on a separate completion. `copied` reports that the kernel fell
    /// back to copying, and is only meaningful when the submission carried
    /// `RecvSendFlags::SEND_ZC_REPORT_USAGE`.
    Notification { copied: bool },
}

/// What a completion says.
///
/// The flag for a notification comes first: on one of those `res` is a flag word
/// whose only defined bit is the topmost, which read as a signed integer would
/// otherwise look like an enormous negative errno.
pub open spec fn result_of(cqe: Cqe) -> CqeResult {
    if cqe.flags.bits & CqeFlags::NOTIF == CqeFlags::NOTIF {
        CqeResult::Notification { copied: (cqe.res as u32) & sys::NOTIF_USAGE_ZC_COPIED != 0 }
    } else if cqe.res < 0 {
        CqeResult::Error(Errno((-cqe.res) as i32))
    } else {
        CqeResult::Value(cqe.res as u32)
    }
}

impl Cqe {
    /// Split this completion into its result or its `-errno`.
    ///
    /// No errno is as large as the one number whose negation does not fit.
    pub fn result(&self) -> (result: CqeResult)
        requires
            self.flags.bits & CqeFlags::NOTIF == CqeFlags::NOTIF || self.res != i32::MIN,
        ensures
            result == result_of(*self),
            self.flags.bits & CqeFlags::NOTIF != CqeFlags::NOTIF && self.res >= 0 ==> (result matches
                CqeResult::Value(value) && value as int == self.res as int),
            self.flags.bits & CqeFlags::NOTIF != CqeFlags::NOTIF && self.res < 0 ==> (result matches
                CqeResult::Error(errno) && errno.0 as int == -(self.res as int)),
    {
        if self.flags.contains(CqeFlags::NOTIF) {
            let copied = self.res as u32 & sys::NOTIF_USAGE_ZC_COPIED != 0;
            CqeResult::Notification { copied }
        } else if self.res < 0 {
            CqeResult::Error(Errno(-self.res))
        } else {
            CqeResult::Value(self.res as u32)
        }
    }
}

/// `copied` is the sign of a notification's `res`.
pub proof fn lemma_copied_is_the_sign(res: i32)
    ensures
        ((res as u32) & sys::NOTIF_USAGE_ZC_COPIED != 0) == (res < 0),
{
    assert(((res as u32) & 0x8000_0000u32 != 0) == (res < 0)) by (bit_vector);
}

/// One completion, copied out of the ring.
///
/// Taken by value rather than borrowed: the slot it came from is released back
/// to the kernel when the batch it belongs to is finished with, so a reference
/// into the ring could be overwritten while still held.
#[derive(Clone, Copy, Debug)]
pub struct Completion {
    cqe: Cqe,
    big: Option<[u64; 2]>,
}

impl View for Completion {
    type V = (Cqe, Option<[u64; 2]>);

    closed spec fn view(&self) -> (Cqe, Option<[u64; 2]>) {
        (self.cqe, self.big)
    }
}

impl Completion {
    /// The token echoed back from the submission.
    pub fn user_data(&self) -> (user_data: u64)
        ensures
            user_data == self@.0.user_data,
    {
        self.cqe.user_data
    }

    /// The result, interpreted according to the flags.
    pub fn result(&self) -> (result: CqeResult)
        requires
            self@.0.flags.bits & CqeFlags::NOTIF == CqeFlags::NOTIF || self@.0.res != i32::MIN,
        ensures
            result == result_of(self@.0),
            self@.0.flags.bits & CqeFlags::NOTIF != CqeFlags::NOTIF && self@.0.res >= 0 ==> (
            result matches CqeResult::Value(value) && value as int == self@.0.res as int),
            self@.0.flags.bits & CqeFlags::NOTIF != CqeFlags::NOTIF && self@.0.res < 0 ==> (
            result matches CqeResult::Error(errno) && errno.0 as int == -(self@.0.res as int)),
    {
        self.cqe.result()
    }

    /// The flags, the buffer ID among them.
    pub fn flags(&self) -> (flags: CqeFlags)
        ensures
            flags == self@.0.flags,
    {
        self.cqe.flags
    }

    /// The provided buffer this completion consumed.
    /// Valid only when [`CqeFlags::BUFFER`] is set.
    pub fn buffer_id(&self) -> (id: u16)
        ensures
            id == sys::buffer_id(self@.0.flags),
    {
        self.cqe.buffer_id()
    }

    /// The extra 16 bytes of a 32-byte completion, on rings that post them.
    pub fn big(&self) -> (big: Option<[u64; 2]>)
        ensures
            big == self@.1,
    {
        self.big
    }

    /// The raw entry.
    pub fn raw(&self) -> (cqe: &Cqe)
        ensures
            *cqe == self@.0,
    {
        &self.cqe
    }
}

/// The completion queue: control words plus the CQE array.
///
/// The kernel shares the words and fills the array; what it has done since is
/// made known with [`CqRing::sync`].
#[derive(Debug)]
pub struct CqRing {
    head: u32,
    tail: u32,
    overflow: u32,
    /// `None` on kernels that predate the field, which report offset 0 for it.
    flags: Option<u32>,
    cqes: Vec<(u64, u64)>,
    /// Zero when the CQ shares the SQ's mapping, which owns it.
    ring_sz: u64,
    mask: u32,
    entries: u32,
    /// CQE array stride shift: 1 for [`SetupFlags::CQE32`], else 0.
    /// [`SetupFlags::CQE_MIXED`] keeps a 16-byte stride, so it does not shift; a
    /// 32-byte completion there occupies two slots and is marked with
    /// [`CqeFlags::F32`].
    cqe_shift: u32,
}

/// What the completion queue holds.
pub struct CqView {
    /// Our consumer index.
    pub head: u32,
    /// The kernel's producer index.
    pub tail: u32,
    pub overflow: u32,
    pub flags: Option<u32>,
    /// The CQE array, one element for every 16 bytes of it.
    pub cqes: Seq<(u64, u64)>,
    pub ring_sz: u64,
    pub mask: u32,
    pub entries: u32,
    pub cqe_shift: u32,
}

impl CqView {
    /// How many 16-byte places the CQE array has.
    pub open spec fn places(self) -> int {
        if self.cqe_shift == 0 {
            self.entries as int
        } else {
            2 * self.entries
        }
    }

    /// The place of running index `index` in the CQE array.
    pub open spec fn slot(self, index: u32) -> int {
        if self.cqe_shift == 0 {
            (index & self.mask) as int
        } else {
            2 * (index & self.mask)
        }
    }

    /// The entry at running index `index`.
    pub open spec fn at(self, index: u32) -> Cqe {
        sys::cqe_of_words(self.cqes[self.slot(index)])
    }

    /// Completions available to read, counted in slots.
    pub open spec fn ready(self) -> int {
        queue::ahead(self.head, self.tail)
    }

    /// The entry at `index` is marked as a 32-byte one.
    pub open spec fn is_wide(self, index: u32) -> bool {
        self.at(index).flags.bits & CqeFlags::F32 == CqeFlags::F32
    }

    /// How many slots the entry at `index` spends: a big one spends two on a
    /// mixed ring, while on a dedicated one the stride already covers it.
    pub open spec fn spends(self, index: u32) -> int {
        if self.is_wide(index) && self.cqe_shift == 0 {
            2
        } else {
            1
        }
    }

    /// The completion at `index`, with the 16 bytes after it where it has them.
    pub open spec fn completion(self, index: u32) -> (Cqe, Option<[u64; 2]>) {
        (
            self.at(index),
            if self.is_wide(index) || self.cqe_shift != 0 {
                let words = self.cqes[self.slot(index) + 1];
                Some([words.0, words.1])
            } else {
                None
            },
        )
    }

    /// The entry at `index` is padding, posted to fill a wrap gap.
    pub open spec fn is_padding(self, index: u32) -> bool {
        self.at(index).flags.bits & CqeFlags::SKIP == CqeFlags::SKIP
    }

    /// The kernel posted the `left` slots from `from` on as it promises to: a big
    /// completion neither straddles the wrap — it pads with a skip entry
    /// instead — nor is posted by halves.
    pub open spec fn well_posted(self, from: u32, left: nat) -> bool
        decreases left,
    {
        left == 0 || {
            let n = self.spends(from);
            &&& n <= left
            &&& self.slot(from) + n <= self.places()
            &&& self.well_posted(queue::after(from, n), (left - n) as nat)
        }
    }

    /// The completions in the `left` slots from `from` on, in the order they were
    /// posted, padding left out.
    pub open spec fn batch(self, from: u32, left: nat) -> Seq<(Cqe, Option<[u64; 2]>)>
        decreases left,
    {
        let n = self.spends(from);
        if left < n {
            Seq::empty()
        } else {
            let rest = self.batch(queue::after(from, n), (left - n) as nat);
            if self.is_padding(from) {
                rest
            } else {
                seq![self.completion(from)] + rest
            }
        }
    }

    /// How many of the `left` slots from `from` on there are up to and including the
    /// first completion, with the padding before it and none behind it; all of them
    /// if there is none.
    pub open spec fn through_next(self, from: u32, left: nat) -> nat
        decreases left,
    {
        let n = self.spends(from);
        if left < n {
            left
        } else if self.is_padding(from) {
            n as nat + self.through_next(queue::after(from, n), (left - n) as nat)
        } else {
            n as nat
        }
    }

    /// How many of the ready slots a walk that has come over `taken` of them has come
    /// over once it has gone on by one completion.
    pub open spec fn taken_next(self, taken: int) -> int {
        taken + self.through_next(queue::after(self.head, taken), (self.ready() - taken) as nat)
    }

    /// The completions that are ready to be read.
    pub open spec fn waiting(self) -> Seq<(Cqe, Option<[u64; 2]>)> {
        self.batch(self.head, self.ready() as nat)
    }

    /// The kernel kept its promises about everything that is ready.
    pub open spec fn is_well_posted(self) -> bool {
        self.well_posted(self.head, self.ready() as nat)
    }
}

impl View for CqRing {
    type V = CqView;

    closed spec fn view(&self) -> CqView {
        CqView {
            head: self.head,
            tail: self.tail,
            overflow: self.overflow,
            flags: self.flags,
            cqes: self.cqes@,
            ring_sz: self.ring_sz,
            mask: self.mask,
            entries: self.entries,
            cqe_shift: self.cqe_shift,
        }
    }
}

/// The completion queue that `params` describes, resolved against what a mapped
/// region holds, with nothing taken in of the array yet.
pub open spec fn resolved(params: Params, region: Seq<u32>, ring_sz: u64) -> CqView {
    let off = params.cq_off;
    let entries = sq::word_at(region, off.ring_entries);
    let wide = params.flags.bits & SetupFlags::CQE32 == SetupFlags::CQE32;
    CqView {
        head: sq::word_at(region, off.head),
        tail: sq::word_at(region, off.tail),
        overflow: sq::word_at(region, off.overflow),
        flags: if off.flags != 0 {
            Some(sq::word_at(region, off.flags))
        } else {
            None
        },
        cqes: Seq::new(
            (entries * if wide { 2int } else { 1int }) as nat,
            |i: int| (0u64, 0u64),
        ),
        ring_sz,
        mask: sq::word_at(region, off.ring_mask),
        entries,
        cqe_shift: if wide { 1 } else { 0 },
    }
}

/// Every control word of the offsets lies within the region.
pub open spec fn cq_words_fit(region: Seq<u32>, off: CqRingOffsets) -> bool {
    &&& sq::has_word(region, off.head)
    &&& sq::has_word(region, off.tail)
    &&& sq::has_word(region, off.ring_mask)
    &&& sq::has_word(region, off.ring_entries)
    &&& sq::has_word(region, off.overflow)
    &&& off.flags != 0 ==> sq::has_word(region, off.flags)
}

impl CqRing {
    /// The mask fits the number of entries, there is a place for every entry,
    /// and no more are ready than there are places.
    pub open spec fn wf(&self) -> bool {
        &&& queue::is_mask(self@.entries, self@.mask)
        &&& self@.cqe_shift <= 1
        &&& self@.cqes.len() == self@.places()
        &&& self@.ready() <= self@.entries
    }

    /// Resolve the CQ offsets in `params` against what a mapped ring holds.
    ///
    /// `ring_sz` must be zero when that mapping is owned elsewhere.
    pub fn new(region: &Vec<u32>, ring_sz: u64, params: &Params) -> (cq: CqRing)
        requires
            cq_words_fit(region@, params.cq_off),
            queue::is_mask(
                sq::word_at(region@, params.cq_off.ring_entries),
                sq::word_at(region@, params.cq_off.ring_mask),
            ),
            sq::word_at(region@, params.cq_off.ring_entries) * 2 <= usize::MAX,
            queue::ahead(
                sq::word_at(region@, params.cq_off.head),
                sq::word_at(region@, params.cq_off.tail),
            ) <= sq::word_at(region@, params.cq_off.ring_entries),
        ensures
            cq.wf(),
            cq@ == resolved(*params, region@, ring_sz),
    {
        let off = &params.cq_off;
        let entries = sq::load_word(region, off.ring_entries);
        let wide = params.flags.contains(SetupFlags::CQE32);
        let slots: usize = if wide {
            entries as usize * 2
        } else {
            entries as usize
        };
        let mut cqes: Vec<(u64, u64)> = Vec::new();
        while cqes.len() < slots
            invariant
                cqes@.len() <= slots,
                forall|i: int| 0 <= i < cqes@.len() ==> #[trigger] cqes@[i] == (0u64, 0u64),
            decreases slots - cqes@.len(),
        {
            cqes.push((0, 0));
        }
        proof {
            assert(cqes@ =~= Seq::new(slots as nat, |i: int| (0u64, 0u64)));
        }
        CqRing {
            head: sq::load_word(region, off.head),
            tail: sq::load_word(region, off.tail),
            overflow: sq::load_word(region, off.overflow),
            // Offset 0 is where the SQ head lives, so no real field can sit
            // there; the kernel uses it to mean "not supported".
            flags: if off.flags != 0 {
                Some(sq::load_word(region, off.flags))
            } else {
                None
            },
            cqes,
            ring_sz,
            mask: sq::load_word(region, off.ring_mask),
            entries,
            cqe_shift: if wide {
                1
            } else {
                0
            },
        }
    }

    /// Take in what the kernel has written to its words of the ring and to the
    /// CQE array.
    pub fn sync(&mut self, tail: u32, overflow: u32, flags: u32, cqes: Vec<(u64, u64)>)
        requires
            old(self).wf(),
            queue::ahead(old(self)@.head, tail) <= old(self)@.entries,
            cqes@.len() == old(self)@.cqes.len(),
        ensures
            final(self).wf(),
            final(self)@ == (CqView {
                tail,
                overflow,
                flags: if old(self)@.flags is Some {
                    Some(flags)
                } else {
                    None
                },
                cqes: cqes@,
                ..old(self)@
            }),
    {
        self.tail = tail;
        self.overflow = overflow;
        if self.flags.is_some() {
            self.flags = Some(flags);
        }
        self.cqes = cqes;
    }

    /// Number of CQEs the ring holds.
    pub fn entries(&self) -> (entries: u32)
        ensures
            entries == self@.entries,
    {
        self.entries
    }

    /// Mask that turns a running index into a slot index.
    pub fn mask(&self) -> (mask: u32)
        ensures
            mask == self@.mask,
    {
        self.mask
    }

    /// Our consumer index.
    pub fn head(&self) -> (head: u32)
        ensures
            head == self@.head,
    {
        self.head
    }

    /// The kernel's producer index.
    pub fn tail(&self) -> (tail: u32)
        ensures
            tail == self@.tail,
    {
        self.tail
    }

    /// The size of the mapping in bytes, zero where the SQ side owns it.
    pub fn ring_sz(&self) -> (size: u64)
        ensures
            size == self@.ring_sz,
    {
        self.ring_sz
    }

    /// How many 16-byte places the CQE array has.
    pub fn places(&self) -> (places: usize)
        requires
            self.wf(),
        ensures
            places == self@.places(),
    {
        self.cqes.len()
    }

    /// Completions available to read.
    pub fn ready(&self) -> (ready: u32)
        ensures
            ready == self@.ready(),
    {
        self.tail.wrapping_sub(self.head)
    }

    /// Count of completions the kernel could not fit in the ring.
    pub fn overflow(&self) -> (overflow: u32)
        ensures
            overflow == self@.overflow,
    {
        self.overflow
    }

    /// Ring flags, or `None` if this kernel does not expose them.
    pub fn flags(&self) -> (flags: Option<CqRingFlags>)
        ensures
            match flags {
                Some(flags) => self@.flags == Some(flags.bits),
                None => self@.flags is None,
            },
    {
        match self.flags {
            Some(bits) => Some(CqRingFlags::from_bits_retain(bits)),
            None => None,
        }
    }

    /// Where in the CQE array the entry for `index` is.
    fn slot(&self, index: u32) -> (slot: usize)
        requires
            self.wf(),
        ensures
            slot == self@.slot(index),
            slot < self@.cqes.len(),
            self@.cqe_shift != 0 ==> slot + 1 < self@.cqes.len(),
    {
        proof {
            queue::lemma_slot_in_range(self@.entries, self@.mask, index);
            queue::lemma_entries_bound(self@.entries, self@.mask);
            queue::lemma_doubled(index & self.mask);
            assert(self.cqes@.len() == self.cqes.len());
        }
        ((index & self.mask) << self.cqe_shift) as usize
    }

    /// The CQE at running index `index`, which is masked for you.
    ///
    /// `index` must be below the tail and at or above the head, so the kernel is
    /// not still writing it.
    pub fn cqe(&self, index: u32) -> (cqe: Cqe)
        requires
            self.wf(),
            queue::ahead(self@.head, index) < self@.ready(),
        ensures
            cqe == self@.at(index),
    {
        Cqe::from_words(self.cqes[self.slot(index)])
    }

    /// Whether the kernel posted everything that is ready as it promises to.
    pub fn is_well_posted(&self) -> (well: bool)
        requires
            self.wf(),
        ensures
            well == self@.is_well_posted(),
    {
        let mut from = self.head;
        let mut left = self.ready();
        while left != 0
            invariant
                self.wf(),
                self@.well_posted(from, left as nat) == self@.is_well_posted(),
            decreases left,
        {
            let slot = self.slot(from);
            let cqe = Cqe::from_words(self.cqes[slot]);
            let n: u32 = if cqe.flags.contains(CqeFlags::F32) && self.cqe_shift == 0 {
                2
            } else {
                1
            };
            if n > left || n as usize > self.cqes.len() - slot {
                return false;
            }
            from = from.wrapping_add(n);
            left -= n;
        }
        true
    }

    /// Walk the completions that are ready right now.
    ///
    /// Samples the tail once, so the batch is fixed at the point of the call.
    /// Entries are released back to the kernel when the walk is finished.
    pub fn completions(&self) -> (batch: Completions)
        requires
            self.wf(),
            self@.is_well_posted(),
        ensures
            batch.wf(self@),
            batch.taken() == 0,
            batch.rest(self@) == self@.waiting(),
    {
        Completions { head: self.head, tail: self.tail, consumed: 0 }
    }

    /// Release `n` completions back to the kernel.
    pub fn advance(&mut self, n: u32)
        requires
            old(self).wf(),
            n <= old(self)@.ready(),
        ensures
            final(self).wf(),
            final(self)@ == (CqView { head: queue::after(old(self)@.head, n as int), ..old(self)@ }),
    {
        if n != 0 {
            self.head = self.head.wrapping_add(n);
        }
    }
}

/// A walk over ready completions.
///
/// The tail is sampled once, so the batch is whatever was ready when the walk
/// started. Slots are released by [`Completions::finish`], and only those
/// actually yielded — so stopping early leaves the rest for the next batch.
#[derive(Debug)]
pub struct Completions {
    head: u32,
    tail: u32,
    consumed: u32,
}

impl Completions {
    /// The walk is over `cq` and has come part of the way.
    pub closed spec fn wf(&self, cq: CqView) -> bool {
        &&& self.tail == cq.tail
        &&& self.consumed <= cq.ready()
        &&& self.head == queue::after(cq.head, self.consumed as int)
        &&& queue::ahead(self.head, self.tail) == cq.ready() - self.consumed
        &&& cq.well_posted(self.head, queue::ahead(self.head, self.tail) as nat)
    }

    /// Slots that have been walked over.
    pub closed spec fn taken(&self) -> int {
        self.consumed as int
    }

    /// What is still to come.
    pub closed spec fn rest(&self, cq: CqView) -> Seq<(Cqe, Option<[u64; 2]>)> {
        cq.batch(self.head, queue::ahead(self.head, self.tail) as nat)
    }

    /// The next completion, or `None` once there are no more in the batch.
    pub fn next(&mut self, cq: &CqRing) -> (next: Option<Completion>)
        requires
            cq.wf(),
            old(self).wf(cq@),
        ensures
            final(self).wf(cq@),
            match next {
                Some(completion) => old(self).rest(cq@) == seq![completion@] + final(self).rest(cq@),
                None => {
                    &&& old(self).rest(cq@).len() == 0
                    &&& final(self).rest(cq@).len() == 0
                    &&& final(self).taken() == cq@.ready()
                },
            },
            final(self).taken() == cq@.taken_next(old(self).taken()),
            old(self).taken() <= final(self).taken() <= cq@.ready(),
    {
        while self.head != self.tail
            invariant
                cq.wf(),
                self.wf(cq@),
                self.rest(cq@) == old(self).rest(cq@),
                old(self).taken() <= self.taken(),
                cq@.taken_next(self.taken()) == cq@.taken_next(old(self).taken()),
            decreases queue::ahead(self.head, self.tail),
        {
            let ghost from = self.head;
            let ghost left = queue::ahead(self.head, self.tail) as nat;
            let slot = cq.slot(self.head);
            let cqe = Cqe::from_words(cq.cqes[slot]);
            let wide = cqe.flags.contains(CqeFlags::F32);

            // A big completion spends two 16-byte slots on a mixed ring; on a
            // dedicated CQE32 ring the stride already covers it.
            let slots: u32 = if wide && cq.cqe_shift == 0 {
                2
            } else {
                1
            };
            let big = if wide || cq.cqe_shift == 1 {
                let words = cq.cqes[slot + 1];
                Some([words.0, words.1])
            } else {
                None
            };

            proof {
                queue::lemma_after_after(cq@.head, self.consumed as int, slots as int);
                queue::lemma_after_ahead(self.head, self.tail);
                queue::lemma_after_after(from, slots as int, left - slots);
                queue::lemma_ahead_of_after(queue::after(from, slots as int), left - slots);
            }
            self.head = self.head.wrapping_add(slots);
            self.consumed += slots;

            // Padding posted to fill a wrap gap. It occupies a slot but is not a
            // completion, so consume it and keep going.
            if cqe.flags.contains(CqeFlags::SKIP) {
                continue;
            }
            return Some(Completion { cqe, big });
        }
        proof {
            assert(queue::ahead(self.head, self.tail) == 0);
        }
        None
    }

    /// Release what has been walked over back to the kernel, leaving the rest for
    /// the next batch.
    pub fn finish(self, cq: &mut CqRing)
        requires
            old(cq).wf(),
            self.wf(old(cq)@),
        ensures
            final(cq).wf(),
            final(cq)@ == (CqView {
                head: queue::after(old(cq)@.head, self.taken()),
                ..old(cq)@
            }),
            final(cq)@.ready() == old(cq)@.ready() - self.taken(),
            final(cq)@.waiting() == self.rest(old(cq)@),
            final(cq)@.is_well_posted(),
    {
        let ghost before = cq@;
        cq.advance(self.consumed);
        proof {
            let n = (before.ready() - self.consumed) as nat;
            lemma_head_is_immaterial(before, cq@.head, cq@.head, n);
        }
    }
}

/// What a stretch of slots holds does not depend on where the head is.
proof fn lemma_head_is_immaterial(cq: CqView, head: u32, from: u32, left: nat)
    ensures
        (CqView { head, ..cq }).batch(from, left) == cq.batch(from, left),
        (CqView { head, ..cq }).well_posted(from, left) == cq.well_posted(from, left),
    decreases left,
{
    let n = cq.spends(from);
    if n <= left && left > 0 {
        lemma_head_is_immaterial(cq, head, queue::after(from, n), (left - n) as nat);
    }
}

/// The flags that decide how a completion is read are these bits.
proof fn lemma_bits(bits: u32)
    ensures
        (bits & CqeFlags::NOTIF == CqeFlags::NOTIF) == (bits / 8 % 2 == 1),
        (bits & CqeFlags::SKIP == CqeFlags::SKIP) == (bits / 32 % 2 == 1),
        (bits & CqeFlags::F32 == CqeFlags::F32) == (bits / 32768 % 2 == 1),
{
    assert(((bits & (1u32 << 3) == (1u32 << 3)) == (bits / 8 % 2 == 1)) && ((bits & (1u32 << 5) == (
    1u32 << 5)) == (bits / 32 % 2 == 1)) && ((bits & (1u32 << 15) == (1u32 << 15)) == (bits / 32768
        % 2 == 1))) by (bit_vector);
}

/// The whole of `res` is in the result. A completion that is no notification has
/// failed exactly where `res` is negative, with the errno it is the negation of, and
/// has otherwise succeeded with `res` itself, however large. A notification, which
/// bit 3 of the flags says it is, is neither, and tells by the sign whether the data
/// was copied.
pub proof fn lemma_a_result_is_the_whole_of_res(cqe: Cqe)
    requires
        cqe.flags.bits / 8 % 2 == 1 || cqe.res != i32::MIN,
    ensures
        match result_of(cqe) {
            CqeResult::Value(value) => {
                &&& cqe.flags.bits / 8 % 2 == 0
                &&& value as int == cqe.res as int
            },
            CqeResult::Error(errno) => {
                &&& cqe.flags.bits / 8 % 2 == 0
                &&& errno.0 > 0
                &&& errno.0 as int == -(cqe.res as int)
            },
            CqeResult::Notification { copied } => {
                &&& cqe.flags.bits / 8 % 2 == 1
                &&& copied == (cqe.res < 0)
            },
        },
{
    lemma_bits(cqe.flags.bits);
    lemma_copied_is_the_sign(cqe.res);
}

/// What a completion says depends on nothing but `res` and the notification flag:
/// neither the token nor a buffer, nor more to come, changes the result.
pub proof fn lemma_a_result_depends_on_res_alone(a: Cqe, b: Cqe)
    requires
        a.res == b.res,
        a.flags.bits / 8 % 2 == b.flags.bits / 8 % 2,
    ensures
        result_of(a) == result_of(b),
{
    lemma_bits(a.flags.bits);
    lemma_bits(b.flags.bits);
}

/// The entry at an index lies in its slot, and slots are taken in turn: twice as far
/// in where completions are 32 bytes long.
pub proof fn lemma_completions_lie_in_turn(cq: CqView, from: u32, i: int)
    requires
        queue::is_mask(cq.entries, cq.mask),
        cq.cqe_shift <= 1,
        0 <= i,
    ensures
        cq.cqe_shift == 0 ==> cq.slot(queue::after(from, i)) == (from + i) % (cq.entries as int),
        cq.cqe_shift == 1 ==> cq.slot(queue::after(from, i)) == 2 * ((from + i) % (
        cq.entries as int)),
        cq.places() == cq.entries * (cq.cqe_shift + 1),
{
    queue::lemma_slots_are_taken_in_turn(cq.entries, cq.mask, from, i);
}

/// One entry of a walk, read off the words in its slot. The token is the first word;
/// the result is the lower half of the second and the flags the upper. Bit 5 of them
/// makes it padding, which is passed over. Bit 15 makes it a wide one, which brings
/// the 16 bytes behind it and on a ring of narrow ones spends a slot more. Whatever
/// comes after that is what comes next.
pub proof fn lemma_a_walk_reads_each_entry(cq: CqView, from: u32, left: nat)
    requires
        cq.cqe_shift <= 1,
    ensures
        cq.batch(from, 0) == Seq::<(Cqe, Option<[u64; 2]>)>::empty(),
        ({
            let words = cq.cqes[cq.slot(from)];
            let flags = words.1 / 0x1_0000_0000;
            let wide = flags / 32768 % 2 == 1;
            let n = if wide && cq.cqe_shift == 0 {
                2int
            } else {
                1
            };
            let rest = cq.batch(queue::after(from, n), (left - n) as nat);
            let batch = cq.batch(from, left);
            n <= left ==> if flags / 32 % 2 == 1 {
                batch == rest
            } else {
                let (cqe, big) = batch[0];
                &&& batch.len() == rest.len() + 1
                &&& batch.skip(1) == rest
                &&& cqe.user_data == words.0
                &&& sys::stored(cqe.res) == words.1 % 0x1_0000_0000
                &&& cqe.flags.bits == flags
                &&& big is Some == (wide || cq.cqe_shift == 1)
                &&& big matches Some(more) ==> more@ == seq![
                    cq.cqes[cq.slot(from) + 1].0,
                    cq.cqes[cq.slot(from) + 1].1,
                ]
            }
        }),
{
    let words = cq.cqes[cq.slot(from)];
    sys::lemma_a_completion_is_its_words(words);
    lemma_bits(cq.at(from).flags.bits);
    let n = cq.spends(from);
    let rest = cq.batch(queue::after(from, n), (left - n) as nat);
    if n <= left && !cq.is_padding(from) {
        assert(cq.batch(from, left).skip(1) =~= rest);
    }
}

/// Where every entry is narrow and none is padding, a walk brings every one that is
/// ready, in the order they were posted, and nothing else.
pub proof fn lemma_a_walk_brings_everything(cq: CqView, from: u32, left: nat, i: int)
    requires
        queue::is_mask(cq.entries, cq.mask),
        cq.cqe_shift == 0,
        0 <= i < left,
        forall|j: int|
            0 <= j < left ==> {
                let words = #[trigger] cq.cqes[cq.slot(queue::after(from, j))];
                &&& words.1 / 0x1_0000_0000 / 32 % 2 == 0
                &&& words.1 / 0x1_0000_0000 / 32768 % 2 == 0
            },
    ensures
        cq.batch(from, left).len() == left,
        cq.batch(from, left)[i].0.user_data == cq.cqes[cq.slot(queue::after(from, i))].0,
        sys::stored(cq.batch(from, left)[i].0.res) == cq.cqes[cq.slot(queue::after(from, i))].1
            % 0x1_0000_0000,
        cq.batch(from, left)[i].1 is None,
        cq.well_posted(from, left),
    decreases left,
{
    lemma_a_walk_reads_each_entry(cq, from, left);
    sys::lemma_a_completion_is_its_words(cq.cqes[cq.slot(from)]);
    lemma_bits(cq.at(from).flags.bits);
    queue::lemma_slot_in_range(cq.entries, cq.mask, from);
    assert(queue::after(from, 0) == from);
    let words = cq.cqes[cq.slot(queue::after(from, 0))];
    assert(words.1 / 0x1_0000_0000 / 32 % 2 == 0);
    assert(cq.spends(from) == 1);
    reveal_with_fuel(CqView::well_posted, 2);
    let next = queue::after(from, 1);
    let fewer = (left - 1) as nat;
    let batch = cq.batch(from, left);
    if fewer > 0 {
        assert forall|j: int| 0 <= j < fewer implies {
            let words = #[trigger] cq.cqes[cq.slot(queue::after(next, j))];
            &&& words.1 / 0x1_0000_0000 / 32 % 2 == 0
            &&& words.1 / 0x1_0000_0000 / 32768 % 2 == 0
        } by {
            queue::lemma_after_after(from, 1, j);
            let words = cq.cqes[cq.slot(queue::after(from, 1 + j))];
            assert(words.1 / 0x1_0000_0000 / 32 % 2 == 0);
        }
        let k = if i > 0 {
            i - 1
        } else {
            0
        };
        lemma_a_walk_brings_everything(cq, next, fewer, k);
        queue::lemma_after_after(from, 1, k);
        assert(batch.skip(1)[k] == batch[k + 1]);
    } else {
        lemma_a_walk_reads_each_entry(cq, next, 0);
    }
}

/// Only wide completions can be posted against the promise: one that is cut off by
/// the end of what is ready, or by the end of the array.
pub proof fn lemma_what_is_not_well_posted(cq: CqView, from: u32, left: nat)
    requires
        cq.cqe_shift == 0,
        left > 0,
        cq.cqes[cq.slot(from)].1 / 0x1_0000_0000 / 32768 % 2 == 1,
    ensures
        left == 1 ==> !cq.well_posted(from, left),
        cq.slot(from) + 1 == cq.places() ==> !cq.well_posted(from, left),
{
    sys::lemma_a_completion_is_its_words(cq.cqes[cq.slot(from)]);
    lemma_bits(cq.at(from).flags.bits);
}

/// A walk that goes on by one comes over as few slots as bring a completion: none
/// fewer bring any, these bring one, and what is left of the walk is behind them.
pub proof fn lemma_a_step_takes_no_more_than_it_brings(
    cq: CqView,
    from: u32,
    left: nat,
    fewer: nat,
)
    requires
        cq.well_posted(from, left),
    ensures
        ({
            let n = cq.through_next(from, left);
            &&& n <= left
            &&& fewer < n ==> cq.batch(from, fewer).len() == 0
            &&& cq.batch(from, left) == cq.batch(from, n) + cq.batch(
                queue::after(from, n as int),
                (left - n) as nat,
            )
            &&& cq.batch(from, n).len() == if cq.batch(from, left).len() > 0 {
                1nat
            } else {
                0
            }
            &&& cq.batch(from, left).len() == 0 ==> n == left
        }),
    decreases left,
{
    let n = cq.through_next(from, left);
    let s = cq.spends(from);
    if left > 0 {
        let next = queue::after(from, s);
        let rest = (left - s) as nat;
        if cq.is_padding(from) {
            let behind = if fewer >= s {
                (fewer - s) as nat
            } else {
                0
            };
            lemma_a_step_takes_no_more_than_it_brings(cq, next, rest, behind);
            let m = cq.through_next(next, rest);
            queue::lemma_after_after(from, s, m as int);
            assert((n - s) as nat == m);
        } else {
            let none = cq.batch(next, 0);
            assert(none =~= Seq::<(Cqe, Option<[u64; 2]>)>::empty());
            assert(cq.batch(from, s as nat) =~= seq![cq.completion(from)]);
            assert(cq.batch(from, left) =~= seq![cq.completion(from)] + cq.batch(next, rest));
        }
    } else {
        assert(queue::after(from, 0) == from);
        assert(cq.batch(from, 0) + cq.batch(from, 0) =~= cq.batch(from, 0));
    }
}

/// A completion queue is what the region holds where the offsets say: every control
/// word is the one at its own offset, the flags only where the kernel has them, and
/// the array is one empty entry for each slot, or two where they are 32 bytes long.
pub proof fn lemma_resolved_by_the_offsets(params: Params, region: Seq<u32>, ring_sz: u64, i: int)
    requires
        cq_words_fit(region, params.cq_off),
    ensures
        ({
            let cq = resolved(params, region, ring_sz);
            let off = params.cq_off;
            let wide = params.flags.bits & 2048 != 0;
            &&& cq.head == region[(off.head / 4) as int]
            &&& cq.tail == region[(off.tail / 4) as int]
            &&& cq.mask == region[(off.ring_mask / 4) as int]
            &&& cq.entries == region[(off.ring_entries / 4) as int]
            &&& cq.overflow == region[(off.overflow / 4) as int]
            &&& cq.flags is None == (off.flags == 0)
            &&& cq.flags matches Some(flags) ==> flags == region[(off.flags / 4) as int]
            &&& cq.ring_sz == ring_sz
            &&& cq.cqe_shift == if wide {
                1u32
            } else {
                0
            }
            &&& cq.cqes.len() == cq.entries * if wide {
                2int
            } else {
                1
            }
            &&& 0 <= i < cq.cqes.len() ==> cq.cqes[i] == (0u64, 0u64)
        }),
{
    let bits = params.flags.bits;
    assert((bits & (1u32 << 11) == (1u32 << 11)) == (bits & 2048 != 0)) by (bit_vector);
}

/// What waits to be read begins at the head, and is what a walk over everything up to
/// the tail brings. Nothing waits where the two are the same.
pub proof fn lemma_what_waits(cq: CqView)
    ensures
        cq.ready() == (cq.tail - cq.head) % 0x1_0000_0000,
        cq.ready() == 0 <==> cq.head == cq.tail,
        cq.waiting() == cq.batch(cq.head, cq.ready() as nat),
        cq.ready() == 0 ==> cq.waiting().len() == 0,
        cq.is_well_posted() <==> cq.well_posted(cq.head, cq.ready() as nat),
{
    lemma_nothing_left(cq, cq.head);
}

/// A walk over no slots brings nothing.
proof fn lemma_nothing_left(cq: CqView, from: u32)
    ensures
        cq.batch(from, 0).len() == 0,
{
}

/// A step of a walk comes over at least one slot while there are any, and never beyond
/// the tail. What the walk has yet to bring after it is what it had before, without the
/// first.
pub proof fn lemma_what_a_step_leaves(cq: CqView, taken: int)
    requires
        0 <= taken <= cq.ready(),
        cq.well_posted(queue::after(cq.head, taken), (cq.ready() - taken) as nat),
    ensures
        ({
            let next = cq.taken_next(taken);
            let before = cq.batch(queue::after(cq.head, taken), (cq.ready() - taken) as nat);
            let then = cq.batch(queue::after(cq.head, next), (cq.ready() - next) as nat);
            &&& taken <= next <= cq.ready()
            &&& taken < cq.ready() ==> taken < next
            &&& before.len() > 0 ==> then == before.skip(1)
            &&& before.len() == 0 ==> next == cq.ready()
        }),
{
    let from = queue::after(cq.head, taken);
    let left = (cq.ready() - taken) as nat;
    let n = cq.through_next(from, left);
    lemma_a_step_takes_no_more_than_it_brings(cq, from, left, 0);
    queue::lemma_after_after(cq.head, taken, n as int);
    let (one, rest) = (
        cq.batch(from, n),
        cq.batch(queue::after(from, n as int), (left - n) as nat),
    );
    if cq.batch(from, left).len() > 0 {
        assert((one + rest).skip(1) =~= rest);
    }
}

/// What the kernel promises of what it posts: each entry is there whole, and does not
/// straddle the end of the array. A wide one on a ring of narrow ones takes two slots.
pub proof fn lemma_what_is_well_posted(cq: CqView, from: u32, left: nat)
    requires
        cq.cqe_shift <= 1,
        left > 0,
    ensures
        cq.well_posted(from, 0),
        ({
            let words = cq.cqes[cq.slot(from)];
            let n = if words.1 / 0x1_0000_0000 / 32768 % 2 == 1 && cq.cqe_shift == 0 {
                2int
            } else {
                1
            };
            cq.well_posted(from, left) <==> n <= left && cq.slot(from) + n <= cq.entries * (
            cq.cqe_shift + 1) && cq.well_posted(queue::after(from, n), (left - n) as nat)
        }),
{
    sys::lemma_a_completion_is_its_words(cq.cqes[cq.slot(from)]);
    lemma_bits(cq.at(from).flags.bits);
}

} // verus!
