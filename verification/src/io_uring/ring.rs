//! A ring: its descriptor, its two queues, and how it is set up and torn down.
//!
//! `io_uring_setup` reports where each control word lives as a byte offset into
//! the mapped region rather than fixing a layout, because the kernel's ring
//! header has changed shape across versions. Those offsets are resolved once,
//! and after that only `features` and `flags` of [`Params`] matter.
//!
//! The system calls themselves are made elsewhere: the functions here say which
//! to make, and take in what came of them.

use vstd::prelude::*;

use super::cq;
use super::cq::CqRing;
use super::flags::{EnterFlags, Features, RsrcRegisterFlags, SetupFlags, SqRingFlags};
use super::queue;
use super::sq;
use super::sq::SqRing;
use super::sys;
use super::sys::{FileIndexRange, Params, RegisterOp, RsrcRegister, RsrcUpdate, SqRingOffsets};
use super::syscall::Errno;

verus! {

/// Bytes of one completion entry.
pub const CQE_SIZE: u64 = 16;

/// Bytes of one submission entry.
pub const SQE_SIZE: u64 = 64;

/// Every bit of `mask` is set in `bits`.
pub open spec fn has(bits: u32, mask: u32) -> bool {
    bits & mask == mask
}

/// The sizes of a ring's three segments, in bytes.
#[derive(Clone, Copy, Debug, PartialEq, Eq, Structural)]
pub struct Layout {
    pub sq_sz: u64,
    pub cq_sz: u64,
    pub sqes_sz: u64,
    /// Both queues share one mapping.
    pub single: bool,
}

/// The larger of two numbers.
pub open spec fn larger(a: int, b: int) -> int {
    if a >= b {
        a
    } else {
        b
    }
}

/// The furthest control word the kernel placed in the SQ region.
pub open spec fn last_word(off: SqRingOffsets) -> int {
    larger(
        larger(
            larger(off.head as int, off.tail as int),
            larger(off.ring_mask as int, off.ring_entries as int),
        ),
        larger(off.flags as int, off.dropped as int),
    )
}

/// Bytes of the SQ region: the index array sits at its tail. Where there is no
/// such array the kernel reports its offset as zero, and the region is the
/// header itself, up to and including the furthest control word.
pub open spec fn sq_bytes(params: Params) -> int {
    if has(params.flags.bits, SetupFlags::NO_SQARRAY) {
        last_word(params.sq_off) + 4
    } else {
        params.sq_off.array + params.sq_entries * 4
    }
}

/// Bytes of the CQ region: the CQE array sits at its tail.
pub open spec fn cq_bytes(params: Params) -> int {
    params.cq_off.cqes + params.cq_entries * 16 * if has(params.flags.bits, SetupFlags::CQE32) {
        2int
    } else {
        1int
    }
}

/// Bytes of the SQE array.
pub open spec fn sqes_bytes(params: Params) -> int {
    params.sq_entries * 64 * if has(params.flags.bits, SetupFlags::SQE128) {
        2int
    } else {
        1int
    }
}

/// The segments of the ring `params` describes. A shared mapping is as large as
/// the larger of the two it serves.
pub open spec fn layout_of(params: Params) -> Layout {
    let single = has(params.features.bits, Features::SINGLE_MMAP);
    let shared = larger(sq_bytes(params), cq_bytes(params));
    Layout {
        sq_sz: (if single { shared } else { sq_bytes(params) }) as u64,
        cq_sz: (if single { shared } else { cq_bytes(params) }) as u64,
        sqes_sz: sqes_bytes(params) as u64,
        single,
    }
}

/// The sizes fit their width, so that what is mapped is what is needed.
pub proof fn lemma_layout_is_exact(params: Params)
    ensures
        layout_of(params).sqes_sz == sqes_bytes(params),
        layout_of(params).sq_sz >= sq_bytes(params),
        layout_of(params).cq_sz >= cq_bytes(params),
        !layout_of(params).single ==> layout_of(params).sq_sz == sq_bytes(params)
            && layout_of(params).cq_sz == cq_bytes(params),
        layout_of(params).single ==> layout_of(params).sq_sz == layout_of(params).cq_sz,
        has(params.flags.bits, SetupFlags::NO_SQARRAY) ==> {
            let end = layout_of(params).sq_sz;
            let off = params.sq_off;
            &&& off.head + 4 <= end
            &&& off.tail + 4 <= end
            &&& off.ring_mask + 4 <= end
            &&& off.ring_entries + 4 <= end
            &&& off.flags + 4 <= end
            &&& off.dropped + 4 <= end
        },
{
}

/// The larger of two offsets.
fn max_offset(a: u32, b: u32) -> (max: u32)
    ensures
        max == larger(a as int, b as int),
{
    if a >= b {
        a
    } else {
        b
    }
}

/// Work out how much of each segment there is to map.
pub fn layout(params: &Params) -> (layout: Layout)
    ensures
        layout == layout_of(*params),
{
    let off = &params.sq_off;
    let mut sq_sz: u64 = if params.flags.contains(SetupFlags::NO_SQARRAY) {
        let last = max_offset(
            max_offset(max_offset(off.head, off.tail), max_offset(off.ring_mask, off.ring_entries)),
            max_offset(off.flags, off.dropped),
        );
        last as u64 + 4
    } else {
        off.array as u64 + params.sq_entries as u64 * 4
    };
    let cqes = params.cq_entries as u64 * CQE_SIZE;
    let mut cq_sz: u64 = params.cq_off.cqes as u64 + if params.flags.contains(SetupFlags::CQE32) {
        cqes * 2
    } else {
        cqes
    };
    let single = params.features.contains(Features::SINGLE_MMAP);
    if single {
        if sq_sz < cq_sz {
            sq_sz = cq_sz;
        }
        cq_sz = sq_sz;
    }
    let sqes = params.sq_entries as u64 * SQE_SIZE;
    let sqes_sz: u64 = if params.flags.contains(SetupFlags::SQE128) {
        sqes * 2
    } else {
        sqes
    };
    Layout { sq_sz, cq_sz, sqes_sz, single }
}

/// A mapping: where it is and how long.
#[derive(Clone, Copy, Debug, PartialEq, Eq, Structural)]
pub struct Segment {
    pub addr: u64,
    pub len: u64,
}

/// The segments of a ring, all mapped. The CQ's is the SQ's where they share.
#[derive(Clone, Copy, Debug, PartialEq, Eq, Structural)]
pub struct Segments {
    pub sq: u64,
    pub cq: u64,
    pub sqes: u64,
}

/// How far the mapping of a ring has come.
#[derive(Clone, Copy, Debug, PartialEq, Eq, Structural)]
pub enum MapStep {
    /// Nothing is mapped; the SQ region is next.
    Sq,
    /// The SQ region is mapped; the CQ region is next.
    Cq { sq: u64 },
    /// Both queues are mapped; the SQE array is next.
    Sqes { sq: u64, cq: u64 },
}

/// What there is to do after a segment has been mapped, or not.
#[derive(Debug)]
pub enum MapNext {
    /// Map the next one.
    Step(MapStep),
    /// Everything is mapped.
    Ready(Segments),
    /// Unmap these, in this order, and give up.
    Failed(Vec<Segment>, Errno),
}

/// What has been mapped so far, the last one first.
pub open spec fn made(step: MapStep, layout: Layout) -> Seq<Segment> {
    match step {
        MapStep::Sq => seq![],
        MapStep::Cq { sq } => seq![Segment { addr: sq, len: layout.sq_sz }],
        MapStep::Sqes { sq, cq } => if layout.single {
            seq![Segment { addr: sq, len: layout.sq_sz }]
        } else {
            seq![
                Segment { addr: cq, len: layout.cq_sz },
                Segment { addr: sq, len: layout.sq_sz },
            ]
        },
    }
}

/// The length and file offset of the segment that comes next.
pub open spec fn wanted(step: MapStep, layout: Layout) -> (u64, u64) {
    match step {
        MapStep::Sq => (layout.sq_sz, sys::OFF_SQ_RING),
        MapStep::Cq { .. } => (layout.cq_sz, sys::OFF_CQ_RING),
        MapStep::Sqes { .. } => (layout.sqes_sz, sys::OFF_SQES),
    }
}

impl MapStep {
    /// The length and file offset to map.
    pub fn request(self, layout: &Layout) -> (request: (u64, u64))
        ensures
            request == wanted(self, *layout),
    {
        match self {
            MapStep::Sq => (layout.sq_sz, sys::OFF_SQ_RING),
            MapStep::Cq { .. } => (layout.cq_sz, sys::OFF_CQ_RING),
            MapStep::Sqes { .. } => (layout.sqes_sz, sys::OFF_SQES),
        }
    }

    /// Go on from what came of mapping that.
    pub fn mapped(self, layout: &Layout, result: Result<u64, Errno>) -> (next: MapNext)
        requires
            self is Cq ==> !layout.single,
            self matches MapStep::Sqes { sq, cq } ==> layout.single ==> cq == sq,
        ensures
            match result {
                Err(e) => next matches MapNext::Failed(undo, error) && undo@ == made(self, *layout)
                    && error == e,
                Ok(addr) => match self {
                    MapStep::Sq => if layout.single {
                        next == MapNext::Step(MapStep::Sqes { sq: addr, cq: addr })
                    } else {
                        next == MapNext::Step(MapStep::Cq { sq: addr })
                    },
                    MapStep::Cq { sq } => next == MapNext::Step(MapStep::Sqes { sq, cq: addr }),
                    MapStep::Sqes { sq, cq } => next == MapNext::Ready(
                        Segments { sq, cq, sqes: addr },
                    ),
                },
            },
    {
        match result {
            Err(e) => {
                let mut undo: Vec<Segment> = Vec::new();
                match self {
                    MapStep::Sq => {},
                    MapStep::Cq { sq } => {
                        undo.push(Segment { addr: sq, len: layout.sq_sz });
                    },
                    MapStep::Sqes { sq, cq } => {
                        if !layout.single {
                            undo.push(Segment { addr: cq, len: layout.cq_sz });
                        }
                        undo.push(Segment { addr: sq, len: layout.sq_sz });
                    },
                }
                proof {
                    assert(undo@ =~= made(self, *layout));
                }
                MapNext::Failed(undo, e)
            },
            Ok(addr) => match self {
                MapStep::Sq => if layout.single {
                    MapNext::Step(MapStep::Sqes { sq: addr, cq: addr })
                } else {
                    MapNext::Step(MapStep::Cq { sq: addr })
                },
                MapStep::Cq { sq } => MapNext::Step(MapStep::Sqes { sq, cq: addr }),
                MapStep::Sqes { sq, cq } => MapNext::Ready(Segments { sq, cq, sqes: addr }),
            },
        }
    }
}

impl Layout {
    /// What to unmap, in order, where everything has been mapped and no ring came of
    /// it: the completion queue is not unmapped twice where it shares a mapping.
    pub fn teardown(&self, segments: &Segments) -> (unmap: Vec<Segment>)
        ensures
            unmap@ == seq![
                Segment { addr: segments.sqes, len: self.sqes_sz },
                Segment { addr: segments.sq, len: self.sq_sz },
            ] + if self.single {
                seq![]
            } else {
                seq![Segment { addr: segments.cq, len: self.cq_sz }]
            },
    {
        let mut unmap: Vec<Segment> = Vec::new();
        unmap.push(Segment { addr: segments.sqes, len: self.sqes_sz });
        unmap.push(Segment { addr: segments.sq, len: self.sq_sz });
        if !self.single {
            unmap.push(Segment { addr: segments.cq, len: self.cq_sz });
        }
        proof {
            assert(unmap@ =~= seq![
                Segment { addr: segments.sqes, len: self.sqes_sz },
                Segment { addr: segments.sq, len: self.sq_sz },
            ] + if self.single {
                seq![]
            } else {
                seq![Segment { addr: segments.cq, len: self.cq_sz }]
            });
        }
        unmap
    }
}

/// Each step that succeeds adds the mapping it asked for to those to be undone,
/// and nothing else.
pub proof fn lemma_nothing_mapped_is_forgotten(layout: Layout, sq: u64, cq: u64)
    ensures
        made(MapStep::Sq, layout) == Seq::<Segment>::empty(),
        !layout.single ==> made(MapStep::Cq { sq }, layout) == seq![
            Segment { addr: sq, len: wanted(MapStep::Sq, layout).0 },
        ] + made(MapStep::Sq, layout),
        layout.single ==> made(MapStep::Sqes { sq, cq: sq }, layout) == seq![
            Segment { addr: sq, len: wanted(MapStep::Sq, layout).0 },
        ] + made(MapStep::Sq, layout),
        !layout.single ==> made(MapStep::Sqes { sq, cq }, layout) == seq![
            Segment { addr: cq, len: wanted(MapStep::Cq { sq }, layout).0 },
        ] + made(MapStep::Cq { sq }, layout),
{
    assert(made(MapStep::Sq, layout) =~= Seq::<Segment>::empty());
    assert(made(MapStep::Cq { sq }, layout) =~= seq![Segment { addr: sq, len: layout.sq_sz }]
        + made(MapStep::Sq, layout));
    if layout.single {
        assert(made(MapStep::Sqes { sq, cq: sq }, layout) =~= seq![
            Segment { addr: sq, len: layout.sq_sz },
        ] + made(MapStep::Sq, layout));
    } else {
        assert(made(MapStep::Sqes { sq, cq }, layout) =~= seq![
            Segment { addr: cq, len: layout.cq_sz },
        ] + made(MapStep::Cq { sq }, layout));
    }
}

/// The SQ region holds what the kernel writes there: control words where the
/// offsets say, a mask that goes with the number of entries, and no more pending
/// than there are.
pub open spec fn sq_region_fits(params: Params, region: Seq<u32>) -> bool {
    let off = params.sq_off;
    let entries = sq::word_at(region, off.ring_entries);
    &&& sq::sq_words_fit(region, off)
    &&& queue::is_mask(entries, sq::word_at(region, off.ring_mask))
    &&& entries * 2 <= usize::MAX
    &&& queue::ahead(sq::word_at(region, off.head), sq::word_at(region, off.tail)) <= entries
}

/// The same of the CQ region.
pub open spec fn cq_region_fits(params: Params, region: Seq<u32>) -> bool {
    let off = params.cq_off;
    let entries = sq::word_at(region, off.ring_entries);
    &&& cq::cq_words_fit(region, off)
    &&& queue::is_mask(entries, sq::word_at(region, off.ring_mask))
    &&& entries * 2 <= usize::MAX
    &&& queue::ahead(sq::word_at(region, off.head), sq::word_at(region, off.tail)) <= entries
}

/// Whether a region holds what a queue can be resolved against.
fn region_fits(
    region: &Vec<u32>,
    head: u32,
    tail: u32,
    ring_mask: u32,
    ring_entries: u32,
) -> (fits: bool)
    requires
        sq::has_word(region@, head),
        sq::has_word(region@, tail),
        sq::has_word(region@, ring_mask),
        sq::has_word(region@, ring_entries),
    ensures
        fits == ({
            let entries = sq::word_at(region@, ring_entries);
            &&& queue::is_mask(entries, sq::word_at(region@, ring_mask))
            &&& entries * 2 <= usize::MAX
            &&& queue::ahead(sq::word_at(region@, head), sq::word_at(region@, tail)) <= entries
        }),
{
    let entries = sq::load_word(region, ring_entries);
    let mask = sq::load_word(region, ring_mask);
    let pending = sq::load_word(region, tail).wrapping_sub(sq::load_word(region, head));
    entries >= 1 && mask == entries - 1 && entries & mask == 0 && entries as usize <= usize::MAX / 2
        && pending <= entries
}

/// Whether the mapped segments hold what [`Ring::map`] can resolve.
pub fn regions_fit(params: &Params, sq_region: &Vec<u32>, cq_region: &Vec<u32>) -> (fit: bool)
    ensures
        fit == (sq_region_fits(*params, sq_region@) && cq_region_fits(*params, cq_region@)),
{
    let a = &params.sq_off;
    let b = &params.cq_off;
    sq::holds_word(sq_region, a.head) && sq::holds_word(sq_region, a.tail) && sq::holds_word(
        sq_region,
        a.ring_mask,
    ) && sq::holds_word(sq_region, a.ring_entries) && sq::holds_word(sq_region, a.flags)
        && sq::holds_word(sq_region, a.dropped) && region_fits(
        sq_region,
        a.head,
        a.tail,
        a.ring_mask,
        a.ring_entries,
    ) && sq::holds_word(cq_region, b.head) && sq::holds_word(cq_region, b.tail) && sq::holds_word(
        cq_region,
        b.ring_mask,
    ) && sq::holds_word(cq_region, b.ring_entries) && sq::holds_word(cq_region, b.overflow) && (
    b.flags == 0 || sq::holds_word(cq_region, b.flags)) && region_fits(
        cq_region,
        b.head,
        b.tail,
        b.ring_mask,
        b.ring_entries,
    )
}

/// An io_uring instance: the ring file descriptor and both queues.
#[derive(Debug)]
pub struct Ring {
    sq: SqRing,
    cq: CqRing,
    /// The descriptor from `io_uring_setup`, or `-1` when the ring was created
    /// with [`SetupFlags::REGISTERED_FD_ONLY`] and no descriptor exists.
    ring_fd: i32,
    /// What to pass as the `fd` argument of `io_uring_enter`. Equal to the
    /// descriptor until the ring's own descriptor is registered with
    /// [`Ring::register_ring_fd`], after which it is a registered-ring index.
    enter_ring_fd: u32,
    /// Enter flags implied by the ring's state, to be put into every
    /// `io_uring_enter`. Carries [`EnterFlags::REGISTERED_RING`] once
    /// `enter_ring_fd` is an index rather than a descriptor.
    enter_flags: EnterFlags,
    features: Features,
    flags: SetupFlags,
}

/// What a ring is, but for its queues.
pub struct RingView {
    pub ring_fd: i32,
    pub enter_fd: u32,
    pub enter_flags: u32,
    pub features: Features,
    pub flags: SetupFlags,
}

impl View for Ring {
    type V = RingView;

    closed spec fn view(&self) -> RingView {
        RingView {
            ring_fd: self.ring_fd,
            enter_fd: self.enter_ring_fd,
            enter_flags: self.enter_flags.bits,
            features: self.features,
            flags: self.flags,
        }
    }
}

impl RingView {
    /// `io_uring_enter` addresses the ring by index.
    pub open spec fn enters_by_index(self) -> bool {
        has(self.enter_flags, EnterFlags::REGISTERED_RING)
    }

    /// `io_uring_register` addresses the ring by index.
    pub open spec fn registers_by_index(self) -> bool {
        self.enters_by_index() && (self.ring_fd == -1 || has(
            self.features.bits,
            Features::REG_REG_RING,
        ))
    }

    /// The descriptor or index, and the operation, that `io_uring_register` is
    /// given for `op`.
    pub open spec fn register_target(self, op: RegisterOp) -> (u32, u32) {
        if self.registers_by_index() {
            (self.enter_fd, (op as u32) | sys::REGISTER_USE_REGISTERED_RING)
        } else {
            (self.ring_fd as u32, op as u32)
        }
    }
}

/// What one `io_uring_register` is given.
#[derive(Debug)]
pub struct RegisterCall<A> {
    /// A descriptor, or a registered index if `op` says so.
    pub fd: u32,
    pub op: u32,
    /// What the argument points at.
    pub arg: A,
    pub nr_args: u32,
}

/// Where a descriptor table is, and how many descriptors it has.
#[derive(Clone, Copy, Debug, PartialEq, Eq, Structural)]
pub struct FdTable {
    pub addr: u64,
    pub len: u32,
}

/// There is nothing for the argument to point at.
#[derive(Clone, Copy, Debug, PartialEq, Eq, Structural)]
pub struct NoArg {}

impl Ring {
    /// The submission queue, in the specification.
    pub closed spec fn sq_ring(&self) -> SqRing {
        self.sq
    }

    /// The completion queue, in the specification.
    pub closed spec fn cq_ring(&self) -> CqRing {
        self.cq
    }

    /// Both queues are sound.
    pub open spec fn wf(&self) -> bool {
        self.sq_ring().wf() && self.cq_ring().wf()
    }

    /// A ring out of what `io_uring_setup` returned and its two queues, `params`
    /// being what the kernel negotiated.
    pub fn with_params(fd: u32, params: &Params, sq: SqRing, cq: CqRing) -> (ring: Ring)
        ensures
            ring.sq_ring() == sq,
            ring.cq_ring() == cq,
            ({
                let registered_only = has(params.flags.bits, SetupFlags::REGISTERED_FD_ONLY);
                ring@ == RingView {
                    ring_fd: if registered_only {
                        -1i32
                    } else {
                        fd as i32
                    },
                    enter_fd: fd,
                    enter_flags: if registered_only {
                        EnterFlags::REGISTERED_RING
                    } else {
                        0
                    },
                    features: params.features,
                    flags: params.flags,
                }
            }),
    {
        let registered_only = params.flags.contains(SetupFlags::REGISTERED_FD_ONLY);
        Ring {
            sq,
            cq,
            ring_fd: if registered_only {
                -1
            } else {
                fd as i32
            },
            enter_ring_fd: fd,
            enter_flags: if registered_only {
                EnterFlags::from_bits_retain(EnterFlags::REGISTERED_RING)
            } else {
                EnterFlags::empty()
            },
            features: params.features,
            flags: params.flags,
        }
    }

    /// Resolve the offsets in `params` against what the mapped segments hold, the
    /// CQ region being the SQ region where they share a mapping.
    ///
    /// A shared mapping is owned by the SQ side, so the CQ records a zero length
    /// and leaves it alone at teardown.
    pub fn map(params: &Params, sq_region: &Vec<u32>, cq_region: &Vec<u32>) -> (queues: (
        SqRing,
        CqRing,
    ))
        requires
            sq_region_fits(*params, sq_region@),
            cq_region_fits(*params, cq_region@),
        ensures
            queues.0.wf(),
            queues.1.wf(),
            ({
                let layout = layout_of(*params);
                &&& queues.0@ == sq::resolved(*params, sq_region@, layout.sq_sz, layout.sqes_sz)
                &&& queues.1@ == cq::resolved(
                    *params,
                    cq_region@,
                    if layout.single {
                        0
                    } else {
                        layout.cq_sz
                    },
                )
            }),
    {
        let layout = layout(params);
        let sq = SqRing::new(sq_region, layout.sq_sz, layout.sqes_sz, params);
        let cq = CqRing::new(
            cq_region,
            if layout.single {
                0
            } else {
                layout.cq_sz
            },
            params,
        );
        (sq, cq)
    }

    /// The descriptor to close when a ring could not be mapped after all: none
    /// where what `io_uring_setup` returned is an index and not a descriptor.
    pub fn fd_to_close(fd: u32, params: &Params) -> (close: Option<i32>)
        ensures
            close == if has(params.flags.bits, SetupFlags::REGISTERED_FD_ONLY) {
                None
            } else {
                Some(fd as i32)
            },
    {
        if params.flags.contains(SetupFlags::REGISTERED_FD_ONLY) {
            None
        } else {
            Some(fd as i32)
        }
    }

    /// What to unmap when the ring goes away, in order.
    ///
    /// The CQ's length is zero when it shares the SQ's mapping, so that one is
    /// never unmapped twice.
    pub fn teardown(&self, segments: &Segments) -> (unmap: Vec<Segment>)
        ensures
            unmap@ == seq![
                Segment { addr: segments.sqes, len: self.sq_ring()@.sqes_sz },
                Segment { addr: segments.sq, len: self.sq_ring()@.ring_sz },
            ] + if self.cq_ring()@.ring_sz != 0 {
                seq![Segment { addr: segments.cq, len: self.cq_ring()@.ring_sz }]
            } else {
                seq![]
            },
    {
        let mut unmap: Vec<Segment> = Vec::new();
        unmap.push(Segment { addr: segments.sqes, len: self.sq.sqes_sz() });
        unmap.push(Segment { addr: segments.sq, len: self.sq.ring_sz() });
        if self.cq.ring_sz() != 0 {
            unmap.push(Segment { addr: segments.cq, len: self.cq.ring_sz() });
        }
        proof {
            assert(unmap@ =~= seq![
                Segment { addr: segments.sqes, len: self.sq_ring()@.sqes_sz },
                Segment { addr: segments.sq, len: self.sq_ring()@.ring_sz },
            ] + if self.cq_ring()@.ring_sz != 0 {
                seq![Segment { addr: segments.cq, len: self.cq_ring()@.ring_sz }]
            } else {
                seq![]
            });
        }
        unmap
    }

    /// The submission queue.
    pub fn sq(&self) -> (sq: &SqRing)
        ensures
            *sq == self.sq_ring(),
    {
        &self.sq
    }

    /// The submission queue, to be written to.
    pub fn sq_mut(&mut self) -> (sq: &mut SqRing)
        ensures
            *sq == old(self).sq_ring(),
            final(self).sq_ring() == *final(sq),
            final(self).cq_ring() == old(self).cq_ring(),
            final(self)@ == old(self)@,
    {
        &mut self.sq
    }

    /// The completion queue.
    pub fn cq(&self) -> (cq: &CqRing)
        ensures
            *cq == self.cq_ring(),
    {
        &self.cq
    }

    /// The completion queue, to be released from.
    pub fn cq_mut(&mut self) -> (cq: &mut CqRing)
        ensures
            *cq == old(self).cq_ring(),
            final(self).cq_ring() == *final(cq),
            final(self).sq_ring() == old(self).sq_ring(),
            final(self)@ == old(self)@,
    {
        &mut self.cq
    }

    /// What the kernel reported it supports.
    pub fn features(&self) -> (features: Features)
        ensures
            features == self@.features,
    {
        self.features
    }

    /// The flags this ring was created with, as negotiated.
    pub fn flags(&self) -> (flags: SetupFlags)
        ensures
            flags == self@.flags,
    {
        self.flags
    }

    /// The ring's file descriptor, or `None` under
    /// [`SetupFlags::REGISTERED_FD_ONLY`], where the ring has no descriptor and
    /// exists only as a registered index.
    pub fn fd(&self) -> (fd: Option<i32>)
        ensures
            fd == if self@.ring_fd != -1 {
                Some(self@.ring_fd)
            } else {
                None
            },
    {
        if self.ring_fd != -1 {
            Some(self.ring_fd)
        } else {
            None
        }
    }

    /// The `fd` argument for `io_uring_enter`, to be paired with
    /// [`Ring::enter_flags`].
    pub fn enter_fd(&self) -> (fd: u32)
        ensures
            fd == self@.enter_fd,
    {
        self.enter_ring_fd
    }

    /// Enter flags the ring's state requires. Put these into the flags for every
    /// `io_uring_enter`.
    pub fn enter_flags(&self) -> (flags: EnterFlags)
        ensures
            flags.bits == self@.enter_flags,
    {
        self.enter_flags
    }

    /// Whether completions are waiting that an `io_uring_enter` would deliver.
    ///
    /// When the completion ring fills, the kernel parks further completions in
    /// an internal list and raises [`SqRingFlags::CQ_OVERFLOW`]; they only reach
    /// the ring on the next enter with [`EnterFlags::GETEVENTS`].
    /// [`SqRingFlags::TASKRUN`] means pending task work would post more.
    ///
    /// Both live in the *submission* ring's flags even though they describe the
    /// completion side. An empty [`CqRing`] with this set is not an idle ring.
    ///
    /// # This is not a test for "are there completions"
    ///
    /// [`SqRingFlags::TASKRUN`] is only ever raised by the kernel's *normal*
    /// task-work path, under [`SetupFlags::TASKRUN_FLAG`]. A ring created with
    /// [`SetupFlags::DEFER_TASKRUN`] takes the local path instead and never sets
    /// it, so this reports overflow alone and a `false` says nothing about work
    /// waiting to be run. There is no cheap userspace test in that mode:
    /// completions become visible only inside an `io_uring_enter` carrying
    /// [`EnterFlags::GETEVENTS`].
    pub fn needs_flush(&self) -> (needed: bool)
        ensures
            needed == (self.sq_ring()@.flags & (SqRingFlags::CQ_OVERFLOW | SqRingFlags::TASKRUN)
                != 0),
    {
        self.sq.flags().intersects(SqRingFlags::CQ_OVERFLOW | SqRingFlags::TASKRUN)
    }

    /// Whether `io_uring_register` should address this ring by registered index
    /// rather than by descriptor.
    ///
    /// Registering the ring fd speeds up `io_uring_enter` on every kernel, but
    /// only kernels advertising [`Features::REG_REG_RING`] also accept the index
    /// for `io_uring_register`. Under [`SetupFlags::REGISTERED_FD_ONLY`] there is
    /// no descriptor, so the index is the only option.
    fn register_by_index(&self) -> (by_index: bool)
        ensures
            by_index == self@.registers_by_index(),
    {
        self.enter_flags.contains(EnterFlags::REGISTERED_RING) && (self.ring_fd == -1
            || self.features.contains(Features::REG_REG_RING))
    }

    /// The descriptor or the registered index, as the kernel allows, and the
    /// operation that goes with it, for `io_uring_register` against this ring.
    pub fn register(&self, op: RegisterOp) -> (target: (u32, u32))
        ensures
            target == self@.register_target(op),
    {
        if self.register_by_index() {
            (self.enter_ring_fd, op as u32 | sys::REGISTER_USE_REGISTERED_RING)
        } else {
            (self.ring_fd as u32, op as u32)
        }
    }

    /// Register the ring's own descriptor with itself, so that subsequent
    /// `io_uring_enter` calls pass a small index instead of a file descriptor.
    ///
    /// This skips the `fdget`/`fdput` the kernel would otherwise do on every
    /// enter. What came of the call is taken in by
    /// [`Ring::ring_fd_registered`].
    ///
    /// Fails with [`Errno::EXIST`] if the ring fd is already registered.
    pub fn register_ring_fd(&self) -> (call: Result<RegisterCall<RsrcUpdate>, Errno>)
        ensures
            match call {
                Ok(call) => {
                    &&& !self@.enters_by_index()
                    &&& (call.fd, call.op) == self@.register_target(RegisterOp::RingFds)
                    &&& call.arg.offset == 0xffff_ffff
                    &&& call.arg.resv == 0
                    &&& call.arg.data == self@.ring_fd as u64
                    &&& call.nr_args == 1
                },
                Err(e) => self@.enters_by_index() && e == Errno(Errno::EXIST),
            },
    {
        if self.enter_flags.contains(EnterFlags::REGISTERED_RING) {
            return Err(Errno(Errno::EXIST));
        }
        let arg = RsrcUpdate { offset: 0xffff_ffff, resv: 0, data: self.ring_fd as u64 };
        let (fd, op) = self.register(RegisterOp::RingFds);
        Ok(RegisterCall { fd, op, arg, nr_args: 1 })
    }

    /// Take in what came of registering the descriptor, `offset` being the slot
    /// the kernel wrote back. After success [`Ring::enter_fd`] is an index and
    /// [`Ring::enter_flags`] carries [`EnterFlags::REGISTERED_RING`].
    pub fn ring_fd_registered(&mut self, result: Result<u32, Errno>, offset: u32) -> (done: Result<
        (),
        Errno,
    >)
        ensures
            match result {
                Ok(1) => {
                    &&& done is Ok
                    &&& final(self)@ == (RingView {
                        enter_fd: offset,
                        enter_flags: old(self)@.enter_flags | EnterFlags::REGISTERED_RING,
                        ..old(self)@
                    })
                },
                Ok(_) => done == Err::<(), Errno>(Errno(Errno::INVAL)) && final(self)@
                    == old(self)@,
                Err(e) => done == Err::<(), Errno>(e) && final(self)@ == old(self)@,
            },
            final(self).sq_ring() == old(self).sq_ring(),
            final(self).cq_ring() == old(self).cq_ring(),
    {
        match result {
            Err(e) => Err(e),
            Ok(n) => {
                if n != 1 {
                    return Err(Errno(Errno::INVAL));
                }
                self.enter_ring_fd = offset;
                self.enter_flags = self.enter_flags.with(EnterFlags::REGISTERED_RING);
                Ok(())
            },
        }
    }

    /// Register `nr` empty direct descriptor slots.
    ///
    /// The table's size is fixed here for the life of the registration: there is
    /// no register operation that grows it, and re-registering over a live table
    /// fails with `EBUSY`. Growing means [`Ring::unregister_files`] first, which
    /// drops every descriptor in it, so pick a capacity that covers the peak.
    ///
    /// `nr` counts against `RLIMIT_NOFILE` even though the slots are empty, so a
    /// table larger than the soft limit fails with `EMFILE`.
    ///
    /// The kernel takes the size of the argument rather than an element count.
    pub fn register_files_sparse(&self, nr: u32) -> (call: RegisterCall<RsrcRegister>)
        ensures
            (call.fd, call.op) == self@.register_target(RegisterOp::Files2),
            call.arg == (RsrcRegister {
                nr,
                flags: RsrcRegisterFlags { bits: RsrcRegisterFlags::SPARSE },
                resv: 0,
                data: 0,
                tags: 0,
            }),
            call.nr_args == 32,
    {
        let arg = RsrcRegister {
            nr,
            flags: RsrcRegisterFlags::from_bits_retain(RsrcRegisterFlags::SPARSE),
            resv: 0,
            data: 0,
            tags: 0,
        };
        let (fd, op) = self.register(RegisterOp::Files2);
        RegisterCall { fd, op, arg, nr_args: 32 }
    }

    /// Register `fds` as the direct descriptor table, slot `i` naming the `i`th
    /// of them.
    ///
    /// A `-1` entry leaves the slot empty. As with [`Ring::register_files_sparse`]
    /// the length fixes the table size.
    pub fn register_files(&self, fds: FdTable) -> (call: RegisterCall<FdTable>)
        ensures
            (call.fd, call.op) == self@.register_target(RegisterOp::Files),
            call.arg == fds,
            call.nr_args == fds.len,
    {
        let (fd, op) = self.register(RegisterOp::Files);
        RegisterCall { fd, op, arg: fds, nr_args: fds.len }
    }

    /// Install `fds` into consecutive slots starting at `offset`. The call
    /// returns how many were updated.
    ///
    /// A `-1` entry empties the slot; [`sys::REGISTER_FILES_SKIP`] leaves it as
    /// it was. Installing over an occupied slot replaces it silently, so the
    /// caller is responsible for knowing the slot is free.
    pub fn update_files(&self, offset: u32, fds: FdTable) -> (call: RegisterCall<RsrcUpdate>)
        ensures
            (call.fd, call.op) == self@.register_target(RegisterOp::FilesUpdate),
            call.arg == (RsrcUpdate { offset, resv: 0, data: fds.addr }),
            call.nr_args == fds.len,
    {
        let arg = RsrcUpdate { offset, resv: 0, data: fds.addr };
        let (fd, op) = self.register(RegisterOp::FilesUpdate);
        RegisterCall { fd, op, arg, nr_args: fds.len }
    }

    /// Drop the direct descriptor table, closing every descriptor in it.
    ///
    /// Fails with [`Errno::NXIO`] if no table is registered.
    pub fn unregister_files(&self) -> (call: RegisterCall<NoArg>)
        ensures
            (call.fd, call.op) == self@.register_target(RegisterOp::UnregisterFiles),
            call.nr_args == 0,
    {
        let (fd, op) = self.register(RegisterOp::UnregisterFiles);
        RegisterCall { fd, op, arg: NoArg {  }, nr_args: 0 }
    }

    /// Confine the kernel's own slot allocator to `[off, off + len)`.
    ///
    /// This bounds [`sys::FILE_INDEX_ALLOC`] only; an operation naming a slot
    /// outright may still target any slot in the table. Partitioning this way
    /// lets a multishot accept allocate for itself out of one region while the
    /// caller hands out slots from the other without the two colliding.
    ///
    /// The range is validated against the registered table, so it must be set
    /// after [`Ring::register_files_sparse`] and is undone by
    /// [`Ring::unregister_files`].
    pub fn set_file_alloc_range(&self, off: u32, len: u32) -> (call: RegisterCall<FileIndexRange>)
        ensures
            (call.fd, call.op) == self@.register_target(RegisterOp::FileAllocRange),
            call.arg == (FileIndexRange { off, len, resv: 0 }),
            call.nr_args == 0,
    {
        let arg = FileIndexRange { off, len, resv: 0 };
        let (fd, op) = self.register(RegisterOp::FileAllocRange);
        RegisterCall { fd, op, arg, nr_args: 0 }
    }
}

/// Registering the descriptor once makes every later attempt fail before it
/// reaches the kernel.
pub proof fn lemma_registered_only_once(ring: RingView, offset: u32)
    ensures
        (RingView {
            enter_fd: offset,
            enter_flags: ring.enter_flags | EnterFlags::REGISTERED_RING,
            ..ring
        }).enters_by_index(),
{
    let flags = ring.enter_flags;
    assert((flags | (1u32 << 4)) & (1u32 << 4) == (1u32 << 4)) by (bit_vector);
}

/// What is unmapped at teardown is what was mapped, each segment once: where the
/// queues share a mapping, that is unmapped for both.
pub proof fn lemma_teardown_undoes_mapping(params: Params, segments: Segments)
    requires
        layout_of(params).cq_sz != 0,
        layout_of(params).single ==> segments.cq == segments.sq,
    ensures
        ({
            let layout = layout_of(params);
            let cq_sz = if layout.single {
                0
            } else {
                layout.cq_sz
            };
            let unmap = seq![
                Segment { addr: segments.sqes, len: layout.sqes_sz },
                Segment { addr: segments.sq, len: layout.sq_sz },
            ] + if cq_sz != 0 {
                seq![Segment { addr: segments.cq, len: cq_sz }]
            } else {
                seq![]
            };
            let mapped = made(MapStep::Sqes { sq: segments.sq, cq: segments.cq }, layout).push(
                Segment { addr: segments.sqes, len: layout.sqes_sz },
            );
            unmap == mapped.reverse()
        }),
{
    let layout = layout_of(params);
    let mapped = made(MapStep::Sqes { sq: segments.sq, cq: segments.cq }, layout).push(
        Segment { addr: segments.sqes, len: layout.sqes_sz },
    );
    let sqes = Segment { addr: segments.sqes, len: layout.sqes_sz };
    let sq = Segment { addr: segments.sq, len: layout.sq_sz };
    if layout.single {
        assert(mapped.reverse() =~= seq![sqes, sq]);
        assert(seq![sqes, sq] + seq![] =~= seq![sqes, sq]);
    } else {
        let cq = Segment { addr: segments.cq, len: layout.cq_sz };
        assert(mapped.reverse() =~= seq![sqes, sq] + seq![cq]);
    }
}

/// Setting a flag is setting its bit.
pub proof fn lemma_has(bits: u32)
    ensures
        has(bits, SetupFlags::NO_SQARRAY) == (bits / 65536 % 2 == 1),
        has(bits, SetupFlags::CQE32) == (bits / 2048 % 2 == 1),
        has(bits, SetupFlags::SQE128) == (bits / 1024 % 2 == 1),
        has(bits, SetupFlags::REGISTERED_FD_ONLY) == (bits / 32768 % 2 == 1),
        has(bits, Features::SINGLE_MMAP) == (bits % 2 == 1),
        has(bits, Features::REG_REG_RING) == (bits / 8192 % 2 == 1),
        has(bits, EnterFlags::REGISTERED_RING) == (bits / 16 % 2 == 1),
{
    assert((bits & (1u32 << 16) == (1u32 << 16)) == (bits / 65536 % 2 == 1) && (bits & (1u32 << 11)
        == (1u32 << 11)) == (bits / 2048 % 2 == 1) && (bits & (1u32 << 10) == (1u32 << 10)) == (bits
        / 1024 % 2 == 1) && (bits & (1u32 << 15) == (1u32 << 15)) == (bits / 32768 % 2 == 1) && (
    bits & (1u32 << 0) == (1u32 << 0)) == (bits % 2 == 1) && (bits & (1u32 << 13) == (1u32 << 13))
        == (bits / 8192 % 2 == 1) && (bits & (1u32 << 4) == (1u32 << 4)) == (bits / 16 % 2 == 1))
        by (bit_vector);
}

/// What is mapped is what is there, to the byte. The entries take 64 bytes each, or
/// 128. A completion takes 16, or 32, behind the offset of the array. The submission
/// region ends with its index array, of four bytes each, or without one with its last
/// control word: every one is within it, and one of them is its end. A shared mapping
/// holds both regions and ends with one of them.
pub proof fn lemma_layout_to_the_byte(params: Params)
    ensures
        ({
            let layout = layout_of(params);
            let off = params.sq_off;
            let bits = params.flags.bits;
            let cqes = params.cq_off.cqes + params.cq_entries * if bits / 2048 % 2 == 1 {
                32int
            } else {
                16
            };
            let bare = bits / 65536 % 2 == 1;
            let ends = |end: int|
                if bare {
                    &&& off.head + 4 <= end && off.tail + 4 <= end
                    &&& off.ring_mask + 4 <= end && off.ring_entries + 4 <= end
                    &&& off.flags + 4 <= end && off.dropped + 4 <= end
                    &&& end == off.head + 4 || end == off.tail + 4 || end == off.ring_mask + 4
                        || end == off.ring_entries + 4 || end == off.flags + 4 || end
                        == off.dropped + 4
                } else {
                    end == off.array + params.sq_entries * 4
                };
            &&& layout.single == (params.features.bits % 2 == 1)
            &&& layout.sqes_sz == params.sq_entries * if bits / 1024 % 2 == 1 {
                128int
            } else {
                64
            }
            &&& !layout.single ==> layout.cq_sz == cqes && ends(layout.sq_sz as int)
            &&& layout.single ==> {
                &&& layout.cq_sz == layout.sq_sz
                &&& layout.sq_sz >= cqes
                &&& layout.sq_sz == cqes || ends(layout.sq_sz as int)
                &&& exists|end: int| #[trigger] ends(end) && end <= layout.sq_sz
            }
        }),
{
    lemma_has(params.flags.bits);
    lemma_has(params.features.bits);
    let off = params.sq_off;
    let bits = params.flags.bits;
    let bare = bits / 65536 % 2 == 1;
    let ends = |end: int|
        if bare {
            &&& off.head + 4 <= end && off.tail + 4 <= end
            &&& off.ring_mask + 4 <= end && off.ring_entries + 4 <= end
            &&& off.flags + 4 <= end && off.dropped + 4 <= end
            &&& end == off.head + 4 || end == off.tail + 4 || end == off.ring_mask + 4 || end
                == off.ring_entries + 4 || end == off.flags + 4 || end == off.dropped + 4
        } else {
            end == off.array + params.sq_entries * 4
        };
    assert(ends(sq_bytes(params)));
}

/// Each region is mapped with its own length at the offset the kernel serves it at.
pub proof fn lemma_each_segment_has_its_offset(layout: Layout, sq: u64, cq: u64)
    ensures
        wanted(MapStep::Sq, layout) == (layout.sq_sz, 0u64),
        wanted(MapStep::Cq { sq }, layout) == (layout.cq_sz, 0x800_0000u64),
        wanted(MapStep::Sqes { sq, cq }, layout) == (layout.sqes_sz, 0x1000_0000u64),
{
}

/// What was mapped before a failure is undone, each mapping once with the length it
/// was made with: nothing for the first, the submission region for the second, and
/// for the third the completion region too where it has a mapping of its own.
pub proof fn lemma_a_failure_undoes_each_mapping_once(layout: Layout, sq: u64, cq: u64)
    ensures
        made(MapStep::Sq, layout).len() == 0,
        made(MapStep::Cq { sq }, layout) == seq![Segment { addr: sq, len: layout.sq_sz }],
        ({
            let undone = made(MapStep::Sqes { sq, cq }, layout);
            &&& undone.len() == if layout.single {
                1
            } else {
                2nat
            }
            &&& undone.contains(Segment { addr: sq, len: layout.sq_sz })
            &&& !layout.single ==> undone.contains(Segment { addr: cq, len: layout.cq_sz })
        }),
{
    let undone = made(MapStep::Sqes { sq, cq }, layout);
    assert(made(MapStep::Cq { sq }, layout) =~= seq![Segment { addr: sq, len: layout.sq_sz }]);
    if layout.single {
        assert(undone[0] == Segment { addr: sq, len: layout.sq_sz });
    } else {
        assert(undone[0] == Segment { addr: cq, len: layout.cq_sz });
        assert(undone[1] == Segment { addr: sq, len: layout.sq_sz });
    }
}

/// A registration is made by descriptor, with its bare number, until the ring is
/// known by an index; then by that index, with the topmost bit set to say so, where
/// the kernel takes one there or there is no descriptor.
pub proof fn lemma_how_a_registration_is_addressed(ring: RingView, op: RegisterOp)
    ensures
        ({
            let (fd, code) = ring.register_target(op);
            let indexed = ring.enter_flags / 16 % 2 == 1 && (ring.ring_fd == -1
                || ring.features.bits / 8192 % 2 == 1);
            if indexed {
                fd == ring.enter_fd && code == (op as u32) + 0x8000_0000
            } else {
                fd == sys::stored(ring.ring_fd) && code == op as u32
            }
        }),
        ring.enters_by_index() == (ring.enter_flags / 16 % 2 == 1),
{
    lemma_has(ring.enter_flags);
    lemma_has(ring.features.bits);
    sys::lemma_stored(ring.ring_fd, 0);
    let code = op as u32;
    assert(code | 0x8000_0000u32 == code + 0x8000_0000) by (bit_vector)
        requires
            code < 0x8000_0000,
    ;
}

/// A region fits exactly where every control word is within it, the number of entries
/// is a power of two with the mask one less, and no more is pending than that.
pub proof fn lemma_what_regions_fit(params: Params, region: Seq<u32>)
    ensures
        sq_region_fits(params, region) == {
            let off = params.sq_off;
            let n = region[(off.ring_entries / 4) as int];
            &&& off.head % 4 == 0 && off.head / 4 < region.len()
            &&& off.tail % 4 == 0 && off.tail / 4 < region.len()
            &&& off.ring_mask % 4 == 0 && off.ring_mask / 4 < region.len()
            &&& off.ring_entries % 4 == 0 && off.ring_entries / 4 < region.len()
            &&& off.flags % 4 == 0 && off.flags / 4 < region.len()
            &&& off.dropped % 4 == 0 && off.dropped / 4 < region.len()
            &&& region[(off.ring_mask / 4) as int] == n - 1
            &&& exists|k: nat| k < 32 && n == #[trigger] vstd::arithmetic::power2::pow2(k)
            &&& n * 2 <= usize::MAX
            &&& region[(off.tail / 4) as int].wrapping_sub(region[(off.head / 4) as int]) <= n
        },
        cq_region_fits(params, region) == {
            let off = params.cq_off;
            let n = region[(off.ring_entries / 4) as int];
            &&& off.head % 4 == 0 && off.head / 4 < region.len()
            &&& off.tail % 4 == 0 && off.tail / 4 < region.len()
            &&& off.ring_mask % 4 == 0 && off.ring_mask / 4 < region.len()
            &&& off.ring_entries % 4 == 0 && off.ring_entries / 4 < region.len()
            &&& off.overflow % 4 == 0 && off.overflow / 4 < region.len()
            &&& off.flags % 4 == 0 && (off.flags == 0 || off.flags / 4 < region.len())
            &&& region[(off.ring_mask / 4) as int] == n - 1
            &&& exists|k: nat| k < 32 && n == #[trigger] vstd::arithmetic::power2::pow2(k)
            &&& n * 2 <= usize::MAX
            &&& region[(off.tail / 4) as int].wrapping_sub(region[(off.head / 4) as int]) <= n
        },
{
    let a = params.sq_off;
    let b = params.cq_off;
    queue::lemma_masks_are_of_powers_of_two(
        sq::word_at(region, a.ring_entries),
        sq::word_at(region, a.ring_mask),
    );
    queue::lemma_masks_are_of_powers_of_two(
        sq::word_at(region, b.ring_entries),
        sq::word_at(region, b.ring_mask),
    );
    queue::lemma_counting_goes_up(sq::word_at(region, a.head), sq::word_at(region, a.tail));
    queue::lemma_counting_goes_up(sq::word_at(region, b.head), sq::word_at(region, b.tail));
}

} // verus!
