use scr::io_uring::cq::CqeResult;
use scr::io_uring::flags::{
    CqRingFlags, CqeFlags, EnterFlags, Features, NopFlags, SetupFlags, SqRingFlags,
};
use scr::io_uring::op::{Nop, Op};
use scr::io_uring::ring::{
    layout, regions_fit, FdTable, Layout, MapNext, MapStep, Ring, Segment, Segments,
};
use scr::io_uring::sys;
use scr::io_uring::syscall::{self, Errno};

/// The other side of a ring: it consumes entries through the index array and
/// posts a completion for each, as the kernel does for nops.
struct Kernel {
    sq_head: u32,
    cq_tail: u32,
    cqes: Vec<(u64, u64)>,
}

/// Where the control words of a ring are, in words.
const SQ_ENTRIES_AT: usize = 6;
const CQ_ENTRIES_AT: usize = 7;

/// Fill in `params` as setup does, and return what the mapped region holds.
fn setup(entries: u32, params: &mut sys::Params) -> Vec<u32> {
    let mut words = params.to_words();
    let cq_entries = if words[2] & SetupFlags::CQSIZE != 0 {
        words[1]
    } else {
        entries * 2
    };
    words[0] = entries;
    words[1] = cq_entries;
    words[5] = Features::SINGLE_MMAP | Features::NODROP;
    let sq_off = [0u32, 4, 16, 24, 36, 32, 64 + cq_entries * 16, 0, 0, 0];
    let cq_off = [8u32, 12, 20, 28, 44, 64, 40, 0, 0, 0];
    for i in 0..10 {
        words[10 + i] = sq_off[i];
        words[20 + i] = cq_off[i];
    }
    *params = sys::Params::from_words(&words);
    assert_eq!(params.to_words(), words);

    let mut region = vec![0u32; 16];
    region[4] = entries - 1;
    region[5] = cq_entries - 1;
    region[SQ_ENTRIES_AT] = entries;
    region[CQ_ENTRIES_AT] = cq_entries;
    region
}

fn new_ring(entries: u32, fd: u32, params: &mut sys::Params) -> (Ring, Kernel) {
    let region = setup(entries, params);
    assert!(regions_fit(params, &region, &region));
    let (sq, cq) = Ring::map(params, &region, &region);
    let places = cq.places();
    let ring = Ring::with_params(fd, params, sq, cq);
    let kernel = Kernel {
        sq_head: 0,
        cq_tail: 0,
        cqes: vec![(0, 0); places],
    };
    (ring, kernel)
}

fn ring_of(entries: u32) -> (Ring, Kernel) {
    new_ring(entries, 5, &mut sys::Params::default())
}

impl Kernel {
    fn post(&mut self, ring: &Ring, user_data: u64, res: i32, flags: u32) {
        let slot = (self.cq_tail & ring.cq().mask()) as usize;
        self.cqes[slot] = (user_data, res as u32 as u64 | (flags as u64) << 32);
        self.cq_tail = self.cq_tail.wrapping_add(1);
    }

    /// Consume up to `to_submit` entries.
    fn enter(&mut self, ring: &mut Ring, to_submit: u32) -> u32 {
        let n = to_submit.min(ring.sq().pending());
        for _ in 0..n {
            let slot = self.sq_head & ring.sq().mask();
            let index = ring.sq().array()[slot as usize];
            let sqe = *ring.sq().written(index);
            assert_eq!(sqe.opcode, sys::Opcode::Nop);
            let res = if sqe.op_flags & NopFlags::INJECT_RESULT != 0 {
                sqe.len as i32
            } else {
                0
            };
            self.post(ring, sqe.user_data, res, 0);
            self.sq_head = self.sq_head.wrapping_add(1);
        }
        self.publish(ring);
        n
    }

    fn publish(&self, ring: &mut Ring) {
        ring.sq_mut().sync(self.sq_head, 0, 0);
        ring.cq_mut().sync(self.cq_tail, 0, 0, self.cqes.clone());
    }
}

/// Write `n` nops carrying `user_data = i`, to be consumed.
fn push_nops(ring: &mut Ring, n: u32) {
    let tail = ring.sq().tail();
    for i in 0..n {
        *ring.sq_mut().sqe(tail + i) = sys::Sqe {
            user_data: i as u64,
            ..sys::Sqe::zeroed()
        };
    }
    ring.sq_mut().set_tail(tail + n);
}

/// Push `n` nops, submit, and return the results in completion order.
fn nops(ring: &mut Ring, kernel: &mut Kernel, n: u32) -> Vec<(u64, i32)> {
    push_nops(ring, n);
    let submitted = kernel.enter(ring, n);
    assert_eq!(submitted, n, "kernel consumed {submitted} of {n} sqes");

    assert_eq!(ring.cq().ready(), n);
    let head = ring.cq().head();
    let out = (0..n)
        .map(|i| {
            let cqe = ring.cq().cqe(head + i);
            (cqe.user_data, cqe.res)
        })
        .collect();
    ring.cq_mut().advance(n);
    assert_eq!(ring.cq().ready(), 0);
    out
}

#[test]
fn ring_nop_round_trip() {
    let (mut ring, mut kernel) = ring_of(8);

    assert_eq!(ring.sq().entries(), 8);
    assert_eq!(ring.sq().mask(), 7);
    assert_eq!(ring.sq().space_left(), 8);
    assert_eq!(ring.cq().ready(), 0);
    assert!(ring.features().contains(Features::NODROP));
    assert_eq!(ring.fd(), Some(ring.enter_fd() as i32));
    assert_eq!(ring.enter_flags(), EnterFlags::empty());

    assert_eq!(nops(&mut ring, &mut kernel, 1), vec![(0, 0)]);
    assert_eq!(ring.sq().pending(), 0);
    assert_eq!(ring.sq().dropped(), 0);
    assert_eq!(ring.cq().overflow(), 0);
}

/// Every SQ slot must map to the SQE of the same index. If the identity map
/// were missing, all three submissions would resolve to slot 0 and come
/// back carrying the same `user_data`.
#[test]
fn sq_array_maps_each_slot_to_its_own_sqe() {
    let (mut ring, mut kernel) = ring_of(8);
    assert!(!ring.flags().contains(SetupFlags::NO_SQARRAY));
    assert_eq!(
        nops(&mut ring, &mut kernel, 3),
        vec![(0, 0), (1, 0), (2, 0)]
    );
    assert_eq!(*ring.sq().array(), vec![0, 1, 2, 3, 4, 5, 6, 7]);

    let mut params = sys::Params::default();
    params.flags = SetupFlags::from_bits_retain(SetupFlags::NO_SQARRAY);
    let (bare, _) = new_ring(8, 5, &mut params);
    assert!(bare.sq().array().is_empty());
}

/// Registering the ring's own fd swaps `enter_fd` for an index and makes
/// every later enter carry `REGISTERED_RING`.
#[test]
fn register_ring_fd_switches_the_enter_path() {
    let (mut ring, mut kernel) = ring_of(8);
    let fd = ring.fd().expect("ring should own a descriptor");

    let call = ring.register_ring_fd().expect("register_ring_fd");
    assert_eq!(call.fd, 5);
    assert_eq!(call.op, sys::RegisterOp::RingFds as u32);
    assert_eq!(call.arg.offset, u32::MAX);
    assert_eq!(call.arg.data, 5);
    assert_eq!(call.nr_args, 1);
    ring.ring_fd_registered(Ok(1), 0).expect("register_ring_fd");
    assert_eq!(ring.fd(), Some(fd), "the real fd should be unchanged");
    assert_eq!(ring.enter_fd(), 0, "first registered slot");
    assert!(ring.enter_flags().contains(EnterFlags::REGISTERED_RING));

    // The ring still works, now entered by index.
    assert_eq!(nops(&mut ring, &mut kernel, 2), vec![(0, 0), (1, 0)]);

    assert_eq!(
        ring.register_ring_fd().unwrap_err(),
        Errno(libc::EEXIST),
        "registering twice should be rejected"
    );
    // Other registrations still name the real descriptor.
    assert_eq!(ring.register_files_sparse(16).fd, 5);
}

/// A failed registration leaves the ring as it was.
#[test]
fn a_refused_registration_changes_nothing() {
    let (mut ring, _) = ring_of(8);
    assert_eq!(
        ring.ring_fd_registered(Err(Errno(Errno::BUSY)), 3),
        Err(Errno(Errno::BUSY))
    );
    assert_eq!(ring.enter_fd(), 5);
    assert_eq!(ring.enter_flags(), EnterFlags::empty());
    assert!(ring.register_ring_fd().is_ok());
}

/// A ring that has only a registered index has no descriptor to close, and
/// names itself by index when it registers things.
#[test]
fn a_ring_without_a_descriptor_goes_by_its_index() {
    let mut params = sys::Params::default();
    params.flags = SetupFlags::from_bits_retain(SetupFlags::REGISTERED_FD_ONLY);
    let (ring, _) = new_ring(8, 2, &mut params);
    assert_eq!(ring.fd(), None);
    assert_eq!(ring.enter_fd(), 2);
    assert!(ring.enter_flags().contains(EnterFlags::REGISTERED_RING));
    assert_eq!(
        ring.register(sys::RegisterOp::Files2),
        (2, 13 | sys::REGISTER_USE_REGISTERED_RING)
    );
    assert_eq!(Ring::fd_to_close(2, &params), None);
    assert_eq!(Ring::fd_to_close(2, &sys::Params::default()), Some(2));
}

/// `res` is only an errno when the completion is not a zero-copy
/// notification: there its top bit says whether the payload was copied.
#[test]
fn notification_res_is_not_an_errno() {
    let notif = sys::Cqe {
        user_data: 1,
        res: sys::NOTIF_USAGE_ZC_COPIED as i32,
        flags: CqeFlags::from_bits_retain(CqeFlags::NOTIF),
    };
    assert!(
        notif.res < 0,
        "the trap only exists because this is negative"
    );
    assert_eq!(notif.result(), CqeResult::Notification { copied: true });

    let plain = sys::Cqe {
        user_data: 1,
        res: 0,
        flags: CqeFlags::from_bits_retain(CqeFlags::NOTIF),
    };
    assert_eq!(plain.result(), CqeResult::Notification { copied: false });

    let ok = sys::Cqe {
        user_data: 1,
        res: 17,
        flags: CqeFlags::empty(),
    };
    assert_eq!(ok.result(), CqeResult::Value(17));

    let err = sys::Cqe {
        user_data: 1,
        res: -libc::ENOBUFS,
        flags: CqeFlags::empty(),
    };
    assert_eq!(err.result(), CqeResult::Error(Errno(Errno::NOBUFS)));
}

/// The walk must yield every completion, release exactly what it yielded, and
/// leave the ring empty afterwards.
#[test]
fn completions_drain_the_ring() {
    let (mut ring, mut kernel) = ring_of(8);
    assert_eq!(nops(&mut ring, &mut kernel, 0), vec![]);
    push_nops(&mut ring, 4);
    kernel.enter(&mut ring, 4);

    assert_eq!(ring.cq().ready(), 4);
    assert!(ring.cq().is_well_posted());
    let mut walk = ring.cq().completions();
    let mut seen = Vec::new();
    while let Some(c) = walk.next(ring.cq()) {
        seen.push((
            c.user_data(),
            c.result(),
            c.flags().contains(CqeFlags::MORE),
        ));
    }
    walk.finish(ring.cq_mut());
    assert_eq!(
        seen,
        (0..4)
            .map(|i| (i as u64, CqeResult::Value(0), false))
            .collect::<Vec<_>>()
    );
    assert_eq!(
        ring.cq().ready(),
        0,
        "the iterator must release what it yielded"
    );
}

/// Stopping early must release only what was actually taken, leaving the rest
/// for the next batch.
#[test]
fn a_partial_drain_leaves_the_rest() {
    let (mut ring, mut kernel) = ring_of(8);
    push_nops(&mut ring, 4);
    kernel.enter(&mut ring, 4);

    let mut walk = ring.cq().completions();
    let mut first = Vec::new();
    for _ in 0..2 {
        first.push(walk.next(ring.cq()).unwrap().user_data());
    }
    walk.finish(ring.cq_mut());
    assert_eq!(first, vec![0, 1]);
    assert_eq!(
        ring.cq().ready(),
        2,
        "only the taken entries should be released"
    );

    let mut walk = ring.cq().completions();
    let mut rest = Vec::new();
    while let Some(c) = walk.next(ring.cq()) {
        rest.push(c.user_data());
    }
    walk.finish(ring.cq_mut());
    assert_eq!(rest, vec![2, 3]);
    assert_eq!(ring.cq().ready(), 0);
}

/// An idle ring with nothing pending needs no flush.
#[test]
fn an_idle_ring_needs_no_flush() {
    let (mut ring, mut kernel) = ring_of(8);
    assert!(!ring.needs_flush());
    assert_eq!(nops(&mut ring, &mut kernel, 1), vec![(0, 0)]);
    assert!(!ring.needs_flush());
}

/// Completions held back by the kernel, or work it has queued for the caller,
/// have to be asked for.
#[test]
fn a_ring_with_work_held_back_needs_a_flush() {
    for flag in [SqRingFlags::CQ_OVERFLOW, SqRingFlags::TASKRUN] {
        let (mut ring, _) = ring_of(8);
        ring.sq_mut().sync(0, flag, 0);
        assert!(ring.needs_flush());
    }
    let (mut ring, _) = ring_of(8);
    ring.sq_mut().sync(0, SqRingFlags::NEED_WAKEUP, 7);
    assert!(!ring.needs_flush());
    assert_eq!(ring.sq().flags().bits(), SqRingFlags::NEED_WAKEUP);
    assert_eq!(ring.sq().dropped(), 7);
}

/// Two rings can exist at once and tear down independently.
#[test]
fn rings_are_independent() {
    let (mut a, mut ka) = new_ring(8, 5, &mut sys::Params::default());
    let (mut b, mut kb) = new_ring(16, 6, &mut sys::Params::default());
    assert_ne!(a.fd(), b.fd());
    assert_eq!(a.sq().entries(), 8);
    assert_eq!(b.sq().entries(), 16);
    assert_eq!(nops(&mut a, &mut ka, 1), vec![(0, 0)]);
    drop(a);
    assert_eq!(nops(&mut b, &mut kb, 1), vec![(0, 0)]);
}

/// A nop with an injected result must come back carrying it.
#[test]
fn nop_injects_its_result() {
    let (mut ring, mut kernel) = ring_of(8);
    let plain = Nop::new().into_sqe();
    let injected = Nop::new()
        .flags(NopFlags::from_bits_retain(NopFlags::INJECT_RESULT))
        .result(42)
        .into_sqe();
    let mut out = Vec::new();
    for sqe in [plain, injected] {
        let tail = ring.sq().tail();
        *ring.sq_mut().sqe(tail) = sqe;
        ring.sq_mut().set_tail(tail + 1);
        assert_eq!(kernel.enter(&mut ring, 1), 1);
        out.push(ring.cq().cqe(ring.cq().head()).res);
        ring.cq_mut().advance(1);
    }
    assert_eq!(out, vec![0, 42]);
}

/// Set up a ring, submit a nop, reap the completion.
#[test]
fn syscall_nop_round_trip() {
    const ENTRIES: u32 = 8;
    const USER_DATA: u64 = 0xdead_beef_1234_5678;

    let mut p = sys::Params::default();
    let (mut ring, mut kernel) = new_ring(ENTRIES, 3, &mut p);
    assert!(p.sq_entries >= ENTRIES, "sq_entries = {}", p.sq_entries);
    assert!(p.cq_entries >= ENTRIES, "cq_entries = {}", p.cq_entries);
    assert_ne!(p.sq_off.array, 0, "sq_off not filled in");
    assert_ne!(p.cq_off.cqes, 0, "cq_off not filled in");
    assert!(
        !p.flags.contains(SetupFlags::NO_SQARRAY),
        "test assumes the SQ index array is present"
    );

    let tail = ring.sq().tail();
    *ring.sq_mut().sqe(tail) = sys::Sqe {
        user_data: USER_DATA,
        ..sys::Sqe::new(sys::Opcode::Nop)
    };
    ring.sq_mut().set_tail(tail + 1);
    let submitted = kernel.enter(&mut ring, 1);
    assert_eq!(submitted, 1, "kernel consumed {submitted} sqes");

    let head = ring.cq().head();
    assert_eq!(
        ring.cq().tail(),
        head + 1,
        "expected exactly one completion"
    );
    let cqe = ring.cq().cqe(head);
    assert_eq!(cqe.user_data, USER_DATA, "user_data did not round-trip");
    assert_eq!(cqe.res, 0, "nop failed: {}", -cqe.res);
    ring.cq_mut().advance(1);
    assert_eq!(ring.cq().ready(), 0);
}

/// Indices wrap at the width of the word, not at the number of entries.
#[test]
fn running_indices_wrap() {
    let mut params = sys::Params::default();
    let mut region = setup(4, &mut params);
    let start = u32::MAX - 1;
    for at in 0..4 {
        region[at] = start;
    }
    let (sq, cq) = Ring::map(&params, &region, &region);
    let mut ring = Ring::with_params(5, &params, sq, cq);
    let mut kernel = Kernel {
        sq_head: start,
        cq_tail: start,
        cqes: vec![(0, 0); ring.cq().places()],
    };
    for i in 0..4u32 {
        *ring.sq_mut().sqe(start.wrapping_add(i)) = sys::Sqe {
            user_data: 10 + i as u64,
            ..sys::Sqe::zeroed()
        };
    }
    ring.sq_mut().set_tail(start.wrapping_add(4));
    assert_eq!(ring.sq().tail(), 2);
    assert_eq!(ring.sq().pending(), 4);
    assert_eq!(ring.sq().space_left(), 0);
    assert_eq!(kernel.enter(&mut ring, 4), 4);
    let mut walk = ring.cq().completions();
    let mut seen = Vec::new();
    while let Some(c) = walk.next(ring.cq()) {
        seen.push(c.user_data());
    }
    walk.finish(ring.cq_mut());
    assert_eq!(seen, vec![10, 11, 12, 13]);
    assert_eq!(ring.cq().head(), 2);
}

/// On a mixed ring a wide completion spends two slots and padding is passed
/// over; both are released.
#[test]
fn wide_completions_and_padding_are_walked_over() {
    let (mut ring, mut kernel) = ring_of(8);
    kernel.post(&ring, 1, 0, 0);
    kernel.post(&ring, 2, 0, CqeFlags::F32 | 7 << sys::CQE_BUFFER_SHIFT);
    let slot = (kernel.cq_tail & ring.cq().mask()) as usize;
    kernel.cqes[slot] = (0xaaaa, 0xbbbb);
    kernel.cq_tail += 1;
    kernel.post(&ring, 99, 0, CqeFlags::SKIP);
    kernel.post(&ring, 3, -libc::ECANCELED, 0);
    kernel.publish(&mut ring);

    assert!(ring.cq().is_well_posted());
    let mut walk = ring.cq().completions();
    let a = walk.next(ring.cq()).unwrap();
    assert_eq!((a.user_data(), a.big()), (1, None));
    let b = walk.next(ring.cq()).unwrap();
    assert_eq!((b.user_data(), b.big()), (2, Some([0xaaaa, 0xbbbb])));
    assert_eq!(b.buffer_id(), 7);
    let c = walk.next(ring.cq()).unwrap();
    assert_eq!(c.user_data(), 3);
    assert_eq!(c.result(), CqeResult::Error(Errno(Errno::CANCELED)));
    assert_eq!(c.raw().res, -libc::ECANCELED);
    assert!(walk.next(ring.cq()).is_none());
    walk.finish(ring.cq_mut());
    assert_eq!(ring.cq().ready(), 0);

    // A wide completion that is cut off is not what the kernel promises.
    kernel.post(&ring, 4, 0, CqeFlags::F32);
    kernel.publish(&mut ring);
    assert!(!ring.cq().is_well_posted());
}

/// On a ring of wide completions every one carries its extra words.
#[test]
fn a_wide_ring_yields_extra_words() {
    let mut params = sys::Params::default();
    params.flags = SetupFlags::from_bits_retain(SetupFlags::CQE32 | SetupFlags::SQE128);
    let (mut ring, _) = new_ring(2, 5, &mut params);
    assert_eq!(ring.cq().places(), 8);
    let mut cqes = vec![(0, 0); 8];
    cqes[0] = (7, 5);
    cqes[1] = (1, 2);
    ring.cq_mut().sync(1, 0, 0, cqes);
    let mut walk = ring.cq().completions();
    let c = walk.next(ring.cq()).unwrap();
    assert_eq!(c.user_data(), 7);
    assert_eq!(c.result(), CqeResult::Value(5));
    assert_eq!(c.big(), Some([1, 2]));
    walk.finish(ring.cq_mut());
    assert_eq!(ring.cq().ready(), 0);
    // Neighbouring submissions do not share a place.
    *ring.sq_mut().sqe(0) = Nop::new().user_data(1).into_sqe();
    *ring.sq_mut().sqe(1) = Nop::new().user_data(2).into_sqe();
    assert_eq!(ring.sq().written(0).user_data, 1);
    assert_eq!(ring.sq().written(1).user_data, 2);
    assert_eq!(ring.sq().written(2).user_data, 1);
}

/// The CQ flags word is there only where the kernel says so.
#[test]
fn completion_flags_are_optional() {
    let (mut ring, kernel) = ring_of(4);
    assert_eq!(ring.cq().flags(), Some(CqRingFlags::empty()));
    ring.cq_mut()
        .sync(0, 3, CqRingFlags::EVENTFD_DISABLED, kernel.cqes.clone());
    assert_eq!(
        ring.cq().flags().unwrap().bits(),
        CqRingFlags::EVENTFD_DISABLED
    );
    assert_eq!(ring.cq().overflow(), 3);

    let mut params = sys::Params::default();
    let region = setup(4, &mut params);
    params.cq_off.flags = 0;
    let (_, cq) = Ring::map(&params, &region, &region);
    assert!(cq.flags().is_none());
}

/// The sizes of the mapped segments, to the byte.
#[test]
fn segments_are_sized_from_the_offsets() {
    let mut params = sys::Params::default();
    setup(8, &mut params);
    assert_eq!(params.sq_off.array, 64 + 16 * 16);
    let shared = layout(&params);
    assert_eq!(
        shared,
        Layout {
            sq_sz: 352,
            cq_sz: 352,
            sqes_sz: 512,
            single: true,
        }
    );

    params.features = Features::empty();
    params.flags = SetupFlags::from_bits_retain(SetupFlags::SQE128 | SetupFlags::CQE32);
    assert_eq!(
        layout(&params),
        Layout {
            sq_sz: 352,
            cq_sz: 64 + 16 * 32,
            sqes_sz: 1024,
            single: false,
        }
    );

    // Without an index array the header is all there is, up to the flags word.
    params.flags = SetupFlags::from_bits_retain(SetupFlags::NO_SQARRAY);
    assert_eq!(layout(&params).sq_sz, 36 + 4);
}

/// Mapping asks for each segment in turn, and a failure gives back what was
/// already mapped.
#[test]
fn mapping_goes_segment_by_segment() {
    let apart = Layout {
        sq_sz: 100,
        cq_sz: 200,
        sqes_sz: 300,
        single: false,
    };
    assert_eq!(MapStep::Sq.request(&apart), (100, sys::OFF_SQ_RING));
    let MapNext::Step(step) = MapStep::Sq.mapped(&apart, Ok(0x1000)) else {
        panic!("a second mapping is due");
    };
    assert_eq!(step, MapStep::Cq { sq: 0x1000 });
    assert_eq!(step.request(&apart), (200, sys::OFF_CQ_RING));
    let MapNext::Step(step) = step.mapped(&apart, Ok(0x2000)) else {
        panic!("a third mapping is due");
    };
    assert_eq!(step.request(&apart), (300, sys::OFF_SQES));
    let MapNext::Failed(unmap, errno) = step.mapped(&apart, Err(Errno(Errno::NOMEM))) else {
        panic!("the third mapping failed");
    };
    assert_eq!(errno, Errno(Errno::NOMEM));
    let mut held = unmap;
    held.sort_by_key(|s| s.addr);
    assert_eq!(
        held,
        vec![
            Segment { addr: 0x1000, len: 100 },
            Segment { addr: 0x2000, len: 200 },
        ]
    );
    let MapNext::Ready(segments) = step.mapped(&apart, Ok(0x3000)) else {
        panic!("all three are mapped");
    };
    assert_eq!(segments, Segments { sq: 0x1000, cq: 0x2000, sqes: 0x3000 });

    let shared = Layout { single: true, cq_sz: 100, ..apart };
    let MapNext::Step(step) = MapStep::Sq.mapped(&shared, Ok(0x1000)) else {
        panic!("the entries are still to be mapped");
    };
    assert_eq!(step, MapStep::Sqes { sq: 0x1000, cq: 0x1000 });
    let MapNext::Failed(unmap, _) = step.mapped(&shared, Err(Errno(Errno::NOMEM))) else {
        panic!("the second mapping failed");
    };
    assert_eq!(unmap, vec![Segment { addr: 0x1000, len: 100 }]);
    let MapNext::Failed(unmap, _) = MapStep::Sq.mapped(&apart, Err(Errno(Errno::INVAL))) else {
        panic!("the first mapping failed");
    };
    assert!(unmap.is_empty());
}

/// Each mapping is unmapped once, a shared one for both queues.
#[test]
fn teardown_unmaps_what_was_mapped() {
    let mut params = sys::Params::default();
    let region = setup(8, &mut params);
    let (sq, cq) = Ring::map(&params, &region, &region);
    assert_eq!((sq.ring_sz(), sq.sqes_sz(), cq.ring_sz()), (352, 512, 0));
    let ring = Ring::with_params(5, &params, sq, cq);
    assert_eq!(
        ring.teardown(&Segments { sq: 1, cq: 1, sqes: 3 }),
        vec![
            Segment { addr: 3, len: 512 },
            Segment { addr: 1, len: 352 },
        ]
    );

    params.features = Features::empty();
    let (sq, cq) = Ring::map(&params, &region, &region);
    let ring = Ring::with_params(5, &params, sq, cq);
    assert_eq!(
        ring.teardown(&Segments { sq: 1, cq: 2, sqes: 3 }),
        vec![
            Segment { addr: 3, len: 512 },
            Segment { addr: 1, len: 352 },
            Segment { addr: 2, len: 320 },
        ]
    );
}

/// A region that does not hold what the offsets promise is told apart.
#[test]
fn a_region_that_does_not_fit_is_told_apart() {
    let mut params = sys::Params::default();
    let region = setup(8, &mut params);
    assert!(regions_fit(&params, &region, &region));
    assert!(!regions_fit(&params, &vec![], &region));
    assert!(!regions_fit(&params, &region, &vec![0; 4]));
    let mut odd = region.clone();
    odd[SQ_ENTRIES_AT] = 6;
    odd[4] = 5;
    assert!(!regions_fit(&params, &odd, &region));
    let mut ahead = region.clone();
    ahead[1] = 9;
    assert!(!regions_fit(&params, &ahead, &region));
    params.sq_off.tail = 5;
    assert!(!regions_fit(&params, &region, &region));
}

/// The arguments of each registration.
#[test]
fn registrations_are_framed() {
    let (ring, _) = ring_of(8);
    let sparse = ring.register_files_sparse(64);
    assert_eq!((sparse.fd, sparse.op), (5, 13));
    assert_eq!((sparse.arg.nr, sparse.arg.flags.bits()), (64, 1));
    assert_eq!(sparse.nr_args, 32);

    let table = FdTable { addr: 0x4000, len: 3 };
    let files = ring.register_files(table);
    assert_eq!((files.op, files.arg, files.nr_args), (2, table, 3));

    let update = ring.update_files(9, table);
    assert_eq!((update.op, update.nr_args), (6, 3));
    assert_eq!((update.arg.offset, update.arg.data), (9, 0x4000));

    let gone = ring.unregister_files();
    assert_eq!((gone.op, gone.nr_args), (3, 0));

    let range = ring.set_file_alloc_range(10, 20);
    assert_eq!((range.op, range.nr_args), (25, 0));
    assert_eq!((range.arg.off, range.arg.len), (10, 20));
}

/// What a system call returned, as a result.
#[test]
fn system_calls_report_errors_through_errno() {
    let last = Errno(Errno::AGAIN);
    assert_eq!(syscall::ret(7, last), Ok(7));
    assert_eq!(syscall::ret(-1, last), Err(last));
    assert_eq!(syscall::done(0, last), Ok(()));
    assert_eq!(syscall::done(-1, last), Err(last));
    assert_eq!(syscall::mapping(0x1000, last), Ok(0x1000));
    assert_eq!(syscall::mapping(syscall::MAP_FAILED, last), Err(last));
    assert_eq!(last.raw(), libc::EAGAIN);
}

/// The named errors are those of the system.
#[test]
fn errors_have_the_numbers_of_the_system() {
    let pairs = [
        (Errno::AGAIN, libc::EAGAIN),
        (Errno::INTR, libc::EINTR),
        (Errno::BUSY, libc::EBUSY),
        (Errno::EXIST, libc::EEXIST),
        (Errno::TIME, libc::ETIME),
        (Errno::NXIO, libc::ENXIO),
        (Errno::CANCELED, libc::ECANCELED),
        (Errno::INVAL, libc::EINVAL),
        (Errno::FAULT, libc::EFAULT),
        (Errno::NOMEM, libc::ENOMEM),
        (Errno::NOBUFS, libc::ENOBUFS),
        (Errno::NOSYS, libc::ENOSYS),
        (Errno::OPNOTSUPP, libc::EOPNOTSUPP),
        (Errno::AFNOSUPPORT, libc::EAFNOSUPPORT),
    ];
    for (ours, theirs) in pairs {
        assert_eq!(ours, theirs);
    }
    assert_eq!(syscall::MAP_FAILED, libc::MAP_FAILED as usize as u64);
}

/// Padding behind a completion is not released with it.
#[test]
fn padding_is_released_with_what_follows_it() {
    let (mut ring, mut kernel) = ring_of(8);
    kernel.post(&ring, 98, 0, CqeFlags::SKIP);
    kernel.post(&ring, 1, 0, 0);
    kernel.post(&ring, 99, 0, CqeFlags::SKIP);
    kernel.post(&ring, 2, 0, 0);
    kernel.publish(&mut ring);

    let mut walk = ring.cq().completions();
    assert_eq!(walk.next(ring.cq()).unwrap().user_data(), 1);
    walk.finish(ring.cq_mut());
    assert_eq!((ring.cq().head(), ring.cq().ready()), (2, 2));

    let mut walk = ring.cq().completions();
    assert_eq!(walk.next(ring.cq()).unwrap().user_data(), 2);
    walk.finish(ring.cq_mut());
    assert_eq!((ring.cq().head(), ring.cq().ready()), (4, 0));
}

/// Where no ring comes of it, what was mapped is unmapped once.
#[test]
fn a_layout_knows_what_was_mapped() {
    let apart = Layout {
        sq_sz: 100,
        cq_sz: 200,
        sqes_sz: 300,
        single: false,
    };
    let segments = Segments { sq: 1, cq: 2, sqes: 3 };
    let sqes = Segment { addr: 3, len: 300 };
    let sq = Segment { addr: 1, len: 100 };
    let cq = Segment { addr: 2, len: 200 };
    assert_eq!(apart.teardown(&segments), vec![sqes, sq, cq]);
    let shared = Layout { single: true, ..apart };
    assert_eq!(shared.teardown(&segments), vec![sqes, sq]);
}
