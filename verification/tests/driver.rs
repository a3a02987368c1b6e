use std::collections::VecDeque;

use scr::io_uring::flags::{
    AsyncCancelFlags, CqeFlags, EnterFlags, Features, SetupFlags, SqRingFlags, SqeFlags,
};
use scr::io_uring::op::{Nop, Op};
use scr::io_uring::ring::{regions_fit, Ring};
use scr::io_uring::sys::{self, Opcode, Sqe};
use scr::io_uring::syscall::Errno;
use scr::runtime::driver::ledger::{Action, Entry, OpKey, Outcome};
use scr::runtime::driver::{entered, is_linked, leading_chain_len, params, Driver, Round, TurnStep};
use scr::runtime::poll::Poll;
use scr::runtime::waker::Waker;

fn nop() -> Sqe {
    Nop::new().into_sqe()
}

fn linked_nop() -> Sqe {
    Nop::new()
        .sqe_flags(SqeFlags::from_bits_retain(SqeFlags::IO_LINK))
        .into_sqe()
}

/// The other side of the ring: it completes whatever it is handed, keeps what
/// does not fit the completion queue for later, and remembers what it was
/// handed in which call.
struct Kernel {
    sq_head: u32,
    cq_tail: u32,
    cqes: Vec<(u64, u64)>,
    overflow: VecDeque<(u64, u64)>,
    batches: Vec<Vec<Sqe>>,
    /// Answer nothing but cancellations.
    holds: bool,
    held: Vec<u64>,
}

/// A small ring, so the paths that only open up under pressure are the
/// ordinary case here.
fn driver() -> (Driver, Kernel) {
    let mut p = params(16);
    p.sq_entries = 8;
    p.features = Features::from_bits_retain(Features::SINGLE_MMAP | Features::NODROP);
    p.sq_off.tail = 4;
    p.sq_off.ring_mask = 16;
    p.sq_off.ring_entries = 24;
    p.sq_off.dropped = 32;
    p.sq_off.flags = 36;
    p.cq_off.head = 8;
    p.cq_off.tail = 12;
    p.cq_off.ring_mask = 20;
    p.cq_off.ring_entries = 28;
    p.cq_off.flags = 40;
    p.cq_off.overflow = 44;
    p.cq_off.cqes = 64;
    let mut region = vec![0u32; 16];
    region[4] = 7;
    region[5] = 15;
    region[6] = 8;
    region[7] = 16;
    assert!(regions_fit(&p, &region, &region));
    let (sq, cq) = Ring::map(&p, &region, &region);
    let ring = Ring::with_params(3, &p, sq, cq);
    let kernel = Kernel {
        sq_head: 0,
        cq_tail: 0,
        cqes: vec![(0, 0); 16],
        overflow: VecDeque::new(),
        batches: Vec::new(),
        holds: false,
        held: Vec::new(),
    };
    (Driver::with_ring(ring, 8), kernel)
}

impl Kernel {
    fn post(&mut self, user_data: u64, res: i32) {
        self.overflow.push_back((user_data, res as u32 as u64));
    }

    fn enter(&mut self, driver: &mut Driver, to_submit: u32) {
        let mut batch = Vec::new();
        for _ in 0..to_submit {
            let sqe = *driver.ring().sq().written(self.sq_head);
            self.sq_head = self.sq_head.wrapping_add(1);
            batch.push(sqe);
            if sqe.opcode == Opcode::AsyncCancel {
                if let Some(at) = self.held.iter().position(|&k| k == sqe.addr) {
                    self.held.remove(at);
                    self.post(sqe.addr, -libc::ECANCELED);
                    self.post(sqe.user_data, 0);
                } else {
                    self.post(sqe.user_data, -libc::ENOENT);
                }
            } else if self.holds {
                self.held.push(sqe.user_data);
            } else {
                self.post(sqe.user_data, 0);
            }
        }
        if !batch.is_empty() {
            self.batches.push(batch);
        }
        let head = driver.ring().cq().head();
        while self.cq_tail.wrapping_sub(head) < 16 {
            let Some(cqe) = self.overflow.pop_front() else {
                break;
            };
            self.cqes[(self.cq_tail & 15) as usize] = cqe;
            self.cq_tail = self.cq_tail.wrapping_add(1);
        }
        let sq_flags = if self.overflow.is_empty() {
            0
        } else {
            SqRingFlags::CQ_OVERFLOW
        };
        driver.sync(
            self.sq_head,
            sq_flags,
            0,
            self.cq_tail,
            0,
            0,
            self.cqes.clone(),
        );
    }
}

/// Deliver every completion the ring is holding.
fn reap(driver: &mut Driver) -> Vec<Outcome> {
    let mut seen = Vec::new();
    assert!(driver.ring().cq().is_well_posted());
    let mut batch = driver.reap();
    while let Some(outcome) = driver.reap_next(&mut batch) {
        seen.push(outcome);
    }
    driver.reap_done(batch);
    seen
}

/// One turn: push what there is to the kernel, and deliver what came back.
fn turn(driver: &mut Driver, kernel: &mut Kernel, wait: bool) -> Vec<Outcome> {
    let round = driver.turn(wait);
    see_through(driver, kernel, round, wait)
}

/// A turn from its first round on.
fn see_through(
    driver: &mut Driver,
    kernel: &mut Kernel,
    mut round: Round,
    mut waits: bool,
) -> Vec<Outcome> {
    let mut seen = Vec::new();
    loop {
        let TurnStep::Enter(call) = round.step else {
            return seen;
        };
        assert_eq!(call.fd, 3);
        assert_eq!(call.min_complete, u32::from(waits));
        assert!(call.flags.contains(EnterFlags::GETEVENTS));
        assert_eq!(call.to_submit, driver.ring().sq().pending());
        kernel.enter(driver, call.to_submit);
        seen.extend(reap(driver));
        // Only the first round waits.
        waits = false;
        match driver.turn_again(round) {
            Some(next) => round = next,
            None => return seen,
        }
    }
}

/// Drain, without waiting on a ring that has nothing left to give.
fn drain(driver: &mut Driver, kernel: &mut Kernel) {
    while driver.in_flight() > 0 {
        turn(driver, kernel, true);
    }
}

#[test]
fn a_batch_larger_than_the_ring_still_all_completes() {
    let (mut driver, mut kernel) = driver();
    const N: u32 = 100;

    for _ in 0..N {
        driver.submit_detached(nop(), Action::Discard);
    }

    assert_eq!(driver.in_flight(), N);
    assert!(
        driver.backlog_pending(),
        "a hundred entries do not fit a ring of eight"
    );

    drain(&mut driver, &mut kernel);
    assert!(!driver.backlog_pending(), "the backlog drained with them");
    let order: Vec<u64> = kernel
        .batches
        .iter()
        .flatten()
        .map(|sqe| sqe.user_data)
        .collect();
    let keys: Vec<u64> = (0..N)
        .map(|i| OpKey { index: i, seq: i }.user_data())
        .collect();
    assert_eq!(order, keys, "in the order they were submitted");
}

/// More completions than the completion ring holds, so the kernel has to
/// park the rest in its overflow list and hand them over on a later enter.
#[test]
fn completions_beyond_the_ring_are_not_lost() {
    let (mut driver, mut kernel) = driver();
    const N: u32 = 200;

    for _ in 0..N {
        driver.submit_detached(nop(), Action::Discard);
    }
    drain(&mut driver, &mut kernel);

    assert_eq!(driver.in_flight(), 0, "every completion was accounted for");
}

/// A dangling link head at the end of a submission is issued immediately rather
/// than held, so a chain split across two enters silently becomes two unrelated
/// runs.
#[test]
fn a_chain_that_does_not_fit_waits_rather_than_being_split() {
    let (mut driver, mut kernel) = driver();

    // Six of eight slots taken, so three will not fit.
    for _ in 0..6 {
        driver.submit_detached(nop(), Action::Discard);
    }
    assert!(!driver.backlog_pending(), "six of eight fit");

    let keys = driver.submit_chain(&vec![linked_nop(), linked_nop(), nop()]);
    assert!(
        driver.backlog_pending(),
        "the chain went to the backlog whole rather than filling the last two slots"
    );

    drain(&mut driver, &mut kernel);
    assert!(!driver.backlog_pending());
    for batch in &kernel.batches {
        assert!(!is_linked(batch.last().unwrap()), "a chain was split");
    }

    // Collect the results the way a chain's future would; an entry nobody
    // collects stays occupied by design.
    for key in keys {
        assert!(
            driver.take_completed(key).is_some(),
            "every member of the chain ran"
        );
    }
}

#[test]
fn a_chain_is_counted_up_to_and_including_its_terminator() {
    let mut backlog = VecDeque::new();
    backlog.push_back(linked_nop());
    backlog.push_back(linked_nop());
    backlog.push_back(nop());
    backlog.push_back(nop());

    assert_eq!(
        leading_chain_len(&backlog),
        3,
        "two linked entries and the one that ends them"
    );
}

#[test]
fn an_unlinked_entry_is_a_run_of_one() {
    let mut backlog = VecDeque::new();
    backlog.push_back(nop());
    backlog.push_back(nop());

    assert_eq!(leading_chain_len(&backlog), 1);
}

/// With nothing submitted and nothing outstanding there is nothing an enter
/// could tell us, so it is skipped.
#[test]
fn an_idle_turn_is_free() {
    let (mut driver, mut kernel) = driver();

    assert_eq!(driver.turn(false).step, TurnStep::Idle);
    turn(&mut driver, &mut kernel, false);
    assert!(kernel.batches.is_empty());
    assert_eq!(driver.in_flight(), 0);
}

/// A hard link holds a chain together as well.
#[test]
fn a_hard_link_is_a_link() {
    let hard = Nop::new()
        .sqe_flags(SqeFlags::from_bits_retain(SqeFlags::IO_HARDLINK))
        .into_sqe();
    assert!(is_linked(&hard));
    assert!(is_linked(&linked_nop()));
    assert!(!is_linked(&nop()));
    assert_eq!(leading_chain_len(&VecDeque::from([hard, hard, nop()])), 3);
    assert_eq!(leading_chain_len(&VecDeque::new()), 0);
}

/// What is already waiting goes first: nothing that is submitted later takes
/// the room that opened up.
#[test]
fn later_submissions_queue_behind_the_backlog() {
    let (mut driver, mut kernel) = driver();
    for _ in 0..6 {
        driver.submit_detached(nop(), Action::Discard);
    }
    driver.submit_chain(&vec![linked_nop(), linked_nop(), nop()]);
    // Two slots are free, but the chain is ahead.
    driver.submit_detached(nop(), Action::Discard);
    assert_eq!(driver.backlog_len(), 4);
    drain(&mut driver, &mut kernel);
    let seqs: Vec<u32> = kernel
        .batches
        .iter()
        .flatten()
        .map(|sqe| OpKey::from_user_data(sqe.user_data).seq)
        .collect();
    assert_eq!(seqs, (0..10).collect::<Vec<_>>());
    assert_eq!(kernel.batches[0].len(), 6);
}

/// A future that waits is woken by its completion and then finds the result.
#[test]
fn a_waiting_future_is_woken_with_its_result() {
    let (mut driver, mut kernel) = driver();
    let key = driver.submit(nop());
    let waker = Waker { token: 5 };
    assert_eq!(driver.poll_op(key, &waker), Poll::Pending);
    assert_eq!(
        turn(&mut driver, &mut kernel, false),
        vec![Outcome::Wake(waker)]
    );
    assert_eq!(
        driver.poll_op(key, &waker),
        Poll::Ready((0, CqeFlags::empty()))
    );
}

/// A future that goes away leaves its action to the completion of the cancelled
/// operation.
#[test]
fn a_cancelled_operation_runs_its_action() {
    let (mut driver, mut kernel) = driver();
    kernel.holds = true;
    let key = driver.submit(nop());
    assert!(turn(&mut driver, &mut kernel, false).is_empty());
    driver.detach(key, Action::Run(4));
    driver.cancel(key);
    assert_eq!(driver.in_flight(), 2);
    let seen = turn(&mut driver, &mut kernel, false);
    assert_eq!(
        seen,
        vec![
            Outcome::Detached(Action::Run(4), -libc::ECANCELED, CqeFlags::empty()),
            Outcome::Detached(Action::Discard, 0, CqeFlags::empty()),
        ]
    );
    assert_eq!(driver.in_flight(), 0);
    let asked = kernel.batches[1][0];
    assert_eq!(asked.opcode, Opcode::AsyncCancel);
    assert_eq!(asked.addr, key.user_data());
}

/// Operations on a fixed file are cancelled by its slot.
#[test]
fn a_slot_is_cancelled_by_number() {
    let (mut driver, mut kernel) = driver();
    driver.cancel_slot(7);
    turn(&mut driver, &mut kernel, false);
    let asked = kernel.batches[0][0];
    assert_eq!(asked.opcode, Opcode::AsyncCancel);
    assert_eq!(asked.fd, 7);
    assert_eq!(
        asked.op_flags,
        AsyncCancelFlags::FD | AsyncCancelFlags::FD_FIXED | AsyncCancelFlags::ALL
    );
}

/// Shutting down cancels everything and is over when the kernel has given it
/// all back.
#[test]
fn shutting_down_cancels_what_is_in_flight() {
    let (mut driver, mut kernel) = driver();
    kernel.holds = true;
    let a = driver.submit(nop());
    let b = driver.submit(nop());
    driver.submit_detached(nop(), Action::Run(1));
    turn(&mut driver, &mut kernel, false);
    // The one that was detached before is cancelled by whoever detached it.
    let left = kernel.held.pop().unwrap();
    kernel.post(left, 0);

    assert!(driver.can_shut_down());
    let mut cancelled = driver.shutdown();
    cancelled.sort_by_key(|k| k.index);
    assert_eq!(cancelled, vec![a, b]);
    assert_eq!(driver.in_flight(), 5);
    let mut rounds = 0;
    while let Some(round) = driver.shutdown_next(Ok(())) {
        rounds += 1;
        see_through(&mut driver, &mut kernel, round, true);
    }
    assert_eq!(rounds, 1);
    assert_eq!(driver.in_flight(), 0);
    assert!(kernel.held.is_empty());
}

/// Waiting for the kernel to give everything back stops where it can no longer be
/// entered.
#[test]
fn shutting_down_stops_at_a_failure() {
    let (mut driver, _) = driver();
    assert_eq!(driver.shutdown_next(Ok(())), None, "nothing is in flight");
    driver.submit_detached(nop(), Action::Discard);
    assert_eq!(driver.shutdown_next(Err(Errno(Errno::FAULT))), None);
    assert_eq!(driver.ring().sq().pending(), 0, "nothing was published");
    let round = driver.shutdown_next(Ok(())).expect("one is in flight");
    let TurnStep::Enter(call) = round.step else {
        panic!("it has to wait");
    };
    assert_eq!((call.to_submit, call.min_complete), (1, 1));
}

/// The setup the driver asks for.
#[test]
fn the_ring_is_asked_for_with_deferred_work() {
    let p = params(128);
    assert_eq!(p.cq_entries, 128);
    assert_eq!(
        p.flags.bits(),
        SetupFlags::SINGLE_ISSUER
            | SetupFlags::DEFER_TASKRUN
            | SetupFlags::NO_SQARRAY
            | SetupFlags::CQSIZE
            | SetupFlags::SUBMIT_ALL
    );
    let mut words = [0u32; 30];
    words[1] = 128;
    words[2] = p.flags.bits();
    assert_eq!(p.to_words(), words);
    assert_eq!(sys::Params::from_words(&words).to_words(), words);
}

/// Being interrupted, or told to come back, is not a failure.
#[test]
fn only_real_failures_end_a_turn() {
    assert_eq!(entered(Ok(3)), Ok(()));
    for errno in [libc::EINTR, libc::EAGAIN, libc::EBUSY] {
        assert_eq!(entered(Err(Errno(errno))), Ok(()));
    }
    assert_eq!(
        entered(Err(Errno(Errno::FAULT))),
        Err(Errno(Errno::FAULT))
    );
}

/// There is room to begin with, and no room for more than there are keys.
#[test]
fn room_is_counted() {
    let (mut driver, _) = driver();
    assert!(!driver.is_full());
    assert!(driver.has_room(1_000));
    driver.submit(nop());
    assert!(driver.has_room(u32::MAX as usize - 1));
    assert!(!driver.has_room(u32::MAX as usize));
}

/// Each cancel is accounted for by itself: it carries the token of its own entry, so
/// its completion is not taken for that of the operation it cancels.
#[test]
fn a_cancel_has_a_token_of_its_own() {
    let (mut driver, mut kernel) = driver();
    kernel.holds = true;
    let a = driver.submit(nop());
    driver.submit_detached(nop(), Action::Run(1));
    let b = driver.submit(nop());
    turn(&mut driver, &mut kernel, false);
    assert_eq!(driver.shutdown(), vec![a, b]);
    let own = [OpKey { index: 3, seq: 3 }, OpKey { index: 4, seq: 4 }];

    let round = driver.shutdown_next(Ok(())).expect("five are in flight");
    let TurnStep::Enter(call) = round.step else {
        panic!("it has to wait");
    };
    assert_eq!(call.to_submit, 2);
    kernel.enter(&mut driver, call.to_submit);
    let asked: Vec<_> = kernel.batches[1]
        .iter()
        .map(|sqe| (sqe.opcode, sqe.addr, sqe.user_data))
        .collect();
    assert_eq!(
        asked,
        vec![
            (Opcode::AsyncCancel, a.user_data(), own[0].user_data()),
            (Opcode::AsyncCancel, b.user_data(), own[1].user_data()),
        ]
    );
    // Each of the four is given back by a completion of its own.
    for (posted, left) in [(a, 4), (own[0], 3), (b, 2), (own[1], 1)] {
        let mut batch = driver.reap();
        let cqe = kernel.cqes[(driver.ring().cq().head() & 15) as usize];
        assert_eq!(cqe.0, posted.user_data());
        assert!(matches!(
            driver.reap_next(&mut batch),
            Some(Outcome::Detached(Action::Discard, _, _))
        ));
        driver.reap_done(batch);
        assert_eq!(driver.in_flight(), left);
    }
    // What was detached before is left to whoever detached it.
    kernel.post(kernel.held[0], 0);
    kernel.enter(&mut driver, 0);
    assert!(matches!(
        reap(&mut driver)[..],
        [Outcome::Detached(Action::Run(1), 0, _)]
    ));
    assert_eq!(driver.shutdown_next(Ok(())), None);
}

/// What is queued behind a full ring is cancelled in order too, on the backlog.
#[test]
fn cancels_wait_behind_the_backlog() {
    let (mut driver, mut kernel) = driver();
    for _ in 0..9 {
        driver.submit(nop());
    }
    assert_eq!(driver.backlog_len(), 1);
    let cancelled = driver.shutdown();
    assert_eq!(cancelled.len(), 9);
    assert_eq!(driver.backlog_len(), 10);
    assert_eq!(driver.in_flight(), 18);
    while let Some(round) = driver.shutdown_next(Ok(())) {
        see_through(&mut driver, &mut kernel, round, true);
    }
    let order: Vec<u64> = kernel
        .batches
        .iter()
        .flatten()
        .map(|sqe| sqe.user_data)
        .collect();
    let keys: Vec<u64> = (0..18)
        .map(|i| OpKey { index: i, seq: i }.user_data())
        .collect();
    assert_eq!(order, keys);
}

/// What room there is to begin with is bounded by bytes.
#[test]
fn entries_are_small() {
    assert!(size_of::<Sqe>() <= 64);
    assert!(size_of::<Entry>() + size_of::<usize>() < 64);
}
