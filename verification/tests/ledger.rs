use scr::io_uring::flags::CqeFlags;
use scr::runtime::driver::ledger::{Action, Ledger, OpKey, Outcome};
use scr::runtime::poll::Poll;
use scr::runtime::waker::Waker;

fn flags() -> CqeFlags {
    CqeFlags::empty()
}

fn waker() -> Waker {
    Waker { token: 9 }
}

#[test]
fn a_key_round_trips_through_user_data() {
    let key = OpKey {
        index: 0xdead,
        seq: 0xbeef,
    };
    assert_eq!(key.user_data(), 0x0000_beef_0000_dead);
    assert_eq!(OpKey::from_user_data(key.user_data()), key);
}

#[test]
fn a_reused_entry_gets_a_new_sequence_number() {
    let mut l = Ledger::with_capacity(4);

    let first = l.submit();
    assert_eq!(l.live(), 1);
    l.complete(first.user_data(), 0, flags());
    assert_eq!(l.poll(first, &waker()), Poll::Ready((0, flags())));
    assert_eq!(l.live(), 0);

    let second = l.submit();
    assert_eq!(second.index, first.index, "the slab entry came back");
    assert_ne!(second.seq, first.seq, "but it is a different operation");
}

/// The whole point of the sequence number: a completion for an operation
/// whose entry has since been handed to somebody else must not be delivered
/// to the new owner.
#[test]
fn a_completion_for_a_reused_entry_is_ignored() {
    let mut l = Ledger::with_capacity(4);

    let stale = l.submit();
    l.detach(stale, Action::Discard);
    l.complete(stale.user_data(), 1, flags());

    let fresh = l.submit();
    assert_eq!(
        fresh.index, stale.index,
        "the same entry, to make the point"
    );

    // A second, late completion for the cancelled operation.
    assert!(matches!(
        l.complete(stale.user_data(), 7, flags()),
        Outcome::Ignore
    ));

    // The new owner is untouched and still waiting for its own result.
    assert_eq!(l.poll(fresh, &waker()), Poll::Pending);
}

/// A completion for an entry that was freed and *not* reused is stale too;
/// the lookup misses rather than the sequence check failing.
#[test]
fn a_completion_for_a_freed_entry_is_ignored() {
    let mut l = Ledger::with_capacity(4);
    let key = l.submit();
    l.complete(key.user_data(), 0, flags());
    let _ = l.poll(key, &waker());

    assert!(matches!(
        l.complete(key.user_data(), 0, flags()),
        Outcome::Ignore
    ));
}

#[test]
fn a_completion_before_a_poll_is_kept_for_it() {
    let mut l = Ledger::with_capacity(4);
    let key = l.submit();

    assert!(matches!(
        l.complete(key.user_data(), 42, flags()),
        Outcome::Ignore
    ));

    assert_eq!(l.poll(key, &waker()), Poll::Ready((42, flags())));
    assert_eq!(l.live(), 0, "taking the result frees the entry");
}

#[test]
fn a_poll_before_the_completion_registers_a_waker() {
    let mut l = Ledger::with_capacity(4);
    let key = l.submit();

    assert_eq!(l.poll(key, &waker()), Poll::Pending);
    assert_eq!(
        l.complete(key.user_data(), 42, flags()),
        Outcome::Wake(waker())
    );
    assert_eq!(l.poll(key, &waker()), Poll::Ready((42, flags())));
}

/// A result that has arrived is not one the kernel will send again. The
/// executor blocks whenever something is outstanding, so counting an
/// uncollected result as outstanding is a wait that never ends.
#[test]
fn a_collected_result_is_no_longer_outstanding() {
    let mut l = Ledger::with_capacity(4);
    let key = l.submit();
    assert_eq!(l.outstanding(), 1);

    l.complete(key.user_data(), 0, flags());
    assert_eq!(l.outstanding(), 0, "the kernel has handed it back");
    assert_eq!(l.live(), 1, "but the result is still sitting there");

    assert_eq!(l.poll(key, &waker()), Poll::Ready((0, flags())));
    assert_eq!(l.live(), 0);
}

#[test]
fn a_finished_operation_hands_its_result_straight_back() {
    let mut l = Ledger::with_capacity(4);
    let key = l.submit();
    l.complete(key.user_data(), 5, flags());

    let taken = l.take_completed(key);
    assert_eq!(taken, Some((5, flags())), "no need to detach at all");
    assert_eq!(l.live(), 0);
}

#[test]
fn detaching_a_running_operation_keeps_the_entry_until_it_lands() {
    let mut l = Ledger::with_capacity(4);
    let key = l.submit();

    assert_eq!(l.take_completed(key), None, "it has not finished");
    l.detach(key, Action::Run(31));
    assert_eq!(l.live(), 1, "the kernel still owes us a completion");

    assert_eq!(
        l.complete(key.user_data(), 5, flags()),
        Outcome::Detached(Action::Run(31), 5, flags())
    );
    assert_eq!(l.live(), 0);
}

/// Churn the table and check that `live` tracks reality and that every
/// completion for an operation we have finished with is refused, however
/// many times the entry underneath it has changed hands.
#[test]
fn churn_leaves_no_entry_stranded_and_no_stale_key_live() {
    let mut l = Ledger::with_capacity(0);
    let mut live: Vec<OpKey> = Vec::new();
    let mut done: Vec<OpKey> = Vec::new();
    let mut state = 0x243f_6a88u32;

    for _ in 0..10_000 {
        state = state.wrapping_mul(1_664_525).wrapping_add(1_013_904_223);

        if live.len() > 4 && state % 2 == 0 {
            let key = live.swap_remove(state as usize % live.len());
            l.complete(key.user_data(), 0, flags());
            assert_eq!(l.poll(key, &waker()), Poll::Ready((0, flags())));
            done.push(key);
        } else {
            live.push(l.submit());
        }

        assert_eq!(l.live() as usize, live.len());
    }

    for key in &done {
        assert!(
            matches!(l.complete(key.user_data(), 0, flags()), Outcome::Ignore),
            "entry {} accepted a completion for a finished operation",
            key.index
        );
    }

    for key in live {
        l.complete(key.user_data(), 0, flags());
        let _ = l.poll(key, &waker());
    }
    assert_eq!(l.live(), 0, "every entry came back");
}

/// Keys are handed out in order, the first free entry first.
#[test]
fn keys_count_up() {
    let mut l = Ledger::with_capacity(4);
    assert_eq!(l.submit(), OpKey { index: 0, seq: 0 });
    assert_eq!(l.submit(), OpKey { index: 1, seq: 1 });
    assert_eq!(
        l.submit_detached(Action::Discard),
        OpKey { index: 2, seq: 2 }
    );
    assert_eq!((l.live(), l.outstanding()), (3, 3));
    assert!(!l.is_full());
    assert!(l.has_room(4_000_000));
    assert!(!l.has_room(u32::MAX as usize));
}

/// Giving up on everything discards results nobody took, keeps what is in the
/// kernel, and leaves an action that is already there alone.
#[test]
fn abandoning_everything_keeps_earlier_actions() {
    let mut l = Ledger::with_capacity(4);
    let running = l.submit();
    let waiting = l.submit();
    assert_eq!(l.poll(waiting, &waker()), Poll::Pending);
    let finished = l.submit();
    l.complete(finished.user_data(), 3, flags());
    let detached = l.submit_detached(Action::Run(8));

    let mut keys = l.abandon_all();
    keys.sort_by_key(|k| k.index);
    assert_eq!(keys, vec![running, waiting]);
    assert_eq!((l.live(), l.outstanding()), (3, 3));
    assert_eq!(l.take_completed(finished), None);
    assert_eq!(
        l.complete(detached.user_data(), 0, flags()),
        Outcome::Detached(Action::Run(8), 0, flags())
    );
    assert_eq!(
        l.complete(waiting.user_data(), -125, flags()),
        Outcome::Detached(Action::Discard, -125, flags())
    );
    assert_eq!(
        l.complete(running.user_data(), 0, flags()),
        Outcome::Detached(Action::Discard, 0, flags())
    );
    assert_eq!((l.live(), l.outstanding()), (0, 0));
}

/// A result is owed once: a second completion of the same operation does not
/// count again.
#[test]
fn a_second_completion_is_not_counted() {
    let mut l = Ledger::with_capacity(4);
    let other = l.submit();
    let key = l.submit();
    l.complete(key.user_data(), 1, flags());
    assert_eq!(l.complete(key.user_data(), 2, flags()), Outcome::Ignore);
    assert_eq!(l.outstanding(), 1);
    assert_eq!(l.take_completed(key), Some((2, flags())));
    l.complete(other.user_data(), 0, flags());
    assert_eq!(l.outstanding(), 0);
}
