use scr::runtime::clock::Instant;
use scr::runtime::poll::Poll;
use scr::runtime::timers::{TimerKey, Timers, SWEEP_AFTER};
use scr::runtime::waker::Waker;

/// Above this share of due timers the heap is rebuilt.
const REBUILD_RATIO: usize = 8;

const ANCHOR: Instant = Instant {
    nanos: 5_000_000_000,
};

fn store() -> Timers {
    Timers::new(ANCHOR)
}

fn waker(token: u64) -> Waker {
    Waker { token }
}

/// An expiry from beginning to end, with everybody who is woken.
fn expire_into(timers: &mut Timers, now: u64, ready: &mut Vec<Waker>) -> usize {
    let mut expiry = timers.expire(now);
    while let Some(mut woken) = timers.expire_next(&mut expiry) {
        ready.append(&mut woken);
    }
    expiry.fired() as usize
}

fn expire(timers: &mut Timers, now: u64) -> usize {
    expire_into(timers, now, &mut Vec::new())
}

fn next_is_due(timers: &Timers, now: u64) -> bool {
    timers.earliest().is_some_and(|d| d <= now)
}

/// Deadlines chosen to make the sift paths work: not sorted, not reverse
/// sorted, with duplicates and a run that forces a fill from a different
/// subtree.
const SPREAD: [u64; 12] = [50, 10, 90, 10, 70, 30, 30, 110, 20, 60, 40, 80];

#[test]
fn the_earliest_deadline_is_the_one_reported() {
    let mut timers = store();

    for (i, &deadline) in SPREAD.iter().enumerate() {
        timers.insert(deadline);
        assert_eq!(
            timers.earliest(),
            Some(SPREAD[..=i].iter().copied().min().expect("non-empty")),
        );
    }
}

#[test]
fn expiry_is_in_deadline_order() {
    let mut timers = store();
    let keys: Vec<_> = SPREAD.iter().map(|&d| timers.insert(d)).collect();
    for (i, &key) in keys.iter().enumerate() {
        assert_eq!(timers.poll(key, &waker(i as u64)), Poll::Pending);
    }

    let mut sorted = SPREAD;
    sorted.sort_unstable();

    let mut ready = Vec::new();
    let mut fired = 0;
    while fired < sorted.len() {
        let deadline = sorted[fired];
        assert_eq!(timers.earliest(), Some(deadline));
        assert!(next_is_due(&timers, deadline));
        fired += expire_into(&mut timers, deadline, &mut ready);
    }

    assert_eq!(timers.earliest(), None);
    let order: Vec<u64> = ready.iter().map(|w| SPREAD[w.token as usize]).collect();
    assert_eq!(order, sorted);
    // Every entry is still alive: expiring takes a timer out of the heap,
    // not out of the store.
    assert_eq!(timers.entries(), SPREAD.len());

    for key in keys {
        timers.remove(key);
    }
    assert_eq!(timers.entries(), 0);
}

#[test]
fn only_due_timers_are_taken() {
    let mut timers = store();
    for &deadline in &SPREAD {
        timers.insert(deadline);
    }

    assert!(
        !next_is_due(&timers, 9),
        "nothing is due before the first"
    );
    assert_eq!(expire(&mut timers, 9), 0);
    assert_eq!(timers.len(), SPREAD.len());

    // The three at 10 and 10 and 20.
    assert_eq!(expire(&mut timers, 20), 3);
    assert_eq!(timers.len(), SPREAD.len() - 3);
}

/// A cancelled timer leaves nothing behind, whatever order the cancellations
/// come in.
#[test]
fn cancelling_leaves_no_trace() {
    for step in 1..=SPREAD.len() {
        let mut timers = store();
        let keys: Vec<_> = SPREAD.iter().map(|&d| timers.insert(d)).collect();

        // A different traversal order each time round, so that removals hit
        // the root, the last element, and the middle.
        let mut taken = vec![false; keys.len()];
        let mut at = 0;
        for _ in 0..keys.len() {
            while taken[at] {
                at = (at + 1) % keys.len();
            }
            taken[at] = true;
            timers.remove(keys[at]);
            let left = (0..keys.len())
                .filter(|&i| !taken[i])
                .map(|i| SPREAD[i])
                .min();
            assert_eq!(timers.earliest(), left);
            at = (at + step) % keys.len();
        }

        assert_eq!(timers.len(), 0, "step {step}");
        assert_eq!(timers.entries(), 0, "step {step}");
    }
}

#[test]
fn removing_a_fired_timer_is_still_clean() {
    let mut timers = store();
    let early = timers.insert(10);
    let late = timers.insert(20);

    assert_eq!(expire(&mut timers, 10), 1);
    timers.remove(early);

    assert_eq!(timers.earliest(), Some(20));
    timers.remove(late);
    assert_eq!(timers.entries(), 0);
}

#[test]
fn reset_moves_a_pending_timer_in_both_directions() {
    let mut timers = store();
    let a = timers.insert(50);
    timers.insert(60);
    timers.insert(70);

    timers.reset(a, 80);
    assert_eq!(timers.earliest(), Some(60), "it moved behind the others");

    timers.reset(a, 5);
    assert_eq!(timers.earliest(), Some(5), "and back to the front");
}

/// What a periodic timer does every tick: the timer has left the heap, and
/// resetting it has to put it back rather than silently do nothing.
#[test]
fn reset_rearms_a_fired_timer() {
    let mut timers = store();
    let key = timers.insert(10);

    assert_eq!(expire(&mut timers, 10), 1);
    assert_eq!(timers.earliest(), None);

    timers.reset(key, 20);
    assert_eq!(timers.earliest(), Some(20));
    assert_eq!(expire(&mut timers, 20), 1);
}

#[test]
fn a_pending_timer_registers_its_waker_and_a_fired_one_reports_ready() {
    let mut timers = store();
    let key = timers.insert(10);
    let waiting = waker(77);

    assert_eq!(timers.poll(key, &waiting), Poll::Pending);
    let mut ready = Vec::new();
    assert_eq!(expire_into(&mut timers, 10, &mut ready), 1);
    assert_eq!(ready, vec![waiting]);
    assert_eq!(timers.poll(key, &waiting), Poll::Ready(()));
    // Idempotent: a future may be polled again before it is dropped.
    assert_eq!(timers.poll(key, &waiting), Poll::Ready(()));
    assert!(timers.expire_all(u64::MAX).1.is_empty());

    timers.remove(key);
}

/// A timer whose deadline passes before anybody polls it. There is nobody to
/// wake, which must not be mistaken for nothing having happened.
#[test]
fn a_timer_can_expire_before_it_is_ever_polled() {
    let mut timers = store();
    let key = timers.insert(10);

    let mut ready = Vec::new();
    assert_eq!(expire_into(&mut timers, 10, &mut ready), 1);
    assert!(ready.is_empty());
    assert_eq!(timers.poll(key, &waker(1)), Poll::Ready(()));

    timers.remove(key);
}

/// The last waker to be left is the one that is woken.
#[test]
fn a_later_poll_replaces_the_waker() {
    let mut timers = store();
    let key = timers.insert(10);
    assert_eq!(timers.poll(key, &waker(1)), Poll::Pending);
    assert_eq!(timers.poll(key, &waker(2)), Poll::Pending);
    timers.reset(key, 12);
    assert_eq!(expire(&mut timers, 11), 0);
    assert_eq!(timers.expire_all(12), (1, vec![waker(2)]));
}

/// Expiring fires exactly the timers at or before the cutoff, and leaves a
/// usable store behind, whichever way it goes about it.
#[test]
fn expiry_fires_exactly_the_timers_that_are_due() {
    let mut rng = 0x243F_6A88_85A3_08D3u64;
    let mut next = move || {
        rng ^= rng << 13;
        rng ^= rng >> 7;
        rng ^= rng << 17;
        rng
    };

    let mut pops = 0;
    let mut unlinks = 0;
    let mut rebuilds = 0;

    for _ in 0..500 {
        let count = 1 + (next() % 400) as usize;
        let deadlines: Vec<u64> = (0..count).map(|_| next() % 1_000).collect();
        // Deliberately reaches past both ends of the range.
        let cutoff = next() % 1_100;

        let expected = deadlines.iter().filter(|&&d| d <= cutoff).count();

        let mut batched = store();
        let batched_keys: Vec<TimerKey> = deadlines.iter().map(|&d| batched.insert(d)).collect();
        let fired = expire(&mut batched, cutoff);

        assert_eq!(
            fired, expected,
            "{count} timers, cutoff {cutoff}: fired {fired}, {expected} were due"
        );
        assert_eq!(
            batched.len(),
            count - expected,
            "the survivors were miscounted"
        );

        if expected <= SWEEP_AFTER {
            pops += 1;
        } else if expected * REBUILD_RATIO < count {
            unlinks += 1;
        } else {
            rebuilds += 1;
        }

        // The survivors must still be usable: every one of them comes out, in
        // order, and nothing else does.
        let mut last = 0;
        let mut drained = 0;
        while next_is_due(&batched, u64::MAX - 1) {
            let deadline = batched.earliest().expect("one is due");
            assert!(deadline >= last, "the survivors came out of order");
            last = deadline;
            drained += expire(&mut batched, deadline);
        }
        assert_eq!(drained, count - expected, "a survivor was lost");

        for key in batched_keys {
            batched.remove(key);
        }
        assert_eq!(batched.entries(), 0, "entries outlived their futures");
    }

    // The randomisation is only worth anything if it reached every tier.
    assert!(pops > 20, "the pop tier ran only {pops} times");
    assert!(unlinks > 20, "the unlink tier ran only {unlinks} times");
    assert!(rebuilds > 20, "the rebuild tier ran only {rebuilds} times");
}

/// The rebuild path specifically, at a size where it is the one that runs.
#[test]
fn expiring_almost_everything_rebuilds_a_valid_heap() {
    let mut timers = store();
    let keys: Vec<TimerKey> = (0..2_000)
        .map(|i| timers.insert((i * 7) % 2_000))
        .collect();

    // Nine tenths due, so this is the rebuild and not the unlink path.
    let fired = expire(&mut timers, 1_799);
    assert_eq!(fired, 1_800);
    assert_eq!(timers.len(), 200);

    assert_eq!(timers.earliest(), Some(1_800));
    assert_eq!(expire(&mut timers, u64::MAX - 1), 200);

    for key in keys {
        timers.remove(key);
    }
    assert_eq!(timers.entries(), 0);
}

/// Expiring nothing must not disturb the store.
#[test]
fn expiring_when_nothing_is_due_is_a_no_op() {
    let mut timers = store();
    for &deadline in &SPREAD {
        timers.insert(deadline);
    }

    assert_eq!(expire(&mut timers, 9), 0);
    assert_eq!(timers.len(), SPREAD.len());
    assert_eq!(timers.earliest(), Some(10));
}

/// A due timer deep in the heap is only reachable through due ancestors.
#[test]
fn a_due_timer_below_other_due_timers_is_still_found() {
    let mut timers = store();
    let keys: Vec<TimerKey> = (0..64).map(|i| timers.insert(i)).collect();

    assert_eq!(expire(&mut timers, 63), 64, "the whole chain was due");
    assert_eq!(timers.len(), 0);

    for key in keys {
        timers.remove(key);
    }
    assert_eq!(timers.entries(), 0);
}

#[test]
fn an_instant_before_the_anchor_is_already_due() {
    let timers = store();
    let before = Instant {
        nanos: ANCHOR.nanos - 1_000_000_000,
    };

    assert_eq!(timers.since_anchor(before), 0);
}

#[test]
fn the_anchor_round_trips() {
    let timers = store();
    let then = Instant {
        nanos: ANCHOR.nanos + 1_234_567,
    };

    assert_eq!(timers.since_anchor(then), 1_234_567);
    assert_eq!(timers.to_instant(1_234_567), then);
}

/// Expiring in two steps fires what expiring in one does.
#[test]
fn expiry_can_be_taken_in_two_steps() {
    let mut once = store();
    let mut twice = store();
    for &deadline in &SPREAD {
        once.insert(deadline);
        twice.insert(deadline);
    }
    assert_eq!(expire(&mut once, 60), expire(&mut twice, 25) + expire(&mut twice, 60));
    assert_eq!(once.len(), twice.len());
    assert_eq!(once.earliest(), twice.earliest());
    assert_eq!(expire(&mut once, 60), 0);
}

/// Setting a timer and taking it back leaves the store as it was.
#[test]
fn removing_undoes_inserting() {
    let mut timers = store();
    let kept = timers.insert(30);
    let gone = timers.insert(10);
    assert_eq!(timers.earliest(), Some(10));
    timers.remove(gone);
    assert_eq!(timers.earliest(), Some(30));
    assert_eq!((timers.len(), timers.entries()), (1, 1));
    timers.remove(kept);
    assert_eq!((timers.len(), timers.entries()), (0, 0));
}

/// Whoever is woken may come back to the store before the next timer is taken.
#[test]
fn a_timer_moved_or_removed_while_others_fire_is_not_taken() {
    let mut timers = store();
    let first = timers.insert(10);
    let moved = timers.insert(20);
    let removed = timers.insert(30);
    for (token, key) in [(1, first), (2, moved), (3, removed)] {
        assert_eq!(timers.poll(key, &waker(token)), Poll::Pending);
    }

    let mut expiry = timers.expire(50);
    assert_eq!(timers.expire_next(&mut expiry), Some(vec![waker(1)]));
    timers.reset(moved, 60);
    timers.remove(removed);
    let armed = timers.insert(40);
    assert_eq!(timers.expire_next(&mut expiry), Some(vec![]));
    assert_eq!(timers.poll(armed, &waker(4)), Poll::Ready(()));
    assert_eq!(timers.expire_next(&mut expiry), None);
    assert_eq!(expiry.fired(), 2);
    // It is over, whatever is armed after that.
    timers.insert(1);
    assert_eq!(timers.expire_next(&mut expiry), None);

    assert_eq!(timers.expire_all(59), (1, vec![]));
    assert_eq!(timers.expire_all(60), (1, vec![waker(2)]));
}

/// Past the first few, everything that is due is taken at once.
#[test]
fn the_rest_is_taken_in_one_pass() {
    let mut timers = store();
    for i in 0..10u64 {
        let key = timers.insert(i);
        assert_eq!(timers.poll(key, &waker(i)), Poll::Pending);
    }
    let mut expiry = timers.expire(8);
    for i in 0..SWEEP_AFTER as u64 {
        assert_eq!(timers.expire_next(&mut expiry), Some(vec![waker(i)]));
    }
    let mut rest = timers.expire_next(&mut expiry).expect("more is due");
    rest.sort_by_key(|w| w.token);
    assert_eq!(rest, (4..9).map(waker).collect::<Vec<_>>());
    assert_eq!(expiry.fired(), 9);
    assert_eq!(timers.expire_next(&mut expiry), None);
    assert_eq!((timers.len(), timers.entries()), (1, 10));
}

/// What each operation does to the counts.
#[test]
fn counts_follow_every_operation() {
    let mut timers = store();
    let a = timers.insert(10);
    let b = timers.insert(20);
    assert_eq!((timers.len(), timers.entries()), (2, 2));
    assert_eq!(expire(&mut timers, 10), 1);
    assert_eq!((timers.len(), timers.entries()), (1, 2));
    // Resetting a fired timer arms it again, a pending one only moves.
    timers.reset(a, 5);
    assert_eq!((timers.len(), timers.entries()), (2, 2));
    assert_eq!(timers.earliest(), Some(5));
    timers.reset(b, 15);
    assert_eq!((timers.len(), timers.entries()), (2, 2));
    // Removing a pending timer takes it from both, a fired one only from one.
    assert_eq!(expire(&mut timers, 5), 1);
    timers.remove(a);
    assert_eq!((timers.len(), timers.entries()), (1, 1));
    timers.remove(b);
    assert_eq!((timers.len(), timers.entries()), (0, 0));
    assert_eq!(expire(&mut timers, u64::MAX), 0);
}
