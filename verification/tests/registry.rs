use scr::runtime::task::arena::Arena;
use scr::runtime::task::list;
use scr::runtime::task::list::LinkedList;
use scr::runtime::task::owned::{OwnedTasks, RawTask};
use scr::runtime::task::state::{
    CallerRef, State, TransitionToIdle, TransitionToRunning, INITIAL_STATE, JOIN_INTEREST,
    NOTIFIED, REF_ONE,
};

fn task(place: usize) -> RawTask {
    RawTask { place }
}

fn places(list: &mut LinkedList) -> Vec<usize> {
    let mut out = Vec::new();
    while let Some(task) = list.pop_back() {
        out.push(task.place);
    }
    out
}

/// Tasks leave at the other end than they came in by.
#[test]
fn the_list_is_first_in_first_out() {
    let mut list = LinkedList::new();
    assert!(list.is_empty());
    for place in [4, 1, 7] {
        list.push_front(task(place));
    }
    assert!(!list.is_empty());
    assert_eq!(places(&mut list), vec![4, 1, 7]);
    assert!(list.is_empty());
    assert!(list.pop_back().is_none());
}

/// The first, the last and one in the middle can be taken out, each once.
#[test]
fn any_task_can_be_unlinked() {
    for gone in 0..4usize {
        let mut list = LinkedList::new();
        for place in 0..4 {
            list.push_front(task(place));
        }
        assert!(list.remove(task(9)).is_none());
        assert_eq!(list.remove(task(gone)).unwrap().place, gone);
        assert!(list.remove(task(gone)).is_none());
        let rest: Vec<usize> = (0..4).filter(|&p| p != gone).collect();
        assert_eq!(places(&mut list), rest);
    }
}

/// A task that was just added can be taken back.
#[test]
fn unlinking_undoes_linking() {
    let mut list = LinkedList::new();
    list.push_front(task(1));
    list.push_front(task(2));
    list.remove(task(2));
    assert_eq!(places(&mut list), vec![1]);
    list.push_front(task(2));
    assert_eq!(places(&mut list), vec![2]);
}

/// A closed collection takes nothing in, and hands out what it holds.
#[test]
fn a_closed_collection_binds_nothing() {
    let mut owned = list::OwnedTasks::new();
    assert!(owned.bind(task(3)));
    assert!(owned.bind(task(5)));
    assert!(owned.remove(task(8)).is_none());
    assert!(!owned.is_closed());
    assert_eq!(owned.close_and_take().unwrap().place, 3);
    assert!(owned.is_closed());
    assert!(!owned.bind(task(6)));
    assert_eq!(owned.remove(task(5)).unwrap().place, 5);
    assert!(owned.is_empty());
    assert!(owned.close_and_take().is_none());
}

/// Slots are handed out from the first, and the last one freed comes first.
#[test]
fn the_registry_files_tasks_under_their_ids() {
    let mut owned = OwnedTasks::new();
    assert_eq!(owned.next_id().slot(), 0);
    assert_eq!(owned.bind(task(10)), 0);
    assert_eq!(owned.bind(task(11)), 1);
    assert_eq!(owned.bind(task(12)), 2);
    assert!(!owned.is_full());

    // Another runtime's task is left alone.
    assert!(owned.remove(1, task(10)).is_none());
    assert!(owned.remove(7, task(10)).is_none());
    assert!(owned.is_foreign(true, 1, task(10)));
    assert!(owned.is_foreign(true, 7, task(10)));
    assert!(!owned.is_foreign(true, 1, task(11)));
    assert!(!owned.is_foreign(false, 1, task(10)));

    assert_eq!(owned.remove(1, task(11)).unwrap().place, 11);
    assert_eq!(owned.next_id().slot(), 1);
    assert_eq!(owned.bind(task(13)), 1);

    let all: Vec<(usize, usize)> = owned.close().iter().map(|t| (t.0, t.1.place)).collect();
    assert_eq!(all, vec![(0, 10), (1, 13), (2, 12)]);
    assert!(owned.is_closed() && owned.is_empty());
}

/// A freed place is used again, and the others stay what they are.
#[test]
fn places_are_used_again() {
    let mut arena = Arena::new();
    let a = arena.insert("a");
    let b = arena.insert("b");
    assert_ne!(a, b);
    assert_eq!(arena.remove(a), "a");
    let c = arena.insert("c");
    assert_eq!(c, a);
    assert_eq!((*arena.get(b), *arena.get(c)), ("b", "c"));
    *arena.get_mut(b) = "d";
    assert_eq!(*arena.get(b), "d");
}

/// The life of a task that is polled, woken while it runs, and completes.
#[test]
fn a_task_goes_from_idle_to_complete() {
    assert_eq!(INITIAL_STATE, 3 * REF_ONE + JOIN_INTEREST + NOTIFIED);
    let mut state = State::new();
    let born = state.load();
    assert!(born.is_idle() && born.is_notified() && born.is_join_interested());
    assert!(!born.is_owned() && !born.is_cancelled() && !born.is_output_taken());
    assert_eq!(born.ref_count(), 3);

    assert_eq!(state.transition_to_running(), TransitionToRunning::Polled);
    assert!(state.load().is_running());
    // The lock is held, so a second poll is turned away.
    assert_eq!(state.transition_to_running(), TransitionToRunning::Dead);
    // Woken while it runs: noted, but nobody queues it.
    assert!(!state.transition_to_notified(CallerRef::Kept));
    assert_eq!(state.load().ref_count(), 3);
    assert_eq!(state.transition_to_idle(), TransitionToIdle::Notified);

    assert_eq!(state.transition_to_running(), TransitionToRunning::Polled);
    assert_eq!(state.transition_to_idle(), TransitionToIdle::Idle);
    // Idle: whoever wakes it first queues it.
    assert!(state.transition_to_notified(CallerRef::Kept));
    assert_eq!(state.load().ref_count(), 4);
    assert!(!state.transition_to_notified(CallerRef::Kept));
    assert!(!state.transition_to_notified(CallerRef::Consumed));

    assert_eq!(state.transition_to_running(), TransitionToRunning::Polled);
    let done = state.transition_to_complete(false);
    assert!(done.is_complete() && !done.is_running() && !done.is_cancelled());
    state.set_cancelled();
    assert!(!state.load().is_cancelled(), "it is done for already");
    assert!(state.take_output());
    assert!(!state.take_output(), "a result is handed out once");
    assert!(!state.transition_to_terminal(2));
    state.unset_join_interested();
    assert!(!state.ref_dec());
    assert!(state.ref_dec(), "the last reference");
}

/// A task that is cancelled is not polled again, and finds out when its poll
/// returns.
#[test]
fn a_cancelled_task_is_not_polled() {
    let mut state = State::new();
    state.set_cancelled();
    assert_eq!(
        state.transition_to_running(),
        TransitionToRunning::Cancelled
    );
    assert!(state.transition_to_complete(true).is_cancelled());

    let mut state = State::new();
    assert_eq!(state.transition_to_running(), TransitionToRunning::Polled);
    state.set_cancelled();
    assert_eq!(state.transition_to_idle(), TransitionToIdle::Cancelled);
    assert!(state.load().is_running(), "the lock is kept for the kill");

    state.set_owned();
    assert!(state.load().is_owned());
    assert!(state.unset_owned());
    assert!(!state.unset_owned());
    state.ref_inc();
    assert_eq!(state.load().ref_count(), 4);
}

/// Of many wakes only the first queues a task, whoever gives a reference.
#[test]
fn only_the_first_wake_queues() {
    for first in [CallerRef::Kept, CallerRef::Consumed] {
        let mut state = State::new();
        assert!(!state.transition_to_notified(first), "it is woken when made");
        state.transition_to_running();
        state.transition_to_idle();
        let refs = state.load().ref_count();
        assert!(state.load().is_wakeable() && state.load().is_countable());
        assert!(state.transition_to_notified(first));
        let counted = refs + usize::from(first == CallerRef::Kept);
        for next in [CallerRef::Kept, CallerRef::Consumed, CallerRef::Kept] {
            assert!(!state.transition_to_notified(next));
            assert_eq!(state.load().ref_count(), counted);
        }
    }
}
