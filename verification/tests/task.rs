use std::cell::{Cell, RefCell};
use std::collections::HashMap;
use std::rc::Rc;

use scr::runtime::blocking::{Action, Signal};
use scr::runtime::context::{Context, TaskIdGuard};
use scr::runtime::poll::Poll;
use scr::runtime::sched::Step;
use scr::runtime::task::abort::AbortHandle;
use scr::runtime::task::error::{JoinError, Payload};
use scr::runtime::task::id;
use scr::runtime::task::join::JoinHandle;
use scr::runtime::task::owned::RawTask;
use scr::runtime::task::raw::{self, Location, Polled, Settle, Stage};
use scr::runtime::task::waker::{self as task_waker, BLOCKED_ON};
use scr::runtime::waker::Waker;
use scr::runtime::Runtime;

/// What a future answers when it is polled.
enum Answer {
    Pending,
    Ready(u64),
    Panic(&'static str),
}

/// A future: what it does when polled, and what it panics with when dropped.
struct Future {
    poll: Box<dyn FnMut(&mut World, RawTask) -> Answer>,
    on_drop: Box<dyn FnMut(&mut World) -> Option<Payload>>,
}

/// A runtime with the futures of its tasks, and the thread that drives it.
struct World {
    rt: Runtime,
    context: Context,
    signal: Signal,
    futures: HashMap<usize, Future>,
    /// Outputs that were dropped without being read.
    discarded: Vec<u64>,
}

fn text(s: &str) -> Payload {
    Payload::Text(s.to_string())
}

impl World {
    fn new(number: u64) -> World {
        World {
            rt: Runtime::new(number),
            context: Context::empty(),
            signal: Signal::new(),
            futures: HashMap::new(),
            discarded: Vec::new(),
        }
    }

    fn spawn_full(
        &mut self,
        poll: impl FnMut(&mut World, RawTask) -> Answer + 'static,
        on_drop: impl FnMut(&mut World) -> Option<Payload> + 'static,
    ) -> JoinHandle {
        assert!(!self.rt.handle().is_full(), "ids left");
        let (join, step) = self.rt.spawn(Location {
            file: "tests/task.rs",
            line: 64,
            column: 9,
        });
        let task = join.raw();
        self.futures.insert(
            task.place,
            Future {
                poll: Box::new(poll),
                on_drop: Box::new(on_drop),
            },
        );
        self.run(task, step);
        join
    }

    fn spawn(&mut self, poll: impl FnMut(&mut World, RawTask) -> Answer + 'static) -> JoinHandle {
        self.spawn_full(poll, |_| None)
    }

    fn drop_future(&mut self, task: RawTask) -> Option<Payload> {
        let mut future = self.futures.remove(&task.place).expect("dropped once");
        (future.on_drop)(self)
    }

    /// Do what a step says, and what follows from it.
    fn run(&mut self, task: RawTask, step: Step) {
        let mut step = step;
        loop {
            step = match step {
                Step::PollFuture => {
                    let id = self.rt.handle().id(task);
                    let guard = TaskIdGuard::enter(&mut self.context, id);
                    let mut future = self.futures.remove(&task.place).expect("still there");
                    let answer = (future.poll)(self, task);
                    self.futures.insert(task.place, future);
                    let polled = match answer {
                        Answer::Pending => Polled::new(Ok(Poll::Pending), None),
                        Answer::Ready(output) => {
                            let dropped = self.drop_future(task);
                            Polled::new(Ok(Poll::Ready(output)), dropped)
                        }
                        Answer::Panic(message) => {
                            let dropped = self.drop_future(task);
                            Polled::new(Err(text(message)), dropped)
                        }
                    };
                    guard.leave(&mut self.context);
                    self.rt.handle_mut().future_polled(task, polled)
                }
                Step::DropFuture => {
                    let panic = self.drop_future(task);
                    Step::Settle(self.rt.handle_mut().future_dropped(task, panic))
                }
                Step::Settle(settle) => {
                    match settle {
                        Settle::Wake(Some(waker)) => self.wake(&waker),
                        Settle::Wake(None) => {}
                        Settle::Discard(stage) => self.discard(stage),
                    }
                    let freed = self.rt.handle_mut().settled(task);
                    Step::Done(freed)
                }
                Step::Done(freed) => {
                    if let Some(header) = freed {
                        self.discard(header.into_stage());
                    }
                    return;
                }
            };
        }
    }

    fn discard(&mut self, stage: Stage) {
        if let Stage::Finished(Ok(output)) = stage {
            self.discarded.push(output);
        }
    }

    fn wake(&mut self, waker: &Waker) {
        self.rt.wake_by_ref(&mut self.signal, waker);
    }

    /// Let others run first.
    fn yield_now(&mut self) {
        self.wake(&Waker { token: BLOCKED_ON });
    }

    fn join(&mut self, join: &JoinHandle) -> Option<Result<u64, JoinError>> {
        match join.poll(self.rt.handle_mut(), &Waker { token: BLOCKED_ON }) {
            Poll::Ready(result) => Some(result),
            Poll::Pending => None,
        }
    }

    fn is_finished(&self, join: &JoinHandle) -> bool {
        join.is_finished(self.rt.handle())
    }

    fn block_on<T>(&mut self, mut root: impl FnMut(&mut World) -> Option<T>) -> T {
        let (signal, mut block_on) = self.rt.block_on();
        self.signal = signal;
        let guard = self.rt.enter(&mut self.context);
        loop {
            match block_on.next(&mut self.signal, self.rt.handle_mut()) {
                Action::PollRoot => {
                    if let Some(out) = root(self) {
                        self.context.leave_runtime(guard);
                        return out;
                    }
                }
                Action::Run(task, step) => self.run(task, step),
                Action::Deadlock => panic!("deadlock"),
            }
        }
    }

    /// Block until everything that can run has run `n` times.
    fn turns(&mut self, n: u32) {
        let mut left = n;
        self.block_on(move |w| {
            if left == 0 {
                return Some(());
            }
            left -= 1;
            w.yield_now();
            None
        })
    }

    fn join_on(&mut self, join: &JoinHandle) -> Result<u64, JoinError> {
        self.block_on(|w| w.join(join))
    }

    fn shut_down(&mut self) {
        while let Some(tasks) = self.rt.shutdown() {
            for task in tasks {
                let step = self.rt.handle_mut().shutdown(task);
                self.run(task, step);
            }
            while let Some((_, freed)) = self.rt.handle_mut().drain() {
                if let Some(header) = freed {
                    self.discard(header.into_stage());
                }
            }
        }
    }
}

fn flag() -> (Rc<Cell<bool>>, Rc<Cell<bool>>) {
    let f = Rc::new(Cell::new(false));
    (Rc::clone(&f), f)
}

#[test]
fn block_on_returns_output() {
    let mut w = World::new(1);
    assert_eq!(w.block_on(|_| Some(1 + 2)), 3);
}

#[test]
fn spawn_and_join() {
    let mut w = World::new(1);
    let mut handle = None;
    let out = w.block_on(move |w| {
        let handle = handle.get_or_insert_with(|| w.spawn(|_, _| Answer::Ready(0x68656c6c6f)));
        w.join(handle).map(|r| r.unwrap())
    });
    // "hello"
    assert_eq!(out.to_be_bytes()[3..], *b"hello");
}

#[test]
fn spawn_from_outside_block_on() {
    let mut w = World::new(1);
    let handle = w.spawn(|_, _| Answer::Ready(7));
    assert_eq!(w.join_on(&handle).unwrap(), 7);
}

#[test]
fn tasks_run_in_spawn_order() {
    let mut w = World::new(1);
    let order = Rc::new(RefCell::new(String::new()));

    for c in ['a', 'b', 'c'] {
        let order = Rc::clone(&order);
        w.spawn(move |_, _| {
            order.borrow_mut().push(c);
            Answer::Ready(0)
        });
    }
    w.turns(4);

    assert_eq!(*order.borrow(), "abc");
}

#[test]
fn nested_spawn() {
    let mut w = World::new(1);
    let mut inner: Option<JoinHandle> = None;
    let outer = w.spawn(move |w, task| {
        let inner = inner.get_or_insert_with(|| w.spawn(|_, _| Answer::Ready(42)));
        let waker = task_waker::clone(w.rt.handle_mut(), task);
        match inner.poll(w.rt.handle_mut(), &waker) {
            Poll::Ready(out) => Answer::Ready(out.unwrap()),
            Poll::Pending => Answer::Pending,
        }
    });
    assert_eq!(w.join_on(&outer).unwrap(), 42);
}

#[test]
fn detached_task_still_runs() {
    let mut w = World::new(1);
    let (ran, seen) = flag();

    // Let go of the handle immediately; the task is detached.
    let handle = w.spawn(move |_, _| {
        ran.set(true);
        Answer::Ready(0)
    });
    assert!(handle.close(w.rt.handle_mut()).is_none());
    w.turns(1);

    assert!(seen.get());
    assert_eq!(w.discarded, vec![0], "nobody reads the output");
}

#[test]
fn join_handle_dropped_after_completion() {
    let mut w = World::new(1);
    let handle = w.spawn(|_, _| Answer::Ready(77));

    // Let the task complete and store its output.
    w.turns(2);
    assert!(w.discarded.is_empty());

    // Dropping the handle must drop the stored output.
    let freed = handle.close(w.rt.handle_mut()).expect("the last reference");
    w.discard(freed.into_stage());

    assert_eq!(w.discarded, vec![77]);
}

#[test]
fn task_panic_is_reported_to_join_handle() {
    let mut w = World::new(1);
    let handle = w.spawn(|_, _| Answer::Panic("boom"));
    let err = w.join_on(&handle).unwrap_err();

    assert!(err.is_panic());
    assert!(!err.is_cancelled());
    let Payload::Text(message) = err.into_panic() else {
        panic!("the message was kept");
    };
    assert_eq!(message, "boom");
}

#[test]
fn abort_before_first_poll() {
    let mut w = World::new(1);
    let (ran, seen) = flag();

    let handle = w.spawn(move |_, _| {
        ran.set(true);
        Answer::Ready(0)
    });
    handle.abort(w.rt.handle_mut());
    let err = w.join_on(&handle).unwrap_err();

    assert!(err.is_cancelled());
    assert!(!seen.get(), "an aborted task must not be polled");
}

#[test]
fn abort_pending_task() {
    let mut w = World::new(1);
    let handle = w.spawn(|_, _| Answer::Pending);

    // Let the task be polled once so that it parks.
    w.turns(1);

    handle.abort(w.rt.handle_mut());
    assert!(w.join_on(&handle).unwrap_err().is_cancelled());
}

#[test]
fn abort_handle_clone_and_id() {
    let mut w = World::new(1);
    let handle = w.spawn(|_, _| Answer::Pending);
    let abort = handle.abort_handle(w.rt.handle_mut());
    let abort2 = abort.clone_in(w.rt.handle_mut());

    assert_eq!(abort.id(w.rt.handle()), handle.id(w.rt.handle()));
    assert_eq!(abort2.id(w.rt.handle()), handle.id(w.rt.handle()));
    assert!(!abort.is_finished(w.rt.handle()));

    w.turns(1);
    abort2.abort(w.rt.handle_mut());

    assert!(w.join_on(&handle).unwrap_err().is_cancelled());
    assert!(abort.is_finished(w.rt.handle()));

    // The task is gone when the last of the three lets go of it.
    assert!(handle.close(w.rt.handle_mut()).is_none());
    assert!(abort2.close(w.rt.handle_mut()).is_none());
    assert!(abort.close(w.rt.handle_mut()).is_some());
}

#[test]
fn completed_task_is_finished() {
    let mut w = World::new(1);
    let handle = w.spawn(|_, _| Answer::Ready(0));
    assert!(!w.is_finished(&handle));

    w.turns(2);

    assert!(w.is_finished(&handle));
    w.join_on(&handle).unwrap();
}

#[test]
fn task_id_is_visible_from_inside_the_task() {
    let mut w = World::new(1);
    let mut handle = None;
    let (inside, outer) = w.block_on(move |w| {
        // What is blocked on is not a task.
        assert!(id::try_id(&w.context).is_none());
        assert_eq!(w.context.try_current_handle(), Some(1));

        let handle = handle.get_or_insert_with(|| {
            w.spawn(|w, _| Answer::Ready(id::id(&w.context).slot() as u64))
        });
        let outer = handle.id(w.rt.handle());
        w.join(handle).map(|r| (r.unwrap(), outer.slot() as u64))
    });
    assert_eq!(inside, outer);
    assert!(w.context.try_current_handle().is_none());
}

#[test]
fn spawn_location_is_captured() {
    let mut w = World::new(1);
    let handle = w.spawn(|_, _| Answer::Ready(0));
    let location = handle.spawned_at(w.rt.handle());

    assert!(location.file.ends_with("task.rs"));
    assert_eq!((location.line, location.column), (64, 9));
    w.join_on(&handle).unwrap();
}

#[test]
fn dropping_the_runtime_shuts_down_pending_tasks() {
    let mut w = World::new(1);
    let (dropped, seen) = flag();

    let handle = w.spawn_full(
        |_, _| Answer::Pending,
        move |_| {
            dropped.set(true);
            None
        },
    );

    // Poll the task once so that it is parked inside the runtime.
    w.turns(1);
    w.shut_down();

    assert!(seen.get(), "the task's future must be dropped");
    assert!(w.is_finished(&handle));
}

#[test]
fn waking_a_parked_task_reschedules_it() {
    let mut w = World::new(1);
    let slot: Rc<Cell<Option<RawTask>>> = Rc::new(Cell::new(None));

    let handle = {
        let slot = Rc::clone(&slot);
        let mut polled = false;
        w.spawn(move |w, task| {
            if polled {
                return Answer::Ready(99);
            }
            polled = true;
            w.rt.handle_mut().ref_inc(task);
            slot.set(Some(task));
            Answer::Pending
        })
    };

    // Let the task park.
    w.turns(1);

    let task = slot.take().expect("task should have parked");
    assert!(w.rt.handle_mut().wake_by_val(task).is_none());
    assert_eq!(w.join_on(&handle).unwrap(), 99);
}

#[test]
fn yield_now_lets_other_tasks_run() {
    let mut w = World::new(1);
    let log = Rc::new(RefCell::new(String::new()));

    let two_steps = |w: &mut World, first: char, second: char| {
        let log = Rc::clone(&log);
        let mut yielded = false;
        w.spawn(move |w, task| {
            if yielded {
                log.borrow_mut().push(second);
                return Answer::Ready(0);
            }
            log.borrow_mut().push(first);
            yielded = true;
            w.wake(&task_waker::waker_ref(task));
            Answer::Pending
        })
    };
    let a = two_steps(&mut w, '1', '3');
    let b = two_steps(&mut w, '2', '4');

    w.join_on(&a).unwrap();
    w.join_on(&b).unwrap();

    assert_eq!(*log.borrow(), "1234");
}

/// A task that aborts itself from inside its own poll must not have its future
/// dropped while that future is still live on the stack; the drop is deferred
/// until the poll returns.
#[test]
fn task_aborting_itself_defers_the_drop() {
    let mut w = World::new(1);
    let (dropped, seen) = flag();
    let (survived_abort, survived) = flag();
    let slot: Rc<RefCell<Option<AbortHandle>>> = Rc::new(RefCell::new(None));

    let handle = {
        let slot = Rc::clone(&slot);
        let seen = Rc::clone(&seen);
        w.spawn_full(
            move |w, _| {
                // Abort ourselves from inside our own poll.
                slot.borrow().as_ref().unwrap().abort(w.rt.handle_mut());

                assert!(!seen.get(), "a running future must not be dropped");
                survived_abort.set(true);
                Answer::Pending
            },
            move |_| {
                dropped.set(true);
                None
            },
        )
    };
    let abort = handle.abort_handle(w.rt.handle_mut());
    slot.replace(Some(abort));
    let err = w.join_on(&handle).unwrap_err();

    assert!(survived.get());
    assert!(err.is_cancelled());
    assert!(seen.get(), "the future is dropped once the poll returns");
}

/// Repeated wakes of a parked task must collapse into a single re-poll.
#[test]
fn repeated_wakes_queue_the_task_once() {
    let mut w = World::new(1);
    let slot: Rc<Cell<Option<Waker>>> = Rc::new(Cell::new(None));

    let handle = {
        let slot = Rc::clone(&slot);
        let mut polls = 0;
        w.spawn(move |w, task| {
            polls += 1;
            if polls >= 2 {
                return Answer::Ready(polls);
            }
            slot.set(Some(task_waker::clone(w.rt.handle_mut(), task)));
            Answer::Pending
        })
    };

    // Let the task park.
    w.turns(1);

    let waker = slot.take().expect("task should have parked");
    for _ in 0..5 {
        w.wake(&waker);
    }
    let total = w.join_on(&handle).unwrap();

    assert_eq!(total, 2, "five wakes must produce exactly one re-poll");
}

/// A task that wakes itself *by value* from inside its own poll must be
/// re-queued once, not scheduled while it is still on the stack.
#[test]
fn self_wake_by_value_during_poll() {
    let mut w = World::new(1);
    let mut polls = 0;
    let handle = w.spawn(move |w, task| {
        polls += 1;
        if polls >= 3 {
            return Answer::Ready(polls);
        }
        // This consumes a reference while the task is running.
        w.rt.handle_mut().ref_inc(task);
        assert!(w.rt.handle_mut().wake_by_val(task).is_none());
        Answer::Pending
    });

    assert_eq!(w.join_on(&handle).unwrap(), 3);
}

/// The slot a finished task occupied is handed to a later one. Parked tasks are
/// interleaved between the waves so that the completing tasks free slots from
/// the middle of the registry rather than only off the end.
#[test]
fn registry_slots_are_reused_as_tasks_complete() {
    let mut w = World::new(1);
    let mut parked: Vec<JoinHandle> = Vec::new();
    let mut seen = Vec::new();

    for wave in 0..4u64 {
        // Never completes, so it holds its slot for the rest of the test.
        parked.push(w.spawn(|_, _| Answer::Pending));

        let handles: Vec<JoinHandle> = (0..8u64)
            .map(|i| w.spawn(move |_, _| Answer::Ready(wave * 8 + i)))
            .collect();

        for handle in handles {
            seen.push(w.join_on(&handle).unwrap());
            handle.close(w.rt.handle_mut());
        }
    }

    for handle in &parked {
        assert!(
            !w.is_finished(handle),
            "the parked tasks must still be live"
        );
    }
    assert_eq!(seen, (0..32).collect::<Vec<u64>>());

    // Shutting down now hits four parked tasks that sit in a registry full of
    // recycled and vacant slots.
    w.shut_down();
    for handle in &parked {
        assert!(w.is_finished(handle));
    }
    assert!(w.futures.is_empty());
}

/// Shutting a task down is polling it with cancellation already requested, so
/// it has to work on a task that is sitting in the run queue, having never been
/// polled at all.
#[test]
fn shutdown_kills_a_task_that_is_still_queued() {
    let mut w = World::new(1);
    let (dropped, seen) = flag();
    let handle = w.spawn_full(
        |_, _| Answer::Pending,
        move |_| {
            dropped.set(true);
            None
        },
    );

    // The runtime goes away without ever draining its run queue.
    w.shut_down();

    assert!(seen.get(), "the task's future must be dropped");
    assert!(w.is_finished(&handle));
    assert!(w.rt.handle().is_idle());
}

/// A future's destructor runs while its task holds the poll lock and is in no
/// registry, and it may wake another task from there. That wake has to reach
/// the run queue, which the shutdown loop then drains.
#[test]
fn a_destructor_may_wake_another_task_during_shutdown() {
    let mut w = World::new(1);
    let slot: Rc<Cell<Option<RawTask>>> = Rc::new(Cell::new(None));
    let (woke, seen) = flag();

    // The waker is spawned first so that it is shut down first, while the task
    // it wakes is still alive.
    let waker_task = {
        let slot = Rc::clone(&slot);
        w.spawn_full(
            move |_, _| {
                woke.set(true);
                Answer::Pending
            },
            move |w| {
                if let Some(task) = slot.take() {
                    w.rt.handle_mut().wake_by_val(task);
                }
                None
            },
        )
    };
    let parked = {
        let slot = Rc::clone(&slot);
        w.spawn(move |w, task| {
            w.rt.handle_mut().ref_inc(task);
            slot.set(Some(task));
            Answer::Pending
        })
    };

    w.turns(1);

    assert!(seen.get(), "both tasks must have parked");
    w.shut_down();

    assert!(w.is_finished(&waker_task));
    assert!(w.is_finished(&parked));
}

/// An id names a registry slot, so the slot a finished task held is handed to
/// the next task spawned.
#[test]
fn ids_are_reused_once_a_task_completes() {
    let mut w = World::new(1);
    let first = w.spawn(|_, _| Answer::Ready(0));
    let id = first.id(w.rt.handle());
    w.join_on(&first).unwrap();

    let second = w.spawn(|_, _| Answer::Ready(0));
    assert_eq!(second.id(w.rt.handle()), id);
    w.join_on(&second).unwrap();
}

/// Two runtimes may exist on one thread; each drives only its own tasks.
#[test]
fn two_runtimes_on_one_thread_are_independent() {
    let mut a = World::new(1);
    let mut b = World::new(2);

    let one = a.spawn(|_, _| Answer::Ready(1));
    assert_eq!(a.join_on(&one).unwrap(), 1);
    let two = b.spawn(|_, _| Answer::Ready(2));
    assert_eq!(b.join_on(&two).unwrap(), 2);
    let three = a.spawn(|_, _| Answer::Ready(3));
    assert_eq!(a.join_on(&three).unwrap(), 3);
}

/// Handles kept past the end of the runtime stay usable. Every task is complete
/// by then, and nothing a complete task can be asked to do reaches the runtime.
#[test]
fn handles_outliving_the_runtime_are_inert() {
    let mut w = World::new(1);

    let handle = w.spawn(|_, _| Answer::Pending);
    let abort = handle.abort_handle(w.rt.handle_mut());

    w.turns(1);
    w.shut_down();

    assert!(w.is_finished(&handle));
    assert!(abort.is_finished(w.rt.handle()));
    assert_eq!(abort.id(w.rt.handle()), handle.id(w.rt.handle()));

    // Neither of these may put it on the run queue.
    abort.abort(w.rt.handle_mut());
    handle.abort(w.rt.handle_mut());
    assert!(w.rt.handle().is_idle());
}

/// A future whose destructor panics while the task is being cancelled reports
/// the panic rather than the cancellation.
#[test]
fn a_panic_while_cancelling_is_reported_as_a_panic() {
    let mut w = World::new(1);
    let handle = w.spawn_full(|_, _| Answer::Pending, |_| Some(text("drop boom")));

    w.turns(1);
    handle.abort(w.rt.handle_mut());
    let err = w.join_on(&handle).unwrap_err();

    assert!(err.is_panic());
    assert!(!err.is_cancelled());
}

/// Aborting a task that has already finished must leave its result alone.
#[test]
fn aborting_a_finished_task_does_nothing() {
    let mut w = World::new(1);
    let handle = w.spawn(|_, _| Answer::Ready(7));

    w.turns(2);
    assert!(w.is_finished(&handle));

    let abort = handle.abort_handle(w.rt.handle_mut());
    abort.abort(w.rt.handle_mut());
    assert_eq!(w.join_on(&handle).unwrap(), 7);
}

fn message_of(err: JoinError) -> String {
    match err.into_panic() {
        Payload::Text(message) => message,
        Payload::Opaque(token) => panic!("{token} is no message"),
    }
}

/// A future that panics while being polled is left in the task, and has to be
/// dropped before the panic can be stored in its place. That drop may panic in
/// turn, and the panic already being reported is the one that wins.
#[test]
fn a_destructor_that_panics_after_a_failed_poll_is_swallowed() {
    let mut w = World::new(1);
    let handle = w.spawn_full(
        |_, _| Answer::Panic("poll boom"),
        |_| Some(text("drop boom")),
    );
    let err = w.join_on(&handle).unwrap_err();

    assert!(err.is_panic());
    assert_eq!(
        message_of(err),
        "poll boom",
        "the panic from the poll is the one reported"
    );
}

/// A future that finishes and then panics on the way out is reported as a
/// panic. Its result never reaches the `JoinHandle`, and the task still
/// completes rather than being left holding the poll lock.
#[test]
fn a_destructor_that_panics_after_a_ready_poll_is_reported() {
    let mut w = World::new(1);
    let handle = w.spawn_full(|_, _| Answer::Ready(5), |_| Some(text("drop boom")));
    let err = w.join_on(&handle).unwrap_err();

    assert!(err.is_panic());
    assert_eq!(message_of(err), "drop boom");
}

/// Binding a task to a closed registry must shut the task down without
/// polling it, without queueing it, and without ever adding it to the
/// registry.
#[test]
fn bind_on_closed_registry_shuts_the_task_down() {
    let mut w = World::new(1);
    assert!(w.rt.handle_mut().close().is_empty());
    assert!(w.rt.handle().is_closed());

    let (dropped, was_dropped) = flag();
    let (polled, was_polled) = flag();
    let join = w.spawn_full(
        move |_, _| {
            polled.set(true);
            Answer::Pending
        },
        move |_| {
            dropped.set(true);
            None
        },
    );

    assert!(
        !was_polled.get(),
        "a task bound to a closed registry must not be polled"
    );
    assert!(was_dropped.get(), "its future must still be dropped");
    assert!(
        w.rt.handle_mut().next_task().is_none(),
        "it must not be queued"
    );
    assert!(w.rt.handle().is_idle(), "it must not be in the registry");
    assert!(w.is_finished(&join));
}

/// What is blocked on is polled again only once it has been woken, and blocking
/// for ever is noticed.
#[test]
fn blocking_with_nothing_to_do_is_noticed() {
    let mut rt = Runtime::new(1);
    let (mut signal, mut block_on) = rt.block_on();
    let mut next = |signal: &mut Signal| block_on.next(signal, rt.handle_mut());
    assert!(matches!(next(&mut signal), Action::PollRoot));
    assert!(matches!(next(&mut signal), Action::Deadlock));
    signal.wake();
    assert!(matches!(next(&mut signal), Action::PollRoot));
    assert!(matches!(next(&mut signal), Action::Deadlock));
}

/// A batch of tasks ends after so many, so that what is blocked on gets its
/// turn.
#[test]
fn a_batch_of_tasks_has_an_end() {
    let mut w = World::new(1);
    let ran = Rc::new(Cell::new(0u32));
    for _ in 0..100 {
        let ran = Rc::clone(&ran);
        w.spawn(move |_, _| {
            ran.set(ran.get() + 1);
            Answer::Ready(0)
        });
    }
    let mut polls = Vec::new();
    let counted = w.block_on(move |w| {
        polls.push(ran.get());
        if polls.len() == 4 {
            return Some(polls.clone());
        }
        w.yield_now();
        None
    });
    // The wake is noticed after the first task of each batch.
    assert_eq!(counted, vec![0, 1, 2, 3]);
}

/// How errors read.
#[test]
fn errors_name_the_task_and_what_happened() {
    let mut w = World::new(1);
    let parked = w.spawn(|_, _| Answer::Pending);
    let loud = w.spawn(|_, _| Answer::Panic("say \"no\"\n"));
    parked.abort(w.rt.handle_mut());

    let err = w.join_on(&parked).unwrap_err();
    assert_eq!(err.message(), "task 1 was cancelled");
    assert_eq!(err.debug_message(), "JoinError::Cancelled(Id { v: 1 })");
    assert_eq!(err.id().text(), "1");
    let err = err.try_into_panic().unwrap_err();
    assert!(err.is_cancelled());

    let err = w.join_on(&loud).unwrap_err();
    assert_eq!(
        err.message(),
        "task 2 panicked with message \"say \\\"no\\\"\\n\""
    );
    assert_eq!(
        err.debug_message(),
        "JoinError::Panic(Id { v: 2 }, \"say \\\"no\\\"\\n\", ...)"
    );
    assert!(matches!(err.try_into_panic(), Ok(Payload::Text(_))));

    let err = JoinError::panic(loud.id(w.rt.handle()), Payload::Opaque(6));
    assert_eq!(err.message(), "task 2 panicked");
    assert_eq!(err.debug_message(), "JoinError::Panic(Id { v: 2 }, ...)");
    assert!(matches!(err.into_panic(), Payload::Opaque(6)));
}

/// A runtime entered inside another one is left back into it.
#[test]
fn entering_is_undone_by_leaving() {
    let outer = Runtime::new(1);
    let inner = Runtime::new(2);
    let mut context = Context::empty();
    let a = outer.enter(&mut context);
    let b = inner.enter(&mut context);
    assert_eq!(context.current_handle(), 2);
    context.leave_runtime(b);
    assert_eq!(context.current_handle(), 1);
    context.leave_runtime(a);
    assert_eq!(context.try_current_handle(), None);

    let one = id::Id::from_slot(0);
    let two = id::Id::from_slot(1);
    let a = TaskIdGuard::enter(&mut context, one);
    let b = TaskIdGuard::enter(&mut context, two);
    assert_eq!(id::id(&context), two);
    b.leave(&mut context);
    assert_eq!(id::id(&context), one);
    a.leave(&mut context);
    assert_eq!(id::try_id(&context), None);
}

/// Two wakers of one task are alike, and wakers of two tasks are not.
#[test]
fn wakers_tell_tasks_apart() {
    let a = task_waker::waker_ref(RawTask { place: 3 });
    let b = task_waker::waker_ref(RawTask { place: 4 });
    assert!(a.will_wake(&task_waker::waker_ref(RawTask { place: 3 })));
    assert!(!a.will_wake(&b));
    assert_eq!(task_waker::task_of_waker(&b).unwrap().place, 4);
    assert!(task_waker::task_of_waker(&Waker { token: BLOCKED_ON }).is_none());
}

/// A panic takes the place of an output, and the first panic is the one reported.
#[test]
fn what_polling_and_dropping_come_to() {
    assert!(matches!(Polled::new(Ok(Poll::Pending), None), Polled::Pending));
    assert!(matches!(
        Polled::new(Ok(Poll::Ready(3)), None),
        Polled::Ready(3)
    ));
    assert!(matches!(
        Polled::new(Ok(Poll::Ready(3)), Some(Payload::Opaque(8))),
        Polled::Panicked(Payload::Opaque(8))
    ));
    assert!(matches!(
        Polled::new(Err(Payload::Opaque(7)), None),
        Polled::Panicked(Payload::Opaque(7))
    ));
    assert!(matches!(
        Polled::new(Err(Payload::Opaque(7)), Some(Payload::Opaque(8))),
        Polled::Panicked(Payload::Opaque(7))
    ));
    assert_eq!(
        raw::after_drop(Ok(Poll::Ready("out")), Some("drop")),
        Err("drop")
    );
    assert_eq!(
        raw::after_drop(Err::<Poll<()>, _>("poll"), Some("drop")),
        Err("poll")
    );
    assert_eq!(
        raw::after_drop(Ok::<_, ()>(Poll::Ready("out")), None),
        Ok(Poll::Ready("out"))
    );
}

/// Whatever became of a task, the error says which it was.
#[test]
fn an_error_names_its_own_task() {
    let mut w = World::new(1);
    let aborted = w.spawn(|_, _| Answer::Pending);
    let panicked = w.spawn(|_, _| Answer::Panic("boom"));
    let shut_down = w.spawn(|_, _| Answer::Pending);
    aborted.abort(w.rt.handle_mut());
    let ids: Vec<_> = [&aborted, &panicked, &shut_down]
        .iter()
        .map(|join| join.id(w.rt.handle()))
        .collect();
    assert!(ids[0] != ids[1] && ids[1] != ids[2] && ids[0] != ids[2]);
    assert_eq!(w.join_on(&aborted).unwrap_err().id(), ids[0]);
    assert_eq!(w.join_on(&panicked).unwrap_err().id(), ids[1]);
    w.shut_down();
    let err = w.join(&shut_down).expect("it is over").unwrap_err();
    assert!(err.is_cancelled());
    assert_eq!(err.id(), ids[2]);
}

/// A task that is aborted while it is being polled still has whatever that poll
/// comes to.
#[test]
fn a_task_that_finishes_while_it_is_aborted_keeps_its_output() {
    let mut w = World::new(1);
    let handle = w.spawn(|w, task| {
        w.rt.handle_mut().remote_abort(task);
        Answer::Ready(5)
    });
    assert_eq!(w.join_on(&handle).unwrap(), 5);
}

/// However often it is woken, an aborted task is not polled again.
#[test]
fn an_aborted_task_is_never_polled_again() {
    let mut w = World::new(1);
    let polls = Rc::new(Cell::new(0));
    let counted = Rc::clone(&polls);
    let handle = w.spawn(move |_, _| {
        counted.set(counted.get() + 1);
        Answer::Pending
    });
    w.turns(1);
    assert_eq!(polls.get(), 1);
    let task = handle.raw();
    w.rt.handle_mut().wake_by_ref(task);
    handle.abort(w.rt.handle_mut());
    w.rt.handle_mut().wake_by_ref(task);
    assert!(!w.is_finished(&handle));
    w.turns(3);
    w.rt.handle_mut().wake_by_ref(task);
    w.turns(1);
    assert_eq!(polls.get(), 1);
    assert!(w.join_on(&handle).unwrap_err().is_cancelled());
}

/// Dropping a runtime ends every task on it: those that wait, those that are
/// queued, and those that destructors make on the way.
#[test]
fn dropping_a_runtime_ends_every_task_unpolled() {
    let mut w = World::new(1);
    let done = w.spawn(|_, _| Answer::Ready(9));
    w.turns(1);
    let polls = Rc::new(Cell::new(0));
    let made: Rc<RefCell<Option<JoinHandle>>> = Rc::new(RefCell::new(None));
    let counted = Rc::clone(&polls);
    let queued = w.spawn(move |_, _| {
        counted.set(counted.get() + 1);
        Answer::Pending
    });
    let queued_task = queued.raw();
    let maker = {
        let made = Rc::clone(&made);
        let counted = Rc::clone(&polls);
        w.spawn_full(
            |_, _| Answer::Pending,
            move |w| {
                let counted = Rc::clone(&counted);
                let late = w.spawn(move |_, _| {
                    counted.set(counted.get() + 1);
                    Answer::Pending
                });
                made.replace(Some(late));
                w.rt.handle_mut().wake_by_ref(queued_task);
                Some(text("drop boom"))
            },
        )
    };
    let ids = [queued.id(w.rt.handle()), maker.id(w.rt.handle())];

    w.shut_down();
    let late = made.take().expect("it was made");
    assert_eq!(polls.get(), 0, "nothing is polled");
    for join in [&done, &queued, &maker, &late] {
        assert!(w.is_finished(join));
        join.abort(w.rt.handle_mut());
        w.rt.handle_mut().wake_by_ref(join.raw());
        assert!(w.rt.handle().is_idle());
    }
    assert_eq!([queued.id(w.rt.handle()), maker.id(w.rt.handle())], ids);
    assert_eq!(w.join(&done).unwrap().unwrap(), 9);
    assert!(w.join(&queued).unwrap().unwrap_err().is_cancelled());
    assert!(w.join(&late).unwrap().unwrap_err().is_cancelled());
    assert_eq!(message_of(w.join(&maker).unwrap().unwrap_err()), "drop boom");
}

/// Draining the run queue says which task went, and what is left of it.
#[test]
fn draining_names_the_task() {
    let mut w = World::new(1);
    let first = w.spawn(|_, _| Answer::Pending);
    let second = w.spawn(|_, _| Answer::Pending);
    assert!(w.rt.handle().is_wakeable(first.raw()));
    assert!(w.rt.handle().is_countable(first.raw()));
    for task in w.rt.shutdown().expect("two are queued") {
        let step = w.rt.handle_mut().shutdown(task);
        w.run(task, step);
    }
    let handle = w.rt.handle_mut();
    let (task, freed) = handle.drain().expect("the first is queued");
    assert_eq!(task, first.raw());
    assert!(freed.is_none(), "there is a handle to it");
    assert!(second.close(w.rt.handle_mut()).is_none(), "it is still queued");
    let (_, freed) = w.rt.handle_mut().drain().expect("the second is queued");
    assert!(freed.is_some(), "nobody else refers to it");
    assert!(w.rt.handle_mut().drain().is_none());
}
