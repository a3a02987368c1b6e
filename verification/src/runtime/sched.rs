//! The state a runtime shares with every task spawned on it.
//!
//! Tasks are driven from outside: the methods here say what to do with a task's
//! future next — poll it, drop it, or nothing — and take in what came of that.
//! User code may run in between, and may wake, abort and spawn tasks, and drop
//! handles to them, while it does.

use std::collections::VecDeque;

use vstd::prelude::*;

use super::moves;
use super::moves::Move;
use super::poll::Poll;
use super::task::arena::Arena;
use super::task::error::{JoinError, Payload};
use super::task::id::Id;
use super::task::owned;
use super::task::owned::{OwnedTasks, RawTask};
use super::task::raw;
use super::task::raw::{Header, HeaderView, Location, Polled, Settle, StageView};
use super::task::state::{CallerRef, Lifecycle, TransitionToIdle, TransitionToRunning};
use super::waker::Waker;

verus! {

/// Room in the run queue to start with.
const BASE_QUEUE_SIZE: usize = 32;

/// What to do with a task next.
#[derive(Debug)]
pub enum Step {
    /// Poll its future, then report with [`Handle::future_polled`].
    PollFuture,
    /// Drop its future, then report with [`Handle::future_dropped`].
    DropFuture,
    /// Deal with its completion, then report with [`Handle::settled`].
    Settle(Settle),
    /// Nothing. If this was the last reference to the task, here is what is left
    /// of it, to be dropped.
    Done(Option<Header>),
}

/// The state a runtime shares with every task spawned on it.
pub struct Handle {
    /// Every task there is a reference to.
    tasks: Arena<Header>,
    /// Tasks that have been woken and are waiting to be polled.
    queue: VecDeque<RawTask>,
    /// Every task spawned on this runtime, so that they can all be shut down when
    /// it goes away.
    owned: OwnedTasks,
}

/// What a runtime holds.
pub struct HandleView {
    /// Every task there is a reference to, by its place.
    pub tasks: Map<usize, HeaderView>,
    /// The places of the tasks waiting to be polled, in order.
    pub queue: Seq<usize>,
    /// The registered task in each slot.
    pub registry: Map<usize, RawTask>,
    /// No task can be registered any more.
    pub closed: bool,
}

/// One for yes.
pub open spec fn one_if(yes: bool) -> int {
    if yes {
        1
    } else {
        0
    }
}

/// How many references to a task the runtime itself accounts for: one in the run
/// queue, one in the registry, one for the `JoinHandle`, and one with whoever is
/// polling it.
pub open spec fn accounted(h: HeaderView, queued: bool) -> int {
    one_if(queued) + one_if(h.life.owned) + one_if(h.life.join_interest) + one_if(
        h.life.running || h.settling,
    )
}

/// What holds of every task: it is sound, every reference the runtime accounts
/// for is counted, it waits to be polled exactly if it has been woken since it
/// last was, and it is registered until it completes. Once the registry is
/// closed, it may be out of there and miss its turn.
pub open spec fn in_order(h: HeaderView, queued: bool, closed: bool) -> bool {
    &&& h.sound()
    &&& h.life.refs >= 1
    &&& h.life.refs >= accounted(h, queued)
    &&& h.life.idle() && queued ==> h.life.notified
    &&& h.life.running && queued ==> h.life.cancelled
    &&& h.life.idle() && h.life.notified && !closed ==> queued
    &&& !h.life.complete && !closed ==> h.life.owned
}

impl HandleView {
    /// Everything the runtime knows of agrees.
    pub open spec fn valid(self) -> bool {
        &&& self.queue.no_duplicates()
        &&& forall|p: usize| #[trigger] self.queue.contains(p) ==> self.tasks.contains_key(p)
        &&& forall|p: usize| #[trigger]
            self.tasks.contains_key(p) ==> in_order(
                self.tasks[p],
                self.queue.contains(p),
                self.closed,
            )
        &&& forall|p: usize| #[trigger]
            self.tasks.contains_key(p) && self.tasks[p].life.owned ==> self.files(p)
        &&& forall|slot: usize| #[trigger]
            self.registry.contains_key(slot) ==> {
                let p = self.registry[slot].place;
                &&& self.tasks.contains_key(p)
                &&& self.tasks[p].life.owned
                &&& self.tasks[p].id@ == slot + 1
            }
    }

    /// The registry files the task under its id.
    pub open spec fn files(self, p: usize) -> bool {
        let slot = (self.tasks[p].id@ - 1) as usize;
        self.registry.contains_key(slot) && self.registry[slot] == (RawTask { place: p })
    }

    /// References to a task that somebody else holds: wakers, abort handles, and
    /// a registry's that was handed out to shut the task down.
    pub open spec fn spare(self, p: usize) -> int {
        self.tasks[p].life.refs - accounted(self.tasks[p], self.queue.contains(p))
    }

    /// One task changed.
    pub open spec fn with_task(self, p: usize, h: HeaderView) -> HandleView {
        HandleView { tasks: self.tasks.insert(p, h), ..self }
    }

    /// One task changed, or gone if that leaves it without references.
    pub open spec fn with_or_without(self, p: usize, h: HeaderView) -> HandleView {
        if h.life.refs == 0 {
            HandleView { tasks: self.tasks.remove(p), ..self }
        } else {
            self.with_task(p, h)
        }
    }

    /// One task waits to be polled.
    pub open spec fn with_queued(self, p: usize) -> HandleView {
        HandleView { queue: self.queue.push(p), ..self }
    }

    /// The task is woken, by somebody who keeps its reference.
    pub open spec fn with_woken(self, p: usize) -> HandleView {
        let h = self.tasks[p];
        if h.life.complete || h.life.notified {
            self
        } else if h.life.running {
            self.with_task(p, h.with_life(Lifecycle { notified: true, ..h.life }))
        } else {
            self.with_task(
                p,
                h.with_life(Lifecycle { notified: true, refs: h.life.refs + 1, ..h.life }),
            ).with_queued(p)
        }
    }

    /// The task loses one reference that the runtime does not account for.
    pub open spec fn with_dropped(self, p: usize) -> HandleView {
        let h = self.tasks[p];
        self.with_or_without(
            p,
            h.with_life(Lifecycle { refs: h.life.refs - 1, ..h.life }),
        )
    }

    /// The task is to be killed as soon as possible.
    pub open spec fn with_cancelled(self, p: usize) -> HandleView {
        let h = self.tasks[p];
        if h.life.complete {
            self
        } else {
            self.with_task(p, h.with_life(Lifecycle { cancelled: true, ..h.life }))
        }
    }
}

/// One task changed and perhaps queued: everything still agrees if that task is
/// in order.
proof fn lemma_task_changed(v: HandleView, p: usize, h: HeaderView, w: HandleView)
    requires
        v.valid(),
        v.tasks.contains_key(p),
        w == v.with_task(p, h) || (w == v.with_task(p, h).with_queued(p) && !v.queue.contains(p)),
        h.id == v.tasks[p].id,
        h.life.owned == v.tasks[p].life.owned,
        in_order(h, w.queue.contains(p), w.closed),
    ensures
        w.valid(),
{
    assert forall|q: usize| #[trigger] w.queue.contains(q) <==> v.queue.contains(q) || (q == p
        && w.queue != v.queue) by {
        if w.queue != v.queue {
            lemma_push_contains(v.queue, p, q);
        }
    }
    assert(w.queue.no_duplicates()) by {
        if w.queue != v.queue {
            assert forall|i: int, j: int| 0 <= i < j < w.queue.len() implies w.queue[i]
                != w.queue[j] by {
                if j == v.queue.len() {
                    assert(v.queue.contains(v.queue[i]));
                }
            }
        }
    }
    assert forall|q: usize| #[trigger] w.tasks.contains_key(q) && w.tasks[q].life.owned implies w.files(
        q,
    ) by {
        assert(v.tasks.contains_key(q));
        assert(v.files(q));
    }
    assert forall|q: usize| #[trigger] w.tasks.contains_key(q) implies in_order(
        w.tasks[q],
        w.queue.contains(q),
        w.closed,
    ) by {
        assert(v.tasks.contains_key(q));
        assert(w.queue.contains(q) == (v.queue.contains(q) || (q == p && w.queue != v.queue)));
    }
}

/// What a longer queue contains.
proof fn lemma_push_contains(queue: Seq<usize>, p: usize, q: usize)
    ensures
        queue.push(p).contains(q) == (queue.contains(q) || q == p),
{
    if queue.contains(q) {
        let i = choose|i: int| 0 <= i < queue.len() && queue[i] == q;
        assert(queue.push(p)[i] == q);
    }
    assert(queue.push(p)[queue.len() as int] == p);
    if queue.push(p).contains(q) {
        let i = choose|i: int| 0 <= i < queue.push(p).len() && queue.push(p)[i] == q;
        if i < queue.len() {
            assert(queue[i] == q);
        }
    }
}

/// What a queue contains once its front has been taken.
proof fn lemma_skip_contains(queue: Seq<usize>, q: usize)
    requires
        queue.len() > 0,
        queue.no_duplicates(),
    ensures
        queue.skip(1).no_duplicates(),
        queue.skip(1).contains(q) == (queue.contains(q) && q != queue[0]),
{
    let rest = queue.skip(1);
    if rest.contains(q) {
        let i = choose|i: int| 0 <= i < rest.len() && rest[i] == q;
        assert(queue[i + 1] == q);
    }
    if queue.contains(q) && q != queue[0] {
        let i = choose|i: int| 0 <= i < queue.len() && queue[i] == q;
        assert(rest[i - 1] == q);
    }
}

/// A task that nobody refers to is in no place where its absence would show.
proof fn lemma_task_gone(v: HandleView, p: usize)
    requires
        v.valid(),
        v.tasks.contains_key(p),
        !v.queue.contains(p),
        !v.tasks[p].life.owned,
    ensures
        (HandleView { tasks: v.tasks.remove(p), ..v }).valid(),
{
    let w = HandleView { tasks: v.tasks.remove(p), ..v };
    assert forall|q: usize| #[trigger] w.tasks.contains_key(q) && w.tasks[q].life.owned implies w.files(
        q,
    ) by {
        assert(v.tasks.contains_key(q));
        assert(v.files(q));
    }
    assert forall|q: usize| #[trigger] w.tasks.contains_key(q) implies in_order(
        w.tasks[q],
        w.queue.contains(q),
        w.closed,
    ) by {
        assert(v.tasks.contains_key(q));
    }
}

impl View for Handle {
    type V = HandleView;

    closed spec fn view(&self) -> HandleView {
        HandleView {
            tasks: self.tasks@.map_values(|h: Header| h@),
            queue: self.queue@.map_values(|task: RawTask| task.place),
            registry: self.owned@,
            closed: self.owned.shut(),
        }
    }
}

impl Handle {
    /// Everything the runtime knows of agrees.
    pub closed spec fn wf(&self) -> bool {
        &&& self.tasks.wf()
        &&& self@.valid()
    }

    /// What a runtime holds agrees.
    pub proof fn lemma_valid(&self)
        requires
            self.wf(),
        ensures
            self@.valid(),
    {
    }

    /// The slot of the registry the next task gets.
    pub closed spec fn vacant(&self) -> usize {
        self.owned.vacant()
    }

    /// A runtime with nothing on it.
    pub fn new() -> (handle: Handle)
        ensures
            handle.wf(),
            handle@ == (HandleView {
                tasks: Map::empty(),
                queue: Seq::empty(),
                registry: Map::empty(),
                closed: false,
            }),
            handle.vacant() == 0,
    {
        let handle = Handle {
            tasks: Arena::new(),
            queue: VecDeque::with_capacity(BASE_QUEUE_SIZE),
            owned: OwnedTasks::new(),
        };
        proof {
            assert(handle@.tasks =~= Map::<usize, HeaderView>::empty());
            assert(handle@.queue =~= Seq::<usize>::empty());
        }
        handle
    }

    /// Change a task, its registration and its identity aside.
    proof fn lemma_view_insert(&self, before: Handle, p: usize, h: Header)
        requires
            self.tasks@ == before.tasks@.insert(p, h),
            self.queue == before.queue,
            self.owned == before.owned,
        ensures
            self@ == before@.with_task(p, h@),
    {
        assert(self@.tasks =~= before@.tasks.insert(p, h@));
    }

    /// Puts a woken task on the run queue.
    fn schedule(&mut self, task: RawTask)
        ensures
            final(self)@ == old(self)@.with_queued(task.place),
            final(self).tasks == old(self).tasks,
            final(self).owned == old(self).owned,
    {
        let ghost before = self@;
        self.queue.push_back(task);
        proof {
            assert(self@.queue =~= before.queue.push(task.place));
        }
    }

    /// Drops one reference, freeing the task if it was the last.
    fn forget(&mut self, task: RawTask) -> (freed: Option<Header>)
        requires
            old(self).tasks.wf(),
            old(self)@.tasks.contains_key(task.place),
            old(self)@.tasks[task.place].life.refs >= 1,
        ensures
            final(self).tasks.wf(),
            final(self)@ == old(self)@.with_dropped(task.place),
            freed is Some == (old(self)@.tasks[task.place].life.refs == 1),
            freed matches Some(header) ==> header@.is_left_of(old(self)@.tasks[task.place]),
            final(self).queue == old(self).queue,
            final(self).owned == old(self).owned,
    {
        let ghost before = *self;
        let p = task.place;
        let last = self.tasks.get_mut(p).state_mut().ref_dec();
        proof {
            self.lemma_view_insert(before, p, self.tasks@[p]);
        }
        if last {
            let header = self.tasks.remove(p);
            proof {
                assert(self@.tasks =~= before@.tasks.remove(p));
            }
            Some(header)
        } else {
            None
        }
    }

    /// Whether there are as many tasks as there are ids.
    pub fn is_full(&self) -> (full: bool)
        ensures
            full == (self.vacant() >= u32::MAX),
    {
        self.owned.is_full()
    }

    /// Makes a task and registers it, with the returned task being what its
    /// `JoinHandle` refers to.
    ///
    /// The task goes on the run queue. One made while the registry is closed is
    /// not registered and not queued, but to be killed: its future is to be
    /// dropped, as [`Step::DropFuture`] says.
    pub fn spawn(&mut self, spawned_at: Location) -> (spawned: (RawTask, Step))
        requires
            old(self).wf(),
            old(self).vacant() < u32::MAX,
        ensures
            final(self).wf(),
            moves::moves(
                old(self)@,
                Move::Spawn(spawned.0.place, final(self)@.tasks[spawned.0.place].id, spawned_at),
                final(self)@,
            ),
            ({
                let (task, step) = spawned;
                let p = task.place;
                let slot = old(self).vacant();
                let h = final(self)@.tasks[p];
                let fresh = raw::new_header(h.id, spawned_at);
                &&& !old(self)@.tasks.contains_key(p)
                &&& h.id@ == slot + 1
                &&& if old(self)@.closed {
                    &&& step is DropFuture
                    &&& final(self)@ == old(self)@.with_task(
                        p,
                        fresh.with_life(Lifecycle { refs: 2, ..fresh.life }).killed(),
                    )
                } else {
                    &&& step matches Step::Done(None)
                    &&& !old(self)@.registry.contains_key(slot)
                    &&& final(self)@ == (HandleView {
                        registry: old(self)@.registry.insert(slot, task),
                        ..old(self)@.with_task(
                            p,
                            fresh.with_life(Lifecycle { owned: true, ..fresh.life }),
                        ).with_queued(p)
                    })
                }
            }),
    {
        let ghost before = *self;
        // The slot is reserved before the task is created, because it becomes the
        // id baked into the task.
        let id = self.owned.next_id();
        let closed = self.owned.is_closed();
        let mut header = Header::new(id, spawned_at);
        if closed {
            // The task will never be queued, so the reference for that goes away
            // here.
            header.state_mut().ref_dec();
            header.state_mut().set_cancelled();
            header.begin();
            let ghost h = header;
            let place = self.tasks.insert(header);
            proof {
                self.lemma_view_insert(before, place, h);
                lemma_task_added(before@, place, h@, self@);
            }
            return (RawTask { place }, Step::DropFuture);
        }
        header.state_mut().set_owned();
        let ghost h = header;
        let place = self.tasks.insert(header);
        let task = RawTask { place };
        proof {
            self.lemma_view_insert(before, place, h);
        }
        self.owned.bind(task);
        self.schedule(task);
        proof {
            lemma_push_contains(before@.queue, place, place);
            lemma_task_added(before@, place, h@, self@);
        }
        (task, Step::Done(None))
    }

    /// Takes the task at the front of the run queue and begins to poll it.
    pub fn next_task(&mut self) -> (next: Option<(RawTask, Step)>)
        requires
            old(self).wf(),
        ensures
            final(self).wf(),
            moves::moves(old(self)@, Move::Next, final(self)@),
            next matches Some((task, step)) ==> {
                &&& (step is PollFuture) == moves::begins_poll(old(self)@, Move::Next, task.place)
                &&& (step is DropFuture) == moves::begins_drop(old(self)@, Move::Next, task.place)
            },
            match next {
                None => old(self)@.queue.len() == 0 && final(self)@ == old(self)@,
                Some((task, step)) => {
                    let p = old(self)@.queue[0];
                    let h = old(self)@.tasks[p];
                    let popped = HandleView { queue: old(self)@.queue.skip(1), ..old(self)@ };
                    &&& old(self)@.queue.len() > 0
                    &&& task.place == p
                    &&& if h.life.idle() {
                        &&& final(self)@ == popped.with_task(p, h.begun())
                        &&& if h.life.cancelled {
                            step is DropFuture
                        } else {
                            step is PollFuture
                        }
                    } else {
                        &&& final(self)@ == popped.with_dropped(p)
                        &&& step matches Step::Done(freed) && (freed is Some) == (h.life.refs == 1)
                            && (freed matches Some(header) ==> header@.is_left_of(h))
                    }
                },
            },
            final(self).vacant() == old(self).vacant(),
    {
        let ghost before = *self;
        let task = match self.queue.pop_front() {
            None => {
                proof {
                    assert(self@.queue =~= before@.queue);
                }
                return None;
            },
            Some(task) => task,
        };
        let ghost p = task.place;
        proof {
            assert(before@.queue[0] == p);
            assert(before@.queue.contains(p));
            assert(self@.queue =~= before@.queue.skip(1));
            assert forall|q: usize| #[trigger] self@.queue.contains(q) == (before@.queue.contains(q)
                && q != p) by {
                lemma_skip_contains(before@.queue, q);
            }
            lemma_skip_contains(before@.queue, p);
        }
        let step = self.begin(task);
        proof {
            lemma_front_polled(before@, self@);
        }
        Some((task, step))
    }

    /// Take the poll lock, with the reference that grants the right to, or give
    /// that reference up.
    fn begin(&mut self, task: RawTask) -> (step: Step)
        requires
            old(self).tasks.wf(),
            old(self)@.tasks.contains_key(task.place),
            old(self)@.tasks[task.place].life.refs >= 1,
        ensures
            final(self).tasks.wf(),
            ({
                let h = old(self)@.tasks[task.place];
                if h.life.idle() {
                    &&& final(self)@ == old(self)@.with_task(task.place, h.begun())
                    &&& if h.life.cancelled {
                        step is DropFuture
                    } else {
                        step is PollFuture
                    }
                } else {
                    &&& final(self)@ == old(self)@.with_dropped(task.place)
                    &&& step matches Step::Done(freed) && (freed is Some) == (h.life.refs == 1) && (
                    freed matches Some(header) ==> header@.is_left_of(h))
                }
            }),
            final(self).owned == old(self).owned,
            final(self).queue == old(self).queue,
    {
        let ghost before = *self;
        let transition = self.tasks.get_mut(task.place).begin();
        proof {
            self.lemma_view_insert(before, task.place, self.tasks@[task.place]);
            assert(!before@.tasks[task.place].life.idle() ==> self@.tasks =~= before@.tasks);
        }
        match transition {
            TransitionToRunning::Polled => Step::PollFuture,
            TransitionToRunning::Cancelled => Step::DropFuture,
            TransitionToRunning::Dead => Step::Done(self.forget(task)),
        }
    }

    /// Kills the task, consuming a reference.
    ///
    /// Shutting a task down is polling it with cancellation already requested:
    /// the poll takes the lock, sees that, and kills the task instead of going
    /// near the future. One that is being polled is killed once that poll
    /// returns.
    pub fn shutdown(&mut self, task: RawTask) -> (step: Step)
        requires
            old(self).wf(),
            old(self)@.tasks.contains_key(task.place),
            old(self)@.spare(task.place) >= 1,
        ensures
            final(self).wf(),
            moves::moves(old(self)@, Move::Shutdown(task.place), final(self)@),
            !(step is PollFuture),
            (step is DropFuture) == moves::begins_drop(
                old(self)@,
                Move::Shutdown(task.place),
                task.place,
            ),
            ({
                let p = task.place;
                let h = old(self)@.tasks[p];
                if h.life.idle() {
                    &&& step is DropFuture
                    &&& final(self)@ == old(self)@.with_task(p, h.killed())
                } else {
                    &&& step matches Step::Done(freed) && (freed is Some) == (h.life.refs == 1) && (
                    freed matches Some(header) ==> header@.is_left_of(h))
                    &&& final(self)@ == old(self)@.with_cancelled(p).with_dropped(p)
                }
            }),
            final(self).vacant() == old(self).vacant(),
    {
        let ghost before = *self;
        let ghost p = task.place;
        let ghost h = before@.tasks[p];
        self.tasks.get_mut(task.place).state_mut().set_cancelled();
        proof {
            self.lemma_view_insert(before, p, self.tasks@[p]);
            assert(self@.tasks =~= before@.with_cancelled(p).tasks);
        }
        let ghost mid = self@;
        let step = self.begin(task);
        proof {
            if h.life.idle() {
                assert(self@.tasks =~= before@.with_task(p, self@.tasks[p]).tasks);
                lemma_task_changed(before@, p, self@.tasks[p], self@);
            } else {
                if !h.life.complete {
                    lemma_task_changed(before@, p, mid.tasks[p], mid);
                }
                lemma_reference_dropped(mid, p);
            }
        }
        step
    }

    /// Go on from what came of polling the future of a task.
    pub fn future_polled(&mut self, task: RawTask, polled: Polled) -> (step: Step)
        requires
            old(self).wf(),
            old(self)@.tasks.contains_key(task.place),
            old(self)@.tasks[task.place].life.running,
            !old(self)@.tasks[task.place].dropping,
        ensures
            final(self).wf(),
            moves::moves(old(self)@, Move::Polled(task.place, polled), final(self)@),
            !(step is PollFuture),
            (step is DropFuture) == moves::begins_drop(
                old(self)@,
                Move::Polled(task.place, polled),
                task.place,
            ),
            ({
                let p = task.place;
                let h = old(self)@.tasks[p];
                match polled {
                    Polled::Pending => if h.life.cancelled {
                        &&& step is DropFuture
                        &&& final(self)@ == old(self)@.with_task(
                            p,
                            HeaderView { dropping: true, ..h },
                        )
                    } else if h.life.notified {
                        &&& step matches Step::Done(None)
                        &&& !old(self)@.queue.contains(p)
                        &&& final(self)@ == old(self)@.with_task(
                            p,
                            h.with_life(Lifecycle { running: false, ..h.life }),
                        ).with_queued(p)
                    } else {
                        &&& step matches Step::Done(freed) && (freed is Some) == (h.life.refs == 1)
                            && (freed matches Some(header) ==> header@.is_left_of(h))
                        &&& final(self)@ == old(self)@.with_or_without(
                            p,
                            h.with_life(
                                Lifecycle { running: false, refs: h.life.refs - 1, ..h.life },
                            ),
                        )
                    },
                    Polled::Ready(output) => {
                        let result = Ok(output);
                        &&& step matches Step::Settle(settle) && h.to_settle(settle, result)
                        &&& final(self)@ == old(self)@.with_task(p, h.completed(result, false))
                    },
                    Polled::Panicked(payload) => {
                        let result = Err(raw::cancel_result(h.id, Some(payload)));
                        &&& step matches Step::Settle(settle) && h.to_settle(settle, result)
                        &&& final(self)@ == old(self)@.with_task(p, h.completed(result, false))
                    },
                }
            }),
            !(polled is Pending) && old(self)@.tasks[task.place].life.join_interest ==> (
            step matches Step::Settle(settle) && settle == Settle::Wake(
                old(self)@.tasks[task.place].waker,
            )),
            final(self).vacant() == old(self).vacant(),
    {
        let ghost before = *self;
        let ghost p = task.place;
        let ghost h = before@.tasks[p];
        proof {
            assert(in_order(h, before@.queue.contains(p), before@.closed));
        }
        match self.tasks.get_mut(task.place).poll_future(polled) {
            Some(settle) => {
                proof {
                    self.lemma_view_insert(before, p, self.tasks@[p]);
                    lemma_task_changed(before@, p, self@.tasks[p], self@);
                }
                return Step::Settle(settle);
            },
            None => {},
        }
        let ghost mid = *self;
        let transition = self.tasks.get_mut(task.place).pause();
        proof {
            mid.lemma_view_insert(before, p, mid.tasks@[p]);
            self.lemma_view_insert(mid, p, self.tasks@[p]);
            assert(mid@.tasks =~= before@.tasks);
        }
        match transition {
            TransitionToIdle::Idle => {
                let freed = self.forget(task);
                proof {
                    let next = h.with_life(
                        Lifecycle { running: false, refs: h.life.refs - 1, ..h.life },
                    );
                    if h.life.refs == 1 {
                        assert(self@.tasks =~= before@.tasks.remove(p));
                        lemma_task_gone(before@, p);
                    } else {
                        assert(self@.tasks =~= before@.tasks.insert(p, next));
                        lemma_task_changed(before@, p, next, self@);
                    }
                }
                Step::Done(freed)
            },
            TransitionToIdle::Notified => {
                self.schedule(task);
                proof {
                    let next = h.with_life(Lifecycle { running: false, ..h.life });
                    assert(self@.tasks =~= before@.tasks.insert(p, next));
                    lemma_push_contains(before@.queue, p, p);
                    lemma_task_changed(before@, p, next, self@);
                }
                Step::Done(None)
            },
            TransitionToIdle::Cancelled => {
                proof {
                    let next = HeaderView { dropping: true, ..h };
                    assert(self@.tasks =~= before@.tasks.insert(p, next));
                    lemma_task_changed(before@, p, next, self@);
                }
                Step::DropFuture
            },
        }
    }

    /// Go on from having dropped the future of a task that is to be killed, with
    /// `panic` being what that panicked with if it did.
    pub fn future_dropped(&mut self, task: RawTask, panic: Option<Payload>) -> (settle: Settle)
        requires
            old(self).wf(),
            old(self)@.tasks.contains_key(task.place),
            old(self)@.tasks[task.place].dropping,
        ensures
            final(self).wf(),
            moves::moves(old(self)@, Move::Dropped(task.place, panic), final(self)@),
            ({
                let p = task.place;
                let h = old(self)@.tasks[p];
                let result = Err(raw::cancel_result(h.id, panic));
                &&& h.to_settle(settle, result)
                &&& final(self)@ == old(self)@.with_task(p, h.completed(result, true))
            }),
            old(self)@.tasks[task.place].life.join_interest ==> settle == Settle::Wake(
                old(self)@.tasks[task.place].waker,
            ),
            final(self).vacant() == old(self).vacant(),
    {
        let ghost before = *self;
        let ghost p = task.place;
        let ghost h = before@.tasks[p];
        proof {
            assert(in_order(h, before@.queue.contains(p), before@.closed));
        }
        let settle = self.tasks.get_mut(task.place).cancel(panic);
        proof {
            self.lemma_view_insert(before, p, self.tasks@[p]);
            lemma_task_changed(before@, p, self@.tasks[p], self@);
        }
        settle
    }

    /// Lets go of a task whose completion has been dealt with: takes it out of the
    /// registry, and releases the reference the poll consumed along with the
    /// registry's, so that the task cannot be freed half way through.
    pub fn settled(&mut self, task: RawTask) -> (freed: Option<Header>)
        requires
            old(self).wf(),
            old(self)@.tasks.contains_key(task.place),
            old(self)@.tasks[task.place].settling,
        ensures
            final(self).wf(),
            moves::moves(old(self)@, Move::Settled(task.place), final(self)@),
            ({
                let p = task.place;
                let h = old(self)@.tasks[p];
                let slot = (h.id@ - 1) as usize;
                let count = 1 + one_if(h.life.owned);
                let next = HeaderView {
                    life: Lifecycle { owned: false, refs: h.life.refs - count, ..h.life },
                    settling: false,
                    ..h
                };
                &&& final(self)@ == (HandleView {
                    registry: if h.life.owned {
                        old(self)@.registry.remove(slot)
                    } else {
                        old(self)@.registry
                    },
                    ..old(self)@.with_or_without(p, next)
                })
                &&& (freed is Some) == (h.life.refs == count)
                &&& freed matches Some(header) ==> header@.is_left_of(h)
                &&& final(self).vacant() == if h.life.owned {
                    slot
                } else {
                    old(self).vacant()
                }
            }),
    {
        let ghost before = *self;
        let ghost p = task.place;
        let ghost h = before@.tasks[p];
        proof {
            assert(in_order(h, before@.queue.contains(p), before@.closed));
        }
        let header = self.tasks.get_mut(task.place);
        let mut count: usize = 1;
        let slot = header.id().slot();
        if header.state_mut().unset_owned() {
            proof {
                assert(before@.files(p));
            }
            if self.owned.remove(slot, task).is_some() {
                count = 2;
            }
        }
        let last = self.tasks.get_mut(task.place).settle(count);
        proof {
            let next = HeaderView {
                life: Lifecycle { owned: false, refs: h.life.refs - count, ..h.life },
                settling: false,
                ..h
            };
            assert(self@.tasks =~= before@.tasks.insert(p, next));
            lemma_let_go(before@, p, next, self@.registry);
        }
        if last {
            let header = self.tasks.remove(task.place);
            proof {
                assert(self@.tasks =~= before@.tasks.remove(p));
            }
            Some(header)
        } else {
            None
        }
    }

    /// Wakes the task, consuming a reference.
    ///
    /// If the task is idle, that very reference is what the run queue holds —
    /// nothing is minted and nothing is dropped, since nothing else needs to
    /// change. Otherwise there is nowhere to put it, so it is simply dropped.
    pub fn wake_by_val(&mut self, task: RawTask) -> (freed: Option<Header>)
        requires
            old(self).wf(),
            old(self)@.tasks.contains_key(task.place),
            old(self)@.spare(task.place) >= 1,
        ensures
            final(self).wf(),
            moves::moves(old(self)@, Move::WakeByVal(task.place), final(self)@),
            ({
                let p = task.place;
                let h = old(self)@.tasks[p];
                let woken = h.with_life(Lifecycle { notified: true, ..h.life });
                &&& final(self)@ == if h.life.complete || h.life.notified {
                    old(self)@.with_dropped(p)
                } else if h.life.running {
                    old(self)@.with_task(p, woken).with_dropped(p)
                } else {
                    old(self)@.with_task(p, woken).with_queued(p)
                }
                &&& (freed is Some) == (h.life.refs == 1 && !(h.life.idle() && !h.life.notified))
                &&& freed matches Some(header) ==> header@.is_left_of(h)
            }),
            final(self).vacant() == old(self).vacant(),
    {
        let ghost before = *self;
        let ghost p = task.place;
        let ghost h = before@.tasks[p];
        proof {
            assert(in_order(h, before@.queue.contains(p), before@.closed));
            lemma_push_contains(before@.queue, p, p);
        }
        let queue = self.tasks.get_mut(task.place).state_mut().transition_to_notified(
            CallerRef::Consumed,
        );
        let ghost mid = self@;
        proof {
            self.lemma_view_insert(before, p, self.tasks@[p]);
            assert(mid.tasks =~= before@.with_task(p, self.tasks@[p]@).tasks);
            if h.life.complete || h.life.notified {
                assert(mid.tasks =~= before@.tasks);
            }
        }
        if queue {
            self.schedule(task);
            proof {
                lemma_task_changed(before@, p, mid.tasks[p], self@);
            }
            None
        } else {
            proof {
                if h.life.running {
                    lemma_task_changed(before@, p, mid.tasks[p], mid);
                }
                lemma_reference_dropped(mid, p);
            }
            self.forget(task)
        }
    }

    /// Marks the task notified, queueing it if that is now this caller's job. No
    /// reference is consumed, so the caller must hold one throughout.
    pub fn wake_by_ref(&mut self, task: RawTask)
        requires
            old(self).wf(),
            old(self)@.tasks.contains_key(task.place),
            old(self)@.tasks[task.place].life.wakeable(),
        ensures
            final(self).wf(),
            moves::moves(old(self)@, Move::WakeByRef(task.place), final(self)@),
            final(self)@ == old(self)@.with_woken(task.place),
            final(self).vacant() == old(self).vacant(),
    {
        let ghost before = *self;
        let ghost p = task.place;
        let ghost h = before@.tasks[p];
        proof {
            assert(in_order(h, before@.queue.contains(p), before@.closed));
            lemma_push_contains(before@.queue, p, p);
        }
        let queue = self.tasks.get_mut(task.place).state_mut().transition_to_notified(
            CallerRef::Kept,
        );
        let ghost mid = self@;
        proof {
            self.lemma_view_insert(before, p, self.tasks@[p]);
            if h.life.complete || h.life.notified {
                assert(mid.tasks =~= before@.tasks);
            }
        }
        if queue {
            self.schedule(task);
        }
        proof {
            lemma_task_changed(before@, p, mid.tasks[p], self@);
        }
    }

    /// Asks the runtime to kill the task. The caller keeps its reference.
    ///
    /// Unlike [`Handle::shutdown`] this only requests cancellation, so a task
    /// aborting itself has its future dropped once its poll returns rather than
    /// underneath the call.
    pub fn remote_abort(&mut self, task: RawTask)
        requires
            old(self).wf(),
            old(self)@.tasks.contains_key(task.place),
            old(self)@.tasks[task.place].life.wakeable(),
        ensures
            final(self).wf(),
            moves::moves(old(self)@, Move::Abort(task.place), final(self)@),
            final(self)@ == old(self)@.with_cancelled(task.place).with_woken(task.place),
            final(self).vacant() == old(self).vacant(),
    {
        let ghost before = *self;
        let ghost p = task.place;
        let ghost h = before@.tasks[p];
        proof {
            assert(in_order(h, before@.queue.contains(p), before@.closed));
        }
        self.tasks.get_mut(task.place).state_mut().set_cancelled();
        proof {
            self.lemma_view_insert(before, p, self.tasks@[p]);
            assert(self@.tasks =~= before@.with_cancelled(p).tasks);
            lemma_task_changed(before@, p, self@.tasks[p], before@.with_task(p, self@.tasks[p]));
            assert(self@ == before@.with_task(p, self@.tasks[p]));
        }
        self.wake_by_ref(task);
    }

    /// Counts one more reference to the task, for a waker or an abort handle.
    pub fn ref_inc(&mut self, task: RawTask)
        requires
            old(self).wf(),
            old(self)@.tasks.contains_key(task.place),
            old(self)@.tasks[task.place].life.countable(),
        ensures
            final(self).wf(),
            moves::moves(old(self)@, Move::RefInc(task.place), final(self)@),
            ({
                let h = old(self)@.tasks[task.place];
                final(self)@ == old(self)@.with_task(
                    task.place,
                    h.with_life(Lifecycle { refs: h.life.refs + 1, ..h.life }),
                )
            }),
            final(self).vacant() == old(self).vacant(),
    {
        let ghost before = *self;
        let ghost p = task.place;
        proof {
            assert(in_order(before@.tasks[p], before@.queue.contains(p), before@.closed));
        }
        self.tasks.get_mut(task.place).state_mut().ref_inc();
        proof {
            self.lemma_view_insert(before, p, self.tasks@[p]);
            lemma_task_changed(before@, p, self@.tasks[p], self@);
        }
    }

    /// Drops one reference that the runtime does not account for, freeing the task
    /// if it was the last. What is left of it comes back, to be dropped.
    pub fn drop_reference(&mut self, task: RawTask) -> (freed: Option<Header>)
        requires
            old(self).wf(),
            old(self)@.tasks.contains_key(task.place),
            old(self)@.spare(task.place) >= 1,
        ensures
            final(self).wf(),
            moves::moves(old(self)@, Move::DropReference(task.place), final(self)@),
            final(self)@ == old(self)@.with_dropped(task.place),
            (freed is Some) == (old(self)@.tasks[task.place].life.refs == 1),
            freed matches Some(header) ==> header@.is_left_of(old(self)@.tasks[task.place]),
            final(self).vacant() == old(self).vacant(),
    {
        proof {
            assert(in_order(
                self@.tasks[task.place],
                self@.queue.contains(task.place),
                self@.closed,
            ));
            lemma_reference_dropped(self@, task.place);
        }
        self.forget(task)
    }

    /// Polls the `JoinHandle` of a task: takes the result if the task has
    /// completed, or leaves `waker` to be woken when it does.
    ///
    /// Must not be called again once the result has been taken.
    pub fn poll_join(&mut self, task: RawTask, waker: &Waker) -> (polled: Poll<
        Result<u64, JoinError>,
    >)
        requires
            old(self).wf(),
            old(self)@.tasks.contains_key(task.place),
            old(self)@.tasks[task.place].life.join_interest,
            !old(self)@.tasks[task.place].life.output_taken,
        ensures
            final(self).wf(),
            moves::moves(old(self)@, Move::PollJoin(task.place, *waker), final(self)@),
            polled matches Poll::Ready(Err(error)) ==> error@.id
                == old(self)@.tasks[task.place].id,
            ({
                let h = old(self)@.tasks[task.place];
                if h.life.complete {
                    &&& polled matches Poll::Ready(result) && h.stage == StageView::Finished(
                        raw::result_view(result),
                    )
                    &&& final(self)@ == old(self)@.with_task(
                        task.place,
                        HeaderView {
                            life: Lifecycle { output_taken: true, ..h.life },
                            stage: StageView::Consumed,
                            ..h
                        },
                    )
                } else {
                    &&& polled is Pending
                    &&& final(self)@ == old(self)@.with_task(
                        task.place,
                        HeaderView { waker: Some(*waker), ..h },
                    )
                }
            }),
            final(self).vacant() == old(self).vacant(),
    {
        let ghost before = *self;
        let ghost p = task.place;
        proof {
            assert(in_order(before@.tasks[p], before@.queue.contains(p), before@.closed));
        }
        let polled = self.tasks.get_mut(task.place).poll_join(waker);
        proof {
            self.lemma_view_insert(before, p, self.tasks@[p]);
            lemma_task_changed(before@, p, self@.tasks[p], self@);
        }
        polled
    }

    /// Drops the `JoinHandle` of a task, along with its reference.
    pub fn drop_join(&mut self, task: RawTask) -> (freed: Option<Header>)
        requires
            old(self).wf(),
            old(self)@.tasks.contains_key(task.place),
            old(self)@.tasks[task.place].life.join_interest,
        ensures
            final(self).wf(),
            moves::moves(old(self)@, Move::DropJoin(task.place), final(self)@),
            ({
                let h = old(self)@.tasks[task.place];
                &&& final(self)@ == old(self)@.with_or_without(
                    task.place,
                    HeaderView {
                        life: Lifecycle { join_interest: false, refs: h.life.refs - 1, ..h.life },
                        waker: None,
                        ..h
                    },
                )
                &&& (freed is Some) == (h.life.refs == 1)
                &&& freed matches Some(header) ==> header@.is_left_of(h)
            }),
            final(self).vacant() == old(self).vacant(),
    {
        let ghost before = *self;
        let ghost p = task.place;
        let ghost h = before@.tasks[p];
        proof {
            assert(in_order(h, before@.queue.contains(p), before@.closed));
        }
        let header = self.tasks.get_mut(task.place);
        header.state_mut().unset_join_interested();
        header.set_waker(None);
        let ghost mid = self@;
        proof {
            self.lemma_view_insert(before, p, self.tasks@[p]);
            lemma_task_changed(before@, p, mid.tasks[p], mid);
            lemma_reference_dropped(mid, p);
        }
        let freed = self.forget(task);
        proof {
            assert(self@.tasks =~= before@.with_or_without(
                p,
                HeaderView {
                    life: Lifecycle { join_interest: false, refs: h.life.refs - 1, ..h.life },
                    waker: None,
                    ..h
                },
            ).tasks);
        }
        freed
    }

    /// Whether one more reference to the task can be counted.
    pub fn is_countable(&self, task: RawTask) -> (yes: bool)
        requires
            self@.tasks.contains_key(task.place),
        ensures
            yes == self@.tasks[task.place].life.countable(),
    {
        self.tasks.get(task.place).state().load().is_countable()
    }

    /// Whether the task can be woken: one more reference to it can be counted, or
    /// waking it takes none.
    pub fn is_wakeable(&self, task: RawTask) -> (yes: bool)
        requires
            self@.tasks.contains_key(task.place),
        ensures
            yes == self@.tasks[task.place].life.wakeable(),
    {
        self.tasks.get(task.place).state().load().is_wakeable()
    }

    /// Whether the task has completed.
    pub fn is_finished(&self, task: RawTask) -> (finished: bool)
        requires
            self@.tasks.contains_key(task.place),
        ensures
            finished == self@.tasks[task.place].life.complete,
    {
        self.tasks.get(task.place).state().load().is_complete()
    }

    /// The task's id.
    pub fn id(&self, task: RawTask) -> (id: Id)
        requires
            self@.tasks.contains_key(task.place),
        ensures
            id == self@.tasks[task.place].id,
    {
        self.tasks.get(task.place).id()
    }

    /// Where the task was spawned.
    pub fn spawned_at(&self, task: RawTask) -> (location: Location)
        requires
            self@.tasks.contains_key(task.place),
        ensures
            location == self@.tasks[task.place].spawned_at,
    {
        self.tasks.get(task.place).spawned_at()
    }

    /// Closes the registry and takes every task out of it, in the order of their
    /// ids. Each comes with the registry's reference, and is to be given to
    /// [`Handle::shutdown`].
    pub fn close(&mut self) -> (tasks: Vec<RawTask>)
        requires
            old(self).wf(),
        ensures
            final(self).wf(),
            moves::moves(old(self)@, Move::Close, final(self)@),
            final(self)@.closed,
            final(self)@.registry == Map::<usize, RawTask>::empty(),
            final(self)@.queue == old(self)@.queue,
            final(self)@.tasks == old(self)@.tasks.map_values(
                |h: HeaderView| h.with_life(Lifecycle { owned: false, ..h.life }),
            ),
            forall|i: int|
                0 <= i < tasks@.len() ==> old(self)@.tasks.contains_key(
                    (#[trigger] tasks@[i]).place,
                ) && old(self)@.tasks[tasks@[i].place].life.owned && final(self)@.spare(
                    tasks@[i].place,
                ) == old(self)@.spare(tasks@[i].place) + 1,
            forall|i: int, j: int|
                0 <= i < j < tasks@.len() ==> old(self)@.tasks[(#[trigger] tasks@[i]).place].id@
                    < old(self)@.tasks[(#[trigger] tasks@[j]).place].id@,
            forall|p: usize| #[trigger]
                old(self)@.tasks.contains_key(p) && old(self)@.tasks[p].life.owned
                    ==> tasks@.contains(RawTask { place: p }),
            final(self).vacant() == 0,
    {
        let ghost before = *self;
        let list = self.owned.close();
        let mut tasks: Vec<RawTask> = Vec::new();
        let mut at: usize = 0;
        proof {
            assert(self@.tasks =~= before@.tasks);
        }
        while at < list.len()
            invariant
                at <= list@.len(),
                before.wf(),
                owned::lists(before@.registry, list@),
                self.tasks.wf(),
                self.queue == before.queue,
                self.owned@ == Map::<usize, RawTask>::empty(),
                self.owned.shut(),
                self.owned.vacant() == 0,
                tasks@.len() == at,
                forall|i: int| 0 <= i < at ==> #[trigger] tasks@[i] == list@[i].1,
                self@.tasks.dom() == before@.tasks.dom(),
                forall|p: usize| #[trigger]
                    self@.tasks.contains_key(p) ==> {
                        let h = before@.tasks[p];
                        if exists|i: int| 0 <= i < at && (#[trigger] list@[i]).1.place == p {
                            self@.tasks[p] == h.with_life(Lifecycle { owned: false, ..h.life })
                        } else {
                            self@.tasks[p] == h
                        }
                    },
            decreases list@.len() - at,
        {
            let task = list[at].1;
            let ghost mid = *self;
            proof {
                assert(before@.registry.contains_key(list@[at as int].0));
                assert(before@.tasks.contains_key(task.place));
                assert(self@.tasks.contains_key(task.place));
            }
            self.tasks.get_mut(task.place).state_mut().unset_owned();
            proof {
                self.lemma_view_insert(mid, task.place, self.tasks@[task.place]);
                assert(self@.tasks =~= mid@.tasks.insert(task.place, self@.tasks[task.place]));
                assert forall|p: usize| #[trigger] self@.tasks.contains_key(p) implies {
                    let h = before@.tasks[p];
                    if exists|i: int| 0 <= i < at + 1 && (#[trigger] list@[i]).1.place == p {
                        self@.tasks[p] == h.with_life(Lifecycle { owned: false, ..h.life })
                    } else {
                        self@.tasks[p] == h
                    }
                } by {
                    assert(mid@.tasks.contains_key(p));
                    if p == task.place {
                        assert(list@[at as int].1.place == p);
                    }
                }
            }
            tasks.push(task);
            at += 1;
        }
        proof {
            assert forall|p: usize| #[trigger]
                before@.tasks.contains_key(p) && before@.tasks[p].life.owned implies exists|i: int|
                0 <= i < list@.len() && (#[trigger] list@[i]).1 == (RawTask { place: p }) by {
                assert(before@.files(p));
                let slot = (before@.tasks[p].id@ - 1) as usize;
                let i = choose|i: int| 0 <= i < list@.len() && (#[trigger] list@[i]).0 == slot;
                assert(list@[i].1 == RawTask { place: p });
            }
            assert forall|p: usize| #[trigger] self@.tasks.contains_key(p) implies self@.tasks[p]
                == before@.tasks[p].with_life(
                Lifecycle { owned: false, ..before@.tasks[p].life },
            ) by {
                assert(before@.tasks.contains_key(p));
                if before@.tasks[p].life.owned {
                    let i = choose|i: int|
                        0 <= i < list@.len() && (#[trigger] list@[i]).1 == (RawTask { place: p });
                    assert(list@[i].1.place == p);
                }
            }
            assert(self@.tasks =~= before@.tasks.map_values(
                |h: HeaderView| h.with_life(Lifecycle { owned: false, ..h.life }),
            ));
            assert forall|p: usize| #[trigger] self@.tasks.contains_key(p) implies in_order(
                self@.tasks[p],
                self@.queue.contains(p),
                true,
            ) by {
                assert(before@.tasks.contains_key(p));
                assert(in_order(before@.tasks[p], before@.queue.contains(p), before@.closed));
            }
            assert forall|p: usize| #[trigger] self@.queue.contains(p) implies self@.tasks.contains_key(
                p,
            ) by {
                assert(before@.queue.contains(p));
            }
            assert(self@.valid());
            assert forall|i: int| 0 <= i < tasks@.len() implies before@.tasks.contains_key(
                (#[trigger] tasks@[i]).place,
            ) && before@.tasks[tasks@[i].place].life.owned && self@.spare(tasks@[i].place)
                == before@.spare(tasks@[i].place) + 1 by {
                assert(tasks@[i] == list@[i].1);
                assert(before@.registry.contains_key(list@[i].0));
                assert(before@.tasks.contains_key(tasks@[i].place));
                assert(self@.tasks.contains_key(tasks@[i].place));
            }
            assert forall|i: int, j: int| 0 <= i < j < tasks@.len() implies before@.tasks[
            (#[trigger] tasks@[i]).place].id@ < before@.tasks[(#[trigger] tasks@[j]).place].id@ by {
                assert(tasks@[i] == list@[i].1);
                assert(tasks@[j] == list@[j].1);
                assert(before@.registry.contains_key(list@[i].0));
                assert(before@.registry.contains_key(list@[j].0));
                assert(list@[i].0 < list@[j].0);
            }
            assert forall|p: usize| #[trigger]
                before@.tasks.contains_key(p) && before@.tasks[p].life.owned implies tasks@.contains(
                RawTask { place: p },
            ) by {
                let i = choose|i: int|
                    0 <= i < list@.len() && (#[trigger] list@[i]).1 == (RawTask { place: p });
                assert(tasks@[i] == list@[i].1);
            }
        }
        tasks
    }

    /// Takes the task at the front of the run queue off it and drops the reference
    /// the queue held: which task it was, and what is left of it if that was the last.
    /// `None` once the queue is empty.
    pub fn drain(&mut self) -> (dropped: Option<(RawTask, Option<Header>)>)
        requires
            old(self).wf(),
            old(self)@.closed,
        ensures
            final(self).wf(),
            moves::moves(old(self)@, Move::Drain, final(self)@),
            match dropped {
                None => old(self)@.queue.len() == 0 && final(self)@ == old(self)@,
                Some((task, freed)) => {
                    let p = old(self)@.queue[0];
                    let popped = HandleView { queue: old(self)@.queue.skip(1), ..old(self)@ };
                    &&& old(self)@.queue.len() > 0
                    &&& task.place == p
                    &&& final(self)@ == popped.with_dropped(p)
                    &&& (freed is Some) == (old(self)@.tasks[p].life.refs == 1)
                    &&& freed matches Some(header) ==> header@.is_left_of(old(self)@.tasks[p])
                },
            },
            final(self).vacant() == old(self).vacant(),
    {
        let ghost before = *self;
        let task = match self.queue.pop_front() {
            None => {
                proof {
                    assert(self@.queue =~= before@.queue);
                }
                return None;
            },
            Some(task) => task,
        };
        let ghost p = task.place;
        proof {
            assert(before@.queue[0] == p);
            assert(before@.queue.contains(p));
            assert(self@.queue =~= before@.queue.skip(1));
            assert(in_order(before@.tasks[p], true, true));
            let popped = HandleView { queue: before@.queue.skip(1), ..before@ };
            assert forall|q: usize| #[trigger] popped.queue.contains(q) == (before@.queue.contains(q)
                && q != p) by {
                lemma_skip_contains(before@.queue, q);
            }
            lemma_skip_contains(before@.queue, p);
            assert forall|q: usize| #[trigger] popped.tasks.contains_key(q) implies in_order(
                popped.tasks[q],
                popped.queue.contains(q),
                true,
            ) by {
                assert(before@.tasks.contains_key(q));
                assert(in_order(before@.tasks[q], before@.queue.contains(q), true));
                assert(popped.queue.contains(q) == (before@.queue.contains(q) && q != p));
            }
            assert forall|q: usize| #[trigger]
                popped.tasks.contains_key(q) && popped.tasks[q].life.owned implies popped.files(
                q,
            ) by {
                assert(before@.files(q));
            }
            assert(popped.valid());
            lemma_reference_dropped(popped, p);
        }
        let freed = self.forget(task);
        Some((task, freed))
    }

    /// Whether there is nothing left to shut down: no task in the registry, and
    /// none waiting to be polled.
    pub fn is_idle(&self) -> (idle: bool)
        requires
            self.wf(),
        ensures
            idle == (self@.registry == Map::<usize, RawTask>::empty() && self@.queue.len() == 0),
    {
        proof {
            assert(self.queue@.len() == self@.queue.len());
        }
        self.owned.is_empty() && self.queue.len() == 0
    }

    /// Whether no task can be registered any more.
    pub fn is_closed(&self) -> (closed: bool)
        ensures
            closed == self@.closed,
    {
        self.owned.is_closed()
    }
}

/// A task added under a fresh place, registered and queued unless the registry is
/// closed: everything still agrees.
proof fn lemma_task_added(v: HandleView, p: usize, h: HeaderView, w: HandleView)
    requires
        v.valid(),
        !v.tasks.contains_key(p),
        in_order(h, w.queue.contains(p), w.closed),
        w.tasks == v.tasks.insert(p, h),
        w.closed == v.closed,
        ({
            let slot = (h.id@ - 1) as usize;
            ||| !h.life.owned && w.registry == v.registry && w.queue == v.queue
            ||| h.life.owned && h.id@ == slot + 1 && !v.registry.contains_key(slot) && w.registry
                == v.registry.insert(slot, RawTask { place: p }) && w.queue == v.queue.push(p)
        }),
    ensures
        w.valid(),
{
    assert(!v.queue.contains(p));
    assert forall|q: usize| #[trigger] w.queue.contains(q) == (v.queue.contains(q) || (q == p
        && w.queue != v.queue)) by {
        lemma_push_contains(v.queue, p, q);
    }
    assert(w.queue.no_duplicates()) by {
        if w.queue != v.queue {
            assert forall|i: int, j: int| 0 <= i < j < w.queue.len() implies w.queue[i]
                != w.queue[j] by {
                if j == v.queue.len() {
                    assert(v.queue.contains(v.queue[i]));
                }
            }
        }
    }
    assert forall|q: usize| #[trigger] w.tasks.contains_key(q) && w.tasks[q].life.owned implies w.files(
        q,
    ) by {
        if q != p {
            assert(v.tasks.contains_key(q));
            assert(v.files(q));
        }
    }
    assert forall|q: usize| #[trigger] w.tasks.contains_key(q) implies in_order(
        w.tasks[q],
        w.queue.contains(q),
        w.closed,
    ) by {
        if q != p {
            assert(v.tasks.contains_key(q));
            assert(w.queue.contains(q) == v.queue.contains(q));
        }
    }
    assert forall|slot: usize| #[trigger] w.registry.contains_key(slot) implies {
        let q = w.registry[slot].place;
        &&& w.tasks.contains_key(q)
        &&& w.tasks[q].life.owned
        &&& w.tasks[q].id@ == slot + 1
    } by {
        if v.registry.contains_key(slot) && w.registry[slot] == v.registry[slot] {
            assert(v.tasks.contains_key(v.registry[slot].place));
        }
    }
}

/// The front of the queue taken, and polled or let go: everything still agrees.
proof fn lemma_front_polled(v: HandleView, w: HandleView)
    requires
        v.valid(),
        v.queue.len() > 0,
        ({
            let p = v.queue[0];
            let h = v.tasks[p];
            let popped = HandleView { queue: v.queue.skip(1), ..v };
            w == if h.life.idle() {
                popped.with_task(p, h.begun())
            } else {
                popped.with_dropped(p)
            }
        }),
    ensures
        w.valid(),
{
    let p = v.queue[0];
    let h = v.tasks[p];
    assert(v.queue.contains(p));
    assert(in_order(h, true, v.closed));
    assert forall|q: usize| #[trigger] w.queue.contains(q) == (v.queue.contains(q) && q != p) by {
        lemma_skip_contains(v.queue, q);
    }
    lemma_skip_contains(v.queue, p);
    assert forall|q: usize| #[trigger] w.tasks.contains_key(q) && w.tasks[q].life.owned implies w.files(
        q,
    ) by {
        assert(v.tasks.contains_key(q));
        assert(v.files(q));
    }
    assert forall|q: usize| #[trigger] w.tasks.contains_key(q) implies in_order(
        w.tasks[q],
        w.queue.contains(q),
        w.closed,
    ) by {
        assert(v.tasks.contains_key(q));
        assert(in_order(v.tasks[q], v.queue.contains(q), v.closed));
        assert(w.queue.contains(q) == (v.queue.contains(q) && q != p));
    }
    assert forall|slot: usize| #[trigger] w.registry.contains_key(slot) implies {
        let q = w.registry[slot].place;
        &&& w.tasks.contains_key(q)
        &&& w.tasks[q].life.owned
        &&& w.tasks[q].id@ == slot + 1
    } by {
        assert(v.registry.contains_key(slot));
        assert(v.tasks.contains_key(v.registry[slot].place));
    }
}

/// A reference that the runtime does not account for dropped: everything still
/// agrees.
proof fn lemma_reference_dropped(v: HandleView, p: usize)
    requires
        v.valid(),
        v.tasks.contains_key(p),
        v.spare(p) >= 1,
    ensures
        v.with_dropped(p).valid(),
{
    let h = v.tasks[p];
    let next = h.with_life(Lifecycle { refs: h.life.refs - 1, ..h.life });
    assert(in_order(h, v.queue.contains(p), v.closed));
    if h.life.refs == 1 {
        lemma_task_gone(v, p);
    } else {
        lemma_task_changed(v, p, next, v.with_task(p, next));
    }
}

/// A completed task let go of by its last poll and by the registry: everything
/// still agrees.
proof fn lemma_let_go(
    v: HandleView,
    p: usize,
    next: HeaderView,
    registry: Map<usize, RawTask>,
)
    requires
        v.valid(),
        v.tasks.contains_key(p),
        v.tasks[p].settling,
        ({
            let h = v.tasks[p];
            let slot = (h.id@ - 1) as usize;
            &&& next == (HeaderView {
                life: Lifecycle {
                    owned: false,
                    refs: h.life.refs - 1 - one_if(h.life.owned),
                    ..h.life
                },
                settling: false,
                ..h
            })
            &&& registry == if h.life.owned {
                v.registry.remove(slot)
            } else {
                v.registry
            }
        }),
    ensures
        (HandleView { registry, ..v.with_or_without(p, next) }).valid(),
{
    let w = HandleView { registry, ..v.with_or_without(p, next) };
    let h = v.tasks[p];
    assert(in_order(h, v.queue.contains(p), v.closed));
    assert forall|q: usize| #[trigger] w.queue.contains(q) implies w.tasks.contains_key(q) by {
        assert(v.queue.contains(q));
    }
    assert forall|q: usize| #[trigger] w.tasks.contains_key(q) && w.tasks[q].life.owned implies w.files(
        q,
    ) by {
        assert(v.tasks.contains_key(q));
        assert(v.files(q));
        if h.life.owned {
            assert(v.files(p));
        }
    }
    assert forall|q: usize| #[trigger] w.tasks.contains_key(q) implies in_order(
        w.tasks[q],
        w.queue.contains(q),
        w.closed,
    ) by {
        assert(v.tasks.contains_key(q));
    }
    assert forall|slot: usize| #[trigger] w.registry.contains_key(slot) implies {
        let q = w.registry[slot].place;
        &&& w.tasks.contains_key(q)
        &&& w.tasks[q].life.owned
        &&& w.tasks[q].id@ == slot + 1
    } by {
        assert(v.registry.contains_key(slot));
        let q = v.registry[slot].place;
        assert(v.tasks.contains_key(q));
        if q == p {
            assert(h.id@ == slot + 1);
        }
    }
}

/// However often a task is woken before it is polled, it waits to be polled once.
pub proof fn lemma_repeated_wakes_queue_once(v: HandleView, p: usize)
    requires
        v.valid(),
        v.tasks.contains_key(p),
    ensures
        v.with_woken(p).with_woken(p) == v.with_woken(p),
        v.with_woken(p).queue.len() <= v.queue.len() + 1,
{
}

/// Tasks are polled in the order they were woken.
pub proof fn lemma_woken_in_order(v: HandleView, p: usize, q: usize)
    requires
        v.valid(),
        v.tasks.contains_key(p),
        v.tasks.contains_key(q),
        p != q,
        v.tasks[p].life.idle(),
        !v.tasks[p].life.notified,
        v.tasks[q].life.idle(),
        !v.tasks[q].life.notified,
    ensures
        v.with_woken(p).with_woken(q).queue == v.queue.push(p).push(q),
{
}

/// Aborting a task that has completed does nothing.
pub proof fn lemma_aborting_a_finished_task_does_nothing(v: HandleView, p: usize)
    requires
        v.valid(),
        v.tasks.contains_key(p),
        v.tasks[p].life.complete,
    ensures
        v.with_cancelled(p).with_woken(p) == v,
{
}

/// Aborting a task while it is being polled leaves its future alone until that
/// poll returns.
pub proof fn lemma_aborting_a_running_task_defers(v: HandleView, p: usize)
    requires
        v.valid(),
        v.tasks.contains_key(p),
        v.tasks[p].life.running,
    ensures
        ({
            let w = v.with_cancelled(p).with_woken(p);
            &&& w.tasks[p].life.running
            &&& w.tasks[p].life.cancelled
            &&& w.tasks[p].stage is Running
            &&& w.queue == v.queue
        }),
{
    assert(in_order(v.tasks[p], v.queue.contains(p), v.closed));
}

/// Live tasks of one runtime have ids of their own.
pub proof fn lemma_live_ids_differ(v: HandleView, p: usize, q: usize)
    requires
        v.valid(),
        v.tasks.contains_key(p),
        v.tasks.contains_key(q),
        p != q,
        v.tasks[p].life.owned,
        v.tasks[q].life.owned,
    ensures
        v.tasks[p].id@ != v.tasks[q].id@,
{
    assert(v.files(p));
    assert(v.files(q));
}

/// A task that the run queue, the registry, a `JoinHandle` or a poll refers to is
/// not freed by anybody else letting go of it.
pub proof fn lemma_referred_tasks_stay(v: HandleView, p: usize)
    requires
        v.valid(),
        v.tasks.contains_key(p),
        v.spare(p) >= 1,
        accounted(v.tasks[p], v.queue.contains(p)) >= 1,
    ensures
        v.with_dropped(p).tasks.contains_key(p),
{
}

/// Until the registry is closed every task that has not completed is in it, and
/// so is shut down when the runtime goes away.
pub proof fn lemma_pending_tasks_are_registered(v: HandleView, p: usize)
    requires
        v.valid(),
        v.tasks.contains_key(p),
        !v.closed,
        !v.tasks[p].life.complete,
    ensures
        v.files(p),
{
    assert(in_order(v.tasks[p], v.queue.contains(p), v.closed));
}

/// A task that is shut down is over: it completes as cancelled, or as having
/// panicked if dropping its future did, which is what its `JoinHandle` is told.
/// Its future is never polled again, since nothing takes the poll lock of a task
/// that has completed.
pub proof fn lemma_a_task_shut_down_is_over(v: HandleView, p: usize, panic: Option<Payload>)
    requires
        v.valid(),
        v.tasks.contains_key(p),
        v.tasks[p].life.idle(),
    ensures
        ({
            let h = v.tasks[p];
            let killed = h.killed();
            let error = raw::cancel_result(h.id, panic);
            let w = v.with_task(p, killed).with_task(p, killed.completed(Err(error), true));
            &&& w.tasks[p].life.complete
            &&& !w.tasks[p].life.idle()
            &&& w.tasks[p].stage == if h.life.join_interest {
                StageView::Finished(Err(error))
            } else {
                StageView::Consumed
            }
            &&& error.panic is None == (panic is None)
            &&& w.with_cancelled(p).with_woken(p) == w
        }),
{
    let h = v.tasks[p];
    let killed = h.killed();
    let error = raw::cancel_result(h.id, panic);
    let w = v.with_task(p, killed).with_task(p, killed.completed(Err(error), true));
    assert(w.with_cancelled(p).with_woken(p) == w);
}

/// No task is forgotten: one that has been woken and is not being polled waits to
/// be polled.
pub proof fn lemma_no_wake_is_lost(v: HandleView, p: usize)
    requires
        v.valid(),
        v.tasks.contains_key(p),
        !v.closed,
        v.tasks[p].life.idle(),
    ensures
        v.with_woken(p).queue.contains(p),
{
    assert(in_order(v.tasks[p], v.queue.contains(p), v.closed));
    lemma_push_contains(v.queue, p, p);
}

/// What changes with one task: that task, and no other, nor the queue or the registry.
/// One without references is gone.
pub proof fn lemma_what_changing_a_task_changes(v: HandleView, p: usize, h: HeaderView, q: usize)
    ensures
        ({
            let w = v.with_task(p, h);
            &&& w.tasks.contains_key(p) && w.tasks[p] == h
            &&& q != p ==> w.tasks.contains_key(q) == v.tasks.contains_key(q) && w.tasks[q]
                == v.tasks[q]
            &&& w.queue == v.queue && w.registry == v.registry && w.closed == v.closed
        }),
        ({
            let w = v.with_or_without(p, h);
            &&& w.tasks.contains_key(p) <==> h.life.refs != 0
            &&& h.life.refs != 0 ==> w.tasks[p] == h
            &&& q != p ==> w.tasks.contains_key(q) == v.tasks.contains_key(q) && w.tasks[q]
                == v.tasks[q]
            &&& w.queue == v.queue && w.registry == v.registry && w.closed == v.closed
        }),
{
}

/// A task that is queued waits behind everyone who waited before it, and nobody who
/// waited moves.
pub proof fn lemma_queued_behind_everyone(v: HandleView, p: usize, i: int)
    ensures
        v.with_queued(p).queue.len() == v.queue.len() + 1,
        v.with_queued(p).queue[v.queue.len() as int] == p,
        0 <= i < v.queue.len() ==> v.with_queued(p).queue[i] == v.queue[i],
        v.with_queued(p).tasks == v.tasks,
        v.with_queued(p).registry == v.registry,
        v.with_queued(p).closed == v.closed,
{
}

/// What waking a task does to it and to the queue. One that is complete, or that has
/// been woken already, is left as it is, and so is the queue. One that is being polled
/// learns that it was woken, and is not queued. One that is idle learns it too and is
/// queued, last, with a reference of the queue's own.
pub proof fn lemma_what_waking_a_task_does(v: HandleView, p: usize, q: usize)
    requires
        v.tasks.contains_key(p),
    ensures
        ({
            let w = v.with_woken(p);
            let (h, next) = (v.tasks[p], v.with_woken(p).tasks[p]);
            &&& w.tasks.contains_key(p)
            &&& h.life.complete || h.life.notified ==> next == h
            &&& h.life.complete || h.life.notified || h.life.running ==> w.queue == v.queue
                && next.life.refs == h.life.refs
            &&& !h.life.complete ==> next.life.notified
            &&& !h.life.complete && !h.life.notified && !h.life.running ==> w.queue == v.queue.push(
                p,
            ) && next.life.refs == h.life.refs + 1
            &&& next.life == (Lifecycle {
                notified: next.life.notified,
                refs: next.life.refs,
                ..h.life
            })
            &&& next == (HeaderView { life: next.life, ..h })
            &&& q != p ==> w.tasks.contains_key(q) == v.tasks.contains_key(q) && w.tasks[q]
                == v.tasks[q]
            &&& w.registry == v.registry && w.closed == v.closed
        }),
{
}

/// What dropping a reference does: there is one less, and nothing is left of the task
/// if it was the last. Nothing else changes.
pub proof fn lemma_what_dropping_a_reference_does(v: HandleView, p: usize, q: usize)
    requires
        v.tasks.contains_key(p),
    ensures
        ({
            let w = v.with_dropped(p);
            &&& w.tasks.contains_key(p) <==> v.tasks[p].life.refs != 1
            &&& v.tasks[p].life.refs != 1 ==> w.tasks[p] == (HeaderView {
                life: Lifecycle { refs: v.tasks[p].life.refs - 1, ..v.tasks[p].life },
                ..v.tasks[p]
            })
            &&& q != p ==> w.tasks.contains_key(q) == v.tasks.contains_key(q) && w.tasks[q]
                == v.tasks[q]
            &&& w.queue == v.queue && w.registry == v.registry && w.closed == v.closed
        }),
{
}

/// What cancelling a task does: one that has not completed is to be killed, whatever
/// else is so of it, and nothing else changes.
pub proof fn lemma_what_cancelling_a_task_does(v: HandleView, p: usize, q: usize)
    requires
        v.tasks.contains_key(p),
    ensures
        ({
            let w = v.with_cancelled(p);
            let (h, next) = (v.tasks[p], v.with_cancelled(p).tasks[p]);
            &&& w.tasks.contains_key(p)
            &&& h.life.complete ==> next == h
            &&& !h.life.complete ==> next == (HeaderView {
                life: Lifecycle { cancelled: true, ..h.life },
                ..h
            })
            &&& q != p ==> w.tasks.contains_key(q) == v.tasks.contains_key(q) && w.tasks[q]
                == v.tasks[q]
            &&& w.queue == v.queue && w.registry == v.registry && w.closed == v.closed
        }),
{
}

/// Who holds a reference: the queue, the registry, the `JoinHandle`, and whoever polls
/// the task or has yet to let go of it, one each. The rest is somebody else's.
pub proof fn lemma_who_holds_a_reference(v: HandleView, p: usize)
    ensures
        ({
            let h = v.tasks[p];
            let held = h.life.refs - v.spare(p);
            &&& held == (if v.queue.contains(p) {
                1int
            } else {
                0
            }) + (if h.life.owned {
                1int
            } else {
                0
            }) + (if h.life.join_interest {
                1int
            } else {
                0
            }) + (if h.life.running || h.settling {
                1int
            } else {
                0
            })
        }),
{
}

/// What is always so of every task of a runtime. It has a reference, and at least one
/// for each that the runtime holds. An idle one is queued exactly if it has been woken,
/// until the registry is closed; one that is being polled is queued only if it is to be
/// killed. It is in the registry, under its own id, until it completes.
pub proof fn lemma_what_is_so_of_every_task(v: HandleView, p: usize)
    requires
        v.valid(),
        v.tasks.contains_key(p),
    ensures
        ({
            let h = v.tasks[p];
            &&& h.sound()
            &&& h.life.refs >= 1
            &&& v.spare(p) >= 0
            &&& h.life.idle() && v.queue.contains(p) ==> h.life.notified
            &&& h.life.idle() && h.life.notified && !v.closed ==> v.queue.contains(p)
            &&& h.life.running && v.queue.contains(p) ==> h.life.cancelled
            &&& !h.life.complete && !v.closed ==> h.life.owned
            &&& h.life.owned ==> v.registry.contains_key((h.id@ - 1) as usize) && v.registry[(h.id@
                - 1) as usize].place == p
        }),
{
    assert(in_order(v.tasks[p], v.queue.contains(p), v.closed));
    if v.tasks[p].life.owned {
        assert(v.files(p));
    }
}

/// Whoever is queued is a task there is a reference to, queued once, and whatever is
/// registered is a task under its own id.
pub proof fn lemma_what_is_so_of_the_queue(v: HandleView, i: int, j: int, slot: usize)
    requires
        v.valid(),
    ensures
        0 <= i < v.queue.len() ==> v.tasks.contains_key(v.queue[i]),
        0 <= i < j < v.queue.len() ==> v.queue[i] != v.queue[j],
        v.registry.contains_key(slot) ==> {
            let p = v.registry[slot].place;
            v.tasks.contains_key(p) && v.tasks[p].life.owned && v.tasks[p].id@ == slot + 1
        },
{
    if 0 <= i < v.queue.len() {
        assert(v.queue.contains(v.queue[i]));
    }
}

} // verus!
