//! The runtime.

pub mod blocking;
pub mod clock;
pub mod context;
pub mod driver;
pub mod moves;
pub mod poll;
pub mod sched;
pub mod store;
pub mod task;
pub mod text;
pub mod timers;
pub mod waker;

use vstd::prelude::*;

use self::blocking::{BlockOn, Signal};
use self::context::Context;
use self::moves::Move;
use self::sched::{Handle, HandleView, Step};
use self::task::join::JoinHandle;
use self::task::owned::RawTask;
use self::task::raw;
use self::task::raw::{HeaderView, Location};
use self::task::state::Lifecycle;
use self::task::waker as task_waker;
use self::waker::Waker;

verus! {

/// A runtime: its tasks, and the number the current thread knows it by while it
/// has entered it.
pub struct Runtime {
    handle: Handle,
    number: u64,
}

impl View for Runtime {
    type V = HandleView;

    closed spec fn view(&self) -> HandleView {
        self.handle@
    }
}

impl Runtime {
    /// The tasks agree with each other.
    pub closed spec fn wf(&self) -> bool {
        self.handle.wf()
    }

    /// What the current thread knows the runtime by.
    pub closed spec fn number(&self) -> u64 {
        self.number
    }

    /// The slot of the registry the next task gets.
    pub closed spec fn vacant(&self) -> usize {
        self.handle.vacant()
    }

    /// A runtime with nothing on it.
    pub fn new(number: u64) -> (rt: Runtime)
        ensures
            rt.wf(),
            rt.number() == number,
            rt@ == (HandleView {
                tasks: Map::empty(),
                queue: Seq::empty(),
                registry: Map::empty(),
                closed: false,
            }),
            rt.vacant() == 0,
    {
        Runtime { handle: Handle::new(), number }
    }

    /// Make the current thread enter the runtime.
    pub fn enter(&self, context: &mut Context) -> (guard: context::EnterGuard)
        ensures
            final(context)@.runtime == Some(self.number()),
            final(context)@.task == old(context)@.task,
            guard@ == old(context)@.runtime,
    {
        context.enter_runtime(self.number)
    }

    /// The tasks of the runtime.
    pub fn handle(&self) -> (handle: &Handle)
        ensures
            handle@ == self@,
            self.wf() ==> handle.wf(),
            handle.vacant() == self.vacant(),
    {
        &self.handle
    }

    /// The tasks of the runtime, to be driven.
    pub fn handle_mut(&mut self) -> (handle: &mut Handle)
        ensures
            *handle == old(self).handle_of(),
            final(self).handle_of() == *final(handle),
            final(self).number() == old(self).number(),
    {
        &mut self.handle
    }

    /// The tasks of the runtime, in the specification.
    pub closed spec fn handle_of(&self) -> Handle {
        self.handle
    }

    /// What is known of the runtime is what is known of its tasks.
    pub proof fn lemma_handle(&self)
        ensures
            self@ == self.handle_of()@,
            self.wf() == self.handle_of().wf(),
            self.vacant() == self.handle_of().vacant(),
    {
    }

    /// Spawn a task, its future being kept elsewhere. The step is what to do with
    /// the future at once: nothing, unless the runtime is being shut down.
    pub fn spawn(&mut self, spawned_at: Location) -> (spawned: (JoinHandle, Step))
        requires
            old(self).wf(),
            old(self).vacant() < u32::MAX,
        ensures
            final(self).wf(),
            final(self).number() == old(self).number(),
            ({
                let (join, step) = spawned;
                let p = join@;
                let slot = old(self).vacant();
                let h = final(self)@.tasks[p];
                let fresh = raw::new_header(h.id, spawned_at);
                &&& !old(self)@.tasks.contains_key(p)
                &&& h.id@ == slot + 1
                &&& if old(self)@.closed {
                    &&& step is DropFuture
                    &&& final(self)@ == old(self)@.with_task(
                        p,
                        fresh.with_life(Lifecycle { refs: 2, ..fresh.life }).killed(),
                    )
                } else {
                    &&& step matches Step::Done(None)
                    &&& final(self)@ == (HandleView {
                        registry: old(self)@.registry.insert(slot, RawTask { place: p }),
                        ..old(self)@.with_task(
                            p,
                            fresh.with_life(Lifecycle { owned: true, ..fresh.life }),
                        ).with_queued(p)
                    })
                }
            }),
    {
        let (task, step) = self.handle.spawn(spawned_at);
        (JoinHandle::new(task), step)
    }

    /// Begin to block on a future, which is polled once up front.
    pub fn block_on(&self) -> (blocked: (Signal, BlockOn))
        ensures
            blocked.0@,
            blocked.1@ is Top,
    {
        (Signal::new(), BlockOn::new())
    }

    /// Wake whoever the waker is for: a task, or the future that is blocked on.
    pub fn wake_by_ref(&mut self, signal: &mut Signal, waker: &Waker)
        requires
            old(self).wf(),
            task_waker::task_of(*waker) matches Some(task) ==> old(self)@.tasks.contains_key(
                task.place,
            ) && old(self)@.tasks[task.place].life.wakeable(),
        ensures
            final(self).wf(),
            final(self).number() == old(self).number(),
            match task_waker::task_of(*waker) {
                Some(task) => {
                    &&& final(self)@ == old(self)@.with_woken(task.place)
                    &&& final(signal)@ == old(signal)@
                },
                None => final(signal)@ && final(self)@ == old(self)@,
            },
            waker.token == 0 ==> final(signal)@ && final(self)@ == old(self)@,
            0 < waker.token <= usize::MAX ==> final(self)@ == old(self)@.with_woken(
                (waker.token - 1) as usize,
            ),
    {
        match task_waker::task_of_waker(waker) {
            Some(task) => {
                self.handle.wake_by_ref(task);
            },
            None => {
                signal.wake();
            },
        }
    }

    /// Begin to shut down every task on this runtime, or go on with it: the tasks
    /// to be shut down next, after which what is left in the run queue is to be
    /// drained. `None` once there is nothing left.
    ///
    /// Closing the registry means that a task spawned by a destructor is shut down
    /// immediately, so this ends: see [`moves::lemma_shutting_down_ends`], and
    /// [`moves::lemma_dropping_a_runtime_ends_every_task`] for what it ends with.
    pub fn shutdown(&mut self) -> (tasks: Option<Vec<RawTask>>)
        requires
            old(self).wf(),
        ensures
            final(self).wf(),
            final(self).number() == old(self).number(),
            match tasks {
                None => {
                    &&& old(self)@.registry == Map::<usize, RawTask>::empty()
                    &&& old(self)@.queue.len() == 0
                    &&& final(self)@ == old(self)@
                },
                Some(tasks) => {
                    &&& old(self)@.registry != Map::<usize, RawTask>::empty()
                        || old(self)@.queue.len() > 0
                    &&& moves::moves(old(self)@, Move::Close, final(self)@)
                    &&& final(self)@.closed
                    &&& final(self)@.registry == Map::<usize, RawTask>::empty()
                    &&& final(self)@.queue == old(self)@.queue
                    &&& final(self)@.tasks == old(self)@.tasks.map_values(
                        |h: HeaderView| h.with_life(Lifecycle { owned: false, ..h.life }),
                    )
                    &&& forall|p: usize| #[trigger]
                        old(self)@.tasks.contains_key(p) && old(self)@.tasks[p].life.owned
                            ==> tasks@.contains(RawTask { place: p })
                    &&& forall|i: int|
                        0 <= i < tasks@.len() ==> old(self)@.tasks.contains_key(
                            (#[trigger] tasks@[i]).place,
                        ) && old(self)@.tasks[tasks@[i].place].life.owned && final(self)@.spare(
                            tasks@[i].place,
                        ) == old(self)@.spare(tasks@[i].place) + 1
                    &&& forall|i: int, j: int|
                        0 <= i < j < tasks@.len() ==> old(self)@.tasks[(
                        #[trigger] tasks@[i]).place].id@ < old(self)@.tasks[(
                        #[trigger] tasks@[j]).place].id@
                },
            },
    {
        if self.handle.is_idle() {
            None
        } else {
            Some(self.handle.close())
        }
    }
}

} // verus!
