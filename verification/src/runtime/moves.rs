//! What can happen to the tasks of a runtime, and what holds however it goes on.
//!
//! Everything that [`Handle`](super::sched::Handle) does to its tasks is one of
//! these moves. User code runs between them, when a future is polled or dropped
//! and when somebody is woken, and what it does to tasks is made of moves too: so
//! whatever holds of every sequence of moves holds whatever user code does.

use vstd::prelude::*;

use super::sched;
use super::sched::HandleView;
use super::task::error::{JoinErrorView, Payload};
use super::task::id::Id;
use super::task::owned::RawTask;
use super::task::raw;
use super::task::raw::{HeaderView, Location, Polled, Settle, StageView};
use super::task::state::Lifecycle;
use super::waker::Waker;

verus! {

/// One thing that happens, to a task in some place.
pub enum Move {
    /// A task is made.
    Spawn(usize, Id, Location),
    /// The task at the front of the run queue is taken, to be polled.
    Next,
    /// A task is killed.
    Shutdown(usize),
    /// Polling a future has come to this.
    Polled(usize, Polled),
    /// Dropping a future has panicked with this, or not.
    Dropped(usize, Option<Payload>),
    /// A task that has completed is let go of.
    Settled(usize),
    /// A task is woken, which consumes a reference.
    WakeByVal(usize),
    /// A task is woken.
    WakeByRef(usize),
    /// A task is aborted.
    Abort(usize),
    /// A reference to a task is made.
    RefInc(usize),
    /// A reference to a task is dropped.
    DropReference(usize),
    /// A `JoinHandle` is polled.
    PollJoin(usize, Waker),
    /// A `JoinHandle` is dropped.
    DropJoin(usize),
    /// The registry is closed.
    Close,
    /// The task at the front of the run queue is let go of.
    Drain,
}

/// The move can be made.
pub open spec fn allowed(v: HandleView, m: Move) -> bool {
    match m {
        Move::Spawn(p, id, _) => {
            &&& !v.tasks.contains_key(p)
            &&& !v.closed ==> !v.registry.contains_key((id@ - 1) as usize)
        },
        Move::Next | Move::Close => true,
        Move::Drain => v.closed,
        Move::Shutdown(p) | Move::WakeByVal(p) | Move::DropReference(p) => {
            &&& v.tasks.contains_key(p)
            &&& v.spare(p) >= 1
        },
        Move::Polled(p, _) => {
            &&& v.tasks.contains_key(p)
            &&& v.tasks[p].life.running
            &&& !v.tasks[p].dropping
        },
        Move::Dropped(p, _) => v.tasks.contains_key(p) && v.tasks[p].dropping,
        Move::Settled(p) => v.tasks.contains_key(p) && v.tasks[p].settling,
        Move::WakeByRef(p) | Move::Abort(p) | Move::RefInc(p) => v.tasks.contains_key(p),
        Move::PollJoin(p, _) => {
            &&& v.tasks.contains_key(p)
            &&& v.tasks[p].life.join_interest
            &&& !v.tasks[p].life.output_taken
        },
        Move::DropJoin(p) => v.tasks.contains_key(p) && v.tasks[p].life.join_interest,
    }
}

/// The runtime once a task has been made.
pub open spec fn after_spawn(v: HandleView, p: usize, id: Id, spawned_at: Location) -> HandleView {
    let fresh = raw::new_header(id, spawned_at);
    if v.closed {
        v.with_task(p, fresh.with_life(Lifecycle { refs: 2, ..fresh.life }).killed())
    } else {
        HandleView {
            registry: v.registry.insert((id@ - 1) as usize, RawTask { place: p }),
            ..v.with_task(p, fresh.with_life(Lifecycle { owned: true, ..fresh.life })).with_queued(
                p,
            )
        }
    }
}

/// The runtime once the front of the run queue has been taken.
pub open spec fn after_next(v: HandleView) -> HandleView {
    if v.queue.len() == 0 {
        v
    } else {
        let p = v.queue[0];
        let popped = HandleView { queue: v.queue.skip(1), ..v };
        if v.tasks[p].life.idle() {
            popped.with_task(p, v.tasks[p].begun())
        } else {
            popped.with_dropped(p)
        }
    }
}

/// The runtime once a future has been polled.
pub open spec fn after_poll(v: HandleView, p: usize, polled: Polled) -> HandleView {
    let h = v.tasks[p];
    match polled {
        Polled::Pending => if h.life.cancelled {
            v.with_task(p, HeaderView { dropping: true, ..h })
        } else if h.life.notified {
            v.with_task(p, h.with_life(Lifecycle { running: false, ..h.life })).with_queued(p)
        } else {
            v.with_or_without(
                p,
                h.with_life(Lifecycle { running: false, refs: h.life.refs - 1, ..h.life }),
            )
        },
        Polled::Ready(output) => v.with_task(p, h.completed(Ok(output), false)),
        Polled::Panicked(payload) => v.with_task(
            p,
            h.completed(Err(raw::cancel_result(h.id, Some(payload))), false),
        ),
    }
}

/// The runtime once a task that has completed has been let go of.
pub open spec fn after_settled(v: HandleView, p: usize) -> HandleView {
    let h = v.tasks[p];
    HandleView {
        registry: if h.life.owned {
            v.registry.remove((h.id@ - 1) as usize)
        } else {
            v.registry
        },
        ..v.with_or_without(
            p,
            HeaderView {
                life: Lifecycle {
                    owned: false,
                    refs: h.life.refs - (1 + sched::one_if(h.life.owned)),
                    ..h.life
                },
                settling: false,
                ..h
            },
        )
    }
}

/// The runtime once a move has been made.
pub open spec fn after(v: HandleView, m: Move) -> HandleView {
    match m {
        Move::Spawn(p, id, spawned_at) => after_spawn(v, p, id, spawned_at),
        Move::Next => after_next(v),
        Move::Shutdown(p) => if v.tasks[p].life.idle() {
            v.with_task(p, v.tasks[p].killed())
        } else {
            v.with_cancelled(p).with_dropped(p)
        },
        Move::Polled(p, polled) => after_poll(v, p, polled),
        Move::Dropped(p, panic) => {
            let h = v.tasks[p];
            v.with_task(p, h.completed(Err(raw::cancel_result(h.id, panic)), true))
        },
        Move::Settled(p) => after_settled(v, p),
        Move::WakeByVal(p) => {
            let h = v.tasks[p];
            let woken = h.with_life(Lifecycle { notified: true, ..h.life });
            if h.life.complete || h.life.notified {
                v.with_dropped(p)
            } else if h.life.running {
                v.with_task(p, woken).with_dropped(p)
            } else {
                v.with_task(p, woken).with_queued(p)
            }
        },
        Move::WakeByRef(p) => v.with_woken(p),
        Move::Abort(p) => v.with_cancelled(p).with_woken(p),
        Move::RefInc(p) => {
            let h = v.tasks[p];
            v.with_task(p, h.with_life(Lifecycle { refs: h.life.refs + 1, ..h.life }))
        },
        Move::DropReference(p) => v.with_dropped(p),
        Move::PollJoin(p, waker) => {
            let h = v.tasks[p];
            v.with_task(
                p,
                if h.life.complete {
                    HeaderView {
                        life: Lifecycle { output_taken: true, ..h.life },
                        stage: StageView::Consumed,
                        ..h
                    }
                } else {
                    HeaderView { waker: Some(waker), ..h }
                },
            )
        },
        Move::DropJoin(p) => {
            let h = v.tasks[p];
            v.with_or_without(
                p,
                HeaderView {
                    life: Lifecycle { join_interest: false, refs: h.life.refs - 1, ..h.life },
                    waker: None,
                    ..h
                },
            )
        },
        Move::Close => HandleView {
            tasks: v.tasks.map_values(
                |h: HeaderView| h.with_life(Lifecycle { owned: false, ..h.life }),
            ),
            registry: Map::empty(),
            closed: true,
            ..v
        },
        Move::Drain => if v.queue.len() == 0 {
            v
        } else {
            (HandleView { queue: v.queue.skip(1), ..v }).with_dropped(v.queue[0])
        },
    }
}

/// The move can be made and leads from one state to the other.
pub open spec fn moves(v: HandleView, m: Move, w: HandleView) -> bool {
    allowed(v, m) && w == after(v, m)
}

/// The move hands out the future of the task to be polled.
pub open spec fn begins_poll(v: HandleView, m: Move, p: usize) -> bool {
    &&& m is Next
    &&& v.queue.len() > 0
    &&& v.queue[0] == p
    &&& v.tasks[p].life.idle()
    &&& !v.tasks[p].life.cancelled
}

/// The move hands out the future of the task to be dropped.
pub open spec fn begins_drop(v: HandleView, m: Move, p: usize) -> bool {
    match m {
        Move::Spawn(q, _, _) => q == p && v.closed,
        Move::Next => {
            &&& v.queue.len() > 0
            &&& v.queue[0] == p
            &&& v.tasks[p].life.idle()
            &&& v.tasks[p].life.cancelled
        },
        Move::Shutdown(q) => q == p && v.tasks[p].life.idle(),
        Move::Polled(q, polled) => q == p && polled is Pending && v.tasks[p].life.cancelled,
        _ => false,
    }
}

/// What the task completes with, if the move completes it.
pub open spec fn completes(v: HandleView, m: Move, p: usize) -> Option<Result<u64, JoinErrorView>> {
    match m {
        Move::Dropped(q, panic) => if q == p {
            Some(Err(raw::cancel_result(v.tasks[p].id, panic)))
        } else {
            None
        },
        Move::Polled(q, Polled::Ready(output)) => if q == p {
            Some(Ok(output))
        } else {
            None
        },
        Move::Polled(q, Polled::Panicked(payload)) => if q == p {
            Some(Err(raw::cancel_result(v.tasks[p].id, Some(payload))))
        } else {
            None
        },
        _ => None,
    }
}

/// The task that the move is about.
pub open spec fn about(v: HandleView, m: Move) -> Option<usize> {
    match m {
        Move::Next | Move::Drain => if v.queue.len() == 0 {
            None
        } else {
            Some(v.queue[0])
        },
        Move::Close => None,
        Move::Spawn(p, _, _) => Some(p),
        Move::Shutdown(p) => Some(p),
        Move::Polled(p, _) => Some(p),
        Move::Dropped(p, _) => Some(p),
        Move::Settled(p) => Some(p),
        Move::WakeByVal(p) => Some(p),
        Move::WakeByRef(p) => Some(p),
        Move::Abort(p) => Some(p),
        Move::RefInc(p) => Some(p),
        Move::DropReference(p) => Some(p),
        Move::PollJoin(p, _) => Some(p),
        Move::DropJoin(p) => Some(p),
    }
}

/// A move leaves every task alone but the one it is about; closing the registry is
/// about none, and takes all of them out of it.
pub proof fn lemma_others_are_left_alone(v: HandleView, m: Move, w: HandleView, p: usize)
    requires
        moves(v, m, w),
        about(v, m) != Some(p),
        v.tasks.contains_key(p),
    ensures
        w.tasks.contains_key(p),
        w.tasks[p] == if m is Close {
            v.tasks[p].with_life(Lifecycle { owned: false, ..v.tasks[p].life })
        } else {
            v.tasks[p]
        },
{
}

/// What a move makes of the task it is about.
spec fn becomes(h: HeaderView, m: Move, next: HeaderView) -> bool {
    match m {
        Move::Spawn(_, _, _) | Move::Close => false,
        Move::Next => if h.life.idle() {
            next == h.begun()
        } else {
            next == h.with_life(Lifecycle { refs: next.life.refs, ..h.life })
        },
        Move::Shutdown(_) => if h.life.idle() {
            next == h.killed()
        } else {
            next == h.with_life(
                Lifecycle {
                    cancelled: h.life.cancelled || !h.life.complete,
                    refs: next.life.refs,
                    ..h.life
                },
            )
        },
        Move::Polled(_, Polled::Pending) => if h.life.cancelled {
            next == (HeaderView { dropping: true, ..h })
        } else {
            next == h.with_life(
                Lifecycle { running: false, refs: next.life.refs, ..h.life },
            )
        },
        Move::Polled(_, Polled::Ready(output)) => next == h.completed(Ok(output), false),
        Move::Polled(_, Polled::Panicked(payload)) => next == h.completed(
            Err(raw::cancel_result(h.id, Some(payload))),
            false,
        ),
        Move::Dropped(_, panic) => next == h.completed(
            Err(raw::cancel_result(h.id, panic)),
            true,
        ),
        Move::Settled(_) => next == (HeaderView {
            life: Lifecycle { owned: false, refs: next.life.refs, ..h.life },
            settling: false,
            ..h
        }),
        Move::WakeByVal(_) | Move::WakeByRef(_) => next == h.with_life(
            Lifecycle {
                notified: h.life.notified || !h.life.complete,
                refs: next.life.refs,
                ..h.life
            },
        ),
        Move::Abort(_) => next == h.with_life(
            Lifecycle {
                notified: h.life.notified || !h.life.complete,
                cancelled: h.life.cancelled || !h.life.complete,
                refs: next.life.refs,
                ..h.life
            },
        ),
        Move::RefInc(_) | Move::DropReference(_) | Move::Drain => next == h.with_life(
            Lifecycle { refs: next.life.refs, ..h.life },
        ),
        Move::PollJoin(_, waker) => if h.life.complete {
            next == (HeaderView {
                life: Lifecycle { output_taken: true, ..h.life },
                stage: StageView::Consumed,
                ..h
            })
        } else {
            next == (HeaderView { waker: Some(waker), ..h })
        },
        Move::DropJoin(_) => next == (HeaderView {
            life: Lifecycle { join_interest: false, refs: next.life.refs, ..h.life },
            waker: None,
            ..h
        }),
    }
}

/// What taking a task off the run queue makes of it.
proof fn lemma_taken(v: HandleView, m: Move, w: HandleView, p: usize)
    requires
        m is Next || m is Drain,
        moves(v, m, w),
        about(v, m) == Some(p),
        v.tasks.contains_key(p),
        w.tasks.contains_key(p),
    ensures
        becomes(v.tasks[p], m, w.tasks[p]),
{
}

/// What killing a task makes of it.
proof fn lemma_killed(v: HandleView, m: Move, w: HandleView, p: usize)
    requires
        m is Shutdown || m is Abort,
        moves(v, m, w),
        about(v, m) == Some(p),
        v.tasks.contains_key(p),
        w.tasks.contains_key(p),
    ensures
        becomes(v.tasks[p], m, w.tasks[p]),
{
}

/// What polling and dropping its future makes of a task.
proof fn lemma_reported(v: HandleView, m: Move, w: HandleView, p: usize)
    requires
        m is Polled || m is Dropped || m is Settled,
        moves(v, m, w),
        about(v, m) == Some(p),
        v.tasks.contains_key(p),
        w.tasks.contains_key(p),
    ensures
        becomes(v.tasks[p], m, w.tasks[p]),
{
}

/// What waking a task makes of it.
proof fn lemma_woken(v: HandleView, m: Move, w: HandleView, p: usize)
    requires
        m is WakeByVal || m is WakeByRef,
        moves(v, m, w),
        about(v, m) == Some(p),
        v.tasks.contains_key(p),
        w.tasks.contains_key(p),
    ensures
        becomes(v.tasks[p], m, w.tasks[p]),
{
}

/// What making, using and dropping references to a task makes of it.
proof fn lemma_referred(v: HandleView, m: Move, w: HandleView, p: usize)
    requires
        m is RefInc || m is DropReference || m is PollJoin || m is DropJoin,
        moves(v, m, w),
        about(v, m) == Some(p),
        v.tasks.contains_key(p),
        w.tasks.contains_key(p),
    ensures
        becomes(v.tasks[p], m, w.tasks[p]),
{
}

/// What a move makes of the task it is about, if it leaves any of it.
proof fn lemma_becomes(v: HandleView, m: Move, w: HandleView, p: usize)
    requires
        moves(v, m, w),
        about(v, m) == Some(p),
        v.tasks.contains_key(p),
        w.tasks.contains_key(p),
    ensures
        becomes(v.tasks[p], m, w.tasks[p]),
{
    match m {
        Move::Spawn(_, _, _) | Move::Close => {},
        Move::Next | Move::Drain => lemma_taken(v, m, w, p),
        Move::Shutdown(_) | Move::Abort(_) => lemma_killed(v, m, w, p),
        Move::Polled(_, _) | Move::Dropped(_, _) | Move::Settled(_) => lemma_reported(v, m, w, p),
        Move::WakeByVal(_) | Move::WakeByRef(_) => lemma_woken(v, m, w, p),
        Move::RefInc(_) | Move::DropReference(_) | Move::PollJoin(_, _) | Move::DropJoin(_) => {
            lemma_referred(v, m, w, p)
        },
    }
}

/// One move, and a task that is there before and after it.
///
/// Its identity stays. One that has completed stays so, with its result there until
/// the `JoinHandle` takes it. One that has not completes only by what polling or
/// dropping its future came to. One that is to be killed stays so until it
/// completes, and its future is never handed out to be polled; only a move that
/// hands it out to be dropped has it dropped, and nothing but dropping it ends that.
pub proof fn lemma_one_move(v: HandleView, m: Move, w: HandleView, p: usize)
    requires
        v.valid(),
        moves(v, m, w),
        v.tasks.contains_key(p),
        w.tasks.contains_key(p),
    ensures
        w.tasks[p].id == v.tasks[p].id,
        w.tasks[p].spawned_at == v.tasks[p].spawned_at,
        v.tasks[p].life.complete ==> {
            &&& w.tasks[p].life.complete
            &&& w.tasks[p].stage == v.tasks[p].stage || (m matches Move::PollJoin(q, _) && q == p
                && w.tasks[p].life.output_taken)
            &&& v.tasks[p].life.output_taken ==> w.tasks[p].life.output_taken
        },
        !v.tasks[p].life.complete && w.tasks[p].life.complete ==> completes(v, m, p) is Some,
        completes(v, m, p) is Some ==> {
            &&& !v.tasks[p].life.complete
            &&& w.tasks[p] == v.tasks[p].completed(completes(v, m, p)->0, m is Dropped)
            &&& v.tasks[p].dropping == !(m is Polled)
        },
        v.tasks[p].life.cancelled && !v.tasks[p].life.complete ==> {
            &&& w.tasks[p].life.cancelled || w.tasks[p].life.complete
            &&& !begins_poll(v, m, p)
        },
        w.tasks[p].life.running && !v.tasks[p].life.running ==> begins_poll(v, m, p)
            || begins_drop(v, m, p),
        begins_poll(v, m, p) ==> w.tasks[p].life.running && !w.tasks[p].dropping,
        begins_drop(v, m, p) ==> w.tasks[p].dropping,
        w.tasks[p].dropping && !v.tasks[p].dropping ==> begins_drop(v, m, p),
        v.tasks[p].dropping && !w.tasks[p].dropping ==> (m matches Move::Dropped(q, _) && q == p),
{
    let h = v.tasks[p];
    let next = w.tasks[p];
    assert(sched::in_order(h, v.queue.contains(p), v.closed));
    assert(allowed(v, m));
    if about(v, m) == Some(p) {
        lemma_becomes(v, m, w, p);
        lemma_what_it_becomes(v, m, p, next);
    } else {
        lemma_others_are_left_alone(v, m, w, p);
    }
}

/// What follows for the task that a move is about.
proof fn lemma_what_it_becomes(v: HandleView, m: Move, p: usize, next: HeaderView)
    requires
        v.tasks[p].sound(),
        allowed(v, m),
        about(v, m) == Some(p),
        becomes(v.tasks[p], m, next),
    ensures
        next.id == v.tasks[p].id,
        next.spawned_at == v.tasks[p].spawned_at,
        v.tasks[p].life.complete ==> {
            &&& next.life.complete
            &&& next.stage == v.tasks[p].stage || (m is PollJoin && next.life.output_taken)
            &&& v.tasks[p].life.output_taken ==> next.life.output_taken
        },
        !v.tasks[p].life.complete && next.life.complete ==> completes(v, m, p) is Some,
        completes(v, m, p) is Some ==> {
            &&& !v.tasks[p].life.complete
            &&& next == v.tasks[p].completed(completes(v, m, p)->0, m is Dropped)
            &&& v.tasks[p].dropping == !(m is Polled)
        },
        v.tasks[p].life.cancelled && !v.tasks[p].life.complete ==> next.life.cancelled
            || next.life.complete,
        next.life.running && !v.tasks[p].life.running ==> begins_poll(v, m, p) || begins_drop(
            v,
            m,
            p,
        ),
        begins_poll(v, m, p) ==> next.life.running && !next.dropping,
        begins_drop(v, m, p) ==> next.dropping,
        next.dropping && !v.tasks[p].dropping ==> begins_drop(v, m, p),
        v.tasks[p].dropping && !next.dropping ==> m is Dropped,
{
}

/// A sequence of moves, and the states they lead through.
pub open spec fn is_history(states: Seq<HandleView>, moved: Seq<Move>) -> bool {
    &&& states.len() == moved.len() + 1
    &&& forall|i: int| 0 <= i < states.len() ==> (#[trigger] states[i]).valid()
    &&& forall|i: int|
        0 <= i < moved.len() ==> moves(states[i], #[trigger] moved[i], states[i + 1])
}

/// Somebody holds a reference to the task throughout.
pub open spec fn held(states: Seq<HandleView>, p: usize) -> bool {
    forall|i: int| 0 <= i < states.len() ==> (#[trigger] states[i]).tasks.contains_key(p)
}

/// A task keeps its id, and the place it was spawned at, as long as anybody holds
/// a reference to it.
pub proof fn lemma_identity_stays(
    states: Seq<HandleView>,
    moved: Seq<Move>,
    p: usize,
    k: int,
    i: int,
)
    requires
        is_history(states, moved),
        held(states, p),
        0 <= k <= i < states.len(),
    ensures
        states[i].tasks[p].id == states[k].tasks[p].id,
        states[i].tasks[p].spawned_at == states[k].tasks[p].spawned_at,
    decreases i - k,
{
    if k < i {
        lemma_identity_stays(states, moved, p, k, i - 1);
        assert(moves(states[i - 1], moved[i - 1], states[i]));
        lemma_one_move(states[i - 1], moved[i - 1], states[i], p);
    }
}

/// A task that has completed stays so, and its result is there until its
/// `JoinHandle` takes it.
pub proof fn lemma_a_result_stands(
    states: Seq<HandleView>,
    moved: Seq<Move>,
    p: usize,
    k: int,
    i: int,
)
    requires
        is_history(states, moved),
        held(states, p),
        0 <= k <= i < states.len(),
        states[k].tasks[p].life.complete,
    ensures
        states[i].tasks[p].life.complete,
        states[i].tasks[p].stage == states[k].tasks[p].stage
            || states[i].tasks[p].life.output_taken,
    decreases i - k,
{
    if k < i {
        lemma_a_result_stands(states, moved, p, k, i - 1);
        assert(moves(states[i - 1], moved[i - 1], states[i]));
        lemma_one_move(states[i - 1], moved[i - 1], states[i], p);
    }
}

/// Move `k` completed the task, and if there is a result at `i` it is the one it
/// completed with then.
pub open spec fn completed_at(
    states: Seq<HandleView>,
    moved: Seq<Move>,
    p: usize,
    k: int,
    i: int,
) -> bool {
    &&& !states[k].tasks[p].life.complete
    &&& completes(states[k], moved[k], p) matches Some(result) && (
    states[i].tasks[p].stage is Finished ==> states[i].tasks[p].stage == StageView::Finished(
        result,
    ))
}

/// A task that has completed was completed by one move, by what polling or dropping
/// its future came to then, and that is its result.
pub proof fn lemma_a_task_completes_once(
    states: Seq<HandleView>,
    moved: Seq<Move>,
    p: usize,
    i: int,
) -> (k: int)
    requires
        is_history(states, moved),
        held(states, p),
        0 <= i < states.len(),
        !states[0].tasks[p].life.complete,
        states[i].tasks[p].life.complete,
    ensures
        0 <= k < i,
        completed_at(states, moved, p, k, i),
    decreases i,
{
    assert(moves(states[i - 1], moved[i - 1], states[i]));
    lemma_one_move(states[i - 1], moved[i - 1], states[i], p);
    if states[i - 1].tasks[p].life.complete {
        let k = lemma_a_task_completes_once(states, moved, p, i - 1);
        assert(sched::in_order(states[i].tasks[p], states[i].queue.contains(p), states[i].closed));
        k
    } else {
        i - 1
    }
}

/// The future of the task is being polled.
pub open spec fn polling(v: HandleView, p: usize) -> bool {
    v.tasks[p].life.running && !v.tasks[p].dropping
}

/// A task that has been aborted is to be killed until it has completed, and no poll
/// of its future is under way but the one that was when it was aborted.
proof fn lemma_aborted(states: Seq<HandleView>, moved: Seq<Move>, p: usize, i: int)
    requires
        is_history(states, moved),
        held(states, p),
        moved.len() > 0,
        moved[0] == Move::Abort(p),
        !states[0].tasks[p].life.complete,
        0 < i < states.len(),
    ensures
        states[i].tasks[p].life.cancelled || states[i].tasks[p].life.complete,
        polling(states[i], p) ==> polling(states[0], p),
    decreases i,
{
    assert(moves(states[i - 1], moved[i - 1], states[i]));
    lemma_one_move(states[i - 1], moved[i - 1], states[i], p);
    assert(sched::in_order(states[i].tasks[p], states[i].queue.contains(p), states[i].closed));
    if i > 1 {
        lemma_aborted(states, moved, p, i - 1);
    } else {
        lemma_becomes(states[0], moved[0], states[1], p);
    }
}

/// Aborting a task is final. It does nothing to a task that has completed. One that
/// has not is to be killed from then until it completes, whatever happens in
/// between, and its future is never handed out to be polled again.
///
/// The only poll there can be any report of is the one that was under way when the
/// task was aborted. If that comes to an output or a panic, the task completes with
/// it; if it does not, the future is dropped next. A task that was not being polled
/// waits for its future to be dropped, in the run queue unless the runtime is being
/// shut down, and completes only by that.
pub proof fn lemma_an_abort_is_final(
    states: Seq<HandleView>,
    moved: Seq<Move>,
    p: usize,
    i: int,
)
    requires
        is_history(states, moved),
        held(states, p),
        moved.len() > 0,
        moved[0] == Move::Abort(p),
        0 < i < moved.len(),
    ensures
        states[0].tasks[p].life.complete ==> states[1] == states[0],
        states[0].tasks[p].life.idle() && !states[0].closed ==> states[1].queue.contains(p),
        !begins_poll(states[i], moved[i], p),
        !states[0].tasks[p].life.complete ==> {
            &&& states[i].tasks[p].life.cancelled || states[i].tasks[p].life.complete
            &&& moved[i] matches Move::Polled(q, polled) ==> q == p ==> {
                &&& polling(states[0], p)
                &&& polled is Pending ==> begins_drop(states[i], moved[i], p)
            }
            &&& !states[i].tasks[p].life.complete && states[i + 1].tasks[p].life.complete ==> {
                &&& completes(states[i], moved[i], p) is Some
                &&& moved[i] is Polled ==> polling(states[0], p)
            }
        },
{
    let v = states[0];
    assert(moves(states[0], moved[0], states[1]));
    assert(moves(states[i], moved[i], states[i + 1]));
    assert(sched::in_order(v.tasks[p], v.queue.contains(p), v.closed));
    lemma_one_move(states[i], moved[i], states[i + 1], p);
    if v.tasks[p].life.complete {
        sched::lemma_aborting_a_finished_task_does_nothing(v, p);
        lemma_a_result_stands(states, moved, p, 0, i);
    } else {
        lemma_aborted(states, moved, p, i);
        if v.tasks[p].life.idle() && !v.closed {
            let cancelled = v.with_cancelled(p);
            assert(cancelled.tasks[p].life.idle());
            if !v.tasks[p].life.notified {
                assert(states[1].queue == v.queue.push(p));
                assert(states[1].queue[v.queue.len() as int] == p);
            }
        }
    }
}

/// A task that was aborted before it had completed ends as its `JoinHandle` is told:
/// as cancelled, or as having panicked if dropping its future did; or with what the
/// poll that was under way when it was aborted came to.
pub proof fn lemma_how_an_aborted_task_ends(
    states: Seq<HandleView>,
    moved: Seq<Move>,
    p: usize,
    i: int,
) -> (k: int)
    requires
        is_history(states, moved),
        held(states, p),
        moved.len() > 0,
        moved[0] == Move::Abort(p),
        !states[0].tasks[p].life.complete,
        0 <= i < states.len(),
        states[i].tasks[p].life.complete,
    ensures
        0 < k < i,
        completed_at(states, moved, p, k, i),
        moved[k] matches Move::Dropped(q, panic) ==> completes(states[k], moved[k], p) == Some(
            Err::<u64, _>(raw::cancel_result(states[i].tasks[p].id, panic)),
        ),
        !(moved[k] is Dropped) ==> polling(states[0], p) && moved[k] is Polled,
{
    let k = lemma_a_task_completes_once(states, moved, p, i);
    lemma_identity_stays(states, moved, p, k, i);
    assert(moves(states[k], moved[k], states[k + 1]));
    lemma_one_move(states[k], moved[k], states[k + 1], p);
    if k > 0 {
        lemma_aborted(states, moved, p, k);
    }
    k
}

/// A runtime that is being dropped, with `todo` being the tasks that were registered
/// and have yet to be shut down: every other task has completed or is having its
/// future dropped, and no future is being polled.
pub open spec fn winding_down(v: HandleView, todo: Set<usize>) -> bool {
    &&& v.closed
    &&& forall|p: usize| #[trigger]
        v.tasks.contains_key(p) ==> {
            &&& v.tasks[p].life.complete || v.tasks[p].dropping || todo.contains(p)
            &&& v.tasks[p].life.running ==> v.tasks[p].dropping
        }
}

/// While a runtime is being dropped nothing keeps it from that: whatever destructors
/// wake, abort or spawn, no future is polled, and every task but those yet to be shut
/// down has completed or is having its future dropped.
pub proof fn lemma_winding_down_goes_on(v: HandleView, m: Move, w: HandleView, todo: Set<usize>)
    requires
        v.valid(),
        moves(v, m, w),
        winding_down(v, todo),
        !(m is Next),
    ensures
        !(m is Polled),
        winding_down(
            w,
            match m {
                Move::Shutdown(p) => todo.remove(p),
                _ => todo,
            },
        ),
{
    let rest = match m {
        Move::Shutdown(p) => todo.remove(p),
        _ => todo,
    };
    assert forall|p: usize| #[trigger] w.tasks.contains_key(p) implies {
        &&& w.tasks[p].life.complete || w.tasks[p].dropping || rest.contains(p)
        &&& w.tasks[p].life.running ==> w.tasks[p].dropping
    } by {
        if v.tasks.contains_key(p) {
            assert(sched::in_order(v.tasks[p], v.queue.contains(p), v.closed));
            lemma_one_move(v, m, w, p);
            if about(v, m) == Some(p) {
                lemma_becomes(v, m, w, p);
            } else {
                lemma_others_are_left_alone(v, m, w, p);
            }
        } else {
            lemma_made(v, m, w, p);
        }
    }
    assert(w.closed) by {
        lemma_stays_closed(v, m, w);
    }
}

/// Only making a task puts one where there was none, and one that is made while the
/// registry is closed is killed at once.
proof fn lemma_made(v: HandleView, m: Move, w: HandleView, p: usize)
    requires
        v.valid(),
        v.closed,
        moves(v, m, w),
        !v.tasks.contains_key(p),
        w.tasks.contains_key(p),
    ensures
        m is Spawn,
        w.tasks[p].dropping,
{
    if v.queue.len() > 0 {
        assert(v.queue.contains(v.queue[0]));
    }
    match m {
        Move::Spawn(_, _, _) => {},
        Move::Next | Move::Drain | Move::Close => lemma_nothing_made(v, m, w, p),
        Move::Shutdown(_) | Move::Abort(_) | Move::WakeByVal(_) | Move::WakeByRef(_) => {
            lemma_nothing_made_by_waking(v, m, w, p)
        },
        _ => lemma_nothing_made_otherwise(v, m, w, p),
    }
}

/// Taking a task off the run queue, or all of them out of the registry, makes none.
proof fn lemma_nothing_made(v: HandleView, m: Move, w: HandleView, p: usize)
    requires
        m is Next || m is Drain || m is Close,
        v.queue.len() > 0 ==> v.tasks.contains_key(v.queue[0]),
        moves(v, m, w),
        !v.tasks.contains_key(p),
    ensures
        !w.tasks.contains_key(p),
{
}

/// Waking and killing a task makes none.
proof fn lemma_nothing_made_by_waking(v: HandleView, m: Move, w: HandleView, p: usize)
    requires
        m is Shutdown || m is Abort || m is WakeByVal || m is WakeByRef,
        moves(v, m, w),
        !v.tasks.contains_key(p),
    ensures
        !w.tasks.contains_key(p),
{
}

/// Neither does anything else but making one.
proof fn lemma_nothing_made_otherwise(v: HandleView, m: Move, w: HandleView, p: usize)
    requires
        m is Polled || m is Dropped || m is Settled || m is RefInc || m is DropReference
            || m is PollJoin || m is DropJoin,
        moves(v, m, w),
        !v.tasks.contains_key(p),
    ensures
        !w.tasks.contains_key(p),
{
}

/// A registry that is closed stays so.
proof fn lemma_stays_closed(v: HandleView, m: Move, w: HandleView)
    requires
        v.closed,
        moves(v, m, w),
    ensures
        w.closed,
{
}

/// The tasks that were registered at first and that no move before `i` has shut
/// down.
pub open spec fn yet_to_shut_down(
    states: Seq<HandleView>,
    moved: Seq<Move>,
    i: int,
) -> Set<usize> {
    Set::new(
        |p: usize|
            {
                &&& states[0].tasks.contains_key(p)
                &&& states[0].tasks[p].life.owned
                &&& forall|j: int| 0 < j < i ==> #[trigger] moved[j] != Move::Shutdown(p)
            },
    )
}

/// A runtime is dropped: nothing is being polled, its registry is closed, every task
/// that was in there is shut down, and no task is taken off the run queue but to be
/// let go of. In the end every future that was handed out to be dropped has been.
pub open spec fn is_dropped(states: Seq<HandleView>, moved: Seq<Move>) -> bool {
    &&& is_history(states, moved)
    &&& moved.len() > 0
    &&& moved[0] is Close
    &&& !states[0].closed
    &&& forall|p: usize| #[trigger]
        states[0].tasks.contains_key(p) ==> !states[0].tasks[p].life.running
    &&& forall|i: int| 0 < i < moved.len() ==> !(#[trigger] moved[i] is Next)
    &&& forall|p: usize| #[trigger]
        states[0].tasks.contains_key(p) && states[0].tasks[p].life.owned ==> exists|i: int|
            0 < i < moved.len() && #[trigger] moved[i] == Move::Shutdown(p)
    &&& forall|p: usize| #[trigger]
        states.last().tasks.contains_key(p) ==> !states.last().tasks[p].life.running
}

/// At every point of dropping a runtime it is winding down.
proof fn lemma_winds_down(states: Seq<HandleView>, moved: Seq<Move>, i: int)
    requires
        is_dropped(states, moved),
        0 < i < states.len(),
    ensures
        winding_down(states[i], yet_to_shut_down(states, moved, i)),
    decreases i,
{
    assert(moves(states[i - 1], moved[i - 1], states[i]));
    let todo = yet_to_shut_down(states, moved, i);
    if i == 1 {
        let v = states[0];
        assert forall|p: usize| #[trigger] states[1].tasks.contains_key(p) implies {
            &&& states[1].tasks[p].life.complete || states[1].tasks[p].dropping || todo.contains(p)
            &&& states[1].tasks[p].life.running ==> states[1].tasks[p].dropping
        } by {
            assert(v.tasks.contains_key(p));
            assert(sched::in_order(v.tasks[p], v.queue.contains(p), v.closed));
        }
    } else {
        lemma_winds_down(states, moved, i - 1);
        let before = yet_to_shut_down(states, moved, i - 1);
        let m = moved[i - 1];
        lemma_winding_down_goes_on(states[i - 1], m, states[i], before);
        let rest = match m {
            Move::Shutdown(p) => before.remove(p),
            _ => before,
        };
        assert forall|p: usize| #[trigger] rest.contains(p) implies todo.contains(p) by {
            assert forall|j: int| 0 < j < i implies #[trigger] moved[j] != Move::Shutdown(p) by {}
        }
    }
}

/// Dropping a runtime ends every task on it. Once it is through, every task there is
/// a reference to has completed, and no future was polled on the way, whatever
/// destructors did. Waking and aborting do nothing to any of them any more.
pub proof fn lemma_dropping_a_runtime_ends_every_task(
    states: Seq<HandleView>,
    moved: Seq<Move>,
)
    requires
        is_dropped(states, moved),
    ensures
        forall|i: int| 0 <= i < moved.len() ==> !(#[trigger] moved[i] is Polled),
        forall|p: usize| #[trigger]
            states.last().tasks.contains_key(p) ==> {
                &&& states.last().tasks[p].life.complete
                &&& after(states.last(), Move::Abort(p)) == states.last()
                &&& after(states.last(), Move::WakeByRef(p)) == states.last()
            },
{
    assert forall|i: int| 0 <= i < moved.len() implies !(#[trigger] moved[i] is Polled) by {
        if i > 0 {
            assert(moves(states[i], moved[i], states[i + 1]));
            lemma_winds_down(states, moved, i);
            lemma_winding_down_goes_on(
                states[i],
                moved[i],
                states[i + 1],
                yet_to_shut_down(states, moved, i),
            );
        }
    }
    let n = moved.len() as int;
    let end = states.last();
    lemma_winds_down(states, moved, n);
    let todo = yet_to_shut_down(states, moved, n);
    assert forall|p: usize| #[trigger] end.tasks.contains_key(p) implies {
        &&& end.tasks[p].life.complete
        &&& after(end, Move::Abort(p)) == end
        &&& after(end, Move::WakeByRef(p)) == end
    } by {
        assert(sched::in_order(end.tasks[p], end.queue.contains(p), end.closed));
        if todo.contains(p) {
            let i = choose|i: int| 0 < i < moved.len() && #[trigger] moved[i] == Move::Shutdown(p);
            assert(moved[i] != Move::Shutdown(p));
        }
        sched::lemma_aborting_a_finished_task_does_nothing(end, p);
    }
}

/// Shutting down ends: once every task that was registered has been shut down,
/// nothing puts a task in the registry or on the run queue any more, and draining
/// the queue empties it.
pub proof fn lemma_shutting_down_ends(v: HandleView, m: Move, w: HandleView)
    requires
        v.valid(),
        moves(v, m, w),
        winding_down(v, Set::empty()),
        v.registry == Map::<usize, RawTask>::empty(),
        !(m is Next),
    ensures
        winding_down(w, Set::empty()),
        w.registry == Map::<usize, RawTask>::empty(),
        w.queue.len() <= v.queue.len(),
        m is Drain && v.queue.len() > 0 ==> w.queue.len() < v.queue.len(),
{
    lemma_winding_down_goes_on(v, m, w, Set::empty());
    assert(Set::<usize>::empty().remove(about(v, m)->0) =~= Set::<usize>::empty());
    assert(w.registry =~= Map::<usize, RawTask>::empty());
}

/// A task that had not completed when its runtime was dropped, and that somebody
/// holds a handle to, ends with its future dropped and not polled: as cancelled, or
/// as having panicked if dropping its future did. The handle goes on to tell its id,
/// and what it ended as.
pub proof fn lemma_dropping_a_runtime_cancels(
    states: Seq<HandleView>,
    moved: Seq<Move>,
    p: usize,
) -> (k: int)
    requires
        is_dropped(states, moved),
        held(states, p),
        !states[0].tasks[p].life.complete,
    ensures
        0 < k < moved.len(),
        moved[k] matches Move::Dropped(q, panic) && q == p && (
        states.last().tasks[p].stage is Finished ==> states.last().tasks[p].stage
            == StageView::Finished(Err(raw::cancel_result(states[0].tasks[p].id, panic)))),
        states.last().tasks[p].life.complete,
        states.last().tasks[p].id == states[0].tasks[p].id,
{
    let n = moved.len() as int;
    lemma_dropping_a_runtime_ends_every_task(states, moved);
    let k = lemma_a_task_completes_once(states, moved, p, n);
    lemma_identity_stays(states, moved, p, 0, n);
    lemma_identity_stays(states, moved, p, 0, k);
    assert(!(moved[k] is Polled));
    k
}

/// A task waits its turn: whoever is in the run queue moves up by one each time a task
/// is taken off the front, and by nothing else, so that however many are woken
/// meanwhile it is polled after those that waited before it and no others.
pub proof fn lemma_a_queued_task_waits_its_turn(v: HandleView, m: Move, w: HandleView, i: int)
    requires
        moves(v, m, w),
        0 <= i < v.queue.len(),
    ensures
        m is Next || m is Drain ==> w.queue == v.queue.skip(1),
        !(m is Next || m is Drain) ==> i < w.queue.len() && w.queue[i] == v.queue[i],
{
}

/// Nothing but making a task, waking it, aborting it, or polling it while it was woken
/// puts it in the run queue, and it goes to the end of it.
pub proof fn lemma_what_queues_a_task(v: HandleView, m: Move, w: HandleView)
    requires
        moves(v, m, w),
    ensures
        w.queue.len() <= v.queue.len() + 1,
        w.queue.len() == v.queue.len() + 1 ==> about(v, m) is Some && w.queue == v.queue.push(
            about(v, m)->0,
        ) && match m {
            Move::Spawn(_, _, _) => !v.closed,
            Move::WakeByVal(p) => v.tasks[p].life.wake_queues(),
            Move::WakeByRef(p) => v.tasks[p].life.wake_queues(),
            Move::Abort(p) => v.tasks[p].life.wake_queues(),
            Move::Polled(p, polled) => polled is Pending && v.tasks[p].life.notified
                && !v.tasks[p].life.cancelled,
            _ => false,
        },
{
}

/// A task is polled exactly if it is taken off the front of the queue, idle, and not to
/// be killed, and dropped instead if it is. Nobody else's future is touched.
pub proof fn lemma_who_is_polled(v: HandleView, p: usize)
    ensures
        begins_poll(v, Move::Next, p) <==> v.queue.len() > 0 && v.queue[0] == p
            && !v.tasks[p].life.running && !v.tasks[p].life.complete
            && !v.tasks[p].life.cancelled,
        begins_drop(v, Move::Next, p) <==> v.queue.len() > 0 && v.queue[0] == p
            && !v.tasks[p].life.running && !v.tasks[p].life.complete && v.tasks[p].life.cancelled,
        forall|m: Move| begins_poll(v, m, p) ==> m is Next,
        forall|m: Move| begins_drop(v, m, p) ==> about(v, m) == Some(p),
        begins_drop(v, Move::Shutdown(p), p) <==> !v.tasks[p].life.running
            && !v.tasks[p].life.complete,
        begins_drop(v, Move::Polled(p, Polled::Pending), p) <==> v.tasks[p].life.cancelled,
        forall|id: Id, at: Location| begins_drop(v, Move::Spawn(p, id, at), p) <==> v.closed,
{
}

/// A task completes with its output, with the panic of its poll, or, if its future was
/// dropped before it was ready, as cancelled or with the panic of that; and with
/// nothing else.
pub proof fn lemma_what_a_task_completes_with(
    v: HandleView,
    p: usize,
    output: u64,
    payload: Payload,
)
    ensures
        completes(v, Move::Polled(p, Polled::Ready(output)), p) == Some(
            Ok::<u64, JoinErrorView>(output),
        ),
        completes(v, Move::Polled(p, Polled::Panicked(payload)), p) == Some(
            Err::<u64, JoinErrorView>(
                (JoinErrorView { id: v.tasks[p].id, panic: Some(payload@) }),
            ),
        ),
        completes(v, Move::Dropped(p, None), p) == Some(
            Err::<u64, JoinErrorView>((JoinErrorView { id: v.tasks[p].id, panic: None })),
        ),
        completes(v, Move::Dropped(p, Some(payload)), p) == Some(
            Err::<u64, JoinErrorView>(
                (JoinErrorView { id: v.tasks[p].id, panic: Some(payload@) }),
            ),
        ),
        forall|m: Move| #[trigger]
            completes(v, m, p) is Some ==> about(v, m) == Some(p) && (m is Dropped || m is Polled)
                && !(m matches Move::Polled(_, Polled::Pending)),
{
}

/// What a `JoinHandle` gets is what its task completed with, as long as nobody has
/// taken it: whatever happens between the move that completed the task and the poll of
/// the handle.
pub proof fn lemma_a_join_handle_gets_the_result(
    states: Seq<HandleView>,
    moved: Seq<Move>,
    p: usize,
    i: int,
) -> (k: int)
    requires
        is_history(states, moved),
        held(states, p),
        0 <= i < states.len(),
        !states[0].tasks[p].life.complete,
        states[i].tasks[p].life.complete,
        states[i].tasks[p].life.join_interest,
        !states[i].tasks[p].life.output_taken,
    ensures
        0 <= k < i,
        match moved[k] {
            Move::Polled(q, Polled::Ready(output)) => q == p && states[i].tasks[p].stage
                == StageView::Finished(Ok(output)),
            Move::Polled(q, Polled::Panicked(payload)) => q == p && states[i].tasks[p].stage
                == StageView::Finished(
                Err((JoinErrorView { id: states[0].tasks[p].id, panic: Some(payload@) })),
            ),
            Move::Dropped(q, None) => q == p && states[i].tasks[p].stage == StageView::Finished(
                Err((JoinErrorView { id: states[0].tasks[p].id, panic: None })),
            ),
            Move::Dropped(q, Some(payload)) => q == p && states[i].tasks[p].stage
                == StageView::Finished(
                Err((JoinErrorView { id: states[0].tasks[p].id, panic: Some(payload@) })),
            ),
            _ => false,
        },
{
    let k = lemma_a_task_completes_once(states, moved, p, i);
    lemma_identity_stays(states, moved, p, 0, k);
    assert(sched::in_order(states[i].tasks[p], states[i].queue.contains(p), states[i].closed));
    k
}

/// Whoever polled a `JoinHandle` last is who is woken: until the task completes or the
/// handle is dropped, no move but another poll of the handle changes that.
pub proof fn lemma_the_last_to_poll_is_woken(v: HandleView, m: Move, w: HandleView, p: usize)
    requires
        v.valid(),
        moves(v, m, w),
        v.tasks.contains_key(p),
        w.tasks.contains_key(p),
    ensures
        m matches Move::PollJoin(q, waker) ==> q == p && !v.tasks[p].life.complete
            ==> w.tasks[p].waker == Some(waker),
        m == Move::DropJoin(p) ==> w.tasks[p].waker is None && !w.tasks[p].life.join_interest,
        !(m matches Move::PollJoin(q, _) && q == p && !v.tasks[p].life.complete) && m
            != Move::DropJoin(p) ==> w.tasks[p].waker == v.tasks[p].waker,
        m != Move::DropJoin(p) ==> w.tasks[p].life.join_interest == v.tasks[p].life.join_interest,
{
    if about(v, m) == Some(p) {
        lemma_becomes(v, m, w, p);
    } else {
        lemma_others_are_left_alone(v, m, w, p);
    }
}

/// Nobody else has polled the `JoinHandle` of the task, or dropped it, between the first
/// move and move `k`.
pub open spec fn left_to_wait(moved: Seq<Move>, p: usize, k: int) -> bool {
    forall|j: int|
        0 < j < k ==> #[trigger] moved[j] != Move::DropJoin(p) && !(moved[j] matches Move::PollJoin(
            q,
            _,
        ) && q == p)
}

/// Whoever polled a `JoinHandle` before its task was done is still the one to be told,
/// whatever has happened since.
proof fn lemma_still_waiting(
    states: Seq<HandleView>,
    moved: Seq<Move>,
    p: usize,
    waker: Waker,
    k: int,
)
    requires
        is_history(states, moved),
        held(states, p),
        moved.len() > 0,
        moved[0] == Move::PollJoin(p, waker),
        !states[0].tasks[p].life.complete,
        0 < k < states.len(),
        left_to_wait(moved, p, k),
    ensures
        states[k].tasks[p].waker == Some(waker),
        states[k].tasks[p].life.join_interest,
    decreases k,
{
    assert(moves(states[k - 1], moved[k - 1], states[k]));
    lemma_the_last_to_poll_is_woken(states[k - 1], moved[k - 1], states[k], p);
    if k > 1 {
        lemma_still_waiting(states, moved, p, waker, k - 1);
    }
}

/// Whoever waits for a task is told when it completes. Once somebody has polled the
/// `JoinHandle` of a task that was not done, and as long as nobody else polls it or
/// drops it, the move that completes the task, with an output, with a panic or by being
/// killed, says to wake exactly them; and what they get when they ask again is what it
/// completed with.
pub proof fn lemma_whoever_waits_is_told(
    states: Seq<HandleView>,
    moved: Seq<Move>,
    p: usize,
    waker: Waker,
    k: int,
    settle: Settle,
)
    requires
        is_history(states, moved),
        held(states, p),
        moved.len() > 0,
        moved[0] == Move::PollJoin(p, waker),
        !states[0].tasks[p].life.complete,
        0 < k < moved.len(),
        left_to_wait(moved, p, k),
        completes(states[k], moved[k], p) is Some,
        states[k].tasks[p].to_settle(settle, completes(states[k], moved[k], p)->0),
    ensures
        settle == Settle::Wake(Some(waker)),
        states[k + 1].tasks[p].life.complete,
        states[k + 1].tasks[p].stage == StageView::Finished(
            completes(states[k], moved[k], p)->0,
        ),
{
    lemma_still_waiting(states, moved, p, waker, k);
    assert(moves(states[k], moved[k], states[k + 1]));
    lemma_one_move(states[k], moved[k], states[k + 1], p);
}

} // verus!
