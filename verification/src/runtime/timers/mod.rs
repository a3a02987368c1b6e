//! Armed deadlines, and who is waiting for each.
//!
//! A timer is a key. It is *pending* until its deadline passes and it expires;
//! after that it is *fired*, and stays so until it is reset or removed. The
//! pending deadlines sit in a four-ary heap, so that the earliest is always at
//! hand and a timer can be cancelled from the middle without leaving anything
//! behind.

mod heap;
mod inner;

use vstd::prelude::*;

use self::heap::{Entry, Slot};
use self::inner::Inner;
use crate::runtime::clock::Instant;
use crate::runtime::poll::Poll;
use crate::runtime::waker::Waker;

verus! {

/// Room to start with.
const BASE_CAPACITY: usize = 256;

/// Timers to take one at a time before falling back to a sweep.
pub const SWEEP_AFTER: usize = 4;

/// A handle to one armed timer.
#[derive(Clone, Copy, Debug, PartialEq, Eq, Structural)]
pub struct TimerKey {
    index: usize,
}

impl View for TimerKey {
    type V = usize;

    closed spec fn view(&self) -> usize {
        self.index
    }
}

/// What is known of one timer.
#[derive(Clone, Copy, Debug)]
pub struct Timer {
    /// When it expires, or `None` once it has.
    pub deadline: Option<u64>,
    /// Who is to be woken then.
    pub waker: Option<Waker>,
}

/// Nanoseconds from `anchor` to `instant`, cut off at the width of a deadline;
/// zero for an instant before `anchor`.
pub open spec fn offset(anchor: Instant, instant: Instant) -> u64 {
    if instant.nanos >= anchor.nanos {
        (instant.nanos - anchor.nanos) as u64
    } else {
        0
    }
}

/// The instant `deadline` nanoseconds after `anchor`.
pub open spec fn at_offset(anchor: Instant, deadline: u64) -> Instant {
    Instant { nanos: (anchor.nanos + deadline) as u128 }
}

/// A timer nobody is waiting on and whose deadline has passed.
pub open spec fn fired() -> Timer {
    Timer { deadline: None, waker: None }
}

/// The timer is pending with a deadline at or before `now`.
pub open spec fn is_due(timer: Timer, now: u64) -> bool {
    timer.deadline matches Some(deadline) && deadline <= now
}

/// The keys of the timers due at `now`.
pub open spec fn due(timers: Map<usize, Timer>, now: u64) -> Set<usize> {
    timers.dom().filter(|k: usize| is_due(timers[k], now))
}

/// The keys of the pending timers.
pub open spec fn pending(timers: Map<usize, Timer>) -> Set<usize> {
    timers.dom().filter(|k: usize| timers[k].deadline is Some)
}

/// Timer `k` is pending and no pending timer is due before it.
pub open spec fn is_earliest(timers: Map<usize, Timer>, k: usize) -> bool {
    &&& timers.contains_key(k)
    &&& timers[k].deadline is Some
    &&& forall|j: usize| #[trigger]
        timers.contains_key(j) && timers[j].deadline is Some ==> timers[k].deadline->0
            <= timers[j].deadline->0
}

/// The timers once everything due at `now` has fired.
pub open spec fn after_expiry(timers: Map<usize, Timer>, now: u64) -> Map<usize, Timer> {
    timers.map_values(
        |timer: Timer|
            if is_due(timer, now) {
                fired()
            } else {
                timer
            },
    )
}

/// Whoever waits on the timers in `order`, in that order.
pub open spec fn waiting_on(timers: Map<usize, Timer>, order: Seq<usize>) -> Seq<Waker>
    decreases order.len(),
{
    if order.len() == 0 {
        Seq::empty()
    } else {
        let before = waiting_on(timers, order.drop_last());
        match timers[order.last()].waker {
            Some(waker) => before.push(waker),
            None => before,
        }
    }
}

/// `order` lists the keys of the timers due at `now`, each once.
pub open spec fn lists_due(timers: Map<usize, Timer>, now: u64, order: Seq<usize>) -> bool {
    &&& order.no_duplicates()
    &&& forall|k: usize| #[trigger]
        order.contains(k) <==> timers.contains_key(k) && is_due(timers[k], now)
}

/// An order in which the timers due at `now` may fire: each of them once, the
/// first few by deadline.
pub open spec fn fire_order(timers: Map<usize, Timer>, now: u64, order: Seq<usize>) -> bool {
    &&& lists_due(timers, now, order)
    &&& forall|i: int, j: int|
        0 <= i < j < order.len() && i < SWEEP_AFTER ==> timers[#[trigger] order[i]].deadline->0
            <= timers[#[trigger] order[j]].deadline->0
}

/// The timer store.
pub struct Timers {
    inner: Inner,
    /// Zero on the nanosecond scale everything else here is measured in.
    anchor: Instant,
}

impl View for Timers {
    type V = Map<usize, Timer>;

    closed spec fn view(&self) -> Map<usize, Timer> {
        model(self.inner)
    }
}

/// The timer under each key.
closed spec fn model(inner: Inner) -> Map<usize, Timer> {
    Map::new(
        |k: usize| inner.table().contains_key(k),
        |k: usize|
            Timer {
                deadline: match inner.table()[k].pos {
                    Some(pos) => Some(inner.heap@[pos as int].deadline),
                    None => None,
                },
                waker: inner.table()[k].waker,
            },
    )
}

/// A timer is pending with some deadline exactly when the heap holds a slot with
/// its key and that deadline.
proof fn lemma_deadline(inner: Inner, k: usize)
    requires
        inner.wf(),
        inner.table().contains_key(k),
    ensures
        match model(inner)[k].deadline {
            Some(deadline) => {
                &&& inner.heap@.contains(Slot { deadline, index: k })
                &&& forall|s: Slot| #[trigger]
                    inner.heap@.contains(s) && s.index == k ==> s.deadline == deadline
            },
            None => !heap::names(inner.heap@, k),
        },
{
    let h = inner.heap@;
    let e = inner.table();
    if heap::names(h, k) {
        let i = choose|i: int| 0 <= i < h.len() && (#[trigger] h[i]).index == k;
        assert(heap::seated(h, e, i, -1));
        assert(h.len() == inner.heap.len());
        assert(e[k].pos == Some(i as usize));
        assert(h[i] == Slot { deadline: h[i].deadline, index: k });
        assert forall|s: Slot| #[trigger] h.contains(s) && s.index == k implies s.deadline
            == h[i].deadline by {
            let j = choose|j: int| 0 <= j < h.len() && h[j] == s;
            assert(i == j);
        }
    } else {
        assert(e[k].pos is None);
    }
}

/// What the heap holds for `k` is the deadline of timer `k`.
proof fn lemma_has_deadline(inner: Inner, k: usize, deadline: Option<u64>)
    requires
        inner.wf(),
        inner.table().contains_key(k),
        deadline matches Some(d) ==> inner.heap@.contains(Slot { deadline: d, index: k }),
        deadline is None ==> !heap::names(inner.heap@, k),
    ensures
        model(inner)[k].deadline == deadline,
{
    lemma_deadline(inner, k);
    if let Some(d) = deadline {
        let h = inner.heap@;
        let slot = Slot { deadline: d, index: k };
        let i = choose|i: int| 0 <= i < h.len() && h[i] == slot;
        assert(h[i].index == k);
    }
}

/// Stores that hold the same slots and the same waker for `k` hold the same
/// timer `k`.
proof fn lemma_same_model(a: Inner, b: Inner, k: usize)
    requires
        a.wf(),
        b.wf(),
        a.table().contains_key(k),
        b.table().contains_key(k),
        a.table()[k].waker == b.table()[k].waker,
        forall|s: Slot|
            #![trigger a.heap@.contains(s)]
            #![trigger b.heap@.contains(s)]
            s.index == k ==> (a.heap@.contains(s) <==> b.heap@.contains(s)),
    ensures
        model(a)[k] == model(b)[k],
{
    lemma_deadline(b, k);
    if heap::names(a.heap@, k) {
        let i = choose|i: int| 0 <= i < a.heap@.len() && (#[trigger] a.heap@[i]).index == k;
        let slot = a.heap@[i];
        assert(a.heap@.contains(slot));
        assert(b.heap@.contains(slot));
        let j = choose|j: int| 0 <= j < b.heap@.len() && b.heap@[j] == slot;
        assert(b.heap@[j].index == k);
    }
    if let Some(d) = model(b)[k].deadline {
        assert(a.heap@.contains(Slot { deadline: d, index: k }));
    }
    lemma_has_deadline(a, k, model(b)[k].deadline);
}

/// Once the slot at `pos` is gone, what nothing names is still out of the heap.
proof fn lemma_unlinked(
    h: Seq<Slot>,
    e: Map<usize, Entry>,
    rest: Seq<Slot>,
    after: Map<usize, Entry>,
    pos: int,
)
    requires
        0 <= pos < h.len(),
        heap::distinct(h),
        heap::lacks(rest, h, pos),
        heap::moved(rest, e, after, -1),
        forall|k: usize| #[trigger] e.contains_key(k) && !heap::names(h, k) ==> e[k].pos is None,
    ensures
        !heap::names(rest, h[pos].index),
        forall|k: usize| #[trigger]
            after.contains_key(k) && k != h[pos].index && !heap::names(rest, k)
                ==> after[k].pos is None,
{
    if heap::names(rest, h[pos].index) {
        let i = choose|i: int| 0 <= i < rest.len() && (#[trigger] rest[i]).index == h[pos].index;
        assert(rest.contains(rest[i]));
        let j = choose|j: int| 0 <= j < h.len() && h[j] == rest[i];
        assert(h[j].index == h[pos].index);
    }
    assert forall|k: usize| #[trigger]
        after.contains_key(k) && k != h[pos].index && !heap::names(
            rest,
            k,
        ) implies after[k].pos is None by {
        if heap::names(h, k) {
            let i = choose|i: int| 0 <= i < h.len() && (#[trigger] h[i]).index == k;
            assert(h.contains(h[i]));
            assert(rest.contains(h[i]));
            let j = choose|j: int| 0 <= j < rest.len() && rest[j] == h[i];
            assert(rest[j].index == k);
        }
        assert(e.contains_key(k));
        assert(after[k] == e[k]) by {
            assert forall|i: int| 0 <= i < rest.len() && (#[trigger] rest[i]).index
                == k implies rest[i].deadline <= -1 by {}
        }
    }
}

/// A list of the due entries of the heap is a list of the due timers, with the
/// same wakers, and no longer than the heap.
proof fn lemma_lists(inner: Inner, now: u64, order: Seq<usize>)
    requires
        inner.wf(),
        heap::lists_due(inner.heap@, order, now),
    ensures
        lists_due(model(inner), now, order),
        heap::wakers(inner.table(), order) == waiting_on(model(inner), order),
        order.len() <= inner.heap@.len(),
{
    let h = inner.heap@;
    assert forall|k: usize| #[trigger] order.contains(k) <==> model(inner).contains_key(k)
        && is_due(model(inner)[k], now) by {
        if order.contains(k) {
            let i = choose|i: int|
                0 <= i < h.len() && (#[trigger] h[i]).index == k && h[i].deadline <= now;
            assert(heap::seated(h, inner.table(), i, -1));
            assert(h.contains(h[i]));
            lemma_has_deadline(inner, k, Some(h[i].deadline));
        }
        if model(inner).contains_key(k) && is_due(model(inner)[k], now) {
            lemma_deadline(inner, k);
            let slot = Slot { deadline: model(inner)[k].deadline->0, index: k };
            let i = choose|i: int| 0 <= i < h.len() && h[i] == slot;
            assert(h[i].index == k);
        }
    }
    assert forall|i: int| 0 <= i < order.len() implies inner.table().contains_key(
        #[trigger] order[i],
    ) by {
        assert(order.contains(order[i]));
    }
    lemma_same_wakers(inner, order);
    let named = Seq::new(h.len(), |i: int| h[i].index);
    assert(order.to_set().subset_of(named.to_set())) by {
        assert forall|k: usize| #[trigger] order.to_set().contains(k) implies named.to_set().contains(
            k,
        ) by {
            assert(order.contains(k));
            let i = choose|i: int|
                0 <= i < h.len() && (#[trigger] h[i]).index == k && h[i].deadline <= now;
            assert(named[i] == k);
        }
    }
    order.unique_seq_to_set();
    named.lemma_cardinality_of_set();
    vstd::set_lib::lemma_len_subset(order.to_set(), named.to_set());
}

/// The wakers of the entries in `order` are those of the timers in `order`.
proof fn lemma_same_wakers(inner: Inner, order: Seq<usize>)
    requires
        forall|i: int| 0 <= i < order.len() ==> inner.table().contains_key(#[trigger] order[i]),
    ensures
        heap::wakers(inner.table(), order) == waiting_on(model(inner), order),
    decreases order.len(),
{
    if order.len() > 0 {
        let before = order.drop_last();
        assert forall|i: int| 0 <= i < before.len() implies inner.table().contains_key(
            #[trigger] before[i],
        ) by {
            assert(before[i] == order[i]);
        }
        lemma_same_wakers(inner, before);
    }
}

/// Whoever waits on one more timer comes last.
proof fn lemma_waiting_on_push(timers: Map<usize, Timer>, order: Seq<usize>, k: usize)
    ensures
        waiting_on(timers, order.push(k)) == match timers[k].waker {
            Some(waker) => waiting_on(timers, order).push(waker),
            None => waiting_on(timers, order),
        },
{
    assert(order.push(k).drop_last() =~= order);
}

/// Two lists of timers one after the other: so are their wakers.
proof fn lemma_waiting_on_concat(
    first: Map<usize, Timer>,
    then: Map<usize, Timer>,
    a: Seq<usize>,
    b: Seq<usize>,
)
    requires
        forall|i: int| 0 <= i < b.len() ==> then[#[trigger] b[i]] == first[b[i]],
    ensures
        waiting_on(first, a + b) == waiting_on(first, a) + waiting_on(then, b),
    decreases b.len(),
{
    if b.len() == 0 {
        assert(a + b =~= a);
        assert(waiting_on(first, a) + waiting_on(then, b) =~= waiting_on(first, a));
    } else {
        let before = b.drop_last();
        assert forall|i: int| 0 <= i < before.len() implies then[#[trigger] before[i]]
            == first[before[i]] by {
            assert(before[i] == b[i]);
        }
        lemma_waiting_on_concat(first, then, a, before);
        assert((a + b).drop_last() =~= a + before);
        assert((a + b).last() == b.last());
        match first[b.last()].waker {
            Some(waker) => {
                assert(waiting_on(first, a) + waiting_on(then, before).push(waker) =~= (waiting_on(
                    first,
                    a,
                ) + waiting_on(then, before)).push(waker));
            },
            None => {},
        }
    }
}

/// `order` fired so far, earliest first, and the rest of `start` untouched.
spec fn fired_so_far(
    start: Map<usize, Timer>,
    timers: Map<usize, Timer>,
    now: u64,
    order: Seq<usize>,
) -> bool {
    &&& order.no_duplicates()
    &&& forall|i: int|
        0 <= i < order.len() ==> start.contains_key(#[trigger] order[i]) && is_due(
            start[order[i]],
            now,
        )
    &&& timers.dom() == start.dom()
    &&& forall|k: usize| #[trigger]
        timers.contains_key(k) ==> timers[k] == if order.contains(k) {
            fired()
        } else {
            start[k]
        }
    &&& forall|i: int, j: int|
        0 <= i < j < order.len() ==> start[#[trigger] order[i]].deadline->0
            <= start[#[trigger] order[j]].deadline->0
    &&& forall|i: int, k: usize|
        #![trigger order[i], timers.contains_key(k)]
        0 <= i < order.len() && timers.contains_key(k) && timers[k].deadline is Some
            ==> start[order[i]].deadline->0 <= timers[k].deadline->0
}

/// Firing an earliest timer that is due extends the order.
proof fn lemma_fire_next(
    start: Map<usize, Timer>,
    timers: Map<usize, Timer>,
    now: u64,
    order: Seq<usize>,
    k: usize,
)
    requires
        fired_so_far(start, timers, now, order),
        is_earliest(timers, k),
        is_due(timers[k], now),
    ensures
        fired_so_far(start, timers.insert(k, fired()), now, order.push(k)),
        timers[k] == start[k],
{
    let next = timers.insert(k, fired());
    let longer = order.push(k);
    assert(!order.contains(k));
    assert forall|j: usize| #[trigger] next.contains_key(j) implies next[j]
        == if longer.contains(j) {
        fired()
    } else {
        start[j]
    } by {
        assert(timers.contains_key(j));
        if j == k {
            assert(longer[order.len() as int] == k);
        } else if longer.contains(j) {
            let i = choose|i: int| 0 <= i < longer.len() && longer[i] == j;
            assert(order[i] == j);
        } else if order.contains(j) {
            let i = choose|i: int| 0 <= i < order.len() && order[i] == j;
            assert(longer[i] == j);
        }
    }
    assert(next.dom() =~= start.dom());
    assert forall|i: int, j: usize|
        #![trigger longer[i], next.contains_key(j)]
        0 <= i < longer.len() && next.contains_key(j)
            && next[j].deadline is Some implies start[longer[i]].deadline->0
        <= next[j].deadline->0 by {
        assert(timers.contains_key(j));
        if i < order.len() {
            assert(order[i] == longer[i]);
        }
    }
    assert forall|i: int, j: int| 0 <= i < j < longer.len() implies start[
    #[trigger] longer[i]].deadline->0 <= start[#[trigger] longer[j]].deadline->0 by {
        assert(order[i] == longer[i]);
        if j < order.len() {
            assert(order[j] == longer[j]);
        } else {
            assert(timers.contains_key(k));
        }
    }
}

/// What fired one at a time, followed by a list of all that was still due, is an
/// order for everything that was due at the start.
proof fn lemma_fire_rest(
    start: Map<usize, Timer>,
    timers: Map<usize, Timer>,
    now: u64,
    order: Seq<usize>,
    rest: Seq<usize>,
)
    requires
        fired_so_far(start, timers, now, order),
        lists_due(timers, now, rest),
        rest.len() > 0 ==> order.len() >= SWEEP_AFTER,
    ensures
        fire_order(start, now, order + rest),
        after_expiry(start, now) == after_expiry(timers, now),
        forall|i: int| 0 <= i < rest.len() ==> timers[#[trigger] rest[i]] == start[rest[i]],
{
    let whole = order + rest;
    assert forall|i: int| 0 <= i < rest.len() implies timers[#[trigger] rest[i]] == start[rest[i]]
        && !order.contains(rest[i]) && timers.contains_key(rest[i]) && is_due(
        timers[rest[i]],
        now,
    ) by {
        assert(rest.contains(rest[i]));
    }
    assert forall|k: usize| #[trigger] whole.contains(k) <==> start.contains_key(k) && is_due(
        start[k],
        now,
    ) by {
        if whole.contains(k) {
            let i = choose|i: int| 0 <= i < whole.len() && whole[i] == k;
            if i < order.len() {
                assert(order[i] == k);
            } else {
                assert(rest[i - order.len()] == k);
            }
        }
        if start.contains_key(k) && is_due(start[k], now) {
            assert(timers.contains_key(k));
            if order.contains(k) {
                let i = choose|i: int| 0 <= i < order.len() && order[i] == k;
                assert(whole[i] == k);
            } else {
                assert(rest.contains(k));
                let i = choose|i: int| 0 <= i < rest.len() && rest[i] == k;
                assert(whole[order.len() + i] == k);
            }
        }
    }
    assert forall|i: int, j: int| 0 <= i < j < whole.len() implies whole[i] != whole[j] by {
        if j >= order.len() {
            assert(whole[j] == rest[j - order.len()]);
            if i < order.len() {
                assert(order.contains(order[i]));
            }
        }
    }
    assert forall|i: int, j: int| 0 <= i < j < whole.len() && i < SWEEP_AFTER implies start[
    #[trigger] whole[i]].deadline->0 <= start[#[trigger] whole[j]].deadline->0 by {
        if j >= order.len() {
            let k = rest[j - order.len()];
            assert(whole[j] == k);
            assert(whole[i] == order[i]);
            assert(timers.contains_key(k));
        }
    }
    assert(after_expiry(start, now) =~= after_expiry(timers, now)) by {
        assert forall|k: usize| #[trigger] start.contains_key(k) implies after_expiry(start, now)[k]
            == after_expiry(timers, now)[k] by {
            assert(timers.contains_key(k));
            if order.contains(k) {
                let i = choose|i: int| 0 <= i < order.len() && order[i] == k;
                assert(start.contains_key(order[i]));
            }
        }
    }
}

/// However the due timers are ordered, there are as many of them.
pub proof fn lemma_as_many_as_due(timers: Map<usize, Timer>, now: u64, order: Seq<usize>)
    requires
        lists_due(timers, now, order),
    ensures
        due(timers, now).finite(),
        due(timers, now).len() == order.len(),
{
    assert(order.to_set() =~= due(timers, now));
    order.unique_seq_to_set();
}

/// An expiry under way.
#[derive(Debug)]
pub struct Expiry {
    now: u64,
    /// Timers taken one at a time.
    taken: usize,
    /// Timers that have fired.
    fired: u128,
    over: bool,
}

/// How far an expiry has come.
pub struct ExpiryView {
    pub now: u64,
    /// Timers taken one at a time.
    pub taken: nat,
    /// Timers that have fired.
    pub fired: nat,
    /// There is nothing left to do.
    pub over: bool,
}

impl ExpiryView {
    /// Until the last pass what has fired was taken one at a time, and no more than
    /// there is before that pass.
    pub open spec fn sound(self) -> bool {
        &&& self.taken <= SWEEP_AFTER
        &&& !self.over ==> self.fired == self.taken
    }
}

impl View for Expiry {
    type V = ExpiryView;

    closed spec fn view(&self) -> ExpiryView {
        ExpiryView {
            now: self.now,
            taken: self.taken as nat,
            fired: self.fired as nat,
            over: self.over,
        }
    }
}

impl Expiry {
    /// How many timers have fired.
    pub fn fired(&self) -> (fired: u128)
        ensures
            fired == self@.fired,
    {
        self.fired
    }
}

/// Whoever is waiting, if anybody is.
pub open spec fn as_seq(waker: Option<Waker>) -> Seq<Waker> {
    match waker {
        Some(waker) => seq![waker],
        None => Seq::empty(),
    }
}

/// Timer `k`, an earliest one, is due and fires, which wakes whoever waits on it.
pub open spec fn takes(
    timers: Map<usize, Timer>,
    now: u64,
    k: usize,
    woken: Seq<Waker>,
    then: Map<usize, Timer>,
) -> bool {
    &&& is_earliest(timers, k)
    &&& is_due(timers[k], now)
    &&& woken == as_seq(timers[k].waker)
    &&& then == timers.insert(k, fired())
}

/// One of the earliest timers is due and fires.
pub open spec fn takes_one(
    timers: Map<usize, Timer>,
    now: u64,
    woken: Seq<Waker>,
    then: Map<usize, Timer>,
) -> bool {
    exists|k: usize| #[trigger] takes(timers, now, k, woken, then)
}

/// Everything that is due fires, in any order.
pub open spec fn takes_all(
    timers: Map<usize, Timer>,
    now: u64,
    woken: Seq<Waker>,
    then: Map<usize, Timer>,
) -> bool {
    &&& then == after_expiry(timers, now)
    &&& exists|order: Seq<usize>| #[trigger]
        lists_due(timers, now, order) && woken == waiting_on(timers, order)
}

/// Whoever is to be woken, if there is anything left to do.
pub open spec fn to_wake(woken: Option<Vec<Waker>>) -> Option<Seq<Waker>> {
    match woken {
        Some(woken) => Some(woken@),
        None => None,
    }
}

/// One step of an expiry: one timer fires while they are taken one at a time and
/// any is due, and all that are due fire in the pass after that.
pub open spec fn expires(
    timers: Map<usize, Timer>,
    expiry: ExpiryView,
    woken: Option<Seq<Waker>>,
    then: Map<usize, Timer>,
    next: ExpiryView,
) -> bool {
    if expiry.over {
        woken is None && then == timers && next == expiry
    } else if expiry.taken < SWEEP_AFTER {
        match woken {
            Some(wakers) => {
                &&& takes_one(timers, expiry.now, wakers, then)
                &&& next == ExpiryView {
                    taken: expiry.taken + 1,
                    fired: expiry.fired + 1,
                    ..expiry
                }
            },
            None => {
                &&& due(timers, expiry.now) == Set::<usize>::empty()
                &&& then == timers
                &&& next == ExpiryView { over: true, ..expiry }
            },
        }
    } else {
        &&& woken matches Some(wakers) && takes_all(timers, expiry.now, wakers, then)
        &&& next == ExpiryView {
            fired: expiry.fired + due(timers, expiry.now).len(),
            over: true,
            ..expiry
        }
    }
}

impl Timers {
    /// The heap is in order and every entry agrees with it about where it is.
    pub closed spec fn wf(&self) -> bool {
        self.inner.wf()
    }

    /// Zero on this store's scale.
    pub closed spec fn anchor(&self) -> Instant {
        self.anchor
    }

    /// A store holds finitely many timers.
    pub proof fn lemma_finite(&self)
        requires
            self.wf(),
        ensures
            self@.dom().finite(),
            pending(self@).finite(),
            forall|now: u64| #[trigger] due(self@, now).finite(),
    {
        assert(self@.dom() =~= self.inner.table().dom());
        assert forall|now: u64| #[trigger] due(self@, now).finite() by {
            vstd::set_lib::lemma_len_subset(due(self@, now), self@.dom());
        }
        vstd::set_lib::lemma_len_subset(pending(self@), self@.dom());
    }

    /// An empty store that counts from `anchor`.
    pub fn new(anchor: Instant) -> (timers: Timers)
        ensures
            timers.wf(),
            timers@ == Map::<usize, Timer>::empty(),
            timers.anchor() == anchor,
    {
        let inner = Inner {
            heap: Vec::with_capacity(BASE_CAPACITY),
            entries: inner::slab_with_capacity(BASE_CAPACITY),
            due: Vec::new(),
        };
        let timers = Timers { inner, anchor };
        proof {
            assert(timers@ =~= Map::<usize, Timer>::empty());
        }
        timers
    }

    /// Where `instant` falls on this store's scale.
    ///
    /// An instant from before the runtime existed saturates to zero, which
    /// reads as a deadline already past — the same thing it means.
    pub fn since_anchor(&self, instant: Instant) -> (nanos: u64)
        ensures
            nanos == offset(self.anchor(), instant),
            instant.nanos <= self.anchor().nanos ==> nanos == 0,
            self.anchor().nanos <= instant.nanos <= self.anchor().nanos + u64::MAX ==> nanos
                == instant.nanos - self.anchor().nanos,
    {
        #[verifier::truncate]
        let nanos = instant.saturating_nanos_since(self.anchor) as u64;
        nanos
    }

    /// The inverse, for reporting a deadline back to the caller.
    pub fn to_instant(&self, deadline: u64) -> (instant: Instant)
        requires
            self.anchor().nanos + deadline <= u128::MAX,
        ensures
            instant == at_offset(self.anchor(), deadline),
            instant.nanos == self.anchor().nanos + deadline,
    {
        Instant { nanos: self.anchor.nanos + deadline as u128 }
    }

    /// Arm a timer for `deadline`, with nobody waiting on it yet.
    pub fn insert(&mut self, deadline: u64) -> (key: TimerKey)
        requires
            old(self).wf(),
        ensures
            final(self).wf(),
            !old(self)@.contains_key(key@),
            final(self)@ == old(self)@.insert(
                key@,
                Timer { deadline: Some(deadline), waker: None },
            ),
            final(self)@.len() == old(self)@.len() + 1,
            pending(final(self)@).len() == pending(old(self)@).len() + 1,
            final(self).anchor() == old(self).anchor(),
    {
        let ghost before = self.inner;
        let index = inner::slab_insert(&mut self.inner.entries, Entry { pos: None, waker: None });
        let ghost mid = self.inner;
        let slot = Slot { deadline, index };
        proof {
            let h = before.heap@;
            assert(!heap::names(h, index)) by {
                if heap::names(h, index) {
                    let i = choose|i: int| 0 <= i < h.len() && (#[trigger] h[i]).index == index;
                    assert(heap::seated(h, before.table(), i, -1));
                }
            }
            assert forall|i: int| 0 <= i < h.len() implies #[trigger] heap::seated(
                h,
                mid.table(),
                i,
                -1,
            ) by {
                assert(heap::seated(h, before.table(), i, -1));
            }
            assert(mid.wf());
        }
        self.inner.push(slot);
        proof {
            let h = before.heap@;
            assert forall|k: usize| #[trigger] self@.contains_key(k) implies self@[k] == (
            if k == index {
                Timer { deadline: Some(deadline), waker: None }
            } else {
                model(before)[k]
            }) by {
                let pushed = h.push(slot);
                if k == index {
                    assert(pushed[h.len() as int] == slot);
                    assert(self.inner.heap@.contains(slot));
                    lemma_has_deadline(self.inner, k, Some(deadline));
                } else {
                    assert forall|s: Slot|
                        #![trigger self.inner.heap@.contains(s)]
                        #![trigger before.heap@.contains(s)]
                        s.index == k implies (self.inner.heap@.contains(s)
                        <==> before.heap@.contains(s)) by {
                        if pushed.contains(s) {
                            let i = choose|i: int| 0 <= i < pushed.len() && pushed[i] == s;
                            assert(h[i] == s);
                        }
                        if h.contains(s) {
                            let i = choose|i: int| 0 <= i < h.len() && h[i] == s;
                            assert(pushed[i] == s);
                        }
                        assert(self.inner.heap@.contains(s) <==> pushed.contains(s));
                    }
                    assert(before.table().contains_key(k));
                    lemma_same_model(self.inner, before, k);
                }
            }
            assert(self@ =~= model(before).insert(
                index,
                Timer { deadline: Some(deadline), waker: None },
            ));
            old(self).lemma_finite();
            lemma_arming_counts(old(self)@, index, deadline, deadline);
        }
        TimerKey { index }
    }

    /// Disarm `key` and drop its entry. Idempotent only in the sense that a
    /// fired timer is still a live entry; a key is never removed twice.
    pub fn remove(&mut self, key: TimerKey)
        requires
            old(self).wf(),
            old(self)@.contains_key(key@),
        ensures
            final(self).wf(),
            final(self)@ == old(self)@.remove(key@),
            final(self)@.len() == old(self)@.len() - 1,
            pending(final(self)@).len() == pending(old(self)@).len() - (
            if old(self)@[key@].deadline is Some {
                1int
            } else {
                0
            }),
            final(self).anchor() == old(self).anchor(),
    {
        let ghost before = self.inner;
        let entry = inner::slab_remove(&mut self.inner.entries, key.index);
        let ghost mid = self.inner;
        match entry.pos {
            Some(pos) => {
                proof {
                    let h = before.heap@;
                    assert(heap::names(h, key.index));
                    let i = choose|i: int|
                        0 <= i < h.len() && (#[trigger] h[i]).index == key.index;
                    assert(heap::seated(h, before.table(), i, -1));
                    assert(h.len() == before.heap.len());
                    assert(i == pos);
                    assert forall|j: int| 0 <= j < h.len() && j != pos implies #[trigger]
                        heap::seated(h, mid.table(), j, -1) by {
                        assert(heap::seated(h, before.table(), j, -1));
                    }
                }
                self.inner.unlink(pos, Ghost(-1int));
                proof {
                    lemma_unlinked(
                        before.heap@,
                        mid.table(),
                        self.inner.heap@,
                        self.inner.table(),
                        pos as int,
                    );
                }
            },
            None => {
                proof {
                    let h = before.heap@;
                    lemma_deadline(before, key.index);
                    assert forall|j: int| 0 <= j < h.len() implies #[trigger] heap::seated(
                        h,
                        mid.table(),
                        j,
                        -1,
                    ) by {
                        assert(heap::seated(h, before.table(), j, -1));
                    }
                }
            },
        }
        proof {
            assert forall|k: usize| #[trigger] self@.contains_key(k) implies self@[k]
                == model(before)[k] by {
                assert(k != key.index);
                lemma_same_model(self.inner, before, k);
            }
            assert(self@ =~= model(before).remove(key.index));
            old(self).lemma_finite();
            lemma_removing_counts(old(self)@, key.index, 0);
        }
    }

    /// Move `key` to a new deadline, whether or not it has already fired.
    pub fn reset(&mut self, key: TimerKey, deadline: u64)
        requires
            old(self).wf(),
            old(self)@.contains_key(key@),
        ensures
            final(self).wf(),
            final(self)@ == old(self)@.insert(
                key@,
                Timer { deadline: Some(deadline), waker: old(self)@[key@].waker },
            ),
            final(self)@.len() == old(self)@.len(),
            pending(final(self)@).len() == pending(old(self)@).len() + (
            if old(self)@[key@].deadline is Some {
                0int
            } else {
                1
            }),
            final(self).anchor() == old(self).anchor(),
    {
        let ghost before = self.inner;
        let ghost h = before.heap@;
        let index = key.index;
        let slot = Slot { deadline, index };
        match inner::slab_at(&self.inner.entries, index).pos {
            // Still pending: shift it and let the heap re-settle. The new
            // deadline can be either side of the old one, so this may go up or
            // down.
            Some(pos) => {
                proof {
                    assert(heap::names(h, index));
                    let i = choose|i: int| 0 <= i < h.len() && (#[trigger] h[i]).index == index;
                    assert(heap::seated(h, before.table(), i, -1));
                    assert(h.len() == before.heap.len());
                    assert(i == pos);
                    heap::lemma_ordered_around(h, pos as int);
                }
                self.inner.settle(pos, slot, Ghost(-1int));
                proof {
                    let set = h.update(pos as int, slot);
                    assert forall|s: Slot| s.index != index implies (#[trigger] set.contains(s)
                        <==> h.contains(s)) by {
                        if set.contains(s) {
                            let j = choose|j: int| 0 <= j < set.len() && set[j] == s;
                            assert(h[j] == s);
                        }
                        if h.contains(s) {
                            let j = choose|j: int| 0 <= j < h.len() && h[j] == s;
                            assert(set[j] == s);
                        }
                    }
                    assert(set[pos as int] == slot);
                    assert(set.contains(slot));
                    assert forall|k: usize| #[trigger]
                        self.inner.table().contains_key(k) && !heap::names(
                            self.inner.heap@,
                            k,
                        ) implies self.inner.table()[k].pos is None by {
                        if heap::names(h, k) {
                            let j = choose|j: int| 0 <= j < h.len() && (#[trigger] h[j]).index
                                == k;
                            assert(set[j].index == k);
                            assert(set.contains(set[j]));
                            assert(self.inner.heap@.contains(set[j]));
                            let n = choose|n: int|
                                0 <= n < self.inner.heap@.len() && self.inner.heap@[n] == set[j];
                            assert(self.inner.heap@[n].index == k);
                        }
                        assert(self.inner.table()[k] == before.table()[k]);
                    }
                    assert(self.inner.wf());
                }
            },
            // Already fired, so it is out of the heap and has to go back in.
            None => {
                proof {
                    lemma_deadline(before, index);
                }
                self.inner.push(slot);
                proof {
                    let pushed = h.push(slot);
                    assert(pushed[h.len() as int] == slot);
                    assert(pushed.contains(slot));
                    assert forall|s: Slot| s.index != index implies (#[trigger] pushed.contains(s)
                        <==> h.contains(s)) by {
                        if pushed.contains(s) {
                            let i = choose|i: int| 0 <= i < pushed.len() && pushed[i] == s;
                            assert(h[i] == s);
                        }
                        if h.contains(s) {
                            let i = choose|i: int| 0 <= i < h.len() && h[i] == s;
                            assert(pushed[i] == s);
                        }
                    }
                }
            },
        }
        proof {
            assert(self.inner.heap@.contains(slot));
            assert forall|s: Slot| s.index != index implies (#[trigger] self.inner.heap@.contains(s)
                <==> h.contains(s)) by {}
            assert forall|k: usize| #[trigger] self@.contains_key(k) implies self@[k] == (
            if k == index {
                Timer { deadline: Some(deadline), waker: model(before)[k].waker }
            } else {
                model(before)[k]
            }) by {
                if k == index {
                    lemma_has_deadline(self.inner, k, Some(deadline));
                } else {
                    lemma_same_model(self.inner, before, k);
                }
            }
            assert(self@ =~= model(before).insert(
                index,
                Timer { deadline: Some(deadline), waker: model(before)[index].waker },
            ));
            old(self).lemma_finite();
            lemma_resetting_counts(old(self)@, index, deadline, deadline);
        }
    }

    /// Take `key`'s expiry if it has happened, or leave `waker` to be told when
    /// it does.
    pub fn poll(&mut self, key: TimerKey, waker: &Waker) -> (polled: Poll<()>)
        requires
            old(self).wf(),
            old(self)@.contains_key(key@),
        ensures
            final(self).wf(),
            match old(self)@[key@].deadline {
                None => polled is Ready && final(self)@ == old(self)@,
                Some(deadline) => polled is Pending && final(self)@ == old(self)@.insert(
                    key@,
                    Timer { deadline: Some(deadline), waker: Some(*waker) },
                ),
            },
            final(self).anchor() == old(self).anchor(),
    {
        let ghost before = self.inner;
        let entry = inner::slab_at_mut(&mut self.inner.entries, key.index);
        let fired = entry.pos.is_none();
        if !fired {
            // Same task polling again is the common case by far, and leaves
            // nothing to do.
            let same = match &entry.waker {
                Some(current) => current.will_wake(waker),
                None => false,
            };
            if !same {
                entry.waker = Some(*waker);
            }
        }
        proof {
            let h = before.heap@;
            assert forall|j: int| 0 <= j < h.len() implies #[trigger] heap::seated(
                h,
                self.inner.table(),
                j,
                -1,
            ) by {
                assert(heap::seated(h, before.table(), j, -1));
            }
            assert forall|k: usize| #[trigger]
                self.inner.table().contains_key(k) && !heap::names(
                    h,
                    k,
                ) implies self.inner.table()[k].pos is None by {
                assert(before.table().contains_key(k));
            }
            assert(self.inner.table().dom() =~= before.table().dom());
            if before.table()[key.index].pos is None {
                assert(self@ =~= model(before));
            } else {
                assert(self@ =~= model(before).insert(
                    key.index,
                    Timer { deadline: model(before)[key.index].deadline, waker: Some(*waker) },
                ));
            }
        }
        if fired {
            Poll::Ready(())
        } else {
            Poll::Pending
        }
    }

    /// The deadline the reactor may not sleep past, if there is one.
    pub fn earliest(&self) -> (deadline: Option<u64>)
        requires
            self.wf(),
        ensures
            match deadline {
                Some(d) => exists|k: usize| #[trigger]
                    is_earliest(self@, k) && self@[k].deadline == Some(d),
                None => forall|k: usize| #[trigger]
                    self@.contains_key(k) ==> self@[k].deadline is None,
            },
    {
        if self.heap_is_empty() {
            None
        } else {
            proof {
                self.lemma_root();
            }
            Some(self.inner.heap[0].deadline)
        }
    }

    /// Whether nothing is pending.
    fn heap_is_empty(&self) -> (empty: bool)
        requires
            self.wf(),
        ensures
            empty == (self.inner.heap@.len() == 0),
            empty ==> forall|k: usize| #[trigger]
                self@.contains_key(k) ==> self@[k].deadline is None,
    {
        proof {
            if self.inner.heap@.len() == 0 {
                assert forall|k: usize| #[trigger]
                    self@.contains_key(k) implies self@[k].deadline is None by {
                    lemma_has_deadline(self.inner, k, None);
                }
            }
        }
        self.inner.heap.len() == 0
    }

    /// The timer at the top of the heap is an earliest one.
    proof fn lemma_root(&self)
        requires
            self.wf(),
            self.inner.heap@.len() > 0,
        ensures
            is_earliest(self@, self.inner.heap@[0].index),
            self@[self.inner.heap@[0].index].deadline == Some(self.inner.heap@[0].deadline),
    {
        let h = self.inner.heap@;
        let k = h[0].index;
        assert(heap::seated(h, self.inner.table(), 0, -1));
        assert(h[0] == Slot { deadline: h[0].deadline, index: k });
        assert(h.contains(h[0]));
        lemma_has_deadline(self.inner, k, Some(h[0].deadline));
        assert forall|j: usize| #[trigger]
            self@.contains_key(j) && self@[j].deadline is Some implies self@[k].deadline->0
            <= self@[j].deadline->0 by {
            lemma_deadline(self.inner, j);
            let slot = Slot { deadline: self@[j].deadline->0, index: j };
            let i = choose|i: int| 0 <= i < h.len() && h[i] == slot;
            heap::lemma_root_is_earliest(h, i);
        }
    }

    /// Whether the earliest deadline has arrived.
    fn next_is_due(&self, now: u64) -> (arrived: bool)
        requires
            self.wf(),
        ensures
            arrived == (self.inner.heap@.len() > 0 && self.inner.heap@[0].deadline <= now),
            arrived == exists|k: usize| #[trigger]
                self@.contains_key(k) && is_due(self@[k], now),
    {
        if self.heap_is_empty() {
            return false;
        }
        proof {
            self.lemma_root();
            let root = self.inner.heap@[0].index;
            assert(self@.contains_key(root));
        }
        self.inner.heap[0].deadline <= now
    }

    /// Take the earliest timer, returning whoever was waiting on it.
    fn pop_root(&mut self) -> (waker: Option<Waker>)
        requires
            old(self).wf(),
            old(self).inner.heap@.len() > 0,
        ensures
            final(self).wf(),
            final(self).inner.heap@.len() == old(self).inner.heap@.len() - 1,
            ({
                let k = old(self).inner.heap@[0].index;
                &&& is_earliest(old(self)@, k)
                &&& waker == old(self)@[k].waker
                &&& final(self)@ == old(self)@.insert(k, fired())
            }),
            final(self).anchor() == old(self).anchor(),
    {
        let ghost before = self.inner;
        let ghost h = before.heap@;
        proof {
            self.lemma_root();
            assert(heap::seated(h, before.table(), 0, -1));
        }
        let index = self.inner.heap[0].index;
        self.inner.unlink(0, Ghost(-1int));
        let ghost mid = self.inner;
        let entry = inner::slab_at_mut(&mut self.inner.entries, index);
        entry.pos = None;
        let waker = entry.waker.take();
        proof {
            let rest = self.inner.heap@;
            lemma_unlinked(h, before.table(), rest, mid.table(), 0);
            assert forall|j: int| 0 <= j < rest.len() implies #[trigger] heap::seated(
                rest,
                self.inner.table(),
                j,
                -1,
            ) by {
                assert(heap::seated(rest, mid.table(), j, -1));
                assert(rest[j].index != index);
            }
            assert(self.inner.table().dom() =~= before.table().dom());
            assert forall|k: usize| #[trigger] self@.contains_key(k) implies self@[k] == (if k
                == index {
                fired()
            } else {
                model(before)[k]
            }) by {
                if k == index {
                    lemma_has_deadline(self.inner, k, None);
                } else {
                    lemma_same_model(self.inner, before, k);
                }
            }
            assert(self@ =~= model(before).insert(index, fired()));
        }
        waker
    }

    /// Take every due timer in one pass.
    fn sweep(&mut self, now: u64) -> (swept: (usize, Vec<Waker>))
        requires
            old(self).wf(),
        ensures
            final(self).wf(),
            final(self)@ == after_expiry(old(self)@, now),
            exists|order: Seq<usize>|
                {
                    &&& #[trigger] lists_due(old(self)@, now, order)
                    &&& swept.0 == order.len()
                    &&& swept.1@ == waiting_on(old(self)@, order)
                },
            final(self).anchor() == old(self).anchor(),
    {
        let ghost before = self.inner;
        let mut ready: Vec<Waker> = Vec::new();
        let taken = self.inner.take_due(now, &mut ready);
        proof {
            let h = before.heap@;
            let order = choose|order: Seq<usize>|
                {
                    &&& #[trigger] heap::lists_due(h, order, now)
                    &&& taken == order.len()
                    &&& ready@ == Seq::<Waker>::empty() + heap::wakers(before.table(), order)
                    &&& forall|k: usize| #[trigger]
                        self.inner.table().contains_key(k) ==> self.inner.table()[k].waker == (
                        if order.contains(k) {
                            None
                        } else {
                            before.table()[k].waker
                        })
                };
            lemma_lists(before, now, order);
            assert forall|k: usize| #[trigger] self@.contains_key(k) implies self@[k] == (
            if is_due(model(before)[k], now) {
                fired()
            } else {
                model(before)[k]
            }) by {
                lemma_deadline(before, k);
                if order.contains(k) {
                    assert(!heap::names(self.inner.heap@, k)) by {
                        if heap::names(self.inner.heap@, k) {
                            let g = self.inner.heap@;
                            let i = choose|i: int| 0 <= i < g.len() && (#[trigger] g[i]).index == k;
                            assert(g.contains(g[i]));
                            assert(h.contains(g[i]));
                        }
                    }
                    lemma_has_deadline(self.inner, k, None);
                } else {
                    lemma_same_model(self.inner, before, k);
                }
            }
            assert(self@ =~= after_expiry(model(before), now));
            assert(lists_due(old(self)@, now, order));
            assert(ready@ =~= waiting_on(old(self)@, order));
        }
        (taken, ready)
    }

    /// Begin to wake everything due at `now`. Go on with [`Timers::expire_next`].
    pub fn expire(&self, now: u64) -> (expiry: Expiry)
        ensures
            expiry@ == (ExpiryView { now, taken: 0, fired: 0, over: false }),
    {
        Expiry { now, taken: 0, fired: 0, over: false }
    }

    /// Go on with an expiry: who is to be woken before going on again, or `None`
    /// once everything due has fired.
    ///
    /// The first few timers are taken one at a time, the earliest first, and the
    /// rest in one pass. Waking somebody may reset or remove a timer that is due,
    /// or arm another, and what is taken next is taken from what is there then.
    pub fn expire_next(&mut self, expiry: &mut Expiry) -> (woken: Option<Vec<Waker>>)
        requires
            old(self).wf(),
            old(expiry)@.sound(),
        ensures
            final(self).wf(),
            final(expiry)@.sound(),
            expires(old(self)@, old(expiry)@, to_wake(woken), final(self)@, final(expiry)@),
            final(self).anchor() == old(self).anchor(),
    {
        if expiry.over {
            return None;
        }
        if expiry.taken < SWEEP_AFTER {
            if !self.next_is_due(expiry.now) {
                proof {
                    assert(due(self@, expiry.now) =~= Set::<usize>::empty());
                }
                expiry.over = true;
                return None;
            }
            proof {
                self.lemma_root();
            }
            let mut woken: Vec<Waker> = Vec::new();
            let ghost root = self.inner.heap@[0].index;
            match self.pop_root() {
                Some(waker) => {
                    woken.push(waker);
                },
                None => {},
            }
            proof {
                assert(woken@ =~= as_seq(old(self)@[root].waker));
                assert(takes(old(self)@, old(expiry)@.now, root, woken@, self@));
            }
            expiry.taken += 1;
            expiry.fired += 1;
            return Some(woken);
        }
        let (taken, woken) = self.sweep(expiry.now);
        proof {
            let order = choose|order: Seq<usize>|
                {
                    &&& #[trigger] lists_due(old(self)@, old(expiry)@.now, order)
                    &&& taken == order.len()
                    &&& woken@ == waiting_on(old(self)@, order)
                };
            lemma_as_many_as_due(old(self)@, old(expiry)@.now, order);
        }
        expiry.fired += taken as u128;
        expiry.over = true;
        Some(woken)
    }

    /// An expiry from beginning to end, where waking nobody comes back to the
    /// store: how many fired, and who is to be woken, in the order their timers
    /// fired.
    pub fn expire_all(&mut self, now: u64) -> (fired: (u128, Vec<Waker>))
        requires
            old(self).wf(),
        ensures
            final(self).wf(),
            final(self)@ == after_expiry(old(self)@, now),
            fired.0 == due(old(self)@, now).len(),
            exists|order: Seq<usize>| #[trigger]
                fire_order(old(self)@, now, order) && fired.1@ == waiting_on(old(self)@, order),
            final(self).anchor() == old(self).anchor(),
    {
        let ghost start = self@;
        let ghost mut order = Seq::<usize>::empty();
        let mut woken: Vec<Waker> = Vec::new();
        let mut expiry = self.expire(now);
        while expiry.taken < SWEEP_AFTER
            invariant
                self.wf(),
                self.anchor == old(self).anchor,
                start == old(self)@,
                expiry@.sound(),
                !expiry.over,
                expiry.now == now,
                expiry.taken == order.len(),
                expiry.fired == order.len(),
                fired_so_far(start, self@, now, order),
                woken@ == waiting_on(start, order),
            decreases SWEEP_AFTER - expiry.taken,
        {
            let ghost before = self@;
            match self.expire_next(&mut expiry) {
                None => {
                    proof {
                        let rest = Seq::<usize>::empty();
                        assert forall|k: usize| #[trigger] rest.contains(k) <==> self@.contains_key(
                            k,
                        ) && is_due(self@[k], now) by {
                            assert(!due(self@, now).contains(k));
                        }
                        assert(lists_due(self@, now, rest));
                        lemma_fire_rest(start, self@, now, order, rest);
                        assert(order + rest =~= order);
                        lemma_as_many_as_due(start, now, order);
                        assert(self@ =~= after_expiry(self@, now));
                    }
                    return (expiry.fired, woken);
                },
                Some(more) => {
                    let mut more = more;
                    let ghost k = choose|k: usize| #[trigger]
                        takes(before, now, k, more@, self@);
                    proof {
                        lemma_fire_next(start, before, now, order, k);
                        lemma_waiting_on_push(start, order, k);
                        order = order.push(k);
                        assert(woken@ + more@ =~= waiting_on(start, order));
                    }
                    woken.append(&mut more);
                },
            }
        }
        let ghost before = self@;
        let ghost so_far = woken@;
        match self.expire_next(&mut expiry) {
            None => {},
            Some(more) => {
                let mut more = more;
                proof {
                    let rest = choose|rest: Seq<usize>| #[trigger]
                        lists_due(before, now, rest) && more@ == waiting_on(before, rest);
                    lemma_as_many_as_due(before, now, rest);
                    lemma_fire_rest(start, before, now, order, rest);
                    lemma_waiting_on_concat(start, before, order, rest);
                    lemma_as_many_as_due(start, now, order + rest);
                    assert(so_far + more@ =~= waiting_on(start, order + rest));
                }
                woken.append(&mut more);
            },
        }
        (expiry.fired, woken)
    }

    /// How many timers are pending.
    pub fn len(&self) -> (len: usize)
        requires
            self.wf(),
        ensures
            len == pending(self@).len(),
    {
        proof {
            let h = self.inner.heap@;
            let named = Seq::new(h.len(), |i: int| h[i].index);
            assert(named.no_duplicates());
            named.unique_seq_to_set();
            assert forall|k: usize| #[trigger] named.to_set().contains(k) <==> pending(
                self@,
            ).contains(k) by {
                if named.contains(k) {
                    let i = choose|i: int| 0 <= i < named.len() && named[i] == k;
                    assert(heap::seated(h, self.inner.table(), i, -1));
                    assert(h[i] == Slot { deadline: h[i].deadline, index: k });
                    assert(h.contains(h[i]));
                    lemma_has_deadline(self.inner, k, Some(h[i].deadline));
                }
                if pending(self@).contains(k) {
                    lemma_deadline(self.inner, k);
                    let slot = Slot { deadline: self@[k].deadline->0, index: k };
                    let i = choose|i: int| 0 <= i < h.len() && h[i] == slot;
                    assert(named[i] == k);
                }
            }
            assert(named.to_set() =~= pending(self@));
        }
        self.inner.heap.len()
    }

    /// How many timers there are, fired ones among them.
    pub fn entries(&self) -> (count: usize)
        requires
            self.wf(),
        ensures
            count == self@.len(),
    {
        proof {
            assert(self@.dom() =~= self.inner.table().dom());
        }
        inner::slab_len(&self.inner.entries)
    }
}

/// A deadline reported back as an instant is the same deadline again.
pub proof fn lemma_deadline_round_trips(anchor: Instant, deadline: u64)
    requires
        anchor.nanos + deadline <= u128::MAX,
    ensures
        offset(anchor, at_offset(anchor, deadline)) == deadline,
{
}

/// An instant that falls within reach of the anchor comes back from the scale
/// unchanged, and one from before the anchor reads as a deadline already past.
pub proof fn lemma_instant_round_trips(anchor: Instant, instant: Instant)
    ensures
        anchor.nanos <= instant.nanos <= anchor.nanos + u64::MAX ==> at_offset(
            anchor,
            offset(anchor, instant),
        ) == instant,
        instant.nanos < anchor.nanos ==> offset(anchor, instant) == 0,
{
}

/// Removing a timer just armed leaves the store as it was.
pub proof fn lemma_remove_undoes_insert(timers: Map<usize, Timer>, k: usize, deadline: u64)
    requires
        !timers.contains_key(k),
    ensures
        timers.insert(k, Timer { deadline: Some(deadline), waker: None }).remove(k) == timers,
{
    assert(timers.insert(k, Timer { deadline: Some(deadline), waker: None }).remove(k) =~= timers);
}

/// Arming a timer adds one to the timers and to those pending, and to those due
/// exactly when its deadline has come. The others are as they were.
pub proof fn lemma_arming_counts(
    timers: Map<usize, Timer>,
    k: usize,
    deadline: u64,
    now: u64,
)
    requires
        timers.dom().finite(),
        !timers.contains_key(k),
    ensures
        ({
            let then = timers.insert(k, Timer { deadline: Some(deadline), waker: None });
            &&& then.len() == timers.len() + 1
            &&& pending(then).len() == pending(timers).len() + 1
            &&& due(then, now) == if deadline <= now {
                due(timers, now).insert(k)
            } else {
                due(timers, now)
            }
            &&& due(then, now).len() == due(timers, now).len() + (if deadline <= now {
                1int
            } else {
                0
            })
            &&& forall|j: usize| #[trigger] timers.contains_key(j) ==> then[j] == timers[j]
        }),
{
    let then = timers.insert(k, Timer { deadline: Some(deadline), waker: None });
    vstd::set_lib::lemma_len_subset(due(timers, now), timers.dom());
    vstd::set_lib::lemma_len_subset(pending(timers), timers.dom());
    assert(then.dom() =~= timers.dom().insert(k));
    assert(pending(then) =~= pending(timers).insert(k));
    assert(due(then, now) =~= if deadline <= now {
        due(timers, now).insert(k)
    } else {
        due(timers, now)
    });
}

/// Removing a timer takes one from the timers, and one from those pending exactly
/// when it had not fired. It is due at no time after that, so no expiry counts it,
/// and the others are as they were.
pub proof fn lemma_removing_counts(timers: Map<usize, Timer>, k: usize, now: u64)
    requires
        timers.dom().finite(),
        timers.contains_key(k),
    ensures
        timers.remove(k).len() == timers.len() - 1,
        pending(timers.remove(k)).len() == pending(timers).len() - (if timers[k].deadline is Some {
            1int
        } else {
            0
        }),
        due(timers.remove(k), now) == due(timers, now).remove(k),
        due(timers.remove(k), now).len() == due(timers, now).len() - (if is_due(timers[k], now) {
            1int
        } else {
            0
        }),
        forall|j: usize| #[trigger]
            timers.contains_key(j) && j != k ==> timers.remove(k).contains_key(j)
                && timers.remove(k)[j] == timers[j],
{
    let then = timers.remove(k);
    vstd::set_lib::lemma_len_subset(due(timers, now), timers.dom());
    vstd::set_lib::lemma_len_subset(pending(timers), timers.dom());
    assert(then.dom() =~= timers.dom().remove(k));
    assert(pending(then) =~= pending(timers).remove(k));
    assert(due(then, now) =~= due(timers, now).remove(k));
}

/// Resetting a timer leaves as many timers as there were, and one more of them
/// pending exactly when it had fired. It is due exactly when its new deadline has
/// come, the earliest exactly when no other pending deadline is before the new one,
/// and the others are as they were.
pub proof fn lemma_resetting_counts(
    timers: Map<usize, Timer>,
    k: usize,
    deadline: u64,
    now: u64,
)
    requires
        timers.dom().finite(),
        timers.contains_key(k),
    ensures
        ({
            let then = timers.insert(k, Timer { deadline: Some(deadline), ..timers[k] });
            &&& then.len() == timers.len()
            &&& pending(then).len() == pending(timers).len() + (if timers[k].deadline is Some {
                0int
            } else {
                1
            })
            &&& due(then, now) == if deadline <= now {
                due(timers, now).insert(k)
            } else {
                due(timers, now).remove(k)
            }
            &&& is_earliest(then, k) <==> forall|j: usize| #[trigger]
                timers.contains_key(j) && j != k && timers[j].deadline is Some ==> deadline
                    <= timers[j].deadline->0
            &&& forall|j: usize| #[trigger]
                is_earliest(then, j) ==> then[j].deadline->0 <= deadline
            &&& forall|j: usize| #[trigger]
                timers.contains_key(j) && j != k ==> then[j] == timers[j]
        }),
{
    let then = timers.insert(k, Timer { deadline: Some(deadline), ..timers[k] });
    vstd::set_lib::lemma_len_subset(pending(timers), timers.dom());
    assert(then.dom() =~= timers.dom());
    assert(pending(then) =~= pending(timers).insert(k));
    assert(due(then, now) =~= if deadline <= now {
        due(timers, now).insert(k)
    } else {
        due(timers, now).remove(k)
    });
    assert(then.contains_key(k));
    if is_earliest(then, k) {
        assert forall|j: usize| #[trigger]
            timers.contains_key(j) && j != k && timers[j].deadline is Some implies deadline
            <= timers[j].deadline->0 by {
            assert(then.contains_key(j));
        }
    }
    if forall|j: usize| #[trigger]
        timers.contains_key(j) && j != k && timers[j].deadline is Some ==> deadline
            <= timers[j].deadline->0 {
        assert forall|j: usize| #[trigger]
            then.contains_key(j) && then[j].deadline is Some implies then[k].deadline->0
            <= then[j].deadline->0 by {
            assert(timers.contains_key(j));
        }
    }
}

/// An expiry leaves as many timers as there were, and as many fewer pending as were
/// due.
pub proof fn lemma_expiring_counts(timers: Map<usize, Timer>, now: u64)
    requires
        timers.dom().finite(),
    ensures
        after_expiry(timers, now).len() == timers.len(),
        pending(after_expiry(timers, now)).len() == pending(timers).len() - due(timers, now).len(),
{
    let then = after_expiry(timers, now);
    vstd::set_lib::lemma_len_subset(due(timers, now), timers.dom());
    vstd::set_lib::lemma_len_subset(pending(timers), timers.dom());
    assert(then.dom() =~= timers.dom());
    assert(pending(then) =~= pending(timers).difference(due(timers, now)));
    assert(pending(timers) =~= pending(then) + due(timers, now));
    vstd::set_lib::lemma_len_subset(pending(then), timers.dom());
    vstd::set_lib::lemma_set_disjoint_lens(pending(then), due(timers, now));
}

/// Once everything due has fired, whatever is still pending is due later.
pub proof fn lemma_nothing_due_after_expiry(timers: Map<usize, Timer>, now: u64, k: usize)
    requires
        timers.contains_key(k),
    ensures
        !is_due(after_expiry(timers, now)[k], now),
        due(after_expiry(timers, now), now) == Set::<usize>::empty(),
{
    assert(due(after_expiry(timers, now), now) =~= Set::<usize>::empty());
}

/// Expiring in two steps fires the same timers as expiring in one, and each of
/// them once: those the first step fired are not due in the second.
pub proof fn lemma_expiry_in_two_steps(timers: Map<usize, Timer>, now: u64, later: u64)
    requires
        now <= later,
    ensures
        after_expiry(after_expiry(timers, now), later) == after_expiry(timers, later),
        due(timers, now).union(due(after_expiry(timers, now), later)) == due(timers, later),
        due(timers, now).disjoint(due(after_expiry(timers, now), later)),
{
    assert(after_expiry(after_expiry(timers, now), later) =~= after_expiry(timers, later));
    assert(due(timers, now).union(due(after_expiry(timers, now), later)) =~= due(timers, later));
}

/// A fired timer stays fired however far time goes, until it is reset; a reset
/// one fires again exactly when its new deadline has come.
pub proof fn lemma_reset_rearms(timers: Map<usize, Timer>, k: usize, deadline: u64, now: u64)
    requires
        timers.contains_key(k),
        timers[k].deadline is None,
    ensures
        after_expiry(timers, now)[k] == timers[k],
        ({
            let again = timers.insert(k, Timer { deadline: Some(deadline), ..timers[k] });
            (after_expiry(again, now)[k].deadline is None) == (deadline <= now)
        }),
{
}

/// Where an instant falls on the scale: at zero if it is before the anchor, and at the
/// nanoseconds that have passed since if it is not, counted again from zero each time
/// the width of a deadline has been filled.
pub proof fn lemma_where_an_instant_falls(anchor: Instant, instant: Instant, deadline: u64)
    ensures
        instant.nanos <= anchor.nanos ==> offset(anchor, instant) == 0,
        instant.nanos >= anchor.nanos ==> offset(anchor, instant) == (instant.nanos - anchor.nanos)
            % 0x1_0000_0000_0000_0000,
        anchor.nanos + deadline <= u128::MAX ==> at_offset(anchor, deadline).nanos - anchor.nanos
            == deadline,
{
    if instant.nanos >= anchor.nanos {
        let passed = (instant.nanos - anchor.nanos) as u128;
        assert(passed as u64 == passed % 0x1_0000_0000_0000_0000) by (bit_vector);
    }
}

/// A timer is due from its deadline on, at the very nanosecond, and until it fires. One
/// that has fired is not, whatever the time.
pub proof fn lemma_when_a_timer_is_due(timer: Timer, deadline: u64, now: u64)
    ensures
        timer.deadline == Some(deadline) && now >= deadline ==> is_due(timer, now),
        timer.deadline == Some(deadline) && now < deadline ==> !is_due(timer, now),
        timer.deadline is None ==> !is_due(timer, now),
{
}

/// The due timers are those that are there and due, and the pending ones those that are
/// there and have yet to fire.
pub proof fn lemma_who_is_due_and_who_is_pending(timers: Map<usize, Timer>, now: u64, k: usize)
    ensures
        due(timers, now).contains(k) <==> timers.contains_key(k) && timers[k].deadline is Some
            && timers[k].deadline->0 <= now,
        pending(timers).contains(k) <==> timers.contains_key(k) && timers[k].deadline is Some,
{
}

/// What an expiry does to each timer: one whose deadline has come has fired, with
/// nobody waiting on it any more, and any other is as it was. None comes and none goes.
pub proof fn lemma_what_an_expiry_does(timers: Map<usize, Timer>, now: u64, k: usize)
    ensures
        after_expiry(timers, now).contains_key(k) <==> timers.contains_key(k),
        timers.contains_key(k) ==> {
            let then = after_expiry(timers, now)[k];
            match timers[k].deadline {
                Some(deadline) => if deadline <= now {
                    then.deadline is None && then.waker is None
                } else {
                    then == timers[k]
                },
                None => then == timers[k],
            }
        },
        fired().deadline is None && fired().waker is None,
{
}

/// Whoever waits on a list of timers is the waker of each that has one, in the order of
/// the list.
pub proof fn lemma_who_waits(timers: Map<usize, Timer>, order: Seq<usize>)
    ensures
        waiting_on(timers, order) == order.filter(
            |k: usize| timers[k].waker is Some,
        ).map_values(|k: usize| timers[k].waker->0),
    decreases order.len(),
{
    let has = |k: usize| timers[k].waker is Some;
    let who = |k: usize| timers[k].waker->0;
    reveal(Seq::filter);
    if order.len() > 0 {
        let before = order.drop_last();
        lemma_who_waits(timers, before);
        if timers[order.last()].waker is Some {
            assert(order.filter(has) =~= before.filter(has).push(order.last()));
        } else {
            assert(order.filter(has) =~= before.filter(has));
        }
    }
    assert(waiting_on(timers, order) =~= order.filter(has).map_values(who));
}

/// Whoever waits on a timer in the list is among them, and nobody else is.
pub proof fn lemma_everyone_who_waits(timers: Map<usize, Timer>, order: Seq<usize>)
    ensures
        forall|i: int|
            0 <= i < order.len() && timers[#[trigger] order[i]].waker is Some ==> waiting_on(
                timers,
                order,
            ).contains(timers[order[i]].waker->0),
        forall|waker: Waker| #[trigger]
            waiting_on(timers, order).contains(waker) ==> exists|i: int|
                0 <= i < order.len() && timers[#[trigger] order[i]].waker == Some(waker),
        waiting_on(timers, order).len() <= order.len(),
        (forall|i: int| 0 <= i < order.len() ==> timers[#[trigger] order[i]].waker is Some)
            ==> waiting_on(timers, order).len() == order.len(),
    decreases order.len(),
{
    if order.len() > 0 {
        let before = order.drop_last();
        let fewer = waiting_on(timers, before);
        let all = waiting_on(timers, order);
        lemma_everyone_who_waits(timers, before);
        assert forall|i: int|
            0 <= i < order.len() && timers[#[trigger] order[i]].waker is Some implies all.contains(
            timers[order[i]].waker->0,
        ) by {
            if i < before.len() {
                assert(before[i] == order[i]);
                let j = choose|j: int| 0 <= j < fewer.len() && fewer[j] == timers[order[i]].waker->0;
                assert(all[j] == fewer[j]);
            } else {
                assert(all[fewer.len() as int] == timers[order[i]].waker->0);
            }
        }
        assert forall|waker: Waker| #[trigger] all.contains(waker) implies exists|i: int|
            0 <= i < order.len() && timers[#[trigger] order[i]].waker == Some(waker) by {
            let j = choose|j: int| 0 <= j < all.len() && all[j] == waker;
            if j < fewer.len() {
                assert(fewer.contains(waker));
                let i = choose|i: int|
                    0 <= i < before.len() && timers[#[trigger] before[i]].waker == Some(waker);
                assert(order[i] == before[i]);
            } else {
                assert(timers[order[order.len() - 1]].waker == Some(waker));
            }
        }
        if forall|i: int| 0 <= i < order.len() ==> timers[#[trigger] order[i]].waker is Some {
            assert forall|i: int| 0 <= i < before.len() implies timers[
            #[trigger] before[i]].waker is Some by {
                assert(before[i] == order[i]);
            }
        }
    }
}

/// An expiry wakes everyone who waits on a timer that is due, and nobody else,
/// whichever order the timers fire in.
pub proof fn lemma_an_expiry_wakes_exactly_the_due(
    timers: Map<usize, Timer>,
    now: u64,
    order: Seq<usize>,
    k: usize,
    waker: Waker,
)
    requires
        lists_due(timers, now, order),
    ensures
        timers.contains_key(k) && timers[k].deadline is Some && timers[k].deadline->0 <= now
            && timers[k].waker == Some(waker) ==> waiting_on(timers, order).contains(waker),
        waiting_on(timers, order).contains(waker) ==> exists|j: usize| #[trigger]
            timers.contains_key(j) && timers[j].deadline is Some && timers[j].deadline->0 <= now
                && timers[j].waker == Some(waker),
        waiting_on(timers, order).len() <= due(timers, now).len(),
{
    lemma_everyone_who_waits(timers, order);
    lemma_as_many_as_due(timers, now, order);
    if timers.contains_key(k) && is_due(timers[k], now) {
        assert(order.contains(k));
        let i = choose|i: int| 0 <= i < order.len() && order[i] == k;
        assert(timers[order[i]] == timers[k]);
    }
    if waiting_on(timers, order).contains(waker) {
        let i = choose|i: int|
            0 <= i < order.len() && timers[#[trigger] order[i]].waker == Some(waker);
        assert(order.contains(order[i]));
        assert(timers.contains_key(order[i]));
    }
}

/// The list of what is due has each due timer once, and an order of firing has the
/// first four of them by deadline: none of those fires after a later one.
pub proof fn lemma_the_first_fire_by_deadline(
    timers: Map<usize, Timer>,
    now: u64,
    order: Seq<usize>,
    i: int,
    j: int,
)
    requires
        fire_order(timers, now, order),
        0 <= i < j < order.len(),
    ensures
        order[i] != order[j],
        timers.contains_key(order[i]),
        is_due(timers[order[i]], now),
        i < 4 ==> timers[order[i]].deadline->0 <= timers[order[j]].deadline->0,
{
    assert(order.contains(order[i]));
}

/// What comes first is pending, and no pending timer comes before it.
pub proof fn lemma_what_comes_first(timers: Map<usize, Timer>, k: usize, j: usize)
    requires
        is_earliest(timers, k),
    ensures
        pending(timers).contains(k),
        pending(timers).contains(j) ==> timers[k].deadline->0 <= timers[j].deadline->0,
{
}

/// No timer fires early, and none that has fired is forgotten: whatever one step of an
/// expiry changes was due, has fired, and has its waker among those to be woken.
pub proof fn lemma_no_timer_fires_early(
    timers: Map<usize, Timer>,
    expiry: ExpiryView,
    woken: Option<Seq<Waker>>,
    then: Map<usize, Timer>,
    next: ExpiryView,
    k: usize,
)
    requires
        expires(timers, expiry, woken, then, next),
        timers.contains_key(k),
    ensures
        then.contains_key(k),
        !(timers[k].deadline is Some && timers[k].deadline->0 <= expiry.now) ==> then[k]
            == timers[k],
        then[k] != timers[k] ==> {
            &&& woken is Some
            &&& then[k].deadline is None && then[k].waker is None
            &&& timers[k].waker is Some ==> woken->0.contains(timers[k].waker->0)
        },
        next.now == expiry.now,
{
    if !expiry.over && woken is Some {
        if expiry.taken < SWEEP_AFTER {
            let root = choose|root: usize| #[trigger]
                takes(timers, expiry.now, root, woken->0, then);
            assert(timers[root].waker is Some ==> as_seq(timers[root].waker)[0]
                == timers[root].waker->0);
        } else {
            let order = choose|order: Seq<usize>| #[trigger]
                lists_due(timers, expiry.now, order) && woken->0 == waiting_on(timers, order);
            lemma_everyone_who_waits(timers, order);
            if is_due(timers[k], expiry.now) {
                assert(order.contains(k));
                let i = choose|i: int| 0 <= i < order.len() && order[i] == k;
                assert(timers[order[i]] == timers[k]);
            }
        }
    }
}

/// How far a step of an expiry goes. While fewer than four have been taken it takes one
/// that comes first, if that is due, and wakes whoever waits on that one alone; if none
/// is due the expiry is over. After four it takes everything that is due, and is over.
/// What is over does nothing more. Each timer is counted as it fires.
pub proof fn lemma_how_far_a_step_goes(
    timers: Map<usize, Timer>,
    expiry: ExpiryView,
    woken: Option<Seq<Waker>>,
    then: Map<usize, Timer>,
    next: ExpiryView,
)
    requires
        expires(timers, expiry, woken, then, next),
    ensures
        expiry.over ==> woken is None && then == timers && next.over && next.fired == expiry.fired,
        !expiry.over && expiry.taken < 4 && due(timers, expiry.now).len() > 0 && due(
            timers,
            expiry.now,
        ).finite() ==> {
            &&& woken matches Some(wakers) && exists|k: usize| #[trigger]
                timers.contains_key(k) && is_earliest(timers, k) && is_due(timers[k], expiry.now)
                    && then == timers.insert(k, Timer { deadline: None, waker: None })
                    && wakers.len() <= 1 && (wakers.len() == 1 <==> timers[k].waker is Some) && (
                timers[k].waker is Some ==> wakers[0] == timers[k].waker->0)
            &&& !next.over && next.taken == expiry.taken + 1 && next.fired == expiry.fired + 1
        },
        !expiry.over && expiry.taken < 4 && due(timers, expiry.now) == Set::<usize>::empty()
            ==> woken is None && then == timers && next.over && next.fired == expiry.fired,
        !expiry.over && expiry.taken >= 4 ==> {
            &&& woken is Some
            &&& next.over
            &&& next.fired == expiry.fired + due(timers, expiry.now).len()
            &&& due(then, expiry.now) == Set::<usize>::empty()
        },
{
    if !expiry.over && expiry.taken < SWEEP_AFTER {
        if woken is Some {
            let k = choose|k: usize| #[trigger] takes(timers, expiry.now, k, woken->0, then);
            assert(due(timers, expiry.now).contains(k));
            assert(timers.contains_key(k));
        }
    } else if !expiry.over {
        assert(due(then, expiry.now) =~= Set::<usize>::empty());
    }
}

} // verus!
