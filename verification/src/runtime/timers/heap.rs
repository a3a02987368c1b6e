//! What it means for a sequence of slots to be a heap, and for the entries to
//! agree with it about where everything is.

use vstd::prelude::*;

use crate::runtime::waker::Waker;

verus! {

/// Children per heap node.
pub const ARITY: usize = 4;

/// One heap element.
///
/// The deadline is duplicated out of the entry deliberately: sifting is all
/// comparison, and keeping the key here would turn every one of them into a
/// slab lookup.
#[derive(Clone, Copy, Debug)]
pub struct Slot {
    pub deadline: u64,
    pub index: usize,
}

/// One timer.
#[derive(Clone, Copy, Debug)]
pub struct Entry {
    /// Where in the heap this entry sits, or `None` once its deadline has
    /// passed and it has left the heap.
    pub pos: Option<usize>,
    /// Whoever is waiting for this deadline, once they have asked.
    /// `None` between arming and the first poll.
    pub waker: Option<Waker>,
}

/// The heap position above `i`.
pub open spec fn parent(i: int) -> int {
    (i - 1) / (ARITY as int)
}

/// Position `i` is due no earlier than the position above it.
pub open spec fn edge(h: Seq<Slot>, i: int) -> bool {
    h[parent(i)].deadline <= h[i].deadline
}

/// Every parent is due no later than its children.
pub open spec fn ordered(h: Seq<Slot>) -> bool {
    forall|i: int| 1 <= i < h.len() ==> #[trigger] edge(h, i)
}

/// Every parent at `from` or after is due no later than its children.
pub open spec fn ordered_from(h: Seq<Slot>, from: int) -> bool {
    forall|i: int| 1 <= i < h.len() && parent(i) >= from ==> #[trigger] edge(h, i)
}

/// The children of `pos` are due no earlier than the parent of `pos`, so that
/// taking `pos` itself out of consideration leaves no disorder behind.
pub open spec fn bridged(h: Seq<Slot>, pos: int) -> bool {
    forall|c: int|
        1 <= c < h.len() && pos >= 1 && #[trigger] parent(c) == pos ==> h[parent(pos)].deadline
            <= h[c].deadline
}

/// A heap but for the slot at `pos`, which may hold anything.
pub open spec fn ordered_around(h: Seq<Slot>, pos: int) -> bool {
    &&& forall|i: int|
        1 <= i < h.len() && i != pos && parent(i) != pos ==> #[trigger] edge(h, i)
    &&& bridged(h, pos)
}

/// A heap but for `pos`, which may be due before its parent.
pub open spec fn ordered_but_up(h: Seq<Slot>, pos: int) -> bool {
    &&& forall|i: int| 1 <= i < h.len() && i != pos ==> #[trigger] edge(h, i)
    &&& bridged(h, pos)
}

/// A heap from `from` on but for `pos`, which may be due after its children.
pub open spec fn ordered_but_down(h: Seq<Slot>, pos: int, from: int) -> bool {
    &&& forall|i: int|
        1 <= i < h.len() && parent(i) != pos && parent(i) >= from ==> #[trigger] edge(h, i)
    &&& parent(pos) >= from ==> bridged(h, pos)
}

/// No two slots name the same entry.
pub open spec fn distinct(h: Seq<Slot>) -> bool {
    forall|i: int, j: int|
        0 <= i < h.len() && 0 <= j < h.len() && i != j ==> (#[trigger] h[i]).index != (
        #[trigger] h[j]).index
}

/// Some slot names entry `k`.
pub open spec fn names(h: Seq<Slot>, k: usize) -> bool {
    exists|i: int| 0 <= i < h.len() && (#[trigger] h[i]).index == k
}

/// The two hold the same slots, whatever the order.
pub open spec fn same_slots(a: Seq<Slot>, b: Seq<Slot>) -> bool {
    &&& a.len() == b.len()
    &&& forall|s: Slot| #[trigger] a.contains(s) <==> b.contains(s)
}

/// The entry of the slot at `i` records that position, provided the slot is due
/// after `floor`.
pub open spec fn seated(h: Seq<Slot>, e: Map<usize, Entry>, i: int, floor: int) -> bool {
    &&& e.contains_key(h[i].index)
    &&& h[i].deadline > floor ==> e[h[i].index].pos == Some(i as usize)
}

/// Every slot due after `floor` is where its entry says it is.
pub open spec fn linked(h: Seq<Slot>, e: Map<usize, Entry>, floor: int) -> bool {
    forall|i: int| 0 <= i < h.len() ==> #[trigger] seated(h, e, i, floor)
}

/// The same for every slot but the one at `pos`.
pub open spec fn linked_around(h: Seq<Slot>, e: Map<usize, Entry>, pos: int, floor: int) -> bool {
    forall|i: int| 0 <= i < h.len() && i != pos ==> #[trigger] seated(h, e, i, floor)
}

/// From `a` to `b` only positions changed, and only those of entries that `h`
/// names with a deadline after `floor`.
pub open spec fn moved(
    h: Seq<Slot>,
    a: Map<usize, Entry>,
    b: Map<usize, Entry>,
    floor: int,
) -> bool {
    &&& b.dom() == a.dom()
    &&& forall|k: usize| #[trigger] b.contains_key(k) ==> b[k].waker == a[k].waker
    &&& forall|k: usize| #[trigger]
        b.contains_key(k) && (forall|i: int|
            0 <= i < h.len() && (#[trigger] h[i]).index == k ==> h[i].deadline <= floor) ==> b[k]
            == a[k]
}

/// An entry that no slot names is out of the heap.
pub open spec fn unnamed_are_out(h: Seq<Slot>, e: Map<usize, Entry>) -> bool {
    forall|k: usize| #[trigger] e.contains_key(k) && !names(h, k) ==> e[k].pos is None
}

/// Two slots trade places.
pub open spec fn traded(h: Seq<Slot>, i: int, j: int) -> Seq<Slot> {
    h.update(i, h[j]).update(j, h[i])
}

pub proof fn lemma_traded(h: Seq<Slot>, i: int, j: int)
    requires
        0 <= i < h.len(),
        0 <= j < h.len(),
        distinct(h),
    ensures
        same_slots(traded(h, i, j), h),
        distinct(traded(h, i, j)),
{
    let t = traded(h, i, j);
    assert forall|s: Slot| #[trigger] t.contains(s) <==> h.contains(s) by {
        if t.contains(s) {
            let k = choose|k: int| 0 <= k < t.len() && t[k] == s;
            let m = if k == i { j } else if k == j { i } else { k };
            assert(h[m] == s);
        }
        if h.contains(s) {
            let k = choose|k: int| 0 <= k < h.len() && h[k] == s;
            let m = if k == i { j } else if k == j { i } else { k };
            assert(t[m] == s);
        }
    }
}

pub proof fn lemma_same_slots_trans(a: Seq<Slot>, b: Seq<Slot>, c: Seq<Slot>)
    requires
        same_slots(a, b),
        same_slots(b, c),
    ensures
        same_slots(a, c),
{
    assert forall|s: Slot| #[trigger] a.contains(s) <==> c.contains(s) by {
        assert(b.contains(s) <==> c.contains(s));
    }
}

/// A heap's root is its earliest slot.
pub proof fn lemma_root_is_earliest(h: Seq<Slot>, i: int)
    requires
        ordered(h),
        0 <= i < h.len(),
    ensures
        h[0].deadline <= h[i].deadline,
    decreases i,
{
    if i > 0 {
        assert(edge(h, i));
        lemma_root_is_earliest(h, parent(i));
    }
}

/// The same slots name the same entries.
pub proof fn lemma_same_names(a: Seq<Slot>, b: Seq<Slot>, k: usize)
    requires
        same_slots(a, b),
    ensures
        names(a, k) == names(b, k),
{
    if names(a, k) {
        let i = choose|i: int| 0 <= i < a.len() && (#[trigger] a[i]).index == k;
        assert(a.contains(a[i]));
        assert(b.contains(a[i]));
    }
    if names(b, k) {
        let i = choose|i: int| 0 <= i < b.len() && (#[trigger] b[i]).index == k;
        assert(b.contains(b[i]));
        assert(a.contains(b[i]));
    }
}

/// Recording a position for a slot due after `floor` is one of the changes that
/// [`moved`] allows.
pub proof fn lemma_moved(
    g: Seq<Slot>,
    h: Seq<Slot>,
    a: Map<usize, Entry>,
    b: Map<usize, Entry>,
    floor: int,
    i: int,
    pos: Option<usize>,
)
    requires
        same_slots(h, g),
        moved(g, a, b, floor),
        0 <= i < h.len(),
        h[i].deadline > floor,
        b.contains_key(h[i].index),
    ensures
        moved(h, a, b.insert(h[i].index, Entry { pos, waker: b[h[i].index].waker }), floor),
{
    let k0 = h[i].index;
    let c = b.insert(k0, Entry { pos, waker: b[k0].waker });
    assert(c.dom() =~= b.dom());
    assert forall|k: usize| #[trigger]
        c.contains_key(k) && (forall|j: int|
            0 <= j < h.len() && (#[trigger] h[j]).index == k ==> h[j].deadline
                <= floor) implies c[k] == a[k] by {
        assert(k != k0);
        assert(b.contains_key(k));
        assert forall|j: int| 0 <= j < g.len() && (#[trigger] g[j]).index == k implies g[j].deadline
            <= floor by {
            assert(g.contains(g[j]));
            assert(h.contains(g[j]));
            let m = choose|m: int| 0 <= m < h.len() && h[m] == g[j];
            assert(h[m].index == k);
        }
    }
    assert forall|k: usize| #[trigger] c.contains_key(k) implies c[k].waker == a[k].waker by {
        assert(b.contains_key(k));
    }
}

/// Pulling the earliest child of `pos` up into it keeps everything else in
/// order: the slot that came down may only be due after its new children.
pub proof fn lemma_pull_up(g: Seq<Slot>, pos: int, child: int, from: int)
    requires
        0 <= from <= pos < child < g.len(),
        parent(child) == pos,
        ordered_but_down(g, pos, from),
        g[child].deadline < g[pos].deadline,
        forall|i: int|
            1 <= i < g.len() && #[trigger] parent(i) == pos ==> g[child].deadline <= g[i].deadline,
    ensures
        ordered_but_down(traded(g, pos, child), child, from),
{
    let t = traded(g, pos, child);
    assert forall|i: int|
        1 <= i < t.len() && parent(i) != child && parent(i) >= from implies #[trigger] edge(
        t,
        i,
    ) by {
        if parent(i) == pos {
            assert(g[child].deadline <= g[i].deadline);
        } else if i == pos {
            assert(bridged(g, pos));
            assert(parent(child) == pos);
        } else {
            assert(edge(g, i));
        }
    }
    assert forall|c: int|
        1 <= c < t.len() && child >= 1 && #[trigger] parent(c) == child implies t[parent(
        child,
    )].deadline <= t[c].deadline by {
        assert(edge(g, c));
    }
}

/// `b` holds the slots of `a` but for the one at `pos`.
pub open spec fn lacks(b: Seq<Slot>, a: Seq<Slot>, pos: int) -> bool {
    &&& b.len() == a.len() - 1
    &&& forall|s: Slot| #[trigger] b.contains(s) <==> a.contains(s) && s != a[pos]
}

/// Around any slot of a heap, the rest is in order.
pub proof fn lemma_ordered_around(h: Seq<Slot>, pos: int)
    requires
        ordered(h),
        0 <= pos < h.len(),
    ensures
        ordered_around(h, pos),
{
    assert forall|c: int|
        1 <= c < h.len() && pos >= 1 && #[trigger] parent(c) == pos implies h[parent(pos)].deadline
        <= h[c].deadline by {
        assert(edge(h, c));
        assert(edge(h, pos));
    }
}

/// Filling the hole at `pos` with the last slot leaves the rest.
pub proof fn lemma_fill(h: Seq<Slot>, pos: int)
    requires
        0 <= pos < h.len() - 1,
        distinct(h),
    ensures
        lacks(h.drop_last().update(pos, h.last()), h, pos),
        distinct(h.drop_last().update(pos, h.last())),
{
    let g = h.drop_last().update(pos, h.last());
    let n = h.len() - 1;
    assert forall|s: Slot| #[trigger] g.contains(s) <==> h.contains(s) && s != h[pos] by {
        if g.contains(s) {
            let i = choose|i: int| 0 <= i < g.len() && g[i] == s;
            let m = if i == pos { n } else { i };
            assert(h[m] == s);
            assert(h[m].index != h[pos].index);
        }
        if h.contains(s) && s != h[pos] {
            let i = choose|i: int| 0 <= i < h.len() && h[i] == s;
            let m = if i == n { pos } else { i };
            assert(g[m] == s);
        }
    }
    assert forall|i: int, j: int| 0 <= i < g.len() && 0 <= j < g.len() && i != j implies (
    #[trigger] g[i]).index != (#[trigger] g[j]).index by {
        let a = if i == pos { n } else { i };
        let b = if j == pos { n } else { j };
        assert(h[a].index != h[b].index);
    }
}

/// Dropping the last slot leaves the rest.
pub proof fn lemma_drop_last(h: Seq<Slot>)
    requires
        0 < h.len(),
        distinct(h),
    ensures
        lacks(h.drop_last(), h, h.len() - 1),
        distinct(h.drop_last()),
{
    let g = h.drop_last();
    let n = h.len() - 1;
    assert forall|s: Slot| #[trigger] g.contains(s) <==> h.contains(s) && s != h[n] by {
        if g.contains(s) {
            let i = choose|i: int| 0 <= i < g.len() && g[i] == s;
            assert(h[i] == s);
            assert(h[i].index != h[n].index);
        }
        if h.contains(s) && s != h[n] {
            let i = choose|i: int| 0 <= i < h.len() && h[i] == s;
            assert(g[i] == s);
        }
    }
    assert forall|i: int, j: int| 0 <= i < g.len() && 0 <= j < g.len() && i != j implies (
    #[trigger] g[i]).index != (#[trigger] g[j]).index by {
        assert(h[i].index != h[j].index);
    }
}

/// Position changes compose, as long as no slot due after `floor` goes missing
/// between them.
pub proof fn lemma_moved_trans(
    g: Seq<Slot>,
    h: Seq<Slot>,
    a: Map<usize, Entry>,
    b: Map<usize, Entry>,
    c: Map<usize, Entry>,
    floor: int,
)
    requires
        moved(g, a, b, floor),
        moved(h, b, c, floor),
        forall|s: Slot| #[trigger] g.contains(s) && s.deadline > floor ==> h.contains(s),
    ensures
        moved(h, a, c, floor),
{
    assert forall|k: usize| #[trigger] c.contains_key(k) implies c[k].waker == a[k].waker by {
        assert(b.contains_key(k));
    }
    assert forall|k: usize| #[trigger]
        c.contains_key(k) && (forall|i: int|
            0 <= i < h.len() && (#[trigger] h[i]).index == k ==> h[i].deadline
                <= floor) implies c[k] == a[k] by {
        assert(b.contains_key(k));
        assert forall|i: int| 0 <= i < g.len() && (#[trigger] g[i]).index == k implies g[i].deadline
            <= floor by {
            if g[i].deadline > floor {
                assert(g.contains(g[i]));
                assert(h.contains(g[i]));
                let m = choose|m: int| 0 <= m < h.len() && h[m] == g[i];
                assert(h[m].index == k);
            }
        }
    }
}

/// The positions in `due` are in ascending order.
pub open spec fn ascending(due: Seq<usize>) -> bool {
    forall|i: int, j: int| 0 <= i < j < due.len() ==> #[trigger] due[i] < #[trigger] due[j]
}

/// The slot at every position in `due` is due at `now`.
pub open spec fn all_due(h: Seq<Slot>, due: Seq<usize>, now: u64) -> bool {
    forall|i: int|
        0 <= i < due.len() ==> (#[trigger] due[i]) < h.len() && h[due[i] as int].deadline <= now
}

/// The due children of the first `read` positions in `due` are in `due` too.
pub open spec fn explored(h: Seq<Slot>, due: Seq<usize>, read: int, now: u64) -> bool {
    forall|r: int, c: int|
        0 <= r < read && 1 <= c < h.len() && parent(c) == (#[trigger] due[r]) && (
        #[trigger] h[c]).deadline <= now ==> due.contains(c as usize)
}

/// A node that is not due has no due descendants, so exploring from a due root
/// finds every due position.
pub proof fn lemma_explored_is_all(h: Seq<Slot>, due: Seq<usize>, now: u64, p: int)
    requires
        ordered(h),
        explored(h, due, due.len() as int, now),
        due.contains(0usize),
        0 <= p < h.len() <= usize::MAX,
        h[p].deadline <= now,
    ensures
        due.contains(p as usize),
    decreases p,
{
    if p > 0 {
        assert(edge(h, p));
        lemma_explored_is_all(h, due, now, parent(p));
        let r = choose|r: int| 0 <= r < due.len() && due[r] == parent(p) as usize;
        assert(due[r] == parent(p));
        assert(h[p].deadline <= now);
    }
}

/// The entries that the positions in `due` name, in that order.
pub open spec fn named_by(h: Seq<Slot>, due: Seq<usize>) -> Seq<usize> {
    Seq::new(due.len(), |i: int| h[due[i] as int].index)
}

/// Whoever is waiting on the entries in `order`, in that order.
pub open spec fn wakers(e: Map<usize, Entry>, order: Seq<usize>) -> Seq<Waker>
    decreases order.len(),
{
    if order.len() == 0 {
        Seq::empty()
    } else {
        let before = wakers(e, order.drop_last());
        match e[order.last()].waker {
            Some(waker) => before.push(waker),
            None => before,
        }
    }
}

/// `order` lists the entries that `h` names with a deadline at or before `now`,
/// each once.
pub open spec fn lists_due(h: Seq<Slot>, order: Seq<usize>, now: u64) -> bool {
    &&& order.no_duplicates()
    &&& forall|k: usize| #[trigger]
        order.contains(k) <==> exists|i: int|
            0 <= i < h.len() && (#[trigger] h[i]).index == k && h[i].deadline <= now
}

/// Reading the entries off the due positions lists the due entries.
pub proof fn lemma_lists_due(h: Seq<Slot>, due: Seq<usize>, now: u64)
    requires
        distinct(h),
        ascending(due),
        all_due(h, due, now),
        forall|p: int|
            0 <= p < h.len() && (#[trigger] h[p]).deadline <= now ==> due.contains(p as usize),
        h.len() <= usize::MAX,
    ensures
        lists_due(h, named_by(h, due), now),
{
    let order = named_by(h, due);
    assert forall|i: int, j: int| 0 <= i < order.len() && 0 <= j < order.len() && i != j implies order[i]
        != order[j] by {
        if i < j {
            assert(due[i] < due[j]);
        } else {
            assert(due[j] < due[i]);
        }
        assert(h[due[i] as int].index != h[due[j] as int].index);
    }
    assert forall|k: usize| #[trigger] order.contains(k) <==> exists|i: int|
        0 <= i < h.len() && (#[trigger] h[i]).index == k && h[i].deadline <= now by {
        if order.contains(k) {
            let j = choose|j: int| 0 <= j < order.len() && order[j] == k;
            assert(h[due[j] as int].index == k);
        }
        if exists|i: int| 0 <= i < h.len() && (#[trigger] h[i]).index == k && h[i].deadline <= now {
            let i = choose|i: int|
                0 <= i < h.len() && (#[trigger] h[i]).index == k && h[i].deadline <= now;
            assert(due.contains(i as usize));
            let j = choose|j: int| 0 <= j < due.len() && due[j] == i as usize;
            assert(order[j] == k);
        }
    }
}

} // verus!
