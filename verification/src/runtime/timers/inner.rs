//! The heap of deadlines and the slab of entries it indexes.

use slab::Slab;
use vstd::prelude::*;

use super::heap;
use super::heap::{Entry, Slot, ARITY};
use crate::runtime::waker::Waker;

verus! {

/// What a slab of timers holds: the entry under each key.
pub uninterp spec fn timer_entries(slab: Slab<Entry>) -> Map<usize, Entry>;

/// `Slab::with_capacity`: a slab with nothing in it.
#[verifier::external_body]
pub(crate) fn slab_with_capacity(capacity: usize) -> (empty: Slab<Entry>)
    requires
        capacity <= 0x10000,
    ensures
        timer_entries(empty) == (Map::<usize, Entry>::empty()),
{
    Slab::with_capacity(capacity)
}

/// `Slab::insert`: the value goes under a key that was vacant, which comes back.
/// Which of the vacant keys that is, is not said.
#[verifier::external_body]
pub(crate) fn slab_insert(slab: &mut Slab<Entry>, entry: Entry) -> (key: usize)
    ensures
        !timer_entries(*old(slab)).contains_key(key),
        timer_entries(*final(slab)) == timer_entries(*old(slab)).insert(key, entry),
{
    slab.insert(entry)
}

/// `Slab::remove`: the value under an occupied key comes out.
#[verifier::external_body]
pub(crate) fn slab_remove(slab: &mut Slab<Entry>, key: usize) -> (entry: Entry)
    requires
        timer_entries(*old(slab)).contains_key(key),
    ensures
        entry == timer_entries(*old(slab))[key],
        timer_entries(*final(slab)) == timer_entries(*old(slab)).remove(key),
{
    slab.remove(key)
}

/// `Slab::index`: the value under an occupied key.
#[verifier::external_body]
pub(crate) fn slab_at(slab: &Slab<Entry>, key: usize) -> (entry: &Entry)
    requires
        timer_entries(*slab).contains_key(key),
    ensures
        *entry == timer_entries(*slab)[key],
{
    &slab[key]
}

/// `Slab::index_mut`: the value under an occupied key, to be written through.
#[verifier::external_body]
pub(crate) fn slab_at_mut(slab: &mut Slab<Entry>, key: usize) -> (entry: &mut Entry)
    requires
        timer_entries(*old(slab)).contains_key(key),
    ensures
        *entry == timer_entries(*old(slab))[key],
        timer_entries(*final(slab)) == timer_entries(*old(slab)).insert(key, *final(entry)),
{
    &mut slab[key]
}

/// `Slab::len`: how many keys are occupied.
#[verifier::external_body]
pub(crate) fn slab_len(slab: &Slab<Entry>) -> (len: usize)
    ensures
        len == timer_entries(*slab).len(),
{
    slab.len()
}

/// When expiring, rebuild the whole heap rather than unlink one timer at a time
/// once more than `1 / REBUILD_RATIO` of it is due.
pub const REBUILD_RATIO: usize = 8;

/// The heap, the entries, and the scratch that expiry works in.
pub struct Inner {
    /// Min-heap of the deadlines still to come, as slab keys.
    pub heap: Vec<Slot>,
    pub entries: Slab<Entry>,
    /// Scratch for [`Inner::take_due`], kept for its capacity.
    pub due: Vec<usize>,
}

impl Inner {
    /// The entry under each key.
    pub open spec fn table(&self) -> Map<usize, Entry> {
        timer_entries(self.entries)
    }

    /// A heap, with every entry agreeing with it about where it is.
    pub open spec fn wf(&self) -> bool {
        &&& heap::ordered(self.heap@)
        &&& heap::distinct(self.heap@)
        &&& heap::linked(self.heap@, self.table(), -1)
        &&& heap::unnamed_are_out(self.heap@, self.table())
        &&& self.table().dom().finite()
    }

    /// Write `slot` at `pos` and record where it went.
    fn place(&mut self, pos: usize, slot: Slot)
        requires
            pos < old(self).heap@.len(),
            old(self).table().contains_key(slot.index),
        ensures
            final(self).heap@ == old(self).heap@.update(pos as int, slot),
            final(self).table() == old(self).table().insert(
                slot.index,
                Entry { pos: Some(pos), waker: old(self).table()[slot.index].waker },
            ),
            final(self).due == old(self).due,
    {
        self.heap[pos] = slot;
        slab_at_mut(&mut self.entries, slot.index).pos = Some(pos);
    }

    /// The child of `pos` to swap with, or `None` if none is earlier than
    /// `deadline` — which is where a sift down stops.
    ///
    /// It has to be the *earliest* child: swapping with any other would leave it
    /// above a sibling earlier than itself.
    fn earliest_child(&self, pos: usize, deadline: u64) -> (child: Option<usize>)
        requires
            pos < self.heap@.len(),
        ensures
            match child {
                Some(c) => {
                    &&& 1 <= c < self.heap@.len()
                    &&& heap::parent(c as int) == pos
                    &&& self.heap@[c as int].deadline < deadline
                    &&& forall|i: int|
                        1 <= i < self.heap@.len() && #[trigger] heap::parent(i) == pos
                            ==> self.heap@[c as int].deadline <= self.heap@[i].deadline
                },
                None => forall|i: int|
                    1 <= i < self.heap@.len() && #[trigger] heap::parent(i) == pos ==> deadline
                        <= self.heap@[i].deadline,
            },
    {
        let len = self.heap.len();
        if len < 2 || pos > (len - 2) / ARITY {
            return None;
        }
        let first = pos * ARITY + 1;
        let last = if len - first < ARITY { len } else { first + ARITY };

        // Adjacent, so however wide `ARITY` is this stays within a cache line
        // or two.
        let mut child = first;
        let mut candidate = first + 1;
        while candidate < last
            invariant
                first < self.heap@.len(),
                first + 1 <= candidate <= last <= self.heap@.len(),
                first <= child < candidate,
                forall|i: int|
                    first <= i < candidate ==> self.heap@[child as int].deadline <= (
                    #[trigger] self.heap@[i]).deadline,
            decreases last - candidate,
        {
            if self.heap[candidate].deadline < self.heap[child].deadline {
                child = candidate;
            }
            candidate += 1;
        }

        if self.heap[child].deadline < deadline {
            Some(child)
        } else {
            None
        }
    }

    /// Walk the hole at `pos` up, pulling parents down into it while they are
    /// later than `slot`, then seat `slot` where it stops.
    fn sift_up(&mut self, hole: usize, slot: Slot)
        requires
            hole < old(self).heap@.len(),
            heap::ordered_but_up(old(self).heap@.update(hole as int, slot), hole as int),
            heap::distinct(old(self).heap@.update(hole as int, slot)),
            heap::linked_around(old(self).heap@, old(self).table(), hole as int, -1),
            old(self).table().contains_key(slot.index),
        ensures
            heap::ordered(final(self).heap@),
            heap::distinct(final(self).heap@),
            heap::same_slots(final(self).heap@, old(self).heap@.update(hole as int, slot)),
            heap::linked(final(self).heap@, final(self).table(), -1),
            heap::moved(final(self).heap@, old(self).table(), final(self).table(), -1),
            final(self).due == old(self).due,
    {
        let ghost start = self.heap@.update(hole as int, slot);
        let ghost table = self.table();
        let mut pos = hole;
        while pos > 0
            invariant_except_break
                heap::ordered_but_up(self.heap@.update(pos as int, slot), pos as int),
            invariant
                pos < self.heap@.len(),
                heap::distinct(self.heap@.update(pos as int, slot)),
                heap::linked_around(self.heap@, self.table(), pos as int, -1),
                heap::same_slots(self.heap@.update(pos as int, slot), start),
                table.contains_key(slot.index),
                heap::moved(self.heap@.update(pos as int, slot), table, self.table(), -1),
                self.due == old(self).due,
            ensures
                heap::ordered(self.heap@.update(pos as int, slot)),
            decreases pos,
        {
            let parent = (pos - 1) / ARITY;
            let ghost g = self.heap@.update(pos as int, slot);
            proof {
                assert(heap::parent(pos as int) == parent);
            }
            if self.heap[parent].deadline <= slot.deadline {
                proof {
                    assert(heap::edge(g, pos as int));
                    assert(heap::ordered(g));
                }
                break;
            }
            let up = self.heap[parent];
            proof {
                assert(heap::seated(self.heap@, self.table(), parent as int, -1));
            }
            let ghost before = self.heap@;
            let ghost e = self.table();
            self.place(pos, up);
            proof {
                let next = self.heap@.update(parent as int, slot);
                assert(next =~= heap::traded(g, pos as int, parent as int));
                heap::lemma_traded(g, pos as int, parent as int);
                heap::lemma_same_slots_trans(next, g, start);
                assert forall|i: int| 1 <= i < next.len() && i != parent implies #[trigger] heap::edge(
                    next,
                    i,
                ) by {
                    if i == pos {
                    } else if heap::parent(i) == pos {
                        assert(heap::parent(i) == pos as int);
                    } else if heap::parent(i) == parent {
                        assert(heap::edge(g, i));
                    } else {
                        assert(heap::edge(g, i));
                    }
                }
                assert forall|c: int|
                    1 <= c < next.len() && parent >= 1 && #[trigger] heap::parent(c)
                        == parent implies next[heap::parent(parent as int)].deadline
                    <= next[c].deadline by {
                    assert(heap::edge(g, parent as int));
                    assert(heap::edge(g, c) || c == pos);
                }
                assert(heap::bridged(next, parent as int));
                assert forall|i: int| 0 <= i < self.heap@.len() && i != parent implies #[trigger] heap::seated(
                    self.heap@,
                    self.table(),
                    i,
                    -1,
                ) by {
                    if i != pos {
                        assert(heap::seated(before, e, i, -1));
                        assert(g[i].index != g[parent as int].index);
                    }
                }
                heap::lemma_moved(g, next, table, e, -1, pos as int, Some(pos));
            }
            pos = parent;
        }
        let ghost g = self.heap@.update(pos as int, slot);
        let ghost before = self.heap@;
        let ghost e = self.table();
        self.place(pos, slot);
        proof {
            if pos == 0 {
                assert(heap::ordered(g));
            }
            assert forall|i: int| 0 <= i < g.len() implies #[trigger] heap::seated(
                g,
                self.table(),
                i,
                -1,
            ) by {
                if i != pos {
                    assert(heap::seated(before, e, i, -1));
                    assert(g[i].index != g[pos as int].index);
                }
            }
            heap::lemma_moved(g, g, table, e, -1, pos as int, Some(pos));
        }
    }

    /// Walk the hole at `pos` down, pulling the earliest child up into it while
    /// that child is earlier than `slot`, then seat `slot` where it stops.
    fn sift_down(&mut self, hole: usize, slot: Slot, Ghost(floor): Ghost<int>)
        requires
            hole < old(self).heap@.len(),
            heap::ordered_but_down(old(self).heap@.update(hole as int, slot), hole as int, 0),
            heap::distinct(old(self).heap@.update(hole as int, slot)),
            heap::linked_around(old(self).heap@, old(self).table(), hole as int, floor),
            old(self).table().contains_key(slot.index),
            slot.deadline > floor,
            forall|i: int|
                hole < i < old(self).heap@.len() ==> (#[trigger] old(self).heap@[i]).deadline
                    > floor,
        ensures
            heap::ordered(final(self).heap@),
            heap::distinct(final(self).heap@),
            heap::same_slots(final(self).heap@, old(self).heap@.update(hole as int, slot)),
            heap::linked(final(self).heap@, final(self).table(), floor),
            heap::moved(final(self).heap@, old(self).table(), final(self).table(), floor),
            forall|i: int| 0 <= i < hole ==> final(self).heap@[i] == old(self).heap@[i],
            forall|i: int|
                hole <= i < final(self).heap@.len() ==> (#[trigger] final(self).heap@[i]).deadline
                    > floor,
            final(self).due == old(self).due,
    {
        let ghost start = self.heap@.update(hole as int, slot);
        let ghost table = self.table();
        let mut pos = hole;
        loop
            invariant
                hole <= pos < self.heap@.len(),
                self.heap@.len() == start.len(),
                heap::ordered_but_down(self.heap@.update(pos as int, slot), pos as int, 0),
                heap::distinct(self.heap@.update(pos as int, slot)),
                heap::linked_around(self.heap@, self.table(), pos as int, floor),
                heap::same_slots(self.heap@.update(pos as int, slot), start),
                table.contains_key(slot.index),
                slot.deadline > floor,
                heap::moved(self.heap@.update(pos as int, slot), table, self.table(), floor),
                forall|i: int| 0 <= i < hole ==> self.heap@[i] == old(self).heap@[i],
                forall|i: int|
                    hole <= i < self.heap@.len() && i != pos ==> (
                    #[trigger] self.heap@[i]).deadline > floor,
                self.due == old(self).due,
            ensures
                forall|i: int|
                    1 <= i < self.heap@.len() && #[trigger] heap::parent(i) == pos
                        ==> slot.deadline <= self.heap@[i].deadline,
            decreases self.heap@.len() - pos,
        {
            let child = match self.earliest_child(pos, slot.deadline) {
                Some(child) => child,
                None => break,
            };
            let down = self.heap[child];
            let ghost g = self.heap@.update(pos as int, slot);
            let ghost before = self.heap@;
            let ghost e = self.table();
            proof {
                assert(heap::seated(before, e, child as int, floor));
                heap::lemma_pull_up(g, pos as int, child as int, 0);
            }
            self.place(pos, down);
            proof {
                let h = self.heap@.update(child as int, slot);
                assert(h =~= heap::traded(g, pos as int, child as int));
                heap::lemma_traded(g, pos as int, child as int);
                heap::lemma_same_slots_trans(h, g, start);
                assert forall|i: int|
                    0 <= i < self.heap@.len() && i != child implies #[trigger] heap::seated(
                    self.heap@,
                    self.table(),
                    i,
                    floor,
                ) by {
                    if i != pos {
                        assert(heap::seated(before, e, i, floor));
                        assert(g[i].index != g[child as int].index);
                    }
                }
                heap::lemma_moved(g, h, table, e, floor, pos as int, Some(pos));
            }
            pos = child;
        }
        let ghost g = self.heap@.update(pos as int, slot);
        let ghost before = self.heap@;
        let ghost e = self.table();
        self.place(pos, slot);
        proof {
            assert forall|i: int| 1 <= i < g.len() implies #[trigger] heap::edge(g, i) by {
                assert(heap::parent(i) == pos || heap::parent(i) != pos);
            }
            assert forall|i: int| 0 <= i < g.len() implies #[trigger] heap::seated(
                g,
                self.table(),
                i,
                floor,
            ) by {
                if i != pos {
                    assert(heap::seated(before, e, i, floor));
                    assert(g[i].index != g[pos as int].index);
                }
            }
            heap::lemma_moved(g, g, table, e, floor, pos as int, Some(pos));
        }
    }

    /// [`sift_down`](Inner::sift_down) without maintaining [`Entry::pos`], for
    /// [`rebuild`](Inner::rebuild), which sets every position afterwards anyway.
    fn sift_down_detached(&mut self, hole: usize, slot: Slot)
        requires
            hole < old(self).heap@.len(),
            heap::ordered_but_down(
                old(self).heap@.update(hole as int, slot),
                hole as int,
                hole as int,
            ),
            heap::distinct(old(self).heap@.update(hole as int, slot)),
        ensures
            heap::ordered_from(final(self).heap@, hole as int),
            heap::distinct(final(self).heap@),
            heap::same_slots(final(self).heap@, old(self).heap@.update(hole as int, slot)),
            final(self).entries == old(self).entries,
            final(self).due == old(self).due,
    {
        let ghost start = self.heap@.update(hole as int, slot);
        let mut pos = hole;
        loop
            invariant
                hole <= pos < self.heap@.len(),
                heap::ordered_but_down(
                    self.heap@.update(pos as int, slot),
                    pos as int,
                    hole as int,
                ),
                heap::distinct(self.heap@.update(pos as int, slot)),
                heap::same_slots(self.heap@.update(pos as int, slot), start),
                self.entries == old(self).entries,
                self.due == old(self).due,
            ensures
                forall|i: int|
                    1 <= i < self.heap@.len() && #[trigger] heap::parent(i) == pos
                        ==> slot.deadline <= self.heap@[i].deadline,
            decreases self.heap@.len() - pos,
        {
            let child = match self.earliest_child(pos, slot.deadline) {
                Some(child) => child,
                None => break,
            };
            let ghost g = self.heap@.update(pos as int, slot);
            proof {
                heap::lemma_pull_up(g, pos as int, child as int, hole as int);
            }
            let down = self.heap[child];
            self.heap[pos] = down;
            proof {
                let h = self.heap@.update(child as int, slot);
                assert(h =~= heap::traded(g, pos as int, child as int));
                heap::lemma_traded(g, pos as int, child as int);
                heap::lemma_same_slots_trans(h, g, start);
            }
            pos = child;
        }
        self.heap[pos] = slot;
        proof {
            assert forall|i: int|
                1 <= i < self.heap@.len() && heap::parent(i) >= hole implies #[trigger] heap::edge(
                self.heap@,
                i,
            ) by {
                assert(heap::parent(i) == pos || heap::parent(i) != pos);
            }
        }
    }

    /// Seat `slot` in the hole at `pos`, moving the hole to wherever `slot`
    /// belongs.
    pub fn settle(&mut self, pos: usize, slot: Slot, Ghost(floor): Ghost<int>)
        requires
            pos < old(self).heap@.len(),
            heap::ordered_around(old(self).heap@, pos as int),
            heap::distinct(old(self).heap@.update(pos as int, slot)),
            heap::linked_around(old(self).heap@, old(self).table(), pos as int, floor),
            old(self).table().contains_key(slot.index),
            floor == -1 || ((pos == 0 || old(self).heap@[heap::parent(pos as int)].deadline
                <= slot.deadline) && slot.deadline > floor && forall|i: int|
                pos < i < old(self).heap@.len() ==> (#[trigger] old(self).heap@[i]).deadline
                    > floor),
        ensures
            heap::ordered(final(self).heap@),
            heap::distinct(final(self).heap@),
            heap::same_slots(final(self).heap@, old(self).heap@.update(pos as int, slot)),
            heap::linked(final(self).heap@, final(self).table(), floor),
            heap::moved(final(self).heap@, old(self).table(), final(self).table(), floor),
            floor != -1 ==> forall|i: int|
                0 <= i < pos ==> final(self).heap@[i] == old(self).heap@[i],
            floor != -1 ==> forall|i: int|
                pos <= i < final(self).heap@.len() ==> (#[trigger] final(self).heap@[i]).deadline
                    > floor,
            final(self).due == old(self).due,
    {
        let ghost h = self.heap@;
        let ghost g = h.update(pos as int, slot);
        proof {
            assert forall|i: int|
                1 <= i < g.len() && i != pos && heap::parent(i) != pos implies #[trigger] heap::edge(
                g,
                i,
            ) by {
                assert(heap::edge(h, i));
            }
            assert(heap::bridged(g, pos as int)) by {
                assert forall|c: int|
                    1 <= c < g.len() && pos >= 1 && #[trigger] heap::parent(c) == pos implies g[heap::parent(
                    pos as int,
                )].deadline <= g[c].deadline by {
                    assert(heap::bridged(h, pos as int));
                    assert(c != pos && heap::parent(pos as int) != pos);
                }
            }
        }
        if pos > 0 && self.heap[(pos - 1) / ARITY].deadline > slot.deadline {
            proof {
                assert forall|i: int| 1 <= i < g.len() && i != pos implies #[trigger] heap::edge(
                    g,
                    i,
                ) by {
                    if heap::parent(i) == pos {
                        assert(g[heap::parent(pos as int)].deadline <= g[i].deadline);
                    }
                }
            }
            self.sift_up(pos, slot);
        } else {
            proof {
                assert forall|i: int|
                    1 <= i < g.len() && heap::parent(i) != pos && heap::parent(i)
                        >= 0 implies #[trigger] heap::edge(g, i) by {
                    if i == pos {
                        assert(heap::parent(i) == (pos - 1) / ARITY as int);
                    }
                }
            }
            self.sift_down(pos, slot, Ghost(floor));
        }
    }

    pub fn push(&mut self, slot: Slot)
        requires
            old(self).wf(),
            old(self).table().contains_key(slot.index),
            !heap::names(old(self).heap@, slot.index),
        ensures
            final(self).wf(),
            heap::same_slots(final(self).heap@, old(self).heap@.push(slot)),
            heap::moved(final(self).heap@, old(self).table(), final(self).table(), -1),
    {
        let pos = self.heap.len();
        let ghost h = self.heap@;
        let ghost e = self.table();
        // Reserves the cell only; `sift_up` decides what actually lands there
        // and records the position once, when it stops.
        self.heap.push(slot);
        proof {
            let g = self.heap@;
            assert(g.update(pos as int, slot) =~= g);
            assert forall|i: int| 1 <= i < g.len() && i != pos implies #[trigger] heap::edge(
                g,
                i,
            ) by {
                assert(heap::edge(h, i));
            }
            assert forall|i: int| 0 <= i < g.len() && i != pos implies #[trigger] heap::seated(
                g,
                e,
                i,
                -1,
            ) by {
                assert(heap::seated(h, e, i, -1));
            }
        }
        self.sift_up(pos, slot);
        proof {
            assert forall|k: usize| #[trigger]
                self.table().contains_key(k) && !heap::names(
                    self.heap@,
                    k,
                ) implies self.table()[k].pos is None by {
                heap::lemma_same_names(self.heap@, h.push(slot), k);
                if heap::names(h, k) {
                    let i = choose|i: int| 0 <= i < h.len() && (#[trigger] h[i]).index == k;
                    assert(h.push(slot)[i].index == k);
                }
                assert(e.contains_key(k));
            }
        }
    }

    /// Take the slot at `pos` out of the heap, filling the hole with the last
    /// element and letting it settle.
    ///
    /// Does not touch the entry at `pos` — the caller has either just removed it
    /// from the slab or is about to mark it fired.
    pub fn unlink(&mut self, pos: usize, Ghost(floor): Ghost<int>)
        requires
            pos < old(self).heap@.len(),
            heap::ordered(old(self).heap@),
            heap::distinct(old(self).heap@),
            heap::linked_around(old(self).heap@, old(self).table(), pos as int, floor),
            floor == -1 || (old(self).heap@[pos as int].deadline <= floor && forall|i: int|
                pos < i < old(self).heap@.len() ==> (#[trigger] old(self).heap@[i]).deadline
                    > floor),
        ensures
            heap::ordered(final(self).heap@),
            heap::distinct(final(self).heap@),
            heap::lacks(final(self).heap@, old(self).heap@, pos as int),
            heap::linked(final(self).heap@, final(self).table(), floor),
            heap::moved(final(self).heap@, old(self).table(), final(self).table(), floor),
            floor != -1 ==> forall|i: int|
                0 <= i < pos ==> final(self).heap@[i] == old(self).heap@[i],
            floor != -1 ==> forall|i: int|
                pos <= i < final(self).heap@.len() ==> (#[trigger] final(self).heap@[i]).deadline
                    > floor,
            final(self).due == old(self).due,
    {
        let ghost h = self.heap@;
        let ghost e = self.table();
        let last = self.heap.pop().expect("pos indexes a non-empty heap");
        let ghost rest = self.heap@;
        proof {
            assert(rest == h.drop_last());
            assert forall|i: int| 1 <= i < rest.len() implies #[trigger] heap::edge(rest, i) by {
                assert(heap::edge(h, i));
            }
            assert forall|i: int| 0 <= i < rest.len() && i != pos implies #[trigger] heap::seated(
                rest,
                e,
                i,
                floor,
            ) by {
                assert(heap::seated(h, e, i, floor));
            }
            heap::lemma_drop_last(h);
        }
        if pos == self.heap.len() {
            return;
        }
        proof {
            heap::lemma_fill(h, pos as int);
            assert(heap::seated(h, e, h.len() - 1, floor));
            assert(heap::bridged(rest, pos as int)) by {
                assert forall|c: int|
                    1 <= c < rest.len() && pos >= 1 && #[trigger] heap::parent(c)
                        == pos implies rest[heap::parent(pos as int)].deadline
                    <= rest[c].deadline by {
                    assert(heap::edge(h, c));
                    assert(heap::edge(h, pos as int));
                }
            }
            if pos > 0 {
                assert(heap::edge(h, pos as int));
            }
        }
        self.settle(pos, last, Ghost(floor));
    }

    /// Drop the slots of fired entries from the heap, keeping the others in the
    /// order they were in.
    fn retain_armed(&mut self, Ghost(floor): Ghost<int>)
        requires
            heap::distinct(old(self).heap@),
            heap::linked(old(self).heap@, old(self).table(), floor),
            forall|i: int|
                0 <= i < old(self).heap@.len() && (#[trigger] old(self).heap@[i]).deadline <= floor
                    ==> old(self).table()[old(self).heap@[i].index].pos is None,
        ensures
            heap::distinct(final(self).heap@),
            final(self).heap@.len() <= old(self).heap@.len(),
            forall|s: Slot| #[trigger]
                final(self).heap@.contains(s) <==> old(self).heap@.contains(s) && s.deadline
                    > floor,
            final(self).entries == old(self).entries,
            final(self).due == old(self).due,
    {
        let ghost h = self.heap@;
        let len = self.heap.len();
        let mut kept: usize = 0;
        let mut read: usize = 0;
        while read < len
            invariant
                kept <= read <= len,
                len == h.len(),
                self.heap@.len() == len,
                heap::distinct(h),
                heap::linked(h, self.table(), floor),
                forall|i: int|
                    0 <= i < h.len() && (#[trigger] h[i]).deadline <= floor
                        ==> self.table()[h[i].index].pos is None,
                forall|i: int| read <= i < len ==> self.heap@[i] == h[i],
                forall|i: int|
                    0 <= i < kept ==> (#[trigger] self.heap@[i]).deadline > floor && h.contains(
                        self.heap@[i],
                    ),
                forall|i: int|
                    0 <= i < read && (#[trigger] h[i]).deadline > floor ==> self.heap@.take(
                        kept as int,
                    ).contains(h[i]),
                heap::distinct(self.heap@.take(kept as int)),
                forall|i: int, j: int|
                    0 <= i < kept && read <= j < len ==> (#[trigger] self.heap@[i]).index != (
                    #[trigger] h[j]).index,
                self.entries == old(self).entries,
                self.due == old(self).due,
            decreases len - read,
        {
            let slot = self.heap[read];
            proof {
                assert(heap::seated(h, self.table(), read as int, floor));
            }
            if slab_at(&self.entries, slot.index).pos.is_some() {
                let ghost whole = self.heap@;
                let ghost before = whole.take(kept as int);
                self.heap[kept] = slot;
                proof {
                    let after = self.heap@.take(kept + 1);
                    assert(after =~= before.push(slot));
                    assert(h.contains(h[read as int]));
                    assert forall|i: int|
                        0 <= i < read + 1 && (#[trigger] h[i]).deadline
                            > floor implies after.contains(h[i]) by {
                        if i == read {
                            assert(after[kept as int] == h[i]);
                        } else {
                            assert(before.contains(h[i]));
                            let m = choose|m: int| 0 <= m < before.len() && before[m] == h[i];
                            assert(after[m] == h[i]);
                        }
                    }
                    assert forall|i: int, j: int|
                        0 <= i < kept && read <= j < len implies (#[trigger] after[i]).index != (
                    #[trigger] h[j]).index by {
                        assert(whole[i] == after[i]);
                    }
                    assert forall|i: int, j: int|
                        0 <= i < after.len() && 0 <= j < after.len() && i != j implies (
                    #[trigger] after[i]).index != (#[trigger] after[j]).index by {
                        if i < kept && j < kept {
                            assert(before[i].index != before[j].index);
                        } else if i < kept {
                            assert(h[read as int] == slot && after[i] == before[i]);
                        } else {
                            assert(h[read as int] == slot && after[j] == before[j]);
                        }
                    }
                }
                kept += 1;
            }
            read += 1;
        }
        let ghost front = self.heap@.take(kept as int);
        self.heap.truncate(kept);
        proof {
            assert(self.heap@ =~= front);
            assert forall|s: Slot| #[trigger] self.heap@.contains(s) <==> h.contains(s) && s.deadline
                > floor by {
                if self.heap@.contains(s) {
                    let i = choose|i: int| 0 <= i < self.heap@.len() && self.heap@[i] == s;
                }
                if h.contains(s) && s.deadline > floor {
                    let i = choose|i: int| 0 <= i < h.len() && h[i] == s;
                    assert(front.contains(h[i]));
                }
            }
        }
    }

    /// Drop every fired slot and re-heapify what is left, bottom-up.
    ///
    /// Floyd's method: sifting down from the last internal node backwards makes
    /// each subtree a heap before its parent is considered, in `O(n)` rather
    /// than the `O(n log n)` of inserting them one at a time. Positions are
    /// written once at the end instead of at every step of every sift, which is
    /// most of the saving.
    fn rebuild(&mut self, Ghost(floor): Ghost<int>)
        requires
            heap::distinct(old(self).heap@),
            heap::linked(old(self).heap@, old(self).table(), floor),
            forall|i: int|
                0 <= i < old(self).heap@.len() && (#[trigger] old(self).heap@[i]).deadline <= floor
                    ==> old(self).table()[old(self).heap@[i].index].pos is None,
        ensures
            heap::ordered(final(self).heap@),
            heap::distinct(final(self).heap@),
            forall|s: Slot| #[trigger]
                final(self).heap@.contains(s) <==> old(self).heap@.contains(s) && s.deadline
                    > floor,
            heap::linked(final(self).heap@, final(self).table(), -1),
            heap::moved(final(self).heap@, old(self).table(), final(self).table(), -1),
            final(self).due == old(self).due,
    {
        let ghost h = self.heap@;
        let ghost e = self.table();
        self.retain_armed(Ghost(floor));
        let ghost kept = self.heap@;
        let len = self.heap.len();
        if len > 1 {
            // `(len - 2) / ARITY` is the parent of the last element, and so the
            // last node with any children at all.
            let mut next = (len - 2) / ARITY + 1;
            while next > 0
                invariant
                    next <= len,
                    len == self.heap@.len(),
                    heap::ordered_from(self.heap@, next as int),
                    heap::distinct(self.heap@),
                    heap::same_slots(self.heap@, kept),
                    self.entries == old(self).entries,
                    self.due == old(self).due,
                decreases next,
            {
                let pos = next - 1;
                let slot = self.heap[pos];
                proof {
                    assert(self.heap@.update(pos as int, slot) =~= self.heap@);
                }
                let ghost before = self.heap@;
                self.sift_down_detached(pos, slot);
                proof {
                    heap::lemma_same_slots_trans(self.heap@, before, kept);
                }
                next = pos;
            }
        }
        let ghost done = self.heap@;
        proof {
            assert(heap::ordered(done));
            assert forall|i: int| 0 <= i < done.len() implies e.contains_key(
                (#[trigger] done[i]).index,
            ) by {
                assert(done.contains(done[i]));
                assert(kept.contains(done[i]));
                assert(h.contains(done[i]));
                let m = choose|m: int| 0 <= m < h.len() && h[m] == done[i];
                assert(heap::seated(h, e, m, floor));
            }
        }
        let mut pos: usize = 0;
        while pos < len
            invariant
                pos <= len,
                len == done.len(),
                self.heap@ == done,
                heap::distinct(done),
                forall|i: int| 0 <= i < done.len() ==> e.contains_key((#[trigger] done[i]).index),
                forall|i: int|
                    0 <= i < pos ==> self.table()[(#[trigger] done[i]).index].pos == Some(
                        i as usize,
                    ),
                heap::moved(done, e, self.table(), -1),
                self.due == old(self).due,
            decreases len - pos,
        {
            let index = self.heap[pos].index;
            let ghost before = self.table();
            slab_at_mut(&mut self.entries, index).pos = Some(pos);
            proof {
                heap::lemma_moved(done, done, e, before, -1, pos as int, Some(pos));
            }
            pos += 1;
        }
        proof {
            assert forall|i: int| 0 <= i < done.len() implies #[trigger] heap::seated(
                done,
                self.table(),
                i,
                -1,
            ) by {
                assert(e.contains_key(done[i].index));
            }
            assert forall|s: Slot| #[trigger] self.heap@.contains(s) <==> h.contains(s) && s.deadline
                > floor by {
                assert(kept.contains(s) <==> done.contains(s));
            }
        }
    }

    /// Collect into `due` the position of every slot due at `now`, in order.
    ///
    /// Breadth-first from the root, descending only through nodes that are
    /// themselves due: a node is never later than its children, so a node that
    /// is not due has no due descendants. `due` doubles as the queue and the
    /// result, which also means it comes out in ascending order — a
    /// breadth-first walk of a heap array visits positions in order, because one
    /// node's children all precede the next node's.
    fn find_due(&self, now: u64, due: &mut Vec<usize>)
        requires
            heap::ordered(self.heap@),
            0 < self.heap@.len(),
            self.heap@[0].deadline <= now,
        ensures
            heap::ascending(final(due)@),
            heap::all_due(self.heap@, final(due)@, now),
            forall|p: int|
                0 <= p < self.heap@.len() && (#[trigger] self.heap@[p]).deadline <= now
                    ==> final(due)@.contains(p as usize),
            final(due)@.len() <= self.heap@.len(),
            final(due)@.len() > 0,
    {
        let len = self.heap.len();
        due.clear();
        due.push(0);
        proof {
            assert(due@[0] == 0);
        }
        let mut read: usize = 0;
        while read < due.len()
            invariant
                len == self.heap@.len(),
                len > 0,
                read <= due@.len() <= len,
                due@.len() >= 1,
                due@[0] == 0,
                heap::ascending(due@),
                heap::all_due(self.heap@, due@, now),
                heap::explored(self.heap@, due@, read as int, now),
                forall|i: int| 0 <= i < due@.len() ==> i <= #[trigger] due@[i],
                read == 0 ==> due@.len() == 1,
                read > 0 ==> due@.last() <= ARITY * due@[read - 1] + ARITY,
            decreases len - read,
        {
            let pos = due[read];
            let ghost queue = due@;
            if len >= 2 && pos <= (len - 2) / ARITY {
                let first = pos * ARITY + 1;
                let last = if len - first < ARITY { len } else { first + ARITY };
                let mut child = first;
                while child < last
                    invariant
                        len == self.heap@.len(),
                        first == pos * ARITY + 1,
                        first <= child <= last <= len,
                        last <= first + ARITY,
                        read < queue.len() <= due@.len(),
                        forall|i: int| 0 <= i < queue.len() ==> due@[i] == queue[i],
                        queue.last() < first,
                        heap::ascending(due@),
                        heap::all_due(self.heap@, due@, now),
                        forall|i: int| 0 <= i < due@.len() ==> i <= #[trigger] due@[i],
                        due@.last() < child,
                        forall|c: int|
                            first <= c < child && (#[trigger] self.heap@[c]).deadline <= now
                                ==> due@.contains(c as usize),
                    decreases last - child,
                {
                    let ghost before = due@;
                    if self.heap[child].deadline <= now {
                        due.push(child);
                        proof {
                            assert(due@[before.len() as int] == child);
                            assert forall|c: int|
                                first <= c < child && (#[trigger] self.heap@[c]).deadline
                                    <= now implies due@.contains(c as usize) by {
                                let m = choose|m: int|
                                    0 <= m < before.len() && before[m] == c as usize;
                                assert(due@[m] == c as usize);
                            }
                        }
                    }
                    child += 1;
                }
            }
            proof {
                assert forall|r: int, c: int|
                    0 <= r < read + 1 && 1 <= c < self.heap@.len() && heap::parent(c) == (
                    #[trigger] due@[r]) && (#[trigger] self.heap@[c]).deadline
                        <= now implies due@.contains(c as usize) by {
                    if r < read {
                        assert(queue[r] == due@[r]);
                        assert(queue.contains(c as usize));
                        let m = choose|m: int| 0 <= m < queue.len() && queue[m] == c as usize;
                        assert(due@[m] == c as usize);
                    }
                }
                assert(due@.last() < len);
                assert(due@.len() - 1 <= due@[due@.len() - 1]);
            }
            read += 1;
        }
        proof {
            assert(due@.contains(0usize));
            assert forall|p: int|
                0 <= p < self.heap@.len() && (#[trigger] self.heap@[p]).deadline
                    <= now implies due@.contains(p as usize) by {
                heap::lemma_explored_is_all(self.heap@, due@, now, p);
            }
        }
    }

    /// Mark the timers at the positions in `due` fired, collecting the wakers of
    /// those anybody was waiting on.
    fn fire(&mut self, due: &Vec<usize>, ready: &mut Vec<Waker>, Ghost(now): Ghost<u64>)
        requires
            heap::distinct(old(self).heap@),
            heap::linked(old(self).heap@, old(self).table(), -1),
            heap::ascending(due@),
            heap::all_due(old(self).heap@, due@, now),
        ensures
            final(self).heap == old(self).heap,
            final(self).due == old(self).due,
            final(self).table().dom() == old(self).table().dom(),
            forall|k: usize| #[trigger]
                final(self).table().contains_key(k) ==> final(self).table()[k] == (
                if heap::named_by(old(self).heap@, due@).contains(k) {
                    Entry { pos: None, waker: None }
                } else {
                    old(self).table()[k]
                }),
            final(ready)@ == old(ready)@ + heap::wakers(
                old(self).table(),
                heap::named_by(old(self).heap@, due@),
            ),
    {
        let ghost h = self.heap@;
        let ghost e = self.table();
        let ghost order = heap::named_by(h, due@);
        let mut i: usize = 0;
        proof {
            assert(order.take(0) =~= Seq::<usize>::empty());
            assert(ready@ + heap::wakers(e, order.take(0)) =~= ready@);
        }
        while i < due.len()
            invariant
                i <= due@.len(),
                order == heap::named_by(h, due@),
                h == self.heap@,
                self.heap == old(self).heap,
                self.due == old(self).due,
                heap::distinct(h),
                heap::linked(h, e, -1),
                heap::ascending(due@),
                heap::all_due(h, due@, now),
                self.table().dom() == e.dom(),
                forall|k: usize| #[trigger]
                    self.table().contains_key(k) ==> self.table()[k] == (if order.take(
                        i as int,
                    ).contains(k) {
                        Entry { pos: None, waker: None }
                    } else {
                        e[k]
                    }),
                ready@ == old(ready)@ + heap::wakers(e, order.take(i as int)),
            decreases due@.len() - i,
        {
            let pos = due[i];
            let index = self.heap[pos].index;
            let ghost before = self.table();
            let ghost woken = ready@;
            proof {
                assert(heap::seated(h, e, pos as int, -1));
                assert(!order.take(i as int).contains(index)) by {
                    if order.take(i as int).contains(index) {
                        let j = choose|j: int| 0 <= j < i && order[j] == index;
                        assert(due@[j] < due@[i as int]);
                        assert(h[due@[j] as int].index != h[due@[i as int] as int].index);
                    }
                }
            }
            let entry = slab_at_mut(&mut self.entries, index);
            entry.pos = None;
            let waker = entry.waker.take();
            if let Some(waker) = waker {
                ready.push(waker);
            }
            proof {
                let taken = order.take(i + 1);
                assert(taken =~= order.take(i as int).push(index));
                assert(taken.drop_last() =~= order.take(i as int));
                assert(self.table().dom() =~= e.dom());
                assert forall|k: usize| #[trigger]
                    self.table().contains_key(k) implies self.table()[k] == (if taken.contains(k) {
                    Entry { pos: None, waker: None }
                } else {
                    e[k]
                }) by {
                    if k == index {
                        assert(taken[i as int] == k);
                    } else {
                        assert(before.contains_key(k));
                        if order.take(i as int).contains(k) {
                            let m = choose|m: int| 0 <= m < i && order[m] == k;
                            assert(taken[m] == k);
                        }
                        if taken.contains(k) {
                            let m = choose|m: int| 0 <= m < taken.len() && taken[m] == k;
                            assert(order.take(i as int)[m] == k);
                        }
                    }
                }
                assert(ready@ =~= old(ready)@ + heap::wakers(e, taken));
            }
            i += 1;
        }
        proof {
            assert(order.take(due@.len() as int) =~= order);
        }
    }

    /// Take the slots at the positions in `due`, which are fired already, out of
    /// the heap one by one.
    ///
    /// Descending, which keeps every unlink below the positions still queued:
    /// the survivor pulled in from the tail always comes from above the current
    /// position, and the parent it is compared against is itself still-due and
    /// so no later than it — meaning the sift up stops at once and the sift down
    /// stays clear of the rest.
    fn unlink_fired(&mut self, due: &Vec<usize>, Ghost(now): Ghost<u64>)
        requires
            heap::ordered(old(self).heap@),
            heap::distinct(old(self).heap@),
            heap::linked(old(self).heap@, old(self).table(), now as int),
            heap::ascending(due@),
            heap::all_due(old(self).heap@, due@, now),
            forall|p: int|
                0 <= p < old(self).heap@.len() && (#[trigger] old(self).heap@[p]).deadline <= now
                    ==> due@.contains(p as usize),
        ensures
            heap::ordered(final(self).heap@),
            heap::distinct(final(self).heap@),
            forall|s: Slot| #[trigger]
                final(self).heap@.contains(s) <==> old(self).heap@.contains(s) && s.deadline > now,
            heap::linked(final(self).heap@, final(self).table(), -1),
            heap::moved(final(self).heap@, old(self).table(), final(self).table(), -1),
            final(self).due == old(self).due,
    {
        let ghost h = self.heap@;
        let ghost e = self.table();
        let ghost floor = now as int;
        let mut left = due.len();
        proof {
            assert(due@.take(left as int) =~= due@);
        }
        while left > 0
            invariant
                floor == now as int,
                left <= due@.len(),
                heap::ordered(self.heap@),
                heap::distinct(self.heap@),
                heap::linked(self.heap@, self.table(), floor),
                heap::moved(self.heap@, e, self.table(), floor),
                heap::ascending(due@),
                forall|i: int|
                    0 <= i < left ==> (#[trigger] due@[i]) < self.heap@.len()
                        && self.heap@[due@[i] as int].deadline <= now,
                forall|p: int|
                    0 <= p < self.heap@.len() && (#[trigger] self.heap@[p]).deadline <= now
                        ==> due@.take(left as int).contains(p as usize),
                forall|s: Slot| #[trigger]
                    self.heap@.contains(s) && s.deadline > now <==> h.contains(s) && s.deadline
                        > now,
                self.due == old(self).due,
            decreases left,
        {
            let ghost queued = due@.take(left as int);
            left -= 1;
            let pos = due[left];
            let ghost before = self.heap@;
            let ghost table = self.table();
            proof {
                assert(before.len() == self.heap.len());
                assert forall|i: int| pos < i < before.len() implies (#[trigger] before[i]).deadline
                    > floor by {
                    if before[i].deadline <= now {
                        assert(queued.contains(i as usize));
                        let m = choose|m: int| 0 <= m < queued.len() && queued[m] == i as usize;
                        assert(due@[m] <= due@[left as int]);
                    }
                }
            }
            self.unlink(pos, Ghost(floor));
            proof {
                assert forall|i: int| 0 <= i < left implies (#[trigger] due@[i]) < self.heap@.len()
                    && self.heap@[due@[i] as int].deadline <= now by {
                    assert(due@[i] < due@[left as int]);
                }
                assert forall|p: int|
                    0 <= p < self.heap@.len() && (#[trigger] self.heap@[p]).deadline
                        <= now implies due@.take(left as int).contains(p as usize) by {
                    assert(p < pos);
                    assert(before[p].deadline <= now);
                    assert(queued.contains(p as usize));
                    let m = choose|m: int| 0 <= m < queued.len() && queued[m] == p as usize;
                    assert(m != left);
                    assert(due@.take(left as int)[m] == p as usize);
                }
                assert forall|s: Slot| #[trigger]
                    self.heap@.contains(s) && s.deadline > now <==> h.contains(s) && s.deadline
                        > now by {
                    assert(before.contains(s) && s.deadline > now <==> h.contains(s) && s.deadline
                        > now);
                }
                heap::lemma_moved_trans(before, self.heap@, e, table, self.table(), floor);
            }
        }
        proof {
            assert forall|p: int| 0 <= p < self.heap@.len() implies (#[trigger] self.heap@[p]).deadline
                > now by {
                if self.heap@[p].deadline <= now {
                    assert(due@.take(0).contains(p as usize));
                }
            }
            assert forall|i: int| 0 <= i < self.heap@.len() implies #[trigger] heap::seated(
                self.heap@,
                self.table(),
                i,
                -1,
            ) by {
                assert(heap::seated(self.heap@, self.table(), i, floor));
            }
            assert forall|s: Slot| #[trigger] self.heap@.contains(s) <==> h.contains(s) && s.deadline
                > now by {
                if self.heap@.contains(s) {
                    let i = choose|i: int| 0 <= i < self.heap@.len() && self.heap@[i] == s;
                    assert(self.heap@[i].deadline > now);
                }
                assert(self.heap@.contains(s) && s.deadline > now <==> h.contains(s) && s.deadline
                    > now);
            }
            assert forall|k: usize| #[trigger]
                self.table().contains_key(k) && (forall|i: int|
                    0 <= i < self.heap@.len() && (#[trigger] self.heap@[i]).index == k
                        ==> self.heap@[i].deadline <= -1) implies self.table()[k] == e[k] by {
                assert(forall|i: int|
                    0 <= i < self.heap@.len() && (#[trigger] self.heap@[i]).index == k
                        ==> self.heap@[i].deadline <= floor);
            }
        }
    }

    /// Take every timer due at `now` out of the heap, collecting the wakers of
    /// those anybody was waiting on. Returns how many were taken.
    pub fn take_due(&mut self, now: u64, ready: &mut Vec<Waker>) -> (fired: usize)
        requires
            old(self).wf(),
        ensures
            final(self).wf(),
            forall|s: Slot| #[trigger]
                final(self).heap@.contains(s) <==> old(self).heap@.contains(s) && s.deadline > now,
            final(self).table().dom() == old(self).table().dom(),
            exists|order: Seq<usize>|
                {
                    &&& #[trigger] heap::lists_due(old(self).heap@, order, now)
                    &&& fired == order.len()
                    &&& final(ready)@ == old(ready)@ + heap::wakers(old(self).table(), order)
                    &&& forall|k: usize| #[trigger]
                        final(self).table().contains_key(k) ==> final(self).table()[k].waker == (
                        if order.contains(k) {
                            None
                        } else {
                            old(self).table()[k].waker
                        })
                },
    {
        let ghost h = self.heap@;
        let ghost e = self.table();
        if self.heap.len() == 0 || self.heap[0].deadline > now {
            proof {
                let order = Seq::<usize>::empty();
                assert forall|i: int| 0 <= i < h.len() implies (#[trigger] h[i]).deadline > now by {
                    heap::lemma_root_is_earliest(h, i);
                }
                assert(heap::lists_due(h, order, now));
                assert(ready@ + heap::wakers(e, order) =~= ready@);
            }
            return 0;
        }
        let mut due: Vec<usize> = Vec::new();
        std::mem::swap(&mut due, &mut self.due);
        self.find_due(now, &mut due);
        let ghost order = heap::named_by(h, due@);
        proof {
            heap::lemma_lists_due(h, due@, now);
        }

        // Mark them fired and collect the wakers before touching the heap, while
        // the recorded positions still describe it.
        self.fire(&due, ready, Ghost(now));
        let ghost marked = self.table();
        proof {
            assert forall|i: int| 0 <= i < h.len() implies #[trigger] heap::seated(
                h,
                marked,
                i,
                now as int,
            ) by {
                assert(heap::seated(h, e, i, -1));
                assert(marked.contains_key(h[i].index));
                if h[i].deadline > now && order.contains(h[i].index) {
                    let j = choose|j: int|
                        0 <= j < h.len() && (#[trigger] h[j]).index == h[i].index && h[j].deadline
                            <= now;
                    assert(i == j);
                }
            }
            assert forall|i: int| 0 <= i < h.len() && (#[trigger] h[i]).deadline
                <= now implies marked[h[i].index].pos is None by {
                assert(heap::seated(h, e, i, -1));
                assert(marked.contains_key(h[i].index));
                assert(order.contains(h[i].index));
            }
        }

        let fired = due.len();
        if fired <= (self.heap.len() - 1) / REBUILD_RATIO {
            self.unlink_fired(&due, Ghost(now));
        } else {
            self.rebuild(Ghost(now as int));
        }
        proof {
            assert forall|k: usize| #[trigger]
                self.table().contains_key(k) && !heap::names(
                    self.heap@,
                    k,
                ) implies self.table()[k].pos is None by {
                assert(marked.contains_key(k));
                assert(self.table()[k] == marked[k]);
                if !order.contains(k) && heap::names(h, k) {
                    let i = choose|i: int| 0 <= i < h.len() && (#[trigger] h[i]).index == k;
                    assert(h.contains(h[i]));
                    assert(h[i].deadline > now);
                    assert(self.heap@.contains(h[i]));
                    let j = choose|j: int| 0 <= j < self.heap@.len() && self.heap@[j] == h[i];
                    assert(self.heap@[j].index == k);
                }
            }
            assert forall|k: usize| #[trigger]
                self.table().contains_key(k) implies self.table()[k].waker == (if order.contains(
                k,
            ) {
                None
            } else {
                e[k].waker
            }) by {
                assert(marked.contains_key(k));
            }
        }
        self.due = due;
        proof {
            assert(heap::lists_due(h, order, now));
        }
        fired
    }
}

} // verus!
