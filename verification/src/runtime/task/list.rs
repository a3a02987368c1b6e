//! A doubly linked list of tasks, and a registry kept in one.
//!
//! The links are kept by task, so that binding and releasing a task touches
//! nothing but its neighbours.

use vstd::prelude::*;

use super::owned::RawTask;

verus! {

/// Previous and next task in the list.
#[derive(Clone, Copy, Debug, PartialEq, Eq, Structural)]
pub struct Pointers {
    /// The previous node in the list. `None` if there is no previous node.
    prev: Option<usize>,
    /// The next node in the list. `None` if there is no next node.
    next: Option<usize>,
}

impl Pointers {
    /// The pointers of a node in no list.
    pub fn new() -> (pointers: Pointers)
        ensures
            pointers == unlinked(),
    {
        Pointers { prev: None, next: None }
    }
}

/// The pointers of a node in no list.
pub closed spec fn unlinked() -> Pointers {
    Pointers { prev: None, next: None }
}

/// The node before place `i` of the order, if any.
spec fn before(order: Seq<usize>, i: int) -> Option<usize> {
    if i == 0 {
        None
    } else {
        Some(order[i - 1])
    }
}

/// The node after place `i` of the order, if any.
spec fn behind(order: Seq<usize>, i: int) -> Option<usize> {
    if i == order.len() - 1 {
        None
    } else {
        Some(order[i + 1])
    }
}

/// Every node of the order points at its neighbours.
spec fn linked(nodes: Seq<Pointers>, order: Seq<usize>) -> bool {
    forall|i: int|
        0 <= i < order.len() ==> #[trigger] order[i] < nodes.len() && nodes[order[i] as int] == (
        Pointers { prev: before(order, i), next: behind(order, i) })
}

/// Every other node points nowhere.
spec fn others_unlinked(nodes: Seq<Pointers>, order: Seq<usize>) -> bool {
    forall|k: usize|
        k < nodes.len() && !order.contains(k) ==> #[trigger] nodes[k as int] == unlinked()
}

/// The pointers once the node at place `at` has been taken out: its neighbours
/// point at each other, and it points nowhere.
spec fn bypassed(nodes: Seq<Pointers>, order: Seq<usize>, at: int) -> Seq<Pointers> {
    let a = if at > 0 {
        nodes.update(
            order[at - 1] as int,
            Pointers { next: behind(order, at), ..nodes[order[at - 1] as int] },
        )
    } else {
        nodes
    };
    let b = if at < order.len() - 1 {
        a.update(
            order[at + 1] as int,
            Pointers { prev: before(order, at), ..a[order[at + 1] as int] },
        )
    } else {
        a
    };
    b.update(order[at] as int, unlinked())
}

/// Bypassing a node takes it out of the order.
proof fn lemma_bypassed(nodes: Seq<Pointers>, order: Seq<usize>, at: int)
    requires
        order.no_duplicates(),
        linked(nodes, order),
        others_unlinked(nodes, order),
        0 <= at < order.len(),
    ensures
        order.remove(at).no_duplicates(),
        linked(bypassed(nodes, order, at), order.remove(at)),
        others_unlinked(bypassed(nodes, order, at), order.remove(at)),
{
    let rest = order.remove(at);
    let after = bypassed(nodes, order, at);
    let node = order[at];
    assert(node < nodes.len());
    if at > 0 {
        assert(order[at - 1] < nodes.len());
    }
    if at < order.len() - 1 {
        assert(order[at + 1] < nodes.len());
    }
    assert forall|i: int, j: int| 0 <= i < j < rest.len() implies rest[i] != rest[j] by {
        let a = if i < at {
            i
        } else {
            i + 1
        };
        let b = if j < at {
            j
        } else {
            j + 1
        };
        assert(rest[i] == order[a]);
        assert(rest[j] == order[b]);
    }
    assert forall|i: int| 0 <= i < rest.len() implies #[trigger] rest[i] < after.len()
        && after[rest[i] as int] == (Pointers {
        prev: before(rest, i),
        next: behind(rest, i),
    }) by {
        let a = if i < at {
            i
        } else {
            i + 1
        };
        assert(rest[i] == order[a]);
        assert(order[a] != node);
        assert(nodes[order[a] as int] == (Pointers {
            prev: before(order, a),
            next: behind(order, a),
        }));
        if at > 0 && a != at - 1 {
            assert(order[a] != order[at - 1]);
        }
        if at < order.len() - 1 && a != at + 1 {
            assert(order[a] != order[at + 1]);
        }
    }
    assert forall|k: usize| k < after.len() && !rest.contains(k) implies #[trigger] after[k as int]
        == unlinked() by {
        if k != node {
            if order.contains(k) {
                let i = choose|i: int| 0 <= i < order.len() && order[i] == k;
                if i < at {
                    assert(rest[i] == k);
                } else {
                    assert(rest[i - 1] == k);
                }
            }
            assert(nodes[k as int] == unlinked());
            if at > 0 {
                assert(order.contains(order[at - 1]));
            }
            if at < order.len() - 1 {
                assert(order.contains(order[at + 1]));
            }
        }
    }
}

/// A linked list of tasks.
pub struct LinkedList {
    head: Option<usize>,
    tail: Option<usize>,
    /// The pointers of each task, by its place.
    nodes: Vec<Pointers>,
    /// The tasks from front to back.
    order: Ghost<Seq<usize>>,
}

impl View for LinkedList {
    type V = Seq<usize>;

    closed spec fn view(&self) -> Seq<usize> {
        self.order@
    }
}

impl LinkedList {
    /// Every node of the list points at its neighbours, and a node that is not in
    /// the list points nowhere.
    pub closed spec fn wf(&self) -> bool {
        &&& self.order@.no_duplicates()
        &&& self.head == if self.order@.len() == 0 {
            None
        } else {
            Some(self.order@[0])
        }
        &&& self.tail == if self.order@.len() == 0 {
            None
        } else {
            Some(self.order@.last())
        }
        &&& linked(self.nodes@, self.order@)
        &&& others_unlinked(self.nodes@, self.order@)
    }

    /// A task is in the list once.
    pub proof fn lemma_no_duplicates(&self)
        requires
            self.wf(),
        ensures
            self@.no_duplicates(),
    {
    }

    /// A list with nothing in it.
    pub fn new() -> (list: LinkedList)
        ensures
            list.wf(),
            list@ == Seq::<usize>::empty(),
    {
        LinkedList { head: None, tail: None, nodes: Vec::new(), order: Ghost(Seq::empty()) }
    }

    /// Make sure the task has pointers.
    fn reserve(&mut self, place: usize)
        requires
            old(self).wf(),
            place < usize::MAX,
        ensures
            final(self).wf(),
            final(self)@ == old(self)@,
            place < final(self).nodes@.len(),
    {
        while self.nodes.len() <= place
            invariant
                self.wf(),
                self@ == old(self)@,
                place < usize::MAX,
            decreases place + 1 - self.nodes@.len(),
        {
            let ghost held = *self;
            self.nodes.push(Pointers::new());
            proof {
                assert forall|i: int| 0 <= i < self.order@.len() implies #[trigger] self.order@[i]
                    < self.nodes@.len() && self.nodes@[self.order@[i] as int] == (Pointers {
                    prev: before(self.order@, i),
                    next: behind(self.order@, i),
                }) by {
                    assert(held.order@[i] < held.nodes@.len());
                }
                assert forall|k: usize|
                    k < self.nodes@.len() && !self.order@.contains(
                        k,
                    ) implies #[trigger] self.nodes@[k as int] == unlinked() by {
                    if k < held.nodes@.len() {
                        assert(held.nodes@[k as int] == unlinked());
                    }
                }
            }
        }
    }

    /// Adds a task to the front of the list.
    pub fn push_front(&mut self, task: RawTask)
        requires
            old(self).wf(),
            !old(self)@.contains(task.place),
            task.place < usize::MAX,
        ensures
            final(self).wf(),
            final(self)@ == seq![task.place] + old(self)@,
            final(self)@.no_duplicates(),
    {
        let ptr = task.place;
        self.reserve(ptr);
        let ghost held = *self;
        let ghost was = self.order@;
        let ghost order = seq![ptr] + was;

        self.nodes[ptr] = Pointers { prev: None, next: self.head };
        match self.head {
            Some(head) => {
                proof {
                    assert(was[0] == head);
                    assert(was.contains(head));
                }
                self.nodes[head].prev = Some(ptr);
            },
            None => {},
        }
        self.head = Some(ptr);
        if self.tail.is_none() {
            self.tail = Some(ptr);
        }
        self.order = Ghost(order);
        proof {
            assert forall|i: int, j: int| 0 <= i < j < order.len() implies order[i] != order[j] by {
                assert(order[j] == was[j - 1]);
                assert(was.contains(was[j - 1]));
                if i > 0 {
                    assert(order[i] == was[i - 1]);
                }
            }
            assert forall|i: int| 0 <= i < order.len() implies #[trigger] order[i]
                < self.nodes@.len() && self.nodes@[order[i] as int] == (Pointers {
                prev: before(order, i),
                next: behind(order, i),
            }) by {
                if i > 0 {
                    let old_i = i - 1;
                    assert(order[i] == was[old_i]);
                    assert(was.contains(was[old_i]));
                    assert(held.nodes@[was[old_i] as int] == (Pointers {
                        prev: before(was, old_i),
                        next: behind(was, old_i),
                    }));
                    if old_i > 0 {
                        assert(was[old_i] != was[0]);
                        assert(order[i - 1] == was[old_i - 1]);
                    }
                    if i < order.len() - 1 {
                        assert(order[i + 1] == was[old_i + 1]);
                    }
                } else if was.len() > 0 {
                    assert(order[1] == was[0]);
                }
            }
            assert forall|k: usize|
                k < self.nodes@.len() && !order.contains(k) implies #[trigger] self.nodes@[k as int]
                == unlinked() by {
                if was.contains(k) {
                    let i = choose|i: int| 0 <= i < was.len() && was[i] == k;
                    assert(order[i + 1] == k);
                }
                assert(order[0] == ptr);
                assert(held.nodes@[k as int] == unlinked());
            }
            if was.len() > 0 {
                assert(order.last() == was.last());
            }
        }
    }

    /// Removes the last task from the list and returns it, or `None` if the list
    /// is empty.
    pub fn pop_back(&mut self) -> (task: Option<RawTask>)
        requires
            old(self).wf(),
        ensures
            final(self).wf(),
            match task {
                Some(task) => old(self)@.len() > 0 && task.place == old(self)@.last()
                    && final(self)@ == old(self)@.drop_last() && !final(self)@.contains(task.place),
                None => old(self)@.len() == 0 && final(self)@ == old(self)@,
            },
    {
        let last = match self.tail {
            Some(last) => last,
            None => {
                return None;
            },
        };
        proof {
            assert(self.order@.contains(last)) by {
                assert(self.order@[self.order@.len() - 1] == last);
            }
            let n = self.order@.len() - 1;
            assert(self.order@.remove(n) =~= self.order@.drop_last());
            self.lemma_unique(last, n);
        }
        self.remove(RawTask { place: last })
    }

    /// A task is in the list in one place only.
    proof fn lemma_unique(&self, k: usize, i: int)
        requires
            self.wf(),
            0 <= i < self.order@.len(),
            self.order@[i] == k,
        ensures
            forall|j: int| 0 <= j < self.order@.len() && #[trigger] self.order@[j] == k ==> j == i,
    {
    }

    /// Removes the specified task from the list, returning `None` if it is not
    /// linked into this list.
    ///
    /// This relies on the invariant that a node in no list points nowhere: such a
    /// node takes the `None` branch below, and `head` only ever names a linked
    /// node, so it returns `None` before changing anything.
    pub fn remove(&mut self, task: RawTask) -> (removed: Option<RawTask>)
        requires
            old(self).wf(),
        ensures
            final(self).wf(),
            match removed {
                Some(removed) => {
                    &&& removed == task
                    &&& old(self)@.contains(task.place)
                    &&& final(self)@ == old(self)@.remove(old(self)@.index_of(task.place))
                },
                None => !old(self)@.contains(task.place) && final(self)@ == old(self)@,
            },
            final(self)@.no_duplicates(),
            !final(self)@.contains(task.place),
    {
        let node = task.place;
        if node >= self.nodes.len() {
            proof {
                if self.order@.contains(node) {
                    let i = choose|i: int| 0 <= i < self.order@.len() && self.order@[i] == node;
                    assert(self.order@[i] < self.nodes@.len());
                }
            }
            return None;
        }
        let ghost held = *self;
        let ghost was = self.order@;
        let ghost at = was.index_of(node);
        let pointers = self.nodes[node];
        proof {
            if was.contains(node) {
                assert(0 <= at < was.len() && was[at] == node);
                if at > 0 {
                    assert(was[at - 1] < held.nodes@.len());
                    assert(was[at - 1] != node);
                }
                if at < was.len() - 1 {
                    assert(was[at + 1] < held.nodes@.len());
                    assert(was[at + 1] != node);
                }
            } else {
                assert(held.nodes@[node as int] == unlinked());
                if was.len() > 0 {
                    assert(was.contains(was[0]));
                }
            }
        }
        match pointers.prev {
            Some(prev) => {
                self.nodes[prev].next = pointers.next;
            },
            None => {
                let first = match self.head {
                    Some(head) => head == node,
                    None => false,
                };
                if !first {
                    return None;
                }
                self.head = pointers.next;
            },
        }
        match pointers.next {
            Some(next) => {
                self.nodes[next].prev = pointers.prev;
            },
            None => {
                self.tail = pointers.prev;
            },
        }
        self.nodes[node] = Pointers::new();
        self.order = Ghost(was.remove(at));
        proof {
            lemma_bypassed(held.nodes@, was, at);
            assert(self.nodes@ =~= bypassed(held.nodes@, was, at));
            lemma_removed_once(was, node);
        }
        Some(task)
    }

    /// Whether there is no task in the list.
    pub fn is_empty(&self) -> (empty: bool)
        requires
            self.wf(),
        ensures
            empty == (self@.len() == 0),
    {
        self.head.is_none()
    }
}

/// A registry of tasks in no particular slot, which can be closed.
pub struct OwnedTasks {
    list: LinkedList,
    closed: bool,
}

impl View for OwnedTasks {
    type V = Seq<usize>;

    closed spec fn view(&self) -> Seq<usize> {
        self.list@
    }
}

impl OwnedTasks {
    /// The list is sound.
    pub closed spec fn wf(&self) -> bool {
        self.list.wf()
    }

    /// No task can be added any more.
    pub closed spec fn shut(&self) -> bool {
        self.closed
    }

    /// A task is in the registry once.
    pub proof fn lemma_no_duplicates(&self)
        requires
            self.wf(),
        ensures
            self@.no_duplicates(),
    {
        self.list.lemma_no_duplicates();
    }

    /// An empty registry.
    pub fn new() -> (owned: OwnedTasks)
        ensures
            owned.wf(),
            owned@ == Seq::<usize>::empty(),
            !owned.shut(),
    {
        OwnedTasks { list: LinkedList::new(), closed: false }
    }

    /// Binds a new task to this list, unless the list is closed. Returns whether
    /// it was bound; one that was not is to be shut down.
    pub fn bind(&mut self, task: RawTask) -> (bound: bool)
        requires
            old(self).wf(),
            !old(self)@.contains(task.place),
            task.place < usize::MAX,
        ensures
            final(self).wf(),
            bound == !old(self).shut(),
            final(self)@ == if bound {
                seq![task.place] + old(self)@
            } else {
                old(self)@
            },
            final(self).shut() == old(self).shut(),
    {
        if self.closed {
            return false;
        }
        self.list.push_front(task);
        true
    }

    /// Closes the collection, preventing new items from being added, and takes
    /// the task that has been in it longest out, to be shut down. To be called
    /// until there is none.
    pub fn close_and_take(&mut self) -> (task: Option<RawTask>)
        requires
            old(self).wf(),
        ensures
            final(self).wf(),
            final(self).shut(),
            match task {
                Some(task) => old(self)@.len() > 0 && task.place == old(self)@.last()
                    && final(self)@ == old(self)@.drop_last() && !final(self)@.contains(task.place),
                None => old(self)@.len() == 0 && final(self)@ == old(self)@,
            },
    {
        self.closed = true;
        self.list.pop_back()
    }

    /// Removes a task from the collection.
    ///
    /// Returns `None` if the task is not linked into this list, which is not an
    /// error: a task bound while the list was closed is never linked at all, and
    /// [`OwnedTasks::close_and_take`] unlinks a task before it is shut down.
    pub fn remove(&mut self, task: RawTask) -> (removed: Option<RawTask>)
        requires
            old(self).wf(),
        ensures
            final(self).wf(),
            match removed {
                Some(removed) => {
                    &&& removed == task
                    &&& old(self)@.contains(task.place)
                    &&& final(self)@ == old(self)@.remove(old(self)@.index_of(task.place))
                },
                None => !old(self)@.contains(task.place) && final(self)@ == old(self)@,
            },
            final(self)@.no_duplicates(),
            !final(self)@.contains(task.place),
            final(self).shut() == old(self).shut(),
    {
        self.list.remove(task)
    }

    /// Whether no task can be added any more.
    pub fn is_closed(&self) -> (closed: bool)
        ensures
            closed == self.shut(),
    {
        self.closed
    }

    /// Whether there is no task in the collection.
    pub fn is_empty(&self) -> (empty: bool)
        requires
            self.wf(),
        ensures
            empty == (self@.len() == 0),
    {
        self.list.is_empty()
    }
}

/// A task that has been removed is not there to be removed again, and every other
/// task still is.
pub proof fn lemma_removed_once(list: Seq<usize>, task: usize)
    requires
        list.no_duplicates(),
        list.contains(task),
    ensures
        ({
            let rest = list.remove(list.index_of(task));
            &&& rest.no_duplicates()
            &&& !rest.contains(task)
            &&& rest.len() == list.len() - 1
            &&& forall|other: usize|
                other != task ==> #[trigger] rest.contains(other) == list.contains(other)
        }),
{
    let at = list.index_of(task);
    let rest = list.remove(at);
    assert(0 <= at < list.len() && list[at] == task);
    assert forall|i: int| 0 <= i < rest.len() implies #[trigger] rest[i] == list[if i < at {
        i
    } else {
        i + 1
    }] by {}
    assert forall|other: usize| other != task implies #[trigger] rest.contains(other)
        == list.contains(other) by {
        if list.contains(other) {
            let i = choose|i: int| 0 <= i < list.len() && list[i] == other;
            assert(rest[if i < at {
                i
            } else {
                i - 1
            }] == other);
        }
        if rest.contains(other) {
            let i = choose|i: int| 0 <= i < rest.len() && rest[i] == other;
            assert(list.contains(rest[i]));
        }
    }
}

/// Removing a task just added leaves the list as it was.
pub proof fn lemma_remove_undoes_push(list: Seq<usize>, task: usize)
    requires
        !list.contains(task),
    ensures
        (seq![task] + list).remove((seq![task] + list).index_of(task)) == list,
{
    let longer = seq![task] + list;
    assert(longer[0] == task);
    assert forall|i: int| 0 <= i < longer.len() && longer[i] == task implies i == 0 by {
        if i > 0 {
            assert(longer[i] == list[i - 1]);
            assert(list.contains(list[i - 1]));
        }
    }
    assert(longer.contains(task));
    assert(longer.index_of(task) == 0);
    assert(longer.remove(0) =~= list);
}

} // verus!
