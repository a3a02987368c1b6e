//! The table mapping a completion's `user_data` back to the operation it
//! belongs to.
//!
//! An entry lives from submission until the result is taken, which is not the
//! same as until the future is dropped: a dropped future leaves its operation
//! running in the kernel, and the entry has to outlive it to keep the buffer
//! alive and to have somewhere for the completion to land. That is what
//! [`State::Detached`] is for.
//!
//! # Telling one occupant of an entry from the next
//!
//! `user_data` is a slab key and a sequence number packed into one word. A
//! completion that arrives after its operation was cancelled and its entry
//! reused finds a sequence number that no longer matches and is dropped, instead
//! of being delivered to whoever holds that entry now.
//!
//! The sequence number counts *submissions*, not reuses of a particular entry,
//! because a slab has nowhere to keep anything in a vacant entry — it only needs
//! to differ between successive occupants, and a monotonic counter does that. It
//! wraps after four billion operations, which would have to happen while one
//! cancelled completion is still outstanding for it to matter.

use slab::Slab;
use vstd::prelude::*;

use crate::io_uring::flags::CqeFlags;
use crate::runtime::poll::Poll;
use crate::runtime::waker::Waker;

verus! {

/// What a detached operation leaves behind for its completion to find.
///
/// A token stands for an action kept by whoever detached the operation, together
/// with whatever the kernel still has a pointer to; that becomes free again when
/// the action has run.
#[derive(Clone, Copy, Debug, PartialEq, Eq, Structural)]
pub enum Action {
    /// Nothing to clean up. The operation still has an entry, so that its
    /// completion is accounted for rather than looking stale.
    Discard,
    /// Run the action this token stands for.
    Run(u64),
}

/// What to do with a completion.
#[derive(Clone, Copy, Debug, PartialEq, Eq, Structural)]
pub enum Outcome {
    /// A stale completion, or one whose result nobody has asked for yet.
    Ignore,
    /// Somebody is waiting for this result.
    Wake(Waker),
    /// Nobody is waiting; run the action the operation left behind.
    Detached(Action, i32, CqeFlags),
}

/// A handle to one ledger entry, and the `user_data` of the operation in it.
#[derive(Clone, Copy, Debug, PartialEq, Eq, Structural)]
pub struct OpKey {
    pub index: u32,
    pub seq: u32,
}

/// A key in one word: the sequence number above the index.
pub open spec fn packed(key: OpKey) -> u64 {
    (key.seq * 0x1_0000_0000 + key.index) as u64
}

/// The key in a word.
pub open spec fn unpacked(user_data: u64) -> OpKey {
    OpKey {
        index: (user_data % 0x1_0000_0000) as u32,
        seq: (user_data / 0x1_0000_0000) as u32,
    }
}

/// A key comes back out of the word it was put into, and a word out of the key.
pub proof fn lemma_key_round_trips(key: OpKey, user_data: u64)
    ensures
        unpacked(packed(key)) == key,
        packed(unpacked(user_data)) == user_data,
{
}

impl OpKey {
    /// The token to put in the SQE and read back out of the CQE.
    pub fn user_data(self) -> (user_data: u64)
        ensures
            user_data == packed(self),
    {
        let seq = self.seq;
        let index = self.index;
        proof {
            assert((seq as u64) << 32u64 | index as u64 == seq * 0x1_0000_0000 + index)
                by (bit_vector);
        }
        (self.seq as u64) << 32u64 | self.index as u64
    }

    /// The key a completion carries.
    pub fn from_user_data(user_data: u64) -> (key: OpKey)
        ensures
            key == unpacked(user_data),
    {
        proof {
            assert(user_data as u32 == user_data % 0x1_0000_0000 && (user_data >> 32u64) as u32
                == user_data / 0x1_0000_0000) by (bit_vector);
        }
        OpKey { index: user_data as u32, seq: (user_data >> 32u64) as u32 }
    }
}

/// Where an operation is.
#[derive(Clone, Copy, Debug, PartialEq, Eq, Structural)]
pub enum State {
    /// In the kernel, with nobody waiting on it yet.
    Submitted,
    /// In the kernel, with a future waiting on it.
    Waiting(Waker),
    /// Finished, with the result not yet taken.
    Completed(i32, CqeFlags),
    /// In the kernel, with the future gone. The action owns anything the kernel
    /// still refers to.
    Detached(Action),
}

/// One entry, and the sequence number that says which operation is in it.
#[derive(Clone, Copy, Debug, PartialEq, Eq, Structural)]
pub struct Entry {
    pub seq: u32,
    pub state: State,
}

/// What a slab of operations holds: the entry under each key.
pub uninterp spec fn op_entries(slab: Slab<Entry>) -> Map<usize, Entry>;

/// The key that the next insertion into a slab of operations will use.
pub uninterp spec fn op_vacant_key(slab: Slab<Entry>) -> usize;

/// How many keys a slab of operations has ever used, each occupied or vacant.
pub uninterp spec fn op_slots(slab: Slab<Entry>) -> usize;

/// `Slab::with_capacity`: a slab with nothing in it, that has used no key yet and
/// hands out key zero first. It panics if that many cells take more than
/// `isize::MAX` bytes; a cell takes less than 64. Running out of memory before that
/// is not accounted for.
#[verifier::external_body]
fn slab_with_capacity(capacity: usize) -> (empty: Slab<Entry>)
    requires
        capacity <= isize::MAX / 64,
    ensures
        op_entries(empty) == (Map::<usize, Entry>::empty()),
        op_vacant_key(empty) == 0,
        op_slots(empty) == 0,
{
    Slab::with_capacity(capacity)
}

/// `Slab::vacant_key`: the key the next insertion will use, which is vacant, and
/// either one that was used before or the next one up.
#[verifier::external_body]
fn slab_vacant_key(slab: &Slab<Entry>) -> (key: usize)
    ensures
        key == op_vacant_key(*slab),
        !op_entries(*slab).contains_key(key),
        key <= op_slots(*slab),
{
    slab.vacant_key()
}

/// `Slab::insert`: the value goes under the vacant key, which comes back, and is
/// one more used key if none was vacant before. Then the key that is vacant next is
/// the next one up. If one was, it is one of those used or the next one up; which of
/// them is not said.
#[verifier::external_body]
fn slab_insert(slab: &mut Slab<Entry>, entry: Entry) -> (key: usize)
    ensures
        key == op_vacant_key(*old(slab)),
        !op_entries(*old(slab)).contains_key(key),
        op_entries(*final(slab)) == op_entries(*old(slab)).insert(key, entry),
        key <= op_slots(*old(slab)),
        op_slots(*final(slab)) == if key == op_slots(*old(slab)) {
            key + 1
        } else {
            op_slots(*old(slab)) as int
        },
        op_vacant_key(*final(slab)) <= op_slots(*final(slab)),
        key == op_slots(*old(slab)) ==> op_vacant_key(*final(slab)) == key + 1,
{
    slab.insert(entry)
}

/// `Slab::remove`: the value under an occupied key comes out, and the key is the
/// next to be used.
#[verifier::external_body]
fn slab_remove(slab: &mut Slab<Entry>, key: usize) -> (entry: Entry)
    requires
        op_entries(*old(slab)).contains_key(key),
    ensures
        entry == op_entries(*old(slab))[key],
        op_entries(*final(slab)) == op_entries(*old(slab)).remove(key),
        op_vacant_key(*final(slab)) == key,
        op_slots(*final(slab)) == op_slots(*old(slab)),
{
    slab.remove(key)
}

/// `Slab::get_mut`: the value under a key, to be written through, or `None` if
/// the key is vacant. Writing through it leaves the keys alone.
#[verifier::external_body]
fn slab_get_mut(slab: &mut Slab<Entry>, key: usize) -> (entry: Option<&mut Entry>)
    ensures
        match entry {
            Some(entry) => {
                &&& op_entries(*old(slab)).contains_key(key)
                &&& *entry == op_entries(*old(slab))[key]
                &&& op_entries(*final(slab)) == op_entries(*old(slab)).insert(key, *final(entry))
            },
            None => {
                &&& !op_entries(*old(slab)).contains_key(key)
                &&& op_entries(*final(slab)) == op_entries(*old(slab))
            },
        },
        op_vacant_key(*final(slab)) == op_vacant_key(*old(slab)),
        op_slots(*final(slab)) == op_slots(*old(slab)),
{
    slab.get_mut(key)
}

/// `Slab::len`: how many keys are occupied.
#[verifier::external_body]
fn slab_len(slab: &Slab<Entry>) -> (len: usize)
    ensures
        len == op_entries(*slab).len(),
{
    slab.len()
}

/// `Slab::iter`: the occupied keys, in ascending order.
#[verifier::external_body]
fn slab_keys(slab: &Slab<Entry>) -> (keys: Vec<usize>)
    ensures
        forall|k: usize| #[trigger] keys@.contains(k) <==> op_entries(*slab).contains_key(k),
        forall|i: int, j: int|
            0 <= i < j < keys@.len() ==> #[trigger] keys@[i] < #[trigger] keys@[j],
{
    slab.iter().map(|(key, _)| key).collect()
}

/// The operation table.
pub struct Ledger {
    ops: Slab<Entry>,
    /// Handed to the next operation, then incremented.
    next_seq: u32,
    /// Entries the kernel has yet to post a completion for.
    outstanding: u32,
    /// Entries ever used at once.
    slots: u64,
}

/// The operation is still in the kernel.
pub open spec fn in_kernel(entry: Entry) -> bool {
    !(entry.state is Completed)
}

/// The keys of the operations still in the kernel.
pub open spec fn owed(ops: Map<usize, Entry>) -> Set<usize> {
    ops.dom().filter(|k: usize| in_kernel(ops[k]))
}

/// `key` names a live operation rather than one that is long gone.
pub open spec fn is_live(ops: Map<usize, Entry>, key: OpKey) -> bool {
    ops.contains_key(key.index as usize) && ops[key.index as usize].seq == key.seq
}

impl View for Ledger {
    type V = Map<usize, Entry>;

    closed spec fn view(&self) -> Map<usize, Entry> {
        op_entries(self.ops)
    }
}

/// What a completion leaves in the table.
///
/// One for an operation that has already finished only replaces the result that
/// nobody has taken.
pub open spec fn landed(
    ops: Map<usize, Entry>,
    user_data: u64,
    res: i32,
    flags: CqeFlags,
) -> Map<usize, Entry> {
    let key = unpacked(user_data);
    let k = key.index as usize;
    if !is_live(ops, key) {
        ops
    } else if ops[k].state is Detached {
        ops.remove(k)
    } else {
        ops.insert(k, Entry { seq: key.seq, state: State::Completed(res, flags) })
    }
}

/// What there is to do about a completion.
pub open spec fn outcome(
    ops: Map<usize, Entry>,
    user_data: u64,
    res: i32,
    flags: CqeFlags,
) -> Outcome {
    let key = unpacked(user_data);
    if !is_live(ops, key) {
        Outcome::Ignore
    } else {
        match ops[key.index as usize].state {
            State::Submitted => Outcome::Ignore,
            State::Waiting(waker) => Outcome::Wake(waker),
            State::Completed(_, _) => Outcome::Ignore,
            State::Detached(action) => Outcome::Detached(action, res, flags),
        }
    }
}

/// The operation has somebody who may yet ask for its result.
pub open spec fn is_attended(entry: Entry) -> bool {
    entry.state is Submitted || entry.state is Waiting
}

/// The entry once everything has been given up on.
pub open spec fn let_go(entry: Entry) -> Entry {
    if is_attended(entry) {
        Entry { seq: entry.seq, state: State::Detached(Action::Discard) }
    } else {
        entry
    }
}

/// The table once everything has been given up on: results nobody took are gone,
/// and what is still in the kernel is detached.
pub open spec fn abandoned(ops: Map<usize, Entry>) -> Map<usize, Entry> {
    Map::new(|k: usize| ops.contains_key(k) && in_kernel(ops[k]), |k: usize| let_go(ops[k]))
}

/// `keys` are those of the operations that were not detached already, in
/// ascending order of their entries.
pub open spec fn attended(ops: Map<usize, Entry>, keys: Seq<OpKey>) -> bool {
    &&& forall|i: int|
        0 <= i < keys.len() ==> is_live(ops, #[trigger] keys[i]) && is_attended(
            ops[keys[i].index as usize],
        )
    &&& forall|i: int, j: int|
        0 <= i < j < keys.len() ==> (#[trigger] keys[i]).index < (#[trigger] keys[j]).index
    &&& forall|k: usize| #[trigger]
        ops.contains_key(k) && is_attended(ops[k]) ==> exists|i: int|
            0 <= i < keys.len() && (#[trigger] keys[i]).index == k
}

/// Changing the state of one entry changes what is owed by that entry alone.
proof fn lemma_owed(ops: Map<usize, Entry>, k: usize, entry: Entry)
    requires
        ops.dom().finite(),
        owed(ops).finite(),
    ensures
        owed(ops.insert(k, entry)) == if in_kernel(entry) {
            owed(ops).insert(k)
        } else {
            owed(ops).remove(k)
        },
        owed(ops.remove(k)) == owed(ops).remove(k),
{
    assert(owed(ops.insert(k, entry)) =~= if in_kernel(entry) {
        owed(ops).insert(k)
    } else {
        owed(ops).remove(k)
    });
    assert(owed(ops.remove(k)) =~= owed(ops).remove(k));
}

/// No more is owed than there are keys below a bound on all of them.
proof fn lemma_owed_bound(ops: Map<usize, Entry>, bound: nat)
    requires
        forall|k: usize| #[trigger] ops.contains_key(k) ==> k < bound,
    ensures
        owed(ops).len() <= bound,
{
    let keys = owed(ops).map(|k: usize| k as int);
    let below = vstd::set_lib::set_int_range(0, bound as int);
    vstd::set_lib::lemma_int_range(0, bound as int);
    assert(keys.subset_of(below));
    vstd::set_lib::lemma_len_subset(keys, below);
    assert(owed(ops) =~= keys.map(|k: int| k as usize)) by {
        assert forall|k: usize| #[trigger] owed(ops).contains(k) implies keys.map(
            |k: int| k as usize,
        ).contains(k) by {
            assert(keys.contains(k as int));
        }
    }
    vstd::set_lib::lemma_map_size_bound(keys, owed(ops), |k: int| k as usize);
}

impl Ledger {
    /// Every key fits its half of a `user_data`, and the count of what the kernel
    /// owes is right.
    pub closed spec fn wf(&self) -> bool {
        &&& self@.dom().finite()
        &&& owed(self@).finite()
        &&& self.outstanding == owed(self@).len()
        &&& forall|k: usize| #[trigger] self@.contains_key(k) ==> k <= u32::MAX && k < self.slots
        &&& self.slots == op_slots(self.ops)
        &&& op_vacant_key(self.ops) <= self.slots
    }

    /// The sequence number the next operation gets.
    pub closed spec fn next_seq(&self) -> u32 {
        self.next_seq
    }

    /// The entry the next operation gets.
    pub closed spec fn vacant(&self) -> usize {
        op_vacant_key(self.ops)
    }

    /// How many entries have ever been used at once.
    pub closed spec fn slots(&self) -> int {
        self.slots as int
    }

    /// There is no key, or no count, for one more operation.
    pub open spec fn full(&self) -> bool {
        self.vacant() > u32::MAX || owed(self@).len() >= u32::MAX
    }

    /// An empty table with room for `capacity` operations.
    pub fn with_capacity(capacity: usize) -> (ledger: Ledger)
        requires
            capacity <= isize::MAX / 64,
        ensures
            ledger.wf(),
            ledger@ == Map::<usize, Entry>::empty(),
            ledger.next_seq() == 0,
            ledger.vacant() == 0,
            ledger.slots() == 0,
            !ledger.full(),
    {
        let ledger = Ledger {
            ops: slab_with_capacity(capacity),
            next_seq: 0,
            outstanding: 0,
            slots: 0,
        };
        proof {
            assert(owed(ledger@) =~= Set::<usize>::empty());
        }
        ledger
    }

    /// Occupied entries: operations in the kernel, plus results nobody has
    /// collected.
    pub fn live(&self) -> (live: u32)
        requires
            self.wf(),
        ensures
            live == self@.len() as u32,
    {
        slab_len(&self.ops) as u32
    }

    /// Completions the kernel still owes us.
    ///
    /// Deliberately *not* [`live`](Ledger::live). The executor uses this to
    /// decide whether it may block waiting for a completion, and a result that
    /// has already arrived is not one the kernel will deliver again — waiting on
    /// an entry like that would wait for ever.
    pub fn outstanding(&self) -> (owes: u32)
        requires
            self.wf(),
        ensures
            owes == owed(self@).len(),
    {
        self.outstanding
    }

    /// Whether there is no key, or no count, for one more operation.
    pub fn is_full(&self) -> (full: bool)
        requires
            self.wf(),
        ensures
            full == self.full(),
    {
        slab_vacant_key(&self.ops) > 0xffff_ffff || self.outstanding == u32::MAX
    }

    /// Whether there is certainly room for `count` more operations.
    pub fn has_room(&self, count: usize) -> (room: bool)
        requires
            self.wf(),
        ensures
            room == (self.slots() + count <= u32::MAX),
    {
        self.slots <= 0xffff_ffff && count as u64 <= 0xffff_ffff - self.slots
    }

    /// Only so many operations are live, and only so many owed.
    pub proof fn lemma_finite(&self)
        requires
            self.wf(),
        ensures
            self@.dom().finite(),
            owed(self@).finite(),
    {
    }

    /// No more is owed than entries have been used.
    pub proof fn lemma_owed_bound(&self)
        requires
            self.wf(),
        ensures
            owed(self@).len() <= self.slots(),
    {
        lemma_owed_bound(self@, self.slots as nat);
    }

    /// No more is owed than is live.
    pub proof fn lemma_owed_is_live(&self)
        requires
            self.wf(),
        ensures
            owed(self@).len() <= self@.len(),
    {
        vstd::set_lib::lemma_len_subset(owed(self@), self@.dom());
    }

    /// A table that has used fewer entries than there are keys is not full.
    pub proof fn lemma_room(&self)
        requires
            self.wf(),
            self.slots() < u32::MAX,
        ensures
            !self.full(),
    {
        lemma_owed_bound(self@, self.slots as nat);
    }

    fn take_entry(&mut self, state: State) -> (key: OpKey)
        requires
            old(self).wf(),
            !old(self).full(),
            !(state is Completed),
        ensures
            final(self).wf(),
            key == (OpKey { index: old(self).vacant() as u32, seq: old(self).next_seq() }),
            key.index == old(self).vacant(),
            !old(self)@.contains_key(key.index as usize),
            final(self)@ == old(self)@.insert(key.index as usize, Entry { seq: key.seq, state }),
            owed(final(self)@) == owed(old(self)@).insert(key.index as usize),
            owed(final(self)@).len() == owed(old(self)@).len() + 1,
            final(self).next_seq() == old(self).next_seq().wrapping_add(1),
            old(self).slots() <= final(self).slots() <= old(self).slots() + 1,
            final(self).slots() == old(self).slots() + 1 <==> old(self).vacant()
                == old(self).slots(),
            old(self).vacant() == old(self).slots() ==> final(self).vacant()
                == final(self).slots(),
    {
        let seq = self.next_seq;
        self.next_seq = self.next_seq.wrapping_add(1);
        self.outstanding += 1;
        proof {
            lemma_owed(self@, op_vacant_key(self.ops), Entry { seq, state });
        }
        let index = slab_insert(&mut self.ops, Entry { seq, state }) as u32;
        if index as u64 == self.slots {
            self.slots += 1;
        }
        OpKey { index, seq }
    }

    /// Take an entry for an operation a future will wait on.
    pub fn submit(&mut self) -> (key: OpKey)
        requires
            old(self).wf(),
            !old(self).full(),
        ensures
            final(self).wf(),
            key == (OpKey { index: old(self).vacant() as u32, seq: old(self).next_seq() }),
            !old(self)@.contains_key(key.index as usize),
            final(self)@ == old(self)@.insert(
                key.index as usize,
                Entry { seq: key.seq, state: State::Submitted },
            ),
            owed(final(self)@) == owed(old(self)@).insert(key.index as usize),
            owed(final(self)@).len() == owed(old(self)@).len() + 1,
            final(self).next_seq() == old(self).next_seq().wrapping_add(1),
            old(self).slots() <= final(self).slots() <= old(self).slots() + 1,
            final(self).slots() == old(self).slots() + 1 <==> old(self).vacant()
                == old(self).slots(),
            old(self).vacant() == old(self).slots() ==> final(self).vacant()
                == final(self).slots(),
    {
        self.take_entry(State::Submitted)
    }

    /// Take an entry for an operation nobody will wait on.
    pub fn submit_detached(&mut self, action: Action) -> (key: OpKey)
        requires
            old(self).wf(),
            !old(self).full(),
        ensures
            final(self).wf(),
            key == (OpKey { index: old(self).vacant() as u32, seq: old(self).next_seq() }),
            !old(self)@.contains_key(key.index as usize),
            final(self)@ == old(self)@.insert(
                key.index as usize,
                Entry { seq: key.seq, state: State::Detached(action) },
            ),
            owed(final(self)@) == owed(old(self)@).insert(key.index as usize),
            owed(final(self)@).len() == owed(old(self)@).len() + 1,
            final(self).next_seq() == old(self).next_seq().wrapping_add(1),
            old(self).slots() <= final(self).slots() <= old(self).slots() + 1,
            final(self).slots() == old(self).slots() + 1 <==> old(self).vacant()
                == old(self).slots(),
            old(self).vacant() == old(self).slots() ==> final(self).vacant()
                == final(self).slots(),
    {
        self.take_entry(State::Detached(action))
    }

    /// The entry `key` names, or `None` if the completion it came from is stale.
    fn get(&mut self, key: OpKey) -> (entry: Option<&mut Entry>)
        ensures
            match entry {
                Some(entry) => {
                    &&& is_live(old(self)@, key)
                    &&& *entry == old(self)@[key.index as usize]
                    &&& final(self)@ == old(self)@.insert(key.index as usize, *final(entry))
                },
                None => !is_live(old(self)@, key) && final(self)@ == old(self)@,
            },
            final(self).next_seq == old(self).next_seq,
            final(self).outstanding == old(self).outstanding,
            final(self).vacant() == old(self).vacant(),
            final(self).slots == old(self).slots,
            op_slots(final(self).ops) == op_slots(old(self).ops),
    {
        let ghost before = self@;
        match slab_get_mut(&mut self.ops, key.index as usize) {
            Some(entry) => {
                if entry.seq == key.seq {
                    Some(entry)
                } else {
                    proof {
                        assert(before.insert(key.index as usize, *entry) =~= before);
                    }
                    None
                }
            },
            None => None,
        }
    }

    /// Record a completion and decide what the driver should do about it.
    pub fn complete(&mut self, user_data: u64, res: i32, flags: CqeFlags) -> (todo: Outcome)
        requires
            old(self).wf(),
        ensures
            final(self).wf(),
            final(self)@ == landed(old(self)@, user_data, res, flags),
            todo == outcome(old(self)@, user_data, res, flags),
            ({
                let k = (user_data % 0x1_0000_0000) as usize;
                old(self)@.contains_key(k) && old(self)@[k].seq == user_data / 0x1_0000_0000
                    ==> match old(self)@[k].state {
                    State::Submitted => todo is Ignore,
                    State::Waiting(waker) => todo == Outcome::Wake(waker),
                    State::Completed(_, _) => todo is Ignore,
                    State::Detached(action) => todo == Outcome::Detached(action, res, flags),
                }
            }),
            final(self).next_seq() == old(self).next_seq(),
            final(self).slots() == old(self).slots(),
            final(self).vacant() == if todo is Detached {
                unpacked(user_data).index as usize
            } else {
                old(self).vacant()
            },
    {
        let ghost before = self@;
        let key = OpKey::from_user_data(user_data);
        let ghost k = key.index as usize;
        let previous = match self.get(key) {
            // The operation was cancelled and its entry freed or reused, or this
            // is a completion for something that never had an entry at all.
            None => {
                return Outcome::Ignore;
            },
            Some(entry) => {
                let previous = entry.state;
                entry.state = State::Completed(res, flags);
                previous
            },
        };
        proof {
            lemma_owed(before, k, Entry { seq: key.seq, state: State::Completed(res, flags) });
            assert(self@.dom() =~= before.dom());
            assert(owed(before).contains(k) == in_kernel(before[k]));
        }
        let todo = match previous {
            // Completed twice: there is nobody left to tell.
            State::Completed(_, _) => {
                return Outcome::Ignore;
            },
            State::Submitted => Outcome::Ignore,
            State::Waiting(waker) => Outcome::Wake(waker),
            State::Detached(action) => Outcome::Detached(action, res, flags),
        };

        // The kernel is done with this one; only the result is left to collect.
        self.outstanding -= 1;

        if let State::Detached(_) = previous {
            proof {
                lemma_owed(self@, k, self@[k]);
                assert(owed(self@).remove(k) =~= owed(self@));
                assert(self@.remove(k) =~= before.remove(k));
            }
            // Nobody will ever take this result, so the entry is done with.
            slab_remove(&mut self.ops, key.index as usize);
        }
        todo
    }

    /// Free the entry of an operation that has finished.
    fn release(&mut self, key: OpKey)
        requires
            old(self).wf(),
            old(self)@.contains_key(key.index as usize),
            old(self)@[key.index as usize].state is Completed,
        ensures
            final(self).wf(),
            final(self)@ == old(self)@.remove(key.index as usize),
            owed(final(self)@) == owed(old(self)@),
            final(self).next_seq() == old(self).next_seq(),
            final(self).slots() == old(self).slots(),
            final(self).vacant() == key.index,
    {
        proof {
            let k = key.index as usize;
            lemma_owed(self@, k, self@[k]);
            assert(owed(self@).remove(k) =~= owed(self@));
        }
        slab_remove(&mut self.ops, key.index as usize);
    }

    /// Take the result if it has arrived, and register `waker` for it if not.
    pub fn poll(&mut self, key: OpKey, waker: &Waker) -> (polled: Poll<(i32, CqeFlags)>)
        requires
            old(self).wf(),
            is_live(old(self)@, key),
        ensures
            final(self).wf(),
            match old(self)@[key.index as usize].state {
                State::Completed(res, flags) => {
                    &&& polled == Poll::Ready((res, flags))
                    &&& final(self)@ == old(self)@.remove(key.index as usize)
                    &&& final(self).vacant() == key.index
                },
                _ => {
                    &&& polled is Pending
                    &&& final(self)@ == old(self)@.insert(
                        key.index as usize,
                        Entry { seq: key.seq, state: State::Waiting(*waker) },
                    )
                    &&& final(self).vacant() == old(self).vacant()
                },
            },
            owed(final(self)@) == owed(old(self)@),
            final(self).next_seq() == old(self).next_seq(),
            final(self).slots() == old(self).slots(),
    {
        let ghost before = self@;
        let ghost k = key.index as usize;
        let done = match self.get(key) {
            // A live key has an entry, so this is never reached.
            None => {
                return Poll::Pending;
            },
            Some(entry) => match entry.state {
                State::Completed(res, flags) => Some((res, flags)),
                _ => {
                    entry.state = State::Waiting(*waker);
                    None
                },
            },
        };
        match done {
            Some(result) => {
                proof {
                    assert(self@ =~= before);
                }
                self.release(key);
                Poll::Ready(result)
            },
            None => {
                proof {
                    lemma_owed(before, k, Entry { seq: key.seq, state: State::Waiting(*waker) });
                    assert(owed(before).insert(k) =~= owed(before));
                    assert(self@.dom() =~= before.dom());
                }
                Poll::Pending
            },
        }
    }

    /// Take the result if it has already arrived, freeing the entry.
    ///
    /// The abandon path checks this first: an operation that finished before its
    /// future was dropped needs no detaching, and so no action either.
    pub fn take_completed(&mut self, key: OpKey) -> (taken: Option<(i32, CqeFlags)>)
        requires
            old(self).wf(),
        ensures
            final(self).wf(),
            match taken {
                Some((res, flags)) => {
                    &&& is_live(old(self)@, key)
                    &&& old(self)@[key.index as usize].state == State::Completed(res, flags)
                    &&& final(self)@ == old(self)@.remove(key.index as usize)
                    &&& final(self).vacant() == key.index
                },
                None => {
                    &&& is_live(old(self)@, key) ==> in_kernel(old(self)@[key.index as usize])
                    &&& final(self)@ == old(self)@
                    &&& final(self).vacant() == old(self).vacant()
                },
            },
            owed(final(self)@) == owed(old(self)@),
            final(self).next_seq() == old(self).next_seq(),
            final(self).slots() == old(self).slots(),
    {
        let ghost before = self@;
        let done = match self.get(key) {
            None => None,
            Some(entry) => match entry.state {
                State::Completed(res, flags) => Some((res, flags)),
                _ => None,
            },
        };
        proof {
            assert(self@ =~= before);
        }
        if done.is_some() {
            self.release(key);
        }
        done
    }

    /// Give up on an operation that is still running, leaving `action` for its
    /// completion to find.
    ///
    /// The caller should ask the kernel to cancel it afterwards, or an operation
    /// that never finishes on its own — a read on an idle socket — holds its
    /// entry, and whatever that entry owns, forever.
    ///
    /// Detaching a finished operation would discard its result, and detaching
    /// twice would drop the first action, freeing what it owns.
    pub fn detach(&mut self, key: OpKey, action: Action)
        requires
            old(self).wf(),
            is_live(old(self)@, key),
            is_attended(old(self)@[key.index as usize]),
        ensures
            final(self).wf(),
            final(self)@ == old(self)@.insert(
                key.index as usize,
                Entry { seq: key.seq, state: State::Detached(action) },
            ),
            owed(final(self)@) == owed(old(self)@),
            final(self).next_seq() == old(self).next_seq(),
            final(self).slots() == old(self).slots(),
            final(self).vacant() == old(self).vacant(),
    {
        let ghost before = self@;
        let ghost k = key.index as usize;
        match self.get(key) {
            None => {},
            Some(entry) => {
                entry.state = State::Detached(action);
            },
        }
        proof {
            lemma_owed(before, k, Entry { seq: key.seq, state: State::Detached(action) });
            assert(owed(before).insert(k) =~= owed(before));
            assert(self@.dom() =~= before.dom());
        }
    }

    /// Give up on everything, for shutdown.
    ///
    /// Results nobody took are discarded. Operations still in the kernel become
    /// detached, so that whatever they own outlives them, and their keys come
    /// back so the caller can cancel them.
    ///
    /// Entries that were *already* detached keep the action they have. Handing
    /// them a fresh one would drop the old one, freeing a buffer the kernel is
    /// still writing into — which is the exact bug detaching exists to prevent.
    pub fn abandon_all(&mut self) -> (outstanding: Vec<OpKey>)
        requires
            old(self).wf(),
        ensures
            final(self).wf(),
            final(self)@ == abandoned(old(self)@),
            attended(old(self)@, outstanding@),
            owed(final(self)@) == owed(old(self)@),
            final(self).next_seq() == old(self).next_seq(),
            final(self).slots() == old(self).slots(),
    {
        let ghost start = self@;
        let keys = slab_keys(&self.ops);
        let mut outstanding: Vec<OpKey> = Vec::new();
        let mut at: usize = 0;
        proof {
            assert forall|k: usize| #[trigger] start.contains_key(k) implies exists|i: int|
                at <= i < keys@.len() && #[trigger] keys@[i] == k by {
                assert(keys@.contains(k));
            }
        }
        while at < keys.len()
            invariant
                self.wf(),
                self.next_seq == old(self).next_seq,
                self.slots == old(self).slots,
                start == old(self)@,
                owed(self@) == owed(start),
                at <= keys@.len(),
                forall|k: usize| #[trigger] keys@.contains(k) <==> start.contains_key(k),
                forall|k: usize| #[trigger] start.contains_key(k) ==> k <= u32::MAX,
                forall|i: int, j: int|
                    0 <= i < j < keys@.len() ==> #[trigger] keys@[i] < #[trigger] keys@[j],
                forall|k: usize| #[trigger]
                    self@.contains_key(k) <==> start.contains_key(k) && (in_kernel(start[k])
                        || exists|i: int| at <= i < keys@.len() && #[trigger] keys@[i] == k),
                forall|i: int|
                    0 <= i < at && in_kernel(start[keys@[i]]) ==> self@[#[trigger] keys@[i]]
                        == let_go(start[keys@[i]]),
                forall|i: int|
                    at <= i < keys@.len() ==> self@[#[trigger] keys@[i]] == start[keys@[i]],
                forall|i: int|
                    0 <= i < outstanding@.len() ==> is_live(start, #[trigger] outstanding@[i])
                        && is_attended(start[outstanding@[i].index as usize]),
                forall|i: int, j: int|
                    0 <= i < j < outstanding@.len() ==> (#[trigger] outstanding@[i]).index < (
                    #[trigger] outstanding@[j]).index,
                forall|i: int, j: int|
                    #![trigger outstanding@[i], keys@[j]]
                    0 <= i < outstanding@.len() && at <= j < keys@.len()
                        ==> outstanding@[i].index < keys@[j],
                forall|i: int|
                    0 <= i < at && is_attended(start[#[trigger] keys@[i]]) ==> exists|n: int|
                        0 <= n < outstanding@.len() && (#[trigger] outstanding@[n]).index
                            == keys@[i],
            decreases keys@.len() - at,
        {
            let index = keys[at];
            let ghost before = self@;
            let ghost listed = outstanding@;
            proof {
                assert(keys@.contains(index));
                assert(start.contains_key(index));
                assert(self@.contains_key(index));
                assert(owed(before).contains(index) == in_kernel(start[index]));
            }
            let state = match slab_get_mut(&mut self.ops, index) {
                // A listed key has an entry, so this is never reached.
                None => State::Submitted,
                Some(entry) => {
                    let state = entry.state;
                    match state {
                        State::Submitted | State::Waiting(_) => {
                            entry.state = State::Detached(Action::Discard);
                            outstanding.push(OpKey { index: index as u32, seq: entry.seq });
                        },
                        _ => {},
                    }
                    state
                },
            };
            proof {
                lemma_owed(before, index, self@[index]);
                assert(self@.dom() =~= before.dom());
                if in_kernel(start[index]) {
                    assert(owed(before).insert(index) =~= owed(before));
                } else {
                    assert(self@ =~= before);
                }
                assert(self.wf());
            }
            if let State::Completed(_, _) = state {
                self.release(OpKey { index: index as u32, seq: 0 });
            }
            at += 1;
            proof {
                assert forall|k: usize| #[trigger]
                    self@.contains_key(k) <==> start.contains_key(k) && (in_kernel(start[k])
                        || exists|i: int| at <= i < keys@.len() && #[trigger] keys@[i] == k) by {
                    if k == index {
                        assert(forall|i: int| at <= i < keys@.len() ==> #[trigger] keys@[i] != k);
                    } else {
                        assert(self@.contains_key(k) == before.contains_key(k));
                        if exists|i: int| at - 1 <= i < keys@.len() && #[trigger] keys@[i] == k {
                            let i = choose|i: int|
                                at - 1 <= i < keys@.len() && #[trigger] keys@[i] == k;
                            assert(i != at - 1);
                            assert(at <= i < keys@.len() && keys@[i] == k);
                        }
                    }
                }
                assert forall|i: int|
                    0 <= i < at && is_attended(start[#[trigger] keys@[i]]) implies exists|n: int|
                    0 <= n < outstanding@.len() && (#[trigger] outstanding@[n]).index
                        == keys@[i] by {
                    if i == at - 1 {
                        assert(outstanding@[listed.len() as int].index == keys@[i]);
                    } else {
                        let n = choose|n: int|
                            0 <= n < listed.len() && (#[trigger] listed[n]).index == keys@[i];
                        assert(outstanding@[n] == listed[n]);
                    }
                }
                assert forall|i: int|
                    0 <= i < at && in_kernel(start[keys@[i]]) implies self@[#[trigger] keys@[i]]
                    == let_go(start[keys@[i]]) by {
                    if i < at - 1 {
                        assert(keys@[i] != index);
                    }
                }
                assert forall|i: int| at <= i < keys@.len() implies self@[#[trigger] keys@[i]]
                    == start[keys@[i]] by {
                    assert(keys@[i] != index);
                }
            }
        }
        proof {
            assert forall|k: usize| #[trigger] self@.contains_key(k) implies self@[k]
                == let_go(start[k]) by {
                assert(keys@.contains(k));
                let i = choose|i: int| 0 <= i < keys@.len() && keys@[i] == k;
                assert(self@[keys@[i]] == let_go(start[keys@[i]]));
            }
            assert(self@ =~= abandoned(start));
            assert forall|k: usize| #[trigger]
                start.contains_key(k) && is_attended(start[k]) implies exists|i: int|
                0 <= i < outstanding@.len() && (#[trigger] outstanding@[i]).index == k by {
                assert(keys@.contains(k));
                let i = choose|i: int| 0 <= i < keys@.len() && keys@[i] == k;
                assert(is_attended(start[keys@[i]]));
            }
        }
        outstanding
    }
}

/// A completion for an operation that is gone changes nothing and wakes nobody,
/// whoever holds its entry now.
pub proof fn lemma_stale_completion_is_ignored(
    ops: Map<usize, Entry>,
    user_data: u64,
    res: i32,
    flags: CqeFlags,
)
    requires
        !is_live(ops, unpacked(user_data)),
    ensures
        landed(ops, user_data, res, flags) == ops,
        outcome(ops, user_data, res, flags) is Ignore,
{
}

/// An operation that took an entry over from another is not reached by the other
/// one's completion, as long as the two have different sequence numbers.
pub proof fn lemma_reused_entry_is_safe(
    ops: Map<usize, Entry>,
    stale: OpKey,
    fresh: OpKey,
    res: i32,
    flags: CqeFlags,
)
    requires
        is_live(ops, fresh),
        stale.index == fresh.index,
        stale.seq != fresh.seq,
    ensures
        landed(ops, packed(stale), res, flags) == ops,
        outcome(ops, packed(stale), res, flags) is Ignore,
{
    lemma_key_round_trips(stale, 0);
}

/// Successive submissions have different sequence numbers.
pub proof fn lemma_next_submission_differs(seq: u32)
    ensures
        seq.wrapping_add(1) != seq,
{
}

/// A result that has landed is no longer owed, and one that is not collected
/// stays until it is.
pub proof fn lemma_a_result_is_owed_once(
    ops: Map<usize, Entry>,
    key: OpKey,
    res: i32,
    flags: CqeFlags,
)
    requires
        is_live(ops, key),
        in_kernel(ops[key.index as usize]),
    ensures
        owed(ops).contains(key.index as usize),
        owed(landed(ops, packed(key), res, flags)) == owed(ops).remove(key.index as usize),
        is_attended(ops[key.index as usize]) ==> landed(ops, packed(key), res, flags)[
            key.index as usize
        ].state == State::Completed(res, flags),
{
    lemma_key_round_trips(key, 0);
    assert(owed(landed(ops, packed(key), res, flags)) =~= owed(ops).remove(key.index as usize));
}

/// A detached operation's completion finds the action it left, exactly once:
/// after it the key is stale.
pub proof fn lemma_a_detached_action_runs_once(
    ops: Map<usize, Entry>,
    key: OpKey,
    action: Action,
    res: i32,
    flags: CqeFlags,
)
    requires
        is_live(ops, key),
        ops[key.index as usize].state == State::Detached(action),
    ensures
        outcome(ops, packed(key), res, flags) == Outcome::Detached(action, res, flags),
        !is_live(landed(ops, packed(key), res, flags), key),
        outcome(landed(ops, packed(key), res, flags), packed(key), res, flags) is Ignore,
{
    lemma_key_round_trips(key, 0);
}

/// Giving up on everything leaves only detached operations, and every action
/// that was already there stays.
pub proof fn lemma_abandoning_keeps_actions(ops: Map<usize, Entry>, k: usize)
    requires
        ops.contains_key(k),
        in_kernel(ops[k]),
    ensures
        abandoned(ops).contains_key(k),
        abandoned(ops)[k].state is Detached,
        ops[k].state is Detached ==> abandoned(ops)[k] == ops[k],
        abandoned(ops)[k].seq == ops[k].seq,
{
}

/// The token of an operation is its entry in the lower half and its sequence number in
/// the upper, so no two operations have the same.
pub proof fn lemma_a_token_is_index_and_sequence(a: OpKey, b: OpKey)
    ensures
        packed(a) % 0x1_0000_0000 == a.index,
        packed(a) / 0x1_0000_0000 == a.seq,
        packed(a) == packed(b) ==> a == b,
{
}

/// A completion that lands on an operation somebody waits for wakes whoever that is,
/// be it a success or an error, and leaves the result for them to take, the whole of
/// it.
pub proof fn lemma_a_waiter_is_woken(
    ops: Map<usize, Entry>,
    key: OpKey,
    waker: Waker,
    res: i32,
    flags: CqeFlags,
)
    requires
        ops.contains_key(key.index as usize),
        ops[key.index as usize] == (Entry { seq: key.seq, state: State::Waiting(waker) }),
    ensures
        outcome(ops, packed(key), res, flags) == Outcome::Wake(waker),
        landed(ops, packed(key), res, flags) == ops.insert(
            key.index as usize,
            Entry { seq: key.seq, state: State::Completed(res, flags) },
        ),
{
    lemma_key_round_trips(key, 0);
}

/// A completion that lands before anybody has asked for it wakes nobody, and the whole
/// of its result is kept for whoever asks.
pub proof fn lemma_an_early_result_is_kept(
    ops: Map<usize, Entry>,
    key: OpKey,
    res: i32,
    flags: CqeFlags,
)
    requires
        ops.contains_key(key.index as usize),
        ops[key.index as usize] == (Entry { seq: key.seq, state: State::Submitted }),
    ensures
        outcome(ops, packed(key), res, flags) is Ignore,
        landed(ops, packed(key), res, flags) == ops.insert(
            key.index as usize,
            Entry { seq: key.seq, state: State::Completed(res, flags) },
        ),
{
    lemma_key_round_trips(key, 0);
}

/// A completion that lands on an operation nobody waits for any more hands out the
/// action that was left with it, together with the whole of its result, and frees the
/// entry and no other.
pub proof fn lemma_a_detached_entry_is_freed(
    ops: Map<usize, Entry>,
    key: OpKey,
    action: Action,
    res: i32,
    flags: CqeFlags,
)
    requires
        ops.contains_key(key.index as usize),
        ops[key.index as usize] == (Entry { seq: key.seq, state: State::Detached(action) }),
    ensures
        outcome(ops, packed(key), res, flags) == Outcome::Detached(action, res, flags),
        landed(ops, packed(key), res, flags) == ops.remove(key.index as usize),
{
    lemma_key_round_trips(key, 0);
}

/// A second completion of an operation that has completed tells nobody.
pub proof fn lemma_a_second_completion_tells_nobody(
    ops: Map<usize, Entry>,
    key: OpKey,
    res: i32,
    flags: CqeFlags,
)
    requires
        ops.contains_key(key.index as usize),
        ops[key.index as usize].seq == key.seq,
        ops[key.index as usize].state is Completed,
    ensures
        outcome(ops, packed(key), res, flags) is Ignore,
        landed(ops, packed(key), res, flags).contains_key(key.index as usize),
{
    lemma_key_round_trips(key, 0);
}

/// A completion touches no entry but its own, and that only if the sequence number is
/// the one the entry has: nothing else decides whether it is stale.
pub proof fn lemma_a_completion_touches_its_own_entry(
    ops: Map<usize, Entry>,
    key: OpKey,
    k: usize,
    res: i32,
    flags: CqeFlags,
)
    ensures
        k != key.index ==> {
            let then = landed(ops, packed(key), res, flags);
            &&& then.contains_key(k) == ops.contains_key(k)
            &&& ops.contains_key(k) ==> then[k] == ops[k]
        },
        is_live(ops, key) <==> ops.contains_key(key.index as usize)
            && ops[key.index as usize].seq == key.seq,
        !(ops.contains_key(key.index as usize) && ops[key.index as usize].seq == key.seq) ==> {
            &&& landed(ops, packed(key), res, flags) == ops
            &&& outcome(ops, packed(key), res, flags) is Ignore
        },
{
    lemma_key_round_trips(key, 0);
}

/// What is owed is what has been submitted and has not completed, whether anybody
/// waits for it or not.
pub proof fn lemma_what_is_owed(ops: Map<usize, Entry>, k: usize)
    requires
        ops.contains_key(k),
    ensures
        match ops[k].state {
            State::Submitted => owed(ops).contains(k),
            State::Waiting(_) => owed(ops).contains(k),
            State::Detached(_) => owed(ops).contains(k),
            State::Completed(_, _) => !owed(ops).contains(k),
        },
        forall|j: usize| #[trigger] owed(ops).contains(j) ==> ops.contains_key(j),
{
}

/// Giving up on everything: what somebody may yet have asked for is left to itself,
/// what has an action keeps it, and what has completed is gone. Nothing else is there.
pub proof fn lemma_what_is_abandoned(ops: Map<usize, Entry>, k: usize)
    ensures
        abandoned(ops).contains_key(k) <==> ops.contains_key(k) && !(ops[k].state is Completed),
        ops.contains_key(k) ==> match ops[k].state {
            State::Submitted => abandoned(ops)[k] == (Entry {
                seq: ops[k].seq,
                state: State::Detached(Action::Discard),
            }),
            State::Waiting(_) => abandoned(ops)[k] == (Entry {
                seq: ops[k].seq,
                state: State::Detached(Action::Discard),
            }),
            State::Detached(_) => abandoned(ops)[k] == ops[k],
            State::Completed(_, _) => true,
        },
{
}

/// What is to be cancelled is every operation somebody may yet ask for, each once,
/// under its own key, and nothing else.
pub proof fn lemma_what_is_attended(ops: Map<usize, Entry>, keys: Seq<OpKey>, k: usize)
    requires
        attended(ops, keys),
    ensures
        forall|i: int|
            0 <= i < keys.len() ==> {
                let key = #[trigger] keys[i];
                &&& ops.contains_key(key.index as usize)
                &&& ops[key.index as usize].seq == key.seq
                &&& ops[key.index as usize].state is Submitted
                    || ops[key.index as usize].state is Waiting
            },
        ops.contains_key(k) && (ops[k].state is Submitted || ops[k].state is Waiting)
            ==> exists|i: int| 0 <= i < keys.len() && (#[trigger] keys[i]).index == k,
        keys.no_duplicates(),
{
    assert forall|i: int| 0 <= i < keys.len() implies {
        let key = #[trigger] keys[i];
        &&& ops.contains_key(key.index as usize)
        &&& ops[key.index as usize].seq == key.seq
        &&& ops[key.index as usize].state is Submitted || ops[key.index as usize].state is Waiting
    } by {
        assert(is_live(ops, keys[i]));
    }
    assert forall|i: int, j: int| 0 <= i < j < keys.len() implies keys[i] != keys[j] by {
        assert(keys[i].index < keys[j].index);
    }
}

} // verus!
