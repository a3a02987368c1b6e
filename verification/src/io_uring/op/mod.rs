//! Typed submission queue entries, one per operation.
//!
//! Each op wraps a [`sys::Sqe`](super::sys::Sqe) with builder methods named after
//! the operation's own parameters rather than the union slots they land in — so
//! `Read::offset` writes `addr2` and `Timeout::count` writes it too, without the
//! caller needing to know that. Every setter takes `self` and returns it, and
//! every setter has a matching `get_` reader.
//!
//! # Field type conventions
//!
//! | shape | type |
//! |---|---|
//! | required pointer | [`Ptr`] |
//! | optional pointer | `Option<Ptr>` |
//! | pointers that must be set or unset together | `Option<(Ptr, Ptr)>` |
//! | buffer | [`Span`] |
//! | file descriptor | `i32` |
//! | direct descriptor slot | `u32`, 0-based; the wire encoding is 1-based |
//! | flag word | the matching flags type |
//!
//! A required pointer that was never set reads back as a dangling one, which is
//! aligned for its type on x86-64 and points nowhere; an optional one as `None`.
//!
//! The pair exists because several operations take a buffer alongside a pointer
//! to its length, and the kernel dereferences the second only if the first is
//! non-null. Binding them into one value makes "both or neither" the only
//! representable state. The same applies to values packed into the two halves of
//! one word, such as [`UringCmd::sockopt`].
//!
//! Where two fields deliberately share one SQE word, the docs say so. `buf`
//! writes an address and a length, and `nbytes` then narrows the length alone,
//! so it must come second; [`MsgRing::slot`] and [`MsgRing::cqe_flags`] are
//! alternatives for the same word and only one may be set.
//!
//! Construction always starts from a zeroed entry and writes the whole 64 bytes.
//! That matters: a submission slot is reused once the ring wraps, so anything
//! left unwritten would inherit the previous request's bytes.

pub mod basic;
pub mod epoll;
pub mod file;
pub mod namespace;
pub mod passthrough;
pub mod poll;
pub mod resource;
pub mod socket;
pub mod splice;
pub mod vectored;
pub mod xattr;

use vstd::prelude::*;

use super::flags::SqeFlags;
use super::sys::Sqe;

pub use self::basic::{Accept, Close, Nop, Openat, Read, Recv, Send, Timeout, Write};
pub use self::epoll::{EpollCtl, EpollWait};
pub use self::file::{Fadvise, Fallocate, Fsync, Ftruncate, Madvise, Statx, SyncFileRange};
pub use self::namespace::{Linkat, Mkdirat, Openat2, Pipe, Renameat, Symlinkat, Unlinkat};
pub use self::passthrough::{Nop128, UringCmd, UringCmd128};
pub use self::poll::{
    AsyncCancel, FutexWait, FutexWaitv, FutexWake, LinkTimeout, PollAdd, PollRemove, TimeoutRemove,
    Waitid,
};
pub use self::resource::{FilesUpdate, FixedFdInstall, MsgRing, ProvideBuffers, RemoveBuffers};
pub use self::socket::{
    Bind, Connect, Listen, RecvZc, Recvmsg, SendZc, Sendmsg, SendmsgZc, Shutdown, Socket,
};
pub use self::splice::{Splice, Tee};
pub use self::vectored::{
    ReadFixed, ReadMultishot, Readv, ReadvFixed, WriteFixed, Writev, WritevFixed,
};
pub use self::xattr::{Fgetxattr, Fsetxattr, Getxattr, Setxattr};

verus! {

/// An operation: a submission queue entry under construction.
pub trait Op: Sized {
    /// The encoded entry, in the specification.
    spec fn sqe(&self) -> Sqe;

    /// The encoded entry as it stands.
    fn as_sqe(&self) -> (sqe: &Sqe)
        ensures
            *sqe == self.sqe(),
    ;

    /// The operation encoded by `sqe`.
    fn with_sqe(self, sqe: Sqe) -> (op: Self)
        ensures
            op.sqe() == sqe,
    ;

    /// The encoded submission queue entry.
    fn into_sqe(self) -> (sqe: Sqe)
        ensures
            sqe == self.sqe(),
    {
        *self.as_sqe()
    }

    /// The completion token echoed back in `cqe.user_data`.
    fn user_data(self, value: u64) -> (op: Self)
        ensures
            op.sqe() == (Sqe { user_data: value, ..self.sqe() }),
    {
        let sqe = Sqe { user_data: value, ..*self.as_sqe() };
        self.with_sqe(sqe)
    }

    /// Reads back [`Op::user_data`].
    fn get_user_data(&self) -> (value: u64)
        ensures
            value == self.sqe().user_data,
    {
        self.as_sqe().user_data
    }

    /// Submission flags — linking, drain, fixed file, buffer select.
    ///
    /// Named `sqe_flags` because several operations have a `flags` of their own
    /// that lands in a different field.
    fn sqe_flags(self, value: SqeFlags) -> (op: Self)
        ensures
            op.sqe() == (Sqe { flags: value, ..self.sqe() }),
    {
        let sqe = Sqe { flags: value, ..*self.as_sqe() };
        self.with_sqe(sqe)
    }

    /// Reads back [`Op::sqe_flags`].
    fn get_sqe_flags(&self) -> (value: SqeFlags)
        ensures
            value == self.sqe().flags,
    {
        self.as_sqe().flags
    }

    /// Registered credentials to issue this operation under.
    fn personality(self, value: u16) -> (op: Self)
        ensures
            op.sqe() == (Sqe { personality: value, ..self.sqe() }),
    {
        let sqe = Sqe { personality: value, ..*self.as_sqe() };
        self.with_sqe(sqe)
    }

    /// Reads back [`Op::personality`].
    fn get_personality(&self) -> (value: u16)
        ensures
            value == self.sqe().personality,
    {
        self.as_sqe().personality
    }
}

impl<T: Op> From<T> for Sqe {
    /// The encoded submission queue entry.
    fn from(op: T) -> (sqe: Sqe) {
        op.into_sqe()
    }
}

impl<T: Op> vstd::std_specs::convert::FromSpecImpl<T> for Sqe {
    open spec fn obeys_from_spec() -> bool {
        true
    }

    open spec fn from_spec(op: T) -> Sqe {
        op.sqe()
    }
}

/// An address that is not null.
#[derive(Clone, Copy, Debug, PartialEq, Eq, Structural)]
pub struct Ptr {
    addr: u64,
}

impl View for Ptr {
    type V = u64;

    closed spec fn view(&self) -> u64 {
        self.addr
    }
}

impl Ptr {
    #[verifier::type_invariant]
    spec fn not_null(self) -> bool {
        self.addr != 0
    }

    /// The pointer to `addr`, unless that is null.
    pub fn new(addr: u64) -> (ptr: Option<Ptr>)
        ensures
            points_at(ptr, addr),
    {
        if addr == 0 {
            None
        } else {
            Some(Ptr { addr })
        }
    }

    /// The address pointed at.
    pub fn addr(self) -> (addr: u64)
        ensures
            addr == self@,
            addr != 0,
    {
        proof {
            use_type_invariant(self);
        }
        self.addr
    }
}

/// Memory from `ptr` on.
#[derive(Clone, Copy, Debug, PartialEq, Eq)]
pub struct Span {
    pub ptr: Ptr,
    /// In bytes.
    pub len: u64,
}

/// `ptr` is what the word `raw` points at, nothing if that is null.
pub open spec fn points_at(ptr: Option<Ptr>, raw: u64) -> bool {
    match ptr {
        Some(ptr) => ptr@ == raw && raw != 0,
        None => raw == 0,
    }
}

/// The word for a pointer, where zero means absent.
pub open spec fn word_of(ptr: Option<Ptr>) -> u64 {
    match ptr {
        Some(ptr) => ptr@,
        None => 0,
    }
}

/// Encode a pointer into an SQE word.
pub fn ptr_enc(ptr: Ptr) -> (raw: u64)
    ensures
        raw == ptr@,
        raw != 0,
{
    ptr.addr()
}

/// The address that the pointer in the word `raw` reads back as: the word itself,
/// or, when the field was never set, a dangling address, which is the least that
/// is aligned for what would be there.
pub open spec fn pointer_in(raw: u64, align: u64) -> u64 {
    if raw != 0 {
        raw
    } else {
        align
    }
}

/// Rebuild a pointer to something of alignment `align` from an SQE word, reporting
/// a dangling pointer when the field was never set.
pub fn ptr_dec(raw: u64, align: u64) -> (ptr: Ptr)
    requires
        align != 0,
    ensures
        ptr@ == pointer_in(raw, align),
{
    if raw != 0 {
        Ptr { addr: raw }
    } else {
        Ptr { addr: align }
    }
}

/// Encode an optional pointer, where zero means absent.
pub fn optptr_enc(ptr: Option<Ptr>) -> (raw: u64)
    ensures
        raw == word_of(ptr),
        points_at(ptr, raw),
{
    match ptr {
        Some(ptr) => ptr.addr(),
        None => 0,
    }
}

/// Rebuild an optional pointer from an SQE word.
pub fn optptr_dec(raw: u64) -> (ptr: Option<Ptr>)
    ensures
        points_at(ptr, raw),
{
    Ptr::new(raw)
}

/// Rebuild a buffer from an `addr`/`len` pair.
///
/// A zeroed SQE has no buffer, so this reports a dangling pointer of the recorded
/// length rather than pretending the address is valid.
pub fn buf_from(addr: u64, len: u32) -> (buf: Span)
    ensures
        buf.ptr@ == pointer_in(addr, 1),
        buf.len == len,
{
    Span { ptr: ptr_dec(addr, 1), len: len as u64 }
}

/// A direct descriptor slot on the wire: 1-based, wrapping.
pub open spec fn slot_word(slot: u32) -> u32 {
    if slot == u32::MAX {
        0
    } else {
        (slot + 1) as u32
    }
}

/// The slot a word on the wire names.
pub open spec fn slot_of(raw: u32) -> u32 {
    if raw == 0 {
        u32::MAX
    } else {
        (raw - 1) as u32
    }
}

/// Encode a direct descriptor slot, which the kernel takes 1-based so that zero
/// can mean "not a fixed file".
pub fn slot_encode(slot: u32) -> (raw: u32)
    ensures
        raw == slot_word(slot),
{
    slot.wrapping_add(1)
}

/// Read a direct descriptor slot back.
pub fn slot_decode(raw: u32) -> (slot: u32)
    ensures
        slot == slot_of(raw),
{
    raw.wrapping_sub(1)
}

/// Two values in the halves of one word, the first in the low half.
pub open spec fn paired(value: (u32, u32)) -> u64 {
    (value.0 + value.1 * 0x1_0000_0000) as u64
}

/// The halves of a word.
pub open spec fn unpaired(word: u64) -> (u32, u32) {
    ((word % 0x1_0000_0000) as u32, (word / 0x1_0000_0000) as u32)
}

/// Put two values into one word.
pub fn pair_enc(value: (u32, u32)) -> (word: u64)
    ensures
        word == paired(value),
{
    let (low, high) = value;
    proof {
        assert(low as u64 | ((high as u64) << 32u64) == low + high * 0x1_0000_0000)
            by (bit_vector);
    }
    low as u64 | ((high as u64) << 32u64)
}

/// Take two values out of one word.
pub fn pair_dec(word: u64) -> (value: (u32, u32))
    ensures
        value == unpaired(word),
{
    proof {
        assert(word as u32 == word % 0x1_0000_0000 && (word >> 32u64) as u32 == word
            / 0x1_0000_0000) by (bit_vector);
    }
    (word as u32, (word >> 32u64) as u32)
}

/// A slot comes back from the wire unchanged, the one that asks the kernel to
/// choose among them, and a word for the wire from the slot.
pub proof fn lemma_slot_round_trips(slot: u32, raw: u32)
    ensures
        slot_of(slot_word(slot)) == slot,
        slot_word(slot_of(raw)) == raw,
{
}

/// Two values packed into a word come back unchanged, and so does the word.
pub proof fn lemma_pair_round_trips(value: (u32, u32), word: u64)
    ensures
        unpaired(paired(value)) == value,
        paired(unpaired(word)) == word,
{
}

/// What a pointer was encoded as reads back as the same pointer, optional or not.
pub proof fn lemma_pointer_round_trips(set: Option<Ptr>, read: Option<Ptr>, align: u64)
    requires
        points_at(set, word_of(set)),
        points_at(read, word_of(set)),
    ensures
        read is Some == set is Some,
        set is Some ==> read->0@ == set->0@,
        set is Some ==> pointer_in(set->0@, align) == set->0@,
{
}

/// A signed number and a narrow one survive the wider word they are written to.
pub proof fn lemma_narrow_values_round_trip(signed: i32, short: u16, count: u32)
    ensures
        (signed as u32) as i32 == signed,
        (short as u32) as u16 == short,
        (count as u64) as u32 == count,
{
    assert((signed as u32) as i32 == signed && (short as u32) as u16 == short && (count as u64)
        as u32 == count) by (bit_vector);
}

/// A slot goes out as one more than its number, so that no slot is mistaken for none:
/// zero is left to mean that there is no slot.
pub proof fn lemma_a_slot_goes_out_one_higher(slot: u32)
    ensures
        slot < u32::MAX ==> slot_word(slot) == slot + 1 && slot_of((slot + 1) as u32) == slot,
        slot_word(slot) == 0 <==> slot == u32::MAX,
{
}

/// Of two values in one word the first is the lower half and the second the upper.
pub proof fn lemma_a_pair_is_two_halves(value: (u32, u32), word: u64)
    ensures
        paired(value) % 0x1_0000_0000 == value.0,
        paired(value) / 0x1_0000_0000 == value.1,
        unpaired(word).0 + unpaired(word).1 * 0x1_0000_0000 == word,
{
}

/// A pointer goes out as its address, and none as zero. A word that is not zero reads
/// back as the pointer to that address; zero as none, or where there has to be one as
/// a pointer that is as aligned as it has to be.
pub proof fn lemma_a_pointer_is_its_address(ptr: Ptr, read: Option<Ptr>, raw: u64, align: u64)
    ensures
        word_of(Some(ptr)) == ptr@,
        word_of(None) == 0,
        points_at(read, raw) && raw != 0 ==> (read matches Some(p) && p@ == raw),
        points_at(read, raw) && raw == 0 ==> read is None,
        raw != 0 ==> pointer_in(raw, align) == raw,
        pointer_in(0, align) == align,
{
}

/// Every word but zero is some pointer's, and zero is nothing's.
pub proof fn lemma_every_address_is_pointed_at(ptr: Ptr)
    requires
        ptr@ != 0,
    ensures
        points_at(Some(ptr), ptr@),
        points_at(None, 0),
        forall|raw: u64| #[trigger] points_at(Some(ptr), raw) ==> raw == ptr@,
        forall|raw: u64| #[trigger] points_at(None, raw) ==> raw == 0,
{
}

/// An operation becomes the entry it encodes, whatever it is.
pub proof fn lemma_an_operation_becomes_its_entry<T: Op>(op: T)
    ensures
        <Sqe as vstd::std_specs::convert::FromSpec<T>>::obeys_from_spec(),
        <Sqe as vstd::std_specs::convert::FromSpec<T>>::from_spec(op) == op.sqe(),
{
}

} // verus!
