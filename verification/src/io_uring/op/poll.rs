//! Polling, timers and cancellation.

use vstd::prelude::*;

use crate::io_uring::op;
use crate::io_uring::op::{Op, Ptr};
use crate::io_uring::sys;
use crate::io_uring::sys::{AsyncCancelFlags, Opcode, PollFlags, Sqe, TimeoutFlags};

verus! {

/// Wait for readiness on a descriptor.
#[derive(Clone, Copy, Debug)]
pub struct PollAdd {
    sqe: Sqe,
}

impl Op for PollAdd {
    closed spec fn sqe(&self) -> Sqe {
        self.sqe
    }

    fn as_sqe(&self) -> (sqe: &Sqe) {
        &self.sqe
    }

    fn with_sqe(self, sqe: Sqe) -> (op: PollAdd) {
        PollAdd { sqe }
    }
}

impl PollAdd {
    /// A zeroed SQE for this operation.
    pub fn new() -> (op: PollAdd)
        ensures
            op.sqe() == sys::blank(Opcode::PollAdd),
    {
        PollAdd { sqe: Sqe::new(Opcode::PollAdd) }
    }

    /// Sets the `fd`.
    pub fn fd(self, value: i32) -> (op: PollAdd)
        ensures
            op.sqe() == (Sqe { fd: value, ..self.sqe() }),
    {
        PollAdd { sqe: Sqe { fd: value, ..self.sqe } }
    }

    /// Reads back [`PollAdd::fd`].
    pub fn get_fd(&self) -> (value: i32)
        ensures
            value == self.sqe().fd,
    {
        self.sqe.fd
    }

    /// `EPOLL*` event mask. Little-endian only; big-endian needs a word swap.
    pub fn events(self, value: u32) -> (op: PollAdd)
        ensures
            op.sqe() == (Sqe { op_flags: value, ..self.sqe() }),
    {
        PollAdd { sqe: Sqe { op_flags: value, ..self.sqe } }
    }

    /// Reads back [`PollAdd::events`].
    pub fn get_events(&self) -> (value: u32)
        ensures
            value == self.sqe().op_flags,
    {
        self.sqe.op_flags
    }

    /// [`sys::PollFlags::ADD_MULTI`] for multishot. Lives in `len`, not
    /// `op_flags`, which the event mask occupies.
    pub fn flags(self, value: PollFlags) -> (op: PollAdd)
        ensures
            op.sqe() == (Sqe { len: value.bits, ..self.sqe() }),
    {
        PollAdd { sqe: Sqe { len: value.bits(), ..self.sqe } }
    }

    /// Reads back [`PollAdd::flags`].
    pub fn get_flags(&self) -> (value: PollFlags)
        ensures
            value.bits == self.sqe().len,
    {
        PollFlags::from_bits_retain(self.sqe.len)
    }
}

/// Remove or update a pending poll.
#[derive(Clone, Copy, Debug)]
pub struct PollRemove {
    sqe: Sqe,
}

impl Op for PollRemove {
    closed spec fn sqe(&self) -> Sqe {
        self.sqe
    }

    fn as_sqe(&self) -> (sqe: &Sqe) {
        &self.sqe
    }

    fn with_sqe(self, sqe: Sqe) -> (op: PollRemove) {
        PollRemove { sqe }
    }
}

impl PollRemove {
    /// A zeroed SQE for this operation.
    pub fn new() -> (op: PollRemove)
        ensures
            op.sqe() == (Sqe { fd: -1i32, ..sys::blank(Opcode::PollRemove) }),
    {
        PollRemove { sqe: Sqe { fd: -1, ..Sqe::new(Opcode::PollRemove) } }
    }

    /// `user_data` of the poll to act on.
    pub fn target(self, value: u64) -> (op: PollRemove)
        ensures
            op.sqe() == (Sqe { addr: value, ..self.sqe() }),
    {
        PollRemove { sqe: Sqe { addr: value, ..self.sqe } }
    }

    /// Reads back [`PollRemove::target`].
    pub fn get_target(&self) -> (value: u64)
        ensures
            value == self.sqe().addr,
    {
        self.sqe.addr
    }

    /// Replacement `user_data`, with [`sys::PollFlags::UPDATE_USER_DATA`].
    pub fn new_user_data(self, value: u64) -> (op: PollRemove)
        ensures
            op.sqe() == (Sqe { addr2: value, ..self.sqe() }),
    {
        PollRemove { sqe: Sqe { addr2: value, ..self.sqe } }
    }

    /// Reads back [`PollRemove::new_user_data`].
    pub fn get_new_user_data(&self) -> (value: u64)
        ensures
            value == self.sqe().addr2,
    {
        self.sqe.addr2
    }

    /// Replacement event mask, with [`sys::PollFlags::UPDATE_EVENTS`].
    pub fn events(self, value: u32) -> (op: PollRemove)
        ensures
            op.sqe() == (Sqe { op_flags: value, ..self.sqe() }),
    {
        PollRemove { sqe: Sqe { op_flags: value, ..self.sqe } }
    }

    /// Reads back [`PollRemove::events`].
    pub fn get_events(&self) -> (value: u32)
        ensures
            value == self.sqe().op_flags,
    {
        self.sqe.op_flags
    }

    /// Sets the `flags`.
    pub fn flags(self, value: PollFlags) -> (op: PollRemove)
        ensures
            op.sqe() == (Sqe { len: value.bits, ..self.sqe() }),
    {
        PollRemove { sqe: Sqe { len: value.bits(), ..self.sqe } }
    }

    /// Reads back [`PollRemove::flags`].
    pub fn get_flags(&self) -> (value: PollFlags)
        ensures
            value.bits == self.sqe().len,
    {
        PollFlags::from_bits_retain(self.sqe.len)
    }
}

/// Cancel a pending operation.
#[derive(Clone, Copy, Debug)]
pub struct AsyncCancel {
    sqe: Sqe,
}

impl Op for AsyncCancel {
    closed spec fn sqe(&self) -> Sqe {
        self.sqe
    }

    fn as_sqe(&self) -> (sqe: &Sqe) {
        &self.sqe
    }

    fn with_sqe(self, sqe: Sqe) -> (op: AsyncCancel) {
        AsyncCancel { sqe }
    }
}

impl AsyncCancel {
    /// A zeroed SQE for this operation.
    pub fn new() -> (op: AsyncCancel)
        ensures
            op.sqe() == (Sqe { fd: -1i32, ..sys::blank(Opcode::AsyncCancel) }),
    {
        AsyncCancel { sqe: Sqe { fd: -1, ..Sqe::new(Opcode::AsyncCancel) } }
    }

    /// `user_data` of the operation to cancel.
    pub fn target(self, value: u64) -> (op: AsyncCancel)
        ensures
            op.sqe() == (Sqe { addr: value, ..self.sqe() }),
    {
        AsyncCancel { sqe: Sqe { addr: value, ..self.sqe } }
    }

    /// Reads back [`AsyncCancel::target`].
    pub fn get_target(&self) -> (value: u64)
        ensures
            value == self.sqe().addr,
    {
        self.sqe.addr
    }

    /// Cancel by descriptor, with [`sys::AsyncCancelFlags::FD`].
    pub fn fd(self, value: i32) -> (op: AsyncCancel)
        ensures
            op.sqe() == (Sqe { fd: value, ..self.sqe() }),
    {
        AsyncCancel { sqe: Sqe { fd: value, ..self.sqe } }
    }

    /// Reads back [`AsyncCancel::fd`].
    pub fn get_fd(&self) -> (value: i32)
        ensures
            value == self.sqe().fd,
    {
        self.sqe.fd
    }

    /// Sets the `flags`.
    pub fn flags(self, value: AsyncCancelFlags) -> (op: AsyncCancel)
        ensures
            op.sqe() == (Sqe { op_flags: value.bits, ..self.sqe() }),
    {
        AsyncCancel { sqe: Sqe { op_flags: value.bits(), ..self.sqe } }
    }

    /// Reads back [`AsyncCancel::flags`].
    pub fn get_flags(&self) -> (value: AsyncCancelFlags)
        ensures
            value.bits == self.sqe().op_flags,
    {
        AsyncCancelFlags::from_bits_retain(self.sqe.op_flags)
    }

    /// Cancel by opcode, with [`sys::AsyncCancelFlags::OP`].
    pub fn opcode(self, value: u16) -> (op: AsyncCancel)
        ensures
            op.sqe() == (Sqe { buf_index: value, ..self.sqe() }),
    {
        AsyncCancel { sqe: Sqe { buf_index: value, ..self.sqe } }
    }

    /// Reads back [`AsyncCancel::opcode`].
    pub fn get_opcode(&self) -> (value: u16)
        ensures
            value == self.sqe().buf_index,
    {
        self.sqe.buf_index
    }
}

/// Remove or update a pending timeout.
#[derive(Clone, Copy, Debug)]
pub struct TimeoutRemove {
    sqe: Sqe,
}

impl Op for TimeoutRemove {
    closed spec fn sqe(&self) -> Sqe {
        self.sqe
    }

    fn as_sqe(&self) -> (sqe: &Sqe) {
        &self.sqe
    }

    fn with_sqe(self, sqe: Sqe) -> (op: TimeoutRemove) {
        TimeoutRemove { sqe }
    }
}

impl TimeoutRemove {
    /// A zeroed SQE for this operation.
    pub fn new() -> (op: TimeoutRemove)
        ensures
            op.sqe() == (Sqe { fd: -1i32, ..sys::blank(Opcode::TimeoutRemove) }),
    {
        TimeoutRemove { sqe: Sqe { fd: -1, ..Sqe::new(Opcode::TimeoutRemove) } }
    }

    /// `user_data` of the timeout to act on.
    pub fn target(self, value: u64) -> (op: TimeoutRemove)
        ensures
            op.sqe() == (Sqe { addr: value, ..self.sqe() }),
    {
        TimeoutRemove { sqe: Sqe { addr: value, ..self.sqe } }
    }

    /// Reads back [`TimeoutRemove::target`].
    pub fn get_target(&self) -> (value: u64)
        ensures
            value == self.sqe().addr,
    {
        self.sqe.addr
    }

    /// Replacement value, with [`sys::TimeoutFlags::UPDATE`].
    pub fn ts(self, value: Option<Ptr>) -> (op: TimeoutRemove)
        ensures
            op.sqe() == (Sqe { addr2: op::word_of(value), ..self.sqe() }),
    {
        TimeoutRemove { sqe: Sqe { addr2: op::optptr_enc(value), ..self.sqe } }
    }

    /// Reads back [`TimeoutRemove::ts`].
    pub fn get_ts(&self) -> (value: Option<Ptr>)
        ensures
            op::points_at(value, self.sqe().addr2),
    {
        op::optptr_dec(self.sqe.addr2)
    }

    /// Sets the `flags`.
    pub fn flags(self, value: TimeoutFlags) -> (op: TimeoutRemove)
        ensures
            op.sqe() == (Sqe { op_flags: value.bits, ..self.sqe() }),
    {
        TimeoutRemove { sqe: Sqe { op_flags: value.bits(), ..self.sqe } }
    }

    /// Reads back [`TimeoutRemove::flags`].
    pub fn get_flags(&self) -> (value: TimeoutFlags)
        ensures
            value.bits == self.sqe().op_flags,
    {
        TimeoutFlags::from_bits_retain(self.sqe.op_flags)
    }
}

/// Cancel the previous linked operation if it outlives the timeout.
///
/// Must directly follow an SQE carrying [`sys::SqeFlags::IO_LINK`].
#[derive(Clone, Copy, Debug)]
pub struct LinkTimeout {
    sqe: Sqe,
}

impl Op for LinkTimeout {
    closed spec fn sqe(&self) -> Sqe {
        self.sqe
    }

    fn as_sqe(&self) -> (sqe: &Sqe) {
        &self.sqe
    }

    fn with_sqe(self, sqe: Sqe) -> (op: LinkTimeout) {
        LinkTimeout { sqe }
    }
}

impl LinkTimeout {
    /// A zeroed SQE for this operation.
    pub fn new() -> (op: LinkTimeout)
        ensures
            op.sqe() == (Sqe { len: 1, fd: -1i32, ..sys::blank(Opcode::LinkTimeout) }),
    {
        LinkTimeout { sqe: Sqe { len: 1, fd: -1, ..Sqe::new(Opcode::LinkTimeout) } }
    }

    /// Sets the `ts`.
    pub fn ts(self, value: Ptr) -> (op: LinkTimeout)
        ensures
            op.sqe() == (Sqe { addr: value@, ..self.sqe() }),
    {
        LinkTimeout { sqe: Sqe { addr: op::ptr_enc(value), ..self.sqe } }
    }

    /// Reads back [`LinkTimeout::ts`].
    pub fn get_ts(&self) -> (value: Ptr)
        ensures
            value@ == op::pointer_in(self.sqe().addr, 8),
    {
        op::ptr_dec(self.sqe.addr, 8)
    }

    /// Sets the `flags`.
    pub fn flags(self, value: TimeoutFlags) -> (op: LinkTimeout)
        ensures
            op.sqe() == (Sqe { op_flags: value.bits, ..self.sqe() }),
    {
        LinkTimeout { sqe: Sqe { op_flags: value.bits(), ..self.sqe } }
    }

    /// Reads back [`LinkTimeout::flags`].
    pub fn get_flags(&self) -> (value: TimeoutFlags)
        ensures
            value.bits == self.sqe().op_flags,
    {
        TimeoutFlags::from_bits_retain(self.sqe.op_flags)
    }
}

/// Wait on a futex.
#[derive(Clone, Copy, Debug)]
pub struct FutexWait {
    sqe: Sqe,
}

impl Op for FutexWait {
    closed spec fn sqe(&self) -> Sqe {
        self.sqe
    }

    fn as_sqe(&self) -> (sqe: &Sqe) {
        &self.sqe
    }

    fn with_sqe(self, sqe: Sqe) -> (op: FutexWait) {
        FutexWait { sqe }
    }
}

impl FutexWait {
    /// A zeroed SQE for this operation.
    pub fn new() -> (op: FutexWait)
        ensures
            op.sqe() == sys::blank(Opcode::FutexWait),
    {
        FutexWait { sqe: Sqe::new(Opcode::FutexWait) }
    }

    /// The futex word.
    pub fn futex(self, value: Ptr) -> (op: FutexWait)
        ensures
            op.sqe() == (Sqe { addr: value@, ..self.sqe() }),
    {
        FutexWait { sqe: Sqe { addr: op::ptr_enc(value), ..self.sqe } }
    }

    /// Reads back [`FutexWait::futex`].
    pub fn get_futex(&self) -> (value: Ptr)
        ensures
            value@ == op::pointer_in(self.sqe().addr, 4),
    {
        op::ptr_dec(self.sqe.addr, 4)
    }

    /// Value to compare against.
    pub fn val(self, value: u64) -> (op: FutexWait)
        ensures
            op.sqe() == (Sqe { addr2: value, ..self.sqe() }),
    {
        FutexWait { sqe: Sqe { addr2: value, ..self.sqe } }
    }

    /// Reads back [`FutexWait::val`].
    pub fn get_val(&self) -> (value: u64)
        ensures
            value == self.sqe().addr2,
    {
        self.sqe.addr2
    }

    /// Bitset of which waiters this matches.
    pub fn mask(self, value: u64) -> (op: FutexWait)
        ensures
            op.sqe() == (Sqe { addr3: value, ..self.sqe() }),
    {
        FutexWait { sqe: Sqe { addr3: value, ..self.sqe } }
    }

    /// Reads back [`FutexWait::mask`].
    pub fn get_mask(&self) -> (value: u64)
        ensures
            value == self.sqe().addr3,
    {
        self.sqe.addr3
    }

    /// `FUTEX2_*` flags, in the `fd` slot.
    pub fn futex_flags(self, value: i32) -> (op: FutexWait)
        ensures
            op.sqe() == (Sqe { fd: value, ..self.sqe() }),
    {
        FutexWait { sqe: Sqe { fd: value, ..self.sqe } }
    }

    /// Reads back [`FutexWait::futex_flags`].
    pub fn get_futex_flags(&self) -> (value: i32)
        ensures
            value == self.sqe().fd,
    {
        self.sqe.fd
    }

    /// Sets the `flags`.
    pub fn flags(self, value: u32) -> (op: FutexWait)
        ensures
            op.sqe() == (Sqe { op_flags: value, ..self.sqe() }),
    {
        FutexWait { sqe: Sqe { op_flags: value, ..self.sqe } }
    }

    /// Reads back [`FutexWait::flags`].
    pub fn get_flags(&self) -> (value: u32)
        ensures
            value == self.sqe().op_flags,
    {
        self.sqe.op_flags
    }
}

/// Wake waiters on a futex.
#[derive(Clone, Copy, Debug)]
pub struct FutexWake {
    sqe: Sqe,
}

impl Op for FutexWake {
    closed spec fn sqe(&self) -> Sqe {
        self.sqe
    }

    fn as_sqe(&self) -> (sqe: &Sqe) {
        &self.sqe
    }

    fn with_sqe(self, sqe: Sqe) -> (op: FutexWake) {
        FutexWake { sqe }
    }
}

impl FutexWake {
    /// A zeroed SQE for this operation.
    pub fn new() -> (op: FutexWake)
        ensures
            op.sqe() == sys::blank(Opcode::FutexWake),
    {
        FutexWake { sqe: Sqe::new(Opcode::FutexWake) }
    }

    /// Sets the `futex`.
    pub fn futex(self, value: Ptr) -> (op: FutexWake)
        ensures
            op.sqe() == (Sqe { addr: value@, ..self.sqe() }),
    {
        FutexWake { sqe: Sqe { addr: op::ptr_enc(value), ..self.sqe } }
    }

    /// Reads back [`FutexWake::futex`].
    pub fn get_futex(&self) -> (value: Ptr)
        ensures
            value@ == op::pointer_in(self.sqe().addr, 4),
    {
        op::ptr_dec(self.sqe.addr, 4)
    }

    /// How many waiters to wake.
    pub fn val(self, value: u64) -> (op: FutexWake)
        ensures
            op.sqe() == (Sqe { addr2: value, ..self.sqe() }),
    {
        FutexWake { sqe: Sqe { addr2: value, ..self.sqe } }
    }

    /// Reads back [`FutexWake::val`].
    pub fn get_val(&self) -> (value: u64)
        ensures
            value == self.sqe().addr2,
    {
        self.sqe.addr2
    }

    /// Sets the `mask`.
    pub fn mask(self, value: u64) -> (op: FutexWake)
        ensures
            op.sqe() == (Sqe { addr3: value, ..self.sqe() }),
    {
        FutexWake { sqe: Sqe { addr3: value, ..self.sqe } }
    }

    /// Reads back [`FutexWake::mask`].
    pub fn get_mask(&self) -> (value: u64)
        ensures
            value == self.sqe().addr3,
    {
        self.sqe.addr3
    }

    /// Sets the `futex_flags`.
    pub fn futex_flags(self, value: i32) -> (op: FutexWake)
        ensures
            op.sqe() == (Sqe { fd: value, ..self.sqe() }),
    {
        FutexWake { sqe: Sqe { fd: value, ..self.sqe } }
    }

    /// Reads back [`FutexWake::futex_flags`].
    pub fn get_futex_flags(&self) -> (value: i32)
        ensures
            value == self.sqe().fd,
    {
        self.sqe.fd
    }

    /// Sets the `flags`.
    pub fn flags(self, value: u32) -> (op: FutexWake)
        ensures
            op.sqe() == (Sqe { op_flags: value, ..self.sqe() }),
    {
        FutexWake { sqe: Sqe { op_flags: value, ..self.sqe } }
    }

    /// Reads back [`FutexWake::flags`].
    pub fn get_flags(&self) -> (value: u32)
        ensures
            value == self.sqe().op_flags,
    {
        self.sqe.op_flags
    }
}

/// Wait on any of several futexes.
#[derive(Clone, Copy, Debug)]
pub struct FutexWaitv {
    sqe: Sqe,
}

impl Op for FutexWaitv {
    closed spec fn sqe(&self) -> Sqe {
        self.sqe
    }

    fn as_sqe(&self) -> (sqe: &Sqe) {
        &self.sqe
    }

    fn with_sqe(self, sqe: Sqe) -> (op: FutexWaitv) {
        FutexWaitv { sqe }
    }
}

impl FutexWaitv {
    /// A zeroed SQE for this operation.
    pub fn new() -> (op: FutexWaitv)
        ensures
            op.sqe() == sys::blank(Opcode::FutexWaitv),
    {
        FutexWaitv { sqe: Sqe::new(Opcode::FutexWaitv) }
    }

    /// Array of `struct futex_waitv`.
    pub fn futexv(self, value: Ptr) -> (op: FutexWaitv)
        ensures
            op.sqe() == (Sqe { addr: value@, ..self.sqe() }),
    {
        FutexWaitv { sqe: Sqe { addr: op::ptr_enc(value), ..self.sqe } }
    }

    /// Reads back [`FutexWaitv::futexv`].
    pub fn get_futexv(&self) -> (value: Ptr)
        ensures
            value@ == op::pointer_in(self.sqe().addr, 1),
    {
        op::ptr_dec(self.sqe.addr, 1)
    }

    /// Number of entries in `futexv`.
    pub fn nr_futex(self, value: u32) -> (op: FutexWaitv)
        ensures
            op.sqe() == (Sqe { len: value, ..self.sqe() }),
    {
        FutexWaitv { sqe: Sqe { len: value, ..self.sqe } }
    }

    /// Reads back [`FutexWaitv::nr_futex`].
    pub fn get_nr_futex(&self) -> (value: u32)
        ensures
            value == self.sqe().len,
    {
        self.sqe.len
    }

    /// Sets the `flags`.
    pub fn flags(self, value: u32) -> (op: FutexWaitv)
        ensures
            op.sqe() == (Sqe { op_flags: value, ..self.sqe() }),
    {
        FutexWaitv { sqe: Sqe { op_flags: value, ..self.sqe } }
    }

    /// Reads back [`FutexWaitv::flags`].
    pub fn get_flags(&self) -> (value: u32)
        ensures
            value == self.sqe().op_flags,
    {
        self.sqe.op_flags
    }
}

/// Wait for a process to change state, as `waitid`.
#[derive(Clone, Copy, Debug)]
pub struct Waitid {
    sqe: Sqe,
}

impl Op for Waitid {
    closed spec fn sqe(&self) -> Sqe {
        self.sqe
    }

    fn as_sqe(&self) -> (sqe: &Sqe) {
        &self.sqe
    }

    fn with_sqe(self, sqe: Sqe) -> (op: Waitid) {
        Waitid { sqe }
    }
}

impl Waitid {
    /// A zeroed SQE for this operation.
    pub fn new() -> (op: Waitid)
        ensures
            op.sqe() == sys::blank(Opcode::Waitid),
    {
        Waitid { sqe: Sqe::new(Opcode::Waitid) }
    }

    /// The id to wait on, in the `fd` slot.
    pub fn id(self, value: i32) -> (op: Waitid)
        ensures
            op.sqe() == (Sqe { fd: value, ..self.sqe() }),
    {
        Waitid { sqe: Sqe { fd: value, ..self.sqe } }
    }

    /// Reads back [`Waitid::id`].
    pub fn get_id(&self) -> (value: i32)
        ensures
            value == self.sqe().fd,
    {
        self.sqe.fd
    }

    /// `P_PID`, `P_PGID` or `P_ALL`.
    pub fn idtype(self, value: u32) -> (op: Waitid)
        ensures
            op.sqe() == (Sqe { len: value, ..self.sqe() }),
    {
        Waitid { sqe: Sqe { len: value, ..self.sqe } }
    }

    /// Reads back [`Waitid::idtype`].
    pub fn get_idtype(&self) -> (value: u32)
        ensures
            value == self.sqe().len,
    {
        self.sqe.len
    }

    /// Where to write the `siginfo_t`.
    pub fn infop(self, value: Ptr) -> (op: Waitid)
        ensures
            op.sqe() == (Sqe { addr2: value@, ..self.sqe() }),
    {
        Waitid { sqe: Sqe { addr2: op::ptr_enc(value), ..self.sqe } }
    }

    /// Reads back [`Waitid::infop`].
    pub fn get_infop(&self) -> (value: Ptr)
        ensures
            value@ == op::pointer_in(self.sqe().addr2, 1),
    {
        op::ptr_dec(self.sqe.addr2, 1)
    }

    /// `WEXITED` and friends.
    pub fn options(self, value: u32) -> (op: Waitid)
        ensures
            op.sqe() == (Sqe { file_index: value, ..self.sqe() }),
    {
        Waitid { sqe: Sqe { file_index: value, ..self.sqe } }
    }

    /// Reads back [`Waitid::options`].
    pub fn get_options(&self) -> (value: u32)
        ensures
            value == self.sqe().file_index,
    {
        self.sqe.file_index
    }

    /// Sets the `flags`.
    pub fn flags(self, value: u32) -> (op: Waitid)
        ensures
            op.sqe() == (Sqe { op_flags: value, ..self.sqe() }),
    {
        Waitid { sqe: Sqe { op_flags: value, ..self.sqe } }
    }

    /// Reads back [`Waitid::flags`].
    pub fn get_flags(&self) -> (value: u32)
        ensures
            value == self.sqe().op_flags,
    {
        self.sqe.op_flags
    }
}

} // verus!
