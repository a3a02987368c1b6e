//! Ring resources.

use vstd::prelude::*;

use crate::io_uring::op;
use crate::io_uring::op::{Op, Ptr};
use crate::io_uring::sys;
use crate::io_uring::sys::{InstallFdFlags, MsgRingFlags, MsgRingOp, Opcode, Sqe, SqeFlags};

verus! {

/// Hand a block of buffers to the kernel, the pre-buffer-ring interface.
#[derive(Clone, Copy, Debug)]
pub struct ProvideBuffers {
    sqe: Sqe,
}

impl Op for ProvideBuffers {
    closed spec fn sqe(&self) -> Sqe {
        self.sqe
    }

    fn as_sqe(&self) -> (sqe: &Sqe) {
        &self.sqe
    }

    fn with_sqe(self, sqe: Sqe) -> (op: ProvideBuffers) {
        ProvideBuffers { sqe }
    }
}

impl ProvideBuffers {
    /// A zeroed SQE for this operation.
    pub fn new() -> (op: ProvideBuffers)
        ensures
            op.sqe() == sys::blank(Opcode::ProvideBuffers),
    {
        ProvideBuffers { sqe: Sqe::new(Opcode::ProvideBuffers) }
    }

    /// Start of the buffer block.
    pub fn addr(self, value: Ptr) -> (op: ProvideBuffers)
        ensures
            op.sqe() == (Sqe { addr: value@, ..self.sqe() }),
    {
        ProvideBuffers { sqe: Sqe { addr: op::ptr_enc(value), ..self.sqe } }
    }

    /// Reads back [`ProvideBuffers::addr`].
    pub fn get_addr(&self) -> (value: Ptr)
        ensures
            value@ == op::pointer_in(self.sqe().addr, 1),
    {
        op::ptr_dec(self.sqe.addr, 1)
    }

    /// Size of each buffer.
    pub fn buf_len(self, value: u32) -> (op: ProvideBuffers)
        ensures
            op.sqe() == (Sqe { len: value, ..self.sqe() }),
    {
        ProvideBuffers { sqe: Sqe { len: value, ..self.sqe } }
    }

    /// Reads back [`ProvideBuffers::buf_len`].
    pub fn get_buf_len(&self) -> (value: u32)
        ensures
            value == self.sqe().len,
    {
        self.sqe.len
    }

    /// How many buffers the block holds, in the `fd` slot.
    pub fn nr(self, value: i32) -> (op: ProvideBuffers)
        ensures
            op.sqe() == (Sqe { fd: value, ..self.sqe() }),
    {
        ProvideBuffers { sqe: Sqe { fd: value, ..self.sqe } }
    }

    /// Reads back [`ProvideBuffers::nr`].
    pub fn get_nr(&self) -> (value: i32)
        ensures
            value == self.sqe().fd,
    {
        self.sqe.fd
    }

    /// The buffer group these join.
    pub fn bgid(self, value: u16) -> (op: ProvideBuffers)
        ensures
            op.sqe() == (Sqe { buf_index: value, ..self.sqe() }),
    {
        ProvideBuffers { sqe: Sqe { buf_index: value, ..self.sqe } }
    }

    /// Reads back [`ProvideBuffers::bgid`].
    pub fn get_bgid(&self) -> (value: u16)
        ensures
            value == self.sqe().buf_index,
    {
        self.sqe.buf_index
    }

    /// Buffer id of the first buffer; the rest count up from it.
    pub fn bid(self, value: u64) -> (op: ProvideBuffers)
        ensures
            op.sqe() == (Sqe { addr2: value, ..self.sqe() }),
    {
        ProvideBuffers { sqe: Sqe { addr2: value, ..self.sqe } }
    }

    /// Reads back [`ProvideBuffers::bid`].
    pub fn get_bid(&self) -> (value: u64)
        ensures
            value == self.sqe().addr2,
    {
        self.sqe.addr2
    }
}

/// Take buffers back from a group.
#[derive(Clone, Copy, Debug)]
pub struct RemoveBuffers {
    sqe: Sqe,
}

impl Op for RemoveBuffers {
    closed spec fn sqe(&self) -> Sqe {
        self.sqe
    }

    fn as_sqe(&self) -> (sqe: &Sqe) {
        &self.sqe
    }

    fn with_sqe(self, sqe: Sqe) -> (op: RemoveBuffers) {
        RemoveBuffers { sqe }
    }
}

impl RemoveBuffers {
    /// A zeroed SQE for this operation.
    pub fn new() -> (op: RemoveBuffers)
        ensures
            op.sqe() == sys::blank(Opcode::RemoveBuffers),
    {
        RemoveBuffers { sqe: Sqe::new(Opcode::RemoveBuffers) }
    }

    /// How many to remove, in the `fd` slot.
    pub fn nr(self, value: i32) -> (op: RemoveBuffers)
        ensures
            op.sqe() == (Sqe { fd: value, ..self.sqe() }),
    {
        RemoveBuffers { sqe: Sqe { fd: value, ..self.sqe } }
    }

    /// Reads back [`RemoveBuffers::nr`].
    pub fn get_nr(&self) -> (value: i32)
        ensures
            value == self.sqe().fd,
    {
        self.sqe.fd
    }

    /// Sets the `bgid`.
    pub fn bgid(self, value: u16) -> (op: RemoveBuffers)
        ensures
            op.sqe() == (Sqe { buf_index: value, ..self.sqe() }),
    {
        RemoveBuffers { sqe: Sqe { buf_index: value, ..self.sqe } }
    }

    /// Reads back [`RemoveBuffers::bgid`].
    pub fn get_bgid(&self) -> (value: u16)
        ensures
            value == self.sqe().buf_index,
    {
        self.sqe.buf_index
    }
}

/// Update the registered file table from inside the ring.
#[derive(Clone, Copy, Debug)]
pub struct FilesUpdate {
    sqe: Sqe,
}

impl Op for FilesUpdate {
    closed spec fn sqe(&self) -> Sqe {
        self.sqe
    }

    fn as_sqe(&self) -> (sqe: &Sqe) {
        &self.sqe
    }

    fn with_sqe(self, sqe: Sqe) -> (op: FilesUpdate) {
        FilesUpdate { sqe }
    }
}

impl FilesUpdate {
    /// A zeroed SQE for this operation.
    pub fn new() -> (op: FilesUpdate)
        ensures
            op.sqe() == (Sqe { fd: -1i32, ..sys::blank(Opcode::FilesUpdate) }),
    {
        FilesUpdate { sqe: Sqe { fd: -1, ..Sqe::new(Opcode::FilesUpdate) } }
    }

    /// Array of descriptors; [`sys::REGISTER_FILES_SKIP`] leaves a slot alone.
    pub fn fds(self, value: Ptr) -> (op: FilesUpdate)
        ensures
            op.sqe() == (Sqe { addr: value@, ..self.sqe() }),
    {
        FilesUpdate { sqe: Sqe { addr: op::ptr_enc(value), ..self.sqe } }
    }

    /// Reads back [`FilesUpdate::fds`].
    pub fn get_fds(&self) -> (value: Ptr)
        ensures
            value@ == op::pointer_in(self.sqe().addr, 4),
    {
        op::ptr_dec(self.sqe.addr, 4)
    }

    /// Sets the `nr_fds`.
    pub fn nr_fds(self, value: u32) -> (op: FilesUpdate)
        ensures
            op.sqe() == (Sqe { len: value, ..self.sqe() }),
    {
        FilesUpdate { sqe: Sqe { len: value, ..self.sqe } }
    }

    /// Reads back [`FilesUpdate::nr_fds`].
    pub fn get_nr_fds(&self) -> (value: u32)
        ensures
            value == self.sqe().len,
    {
        self.sqe.len
    }

    /// First slot to update.
    pub fn offset(self, value: u64) -> (op: FilesUpdate)
        ensures
            op.sqe() == (Sqe { addr2: value, ..self.sqe() }),
    {
        FilesUpdate { sqe: Sqe { addr2: value, ..self.sqe } }
    }

    /// Reads back [`FilesUpdate::offset`].
    pub fn get_offset(&self) -> (value: u64)
        ensures
            value == self.sqe().addr2,
    {
        self.sqe.addr2
    }
}

/// Turn a direct descriptor back into a regular file descriptor.
///
/// Requires [`sys::SqeFlags::FIXED_FILE`], which `new` presets.
#[derive(Clone, Copy, Debug)]
pub struct FixedFdInstall {
    sqe: Sqe,
}

impl Op for FixedFdInstall {
    closed spec fn sqe(&self) -> Sqe {
        self.sqe
    }

    fn as_sqe(&self) -> (sqe: &Sqe) {
        &self.sqe
    }

    fn with_sqe(self, sqe: Sqe) -> (op: FixedFdInstall) {
        FixedFdInstall { sqe }
    }
}

impl FixedFdInstall {
    /// A zeroed SQE for this operation.
    pub fn new() -> (op: FixedFdInstall)
        ensures
            op.sqe() == (Sqe {
                flags: SqeFlags { bits: SqeFlags::FIXED_FILE },
                ..sys::blank(Opcode::FixedFdInstall)
            }),
    {
        FixedFdInstall {
            sqe: Sqe {
                flags: SqeFlags::from_bits_retain(SqeFlags::FIXED_FILE),
                ..Sqe::new(Opcode::FixedFdInstall)
            },
        }
    }

    /// The direct descriptor to install.
    pub fn fd(self, value: i32) -> (op: FixedFdInstall)
        ensures
            op.sqe() == (Sqe { fd: value, ..self.sqe() }),
    {
        FixedFdInstall { sqe: Sqe { fd: value, ..self.sqe } }
    }

    /// Reads back [`FixedFdInstall::fd`].
    pub fn get_fd(&self) -> (value: i32)
        ensures
            value == self.sqe().fd,
    {
        self.sqe.fd
    }

    /// [`sys::InstallFdFlags::NO_CLOEXEC`].
    pub fn flags(self, value: InstallFdFlags) -> (op: FixedFdInstall)
        ensures
            op.sqe() == (Sqe { op_flags: value.bits, ..self.sqe() }),
    {
        FixedFdInstall { sqe: Sqe { op_flags: value.bits(), ..self.sqe } }
    }

    /// Reads back [`FixedFdInstall::flags`].
    pub fn get_flags(&self) -> (value: InstallFdFlags)
        ensures
            value.bits == self.sqe().op_flags,
    {
        InstallFdFlags::from_bits_retain(self.sqe.op_flags)
    }
}

/// Post a completion, or send a descriptor, to another ring.
#[derive(Clone, Copy, Debug)]
pub struct MsgRing {
    sqe: Sqe,
}

impl Op for MsgRing {
    closed spec fn sqe(&self) -> Sqe {
        self.sqe
    }

    fn as_sqe(&self) -> (sqe: &Sqe) {
        &self.sqe
    }

    fn with_sqe(self, sqe: Sqe) -> (op: MsgRing) {
        MsgRing { sqe }
    }
}

impl MsgRing {
    /// A zeroed SQE for this operation.
    pub fn new() -> (op: MsgRing)
        ensures
            op.sqe() == sys::blank(Opcode::MsgRing),
    {
        MsgRing { sqe: Sqe::new(Opcode::MsgRing) }
    }

    /// The target ring's descriptor.
    pub fn fd(self, value: i32) -> (op: MsgRing)
        ensures
            op.sqe() == (Sqe { fd: value, ..self.sqe() }),
    {
        MsgRing { sqe: Sqe { fd: value, ..self.sqe } }
    }

    /// Reads back [`MsgRing::fd`].
    pub fn get_fd(&self) -> (value: i32)
        ensures
            value == self.sqe().fd,
    {
        self.sqe.fd
    }

    /// [`sys::MsgRingOp::Data`] or [`sys::MsgRingOp::SendFd`].
    pub fn cmd(self, value: MsgRingOp) -> (op: MsgRing)
        ensures
            op.sqe() == (Sqe { addr: value as u64, ..self.sqe() }),
    {
        MsgRing { sqe: Sqe { addr: value as u64, ..self.sqe } }
    }

    /// Reads back [`MsgRing::cmd`].
    pub fn get_cmd(&self) -> (value: MsgRingOp)
        ensures
            value == if self.sqe().addr == 1 {
                MsgRingOp::SendFd
            } else {
                MsgRingOp::Data
            },
    {
        if self.sqe.addr == 1 {
            MsgRingOp::SendFd
        } else {
            MsgRingOp::Data
        }
    }

    /// Value delivered as the target completion's `res`.
    pub fn result(self, value: u32) -> (op: MsgRing)
        ensures
            op.sqe() == (Sqe { len: value, ..self.sqe() }),
    {
        MsgRing { sqe: Sqe { len: value, ..self.sqe } }
    }

    /// Reads back [`MsgRing::result`].
    pub fn get_result(&self) -> (value: u32)
        ensures
            value == self.sqe().len,
    {
        self.sqe.len
    }

    /// Value delivered as the target completion's `user_data`.
    pub fn data(self, value: u64) -> (op: MsgRing)
        ensures
            op.sqe() == (Sqe { addr2: value, ..self.sqe() }),
    {
        MsgRing { sqe: Sqe { addr2: value, ..self.sqe } }
    }

    /// Reads back [`MsgRing::data`].
    pub fn get_data(&self) -> (value: u64)
        ensures
            value == self.sqe().addr2,
    {
        self.sqe.addr2
    }

    /// Sets the `flags`.
    pub fn flags(self, value: MsgRingFlags) -> (op: MsgRing)
        ensures
            op.sqe() == (Sqe { op_flags: value.bits, ..self.sqe() }),
    {
        MsgRing { sqe: Sqe { op_flags: value.bits(), ..self.sqe } }
    }

    /// Reads back [`MsgRing::flags`].
    pub fn get_flags(&self) -> (value: MsgRingFlags)
        ensures
            value.bits == self.sqe().op_flags,
    {
        MsgRingFlags::from_bits_retain(self.sqe.op_flags)
    }

    /// Descriptor to send, for [`sys::MsgRingOp::SendFd`].
    pub fn source_fd(self, value: u64) -> (op: MsgRing)
        ensures
            op.sqe() == (Sqe { addr3: value, ..self.sqe() }),
    {
        MsgRing { sqe: Sqe { addr3: value, ..self.sqe } }
    }

    /// Reads back [`MsgRing::source_fd`].
    pub fn get_source_fd(&self) -> (value: u64)
        ensures
            value == self.sqe().addr3,
    {
        self.sqe.addr3
    }

    /// Target slot for the sent descriptor. Shares a field with
    /// [`MsgRing::cqe_flags`]; set only one.
    pub fn slot(self, value: u32) -> (op: MsgRing)
        ensures
            op.sqe() == (Sqe { file_index: op::slot_word(value), ..self.sqe() }),
    {
        MsgRing { sqe: Sqe { file_index: op::slot_encode(value), ..self.sqe } }
    }

    /// Reads back [`MsgRing::slot`].
    pub fn get_slot(&self) -> (value: u32)
        ensures
            value == op::slot_of(self.sqe().file_index),
    {
        op::slot_decode(self.sqe.file_index)
    }

    /// Flags to pass through to the target completion, with
    /// [`sys::MsgRingFlags::FLAGS_PASS`]. Shares a field with [`MsgRing::slot`].
    pub fn cqe_flags(self, value: u32) -> (op: MsgRing)
        ensures
            op.sqe() == (Sqe { file_index: value, ..self.sqe() }),
    {
        MsgRing { sqe: Sqe { file_index: value, ..self.sqe } }
    }

    /// Reads back [`MsgRing::cqe_flags`].
    pub fn get_cqe_flags(&self) -> (value: u32)
        ensures
            value == self.sqe().file_index,
    {
        self.sqe.file_index
    }
}

} // verus!
