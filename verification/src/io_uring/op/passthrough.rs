//! Passthrough commands.

use vstd::prelude::*;

use crate::io_uring::op;
use crate::io_uring::op::Op;
use crate::io_uring::sys;
use crate::io_uring::sys::{NopFlags, Opcode, Sqe, UringCmdFlags};

verus! {

/// A file-specific passthrough command.
///
/// The 80-byte payload lives past the end of a 64-byte SQE, so anything
/// needing it must use [`UringCmd128`] on a ring that supports it.
#[derive(Clone, Copy, Debug)]
pub struct UringCmd {
    sqe: Sqe,
}

impl Op for UringCmd {
    closed spec fn sqe(&self) -> Sqe {
        self.sqe
    }

    fn as_sqe(&self) -> (sqe: &Sqe) {
        &self.sqe
    }

    fn with_sqe(self, sqe: Sqe) -> (op: UringCmd) {
        UringCmd { sqe }
    }
}

impl UringCmd {
    /// A zeroed SQE for this operation.
    pub fn new() -> (op: UringCmd)
        ensures
            op.sqe() == sys::blank(Opcode::UringCmd),
    {
        UringCmd { sqe: Sqe::new(Opcode::UringCmd) }
    }

    /// Sets the `fd`.
    pub fn fd(self, value: i32) -> (op: UringCmd)
        ensures
            op.sqe() == (Sqe { fd: value, ..self.sqe() }),
    {
        UringCmd { sqe: Sqe { fd: value, ..self.sqe } }
    }

    /// Reads back [`UringCmd::fd`].
    pub fn get_fd(&self) -> (value: i32)
        ensures
            value == self.sqe().fd,
    {
        self.sqe.fd
    }

    /// The command selector, in the low half of the `addr2` slot.
    pub fn cmd_op(self, value: u32) -> (op: UringCmd)
        ensures
            op.sqe() == (Sqe { addr2: value as u64, ..self.sqe() }),
    {
        UringCmd { sqe: Sqe { addr2: value as u64, ..self.sqe } }
    }

    /// Reads back [`UringCmd::cmd_op`].
    pub fn get_cmd_op(&self) -> (value: u32)
        ensures
            value == self.sqe().addr2 as u32,
    {
        self.sqe.addr2 as u32
    }

    /// Socket option `(level, optname)`, for `SOCKET_URING_OP_[GS]ETSOCKOPT`.
    ///
    /// Both halves share one 64-bit word, so they are set together rather than
    /// as two fields that would overwrite each other.
    pub fn sockopt(self, value: (u32, u32)) -> (op: UringCmd)
        ensures
            op.sqe() == (Sqe { addr: op::paired(value), ..self.sqe() }),
    {
        UringCmd { sqe: Sqe { addr: op::pair_enc(value), ..self.sqe } }
    }

    /// Reads back [`UringCmd::sockopt`].
    pub fn get_sockopt(&self) -> (value: (u32, u32))
        ensures
            value == op::unpaired(self.sqe().addr),
    {
        op::pair_dec(self.sqe.addr)
    }

    /// Option value buffer.
    pub fn optval(self, value: u64) -> (op: UringCmd)
        ensures
            op.sqe() == (Sqe { addr3: value, ..self.sqe() }),
    {
        UringCmd { sqe: Sqe { addr3: value, ..self.sqe } }
    }

    /// Reads back [`UringCmd::optval`].
    pub fn get_optval(&self) -> (value: u64)
        ensures
            value == self.sqe().addr3,
    {
        self.sqe.addr3
    }

    /// Size of `optval`.
    pub fn optlen(self, value: u32) -> (op: UringCmd)
        ensures
            op.sqe() == (Sqe { file_index: value, ..self.sqe() }),
    {
        UringCmd { sqe: Sqe { file_index: value, ..self.sqe } }
    }

    /// Reads back [`UringCmd::optlen`].
    pub fn get_optlen(&self) -> (value: u32)
        ensures
            value == self.sqe().file_index,
    {
        self.sqe.file_index
    }

    /// Sets the `flags`.
    pub fn flags(self, value: UringCmdFlags) -> (op: UringCmd)
        ensures
            op.sqe() == (Sqe { op_flags: value.bits, ..self.sqe() }),
    {
        UringCmd { sqe: Sqe { op_flags: value.bits(), ..self.sqe } }
    }

    /// Reads back [`UringCmd::flags`].
    pub fn get_flags(&self) -> (value: UringCmdFlags)
        ensures
            value.bits == self.sqe().op_flags,
    {
        UringCmdFlags::from_bits_retain(self.sqe.op_flags)
    }
}

/// A passthrough command with the full 80-byte payload.
///
/// Occupies two 64-byte submission slots. [`Self::into_sqe`] yields only the
/// first; the payload must be written into the second slot separately, and
/// the ring needs [`sys::SetupFlags::SQE128`] or
/// [`sys::SetupFlags::SQE_MIXED`].
#[derive(Clone, Copy, Debug)]
pub struct UringCmd128 {
    sqe: Sqe,
}

impl Op for UringCmd128 {
    closed spec fn sqe(&self) -> Sqe {
        self.sqe
    }

    fn as_sqe(&self) -> (sqe: &Sqe) {
        &self.sqe
    }

    fn with_sqe(self, sqe: Sqe) -> (op: UringCmd128) {
        UringCmd128 { sqe }
    }
}

impl UringCmd128 {
    /// A zeroed SQE for this operation.
    pub fn new() -> (op: UringCmd128)
        ensures
            op.sqe() == sys::blank(Opcode::UringCmd128),
    {
        UringCmd128 { sqe: Sqe::new(Opcode::UringCmd128) }
    }

    /// Sets the `fd`.
    pub fn fd(self, value: i32) -> (op: UringCmd128)
        ensures
            op.sqe() == (Sqe { fd: value, ..self.sqe() }),
    {
        UringCmd128 { sqe: Sqe { fd: value, ..self.sqe } }
    }

    /// Reads back [`UringCmd128::fd`].
    pub fn get_fd(&self) -> (value: i32)
        ensures
            value == self.sqe().fd,
    {
        self.sqe.fd
    }

    /// Sets the `cmd_op`.
    pub fn cmd_op(self, value: u32) -> (op: UringCmd128)
        ensures
            op.sqe() == (Sqe { addr2: value as u64, ..self.sqe() }),
    {
        UringCmd128 { sqe: Sqe { addr2: value as u64, ..self.sqe } }
    }

    /// Reads back [`UringCmd128::cmd_op`].
    pub fn get_cmd_op(&self) -> (value: u32)
        ensures
            value == self.sqe().addr2 as u32,
    {
        self.sqe.addr2 as u32
    }

    /// Sets the `flags`.
    pub fn flags(self, value: UringCmdFlags) -> (op: UringCmd128)
        ensures
            op.sqe() == (Sqe { op_flags: value.bits, ..self.sqe() }),
    {
        UringCmd128 { sqe: Sqe { op_flags: value.bits(), ..self.sqe } }
    }

    /// Reads back [`UringCmd128::flags`].
    pub fn get_flags(&self) -> (value: UringCmdFlags)
        ensures
            value.bits == self.sqe().op_flags,
    {
        UringCmdFlags::from_bits_retain(self.sqe.op_flags)
    }
}

/// A no-op occupying two submission slots, for padding a 128-byte ring.
#[derive(Clone, Copy, Debug)]
pub struct Nop128 {
    sqe: Sqe,
}

impl Op for Nop128 {
    closed spec fn sqe(&self) -> Sqe {
        self.sqe
    }

    fn as_sqe(&self) -> (sqe: &Sqe) {
        &self.sqe
    }

    fn with_sqe(self, sqe: Sqe) -> (op: Nop128) {
        Nop128 { sqe }
    }
}

impl Nop128 {
    /// A zeroed SQE for this operation.
    pub fn new() -> (op: Nop128)
        ensures
            op.sqe() == (Sqe { fd: -1i32, ..sys::blank(Opcode::Nop128) }),
    {
        Nop128 { sqe: Sqe { fd: -1, ..Sqe::new(Opcode::Nop128) } }
    }

    /// Sets the `flags`.
    pub fn flags(self, value: NopFlags) -> (op: Nop128)
        ensures
            op.sqe() == (Sqe { op_flags: value.bits, ..self.sqe() }),
    {
        Nop128 { sqe: Sqe { op_flags: value.bits(), ..self.sqe } }
    }

    /// Reads back [`Nop128::flags`].
    pub fn get_flags(&self) -> (value: NopFlags)
        ensures
            value.bits == self.sqe().op_flags,
    {
        NopFlags::from_bits_retain(self.sqe.op_flags)
    }
}

} // verus!
