//! Splicing.

use vstd::prelude::*;

use crate::io_uring::op::Op;
use crate::io_uring::sys;
use crate::io_uring::sys::{Opcode, Sqe};

verus! {

/// Move data between descriptors without copying through userspace.
#[derive(Clone, Copy, Debug)]
pub struct Splice {
    sqe: Sqe,
}

impl Op for Splice {
    closed spec fn sqe(&self) -> Sqe {
        self.sqe
    }

    fn as_sqe(&self) -> (sqe: &Sqe) {
        &self.sqe
    }

    fn with_sqe(self, sqe: Sqe) -> (op: Splice) {
        Splice { sqe }
    }
}

impl Splice {
    /// A zeroed SQE for this operation.
    pub fn new() -> (op: Splice)
        ensures
            op.sqe() == sys::blank(Opcode::Splice),
    {
        Splice { sqe: Sqe::new(Opcode::Splice) }
    }

    /// Destination descriptor.
    pub fn fd_out(self, value: i32) -> (op: Splice)
        ensures
            op.sqe() == (Sqe { fd: value, ..self.sqe() }),
    {
        Splice { sqe: Sqe { fd: value, ..self.sqe } }
    }

    /// Reads back [`Splice::fd_out`].
    pub fn get_fd_out(&self) -> (value: i32)
        ensures
            value == self.sqe().fd,
    {
        self.sqe.fd
    }

    /// Offset in `fd_out`, or `u64::MAX` for the current position.
    pub fn off_out(self, value: u64) -> (op: Splice)
        ensures
            op.sqe() == (Sqe { addr2: value, ..self.sqe() }),
    {
        Splice { sqe: Sqe { addr2: value, ..self.sqe } }
    }

    /// Reads back [`Splice::off_out`].
    pub fn get_off_out(&self) -> (value: u64)
        ensures
            value == self.sqe().addr2,
    {
        self.sqe.addr2
    }

    /// Source descriptor. OR [`sys::SPLICE_F_FD_IN_FIXED`] into `flags` to use
    /// a direct descriptor here.
    pub fn fd_in(self, value: i32) -> (op: Splice)
        ensures
            op.sqe() == (Sqe { file_index: value as u32, ..self.sqe() }),
    {
        Splice { sqe: Sqe { file_index: value as u32, ..self.sqe } }
    }

    /// Reads back [`Splice::fd_in`].
    pub fn get_fd_in(&self) -> (value: i32)
        ensures
            value == self.sqe().file_index as i32,
    {
        self.sqe.file_index as i32
    }

    /// Offset in `fd_in`, or `u64::MAX` for the current position.
    pub fn off_in(self, value: u64) -> (op: Splice)
        ensures
            op.sqe() == (Sqe { addr: value, ..self.sqe() }),
    {
        Splice { sqe: Sqe { addr: value, ..self.sqe } }
    }

    /// Reads back [`Splice::off_in`].
    pub fn get_off_in(&self) -> (value: u64)
        ensures
            value == self.sqe().addr,
    {
        self.sqe.addr
    }

    /// Sets the `nbytes`.
    pub fn nbytes(self, value: u32) -> (op: Splice)
        ensures
            op.sqe() == (Sqe { len: value, ..self.sqe() }),
    {
        Splice { sqe: Sqe { len: value, ..self.sqe } }
    }

    /// Reads back [`Splice::nbytes`].
    pub fn get_nbytes(&self) -> (value: u32)
        ensures
            value == self.sqe().len,
    {
        self.sqe.len
    }

    /// `SPLICE_F_*` flags.
    pub fn flags(self, value: u32) -> (op: Splice)
        ensures
            op.sqe() == (Sqe { op_flags: value, ..self.sqe() }),
    {
        Splice { sqe: Sqe { op_flags: value, ..self.sqe } }
    }

    /// Reads back [`Splice::flags`].
    pub fn get_flags(&self) -> (value: u32)
        ensures
            value == self.sqe().op_flags,
    {
        self.sqe.op_flags
    }
}

/// Duplicate pipe contents, as `tee`.
#[derive(Clone, Copy, Debug)]
pub struct Tee {
    sqe: Sqe,
}

impl Op for Tee {
    closed spec fn sqe(&self) -> Sqe {
        self.sqe
    }

    fn as_sqe(&self) -> (sqe: &Sqe) {
        &self.sqe
    }

    fn with_sqe(self, sqe: Sqe) -> (op: Tee) {
        Tee { sqe }
    }
}

impl Tee {
    /// A zeroed SQE for this operation.
    pub fn new() -> (op: Tee)
        ensures
            op.sqe() == sys::blank(Opcode::Tee),
    {
        Tee { sqe: Sqe::new(Opcode::Tee) }
    }

    /// Sets the `fd_out`.
    pub fn fd_out(self, value: i32) -> (op: Tee)
        ensures
            op.sqe() == (Sqe { fd: value, ..self.sqe() }),
    {
        Tee { sqe: Sqe { fd: value, ..self.sqe } }
    }

    /// Reads back [`Tee::fd_out`].
    pub fn get_fd_out(&self) -> (value: i32)
        ensures
            value == self.sqe().fd,
    {
        self.sqe.fd
    }

    /// Sets the `fd_in`.
    pub fn fd_in(self, value: i32) -> (op: Tee)
        ensures
            op.sqe() == (Sqe { file_index: value as u32, ..self.sqe() }),
    {
        Tee { sqe: Sqe { file_index: value as u32, ..self.sqe } }
    }

    /// Reads back [`Tee::fd_in`].
    pub fn get_fd_in(&self) -> (value: i32)
        ensures
            value == self.sqe().file_index as i32,
    {
        self.sqe.file_index as i32
    }

    /// Sets the `nbytes`.
    pub fn nbytes(self, value: u32) -> (op: Tee)
        ensures
            op.sqe() == (Sqe { len: value, ..self.sqe() }),
    {
        Tee { sqe: Sqe { len: value, ..self.sqe } }
    }

    /// Reads back [`Tee::nbytes`].
    pub fn get_nbytes(&self) -> (value: u32)
        ensures
            value == self.sqe().len,
    {
        self.sqe.len
    }

    /// Sets the `flags`.
    pub fn flags(self, value: u32) -> (op: Tee)
        ensures
            op.sqe() == (Sqe { op_flags: value, ..self.sqe() }),
    {
        Tee { sqe: Sqe { op_flags: value, ..self.sqe } }
    }

    /// Reads back [`Tee::flags`].
    pub fn get_flags(&self) -> (value: u32)
        ensures
            value == self.sqe().op_flags,
    {
        self.sqe.op_flags
    }
}

} // verus!
