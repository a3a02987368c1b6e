//! Driving an epoll instance.

use vstd::prelude::*;

use crate::io_uring::op;
use crate::io_uring::op::{Op, Ptr};
use crate::io_uring::sys;
use crate::io_uring::sys::{Opcode, Sqe};

verus! {

/// Modify an epoll set, as `epoll_ctl`.
#[derive(Clone, Copy, Debug)]
pub struct EpollCtl {
    sqe: Sqe,
}

impl Op for EpollCtl {
    closed spec fn sqe(&self) -> Sqe {
        self.sqe
    }

    fn as_sqe(&self) -> (sqe: &Sqe) {
        &self.sqe
    }

    fn with_sqe(self, sqe: Sqe) -> (op: EpollCtl) {
        EpollCtl { sqe }
    }
}

impl EpollCtl {
    /// A zeroed SQE for this operation.
    pub fn new() -> (op: EpollCtl)
        ensures
            op.sqe() == sys::blank(Opcode::EpollCtl),
    {
        EpollCtl { sqe: Sqe::new(Opcode::EpollCtl) }
    }

    /// The epoll descriptor.
    pub fn epfd(self, value: i32) -> (op: EpollCtl)
        ensures
            op.sqe() == (Sqe { fd: value, ..self.sqe() }),
    {
        EpollCtl { sqe: Sqe { fd: value, ..self.sqe } }
    }

    /// Reads back [`EpollCtl::epfd`].
    pub fn get_epfd(&self) -> (value: i32)
        ensures
            value == self.sqe().fd,
    {
        self.sqe.fd
    }

    /// The descriptor being registered, in the `addr2` slot.
    pub fn target_fd(self, value: u64) -> (op: EpollCtl)
        ensures
            op.sqe() == (Sqe { addr2: value, ..self.sqe() }),
    {
        EpollCtl { sqe: Sqe { addr2: value, ..self.sqe } }
    }

    /// Reads back [`EpollCtl::target_fd`].
    pub fn get_target_fd(&self) -> (value: u64)
        ensures
            value == self.sqe().addr2,
    {
        self.sqe.addr2
    }

    /// `EPOLL_CTL_ADD`, `_MOD` or `_DEL`.
    pub fn op(self, value: u32) -> (op: EpollCtl)
        ensures
            op.sqe() == (Sqe { len: value, ..self.sqe() }),
    {
        EpollCtl { sqe: Sqe { len: value, ..self.sqe } }
    }

    /// Reads back [`EpollCtl::op`].
    pub fn get_op(&self) -> (value: u32)
        ensures
            value == self.sqe().len,
    {
        self.sqe.len
    }

    /// Sets the `event`.
    pub fn event(self, value: Ptr) -> (op: EpollCtl)
        ensures
            op.sqe() == (Sqe { addr: value@, ..self.sqe() }),
    {
        EpollCtl { sqe: Sqe { addr: op::ptr_enc(value), ..self.sqe } }
    }

    /// Reads back [`EpollCtl::event`], a pointer to a structure that is
    /// packed on x86-64.
    pub fn get_event(&self) -> (value: Ptr)
        ensures
            value@ == op::pointer_in(self.sqe().addr, 1),
    {
        op::ptr_dec(self.sqe.addr, 1)
    }
}

/// Wait on an epoll set.
#[derive(Clone, Copy, Debug)]
pub struct EpollWait {
    sqe: Sqe,
}

impl Op for EpollWait {
    closed spec fn sqe(&self) -> Sqe {
        self.sqe
    }

    fn as_sqe(&self) -> (sqe: &Sqe) {
        &self.sqe
    }

    fn with_sqe(self, sqe: Sqe) -> (op: EpollWait) {
        EpollWait { sqe }
    }
}

impl EpollWait {
    /// A zeroed SQE for this operation.
    pub fn new() -> (op: EpollWait)
        ensures
            op.sqe() == sys::blank(Opcode::EpollWait),
    {
        EpollWait { sqe: Sqe::new(Opcode::EpollWait) }
    }

    /// Sets the `epfd`.
    pub fn epfd(self, value: i32) -> (op: EpollWait)
        ensures
            op.sqe() == (Sqe { fd: value, ..self.sqe() }),
    {
        EpollWait { sqe: Sqe { fd: value, ..self.sqe } }
    }

    /// Reads back [`EpollWait::epfd`].
    pub fn get_epfd(&self) -> (value: i32)
        ensures
            value == self.sqe().fd,
    {
        self.sqe.fd
    }

    /// Where to write the ready events.
    pub fn events(self, value: Ptr) -> (op: EpollWait)
        ensures
            op.sqe() == (Sqe { addr: value@, ..self.sqe() }),
    {
        EpollWait { sqe: Sqe { addr: op::ptr_enc(value), ..self.sqe } }
    }

    /// Reads back [`EpollWait::events`], a pointer to structures that are
    /// packed on x86-64.
    pub fn get_events(&self) -> (value: Ptr)
        ensures
            value@ == op::pointer_in(self.sqe().addr, 1),
    {
        op::ptr_dec(self.sqe.addr, 1)
    }

    /// Capacity of `events`.
    pub fn maxevents(self, value: u32) -> (op: EpollWait)
        ensures
            op.sqe() == (Sqe { len: value, ..self.sqe() }),
    {
        EpollWait { sqe: Sqe { len: value, ..self.sqe } }
    }

    /// Reads back [`EpollWait::maxevents`].
    pub fn get_maxevents(&self) -> (value: u32)
        ensures
            value == self.sqe().len,
    {
        self.sqe.len
    }

    /// Sets the `flags`.
    pub fn flags(self, value: u32) -> (op: EpollWait)
        ensures
            op.sqe() == (Sqe { op_flags: value, ..self.sqe() }),
    {
        EpollWait { sqe: Sqe { op_flags: value, ..self.sqe } }
    }

    /// Reads back [`EpollWait::flags`].
    pub fn get_flags(&self) -> (value: u32)
        ensures
            value == self.sqe().op_flags,
    {
        self.sqe.op_flags
    }
}

} // verus!
