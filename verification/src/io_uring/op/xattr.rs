//! Extended attributes.

use vstd::prelude::*;

use crate::io_uring::op;
use crate::io_uring::op::{Op, Ptr};
use crate::io_uring::sys;
use crate::io_uring::sys::{Opcode, Sqe};

verus! {

/// Read an extended attribute by path.
#[derive(Clone, Copy, Debug)]
pub struct Getxattr {
    sqe: Sqe,
}

impl Op for Getxattr {
    closed spec fn sqe(&self) -> Sqe {
        self.sqe
    }

    fn as_sqe(&self) -> (sqe: &Sqe) {
        &self.sqe
    }

    fn with_sqe(self, sqe: Sqe) -> (op: Getxattr) {
        Getxattr { sqe }
    }
}

impl Getxattr {
    /// A zeroed SQE for this operation.
    pub fn new() -> (op: Getxattr)
        ensures
            op.sqe() == sys::blank(Opcode::Getxattr),
    {
        Getxattr { sqe: Sqe::new(Opcode::Getxattr) }
    }

    /// Null-terminated attribute name.
    pub fn name(self, value: Ptr) -> (op: Getxattr)
        ensures
            op.sqe() == (Sqe { addr: value@, ..self.sqe() }),
    {
        Getxattr { sqe: Sqe { addr: op::ptr_enc(value), ..self.sqe } }
    }

    /// Reads back [`Getxattr::name`].
    pub fn get_name(&self) -> (value: Ptr)
        ensures
            value@ == op::pointer_in(self.sqe().addr, 1),
    {
        op::ptr_dec(self.sqe.addr, 1)
    }

    /// Where to write the value.
    pub fn value(self, value: Ptr) -> (op: Getxattr)
        ensures
            op.sqe() == (Sqe { addr2: value@, ..self.sqe() }),
    {
        Getxattr { sqe: Sqe { addr2: op::ptr_enc(value), ..self.sqe } }
    }

    /// Reads back [`Getxattr::value`].
    pub fn get_value(&self) -> (value: Ptr)
        ensures
            value@ == op::pointer_in(self.sqe().addr2, 1),
    {
        op::ptr_dec(self.sqe.addr2, 1)
    }

    /// Null-terminated file path.
    pub fn path(self, value: Ptr) -> (op: Getxattr)
        ensures
            op.sqe() == (Sqe { addr3: value@, ..self.sqe() }),
    {
        Getxattr { sqe: Sqe { addr3: op::ptr_enc(value), ..self.sqe } }
    }

    /// Reads back [`Getxattr::path`].
    pub fn get_path(&self) -> (value: Ptr)
        ensures
            value@ == op::pointer_in(self.sqe().addr3, 1),
    {
        op::ptr_dec(self.sqe.addr3, 1)
    }

    /// Capacity of `value`.
    pub fn len(self, value: u32) -> (op: Getxattr)
        ensures
            op.sqe() == (Sqe { len: value, ..self.sqe() }),
    {
        Getxattr { sqe: Sqe { len: value, ..self.sqe } }
    }

    /// Reads back [`Getxattr::len`].
    pub fn get_len(&self) -> (value: u32)
        ensures
            value == self.sqe().len,
    {
        self.sqe.len
    }
}

/// Write an extended attribute by path.
#[derive(Clone, Copy, Debug)]
pub struct Setxattr {
    sqe: Sqe,
}

impl Op for Setxattr {
    closed spec fn sqe(&self) -> Sqe {
        self.sqe
    }

    fn as_sqe(&self) -> (sqe: &Sqe) {
        &self.sqe
    }

    fn with_sqe(self, sqe: Sqe) -> (op: Setxattr) {
        Setxattr { sqe }
    }
}

impl Setxattr {
    /// A zeroed SQE for this operation.
    pub fn new() -> (op: Setxattr)
        ensures
            op.sqe() == sys::blank(Opcode::Setxattr),
    {
        Setxattr { sqe: Sqe::new(Opcode::Setxattr) }
    }

    /// Sets the `name`.
    pub fn name(self, value: Ptr) -> (op: Setxattr)
        ensures
            op.sqe() == (Sqe { addr: value@, ..self.sqe() }),
    {
        Setxattr { sqe: Sqe { addr: op::ptr_enc(value), ..self.sqe } }
    }

    /// Reads back [`Setxattr::name`].
    pub fn get_name(&self) -> (value: Ptr)
        ensures
            value@ == op::pointer_in(self.sqe().addr, 1),
    {
        op::ptr_dec(self.sqe.addr, 1)
    }

    /// Sets the `value`.
    pub fn value(self, value: Ptr) -> (op: Setxattr)
        ensures
            op.sqe() == (Sqe { addr2: value@, ..self.sqe() }),
    {
        Setxattr { sqe: Sqe { addr2: op::ptr_enc(value), ..self.sqe } }
    }

    /// Reads back [`Setxattr::value`].
    pub fn get_value(&self) -> (value: Ptr)
        ensures
            value@ == op::pointer_in(self.sqe().addr2, 1),
    {
        op::ptr_dec(self.sqe.addr2, 1)
    }

    /// Sets the `path`.
    pub fn path(self, value: Ptr) -> (op: Setxattr)
        ensures
            op.sqe() == (Sqe { addr3: value@, ..self.sqe() }),
    {
        Setxattr { sqe: Sqe { addr3: op::ptr_enc(value), ..self.sqe } }
    }

    /// Reads back [`Setxattr::path`].
    pub fn get_path(&self) -> (value: Ptr)
        ensures
            value@ == op::pointer_in(self.sqe().addr3, 1),
    {
        op::ptr_dec(self.sqe.addr3, 1)
    }

    /// Length of `value`.
    pub fn len(self, value: u32) -> (op: Setxattr)
        ensures
            op.sqe() == (Sqe { len: value, ..self.sqe() }),
    {
        Setxattr { sqe: Sqe { len: value, ..self.sqe } }
    }

    /// Reads back [`Setxattr::len`].
    pub fn get_len(&self) -> (value: u32)
        ensures
            value == self.sqe().len,
    {
        self.sqe.len
    }

    /// `XATTR_CREATE` or `XATTR_REPLACE`.
    pub fn flags(self, value: u32) -> (op: Setxattr)
        ensures
            op.sqe() == (Sqe { op_flags: value, ..self.sqe() }),
    {
        Setxattr { sqe: Sqe { op_flags: value, ..self.sqe } }
    }

    /// Reads back [`Setxattr::flags`].
    pub fn get_flags(&self) -> (value: u32)
        ensures
            value == self.sqe().op_flags,
    {
        self.sqe.op_flags
    }
}

/// Read an extended attribute by descriptor.
#[derive(Clone, Copy, Debug)]
pub struct Fgetxattr {
    sqe: Sqe,
}

impl Op for Fgetxattr {
    closed spec fn sqe(&self) -> Sqe {
        self.sqe
    }

    fn as_sqe(&self) -> (sqe: &Sqe) {
        &self.sqe
    }

    fn with_sqe(self, sqe: Sqe) -> (op: Fgetxattr) {
        Fgetxattr { sqe }
    }
}

impl Fgetxattr {
    /// A zeroed SQE for this operation.
    pub fn new() -> (op: Fgetxattr)
        ensures
            op.sqe() == sys::blank(Opcode::Fgetxattr),
    {
        Fgetxattr { sqe: Sqe::new(Opcode::Fgetxattr) }
    }

    /// Sets the `fd`.
    pub fn fd(self, value: i32) -> (op: Fgetxattr)
        ensures
            op.sqe() == (Sqe { fd: value, ..self.sqe() }),
    {
        Fgetxattr { sqe: Sqe { fd: value, ..self.sqe } }
    }

    /// Reads back [`Fgetxattr::fd`].
    pub fn get_fd(&self) -> (value: i32)
        ensures
            value == self.sqe().fd,
    {
        self.sqe.fd
    }

    /// Sets the `name`.
    pub fn name(self, value: Ptr) -> (op: Fgetxattr)
        ensures
            op.sqe() == (Sqe { addr: value@, ..self.sqe() }),
    {
        Fgetxattr { sqe: Sqe { addr: op::ptr_enc(value), ..self.sqe } }
    }

    /// Reads back [`Fgetxattr::name`].
    pub fn get_name(&self) -> (value: Ptr)
        ensures
            value@ == op::pointer_in(self.sqe().addr, 1),
    {
        op::ptr_dec(self.sqe.addr, 1)
    }

    /// Sets the `value`.
    pub fn value(self, value: Ptr) -> (op: Fgetxattr)
        ensures
            op.sqe() == (Sqe { addr2: value@, ..self.sqe() }),
    {
        Fgetxattr { sqe: Sqe { addr2: op::ptr_enc(value), ..self.sqe } }
    }

    /// Reads back [`Fgetxattr::value`].
    pub fn get_value(&self) -> (value: Ptr)
        ensures
            value@ == op::pointer_in(self.sqe().addr2, 1),
    {
        op::ptr_dec(self.sqe.addr2, 1)
    }

    /// Sets the `len`.
    pub fn len(self, value: u32) -> (op: Fgetxattr)
        ensures
            op.sqe() == (Sqe { len: value, ..self.sqe() }),
    {
        Fgetxattr { sqe: Sqe { len: value, ..self.sqe } }
    }

    /// Reads back [`Fgetxattr::len`].
    pub fn get_len(&self) -> (value: u32)
        ensures
            value == self.sqe().len,
    {
        self.sqe.len
    }
}

/// Write an extended attribute by descriptor.
#[derive(Clone, Copy, Debug)]
pub struct Fsetxattr {
    sqe: Sqe,
}

impl Op for Fsetxattr {
    closed spec fn sqe(&self) -> Sqe {
        self.sqe
    }

    fn as_sqe(&self) -> (sqe: &Sqe) {
        &self.sqe
    }

    fn with_sqe(self, sqe: Sqe) -> (op: Fsetxattr) {
        Fsetxattr { sqe }
    }
}

impl Fsetxattr {
    /// A zeroed SQE for this operation.
    pub fn new() -> (op: Fsetxattr)
        ensures
            op.sqe() == sys::blank(Opcode::Fsetxattr),
    {
        Fsetxattr { sqe: Sqe::new(Opcode::Fsetxattr) }
    }

    /// Sets the `fd`.
    pub fn fd(self, value: i32) -> (op: Fsetxattr)
        ensures
            op.sqe() == (Sqe { fd: value, ..self.sqe() }),
    {
        Fsetxattr { sqe: Sqe { fd: value, ..self.sqe } }
    }

    /// Reads back [`Fsetxattr::fd`].
    pub fn get_fd(&self) -> (value: i32)
        ensures
            value == self.sqe().fd,
    {
        self.sqe.fd
    }

    /// Sets the `name`.
    pub fn name(self, value: Ptr) -> (op: Fsetxattr)
        ensures
            op.sqe() == (Sqe { addr: value@, ..self.sqe() }),
    {
        Fsetxattr { sqe: Sqe { addr: op::ptr_enc(value), ..self.sqe } }
    }

    /// Reads back [`Fsetxattr::name`].
    pub fn get_name(&self) -> (value: Ptr)
        ensures
            value@ == op::pointer_in(self.sqe().addr, 1),
    {
        op::ptr_dec(self.sqe.addr, 1)
    }

    /// Sets the `value`.
    pub fn value(self, value: Ptr) -> (op: Fsetxattr)
        ensures
            op.sqe() == (Sqe { addr2: value@, ..self.sqe() }),
    {
        Fsetxattr { sqe: Sqe { addr2: op::ptr_enc(value), ..self.sqe } }
    }

    /// Reads back [`Fsetxattr::value`].
    pub fn get_value(&self) -> (value: Ptr)
        ensures
            value@ == op::pointer_in(self.sqe().addr2, 1),
    {
        op::ptr_dec(self.sqe.addr2, 1)
    }

    /// Sets the `len`.
    pub fn len(self, value: u32) -> (op: Fsetxattr)
        ensures
            op.sqe() == (Sqe { len: value, ..self.sqe() }),
    {
        Fsetxattr { sqe: Sqe { len: value, ..self.sqe } }
    }

    /// Reads back [`Fsetxattr::len`].
    pub fn get_len(&self) -> (value: u32)
        ensures
            value == self.sqe().len,
    {
        self.sqe.len
    }

    /// Sets the `flags`.
    pub fn flags(self, value: u32) -> (op: Fsetxattr)
        ensures
            op.sqe() == (Sqe { op_flags: value, ..self.sqe() }),
    {
        Fsetxattr { sqe: Sqe { op_flags: value, ..self.sqe } }
    }

    /// Reads back [`Fsetxattr::flags`].
    pub fn get_flags(&self) -> (value: u32)
        ensures
            value == self.sqe().op_flags,
    {
        self.sqe.op_flags
    }
}

} // verus!
