//! Namespace operations.

use vstd::prelude::*;

use crate::io_uring::op;
use crate::io_uring::op::{Op, Ptr};
use crate::io_uring::sys;
use crate::io_uring::sys::{Opcode, Sqe};

verus! {

/// Open a file with the extended `open_how` description.
///
/// `len` is preset to the size of `struct open_how`, which the kernel
/// validates.
#[derive(Clone, Copy, Debug)]
pub struct Openat2 {
    sqe: Sqe,
}

impl Op for Openat2 {
    closed spec fn sqe(&self) -> Sqe {
        self.sqe
    }

    fn as_sqe(&self) -> (sqe: &Sqe) {
        &self.sqe
    }

    fn with_sqe(self, sqe: Sqe) -> (op: Openat2) {
        Openat2 { sqe }
    }
}

impl Openat2 {
    /// A zeroed SQE for this operation.
    pub fn new() -> (op: Openat2)
        ensures
            op.sqe() == (Sqe { len: 24, ..sys::blank(Opcode::Openat2) }),
    {
        Openat2 { sqe: Sqe { len: 24, ..Sqe::new(Opcode::Openat2) } }
    }

    /// Sets the `dirfd`.
    pub fn dirfd(self, value: i32) -> (op: Openat2)
        ensures
            op.sqe() == (Sqe { fd: value, ..self.sqe() }),
    {
        Openat2 { sqe: Sqe { fd: value, ..self.sqe } }
    }

    /// Reads back [`Openat2::dirfd`].
    pub fn get_dirfd(&self) -> (value: i32)
        ensures
            value == self.sqe().fd,
    {
        self.sqe.fd
    }

    /// Sets the `path`.
    pub fn path(self, value: Ptr) -> (op: Openat2)
        ensures
            op.sqe() == (Sqe { addr: value@, ..self.sqe() }),
    {
        Openat2 { sqe: Sqe { addr: op::ptr_enc(value), ..self.sqe } }
    }

    /// Reads back [`Openat2::path`].
    pub fn get_path(&self) -> (value: Ptr)
        ensures
            value@ == op::pointer_in(self.sqe().addr, 1),
    {
        op::ptr_dec(self.sqe.addr, 1)
    }

    /// Pointer to a `struct open_how`.
    pub fn how(self, value: Ptr) -> (op: Openat2)
        ensures
            op.sqe() == (Sqe { addr2: value@, ..self.sqe() }),
    {
        Openat2 { sqe: Sqe { addr2: op::ptr_enc(value), ..self.sqe } }
    }

    /// Reads back [`Openat2::how`].
    pub fn get_how(&self) -> (value: Ptr)
        ensures
            value@ == op::pointer_in(self.sqe().addr2, 1),
    {
        op::ptr_dec(self.sqe.addr2, 1)
    }

    /// Install into this direct descriptor slot rather than returning an fd.
    pub fn slot(self, value: u32) -> (op: Openat2)
        ensures
            op.sqe() == (Sqe { file_index: op::slot_word(value), ..self.sqe() }),
    {
        Openat2 { sqe: Sqe { file_index: op::slot_encode(value), ..self.sqe } }
    }

    /// Reads back [`Openat2::slot`].
    pub fn get_slot(&self) -> (value: u32)
        ensures
            value == op::slot_of(self.sqe().file_index),
    {
        op::slot_decode(self.sqe.file_index)
    }
}

/// Remove a name, as `unlinkat`.
#[derive(Clone, Copy, Debug)]
pub struct Unlinkat {
    sqe: Sqe,
}

impl Op for Unlinkat {
    closed spec fn sqe(&self) -> Sqe {
        self.sqe
    }

    fn as_sqe(&self) -> (sqe: &Sqe) {
        &self.sqe
    }

    fn with_sqe(self, sqe: Sqe) -> (op: Unlinkat) {
        Unlinkat { sqe }
    }
}

impl Unlinkat {
    /// A zeroed SQE for this operation.
    pub fn new() -> (op: Unlinkat)
        ensures
            op.sqe() == sys::blank(Opcode::Unlinkat),
    {
        Unlinkat { sqe: Sqe::new(Opcode::Unlinkat) }
    }

    /// Sets the `dirfd`.
    pub fn dirfd(self, value: i32) -> (op: Unlinkat)
        ensures
            op.sqe() == (Sqe { fd: value, ..self.sqe() }),
    {
        Unlinkat { sqe: Sqe { fd: value, ..self.sqe } }
    }

    /// Reads back [`Unlinkat::dirfd`].
    pub fn get_dirfd(&self) -> (value: i32)
        ensures
            value == self.sqe().fd,
    {
        self.sqe.fd
    }

    /// Sets the `path`.
    pub fn path(self, value: Ptr) -> (op: Unlinkat)
        ensures
            op.sqe() == (Sqe { addr: value@, ..self.sqe() }),
    {
        Unlinkat { sqe: Sqe { addr: op::ptr_enc(value), ..self.sqe } }
    }

    /// Reads back [`Unlinkat::path`].
    pub fn get_path(&self) -> (value: Ptr)
        ensures
            value@ == op::pointer_in(self.sqe().addr, 1),
    {
        op::ptr_dec(self.sqe.addr, 1)
    }

    /// `AT_REMOVEDIR` to remove a directory.
    pub fn flags(self, value: u32) -> (op: Unlinkat)
        ensures
            op.sqe() == (Sqe { op_flags: value, ..self.sqe() }),
    {
        Unlinkat { sqe: Sqe { op_flags: value, ..self.sqe } }
    }

    /// Reads back [`Unlinkat::flags`].
    pub fn get_flags(&self) -> (value: u32)
        ensures
            value == self.sqe().op_flags,
    {
        self.sqe.op_flags
    }
}

/// Create a directory, as `mkdirat`.
#[derive(Clone, Copy, Debug)]
pub struct Mkdirat {
    sqe: Sqe,
}

impl Op for Mkdirat {
    closed spec fn sqe(&self) -> Sqe {
        self.sqe
    }

    fn as_sqe(&self) -> (sqe: &Sqe) {
        &self.sqe
    }

    fn with_sqe(self, sqe: Sqe) -> (op: Mkdirat) {
        Mkdirat { sqe }
    }
}

impl Mkdirat {
    /// A zeroed SQE for this operation.
    pub fn new() -> (op: Mkdirat)
        ensures
            op.sqe() == sys::blank(Opcode::Mkdirat),
    {
        Mkdirat { sqe: Sqe::new(Opcode::Mkdirat) }
    }

    /// Sets the `dirfd`.
    pub fn dirfd(self, value: i32) -> (op: Mkdirat)
        ensures
            op.sqe() == (Sqe { fd: value, ..self.sqe() }),
    {
        Mkdirat { sqe: Sqe { fd: value, ..self.sqe } }
    }

    /// Reads back [`Mkdirat::dirfd`].
    pub fn get_dirfd(&self) -> (value: i32)
        ensures
            value == self.sqe().fd,
    {
        self.sqe.fd
    }

    /// Sets the `path`.
    pub fn path(self, value: Ptr) -> (op: Mkdirat)
        ensures
            op.sqe() == (Sqe { addr: value@, ..self.sqe() }),
    {
        Mkdirat { sqe: Sqe { addr: op::ptr_enc(value), ..self.sqe } }
    }

    /// Reads back [`Mkdirat::path`].
    pub fn get_path(&self) -> (value: Ptr)
        ensures
            value@ == op::pointer_in(self.sqe().addr, 1),
    {
        op::ptr_dec(self.sqe.addr, 1)
    }

    /// Sets the `mode`.
    pub fn mode(self, value: u32) -> (op: Mkdirat)
        ensures
            op.sqe() == (Sqe { len: value, ..self.sqe() }),
    {
        Mkdirat { sqe: Sqe { len: value, ..self.sqe } }
    }

    /// Reads back [`Mkdirat::mode`].
    pub fn get_mode(&self) -> (value: u32)
        ensures
            value == self.sqe().len,
    {
        self.sqe.len
    }
}

/// Rename a file, as `renameat2`.
#[derive(Clone, Copy, Debug)]
pub struct Renameat {
    sqe: Sqe,
}

impl Op for Renameat {
    closed spec fn sqe(&self) -> Sqe {
        self.sqe
    }

    fn as_sqe(&self) -> (sqe: &Sqe) {
        &self.sqe
    }

    fn with_sqe(self, sqe: Sqe) -> (op: Renameat) {
        Renameat { sqe }
    }
}

impl Renameat {
    /// A zeroed SQE for this operation.
    pub fn new() -> (op: Renameat)
        ensures
            op.sqe() == sys::blank(Opcode::Renameat),
    {
        Renameat { sqe: Sqe::new(Opcode::Renameat) }
    }

    /// Directory to resolve [`Renameat::oldpath`] against.
    pub fn olddirfd(self, value: i32) -> (op: Renameat)
        ensures
            op.sqe() == (Sqe { fd: value, ..self.sqe() }),
    {
        Renameat { sqe: Sqe { fd: value, ..self.sqe } }
    }

    /// Reads back [`Renameat::olddirfd`].
    pub fn get_olddirfd(&self) -> (value: i32)
        ensures
            value == self.sqe().fd,
    {
        self.sqe.fd
    }

    /// Sets the `oldpath`.
    pub fn oldpath(self, value: Ptr) -> (op: Renameat)
        ensures
            op.sqe() == (Sqe { addr: value@, ..self.sqe() }),
    {
        Renameat { sqe: Sqe { addr: op::ptr_enc(value), ..self.sqe } }
    }

    /// Reads back [`Renameat::oldpath`].
    pub fn get_oldpath(&self) -> (value: Ptr)
        ensures
            value@ == op::pointer_in(self.sqe().addr, 1),
    {
        op::ptr_dec(self.sqe.addr, 1)
    }

    /// Directory to resolve [`Renameat::newpath`] against.
    pub fn newdirfd(self, value: i32) -> (op: Renameat)
        ensures
            op.sqe() == (Sqe { len: value as u32, ..self.sqe() }),
    {
        Renameat { sqe: Sqe { len: value as u32, ..self.sqe } }
    }

    /// Reads back [`Renameat::newdirfd`].
    pub fn get_newdirfd(&self) -> (value: i32)
        ensures
            value == self.sqe().len as i32,
    {
        self.sqe.len as i32
    }

    /// Sets the `newpath`.
    pub fn newpath(self, value: Ptr) -> (op: Renameat)
        ensures
            op.sqe() == (Sqe { addr2: value@, ..self.sqe() }),
    {
        Renameat { sqe: Sqe { addr2: op::ptr_enc(value), ..self.sqe } }
    }

    /// Reads back [`Renameat::newpath`].
    pub fn get_newpath(&self) -> (value: Ptr)
        ensures
            value@ == op::pointer_in(self.sqe().addr2, 1),
    {
        op::ptr_dec(self.sqe.addr2, 1)
    }

    /// `RENAME_*` flags.
    pub fn flags(self, value: u32) -> (op: Renameat)
        ensures
            op.sqe() == (Sqe { op_flags: value, ..self.sqe() }),
    {
        Renameat { sqe: Sqe { op_flags: value, ..self.sqe } }
    }

    /// Reads back [`Renameat::flags`].
    pub fn get_flags(&self) -> (value: u32)
        ensures
            value == self.sqe().op_flags,
    {
        self.sqe.op_flags
    }
}

/// Create a symbolic link, as `symlinkat`.
#[derive(Clone, Copy, Debug)]
pub struct Symlinkat {
    sqe: Sqe,
}

impl Op for Symlinkat {
    closed spec fn sqe(&self) -> Sqe {
        self.sqe
    }

    fn as_sqe(&self) -> (sqe: &Sqe) {
        &self.sqe
    }

    fn with_sqe(self, sqe: Sqe) -> (op: Symlinkat) {
        Symlinkat { sqe }
    }
}

impl Symlinkat {
    /// A zeroed SQE for this operation.
    pub fn new() -> (op: Symlinkat)
        ensures
            op.sqe() == sys::blank(Opcode::Symlinkat),
    {
        Symlinkat { sqe: Sqe::new(Opcode::Symlinkat) }
    }

    /// Directory to resolve [`Symlinkat::linkpath`] against.
    pub fn newdirfd(self, value: i32) -> (op: Symlinkat)
        ensures
            op.sqe() == (Sqe { fd: value, ..self.sqe() }),
    {
        Symlinkat { sqe: Sqe { fd: value, ..self.sqe } }
    }

    /// Reads back [`Symlinkat::newdirfd`].
    pub fn get_newdirfd(&self) -> (value: i32)
        ensures
            value == self.sqe().fd,
    {
        self.sqe.fd
    }

    /// What the link points at.
    pub fn target(self, value: Ptr) -> (op: Symlinkat)
        ensures
            op.sqe() == (Sqe { addr: value@, ..self.sqe() }),
    {
        Symlinkat { sqe: Sqe { addr: op::ptr_enc(value), ..self.sqe } }
    }

    /// Reads back [`Symlinkat::target`].
    pub fn get_target(&self) -> (value: Ptr)
        ensures
            value@ == op::pointer_in(self.sqe().addr, 1),
    {
        op::ptr_dec(self.sqe.addr, 1)
    }

    /// Where to create the link.
    pub fn linkpath(self, value: Ptr) -> (op: Symlinkat)
        ensures
            op.sqe() == (Sqe { addr2: value@, ..self.sqe() }),
    {
        Symlinkat { sqe: Sqe { addr2: op::ptr_enc(value), ..self.sqe } }
    }

    /// Reads back [`Symlinkat::linkpath`].
    pub fn get_linkpath(&self) -> (value: Ptr)
        ensures
            value@ == op::pointer_in(self.sqe().addr2, 1),
    {
        op::ptr_dec(self.sqe.addr2, 1)
    }
}

/// Create a hard link, as `linkat`.
#[derive(Clone, Copy, Debug)]
pub struct Linkat {
    sqe: Sqe,
}

impl Op for Linkat {
    closed spec fn sqe(&self) -> Sqe {
        self.sqe
    }

    fn as_sqe(&self) -> (sqe: &Sqe) {
        &self.sqe
    }

    fn with_sqe(self, sqe: Sqe) -> (op: Linkat) {
        Linkat { sqe }
    }
}

impl Linkat {
    /// A zeroed SQE for this operation.
    pub fn new() -> (op: Linkat)
        ensures
            op.sqe() == sys::blank(Opcode::Linkat),
    {
        Linkat { sqe: Sqe::new(Opcode::Linkat) }
    }

    /// Sets the `olddirfd`.
    pub fn olddirfd(self, value: i32) -> (op: Linkat)
        ensures
            op.sqe() == (Sqe { fd: value, ..self.sqe() }),
    {
        Linkat { sqe: Sqe { fd: value, ..self.sqe } }
    }

    /// Reads back [`Linkat::olddirfd`].
    pub fn get_olddirfd(&self) -> (value: i32)
        ensures
            value == self.sqe().fd,
    {
        self.sqe.fd
    }

    /// Sets the `oldpath`.
    pub fn oldpath(self, value: Ptr) -> (op: Linkat)
        ensures
            op.sqe() == (Sqe { addr: value@, ..self.sqe() }),
    {
        Linkat { sqe: Sqe { addr: op::ptr_enc(value), ..self.sqe } }
    }

    /// Reads back [`Linkat::oldpath`].
    pub fn get_oldpath(&self) -> (value: Ptr)
        ensures
            value@ == op::pointer_in(self.sqe().addr, 1),
    {
        op::ptr_dec(self.sqe.addr, 1)
    }

    /// Sets the `newdirfd`.
    pub fn newdirfd(self, value: i32) -> (op: Linkat)
        ensures
            op.sqe() == (Sqe { len: value as u32, ..self.sqe() }),
    {
        Linkat { sqe: Sqe { len: value as u32, ..self.sqe } }
    }

    /// Reads back [`Linkat::newdirfd`].
    pub fn get_newdirfd(&self) -> (value: i32)
        ensures
            value == self.sqe().len as i32,
    {
        self.sqe.len as i32
    }

    /// Sets the `newpath`.
    pub fn newpath(self, value: Ptr) -> (op: Linkat)
        ensures
            op.sqe() == (Sqe { addr2: value@, ..self.sqe() }),
    {
        Linkat { sqe: Sqe { addr2: op::ptr_enc(value), ..self.sqe } }
    }

    /// Reads back [`Linkat::newpath`].
    pub fn get_newpath(&self) -> (value: Ptr)
        ensures
            value@ == op::pointer_in(self.sqe().addr2, 1),
    {
        op::ptr_dec(self.sqe.addr2, 1)
    }

    /// `AT_*` flags.
    pub fn flags(self, value: u32) -> (op: Linkat)
        ensures
            op.sqe() == (Sqe { op_flags: value, ..self.sqe() }),
    {
        Linkat { sqe: Sqe { op_flags: value, ..self.sqe } }
    }

    /// Reads back [`Linkat::flags`].
    pub fn get_flags(&self) -> (value: u32)
        ensures
            value == self.sqe().op_flags,
    {
        self.sqe.op_flags
    }
}

/// Create a pipe pair.
#[derive(Clone, Copy, Debug)]
pub struct Pipe {
    sqe: Sqe,
}

impl Op for Pipe {
    closed spec fn sqe(&self) -> Sqe {
        self.sqe
    }

    fn as_sqe(&self) -> (sqe: &Sqe) {
        &self.sqe
    }

    fn with_sqe(self, sqe: Sqe) -> (op: Pipe) {
        Pipe { sqe }
    }
}

impl Pipe {
    /// A zeroed SQE for this operation.
    pub fn new() -> (op: Pipe)
        ensures
            op.sqe() == sys::blank(Opcode::Pipe),
    {
        Pipe { sqe: Sqe::new(Opcode::Pipe) }
    }

    /// Where to write the two descriptors.
    pub fn fds(self, value: Ptr) -> (op: Pipe)
        ensures
            op.sqe() == (Sqe { addr: value@, ..self.sqe() }),
    {
        Pipe { sqe: Sqe { addr: op::ptr_enc(value), ..self.sqe } }
    }

    /// Reads back [`Pipe::fds`].
    pub fn get_fds(&self) -> (value: Ptr)
        ensures
            value@ == op::pointer_in(self.sqe().addr, 4),
    {
        op::ptr_dec(self.sqe.addr, 4)
    }

    /// `O_*` flags.
    pub fn flags(self, value: u32) -> (op: Pipe)
        ensures
            op.sqe() == (Sqe { op_flags: value, ..self.sqe() }),
    {
        Pipe { sqe: Sqe { op_flags: value, ..self.sqe } }
    }

    /// Reads back [`Pipe::flags`].
    pub fn get_flags(&self) -> (value: u32)
        ensures
            value == self.sqe().op_flags,
    {
        self.sqe.op_flags
    }

    /// Install into consecutive direct descriptor slots starting here.
    pub fn slot(self, value: u32) -> (op: Pipe)
        ensures
            op.sqe() == (Sqe { file_index: op::slot_word(value), ..self.sqe() }),
    {
        Pipe { sqe: Sqe { file_index: op::slot_encode(value), ..self.sqe } }
    }

    /// Reads back [`Pipe::slot`].
    pub fn get_slot(&self) -> (value: u32)
        ensures
            value == op::slot_of(self.sqe().file_index),
    {
        op::slot_decode(self.sqe.file_index)
    }
}

} // verus!
