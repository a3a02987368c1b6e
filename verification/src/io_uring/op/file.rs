//! File state.

use vstd::prelude::*;

use crate::io_uring::op;
use crate::io_uring::op::{Op, Ptr};
use crate::io_uring::sys;
use crate::io_uring::sys::{FsyncFlags, Opcode, Sqe};

verus! {

/// Flush a file to storage.
#[derive(Clone, Copy, Debug)]
pub struct Fsync {
    sqe: Sqe,
}

impl Op for Fsync {
    closed spec fn sqe(&self) -> Sqe {
        self.sqe
    }

    fn as_sqe(&self) -> (sqe: &Sqe) {
        &self.sqe
    }

    fn with_sqe(self, sqe: Sqe) -> (op: Fsync) {
        Fsync { sqe }
    }
}

impl Fsync {
    /// A zeroed SQE for this operation.
    pub fn new() -> (op: Fsync)
        ensures
            op.sqe() == sys::blank(Opcode::Fsync),
    {
        Fsync { sqe: Sqe::new(Opcode::Fsync) }
    }

    /// Sets the `fd`.
    pub fn fd(self, value: i32) -> (op: Fsync)
        ensures
            op.sqe() == (Sqe { fd: value, ..self.sqe() }),
    {
        Fsync { sqe: Sqe { fd: value, ..self.sqe } }
    }

    /// Reads back [`Fsync::fd`].
    pub fn get_fd(&self) -> (value: i32)
        ensures
            value == self.sqe().fd,
    {
        self.sqe.fd
    }

    /// [`sys::FsyncFlags::DATASYNC`] for `fdatasync` semantics.
    pub fn flags(self, value: FsyncFlags) -> (op: Fsync)
        ensures
            op.sqe() == (Sqe { op_flags: value.bits, ..self.sqe() }),
    {
        Fsync { sqe: Sqe { op_flags: value.bits(), ..self.sqe } }
    }

    /// Reads back [`Fsync::flags`].
    pub fn get_flags(&self) -> (value: FsyncFlags)
        ensures
            value.bits == self.sqe().op_flags,
    {
        FsyncFlags::from_bits_retain(self.sqe.op_flags)
    }
}

/// Flush a byte range, as `sync_file_range`.
#[derive(Clone, Copy, Debug)]
pub struct SyncFileRange {
    sqe: Sqe,
}

impl Op for SyncFileRange {
    closed spec fn sqe(&self) -> Sqe {
        self.sqe
    }

    fn as_sqe(&self) -> (sqe: &Sqe) {
        &self.sqe
    }

    fn with_sqe(self, sqe: Sqe) -> (op: SyncFileRange) {
        SyncFileRange { sqe }
    }
}

impl SyncFileRange {
    /// A zeroed SQE for this operation.
    pub fn new() -> (op: SyncFileRange)
        ensures
            op.sqe() == sys::blank(Opcode::SyncFileRange),
    {
        SyncFileRange { sqe: Sqe::new(Opcode::SyncFileRange) }
    }

    /// Sets the `fd`.
    pub fn fd(self, value: i32) -> (op: SyncFileRange)
        ensures
            op.sqe() == (Sqe { fd: value, ..self.sqe() }),
    {
        SyncFileRange { sqe: Sqe { fd: value, ..self.sqe } }
    }

    /// Reads back [`SyncFileRange::fd`].
    pub fn get_fd(&self) -> (value: i32)
        ensures
            value == self.sqe().fd,
    {
        self.sqe.fd
    }

    /// Sets the `nbytes`.
    pub fn nbytes(self, value: u32) -> (op: SyncFileRange)
        ensures
            op.sqe() == (Sqe { len: value, ..self.sqe() }),
    {
        SyncFileRange { sqe: Sqe { len: value, ..self.sqe } }
    }

    /// Reads back [`SyncFileRange::nbytes`].
    pub fn get_nbytes(&self) -> (value: u32)
        ensures
            value == self.sqe().len,
    {
        self.sqe.len
    }

    /// Sets the `offset`.
    pub fn offset(self, value: u64) -> (op: SyncFileRange)
        ensures
            op.sqe() == (Sqe { addr2: value, ..self.sqe() }),
    {
        SyncFileRange { sqe: Sqe { addr2: value, ..self.sqe } }
    }

    /// Reads back [`SyncFileRange::offset`].
    pub fn get_offset(&self) -> (value: u64)
        ensures
            value == self.sqe().addr2,
    {
        self.sqe.addr2
    }

    /// `SYNC_FILE_RANGE_*` flags.
    pub fn flags(self, value: u32) -> (op: SyncFileRange)
        ensures
            op.sqe() == (Sqe { op_flags: value, ..self.sqe() }),
    {
        SyncFileRange { sqe: Sqe { op_flags: value, ..self.sqe } }
    }

    /// Reads back [`SyncFileRange::flags`].
    pub fn get_flags(&self) -> (value: u32)
        ensures
            value == self.sqe().op_flags,
    {
        self.sqe.op_flags
    }
}

/// Manipulate file space, as `fallocate`.
#[derive(Clone, Copy, Debug)]
pub struct Fallocate {
    sqe: Sqe,
}

impl Op for Fallocate {
    closed spec fn sqe(&self) -> Sqe {
        self.sqe
    }

    fn as_sqe(&self) -> (sqe: &Sqe) {
        &self.sqe
    }

    fn with_sqe(self, sqe: Sqe) -> (op: Fallocate) {
        Fallocate { sqe }
    }
}

impl Fallocate {
    /// A zeroed SQE for this operation.
    pub fn new() -> (op: Fallocate)
        ensures
            op.sqe() == sys::blank(Opcode::Fallocate),
    {
        Fallocate { sqe: Sqe::new(Opcode::Fallocate) }
    }

    /// Sets the `fd`.
    pub fn fd(self, value: i32) -> (op: Fallocate)
        ensures
            op.sqe() == (Sqe { fd: value, ..self.sqe() }),
    {
        Fallocate { sqe: Sqe { fd: value, ..self.sqe } }
    }

    /// Reads back [`Fallocate::fd`].
    pub fn get_fd(&self) -> (value: i32)
        ensures
            value == self.sqe().fd,
    {
        self.sqe.fd
    }

    /// `FALLOC_FL_*` mode.
    pub fn mode(self, value: u32) -> (op: Fallocate)
        ensures
            op.sqe() == (Sqe { len: value, ..self.sqe() }),
    {
        Fallocate { sqe: Sqe { len: value, ..self.sqe } }
    }

    /// Reads back [`Fallocate::mode`].
    pub fn get_mode(&self) -> (value: u32)
        ensures
            value == self.sqe().len,
    {
        self.sqe.len
    }

    /// Sets the `offset`.
    pub fn offset(self, value: u64) -> (op: Fallocate)
        ensures
            op.sqe() == (Sqe { addr2: value, ..self.sqe() }),
    {
        Fallocate { sqe: Sqe { addr2: value, ..self.sqe } }
    }

    /// Reads back [`Fallocate::offset`].
    pub fn get_offset(&self) -> (value: u64)
        ensures
            value == self.sqe().addr2,
    {
        self.sqe.addr2
    }

    /// Length of the range.
    pub fn nbytes(self, value: u64) -> (op: Fallocate)
        ensures
            op.sqe() == (Sqe { addr: value, ..self.sqe() }),
    {
        Fallocate { sqe: Sqe { addr: value, ..self.sqe } }
    }

    /// Reads back [`Fallocate::nbytes`].
    pub fn get_nbytes(&self) -> (value: u64)
        ensures
            value == self.sqe().addr,
    {
        self.sqe.addr
    }
}

/// Truncate a file, as `ftruncate`.
#[derive(Clone, Copy, Debug)]
pub struct Ftruncate {
    sqe: Sqe,
}

impl Op for Ftruncate {
    closed spec fn sqe(&self) -> Sqe {
        self.sqe
    }

    fn as_sqe(&self) -> (sqe: &Sqe) {
        &self.sqe
    }

    fn with_sqe(self, sqe: Sqe) -> (op: Ftruncate) {
        Ftruncate { sqe }
    }
}

impl Ftruncate {
    /// A zeroed SQE for this operation.
    pub fn new() -> (op: Ftruncate)
        ensures
            op.sqe() == sys::blank(Opcode::Ftruncate),
    {
        Ftruncate { sqe: Sqe::new(Opcode::Ftruncate) }
    }

    /// Sets the `fd`.
    pub fn fd(self, value: i32) -> (op: Ftruncate)
        ensures
            op.sqe() == (Sqe { fd: value, ..self.sqe() }),
    {
        Ftruncate { sqe: Sqe { fd: value, ..self.sqe } }
    }

    /// Reads back [`Ftruncate::fd`].
    pub fn get_fd(&self) -> (value: i32)
        ensures
            value == self.sqe().fd,
    {
        self.sqe.fd
    }

    /// The new length.
    pub fn nbytes(self, value: u64) -> (op: Ftruncate)
        ensures
            op.sqe() == (Sqe { addr2: value, ..self.sqe() }),
    {
        Ftruncate { sqe: Sqe { addr2: value, ..self.sqe } }
    }

    /// Reads back [`Ftruncate::nbytes`].
    pub fn get_nbytes(&self) -> (value: u64)
        ensures
            value == self.sqe().addr2,
    {
        self.sqe.addr2
    }
}

/// Declare an access pattern, as `posix_fadvise`.
#[derive(Clone, Copy, Debug)]
pub struct Fadvise {
    sqe: Sqe,
}

impl Op for Fadvise {
    closed spec fn sqe(&self) -> Sqe {
        self.sqe
    }

    fn as_sqe(&self) -> (sqe: &Sqe) {
        &self.sqe
    }

    fn with_sqe(self, sqe: Sqe) -> (op: Fadvise) {
        Fadvise { sqe }
    }
}

impl Fadvise {
    /// A zeroed SQE for this operation.
    pub fn new() -> (op: Fadvise)
        ensures
            op.sqe() == sys::blank(Opcode::Fadvise),
    {
        Fadvise { sqe: Sqe::new(Opcode::Fadvise) }
    }

    /// Sets the `fd`.
    pub fn fd(self, value: i32) -> (op: Fadvise)
        ensures
            op.sqe() == (Sqe { fd: value, ..self.sqe() }),
    {
        Fadvise { sqe: Sqe { fd: value, ..self.sqe } }
    }

    /// Reads back [`Fadvise::fd`].
    pub fn get_fd(&self) -> (value: i32)
        ensures
            value == self.sqe().fd,
    {
        self.sqe.fd
    }

    /// Sets the `offset`.
    pub fn offset(self, value: u64) -> (op: Fadvise)
        ensures
            op.sqe() == (Sqe { addr2: value, ..self.sqe() }),
    {
        Fadvise { sqe: Sqe { addr2: value, ..self.sqe } }
    }

    /// Reads back [`Fadvise::offset`].
    pub fn get_offset(&self) -> (value: u64)
        ensures
            value == self.sqe().addr2,
    {
        self.sqe.addr2
    }

    /// Length of the range. Leave [`Fadvise::nbytes64`] unset when using this.
    pub fn nbytes(self, value: u32) -> (op: Fadvise)
        ensures
            op.sqe() == (Sqe { len: value, ..self.sqe() }),
    {
        Fadvise { sqe: Sqe { len: value, ..self.sqe } }
    }

    /// Reads back [`Fadvise::nbytes`].
    pub fn get_nbytes(&self) -> (value: u32)
        ensures
            value == self.sqe().len,
    {
        self.sqe.len
    }

    /// 64-bit length, for ranges beyond 4GiB. Leave [`Fadvise::nbytes`] unset.
    pub fn nbytes64(self, value: u64) -> (op: Fadvise)
        ensures
            op.sqe() == (Sqe { addr: value, ..self.sqe() }),
    {
        Fadvise { sqe: Sqe { addr: value, ..self.sqe } }
    }

    /// Reads back [`Fadvise::nbytes64`].
    pub fn get_nbytes64(&self) -> (value: u64)
        ensures
            value == self.sqe().addr,
    {
        self.sqe.addr
    }

    /// `POSIX_FADV_*` advice.
    pub fn advice(self, value: u32) -> (op: Fadvise)
        ensures
            op.sqe() == (Sqe { op_flags: value, ..self.sqe() }),
    {
        Fadvise { sqe: Sqe { op_flags: value, ..self.sqe } }
    }

    /// Reads back [`Fadvise::advice`].
    pub fn get_advice(&self) -> (value: u32)
        ensures
            value == self.sqe().op_flags,
    {
        self.sqe.op_flags
    }
}

/// Declare an access pattern for a memory range, as `madvise`.
#[derive(Clone, Copy, Debug)]
pub struct Madvise {
    sqe: Sqe,
}

impl Op for Madvise {
    closed spec fn sqe(&self) -> Sqe {
        self.sqe
    }

    fn as_sqe(&self) -> (sqe: &Sqe) {
        &self.sqe
    }

    fn with_sqe(self, sqe: Sqe) -> (op: Madvise) {
        Madvise { sqe }
    }
}

impl Madvise {
    /// A zeroed SQE for this operation.
    pub fn new() -> (op: Madvise)
        ensures
            op.sqe() == (Sqe { fd: -1i32, ..sys::blank(Opcode::Madvise) }),
    {
        Madvise { sqe: Sqe { fd: -1, ..Sqe::new(Opcode::Madvise) } }
    }

    /// Start of the range.
    pub fn addr(self, value: Ptr) -> (op: Madvise)
        ensures
            op.sqe() == (Sqe { addr: value@, ..self.sqe() }),
    {
        Madvise { sqe: Sqe { addr: op::ptr_enc(value), ..self.sqe } }
    }

    /// Reads back [`Madvise::addr`].
    pub fn get_addr(&self) -> (value: Ptr)
        ensures
            value@ == op::pointer_in(self.sqe().addr, 1),
    {
        op::ptr_dec(self.sqe.addr, 1)
    }

    /// Length of the range. Leave [`Madvise::nbytes64`] unset when using this.
    pub fn nbytes(self, value: u32) -> (op: Madvise)
        ensures
            op.sqe() == (Sqe { len: value, ..self.sqe() }),
    {
        Madvise { sqe: Sqe { len: value, ..self.sqe } }
    }

    /// Reads back [`Madvise::nbytes`].
    pub fn get_nbytes(&self) -> (value: u32)
        ensures
            value == self.sqe().len,
    {
        self.sqe.len
    }

    /// 64-bit length. Leave [`Madvise::nbytes`] unset.
    pub fn nbytes64(self, value: u64) -> (op: Madvise)
        ensures
            op.sqe() == (Sqe { addr2: value, ..self.sqe() }),
    {
        Madvise { sqe: Sqe { addr2: value, ..self.sqe } }
    }

    /// Reads back [`Madvise::nbytes64`].
    pub fn get_nbytes64(&self) -> (value: u64)
        ensures
            value == self.sqe().addr2,
    {
        self.sqe.addr2
    }

    /// `MADV_*` advice.
    pub fn advice(self, value: u32) -> (op: Madvise)
        ensures
            op.sqe() == (Sqe { op_flags: value, ..self.sqe() }),
    {
        Madvise { sqe: Sqe { op_flags: value, ..self.sqe } }
    }

    /// Reads back [`Madvise::advice`].
    pub fn get_advice(&self) -> (value: u32)
        ensures
            value == self.sqe().op_flags,
    {
        self.sqe.op_flags
    }
}

/// Query file metadata, as `statx`.
#[derive(Clone, Copy, Debug)]
pub struct Statx {
    sqe: Sqe,
}

impl Op for Statx {
    closed spec fn sqe(&self) -> Sqe {
        self.sqe
    }

    fn as_sqe(&self) -> (sqe: &Sqe) {
        &self.sqe
    }

    fn with_sqe(self, sqe: Sqe) -> (op: Statx) {
        Statx { sqe }
    }
}

impl Statx {
    /// A zeroed SQE for this operation.
    pub fn new() -> (op: Statx)
        ensures
            op.sqe() == sys::blank(Opcode::Statx),
    {
        Statx { sqe: Sqe::new(Opcode::Statx) }
    }

    /// The directory to resolve against, or `libc::AT_FDCWD`.
    pub fn dirfd(self, value: i32) -> (op: Statx)
        ensures
            op.sqe() == (Sqe { fd: value, ..self.sqe() }),
    {
        Statx { sqe: Sqe { fd: value, ..self.sqe } }
    }

    /// Reads back [`Statx::dirfd`].
    pub fn get_dirfd(&self) -> (value: i32)
        ensures
            value == self.sqe().fd,
    {
        self.sqe.fd
    }

    /// A null-terminated path.
    pub fn path(self, value: Ptr) -> (op: Statx)
        ensures
            op.sqe() == (Sqe { addr: value@, ..self.sqe() }),
    {
        Statx { sqe: Sqe { addr: op::ptr_enc(value), ..self.sqe } }
    }

    /// Reads back [`Statx::path`].
    pub fn get_path(&self) -> (value: Ptr)
        ensures
            value@ == op::pointer_in(self.sqe().addr, 1),
    {
        op::ptr_dec(self.sqe.addr, 1)
    }

    /// `STATX_*` field mask.
    pub fn mask(self, value: u32) -> (op: Statx)
        ensures
            op.sqe() == (Sqe { len: value, ..self.sqe() }),
    {
        Statx { sqe: Sqe { len: value, ..self.sqe } }
    }

    /// Reads back [`Statx::mask`].
    pub fn get_mask(&self) -> (value: u32)
        ensures
            value == self.sqe().len,
    {
        self.sqe.len
    }

    /// Where to write the `struct statx`.
    pub fn statxbuf(self, value: Ptr) -> (op: Statx)
        ensures
            op.sqe() == (Sqe { addr2: value@, ..self.sqe() }),
    {
        Statx { sqe: Sqe { addr2: op::ptr_enc(value), ..self.sqe } }
    }

    /// Reads back [`Statx::statxbuf`].
    pub fn get_statxbuf(&self) -> (value: Ptr)
        ensures
            value@ == op::pointer_in(self.sqe().addr2, 1),
    {
        op::ptr_dec(self.sqe.addr2, 1)
    }

    /// `AT_*` resolution flags.
    pub fn flags(self, value: u32) -> (op: Statx)
        ensures
            op.sqe() == (Sqe { op_flags: value, ..self.sqe() }),
    {
        Statx { sqe: Sqe { op_flags: value, ..self.sqe } }
    }

    /// Reads back [`Statx::flags`].
    pub fn get_flags(&self) -> (value: u32)
        ensures
            value == self.sqe().op_flags,
    {
        self.sqe.op_flags
    }
}

} // verus!
