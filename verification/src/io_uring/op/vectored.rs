//! Vectored and fixed-buffer I/O.

use vstd::prelude::*;

use crate::io_uring::op;
use crate::io_uring::op::{Op, Ptr, Span};
use crate::io_uring::sys;
use crate::io_uring::sys::{Opcode, Sqe, SqeFlags};

verus! {

/// Vectored read, as `preadv2`.
#[derive(Clone, Copy, Debug)]
pub struct Readv {
    sqe: Sqe,
}

impl Op for Readv {
    closed spec fn sqe(&self) -> Sqe {
        self.sqe
    }

    fn as_sqe(&self) -> (sqe: &Sqe) {
        &self.sqe
    }

    fn with_sqe(self, sqe: Sqe) -> (op: Readv) {
        Readv { sqe }
    }
}

impl Readv {
    /// A zeroed SQE for this operation.
    pub fn new() -> (op: Readv)
        ensures
            op.sqe() == sys::blank(Opcode::Readv),
    {
        Readv { sqe: Sqe::new(Opcode::Readv) }
    }

    /// Sets the `fd`.
    pub fn fd(self, value: i32) -> (op: Readv)
        ensures
            op.sqe() == (Sqe { fd: value, ..self.sqe() }),
    {
        Readv { sqe: Sqe { fd: value, ..self.sqe } }
    }

    /// Reads back [`Readv::fd`].
    pub fn get_fd(&self) -> (value: i32)
        ensures
            value == self.sqe().fd,
    {
        self.sqe.fd
    }

    /// The iovec array.
    pub fn iovecs(self, value: Ptr) -> (op: Readv)
        ensures
            op.sqe() == (Sqe { addr: value@, ..self.sqe() }),
    {
        Readv { sqe: Sqe { addr: op::ptr_enc(value), ..self.sqe } }
    }

    /// Reads back [`Readv::iovecs`].
    pub fn get_iovecs(&self) -> (value: Ptr)
        ensures
            value@ == op::pointer_in(self.sqe().addr, 8),
    {
        op::ptr_dec(self.sqe.addr, 8)
    }

    /// Number of entries in `iovecs`.
    pub fn nr_vecs(self, value: u32) -> (op: Readv)
        ensures
            op.sqe() == (Sqe { len: value, ..self.sqe() }),
    {
        Readv { sqe: Sqe { len: value, ..self.sqe } }
    }

    /// Reads back [`Readv::nr_vecs`].
    pub fn get_nr_vecs(&self) -> (value: u32)
        ensures
            value == self.sqe().len,
    {
        self.sqe.len
    }

    /// Sets the `offset`.
    pub fn offset(self, value: u64) -> (op: Readv)
        ensures
            op.sqe() == (Sqe { addr2: value, ..self.sqe() }),
    {
        Readv { sqe: Sqe { addr2: value, ..self.sqe } }
    }

    /// Reads back [`Readv::offset`].
    pub fn get_offset(&self) -> (value: u64)
        ensures
            value == self.sqe().addr2,
    {
        self.sqe.addr2
    }

    /// `RWF_*` flags.
    pub fn rw_flags(self, value: u32) -> (op: Readv)
        ensures
            op.sqe() == (Sqe { op_flags: value, ..self.sqe() }),
    {
        Readv { sqe: Sqe { op_flags: value, ..self.sqe } }
    }

    /// Reads back [`Readv::rw_flags`].
    pub fn get_rw_flags(&self) -> (value: u32)
        ensures
            value == self.sqe().op_flags,
    {
        self.sqe.op_flags
    }
}

/// Vectored write, as `pwritev2`.
#[derive(Clone, Copy, Debug)]
pub struct Writev {
    sqe: Sqe,
}

impl Op for Writev {
    closed spec fn sqe(&self) -> Sqe {
        self.sqe
    }

    fn as_sqe(&self) -> (sqe: &Sqe) {
        &self.sqe
    }

    fn with_sqe(self, sqe: Sqe) -> (op: Writev) {
        Writev { sqe }
    }
}

impl Writev {
    /// A zeroed SQE for this operation.
    pub fn new() -> (op: Writev)
        ensures
            op.sqe() == sys::blank(Opcode::Writev),
    {
        Writev { sqe: Sqe::new(Opcode::Writev) }
    }

    /// Sets the `fd`.
    pub fn fd(self, value: i32) -> (op: Writev)
        ensures
            op.sqe() == (Sqe { fd: value, ..self.sqe() }),
    {
        Writev { sqe: Sqe { fd: value, ..self.sqe } }
    }

    /// Reads back [`Writev::fd`].
    pub fn get_fd(&self) -> (value: i32)
        ensures
            value == self.sqe().fd,
    {
        self.sqe.fd
    }

    /// Sets the `iovecs`.
    pub fn iovecs(self, value: Ptr) -> (op: Writev)
        ensures
            op.sqe() == (Sqe { addr: value@, ..self.sqe() }),
    {
        Writev { sqe: Sqe { addr: op::ptr_enc(value), ..self.sqe } }
    }

    /// Reads back [`Writev::iovecs`].
    pub fn get_iovecs(&self) -> (value: Ptr)
        ensures
            value@ == op::pointer_in(self.sqe().addr, 8),
    {
        op::ptr_dec(self.sqe.addr, 8)
    }

    /// Sets the `nr_vecs`.
    pub fn nr_vecs(self, value: u32) -> (op: Writev)
        ensures
            op.sqe() == (Sqe { len: value, ..self.sqe() }),
    {
        Writev { sqe: Sqe { len: value, ..self.sqe } }
    }

    /// Reads back [`Writev::nr_vecs`].
    pub fn get_nr_vecs(&self) -> (value: u32)
        ensures
            value == self.sqe().len,
    {
        self.sqe.len
    }

    /// Sets the `offset`.
    pub fn offset(self, value: u64) -> (op: Writev)
        ensures
            op.sqe() == (Sqe { addr2: value, ..self.sqe() }),
    {
        Writev { sqe: Sqe { addr2: value, ..self.sqe } }
    }

    /// Reads back [`Writev::offset`].
    pub fn get_offset(&self) -> (value: u64)
        ensures
            value == self.sqe().addr2,
    {
        self.sqe.addr2
    }

    /// Sets the `rw_flags`.
    pub fn rw_flags(self, value: u32) -> (op: Writev)
        ensures
            op.sqe() == (Sqe { op_flags: value, ..self.sqe() }),
    {
        Writev { sqe: Sqe { op_flags: value, ..self.sqe } }
    }

    /// Reads back [`Writev::rw_flags`].
    pub fn get_rw_flags(&self) -> (value: u32)
        ensures
            value == self.sqe().op_flags,
    {
        self.sqe.op_flags
    }
}

/// Read into a registered buffer.
#[derive(Clone, Copy, Debug)]
pub struct ReadFixed {
    sqe: Sqe,
}

impl Op for ReadFixed {
    closed spec fn sqe(&self) -> Sqe {
        self.sqe
    }

    fn as_sqe(&self) -> (sqe: &Sqe) {
        &self.sqe
    }

    fn with_sqe(self, sqe: Sqe) -> (op: ReadFixed) {
        ReadFixed { sqe }
    }
}

impl ReadFixed {
    /// A zeroed SQE for this operation.
    pub fn new() -> (op: ReadFixed)
        ensures
            op.sqe() == sys::blank(Opcode::ReadFixed),
    {
        ReadFixed { sqe: Sqe::new(Opcode::ReadFixed) }
    }

    /// Sets the `fd`.
    pub fn fd(self, value: i32) -> (op: ReadFixed)
        ensures
            op.sqe() == (Sqe { fd: value, ..self.sqe() }),
    {
        ReadFixed { sqe: Sqe { fd: value, ..self.sqe } }
    }

    /// Reads back [`ReadFixed::fd`].
    pub fn get_fd(&self) -> (value: i32)
        ensures
            value == self.sqe().fd,
    {
        self.sqe.fd
    }

    /// A subrange of the registered buffer named by [`ReadFixed::buf_index`].
    pub fn buf(self, value: Span) -> (op: ReadFixed)
        ensures
            op.sqe() == (Sqe { addr: value.ptr@, len: value.len as u32, ..self.sqe() }),
    {
        ReadFixed { sqe: Sqe { addr: op::ptr_enc(value.ptr), len: value.len as u32, ..self.sqe } }
    }

    /// Reads back [`ReadFixed::buf`].
    pub fn get_buf(&self) -> (value: Span)
        ensures
            value.ptr@ == op::pointer_in(self.sqe().addr, 1),
            value.len == self.sqe().len,
    {
        op::buf_from(self.sqe.addr, self.sqe.len)
    }

    /// Sets the `nbytes`.
    pub fn nbytes(self, value: u32) -> (op: ReadFixed)
        ensures
            op.sqe() == (Sqe { len: value, ..self.sqe() }),
    {
        ReadFixed { sqe: Sqe { len: value, ..self.sqe } }
    }

    /// Reads back [`ReadFixed::nbytes`].
    pub fn get_nbytes(&self) -> (value: u32)
        ensures
            value == self.sqe().len,
    {
        self.sqe.len
    }

    /// Sets the `offset`.
    pub fn offset(self, value: u64) -> (op: ReadFixed)
        ensures
            op.sqe() == (Sqe { addr2: value, ..self.sqe() }),
    {
        ReadFixed { sqe: Sqe { addr2: value, ..self.sqe } }
    }

    /// Reads back [`ReadFixed::offset`].
    pub fn get_offset(&self) -> (value: u64)
        ensures
            value == self.sqe().addr2,
    {
        self.sqe.addr2
    }

    /// Index into the registered buffer table.
    pub fn buf_index(self, value: u16) -> (op: ReadFixed)
        ensures
            op.sqe() == (Sqe { buf_index: value, ..self.sqe() }),
    {
        ReadFixed { sqe: Sqe { buf_index: value, ..self.sqe } }
    }

    /// Reads back [`ReadFixed::buf_index`].
    pub fn get_buf_index(&self) -> (value: u16)
        ensures
            value == self.sqe().buf_index,
    {
        self.sqe.buf_index
    }
}

/// Write from a registered buffer.
#[derive(Clone, Copy, Debug)]
pub struct WriteFixed {
    sqe: Sqe,
}

impl Op for WriteFixed {
    closed spec fn sqe(&self) -> Sqe {
        self.sqe
    }

    fn as_sqe(&self) -> (sqe: &Sqe) {
        &self.sqe
    }

    fn with_sqe(self, sqe: Sqe) -> (op: WriteFixed) {
        WriteFixed { sqe }
    }
}

impl WriteFixed {
    /// A zeroed SQE for this operation.
    pub fn new() -> (op: WriteFixed)
        ensures
            op.sqe() == sys::blank(Opcode::WriteFixed),
    {
        WriteFixed { sqe: Sqe::new(Opcode::WriteFixed) }
    }

    /// Sets the `fd`.
    pub fn fd(self, value: i32) -> (op: WriteFixed)
        ensures
            op.sqe() == (Sqe { fd: value, ..self.sqe() }),
    {
        WriteFixed { sqe: Sqe { fd: value, ..self.sqe } }
    }

    /// Reads back [`WriteFixed::fd`].
    pub fn get_fd(&self) -> (value: i32)
        ensures
            value == self.sqe().fd,
    {
        self.sqe.fd
    }

    /// Sets the `buf`.
    pub fn buf(self, value: Span) -> (op: WriteFixed)
        ensures
            op.sqe() == (Sqe { addr: value.ptr@, len: value.len as u32, ..self.sqe() }),
    {
        WriteFixed { sqe: Sqe { addr: op::ptr_enc(value.ptr), len: value.len as u32, ..self.sqe } }
    }

    /// Reads back [`WriteFixed::buf`].
    pub fn get_buf(&self) -> (value: Span)
        ensures
            value.ptr@ == op::pointer_in(self.sqe().addr, 1),
            value.len == self.sqe().len,
    {
        op::buf_from(self.sqe.addr, self.sqe.len)
    }

    /// Sets the `nbytes`.
    pub fn nbytes(self, value: u32) -> (op: WriteFixed)
        ensures
            op.sqe() == (Sqe { len: value, ..self.sqe() }),
    {
        WriteFixed { sqe: Sqe { len: value, ..self.sqe } }
    }

    /// Reads back [`WriteFixed::nbytes`].
    pub fn get_nbytes(&self) -> (value: u32)
        ensures
            value == self.sqe().len,
    {
        self.sqe.len
    }

    /// Sets the `offset`.
    pub fn offset(self, value: u64) -> (op: WriteFixed)
        ensures
            op.sqe() == (Sqe { addr2: value, ..self.sqe() }),
    {
        WriteFixed { sqe: Sqe { addr2: value, ..self.sqe } }
    }

    /// Reads back [`WriteFixed::offset`].
    pub fn get_offset(&self) -> (value: u64)
        ensures
            value == self.sqe().addr2,
    {
        self.sqe.addr2
    }

    /// Sets the `buf_index`.
    pub fn buf_index(self, value: u16) -> (op: WriteFixed)
        ensures
            op.sqe() == (Sqe { buf_index: value, ..self.sqe() }),
    {
        WriteFixed { sqe: Sqe { buf_index: value, ..self.sqe } }
    }

    /// Reads back [`WriteFixed::buf_index`].
    pub fn get_buf_index(&self) -> (value: u16)
        ensures
            value == self.sqe().buf_index,
    {
        self.sqe.buf_index
    }
}

/// Vectored read into registered buffers.
#[derive(Clone, Copy, Debug)]
pub struct ReadvFixed {
    sqe: Sqe,
}

impl Op for ReadvFixed {
    closed spec fn sqe(&self) -> Sqe {
        self.sqe
    }

    fn as_sqe(&self) -> (sqe: &Sqe) {
        &self.sqe
    }

    fn with_sqe(self, sqe: Sqe) -> (op: ReadvFixed) {
        ReadvFixed { sqe }
    }
}

impl ReadvFixed {
    /// A zeroed SQE for this operation.
    pub fn new() -> (op: ReadvFixed)
        ensures
            op.sqe() == sys::blank(Opcode::ReadvFixed),
    {
        ReadvFixed { sqe: Sqe::new(Opcode::ReadvFixed) }
    }

    /// Sets the `fd`.
    pub fn fd(self, value: i32) -> (op: ReadvFixed)
        ensures
            op.sqe() == (Sqe { fd: value, ..self.sqe() }),
    {
        ReadvFixed { sqe: Sqe { fd: value, ..self.sqe } }
    }

    /// Reads back [`ReadvFixed::fd`].
    pub fn get_fd(&self) -> (value: i32)
        ensures
            value == self.sqe().fd,
    {
        self.sqe.fd
    }

    /// Sets the `iovecs`.
    pub fn iovecs(self, value: Ptr) -> (op: ReadvFixed)
        ensures
            op.sqe() == (Sqe { addr: value@, ..self.sqe() }),
    {
        ReadvFixed { sqe: Sqe { addr: op::ptr_enc(value), ..self.sqe } }
    }

    /// Reads back [`ReadvFixed::iovecs`].
    pub fn get_iovecs(&self) -> (value: Ptr)
        ensures
            value@ == op::pointer_in(self.sqe().addr, 8),
    {
        op::ptr_dec(self.sqe.addr, 8)
    }

    /// Sets the `nr_vecs`.
    pub fn nr_vecs(self, value: u32) -> (op: ReadvFixed)
        ensures
            op.sqe() == (Sqe { len: value, ..self.sqe() }),
    {
        ReadvFixed { sqe: Sqe { len: value, ..self.sqe } }
    }

    /// Reads back [`ReadvFixed::nr_vecs`].
    pub fn get_nr_vecs(&self) -> (value: u32)
        ensures
            value == self.sqe().len,
    {
        self.sqe.len
    }

    /// Sets the `offset`.
    pub fn offset(self, value: u64) -> (op: ReadvFixed)
        ensures
            op.sqe() == (Sqe { addr2: value, ..self.sqe() }),
    {
        ReadvFixed { sqe: Sqe { addr2: value, ..self.sqe } }
    }

    /// Reads back [`ReadvFixed::offset`].
    pub fn get_offset(&self) -> (value: u64)
        ensures
            value == self.sqe().addr2,
    {
        self.sqe.addr2
    }

    /// Sets the `rw_flags`.
    pub fn rw_flags(self, value: u32) -> (op: ReadvFixed)
        ensures
            op.sqe() == (Sqe { op_flags: value, ..self.sqe() }),
    {
        ReadvFixed { sqe: Sqe { op_flags: value, ..self.sqe } }
    }

    /// Reads back [`ReadvFixed::rw_flags`].
    pub fn get_rw_flags(&self) -> (value: u32)
        ensures
            value == self.sqe().op_flags,
    {
        self.sqe.op_flags
    }

    /// Sets the `buf_index`.
    pub fn buf_index(self, value: u16) -> (op: ReadvFixed)
        ensures
            op.sqe() == (Sqe { buf_index: value, ..self.sqe() }),
    {
        ReadvFixed { sqe: Sqe { buf_index: value, ..self.sqe } }
    }

    /// Reads back [`ReadvFixed::buf_index`].
    pub fn get_buf_index(&self) -> (value: u16)
        ensures
            value == self.sqe().buf_index,
    {
        self.sqe.buf_index
    }
}

/// Vectored write from registered buffers.
#[derive(Clone, Copy, Debug)]
pub struct WritevFixed {
    sqe: Sqe,
}

impl Op for WritevFixed {
    closed spec fn sqe(&self) -> Sqe {
        self.sqe
    }

    fn as_sqe(&self) -> (sqe: &Sqe) {
        &self.sqe
    }

    fn with_sqe(self, sqe: Sqe) -> (op: WritevFixed) {
        WritevFixed { sqe }
    }
}

impl WritevFixed {
    /// A zeroed SQE for this operation.
    pub fn new() -> (op: WritevFixed)
        ensures
            op.sqe() == sys::blank(Opcode::WritevFixed),
    {
        WritevFixed { sqe: Sqe::new(Opcode::WritevFixed) }
    }

    /// Sets the `fd`.
    pub fn fd(self, value: i32) -> (op: WritevFixed)
        ensures
            op.sqe() == (Sqe { fd: value, ..self.sqe() }),
    {
        WritevFixed { sqe: Sqe { fd: value, ..self.sqe } }
    }

    /// Reads back [`WritevFixed::fd`].
    pub fn get_fd(&self) -> (value: i32)
        ensures
            value == self.sqe().fd,
    {
        self.sqe.fd
    }

    /// Sets the `iovecs`.
    pub fn iovecs(self, value: Ptr) -> (op: WritevFixed)
        ensures
            op.sqe() == (Sqe { addr: value@, ..self.sqe() }),
    {
        WritevFixed { sqe: Sqe { addr: op::ptr_enc(value), ..self.sqe } }
    }

    /// Reads back [`WritevFixed::iovecs`].
    pub fn get_iovecs(&self) -> (value: Ptr)
        ensures
            value@ == op::pointer_in(self.sqe().addr, 8),
    {
        op::ptr_dec(self.sqe.addr, 8)
    }

    /// Sets the `nr_vecs`.
    pub fn nr_vecs(self, value: u32) -> (op: WritevFixed)
        ensures
            op.sqe() == (Sqe { len: value, ..self.sqe() }),
    {
        WritevFixed { sqe: Sqe { len: value, ..self.sqe } }
    }

    /// Reads back [`WritevFixed::nr_vecs`].
    pub fn get_nr_vecs(&self) -> (value: u32)
        ensures
            value == self.sqe().len,
    {
        self.sqe.len
    }

    /// Sets the `offset`.
    pub fn offset(self, value: u64) -> (op: WritevFixed)
        ensures
            op.sqe() == (Sqe { addr2: value, ..self.sqe() }),
    {
        WritevFixed { sqe: Sqe { addr2: value, ..self.sqe } }
    }

    /// Reads back [`WritevFixed::offset`].
    pub fn get_offset(&self) -> (value: u64)
        ensures
            value == self.sqe().addr2,
    {
        self.sqe.addr2
    }

    /// Sets the `rw_flags`.
    pub fn rw_flags(self, value: u32) -> (op: WritevFixed)
        ensures
            op.sqe() == (Sqe { op_flags: value, ..self.sqe() }),
    {
        WritevFixed { sqe: Sqe { op_flags: value, ..self.sqe } }
    }

    /// Reads back [`WritevFixed::rw_flags`].
    pub fn get_rw_flags(&self) -> (value: u32)
        ensures
            value == self.sqe().op_flags,
    {
        self.sqe.op_flags
    }

    /// Sets the `buf_index`.
    pub fn buf_index(self, value: u16) -> (op: WritevFixed)
        ensures
            op.sqe() == (Sqe { buf_index: value, ..self.sqe() }),
    {
        WritevFixed { sqe: Sqe { buf_index: value, ..self.sqe } }
    }

    /// Reads back [`WritevFixed::buf_index`].
    pub fn get_buf_index(&self) -> (value: u16)
        ensures
            value == self.sqe().buf_index,
    {
        self.sqe.buf_index
    }
}

/// Multishot read into provided buffers.
///
/// Requires [`sys::SqeFlags::BUFFER_SELECT`], which `new` presets.
#[derive(Clone, Copy, Debug)]
pub struct ReadMultishot {
    sqe: Sqe,
}

impl Op for ReadMultishot {
    closed spec fn sqe(&self) -> Sqe {
        self.sqe
    }

    fn as_sqe(&self) -> (sqe: &Sqe) {
        &self.sqe
    }

    fn with_sqe(self, sqe: Sqe) -> (op: ReadMultishot) {
        ReadMultishot { sqe }
    }
}

impl ReadMultishot {
    /// A zeroed SQE for this operation.
    pub fn new() -> (op: ReadMultishot)
        ensures
            op.sqe() == (Sqe {
                flags: SqeFlags { bits: SqeFlags::BUFFER_SELECT },
                ..sys::blank(Opcode::ReadMultishot)
            }),
    {
        ReadMultishot {
            sqe: Sqe {
                flags: SqeFlags::from_bits_retain(SqeFlags::BUFFER_SELECT),
                ..Sqe::new(Opcode::ReadMultishot)
            },
        }
    }

    /// Sets the `fd`.
    pub fn fd(self, value: i32) -> (op: ReadMultishot)
        ensures
            op.sqe() == (Sqe { fd: value, ..self.sqe() }),
    {
        ReadMultishot { sqe: Sqe { fd: value, ..self.sqe } }
    }

    /// Reads back [`ReadMultishot::fd`].
    pub fn get_fd(&self) -> (value: i32)
        ensures
            value == self.sqe().fd,
    {
        self.sqe.fd
    }

    /// Sets the `nbytes`.
    pub fn nbytes(self, value: u32) -> (op: ReadMultishot)
        ensures
            op.sqe() == (Sqe { len: value, ..self.sqe() }),
    {
        ReadMultishot { sqe: Sqe { len: value, ..self.sqe } }
    }

    /// Reads back [`ReadMultishot::nbytes`].
    pub fn get_nbytes(&self) -> (value: u32)
        ensures
            value == self.sqe().len,
    {
        self.sqe.len
    }

    /// Sets the `offset`.
    pub fn offset(self, value: u64) -> (op: ReadMultishot)
        ensures
            op.sqe() == (Sqe { addr2: value, ..self.sqe() }),
    {
        ReadMultishot { sqe: Sqe { addr2: value, ..self.sqe } }
    }

    /// Reads back [`ReadMultishot::offset`].
    pub fn get_offset(&self) -> (value: u64)
        ensures
            value == self.sqe().addr2,
    {
        self.sqe.addr2
    }

    /// The provided buffer group to draw from.
    pub fn buf_group(self, value: u16) -> (op: ReadMultishot)
        ensures
            op.sqe() == (Sqe { buf_index: value, ..self.sqe() }),
    {
        ReadMultishot { sqe: Sqe { buf_index: value, ..self.sqe } }
    }

    /// Reads back [`ReadMultishot::buf_group`].
    pub fn get_buf_group(&self) -> (value: u16)
        ensures
            value == self.sqe().buf_index,
    {
        self.sqe.buf_index
    }
}

} // verus!
