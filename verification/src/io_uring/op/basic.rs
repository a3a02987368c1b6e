//! The everyday operations.

use vstd::prelude::*;

use crate::io_uring::op;
use crate::io_uring::op::{Op, Ptr, Span};
use crate::io_uring::sys;
use crate::io_uring::sys::{AcceptFlags, NopFlags, Opcode, RecvSendFlags, Sqe, TimeoutFlags};

verus! {

/// Do nothing. Useful for waking a ring and for padding a wrap.
#[derive(Clone, Copy, Debug)]
pub struct Nop {
    sqe: Sqe,
}

impl Op for Nop {
    closed spec fn sqe(&self) -> Sqe {
        self.sqe
    }

    fn as_sqe(&self) -> (sqe: &Sqe) {
        &self.sqe
    }

    fn with_sqe(self, sqe: Sqe) -> (op: Nop) {
        Nop { sqe }
    }
}

impl Nop {
    /// A zeroed SQE for this operation.
    pub fn new() -> (op: Nop)
        ensures
            op.sqe() == sys::blank(Opcode::Nop),
    {
        Nop { sqe: Sqe::new(Opcode::Nop) }
    }

    /// Behavioural flags, including injecting a result.
    pub fn flags(self, value: NopFlags) -> (op: Nop)
        ensures
            op.sqe() == (Sqe { op_flags: value.bits, ..self.sqe() }),
    {
        Nop { sqe: Sqe { op_flags: value.bits(), ..self.sqe } }
    }

    /// Reads back [`Nop::flags`].
    pub fn get_flags(&self) -> (value: NopFlags)
        ensures
            value.bits == self.sqe().op_flags,
    {
        NopFlags::from_bits_retain(self.sqe.op_flags)
    }

    /// The result to report when [`sys::NopFlags::INJECT_RESULT`] is set.
    pub fn result(self, value: i32) -> (op: Nop)
        ensures
            op.sqe() == (Sqe { len: value as u32, ..self.sqe() }),
    {
        Nop { sqe: Sqe { len: value as u32, ..self.sqe } }
    }

    /// Reads back [`Nop::result`].
    pub fn get_result(&self) -> (value: i32)
        ensures
            value == self.sqe().len as i32,
    {
        self.sqe.len as i32
    }
}

/// Read from a file descriptor at an offset.
#[derive(Clone, Copy, Debug)]
pub struct Read {
    sqe: Sqe,
}

impl Op for Read {
    closed spec fn sqe(&self) -> Sqe {
        self.sqe
    }

    fn as_sqe(&self) -> (sqe: &Sqe) {
        &self.sqe
    }

    fn with_sqe(self, sqe: Sqe) -> (op: Read) {
        Read { sqe }
    }
}

impl Read {
    /// A zeroed SQE for this operation.
    pub fn new() -> (op: Read)
        ensures
            op.sqe() == sys::blank(Opcode::Read),
    {
        Read { sqe: Sqe::new(Opcode::Read) }
    }

    /// Sets the `fd`.
    pub fn fd(self, value: i32) -> (op: Read)
        ensures
            op.sqe() == (Sqe { fd: value, ..self.sqe() }),
    {
        Read { sqe: Sqe { fd: value, ..self.sqe } }
    }

    /// Reads back [`Read::fd`].
    pub fn get_fd(&self) -> (value: i32)
        ensures
            value == self.sqe().fd,
    {
        self.sqe.fd
    }

    /// The destination buffer. Writes both the address and the length; use
    /// [`Read::nbytes`] afterwards to read less than the whole buffer.
    pub fn buf(self, value: Span) -> (op: Read)
        ensures
            op.sqe() == (Sqe { addr: value.ptr@, len: value.len as u32, ..self.sqe() }),
    {
        Read { sqe: Sqe { addr: op::ptr_enc(value.ptr), len: value.len as u32, ..self.sqe } }
    }

    /// Reads back [`Read::buf`].
    pub fn get_buf(&self) -> (value: Span)
        ensures
            value.ptr@ == op::pointer_in(self.sqe().addr, 1),
            value.len == self.sqe().len,
    {
        op::buf_from(self.sqe.addr, self.sqe.len)
    }

    /// Bytes to read, if fewer than the buffer holds.
    pub fn nbytes(self, value: u32) -> (op: Read)
        ensures
            op.sqe() == (Sqe { len: value, ..self.sqe() }),
    {
        Read { sqe: Sqe { len: value, ..self.sqe } }
    }

    /// Reads back [`Read::nbytes`].
    pub fn get_nbytes(&self) -> (value: u32)
        ensures
            value == self.sqe().len,
    {
        self.sqe.len
    }

    /// File offset, or `u64::MAX` to use the file's current position.
    pub fn offset(self, value: u64) -> (op: Read)
        ensures
            op.sqe() == (Sqe { addr2: value, ..self.sqe() }),
    {
        Read { sqe: Sqe { addr2: value, ..self.sqe } }
    }

    /// Reads back [`Read::offset`].
    pub fn get_offset(&self) -> (value: u64)
        ensures
            value == self.sqe().addr2,
    {
        self.sqe.addr2
    }

    /// `RWF_*` flags, as taken by `preadv2`.
    pub fn rw_flags(self, value: u32) -> (op: Read)
        ensures
            op.sqe() == (Sqe { op_flags: value, ..self.sqe() }),
    {
        Read { sqe: Sqe { op_flags: value, ..self.sqe } }
    }

    /// Reads back [`Read::rw_flags`].
    pub fn get_rw_flags(&self) -> (value: u32)
        ensures
            value == self.sqe().op_flags,
    {
        self.sqe.op_flags
    }
}

/// Write to a file descriptor at an offset.
#[derive(Clone, Copy, Debug)]
pub struct Write {
    sqe: Sqe,
}

impl Op for Write {
    closed spec fn sqe(&self) -> Sqe {
        self.sqe
    }

    fn as_sqe(&self) -> (sqe: &Sqe) {
        &self.sqe
    }

    fn with_sqe(self, sqe: Sqe) -> (op: Write) {
        Write { sqe }
    }
}

impl Write {
    /// A zeroed SQE for this operation.
    pub fn new() -> (op: Write)
        ensures
            op.sqe() == sys::blank(Opcode::Write),
    {
        Write { sqe: Sqe::new(Opcode::Write) }
    }

    /// Sets the `fd`.
    pub fn fd(self, value: i32) -> (op: Write)
        ensures
            op.sqe() == (Sqe { fd: value, ..self.sqe() }),
    {
        Write { sqe: Sqe { fd: value, ..self.sqe } }
    }

    /// Reads back [`Write::fd`].
    pub fn get_fd(&self) -> (value: i32)
        ensures
            value == self.sqe().fd,
    {
        self.sqe.fd
    }

    /// The source buffer. Writes both the address and the length; use
    /// [`Write::nbytes`] afterwards to write less than the whole buffer.
    pub fn buf(self, value: Span) -> (op: Write)
        ensures
            op.sqe() == (Sqe { addr: value.ptr@, len: value.len as u32, ..self.sqe() }),
    {
        Write { sqe: Sqe { addr: op::ptr_enc(value.ptr), len: value.len as u32, ..self.sqe } }
    }

    /// Reads back [`Write::buf`].
    pub fn get_buf(&self) -> (value: Span)
        ensures
            value.ptr@ == op::pointer_in(self.sqe().addr, 1),
            value.len == self.sqe().len,
    {
        op::buf_from(self.sqe.addr, self.sqe.len)
    }

    /// Bytes to write, if fewer than the buffer holds.
    pub fn nbytes(self, value: u32) -> (op: Write)
        ensures
            op.sqe() == (Sqe { len: value, ..self.sqe() }),
    {
        Write { sqe: Sqe { len: value, ..self.sqe } }
    }

    /// Reads back [`Write::nbytes`].
    pub fn get_nbytes(&self) -> (value: u32)
        ensures
            value == self.sqe().len,
    {
        self.sqe.len
    }

    /// File offset, or `u64::MAX` to use the file's current position.
    pub fn offset(self, value: u64) -> (op: Write)
        ensures
            op.sqe() == (Sqe { addr2: value, ..self.sqe() }),
    {
        Write { sqe: Sqe { addr2: value, ..self.sqe } }
    }

    /// Reads back [`Write::offset`].
    pub fn get_offset(&self) -> (value: u64)
        ensures
            value == self.sqe().addr2,
    {
        self.sqe.addr2
    }

    /// `RWF_*` flags, as taken by `pwritev2`.
    pub fn rw_flags(self, value: u32) -> (op: Write)
        ensures
            op.sqe() == (Sqe { op_flags: value, ..self.sqe() }),
    {
        Write { sqe: Sqe { op_flags: value, ..self.sqe } }
    }

    /// Reads back [`Write::rw_flags`].
    pub fn get_rw_flags(&self) -> (value: u32)
        ensures
            value == self.sqe().op_flags,
    {
        self.sqe.op_flags
    }
}

/// Close a file descriptor.
#[derive(Clone, Copy, Debug)]
pub struct Close {
    sqe: Sqe,
}

impl Op for Close {
    closed spec fn sqe(&self) -> Sqe {
        self.sqe
    }

    fn as_sqe(&self) -> (sqe: &Sqe) {
        &self.sqe
    }

    fn with_sqe(self, sqe: Sqe) -> (op: Close) {
        Close { sqe }
    }
}

impl Close {
    /// A zeroed SQE for this operation.
    pub fn new() -> (op: Close)
        ensures
            op.sqe() == sys::blank(Opcode::Close),
    {
        Close { sqe: Sqe::new(Opcode::Close) }
    }

    /// Sets the `fd`.
    pub fn fd(self, value: i32) -> (op: Close)
        ensures
            op.sqe() == (Sqe { fd: value, ..self.sqe() }),
    {
        Close { sqe: Sqe { fd: value, ..self.sqe } }
    }

    /// Reads back [`Close::fd`].
    pub fn get_fd(&self) -> (value: i32)
        ensures
            value == self.sqe().fd,
    {
        self.sqe.fd
    }

    /// Close a direct descriptor slot instead of `fd`, which must then be zero.
    pub fn slot(self, value: u32) -> (op: Close)
        ensures
            op.sqe() == (Sqe { file_index: op::slot_word(value), ..self.sqe() }),
    {
        Close { sqe: Sqe { file_index: op::slot_encode(value), ..self.sqe } }
    }

    /// Reads back [`Close::slot`].
    pub fn get_slot(&self) -> (value: u32)
        ensures
            value == op::slot_of(self.sqe().file_index),
    {
        op::slot_decode(self.sqe.file_index)
    }
}

/// Open a file relative to a directory descriptor.
#[derive(Clone, Copy, Debug)]
pub struct Openat {
    sqe: Sqe,
}

impl Op for Openat {
    closed spec fn sqe(&self) -> Sqe {
        self.sqe
    }

    fn as_sqe(&self) -> (sqe: &Sqe) {
        &self.sqe
    }

    fn with_sqe(self, sqe: Sqe) -> (op: Openat) {
        Openat { sqe }
    }
}

impl Openat {
    /// A zeroed SQE for this operation.
    pub fn new() -> (op: Openat)
        ensures
            op.sqe() == sys::blank(Opcode::Openat),
    {
        Openat { sqe: Sqe::new(Opcode::Openat) }
    }

    /// The directory to resolve against, or `libc::AT_FDCWD`.
    pub fn dirfd(self, value: i32) -> (op: Openat)
        ensures
            op.sqe() == (Sqe { fd: value, ..self.sqe() }),
    {
        Openat { sqe: Sqe { fd: value, ..self.sqe } }
    }

    /// Reads back [`Openat::dirfd`].
    pub fn get_dirfd(&self) -> (value: i32)
        ensures
            value == self.sqe().fd,
    {
        self.sqe.fd
    }

    /// A null-terminated path.
    pub fn path(self, value: Ptr) -> (op: Openat)
        ensures
            op.sqe() == (Sqe { addr: value@, ..self.sqe() }),
    {
        Openat { sqe: Sqe { addr: op::ptr_enc(value), ..self.sqe } }
    }

    /// Reads back [`Openat::path`].
    pub fn get_path(&self) -> (value: Ptr)
        ensures
            value@ == op::pointer_in(self.sqe().addr, 1),
    {
        op::ptr_dec(self.sqe.addr, 1)
    }

    /// Creation mode, as the third argument of `openat`.
    pub fn mode(self, value: u32) -> (op: Openat)
        ensures
            op.sqe() == (Sqe { len: value, ..self.sqe() }),
    {
        Openat { sqe: Sqe { len: value, ..self.sqe } }
    }

    /// Reads back [`Openat::mode`].
    pub fn get_mode(&self) -> (value: u32)
        ensures
            value == self.sqe().len,
    {
        self.sqe.len
    }

    /// `O_*` open flags.
    pub fn flags(self, value: u32) -> (op: Openat)
        ensures
            op.sqe() == (Sqe { op_flags: value, ..self.sqe() }),
    {
        Openat { sqe: Sqe { op_flags: value, ..self.sqe } }
    }

    /// Reads back [`Openat::flags`].
    pub fn get_flags(&self) -> (value: u32)
        ensures
            value == self.sqe().op_flags,
    {
        self.sqe.op_flags
    }

    /// Install into this direct descriptor slot rather than returning an fd.
    /// [`sys::FILE_INDEX_ALLOC`] lets the kernel choose.
    pub fn slot(self, value: u32) -> (op: Openat)
        ensures
            op.sqe() == (Sqe { file_index: op::slot_word(value), ..self.sqe() }),
    {
        Openat { sqe: Sqe { file_index: op::slot_encode(value), ..self.sqe } }
    }

    /// Reads back [`Openat::slot`].
    pub fn get_slot(&self) -> (value: u32)
        ensures
            value == op::slot_of(self.sqe().file_index),
    {
        op::slot_decode(self.sqe.file_index)
    }
}

/// Accept a connection on a listening socket.
#[derive(Clone, Copy, Debug)]
pub struct Accept {
    sqe: Sqe,
}

impl Op for Accept {
    closed spec fn sqe(&self) -> Sqe {
        self.sqe
    }

    fn as_sqe(&self) -> (sqe: &Sqe) {
        &self.sqe
    }

    fn with_sqe(self, sqe: Sqe) -> (op: Accept) {
        Accept { sqe }
    }
}

impl Accept {
    /// A zeroed SQE for this operation.
    pub fn new() -> (op: Accept)
        ensures
            op.sqe() == sys::blank(Opcode::Accept),
    {
        Accept { sqe: Sqe::new(Opcode::Accept) }
    }

    /// Sets the `fd`.
    pub fn fd(self, value: i32) -> (op: Accept)
        ensures
            op.sqe() == (Sqe { fd: value, ..self.sqe() }),
    {
        Accept { sqe: Sqe { fd: value, ..self.sqe } }
    }

    /// Reads back [`Accept::fd`].
    pub fn get_fd(&self) -> (value: i32)
        ensures
            value == self.sqe().fd,
    {
        self.sqe.fd
    }

    /// Where to write the peer address, or `None` to discard it.
    ///
    /// The second pointer is in-out: set it to the size of the first before
    /// submitting, and the kernel overwrites it with the length it actually
    /// wrote. `accept4` requires both or neither, so they travel together.
    ///
    /// With [`sys::AcceptFlags::MULTISHOT`] every accepted connection writes
    /// through the same pointer, so a connection can be overwritten before the
    /// previous one has been read. Pass `None` unless you know that cannot
    /// happen.
    pub fn peer(self, value: Option<(Ptr, Ptr)>) -> (op: Accept)
        ensures
            op.sqe() == (Sqe {
                addr: match value {
                    Some((addr, _)) => addr@,
                    None => 0,
                },
                addr2: match value {
                    Some((_, len)) => len@,
                    None => 0,
                },
                ..self.sqe()
            }),
    {
        Accept { sqe: Sqe {
                addr: match value {
                    Some((addr, _)) => op::ptr_enc(addr),
                    None => 0,
                },
                addr2: match value {
                    Some((_, len)) => op::ptr_enc(len),
                    None => 0,
                },
                ..self.sqe
            } }
    }

    /// Reads back [`Accept::peer`].
    pub fn get_peer(&self) -> (value: Option<(Ptr, Ptr)>)
        ensures
            match value {
                Some((addr, len)) => addr@ == self.sqe().addr && len@ == self.sqe().addr2,
                None => self.sqe().addr == 0 || self.sqe().addr2 == 0,
            },
    {
        match (op::optptr_dec(self.sqe.addr), op::optptr_dec(self.sqe.addr2)) {
            (Some(addr), Some(len)) => Some((addr, len)),
            _ => None,
        }
    }

    /// `SOCK_*` flags, as taken by `accept4`.
    pub fn flags(self, value: u32) -> (op: Accept)
        ensures
            op.sqe() == (Sqe { op_flags: value, ..self.sqe() }),
    {
        Accept { sqe: Sqe { op_flags: value, ..self.sqe } }
    }

    /// Reads back [`Accept::flags`].
    pub fn get_flags(&self) -> (value: u32)
        ensures
            value == self.sqe().op_flags,
    {
        self.sqe.op_flags
    }

    /// Accept behaviour, including [`sys::AcceptFlags::MULTISHOT`].
    pub fn accept_flags(self, value: AcceptFlags) -> (op: Accept)
        ensures
            op.sqe() == (Sqe { ioprio: value.bits, ..self.sqe() }),
    {
        Accept { sqe: Sqe { ioprio: value.bits(), ..self.sqe } }
    }

    /// Reads back [`Accept::accept_flags`].
    pub fn get_accept_flags(&self) -> (value: AcceptFlags)
        ensures
            value.bits == self.sqe().ioprio,
    {
        AcceptFlags::from_bits_retain(self.sqe.ioprio)
    }

    /// Install into this direct descriptor slot rather than returning an fd.
    pub fn slot(self, value: u32) -> (op: Accept)
        ensures
            op.sqe() == (Sqe { file_index: op::slot_word(value), ..self.sqe() }),
    {
        Accept { sqe: Sqe { file_index: op::slot_encode(value), ..self.sqe } }
    }

    /// Reads back [`Accept::slot`].
    pub fn get_slot(&self) -> (value: u32)
        ensures
            value == op::slot_of(self.sqe().file_index),
    {
        op::slot_decode(self.sqe.file_index)
    }
}

/// Receive from a socket.
#[derive(Clone, Copy, Debug)]
pub struct Recv {
    sqe: Sqe,
}

impl Op for Recv {
    closed spec fn sqe(&self) -> Sqe {
        self.sqe
    }

    fn as_sqe(&self) -> (sqe: &Sqe) {
        &self.sqe
    }

    fn with_sqe(self, sqe: Sqe) -> (op: Recv) {
        Recv { sqe }
    }
}

impl Recv {
    /// A zeroed SQE for this operation.
    pub fn new() -> (op: Recv)
        ensures
            op.sqe() == sys::blank(Opcode::Recv),
    {
        Recv { sqe: Sqe::new(Opcode::Recv) }
    }

    /// Sets the `fd`.
    pub fn fd(self, value: i32) -> (op: Recv)
        ensures
            op.sqe() == (Sqe { fd: value, ..self.sqe() }),
    {
        Recv { sqe: Sqe { fd: value, ..self.sqe } }
    }

    /// Reads back [`Recv::fd`].
    pub fn get_fd(&self) -> (value: i32)
        ensures
            value == self.sqe().fd,
    {
        self.sqe.fd
    }

    /// The destination buffer. Leave unset when selecting a provided buffer
    /// with [`sys::SqeFlags::BUFFER_SELECT`].
    pub fn buf(self, value: Span) -> (op: Recv)
        ensures
            op.sqe() == (Sqe { addr: value.ptr@, len: value.len as u32, ..self.sqe() }),
    {
        Recv { sqe: Sqe { addr: op::ptr_enc(value.ptr), len: value.len as u32, ..self.sqe } }
    }

    /// Reads back [`Recv::buf`].
    pub fn get_buf(&self) -> (value: Span)
        ensures
            value.ptr@ == op::pointer_in(self.sqe().addr, 1),
            value.len == self.sqe().len,
    {
        op::buf_from(self.sqe.addr, self.sqe.len)
    }

    /// Bytes to receive, if fewer than the buffer holds.
    pub fn nbytes(self, value: u32) -> (op: Recv)
        ensures
            op.sqe() == (Sqe { len: value, ..self.sqe() }),
    {
        Recv { sqe: Sqe { len: value, ..self.sqe } }
    }

    /// Reads back [`Recv::nbytes`].
    pub fn get_nbytes(&self) -> (value: u32)
        ensures
            value == self.sqe().len,
    {
        self.sqe.len
    }

    /// `MSG_*` flags.
    pub fn flags(self, value: u32) -> (op: Recv)
        ensures
            op.sqe() == (Sqe { op_flags: value, ..self.sqe() }),
    {
        Recv { sqe: Sqe { op_flags: value, ..self.sqe } }
    }

    /// Reads back [`Recv::flags`].
    pub fn get_flags(&self) -> (value: u32)
        ensures
            value == self.sqe().op_flags,
    {
        self.sqe.op_flags
    }

    /// Receive behaviour: [`sys::RecvSendFlags::RECV_MULTISHOT`],
    /// [`sys::RecvSendFlags::BUNDLE`], and friends.
    pub fn recv_flags(self, value: RecvSendFlags) -> (op: Recv)
        ensures
            op.sqe() == (Sqe { ioprio: value.bits, ..self.sqe() }),
    {
        Recv { sqe: Sqe { ioprio: value.bits(), ..self.sqe } }
    }

    /// Reads back [`Recv::recv_flags`].
    pub fn get_recv_flags(&self) -> (value: RecvSendFlags)
        ensures
            value.bits == self.sqe().ioprio,
    {
        RecvSendFlags::from_bits_retain(self.sqe.ioprio)
    }

    /// The provided buffer group to select from.
    pub fn buf_group(self, value: u16) -> (op: Recv)
        ensures
            op.sqe() == (Sqe { buf_index: value, ..self.sqe() }),
    {
        Recv { sqe: Sqe { buf_index: value, ..self.sqe } }
    }

    /// Reads back [`Recv::buf_group`].
    pub fn get_buf_group(&self) -> (value: u16)
        ensures
            value == self.sqe().buf_index,
    {
        self.sqe.buf_index
    }
}

/// Send on a socket.
#[derive(Clone, Copy, Debug)]
pub struct Send {
    sqe: Sqe,
}

impl Op for Send {
    closed spec fn sqe(&self) -> Sqe {
        self.sqe
    }

    fn as_sqe(&self) -> (sqe: &Sqe) {
        &self.sqe
    }

    fn with_sqe(self, sqe: Sqe) -> (op: Send) {
        Send { sqe }
    }
}

impl Send {
    /// A zeroed SQE for this operation.
    pub fn new() -> (op: Send)
        ensures
            op.sqe() == sys::blank(Opcode::Send),
    {
        Send { sqe: Sqe::new(Opcode::Send) }
    }

    /// Sets the `fd`.
    pub fn fd(self, value: i32) -> (op: Send)
        ensures
            op.sqe() == (Sqe { fd: value, ..self.sqe() }),
    {
        Send { sqe: Sqe { fd: value, ..self.sqe } }
    }

    /// Reads back [`Send::fd`].
    pub fn get_fd(&self) -> (value: i32)
        ensures
            value == self.sqe().fd,
    {
        self.sqe.fd
    }

    /// The source buffer.
    pub fn buf(self, value: Span) -> (op: Send)
        ensures
            op.sqe() == (Sqe { addr: value.ptr@, len: value.len as u32, ..self.sqe() }),
    {
        Send { sqe: Sqe { addr: op::ptr_enc(value.ptr), len: value.len as u32, ..self.sqe } }
    }

    /// Reads back [`Send::buf`].
    pub fn get_buf(&self) -> (value: Span)
        ensures
            value.ptr@ == op::pointer_in(self.sqe().addr, 1),
            value.len == self.sqe().len,
    {
        op::buf_from(self.sqe.addr, self.sqe.len)
    }

    /// Bytes to send, if fewer than the buffer holds.
    pub fn nbytes(self, value: u32) -> (op: Send)
        ensures
            op.sqe() == (Sqe { len: value, ..self.sqe() }),
    {
        Send { sqe: Sqe { len: value, ..self.sqe } }
    }

    /// Reads back [`Send::nbytes`].
    pub fn get_nbytes(&self) -> (value: u32)
        ensures
            value == self.sqe().len,
    {
        self.sqe.len
    }

    /// `MSG_*` flags.
    pub fn flags(self, value: u32) -> (op: Send)
        ensures
            op.sqe() == (Sqe { op_flags: value, ..self.sqe() }),
    {
        Send { sqe: Sqe { op_flags: value, ..self.sqe } }
    }

    /// Reads back [`Send::flags`].
    pub fn get_flags(&self) -> (value: u32)
        ensures
            value == self.sqe().op_flags,
    {
        self.sqe.op_flags
    }

    /// Send behaviour: [`sys::RecvSendFlags::BUNDLE`],
    /// [`sys::RecvSendFlags::POLL_FIRST`], and friends.
    pub fn send_flags(self, value: RecvSendFlags) -> (op: Send)
        ensures
            op.sqe() == (Sqe { ioprio: value.bits, ..self.sqe() }),
    {
        Send { sqe: Sqe { ioprio: value.bits(), ..self.sqe } }
    }

    /// Reads back [`Send::send_flags`].
    pub fn get_send_flags(&self) -> (value: RecvSendFlags)
        ensures
            value.bits == self.sqe().ioprio,
    {
        RecvSendFlags::from_bits_retain(self.sqe.ioprio)
    }

    /// The provided buffer group to select from.
    pub fn buf_group(self, value: u16) -> (op: Send)
        ensures
            op.sqe() == (Sqe { buf_index: value, ..self.sqe() }),
    {
        Send { sqe: Sqe { buf_index: value, ..self.sqe } }
    }

    /// Reads back [`Send::buf_group`].
    pub fn get_buf_group(&self) -> (value: u16)
        ensures
            value == self.sqe().buf_index,
    {
        self.sqe.buf_index
    }
}

/// Wait for a duration, or for a number of completions.
///
/// `len` is preset to 1: the kernel reads exactly one timespec, and a zero
/// there is rejected.
#[derive(Clone, Copy, Debug)]
pub struct Timeout {
    sqe: Sqe,
}

impl Op for Timeout {
    closed spec fn sqe(&self) -> Sqe {
        self.sqe
    }

    fn as_sqe(&self) -> (sqe: &Sqe) {
        &self.sqe
    }

    fn with_sqe(self, sqe: Sqe) -> (op: Timeout) {
        Timeout { sqe }
    }
}

impl Timeout {
    /// A zeroed SQE for this operation.
    pub fn new() -> (op: Timeout)
        ensures
            op.sqe() == (Sqe { len: 1, fd: -1i32, ..sys::blank(Opcode::Timeout) }),
    {
        Timeout { sqe: Sqe { len: 1, fd: -1, ..Sqe::new(Opcode::Timeout) } }
    }

    /// The timeout value. Must stay alive until the operation completes, unless
    /// [`sys::TimeoutFlags::IMMEDIATE_ARG`] is set.
    pub fn ts(self, value: Ptr) -> (op: Timeout)
        ensures
            op.sqe() == (Sqe { addr: value@, ..self.sqe() }),
    {
        Timeout { sqe: Sqe { addr: op::ptr_enc(value), ..self.sqe } }
    }

    /// Reads back [`Timeout::ts`].
    pub fn get_ts(&self) -> (value: Ptr)
        ensures
            value@ == op::pointer_in(self.sqe().addr, 8),
    {
        op::ptr_dec(self.sqe.addr, 8)
    }

    /// Complete early once this many completions have been posted. Zero waits
    /// for the full duration.
    pub fn count(self, value: u32) -> (op: Timeout)
        ensures
            op.sqe() == (Sqe { addr2: value as u64, ..self.sqe() }),
    {
        Timeout { sqe: Sqe { addr2: value as u64, ..self.sqe } }
    }

    /// Reads back [`Timeout::count`].
    pub fn get_count(&self) -> (value: u32)
        ensures
            value == self.sqe().addr2 as u32,
    {
        self.sqe.addr2 as u32
    }

    /// Clock selection and behaviour.
    pub fn flags(self, value: TimeoutFlags) -> (op: Timeout)
        ensures
            op.sqe() == (Sqe { op_flags: value.bits, ..self.sqe() }),
    {
        Timeout { sqe: Sqe { op_flags: value.bits(), ..self.sqe } }
    }

    /// Reads back [`Timeout::flags`].
    pub fn get_flags(&self) -> (value: TimeoutFlags)
        ensures
            value.bits == self.sqe().op_flags,
    {
        TimeoutFlags::from_bits_retain(self.sqe.op_flags)
    }
}

} // verus!
