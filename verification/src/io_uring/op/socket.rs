//! Sockets.

use vstd::prelude::*;

use crate::io_uring::op;
use crate::io_uring::op::{Op, Ptr, Span};
use crate::io_uring::sys;
use crate::io_uring::sys::{Opcode, RecvSendFlags, Sqe};

verus! {

/// Connect a socket.
#[derive(Clone, Copy, Debug)]
pub struct Connect {
    sqe: Sqe,
}

impl Op for Connect {
    closed spec fn sqe(&self) -> Sqe {
        self.sqe
    }

    fn as_sqe(&self) -> (sqe: &Sqe) {
        &self.sqe
    }

    fn with_sqe(self, sqe: Sqe) -> (op: Connect) {
        Connect { sqe }
    }
}

impl Connect {
    /// A zeroed SQE for this operation.
    pub fn new() -> (op: Connect)
        ensures
            op.sqe() == sys::blank(Opcode::Connect),
    {
        Connect { sqe: Sqe::new(Opcode::Connect) }
    }

    /// Sets the `fd`.
    pub fn fd(self, value: i32) -> (op: Connect)
        ensures
            op.sqe() == (Sqe { fd: value, ..self.sqe() }),
    {
        Connect { sqe: Sqe { fd: value, ..self.sqe } }
    }

    /// Reads back [`Connect::fd`].
    pub fn get_fd(&self) -> (value: i32)
        ensures
            value == self.sqe().fd,
    {
        self.sqe.fd
    }

    /// The peer address.
    pub fn addr(self, value: Ptr) -> (op: Connect)
        ensures
            op.sqe() == (Sqe { addr: value@, ..self.sqe() }),
    {
        Connect { sqe: Sqe { addr: op::ptr_enc(value), ..self.sqe } }
    }

    /// Reads back [`Connect::addr`].
    pub fn get_addr(&self) -> (value: Ptr)
        ensures
            value@ == op::pointer_in(self.sqe().addr, 1),
    {
        op::ptr_dec(self.sqe.addr, 1)
    }

    /// Size of [`Connect::addr`]. Passed by value, unlike `Accept`.
    pub fn addrlen(self, value: u32) -> (op: Connect)
        ensures
            op.sqe() == (Sqe { addr2: value as u64, ..self.sqe() }),
    {
        Connect { sqe: Sqe { addr2: value as u64, ..self.sqe } }
    }

    /// Reads back [`Connect::addrlen`].
    pub fn get_addrlen(&self) -> (value: u32)
        ensures
            value == self.sqe().addr2 as u32,
    {
        self.sqe.addr2 as u32
    }
}

/// Bind a socket to an address.
#[derive(Clone, Copy, Debug)]
pub struct Bind {
    sqe: Sqe,
}

impl Op for Bind {
    closed spec fn sqe(&self) -> Sqe {
        self.sqe
    }

    fn as_sqe(&self) -> (sqe: &Sqe) {
        &self.sqe
    }

    fn with_sqe(self, sqe: Sqe) -> (op: Bind) {
        Bind { sqe }
    }
}

impl Bind {
    /// A zeroed SQE for this operation.
    pub fn new() -> (op: Bind)
        ensures
            op.sqe() == sys::blank(Opcode::Bind),
    {
        Bind { sqe: Sqe::new(Opcode::Bind) }
    }

    /// Sets the `fd`.
    pub fn fd(self, value: i32) -> (op: Bind)
        ensures
            op.sqe() == (Sqe { fd: value, ..self.sqe() }),
    {
        Bind { sqe: Sqe { fd: value, ..self.sqe } }
    }

    /// Reads back [`Bind::fd`].
    pub fn get_fd(&self) -> (value: i32)
        ensures
            value == self.sqe().fd,
    {
        self.sqe.fd
    }

    /// Sets the `addr`.
    pub fn addr(self, value: Ptr) -> (op: Bind)
        ensures
            op.sqe() == (Sqe { addr: value@, ..self.sqe() }),
    {
        Bind { sqe: Sqe { addr: op::ptr_enc(value), ..self.sqe } }
    }

    /// Reads back [`Bind::addr`].
    pub fn get_addr(&self) -> (value: Ptr)
        ensures
            value@ == op::pointer_in(self.sqe().addr, 1),
    {
        op::ptr_dec(self.sqe.addr, 1)
    }

    /// Sets the `addrlen`.
    pub fn addrlen(self, value: u32) -> (op: Bind)
        ensures
            op.sqe() == (Sqe { addr2: value as u64, ..self.sqe() }),
    {
        Bind { sqe: Sqe { addr2: value as u64, ..self.sqe } }
    }

    /// Reads back [`Bind::addrlen`].
    pub fn get_addrlen(&self) -> (value: u32)
        ensures
            value == self.sqe().addr2 as u32,
    {
        self.sqe.addr2 as u32
    }
}

/// Mark a socket as listening.
#[derive(Clone, Copy, Debug)]
pub struct Listen {
    sqe: Sqe,
}

impl Op for Listen {
    closed spec fn sqe(&self) -> Sqe {
        self.sqe
    }

    fn as_sqe(&self) -> (sqe: &Sqe) {
        &self.sqe
    }

    fn with_sqe(self, sqe: Sqe) -> (op: Listen) {
        Listen { sqe }
    }
}

impl Listen {
    /// A zeroed SQE for this operation.
    pub fn new() -> (op: Listen)
        ensures
            op.sqe() == sys::blank(Opcode::Listen),
    {
        Listen { sqe: Sqe::new(Opcode::Listen) }
    }

    /// Sets the `fd`.
    pub fn fd(self, value: i32) -> (op: Listen)
        ensures
            op.sqe() == (Sqe { fd: value, ..self.sqe() }),
    {
        Listen { sqe: Sqe { fd: value, ..self.sqe } }
    }

    /// Reads back [`Listen::fd`].
    pub fn get_fd(&self) -> (value: i32)
        ensures
            value == self.sqe().fd,
    {
        self.sqe.fd
    }

    /// Sets the `backlog`.
    pub fn backlog(self, value: u32) -> (op: Listen)
        ensures
            op.sqe() == (Sqe { len: value, ..self.sqe() }),
    {
        Listen { sqe: Sqe { len: value, ..self.sqe } }
    }

    /// Reads back [`Listen::backlog`].
    pub fn get_backlog(&self) -> (value: u32)
        ensures
            value == self.sqe().len,
    {
        self.sqe.len
    }
}

/// Shut down part of a full-duplex connection.
#[derive(Clone, Copy, Debug)]
pub struct Shutdown {
    sqe: Sqe,
}

impl Op for Shutdown {
    closed spec fn sqe(&self) -> Sqe {
        self.sqe
    }

    fn as_sqe(&self) -> (sqe: &Sqe) {
        &self.sqe
    }

    fn with_sqe(self, sqe: Sqe) -> (op: Shutdown) {
        Shutdown { sqe }
    }
}

impl Shutdown {
    /// A zeroed SQE for this operation.
    pub fn new() -> (op: Shutdown)
        ensures
            op.sqe() == sys::blank(Opcode::Shutdown),
    {
        Shutdown { sqe: Sqe::new(Opcode::Shutdown) }
    }

    /// Sets the `fd`.
    pub fn fd(self, value: i32) -> (op: Shutdown)
        ensures
            op.sqe() == (Sqe { fd: value, ..self.sqe() }),
    {
        Shutdown { sqe: Sqe { fd: value, ..self.sqe } }
    }

    /// Reads back [`Shutdown::fd`].
    pub fn get_fd(&self) -> (value: i32)
        ensures
            value == self.sqe().fd,
    {
        self.sqe.fd
    }

    /// `SHUT_RD`, `SHUT_WR` or `SHUT_RDWR`.
    pub fn how(self, value: u32) -> (op: Shutdown)
        ensures
            op.sqe() == (Sqe { len: value, ..self.sqe() }),
    {
        Shutdown { sqe: Sqe { len: value, ..self.sqe } }
    }

    /// Reads back [`Shutdown::how`].
    pub fn get_how(&self) -> (value: u32)
        ensures
            value == self.sqe().len,
    {
        self.sqe.len
    }
}

/// Create a socket.
#[derive(Clone, Copy, Debug)]
pub struct Socket {
    sqe: Sqe,
}

impl Op for Socket {
    closed spec fn sqe(&self) -> Sqe {
        self.sqe
    }

    fn as_sqe(&self) -> (sqe: &Sqe) {
        &self.sqe
    }

    fn with_sqe(self, sqe: Sqe) -> (op: Socket) {
        Socket { sqe }
    }
}

impl Socket {
    /// A zeroed SQE for this operation.
    pub fn new() -> (op: Socket)
        ensures
            op.sqe() == sys::blank(Opcode::Socket),
    {
        Socket { sqe: Sqe::new(Opcode::Socket) }
    }

    /// Address family, in the `fd` slot.
    pub fn domain(self, value: i32) -> (op: Socket)
        ensures
            op.sqe() == (Sqe { fd: value, ..self.sqe() }),
    {
        Socket { sqe: Sqe { fd: value, ..self.sqe } }
    }

    /// Reads back [`Socket::domain`].
    pub fn get_domain(&self) -> (value: i32)
        ensures
            value == self.sqe().fd,
    {
        self.sqe.fd
    }

    /// `SOCK_*` type.
    pub fn kind(self, value: u64) -> (op: Socket)
        ensures
            op.sqe() == (Sqe { addr2: value, ..self.sqe() }),
    {
        Socket { sqe: Sqe { addr2: value, ..self.sqe } }
    }

    /// Reads back [`Socket::kind`].
    pub fn get_kind(&self) -> (value: u64)
        ensures
            value == self.sqe().addr2,
    {
        self.sqe.addr2
    }

    /// Sets the `protocol`.
    pub fn protocol(self, value: u32) -> (op: Socket)
        ensures
            op.sqe() == (Sqe { len: value, ..self.sqe() }),
    {
        Socket { sqe: Sqe { len: value, ..self.sqe } }
    }

    /// Reads back [`Socket::protocol`].
    pub fn get_protocol(&self) -> (value: u32)
        ensures
            value == self.sqe().len,
    {
        self.sqe.len
    }

    /// Sets the `flags`.
    pub fn flags(self, value: u32) -> (op: Socket)
        ensures
            op.sqe() == (Sqe { op_flags: value, ..self.sqe() }),
    {
        Socket { sqe: Sqe { op_flags: value, ..self.sqe } }
    }

    /// Reads back [`Socket::flags`].
    pub fn get_flags(&self) -> (value: u32)
        ensures
            value == self.sqe().op_flags,
    {
        self.sqe.op_flags
    }

    /// Install into this direct descriptor slot rather than returning an fd.
    pub fn slot(self, value: u32) -> (op: Socket)
        ensures
            op.sqe() == (Sqe { file_index: op::slot_word(value), ..self.sqe() }),
    {
        Socket { sqe: Sqe { file_index: op::slot_encode(value), ..self.sqe } }
    }

    /// Reads back [`Socket::slot`].
    pub fn get_slot(&self) -> (value: u32)
        ensures
            value == op::slot_of(self.sqe().file_index),
    {
        op::slot_decode(self.sqe.file_index)
    }
}

/// Receive a message with ancillary data.
///
/// `len` is preset to 1: the kernel reads exactly one `msghdr`.
#[derive(Clone, Copy, Debug)]
pub struct Recvmsg {
    sqe: Sqe,
}

impl Op for Recvmsg {
    closed spec fn sqe(&self) -> Sqe {
        self.sqe
    }

    fn as_sqe(&self) -> (sqe: &Sqe) {
        &self.sqe
    }

    fn with_sqe(self, sqe: Sqe) -> (op: Recvmsg) {
        Recvmsg { sqe }
    }
}

impl Recvmsg {
    /// A zeroed SQE for this operation.
    pub fn new() -> (op: Recvmsg)
        ensures
            op.sqe() == (Sqe { len: 1, ..sys::blank(Opcode::Recvmsg) }),
    {
        Recvmsg { sqe: Sqe { len: 1, ..Sqe::new(Opcode::Recvmsg) } }
    }

    /// Sets the `fd`.
    pub fn fd(self, value: i32) -> (op: Recvmsg)
        ensures
            op.sqe() == (Sqe { fd: value, ..self.sqe() }),
    {
        Recvmsg { sqe: Sqe { fd: value, ..self.sqe } }
    }

    /// Reads back [`Recvmsg::fd`].
    pub fn get_fd(&self) -> (value: i32)
        ensures
            value == self.sqe().fd,
    {
        self.sqe.fd
    }

    /// Sets the `msg`.
    pub fn msg(self, value: Ptr) -> (op: Recvmsg)
        ensures
            op.sqe() == (Sqe { addr: value@, ..self.sqe() }),
    {
        Recvmsg { sqe: Sqe { addr: op::ptr_enc(value), ..self.sqe } }
    }

    /// Reads back [`Recvmsg::msg`].
    pub fn get_msg(&self) -> (value: Ptr)
        ensures
            value@ == op::pointer_in(self.sqe().addr, 8),
    {
        op::ptr_dec(self.sqe.addr, 8)
    }

    /// `MSG_*` flags.
    pub fn flags(self, value: u32) -> (op: Recvmsg)
        ensures
            op.sqe() == (Sqe { op_flags: value, ..self.sqe() }),
    {
        Recvmsg { sqe: Sqe { op_flags: value, ..self.sqe } }
    }

    /// Reads back [`Recvmsg::flags`].
    pub fn get_flags(&self) -> (value: u32)
        ensures
            value == self.sqe().op_flags,
    {
        self.sqe.op_flags
    }

    /// [`sys::RecvSendFlags::RECV_MULTISHOT`] and friends.
    pub fn recv_flags(self, value: RecvSendFlags) -> (op: Recvmsg)
        ensures
            op.sqe() == (Sqe { ioprio: value.bits, ..self.sqe() }),
    {
        Recvmsg { sqe: Sqe { ioprio: value.bits(), ..self.sqe } }
    }

    /// Reads back [`Recvmsg::recv_flags`].
    pub fn get_recv_flags(&self) -> (value: RecvSendFlags)
        ensures
            value.bits == self.sqe().ioprio,
    {
        RecvSendFlags::from_bits_retain(self.sqe.ioprio)
    }

    /// Sets the `buf_group`.
    pub fn buf_group(self, value: u16) -> (op: Recvmsg)
        ensures
            op.sqe() == (Sqe { buf_index: value, ..self.sqe() }),
    {
        Recvmsg { sqe: Sqe { buf_index: value, ..self.sqe } }
    }

    /// Reads back [`Recvmsg::buf_group`].
    pub fn get_buf_group(&self) -> (value: u16)
        ensures
            value == self.sqe().buf_index,
    {
        self.sqe.buf_index
    }
}

/// Send a message with ancillary data.
#[derive(Clone, Copy, Debug)]
pub struct Sendmsg {
    sqe: Sqe,
}

impl Op for Sendmsg {
    closed spec fn sqe(&self) -> Sqe {
        self.sqe
    }

    fn as_sqe(&self) -> (sqe: &Sqe) {
        &self.sqe
    }

    fn with_sqe(self, sqe: Sqe) -> (op: Sendmsg) {
        Sendmsg { sqe }
    }
}

impl Sendmsg {
    /// A zeroed SQE for this operation.
    pub fn new() -> (op: Sendmsg)
        ensures
            op.sqe() == (Sqe { len: 1, ..sys::blank(Opcode::Sendmsg) }),
    {
        Sendmsg { sqe: Sqe { len: 1, ..Sqe::new(Opcode::Sendmsg) } }
    }

    /// Sets the `fd`.
    pub fn fd(self, value: i32) -> (op: Sendmsg)
        ensures
            op.sqe() == (Sqe { fd: value, ..self.sqe() }),
    {
        Sendmsg { sqe: Sqe { fd: value, ..self.sqe } }
    }

    /// Reads back [`Sendmsg::fd`].
    pub fn get_fd(&self) -> (value: i32)
        ensures
            value == self.sqe().fd,
    {
        self.sqe.fd
    }

    /// Sets the `msg`.
    pub fn msg(self, value: Ptr) -> (op: Sendmsg)
        ensures
            op.sqe() == (Sqe { addr: value@, ..self.sqe() }),
    {
        Sendmsg { sqe: Sqe { addr: op::ptr_enc(value), ..self.sqe } }
    }

    /// Reads back [`Sendmsg::msg`].
    pub fn get_msg(&self) -> (value: Ptr)
        ensures
            value@ == op::pointer_in(self.sqe().addr, 8),
    {
        op::ptr_dec(self.sqe.addr, 8)
    }

    /// Sets the `flags`.
    pub fn flags(self, value: u32) -> (op: Sendmsg)
        ensures
            op.sqe() == (Sqe { op_flags: value, ..self.sqe() }),
    {
        Sendmsg { sqe: Sqe { op_flags: value, ..self.sqe } }
    }

    /// Reads back [`Sendmsg::flags`].
    pub fn get_flags(&self) -> (value: u32)
        ensures
            value == self.sqe().op_flags,
    {
        self.sqe.op_flags
    }

    /// Sets the `send_flags`.
    pub fn send_flags(self, value: RecvSendFlags) -> (op: Sendmsg)
        ensures
            op.sqe() == (Sqe { ioprio: value.bits, ..self.sqe() }),
    {
        Sendmsg { sqe: Sqe { ioprio: value.bits(), ..self.sqe } }
    }

    /// Reads back [`Sendmsg::send_flags`].
    pub fn get_send_flags(&self) -> (value: RecvSendFlags)
        ensures
            value.bits == self.sqe().ioprio,
    {
        RecvSendFlags::from_bits_retain(self.sqe.ioprio)
    }

    /// Sets the `buf_index`.
    pub fn buf_index(self, value: u16) -> (op: Sendmsg)
        ensures
            op.sqe() == (Sqe { buf_index: value, ..self.sqe() }),
    {
        Sendmsg { sqe: Sqe { buf_index: value, ..self.sqe } }
    }

    /// Reads back [`Sendmsg::buf_index`].
    pub fn get_buf_index(&self) -> (value: u16)
        ensures
            value == self.sqe().buf_index,
    {
        self.sqe.buf_index
    }
}

/// Zero-copy send.
///
/// Produces two completions: the send result, then a
/// [`sys::CqeFlags::NOTIF`] entry once the buffer may be reused.
#[derive(Clone, Copy, Debug)]
pub struct SendZc {
    sqe: Sqe,
}

impl Op for SendZc {
    closed spec fn sqe(&self) -> Sqe {
        self.sqe
    }

    fn as_sqe(&self) -> (sqe: &Sqe) {
        &self.sqe
    }

    fn with_sqe(self, sqe: Sqe) -> (op: SendZc) {
        SendZc { sqe }
    }
}

impl SendZc {
    /// A zeroed SQE for this operation.
    pub fn new() -> (op: SendZc)
        ensures
            op.sqe() == sys::blank(Opcode::SendZc),
    {
        SendZc { sqe: Sqe::new(Opcode::SendZc) }
    }

    /// Sets the `fd`.
    pub fn fd(self, value: i32) -> (op: SendZc)
        ensures
            op.sqe() == (Sqe { fd: value, ..self.sqe() }),
    {
        SendZc { sqe: Sqe { fd: value, ..self.sqe } }
    }

    /// Reads back [`SendZc::fd`].
    pub fn get_fd(&self) -> (value: i32)
        ensures
            value == self.sqe().fd,
    {
        self.sqe.fd
    }

    /// Sets the `buf`.
    pub fn buf(self, value: Span) -> (op: SendZc)
        ensures
            op.sqe() == (Sqe { addr: value.ptr@, len: value.len as u32, ..self.sqe() }),
    {
        SendZc { sqe: Sqe { addr: op::ptr_enc(value.ptr), len: value.len as u32, ..self.sqe } }
    }

    /// Reads back [`SendZc::buf`].
    pub fn get_buf(&self) -> (value: Span)
        ensures
            value.ptr@ == op::pointer_in(self.sqe().addr, 1),
            value.len == self.sqe().len,
    {
        op::buf_from(self.sqe.addr, self.sqe.len)
    }

    /// Sets the `nbytes`.
    pub fn nbytes(self, value: u32) -> (op: SendZc)
        ensures
            op.sqe() == (Sqe { len: value, ..self.sqe() }),
    {
        SendZc { sqe: Sqe { len: value, ..self.sqe } }
    }

    /// Reads back [`SendZc::nbytes`].
    pub fn get_nbytes(&self) -> (value: u32)
        ensures
            value == self.sqe().len,
    {
        self.sqe.len
    }

    /// Sets the `flags`.
    pub fn flags(self, value: u32) -> (op: SendZc)
        ensures
            op.sqe() == (Sqe { op_flags: value, ..self.sqe() }),
    {
        SendZc { sqe: Sqe { op_flags: value, ..self.sqe } }
    }

    /// Reads back [`SendZc::flags`].
    pub fn get_flags(&self) -> (value: u32)
        ensures
            value == self.sqe().op_flags,
    {
        self.sqe.op_flags
    }

    /// [`sys::RecvSendFlags::FIXED_BUF`], [`sys::RecvSendFlags::SEND_ZC_REPORT_USAGE`].
    pub fn zc_flags(self, value: RecvSendFlags) -> (op: SendZc)
        ensures
            op.sqe() == (Sqe { ioprio: value.bits, ..self.sqe() }),
    {
        SendZc { sqe: Sqe { ioprio: value.bits(), ..self.sqe } }
    }

    /// Reads back [`SendZc::zc_flags`].
    pub fn get_zc_flags(&self) -> (value: RecvSendFlags)
        ensures
            value.bits == self.sqe().ioprio,
    {
        RecvSendFlags::from_bits_retain(self.sqe.ioprio)
    }

    /// Sets the `buf_index`.
    pub fn buf_index(self, value: u16) -> (op: SendZc)
        ensures
            op.sqe() == (Sqe { buf_index: value, ..self.sqe() }),
    {
        SendZc { sqe: Sqe { buf_index: value, ..self.sqe } }
    }

    /// Reads back [`SendZc::buf_index`].
    pub fn get_buf_index(&self) -> (value: u16)
        ensures
            value == self.sqe().buf_index,
    {
        self.sqe.buf_index
    }

    /// Destination address for unconnected sockets.
    pub fn dest_addr(self, value: Option<Ptr>) -> (op: SendZc)
        ensures
            op.sqe() == (Sqe { addr2: op::word_of(value), ..self.sqe() }),
    {
        SendZc { sqe: Sqe { addr2: op::optptr_enc(value), ..self.sqe } }
    }

    /// Reads back [`SendZc::dest_addr`].
    pub fn get_dest_addr(&self) -> (value: Option<Ptr>)
        ensures
            op::points_at(value, self.sqe().addr2),
    {
        op::optptr_dec(self.sqe.addr2)
    }

    /// Size of [`SendZc::dest_addr`], in the low half of the `file_index` slot.
    pub fn dest_addr_len(self, value: u16) -> (op: SendZc)
        ensures
            op.sqe() == (Sqe { file_index: value as u32, ..self.sqe() }),
    {
        SendZc { sqe: Sqe { file_index: value as u32, ..self.sqe } }
    }

    /// Reads back [`SendZc::dest_addr_len`].
    pub fn get_dest_addr_len(&self) -> (value: u16)
        ensures
            value == self.sqe().file_index as u16,
    {
        self.sqe.file_index as u16
    }
}

/// Zero-copy `sendmsg`.
#[derive(Clone, Copy, Debug)]
pub struct SendmsgZc {
    sqe: Sqe,
}

impl Op for SendmsgZc {
    closed spec fn sqe(&self) -> Sqe {
        self.sqe
    }

    fn as_sqe(&self) -> (sqe: &Sqe) {
        &self.sqe
    }

    fn with_sqe(self, sqe: Sqe) -> (op: SendmsgZc) {
        SendmsgZc { sqe }
    }
}

impl SendmsgZc {
    /// A zeroed SQE for this operation.
    pub fn new() -> (op: SendmsgZc)
        ensures
            op.sqe() == (Sqe { len: 1, ..sys::blank(Opcode::SendmsgZc) }),
    {
        SendmsgZc { sqe: Sqe { len: 1, ..Sqe::new(Opcode::SendmsgZc) } }
    }

    /// Sets the `fd`.
    pub fn fd(self, value: i32) -> (op: SendmsgZc)
        ensures
            op.sqe() == (Sqe { fd: value, ..self.sqe() }),
    {
        SendmsgZc { sqe: Sqe { fd: value, ..self.sqe } }
    }

    /// Reads back [`SendmsgZc::fd`].
    pub fn get_fd(&self) -> (value: i32)
        ensures
            value == self.sqe().fd,
    {
        self.sqe.fd
    }

    /// Sets the `msg`.
    pub fn msg(self, value: Ptr) -> (op: SendmsgZc)
        ensures
            op.sqe() == (Sqe { addr: value@, ..self.sqe() }),
    {
        SendmsgZc { sqe: Sqe { addr: op::ptr_enc(value), ..self.sqe } }
    }

    /// Reads back [`SendmsgZc::msg`].
    pub fn get_msg(&self) -> (value: Ptr)
        ensures
            value@ == op::pointer_in(self.sqe().addr, 8),
    {
        op::ptr_dec(self.sqe.addr, 8)
    }

    /// Sets the `flags`.
    pub fn flags(self, value: u32) -> (op: SendmsgZc)
        ensures
            op.sqe() == (Sqe { op_flags: value, ..self.sqe() }),
    {
        SendmsgZc { sqe: Sqe { op_flags: value, ..self.sqe } }
    }

    /// Reads back [`SendmsgZc::flags`].
    pub fn get_flags(&self) -> (value: u32)
        ensures
            value == self.sqe().op_flags,
    {
        self.sqe.op_flags
    }

    /// Sets the `zc_flags`.
    pub fn zc_flags(self, value: RecvSendFlags) -> (op: SendmsgZc)
        ensures
            op.sqe() == (Sqe { ioprio: value.bits, ..self.sqe() }),
    {
        SendmsgZc { sqe: Sqe { ioprio: value.bits(), ..self.sqe } }
    }

    /// Reads back [`SendmsgZc::zc_flags`].
    pub fn get_zc_flags(&self) -> (value: RecvSendFlags)
        ensures
            value.bits == self.sqe().ioprio,
    {
        RecvSendFlags::from_bits_retain(self.sqe.ioprio)
    }

    /// Sets the `buf_index`.
    pub fn buf_index(self, value: u16) -> (op: SendmsgZc)
        ensures
            op.sqe() == (Sqe { buf_index: value, ..self.sqe() }),
    {
        SendmsgZc { sqe: Sqe { buf_index: value, ..self.sqe } }
    }

    /// Reads back [`SendmsgZc::buf_index`].
    pub fn get_buf_index(&self) -> (value: u16)
        ensures
            value == self.sqe().buf_index,
    {
        self.sqe.buf_index
    }
}

/// Zero-copy receive into a registered zcrx area.
///
/// The interface queue index lives in the `file_index` slot.
#[derive(Clone, Copy, Debug)]
pub struct RecvZc {
    sqe: Sqe,
}

impl Op for RecvZc {
    closed spec fn sqe(&self) -> Sqe {
        self.sqe
    }

    fn as_sqe(&self) -> (sqe: &Sqe) {
        &self.sqe
    }

    fn with_sqe(self, sqe: Sqe) -> (op: RecvZc) {
        RecvZc { sqe }
    }
}

impl RecvZc {
    /// A zeroed SQE for this operation.
    pub fn new() -> (op: RecvZc)
        ensures
            op.sqe() == sys::blank(Opcode::RecvZc),
    {
        RecvZc { sqe: Sqe::new(Opcode::RecvZc) }
    }

    /// Sets the `fd`.
    pub fn fd(self, value: i32) -> (op: RecvZc)
        ensures
            op.sqe() == (Sqe { fd: value, ..self.sqe() }),
    {
        RecvZc { sqe: Sqe { fd: value, ..self.sqe } }
    }

    /// Reads back [`RecvZc::fd`].
    pub fn get_fd(&self) -> (value: i32)
        ensures
            value == self.sqe().fd,
    {
        self.sqe.fd
    }

    /// Sets the `nbytes`.
    pub fn nbytes(self, value: u32) -> (op: RecvZc)
        ensures
            op.sqe() == (Sqe { len: value, ..self.sqe() }),
    {
        RecvZc { sqe: Sqe { len: value, ..self.sqe } }
    }

    /// Reads back [`RecvZc::nbytes`].
    pub fn get_nbytes(&self) -> (value: u32)
        ensures
            value == self.sqe().len,
    {
        self.sqe.len
    }

    /// Sets the `flags`.
    pub fn flags(self, value: u32) -> (op: RecvZc)
        ensures
            op.sqe() == (Sqe { op_flags: value, ..self.sqe() }),
    {
        RecvZc { sqe: Sqe { op_flags: value, ..self.sqe } }
    }

    /// Reads back [`RecvZc::flags`].
    pub fn get_flags(&self) -> (value: u32)
        ensures
            value == self.sqe().op_flags,
    {
        self.sqe.op_flags
    }

    /// Sets the `recv_flags`.
    pub fn recv_flags(self, value: RecvSendFlags) -> (op: RecvZc)
        ensures
            op.sqe() == (Sqe { ioprio: value.bits, ..self.sqe() }),
    {
        RecvZc { sqe: Sqe { ioprio: value.bits(), ..self.sqe } }
    }

    /// Reads back [`RecvZc::recv_flags`].
    pub fn get_recv_flags(&self) -> (value: RecvSendFlags)
        ensures
            value.bits == self.sqe().ioprio,
    {
        RecvSendFlags::from_bits_retain(self.sqe.ioprio)
    }

    /// The registered zcrx interface queue to receive from.
    pub fn ifq_idx(self, value: u32) -> (op: RecvZc)
        ensures
            op.sqe() == (Sqe { file_index: value, ..self.sqe() }),
    {
        RecvZc { sqe: Sqe { file_index: value, ..self.sqe } }
    }

    /// Reads back [`RecvZc::ifq_idx`].
    pub fn get_ifq_idx(&self) -> (value: u32)
        ensures
            value == self.sqe().file_index,
    {
        self.sqe.file_index
    }
}

} // verus!
