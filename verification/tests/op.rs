use scr::io_uring::flags::{AcceptFlags, NopFlags, RecvSendFlags, SqeFlags, TimeoutFlags};
use scr::io_uring::op::{
    Accept, AsyncCancel, Bind, Close, Connect, EpollCtl, EpollWait, Fadvise, Fallocate,
    Fgetxattr, FilesUpdate, FixedFdInstall, Fsetxattr, Fsync, Ftruncate, FutexWait,
    FutexWaitv, FutexWake, Getxattr, LinkTimeout, Linkat, Listen, Madvise, Mkdirat, MsgRing,
    Nop, Nop128, Op, Openat, Openat2, Pipe, PollAdd, PollRemove, ProvideBuffers, Ptr, Read,
    ReadFixed, ReadMultishot, Readv, ReadvFixed, Recv, RecvZc, Recvmsg, RemoveBuffers,
    Renameat, Send, SendZc, Sendmsg, SendmsgZc, Setxattr, Shutdown, Socket, Span, Splice,
    Statx, Symlinkat, SyncFileRange, Tee, Timeout, TimeoutRemove, Unlinkat, UringCmd,
    UringCmd128, Waitid, Write, WriteFixed, Writev, WritevFixed,
};
use scr::io_uring::sys;

fn span(addr: u64, len: u64) -> Span {
    Span {
        ptr: Ptr::new(addr).unwrap(),
        len,
    }
}

/// Every setter must be readable back through its `get_`, including the
/// mapped fields whose reverse expression is written by hand.
#[test]
fn fields_round_trip() {
    let buf = span(0x7f00_0000_1000, 32);
    let ts_ptr = Ptr::new(0x7f00_0000_2000).unwrap();

    let r = Read::new()
        .fd(7)
        .buf(buf)
        .nbytes(16)
        .offset(4096)
        .rw_flags(9)
        .user_data(11)
        .sqe_flags(SqeFlags::from_bits_retain(SqeFlags::IO_LINK))
        .personality(3);
    assert_eq!(r.get_fd(), 7);
    assert_eq!(r.get_buf().ptr, buf.ptr);
    assert_eq!(r.get_nbytes(), 16, "nbytes must override the buf length");
    assert_eq!(r.get_offset(), 4096);
    assert_eq!(r.get_rw_flags(), 9);
    assert_eq!(r.get_user_data(), 11);
    assert_eq!(r.get_sqe_flags().bits(), SqeFlags::IO_LINK);
    assert_eq!(r.get_personality(), 3);

    let peer = (
        Ptr::new(0x7f00_0000_3000).unwrap(),
        Ptr::new(0x7f00_0000_3080).unwrap(),
    );
    let a = Accept::new()
        .fd(4)
        .peer(Some(peer))
        .flags(1)
        .accept_flags(AcceptFlags::from_bits_retain(AcceptFlags::MULTISHOT))
        .slot(sys::FILE_INDEX_ALLOC);
    assert_eq!(a.get_peer(), Some(peer));
    assert_eq!(a.get_accept_flags().bits(), AcceptFlags::MULTISHOT);
    assert_eq!(a.get_slot(), sys::FILE_INDEX_ALLOC);

    let wanted = TimeoutFlags::from_bits_retain(TimeoutFlags::ABS | TimeoutFlags::ETIME_SUCCESS);
    let t = Timeout::new().ts(ts_ptr).count(5).flags(wanted);
    assert_eq!(t.get_ts(), ts_ptr);
    assert_eq!(t.get_count(), 5);
    assert_eq!(t.get_flags(), wanted);

    let n = Nop::new()
        .flags(NopFlags::from_bits_retain(NopFlags::INJECT_RESULT))
        .result(-5);
    assert_eq!(n.get_flags().bits(), NopFlags::INJECT_RESULT);
    assert_eq!(n.get_result(), -5);

    let s = Recv::new()
        .recv_flags(RecvSendFlags::from_bits_retain(RecvSendFlags::BUNDLE))
        .buf_group(9);
    assert_eq!(s.get_recv_flags().bits(), RecvSendFlags::BUNDLE);
    assert_eq!(s.get_buf_group(), 9);
}

/// The address, the length and the offset land in their slots, with nothing
/// else touched.
#[test]
fn read_encodes_like_prep_rw() {
    let buf = span(0x5555_0000_0040, 64);
    let sqe = Read::new().fd(5).buf(buf).offset(9).into_sqe();

    assert_eq!(sqe.opcode, sys::Opcode::Read);
    assert_eq!(sqe.fd, 5);
    assert_eq!(sqe.addr, buf.ptr.addr());
    assert_eq!(sqe.len, 64);
    assert_eq!(sqe.addr2, 9);
    assert_eq!(sqe.ioprio, 0);
    assert_eq!(sqe.op_flags, 0);
    assert_eq!(sqe.buf_index, 0);
    assert_eq!(sqe.file_index, 0);
    assert_eq!(sqe.addr3, 0);
    assert_eq!(sqe.addr3_hi, 0);
}

/// A timeout is submitted with `len = 1` and `fd = -1`; a zero `len` is rejected.
#[test]
fn timeout_presets_are_applied() {
    let sqe = Timeout::new().into_sqe();
    assert_eq!(sqe.len, 1);
    assert_eq!(sqe.fd, -1);
    assert_eq!(sqe.opcode, sys::Opcode::Timeout);
}

/// Direct descriptor slots go on the wire 1-based so that zero can mean
/// "not a fixed file", and must read back 0-based.
#[test]
fn slots_are_encoded_one_based() {
    assert_eq!(Openat::new().slot(0).into_sqe().file_index, 1);
    assert_eq!(Openat::new().slot(0).get_slot(), 0);
    assert_eq!(Openat::new().slot(41).into_sqe().file_index, 42);
    // The sentinel has to survive the round trip untouched.
    let chosen = Openat::new().slot(sys::FILE_INDEX_ALLOC);
    assert_eq!(chosen.into_sqe().file_index, 0, "!0 + 1 wraps to 0");
    assert_eq!(chosen.get_slot(), sys::FILE_INDEX_ALLOC);
}

/// `None` must leave both wire fields zero, so the kernel is never handed
/// a length pointer without an address to go with it.
#[test]
fn accept_peer_is_all_or_nothing() {
    let none = Accept::new().fd(3).into_sqe();
    assert_eq!(none.addr, 0);
    assert_eq!(none.addr2, 0);
    assert_eq!(Accept::new().fd(3).get_peer(), None);

    let peer = (Ptr::new(0x1000).unwrap(), Ptr::new(0x1000 + 128).unwrap());
    let set = Accept::new().peer(Some(peer)).into_sqe();
    assert_eq!(set.addr, peer.0.addr());
    assert_eq!(set.addr2, peer.1.addr());

    // Clearing it must clear both halves, not leave a dangling length.
    let cleared = Accept::new().peer(Some(peer)).peer(None).into_sqe();
    assert_eq!(cleared.addr, 0);
    assert_eq!(cleared.addr2, 0);
}

fn code_of<O: Op>(op: O) -> u8 {
    op.into_sqe().opcode.code()
}

/// Every opcode must have a type, and each type must encode its own opcode.
#[test]
fn every_opcode_has_a_type() {
    let seen = [
        (code_of(Nop::new()), "Nop"),
        (code_of(Readv::new()), "Readv"),
        (code_of(Writev::new()), "Writev"),
        (code_of(Fsync::new()), "Fsync"),
        (code_of(ReadFixed::new()), "ReadFixed"),
        (code_of(WriteFixed::new()), "WriteFixed"),
        (code_of(PollAdd::new()), "PollAdd"),
        (code_of(PollRemove::new()), "PollRemove"),
        (code_of(SyncFileRange::new()), "SyncFileRange"),
        (code_of(Sendmsg::new()), "Sendmsg"),
        (code_of(Recvmsg::new()), "Recvmsg"),
        (code_of(Timeout::new()), "Timeout"),
        (code_of(TimeoutRemove::new()), "TimeoutRemove"),
        (code_of(Accept::new()), "Accept"),
        (code_of(AsyncCancel::new()), "AsyncCancel"),
        (code_of(LinkTimeout::new()), "LinkTimeout"),
        (code_of(Connect::new()), "Connect"),
        (code_of(Fallocate::new()), "Fallocate"),
        (code_of(Openat::new()), "Openat"),
        (code_of(Close::new()), "Close"),
        (code_of(FilesUpdate::new()), "FilesUpdate"),
        (code_of(Statx::new()), "Statx"),
        (code_of(Read::new()), "Read"),
        (code_of(Write::new()), "Write"),
        (code_of(Fadvise::new()), "Fadvise"),
        (code_of(Madvise::new()), "Madvise"),
        (code_of(Send::new()), "Send"),
        (code_of(Recv::new()), "Recv"),
        (code_of(Openat2::new()), "Openat2"),
        (code_of(EpollCtl::new()), "EpollCtl"),
        (code_of(Splice::new()), "Splice"),
        (code_of(ProvideBuffers::new()), "ProvideBuffers"),
        (code_of(RemoveBuffers::new()), "RemoveBuffers"),
        (code_of(Tee::new()), "Tee"),
        (code_of(Shutdown::new()), "Shutdown"),
        (code_of(Renameat::new()), "Renameat"),
        (code_of(Unlinkat::new()), "Unlinkat"),
        (code_of(Mkdirat::new()), "Mkdirat"),
        (code_of(Symlinkat::new()), "Symlinkat"),
        (code_of(Linkat::new()), "Linkat"),
        (code_of(MsgRing::new()), "MsgRing"),
        (code_of(Fsetxattr::new()), "Fsetxattr"),
        (code_of(Setxattr::new()), "Setxattr"),
        (code_of(Fgetxattr::new()), "Fgetxattr"),
        (code_of(Getxattr::new()), "Getxattr"),
        (code_of(Socket::new()), "Socket"),
        (code_of(UringCmd::new()), "UringCmd"),
        (code_of(SendZc::new()), "SendZc"),
        (code_of(SendmsgZc::new()), "SendmsgZc"),
        (code_of(ReadMultishot::new()), "ReadMultishot"),
        (code_of(Waitid::new()), "Waitid"),
        (code_of(FutexWait::new()), "FutexWait"),
        (code_of(FutexWake::new()), "FutexWake"),
        (code_of(FutexWaitv::new()), "FutexWaitv"),
        (code_of(FixedFdInstall::new()), "FixedFdInstall"),
        (code_of(Ftruncate::new()), "Ftruncate"),
        (code_of(Bind::new()), "Bind"),
        (code_of(Listen::new()), "Listen"),
        (code_of(RecvZc::new()), "RecvZc"),
        (code_of(EpollWait::new()), "EpollWait"),
        (code_of(ReadvFixed::new()), "ReadvFixed"),
        (code_of(WritevFixed::new()), "WritevFixed"),
        (code_of(Pipe::new()), "Pipe"),
        (code_of(Nop128::new()), "Nop128"),
        (code_of(UringCmd128::new()), "UringCmd128"),
    ];
    assert_eq!(seen.len(), sys::Opcode::LAST as usize, "op count");
    for (i, (opcode, name)) in seen.iter().enumerate() {
        assert_eq!(*opcode, i as u8, "{name} encodes the wrong opcode");
    }
}

/// Presets the kernel requires, gathered in one place.
#[test]
fn kernel_required_presets() {
    // A timespec count of zero is rejected.
    assert_eq!(Timeout::new().into_sqe().len, 1);
    assert_eq!(LinkTimeout::new().into_sqe().len, 1);
    // One msghdr.
    assert_eq!(Sendmsg::new().into_sqe().len, 1);
    assert_eq!(Recvmsg::new().into_sqe().len, 1);
    assert_eq!(SendmsgZc::new().into_sqe().len, 1);
    // sizeof(struct open_how), which the kernel validates.
    assert_eq!(Openat2::new().into_sqe().len, 24);
    // These two only work with the matching sqe flag set.
    assert_eq!(
        ReadMultishot::new().get_sqe_flags().bits(),
        SqeFlags::BUFFER_SELECT
    );
    assert_eq!(
        FixedFdInstall::new().get_sqe_flags().bits(),
        SqeFlags::FIXED_FILE
    );
}

/// `Splice` spreads its two descriptors and two offsets across four
/// different union slots.
#[test]
fn splice_encodes_both_ends() {
    let sqe = Splice::new()
        .fd_out(4)
        .off_out(100)
        .fd_in(5)
        .off_in(200)
        .nbytes(4096)
        .flags(sys::SPLICE_F_FD_IN_FIXED)
        .into_sqe();
    assert_eq!(sqe.fd, 4, "fd_out lands in fd");
    assert_eq!(sqe.addr2, 100, "off_out lands in addr2");
    assert_eq!(sqe.file_index, 5, "fd_in lands in the splice_fd_in slot");
    assert_eq!(sqe.addr, 200, "off_in lands in the splice_off_in slot");
    assert_eq!(sqe.len, 4096);
    assert_eq!(sqe.op_flags, sys::SPLICE_F_FD_IN_FIXED);
}

/// `UringCmd` packs level and optname into the two halves of one word, so
/// they must be set as a pair or each would clobber the other.
#[test]
fn uring_cmd_packs_the_sockopt_pair() {
    let c = UringCmd::new().sockopt((1, 2));
    assert_eq!(c.get_sockopt(), (1, 2));
    assert_eq!(c.as_sqe().addr, 1 | (2u64 << 32));
}

/// `buf` writes the address and the length; `nbytes` then narrows the
/// length alone. The order matters, and the reverse is a no-op.
#[test]
fn nbytes_narrows_buf_only_when_applied_after() {
    let b = span(0x2000, 64);
    assert_eq!(Read::new().buf(b).nbytes(8).into_sqe().len, 8);
    assert_eq!(Read::new().nbytes(8).buf(b).into_sqe().len, 64);
}

/// A pointer reads back as it was set. One that was never set dangles where there
/// has to be one, and is none where there need not be.
#[test]
fn a_pointer_reads_back_as_it_was_set() {
    let p = Ptr::new(u64::MAX).unwrap();
    assert_eq!(Timeout::new().ts(p).get_ts(), p);
    assert_eq!(TimeoutRemove::new().get_ts(), None);
    assert_eq!(TimeoutRemove::new().ts(Some(p)).get_ts(), Some(p));
    assert_eq!(TimeoutRemove::new().ts(Some(p)).ts(None).get_ts(), None);
    assert!(Ptr::new(0).is_none());
    assert_eq!(Read::new().get_buf(), span(1, 0));
    assert_eq!(Read::new().nbytes(5).get_buf(), span(1, 5));
}

/// A pointer that dangles is aligned for what it would point at.
#[test]
fn an_unset_pointer_is_aligned() {
    assert_eq!(Timeout::new().get_ts().addr(), 8);
    assert_eq!(Readv::new().get_iovecs().addr(), align_of::<libc::iovec>() as u64);
    assert_eq!(Recvmsg::new().get_msg().addr(), align_of::<libc::msghdr>() as u64);
    assert_eq!(
        EpollCtl::new().get_event().addr(),
        align_of::<libc::epoll_event>() as u64
    );
    assert_eq!(FutexWake::new().get_futex().addr(), align_of::<u32>() as u64);
    assert_eq!(Pipe::new().get_fds().addr(), align_of::<i32>() as u64);
    assert_eq!(Openat::new().get_path().addr(), align_of::<u8>() as u64);
}

/// The words of an entry hold its fields where the interface puts them.
#[test]
fn an_entry_is_eight_words() {
    let sqe = Read::new()
        .fd(-1)
        .buf(span(0x1122_3344_5566_7788, 0x9abc))
        .offset(0x0102_0304_0506_0708)
        .rw_flags(0xdead_beef)
        .user_data(0xfeed_face_cafe_f00d)
        .sqe_flags(SqeFlags::from_bits_retain(SqeFlags::ASYNC))
        .personality(0x1234)
        .into_sqe();
    let words = sqe.to_words();
    // opcode 22, flags 16, fd -1
    assert_eq!(words[0], 0xffff_ffff_0000_1016);
    assert_eq!(words[1], 0x0102_0304_0506_0708);
    assert_eq!(words[2], 0x1122_3344_5566_7788);
    assert_eq!(words[3], 0xdead_beef_0000_9abc);
    assert_eq!(words[4], 0xfeed_face_cafe_f00d);
    assert_eq!(words[5], 0x1234_0000);
    assert_eq!(words[6], 0);
    assert_eq!(words[7], 0);
    assert_eq!(sys::Sqe::zeroed().to_words(), [0; 8]);
    assert_eq!(sys::Sqe::default().to_words(), [0; 8]);
}

/// The inline command area of a wide entry starts sixteen bytes before its
/// second half.
#[test]
fn a_wide_entry_carries_eighty_bytes_of_command() {
    let mut wide = sys::Sqe128::new(sys::Opcode::UringCmd128);
    assert_eq!(wide.cmd(), [0u8; 80]);
    let mut cmd = [0u8; 80];
    for i in 0..80u8 {
        cmd[i as usize] = i + 1;
    }
    wide.cmd_mut(&cmd);
    assert_eq!(wide.cmd(), cmd);
    assert_eq!(wide.sqe.opcode, sys::Opcode::UringCmd128);
    assert_eq!(wide.sqe.addr3, 0x0807_0605_0403_0201);
    assert_eq!(wide.sqe.addr3_hi, 0x100f_0e0d_0c0b_0a09);
    assert_eq!(wide.tail[0], 17);
    assert_eq!(sys::Sqe128::zeroed().sqe.to_words(), [0; 8]);
}

/// The flag words keep bits that have no name.
#[test]
fn unnamed_bits_are_kept() {
    let odd = SqeFlags::from_bits_retain(0x81);
    assert_eq!(odd.bits(), 0x81);
    assert!(odd.contains(SqeFlags::FIXED_FILE));
    assert!(!odd.contains(SqeFlags::FIXED_FILE | SqeFlags::IO_LINK));
    assert!(odd.intersects(SqeFlags::FIXED_FILE | SqeFlags::IO_LINK));
    assert!(!odd.intersects(SqeFlags::IO_LINK));
    assert_eq!(odd.with(SqeFlags::IO_LINK).bits(), 0x85);
    assert_eq!(SqeFlags::empty().bits(), 0);
}

/// An operation converts into its entry.
#[test]
fn an_operation_converts_into_its_entry() {
    let read = Read::new().fd(7).offset(9).user_data(11);
    let sqe = sys::Sqe::from(read);
    assert_eq!(sqe.to_words(), read.into_sqe().to_words());
    assert_eq!((sqe.fd, sqe.addr2, sqe.user_data), (7, 9, 11));
    let sqe: sys::Sqe = Nop::new().into();
    assert_eq!(sqe.to_words(), Nop::new().into_sqe().to_words());
}
