//! The structures and numbers of the io_uring interface.
//!
//! Plain values with public fields, no accessors and no invariants; the
//! ergonomic layer lives on top of this.
//!
//! Where the C header uses an anonymous union, this module picks **one field per
//! byte range** and documents the other arms in a comment. Callers select an arm
//! by writing the right integer into the slot. All such punning assumes a
//! little-endian target, which io_uring effectively requires anyway.

use vstd::prelude::*;

pub use super::flags::{
    AcceptFlags, AsyncCancelFlags, CloneBuffersFlags, CqRingFlags, CqeFlags, EnterFlags, Features,
    FsyncFlags, InstallFdFlags, MsgRingFlags, NopFlags, PbufRingFlags, PollFlags, RecvSendFlags,
    RegWaitFlags, RsrcRegisterFlags, RwAttrFlags, SetupFlags, SqRingFlags, SqeFlags, TimeoutFlags,
    UringCmdFlags, ZcrxAreaFlags, ZcrxFeatures, ZcrxRegFlags,
};

verus! {

/// `enum io_uring_op`, written into [`Sqe::opcode`].
#[derive(Clone, Copy, Debug, PartialEq, Eq, Structural)]
pub enum Opcode {
    Nop,
    Readv,
    Writev,
    Fsync,
    ReadFixed,
    WriteFixed,
    PollAdd,
    PollRemove,
    SyncFileRange,
    Sendmsg,
    Recvmsg,
    Timeout,
    TimeoutRemove,
    Accept,
    AsyncCancel,
    LinkTimeout,
    Connect,
    Fallocate,
    Openat,
    Close,
    FilesUpdate,
    Statx,
    Read,
    Write,
    Fadvise,
    Madvise,
    Send,
    Recv,
    Openat2,
    EpollCtl,
    Splice,
    ProvideBuffers,
    RemoveBuffers,
    Tee,
    Shutdown,
    Renameat,
    Unlinkat,
    Mkdirat,
    Symlinkat,
    Linkat,
    MsgRing,
    Fsetxattr,
    Setxattr,
    Fgetxattr,
    Getxattr,
    Socket,
    UringCmd,
    SendZc,
    SendmsgZc,
    ReadMultishot,
    Waitid,
    FutexWait,
    FutexWake,
    FutexWaitv,
    FixedFdInstall,
    Ftruncate,
    Bind,
    Listen,
    RecvZc,
    EpollWait,
    ReadvFixed,
    WritevFixed,
    Pipe,
    Nop128,
    UringCmd128,
}

impl Opcode {
    /// `IORING_OP_LAST`: how many opcodes are listed here. Prefer probing the
    /// running kernel over comparing against this.
    pub const LAST: u8 = 65;

    /// The number the kernel knows the operation by.
    pub fn code(self) -> (code: u8)
        ensures
            code == self as u8,
            code < Opcode::LAST,
    {
        self as u8
    }
}

/// `struct io_uring_sqe`, the 64-byte submission queue entry.
///
/// This is the element type of the SQE array in every mode *except*
/// [`SetupFlags::SQE128`], where the stride doubles to 128 and the element type
/// is [`Sqe128`]. Under [`SetupFlags::SQE_MIXED`] the stride stays 64 and a
/// 128-byte submission instead occupies two adjacent slots — see [`Sqe128`].
#[derive(Clone, Copy, Debug)]
pub struct Sqe {
    pub opcode: Opcode,
    pub flags: SqeFlags,
    /// Doubles as the op-specific flag word for several opcodes:
    /// [`RecvSendFlags`], [`AcceptFlags`].
    pub ioprio: u16,
    pub fd: i32,
    /// Union slot at offset 8: `off` | `addr2` | (`cmd_op`, `__pad1`).
    ///
    /// For `cmd_op`, write it in the low 32 bits and leave the high 32 zero.
    pub addr2: u64,
    /// Union slot at offset 16: `addr` | `splice_off_in` | (`level`, `optname`).
    ///
    /// For the socket-option pair, write `level | (optname << 32)`.
    pub addr: u64,
    /// Buffer size or iovec count. Doubles as the flag word for `PollAdd`
    /// ([`PollFlags`]) and as `mode` for `Openat`.
    pub len: u32,
    /// Union slot at offset 28: every `*_flags` arm of the C union —
    /// `rw_flags`, `fsync_flags`, `poll32_events`, `timeout_flags`,
    /// `msg_flags`, `cancel_flags`, `open_flags`, `nop_flags`, and the rest.
    ///
    /// The `rw_flags` arm is `__kernel_rwf_t`, i.e. a signed `int`; the `RWF_*`
    /// values are all small and positive, so they round-trip through `u32`.
    pub op_flags: u32,
    pub user_data: u64,
    /// Union slot at offset 40: `buf_index` | `buf_group`.
    pub buf_index: u16,
    pub personality: u16,
    /// Union slot at offset 44: `file_index` | `splice_fd_in` | `zcrx_ifq_idx`
    /// | `optlen` | (`addr_len`, `__pad3`).
    ///
    /// For the narrower arms, write the value into the low bits and leave the
    /// rest zero: `addr_len as u32`.
    ///
    /// As `file_index` this is a *1-based* direct descriptor slot; 0 means "not
    /// a fixed file". [`FILE_INDEX_ALLOC`] asks the kernel to pick a free slot.
    pub file_index: u32,
    /// Union slot at offset 48: `addr3` | `attr_ptr` | `optval`.
    pub addr3: u64,
    /// Union slot at offset 56: `__pad2[0]` | `attr_type_mask`.
    ///
    /// Must be zero unless the opcode reads it. As `attr_type_mask` it holds
    /// [`RwAttrFlags`] and pairs with [`Sqe::addr3`] as `attr_ptr`.
    pub addr3_hi: u64,
}

/// The entry whose every field but the opcode is zero.
pub open spec fn blank(opcode: Opcode) -> Sqe {
    Sqe {
        opcode,
        flags: SqeFlags { bits: 0 },
        ioprio: 0,
        fd: 0,
        addr2: 0,
        addr: 0,
        len: 0,
        op_flags: 0,
        user_data: 0,
        buf_index: 0,
        personality: 0,
        file_index: 0,
        addr3: 0,
        addr3_hi: 0,
    }
}

impl Sqe {
    /// An all-zero SQE, which is a well-formed `Nop`.
    pub fn zeroed() -> (sqe: Sqe)
        ensures
            sqe == blank(Opcode::Nop),
    {
        Sqe::new(Opcode::Nop)
    }

    /// A zeroed SQE with `opcode` set. Every other field is left for the caller.
    pub fn new(opcode: Opcode) -> (sqe: Sqe)
        ensures
            sqe == blank(opcode),
    {
        Sqe {
            opcode,
            flags: SqeFlags { bits: 0 },
            ioprio: 0,
            fd: 0,
            addr2: 0,
            addr: 0,
            len: 0,
            op_flags: 0,
            user_data: 0,
            buf_index: 0,
            personality: 0,
            file_index: 0,
            addr3: 0,
            addr3_hi: 0,
        }
    }

    /// The 64 bytes of the entry as the kernel reads them, eight at a time.
    pub fn to_words(&self) -> (words: [u64; 8])
        ensures
            words@ == sqe_words(*self),
    {
        let words = [
            (self.opcode as u8) as u64 + (self.flags.bits as u64) * 0x100 + (self.ioprio as u64)
                * 0x1_0000 + (self.fd as u32) as u64 * 0x1_0000_0000,
            self.addr2,
            self.addr,
            self.len as u64 + (self.op_flags as u64) * 0x1_0000_0000,
            self.user_data,
            self.buf_index as u64 + (self.personality as u64) * 0x1_0000 + (self.file_index as u64)
                * 0x1_0000_0000,
            self.addr3,
            self.addr3_hi,
        ];
        proof {
            assert(words@ =~= sqe_words(*self));
        }
        words
    }
}

/// The 64 bytes of an entry, as eight little-endian words: the opcode, flags and
/// `ioprio` fill the first four bytes and `fd` the next four; `len` and
/// `op_flags` share a word, as do `buf_index`, `personality` and `file_index`.
pub open spec fn sqe_words(sqe: Sqe) -> Seq<u64> {
    seq![
        ((sqe.opcode as u8) + sqe.flags.bits * 0x100 + sqe.ioprio * 0x1_0000 + (sqe.fd as u32)
            * 0x1_0000_0000) as u64,
        sqe.addr2,
        sqe.addr,
        (sqe.len + sqe.op_flags * 0x1_0000_0000) as u64,
        sqe.user_data,
        (sqe.buf_index + sqe.personality * 0x1_0000 + sqe.file_index * 0x1_0000_0000) as u64,
        sqe.addr3,
        sqe.addr3_hi,
    ]
}

impl Default for Sqe {
    fn default() -> (sqe: Sqe)
        ensures
            sqe == blank(Opcode::Nop),
    {
        Sqe::zeroed()
    }
}

/// A 128-byte submission queue entry.
///
/// Under [`SetupFlags::SQE128`] this is the SQE array element type and the ring
/// stride is 128. Under [`SetupFlags::SQE_MIXED`] the stride stays 64 and this
/// overlays *two adjacent slots*, so it cannot straddle the ring wrap: a
/// 128-byte entry landing on the last slot needs a padding entry first.
///
/// The C union places `cmd[]` at offset 48, so the 80-byte command payload
/// overlaps [`Sqe::addr3`] and [`Sqe::addr3_hi`]. Use [`Sqe128::cmd`] to get the
/// full 80-byte region rather than writing `tail` directly.
#[derive(Clone, Copy, Debug)]
pub struct Sqe128 {
    pub sqe: Sqe,
    /// Bytes 64..128. The command payload proper starts 16 bytes earlier.
    pub tail: [u8; 64],
}

/// Byte `i` of a little-endian word.
pub open spec fn word_byte(word: u64, i: int) -> u8 {
    ((word >> ((8 * i) as u64)) & 0xff) as u8
}

/// Byte `i` of the command payload: the two words at offset 48, then the tail.
pub open spec fn cmd_byte(sqe: Sqe128, i: int) -> u8 {
    if i < 8 {
        word_byte(sqe.sqe.addr3, i)
    } else if i < 16 {
        word_byte(sqe.sqe.addr3_hi, i - 8)
    } else {
        sqe.tail@[i - 16]
    }
}

/// Eight bytes of a word, least significant first.
fn split_word(word: u64) -> (bytes: [u8; 8])
    ensures
        forall|i: int| 0 <= i < 8 ==> #[trigger] bytes@[i] == word_byte(word, i),
{
    [
        ((word >> 0u64) & 0xff) as u8,
        ((word >> 8u64) & 0xff) as u8,
        ((word >> 16u64) & 0xff) as u8,
        ((word >> 24u64) & 0xff) as u8,
        ((word >> 32u64) & 0xff) as u8,
        ((word >> 40u64) & 0xff) as u8,
        ((word >> 48u64) & 0xff) as u8,
        ((word >> 56u64) & 0xff) as u8,
    ]
}

/// The word made of eight bytes of `bytes` from `at` on, least significant
/// first.
fn join_word(bytes: &[u8; 80], at: usize) -> (word: u64)
    requires
        at + 8 <= 80,
    ensures
        forall|i: int| 0 <= i < 8 ==> #[trigger] word_byte(word, i) == bytes@[at + i],
{
    let b0 = bytes[at];
    let b1 = bytes[at + 1];
    let b2 = bytes[at + 2];
    let b3 = bytes[at + 3];
    let b4 = bytes[at + 4];
    let b5 = bytes[at + 5];
    let b6 = bytes[at + 6];
    let b7 = bytes[at + 7];
    let word = (b0 as u64) | (b1 as u64) << 8u64 | (b2 as u64) << 16u64 | (b3 as u64) << 24u64 | (
    b4 as u64) << 32u64 | (b5 as u64) << 40u64 | (b6 as u64) << 48u64 | (b7 as u64) << 56u64;
    assert(((word >> 0u64) & 0xff) as u8 == b0 && ((word >> 8u64) & 0xff) as u8 == b1 && ((word
        >> 16u64) & 0xff) as u8 == b2 && ((word >> 24u64) & 0xff) as u8 == b3 && ((word >> 32u64)
        & 0xff) as u8 == b4 && ((word >> 40u64) & 0xff) as u8 == b5 && ((word >> 48u64) & 0xff)
        as u8 == b6 && ((word >> 56u64) & 0xff) as u8 == b7) by (bit_vector)
        requires
            word == (b0 as u64) | (b1 as u64) << 8u64 | (b2 as u64) << 16u64 | (b3 as u64) << 24u64
                | (b4 as u64) << 32u64 | (b5 as u64) << 40u64 | (b6 as u64) << 48u64 | (b7 as u64)
                << 56u64,
    ;
    word
}

impl Sqe128 {
    /// An all-zero entry, which is a well-formed `Nop`.
    pub fn zeroed() -> (sqe: Sqe128)
        ensures
            sqe.sqe == blank(Opcode::Nop),
            sqe.tail@ == Seq::new(64, |i: int| 0u8),
    {
        Sqe128::new(Opcode::Nop)
    }

    /// A zeroed entry with `opcode` set.
    pub fn new(opcode: Opcode) -> (sqe: Sqe128)
        ensures
            sqe.sqe == blank(opcode),
            sqe.tail@ == Seq::new(64, |i: int| 0u8),
    {
        let tail = [0u8;64];
        proof {
            assert(tail@ =~= Seq::new(64, |i: int| 0u8));
        }
        Sqe128 { sqe: Sqe::new(opcode), tail }
    }

    /// The 80-byte `cmd[]` payload at offset 48.
    pub fn cmd(&self) -> (cmd: [u8; 80])
        ensures
            forall|i: int| 0 <= i < 80 ==> #[trigger] cmd@[i] == cmd_byte(*self, i),
    {
        let mut cmd = [0u8;80];
        let low = split_word(self.sqe.addr3);
        let high = split_word(self.sqe.addr3_hi);
        let mut at: usize = 0;
        while at < 8
            invariant
                at <= 8,
                forall|i: int| 0 <= i < 8 ==> #[trigger] low@[i] == word_byte(self.sqe.addr3, i),
                forall|i: int|
                    0 <= i < 8 ==> #[trigger] high@[i] == word_byte(self.sqe.addr3_hi, i),
                forall|i: int| 0 <= i < at ==> cmd@[i] == low@[i] && cmd@[i + 8] == high@[i],
            decreases 8 - at,
        {
            cmd[at] = low[at];
            cmd[at + 8] = high[at];
            at += 1;
        }
        proof {
            assert forall|i: int| 0 <= i < 16 implies #[trigger] cmd@[i] == cmd_byte(*self, i) by {
                if i >= 8 {
                    assert(cmd@[(i - 8) + 8] == high@[i - 8]);
                } else {
                    assert(cmd@[i] == low@[i]);
                }
            }
        }
        at = 0;
        while at < 64
            invariant
                at <= 64,
                forall|i: int| 0 <= i < 16 + at ==> #[trigger] cmd@[i] == cmd_byte(*self, i),
            decreases 64 - at,
        {
            cmd[at + 16] = self.tail[at];
            at += 1;
        }
        cmd
    }

    /// Fill the 80-byte `cmd[]` payload at offset 48.
    pub fn cmd_mut(&mut self, cmd: &[u8; 80])
        ensures
            forall|i: int| 0 <= i < 80 ==> #[trigger] cmd_byte(*final(self), i) == cmd@[i],
            final(self).sqe == (Sqe {
                addr3: final(self).sqe.addr3,
                addr3_hi: final(self).sqe.addr3_hi,
                ..old(self).sqe
            }),
    {
        self.sqe.addr3 = join_word(cmd, 0);
        self.sqe.addr3_hi = join_word(cmd, 8);
        let ghost sqe = self.sqe;
        let mut at: usize = 0;
        while at < 64
            invariant
                at <= 64,
                self.sqe == sqe,
                forall|i: int| 0 <= i < at ==> self.tail@[i] == cmd@[i + 16],
            decreases 64 - at,
        {
            self.tail[at] = cmd[at + 16];
            at += 1;
        }
        proof {
            assert forall|i: int| 0 <= i < 80 implies #[trigger] cmd_byte(*self, i) == cmd@[i] by {
                if i < 8 {
                    assert(word_byte(sqe.addr3, i) == cmd@[0 + i]);
                } else if i < 16 {
                    assert(word_byte(sqe.addr3_hi, i - 8) == cmd@[8 + (i - 8)]);
                } else {
                    assert(self.tail@[i - 16] == cmd@[(i - 16) + 16]);
                }
            }
        }
    }
}

impl Default for Sqe128 {
    fn default() -> (sqe: Sqe128)
        ensures
            sqe.sqe == blank(Opcode::Nop),
            sqe.tail@ == Seq::new(64, |i: int| 0u8),
    {
        Sqe128::zeroed()
    }
}

/// `IORING_FILE_INDEX_ALLOC`: let the kernel pick a free direct descriptor slot
/// for opcodes that install one. The chosen slot comes back in `cqe.res`.
pub const FILE_INDEX_ALLOC: u32 = 0xffff_ffff;

/// `IORING_REGISTER_FILES_SKIP`: leave this fd table entry untouched during a
/// files update.
pub const REGISTER_FILES_SKIP: i32 = -2;

/// `struct io_uring_cqe`, the 16-byte completion queue entry.
#[derive(Clone, Copy, Debug)]
pub struct Cqe {
    pub user_data: u64,
    pub res: i32,
    pub flags: CqeFlags,
}

impl Cqe {
    /// The provided-buffer ID, valid only when [`CqeFlags::BUFFER`] is set.
    pub fn buffer_id(&self) -> (id: u16)
        ensures
            id == buffer_id(self.flags),
    {
        let bits = self.flags.bits();
        proof {
            assert((bits >> 16) as u16 == bits / 0x1_0000) by (bit_vector);
        }
        (bits >> CQE_BUFFER_SHIFT) as u16
    }

    /// The entry the kernel wrote as these two words.
    pub fn from_words(words: (u64, u64)) -> (cqe: Cqe)
        ensures
            cqe == cqe_of_words(words),
    {
        Cqe {
            user_data: words.0,
            res: (words.1 as u32) as i32,
            flags: CqeFlags::from_bits_retain((words.1 / 0x1_0000_0000) as u32),
        }
    }
}

/// The buffer ID in a completion's flags: their upper half.
pub open spec fn buffer_id(flags: CqeFlags) -> u16 {
    (flags.bits / 0x1_0000) as u16
}

/// A completion in memory: `user_data`, then the result and the flags, each in
/// half a word.
pub open spec fn cqe_of_words(words: (u64, u64)) -> Cqe {
    Cqe {
        user_data: words.0,
        res: (words.1 as u32) as i32,
        flags: CqeFlags { bits: (words.1 / 0x1_0000_0000) as u32 },
    }
}

/// A 32-byte completion queue entry.
///
/// Under [`SetupFlags::CQE32`] this is the CQE array element type and the ring
/// stride is 32. Under [`SetupFlags::CQE_MIXED`] the stride stays 16 and this
/// overlays two adjacent slots, marked by [`CqeFlags::F32`]; the kernel pads the
/// wrap with a [`CqeFlags::SKIP`] entry when a 32-byte CQE will not fit.
#[derive(Clone, Copy, Debug)]
pub struct Cqe32 {
    pub cqe: Cqe,
    pub big_cqe: [u64; 2],
}

/// `IORING_CQE_BUFFER_SHIFT`: bit position of the buffer ID in `cqe.flags`.
pub const CQE_BUFFER_SHIFT: u32 = 16;

/// `IORING_CQE_F_TSTAMP_HW`. Deliberately not part of [`CqeFlags`]: it occupies
/// the same bit as the low bit of the provided-buffer ID and is only meaningful
/// for `SOCKET_URING_OP_TX_TIMESTAMP` completions.
pub const CQE_F_TSTAMP_HW: u32 = 0x1_0000;

/// `IORING_OFF_SQ_RING`
pub const OFF_SQ_RING: u64 = 0;
/// `IORING_OFF_CQ_RING`
pub const OFF_CQ_RING: u64 = 0x8000000;
/// `IORING_OFF_SQES`
pub const OFF_SQES: u64 = 0x10000000;
/// `IORING_OFF_PBUF_RING`. OR in `bgid << OFF_PBUF_SHIFT`.
pub const OFF_PBUF_RING: u64 = 0x80000000;
/// `IORING_OFF_PBUF_SHIFT`
pub const OFF_PBUF_SHIFT: u32 = 16;
/// `IORING_OFF_MMAP_MASK`
pub const OFF_MMAP_MASK: u64 = 0xf8000000;

/// `struct io_sqring_offsets`
#[derive(Clone, Copy, Debug, Default)]
pub struct SqRingOffsets {
    pub head: u32,
    pub tail: u32,
    pub ring_mask: u32,
    pub ring_entries: u32,
    pub flags: u32,
    pub dropped: u32,
    pub array: u32,
    pub resv1: u32,
    pub user_addr: u64,
}

/// `struct io_cqring_offsets`
#[derive(Clone, Copy, Debug, Default)]
pub struct CqRingOffsets {
    pub head: u32,
    pub tail: u32,
    pub ring_mask: u32,
    pub ring_entries: u32,
    pub overflow: u32,
    pub cqes: u32,
    pub flags: u32,
    pub resv1: u32,
    pub user_addr: u64,
}

/// `struct io_uring_params`
#[derive(Clone, Copy, Debug)]
pub struct Params {
    pub sq_entries: u32,
    pub cq_entries: u32,
    pub flags: SetupFlags,
    pub sq_thread_cpu: u32,
    pub sq_thread_idle: u32,
    pub features: Features,
    pub wq_fd: u32,
    pub resv: [u32; 3],
    pub sq_off: SqRingOffsets,
    pub cq_off: CqRingOffsets,
}

/// What a caller starts from: nothing asked for.
pub open spec fn no_params() -> Params {
    Params {
        sq_entries: 0,
        cq_entries: 0,
        flags: SetupFlags { bits: 0 },
        sq_thread_cpu: 0,
        sq_thread_idle: 0,
        features: Features { bits: 0 },
        wq_fd: 0,
        resv: [0, 0, 0],
        sq_off: SqRingOffsets {
            head: 0,
            tail: 0,
            ring_mask: 0,
            ring_entries: 0,
            flags: 0,
            dropped: 0,
            array: 0,
            resv1: 0,
            user_addr: 0,
        },
        cq_off: CqRingOffsets {
            head: 0,
            tail: 0,
            ring_mask: 0,
            ring_entries: 0,
            overflow: 0,
            cqes: 0,
            flags: 0,
            resv1: 0,
            user_addr: 0,
        },
    }
}

/// The 120 bytes of the structure as the kernel reads and writes them, four at a
/// time.
pub open spec fn params_words(p: Params) -> Seq<u32> {
    seq![
        p.sq_entries,
        p.cq_entries,
        p.flags.bits,
        p.sq_thread_cpu,
        p.sq_thread_idle,
        p.features.bits,
        p.wq_fd,
        p.resv@[0],
        p.resv@[1],
        p.resv@[2],
        p.sq_off.head,
        p.sq_off.tail,
        p.sq_off.ring_mask,
        p.sq_off.ring_entries,
        p.sq_off.flags,
        p.sq_off.dropped,
        p.sq_off.array,
        p.sq_off.resv1,
        p.sq_off.user_addr as u32,
        (p.sq_off.user_addr / 0x1_0000_0000) as u32,
        p.cq_off.head,
        p.cq_off.tail,
        p.cq_off.ring_mask,
        p.cq_off.ring_entries,
        p.cq_off.overflow,
        p.cq_off.cqes,
        p.cq_off.flags,
        p.cq_off.resv1,
        p.cq_off.user_addr as u32,
        (p.cq_off.user_addr / 0x1_0000_0000) as u32,
    ]
}

impl Params {
    /// The structure as the kernel reads it.
    pub fn to_words(&self) -> (words: [u32; 30])
        ensures
            words@ == params_words(*self),
    {
        let words = [
            self.sq_entries,
            self.cq_entries,
            self.flags.bits,
            self.sq_thread_cpu,
            self.sq_thread_idle,
            self.features.bits,
            self.wq_fd,
            self.resv[0],
            self.resv[1],
            self.resv[2],
            self.sq_off.head,
            self.sq_off.tail,
            self.sq_off.ring_mask,
            self.sq_off.ring_entries,
            self.sq_off.flags,
            self.sq_off.dropped,
            self.sq_off.array,
            self.sq_off.resv1,
            self.sq_off.user_addr as u32,
            (self.sq_off.user_addr / 0x1_0000_0000) as u32,
            self.cq_off.head,
            self.cq_off.tail,
            self.cq_off.ring_mask,
            self.cq_off.ring_entries,
            self.cq_off.overflow,
            self.cq_off.cqes,
            self.cq_off.flags,
            self.cq_off.resv1,
            self.cq_off.user_addr as u32,
            (self.cq_off.user_addr / 0x1_0000_0000) as u32,
        ];
        proof {
            assert(words@ =~= params_words(*self));
        }
        words
    }

    /// The structure the kernel wrote.
    pub fn from_words(words: &[u32; 30]) -> (params: Params)
        ensures
            params_words(params) == words@,
    {
        let params = Params {
            sq_entries: words[0],
            cq_entries: words[1],
            flags: SetupFlags::from_bits_retain(words[2]),
            sq_thread_cpu: words[3],
            sq_thread_idle: words[4],
            features: Features::from_bits_retain(words[5]),
            wq_fd: words[6],
            resv: [words[7], words[8], words[9]],
            sq_off: SqRingOffsets {
                head: words[10],
                tail: words[11],
                ring_mask: words[12],
                ring_entries: words[13],
                flags: words[14],
                dropped: words[15],
                array: words[16],
                resv1: words[17],
                user_addr: words[18] as u64 + words[19] as u64 * 0x1_0000_0000,
            },
            cq_off: CqRingOffsets {
                head: words[20],
                tail: words[21],
                ring_mask: words[22],
                ring_entries: words[23],
                overflow: words[24],
                cqes: words[25],
                flags: words[26],
                resv1: words[27],
                user_addr: words[28] as u64 + words[29] as u64 * 0x1_0000_0000,
            },
        };
        proof {
            lemma_halves(words@[18], words@[19]);
            lemma_halves(words@[28], words@[29]);
            assert(params_words(params) =~= words@);
        }
        params
    }
}

/// The halves of a word are the ones it was put together from.
proof fn lemma_halves(low: u32, high: u32)
    ensures
        ((low + high * 0x1_0000_0000) as u64) as u32 == low,
        ((low + high * 0x1_0000_0000) as u64) / 0x1_0000_0000 == high,
{
    let word = (low + high * 0x1_0000_0000) as u64;
    assert(word as u32 == word % 0x1_0000_0000) by (bit_vector);
}

/// No two structures look the same to the kernel.
pub proof fn lemma_params_words_are_unique(a: Params, b: Params)
    requires
        params_words(a) == params_words(b),
    ensures
        a == b,
{
    let x = params_words(a);
    let y = params_words(b);
    assert(x[0] == y[0]);
    assert(x[1] == y[1]);
    assert(x[2] == y[2]);
    assert(x[3] == y[3]);
    assert(x[4] == y[4]);
    assert(x[5] == y[5]);
    assert(x[6] == y[6]);
    assert(x[7] == y[7]);
    assert(x[8] == y[8]);
    assert(x[9] == y[9]);
    assert(x[10] == y[10]);
    assert(x[11] == y[11]);
    assert(x[12] == y[12]);
    assert(x[13] == y[13]);
    assert(x[14] == y[14]);
    assert(x[15] == y[15]);
    assert(x[16] == y[16]);
    assert(x[17] == y[17]);
    assert(x[18] == y[18]);
    assert(x[19] == y[19]);
    assert(x[20] == y[20]);
    assert(x[21] == y[21]);
    assert(x[22] == y[22]);
    assert(x[23] == y[23]);
    assert(x[24] == y[24]);
    assert(x[25] == y[25]);
    assert(x[26] == y[26]);
    assert(x[27] == y[27]);
    assert(x[28] == y[28]);
    assert(x[29] == y[29]);
    assert(a.resv =~= b.resv);
    let (au, bu, ac, bc) = (
        a.sq_off.user_addr,
        b.sq_off.user_addr,
        a.cq_off.user_addr,
        b.cq_off.user_addr,
    );
    assert(au as u32 == au % 0x1_0000_0000 && bu as u32 == bu % 0x1_0000_0000 && ac as u32 == ac
        % 0x1_0000_0000 && bc as u32 == bc % 0x1_0000_0000) by (bit_vector);
}

impl Default for Params {
    fn default() -> (params: Params)
        ensures
            params == no_params(),
    {
        let params = Params {
            sq_entries: 0,
            cq_entries: 0,
            flags: SetupFlags::empty(),
            sq_thread_cpu: 0,
            sq_thread_idle: 0,
            features: Features::empty(),
            wq_fd: 0,
            resv: [0, 0, 0],
            sq_off: SqRingOffsets {
                head: 0,
                tail: 0,
                ring_mask: 0,
                ring_entries: 0,
                flags: 0,
                dropped: 0,
                array: 0,
                resv1: 0,
                user_addr: 0,
            },
            cq_off: CqRingOffsets {
                head: 0,
                tail: 0,
                ring_mask: 0,
                ring_entries: 0,
                overflow: 0,
                cqes: 0,
                flags: 0,
                resv1: 0,
                user_addr: 0,
            },
        };
        params
    }
}

/// `struct __kernel_timespec`, as pointed at by `Timeout`, `LinkTimeout`,
/// [`SyncCancelReg::timeout`] and [`RegWait::ts`].
///
/// Note this is *not* libc's `timespec`: `tv_nsec` is 64-bit here on every
/// architecture.
#[derive(Clone, Copy, Debug, Default, PartialEq, Eq, Structural)]
pub struct Timespec {
    pub tv_sec: i64,
    pub tv_nsec: i64,
}

/// `enum io_uring_msg_ring_flags`, written into [`Sqe::addr`] for `MsgRing`.
#[derive(Clone, Copy, Debug, PartialEq, Eq, Structural)]
pub enum MsgRingOp {
    /// Pass `sqe.len` as the target `res` and `sqe.addr2` as its `user_data`.
    Data,
    SendFd,
}

/// `SPLICE_F_FD_IN_FIXED`, in [`Sqe::op_flags`] for `Splice` and `Tee`.
pub const SPLICE_F_FD_IN_FIXED: u32 = 0x8000_0000;

/// `IORING_NOTIF_USAGE_ZC_COPIED`: set in `cqe.res` of a [`CqeFlags::NOTIF`]
/// completion when the zero-copy send fell back to copying.
pub const NOTIF_USAGE_ZC_COPIED: u32 = 0x8000_0000;

/// `enum io_uring_register_op`.
#[derive(Clone, Copy, Debug, PartialEq, Eq, Structural)]
pub enum RegisterOp {
    Buffers,
    UnregisterBuffers,
    Files,
    UnregisterFiles,
    Eventfd,
    UnregisterEventfd,
    FilesUpdate,
    EventfdAsync,
    Probe,
    Personality,
    UnregisterPersonality,
    Restrictions,
    EnableRings,
    /// Tagged variant of [`RegisterOp::Files`]; takes a [`RsrcRegister`].
    Files2,
    /// Takes a [`RsrcUpdate2`].
    FilesUpdate2,
    Buffers2,
    BuffersUpdate,
    IowqAff,
    UnregisterIowqAff,
    IowqMaxWorkers,
    RingFds,
    UnregisterRingFds,
    /// Takes a [`BufReg`].
    PbufRing,
    UnregisterPbufRing,
    /// Takes a [`SyncCancelReg`].
    SyncCancel,
    /// Takes a [`FileIndexRange`].
    FileAllocRange,
    /// Takes a [`BufStatus`].
    PbufStatus,
    Napi,
    UnregisterNapi,
    Clock,
    CloneBuffers,
    SendMsgRing,
    ZcrxIfq,
    ResizeRings,
    MemRegion,
    /// See `linux/io_uring/query.h`.
    Query,
    ZcrxCtrl,
    BpfFilter,
}

/// `IORING_REGISTER_USE_REGISTERED_RING`: OR into the [`RegisterOp`] value to
/// pass a registered ring index instead of an fd.
pub const REGISTER_USE_REGISTERED_RING: u32 = 0x8000_0000;

/// `struct io_uring_rsrc_register`
#[derive(Clone, Copy, Debug, Default)]
pub struct RsrcRegister {
    pub nr: u32,
    pub flags: RsrcRegisterFlags,
    pub resv: u64,
    pub data: u64,
    pub tags: u64,
}

/// `struct io_uring_rsrc_update`
#[derive(Clone, Copy, Debug, Default)]
pub struct RsrcUpdate {
    pub offset: u32,
    pub resv: u32,
    pub data: u64,
}

/// `struct io_uring_rsrc_update2`
#[derive(Clone, Copy, Debug, Default)]
pub struct RsrcUpdate2 {
    pub offset: u32,
    pub resv: u32,
    pub data: u64,
    pub tags: u64,
    pub nr: u32,
    pub resv2: u32,
}

/// `struct io_uring_file_index_range`, for [`RegisterOp::FileAllocRange`].
#[derive(Clone, Copy, Debug, Default)]
pub struct FileIndexRange {
    pub off: u32,
    pub len: u32,
    pub resv: u64,
}

/// `IO_URING_OP_SUPPORTED`, [`ProbeOp::flags`].
pub const PROBE_OP_SUPPORTED: u16 = 1 << 0;

/// `struct io_uring_probe_op`
#[derive(Clone, Copy, Debug, Default)]
pub struct ProbeOp {
    pub op: u8,
    pub resv: u8,
    pub flags: u16,
    pub resv2: u32,
}

/// `struct io_uring_probe`, for [`RegisterOp::Probe`].
///
/// The C type ends in a flexible `ops[]` array; allocate
/// `size_of::<Probe>() + n * size_of::<ProbeOp>()` and index past the header.
#[derive(Clone, Copy, Debug, Default)]
pub struct Probe {
    pub last_op: u8,
    pub ops_len: u8,
    pub resv: u16,
    pub resv2: [u32; 3],
}

/// `struct io_uring_sync_cancel_reg`, for [`RegisterOp::SyncCancel`].
#[derive(Clone, Copy, Debug, Default)]
pub struct SyncCancelReg {
    pub addr: u64,
    pub fd: i32,
    pub flags: AsyncCancelFlags,
    pub timeout: Timespec,
    pub opcode: u8,
    pub pad: [u8; 7],
    pub pad2: [u64; 3],
}

/// `struct io_uring_buf`, one entry in a provided-buffer ring.
#[derive(Clone, Copy, Debug, Default)]
pub struct Buf {
    pub addr: u64,
    pub len: u32,
    pub bid: u16,
    pub resv: u16,
}

/// `struct io_uring_buf_ring` header.
///
/// The ring is an array of [`Buf`]; this header is overlaid on entry 0, with
/// `tail` sharing storage with that entry's `resv` field. Entry 0 is therefore
/// usable as a buffer only once the tail has been read.
#[derive(Clone, Copy, Debug, Default)]
pub struct BufRing {
    pub resv1: u64,
    pub resv2: u32,
    pub resv3: u16,
    pub tail: u16,
}

/// `struct io_uring_buf_reg`, for [`RegisterOp::PbufRing`].
#[derive(Clone, Copy, Debug, Default)]
pub struct BufReg {
    pub ring_addr: u64,
    pub ring_entries: u32,
    pub bgid: u16,
    pub flags: PbufRingFlags,
    pub min_left: u32,
    pub resv: [u32; 5],
}

/// `struct io_uring_buf_status`, for [`RegisterOp::PbufStatus`].
#[derive(Clone, Copy, Debug, Default)]
pub struct BufStatus {
    /// Input: the buffer group to query.
    pub buf_group: u32,
    /// Output: the kernel's current head index.
    pub head: u32,
    pub resv: [u32; 8],
}

/// `struct io_uring_getevents_arg`, the `arg` for `io_uring_enter(2)` with
/// [`EnterFlags::EXT_ARG`]. Gated by [`Features::EXT_ARG`].
///
/// `ts` is a userspace pointer to a [`Timespec`].
#[derive(Clone, Copy, Debug, Default)]
pub struct GeteventsArg {
    pub sigmask: u64,
    pub sigmask_sz: u32,
    /// Gated by [`Features::MIN_TIMEOUT`].
    pub min_wait_usec: u32,
    pub ts: u64,
}

/// `struct io_uring_reg_wait`, an entry in a registered wait region.
///
/// Register the region with [`RegisterOp::MemRegion`] and
/// [`MEM_REGION_REG_WAIT_ARG`], then pass an *index* into it as the `arg` to
/// `io_uring_enter(2)` with [`EnterFlags::EXT_ARG_REG`]. This avoids copying the
/// wait arguments into the kernel on every enter.
#[derive(Clone, Copy, Debug, Default)]
pub struct RegWait {
    pub ts: Timespec,
    pub min_wait_usec: u32,
    pub flags: RegWaitFlags,
    pub sigmask: u64,
    pub sigmask_sz: u32,
    pub pad: [u32; 3],
    pub pad2: [u64; 2],
}

/// `struct io_uring_region_desc`
#[derive(Clone, Copy, Debug, Default)]
pub struct RegionDesc {
    pub user_addr: u64,
    pub size: u64,
    /// [`MEM_REGION_TYPE_USER`] to use caller-provided memory.
    pub flags: u32,
    pub id: u32,
    pub mmap_offset: u64,
    pub resv: [u64; 4],
}

/// `struct io_uring_mem_region_reg`, for [`RegisterOp::MemRegion`].
#[derive(Clone, Copy, Debug, Default)]
pub struct MemRegionReg {
    /// Pointer to a [`RegionDesc`].
    pub region_uptr: u64,
    pub flags: u64,
    pub resv: [u64; 2],
}

/// `IORING_MEM_REGION_TYPE_USER`, [`RegionDesc::flags`].
pub const MEM_REGION_TYPE_USER: u32 = 1;

/// `IORING_MEM_REGION_REG_WAIT_ARG`, [`MemRegionReg::flags`]: expose the region
/// as the [`RegWait`] array for [`EnterFlags::EXT_ARG_REG`].
pub const MEM_REGION_REG_WAIT_ARG: u64 = 1;

/// `struct io_uring_attr_pi`, pointed at by [`Sqe::addr3`] as `attr_ptr` when
/// [`RwAttrFlags::PI`] is set in [`Sqe::addr3_hi`].
#[derive(Clone, Copy, Debug, Default)]
pub struct AttrPi {
    pub flags: u16,
    pub app_tag: u16,
    pub len: u32,
    pub addr: u64,
    pub seed: u64,
    pub rsvd: u64,
}

/// `enum io_wq_type`. Indexes the two-element array passed to
/// [`RegisterOp::IowqMaxWorkers`].
#[derive(Clone, Copy, Debug, PartialEq, Eq, Structural)]
pub enum WqType {
    Bound,
    Unbound,
}

/// `enum io_uring_register_restriction_op`, [`Restriction::opcode`].
#[derive(Clone, Copy, Debug, PartialEq, Eq, Structural)]
pub enum RestrictionOp {
    /// Allow one [`RegisterOp`]; [`Restriction::arg`] is its value.
    Register,
    /// Allow one [`Opcode`]; [`Restriction::arg`] is its value.
    SqeOp,
    /// [`Restriction::arg`] is a [`SqeFlags`] mask of permitted flags.
    SqeFlagsAllowed,
    /// [`Restriction::arg`] is a [`SqeFlags`] mask required on every submission.
    SqeFlagsRequired,
}

/// `struct io_uring_restriction`, for [`RegisterOp::Restrictions`].
#[derive(Clone, Copy, Debug, Default)]
pub struct Restriction {
    /// A [`RestrictionOp`].
    pub opcode: u16,
    /// Union slot at offset 2: `register_op` | `sqe_op` | `sqe_flags`, selected
    /// by [`Restriction::opcode`].
    pub arg: u8,
    pub resv: u8,
    pub resv2: [u32; 3],
}

/// `struct io_uring_task_restriction` header.
///
/// The C type ends in a flexible `restrictions[]` array; allocate
/// `size_of::<TaskRestriction>() + nr_res * size_of::<Restriction>()`.
#[derive(Clone, Copy, Debug, Default)]
pub struct TaskRestriction {
    pub flags: u16,
    pub nr_res: u16,
    pub resv: [u32; 3],
}

/// `struct io_uring_clock_register`, for [`RegisterOp::Clock`]. Selects the
/// clock source used by timeouts on this ring.
#[derive(Clone, Copy, Debug, Default)]
pub struct ClockRegister {
    pub clockid: u32,
    pub resv: [u32; 3],
}

/// `struct io_uring_clone_buffers`, for [`RegisterOp::CloneBuffers`].
#[derive(Clone, Copy, Debug, Default)]
pub struct CloneBuffers {
    pub src_fd: u32,
    pub flags: CloneBuffersFlags,
    pub src_off: u32,
    pub dst_off: u32,
    pub nr: u32,
    pub pad: [u32; 3],
}

/// `struct io_uring_napi`, for [`RegisterOp::Napi`].
///
/// Kernels with static tracking put `opcode`, `pad[2]`, `op_param` and `resv` in
/// place of `pad` and `resv`. The size is the same, so such a kernel reads the
/// trailing bytes as `opcode == 0` (register) with `op_param == 0` (dynamic
/// tracking).
#[derive(Clone, Copy, Debug, Default)]
pub struct Napi {
    pub busy_poll_to: u32,
    pub prefer_busy_poll: u8,
    pub pad: [u8; 3],
    pub resv: u64,
}

/// `struct io_uring_files_update`. Deprecated in favour of [`RsrcUpdate`].
#[derive(Clone, Copy, Debug, Default)]
pub struct FilesUpdate {
    pub offset: u32,
    pub resv: u32,
    /// Pointer to an array of `i32`.
    pub fds: u64,
}

/// `enum io_uring_socket_op`, written into [`Sqe::addr2`] as `cmd_op` for
/// `UringCmd` on a socket.
#[derive(Clone, Copy, Debug, PartialEq, Eq, Structural)]
pub enum SocketOp {
    Siocinq,
    Siocoutq,
    /// [`Sqe::addr`] holds `level | (optname << 32)`, [`Sqe::addr3`] is
    /// `optval` and [`Sqe::file_index`] is `optlen`.
    Getsockopt,
    Setsockopt,
    TxTimestamp,
    Getsockname,
}

/// `struct io_uring_recvmsg_out`, the header written into the buffer by a
/// `Recvmsg` completion.
#[derive(Clone, Copy, Debug, Default)]
pub struct RecvmsgOut {
    pub namelen: u32,
    pub controllen: u32,
    pub payloadlen: u32,
    pub flags: u32,
}

/// `struct io_timespec`, as returned by [`SocketOp::TxTimestamp`].
///
/// Unlike [`Timespec`] both fields are unsigned.
#[derive(Clone, Copy, Debug, Default, PartialEq, Eq, Structural)]
pub struct IoTimespec {
    pub tv_sec: u64,
    pub tv_nsec: u64,
}

/// `IORING_TIMESTAMP_HW_SHIFT`: see [`CQE_F_TSTAMP_HW`].
pub const TIMESTAMP_HW_SHIFT: u32 = 16;

/// `IORING_TIMESTAMP_TYPE_SHIFT`: bit of `cqe.flags` holding the timestamp type.
pub const TIMESTAMP_TYPE_SHIFT: u32 = TIMESTAMP_HW_SHIFT + 1;

/// `struct io_uring_zcrx_rqe`, an entry in the refill queue.
#[derive(Clone, Copy, Debug, Default)]
pub struct ZcrxRqe {
    pub off: u64,
    pub len: u32,
    pub pad: u32,
}

/// `struct io_uring_zcrx_cqe`, the 16-byte extension of a `RecvZc` completion
/// on a [`SetupFlags::CQE32`] ring.
#[derive(Clone, Copy, Debug, Default)]
pub struct ZcrxCqe {
    pub off: u64,
    pub pad: u64,
}

/// `IORING_ZCRX_AREA_SHIFT`: bit from which the area id is encoded into offsets.
pub const ZCRX_AREA_SHIFT: u64 = 48;

/// `IORING_ZCRX_AREA_MASK`
pub const ZCRX_AREA_MASK: u64 = 0xffff_0000_0000_0000;

/// `struct io_uring_zcrx_offsets`
#[derive(Clone, Copy, Debug, Default)]
pub struct ZcrxOffsets {
    pub head: u32,
    pub tail: u32,
    pub rqes: u32,
    pub resv2: u32,
    pub resv: [u64; 2],
}

/// `struct io_uring_zcrx_area_reg`
#[derive(Clone, Copy, Debug, Default)]
pub struct ZcrxAreaReg {
    pub addr: u64,
    pub len: u64,
    pub rq_area_token: u64,
    pub flags: ZcrxAreaFlags,
    pub dmabuf_fd: u32,
    pub resv2: [u64; 2],
}

/// `struct io_uring_zcrx_ifq_reg`, for [`RegisterOp::ZcrxIfq`].
#[derive(Clone, Copy, Debug, Default)]
pub struct ZcrxIfqReg {
    pub if_idx: u32,
    pub if_rxq: u32,
    pub rq_entries: u32,
    pub flags: ZcrxRegFlags,
    /// Pointer to a [`ZcrxAreaReg`].
    pub area_ptr: u64,
    /// Pointer to a [`RegionDesc`].
    pub region_ptr: u64,
    pub offsets: ZcrxOffsets,
    pub zcrx_id: u32,
    /// Requested rx page size; honoured only with [`ZcrxFeatures::RX_PAGE_SIZE`].
    pub rx_buf_len: u32,
    pub resv: [u64; 3],
}

/// `enum zcrx_ctrl_op`, [`ZcrxCtrl::op`].
#[derive(Clone, Copy, Debug, PartialEq, Eq, Structural)]
pub enum ZcrxCtrlOp {
    FlushRq,
    Export,
}

/// `struct zcrx_ctrl`, for [`RegisterOp::ZcrxCtrl`].
///
/// The trailing 48 bytes are a union of `zcrx_ctrl_export` and
/// `zcrx_ctrl_flush_rq`; only the export arm carries data, so it is named here.
/// For [`ZcrxCtrlOp::FlushRq`] leave the whole tail zeroed.
#[derive(Clone, Copy, Debug, Default)]
pub struct ZcrxCtrl {
    pub zcrx_id: u32,
    /// A [`ZcrxCtrlOp`].
    pub op: u32,
    pub resv: [u64; 2],
    /// Union slot at offset 24: `zcrx_ctrl_export::zcrx_fd`.
    pub zcrx_fd: u32,
    /// Union slot at offset 28: `zcrx_ctrl_export::__resv1`.
    pub payload_resv: [u32; 11],
}

/// Every operation has the number the kernel knows it by.
pub proof fn lemma_opcode_numbers()
    ensures
        Opcode::Nop as u8 == 0,
        Opcode::Readv as u8 == 1,
        Opcode::Writev as u8 == 2,
        Opcode::Fsync as u8 == 3,
        Opcode::ReadFixed as u8 == 4,
        Opcode::WriteFixed as u8 == 5,
        Opcode::PollAdd as u8 == 6,
        Opcode::PollRemove as u8 == 7,
        Opcode::SyncFileRange as u8 == 8,
        Opcode::Sendmsg as u8 == 9,
        Opcode::Recvmsg as u8 == 10,
        Opcode::Timeout as u8 == 11,
        Opcode::TimeoutRemove as u8 == 12,
        Opcode::Accept as u8 == 13,
        Opcode::AsyncCancel as u8 == 14,
        Opcode::LinkTimeout as u8 == 15,
        Opcode::Connect as u8 == 16,
        Opcode::Fallocate as u8 == 17,
        Opcode::Openat as u8 == 18,
        Opcode::Close as u8 == 19,
        Opcode::FilesUpdate as u8 == 20,
        Opcode::Statx as u8 == 21,
        Opcode::Read as u8 == 22,
        Opcode::Write as u8 == 23,
        Opcode::Fadvise as u8 == 24,
        Opcode::Madvise as u8 == 25,
        Opcode::Send as u8 == 26,
        Opcode::Recv as u8 == 27,
        Opcode::Openat2 as u8 == 28,
        Opcode::EpollCtl as u8 == 29,
        Opcode::Splice as u8 == 30,
        Opcode::ProvideBuffers as u8 == 31,
        Opcode::RemoveBuffers as u8 == 32,
        Opcode::Tee as u8 == 33,
        Opcode::Shutdown as u8 == 34,
        Opcode::Renameat as u8 == 35,
        Opcode::Unlinkat as u8 == 36,
        Opcode::Mkdirat as u8 == 37,
        Opcode::Symlinkat as u8 == 38,
        Opcode::Linkat as u8 == 39,
        Opcode::MsgRing as u8 == 40,
        Opcode::Fsetxattr as u8 == 41,
        Opcode::Setxattr as u8 == 42,
        Opcode::Fgetxattr as u8 == 43,
        Opcode::Getxattr as u8 == 44,
        Opcode::Socket as u8 == 45,
        Opcode::UringCmd as u8 == 46,
        Opcode::SendZc as u8 == 47,
        Opcode::SendmsgZc as u8 == 48,
        Opcode::ReadMultishot as u8 == 49,
        Opcode::Waitid as u8 == 50,
        Opcode::FutexWait as u8 == 51,
        Opcode::FutexWake as u8 == 52,
        Opcode::FutexWaitv as u8 == 53,
        Opcode::FixedFdInstall as u8 == 54,
        Opcode::Ftruncate as u8 == 55,
        Opcode::Bind as u8 == 56,
        Opcode::Listen as u8 == 57,
        Opcode::RecvZc as u8 == 58,
        Opcode::EpollWait as u8 == 59,
        Opcode::ReadvFixed as u8 == 60,
        Opcode::WritevFixed as u8 == 61,
        Opcode::Pipe as u8 == 62,
        Opcode::Nop128 as u8 == 63,
        Opcode::UringCmd128 as u8 == 64,
{
}

/// Every registration has the number the kernel knows it by.
pub proof fn lemma_register_op_numbers()
    ensures
        RegisterOp::Buffers as u32 == 0,
        RegisterOp::UnregisterBuffers as u32 == 1,
        RegisterOp::Files as u32 == 2,
        RegisterOp::UnregisterFiles as u32 == 3,
        RegisterOp::Eventfd as u32 == 4,
        RegisterOp::UnregisterEventfd as u32 == 5,
        RegisterOp::FilesUpdate as u32 == 6,
        RegisterOp::EventfdAsync as u32 == 7,
        RegisterOp::Probe as u32 == 8,
        RegisterOp::Personality as u32 == 9,
        RegisterOp::UnregisterPersonality as u32 == 10,
        RegisterOp::Restrictions as u32 == 11,
        RegisterOp::EnableRings as u32 == 12,
        RegisterOp::Files2 as u32 == 13,
        RegisterOp::FilesUpdate2 as u32 == 14,
        RegisterOp::Buffers2 as u32 == 15,
        RegisterOp::BuffersUpdate as u32 == 16,
        RegisterOp::IowqAff as u32 == 17,
        RegisterOp::UnregisterIowqAff as u32 == 18,
        RegisterOp::IowqMaxWorkers as u32 == 19,
        RegisterOp::RingFds as u32 == 20,
        RegisterOp::UnregisterRingFds as u32 == 21,
        RegisterOp::PbufRing as u32 == 22,
        RegisterOp::UnregisterPbufRing as u32 == 23,
        RegisterOp::SyncCancel as u32 == 24,
        RegisterOp::FileAllocRange as u32 == 25,
        RegisterOp::PbufStatus as u32 == 26,
        RegisterOp::Napi as u32 == 27,
        RegisterOp::UnregisterNapi as u32 == 28,
        RegisterOp::Clock as u32 == 29,
        RegisterOp::CloneBuffers as u32 == 30,
        RegisterOp::SendMsgRing as u32 == 31,
        RegisterOp::ZcrxIfq as u32 == 32,
        RegisterOp::ResizeRings as u32 == 33,
        RegisterOp::MemRegion as u32 == 34,
        RegisterOp::Query as u32 == 35,
        RegisterOp::ZcrxCtrl as u32 == 36,
        RegisterOp::BpfFilter as u32 == 37,
{
}

/// What a ring is sent has the number the kernel knows it by.
pub proof fn lemma_msg_ring_op_numbers()
    ensures
        MsgRingOp::Data as u64 == 0,
        MsgRingOp::SendFd as u64 == 1,
{
}

/// The number a word stores for a signed one: itself, or what is left of the width
/// under it where it is negative.
pub open spec fn stored(value: i32) -> int {
    if value >= 0 {
        value as int
    } else {
        value + 0x1_0000_0000
    }
}

/// A signed number cast to an unsigned one of its width, and back.
pub proof fn lemma_stored(value: i32, word: u32)
    ensures
        (value as u32) == stored(value),
        stored(word as i32) == word,
{
    assert((value as u32) == (if value >= 0 {
        value as int
    } else {
        value + 0x1_0000_0000
    }) && word == (if (word as i32) >= 0 {
        (word as i32) as int
    } else {
        (word as i32) + 0x1_0000_0000
    })) by (bit_vector);
}

/// What is below a power of the base and what is above it are read back.
proof fn lemma_low_and_high(low: int, high: int, base: int)
    requires
        0 <= low < base,
        0 <= high,
    ensures
        (low + high * base) % base == low,
        (low + high * base) / base == high,
{
    vstd::arithmetic::div_mod::lemma_fundamental_div_mod_converse(
        low + high * base,
        base,
        high,
        low,
    );
}

/// Every field of an entry is read back out of its eight words at its offset, so the
/// kernel sees what was set: in the first word the opcode is byte 0, the flags byte
/// 1, `ioprio` bytes 2 and 3 and `fd` bytes 4 to 7; `len` and `op_flags` are the
/// halves of the fourth; `buf_index`, `personality` and `file_index` are at bytes 40,
/// 42 and 44.
pub proof fn lemma_every_field_is_read_back(sqe: Sqe)
    ensures
        ({
            let words = sqe_words(sqe);
            &&& words.len() == 8
            &&& words[0] % 0x100 == sqe.opcode as u8
            &&& words[0] / 0x100 % 0x100 == sqe.flags.bits
            &&& words[0] / 0x1_0000 % 0x1_0000 == sqe.ioprio
            &&& words[0] / 0x1_0000_0000 == stored(sqe.fd)
            &&& words[1] == sqe.addr2
            &&& words[2] == sqe.addr
            &&& words[3] % 0x1_0000_0000 == sqe.len
            &&& words[3] / 0x1_0000_0000 == sqe.op_flags
            &&& words[4] == sqe.user_data
            &&& words[5] % 0x1_0000 == sqe.buf_index
            &&& words[5] / 0x1_0000 % 0x1_0000 == sqe.personality
            &&& words[5] / 0x1_0000_0000 == sqe.file_index
            &&& words[6] == sqe.addr3
            &&& words[7] == sqe.addr3_hi
        }),
{
    lemma_stored(sqe.fd, 0);
    let (opcode, flags, ioprio, fd) = (
        sqe.opcode as u8 as int,
        sqe.flags.bits as int,
        sqe.ioprio as int,
        stored(sqe.fd),
    );
    lemma_low_and_high(opcode, flags + ioprio * 0x100 + fd * 0x100_0000, 0x100);
    lemma_low_and_high(flags, ioprio + fd * 0x1_0000, 0x100);
    lemma_low_and_high(opcode + flags * 0x100, ioprio + fd * 0x1_0000, 0x1_0000);
    lemma_low_and_high(ioprio, fd, 0x1_0000);
    lemma_low_and_high(opcode + flags * 0x100 + ioprio * 0x1_0000, fd, 0x1_0000_0000);
    lemma_low_and_high(sqe.len as int, sqe.op_flags as int, 0x1_0000_0000);
    let (index, personality, file) = (
        sqe.buf_index as int,
        sqe.personality as int,
        sqe.file_index as int,
    );
    lemma_low_and_high(index, personality + file * 0x1_0000, 0x1_0000);
    lemma_low_and_high(personality, file, 0x1_0000);
    lemma_low_and_high(index + personality * 0x1_0000, file, 0x1_0000_0000);
}

/// No two different entries look the same to the kernel.
pub proof fn lemma_sqe_words_are_unique(a: Sqe, b: Sqe)
    requires
        sqe_words(a) == sqe_words(b),
    ensures
        a == b,
{
    lemma_every_field_is_read_back(a);
    lemma_every_field_is_read_back(b);
    lemma_opcodes_differ(a.opcode, b.opcode);
}

/// No two operations have the same number.
proof fn lemma_opcodes_differ(a: Opcode, b: Opcode)
    requires
        a as u8 == b as u8,
    ensures
        a == b,
{
}

/// An entry that nothing was set on is zero but for the opcode.
pub proof fn lemma_a_blank_entry_is_zero(opcode: Opcode)
    ensures
        sqe_words(blank(opcode)) == seq![opcode as u8 as u64, 0, 0, 0, 0, 0, 0, 0],
        blank(opcode).opcode == opcode,
{
    lemma_stored(0, 0);
    assert(sqe_words(blank(opcode)) =~= seq![opcode as u8 as u64, 0, 0, 0, 0, 0, 0, 0]);
}

/// A word is put together out of its bytes, the least significant first.
pub proof fn lemma_bytes_make_the_word(word: u64)
    ensures
        word == word_byte(word, 0) + word_byte(word, 1) * 0x100 + word_byte(word, 2) * 0x1_0000
            + word_byte(word, 3) * 0x100_0000 + word_byte(word, 4) * 0x1_0000_0000 + word_byte(
            word,
            5,
        ) * 0x100_0000_0000 + word_byte(word, 6) * 0x1_0000_0000_0000 + word_byte(word, 7)
            * 0x100_0000_0000_0000,
{
    assert(word == (word & 0xff) + ((word >> 8u64) & 0xff) * 0x100 + ((word >> 16u64) & 0xff)
        * 0x1_0000 + ((word >> 24u64) & 0xff) * 0x100_0000 + ((word >> 32u64) & 0xff)
        * 0x1_0000_0000 + ((word >> 40u64) & 0xff) * 0x100_0000_0000 + ((word >> 48u64) & 0xff)
        * 0x1_0000_0000_0000 + ((word >> 56u64) & 0xff) * 0x100_0000_0000_0000) by (bit_vector);
    assert(word >> 0u64 == word && forall|w: u64| #[trigger] (w & 0xff) < 0x100) by (bit_vector);
}

/// The command payload is the last two words of the entry and then the tail, byte by
/// byte: the words come back out of its first sixteen bytes, and nothing else of the
/// entry is in it.
pub proof fn lemma_the_payload_is_at_its_offset(sqe: Sqe128, other: Sqe128, i: int)
    requires
        sqe.sqe.addr3 == other.sqe.addr3,
        sqe.sqe.addr3_hi == other.sqe.addr3_hi,
        sqe.tail@ == other.tail@,
        0 <= i < 80,
    ensures
        cmd_byte(sqe, i) == cmd_byte(other, i),
        16 <= i ==> cmd_byte(sqe, i) == sqe.tail@[i - 16],
        sqe.sqe.addr3 == cmd_byte(sqe, 0) + cmd_byte(sqe, 1) * 0x100 + cmd_byte(sqe, 2) * 0x1_0000
            + cmd_byte(sqe, 3) * 0x100_0000 + cmd_byte(sqe, 4) * 0x1_0000_0000 + cmd_byte(sqe, 5)
            * 0x100_0000_0000 + cmd_byte(sqe, 6) * 0x1_0000_0000_0000 + cmd_byte(sqe, 7)
            * 0x100_0000_0000_0000,
        sqe.sqe.addr3_hi == cmd_byte(sqe, 8) + cmd_byte(sqe, 9) * 0x100 + cmd_byte(sqe, 10)
            * 0x1_0000 + cmd_byte(sqe, 11) * 0x100_0000 + cmd_byte(sqe, 12) * 0x1_0000_0000
            + cmd_byte(sqe, 13) * 0x100_0000_0000 + cmd_byte(sqe, 14) * 0x1_0000_0000_0000
            + cmd_byte(sqe, 15) * 0x100_0000_0000_0000,
{
    lemma_bytes_make_the_word(sqe.sqe.addr3);
    lemma_bytes_make_the_word(sqe.sqe.addr3_hi);
}

/// What a completion says is all there is in its two words: the token is the first,
/// and the result and the flags are the halves of the second, the flags above.
pub proof fn lemma_a_completion_is_its_words(words: (u64, u64))
    ensures
        cqe_of_words(words).user_data == words.0,
        stored(cqe_of_words(words).res) == words.1 % 0x1_0000_0000,
        cqe_of_words(words).flags.bits == words.1 / 0x1_0000_0000,
{
    let word = words.1;
    assert(word as u32 == word % 0x1_0000_0000) by (bit_vector);
    lemma_stored(0, word as u32);
}

/// The buffer a completion names is the upper half of its flags, whatever the lower
/// half holds.
pub proof fn lemma_a_buffer_is_the_upper_half(flags: CqeFlags, id: u16, low: u16)
    ensures
        buffer_id(flags) == flags.bits / 0x1_0000,
        buffer_id(CqeFlags { bits: (id * 0x1_0000 + low) as u32 }) == id,
{
}

/// Every word of the setup structure is where the kernel has it: what is asked for
/// first, then what is reported of the queues, each at its own offset, the two
/// addresses in two words, the lower half first.
pub proof fn lemma_every_parameter_is_read_back(p: Params)
    ensures
        ({
            let words = params_words(p);
            &&& words.len() == 30
            &&& words[0] == p.sq_entries
            &&& words[1] == p.cq_entries
            &&& words[2] == p.flags.bits
            &&& words[3] == p.sq_thread_cpu
            &&& words[4] == p.sq_thread_idle
            &&& words[5] == p.features.bits
            &&& words[6] == p.wq_fd
            &&& words[7] == p.resv@[0]
            &&& words[8] == p.resv@[1]
            &&& words[9] == p.resv@[2]
            &&& words[10] == p.sq_off.head
            &&& words[11] == p.sq_off.tail
            &&& words[12] == p.sq_off.ring_mask
            &&& words[13] == p.sq_off.ring_entries
            &&& words[14] == p.sq_off.flags
            &&& words[15] == p.sq_off.dropped
            &&& words[16] == p.sq_off.array
            &&& words[17] == p.sq_off.resv1
            &&& words[18] + words[19] * 0x1_0000_0000 == p.sq_off.user_addr
            &&& words[20] == p.cq_off.head
            &&& words[21] == p.cq_off.tail
            &&& words[22] == p.cq_off.ring_mask
            &&& words[23] == p.cq_off.ring_entries
            &&& words[24] == p.cq_off.overflow
            &&& words[25] == p.cq_off.cqes
            &&& words[26] == p.cq_off.flags
            &&& words[27] == p.cq_off.resv1
            &&& words[28] + words[29] * 0x1_0000_0000 == p.cq_off.user_addr
        }),
{
    let (a, b) = (p.sq_off.user_addr, p.cq_off.user_addr);
    assert(a as u32 == a % 0x1_0000_0000 && b as u32 == b % 0x1_0000_0000) by (bit_vector);
}

/// Nothing is asked for to begin with: every word is zero.
pub proof fn lemma_no_parameters_are_zero(i: int)
    requires
        0 <= i < 30,
    ensures
        params_words(no_params())[i] == 0,
{
    lemma_every_parameter_is_read_back(no_params());
    let zero = 0u64;
    assert(zero as u32 == 0u32) by (bit_vector)
        requires
            zero == 0,
    ;
}

/// The numbers of the interface that stand by themselves.
pub proof fn lemma_other_numbers()
    ensures
        Opcode::LAST == 65,
        FILE_INDEX_ALLOC == u32::MAX,
        REGISTER_FILES_SKIP == -2,
        CQE_BUFFER_SHIFT == 16,
        CQE_F_TSTAMP_HW == 0x1_0000,
        OFF_SQ_RING == 0,
        OFF_CQ_RING == 0x800_0000,
        OFF_SQES == 0x1000_0000,
        OFF_PBUF_RING == 0x8000_0000,
        OFF_PBUF_SHIFT == 16,
        OFF_MMAP_MASK == 0xf800_0000,
        SPLICE_F_FD_IN_FIXED == 0x8000_0000,
        NOTIF_USAGE_ZC_COPIED == 0x8000_0000,
        REGISTER_USE_REGISTERED_RING == 0x8000_0000,
        MEM_REGION_TYPE_USER == 1,
        MEM_REGION_REG_WAIT_ARG == 1,
        TIMESTAMP_HW_SHIFT == 16,
        TIMESTAMP_TYPE_SHIFT == 17,
        ZCRX_AREA_SHIFT == 48,
        ZCRX_AREA_MASK == 0xffff_0000_0000_0000,
{
}

/// What is registered, restricted, asked of a socket or of a receive queue has the
/// number the kernel knows it by.
pub proof fn lemma_control_numbers()
    ensures
        WqType::Bound as u32 == 0,
        WqType::Unbound as u32 == 1,
        RestrictionOp::Register as u16 == 0,
        RestrictionOp::SqeOp as u16 == 1,
        RestrictionOp::SqeFlagsAllowed as u16 == 2,
        RestrictionOp::SqeFlagsRequired as u16 == 3,
        SocketOp::Siocinq as u32 == 0,
        SocketOp::Siocoutq as u32 == 1,
        SocketOp::Getsockopt as u32 == 2,
        SocketOp::Setsockopt as u32 == 3,
        SocketOp::TxTimestamp as u32 == 4,
        SocketOp::Getsockname as u32 == 5,
        ZcrxCtrlOp::FlushRq as u32 == 0,
        ZcrxCtrlOp::Export as u32 == 1,
{
}

} // verus!
