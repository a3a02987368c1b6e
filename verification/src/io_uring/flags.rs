//! Flag words of the io_uring interface.
//!
//! Each type is one word. Its named bits are masks of that word's width, so that
//! several can be put together with `|` before they become a value of the type.
//! Bits without a name are kept as they are.

use vstd::prelude::*;

verus! {

/// `IOSQE_*`, [`Sqe::flags`].
#[derive(Clone, Copy, Debug, Default, PartialEq, Eq, Structural)]
pub struct SqeFlags {
    pub bits: u8,
}

impl SqeFlags {
    pub const FIXED_FILE: u8 = 1 << 0;
    pub const IO_DRAIN: u8 = 1 << 1;
    pub const IO_LINK: u8 = 1 << 2;
    pub const IO_HARDLINK: u8 = 1 << 3;
    pub const ASYNC: u8 = 1 << 4;
    pub const BUFFER_SELECT: u8 = 1 << 5;
    pub const SKIP_SUCCESS: u8 = 1 << 6;

    /// No bits at all.
    pub fn empty() -> (flags: SqeFlags)
        ensures
            flags.bits == 0,
    {
        SqeFlags { bits: 0 }
    }

    /// These bits, named or not.
    pub fn from_bits_retain(bits: u8) -> (flags: SqeFlags)
        ensures
            flags.bits == bits,
    {
        SqeFlags { bits }
    }

    /// The whole word.
    pub fn bits(self) -> (bits: u8)
        ensures
            bits == self.bits,
    {
        self.bits
    }

    /// Whether every bit of `mask` is set.
    pub fn contains(self, mask: u8) -> (all: bool)
        ensures
            all == (self.bits & mask == mask),
    {
        self.bits & mask == mask
    }

    /// Whether any bit of `mask` is set.
    pub fn intersects(self, mask: u8) -> (any: bool)
        ensures
            any == (self.bits & mask != 0),
    {
        self.bits & mask != 0
    }

    /// These bits and those of `mask`.
    pub fn with(self, mask: u8) -> (flags: SqeFlags)
        ensures
            flags.bits == self.bits | mask,
    {
        SqeFlags { bits: self.bits | mask }
    }
}

/// `IORING_SETUP_*`, [`Params::flags`].
#[derive(Clone, Copy, Debug, Default, PartialEq, Eq, Structural)]
pub struct SetupFlags {
    pub bits: u32,
}

impl SetupFlags {
    pub const IOPOLL: u32 = 1 << 0;
    pub const SQPOLL: u32 = 1 << 1;
    pub const SQ_AFF: u32 = 1 << 2;
    pub const CQSIZE: u32 = 1 << 3;
    pub const CLAMP: u32 = 1 << 4;
    pub const ATTACH_WQ: u32 = 1 << 5;
    pub const R_DISABLED: u32 = 1 << 6;
    pub const SUBMIT_ALL: u32 = 1 << 7;
    pub const COOP_TASKRUN: u32 = 1 << 8;
    pub const TASKRUN_FLAG: u32 = 1 << 9;
    pub const SQE128: u32 = 1 << 10;
    pub const CQE32: u32 = 1 << 11;
    pub const SINGLE_ISSUER: u32 = 1 << 12;
    pub const DEFER_TASKRUN: u32 = 1 << 13;
    pub const NO_MMAP: u32 = 1 << 14;
    pub const REGISTERED_FD_ONLY: u32 = 1 << 15;
    pub const NO_SQARRAY: u32 = 1 << 16;
    pub const HYBRID_IOPOLL: u32 = 1 << 17;
    pub const CQE_MIXED: u32 = 1 << 18;
    pub const SQE_MIXED: u32 = 1 << 19;
    /// Requires [`SetupFlags::NO_SQARRAY`]; incompatible with `SQPOLL`.
    pub const SQ_REWIND: u32 = 1 << 20;

    /// No bits at all.
    pub fn empty() -> (flags: SetupFlags)
        ensures
            flags.bits == 0,
    {
        SetupFlags { bits: 0 }
    }

    /// These bits, named or not.
    pub fn from_bits_retain(bits: u32) -> (flags: SetupFlags)
        ensures
            flags.bits == bits,
    {
        SetupFlags { bits }
    }

    /// The whole word.
    pub fn bits(self) -> (bits: u32)
        ensures
            bits == self.bits,
    {
        self.bits
    }

    /// Whether every bit of `mask` is set.
    pub fn contains(self, mask: u32) -> (all: bool)
        ensures
            all == (self.bits & mask == mask),
    {
        self.bits & mask == mask
    }

    /// Whether any bit of `mask` is set.
    pub fn intersects(self, mask: u32) -> (any: bool)
        ensures
            any == (self.bits & mask != 0),
    {
        self.bits & mask != 0
    }

    /// These bits and those of `mask`.
    pub fn with(self, mask: u32) -> (flags: SetupFlags)
        ensures
            flags.bits == self.bits | mask,
    {
        SetupFlags { bits: self.bits | mask }
    }
}

/// `IORING_ENTER_*`, the `flags` argument to `io_uring_enter(2)`.
#[derive(Clone, Copy, Debug, Default, PartialEq, Eq, Structural)]
pub struct EnterFlags {
    pub bits: u32,
}

impl EnterFlags {
    pub const GETEVENTS: u32 = 1 << 0;
    pub const SQ_WAKEUP: u32 = 1 << 1;
    pub const SQ_WAIT: u32 = 1 << 2;
    /// `arg` is a [`GeteventsArg`].
    pub const EXT_ARG: u32 = 1 << 3;
    pub const REGISTERED_RING: u32 = 1 << 4;
    pub const ABS_TIMER: u32 = 1 << 5;
    /// `arg` is an index into a registered [`RegWait`] region.
    pub const EXT_ARG_REG: u32 = 1 << 6;
    pub const NO_IOWAIT: u32 = 1 << 7;

    /// No bits at all.
    pub fn empty() -> (flags: EnterFlags)
        ensures
            flags.bits == 0,
    {
        EnterFlags { bits: 0 }
    }

    /// These bits, named or not.
    pub fn from_bits_retain(bits: u32) -> (flags: EnterFlags)
        ensures
            flags.bits == bits,
    {
        EnterFlags { bits }
    }

    /// The whole word.
    pub fn bits(self) -> (bits: u32)
        ensures
            bits == self.bits,
    {
        self.bits
    }

    /// Whether every bit of `mask` is set.
    pub fn contains(self, mask: u32) -> (all: bool)
        ensures
            all == (self.bits & mask == mask),
    {
        self.bits & mask == mask
    }

    /// Whether any bit of `mask` is set.
    pub fn intersects(self, mask: u32) -> (any: bool)
        ensures
            any == (self.bits & mask != 0),
    {
        self.bits & mask != 0
    }

    /// These bits and those of `mask`.
    pub fn with(self, mask: u32) -> (flags: EnterFlags)
        ensures
            flags.bits == self.bits | mask,
    {
        EnterFlags { bits: self.bits | mask }
    }
}

/// `IORING_FEAT_*`, [`Params::features`]. Filled in by the kernel.
#[derive(Clone, Copy, Debug, Default, PartialEq, Eq, Structural)]
pub struct Features {
    pub bits: u32,
}

impl Features {
    pub const SINGLE_MMAP: u32 = 1 << 0;
    pub const NODROP: u32 = 1 << 1;
    pub const SUBMIT_STABLE: u32 = 1 << 2;
    pub const RW_CUR_POS: u32 = 1 << 3;
    pub const CUR_PERSONALITY: u32 = 1 << 4;
    pub const FAST_POLL: u32 = 1 << 5;
    pub const POLL_32BITS: u32 = 1 << 6;
    pub const SQPOLL_NONFIXED: u32 = 1 << 7;
    pub const EXT_ARG: u32 = 1 << 8;
    pub const NATIVE_WORKERS: u32 = 1 << 9;
    pub const RSRC_TAGS: u32 = 1 << 10;
    pub const CQE_SKIP: u32 = 1 << 11;
    pub const LINKED_FILE: u32 = 1 << 12;
    pub const REG_REG_RING: u32 = 1 << 13;
    pub const RECVSEND_BUNDLE: u32 = 1 << 14;
    pub const MIN_TIMEOUT: u32 = 1 << 15;
    pub const RW_ATTR: u32 = 1 << 16;
    pub const NO_IOWAIT: u32 = 1 << 17;

    /// No bits at all.
    pub fn empty() -> (flags: Features)
        ensures
            flags.bits == 0,
    {
        Features { bits: 0 }
    }

    /// These bits, named or not.
    pub fn from_bits_retain(bits: u32) -> (flags: Features)
        ensures
            flags.bits == bits,
    {
        Features { bits }
    }

    /// The whole word.
    pub fn bits(self) -> (bits: u32)
        ensures
            bits == self.bits,
    {
        self.bits
    }

    /// Whether every bit of `mask` is set.
    pub fn contains(self, mask: u32) -> (all: bool)
        ensures
            all == (self.bits & mask == mask),
    {
        self.bits & mask == mask
    }

    /// Whether any bit of `mask` is set.
    pub fn intersects(self, mask: u32) -> (any: bool)
        ensures
            any == (self.bits & mask != 0),
    {
        self.bits & mask != 0
    }

    /// These bits and those of `mask`.
    pub fn with(self, mask: u32) -> (flags: Features)
        ensures
            flags.bits == self.bits | mask,
    {
        Features { bits: self.bits | mask }
    }
}

/// `IORING_CQE_F_*`, [`Cqe::flags`].
///
/// Bits 16..32 carry the provided-buffer ID; see [`Cqe::buffer_id`]. They
/// show up as unknown bits here, which are kept.
#[derive(Clone, Copy, Debug, Default, PartialEq, Eq, Structural)]
pub struct CqeFlags {
    pub bits: u32,
}

impl CqeFlags {
    /// Upper 16 bits hold the buffer ID.
    pub const BUFFER: u32 = 1 << 0;
    /// The submission will produce further completions; keep it alive.
    pub const MORE: u32 = 1 << 1;
    pub const SOCK_NONEMPTY: u32 = 1 << 2;
    /// A zero-copy notification CQE rather than the send completion.
    pub const NOTIF: u32 = 1 << 3;
    /// Buffer was only partially consumed (`IOU_PBUF_RING_INC` rings).
    pub const BUF_MORE: u32 = 1 << 4;
    /// Padding CQE filling a wrap gap. Must be ignored entirely.
    pub const SKIP: u32 = 1 << 5;
    /// This is a 32-byte CQE on a [`SetupFlags::CQE_MIXED`] ring.
    pub const F32: u32 = 1 << 15;

    /// No bits at all.
    pub fn empty() -> (flags: CqeFlags)
        ensures
            flags.bits == 0,
    {
        CqeFlags { bits: 0 }
    }

    /// These bits, named or not.
    pub fn from_bits_retain(bits: u32) -> (flags: CqeFlags)
        ensures
            flags.bits == bits,
    {
        CqeFlags { bits }
    }

    /// The whole word.
    pub fn bits(self) -> (bits: u32)
        ensures
            bits == self.bits,
    {
        self.bits
    }

    /// Whether every bit of `mask` is set.
    pub fn contains(self, mask: u32) -> (all: bool)
        ensures
            all == (self.bits & mask == mask),
    {
        self.bits & mask == mask
    }

    /// Whether any bit of `mask` is set.
    pub fn intersects(self, mask: u32) -> (any: bool)
        ensures
            any == (self.bits & mask != 0),
    {
        self.bits & mask != 0
    }

    /// These bits and those of `mask`.
    pub fn with(self, mask: u32) -> (flags: CqeFlags)
        ensures
            flags.bits == self.bits | mask,
    {
        CqeFlags { bits: self.bits | mask }
    }
}

/// `IORING_SQ_*`, read from the SQ ring's `flags` word.
#[derive(Clone, Copy, Debug, Default, PartialEq, Eq, Structural)]
pub struct SqRingFlags {
    pub bits: u32,
}

impl SqRingFlags {
    /// SQPOLL thread is idle; `io_uring_enter` with `SQ_WAKEUP` to restart it.
    pub const NEED_WAKEUP: u32 = 1 << 0;
    pub const CQ_OVERFLOW: u32 = 1 << 1;
    /// Task work is pending; enter the kernel to run it. Only set with
    /// [`SetupFlags::TASKRUN_FLAG`].
    pub const TASKRUN: u32 = 1 << 2;

    /// No bits at all.
    pub fn empty() -> (flags: SqRingFlags)
        ensures
            flags.bits == 0,
    {
        SqRingFlags { bits: 0 }
    }

    /// These bits, named or not.
    pub fn from_bits_retain(bits: u32) -> (flags: SqRingFlags)
        ensures
            flags.bits == bits,
    {
        SqRingFlags { bits }
    }

    /// The whole word.
    pub fn bits(self) -> (bits: u32)
        ensures
            bits == self.bits,
    {
        self.bits
    }

    /// Whether every bit of `mask` is set.
    pub fn contains(self, mask: u32) -> (all: bool)
        ensures
            all == (self.bits & mask == mask),
    {
        self.bits & mask == mask
    }

    /// Whether any bit of `mask` is set.
    pub fn intersects(self, mask: u32) -> (any: bool)
        ensures
            any == (self.bits & mask != 0),
    {
        self.bits & mask != 0
    }

    /// These bits and those of `mask`.
    pub fn with(self, mask: u32) -> (flags: SqRingFlags)
        ensures
            flags.bits == self.bits | mask,
    {
        SqRingFlags { bits: self.bits | mask }
    }
}

/// `IORING_CQ_*`, read from the CQ ring's `flags` word.
#[derive(Clone, Copy, Debug, Default, PartialEq, Eq, Structural)]
pub struct CqRingFlags {
    pub bits: u32,
}

impl CqRingFlags {
    pub const EVENTFD_DISABLED: u32 = 1 << 0;

    /// No bits at all.
    pub fn empty() -> (flags: CqRingFlags)
        ensures
            flags.bits == 0,
    {
        CqRingFlags { bits: 0 }
    }

    /// These bits, named or not.
    pub fn from_bits_retain(bits: u32) -> (flags: CqRingFlags)
        ensures
            flags.bits == bits,
    {
        CqRingFlags { bits }
    }

    /// The whole word.
    pub fn bits(self) -> (bits: u32)
        ensures
            bits == self.bits,
    {
        self.bits
    }

    /// Whether every bit of `mask` is set.
    pub fn contains(self, mask: u32) -> (all: bool)
        ensures
            all == (self.bits & mask == mask),
    {
        self.bits & mask == mask
    }

    /// Whether any bit of `mask` is set.
    pub fn intersects(self, mask: u32) -> (any: bool)
        ensures
            any == (self.bits & mask != 0),
    {
        self.bits & mask != 0
    }

    /// These bits and those of `mask`.
    pub fn with(self, mask: u32) -> (flags: CqRingFlags)
        ensures
            flags.bits == self.bits | mask,
    {
        CqRingFlags { bits: self.bits | mask }
    }
}

/// `IORING_RSRC_REGISTER_*`, [`RsrcRegister::flags`].
#[derive(Clone, Copy, Debug, Default, PartialEq, Eq, Structural)]
pub struct RsrcRegisterFlags {
    pub bits: u32,
}

impl RsrcRegisterFlags {
    pub const SPARSE: u32 = 1 << 0;

    /// No bits at all.
    pub fn empty() -> (flags: RsrcRegisterFlags)
        ensures
            flags.bits == 0,
    {
        RsrcRegisterFlags { bits: 0 }
    }

    /// These bits, named or not.
    pub fn from_bits_retain(bits: u32) -> (flags: RsrcRegisterFlags)
        ensures
            flags.bits == bits,
    {
        RsrcRegisterFlags { bits }
    }

    /// The whole word.
    pub fn bits(self) -> (bits: u32)
        ensures
            bits == self.bits,
    {
        self.bits
    }

    /// Whether every bit of `mask` is set.
    pub fn contains(self, mask: u32) -> (all: bool)
        ensures
            all == (self.bits & mask == mask),
    {
        self.bits & mask == mask
    }

    /// Whether any bit of `mask` is set.
    pub fn intersects(self, mask: u32) -> (any: bool)
        ensures
            any == (self.bits & mask != 0),
    {
        self.bits & mask != 0
    }

    /// These bits and those of `mask`.
    pub fn with(self, mask: u32) -> (flags: RsrcRegisterFlags)
        ensures
            flags.bits == self.bits | mask,
    {
        RsrcRegisterFlags { bits: self.bits | mask }
    }
}

/// `IORING_REG_WAIT_*`, [`RegWait::flags`].
#[derive(Clone, Copy, Debug, Default, PartialEq, Eq, Structural)]
pub struct RegWaitFlags {
    pub bits: u32,
}

impl RegWaitFlags {
    pub const TS: u32 = 1 << 0;

    /// No bits at all.
    pub fn empty() -> (flags: RegWaitFlags)
        ensures
            flags.bits == 0,
    {
        RegWaitFlags { bits: 0 }
    }

    /// These bits, named or not.
    pub fn from_bits_retain(bits: u32) -> (flags: RegWaitFlags)
        ensures
            flags.bits == bits,
    {
        RegWaitFlags { bits }
    }

    /// The whole word.
    pub fn bits(self) -> (bits: u32)
        ensures
            bits == self.bits,
    {
        self.bits
    }

    /// Whether every bit of `mask` is set.
    pub fn contains(self, mask: u32) -> (all: bool)
        ensures
            all == (self.bits & mask == mask),
    {
        self.bits & mask == mask
    }

    /// Whether any bit of `mask` is set.
    pub fn intersects(self, mask: u32) -> (any: bool)
        ensures
            any == (self.bits & mask != 0),
    {
        self.bits & mask != 0
    }

    /// These bits and those of `mask`.
    pub fn with(self, mask: u32) -> (flags: RegWaitFlags)
        ensures
            flags.bits == self.bits | mask,
    {
        RegWaitFlags { bits: self.bits | mask }
    }
}

/// `IOU_PBUF_RING_*`, [`BufReg::flags`].
#[derive(Clone, Copy, Debug, Default, PartialEq, Eq, Structural)]
pub struct PbufRingFlags {
    pub bits: u16,
}

impl PbufRingFlags {
    /// Kernel allocates the ring; mmap it at
    /// `OFF_PBUF_RING | (bgid << OFF_PBUF_SHIFT)`.
    pub const MMAP: u16 = 1;
    /// Buffers are consumed incrementally. Pairs with [`CqeFlags::BUF_MORE`].
    pub const INC: u16 = 2;

    /// No bits at all.
    pub fn empty() -> (flags: PbufRingFlags)
        ensures
            flags.bits == 0,
    {
        PbufRingFlags { bits: 0 }
    }

    /// These bits, named or not.
    pub fn from_bits_retain(bits: u16) -> (flags: PbufRingFlags)
        ensures
            flags.bits == bits,
    {
        PbufRingFlags { bits }
    }

    /// The whole word.
    pub fn bits(self) -> (bits: u16)
        ensures
            bits == self.bits,
    {
        self.bits
    }

    /// Whether every bit of `mask` is set.
    pub fn contains(self, mask: u16) -> (all: bool)
        ensures
            all == (self.bits & mask == mask),
    {
        self.bits & mask == mask
    }

    /// Whether any bit of `mask` is set.
    pub fn intersects(self, mask: u16) -> (any: bool)
        ensures
            any == (self.bits & mask != 0),
    {
        self.bits & mask != 0
    }

    /// These bits and those of `mask`.
    pub fn with(self, mask: u16) -> (flags: PbufRingFlags)
        ensures
            flags.bits == self.bits | mask,
    {
        PbufRingFlags { bits: self.bits | mask }
    }
}

/// `IORING_TIMEOUT_*` and `IORING_LINK_TIMEOUT_UPDATE`, in [`Sqe::op_flags`]
/// for `Timeout`, `TimeoutRemove` and `LinkTimeout`.
#[derive(Clone, Copy, Debug, Default, PartialEq, Eq, Structural)]
pub struct TimeoutFlags {
    pub bits: u32,
}

impl TimeoutFlags {
    pub const ABS: u32 = 1 << 0;
    pub const UPDATE: u32 = 1 << 1;
    pub const BOOTTIME: u32 = 1 << 2;
    pub const REALTIME: u32 = 1 << 3;
    pub const LINK_TIMEOUT_UPDATE: u32 = 1 << 4;
    /// Complete with 0 rather than `-ETIME` when the timer expires.
    pub const ETIME_SUCCESS: u32 = 1 << 5;
    pub const MULTISHOT: u32 = 1 << 6;
    /// [`Sqe::addr`] holds the timeout directly, in nanoseconds, instead of
    /// pointing at a [`Timespec`].
    ///
    /// Kernels older than the bit reject it. Probe first.
    pub const IMMEDIATE_ARG: u32 = 1 << 7;

    /// `IORING_TIMEOUT_CLOCK_MASK`
    pub const CLOCK_MASK: u32 = Self::BOOTTIME | Self::REALTIME;
    /// `IORING_TIMEOUT_UPDATE_MASK`
    pub const UPDATE_MASK: u32 = Self::UPDATE | Self::LINK_TIMEOUT_UPDATE;

    /// No bits at all.
    pub fn empty() -> (flags: TimeoutFlags)
        ensures
            flags.bits == 0,
    {
        TimeoutFlags { bits: 0 }
    }

    /// These bits, named or not.
    pub fn from_bits_retain(bits: u32) -> (flags: TimeoutFlags)
        ensures
            flags.bits == bits,
    {
        TimeoutFlags { bits }
    }

    /// The whole word.
    pub fn bits(self) -> (bits: u32)
        ensures
            bits == self.bits,
    {
        self.bits
    }

    /// Whether every bit of `mask` is set.
    pub fn contains(self, mask: u32) -> (all: bool)
        ensures
            all == (self.bits & mask == mask),
    {
        self.bits & mask == mask
    }

    /// Whether any bit of `mask` is set.
    pub fn intersects(self, mask: u32) -> (any: bool)
        ensures
            any == (self.bits & mask != 0),
    {
        self.bits & mask != 0
    }

    /// These bits and those of `mask`.
    pub fn with(self, mask: u32) -> (flags: TimeoutFlags)
        ensures
            flags.bits == self.bits | mask,
    {
        TimeoutFlags { bits: self.bits | mask }
    }
}

/// `IORING_ASYNC_CANCEL_*`, in [`Sqe::op_flags`] for `AsyncCancel` and in
/// [`SyncCancelReg::flags`].
#[derive(Clone, Copy, Debug, Default, PartialEq, Eq, Structural)]
pub struct AsyncCancelFlags {
    pub bits: u32,
}

impl AsyncCancelFlags {
    pub const ALL: u32 = 1 << 0;
    pub const FD: u32 = 1 << 1;
    pub const ANY: u32 = 1 << 2;
    pub const FD_FIXED: u32 = 1 << 3;
    pub const USERDATA: u32 = 1 << 4;
    pub const OP: u32 = 1 << 5;

    /// No bits at all.
    pub fn empty() -> (flags: AsyncCancelFlags)
        ensures
            flags.bits == 0,
    {
        AsyncCancelFlags { bits: 0 }
    }

    /// These bits, named or not.
    pub fn from_bits_retain(bits: u32) -> (flags: AsyncCancelFlags)
        ensures
            flags.bits == bits,
    {
        AsyncCancelFlags { bits }
    }

    /// The whole word.
    pub fn bits(self) -> (bits: u32)
        ensures
            bits == self.bits,
    {
        self.bits
    }

    /// Whether every bit of `mask` is set.
    pub fn contains(self, mask: u32) -> (all: bool)
        ensures
            all == (self.bits & mask == mask),
    {
        self.bits & mask == mask
    }

    /// Whether any bit of `mask` is set.
    pub fn intersects(self, mask: u32) -> (any: bool)
        ensures
            any == (self.bits & mask != 0),
    {
        self.bits & mask != 0
    }

    /// These bits and those of `mask`.
    pub fn with(self, mask: u32) -> (flags: AsyncCancelFlags)
        ensures
            flags.bits == self.bits | mask,
    {
        AsyncCancelFlags { bits: self.bits | mask }
    }
}

/// `IORING_POLL_*`, in [`Sqe::len`] for `PollAdd` — *not* `op_flags`, which
/// `PollAdd` uses for the poll event mask.
#[derive(Clone, Copy, Debug, Default, PartialEq, Eq, Structural)]
pub struct PollFlags {
    pub bits: u32,
}

impl PollFlags {
    /// Multishot poll; completions carry [`CqeFlags::MORE`].
    pub const ADD_MULTI: u32 = 1 << 0;
    pub const UPDATE_EVENTS: u32 = 1 << 1;
    pub const UPDATE_USER_DATA: u32 = 1 << 2;
    pub const ADD_LEVEL: u32 = 1 << 3;

    /// No bits at all.
    pub fn empty() -> (flags: PollFlags)
        ensures
            flags.bits == 0,
    {
        PollFlags { bits: 0 }
    }

    /// These bits, named or not.
    pub fn from_bits_retain(bits: u32) -> (flags: PollFlags)
        ensures
            flags.bits == bits,
    {
        PollFlags { bits }
    }

    /// The whole word.
    pub fn bits(self) -> (bits: u32)
        ensures
            bits == self.bits,
    {
        self.bits
    }

    /// Whether every bit of `mask` is set.
    pub fn contains(self, mask: u32) -> (all: bool)
        ensures
            all == (self.bits & mask == mask),
    {
        self.bits & mask == mask
    }

    /// Whether any bit of `mask` is set.
    pub fn intersects(self, mask: u32) -> (any: bool)
        ensures
            any == (self.bits & mask != 0),
    {
        self.bits & mask != 0
    }

    /// These bits and those of `mask`.
    pub fn with(self, mask: u32) -> (flags: PollFlags)
        ensures
            flags.bits == self.bits | mask,
    {
        PollFlags { bits: self.bits | mask }
    }
}

/// `IORING_RECVSEND_*` / `IORING_RECV_*` / `IORING_SEND_*`, in
/// [`Sqe::ioprio`] for the send and recv family.
#[derive(Clone, Copy, Debug, Default, PartialEq, Eq, Structural)]
pub struct RecvSendFlags {
    pub bits: u16,
}

impl RecvSendFlags {
    /// Arm poll upfront instead of trying the transfer first.
    pub const POLL_FIRST: u16 = 1 << 0;
    pub const RECV_MULTISHOT: u16 = 1 << 1;
    pub const FIXED_BUF: u16 = 1 << 2;
    pub const SEND_ZC_REPORT_USAGE: u16 = 1 << 3;
    /// With [`SqeFlags::BUFFER_SELECT`], consume several buffers at once.
    pub const BUNDLE: u16 = 1 << 4;
    /// `addr` points at an iovec array rather than a flat buffer.
    pub const SEND_VECTORIZED: u16 = 1 << 5;

    /// No bits at all.
    pub fn empty() -> (flags: RecvSendFlags)
        ensures
            flags.bits == 0,
    {
        RecvSendFlags { bits: 0 }
    }

    /// These bits, named or not.
    pub fn from_bits_retain(bits: u16) -> (flags: RecvSendFlags)
        ensures
            flags.bits == bits,
    {
        RecvSendFlags { bits }
    }

    /// The whole word.
    pub fn bits(self) -> (bits: u16)
        ensures
            bits == self.bits,
    {
        self.bits
    }

    /// Whether every bit of `mask` is set.
    pub fn contains(self, mask: u16) -> (all: bool)
        ensures
            all == (self.bits & mask == mask),
    {
        self.bits & mask == mask
    }

    /// Whether any bit of `mask` is set.
    pub fn intersects(self, mask: u16) -> (any: bool)
        ensures
            any == (self.bits & mask != 0),
    {
        self.bits & mask != 0
    }

    /// These bits and those of `mask`.
    pub fn with(self, mask: u16) -> (flags: RecvSendFlags)
        ensures
            flags.bits == self.bits | mask,
    {
        RecvSendFlags { bits: self.bits | mask }
    }
}

/// `IORING_ACCEPT_*`, in [`Sqe::ioprio`] for `Accept`.
#[derive(Clone, Copy, Debug, Default, PartialEq, Eq, Structural)]
pub struct AcceptFlags {
    pub bits: u16,
}

impl AcceptFlags {
    pub const MULTISHOT: u16 = 1 << 0;
    pub const DONTWAIT: u16 = 1 << 1;
    pub const POLL_FIRST: u16 = 1 << 2;

    /// No bits at all.
    pub fn empty() -> (flags: AcceptFlags)
        ensures
            flags.bits == 0,
    {
        AcceptFlags { bits: 0 }
    }

    /// These bits, named or not.
    pub fn from_bits_retain(bits: u16) -> (flags: AcceptFlags)
        ensures
            flags.bits == bits,
    {
        AcceptFlags { bits }
    }

    /// The whole word.
    pub fn bits(self) -> (bits: u16)
        ensures
            bits == self.bits,
    {
        self.bits
    }

    /// Whether every bit of `mask` is set.
    pub fn contains(self, mask: u16) -> (all: bool)
        ensures
            all == (self.bits & mask == mask),
    {
        self.bits & mask == mask
    }

    /// Whether any bit of `mask` is set.
    pub fn intersects(self, mask: u16) -> (any: bool)
        ensures
            any == (self.bits & mask != 0),
    {
        self.bits & mask != 0
    }

    /// These bits and those of `mask`.
    pub fn with(self, mask: u16) -> (flags: AcceptFlags)
        ensures
            flags.bits == self.bits | mask,
    {
        AcceptFlags { bits: self.bits | mask }
    }
}

/// `IORING_FSYNC_*`, in [`Sqe::op_flags`] for `Fsync`.
#[derive(Clone, Copy, Debug, Default, PartialEq, Eq, Structural)]
pub struct FsyncFlags {
    pub bits: u32,
}

impl FsyncFlags {
    pub const DATASYNC: u32 = 1 << 0;

    /// No bits at all.
    pub fn empty() -> (flags: FsyncFlags)
        ensures
            flags.bits == 0,
    {
        FsyncFlags { bits: 0 }
    }

    /// These bits, named or not.
    pub fn from_bits_retain(bits: u32) -> (flags: FsyncFlags)
        ensures
            flags.bits == bits,
    {
        FsyncFlags { bits }
    }

    /// The whole word.
    pub fn bits(self) -> (bits: u32)
        ensures
            bits == self.bits,
    {
        self.bits
    }

    /// Whether every bit of `mask` is set.
    pub fn contains(self, mask: u32) -> (all: bool)
        ensures
            all == (self.bits & mask == mask),
    {
        self.bits & mask == mask
    }

    /// Whether any bit of `mask` is set.
    pub fn intersects(self, mask: u32) -> (any: bool)
        ensures
            any == (self.bits & mask != 0),
    {
        self.bits & mask != 0
    }

    /// These bits and those of `mask`.
    pub fn with(self, mask: u32) -> (flags: FsyncFlags)
        ensures
            flags.bits == self.bits | mask,
    {
        FsyncFlags { bits: self.bits | mask }
    }
}

/// `IORING_MSG_RING_*`, in [`Sqe::op_flags`] for `MsgRing`.
#[derive(Clone, Copy, Debug, Default, PartialEq, Eq, Structural)]
pub struct MsgRingFlags {
    pub bits: u32,
}

impl MsgRingFlags {
    /// Don't post a CQE on the target ring. Not valid with [`MsgRingOp::Data`].
    pub const CQE_SKIP: u32 = 1 << 0;
    /// Pass [`Sqe::file_index`] through to the target `cqe.flags`.
    pub const FLAGS_PASS: u32 = 1 << 1;

    /// No bits at all.
    pub fn empty() -> (flags: MsgRingFlags)
        ensures
            flags.bits == 0,
    {
        MsgRingFlags { bits: 0 }
    }

    /// These bits, named or not.
    pub fn from_bits_retain(bits: u32) -> (flags: MsgRingFlags)
        ensures
            flags.bits == bits,
    {
        MsgRingFlags { bits }
    }

    /// The whole word.
    pub fn bits(self) -> (bits: u32)
        ensures
            bits == self.bits,
    {
        self.bits
    }

    /// Whether every bit of `mask` is set.
    pub fn contains(self, mask: u32) -> (all: bool)
        ensures
            all == (self.bits & mask == mask),
    {
        self.bits & mask == mask
    }

    /// Whether any bit of `mask` is set.
    pub fn intersects(self, mask: u32) -> (any: bool)
        ensures
            any == (self.bits & mask != 0),
    {
        self.bits & mask != 0
    }

    /// These bits and those of `mask`.
    pub fn with(self, mask: u32) -> (flags: MsgRingFlags)
        ensures
            flags.bits == self.bits | mask,
    {
        MsgRingFlags { bits: self.bits | mask }
    }
}

/// `IORING_RW_ATTR_FLAG_*`, in [`Sqe::addr3_hi`] as `attr_type_mask`.
/// Gated by [`Features::RW_ATTR`].
#[derive(Clone, Copy, Debug, Default, PartialEq, Eq, Structural)]
pub struct RwAttrFlags {
    pub bits: u64,
}

impl RwAttrFlags {
    pub const PI: u64 = 1 << 0;

    /// No bits at all.
    pub fn empty() -> (flags: RwAttrFlags)
        ensures
            flags.bits == 0,
    {
        RwAttrFlags { bits: 0 }
    }

    /// These bits, named or not.
    pub fn from_bits_retain(bits: u64) -> (flags: RwAttrFlags)
        ensures
            flags.bits == bits,
    {
        RwAttrFlags { bits }
    }

    /// The whole word.
    pub fn bits(self) -> (bits: u64)
        ensures
            bits == self.bits,
    {
        self.bits
    }

    /// Whether every bit of `mask` is set.
    pub fn contains(self, mask: u64) -> (all: bool)
        ensures
            all == (self.bits & mask == mask),
    {
        self.bits & mask == mask
    }

    /// Whether any bit of `mask` is set.
    pub fn intersects(self, mask: u64) -> (any: bool)
        ensures
            any == (self.bits & mask != 0),
    {
        self.bits & mask != 0
    }

    /// These bits and those of `mask`.
    pub fn with(self, mask: u64) -> (flags: RwAttrFlags)
        ensures
            flags.bits == self.bits | mask,
    {
        RwAttrFlags { bits: self.bits | mask }
    }
}

/// `IORING_URING_CMD_*`, in [`Sqe::op_flags`] for `UringCmd`.
///
/// The top 8 bits of the field are reserved for the kernel.
#[derive(Clone, Copy, Debug, Default, PartialEq, Eq, Structural)]
pub struct UringCmdFlags {
    pub bits: u32,
}

impl UringCmdFlags {
    /// Use a registered buffer; set [`Sqe::buf_index`] alongside this.
    pub const FIXED: u32 = 1 << 0;

    /// `IORING_URING_CMD_MASK`
    pub const MASK: u32 = Self::FIXED;

    /// No bits at all.
    pub fn empty() -> (flags: UringCmdFlags)
        ensures
            flags.bits == 0,
    {
        UringCmdFlags { bits: 0 }
    }

    /// These bits, named or not.
    pub fn from_bits_retain(bits: u32) -> (flags: UringCmdFlags)
        ensures
            flags.bits == bits,
    {
        UringCmdFlags { bits }
    }

    /// The whole word.
    pub fn bits(self) -> (bits: u32)
        ensures
            bits == self.bits,
    {
        self.bits
    }

    /// Whether every bit of `mask` is set.
    pub fn contains(self, mask: u32) -> (all: bool)
        ensures
            all == (self.bits & mask == mask),
    {
        self.bits & mask == mask
    }

    /// Whether any bit of `mask` is set.
    pub fn intersects(self, mask: u32) -> (any: bool)
        ensures
            any == (self.bits & mask != 0),
    {
        self.bits & mask != 0
    }

    /// These bits and those of `mask`.
    pub fn with(self, mask: u32) -> (flags: UringCmdFlags)
        ensures
            flags.bits == self.bits | mask,
    {
        UringCmdFlags { bits: self.bits | mask }
    }
}

/// `IORING_NOP_*`, in [`Sqe::op_flags`] for `Nop`.
#[derive(Clone, Copy, Debug, Default, PartialEq, Eq, Structural)]
pub struct NopFlags {
    pub bits: u32,
}

impl NopFlags {
    /// Complete with the result taken from [`Sqe::len`].
    pub const INJECT_RESULT: u32 = 1 << 0;
    pub const CQE32: u32 = 1 << 5;

    /// No bits at all.
    pub fn empty() -> (flags: NopFlags)
        ensures
            flags.bits == 0,
    {
        NopFlags { bits: 0 }
    }

    /// These bits, named or not.
    pub fn from_bits_retain(bits: u32) -> (flags: NopFlags)
        ensures
            flags.bits == bits,
    {
        NopFlags { bits }
    }

    /// The whole word.
    pub fn bits(self) -> (bits: u32)
        ensures
            bits == self.bits,
    {
        self.bits
    }

    /// Whether every bit of `mask` is set.
    pub fn contains(self, mask: u32) -> (all: bool)
        ensures
            all == (self.bits & mask == mask),
    {
        self.bits & mask == mask
    }

    /// Whether any bit of `mask` is set.
    pub fn intersects(self, mask: u32) -> (any: bool)
        ensures
            any == (self.bits & mask != 0),
    {
        self.bits & mask != 0
    }

    /// These bits and those of `mask`.
    pub fn with(self, mask: u32) -> (flags: NopFlags)
        ensures
            flags.bits == self.bits | mask,
    {
        NopFlags { bits: self.bits | mask }
    }
}

/// `IORING_FIXED_FD_*`, in [`Sqe::op_flags`] for `FixedFdInstall`.
#[derive(Clone, Copy, Debug, Default, PartialEq, Eq, Structural)]
pub struct InstallFdFlags {
    pub bits: u32,
}

impl InstallFdFlags {
    pub const NO_CLOEXEC: u32 = 1 << 0;

    /// No bits at all.
    pub fn empty() -> (flags: InstallFdFlags)
        ensures
            flags.bits == 0,
    {
        InstallFdFlags { bits: 0 }
    }

    /// These bits, named or not.
    pub fn from_bits_retain(bits: u32) -> (flags: InstallFdFlags)
        ensures
            flags.bits == bits,
    {
        InstallFdFlags { bits }
    }

    /// The whole word.
    pub fn bits(self) -> (bits: u32)
        ensures
            bits == self.bits,
    {
        self.bits
    }

    /// Whether every bit of `mask` is set.
    pub fn contains(self, mask: u32) -> (all: bool)
        ensures
            all == (self.bits & mask == mask),
    {
        self.bits & mask == mask
    }

    /// Whether any bit of `mask` is set.
    pub fn intersects(self, mask: u32) -> (any: bool)
        ensures
            any == (self.bits & mask != 0),
    {
        self.bits & mask != 0
    }

    /// These bits and those of `mask`.
    pub fn with(self, mask: u32) -> (flags: InstallFdFlags)
        ensures
            flags.bits == self.bits | mask,
    {
        InstallFdFlags { bits: self.bits | mask }
    }
}

/// `IORING_REGISTER_SRC_REGISTERED` / `IORING_REGISTER_DST_REPLACE`,
/// [`CloneBuffers::flags`].
#[derive(Clone, Copy, Debug, Default, PartialEq, Eq, Structural)]
pub struct CloneBuffersFlags {
    pub bits: u32,
}

impl CloneBuffersFlags {
    /// `src_fd` is a registered ring index rather than an fd.
    pub const SRC_REGISTERED: u32 = 1 << 0;
    /// Replace existing entries in the destination table.
    pub const DST_REPLACE: u32 = 1 << 1;

    /// No bits at all.
    pub fn empty() -> (flags: CloneBuffersFlags)
        ensures
            flags.bits == 0,
    {
        CloneBuffersFlags { bits: 0 }
    }

    /// These bits, named or not.
    pub fn from_bits_retain(bits: u32) -> (flags: CloneBuffersFlags)
        ensures
            flags.bits == bits,
    {
        CloneBuffersFlags { bits }
    }

    /// The whole word.
    pub fn bits(self) -> (bits: u32)
        ensures
            bits == self.bits,
    {
        self.bits
    }

    /// Whether every bit of `mask` is set.
    pub fn contains(self, mask: u32) -> (all: bool)
        ensures
            all == (self.bits & mask == mask),
    {
        self.bits & mask == mask
    }

    /// Whether any bit of `mask` is set.
    pub fn intersects(self, mask: u32) -> (any: bool)
        ensures
            any == (self.bits & mask != 0),
    {
        self.bits & mask != 0
    }

    /// These bits and those of `mask`.
    pub fn with(self, mask: u32) -> (flags: CloneBuffersFlags)
        ensures
            flags.bits == self.bits | mask,
    {
        CloneBuffersFlags { bits: self.bits | mask }
    }
}

/// `enum io_uring_zcrx_area_flags`, [`ZcrxAreaReg::flags`].
#[derive(Clone, Copy, Debug, Default, PartialEq, Eq, Structural)]
pub struct ZcrxAreaFlags {
    pub bits: u32,
}

impl ZcrxAreaFlags {
    /// The area is backed by the dmabuf in [`ZcrxAreaReg::dmabuf_fd`].
    pub const DMABUF: u32 = 1;

    /// No bits at all.
    pub fn empty() -> (flags: ZcrxAreaFlags)
        ensures
            flags.bits == 0,
    {
        ZcrxAreaFlags { bits: 0 }
    }

    /// These bits, named or not.
    pub fn from_bits_retain(bits: u32) -> (flags: ZcrxAreaFlags)
        ensures
            flags.bits == bits,
    {
        ZcrxAreaFlags { bits }
    }

    /// The whole word.
    pub fn bits(self) -> (bits: u32)
        ensures
            bits == self.bits,
    {
        self.bits
    }

    /// Whether every bit of `mask` is set.
    pub fn contains(self, mask: u32) -> (all: bool)
        ensures
            all == (self.bits & mask == mask),
    {
        self.bits & mask == mask
    }

    /// Whether any bit of `mask` is set.
    pub fn intersects(self, mask: u32) -> (any: bool)
        ensures
            any == (self.bits & mask != 0),
    {
        self.bits & mask != 0
    }

    /// These bits and those of `mask`.
    pub fn with(self, mask: u32) -> (flags: ZcrxAreaFlags)
        ensures
            flags.bits == self.bits | mask,
    {
        ZcrxAreaFlags { bits: self.bits | mask }
    }
}

/// `enum zcrx_reg_flags`, [`ZcrxIfqReg::flags`].
#[derive(Clone, Copy, Debug, Default, PartialEq, Eq, Structural)]
pub struct ZcrxRegFlags {
    pub bits: u32,
}

impl ZcrxRegFlags {
    pub const IMPORT: u32 = 1;
    /// Register without a net device; all data is copied and the refill
    /// queue may need an explicit [`ZcrxCtrlOp::FlushRq`].
    pub const NODEV: u32 = 2;

    /// No bits at all.
    pub fn empty() -> (flags: ZcrxRegFlags)
        ensures
            flags.bits == 0,
    {
        ZcrxRegFlags { bits: 0 }
    }

    /// These bits, named or not.
    pub fn from_bits_retain(bits: u32) -> (flags: ZcrxRegFlags)
        ensures
            flags.bits == bits,
    {
        ZcrxRegFlags { bits }
    }

    /// The whole word.
    pub fn bits(self) -> (bits: u32)
        ensures
            bits == self.bits,
    {
        self.bits
    }

    /// Whether every bit of `mask` is set.
    pub fn contains(self, mask: u32) -> (all: bool)
        ensures
            all == (self.bits & mask == mask),
    {
        self.bits & mask == mask
    }

    /// Whether any bit of `mask` is set.
    pub fn intersects(self, mask: u32) -> (any: bool)
        ensures
            any == (self.bits & mask != 0),
    {
        self.bits & mask != 0
    }

    /// These bits and those of `mask`.
    pub fn with(self, mask: u32) -> (flags: ZcrxRegFlags)
        ensures
            flags.bits == self.bits | mask,
    {
        ZcrxRegFlags { bits: self.bits | mask }
    }
}

/// `enum zcrx_features`, reported by the query interface.
#[derive(Clone, Copy, Debug, Default, PartialEq, Eq, Structural)]
pub struct ZcrxFeatures {
    pub bits: u32,
}

impl ZcrxFeatures {
    /// [`ZcrxIfqReg::rx_buf_len`] is honoured as a page-size request.
    pub const RX_PAGE_SIZE: u32 = 1 << 0;

    /// No bits at all.
    pub fn empty() -> (flags: ZcrxFeatures)
        ensures
            flags.bits == 0,
    {
        ZcrxFeatures { bits: 0 }
    }

    /// These bits, named or not.
    pub fn from_bits_retain(bits: u32) -> (flags: ZcrxFeatures)
        ensures
            flags.bits == bits,
    {
        ZcrxFeatures { bits }
    }

    /// The whole word.
    pub fn bits(self) -> (bits: u32)
        ensures
            bits == self.bits,
    {
        self.bits
    }

    /// Whether every bit of `mask` is set.
    pub fn contains(self, mask: u32) -> (all: bool)
        ensures
            all == (self.bits & mask == mask),
    {
        self.bits & mask == mask
    }

    /// Whether any bit of `mask` is set.
    pub fn intersects(self, mask: u32) -> (any: bool)
        ensures
            any == (self.bits & mask != 0),
    {
        self.bits & mask != 0
    }

    /// These bits and those of `mask`.
    pub fn with(self, mask: u32) -> (flags: ZcrxFeatures)
        ensures
            flags.bits == self.bits | mask,
    {
        ZcrxFeatures { bits: self.bits | mask }
    }
}

/// Every flag is the bit the kernel has for it.
pub proof fn lemma_flag_numbers()
    by (bit_vector)
    ensures
        SqeFlags::FIXED_FILE == 1,
        SqeFlags::IO_DRAIN == 2,
        SqeFlags::IO_LINK == 4,
        SqeFlags::IO_HARDLINK == 8,
        SqeFlags::ASYNC == 16,
        SqeFlags::BUFFER_SELECT == 32,
        SqeFlags::SKIP_SUCCESS == 64,
        SetupFlags::IOPOLL == 1,
        SetupFlags::SQPOLL == 2,
        SetupFlags::SQ_AFF == 4,
        SetupFlags::CQSIZE == 8,
        SetupFlags::CLAMP == 16,
        SetupFlags::ATTACH_WQ == 32,
        SetupFlags::R_DISABLED == 64,
        SetupFlags::SUBMIT_ALL == 128,
        SetupFlags::COOP_TASKRUN == 256,
        SetupFlags::TASKRUN_FLAG == 512,
        SetupFlags::SQE128 == 1024,
        SetupFlags::CQE32 == 2048,
        SetupFlags::SINGLE_ISSUER == 4096,
        SetupFlags::DEFER_TASKRUN == 8192,
        SetupFlags::NO_MMAP == 16384,
        SetupFlags::REGISTERED_FD_ONLY == 32768,
        SetupFlags::NO_SQARRAY == 65536,
        SetupFlags::HYBRID_IOPOLL == 131072,
        SetupFlags::CQE_MIXED == 262144,
        SetupFlags::SQE_MIXED == 524288,
        SetupFlags::SQ_REWIND == 1048576,
        EnterFlags::GETEVENTS == 1,
        EnterFlags::SQ_WAKEUP == 2,
        EnterFlags::SQ_WAIT == 4,
        EnterFlags::EXT_ARG == 8,
        EnterFlags::REGISTERED_RING == 16,
        EnterFlags::ABS_TIMER == 32,
        EnterFlags::EXT_ARG_REG == 64,
        EnterFlags::NO_IOWAIT == 128,
        Features::SINGLE_MMAP == 1,
        Features::NODROP == 2,
        Features::SUBMIT_STABLE == 4,
        Features::RW_CUR_POS == 8,
        Features::CUR_PERSONALITY == 16,
        Features::FAST_POLL == 32,
        Features::POLL_32BITS == 64,
        Features::SQPOLL_NONFIXED == 128,
        Features::EXT_ARG == 256,
        Features::NATIVE_WORKERS == 512,
        Features::RSRC_TAGS == 1024,
        Features::CQE_SKIP == 2048,
        Features::LINKED_FILE == 4096,
        Features::REG_REG_RING == 8192,
        Features::RECVSEND_BUNDLE == 16384,
        Features::MIN_TIMEOUT == 32768,
        Features::RW_ATTR == 65536,
        Features::NO_IOWAIT == 131072,
        CqeFlags::BUFFER == 1,
        CqeFlags::MORE == 2,
        CqeFlags::SOCK_NONEMPTY == 4,
        CqeFlags::NOTIF == 8,
        CqeFlags::BUF_MORE == 16,
        CqeFlags::SKIP == 32,
        CqeFlags::F32 == 32768,
        SqRingFlags::NEED_WAKEUP == 1,
        SqRingFlags::CQ_OVERFLOW == 2,
        SqRingFlags::TASKRUN == 4,
        CqRingFlags::EVENTFD_DISABLED == 1,
        RsrcRegisterFlags::SPARSE == 1,
        RegWaitFlags::TS == 1,
        PbufRingFlags::MMAP == 1,
        PbufRingFlags::INC == 2,
        TimeoutFlags::ABS == 1,
        TimeoutFlags::UPDATE == 2,
        TimeoutFlags::BOOTTIME == 4,
        TimeoutFlags::REALTIME == 8,
        TimeoutFlags::LINK_TIMEOUT_UPDATE == 16,
        TimeoutFlags::ETIME_SUCCESS == 32,
        TimeoutFlags::MULTISHOT == 64,
        TimeoutFlags::IMMEDIATE_ARG == 128,
        TimeoutFlags::CLOCK_MASK == 12,
        TimeoutFlags::UPDATE_MASK == 18,
        AsyncCancelFlags::ALL == 1,
        AsyncCancelFlags::FD == 2,
        AsyncCancelFlags::ANY == 4,
        AsyncCancelFlags::FD_FIXED == 8,
        AsyncCancelFlags::USERDATA == 16,
        AsyncCancelFlags::OP == 32,
        PollFlags::ADD_MULTI == 1,
        PollFlags::UPDATE_EVENTS == 2,
        PollFlags::UPDATE_USER_DATA == 4,
        PollFlags::ADD_LEVEL == 8,
        RecvSendFlags::POLL_FIRST == 1,
        RecvSendFlags::RECV_MULTISHOT == 2,
        RecvSendFlags::FIXED_BUF == 4,
        RecvSendFlags::SEND_ZC_REPORT_USAGE == 8,
        RecvSendFlags::BUNDLE == 16,
        RecvSendFlags::SEND_VECTORIZED == 32,
        AcceptFlags::MULTISHOT == 1,
        AcceptFlags::DONTWAIT == 2,
        AcceptFlags::POLL_FIRST == 4,
        FsyncFlags::DATASYNC == 1,
        MsgRingFlags::CQE_SKIP == 1,
        MsgRingFlags::FLAGS_PASS == 2,
        RwAttrFlags::PI == 1,
        UringCmdFlags::FIXED == 1,
        UringCmdFlags::MASK == 1,
        NopFlags::INJECT_RESULT == 1,
        NopFlags::CQE32 == 32,
        InstallFdFlags::NO_CLOEXEC == 1,
        CloneBuffersFlags::SRC_REGISTERED == 1,
        CloneBuffersFlags::DST_REPLACE == 2,
        ZcrxAreaFlags::DMABUF == 1,
        ZcrxRegFlags::IMPORT == 1,
        ZcrxRegFlags::NODEV == 2,
        ZcrxFeatures::RX_PAGE_SIZE == 1,
{
}

} // verus!
