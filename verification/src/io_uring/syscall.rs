//! What the system calls that drive a ring report.
//!
//! Errors are a raw [`Errno`], so that the hot paths can match on `EAGAIN`,
//! `EINTR` and `ETIME` without going through an allocation-shaped error type.
//!
//! The calls themselves report failure as `-1` plus `errno`; the functions here
//! turn that back into the negative-errno convention the io_uring interface is
//! otherwise written in.
//!
//! The numbers of the errors are those of x86-64 Linux.

use vstd::prelude::*;

verus! {

/// A raw `errno` value.
#[derive(Clone, Copy, Debug, PartialEq, Eq, Structural)]
pub struct Errno(pub i32);

impl Errno {
    /// Ring is full, or a non-blocking op would block. On `enter`, means no
    /// completions were ready.
    pub const AGAIN: i32 = 11;
    /// Interrupted by a signal; the caller should generally retry.
    pub const INTR: i32 = 4;
    /// The kernel is out of resources for this submission; retry after reaping.
    pub const BUSY: i32 = 16;
    /// Something that must not be there yet already is.
    pub const EXIST: i32 = 17;
    /// A `Timeout` expired without its count being reached.
    pub const TIME: i32 = 62;
    /// The ring is being torn down.
    pub const NXIO: i32 = 6;
    /// Operation cancelled.
    pub const CANCELED: i32 = 125;
    pub const INVAL: i32 = 22;
    pub const FAULT: i32 = 14;
    pub const NOMEM: i32 = 12;
    /// No provided buffer was left to take.
    pub const NOBUFS: i32 = 105;
    pub const NOSYS: i32 = 38;
    /// The kernel does not support this opcode or flag.
    pub const OPNOTSUPP: i32 = 95;
    /// The kernel does not know the address family.
    pub const AFNOSUPPORT: i32 = 97;

    /// The number itself.
    pub fn raw(self) -> (raw: i32)
        ensures
            raw == self.0,
    {
        self.0
    }
}

/// What `mmap` returns when it fails.
pub const MAP_FAILED: u64 = 0xffff_ffff_ffff_ffff;

/// Map a system call's return value onto a `Result`, `last` being the `errno`
/// set by the call if it failed.
pub fn ret(r: i64, last: Errno) -> (result: Result<u32, Errno>)
    ensures
        match result {
            Ok(value) => r >= 0 && value == r as u32,
            Err(e) => r < 0 && e == last,
        },
        0 <= r <= u32::MAX ==> (result matches Ok(value) && value == r),
{
    if r < 0 {
        Err(last)
    } else {
        Ok(r as u32)
    }
}

/// The same for a call that returns nothing but whether it failed: `munmap` and
/// `close`.
pub fn done(r: i32, last: Errno) -> (result: Result<(), Errno>)
    ensures
        match result {
            Ok(_) => r >= 0,
            Err(e) => r < 0 && e == last,
        },
{
    if r < 0 {
        Err(last)
    } else {
        Ok(())
    }
}

/// The same for `mmap`, which returns an address or [`MAP_FAILED`].
pub fn mapping(addr: u64, last: Errno) -> (result: Result<u64, Errno>)
    ensures
        match result {
            Ok(mapped) => addr != MAP_FAILED && mapped == addr,
            Err(e) => addr == MAP_FAILED && e == last,
        },
{
    if addr == MAP_FAILED {
        Err(last)
    } else {
        Ok(addr)
    }
}

/// The number of each error, and what is no address.
pub proof fn lemma_error_numbers()
    ensures
        Errno::INTR == 4,
        Errno::NXIO == 6,
        Errno::AGAIN == 11,
        Errno::NOMEM == 12,
        Errno::FAULT == 14,
        Errno::BUSY == 16,
        Errno::EXIST == 17,
        Errno::INVAL == 22,
        Errno::NOSYS == 38,
        Errno::TIME == 62,
        Errno::OPNOTSUPP == 95,
        Errno::AFNOSUPPORT == 97,
        Errno::NOBUFS == 105,
        Errno::CANCELED == 125,
        MAP_FAILED == u64::MAX,
{
}

} // verus!
