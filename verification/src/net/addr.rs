//! A `sockaddr` the kernel can be given a pointer to.
//!
//! Every operation that takes an address gives the kernel a raw pointer to it and
//! keeps that pointer until the completion arrives, so the address has to live on
//! the heap and be owned by the operation — the same rule buffers follow, for the
//! same reason.
//!
//! Addresses are laid out as x86-64 Linux has them: the families have its numbers,
//! and the words of an address that are not in network order are little-endian.

use vstd::prelude::*;

use crate::runtime::text;

verus! {

/// IPv4.
pub const AF_INET: u16 = 2;

/// IPv6.
pub const AF_INET6: u16 = 10;

/// Bytes of a `sockaddr_storage`.
pub const STORAGE_SIZE: usize = 128;

/// Bytes of a `sockaddr_in`.
pub const SOCKADDR_IN_SIZE: u32 = 16;

/// Bytes of a `sockaddr_in6`.
pub const SOCKADDR_IN6_SIZE: u32 = 28;

/// An IPv4 address and a port.
#[derive(Clone, Copy, Debug, PartialEq, Eq)]
pub struct SocketAddrV4 {
    pub ip: [u8; 4],
    pub port: u16,
}

/// An IPv6 address and a port.
#[derive(Clone, Copy, Debug, PartialEq, Eq)]
pub struct SocketAddrV6 {
    pub ip: [u8; 16],
    pub port: u16,
    pub flowinfo: u32,
    pub scope_id: u32,
}

/// An address and a port.
#[derive(Clone, Copy, Debug, PartialEq, Eq)]
pub enum SocketAddr {
    V4(SocketAddrV4),
    V6(SocketAddrV6),
}

/// The storage holds no address of a family we know.
#[derive(Clone, Copy, Debug, PartialEq, Eq, Structural)]
pub struct UnsupportedFamily(pub u16);

impl UnsupportedFamily {
    /// The message.
    pub fn message(self) -> (message: String)
        ensures
            message@ == "unsupported address family "@ + text::decimal(self.0 as nat),
    {
        let mut message = "unsupported address family ".to_owned();
        vstd::string::StringExecFns::append(
            &mut message,
            text::decimal_string(self.0 as u32).as_str(),
        );
        message
    }
}

/// A `sockaddr_storage` and the length that goes with it.
#[derive(Clone, Copy, Debug)]
pub struct SockAddr {
    storage: [u8; 128],
    /// Set to the storage size before an accept, and overwritten by the kernel
    /// with what it actually wrote.
    len: u32,
}

/// Byte `i` of a word in network order.
pub open spec fn big_byte(word: u16, i: int) -> u8 {
    if i == 0 {
        (word / 256) as u8
    } else {
        (word % 256) as u8
    }
}

/// Byte `i` of a short word in the machine's order.
pub open spec fn short_byte(word: u16, i: int) -> u8 {
    if i == 0 {
        (word % 256) as u8
    } else {
        (word / 256) as u8
    }
}

/// Byte `i` of a word in the machine's order.
pub open spec fn word_byte(word: u32, i: int) -> u8 {
    if i == 0 {
        (word % 256) as u8
    } else if i == 1 {
        (word / 256 % 256) as u8
    } else if i == 2 {
        (word / 65536 % 256) as u8
    } else {
        (word / 16777216) as u8
    }
}

/// The word in these four bytes, in the machine's order.
pub open spec fn word_of(bytes: Seq<u8>, at: int) -> u32 {
    (bytes[at] + bytes[at + 1] * 256 + bytes[at + 2] * 65536 + bytes[at + 3] * 16777216) as u32
}

/// Byte `i` of a `sockaddr_in`: the family, the port in network order, the
/// address, and nothing.
pub open spec fn v4_byte(addr: SocketAddrV4, i: int) -> u8 {
    if i < 2 {
        short_byte(AF_INET, i)
    } else if i < 4 {
        big_byte(addr.port, i - 2)
    } else if i < 8 {
        addr.ip@[i - 4]
    } else {
        0
    }
}

/// Byte `i` of a `sockaddr_in6`: the family, the port in network order, the flow
/// information, the address, the scope, and nothing.
pub open spec fn v6_byte(addr: SocketAddrV6, i: int) -> u8 {
    if i < 2 {
        short_byte(AF_INET6, i)
    } else if i < 4 {
        big_byte(addr.port, i - 2)
    } else if i < 8 {
        word_byte(addr.flowinfo, i - 4)
    } else if i < 24 {
        addr.ip@[i - 8]
    } else if i < 28 {
        word_byte(addr.scope_id, i - 24)
    } else {
        0
    }
}

/// The kernel representation of an address.
pub open spec fn encoded(addr: SocketAddr) -> Seq<u8> {
    match addr {
        SocketAddr::V4(v4) => Seq::new(128, |i: int| v4_byte(v4, i)),
        SocketAddr::V6(v6) => Seq::new(128, |i: int| v6_byte(v6, i)),
    }
}

/// How much of it there is.
pub open spec fn encoded_len(addr: SocketAddr) -> u32 {
    match addr {
        SocketAddr::V4(_) => SOCKADDR_IN_SIZE,
        SocketAddr::V6(_) => SOCKADDR_IN6_SIZE,
    }
}

/// The family a storage says it is of.
pub open spec fn family(storage: Seq<u8>) -> u16 {
    (storage[0] + storage[1] * 256) as u16
}

/// The port in a storage of either family.
pub open spec fn port(storage: Seq<u8>) -> u16 {
    (storage[2] * 256 + storage[3]) as u16
}

/// The storage holds `addr`, as far as its family gives it meaning.
pub open spec fn holds(storage: Seq<u8>, addr: SocketAddr) -> bool {
    match addr {
        SocketAddr::V4(v4) => {
            &&& family(storage) == AF_INET
            &&& v4.port == port(storage)
            &&& forall|i: int| 0 <= i < 4 ==> #[trigger] v4.ip@[i] == storage[i + 4]
        },
        SocketAddr::V6(v6) => {
            &&& family(storage) == AF_INET6
            &&& v6.port == port(storage)
            &&& v6.flowinfo == word_of(storage, 4)
            &&& forall|i: int| 0 <= i < 16 ==> #[trigger] v6.ip@[i] == storage[i + 8]
            &&& v6.scope_id == word_of(storage, 24)
        },
    }
}

impl SockAddr {
    /// The bytes.
    pub closed spec fn bytes(&self) -> Seq<u8> {
        self.storage@
    }

    /// The length that goes with them.
    pub closed spec fn length(&self) -> u32 {
        self.len
    }

    /// An empty address, sized for anything the kernel might return.
    pub fn zeroed() -> (addr: SockAddr)
        ensures
            addr.bytes() == Seq::new(128, |i: int| 0u8),
            addr.length() == 128,
    {
        let storage = [0u8;128];
        proof {
            assert(storage@ =~= Seq::new(128, |i: int| 0u8));
        }
        SockAddr { storage, len: 128 }
    }

    /// What the kernel wrote: a storage, and how much of it.
    pub fn from_kernel(storage: [u8; 128], len: u32) -> (addr: SockAddr)
        ensures
            addr.bytes() == storage@,
            addr.length() == len,
    {
        SockAddr { storage, len }
    }

    /// The kernel representation of `addr`.
    pub fn from_socket_addr(addr: SocketAddr) -> (this: SockAddr)
        ensures
            this.bytes() == encoded(addr),
            this.length() == encoded_len(addr),
            addr is V4 ==> this.length() == 16,
            addr is V6 ==> this.length() == 28,
            addr matches SocketAddr::V4(v4) ==> this.bytes()[0] == 2 && this.bytes()[2] * 256
                + this.bytes()[3] == v4.port && this.bytes().subrange(4, 8) == v4.ip@,
            addr matches SocketAddr::V6(v6) ==> this.bytes()[0] == 10 && this.bytes()[2] * 256
                + this.bytes()[3] == v6.port && this.bytes().subrange(8, 24) == v6.ip@,
    {
        let mut this = SockAddr::zeroed();
        match addr {
            SocketAddr::V4(v4) => {
                this.storage[0] = (AF_INET % 256) as u8;
                this.storage[1] = (AF_INET / 256) as u8;
                this.storage[2] = (v4.port / 256) as u8;
                this.storage[3] = (v4.port % 256) as u8;
                let mut i: usize = 0;
                while i < 4
                    invariant
                        i <= 4,
                        forall|j: int| 0 <= j < 4 + i ==> #[trigger] this.storage@[j] == v4_byte(v4, j),
                        forall|j: int| 4 + i <= j < 128 ==> #[trigger] this.storage@[j] == 0,
                    decreases 4 - i,
                {
                    this.storage[i + 4] = v4.ip[i];
                    i += 1;
                }
                this.len = SOCKADDR_IN_SIZE;
            },
            SocketAddr::V6(v6) => {
                this.storage[0] = (AF_INET6 % 256) as u8;
                this.storage[1] = (AF_INET6 / 256) as u8;
                this.storage[2] = (v6.port / 256) as u8;
                this.storage[3] = (v6.port % 256) as u8;
                this.store_word(4, v6.flowinfo);
                this.store_word(24, v6.scope_id);
                let mut i: usize = 0;
                while i < 16
                    invariant
                        i <= 16,
                        forall|j: int|
                            0 <= j < 8 + i || 24 <= j < 28 ==> #[trigger] this.storage@[j]
                                == v6_byte(v6, j),
                        forall|j: int|
                            8 + i <= j < 24 || 28 <= j < 128 ==> #[trigger] this.storage@[j] == 0,
                    decreases 16 - i,
                {
                    this.storage[i + 8] = v6.ip[i];
                    i += 1;
                }
                this.len = SOCKADDR_IN6_SIZE;
            },
        }
        proof {
            assert(this.bytes() =~= encoded(addr));
            match addr {
                SocketAddr::V4(v4) => {
                    assert(this.bytes().subrange(4, 8) =~= v4.ip@);
                },
                SocketAddr::V6(v6) => {
                    assert(this.bytes().subrange(8, 24) =~= v6.ip@);
                },
            }
        }
        this
    }

    /// Write a word in the machine's order.
    fn store_word(&mut self, at: usize, word: u32)
        requires
            at + 4 <= 128,
        ensures
            forall|j: int|
                at <= j < at + 4 ==> #[trigger] final(self).storage@[j] == word_byte(word, j - at),
            forall|j: int|
                0 <= j < at || at + 4 <= j < 128 ==> #[trigger] final(self).storage@[j]
                    == old(self).storage@[j],
            final(self).len == old(self).len,
    {
        self.storage[at] = (word % 256) as u8;
        self.storage[at + 1] = (word / 256 % 256) as u8;
        self.storage[at + 2] = (word / 65536 % 256) as u8;
        self.storage[at + 3] = (word / 16777216) as u8;
    }

    /// Read a word in the machine's order.
    fn load_word(&self, at: usize) -> (word: u32)
        requires
            at + 4 <= 128,
        ensures
            word == word_of(self.bytes(), at as int),
    {
        self.storage[at] as u32 + self.storage[at + 1] as u32 * 256 + self.storage[at + 2] as u32
            * 65536 + self.storage[at + 3] as u32 * 16777216
    }

    /// Read back what the kernel wrote.
    pub fn to_socket_addr(&self) -> (addr: Result<SocketAddr, UnsupportedFamily>)
        ensures
            match addr {
                Ok(addr) => holds(self.bytes(), addr),
                Err(UnsupportedFamily(other)) => {
                    &&& other == family(self.bytes())
                    &&& other != AF_INET
                    &&& other != AF_INET6
                },
            },
    {
        let family = self.storage[0] as u16 + self.storage[1] as u16 * 256;
        let port = self.storage[2] as u16 * 256 + self.storage[3] as u16;
        if family == AF_INET {
            let ip = [self.storage[4], self.storage[5], self.storage[6], self.storage[7]];
            Ok(SocketAddr::V4(SocketAddrV4 { ip, port }))
        } else if family == AF_INET6 {
            let mut ip = [0u8;16];
            let mut i: usize = 0;
            while i < 16
                invariant
                    i <= 16,
                    forall|j: int| 0 <= j < i ==> #[trigger] ip@[j] == self.storage@[j + 8],
                decreases 16 - i,
            {
                ip[i] = self.storage[i + 8];
                i += 1;
            }
            Ok(
                SocketAddr::V6(
                    SocketAddrV6 {
                        ip,
                        port,
                        flowinfo: self.load_word(4),
                        scope_id: self.load_word(24),
                    },
                ),
            )
        } else {
            Err(UnsupportedFamily(family))
        }
    }

    /// The address family to open a socket in.
    pub fn domain(addr: SocketAddr) -> (domain: i32)
        ensures
            domain == match addr {
                SocketAddr::V4(_) => 2i32,
                SocketAddr::V6(_) => 10i32,
            },
    {
        match addr {
            SocketAddr::V4(_) => AF_INET as i32,
            SocketAddr::V6(_) => AF_INET6 as i32,
        }
    }

    /// The length the kernel should read, for an operation that takes it by value
    /// rather than by pointer.
    pub fn len(&self) -> (len: u32)
        ensures
            len == self.length(),
    {
        self.len
    }

    /// The bytes to give the kernel.
    pub fn storage(&self) -> (storage: &[u8; 128])
        ensures
            storage@ == self.bytes(),
    {
        &self.storage
    }

    /// Where the address and its length are, as an accept wants them, if both are
    /// laid out from `base` on: the storage first, then the length.
    pub fn ptrs(base: u64) -> (ptrs: (u64, u64))
        requires
            base + 128 <= u64::MAX,
        ensures
            ptrs == (base, (base + 128) as u64),
    {
        (base, base + 128)
    }
}

/// A word comes back out of its four bytes.
proof fn lemma_word(bytes: Seq<u8>, at: int, word: u32)
    requires
        bytes[at] == word_byte(word, 0),
        bytes[at + 1] == word_byte(word, 1),
        bytes[at + 2] == word_byte(word, 2),
        bytes[at + 3] == word_byte(word, 3),
    ensures
        word_of(bytes, at) == word,
{
}

/// The fixed parts of an encoded address.
proof fn lemma_encoded(addr: SocketAddr)
    ensures
        match addr {
            SocketAddr::V4(v4) => {
                &&& family(encoded(addr)) == AF_INET
                &&& port(encoded(addr)) == v4.port
                &&& forall|i: int| 0 <= i < 4 ==> #[trigger] encoded(addr)[i + 4] == v4.ip@[i]
            },
            SocketAddr::V6(v6) => {
                &&& family(encoded(addr)) == AF_INET6
                &&& port(encoded(addr)) == v6.port
                &&& word_of(encoded(addr), 4) == v6.flowinfo
                &&& forall|i: int| 0 <= i < 16 ==> #[trigger] encoded(addr)[i + 8] == v6.ip@[i]
                &&& word_of(encoded(addr), 24) == v6.scope_id
            },
        },
{
    match addr {
        SocketAddr::V4(_) => {},
        SocketAddr::V6(v6) => {
            lemma_word(encoded(addr), 4, v6.flowinfo);
            lemma_word(encoded(addr), 24, v6.scope_id);
        },
    }
}

/// An address survives the round trip: whatever is read back of what was encoded
/// is that address.
pub proof fn lemma_address_round_trips(addr: SocketAddr, read: SocketAddr)
    requires
        holds(encoded(addr), read),
    ensures
        read == addr,
{
    lemma_encoded(addr);
    let storage = encoded(addr);
    match (addr, read) {
        (SocketAddr::V4(v4), SocketAddr::V4(r)) => {
            assert forall|i: int| 0 <= i < 4 implies r.ip@[i] == v4.ip@[i] by {
                assert(storage[i + 4] == v4.ip@[i]);
            }
            assert(r.ip =~= v4.ip);
        },
        (SocketAddr::V6(v6), SocketAddr::V6(r)) => {
            assert forall|i: int| 0 <= i < 16 implies r.ip@[i] == v6.ip@[i] by {
                assert(storage[i + 8] == v6.ip@[i]);
            }
            assert(r.ip =~= v6.ip);
        },
        _ => {},
    }
}

/// What is encoded can be read back.
pub proof fn lemma_encoded_can_be_read(addr: SocketAddr)
    ensures
        family(encoded(addr)) == AF_INET || family(encoded(addr)) == AF_INET6,
        holds(encoded(addr), addr),
{
    lemma_encoded(addr);
    let storage = encoded(addr);
    match addr {
        SocketAddr::V4(v4) => {
            assert forall|i: int| 0 <= i < 4 implies #[trigger] v4.ip@[i] == storage[i + 4] by {}
        },
        SocketAddr::V6(v6) => {
            assert forall|i: int| 0 <= i < 16 implies #[trigger] v6.ip@[i] == storage[i + 8] by {}
        },
    }
}

/// An address that was never set is not mistaken for one.
pub proof fn lemma_an_unset_address_is_none(addr: SocketAddr)
    ensures
        !holds(Seq::new(128, |i: int| 0u8), addr),
{
    assert(family(Seq::new(128, |i: int| 0u8)) == 0);
}

/// The length of an address depends on its family alone: that of a `sockaddr_in`, or
/// that of a `sockaddr_in6`, whatever the address and the port. There is nothing
/// behind it.
pub proof fn lemma_the_length_goes_by_the_family(addr: SocketAddr, i: int)
    ensures
        addr is V4 ==> encoded_len(addr) == 16,
        addr is V6 ==> encoded_len(addr) == 28,
        encoded(addr).len() == 128,
        encoded_len(addr) <= i < 128 ==> encoded(addr)[i] == 0,
{
}

/// Every byte of an IPv4 address is where the kernel has it: the family in the first
/// two, the lower one first; the port in the next two, the higher one first; then the
/// address as it is written.
pub proof fn lemma_every_byte_of_v4(v4: SocketAddrV4)
    ensures
        ({
            let bytes = encoded(SocketAddr::V4(v4));
            &&& bytes[0] == 2
            &&& bytes[1] == 0
            &&& bytes[2] * 256 + bytes[3] == v4.port
            &&& bytes[4] == v4.ip@[0]
            &&& bytes[5] == v4.ip@[1]
            &&& bytes[6] == v4.ip@[2]
            &&& bytes[7] == v4.ip@[3]
            &&& forall|i: int| 8 <= i < 128 ==> #[trigger] bytes[i] == 0
        }),
{
}

/// Every byte of an IPv6 address is where the kernel has it: the family in the first
/// two, the lower one first; the port in the next two, the higher one first; the flow
/// information, the lowest first; the address as it is written; and the scope, the
/// lowest first.
pub proof fn lemma_every_byte_of_v6(v6: SocketAddrV6)
    ensures
        ({
            let bytes = encoded(SocketAddr::V6(v6));
            &&& bytes[0] == 10
            &&& bytes[1] == 0
            &&& bytes[2] * 256 + bytes[3] == v6.port
            &&& bytes[4] + bytes[5] * 0x100 + bytes[6] * 0x1_0000 + bytes[7] * 0x100_0000
                == v6.flowinfo
            &&& forall|i: int| 8 <= i < 24 ==> #[trigger] bytes[i] == v6.ip@[i - 8]
            &&& bytes[24] + bytes[25] * 0x100 + bytes[26] * 0x1_0000 + bytes[27] * 0x100_0000
                == v6.scope_id
            &&& forall|i: int| 28 <= i < 128 ==> #[trigger] bytes[i] == 0
        }),
{
}

/// What is read of a storage is what its bytes say, whatever wrote them: an IPv4
/// address where the family is 2 and an IPv6 address where it is 10, with the port
/// from the third and fourth byte, the higher one first.
pub proof fn lemma_what_is_read(storage: Seq<u8>, addr: SocketAddr)
    requires
        storage.len() == 128,
        holds(storage, addr),
    ensures
        storage[1] == 0,
        match addr {
            SocketAddr::V4(v4) => {
                &&& storage[0] == 2
                &&& v4.port == storage[2] * 256 + storage[3]
                &&& v4.ip@ == storage.subrange(4, 8)
            },
            SocketAddr::V6(v6) => {
                &&& storage[0] == 10
                &&& v6.port == storage[2] * 256 + storage[3]
                &&& v6.flowinfo == storage[4] + storage[5] * 0x100 + storage[6] * 0x1_0000
                    + storage[7] * 0x100_0000
                &&& v6.ip@ == storage.subrange(8, 24)
                &&& v6.scope_id == storage[24] + storage[25] * 0x100 + storage[26] * 0x1_0000
                    + storage[27] * 0x100_0000
            },
        },
{
    match addr {
        SocketAddr::V4(v4) => {
            assert(v4.ip@ =~= storage.subrange(4, 8));
        },
        SocketAddr::V6(v6) => {
            assert(v6.ip@ =~= storage.subrange(8, 24));
        },
    }
}

/// A storage says its family in its first two bytes, the lower one first.
pub proof fn lemma_the_family_is_first(storage: Seq<u8>)
    ensures
        family(storage) == storage[0] + storage[1] * 256,
        port(storage) == storage[2] * 256 + storage[3],
{
}

/// No two different addresses are encoded alike.
pub proof fn lemma_addresses_are_told_apart(a: SocketAddr, b: SocketAddr)
    requires
        encoded(a) == encoded(b),
    ensures
        a == b,
{
    lemma_encoded_can_be_read(b);
    lemma_address_round_trips(a, b);
}

} // verus!
