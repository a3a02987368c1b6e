use scr::net::addr::{SockAddr, SocketAddr, SocketAddrV4, SocketAddrV6, UnsupportedFamily};

fn v4(ip: [u8; 4], port: u16) -> SocketAddr {
    SocketAddr::V4(SocketAddrV4 { ip, port })
}

#[test]
fn an_ipv4_address_survives_the_round_trip() {
    // 192.0.2.17:8080
    let addr = v4([192, 0, 2, 17], 8080);
    let encoded = SockAddr::from_socket_addr(addr);

    assert_eq!(encoded.len(), size_of::<libc::sockaddr_in>() as u32);
    assert_eq!(encoded.to_socket_addr().unwrap(), addr);
}

#[test]
fn an_ipv6_address_survives_the_round_trip() {
    // [2001:db8::1]:443
    let addr = SocketAddr::V6(SocketAddrV6 {
        ip: [0x20, 0x01, 0x0d, 0xb8, 0, 0, 0, 0, 0, 0, 0, 0, 0, 0, 0, 1],
        port: 443,
        flowinfo: 0,
        scope_id: 0,
    });
    let encoded = SockAddr::from_socket_addr(addr);

    assert_eq!(encoded.len(), size_of::<libc::sockaddr_in6>() as u32);
    assert_eq!(encoded.to_socket_addr().unwrap(), addr);
}

/// The port has to reach the wire big-endian whatever the host does.
#[test]
fn the_port_is_stored_in_network_order() {
    // 127.0.0.1:258
    let encoded = SockAddr::from_socket_addr(v4([127, 0, 0, 1], 258));
    assert_eq!(encoded.storage()[2..4], [1, 2], "258 == 0x0102");
}

#[test]
fn an_unset_address_is_not_mistaken_for_one() {
    assert!(SockAddr::zeroed().to_socket_addr().is_err());
}

#[test]
fn a_fresh_address_offers_the_whole_storage_to_the_kernel() {
    let addr = SockAddr::zeroed();
    assert_eq!(addr.len(), 128);
    let (storage, len) = SockAddr::ptrs(0x1000);
    assert_eq!(storage, 0x1000);
    assert_eq!(len, 0x1000 + size_of::<libc::sockaddr_storage>() as u64);
}

/// Every byte of both encodings.
#[test]
fn an_address_is_laid_out_as_the_system_has_it() {
    let encoded = SockAddr::from_socket_addr(v4([192, 0, 2, 17], 8080));
    let mut expected = [0u8; 128];
    expected[..8].copy_from_slice(&[libc::AF_INET as u8, 0, 0x1f, 0x90, 192, 0, 2, 17]);
    assert_eq!(*encoded.storage(), expected);

    let addr = SocketAddr::V6(SocketAddrV6 {
        ip: [1, 2, 3, 4, 5, 6, 7, 8, 9, 10, 11, 12, 13, 14, 15, 16],
        port: 0xabcd,
        flowinfo: 0x0102_0304,
        scope_id: 0x0506_0708,
    });
    let encoded = SockAddr::from_socket_addr(addr);
    let mut expected = [0u8; 128];
    expected[..4].copy_from_slice(&[libc::AF_INET6 as u8, 0, 0xab, 0xcd]);
    expected[4..8].copy_from_slice(&0x0102_0304u32.to_ne_bytes());
    for i in 0..16 {
        expected[8 + i] = i as u8 + 1;
    }
    expected[24..28].copy_from_slice(&0x0506_0708u32.to_ne_bytes());
    assert_eq!(*encoded.storage(), expected);
    assert_eq!(encoded.to_socket_addr(), Ok(addr));
}

/// What the kernel filled in is read back, and another family is refused with
/// its number.
#[test]
fn a_foreign_family_is_refused_by_number() {
    let mut storage = [0u8; 128];
    storage[0] = 17;
    let addr = SockAddr::from_kernel(storage, 20);
    assert_eq!(addr.len(), 20);
    let refused = addr.to_socket_addr().unwrap_err();
    assert_eq!(refused, UnsupportedFamily(17));
    assert_eq!(refused.message(), "unsupported address family 17");

    storage[..8].copy_from_slice(&[2, 0, 0, 80, 10, 0, 0, 1]);
    let addr = SockAddr::from_kernel(storage, 16);
    assert_eq!(addr.to_socket_addr(), Ok(v4([10, 0, 0, 1], 80)));
}

#[test]
fn the_domain_follows_the_family() {
    assert_eq!(SockAddr::domain(v4([0; 4], 0)), libc::AF_INET);
    let six = SocketAddr::V6(SocketAddrV6 {
        ip: [0; 16],
        port: 0,
        flowinfo: 0,
        scope_id: 0,
    });
    assert_eq!(SockAddr::domain(six), libc::AF_INET6);
}
