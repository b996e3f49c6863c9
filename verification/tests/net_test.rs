use qubwic::net::{parse_socket_addr, SocketAddress};

fn v4(s: &str) -> Option<([u8; 4], u16)> {
    match parse_socket_addr(s) {
        Some(SocketAddress::V4 { octets, port }) => Some((octets, port)),
        _ => None,
    }
}

fn v6(s: &str) -> Option<([u16; 8], u16, u32)> {
    match parse_socket_addr(s) {
        Some(SocketAddress::V6 { segments, port, scope_id }) => Some((segments, port, scope_id)),
        _ => None,
    }
}

#[test]
fn reads_ipv4_socket_addresses() {
    assert_eq!(v4("127.0.0.1:4433"), Some(([127, 0, 0, 1], 4433)));
    assert_eq!(v4("0.0.0.0:0"), Some(([0, 0, 0, 0], 0)));
    assert_eq!(v4("255.255.255.255:65535"), Some(([255, 255, 255, 255], 65535)));
    assert_eq!(v4("1.2.3.4:0080"), Some(([1, 2, 3, 4], 80)));
}

#[test]
fn rejects_bad_ipv4_socket_addresses() {
    for s in [
        "invalid-ip", "", ":80", "1.2.3.4", "1.2.3.4:", "1.2.3:80", "1.2.3.4.5:80",
        "256.0.0.1:80", "01.2.3.4:80", "1.2.3.4:65536", "1.2.3.4:-1", "1.2.3.4:+1",
        "1.2.3.4 :80", "localhost:80", "1.2.3.4:80:90", "1..3.4:80",
    ] {
        assert_eq!(parse_socket_addr(s), None, "{}", s);
    }
}

#[test]
fn reads_ipv6_socket_addresses() {
    assert_eq!(v6("[::1]:443"), Some(([0, 0, 0, 0, 0, 0, 0, 1], 443, 0)));
    assert_eq!(v6("[::]:1"), Some(([0; 8], 1, 0)));
    assert_eq!(v6("[1:2:3:4:5:6:7:8]:9"), Some(([1, 2, 3, 4, 5, 6, 7, 8], 9, 0)));
    assert_eq!(v6("[fe80::1%3]:80"), Some(([0xfe80, 0, 0, 0, 0, 0, 0, 1], 80, 3)));
    assert_eq!(v6("[::ffff:1.2.3.4]:80"), Some(([0, 0, 0, 0, 0, 0xffff, 0x0102, 0x0304], 80, 0)));
    assert_eq!(v6("[1:2:3:4:5:6:7::]:1"), Some(([1, 2, 3, 4, 5, 6, 7, 0], 1, 0)));
    assert_eq!(v6("[::2:3:4:5:6:7:8]:1"), Some(([0, 2, 3, 4, 5, 6, 7, 8], 1, 0)));
    assert_eq!(v6("[1:2:3:4:5:6:1.2.3.4]:1"), Some(([1, 2, 3, 4, 5, 6, 0x0102, 0x0304], 1, 0)));
    assert_eq!(v6("[ABCD::ef]:2"), Some(([0xabcd, 0, 0, 0, 0, 0, 0, 0xef], 2, 0)));
}

#[test]
fn rejects_bad_ipv6_socket_addresses() {
    for s in [
        "[::1]", "::1:80", "[::1]80", "[1:2:3:4:5:6:7:8:9]:1", "[1::2::3]:1", "[1:2:3:4:5:6:7:8::]:1",
        "[:1::2]:1", "[1:::2]:1", "[12345::]:1", "[1.2.3.4::]:1", "[::1.2.3.4:5]:1",
        "[fe80::1%]:80", "[fe80::1%x]:80", "[::1]:65536", "[1:2:3:4:5:6:7:1.2.3.4]:1",
        "[::1]]:80", "[[::1]:80", "[g::1]:80",
    ] {
        assert_eq!(parse_socket_addr(s), None, "{}", s);
    }
}

