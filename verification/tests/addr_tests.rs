use socktail::addr::{parse_ip, parse_ipv4, parse_ipv6, parse_port, parse_sock_addr, IpAddress};

#[test]
fn test_parse_ipv4_basic() {
    assert_eq!(parse_ipv4(b"127.0.0.1"), Some(IpAddress::V4(127, 0, 0, 1)));
    assert_eq!(parse_ipv4(b"255.255.255.255"), Some(IpAddress::V4(255, 255, 255, 255)));
    assert_eq!(parse_ipv4(b"0.0.0.0"), Some(IpAddress::V4(0, 0, 0, 0)));
    assert_eq!(parse_ipv4(b"100.64.0.3"), Some(IpAddress::V4(100, 64, 0, 3)));
}

#[test]
fn test_parse_ipv4_rejects() {
    assert_eq!(parse_ipv4(b""), None);
    assert_eq!(parse_ipv4(b"1.2.3"), None);
    assert_eq!(parse_ipv4(b"1.2.3.4.5"), None);
    assert_eq!(parse_ipv4(b"1.2.3.256"), None);
    assert_eq!(parse_ipv4(b"01.2.3.4"), None);
    assert_eq!(parse_ipv4(b"1..3.4"), None);
    assert_eq!(parse_ipv4(b"a.b.c.d"), None);
}

#[test]
fn test_parse_ipv6_basic() {
    assert_eq!(parse_ipv6(b"::"), Some(0));
    assert_eq!(parse_ipv6(b"::1"), Some(1));
    assert_eq!(parse_ipv6(b"1::"), Some(1u128 << 112));
    assert_eq!(
        parse_ipv6(b"1:2:3:4:5:6:7:8"),
        Some(
            (1u128 << 112) | (2u128 << 96) | (3u128 << 80) | (4u128 << 64) | (5u128 << 48)
                | (6u128 << 32) | (7u128 << 16) | 8
        )
    );
    assert_eq!(parse_ipv6(b"1::8"), Some((1u128 << 112) | 8));
    assert_eq!(
        parse_ipv6(b"fd7a:115c:a1e0::1"),
        Some((0xfd7au128 << 112) | (0x115cu128 << 96) | (0xa1e0u128 << 80) | 1)
    );
    // Group case and leading zeros are accepted.
    assert_eq!(parse_ipv6(b"00FF::"), Some(0xffu128 << 112));
}

#[test]
fn test_parse_ipv6_rejects() {
    assert_eq!(parse_ipv6(b""), None);
    assert_eq!(parse_ipv6(b":"), None);
    assert_eq!(parse_ipv6(b":1:2:3:4:5:6:7"), None);
    assert_eq!(parse_ipv6(b"1:2:3:4:5:6:7"), None);
    assert_eq!(parse_ipv6(b"1:2:3:4:5:6:7:8:9"), None);
    assert_eq!(parse_ipv6(b"1:::2"), None);
    assert_eq!(parse_ipv6(b"1::2::3"), None);
    assert_eq!(parse_ipv6(b"1:2:3:4:5:6:7:8::"), None);
    assert_eq!(parse_ipv6(b"12345::"), None);
    assert_eq!(parse_ipv6(b"g::"), None);
}

#[test]
fn test_parse_ip_tries_both_forms() {
    assert_eq!(parse_ip(b"10.0.0.7"), Some(IpAddress::V4(10, 0, 0, 7)));
    assert_eq!(parse_ip(b"::1"), Some(IpAddress::V6(1)));
    assert_eq!(parse_ip(b"neither"), None);
}

#[test]
fn test_parse_port_values() {
    assert_eq!(parse_port(b"0"), Some(0));
    assert_eq!(parse_port(b"80"), Some(80));
    assert_eq!(parse_port(b"0080"), Some(80));
    assert_eq!(parse_port(b"65535"), Some(65535));
    assert_eq!(parse_port(b"65536"), None);
    assert_eq!(parse_port(b""), None);
    assert_eq!(parse_port(b"123456"), None);
    assert_eq!(parse_port(b"8o"), None);
}

#[test]
fn test_parse_sock_addr_forms() {
    let a = parse_sock_addr(b"192.168.1.10:41641").unwrap();
    assert_eq!(a.ip, IpAddress::V4(192, 168, 1, 10));
    assert_eq!(a.port, 41641);

    let b = parse_sock_addr(b"[fd7a::2]:3478").unwrap();
    assert_eq!(b.ip, IpAddress::V6((0xfd7au128 << 112) | 2));
    assert_eq!(b.port, 3478);

    assert!(parse_sock_addr(b"192.168.1.10").is_none());
    assert!(parse_sock_addr(b"[fd7a::2]").is_none());
    assert!(parse_sock_addr(b"[fd7a::2]3478").is_none());
    assert!(parse_sock_addr(b"fd7a::2:3478").is_none());
    assert!(parse_sock_addr(b"1.2.3.4:").is_none());
}
