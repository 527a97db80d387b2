use socktail::addr::IpAddress;
use socktail::socks5::protocol::{
    auth_response, connect_response, AuthRequest, ConnectRequest, Socks5Error, TargetAddr,
    AUTH_NO_AUTH, CMD_CONNECT, REP_ADDRESS_TYPE_NOT_SUPPORTED, REP_COMMAND_NOT_SUPPORTED,
    REP_CONNECTION_NOT_ALLOWED, REP_CONNECTION_REFUSED, REP_GENERAL_FAILURE, REP_HOST_UNREACHABLE,
    REP_NETWORK_UNREACHABLE, REP_SUCCESS, REP_TTL_EXPIRED,
};

#[test]
fn test_auth_request_parsing() {
    let buf = [0x05u8, 0x02, 0x00, 0x02];
    let auth = AuthRequest::parse(&buf).unwrap();

    assert_eq!(auth.version, 0x05);
    assert_eq!(auth.methods, vec![0x00, 0x02]);
    assert!(auth.supports_method(AUTH_NO_AUTH));
}

#[test]
fn test_connect_ipv4() {
    let buf = [
        0x05u8, 0x01, 0x00, 0x01, // version, command, reserved, address type
        0x7F, 0x00, 0x00, 0x01, // 127.0.0.1
        0x00, 0x50, // port 80
    ];

    let req = ConnectRequest::parse(&buf).unwrap();
    assert_eq!(req.command, CMD_CONNECT);

    if let TargetAddr::Ip(ip, port) = req.target {
        assert_eq!(port, 80);
        if let IpAddress::V4(a, b, c, d) = ip {
            assert!(format!("{}.{}.{}.{}", a, b, c, d).contains("127.0.0.1"));
        } else {
            panic!("Expected a v4 address");
        }
    } else {
        panic!("Expected IP address");
    }
}

#[test]
fn test_connect_domain() {
    let buf = [
        0x05u8, 0x01, 0x00, 0x03, // version, command, reserved, address type
        0x0B, // domain length (11)
        b'e', b'x', b'a', b'm', b'p', b'l', b'e', b'.', b'c', b'o', b'm', 0x01,
        0xBB, // port 443
    ];

    let req = ConnectRequest::parse(&buf).unwrap();

    if let TargetAddr::Domain(domain, port) = req.target {
        assert_eq!(String::from_utf8(domain).unwrap(), "example.com");
        assert_eq!(port, 443);
    } else {
        panic!("Expected domain");
    }
}

#[test]
fn test_connect_ipv6() {
    let mut buf = vec![0x05u8, 0x01, 0x00, 0x04];
    let mut addr = [0u8; 16];
    addr[15] = 1; // ::1
    buf.extend_from_slice(&addr);
    buf.extend_from_slice(&[0x1F, 0x90]); // port 8080

    let req = ConnectRequest::parse(&buf).unwrap();
    if let TargetAddr::Ip(ip, port) = req.target {
        assert_eq!(ip, IpAddress::V6(1));
        assert_eq!(port, 8080);
    } else {
        panic!("Expected IP address");
    }
}

#[test]
fn test_greeting_truncated() {
    // Shorter than the fixed header.
    assert!(matches!(AuthRequest::parse(&[]), Err(Socks5Error::InvalidData)));
    assert!(matches!(AuthRequest::parse(&[0x05]), Err(Socks5Error::InvalidData)));
    // Claims two methods, carries one.
    assert!(matches!(AuthRequest::parse(&[0x05, 0x02, 0x00]), Err(Socks5Error::InvalidData)));
}

#[test]
fn test_connect_truncated() {
    assert!(matches!(ConnectRequest::parse(&[0x05, 0x01, 0x00]), Err(Socks5Error::InvalidData)));
    // IPv4 with too few address bytes.
    assert!(matches!(
        ConnectRequest::parse(&[0x05, 0x01, 0x00, 0x01, 0x7F, 0x00]),
        Err(Socks5Error::InvalidData)
    ));
    // Domain whose name is cut short.
    assert!(matches!(
        ConnectRequest::parse(&[0x05, 0x01, 0x00, 0x03, 0x0B, b'e', b'x']),
        Err(Socks5Error::InvalidData)
    ));
    // IPv6 with too few address bytes.
    assert!(matches!(
        ConnectRequest::parse(&[0x05, 0x01, 0x00, 0x04, 0x00, 0x00]),
        Err(Socks5Error::InvalidData)
    ));
}

#[test]
fn test_connect_unknown_address_type() {
    let buf = [0x05u8, 0x01, 0x00, 0x02, 0x00, 0x00, 0x00, 0x00, 0x00, 0x00];
    assert!(matches!(
        ConnectRequest::parse(&buf),
        Err(Socks5Error::UnsupportedAddressType(0x02))
    ));
}

#[test]
fn test_parse_idempotent() {
    let buf = [
        0x05u8, 0x01, 0x00, 0x01, 0x7F, 0x00, 0x00, 0x01, 0x00, 0x50,
    ];
    let first = ConnectRequest::parse(&buf).unwrap();
    let second = ConnectRequest::parse(&buf).unwrap();
    assert_eq!(first.version, second.version);
    assert_eq!(first.command, second.command);
    assert_eq!(first.target, second.target);

    let greeting = [0x05u8, 0x01, 0x00];
    let a = AuthRequest::parse(&greeting).unwrap();
    let b = AuthRequest::parse(&greeting).unwrap();
    assert_eq!(a.version, b.version);
    assert_eq!(a.methods, b.methods);
}

#[test]
fn test_target_to_string() {
    let t = TargetAddr::Ip(IpAddress::V4(127, 0, 0, 1), 80);
    assert_eq!(t.to_string(), "127.0.0.1:80");

    let t = TargetAddr::Ip(IpAddress::V6(1), 8080);
    assert_eq!(t.to_string(), "[0:0:0:0:0:0:0:1]:8080");

    let t = TargetAddr::Ip(IpAddress::V6((0xfd7au128 << 112) | 0xbeef), 443);
    assert_eq!(t.to_string(), "[fd7a:0:0:0:0:0:0:beef]:443");

    let t = TargetAddr::Domain(b"example.com".to_vec(), 443);
    assert_eq!(t.to_string(), "example.com:443");
}

#[test]
fn test_auth_response_bytes() {
    assert_eq!(auth_response(0x00), [0x05, 0x00]);
    assert_eq!(auth_response(0xFF), [0x05, 0xFF]);
}

#[test]
fn test_connect_response_status_roundtrip() {
    let statuses = [
        REP_SUCCESS,
        REP_GENERAL_FAILURE,
        REP_CONNECTION_NOT_ALLOWED,
        REP_NETWORK_UNREACHABLE,
        REP_HOST_UNREACHABLE,
        REP_CONNECTION_REFUSED,
        REP_TTL_EXPIRED,
        REP_COMMAND_NOT_SUPPORTED,
        REP_ADDRESS_TYPE_NOT_SUPPORTED,
    ];
    for status in statuses {
        let reply = connect_response(status);
        assert_eq!(reply.len(), 10);
        assert_eq!(reply[1], status);
        assert_eq!(reply[0], 0x05);
        assert_eq!(&reply[2..], &[0x00, 0x01, 0, 0, 0, 0, 0, 0]);
    }
}
