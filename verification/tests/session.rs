use socktail::addr::IpAddress;
use socktail::socks5::protocol::{Socks5Error, TargetAddr};
use socktail::socks5::relay::{Direction, RelayAction, RelayState};
use socktail::socks5::server::Socks5Server;
use socktail::socks5::session::{
    CloseReason, ConnectionState, DialOutcome, GreetingDecision, RequestDecision, Session,
};

#[test]
fn test_session_happy_path() {
    let mut s = Session::new();
    assert_eq!(s.state, ConnectionState::AwaitingGreeting);

    // Greeting offering no-authentication among two methods.
    let d = s.on_greeting(&[0x05, 0x02, 0x00, 0x02]);
    match d {
        GreetingDecision::Proceed(reply) => assert_eq!(reply, [0x05, 0x00]),
        _ => panic!("expected the handshake to proceed"),
    }
    assert_eq!(s.state, ConnectionState::AwaitingRequest);

    let d = s.on_request(&[0x05, 0x01, 0x00, 0x01, 0x7F, 0x00, 0x00, 0x01, 0x00, 0x50]);
    match d {
        RequestDecision::Dial(TargetAddr::Ip(ip, port)) => {
            assert_eq!(ip, IpAddress::V4(127, 0, 0, 1));
            assert_eq!(port, 80);
        },
        _ => panic!("expected a dial"),
    }
    assert_eq!(s.state, ConnectionState::Connecting);

    let reply = s.on_dial_result(DialOutcome::Connected);
    assert_eq!(reply, vec![0x05, 0x00, 0x00, 0x01, 0, 0, 0, 0, 0, 0]);
    assert_eq!(s.state, ConnectionState::Relaying);

    s.on_relay_finished();
    assert_eq!(s.state, ConnectionState::Closed(CloseReason::Done));
    assert!(s.is_closed());
}

#[test]
fn test_session_selects_no_auth() {
    // Every greeting offering no-authentication proceeds; this is one with
    // three methods.
    let mut s = Session::new();
    let d = s.on_greeting(&[0x05, 0x03, 0x01, 0x02, 0x00]);
    assert!(matches!(d, GreetingDecision::Proceed(_)));
    assert_eq!(s.state, ConnectionState::AwaitingRequest);
}

#[test]
fn test_session_rejects_without_no_auth() {
    // A greeting omitting no-authentication gets the no-acceptable reply and
    // the session closes.
    let mut s = Session::new();
    let d = s.on_greeting(&[0x05, 0x02, 0x01, 0x02]);
    match d {
        GreetingDecision::Reject(Some(reply), e) => {
            assert_eq!(reply, [0x05, 0xFF]);
            assert_eq!(e, Socks5Error::AuthFailed);
        },
        _ => panic!("expected a rejection with the no-acceptable reply"),
    }
    assert_eq!(s.state, ConnectionState::Closed(CloseReason::AuthFailed));
}

#[test]
fn test_session_version_mismatch() {
    let mut s = Session::new();
    let d = s.on_greeting(&[0x04, 0x01, 0x00]);
    match d {
        GreetingDecision::Reject(None, e) => {
            assert_eq!(e, Socks5Error::UnsupportedVersion(0x04));
        },
        _ => panic!("expected a silent rejection"),
    }
    assert_eq!(s.state, ConnectionState::Closed(CloseReason::VersionMismatch));
}

#[test]
fn test_session_malformed_greeting() {
    let mut s = Session::new();
    let d = s.on_greeting(&[0x05]);
    assert!(matches!(d, GreetingDecision::Reject(None, Socks5Error::InvalidData)));
    assert_eq!(s.state, ConnectionState::Closed(CloseReason::Malformed));
}

#[test]
fn test_session_unsupported_command() {
    let mut s = Session::new();
    s.on_greeting(&[0x05, 0x01, 0x00]);
    // BIND is not supported.
    let d = s.on_request(&[0x05, 0x02, 0x00, 0x01, 0x7F, 0x00, 0x00, 0x01, 0x00, 0x50]);
    match d {
        RequestDecision::Reject(Some(reply), e) => {
            assert_eq!(reply[1], 0x07);
            assert_eq!(e, Socks5Error::UnsupportedCommand(0x02));
        },
        _ => panic!("expected the command-not-supported reply"),
    }
    assert_eq!(s.state, ConnectionState::Closed(CloseReason::UnsupportedCommand));
}

#[test]
fn test_session_unsupported_address_type() {
    let mut s = Session::new();
    s.on_greeting(&[0x05, 0x01, 0x00]);
    let d = s.on_request(&[0x05, 0x01, 0x00, 0x05, 0, 0, 0, 0, 0, 0]);
    assert!(matches!(
        d,
        RequestDecision::Reject(None, Socks5Error::UnsupportedAddressType(0x05))
    ));
    assert_eq!(s.state, ConnectionState::Closed(CloseReason::UnsupportedAddress));
}

#[test]
fn test_session_dial_failures() {
    let mut s = Session::new();
    s.on_greeting(&[0x05, 0x01, 0x00]);
    s.on_request(&[0x05, 0x01, 0x00, 0x01, 0x7F, 0x00, 0x00, 0x01, 0x00, 0x50]);
    let reply = s.on_dial_result(DialOutcome::Refused);
    assert_eq!(reply[1], 0x05);
    assert_eq!(s.state, ConnectionState::Closed(CloseReason::DialFailed));

    let mut s = Session::new();
    s.on_greeting(&[0x05, 0x01, 0x00]);
    s.on_request(&[0x05, 0x01, 0x00, 0x01, 0x7F, 0x00, 0x00, 0x01, 0x00, 0x50]);
    let reply = s.on_dial_result(DialOutcome::Failed);
    assert_eq!(reply[1], 0x01);
    assert_eq!(s.state, ConnectionState::Closed(CloseReason::DialFailed));
}

#[test]
fn test_relay_half_close_and_completion() {
    // One side's source ending half-closes the opposite write side, and the
    // engine completes only once both directions have finished.
    let mut r = RelayState::new();
    assert!(!r.is_complete());

    let a = r.on_source_done(Direction::ClientToTarget);
    assert_eq!(a, RelayAction::HalfCloseDestination(Direction::ClientToTarget));
    assert!(!r.is_complete());

    let a = r.on_source_done(Direction::TargetToClient);
    assert_eq!(a, RelayAction::HalfCloseDestination(Direction::TargetToClient));
    assert!(r.is_complete());
}

#[test]
fn test_relay_order_does_not_matter() {
    let mut r = RelayState::new();
    r.on_source_done(Direction::TargetToClient);
    assert!(!r.is_complete());
    r.on_source_done(Direction::ClientToTarget);
    assert!(r.is_complete());
}

#[test]
fn test_server_new() {
    let server = Socks5Server::new("127.0.0.1:1080".to_string());
    assert_eq!(server.listen_addr().as_str(), "127.0.0.1:1080");
}
