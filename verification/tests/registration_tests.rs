use base64::Engine;
use socktail::addr::IpAddress;
use socktail::vpn::client::TailscaleRust;
use socktail::vpn::manager::TailscaleManager;
use socktail::vpn::native::TailscaleNative;
use socktail::vpn::peers::{PeerRecord, PeerTable};
use socktail::vpn::registration::{
    ingest_registration, registration_outcome, registration_url, RawPeerEntry, RawRegistration,
    RegistrationError,
};

fn b64(bytes: &[u8]) -> Vec<u8> {
    base64::engine::general_purpose::STANDARD.encode(bytes).into_bytes()
}

fn entry(key: Vec<u8>, addresses: &[&str], endpoints: &[&str]) -> RawPeerEntry {
    RawPeerEntry {
        key,
        addresses: addresses.iter().map(|a| a.as_bytes().to_vec()).collect(),
        endpoints: endpoints.iter().map(|e| e.as_bytes().to_vec()).collect(),
    }
}

#[test]
fn test_ingest_keeps_valid_and_skips_invalid_peers() {
    let good_key = [7u8; 32];
    let short_key = [7u8; 16];
    let resp = RawRegistration {
        ip_addresses: vec![b"100.64.0.1".to_vec()],
        peers: vec![
            entry(b64(&good_key), &["100.64.0.2"], &["203.0.113.9:41641"]),
            // Key decodes to fewer than 32 bytes: excluded.
            entry(b64(&short_key), &["100.64.0.3"], &[]),
            // Key is not valid base64: excluded.
            entry(b"!!notbase64!!".to_vec(), &["100.64.0.4"], &[]),
            // No parseable address: excluded.
            entry(b64(&good_key), &["not-an-ip"], &[]),
            // No address at all: excluded.
            entry(b64(&good_key), &[], &[]),
            // Valid peer with an unparseable endpoint: kept, endpoint dropped.
            entry(b64(&[9u8; 32]), &["fd7a::7"], &["bogus"]),
        ],
    };

    let result = ingest_registration(&resp).unwrap();
    assert_eq!(result.assigned_address, IpAddress::V4(100, 64, 0, 1));
    assert_eq!(result.peers.len(), 2);

    assert_eq!(result.peers[0].public_key, good_key.to_vec());
    assert_eq!(result.peers[0].overlay_address, IpAddress::V4(100, 64, 0, 2));
    let ep = result.peers[0].endpoint.unwrap();
    assert_eq!(ep.ip, IpAddress::V4(203, 0, 113, 9));
    assert_eq!(ep.port, 41641);

    assert_eq!(result.peers[1].public_key, [9u8; 32].to_vec());
    assert_eq!(result.peers[1].overlay_address, IpAddress::V6((0xfd7au128 << 112) | 7));
    assert_eq!(result.peers[1].endpoint, None);
}

#[test]
fn test_ingest_failures() {
    let resp = RawRegistration { ip_addresses: vec![], peers: vec![] };
    assert_eq!(ingest_registration(&resp).unwrap_err(), RegistrationError::NoAssignedAddress);

    let resp = RawRegistration { ip_addresses: vec![b"not-an-ip".to_vec()], peers: vec![] };
    assert_eq!(
        ingest_registration(&resp).unwrap_err(),
        RegistrationError::InvalidAssignedAddress
    );
}

#[test]
fn test_registration_outcome() {
    assert_eq!(
        registration_outcome(403, None).unwrap_err(),
        RegistrationError::HttpStatus(403)
    );
    assert_eq!(
        registration_outcome(500, Some(RawRegistration { ip_addresses: vec![], peers: vec![] }))
            .unwrap_err(),
        RegistrationError::HttpStatus(500)
    );
    assert_eq!(
        registration_outcome(200, None).unwrap_err(),
        RegistrationError::UnparsableResponse
    );
    let ok = registration_outcome(
        200,
        Some(RawRegistration { ip_addresses: vec![b"100.100.1.1".to_vec()], peers: vec![] }),
    )
    .unwrap();
    assert_eq!(ok.assigned_address, IpAddress::V4(100, 100, 1, 1));
    assert_eq!(ok.peers.len(), 0);
}

#[test]
fn test_peer_table_dedup_and_lookup() {
    let mk = |key: [u8; 32], last: u8| PeerRecord {
        public_key: key.to_vec(),
        overlay_address: IpAddress::V4(100, 64, 0, last),
        endpoint: None,
    };
    let peers = vec![mk([1u8; 32], 1), mk([2u8; 32], 2), mk([1u8; 32], 9)];
    let table = PeerTable::build(&peers);

    // The duplicate key keeps its first record.
    assert_eq!(table.len(), 2);
    assert_eq!(table.get(0).overlay_address, IpAddress::V4(100, 64, 0, 1));
    assert_eq!(table.get(1).overlay_address, IpAddress::V4(100, 64, 0, 2));

    let found = table.lookup(&[2u8; 32]).unwrap();
    assert_eq!(found.overlay_address, IpAddress::V4(100, 64, 0, 2));
    assert!(table.lookup(&[3u8; 32]).is_none());
}

#[test]
fn test_registration_url() {
    assert_eq!(
        registration_url("https://controlplane.tailscale.com"),
        "https://controlplane.tailscale.com/machine/register"
    );
    assert_eq!(registration_url("https://headscale.local"), "https://headscale.local/machine/register");
}

#[test]
fn test_create_client() {
    let client = TailscaleRust::new();
    assert!(!client.is_connected());
    assert!(client.get_ip().is_none());
    assert_eq!(client.peer_count(), 0);
}

#[test]
fn test_set_config() {
    let mut client = TailscaleRust::new();
    client.set_hostname("test-node");
    client.set_authkey("tskey-test");
    assert_eq!(client.hostname, "test-node");
    assert_eq!(client.authkey, "tskey-test");
}

#[test]
fn test_client_node_key_is_base64_of_public_key() {
    let client = TailscaleRust::new();
    let request = client.build_register_request("linux");
    let expected = base64::engine::general_purpose::STANDARD
        .encode(client.identity.public_key().as_slice());
    assert_eq!(request.node_key, expected);
    assert_eq!(request.os, "linux");
}

#[test]
fn test_client_public_key_matches_x25519() {
    let client = TailscaleRust::new();
    let private = client.identity.private_key();
    assert_eq!(private.len(), 32);
    let mut sk = [0u8; 32];
    sk.copy_from_slice(private.as_slice());
    let secret = x25519_dalek::StaticSecret::from(sk);
    let public = x25519_dalek::PublicKey::from(&secret);
    assert_eq!(client.identity.public_key().as_slice(), public.as_bytes());
}

#[test]
fn test_client_register_and_disconnect() {
    let mut client = TailscaleRust::new();
    client.set_control_url("https://headscale.local");
    assert_eq!(client.register_url(), "https://headscale.local/machine/register");

    let resp = RawRegistration {
        ip_addresses: vec![b"100.64.0.5".to_vec()],
        peers: vec![entry(b64(&[4u8; 32]), &["100.64.0.6"], &[])],
    };
    let result = ingest_registration(&resp).unwrap();
    client.apply_registration(&result);
    assert!(client.is_connected());
    assert_eq!(client.get_ip(), Some(IpAddress::V4(100, 64, 0, 5)));
    assert_eq!(client.peer_count(), 1);

    client.disconnect();
    assert!(!client.is_connected());
    assert!(client.get_ip().is_none());
    assert_eq!(client.peer_count(), 0);
}

#[test]
fn test_manager_up_args() {
    let m = TailscaleManager::new("node-1".to_string(), "tskey-abc".to_string(), None);
    assert!(!m.is_connected());
    assert_eq!(m.up_args(), vec!["up", "--authkey", "tskey-abc", "--hostname", "node-1"]);

    let m = TailscaleManager::new(
        "node-1".to_string(),
        "tskey-abc".to_string(),
        Some("https://headscale.local".to_string()),
    );
    assert_eq!(
        m.up_args(),
        vec![
            "up",
            "--authkey",
            "tskey-abc",
            "--hostname",
            "node-1",
            "--login-server",
            "https://headscale.local"
        ]
    );
}

#[test]
fn test_manager_connection_tracking() {
    let mut m = TailscaleManager::new("n".to_string(), "k".to_string(), None);
    m.on_up_result(false);
    assert!(!m.is_connected());
    m.on_up_result(true);
    assert!(m.is_connected());
    m.mark_disconnected();
    assert!(!m.is_connected());
}

#[test]
fn test_native_handle_tracking() {
    assert!(TailscaleNative::from_handle(-1).is_none());
    let mut t = TailscaleNative::from_handle(3).unwrap();
    assert!(!t.is_connected());
    t.on_up_result(true);
    assert!(t.is_connected());
    t.on_close_result(false);
    assert!(t.is_connected());
    t.on_close_result(true);
    assert!(!t.is_connected());
}
