//! The control-plane registration exchange: building the request, judging the
//! response, and ingesting the peer list. The HTTP transfer itself is the
//! caller's; this module holds every decision about its content.

use vstd::prelude::*;
use vstd::string::StringExecFns;
use crate::addr::{spec_parse_ip, spec_parse_sock_addr, IpAddress};
use crate::vpn::identity::OverlayIdentity;
use crate::vpn::peers::{spec_dedup, PeerRecord, PeerTable, PeerView};

verus! {

/// The name of the text that standard base64 encoding makes of a byte string;
/// it is a function of the bytes alone.
pub uninterp spec fn base64_of(b: Seq<u8>) -> Seq<char>;

/// Relies on the base64 crate's standard-alphabet engine `encode`: padded
/// standard base64 text, a function of the bytes alone.
#[verifier::external_body]
fn base64_encode(b: &[u8]) -> (r: String)
    ensures
        r@ == base64_of(b@),
{
    base64::Engine::encode(&base64::engine::general_purpose::STANDARD, b)
}

/// The name of the bytes that standard base64 decoding makes of a byte
/// string, or nothing when the string is no valid base64; it is a function of
/// the string alone.
pub uninterp spec fn base64_decode_of(s: Seq<u8>) -> Option<Seq<u8>>;

/// Relies on the base64 crate's standard-alphabet engine `decode`: the
/// decoded bytes are a function of the input alone, and invalid input is an
/// error.
#[verifier::external_body]
fn base64_decode(s: &[u8]) -> (r: Option<Vec<u8>>)
    ensures
        match r {
            Some(v) => base64_decode_of(s@) == Some(v@),
            None => base64_decode_of(s@) is None,
        },
{
    base64::Engine::decode(&base64::engine::general_purpose::STANDARD, s).ok()
}

/// One peer entry as the control service sent it: the key still base64, the
/// addresses and endpoints still text.
pub struct RawPeerEntry {
    pub key: Vec<u8>,
    pub addresses: Vec<Vec<u8>>,
    pub endpoints: Vec<Vec<u8>>,
}

/// The mathematical value of a `RawPeerEntry`.
pub struct RawPeerEntryView {
    pub key: Seq<u8>,
    pub addresses: Seq<Seq<u8>>,
    pub endpoints: Seq<Seq<u8>>,
}

impl View for RawPeerEntry {
    type V = RawPeerEntryView;

    open spec fn view(&self) -> RawPeerEntryView {
        RawPeerEntryView {
            key: self.key@,
            addresses: self.addresses.deep_view(),
            endpoints: self.endpoints.deep_view(),
        }
    }
}

impl DeepView for RawPeerEntry {
    type V = RawPeerEntryView;

    open spec fn deep_view(&self) -> RawPeerEntryView {
        self.view()
    }
}

/// A registration response as the control service sent it.
pub struct RawRegistration {
    pub ip_addresses: Vec<Vec<u8>>,
    pub peers: Vec<RawPeerEntry>,
}

/// The mathematical value of a `RawRegistration`.
pub struct RawRegistrationView {
    pub ip_addresses: Seq<Seq<u8>>,
    pub peers: Seq<RawPeerEntryView>,
}

impl View for RawRegistration {
    type V = RawRegistrationView;

    open spec fn view(&self) -> RawRegistrationView {
        RawRegistrationView {
            ip_addresses: self.ip_addresses.deep_view(),
            peers: self.peers.deep_view(),
        }
    }
}

/// Why a registration failed. Each failure is reported to the caller and
/// never retried here; the proxy stays usable without a completed
/// registration.
#[derive(Clone, Copy, Debug, PartialEq, Eq, Structural)]
pub enum RegistrationError {
    HttpStatus(u16),
    UnparsableResponse,
    NoAssignedAddress,
    InvalidAssignedAddress,
}

/// What a completed registration yields: the assigned overlay address and the
/// validated peers, in the order the service listed them.
#[derive(Debug)]
pub struct RegistrationResult {
    pub assigned_address: IpAddress,
    pub peers: Vec<PeerRecord>,
}

/// The mathematical value of a `RegistrationResult`.
pub struct RegistrationResultView {
    pub assigned_address: IpAddress,
    pub peers: Seq<PeerView>,
}

impl View for RegistrationResult {
    type V = RegistrationResultView;

    open spec fn view(&self) -> RegistrationResultView {
        RegistrationResultView {
            assigned_address: self.assigned_address,
            peers: self.peers.deep_view(),
        }
    }
}

/// A validated peer from one raw entry: the key must decode to exactly 32
/// bytes and the first advertised address must parse; the first advertised
/// endpoint is kept when it parses. Anything else rejects the entry.
pub open spec fn spec_validate_peer(e: RawPeerEntryView) -> Option<PeerView> {
    match base64_decode_of(e.key) {
        Option::None => None,
        Option::Some(k) => if k.len() != 32 {
            None
        } else if e.addresses.len() == 0 {
            None
        } else {
            match spec_parse_ip(e.addresses[0]) {
                Option::None => None,
                Option::Some(ip) => Some(
                    PeerView {
                        public_key: k,
                        overlay_address: ip,
                        endpoint: if e.endpoints.len() > 0 {
                            spec_parse_sock_addr(e.endpoints[0])
                        } else {
                            None
                        },
                    },
                ),
            }
        },
    }
}

/// The peers an entry list yields: each entry validated in order, the failing
/// ones skipped.
pub open spec fn spec_ingest_peers(entries: Seq<RawPeerEntryView>) -> Seq<PeerView>
    decreases entries.len(),
{
    if entries.len() == 0 {
        Seq::<PeerView>::empty()
    } else {
        spec_ingest_peers(entries.drop_last()) + (match spec_validate_peer(entries.last()) {
            Option::Some(p) => seq![p],
            Option::None => Seq::<PeerView>::empty(),
        })
    }
}

/// Law: every ingested peer is valid — its key is exactly 32 bytes — so an
/// entry whose key decodes to any other length is excluded from the result.
pub proof fn lemma_ingested_peers_wf(entries: Seq<RawPeerEntryView>)
    ensures
        forall|i: int|
            0 <= i < spec_ingest_peers(entries).len() ==> crate::vpn::peers::spec_peer_wf(
                #[trigger] spec_ingest_peers(entries)[i],
            ),
    decreases entries.len(),
{
    if entries.len() > 0 {
        lemma_ingested_peers_wf(entries.drop_last());
        let rest = spec_ingest_peers(entries.drop_last());
        let whole = spec_ingest_peers(entries);
        assert forall|i: int|
            0 <= i < whole.len() implies crate::vpn::peers::spec_peer_wf(#[trigger] whole[i]) by {
            if i < rest.len() {
                assert(whole[i] == rest[i]);
            } else {
                assert(spec_validate_peer(entries.last()) is Some);
                assert(whole[i] == spec_validate_peer(entries.last())->Some_0);
            }
        }
    }
}

/// Validates one raw peer entry; agrees with `spec_validate_peer`.
pub fn validate_peer(e: &RawPeerEntry) -> (r: Option<PeerRecord>)
    ensures
        match r {
            Some(p) => spec_validate_peer(e@) == Some(p@),
            None => spec_validate_peer(e@) is None,
        },
{
    let k = match base64_decode(e.key.as_slice()) {
        Some(k) => k,
        None => {
            return None;
        },
    };
    if k.len() != 32 {
        return None;
    }
    if e.addresses.len() == 0 {
        return None;
    }
    proof {
        assert(e@.addresses[0] == e.addresses@[0]@);
    }
    let ip = match crate::addr::parse_ip(e.addresses[0].as_slice()) {
        Some(ip) => ip,
        None => {
            return None;
        },
    };
    let endpoint = if e.endpoints.len() > 0 {
        proof {
            assert(e@.endpoints[0] == e.endpoints@[0]@);
        }
        crate::addr::parse_sock_addr(e.endpoints[0].as_slice())
    } else {
        None
    };
    Some(PeerRecord { public_key: k, overlay_address: ip, endpoint })
}

/// Ingests a raw registration response: the first address in the list is the
/// assigned overlay address and must parse; each peer entry is validated in
/// order, failing entries skipped. An empty address list or an unparsable
/// first address fails the registration.
pub fn ingest_registration(resp: &RawRegistration) -> (r: Result<
    RegistrationResult,
    RegistrationError,
>)
    ensures
        match r {
            Ok(res) => resp@.ip_addresses.len() > 0 && spec_parse_ip(resp@.ip_addresses[0])
                == Some(res@.assigned_address) && res@.peers == spec_ingest_peers(resp@.peers),
            Err(e) => (e == RegistrationError::NoAssignedAddress && resp@.ip_addresses.len() == 0)
                || (e == RegistrationError::InvalidAssignedAddress && resp@.ip_addresses.len() > 0
                && spec_parse_ip(resp@.ip_addresses[0]) is None),
        },
{
    if resp.ip_addresses.len() == 0 {
        return Err(RegistrationError::NoAssignedAddress);
    }
    proof {
        assert(resp@.ip_addresses[0] == resp.ip_addresses@[0]@);
    }
    let assigned = match crate::addr::parse_ip(resp.ip_addresses[0].as_slice()) {
        Some(ip) => ip,
        None => {
            return Err(RegistrationError::InvalidAssignedAddress);
        },
    };
    let ghost entries = resp.peers.deep_view();
    let mut peers: Vec<PeerRecord> = Vec::new();
    let mut i: usize = 0;
    proof {
        assert(peers.deep_view() =~= spec_ingest_peers(entries.take(0)));
    }
    while i < resp.peers.len()
        invariant
            0 <= i <= resp.peers@.len(),
            entries == resp.peers.deep_view(),
            entries.len() == resp.peers@.len(),
            peers.deep_view() =~= spec_ingest_peers(entries.take(i as int)),
        decreases resp.peers@.len() - i,
    {
        proof {
            assert(entries[i as int] == resp.peers@[i as int]@);
            assert(entries.take(i + 1).drop_last() =~= entries.take(i as int));
            assert(entries.take(i + 1).last() == entries[i as int]);
        }
        let ghost before = peers.deep_view();
        match validate_peer(&resp.peers[i]) {
            Some(p) => {
                peers.push(p);
                proof {
                    assert(peers.deep_view() =~= before.push(
                        spec_validate_peer(entries[i as int])->Some_0,
                    ));
                    assert(peers.deep_view() =~= spec_ingest_peers(entries.take(i + 1)));
                }
            },
            None => {
                proof {
                    assert(peers.deep_view() =~= spec_ingest_peers(entries.take(i + 1)));
                }
            },
        }
        i = i + 1;
    }
    proof {
        assert(entries.take(entries.len() as int) =~= entries);
    }
    Ok(RegistrationResult { assigned_address: assigned, peers })
}

/// Judges a registration exchange: a non-success HTTP status fails with that
/// status, a response body that could not be parsed fails as unparsable, and
/// a parsed body is ingested.
pub fn registration_outcome(status: u16, body: Option<RawRegistration>) -> (r: Result<
    RegistrationResult,
    RegistrationError,
>)
    ensures
        !(200 <= status < 300) ==> r == Err::<RegistrationResult, _>(
            RegistrationError::HttpStatus(status),
        ),
        200 <= status < 300 && body is None ==> r == Err::<RegistrationResult, _>(
            RegistrationError::UnparsableResponse,
        ),
        200 <= status < 300 && body is Some ==> match r {
            Ok(res) => {
                let b = body->Some_0@;
                b.ip_addresses.len() > 0 && spec_parse_ip(b.ip_addresses[0]) == Some(
                    res@.assigned_address,
                ) && res@.peers == spec_ingest_peers(b.peers)
            },
            Err(e) => {
                let b = body->Some_0@;
                (e == RegistrationError::NoAssignedAddress && b.ip_addresses.len() == 0) || (e
                    == RegistrationError::InvalidAssignedAddress && b.ip_addresses.len() > 0
                    && spec_parse_ip(b.ip_addresses[0]) is None)
            },
        },
{
    if !(200 <= status && status < 300) {
        return Err(RegistrationError::HttpStatus(status));
    }
    match body {
        None => Err(RegistrationError::UnparsableResponse),
        Some(b) => ingest_registration(&b),
    }
}

/// The fields of the registration request: the node key as base64 text, and
/// the host metadata.
pub struct RegistrationRequest {
    pub node_key: String,
    pub hostname: String,
    pub os: String,
}

/// Builds the registration request for an identity: the public key encoded as
/// base64, and the given hostname and operating-system name.
pub fn build_registration_request(identity: &OverlayIdentity, hostname: &str, os: &str) -> (r:
    RegistrationRequest)
    ensures
        r.node_key@ == base64_of(identity@.public_key),
        r.hostname@ == hostname@,
        r.os@ == os@,
{
    RegistrationRequest {
        node_key: base64_encode(identity.public_key().as_slice()),
        hostname: hostname.to_owned(),
        os: os.to_owned(),
    }
}

/// The path under the control URL that registration posts to.
pub fn registration_url(control_url: &str) -> (r: String)
    ensures
        r@ == control_url@ + "/machine/register"@,
{
    let mut s = control_url.to_owned();
    s.append("/machine/register");
    s
}

/// Builds the peer table a registration yields: the validated peers, first
/// record of every key kept; when every given peer is valid the table is well
/// formed.
pub fn peer_table_of(result: &RegistrationResult) -> (r: PeerTable)
    ensures
        r@ == spec_dedup(result@.peers),
        (forall|i: int|
            0 <= i < result@.peers.len() ==> crate::vpn::peers::spec_peer_wf(
                #[trigger] result@.peers[i],
            )) ==> r.wf(),
{
    PeerTable::build(&result.peers)
}

} // verus!
