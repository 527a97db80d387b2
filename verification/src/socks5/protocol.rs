//! SOCKS5 wire messages: parsing and encoding as pure functions over byte
//! buffers. The codec never blocks and never retries; a caller invokes it once
//! it believes a complete message is buffered, and a short buffer is reported
//! as a malformed message.

use vstd::prelude::*;
use vstd::slice::{slice_subrange, slice_to_vec};
use vstd::string::StringExecFns;
use crate::addr::IpAddress;
use crate::text::{lossy_string, lossy_utf8_of, push_char, push_dec, spec_dec_string};

verus! {

pub const SOCKS5_VERSION: u8 = 0x05;

pub const AUTH_NO_AUTH: u8 = 0x00;
pub const AUTH_GSSAPI: u8 = 0x01;
pub const AUTH_USERNAME_PASSWORD: u8 = 0x02;
pub const AUTH_NO_ACCEPTABLE: u8 = 0xFF;

pub const CMD_CONNECT: u8 = 0x01;
pub const CMD_BIND: u8 = 0x02;
pub const CMD_UDP_ASSOCIATE: u8 = 0x03;

pub const ATYP_IPV4: u8 = 0x01;
pub const ATYP_DOMAIN: u8 = 0x03;
pub const ATYP_IPV6: u8 = 0x04;

pub const REP_SUCCESS: u8 = 0x00;
pub const REP_GENERAL_FAILURE: u8 = 0x01;
pub const REP_CONNECTION_NOT_ALLOWED: u8 = 0x02;
pub const REP_NETWORK_UNREACHABLE: u8 = 0x03;
pub const REP_HOST_UNREACHABLE: u8 = 0x04;
pub const REP_CONNECTION_REFUSED: u8 = 0x05;
pub const REP_TTL_EXPIRED: u8 = 0x06;
pub const REP_COMMAND_NOT_SUPPORTED: u8 = 0x07;
pub const REP_ADDRESS_TYPE_NOT_SUPPORTED: u8 = 0x08;

/// A protocol-level failure. Every variant is local to one connection.
#[derive(Clone, Copy, Debug, PartialEq, Eq, Structural)]
pub enum Socks5Error {
    UnsupportedVersion(u8),
    UnsupportedCommand(u8),
    UnsupportedAddressType(u8),
    AuthFailed,
    ConnectionRefused,
    InvalidData,
}

/// The requested connection target: an IP endpoint, or a domain name (kept as
/// the raw bytes from the wire) that the dialer must resolve.
#[derive(Clone, Debug, PartialEq, Eq)]
pub enum TargetAddr {
    Ip(IpAddress, u16),
    Domain(Vec<u8>, u16),
}

/// The mathematical value of a `TargetAddr`.
pub enum TargetAddrView {
    Ip(IpAddress, u16),
    Domain(Seq<u8>, u16),
}

impl View for TargetAddr {
    type V = TargetAddrView;

    open spec fn view(&self) -> TargetAddrView {
        match self {
            TargetAddr::Ip(ip, port) => TargetAddrView::Ip(*ip, *port),
            TargetAddr::Domain(name, port) => TargetAddrView::Domain(name@, *port),
        }
    }
}

/// The text a dialer resolves for a target: the address and the port, with a
/// v6 address bracketed, and a domain read as text.
pub open spec fn spec_target_string(t: TargetAddrView) -> Seq<char> {
    match t {
        TargetAddrView::Ip(IpAddress::V4(a, b, c, d), port) => crate::addr::spec_ip_string(
            IpAddress::V4(a, b, c, d),
        ) + seq![':'] + spec_dec_string(port as nat),
        TargetAddrView::Ip(IpAddress::V6(v), port) => seq!['['] + crate::addr::spec_ip_string(
            IpAddress::V6(v),
        ) + seq![']', ':'] + spec_dec_string(port as nat),
        TargetAddrView::Domain(name, port) => lossy_utf8_of(name) + seq![':'] + spec_dec_string(
            port as nat,
        ),
    }
}

impl TargetAddr {
    /// The text a dialer resolves: the dotted quad or the bracketed full-form
    /// v6 groups with the port, or the domain read as text with the port.
    pub fn to_string(&self) -> (r: String)
        ensures
            r@ == spec_target_string(self@),
    {
        let mut s = String::new();
        match self {
            TargetAddr::Ip(ip, port) => {
                if matches!(ip, IpAddress::V6(_)) {
                    push_char(&mut s, '[');
                }
                let text = ip.to_string();
                s.append(text.as_str());
                if matches!(ip, IpAddress::V6(_)) {
                    push_char(&mut s, ']');
                }
                push_char(&mut s, ':');
                push_dec(&mut s, *port as u64);
                proof {
                    assert(s@ =~= spec_target_string(self@));
                }
            },
            TargetAddr::Domain(name, port) => {
                let text = lossy_string(name);
                s.append(text.as_str());
                push_char(&mut s, ':');
                push_dec(&mut s, *port as u64);
                proof {
                    assert(s@ =~= spec_target_string(self@));
                }
            },
        }
        s
    }
}

/// The client's greeting: protocol version and the offered authentication
/// methods, in their wire order.
pub struct AuthRequest {
    pub version: u8,
    pub methods: Vec<u8>,
}

/// The client's connect request.
pub struct ConnectRequest {
    pub version: u8,
    pub command: u8,
    pub target: TargetAddr,
}

/// The mathematical value of a `ConnectRequest`.
pub struct ConnectRequestView {
    pub version: u8,
    pub command: u8,
    pub target: TargetAddrView,
}

impl View for ConnectRequest {
    type V = ConnectRequestView;

    open spec fn view(&self) -> ConnectRequestView {
        ConnectRequestView { version: self.version, command: self.command, target: self.target@ }
    }
}

/// A big-endian 16-bit value from two bytes.
pub open spec fn be16(hi: u8, lo: u8) -> u16 {
    (hi * 256 + lo) as u16
}

/// A greeting buffer: version byte, method count, then that many method
/// bytes. Extra trailing bytes are ignored. `None` is a malformed message.
pub open spec fn spec_parse_greeting(b: Seq<u8>) -> Option<(u8, Seq<u8>)> {
    if b.len() < 2 {
        None
    } else if b.len() < 2 + b[1] {
        None
    } else {
        Some((b[0], b.subrange(2, 2 + b[1])))
    }
}

/// The sixteen address bytes of a wire IPv6 target, as a 128-bit value.
pub open spec fn wire_v6_val(b: Seq<u8>) -> u128
    recommends
        b.len() == 16,
{
    crate::addr::groups_val(Seq::new(8, |i: int| be16(b[2 * i], b[2 * i + 1]))) as u128
}

/// A connect-request buffer: version, command, reserved byte, address type,
/// a type-dependent address encoding, then a two-byte big-endian port. Extra
/// trailing bytes are ignored. An unknown address type is its own error; any
/// truncation is a malformed message.
pub open spec fn spec_parse_connect(b: Seq<u8>) -> Result<ConnectRequestView, Socks5Error> {
    if b.len() < 4 {
        Err(Socks5Error::InvalidData)
    } else {
        let atyp = b[3];
        if atyp == ATYP_IPV4 {
            if b.len() < 10 {
                Err(Socks5Error::InvalidData)
            } else {
                Ok(
                    ConnectRequestView {
                        version: b[0],
                        command: b[1],
                        target: TargetAddrView::Ip(
                            IpAddress::V4(b[4], b[5], b[6], b[7]),
                            be16(b[8], b[9]),
                        ),
                    },
                )
            }
        } else if atyp == ATYP_DOMAIN {
            if b.len() < 5 || b.len() < 7 + b[4] {
                Err(Socks5Error::InvalidData)
            } else {
                let l = b[4] as int;
                Ok(
                    ConnectRequestView {
                        version: b[0],
                        command: b[1],
                        target: TargetAddrView::Domain(
                            b.subrange(5, 5 + l),
                            be16(b[5 + l], b[6 + l]),
                        ),
                    },
                )
            }
        } else if atyp == ATYP_IPV6 {
            if b.len() < 22 {
                Err(Socks5Error::InvalidData)
            } else {
                Ok(
                    ConnectRequestView {
                        version: b[0],
                        command: b[1],
                        target: TargetAddrView::Ip(
                            IpAddress::V6(wire_v6_val(b.subrange(4, 20))),
                            be16(b[20], b[21]),
                        ),
                    },
                )
            }
        } else {
            Err(Socks5Error::UnsupportedAddressType(atyp))
        }
    }
}

impl AuthRequest {
    /// Parses a greeting; agrees with `spec_parse_greeting` on every input,
    /// and fails exactly on the buffers that spec calls malformed.
    pub fn parse(buf: &[u8]) -> (r: Result<AuthRequest, Socks5Error>)
        ensures
            match r {
                Ok(a) => spec_parse_greeting(buf@) == Some((a.version, a.methods@)),
                Err(e) => spec_parse_greeting(buf@) is None && e == Socks5Error::InvalidData,
            },
    {
        if buf.len() < 2 {
            return Err(Socks5Error::InvalidData);
        }
        let version = buf[0];
        let n = buf[1] as usize;
        if buf.len() - 2 < n {
            return Err(Socks5Error::InvalidData);
        }
        let methods = slice_to_vec(slice_subrange(buf, 2, 2 + n));
        Ok(AuthRequest { version, methods })
    }

    /// Whether the client offered the given method.
    pub fn supports_method(&self, method: u8) -> (r: bool)
        ensures
            r == self.methods@.contains(method),
    {
        let mut i: usize = 0;
        while i < self.methods.len()
            invariant
                0 <= i <= self.methods@.len(),
                forall|k: int| 0 <= k < i ==> self.methods@[k] != method,
            decreases self.methods@.len() - i,
        {
            if self.methods[i] == method {
                return true;
            }
            i = i + 1;
        }
        false
    }
}

impl ConnectRequest {
    /// Parses a connect request; agrees with `spec_parse_connect` on every
    /// input, returning exactly the error that spec gives where it fails.
    pub fn parse(buf: &[u8]) -> (r: Result<ConnectRequest, Socks5Error>)
        ensures
            match r {
                Ok(req) => spec_parse_connect(buf@) == Ok::<ConnectRequestView, Socks5Error>(req@),
                Err(e) => spec_parse_connect(buf@) == Err::<ConnectRequestView, _>(e),
            },
    {
        if buf.len() < 4 {
            return Err(Socks5Error::InvalidData);
        }
        let version = buf[0];
        let command = buf[1];
        let atyp = buf[3];
        if atyp == ATYP_IPV4 {
            if buf.len() < 10 {
                return Err(Socks5Error::InvalidData);
            }
            let ip = IpAddress::V4(buf[4], buf[5], buf[6], buf[7]);
            let port = (buf[8] as u16) * 256 + (buf[9] as u16);
            Ok(ConnectRequest { version, command, target: TargetAddr::Ip(ip, port) })
        } else if atyp == ATYP_DOMAIN {
            if buf.len() < 5 {
                return Err(Socks5Error::InvalidData);
            }
            let l = buf[4] as usize;
            if buf.len() - 5 < l || buf.len() - 5 - l < 2 {
                return Err(Socks5Error::InvalidData);
            }
            let name = slice_to_vec(slice_subrange(buf, 5, 5 + l));
            let port = (buf[5 + l] as u16) * 256 + (buf[6 + l] as u16);
            Ok(ConnectRequest { version, command, target: TargetAddr::Domain(name, port) })
        } else if atyp == ATYP_IPV6 {
            if buf.len() < 22 {
                return Err(Socks5Error::InvalidData);
            }
            let mut groups: Vec<u16> = Vec::new();
            let mut i: usize = 0;
            while i < 8
                invariant
                    0 <= i <= 8,
                    buf@.len() >= 22,
                    groups@ =~= Seq::new(i as nat, |k: int| be16(buf@[4 + 2 * k], buf@[5 + 2 * k])),
                decreases 8 - i,
            {
                let g = (buf[4 + 2 * i] as u16) * 256 + (buf[5 + 2 * i] as u16);
                groups.push(g);
                proof {
                    assert(groups@ =~= Seq::new(
                        (i + 1) as nat,
                        |k: int| be16(buf@[4 + 2 * k], buf@[5 + 2 * k]),
                    ));
                }
                i = i + 1;
            }
            let v = crate::addr::groups_to_value(&groups);
            proof {
                let w = buf@.subrange(4, 20);
                assert(Seq::new(8, |k: int| be16(w[2 * k], w[2 * k + 1])) =~= groups@);
                crate::addr::lemma_groups_val_bound(groups@);
                crate::addr::lemma_pow65536_values();
            }
            let port = (buf[20] as u16) * 256 + (buf[21] as u16);
            Ok(ConnectRequest { version, command, target: TargetAddr::Ip(IpAddress::V6(v), port) })
        } else {
            Err(Socks5Error::UnsupportedAddressType(atyp))
        }
    }
}

/// The two-byte greeting reply: version, then the chosen method.
pub open spec fn spec_auth_response(method: u8) -> Seq<u8> {
    seq![SOCKS5_VERSION, method]
}

/// Encodes the greeting reply.
pub fn auth_response(method: u8) -> (r: [u8; 2])
    ensures
        r@ =~= spec_auth_response(method),
{
    [SOCKS5_VERSION, method]
}

/// The ten-byte connect reply: version, status, reserved byte, and a zeroed
/// IPv4 bind address and port (the proxy exposes no real bind endpoint).
pub open spec fn spec_connect_response(status: u8) -> Seq<u8> {
    seq![SOCKS5_VERSION, status, 0u8, ATYP_IPV4, 0u8, 0u8, 0u8, 0u8, 0u8, 0u8]
}

/// Encodes the connect reply.
pub fn connect_response(status: u8) -> (r: Vec<u8>)
    ensures
        r@ =~= spec_connect_response(status),
{
    let mut v: Vec<u8> = Vec::new();
    v.push(SOCKS5_VERSION);
    v.push(status);
    v.push(0x00);
    v.push(ATYP_IPV4);
    v.push(0);
    v.push(0);
    v.push(0);
    v.push(0);
    v.push(0);
    v.push(0);
    proof {
        assert(v@ =~= spec_connect_response(status));
    }
    v
}

/// Law: for every status code, the connect reply is ten bytes long and its
/// second byte equals the status that went in.
pub proof fn lemma_connect_response_status(status: u8)
    ensures
        spec_connect_response(status).len() == 10,
        spec_connect_response(status)[1] == status,
{
}

/// Law: a buffer shorter than the least length its leading bytes claim is a
/// malformed message, for the greeting and for every connect-request shape;
/// the parsers are verified not to panic or read out of bounds on any input.
pub proof fn lemma_truncated_parse_fails(b: Seq<u8>)
    ensures
        b.len() < 2 ==> spec_parse_greeting(b) is None,
        b.len() >= 2 && b.len() < 2 + b[1] ==> spec_parse_greeting(b) is None,
        b.len() < 4 ==> spec_parse_connect(b) == Err::<ConnectRequestView, _>(
            Socks5Error::InvalidData,
        ),
        b.len() >= 4 && b[3] == ATYP_IPV4 && b.len() < 10 ==> spec_parse_connect(b) == Err::<
            ConnectRequestView,
            _,
        >(Socks5Error::InvalidData),
        b.len() >= 4 && b[3] == ATYP_DOMAIN && (b.len() < 5 || b.len() < 7 + b[4])
            ==> spec_parse_connect(b) == Err::<ConnectRequestView, _>(Socks5Error::InvalidData),
        b.len() >= 4 && b[3] == ATYP_IPV6 && b.len() < 22 ==> spec_parse_connect(b) == Err::<
            ConnectRequestView,
            _,
        >(Socks5Error::InvalidData),
{
}

/// Law: parsing is a pure function of the buffer it is given; parsing equal
/// buffers, any number of times, yields structurally equal results.
pub proof fn lemma_parse_deterministic(b1: Seq<u8>, b2: Seq<u8>)
    requires
        b1 == b2,
    ensures
        spec_parse_greeting(b1) == spec_parse_greeting(b2),
        spec_parse_connect(b1) == spec_parse_connect(b2),
{
}

} // verus!
