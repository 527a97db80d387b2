//! The per-connection session state machine. One session drives one client
//! through handshake, request, dial and relay; every decision is a pure
//! function of the session state and the event handed in, and the caller
//! carries out the replies and dials the machine asks for. Any error closes
//! this session only.

use vstd::prelude::*;
use crate::socks5::protocol::{
    auth_response, connect_response, spec_auth_response, spec_connect_response,
    spec_parse_connect, spec_parse_greeting, AuthRequest, ConnectRequest, Socks5Error, TargetAddr,
    AUTH_NO_ACCEPTABLE, AUTH_NO_AUTH, CMD_CONNECT, REP_COMMAND_NOT_SUPPORTED,
    REP_CONNECTION_REFUSED, REP_GENERAL_FAILURE, REP_SUCCESS, SOCKS5_VERSION,
};

verus! {

/// Why a session reached its terminal state.
#[derive(Clone, Copy, Debug, PartialEq, Eq, Structural)]
pub enum CloseReason {
    Malformed,
    VersionMismatch,
    AuthFailed,
    UnsupportedCommand,
    UnsupportedAddress,
    DialFailed,
    Done,
}

/// The phases a connection moves through, in order; `Closed` is terminal.
#[derive(Clone, Copy, Debug, PartialEq, Eq, Structural)]
pub enum ConnectionState {
    AwaitingGreeting,
    AwaitingRequest,
    Connecting,
    Relaying,
    Closed(CloseReason),
}

/// What the caller must do after the greeting was examined: send the reply
/// and read the connect request, or send the optional reply and drop the
/// connection with the given error.
pub enum GreetingDecision {
    Proceed([u8; 2]),
    Reject(Option<[u8; 2]>, Socks5Error),
}

/// What the caller must do after the connect request was examined: dial the
/// target, or send the optional reply and drop the connection.
pub enum RequestDecision {
    Dial(TargetAddr),
    Reject(Option<Vec<u8>>, Socks5Error),
}

/// How the dial of the requested target went: connected, refused by the
/// transport, or failed for any other reason.
#[derive(Clone, Copy, Debug, PartialEq, Eq, Structural)]
pub enum DialOutcome {
    Connected,
    Refused,
    Failed,
}

/// The wire status that reports a dial outcome to the client.
pub open spec fn spec_dial_status(outcome: DialOutcome) -> u8 {
    match outcome {
        DialOutcome::Connected => REP_SUCCESS,
        DialOutcome::Refused => REP_CONNECTION_REFUSED,
        DialOutcome::Failed => REP_GENERAL_FAILURE,
    }
}

/// One client connection's state machine.
pub struct Session {
    pub state: ConnectionState,
}

impl Session {
    /// A fresh session awaits the client's greeting.
    pub fn new() -> (r: Session)
        ensures
            r.state == ConnectionState::AwaitingGreeting,
    {
        Session { state: ConnectionState::AwaitingGreeting }
    }

    /// Handles the buffered greeting bytes. A malformed greeting or a version
    /// other than the supported one closes the session without a reply; a
    /// greeting that does not offer "no authentication" is answered with the
    /// no-acceptable-methods reply and closes the session; any greeting that
    /// offers it is answered with the no-authentication reply and the session
    /// awaits the connect request.
    pub fn on_greeting(&mut self, buf: &[u8]) -> (r: GreetingDecision)
        requires
            old(self).state == ConnectionState::AwaitingGreeting,
        ensures
            match spec_parse_greeting(buf@) {
                Option::None => (r matches GreetingDecision::Reject(rep, e) && rep is None && e
                    == Socks5Error::InvalidData) && final(self).state == ConnectionState::Closed(
                    CloseReason::Malformed,
                ),
                Option::Some((version, methods)) => if version != SOCKS5_VERSION {
                    (r matches GreetingDecision::Reject(rep, e) && rep is None && e
                        == Socks5Error::UnsupportedVersion(version)) && final(self).state
                        == ConnectionState::Closed(CloseReason::VersionMismatch)
                } else if !methods.contains(AUTH_NO_AUTH) {
                    (r matches GreetingDecision::Reject(rep, e) && (rep matches Some(v) && v@
                        == spec_auth_response(AUTH_NO_ACCEPTABLE)) && e == Socks5Error::AuthFailed)
                        && final(self).state == ConnectionState::Closed(CloseReason::AuthFailed)
                } else {
                    (r matches GreetingDecision::Proceed(v) && v@ == spec_auth_response(
                        AUTH_NO_AUTH,
                    )) && final(self).state == ConnectionState::AwaitingRequest
                },
            },
    {
        match AuthRequest::parse(buf) {
            Err(e) => {
                self.state = ConnectionState::Closed(CloseReason::Malformed);
                GreetingDecision::Reject(None, e)
            },
            Ok(req) => {
                if req.version != SOCKS5_VERSION {
                    self.state = ConnectionState::Closed(CloseReason::VersionMismatch);
                    GreetingDecision::Reject(None, Socks5Error::UnsupportedVersion(req.version))
                } else if !req.supports_method(AUTH_NO_AUTH) {
                    self.state = ConnectionState::Closed(CloseReason::AuthFailed);
                    GreetingDecision::Reject(
                        Some(auth_response(AUTH_NO_ACCEPTABLE)),
                        Socks5Error::AuthFailed,
                    )
                } else {
                    self.state = ConnectionState::AwaitingRequest;
                    GreetingDecision::Proceed(auth_response(AUTH_NO_AUTH))
                }
            },
        }
    }

    /// Handles the buffered connect-request bytes. A malformed request, an
    /// unsupported address type, or a version mismatch closes the session
    /// without a reply; a command other than "establish connection" is
    /// answered with the command-not-supported reply and closes the session;
    /// otherwise the session hands the caller the target to dial.
    pub fn on_request(&mut self, buf: &[u8]) -> (r: RequestDecision)
        requires
            old(self).state == ConnectionState::AwaitingRequest,
        ensures
            match spec_parse_connect(buf@) {
                Result::Err(e) => (r matches RequestDecision::Reject(rep, e2) && rep is None && e2
                    == e) && final(self).state == ConnectionState::Closed(
                    if e is UnsupportedAddressType {
                        CloseReason::UnsupportedAddress
                    } else {
                        CloseReason::Malformed
                    },
                ),
                Result::Ok(req) => if req.version != SOCKS5_VERSION {
                    (r matches RequestDecision::Reject(rep, e) && rep is None && e
                        == Socks5Error::UnsupportedVersion(req.version)) && final(self).state
                        == ConnectionState::Closed(CloseReason::VersionMismatch)
                } else if req.command != CMD_CONNECT {
                    (r matches RequestDecision::Reject(rep, e) && (rep matches Some(v) && v@
                        == spec_connect_response(REP_COMMAND_NOT_SUPPORTED)) && e
                        == Socks5Error::UnsupportedCommand(req.command)) && final(self).state
                        == ConnectionState::Closed(CloseReason::UnsupportedCommand)
                } else {
                    (r matches RequestDecision::Dial(t) && t@ == req.target) && final(self).state
                        == ConnectionState::Connecting
                },
            },
    {
        match ConnectRequest::parse(buf) {
            Err(e) => {
                self.state = ConnectionState::Closed(
                    match e {
                        Socks5Error::UnsupportedAddressType(_) => CloseReason::UnsupportedAddress,
                        _ => CloseReason::Malformed,
                    },
                );
                RequestDecision::Reject(None, e)
            },
            Ok(req) => {
                if req.version != SOCKS5_VERSION {
                    self.state = ConnectionState::Closed(CloseReason::VersionMismatch);
                    RequestDecision::Reject(None, Socks5Error::UnsupportedVersion(req.version))
                } else if req.command != CMD_CONNECT {
                    self.state = ConnectionState::Closed(CloseReason::UnsupportedCommand);
                    RequestDecision::Reject(
                        Some(connect_response(REP_COMMAND_NOT_SUPPORTED)),
                        Socks5Error::UnsupportedCommand(req.command),
                    )
                } else {
                    self.state = ConnectionState::Connecting;
                    RequestDecision::Dial(req.target)
                }
            },
        }
    }

    /// Records how the dial went and returns the reply to send: the success
    /// status moves the session to relaying, a refused dial reports the
    /// connection-refused status, and any other failure reports the general
    /// failure status; either failure closes the session.
    pub fn on_dial_result(&mut self, outcome: DialOutcome) -> (r: Vec<u8>)
        requires
            old(self).state == ConnectionState::Connecting,
        ensures
            r@ == spec_connect_response(spec_dial_status(outcome)),
            final(self).state == (if outcome is Connected {
                ConnectionState::Relaying
            } else {
                ConnectionState::Closed(CloseReason::DialFailed)
            }),
    {
        match outcome {
            DialOutcome::Connected => {
                self.state = ConnectionState::Relaying;
                connect_response(REP_SUCCESS)
            },
            DialOutcome::Refused => {
                self.state = ConnectionState::Closed(CloseReason::DialFailed);
                connect_response(REP_CONNECTION_REFUSED)
            },
            DialOutcome::Failed => {
                self.state = ConnectionState::Closed(CloseReason::DialFailed);
                connect_response(REP_GENERAL_FAILURE)
            },
        }
    }

    /// The relay has returned; the session is done regardless of whether the
    /// relay ended cleanly or with an error.
    pub fn on_relay_finished(&mut self)
        requires
            old(self).state == ConnectionState::Relaying,
        ensures
            final(self).state == ConnectionState::Closed(CloseReason::Done),
    {
        self.state = ConnectionState::Closed(CloseReason::Done);
    }

    /// Whether the session has reached its terminal state.
    pub fn is_closed(&self) -> (r: bool)
        ensures
            r == (self.state is Closed),
    {
        match self.state {
            ConnectionState::Closed(_) => true,
            _ => false,
        }
    }
}

} // verus!
