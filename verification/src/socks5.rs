//! The SOCKS5 protocol engine: the wire codec, the per-connection session
//! state machine, the relay coordination machine, and the listener's
//! configuration.

pub mod protocol;
pub mod relay;
pub mod server;
pub mod session;
