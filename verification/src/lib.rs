//! Core of a local SOCKS5 proxy that keeps membership in an overlay network.
//!
//! The library holds the verified logic of the system: the SOCKS5 wire codec,
//! the per-connection session state machine, the bidirectional relay state
//! machine, the XOR obfuscation of embedded credentials, hostname selection,
//! and the overlay control-plane client (identity, registration ingestion,
//! peer table). All network and process I/O stays outside the library; callers
//! hand in the bytes that were read and carry out the replies and dials that
//! the state machines decide on.

/// Plain representations of IP and socket addresses, with verified parsers
/// for their textual forms.
pub mod addr;

/// Hostname normalization and random hostname generation.
pub mod hostname;

/// The SOCKS5 protocol: codec, session state machine, relay state machine.
pub mod socks5;

/// Character-level text building.
pub mod text;

/// Overlay-network integration: identity, registration, peers.
pub mod vpn;

/// XOR obfuscation of embedded credentials.
pub mod xor;
