//! Overlay-network integration: the node identity, the registration
//! exchange, the peer table, and the managers that track a connection.

pub mod client;
pub mod identity;
pub mod manager;
pub mod native;
pub mod peers;
pub mod registration;
