//! The listener's configuration. The accept loop itself is I/O and lives with
//! the caller; it builds one `Session` per accepted connection, so one
//! client's failure never reaches the listener or another session.

use vstd::prelude::*;

verus! {

/// A SOCKS5 server: the address its listener binds to.
pub struct Socks5Server {
    pub listen_addr: String,
}

impl Socks5Server {
    /// A server that will listen on the given address.
    pub fn new(listen_addr: String) -> (r: Self)
        ensures
            r.listen_addr@ == listen_addr@,
    {
        Socks5Server { listen_addr }
    }

    /// The configured listen address.
    pub fn listen_addr(&self) -> (r: &String)
        ensures
            r@ == self.listen_addr@,
    {
        &self.listen_addr
    }
}

} // verus!
