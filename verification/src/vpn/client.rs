//! The in-process overlay client: it owns the node identity, the registration
//! configuration, and the state a completed registration yields. The HTTP
//! exchange and the data-plane tunnel are the caller's; every decision about
//! their content is made here.

use vstd::prelude::*;
use vstd::string::StringExecFns;
use crate::addr::IpAddress;
use crate::vpn::identity::OverlayIdentity;
use crate::vpn::peers::{spec_dedup, PeerTable};
use crate::vpn::registration::{
    build_registration_request, registration_url, RegistrationRequest, RegistrationResult,
};

verus! {

/// The control server used when none is configured.
pub open spec fn spec_default_control_url() -> Seq<char> {
    "https://controlplane.tailscale.com"@
}

/// The overlay client. One is created per process; its keypair is never
/// regenerated.
pub struct TailscaleRust {
    /// The node's keypair.
    pub identity: OverlayIdentity,
    /// Where registration posts to.
    pub control_url: String,
    /// The credential registration presents.
    pub authkey: String,
    /// The name this node registers under.
    pub hostname: String,
    /// The overlay address the last registration assigned.
    pub assigned_ip: Option<IpAddress>,
    /// Whether a registration completed and the node counts as connected.
    pub connected: bool,
    /// The peers the last registration yielded.
    pub peers: PeerTable,
}

impl TailscaleRust {
    /// The keypair is well formed.
    pub open spec fn wf(&self) -> bool {
        self.identity.wf()
    }

    /// A fresh client: a fresh keypair, the default control server, empty
    /// credential and hostname, no address, no peers, not connected.
    pub fn new() -> (r: TailscaleRust)
        ensures
            r.wf(),
            !r.connected,
            r.assigned_ip is None,
            r.peers@.len() == 0,
            r.control_url@ == spec_default_control_url(),
            r.authkey@.len() == 0,
            r.hostname@.len() == 0,
    {
        TailscaleRust {
            identity: OverlayIdentity::generate(),
            control_url: "https://controlplane.tailscale.com".to_owned(),
            authkey: String::new(),
            hostname: String::new(),
            assigned_ip: None,
            connected: false,
            peers: PeerTable::empty(),
        }
    }

    /// Sets the hostname to register under.
    pub fn set_hostname(&mut self, hostname: &str)
        ensures
            final(self).hostname@ == hostname@,
            final(self).identity == old(self).identity,
            final(self).control_url == old(self).control_url,
            final(self).authkey == old(self).authkey,
            final(self).assigned_ip == old(self).assigned_ip,
            final(self).connected == old(self).connected,
            final(self).peers == old(self).peers,
    {
        self.hostname = hostname.to_owned();
    }

    /// Sets the credential registration presents.
    pub fn set_authkey(&mut self, authkey: &str)
        ensures
            final(self).authkey@ == authkey@,
            final(self).identity == old(self).identity,
            final(self).control_url == old(self).control_url,
            final(self).hostname == old(self).hostname,
            final(self).assigned_ip == old(self).assigned_ip,
            final(self).connected == old(self).connected,
            final(self).peers == old(self).peers,
    {
        self.authkey = authkey.to_owned();
    }

    /// Sets the control server URL.
    pub fn set_control_url(&mut self, url: &str)
        ensures
            final(self).control_url@ == url@,
            final(self).identity == old(self).identity,
            final(self).authkey == old(self).authkey,
            final(self).hostname == old(self).hostname,
            final(self).assigned_ip == old(self).assigned_ip,
            final(self).connected == old(self).connected,
            final(self).peers == old(self).peers,
    {
        self.control_url = url.to_owned();
    }

    /// Where this client's registration posts to.
    pub fn register_url(&self) -> (r: String)
        ensures
            r@ == self.control_url@ + "/machine/register"@,
    {
        registration_url(self.control_url.as_str())
    }

    /// The registration request this client sends: its public key as base64,
    /// its hostname, and the given operating-system name.
    pub fn build_register_request(&self, os: &str) -> (r: RegistrationRequest)
        ensures
            r.node_key@ == crate::vpn::registration::base64_of(self.identity@.public_key),
            r.hostname@ == self.hostname@,
            r.os@ == os@,
    {
        build_registration_request(&self.identity, self.hostname.as_str(), os)
    }

    /// Records a completed registration: the assigned address is kept, the
    /// peer table is replaced as a whole by the registration's validated
    /// peers, and the node counts as connected. Nothing else changes.
    pub fn apply_registration(&mut self, result: &RegistrationResult)
        ensures
            final(self).assigned_ip == Some(result.assigned_address),
            final(self).peers@ == spec_dedup(result@.peers),
            final(self).connected,
            final(self).identity == old(self).identity,
            final(self).control_url == old(self).control_url,
            final(self).authkey == old(self).authkey,
            final(self).hostname == old(self).hostname,
            (forall|i: int|
                0 <= i < result@.peers.len() ==> crate::vpn::peers::spec_peer_wf(
                    #[trigger] result@.peers[i],
                )) ==> final(self).peers.wf(),
    {
        self.assigned_ip = Some(result.assigned_address);
        self.peers = crate::vpn::registration::peer_table_of(result);
        self.connected = true;
    }

    /// The overlay address the last registration assigned, if any.
    pub fn get_ip(&self) -> (r: Option<IpAddress>)
        ensures
            r == self.assigned_ip,
    {
        self.assigned_ip
    }

    /// Whether a registration completed.
    pub fn is_connected(&self) -> (r: bool)
        ensures
            r == self.connected,
    {
        self.connected
    }

    /// How many peers the last registration yielded.
    pub fn peer_count(&self) -> (r: usize)
        ensures
            r == self.peers@.len(),
    {
        self.peers.len()
    }

    /// Disconnects: the address, the peers and the connected mark are
    /// dropped; the identity and configuration stay. Disconnecting twice is
    /// harmless.
    pub fn disconnect(&mut self)
        ensures
            !final(self).connected,
            final(self).assigned_ip is None,
            final(self).peers@.len() == 0,
            final(self).identity == old(self).identity,
            final(self).control_url == old(self).control_url,
            final(self).authkey == old(self).authkey,
            final(self).hostname == old(self).hostname,
    {
        self.assigned_ip = None;
        self.peers = PeerTable::empty();
        self.connected = false;
    }
}

} // verus!
