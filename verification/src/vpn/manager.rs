//! The command-line-backed overlay manager: it holds the configuration and
//! the connected mark, and decides the exact argument list for the external
//! tool. Running the tool, and parsing its status output into the plain
//! structures here, is the caller's.

use vstd::prelude::*;
use vstd::string::StringExecFns;

verus! {

/// The overlay manager backed by the external command-line tool.
pub struct TailscaleManager {
    pub hostname: String,
    pub authkey: String,
    pub control_url: Option<String>,
    pub connected: bool,
}

/// The argument list that brings the node up: the credential and hostname,
/// and the login server where one is configured.
pub open spec fn spec_up_args(m: TailscaleManager) -> Seq<Seq<char>> {
    let base = seq!["up"@, "--authkey"@, m.authkey@, "--hostname"@, m.hostname@];
    match m.control_url {
        Option::Some(url) => base + seq!["--login-server"@, url@],
        Option::None => base,
    }
}

impl TailscaleManager {
    /// A fresh manager, not connected.
    pub fn new(hostname: String, authkey: String, control_url: Option<String>) -> (r:
        TailscaleManager)
        ensures
            r.hostname == hostname,
            r.authkey == authkey,
            r.control_url == control_url,
            !r.connected,
    {
        TailscaleManager { hostname, authkey, control_url, connected: false }
    }

    /// The exact arguments to hand the external tool to bring the node up.
    pub fn up_args(&self) -> (r: Vec<String>)
        ensures
            r.deep_view() == spec_up_args(*self),
    {
        let mut args: Vec<String> = Vec::new();
        args.push("up".to_owned());
        args.push("--authkey".to_owned());
        args.push(self.authkey.clone());
        args.push("--hostname".to_owned());
        args.push(self.hostname.clone());
        match &self.control_url {
            Some(url) => {
                args.push("--login-server".to_owned());
                args.push(url.clone());
                proof {
                    assert(args.deep_view() =~~= spec_up_args(*self));
                }
            },
            None => {
                proof {
                    assert(args.deep_view() =~~= spec_up_args(*self));
                }
            },
        }
        args
    }

    /// Records how bringing the node up went: success marks the manager
    /// connected; failure leaves it as it was.
    pub fn on_up_result(&mut self, success: bool)
        ensures
            final(self).connected == (old(self).connected || success),
            final(self).hostname == old(self).hostname,
            final(self).authkey == old(self).authkey,
            final(self).control_url == old(self).control_url,
    {
        if success {
            self.connected = true;
        }
    }

    /// Records that the node was taken down.
    pub fn mark_disconnected(&mut self)
        ensures
            !final(self).connected,
            final(self).hostname == old(self).hostname,
            final(self).authkey == old(self).authkey,
            final(self).control_url == old(self).control_url,
    {
        self.connected = false;
    }

    /// Whether the node was brought up and not taken down since.
    pub fn is_connected(&self) -> (r: bool)
        ensures
            r == self.connected,
    {
        self.connected
    }
}

/// The status the external tool reports: the backend state and, when present,
/// this node's entry.
pub struct TailscaleStatus {
    pub backend_state: String,
    pub self_node: Option<TailscaleNode>,
}

/// One node entry of the reported status.
pub struct TailscaleNode {
    pub hostname: String,
    pub online: bool,
}

} // verus!
