//! The state a natively linked overlay backend is tracked with: the handle
//! the native library issued and the connected mark. Every native call is the
//! caller's; the decisions about its results are made here.

use vstd::prelude::*;

verus! {

/// The native overlay backend's tracked state.
pub struct TailscaleNative {
    pub handle: i32,
    pub connected: bool,
}

impl TailscaleNative {
    /// Accepts the handle the native library issued: the library reports
    /// failure as a negative handle, which yields no instance.
    pub fn from_handle(handle: i32) -> (r: Option<TailscaleNative>)
        ensures
            match r {
                Some(t) => handle >= 0 && t.handle == handle && !t.connected,
                None => handle < 0,
            },
    {
        if handle < 0 {
            None
        } else {
            Some(TailscaleNative { handle, connected: false })
        }
    }

    /// Records how bringing the node up went: success marks it connected;
    /// failure leaves it as it was.
    pub fn on_up_result(&mut self, success: bool)
        ensures
            final(self).connected == (old(self).connected || success),
            final(self).handle == old(self).handle,
    {
        if success {
            self.connected = true;
        }
    }

    /// Records how closing went: success marks it disconnected; failure
    /// leaves it as it was.
    pub fn on_close_result(&mut self, success: bool)
        ensures
            final(self).connected == (old(self).connected && !success),
            final(self).handle == old(self).handle,
    {
        if success {
            self.connected = false;
        }
    }

    /// Whether the node was brought up and not closed since.
    pub fn is_connected(&self) -> (r: bool)
        ensures
            r == self.connected,
    {
        self.connected
    }
}

} // verus!
