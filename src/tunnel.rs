//! The VPN tunnel. Bringing up a TUN interface is not part of this core: the
//! tunnel only tracks whether it was asked to run.
use vstd::prelude::*;

verus! {

#[derive(Debug)]
pub struct VpnTunnel {
    pub active: bool,
}

impl VpnTunnel {
    /// A tunnel that is not running.
    pub fn new() -> (r: VpnTunnel)
        ensures
            !r.active,
    {
        VpnTunnel { active: false }
    }

    /// Starts the tunnel; this always succeeds.
    pub fn start(&mut self) -> (r: Result<(), String>)
        ensures
            r is Ok,
            final(self).active,
    {
        self.active = true;
        Ok(())
    }

    /// Stops the tunnel.
    pub fn stop(&mut self)
        ensures
            !final(self).active,
    {
        self.active = false;
    }
}

} // verus!
