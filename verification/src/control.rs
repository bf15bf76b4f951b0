//! Control configuration: which control protocols are enabled, and the host
//! whose parameters they drive.
use vstd::prelude::*;

verus! {

/// Control protocol.
#[derive(Debug, Clone, Copy, PartialEq, Eq, Structural)]
pub enum ControlProtocol {
    /// MIDI.
    Midi,
    /// Open Sound Control.
    Osc,
    /// Mackie control.
    Mackie,
    /// HTTP.
    Http,
    /// WebSocket.
    WebSocket,
    /// Anything else.
    Custom,
}

/// Control configuration: the enabled protocols, in the order they were
/// enabled, and the parameter host `H` they control.
pub struct ControlConfig<H> {
    /// Enabled protocols.
    pub enabled_protocols: Vec<ControlProtocol>,
    /// The host whose parameters are controlled.
    pub parameter_host: H,
}

impl<H> ControlConfig<H> {
    /// A configuration for `host` with no protocol enabled.
    pub fn new(host: H) -> (c: Self)
        ensures
            c.enabled_protocols@ == Seq::<ControlProtocol>::empty(),
            c.parameter_host == host,
    {
        ControlConfig { enabled_protocols: Vec::new(), parameter_host: host }
    }

    /// This configuration with `protocol` enabled as well.
    pub fn with_protocol(self, protocol: ControlProtocol) -> (c: Self)
        ensures
            c.enabled_protocols@ == self.enabled_protocols@.push(protocol),
            c.parameter_host == self.parameter_host,
    {
        let mut c = self;
        c.enabled_protocols.push(protocol);
        c
    }
}

} // verus!
