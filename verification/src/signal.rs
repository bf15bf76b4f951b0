//! Signal vocabulary for communication between components.
use vstd::prelude::*;

verus! {

/// Source of a parameter change.
#[derive(Debug, Clone, PartialEq, Eq)]
pub enum SignalSource {
    /// Change from the user interface.
    UserInterface,
    /// Automatic change (LFO, envelope).
    Automation,
    /// MIDI message with its channel and controller.
    Midi {
        /// MIDI channel (0-15).
        channel: u8,
        /// Controller number (0-127).
        controller: u8,
    },
    /// OSC message with its address.
    Osc {
        /// OSC address.
        address: String,
    },
    /// Change from a script.
    Script,
    /// External source.
    External,
}

/// Marker trait for signals.
pub trait Signal: Send + Sync + 'static {

}

/// Clock tick from the transport.
#[derive(Debug, Clone, Copy, PartialEq, Eq, Structural)]
pub struct ClockTick {
    /// Position in samples.
    pub sample_pos: u64,
    /// Samples since the previous tick.
    pub samples_since_last: u32,
}

impl Signal for ClockTick {

}

/// System events.
#[derive(Debug, Clone, PartialEq, Eq)]
pub enum SystemEvent {
    /// The processing graph changed.
    GraphChanged,
    /// Transport started.
    TransportStarted,
    /// Transport stopped.
    TransportStopped,
    /// System error with a description.
    Error(String),
}

impl Signal for SystemEvent {

}

} // verus!
