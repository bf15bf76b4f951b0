//! Origin of commands sent through the queues.
use vstd::prelude::*;

verus! {

/// Who issued a command.
#[derive(Debug, Clone, PartialEq, Eq)]
pub enum SignalSource {
    /// An automaton (LFO, envelope, sequencer), by name.
    Automaton(String),
    /// A sensor (knob, fader), by name.
    Sensor(String),
    /// A servo component, by name.
    Servo(String),
    /// An external source (MIDI, OSC), by name.
    External(String),
    /// A manual change.
    Manual,
    /// A script.
    Script,
}

/// The text shown for each source: a symbol, a space and the name.
pub open spec fn source_text(s: SignalSource) -> Seq<char> {
    match s {
        SignalSource::Automaton(n) => "⚙️ "@ + n@,
        SignalSource::Sensor(n) => "👁️ "@ + n@,
        SignalSource::Servo(n) => "🦾 "@ + n@,
        SignalSource::External(n) => "🌍 "@ + n@,
        SignalSource::Manual => "👤 manual"@,
        SignalSource::Script => "📜 script"@,
    }
}

impl SignalSource {
    /// The text shown for this source.
    pub fn display(&self) -> (s: String)
        ensures
            s@ == source_text(*self),
    {
        match self {
            SignalSource::Automaton(n) => {
                let mut s = "⚙️ ".to_owned();
                s.append(n.as_str());
                s
            },
            SignalSource::Sensor(n) => {
                let mut s = "👁️ ".to_owned();
                s.append(n.as_str());
                s
            },
            SignalSource::Servo(n) => {
                let mut s = "🦾 ".to_owned();
                s.append(n.as_str());
                s
            },
            SignalSource::External(n) => {
                let mut s = "🌍 ".to_owned();
                s.append(n.as_str());
                s
            },
            SignalSource::Manual => "👤 manual".to_owned(),
            SignalSource::Script => "📜 script".to_owned(),
        }
    }
}

} // verus!
