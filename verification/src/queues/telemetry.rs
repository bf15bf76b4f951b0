//! Telemetry messages: what the observer reports of violations and of the
//! operations it times, and the queue that carries them.
use crate::queues::command::{Command, CommandQueue};
use vstd::prelude::*;

verus! {

/// The kind of a telemetry message.
#[derive(Debug, Clone, Copy, PartialEq, Eq, Structural)]
pub enum TelemetryKind {
    /// A component overran its allowed time.
    Violation,
    /// Something happened, with numbers attached.
    Event,
}

/// A telemetry message.
///
/// Numbers that the receiver reads as `f32` are carried by their bits.
#[derive(Debug, Clone, PartialEq)]
pub enum Telemetry {
    /// A component took `actual_ns` where `expected_ns` was allowed.
    Violation {
        /// The component that overran.
        component: String,
        /// The allowed time, in nanoseconds.
        expected_ns: u64,
        /// The time taken, in nanoseconds.
        actual_ns: u64,
        /// The bits of the `f32` value applied, if any.
        value_bits: Option<u32>,
        /// When it happened, in microseconds since the Unix epoch.
        timestamp: u64,
    },
    /// Something of kind `kind` happened at `source`.
    Event {
        /// Where it happened.
        source: String,
        /// What happened.
        kind: String,
        /// The bits of the `f32` numbers attached.
        data_bits: Vec<u32>,
        /// When it happened, in microseconds since the Unix epoch.
        timestamp: u64,
    },
}

impl Command for Telemetry {

}

/// A command queue carrying telemetry messages.
pub type TelemetryQueue = CommandQueue<Telemetry>;

impl Telemetry {
    /// The message reports a violation by `component` of `expected_ns`,
    /// taking `actual_ns`, with the value bits and the time given.
    pub open spec fn is_violation(
        self,
        component: Seq<char>,
        expected_ns: u64,
        actual_ns: u64,
        value_bits: Option<u32>,
        timestamp: u64,
    ) -> bool {
        &&& self matches Telemetry::Violation {
            component: c,
            expected_ns: e,
            actual_ns: a,
            value_bits: v,
            timestamp: t,
        }
        &&& c@ == component
        &&& e == expected_ns
        &&& a == actual_ns
        &&& v == value_bits
        &&& t == timestamp
    }

    /// The message reports an event of kind `kind` at `source` with the
    /// numbers `data_bits`, at the time given.
    pub open spec fn is_event(
        self,
        source: Seq<char>,
        kind: Seq<char>,
        data_bits: Seq<u32>,
        timestamp: u64,
    ) -> bool {
        &&& self matches Telemetry::Event { source: s, kind: k, data_bits: d, timestamp: t }
        &&& s@ == source
        &&& k@ == kind
        &&& d@ == data_bits
        &&& t == timestamp
    }

    /// A violation message.
    pub fn violation(
        component: &str,
        expected_ns: u64,
        actual_ns: u64,
        value_bits: Option<u32>,
        timestamp: u64,
    ) -> (t: Telemetry)
        ensures
            t.is_violation(component@, expected_ns, actual_ns, value_bits, timestamp),
    {
        Telemetry::Violation {
            component: String::from_str(component),
            expected_ns,
            actual_ns,
            value_bits,
            timestamp,
        }
    }

    /// An event message.
    pub fn event(source: &str, kind: &str, data_bits: Vec<u32>, timestamp: u64) -> (t: Telemetry)
        ensures
            t.is_event(source@, kind@, data_bits@, timestamp),
    {
        Telemetry::Event {
            source: String::from_str(source),
            kind: String::from_str(kind),
            data_bits,
            timestamp,
        }
    }

    /// The kind of the message.
    pub fn kind(&self) -> (k: TelemetryKind)
        ensures
            (k == TelemetryKind::Violation) == (self is Violation),
    {
        match self {
            Telemetry::Violation { .. } => TelemetryKind::Violation,
            Telemetry::Event { .. } => TelemetryKind::Event,
        }
    }
}

} // verus!
