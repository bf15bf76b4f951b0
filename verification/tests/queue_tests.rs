use kama_core::error::QueueError;
use kama_core::queues::mpsc::MpscQueue;
use kama_core::queues::observer::{MicroControlObserver, MicroControlPermit};
use kama_core::queues::telemetry::{Telemetry, TelemetryKind, TelemetryQueue};
use kama_core::queues::signal::SignalSource;

#[test]
fn test_micro_control_permit() {
    let permit = MicroControlPermit::new("test", 1000);

    assert!(permit.is_allowed());
    assert_eq!(permit.max_time_ns(), 1000);
    assert_eq!(permit.component(), "test");

    permit.revoke();
    assert!(!permit.is_allowed());
}

#[test]
fn permit_clones_share_revocation() {
    let permit = MicroControlPermit::new("servo", 5);
    let other = permit.clone();
    other.revoke();
    assert!(!permit.is_allowed());
}

#[test]
fn test_signal_source_display() {
    let source = SignalSource::Automaton("lfo".into());
    assert_eq!(source.display(), "⚙️ lfo");

    let source = SignalSource::Sensor("knob".into());
    assert_eq!(source.display(), "👁️ knob");

    let source = SignalSource::Servo("filter".into());
    assert_eq!(source.display(), "🦾 filter");

    let source = SignalSource::External("midi".into());
    assert_eq!(source.display(), "🌍 midi");

    let source = SignalSource::Manual;
    assert_eq!(source.display(), "👤 manual");

    let source = SignalSource::Script;
    assert_eq!(source.display(), "📜 script");
}

#[test]
fn test_mpsc_basic() {
    let mut queue = MpscQueue::new();

    queue.push(1).unwrap();
    queue.push(2).unwrap();
    queue.push(3).unwrap();

    assert_eq!(queue.pop(), Some(1));
    assert_eq!(queue.pop(), Some(2));
    assert_eq!(queue.pop(), Some(3));
    assert_eq!(queue.pop(), None);
}

#[test]
fn mpsc_bounded_refuses_when_full() {
    let mut queue = MpscQueue::with_capacity(2);
    assert_eq!(queue.capacity(), 2);
    queue.push('a').unwrap();
    queue.push('b').unwrap();
    assert_eq!(queue.push('c'), Err(QueueError::QueueFull));
    assert_eq!(queue.size(), 2);
    assert_eq!(queue.pop(), Some('a'));
    queue.push('c').unwrap();
    assert!(!queue.is_empty());
}

#[test]
fn test_observer_creation() {
    let (tx, _rx) = crossbeam_channel::unbounded();
    let observer = MicroControlObserver::with_sender(tx);

    let stats = observer.sandbox_summary();
    assert_eq!(stats.total_operations, 0);
    assert_eq!(stats.total_violations, 0);
}

#[test]
fn test_observer_record_violation() {
    let (tx, rx) = crossbeam_channel::unbounded();
    let mut observer = MicroControlObserver::with_sender(tx);

    observer.record_violation("test_comp", 100, 250, 7, Some(0.5f32.to_bits()));

    let stats = observer.sandbox_summary();
    assert_eq!(stats.total_violations, 1);

    let violations = observer.violations();
    assert_eq!(violations.len(), 1);
    assert_eq!(violations[0].component, "test_comp");
    assert_eq!(violations[0].expected_ns, 100);
    assert_eq!(violations[0].actual_ns, 250);
    assert_eq!(violations[0].value_bits.map(f32::from_bits), Some(0.5));

    let telemetry = rx.try_recv().unwrap();
    match telemetry {
        Telemetry::Violation { component, expected_ns, actual_ns, value_bits, .. } => {
            assert_eq!(component, "test_comp");
            assert_eq!(expected_ns, 100);
            assert_eq!(actual_ns, 250);
            assert_eq!(value_bits.map(f32::from_bits), Some(0.5));
        }
        _ => panic!("Expected violation telemetry"),
    }
}

#[test]
fn observer_reports_completed_operations() {
    let queue = TelemetryQueue::new("test");
    let rx = queue.receiver();
    let mut observer = MicroControlObserver::new(queue);

    observer.complete_operation("test_op", 10_000, (10_000f32).to_bits(), 3);

    let stats = observer.sandbox_summary();
    assert_eq!(stats.total_operations, 1);
    assert!(stats.max_time_ns > 0);

    let telemetry = rx.try_recv().unwrap();
    assert_eq!(telemetry.kind(), TelemetryKind::Event);
    match telemetry {
        Telemetry::Event { source, kind, data_bits, timestamp } => {
            assert_eq!(source, "observer");
            assert_eq!(kind, "micro_complete");
            assert_eq!(data_bits, vec![(10_000f32).to_bits()]);
            assert_eq!(timestamp, 3);
        }
        _ => panic!("Expected event telemetry"),
    }
}

#[test]
fn observer_counts_operations_per_component() {
    let (tx, _rx) = crossbeam_channel::unbounded();
    let mut observer = MicroControlObserver::with_sender(tx);
    for i in 0..5u64 {
        observer.complete_operation("comp1", i * 10_000, 0, 0);
    }
    for i in 0..3u64 {
        observer.complete_operation("comp2", i * 20_000, 0, 0);
    }
    observer.record_violation("comp2", 10, 40_000, 1, None);

    let summary = observer.sandbox_summary();
    assert_eq!(summary.total_operations, 8);
    assert_eq!(summary.total_violations, 1);
    assert_eq!(summary.components, vec!["comp1".to_string(), "comp2".to_string()]);
    assert_eq!(summary.max_time_ns, 40_000);
    assert_eq!(summary.max_time_component, Some("comp1".to_string()));
    assert_eq!(summary.violations_count, 1);

    let comp1 = observer.component_stats("comp1").unwrap();
    assert_eq!(comp1.operations, 5);
    assert_eq!(comp1.total_time_ns, 100_000);
    let comp2 = observer.component_stats("comp2").unwrap();
    assert_eq!(comp2.operations, 3);
    assert_eq!(comp2.max_time_ns, 40_000);
    assert_eq!(comp2.violations, 1);
    assert!(observer.component_stats("comp3").is_none());
}

#[test]
fn telemetry_messages_carry_their_fields() {
    let v = Telemetry::violation("servo", 5, 9, None, 11);
    assert_eq!(v.kind(), TelemetryKind::Violation);
    assert_eq!(
        v,
        Telemetry::Violation {
            component: "servo".to_string(),
            expected_ns: 5,
            actual_ns: 9,
            value_bits: None,
            timestamp: 11
        }
    );
    let e = Telemetry::event("test", "event", vec![1.0f32.to_bits(), 2.0f32.to_bits()], 4);
    assert_eq!(e.kind(), TelemetryKind::Event);
}
