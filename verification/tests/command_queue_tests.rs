use kama_core::error::QueueError;
use kama_core::queues::command::{
    settle_send, should_evict, Command, CommandQueue, OverflowPolicy, TryRecvFailure, TrySendFailure,
};
use kama_core::queues::signal::SignalSource;

#[derive(Debug, Clone, PartialEq)]
struct SetParameter {
    value: f32,
    source: SignalSource,
}

impl SetParameter {
    fn new(value: f32, source: SignalSource) -> Self {
        SetParameter { value, source }
    }
}

impl Command for SetParameter {}

#[test]
fn test_command_queue_basic() {
    let queue: CommandQueue<SetParameter> = CommandQueue::new("test");

    let cmd = SetParameter::new(0.5, SignalSource::Manual);
    queue.send(cmd).unwrap();

    assert_eq!(queue.len(), 1);
    assert!(!queue.is_empty());

    let received = queue.try_recv().unwrap();
    assert_eq!(received.value, 0.5);
    assert_eq!(received.source, SignalSource::Manual);
    assert_eq!(queue.len(), 0);
    assert!(queue.is_empty());
}

#[test]
fn test_command_queue_bounded() {
    let queue: CommandQueue<SetParameter> = CommandQueue::with_capacity("test", 2);

    let cmd1 = SetParameter::new(0.1, SignalSource::Manual);
    let cmd2 = SetParameter::new(0.2, SignalSource::Manual);
    let cmd3 = SetParameter::new(0.3, SignalSource::Manual);

    queue.send(cmd1).unwrap();
    queue.send(cmd2).unwrap();

    // The third one is refused: the queue is full.
    assert!(queue.send(cmd3).is_err());
    assert_eq!(queue.len(), 2);
}

#[test]
fn bounded_queue_hands_back_the_refused_command() {
    let queue: CommandQueue<SetParameter> = CommandQueue::with_capacity("test", 1);
    queue.send(SetParameter::new(0.1, SignalSource::Manual)).unwrap();
    let refused = queue.send(SetParameter::new(0.7, SignalSource::Script));
    assert_eq!(
        refused,
        Err(TrySendFailure::Full(SetParameter::new(0.7, SignalSource::Script)))
    );
    assert!(queue.is_full());
    assert_eq!(
        QueueError::from_send_failure(refused.unwrap_err()),
        QueueError::QueueFull
    );
}

#[test]
fn test_command_queue_with_policy_drop_newest() {
    let queue: CommandQueue<SetParameter> =
        CommandQueue::with_policy("test", 2, OverflowPolicy::DropNewest);

    let cmd1 = SetParameter::new(0.1, SignalSource::Manual);
    let cmd2 = SetParameter::new(0.2, SignalSource::Manual);
    let cmd3 = SetParameter::new(0.3, SignalSource::Manual);

    queue.send(cmd1).unwrap();
    queue.send(cmd2).unwrap();

    // DropNewest swallows the third command without an error.
    queue.send(cmd3).unwrap();

    // The first two stay.
    assert_eq!(queue.len(), 2);

    let received1 = queue.try_recv().unwrap();
    assert_eq!(received1.value, 0.1);

    let received2 = queue.try_recv().unwrap();
    assert_eq!(received2.value, 0.2);

    assert!(queue.try_recv().is_err());
}

#[test]
fn test_command_queue_with_policy_drop_oldest() {
    let queue: CommandQueue<SetParameter> =
        CommandQueue::with_policy("test", 2, OverflowPolicy::DropOldest);

    let cmd1 = SetParameter::new(0.1, SignalSource::Manual);
    let cmd2 = SetParameter::new(0.2, SignalSource::Manual);
    let cmd3 = SetParameter::new(0.3, SignalSource::Manual);

    queue.send(cmd1).unwrap();
    queue.send(cmd2).unwrap();

    // DropOldest pushes out the oldest one (0.1).
    queue.send(cmd3).unwrap();

    // 0.2 and 0.3 stay.
    assert_eq!(queue.len(), 2);

    let received1 = queue.try_recv().unwrap();
    assert_eq!(received1.value, 0.2);

    let received2 = queue.try_recv().unwrap();
    assert_eq!(received2.value, 0.3);

    assert!(queue.try_recv().is_err());
}

#[test]
fn test_queue_stats() {
    let queue: CommandQueue<SetParameter> = CommandQueue::new("test");

    let stats = queue.stats();
    assert_eq!(stats.name, "test");
    assert_eq!(stats.current_size, 0);
    assert_eq!(stats.max_size, 0);
    assert!(!stats.is_bounded);

    let bounded: CommandQueue<SetParameter> = CommandQueue::with_capacity("bounded", 10);
    let stats = bounded.stats();
    assert!(stats.is_bounded);
    assert_eq!(stats.capacity, Some(10));
}

#[test]
fn stats_count_sent_commands() {
    let queue: CommandQueue<SetParameter> =
        CommandQueue::with_policy("counted", 1, OverflowPolicy::DropNewest);
    queue.send(SetParameter::new(0.1, SignalSource::Manual)).unwrap();
    queue.send(SetParameter::new(0.2, SignalSource::Manual)).unwrap();
    let stats = queue.stats();
    assert_eq!(stats.name, "counted");
    assert_eq!(stats.sent_count, 2);
    assert_eq!(stats.current_size, 1);
    assert_eq!(queue.name(), "counted");
}

#[test]
fn test_queue_cloning() {
    let queue: CommandQueue<SetParameter> = CommandQueue::new("test");
    let sender = queue.sender();
    let receiver = queue.receiver();

    // Senders and receivers can be cloned.
    let sender2 = sender.clone();
    let receiver2 = receiver.clone();

    let cmd = SetParameter::new(0.5, SignalSource::Manual);

    sender.send(cmd).unwrap();

    // Any receiver can read it.
    let _ = receiver2.try_recv().unwrap();
    drop(sender2);
}

#[test]
fn test_queue_iter() {
    let queue: CommandQueue<SetParameter> = CommandQueue::new("test");

    for i in 0..5 {
        let cmd = SetParameter::new(i as f32 * 0.1, SignalSource::Manual);
        queue.send(cmd).unwrap();
    }

    let mut count = 0;
    let mut iter = queue.iter();
    while let Some(cmd) = iter.next() {
        assert!(cmd.value >= 0.0 && cmd.value <= 0.5);
        count += 1;
    }
    assert_eq!(count, 5);
}

#[test]
fn empty_queue_reports_empty_and_blocking_send_delivers() {
    let queue: CommandQueue<SetParameter> = CommandQueue::new("test");
    assert_eq!(queue.try_recv().unwrap_err(), TryRecvFailure::Empty);
    assert_eq!(
        QueueError::from_recv_failure(TryRecvFailure::Empty),
        QueueError::QueueEmpty
    );
    queue
        .send_blocking(SetParameter::new(0.25, SignalSource::Manual))
        .unwrap();
    let clone = queue.clone();
    assert_eq!(clone.try_recv().unwrap().value, 0.25);
    assert!(queue
        .recv_timeout(std::time::Duration::from_millis(1))
        .is_err());
}

#[test]
fn settle_send_keeps_full_except_for_drop_newest() {
    assert_eq!(settle_send(None, Err(TrySendFailure::Full(5u32))), Err(TrySendFailure::Full(5)));
    assert_eq!(
        settle_send(Some(OverflowPolicy::Block), Err(TrySendFailure::Full(6u32))),
        Err(TrySendFailure::Full(6))
    );
    assert_eq!(
        settle_send(Some(OverflowPolicy::DropOldest), Err(TrySendFailure::Full(7u32))),
        Err(TrySendFailure::Full(7))
    );
    assert_eq!(settle_send(Some(OverflowPolicy::DropNewest), Err(TrySendFailure::Full(8u32))), Ok(()));
    assert_eq!(
        settle_send(Some(OverflowPolicy::DropNewest), Err(TrySendFailure::Disconnected(9u32))),
        Err(TrySendFailure::Disconnected(9))
    );
    assert_eq!(settle_send::<u32>(Some(OverflowPolicy::Block), Ok(())), Ok(()));
}

#[test]
fn full_bounded_queue_hands_command_back() {
    let queue: CommandQueue<SetParameter> = CommandQueue::with_capacity("full", 1);
    queue.send(SetParameter::new(0.1, SignalSource::Manual)).unwrap();
    let refused = queue.send(SetParameter::new(0.2, SignalSource::Manual));
    match refused {
        Err(TrySendFailure::Full(cmd)) => assert_eq!(cmd.value, 0.2),
        other => panic!("expected Full, got {:?}", other.is_ok()),
    }
    assert_eq!(queue.len(), 1);
}

#[test]
fn only_drop_oldest_evicts_and_only_when_full() {
    assert!(should_evict(Some(OverflowPolicy::DropOldest), true));
    assert!(!should_evict(Some(OverflowPolicy::DropOldest), false));
    assert!(!should_evict(Some(OverflowPolicy::DropNewest), true));
    assert!(!should_evict(Some(OverflowPolicy::Block), true));
    assert!(!should_evict(None, true));
}
