//! The command queue: a non-blocking multi-producer, multi-consumer channel
//! with an overflow policy, its configuration and its statistics.
use crossbeam_channel::{Receiver, RecvTimeoutError, Sender, TryRecvError, TrySendError};
use std::sync::atomic::{AtomicU64, Ordering};
use std::sync::Arc;
use std::time::Duration;
use vstd::prelude::*;

verus! {

/// Overflow policy of a bounded queue.
#[derive(Debug, Clone, Copy, PartialEq, Eq, Structural)]
pub enum OverflowPolicy {
    /// Drop new messages.
    DropNewest,
    /// Drop the oldest messages.
    DropOldest,
    /// Block the sender (control thread only).
    Block,
}

/// Marker trait for anything that can be carried by a command queue.
pub trait Command: Send + 'static {

}

/// Queue statistics.
#[derive(Debug, Clone, Default)]
pub struct QueueStats {
    /// Queue name.
    pub name: String,
    /// Number of messages sent.
    pub sent_count: u64,
    /// Number of messages received.
    pub received_count: u64,
    /// Current queue size.
    pub current_size: usize,
    /// Peak queue size.
    pub max_size: usize,
    /// Number of lost messages (when the queue overflowed).
    pub lost_count: u64,
    /// Whether the queue is bounded.
    pub is_bounded: bool,
    /// Capacity (for bounded queues).
    pub capacity: Option<usize>,
}

#[verifier::external_type_specification]
#[verifier::external_body]
#[verifier::reject_recursive_types(T)]
pub struct ExChannelSender<T>(Sender<T>);

#[verifier::external_type_specification]
#[verifier::external_body]
#[verifier::reject_recursive_types(T)]
pub struct ExChannelReceiver<T>(Receiver<T>);

/// Why a non-blocking send did not deliver its message; the message is
/// handed back.
#[derive(Debug, PartialEq, Eq)]
pub enum TrySendFailure<T> {
    /// The channel is full.
    Full(T),
    /// Every receiver is gone.
    Disconnected(T),
}

/// Why a non-blocking receive returned nothing.
#[derive(Debug, Clone, Copy, PartialEq, Eq, Structural)]
pub enum TryRecvFailure {
    /// The channel is empty.
    Empty,
    /// The channel is empty and every sender is gone.
    Disconnected,
}

/// Why a receive with a time limit returned nothing.
#[derive(Debug, Clone, Copy, PartialEq, Eq, Structural)]
pub enum RecvTimeoutFailure {
    /// No message came before the time limit.
    Timeout,
    /// The channel is empty and every sender is gone.
    Disconnected,
}

/// A blocking send failed because every receiver is gone; the message is
/// handed back.
#[derive(Debug, PartialEq, Eq)]
pub struct SendFailure<T>(pub T);

/// Whether a send result hands back exactly `msg` whenever it fails.
pub open spec fn returns_message<T>(r: Result<(), TrySendFailure<T>>, msg: T) -> bool {
    match r {
        Ok(()) => true,
        Err(TrySendFailure::Full(m)) => m == msg,
        Err(TrySendFailure::Disconnected(m)) => m == msg,
    }
}

/// What a send answers under `policy` when the channel answered `answer`:
/// under `DropNewest` a full channel swallows the command and the send
/// succeeds; every other answer is passed on unchanged.
pub open spec fn settled<T>(
    policy: Option<OverflowPolicy>,
    answer: Result<(), TrySendFailure<T>>,
) -> Result<(), TrySendFailure<T>> {
    if policy == Some(OverflowPolicy::DropNewest) && answer is Err && answer->Err_0 is Full {
        Ok(())
    } else {
        answer
    }
}

/// Settle the channel's answer to a send under `policy`, as `settled`
/// states.
pub fn settle_send<T>(
    policy: Option<OverflowPolicy>,
    answer: Result<(), TrySendFailure<T>>,
) -> (r: Result<(), TrySendFailure<T>>)
    ensures
        r == settled(policy, answer),
        policy != Some(OverflowPolicy::DropNewest) ==> r == answer,
        answer is Ok ==> r == answer,
        answer matches Err(TrySendFailure::Disconnected(m)) ==> r == answer,
        policy == Some(OverflowPolicy::DropNewest) && (answer matches Err(TrySendFailure::Full(m)))
            ==> r is Ok,
{
    match answer {
        Err(TrySendFailure::Full(m)) => match policy {
            Some(OverflowPolicy::DropNewest) => Ok(()),
            _ => Err(TrySendFailure::Full(m)),
        },
        other => other,
    }
}

/// Whether a send under `policy` first takes the oldest waiting command out,
/// given whether the channel answered that it is full: only `DropOldest`
/// does, and only on a full channel.
pub open spec fn evicts(policy: Option<OverflowPolicy>, full: bool) -> bool {
    policy == Some(OverflowPolicy::DropOldest) && full
}

/// Decide, as `evicts` states, whether a send takes the oldest waiting
/// command out before sending.
pub fn should_evict(policy: Option<OverflowPolicy>, full: bool) -> (r: bool)
    ensures
        r == evicts(policy, full),
        r ==> full,
        r ==> policy == Some(OverflowPolicy::DropOldest),
        policy == Some(OverflowPolicy::DropOldest) && full ==> r,
{
    match policy {
        Some(OverflowPolicy::DropOldest) => full,
        _ => false,
    }
}

/// `crossbeam_channel::unbounded`: a fresh channel with no capacity limit.
/// Nothing is stated of the two ends beyond their existence.
#[verifier::external_body]
fn open_unbounded<T>() -> (Sender<T>, Receiver<T>) {
    crossbeam_channel::unbounded()
}

/// `crossbeam_channel::bounded`: a fresh channel holding at most `cap`
/// messages. It panics when the capacity is too large for its index
/// arithmetic (`(cap + 1).next_power_of_two() * 2` must fit in `usize`), which
/// `requires` rules out. That the allocation of `cap` slots succeeds is not
/// stated.
#[verifier::external_body]
fn open_bounded<T>(cap: usize) -> (Sender<T>, Receiver<T>)
    requires
        cap <= usize::MAX / 4,
{
    crossbeam_channel::bounded(cap)
}

/// `Sender::try_send`: delivers `msg` at once or hands that same message
/// back inside the error, as the crate documents. Which of the outcomes
/// occurs depends on the other ends of the channel and is not stated.
#[verifier::external_body]
fn channel_try_send<T>(tx: &Sender<T>, msg: T) -> (r: Result<(), TrySendFailure<T>>)
    ensures
        returns_message(r, msg),
{
    match tx.try_send(msg) {
        Ok(()) => Ok(()),
        Err(TrySendError::Full(m)) => Err(TrySendFailure::Full(m)),
        Err(TrySendError::Disconnected(m)) => Err(TrySendFailure::Disconnected(m)),
    }
}

/// `Sender::send`: blocks until `msg` is delivered, or hands it back when
/// every receiver is gone. Which of the two occurs is not stated.
#[verifier::external_body]
pub(crate) fn channel_send<T>(tx: &Sender<T>, msg: T) -> (r: Result<(), SendFailure<T>>)
    ensures
        r matches Err(SendFailure(m)) ==> m == msg,
{
    tx.send(msg).map_err(|e| SendFailure(e.0))
}

/// `Receiver::try_recv`: takes the next message if there is one. What comes
/// back depends on the other ends of the channel and is not stated.
#[verifier::external_body]
fn channel_try_recv<T>(rx: &Receiver<T>) -> Result<T, TryRecvFailure> {
    match rx.try_recv() {
        Ok(m) => Ok(m),
        Err(TryRecvError::Empty) => Err(TryRecvFailure::Empty),
        Err(TryRecvError::Disconnected) => Err(TryRecvFailure::Disconnected),
    }
}

/// `Receiver::recv_timeout`: waits at most `timeout` for the next message.
/// What comes back depends on time and on the other ends, and is not stated.
#[verifier::external_body]
fn channel_recv_timeout<T>(rx: &Receiver<T>, timeout: Duration) -> Result<T, RecvTimeoutFailure> {
    match rx.recv_timeout(timeout) {
        Ok(m) => Ok(m),
        Err(RecvTimeoutError::Timeout) => Err(RecvTimeoutFailure::Timeout),
        Err(RecvTimeoutError::Disconnected) => Err(RecvTimeoutFailure::Disconnected),
    }
}

/// `Sender::clone`: another handle on the same channel.
#[verifier::external_body]
fn clone_sender<T>(tx: &Sender<T>) -> Sender<T> {
    tx.clone()
}

/// `Receiver::clone`: another handle on the same channel.
#[verifier::external_body]
fn clone_receiver<T>(rx: &Receiver<T>) -> Receiver<T> {
    rx.clone()
}

/// `Receiver::len`: the number of messages waiting, at some moment during
/// the call; not stated.
#[verifier::external_body]
fn channel_len<T>(rx: &Receiver<T>) -> usize {
    rx.len()
}

/// `Receiver::is_empty`: whether no message is waiting, at some moment
/// during the call; not stated.
#[verifier::external_body]
fn channel_is_empty<T>(rx: &Receiver<T>) -> bool {
    rx.is_empty()
}

/// `Sender::is_full`: whether the channel is at capacity, at some moment
/// during the call; not stated.
#[verifier::external_body]
fn channel_is_full<T>(tx: &Sender<T>) -> bool {
    tx.is_full()
}

/// Takes every message available, one call at a time.
#[verifier::reject_recursive_types(T)]
pub struct QueueIter<T: Command> {
    rx: Receiver<T>,
}

impl<T: Command> QueueIter<T> {
    /// The next available message, or `None` when none is waiting.
    pub fn next(&mut self) -> Option<T> {
        match channel_try_recv(&self.rx) {
            Ok(m) => Some(m),
            Err(_) => None,
        }
    }
}

/// A non-blocking command queue (multiple producers, multiple consumers).
///
/// The queue holds both ends of one channel; clones share it. Its contents
/// change under every handle, so contracts speak of the configuration and
/// of what each call does with the message it is given.
#[verifier::reject_recursive_types(T)]
pub struct CommandQueue<T: Command> {
    tx: Sender<T>,
    rx: Receiver<T>,
    name: String,
    policy: Option<OverflowPolicy>,
    capacity: Option<usize>,
    sent: Arc<AtomicU64>,
}

impl<T: Command> CommandQueue<T> {
    /// The queue's name.
    pub closed spec fn name_view(&self) -> Seq<char> {
        self.name@
    }

    /// The overflow policy; `None` for an unbounded queue.
    pub closed spec fn policy_view(&self) -> Option<OverflowPolicy> {
        self.policy
    }

    /// The capacity; `None` for an unbounded queue.
    pub closed spec fn capacity_view(&self) -> Option<usize> {
        self.capacity
    }

    /// Create a queue with an unbounded buffer.
    pub fn new(name: &str) -> (q: Self)
        ensures
            q.name_view() == name@,
            q.policy_view() == None::<OverflowPolicy>,
            q.capacity_view() == None::<usize>,
    {
        let (tx, rx) = open_unbounded();
        CommandQueue {
            tx,
            rx,
            name: name.to_owned(),
            policy: None,
            capacity: None,
            sent: Arc::new(AtomicU64::new(0)),
        }
    }

    /// Create a bounded queue whose full sender gets an error back.
    pub fn with_capacity(name: &str, capacity: usize) -> (q: Self)
        requires
            capacity <= usize::MAX / 4,
        ensures
            q.name_view() == name@,
            q.policy_view() == Some(OverflowPolicy::Block),
            q.capacity_view() == Some(capacity),
    {
        Self::with_policy(name, capacity, OverflowPolicy::Block)
    }

    /// Create a bounded queue with an overflow policy.
    pub fn with_policy(name: &str, capacity: usize, policy: OverflowPolicy) -> (q: Self)
        requires
            capacity <= usize::MAX / 4,
        ensures
            q.name_view() == name@,
            q.policy_view() == Some(policy),
            q.capacity_view() == Some(capacity),
    {
        let (tx, rx) = open_bounded(capacity);
        CommandQueue {
            tx,
            rx,
            name: name.to_owned(),
            policy: Some(policy),
            capacity: Some(capacity),
            sent: Arc::new(AtomicU64::new(0)),
        }
    }

    /// Send a command without blocking.
    ///
    /// Whether the oldest waiting command is taken out first is decided by
    /// `should_evict` from the policy and the channel's answer to whether it
    /// is full: under `DropOldest` a full queue loses its oldest command.
    /// The channel's answer is then settled by
    /// `settle_send`: under `DropNewest` a full queue swallows the command
    /// and the call succeeds; otherwise the answer is returned as it is, so
    /// a full bounded queue hands the command back in `Full`.
    pub fn send(&self, cmd: T) -> (r: Result<(), TrySendFailure<T>>)
        ensures
            returns_message(r, cmd),
            self.policy_view() == Some(OverflowPolicy::DropNewest)
                ==> !(r matches Err(TrySendFailure::Full(_))),
            exists|answer: Result<(), TrySendFailure<T>>|
                returns_message(answer, cmd) && r == #[trigger] settled(self.policy_view(), answer),
    {
        let full = channel_is_full(&self.tx);
        if should_evict(self.policy, full) {
            let _oldest = channel_try_recv(&self.rx);
        }
        let answer = channel_try_send(&self.tx, cmd);
        let ghost channel_answer = answer;
        let r = settle_send(self.policy, answer);
        if r.is_ok() {
            self.sent.fetch_add(1, Ordering::Relaxed);
        }
        assert(returns_message(channel_answer, cmd) && r == settled(self.policy, channel_answer));
        r
    }

    /// Send a command, blocking while the queue is full. A failure hands the
    /// command back.
    pub fn send_blocking(&self, cmd: T) -> (r: Result<(), SendFailure<T>>)
        ensures
            r matches Err(SendFailure(m)) ==> m == cmd,
    {
        let r = channel_send(&self.tx, cmd);
        if r.is_ok() {
            self.sent.fetch_add(1, Ordering::Relaxed);
        }
        r
    }

    /// Take the next command without blocking.
    pub fn try_recv(&self) -> Result<T, TryRecvFailure> {
        channel_try_recv(&self.rx)
    }

    /// Take the next command, waiting at most `timeout`.
    pub fn recv_timeout(&self, timeout: Duration) -> Result<T, RecvTimeoutFailure> {
        channel_recv_timeout(&self.rx, timeout)
    }

    /// Another sending handle on the queue's channel.
    pub fn sender(&self) -> Sender<T> {
        clone_sender(&self.tx)
    }

    /// Another receiving handle on the queue's channel.
    pub fn receiver(&self) -> Receiver<T> {
        clone_receiver(&self.rx)
    }

    /// The queue's name.
    pub fn name(&self) -> (r: &str)
        ensures
            r@ == self.name_view(),
    {
        self.name.as_str()
    }

    /// Number of waiting commands (a snapshot).
    pub fn len(&self) -> usize {
        channel_len(&self.rx)
    }

    /// Whether no command is waiting (a snapshot).
    pub fn is_empty(&self) -> bool {
        channel_is_empty(&self.rx)
    }

    /// Whether a bounded queue is at capacity (a snapshot).
    pub fn is_full(&self) -> bool {
        channel_is_full(&self.tx)
    }

    /// Takes the commands available from now on, one call at a time.
    pub fn iter(&self) -> QueueIter<T> {
        QueueIter { rx: clone_receiver(&self.rx) }
    }

    /// Statistics of the queue.
    pub fn stats(&self) -> (s: QueueStats)
        ensures
            s.name@ == self.name_view(),
            s.received_count == 0,
            s.max_size == 0,
            s.lost_count == 0,
            s.is_bounded == self.policy_view().is_some(),
            s.capacity == self.capacity_view(),
    {
        QueueStats {
            name: self.name.clone(),
            sent_count: self.sent.load(Ordering::Relaxed),
            received_count: 0,
            current_size: self.len(),
            max_size: 0,
            lost_count: 0,
            is_bounded: self.policy.is_some(),
            capacity: self.capacity,
        }
    }
}

impl<T: Command> Clone for CommandQueue<T> {
    /// Another handle on the same queue.
    fn clone(&self) -> (c: Self)
        ensures
            c.name_view() == self.name_view(),
            c.policy_view() == self.policy_view(),
            c.capacity_view() == self.capacity_view(),
    {
        CommandQueue {
            tx: clone_sender(&self.tx),
            rx: clone_receiver(&self.rx),
            name: self.name.clone(),
            policy: self.policy,
            capacity: self.capacity,
            sent: self.sent.clone(),
        }
    }
}

} // verus!
