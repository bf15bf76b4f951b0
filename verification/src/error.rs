//! Error types shared by the buffers, queues and processing graph.
use crate::queues::command::{TryRecvFailure, TrySendFailure};
use vstd::prelude::*;

verus! {

/// Errors that can occur during buffer operations.
#[derive(Debug, Clone, Copy, PartialEq, Eq, Structural)]
pub enum BufferError {
    /// Buffer is empty (tried to read when no data available).
    Empty,
    /// Buffer is full (tried to write when no space available).
    Full,
    /// Invalid index access.
    InvalidIndex(usize),
    /// Buffer is disconnected (other end is gone).
    Disconnected,
    /// Operation would block (for non-blocking operations).
    WouldBlock,
    /// Buffer overflow (data was lost).
    Overflow,
    /// Buffer underflow (no data available).
    Underflow,
    /// Invalid buffer size.
    InvalidSize(usize),
    /// Misaligned access.
    Misaligned,
}

/// Whether an error of this kind can be recovered from by retrying later.
pub open spec fn buffer_error_recoverable(e: BufferError) -> bool {
    match e {
        BufferError::Empty | BufferError::Full | BufferError::WouldBlock
        | BufferError::Overflow | BufferError::Underflow => true,
        _ => false,
    }
}

/// The short code of each buffer error.
pub open spec fn buffer_error_code(e: BufferError) -> Seq<char> {
    match e {
        BufferError::Empty => "ERR_BUF_EMPTY"@,
        BufferError::Full => "ERR_BUF_FULL"@,
        BufferError::InvalidIndex(_) => "ERR_BUF_INVALID_INDEX"@,
        BufferError::Disconnected => "ERR_BUF_DISCONNECTED"@,
        BufferError::WouldBlock => "ERR_BUF_WOULD_BLOCK"@,
        BufferError::Overflow => "ERR_BUF_OVERFLOW"@,
        BufferError::Underflow => "ERR_BUF_UNDERFLOW"@,
        BufferError::InvalidSize(_) => "ERR_BUF_INVALID_SIZE"@,
        BufferError::Misaligned => "ERR_BUF_MISALIGNED"@,
    }
}

impl BufferError {
    /// Check if this error is recoverable.
    pub fn is_recoverable(&self) -> (r: bool)
        ensures
            r == buffer_error_recoverable(*self),
    {
        match self {
            BufferError::Empty | BufferError::Full | BufferError::WouldBlock
            | BufferError::Overflow | BufferError::Underflow => true,
            BufferError::InvalidIndex(_) | BufferError::Disconnected
            | BufferError::InvalidSize(_) | BufferError::Misaligned => false,
        }
    }

    /// Get a short error code.
    pub fn code(&self) -> (r: &'static str)
        ensures
            r@ == buffer_error_code(*self),
    {
        match self {
            BufferError::Empty => "ERR_BUF_EMPTY",
            BufferError::Full => "ERR_BUF_FULL",
            BufferError::InvalidIndex(_) => "ERR_BUF_INVALID_INDEX",
            BufferError::Disconnected => "ERR_BUF_DISCONNECTED",
            BufferError::WouldBlock => "ERR_BUF_WOULD_BLOCK",
            BufferError::Overflow => "ERR_BUF_OVERFLOW",
            BufferError::Underflow => "ERR_BUF_UNDERFLOW",
            BufferError::InvalidSize(_) => "ERR_BUF_INVALID_SIZE",
            BufferError::Misaligned => "ERR_BUF_MISALIGNED",
        }
    }
}


/// Appends `c` to `s` (`String::push`).
#[verifier::external_body]
pub(crate) fn push_char(s: &mut String, c: char)
    ensures
        final(s)@ == old(s)@.push(c),
{
    s.push(c);
}

/// The decimal digit character of `d`.
pub open spec fn digit_char(d: int) -> char {
    (48 + d) as char
}

/// Decimal representation of `n`, most significant digit first.
pub open spec fn decimal(n: nat) -> Seq<char>
    decreases n,
{
    if n < 10 {
        seq![digit_char(n as int)]
    } else {
        decimal(n / 10).push(digit_char((n % 10) as int))
    }
}

/// Decimal representation of `n`.
pub fn decimal_string(n: usize) -> (s: String)
    ensures
        s@ == decimal(n as nat),
{
    let mut digits: Vec<char> = Vec::new();
    let mut rest: usize = n;
    // digits@ holds the low digits, least significant first
    while rest >= 10
        invariant
            decimal(n as nat) == decimal(rest as nat) + digits@.reverse(),
        decreases rest,
    {
        let d = rest % 10;
        let c = ((48 + d) as u8) as char;
        let ghost prev = digits@;
        digits.push(c);
        proof {
            assert(decimal(rest as nat) == decimal((rest / 10) as nat).push(digit_char(d as int)));
            assert(digits@.reverse() =~= seq![c] + prev.reverse());
            assert(decimal((rest / 10) as nat).push(c) + prev.reverse() =~= decimal(
                (rest / 10) as nat,
            ) + (seq![c] + prev.reverse()));
        }
        rest = rest / 10;
    }
    let mut s = String::new();
    push_char(&mut s, ((48 + rest) as u8) as char);
    let mut i: usize = digits.len();
    while i > 0
        invariant
            i <= digits@.len(),
            decimal(n as nat) == decimal(rest as nat) + digits@.reverse(),
            rest < 10,
            s@ + digits@.subrange(0, i as int).reverse() == decimal(n as nat),
        decreases i,
    {
        i = i - 1;
        let ghost before = s@;
        push_char(&mut s, digits[i]);
        proof {
            assert(digits@.subrange(0, i + 1).reverse() =~= seq![digits@[i as int]]
                + digits@.subrange(0, i as int).reverse());
            assert(s@ + digits@.subrange(0, i as int).reverse() =~= before + digits@.subrange(
                0,
                i + 1,
            ).reverse());
        }
    }
    assert(digits@.subrange(0, 0).reverse() =~= Seq::<char>::empty());
    s
}

/// The message of each buffer error.
pub open spec fn buffer_error_message(e: BufferError) -> Seq<char> {
    match e {
        BufferError::Empty => "Buffer is empty"@,
        BufferError::Full => "Buffer is full"@,
        BufferError::InvalidIndex(i) => "Invalid index: "@ + decimal(i as nat),
        BufferError::Disconnected => "Buffer is disconnected"@,
        BufferError::WouldBlock => "Operation would block"@,
        BufferError::Overflow => "Buffer overflow"@,
        BufferError::Underflow => "Buffer underflow"@,
        BufferError::InvalidSize(n) => "Invalid buffer size: "@ + decimal(n as nat),
        BufferError::Misaligned => "Misaligned access"@,
    }
}

impl BufferError {
    /// The message describing this error.
    pub fn message(&self) -> (s: String)
        ensures
            s@ == buffer_error_message(*self),
    {
        let (text, number) = match self {
            BufferError::Empty => ("Buffer is empty", None),
            BufferError::Full => ("Buffer is full", None),
            BufferError::InvalidIndex(i) => ("Invalid index: ", Some(*i)),
            BufferError::Disconnected => ("Buffer is disconnected", None),
            BufferError::WouldBlock => ("Operation would block", None),
            BufferError::Overflow => ("Buffer overflow", None),
            BufferError::Underflow => ("Buffer underflow", None),
            BufferError::InvalidSize(n) => ("Invalid buffer size: ", Some(*n)),
            BufferError::Misaligned => ("Misaligned access", None),
        };
        let mut s = text.to_owned();
        if let Some(n) = number {
            let digits = decimal_string(n);
            s.append(digits.as_str());
        }
        s
    }
}

/// Errors of parameter operations.
///
/// Values are carried as `f32` bit patterns and parameter types by their
/// names.
#[derive(Debug, Clone, PartialEq, Eq)]
pub enum ParameterError {
    /// Parameter name is empty.
    Empty,
    /// Parameter name contains an invalid character.
    InvalidCharacter(char),
    /// Parameter name is too long.
    TooLong {
        /// Maximum allowed length.
        max: usize,
    },
    /// Parameter name must start with a letter.
    MustStartWithLetter,
    /// Parameter not found.
    NotFound(String),
    /// Parameter type mismatch.
    TypeMismatch {
        /// Name of the expected parameter type.
        expected: String,
        /// Name of the actual parameter type.
        got: String,
    },
    /// Value out of range.
    OutOfRange {
        /// Bit pattern of the value that was out of range.
        value: u32,
        /// Bit pattern of the minimum allowed value.
        min: u32,
        /// Bit pattern of the maximum allowed value.
        max: u32,
    },
    /// Invalid choice (for choice parameters).
    InvalidChoice(String),
    /// Duplicate parameter.
    Duplicate(String),
}

impl ParameterError {
    /// Create a new not found error.
    pub fn not_found(name: &str) -> (e: Self)
        ensures
            e matches ParameterError::NotFound(n) && n@ == name@,
    {
        ParameterError::NotFound(name.to_owned())
    }

    /// Create a new type mismatch error.
    pub fn type_mismatch(expected: &str, got: &str) -> (e: Self)
        ensures
            e matches ParameterError::TypeMismatch { expected: x, got: g } && x@ == expected@
                && g@ == got@,
    {
        ParameterError::TypeMismatch { expected: expected.to_owned(), got: got.to_owned() }
    }

    /// Create a new out of range error from the bit patterns of the value
    /// and the bounds.
    pub fn out_of_range(value: u32, min: u32, max: u32) -> (e: Self)
        ensures
            e == (ParameterError::OutOfRange { value, min, max }),
    {
        ParameterError::OutOfRange { value, min, max }
    }

    /// Create a new invalid choice error.
    pub fn invalid_choice(choice: &str) -> (e: Self)
        ensures
            e matches ParameterError::InvalidChoice(c) && c@ == choice@,
    {
        ParameterError::InvalidChoice(choice.to_owned())
    }

    /// Create a new duplicate parameter error.
    pub fn duplicate(name: &str) -> (e: Self)
        ensures
            e matches ParameterError::Duplicate(n) && n@ == name@,
    {
        ParameterError::Duplicate(name.to_owned())
    }
}

/// Errors that can occur during queue operations.
#[derive(Debug, Clone, PartialEq, Eq)]
pub enum QueueError {
    /// Queue is full.
    QueueFull,
    /// Queue is empty.
    QueueEmpty,
    /// Channel is disconnected (all senders or receivers dropped).
    ChannelDisconnected,
    /// Operation timed out.
    Timeout,
    /// Operation not supported for this queue type.
    Unsupported(String),
    /// Send failed with data loss.
    SendFailed(String),
    /// Receive failed.
    ReceiveFailed(String),
    /// Invalid queue configuration.
    InvalidConfig(String),
}

impl QueueError {
    /// Create a new unsupported error.
    pub fn unsupported(msg: &str) -> (e: Self)
        ensures
            e matches QueueError::Unsupported(m) && m@ == msg@,
    {
        QueueError::Unsupported(msg.to_owned())
    }

    /// Create a new send failed error.
    pub fn send_failed(msg: &str) -> (e: Self)
        ensures
            e matches QueueError::SendFailed(m) && m@ == msg@,
    {
        QueueError::SendFailed(msg.to_owned())
    }

    /// Create a new receive failed error.
    pub fn receive_failed(msg: &str) -> (e: Self)
        ensures
            e matches QueueError::ReceiveFailed(m) && m@ == msg@,
    {
        QueueError::ReceiveFailed(msg.to_owned())
    }

    /// Create a new invalid config error.
    pub fn invalid_config(msg: &str) -> (e: Self)
        ensures
            e matches QueueError::InvalidConfig(m) && m@ == msg@,
    {
        QueueError::InvalidConfig(msg.to_owned())
    }

    /// The queue error for a failed non-blocking send; the message is dropped.
    pub fn from_send_failure<T>(e: TrySendFailure<T>) -> (q: Self)
        ensures
            e is Full ==> q == QueueError::QueueFull,
            e is Disconnected ==> q == QueueError::ChannelDisconnected,
    {
        match e {
            TrySendFailure::Full(_) => QueueError::QueueFull,
            TrySendFailure::Disconnected(_) => QueueError::ChannelDisconnected,
        }
    }

    /// The queue error for a failed non-blocking receive.
    pub fn from_recv_failure(e: TryRecvFailure) -> (q: Self)
        ensures
            e is Empty ==> q == QueueError::QueueEmpty,
            e is Disconnected ==> q == QueueError::ChannelDisconnected,
    {
        match e {
            TryRecvFailure::Empty => QueueError::QueueEmpty,
            TryRecvFailure::Disconnected => QueueError::ChannelDisconnected,
        }
    }
}

/// Main error type for audio processing operations.
#[derive(Debug, Clone, PartialEq)]
pub enum ProcessError {
    /// Error during audio processing.
    Processing(String),
    /// Error with a parameter (invalid value, out of range, etc.).
    Parameter(String),
    /// Invalid port access.
    InvalidPort(String),
    /// Buffer operation failed.
    Buffer(String),
    /// Node not found.
    NodeNotFound(u32),
    /// Sample rate mismatch; the rates are carried as `f32` bit patterns.
    SampleRateMismatch {
        /// Bit pattern of the expected sample rate.
        expected: u32,
        /// Bit pattern of the actual sample rate.
        got: u32,
    },
    /// Configuration error.
    Config(String),
    /// Not initialized.
    NotInitialized,
    /// Already initialized.
    AlreadyInitialized,
    /// Unsupported operation.
    Unsupported(String),
    /// Timeout occurred.
    Timeout,
    /// Internal error (for implementation-specific errors).
    Internal(String),
}

/// Whether a processing error can be recovered from.
pub open spec fn process_error_recoverable(e: ProcessError) -> bool {
    match e {
        ProcessError::Processing(_) => true,
        ProcessError::Parameter(_) => true,
        ProcessError::InvalidPort(_) => false,
        ProcessError::Buffer(_) => true,
        ProcessError::NodeNotFound(_) => false,
        ProcessError::SampleRateMismatch { .. } => false,
        ProcessError::Config(_) => false,
        ProcessError::NotInitialized => true,
        ProcessError::AlreadyInitialized => true,
        ProcessError::Unsupported(_) => false,
        ProcessError::Timeout => true,
        ProcessError::Internal(_) => false,
    }
}

/// The short code of each processing error.
pub open spec fn process_error_code(e: ProcessError) -> Seq<char> {
    match e {
        ProcessError::Processing(_) => "ERR_PROCESSING"@,
        ProcessError::Parameter(_) => "ERR_PARAMETER"@,
        ProcessError::InvalidPort(_) => "ERR_INVALID_PORT"@,
        ProcessError::Buffer(_) => "ERR_BUFFER"@,
        ProcessError::NodeNotFound(_) => "ERR_NODE_NOT_FOUND"@,
        ProcessError::SampleRateMismatch { .. } => "ERR_SAMPLE_RATE"@,
        ProcessError::Config(_) => "ERR_CONFIG"@,
        ProcessError::NotInitialized => "ERR_NOT_INIT"@,
        ProcessError::AlreadyInitialized => "ERR_ALREADY_INIT"@,
        ProcessError::Unsupported(_) => "ERR_UNSUPPORTED"@,
        ProcessError::Timeout => "ERR_TIMEOUT"@,
        ProcessError::Internal(_) => "ERR_INTERNAL"@,
    }
}

impl ProcessError {
    /// Create a new processing error.
    pub fn processing(msg: &str) -> (e: Self)
        ensures
            e matches ProcessError::Processing(m) && m@ == msg@,
    {
        ProcessError::Processing(msg.to_owned())
    }

    /// Create a new parameter error.
    pub fn parameter(msg: &str) -> (e: Self)
        ensures
            e matches ProcessError::Parameter(m) && m@ == msg@,
    {
        ProcessError::Parameter(msg.to_owned())
    }

    /// Create a new invalid port error for the port described by `port`.
    pub fn invalid_port(port: &str) -> (e: Self)
        ensures
            e matches ProcessError::InvalidPort(m) && m@ == "Invalid port: "@ + port@,
    {
        let mut m = "Invalid port: ".to_owned();
        m.append(port);
        ProcessError::InvalidPort(m)
    }

    /// Create a new buffer error.
    pub fn buffer(msg: &str) -> (e: Self)
        ensures
            e matches ProcessError::Buffer(m) && m@ == msg@,
    {
        ProcessError::Buffer(msg.to_owned())
    }

    /// Create a new node not found error.
    pub fn node_not_found(id: u32) -> (e: Self)
        ensures
            e == ProcessError::NodeNotFound(id),
    {
        ProcessError::NodeNotFound(id)
    }

    /// Create a new sample rate mismatch error from the rates' bit patterns.
    pub fn sample_rate_mismatch(expected: u32, got: u32) -> (e: Self)
        ensures
            e == (ProcessError::SampleRateMismatch { expected, got }),
    {
        ProcessError::SampleRateMismatch { expected, got }
    }

    /// Create a new configuration error.
    pub fn config(msg: &str) -> (e: Self)
        ensures
            e matches ProcessError::Config(m) && m@ == msg@,
    {
        ProcessError::Config(msg.to_owned())
    }

    /// Create a new unsupported operation error.
    pub fn unsupported(msg: &str) -> (e: Self)
        ensures
            e matches ProcessError::Unsupported(m) && m@ == msg@,
    {
        ProcessError::Unsupported(msg.to_owned())
    }

    /// Create a new internal error.
    pub fn internal(msg: &str) -> (e: Self)
        ensures
            e matches ProcessError::Internal(m) && m@ == msg@,
    {
        ProcessError::Internal(msg.to_owned())
    }

    /// The buffer error converted to a processing error carrying its message.
    pub fn from_buffer_error(err: BufferError) -> (e: Self)
        ensures
            e matches ProcessError::Buffer(m) && m@ == buffer_error_message(err),
    {
        ProcessError::Buffer(err.message())
    }

    /// Check if this error is recoverable.
    pub fn is_recoverable(&self) -> (r: bool)
        ensures
            r == process_error_recoverable(*self),
    {
        match self {
            ProcessError::Processing(_) => true,
            ProcessError::Parameter(_) => true,
            ProcessError::InvalidPort(_) => false,
            ProcessError::Buffer(_) => true,
            ProcessError::NodeNotFound(_) => false,
            ProcessError::SampleRateMismatch { .. } => false,
            ProcessError::Config(_) => false,
            ProcessError::NotInitialized => true,
            ProcessError::AlreadyInitialized => true,
            ProcessError::Unsupported(_) => false,
            ProcessError::Timeout => true,
            ProcessError::Internal(_) => false,
        }
    }

    /// Get a short error code.
    pub fn code(&self) -> (r: &'static str)
        ensures
            r@ == process_error_code(*self),
    {
        match self {
            ProcessError::Processing(_) => "ERR_PROCESSING",
            ProcessError::Parameter(_) => "ERR_PARAMETER",
            ProcessError::InvalidPort(_) => "ERR_INVALID_PORT",
            ProcessError::Buffer(_) => "ERR_BUFFER",
            ProcessError::NodeNotFound(_) => "ERR_NODE_NOT_FOUND",
            ProcessError::SampleRateMismatch { .. } => "ERR_SAMPLE_RATE",
            ProcessError::Config(_) => "ERR_CONFIG",
            ProcessError::NotInitialized => "ERR_NOT_INIT",
            ProcessError::AlreadyInitialized => "ERR_ALREADY_INIT",
            ProcessError::Unsupported(_) => "ERR_UNSUPPORTED",
            ProcessError::Timeout => "ERR_TIMEOUT",
            ProcessError::Internal(_) => "ERR_INTERNAL",
        }
    }
}

/// Whether two buffererrors are of the same kind, whatever they carry.
pub open spec fn same_buffer_error_kind(a: BufferError, b: BufferError) -> bool {
    match (a, b) {
        (BufferError::Empty, BufferError::Empty) => true,
        (BufferError::Full, BufferError::Full) => true,
        (BufferError::InvalidIndex(_), BufferError::InvalidIndex(_)) => true,
        (BufferError::Disconnected, BufferError::Disconnected) => true,
        (BufferError::WouldBlock, BufferError::WouldBlock) => true,
        (BufferError::Overflow, BufferError::Overflow) => true,
        (BufferError::Underflow, BufferError::Underflow) => true,
        (BufferError::InvalidSize(_), BufferError::InvalidSize(_)) => true,
        (BufferError::Misaligned, BufferError::Misaligned) => true,
        _ => false,
    }
}

/// The code tells the kind of a buffer error: two errors have the same code
/// exactly when they are of the same kind.
pub proof fn law_buffer_error_code_tells_kind(a: BufferError, b: BufferError)
    ensures
        (buffer_error_code(a) == buffer_error_code(b)) == same_buffer_error_kind(a, b),
{
    reveal_strlit("ERR_BUF_EMPTY");
    reveal_strlit("ERR_BUF_FULL");
    reveal_strlit("ERR_BUF_INVALID_INDEX");
    reveal_strlit("ERR_BUF_DISCONNECTED");
    reveal_strlit("ERR_BUF_WOULD_BLOCK");
    reveal_strlit("ERR_BUF_OVERFLOW");
    reveal_strlit("ERR_BUF_UNDERFLOW");
    reveal_strlit("ERR_BUF_INVALID_SIZE");
    reveal_strlit("ERR_BUF_MISALIGNED");
    if buffer_error_code(a) == buffer_error_code(b) {
        assert(buffer_error_code(a).len() == buffer_error_code(b).len());
        assert(buffer_error_code(a)[8] == buffer_error_code(b)[8]);
    }
}

/// Whether two processerrors are of the same kind, whatever they carry.
pub open spec fn same_process_error_kind(a: ProcessError, b: ProcessError) -> bool {
    match (a, b) {
        (ProcessError::Processing(_), ProcessError::Processing(_)) => true,
        (ProcessError::Parameter(_), ProcessError::Parameter(_)) => true,
        (ProcessError::InvalidPort(_), ProcessError::InvalidPort(_)) => true,
        (ProcessError::Buffer(_), ProcessError::Buffer(_)) => true,
        (ProcessError::NodeNotFound(_), ProcessError::NodeNotFound(_)) => true,
        (ProcessError::SampleRateMismatch { .. }, ProcessError::SampleRateMismatch { .. }) => true,
        (ProcessError::Config(_), ProcessError::Config(_)) => true,
        (ProcessError::NotInitialized, ProcessError::NotInitialized) => true,
        (ProcessError::AlreadyInitialized, ProcessError::AlreadyInitialized) => true,
        (ProcessError::Unsupported(_), ProcessError::Unsupported(_)) => true,
        (ProcessError::Timeout, ProcessError::Timeout) => true,
        (ProcessError::Internal(_), ProcessError::Internal(_)) => true,
        _ => false,
    }
}

/// The code tells the kind of a processing error: two errors have the same code
/// exactly when they are of the same kind.
pub proof fn law_process_error_code_tells_kind(a: ProcessError, b: ProcessError)
    ensures
        (process_error_code(a) == process_error_code(b)) == same_process_error_kind(a, b),
{
    reveal_strlit("ERR_PROCESSING");
    reveal_strlit("ERR_PARAMETER");
    reveal_strlit("ERR_INVALID_PORT");
    reveal_strlit("ERR_BUFFER");
    reveal_strlit("ERR_NODE_NOT_FOUND");
    reveal_strlit("ERR_SAMPLE_RATE");
    reveal_strlit("ERR_CONFIG");
    reveal_strlit("ERR_NOT_INIT");
    reveal_strlit("ERR_ALREADY_INIT");
    reveal_strlit("ERR_UNSUPPORTED");
    reveal_strlit("ERR_TIMEOUT");
    reveal_strlit("ERR_INTERNAL");
    if process_error_code(a) == process_error_code(b) {
        assert(process_error_code(a).len() == process_error_code(b).len());
        assert(process_error_code(a)[4] == process_error_code(b)[4]);
    }
}

/// Errors of the signal system.
#[derive(Debug, Clone, Copy, PartialEq, Eq, Structural)]
pub enum SignalError {
    /// Signal type mismatch while dispatching.
    TypeMismatch,
    /// No receiver is registered for this signal type.
    ReceiverNotFound,
    /// Signal channel full.
    ChannelFull,
    /// Signal bus disconnected.
    Disconnected,
}

} // verus!
