use kama_core::error::{BufferError, ParameterError, ProcessError, QueueError};
use kama_core::graph::GraphError;

#[test]
fn test_buffer_error_creation() {
    let err = BufferError::Empty;
    assert!(matches!(err, BufferError::Empty));
    assert_eq!(err.code(), "ERR_BUF_EMPTY");
    assert!(err.is_recoverable());

    let err = BufferError::InvalidIndex(5);
    assert!(matches!(err, BufferError::InvalidIndex(5)));
    assert_eq!(err.code(), "ERR_BUF_INVALID_INDEX");
    assert!(!err.is_recoverable());
}

#[test]
fn test_process_error_creation() {
    let err = ProcessError::processing("test error");
    assert!(matches!(err, ProcessError::Processing(_)));
    assert_eq!(err.code(), "ERR_PROCESSING");
    assert!(err.is_recoverable());

    let err = ProcessError::node_not_found(42);
    assert!(matches!(err, ProcessError::NodeNotFound(42)));
    assert_eq!(err.code(), "ERR_NODE_NOT_FOUND");
    assert!(!err.is_recoverable());
}

#[test]
fn test_error_conversions() {
    let buf_err = BufferError::Empty;
    let proc_err = ProcessError::from_buffer_error(buf_err);
    assert!(matches!(proc_err, ProcessError::Buffer(_)));
}

#[test]
fn buffer_error_messages() {
    assert_eq!(BufferError::Empty.message(), "Buffer is empty");
    assert_eq!(BufferError::InvalidIndex(0).message(), "Invalid index: 0");
    assert_eq!(BufferError::InvalidIndex(1234).message(), "Invalid index: 1234");
    assert_eq!(BufferError::InvalidSize(10).message(), "Invalid buffer size: 10");
    assert_eq!(
        ProcessError::from_buffer_error(BufferError::Full),
        ProcessError::Buffer("Buffer is full".to_string())
    );
}

#[test]
fn every_buffer_error_code() {
    let all = [
        (BufferError::Full, "ERR_BUF_FULL", true),
        (BufferError::Disconnected, "ERR_BUF_DISCONNECTED", false),
        (BufferError::WouldBlock, "ERR_BUF_WOULD_BLOCK", true),
        (BufferError::Overflow, "ERR_BUF_OVERFLOW", true),
        (BufferError::Underflow, "ERR_BUF_UNDERFLOW", true),
        (BufferError::InvalidSize(3), "ERR_BUF_INVALID_SIZE", false),
        (BufferError::Misaligned, "ERR_BUF_MISALIGNED", false),
    ];
    for (e, code, rec) in all {
        assert_eq!(e.code(), code);
        assert_eq!(e.is_recoverable(), rec);
    }
}

#[test]
fn process_error_codes_and_constructors() {
    assert_eq!(ProcessError::parameter("p").code(), "ERR_PARAMETER");
    assert_eq!(
        ProcessError::invalid_port("out 3"),
        ProcessError::InvalidPort("Invalid port: out 3".to_string())
    );
    assert!(!ProcessError::invalid_port("x").is_recoverable());
    assert_eq!(ProcessError::buffer("b").code(), "ERR_BUFFER");
    let m = ProcessError::sample_rate_mismatch(44100.0f32.to_bits(), 48000.0f32.to_bits());
    assert_eq!(m.code(), "ERR_SAMPLE_RATE");
    assert!(!m.is_recoverable());
    assert_eq!(ProcessError::config("c").code(), "ERR_CONFIG");
    assert_eq!(ProcessError::NotInitialized.code(), "ERR_NOT_INIT");
    assert!(ProcessError::AlreadyInitialized.is_recoverable());
    assert_eq!(ProcessError::unsupported("u").code(), "ERR_UNSUPPORTED");
    assert!(ProcessError::Timeout.is_recoverable());
    assert_eq!(ProcessError::internal("i").code(), "ERR_INTERNAL");
}

#[test]
fn queue_error_constructors() {
    assert_eq!(QueueError::unsupported("a"), QueueError::Unsupported("a".to_string()));
    assert_eq!(QueueError::send_failed("b"), QueueError::SendFailed("b".to_string()));
    assert_eq!(QueueError::receive_failed("c"), QueueError::ReceiveFailed("c".to_string()));
    assert_eq!(QueueError::invalid_config("d"), QueueError::InvalidConfig("d".to_string()));
}

#[test]
fn graph_error_messages() {
    assert_eq!(GraphError::InvalidNodeId.message(), "Invalid node ID");
    assert_eq!(GraphError::InvalidDirection.message(), "Invalid connection direction");
}

#[test]
fn codes_tell_error_kinds_apart() {
    let buffer_errors = [
        BufferError::Empty,
        BufferError::Full,
        BufferError::InvalidIndex(1),
        BufferError::Disconnected,
        BufferError::WouldBlock,
        BufferError::Overflow,
        BufferError::Underflow,
        BufferError::InvalidSize(2),
        BufferError::Misaligned,
    ];
    for (i, a) in buffer_errors.iter().enumerate() {
        for (j, b) in buffer_errors.iter().enumerate() {
            assert_eq!(a.code() == b.code(), i == j);
        }
    }
    assert_eq!(BufferError::InvalidIndex(1).code(), BufferError::InvalidIndex(9).code());
}

#[test]
fn test_parameter_error_creation() {
    let err = ParameterError::not_found("gain");
    assert!(matches!(err, ParameterError::NotFound(_)));

    let err = ParameterError::out_of_range(2.0f32.to_bits(), 0.0f32.to_bits(), 1.0f32.to_bits());
    assert!(matches!(err, ParameterError::OutOfRange { value, .. } if f32::from_bits(value) == 2.0));
}

#[test]
fn parameter_error_constructors_keep_their_text() {
    assert_eq!(
        ParameterError::type_mismatch("Float", "String"),
        ParameterError::TypeMismatch { expected: "Float".to_string(), got: "String".to_string() }
    );
    assert_eq!(ParameterError::invalid_choice("x"), ParameterError::InvalidChoice("x".to_string()));
    assert_eq!(ParameterError::duplicate("q"), ParameterError::Duplicate("q".to_string()));
}
