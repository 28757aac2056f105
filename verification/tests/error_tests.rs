use tix_core::{TaskError, TixError};

#[test]
fn error_display_messages() {
    let e = TixError::InvalidMagic;
    assert!(e.to_string().contains("magic"));

    let e = TixError::PayloadTooLarge { size: 1000, max: 500 };
    assert!(e.to_string().contains("1000"));
    assert!(e.to_string().contains("500"));
}

#[test]
fn from_string() {
    let e: TixError = "something broke".into();
    assert!(matches!(e, TixError::Other(_)));
}

#[test]
fn from_io() {
    let io_err = std::io::Error::new(std::io::ErrorKind::BrokenPipe, "pipe broke");
    let e: TixError = io_err.into();
    assert!(matches!(e, TixError::Connection(_)));
}

#[test]
fn error_texts_are_exact() {
    assert_eq!(
        TixError::InvalidMagic.to_string(),
        "invalid magic bytes: expected TIX0 or TIX1"
    );
    assert_eq!(
        TixError::InvalidHeader("buffer too short for header").to_string(),
        "invalid header: buffer too short for header"
    );
    assert_eq!(TixError::ChecksumMismatch.to_string(), "checksum mismatch");
    assert_eq!(
        TixError::UnknownVariant { kind_name: "Command", value: 0xDEAD }.to_string(),
        "unknown Command discriminant: 0xdead"
    );
    assert_eq!(
        TixError::UnsupportedVersion(7).to_string(),
        "unsupported protocol version: 7"
    );
    assert_eq!(
        TixError::ProtocolViolation("bad").to_string(),
        "protocol violation: bad"
    );
    assert_eq!(
        TixError::PayloadTooLarge { size: 262145, max: 262144 }.to_string(),
        "payload too large: 262145 bytes (max 262144)"
    );
    assert_eq!(
        TixError::InvalidPacketLength { expected: 81, actual: 82 }.to_string(),
        "invalid packet length: expected 81, got 82"
    );
    assert_eq!(
        TixError::FrameTooLarge { size: 300000, max: 262208 }.to_string(),
        "frame too large: 300000 bytes (max 262208)"
    );
    assert_eq!(TixError::ChannelClosed.to_string(), "channel closed");
    assert_eq!(
        TixError::Encoding("oops".to_string()).to_string(),
        "encoding error: oops"
    );
    assert_eq!(
        TixError::InvalidCommand("Fly".to_string()).to_string(),
        "invalid command: Fly"
    );
    assert_eq!(
        TixError::FileIntegrityFailed.to_string(),
        "file integrity check failed"
    );
    assert_eq!(TixError::Other("plain".to_string()).to_string(), "plain");
    assert_eq!(
        TixError::Timeout(std::time::Duration::from_millis(10)).to_string(),
        "timeout after 10ms"
    );
}

#[test]
fn task_error_texts() {
    assert_eq!(TaskError::Cancelled.to_string(), "task was cancelled");
    assert_eq!(
        TaskError::Failed("no shell".to_string()).to_string(),
        "task failed: no shell"
    );
    assert_eq!(
        TaskError::Timeout(std::time::Duration::from_millis(10)).to_string(),
        "task timed out after 10ms"
    );
    let wrapped: TixError = TaskError::Cancelled.into();
    assert_eq!(wrapped.to_string(), "task error: task was cancelled");
    let io: TaskError = std::io::Error::new(std::io::ErrorKind::Other, "disk").into();
    assert!(io.to_string().starts_with("task I/O error: "));
}

#[test]
fn zero_formats_as_single_digit() {
    assert_eq!(
        TixError::UnsupportedVersion(0).to_string(),
        "unsupported protocol version: 0"
    );
    assert_eq!(
        TixError::UnknownVariant { kind_name: "MessageType", value: 0 }.to_string(),
        "unknown MessageType discriminant: 0x0"
    );
}
