//! The typed errors of the protocol.
//!
//! Every fallible operation returns `Result<T, TixError>`; nothing panics on
//! invalid input.

use vstd::prelude::*;
use vstd::string::StringExecFns;
use std::time::Duration;
use crate::clock::duration_nanos;
use crate::text::{decimal, decimal_text, hex, hex_text};

verus! {

/// std's I/O error, carried through as it came.
#[verifier::external_type_specification]
#[verifier::external_body]
pub struct ExIoError(std::io::Error);

/// std's error of a failed conversion from bytes to a `String`, carried
/// through as it came.
#[verifier::external_type_specification]
#[verifier::external_body]
pub struct ExFromUtf8Error(std::string::FromUtf8Error);

/// Typed error of a spawned task.
#[derive(Debug)]
pub enum TaskError {
    /// The task exceeded its deadline and was stopped.
    Timeout(Duration),
    /// The task was cancelled.
    Cancelled,
    /// The task's work ended in an I/O error.
    Io(std::io::Error),
    /// The task failed, with a message for people.
    Failed(String),
}

/// The error type of the protocol.
#[derive(Debug)]
pub enum TixError {
    /// The bytes do not start with a valid magic sequence.
    InvalidMagic,
    /// A field of the packet header could not be read.
    InvalidHeader(&'static str),
    /// The payload does not match the checksum of the header.
    ChecksumMismatch,
    /// A number names no variant of the given type.
    UnknownVariant { kind_name: &'static str, value: u64 },
    /// The peer offers a protocol version that is not supported.
    UnsupportedVersion(u32),
    /// A packet or a transition breaks the rules of the protocol.
    ProtocolViolation(&'static str),
    /// The payload is larger than the protocol allows.
    PayloadTooLarge { size: usize, max: usize },
    /// The frame is shorter or longer than its header declares.
    InvalidPacketLength { expected: usize, actual: usize },
    /// More bytes are buffered than one frame can hold.
    FrameTooLarge { size: usize, max: usize },
    /// The stream below reported an error.
    Connection(std::io::Error),
    /// A queue was closed while in use.
    ChannelClosed,
    /// An operation exceeded its deadline.
    Timeout(Duration),
    /// A payload could not be encoded or decoded.
    Encoding(String),
    /// Bytes that should be text are not UTF-8.
    InvalidUtf8(std::string::FromUtf8Error),
    /// A command line could not be understood.
    InvalidCommand(String),
    /// A transferred file does not match its hash.
    FileIntegrityFailed,
    /// A spawned task failed.
    Task(TaskError),
    /// Anything that fits no other variant.
    Other(String),
}

/// Whether `s` begins with `prefix`.
pub open spec fn has_prefix(s: Seq<char>, prefix: Seq<char>) -> bool {
    s.len() >= prefix.len() && s.subrange(0, prefix.len() as int) == prefix
}

/// Renders an I/O error through its `Display` impl in std. The text comes
/// from the operating system, so nothing is stated of it.
#[verifier::external_body]
pub(crate) fn io_error_text(e: &std::io::Error) -> (s: String) {
    format!("{}", e)
}

/// Renders a UTF-8 conversion error through its `Display` impl in std.
/// Nothing is stated of the text.
#[verifier::external_body]
fn utf8_error_text(e: &std::string::FromUtf8Error) -> (s: String) {
    format!("{}", e)
}

/// What std's `Debug` writes for a duration of this many nanoseconds
/// (`10ms`, `1.5s`).
pub uninterp spec fn duration_debug(nanos: nat) -> Seq<char>;

/// Renders a duration through its `Debug` impl in std, which writes the
/// length with the largest unit that fits. The text depends on the
/// length alone.
#[verifier::external_body]
fn duration_text(d: &Duration) -> (s: String)
    ensures
        s@ == duration_debug(duration_nanos(*d)),
{
    format!("{:?}", d)
}

fn usize_decimal(n: usize) -> (s: String)
    ensures
        s@ == decimal_text(n as nat),
{
    decimal(n as u64)
}

impl TaskError {
    /// What the text of this error looks like.
    pub open spec fn describes(&self, s: Seq<char>) -> bool {
        match self {
            TaskError::Timeout(d) => s == "task timed out after "@ + duration_debug(
                duration_nanos(*d),
            ),
            TaskError::Cancelled => s == "task was cancelled"@,
            TaskError::Io(_) => has_prefix(s, "task I/O error: "@),
            TaskError::Failed(m) => s == "task failed: "@ + m@,
        }
    }

    /// The error as text for people.
    pub fn to_string(&self) -> (s: String)
        ensures
            self.describes(s@),
    {
        match self {
            TaskError::Timeout(d) => {
                let mut s = String::from_str("task timed out after ");
                let t = duration_text(d);
                s.append(t.as_str());
                s
            },
            TaskError::Cancelled => String::from_str("task was cancelled"),
            TaskError::Io(e) => {
                let mut s = String::from_str("task I/O error: ");
                let t = io_error_text(e);
                s.append(t.as_str());
                assert(s@.subrange(0, "task I/O error: "@.len() as int) =~= "task I/O error: "@);
                s
            },
            TaskError::Failed(m) => {
                let mut s = String::from_str("task failed: ");
                s.append(m.as_str());
                s
            },
        }
    }
}

impl TixError {
    /// What the text of this error looks like.
    pub open spec fn describes(&self, s: Seq<char>) -> bool {
        match self {
            TixError::InvalidMagic => s == "invalid magic bytes: expected TIX0 or TIX1"@,
            TixError::InvalidHeader(r) => s == "invalid header: "@ + r@,
            TixError::ChecksumMismatch => s == "checksum mismatch"@,
            TixError::UnknownVariant { kind_name, value } => s == "unknown "@ + kind_name@
                + " discriminant: "@ + hex_text(*value as nat),
            TixError::UnsupportedVersion(v) => s == "unsupported protocol version: "@
                + decimal_text(*v as nat),
            TixError::ProtocolViolation(r) => s == "protocol violation: "@ + r@,
            TixError::PayloadTooLarge { size, max } => s == "payload too large: "@ + decimal_text(
                *size as nat,
            ) + " bytes (max "@ + decimal_text(*max as nat) + ")"@,
            TixError::InvalidPacketLength { expected, actual } => s
                == "invalid packet length: expected "@ + decimal_text(*expected as nat)
                + ", got "@ + decimal_text(*actual as nat),
            TixError::FrameTooLarge { size, max } => s == "frame too large: "@ + decimal_text(
                *size as nat,
            ) + " bytes (max "@ + decimal_text(*max as nat) + ")"@,
            TixError::Connection(_) => has_prefix(s, "connection error: "@),
            TixError::ChannelClosed => s == "channel closed"@,
            TixError::Timeout(d) => s == "timeout after "@ + duration_debug(duration_nanos(*d)),
            TixError::Encoding(m) => s == "encoding error: "@ + m@,
            TixError::InvalidUtf8(_) => has_prefix(s, "invalid utf-8: "@),
            TixError::InvalidCommand(m) => s == "invalid command: "@ + m@,
            TixError::FileIntegrityFailed => s == "file integrity check failed"@,
            TixError::Task(e) => exists|t: Seq<char>| #[trigger]
                e.describes(t) && s == "task error: "@ + t,
            TixError::Other(m) => s == m@,
        }
    }

    /// The error as text for people.
    pub fn to_string(&self) -> (s: String)
        ensures
            self.describes(s@),
    {
        match self {
            TixError::InvalidMagic => String::from_str(
                "invalid magic bytes: expected TIX0 or TIX1",
            ),
            TixError::InvalidHeader(r) => {
                let mut s = String::from_str("invalid header: ");
                s.append(r);
                s
            },
            TixError::ChecksumMismatch => String::from_str("checksum mismatch"),
            TixError::UnknownVariant { kind_name, value } => {
                let mut s = String::from_str("unknown ");
                s.append(kind_name);
                s.append(" discriminant: ");
                let t = hex(*value);
                s.append(t.as_str());
                s
            },
            TixError::UnsupportedVersion(v) => {
                let mut s = String::from_str("unsupported protocol version: ");
                let t = decimal(*v as u64);
                s.append(t.as_str());
                s
            },
            TixError::ProtocolViolation(r) => {
                let mut s = String::from_str("protocol violation: ");
                s.append(r);
                s
            },
            TixError::PayloadTooLarge { size, max } => {
                let mut s = String::from_str("payload too large: ");
                let a = usize_decimal(*size);
                s.append(a.as_str());
                s.append(" bytes (max ");
                let b = usize_decimal(*max);
                s.append(b.as_str());
                s.append(")");
                s
            },
            TixError::InvalidPacketLength { expected, actual } => {
                let mut s = String::from_str("invalid packet length: expected ");
                let a = usize_decimal(*expected);
                s.append(a.as_str());
                s.append(", got ");
                let b = usize_decimal(*actual);
                s.append(b.as_str());
                s
            },
            TixError::FrameTooLarge { size, max } => {
                let mut s = String::from_str("frame too large: ");
                let a = usize_decimal(*size);
                s.append(a.as_str());
                s.append(" bytes (max ");
                let b = usize_decimal(*max);
                s.append(b.as_str());
                s.append(")");
                s
            },
            TixError::Connection(e) => {
                let mut s = String::from_str("connection error: ");
                let t = io_error_text(e);
                s.append(t.as_str());
                assert(s@.subrange(0, "connection error: "@.len() as int)
                    =~= "connection error: "@);
                s
            },
            TixError::ChannelClosed => String::from_str("channel closed"),
            TixError::Timeout(d) => {
                let mut s = String::from_str("timeout after ");
                let t = duration_text(d);
                s.append(t.as_str());
                s
            },
            TixError::Encoding(m) => {
                let mut s = String::from_str("encoding error: ");
                s.append(m.as_str());
                s
            },
            TixError::InvalidUtf8(e) => {
                let mut s = String::from_str("invalid utf-8: ");
                let t = utf8_error_text(e);
                s.append(t.as_str());
                assert(s@.subrange(0, "invalid utf-8: "@.len() as int) =~= "invalid utf-8: "@);
                s
            },
            TixError::InvalidCommand(m) => {
                let mut s = String::from_str("invalid command: ");
                s.append(m.as_str());
                s
            },
            TixError::FileIntegrityFailed => String::from_str("file integrity check failed"),
            TixError::Task(e) => {
                let mut s = String::from_str("task error: ");
                let t = e.to_string();
                s.append(t.as_str());
                assert(e.describes(t@) && s@ == "task error: "@ + t@);
                s
            },
            TixError::Other(m) => m.clone(),
        }
    }
}

impl From<String> for TixError {
    fn from(s: String) -> (r: TixError) {
        TixError::Other(s)
    }
}

impl vstd::std_specs::convert::FromSpecImpl<String> for TixError {
    open spec fn obeys_from_spec() -> bool {
        true
    }

    open spec fn from_spec(s: String) -> TixError {
        TixError::Other(s)
    }
}

impl<'a> From<&'a str> for TixError {
    fn from(s: &'a str) -> (r: TixError) {
        TixError::Other(String::from_str(s))
    }
}

impl<'a> vstd::std_specs::convert::FromSpecImpl<&'a str> for TixError {
    open spec fn obeys_from_spec() -> bool {
        false
    }

    open spec fn from_spec(s: &'a str) -> TixError {
        TixError::Other(choose|text: String| text@ == s@)
    }
}

impl From<std::io::Error> for TixError {
    fn from(e: std::io::Error) -> (r: TixError) {
        TixError::Connection(e)
    }
}

impl vstd::std_specs::convert::FromSpecImpl<std::io::Error> for TixError {
    open spec fn obeys_from_spec() -> bool {
        true
    }

    open spec fn from_spec(e: std::io::Error) -> TixError {
        TixError::Connection(e)
    }
}

impl From<std::string::FromUtf8Error> for TixError {
    fn from(e: std::string::FromUtf8Error) -> (r: TixError) {
        TixError::InvalidUtf8(e)
    }
}

impl vstd::std_specs::convert::FromSpecImpl<std::string::FromUtf8Error> for TixError {
    open spec fn obeys_from_spec() -> bool {
        true
    }

    open spec fn from_spec(e: std::string::FromUtf8Error) -> TixError {
        TixError::InvalidUtf8(e)
    }
}

impl From<TaskError> for TixError {
    fn from(e: TaskError) -> (r: TixError) {
        TixError::Task(e)
    }
}

impl vstd::std_specs::convert::FromSpecImpl<TaskError> for TixError {
    open spec fn obeys_from_spec() -> bool {
        true
    }

    open spec fn from_spec(e: TaskError) -> TixError {
        TixError::Task(e)
    }
}

impl From<std::io::Error> for TaskError {
    fn from(e: std::io::Error) -> (r: TaskError) {
        TaskError::Io(e)
    }
}

impl vstd::std_specs::convert::FromSpecImpl<std::io::Error> for TaskError {
    open spec fn obeys_from_spec() -> bool {
        true
    }

    open spec fn from_spec(e: std::io::Error) -> TaskError {
        TaskError::Io(e)
    }
}

} // verus!
