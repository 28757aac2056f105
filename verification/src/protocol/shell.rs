//! The shell service: streaming execution, cancellation, terminal resize.
//!
//! ```text
//! controller --[ShellExecute]------------------> agent    ShellExecuteRequest
//! agent      --[ShellExecute + STREAMING]------> controller   ShellOutputChunk (repeated)
//! agent      --[ShellExecute + FINAL_FRAGMENT]-> controller   ShellExitStatus
//! controller --[ShellCancel]-------------------> agent    request id to cancel
//! controller --[ShellResize]-------------------> agent    ShellResizeRequest
//! ```

use vstd::prelude::*;
use vstd::string::StringExecFns;
use crate::error::TixError;
use crate::flags::{ProtocolFlags, FLAG_FINAL_FRAGMENT, FLAG_STREAMING};
use crate::message::{Command, MessageType};
use crate::packet::{constructed, Packet};
use crate::protocol::encoding::lemma_shell_resize_roundtrip;
use crate::protocol::encoding::{
    decode_shell_execute, decode_shell_exit, decode_shell_output, decode_shell_resize,
    encode_shell_execute, encode_shell_exit, encode_shell_output, encode_shell_resize,
    shell_execute_bytes, shell_execute_record, shell_exit_bytes, shell_exit_record,
    shell_output_bytes, shell_output_record, shell_resize_bytes, shell_resize_record,
};

verus! {

/// Whether no name has two entries: the environment is a map from names
/// to values, kept as a list in the order in which the names were set.
pub open spec fn names_once(env: Seq<(String, String)>) -> bool {
    forall|i: int, j: int| 0 <= i < j < env.len() ==> (#[trigger] env[i]).0@ != (#[trigger] env[j]).0@
}

/// The value that the first entry with this key gives, if there is one.
pub open spec fn env_lookup(env: Seq<(String, String)>, key: Seq<char>) -> Option<Seq<char>>
    decreases env.len(),
{
    if env.len() == 0 {
        None
    } else if env[0].0@ == key {
        Some(env[0].1@)
    } else {
        env_lookup(env.skip(1), key)
    }
}

/// The payload of `Command::ShellExecute`.
#[derive(Debug, Clone, PartialEq)]
pub struct ShellExecuteRequest {
    /// The command line to run.
    pub command: String,
    /// Whether to give the process a pseudo-terminal.
    pub pty: bool,
    /// Deadline in milliseconds; 0 is none.
    pub timeout_ms: u64,
    /// Environment variables to set, one entry for each name.
    pub env: Vec<(String, String)>,
    /// The working directory, if not the agent's own.
    pub working_dir: Option<String>,
}

impl ShellExecuteRequest {
    /// A request with the defaults: no terminal, 30 seconds, no
    /// environment, no working directory.
    pub fn new(command: &str) -> (r: ShellExecuteRequest)
        ensures
            r.command@ == command@,
            !r.pty,
            r.timeout_ms == 30_000,
            r.env@.len() == 0,
            names_once(r.env@),
            r.working_dir.is_none(),
    {
        ShellExecuteRequest {
            command: String::from_str(command),
            pty: false,
            timeout_ms: 30_000,
            env: Vec::new(),
            working_dir: None,
        }
    }

    /// Sets the deadline in milliseconds.
    pub fn with_timeout(self, ms: u64) -> (r: ShellExecuteRequest)
        ensures
            r == (ShellExecuteRequest { timeout_ms: ms, ..self }),
    {
        let mut r = self;
        r.timeout_ms = ms;
        r
    }

    /// Asks for a pseudo-terminal.
    pub fn with_pty(self) -> (r: ShellExecuteRequest)
        ensures
            r == (ShellExecuteRequest { pty: true, ..self }),
    {
        let mut r = self;
        r.pty = true;
        r
    }

    /// Sets the working directory.
    pub fn with_working_dir(self, dir: &str) -> (r: ShellExecuteRequest)
        ensures
            r.working_dir matches Some(d) && d@ == dir@,
            r.command == self.command,
            r.pty == self.pty,
            r.timeout_ms == self.timeout_ms,
            r.env == self.env,
    {
        let mut r = self;
        r.working_dir = Some(String::from_str(dir));
        r
    }

    /// Sets an environment variable: the entry of that name gets the
    /// value, or a new entry is added. Other names keep their values, and
    /// no name gets a second entry.
    pub fn with_env(self, key: &str, value: &str) -> (r: ShellExecuteRequest)
        ensures
            env_lookup(r.env@, key@) == Some(value@),
            names_once(self.env@) ==> names_once(r.env@),
            forall|other: Seq<char>|
                other != key@ ==> env_lookup(r.env@, other) == env_lookup(self.env@, other),
            r.command == self.command,
            r.pty == self.pty,
            r.timeout_ms == self.timeout_ms,
            r.working_dir == self.working_dir,
    {
        let mut r = self;
        let ghost before = r.env@;
        let wanted = String::from_str(key);
        let mut i: usize = 0;
        while i < r.env.len()
            invariant
                i <= r.env@.len(),
                wanted@ == key@,
                r.env@ == before,
                r.command == self.command,
                r.pty == self.pty,
                r.timeout_ms == self.timeout_ms,
                r.working_dir == self.working_dir,
                forall|j: int| 0 <= j < i ==> r.env@[j].0@ != key@,
            ensures
                i < r.env@.len() ==> r.env@[i as int].0@ == key@,
            decreases r.env@.len() - i,
        {
            if r.env[i].0 == wanted {
                break ;
            }
            i += 1;
        }
        if i < r.env.len() {
            assert(r.env@[i as int].0@ == key@);
            let name = r.env[i].0.clone();
            r.env.set(i, (name, String::from_str(value)));
            proof {
                lemma_env_replaced(before, r.env@, i as int, key@, value@);
                if names_once(before) {
                    assert forall|a: int, b: int| 0 <= a < b < r.env@.len() implies (
                    #[trigger] r.env@[a]).0@ != (#[trigger] r.env@[b]).0@ by {
                        assert(r.env@[a].0@ == before[a].0@);
                        assert(r.env@[b].0@ == before[b].0@);
                    }
                }
            }
        } else {
            r.env.push((String::from_str(key), String::from_str(value)));
            proof {
                lemma_env_added(before, r.env@, key@, value@);
                if names_once(before) {
                    assert forall|a: int, b: int| 0 <= a < b < r.env@.len() implies (
                    #[trigger] r.env@[a]).0@ != (#[trigger] r.env@[b]).0@ by {
                        assert(r.env@[a] == before[a]);
                        if b < before.len() {
                            assert(r.env@[b] == before[b]);
                        }
                    }
                }
            }
        }
        r
    }
}

/// Replacing the value of the first entry with a key changes the lookup
/// of that key alone.
proof fn lemma_env_replaced(
    before: Seq<(String, String)>,
    after: Seq<(String, String)>,
    at: int,
    key: Seq<char>,
    value: Seq<char>,
)
    requires
        0 <= at < before.len(),
        after.len() == before.len(),
        forall|j: int| 0 <= j < at ==> before[j].0@ != key,
        before[at].0@ == key,
        after[at].0@ == key,
        after[at].1@ == value,
        forall|j: int| 0 <= j < before.len() && j != at ==> after[j] == before[j],
    ensures
        env_lookup(after, key) == Some(value),
        forall|other: Seq<char>| other != key ==> env_lookup(after, other) == env_lookup(
            before,
            other,
        ),
    decreases before.len(),
{
    if at == 0 {
        assert(after.skip(1) =~= before.skip(1));
    } else {
        lemma_env_replaced(before.skip(1), after.skip(1), at - 1, key, value);
        assert(after[0] == before[0]);
    }
    assert forall|other: Seq<char>| other != key implies env_lookup(after, other) == env_lookup(
        before,
        other,
    ) by {
        if at == 0 {
            assert(env_lookup(after, other) == env_lookup(after.skip(1), other));
            assert(env_lookup(before, other) == env_lookup(before.skip(1), other));
        }
    }
}

/// Adding an entry for a key that has none changes the lookup of that
/// key alone.
proof fn lemma_env_added(
    before: Seq<(String, String)>,
    after: Seq<(String, String)>,
    key: Seq<char>,
    value: Seq<char>,
)
    requires
        after.len() == before.len() + 1,
        forall|j: int| 0 <= j < before.len() ==> before[j].0@ != key && after[j] == before[j],
        after[before.len() as int].0@ == key,
        after[before.len() as int].1@ == value,
    ensures
        env_lookup(after, key) == Some(value),
        forall|other: Seq<char>| other != key ==> env_lookup(after, other) == env_lookup(
            before,
            other,
        ),
    decreases before.len(),
{
    if before.len() == 0 {
        assert(after.skip(1).len() == 0);
    } else {
        lemma_env_added(before.skip(1), after.skip(1), key, value);
        assert(after[0] == before[0]);
    }
    assert forall|other: Seq<char>| other != key implies env_lookup(after, other) == env_lookup(
        before,
        other,
    ) by {
        if before.len() == 0 {
            assert(env_lookup(after, other) == env_lookup(after.skip(1), other));
        }
    }
}

/// One chunk of shell output, streamed from agent to controller.
#[derive(Debug, Clone, PartialEq)]
pub struct ShellOutputChunk {
    /// Number of the chunk, from 0.
    pub chunk_number: u64,
    /// The output bytes.
    pub data: Vec<u8>,
    /// Whether the bytes come from stdout; otherwise from stderr.
    pub is_stdout: bool,
}

impl ShellOutputChunk {
    /// A chunk of stdout.
    pub fn stdout(chunk_number: u64, data: Vec<u8>) -> (r: ShellOutputChunk)
        ensures
            r == (ShellOutputChunk { chunk_number, data, is_stdout: true }),
    {
        ShellOutputChunk { chunk_number, data, is_stdout: true }
    }

    /// A chunk of stderr.
    pub fn stderr(chunk_number: u64, data: Vec<u8>) -> (r: ShellOutputChunk)
        ensures
            r == (ShellOutputChunk { chunk_number, data, is_stdout: false }),
    {
        ShellOutputChunk { chunk_number, data, is_stdout: false }
    }
}

/// The last message of a shell command.
#[derive(Debug, Clone, PartialEq)]
pub struct ShellExitStatus {
    /// Exit code of the process; 0 is success.
    pub exit_code: i32,
    /// Number of output chunks that were sent.
    pub total_chunks: u64,
    /// Why the command could not be started, if it could not.
    pub error: Option<String>,
}

impl ShellExitStatus {
    /// The status of a process that ran.
    pub fn success(exit_code: i32, total_chunks: u64) -> (r: ShellExitStatus)
        ensures
            r == (ShellExitStatus { exit_code, total_chunks, error: None }),
    {
        ShellExitStatus { exit_code, total_chunks, error: None }
    }

    /// The status of a process that could not be started: exit code -1
    /// and no chunks.
    pub fn failed(error: &str) -> (r: ShellExitStatus)
        ensures
            r.exit_code == -1,
            r.total_chunks == 0,
            r.error matches Some(m) && m@ == error@,
    {
        ShellExitStatus { exit_code: -1, total_chunks: 0, error: Some(String::from_str(error)) }
    }
}

/// A request to resize the terminal of a running shell session.
#[derive(Debug, Clone, Copy, PartialEq, Eq, Structural)]
pub struct ShellResizeRequest {
    /// The request id of the session.
    pub target_request_id: u64,
    /// New width in columns.
    pub cols: u16,
    /// New height in rows.
    pub rows: u16,
}

impl ShellResizeRequest {
    /// A resize request.
    pub fn new(target_request_id: u64, cols: u16, rows: u16) -> (r: ShellResizeRequest)
        ensures
            r == (ShellResizeRequest { target_request_id, cols, rows }),
    {
        ShellResizeRequest { target_request_id, cols, rows }
    }
}

/// What a response packet of a shell command is.
#[derive(Debug, Clone, Copy, PartialEq, Eq, Structural)]
pub enum ShellResponseKind {
    /// A chunk of output.
    OutputChunk,
    /// The exit status, which ends the exchange.
    Exit,
    /// A single response without streaming flags.
    LegacySingle,
}

/// Classifies a response by its flags: `FINAL_FRAGMENT` makes it the
/// exit status; else `STREAMING` makes it a chunk; else it is a single
/// response.
pub fn classify_shell_response(packet: &Packet) -> (r: ShellResponseKind)
    ensures
        r == (if packet@.header.observable_flags() & FLAG_FINAL_FRAGMENT != 0 {
            ShellResponseKind::Exit
        } else if packet@.header.observable_flags() & FLAG_STREAMING != 0 {
            ShellResponseKind::OutputChunk
        } else {
            ShellResponseKind::LegacySingle
        }),
{
    let bits = packet.flags().bits();
    if bits & FLAG_FINAL_FRAGMENT != 0 {
        ShellResponseKind::Exit
    } else if bits & FLAG_STREAMING != 0 {
        ShellResponseKind::OutputChunk
    } else {
        ShellResponseKind::LegacySingle
    }
}

impl ShellExecuteRequest {
    /// The record of the fields, as it is encoded.
    pub open spec fn record(&self) -> (
        Seq<char>,
        bool,
        u64,
        Seq<(Seq<char>, Seq<char>)>,
        Option<Seq<char>>,
    ) {
        (
            self.command.deep_view(),
            self.pty,
            self.timeout_ms,
            self.env.deep_view(),
            self.working_dir.deep_view(),
        )
    }

    /// The payload as bytes: the encoding of its record.
    pub fn to_bytes(&self) -> (r: Result<Vec<u8>, TixError>)
        ensures
            match r {
                Ok(bytes) => {
                    &&& shell_execute_bytes(self.record()) == Some(bytes@)
                    &&& shell_execute_record(bytes@) == Some(self.record())
                },
                Err(e) => shell_execute_bytes(self.record()).is_none() && e is Encoding,
            },
    {
        let record = (&self.command, self.pty, self.timeout_ms, &self.env, &self.working_dir);
        assert(record.deep_view() == self.record());
        match encode_shell_execute(&record) {
            Ok(bytes) => Ok(bytes),
            Err(text) => Err(TixError::Encoding(text)),
        }
    }

    /// Reads the payload from bytes. Bytes that are no encoding of such a
    /// record are refused.
    pub fn from_bytes(bytes: &[u8]) -> (r: Result<ShellExecuteRequest, TixError>)
        ensures
            match r {
                Ok(v) => shell_execute_record(bytes@) == Some(v.record()),
                Err(e) => e is Encoding && shell_execute_record(bytes@).is_none(),
            },
    {
        match decode_shell_execute(bytes) {
            Ok(record) => {
                let ghost whole = record.deep_view();
                let v = ShellExecuteRequest {
                    command: record.0,
                    pty: record.1,
                    timeout_ms: record.2,
                    env: record.3,
                    working_dir: record.4,
                };
                assert(v.record() == record.deep_view());
                Ok(v)
            },
            Err(text) => Err(TixError::Encoding(text)),
        }
    }

    /// The command packet that carries this payload: its bytes are the
    /// payload of the packet. A payload that cannot be encoded, or whose
    /// bytes are over the limit of a packet, gives the error.
    pub fn into_packet(self, request_id: u64) -> (r: Result<Packet, TixError>)
        ensures
            match shell_execute_bytes(self.record()) {
                Some(payload) => constructed(
                    r,
                    MessageType::Command,
                    request_id,
                    Command::ShellExecute,
                    payload,
                    0,
                ),
                None => r matches Err(TixError::Encoding(_)),
            },
    {
        match self.to_bytes() {
            Ok(payload) => Packet::new_command(request_id, Command::ShellExecute, payload),
            Err(e) => Err(e),
        }
    }
}

impl ShellOutputChunk {
    /// The record of the fields, as it is encoded.
    pub open spec fn record(&self) -> (u64, Seq<u8>, bool) {
        (self.chunk_number, self.data.deep_view(), self.is_stdout)
    }

    /// The payload as bytes: the encoding of its record.
    pub fn to_bytes(&self) -> (r: Result<Vec<u8>, TixError>)
        ensures
            match r {
                Ok(bytes) => {
                    &&& shell_output_bytes(self.record()) == Some(bytes@)
                    &&& shell_output_record(bytes@) == Some(self.record())
                },
                Err(e) => shell_output_bytes(self.record()).is_none() && e is Encoding,
            },
    {
        let record = (self.chunk_number, &self.data, self.is_stdout);
        assert(record.deep_view() == self.record());
        match encode_shell_output(&record) {
            Ok(bytes) => Ok(bytes),
            Err(text) => Err(TixError::Encoding(text)),
        }
    }

    /// Reads the payload from bytes. Bytes that are no encoding of such a
    /// record are refused.
    pub fn from_bytes(bytes: &[u8]) -> (r: Result<ShellOutputChunk, TixError>)
        ensures
            match r {
                Ok(v) => shell_output_record(bytes@) == Some(v.record()),
                Err(e) => e is Encoding && shell_output_record(bytes@).is_none(),
            },
    {
        match decode_shell_output(bytes) {
            Ok(record) => {
                let ghost whole = record.deep_view();
                let v = ShellOutputChunk {
                    chunk_number: record.0,
                    data: record.1,
                    is_stdout: record.2,
                };
                assert(v.record() == record.deep_view());
                Ok(v)
            },
            Err(text) => Err(TixError::Encoding(text)),
        }
    }

    /// The response packet that carries this payload: its bytes are the
    /// payload of the packet. A payload that cannot be encoded, or whose
    /// bytes are over the limit of a packet, gives the error.
    pub fn into_packet(self, request_id: u64) -> (r: Result<Packet, TixError>)
        ensures
            match shell_output_bytes(self.record()) {
                Some(payload) => constructed(
                    r,
                    MessageType::Response,
                    request_id,
                    Command::ShellExecute,
                    payload,
                    FLAG_STREAMING,
                ),
                None => r matches Err(TixError::Encoding(_)),
            },
    {
        match self.to_bytes() {
            Ok(payload) => Packet::new_response_with_flags(
                request_id,
                Command::ShellExecute,
                payload,
                ProtocolFlags::streaming(),
            ),
            Err(e) => Err(e),
        }
    }
}

impl ShellExitStatus {
    /// The record of the fields, as it is encoded.
    pub open spec fn record(&self) -> (i32, u64, Option<Seq<char>>) {
        (self.exit_code, self.total_chunks, self.error.deep_view())
    }

    /// The payload as bytes: the encoding of its record.
    pub fn to_bytes(&self) -> (r: Result<Vec<u8>, TixError>)
        ensures
            match r {
                Ok(bytes) => {
                    &&& shell_exit_bytes(self.record()) == Some(bytes@)
                    &&& shell_exit_record(bytes@) == Some(self.record())
                },
                Err(e) => shell_exit_bytes(self.record()).is_none() && e is Encoding,
            },
    {
        let record = (self.exit_code, self.total_chunks, &self.error);
        assert(record.deep_view() == self.record());
        match encode_shell_exit(&record) {
            Ok(bytes) => Ok(bytes),
            Err(text) => Err(TixError::Encoding(text)),
        }
    }

    /// Reads the payload from bytes. Bytes that are no encoding of such a
    /// record are refused.
    pub fn from_bytes(bytes: &[u8]) -> (r: Result<ShellExitStatus, TixError>)
        ensures
            match r {
                Ok(v) => shell_exit_record(bytes@) == Some(v.record()),
                Err(e) => e is Encoding && shell_exit_record(bytes@).is_none(),
            },
    {
        match decode_shell_exit(bytes) {
            Ok(record) => {
                let ghost whole = record.deep_view();
                let v = ShellExitStatus {
                    exit_code: record.0,
                    total_chunks: record.1,
                    error: record.2,
                };
                assert(v.record() == record.deep_view());
                Ok(v)
            },
            Err(text) => Err(TixError::Encoding(text)),
        }
    }

    /// The response packet that carries this payload: its bytes are the
    /// payload of the packet. A payload that cannot be encoded, or whose
    /// bytes are over the limit of a packet, gives the error.
    pub fn into_packet(self, request_id: u64) -> (r: Result<Packet, TixError>)
        ensures
            match shell_exit_bytes(self.record()) {
                Some(payload) => constructed(
                    r,
                    MessageType::Response,
                    request_id,
                    Command::ShellExecute,
                    payload,
                    FLAG_FINAL_FRAGMENT,
                ),
                None => r matches Err(TixError::Encoding(_)),
            },
    {
        match self.to_bytes() {
            Ok(payload) => Packet::new_response_with_flags(
                request_id,
                Command::ShellExecute,
                payload,
                ProtocolFlags::final_fragment(),
            ),
            Err(e) => Err(e),
        }
    }
}

impl ShellResizeRequest {
    /// The record of the fields, as it is encoded.
    pub open spec fn record(&self) -> (u64, u16, u16) {
        (self.target_request_id, self.cols, self.rows)
    }

    /// The payload as bytes: the encoding of its record.
    pub fn to_bytes(&self) -> (r: Result<Vec<u8>, TixError>)
        ensures
            r is Ok,
            match r {
                Ok(bytes) => {
                    &&& shell_resize_bytes(self.record()) == Some(bytes@)
                    &&& shell_resize_record(bytes@) == Some(self.record())
                },
                Err(e) => shell_resize_bytes(self.record()).is_none() && e is Encoding,
            },
    {
        proof {
            lemma_shell_resize_roundtrip(self.record(), Seq::empty());
            assert(shell_resize_bytes(self.record()).unwrap() + Seq::<u8>::empty() =~= shell_resize_bytes(
                self.record(),
            ).unwrap());
        }
        let record = (self.target_request_id, self.cols, self.rows);
        assert(record.deep_view() == self.record());
        match encode_shell_resize(&record) {
            Ok(bytes) => Ok(bytes),
            Err(text) => Err(TixError::Encoding(text)),
        }
    }

    /// Reads the payload from bytes. Bytes that are no encoding of such a
    /// record are refused.
    pub fn from_bytes(bytes: &[u8]) -> (r: Result<ShellResizeRequest, TixError>)
        ensures
            match r {
                Ok(v) => shell_resize_record(bytes@) == Some(v.record()),
                Err(e) => e is Encoding && shell_resize_record(bytes@).is_none(),
            },
    {
        match decode_shell_resize(bytes) {
            Ok(record) => {
                let ghost whole = record.deep_view();
                let v = ShellResizeRequest {
                    target_request_id: record.0,
                    cols: record.1,
                    rows: record.2,
                };
                assert(v.record() == record.deep_view());
                Ok(v)
            },
            Err(text) => Err(TixError::Encoding(text)),
        }
    }

    /// The command packet that carries this payload: its bytes are the
    /// payload of the packet. A payload that cannot be encoded, or whose
    /// bytes are over the limit of a packet, gives the error.
    pub fn into_packet(self, request_id: u64) -> (r: Result<Packet, TixError>)
        ensures
            r is Ok,
            match shell_resize_bytes(self.record()) {
                Some(payload) => constructed(
                    r,
                    MessageType::Command,
                    request_id,
                    Command::ShellResize,
                    payload,
                    0,
                ),
                None => r matches Err(TixError::Encoding(_)),
            },
    {
        proof {
            lemma_shell_resize_roundtrip(self.record(), Seq::empty());
        }
        match self.to_bytes() {
            Ok(payload) => Packet::new_command(request_id, Command::ShellResize, payload),
            Err(e) => Err(e),
        }
    }
}

} // verus!
