//! The agent's side of a session: what a command asks the agent to do,
//! and how the arguments of a command are read from its payload.

use vstd::prelude::*;
use vstd::string::StrSliceExecFns;
use crate::error::TixError;
use crate::message::{Command, MessageType};
use crate::packet::{constructed, Packet};
use crate::textscan::{find_char, index_of, starts_with, trim_char, trimmed_of};

verus! {

/// What the agent does for a command.
#[derive(Debug, Clone, Copy, PartialEq, Eq, Structural)]
pub enum AgentAction {
    /// Runs the payload as a shell command, in a task of the pool.
    RunShell,
    /// Copies files, in a task of the pool.
    CopyFiles,
    /// Lists the drives.
    ListDrives,
    /// Lists a directory.
    ListDirectory,
    /// Takes an upload.
    Upload,
    /// Serves a download.
    Download,
    /// Shuts down, reboots or suspends the machine.
    SystemAction,
    /// Answers a ping.
    Pong,
    /// Logs the command and does nothing.
    Unhandled,
}

/// What the agent does for `command`.
pub fn plan_command(command: Command) -> (r: AgentAction)
    ensures
        r == (match command {
            Command::ShellExecute => AgentAction::RunShell,
            Command::Copy => AgentAction::CopyFiles,
            Command::ListDrives => AgentAction::ListDrives,
            Command::ListDir => AgentAction::ListDirectory,
            Command::Upload => AgentAction::Upload,
            Command::Download => AgentAction::Download,
            Command::SystemAction => AgentAction::SystemAction,
            Command::Ping => AgentAction::Pong,
            _ => AgentAction::Unhandled,
        }),
{
    match command {
        Command::ShellExecute => AgentAction::RunShell,
        Command::Copy => AgentAction::CopyFiles,
        Command::ListDrives => AgentAction::ListDrives,
        Command::ListDir => AgentAction::ListDirectory,
        Command::Upload => AgentAction::Upload,
        Command::Download => AgentAction::Download,
        Command::SystemAction => AgentAction::SystemAction,
        Command::Ping => AgentAction::Pong,
        _ => AgentAction::Unhandled,
    }
}

/// The payload of the answer to a ping: the text `Pong`.
pub open spec fn pong_payload() -> Seq<u8> {
    seq![0x50u8, 0x6f, 0x6e, 0x67]
}

/// The answer to a ping: a response to `Ping` under the request id of
/// the ping, with the payload `Pong`.
pub fn pong(request_id: u64) -> (r: Result<Packet, TixError>)
    ensures
        r is Ok,
        constructed(r, MessageType::Response, request_id, Command::Ping, pong_payload(), 0),
{
    let mut payload: Vec<u8> = Vec::new();
    payload.push(0x50);
    payload.push(0x6f);
    payload.push(0x6e);
    payload.push(0x67);
    assert(payload@ =~= pong_payload());
    Packet::new_response(request_id, Command::Ping, payload)
}

/// Whether the agent runs the command in a task of the pool, which can be
/// cancelled and reports a terminal event.
pub fn runs_in_pool(action: AgentAction) -> (r: bool)
    ensures
        r == (action == AgentAction::RunShell || action == AgentAction::CopyFiles),
{
    match action {
        AgentAction::RunShell => true,
        AgentAction::CopyFiles => true,
        _ => false,
    }
}

/// The system actions.
#[derive(Debug, Clone, Copy, PartialEq, Eq, Structural)]
pub enum SystemActionKind {
    Shutdown,
    Reboot,
    Sleep,
    /// A word that names no action.
    Unknown,
}

/// The system action that a payload names.
pub fn system_action(action: &str) -> (r: SystemActionKind)
    ensures
        r == (if action@ == "shutdown"@ {
            SystemActionKind::Shutdown
        } else if action@ == "reboot"@ {
            SystemActionKind::Reboot
        } else if action@ == "sleep"@ {
            SystemActionKind::Sleep
        } else {
            SystemActionKind::Unknown
        }),
{
    proof {
        reveal_strlit("shutdown");
        reveal_strlit("reboot");
        reveal_strlit("sleep");
    }
    let n = action.unicode_len();
    assert(action@.subrange(0, n as int) =~= action@);
    if n == 8 && starts_with(action, "shutdown") {
        SystemActionKind::Shutdown
    } else if n == 6 && starts_with(action, "reboot") {
        SystemActionKind::Reboot
    } else if n == 5 && starts_with(action, "sleep") {
        SystemActionKind::Sleep
    } else {
        SystemActionKind::Unknown
    }
}

/// Source and destination of a copy: the payload up to its first space
/// and the payload behind it, each without the double quotes around it.
/// `None` for a payload without a space.
pub open spec fn copy_arguments_of(payload: Seq<char>) -> Option<(Seq<char>, Seq<char>)> {
    let i = index_of(payload, ' ');
    if i >= payload.len() {
        None
    } else {
        Some((trimmed_of(payload.subrange(0, i), '"'), trimmed_of(payload.skip(i + 1), '"')))
    }
}

/// Reads source and destination of a copy from its payload.
pub fn copy_arguments<'a>(payload: &'a str) -> (r: Option<(&'a str, &'a str)>)
    ensures
        match r {
            Some((src, dest)) => copy_arguments_of(payload@) == Some((src@, dest@)),
            None => copy_arguments_of(payload@).is_none(),
        },
{
    let n = payload.unicode_len();
    let i = find_char(payload, ' ');
    if i >= n {
        return None;
    }
    let first = payload.substring_char(0, i);
    let second = payload.substring_char(i + 1, n);
    assert(payload@.subrange(i + 1, n as int) =~= payload@.skip(i + 1));
    Some((trim_char(first, '"'), trim_char(second, '"')))
}

/// Source and destination of a transfer: the first two of the fields
/// that `|` separates. `None` for a payload without a `|`.
pub open spec fn transfer_arguments_of(payload: Seq<char>) -> Option<(Seq<char>, Seq<char>)> {
    let i = index_of(payload, '|');
    if i >= payload.len() {
        None
    } else {
        let rest = payload.skip(i + 1);
        Some((payload.subrange(0, i), rest.subrange(0, index_of(rest, '|'))))
    }
}

/// Reads source and destination of an upload or a download from its
/// payload.
pub fn transfer_arguments<'a>(payload: &'a str) -> (r: Option<(&'a str, &'a str)>)
    ensures
        match r {
            Some((src, dest)) => transfer_arguments_of(payload@) == Some((src@, dest@)),
            None => transfer_arguments_of(payload@).is_none(),
        },
{
    let n = payload.unicode_len();
    let i = find_char(payload, '|');
    if i >= n {
        return None;
    }
    let first = payload.substring_char(0, i);
    let rest = payload.substring_char(i + 1, n);
    assert(payload@.subrange(i + 1, n as int) =~= payload@.skip(i + 1));
    let j = find_char(rest, '|');
    let second = rest.substring_char(0, j);
    Some((first, second))
}

} // verus!
