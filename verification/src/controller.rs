//! The controller's side of a session: request ids and their states, the
//! command line of the operator, and what a response means.

use vstd::prelude::*;
use vstd::string::StringExecFns;
use std::collections::HashMap;
use vstd::string::StrSliceExecFns;
use vstd::string::StringSliceAdditionalSpecFns;
use vstd::utf8::encode_utf8;
use crate::keys::map_keys;
use crate::message::Command;
use crate::textscan::{begins_with, starts_with};

verus! {

broadcast use vstd::std_specs::hash::group_hash_axioms;

/// The state of a request that the controller sent.
#[derive(Debug, Clone, Copy, PartialEq, Eq, Structural)]
pub enum RequestState {
    /// Sent; the response has not come.
    WaitingForResponse,
    /// Answered.
    Solved,
    /// Answered with an error, or could not be sent.
    Failed,
}

/// Hands out request ids and keeps the state of each request.
///
/// Ids start at 1 and go up by one; 0 is never handed out, it is the id
/// of heartbeats and other packets that answer no request.
#[derive(Debug)]
pub struct RequestManager {
    requests: HashMap<u64, RequestState>,
    next_req_id: u64,
}

impl View for RequestManager {
    type V = Map<u64, RequestState>;

    closed spec fn view(&self) -> Map<u64, RequestState> {
        self.requests@
    }
}

/// What finishing a request does to the table: a request that waits gets
/// the new state; any other request, and a missing one, stays.
pub open spec fn finished(
    before: Map<u64, RequestState>,
    req_id: u64,
    state: RequestState,
) -> Map<u64, RequestState> {
    if before.contains_key(req_id) && before[req_id] == RequestState::WaitingForResponse {
        before.insert(req_id, state)
    } else {
        before
    }
}

/// Whether an id is below the bound; every id is below no bound.
pub open spec fn below(id: u64, bound: Option<u64>) -> bool {
    match bound {
        Some(top) => id < top,
        None => true,
    }
}

/// The largest of the ids that are below the bound, if there is one.
fn largest_below(ids: &Vec<u64>, bound: Option<u64>) -> (r: Option<u64>)
    ensures
        match r {
            Some(b) => ids@.contains(b) && below(b, bound) && forall|j: int|
                0 <= j < ids@.len() && below(#[trigger] ids@[j], bound) ==> ids@[j] <= b,
            None => forall|j: int| 0 <= j < ids@.len() ==> !below(#[trigger] ids@[j], bound),
        },
{
    let mut best: Option<u64> = None;
    let mut k: usize = 0;
    while k < ids.len()
        invariant
            k <= ids@.len(),
            match best {
                Some(b) => ids@.contains(b) && below(b, bound) && forall|j: int|
                    0 <= j < k && below(#[trigger] ids@[j], bound) ==> ids@[j] <= b,
                None => forall|j: int| 0 <= j < k ==> !below(#[trigger] ids@[j], bound),
            },
        decreases ids@.len() - k,
    {
        let id = ids[k];
        let is_below = match bound {
            Some(top) => id < top,
            None => true,
        };
        let better = match best {
            Some(b) => id > b,
            None => true,
        };
        if is_below && better {
            best = Some(id);
        }
        k += 1;
    }
    best
}

impl RequestManager {
    /// The id that the next request gets.
    pub closed spec fn next_id(&self) -> u64 {
        self.next_req_id
    }

    /// Every id in the table was handed out: it is at least 1 and below
    /// the next id. Every manager that `new` makes is well-formed and
    /// stays so.
    pub closed spec fn well_formed(&self) -> bool {
        &&& self.next_req_id >= 1
        &&& forall|id: u64| self.requests@.contains_key(id) ==> 1 <= id < self.next_req_id
    }

    /// A manager without requests; the first id is 1.
    pub fn new() -> (r: RequestManager)
        ensures
            r.well_formed(),
            r@ == Map::<u64, RequestState>::empty(),
            r.next_id() == 1,
    {
        RequestManager { requests: HashMap::new(), next_req_id: 1 }
    }

    /// The id that the next request gets.
    pub fn peek_next_id(&self) -> (r: u64)
        ensures
            r == self.next_id(),
    {
        self.next_req_id
    }

    /// Enters a request in the given state under a fresh id and returns
    /// the id.
    pub fn add_request(&mut self, state: RequestState) -> (r: u64)
        requires
            old(self).well_formed(),
            old(self).next_id() < u64::MAX,
        ensures
            final(self).well_formed(),
            r == old(self).next_id(),
            r >= 1,
            !old(self)@.contains_key(r),
            final(self).next_id() == r + 1,
            final(self)@ == old(self)@.insert(r, state),
    {
        let req_id = self.next_req_id;
        self.next_req_id = self.next_req_id + 1;
        self.requests.insert(req_id, state);
        req_id
    }

    /// The state of a request.
    pub fn get_request(&self, req_id: u64) -> (r: Option<&RequestState>)
        ensures
            match r {
                Some(s) => self@.contains_key(req_id) && *s == self@[req_id],
                None => !self@.contains_key(req_id),
            },
    {
        self.requests.get(&req_id)
    }

    /// Takes a request out of the table and returns its state.
    pub fn remove_request(&mut self, req_id: u64) -> (r: Option<RequestState>)
        requires
            old(self).well_formed(),
        ensures
            final(self).well_formed(),
            final(self).next_id() == old(self).next_id(),
            final(self)@ == old(self)@.remove(req_id),
            match r {
                Some(s) => old(self)@.contains_key(req_id) && s == old(self)@[req_id],
                None => !old(self)@.contains_key(req_id),
            },
    {
        self.requests.remove(&req_id)
    }

    /// Marks a waiting request as solved. Returns whether it was waiting.
    pub fn solve_request(&mut self, req_id: u64) -> (r: bool)
        requires
            old(self).well_formed(),
        ensures
            final(self).well_formed(),
            final(self).next_id() == old(self).next_id(),
            r == (old(self)@.contains_key(req_id) && old(self)@[req_id]
                == RequestState::WaitingForResponse),
            final(self)@ == finished(old(self)@, req_id, RequestState::Solved),
    {
        self.finish(req_id, RequestState::Solved)
    }

    /// Marks a waiting request as failed. Returns whether it was waiting.
    pub fn fail_request(&mut self, req_id: u64) -> (r: bool)
        requires
            old(self).well_formed(),
        ensures
            final(self).well_formed(),
            final(self).next_id() == old(self).next_id(),
            r == (old(self)@.contains_key(req_id) && old(self)@[req_id]
                == RequestState::WaitingForResponse),
            final(self)@ == finished(old(self)@, req_id, RequestState::Failed),
    {
        self.finish(req_id, RequestState::Failed)
    }

    fn finish(&mut self, req_id: u64, state: RequestState) -> (r: bool)
        requires
            old(self).well_formed(),
        ensures
            final(self).well_formed(),
            final(self).next_id() == old(self).next_id(),
            r == (old(self)@.contains_key(req_id) && old(self)@[req_id]
                == RequestState::WaitingForResponse),
            final(self)@ == finished(old(self)@, req_id, state),
    {
        let waiting = match self.requests.get(&req_id) {
            Some(s) => match s {
                RequestState::WaitingForResponse => true,
                _ => false,
            },
            None => false,
        };
        if waiting {
            self.requests.insert(req_id, state);
        }
        waiting
    }

    /// Whether a response with this request id is to be processed: the id
    /// is not the reserved 0 and its request waits for a response.
    pub fn awaits_response(&self, req_id: u64) -> (r: bool)
        ensures
            r == (req_id > 0 && self@.contains_key(req_id) && self@[req_id]
                == RequestState::WaitingForResponse),
    {
        if req_id == 0 {
            return false;
        }
        match self.requests.get(&req_id) {
            Some(s) => match s {
                RequestState::WaitingForResponse => true,
                _ => false,
            },
            None => false,
        }
    }

    /// The five requests with the largest ids, largest first; all of
    /// them where there are fewer than five.
    pub fn get_last_5_requests(&self) -> (r: Vec<(u64, &RequestState)>)
        ensures
            r@.len() <= 5,
            r@.len() < 5 ==> r@.len() == self@.dom().len(),
            forall|i: int|
                0 <= i < r@.len() ==> self@.contains_key(#[trigger] r@[i].0) && *r@[i].1
                    == self@[r@[i].0],
            forall|i: int, j: int| 0 <= i < j < r@.len() ==> r@[i].0 > r@[j].0,
            forall|id: u64|
                self@.contains_key(id) ==> (exists|i: int| 0 <= i < r@.len() && r@[i].0 == id)
                    || (r@.len() == 5 && id < r@[4].0),
    {
        let keys = map_keys(&self.requests);
        let mut out: Vec<(u64, &RequestState)> = Vec::new();
        let mut bound: Option<u64> = None;
        let mut exhausted = false;
        while out.len() < 5 && !exhausted
            invariant
                out@.len() <= 5,
                keys@.to_set() == self@.dom(),
                keys@.no_duplicates(),
                keys@.len() == self@.dom().len(),
                bound is None <==> out@.len() == 0,
                bound matches Some(b) ==> out@[out@.len() - 1].0 == b,
                forall|i: int|
                    0 <= i < out@.len() ==> self@.contains_key(#[trigger] out@[i].0) && *out@[i].1
                        == self@[out@[i].0],
                forall|i: int, j: int| 0 <= i < j < out@.len() ==> out@[i].0 > out@[j].0,
                forall|id: u64|
                    self@.contains_key(id) && !below(id, bound) ==> (exists|i: int|
                        0 <= i < out@.len() && out@[i].0 == id),
                exhausted ==> forall|id: u64|
                    self@.contains_key(id) ==> (exists|i: int|
                        0 <= i < out@.len() && out@[i].0 == id),
            decreases 5 - out@.len() + (if exhausted {
                0int
            } else {
                1int
            }),
        {
            let best = largest_below(&keys, bound);
            match best {
                Some(id) => {
                    assert(keys@.to_set().contains(id));
                    let state = self.requests.get(&id).unwrap();
                    let ghost before = out@;
                    out.push((id, state));
                    let ghost old_bound = bound;
                    bound = Some(id);
                    assert forall|other: u64|
                        self@.contains_key(other) && !below(other, bound) implies (exists|i: int|
                        0 <= i < out@.len() && out@[i].0 == other) by {
                        if other == id {
                            assert(out@[before.len() as int].0 == other);
                        } else {
                            assert(keys@.to_set().contains(other));
                            let j = choose|j: int| 0 <= j < keys@.len() && keys@[j] == other;
                            assert(keys@[j] == other);
                            assert(!below(other, old_bound));
                            let i = choose|i: int| 0 <= i < before.len() && before[i].0 == other;
                            assert(out@[i].0 == other);
                        }
                    }
                    assert forall|i: int, j: int| 0 <= i < j < out@.len() implies out@[i].0
                        > out@[j].0 by {
                        if j == before.len() && before.len() > 0 {
                            assert(before[before.len() - 1].0 > id);
                            assert(before[i].0 >= before[before.len() - 1].0);
                        }
                    }
                },
                None => {
                    exhausted = true;
                    assert forall|other: u64| self@.contains_key(other) implies (exists|i: int|
                        0 <= i < out@.len() && out@[i].0 == other) by {
                        assert(keys@.to_set().contains(other));
                        let j = choose|j: int| 0 <= j < keys@.len() && keys@[j] == other;
                        assert(keys@[j] == other);
                        assert(!below(other, bound));
                    }
                },
            }
        }
        proof {
            assert forall|id: u64| self@.contains_key(id) implies (exists|i: int|
                0 <= i < out@.len() && out@[i].0 == id) || (out@.len() == 5 && id
                < out@[4].0) by {
                if !exhausted && below(id, bound) {
                    assert(out@.len() == 5);
                    assert(bound == Some(out@[4].0));
                }
            }
            if out@.len() < 5 {
                let ids = Seq::new(out@.len(), |i: int| out@[i].0);
                assert(ids.no_duplicates());
                assert(ids.to_set() =~= self@.dom()) by {
                    assert forall|id: u64| ids.to_set().contains(id) <==> self@.dom().contains(
                        id,
                    ) by {
                        if ids.contains(id) {
                            let i = choose|i: int| 0 <= i < ids.len() && ids[i] == id;
                            assert(self@.contains_key(out@[i].0));
                        }
                        if self@.contains_key(id) {
                            let i = choose|i: int| 0 <= i < out@.len() && out@[i].0 == id;
                            assert(ids[i] == id);
                        }
                    }
                }
                ids.unique_seq_to_set();
            }
        }
        out
    }
}

impl Default for RequestManager {
    fn default() -> (r: RequestManager)
        ensures
            r.well_formed(),
            r@ == Map::<u64, RequestState>::empty(),
            r.next_id() == 1,
    {
        RequestManager::new()
    }
}

/// Why a command line is not sent.
#[derive(Debug, Clone, Copy, PartialEq, Eq, Structural)]
pub enum Rejection {
    /// The line names no command, or runs a command's name on.
    InvalidCommand,
    /// `ShellExecute` without a command to run.
    ShellNeedsCommand,
    /// `Copy` without source and destination.
    CopyNeedsArguments,
}

/// What a command line of the operator asks for.
#[derive(Debug)]
pub enum CommandLine {
    /// An empty line: nothing to do.
    Empty,
    /// A command to send, with its payload.
    Send(Command, Vec<u8>),
    /// A line that is not sent.
    Rejected(Rejection),
}

/// What a command line asks for, as mathematical values.
pub enum LineView {
    Empty,
    Send(Command, Seq<u8>),
    Rejected(Rejection),
}

impl View for CommandLine {
    type V = LineView;

    open spec fn view(&self) -> LineView {
        match self {
            CommandLine::Empty => LineView::Empty,
            CommandLine::Send(c, p) => LineView::Send(*c, p@),
            CommandLine::Rejected(r) => LineView::Rejected(*r),
        }
    }
}

/// Whether the arguments of a line can be cut off behind the word of its
/// command: `Upload`, `Download` and `SystemAction` take everything
/// behind the one character that follows the word, so that character
/// must be there and must be a single byte.
pub open spec fn arguments_can_be_cut(line: Seq<char>) -> bool {
    if line.len() == 0 || line == "Ping"@ || begins_with(line, "ShellExecute"@) || begins_with(
        line,
        "Copy"@,
    ) || begins_with(line, "ListDrives"@) || begins_with(line, "ListDir"@) {
        true
    } else if begins_with(line, "Upload"@) {
        line.len() > 6 && (line[6] as u32) < 128
    } else if begins_with(line, "Download"@) {
        line.len() > 8 && (line[8] as u32) < 128
    } else if begins_with(line, "SystemAction"@) {
        line.len() > 12 && (line[12] as u32) < 128
    } else {
        true
    }
}

/// What a trimmed command line asks for. The payload of a command is the
/// UTF-8 text behind the word of the command and the character after it.
pub open spec fn parsed_line(line: Seq<char>) -> LineView {
    if line.len() == 0 {
        LineView::Empty
    } else if line == "Ping"@ {
        LineView::Send(Command::Ping, Seq::empty())
    } else if begins_with(line, "ShellExecute"@) {
        if line.len() > 13 && line[12] == ' ' {
            LineView::Send(Command::ShellExecute, encode_utf8(line.skip(13)))
        } else if line.len() == 12 || (line.len() == 13 && line[12] == ' ') {
            LineView::Rejected(Rejection::ShellNeedsCommand)
        } else {
            LineView::Rejected(Rejection::InvalidCommand)
        }
    } else if begins_with(line, "Copy"@) {
        if line.len() > 5 && line[4] == ' ' {
            LineView::Send(Command::Copy, encode_utf8(line.skip(5)))
        } else {
            LineView::Rejected(Rejection::CopyNeedsArguments)
        }
    } else if begins_with(line, "ListDrives"@) {
        LineView::Send(Command::ListDrives, Seq::empty())
    } else if begins_with(line, "ListDir"@) {
        if line.len() > 7 && line[7] == ' ' {
            LineView::Send(Command::ListDir, encode_utf8(line.skip(8)))
        } else {
            LineView::Send(Command::ListDir, encode_utf8("."@))
        }
    } else if begins_with(line, "Upload"@) {
        LineView::Send(Command::Upload, encode_utf8(line.skip(7)))
    } else if begins_with(line, "Download"@) {
        LineView::Send(Command::Download, encode_utf8(line.skip(9)))
    } else if begins_with(line, "SystemAction"@) {
        LineView::Send(Command::SystemAction, encode_utf8(line.skip(13)))
    } else {
        LineView::Rejected(Rejection::InvalidCommand)
    }
}

/// The UTF-8 bytes of the text from character `from` on.
fn tail_bytes(line: &str, from: usize) -> (r: Vec<u8>)
    requires
        from <= line@.len(),
    ensures
        r@ == encode_utf8(line@.skip(from as int)),
{
    let n = line.unicode_len();
    let tail = line.substring_char(from, n);
    assert(line@.subrange(from as int, n as int) =~= line@.skip(from as int));
    tail.as_bytes_vec()
}

/// Whether the arguments of a line can be cut off behind the word of its
/// command.
pub fn can_cut_arguments(line: &str) -> (r: bool)
    ensures
        r == arguments_can_be_cut(line@),
{
    let n = line.unicode_len();
    proof {
        reveal_strlit("Ping");
    }
    if n == 0 || (n == 4 && starts_with(line, "Ping")) {
        assert(n == 4 && begins_with(line@, "Ping"@) ==> line@ =~= "Ping"@);
        return true;
    }
    assert(line@ != "Ping"@) by {
        if line@ == "Ping"@ {
            assert(line@.subrange(0, 4) =~= line@);
        }
    }
    if starts_with(line, "ShellExecute") || starts_with(line, "Copy") || starts_with(
        line,
        "ListDrives",
    ) || starts_with(line, "ListDir") {
        return true;
    }
    if starts_with(line, "Upload") {
        proof {
            reveal_strlit("Upload");
        }
        return n > 6 && (line.get_char(6) as u32) < 128;
    }
    if starts_with(line, "Download") {
        proof {
            reveal_strlit("Download");
        }
        return n > 8 && (line.get_char(8) as u32) < 128;
    }
    if starts_with(line, "SystemAction") {
        proof {
            reveal_strlit("SystemAction");
        }
        return n > 12 && (line.get_char(12) as u32) < 128;
    }
    true
}

/// Reads a trimmed command line of the operator.
///
/// `Ping` stands alone. `ShellExecute` and `Copy` take what follows the
/// space behind the word and refuse to go without it. `ListDrives` takes
/// nothing. `ListDir` takes the path behind the space, or `.`.
/// `Upload`, `Download` and `SystemAction` take everything behind the
/// character that follows the word. Everything else is rejected.
pub fn parse_command_line(line: &str) -> (r: CommandLine)
    requires
        arguments_can_be_cut(line@),
    ensures
        r@ == parsed_line(line@),
{
    let n = line.unicode_len();
    proof {
        reveal_strlit("Ping");
        reveal_strlit("ShellExecute");
        reveal_strlit("Copy");
        reveal_strlit("ListDrives");
        reveal_strlit("ListDir");
        reveal_strlit("Upload");
        reveal_strlit("Download");
        reveal_strlit("SystemAction");
    }
    if n == 0 {
        return CommandLine::Empty;
    }
    if n == 4 && starts_with(line, "Ping") {
        assert(line@.subrange(0, 4) =~= line@);
        return CommandLine::Send(Command::Ping, Vec::new());
    }
    assert(line@ != "Ping"@) by {
        if line@ == "Ping"@ {
            assert(line@.subrange(0, 4) =~= line@);
        }
    }
    if starts_with(line, "ShellExecute") {
        if n > 12 && line.get_char(12) == ' ' {
            if n == 13 {
                return CommandLine::Rejected(Rejection::ShellNeedsCommand);
            }
            return CommandLine::Send(Command::ShellExecute, tail_bytes(line, 13));
        } else if n == 12 {
            return CommandLine::Rejected(Rejection::ShellNeedsCommand);
        } else {
            return CommandLine::Rejected(Rejection::InvalidCommand);
        }
    }
    if starts_with(line, "Copy") {
        if n > 5 && line.get_char(4) == ' ' {
            return CommandLine::Send(Command::Copy, tail_bytes(line, 5));
        }
        return CommandLine::Rejected(Rejection::CopyNeedsArguments);
    }
    if starts_with(line, "ListDrives") {
        return CommandLine::Send(Command::ListDrives, Vec::new());
    }
    if starts_with(line, "ListDir") {
        if n > 7 && line.get_char(7) == ' ' {
            return CommandLine::Send(Command::ListDir, tail_bytes(line, 8));
        }
        return CommandLine::Send(Command::ListDir, ".".as_bytes_vec());
    }
    if starts_with(line, "Upload") {
        return CommandLine::Send(Command::Upload, tail_bytes(line, 7));
    }
    if starts_with(line, "Download") {
        return CommandLine::Send(Command::Download, tail_bytes(line, 9));
    }
    if starts_with(line, "SystemAction") {
        return CommandLine::Send(Command::SystemAction, tail_bytes(line, 13));
    }
    CommandLine::Rejected(Rejection::InvalidCommand)
}

/// What the operator's view is told when a response came.
#[derive(Debug, Clone, Copy, PartialEq, Eq, Structural)]
pub enum ResponseNotice {
    /// Nothing besides the log line.
    Nothing,
    /// The tree of the agent's files is stale.
    RefreshSlaveTree,
    /// The tree of the local files is stale.
    RefreshLocalTree,
    /// The payload lists the agent's drives.
    DriveList,
    /// The payload lists a directory of the agent.
    DirectoryListing,
}

/// What the operator's view is told when a response to `command` came.
pub fn response_notice(command: Command) -> (r: ResponseNotice)
    ensures
        r == (match command {
            Command::Copy => ResponseNotice::RefreshSlaveTree,
            Command::Upload => ResponseNotice::RefreshSlaveTree,
            Command::Download => ResponseNotice::RefreshLocalTree,
            Command::ListDrives => ResponseNotice::DriveList,
            Command::ListDir => ResponseNotice::DirectoryListing,
            _ => ResponseNotice::Nothing,
        }),
{
    match command {
        Command::Copy => ResponseNotice::RefreshSlaveTree,
        Command::Upload => ResponseNotice::RefreshSlaveTree,
        Command::Download => ResponseNotice::RefreshLocalTree,
        Command::ListDrives => ResponseNotice::DriveList,
        Command::ListDir => ResponseNotice::DirectoryListing,
        _ => ResponseNotice::Nothing,
    }
}

/// The log line for a response to `command` whose payload reads as
/// `payload`; `None` for a command that the controller does not know how
/// to answer for.
pub open spec fn response_line(command: Command, payload: Seq<char>) -> Option<Seq<char>> {
    match command {
        Command::Ping => Some("Pong"@),
        Command::ShellExecute => Some("Executed: "@ + payload),
        Command::Copy => Some(payload),
        Command::ListDrives => Some("Drives: "@ + payload),
        Command::ListDir => Some("Directory listing received"@),
        Command::Upload => Some("Upload complete"@),
        Command::Download => Some("Download complete"@),
        Command::SystemAction => Some("System action: "@ + payload),
        _ => None,
    }
}

/// The log line for a response.
pub fn response_text(command: Command, payload: &str) -> (r: Option<String>)
    ensures
        match r {
            Some(s) => response_line(command, payload@) == Some(s@),
            None => response_line(command, payload@).is_none(),
        },
{
    match command {
        Command::Ping => Some(String::from_str("Pong")),
        Command::ShellExecute => {
            let mut s = String::from_str("Executed: ");
            s.append(payload);
            Some(s)
        },
        Command::Copy => Some(String::from_str(payload)),
        Command::ListDrives => {
            let mut s = String::from_str("Drives: ");
            s.append(payload);
            Some(s)
        },
        Command::ListDir => Some(String::from_str("Directory listing received")),
        Command::Upload => Some(String::from_str("Upload complete")),
        Command::Download => Some(String::from_str("Download complete")),
        Command::SystemAction => {
            let mut s = String::from_str("System action: ");
            s.append(payload);
            Some(s)
        },
        _ => None,
    }
}

/// The command line that asks for the listing of a directory.
pub fn list_dir_line(path: &str) -> (r: String)
    ensures
        r@ == "ListDir "@ + path@,
{
    let mut s = String::from_str("ListDir ");
    s.append(path);
    s
}

/// The command line that uploads `src` to `dest`.
pub fn upload_line(src: &str, dest: &str) -> (r: String)
    ensures
        r@ == "Upload "@ + src@ + "|"@ + dest@,
{
    let mut s = String::from_str("Upload ");
    s.append(src);
    s.append("|");
    s.append(dest);
    s
}

/// The command line that downloads `src` to `dest`.
pub fn download_line(src: &str, dest: &str) -> (r: String)
    ensures
        r@ == "Download "@ + src@ + "|"@ + dest@,
{
    let mut s = String::from_str("Download ");
    s.append(src);
    s.append("|");
    s.append(dest);
    s
}

/// The command line of `ListDir` is read as that command with the path
/// as its payload.
pub proof fn lemma_list_dir_line_parses(path: Seq<char>)
    requires
        path.len() > 0,
    ensures
        arguments_can_be_cut("ListDir "@ + path),
        parsed_line("ListDir "@ + path) == LineView::Send(Command::ListDir, encode_utf8(path)),
{
    reveal_strlit("ListDir ");
    reveal_strlit("ListDir");
    reveal_strlit("ListDrives");
    reveal_strlit("Ping");
    reveal_strlit("ShellExecute");
    reveal_strlit("Copy");
    let line = "ListDir "@ + path;
    assert(line.subrange(0, 7) =~= "ListDir"@);
    assert(line[0] == 'L');
    assert(line[7] == ' ');
    assert(line.skip(8) =~= path);
    assert(line != "Ping"@);
    assert(!begins_with(line, "ShellExecute"@)) by {
        if begins_with(line, "ShellExecute"@) {
            assert(line.subrange(0, 12)[0] == 'S');
        }
    }
    assert(!begins_with(line, "Copy"@)) by {
        if begins_with(line, "Copy"@) {
            assert(line.subrange(0, 4)[0] == 'C');
        }
    }
    assert(!begins_with(line, "ListDrives"@)) by {
        if begins_with(line, "ListDrives"@) {
            assert(line.subrange(0, 10)[5] == 'r');
        }
    }
}

/// The command lines of `Upload` and `Download` are read as these
/// commands with `src|dest` as their payload.
pub proof fn lemma_transfer_lines_parse(src: Seq<char>, dest: Seq<char>)
    ensures
        arguments_can_be_cut("Upload "@ + src + "|"@ + dest),
        parsed_line("Upload "@ + src + "|"@ + dest) == LineView::Send(
            Command::Upload,
            encode_utf8(src + "|"@ + dest),
        ),
        arguments_can_be_cut("Download "@ + src + "|"@ + dest),
        parsed_line("Download "@ + src + "|"@ + dest) == LineView::Send(
            Command::Download,
            encode_utf8(src + "|"@ + dest),
        ),
{
    reveal_strlit("Upload ");
    reveal_strlit("Upload");
    reveal_strlit("Download ");
    reveal_strlit("Download");
    reveal_strlit("|");
    reveal_strlit("ListDir");
    reveal_strlit("ListDrives");
    reveal_strlit("Ping");
    reveal_strlit("ShellExecute");
    reveal_strlit("Copy");
    let up = "Upload "@ + src + "|"@ + dest;
    let down = "Download "@ + src + "|"@ + dest;
    assert(up.subrange(0, 6) =~= "Upload"@);
    assert(down.subrange(0, 8) =~= "Download"@);
    assert(up[0] == 'U' && up[6] == ' ');
    assert(down[0] == 'D' && down[8] == ' ');
    assert(up.skip(7) =~= src + "|"@ + dest);
    assert(down.skip(9) =~= src + "|"@ + dest);
    assert(up != "Ping"@ && down != "Ping"@) by {
        assert("Ping"@[0] == 'P');
    }
    assert forall|word: Seq<char>|
        (word == "ShellExecute"@ || word == "Copy"@ || word == "ListDrives"@ || word
            == "ListDir"@) implies !begins_with(up, word) && !begins_with(down, word) by {
        if begins_with(up, word) {
            assert(up.subrange(0, word.len() as int)[0] == word[0]);
        }
        if begins_with(down, word) {
            assert(down.subrange(0, word.len() as int)[0] == word[0]);
        }
    }
    assert(!begins_with(down, "Upload"@)) by {
        if begins_with(down, "Upload"@) {
            assert(down.subrange(0, 6)[0] == 'U');
        }
    }
}

} // verus!
