//! The command console of the controller's view: the list of completions
//! that it offers for the line being typed, and the scrolling of its log.

use vstd::prelude::*;
use vstd::arithmetic::div_mod::{lemma_add_mod_noop, lemma_small_mod};
use vstd::string::{StrSliceExecFns, StringExecFns};
use crate::explorer::texts;
use crate::text::{decimal, decimal_text};
use crate::textscan::{
    begins_with, contains_text, find_char, holds, lemma_index_of_contains, same_text,
    starts_with,
};

verus! {

/// What `str::to_lowercase` returns for a text: its lower-case form by
/// the rules of Unicode.
pub uninterp spec fn lowercase_of(text: Seq<char>) -> Seq<char>;

/// `str::to_lowercase` of std: the text with every character mapped to
/// its lower-case form. The mapping is Unicode's and depends on the text
/// alone.
#[verifier::external_body]
fn lowercase(text: &str) -> (r: String)
    ensures
        r@ == lowercase_of(text@),
{
    text.to_lowercase()
}

/// What a list of completions was made for.
#[derive(Debug, Clone, Copy, PartialEq, Eq, Structural)]
pub enum CompletionType {
    /// The word of a command.
    Command,
    /// A path among the arguments.
    Path,
}

/// One completion on offer.
#[derive(Debug, Clone)]
pub struct CompletionOption {
    /// The text that is shown.
    pub display: String,
    /// The text that is put into the line.
    pub value: String,
    /// Whether the completion is a directory.
    pub is_dir: bool,
}

/// The completions on offer and the one that is picked.
#[derive(Debug)]
pub struct CompletionState {
    /// The completions, in the order in which they are shown.
    pub options: Vec<CompletionOption>,
    /// The index of the completion that is picked.
    pub selected_index: usize,
    /// Whether the list is shown.
    pub active: bool,
    /// What the list was made for.
    pub trigger_type: Option<CompletionType>,
    /// The line for which the list was made.
    pub last_input: String,
}

impl Default for CompletionState {
    fn default() -> (r: CompletionState)
        ensures
            r.options@.len() == 0,
            r.selected_index == 0,
            !r.active,
            r.trigger_type.is_none(),
            r.last_input@.len() == 0,
    {
        CompletionState {
            options: Vec::new(),
            selected_index: 0,
            active: false,
            trigger_type: None,
            last_input: String::new(),
        }
    }
}

/// Whether a command completes what was typed: it begins with it, upper
/// and lower case taken as the same.
pub open spec fn completes(command: Seq<char>, input: Seq<char>) -> bool {
    begins_with(lowercase_of(command), lowercase_of(input))
}

/// Whether `candidate` completes what was typed.
pub fn is_completion(candidate: &str, typed: &str) -> (r: bool)
    ensures
        r == completes(candidate@, typed@),
{
    let lowered = lowercase(candidate);
    let wanted = lowercase(typed);
    starts_with(lowered.as_str(), wanted.as_str())
}

/// The commands among the first `n` that complete what was typed, in
/// their order.
pub open spec fn matching(available: Seq<String>, n: nat, input: Seq<char>) -> Seq<Seq<char>>
    decreases n,
{
    if n == 0 || n > available.len() {
        Seq::empty()
    } else if completes(available[n - 1]@, input) {
        matching(available, (n - 1) as nat, input).push(available[n - 1]@)
    } else {
        matching(available, (n - 1) as nat, input)
    }
}

/// The texts that a list of completions puts into the line.
pub open spec fn option_values(options: Seq<CompletionOption>) -> Seq<Seq<char>> {
    Seq::new(options.len(), |i: int| options[i].value@)
}

/// Whether every completion of a list is shown as the text that it puts
/// into the line, and none is a directory.
pub open spec fn plain_options(options: Seq<CompletionOption>) -> bool {
    forall|i: int|
        0 <= i < options.len() ==> (#[trigger] options[i]).display@ == options[i].value@
            && !options[i].is_dir
}

/// The completions for the word of a command: the commands that complete
/// what was typed.
pub fn command_options(available: &Vec<String>, input: &str) -> (r: Vec<CompletionOption>)
    ensures
        option_values(r@) == matching(available@, available@.len(), input@),
        plain_options(r@),
{
    let typed = lowercase(input);
    let mut options: Vec<CompletionOption> = Vec::new();
    assert(option_values(options@) =~= Seq::<Seq<char>>::empty());
    let mut i: usize = 0;
    while i < available.len()
        invariant
            i <= available@.len(),
            typed@ == lowercase_of(input@),
            option_values(options@) == matching(available@, i as nat, input@),
            plain_options(options@),
        decreases available@.len() - i,
    {
        let command = &available[i];
        let lowered = lowercase(command.as_str());
        if starts_with(lowered.as_str(), typed.as_str()) {
            let ghost before = options@;
            options.push(
                CompletionOption { display: command.clone(), value: command.clone(), is_dir: false },
            );
            assert(option_values(options@) =~= option_values(before).push(command@));
            assert(plain_options(options@)) by {
                assert forall|k: int| 0 <= k < options@.len() implies (#[trigger] options@[k]).display@
                    == options@[k].value@ && !options@[k].is_dir by {
                    if k < before.len() {
                        assert(options@[k] == before[k]);
                    }
                }
            }
        }
        i += 1;
    }
    options
}

impl CompletionState {
    /// Whether a list with completions is shown.
    pub open spec fn offering(&self) -> bool {
        self.active && self.options@.len() > 0
    }

    /// Whether a list with completions is shown.
    pub fn offers(&self) -> (r: bool)
        ensures
            r == self.offering(),
    {
        self.active && self.options.len() > 0
    }

    /// Picks the next completion, the first after the last. Does
    /// nothing, and says so, where no list is shown.
    pub fn select_next(&mut self) -> (r: bool)
        ensures
            r == old(self).offering(),
            final(self).options == old(self).options,
            final(self).active == old(self).active,
            final(self).trigger_type == old(self).trigger_type,
            final(self).last_input == old(self).last_input,
            r ==> final(self).selected_index == (old(self).selected_index + 1) % (
            old(self).options@.len() as int),
            !r ==> final(self).selected_index == old(self).selected_index,
    {
        if !self.offers() {
            return false;
        }
        let n = self.options.len();
        let at = self.selected_index % n;
        proof {
            lemma_add_mod_noop(self.selected_index as int, 1, n as int);
            if n > 1 {
                lemma_small_mod(1, n as nat);
            }
        }
        self.selected_index = (at + 1) % n;
        true
    }

    /// Picks the completion before, the last before the first. Does
    /// nothing, and says so, where no list is shown.
    pub fn select_previous(&mut self) -> (r: bool)
        ensures
            r == old(self).offering(),
            final(self).options == old(self).options,
            final(self).active == old(self).active,
            final(self).trigger_type == old(self).trigger_type,
            final(self).last_input == old(self).last_input,
            r ==> final(self).selected_index == (if old(self).selected_index == 0 {
                (old(self).options@.len() - 1) as usize
            } else {
                (old(self).selected_index - 1) as usize
            }),
            !r ==> final(self).selected_index == old(self).selected_index,
    {
        if !self.offers() {
            return false;
        }
        if self.selected_index == 0 {
            self.selected_index = self.options.len() - 1;
        } else {
            self.selected_index -= 1;
        }
        true
    }

    /// Hides the list, and says whether it was shown.
    pub fn dismiss(&mut self) -> (r: bool)
        ensures
            r == old(self).active,
            *final(self) == (CompletionState { active: false, ..*old(self) }),
    {
        let was = self.active;
        self.active = false;
        was
    }

    /// The completion that is picked.
    pub fn chosen(&self) -> (r: Option<&CompletionOption>)
        ensures
            match r {
                Some(option) => self.selected_index < self.options@.len() && *option
                    == self.options@[self.selected_index as int],
                None => self.selected_index >= self.options@.len(),
            },
    {
        if self.selected_index < self.options.len() {
            Some(&self.options[self.selected_index])
        } else {
            None
        }
    }

    /// Offers the commands that complete the line, where the line is one
    /// word (it holds no space) and some command completes it; the first
    /// of them is picked. Says whether it did. A line of one word that no
    /// command completes leaves the list as it was, but for what it was
    /// made for.
    pub fn complete_command(&mut self, available: &Vec<String>, input: &str) -> (r: bool)
        ensures
            final(self).last_input == old(self).last_input,
            r == (!input@.contains(' ') && matching(available@, available@.len(), input@).len()
                > 0),
            input@.contains(' ') ==> *final(self) == *old(self),
            !input@.contains(' ') ==> final(self).trigger_type == Some(CompletionType::Command),
            r ==> option_values(final(self).options@) == matching(
                available@,
                available@.len(),
                input@,
            ) && plain_options(final(self).options@) && final(self).selected_index == 0
                && final(self).active,
            !r ==> final(self).options == old(self).options,
            !r ==> final(self).selected_index == old(self).selected_index,
            !r ==> final(self).active == old(self).active,
    {
        proof {
            lemma_index_of_contains(input@, ' ');
        }
        if find_char(input, ' ') < input.unicode_len() {
            return false;
        }
        self.trigger_type = Some(CompletionType::Command);
        let options = command_options(available, input);
        assert(option_values(options@).len() == options@.len());
        if options.len() == 0 {
            return false;
        }
        self.options = options;
        self.selected_index = 0;
        self.active = true;
        true
    }

    /// Offers the paths that were found for the line, the first of them
    /// picked; hides the list where none was found.
    pub fn offer_paths(&mut self, entries: Vec<CompletionOption>)
        ensures
            final(self).last_input == old(self).last_input,
            final(self).trigger_type == Some(CompletionType::Path),
            entries@.len() > 0 ==> final(self).options == entries && final(self).selected_index == 0
                && final(self).active,
            entries@.len() == 0 ==> final(self).options == old(self).options,
            entries@.len() == 0 ==> final(self).selected_index == old(self).selected_index,
            entries@.len() == 0 ==> !final(self).active,
    {
        self.trigger_type = Some(CompletionType::Path);
        if entries.len() > 0 {
            self.options = entries;
            self.selected_index = 0;
            self.active = true;
        } else {
            self.active = false;
        }
    }
}

/// The directory part that a completed path keeps in front: the parent
/// of the word that is completed, closed by a backslash where it does not
/// end in a separator. No parent, an empty one and `.` give nothing.
pub open spec fn directory_part(parent: Option<Seq<char>>) -> Seq<char> {
    match parent {
        Some(p) => if p.len() == 0 || p == "."@ {
            Seq::empty()
        } else if p.last() == '\\' || p.last() == '/' {
            p
        } else {
            p.push('\\')
        },
        None => Seq::empty(),
    }
}

/// What a completion of a path puts behind the words that stay: the
/// directory part, the completion, and a backslash behind a directory.
pub open spec fn completion_text(parent: Option<Seq<char>>, value: Seq<char>, is_dir: bool) -> Seq<
    char,
> {
    directory_part(parent) + value + (if is_dir {
        seq!['\\']
    } else {
        Seq::empty()
    })
}

/// The view of an optional text.
pub open spec fn text_of(text: Option<&str>) -> Option<Seq<char>> {
    match text {
        Some(t) => Some(t@),
        None => None,
    }
}

/// The line after a path was completed: `kept`, the words that stay,
/// then the completed path. `parent` is the parent of the word that was
/// completed, if it has one.
pub fn path_completion(kept: &str, parent: Option<&str>, choice: &CompletionOption) -> (r: String)
    ensures
        r@ == kept@ + completion_text(text_of(parent), choice.value@, choice.is_dir),
{
    let mut line = String::from_str(kept);
    if let Some(p) = parent {
        let n = p.unicode_len();
        proof {
            reveal_strlit(".");
            reveal_strlit("\\");
        }
        if n > 0 && !same_text(p, ".") {
            line.append(p);
            let last = p.get_char(n - 1);
            if last != '\\' && last != '/' {
                line.append("\\");
                assert("\\"@ =~= seq!['\\']);
                assert(line@ =~= kept@ + p@.push('\\'));
            }
        } else {
            assert(line@ =~= kept@ + directory_part(Some(p@)));
        }
    } else {
        assert(line@ =~= kept@ + Seq::<char>::empty());
    }
    let ghost before = line@;
    line.append(choice.value.as_str());
    if choice.is_dir {
        proof {
            reveal_strlit("\\");
        }
        line.append("\\");
        assert("\\"@ =~= seq!['\\']);
    }
    assert(line@ =~= before + choice.value@ + (if choice.is_dir {
        seq!['\\']
    } else {
        Seq::empty()
    }));
    assert(line@ =~= kept@ + completion_text(text_of(parent), choice.value@, choice.is_dir));
    line
}

/// The mark of a task in its row: `< id >`.
pub open spec fn task_mark(id: u64) -> Seq<char> {
    "< "@ + decimal_text(id as nat) + " >"@
}

/// The row of a task: its mark, a space, its status.
pub open spec fn task_row(id: u64, status: Seq<char>) -> Seq<char> {
    task_mark(id) + " "@ + status
}

/// The first row from `from` on that holds `word`, if there is one.
pub open spec fn first_holding(rows: Seq<Seq<char>>, word: Seq<char>, from: nat) -> Option<int>
    decreases rows.len() - from,
{
    if from >= rows.len() {
        None
    } else if holds(rows[from as int], word) {
        Some(from as int)
    } else {
        first_holding(rows, word, from + 1)
    }
}

/// Writes the status of a task into the list of tasks: the first row
/// that holds the mark of the task becomes the row of the task with this
/// status, or, where no row holds it, the row is added at the end. The
/// other rows stay.
pub fn update_task_row(tasks: &mut Vec<String>, id: u64, status: &str)
    ensures
        match first_holding(texts(old(tasks)@), task_mark(id), 0) {
            Some(k) => texts(final(tasks)@) == texts(old(tasks)@).update(
                k,
                task_row(id, status@),
            ),
            None => texts(final(tasks)@) == texts(old(tasks)@).push(task_row(id, status@)),
        },
{
    proof {
        reveal_strlit("< ");
        reveal_strlit(" >");
        reveal_strlit(" ");
    }
    let number = decimal(id);
    let mut mark = String::from_str("< ");
    mark.append(number.as_str());
    mark.append(" >");
    assert(mark@ =~= task_mark(id));
    let mut row = String::from_str(mark.as_str());
    row.append(" ");
    row.append(status);
    assert(row@ =~= task_row(id, status@));
    let ghost rows = texts(tasks@);
    let mut i: usize = 0;
    while i < tasks.len()
        invariant
            i <= tasks@.len(),
            tasks@ == old(tasks)@,
            rows == texts(tasks@),
            mark@ == task_mark(id),
            row@ == task_row(id, status@),
            first_holding(rows, task_mark(id), 0) == first_holding(rows, task_mark(id), i as nat),
        decreases tasks@.len() - i,
    {
        assert(rows[i as int] == tasks@[i as int]@);
        if contains_text(tasks[i].as_str(), mark.as_str()) {
            tasks.set(i, row);
            assert(texts(tasks@) =~= rows.update(i as int, task_row(id, status@)));
            return ;
        }
        i += 1;
    }
    tasks.push(row);
    assert(texts(tasks@) =~= rows.push(task_row(id, status@)));
}

/// The log scrolled one line back: never past the first line.
pub fn scroll_back(log_scroll: usize, lines: usize) -> (r: usize)
    ensures
        r == (if log_scroll + 1 < lines {
            log_scroll + 1
        } else if lines == 0 {
            0
        } else {
            lines - 1
        }),
{
    if lines == 0 {
        0
    } else if log_scroll < lines - 1 {
        log_scroll + 1
    } else {
        lines - 1
    }
}

/// The log scrolled one line forward: never past the last line.
pub fn scroll_forward(log_scroll: usize) -> (r: usize)
    ensures
        r == (if log_scroll > 0 {
            log_scroll - 1
        } else {
            0
        }),
{
    if log_scroll > 0 {
        log_scroll - 1
    } else {
        0
    }
}

} // verus!
