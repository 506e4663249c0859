//! The state of the working tree: `git status` entries, worktree lists, switching plans.
use crate::git::{
    git_error_kind, output_text, output_to_string, GitError, LocalBranchName, LocalBranchNameView,
    ProcessOutput,
};
use vstd::utf8::valid_utf8;
pub use crate::path::relative_path;
use crate::path::relative_path_spec;
use crate::text::{
    chars_of, starts_with, is_first_occurrence, lemma_find_is, occurs_at, lines, lines_spec, to_owned_all, split_once, split_once_spec, split_terminator,
    split_spec, split_terminator_spec, str_eq, string_views, strip_prefix_spec, views,
};
use vstd::prelude::*;

verus! {

/// The status of an entry in the index or in the working tree.
#[derive(Debug, Clone, Copy, PartialEq, Eq, Structural)]
pub enum EntryLocationStatus {
    Unmodified,
    Modified,
    Added,
    Deleted,
    Renamed,
    Copied,
    UpdatedButUnmerged,
}

/// The status that a one-character code of `git status --porcelain=v2` stands for.
pub open spec fn location_code_spec(c: char) -> Option<EntryLocationStatus> {
    if c == '.' {
        Some(EntryLocationStatus::Unmodified)
    } else if c == 'M' {
        Some(EntryLocationStatus::Modified)
    } else if c == 'A' {
        Some(EntryLocationStatus::Added)
    } else if c == 'D' {
        Some(EntryLocationStatus::Deleted)
    } else if c == 'R' {
        Some(EntryLocationStatus::Renamed)
    } else if c == 'C' {
        Some(EntryLocationStatus::Copied)
    } else if c == 'U' {
        Some(EntryLocationStatus::UpdatedButUnmerged)
    } else {
        None
    }
}

/// The status that a code string stands for: only a single known character has one.
pub open spec fn location_str_spec(code: Seq<char>) -> Option<EntryLocationStatus> {
    if code.len() == 1 {
        location_code_spec(code[0])
    } else {
        None
    }
}

impl EntryLocationStatus {
    /// The status for a one-character code.
    pub fn from_code(c: char) -> (r: Option<EntryLocationStatus>)
        ensures
            r == location_code_spec(c),
    {
        if c == '.' {
            Some(EntryLocationStatus::Unmodified)
        } else if c == 'M' {
            Some(EntryLocationStatus::Modified)
        } else if c == 'A' {
            Some(EntryLocationStatus::Added)
        } else if c == 'D' {
            Some(EntryLocationStatus::Deleted)
        } else if c == 'R' {
            Some(EntryLocationStatus::Renamed)
        } else if c == 'C' {
            Some(EntryLocationStatus::Copied)
        } else if c == 'U' {
            Some(EntryLocationStatus::UpdatedButUnmerged)
        } else {
            None
        }
    }

    /// Parse a status code string.
    pub fn parse(code: &str) -> (r: Result<EntryLocationStatus, ()>)
        ensures
            match location_str_spec(code@) {
                Some(s) => r == Ok::<EntryLocationStatus, ()>(s),
                None => r is Err,
            },
    {
        if code.unicode_len() != 1 {
            return Err(());
        }
        match EntryLocationStatus::from_code(code.get_char(0)) {
            Some(s) => Ok(s),
            None => Err(()),
        }
    }
}

impl std::str::FromStr for EntryLocationStatus {
    type Err = ();

    fn from_str(code: &str) -> (r: Result<Self, ()>)
        ensures
            match location_str_spec(code@) {
                Some(s) => r == Ok::<EntryLocationStatus, ()>(s),
                None => r is Err,
            },
    {
        EntryLocationStatus::parse(code)
    }
}

/// Who changed a conflicted entry.
#[derive(Debug, Copy, Clone, PartialEq, Eq, Structural)]
pub enum Changer {
    Both,
    Us,
    Them,
}

/// The kind of conflict of an unmerged entry.
#[derive(Debug, Copy, Clone, PartialEq, Eq, Structural)]
pub enum UnmergedState {
    Added(Changer),
    BothModified,
    Deleted(Changer),
}

/// An unknown conflict code.
#[derive(Debug)]
pub enum UnmergedStateParseError {
    UnhandledString,
}

/// The conflict that a two-character code stands for.
pub open spec fn unmerged_code_spec(code: Seq<char>) -> Option<UnmergedState> {
    if code == "DD"@ {
        Some(UnmergedState::Deleted(Changer::Both))
    } else if code == "AU"@ {
        Some(UnmergedState::Added(Changer::Us))
    } else if code == "UD"@ {
        Some(UnmergedState::Deleted(Changer::Them))
    } else if code == "UA"@ {
        Some(UnmergedState::Added(Changer::Them))
    } else if code == "DU"@ {
        Some(UnmergedState::Deleted(Changer::Us))
    } else if code == "AA"@ {
        Some(UnmergedState::Added(Changer::Both))
    } else if code == "UU"@ {
        Some(UnmergedState::BothModified)
    } else {
        None
    }
}

impl UnmergedState {
    /// Parse a conflict code.
    pub fn parse(spec: &str) -> (r: Result<UnmergedState, UnmergedStateParseError>)
        ensures
            match unmerged_code_spec(spec@) {
                Some(s) => r matches Ok(u) && u == s,
                None => r is Err,
            },
    {
        if str_eq(spec, "DD") {
            Ok(UnmergedState::Deleted(Changer::Both))
        } else if str_eq(spec, "AU") {
            Ok(UnmergedState::Added(Changer::Us))
        } else if str_eq(spec, "UD") {
            Ok(UnmergedState::Deleted(Changer::Them))
        } else if str_eq(spec, "UA") {
            Ok(UnmergedState::Added(Changer::Them))
        } else if str_eq(spec, "DU") {
            Ok(UnmergedState::Deleted(Changer::Us))
        } else if str_eq(spec, "AA") {
            Ok(UnmergedState::Added(Changer::Both))
        } else if str_eq(spec, "UU") {
            Ok(UnmergedState::BothModified)
        } else {
            Err(UnmergedStateParseError::UnhandledString)
        }
    }
}

impl std::str::FromStr for UnmergedState {
    type Err = UnmergedStateParseError;

    fn from_str(spec: &str) -> (r: Result<Self, Self::Err>)
        ensures
            match unmerged_code_spec(spec@) {
                Some(s) => r matches Ok(u) && u == s,
                None => r is Err,
            },
    {
        UnmergedState::parse(spec)
    }
}

/// The staged and working-tree statuses of a two-character code.
pub open spec fn location_pair_spec(spec: Seq<char>) -> Option<
    (EntryLocationStatus, EntryLocationStatus),
> {
    if spec.len() == 2 && location_code_spec(spec[0]) is Some && location_code_spec(spec[1]) is Some {
        Some((location_code_spec(spec[0])->0, location_code_spec(spec[1])->0))
    } else {
        None
    }
}

/// Parse the staged and working-tree statuses of a two-character code, which must be
/// known codes.
pub fn parse_location_status(spec: &str) -> (r: (EntryLocationStatus, EntryLocationStatus))
    requires
        location_pair_spec(spec@) is Some,
    ensures
        Some(r) == location_pair_spec(spec@),
{
    let staged = EntryLocationStatus::from_code(spec.get_char(0));
    let tree = EntryLocationStatus::from_code(spec.get_char(1));
    (staged.unwrap(), tree.unwrap())
}

/// The state of a `git status` entry.
#[derive(Debug, Copy, Clone, PartialEq, Eq)]
pub enum EntryState<'a> {
    Untracked,
    Ignored,
    Changed { staged_status: EntryLocationStatus, tree_status: EntryLocationStatus },
    Renamed {
        staged_status: EntryLocationStatus,
        tree_status: EntryLocationStatus,
        old_filename: &'a str,
    },
    Unmerged { state: UnmergedState },
}

/// One entry of `git status`.
#[derive(Debug, Copy, Clone, PartialEq, Eq)]
pub struct StatusEntry<'a> {
    pub state: EntryState<'a>,
    pub filename: &'a str,
}

/// The abstract state of an entry, with names as character sequences.
pub enum EntryStateView {
    Untracked,
    Ignored,
    Changed { staged_status: EntryLocationStatus, tree_status: EntryLocationStatus },
    Renamed {
        staged_status: EntryLocationStatus,
        tree_status: EntryLocationStatus,
        old_filename: Seq<char>,
    },
    Unmerged { state: UnmergedState },
}

/// The abstract value of a [`StatusEntry`].
pub struct StatusEntryView {
    pub state: EntryStateView,
    pub filename: Seq<char>,
}

impl<'a> View for EntryState<'a> {
    type V = EntryStateView;

    open spec fn view(&self) -> EntryStateView {
        match *self {
            EntryState::Untracked => EntryStateView::Untracked,
            EntryState::Ignored => EntryStateView::Ignored,
            EntryState::Changed { staged_status, tree_status } => EntryStateView::Changed {
                staged_status,
                tree_status,
            },
            EntryState::Renamed { staged_status, tree_status, old_filename } => EntryStateView::Renamed {
                staged_status,
                tree_status,
                old_filename: old_filename@,
            },
            EntryState::Unmerged { state } => EntryStateView::Unmerged { state },
        }
    }
}

impl<'a> View for StatusEntry<'a> {
    type V = StatusEntryView;

    open spec fn view(&self) -> StatusEntryView {
        StatusEntryView { state: self.state@, filename: self.filename@ }
    }
}

/// The character that shows how an entry stands in the index.
pub open spec fn track_char_spec(state: EntryStateView) -> Seq<char> {
    match state {
        EntryStateView::Untracked => "?"@,
        EntryStateView::Ignored => "!"@,
        EntryStateView::Changed { staged_status, .. } => match staged_status {
            EntryLocationStatus::Added => "+"@,
            EntryLocationStatus::Deleted => "-"@,
            _ => " "@,
        },
        EntryStateView::Renamed { .. } => "R"@,
        EntryStateView::Unmerged { .. } => "C"@,
    }
}

/// The character that shows how an entry stands on disk.
pub open spec fn disk_char_spec(state: EntryStateView) -> Seq<char> {
    match state {
        EntryStateView::Untracked => "?"@,
        EntryStateView::Ignored => "!"@,
        EntryStateView::Changed { staged_status, tree_status } => if tree_status
            == EntryLocationStatus::Deleted {
            "D"@
        } else if staged_status == EntryLocationStatus::Added {
            "A"@
        } else if staged_status == EntryLocationStatus::Modified {
            "M"@
        } else if tree_status == EntryLocationStatus::Modified {
            "M"@
        } else {
            " "@
        },
        EntryStateView::Renamed { tree_status, .. } => match tree_status {
            EntryLocationStatus::Unmodified => " "@,
            EntryLocationStatus::Modified => "M"@,
            _ => "$"@,
        },
        EntryStateView::Unmerged { state } => match state {
            UnmergedState::BothModified => "M"@,
            UnmergedState::Added(Changer::Both) => "A"@,
            UnmergedState::Added(Changer::Us) => "A"@,
            UnmergedState::Deleted(Changer::Both) => "D"@,
            UnmergedState::Deleted(Changer::Us) => "D"@,
            UnmergedState::Deleted(Changer::Them) => " "@,
            UnmergedState::Added(Changer::Them) => " "@,
        },
    }
}

/// The paths of an entry can be shown relative to `current_dir`.
pub open spec fn format_ok(e: StatusEntryView, current_dir: Seq<char>) -> bool {
    &&& relative_path_spec(current_dir, e.filename) is Some
    &&& (e.state matches EntryStateView::Renamed { old_filename, .. } ==> relative_path_spec(
        current_dir,
        old_filename,
    ) is Some)
}

/// The line that `status` shows for an entry.
pub open spec fn format_entry_spec(e: StatusEntryView, current_dir: Seq<char>) -> Seq<char> {
    let rename = match e.state {
        EntryStateView::Renamed { old_filename, .. } => relative_path_spec(
            current_dir,
            old_filename,
        )->0 + " -> "@,
        _ => Seq::empty(),
    };
    track_char_spec(e.state) + disk_char_spec(e.state) + " "@ + rename + relative_path_spec(
        current_dir,
        e.filename,
    )->0
}

impl<'a> StatusEntry<'a> {
    /// Format the entry for display: its index and disk status, and its path relative to
    /// `current_dir` (for a rename, the old path first).
    pub fn format_entry(&self, current_dir: &str) -> (r: String)
        requires
            format_ok(self@, current_dir@),
        ensures
            r@ == format_entry_spec(self@, current_dir@),
    {
        let track_char = match self.state {
            EntryState::Untracked => "?",
            EntryState::Ignored => "!",
            EntryState::Changed { staged_status, .. } => match staged_status {
                EntryLocationStatus::Added => "+",
                EntryLocationStatus::Deleted => "-",
                _ => " ",
            },
            EntryState::Renamed { .. } => "R",
            EntryState::Unmerged { .. } => "C",
        };
        let disk_char = match self.state {
            EntryState::Untracked => "?",
            EntryState::Ignored => "!",
            EntryState::Changed { staged_status, tree_status } => match (
                staged_status,
                tree_status,
            ) {
                (_, EntryLocationStatus::Deleted) => "D",
                (EntryLocationStatus::Added, _) => "A",
                (EntryLocationStatus::Modified, _) => "M",
                (_, EntryLocationStatus::Modified) => "M",
                _ => " ",
            },
            EntryState::Renamed { tree_status, .. } => match tree_status {
                EntryLocationStatus::Unmodified => " ",
                EntryLocationStatus::Modified => "M",
                _ => "$",
            },
            EntryState::Unmerged { state } => match state {
                UnmergedState::BothModified => "M",
                UnmergedState::Added(Changer::Both) | UnmergedState::Added(Changer::Us) => "A",
                UnmergedState::Deleted(Changer::Both) | UnmergedState::Deleted(Changer::Us) => "D",
                UnmergedState::Deleted(Changer::Them) | UnmergedState::Added(Changer::Them) => " ",
            },
        };
        let mut r = String::from_str(track_char);
        r.append(disk_char);
        r.append(" ");
        if let EntryState::Renamed { old_filename, .. } = self.state {
            match relative_path(current_dir, old_filename) {
                Ok(p) => {
                    r.append(p.as_str());
                },
                Err(_) => {},
            }
            r.append(" -> ");
        }
        match relative_path(current_dir, self.filename) {
            Ok(p) => {
                r.append(p.as_str());
            },
            Err(_) => {},
        }
        r
    }
}

/// A character in the ASCII range.
pub open spec fn is_ascii_char(c: char) -> bool {
    (c as u32) < 128
}

/// The first `n` characters of `line` exist and are ASCII, so that byte and character
/// offsets agree up to `n`.
pub open spec fn ascii_prefix(line: Seq<char>, n: int) -> bool {
    line.len() >= n && forall|k: int| 0 <= k < n ==> is_ascii_char(#[trigger] line[k])
}

/// The line can be split after its second byte.
pub open spec fn head_split_ok(line: Seq<char>) -> bool {
    ascii_prefix(line, 2) || (line.len() >= 1 && 0x80 <= (line[0] as u32) < 0x800)
}

/// The kinds of `git status --porcelain=v2` lines.
#[derive(Debug, Copy, Clone, PartialEq, Eq, Structural)]
pub enum StatusLineKind {
    Untracked,
    Ignored,
    Changed,
    Renamed,
    Unmerged,
    Skipped,
}

/// The kind of a status line, by its first two bytes.
pub open spec fn line_kind(line: Seq<char>) -> StatusLineKind {
    if !ascii_prefix(line, 2) {
        StatusLineKind::Skipped
    } else {
        let h = line.take(2);
        if h == "? "@ {
            StatusLineKind::Untracked
        } else if h == "! "@ {
            StatusLineKind::Ignored
        } else if h == "1 "@ {
            StatusLineKind::Changed
        } else if h == "2 "@ {
            StatusLineKind::Renamed
        } else if h == "u "@ {
            StatusLineKind::Unmerged
        } else {
            StatusLineKind::Skipped
        }
    }
}

/// A status line that can be parsed; a rename line needs the line after it, which
/// holds the old name.
pub open spec fn line_ok(line: Seq<char>, has_next: bool) -> bool {
    &&& head_split_ok(line)
    &&& match line_kind(line) {
        StatusLineKind::Changed => ascii_prefix(line, 113) && location_pair_spec(
            line.subrange(2, 4),
        ) is Some,
        StatusLineKind::Renamed => {
            &&& ascii_prefix(line, 113)
            &&& location_pair_spec(line.subrange(2, 4)) is Some
            &&& split_once_spec(line.skip(113), " "@) is Some
            &&& has_next
        },
        StatusLineKind::Unmerged => ascii_prefix(line, 161) && unmerged_code_spec(
            line.subrange(2, 4),
        ) is Some,
        _ => true,
    }
}

/// How many lines a status line takes: a rename takes the following line too.
pub open spec fn line_step(line: Seq<char>) -> int {
    if line_kind(line) == StatusLineKind::Renamed {
        2
    } else {
        1
    }
}

/// The entry that a status line stands for (`next` is the line after it).
pub open spec fn line_entry(line: Seq<char>, next: Seq<char>) -> StatusEntryView {
    match line_kind(line) {
        StatusLineKind::Untracked => StatusEntryView {
            state: EntryStateView::Untracked,
            filename: line.skip(2),
        },
        StatusLineKind::Ignored => StatusEntryView {
            state: EntryStateView::Ignored,
            filename: line.skip(2),
        },
        StatusLineKind::Changed => StatusEntryView {
            state: EntryStateView::Changed {
                staged_status: (location_pair_spec(line.subrange(2, 4))->0).0,
                tree_status: (location_pair_spec(line.subrange(2, 4))->0).1,
            },
            filename: line.skip(113),
        },
        StatusLineKind::Renamed => StatusEntryView {
            state: EntryStateView::Renamed {
                staged_status: (location_pair_spec(line.subrange(2, 4))->0).0,
                tree_status: (location_pair_spec(line.subrange(2, 4))->0).1,
                old_filename: next,
            },
            filename: (split_once_spec(line.skip(113), " "@)->0).1,
        },
        _ => StatusEntryView {
            state: EntryStateView::Unmerged {
                state: unmerged_code_spec(line.subrange(2, 4))->0,
            },
            filename: line.skip(161),
        },
    }
}

/// The index of the line after the one at `k` and those it takes.
pub open spec fn advance(lines: Seq<Seq<char>>, k: int) -> int {
    let j = k + line_step(lines[k]);
    if j > lines.len() {
        lines.len() as int
    } else {
        j
    }
}

/// Every line from `pos` on, taken in steps, can be parsed.
pub open spec fn all_ok(lines: Seq<Seq<char>>, pos: int) -> bool
    decreases lines.len() - pos,
{
    if pos < 0 || pos >= lines.len() {
        true
    } else {
        line_ok(lines[pos], pos + 1 < lines.len()) && all_ok(lines, advance(lines, pos))
    }
}

/// The index of the first line from `pos` on that is not skipped.
pub open spec fn next_index(lines: Seq<Seq<char>>, pos: int) -> int
    decreases lines.len() - pos,
{
    if pos < 0 || pos >= lines.len() {
        lines.len() as int
    } else if line_kind(lines[pos]) == StatusLineKind::Skipped {
        next_index(lines, pos + 1)
    } else {
        pos
    }
}

/// The next unskipped line is at or after `pos`, and within the lines or just past them.
pub proof fn lemma_next_index_bounds(lines: Seq<Seq<char>>, pos: int)
    requires
        0 <= pos,
    ensures
        pos <= next_index(lines, pos) || pos > lines.len(),
        next_index(lines, pos) <= lines.len(),
    decreases lines.len() - pos,
{
    if pos < lines.len() && line_kind(lines[pos]) == StatusLineKind::Skipped {
        lemma_next_index_bounds(lines, pos + 1);
    }
}

/// The line after `k`, or nothing.
pub open spec fn line_after(lines: Seq<Seq<char>>, k: int) -> Seq<char> {
    if k + 1 < lines.len() {
        lines[k + 1]
    } else {
        Seq::empty()
    }
}

/// The entries that the lines from `pos` on stand for.
pub open spec fn entries_from(lines: Seq<Seq<char>>, pos: int) -> Seq<StatusEntryView>
    decreases lines.len() - pos,
{
    if pos < 0 || pos >= lines.len() {
        Seq::empty()
    } else {
        let k = next_index(lines, pos);
        if k >= lines.len() || k < pos {
            Seq::empty()
        } else {
            seq![line_entry(lines[k], line_after(lines, k))] + entries_from(lines, advance(lines, k))
        }
    }
}

/// The lines from `pos` on that are neither entries nor headers (`# ` lines), in order,
/// taking the lines in the steps that iterating does.
pub open spec fn unhandled_from(lines: Seq<Seq<char>>, pos: int) -> Seq<Seq<char>>
    decreases lines.len() - pos,
{
    if pos < 0 || pos >= lines.len() {
        Seq::empty()
    } else if line_kind(lines[pos]) == StatusLineKind::Skipped {
        (if "# "@.is_prefix_of(lines[pos]) {
            Seq::empty()
        } else {
            seq![lines[pos]]
        }) + unhandled_from(lines, pos + 1)
    } else {
        unhandled_from(lines, advance(lines, pos))
    }
}

/// The messages that iterating over status lines gives for lines it does not handle.
pub open spec fn unhandled_messages(lines: Seq<Seq<char>>) -> Seq<Seq<char>> {
    unhandled_from(lines, 0).map_values(|l: Seq<char>| "Unhandled: "@ + l)
}

/// An iterator over the entries of `git status --porcelain=v2 -z` output.
pub struct StatusIter<'a> {
    raw_entries: Vec<&'a str>,
    pos: usize,
}

impl<'a> StatusIter<'a> {
    /// The NUL-separated lines being iterated over.
    pub closed spec fn lines(&self) -> Seq<Seq<char>> {
        views(self.raw_entries@)
    }

    /// The index of the next line to look at.
    pub closed spec fn position(&self) -> int {
        self.pos as int
    }

    /// The lines left can all be parsed.
    pub open spec fn well_formed(&self) -> bool {
        all_ok(self.lines(), self.position())
    }

    /// The entries left.
    pub open spec fn remaining(&self) -> Seq<StatusEntryView> {
        entries_from(self.lines(), self.position())
    }

    /// An iterator over the NUL-terminated lines of `text`.
    pub fn new(text: &'a str) -> (r: StatusIter<'a>)
        ensures
            r.lines() == split_terminator_spec(text@, '\0'),
            r.position() == 0,
    {
        StatusIter { raw_entries: split_terminator(text, '\0'), pos: 0 }
    }

    /// Whether the lines left can all be parsed.
    pub fn is_well_formed(&self) -> (b: bool)
        ensures
            b == self.well_formed(),
    {
        let n = self.raw_entries.len();
        let mut j: usize = self.pos;
        while j < n
            invariant
                n == self.lines().len(),
                self.position() <= j,
                all_ok(self.lines(), self.position()) == all_ok(self.lines(), j as int),
            decreases n - j,
        {
            let line = self.raw_entries[j];
            proof {
                assert(self.lines()[j as int] == line@);
            }
            if !line_ok_exec(line, j + 1 < n) {
                return false;
            }
            if line_kind_exec(line) == StatusLineKind::Renamed {
                j = j + 2;
            } else {
                j = j + 1;
            }
        }
        true
    }

    /// The messages for the lines left that are neither entries nor headers: `Unhandled: `
    /// and the line.
    pub fn unhandled(&self) -> (r: Vec<String>)
        ensures
            string_views(r@) == unhandled_from(self.lines(), self.position()).map_values(
                |l: Seq<char>| "Unhandled: "@ + l,
            ),
    {
        let ghost lines = self.lines();
        let ghost start = self.position();
        let n = self.raw_entries.len();
        let mut r: Vec<String> = Vec::new();
        let mut j: usize = self.pos;
        while j < n
            invariant
                n == lines.len(),
                lines == self.lines(),
                start <= j || start >= n,
                string_views(r@) + unhandled_from(lines, j as int).map_values(|l: Seq<char>| "Unhandled: "@ + l)
                    == unhandled_from(lines, start).map_values(|l: Seq<char>| "Unhandled: "@ + l),
            decreases n - j,
        {
            let line = self.raw_entries[j];
            proof {
                assert(lines[j as int] == line@);
                reveal_strlit("# ");
            }
            let ghost before = string_views(r@);
            let ghost rest = unhandled_from(lines, j as int);
            if line_kind_exec(line) == StatusLineKind::Skipped {
                if !starts_with(line, "# ") {
                    let mut m = String::from_str("Unhandled: ");
                    m.append(line);
                    r.push(m);
                    proof {
                        assert(rest == seq![line@] + unhandled_from(lines, j + 1));
                        assert(string_views(r@) =~= before.push(m@));
                        assert(rest.map_values(|l: Seq<char>| "Unhandled: "@ + l) =~= seq![m@]
                            + unhandled_from(lines, j + 1).map_values(|l: Seq<char>| "Unhandled: "@ + l));
                        assert(string_views(r@) + unhandled_from(lines, j + 1).map_values(
                            |l: Seq<char>| "Unhandled: "@ + l,
                        ) =~= before + rest.map_values(|l: Seq<char>| "Unhandled: "@ + l));
                    }
                } else {
                    proof {
                        assert(rest =~= unhandled_from(lines, j + 1));
                    }
                }
                j = j + 1;
            } else {
                let step: usize = if line_kind_exec(line) == StatusLineKind::Renamed { 2 } else { 1 };
                if step > n - j {
                    j = n;
                } else {
                    j = j + step;
                }
                proof {
                    assert(unhandled_from(lines, j as int) == rest);
                }
            }
        }
        proof {
            assert(unhandled_from(lines, j as int) =~= Seq::<Seq<char>>::empty());
            assert(string_views(r@) =~= string_views(r@) + Seq::<Seq<char>>::empty().map_values(
                |l: Seq<char>| "Unhandled: "@ + l,
            ));
            if start >= n {
                assert(unhandled_from(lines, start) =~= Seq::<Seq<char>>::empty());
            }
        }
        r
    }

    /// The next entry, skipping header and unknown lines.
    pub fn next_entry(&mut self) -> (r: Option<StatusEntry<'a>>)
        requires
            old(self).well_formed(),
        ensures
            final(self).lines() == old(self).lines(),
            final(self).well_formed(),
            old(self).remaining().len() == 0 ==> (r is None && final(self).remaining().len() == 0),
            old(self).remaining().len() > 0 ==> (r matches Some(e) && e@ == old(self).remaining()[0]
                && final(self).remaining() == old(self).remaining().drop_first()),
    {
        let ghost lines0 = self.lines();
        let ghost pos0 = self.position();
        let n = self.raw_entries.len();
        while self.pos < n
            invariant
                n == lines0.len(),
                self.lines() == lines0,
                lines0 == old(self).lines(),
                pos0 == old(self).position(),
                pos0 <= self.position(),
                all_ok(lines0, pos0) ==> all_ok(lines0, self.position()),
                all_ok(lines0, pos0),
                next_index(lines0, pos0) == next_index(lines0, self.position()),
                entries_from(lines0, pos0) == entries_from(lines0, self.position()),
            decreases n - self.pos,
        {
            let line = self.raw_entries[self.pos];
            proof {
                assert(lines0[self.position()] == line@);
            }
            let kind = line_kind_exec(line);
            if kind != StatusLineKind::Skipped {
                let has_next = self.pos + 1 < n;
                let next: &'a str = if has_next {
                    self.raw_entries[self.pos + 1]
                } else {
                    ""
                };
                proof {
                    if has_next {
                        assert(lines0[self.position() + 1] == next@);
                    } else {
                        reveal_strlit("");
                        assert(next@ =~= Seq::<char>::empty());
                    }
                }
                let e = parse_status_line(line, next, has_next);
                let ghost p = self.position();
                if kind == StatusLineKind::Renamed {
                    self.pos = self.pos + 2;
                } else {
                    self.pos = self.pos + 1;
                }
                proof {
                    assert(self.lines() == lines0);
                    assert(next_index(lines0, p) == p);
                    assert(self.position() == advance(lines0, p));
                    assert(line_after(lines0, p) == next@);
                    assert(entries_from(lines0, p) == seq![line_entry(lines0[p], next@)]
                        + entries_from(lines0, advance(lines0, p)));
                    assert(entries_from(lines0, p).drop_first() =~= entries_from(lines0, advance(lines0, p)));
                }
                return Some(e);
            }
            proof {
                let p = self.position();
                lemma_next_index_bounds(lines0, p + 1);
                assert(next_index(lines0, p) == next_index(lines0, p + 1));
                assert(entries_from(lines0, p) == entries_from(lines0, p + 1));
            }
            self.pos = self.pos + 1;
        }
        None
    }
}

/// The kind of a status line.
fn line_kind_exec(line: &str) -> (k: StatusLineKind)
    ensures
        k == line_kind(line@),
{
    let cs = chars_of(line);
    if !ascii_prefix_exec(&cs, 2) {
        return StatusLineKind::Skipped;
    }
    let h = line.substring_char(0, 2);
    if str_eq(h, "? ") {
        StatusLineKind::Untracked
    } else if str_eq(h, "! ") {
        StatusLineKind::Ignored
    } else if str_eq(h, "1 ") {
        StatusLineKind::Changed
    } else if str_eq(h, "2 ") {
        StatusLineKind::Renamed
    } else if str_eq(h, "u ") {
        StatusLineKind::Unmerged
    } else {
        StatusLineKind::Skipped
    }
}

/// Whether the first `n` characters exist and are ASCII.
fn ascii_prefix_exec(cs: &Vec<char>, n: usize) -> (b: bool)
    ensures
        b == ascii_prefix(cs@, n as int),
{
    if cs.len() < n {
        return false;
    }
    let mut k: usize = 0;
    while k < n
        invariant
            n <= cs@.len(),
            k <= n,
            forall|m: int| 0 <= m < k ==> is_ascii_char(#[trigger] cs@[m]),
        decreases n - k,
    {
        if (cs[k] as u32) >= 128 {
            return false;
        }
        k = k + 1;
    }
    true
}

/// Whether a status line can be parsed.
fn line_ok_exec(line: &str, has_next: bool) -> (b: bool)
    ensures
        b == line_ok(line@, has_next),
{
    let cs = chars_of(line);
    let n = cs.len();
    let split_ok = ascii_prefix_exec(&cs, 2) || (n >= 1 && 0x80 <= (cs[0] as u32) && (cs[0] as u32)
        < 0x800);
    if !split_ok {
        return false;
    }
    match line_kind_exec(line) {
        StatusLineKind::Changed => {
            if !ascii_prefix_exec(&cs, 113) {
                return false;
            }
            let code = line.substring_char(2, 4);
            let ok = location_pair_ok(code);
            ok
        },
        StatusLineKind::Renamed => {
            if !ascii_prefix_exec(&cs, 113) {
                return false;
            }
            let code = line.substring_char(2, 4);
            if !location_pair_ok(code) {
                return false;
            }
            let score = line.substring_char(113, n);
            match split_once(score, " ") {
                Some(_) => has_next,
                None => false,
            }
        },
        StatusLineKind::Unmerged => {
            if !ascii_prefix_exec(&cs, 161) {
                return false;
            }
            let code = line.substring_char(2, 4);
            match UnmergedState::parse(code) {
                Ok(_) => true,
                Err(_) => false,
            }
        },
        _ => true,
    }
}

/// Whether a two-character code holds two known status codes.
fn location_pair_ok(code: &str) -> (b: bool)
    ensures
        b == (location_pair_spec(code@) is Some),
{
    if code.unicode_len() != 2 {
        return false;
    }
    let a = EntryLocationStatus::from_code(code.get_char(0));
    let b = EntryLocationStatus::from_code(code.get_char(1));
    a.is_some() && b.is_some()
}

/// Parse one status line that is not skipped.
fn parse_status_line<'a>(line: &'a str, next: &'a str, has_next: bool) -> (e: StatusEntry<'a>)
    requires
        line_ok(line@, has_next),
        line_kind(line@) != StatusLineKind::Skipped,
    ensures
        e@ == line_entry(line@, next@),
{
    let n = line.unicode_len();
    let kind = line_kind_exec(line);
    match kind {
        StatusLineKind::Untracked => StatusEntry {
            state: EntryState::Untracked,
            filename: line.substring_char(2, n),
        },
        StatusLineKind::Ignored => StatusEntry {
            state: EntryState::Ignored,
            filename: line.substring_char(2, n),
        },
        StatusLineKind::Changed => {
            let (staged_status, tree_status) = parse_location_status(line.substring_char(2, 4));
            StatusEntry {
                state: EntryState::Changed { staged_status, tree_status },
                filename: line.substring_char(113, n),
            }
        },
        StatusLineKind::Renamed => {
            let (staged_status, tree_status) = parse_location_status(line.substring_char(2, 4));
            let score = line.substring_char(113, n);
            let filename = match split_once(score, " ") {
                Some((_, rest)) => rest,
                None => score,
            };
            StatusEntry {
                state: EntryState::Renamed { staged_status, tree_status, old_filename: next },
                filename,
            }
        },
        _ => {
            let state = match UnmergedState::parse(line.substring_char(2, 4)) {
                Ok(s) => s,
                Err(_) => UnmergedState::BothModified,
            };
            StatusEntry {
                state: EntryState::Unmerged { state },
                filename: line.substring_char(161, n),
            }
        },
    }
}

/// The digits of a decimal number.
pub open spec fn all_digits(s: Seq<char>) -> bool {
    s.len() > 0 && forall|k: int| 0 <= k < s.len() ==> '0' <= #[trigger] s[k] <= '9'
}

/// The value of a string of decimal digits.
pub open spec fn digits_value(s: Seq<char>) -> nat
    decreases s.len(),
{
    if s.len() == 0 {
        0
    } else {
        digits_value(s.drop_last()) * 10 + ((s.last() as u32) - ('0' as u32)) as nat
    }
}

/// What `u16::from_str` gives: an optional `+`, then decimal digits of a value that fits.
pub open spec fn parse_u16_spec(s: Seq<char>) -> Option<u16> {
    let d = if s.len() > 0 && s[0] == '+' {
        s.skip(1)
    } else {
        s
    };
    if all_digits(d) && digits_value(d) <= 65535 {
        Some(digits_value(d) as u16)
    } else {
        None
    }
}

proof fn lemma_digits_value_prefix(s: Seq<char>, j: int)
    requires
        0 <= j <= s.len(),
        forall|k: int| 0 <= k < s.len() ==> '0' <= #[trigger] s[k] <= '9',
    ensures
        digits_value(s.take(j)) <= digits_value(s),
    decreases s.len(),
{
    if j < s.len() {
        assert(s.drop_last().take(j) =~= s.take(j));
        assert forall|k: int| 0 <= k < s.drop_last().len() implies '0' <= #[trigger] s.drop_last()[k]
            <= '9' by {
            assert(s.drop_last()[k] == s[k]);
        }
        lemma_digits_value_prefix(s.drop_last(), j);
    } else {
        assert(s.take(j) =~= s);
    }
}

/// Parse a `u16` as `u16::from_str` does.
pub fn parse_u16(s: &str) -> (r: Option<u16>)
    ensures
        r == parse_u16_spec(s@),
{
    let cs = chars_of(s);
    let n = cs.len();
    let start: usize = if n > 0 && cs[0] == '+' {
        1
    } else {
        0
    };
    let ghost d = s@.skip(start as int);
    proof {
        assert(s@.skip(0) =~= s@);
        assert(d == (if s@.len() > 0 && s@[0] == '+' {
            s@.skip(1)
        } else {
            s@
        }));
    }
    if start >= n {
        return None;
    }
    let mut value: u32 = 0;
    let mut i: usize = start;
    while i < n
        invariant
            cs@ == s@,
            n == cs@.len(),
            start <= i <= n,
            start < n,
            d == s@.skip(start as int),
            parse_u16_spec(s@) == (if all_digits(d) && digits_value(d) <= 65535 {
                Some(digits_value(d) as u16)
            } else {
                None
            }),
            value <= 65535,
            value == digits_value(d.take(i - start)),
            forall|k: int| 0 <= k < i - start ==> '0' <= #[trigger] d[k] <= '9',
        decreases n - i,
    {
        let c = cs[i];
        proof {
            assert(d[i - start] == c);
        }
        if c < '0' || c > '9' {
            proof {
                assert(!all_digits(d));
            }
            return None;
        }
        let next = value * 10 + ((c as u32) - ('0' as u32));
        proof {
            assert(d.take(i + 1 - start).drop_last() =~= d.take(i - start));
        }
        if next > 65535 {
            proof {
                if all_digits(d) {
                    lemma_digits_value_prefix(d, i + 1 - start);
                }
            }
            return None;
        }
        value = next;
        i = i + 1;
    }
    proof {
        assert(d.take(n - start) =~= d);
        assert(all_digits(d));
    }
    Some(value as u16)
}

/// Where the current branch's upstream stands: how many commits each side has that the
/// other lacks.
#[derive(Debug, PartialEq, Eq)]
pub struct UpstreamInfo {
    pub name: String,
    pub added: u16,
    pub removed: u16,
}

/// The name of the upstream in a `# branch.upstream` line, if it is one.
pub open spec fn upstream_name_spec(line: Seq<char>) -> Option<Seq<char>> {
    match split_once_spec(line, "# branch.upstream "@) {
        Some((pre, name)) => if pre.len() == 0 {
            Some(name)
        } else {
            None
        },
        None => None,
    }
}

/// The ahead/behind counts of a `# branch.ab +<added> -<removed>` line.
pub open spec fn ab_counts_spec(line: Seq<char>) -> Option<(u16, u16)> {
    match split_once_spec(line, "# branch.ab "@) {
        Some((_, commits)) => match split_once_spec(commits, " "@) {
            Some((a, r)) => if a.len() >= 1 && a[0] == '+' && r.len() >= 1 && r[0] == '-'
                && parse_u16_spec(a.skip(1)) is Some && parse_u16_spec(r.skip(1)) is Some {
                Some((parse_u16_spec(a.skip(1))->0, parse_u16_spec(r.skip(1))->0))
            } else {
                None
            },
            None => None,
        },
        None => None,
    }
}

/// The upstream lines can be read: when the first names an upstream, a well-formed
/// ahead/behind line follows.
pub open spec fn upstream_ok(lines: Seq<Seq<char>>) -> bool {
    (lines.len() > 0 && upstream_name_spec(lines[0]) is Some) ==> (lines.len() > 1
        && ab_counts_spec(lines[1]) is Some)
}

impl UpstreamInfo {
    /// Read the upstream information from the status header lines that follow the
    /// branch name; `None` when they name no upstream.
    pub fn factory(raw_entries: &[&str]) -> (r: Option<UpstreamInfo>)
        requires
            upstream_ok(views(raw_entries@)),
        ensures
            match (if raw_entries@.len() > 0 {
                upstream_name_spec(raw_entries@[0]@)
            } else {
                None
            }) {
                Some(name) => r matches Some(u) && u.name@ == name && (u.added, u.removed)
                    == ab_counts_spec(raw_entries@[1]@)->0,
                None => r is None,
            },
    {
        if raw_entries.len() == 0 {
            return None;
        }
        proof {
            assert(views(raw_entries@)[0] == raw_entries@[0]@);
        }
        let name = match split_once(raw_entries[0], "# branch.upstream ") {
            Some((pre, name)) => {
                if pre.unicode_len() == 0 {
                    name.to_owned()
                } else {
                    return None;
                }
            },
            None => {
                return None;
            },
        };
        proof {
            assert(views(raw_entries@)[1] == raw_entries@[1]@);
        }
        let branch_info = raw_entries[1];
        let (added, removed) = ab_counts(branch_info).unwrap();
        Some(UpstreamInfo { name, added, removed })
    }
}

/// Read the counts of a `# branch.ab` line.
fn ab_counts(line: &str) -> (r: Option<(u16, u16)>)
    ensures
        r == ab_counts_spec(line@),
{
    let (_, commits) = match split_once(line, "# branch.ab ") {
        Some(p) => p,
        None => {
            return None;
        },
    };
    let (added_str, removed_str) = match split_once(commits, " ") {
        Some(p) => p,
        None => {
            return None;
        },
    };
    let an = added_str.unicode_len();
    let rn = removed_str.unicode_len();
    if an < 1 || rn < 1 || added_str.get_char(0) != '+' || removed_str.get_char(0) != '-' {
        return None;
    }
    let added = parse_u16(added_str.substring_char(1, an));
    let removed = parse_u16(removed_str.substring_char(1, rn));
    match (added, removed) {
        (Some(a), Some(r)) => Some((a, r)),
        _ => None,
    }
}

/// Whether the upstream lines can be read.
fn upstream_ok_exec(lines: &[&str]) -> (b: bool)
    ensures
        b == upstream_ok(views(lines@)),
{
    if lines.len() == 0 {
        return true;
    }
    proof {
        assert(views(lines@)[0] == lines@[0]@);
    }
    let named = match split_once(lines[0], "# branch.upstream ") {
        Some((pre, _)) => pre.unicode_len() == 0,
        None => false,
    };
    if !named {
        return true;
    }
    if lines.len() < 2 {
        return false;
    }
    proof {
        assert(views(lines@)[1] == lines@[1]@);
    }
    ab_counts(lines[1]).is_some()
}

/// The commit that a branch is at.
#[derive(Debug, PartialEq, Eq)]
pub enum BranchCommit {
    Initial,
    Oid(String),
}

/// The head of the working tree.
#[derive(PartialEq, Debug, Eq)]
pub enum WorktreeHead {
    Detached(String),
    Attached { commit: BranchCommit, head: LocalBranchName, upstream: Option<UpstreamInfo> },
}

/// The value after `key` on a line that starts with `key`.
pub open spec fn header_value(line: Seq<char>, key: Seq<char>) -> Option<Seq<char>> {
    match split_once_spec(line, key) {
        Some((pre, v)) => if pre.len() == 0 {
            Some(v)
        } else {
            None
        },
        None => None,
    }
}

/// The status header can be read: it is empty, or it starts with the `# branch.oid` and
/// `# branch.head` lines, followed on a branch by readable upstream lines.
pub open spec fn head_ok(lines: Seq<Seq<char>>) -> bool {
    lines.len() > 0 ==> {
        &&& header_value(lines[0], "# branch.oid "@) is Some
        &&& lines.len() > 1
        &&& header_value(lines[1], "# branch.head "@) is Some
        &&& (header_value(lines[1], "# branch.head "@)->0 != "(detached)"@ ==> upstream_ok(
            lines.skip(2),
        ))
    }
}

/// The upstream that the lines after the head name, if any.
pub open spec fn upstream_spec(lines: Seq<Seq<char>>) -> Option<(Seq<char>, (u16, u16))> {
    if lines.len() > 0 && upstream_name_spec(lines[0]) is Some {
        Some((upstream_name_spec(lines[0])->0, ab_counts_spec(lines[1])->0))
    } else {
        None
    }
}

/// The head that a status header stands for.
pub open spec fn worktree_head_matches(h: WorktreeHead, lines: Seq<Seq<char>>) -> bool {
    if lines.len() == 0 {
        h matches WorktreeHead::Attached { commit: BranchCommit::Initial, head, upstream: Some(u) }
            && head@ == (LocalBranchNameView { name: Seq::empty(), is_shorthand: None })
            && u.name@ == Seq::<char>::empty() && u.added == 0 && u.removed == 0
    } else {
        let oid = header_value(lines[0], "# branch.oid "@)->0;
        let head = header_value(lines[1], "# branch.head "@)->0;
        if head == "(detached)"@ {
            h matches WorktreeHead::Detached(o) && o@ == oid
        } else {
            h matches WorktreeHead::Attached { commit: BranchCommit::Oid(o), head: b, upstream }
                && o@ == oid && b@ == (LocalBranchNameView { name: head, is_shorthand: None })
                && match upstream_spec(lines.skip(2)) {
                Some((name, (added, removed))) => upstream matches Some(u) && u.name@ == name
                    && u.added == added && u.removed == removed,
                None => upstream is None,
            }
        }
    }
}

/// The value after `key` on a line that starts with it.
fn header_value_exec<'a>(line: &'a str, key: &str) -> (r: Option<&'a str>)
    ensures
        match header_value(line@, key@) {
            Some(v) => r matches Some(s) && s@ == v,
            None => r is None,
        },
{
    match split_once(line, key) {
        Some((pre, v)) => if pre.unicode_len() == 0 {
            Some(v)
        } else {
            None
        },
        None => None,
    }
}

/// Read the head of the working tree from the header lines of `git status --branch`.
pub fn make_worktree_head(raw_entries: &[&str]) -> (r: WorktreeHead)
    requires
        head_ok(views(raw_entries@)),
    ensures
        worktree_head_matches(r, views(raw_entries@)),
{
    let ghost vs = views(raw_entries@);
    if raw_entries.len() > 0 {
        proof {
            assert(vs[0] == raw_entries@[0]@);
            assert(vs[1] == raw_entries@[1]@);
        }
        let oid = header_value_exec(raw_entries[0], "# branch.oid ").unwrap();
        let head = header_value_exec(raw_entries[1], "# branch.head ").unwrap();
        if str_eq(head, "(detached)") {
            WorktreeHead::Detached(oid.to_owned())
        } else {
            let rest = slice_skip(raw_entries, 2);
            proof {
                assert(views(rest@) =~= vs.skip(2));
            }
            let upstream = UpstreamInfo::factory(rest);
            proof {
                if vs.skip(2).len() > 0 {
                    assert(vs.skip(2)[0] == rest@[0]@);
                }
                if vs.skip(2).len() > 1 {
                    assert(vs.skip(2)[1] == rest@[1]@);
                }
            }
            WorktreeHead::Attached {
                commit: BranchCommit::Oid(oid.to_owned()),
                head: LocalBranchName::new(head.to_owned(), None),
                upstream,
            }
        }
    } else {
        WorktreeHead::Attached {
            commit: BranchCommit::Initial,
            head: LocalBranchName::new(String::new(), None),
            upstream: Some(UpstreamInfo { name: String::new(), added: 0, removed: 0 }),
        }
    }
}

/// The lines of a slice from index `n` on.
fn slice_skip<'b, 'a>(s: &'b [&'a str], n: usize) -> (r: &'b [&'a str])
    requires
        n <= s@.len(),
    ensures
        r@ == s@.skip(n as int),
{
    &s[n..s.len()]
}

/// Whether the header of `git status --porcelain=v2 -z --branch` output can be read.
pub fn status_header_ok(text: &str) -> (b: bool)
    ensures
        b == head_ok(split_terminator_spec(text@, '\0')),
{
    let lines = split_terminator(text, '\0');
    let ghost vs = views(lines@);
    if lines.len() == 0 {
        return true;
    }
    proof {
        assert(vs[0] == lines@[0]@);
    }
    if header_value_exec(lines[0], "# branch.oid ").is_none() || lines.len() < 2 {
        return false;
    }
    proof {
        assert(vs[1] == lines@[1]@);
    }
    match header_value_exec(lines[1], "# branch.head ") {
        None => false,
        Some(head) => {
            if str_eq(head, "(detached)") {
                true
            } else {
                let rest = slice_skip(lines.as_slice(), 2);
                proof {
                    assert(views(rest@) =~= vs.skip(2));
                }
                upstream_ok_exec(rest)
            }
        },
    }
}

/// The names of the untracked entries, in order.
pub open spec fn untracked_names(es: Seq<StatusEntryView>) -> Seq<Seq<char>>
    decreases es.len(),
{
    if es.len() == 0 {
        Seq::empty()
    } else {
        let rest = untracked_names(es.drop_first());
        if es[0].state is Untracked {
            seq![es[0].filename] + rest
        } else {
            rest
        }
    }
}

/// The output of `git status --porcelain=v2 -z --branch`.
#[derive(Debug)]
pub struct GitStatus {
    outstr: String,
    pub head: WorktreeHead,
}

impl GitStatus {
    /// The text of the status output.
    pub closed spec fn text(&self) -> Seq<char> {
        self.outstr@
    }

    /// The head of the working tree.
    pub closed spec fn head_spec(&self) -> WorktreeHead {
        self.head
    }

    /// The head of the working tree.
    pub fn get_head(&self) -> (r: &WorktreeHead)
        ensures
            *r == self.head_spec(),
    {
        &self.head
    }

    /// The status lines.
    pub open spec fn status_lines(&self) -> Seq<Seq<char>> {
        split_terminator_spec(self.text(), '\0')
    }

    /// Read the status from the output of `git status --porcelain=v2 -z --branch`.
    pub fn from_output(outstr: String) -> (r: GitStatus)
        requires
            head_ok(split_terminator_spec(outstr@, '\0')),
        ensures
            r.text() == outstr@,
            worktree_head_matches(r.head_spec(), split_terminator_spec(outstr@, '\0')),
    {
        let lines = split_terminator(outstr.as_str(), '\0');
        let head = make_worktree_head(lines.as_slice());
        GitStatus { outstr, head }
    }

    /// Read the status from what `git status --porcelain=v2 -z --branch` gave back; known
    /// failures (not a repository, not a work tree) are reported as errors.
    pub fn new(result: Result<ProcessOutput, ProcessOutput>) -> (r: Result<GitStatus, GitError>)
        requires
            result matches Ok(o) ==> valid_utf8(o.stdout@) && head_ok(
                split_terminator_spec(output_text(o), '\0'),
            ),
            result matches Err(o) ==> git_error_kind(o.stderr@) != 2,
        ensures
            match result {
                Ok(o) => r matches Ok(s) && s.text() == output_text(o) && worktree_head_matches(
                    s.head_spec(),
                    split_terminator_spec(output_text(o), '\0'),
                ),
                Err(o) => r matches Err(e) && (git_error_kind(o.stderr@) == 0 ==> e is NotAGitRepository)
                    && (git_error_kind(o.stderr@) == 1 ==> e is NotAWorkTree),
            },
    {
        match result {
            Err(output) => Err(GitError::from_output(output)),
            Ok(output) => Ok(GitStatus::from_output(output_to_string(&output))),
        }
    }

    /// An iterator over the entries.
    pub fn iter(&self) -> (r: StatusIter<'_>)
        ensures
            r.lines() == self.status_lines(),
            r.position() == 0,
    {
        StatusIter::new(self.outstr.as_str())
    }

    /// The messages for the status lines that are neither entries nor headers, which
    /// iterating over the entries reports: `Unhandled: ` and the line.
    pub fn unhandled_report(&self) -> (r: Vec<String>)
        ensures
            string_views(r@) == unhandled_messages(self.status_lines()),
    {
        self.iter().unhandled()
    }

    /// The names of the untracked files.
    pub fn untracked_filenames(&self) -> (r: Vec<String>)
        requires
            all_ok(self.status_lines(), 0),
        ensures
            string_views(r@) == untracked_names(entries_from(self.status_lines(), 0)),
    {
        let mut it = self.iter();
        let mut r: Vec<String> = Vec::new();
        let ghost all = it.remaining();
        loop
            invariant
                it.well_formed(),
                all == entries_from(self.status_lines(), 0),
                string_views(r@) + untracked_names(it.remaining()) == untracked_names(all),
            ensures
                string_views(r@) == untracked_names(all),
            decreases it.remaining().len(),
        {
            match it.next_entry() {
                None => {
                    proof {
                        assert(it.remaining() =~= Seq::<StatusEntryView>::empty());
                        assert(untracked_names(it.remaining()) == Seq::<Seq<char>>::empty());
                        assert(string_views(r@) + Seq::<Seq<char>>::empty() =~= string_views(r@));
                    }
                    break;
                },
                Some(e) => {
                    if let EntryState::Untracked = e.state {
                        let name = e.filename.to_owned();
                        proof {
                            assert(string_views(r@.push(name)) =~= string_views(r@).push(name@));
                            assert(string_views(r@).push(name@) + untracked_names(it.remaining())
                                =~= string_views(r@) + (seq![name@] + untracked_names(
                                it.remaining(),
                            )));
                        }
                        r.push(name);
                    }
                },
            }
        }
        r
    }
}

/// A commit, by its id.
#[derive(Clone, Debug, PartialEq, Eq)]
pub struct Commit {
    pub sha: String,
}

/// The state of a working tree.
#[derive(Clone, Debug, PartialEq, Eq)]
pub enum WorktreeState {
    DetachedHead { head: Commit },
    UncommittedBranch { branch: LocalBranchName },
    CommittedBranch { branch: LocalBranchName, head: Commit },
}

/// One working tree of the repository.
#[derive(Clone, Debug, PartialEq, Eq)]
pub struct WorktreeListEntry {
    pub path: String,
    pub state: WorktreeState,
}

/// The commit id that stands for "no commit" in `git worktree list`.
pub open spec fn null_sha() -> Seq<char> {
    "0000000000000000000000000000000000000000"@
}

/// A group of `git worktree list --porcelain` lines can be read: the `worktree` and
/// `HEAD` lines hold their values after a fixed prefix; the third line names a local
/// branch, or else the worktree has a commit.
pub open spec fn worktree_group_ok(l0: Seq<char>, l1: Seq<char>, l2: Seq<char>) -> bool {
    &&& ascii_prefix(l0, 9)
    &&& ascii_prefix(l1, 5)
    &&& ascii_prefix(l2, 6)
    &&& if l2.take(6) == "branch"@ {
        ascii_prefix(l2, 7) && strip_prefix_spec(l2.skip(7), "refs/heads/"@) is Some
    } else {
        l1.skip(5) != null_sha()
    }
}

/// The lines of `git worktree list --porcelain` can be read, in groups of four.
pub open spec fn worktree_list_ok(ls: Seq<Seq<char>>) -> bool {
    &&& (ls.len() % 4 == 0 || ls.len() % 4 == 3)
    &&& forall|g: int|
        0 <= g && 4 * g < ls.len() ==> #[trigger] worktree_group_ok(
            ls[4 * g],
            ls[4 * g + 1],
            ls[4 * g + 2],
        )
}

/// The worktree that a group of lines stands for.
pub open spec fn worktree_entry_matches(
    e: WorktreeListEntry,
    l0: Seq<char>,
    l1: Seq<char>,
    l2: Seq<char>,
) -> bool {
    let head = l1.skip(5);
    &&& e.path@ == l0.skip(9)
    &&& if l2.take(6) == "branch"@ {
        let name = strip_prefix_spec(l2.skip(7), "refs/heads/"@)->0;
        if head == null_sha() {
            e.state matches WorktreeState::UncommittedBranch { branch } && branch@ == (
            LocalBranchNameView { name, is_shorthand: None })
        } else {
            e.state matches WorktreeState::CommittedBranch { branch, head: c } && branch@ == (
            LocalBranchNameView { name, is_shorthand: None }) && c.sha@ == head
        }
    } else {
        e.state matches WorktreeState::DetachedHead { head: c } && c.sha@ == head
    }
}

/// Parse the output of `git worktree list --porcelain`.
pub fn parse_worktree_list(lines_text: &str) -> (r: Vec<WorktreeListEntry>)
    requires
        worktree_list_ok(lines_spec(lines_text@)),
    ensures
        r@.len() == (lines_spec(lines_text@).len() + 3) / 4,
        forall|g: int|
            0 <= g < r@.len() ==> worktree_entry_matches(
                #[trigger] r@[g],
                lines_spec(lines_text@)[4 * g],
                lines_spec(lines_text@)[4 * g + 1],
                lines_spec(lines_text@)[4 * g + 2],
            ),
{
    let ls = lines(lines_text);
    let ghost vs = views(ls@);
    let n = ls.len();
    let mut r: Vec<WorktreeListEntry> = Vec::new();
    let groups: usize = n / 4 + if n % 4 != 0 {
        1
    } else {
        0
    };
    let mut g: usize = 0;
    while g < groups
        invariant
            n == ls@.len(),
            vs == views(ls@),
            vs == lines_spec(lines_text@),
            worktree_list_ok(vs),
            groups == n / 4 + if n % 4 != 0 {
                1int
            } else {
                0int
            },
            g <= groups,
            r@.len() == g,
            forall|g: int|
                0 <= g < r@.len() ==> worktree_entry_matches(
                    #[trigger] r@[g],
                    vs[4 * g],
                    vs[4 * g + 1],
                    vs[4 * g + 2],
                ),
        decreases groups - g,
    {
        let i = 4 * g;
        proof {
            assert(i + 2 < n);
            assert(worktree_group_ok(vs[4 * g], vs[4 * g + 1], vs[4 * g + 2]));
            assert(vs[i as int] == ls@[i as int]@);
            assert(vs[i + 1] == ls@[i + 1]@);
            assert(vs[i + 2] == ls@[i + 2]@);
        }
        let l0 = ls[i];
        let l1 = ls[i + 1];
        let l2 = ls[i + 2];
        let e = worktree_entry(l0, l1, l2);
        r.push(e);
        g = g + 1;
    }
    r
}

/// The worktree that a readable group of lines stands for.
fn worktree_entry(l0: &str, l1: &str, l2: &str) -> (e: WorktreeListEntry)
    requires
        worktree_group_ok(l0@, l1@, l2@),
    ensures
        worktree_entry_matches(e, l0@, l1@, l2@),
{
    let n0 = l0.unicode_len();
    let n1 = l1.unicode_len();
    let n2 = l2.unicode_len();
    let path = l0.substring_char(9, n0).to_owned();
    let head_str = l1.substring_char(5, n1);
    let is_null = str_eq(head_str, "0000000000000000000000000000000000000000");
    let state = if str_eq(l2.substring_char(0, 6), "branch") {
        let long = l2.substring_char(7, n2).to_owned();
        let branch = match LocalBranchName::from_long(long, None) {
            Ok(b) => b,
            Err(_) => LocalBranchName::new(String::new(), None),
        };
        if is_null {
            WorktreeState::UncommittedBranch { branch }
        } else {
            WorktreeState::CommittedBranch { branch, head: Commit { sha: head_str.to_owned() } }
        }
    } else {
        WorktreeState::DetachedHead { head: Commit { sha: head_str.to_owned() } }
    };
    WorktreeListEntry { path, state }
}


/// The lines, each ended by a newline.
pub open spec fn join_lines_spec(lines: Seq<Seq<char>>) -> Seq<char>
    decreases lines.len(),
{
    if lines.len() == 0 {
        Seq::empty()
    } else {
        join_lines_spec(lines.drop_last()) + lines.last() + seq!['\n']
    }
}

/// The lines, each ended by a newline.
pub fn join_lines(lines: &[String]) -> (r: String)
    ensures
        r@ == join_lines_spec(string_views(lines@)),
{
    let mut r = String::new();
    let mut k: usize = 0;
    while k < lines.len()
        invariant
            k <= lines@.len(),
            r@ == join_lines_spec(string_views(lines@).take(k as int)),
        decreases lines@.len() - k,
    {
        proof {
            reveal_strlit("\n");
            assert(string_views(lines@).take(k + 1).drop_last() =~= string_views(lines@).take(k as int));
        }
        r.append(lines[k].as_str());
        r.append("\n");
        k = k + 1;
    }
    proof {
        assert(string_views(lines@).take(lines@.len() as int) =~= string_views(lines@));
    }
    r
}

/// The lines of `string`, then the new lines, each ended by a newline.
pub fn append_lines(string: String, new_lines: Vec<String>) -> (r: String)
    ensures
        r@ == join_lines_spec(lines_spec(string@) + string_views(new_lines@)),
{
    let existing = to_owned_all(&lines(string.as_str()));
    let mut all: Vec<String> = existing;
    let mut extra = new_lines;
    let ghost added = string_views(extra@);
    let ghost before = string_views(all@);
    all.append(&mut extra);
    proof {
        assert(string_views(all@) =~= before + added);
    }
    join_lines(all.as_slice())
}


/// Joined lines, from the front: the first line, a newline, then the rest joined.
proof fn lemma_join_front(lines: Seq<Seq<char>>)
    requires
        lines.len() > 0,
    ensures
        join_lines_spec(lines) == lines[0] + seq!['\n'] + join_lines_spec(lines.drop_first()),
    decreases lines.len(),
{
    if lines.len() > 1 {
        lemma_join_front(lines.drop_last());
        assert(lines.drop_last().drop_first() =~= lines.drop_first().drop_last());
        assert(lines.drop_first().last() == lines.last());
    } else {
        assert(lines.drop_first() =~= Seq::<Seq<char>>::empty());
        assert(lines.drop_last() =~= Seq::<Seq<char>>::empty());
    }
}

/// Joined lines split at each newline give the lines and a final empty piece.
#[verifier::spinoff_prover]
#[verifier::rlimit(50)]
proof fn lemma_split_joined(lines: Seq<Seq<char>>)
    requires
        forall|i: int| 0 <= i < lines.len() ==> !(#[trigger] lines[i]).contains('\n'),
    ensures
        split_spec(join_lines_spec(lines), '\n') == lines.push(Seq::<char>::empty()),
    decreases lines.len(),
{
    if lines.len() == 0 {
        crate::text::lemma_split_last(Seq::<char>::empty(), '\n');
        assert(lines.push(Seq::<char>::empty()) =~= seq![Seq::<char>::empty()]);
    } else {
        lemma_join_front(lines);
        let s = join_lines_spec(lines);
        let i = lines[0].len() as int;
        assert forall|j: int| 0 <= j < i implies s[j] != '\n' by {
            assert(s[j] == lines[0][j]);
        }
        assert(s[i] == '\n');
        crate::text::lemma_split_step(s, '\n', i);
        assert(s.take(i) =~= lines[0]);
        assert(s.skip(i + 1) =~= join_lines_spec(lines.drop_first()));
        assert forall|k: int| 0 <= k < lines.drop_first().len() implies !(#[trigger] lines.drop_first()[k]).contains('\n') by {
            assert(lines.drop_first()[k] == lines[k + 1]);
        }
        lemma_split_joined(lines.drop_first());
        assert(seq![lines[0]] + lines.drop_first().push(Seq::<char>::empty()) =~= lines.push(
            Seq::<char>::empty(),
        ));
    }
}

/// Lines joined by [`join_lines`] read back as the same lines, when none holds a newline
/// or ends with a carriage return.
pub proof fn lemma_lines_of_joined(lines: Seq<Seq<char>>)
    requires
        forall|i: int| 0 <= i < lines.len() ==> !(#[trigger] lines[i]).contains('\n'),
        forall|i: int| 0 <= i < lines.len() && #[trigger] lines[i].len() > 0 ==> lines[i].last() != '\r',
    ensures
        lines_spec(join_lines_spec(lines)) == lines,
{
    lemma_split_joined(lines);
    let parts = split_spec(join_lines_spec(lines), '\n');
    assert(parts.drop_last() =~= lines);
    assert(parts.drop_last().map_values(|l: Seq<char>| crate::text::strip_cr(l)) =~= lines);
}

/// Appending lines to joined lines is joining all the lines.
pub proof fn lemma_append_to_joined(lines: Seq<Seq<char>>, new_lines: Seq<Seq<char>>)
    requires
        forall|i: int| 0 <= i < lines.len() ==> !(#[trigger] lines[i]).contains('\n'),
        forall|i: int| 0 <= i < lines.len() && #[trigger] lines[i].len() > 0 ==> lines[i].last() != '\r',
    ensures
        join_lines_spec(lines_spec(join_lines_spec(lines)) + new_lines) == join_lines_spec(lines + new_lines),
{
    lemma_lines_of_joined(lines);
}


/// The worktrees of the repository, from the output of `git worktree list --porcelain`.
pub fn list_worktree(output: &ProcessOutput) -> (r: Vec<WorktreeListEntry>)
    requires
        valid_utf8(output.stdout@),
        worktree_list_ok(lines_spec(output_text(*output))),
    ensures
        r@.len() == (lines_spec(output_text(*output)).len() + 3) / 4,
        forall|g: int|
            0 <= g < r@.len() ==> worktree_entry_matches(
                #[trigger] r@[g],
                lines_spec(output_text(*output))[4 * g],
                lines_spec(output_text(*output))[4 * g + 1],
                lines_spec(output_text(*output))[4 * g + 2],
            ),
{
    let text = output_to_string(output);
    parse_worktree_list(text.as_str())
}


/// Whether a group of `git worktree list --porcelain` lines can be read.
fn worktree_group_readable(l0: &str, l1: &str, l2: &str) -> (b: bool)
    ensures
        b == worktree_group_ok(l0@, l1@, l2@),
{
    let c0 = chars_of(l0);
    let c1 = chars_of(l1);
    let c2 = chars_of(l2);
    if !ascii_prefix_exec(&c0, 9) || !ascii_prefix_exec(&c1, 5) || !ascii_prefix_exec(&c2, 6) {
        return false;
    }
    let n1 = l1.unicode_len();
    let n2 = l2.unicode_len();
    if str_eq(l2.substring_char(0, 6), "branch") {
        if !ascii_prefix_exec(&c2, 7) {
            return false;
        }
        crate::text::strip_prefix(l2.substring_char(7, n2), "refs/heads/").is_some()
    } else {
        !str_eq(l1.substring_char(5, n1), "0000000000000000000000000000000000000000")
    }
}

/// Whether `git worktree list --porcelain` output can be read: groups of four lines
/// (the last one may lack its blank line), each readable.
pub fn worktree_list_readable(lines_text: &str) -> (b: bool)
    ensures
        b == worktree_list_ok(lines_spec(lines_text@)),
{
    let ls = lines(lines_text);
    let ghost vs = views(ls@);
    let n = ls.len();
    if n % 4 != 0 && n % 4 != 3 {
        return false;
    }
    let groups: usize = n / 4 + if n % 4 != 0 {
        1
    } else {
        0
    };
    let mut g: usize = 0;
    while g < groups
        invariant
            n == ls@.len(),
            vs == views(ls@),
            vs == lines_spec(lines_text@),
            n % 4 == 0 || n % 4 == 3,
            groups == n / 4 + if n % 4 != 0 {
                1int
            } else {
                0int
            },
            g <= groups,
            forall|h: int|
                0 <= h < g ==> #[trigger] worktree_group_ok(vs[4 * h], vs[4 * h + 1], vs[4 * h + 2]),
        decreases groups - g,
    {
        let i = 4 * g;
        proof {
            assert(i + 2 < n);
            assert(vs[i as int] == ls@[i as int]@);
            assert(vs[i + 1] == ls@[i + 1]@);
            assert(vs[i + 2] == ls@[i + 2]@);
        }
        if !worktree_group_readable(ls[i], ls[i + 1], ls[i + 2]) {
            return false;
        }
        g = g + 1;
    }
    proof {
        assert forall|h: int| 0 <= h && 4 * h < vs.len() implies #[trigger] worktree_group_ok(
            vs[4 * h],
            vs[4 * h + 1],
            vs[4 * h + 2],
        ) by {
            assert(h < groups);
        }
    }
    true
}

/// A decimal digit character reads back as its value.
proof fn lemma_digit_char(d: nat)
    requires
        d < 10,
    ensures
        '0' <= crate::text::digit_char(d) <= '9',
        ((crate::text::digit_char(d) as u32) - ('0' as u32)) as nat == d,
{
    if d == 0 {
    } else if d == 1 {
    } else if d == 2 {
    } else if d == 3 {
    } else if d == 4 {
    } else if d == 5 {
    } else if d == 6 {
    } else if d == 7 {
    } else if d == 8 {
    } else {
    }
}

/// Decimal text has digits only, and reads back as the number written.
proof fn lemma_decimal_digits(n: nat)
    ensures
        all_digits(crate::text::decimal_spec(n)),
        digits_value(crate::text::decimal_spec(n)) == n,
    decreases n,
{
    let s = crate::text::decimal_spec(n);
    if n < 10 {
        lemma_digit_char(n);
        assert(s.drop_last() =~= Seq::<char>::empty());
        assert(digits_value(s) == digits_value(s.drop_last()) * 10 + ((s.last() as u32) - ('0' as u32)) as nat);
    } else {
        lemma_decimal_digits(n / 10);
        lemma_digit_char(n % 10);
        let t = crate::text::decimal_spec(n / 10);
        assert(s == t.push(crate::text::digit_char(n % 10)));
        assert(s.drop_last() =~= t);
        assert(digits_value(s) == digits_value(t) * 10 + n % 10);
        assert(n == (n / 10) * 10 + n % 10);
        assert forall|k: int| 0 <= k < s.len() implies '0' <= #[trigger] s[k] <= '9' by {
            if k < t.len() {
                assert(s[k] == t[k]);
            }
        }
    }
}

/// A line that starts with `# branch.upstream ` names the upstream written after it.
#[verifier::spinoff_prover]
pub proof fn lemma_upstream_name(name: Seq<char>)
    ensures
        upstream_name_spec("# branch.upstream "@ + name) == Some(name),
{
    reveal_strlit("# branch.upstream ");
    let p = "# branch.upstream "@;
    let l = p + name;
    assert(l.subrange(0, p.len() as int) =~= p);
    assert(is_first_occurrence(l, p, 0));
    lemma_find_is(l, p, 0);
    assert(l.skip(p.len() as int) =~= name);
}

/// A line names an upstream exactly when it starts with `# branch.upstream `.
#[verifier::spinoff_prover]
pub proof fn lemma_upstream_absent(line: Seq<char>)
    ensures
        upstream_name_spec(line) is None <==> !"# branch.upstream "@.is_prefix_of(line),
{
    let p = "# branch.upstream "@;
    if p.is_prefix_of(line) {
        assert(line.subrange(0, p.len() as int) =~= p);
        assert(is_first_occurrence(line, p, 0));
        lemma_find_is(line, p, 0);
    } else if exists|i: int| is_first_occurrence(line, p, i) {
        let i = choose|i: int| is_first_occurrence(line, p, i);
        lemma_find_is(line, p, i);
        if i == 0 {
            assert(line.subrange(0, p.len() as int) == p);
            assert(p.is_prefix_of(line));
        }
    }
}

/// The ahead/behind line reads back the two counts written in it.
#[verifier::spinoff_prover]
pub proof fn lemma_ab_counts(added: u16, removed: u16)
    ensures
        ab_counts_spec(
            "# branch.ab +"@ + crate::text::decimal_spec(added as nat) + " -"@ + crate::text::decimal_spec(
                removed as nat,
            ),
        ) == Some((added, removed)),
{
    reveal_strlit("# branch.ab +");
    reveal_strlit("# branch.ab ");
    reveal_strlit(" -");
    reveal_strlit(" ");
    let da = crate::text::decimal_spec(added as nat);
    let dr = crate::text::decimal_spec(removed as nat);
    lemma_decimal_digits(added as nat);
    lemma_decimal_digits(removed as nat);
    let q = "# branch.ab "@;
    let line = "# branch.ab +"@ + da + " -"@ + dr;
    assert(line.subrange(0, q.len() as int) =~= q);
    assert(is_first_occurrence(line, q, 0));
    lemma_find_is(line, q, 0);
    let commits = seq!['+'] + da + seq![' ', '-'] + dr;
    assert(line.skip(q.len() as int) =~= commits);
    let i: int = 1 + da.len() as int;
    assert(commits.subrange(i, i + 1) =~= " "@);
    assert forall|j: int| 0 <= j < i implies !occurs_at(commits, " "@, j) by {
        assert(commits.subrange(j, j + 1)[0] == commits[j]);
        if j > 0 {
            assert(commits[j] == da[j - 1]);
        }
    }
    assert(is_first_occurrence(commits, " "@, i));
    lemma_find_is(commits, " "@, i);
    let a = commits.take(i);
    let r = commits.skip(i + 1);
    assert(a =~= seq!['+'] + da);
    assert(r =~= seq!['-'] + dr);
    assert(a.skip(1) =~= da);
    assert(r.skip(1) =~= dr);
    assert(da[0] != '+');
    assert(dr[0] != '+');
}

/// How `status` shows a changed file: its first character is `+` for a file added to the
/// index, `-` for one deleted from it, else a space; its second is `D` for a file deleted
/// from the working tree, else `A` for one added to the index, else `M` when the index or
/// the working tree holds a modification, else a space; then a space and the file's path
/// relative to `current_dir`.  So a file added to the index and still on disk shows as
/// `+A ` and its path.
pub proof fn lemma_changed_entry_line(
    staged: EntryLocationStatus,
    tree: EntryLocationStatus,
    filename: Seq<char>,
    current_dir: Seq<char>,
)
    requires
        relative_path_spec(current_dir, filename) is Some,
    ensures
        ({
            let line = format_entry_spec(
                StatusEntryView {
                    state: EntryStateView::Changed { staged_status: staged, tree_status: tree },
                    filename,
                },
                current_dir,
            );
            let path = relative_path_spec(current_dir, filename)->0;
            &&& line.len() == 3 + path.len()
            &&& line[0] == (if staged == EntryLocationStatus::Added {
                '+'
            } else if staged == EntryLocationStatus::Deleted {
                '-'
            } else {
                ' '
            })
            &&& line[1] == (if tree == EntryLocationStatus::Deleted {
                'D'
            } else if staged == EntryLocationStatus::Added {
                'A'
            } else if staged == EntryLocationStatus::Modified || tree == EntryLocationStatus::Modified {
                'M'
            } else {
                ' '
            })
            &&& line[2] == ' '
            &&& line.skip(3) == path
            &&& (staged == EntryLocationStatus::Added && tree != EntryLocationStatus::Deleted) ==> line
                == "+A "@ + path
        }),
{
    reveal_strlit("+");
    reveal_strlit("-");
    reveal_strlit(" ");
    reveal_strlit("D");
    reveal_strlit("A");
    reveal_strlit("M");
    reveal_strlit("+A ");
    let e = StatusEntryView {
        state: EntryStateView::Changed { staged_status: staged, tree_status: tree },
        filename,
    };
    let line = format_entry_spec(e, current_dir);
    let path = relative_path_spec(current_dir, filename)->0;
    let t = track_char_spec(e.state);
    let d = disk_char_spec(e.state);
    assert(t.len() == 1 && d.len() == 1);
    assert(line =~= t + d + " "@ + path);
    assert(line[0] == t[0]);
    assert(line[1] == d[0]);
    assert(line.skip(3) =~= path);
    if staged == EntryLocationStatus::Added && tree != EntryLocationStatus::Deleted {
        assert(line =~= "+A "@ + path);
    }
}

/// How `status` shows the other entries: `??` for an untracked file, `!!` for an ignored
/// one, `R`, the working-tree mark (a space when unmodified, `M` when modified, `$`
/// otherwise) and the old path followed by ` -> ` for a rename, and `C` with `M` when both
/// sides modified, `A` when we (or both) added, `D` when we (or both) deleted, else a space,
/// for a conflict; each followed by a space and the path relative to `current_dir`.
pub proof fn lemma_other_entry_line(state: EntryStateView, filename: Seq<char>, current_dir: Seq<char>)
    requires
        format_ok(StatusEntryView { state, filename }, current_dir),
        !(state is Changed),
    ensures
        ({
            let line = format_entry_spec(StatusEntryView { state, filename }, current_dir);
            let path = relative_path_spec(current_dir, filename)->0;
            match state {
                EntryStateView::Untracked => line == "?? "@ + path,
                EntryStateView::Ignored => line == "!! "@ + path,
                EntryStateView::Renamed { tree_status, old_filename, .. } => line == seq![
                    'R',
                    if tree_status == EntryLocationStatus::Unmodified {
                        ' '
                    } else if tree_status == EntryLocationStatus::Modified {
                        'M'
                    } else {
                        '$'
                    },
                    ' ',
                ] + relative_path_spec(current_dir, old_filename)->0 + " -> "@ + path,
                EntryStateView::Unmerged { state: u } => line == seq![
                    'C',
                    match u {
                        UnmergedState::BothModified => 'M',
                        UnmergedState::Added(Changer::Them) => ' ',
                        UnmergedState::Added(_) => 'A',
                        UnmergedState::Deleted(Changer::Them) => ' ',
                        UnmergedState::Deleted(_) => 'D',
                    },
                    ' ',
                ] + path,
                _ => true,
            }
        }),
{
    reveal_strlit("?");
    reveal_strlit("!");
    reveal_strlit("R");
    reveal_strlit("C");
    reveal_strlit(" ");
    reveal_strlit("M");
    reveal_strlit("$");
    reveal_strlit("A");
    reveal_strlit("D");
    reveal_strlit("?? ");
    reveal_strlit("!! ");
    let e = StatusEntryView { state, filename };
    let line = format_entry_spec(e, current_dir);
    let path = relative_path_spec(current_dir, filename)->0;
    let t = track_char_spec(state);
    let d = disk_char_spec(state);
    match state {
        EntryStateView::Untracked => {
            assert(line =~= "?? "@ + path);
        },
        EntryStateView::Ignored => {
            assert(line =~= "!! "@ + path);
        },
        EntryStateView::Renamed { tree_status, old_filename, .. } => {
            let c = if tree_status == EntryLocationStatus::Unmodified {
                ' '
            } else if tree_status == EntryLocationStatus::Modified {
                'M'
            } else {
                '$'
            };
            assert(d =~= seq![c]);
            assert(line =~= seq!['R', c, ' '] + relative_path_spec(current_dir, old_filename)->0 + " -> "@
                + path);
        },
        EntryStateView::Unmerged { state: u } => {
            let c = match u {
                UnmergedState::BothModified => 'M',
                UnmergedState::Added(Changer::Them) => ' ',
                UnmergedState::Added(_) => 'A',
                UnmergedState::Deleted(Changer::Them) => ' ',
                UnmergedState::Deleted(_) => 'D',
            };
            assert(d =~= seq![c]);
            assert(line =~= seq!['C', c, ' '] + path);
        },
        _ => {},
    }
}

} // verus!
