//! The commands of the program: their options, the git arguments they turn into, and
//! the reports they give.
use crate::commit::{base_tree, CommitErr, CommitSpec, Commitish, SomethingSpec, TreeSpec, Treeish, Tree};
use crate::branch::{
    advance, advance_traced, find_shortest, link_branches, BranchValidationError, LinkFailure, NextRefErr, PipeNext, PipePrev,
    SiblingBranch,
};
use crate::commit::ExtantRefName;
use crate::git::{
    pair_views, parsed_as, select_reference_spec, swapped_reversed, BranchName, BranchyName,
    GitError, LocalBranchName, LocalBranchNameView, ReferenceSpec, UnparsedReference,
    lemma_parsed_full,
};
use crate::repo::{follow_symbolic, get_local_current, resolve_reference_from_short_name, resolve_symbolic_reference, RefErr};
use crate::switch::{SwitchErr, SwitchType};
use crate::repo::OpenRepoError;
use crate::path::{relative_path, relative_path_spec};
use crate::text::{decimal, decimal_spec, string_views, strip_prefix_spec, views};
use crate::removals::{fixed_entries, holds_map, sorted_by_name};
use crate::worktree::{
    all_ok, entries_from, format_entry_spec, format_ok, Commit, GitStatus, StatusEntryView,
    UpstreamInfo, WorktreeHead,
};
use vstd::prelude::*;

verus! {

/// What a command reports: its exit code and the lines for standard output and standard
/// error.
pub struct Report {
    pub code: i32,
    pub out: Vec<String>,
    pub err: Vec<String>,
}

/// Owned copies of string slices.
pub fn to_strings(cmd_args: &[&str]) -> (r: Vec<String>)
    ensures
        string_views(r@) == views(cmd_args@),
{
    let mut r: Vec<String> = Vec::new();
    let mut k: usize = 0;
    while k < cmd_args.len()
        invariant
            k <= cmd_args@.len(),
            string_views(r@) == views(cmd_args@).take(k as int),
        decreases cmd_args@.len() - k,
    {
        let s = cmd_args[k].to_owned();
        proof {
            assert(string_views(r@.push(s)) =~= string_views(r@).push(s@));
            assert(views(cmd_args@).take(k + 1) =~= views(cmd_args@).take(k as int).push(cmd_args@[k as int]@));
        }
        r.push(s);
        k = k + 1;
    }
    proof {
        assert(views(cmd_args@).take(cmd_args@.len() as int) =~= views(cmd_args@));
    }
    r
}

/// Why a command's git arguments could not be made.
#[derive(Debug)]
pub enum MakeArgsErr {
    GetTreeRefFailure(GitError),
    MergeDiffNoHead,
    MergeDiffFindTarget(FindTargetErr),
    MergeDiffOpenRepo(OpenRepoError),
    MergeDiffNoRemembered,
    Restore(CommitErr),
}

/// Why no target to merge into was found.
#[derive(Debug)]
pub enum FindTargetErr {
    NoCurrentBranch,
    CommitErr(CommitErr),
    NoRemembered,
}

impl From<CommitErr> for FindTargetErr {
    fn from(err: CommitErr) -> (r: Self) {
        FindTargetErr::CommitErr(err)
    }
}

impl vstd::std_specs::convert::FromSpecImpl<CommitErr> for FindTargetErr {
    open spec fn obeys_from_spec() -> bool {
        true
    }

    open spec fn from_spec(err: CommitErr) -> FindTargetErr {
        FindTargetErr::CommitErr(err)
    }
}

impl FindTargetErr {
    /// The message shown when no source to merge from was given and none is remembered.
    pub fn source_message(&self) -> (r: String)
        ensures
            self is NoCurrentBranch ==> r@ == "No current branch."@,
            self matches FindTargetErr::CommitErr(e) ==> r@ == e.message_spec(),
            self is NoRemembered ==> r@ == "Source not supplied and no remembered source."@,
    {
        match self {
            FindTargetErr::NoCurrentBranch => String::from_str("No current branch."),
            FindTargetErr::CommitErr(err) => err.message(),
            FindTargetErr::NoRemembered => String::from_str("Source not supplied and no remembered source."),
        }
    }
}

impl MakeArgsErr {
    /// The message shown for the error.
    pub fn message(&self) -> (r: String)
        ensures
            self matches MakeArgsErr::GetTreeRefFailure(e) ==> r@ == e.message_spec(),
            self is MergeDiffNoHead ==> r@ == "Cannot merge-diff: no commits in HEAD."@,
            self matches MakeArgsErr::MergeDiffFindTarget(FindTargetErr::NoCurrentBranch) ==> r@
                == "No current branch."@,
            self matches MakeArgsErr::MergeDiffFindTarget(FindTargetErr::CommitErr(e)) ==> r@
                == e.message_spec(),
            self matches MakeArgsErr::MergeDiffFindTarget(FindTargetErr::NoRemembered) ==> r@
                == "Target not supplied and no remembered target."@,
            self matches MakeArgsErr::Restore(CommitErr::NoCommit { .. }) ==> r@
                == "Cannot restore: no commits in HEAD."@,
            self matches MakeArgsErr::Restore(CommitErr::GitError(e)) ==> r@ == e.message_spec(),
            self is MergeDiffNoRemembered ==> r@.len() == 0,
    {
        match self {
            MakeArgsErr::GetTreeRefFailure(err) => err.message(),
            MakeArgsErr::MergeDiffNoHead => String::from_str("Cannot merge-diff: no commits in HEAD."),
            MakeArgsErr::MergeDiffOpenRepo(err) => err.message(),
            MakeArgsErr::MergeDiffFindTarget(err) => match err {
                FindTargetErr::NoCurrentBranch => String::from_str("No current branch."),
                FindTargetErr::CommitErr(err) => err.message(),
                FindTargetErr::NoRemembered => String::from_str(
                    "Target not supplied and no remembered target.",
                ),
            },
            MakeArgsErr::Restore(err) => match err {
                CommitErr::NoCommit { .. } => String::from_str("Cannot restore: no commits in HEAD."),
                CommitErr::GitError(err) => err.message(),
            },
            MakeArgsErr::MergeDiffNoRemembered => String::new(),
        }
    }
}

/// A file in the index (at a merge stage) or in a commit.
pub enum TreeFile<'a> {
    IndexFile { stage: u8, path: &'a str },
    CommitFile { commit: &'a str, path: &'a str },
}

/// The object name of a file in the index or in a commit, as `git show` takes it.
pub open spec fn tree_file_spec(tree_file: TreeFile) -> Seq<char> {
    match tree_file {
        TreeFile::IndexFile { stage, path } => ":"@ + decimal_spec(stage as nat) + ":./"@ + path@,
        TreeFile::CommitFile { commit, path } => commit@ + ":./"@ + path@,
    }
}

/// The object name of a file in the index or in a commit, as `git show` takes it.
pub fn format_tree_file(tree_file: &TreeFile) -> (r: String)
    ensures
        r@ == tree_file_spec(*tree_file),
{
    match tree_file {
        TreeFile::IndexFile { stage, path } => {
            let mut r = String::from_str(":");
            r.append(decimal(*stage as u64).as_str());
            r.append(":./");
            r.append(*path);
            r
        },
        TreeFile::CommitFile { commit, path } => {
            let mut r = (*commit).to_owned();
            r.append(":./");
            r.append(*path);
            r
        },
    }
}

/// A command that runs git with arguments of its own.
pub trait ArgMaker: Sized {
    /// The git arguments for the command.
    spec fn args_spec(self) -> Seq<Seq<char>>;

    /// The git arguments for the command.
    fn make_args(self) -> (r: Result<Vec<String>, MakeArgsErr>)
        ensures
            r matches Ok(args) && string_views(args@) == self.args_spec(),
    ;
}

/// Output the contents of a file for a given tree.
pub struct Cat {
    pub tree: String,
    pub input: String,
}

impl ArgMaker for Cat {
    /// `git show` of the file in the index (tree `index`) or in the tree.
    open spec fn args_spec(self) -> Seq<Seq<char>> {
        seq![
            "show"@,
            if self.tree@ == "index"@ {
                ":0:./"@ + self.input@
            } else {
                self.tree@ + ":./"@ + self.input@
            },
        ]
    }

    fn make_args(self) -> (r: Result<Vec<String>, MakeArgsErr>) {
        let tree_file = if crate::text::str_eq(self.tree.as_str(), "index") {
            TreeFile::IndexFile { stage: 0, path: self.input.as_str() }
        } else {
            TreeFile::CommitFile { commit: self.tree.as_str(), path: self.input.as_str() }
        };
        let object = format_tree_file(&tree_file);
        proof {
            reveal_strlit("0");
            reveal_strlit(":");
            reveal_strlit(":./");
            reveal_strlit(":0:./");
            assert(decimal_spec(0) =~= "0"@);
            assert(":"@ + decimal_spec(0) + ":./"@ =~= ":0:./"@);
        }
        let r = vec![String::from_str("show"), object];
        proof {
            assert(string_views(r@) =~= self.args_spec());
        }
        Ok(r)
    }
}

/// A flag, when it is set.
pub open spec fn flag(set: bool, name: Seq<char>) -> Seq<Seq<char>> {
    if set {
        seq![name]
    } else {
        Seq::empty()
    }
}

/// The views of an optional string, as zero or one argument.
pub open spec fn opt_arg(s: Option<String>) -> Seq<Seq<char>> {
    match s {
        Some(s) => seq![s@],
        None => Seq::empty(),
    }
}

/// Paths to limit a command to, after `--` when there are any.
pub open spec fn path_args(paths: Seq<String>) -> Seq<Seq<char>> {
    if paths.len() == 0 {
        Seq::empty()
    } else {
        seq!["--"@] + string_views(paths)
    }
}

/// Append `--` and the paths, when there are any.
fn push_paths(args: &mut Vec<String>, mut paths: Vec<String>)
    ensures
        string_views(final(args)@) == string_views(old(args)@) + path_args(paths@),
{
    if paths.len() > 0 {
        let ghost before = string_views(args@);
        args.push(String::from_str("--"));
        let ghost ps = paths@;
        args.append(&mut paths);
        proof {
            assert(string_views(args@) =~= before + path_args(ps));
        }
    } else {
        proof {
            assert(string_views(args@) =~= string_views(args@) + path_args(paths@));
        }
    }
}

/// Append a string.
fn push_str(args: &mut Vec<String>, s: &str)
    ensures
        string_views(final(args)@) == string_views(old(args)@).push(s@),
{
    args.push(s.to_owned());
    proof {
        assert(string_views(args@) =~= string_views(old(args)@).push(s@));
    }
}

/// Summarize a commit or other object.
pub struct Show {
    pub commit: Option<CommitSpec>,
    pub name_only: bool,
    pub no_log: bool,
}

impl ArgMaker for Show {
    /// `git show -m --first-parent`, with `--name-only` and `--pretty=` when asked, and the
    /// commit spec when one is given.
    open spec fn args_spec(self) -> Seq<Seq<char>> {
        seq!["show"@, "-m"@, "--first-parent"@] + flag(self.name_only, "--name-only"@) + flag(
            self.no_log,
            "--pretty="@,
        ) + match self.commit {
            Some(c) => seq![c.spec@],
            None => Seq::empty(),
        }
    }

    fn make_args(self) -> (r: Result<Vec<String>, MakeArgsErr>) {
        let mut cmd = vec![String::from_str("show"), String::from_str("-m"), String::from_str("--first-parent")];
        let ghost base = seq!["show"@, "-m"@, "--first-parent"@];
        proof {
            assert(string_views(cmd@) =~= base);
        }
        if self.name_only {
            push_str(&mut cmd, "--name-only");
        }
        proof {
            assert(string_views(cmd@) =~= base + flag(self.name_only, "--name-only"@));
        }
        if self.no_log {
            push_str(&mut cmd, "--pretty=");
        }
        let ghost with_flags = base + flag(self.name_only, "--name-only"@) + flag(self.no_log, "--pretty="@);
        proof {
            assert(string_views(cmd@) =~= with_flags);
        }
        if let Some(c) = self.commit {
            cmd.push(c.spec);
            proof {
                assert(string_views(cmd@) =~= with_flags + seq![c.spec@]);
            }
        } else {
            proof {
                assert(string_views(cmd@) =~= with_flags + Seq::<Seq<char>>::empty());
            }
        }
        Ok(cmd)
    }
}


/// Append a flag when it is set.
fn push_flag(args: &mut Vec<String>, set: bool, name: &str)
    ensures
        string_views(final(args)@) == string_views(old(args)@) + flag(set, name@),
{
    if set {
        push_str(args, name);
        proof {
            assert(string_views(args@) =~= string_views(old(args)@) + flag(set, name@));
        }
    } else {
        proof {
            assert(string_views(args@) =~= string_views(old(args)@) + flag(set, name@));
        }
    }
}

/// Append an optional argument.
fn push_opt(args: &mut Vec<String>, arg: Option<String>)
    ensures
        string_views(final(args)@) == string_views(old(args)@) + opt_arg(arg),
{
    match arg {
        Some(s) => {
            let ghost v = s@;
            args.push(s);
            proof {
                assert(string_views(args@) =~= string_views(old(args)@) + seq![v]);
            }
        },
        None => {
            proof {
                assert(string_views(args@) =~= string_views(old(args)@) + Seq::<Seq<char>>::empty());
            }
        },
    }
}

/// Arguments that start a command line.
fn start_args(first: &str) -> (r: Vec<String>)
    ensures
        string_views(r@) == seq![first@],
{
    let r = vec![first.to_owned()];
    proof {
        assert(string_views(r@) =~= seq![first@]);
    }
    r
}

/// Compare one tree to another.
pub struct Diff {
    pub source: Option<Commit>,
    pub target: Option<Commit>,
    pub myers: bool,
    pub name_only: bool,
    pub path: Vec<String>,
}

/// The commit id of an optional commit, as zero or one argument.
pub open spec fn opt_commit(c: Option<Commit>) -> Seq<Seq<char>> {
    match c {
        Some(c) => seq![c.sha@],
        None => Seq::empty(),
    }
}

impl Diff {
    /// The `git diff` arguments: with the patience algorithm unless Myers is asked for,
    /// `--name-only` when asked, the source commit (by default the tree of HEAD, given as
    /// `base_tree`), the target commit when given, and the paths.
    pub fn make_args(self, base_tree: Option<Result<TreeSpec, GitError>>) -> (r: Result<
        Vec<String>,
        MakeArgsErr,
    >)
        requires
            self.source is None ==> base_tree is Some,
        ensures
            ({
                let start = seq!["diff"@] + flag(!self.myers, "--patience"@) + flag(
                    self.name_only,
                    "--name-only"@,
                );
                let rest = opt_commit(self.target) + path_args(self.path@);
                match self.source {
                    Some(s) => r matches Ok(args) && string_views(args@) == start + seq![s.sha@] + rest,
                    None => match base_tree->0 {
                        Ok(t) => r matches Ok(args) && string_views(args@) == start + seq![t.reference@]
                            + rest,
                        Err(e) => r matches Err(MakeArgsErr::GetTreeRefFailure(f)) && f == e,
                    },
                }
            }),
    {
        let mut cmd_args = start_args("diff");
        push_flag(&mut cmd_args, !self.myers, "--patience");
        push_flag(&mut cmd_args, self.name_only, "--name-only");
        let ghost start = string_views(cmd_args@);
        let source = match self.source {
            Some(source) => source.sha,
            None => match base_tree {
                Some(Ok(tree)) => tree.get_tree_reference(),
                Some(Err(err)) => return Err(MakeArgsErr::GetTreeRefFailure(err)),
                None => String::new(),
            },
        };
        push_str(&mut cmd_args, source.as_str());
        let target = match self.target {
            Some(t) => Some(t.sha),
            None => None,
        };
        proof {
            assert(opt_arg(target) == opt_commit(self.target));
        }
        push_opt(&mut cmd_args, target);
        push_paths(&mut cmd_args, self.path);
        proof {
            assert(string_views(cmd_args@) =~= start + seq![source@] + opt_commit(self.target)
                + path_args(self.path@));
        }
        Ok(cmd_args)
    }
}

/// Produce a log of a commit range.
pub struct Log {
    pub range: Option<String>,
    pub patch: bool,
    pub include_merged: bool,
    pub path: Vec<String>,
}

impl ArgMaker for Log {
    /// `git log`, following first parents unless merged commits are asked for, with
    /// patches when asked, the range when given, and the paths.
    open spec fn args_spec(self) -> Seq<Seq<char>> {
        seq!["log"@] + flag(!self.include_merged, "--first-parent"@) + (if self.patch {
            seq!["-m"@, "--patch"@]
        } else {
            Seq::empty()
        }) + opt_arg(self.range) + path_args(self.path@)
    }

    fn make_args(self) -> (r: Result<Vec<String>, MakeArgsErr>) {
        let mut cmd_args = start_args("log");
        push_flag(&mut cmd_args, !self.include_merged, "--first-parent");
        let ghost a = string_views(cmd_args@);
        if self.patch {
            push_str(&mut cmd_args, "-m");
            push_str(&mut cmd_args, "--patch");
        }
        proof {
            assert(string_views(cmd_args@) =~= a + (if self.patch {
                seq!["-m"@, "--patch"@]
            } else {
                Seq::empty()
            }));
        }
        push_opt(&mut cmd_args, self.range);
        push_paths(&mut cmd_args, self.path);
        proof {
            assert(string_views(cmd_args@) =~= self.args_spec());
        }
        Ok(cmd_args)
    }
}

/// Transfer remote changes to the local repository and working tree.
pub struct Pull {
    pub remote: Option<String>,
    pub source: Option<String>,
}

impl ArgMaker for Pull {
    /// `git pull --ff-only`, with the remote and the branch when given.
    open spec fn args_spec(self) -> Seq<Seq<char>> {
        seq!["pull"@, "--ff-only"@] + opt_arg(self.remote) + opt_arg(self.source)
    }

    fn make_args(self) -> (r: Result<Vec<String>, MakeArgsErr>) {
        let mut cmd_args = start_args("pull");
        push_str(&mut cmd_args, "--ff-only");
        push_opt(&mut cmd_args, self.remote);
        push_opt(&mut cmd_args, self.source);
        proof {
            assert(string_views(cmd_args@) =~= self.args_spec());
        }
        Ok(cmd_args)
    }
}

/// Restore the contents of files to a previous value.
pub struct Restore {
    pub source: Option<SomethingSpec>,
    pub path: Vec<String>,
}

impl Restore {
    /// The `git checkout` arguments that restore the paths from the source (by default
    /// HEAD, given as `head`).
    pub fn make_args(self, head: Option<Result<SomethingSpec, CommitErr>>) -> (r: Result<
        Vec<String>,
        MakeArgsErr,
    >)
        requires
            self.source is None ==> head is Some,
        ensures
            match self.source {
                Some(s) => r matches Ok(args) && string_views(args@) == seq![
                    "checkout"@,
                    s.treeish_view(),
                ] + path_args(self.path@),
                None => match head->0 {
                    Ok(s) => r matches Ok(args) && string_views(args@) == seq![
                        "checkout"@,
                        s.treeish_view(),
                    ] + path_args(self.path@),
                    Err(e) => r matches Err(MakeArgsErr::Restore(f)) && f == e,
                },
            },
    {
        let source = match self.source {
            Some(s) => s,
            None => match head {
                Some(Ok(s)) => s,
                Some(Err(e)) => return Err(MakeArgsErr::Restore(e)),
                None => return Err(MakeArgsErr::MergeDiffNoRemembered),
            },
        };
        let mut cmd_args = start_args("checkout");
        let spec = source.get_treeish_spec();
        push_str(&mut cmd_args, spec.as_str());
        push_paths(&mut cmd_args, self.path);
        Ok(cmd_args)
    }
}

/// Revert a previous commit.
pub struct Revert {
    pub source: CommitSpec,
}

impl ArgMaker for Revert {
    /// `git revert -m1` of the commit.
    open spec fn args_spec(self) -> Seq<Seq<char>> {
        seq!["revert"@, "-m1"@, self.source.spec@]
    }

    fn make_args(self) -> (r: Result<Vec<String>, MakeArgsErr>) {
        let mut cmd_args = start_args("revert");
        push_str(&mut cmd_args, "-m1");
        let spec = self.source.get_commit_spec();
        push_str(&mut cmd_args, spec.as_str());
        proof {
            assert(string_views(cmd_args@) =~= self.args_spec());
        }
        Ok(cmd_args)
    }
}

/// Push all tags to the remote repository.
pub struct PushTags {
    pub repository: Option<String>,
}

impl ArgMaker for PushTags {
    /// `git push --tags`, to the repository when given.
    open spec fn args_spec(self) -> Seq<Seq<char>> {
        seq!["push"@, "--tags"@] + opt_arg(self.repository)
    }

    fn make_args(self) -> (r: Result<Vec<String>, MakeArgsErr>) {
        let mut args = start_args("push");
        push_str(&mut args, "--tags");
        push_opt(&mut args, self.repository);
        proof {
            assert(string_views(args@) =~= self.args_spec());
        }
        Ok(args)
    }
}

/// Record the current contents of the working tree.
pub struct CommitCmd {
    pub message: Option<String>,
    pub amend: bool,
    pub skip_hooks: bool,
    pub no_all: bool,
    pub no_strict: bool,
}

impl ArgMaker for CommitCmd {
    /// `git commit`, of all changes unless only the index is asked for, with the message
    /// when given, amending and skipping hooks when asked.
    open spec fn args_spec(self) -> Seq<Seq<char>> {
        seq!["commit"@] + flag(!self.no_all, "--all"@) + match self.message {
            Some(m) => seq!["--message"@, m@],
            None => Seq::empty(),
        } + flag(self.amend, "--amend"@) + flag(self.skip_hooks, "--no-verify"@)
    }

    fn make_args(self) -> (r: Result<Vec<String>, MakeArgsErr>) {
        let mut cmd_args = start_args("commit");
        push_flag(&mut cmd_args, !self.no_all, "--all");
        let ghost a = string_views(cmd_args@);
        match self.message {
            Some(m) => {
                push_str(&mut cmd_args, "--message");
                push_str(&mut cmd_args, m.as_str());
                proof {
                    assert(string_views(cmd_args@) =~= a + seq!["--message"@, m@]);
                }
            },
            None => {
                proof {
                    assert(string_views(cmd_args@) =~= a + Seq::<Seq<char>>::empty());
                }
            },
        }
        push_flag(&mut cmd_args, self.amend, "--amend");
        push_flag(&mut cmd_args, self.skip_hooks, "--no-verify");
        proof {
            assert(string_views(cmd_args@) =~= self.args_spec());
        }
        Ok(cmd_args)
    }
}


/// A report with at most one line on each stream.
fn report(code: i32, out: Option<String>, err: Option<String>) -> (r: Report)
    ensures
        r.code == code,
        string_views(r.out@) == opt_arg(out),
        string_views(r.err@) == opt_arg(err),
        r.out@.len() == opt_arg(out).len(),
        r.err@.len() == opt_arg(err).len(),
{
    let mut o: Vec<String> = Vec::new();
    push_opt(&mut o, out);
    let mut e: Vec<String> = Vec::new();
    push_opt(&mut e, err);
    proof {
        assert(Seq::<Seq<char>>::empty() + opt_arg(out) =~= opt_arg(out));
        assert(Seq::<Seq<char>>::empty() + opt_arg(err) =~= opt_arg(err));
    }
    proof {
        assert(string_views(o@).len() == o@.len());
        assert(string_views(e@).len() == e@.len());
    }
    Report { code, out: o, err: e }
}

/// The commands that run git with arguments of their own.
pub enum RewriteCommand {
    Cat(Cat),
    Show(Show),
    Diff(Diff),
    Log(Log),
    Pull(Pull),
    PushTags(PushTags),
    Restore(Restore),
    Revert(Revert),
}

impl RewriteCommand {
    /// The git arguments for the command; `base_tree` is the tree of HEAD, which a `diff`
    /// with no source compares against, and `head` the spec of HEAD, which a `restore`
    /// with no source restores from.
    pub fn make_args(
        self,
        base_tree: Option<Result<TreeSpec, GitError>>,
        head: Option<Result<SomethingSpec, CommitErr>>,
    ) -> (r: Result<Vec<String>, MakeArgsErr>)
        requires
            self matches RewriteCommand::Diff(d) ==> (d.source is None ==> base_tree is Some),
            self matches RewriteCommand::Restore(c) ==> (c.source is None ==> head is Some),
        ensures
            self matches RewriteCommand::Cat(c) ==> (r matches Ok(a) && string_views(a@) == c.args_spec()),
            self matches RewriteCommand::Show(c) ==> (r matches Ok(a) && string_views(a@) == c.args_spec()),
            self matches RewriteCommand::Log(c) ==> (r matches Ok(a) && string_views(a@) == c.args_spec()),
            self matches RewriteCommand::Pull(c) ==> (r matches Ok(a) && string_views(a@) == c.args_spec()),
            self matches RewriteCommand::PushTags(c) ==> (r matches Ok(a) && string_views(a@) == c.args_spec()),
            self matches RewriteCommand::Revert(c) ==> (r matches Ok(a) && string_views(a@) == c.args_spec()),
    {
        match self {
            RewriteCommand::Cat(c) => c.make_args(),
            RewriteCommand::Show(c) => c.make_args(),
            RewriteCommand::Diff(c) => c.make_args(base_tree),
            RewriteCommand::Log(c) => c.make_args(),
            RewriteCommand::Pull(c) => c.make_args(),
            RewriteCommand::PushTags(c) => c.make_args(),
            RewriteCommand::Restore(c) => c.make_args(head),
            RewriteCommand::Revert(c) => c.make_args(),
        }
    }
}

/// The report of a switch: nothing when it happened; else why not, with exit code 1.
/// `target` is the name switched to.
pub open spec fn switch_report_spec(target: Seq<char>, result: Result<(), SwitchErr>, r: Report) -> bool {
    match result {
        Ok(()) => r.code == 0 && r.out@.len() == 0 && r.err@.len() == 0,
        Err(SwitchErr::BranchInUse { path }) => r.code == 1 && string_views(r.out@) == seq![
            "Branch "@ + target + " is already in use at "@ + path@,
        ] && r.err@.len() == 0,
        Err(SwitchErr::AlreadyExists) => r.code == 1 && r.out@.len() == 0 && string_views(r.err@)
            == seq!["Branch "@ + target + " already exists"@],
        Err(SwitchErr::NotFound) => r.code == 1 && r.out@.len() == 0 && string_views(r.err@)
            == seq!["Branch "@ + target + " not found"@],
        Err(SwitchErr::InvalidBranchName(b)) => r.code == 1 && r.out@.len() == 0 && string_views(
            r.err@,
        ) == seq!["'"@ + b@.name + "' is not a valid branch name"@],
        Err(SwitchErr::GitError(e)) => r.code == 1 && r.out@.len() == 0 && string_views(r.err@)
            == seq![e.message_spec()],
        Err(SwitchErr::OpenRepoError(_)) => r.code == 1 && r.out@.len() == 0 && r.err@.len() == 1,
        Err(SwitchErr::LinkFailure(m)) => r.code == 1 && r.out@.len() == 0 && string_views(r.err@)
            == seq![m@],
    }
}

/// Join three pieces of text.
fn join3(a: &str, b: &str, c: &str) -> (r: String)
    ensures
        r@ == a@ + b@ + c@,
{
    let mut r = a.to_owned();
    r.append(b);
    r.append(c);
    r
}

/// The report of a switch to the target of `switch_type`, once it is over.
pub fn handle_switch(switch_type: &SwitchType, result: Result<(), SwitchErr>) -> (r: Report)
    ensures
        switch_report_spec(switch_type.target_name(), result, r),
{
    let target = switch_type.target();
    match result {
        Ok(()) => report(0, None, None),
        Err(SwitchErr::BranchInUse { path }) => {
            let mut m = join3("Branch ", target.as_str(), " is already in use at ");
            m.append(path.as_str());
            report(1, Some(m), None)
        },
        Err(SwitchErr::AlreadyExists) => report(
            1,
            None,
            Some(join3("Branch ", target.as_str(), " already exists")),
        ),
        Err(SwitchErr::NotFound) => report(1, None, Some(join3("Branch ", target.as_str(), " not found"))),
        Err(SwitchErr::InvalidBranchName(invalid_branch)) => report(
            1,
            None,
            Some(join3("'", invalid_branch.branch_name(), "' is not a valid branch name")),
        ),
        Err(SwitchErr::GitError(err)) => report(1, None, Some(err.message())),
        Err(SwitchErr::OpenRepoError(err)) => report(1, None, Some(err.message())),
        Err(SwitchErr::LinkFailure(err)) => report(1, None, Some(err)),
    }
}

/// Switch to a branch, stashing and restoring pending changes.
pub struct Switch {
    pub branch: String,
    pub create: bool,
    pub keep: bool,
}

impl Switch {
    /// How to switch: create the branch, or switch to the name keeping or stashing local
    /// changes.
    pub fn switch_type(&self) -> (r: SwitchType)
        ensures
            self.create ==> (r matches SwitchType::Create(b) && b@ == (LocalBranchNameView {
                name: self.branch@,
                is_shorthand: None,
            })),
            !self.create && self.keep ==> (r matches SwitchType::PlainSwitch(
                BranchyName::UnresolvedName(n),
            ) && n@ == self.branch@),
            !self.create && !self.keep ==> (r matches SwitchType::WithStash(
                BranchyName::UnresolvedName(n),
            ) && n@ == self.branch@),
    {
        if self.create {
            SwitchType::Create(LocalBranchName::new(self.branch.clone(), None))
        } else {
            let target = BranchyName::UnresolvedName(self.branch.clone());
            if self.keep {
                SwitchType::PlainSwitch(target)
            } else {
                SwitchType::WithStash(target)
            }
        }
    }
}

/// Switch to the next branch in a sequence (or create the next branch).
pub struct SwitchNext {
    pub keep: bool,
    pub create: Option<String>,
    pub next_num: bool,
}

impl SwitchNext {
    /// The command with its options.
    pub fn new(keep: bool, create: Option<String>, next_num: bool) -> (r: SwitchNext)
        ensures
            r.keep == keep,
            r.create == create,
            r.next_num == next_num,
    {
        SwitchNext { keep, create, next_num }
    }

    /// The branch to create as the next one, when one is named; none to switch to the
    /// existing next branch.
    pub fn create_target(&self) -> (r: Option<LocalBranchName>)
        ensures
            match self.create {
                Some(c) => r matches Some(b) && b@ == (LocalBranchNameView { name: c@, is_shorthand: None }),
                None => r is None,
            },
    {
        match &self.create {
            Some(create) => Some(LocalBranchName::new(create.clone(), None)),
            None => None,
        }
    }
}

/// Switch to the previous branch in a sequence.
pub struct SwitchPrev {
    pub keep: bool,
}

/// Remove a branch from its sequence.
pub struct DisconnectBranch {
    pub name: String,
}

/// View and/or set the next branch.
pub struct NextBranch {
    pub next: Option<String>,
}

/// List a branch sequence.
pub struct Pipeline {}

/// Perform a fake merge of a branch or commit, leaving the local tree unmodified.
pub struct FakeMerge {
    pub source: CommitSpec,
    pub message: Option<String>,
}

impl FakeMerge {
    /// The message of the fake-merge commit: the one given, or "Fake merge.".
    pub fn commit_message(&self) -> (r: String)
        ensures
            match self.message {
                Some(m) => r@ == m@,
                None => r@ == "Fake merge."@,
            },
    {
        match &self.message {
            Some(m) => m.clone(),
            None => String::from_str("Fake merge."),
        }
    }
}

/// Convert all commits from a branch point into a single commit.
pub struct SquashCommit {
    pub branch_point: Option<CommitSpec>,
    pub message: Option<String>,
}

impl SquashCommit {
    /// The message of the squash commit: the one given, or "Squash commit".
    pub fn commit_message(&self) -> (r: String)
        ensures
            match self.message {
                Some(m) => r@ == m@,
                None => r@ == "Squash commit"@,
            },
    {
        match &self.message {
            Some(m) => m.clone(),
            None => String::from_str("Squash commit"),
        }
    }

    /// The line that tells how to undo a squash of `head`.
    pub fn undo_hint(head: &Commit) -> (r: String)
        ensures
            r@ == "Commit squashed.  To undo: oaf reset "@ + head.sha@,
    {
        let mut r = String::from_str("Commit squashed.  To undo: oaf reset ");
        r.append(head.sha.as_str());
        r
    }
}

/// The head to squash or fake-merge onto; a message when HEAD has no commit.
pub fn head_for_squash(head: Result<Commit, CommitErr>) -> (r: Result<Commit, String>)
    ensures
        match head {
            Ok(c) => r == Ok::<Commit, String>(c),
            Err(_) => r matches Err(m) && m@ == "Cannot squash commit: no commits in HEAD."@,
        },
{
    match head {
        Ok(c) => Ok(c),
        Err(_) => Err(String::from_str("Cannot squash commit: no commits in HEAD.")),
    }
}

/// Disabled, to avoid discarding stashed changes by accident.
pub struct Checkout {
    pub _branch_name: String,
    pub _branch: bool,
}

impl Checkout {
    /// The report: a pointer to `switch` and `restore`, with exit code 1.
    pub fn report(&self) -> (r: Report)
        ensures
            r.code == 1,
            r.out@.len() == 0,
            string_views(r.err@) == seq![
                "Please use \"switch\" to change branches or \"restore\" to restore files to a known state"@,
            ],
    {
        report(
            1,
            None,
            Some(
                String::from_str(
                    "Please use \"switch\" to change branches or \"restore\" to restore files to a known state",
                ),
            ),
        )
    }
}

/// Show the status of changed and unknown files in the working tree.
pub struct Status {}

/// Tell git to ignore files that have not been added.
pub struct Ignore {
    pub local: bool,
    pub recurse: bool,
    pub files: Vec<String>,
}

/// Ignore changes to added files, or list the files whose changes are ignored.
pub struct IgnoreChanges {
    pub files: Vec<String>,
    pub unset: bool,
}

/// Show the revision number of a commit.
pub struct Revno {
    pub commit: Option<CommitSpec>,
}

/// Apply the changes from another branch or commit to the current tree.
pub struct Merge {
    pub source: Option<CommitSpec>,
    pub remember: bool,
}

impl Merge {
    /// The `git config` arguments that remember the merged source as the target of
    /// `current`, after a merge that exited with `code`: only when the merge succeeded,
    /// remembering was asked for, and the source resolved (`resolved`) to a branch.
    pub fn target_setting(code: i32, remember: bool, current: &LocalBranchName, resolved: Option<
        ExtantRefName,
    >) -> (r: Option<Vec<String>>)
        ensures
            !(code == 0 && remember) ==> r is None,
            code == 0 && remember ==> match resolved {
                Some(ExtantRefName { name: Ok(target), .. }) => r matches Some(args) && string_views(args@)
                    == seq![
                    "config"@,
                    "--replace"@,
                    "--local"@,
                    crate::git::branch_prefix_spec(current@.name) + "oaf-target-branch"@,
                    target.full_spec(),
                ],
                _ => r is None,
            },
    {
        if code != 0 || !remember {
            return None;
        }
        match resolved {
            Some(ExtantRefName { name: Ok(target), .. }) => Some(crate::switch::set_target(current, &target)),
            _ => None,
        }
    }

    /// The `git merge` arguments that merge `source` without committing.
    pub fn merge_args(source: &CommitSpec) -> (r: Vec<String>)
        ensures
            string_views(r@) == seq!["merge"@, "--no-commit"@, "--no-ff"@, source.spec@],
    {
        let mut r = start_args("merge");
        push_str(&mut r, "--no-commit");
        push_str(&mut r, "--no-ff");
        push_str(&mut r, source.spec.as_str());
        proof {
            assert(string_views(r@) =~= seq!["merge"@, "--no-commit"@, "--no-ff"@, source.spec@]);
        }
        r
    }
}

/// Show the changes that merging the working tree into a target would bring.
pub struct MergeDiff {
    pub target: Option<CommitSpec>,
    pub myers: bool,
    pub name_only: bool,
    pub path: Vec<String>,
    pub remember: bool,
}

impl MergeDiff {
    /// The `git diff` arguments that compare the working tree with its merge base with the
    /// target; refused when HEAD has no commit.
    pub fn make_args(self, head_exists: bool, merge_base: Option<Commit>) -> (r: Result<
        Vec<String>,
        MakeArgsErr,
    >)
        requires
            head_exists ==> merge_base is Some,
        ensures
            !head_exists ==> r matches Err(MakeArgsErr::MergeDiffNoHead),
            head_exists ==> (r matches Ok(args) && string_views(args@) == seq!["diff"@] + flag(
                !self.myers,
                "--patience"@,
            ) + flag(self.name_only, "--name-only"@) + seq![merge_base->0.sha@] + path_args(
                self.path@,
            )),
    {
        if !head_exists {
            return Err(MakeArgsErr::MergeDiffNoHead);
        }
        let diff = Diff {
            source: merge_base,
            target: None,
            myers: self.myers,
            name_only: self.name_only,
            path: self.path,
        };
        proof {
            assert(opt_commit(None) + path_args(diff.path@) =~= path_args(diff.path@));
        }
        diff.make_args(None)
    }
}

/// Transfer local changes to a remote repository and branch.
pub struct Push {
    pub force: bool,
    pub repository: Option<String>,
}

impl Push {
    /// The `git push` arguments.  With an upstream set for the branch, push to it (or to
    /// the repository given); else set the upstream to the same branch on the repository
    /// given, or on `origin`, which needs a commit in HEAD (`head`).  `--force` when asked.
    pub fn make_args(self, upstream_set: bool, merge_set: bool, head: Option<Result<Commit, CommitErr>>) -> (r:
        Result<Vec<String>, String>)
        requires
            upstream_set ==> merge_set,
            !upstream_set ==> head is Some,
        ensures
            upstream_set ==> (r matches Ok(args) && string_views(args@) == seq!["push"@] + opt_arg(
                self.repository,
            ) + flag(self.force, "--force"@)),
            !upstream_set ==> match head->0 {
                Ok(_) => r matches Ok(args) && string_views(args@) == seq![
                    "push"@,
                    "-u"@,
                    match self.repository {
                        Some(repo) => repo@,
                        None => "origin"@,
                    },
                    "HEAD"@,
                ] + flag(self.force, "--force"@),
                Err(CommitErr::NoCommit { .. }) => r matches Err(m) && m@
                    == "Cannot push: no commits in HEAD."@,
                Err(CommitErr::GitError(e)) => r matches Err(m) && m@ == e.message_spec(),
            },
    {
        let mut args = start_args("push");
        if upstream_set {
            push_opt(&mut args, self.repository);
        } else {
            match head {
                Some(Ok(_)) => {
                    push_str(&mut args, "-u");
                    match &self.repository {
                        Some(repo) => push_str(&mut args, repo.as_str()),
                        None => push_str(&mut args, "origin"),
                    }
                    push_str(&mut args, "HEAD");
                },
                Some(Err(CommitErr::NoCommit { .. })) => {
                    return Err(String::from_str("Cannot push: no commits in HEAD."));
                },
                Some(Err(CommitErr::GitError(err))) => {
                    return Err(err.message());
                },
                None => {},
            }
        }
        push_flag(&mut args, self.force, "--force");
        Ok(args)
    }
}


/// How the branch stands against its upstream.
pub open spec fn upstream_message_spec(name: Seq<char>, added: nat, removed: nat) -> Seq<char> {
    if added == 0 && removed == 0 {
        "Your branch is up to date with '"@ + name + "'."@
    } else if added == 0 {
        "Your branch is behind '"@ + name + "' by "@ + decimal_spec(removed)
            + " commit(s), and can be fast-forwarded."@
    } else if removed == 0 {
        "Your branch is ahead of '"@ + name + "' by "@ + decimal_spec(added) + " commit(s)."@
    } else {
        "Your branch and '"@ + name + "' have diverged,\nand have "@ + decimal_spec(added) + " and "@
            + decimal_spec(removed) + " different commits each, respectively.\n  (use \"oaf merge "@
            + name + "\" to merge the remote branch into yours)"@
    }
}

/// How the branch stands against its upstream.
pub fn upstream_message(upstream: &UpstreamInfo) -> (r: String)
    ensures
        r@ == upstream_message_spec(upstream.name@, upstream.added as nat, upstream.removed as nat),
{
    let name = upstream.name.as_str();
    if upstream.added == 0 && upstream.removed == 0 {
        join3("Your branch is up to date with '", name, "'.")
    } else if upstream.added == 0 {
        let mut m = join3("Your branch is behind '", name, "' by ");
        m.append(decimal(upstream.removed as u64).as_str());
        m.append(" commit(s), and can be fast-forwarded.");
        m
    } else if upstream.removed == 0 {
        let mut m = join3("Your branch is ahead of '", name, "' by ");
        m.append(decimal(upstream.added as u64).as_str());
        m.append(" commit(s).");
        m
    } else {
        let mut m = join3("Your branch and '", name, "' have diverged,\nand have ");
        m.append(decimal(upstream.added as u64).as_str());
        m.append(" and ");
        m.append(decimal(upstream.removed as u64).as_str());
        m.append(" different commits each, respectively.\n  (use \"oaf merge ");
        m.append(name);
        m.append("\" to merge the remote branch into yours)");
        m
    }
}

/// The lines that `status` shows above the entries: the branch, and how it stands
/// against its upstream; none for a detached head.
pub open spec fn status_header_spec(head: WorktreeHead) -> Seq<Seq<char>> {
    match head {
        WorktreeHead::Attached { head, upstream, .. } => seq!["On branch "@ + head@.name] + match upstream {
            Some(u) => seq![upstream_message_spec(u.name@, u.added as nat, u.removed as nat)],
            None => Seq::empty(),
        },
        WorktreeHead::Detached(_) => Seq::empty(),
    }
}

/// Whether `status` can show an entry with paths relative to `current_dir`.
pub fn entry_formattable(e: &crate::worktree::StatusEntry, current_dir: &str) -> (r: bool)
    ensures
        r == format_ok(e@, current_dir@),
{
    if relative_path(current_dir, e.filename).is_err() {
        return false;
    }
    match e.state {
        crate::worktree::EntryState::Renamed { old_filename, .. } => relative_path(current_dir, old_filename).is_ok(),
        _ => true,
    }
}

impl Status {
    /// Whether every file of the status can be shown with paths relative to `top_rel`,
    /// which [`Status::report`] needs.
    pub fn formattable(gs: &GitStatus, top_rel: &str) -> (r: bool)
        requires
            all_ok(gs.status_lines(), 0),
        ensures
            r == forall|f: Seq<char>| #[trigger] fixed_entries(entries_from(gs.status_lines(), 0)).contains_key(f)
                ==> format_ok(fixed_entries(entries_from(gs.status_lines(), 0))[f], top_rel@),
    {
        let mut iter = gs.iter();
        let entries = iter.fix_removals();
        let ghost fx = fixed_entries(entries_from(gs.status_lines(), 0));
        let ghost es = crate::removals::entry_views(entries@);
        let mut k: usize = 0;
        while k < entries.len()
            invariant
                k <= entries@.len(),
                es == crate::removals::entry_views(entries@),
                holds_map(es, fx),
                fx == fixed_entries(entries_from(gs.status_lines(), 0)),
                forall|i: int| 0 <= i < k ==> format_ok(#[trigger] es[i], top_rel@),
            decreases entries@.len() - k,
        {
            proof {
                assert(es[k as int] == entries@[k as int]@);
            }
            if !entry_formattable(&entries[k], top_rel) {
                proof {
                    crate::removals::lemma_has_name(es, k as int);
                    assert(fx.contains_key(es[k as int].filename));
                    assert(fx[es[k as int].filename] == es[k as int]);
                    assert(!format_ok(fx[es[k as int].filename], top_rel@));
                }
                return false;
            }
            k = k + 1;
        }
        proof {
            assert forall|f: Seq<char>| #[trigger] fx.contains_key(f) implies format_ok(fx[f], top_rel@) by {
                assert(crate::removals::has_name(es, f));
                let i = choose|i: int| 0 <= i < es.len() && #[trigger] es[i].filename == f;
                assert(fx[es[i].filename] == es[i]);
                assert(format_ok(es[i], top_rel@));
            }
        }
        true
    }

    /// The lines that `status` shows: the header, then one line per file (sorted by name,
    /// as [`StatusIter::fix_removals`] gives them), paths relative to `top_rel`, the
    /// current directory's path from the top of the tree; on stderr, the status lines it
    /// does not handle.  The exit code is 1.
    pub fn report(&self, gs: &GitStatus, top_rel: &str) -> (r: Report)
        requires
            all_ok(gs.status_lines(), 0),
            forall|f: Seq<char>| #[trigger] fixed_entries(entries_from(gs.status_lines(), 0)).contains_key(f)
                ==> format_ok(fixed_entries(entries_from(gs.status_lines(), 0))[f], top_rel@),
        ensures
            r.code == 1,
            string_views(r.err@) == crate::worktree::unhandled_messages(gs.status_lines()),
            string_views(r.out@).take(status_header_spec(gs.head_spec()).len() as int)
                == status_header_spec(gs.head_spec()),
            ({
                let h = status_header_spec(gs.head_spec()).len();
                let fx = fixed_entries(entries_from(gs.status_lines(), 0));
                let shown = string_views(r.out@).skip(h as int);
                &&& exists|es: Seq<StatusEntryView>|
                    #![trigger sorted_by_name(es)]
                    sorted_by_name(es) && holds_map(es, fx) && es.len() == shown.len() && forall|i: int|
                        0 <= i < es.len() ==> shown[i] == format_entry_spec(es[i], top_rel@)
            }),
    {
        let mut out: Vec<String> = Vec::new();
        match gs.get_head() {
            WorktreeHead::Attached { head, upstream, .. } => {
                let mut line = String::from_str("On branch ");
                line.append(head.branch_name());
                out.push(line);
                if let Some(upstream) = upstream {
                    out.push(upstream_message(upstream));
                }
            },
            WorktreeHead::Detached(_) => {},
        }
        let ghost header = string_views(out@);
        proof {
            assert(header =~= status_header_spec(gs.head_spec()));
        }
        let mut iter = gs.iter();
        let entries = iter.fix_removals();
        let ghost fx = fixed_entries(entries_from(gs.status_lines(), 0));
        let ghost es = crate::removals::entry_views(entries@);
        let mut k: usize = 0;
        while k < entries.len()
            invariant
                k <= entries@.len(),
                es == crate::removals::entry_views(entries@),
                holds_map(es, fx),
                fx == fixed_entries(entries_from(gs.status_lines(), 0)),
                forall|f: Seq<char>| #[trigger] fx.contains_key(f) ==> format_ok(fx[f], top_rel@),
                string_views(out@).len() == header.len() + k,
                string_views(out@).take(header.len() as int) == header,
                forall|i: int| 0 <= i < k ==> string_views(out@)[header.len() + i] == format_entry_spec(es[i], top_rel@),
            decreases entries@.len() - k,
        {
            proof {
                assert(es[k as int] == entries@[k as int]@);
                crate::removals::lemma_has_name(es, k as int);
                assert(fx.contains_key(es[k as int].filename));
                assert(fx[es[k as int].filename] == es[k as int]);
            }
            let line = entries[k].format_entry(top_rel);
            let ghost before = string_views(out@);
            out.push(line);
            proof {
                assert(string_views(out@) =~= before.push(line@));
            }
            k = k + 1;
        }
        proof {
            let shown = string_views(out@).skip(header.len() as int);
            assert(shown.len() == es.len());
            assert forall|i: int| 0 <= i < es.len() implies shown[i] == format_entry_spec(es[i], top_rel@) by {
                assert(shown[i] == string_views(out@)[header.len() + i]);
            }
            assert(sorted_by_name(es));
        }
        Report { code: 1, out, err: gs.unhandled_report() }
    }
}


/// An entry of an ignore file.
pub enum IgnoreEntry {
    /// A pattern that applies at any depth.
    RecursiveEntry(String),
    /// A path from the top of the tree.
    SpecificEntry(String),
}

/// The line for an entry in an ignore file.  A specific path without a slash is anchored
/// at the top with a leading slash (a pattern without one would apply at any depth).
pub open spec fn ignore_line_spec(e: IgnoreEntry) -> Seq<char> {
    match e {
        IgnoreEntry::RecursiveEntry(p) => p@,
        IgnoreEntry::SpecificEntry(p) => if p@.contains('/') {
            p@
        } else {
            "/"@ + p@
        },
    }
}

impl IgnoreEntry {
    /// The line for the entry in an ignore file.
    pub fn make_string(&self) -> (r: String)
        ensures
            r@ == ignore_line_spec(*self),
    {
        match self {
            IgnoreEntry::RecursiveEntry(path) => path.clone(),
            IgnoreEntry::SpecificEntry(path) => {
                let slash = crate::text::contains(path.as_str(), "/");
                proof {
                    reveal_strlit("/");
                    assert("/"@ =~= seq!['/']);
                    crate::text::lemma_contains_char(path@, '/');
                }
                if slash {
                    path.clone()
                } else {
                    let mut r = String::from_str("/");
                    r.append(path.as_str());
                    r
                }
            },
        }
    }
}

/// The contents of an ignore file after adding entries to its current contents.
pub fn add_ignores(entries: Vec<IgnoreEntry>, ignores: String) -> (r: String)
    ensures
        r@ == crate::worktree::join_lines_spec(crate::text::lines_spec(ignores@) + entries@.map_values(
            |e: IgnoreEntry| ignore_line_spec(e),
        )),
{
    let mut lines: Vec<String> = Vec::new();
    let mut k: usize = 0;
    while k < entries.len()
        invariant
            k <= entries@.len(),
            string_views(lines@) == entries@.map_values(|e: IgnoreEntry| ignore_line_spec(e)).take(k as int),
        decreases entries@.len() - k,
    {
        let line = entries[k].make_string();
        proof {
            assert(string_views(lines@.push(line)) =~= string_views(lines@).push(line@));
            assert(entries@.map_values(|e: IgnoreEntry| ignore_line_spec(e)).take(k + 1)
                =~= entries@.map_values(|e: IgnoreEntry| ignore_line_spec(e)).take(k as int).push(line@));
        }
        lines.push(line);
        k = k + 1;
    }
    proof {
        assert(entries@.map_values(|e: IgnoreEntry| ignore_line_spec(e)).take(entries@.len() as int)
            =~= entries@.map_values(|e: IgnoreEntry| ignore_line_spec(e)));
    }
    crate::worktree::append_lines(ignores, lines)
}

/// The warnings for recursive patterns that contain a slash, which makes them not
/// recursive.
pub open spec fn slash_warnings(files: Seq<String>) -> Seq<Seq<char>>
    decreases files.len(),
{
    if files.len() == 0 {
        Seq::empty()
    } else {
        let rest = slash_warnings(files.drop_last());
        if files.last()@.contains('/') {
            rest.push("Warning: \""@ + files.last()@ + "\" will not be recursive because it contains a slash."@)
        } else {
            rest
        }
    }
}

impl Ignore {
    /// The entry for a file given by its normalized path, relative to the top of the tree.
    pub fn make_specific_entry(top: &str, path: &str) -> (r: IgnoreEntry)
        requires
            relative_path_spec(top@, path@) is Some,
        ensures
            r matches IgnoreEntry::SpecificEntry(p) && p@ == relative_path_spec(top@, path@)->0,
    {
        match relative_path(top, path) {
            Ok(p) => IgnoreEntry::SpecificEntry(p),
            Err(_) => IgnoreEntry::SpecificEntry(String::new()),
        }
    }

    /// The entries to add for the files: patterns at any depth when recursing, else their
    /// paths from `top`, given their `normalized` paths.  With them, the warnings for
    /// recursive patterns that contain a slash (which makes them not recursive).
    pub fn entries(&self, top: &str, normalized: &Vec<String>) -> (r: (Vec<IgnoreEntry>, Vec<String>))
        requires
            !self.recurse ==> normalized@.len() == self.files@.len() && forall|i: int|
                0 <= i < normalized@.len() ==> relative_path_spec(top@, #[trigger] normalized@[i]@) is Some,
        ensures
            r.0@.len() == self.files@.len(),
            forall|i: int|
                #![trigger r.0@[i]]
                0 <= i < r.0@.len() ==> if self.recurse {
                    r.0@[i] matches IgnoreEntry::RecursiveEntry(p) && p@ == self.files@[i]@
                } else {
                    r.0@[i] matches IgnoreEntry::SpecificEntry(p) && p@ == relative_path_spec(
                        top@,
                        normalized@[i]@,
                    )->0
                },
            self.recurse ==> string_views(r.1@) == slash_warnings(self.files@),
    {
        let mut entries: Vec<IgnoreEntry> = Vec::new();
        let mut warnings: Vec<String> = Vec::new();
        let mut k: usize = 0;
        while k < self.files.len()
            invariant
                k <= self.files@.len(),
                entries@.len() == k,
                !self.recurse ==> normalized@.len() == self.files@.len() && forall|i: int|
                    0 <= i < normalized@.len() ==> relative_path_spec(top@, #[trigger] normalized@[i]@) is Some,
                forall|i: int|
                    #![trigger entries@[i]]
                    0 <= i < k ==> if self.recurse {
                        entries@[i] matches IgnoreEntry::RecursiveEntry(p) && p@ == self.files@[i]@
                    } else {
                        entries@[i] matches IgnoreEntry::SpecificEntry(p) && p@ == relative_path_spec(
                            top@,
                            normalized@[i]@,
                        )->0
                    },
                self.recurse ==> string_views(warnings@) == slash_warnings(self.files@.take(k as int)),
            decreases self.files@.len() - k,
        {
            let line = &self.files[k];
            proof {
                assert(self.files@.take(k + 1).drop_last() =~= self.files@.take(k as int));
                assert(self.files@.take(k + 1).last() == self.files@[k as int]);
            }
            if self.recurse {
                let slash = crate::text::contains(line.as_str(), "/");
                proof {
                    reveal_strlit("/");
                    assert("/"@ =~= seq!['/']);
                    crate::text::lemma_contains_char(line@, '/');
                }
                if slash {
                    let mut w = String::from_str("Warning: \"");
                    w.append(line.as_str());
                    w.append("\" will not be recursive because it contains a slash.");
                    proof {
                        assert(string_views(warnings@.push(w)) =~= string_views(warnings@).push(w@));
                    }
                    warnings.push(w);
                }
                entries.push(IgnoreEntry::RecursiveEntry(line.clone()));
            } else {
                entries.push(Ignore::make_specific_entry(top, normalized[k].as_str()));
            }
            k = k + 1;
        }
        proof {
            assert(self.files@.take(self.files@.len() as int) =~= self.files@);
        }
        (entries, warnings)
    }
}

impl IgnoreChanges {
    /// The `git update-index` arguments that set (or with `--unset`, clear) the flag that
    /// ignores changes to the files.
    pub fn make_args(&self) -> (r: Vec<String>)
        ensures
            string_views(r@) == seq![
                "update-index"@,
                if self.unset {
                    "--no-assume-unchanged"@
                } else {
                    "--assume-unchanged"@
                },
            ] + string_views(self.files@),
    {
        let action = if self.unset {
            "--no-assume-unchanged"
        } else {
            "--assume-unchanged"
        };
        let mut args = start_args("update-index");
        push_str(&mut args, action);
        let mut k: usize = 0;
        let ghost start = string_views(args@);
        while k < self.files.len()
            invariant
                k <= self.files@.len(),
                string_views(args@) == start + string_views(self.files@).take(k as int),
            decreases self.files@.len() - k,
        {
            push_str(&mut args, self.files[k].as_str());
            proof {
                assert(string_views(self.files@).take(k + 1) =~= string_views(self.files@).take(k as int).push(self.files@[k as int]@));
            }
            k = k + 1;
        }
        proof {
            assert(string_views(self.files@).take(self.files@.len() as int) =~= string_views(self.files@));
        }
        args
    }
}

/// The files whose changes are ignored, from the output of `git ls-files -v`: the lines
/// that start with `h `, without it.
pub open spec fn assume_unchanged_spec(lines: Seq<Seq<char>>) -> Seq<Seq<char>>
    decreases lines.len(),
{
    if lines.len() == 0 {
        Seq::empty()
    } else {
        let rest = assume_unchanged_spec(lines.drop_last());
        match strip_prefix_spec(lines.last(), "h "@) {
            Some(f) => rest.push(f),
            None => rest,
        }
    }
}

/// The files whose changes are ignored, from the output of `git ls-files -v`.
#[verifier::spinoff_prover]
pub fn assume_unchanged_files(ls_files: &str) -> (r: Vec<String>)
    ensures
        string_views(r@) == assume_unchanged_spec(crate::text::lines_spec(ls_files@)),
{
    let ls = crate::text::lines(ls_files);
    let mut r: Vec<String> = Vec::new();
    let mut k: usize = 0;
    while k < ls.len()
        invariant
            k <= ls@.len(),
            views(ls@) == crate::text::lines_spec(ls_files@),
            string_views(r@) == assume_unchanged_spec(views(ls@).take(k as int)),
        decreases ls@.len() - k,
    {
        proof {
            assert(views(ls@).take(k + 1).drop_last() =~= views(ls@).take(k as int));
            assert(views(ls@).take(k + 1).last() == ls@[k as int]@);
        }
        if let Some(f) = crate::text::strip_prefix(ls[k], "h ") {
            let s = f.to_owned();
            proof {
                assert(string_views(r@.push(s)) =~= string_views(r@).push(s@));
            }
            r.push(s);
        }
        k = k + 1;
    }
    proof {
        assert(views(ls@).take(ls@.len() as int) =~= views(ls@));
    }
    r
}

/// The lines that `pipeline` shows: the branches before the current one (given from the
/// nearest back), the current branch marked with `*`, and the branches after it.
pub open spec fn pipeline_spec(previous: Seq<Seq<char>>, current: Seq<char>, next: Seq<Seq<char>>) -> Seq<Seq<char>> {
    previous.reverse().map_values(|b: Seq<char>| "  "@ + b) + seq!["* "@ + current] + next.map_values(
        |b: Seq<char>| "  "@ + b,
    )
}

/// The lines that `pipeline` shows, from the branches before the current one (nearest
/// first), the current branch, and the branches after it (nearest first).
pub fn pipeline_lines(previous: &Vec<String>, current: &str, next: &Vec<String>) -> (r: Vec<String>)
    ensures
        string_views(r@) == pipeline_spec(string_views(previous@), current@, string_views(next@)),
{
    let mut r: Vec<String> = Vec::new();
    let mut k: usize = previous.len();
    let ghost pv = string_views(previous@);
    while k > 0
        invariant
            k <= previous@.len(),
            pv == string_views(previous@),
            string_views(r@) == pv.reverse().map_values(|b: Seq<char>| "  "@ + b).take(previous@.len() - k),
        decreases k,
    {
        k = k - 1;
        let mut line = String::from_str("  ");
        line.append(previous[k].as_str());
        proof {
            assert(string_views(r@.push(line)) =~= string_views(r@).push(line@));
            assert(pv.reverse().map_values(|b: Seq<char>| "  "@ + b).take(previous@.len() - k)
                =~= pv.reverse().map_values(|b: Seq<char>| "  "@ + b).take(previous@.len() - k - 1).push(line@));
        }
        r.push(line);
    }
    let mut line = String::from_str("* ");
    line.append(current);
    let ghost before = string_views(r@);
    r.push(line);
    proof {
        assert(pv.reverse().map_values(|b: Seq<char>| "  "@ + b).take(previous@.len() as int)
            =~= pv.reverse().map_values(|b: Seq<char>| "  "@ + b));
        assert(string_views(r@) =~= before.push(line@));
    }
    let ghost mid = string_views(r@);
    let ghost nv = string_views(next@);
    let mut k: usize = 0;
    while k < next.len()
        invariant
            k <= next@.len(),
            nv == string_views(next@),
            string_views(r@) == mid + nv.map_values(|b: Seq<char>| "  "@ + b).take(k as int),
        decreases next@.len() - k,
    {
        let mut line = String::from_str("  ");
        line.append(next[k].as_str());
        proof {
            assert(string_views(r@.push(line)) =~= string_views(r@).push(line@));
            assert(nv.map_values(|b: Seq<char>| "  "@ + b).take(k + 1)
                =~= nv.map_values(|b: Seq<char>| "  "@ + b).take(k as int).push(line@));
        }
        r.push(line);
        k = k + 1;
    }
    proof {
        assert(nv.map_values(|b: Seq<char>| "  "@ + b).take(next@.len() as int)
            =~= nv.map_values(|b: Seq<char>| "  "@ + b));
    }
    r
}

/// How the program was invoked, by the name it was run under.
pub enum Invocation {
    /// As `oaf`.
    Oaf,
    /// As `<anything>-<command>`, for that command.
    Alias(String),
    /// Under a name that is not supported.
    Unsupported,
}

/// How the program was invoked, by the name it was run under: `oaf`, or an alias such as
/// `oaf-status` or `git-status`'s look-alike `x-status` for one command (`git-` names
/// are not supported).
pub fn invocation(progname: &str) -> (r: Invocation)
    ensures
        progname@ == "oaf"@ ==> r is Oaf,
        progname@ != "oaf"@ ==> match crate::text::split_once_spec(progname@, "-"@) {
            Some((pre, cmd)) => if pre == "git"@ {
                r is Unsupported
            } else {
                r matches Invocation::Alias(c) && c@ == cmd
            },
            None => r is Unsupported,
        },
{
    if crate::text::str_eq(progname, "oaf") {
        return Invocation::Oaf;
    }
    match crate::text::split_once(progname, "-") {
        Some((pre, cmd)) => if crate::text::str_eq(pre, "git") {
            Invocation::Unsupported
        } else {
            Invocation::Alias(cmd.to_owned())
        },
        None => Invocation::Unsupported,
    }
}


/// The switch to the sibling of the current branch (the next or the previous one,
/// according to `T`), keeping or stashing local changes; a message when there is none.
pub fn switch_sibling<T: SiblingBranch>(repo: &git2::Repository, keep: bool) -> (r: Result<SwitchType, String>)
    ensures
        r matches Ok(t) ==> (keep ==> t is PlainSwitch) && (!keep ==> t is WithStash),
        r matches Ok(SwitchType::PlainSwitch(b)) ==> !(b is UnresolvedName),
        r matches Ok(SwitchType::WithStash(b)) ==> !(b is UnresolvedName),
{
    let current = get_local_current(repo)?;
    let sibling_ref = T::of(current);
    let target = match resolve_symbolic_reference(repo, &sibling_ref) {
        Ok(target) => target,
        Err(err) => return Err(T::describe(err)),
    };
    let target = match BranchyName::UnresolvedName(target).resolve(repo) {
        Ok(target) => target,
        Err(err) => return Err(T::describe(err)),
    };
    Ok(
        if keep {
            SwitchType::PlainSwitch(target)
        } else {
            SwitchType::WithStash(target)
        },
    )
}

/// The report of showing the next branch, from what following the reference to it gave
/// (its shortest name when it was found).
pub open spec fn show_report_spec(found: Result<String, RefErr>, r: Report) -> bool {
    &&& r.out@.len() + r.err@.len() == 1
    &&& match found {
        Ok(s) => r.code == 0 && string_views(r.out@) == seq![s@] && r.err@.len() == 0,
        Err(RefErr::NotFound(_)) => r.code == 0 && r.out@.len() == 0 && string_views(r.err@) == seq![
            "No next branch"@,
        ],
        Err(RefErr::NotBranch) => r.code == 1 && r.out@.len() == 0 && string_views(r.err@) == seq![
            "Next entry is not a branch."@,
        ],
        Err(RefErr::NotUtf8) => r.code == 1 && r.out@.len() == 0 && string_views(r.err@) == seq![
            "Next entry is not valid utf-8."@,
        ],
        Err(RefErr::Other(_)) => r.code == 1 && r.out@.len() == 0 && r.err@.len() == 1,
    }
}

/// The report of linking the current branch to the named one, from what linking gave.
pub open spec fn link_report_spec<'a>(result: Result<(), LinkFailure<'a>>, r: Report) -> bool {
    &&& result is Ok ==> r.code == 0 && r.out@.len() == 0 && r.err@.len() == 0
    &&& result is Err ==> r.code == 1 && r.out@.len() == 0 && r.err@.len() == 1
    &&& result matches Err(LinkFailure::PrevReferenceExists) ==> string_views(r.err@) == seq![
        "Previous reference exists"@,
    ]
    &&& result matches Err(LinkFailure::NextReferenceExists) ==> string_views(r.err@) == seq![
        "NextReferenceExists"@,
    ]
    &&& result matches Err(LinkFailure::SameReference) ==> string_views(r.err@) == seq![
        "Previous and next are the same."@,
    ]
}

/// What showing or setting the next branch of `current` gives, by whether a branch was
/// named: with none, the report of following `refs/pipe-next/<current>`; with one, the
/// report of linking `current` to it by [`crate::branch::link_plan_spec`], or a failure
/// when it was not found or is not a local branch.
pub open spec fn next_branch_spec<'a>(
    named: bool,
    current: LocalBranchNameView,
    r: Report,
    o: NextOutcome<'a>,
) -> bool {
    &&& r.code == 0 || r.code == 1
    &&& r.code == 1 ==> r.out@.len() + r.err@.len() == 1
    &&& !named ==> (o matches NextOutcome::Shown { followed, found } && followed@
        == crate::branch::pipe_next_spec(current.name) && show_report_spec(found, r))
    &&& named ==> !(o is Shown)
    &&& o matches NextOutcome::Linked { next, plan, result } ==> (next@.is_shorthand is None
        && pair_views(plan@) == crate::branch::link_plan_spec(current.name, next@.name)
        && link_report_spec(result, r) && (result matches Err(LinkFailure::SameReference)
        <==> current == next@))
    &&& o is Stopped ==> r.code == 1
}

/// What showing or setting the next branch did, besides its report.
pub enum NextOutcome<'repo> {
    /// The next branch was shown by following the sibling reference `followed`, which gave
    /// `found` (the shortest name of the branch it points at, when it points at one).
    Shown { followed: String, found: Result<String, RefErr> },
    /// The named branch `next` was linked after the current one: `plan` holds the links
    /// checked for and written, as (reference, target) pairs, and `result` what linking gave.
    Linked { next: LocalBranchName, plan: Vec<(String, String)>, result: Result<(), LinkFailure<'repo>> },
    /// The named branch was not found, or is not a local branch.
    Stopped,
}

impl NextBranch {
    /// The report of showing the next branch: its shortest name when following the
    /// reference to it succeeded, else why there is none (which is no failure when the
    /// reference does not exist).
    pub fn show_report(found: &Result<String, RefErr>) -> (r: Report)
        ensures
            show_report_spec(*found, r),
    {
        match found {
            Ok(shortest) => report(0, Some(shortest.clone()), None),
            Err(RefErr::NotFound(_)) => report(0, None, Some(String::from_str("No next branch"))),
            Err(RefErr::NotBranch) => report(1, None, Some(String::from_str("Next entry is not a branch."))),
            Err(RefErr::NotUtf8) => report(1, None, Some(String::from_str("Next entry is not valid utf-8."))),
            Err(RefErr::Other(err)) => report(1, None, Some(crate::repo::error_text(err))),
        }
    }

    /// The report when the branch named to come next could not be looked up.
    pub fn lookup_failure(next_name: &str, err: RefErr) -> (r: Report)
        ensures
            r.code == 1,
            r.out@.len() + r.err@.len() == 1,
            err is NotFound ==> r.out@.len() == 0 && string_views(r.err@) == seq![next_name@
                + " does not exist"@],
            err is Other ==> r.out@.len() == 0 && r.err@.len() == 1,
            err is NotBranch ==> r.err@.len() == 0 && string_views(r.out@) == seq![
                "Next entry is not a branch."@,
            ],
            err is NotUtf8 ==> r.err@.len() == 0 && string_views(r.out@) == seq![
                "Next entry is not valid utf-8."@,
            ],
    {
        match err {
            RefErr::NotFound(_) => {
                let mut m = String::from_str(next_name);
                m.append(" does not exist");
                report(1, None, Some(m))
            },
            RefErr::Other(err) => report(1, None, Some(crate::repo::error_text(&err))),
            err => report(1, Some(NextRefErr(err).message()), None),
        }
    }

    /// The report when the reference named to come next is not a local branch, or its
    /// name is not UTF-8.
    pub fn validation_failure(next_name: &str, err: &BranchValidationError) -> (r: Report)
        ensures
            r.code == 1,
            r.out@.len() == 0,
            r.err@.len() == 1,
            *err is NotLocalBranch ==> string_views(r.err@) == seq!["Not a local branch: "@
                + next_name@],
            *err is NotUtf8 ==> string_views(r.err@) == seq!["Not a utf8 string: "@ + next_name@],
    {
        let mut m = match err {
            BranchValidationError::NotLocalBranch(_) => String::from_str("Not a local branch: "),
            BranchValidationError::NotUtf8(_) => String::from_str("Not a utf8 string: "),
        };
        m.append(next_name);
        report(1, None, Some(m))
    }

    /// The report of linking the current branch to the named one: nothing when it
    /// worked, else the failure's message.
    pub fn link_report(result: &Result<(), LinkFailure>) -> (r: Report)
        ensures
            link_report_spec(*result, r),
    {
        match result {
            Ok(()) => report(0, None, None),
            Err(err) => report(1, None, Some(err.message())),
        }
    }

    /// Show the next branch of the current one, or, given a branch, make it the next one.
    /// Either HEAD names no local branch (the message says why), or the report is one that
    /// [`NextBranch::run_from`] gives for some current branch.
    pub fn run(self, repo: &git2::Repository) -> (r: Report)
        ensures
            r.code == 0 || r.code == 1,
            r.code == 1 ==> r.out@.len() + r.err@.len() == 1,
            self.next is None && r.code == 0 ==> r.out@.len() + r.err@.len() == 1,
            self.next is Some && r.code == 0 ==> r.out@.len() == 0 && r.err@.len() == 0,
            (r.code == 1 && r.out@.len() == 1 && r.err@.len() == 0) || exists|c: LocalBranchNameView,
                o: NextOutcome| #[trigger] next_branch_spec(self.next is Some, c, r, o),
    {
        let current = match get_local_current(repo) {
            Err(err) => return report(1, Some(err), None),
            Ok(current) => current,
        };
        let ghost c = current@;
        let ghost named = self.next is Some;
        let (rep, outcome) = self.run_from(repo, current);
        proof {
            assert(next_branch_spec(named, c, rep, outcome));
        }
        rep
    }

    /// Show the next branch of `current`, or, given a branch, make it the next one of
    /// `current`.  Also gives what it did: the reference it followed to show the next
    /// branch, or the links it made from `current` to the branch named.
    pub fn run_from<'repo>(self, repo: &git2::Repository, current: LocalBranchName) -> (r: (
        Report,
        NextOutcome<'repo>,
    ))
        ensures
            next_branch_spec(self.next is Some, current@, r.0, r.1),
    {
        let next_name = match self.next {
            None => {
                let followed = PipeNext { name: current }.full();
                let found = match follow_symbolic(repo, followed.as_str()) {
                    Ok(next) => Ok(find_shortest(&UnparsedReference { name: next }, repo)),
                    Err(err) => Err(err),
                };
                let rep = NextBranch::show_report(&found);
                return (rep, NextOutcome::Shown { followed, found });
            },
            Some(next_name) => next_name,
        };
        let next = match resolve_reference_from_short_name(repo, next_name.as_str()) {
            Ok(next) => next,
            Err(err) => return (
                NextBranch::lookup_failure(next_name.as_str(), RefErr::from_error(err)),
                NextOutcome::Stopped,
            ),
        };
        let next_branch = match LocalBranchName::try_from_reference(&next) {
            Ok(next_branch) => next_branch,
            Err(err) => return (NextBranch::validation_failure(next_name.as_str(), &err), NextOutcome::Stopped),
        };
        let (plan, result) = crate::branch::link_branches_planned(repo, &current, &next_branch);
        let rep = NextBranch::link_report(&result);
        (rep, NextOutcome::Linked { next: next_branch, plan, result })
    }
}

/// The current branch, from the status of the working tree: none for a detached head.
pub fn find_current_branch(status: Result<GitStatus, GitError>) -> (r: Result<Option<LocalBranchName>, CommitErr>)
    ensures
        match status {
            Err(e) => r matches Err(CommitErr::GitError(f)) && f == e,
            Ok(s) => match s.head_spec() {
                WorktreeHead::Attached { head, .. } => r matches Ok(Some(b)) && b@ == head@,
                WorktreeHead::Detached(_) => r matches Ok(None),
            },
        },
{
    match status {
        Err(err) => Err(CommitErr::GitError(err)),
        Ok(s) => match s.get_head() {
            WorktreeHead::Attached { head, .. } => Ok(Some(head.duplicate())),
            WorktreeHead::Detached(_) => Ok(None),
        },
    }
}

/// The remembered target to merge into, from the current branch, the value of its
/// `oaf-target-branch` setting (none when unset) and the entries that `git show-ref`
/// listed for that value.  A remembered target that names no reference counts as none.
pub fn find_target(
    current: Result<Option<LocalBranchName>, CommitErr>,
    remembered: Option<String>,
    entries: Vec<(String, String)>,
) -> (r: Result<ExtantRefName, FindTargetErr>)
    ensures
        current matches Ok(None) ==> r matches Err(FindTargetErr::NoCurrentBranch),
        current matches Err(e) ==> r matches Err(FindTargetErr::CommitErr(f)) && f == e,
        current matches Ok(Some(_)) ==> match remembered {
            None => r matches Err(FindTargetErr::NoRemembered),
            Some(v) => match select_reference_spec(v@, swapped_reversed(pair_views(entries@))) {
                Some((full, sha)) => r matches Ok(e) && parsed_as(e.name, full) && e.commit.sha@ == sha,
                None => r matches Err(FindTargetErr::NoRemembered),
            },
        },
{
    match current {
        Err(e) => return Err(FindTargetErr::CommitErr(e)),
        Ok(None) => return Err(FindTargetErr::NoCurrentBranch),
        Ok(Some(_)) => {},
    }
    let value = match remembered {
        Some(v) => v,
        None => return Err(FindTargetErr::NoRemembered),
    };
    let name = BranchName::parse(value.as_str());
    proof {
        lemma_parsed_full(name, value@);
    }
    match ExtantRefName::from_name(name, entries) {
        Ok(e) => Ok(e),
        Err(_) => Err(FindTargetErr::NoRemembered),
    }
}


impl CommitCmd {
    /// The report that refuses to commit while untracked files are present (unless not
    /// strict); none when the commit may go ahead.
    pub fn untracked_report(untracked: Vec<String>) -> (r: Option<Report>)
        ensures
            untracked@.len() == 0 <==> r is None,
            r matches Some(rep) ==> rep.code == 1 && rep.out@.len() == 0 && string_views(rep.err@)
                == seq!["Untracked files are present:"@] + string_views(untracked@) + seq![
                "You can add them with \"oaf add\", ignore them with \"oaf ignore\", or use --no-strict."@,
            ],
    {
        if untracked.len() == 0 {
            return None;
        }
        let mut err = start_args("Untracked files are present:");
        let ghost head = string_views(err@);
        let mut untracked = untracked;
        let ghost names = string_views(untracked@);
        err.append(&mut untracked);
        proof {
            assert(string_views(err@) =~= head + names);
        }
        push_str(&mut err, "You can add them with \"oaf add\", ignore them with \"oaf ignore\", or use --no-strict.");
        Some(Report { code: 0 + 1, out: Vec::new(), err })
    }
}

impl IgnoreChanges {
    /// The report that lists the files whose changes are ignored, from the output of
    /// `git ls-files -v`; with a note when there are none.
    pub fn list_report(ls_files: &str) -> (r: Report)
        ensures
            r.code == 0,
            string_views(r.out@) == assume_unchanged_spec(crate::text::lines_spec(ls_files@)),
            r.out@.len() == 0 ==> string_views(r.err@) == seq!["No files have ignore-changes set."@],
            r.out@.len() > 0 ==> r.err@.len() == 0,
    {
        let out = assume_unchanged_files(ls_files);
        let err = if out.len() == 0 {
            start_args("No files have ignore-changes set.")
        } else {
            Vec::new()
        };
        Report { code: 0, out, err }
    }
}

impl DisconnectBranch {
    /// The report of taking a branch out of its sequence, from what unlinking gave: nothing
    /// when it worked, "No such branch." when it failed.
    pub fn report(result: &Result<(), RefErr>) -> (r: Report)
        ensures
            result is Ok ==> r.code == 0 && r.out@.len() == 0 && r.err@.len() == 0,
            result is Err ==> r.code == 1 && string_views(r.out@) == seq!["No such branch."@]
                && r.err@.len() == 0,
    {
        match result {
            Ok(()) => report(0, None, None),
            Err(_) => report(1, Some(String::from_str("No such branch.")), None),
        }
    }

    /// Take the branch out of its sequence, and give what was done and what it gave with
    /// the report.
    pub fn unlink(self, repo: &git2::Repository) -> (r: (
        Report,
        Option<crate::branch::Unlinking>,
        Result<(), RefErr>,
    ))
        ensures
            r.1 matches Some(u) ==> crate::branch::unlinks(u, self.name@, r.2 is Ok),
            r.1 is None ==> r.2 is Err,
            r.2 is Ok ==> r.0.code == 0 && r.0.out@.len() == 0 && r.0.err@.len() == 0,
            r.2 is Err ==> r.0.code == 1 && string_views(r.0.out@) == seq!["No such branch."@]
                && r.0.err@.len() == 0,
    {
        let name = LocalBranchName::new(self.name, None);
        let (done, result) = crate::branch::unlink_branch_planned(repo, &name);
        let rep = DisconnectBranch::report(&result);
        (rep, done, result)
    }

    /// Take the branch out of its sequence; "No such branch." when that fails.
    pub fn run(self, repo: &git2::Repository) -> (r: Report)
        ensures
            r.code == 0 ==> r.out@.len() == 0,
            r.code == 1 ==> string_views(r.out@) == seq!["No such branch."@],
            r.code == 0 || r.code == 1,
    {
        self.unlink(repo).0
    }
}

/// The most steps that a walk along a sequence of branches takes.
pub const MAX_PIPELINE_STEPS: u64 = 0xffff_ffff_ffff_ffff;

/// A walk along a sequence of branches.
pub struct SiblingWalk {
    /// The branches found, nearest first.
    pub names: Vec<String>,
    /// The full names of the sibling references followed, in order.
    pub followed: Vec<String>,
    /// Whether the walk reached the end of the sequence.
    pub complete: bool,
}

/// `w` is a walk from `start` along references with `prefix`: it first follows the
/// reference of `start`, then that of each branch found; it found a branch at each step
/// but perhaps the last, and a walk broken off ended on a step that found none.
pub open spec fn walks_from(w: SiblingWalk, prefix: Seq<char>, start: Seq<char>) -> bool {
    &&& w.followed@.len() > 0
    &&& w.names@.len() <= w.followed@.len() <= w.names@.len() + 1
    &&& w.followed@[0]@ == prefix + start
    &&& forall|i: int| 0 <= i < w.names@.len() && i + 1 < w.followed@.len() ==> #[trigger] w.followed@[i
        + 1]@ == prefix + w.names@[i]@
    &&& !w.complete ==> w.followed@.len() == w.names@.len() + 1
}

/// The branches along a sequence from `start`, nearest first, in the direction of `T`,
/// with the references followed and whether the walk reached the end of the sequence (it
/// stops early when a reference along the way is not a branch).
pub fn walk_siblings<T: SiblingBranch>(repo: &git2::Repository, start: LocalBranchName) -> (r: SiblingWalk)
    ensures
        walks_from(r, T::prefix(), start@.name),
{
    let mut names: Vec<String> = Vec::new();
    let mut followed: Vec<String> = Vec::new();
    let mut current = start;
    let ghost s = start@.name;
    let mut steps: u64 = 0;
    while steps < MAX_PIPELINE_STEPS
        invariant
            s == start@.name,
            followed@.len() == names@.len(),
            followed@.len() == steps,
            followed@.len() > 0 ==> followed@[0]@ == T::prefix() + s,
            followed@.len() == 0 ==> current@.name == s,
            followed@.len() > 0 ==> current@.name == names@.last()@,
            forall|i: int| 0 <= i < names@.len() && i + 1 < followed@.len() ==> #[trigger] followed@[i
                + 1]@ == T::prefix() + names@[i]@,
        decreases MAX_PIPELINE_STEPS - steps,
    {
        let ghost cur = current@.name;
        let (full, step) = advance_traced::<T>(repo, current);
        let ghost before = names@;
        let ghost fbefore = followed@;
        followed.push(full);
        proof {
            assert(followed@ == fbefore.push(full));
            assert(followed@[0]@ == T::prefix() + s) by {
                if fbefore.len() > 0 {
                    assert(followed@[0] == fbefore[0]);
                }
            }
            assert forall|i: int| 0 <= i < before.len() && i + 1 < followed@.len()
                implies #[trigger] followed@[i + 1]@ == T::prefix() + before[i]@ by {
                if i + 1 < fbefore.len() {
                    assert(followed@[i + 1] == fbefore[i + 1]);
                } else {
                    assert(i == before.len() - 1);
                }
            }
        }
        match walk_step(&mut names, step) {
            Err(()) => {
                proof {
                    assert(names@ == before);
                }
                return SiblingWalk { names, followed, complete: false };
            },
            Ok(Some(next)) => {
                proof {
                    assert(string_views(names@) == string_views(before).push(next@.name));
                    assert(names@.len() == before.len() + 1);
                    assert(string_views(names@)[names@.len() - 1] == names@.last()@);
                    assert forall|i: int| 0 <= i < names@.len() && i + 1 < followed@.len()
                        implies #[trigger] followed@[i + 1]@ == T::prefix() + names@[i]@ by {
                        assert(string_views(names@)[i] == names@[i]@);
                        if i + 1 < fbefore.len() {
                            assert(followed@[i + 1] == fbefore[i + 1]);
                            assert(string_views(before)[i] == before[i]@);
                        } else {
                            assert(i + 1 == fbefore.len());
                            if i > 0 {
                                assert(string_views(before)[i - 1] == before[i - 1]@);
                            }
                        }
                    }
                }
                current = next;
            },
            Ok(None) => {
                proof {
                    assert(names@ == before);
                }
                return SiblingWalk { names, followed, complete: true };
            },
        }
        steps = steps + 1;
    }
    SiblingWalk { names, followed, complete: true }
}

/// One step of a walk along a sequence, from what following the sibling reference gave:
/// a branch found is added to the names and the walk goes on from it; no sibling ends the
/// walk; an error breaks it off.
pub fn walk_step(names: &mut Vec<String>, step: Result<Option<LocalBranchName>, RefErr>) -> (r: Result<
    Option<LocalBranchName>,
    (),
>)
    ensures
        match step {
            Ok(Some(b)) => string_views(final(names)@) == string_views(old(names)@).push(b@.name) && (
            r matches Ok(Some(c)) && c@ == b@),
            Ok(None) => final(names)@ == old(names)@ && r matches Ok(None),
            Err(_) => final(names)@ == old(names)@ && r is Err,
        },
{
    match step {
        Ok(Some(next)) => {
            let ghost before = names@;
            names.push(next.branch_name().to_owned());
            proof {
                assert(string_views(names@) =~= string_views(before).push(next@.name));
            }
            Ok(Some(next))
        },
        Ok(None) => Ok(None),
        Err(_) => Err(()),
    }
}

/// The report of `pipeline`, from the walks before and after the current branch (the
/// names found, nearest first, and whether each walk reached its end).  A walk back that
/// failed shows nothing; a walk forward that failed shows what it found.
pub fn pipeline_report(
    previous: &Vec<String>,
    previous_complete: bool,
    current: &str,
    next: &Vec<String>,
    next_complete: bool,
) -> (r: Report)
    ensures
        pipeline_report_spec(string_views(previous@), previous_complete, current@, string_views(next@),
            next_complete, r),
{
    if !previous_complete {
        return report(1, None, Some(String::from_str("Error!")));
    }
    let out = pipeline_lines(previous, current, next);
    if next_complete {
        Report { code: 0, out, err: Vec::new() }
    } else {
        let err = start_args("Error!");
        Report { code: 1, out, err }
    }
}

/// The report of `pipeline`, from the names of the walks before and after the current
/// branch and whether each reached its end.
pub open spec fn pipeline_report_spec(
    previous: Seq<Seq<char>>,
    previous_complete: bool,
    current: Seq<char>,
    next: Seq<Seq<char>>,
    next_complete: bool,
    r: Report,
) -> bool {
    &&& !previous_complete ==> r.code == 1 && r.out@.len() == 0 && string_views(r.err@) == seq![
        "Error!"@,
    ]
    &&& previous_complete ==> string_views(r.out@) == pipeline_spec(previous, current, next)
    &&& previous_complete && !next_complete ==> r.code == 1 && string_views(r.err@) == seq!["Error!"@]
    &&& previous_complete && next_complete ==> r.code == 0 && r.err@.len() == 0
}

impl Pipeline {
    /// List the sequence around `current`: the branches before it, found by walking the
    /// `refs/pipe-prev/` references back from it, it marked with `*`, and the branches
    /// after it, found by walking the `refs/pipe-next/` references on from it.  Also gives
    /// the two walks; the walk forward is made only when the walk back reached its end.
    pub fn report_from(repo: &git2::Repository, current: &LocalBranchName) -> (r: (
        Report,
        SiblingWalk,
        SiblingWalk,
    ))
        ensures
            walks_from(r.1, "refs/pipe-prev/"@, current@.name),
            r.1.complete ==> walks_from(r.2, "refs/pipe-next/"@, current@.name),
            pipeline_report_spec(string_views(r.1.names@), r.1.complete, current@.name, string_views(
                r.2.names@,
            ), r.2.complete, r.0),
    {
        let previous = walk_siblings::<PipePrev>(repo, current.duplicate());
        let next = if previous.complete {
            walk_siblings::<PipeNext>(repo, current.duplicate())
        } else {
            SiblingWalk { names: Vec::new(), followed: Vec::new(), complete: true }
        };
        let rep = pipeline_report(
            &previous.names,
            previous.complete,
            current.branch_name(),
            &next.names,
            next.complete,
        );
        (rep, previous, next)
    }

    /// List the sequence around the current branch: the branches before it, the current
    /// one marked with `*`, and the branches after it.
    pub fn run(self, repo: &git2::Repository) -> (r: Report)
        ensures
            r.code == 0 || r.code == 1,
            r.code == 0 ==> r.err@.len() == 0 && exists|c: Seq<char>, p: SiblingWalk, n: SiblingWalk|
                walks_from(p, "refs/pipe-prev/"@, c) && walks_from(n, "refs/pipe-next/"@, c)
                && string_views(r.out@) == pipeline_spec(string_views(p.names@), c, string_views(n.names@)),
            r.code == 1 ==> (r.out@.len() == 1 && r.err@.len() == 0) || string_views(r.err@) == seq![
                "Error!"@,
            ],
    {
        let current = match get_local_current(repo) {
            Err(err) => return report(1, Some(err), None),
            Ok(current) => current,
        };
        let (rep, previous, next) = Pipeline::report_from(repo, &current);
        proof {
            if rep.code == 0 {
                assert(walks_from(previous, "refs/pipe-prev/"@, current@.name));
                assert(walks_from(next, "refs/pipe-next/"@, current@.name));
            }
        }
        rep
    }
}

/// `git log` follows first parents exactly when merged commits are not asked for: the
/// flag then comes right after `log`, and asking for merged commits leaves the other
/// arguments as they were.  With merged commits asked for, `--first-parent` is not among
/// the arguments unless the range or a path is that text; with nothing else asked for,
/// the arguments are `log` alone.
pub proof fn lemma_log_first_parent(range: Option<String>, patch: bool, path: Vec<String>)
    ensures
        ({
            let first_parent = Log { range, patch, include_merged: false, path }.args_spec();
            let merged = Log { range, patch, include_merged: true, path }.args_spec();
            &&& merged[0] == "log"@
            &&& first_parent == seq!["log"@, "--first-parent"@] + merged.skip(1)
            &&& (!(range matches Some(r) && r@ == "--first-parent"@) && (forall|i: int|
                0 <= i < path@.len() ==> #[trigger] path@[i]@ != "--first-parent"@)) ==> !merged.contains(
                "--first-parent"@,
            )
            &&& (range is None && !patch && path@.len() == 0) ==> merged == seq!["log"@]
        }),
{
    reveal_strlit("log");
    reveal_strlit("--first-parent");
    reveal_strlit("-m");
    reveal_strlit("--patch");
    reveal_strlit("--");
    let merged = Log { range, patch, include_merged: true, path }.args_spec();
    let first_parent = Log { range, patch, include_merged: false, path }.args_spec();
    let p = if patch {
        seq!["-m"@, "--patch"@]
    } else {
        Seq::<Seq<char>>::empty()
    };
    let tail = p + opt_arg(range) + path_args(path@);
    assert(merged =~= seq!["log"@] + tail);
    assert(first_parent =~= seq!["log"@, "--first-parent"@] + tail);
    assert(merged.skip(1) =~= tail);
    if !(range matches Some(r) && r@ == "--first-parent"@) && (forall|i: int|
        0 <= i < path@.len() ==> #[trigger] path@[i]@ != "--first-parent"@) {
        assert forall|i: int| 0 <= i < merged.len() implies merged[i] != "--first-parent"@ by {
            if i == 0 {
                assert(merged[i].len() != "--first-parent"@.len());
            } else if i - 1 < p.len() {
                assert(merged[i] == p[i - 1]);
                assert(merged[i].len() != "--first-parent"@.len());
            } else if i - 1 < p.len() + opt_arg(range).len() {
                assert(merged[i] == opt_arg(range)[i - 1 - p.len()]);
            } else {
                let k = i - 1 - p.len() - opt_arg(range).len();
                assert(merged[i] == path_args(path@)[k]);
                if k == 0 {
                    assert(merged[i].len() != "--first-parent"@.len());
                }
                if k > 0 {
                    assert(path_args(path@)[k] == string_views(path@)[k - 1]);
                    assert(string_views(path@)[k - 1] == path@[k - 1]@);
                }
            }
        }
    }
    if range is None && !patch && path@.len() == 0 {
        assert(merged =~= seq!["log"@]);
    }
}

/// `git commit` commits all changes exactly when not asked to commit the index only: the
/// `--all` flag then comes right after `commit`, and asking for the index only leaves the
/// other arguments as they were; then `--all` is not among the arguments unless the
/// message is that text.  A message comes right after `--message`, before any other flag.
pub proof fn lemma_commit_all(message: Option<String>, amend: bool, skip_hooks: bool, no_strict: bool)
    ensures
        ({
            let all = CommitCmd { message, amend, skip_hooks, no_all: false, no_strict }.args_spec();
            let index = CommitCmd { message, amend, skip_hooks, no_all: true, no_strict }.args_spec();
            &&& index[0] == "commit"@
            &&& all == seq!["commit"@, "--all"@] + index.skip(1)
            &&& !(message matches Some(m) && m@ == "--all"@) ==> !index.contains("--all"@)
            &&& message matches Some(m) ==> (index[1] == "--message"@ && index[2] == m@)
        }),
{
    reveal_strlit("commit");
    reveal_strlit("--all");
    reveal_strlit("--message");
    reveal_strlit("--amend");
    reveal_strlit("--no-verify");
    let all = CommitCmd { message, amend, skip_hooks, no_all: false, no_strict }.args_spec();
    let index = CommitCmd { message, amend, skip_hooks, no_all: true, no_strict }.args_spec();
    let m = match message {
        Some(m) => seq!["--message"@, m@],
        None => Seq::<Seq<char>>::empty(),
    };
    let tail = m + flag(amend, "--amend"@) + flag(skip_hooks, "--no-verify"@);
    assert(index =~= seq!["commit"@] + tail);
    assert(all =~= seq!["commit"@, "--all"@] + tail);
    assert(index.skip(1) =~= tail);
    if !(message matches Some(x) && x@ == "--all"@) {
        assert forall|i: int| 0 <= i < index.len() implies index[i] != "--all"@ by {
            if i == 0 {
                assert(index[i].len() != "--all"@.len());
            } else if i - 1 < m.len() {
                assert(index[i] == m[i - 1]);
                if i == 1 {
                    assert(index[i].len() != "--all"@.len());
                }
            } else if i - 1 < m.len() + flag(amend, "--amend"@).len() {
                assert(index[i] == flag(amend, "--amend"@)[i - 1 - m.len()]);
                assert(index[i].len() != "--all"@.len());
            } else {
                assert(index[i] == flag(skip_hooks, "--no-verify"@)[i - 1 - m.len() - flag(
                    amend,
                    "--amend"@,
                ).len()]);
                assert(index[i].len() != "--all"@.len());
            }
        }
    }
}

/// `git pull --ff-only` takes the remote first and the branch after it: with both, the
/// arguments are `pull --ff-only <remote> <branch>`; a branch alone follows the flag.
pub proof fn lemma_pull_order(remote: Option<String>, source: Option<String>)
    ensures
        ({
            let args = Pull { remote, source }.args_spec();
            &&& args.take(2) == seq!["pull"@, "--ff-only"@]
            &&& remote matches Some(r) ==> args[2] == r@
            &&& (remote matches Some(r) ==> (source matches Some(b) ==> args == seq![
                "pull"@,
                "--ff-only"@,
                r@,
                b@,
            ]))
            &&& (remote is None ==> (source matches Some(b) ==> args == seq!["pull"@, "--ff-only"@, b@]))
            &&& args.len() == 2 + (if remote is Some { 1int } else { 0 }) + (if source is Some {
                1int
            } else {
                0
            })
        }),
{
    let args = Pull { remote, source }.args_spec();
    assert(args.take(2) =~= seq!["pull"@, "--ff-only"@]);
    match (remote, source) {
        (Some(r), Some(b)) => {
            assert(args =~= seq!["pull"@, "--ff-only"@, r@, b@]);
        },
        (Some(r), None) => {
            assert(args =~= seq!["pull"@, "--ff-only"@, r@]);
        },
        (None, Some(b)) => {
            assert(args =~= seq!["pull"@, "--ff-only"@, b@]);
        },
        (None, None) => {
            assert(args =~= seq!["pull"@, "--ff-only"@]);
        },
    }
}

/// The `pipeline` listing: the branches before the current one, farthest first, then the
/// current one marked with `*`, then the branches after it in the order the walk found
/// them, nearest first; each other branch is indented by two spaces.
pub proof fn lemma_pipeline_order(previous: Seq<Seq<char>>, current: Seq<char>, next: Seq<Seq<char>>)
    ensures
        ({
            let lines = pipeline_spec(previous, current, next);
            &&& lines.len() == previous.len() + 1 + next.len()
            &&& forall|i: int| 0 <= i < previous.len() ==> #[trigger] lines[i] == "  "@ + previous[previous.len()
                - 1 - i]
            &&& lines[previous.len() as int] == "* "@ + current
            &&& forall|i: int| 0 <= i < next.len() ==> #[trigger] lines[previous.len() + 1 + i] == "  "@
                + next[i]
        }),
{
    let lines = pipeline_spec(previous, current, next);
    let before = previous.reverse().map_values(|b: Seq<char>| "  "@ + b);
    let after = next.map_values(|b: Seq<char>| "  "@ + b);
    assert(lines == before + seq!["* "@ + current] + after);
    assert forall|i: int| 0 <= i < previous.len() implies #[trigger] lines[i] == "  "@ + previous[previous.len()
        - 1 - i] by {
        assert(lines[i] == before[i]);
        assert(previous.reverse()[i] == previous[previous.len() - 1 - i]);
    }
    assert forall|i: int| 0 <= i < next.len() implies #[trigger] lines[previous.len() + 1 + i] == "  "@
        + next[i] by {
        assert(lines[previous.len() + 1 + i] == after[i]);
    }
}

} // verus!
