//! Commits, trees, and the specs that name them.
use crate::git::{
    eval_rev_spec, output_text, parsed_as, resolve_refname, select_reference_spec,
    swapped_reversed, pair_views, BranchName, GitError, ProcessOutput, ReferenceSpec,
    UnparsedReference, git_error_kind,
};
use crate::text::{split_spec, split_char, string_views, starts_with};
use crate::worktree::Commit;
use vstd::prelude::*;
use vstd::utf8::valid_utf8;

verus! {

/// The id of git's empty tree.
pub open spec fn empty_tree_spec() -> Seq<char> {
    "4b825dc642cb6eb9a060e54bf8d69288fbee4904"@
}

/// A failure to find a commit.
#[derive(Debug)]
pub enum CommitErr {
    NoCommit { spec: String },
    GitError(GitError),
}

impl CommitErr {
    /// The message shown for the error.
    pub open spec fn message_spec(&self) -> Seq<char> {
        match self {
            CommitErr::NoCommit { spec } => "No commit found for \""@ + spec@ + "\""@,
            CommitErr::GitError(e) => e.message_spec(),
        }
    }

    /// The message shown for the error.
    pub fn message(&self) -> (r: String)
        ensures
            r@ == self.message_spec(),
    {
        match self {
            CommitErr::NoCommit { spec } => {
                let mut r = String::from_str("No commit found for \"");
                r.append(spec.as_str());
                r.append("\"");
                r
            },
            CommitErr::GitError(e) => e.message(),
        }
    }
}

impl From<GitError> for CommitErr {
    fn from(err: GitError) -> (r: CommitErr) {
        CommitErr::GitError(err)
    }
}

impl vstd::std_specs::convert::FromSpecImpl<GitError> for CommitErr {
    open spec fn obeys_from_spec() -> bool {
        true
    }

    open spec fn from_spec(err: GitError) -> CommitErr {
        CommitErr::GitError(err)
    }
}

/// A value that names a commit.
pub trait Commitish {
    /// The spec that names the commit.
    spec fn commit_spec_view(&self) -> Seq<char>;

    /// The spec that names the commit.
    fn get_commit_spec(&self) -> (r: String)
        ensures
            r@ == self.commit_spec_view(),
    ;

    /// The arguments of the `git merge-base` call that finds the merge base of this commit
    /// and `commit`.
    fn find_merge_base(&self, commit: &Commit) -> (r: Vec<String>)
        ensures
            string_views(r@) == seq!["merge-base"@, self.commit_spec_view(), commit.sha@],
    {
        let r = vec![String::from_str("merge-base"), self.get_commit_spec(), commit.sha.clone()];
        proof {
            assert(string_views(r@) =~= seq!["merge-base"@, self.commit_spec_view(), commit.sha@]);
        }
        r
    }
}

/// The arguments of `git commit-tree` that make a commit of `tree` with parent `parent`,
/// a second parent `merge` when there is one, and message `message`.
pub open spec fn commit_tree_args(
    parent: Seq<char>,
    merge: Option<Seq<char>>,
    tree: Seq<char>,
    message: Seq<char>,
) -> Seq<Seq<char>> {
    let merge_args = match merge {
        Some(m) => seq!["-p"@, m],
        None => Seq::empty(),
    };
    seq!["commit-tree"@, "-p"@, parent] + merge_args + seq![tree, "-m"@, message]
}

/// The commit id of an optional commit spec.
pub open spec fn merge_oid(m: Option<CommitSpec>) -> Option<Seq<char>> {
    match m {
        Some(m) => Some(m.oid()),
        None => None,
    }
}

/// A value that names a tree object.
pub trait Tree {
    /// The spec that names the tree.
    spec fn tree_reference_view(&self) -> Seq<char>;

    /// The spec that names the tree.
    fn get_tree_reference(&self) -> (r: String)
        ensures
            r@ == self.tree_reference_view(),
    ;

    /// The arguments of the `git commit-tree` call that commits this tree on top of
    /// `parent`, with `merge_parent` as a second parent when given.
    fn commit<P: Commitish>(&self, parent: &P, merge_parent: Option<CommitSpec>, message: &str) -> (r:
        Vec<String>)
        ensures
            string_views(r@) == commit_tree_args(
                parent.commit_spec_view(),
                merge_oid(merge_parent),
                self.tree_reference_view(),
                message@,
            ),
    {
        let mut r = vec![String::from_str("commit-tree"), String::from_str("-p"), parent.get_commit_spec()];
        let ghost merge = merge_oid(merge_parent);
        if let Some(m) = merge_parent {
            r.push(String::from_str("-p"));
            r.push(m.get_oid().to_owned());
        }
        r.push(self.get_tree_reference());
        r.push(String::from_str("-m"));
        r.push(message.to_owned());
        proof {
            assert(string_views(r@) =~= commit_tree_args(
                parent.commit_spec_view(),
                merge,
                self.tree_reference_view(),
                message@,
            ));
        }
        r
    }
}

/// A value that names a tree, or a commit standing for its tree.
pub trait Treeish {
    /// The spec that names the tree.
    spec fn treeish_view(&self) -> Seq<char>;

    /// The spec that names the tree.
    fn get_treeish_spec(&self) -> (r: String)
        ensures
            r@ == self.treeish_view(),
    ;
}

/// The tree of a commit named by `spec`.
pub open spec fn tree_of_spec(spec: Seq<char>) -> Seq<char> {
    spec + "^{tree}"@
}

/// The tree reference of a commit spec.
fn tree_of(spec: String) -> (r: String)
    ensures
        r@ == tree_of_spec(spec@),
{
    let mut r = spec;
    r.append("^{tree}");
    r
}

impl Commitish for Commit {
    open spec fn commit_spec_view(&self) -> Seq<char> {
        self.sha@
    }

    fn get_commit_spec(&self) -> (r: String) {
        self.sha.clone()
    }
}

impl Tree for Commit {
    open spec fn tree_reference_view(&self) -> Seq<char> {
        tree_of_spec(self.sha@)
    }

    fn get_tree_reference(&self) -> (r: String) {
        tree_of(self.get_commit_spec())
    }
}

impl Treeish for Commit {
    open spec fn treeish_view(&self) -> Seq<char> {
        self.sha@
    }

    fn get_treeish_spec(&self) -> (r: String) {
        self.get_commit_spec()
    }
}

/// A spec that names a tree object, in the form that `git commit-tree` takes.
#[derive(Debug, Clone)]
pub struct TreeSpec {
    pub reference: String,
}

impl Tree for TreeSpec {
    open spec fn tree_reference_view(&self) -> Seq<char> {
        self.reference@
    }

    fn get_tree_reference(&self) -> (r: String) {
        self.reference.clone()
    }
}

impl Treeish for TreeSpec {
    open spec fn treeish_view(&self) -> Seq<char> {
        self.reference@
    }

    fn get_treeish_spec(&self) -> (r: String) {
        self.get_tree_reference()
    }
}

/// A spec as the user wrote it, with the commit it names.
#[derive(Debug, Clone)]
pub struct CommitSpec {
    pub spec: String,
    pub commit: Commit,
}

impl CommitSpec {
    /// The id of the named commit.
    pub open spec fn oid(&self) -> Seq<char> {
        self.commit.sha@
    }

    /// A spec with the commit it names.
    pub fn new(spec: String, commit: Commit) -> (r: CommitSpec)
        ensures
            r.spec@ == spec@,
            r.oid() == commit.sha@,
    {
        CommitSpec { spec, commit }
    }

    /// The id of the named commit.
    pub fn get_oid(&self) -> (r: &str)
        ensures
            r@ == self.oid(),
    {
        self.commit.sha.as_str()
    }

    /// The named commit.
    pub fn as_ref(&self) -> (r: &Commit)
        ensures
            r.sha@ == self.oid(),
    {
        &self.commit
    }

    /// Read a spec from what `git rev-list -n1 <spec>` gave back.
    pub fn from_rev_list(spec: &str, result: Result<ProcessOutput, ProcessOutput>) -> (r: Result<
        CommitSpec,
        CommitErr,
    >)
        requires
            result matches Ok(o) ==> valid_utf8(o.stdout@),
        ensures
            result matches Ok(o) ==> (r matches Ok(c) && c.spec@ == spec@ && c.oid() == output_text(
                o,
            )),
            result matches Err(o) ==> r matches Err(e) && rev_list_error(e, spec@, o.stderr@),
    {
        let commit = Commit::from_rev_list(spec, result)?;
        Ok(CommitSpec { spec: spec.to_owned(), commit })
    }

    /// The spec of a resolved reference.
    pub fn from_extant(extant: ExtantRefName) -> (r: CommitSpec)
        ensures
            r.spec@ == extant.full_spec(),
            r.oid() == extant.oid(),
    {
        let spec = extant.full();
        CommitSpec { spec, commit: extant.commit }
    }
}

impl Commitish for CommitSpec {
    open spec fn commit_spec_view(&self) -> Seq<char> {
        self.spec@
    }

    fn get_commit_spec(&self) -> (r: String) {
        self.spec.clone()
    }
}

impl Tree for CommitSpec {
    open spec fn tree_reference_view(&self) -> Seq<char> {
        tree_of_spec(self.spec@)
    }

    fn get_tree_reference(&self) -> (r: String) {
        tree_of(self.get_commit_spec())
    }
}

impl Treeish for CommitSpec {
    open spec fn treeish_view(&self) -> Seq<char> {
        self.spec@
    }

    fn get_treeish_spec(&self) -> (r: String) {
        self.get_commit_spec()
    }
}

/// The error for a failed `git rev-list` of `spec`: an unknown failure means that no
/// commit is found; a known one is reported as it is.
pub open spec fn rev_list_error(e: CommitErr, spec: Seq<char>, stderr: Seq<char>) -> bool {
    if git_error_kind(stderr) == 2 {
        e matches CommitErr::NoCommit { spec: s } && s@ == spec
    } else {
        &&& e is GitError
        &&& (git_error_kind(stderr) == 0 ==> e->GitError_0 is NotAGitRepository)
        &&& (git_error_kind(stderr) == 1 ==> e->GitError_0 is NotAWorkTree)
    }
}

impl Commit {
    /// The commit named by `spec`, from what `git rev-list -n1 <spec>` gave back.
    pub fn from_rev_list(spec: &str, result: Result<ProcessOutput, ProcessOutput>) -> (r: Result<
        Commit,
        CommitErr,
    >)
        requires
            result matches Ok(o) ==> valid_utf8(o.stdout@),
        ensures
            result matches Ok(o) ==> (r matches Ok(c) && c.sha@ == output_text(o)),
            result matches Err(o) ==> r matches Err(e) && rev_list_error(e, spec@, o.stderr@),
    {
        match eval_rev_spec(result) {
            Ok(sha) => Ok(Commit { sha }),
            Err(output) => match GitError::from_output(output) {
                GitError::UnknownError(_) => Err(CommitErr::NoCommit { spec: spec.to_owned() }),
                err => Err(CommitErr::GitError(err)),
            },
        }
    }

    /// The arguments of the `git reset --soft` call that makes this commit the head.
    pub fn set_wt_head(&self) -> (r: Vec<String>)
        ensures
            string_views(r@) == seq!["reset"@, "--soft"@, self.sha@],
    {
        crate::git::set_head(self.sha.as_str())
    }
}

/// The tree that changes are compared against: that of HEAD, or the empty tree when HEAD
/// has no commit yet.
pub fn base_tree(head: Result<Commit, CommitErr>) -> (r: Result<TreeSpec, GitError>)
    ensures
        match head {
            Ok(c) => r matches Ok(t) && t.reference@ == tree_of_spec(c.sha@),
            Err(CommitErr::NoCommit { .. }) => r matches Ok(t) && t.reference@ == empty_tree_spec(),
            Err(CommitErr::GitError(e)) => r == Err::<TreeSpec, GitError>(e),
        },
{
    let reference = match head {
        Ok(commit) => commit.get_tree_reference(),
        Err(CommitErr::NoCommit { .. }) => String::from_str("4b825dc642cb6eb9a060e54bf8d69288fbee4904"),
        Err(CommitErr::GitError(err)) => return Err(err),
    };
    Ok(TreeSpec { reference })
}

/// A spec of a commit or of a tree.
#[derive(Clone, Debug)]
pub enum SomethingSpec {
    CommitSpec(CommitSpec),
    TreeSpec(TreeSpec),
}

impl Treeish for SomethingSpec {
    open spec fn treeish_view(&self) -> Seq<char> {
        match self {
            SomethingSpec::CommitSpec(c) => c.treeish_view(),
            SomethingSpec::TreeSpec(t) => t.treeish_view(),
        }
    }

    fn get_treeish_spec(&self) -> (r: String) {
        match self {
            SomethingSpec::CommitSpec(c) => c.get_treeish_spec(),
            SomethingSpec::TreeSpec(t) => t.get_treeish_spec(),
        }
    }
}

/// The space-separated fields of a `git cat-file --batch-check` answer.
pub open spec fn batch_fields(out: Seq<char>) -> Seq<Seq<char>> {
    split_spec(out, ' ')
}

/// A `git cat-file --batch-check` answer that names a missing object.
pub open spec fn batch_missing(out: Seq<char>) -> bool {
    "missing\n"@.is_suffix_of(out)
}

/// An answer of `git cat-file --batch-check` that can be read: a missing object, or an
/// object id and a type that is a commit or a tree.
pub open spec fn batch_check_ok(out: Seq<char>) -> bool {
    batch_missing(out) || (batch_fields(out).len() >= 2 && (batch_fields(out)[1] == "commit"@
        || batch_fields(out)[1] == "tree"@))
}

impl SomethingSpec {
    /// Read a spec from what `git cat-file --batch-check` answered for it: its standard
    /// output when it succeeded, its standard error when it failed.
    pub fn from_batch_check(spec: &str, answer: Result<String, String>) -> (r: Result<
        SomethingSpec,
        CommitErr,
    >)
        requires
            answer matches Ok(out) ==> batch_check_ok(out@),
        ensures
            match answer {
                Err(stderr) => r matches Err(e) && e is GitError && (git_error_kind(stderr@) == 0
                    ==> e->GitError_0 is NotAGitRepository) && (git_error_kind(stderr@) == 1
                    ==> e->GitError_0 is NotAWorkTree) && (git_error_kind(stderr@) == 2 ==> (
                e->GitError_0 matches GitError::UnknownError(s) && s@ == stderr@)),
                Ok(out) => if batch_missing(out@) {
                    r matches Err(CommitErr::NoCommit { spec: s }) && s@ == spec@
                } else if batch_fields(out@)[1] == "commit"@ {
                    r matches Ok(SomethingSpec::CommitSpec(c)) && c.spec@ == spec@ && c.oid()
                        == batch_fields(out@)[0]
                } else {
                    r matches Ok(SomethingSpec::TreeSpec(t)) && t.reference@ == spec@
                },
            },
    {
        let out = match answer {
            Err(stderr) => return Err(CommitErr::GitError(GitError::from_stderr(stderr))),
            Ok(out) => out,
        };
        if crate::text::ends_with(out.as_str(), "missing\n") {
            return Err(CommitErr::NoCommit { spec: spec.to_owned() });
        }
        let sections = split_char(out.as_str(), ' ');
        let oid = sections[0];
        let otype = sections[1];
        if crate::text::str_eq(otype, "commit") {
            Ok(
                SomethingSpec::CommitSpec(
                    CommitSpec { spec: spec.to_owned(), commit: Commit { sha: oid.to_owned() } },
                ),
            )
        } else {
            Ok(SomethingSpec::TreeSpec(TreeSpec { reference: spec.to_owned() }))
        }
    }
}

/// A reference that exists, with the commit it points at.
#[derive(Debug)]
pub struct ExtantRefName {
    pub name: Result<BranchName, UnparsedReference>,
    pub commit: Commit,
}

impl ExtantRefName {
    /// The id of the commit that the reference points at.
    pub open spec fn oid(&self) -> Seq<char> {
        self.commit.sha@
    }

    /// Resolve a short reference name, given the (commit, reference) entries that
    /// `git show-ref <refname>` listed.
    pub fn resolve(refname: &str, entries: Vec<(String, String)>) -> (r: Option<Self>)
        ensures
            match select_reference_spec(refname@, swapped_reversed(pair_views(entries@))) {
                Some((full, sha)) => r matches Some(e) && parsed_as(e.name, full) && e.commit.sha@
                    == sha,
                None => r is None,
            },
    {
        let (full_spec, sha) = resolve_refname(refname, entries)?;
        let name = BranchName::parse(full_spec.as_str());
        Some(ExtantRefName { name, commit: Commit { sha } })
    }

    /// Resolve a branch or other reference to the commit it points at, given the entries
    /// that `git show-ref <full name>` listed; a reference with no match has no commit.
    pub fn from_name(name: Result<BranchName, UnparsedReference>, entries: Vec<(String, String)>) -> (r:
        Result<ExtantRefName, CommitErr>)
        ensures
            ({
                let full = match name {
                    Ok(n) => n.full_spec(),
                    Err(n) => n.full_spec(),
                };
                match select_reference_spec(full, swapped_reversed(pair_views(entries@))) {
                    Some((f, sha)) => r matches Ok(e) && parsed_as(e.name, f) && e.commit.sha@ == sha,
                    None => r matches Err(CommitErr::NoCommit { spec: s }) && s@ == full,
                }
            }),
    {
        let full = match &name {
            Ok(n) => n.full(),
            Err(n) => n.full(),
        };
        match ExtantRefName::resolve(full.as_str(), entries) {
            Some(e) => Ok(e),
            None => Err(CommitErr::NoCommit { spec: full }),
        }
    }
}

impl ReferenceSpec for ExtantRefName {
    open spec fn full_spec(&self) -> Seq<char> {
        match self.name {
            Ok(n) => n.full_spec(),
            Err(n) => n.full_spec(),
        }
    }

    fn full(&self) -> (r: String) {
        match &self.name {
            Ok(n) => n.full(),
            Err(n) => n.full(),
        }
    }
}

impl Commitish for ExtantRefName {
    open spec fn commit_spec_view(&self) -> Seq<char> {
        self.commit.sha@
    }

    fn get_commit_spec(&self) -> (r: String) {
        self.commit.get_commit_spec()
    }
}

impl Tree for ExtantRefName {
    open spec fn tree_reference_view(&self) -> Seq<char> {
        tree_of_spec(self.commit.sha@)
    }

    fn get_tree_reference(&self) -> (r: String) {
        tree_of(self.get_commit_spec())
    }
}

impl Treeish for ExtantRefName {
    open spec fn treeish_view(&self) -> Seq<char> {
        self.commit.sha@
    }

    fn get_treeish_spec(&self) -> (r: String) {
        self.get_commit_spec()
    }
}

/// Resolving a short name to an existing reference agrees with resolving the name to a
/// (reference, commit) pair over the same show-ref entries: `resolved`, a result of
/// [`ExtantRefName::resolve`], exists exactly when `found`, a result of
/// [`crate::git::resolve_refname`], does, and then names the reference found, parsed, and
/// its commit.
pub proof fn lemma_resolve_agrees(
    refname: Seq<char>,
    entries: Seq<(Seq<char>, Seq<char>)>,
    found: Option<(Seq<char>, Seq<char>)>,
    resolved: Option<ExtantRefName>,
)
    requires
        found == select_reference_spec(refname, swapped_reversed(entries)),
        match select_reference_spec(refname, swapped_reversed(entries)) {
            Some((full, sha)) => resolved matches Some(e) && parsed_as(e.name, full) && e.commit.sha@ == sha,
            None => resolved is None,
        },
    ensures
        resolved is Some <==> found is Some,
        found matches Some((full, sha)) ==> (resolved matches Some(e) && parsed_as(e.name, full)
            && e.commit.sha@ == sha),
{
}

} // verus!
