//! Switching branches: where work in progress is stashed, which worktree may take a
//! branch, and the settings that remember a branch's target.
use crate::commit::CommitErr;
use crate::git::{
    delete_ref, local_full_spec, set_setting, upsert_ref, BranchName, BranchyName, GitError,
    LocalBranchName, LocalBranchNameView, ProcessOutput, ReferenceSpec, SettingLocation,
    SettingTarget,
};
use crate::branch::LinkFailure;
use crate::git::{parse_branch_name_spec, UnparsedReference};
use crate::repo::{OpenRepoError, RefErr};
use crate::text::{str_eq, string_views};
use crate::worktree::{Commit, WorktreeListEntry, WorktreeState};
use vstd::prelude::*;

verus! {

/// A branch, or a commit for a detached head.
#[derive(Debug)]
pub enum BranchOrCommit {
    Branch(LocalBranchName),
    Commit(Commit),
}

impl From<WorktreeState> for BranchOrCommit {
    fn from(wt: WorktreeState) -> (r: Self) {
        match wt {
            WorktreeState::CommittedBranch { branch, .. } => BranchOrCommit::Branch(branch),
            WorktreeState::UncommittedBranch { branch } => BranchOrCommit::Branch(branch),
            WorktreeState::DetachedHead { head } => BranchOrCommit::Commit(head),
        }
    }
}

impl vstd::std_specs::convert::FromSpecImpl<WorktreeState> for BranchOrCommit {
    open spec fn obeys_from_spec() -> bool {
        true
    }

    open spec fn from_spec(wt: WorktreeState) -> BranchOrCommit {
        match wt {
            WorktreeState::CommittedBranch { branch, .. } => BranchOrCommit::Branch(branch),
            WorktreeState::UncommittedBranch { branch } => BranchOrCommit::Branch(branch),
            WorktreeState::DetachedHead { head } => BranchOrCommit::Commit(head),
        }
    }
}

impl BranchOrCommit {
    /// A copy.
    pub fn duplicate(&self) -> (r: BranchOrCommit)
        ensures
            wip_ref_spec(r) == wip_ref_spec(*self),
            match (r, *self) {
                (BranchOrCommit::Branch(a), BranchOrCommit::Branch(b)) => a@ == b@,
                (BranchOrCommit::Commit(a), BranchOrCommit::Commit(b)) => a.sha@ == b.sha@,
                _ => false,
            },
    {
        match self {
            BranchOrCommit::Branch(b) => BranchOrCommit::Branch(b.duplicate()),
            BranchOrCommit::Commit(c) => BranchOrCommit::Commit(Commit { sha: c.sha.clone() }),
        }
    }
}

/// The reference under which work in progress is stashed: `refs/branch-wip/<branch>` for
/// a branch, `refs/commits-wip/<commit id>` for a detached head.
pub open spec fn wip_ref_spec(current: BranchOrCommit) -> Seq<char> {
    match current {
        BranchOrCommit::Commit(head) => "refs/commits-wip/"@ + head.sha@,
        BranchOrCommit::Branch(branch) => "refs/branch-wip/"@ + branch@.name,
    }
}

/// The reference under which work in progress is stashed for `current`.
pub fn make_wip_ref(current: &BranchOrCommit) -> (r: String)
    ensures
        r@ == wip_ref_spec(*current),
{
    match current {
        BranchOrCommit::Commit(head) => {
            let mut r = String::from_str("refs/commits-wip/");
            r.append(head.sha.as_str());
            r
        },
        BranchOrCommit::Branch(branch) => {
            let mut r = String::from_str("refs/branch-wip/");
            r.append(branch.branch_name());
            r
        },
    }
}

/// Distinct branches, and distinct commits, stash their work in progress under distinct
/// references, and a branch never shares one with a commit.
pub proof fn lemma_wip_refs_distinct(a: BranchOrCommit, b: BranchOrCommit)
    requires
        wip_ref_spec(a) == wip_ref_spec(b),
    ensures
        match (a, b) {
            (BranchOrCommit::Branch(x), BranchOrCommit::Branch(y)) => x@.name == y@.name,
            (BranchOrCommit::Commit(x), BranchOrCommit::Commit(y)) => x.sha@ == y.sha@,
            _ => false,
        },
{
    reveal_strlit("refs/commits-wip/");
    reveal_strlit("refs/branch-wip/");
    match (a, b) {
        (BranchOrCommit::Branch(x), BranchOrCommit::Branch(y)) => {
            assert(x@.name =~= wip_ref_spec(a).skip(16));
            assert(y@.name =~= wip_ref_spec(b).skip(16));
        },
        (BranchOrCommit::Commit(x), BranchOrCommit::Commit(y)) => {
            assert(x.sha@ =~= wip_ref_spec(a).skip(17));
            assert(y.sha@ =~= wip_ref_spec(b).skip(17));
        },
        (BranchOrCommit::Branch(x), BranchOrCommit::Commit(y)) => {
            assert(wip_ref_spec(a)[5] == 'b');
            assert(wip_ref_spec(b)[5] == 'c');
        },
        (BranchOrCommit::Commit(x), BranchOrCommit::Branch(y)) => {
            assert(wip_ref_spec(a)[5] == 'c');
            assert(wip_ref_spec(b)[5] == 'b');
        },
    }
}

/// The reference that holds stashed work in progress.
pub struct WipReference {
    full_name: String,
}

impl WipReference {
    /// The reference for `tree`'s work in progress.
    pub fn from(tree: &BranchOrCommit) -> (r: WipReference)
        ensures
            r.full_spec() == wip_ref_spec(*tree),
    {
        WipReference { full_name: make_wip_ref(tree) }
    }

    /// The arguments of the `git update-ref` call that deletes the reference.
    pub fn delete(&self) -> (r: Vec<String>)
        ensures
            string_views(r@) == seq!["update-ref"@, "-d"@, self.full_spec()],
    {
        delete_ref(self.full_name.as_str())
    }
}

impl ReferenceSpec for WipReference {
    closed spec fn full_spec(&self) -> Seq<char> {
        self.full_name@
    }

    fn full(&self) -> (r: String) {
        self.full_name.clone()
    }
}

/// Stash the work in progress of `current`, given the stash commit that `git stash create`
/// made (none when there was nothing to stash).  Gives the reference that now holds the
/// stash, if any, and the arguments of the `git update-ref` call that records it there,
/// or that removes an earlier stash when there is nothing to record.
pub fn create_wip_stash(current: &BranchOrCommit, stash: Option<String>) -> (r: (
    Option<WipReference>,
    Vec<String>,
))
    ensures
        match stash {
            Some(oid) => r.0 matches Some(w) && w.full_spec() == wip_ref_spec(*current)
                && string_views(r.1@) == seq!["update-ref"@, wip_ref_spec(*current), oid@],
            None => r.0 is None && string_views(r.1@) == seq![
                "update-ref"@,
                "-d"@,
                wip_ref_spec(*current),
            ],
        },
{
    let current_ref = WipReference::from(current);
    match stash {
        Some(oid) => {
            let args = upsert_ref(current_ref.full_name.as_str(), oid.as_str());
            (Some(current_ref), args)
        },
        None => {
            let args = current_ref.delete();
            (None, args)
        },
    }
}

/// Restore the work in progress stashed for `target`, given what evaluating its stash
/// reference gave: the commit id, or the failed output when there is no stash.  Gives the
/// arguments of the `git stash apply` call and of the `git update-ref` call that then
/// deletes the reference; none when there is nothing to restore.
pub fn apply_wip_stash(target: &BranchOrCommit, evaluated: Result<String, ProcessOutput>) -> (r:
    Option<(Vec<String>, Vec<String>)>)
    ensures
        match evaluated {
            Err(_) => r is None,
            Ok(oid) => r matches Some((apply, delete)) && string_views(apply@) == seq![
                "stash"@,
                "apply"@,
                oid@,
            ] && string_views(delete@) == seq!["update-ref"@, "-d"@, wip_ref_spec(*target)],
        },
{
    let target_ref = WipReference::from(target);
    let oid = match evaluated {
        Ok(oid) => oid,
        Err(_) => return None,
    };
    let apply = vec![String::from_str("stash"), String::from_str("apply"), oid];
    proof {
        assert(string_views(apply@) =~= seq!["stash"@, "apply"@, apply@[2]@]);
    }
    Some((apply, target_ref.delete()))
}

/// Why a switch did not happen.
#[derive(Debug)]
pub enum SwitchErr {
    AlreadyExists,
    NotFound,
    BranchInUse { path: String },
    InvalidBranchName(LocalBranchName),
    GitError(GitError),
    OpenRepoError(OpenRepoError),
    LinkFailure(String),
}

impl SwitchErr {
    /// The error for branches that could not be linked.
    pub fn from_link_failure(err: LinkFailure) -> (r: SwitchErr)
        ensures
            err is NextReferenceExists ==> (r matches SwitchErr::LinkFailure(m) && m@
                == "Next branch is already set"@),
            !(err is NextReferenceExists) ==> r is LinkFailure,
    {
        match err {
            LinkFailure::NextReferenceExists => SwitchErr::LinkFailure(
                String::from_str("Next branch is already set"),
            ),
            _ => SwitchErr::LinkFailure(err.message()),
        }
    }
}

impl From<CommitErr> for SwitchErr {
    fn from(err: CommitErr) -> (r: Self) {
        match err {
            CommitErr::NoCommit { .. } => SwitchErr::NotFound,
            CommitErr::GitError(err) => SwitchErr::GitError(err),
        }
    }
}

impl vstd::std_specs::convert::FromSpecImpl<CommitErr> for SwitchErr {
    open spec fn obeys_from_spec() -> bool {
        true
    }

    open spec fn from_spec(err: CommitErr) -> SwitchErr {
        match err {
            CommitErr::NoCommit { .. } => SwitchErr::NotFound,
            CommitErr::GitError(err) => SwitchErr::GitError(err),
        }
    }
}

impl From<GitError> for SwitchErr {
    fn from(err: GitError) -> (r: Self) {
        SwitchErr::GitError(err)
    }
}

impl vstd::std_specs::convert::FromSpecImpl<GitError> for SwitchErr {
    open spec fn obeys_from_spec() -> bool {
        true
    }

    open spec fn from_spec(err: GitError) -> SwitchErr {
        SwitchErr::GitError(err)
    }
}

/// Decide whether a new branch may be created, given whether a branch of that name
/// already exists and whether its name is valid (`git check-ref-format --branch`).
pub fn check_create_target(branch: LocalBranchName, exists: bool, valid: bool) -> (r: Result<
    LocalBranchName,
    SwitchErr,
>)
    ensures
        exists ==> r matches Err(SwitchErr::AlreadyExists),
        !exists && !valid ==> (r matches Err(SwitchErr::InvalidBranchName(b)) && b@ == branch@),
        !exists && valid ==> (r matches Ok(b) && b@ == branch@),
{
    if exists {
        return Err(SwitchErr::AlreadyExists);
    }
    if !valid {
        return Err(SwitchErr::InvalidBranchName(branch));
    }
    Ok(branch)
}

/// The branch checked out in a worktree, if any.
pub open spec fn checked_out(state: WorktreeState) -> Option<LocalBranchNameView> {
    match state {
        WorktreeState::UncommittedBranch { branch } => Some(branch@),
        WorktreeState::CommittedBranch { branch, .. } => Some(branch@),
        WorktreeState::DetachedHead { .. } => None,
    }
}

/// Worktree `i` is another worktree than the one at `top` and has `branch` checked out.
pub open spec fn blocks(
    wts: Seq<(Seq<char>, WorktreeListEntry)>,
    top: Seq<char>,
    branch: Option<LocalBranchNameView>,
    i: int,
) -> bool {
    &&& 0 <= i < wts.len()
    &&& wts[i].0 != top
    &&& branch is Some
    &&& checked_out(wts[i].1.state) == branch
}

/// Worktree `i` is the last one at `top`.
pub open spec fn is_last_self(wts: Seq<(Seq<char>, WorktreeListEntry)>, top: Seq<char>, i: int) -> bool {
    &&& 0 <= i < wts.len()
    &&& wts[i].0 == top
    &&& forall|j: int| i < j < wts.len() ==> wts[j].0 != top
}

/// The views of (canonical path, worktree) pairs.
pub open spec fn located_views(v: Seq<(String, WorktreeListEntry)>) -> Seq<(Seq<char>, WorktreeListEntry)> {
    v.map_values(|p: (String, WorktreeListEntry)| (p.0@, p.1))
}

/// Whether two local branch names are equal.
fn same_branch(a: &LocalBranchName, b: &LocalBranchName) -> (r: bool)
    ensures
        r == (a@ == b@),
{
    str_eq(a.branch_name(), b.branch_name()) && a.is_shorthand() == b.is_shorthand()
}

/// Find the worktree at `top` among the worktrees, each given with its canonical path,
/// unless another worktree has `branch` checked out.
pub fn check_switch_branch(
    top: &str,
    mut worktrees: Vec<(String, WorktreeListEntry)>,
    branch: Option<&LocalBranchName>,
) -> (r: Result<WorktreeListEntry, SwitchErr>)
    requires
        (exists|i: int| blocks(located_views(worktrees@), top@, opt_view(branch), i)) || (exists|
            i: int,
        | 0 <= i < worktrees@.len() && worktrees@[i].0@ == top@),
    ensures
        match r {
            Err(e) => e matches SwitchErr::BranchInUse { path } && exists|i: int|
                blocks(located_views(worktrees@), top@, opt_view(branch), i) && path
                    == worktrees@[i].1.path && forall|j: int|
                    0 <= j < i ==> !blocks(located_views(worktrees@), top@, opt_view(branch), j),
            Ok(e) => (forall|i: int| !blocks(located_views(worktrees@), top@, opt_view(branch), i))
                && exists|i: int| is_last_self(located_views(worktrees@), top@, i) && e
                    == worktrees@[i].1,
        },
{
    let ghost lv = located_views(worktrees@);
    let ghost orig = worktrees@;
    let mut self_wt: Option<usize> = None;
    let mut i: usize = 0;
    while i < worktrees.len()
        invariant
            worktrees@ == orig,
            lv == located_views(orig),
            i <= worktrees@.len(),
            forall|j: int| 0 <= j < i ==> !blocks(lv, top@, opt_view(branch), j),
            match self_wt {
                Some(k) => k < i && lv[k as int].0 == top@ && forall|j: int|
                    k < j < i ==> lv[j].0 != top@,
                None => forall|j: int| 0 <= j < i ==> lv[j].0 != top@,
            },
        decreases worktrees@.len() - i,
    {
        proof {
            assert(lv[i as int] == (worktrees@[i as int].0@, worktrees@[i as int].1));
        }
        if str_eq(worktrees[i].0.as_str(), top) {
            self_wt = Some(i);
            i = i + 1;
            continue;
        }
        let target_branch = match &worktrees[i].1.state {
            WorktreeState::UncommittedBranch { branch } => branch,
            WorktreeState::CommittedBranch { branch, .. } => branch,
            WorktreeState::DetachedHead { .. } => {
                i = i + 1;
                continue;
            },
        };
        if let Some(b) = branch {
            if same_branch(target_branch, b) {
                proof {
                    assert(blocks(lv, top@, opt_view(branch), i as int));
                }
                let path = worktrees[i].1.path.clone();
                proof {
                    assert(blocks(lv, top@, opt_view(branch), i as int) && path == orig[i as int].1.path
                        && forall|j: int| 0 <= j < i ==> !blocks(lv, top@, opt_view(branch), j));
                }
                return Err(SwitchErr::BranchInUse { path });
            }
        }
        i = i + 1;
    }
    let k = match self_wt {
        Some(k) => k,
        None => {
            proof {
                if exists|i: int| blocks(lv, top@, opt_view(branch), i) {
                    let w = choose|i: int| blocks(lv, top@, opt_view(branch), i);
                    assert(!blocks(lv, top@, opt_view(branch), w));
                } else {
                    let w = choose|i: int| 0 <= i < worktrees@.len() && worktrees@[i].0@ == top@;
                    assert(lv[w].0 == top@);
                }
            }
            0
        },
    };
    proof {
        assert(is_last_self(lv, top@, k as int));
        assert forall|j: int| !blocks(lv, top@, opt_view(branch), j) by {
            if 0 <= j < i {
            }
        }
    }
    let (_, entry) = worktrees.remove(k);
    Ok(entry)
}

/// Whether a listing of worktrees settles [`check_switch_branch`]: another worktree has
/// `branch` checked out, or the listing holds the worktree at `top`.
pub fn worktrees_settle(top: &str, worktrees: &Vec<(String, WorktreeListEntry)>, branch: Option<
    &LocalBranchName,
>) -> (r: bool)
    ensures
        r == ((exists|i: int| blocks(located_views(worktrees@), top@, opt_view(branch), i)) || (exists|
            i: int,
        | 0 <= i < worktrees@.len() && worktrees@[i].0@ == top@)),
{
    let ghost lv = located_views(worktrees@);
    let mut i: usize = 0;
    while i < worktrees.len()
        invariant
            lv == located_views(worktrees@),
            i <= worktrees@.len(),
            forall|j: int| 0 <= j < i ==> !blocks(lv, top@, opt_view(branch), j),
            forall|j: int| 0 <= j < i ==> worktrees@[j].0@ != top@,
        decreases worktrees@.len() - i,
    {
        proof {
            assert(lv[i as int] == (worktrees@[i as int].0@, worktrees@[i as int].1));
        }
        if str_eq(worktrees[i].0.as_str(), top) {
            return true;
        }
        let checked = match &worktrees[i].1.state {
            WorktreeState::UncommittedBranch { branch } => Some(branch),
            WorktreeState::CommittedBranch { branch, .. } => Some(branch),
            WorktreeState::DetachedHead { .. } => None,
        };
        if let (Some(t), Some(b)) = (checked, branch) {
            if same_branch(t, b) {
                proof {
                    assert(blocks(lv, top@, opt_view(branch), i as int));
                }
                return true;
            }
        }
        proof {
            assert(!blocks(lv, top@, opt_view(branch), i as int));
        }
        i = i + 1;
    }
    proof {
        assert forall|j: int| !blocks(lv, top@, opt_view(branch), j) by {
            if 0 <= j < i {
            }
        }
    }
    false
}

/// The view of an optional branch name.
pub open spec fn opt_view(b: Option<&LocalBranchName>) -> Option<LocalBranchNameView> {
    match b {
        Some(b) => Some(b@),
        None => None,
    }
}

/// How to switch: create a branch (optionally as the next one in a sequence), or switch to
/// an existing one, stashing and restoring work in progress or keeping it in the tree.
pub enum SwitchType {
    Create(LocalBranchName),
    CreateNext(LocalBranchName),
    WithStash(BranchyName),
    PlainSwitch(BranchyName),
}

impl SwitchType {
    /// The name that the switch goes to, as given to `git checkout`.
    pub open spec fn target_name(&self) -> Seq<char> {
        match self {
            SwitchType::Create(t) => t@.name,
            SwitchType::CreateNext(t) => t@.name,
            SwitchType::PlainSwitch(t) => t.as_branch_spec(),
            SwitchType::WithStash(t) => t.as_branch_spec(),
        }
    }

    /// A copy of the switch type.
    pub fn duplicate(&self) -> (r: SwitchType)
        ensures
            r.target_name() == self.target_name(),
            self is Create <==> r is Create,
            self is CreateNext <==> r is CreateNext,
            self is WithStash <==> r is WithStash,
            self is PlainSwitch <==> r is PlainSwitch,
    {
        match self {
            SwitchType::Create(t) => SwitchType::Create(t.duplicate()),
            SwitchType::CreateNext(t) => SwitchType::CreateNext(t.duplicate()),
            SwitchType::WithStash(t) => SwitchType::WithStash(t.duplicate()),
            SwitchType::PlainSwitch(t) => SwitchType::PlainSwitch(t.duplicate()),
        }
    }

    /// The name that the switch goes to, as given to `git checkout`.
    pub fn target(&self) -> (r: String)
        ensures
            r@ == self.target_name(),
    {
        match self {
            SwitchType::Create(t) => t.branch_name().to_owned(),
            SwitchType::CreateNext(t) => t.branch_name().to_owned(),
            SwitchType::PlainSwitch(t) => t.get_as_branch(),
            SwitchType::WithStash(t) => t.get_as_branch(),
        }
    }
}

/// Where a switch lands, once its target is resolved: a branch, or a spec whose commit is
/// still to be found (with `git rev-list`).
pub enum TargetLookup {
    Found(BranchOrCommit),
    FindCommit(String),
}

/// Where a switch to a branchy name lands, from what resolving the name gave; `longest`
/// is the longest form of the name, looked up as a commit when the name did not resolve.
/// A remote-tracking branch stands for the local branch of the same name.
pub fn determine_switch_target(resolved: Result<BranchyName, RefErr>, longest: &str) -> (r: TargetLookup)
    ensures
        match resolved {
            Err(_) => r matches TargetLookup::FindCommit(s) && s@ == longest@,
            Ok(BranchyName::UnresolvedName(n)) => r matches TargetLookup::FindCommit(s) && s@ == n@,
            Ok(BranchyName::LocalBranch(l)) => r matches TargetLookup::Found(
                BranchOrCommit::Branch(b),
            ) && b@ == l@,
            Ok(BranchyName::RefName(n)) => match parse_branch_name_spec(n.longest_spec()) {
                Some((_, _, name)) => r matches TargetLookup::Found(BranchOrCommit::Branch(b))
                    && b@ == (LocalBranchNameView { name, is_shorthand: None }),
                None => r matches TargetLookup::FindCommit(s) && s@ == n.longest_spec(),
            },
        },
{
    let branchy = match resolved {
        Ok(branchy) => branchy,
        Err(_) => return TargetLookup::FindCommit(longest.to_owned()),
    };
    match BranchName::try_from_branchy(branchy) {
        Ok(BranchName::Local(branch)) => TargetLookup::Found(BranchOrCommit::Branch(branch)),
        Ok(BranchName::Remote(rb)) => TargetLookup::Found(
            BranchOrCommit::Branch(LocalBranchName::new(rb.name, None)),
        ),
        Err(UnparsedReference { name }) => TargetLookup::FindCommit(name),
    }
}

/// The arguments of the `git checkout` call that switches to `target_branch`, creating it
/// when asked, and discarding local changes when asked.
pub open spec fn checkout_args(target: Seq<char>, create: bool, discard: bool) -> Seq<Seq<char>> {
    seq!["checkout"@] + (if discard {
        seq!["--force"@]
    } else {
        Seq::empty()
    }) + (if create {
        seq!["-b"@]
    } else {
        Seq::empty()
    }) + seq![target, "--"@]
}

/// The git calls that switch to `target_branch`: `git checkout`, after a hard reset when
/// a new branch is created with local changes discarded.
pub fn git_switch(target_branch: &str, create: bool, discard_changes: bool) -> (r: Vec<Vec<String>>)
    ensures
        create && discard_changes ==> (r@.len() == 2 && string_views(r@[0]@) == seq![
            "reset"@,
            "--hard"@,
        ] && string_views(r@[1]@) == checkout_args(target_branch@, create, discard_changes)),
        !(create && discard_changes) ==> (r@.len() == 1 && string_views(r@[0]@) == checkout_args(
            target_branch@,
            create,
            discard_changes,
        )),
{
    let mut calls: Vec<Vec<String>> = Vec::new();
    if create && discard_changes {
        let reset = vec![String::from_str("reset"), String::from_str("--hard")];
        proof {
            assert(string_views(reset@) =~= seq!["reset"@, "--hard"@]);
        }
        calls.push(reset);
    }
    let mut switch_cmd: Vec<String> = vec![String::from_str("checkout")];
    if discard_changes {
        switch_cmd.push(String::from_str("--force"));
    }
    if create {
        switch_cmd.push(String::from_str("-b"));
    }
    switch_cmd.push(target_branch.to_owned());
    switch_cmd.push(String::from_str("--"));
    proof {
        assert(string_views(switch_cmd@) =~= checkout_args(target_branch@, create, discard_changes));
    }
    calls.push(switch_cmd);
    calls
}

/// A setting of a target (such as a branch), by name.
pub struct StructuredSetting<'a, T: SettingTarget> {
    target: &'a T,
    setting: String,
}

impl<'a, T: SettingTarget> StructuredSetting<'a, T> {
    /// The full name of the setting.
    pub closed spec fn setting_spec(&self) -> Seq<char> {
        self.target.prefix_spec() + self.setting@
    }

    /// Whether `key` is the full name of the setting.
    pub fn matches(&self, key: &str) -> (r: bool)
        ensures
            r == (self.setting_spec() == key@),
    {
        let s = self.to_setting_string();
        str_eq(s.as_str(), key)
    }

    /// The full name of the setting.
    pub fn to_setting_string(&self) -> (r: String)
        ensures
            r@ == self.setting_spec(),
    {
        self.target.setting_name(self.setting.as_str())
    }

    /// The arguments of the `git config` call that sets the setting to `value`.
    pub fn set_setting(&self, location: SettingLocation, value: &str) -> (r: Vec<String>)
        ensures
            string_views(r@) == seq!["config"@, "--replace"@, "--local"@, self.setting_spec(), value@],
    {
        let name = self.to_setting_string();
        set_setting(location, name.as_str(), value)
    }
}

/// The setting that remembers the branch that `branch` merges into.
pub fn target_branch_setting(branch: &LocalBranchName) -> (r: StructuredSetting<'_, LocalBranchName>)
    ensures
        r.setting_spec() == branch.prefix_spec() + "oaf-target-branch"@,
{
    StructuredSetting { target: branch, setting: String::from_str("oaf-target-branch") }
}

/// The arguments of the `git config` call that remembers `target` as the branch that
/// `branch` merges into.
pub fn set_target(branch: &LocalBranchName, target: &BranchName) -> (r: Vec<String>)
    ensures
        string_views(r@) == seq![
            "config"@,
            "--replace"@,
            "--local"@,
            branch.prefix_spec() + "oaf-target-branch"@,
            target.full_spec(),
        ],
{
    let setting = target_branch_setting(branch);
    let full = target.full();
    setting.set_setting(SettingLocation::Local, full.as_str())
}

} // verus!
