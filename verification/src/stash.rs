//! Switching branches while stashing and restoring work in progress, as a state machine.
//!
//! The switch alternates git calls with decisions on their results.  [`StashSwitch`]
//! holds the decisions: each [`StashSwitch::step`] takes what the last request gave and
//! returns the next request, with a message to show first.  The caller performs the
//! requests (running git, opening the repository) and feeds back the answers.
use crate::branch::{check_link, pipe_next_spec, pipe_prev_spec, PipeNext, PipePrev};
use crate::commit::CommitErr;
use crate::git::{
    local_full_spec, BranchName, BranchyName, GitError, LocalBranchName, LocalBranchNameView,
    ProcessOutput, ReferenceSpec,
};
use crate::repo::{OpenRepoError, RefErr};
use crate::switch::{
    apply_wip_stash, check_create_target, check_switch_branch, checkout_args, create_wip_stash,
    determine_switch_target, git_switch, located_views, opt_view, blocks, set_target,
    wip_ref_spec, BranchOrCommit, SwitchErr, SwitchType, TargetLookup, WipReference,
};
use crate::text::{starts_with, string_views};
use crate::worktree::{Commit, WorktreeListEntry};
use vstd::prelude::*;

verus! {

/// What the switch asks of its caller next.
pub enum SwitchRequest {
    /// Find the top of the working tree (`git rev-parse --show-toplevel`); answer
    /// [`SwitchEvent::Toplevel`].
    GetToplevel,
    /// Tell whether the reference exists (`git rev-list -n1 <full>` succeeds); answer
    /// [`SwitchEvent::Exists`].
    BranchExists { full: String },
    /// Tell whether `git` with these arguments (`check-ref-format --branch <name>`)
    /// succeeds; answer [`SwitchEvent::Valid`].
    CheckRefFormat { args: Vec<String> },
    /// List the worktrees with their canonical paths, and the canonical path of the top;
    /// answer [`SwitchEvent::Worktrees`].
    ListWorktrees,
    /// Open the repository; answer [`SwitchEvent::Repo`].
    OpenRepo,
    /// Tell whether these two references exist; answer [`SwitchEvent::LinkRefs`].
    LinkRefsExist { prev_ref: String, next_ref: String },
    /// Make a stash commit (`git stash create`); answer [`SwitchEvent::Stash`].
    CreateStash,
    /// Run `git` with these arguments, which must succeed; answer [`SwitchEvent::GitDone`].
    Git { args: Vec<String> },
    /// Run `git` with these `checkout` arguments; answer [`SwitchEvent::Switched`].
    Checkout { args: Vec<String> },
    /// Resolve the name against the repository; answer [`SwitchEvent::Resolved`].
    ResolveTarget { target: BranchyName },
    /// Find the commit of a spec (`git rev-list -n1 <spec>`); answer
    /// [`SwitchEvent::CommitFound`].
    FindCommit { spec: String },
    /// Evaluate the reference (`git rev-list -n1 <full>`); answer [`SwitchEvent::Evaluated`].
    EvalRef { full: String },
    /// Link the branches as previous and next; answer [`SwitchEvent::Linked`].
    Link { prev: LocalBranchName, next: LocalBranchName },
    /// The switch is over, with this outcome.
    Finish(Result<(), SwitchErr>),
}

/// A request, with a message to show before performing it.
pub struct SwitchAction {
    pub say: Option<String>,
    pub request: SwitchRequest,
}

/// What the caller answers to a request.
pub enum SwitchEvent {
    Begin,
    Toplevel(Result<String, GitError>),
    Exists(bool),
    Valid(bool),
    Worktrees { top: String, worktrees: Vec<(String, WorktreeListEntry)> },
    Repo(Result<(), OpenRepoError>),
    LinkRefs { prev_exists: bool, next_exists: bool },
    Stash(Option<String>),
    GitDone,
    Switched(Result<(), GitError>),
    Resolved(Result<BranchyName, RefErr>),
    CommitFound(Result<Commit, CommitErr>),
    Evaluated(Result<String, ProcessOutput>),
    Linked(Result<(), SwitchErr>),
}

/// Where the switch stands.
#[derive(PartialEq, Eq, Structural, Clone, Copy, Debug)]
pub enum SwitchPhase {
    Start,
    AwaitTop,
    AwaitExists,
    AwaitValid,
    AwaitWorktrees,
    AwaitRepo,
    AwaitLinkRefs,
    AwaitStash,
    AwaitStashRecorded,
    AwaitSwitch,
    AwaitStashDropped,
    AwaitResolve,
    AwaitCommit,
    AwaitWipEval,
    AwaitApplied,
    AwaitWipDeleted,
    AwaitTargetSet,
    AwaitLink,
    Finished,
}

/// The error that a failed checkout stands for when it names an invalid reference.
pub open spec fn invalid_reference(e: GitError) -> bool {
    e matches GitError::UnknownError(s) && "fatal: invalid reference"@.is_prefix_of(s@)
}

/// The phases that come after a successful checkout.
pub open spec fn switched(p: SwitchPhase) -> bool {
    p == SwitchPhase::AwaitResolve || p == SwitchPhase::AwaitCommit || p == SwitchPhase::AwaitWipEval
        || p == SwitchPhase::AwaitApplied || p == SwitchPhase::AwaitWipDeleted || p
        == SwitchPhase::AwaitTargetSet || p == SwitchPhase::AwaitLink
}

/// The name of the branch that a switch creates (empty for a switch that creates none).
pub open spec fn created_name(kind: SwitchType) -> Seq<char> {
    match kind {
        SwitchType::Create(b) => b@.name,
        SwitchType::CreateNext(b) => b@.name,
        _ => Seq::empty(),
    }
}

/// The longest form of a name: the full name of a branch or reference, else the name.
pub open spec fn branchy_longest(b: BranchyName) -> Seq<char> {
    match b {
        BranchyName::RefName(n) => n.longest_spec(),
        BranchyName::LocalBranch(l) => local_full_spec(l@.name),
        BranchyName::UnresolvedName(u) => u@,
    }
}

/// A switch in progress.
pub struct StashSwitch {
    switch_type: SwitchType,
    phase: SwitchPhase,
    /// The branch to create, or the local branch switched to.
    target: Option<LocalBranchName>,
    /// The name given to `git checkout`.
    branchy: String,
    /// The branch or commit checked out before the switch.
    current: Option<BranchOrCommit>,
    /// Whether the new branch is to be linked after the current one.
    link: bool,
    /// The reference that holds the work in progress stashed by this switch.
    new_stash: Option<WipReference>,
    /// What the switch landed on, whose work in progress is restored.
    landed: Option<BranchOrCommit>,
    /// The `git update-ref` call that deletes the restored stash reference.
    pending_delete: Vec<String>,
}

impl StashSwitch {
    /// Where the switch stands.
    pub closed spec fn phase_spec(&self) -> SwitchPhase {
        self.phase
    }

    /// How the switch was asked for.
    pub closed spec fn kind(&self) -> SwitchType {
        self.switch_type
    }

    /// The reference holding work in progress that this switch stashed, if any.
    pub closed spec fn stashed(&self) -> Option<Seq<char>> {
        match self.new_stash {
            Some(w) => Some(w.full_spec()),
            None => None,
        }
    }

    /// The branch or commit checked out when the switch began, once known.
    pub closed spec fn current_spec(&self) -> Option<BranchOrCommit> {
        self.current
    }

    /// The name given to `git checkout`.
    pub closed spec fn branchy_spec(&self) -> Seq<char> {
        self.branchy@
    }

    /// The branch to create, or the local branch switched to, once known.
    pub closed spec fn target_spec(&self) -> Option<LocalBranchNameView> {
        match self.target {
            Some(t) => Some(t@),
            None => None,
        }
    }

    /// Whether the new branch is to be linked after the branch left.
    pub closed spec fn links(&self) -> bool {
        self.link
    }

    /// What the switch landed on, once known.
    pub closed spec fn landed_spec(&self) -> Option<BranchOrCommit> {
        self.landed
    }

    /// Whether the switch creates a branch.
    pub open spec fn creates(&self) -> bool {
        self.kind() is Create || self.kind() is CreateNext
    }

    /// The internal consistency of a switch in progress.
    pub closed spec fn well_formed(&self) -> bool {
        &&& self.branchy@ == self.switch_type.target_name()
        &&& (self.switch_type is Create || self.switch_type is CreateNext) ==> (self.phase
            != SwitchPhase::Start && self.phase != SwitchPhase::AwaitTop && self.phase
            != SwitchPhase::Finished ==> (self.target matches Some(t) && t@ == match self.switch_type {
            SwitchType::Create(b) => b@,
            SwitchType::CreateNext(b) => b@,
            _ => t@,
        }))
        &&& self.new_stash is Some ==> self.switch_type is WithStash
        &&& (self.phase == SwitchPhase::AwaitRepo || self.phase == SwitchPhase::AwaitLinkRefs
            || self.phase == SwitchPhase::AwaitStash || self.phase == SwitchPhase::AwaitStashRecorded
            || self.phase == SwitchPhase::AwaitSwitch || self.phase == SwitchPhase::AwaitStashDropped
            || self.phase == SwitchPhase::AwaitResolve || self.phase == SwitchPhase::AwaitCommit
            || self.phase == SwitchPhase::AwaitWipEval || self.phase == SwitchPhase::AwaitApplied
            || self.phase == SwitchPhase::AwaitWipDeleted || self.phase == SwitchPhase::AwaitTargetSet
            || self.phase == SwitchPhase::AwaitLink) ==> self.current is Some
        &&& (self.phase == SwitchPhase::AwaitApplied || self.phase == SwitchPhase::AwaitWipDeleted
            || self.phase == SwitchPhase::AwaitWipEval) ==> self.landed is Some
        &&& self.link ==> (self.switch_type is CreateNext && self.current matches Some(
            BranchOrCommit::Branch(_),
        ))
        &&& self.phase == SwitchPhase::AwaitStashDropped ==> self.new_stash is Some
        &&& (self.phase == SwitchPhase::Start || self.phase == SwitchPhase::AwaitTop || self.phase
            == SwitchPhase::AwaitExists || self.phase == SwitchPhase::AwaitValid || self.phase
            == SwitchPhase::AwaitWorktrees || self.phase == SwitchPhase::AwaitRepo) ==> !self.link
        &&& (self.phase == SwitchPhase::AwaitExists || self.phase == SwitchPhase::AwaitValid) ==> (
        self.switch_type is Create || self.switch_type is CreateNext)
        &&& (self.phase == SwitchPhase::Start || self.phase == SwitchPhase::AwaitTop || self.phase
            == SwitchPhase::AwaitExists || self.phase == SwitchPhase::AwaitValid || self.phase
            == SwitchPhase::AwaitWorktrees || self.phase == SwitchPhase::AwaitRepo || self.phase
            == SwitchPhase::AwaitLinkRefs || self.phase == SwitchPhase::AwaitStash) ==> self.new_stash is None
        &&& (self.phase == SwitchPhase::AwaitStash || self.phase == SwitchPhase::AwaitStashRecorded
            || self.phase == SwitchPhase::AwaitResolve || self.phase == SwitchPhase::AwaitCommit
            || self.phase == SwitchPhase::AwaitWipEval || self.phase == SwitchPhase::AwaitApplied
            || self.phase == SwitchPhase::AwaitWipDeleted) ==> self.switch_type is WithStash
        &&& (self.phase == SwitchPhase::AwaitLinkRefs || self.phase == SwitchPhase::AwaitLink)
            ==> self.link
        &&& (self.phase == SwitchPhase::AwaitTargetSet || self.phase == SwitchPhase::AwaitLink) ==> (
        (self.switch_type is Create || self.switch_type is CreateNext) && self.current matches Some(
            BranchOrCommit::Branch(_),
        ))
        &&& self.phase == SwitchPhase::AwaitApplied ==> (self.landed matches Some(l) && string_views(
            self.pending_delete@,
        ) == seq!["update-ref"@, "-d"@, wip_ref_spec(l)])
    }

    /// The answer that the switch expects next fits the request it made.
    pub open spec fn expects(&self, event: SwitchEvent) -> bool {
        match self.phase_spec() {
            SwitchPhase::Start => event is Begin,
            SwitchPhase::AwaitTop => event is Toplevel,
            SwitchPhase::AwaitExists => event is Exists,
            SwitchPhase::AwaitValid => event is Valid,
            SwitchPhase::AwaitWorktrees => event matches SwitchEvent::Worktrees { top, worktrees }
                && ((exists|i: int| blocks(located_views(worktrees@), top@, self.target_spec(), i))
                || (exists|i: int| 0 <= i < worktrees@.len() && worktrees@[i].0@ == top@)),
            SwitchPhase::AwaitRepo => event is Repo,
            SwitchPhase::AwaitLinkRefs => event is LinkRefs,
            SwitchPhase::AwaitStash => event is Stash,
            SwitchPhase::AwaitStashRecorded => event is GitDone,
            SwitchPhase::AwaitSwitch => event matches SwitchEvent::Switched(r) && (r matches Err(
                e,
            ) ==> invalid_reference(e)),
            SwitchPhase::AwaitStashDropped => event is GitDone,
            SwitchPhase::AwaitResolve => event is Resolved,
            SwitchPhase::AwaitCommit => event is CommitFound,
            SwitchPhase::AwaitWipEval => event is Evaluated,
            SwitchPhase::AwaitApplied => event is GitDone,
            SwitchPhase::AwaitWipDeleted => event is GitDone,
            SwitchPhase::AwaitTargetSet => event is GitDone,
            SwitchPhase::AwaitLink => event is Linked,
            SwitchPhase::Finished => false,
        }
    }

    /// Whether a listing of worktrees, with the canonical path of the top, answers the
    /// request to list them: another worktree has the target checked out, or the listing
    /// holds the worktree at the top.
    pub fn worktrees_answer(&self, top: &str, worktrees: &Vec<(String, WorktreeListEntry)>) -> (r: bool)
        ensures
            r == ((exists|i: int| blocks(located_views(worktrees@), top@, self.target_spec(), i))
                || (exists|i: int| 0 <= i < worktrees@.len() && worktrees@[i].0@ == top@)),
    {
        match &self.target {
            Some(t) => crate::switch::worktrees_settle(top, worktrees, Some(t)),
            None => crate::switch::worktrees_settle(top, worktrees, None),
        }
    }

    /// A switch of the given kind, not yet begun.
    pub fn new(switch_type: SwitchType) -> (r: StashSwitch)
        ensures
            r.well_formed(),
            r.phase_spec() == SwitchPhase::Start,
            r.kind() == switch_type,
            r.stashed() is None,
    {
        let branchy = switch_type.target();
        StashSwitch {
            switch_type,
            phase: SwitchPhase::Start,
            target: None,
            branchy,
            current: None,
            link: false,
            new_stash: None,
            landed: None,
            pending_delete: Vec::new(),
        }
    }

    /// Ask to list the worktrees.
    fn list_worktrees(&mut self) -> (r: SwitchAction)
        ensures
            final(self).branchy == old(self).branchy,
            final(self).phase == SwitchPhase::AwaitWorktrees,
            final(self).switch_type == old(self).switch_type,
            final(self).target == old(self).target,
            final(self).branchy == old(self).branchy,
            final(self).current == old(self).current,
            final(self).new_stash == old(self).new_stash,
            final(self).link == old(self).link,
            r.say is None && r.request is ListWorktrees,
    {
        self.phase = SwitchPhase::AwaitWorktrees;
        SwitchAction { say: None, request: SwitchRequest::ListWorktrees }
    }

    /// Finish with an outcome.
    fn finish(&mut self, say: Option<String>, outcome: Result<(), SwitchErr>) -> (r: SwitchAction)
        ensures
            final(self).branchy == old(self).branchy,
            final(self).phase == SwitchPhase::Finished,
            final(self).switch_type == old(self).switch_type,
            final(self).target == old(self).target,
            final(self).branchy == old(self).branchy,
            final(self).current == old(self).current,
            final(self).new_stash == old(self).new_stash,
            final(self).link == old(self).link,
            r.say == say && r.request == SwitchRequest::Finish(outcome),
    {
        self.phase = SwitchPhase::Finished;
        SwitchAction { say, request: SwitchRequest::Finish(outcome) }
    }

    /// Continue after the repository is open: check the links to make, or stash.
    fn after_repo(&mut self) -> (r: SwitchAction)
        requires
            old(self).well_formed(),
            old(self).current is Some,
            old(self).new_stash is None,
            old(self).phase == SwitchPhase::AwaitRepo,
        ensures
            final(self).branchy == old(self).branchy,
            final(self).well_formed(),
            final(self).switch_type == old(self).switch_type,
            final(self).current == old(self).current,
            final(self).new_stash == old(self).new_stash,
            r.request is CreateStash ==> final(self).switch_type is WithStash,
            r.request is LinkRefsExist || r.request is CreateStash || r.request is Checkout,
            r.request matches SwitchRequest::Checkout { args } ==> string_views(args@)
                == checkout_args(old(self).branchy@, old(self).creates(), !old(self).creates()),
            final(self).target == old(self).target,
            final(self).landed == old(self).landed,
            old(self).switch_type is CreateNext ==> (old(self).current matches Some(
                BranchOrCommit::Branch(b),
            ) ==> (r.request matches SwitchRequest::LinkRefsExist { prev_ref, next_ref } && prev_ref@
                == pipe_prev_spec(created_name(old(self).switch_type)) && next_ref@ == pipe_next_spec(
                b@.name,
            ) && final(self).phase == SwitchPhase::AwaitLinkRefs && r.say is None)),
            old(self).switch_type is WithStash ==> (r.request is CreateStash && final(self).phase
                == SwitchPhase::AwaitStash && r.say is None),
            !(old(self).switch_type is WithStash) && !(old(self).switch_type is CreateNext
                && old(self).current matches Some(BranchOrCommit::Branch(_))) ==> (r.request is Checkout
                && final(self).phase == SwitchPhase::AwaitSwitch && (r.say matches Some(m) && m@
                == "Retaining any local changes."@)),
    {
        let link_from = match (&self.switch_type, &self.current) {
            (SwitchType::CreateNext(target), Some(BranchOrCommit::Branch(old_branch))) => Some(
                (old_branch.duplicate(), target.duplicate()),
            ),
            _ => None,
        };
        match link_from {
            Some((old_branch, target)) => {
                self.link = true;
                self.phase = SwitchPhase::AwaitLinkRefs;
                let prev_ref = PipePrev { name: target };
                let next_ref = PipeNext { name: old_branch };
                SwitchAction {
                    say: None,
                    request: SwitchRequest::LinkRefsExist {
                        prev_ref: prev_ref.full(),
                        next_ref: next_ref.full(),
                    },
                }
            },
            None => self.stash_or_keep(),
        }
    }

    /// Stash work in progress when asked to; else keep it in the tree and switch.
    fn stash_or_keep(&mut self) -> (r: SwitchAction)
        requires
            old(self).phase != SwitchPhase::Start,
            old(self).phase != SwitchPhase::AwaitTop,
            old(self).phase != SwitchPhase::Finished,
            old(self).well_formed(),
            old(self).current is Some,
            old(self).new_stash is None,
        ensures
            final(self).branchy == old(self).branchy,
            final(self).well_formed(),
            final(self).switch_type == old(self).switch_type,
            final(self).current == old(self).current,
            final(self).new_stash is None,
            old(self).switch_type is WithStash ==> (final(self).phase == SwitchPhase::AwaitStash
                && r.request is CreateStash && r.say is None),
            !(old(self).switch_type is WithStash) ==> (final(self).phase == SwitchPhase::AwaitSwitch
                && r.request is Checkout && (r.say matches Some(m) && m@
                == "Retaining any local changes."@)),
            r.request matches SwitchRequest::Checkout { args } ==> string_views(args@)
                == checkout_args(old(self).branchy@, old(self).creates(), !old(self).creates()),
            final(self).target == old(self).target,
            final(self).link == old(self).link,
            final(self).landed == old(self).landed,
    {
        if let SwitchType::WithStash(_) = &self.switch_type {
            self.phase = SwitchPhase::AwaitStash;
            SwitchAction { say: None, request: SwitchRequest::CreateStash }
        } else {
            self.checkout(Some(String::from_str("Retaining any local changes.")))
        }
    }

    /// Ask to check out the target.
    fn checkout(&mut self, say: Option<String>) -> (r: SwitchAction)
        requires
            old(self).phase != SwitchPhase::Start,
            old(self).phase != SwitchPhase::AwaitTop,
            old(self).phase != SwitchPhase::Finished,
            old(self).well_formed(),
            old(self).current is Some,
        ensures
            final(self).branchy == old(self).branchy,
            final(self).well_formed(),
            final(self).switch_type == old(self).switch_type,
            final(self).current == old(self).current,
            final(self).new_stash == old(self).new_stash,
            final(self).phase == SwitchPhase::AwaitSwitch,
            final(self).target == old(self).target,
            final(self).link == old(self).link,
            final(self).landed == old(self).landed,
            r.say == say,
            r.request matches SwitchRequest::Checkout { args } && string_views(args@)
                == checkout_args(old(self).branchy@, old(self).creates(), !old(self).creates()),
    {
        let create = match &self.switch_type {
            SwitchType::Create(_) | SwitchType::CreateNext(_) => true,
            _ => false,
        };
        let mut calls = git_switch(self.branchy.as_str(), create, !create);
        let args = calls.pop().unwrap();
        self.phase = SwitchPhase::AwaitSwitch;
        SwitchAction { say, request: SwitchRequest::Checkout { args } }
    }

    /// After the switch (and any restore): record the target of a new branch, link it,
    /// and finish.
    fn wrap_up(&mut self, say: Option<String>) -> (r: SwitchAction)
        requires
            old(self).phase != SwitchPhase::Start,
            old(self).phase != SwitchPhase::AwaitTop,
            old(self).phase != SwitchPhase::Finished,
            old(self).well_formed(),
            old(self).current is Some,
        ensures
            final(self).branchy == old(self).branchy,
            final(self).well_formed(),
            final(self).switch_type == old(self).switch_type,
            final(self).new_stash == old(self).new_stash,
            final(self).current == old(self).current,
            r.say == say,
            old(self).creates() ==> (old(self).current matches Some(BranchOrCommit::Branch(b)) ==> (
            final(self).phase == SwitchPhase::AwaitTargetSet && (r.request matches SwitchRequest::Git {
                args,
            } && string_views(args@) == seq![
                "config"@,
                "--replace"@,
                "--local"@,
                crate::git::branch_prefix_spec(old(self).target_spec()->0.name) + "oaf-target-branch"@,
                local_full_spec(b@.name),
            ]))),
            !(old(self).creates() && old(self).current matches Some(BranchOrCommit::Branch(_)))
                ==> (r.request == SwitchRequest::Finish(Ok(())) && final(self).phase
                == SwitchPhase::Finished),
            final(self).target == old(self).target,
            final(self).link == old(self).link,
    {
        let setting = match (&self.target, &self.current) {
            (Some(target), Some(BranchOrCommit::Branch(old_branch))) => {
                if let SwitchType::Create(_) | SwitchType::CreateNext(_) = &self.switch_type {
                    let old = BranchName::Local(old_branch.duplicate());
                    Some(set_target(target, &old))
                } else {
                    None
                }
            },
            _ => None,
        };
        match setting {
            Some(args) => {
                self.phase = SwitchPhase::AwaitTargetSet;
                SwitchAction { say, request: SwitchRequest::Git { args } }
            },
            None => self.finish(say, Ok(())),
        }
    }

    /// Take the answer to the last request and return the next request.
    #[verifier::spinoff_prover]
    #[verifier::rlimit(100)]
    pub fn step(&mut self, event: SwitchEvent) -> (r: SwitchAction)
        requires
            old(self).well_formed(),
            old(self).expects(event),
        ensures
            final(self).well_formed(),
            final(self).kind() == old(self).kind(),
            // Work in progress is stashed only when the switch was asked to stash it.
            r.request is CreateStash ==> old(self).kind() is WithStash,
            // A branch that exists is not created; an invalid name is refused.
            old(self).phase_spec() == SwitchPhase::AwaitExists && event == SwitchEvent::Exists(true)
                ==> r.request matches SwitchRequest::Finish(Err(SwitchErr::AlreadyExists)),
            old(self).phase_spec() == SwitchPhase::AwaitValid && event == SwitchEvent::Valid(false)
                ==> (r.request matches SwitchRequest::Finish(Err(SwitchErr::InvalidBranchName(b)))
                ==> b@ == old(self).target_spec()->0),
            old(self).phase_spec() == SwitchPhase::AwaitValid && event == SwitchEvent::Valid(false)
                ==> r.request matches SwitchRequest::Finish(Err(SwitchErr::InvalidBranchName(_))),
            // Git errors end the switch.
            old(self).phase_spec() == SwitchPhase::AwaitTop ==> (event matches SwitchEvent::Toplevel(
                Err(e),
            ) ==> r.request == SwitchRequest::Finish(Err(SwitchErr::GitError(e)))),
            // Stashed work is recorded under the reference of the branch or commit left.
            old(self).phase_spec() == SwitchPhase::AwaitStash ==> (event matches SwitchEvent::Stash(
                Some(oid),
            ) ==> (r.request matches SwitchRequest::Git { args } && string_views(args@) == seq![
                "update-ref"@,
                wip_ref_spec(old(self).current_spec()->0),
                oid@,
            ] && final(self).stashed() == Some(wip_ref_spec(old(self).current_spec()->0)))),
            // The checkout creates the branch for a creating switch, and discards local
            // changes otherwise.
            r.request matches SwitchRequest::Checkout { args } ==> string_views(args@)
                == checkout_args(old(self).branchy_spec(), old(self).creates(), !old(self).creates()),
            // A checkout that names an invalid reference ends in `NotFound`, after the stash
            // made for it is dropped.
            (old(self).phase_spec() == SwitchPhase::AwaitSwitch && event matches SwitchEvent::Switched(
                Err(_),
            )) ==> match old(self).stashed() {
                Some(s) => (r.request matches SwitchRequest::Git { args } && string_views(args@)
                    == seq!["update-ref"@, "-d"@, s]) && final(self).phase_spec()
                    == SwitchPhase::AwaitStashDropped,
                None => r.request matches SwitchRequest::Finish(Err(SwitchErr::NotFound)),
            },
            old(self).phase_spec() == SwitchPhase::AwaitStashDropped ==> r.request matches SwitchRequest::Finish(
                Err(SwitchErr::NotFound),
            ),
            // Work in progress is restored from the reference of the branch or commit landed on.
            r.request matches SwitchRequest::EvalRef { full } ==> old(self).kind() is WithStash,
            old(self).phase_spec() == SwitchPhase::AwaitWipEval ==> (event matches SwitchEvent::Evaluated(
                Ok(oid),
            ) ==> (r.request matches SwitchRequest::Git { args } && string_views(args@) == seq![
                "stash"@,
                "apply"@,
                oid@,
            ])),
            // Success is reported only after a successful checkout: the phases after one are
            // reached only from one, and only they (or the checkout itself) end in success.
            r.request matches SwitchRequest::Finish(Ok(_)) ==> switched(old(self).phase_spec()) || (
            old(self).phase_spec() == SwitchPhase::AwaitSwitch && event matches SwitchEvent::Switched(
                Ok(_),
            )),
            switched(final(self).phase_spec()) ==> switched(old(self).phase_spec()) || (
            old(self).phase_spec() == SwitchPhase::AwaitSwitch && event matches SwitchEvent::Switched(
                Ok(_),
            )),
            // The work in progress stashed by this switch is remembered until the switch ends.
            old(self).phase_spec() != SwitchPhase::AwaitStash ==> final(self).stashed() == old(self).stashed(),
            // The switch is over exactly when it says so.
            final(self).phase_spec() == SwitchPhase::Finished <==> r.request is Finish,
            // The request and phase that follow each phase and answer.
            old(self).phase_spec() == SwitchPhase::Start ==> (r.request is GetToplevel && r.say is None
                && final(self).phase_spec() == SwitchPhase::AwaitTop),
            old(self).phase_spec() == SwitchPhase::AwaitTop ==> (event matches SwitchEvent::Toplevel(
                Ok(_),
            ) ==> r.say is None && (old(self).creates() ==> (r.request matches SwitchRequest::BranchExists {
                full,
            } && full@ == local_full_spec(created_name(old(self).kind())) && final(self).phase_spec()
                == SwitchPhase::AwaitExists)) && (!old(self).creates() ==> (r.request is ListWorktrees
                && final(self).phase_spec() == SwitchPhase::AwaitWorktrees))),
            old(self).phase_spec() == SwitchPhase::AwaitExists ==> (event == SwitchEvent::Exists(false)
                ==> (r.request matches SwitchRequest::CheckRefFormat { args } && string_views(args@)
                == seq!["check-ref-format"@, "--branch"@, created_name(old(self).kind())]
                && final(self).phase_spec() == SwitchPhase::AwaitValid)),
            old(self).phase_spec() == SwitchPhase::AwaitValid ==> (event == SwitchEvent::Valid(true)
                ==> (r.request is ListWorktrees && final(self).phase_spec()
                == SwitchPhase::AwaitWorktrees)),
            old(self).phase_spec() == SwitchPhase::AwaitWorktrees ==> (event matches SwitchEvent::Worktrees {
                top,
                worktrees,
            } ==> ((exists|i: int| blocks(located_views(worktrees@), top@, old(self).target_spec(), i))
                ==> r.request matches SwitchRequest::Finish(Err(SwitchErr::BranchInUse { .. })))
                && ((forall|i: int| !blocks(located_views(worktrees@), top@, old(self).target_spec(), i))
                ==> (r.request is OpenRepo && final(self).phase_spec() == SwitchPhase::AwaitRepo))),
            old(self).phase_spec() == SwitchPhase::AwaitRepo ==> (event matches SwitchEvent::Repo(Err(_))
                ==> r.request matches SwitchRequest::Finish(Err(SwitchErr::OpenRepoError(_)))),
            old(self).phase_spec() == SwitchPhase::AwaitRepo ==> (event matches SwitchEvent::Repo(Ok(_))
                ==> ((old(self).kind() is CreateNext ==> (old(self).current_spec() matches Some(
                BranchOrCommit::Branch(b),
            ) ==> (r.request matches SwitchRequest::LinkRefsExist { prev_ref, next_ref } && prev_ref@
                == pipe_prev_spec(created_name(old(self).kind())) && next_ref@ == pipe_next_spec(
                b@.name,
            ) && final(self).phase_spec() == SwitchPhase::AwaitLinkRefs))) && (old(self).kind() is WithStash
                ==> (r.request is CreateStash && final(self).phase_spec() == SwitchPhase::AwaitStash)) && (
            !(old(self).kind() is WithStash) && !(old(self).kind() is CreateNext
                && (old(self).current_spec() matches Some(BranchOrCommit::Branch(_)))) ==> (
            r.request is Checkout && final(self).phase_spec() == SwitchPhase::AwaitSwitch && (
            r.say matches Some(m) && m@ == "Retaining any local changes."@))))),
            old(self).phase_spec() == SwitchPhase::AwaitLinkRefs ==> (event matches SwitchEvent::LinkRefs {
                prev_exists,
                next_exists,
            } ==> (old(self).current_spec() matches Some(BranchOrCommit::Branch(b)) ==> (((b@
                == old(self).target_spec()->0 || prev_exists || next_exists) ==> r.request matches SwitchRequest::Finish(
                Err(SwitchErr::LinkFailure(_)),
            )) && (!(b@ == old(self).target_spec()->0 || prev_exists || next_exists) ==> (
            r.request is Checkout && final(self).phase_spec() == SwitchPhase::AwaitSwitch))))),
            old(self).phase_spec() == SwitchPhase::AwaitStash ==> (final(self).phase_spec()
                == SwitchPhase::AwaitStashRecorded && (event matches SwitchEvent::Stash(None) ==> (
            r.request matches SwitchRequest::Git { args } && string_views(args@) == seq![
                "update-ref"@,
                "-d"@,
                wip_ref_spec(old(self).current_spec()->0),
            ] && final(self).stashed() is None))),
            old(self).phase_spec() == SwitchPhase::AwaitStashRecorded ==> (r.request is Checkout
                && final(self).phase_spec() == SwitchPhase::AwaitSwitch && (old(self).stashed() matches Some(
                w,
            ) ==> (r.say matches Some(m) && m@ == "Stashed WIP changes to "@ + w)) && (old(self).stashed() is None
                ==> (r.say matches Some(m) && m@ == "No changes to stash"@))),
            old(self).phase_spec() == SwitchPhase::AwaitSwitch ==> (event matches SwitchEvent::Switched(Ok(_))
                ==> ((r.say matches Some(m) && m@ == "Switched to "@ + old(self).branchy_spec()) && (
            old(self).kind() matches SwitchType::WithStash(t) ==> (r.request matches SwitchRequest::ResolveTarget {
                target,
            } && target.same_as(t) && final(self).phase_spec()
                == SwitchPhase::AwaitResolve)) && (!(old(self).kind() is WithStash) ==> (
            (old(self).creates() && (old(self).current_spec() matches Some(BranchOrCommit::Branch(_))))
                ==> (r.request is Git && final(self).phase_spec() == SwitchPhase::AwaitTargetSet))) && (
            !(old(self).kind() is WithStash) ==> (!(old(self).creates() && (old(self).current_spec() matches Some(
                BranchOrCommit::Branch(_),
            ))) ==> r.request == SwitchRequest::Finish(Ok(())))))),
            old(self).phase_spec() == SwitchPhase::AwaitResolve ==> (event matches SwitchEvent::Resolved(res)
                ==> (old(self).kind() matches SwitchType::WithStash(t) ==> match res {
                Err(_) => r.request matches SwitchRequest::FindCommit { spec } && spec@ == branchy_longest(t)
                    && final(self).phase_spec() == SwitchPhase::AwaitCommit,
                Ok(BranchyName::UnresolvedName(n)) => r.request matches SwitchRequest::FindCommit { spec }
                    && spec@ == n@ && final(self).phase_spec() == SwitchPhase::AwaitCommit,
                Ok(BranchyName::LocalBranch(l)) => r.request matches SwitchRequest::EvalRef { full } && full@
                    == "refs/branch-wip/"@ + l@.name && final(self).phase_spec() == SwitchPhase::AwaitWipEval,
                Ok(BranchyName::RefName(n)) => match crate::git::parse_branch_name_spec(n.longest_spec()) {
                    Some((_, _, name)) => r.request matches SwitchRequest::EvalRef { full } && full@
                        == "refs/branch-wip/"@ + name && final(self).phase_spec() == SwitchPhase::AwaitWipEval,
                    None => r.request matches SwitchRequest::FindCommit { spec } && spec@ == n.longest_spec()
                        && final(self).phase_spec() == SwitchPhase::AwaitCommit,
                },
            })),
            old(self).phase_spec() == SwitchPhase::AwaitCommit ==> (match event {
                SwitchEvent::CommitFound(Ok(c)) => r.request matches SwitchRequest::EvalRef { full } && full@
                    == "refs/commits-wip/"@ + c.sha@ && final(self).phase_spec() == SwitchPhase::AwaitWipEval,
                SwitchEvent::CommitFound(Err(CommitErr::NoCommit { .. })) => r.request == SwitchRequest::Finish(
                    Ok(()),
                ),
                SwitchEvent::CommitFound(Err(CommitErr::GitError(e))) => r.request == SwitchRequest::Finish(
                    Err(SwitchErr::GitError(e)),
                ),
                _ => true,
            }),
            old(self).phase_spec() == SwitchPhase::AwaitWipEval ==> (event matches SwitchEvent::Evaluated(
                Err(_),
            ) ==> (r.request == SwitchRequest::Finish(Ok(())) && (r.say matches Some(m) && m@
                == "No WIP changes for "@ + old(self).branchy_spec() + " to restore"@))),
            old(self).phase_spec() == SwitchPhase::AwaitWipEval ==> (event matches SwitchEvent::Evaluated(
                Ok(_),
            ) ==> final(self).phase_spec() == SwitchPhase::AwaitApplied),
            old(self).phase_spec() == SwitchPhase::AwaitApplied ==> (r.request matches SwitchRequest::Git {
                args,
            } && string_views(args@) == seq!["update-ref"@, "-d"@, wip_ref_spec(old(self).landed_spec()->0)]
                && final(self).phase_spec() == SwitchPhase::AwaitWipDeleted),
            old(self).phase_spec() == SwitchPhase::AwaitWipDeleted ==> (r.request == SwitchRequest::Finish(
                Ok(()),
            ) && (r.say matches Some(m) && m@ == "Applied WIP changes for "@ + old(self).branchy_spec())),
            old(self).phase_spec() == SwitchPhase::AwaitTargetSet ==> (old(self).links() ==> (
            old(self).current_spec() matches Some(BranchOrCommit::Branch(b)) ==> (r.request matches SwitchRequest::Link {
                prev,
                next,
            } && prev@ == b@ && next@ == old(self).target_spec()->0 && final(self).phase_spec()
                == SwitchPhase::AwaitLink))) && (!old(self).links() ==> r.request == SwitchRequest::Finish(
                Ok(()),
            )),
            old(self).phase_spec() == SwitchPhase::AwaitLink ==> (event matches SwitchEvent::Linked(l)
                ==> r.request == SwitchRequest::Finish(l)),
    {
        match event {
            SwitchEvent::Begin => {
                self.phase = SwitchPhase::AwaitTop;
                SwitchAction { say: None, request: SwitchRequest::GetToplevel }
            },
            SwitchEvent::Toplevel(top) => {
                if let Err(e) = top {
                    return self.finish(None, Err(SwitchErr::GitError(e)));
                }
                let create_target = match &self.switch_type {
                    SwitchType::Create(t) | SwitchType::CreateNext(t) => Some(t.duplicate()),
                    _ => None,
                };
                match create_target {
                    Some(t) => {
                        let full = t.full();
                        self.target = Some(t);
                        self.phase = SwitchPhase::AwaitExists;
                        SwitchAction { say: None, request: SwitchRequest::BranchExists { full } }
                    },
                    None => {
                        self.target = match &self.switch_type {
                            SwitchType::PlainSwitch(BranchyName::LocalBranch(b))
                            | SwitchType::WithStash(BranchyName::LocalBranch(b)) => Some(b.duplicate()),
                            _ => None,
                        };
                        self.list_worktrees()
                    },
                }
            },
            SwitchEvent::Exists(exists) => {
                if exists {
                    return self.finish(None, Err(SwitchErr::AlreadyExists));
                }
                let args = match &self.target {
                    Some(t) => t.is_valid(),
                    None => Vec::new(),
                };
                self.phase = SwitchPhase::AwaitValid;
                SwitchAction { say: None, request: SwitchRequest::CheckRefFormat { args } }
            },
            SwitchEvent::Valid(valid) => {
                let t = match &self.target {
                    Some(t) => t.duplicate(),
                    None => LocalBranchName::new(String::new(), None),
                };
                match check_create_target(t, false, valid) {
                    Err(e) => self.finish(None, Err(e)),
                    Ok(_) => self.list_worktrees(),
                }
            },
            SwitchEvent::Worktrees { top, worktrees } => {
                let found = match &self.target {
                    Some(t) => check_switch_branch(top.as_str(), worktrees, Some(t)),
                    None => check_switch_branch(top.as_str(), worktrees, None),
                };
                match found {
                    Err(e) => self.finish(None, Err(e)),
                    Ok(wt) => {
                        self.current = Some(BranchOrCommit::from(wt.state));
                        self.phase = SwitchPhase::AwaitRepo;
                        SwitchAction { say: None, request: SwitchRequest::OpenRepo }
                    },
                }
            },
            SwitchEvent::Repo(opened) => match opened {
                Err(err) => {
                    let message = err.message();
                    self.finish(Some(message), Err(SwitchErr::OpenRepoError(err)))
                },
                Ok(()) => self.after_repo(),
            },
            SwitchEvent::LinkRefs { prev_exists, next_exists } => {
                let checked = match (&self.switch_type, &self.current) {
                    (SwitchType::CreateNext(target), Some(BranchOrCommit::Branch(old_branch))) => {
                        match check_link(old_branch, target, prev_exists, next_exists) {
                            Ok(()) => Ok(()),
                            Err(f) => Err(SwitchErr::from_link_failure(f)),
                        }
                    },
                    _ => Ok(()),
                };
                match checked {
                    Err(e) => self.finish(None, Err(e)),
                    Ok(()) => self.stash_or_keep(),
                }
            },
            SwitchEvent::Stash(stash) => {
                let (new_stash, args) = match &self.current {
                    Some(current) => create_wip_stash(current, stash),
                    None => (None, Vec::new()),
                };
                self.new_stash = new_stash;
                self.phase = SwitchPhase::AwaitStashRecorded;
                SwitchAction { say: None, request: SwitchRequest::Git { args } }
            },
            SwitchEvent::GitDone => {
                match self.phase {
                    SwitchPhase::AwaitStashRecorded => {
                        let say = match &self.new_stash {
                            Some(current_ref) => {
                                let mut m = String::from_str("Stashed WIP changes to ");
                                m.append(current_ref.full().as_str());
                                m
                            },
                            None => String::from_str("No changes to stash"),
                        };
                        self.checkout(Some(say))
                    },
                    SwitchPhase::AwaitStashDropped => self.finish(None, Err(SwitchErr::NotFound)),
                    SwitchPhase::AwaitApplied => {
                        let mut args: Vec<String> = Vec::new();
                        std::mem::swap(&mut args, &mut self.pending_delete);
                        self.phase = SwitchPhase::AwaitWipDeleted;
                        SwitchAction { say: None, request: SwitchRequest::Git { args } }
                    },
                    SwitchPhase::AwaitWipDeleted => {
                        let mut m = String::from_str("Applied WIP changes for ");
                        m.append(self.branchy.as_str());
                        self.wrap_up(Some(m))
                    },
                    _ => {
                        // Only the target setting is left: link the branches when asked.
                        let link = match (&self.target, &self.current) {
                            (Some(target), Some(BranchOrCommit::Branch(old_branch))) => if self.link {
                                Some((old_branch.duplicate(), target.duplicate()))
                            } else {
                                None
                            },
                            _ => None,
                        };
                        match link {
                            Some((prev, next)) => {
                                self.phase = SwitchPhase::AwaitLink;
                                SwitchAction { say: None, request: SwitchRequest::Link { prev, next } }
                            },
                            None => self.finish(None, Ok(())),
                        }
                    },
                }
            },
            SwitchEvent::Switched(result) => {
                if let Err(_) = result {
                    return match &self.new_stash {
                        Some(current_ref) => {
                            let args = current_ref.delete();
                            self.phase = SwitchPhase::AwaitStashDropped;
                            SwitchAction { say: None, request: SwitchRequest::Git { args } }
                        },
                        None => self.finish(None, Err(SwitchErr::NotFound)),
                    };
                }
                let mut say = String::from_str("Switched to ");
                say.append(self.branchy.as_str());
                if let SwitchType::WithStash(target) = &self.switch_type {
                    let target = target.duplicate();
                    self.phase = SwitchPhase::AwaitResolve;
                    return SwitchAction { say: Some(say), request: SwitchRequest::ResolveTarget { target } };
                }
                self.wrap_up(Some(say))
            },
            SwitchEvent::Resolved(resolved) => {
                let longest = match &self.switch_type {
                    SwitchType::WithStash(target) => target.get_longest(),
                    _ => String::new(),
                };
                match determine_switch_target(resolved, longest.as_str()) {
                    TargetLookup::Found(landed) => self.restore(landed),
                    TargetLookup::FindCommit(spec) => {
                        self.phase = SwitchPhase::AwaitCommit;
                        SwitchAction { say: None, request: SwitchRequest::FindCommit { spec } }
                    },
                }
            },
            SwitchEvent::CommitFound(found) => match found {
                Ok(commit) => self.restore(BranchOrCommit::Commit(commit)),
                // A name that is neither a branch nor a commit is taken for a remote branch
                // that the switch created locally: there is nothing to restore.
                Err(CommitErr::NoCommit { .. }) => self.wrap_up(None),
                Err(CommitErr::GitError(e)) => self.finish(None, Err(SwitchErr::GitError(e))),
            },
            SwitchEvent::Evaluated(evaluated) => {
                let landed = match &self.landed {
                    Some(l) => l.duplicate(),
                    None => BranchOrCommit::Commit(Commit { sha: String::new() }),
                };
                match apply_wip_stash(&landed, evaluated) {
                    None => {
                        let mut m = String::from_str("No WIP changes for ");
                        m.append(self.branchy.as_str());
                        m.append(" to restore");
                        self.wrap_up(Some(m))
                    },
                    Some((apply, delete)) => {
                        self.pending_delete = delete;
                        self.phase = SwitchPhase::AwaitApplied;
                        SwitchAction { say: None, request: SwitchRequest::Git { args: apply } }
                    },
                }
            },
            SwitchEvent::Linked(linked) => self.finish(None, linked),
        }
    }

    /// Ask for the stash of the branch or commit landed on.
    fn restore(&mut self, landed: BranchOrCommit) -> (r: SwitchAction)
        requires
            old(self).phase != SwitchPhase::Start,
            old(self).phase != SwitchPhase::AwaitTop,
            old(self).phase != SwitchPhase::Finished,
            old(self).well_formed(),
            old(self).current is Some,
            old(self).switch_type is WithStash,
        ensures
            final(self).branchy == old(self).branchy,
            final(self).well_formed(),
            final(self).switch_type == old(self).switch_type,
            final(self).new_stash == old(self).new_stash,
            final(self).current == old(self).current,
            final(self).phase == SwitchPhase::AwaitWipEval,
            final(self).landed == Some(landed),
            final(self).target == old(self).target,
            final(self).link == old(self).link,
            r.say is None,
            r.request matches SwitchRequest::EvalRef { full } && full@ == wip_ref_spec(landed),
    {
        let full = WipReference::from(&landed).full();
        self.landed = Some(landed);
        self.phase = SwitchPhase::AwaitWipEval;
        SwitchAction { say: None, request: SwitchRequest::EvalRef { full } }
    }
}

} // verus!
