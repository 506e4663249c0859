use oaf::commands::handle_switch;
use oaf::git::{BranchyName, GitError, LocalBranchName, ProcessOutput};
use oaf::stash::{StashSwitch, SwitchEvent, SwitchRequest};
use oaf::switch::{apply_wip_stash, create_wip_stash, BranchOrCommit, SwitchErr, SwitchType};
use oaf::worktree::{Commit, WorktreeListEntry, WorktreeState};

fn branch(name: &str) -> LocalBranchName {
    LocalBranchName::from(name.to_string())
}

fn worktrees(top: &str, on: &str) -> SwitchEvent {
    let entry = WorktreeListEntry {
        path: top.to_string(),
        state: WorktreeState::CommittedBranch { branch: branch(on), head: Commit { sha: "c0".into() } },
    };
    SwitchEvent::Worktrees { top: top.to_string(), worktrees: vec![(top.to_string(), entry)] }
}

fn git_args(request: SwitchRequest) -> Vec<String> {
    match request {
        SwitchRequest::Git { args } => args,
        SwitchRequest::Checkout { args } => args,
        SwitchRequest::CheckRefFormat { args } => args,
        _ => panic!("git call expected"),
    }
}

#[test]
fn non_existent() {
    let target = BranchyName::LocalBranch(branch("foo"));
    let mut switch = StashSwitch::new(SwitchType::WithStash(target));
    assert!(matches!(switch.step(SwitchEvent::Begin).request, SwitchRequest::GetToplevel));
    assert!(matches!(switch.step(SwitchEvent::Toplevel(Ok("/w".into()))).request, SwitchRequest::ListWorktrees));
    assert!(matches!(switch.step(worktrees("/w", "main")).request, SwitchRequest::OpenRepo));
    assert!(matches!(switch.step(SwitchEvent::Repo(Ok(()))).request, SwitchRequest::CreateStash));
    let record = switch.step(SwitchEvent::Stash(Some("abc".into())));
    assert_eq!(git_args(record.request), vec!["update-ref", "refs/branch-wip/main", "abc"]);
    let checkout = switch.step(SwitchEvent::GitDone);
    assert_eq!(checkout.say, Some("Stashed WIP changes to refs/branch-wip/main".to_string()));
    assert_eq!(git_args(checkout.request), vec!["checkout", "--force", "foo", "--"]);
    let failed = GitError::UnknownError("fatal: invalid reference: foo".into());
    let drop = switch.step(SwitchEvent::Switched(Err(failed)));
    assert_eq!(git_args(drop.request), vec!["update-ref", "-d", "refs/branch-wip/main"]);
    let end = switch.step(SwitchEvent::GitDone);
    assert!(matches!(end.request, SwitchRequest::Finish(Err(SwitchErr::NotFound))));
}

#[test]
fn switching_restores_the_stash_of_the_target() {
    let target = BranchyName::UnresolvedName("foo".into());
    let mut switch = StashSwitch::new(SwitchType::WithStash(target));
    switch.step(SwitchEvent::Begin);
    switch.step(SwitchEvent::Toplevel(Ok("/w".into())));
    switch.step(worktrees("/w", "main"));
    switch.step(SwitchEvent::Repo(Ok(())));
    let nothing = switch.step(SwitchEvent::Stash(None));
    assert_eq!(git_args(nothing.request), vec!["update-ref", "-d", "refs/branch-wip/main"]);
    let checkout = switch.step(SwitchEvent::GitDone);
    assert_eq!(checkout.say, Some("No changes to stash".to_string()));
    let resolve = switch.step(SwitchEvent::Switched(Ok(())));
    assert_eq!(resolve.say, Some("Switched to foo".to_string()));
    assert!(matches!(resolve.request, SwitchRequest::ResolveTarget { .. }));
    let eval = switch.step(SwitchEvent::Resolved(Ok(BranchyName::LocalBranch(branch("foo")))));
    match eval.request {
        SwitchRequest::EvalRef { full } => assert_eq!(full, "refs/branch-wip/foo"),
        _ => panic!("evaluation expected"),
    }
    let apply = switch.step(SwitchEvent::Evaluated(Ok("def".into())));
    assert_eq!(git_args(apply.request), vec!["stash", "apply", "def"]);
    let delete = switch.step(SwitchEvent::GitDone);
    assert_eq!(git_args(delete.request), vec!["update-ref", "-d", "refs/branch-wip/foo"]);
    let end = switch.step(SwitchEvent::GitDone);
    assert_eq!(end.say, Some("Applied WIP changes for foo".to_string()));
    assert!(matches!(end.request, SwitchRequest::Finish(Ok(()))));
}

#[test]
fn creating_a_branch_remembers_where_it_came_from() {
    let mut switch = StashSwitch::new(SwitchType::Create(branch("new")));
    switch.step(SwitchEvent::Begin);
    match switch.step(SwitchEvent::Toplevel(Ok("/w".into()))).request {
        SwitchRequest::BranchExists { full } => assert_eq!(full, "refs/heads/new"),
        _ => panic!("existence check expected"),
    }
    let check = switch.step(SwitchEvent::Exists(false));
    assert_eq!(git_args(check.request), vec!["check-ref-format", "--branch", "new"]);
    assert!(matches!(switch.step(SwitchEvent::Valid(true)).request, SwitchRequest::ListWorktrees));
    switch.step(worktrees("/w", "main"));
    let checkout = switch.step(SwitchEvent::Repo(Ok(())));
    assert_eq!(checkout.say, Some("Retaining any local changes.".to_string()));
    assert_eq!(git_args(checkout.request), vec!["checkout", "-b", "new", "--"]);
    let remember = switch.step(SwitchEvent::Switched(Ok(())));
    assert_eq!(remember.say, Some("Switched to new".to_string()));
    assert_eq!(
        git_args(remember.request),
        vec!["config", "--replace", "--local", "branch.new.oaf-target-branch", "refs/heads/main"]
    );
    assert!(matches!(switch.step(SwitchEvent::GitDone).request, SwitchRequest::Finish(Ok(()))));
}

#[test]
fn creating_an_existing_or_invalid_branch_is_refused() {
    let mut switch = StashSwitch::new(SwitchType::Create(branch("main")));
    switch.step(SwitchEvent::Begin);
    switch.step(SwitchEvent::Toplevel(Ok("/w".into())));
    let end = switch.step(SwitchEvent::Exists(true));
    assert!(matches!(end.request, SwitchRequest::Finish(Err(SwitchErr::AlreadyExists))));
    let mut switch = StashSwitch::new(SwitchType::CreateNext(branch("a..b")));
    switch.step(SwitchEvent::Begin);
    switch.step(SwitchEvent::Toplevel(Ok("/w".into())));
    switch.step(SwitchEvent::Exists(false));
    let end = switch.step(SwitchEvent::Valid(false));
    assert!(matches!(end.request, SwitchRequest::Finish(Err(SwitchErr::InvalidBranchName(_)))));
    let mut switch = StashSwitch::new(SwitchType::PlainSwitch(BranchyName::UnresolvedName("x".into())));
    switch.step(SwitchEvent::Begin);
    let end = switch.step(SwitchEvent::Toplevel(Err(GitError::NotAGitRepository)));
    assert!(matches!(end.request, SwitchRequest::Finish(Err(SwitchErr::GitError(GitError::NotAGitRepository)))));
}

#[test]
fn stash_references_for_store_and_restore() {
    let main = BranchOrCommit::Branch(branch("main"));
    let (stored, args) = create_wip_stash(&main, Some("abc".into()));
    assert!(stored.is_some());
    assert_eq!(args, vec!["update-ref", "refs/branch-wip/main", "abc"]);
    let (stored, args) = create_wip_stash(&main, None);
    assert!(stored.is_none());
    assert_eq!(args, vec!["update-ref", "-d", "refs/branch-wip/main"]);
    let (apply, delete) = apply_wip_stash(&main, Ok("abc".into())).unwrap();
    assert_eq!(apply, vec!["stash", "apply", "abc"]);
    assert_eq!(delete, vec!["update-ref", "-d", "refs/branch-wip/main"]);
    let failed = ProcessOutput { status: Some(128), stdout: vec![], stderr: "fatal".into() };
    assert!(apply_wip_stash(&main, Err(failed)).is_none());
}

#[test]
fn switch_next_create_existing() {
    let switch_type = SwitchType::CreateNext(branch("next2"));
    let mut switch = StashSwitch::new(switch_type.duplicate());
    switch.step(SwitchEvent::Begin);
    switch.step(SwitchEvent::Toplevel(Ok("/w".into())));
    switch.step(SwitchEvent::Exists(false));
    switch.step(SwitchEvent::Valid(true));
    switch.step(worktrees("/w", "main"));
    match switch.step(SwitchEvent::Repo(Ok(()))).request {
        SwitchRequest::LinkRefsExist { prev_ref, next_ref } => {
            assert_eq!(prev_ref, "refs/pipe-prev/next2");
            assert_eq!(next_ref, "refs/pipe-next/main");
        }
        _ => panic!("link check expected"),
    }
    // main already has next1 after it: nothing is switched and nothing is linked.
    let end = switch.step(SwitchEvent::LinkRefs { prev_exists: false, next_exists: true });
    let result = match end.request {
        SwitchRequest::Finish(result) => result,
        _ => panic!("the switch should end"),
    };
    assert!(matches!(result, Err(SwitchErr::LinkFailure(_))));
    let status = handle_switch(&switch_type, result);
    assert!(status.code != 0);
}

#[test]
fn a_listing_answers_when_it_holds_the_top_or_a_blocking_worktree() {
    let switch = StashSwitch::new(SwitchType::WithStash(BranchyName::LocalBranch(branch("foo"))));
    let mine = WorktreeListEntry {
        path: "/w".to_string(),
        state: WorktreeState::CommittedBranch { branch: branch("main"), head: Commit { sha: "c0".into() } },
    };
    assert!(switch.worktrees_answer("/w", &vec![("/w".to_string(), mine)]));
    assert!(!switch.worktrees_answer("/w", &vec![]));
}
