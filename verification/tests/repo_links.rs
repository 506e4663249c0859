use oaf::branch::{link_plan, relink_result, shortest_name, shorthand_of, unlink_branch_planned, SiblingBranch};
use oaf::repo::revno_from_count;
use oaf::commands::{walk_step, Merge, NextOutcome};
use oaf::commit::ExtantRefName;
use oaf::git::BranchName;
use oaf::worktree::{EntryLocationStatus, UnmergedState};
use git2::{Repository, Signature};
use oaf::branch::{advance, find_shortest, link_branches, unlink_branch, LinkFailure, PipeNext, PipePrev};
use oaf::commands::{DisconnectBranch, NextBranch, Pipeline};
use oaf::git::{AltFormStatus, BranchyName, LocalBranchName, RefName, ReferenceSpec};
use oaf::repo::{calc_revno, get_local_current, resolve_symbolic_reference, OpenRepoError, RefErr};
use tempfile::TempDir;

fn blank_repo() -> (TempDir, Repository) {
    let dir = TempDir::new().unwrap();
    let repo = Repository::init(dir.path()).unwrap();
    (dir, repo)
}

fn repo_with_commit() -> (TempDir, Repository, String) {
    let (dir, repo) = blank_repo();
    let sha = {
        let sig = Signature::now("J. Random Hacker", "jrandom@example.com").unwrap();
        let tree_id = repo.index().unwrap().write_tree().unwrap();
        let tree = repo.find_tree(tree_id).unwrap();
        repo.commit(Some("HEAD"), &sig, &sig, "initial commit", &tree, &[]).unwrap().to_string()
    };
    (dir, repo, sha)
}

fn branch(name: &str) -> LocalBranchName {
    LocalBranchName::from(name.to_string())
}

fn has_next(repo: &Repository, name: &str) -> bool {
    resolve_symbolic_reference(repo, &PipeNext { name: branch(name) }).is_ok()
}

fn has_prev(repo: &Repository, name: &str) -> bool {
    resolve_symbolic_reference(repo, &PipePrev { name: branch(name) }).is_ok()
}

#[test]
fn linking_records_both_directions() {
    let (_dir, repo) = blank_repo();
    assert!(link_branches(&repo, &branch("foo"), &branch("bar")).is_ok());
    assert_eq!(
        resolve_symbolic_reference(&repo, &PipeNext { name: branch("foo") }).unwrap(),
        "refs/heads/bar"
    );
    assert_eq!(
        resolve_symbolic_reference(&repo, &PipePrev { name: branch("bar") }).unwrap(),
        "refs/heads/foo"
    );
    assert!(matches!(
        link_branches(&repo, &branch("foo"), &branch("bar")),
        Err(LinkFailure::PrevReferenceExists)
    ));
    assert!(matches!(
        link_branches(&repo, &branch("foo"), &branch("baz")),
        Err(LinkFailure::NextReferenceExists)
    ));
    assert!(matches!(
        link_branches(&repo, &branch("qux"), &branch("qux")),
        Err(LinkFailure::SameReference)
    ));
    assert!(matches!(
        resolve_symbolic_reference(&repo, &PipeNext { name: branch("bar") }),
        Err(RefErr::NotFound(_))
    ));
}

#[test]
fn advancing_along_a_sequence() {
    let (_dir, repo) = blank_repo();
    assert!(link_branches(&repo, &branch("foo"), &branch("bar")).is_ok());
    let next = advance::<PipeNext>(&repo, branch("foo")).unwrap().unwrap();
    assert_eq!(next.branch_name(), "bar");
    let prev = advance::<PipePrev>(&repo, branch("bar")).unwrap().unwrap();
    assert_eq!(prev.branch_name(), "foo");
    assert!(advance::<PipeNext>(&repo, branch("bar")).unwrap().is_none());
}

fn find_sibling<'repo, T: ReferenceSpec>(
    sibling: T,
    repo: &'repo Repository,
) -> Result<git2::Reference<'repo>, git2::Error> {
    repo.find_reference(&sibling.full())
}

fn make_two_pipeline(repo: &Repository) -> (LocalBranchName, LocalBranchName) {
    let foo = branch("foo");
    let bar = branch("bar");
    link_branches(repo, &foo, &bar).ok().unwrap();
    (foo, bar)
}

fn make_three_pipeline(repo: &Repository) -> (LocalBranchName, LocalBranchName, LocalBranchName) {
    let (foo, bar) = make_two_pipeline(repo);
    let baz = branch("baz");
    link_branches(repo, &bar, &baz).ok().unwrap();
    (foo, bar, baz)
}

fn next_of(name: &LocalBranchName) -> PipeNext {
    PipeNext { name: name.duplicate() }
}

fn prev_of(name: &LocalBranchName) -> PipePrev {
    PipePrev { name: name.duplicate() }
}

#[test]
fn unlink_two_first() {
    let (_dir, repo) = blank_repo();
    let (foo, bar) = make_two_pipeline(&repo);
    unlink_branch(&repo, &foo).unwrap();
    assert!(find_sibling(next_of(&foo), &repo).is_err());
    assert!(find_sibling(prev_of(&foo), &repo).is_err());
    assert!(find_sibling(next_of(&bar), &repo).is_err());
    assert!(find_sibling(prev_of(&bar), &repo).is_err());
}

#[test]
fn unlink_two_last() {
    let (_dir, repo) = blank_repo();
    let (foo, bar) = make_two_pipeline(&repo);
    unlink_branch(&repo, &bar).unwrap();
    assert!(find_sibling(next_of(&foo), &repo).is_err());
    assert!(find_sibling(prev_of(&foo), &repo).is_err());
    assert!(find_sibling(next_of(&bar), &repo).is_err());
    assert!(find_sibling(prev_of(&bar), &repo).is_err());
}

#[test]
fn unlink_three_first() {
    let (_dir, repo) = blank_repo();
    let (foo, bar, baz) = make_three_pipeline(&repo);
    unlink_branch(&repo, &foo).unwrap();
    assert!(find_sibling(next_of(&foo), &repo).is_err());
    assert!(find_sibling(prev_of(&foo), &repo).is_err());
    assert!(find_sibling(next_of(&bar), &repo).is_ok());
    assert!(find_sibling(prev_of(&bar), &repo).is_err());
    assert!(find_sibling(next_of(&baz), &repo).is_err());
    assert!(find_sibling(prev_of(&baz), &repo).is_ok());
}

#[test]
fn unlink_three_last() {
    let (_dir, repo) = blank_repo();
    let (foo, bar, baz) = make_three_pipeline(&repo);
    unlink_branch(&repo, &baz).unwrap();
    assert!(find_sibling(next_of(&foo), &repo).is_ok());
    assert!(find_sibling(prev_of(&foo), &repo).is_err());
    assert!(find_sibling(next_of(&bar), &repo).is_err());
    assert!(find_sibling(prev_of(&bar), &repo).is_ok());
    assert!(find_sibling(next_of(&baz), &repo).is_err());
    assert!(find_sibling(prev_of(&baz), &repo).is_err());
}

#[test]
fn unlink_three_middle() {
    let (_dir, repo) = blank_repo();
    let (foo, bar, baz) = make_three_pipeline(&repo);
    unlink_branch(&repo, &bar).unwrap();
    assert!(find_sibling(next_of(&bar), &repo).is_err());
    assert!(find_sibling(prev_of(&bar), &repo).is_err());
    let foo_next = resolve_symbolic_reference(&repo, &next_of(&foo)).unwrap();
    assert!(foo_next == baz.full());
    let baz_prev = resolve_symbolic_reference(&repo, &prev_of(&baz)).unwrap();
    assert!(baz_prev == foo.full());
}

#[test]
fn current_branch_and_names() {
    let (_dir, repo, sha) = repo_with_commit();
    let head = repo.head().unwrap().shorthand().unwrap().to_string();
    assert_eq!(get_local_current(&repo).unwrap().branch_name(), head);
    assert_eq!(find_shortest(&branch(&head), &repo), head);
    assert_eq!(find_shortest(&branch("missing"), &repo), "refs/heads/missing");
    let any = RefName::from_any(head.clone(), &repo).unwrap();
    assert_eq!(any.get_longest(), format!("refs/heads/{}", head));
    assert!(matches!(any, RefName::Long { short: AltFormStatus::Original(_), .. }));
    let found = RefName::from_long(format!("refs/heads/{}", head)).find_shorthand(&repo);
    assert_eq!(found.get_shortest(), head);
    let resolved = BranchyName::UnresolvedName(head.clone()).resolve(&repo).unwrap();
    assert!(matches!(resolved, BranchyName::LocalBranch(ref b) if b.branch_name() == head));
    let reference = repo.find_reference(&format!("refs/heads/{}", head)).unwrap();
    assert_eq!(LocalBranchName::try_from_reference(&reference).ok().unwrap().branch_name(), head);
    assert_eq!(calc_revno(&repo, &sha).unwrap(), 1);
}

#[test]
fn next_branch_command() {
    let (_dir, repo, sha) = repo_with_commit();
    let commit = repo.find_commit(git2::Oid::from_str(&sha).unwrap()).unwrap();
    repo.branch("other", &commit, false).unwrap();
    let none = NextBranch { next: None }.run(&repo);
    assert_eq!((none.code, none.err.clone()), (0, vec!["No next branch".to_string()]));
    let missing = NextBranch { next: Some("missing".into()) }.run(&repo);
    assert_eq!((missing.code, missing.err.clone()), (1, vec!["missing does not exist".to_string()]));
    let set = NextBranch { next: Some("other".into()) }.run(&repo);
    assert_eq!(set.code, 0);
    let shown = NextBranch { next: None }.run(&repo);
    assert_eq!((shown.code, shown.out.clone()), (0, vec!["other".to_string()]));
}

#[test]
fn errors_of_libgit2() {
    let dir = TempDir::new().unwrap();
    let err = Repository::open(dir.path()).err().unwrap();
    let open_err = OpenRepoError::from_error(err);
    assert!(matches!(open_err, OpenRepoError::NotFound(_)));
    assert_eq!(open_err.message(), "Not in a Git repository.");
    let (_dir, repo) = blank_repo();
    let err = repo.find_reference("refs/heads/none").err().unwrap();
    assert!(matches!(RefErr::from_error(err), RefErr::NotFound(_)));
    let err = git2::Error::from_str("other");
    assert!(matches!(RefErr::from_error(err), RefErr::Other(_)));
}

#[test]
fn pipeline_lists_the_sequence_around_the_current_branch() {
    let (_dir, repo) = blank_repo();
    assert!(link_branches(&repo, &branch("a"), &branch("b")).is_ok());
    assert!(link_branches(&repo, &branch("b"), &branch("c")).is_ok());
    repo.set_head("refs/heads/b").unwrap();
    let report = Pipeline {}.run(&repo);
    assert_eq!(report.code, 0);
    assert_eq!(report.out, vec!["  a".to_string(), "* b".to_string(), "  c".to_string()]);
    assert!(report.err.is_empty());
}

#[test]
fn pipeline_of_a_lone_branch() {
    let (_dir, repo) = blank_repo();
    repo.set_head("refs/heads/solo").unwrap();
    let report = Pipeline {}.run(&repo);
    assert_eq!(report.code, 0);
    assert_eq!(report.out, vec!["* solo".to_string()]);
}

#[test]
fn disconnecting_a_branch_and_a_broken_one() {
    let (_dir, repo) = blank_repo();
    assert!(link_branches(&repo, &branch("a"), &branch("b")).is_ok());
    let report = DisconnectBranch { name: "a".to_string() }.run(&repo);
    assert_eq!(report.code, 0);
    assert!(report.out.is_empty());
    assert!(!has_next(&repo, "a"));
    assert!(!has_prev(&repo, "b"));
    let report = DisconnectBranch { name: "unlinked".to_string() }.run(&repo);
    assert_eq!(report.code, 0);
    repo.reference_symbolic("refs/pipe-next/odd", "refs/tags/v1", true, "link to a tag").unwrap();
    let report = DisconnectBranch { name: "odd".to_string() }.run(&repo);
    assert_eq!(report.code, 1);
    assert_eq!(report.out, vec!["No such branch.".to_string()]);
}

#[test]
fn pipeline_shows_what_it_found_before_a_broken_link() {
    let (_dir, repo) = blank_repo();
    assert!(link_branches(&repo, &branch("a"), &branch("b")).is_ok());
    repo.reference_symbolic("refs/pipe-next/b", "refs/tags/v1", true, "link to a tag").unwrap();
    repo.set_head("refs/heads/a").unwrap();
    let report = Pipeline {}.run(&repo);
    assert_eq!(report.code, 1);
    assert_eq!(report.out, vec!["* a".to_string(), "  b".to_string()]);
    assert_eq!(report.err, vec!["Error!".to_string()]);
}

#[test]
fn next_branch_refuses_a_tag() {
    let (_dir, repo, sha) = repo_with_commit();
    let oid = git2::Oid::from_str(&sha).unwrap();
    repo.reference("refs/tags/v1", oid, true, "tag").unwrap();
    let report = NextBranch { next: Some("v1".to_string()) }.run(&repo);
    assert_eq!(report.code, 1);
    assert_eq!(report.err, vec!["Not a local branch: v1".to_string()]);
}

#[test]
fn insert_next() {
    let (_dir, repo) = blank_repo();
    let foo = branch("foo");
    let bar = branch("bar");
    link_branches(&repo, &foo, &bar).ok().unwrap();
    assert!(find_sibling(next_of(&foo), &repo).is_ok());
    assert!(find_sibling(prev_of(&foo), &repo).is_err());
    assert!(find_sibling(prev_of(&bar), &repo).is_ok());
    assert!(find_sibling(next_of(&bar), &repo).is_err());
}

#[test]
fn insert_prev() {
    let (_dir, repo) = blank_repo();
    let foo = branch("foo");
    let bar = branch("bar");
    link_branches(&repo, &bar, &foo).ok().unwrap();
    assert!(find_sibling(prev_of(&foo), &repo).is_ok());
    assert!(find_sibling(next_of(&foo), &repo).is_err());
    assert!(find_sibling(next_of(&bar), &repo).is_ok());
    assert!(find_sibling(prev_of(&bar), &repo).is_err());
}

#[test]
fn revno_refuses_text_that_is_no_object_id() {
    let (_dir, repo, _sha) = repo_with_commit();
    assert!(calc_revno(&repo, "").is_err());
    assert!(calc_revno(&repo, "not-hex").is_err());
    assert!(calc_revno(&repo, &"a".repeat(41)).is_err());
}

#[test]
fn sibling_errors_are_described() {
    assert_eq!(PipeNext::describe(RefErr::NotBranch), "Next entry is not a branch.");
    assert_eq!(PipePrev::describe(RefErr::NotUtf8), "Previous entry is not valid utf-8.");
    let err = git2::Error::from_str("gone");
    assert_eq!(PipePrev::describe(RefErr::NotFound(err)), "No previous branch.");
    assert!(matches!(PipeNext::wrap(RefErr::NotBranch).0, RefErr::NotBranch));
    assert!(matches!(PipePrev::wrap(RefErr::NotUtf8).0, RefErr::NotUtf8));
}

#[test]
fn parsing_through_from_str() {
    let local: BranchName = "refs/heads/topic".parse().ok().unwrap();
    assert!(matches!(local, BranchName::Local(ref b) if b.branch_name() == "topic"));
    assert!("refs/tags/v1".parse::<BranchName>().is_err());
    assert!(matches!("M".parse::<EntryLocationStatus>(), Ok(EntryLocationStatus::Modified)));
    assert!("MM".parse::<EntryLocationStatus>().is_err());
    assert!(matches!("UU".parse::<UnmergedState>(), Ok(UnmergedState::BothModified)));
    assert!("XY".parse::<UnmergedState>().is_err());
}

#[test]
fn the_link_plan_names_both_references() {
    let plan = link_plan(&branch("foo"), &branch("bar"));
    assert_eq!(
        plan,
        vec![
            ("refs/pipe-next/foo".to_string(), "refs/heads/bar".to_string()),
            ("refs/pipe-prev/bar".to_string(), "refs/heads/foo".to_string()),
        ]
    );
}

#[test]
fn next_branch_links_from_the_current_branch() {
    let (_dir, repo, sha) = repo_with_commit();
    let commit = repo.find_commit(git2::Oid::from_str(&sha).unwrap()).unwrap();
    repo.branch("other", &commit, false).unwrap();
    let (report, outcome) = NextBranch { next: Some("other".into()) }.run_from(&repo, branch("start"));
    assert_eq!(report.code, 0);
    match outcome {
        NextOutcome::Linked { next, plan, result } => {
            assert_eq!(next.branch_name(), "other");
            assert_eq!(plan[0], ("refs/pipe-next/start".to_string(), "refs/heads/other".to_string()));
            assert_eq!(plan[1], ("refs/pipe-prev/other".to_string(), "refs/heads/start".to_string()));
            assert!(result.is_ok());
        }
        _ => panic!("a link was expected"),
    }
    assert!(has_next(&repo, "start") && has_prev(&repo, "other"));
    let (report, outcome) = NextBranch { next: None }.run_from(&repo, branch("start"));
    assert_eq!((report.code, report.out), (0, vec!["other".to_string()]));
    match outcome {
        NextOutcome::Shown { followed, found } => {
            assert_eq!(followed, "refs/pipe-next/start");
            assert_eq!(found.ok(), Some("other".to_string()));
        }
        _ => panic!("the next branch was to be shown"),
    }
    let (report, outcome) = NextBranch { next: Some("missing".into()) }.run_from(&repo, branch("start"));
    assert_eq!(report.code, 1);
    assert!(matches!(outcome, NextOutcome::Stopped));
}

#[test]
fn pipeline_from_a_given_branch() {
    let (_dir, repo) = blank_repo();
    assert!(link_branches(&repo, &branch("a"), &branch("b")).is_ok());
    let (report, back, forward) = Pipeline::report_from(&repo, &branch("a"));
    assert_eq!((report.code, report.out), (0, vec!["* a".to_string(), "  b".to_string()]));
    assert_eq!(back.followed, vec!["refs/pipe-prev/a".to_string()]);
    assert!(back.names.is_empty() && back.complete);
    assert_eq!(forward.names, vec!["b".to_string()]);
    assert_eq!(forward.followed, vec!["refs/pipe-next/a".to_string(), "refs/pipe-next/b".to_string()]);
}

#[test]
fn walk_steps() {
    let mut names = vec!["a".to_string()];
    let next = walk_step(&mut names, Ok(Some(branch("b")))).unwrap().unwrap();
    assert_eq!(next.branch_name(), "b");
    assert_eq!(names, vec!["a".to_string(), "b".to_string()]);
    assert!(walk_step(&mut names, Ok(None)).unwrap().is_none());
    assert!(walk_step(&mut names, Err(RefErr::NotBranch)).is_err());
    assert_eq!(names.len(), 2);
}

#[test]
fn merge_remembers_only_a_successful_branch_merge() {
    let resolved = || ExtantRefName::resolve("dev", vec![("abc".to_string(), "refs/heads/dev".to_string())]);
    let args = Merge::target_setting(0, true, &branch("main"), resolved()).unwrap();
    assert_eq!(
        args,
        vec!["config", "--replace", "--local", "branch.main.oaf-target-branch", "refs/heads/dev"]
    );
    assert!(Merge::target_setting(1, true, &branch("main"), resolved()).is_none());
    assert!(Merge::target_setting(0, false, &branch("main"), resolved()).is_none());
    assert!(Merge::target_setting(0, true, &branch("main"), None).is_none());
}

#[test]
fn revision_numbers_from_counts() {
    assert_eq!(revno_from_count(0).unwrap(), 0);
    assert_eq!(revno_from_count(7).unwrap(), 7);
    assert!(revno_from_count(1usize << 31).is_err());
}

#[test]
fn shorthands_of_reference_names() {
    assert_eq!(shorthand_of("refs/heads/main"), "main");
    assert_eq!(shorthand_of("refs/tags/v1"), "v1");
    assert_eq!(shorthand_of("refs/remotes/origin/main"), "origin/main");
    assert_eq!(shorthand_of("refs/pipe-next/a"), "pipe-next/a");
    assert_eq!(shorthand_of("HEAD"), "HEAD");
    assert_eq!(shortest_name("refs/heads/x".to_string(), true), "x");
    assert_eq!(shortest_name("refs/heads/x".to_string(), false), "refs/heads/x");
}

#[test]
fn relinking_counts_only_libgit2_failures() {
    assert!(relink_result(Ok(())).is_ok());
    assert!(relink_result(Err(LinkFailure::NextReferenceExists)).is_ok());
    assert!(relink_result(Err(LinkFailure::Git2Error(git2::Error::from_str("broken")))).is_err());
}

#[test]
fn unlinking_reports_what_it_did() {
    let (_dir, repo) = blank_repo();
    let (foo, bar, baz) = make_three_pipeline(&repo);
    let (done, result) = unlink_branch_planned(&repo, &bar);
    assert!(result.is_ok());
    let done = done.unwrap();
    assert_eq!(done.followed, ("refs/pipe-prev/bar".to_string(), "refs/pipe-next/bar".to_string()));
    assert_eq!(done.prev.unwrap().branch_name(), foo.branch_name());
    assert_eq!(done.next.unwrap().branch_name(), baz.branch_name());
    assert_eq!(
        done.deleted,
        vec!["refs/pipe-prev/bar", "refs/pipe-next/bar", "refs/pipe-next/foo", "refs/pipe-prev/baz"]
    );
    assert_eq!(
        done.linked.unwrap(),
        vec![
            ("refs/pipe-next/foo".to_string(), "refs/heads/baz".to_string()),
            ("refs/pipe-prev/baz".to_string(), "refs/heads/foo".to_string()),
        ]
    );
    let (report, _, result) = DisconnectBranch { name: "foo".to_string() }.unlink(&repo);
    assert!(result.is_ok());
    assert_eq!(report.code, 0);
}
