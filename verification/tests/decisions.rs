use oaf::commands::{
    assume_unchanged_files, format_tree_file, handle_switch, head_for_squash, invocation,
    pipeline_lines, to_strings, upstream_message, ArgMaker, Cat, CommitCmd, Diff, FindTargetErr,
    Ignore, IgnoreChanges, Invocation, Log, MakeArgsErr, MergeDiff, NextBranch, Pull, Push,
    PushTags, Restore, Status, Switch, TreeFile, pipeline_report,
};
use oaf::branch::LinkFailure;
use oaf::repo::RefErr;
use oaf::commit::{base_tree, CommitErr, SomethingSpec, TreeSpec};
use oaf::git::{
    get_current_branch, output_to_string, ConfigErr, GitError, LocalBranchName, ProcessOutput,
};
use oaf::switch::{
    check_create_target, check_switch_branch, determine_switch_target, git_switch, SwitchErr,
    SwitchType, TargetLookup, BranchOrCommit,
};
use oaf::text::decimal;
use oaf::worktree::{Commit, GitStatus, UpstreamInfo, WorktreeListEntry, WorktreeState};

fn output(status: i32, stdout: &str, stderr: &str) -> ProcessOutput {
    ProcessOutput { status: Some(status), stdout: stdout.as_bytes().to_vec(), stderr: stderr.to_string() }
}

#[test]
fn output_text_is_trimmed() {
    assert_eq!(output_to_string(&output(0, "  main\n", "")), "main");
    assert_eq!(output_to_string(&output(0, "\u{3000}x y\t\r\n", "")), "x y");
    let branch = get_current_branch(&output(0, "topic\n", "")).unwrap();
    assert_eq!(branch.branch_name(), "topic");
}

#[test]
fn git_errors_by_stderr() {
    assert!(matches!(
        GitError::from_stderr("fatal: not a git repository (or any parent)".into()),
        GitError::NotAGitRepository
    ));
    assert!(matches!(
        GitError::from_stderr("fatal: this operation must be run in a work tree".into()),
        GitError::NotAWorkTree
    ));
    match GitError::from_stderr("boom".into()) {
        GitError::UnknownError(s) => assert_eq!(s, "boom"),
        _ => panic!("unknown error expected"),
    }
    assert_eq!(GitError::NotAGitRepository.message(), "Not in a Git repository");
    assert_eq!(GitError::UnknownError("x".into()).message(), "Unknown Error x");
}

#[test]
fn config_errors_by_exit_code() {
    assert!(matches!(ConfigErr::from_output(output(1, "", "")), ConfigErr::SectionKeyInvalid));
    assert!(matches!(ConfigErr::from_output(output(2, "", "")), ConfigErr::SectionKeyMissing));
    assert!(matches!(ConfigErr::from_output(output(3, "", "")), ConfigErr::ConfigInvalid));
    assert!(matches!(ConfigErr::from_output(output(4, "", "")), ConfigErr::ConfigUnwritable));
    assert!(matches!(ConfigErr::from_output(output(5, "", "")), ConfigErr::UnsetMissing));
    assert!(matches!(ConfigErr::from_output(output(6, "", "")), ConfigErr::InvalidRegex));
    assert!(matches!(ConfigErr::from_output(output(7, "", "")), ConfigErr::Other(_)));
}

#[test]
fn commits_from_rev_list() {
    let found = Commit::from_rev_list("HEAD", Ok(output(0, "abc\n", ""))).unwrap();
    assert_eq!(found.sha, "abc");
    match Commit::from_rev_list("nope", Err(output(128, "", "fatal: bad revision"))) {
        Err(CommitErr::NoCommit { spec }) => assert_eq!(spec, "nope"),
        _ => panic!("NoCommit expected"),
    }
    assert!(matches!(
        Commit::from_rev_list("x", Err(output(128, "", "fatal: not a git repository"))),
        Err(CommitErr::GitError(GitError::NotAGitRepository))
    ));
    assert_eq!(
        CommitErr::NoCommit { spec: "x".into() }.message(),
        "No commit found for \"x\""
    );
}

#[test]
fn base_tree_of_head_or_empty() {
    let t = base_tree(Ok(Commit { sha: "abc".into() })).unwrap();
    assert_eq!(t.reference, "abc^{tree}");
    let e = base_tree(Err(CommitErr::NoCommit { spec: "HEAD".into() })).unwrap();
    assert_eq!(e.reference, "4b825dc642cb6eb9a060e54bf8d69288fbee4904");
    assert!(base_tree(Err(CommitErr::GitError(GitError::NotAWorkTree))).is_err());
}

#[test]
fn something_spec_from_batch_check() {
    match SomethingSpec::from_batch_check("main", Ok("abc commit 200\n".into())) {
        Ok(SomethingSpec::CommitSpec(c)) => {
            assert_eq!(c.spec, "main");
            assert_eq!(c.get_oid(), "abc");
        }
        _ => panic!("commit expected"),
    }
    match SomethingSpec::from_batch_check("main^{tree}", Ok("def tree 10\n".into())) {
        Ok(SomethingSpec::TreeSpec(t)) => assert_eq!(t.reference, "main^{tree}"),
        _ => panic!("tree expected"),
    }
    assert!(matches!(
        SomethingSpec::from_batch_check("x", Ok("x missing\n".into())),
        Err(CommitErr::NoCommit { .. })
    ));
    assert!(matches!(
        SomethingSpec::from_batch_check("x", Err("fatal: not a git repository".into())),
        Err(CommitErr::GitError(GitError::NotAGitRepository))
    ));
}

#[test]
fn decimal_numbers() {
    assert_eq!(decimal(0), "0");
    assert_eq!(decimal(7), "7");
    assert_eq!(decimal(1234567890), "1234567890");
}

#[test]
fn upstream_messages() {
    let info = |added, removed| UpstreamInfo { name: "origin/main".into(), added, removed };
    assert_eq!(upstream_message(&info(0, 0)), "Your branch is up to date with 'origin/main'.");
    assert_eq!(
        upstream_message(&info(0, 3)),
        "Your branch is behind 'origin/main' by 3 commit(s), and can be fast-forwarded."
    );
    assert_eq!(upstream_message(&info(2, 0)), "Your branch is ahead of 'origin/main' by 2 commit(s).");
    assert_eq!(
        upstream_message(&info(25, 30)),
        "Your branch and 'origin/main' have diverged,\nand have 25 and 30 different commits each, respectively.\n  (use \"oaf merge origin/main\" to merge the remote branch into yours)"
    );
}

#[test]
fn status_report_lines() {
    let text = [
        "# branch.oid abc\0",
        "# branch.head main\0",
        "# branch.upstream origin/main\0",
        "# branch.ab +0 -0\0",
        "? new.txt\0",
    ]
    .concat();
    let gs = GitStatus::new(Ok(output(0, &text, ""))).unwrap();
    let report = Status {}.report(&gs, "");
    assert_eq!(report.code, 1);
    assert_eq!(
        report.out,
        vec![
            "On branch main".to_string(),
            "Your branch is up to date with 'origin/main'.".to_string(),
            "?? new.txt".to_string(),
        ]
    );
    assert!(GitStatus::new(Err(output(128, "", "fatal: not a git repository"))).is_err());
}

#[test]
fn tree_files_and_cat() {
    assert_eq!(format_tree_file(&TreeFile::IndexFile { stage: 2, path: "a.rs" }), ":2:./a.rs");
    assert_eq!(format_tree_file(&TreeFile::CommitFile { commit: "HEAD", path: "a.rs" }), "HEAD:./a.rs");
    let args = Cat { tree: "index".into(), input: "f".into() }.make_args().unwrap();
    assert_eq!(args, vec!["show", ":0:./f"]);
    let args = Cat { tree: "v1".into(), input: "f".into() }.make_args().unwrap();
    assert_eq!(args, vec!["show", "v1:./f"]);
    assert_eq!(to_strings(&["a", "b"]), vec!["a".to_string(), "b".to_string()]);
}

#[test]
fn diff_log_pull_args() {
    let diff = Diff { source: None, target: None, myers: false, name_only: true, path: vec!["x".into()] };
    let args = diff.make_args(Some(Ok(TreeSpec { reference: "abc^{tree}".into() }))).unwrap();
    assert_eq!(args, vec!["diff", "--patience", "--name-only", "abc^{tree}", "--", "x"]);
    let diff = Diff {
        source: Some(Commit { sha: "s".into() }),
        target: Some(Commit { sha: "t".into() }),
        myers: true,
        name_only: false,
        path: vec![],
    };
    assert_eq!(diff.make_args(None).unwrap(), vec!["diff", "s", "t"]);
    let failed = Diff { source: None, target: None, myers: true, name_only: false, path: vec![] }
        .make_args(Some(Err(GitError::NotAWorkTree)));
    assert!(matches!(failed, Err(MakeArgsErr::GetTreeRefFailure(GitError::NotAWorkTree))));
    let log = Log { range: Some("a..b".into()), patch: true, include_merged: false, path: vec![] };
    assert_eq!(log.make_args().unwrap(), vec!["log", "--first-parent", "-m", "--patch", "a..b"]);
    let pull = Pull { remote: Some("origin".into()), source: None };
    assert_eq!(pull.make_args().unwrap(), vec!["pull", "--ff-only", "origin"]);
    assert_eq!(PushTags { repository: None }.make_args().unwrap(), vec!["push", "--tags"]);
}

#[test]
fn restore_and_commit_args() {
    let restore = Restore { source: None, path: vec!["f".into()] };
    let head = SomethingSpec::from_batch_check("HEAD", Ok("abc commit 1\n".into()));
    assert_eq!(restore.make_args(Some(head)).unwrap(), vec!["checkout", "HEAD", "--", "f"]);
    let restore = Restore { source: None, path: vec!["f".into()] };
    let failed = restore.make_args(Some(Err(CommitErr::NoCommit { spec: "HEAD".into() })));
    match failed {
        Err(err) => assert_eq!(err.message(), "Cannot restore: no commits in HEAD."),
        Ok(_) => panic!("error expected"),
    }
    let commit = CommitCmd { message: Some("m".into()), amend: true, skip_hooks: true, no_all: false, no_strict: false };
    assert_eq!(
        commit.make_args().unwrap(),
        vec!["commit", "--all", "--message", "m", "--amend", "--no-verify"]
    );
}

#[test]
fn merge_diff_and_push_args() {
    let md = MergeDiff { target: None, myers: false, name_only: false, path: vec![], remember: false };
    assert!(matches!(md.make_args(false, None), Err(MakeArgsErr::MergeDiffNoHead)));
    let md = MergeDiff { target: None, myers: false, name_only: false, path: vec![], remember: false };
    assert_eq!(md.make_args(true, Some(Commit { sha: "mb".into() })).unwrap(), vec!["diff", "--patience", "mb"]);
    let push = Push { force: true, repository: None };
    assert_eq!(
        push.make_args(false, false, Some(Ok(Commit { sha: "h".into() }))).unwrap(),
        vec!["push", "-u", "origin", "HEAD", "--force"]
    );
    let push = Push { force: false, repository: Some("up".into()) };
    assert_eq!(push.make_args(true, true, None).unwrap(), vec!["push", "up"]);
    let push = Push { force: false, repository: None };
    assert_eq!(
        push.make_args(false, false, Some(Err(CommitErr::NoCommit { spec: "HEAD".into() }))),
        Err("Cannot push: no commits in HEAD.".to_string())
    );
    assert_eq!(
        FindTargetErr::NoRemembered.source_message(),
        "Source not supplied and no remembered source."
    );
}

#[test]
fn switch_reports() {
    let st = Switch { branch: "foo".into(), create: false, keep: false }.switch_type();
    assert!(matches!(st, SwitchType::WithStash(_)));
    let r = handle_switch(&st, Err(SwitchErr::NotFound));
    assert_eq!((r.code, r.err.clone()), (1, vec!["Branch foo not found".to_string()]));
    let r = handle_switch(&st, Err(SwitchErr::BranchInUse { path: "/w".into() }));
    assert_eq!(r.out, vec!["Branch foo is already in use at /w".to_string()]);
    let r = handle_switch(&st, Err(SwitchErr::AlreadyExists));
    assert_eq!(r.err, vec!["Branch foo already exists".to_string()]);
    let bad = LocalBranchName::from("a..b".to_string());
    let r = handle_switch(&st, Err(SwitchErr::InvalidBranchName(bad)));
    assert_eq!(r.err, vec!["'a..b' is not a valid branch name".to_string()]);
    let r = handle_switch(&st, Ok(()));
    assert_eq!(r.code, 0);
    assert!(matches!(SwitchErr::from(CommitErr::NoCommit { spec: "x".into() }), SwitchErr::NotFound));
}

#[test]
fn create_targets_and_worktrees() {
    let b = || LocalBranchName::from("new".to_string());
    assert!(matches!(check_create_target(b(), true, true), Err(SwitchErr::AlreadyExists)));
    assert!(matches!(check_create_target(b(), false, false), Err(SwitchErr::InvalidBranchName(_))));
    assert!(check_create_target(b(), false, true).is_ok());
    let wt = |path: &str, branch: &str| {
        (
            path.to_string(),
            WorktreeListEntry {
                path: path.to_string(),
                state: WorktreeState::CommittedBranch {
                    branch: LocalBranchName::from(branch.to_string()),
                    head: Commit { sha: "c".into() },
                },
            },
        )
    };
    let list = vec![wt("/a", "main"), wt("/b", "topic")];
    let topic = LocalBranchName::from("topic".to_string());
    match check_switch_branch("/a", list, Some(&topic)) {
        Err(SwitchErr::BranchInUse { path }) => assert_eq!(path, "/b"),
        _ => panic!("in use expected"),
    }
    let list = vec![wt("/a", "main"), wt("/b", "topic")];
    let other = LocalBranchName::from("other".to_string());
    assert_eq!(check_switch_branch("/a", list, Some(&other)).unwrap().path, "/a");
}

#[test]
fn switch_targets_and_checkout() {
    match determine_switch_target(Err(oaf::repo::RefErr::NotBranch), "refs/heads/x") {
        TargetLookup::FindCommit(spec) => assert_eq!(spec, "refs/heads/x"),
        _ => panic!("lookup expected"),
    }
    let remote = oaf::git::BranchyName::RefName(oaf::git::RefName::from_long("refs/remotes/origin/dev".into()));
    match determine_switch_target(Ok(remote), "refs/remotes/origin/dev") {
        TargetLookup::Found(BranchOrCommit::Branch(b)) => assert_eq!(b.branch_name(), "dev"),
        _ => panic!("branch expected"),
    }
    assert_eq!(git_switch("dev", false, true), vec![vec!["checkout", "--force", "dev", "--"]]);
    assert_eq!(
        git_switch("dev", true, true),
        vec![vec!["reset".to_string(), "--hard".to_string()], vec!["checkout".into(), "--force".into(), "-b".into(), "dev".into(), "--".into()]]
    );
}

#[test]
fn ignore_entries_and_changes() {
    let ignore = Ignore { local: false, recurse: true, files: vec!["a/b".into(), "c".into()] };
    let (entries, warnings) = ignore.entries("/top", &vec![]);
    assert_eq!(entries.iter().map(|e| e.make_string()).collect::<Vec<_>>(), vec!["a/b", "c"]);
    assert_eq!(warnings, vec!["Warning: \"a/b\" will not be recursive because it contains a slash."]);
    let ignore = Ignore { local: false, recurse: false, files: vec!["x".into()] };
    let (entries, _) = ignore.entries("/top", &vec!["/top/sub/x".to_string()]);
    assert_eq!(entries[0].make_string(), "sub/x");
    assert_eq!(
        oaf::commands::add_ignores(entries, "old".into()),
        "old\nsub/x\n"
    );
    let changes = IgnoreChanges { files: vec!["f".into()], unset: true };
    assert_eq!(changes.make_args(), vec!["update-index", "--no-assume-unchanged", "f"]);
    assert_eq!(assume_unchanged_files("h a\nH b\nh c d\n"), vec!["a", "c d"]);
}

#[test]
fn pipelines_and_invocations() {
    let prev = vec!["b".to_string(), "a".to_string()];
    let next = vec!["d".to_string()];
    assert_eq!(pipeline_lines(&prev, "c", &next), vec!["  a", "  b", "* c", "  d"]);
    assert!(matches!(invocation("oaf"), Invocation::Oaf));
    match invocation("oaf-status") {
        Invocation::Alias(cmd) => assert_eq!(cmd, "status"),
        _ => panic!("alias expected"),
    }
    assert!(matches!(invocation("git-status"), Invocation::Unsupported));
    assert!(matches!(invocation("nothing"), Invocation::Unsupported));
    assert_eq!(
        head_for_squash(Err(CommitErr::NoCommit { spec: "HEAD".into() })),
        Err("Cannot squash commit: no commits in HEAD.".to_string())
    );
}

fn strings(items: &[&str]) -> Vec<String> {
    items.iter().map(|s| s.to_string()).collect()
}

#[test]
fn pipeline_report_outcomes() {
    let complete = pipeline_report(&strings(&["b", "a"]), true, "c", &strings(&["d"]), true);
    assert_eq!(complete.code, 0);
    assert_eq!(complete.out, strings(&["  a", "  b", "* c", "  d"]));
    assert!(complete.err.is_empty());
    let broken_back = pipeline_report(&strings(&["b"]), false, "c", &strings(&["d"]), true);
    assert_eq!(broken_back.code, 1);
    assert!(broken_back.out.is_empty());
    assert_eq!(broken_back.err, strings(&["Error!"]));
    let broken_forward = pipeline_report(&vec![], true, "c", &strings(&["d"]), false);
    assert_eq!(broken_forward.code, 1);
    assert_eq!(broken_forward.out, strings(&["* c", "  d"]));
    assert_eq!(broken_forward.err, strings(&["Error!"]));
}

#[test]
fn next_branch_reports() {
    let shown = NextBranch::show_report(&Ok("feature".to_string()));
    assert_eq!((shown.code, shown.out, shown.err), (0, strings(&["feature"]), vec![]));
    let none = NextBranch::show_report(&Err(RefErr::NotFound(git2::Error::from_str("gone"))));
    assert_eq!((none.code, none.out, none.err), (0, vec![], strings(&["No next branch"])));
    let odd = NextBranch::show_report(&Err(RefErr::NotBranch));
    assert_eq!((odd.code, odd.err), (1, strings(&["Next entry is not a branch."])));
    let missing = NextBranch::lookup_failure("topic", RefErr::NotFound(git2::Error::from_str("gone")));
    assert_eq!((missing.code, missing.out, missing.err), (1, vec![], strings(&["topic does not exist"])));
    let bad = NextBranch::lookup_failure("topic", RefErr::NotUtf8);
    assert_eq!((bad.code, bad.out, bad.err), (1, strings(&["Next entry is not valid utf-8."]), vec![]));
    let same = NextBranch::link_report(&Err(LinkFailure::SameReference));
    assert_eq!((same.code, same.err), (1, strings(&["Previous and next are the same."])));
    let linked = NextBranch::link_report(&Ok(()));
    assert_eq!((linked.code, linked.out.len(), linked.err.len()), (0, 0, 0));
}

#[test]
fn status_reports_lines_it_does_not_handle() {
    let text = ["# branch.oid abc\0", "# branch.head main\0", "x odd line\0", "? new.txt\0"].concat();
    let gs = GitStatus::new(Ok(output(0, &text, ""))).unwrap();
    assert_eq!(gs.unhandled_report(), vec!["Unhandled: x odd line".to_string()]);
    assert!(Status::formattable(&gs, ""));
    let report = Status {}.report(&gs, "");
    assert_eq!(report.err, vec!["Unhandled: x odd line".to_string()]);
    assert_eq!(report.out, vec!["On branch main".to_string(), "?? new.txt".to_string()]);
    assert!(!Status::formattable(&gs, "/rooted"));
}
