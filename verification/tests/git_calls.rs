use oaf::commands::{find_current_branch, find_target, Checkout, FakeMerge, FindTargetErr, Merge, SquashCommit, SwitchNext};
use oaf::commit::{CommitErr, CommitSpec, Commitish, ExtantRefName, Tree};
use oaf::git::{
    create_stash, delete_ref, eval_rev_spec, get_settings, get_toplevel, resolve_refname,
    set_head, set_setting, setting_exists, show_ref_match, upsert_ref, BranchName, ConfigErr,
    GitError, LocalBranchName, ProcessOutput, SettingEntry, SettingLocation, UnparsedReference,
};
use oaf::switch::{set_target, target_branch_setting};
use oaf::worktree::{list_worktree, worktree_list_readable, Commit, GitStatus, WorktreeState};

fn output(status: i32, stdout: &str, stderr: &str) -> ProcessOutput {
    ProcessOutput { status: Some(status), stdout: stdout.as_bytes().to_vec(), stderr: stderr.to_string() }
}

#[test]
fn reference_update_arguments() {
    assert_eq!(upsert_ref("refs/x", "abc"), vec!["update-ref", "refs/x", "abc"]);
    assert_eq!(delete_ref("refs/x"), vec!["update-ref", "-d", "refs/x"]);
    assert_eq!(set_head("abc"), vec!["reset", "--soft", "abc"]);
    assert_eq!(Commit { sha: "abc".into() }.set_wt_head(), vec!["reset", "--soft", "abc"]);
    assert_eq!(
        set_setting(SettingLocation::Local, "a.b", "v"),
        vec!["config", "--replace", "--local", "a.b", "v"]
    );
    assert_eq!(
        LocalBranchName::from("x".to_string()).is_valid(),
        vec!["check-ref-format", "--branch", "x"]
    );
}

#[test]
fn target_settings() {
    let main = LocalBranchName::from("main".to_string());
    let setting = target_branch_setting(&main);
    assert_eq!(setting.to_setting_string(), "branch.main.oaf-target-branch");
    assert!(setting.matches("branch.main.oaf-target-branch"));
    assert!(!setting.matches("branch.main.remote"));
    let dev = BranchName::Local(LocalBranchName::from("dev".to_string()));
    assert_eq!(
        set_target(&main, &dev),
        vec!["config", "--replace", "--local", "branch.main.oaf-target-branch", "refs/heads/dev"]
    );
}

#[test]
fn reading_command_output() {
    assert_eq!(create_stash(&output(0, "abc\n", "")), Some("abc".to_string()));
    assert_eq!(create_stash(&output(0, "\n", "")), None);
    assert_eq!(eval_rev_spec(Ok(output(0, " sha \n", ""))).unwrap(), "sha");
    assert!(eval_rev_spec(Err(output(128, "", "bad"))).is_err());
    assert_eq!(get_toplevel(Ok(output(0, "/top\n", ""))).unwrap(), "/top");
    assert!(matches!(
        get_toplevel(Err(output(128, "", "fatal: not a git repository"))),
        Err(GitError::NotAGitRepository)
    ));
    assert!(setting_exists(&Ok(output(0, "x\n", ""))));
    assert!(!setting_exists(&Err(ConfigErr::SectionKeyInvalid)));
    assert_eq!(
        get_settings(Ok(output(0, "a.b\nv\0c.d\nw\0", ""))),
        vec![
            SettingEntry::Valid { key: "a.b".into(), value: "v".into() },
            SettingEntry::Valid { key: "c.d".into(), value: "w".into() },
        ]
    );
    assert!(get_settings(Err(ConfigErr::SectionKeyInvalid)).is_empty());
    assert_eq!(
        show_ref_match(Ok(output(0, "abc refs/heads/main\ndef refs/tags/v1\n", ""))),
        vec![("abc".to_string(), "refs/heads/main".to_string()), ("def".to_string(), "refs/tags/v1".to_string())]
    );
    assert!(show_ref_match(Err(output(1, "", ""))).is_empty());
    assert_eq!(UnparsedReference { name: "x".into() }.message(), "Unhandled name type: x");
}

#[test]
fn resolving_short_names() {
    let entries = vec![
        ("s1".to_string(), "refs/remotes/origin/main".to_string()),
        ("s2".to_string(), "refs/heads/main".to_string()),
        ("s3".to_string(), "refs/heads/main".to_string()),
    ];
    assert_eq!(
        resolve_refname("main", entries.clone()),
        Some(("refs/heads/main".to_string(), "s3".to_string()))
    );
    let extant = ExtantRefName::resolve("main", entries).unwrap();
    assert!(matches!(extant.name, Ok(BranchName::Local(ref b)) if b.branch_name() == "main"));
    assert_eq!(extant.get_commit_spec(), "s3");
    let spec = CommitSpec::from_extant(extant);
    assert_eq!(spec.spec, "refs/heads/main");
    assert_eq!(spec.get_oid(), "s3");
    assert!(resolve_refname("none", vec![]).is_none());
}

#[test]
fn finding_the_remembered_target() {
    let main = || Ok(Some(LocalBranchName::from("main".to_string())));
    let entries = vec![("abc".to_string(), "refs/heads/dev".to_string())];
    let found = find_target(main(), Some("refs/heads/dev".into()), entries).unwrap();
    assert!(matches!(found.name, Ok(BranchName::Local(ref b)) if b.branch_name() == "dev"));
    assert!(matches!(find_target(main(), None, vec![]), Err(FindTargetErr::NoRemembered)));
    assert!(matches!(
        find_target(main(), Some("refs/heads/gone".into()), vec![]),
        Err(FindTargetErr::NoRemembered)
    ));
    assert!(matches!(find_target(Ok(None), None, vec![]), Err(FindTargetErr::NoCurrentBranch)));
    let status = GitStatus::new(Ok(output(0, "# branch.oid a\0# branch.head topic\0", ""))).unwrap();
    let current = find_current_branch(Ok(status)).unwrap().unwrap();
    assert_eq!(current.branch_name(), "topic");
    let detached = GitStatus::new(Ok(output(0, "# branch.oid a\0# branch.head (detached)\0", ""))).unwrap();
    assert!(find_current_branch(Ok(detached)).unwrap().is_none());
}

#[test]
fn worktree_lists() {
    let text = "worktree /r\nHEAD abc\nbranch refs/heads/main\n\nworktree /w\nHEAD def\ndetached\n\n";
    assert!(worktree_list_readable(text.trim()));
    assert!(!worktree_list_readable("worktree /r\nHEAD abc"));
    let list = list_worktree(&output(0, text, ""));
    assert_eq!(list.len(), 2);
    assert!(matches!(list[1].state, WorktreeState::DetachedHead { ref head } if head.sha == "def"));
}

#[test]
fn commit_tree_and_merge_arguments() {
    let head = Commit { sha: "h".into() };
    let parent = Commit { sha: "p".into() };
    assert_eq!(head.commit(&parent, None, "msg"), vec!["commit-tree", "-p", "p", "h^{tree}", "-m", "msg"]);
    assert_eq!(head.find_merge_base(&parent), vec!["merge-base", "h", "p"]);
    let spec = CommitSpec::new("topic".into(), Commit { sha: "t".into() });
    assert_eq!(Merge::merge_args(&spec), vec!["merge", "--no-commit", "--no-ff", "topic"]);
    assert_eq!(
        head.commit(&head, Some(spec), "Fake merge."),
        vec!["commit-tree", "-p", "h", "-p", "t", "h^{tree}", "-m", "Fake merge."]
    );
}

#[test]
fn command_defaults_and_reports() {
    let fm = FakeMerge { source: CommitSpec::new("x".into(), Commit { sha: "x".into() }), message: None };
    assert_eq!(fm.commit_message(), "Fake merge.");
    let sq = SquashCommit { branch_point: None, message: Some("m".into()) };
    assert_eq!(sq.commit_message(), "m");
    assert_eq!(
        SquashCommit::undo_hint(&Commit { sha: "abc".into() }),
        "Commit squashed.  To undo: oaf reset abc"
    );
    let report = Checkout { _branch_name: "x".into(), _branch: false }.report();
    assert_eq!(report.code, 1);
    let next = SwitchNext::new(true, Some("n".into()), false);
    assert_eq!(next.create_target().unwrap().branch_name(), "n");
    assert!(SwitchNext::new(false, None, false).create_target().is_none());
}

#[test]
fn from_settings() {
    let target = find_target(
        Ok(Some(LocalBranchName::from("main".to_owned()))),
        Some("refs/heads/missing".to_owned()),
        vec![],
    );
    assert!(matches!(target, Err(FindTargetErr::NoRemembered)));
}
