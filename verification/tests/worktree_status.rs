use oaf::git::LocalBranchName;
use oaf::worktree::{
    make_worktree_head, parse_worktree_list, relative_path, BranchCommit, Changer, Commit,
    EntryLocationStatus, EntryState, StatusEntry, StatusIter, UnmergedState, UpstreamInfo,
    WorktreeHead, WorktreeListEntry, WorktreeState,
};

#[test]
fn test_relative_path() {
    assert_eq!(relative_path("foo", "foo/bar"), Ok("bar".to_string()));
    assert_eq!(relative_path("foo/bar", "foo"), Ok("..".to_string()));
    assert_eq!(relative_path("foo/bar", "foo/baz"), Ok("../baz".to_string()));
    assert_eq!(relative_path("/foo/bar", "/foo/baz"), Ok("../baz".to_string()));
    assert!(matches!(relative_path("/foo/bar", "foo/baz"), Err(..)));
    assert!(matches!(relative_path("foo/bar", "/foo/baz"), Err(..)));
}

#[test]
fn test_parse_worktree_list() {
    let wt_list = &parse_worktree_list(&[
        "worktree /home/user/git/repo\n",
        "HEAD a5abe4af040eb3204fe77e16cbe6f5c7042836aa\n",
        "branch refs/heads/add-four\n\n",
        "worktree /home/user/git/wt\n",
        "HEAD a5abe4af040eb3204fe77e16cbe6f5c7042836aa\n",
        "detached\n\n",
    ].concat());
    assert_eq!(
        wt_list[0],
        WorktreeListEntry {
            path: "/home/user/git/repo".to_string(),
            state: WorktreeState::CommittedBranch {
                head: Commit {
                    sha: "a5abe4af040eb3204fe77e16cbe6f5c7042836aa".to_string()
                },
                branch: LocalBranchName::from("add-four".to_string())
            },
        }
    );
    assert_eq!(
        wt_list[1],
        WorktreeListEntry {
            path: "/home/user/git/wt".to_string(),
            state: WorktreeState::DetachedHead {
                head: Commit {
                    sha: "a5abe4af040eb3204fe77e16cbe6f5c7042836aa".to_string()
                },
            },
        }
    )
}

#[test]
fn test_parse_worktree_list_no_commit() {
    let wt_list = &parse_worktree_list(&[
        "worktree /home/abentley/sandbox/asdf2\n",
        "HEAD 0000000000000000000000000000000000000000\n",
        "branch refs/heads/master\n\n",
    ].concat());
    assert_eq!(
        wt_list[0],
        WorktreeListEntry {
            path: "/home/abentley/sandbox/asdf2".to_string(),
            state: WorktreeState::UncommittedBranch {
                branch: LocalBranchName::from("master".to_string())
            },
        }
    )
}

#[test]
fn test_parse_unmerged_state() {
    assert_eq!(
        "UU".parse::<UnmergedState>().unwrap(),
        UnmergedState::BothModified
    );
    assert_eq!(
        "AA".parse::<UnmergedState>().unwrap(),
        UnmergedState::Added(Changer::Both)
    );
    assert_eq!(
        "DD".parse::<UnmergedState>().unwrap(),
        UnmergedState::Deleted(Changer::Both)
    );
    assert_eq!(
        "AU".parse::<UnmergedState>().unwrap(),
        UnmergedState::Added(Changer::Us)
    );
    assert_eq!(
        "DU".parse::<UnmergedState>().unwrap(),
        UnmergedState::Deleted(Changer::Us)
    );
    assert_eq!(
        "UA".parse::<UnmergedState>().unwrap(),
        UnmergedState::Added(Changer::Them)
    );
    assert_eq!(
        "UD".parse::<UnmergedState>().unwrap(),
        UnmergedState::Deleted(Changer::Them)
    );
}

#[test]
fn test_rename_entry() {
    let text = [
        "2 R. N... 100644 100644 100644 2bba5d1fa19e1adab8f11aee09fcc46bbb6e58e3 2bba5d1fa19e1adab8f11aee09fcc46bbb6e58e3 R100 README.dm\x00README.md"
    ].concat();
    let mut iterator = StatusIter::new(&text);
    assert!(iterator.is_well_formed());
    assert_eq!(
        iterator.next_entry().unwrap(),
        StatusEntry {
            state: EntryState::Renamed {
                old_filename: "README.md",
                staged_status: EntryLocationStatus::Renamed,
                tree_status: EntryLocationStatus::Unmodified,
            },
            filename: "README.dm",
        }
    );
}

#[test]
fn test_conflict_entry() {
    let text = [
        "u UU N... 100755 100755 100755 100755 bcd098ed9e6b87c18c819847cab1cea07034635a",
        " 9280a3393eeb5f48f43b5d47299f88308275624e",
        " f1823404a82d732e4f6c33d7da256a563da8815a tools/btool.py"
    ].concat();
    let mut iterator = StatusIter::new(&text);
    assert!(iterator.is_well_formed());
    assert_eq!(
        iterator.next_entry().unwrap(),
        StatusEntry {
            state: EntryState::Unmerged {
                state: UnmergedState::BothModified
            },
            filename: "tools/btool.py",
        }
    )
}

#[test]
fn test_make_worktree_head_detached() {
    let info = make_worktree_head(&["# branch.oid hello", "# branch.head (detached)"]);
    if let WorktreeHead::Attached { commit, .. } = &info {
        println!("{:?}", commit);
    }
    assert_eq!(info, WorktreeHead::Detached("hello".to_string(),));
}

#[test]
fn test_make_worktree_head_attached() {
    let info = make_worktree_head(&["# branch.oid hello", "# branch.head main"]);
    assert_eq!(
        info,
        WorktreeHead::Attached {
            commit: BranchCommit::Oid("hello".to_string()),
            head: LocalBranchName::from("main".to_string()),
            upstream: None,
        }
    );
}

#[test]
fn test_make_worktree_head_attached_more() {
    let info = make_worktree_head(&["# branch.oid hello", "# branch.head main", "asdf"]);
    assert_eq!(
        info,
        WorktreeHead::Attached {
            commit: BranchCommit::Oid("hello".to_string()),
            head: LocalBranchName::from("main".to_string()),
            upstream: None,
        }
    );
}

#[test]
fn test_make_worktree_head_upstream() {
    let info = make_worktree_head(&[
        "# branch.oid hello",
        "# branch.head main",
        "# branch.upstream origin/main",
        "# branch.ab +25 -30",
    ]);
    assert_eq!(
        info,
        WorktreeHead::Attached {
            commit: BranchCommit::Oid("hello".to_string()),
            head: LocalBranchName::from("main".to_string()),
            upstream: Some(UpstreamInfo {
                name: "origin/main".to_string(),
                added: 25,
                removed: 30,
            }),
        }
    );
}
