use oaf::git::{escape_re, BranchName, LocalBranchName, ReferenceSpec, RemoteBranchName};
use oaf::removals::name_less;
use oaf::switch::{make_wip_ref, BranchOrCommit};
use oaf::text::lines;
use oaf::worktree::{append_lines, join_lines, relative_path, Commit, StatusIter};

#[test]
fn parse_gives_back_full_local_name() {
    let branch = LocalBranchName::from("feature/x".to_string());
    let parsed = BranchName::parse(&branch.full());
    assert_eq!(parsed, Ok(BranchName::Local(branch)));
}

#[test]
fn parse_gives_back_full_remote_name() {
    let remote = RemoteBranchName { remote: "origin".into(), name: "a/b".into() };
    let full = remote.full();
    assert_eq!(full, "refs/remotes/origin/a/b");
    assert_eq!(BranchName::parse(&full), Ok(BranchName::Remote(remote)));
}

#[test]
fn full_name_of_parsed_name_is_the_name() {
    for name in ["refs/heads/main", "refs/remotes/origin/main", "refs/tags/v1", "HEAD"] {
        let full = match BranchName::parse(name) {
            Ok(b) => b.full(),
            Err(u) => u.full(),
        };
        assert_eq!(full, name);
    }
}

#[test]
fn from_long_takes_full_name_back() {
    let branch = LocalBranchName::from("topic".to_string());
    let back = LocalBranchName::from_long(branch.full(), None).unwrap();
    assert_eq!(back.branch_name(), "topic");
}

#[test]
fn escaping_keeps_texts_apart() {
    assert_ne!(escape_re("a.b"), escape_re("a\\.b"));
    assert_ne!(escape_re("a|b"), escape_re("a\\|b"));
    assert_eq!(escape_re("plain"), "plain");
}

#[test]
fn wip_refs_of_branches_and_commits() {
    let branch = BranchOrCommit::Branch(LocalBranchName::from("foo".to_string()));
    assert_eq!(make_wip_ref(&branch), "refs/branch-wip/foo");
    let commit = BranchOrCommit::Commit(Commit { sha: "abc123".to_string() });
    assert_eq!(make_wip_ref(&commit), "refs/commits-wip/abc123");
    let other = BranchOrCommit::Branch(LocalBranchName::from("bar".to_string()));
    assert_ne!(make_wip_ref(&branch), make_wip_ref(&other));
}

#[test]
fn lines_of_joined_lines() {
    let items = vec!["one".to_string(), "".to_string(), "three".to_string()];
    let joined = join_lines(&items);
    assert_eq!(joined, "one\n\nthree\n");
    assert_eq!(lines(&joined), vec!["one", "", "three"]);
}

#[test]
fn appending_to_joined_lines_joins_all() {
    let a = vec!["x".to_string(), "y".to_string()];
    let b = vec!["z".to_string()];
    let all: Vec<String> = a.iter().chain(b.iter()).cloned().collect();
    assert_eq!(append_lines(join_lines(&a), b), join_lines(&all));
}

#[test]
fn relative_path_to_itself_is_empty() {
    assert_eq!(relative_path("foo/bar", "foo/bar"), Ok("".to_string()));
    assert_eq!(relative_path("/", "/"), Ok("".to_string()));
    assert_eq!(relative_path("", ""), Ok("".to_string()));
}

#[test]
fn names_order_by_characters() {
    assert!(name_less("a", "b"));
    assert!(name_less("a", "ab"));
    assert!(!name_less("ab", "a"));
    assert!(!name_less("a", "a"));
    assert!(name_less("Z", "a"));
    assert!(name_less("z", "é"));
}

#[test]
fn fix_removals_sorts_and_merges() {
    let text = [
        "# branch.oid abc\0",
        "# branch.head main\0",
        "1 D. N... 100644 000000 000000 1111111111111111111111111111111111111111 0000000000000000000000000000000000000000 gone.txt\0",
        "1 D. N... 100644 000000 000000 1111111111111111111111111111111111111111 0000000000000000000000000000000000000000 kept.txt\0",
        "? kept.txt\0",
        "? b.txt\0",
        "1 .M N... 100644 100644 100644 1111111111111111111111111111111111111111 1111111111111111111111111111111111111111 a.txt\0",
    ]
    .concat();
    let mut iterator = StatusIter::new(&text);
    assert!(iterator.is_well_formed());
    let entries = iterator.fix_removals();
    let names: Vec<&str> = entries.iter().map(|e| e.filename).collect();
    assert_eq!(names, vec!["a.txt", "b.txt", "gone.txt", "kept.txt"]);
    let shown: Vec<String> = entries.iter().map(|e| e.format_entry("")).collect();
    assert_eq!(shown, vec![" M a.txt", "?? b.txt", "-D gone.txt", "-  kept.txt"]);
    assert!(iterator.next_entry().is_none());
}
