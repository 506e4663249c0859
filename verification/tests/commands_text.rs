use oaf::commands::{CommitCmd, IgnoreChanges, IgnoreEntry};
use oaf::worktree::{append_lines, join_lines};

#[test]
fn test_to_string() {
    assert_eq!(
        "foo/bar",
        IgnoreEntry::SpecificEntry("foo/bar".to_string()).make_string()
    );
    assert_eq!(
        "/foo",
        IgnoreEntry::SpecificEntry("foo".to_string()).make_string()
    );
    assert_eq!(
        "foo",
        IgnoreEntry::RecursiveEntry("foo".to_string()).make_string()
    );
}

#[test]
fn test_join_lines() {
    let lines = vec!["hello".to_string(), "there".to_string()];
    let string = join_lines(&lines);
    assert_eq!("hello\nthere\n".to_string(), string)
}

#[test]
fn test_append_lines() {
    let contents = "a\nb".to_string();
    let contents2 = append_lines(contents, vec!["c".to_string()]);
    assert_eq!(contents2, "a\nb\nc\n");
}

#[test]
fn test_append_lines_no_terminator() {
    let contents = "a\nb\n".to_string();
    let contents2 = append_lines(contents, vec!["c".to_string()]);
    assert_eq!(contents2, "a\nb\nc\n");
}

#[test]
fn untracked_files_stop_a_strict_commit() {
    assert!(CommitCmd::untracked_report(vec![]).is_none());
    let report = CommitCmd::untracked_report(vec!["new.txt".to_string()]).unwrap();
    assert_eq!(report.code, 1);
    assert!(report.out.is_empty());
    assert_eq!(
        report.err,
        vec![
            "Untracked files are present:".to_string(),
            "new.txt".to_string(),
            "You can add them with \"oaf add\", ignore them with \"oaf ignore\", or use --no-strict."
                .to_string(),
        ]
    );
}

#[test]
fn listing_files_whose_changes_are_ignored() {
    let report = IgnoreChanges::list_report("H kept.txt\nh ignored.txt\n");
    assert_eq!(report.code, 0);
    assert_eq!(report.out, vec!["ignored.txt".to_string()]);
    assert!(report.err.is_empty());
    let report = IgnoreChanges::list_report("H kept.txt\n");
    assert_eq!(report.out, Vec::<String>::new());
    assert_eq!(report.err, vec!["No files have ignore-changes set.".to_string()]);
}
