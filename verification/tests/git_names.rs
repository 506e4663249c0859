use oaf::git::{
    escape_re, parse_settings, parse_show_ref, select_reference, BranchName, LocalBranchName,
    RemoteBranchName, SettingEntry, SettingPrefix, SettingTarget, UnparsedReference,
};

#[test]
fn test_escape_re() {
    assert_eq!(
        escape_re("^a.\\|[](){}?*+b$"),
        "\\^a\\.\\\\\\|\\[\\]\\(\\)\\{\\}\\?\\*\\+b\\$"
    );
}

#[test]
fn test_settings_re() {
    assert_eq!(
        SettingPrefix { prefix: "a.b.".into() }.settings_re(&["b$rk", "b|te"]),
        "a\\.b\\.(b\\$rk|b\\|te)"
    );
}

#[test]
fn test_parse_settings() {
    assert_eq!(
        parse_settings(&[
            "branch.main.merge\nrefs/heads/main\0",
            "branch.main.remote\norigin\0",
            "branch.main.oaf-target-branch\norigin/develop\0",
            "inv"
        ].concat()),
        vec![
            SettingEntry::Valid {
                key: "branch.main.merge".to_string(),
                value: "refs/heads/main".to_string(),
            },
            SettingEntry::Valid {
                key: "branch.main.remote".to_string(),
                value: "origin".to_string(),
            },
            SettingEntry::Valid {
                key: "branch.main.oaf-target-branch".to_string(),
                value: "origin/develop".to_string(),
            },
            SettingEntry::Invalid(String::from("inv")),
        ]
    );
}

#[test]
fn test_parse_branch_name() {
    let x = "refs/heads/foo".parse::<BranchName>();
    assert_eq!(
        x,
        Ok(BranchName::Local(LocalBranchName::from("foo".to_string())))
    );
    let y = "refs/remotes/origin/foo".parse::<BranchName>();
    assert_eq!(
        y,
        Ok(BranchName::Remote(RemoteBranchName {
            remote: "origin".into(),
            name: "foo".into(),
        }))
    );
    let y2 = "origin/foo".parse::<BranchName>();
    assert_eq!(
        y2,
        Err(UnparsedReference {
            name: "origin/foo".into()
        }),
    );
    let z = "refs/baz/origin/foo".parse::<BranchName>();
    assert_eq!(
        z,
        Err(UnparsedReference {
            name: "refs/baz/origin/foo".into()
        })
    );
    let z2 = "baz/origin/foo".parse::<BranchName>();
    assert_eq!(
        z2,
        Err(UnparsedReference {
            name: "baz/origin/foo".into()
        })
    );
}

#[test]
fn test_parse_show_ref() {
    let show_ref_output = r#"fc5f9c3d19c5bedd36ddc72ea977deb19a304aaf refs/heads/main
79cc5a555d3a4494dfc9dcef925d9e011d786c2c refs/heads/status-iter
0b929b8cda459c91f5dda4f2b27b137ad08d890f refs/heads/switch-improvements
fc5f9c3d19c5bedd36ddc72ea977deb19a304aaf refs/remotes/origin/main
56a15847c6a6af30f18cb2b85fefc28b988361e9 refs/remotes/origin/oaf2
2de2e4c491a579d99d842632d90145185845ce7c refs/remotes/origin/status-iter
58d0079cd63fb7e3433c3dd7b2301de0bf018652 refs/stash
15b6228e6fefdac09dc7203006f398babccc6530 refs/tags/v0.1.0
c049de2b1747043e0d3cd643709b04a12186eab1 refs/tags/v0.1.1
7a3c71c5cc05848b5e45f9212abe996f7e61cd0b refs/tags/v0.1.2
f751fb0836a95a9aff9b9c1dbbe9bc4b8dd2331e refs/tags/v0.1.3
5dafbdbe1cf06dc14e849860cba9c0541b25b9ce refs/tags/v0.1.4
"#;
    assert_eq!(
        vec![
            ("fc5f9c3d19c5bedd36ddc72ea977deb19a304aaf", "refs/heads/main"),
            ("79cc5a555d3a4494dfc9dcef925d9e011d786c2c", "refs/heads/status-iter"),
            ("0b929b8cda459c91f5dda4f2b27b137ad08d890f", "refs/heads/switch-improvements"),
            ("fc5f9c3d19c5bedd36ddc72ea977deb19a304aaf", "refs/remotes/origin/main"),
            ("56a15847c6a6af30f18cb2b85fefc28b988361e9", "refs/remotes/origin/oaf2"),
            ("2de2e4c491a579d99d842632d90145185845ce7c", "refs/remotes/origin/status-iter"),
            ("58d0079cd63fb7e3433c3dd7b2301de0bf018652", "refs/stash"),
            ("15b6228e6fefdac09dc7203006f398babccc6530", "refs/tags/v0.1.0"),
            ("c049de2b1747043e0d3cd643709b04a12186eab1", "refs/tags/v0.1.1"),
            ("7a3c71c5cc05848b5e45f9212abe996f7e61cd0b", "refs/tags/v0.1.2"),
            ("f751fb0836a95a9aff9b9c1dbbe9bc4b8dd2331e", "refs/tags/v0.1.3"),
            ("5dafbdbe1cf06dc14e849860cba9c0541b25b9ce", "refs/tags/v0.1.4"),
        ]
        .iter()
        .map(|x| (x.0.to_string(), x.1.to_string()))
        .collect::<Vec<(String, String)>>(),
        parse_show_ref(show_ref_output)
    );
}

fn make_entries(vec: &[(&str, &str)]) -> Vec<(String, String)> {
    vec.iter().map(|(k, v)| (k.to_string(), v.to_string())).collect()
}

#[test]
fn test_select_reference() {
    assert_eq!(
        Some(("refs/remotes/ab/HEAD".to_string(), "AB".to_string())),
        select_reference("ab", make_entries(&[("refs/remotes/ab/HEAD", "AB")]))
    );
    assert_eq!(
        Some(("refs/remotes/origin2/ab".to_string(), "AB".to_string())),
        select_reference(
            "ab",
            make_entries(&[
                ("refs/remotes/ab/HEAD", "AB"),
                ("refs/remotes/origin2/ab", "AB"),
            ])
        )
    );
    assert_eq!(
        Some(("refs/heads/ab".to_string(), "AB".to_string())),
        select_reference(
            "ab",
            make_entries(&[
                ("refs/remotes/ab/HEAD", "AB"),
                ("refs/remotes/ab", "AB"),
                ("refs/heads/ab", "AB"),
            ])
        )
    );
    assert_eq!(
        Some(("refs/tags/ab".to_string(), "AB".to_string())),
        select_reference(
            "ab",
            make_entries(&[
                ("refs/remotes/ab/HEAD", "AB"),
                ("refs/remotes/ab", "AB"),
                ("refs/heads/ab", "AB"),
                ("refs/tags/ab", "AB"),
            ])
        )
    );
    assert_eq!(
        Some(("refs/ab".to_string(), "AB".to_string())),
        select_reference(
            "ab",
            make_entries(&[
                ("refs/remotes/ab/HEAD", "AB"),
                ("refs/remotes/ab", "AB"),
                ("refs/heads/ab", "AB"),
                ("refs/tags/ab", "AB"),
                ("refs/ab", "AB"),
            ])
        )
    );
    assert_eq!(
        Some(("ab".to_string(), "AB".to_string())),
        select_reference(
            "ab",
            make_entries(&[
                ("refs/remotes/ab/HEAD", "AB"),
                ("refs/remotes/ab", "AB"),
                ("refs/heads/ab", "AB"),
                ("refs/tags/ab", "AB"),
                ("refs/ab", "AB"),
                ("ab", "AB"),
            ])
        )
    );
}
