use tui_lipan::git::{
    insert_decoration, insert_status, merge_status, parse_git_numstat_line, parse_git_porcelain_line,
    GitChangeState, GitDiffStat, GitFileDecorations, GitFileStatus, PathMap,
};

#[test]
fn parses_untracked_line() {
    let parsed = parse_git_porcelain_line("?? src/new.rs");
    assert_eq!(parsed.map(|(p, s)| (p, s.unstaged)), Some(("src/new.rs", Some(GitChangeState::Untracked))));
}

#[test]
fn parses_rename_destination() {
    let parsed = parse_git_porcelain_line("R  old/name.rs -> new/name.rs");
    assert_eq!(parsed.map(|(p, s)| (p, s.staged)), Some(("new/name.rs", Some(GitChangeState::Renamed))));
}

#[test]
fn conflicting_status_wins_priority() {
    let mut statuses = PathMap::new();
    let key = "/repo/src/app.rs".to_string();

    insert_status(&mut statuses, key.clone(), GitFileStatus::new(None, Some(GitChangeState::Modified)));
    insert_status(&mut statuses, key.clone(), GitFileStatus::new(None, Some(GitChangeState::Conflicted)));
    insert_status(&mut statuses, key.clone(), GitFileStatus::new(None, Some(GitChangeState::Added)));

    assert_eq!(statuses.get(key.as_str()).and_then(|s| s.unstaged), Some(GitChangeState::Conflicted));
}

#[test]
fn parses_numstat_line() {
    let parsed = parse_git_numstat_line("30\t2\tsrc/lib.rs");

    assert_eq!(parsed.map(|(path, stat)| (path, stat.added, stat.removed)), Some(("src/lib.rs".to_string(), 30, 2)));
}

#[test]
fn parses_braced_numstat_rename_destination() {
    let parsed = parse_git_numstat_line("4\t1\tsrc/{old => new}/file.rs");

    assert_eq!(
        parsed.map(|(path, stat)| (path, stat.added, stat.removed)),
        Some(("src/new/file.rs".to_string(), 4, 1))
    );
}

#[test]
fn ignores_binary_numstat_line() {
    assert_eq!(parse_git_numstat_line("-\t-\tassets/logo.png"), None);
}

#[test]
fn merges_status_and_diff_stat_decorations() {
    let mut entries = PathMap::new();
    let key = "/repo/src/app.rs".to_string();

    insert_decoration(
        &mut entries,
        key.clone(),
        GitFileDecorations {
            status: GitFileStatus::new(None, Some(GitChangeState::Modified)),
            diff_stat: None,
            direct: true,
        },
    );
    insert_decoration(
        &mut entries,
        key.clone(),
        GitFileDecorations {
            status: GitFileStatus::new(None, None),
            diff_stat: Some(GitDiffStat { added: 10, removed: 4 }),
            direct: false,
        },
    );

    let decoration = entries.get(key.as_str()).unwrap();
    assert_eq!(decoration.status.unstaged, Some(GitChangeState::Modified));
    assert_eq!(decoration.diff_stat, Some(GitDiffStat { added: 10, removed: 4 }));
    assert!(decoration.direct);
}

#[test]
fn porcelain_staged_and_unstaged_letters() {
    let (path, status) = parse_git_porcelain_line("MD  src/lib.rs  ").unwrap();
    assert_eq!(path, "src/lib.rs");
    assert_eq!(status, GitFileStatus::new(Some(GitChangeState::Modified), Some(GitChangeState::Deleted)));
    assert_eq!(parse_git_porcelain_line("!! ignored.txt"), None);
    assert_eq!(parse_git_porcelain_line("M"), None);
    let (path, _) = parse_git_porcelain_line(" R a -> b -> c").unwrap();
    assert_eq!(path, "c");
}

#[test]
fn numstat_plain_rename_and_malformed_lines() {
    assert_eq!(parse_git_numstat_line("1\t2\told.rs => new.rs").map(|(p, _)| p), Some("new.rs".to_string()));
    assert_eq!(parse_git_numstat_line("1\t2"), None);
    assert_eq!(parse_git_numstat_line("x\t2\tf.rs"), None);
    assert_eq!(parse_git_numstat_line("1\t2\t   "), None);
}

#[test]
fn merging_keeps_higher_priority_per_side() {
    let a = GitFileStatus::new(Some(GitChangeState::Added), Some(GitChangeState::Untracked));
    let b = GitFileStatus::new(Some(GitChangeState::Modified), Some(GitChangeState::Deleted));
    assert_eq!(merge_status(a, b), GitFileStatus::new(Some(GitChangeState::Added), Some(GitChangeState::Deleted)));
    assert_eq!(merge_status(a, a), a);
}

#[test]
fn diff_stats_add_up_saturating() {
    let a = GitDiffStat::new(usize::MAX, 1);
    assert_eq!(a.saturating_add(GitDiffStat::new(5, 2)), GitDiffStat::new(usize::MAX, 3));
    assert!(GitDiffStat::new(0, 0).is_empty());
}

#[test]
fn porcelain_line_with_non_ascii_status_is_rejected() {
    assert!(parse_git_porcelain_line("é x").is_none());
    assert!(parse_git_porcelain_line("MMé.rs").is_none());
    assert!(parse_git_porcelain_line("M  é.rs").map(|(p, _)| p) == Some("é.rs"));
}

#[test]
fn path_map_keeps_one_entry_per_key() {
    let mut map: PathMap<usize> = PathMap::new();
    map.insert("a".to_string(), 1);
    map.insert("b".to_string(), 2);
    map.insert("a".to_string(), 3);
    assert_eq!(map.entries.len(), 2);
    assert_eq!(map.get("a"), Some(3));
}
