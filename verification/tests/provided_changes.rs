use tui_lipan::file_tree::{
    FileKind, FileTree, FileTreeChange, FileTreeChangeSource, FileTreeChangeStatus, FileTreeChangeView,
};
use tui_lipan::git::{GitChangeState, GitDiffStat};
use tui_lipan::git::{GitFileDecorations, GitFileStatus, PathMap};
use tui_lipan::provided_changes::{git_rollup_parents, insert_decoration_rolled_up};
use tui_lipan::provided_changes::{
    effective_initial_snapshot, needs_git_snapshot, provided_change_snapshot, provided_root_path,
};

#[test]
fn provided_snapshot_resolves_absolute_and_rejects_outside_paths() {
    let changes = vec![
        FileTreeChange::new("/repo/src/main.rs", FileTreeChangeStatus::Modified),
        FileTreeChange::new("/elsewhere/ignored.rs", FileTreeChangeStatus::Deleted),
        FileTreeChange::new("../escape.rs", FileTreeChangeStatus::Added),
    ];

    let snapshot = provided_change_snapshot("/repo", &changes);

    assert_eq!(snapshot.changed_paths, vec!["/repo/src/main.rs".to_string()]);
}

#[test]
fn provided_snapshot_maps_kind_status_and_diff_stats() {
    let props = FileTree::new("/repo")
        .change_source(FileTreeChangeSource::Provided(vec![FileTreeChange::new(
            "src/generated",
            FileTreeChangeStatus::Added,
        )
        .kind(FileKind::Directory)
        .diff_stat(3, 1)
        .staged(true)]))
        .change_view(FileTreeChangeView::ChangedOnly)
        .show_diff_stats(true)
        .props;

    let root = provided_root_path(&props.root, None, "/");
    let snapshot = effective_initial_snapshot(&props, &root);
    let decoration = snapshot.entries.get("/repo/src/generated");

    assert!(snapshot.virtual_changes);
    assert_eq!(snapshot.kinds.get("/repo/src/generated"), Some(FileKind::Directory));
    assert_eq!(decoration.and_then(|decoration| decoration.status.staged), Some(GitChangeState::Added));
    assert_eq!(decoration.and_then(|decoration| decoration.diff_stat), Some(GitDiffStat::new(3, 1)));
}

#[test]
fn provided_source_does_not_request_git_snapshot() {
    let props = FileTree::new("/repo")
        .change_source(FileTreeChangeSource::Provided(vec![FileTreeChange::new(
            "src/main.rs",
            FileTreeChangeStatus::Modified,
        )]))
        .change_view(FileTreeChangeView::ChangedOnly)
        .show_diff_stats(true)
        .props;

    assert!(!needs_git_snapshot(&props));
}

#[test]
fn provided_decorations_roll_up_to_the_root_as_indirect() {
    let changes = vec![
        FileTreeChange::new("src/a.rs", FileTreeChangeStatus::Modified),
        FileTreeChange::new("src/b.rs", FileTreeChangeStatus::Deleted).staged(true),
    ];
    let snapshot = provided_change_snapshot("/repo", &changes);

    let file = snapshot.entries.get("/repo/src/a.rs").expect("file decoration");
    assert!(file.direct);
    assert_eq!(file.status.unstaged, Some(GitChangeState::Modified));
    let dir = snapshot.entries.get("/repo/src").expect("directory decoration");
    assert!(!dir.direct);
    assert_eq!(dir.status.unstaged, Some(GitChangeState::Modified));
    assert_eq!(dir.status.staged, Some(GitChangeState::Deleted));
    let root = snapshot.entries.get("/repo").expect("root decoration");
    assert!(!root.direct);
    assert!(snapshot.entries.get("/").is_none());
    assert_eq!(snapshot.changed_paths, vec!["/repo/src/a.rs".to_string(), "/repo/src/b.rs".to_string()]);
}

#[test]
fn repeated_and_unsorted_changes_are_listed_once_in_order() {
    let changes = vec![
        FileTreeChange::new("z.rs", FileTreeChangeStatus::Modified),
        FileTreeChange::new("a.rs", FileTreeChangeStatus::Modified),
        FileTreeChange::new("./z.rs", FileTreeChangeStatus::Modified),
    ];
    let snapshot = provided_change_snapshot("/repo", &changes);
    assert_eq!(snapshot.changed_paths, vec!["/repo/a.rs".to_string(), "/repo/z.rs".to_string()]);
}

#[test]
fn git_sources_need_a_snapshot_only_when_something_shows_it() {
    let plain = FileTree::new("/repo").git_status(false).props;
    assert!(!needs_git_snapshot(&plain));
    let status = FileTree::new("/repo").props;
    assert!(needs_git_snapshot(&status));
    let empty = effective_initial_snapshot(&status, "/repo");
    assert!(empty.changed_paths.is_empty());
    assert!(!empty.virtual_changes);
}

#[test]
fn a_relative_provided_root_is_resolved_against_the_working_directory() {
    assert_eq!(provided_root_path("relative-root", None, "/work"), "/work/relative-root");
    assert_eq!(provided_root_path("relative-root", Some("/real/root"), "/work"), "/real/root");
    assert_eq!(provided_root_path("/abs/./root/..", None, "/work"), "/abs");
}

#[test]
fn provided_snapshot_records_each_path_once() {
    let changes = vec![
        FileTreeChange::new("/repo/src/main.rs", FileTreeChangeStatus::Modified),
        FileTreeChange::new("/elsewhere/ignored.rs", FileTreeChangeStatus::Deleted),
        FileTreeChange::new("../escape.rs", FileTreeChangeStatus::Added),
        FileTreeChange::new("src/main.rs", FileTreeChangeStatus::Modified),
    ];
    let snapshot = provided_change_snapshot("/repo", &changes);
    assert!(snapshot.virtual_changes);
    assert_eq!(snapshot.entries.entries.len(), 3);
    let mut keys: Vec<&str> = snapshot.entries.entries.iter().map(|(k, _)| k.as_str()).collect();
    keys.sort();
    assert_eq!(keys, vec!["/repo", "/repo/src", "/repo/src/main.rs"]);
    let main = snapshot.entries.entries.iter().find(|(k, _)| k == "/repo/src/main.rs").unwrap();
    let src = snapshot.entries.entries.iter().find(|(k, _)| k == "/repo/src").unwrap();
    assert!(main.1.direct && !src.1.direct);
}

#[test]
fn git_changes_roll_up_to_the_repository_root() {
    let parents = git_rollup_parents("/repo/src/deep/main.rs", "/repo");
    assert_eq!(parents, vec!["/repo/src/deep".to_string(), "/repo/src".to_string(), "/repo".to_string()]);
    assert!(git_rollup_parents("/other/x.rs", "/repo").is_empty());
    let mut entries = PathMap::new();
    let d = GitFileDecorations::from_status(GitFileStatus::new(None, Some(GitChangeState::Modified)), true);
    insert_decoration_rolled_up(&mut entries, "/repo/src/main.rs".to_string(), &vec!["/repo/src".to_string(), "/repo".to_string()], d);
    assert_eq!(entries.entries.len(), 3);
    let main = entries.entries.iter().find(|(k, _)| k == "/repo/src/main.rs").unwrap();
    let src = entries.entries.iter().find(|(k, _)| k == "/repo/src").unwrap();
    assert!(main.1.direct && !src.1.direct);
}
