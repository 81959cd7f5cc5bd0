use tui_lipan::changed_tree::{build_changed_only_root, is_hidden_name, select_directory_entries, FsNode, GitStatusSnapshot};
use tui_lipan::file_tree::FileKind;
use tui_lipan::git::PathMap;
use tui_lipan::lexpath::{
    hidden_under_root, insert_path_with_ancestors, is_valid_provided_name, lexical_normalize_path,
    path_starts_with, resolve_provided_path,
};

fn repo_root() -> FsNode {
    FsNode {
        name: "repo".to_string(),
        path: "/repo".to_string(),
        kind: FileKind::Directory,
        loaded: true,
        loading: false,
        error: None,
        children: Vec::new(),
    }
}

fn snapshot(paths: &[&str]) -> GitStatusSnapshot {
    GitStatusSnapshot {
        entries: PathMap::new(),
        changed_paths: paths.iter().map(|p| p.to_string()).collect(),
        kinds: PathMap::new(),
        virtual_changes: false,
    }
}

#[test]
fn insert_path_with_ancestors_adds_chain_up_to_root() {
    let mut expanded: Vec<String> = Vec::new();

    insert_path_with_ancestors(&mut expanded, "/repo/src/widgets", "/repo");

    assert!(expanded.iter().any(|p| p == "/repo"));
    assert!(expanded.iter().any(|p| p == "/repo/src"));
    assert!(expanded.iter().any(|p| p == "/repo/src/widgets"));
    assert_eq!(expanded.len(), 3);
}

#[test]
fn provided_path_resolution_rejects_escapes_and_prefix_siblings() {
    let root = "/remote/repo";

    assert_eq!(resolve_provided_path(root, "../etc"), None);
    assert_eq!(resolve_provided_path(root, "src/../../etc"), None);
    assert_eq!(resolve_provided_path(root, "/etc/passwd"), None);
    assert_eq!(resolve_provided_path(root, "/remote/repo2/file"), None);
    assert_eq!(resolve_provided_path(root, "src/../README.md"), Some("/remote/repo/README.md".to_string()));

    for invalid in ["../x", "a/b", "/abs", "..", ".", ""] {
        assert!(!is_valid_provided_name(invalid), "accepted {invalid:?}");
    }
    assert!(is_valid_provided_name("main.rs"));
}

#[test]
fn changed_only_root_groups_changed_paths_by_directory() {
    let snapshot = snapshot(&["/repo/src/lib.rs", "/repo/src/widgets/file_tree.rs", "/elsewhere/ignored.rs"]);

    let root = build_changed_only_root(&repo_root(), &snapshot, true, &PathMap::new());

    assert_eq!(root.children.len(), 1);
    assert_eq!(root.children[0].name, "src");
    assert_eq!(root.children[0].kind, FileKind::Directory);
    assert_eq!(root.children[0].children[0].name, "widgets");
    assert_eq!(root.children[0].children[1].name, "lib.rs");
    assert_eq!(root.children[0].children[1].kind, FileKind::File);
    assert_eq!(root.children[0].children[0].children[0].path, "/repo/src/widgets/file_tree.rs");
}

#[test]
fn changed_only_root_respects_hidden_components() {
    let snapshot = snapshot(&["/repo/.env", "/repo/src/main.rs"]);

    let root = build_changed_only_root(&repo_root(), &snapshot, false, &PathMap::new());

    assert_eq!(root.children.len(), 1);
    assert_eq!(root.children[0].name, "src");
}

#[test]
fn changed_only_root_sorts_case_insensitively_and_uses_recorded_kinds() {
    let mut snap = snapshot(&["/repo/b.txt", "/repo/A.txt", "/repo/link", "/repo/docs/x.md"]);
    snap.kinds.insert("/repo/link".to_string(), FileKind::Symlink);
    let root = build_changed_only_root(&repo_root(), &snap, true, &PathMap::new());
    let names: Vec<&str> = root.children.iter().map(|c| c.name.as_str()).collect();
    assert_eq!(names, vec!["docs", "A.txt", "b.txt", "link"]);
    assert_eq!(root.children[3].kind, FileKind::Symlink);
    assert_eq!(root.name, "repo");
    assert!(root.loaded && !root.loading);
}

#[test]
fn changed_only_root_takes_probed_kinds_unless_changes_are_virtual() {
    let snap = snapshot(&["/repo/dir"]);
    let mut probed = PathMap::new();
    probed.insert("/repo/dir".to_string(), FileKind::Directory);
    let root = build_changed_only_root(&repo_root(), &snap, true, &probed);
    assert_eq!(root.children[0].kind, FileKind::Directory);

    let mut virtual_snap = snapshot(&["/repo/dir"]);
    virtual_snap.virtual_changes = true;
    let root = build_changed_only_root(&repo_root(), &virtual_snap, true, &probed);
    assert_eq!(root.children[0].kind, FileKind::File);
}

#[test]
fn a_changed_path_that_is_also_a_directory_keeps_its_first_kind() {
    let snap = snapshot(&["/repo/a", "/repo/a/b"]);
    let root = build_changed_only_root(&repo_root(), &snap, true, &PathMap::new());
    assert_eq!(root.children.len(), 1);
    assert_eq!(root.children[0].kind, FileKind::File);
    assert_eq!(root.children[0].children[0].path, "/repo/a/b");
}

#[test]
fn lexical_paths_resolve_dots_by_text() {
    assert_eq!(lexical_normalize_path("/a/./b/../c"), "/a/c");
    assert_eq!(lexical_normalize_path("/../x"), "/x");
    assert_eq!(lexical_normalize_path("a//b/"), "a/b");
    assert!(path_starts_with("/repo/src", "/repo"));
    assert!(path_starts_with("/repo/src", "/repo/"));
    assert!(!path_starts_with("/repo2/src", "/repo"));
    assert!(hidden_under_root("/repo/.git/config", "/repo", false));
    assert!(!hidden_under_root("/repo/.git/config", "/repo", true));
    assert!(!hidden_under_root("/.hidden/repo/x", "/.hidden/repo", false));
}

#[test]
fn ancestors_stop_at_the_root_and_skip_paths_outside_it() {
    let mut expanded = vec!["/repo".to_string()];
    insert_path_with_ancestors(&mut expanded, "/repo/a", "/repo");
    assert_eq!(expanded, vec!["/repo".to_string(), "/repo/a".to_string()]);
    insert_path_with_ancestors(&mut expanded, "/other/a", "/repo");
    assert_eq!(expanded.len(), 2);
}

fn listed(name: &str, kind: FileKind) -> FsNode {
    FsNode {
        name: name.to_string(),
        path: format!("/d/{name}"),
        kind,
        loaded: false,
        loading: false,
        error: None,
        children: Vec::new(),
    }
}

#[test]
fn directory_listing_hides_caps_and_orders_entries() {
    let entries = vec![
        listed("b.txt", FileKind::File),
        listed(".git", FileKind::Directory),
        listed("Zeta", FileKind::Directory),
        listed("alpha", FileKind::Directory),
        listed("A.txt", FileKind::File),
    ];
    let (kept, omitted) = select_directory_entries(entries, false, 3);
    let names: Vec<&str> = kept.iter().map(|n| n.name.as_str()).collect();
    assert_eq!(names, vec!["alpha", "Zeta", "b.txt"]);
    assert_eq!(omitted, 1);
}

#[test]
fn hidden_names_start_with_a_dot() {
    assert!(is_hidden_name(".git"));
    assert!(!is_hidden_name("."));
    assert!(!is_hidden_name(".."));
    assert!(is_hidden_name("..."));
    assert!(!is_hidden_name("src"));
    assert!(!is_hidden_name(""));
}
