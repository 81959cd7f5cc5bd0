use tui_lipan::changed_tree::{FsNode, GitStatusSnapshot};
use tui_lipan::file_tree::{FileKind, FileTree, FileTreeChange, FileTreeChangeSource, FileTreeChangeStatus, FileTreeChangeView};
use tui_lipan::file_tree_component::{
    changed_only_search_candidates, ensure_reveal_paths, expand_for_signature,
    file_tree_on_props_changed, file_tree_update, file_tree_view_plan, install_root, FileTreeAction, FileTreeMsg,
    FileTreeRedraw,
};
use tui_lipan::git::PathMap;
use tui_lipan::projection::{ExplorerFilter, VisibleFileTreeEntry};
use tui_lipan::tree_projection::FileTreeState;

fn node(name: &str, path: &str, kind: FileKind, loaded: bool) -> FsNode {
    FsNode {
        name: name.to_string(),
        path: path.to_string(),
        kind,
        loaded,
        loading: false,
        error: None,
        children: Vec::new(),
    }
}

fn empty_snapshot() -> GitStatusSnapshot {
    GitStatusSnapshot { entries: PathMap::new(), changed_paths: Vec::new(), kinds: PathMap::new(), virtual_changes: false }
}

fn state() -> FileTreeState {
    let mut root = node("repo", "/repo", FileKind::Directory, true);
    let mut src = node("src", "/repo/src", FileKind::Directory, false);
    src.children.push(node("main.rs", "/repo/src/main.rs", FileKind::File, true));
    root.children.push(src);
    root.children.push(node("docs", "/repo/docs", FileKind::Directory, true));
    FileTreeState {
        root,
        root_virtual: false,
        expanded: vec!["/repo".to_string()],
        git_snapshot: empty_snapshot(),
        git_load_generation: 0,
        last_git_refresh_nonce: 0,
        changed_only_auto_expand_signature: 0,
        explorer_text: String::new(),
        explorer_cursor: 0,
        explorer_anchor: 0,
        explorer_query_id: 0,
        explorer_filter: ExplorerFilter::default(),
        search_expanded_snapshot: None,
        search_found_dir: None,
    }
}

fn sorted(v: &[String]) -> Vec<String> {
    let mut v = v.to_vec();
    v.sort();
    v.dedup();
    v
}

fn entry(path: &str, kind: FileKind) -> Option<VisibleFileTreeEntry> {
    Some(VisibleFileTreeEntry { path: path.to_string(), kind })
}

#[test]
fn stale_git_snapshot_is_ignored() {
    let props = FileTree::new("/repo").props;
    let mut st = state();
    st.git_load_generation = 3;
    let mut snapshot = empty_snapshot();
    snapshot.changed_paths.push("/repo/src/main.rs".to_string());
    let r = file_tree_update(&mut st, &props, FileTreeMsg::GitSnapshotLoaded { generation: 2, snapshot });
    assert_eq!(r.redraw, FileTreeRedraw::Nothing);
    assert!(r.actions.is_empty());
    assert!(st.git_snapshot.changed_paths.is_empty());

    let mut snapshot = empty_snapshot();
    snapshot.changed_paths.push("/repo/src/main.rs".to_string());
    let r = file_tree_update(&mut st, &props, FileTreeMsg::GitSnapshotLoaded { generation: 3, snapshot });
    assert_eq!(r.redraw, FileTreeRedraw::Full);
    assert_eq!(st.git_snapshot.changed_paths, vec!["/repo/src/main.rs".to_string()]);
}

#[test]
fn changed_only_snapshot_opens_changed_directories() {
    let mut props = FileTree::new("/repo").props;
    props.change_view = FileTreeChangeView::ChangedOnly;
    let mut st = state();
    let mut snapshot = empty_snapshot();
    snapshot.changed_paths.push("/repo/src/main.rs".to_string());
    file_tree_update(&mut st, &props, FileTreeMsg::GitSnapshotLoaded { generation: 0, snapshot });
    assert_eq!(sorted(&st.expanded), vec!["/repo".to_string(), "/repo/src".to_string()]);
    assert_ne!(st.changed_only_auto_expand_signature, 0);
    let r = file_tree_update(&mut st, &props, FileTreeMsg::EnsureChangedOnlyExpanded);
    assert_eq!(r.redraw, FileTreeRedraw::Nothing);
}

#[test]
fn git_refresh_needs_a_newer_nonce() {
    let props = FileTree::new("/repo").props;
    let mut st = state();
    let r = file_tree_update(&mut st, &props, FileTreeMsg::RequestGitRefresh(0));
    assert!(r.actions.is_empty());
    assert_eq!(st.git_load_generation, 0);
    let r = file_tree_update(&mut st, &props, FileTreeMsg::RequestGitRefresh(5));
    assert_eq!(st.last_git_refresh_nonce, 5);
    assert_eq!(st.git_load_generation, 1);
    assert_eq!(r.redraw, FileTreeRedraw::Nothing);
    match &r.actions[..] {
        [FileTreeAction::LoadGitSnapshot { generation, root, diff_stats }] => {
            assert_eq!(*generation, 1);
            assert_eq!(root, "/repo");
            assert!(!*diff_stats);
        },
        _ => panic!("expected one git load"),
    }
    let r = file_tree_update(&mut st, &props, FileTreeMsg::RequestGitRefresh(5));
    assert!(r.actions.is_empty());
    st.git_load_generation = u64::MAX;
    file_tree_update(&mut st, &props, FileTreeMsg::RequestGitRefresh(6));
    assert_eq!(st.git_load_generation, 0);
}

#[test]
fn git_refresh_is_ignored_without_git() {
    let mut props = FileTree::new("/repo").props;
    props.git_status = false;
    let mut st = state();
    let r = file_tree_update(&mut st, &props, FileTreeMsg::RequestGitRefresh(9));
    assert!(r.actions.is_empty());
    assert_eq!(st.last_git_refresh_nonce, 0);
}

#[test]
fn toggle_expands_and_reads_unloaded_directory() {
    let props = FileTree::new("/repo").props;
    let mut st = state();
    let r = file_tree_update(
        &mut st,
        &props,
        FileTreeMsg::TreeToggled { entry: entry("/repo/src", FileKind::Directory), expanded: true },
    );
    assert_eq!(sorted(&st.expanded), vec!["/repo".to_string(), "/repo/src".to_string()]);
    assert_eq!(r.redraw, FileTreeRedraw::Full);
    assert_eq!(r.actions.len(), 2);
    match &r.actions[0] {
        FileTreeAction::EmitToggle(ev) => {
            assert_eq!(ev.path, "/repo/src");
            assert!(ev.expanded);
        },
        _ => panic!("expected the toggle event first"),
    }
    match &r.actions[1] {
        FileTreeAction::ReadDirectory { path } => assert_eq!(path, "/repo/src"),
        _ => panic!("expected a directory read"),
    }
    let r = file_tree_update(
        &mut st,
        &props,
        FileTreeMsg::TreeToggled { entry: entry("/repo/docs", FileKind::Directory), expanded: true },
    );
    assert_eq!(r.actions.len(), 1);
    file_tree_update(
        &mut st,
        &props,
        FileTreeMsg::TreeToggled { entry: entry("/repo/src", FileKind::Directory), expanded: false },
    );
    assert_eq!(sorted(&st.expanded), vec!["/repo".to_string(), "/repo/docs".to_string()]);
}

#[test]
fn toggle_leaves_caller_controlled_expansion_alone() {
    let mut props = FileTree::new("/repo").props;
    props.expanded_paths = Some(vec!["/repo".to_string()]);
    let mut st = state();
    let r = file_tree_update(
        &mut st,
        &props,
        FileTreeMsg::TreeToggled { entry: entry("/repo/docs", FileKind::Directory), expanded: true },
    );
    assert_eq!(st.expanded, vec!["/repo".to_string()]);
    assert_eq!(r.actions.len(), 1);
}

#[test]
fn query_starts_search_and_blank_query_restores_expansion() {
    let props = FileTree::new("/repo").props;
    let mut st = state();
    let r = file_tree_update(
        &mut st,
        &props,
        FileTreeMsg::ExplorerQueryChanged { text: "mai".to_string(), cursor: 3, anchor: 3 },
    );
    assert_eq!(st.explorer_query_id, 1);
    assert_eq!(st.search_expanded_snapshot, Some(vec!["/repo".to_string()]));
    assert_eq!(r.redraw, FileTreeRedraw::WithCommand);
    match &r.actions[..] {
        [FileTreeAction::SpawnExplorerSearch { query_id, query, root, changed_only }] => {
            assert_eq!((*query_id, query.as_str(), root.as_str()), (1, "mai", "/repo"));
            assert!(!*changed_only);
        },
        _ => panic!("expected one search"),
    }
    // an answer to an older query is dropped
    let r = file_tree_update(
        &mut st,
        &props,
        FileTreeMsg::ExplorerResultsReady { query_id: 0, filter: ExplorerFilter::default() },
    );
    assert!(r.actions.is_empty());
    let mut filter = ExplorerFilter::default();
    filter.expanded_paths.push("/repo/src".to_string());
    filter.primary_match_directory = Some("/repo/src".to_string());
    filter.match_count = 1;
    let r = file_tree_update(&mut st, &props, FileTreeMsg::ExplorerResultsReady { query_id: 1, filter });
    assert_eq!(r.redraw, FileTreeRedraw::Full);
    assert_eq!(st.search_found_dir, Some("/repo/src".to_string()));
    assert_eq!(sorted(&st.expanded), vec!["/repo".to_string(), "/repo/src".to_string()]);
    // selecting a file while searching records its directory
    file_tree_update(
        &mut st,
        &props,
        FileTreeMsg::TreeSelected { entry: entry("/repo/docs/readme.md", FileKind::File) },
    );
    assert_eq!(st.search_found_dir, Some("/repo/docs".to_string()));
    let r = file_tree_update(
        &mut st,
        &props,
        FileTreeMsg::ExplorerQueryChanged { text: "  ".to_string(), cursor: 2, anchor: 2 },
    );
    assert_eq!(r.redraw, FileTreeRedraw::Full);
    assert_eq!(st.explorer_filter.match_count, 0);
    assert_eq!(st.search_expanded_snapshot, None);
    assert_eq!(st.search_found_dir, None);
    assert_eq!(sorted(&st.expanded), vec!["/repo".to_string(), "/repo/docs".to_string()]);
}

#[test]
fn focus_messages_name_the_children() {
    let props = FileTree::new("/repo").props;
    let mut st = state();
    let r = file_tree_update(&mut st, &props, FileTreeMsg::FocusExplorer);
    match &r.actions[..] {
        [FileTreeAction::Focus(key)] => assert_eq!(key, "__ft_input"),
        _ => panic!("expected a focus move"),
    }
    let r = file_tree_update(&mut st, &props, FileTreeMsg::FocusTree);
    match &r.actions[..] {
        [FileTreeAction::Focus(key)] => assert_eq!(key, "__ft_tree"),
        _ => panic!("expected a focus move"),
    }
}

#[test]
fn props_change_of_root_rebuilds_and_reloads_git() {
    let old_props = FileTree::new("/repo").props;
    let props = FileTree::new("/other").props;
    let mut st = state();
    st.git_load_generation = 4;
    st.explorer_filter.match_count = 3;
    let r = file_tree_on_props_changed(&mut st, &old_props, &props);
    assert_eq!(st.git_load_generation, 6);
    assert_eq!(st.explorer_filter.match_count, 0);
    assert_eq!(r.redraw, FileTreeRedraw::WithCommand);
    assert_eq!(r.actions.len(), 2);
    assert!(matches!(r.actions[0], FileTreeAction::RebuildRoot));
    match &r.actions[1] {
        FileTreeAction::LoadGitSnapshot { generation, root, .. } => {
            assert_eq!((*generation, root.as_str()), (6, "/other"));
        },
        _ => panic!("expected a git load"),
    }
    install_root(&mut st, node("other", "/other", FileKind::Directory, true));
    assert_eq!(st.expanded, vec!["/other".to_string()]);
    assert_eq!(st.root.path, "/other");
}

#[test]
fn props_change_of_changes_resets_the_snapshot() {
    let old_props = FileTree::new("/repo").props;
    let mut props = FileTree::new("/repo").props;
    props.change_source =
        FileTreeChangeSource::Provided(vec![FileTreeChange::new("src/main.rs", FileTreeChangeStatus::Modified)]);
    let mut st = state();
    let r = file_tree_on_props_changed(&mut st, &old_props, &props);
    assert_eq!(st.git_load_generation, 1);
    assert_eq!(st.git_snapshot.changed_paths, vec!["/repo/src/main.rs".to_string()]);
    assert!(r.actions.is_empty());
    assert_eq!(r.redraw, FileTreeRedraw::WithCommand);
    let same = file_tree_on_props_changed(&mut st, &props, &props);
    assert_eq!(same.redraw, FileTreeRedraw::Nothing);
    assert_eq!(st.git_load_generation, 1);
}

#[test]
fn view_plan_asks_for_a_refresh_of_a_new_nonce() {
    let mut props = FileTree::new("/repo").props;
    props.git_refresh_nonce = 2;
    props.explorer = true;
    let mut st = state();
    st.explorer_text = "x".to_string();
    let plan = file_tree_view_plan(&st, &props);
    assert_eq!(plan.refresh_nonce, Some(2));
    assert!(plan.filter_active && plan.show_explorer && !plan.sync_root && !plan.reveal_paths);
    st.last_git_refresh_nonce = 2;
    assert_eq!(file_tree_view_plan(&st, &props).refresh_nonce, None);
}

#[test]
fn sync_root_mode_rebuilds_only_when_the_root_kind_changes() {
    let props = FileTree::new("/repo").props;
    let mut st = state();
    let r = file_tree_update(&mut st, &props, FileTreeMsg::SyncRootMode);
    assert_eq!(r.redraw, FileTreeRedraw::Nothing);
    assert!(r.actions.is_empty());

    let mut virtual_props = FileTree::new("/repo").props;
    virtual_props.change_source = FileTreeChangeSource::Provided(Vec::new());
    virtual_props.change_view = FileTreeChangeView::ChangedOnly;
    virtual_props.git_refresh_nonce = 7;
    st.search_found_dir = Some("/repo/src".to_string());
    let r = file_tree_update(&mut st, &virtual_props, FileTreeMsg::SyncRootMode);
    assert_eq!(r.redraw, FileTreeRedraw::Full);
    assert!(matches!(r.actions[..], [FileTreeAction::RebuildRoot]));
    assert!(st.root_virtual);
    assert!(st.expanded.is_empty());
    assert_eq!(st.git_load_generation, 1);
    assert_eq!(st.last_git_refresh_nonce, 7);
    assert_eq!(st.search_found_dir, None);
    assert!(st.git_snapshot.virtual_changes);
}

#[test]
fn expansion_follows_the_signature() {
    let mut props = FileTree::new("/repo").props;
    props.change_view = FileTreeChangeView::ChangedOnly;
    let mut st = state();
    st.git_snapshot.changed_paths.push("/repo/src/main.rs".to_string());
    assert!(expand_for_signature(&mut st, &props, 42));
    assert_eq!(st.changed_only_auto_expand_signature, 42);
    assert_eq!(sorted(&st.expanded), vec!["/repo".to_string(), "/repo/src".to_string()]);
    // the same signature again changes nothing
    assert!(!expand_for_signature(&mut st, &props, 42));
    // a caller-controlled expansion is never touched
    props.expanded_paths = Some(Vec::new());
    assert!(!expand_for_signature(&mut st, &props, 7));
    assert_eq!(st.changed_only_auto_expand_signature, 42);
}

#[test]
fn reveal_opens_ancestors_and_asks_for_loads() {
    let mut props = FileTree::new("/repo").props;
    props.reveal_path = Some("src/main.rs".to_string());
    let mut st = state();
    let r = ensure_reveal_paths(&mut st, &props, &PathMap::new());
    assert_eq!(r.redraw, FileTreeRedraw::Full);
    assert_eq!(
        sorted(&st.expanded),
        vec!["/repo".to_string(), "/repo/src".to_string(), "/repo/src/main.rs".to_string()]
    );
    match &r.actions[..] {
        [FileTreeAction::LoadDirectories { paths }] => assert_eq!(sorted(paths), sorted(&st.expanded)),
        _ => panic!("expected one load"),
    }
    // revealing again opens nothing new
    let r = ensure_reveal_paths(&mut st, &props, &PathMap::new());
    assert_eq!(r.redraw, FileTreeRedraw::Nothing);
    // a path outside the root reveals nothing
    props.reveal_path = Some("/elsewhere/x".to_string());
    let before = st.expanded.clone();
    let r = ensure_reveal_paths(&mut st, &props, &PathMap::new());
    assert!(r.actions.is_empty());
    assert_eq!(st.expanded, before);
}

#[test]
fn reveal_leaves_controlled_expansion_alone() {
    let mut props = FileTree::new("/repo").props;
    props.select_path = Some("/repo/docs/a.md".to_string());
    props.expanded_paths = Some(vec!["/repo".to_string()]);
    let mut st = state();
    let r = file_tree_update(&mut st, &props, FileTreeMsg::EnsureRevealPaths { canonical: PathMap::new() });
    assert_eq!(st.expanded, vec!["/repo".to_string()]);
    match &r.actions[..] {
        [FileTreeAction::LoadDirectories { paths }] => {
            assert!(paths.contains(&"/repo/docs".to_string()));
        }
        _ => panic!("expected one load"),
    }
}

#[test]
fn changed_only_candidates_come_from_the_changed_tree() {
    let mut st = state();
    st.git_snapshot.changed_paths.push("/repo/src/main.rs".to_string());
    let candidates = changed_only_search_candidates(&st, false, &PathMap::new());
    let got: Vec<(String, String, bool)> =
        candidates.iter().map(|c| (c.path.clone(), c.label.clone(), c.is_dir)).collect();
    assert_eq!(
        got,
        vec![
            ("/repo/src".to_string(), "src".to_string(), true),
            ("/repo/src/main.rs".to_string(), "main.rs".to_string(), false),
        ]
    );
}

#[test]
fn changed_only_query_searches_the_changed_tree() {
    let mut props = FileTree::new("/repo").props;
    props.change_view = FileTreeChangeView::ChangedOnly;
    let mut st = state();
    let r = file_tree_update(
        &mut st,
        &props,
        FileTreeMsg::ExplorerQueryChanged { text: "main".to_string(), cursor: 4, anchor: 4 },
    );
    assert!(matches!(r.actions[..], [FileTreeAction::SpawnExplorerSearch { changed_only: true, .. }]));
}
