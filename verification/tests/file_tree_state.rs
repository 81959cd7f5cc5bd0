use tui_lipan::changed_tree::{FsNode, GitStatusSnapshot};
use tui_lipan::file_tree::FileKind;
use tui_lipan::file_tree_state::{
    apply_directory_load, expand_changed_only_directories, sync_projected_load_states, virtual_root_node_at,
    DirectoryLoadResult,
};
use tui_lipan::git::PathMap;
use tui_lipan::projection::ExplorerFilter;
use tui_lipan::tree_projection::FileTreeState;

fn node(name: &str, path: &str, kind: FileKind) -> FsNode {
    FsNode {
        name: name.to_string(),
        path: path.to_string(),
        kind,
        loaded: false,
        loading: true,
        error: None,
        children: Vec::new(),
    }
}

#[test]
fn a_listing_becomes_children_with_a_row_for_the_rest() {
    let mut dir = node("src", "/r/src", FileKind::Directory);
    let result = DirectoryLoadResult {
        entries: vec![node("a", "/r/src/a", FileKind::Directory), node("b.rs", "/r/src/b.rs", FileKind::File)],
        omitted: 12,
        error: None,
    };
    apply_directory_load(&mut dir, result);
    assert!(dir.loaded && !dir.loading && dir.error.is_none());
    assert_eq!(dir.children.len(), 3);
    assert!(!dir.children[0].loaded && dir.children[1].loaded);
    assert!(!dir.children[0].loading);
    assert_eq!(dir.children[2].name, "... 12 more entries");
    assert_eq!(dir.children[2].path, "/r/src/__truncated__");
    assert_eq!(dir.children[2].kind, FileKind::Other);
}

#[test]
fn a_failed_listing_leaves_no_children() {
    let mut dir = node("src", "/r/src", FileKind::Directory);
    dir.children.push(node("old", "/r/src/old", FileKind::File));
    apply_directory_load(
        &mut dir,
        DirectoryLoadResult { entries: Vec::new(), omitted: 0, error: Some("denied".to_string()) },
    );
    assert!(dir.children.is_empty());
    assert_eq!(dir.error.as_deref(), Some("denied"));
    assert!(dir.loaded);
}

#[test]
fn the_virtual_root_is_named_by_its_last_component() {
    let root = virtual_root_node_at("project", "/work/project");
    assert_eq!((root.name.as_str(), root.path.as_str()), ("project", "/work/project"));
    assert!(root.loaded && root.kind == FileKind::Directory);
    let bare = virtual_root_node_at("given", "/");
    assert_eq!(bare.name, "given");
}

fn state(root: &str) -> FileTreeState {
    FileTreeState {
        root: node("r", root, FileKind::Directory),
        root_virtual: false,
        expanded: Vec::new(),
        git_snapshot: GitStatusSnapshot {
            entries: PathMap::new(),
            changed_paths: Vec::new(),
            kinds: PathMap::new(),
            virtual_changes: false,
        },
        git_load_generation: 0,
        last_git_refresh_nonce: 0,
        changed_only_auto_expand_signature: 0,
        explorer_text: String::new(),
        explorer_cursor: 0,
        explorer_anchor: 0,
        explorer_query_id: 0,
        explorer_filter: ExplorerFilter::default(),
        search_expanded_snapshot: None,
        search_found_dir: None,
    }
}

#[test]
fn changed_paths_open_their_directories() {
    let mut st = state("/r");
    expand_changed_only_directories(&mut st, &vec!["/r/a/b/c.txt".to_string(), "/r/d.txt".to_string()]);
    let mut expanded = st.expanded.clone();
    expanded.sort();
    assert_eq!(expanded, vec!["/r".to_string(), "/r/a".to_string(), "/r/a/b".to_string()]);
}

#[test]
fn load_states_follow_the_source_by_path() {
    let mut projected = node("r", "/r", FileKind::Directory);
    projected.children.push(node("a", "/r/a", FileKind::Directory));
    projected.children.push(node("z", "/r/z", FileKind::File));
    let mut source = node("r", "/r", FileKind::Directory);
    source.loaded = true;
    source.loading = false;
    let mut a = node("a", "/r/a", FileKind::Directory);
    a.loaded = true;
    a.loading = false;
    a.error = Some("oops".to_string());
    source.children.push(a);
    let synced = sync_projected_load_states(&projected, &source);
    assert!(synced.loaded && !synced.loading);
    assert!(synced.children[0].loaded && !synced.children[0].loading);
    assert_eq!(synced.children[0].error.as_deref(), Some("oops"));
    assert!(!synced.children[1].loaded && synced.children[1].loading);
}
