use tui_lipan::changed_tree::{FsNode, GitStatusSnapshot};
use tui_lipan::file_tree::{
    FileIconStyle, FileKind, FileTree, FileTreeItemStyle, FileTreeProps, FileTreeSuffixPriority, IndentStyle,
};
use tui_lipan::git::{GitChangeState, GitDiffStat, GitFileDecorations, GitFileStatus, GitIconStyle, PathMap};
use tui_lipan::projection::{
    apply_suffix_style, build_projected_tree_node, ExplorerFilter, ProjectionBuildContext, TreeNode,
    VisibleFileTreeEntry,
};
use tui_lipan::style::{Color, Style};
use tui_lipan::tree_projection::{
    build_projection, resolved_path_styles, selected_visible_index_by_path, FileTreeState, ProjectionInputs,
};
use tui_lipan::tree_row::git_description_spans;

fn leaf(name: &str, path: &str, kind: FileKind) -> FsNode {
    FsNode {
        name: name.to_string(),
        path: path.to_string(),
        kind,
        loaded: true,
        loading: false,
        error: None,
        children: Vec::new(),
    }
}

fn main_rs() -> FsNode {
    leaf("main.rs", "/repo/src/main.rs", FileKind::File)
}

fn modified() -> GitFileDecorations {
    GitFileDecorations::from_status(GitFileStatus::new(None, Some(GitChangeState::Modified)), true)
}

fn project(
    props: &FileTreeProps,
    node: &FsNode,
    tree_path: Vec<usize>,
    decorations: &PathMap<GitFileDecorations>,
    path_styles: &PathMap<FileTreeItemStyle>,
) -> TreeNode {
    let expanded: Vec<String> = Vec::new();
    let icons = PathMap::new();
    let root_label = "/repo".to_string();
    let ctx = ProjectionBuildContext {
        props,
        expanded: &expanded,
        explorer_filter: None,
        git_decorations: decorations,
        path_styles,
        nerd_icons: &icons,
        root_label: &root_label,
    };
    let mut lookup: Vec<(Vec<usize>, VisibleFileTreeEntry)> = Vec::new();
    build_projected_tree_node(node, false, tree_path, &ctx, &mut lookup)
}

fn test_root() -> FsNode {
    let mut src = leaf("src", "/repo/src", FileKind::Directory);
    src.children.push(main_rs());
    let mut repo = leaf("repo", "/repo", FileKind::Directory);
    repo.children.push(src);
    repo
}

fn test_state_with_root(root: FsNode) -> FileTreeState {
    FileTreeState {
        root,
        root_virtual: false,
        expanded: vec!["/repo".to_string(), "/repo/src".to_string()],
        git_snapshot: GitStatusSnapshot {
            entries: PathMap::new(),
            changed_paths: Vec::new(),
            kinds: PathMap::new(),
            virtual_changes: false,
        },
        git_load_generation: 0,
        last_git_refresh_nonce: 0,
        changed_only_auto_expand_signature: 0,
        explorer_text: String::new(),
        explorer_cursor: 0,
        explorer_anchor: 0,
        explorer_query_id: 0,
        explorer_filter: ExplorerFilter::default(),
        search_expanded_snapshot: None,
        search_found_dir: None,
    }
}

fn inputs() -> ProjectionInputs {
    ProjectionInputs {
        nerd_icons: PathMap::new(),
        root_label: "/repo".to_string(),
        canonical: PathMap::new(),
        probed: PathMap::new(),
    }
}

#[test]
fn changed_label_styling_is_disabled_by_default() {
    let props = FileTree::new("/repo").show_icons(false).props;
    let mut decorations = PathMap::new();
    decorations.insert("/repo/src/main.rs".to_string(), modified());

    let tree = project(&props, &main_rs(), Vec::new(), &decorations, &PathMap::new());

    assert_eq!(tree.item.spans[0].content, "main.rs");
    assert_eq!(tree.item.spans[0].style, Style::new());
    assert_eq!(tree.item.description_spans[1].style, props.git_style_modified);
}

#[test]
fn nerd_font_directory_icon_override_reserves_arrow_gutter() {
    let props = FileTree::new("/repo")
        .icon_style(FileIconStyle::NerdFont)
        .indent_style(IndentStyle::Long)
        .icon_override("src", "★", None)
        .props;
    let node = leaf("src", "/repo/src", FileKind::Directory);

    let tree = project(&props, &node, vec![0], &PathMap::new(), &PathMap::new());

    assert_eq!(tree.leading_guide_fill_cells, 2);
    assert_eq!(tree.item.spans[0].content, "★");
    assert_eq!(tree.item.spans[1].content, " ");
    assert_eq!(tree.item.spans[2].content, "src");
}

#[test]
fn changed_label_styling_can_be_enabled() {
    let props = FileTree::new("/repo").show_icons(false).highlight_changed_labels(true).props;
    let mut decorations = PathMap::new();
    decorations.insert("/repo/src/main.rs".to_string(), modified());

    let tree = project(&props, &main_rs(), Vec::new(), &decorations, &PathMap::new());

    assert_eq!(tree.item.spans[0].content, "main.rs");
    assert_eq!(tree.item.spans[0].style, props.git_style_modified);
}

#[test]
fn directory_and_file_label_styles_are_applied_separately() {
    let directory_style = Style::new().fg(Color::Blue).bold();
    let file_style = Style::new().fg(Color::Green);
    let props = FileTree::new("/repo")
        .show_icons(false)
        .directory_label_style(directory_style)
        .file_label_style(file_style)
        .props;
    let directory = leaf("src", "/repo/src", FileKind::Directory);

    let directory_tree = project(&props, &directory, vec![0], &PathMap::new(), &PathMap::new());
    let file_tree = project(&props, &main_rs(), vec![1], &PathMap::new(), &PathMap::new());

    assert_eq!(directory_tree.item.spans[0].content, "src");
    assert_eq!(directory_tree.item.spans[0].style, directory_style);
    assert_eq!(file_tree.item.spans[0].content, "main.rs");
    assert_eq!(file_tree.item.spans[0].style, file_style);
}

#[test]
fn changed_label_style_patches_over_file_label_style_when_enabled() {
    let file_style = Style::new().fg(Color::Green).italic();
    let props =
        FileTree::new("/repo").show_icons(false).file_label_style(file_style).highlight_changed_labels(true).props;
    let mut decorations = PathMap::new();
    decorations.insert("/repo/src/main.rs".to_string(), modified());

    let tree = project(&props, &main_rs(), Vec::new(), &decorations, &PathMap::new());

    assert_eq!(tree.item.spans[0].style, file_style.patch(props.git_style_modified));
}

#[test]
fn path_label_style_affects_label_not_icon_or_suffix() {
    let label_style = Style::new().fg(Color::Green).bold();
    let props = FileTree::new("/repo")
        .path_style("src/main.rs", FileTreeItemStyle::new().label(label_style))
        .git_icon_style(GitIconStyle::Text)
        .props;
    let mut decorations = PathMap::new();
    decorations.insert("/repo/src/main.rs".to_string(), modified());
    let path_styles = resolved_path_styles(&props.path_styles, "/repo", &PathMap::new());

    let tree = project(&props, &main_rs(), Vec::new(), &decorations, &path_styles);

    assert_eq!(tree.item.spans[0].content, "[F]");
    assert_eq!(tree.item.spans[0].style, Style::new());
    assert_eq!(tree.item.spans[2].content, "main.rs");
    assert_eq!(tree.item.spans[2].style, label_style);
    assert_eq!(tree.item.description_spans[1].style, props.git_style_modified);
}

#[test]
fn suffix_only_path_style_patches_only_description_spans() {
    let suffix_style = Style::new().dim();
    let props = FileTree::new("/repo")
        .path_style("src/main.rs", FileTreeItemStyle::new().suffix(suffix_style))
        .git_icon_style(GitIconStyle::Text)
        .show_diff_stats(true)
        .props;
    let mut decorations = PathMap::new();
    decorations.insert(
        "/repo/src/main.rs".to_string(),
        GitFileDecorations {
            status: GitFileStatus::new(None, Some(GitChangeState::Modified)),
            diff_stat: Some(GitDiffStat::new(30, 21)),
            direct: true,
        },
    );
    let path_styles = resolved_path_styles(&props.path_styles, "/repo", &PathMap::new());

    let tree = project(&props, &main_rs(), Vec::new(), &decorations, &path_styles);

    assert_eq!(tree.item.spans[0].style, Style::new());
    assert_eq!(tree.item.spans[2].style, Style::new());
    assert!(tree.item.description_spans.iter().all(|span| span.style.dim));
    assert_eq!(tree.item.description_spans[1].style.fg, props.git_style_modified.fg);
    assert_eq!(tree.item.description_spans[3].style.fg, props.git_style_added.fg);
    assert_eq!(tree.item.description_spans[5].style.fg, props.git_style_deleted.fg);
}

#[test]
fn global_suffix_style_patches_git_markers_and_diff_stats() {
    let suffix_style = Style::new().dim();
    let props = FileTree::new("/repo")
        .git_icon_style(GitIconStyle::Text)
        .show_diff_stats(true)
        .change_suffix_style(suffix_style)
        .props;
    let decoration = GitFileDecorations {
        status: GitFileStatus::new(None, Some(GitChangeState::Modified)),
        diff_stat: Some(GitDiffStat::new(30, 21)),
        direct: true,
    };
    let mut spans = git_description_spans(Some(decoration), &props, false, false);

    apply_suffix_style(&mut spans, props.change_suffix_style, None);

    assert_eq!(spans.iter().map(|span| span.content.as_str()).collect::<Vec<_>>(), vec![
        " ", "M", " ", "+30", " ", "-21"
    ]);
    assert!(spans.iter().all(|span| span.style.dim));
    assert_eq!(spans[1].style.fg, props.git_style_modified.fg);
    assert_eq!(spans[3].style.fg, props.git_style_added.fg);
    assert_eq!(spans[5].style.fg, props.git_style_deleted.fg);
}

#[test]
fn suffix_priority_defaults_to_label_priority() {
    let props = FileTree::new("/repo").show_icons(false).props;

    let tree = project(&props, &main_rs(), Vec::new(), &PathMap::new(), &PathMap::new());

    assert!(tree.item.primary_truncate_description_first);
}

#[test]
fn suffix_priority_can_preserve_suffix_over_label() {
    let props =
        FileTree::new("/repo").show_icons(false).change_suffix_priority(FileTreeSuffixPriority::Suffix).props;

    let tree = project(&props, &main_rs(), Vec::new(), &PathMap::new(), &PathMap::new());

    assert!(!tree.item.primary_truncate_description_first);
}

#[test]
fn path_styles_resolve_relative_and_absolute_under_effective_root() {
    let item_style = FileTreeItemStyle::new().row(Style::new().bg(Color::Blue));
    let mut styles = PathMap::new();
    styles.insert("src/main.rs".to_string(), item_style);
    styles.insert("/repo/src/lib.rs".to_string(), item_style.label(Style::new().fg(Color::Green)));
    styles.insert("../escape.rs".to_string(), item_style.icon(Style::new().fg(Color::Red)));

    let resolved = resolved_path_styles(&styles, "/repo", &PathMap::new());

    assert!(resolved.get("/repo/src/main.rs").is_some());
    assert!(resolved.get("/repo/src/lib.rs").is_some());
    assert!(resolved.get("/escape.rs").is_none());
}

#[test]
fn changed_only_projection_lookup_uses_displayed_paths() {
    let mut props = FileTree::new("/repo").git_changed_only(true).show_icons(false).props;
    props.git_status = false;
    let mut state = test_state_with_root(leaf("repo", "/repo", FileKind::Directory));
    state.git_snapshot.changed_paths = vec!["/repo/src/main.rs".to_string()];

    let projection = build_projection(&props, &state, None, &inputs());

    assert_eq!(projection.root.children.len(), 1);
    assert_eq!(projection.root.children[0].children.len(), 1);
    assert_eq!(
        projection.lookup.iter().find(|(path, _)| *path == vec![0, 0]).map(|(_, entry)| entry.path.as_str()),
        Some("/repo/src/main.rs")
    );
}

#[test]
fn selected_path_maps_to_visible_row_index() {
    let props = FileTree::new("/repo").show_icons(false).selected_path("src/main.rs").props;
    let state = test_state_with_root(test_root());

    let projection = build_projection(&props, &state, None, &inputs());

    assert_eq!(selected_visible_index_by_path(&props, &state, &projection, &PathMap::new()), Some(2));
}

#[test]
fn selected_path_hidden_by_projection_is_noop() {
    let props = FileTree::new("/repo").show_icons(false).selected_path("src/main.rs").props;
    let mut state = test_state_with_root(test_root());
    state.expanded.retain(|p| p != "/repo/src");

    let projection = build_projection(&props, &state, None, &inputs());

    assert_eq!(selected_visible_index_by_path(&props, &state, &projection, &PathMap::new()), None);
}

#[test]
fn root_row_uses_the_root_label_and_placeholders_fill_unloaded_directories() {
    let props = FileTree::new("/repo").show_icons(false).props;
    let mut root = test_root();
    root.children[0].loaded = false;
    let state = test_state_with_root(root);
    let mut inputs = inputs();
    inputs.root_label = "~/repo".to_string();

    let projection = build_projection(&props, &state, None, &inputs);

    assert_eq!(projection.root.item.spans[0].content, "~/repo");
    assert!(projection.root.expanded);
    let src = &projection.root.children[0];
    assert_eq!(src.children.len(), 1);
    assert_eq!(src.children[0].item.spans[0].content, " ");
    assert_eq!(projection.path_to_visible_index.get("/repo/src"), Some(1));
}

#[test]
fn explorer_filter_hides_rows_and_highlights_matches() {
    let props = FileTree::new("/repo").show_icons(false).props;
    let mut root = test_root();
    root.children[0].children.push(leaf("lib.rs", "/repo/src/lib.rs", FileKind::File));
    let state = test_state_with_root(root);
    let mut hits = PathMap::new();
    hits.insert("/repo/src/lib.rs".to_string(), vec![0u32]);
    let filter = ExplorerFilter {
        visible_paths: vec!["/repo/src".to_string(), "/repo/src/lib.rs".to_string()],
        expanded_paths: Vec::new(),
        label_hits: hits,
        primary_match_directory: None,
        match_count: 1,
    };

    let projection = build_projection(&props, &state, Some(&filter), &inputs());

    let src = &projection.root.children[0];
    assert_eq!(src.children.len(), 1);
    let lib = &src.children[0];
    assert_eq!(lib.item.spans[0].content, "l");
    assert_eq!(lib.item.spans[0].style, props.file_label_style.patch(props.explorer_match_style));
    assert_eq!(lib.item.spans[1].content, "ib.rs");
    assert_eq!(projection.path_to_visible_index.get("/repo/src/lib.rs"), Some(2));
    assert_eq!(projection.path_to_visible_index.get("/repo/src/main.rs"), None);
}

#[test]
fn loading_and_error_directories_show_a_single_placeholder() {
    let props = FileTree::new("/repo").show_icons(false).props;
    let mut dir = leaf("src", "/repo/src", FileKind::Directory);
    dir.loading = true;
    let tree = project(&props, &dir, vec![0], &PathMap::new(), &PathMap::new());
    assert_eq!(tree.children.len(), 1);
    assert_eq!(tree.children[0].item.spans[0].content, props.loading_label);

    let mut broken = leaf("src", "/repo/src", FileKind::Directory);
    broken.error = Some("denied".to_string());
    let tree = project(&props, &broken, vec![0], &PathMap::new(), &PathMap::new());
    assert_eq!(tree.children[0].item.spans[0].content, format!("{} denied", props.error_prefix));

}
