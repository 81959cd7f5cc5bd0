use tui_lipan::file_icon::{IconSpan, NerdIcon};
use tui_lipan::file_tree::{
    FileIconStyle, FileKind, FileTree, FileTreeChange, FileTreeChangeSource, FileTreeChangeStatus,
    FileTreeChangeView, FileTreeGitView, FileTreeItemStyle, FileTreeSuffixPriority,
};
use tui_lipan::style::{Color, Style};

#[test]
fn git_view_builders_update_props() {
    let tree = FileTree::new(".").git_changed_only(true).git_diff_stats(true);

    assert_eq!(tree.props.change_view, FileTreeChangeView::ChangedOnly);
    assert!(tree.props.git_diff_stats);

    let tree = tree.git_changed_only(false);
    assert_eq!(tree.props.change_view, FileTreeChangeView::AllFiles);
}

#[test]
fn highlight_changed_labels_builder_updates_props() {
    let tree = FileTree::new(".").highlight_changed_labels(true);

    assert!(tree.props.highlight_changed_labels);

    let tree = tree.highlight_changed_labels(false);
    assert!(!tree.props.highlight_changed_labels);
}

#[test]
fn label_style_builders_update_props() {
    let directory_style = Style::new().fg(Color::Blue).bold();
    let file_style = Style::new().fg(Color::Green);

    let tree = FileTree::new(".").directory_label_style(directory_style).file_label_style(file_style);

    assert_eq!(tree.props.directory_label_style, directory_style);
    assert_eq!(tree.props.file_label_style, file_style);
}

#[test]
fn item_style_builders_store_optional_styles() {
    let row = Style::new().bg(Color::Blue);
    let icon = Style::new().fg(Color::Cyan);
    let label = Style::new().fg(Color::Green).bold();
    let suffix = Style::new().dim();

    let style = FileTreeItemStyle::new().row(row).icon(icon).label(label).suffix(suffix);

    assert_eq!(style.row, Some(row));
    assert_eq!(style.icon, Some(icon));
    assert_eq!(style.label, Some(label));
    assert_eq!(style.suffix, Some(suffix));
}

#[test]
fn path_and_suffix_style_builders_update_props() {
    let item_style = FileTreeItemStyle::new().label(Style::new().fg(Color::Green));
    let suffix_style = Style::new().dim();
    let tree = FileTree::new("/repo")
        .path_style("src/main.rs", item_style)
        .path_styles(vec![("src/lib.rs".to_string(), item_style.suffix(suffix_style))])
        .change_suffix_style(suffix_style)
        .change_suffix_priority(FileTreeSuffixPriority::Suffix);

    assert_eq!(tree.props.path_styles.get("src/main.rs"), Some(item_style));
    assert_eq!(tree.props.change_suffix_style, suffix_style);
    assert_eq!(tree.props.change_suffix_priority, FileTreeSuffixPriority::Suffix);

    let tree = tree.git_suffix_style(Style::new().italic()).git_suffix_priority(FileTreeSuffixPriority::Label);
    assert_eq!(tree.props.change_suffix_style, Style::new().italic());
    assert_eq!(tree.props.change_suffix_priority, FileTreeSuffixPriority::Label);
}

#[test]
fn crate_root_export_compiles() {
    let _: FileTreeItemStyle = FileTreeItemStyle::new();
    let _: FileTreeSuffixPriority = FileTreeSuffixPriority::Suffix;
}

#[test]
fn change_view_builders_update_source_agnostic_props() {
    let changes = vec![FileTreeChange::new("src/main.rs", FileTreeChangeStatus::Modified)];
    let tree = FileTree::new("/repo")
        .change_source(FileTreeChangeSource::Provided(changes.clone()))
        .change_view(FileTreeChangeView::ChangedOnly)
        .show_diff_stats(true);

    assert_eq!(tree.props.change_source, FileTreeChangeSource::Provided(changes));
    assert_eq!(tree.props.change_view, FileTreeChangeView::ChangedOnly);
    assert!(tree.props.git_diff_stats);
}

#[test]
fn controlled_tree_state_builders_update_props() {
    let tree = FileTree::new("/repo")
        .selected(3)
        .selected_path("src/main.rs")
        .reveal_path("src")
        .select_path("tests/tree.rs")
        .force_scroll_to_selected(true)
        .expanded_paths(vec!["/repo/src".to_string(), "/repo/tests".to_string()]);

    assert_eq!(tree.props.selected, Some(3));
    assert_eq!(tree.props.selected_path.as_deref(), Some("src/main.rs"));
    assert_eq!(tree.props.reveal_path.as_deref(), Some("src"));
    assert_eq!(tree.props.select_path.as_deref(), Some("tests/tree.rs"));
    assert!(tree.props.force_scroll_to_selected);
    assert_eq!(tree.props.expanded_paths, Some(vec!["/repo/src".to_string(), "/repo/tests".to_string()]));
}

#[test]
fn crate_root_exports_file_tree_change_api() {
    let _tree: FileTree = FileTree::new("/repo");
    let change = FileTreeChange::new("src/main.rs", FileTreeChangeStatus::Modified);
    let _source = FileTreeChangeSource::provided(vec![change]);
    let _view: FileTreeChangeView = FileTreeGitView::ChangedOnly;
    let _kind: FileKind = FileKind::File;
}

#[test]
fn max_entries_per_dir_is_at_least_one() {
    assert_eq!(FileTree::new(".").max_entries_per_dir(0).props.max_entries_per_dir, 1);
    assert_eq!(FileTree::new(".").max_entries_per_dir(7).props.max_entries_per_dir, 7);
}

fn nerd(glyph: &str, color: Option<Color>) -> NerdIcon {
    NerdIcon { glyph: glyph.to_string(), color }
}

#[test]
fn text_icons_follow_the_entry_kind() {
    let tree = FileTree::new("/repo");
    let n = nerd("x", None);
    let dir = FileKind::Directory.icon("/repo/src", false, false, &tree.props, &n);
    assert_eq!(dir, IconSpan { text: "[D]".to_string(), fg: None });
    let file = FileKind::File.icon("/repo/a.rs", false, false, &tree.props, &n);
    assert_eq!(file.text, "[F]");
    let link = FileKind::Symlink.icon("/repo/l", false, false, &tree.props, &n);
    assert_eq!(link.text, "[L]");
    let other = FileKind::Other.icon("/repo/o", false, false, &tree.props, &n);
    assert_eq!(other.text, "[?]");
}

#[test]
fn overrides_match_the_file_name_then_the_extension() {
    let tree = FileTree::new("/repo")
        .icon_override("Cargo.toml", "C", Some(Color::Red))
        .icon_override("rs", "R", None);
    let n = nerd("x", Some(Color::Blue));
    let by_name = FileKind::File.icon("/repo/Cargo.toml", false, false, &tree.props, &n);
    assert_eq!(by_name, IconSpan { text: "C".to_string(), fg: Some(Color::Red) });
    let by_ext = FileKind::File.icon("/repo/src/main.rs", false, false, &tree.props, &n);
    assert_eq!(by_ext, IconSpan { text: "R".to_string(), fg: None });
    // Directories are matched by name only.
    let dir = FileKind::Directory.icon("/repo/rs", false, false, &tree.props, &n);
    assert_eq!(dir.text, "R");
    let dir = FileKind::Directory.icon("/repo/x.rs", false, false, &tree.props, &n);
    assert_eq!(dir.text, "[D]");
}

#[test]
fn nerd_font_directories_carry_an_arrow_unless_root() {
    let tree = FileTree::new("/repo").icon_style(FileIconStyle::NerdFontColored);
    let n = nerd("F", Some(Color::Yellow));
    let open = FileKind::Directory.icon("/repo/src", true, false, &tree.props, &n);
    assert_eq!(open, IconSpan { text: "\u{f47c} F".to_string(), fg: Some(Color::Yellow) });
    let closed = FileKind::Directory.icon("/repo/src", false, false, &tree.props, &n);
    assert_eq!(closed.text, "\u{f460} F");
    let root = FileKind::Directory.icon("/repo", true, true, &tree.props, &n);
    assert_eq!(root.text, "F");
    let plain = FileTree::new("/repo").icon_style(FileIconStyle::NerdFont);
    let uncoloured = FileKind::Symlink.icon("/repo/l", false, false, &plain.props, &n);
    assert_eq!(uncoloured, IconSpan { text: "\u{f0054}".to_string(), fg: None });
}
