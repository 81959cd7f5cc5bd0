//! The file tree widget's configuration: what it shows, how it styles rows,
//! and where its change decorations come from.

use vstd::prelude::*;

use crate::git::{GitChangeState, GitFileStatus, GitIconStyle, PathMap, spec_lookup};
use crate::style::{BorderStyle, Color, Length, Padding, Style};

verus! {

/// Icon style for file tree items.
#[derive(Clone, Copy, Debug, PartialEq, Eq, Structural, Hash)]
pub enum FileIconStyle {
    /// Text labels with bracketed prefixes.
    Text,
    /// Nerd-font icons without colours.
    NerdFont,
    /// Nerd-font icons with colours.
    NerdFontColored,
}

/// Kind of a file-system entry.
#[derive(Clone, Copy, Debug, PartialEq, Eq, Structural, Hash)]
pub enum FileKind {
    Directory,
    File,
    Symlink,
    Other,
}

/// A path was selected or activated.
#[derive(Clone, Debug, PartialEq, Eq)]
pub struct FileTreeEvent {
    pub path: String,
    pub kind: FileKind,
}

/// A directory was expanded or collapsed.
#[derive(Clone, Debug, PartialEq, Eq)]
pub struct FileTreeToggleEvent {
    pub path: String,
    pub kind: FileKind,
    pub expanded: bool,
}

/// Indentation guides drawn in front of nested rows.
#[derive(Clone, Copy, Debug, PartialEq, Eq, Structural, Hash)]
pub enum IndentStyle {
    /// No guides: nested rows are indented with blanks only.
    Flat,
    /// Continuous guide lines down each level.
    Long,
}

/// Where a style comes from: the theme, a replacement, or the theme extended.
#[derive(Clone, Copy, Debug, PartialEq, Eq, Structural, Hash)]
pub enum StyleSlot {
    Inherit,
    Replace(Style),
    Extend(Style),
}

impl StyleSlot {
    /// The style the slot names itself, if it names one.
    pub fn explicit_style(&self) -> (r: Option<Style>)
        ensures
            r == (match *self {
                StyleSlot::Inherit => None,
                StyleSlot::Replace(s) => Some(s),
                StyleSlot::Extend(s) => Some(s),
            }),
    {
        match *self {
            StyleSlot::Inherit => None,
            StyleSlot::Replace(s) => Some(s),
            StyleSlot::Extend(s) => Some(s),
        }
    }
}

/// An icon (and colour) used for entries whose name or extension matches.
#[derive(Clone, Debug, PartialEq, Eq)]
pub struct FileIconOverride {
    pub icon: String,
    pub color: Option<Color>,
}

/// Optional style decorations for an exact path.
#[derive(Clone, Copy, Debug, PartialEq, Eq, Structural, Hash)]
pub struct FileTreeItemStyle {
    pub row: Option<Style>,
    pub icon: Option<Style>,
    pub label: Option<Style>,
    pub suffix: Option<Style>,
}

impl FileTreeItemStyle {
    /// No decorations.
    pub fn new() -> (r: Self)
        ensures
            r == (FileTreeItemStyle { row: None, icon: None, label: None, suffix: None }),
    {
        FileTreeItemStyle { row: None, icon: None, label: None, suffix: None }
    }

    /// Sets the full-row style.
    pub fn row(self, style: Style) -> (r: Self)
        ensures
            r == (FileTreeItemStyle { row: Some(style), ..self }),
    {
        FileTreeItemStyle { row: Some(style), ..self }
    }

    /// Sets the icon style patch.
    pub fn icon(self, style: Style) -> (r: Self)
        ensures
            r == (FileTreeItemStyle { icon: Some(style), ..self }),
    {
        FileTreeItemStyle { icon: Some(style), ..self }
    }

    /// Sets the label style patch.
    pub fn label(self, style: Style) -> (r: Self)
        ensures
            r == (FileTreeItemStyle { label: Some(style), ..self }),
    {
        FileTreeItemStyle { label: Some(style), ..self }
    }

    /// Sets the change-metadata style patch.
    pub fn suffix(self, style: Style) -> (r: Self)
        ensures
            r == (FileTreeItemStyle { suffix: Some(style), ..self }),
    {
        FileTreeItemStyle { suffix: Some(style), ..self }
    }
}

/// What truncates first when a row is too narrow.
#[derive(Clone, Copy, Debug, PartialEq, Eq, Structural, Hash)]
pub enum FileTreeSuffixPriority {
    /// Keep the label; truncate change metadata first.
    Label,
    /// Keep change metadata; truncate the label first.
    Suffix,
}

/// Which paths are shown.
#[derive(Clone, Copy, Debug, PartialEq, Eq, Structural, Hash)]
pub enum FileTreeChangeView {
    /// Everything under the root.
    AllFiles,
    /// Only changed paths and the directories that group them.
    ChangedOnly,
}

/// Status of a changed path reported by the application.
#[derive(Clone, Copy, Debug, PartialEq, Eq, Structural, Hash)]
pub enum FileTreeChangeStatus {
    Modified,
    Added,
    Deleted,
    Renamed,
    Untracked,
    Conflicted,
}

impl GitChangeState {
    /// The change state a reported status stands for.
    pub fn from_change_status(status: FileTreeChangeStatus) -> (r: Self)
        ensures
            r == (match status {
                FileTreeChangeStatus::Modified => GitChangeState::Modified,
                FileTreeChangeStatus::Added => GitChangeState::Added,
                FileTreeChangeStatus::Deleted => GitChangeState::Deleted,
                FileTreeChangeStatus::Renamed => GitChangeState::Renamed,
                FileTreeChangeStatus::Untracked => GitChangeState::Untracked,
                FileTreeChangeStatus::Conflicted => GitChangeState::Conflicted,
            }),
    {
        match status {
            FileTreeChangeStatus::Modified => GitChangeState::Modified,
            FileTreeChangeStatus::Added => GitChangeState::Added,
            FileTreeChangeStatus::Deleted => GitChangeState::Deleted,
            FileTreeChangeStatus::Renamed => GitChangeState::Renamed,
            FileTreeChangeStatus::Untracked => GitChangeState::Untracked,
            FileTreeChangeStatus::Conflicted => GitChangeState::Conflicted,
        }
    }
}

/// A changed path reported by the application.
#[derive(Clone, Debug, PartialEq, Eq)]
pub struct FileTreeChange {
    pub path: String,
    pub status: FileTreeChangeStatus,
    pub kind: Option<FileKind>,
    pub additions: usize,
    pub deletions: usize,
    pub staged: bool,
}

impl FileTreeChange {
    /// An unstaged change of `path` without line counts.
    pub fn new(path: &str, status: FileTreeChangeStatus) -> (r: Self)
        ensures
            r.path@ == path@,
            r.status == status,
            r.kind is None,
            r.additions == 0 && r.deletions == 0,
            !r.staged,
    {
        FileTreeChange { path: String::from_str(path), status, kind: None, additions: 0, deletions: 0, staged: false }
    }

    /// Sets the kind of the changed path.
    pub fn kind(self, kind: FileKind) -> (r: Self)
        ensures
            r == (FileTreeChange { kind: Some(kind), ..self }),
    {
        FileTreeChange { kind: Some(kind), ..self }
    }

    /// Sets both line counts.
    pub fn diff_stat(self, additions: usize, deletions: usize) -> (r: Self)
        ensures
            r == (FileTreeChange { additions, deletions, ..self }),
    {
        FileTreeChange { additions, deletions, ..self }
    }

    /// Sets the added-line count.
    pub fn additions(self, additions: usize) -> (r: Self)
        ensures
            r == (FileTreeChange { additions, ..self }),
    {
        FileTreeChange { additions, ..self }
    }

    /// Sets the deleted-line count.
    pub fn deletions(self, deletions: usize) -> (r: Self)
        ensures
            r == (FileTreeChange { deletions, ..self }),
    {
        FileTreeChange { deletions, ..self }
    }

    /// Marks the change staged or unstaged.
    pub fn staged(self, staged: bool) -> (r: Self)
        ensures
            r == (FileTreeChange { staged, ..self }),
    {
        FileTreeChange { staged, ..self }
    }
}

/// The change display mode under its older name.
pub type FileTreeGitView = FileTreeChangeView;

/// Where change decorations come from.
#[derive(Clone, Debug, PartialEq, Eq)]
pub enum FileTreeChangeSource {
    /// The local Git repository containing the root.
    Git,
    /// A change set the application provides.
    Provided(Vec<FileTreeChange>),
}

impl FileTreeChangeSource {
    /// A provided change set.
    pub fn provided(changes: Vec<FileTreeChange>) -> (r: Self)
        ensures
            r == FileTreeChangeSource::Provided(changes),
    {
        FileTreeChangeSource::Provided(changes)
    }
}

/// Everything a file tree is configured with.
#[derive(Clone)]
pub struct FileTreeProps {
    pub root: String,
    pub show_hidden: bool,
    pub max_entries_per_dir: usize,
    pub show_icons: bool,
    pub icon_style: FileIconStyle,
    pub icon_overrides: PathMap<FileIconOverride>,
    pub show_arrows: bool,
    pub indent_style: IndentStyle,
    pub indent_guide_style: Style,
    pub directory_icon: String,
    pub opened_directory_icon: String,
    pub file_icon: String,
    pub symlink_icon: String,
    pub other_icon: String,
    pub directory_label_style: Style,
    pub file_label_style: Style,
    pub loading_label: String,
    pub error_prefix: String,
    pub width: Length,
    pub height: Length,
    pub style: Style,
    pub hover_style: StyleSlot,
    pub item_hover_style: StyleSlot,
    pub selection_style: StyleSlot,
    pub unfocused_selection_style: StyleSlot,
    pub selected: Option<usize>,
    pub selected_path: Option<String>,
    pub reveal_path: Option<String>,
    pub select_path: Option<String>,
    pub force_scroll_to_selected: bool,
    pub expanded_paths: Option<Vec<String>>,
    pub selection_symbol: Option<String>,
    pub selection_symbol_style: Option<Style>,
    pub unfocused_selection_symbol_style: Option<Style>,
    pub scrollbar: bool,
    pub scroll_wheel: bool,
    pub show_scroll_indicators: bool,
    pub scroll_indicator_style: Style,
    pub empty_text: Option<String>,
    pub empty_text_style: Style,
    pub explorer: bool,
    pub explorer_placeholder: String,
    pub explorer_prefix: String,
    pub explorer_input_border: bool,
    pub explorer_input_border_style: BorderStyle,
    pub explorer_input_padding: Padding,
    pub explorer_input_style: Style,
    pub explorer_input_focus_style: StyleSlot,
    pub explorer_input_focus_content_style: Style,
    pub explorer_placeholder_style: Style,
    pub explorer_focus_placeholder_style: Style,
    pub explorer_match_style: Style,
    pub explorer_divider: bool,
    pub explorer_divider_join_frame: bool,
    pub explorer_divider_char: char,
    pub explorer_divider_style: Style,
    pub activate_on_click: bool,
    pub focusable: bool,
    pub tab_stop: bool,
    pub git_status: bool,
    pub highlight_changed_labels: bool,
    pub change_source: FileTreeChangeSource,
    pub change_view: FileTreeChangeView,
    pub git_diff_stats: bool,
    pub git_icon_style: GitIconStyle,
    pub git_refresh_nonce: u64,
    pub git_marker_modified: String,
    pub git_marker_added: String,
    pub git_marker_deleted: String,
    pub git_marker_renamed: String,
    pub git_marker_untracked: String,
    pub git_marker_conflicted: String,
    pub git_style_modified: Style,
    pub git_style_added: Style,
    pub git_style_deleted: Style,
    pub git_style_renamed: Style,
    pub git_style_untracked: Style,
    pub git_style_conflicted: Style,
    pub change_suffix_style: Style,
    pub change_suffix_priority: FileTreeSuffixPriority,
    pub path_styles: PathMap<FileTreeItemStyle>,
}

/// A lazily loading file explorer tree.
#[derive(Clone)]
pub struct FileTree {
    pub props: FileTreeProps,
}

impl FileTree {
    /// A tree rooted at `root` with the default configuration.
    pub fn new(root: &str) -> (r: Self)
        ensures
            r.props.root@ == root@,
            r.props.show_hidden == false,
            r.props.max_entries_per_dir == 2000,
            r.props.show_icons == true,
            r.props.icon_style == FileIconStyle::Text,
            r.props.show_arrows == true,
            r.props.indent_style == IndentStyle::Flat,
            r.props.indent_guide_style == Style::empty(),
            r.props.directory_icon@ == "[D]"@,
            r.props.opened_directory_icon@ == "[D]"@,
            r.props.file_icon@ == "[F]"@,
            r.props.symlink_icon@ == "[L]"@,
            r.props.other_icon@ == "[?]"@,
            r.props.directory_label_style == Style::empty(),
            r.props.file_label_style == Style::empty(),
            r.props.loading_label@ == "loading..."@,
            r.props.error_prefix@ == "error:"@,
            r.props.width == Length::Flex(1),
            r.props.height == Length::Flex(1),
            r.props.style == Style::empty(),
            r.props.hover_style == StyleSlot::Inherit,
            r.props.item_hover_style == StyleSlot::Inherit,
            r.props.selection_style == StyleSlot::Inherit,
            r.props.unfocused_selection_style == StyleSlot::Inherit,
            r.props.selected is None,
            r.props.force_scroll_to_selected == false,
            r.props.selection_symbol_style is None,
            r.props.unfocused_selection_symbol_style is None,
            r.props.scrollbar == true,
            r.props.scroll_wheel == true,
            r.props.show_scroll_indicators == false,
            r.props.scroll_indicator_style == Style::empty(),
            r.props.empty_text_style == Style::empty(),
            r.props.explorer == false,
            r.props.explorer_placeholder@ == "Find files..."@,
            r.props.explorer_prefix@ == "\u{f002} "@,
            r.props.explorer_input_border == false,
            r.props.explorer_input_border_style == BorderStyle::Plain,
            r.props.explorer_input_padding == (Padding { top: 0, right: 0, bottom: 0, left: 1 }),
            r.props.explorer_input_style == Style::empty(),
            r.props.explorer_input_focus_style == StyleSlot::Inherit,
            r.props.explorer_input_focus_content_style == Style::empty(),
            r.props.explorer_placeholder_style == Style::empty(),
            r.props.explorer_focus_placeholder_style == Style::empty(),
            r.props.explorer_match_style == Style::empty(),
            r.props.explorer_divider == true,
            r.props.explorer_divider_join_frame == true,
            r.props.explorer_divider_char == '\u{2500}',
            r.props.explorer_divider_style == Style::empty(),
            r.props.activate_on_click == true,
            r.props.focusable == true,
            r.props.tab_stop == true,
            r.props.git_status == true,
            r.props.highlight_changed_labels == false,
            r.props.change_view == FileTreeChangeView::AllFiles,
            r.props.git_diff_stats == false,
            r.props.git_icon_style == GitIconStyle::NerdFont,
            r.props.git_refresh_nonce == 0,
            r.props.git_marker_modified@ == "M"@,
            r.props.git_marker_added@ == "A"@,
            r.props.git_marker_deleted@ == "D"@,
            r.props.git_marker_renamed@ == "R"@,
            r.props.git_marker_untracked@ == "?"@,
            r.props.git_marker_conflicted@ == "!"@,
            r.props.git_style_modified == Style::empty(),
            r.props.git_style_added == Style::empty(),
            r.props.git_style_deleted == Style::empty(),
            r.props.git_style_renamed == Style::empty(),
            r.props.git_style_untracked == Style::empty(),
            r.props.git_style_conflicted == Style::empty(),
            r.props.change_suffix_style == Style::empty(),
            r.props.change_suffix_priority == FileTreeSuffixPriority::Label,
            r.props.selected_path is None,
            r.props.reveal_path is None,
            r.props.select_path is None,
            r.props.selection_symbol is None,
            r.props.expanded_paths is None,
            r.props.empty_text matches Some(t) && t@ == "Directory is empty"@,
            r.props.change_source is Git,
            forall|k: Seq<char>| spec_lookup(r.props.path_styles.entries@, k) is None,
            forall|k: Seq<char>| spec_lookup(r.props.icon_overrides.entries@, k) is None,
    {
        FileTree {
            props: FileTreeProps {
                root: String::from_str(root),
                show_hidden: false,
                max_entries_per_dir: 2000,
                show_icons: true,
                icon_style: FileIconStyle::Text,
                icon_overrides: PathMap::new(),
                show_arrows: true,
                indent_style: IndentStyle::Flat,
                indent_guide_style: Style::new(),
                directory_icon: String::from_str("[D]"),
                opened_directory_icon: String::from_str("[D]"),
                file_icon: String::from_str("[F]"),
                symlink_icon: String::from_str("[L]"),
                other_icon: String::from_str("[?]"),
                directory_label_style: Style::new(),
                file_label_style: Style::new(),
                loading_label: String::from_str("loading..."),
                error_prefix: String::from_str("error:"),
                width: Length::Flex(1),
                height: Length::Flex(1),
                style: Style::new(),
                hover_style: StyleSlot::Inherit,
                item_hover_style: StyleSlot::Inherit,
                selection_style: StyleSlot::Inherit,
                unfocused_selection_style: StyleSlot::Inherit,
                selected: None,
                selected_path: None,
                reveal_path: None,
                select_path: None,
                force_scroll_to_selected: false,
                expanded_paths: None,
                selection_symbol: None,
                selection_symbol_style: None,
                unfocused_selection_symbol_style: None,
                scrollbar: true,
                scroll_wheel: true,
                show_scroll_indicators: false,
                scroll_indicator_style: Style::new(),
                empty_text: Some(String::from_str("Directory is empty")),
                empty_text_style: Style::new(),
                explorer: false,
                explorer_placeholder: String::from_str("Find files..."),
                explorer_prefix: String::from_str("\u{f002} "),
                explorer_input_border: false,
                explorer_input_border_style: BorderStyle::Plain,
                explorer_input_padding: Padding::new(0, 0, 0, 1),
                explorer_input_style: Style::new(),
                explorer_input_focus_style: StyleSlot::Inherit,
                explorer_input_focus_content_style: Style::new(),
                explorer_placeholder_style: Style::new(),
                explorer_focus_placeholder_style: Style::new(),
                explorer_match_style: Style::new(),
                explorer_divider: true,
                explorer_divider_join_frame: true,
                explorer_divider_char: '\u{2500}',
                explorer_divider_style: Style::new(),
                activate_on_click: true,
                focusable: true,
                tab_stop: true,
                git_status: true,
                highlight_changed_labels: false,
                change_source: FileTreeChangeSource::Git,
                change_view: FileTreeChangeView::AllFiles,
                git_diff_stats: false,
                git_icon_style: GitIconStyle::NerdFont,
                git_refresh_nonce: 0,
                git_marker_modified: String::from_str("M"),
                git_marker_added: String::from_str("A"),
                git_marker_deleted: String::from_str("D"),
                git_marker_renamed: String::from_str("R"),
                git_marker_untracked: String::from_str("?"),
                git_marker_conflicted: String::from_str("!"),
                git_style_modified: Style::new(),
                git_style_added: Style::new(),
                git_style_deleted: Style::new(),
                git_style_renamed: Style::new(),
                git_style_untracked: Style::new(),
                git_style_conflicted: Style::new(),
                change_suffix_style: Style::new(),
                change_suffix_priority: FileTreeSuffixPriority::Label,
                path_styles: PathMap::new(),
            },
        }
    }

    /// Shows or hides dotfiles.
    pub fn show_hidden(self, value: bool) -> (r: Self)
        ensures
            r.props == (FileTreeProps { show_hidden: value, ..self.props }),
    {
        FileTree { props: FileTreeProps { show_hidden: value, ..self.props } }
    }

    /// Caps the children loaded per directory (at least one).
    pub fn max_entries_per_dir(self, value: usize) -> (r: Self)
        ensures
            r.props == (FileTreeProps { max_entries_per_dir: if value < 1 { 1usize } else { value }, ..self.props }),
    {
        FileTree { props: FileTreeProps { max_entries_per_dir: if value < 1 { 1 } else { value }, ..self.props } }
    }

    /// Toggles icons.
    pub fn show_icons(self, value: bool) -> (r: Self)
        ensures
            r.props == (FileTreeProps { show_icons: value, ..self.props }),
    {
        FileTree { props: FileTreeProps { show_icons: value, ..self.props } }
    }

    /// Sets the icon style.
    pub fn icon_style(self, value: FileIconStyle) -> (r: Self)
        ensures
            r.props == (FileTreeProps { icon_style: value, ..self.props }),
    {
        FileTree { props: FileTreeProps { icon_style: value, ..self.props } }
    }

    /// Toggles expand arrows in nerd-font icons.
    pub fn show_arrows(self, value: bool) -> (r: Self)
        ensures
            r.props == (FileTreeProps { show_arrows: value, ..self.props }),
    {
        FileTree { props: FileTreeProps { show_arrows: value, ..self.props } }
    }

    /// Sets the indentation guides.
    pub fn indent_style(self, value: IndentStyle) -> (r: Self)
        ensures
            r.props == (FileTreeProps { indent_style: value, ..self.props }),
    {
        FileTree { props: FileTreeProps { indent_style: value, ..self.props } }
    }

    /// Sets the indentation guide style.
    pub fn indent_guide_style(self, value: Style) -> (r: Self)
        ensures
            r.props == (FileTreeProps { indent_guide_style: value, ..self.props }),
    {
        FileTree { props: FileTreeProps { indent_guide_style: value, ..self.props } }
    }

    /// Sets the text-mode icon of collapsed directories.
    pub fn directory_icon(self, value: &str) -> (r: Self)
        ensures
            r.props.directory_icon@ == value@,
            r.props == (FileTreeProps { directory_icon: r.props.directory_icon, ..self.props }),
    {
        FileTree { props: FileTreeProps { directory_icon: String::from_str(value), ..self.props } }
    }

    /// Sets the text-mode icon of expanded directories.
    pub fn opened_directory_icon(self, value: &str) -> (r: Self)
        ensures
            r.props.opened_directory_icon@ == value@,
            r.props == (FileTreeProps { opened_directory_icon: r.props.opened_directory_icon, ..self.props }),
    {
        FileTree { props: FileTreeProps { opened_directory_icon: String::from_str(value), ..self.props } }
    }

    /// Sets the text-mode icon of files.
    pub fn file_icon(self, value: &str) -> (r: Self)
        ensures
            r.props.file_icon@ == value@,
            r.props == (FileTreeProps { file_icon: r.props.file_icon, ..self.props }),
    {
        FileTree { props: FileTreeProps { file_icon: String::from_str(value), ..self.props } }
    }

    /// Sets the text-mode icon of symlinks.
    pub fn symlink_icon(self, value: &str) -> (r: Self)
        ensures
            r.props.symlink_icon@ == value@,
            r.props == (FileTreeProps { symlink_icon: r.props.symlink_icon, ..self.props }),
    {
        FileTree { props: FileTreeProps { symlink_icon: String::from_str(value), ..self.props } }
    }

    /// Sets the text-mode icon of other entries.
    pub fn other_icon(self, value: &str) -> (r: Self)
        ensures
            r.props.other_icon@ == value@,
            r.props == (FileTreeProps { other_icon: r.props.other_icon, ..self.props }),
    {
        FileTree { props: FileTreeProps { other_icon: String::from_str(value), ..self.props } }
    }

    /// Sets the directory label style.
    pub fn directory_label_style(self, value: Style) -> (r: Self)
        ensures
            r.props == (FileTreeProps { directory_label_style: value, ..self.props }),
    {
        FileTree { props: FileTreeProps { directory_label_style: value, ..self.props } }
    }

    /// Sets the file label style.
    pub fn file_label_style(self, value: Style) -> (r: Self)
        ensures
            r.props == (FileTreeProps { file_label_style: value, ..self.props }),
    {
        FileTree { props: FileTreeProps { file_label_style: value, ..self.props } }
    }

    /// Sets the label shown while a directory loads.
    pub fn loading_label(self, value: &str) -> (r: Self)
        ensures
            r.props.loading_label@ == value@,
            r.props == (FileTreeProps { loading_label: r.props.loading_label, ..self.props }),
    {
        FileTree { props: FileTreeProps { loading_label: String::from_str(value), ..self.props } }
    }

    /// Sets the prefix of load errors.
    pub fn error_prefix(self, value: &str) -> (r: Self)
        ensures
            r.props.error_prefix@ == value@,
            r.props == (FileTreeProps { error_prefix: r.props.error_prefix, ..self.props }),
    {
        FileTree { props: FileTreeProps { error_prefix: String::from_str(value), ..self.props } }
    }

    /// Sets the requested width.
    pub fn width(self, value: Length) -> (r: Self)
        ensures
            r.props == (FileTreeProps { width: value, ..self.props }),
    {
        FileTree { props: FileTreeProps { width: value, ..self.props } }
    }

    /// Sets the requested height.
    pub fn height(self, value: Length) -> (r: Self)
        ensures
            r.props == (FileTreeProps { height: value, ..self.props }),
    {
        FileTree { props: FileTreeProps { height: value, ..self.props } }
    }

    /// Sets the base style.
    pub fn style(self, value: Style) -> (r: Self)
        ensures
            r.props == (FileTreeProps { style: value, ..self.props }),
    {
        FileTree { props: FileTreeProps { style: value, ..self.props } }
    }

    /// Replaces the themed hovered style.
    pub fn hover_style(self, value: Style) -> (r: Self)
        ensures
            r.props == (FileTreeProps { hover_style: StyleSlot::Replace(value), ..self.props }),
    {
        FileTree { props: FileTreeProps { hover_style: StyleSlot::Replace(value), ..self.props } }
    }

    /// Extends the themed hovered style.
    pub fn extend_hover_style(self, value: Style) -> (r: Self)
        ensures
            r.props == (FileTreeProps { hover_style: StyleSlot::Extend(value), ..self.props }),
    {
        FileTree { props: FileTreeProps { hover_style: StyleSlot::Extend(value), ..self.props } }
    }

    /// Inherits the themed hovered style.
    pub fn inherit_hover_style(self) -> (r: Self)
        ensures
            r.props == (FileTreeProps { hover_style: StyleSlot::Inherit, ..self.props }),
    {
        FileTree { props: FileTreeProps { hover_style: StyleSlot::Inherit, ..self.props } }
    }

    /// Sets the hovered style slot.
    pub fn hover_style_slot(self, value: StyleSlot) -> (r: Self)
        ensures
            r.props == (FileTreeProps { hover_style: value, ..self.props }),
    {
        FileTree { props: FileTreeProps { hover_style: value, ..self.props } }
    }

    /// Replaces the themed hovered row style.
    pub fn item_hover_style(self, value: Style) -> (r: Self)
        ensures
            r.props == (FileTreeProps { item_hover_style: StyleSlot::Replace(value), ..self.props }),
    {
        FileTree { props: FileTreeProps { item_hover_style: StyleSlot::Replace(value), ..self.props } }
    }

    /// Extends the themed hovered row style.
    pub fn extend_item_hover_style(self, value: Style) -> (r: Self)
        ensures
            r.props == (FileTreeProps { item_hover_style: StyleSlot::Extend(value), ..self.props }),
    {
        FileTree { props: FileTreeProps { item_hover_style: StyleSlot::Extend(value), ..self.props } }
    }

    /// Inherits the themed hovered row style.
    pub fn inherit_item_hover_style(self) -> (r: Self)
        ensures
            r.props == (FileTreeProps { item_hover_style: StyleSlot::Inherit, ..self.props }),
    {
        FileTree { props: FileTreeProps { item_hover_style: StyleSlot::Inherit, ..self.props } }
    }

    /// Sets the hovered row style slot.
    pub fn item_hover_style_slot(self, value: StyleSlot) -> (r: Self)
        ensures
            r.props == (FileTreeProps { item_hover_style: value, ..self.props }),
    {
        FileTree { props: FileTreeProps { item_hover_style: value, ..self.props } }
    }

    /// Replaces the themed selected row style.
    pub fn selection_style(self, value: Style) -> (r: Self)
        ensures
            r.props == (FileTreeProps { selection_style: StyleSlot::Replace(value), ..self.props }),
    {
        FileTree { props: FileTreeProps { selection_style: StyleSlot::Replace(value), ..self.props } }
    }

    /// Extends the themed selected row style.
    pub fn extend_selection_style(self, value: Style) -> (r: Self)
        ensures
            r.props == (FileTreeProps { selection_style: StyleSlot::Extend(value), ..self.props }),
    {
        FileTree { props: FileTreeProps { selection_style: StyleSlot::Extend(value), ..self.props } }
    }

    /// Inherits the themed selected row style.
    pub fn inherit_selection_style(self) -> (r: Self)
        ensures
            r.props == (FileTreeProps { selection_style: StyleSlot::Inherit, ..self.props }),
    {
        FileTree { props: FileTreeProps { selection_style: StyleSlot::Inherit, ..self.props } }
    }

    /// Sets the selected row style slot.
    pub fn selection_style_slot(self, value: StyleSlot) -> (r: Self)
        ensures
            r.props == (FileTreeProps { selection_style: value, ..self.props }),
    {
        FileTree { props: FileTreeProps { selection_style: value, ..self.props } }
    }

    /// Replaces the themed unfocused selected row style.
    pub fn unfocused_selection_style(self, value: Style) -> (r: Self)
        ensures
            r.props == (FileTreeProps { unfocused_selection_style: StyleSlot::Replace(value), ..self.props }),
    {
        FileTree { props: FileTreeProps { unfocused_selection_style: StyleSlot::Replace(value), ..self.props } }
    }

    /// Extends the themed unfocused selected row style.
    pub fn extend_unfocused_selection_style(self, value: Style) -> (r: Self)
        ensures
            r.props == (FileTreeProps { unfocused_selection_style: StyleSlot::Extend(value), ..self.props }),
    {
        FileTree { props: FileTreeProps { unfocused_selection_style: StyleSlot::Extend(value), ..self.props } }
    }

    /// Inherits the themed unfocused selected row style.
    pub fn inherit_unfocused_selection_style(self) -> (r: Self)
        ensures
            r.props == (FileTreeProps { unfocused_selection_style: StyleSlot::Inherit, ..self.props }),
    {
        FileTree { props: FileTreeProps { unfocused_selection_style: StyleSlot::Inherit, ..self.props } }
    }

    /// Sets the unfocused selected row style slot.
    pub fn unfocused_selection_style_slot(self, value: StyleSlot) -> (r: Self)
        ensures
            r.props == (FileTreeProps { unfocused_selection_style: value, ..self.props }),
    {
        FileTree { props: FileTreeProps { unfocused_selection_style: value, ..self.props } }
    }

    /// Replaces the themed focused search input style.
    pub fn explorer_input_focus_style(self, value: Style) -> (r: Self)
        ensures
            r.props == (FileTreeProps { explorer_input_focus_style: StyleSlot::Replace(value), ..self.props }),
    {
        FileTree { props: FileTreeProps { explorer_input_focus_style: StyleSlot::Replace(value), ..self.props } }
    }

    /// Extends the themed focused search input style.
    pub fn extend_explorer_input_focus_style(self, value: Style) -> (r: Self)
        ensures
            r.props == (FileTreeProps { explorer_input_focus_style: StyleSlot::Extend(value), ..self.props }),
    {
        FileTree { props: FileTreeProps { explorer_input_focus_style: StyleSlot::Extend(value), ..self.props } }
    }

    /// Inherits the themed focused search input style.
    pub fn inherit_explorer_input_focus_style(self) -> (r: Self)
        ensures
            r.props == (FileTreeProps { explorer_input_focus_style: StyleSlot::Inherit, ..self.props }),
    {
        FileTree { props: FileTreeProps { explorer_input_focus_style: StyleSlot::Inherit, ..self.props } }
    }

    /// Sets the focused search input style slot.
    pub fn explorer_input_focus_style_slot(self, value: StyleSlot) -> (r: Self)
        ensures
            r.props == (FileTreeProps { explorer_input_focus_style: value, ..self.props }),
    {
        FileTree { props: FileTreeProps { explorer_input_focus_style: value, ..self.props } }
    }

    /// Selects a visible row by index.
    pub fn selected(self, value: usize) -> (r: Self)
        ensures
            r.props == (FileTreeProps { selected: Some(value), ..self.props }),
    {
        FileTree { props: FileTreeProps { selected: Some(value), ..self.props } }
    }

    /// Selects a visible row by path (absolute under the root or relative to it).
    pub fn selected_path(self, value: &str) -> (r: Self)
        ensures
            r.props.selected_path matches Some(p) && p@ == value@,
            r.props == (FileTreeProps { selected_path: r.props.selected_path, ..self.props }),
    {
        FileTree { props: FileTreeProps { selected_path: Some(String::from_str(value)), ..self.props } }
    }

    /// Reveals a path by expanding its ancestors.
    pub fn reveal_path(self, value: &str) -> (r: Self)
        ensures
            r.props.reveal_path matches Some(p) && p@ == value@,
            r.props == (FileTreeProps { reveal_path: r.props.reveal_path, ..self.props }),
    {
        FileTree { props: FileTreeProps { reveal_path: Some(String::from_str(value)), ..self.props } }
    }

    /// Reveals and selects a path.
    pub fn select_path(self, value: &str) -> (r: Self)
        ensures
            r.props.select_path matches Some(p) && p@ == value@,
            r.props == (FileTreeProps { select_path: r.props.select_path, ..self.props }),
    {
        FileTree { props: FileTreeProps { select_path: Some(String::from_str(value)), ..self.props } }
    }

    /// Forces scrolling to the selected row.
    pub fn force_scroll_to_selected(self, value: bool) -> (r: Self)
        ensures
            r.props == (FileTreeProps { force_scroll_to_selected: value, ..self.props }),
    {
        FileTree { props: FileTreeProps { force_scroll_to_selected: value, ..self.props } }
    }

    /// Sets the selection symbol style.
    pub fn selection_symbol_style(self, value: Option<Style>) -> (r: Self)
        ensures
            r.props == (FileTreeProps { selection_symbol_style: value, ..self.props }),
    {
        FileTree { props: FileTreeProps { selection_symbol_style: value, ..self.props } }
    }

    /// Sets the unfocused selection symbol style.
    pub fn unfocused_selection_symbol_style(self, value: Option<Style>) -> (r: Self)
        ensures
            r.props == (FileTreeProps { unfocused_selection_symbol_style: value, ..self.props }),
    {
        FileTree { props: FileTreeProps { unfocused_selection_symbol_style: value, ..self.props } }
    }

    /// Toggles the scrollbar.
    pub fn scrollbar(self, value: bool) -> (r: Self)
        ensures
            r.props == (FileTreeProps { scrollbar: value, ..self.props }),
    {
        FileTree { props: FileTreeProps { scrollbar: value, ..self.props } }
    }

    /// Toggles mouse-wheel scrolling.
    pub fn scroll_wheel(self, value: bool) -> (r: Self)
        ensures
            r.props == (FileTreeProps { scroll_wheel: value, ..self.props }),
    {
        FileTree { props: FileTreeProps { scroll_wheel: value, ..self.props } }
    }

    /// Toggles scroll indicators.
    pub fn show_scroll_indicators(self, value: bool) -> (r: Self)
        ensures
            r.props == (FileTreeProps { show_scroll_indicators: value, ..self.props }),
    {
        FileTree { props: FileTreeProps { show_scroll_indicators: value, ..self.props } }
    }

    /// Sets the scroll indicator style.
    pub fn scroll_indicator_style(self, value: Style) -> (r: Self)
        ensures
            r.props == (FileTreeProps { scroll_indicator_style: value, ..self.props }),
    {
        FileTree { props: FileTreeProps { scroll_indicator_style: value, ..self.props } }
    }

    /// Sets the text of an empty directory.
    pub fn empty_text(self, value: &str) -> (r: Self)
        ensures
            r.props.empty_text matches Some(p) && p@ == value@,
            r.props == (FileTreeProps { empty_text: r.props.empty_text, ..self.props }),
    {
        FileTree { props: FileTreeProps { empty_text: Some(String::from_str(value)), ..self.props } }
    }

    /// Sets the empty-directory text style.
    pub fn empty_text_style(self, value: Style) -> (r: Self)
        ensures
            r.props == (FileTreeProps { empty_text_style: value, ..self.props }),
    {
        FileTree { props: FileTreeProps { empty_text_style: value, ..self.props } }
    }

    /// Toggles the search input.
    pub fn explorer(self, value: bool) -> (r: Self)
        ensures
            r.props == (FileTreeProps { explorer: value, ..self.props }),
    {
        FileTree { props: FileTreeProps { explorer: value, ..self.props } }
    }

    /// Sets the search placeholder.
    pub fn explorer_placeholder(self, value: &str) -> (r: Self)
        ensures
            r.props.explorer_placeholder@ == value@,
            r.props == (FileTreeProps { explorer_placeholder: r.props.explorer_placeholder, ..self.props }),
    {
        FileTree { props: FileTreeProps { explorer_placeholder: String::from_str(value), ..self.props } }
    }

    /// Sets the search prefix.
    pub fn explorer_prefix(self, value: &str) -> (r: Self)
        ensures
            r.props.explorer_prefix@ == value@,
            r.props == (FileTreeProps { explorer_prefix: r.props.explorer_prefix, ..self.props }),
    {
        FileTree { props: FileTreeProps { explorer_prefix: String::from_str(value), ..self.props } }
    }

    /// Toggles the search input border.
    pub fn explorer_input_border(self, value: bool) -> (r: Self)
        ensures
            r.props == (FileTreeProps { explorer_input_border: value, ..self.props }),
    {
        FileTree { props: FileTreeProps { explorer_input_border: value, ..self.props } }
    }

    /// Sets the search input border style.
    pub fn explorer_input_border_style(self, value: BorderStyle) -> (r: Self)
        ensures
            r.props == (FileTreeProps { explorer_input_border_style: value, ..self.props }),
    {
        FileTree { props: FileTreeProps { explorer_input_border_style: value, ..self.props } }
    }

    /// Sets the search input padding.
    pub fn explorer_input_padding(self, value: Padding) -> (r: Self)
        ensures
            r.props == (FileTreeProps { explorer_input_padding: value, ..self.props }),
    {
        FileTree { props: FileTreeProps { explorer_input_padding: value, ..self.props } }
    }

    /// Sets the search input style.
    pub fn explorer_input_style(self, value: Style) -> (r: Self)
        ensures
            r.props == (FileTreeProps { explorer_input_style: value, ..self.props }),
    {
        FileTree { props: FileTreeProps { explorer_input_style: value, ..self.props } }
    }

    /// Sets the focused search input content style.
    pub fn explorer_input_focus_content_style(self, value: Style) -> (r: Self)
        ensures
            r.props == (FileTreeProps { explorer_input_focus_content_style: value, ..self.props }),
    {
        FileTree { props: FileTreeProps { explorer_input_focus_content_style: value, ..self.props } }
    }

    /// Sets the search placeholder style.
    pub fn explorer_placeholder_style(self, value: Style) -> (r: Self)
        ensures
            r.props == (FileTreeProps { explorer_placeholder_style: value, ..self.props }),
    {
        FileTree { props: FileTreeProps { explorer_placeholder_style: value, ..self.props } }
    }

    /// Sets the focused search placeholder style.
    pub fn explorer_focus_placeholder_style(self, value: Style) -> (r: Self)
        ensures
            r.props == (FileTreeProps { explorer_focus_placeholder_style: value, ..self.props }),
    {
        FileTree { props: FileTreeProps { explorer_focus_placeholder_style: value, ..self.props } }
    }

    /// Sets the style of matched characters.
    pub fn explorer_match_style(self, value: Style) -> (r: Self)
        ensures
            r.props == (FileTreeProps { explorer_match_style: value, ..self.props }),
    {
        FileTree { props: FileTreeProps { explorer_match_style: value, ..self.props } }
    }

    /// Toggles the divider under the search input.
    pub fn explorer_divider(self, value: bool) -> (r: Self)
        ensures
            r.props == (FileTreeProps { explorer_divider: value, ..self.props }),
    {
        FileTree { props: FileTreeProps { explorer_divider: value, ..self.props } }
    }

    /// Joins the divider with the frame.
    pub fn explorer_divider_join_frame(self, value: bool) -> (r: Self)
        ensures
            r.props == (FileTreeProps { explorer_divider_join_frame: value, ..self.props }),
    {
        FileTree { props: FileTreeProps { explorer_divider_join_frame: value, ..self.props } }
    }

    /// Sets the divider character.
    pub fn explorer_divider_char(self, value: char) -> (r: Self)
        ensures
            r.props == (FileTreeProps { explorer_divider_char: value, ..self.props }),
    {
        FileTree { props: FileTreeProps { explorer_divider_char: value, ..self.props } }
    }

    /// Sets the divider style.
    pub fn explorer_divider_style(self, value: Style) -> (r: Self)
        ensures
            r.props == (FileTreeProps { explorer_divider_style: value, ..self.props }),
    {
        FileTree { props: FileTreeProps { explorer_divider_style: value, ..self.props } }
    }

    /// Activates rows on click.
    pub fn activate_on_click(self, value: bool) -> (r: Self)
        ensures
            r.props == (FileTreeProps { activate_on_click: value, ..self.props }),
    {
        FileTree { props: FileTreeProps { activate_on_click: value, ..self.props } }
    }

    /// Makes the tree focusable.
    pub fn focusable(self, value: bool) -> (r: Self)
        ensures
            r.props == (FileTreeProps { focusable: value, ..self.props }),
    {
        FileTree { props: FileTreeProps { focusable: value, ..self.props } }
    }

    /// Makes the tree a tab stop.
    pub fn tab_stop(self, value: bool) -> (r: Self)
        ensures
            r.props == (FileTreeProps { tab_stop: value, ..self.props }),
    {
        FileTree { props: FileTreeProps { tab_stop: value, ..self.props } }
    }

    /// Toggles change decorations.
    pub fn git_status(self, value: bool) -> (r: Self)
        ensures
            r.props == (FileTreeProps { git_status: value, ..self.props }),
    {
        FileTree { props: FileTreeProps { git_status: value, ..self.props } }
    }

    /// Toggles styling labels of changed paths.
    pub fn highlight_changed_labels(self, value: bool) -> (r: Self)
        ensures
            r.props == (FileTreeProps { highlight_changed_labels: value, ..self.props }),
    {
        FileTree { props: FileTreeProps { highlight_changed_labels: value, ..self.props } }
    }

    /// Sets the change display mode.
    pub fn git_view(self, value: FileTreeChangeView) -> (r: Self)
        ensures
            r.props == (FileTreeProps { change_view: value, ..self.props }),
    {
        FileTree { props: FileTreeProps { change_view: value, ..self.props } }
    }

    /// Sets the change display mode.
    pub fn change_view(self, value: FileTreeChangeView) -> (r: Self)
        ensures
            r.props == (FileTreeProps { change_view: value, ..self.props }),
    {
        FileTree { props: FileTreeProps { change_view: value, ..self.props } }
    }

    /// Shows only changed paths (or all files).
    pub fn git_changed_only(self, value: bool) -> (r: Self)
        ensures
            r.props == (FileTreeProps { change_view: if value { FileTreeChangeView::ChangedOnly } else { FileTreeChangeView::AllFiles }, ..self.props }),
    {
        FileTree { props: FileTreeProps { change_view: if value { FileTreeChangeView::ChangedOnly } else { FileTreeChangeView::AllFiles }, ..self.props } }
    }

    /// Toggles line-count decorations.
    pub fn show_diff_stats(self, value: bool) -> (r: Self)
        ensures
            r.props == (FileTreeProps { git_diff_stats: value, ..self.props }),
    {
        FileTree { props: FileTreeProps { git_diff_stats: value, ..self.props } }
    }

    /// Toggles line-count decorations.
    pub fn git_diff_stats(self, value: bool) -> (r: Self)
        ensures
            r.props == (FileTreeProps { git_diff_stats: value, ..self.props }),
    {
        FileTree { props: FileTreeProps { git_diff_stats: value, ..self.props } }
    }

    /// Sets the change marker style.
    pub fn git_icon_style(self, value: GitIconStyle) -> (r: Self)
        ensures
            r.props == (FileTreeProps { git_icon_style: value, ..self.props }),
    {
        FileTree { props: FileTreeProps { git_icon_style: value, ..self.props } }
    }

    /// Requests a change reload whenever the token changes.
    pub fn git_refresh_token(self, value: u64) -> (r: Self)
        ensures
            r.props == (FileTreeProps { git_refresh_nonce: value, ..self.props }),
    {
        FileTree { props: FileTreeProps { git_refresh_nonce: value, ..self.props } }
    }

    /// Sets the text marker of modified paths.
    pub fn git_marker_modified(self, value: &str) -> (r: Self)
        ensures
            r.props.git_marker_modified@ == value@,
            r.props == (FileTreeProps { git_marker_modified: r.props.git_marker_modified, ..self.props }),
    {
        FileTree { props: FileTreeProps { git_marker_modified: String::from_str(value), ..self.props } }
    }

    /// Sets the text marker of added paths.
    pub fn git_marker_added(self, value: &str) -> (r: Self)
        ensures
            r.props.git_marker_added@ == value@,
            r.props == (FileTreeProps { git_marker_added: r.props.git_marker_added, ..self.props }),
    {
        FileTree { props: FileTreeProps { git_marker_added: String::from_str(value), ..self.props } }
    }

    /// Sets the text marker of deleted paths.
    pub fn git_marker_deleted(self, value: &str) -> (r: Self)
        ensures
            r.props.git_marker_deleted@ == value@,
            r.props == (FileTreeProps { git_marker_deleted: r.props.git_marker_deleted, ..self.props }),
    {
        FileTree { props: FileTreeProps { git_marker_deleted: String::from_str(value), ..self.props } }
    }

    /// Sets the text marker of renamed paths.
    pub fn git_marker_renamed(self, value: &str) -> (r: Self)
        ensures
            r.props.git_marker_renamed@ == value@,
            r.props == (FileTreeProps { git_marker_renamed: r.props.git_marker_renamed, ..self.props }),
    {
        FileTree { props: FileTreeProps { git_marker_renamed: String::from_str(value), ..self.props } }
    }

    /// Sets the text marker of untracked paths.
    pub fn git_marker_untracked(self, value: &str) -> (r: Self)
        ensures
            r.props.git_marker_untracked@ == value@,
            r.props == (FileTreeProps { git_marker_untracked: r.props.git_marker_untracked, ..self.props }),
    {
        FileTree { props: FileTreeProps { git_marker_untracked: String::from_str(value), ..self.props } }
    }

    /// Sets the text marker of conflicted paths.
    pub fn git_marker_conflicted(self, value: &str) -> (r: Self)
        ensures
            r.props.git_marker_conflicted@ == value@,
            r.props == (FileTreeProps { git_marker_conflicted: r.props.git_marker_conflicted, ..self.props }),
    {
        FileTree { props: FileTreeProps { git_marker_conflicted: String::from_str(value), ..self.props } }
    }

    /// Sets the style of modified paths.
    pub fn git_style_modified(self, value: Style) -> (r: Self)
        ensures
            r.props == (FileTreeProps { git_style_modified: value, ..self.props }),
    {
        FileTree { props: FileTreeProps { git_style_modified: value, ..self.props } }
    }

    /// Sets the style of added paths.
    pub fn git_style_added(self, value: Style) -> (r: Self)
        ensures
            r.props == (FileTreeProps { git_style_added: value, ..self.props }),
    {
        FileTree { props: FileTreeProps { git_style_added: value, ..self.props } }
    }

    /// Sets the style of deleted paths.
    pub fn git_style_deleted(self, value: Style) -> (r: Self)
        ensures
            r.props == (FileTreeProps { git_style_deleted: value, ..self.props }),
    {
        FileTree { props: FileTreeProps { git_style_deleted: value, ..self.props } }
    }

    /// Sets the style of renamed paths.
    pub fn git_style_renamed(self, value: Style) -> (r: Self)
        ensures
            r.props == (FileTreeProps { git_style_renamed: value, ..self.props }),
    {
        FileTree { props: FileTreeProps { git_style_renamed: value, ..self.props } }
    }

    /// Sets the style of untracked paths.
    pub fn git_style_untracked(self, value: Style) -> (r: Self)
        ensures
            r.props == (FileTreeProps { git_style_untracked: value, ..self.props }),
    {
        FileTree { props: FileTreeProps { git_style_untracked: value, ..self.props } }
    }

    /// Sets the style of conflicted paths.
    pub fn git_style_conflicted(self, value: Style) -> (r: Self)
        ensures
            r.props == (FileTreeProps { git_style_conflicted: value, ..self.props }),
    {
        FileTree { props: FileTreeProps { git_style_conflicted: value, ..self.props } }
    }

    /// Sets the style of change metadata.
    pub fn change_suffix_style(self, value: Style) -> (r: Self)
        ensures
            r.props == (FileTreeProps { change_suffix_style: value, ..self.props }),
    {
        FileTree { props: FileTreeProps { change_suffix_style: value, ..self.props } }
    }

    /// Sets the style of change metadata.
    pub fn git_suffix_style(self, value: Style) -> (r: Self)
        ensures
            r.props == (FileTreeProps { change_suffix_style: value, ..self.props }),
    {
        FileTree { props: FileTreeProps { change_suffix_style: value, ..self.props } }
    }

    /// Sets what truncates first.
    pub fn change_suffix_priority(self, value: FileTreeSuffixPriority) -> (r: Self)
        ensures
            r.props == (FileTreeProps { change_suffix_priority: value, ..self.props }),
    {
        FileTree { props: FileTreeProps { change_suffix_priority: value, ..self.props } }
    }

    /// Sets what truncates first.
    pub fn git_suffix_priority(self, value: FileTreeSuffixPriority) -> (r: Self)
        ensures
            r.props == (FileTreeProps { change_suffix_priority: value, ..self.props }),
    {
        FileTree { props: FileTreeProps { change_suffix_priority: value, ..self.props } }
    }

}

impl FileTree {
    /// Overrides the icon of entries whose name (or, for files, extension) is `pattern`.
    pub fn icon_override(self, pattern: &str, icon: &str, color: Option<Color>) -> (r: Self)
        ensures
            forall|k: Seq<char>|
                k != pattern@ ==> #[trigger] spec_lookup(r.props.icon_overrides.entries@, k) == spec_lookup(
                    self.props.icon_overrides.entries@,
                    k,
                ),
            spec_lookup(r.props.icon_overrides.entries@, pattern@) matches Some(o) && o.icon@ == icon@ && o.color == color,
            r.props == (FileTreeProps { icon_overrides: r.props.icon_overrides, ..self.props }),
    {
        let mut t = self;
        t.props.icon_overrides.insert(String::from_str(pattern), FileIconOverride { icon: String::from_str(icon), color });
        t
    }

    /// Decorates the row of `path`.
    pub fn path_style(self, path: &str, style: FileTreeItemStyle) -> (r: Self)
        ensures
            forall|k: Seq<char>|
                #[trigger] spec_lookup(r.props.path_styles.entries@, k) == if k == path@ {
                    Some(style)
                } else {
                    spec_lookup(self.props.path_styles.entries@, k)
                },
            r.props == (FileTreeProps { path_styles: r.props.path_styles, ..self.props }),
    {
        let mut t = self;
        t.props.path_styles.insert(String::from_str(path), style);
        t
    }

    /// Decorates several rows; later entries win.
    pub fn path_styles(self, styles: Vec<(String, FileTreeItemStyle)>) -> (r: Self)
        ensures
            r.props == (FileTreeProps { path_styles: r.props.path_styles, ..self.props }),
            forall|k: Seq<char>|
                (forall|i: int| 0 <= i < styles@.len() ==> styles@[i].0@ != k) ==> #[trigger] spec_lookup(
                    r.props.path_styles.entries@,
                    k,
                ) == spec_lookup(self.props.path_styles.entries@, k),
            forall|i: int|
                0 <= i < styles@.len() && (forall|j: int| i < j < styles@.len() ==> styles@[j].0@ != styles@[i].0@)
                    ==> spec_lookup(r.props.path_styles.entries@, #[trigger] styles@[i].0@) == Some(styles@[i].1),
    {
        let mut t = self;
        let ghost start = t.props.path_styles.entries@;
        let mut i: usize = 0;
        while i < styles.len()
            invariant
                0 <= i <= styles@.len(),
                t.props == (FileTreeProps { path_styles: t.props.path_styles, ..self.props }),
                forall|k: Seq<char>|
                    (forall|j: int| 0 <= j < i ==> styles@[j].0@ != k) ==> #[trigger] spec_lookup(
                        t.props.path_styles.entries@,
                        k,
                    ) == spec_lookup(self.props.path_styles.entries@, k),
                forall|a: int|
                    0 <= a < i && (forall|j: int| a < j < i ==> styles@[j].0@ != styles@[a].0@) ==> spec_lookup(
                        t.props.path_styles.entries@,
                        #[trigger] styles@[a].0@,
                    ) == Some(styles@[a].1),
            decreases styles@.len() - i,
        {
            let (path, style) = &styles[i];
            t.props.path_styles.insert(path.clone(), *style);
            i = i + 1;
        }
        t
    }

    /// Sets (or clears) the selection symbol.
    pub fn selection_symbol(self, symbol: Option<&str>) -> (r: Self)
        ensures
            match symbol {
                Some(s) => r.props.selection_symbol matches Some(t) && t@ == s@,
                None => r.props.selection_symbol is None,
            },
            r.props == (FileTreeProps { selection_symbol: r.props.selection_symbol, ..self.props }),
    {
        let mut t = self;
        t.props.selection_symbol = match symbol {
            Some(s) => Some(String::from_str(s)),
            None => None,
        };
        t
    }

    /// Controls which directories are expanded.
    pub fn expanded_paths(self, paths: Vec<String>) -> (r: Self)
        ensures
            r.props.expanded_paths == Some(paths),
            r.props == (FileTreeProps { expanded_paths: r.props.expanded_paths, ..self.props }),
    {
        let mut t = self;
        t.props.expanded_paths = Some(paths);
        t
    }

    /// Sets where change decorations come from.
    pub fn change_source(self, source: FileTreeChangeSource) -> (r: Self)
        ensures
            r.props == (FileTreeProps { change_source: source, ..self.props }),
    {
        let mut t = self;
        t.props.change_source = source;
        t
    }
}

} // verus!
