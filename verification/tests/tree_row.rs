use tui_lipan::file_tree::FileTree;
use tui_lipan::git::{GitChangeState, GitDiffStat, GitFileDecorations, GitFileStatus, GitIconStyle};
use tui_lipan::style::{Color, Style};
use tui_lipan::tree_row::{git_description_spans, git_marker, highlight_label_spans, status_style};

fn contents(spans: &[tui_lipan::style::Span]) -> Vec<&str> {
    spans.iter().map(|span| span.content.as_str()).collect()
}

#[test]
fn highlight_label_spans_marks_requested_indices() {
    let base = Style::new().fg(Color::Red);
    let highlight = Style::new().fg(Color::Cyan).underlined();

    let spans = highlight_label_spans("hello", Some(&[1, 2]), base, highlight);

    assert_eq!(spans.len(), 3);
    assert_eq!(spans[0].content, "h");
    assert_eq!(spans[1].content, "el");
    assert_eq!(spans[2].content, "lo");

    assert_eq!(spans[0].style, base);
    assert_eq!(spans[1].style, base.patch(highlight));
    assert_eq!(spans[2].style, base);
}

#[test]
fn git_status_description_has_no_trailing_padding() {
    let props = FileTree::new("/repo").git_icon_style(GitIconStyle::Text).props;
    let decoration =
        GitFileDecorations::from_status(GitFileStatus::new(None, Some(GitChangeState::Modified)), true);

    let spans = git_description_spans(Some(decoration), &props, false, false);

    assert_eq!(contents(&spans), vec![" ", "M"]);
}

#[test]
fn git_diff_description_has_no_trailing_padding() {
    let props = FileTree::new("/repo").git_icon_style(GitIconStyle::Text).show_diff_stats(true).props;
    let decoration = GitFileDecorations::from_diff_stat(GitDiffStat::new(2, 1), true);

    let spans = git_description_spans(Some(decoration), &props, false, false);

    assert_eq!(contents(&spans), vec![" ", "+2", " ", "-1"]);
}

#[test]
fn git_status_and_diff_description_keep_internal_separator_only() {
    let props = FileTree::new("/repo").git_icon_style(GitIconStyle::Text).show_diff_stats(true).props;
    let decoration = GitFileDecorations {
        status: GitFileStatus::new(None, Some(GitChangeState::Modified)),
        diff_stat: Some(GitDiffStat::new(2, 1)),
        direct: true,
    };

    let spans = git_description_spans(Some(decoration), &props, false, false);

    assert_eq!(contents(&spans), vec![" ", "M", " ", "+2", " ", "-1"]);
}

#[test]
fn collapsed_dirty_directory_shows_git_marker() {
    let props = FileTree::new("/repo").git_icon_style(GitIconStyle::Text).props;
    let decoration =
        GitFileDecorations::from_status(GitFileStatus::new(None, Some(GitChangeState::Modified)), false);

    let spans = git_description_spans(Some(decoration), &props, true, false);

    assert_eq!(contents(&spans), vec![" ", "M"]);
}

#[test]
fn expanded_dirty_directory_hides_git_marker() {
    let props = FileTree::new("/repo").git_icon_style(GitIconStyle::Text).props;
    let decoration =
        GitFileDecorations::from_status(GitFileStatus::new(None, Some(GitChangeState::Modified)), false);

    let spans = git_description_spans(Some(decoration), &props, true, true);

    assert!(spans.is_empty());
}

#[test]
fn highlight_without_hits_keeps_one_base_span() {
    let base = Style::new().bold();
    let spans = highlight_label_spans("abc", None, base, Style::new().fg(Color::Red));
    assert_eq!(spans.len(), 1);
    assert_eq!(spans[0].content, "abc");
    assert_eq!(spans[0].style, base);
    assert!(highlight_label_spans("", Some(&[0]), base, base).is_empty());
    let empty_hits: &[u32] = &[];
    assert_eq!(highlight_label_spans("abc", Some(empty_hits), base, base).len(), 1);
}

#[test]
fn highlight_handles_unsorted_duplicate_and_multibyte_hits() {
    let base = Style::new();
    let sel = Style::new().fg(Color::Yellow);
    let spans = highlight_label_spans("äöüx", Some(&[3, 0, 0, 9]), base, sel);
    let texts: Vec<&str> = spans.iter().map(|s| s.content.as_str()).collect();
    assert_eq!(texts, vec!["ä", "öü", "x"]);
    assert_eq!(spans[0].style, base.patch(sel));
    assert_eq!(spans[1].style, base);
    assert_eq!(spans[2].style, base.patch(sel));
}

#[test]
fn staged_and_unstaged_markers_are_separated() {
    let props = FileTree::new("/repo").git_icon_style(GitIconStyle::Text).props;
    let decoration = GitFileDecorations::from_status(
        GitFileStatus::new(Some(GitChangeState::Added), Some(GitChangeState::Modified)),
        true,
    );
    let spans = git_description_spans(Some(decoration), &props, false, false);
    assert_eq!(contents(&spans), vec![" ", "A", " ", "M"]);
    assert_eq!(spans[1].style, props.git_style_added);
    assert_eq!(spans[3].style, props.git_style_modified);
}

#[test]
fn nerd_font_markers_tell_staged_from_unstaged() {
    let props = FileTree::new("/repo").props;
    assert_eq!(git_marker(GitChangeState::Modified, &props, false), "\u{f444}");
    assert_eq!(git_marker(GitChangeState::Modified, &props, true), "\u{f14a}");
    assert_eq!(git_marker(GitChangeState::Conflicted, &props, true), "\u{e728}");
    let text = FileTree::new("/repo").git_icon_style(GitIconStyle::Text).props;
    assert_eq!(git_marker(GitChangeState::Untracked, &text, false), "?");
}

#[test]
fn status_style_prefers_staged_changes() {
    let props = FileTree::new("/repo").props;
    assert_eq!(
        status_style(GitFileStatus::new(Some(GitChangeState::Deleted), Some(GitChangeState::Modified)), &props),
        props.git_style_added
    );
    assert_eq!(
        status_style(GitFileStatus::new(None, Some(GitChangeState::Deleted)), &props),
        props.git_style_deleted
    );
    assert_eq!(status_style(GitFileStatus::new(None, None), &props), Style::new());
}

#[test]
fn undecorated_rows_and_hidden_statuses_have_no_description() {
    let props = FileTree::new("/repo").git_status(false).props;
    let decoration =
        GitFileDecorations::from_status(GitFileStatus::new(None, Some(GitChangeState::Modified)), true);
    assert!(git_description_spans(Some(decoration), &props, false, false).is_empty());
    assert!(git_description_spans(None, &props, false, false).is_empty());
}
