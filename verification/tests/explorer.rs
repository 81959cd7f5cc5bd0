use tui_lipan::explorer::{
    entry_directory_path, include_path_with_ancestors, search_candidates, sort_unique, ExplorerCandidate,
};
use tui_lipan::explorer::search_fits_matcher;

fn candidate(path: &str, label: &str, is_dir: bool) -> ExplorerCandidate {
    ExplorerCandidate { path: path.to_string(), label: label.to_string(), is_dir }
}

#[test]
fn search_candidates_only_uses_provided_candidates() {
    let root_path = "/tmp/tui_lipan_file_tree_search_candidates_only_uses_provided_candidates";
    let included_path = format!("{root_path}/src/target.rs");
    let omitted_path = format!("{root_path}/other/target.rs");

    let filter = search_candidates(root_path, &vec![candidate(&included_path, "target.rs", false)], "target");

    assert_eq!(filter.match_count, 1);
    assert!(filter.visible_paths.contains(&included_path));
    assert!(!filter.visible_paths.contains(&omitted_path));
}

#[test]
fn search_marks_matches_ancestors_and_directories() {
    let candidates = vec![
        candidate("/repo/src", "src", true),
        candidate("/repo/src/lib.rs", "lib.rs", false),
        candidate("/repo/README.md", "README.md", false),
    ];
    let filter = search_candidates("/repo", &candidates, "  lib ");
    assert_eq!(filter.match_count, 1);
    let mut visible = filter.visible_paths.clone();
    visible.sort();
    assert_eq!(visible, vec!["/repo".to_string(), "/repo/src".to_string(), "/repo/src/lib.rs".to_string()]);
    let mut expanded = filter.expanded_paths.clone();
    expanded.sort();
    assert_eq!(expanded, vec!["/repo".to_string(), "/repo/src".to_string()]);
    assert_eq!(filter.primary_match_directory.as_deref(), Some("/repo/src"));
    let hits = filter.label_hits.position("/repo/src/lib.rs").map(|i| filter.label_hits.entries[i].1.clone());
    assert_eq!(hits, Some(vec![0, 1, 2]));
}

#[test]
fn empty_query_finds_nothing() {
    let candidates = vec![candidate("/repo/a", "a", false)];
    let filter = search_candidates("/repo", &candidates, "   ");
    assert_eq!(filter.match_count, 0);
    assert!(filter.visible_paths.is_empty());
    assert!(filter.expanded_paths.is_empty());
    assert!(filter.primary_match_directory.is_none());
}

#[test]
fn query_with_extension_matches_names_not_paths() {
    let candidates = vec![
        candidate("/r/src/layout.rs", "layout.rs", false),
        candidate("/r/tests/layout_integration.rs", "layout_integration.rs", false),
        candidate("/r/src/layout/reconcile.rs", "reconcile.rs", false),
    ];
    let filter = search_candidates("/r", &candidates, "layout.rs");
    assert!(filter.visible_paths.contains(&"/r/src/layout.rs".to_string()));
    assert!(filter.visible_paths.contains(&"/r/tests/layout_integration.rs".to_string()));
    assert!(!filter.visible_paths.contains(&"/r/src/layout/reconcile.rs".to_string()));
}

#[test]
fn ancestors_stop_at_the_root() {
    let mut set = Vec::new();
    include_path_with_ancestors(&mut set, "/repo/a/b", "/repo");
    set.sort();
    assert_eq!(set, vec!["/repo".to_string(), "/repo/a".to_string(), "/repo/a/b".to_string()]);
    let mut outside = Vec::new();
    include_path_with_ancestors(&mut outside, "/x/y", "/repo");
    outside.sort();
    assert_eq!(outside, vec!["/".to_string(), "/x".to_string(), "/x/y".to_string()]);
}

#[test]
fn match_positions_are_sorted_and_unique() {
    assert_eq!(sort_unique(&vec![4, 1, 4, 0, 1]), vec![0, 1, 4]);
    assert!(sort_unique(&Vec::new()).is_empty());
}

#[test]
fn a_file_opens_its_parent_directory() {
    assert_eq!(entry_directory_path(&candidate("/r/a/f.txt", "f.txt", false), "/r"), "/r/a");
    assert_eq!(entry_directory_path(&candidate("/r/a", "a", true), "/r"), "/r/a");
    assert_eq!(entry_directory_path(&candidate("/", "/", false), "/r"), "/r");
}

#[test]
fn long_queries_with_few_spaces_fit_the_matcher() {
    let long = "a".repeat(200_000);
    assert!(search_fits_matcher(&Vec::new(), &long));
    let spaced = " x".repeat(70_000);
    assert!(!search_fits_matcher(&Vec::new(), &format!("y{}", spaced)));
}
