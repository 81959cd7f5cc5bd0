use tui_lipan::heatmap::{
    build_header_line, center_glyph, fit_cell_text, measure_heatmap, HeatmapCellMode, HeatmapGeometry,
};
use tui_lipan::style::Padding;

fn geometry(rows: Vec<usize>) -> HeatmapGeometry {
    HeatmapGeometry {
        row_lengths: rows,
        row_labels: Vec::new(),
        column_labels: Vec::new(),
        cell_mode: HeatmapCellMode::Background,
        cell_width: 4,
        gap_x: 0,
        gap_y: 0,
        legend_spacing: 0,
        show_legend: false,
        padding: Padding::all(0),
        border: false,
    }
}

#[test]
fn empty_heatmap_measures_nothing() {
    assert_eq!(measure_heatmap(&geometry(Vec::new())), (0, 0));
    assert_eq!(measure_heatmap(&geometry(vec![0, 0])), (0, 0));
}

#[test]
fn heatmap_size_counts_cells_gaps_labels_legend_and_chrome() {
    let mut g = geometry(vec![3, 2]);
    assert_eq!(measure_heatmap(&g), (12, 2));
    g.gap_x = 1;
    g.gap_y = 2;
    assert_eq!(measure_heatmap(&g), (14, 4));
    g.row_labels = vec!["mon".to_string(), "tuesday".to_string()];
    g.column_labels = vec!["a".to_string()];
    g.show_legend = true;
    g.legend_spacing = 1;
    assert_eq!(measure_heatmap(&g), (22, 7));
    g.padding = Padding::all(1);
    g.border = true;
    assert_eq!(measure_heatmap(&g), (26, 11));
}

#[test]
fn glyph_cells_are_at_least_as_wide_as_the_glyph() {
    let mut g = geometry(vec![1]);
    g.cell_width = 0;
    assert_eq!(g.effective_cell_width(), 1);
    g.cell_mode = HeatmapCellMode::Glyph("●●●".to_string());
    assert_eq!(g.effective_cell_width(), 3);
    g.cell_width = 5;
    assert_eq!(g.effective_cell_width(), 5);
}

#[test]
fn center_glyph_splits_room_left_first() {
    assert_eq!(center_glyph("x", 4), " x  ");
    assert_eq!(center_glyph("x", 0), "");
    assert_eq!(center_glyph("", 3), "  ");
}

#[test]
fn cell_text_is_cut_or_padded_to_width() {
    assert_eq!(fit_cell_text("abcdef", 3), "abc");
    assert_eq!(fit_cell_text("ab", 4), "ab  ");
    assert_eq!(fit_cell_text("ab", 0), "");
}

#[test]
fn header_line_fits_labels_and_adds_gaps() {
    assert!(build_header_line(&Vec::new(), 3, 2, 1).is_none());
    let spans = build_header_line(&vec!["jan".to_string()], 2, 2, 1).unwrap();
    let texts: Vec<&str> = spans.iter().map(|s| s.content.as_str()).collect();
    assert_eq!(texts, vec!["ja", " ", "  "]);
}
