use tui_lipan::element::Element;
use tui_lipan::grid::{
    clamp_span, layout_grid, measure_grid, percent_of, resolve_line_sizes, resolve_placements, span_main_axis,
    track_start, Cell, Grid, GridItem,
};
use tui_lipan::style::{Align, Length, Padding, Rect};

fn frame(min_w: u16, min_h: u16) -> Element {
    Element::sized(min_w, min_h).width(Length::Flex(1)).height(Length::Flex(1))
}

fn rect(x: i16, y: i16, w: u16, h: u16) -> Rect {
    Rect { x, y, w, h }
}

#[test]
fn grid_rows_measure_to_content_height() {
    let grid = Grid::new().uniform_columns(2).gap(1).child(Element::sized(4, 1)).child(Element::sized(5, 1));

    let (_, h) = measure_grid(&grid.props, &grid.items, Some(40), None);

    assert!(h >= 1, "grid height should include row content, got {h}");
}

#[test]
fn grid_tracks_position_2x2_children() {
    let grid = Grid::new()
        .columns(vec![Length::Auto, Length::Auto])
        .rows(vec![Length::Px(6), Length::Px(6)])
        .width(Length::Flex(1))
        .height(Length::Flex(1))
        .child(frame(2, 2).key("a"))
        .child(frame(2, 2).key("b"))
        .child(frame(2, 2).key("c"))
        .child(frame(2, 2).key("d"));

    let rects = layout_grid(&grid.props, &grid.items, rect(0, 0, 40, 12));
    let a = rects[0];
    let c = rects[2];

    assert_eq!(a.y, 0);
    assert_eq!(c.y, 6);
    assert!(a.h <= 6 && c.h <= 6);
}

#[test]
fn grid_spanning_cell_width_is_two_tracks_plus_gap_x() {
    let grid = Grid::new()
        .columns(vec![Length::Px(5), Length::Px(7)])
        .rows(vec![Length::Px(10)])
        .gap_x(2)
        .align(Align::Stretch)
        .cell_span(0, 0, 1, 2, frame(0, 0).key("span"));

    let rects = layout_grid(&grid.props, &grid.items, rect(0, 0, 40, 12));
    assert_eq!(rects[0].w, 5 + 2 + 7);
}

#[test]
fn grid_auto_tracks_do_not_absorb_parent_slack() {
    let boxed = || Element::sized(5, 3).width(Length::Px(5)).height(Length::Px(3));
    let grid = Grid::new()
        .uniform_columns(3)
        .rows(vec![Length::Auto, Length::Auto, Length::Auto])
        .gap_x(2)
        .gap_y(0)
        .cell(0, 0, boxed().key("a"))
        .cell(0, 1, boxed().key("b"))
        .cell(1, 0, boxed().key("c"));

    let rects = layout_grid(&grid.props, &grid.items, rect(0, 0, 40, 12));
    let (a, b, c) = (rects[0], rects[1], rects[2]);

    assert_eq!(a.w, 5);
    assert_eq!(a.h, 3);
    assert_eq!(b.x, a.x + 5 + 2);
    assert_eq!(c.y, a.y + 3);
}

fn item(placement: Option<(u16, u16)>, span: (u16, u16)) -> GridItem {
    GridItem {
        element: Element::sized(1, 1),
        placement: placement.map(|(row, col)| Cell { row, col }),
        span: Cell { row: span.0, col: span.1 },
    }
}

#[test]
fn flow_items_fill_rows_in_order_and_append_rows() {
    let items = vec![item(None, (1, 1)), item(None, (1, 1)), item(None, (1, 1))];
    let (cells, rows) = resolve_placements(&items, &vec![Length::Auto, Length::Auto], vec![Length::Px(2)]);
    assert_eq!(cells, vec![Cell { row: 0, col: 0 }, Cell { row: 0, col: 1 }, Cell { row: 1, col: 0 }]);
    assert_eq!(rows, vec![Length::Px(2), Length::Auto]);
}

#[test]
fn taken_explicit_cells_fall_back_to_the_first_free_cell() {
    let items = vec![item(Some((0, 0)), (1, 2)), item(Some((0, 1)), (1, 1)), item(Some((3, 1)), (1, 1))];
    let (cells, rows) = resolve_placements(&items, &vec![Length::Auto, Length::Auto], vec![]);
    // The second item collides with the first and is auto-placed below it.
    assert_eq!(cells, vec![Cell { row: 0, col: 0 }, Cell { row: 1, col: 0 }, Cell { row: 3, col: 1 }]);
    // One implicit row to start with, three appended to reach row 3.
    assert_eq!(rows.len(), 3);
}

#[test]
fn slack_goes_to_flex_lines_by_weight_and_the_last_takes_the_rest() {
    let tracks = vec![Length::Px(4), Length::Flex(1), Length::Flex(2)];
    let sizes = resolve_line_sizes(&tracks, &vec![], 1, 20, true);
    // 20 - 2 gaps = 18; 4 used, 14 left: 14 * 1 / 3 = 4, the rest 10.
    assert_eq!(sizes, vec![4, 4, 10]);
    let unshared = resolve_line_sizes(&tracks, &vec![], 1, 20, false);
    assert_eq!(unshared, vec![4, 0, 0]);
}

#[test]
fn overflow_is_taken_back_from_auto_lines_in_order() {
    let tracks = vec![Length::Auto, Length::Px(5), Length::Auto];
    let sizes = resolve_line_sizes(&tracks, &vec![3, 0, 4], 0, 8, true);
    // 12 used in 8: take 3 from the first auto line and 1 from the last.
    assert_eq!(sizes, vec![0, 5, 3]);
}

#[test]
fn percent_tracks_take_a_share_of_the_room_after_gaps() {
    assert_eq!(percent_of(50, 50), 25);
    assert_eq!(percent_of(50, 250), 50);
    assert_eq!(percent_of(u16::MAX, 50), 0);
    let sizes = resolve_line_sizes(&vec![Length::Percent(50), Length::Auto], &vec![], 2, 22, true);
    assert_eq!(sizes, vec![10, 0]);
}

#[test]
fn spans_and_starts_include_gaps() {
    let sizes = vec![3, 4, 5];
    assert_eq!(span_main_axis(&sizes, 1, 0, 2), 8);
    assert_eq!(span_main_axis(&sizes, 1, 1, 9), 10);
    assert_eq!(span_main_axis(&sizes, 1, 3, 1), 0);
    assert_eq!(track_start(&sizes, 1, 0), 0);
    assert_eq!(track_start(&sizes, 1, 2), 9);
    assert_eq!(track_start(&sizes, 1, 7), 14);
    assert_eq!(clamp_span(0, 5), 1);
    assert_eq!(clamp_span(9, 5), 5);
}

#[test]
fn an_empty_grid_measures_its_chrome() {
    let grid = Grid::new().border(true).padding(Padding::new(1, 2, 1, 2));
    assert_eq!(measure_grid(&grid.props, &grid.items, None, None), (6, 4));
    assert_eq!(grid.min_size(), (6, 4));
}

#[test]
fn span_applies_to_the_last_child_only() {
    let grid = Grid::new().span(2, 2).child(Element::sized(1, 1)).child(Element::sized(1, 1)).span(0, 3);
    assert_eq!(grid.items[0].span, Cell { row: 1, col: 1 });
    assert_eq!(grid.items[1].span, Cell { row: 1, col: 3 });
}
