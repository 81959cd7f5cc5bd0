use tui_lipan::flow::{pack_rows_from_sizes, FlowPackParams};
use tui_lipan::style::Align;

#[test]
fn pack_rows_keeps_items_on_one_row_when_they_fit() {
    let rows = pack_rows_from_sizes(
        &[(0, 10, 1), (1, 10, 1), (2, 10, 1)],
        FlowPackParams { available_w: 35, gap: 0, row_gap: 0, align: Align::Start, origin_x: 0, origin_y: 0 },
    );

    assert_eq!(rows.len(), 1);
    assert_eq!(rows[0].items.len(), 3);
}

#[test]
fn pack_rows_wraps_when_next_item_overflows() {
    let rows = pack_rows_from_sizes(
        &[(0, 10, 1), (1, 10, 1), (2, 10, 1)],
        FlowPackParams { available_w: 30, gap: 2, row_gap: 2, align: Align::Start, origin_x: 0, origin_y: 0 },
    );

    assert_eq!(rows.len(), 2);
    assert_eq!(rows[0].items.len(), 2);
    assert_eq!(rows[1].items.len(), 1);
}

#[test]
fn oversized_single_item_is_clamped_to_row_width() {
    let rows = pack_rows_from_sizes(
        &[(0, 20, 1)],
        FlowPackParams { available_w: 8, gap: 1, row_gap: 1, align: Align::Start, origin_x: 0, origin_y: 0 },
    );

    assert_eq!(rows.len(), 1);
    assert_eq!(rows[0].items[0].1.w, 8);
}

#[test]
fn row_gap_contributes_to_total_height() {
    let rows = pack_rows_from_sizes(
        &[(0, 10, 1), (1, 10, 2), (2, 10, 3)],
        FlowPackParams { available_w: 12, gap: 2, row_gap: 2, align: Align::Start, origin_x: 0, origin_y: 0 },
    );

    let mut total_h = rows.iter().fold(0u16, |acc, row| acc.saturating_add(row.height));
    total_h = total_h.saturating_add(2u16.saturating_mul(rows.len() as u16 - 1));

    assert_eq!(total_h, 10);
}

#[test]
fn row_gap_is_independent_of_item_gap() {
    let rows = pack_rows_from_sizes(
        &[(0, 10, 1), (1, 10, 1), (2, 10, 1)],
        FlowPackParams { available_w: 10, gap: 4, row_gap: 0, align: Align::Start, origin_x: 0, origin_y: 0 },
    );

    assert_eq!(rows.len(), 3);
    assert_eq!(rows[0].y, 0);
    assert_eq!(rows[1].y, 1);
    assert_eq!(rows[2].y, 2);
}

#[test]
fn center_alignment_offsets_shorter_children_within_row() {
    let rows = pack_rows_from_sizes(
        &[(0, 5, 1), (1, 5, 3)],
        FlowPackParams { available_w: 20, gap: 1, row_gap: 1, align: Align::Center, origin_x: 0, origin_y: 0 },
    );

    assert_eq!(rows.len(), 1);
    assert_eq!(rows[0].height, 3);
    assert_eq!(rows[0].items[0].1.y, 1);
    assert_eq!(rows[0].items[1].1.y, 0);
}

#[test]
fn pack_rows_offsets_by_inner_origin() {
    let rows = pack_rows_from_sizes(
        &[(0, 10, 1)],
        FlowPackParams { available_w: 30, gap: 0, row_gap: 0, align: Align::Start, origin_x: 2, origin_y: 1 },
    );

    assert_eq!(rows.len(), 1);
    assert_eq!(rows[0].items[0].1.x, 2);
    assert_eq!(rows[0].items[0].1.y, 1);
}
