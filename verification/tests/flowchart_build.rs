use std::collections::HashSet;

use tui_lipan::flowchart::{Edge, EdgeStyle, FlowDirection, Flowchart, NodeShape};
use tui_lipan::flowchart_build::{build_flowchart_output, initial_layout_nodes, measure_flowchart};
use tui_lipan::flowchart_build::{layered_nodes, try_build_flowchart_output, try_measure_flowchart};
use tui_lipan::flowchart_output::FlowchartRenderOutput;
use tui_lipan::flowchart_rank::{assign_layers, classify_edges};
use tui_lipan::graph_layout::{glyph_for_bits, EAST, NORTH, SOUTH, WEST};
use tui_lipan::style::{BorderStyle, Padding, Rect};

/// Layers in declaration order (the crossing reduction is left out: these
/// charts have none to remove).
fn ordered(fc: &Flowchart) -> Vec<tui_lipan::flowchart_layout::LayoutNode> {
    let mut nodes = initial_layout_nodes(fc);
    let (edges, _) = classify_edges(fc);
    assign_layers(&mut nodes, &edges);
    nodes
}

fn build(fc: &Flowchart) -> FlowchartRenderOutput {
    build_flowchart_output(fc, &ordered(fc))
}

fn rect_contains_rect(outer: Rect, inner: Rect) -> bool {
    let outer_right = outer.x.saturating_add(outer.w as i16);
    let outer_bottom = outer.y.saturating_add(outer.h as i16);
    let inner_right = inner.x.saturating_add(inner.w as i16);
    let inner_bottom = inner.y.saturating_add(inner.h as i16);
    inner.x >= outer.x && inner.y >= outer.y && inner_right <= outer_right && inner_bottom <= outer_bottom
}

fn rect_contains_point(rect: Rect, x: i16, y: i16) -> bool {
    x >= rect.x && y >= rect.y && x < rect.x.saturating_add(rect.w as i16) && y < rect.y.saturating_add(rect.h as i16)
}

#[test]
fn empty_flowchart_measures_to_chrome_only() {
    let fc = Flowchart::new(FlowDirection::TopDown).padding(Padding::all(1)).border(true);
    assert_eq!(measure_flowchart(&fc, &ordered(&fc)), (4, 4));
}

#[test]
fn single_edge_two_nodes_topdown() {
    let output = build(
        &Flowchart::new(FlowDirection::TopDown)
            .node("A", "Start", NodeShape::Rect)
            .node("B", "End", NodeShape::Rect)
            .edge(Edge::solid("A", "B")),
    );
    let a = output.nodes.iter().find(|node| node.id.as_str() == "A").unwrap();
    let b = output.nodes.iter().find(|node| node.id.as_str() == "B").unwrap();
    assert!(a.rect.y < b.rect.y);
}

#[test]
fn cycle_breaks_back_edge() {
    let output = build(
        &Flowchart::new(FlowDirection::TopDown)
            .node("A", "A", NodeShape::Rect)
            .node("B", "B", NodeShape::Rect)
            .node("C", "C", NodeShape::Rect)
            .edge(Edge::solid("A", "B"))
            .edge(Edge::solid("B", "C"))
            .edge(Edge::solid("C", "A")),
    );
    assert!(output.edges.iter().any(|edge| edge.from.as_str() == "C" && edge.to.as_str() == "A"));
    let distinct_y: HashSet<_> = output.nodes.iter().map(|node| node.rect.y).collect();
    assert_eq!(distinct_y.len(), 3);
}

#[test]
fn subgraph_layout_recursive() {
    let output = build(&Flowchart::new(FlowDirection::TopDown).subgraph("outer", "Outer", |b| {
        b.node("A", "A", NodeShape::Rect).subgraph("inner", "Inner", |b| b.node("B", "B", NodeShape::Rect))
    }));
    assert_eq!(output.subgraphs.len(), 2);
    let outer = output.subgraphs.iter().find(|sub| sub.id.as_str() == "outer").unwrap();
    let inner = output.subgraphs.iter().find(|sub| sub.id.as_str() == "inner").unwrap();
    assert!(outer.rect.w >= inner.rect.w);
}

#[test]
fn subgraph_rect_excludes_non_member_branch_sibling() {
    let output = build(
        &Flowchart::new(FlowDirection::TopDown)
            .subgraph("sg", "Group", |b| {
                b.node("A", "A", NodeShape::Rect).node("C", "C", NodeShape::Rect).edge(Edge::solid("A", "C"))
            })
            .node("B", "B", NodeShape::Rect)
            .edge(Edge::solid("A", "B")),
    );
    let subgraph = output.subgraphs.iter().find(|subgraph| subgraph.id.as_str() == "sg").unwrap();
    let sibling = output.nodes.iter().find(|node| node.id.as_str() == "B").unwrap();
    assert!(!rect_contains_rect(subgraph.rect, sibling.rect));
}

#[test]
fn back_edge_route_avoids_non_endpoint_node_rects() {
    let output = build(
        &Flowchart::new(FlowDirection::TopDown)
            .node("A", "A", NodeShape::Rect)
            .node("B", "B", NodeShape::Rect)
            .node("C", "C", NodeShape::Rect)
            .edge(Edge::solid("A", "B"))
            .edge(Edge::solid("B", "C"))
            .edge(Edge::solid("C", "A")),
    );
    let middle = output.nodes.iter().find(|node| node.id.as_str() == "B").unwrap();
    let back_edge = output.edges.iter().find(|edge| edge.from.as_str() == "C" && edge.to.as_str() == "A").unwrap();
    assert!(back_edge.cells.iter().all(|cell| !rect_contains_point(middle.rect, cell.x, cell.y)));
}

#[test]
fn merged_source_port_keeps_attachment_bit() {
    let output = build(
        &Flowchart::new(FlowDirection::TopDown)
            .node("A", "Start", NodeShape::Stadium)
            .node("B", "Decide?", NodeShape::Diamond)
            .node("C", "Do work", NodeShape::Rect)
            .node("D", "End", NodeShape::Stadium)
            .edge(Edge::solid("A", "B"))
            .edge(Edge::solid("B", "C").label("yes"))
            .edge(Edge::thick("C", "D"))
            .edge(Edge::solid("C", "A").label("loop")),
    );
    let c = output.nodes.iter().find(|node| node.id.as_str() == "C").unwrap();
    let source_port = (c.rect.x.saturating_add(c.rect.w as i16 / 2), c.rect.y.saturating_add(c.rect.h as i16));
    let merged_bits = output
        .edges
        .iter()
        .flat_map(|edge| &edge.cells)
        .filter(|cell| (cell.x, cell.y) == source_port)
        .fold(0, |bits, cell| bits | cell.bits);
    assert_ne!(merged_bits & NORTH, 0, "source port must connect back to source node");
    assert_ne!(merged_bits & SOUTH, 0, "C -> D must continue downward from source port");
    assert_ne!(merged_bits & (EAST | WEST), 0, "C -> A back-edge should merge horizontally at the same source port");
    assert_ne!(glyph_for_bits(merged_bits, BorderStyle::Plain), '┌');
}

#[test]
fn direction_lr_swaps_axes() {
    let td = build(
        &Flowchart::new(FlowDirection::TopDown)
            .node("A", "A", NodeShape::Rect)
            .node("B", "B", NodeShape::Rect)
            .edge(Edge::solid("A", "B")),
    );
    let lr = build(
        &Flowchart::new(FlowDirection::LeftRight)
            .node("A", "A", NodeShape::Rect)
            .node("B", "B", NodeShape::Rect)
            .edge(Edge::solid("A", "B")),
    );
    assert!(td.height > td.width / 2);
    assert!(lr.width > lr.height / 2);
}

#[test]
fn edge_between_subgraph_siblings_does_not_cross_inner_subgraph_rect() {
    let output = build(&Flowchart::new(FlowDirection::TopDown).subgraph("processing", "Processing", |b| {
        b.node("X", "Step 1", NodeShape::Rect)
            .node("Y", "Step 2", NodeShape::Rect)
            .edge(Edge::solid("X", "Y"))
            .subgraph("nested", "Nested", |b| b.node("Z", "Inner", NodeShape::Rect))
    }));
    let nested = output.subgraphs.iter().find(|sub| sub.id.as_str() == "nested").unwrap();
    let edge = output.edges.iter().find(|edge| edge.from.as_str() == "X" && edge.to.as_str() == "Y").unwrap();
    for cell in &edge.cells {
        assert!(!rect_contains_point(nested.rect, cell.x, cell.y));
    }
}

#[test]
fn every_visible_edge_produces_cells() {
    let output = build(
        &Flowchart::new(FlowDirection::TopDown)
            .node("A", "A", NodeShape::Rect)
            .node("B", "B", NodeShape::Rect)
            .node("C", "C", NodeShape::Rect)
            .edge(Edge::solid("A", "B"))
            .edge(Edge::dashed("A", "C"))
            .edge(Edge::thick("B", "C")),
    );
    for edge in &output.edges {
        if matches!(edge.style, EdgeStyle::Invisible) {
            continue;
        }
        assert!(!edge.cells.is_empty());
    }
}

#[test]
fn overlapping_edges_share_cell_bits_for_junction_glyph_compose() {
    let output = build(
        &Flowchart::new(FlowDirection::TopDown)
            .node("A", "A", NodeShape::Rect)
            .node("B", "B", NodeShape::Rect)
            .node("C", "C", NodeShape::Rect)
            .node("D", "D", NodeShape::Rect)
            .edge(Edge::solid("A", "B"))
            .edge(Edge::solid("A", "C"))
            .edge(Edge::solid("B", "D"))
            .edge(Edge::solid("C", "D")),
    );
    for edge in &output.edges {
        for cell in &edge.cells {
            assert!(cell.bits != 0, "edge cell {:?} has no direction bits", cell);
        }
    }
}

#[test]
fn back_edge_route_avoids_non_containing_subgraph_rect() {
    let output = build(
        &Flowchart::new(FlowDirection::TopDown)
            .node("A", "Start", NodeShape::Rect)
            .node("C", "End", NodeShape::Rect)
            .edge(Edge::solid("A", "C"))
            .edge(Edge::solid("C", "A"))
            .subgraph("processing", "Processing", |b| {
                b.node("X", "Step 1", NodeShape::Rect).node("Y", "Step 2", NodeShape::Rect).edge(Edge::solid("X", "Y"))
            }),
    );
    let processing = output.subgraphs.iter().find(|sub| sub.id.as_str() == "processing").unwrap();
    let back = output.edges.iter().find(|edge| edge.from.as_str() == "C" && edge.to.as_str() == "A").unwrap();
    for cell in &back.cells {
        assert!(!rect_contains_point(processing.rect, cell.x, cell.y));
    }
}

#[test]
fn back_edge_label_does_not_overlap_routing_cells() {
    let output = build(
        &Flowchart::new(FlowDirection::TopDown)
            .node("A", "A", NodeShape::Rect)
            .node("B", "B", NodeShape::Rect)
            .node("C", "C", NodeShape::Rect)
            .edge(Edge::solid("A", "B"))
            .edge(Edge::solid("B", "C"))
            .edge(Edge::solid("C", "A").label("loop")),
    );
    let back = output.edges.iter().find(|edge| edge.from.as_str() == "C" && edge.to.as_str() == "A").unwrap();
    let (lx, ly) = back.label_pos.expect("back-edge label_pos populated");
    let label_width = back.label.as_ref().unwrap().chars().count() as i16;
    for cell in &back.cells {
        let on_label_row = cell.y == ly;
        let in_label_span = cell.x >= lx && cell.x < lx.saturating_add(label_width);
        assert!(!(on_label_row && in_label_span));
    }
}

#[test]
fn straight_edge_cells_run_from_port_to_port() {
    let output = build(
        &Flowchart::new(FlowDirection::TopDown)
            .node("A", "A", NodeShape::Rect)
            .node("B", "B", NodeShape::Rect)
            .edge(Edge::solid("A", "B")),
    );
    let a = output.nodes.iter().find(|node| node.id.as_str() == "A").unwrap().rect;
    let b = output.nodes.iter().find(|node| node.id.as_str() == "B").unwrap().rect;
    let edge = &output.edges[0];
    let x = a.x + a.w as i16 / 2;
    let top = a.y + a.h as i16;
    let bottom = b.y - 1;
    let expected: Vec<(i16, i16, u8)> = (top..=bottom)
        .map(|y| (x, y, NORTH | SOUTH))
        .collect();
    let got: Vec<(i16, i16, u8)> = edge.cells.iter().map(|c| (c.x, c.y, c.bits)).collect();
    assert_eq!(got, expected);
    assert_eq!(edge.head_from_pos, Some((x, top, FlowDirection::BottomUp)));
    assert_eq!(edge.head_to_pos, Some((x, bottom, FlowDirection::TopDown)));
}

#[test]
fn checked_layout_matches_the_layout() {
    let fc = Flowchart::new(FlowDirection::TopDown)
        .node("A", "A", NodeShape::Rect)
        .node("B", "B", NodeShape::Rect)
        .edge(Edge::solid("A", "B").label("go"));
    let nodes = layered_nodes(&fc);
    assert_eq!(nodes.iter().map(|n| n.layer).collect::<Vec<_>>(), vec![0, 1]);
    let out = try_build_flowchart_output(&fc, &nodes).unwrap();
    let plain = build(&fc);
    assert_eq!((out.width, out.height), (plain.width, plain.height));
    assert_eq!(try_measure_flowchart(&fc, &nodes), Some(measure_flowchart(&fc, &nodes)));
}
