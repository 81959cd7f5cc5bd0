use tui_lipan::flowchart::{Edge, EdgeArrow, EdgeStyle, FlowDirection, Flowchart, NodeId, NodeShape};
use tui_lipan::flowchart_output::{
    bounds_for_rects, normalize_output, opposite, port_attachment_bits, ports, rect_intersects_horizontal_segment,
    rect_intersects_vertical_segment, signed_midpoint, EdgeCell, PositionedEdge,
};
use tui_lipan::flowchart_rank::{assign_layers, classify_edges};
use tui_lipan::flowchart_boxes::{
    include_rect, layout_subgraphs, subgraph_depth, PositionedNode, PositionedSubgraph,
};
use tui_lipan::flowchart_layout::{
    clamp_i32_to_i16, cluster_gap, compute_node_offsets, layered_group, minor_extent_for_indices,
    subgraph_header_floor, LayoutNode,
};
use tui_lipan::flowchart_label::{intrinsic_node_size, wrap_label};
use tui_lipan::flowchart_place::assign_coordinates;
use tui_lipan::style::{Color, Rect, Style};

fn layout_node(spec_index: usize, layer: usize, order: usize, width: u16, height: u16) -> LayoutNode {
    LayoutNode { spec_index, layer, order, width, height }
}

fn positioned(id: &str, rect: Rect) -> PositionedNode {
    PositionedNode {
        rect,
        id: NodeId::new(id),
        label: id.to_string(),
        label_lines: vec![id.to_string()],
        shape: NodeShape::Rect,
        style: Style::new(),
        hover_style: Style::new(),
    }
}

fn grouped_chart(title: &str) -> Flowchart {
    Flowchart::new(FlowDirection::TopDown)
        .node("a", "A", NodeShape::Rect)
        .subgraph("s", title, |b| b.node("b", "B", NodeShape::Rect).node("c", "C", NodeShape::Rect))
}

#[test]
fn cluster_gap_adds_node_gap_padding_and_border() {
    assert_eq!(cluster_gap(&Flowchart::new(FlowDirection::TopDown)), 12);
}

#[test]
fn minor_extent_sums_sizes_and_gaps() {
    let fc = Flowchart::new(FlowDirection::TopDown);
    let nodes = vec![layout_node(0, 0, 0, 5, 3), layout_node(1, 0, 1, 7, 9)];
    assert_eq!(minor_extent_for_indices(&fc, &nodes, &vec![0, 1]), 16);
    assert_eq!(minor_extent_for_indices(&fc, &nodes, &vec![]), 0);
    let lr = Flowchart::new(FlowDirection::LeftRight);
    assert_eq!(minor_extent_for_indices(&lr, &nodes, &vec![0, 1]), 16);
    assert_eq!(minor_extent_for_indices(&lr, &nodes, &vec![1]), 9);
}

#[test]
fn layered_group_orders_by_position_in_layer() {
    let nodes = vec![
        layout_node(0, 1, 2, 1, 1),
        layout_node(1, 0, 0, 1, 1),
        layout_node(2, 1, 0, 1, 1),
        layout_node(3, 1, 2, 1, 1),
    ];
    assert_eq!(layered_group(&nodes, &vec![0, 1, 2, 3], 1), vec![2, 0, 3]);
    assert_eq!(layered_group(&nodes, &vec![0, 1, 2, 3], 0), vec![1]);
    assert_eq!(layered_group(&nodes, &vec![3, 0], 1), vec![3, 0]);
    assert!(layered_group(&nodes, &vec![0, 1, 2, 3], 5).is_empty());
}

#[test]
fn header_floor_is_label_beyond_padding_and_border() {
    let fc = grouped_chart("A very long title");
    assert_eq!(subgraph_header_floor(&fc, &NodeId::new("s")), 13);
    assert_eq!(subgraph_header_floor(&fc, &NodeId::new("missing")), 0);
    let short = grouped_chart("G");
    assert_eq!(subgraph_header_floor(&short, &NodeId::new("s")), 0);
}

#[test]
fn subgraph_members_get_their_own_lane() {
    let fc = grouped_chart("Group");
    let nodes = vec![
        layout_node(0, 0, 0, 5, 3),
        layout_node(1, 0, 0, 7, 3),
        layout_node(2, 1, 0, 3, 3),
    ];
    let (offsets, total) = compute_node_offsets(&fc, &nodes, 1);
    assert_eq!(offsets, vec![0, 17, 19]);
    assert_eq!(total, 24);
}

#[test]
fn long_subgraph_title_widens_its_lane() {
    let fc = grouped_chart("A very long title").node("d", "D", NodeShape::Rect);
    let nodes = vec![
        layout_node(0, 0, 0, 5, 3),
        layout_node(1, 0, 0, 7, 3),
        layout_node(2, 1, 0, 3, 3),
        layout_node(3, 0, 1, 5, 3),
    ];
    let (offsets, total) = compute_node_offsets(&fc, &nodes, 1);
    // The diagram's own row holds a and d: 5 + 4 + 5 wide.
    assert_eq!(offsets[0], 0);
    assert_eq!(offsets[3], 9);
    // The subgraph's lane starts after the row and the cluster gap.
    assert_eq!(offsets[1], 26);
    assert_eq!(offsets[2], 28);
    assert_eq!(total, 26 + 13);
}

#[test]
fn include_rect_grows_bounds() {
    let (mut min_x, mut min_y, mut max_x, mut max_y) = (i16::MAX, i16::MAX, i16::MIN, i16::MIN);
    include_rect(Rect { x: 2, y: 3, w: 4, h: 5 }, &mut min_x, &mut min_y, &mut max_x, &mut max_y);
    include_rect(Rect { x: -1, y: 6, w: 2, h: 1 }, &mut min_x, &mut min_y, &mut max_x, &mut max_y);
    assert_eq!((min_x, min_y, max_x, max_y), (-1, 3, 6, 8));
}

#[test]
fn subgraph_box_surrounds_members_with_padding_and_header() {
    let fc = grouped_chart("Group");
    let nodes = vec![
        positioned("a", Rect { x: 0, y: 0, w: 5, h: 3 }),
        positioned("b", Rect { x: 17, y: 0, w: 7, h: 3 }),
        positioned("c", Rect { x: 19, y: 6, w: 3, h: 3 }),
    ];
    let boxes: Vec<PositionedSubgraph> = layout_subgraphs(&fc, &nodes);
    assert_eq!(boxes.len(), 1);
    assert_eq!(boxes[0].rect, Rect { x: 14, y: -3, w: 13, h: 14 });
    assert_eq!(boxes[0].header_rect, Rect { x: 15, y: -3, w: 7, h: 1 });
    assert_eq!(boxes[0].id.as_str(), "s");
    assert_eq!(boxes[0].label, "Group");
    assert_eq!(boxes[0].depth, 0);
}

#[test]
fn nested_boxes_cover_inner_boxes_and_sort_outermost_first() {
    let fc = Flowchart::new(FlowDirection::TopDown)
        .subgraph("outer", "O", |b| b.subgraph("inner", "I", |i| i.node("x", "X", NodeShape::Rect)))
        .class_def("hot", Style::new().fg(Color::Red))
        .assign_class("inner", "hot");
    let nodes = vec![positioned("x", Rect { x: 10, y: 10, w: 3, h: 3 })];
    let boxes = layout_subgraphs(&fc, &nodes);
    assert_eq!(boxes.len(), 2);
    assert_eq!(boxes[0].id.as_str(), "outer");
    assert_eq!(boxes[1].id.as_str(), "inner");
    assert_eq!(boxes[1].depth, 1);
    assert_eq!(boxes[1].rect, Rect { x: 7, y: 7, w: 9, h: 8 });
    assert_eq!(boxes[0].rect, Rect { x: 4, y: 4, w: 15, h: 13 });
    assert_eq!(boxes[1].style, Style::new().fg(Color::Red));
    assert_eq!(boxes[0].style, Style::new());
    assert_eq!(subgraph_depth(&fc, &NodeId::new("inner")), 1);
    assert_eq!(subgraph_depth(&fc, &NodeId::new("outer")), 0);
}

#[test]
fn subgraph_without_members_gets_no_box() {
    let fc = Flowchart::new(FlowDirection::TopDown).subgraph("empty", "E", |b| b);
    assert!(layout_subgraphs(&fc, &Vec::new()).is_empty());
}

#[test]
fn clamp_i32_to_i16_saturates() {
    assert_eq!(clamp_i32_to_i16(40_000), i16::MAX);
    assert_eq!(clamp_i32_to_i16(-40_000), i16::MIN);
    assert_eq!(clamp_i32_to_i16(-5), -5);
}

#[test]
fn node_shape_diamond_intrinsic_size() {
    let (w, h, _) = intrinsic_node_size("x", NodeShape::Diamond, 20);
    assert!(w >= 5);
    assert!(h >= 3);
}

#[test]
fn intrinsic_size_adds_shape_chrome_to_wrapped_text() {
    let (w, h, lines) = intrinsic_node_size("hello brave new world", NodeShape::Rect, 11);
    assert_eq!(lines, vec!["hello brave".to_string(), "new world".to_string()]);
    assert_eq!((w, h), (13, 4));
    let (w, h, lines) = intrinsic_node_size("", NodeShape::Stadium, 0);
    assert_eq!(lines, vec![String::new()]);
    assert_eq!((w, h), (6, 3));
}

#[test]
fn wrap_label_keeps_long_words_whole_and_lines_apart() {
    assert_eq!(
        wrap_label("a verylongword b\nsecond  line", 4),
        vec!["a".to_string(), "verylongword".to_string(), "b".to_string(), "second".to_string(), "line".to_string()]
    );
    assert_eq!(wrap_label("x\n\ny", 10), vec!["x".to_string(), String::new(), "y".to_string()]);
    assert_eq!(wrap_label("", 10), vec![String::new()]);
}

#[test]
fn coordinates_stack_layers_and_center_lanes() {
    let fc = Flowchart::new(FlowDirection::TopDown)
        .node("a", "A", NodeShape::Rect)
        .node("b", "B", NodeShape::Rect)
        .class_def("hot", Style::new().bold())
        .assign_class("b", "hot");
    let nodes = vec![layout_node(0, 0, 0, 5, 3), layout_node(1, 1, 0, 7, 4)];
    let lines = vec![vec!["A".to_string()], vec!["B".to_string()]];
    let placed = assign_coordinates(&fc, &nodes, &lines);
    assert_eq!(placed.len(), 2);
    // Lane width 7 centred on zero: offsets 1 and 0, less 3.
    assert_eq!(placed[0].rect, Rect { x: -2, y: 0, w: 5, h: 3 });
    assert_eq!(placed[1].rect, Rect { x: -3, y: 6, w: 7, h: 4 });
    assert_eq!(placed[1].style, Style::new().bold());
    assert_eq!(placed[0].label_lines, vec!["A".to_string()]);

    let up = Flowchart::new(FlowDirection::BottomUp)
        .node("a", "A", NodeShape::Rect)
        .node("b", "B", NodeShape::Rect);
    let placed = assign_coordinates(&up, &nodes, &lines);
    // Layers 3 and 4 tall with a gap of 3: the full extent is 10.
    assert_eq!(placed[0].rect.y, 10);
    assert_eq!(placed[1].rect.y, 4);

    let lr = Flowchart::new(FlowDirection::LeftRight)
        .node("a", "A", NodeShape::Rect)
        .node("b", "B", NodeShape::Rect);
    let placed = assign_coordinates(&lr, &nodes, &lines);
    assert_eq!((placed[0].rect.x, placed[1].rect.x), (0, 8));
}

fn unranked(fc: &Flowchart) -> Vec<LayoutNode> {
    (0..fc.nodes.len()).map(|index| layout_node(index, 0, index, 1, 1)).collect()
}

fn index_of(fc: &Flowchart, id: &str) -> usize {
    fc.nodes.iter().position(|node| node.id.as_str() == id).unwrap()
}

#[test]
fn dummy_nodes_inserted_for_long_edges() {
    let flowchart = Flowchart::new(FlowDirection::TopDown)
        .node("A", "A", NodeShape::Rect)
        .node("B", "B", NodeShape::Rect)
        .node("C", "C", NodeShape::Rect)
        .edge(Edge::solid("A", "C"))
        .edge(Edge::solid("A", "B"))
        .edge(Edge::solid("B", "C"));
    let (edges, _) = classify_edges(&flowchart);
    let mut nodes = unranked(&flowchart);
    assign_layers(&mut nodes, &edges);
    let long = edges
        .iter()
        .find(|edge| {
            flowchart.edges[edge.index].from.as_str() == "A" && flowchart.edges[edge.index].to.as_str() == "C"
        })
        .unwrap();
    assert_eq!(nodes[long.to].layer.saturating_sub(nodes[long.from].layer).saturating_sub(1), 1);
}

#[test]
fn predecessorless_source_pulls_forward_toward_later_successor() {
    let flowchart = Flowchart::new(FlowDirection::TopDown)
        .node("A", "A", NodeShape::Rect)
        .node("X", "X", NodeShape::Rect)
        .node("B", "B", NodeShape::Rect)
        .node("T", "T", NodeShape::Rect)
        .edge(Edge::solid("A", "X"))
        .edge(Edge::solid("X", "T"))
        .edge(Edge::solid("B", "T"));
    let (edges, _) = classify_edges(&flowchart);
    let mut nodes = unranked(&flowchart);

    assign_layers(&mut nodes, &edges);

    let b = index_of(&flowchart, "B");
    let t = index_of(&flowchart, "T");
    assert_eq!(nodes[b].layer, nodes[t].layer.saturating_sub(1));
    assert!(nodes[b].layer > 0);
}

#[test]
fn cycle_closing_edge_is_reversed_and_layers_stay_distinct() {
    let flowchart = Flowchart::new(FlowDirection::TopDown)
        .node("A", "A", NodeShape::Rect)
        .node("B", "B", NodeShape::Rect)
        .node("C", "C", NodeShape::Rect)
        .edge(Edge::solid("A", "B"))
        .edge(Edge::solid("B", "C"))
        .edge(Edge::solid("C", "A"))
        .edge(Edge::solid("C", "missing"));
    let (edges, back) = classify_edges(&flowchart);
    assert_eq!(edges.len(), 3);
    assert_eq!(back, vec![false, false, true, false]);
    assert!(edges[2].reversed && !edges[0].reversed && !edges[1].reversed);
    assert_eq!((edges[2].from, edges[2].to), (2, 0));
    let mut nodes = unranked(&flowchart);
    assign_layers(&mut nodes, &edges);
    let layers: Vec<usize> = nodes.iter().map(|n| n.layer).collect();
    assert_eq!(layers, vec![0, 1, 2]);
    assert_eq!(nodes[2].width, 1);
}

fn routed(from: &str, to: &str, cells: Vec<EdgeCell>, label: Option<&str>, label_pos: Option<(i16, i16)>) -> PositionedEdge {
    PositionedEdge {
        index: 0,
        from: NodeId::new(from),
        to: NodeId::new(to),
        label: label.map(str::to_string),
        style: EdgeStyle::Solid,
        head_from: EdgeArrow::NoHead,
        head_to: EdgeArrow::Filled,
        line_style: None,
        label_style: None,
        cells,
        label_pos,
        head_from_pos: None,
        head_to_pos: Some((3, 4, FlowDirection::TopDown)),
    }
}

#[test]
fn normalize_moves_picture_to_origin_and_measures_it() {
    let nodes = vec![positioned("a", Rect { x: -4, y: 2, w: 5, h: 3 })];
    let edges = vec![routed("a", "b", vec![EdgeCell { x: 3, y: 5, bits: 1 }], Some("yes"), Some((6, -1)))];
    let out = normalize_output(nodes, Vec::new(), edges);
    assert_eq!(out.nodes[0].rect, Rect { x: 0, y: 3, w: 5, h: 3 });
    assert_eq!((out.edges[0].cells[0].x, out.edges[0].cells[0].y), (7, 6));
    assert_eq!(out.edges[0].label_pos, Some((10, 0)));
    assert_eq!(out.edges[0].head_to_pos, Some((7, 5, FlowDirection::TopDown)));
    // From x = -4 to the label's end at 6 + 3, from y = -1 to the cell's bottom at 6.
    assert_eq!((out.width, out.height), (13, 7));
}

#[test]
fn normalize_of_nothing_is_empty() {
    let out = normalize_output(Vec::new(), Vec::new(), Vec::new());
    assert!(out.nodes.is_empty() && out.edges.is_empty());
    assert_eq!((out.width, out.height), (0, 0));
}

#[test]
fn ports_sit_on_the_facing_sides() {
    let from = Rect { x: 0, y: 0, w: 5, h: 3 };
    let to = Rect { x: 10, y: 8, w: 4, h: 3 };
    assert_eq!(ports(from, to, FlowDirection::TopDown), ((2, 3), (12, 7)));
    assert_eq!(ports(from, to, FlowDirection::BottomUp), ((2, -1), (12, 11)));
    assert_eq!(ports(from, to, FlowDirection::LeftRight), ((5, 1), (9, 9)));
    assert_eq!(ports(from, to, FlowDirection::RightLeft), ((-1, 1), (14, 9)));
    assert_eq!(opposite(FlowDirection::LeftRight), FlowDirection::RightLeft);
    assert_eq!(port_attachment_bits(FlowDirection::TopDown), (1, 4));
}

#[test]
fn midpoints_round_toward_zero() {
    assert_eq!(signed_midpoint(1, 4), 2);
    assert_eq!(signed_midpoint(-1, -4), -2);
    assert_eq!(signed_midpoint(i16::MAX, i16::MAX), i16::MAX);
}

#[test]
fn segments_crossing_rects() {
    let r = Rect { x: 2, y: 2, w: 3, h: 3 };
    assert!(rect_intersects_vertical_segment(r, 3, 0, 10));
    assert!(!rect_intersects_vertical_segment(r, 5, 0, 10));
    assert!(!rect_intersects_vertical_segment(r, 3, 0, 2));
    assert!(rect_intersects_horizontal_segment(r, 4, 10, 0));
    assert!(!rect_intersects_horizontal_segment(r, 1, 0, 10));
}

#[test]
fn bounds_cover_all_rects() {
    assert_eq!(bounds_for_rects(&Vec::new()), None);
    let rects = vec![Rect { x: 1, y: 1, w: 2, h: 2 }, Rect { x: -1, y: 4, w: 1, h: 1 }];
    assert_eq!(bounds_for_rects(&rects), Some(Rect { x: -1, y: 1, w: 4, h: 4 }));
}
