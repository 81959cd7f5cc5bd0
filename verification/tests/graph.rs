use tui_lipan::event::KeyCode;
use tui_lipan::graph::{Graph, GraphDirection, GraphNode, GraphNodePath};
use tui_lipan::graph_layout::{build_graph_output, measure_graph};
use tui_lipan::graph_node::{reconcile_graph, GraphRenderNode};
use tui_lipan::style::{BorderStyle, Color, Padding, Rect, Style};

#[test]
fn empty_graph_measures_to_chrome_only() {
    assert_eq!(measure_graph(&Graph::new().padding(Padding::all(1)).border(true)), (4, 4));
}

#[test]
fn single_node_has_no_edges() {
    let output = build_graph_output(&Graph::new().root(GraphNode::new("A")));
    assert_eq!(output.nodes.len(), 1);
    assert!(output.edges.is_empty());
}

#[test]
fn center_offset_for_centers_requested_node() {
    let graph = Graph::new()
        .root(GraphNode::new("A").child(GraphNode::new("B")))
        .direction(GraphDirection::LeftRight);
    let output = build_graph_output(&graph);

    for node in &output.nodes {
        let offset = graph.center_offset_for(&node.path, 40, 20).expect("known node centers");
        let center_x = i32::from(node.rect.x) + i32::from(node.rect.w) / 2;
        let center_y = i32::from(node.rect.y) + i32::from(node.rect.h) / 2;
        assert_eq!(offset, (center_x - 20, center_y - 10));
    }

    assert!(graph.center_offset_for(&GraphNodePath::from_segments(vec![9]), 40, 20).is_none());
}

#[test]
fn parent_child_emits_edge_cells() {
    let output = build_graph_output(&Graph::new().root(GraphNode::new("A").child(GraphNode::new("B"))));
    assert_eq!(output.nodes.len(), 2);
    assert!(!output.edges.is_empty());
}

#[test]
fn node_labels_wrap_to_multiple_lines() {
    let output = build_graph_output(&Graph::new().root(GraphNode::new("Alpha Beta Gamma")).max_node_width(5));
    let node = &output.nodes[0];

    assert_eq!(node.rect.w, 9);
    assert_eq!(node.rect.h, 5);
    assert_eq!(node.label_lines.len(), 3);
    assert_eq!(node.label_lines[0], "Alpha");
    assert_eq!(node.label_lines[1], "Beta");
    assert_eq!(node.label_lines[2], "Gamma");
}

#[test]
fn node_labels_honor_explicit_newlines() {
    let output = build_graph_output(&Graph::new().root(GraphNode::new("A\nB")));
    let node = &output.nodes[0];

    assert_eq!(node.rect.h, 4);
    assert_eq!(node.label_lines.len(), 2);
    assert_eq!(node.label_lines[0], "A");
    assert_eq!(node.label_lines[1], "B");
}

#[test]
fn layout_per_node_hover_style_is_preserved() {
    let output =
        build_graph_output(&Graph::new().root(GraphNode::new("root").hover_style(Style::new().fg(Color::Red))));
    let node = &output.nodes[0];

    assert_eq!(node.hover_style.fg, Some(Color::Red));
}

#[test]
fn per_node_focus_style_is_preserved() {
    let output =
        build_graph_output(&Graph::new().root(GraphNode::new("root").focus_style(Style::new().fg(Color::Red))));
    let node = &output.nodes[0];

    assert_eq!(node.focus_style.explicit_style().and_then(|style| style.fg), Some(Color::Red));
}

#[test]
fn per_node_hover_style_makes_graph_hoverable() {
    let graph = Graph::new().root(GraphNode::new("root").hover_style(Style::new().fg(Color::Red)));
    let node = GraphRenderNode::from_graph(&graph);
    let rect = Rect { x: 0, y: 0, w: node.output.width, h: node.output.height };

    assert!(node.is_hoverable());
    assert_eq!(node.hover_test_refinement(0, 0, rect), Some(true));
}

#[test]
fn rounded_edge_style_uses_rounded_elbows() {
    let output = build_graph_output(
        &Graph::new()
            .root(GraphNode::new("A").child(GraphNode::new("B")).child(GraphNode::new("C")))
            .edge_border_style(BorderStyle::Rounded),
    );

    assert!(output.edges.iter().any(|edge| matches!(edge.glyph, '╭' | '╮' | '╰' | '╯')));
}

#[test]
fn hit_test_returns_correct_path() {
    let graph = Graph::new().root(GraphNode::new("root").child(GraphNode::new("left")).child(GraphNode::new("right")));
    let node = GraphRenderNode::from_graph(&graph);
    let right = node.output.nodes.iter().find(|node| node.label == "right").expect("right node should be positioned");

    let hit = node.hit_test(right.rect.x as u16, right.rect.y as u16).expect("right node should be hit").1;

    assert_eq!(hit.path.0.as_slice(), &[1]);
}

#[test]
fn hit_test_misses_outside_nodes() {
    let graph = Graph::new().root(GraphNode::new("root"));
    let node = GraphRenderNode::from_graph(&graph);

    assert!(node.hit_test(u16::MAX, u16::MAX).is_none());
}

#[test]
fn hover_only_graph_does_not_refine_click_hit_testing() {
    let graph = Graph::new().root(GraphNode::new("root")).node_hover_style(Style::new().bg(Color::Blue));
    let node = GraphRenderNode::from_graph(&graph);
    let rect = Rect { x: 0, y: 0, w: node.output.width, h: node.output.height };

    assert_eq!(node.hit_test_refinement(0, 0, rect), None);
    assert_eq!(node.hover_test_refinement(0, 0, rect), Some(true));
    assert_eq!(node.hover_test_refinement(10, 10, rect), Some(false));
}

fn three_node_graph() -> Graph {
    Graph::new().root(GraphNode::new("root").child(GraphNode::new("left")).child(GraphNode::new("right")))
}

#[test]
fn reconcile_reports_first_build_and_then_only_focus_moves() {
    let mut node = GraphRenderNode::new();
    assert!(reconcile_graph(&three_node_graph(), &mut node));
    assert_eq!(node.focused_path.as_ref().map(|p| p.0.clone()), Some(vec![]));
    // The same graph again changes nothing.
    assert!(!reconcile_graph(&three_node_graph(), &mut node));
    // A requested focus on a drawn node moves focus.
    let focused = three_node_graph().focused_path(GraphNodePath::from_segments(vec![1]));
    assert!(reconcile_graph(&focused, &mut node));
    assert_eq!(node.focused_path.as_ref().map(|p| p.0.clone()), Some(vec![1]));
    assert!(!reconcile_graph(&three_node_graph().focused_path(GraphNodePath::from_segments(vec![1])), &mut node));
}

#[test]
fn reconcile_falls_back_to_first_node_for_unknown_focus() {
    let graph = three_node_graph().focused_path(GraphNodePath::from_segments(vec![7]));
    let node = GraphRenderNode::from_graph(&graph);
    assert_eq!(node.focused_path.as_ref().map(|p| p.0.clone()), Some(vec![]));
}

#[test]
fn navigation_follows_the_layout_axis() {
    let mut node = GraphRenderNode::from_graph(&three_node_graph());
    let down = node.navigation_target(KeyCode::Down).expect("root has a first child");
    assert_eq!(down.0, vec![0]);
    assert!(node.set_focused_path(down));
    assert_eq!(node.navigation_target(KeyCode::Right).map(|p| p.0), Some(vec![1]));
    assert_eq!(node.navigation_target(KeyCode::Left), None);
    assert_eq!(node.navigation_target(KeyCode::Up).map(|p| p.0), Some(vec![]));
    assert_eq!(node.navigation_target(KeyCode::End).map(|p| p.0), Some(vec![1]));
    assert_eq!(node.navigation_target(KeyCode::Home).map(|p| p.0), Some(vec![]));
    assert_eq!(node.navigation_target(KeyCode::Enter), None);
}

#[test]
fn left_right_graph_swaps_navigation_axes() {
    let node = GraphRenderNode::from_graph(&three_node_graph().direction(GraphDirection::LeftRight));
    assert_eq!(node.navigation_target(KeyCode::Right).map(|p| p.0), Some(vec![0]));
    assert_eq!(node.navigation_target(KeyCode::Down), None);
}

#[test]
fn set_focused_path_rejects_unknown_and_repeated_paths() {
    let mut node = GraphRenderNode::from_graph(&three_node_graph());
    assert!(!node.set_focused_path(GraphNodePath::from_segments(vec![5])));
    assert!(!node.set_focused_path(GraphNodePath::root()));
    assert!(node.set_focused_path(GraphNodePath::from_segments(vec![0])));
    let event = node.focused_event().expect("a focused node");
    assert_eq!(event.label, "left");
}

#[test]
fn click_handlers_make_hit_testing_follow_nodes() {
    let mut node = GraphRenderNode::from_graph(&three_node_graph());
    let rect = Rect { x: 0, y: 0, w: node.output.width, h: node.output.height };
    assert_eq!(node.hit_test_refinement(0, 0, rect), None);
    node.on_node_click = true;
    let root = &node.output.nodes[0];
    let (x, y) = (root.rect.x, root.rect.y);
    assert_eq!(node.hit_test_refinement(x, y, rect), Some(true));
    assert_eq!(node.hit_test_refinement(0, 0, rect), Some(false));
}

#[test]
fn local_content_point_skips_border_and_padding() {
    let node = GraphRenderNode::from_graph(&three_node_graph().border(true).padding(Padding::all(1)));
    let rect = Rect { x: 10, y: 5, w: 20, h: 10 };
    assert_eq!(node.local_content_point(rect, 12, 7), Some((0, 0)));
    assert_eq!(node.local_content_point(rect, 11, 7), None);
    assert_eq!(node.local_content_point(rect, 27, 12), Some((15, 5)));
    assert_eq!(node.local_content_point(rect, 28, 12), None);
}
