//! The node-edge graph widget: a tree laid out in layers, with elbow edges
//! between parents and children.

use vstd::prelude::*;

use crate::file_tree::StyleSlot;
use crate::style::{BorderStyle, Length, Padding, Rect, Style};

verus! {

/// Direction in which a graph tree is laid out.
#[derive(Clone, Copy, Debug, PartialEq, Eq, Structural, Hash)]
pub enum GraphDirection {
    /// Parents above children.
    TopDown,
    /// Parents left of children.
    LeftRight,
}

/// Graph layout algorithm.
#[derive(Clone, Copy, Debug, PartialEq, Eq, Structural, Hash)]
pub enum GraphLayout {
    /// Tidy layered tree layout.
    Tree,
}

/// The child-index segments leading from the root to a node.
#[derive(Clone, Debug, PartialEq, Eq, Hash)]
pub struct GraphNodePath(pub Vec<usize>);

impl GraphNodePath {
    /// The root's path.
    pub fn root() -> (r: Self)
        ensures
            r.0@.len() == 0,
    {
        GraphNodePath(Vec::new())
    }

    /// A path from child-index segments.
    pub fn from_segments(segments: Vec<usize>) -> (r: Self)
        ensures
            r.0@ == segments@,
    {
        GraphNodePath(segments)
    }

    /// The child-index segments from the root to the node.
    pub fn segments(&self) -> (r: &[usize])
        ensures
            r@ == self.0@,
    {
        self.0.as_slice()
    }
}

/// Pointer or keyboard interaction with a node.
#[derive(Clone, Debug, PartialEq, Eq, Hash)]
pub struct GraphNodeEvent {
    pub path: GraphNodePath,
    pub label: String,
}

/// A labelled node of a graph tree.
#[derive(Debug)]
pub struct GraphNode {
    pub label: String,
    pub children: Vec<GraphNode>,
    pub style: Style,
    pub hover_style: Style,
    pub focus_style: StyleSlot,
    pub border: Option<bool>,
}

impl GraphNode {
    /// A childless node with the given label.
    pub fn new(label: &str) -> (r: Self)
        ensures
            r.label@ == label@,
            r.children@.len() == 0,
            r.style == Style::empty(),
            r.hover_style == Style::empty(),
            r.focus_style == StyleSlot::Replace(Style::empty()),
            r.border is None,
    {
        GraphNode {
            label: String::from_str(label),
            children: Vec::new(),
            style: Style::new(),
            hover_style: Style::new(),
            focus_style: StyleSlot::Replace(Style::new()),
            border: None,
        }
    }

    /// Replaces all children.
    pub fn children(self, children: Vec<GraphNode>) -> (r: Self)
        ensures
            r.children@ == children@,
            r.label == self.label && r.style == self.style && r.hover_style == self.hover_style
                && r.focus_style == self.focus_style && r.border == self.border,
    {
        GraphNode { children, ..self }
    }

    /// Appends one child.
    pub fn child(self, child: GraphNode) -> (r: Self)
        ensures
            r.children@ == self.children@.push(child),
            r.label == self.label && r.style == self.style && r.hover_style == self.hover_style
                && r.focus_style == self.focus_style && r.border == self.border,
    {
        let mut children = self.children;
        children.push(child);
        GraphNode { children, ..self }
    }

    /// Sets the node's style.
    pub fn style(self, style: Style) -> (r: Self)
        ensures
            r == (GraphNode { style, ..self }),
    {
        GraphNode { style, ..self }
    }

    /// Sets the style patched on when hovered.
    pub fn hover_style(self, style: Style) -> (r: Self)
        ensures
            r == (GraphNode { hover_style: style, ..self }),
    {
        GraphNode { hover_style: style, ..self }
    }

    /// Replaces the themed focus style.
    pub fn focus_style(self, style: Style) -> (r: Self)
        ensures
            r == (GraphNode { focus_style: StyleSlot::Replace(style), ..self }),
    {
        GraphNode { focus_style: StyleSlot::Replace(style), ..self }
    }

    /// Extends the themed focus style.
    pub fn extend_focus_style(self, style: Style) -> (r: Self)
        ensures
            r == (GraphNode { focus_style: StyleSlot::Extend(style), ..self }),
    {
        GraphNode { focus_style: StyleSlot::Extend(style), ..self }
    }

    /// Inherits the themed focus style.
    pub fn inherit_focus_style(self) -> (r: Self)
        ensures
            r == (GraphNode { focus_style: StyleSlot::Inherit, ..self }),
    {
        GraphNode { focus_style: StyleSlot::Inherit, ..self }
    }

    /// Sets the focus style slot.
    pub fn focus_style_slot(self, slot: StyleSlot) -> (r: Self)
        ensures
            r == (GraphNode { focus_style: slot, ..self }),
    {
        GraphNode { focus_style: slot, ..self }
    }

    /// Overrides whether this node has a border.
    pub fn border(self, border: bool) -> (r: Self)
        ensures
            r == (GraphNode { border: Some(border), ..self }),
    {
        GraphNode { border: Some(border), ..self }
    }
}

/// A direct-paint node-edge visualisation of a tree.
#[derive(Debug)]
pub struct Graph {
    pub root: Option<GraphNode>,
    pub direction: GraphDirection,
    pub layout: GraphLayout,
    pub gap_x: u16,
    pub gap_y: u16,
    pub max_node_width: u16,
    pub node_padding: Padding,
    pub node_border: bool,
    pub node_border_style: BorderStyle,
    pub style: Style,
    pub node_style: Style,
    pub node_hover_style: Style,
    pub focusable: bool,
    pub focused_path: Option<GraphNodePath>,
    pub node_focus_style: StyleSlot,
    pub edge_style: Style,
    pub edge_border_style: BorderStyle,
    pub padding: Padding,
    pub border: bool,
    pub border_style: BorderStyle,
    pub width: Length,
    pub height: Length,
}

impl Graph {
    /// An empty graph with the default configuration.
    pub fn new() -> (r: Self)
        ensures
            r.root is None,
            r.direction == GraphDirection::TopDown,
            r.layout == GraphLayout::Tree,
            r.gap_x == 2,
            r.gap_y == 1,
            r.max_node_width == 24,
            r.node_padding == (Padding { top: 0, right: 1, bottom: 0, left: 1 }),
            r.node_border == true,
            r.node_border_style == BorderStyle::Plain,
            r.style == Style::empty(),
            r.node_style == Style::empty(),
            r.node_hover_style == Style::empty(),
            r.focusable == false,
            r.focused_path is None,
            r.node_focus_style == StyleSlot::Inherit,
            r.edge_style == Style::empty(),
            r.edge_border_style == BorderStyle::Plain,
            r.padding == (Padding { top: 0, right: 0, bottom: 0, left: 0 }),
            r.border == false,
            r.border_style == BorderStyle::Plain,
            r.width == Length::Auto,
            r.height == Length::Auto,
    {
        Graph {
            root: None,
            direction: GraphDirection::TopDown,
            layout: GraphLayout::Tree,
            gap_x: 2,
            gap_y: 1,
            max_node_width: 24,
            node_padding: Padding::new(0, 1, 0, 1),
            node_border: true,
            node_border_style: BorderStyle::Plain,
            style: Style::new(),
            node_style: Style::new(),
            node_hover_style: Style::new(),
            focusable: false,
            focused_path: None,
            node_focus_style: StyleSlot::Inherit,
            edge_style: Style::new(),
            edge_border_style: BorderStyle::Plain,
            padding: Padding::new(0, 0, 0, 0),
            border: false,
            border_style: BorderStyle::Plain,
            width: Length::Auto,
            height: Length::Auto,
        }
    }

    /// Sets the root tree node.
    pub fn root(self, root: GraphNode) -> (r: Self)
        ensures
            r == (Graph { root: Some(root), ..self }),
    {
        Graph { root: Some(root), ..self }
    }

    /// Clears the root node.
    pub fn empty(self) -> (r: Self)
        ensures
            r == (Graph { root: None, ..self }),
    {
        Graph { root: None, ..self }
    }

    /// Sets the layout direction.
    pub fn direction(self, value: GraphDirection) -> (r: Self)
        ensures
            r == (Graph { direction: value, ..self }),
    {
        Graph { direction: value, ..self }
    }

    /// Sets the layout algorithm.
    pub fn layout(self, value: GraphLayout) -> (r: Self)
        ensures
            r == (Graph { layout: value, ..self }),
    {
        Graph { layout: value, ..self }
    }

    /// Sets the horizontal gap in cells.
    pub fn gap_x(self, value: u16) -> (r: Self)
        ensures
            r == (Graph { gap_x: value, ..self }),
    {
        Graph { gap_x: value, ..self }
    }

    /// Sets the vertical gap in cells.
    pub fn gap_y(self, value: u16) -> (r: Self)
        ensures
            r == (Graph { gap_y: value, ..self }),
    {
        Graph { gap_y: value, ..self }
    }

    /// Sets the widest label line before wrapping (at least one).
    pub fn max_node_width(self, value: u16) -> (r: Self)
        ensures
            r == (Graph { max_node_width: if value < 1 { 1u16 } else { value }, ..self }),
    {
        Graph { max_node_width: if value < 1 { 1 } else { value }, ..self }
    }

    /// Sets the padding inside each node.
    pub fn node_padding(self, value: Padding) -> (r: Self)
        ensures
            r == (Graph { node_padding: value, ..self }),
    {
        Graph { node_padding: value, ..self }
    }

    /// Sets whether nodes have borders by default.
    pub fn node_border(self, value: bool) -> (r: Self)
        ensures
            r == (Graph { node_border: value, ..self }),
    {
        Graph { node_border: value, ..self }
    }

    /// Sets the border style of node boxes.
    pub fn node_border_style(self, value: BorderStyle) -> (r: Self)
        ensures
            r == (Graph { node_border_style: value, ..self }),
    {
        Graph { node_border_style: value, ..self }
    }

    /// Sets the base style.
    pub fn style(self, value: Style) -> (r: Self)
        ensures
            r == (Graph { style: value, ..self }),
    {
        Graph { style: value, ..self }
    }

    /// Sets the default node style.
    pub fn node_style(self, value: Style) -> (r: Self)
        ensures
            r == (Graph { node_style: value, ..self }),
    {
        Graph { node_style: value, ..self }
    }

    /// Sets the style of hovered nodes.
    pub fn node_hover_style(self, value: Style) -> (r: Self)
        ensures
            r == (Graph { node_hover_style: value, ..self }),
    {
        Graph { node_hover_style: value, ..self }
    }

    /// Enables keyboard focus of nodes.
    pub fn focusable(self, value: bool) -> (r: Self)
        ensures
            r == (Graph { focusable: value, ..self }),
    {
        Graph { focusable: value, ..self }
    }

    /// Sets the focused node.
    pub fn focused_path(self, path: GraphNodePath) -> (r: Self)
        ensures
            r == (Graph { focused_path: Some(path), ..self }),
    {
        Graph { focused_path: Some(path), ..self }
    }

    /// Replaces the themed style of the focused node.
    pub fn node_focus_style(self, value: Style) -> (r: Self)
        ensures
            r == (Graph { node_focus_style: StyleSlot::Replace(value), ..self }),
    {
        Graph { node_focus_style: StyleSlot::Replace(value), ..self }
    }

    /// Extends the themed style of the focused node.
    pub fn extend_node_focus_style(self, value: Style) -> (r: Self)
        ensures
            r == (Graph { node_focus_style: StyleSlot::Extend(value), ..self }),
    {
        Graph { node_focus_style: StyleSlot::Extend(value), ..self }
    }

    /// Inherits the themed style of the focused node.
    pub fn inherit_node_focus_style(self) -> (r: Self)
        ensures
            r == (Graph { node_focus_style: StyleSlot::Inherit, ..self }),
    {
        Graph { node_focus_style: StyleSlot::Inherit, ..self }
    }

    /// Sets the focused node style slot.
    pub fn node_focus_style_slot(self, value: StyleSlot) -> (r: Self)
        ensures
            r == (Graph { node_focus_style: value, ..self }),
    {
        Graph { node_focus_style: value, ..self }
    }

    /// Sets the edge style.
    pub fn edge_style(self, value: Style) -> (r: Self)
        ensures
            r == (Graph { edge_style: value, ..self }),
    {
        Graph { edge_style: value, ..self }
    }

    /// Sets the box-drawing style of edge elbows.
    pub fn edge_border_style(self, value: BorderStyle) -> (r: Self)
        ensures
            r == (Graph { edge_border_style: value, ..self }),
    {
        Graph { edge_border_style: value, ..self }
    }

    /// Sets the padding inside the optional border.
    pub fn padding(self, value: Padding) -> (r: Self)
        ensures
            r == (Graph { padding: value, ..self }),
    {
        Graph { padding: value, ..self }
    }

    /// Toggles the graph border.
    pub fn border(self, value: bool) -> (r: Self)
        ensures
            r == (Graph { border: value, ..self }),
    {
        Graph { border: value, ..self }
    }

    /// Sets the graph border style.
    pub fn border_style(self, value: BorderStyle) -> (r: Self)
        ensures
            r == (Graph { border_style: value, ..self }),
    {
        Graph { border_style: value, ..self }
    }

    /// Sets the requested width.
    pub fn width(self, value: Length) -> (r: Self)
        ensures
            r == (Graph { width: value, ..self }),
    {
        Graph { width: value, ..self }
    }

    /// Sets the requested height.
    pub fn height(self, value: Length) -> (r: Self)
        ensures
            r == (Graph { height: value, ..self }),
    {
        Graph { height: value, ..self }
    }

}

} // verus!
