//! The retained state of a graph widget between frames: its settings, the
//! laid-out picture, the focused node, and the hit and hover tests that map
//! a cell back to a node.

use vstd::prelude::*;

use crate::event::KeyCode;
use crate::file_tree::StyleSlot;
use crate::graph::{Graph, GraphDirection, GraphLayout, GraphNodeEvent, GraphNodePath};
use crate::graph_layout::{
    build_graph_output, graph_bounds, graph_edge_cells, graph_flat, graph_is_empty, graph_output_spec, positioned_matches,
    rect_of, shifted_rect, GraphRenderOutput, PositionedGraphNode,
};
use crate::style::{
    i16_sat_add, sat_add_i16, u16_as_i16, wrap_i16, BorderStyle, Length, Padding, Rect, Style,
};
use crate::wrap::strings_view;

verus! {

/// Everything a graph is drawn with apart from its tree.
#[derive(Clone, Copy, Debug, PartialEq, Eq, Structural)]
pub struct GraphSettings {
    pub direction: GraphDirection,
    pub layout: GraphLayout,
    pub gap_x: u16,
    pub gap_y: u16,
    pub max_node_width: u16,
    pub node_padding: Padding,
    pub node_border: bool,
    pub node_border_style: BorderStyle,
    pub style: Style,
    pub node_style: Style,
    pub node_hover_style: Style,
    pub focusable: bool,
    pub node_focus_style: StyleSlot,
    pub edge_style: Style,
    pub edge_border_style: BorderStyle,
    pub padding: Padding,
    pub border: bool,
    pub border_style: BorderStyle,
    pub width: Length,
    pub height: Length,
}

impl GraphSettings {
    pub open spec fn of(g: Graph) -> GraphSettings {
        GraphSettings {
            direction: g.direction,
            layout: g.layout,
            gap_x: g.gap_x,
            gap_y: g.gap_y,
            max_node_width: g.max_node_width,
            node_padding: g.node_padding,
            node_border: g.node_border,
            node_border_style: g.node_border_style,
            style: g.style,
            node_style: g.node_style,
            node_hover_style: g.node_hover_style,
            focusable: g.focusable,
            node_focus_style: g.node_focus_style,
            edge_style: g.edge_style,
            edge_border_style: g.edge_border_style,
            padding: g.padding,
            border: g.border,
            border_style: g.border_style,
            width: g.width,
            height: g.height,
        }
    }

    /// The settings `graph` is drawn with.
    pub fn from_graph(g: &Graph) -> (r: Self)
        ensures
            r == Self::of(*g),
    {
        GraphSettings {
            direction: g.direction,
            layout: g.layout,
            gap_x: g.gap_x,
            gap_y: g.gap_y,
            max_node_width: g.max_node_width,
            node_padding: g.node_padding,
            node_border: g.node_border,
            node_border_style: g.node_border_style,
            style: g.style,
            node_style: g.node_style,
            node_hover_style: g.node_hover_style,
            focusable: g.focusable,
            node_focus_style: g.node_focus_style,
            edge_style: g.edge_style,
            edge_border_style: g.edge_border_style,
            padding: g.padding,
            border: g.border,
            border_style: g.border_style,
            width: g.width,
            height: g.height,
        }
    }
}

/// The settings of a freshly made graph.
pub open spec fn default_settings() -> GraphSettings {
    GraphSettings {
        direction: GraphDirection::TopDown,
        layout: GraphLayout::Tree,
        gap_x: 2,
        gap_y: 1,
        max_node_width: 24,
        node_padding: Padding { top: 0, right: 1, bottom: 0, left: 1 },
        node_border: true,
        node_border_style: BorderStyle::Plain,
        style: Style::empty(),
        node_style: Style::empty(),
        node_hover_style: Style::empty(),
        focusable: false,
        node_focus_style: StyleSlot::Inherit,
        edge_style: Style::empty(),
        edge_border_style: BorderStyle::Plain,
        padding: Padding { top: 0, right: 0, bottom: 0, left: 0 },
        border: false,
        border_style: BorderStyle::Plain,
        width: Length::Auto,
        height: Length::Auto,
    }
}

/// The retained node of a graph widget.
///
/// The four `on_node_*` flags record whether the host registered a handler
/// for clicks, hovers, focus changes and activation.
#[derive(Debug)]
pub struct GraphRenderNode {
    pub settings: GraphSettings,
    pub focused_path: Option<GraphNodePath>,
    /// The focus the last reconciled graph asked for.
    pub requested_focus: Option<GraphNodePath>,
    pub on_node_click: bool,
    pub on_node_hover: bool,
    pub on_node_focus: bool,
    pub on_node_activate: bool,
    pub output: GraphRenderOutput,
    /// Whether a graph was reconciled into this node yet.
    pub keyed: bool,
}

/// A path as its segments.
pub open spec fn path_view(o: Option<GraphNodePath>) -> Option<Seq<usize>> {
    match o {
        Some(p) => Some(p.0@),
        None => None,
    }
}

/// Whether some drawn node sits at `p`.
pub open spec fn output_has_path(out: GraphRenderOutput, p: Seq<usize>) -> bool {
    exists|i: int| 0 <= i < out.nodes@.len() && (#[trigger] out.nodes@[i]).path.0@ == p
}

/// The first drawn node's path.
pub open spec fn first_path(out: GraphRenderOutput) -> Option<Seq<usize>> {
    if out.nodes@.len() > 0 {
        Some(out.nodes@[0].path.0@)
    } else {
        None
    }
}

/// A requested focus kept when it names a drawn node, else the first node.
pub open spec fn normalized_focus(fp: Option<Seq<usize>>, out: GraphRenderOutput) -> Option<Seq<usize>> {
    match fp {
        Some(p) => if output_has_path(out, p) {
            Some(p)
        } else {
            first_path(out)
        },
        None => first_path(out),
    }
}

/// Two drawn nodes look the same.
pub open spec fn same_positioned(a: PositionedGraphNode, b: PositionedGraphNode) -> bool {
    &&& a.rect == b.rect
    &&& a.path.0@ == b.path.0@
    &&& a.label@ == b.label@
    &&& strings_view(a.label_lines@) == strings_view(b.label_lines@)
    &&& a.style == b.style
    &&& a.hover_style == b.hover_style
    &&& a.focus_style == b.focus_style
    &&& a.border == b.border
}

/// Two pictures look the same.
pub open spec fn same_output(a: GraphRenderOutput, b: GraphRenderOutput) -> bool {
    &&& a.nodes@.len() == b.nodes@.len()
    &&& forall|i: int| 0 <= i < a.nodes@.len() ==> same_positioned(#[trigger] a.nodes@[i], b.nodes@[i])
    &&& a.edges@ == b.edges@
    &&& a.width == b.width
    &&& a.height == b.height
}

/// Whether `(x, y)` falls inside node `n`'s box.
pub open spec fn node_hit(n: PositionedGraphNode, x: int, y: int) -> bool {
    &&& x >= n.rect.x
    &&& y >= n.rect.y
    &&& x < sat_add_i16(n.rect.x as int, wrap_i16(n.rect.w as int))
    &&& y < sat_add_i16(n.rect.y as int, wrap_i16(n.rect.h as int))
}

/// Whether a cell lies inside `r`.
pub open spec fn rect_contains(r: Rect, x: int, y: int) -> bool {
    r.x <= x < r.x + r.w && r.y <= y < r.y + r.h
}

/// The content-local cell of `(x, y)` in the graph's content box.
pub open spec fn spec_local_point(rect: Rect, border: bool, padding: Padding, x: int, y: int) -> Option<(int, int)> {
    let c = rect.spec_inner(border, padding);
    if rect_contains(c, x, y) {
        Some((
            if x - c.x > i16::MAX { i16::MAX as int } else { x - c.x },
            if y - c.y > i16::MAX { i16::MAX as int } else { y - c.y },
        ))
    } else {
        None
    }
}

/// A local `u16` coordinate as `i16`, saturating.
pub open spec fn local_i16(v: int) -> int {
    if v > i16::MAX { i16::MAX as int } else { v }
}

/// Whether some drawn node covers the local cell `(x, y)`.
pub open spec fn output_hit(out: GraphRenderOutput, x: int, y: int) -> bool {
    exists|i: int| 0 <= i < out.nodes@.len() && node_hit(#[trigger] out.nodes@[i], local_i16(x), local_i16(y))
}

/// Whether a drawn node lies under the widget cell `(x, y)` of `rect`.
pub open spec fn point_hits(node: GraphRenderNode, x: int, y: int, rect: Rect) -> bool {
    match spec_local_point(rect, node.settings.border, node.settings.padding, x, y) {
        Some(p) => output_hit(node.output, p.0, p.1),
        None => false,
    }
}

/// The content box of a graph drawn in `rect`.
pub fn graph_content_rect(rect: Rect, border: bool, padding: Padding) -> (r: Rect)
    ensures
        r == rect.spec_inner(border, padding),
{
    rect.inner(border, padding)
}

/// Maps the widget cell `(x, y)` to a cell of the graph's content box, or
/// `None` outside it.
pub fn graph_local_content_point(rect: Rect, border: bool, padding: Padding, x: i16, y: i16) -> (r: Option<(u16, u16)>)
    ensures
        match r {
            Some(p) => spec_local_point(rect, border, padding, x as int, y as int) == Some((p.0 as int, p.1 as int)),
            None => spec_local_point(rect, border, padding, x as int, y as int) is None,
        },
{
    let content = graph_content_rect(rect, border, padding);
    let inside = content.x <= x && (x as i32) < content.x as i32 + content.w as i32 && content.y <= y
        && (y as i32) < content.y as i32 + content.h as i32;
    if !inside {
        return None;
    }
    let dx: i32 = x as i32 - content.x as i32;
    let dy: i32 = y as i32 - content.y as i32;
    let lx: u16 = if dx > 32767 { 32767 } else { dx as u16 };
    let ly: u16 = if dy > 32767 { 32767 } else { dy as u16 };
    Some((lx, ly))
}

/// A copy of a path.
pub fn copy_path(p: &GraphNodePath) -> (r: GraphNodePath)
    ensures
        r.0@ == p.0@,
{
    let mut v: Vec<usize> = Vec::new();
    let mut i: usize = 0;
    while i < p.0.len()
        invariant
            i <= p.0@.len(),
            v@ == p.0@.subrange(0, i as int),
        decreases p.0@.len() - i,
    {
        v.push(p.0[i]);
        i = i + 1;
    }
    proof {
        assert(v@ == p.0@);
    }
    GraphNodePath(v)
}

/// Whether two paths name the same node.
pub fn path_eq(a: &GraphNodePath, b: &GraphNodePath) -> (r: bool)
    ensures
        r == (a.0@ == b.0@),
{
    if a.0.len() != b.0.len() {
        return false;
    }
    let mut i: usize = 0;
    while i < a.0.len()
        invariant
            a.0@.len() == b.0@.len(),
            i <= a.0@.len(),
            forall|j: int| 0 <= j < i ==> a.0@[j] == b.0@[j],
        decreases a.0@.len() - i,
    {
        if a.0[i] != b.0[i] {
            return false;
        }
        i = i + 1;
    }
    proof {
        assert(a.0@ == b.0@);
    }
    true
}

/// Whether two optional paths are equal.
pub fn opt_path_eq(a: &Option<GraphNodePath>, b: &Option<GraphNodePath>) -> (r: bool)
    ensures
        r == (path_view(*a) == path_view(*b)),
{
    match (a, b) {
        (Some(x), Some(y)) => path_eq(x, y),
        (None, None) => true,
        _ => false,
    }
}

/// A copy of an optional path.
pub fn copy_opt_path(a: &Option<GraphNodePath>) -> (r: Option<GraphNodePath>)
    ensures
        path_view(r) == path_view(*a),
{
    match a {
        Some(p) => Some(copy_path(p)),
        None => None,
    }
}

fn lines_eq(a: &Vec<String>, b: &Vec<String>) -> (r: bool)
    ensures
        r == (strings_view(a@) == strings_view(b@)),
{
    if a.len() != b.len() {
        proof {
            assert(strings_view(a@).len() != strings_view(b@).len());
        }
        return false;
    }
    let mut i: usize = 0;
    while i < a.len()
        invariant
            a@.len() == b@.len(),
            i <= a@.len(),
            forall|j: int| 0 <= j < i ==> a@[j]@ == b@[j]@,
        decreases a@.len() - i,
    {
        if a[i] != b[i] {
            proof {
                assert(strings_view(a@)[i as int] != strings_view(b@)[i as int]);
            }
            return false;
        }
        i = i + 1;
    }
    proof {
        assert(strings_view(a@) =~= strings_view(b@));
    }
    true
}

fn positioned_eq(a: &PositionedGraphNode, b: &PositionedGraphNode) -> (r: bool)
    ensures
        r == same_positioned(*a, *b),
{
    a.rect == b.rect && path_eq(&a.path, &b.path) && a.label == b.label && lines_eq(&a.label_lines, &b.label_lines)
        && a.style == b.style && a.hover_style == b.hover_style && a.focus_style == b.focus_style && a.border
        == b.border
}

/// Whether two pictures look the same.
pub fn output_eq(a: &GraphRenderOutput, b: &GraphRenderOutput) -> (r: bool)
    ensures
        r == same_output(*a, *b),
{
    if a.nodes.len() != b.nodes.len() || a.edges.len() != b.edges.len() || a.width != b.width || a.height
        != b.height {
        return false;
    }
    let mut i: usize = 0;
    while i < a.nodes.len()
        invariant
            a.nodes@.len() == b.nodes@.len(),
            i <= a.nodes@.len(),
            forall|j: int| 0 <= j < i ==> same_positioned(#[trigger] a.nodes@[j], b.nodes@[j]),
        decreases a.nodes@.len() - i,
    {
        if !positioned_eq(&a.nodes[i], &b.nodes[i]) {
            return false;
        }
        i = i + 1;
    }
    let mut k: usize = 0;
    while k < a.edges.len()
        invariant
            a.edges@.len() == b.edges@.len(),
            k <= a.edges@.len(),
            forall|j: int| 0 <= j < k ==> a.edges@[j] == b.edges@[j],
        decreases a.edges@.len() - k,
    {
        let e = a.edges[k];
        let f = b.edges[k];
        if e.x != f.x || e.y != f.y || e.glyph != f.glyph {
            return false;
        }
        k = k + 1;
    }
    proof {
        assert(a.edges@ =~= b.edges@);
    }
    true
}

/// The parent of the node at `p`.
pub open spec fn spec_parent_path(p: Seq<usize>) -> Option<Seq<usize>> {
    if p.len() == 0 {
        None
    } else {
        Some(p.drop_last())
    }
}

/// The first child of the node at `p`, when it is drawn.
pub open spec fn spec_first_child_path(out: GraphRenderOutput, p: Seq<usize>) -> Option<Seq<usize>> {
    if output_has_path(out, p.push(0)) {
        Some(p.push(0))
    } else {
        None
    }
}

/// The sibling `offset` places from the node at `p`, when it is drawn.
pub open spec fn spec_sibling_path(out: GraphRenderOutput, p: Seq<usize>, offset: int) -> Option<Seq<usize>> {
    if p.len() == 0 {
        None
    } else {
        let n = p.last() + offset;
        if n < 0 || n > usize::MAX {
            None
        } else {
            let q = p.update(p.len() - 1, n as usize);
            if output_has_path(out, q) {
                Some(q)
            } else {
                None
            }
        }
    }
}

/// The node a key moves focus to: along the layout axis to the parent or
/// first child, across it to the previous or next sibling, or to the first or
/// last node.
pub open spec fn spec_navigation_target(node: GraphRenderNode, key: KeyCode) -> Option<Seq<usize>> {
    let out = node.output;
    let n = out.nodes@.len();
    match key {
        KeyCode::Home => first_path(out),
        KeyCode::End => if n > 0 {
            Some(out.nodes@[n - 1].path.0@)
        } else {
            None
        },
        _ => match normalized_focus(path_view(node.focused_path), out) {
            None => None,
            Some(cur) => {
                let td = node.settings.direction == GraphDirection::TopDown;
                if (td && key == KeyCode::Up) || (!td && key == KeyCode::Left) {
                    spec_parent_path(cur)
                } else if (td && key == KeyCode::Down) || (!td && key == KeyCode::Right) {
                    spec_first_child_path(out, cur)
                } else if (td && key == KeyCode::Left) || (!td && key == KeyCode::Up) {
                    spec_sibling_path(out, cur, -1)
                } else if (td && key == KeyCode::Right) || (!td && key == KeyCode::Down) {
                    spec_sibling_path(out, cur, 1)
                } else {
                    None
                }
            },
        },
    }
}

/// Whether reconciling `g` into `old` leaves the widget as it was, given the
/// picture `out` that `g` lays out to.
pub open spec fn reconcile_keeps(old: GraphRenderNode, g: Graph, out: GraphRenderOutput) -> bool {
    &&& old.keyed
    &&& old.settings == GraphSettings::of(g)
    &&& path_view(old.requested_focus) == path_view(g.focused_path)
    &&& same_output(old.output, out)
}

/// The focus after reconciling `g` into `old`, given the new picture `out`.
pub open spec fn reconciled_focus(old: GraphRenderNode, g: Graph, out: GraphRenderOutput) -> Option<Seq<usize>> {
    if reconcile_keeps(old, g, out) {
        if g.focused_path is Some {
            normalized_focus(path_view(g.focused_path), out)
        } else {
            path_view(old.focused_path)
        }
    } else {
        normalized_focus(
            if g.focused_path is Some {
                path_view(g.focused_path)
            } else {
                path_view(old.focused_path)
            },
            out,
        )
    }
}

impl GraphRenderNode {
    /// A node with nothing reconciled into it yet.
    pub fn new() -> (r: Self)
        ensures
            r.settings == default_settings(),
            r.focused_path is None && r.requested_focus is None,
            !r.on_node_click && !r.on_node_hover && !r.on_node_focus && !r.on_node_activate,
            r.output.nodes@.len() == 0 && r.output.edges@.len() == 0,
            r.output.width == 0 && r.output.height == 0,
            !r.keyed,
    {
        let g = Graph::new();
        GraphRenderNode {
            settings: GraphSettings::from_graph(&g),
            focused_path: None,
            requested_focus: None,
            on_node_click: false,
            on_node_hover: false,
            on_node_focus: false,
            on_node_activate: false,
            output: GraphRenderOutput::empty(),
            keyed: false,
        }
    }

    /// Whether a drawn node sits at `path`.
    pub fn has_path(&self, path: &GraphNodePath) -> (r: bool)
        ensures
            r == output_has_path(self.output, path.0@),
    {
        let mut i: usize = 0;
        while i < self.output.nodes.len()
            invariant
                i <= self.output.nodes@.len(),
                forall|j: int| 0 <= j < i ==> (#[trigger] self.output.nodes@[j]).path.0@ != path.0@,
            decreases self.output.nodes@.len() - i,
        {
            if path_eq(&self.output.nodes[i].path, path) {
                return true;
            }
            i = i + 1;
        }
        false
    }

    fn first_node_path(&self) -> (r: Option<GraphNodePath>)
        ensures
            path_view(r) == first_path(self.output),
    {
        if self.output.nodes.len() > 0 {
            Some(copy_path(&self.output.nodes[0].path))
        } else {
            None
        }
    }

    /// The focused node's path when it is drawn, else the first node's.
    pub fn current_focused_path_or_first(&self) -> (r: Option<GraphNodePath>)
        ensures
            path_view(r) == normalized_focus(path_view(self.focused_path), self.output),
    {
        match &self.focused_path {
            Some(p) => {
                if self.has_path(p) {
                    Some(copy_path(p))
                } else {
                    self.first_node_path()
                }
            },
            None => self.first_node_path(),
        }
    }

    /// Drops a focus that names no drawn node, falling back to the first node.
    pub fn normalize_focused_path(&mut self)
        ensures
            path_view(final(self).focused_path) == normalized_focus(path_view(old(self).focused_path), old(self).output),
            final(self).settings == old(self).settings,
            final(self).requested_focus == old(self).requested_focus,
            final(self).on_node_click == old(self).on_node_click,
            final(self).on_node_hover == old(self).on_node_hover,
            final(self).on_node_focus == old(self).on_node_focus,
            final(self).on_node_activate == old(self).on_node_activate,
            final(self).output == old(self).output,
            final(self).keyed == old(self).keyed,
    {
        let next = self.current_focused_path_or_first();
        self.focused_path = next;
    }

    /// Moves focus to `path`; `false` when it names no drawn node or is
    /// already focused.
    pub fn set_focused_path(&mut self, path: GraphNodePath) -> (r: bool)
        ensures
            r == (output_has_path(old(self).output, path.0@) && path_view(old(self).focused_path) != Some(path.0@)),
            r ==> path_view(final(self).focused_path) == Some(path.0@),
            !r ==> final(self).focused_path == old(self).focused_path,
            final(self).settings == old(self).settings,
            final(self).requested_focus == old(self).requested_focus,
            final(self).output == old(self).output,
            final(self).keyed == old(self).keyed,
            final(self).on_node_click == old(self).on_node_click,
            final(self).on_node_hover == old(self).on_node_hover,
            final(self).on_node_focus == old(self).on_node_focus,
            final(self).on_node_activate == old(self).on_node_activate,
    {
        if !self.has_path(&path) {
            return false;
        }
        let already = match &self.focused_path {
            Some(p) => path_eq(p, &path),
            None => false,
        };
        if already {
            return false;
        }
        self.focused_path = Some(path);
        true
    }

    /// The event for the drawn node at `path`, if any.
    pub fn event_for_path(&self, path: &GraphNodePath) -> (r: Option<GraphNodeEvent>)
        ensures
            r is None <==> !output_has_path(self.output, path.0@),
            r matches Some(e) ==> exists|i: int|
                0 <= i < self.output.nodes@.len() && (#[trigger] self.output.nodes@[i]).path.0@ == path.0@
                    && e.path.0@ == path.0@ && e.label@ == self.output.nodes@[i].label@ && forall|j: int|
                    0 <= j < i ==> (#[trigger] self.output.nodes@[j]).path.0@ != path.0@,
    {
        let mut i: usize = 0;
        while i < self.output.nodes.len()
            invariant
                i <= self.output.nodes@.len(),
                forall|j: int| 0 <= j < i ==> (#[trigger] self.output.nodes@[j]).path.0@ != path.0@,
            decreases self.output.nodes@.len() - i,
        {
            let n = &self.output.nodes[i];
            if path_eq(&n.path, path) {
                return Some(GraphNodeEvent { path: copy_path(&n.path), label: n.label.clone() });
            }
            i = i + 1;
        }
        None
    }

    /// The event for the focused (or first) node.
    pub fn focused_event(&self) -> (r: Option<GraphNodeEvent>)
        ensures
            r is None <==> normalized_focus(path_view(self.focused_path), self.output) is None,
            r matches Some(e) ==> normalized_focus(path_view(self.focused_path), self.output) == Some(e.path.0@),
    {
        match self.current_focused_path_or_first() {
            Some(p) => {
                proof {
                    if !output_has_path(self.output, p.0@) {
                        assert(self.output.nodes@[0].path.0@ == p.0@);
                    }
                }
                self.event_for_path(&p)
            },
            None => None,
        }
    }

    /// Whether the widget reacts to clicks.
    pub fn has_on_click(&self) -> (r: bool)
        ensures
            r == (self.on_node_click || self.on_node_focus),
    {
        self.on_node_click || self.on_node_focus
    }

    /// Whether the widget takes keyboard focus.
    pub fn is_focusable(&self) -> (r: bool)
        ensures
            r == (self.output.nodes@.len() > 0 && (self.settings.focusable || self.on_node_focus
                || self.on_node_activate)),
    {
        self.output.nodes.len() > 0 && (self.settings.focusable || self.on_node_focus || self.on_node_activate)
    }

    /// Whether the widget reacts to the pointer hovering over it.
    pub fn is_hoverable(&self) -> (r: bool)
        ensures
            r == (self.on_node_click || self.on_node_focus || self.on_node_hover || self.settings.node_hover_style
                != Style::empty() || exists|i: int|
                0 <= i < self.output.nodes@.len() && (#[trigger] self.output.nodes@[i]).hover_style != Style::empty()),
    {
        if self.has_on_click() || self.on_node_hover || !self.settings.node_hover_style.is_empty() {
            return true;
        }
        let mut i: usize = 0;
        while i < self.output.nodes.len()
            invariant
                i <= self.output.nodes@.len(),
                forall|j: int| 0 <= j < i ==> (#[trigger] self.output.nodes@[j]).hover_style == Style::empty(),
            decreases self.output.nodes@.len() - i,
        {
            if !self.output.nodes[i].hover_style.is_empty() {
                return true;
            }
            i = i + 1;
        }
        false
    }

    /// The content box inside `rect`.
    pub fn content_rect(&self, rect: Rect) -> (r: Rect)
        ensures
            r == rect.spec_inner(self.settings.border, self.settings.padding),
    {
        graph_content_rect(rect, self.settings.border, self.settings.padding)
    }

    /// The content-local cell under the widget cell `(x, y)` of `rect`.
    pub fn local_content_point(&self, rect: Rect, x: i16, y: i16) -> (r: Option<(u16, u16)>)
        ensures
            match r {
                Some(p) => spec_local_point(rect, self.settings.border, self.settings.padding, x as int, y as int)
                    == Some((p.0 as int, p.1 as int)),
                None => spec_local_point(rect, self.settings.border, self.settings.padding, x as int, y as int) is None,
            },
    {
        graph_local_content_point(rect, self.settings.border, self.settings.padding, x, y)
    }

    /// The first drawn node covering the content-local cell, with its index.
    pub fn hit_test(&self, local_x: u16, local_y: u16) -> (r: Option<(usize, &PositionedGraphNode)>)
        ensures
            match r {
                Some(h) => {
                    &&& h.0 < self.output.nodes@.len()
                    &&& *h.1 == self.output.nodes@[h.0 as int]
                    &&& node_hit(self.output.nodes@[h.0 as int], local_i16(local_x as int), local_i16(local_y as int))
                    &&& forall|j: int|
                        0 <= j < h.0 ==> !node_hit(
                            #[trigger] self.output.nodes@[j],
                            local_i16(local_x as int),
                            local_i16(local_y as int),
                        )
                },
                None => !output_hit(self.output, local_x as int, local_y as int),
            },
    {
        let x: i16 = if local_x > 32767 { 32767 } else { local_x as i16 };
        let y: i16 = if local_y > 32767 { 32767 } else { local_y as i16 };
        let mut i: usize = 0;
        while i < self.output.nodes.len()
            invariant
                i <= self.output.nodes@.len(),
                x == local_i16(local_x as int),
                y == local_i16(local_y as int),
                forall|j: int| 0 <= j < i ==> !node_hit(#[trigger] self.output.nodes@[j], x as int, y as int),
            decreases self.output.nodes@.len() - i,
        {
            let n = &self.output.nodes[i];
            if x >= n.rect.x && y >= n.rect.y && x < i16_sat_add(n.rect.x, u16_as_i16(n.rect.w)) && y < i16_sat_add(
                n.rect.y,
                u16_as_i16(n.rect.h),
            ) {
                return Some((i, n));
            }
            i = i + 1;
        }
        None
    }

    fn hits_point(&self, x: i16, y: i16, rect: Rect) -> (r: bool)
        ensures
            r == point_hits(*self, x as int, y as int, rect),
    {
        match self.local_content_point(rect, x, y) {
            Some(p) => self.hit_test(p.0, p.1).is_some(),
            None => false,
        }
    }

    /// Refines click hit testing: a widget that takes clicks or focus is hit
    /// only where a node is drawn.
    pub fn hit_test_refinement(&self, x: i16, y: i16, rect: Rect) -> (r: Option<bool>)
        ensures
            r == (if !(self.output.nodes@.len() > 0 && (self.settings.focusable || self.on_node_focus
                || self.on_node_activate)) && !(self.on_node_click || self.on_node_focus) {
                None
            } else {
                Some(point_hits(*self, x as int, y as int, rect))
            }),
    {
        if !(self.is_focusable() || self.has_on_click()) {
            return None;
        }
        Some(self.hits_point(x, y, rect))
    }

    /// Refines hover testing: a hoverable widget is hovered only where a node
    /// is drawn; one that is not hoverable never is.
    pub fn hover_test_refinement(&self, x: i16, y: i16, rect: Rect) -> (r: Option<bool>)
        ensures
            r == Some(
                (self.on_node_click || self.on_node_focus || self.on_node_hover || self.settings.node_hover_style
                    != Style::empty() || exists|i: int|
                    0 <= i < self.output.nodes@.len() && (#[trigger] self.output.nodes@[i]).hover_style
                        != Style::empty()) && point_hits(*self, x as int, y as int, rect),
            ),
    {
        if !self.is_hoverable() {
            return Some(false);
        }
        Some(self.hits_point(x, y, rect))
    }
    /// The parent of the node at `path`.
    pub fn parent_path(&self, path: &GraphNodePath) -> (r: Option<GraphNodePath>)
        ensures
            path_view(r) == spec_parent_path(path.0@),
    {
        let n = path.0.len();
        if n == 0 {
            return None;
        }
        let mut v: Vec<usize> = Vec::new();
        let mut i: usize = 0;
        while i < n - 1
            invariant
                n == path.0@.len(),
                n > 0,
                i <= n - 1,
                v@ == path.0@.subrange(0, i as int),
            decreases n - 1 - i,
        {
            v.push(path.0[i]);
            i = i + 1;
        }
        proof {
            assert(v@ == path.0@.drop_last());
        }
        Some(GraphNodePath(v))
    }

    /// The first child of the node at `path`, when it is drawn.
    pub fn first_child_path(&self, path: &GraphNodePath) -> (r: Option<GraphNodePath>)
        ensures
            path_view(r) == spec_first_child_path(self.output, path.0@),
    {
        let mut child = copy_path(path);
        child.0.push(0);
        if self.has_path(&child) {
            Some(child)
        } else {
            None
        }
    }

    /// The sibling `offset` places from the node at `path`, when it is drawn.
    pub fn sibling_path(&self, path: &GraphNodePath, offset: isize) -> (r: Option<GraphNodePath>)
        ensures
            path_view(r) == spec_sibling_path(self.output, path.0@, offset as int),
    {
        let n = path.0.len();
        if n == 0 {
            return None;
        }
        let last = path.0[n - 1];
        let next: i128 = last as i128 + offset as i128;
        if next < 0 || next > usize::MAX as i128 {
            return None;
        }
        let mut sib = copy_path(path);
        sib.0.set(n - 1, next as usize);
        if self.has_path(&sib) {
            Some(sib)
        } else {
            None
        }
    }

    /// The node `key` moves focus to, if any.
    pub fn navigation_target(&self, key: KeyCode) -> (r: Option<GraphNodePath>)
        ensures
            path_view(r) == spec_navigation_target(*self, key),
    {
        match key {
            KeyCode::Home => return self.first_node_path(),
            KeyCode::End => {
                let n = self.output.nodes.len();
                if n > 0 {
                    return Some(copy_path(&self.output.nodes[n - 1].path));
                }
                return None;
            },
            _ => {},
        }
        let current = match self.current_focused_path_or_first() {
            Some(p) => p,
            None => return None,
        };
        let td = self.settings.direction == GraphDirection::TopDown;
        if (td && key == KeyCode::Up) || (!td && key == KeyCode::Left) {
            self.parent_path(&current)
        } else if (td && key == KeyCode::Down) || (!td && key == KeyCode::Right) {
            self.first_child_path(&current)
        } else if (td && key == KeyCode::Left) || (!td && key == KeyCode::Up) {
            self.sibling_path(&current, -1)
        } else if (td && key == KeyCode::Right) || (!td && key == KeyCode::Down) {
            self.sibling_path(&current, 1)
        } else {
            None
        }
    }

    /// A node with `graph` reconciled into it.
    pub fn from_graph(graph: &Graph) -> (r: Self)
        ensures
            r.settings == GraphSettings::of(*graph),
            graph_output_spec(*graph, r.output),
            path_view(r.focused_path) == normalized_focus(path_view(graph.focused_path), r.output),
            path_view(r.requested_focus) == path_view(graph.focused_path),
            !r.on_node_click && !r.on_node_hover && !r.on_node_focus && !r.on_node_activate,
            r.keyed,
    {
        let mut node = GraphRenderNode::new();
        reconcile_graph(graph, &mut node);
        node
    }
}

/// Brings `node` up to date with `graph`: its settings, its picture and its
/// focus. Returns whether anything the widget shows changed: a graph whose
/// settings, requested focus and picture match what the node already shows
/// only moves focus, and reports whether it moved.
pub fn reconcile_graph(graph: &Graph, node: &mut GraphRenderNode) -> (r: bool)
    ensures
        final(node).settings == GraphSettings::of(*graph),
        graph_output_spec(*graph, final(node).output),
        final(node).keyed,
        path_view(final(node).requested_focus) == path_view(graph.focused_path),
        final(node).on_node_click == old(node).on_node_click,
        final(node).on_node_hover == old(node).on_node_hover,
        final(node).on_node_focus == old(node).on_node_focus,
        final(node).on_node_activate == old(node).on_node_activate,
        path_view(final(node).focused_path) == reconciled_focus(*old(node), *graph, final(node).output),
        r == (!reconcile_keeps(*old(node), *graph, final(node).output) || path_view(final(node).focused_path)
            != path_view(old(node).focused_path)),
{
    let output = build_graph_output(graph);
    let settings = GraphSettings::from_graph(graph);
    let keeps = node.keyed && node.settings == settings && opt_path_eq(&node.requested_focus, &graph.focused_path)
        && output_eq(&node.output, &output);
    let previous = copy_opt_path(&node.focused_path);
    let focus = match &graph.focused_path {
        Some(p) => Some(copy_path(p)),
        None => copy_opt_path(&node.focused_path),
    };
    node.settings = settings;
    node.output = output;
    node.requested_focus = copy_opt_path(&graph.focused_path);
    node.keyed = true;
    if keeps {
        if graph.focused_path.is_some() {
            node.focused_path = focus;
            node.normalize_focused_path();
        }
        return !opt_path_eq(&node.focused_path, &previous);
    }
    node.focused_path = focus;
    node.normalize_focused_path();
    true
}

proof fn lemma_output_spec_unique(g: Graph, a: GraphRenderOutput, b: GraphRenderOutput)
    requires
        graph_output_spec(g, a),
        graph_output_spec(g, b),
    ensures
        same_output(a, b),
{
    if !graph_is_empty(g) {
        let flat = graph_flat(g);
        let cells = graph_edge_cells(g);
        assert forall|i: int| 0 <= i < a.nodes@.len() implies same_positioned(#[trigger] a.nodes@[i], b.nodes@[i]) by {
            assert(positioned_matches(a.nodes@[i], flat[i], shifted_rect(rect_of(flat[i], g.direction), graph_bounds(g)), g));
            assert(positioned_matches(b.nodes@[i], flat[i], shifted_rect(rect_of(flat[i], g.direction), graph_bounds(g)), g));
        }
        assert(a.edges@ =~= b.edges@) by {
            assert forall|i: int| 0 <= i < a.edges@.len() implies a.edges@[i] == b.edges@[i] by {
                assert(a.edges@[i] == b.edges@[i]);
            }
        }
    } else {
        assert(a.edges@ =~= b.edges@);
    }
}

/// Reconciling a graph into a node that already shows it (as any earlier
/// reconcile of the same graph leaves it) changes nothing: the picture is
/// kept and the focus stays where it is, so the call reports no change.
pub proof fn lemma_reconcile_same_graph_is_quiet(g: Graph, n: GraphRenderNode, out: GraphRenderOutput)
    requires
        n.keyed,
        n.settings == GraphSettings::of(g),
        path_view(n.requested_focus) == path_view(g.focused_path),
        graph_output_spec(g, n.output),
        g.focused_path is Some ==> path_view(n.focused_path) == normalized_focus(path_view(g.focused_path), n.output),
        graph_output_spec(g, out),
    ensures
        reconcile_keeps(n, g, out),
        reconciled_focus(n, g, out) == path_view(n.focused_path),
{
    lemma_output_spec_unique(g, n.output, out);
    if g.focused_path is Some {
        let p = path_view(g.focused_path)->0;
        assert(output_has_path(n.output, p) == output_has_path(out, p)) by {
            if output_has_path(n.output, p) {
                let i = choose|i: int| 0 <= i < n.output.nodes@.len() && (#[trigger] n.output.nodes@[i]).path.0@ == p;
                assert(same_positioned(n.output.nodes@[i], out.nodes@[i]));
            }
            if output_has_path(out, p) {
                let i = choose|i: int| 0 <= i < out.nodes@.len() && (#[trigger] out.nodes@[i]).path.0@ == p;
                assert(same_positioned(n.output.nodes@[i], out.nodes@[i]));
            }
        }
        if n.output.nodes@.len() > 0 {
            assert(same_positioned(n.output.nodes@[0], out.nodes@[0]));
        }
    }
}

} // verus!
