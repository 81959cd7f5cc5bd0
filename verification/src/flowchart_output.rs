//! A flowchart's finished picture: its nodes, subgraph boxes and edge cells
//! moved so the picture starts at the origin, with its size; and the small
//! geometry the edge router relies on (ports on node sides, segment and
//! rectangle tests, midpoints).

use vstd::prelude::*;

use crate::flowchart::{EdgeArrow, EdgeStyle, FlowDirection, NodeId};
use crate::flowchart_boxes::{box_view, include_rect, spec_include, PositionedNode, PositionedSubgraph};
use crate::flowchart_place::node_view;
use crate::graph_layout::{EAST, NORTH, SOUTH, WEST};
use crate::heatmap::{low16, low_u16};
use crate::style::{i16_sat_add, i16_sat_sub, sat_add_i16, u16_as_i16, wrap_i16, Rect, Style};

verus! {

/// One cell of an edge: its position and the directions (N, S, E, W bits)
/// the edge leaves it in.
#[derive(Clone, Copy, Debug, PartialEq, Eq, Structural)]
pub struct EdgeCell {
    pub x: i16,
    pub y: i16,
    pub bits: u8,
}

/// An edge with its route.
#[derive(Debug)]
pub struct PositionedEdge {
    pub index: usize,
    pub from: NodeId,
    pub to: NodeId,
    pub label: Option<String>,
    pub style: EdgeStyle,
    pub head_from: EdgeArrow,
    pub head_to: EdgeArrow,
    pub line_style: Option<Style>,
    pub label_style: Option<Style>,
    pub cells: Vec<EdgeCell>,
    pub label_pos: Option<(i16, i16)>,
    pub head_from_pos: Option<(i16, i16, FlowDirection)>,
    pub head_to_pos: Option<(i16, i16, FlowDirection)>,
}

/// A flowchart's picture and its size.
#[derive(Debug)]
pub struct FlowchartRenderOutput {
    pub nodes: Vec<PositionedNode>,
    pub subgraphs: Vec<PositionedSubgraph>,
    pub edges: Vec<PositionedEdge>,
    pub width: u16,
    pub height: u16,
}

/// The side of a node an edge leaves from and the side it arrives at, for
/// a diagram flowing in `direction`: the centre of the trailing side of
/// `from` and the cell just before the leading side of `to`.
pub open spec fn spec_ports(from: Rect, to: Rect, direction: FlowDirection) -> ((int, int), (int, int)) {
    match direction {
        FlowDirection::TopDown => (
            (sat_add_i16(from.x as int, trunc_half(wrap_i16(from.w as int))), sat_add_i16(from.y as int, wrap_i16(from.h as int))),
            (sat_add_i16(to.x as int, trunc_half(wrap_i16(to.w as int))), sat_add_i16(to.y as int, -1)),
        ),
        FlowDirection::BottomUp => (
            (sat_add_i16(from.x as int, trunc_half(wrap_i16(from.w as int))), sat_add_i16(from.y as int, -1)),
            (sat_add_i16(to.x as int, trunc_half(wrap_i16(to.w as int))), sat_add_i16(to.y as int, wrap_i16(to.h as int))),
        ),
        FlowDirection::LeftRight => (
            (sat_add_i16(from.x as int, wrap_i16(from.w as int)), sat_add_i16(from.y as int, trunc_half(wrap_i16(from.h as int)))),
            (sat_add_i16(to.x as int, -1), sat_add_i16(to.y as int, trunc_half(wrap_i16(to.h as int)))),
        ),
        FlowDirection::RightLeft => (
            (sat_add_i16(from.x as int, -1), sat_add_i16(from.y as int, trunc_half(wrap_i16(from.h as int)))),
            (sat_add_i16(to.x as int, wrap_i16(to.w as int)), sat_add_i16(to.y as int, trunc_half(wrap_i16(to.h as int)))),
        ),
    }
}

/// `v / 2` rounded toward zero.
pub open spec fn trunc_half(v: int) -> int {
    if v >= 0 {
        v / 2
    } else {
        -((-v) / 2)
    }
}

fn half_i16(v: i16) -> (r: i16)
    ensures
        r == trunc_half(v as int),
{
    if v >= 0 {
        v / 2
    } else {
        let m: i32 = -(v as i32);
        (-(m / 2)) as i16
    }
}

/// The ports of an edge from `from` to `to`; see [`spec_ports`].
pub fn ports(from: Rect, to: Rect, direction: FlowDirection) -> (r: ((i16, i16), (i16, i16)))
    ensures
        (((r.0).0 as int, (r.0).1 as int), ((r.1).0 as int, (r.1).1 as int)) == spec_ports(from, to, direction),
{
    let fw = u16_as_i16(from.w);
    let fh = u16_as_i16(from.h);
    let tw = u16_as_i16(to.w);
    let th = u16_as_i16(to.h);
    match direction {
        FlowDirection::TopDown => (
            (i16_sat_add(from.x, half_i16(fw)), i16_sat_add(from.y, fh)),
            (i16_sat_add(to.x, half_i16(tw)), i16_sat_sub(to.y, 1)),
        ),
        FlowDirection::BottomUp => (
            (i16_sat_add(from.x, half_i16(fw)), i16_sat_sub(from.y, 1)),
            (i16_sat_add(to.x, half_i16(tw)), i16_sat_add(to.y, th)),
        ),
        FlowDirection::LeftRight => (
            (i16_sat_add(from.x, fw), i16_sat_add(from.y, half_i16(fh))),
            (i16_sat_sub(to.x, 1), i16_sat_add(to.y, half_i16(th))),
        ),
        FlowDirection::RightLeft => (
            (i16_sat_sub(from.x, 1), i16_sat_add(from.y, half_i16(fh))),
            (i16_sat_add(to.x, tw), i16_sat_add(to.y, half_i16(th))),
        ),
    }
}

/// The direction against `direction`.
pub fn opposite(direction: FlowDirection) -> (r: FlowDirection)
    ensures
        r == match direction {
            FlowDirection::TopDown => FlowDirection::BottomUp,
            FlowDirection::BottomUp => FlowDirection::TopDown,
            FlowDirection::LeftRight => FlowDirection::RightLeft,
            FlowDirection::RightLeft => FlowDirection::LeftRight,
        },
{
    match direction {
        FlowDirection::TopDown => FlowDirection::BottomUp,
        FlowDirection::BottomUp => FlowDirection::TopDown,
        FlowDirection::LeftRight => FlowDirection::RightLeft,
        FlowDirection::RightLeft => FlowDirection::LeftRight,
    }
}

/// The direction bits an edge's first and last cells gain towards the
/// nodes it joins: back towards its source, and on towards its target.
pub fn port_attachment_bits(direction: FlowDirection) -> (r: (u8, u8))
    ensures
        r == match direction {
            FlowDirection::TopDown => (NORTH, SOUTH),
            FlowDirection::BottomUp => (SOUTH, NORTH),
            FlowDirection::LeftRight => (WEST, EAST),
            FlowDirection::RightLeft => (EAST, WEST),
        },
{
    match direction {
        FlowDirection::TopDown => (NORTH, SOUTH),
        FlowDirection::BottomUp => (SOUTH, NORTH),
        FlowDirection::LeftRight => (WEST, EAST),
        FlowDirection::RightLeft => (EAST, WEST),
    }
}

/// The midpoint of `a` and `b`, rounded toward zero.
pub fn signed_midpoint(a: i16, b: i16) -> (r: i16)
    ensures
        r == trunc_half(a + b),
{
    let s: i32 = a as i32 + b as i32;
    if s >= 0 {
        (s / 2) as i16
    } else {
        (-((-s) / 2)) as i16
    }
}

/// Whether the vertical segment at `x` from `y_a` to `y_b` passes through
/// `rect` (touching its top or bottom edge does not count).
pub open spec fn crosses_vertical(rect: Rect, x: int, y_a: int, y_b: int) -> bool {
    let lo = if y_a <= y_b { y_a } else { y_b };
    let hi = if y_a <= y_b { y_b } else { y_a };
    x >= rect.x && x < sat_add_i16(rect.x as int, wrap_i16(rect.w as int)) && hi > rect.y && lo < sat_add_i16(
        rect.y as int,
        wrap_i16(rect.h as int),
    )
}

/// Whether the horizontal segment at `y` from `x_a` to `x_b` passes
/// through `rect` (touching its left or right edge does not count).
pub open spec fn crosses_horizontal(rect: Rect, y: int, x_a: int, x_b: int) -> bool {
    let lo = if x_a <= x_b { x_a } else { x_b };
    let hi = if x_a <= x_b { x_b } else { x_a };
    y >= rect.y && y < sat_add_i16(rect.y as int, wrap_i16(rect.h as int)) && hi > rect.x && lo < sat_add_i16(
        rect.x as int,
        wrap_i16(rect.w as int),
    )
}

/// Whether a vertical segment passes through `rect`; see [`crosses_vertical`].
pub fn rect_intersects_vertical_segment(rect: Rect, x: i16, y_a: i16, y_b: i16) -> (r: bool)
    ensures
        r == crosses_vertical(rect, x as int, y_a as int, y_b as int),
{
    let (lo, hi) = if y_a <= y_b { (y_a, y_b) } else { (y_b, y_a) };
    let right = i16_sat_add(rect.x, u16_as_i16(rect.w));
    let bottom = i16_sat_add(rect.y, u16_as_i16(rect.h));
    x >= rect.x && x < right && hi > rect.y && lo < bottom
}

/// Whether a horizontal segment passes through `rect`; see
/// [`crosses_horizontal`].
pub fn rect_intersects_horizontal_segment(rect: Rect, y: i16, x_a: i16, x_b: i16) -> (r: bool)
    ensures
        r == crosses_horizontal(rect, y as int, x_a as int, x_b as int),
{
    let (lo, hi) = if x_a <= x_b { (x_a, x_b) } else { (x_b, x_a) };
    let right = i16_sat_add(rect.x, u16_as_i16(rect.w));
    let bottom = i16_sat_add(rect.y, u16_as_i16(rect.h));
    y >= rect.y && y < bottom && hi > rect.x && lo < right
}

/// Bounds grown over the first `k` rectangles.
pub open spec fn rects_bounds(rects: Seq<Rect>, b: (i16, i16, i16, i16), k: int) -> (i16, i16, i16, i16)
    decreases k,
{
    if k <= 0 || k > rects.len() {
        b
    } else {
        spec_include(rects_bounds(rects, b, k - 1), rects[k - 1])
    }
}

/// `v` clamped to `0 ..= u16::MAX`.
pub open spec fn clamp_u16(v: int) -> int {
    if v < 0 {
        0
    } else if v > 65535 {
        65535
    } else {
        v
    }
}

/// The rectangle covering `rects`; none when no bounds were found.
pub open spec fn spec_bounds_for_rects(rects: Seq<Rect>) -> Option<Rect> {
    let b = rects_bounds(rects, (i16::MAX, i16::MAX, i16::MIN, i16::MIN), rects.len() as int);
    if b.0 == i16::MAX {
        None
    } else {
        Some(Rect { x: b.0, y: b.1, w: clamp_u16(b.2 - b.0) as u16, h: clamp_u16(b.3 - b.1) as u16 })
    }
}

fn clamp_to_u16(v: i32) -> (r: u16)
    ensures
        r == clamp_u16(v as int),
{
    if v < 0 {
        0
    } else if v > 65535 {
        65535
    } else {
        v as u16
    }
}

/// The rectangle covering `rects`; see [`spec_bounds_for_rects`].
pub fn bounds_for_rects(rects: &Vec<Rect>) -> (r: Option<Rect>)
    ensures
        r == spec_bounds_for_rects(rects@),
{
    let mut min_x: i16 = i16::MAX;
    let mut min_y: i16 = i16::MAX;
    let mut max_x: i16 = i16::MIN;
    let mut max_y: i16 = i16::MIN;
    let mut k: usize = 0;
    while k < rects.len()
        invariant
            k <= rects@.len(),
            (min_x, min_y, max_x, max_y) == rects_bounds(rects@, (i16::MAX, i16::MAX, i16::MIN, i16::MIN), k as int),
        decreases rects@.len() - k,
    {
        include_rect(rects[k], &mut min_x, &mut min_y, &mut max_x, &mut max_y);
        k = k + 1;
    }
    if min_x == i16::MAX {
        None
    } else {
        Some(
            Rect {
                x: min_x,
                y: min_y,
                w: clamp_to_u16(max_x as i32 - min_x as i32),
                h: clamp_to_u16(max_y as i32 - min_y as i32),
            },
        )
    }
}

/// What a routed edge is, as values.
pub struct EdgeShape {
    pub index: usize,
    pub from: Seq<char>,
    pub to: Seq<char>,
    pub label: Option<Seq<char>>,
    pub style: EdgeStyle,
    pub head_from: EdgeArrow,
    pub head_to: EdgeArrow,
    pub line_style: Option<Style>,
    pub label_style: Option<Style>,
    pub cells: Seq<EdgeCell>,
    pub label_pos: Option<(i16, i16)>,
    pub head_from_pos: Option<(i16, i16, FlowDirection)>,
    pub head_to_pos: Option<(i16, i16, FlowDirection)>,
}

/// The shape of edge `e`.
pub open spec fn edge_shape(e: PositionedEdge) -> EdgeShape {
    EdgeShape {
        index: e.index,
        from: e.from.0@,
        to: e.to.0@,
        label: match e.label {
            Some(l) => Some(l@),
            None => None,
        },
        style: e.style,
        head_from: e.head_from,
        head_to: e.head_to,
        line_style: e.line_style,
        label_style: e.label_style,
        cells: e.cells@,
        label_pos: e.label_pos,
        head_from_pos: e.head_from_pos,
        head_to_pos: e.head_to_pos,
    }
}

/// Bounds grown over the first `k` cells, each one cell wide and tall.
pub open spec fn cells_bounds(cells: Seq<EdgeCell>, b: (i16, i16, i16, i16), k: int) -> (i16, i16, i16, i16)
    decreases k,
{
    if k <= 0 || k > cells.len() {
        b
    } else {
        let p = cells_bounds(cells, b, k - 1);
        let c = cells[k - 1];
        let right = sat_add_i16(c.x as int, 1) as i16;
        let bottom = sat_add_i16(c.y as int, 1) as i16;
        (
            if c.x < p.0 { c.x } else { p.0 },
            if c.y < p.1 { c.y } else { p.1 },
            if right > p.2 { right } else { p.2 },
            if bottom > p.3 { bottom } else { p.3 },
        )
    }
}

/// Bounds grown over an edge: its cells, then its label's row when it has
/// a label and a place for it (the label's length taken as `i16`).
pub open spec fn edge_bounds(e: EdgeShape, b: (i16, i16, i16, i16)) -> (i16, i16, i16, i16) {
    let p = cells_bounds(e.cells, b, e.cells.len() as int);
    match (e.label_pos, e.label) {
        (Some((x, y)), Some(l)) => {
            let right = sat_add_i16(x as int, wrap_i16(low16(l.len() as int))) as i16;
            let bottom = sat_add_i16(y as int, 1) as i16;
            (
                if x < p.0 { x } else { p.0 },
                if y < p.1 { y } else { p.1 },
                if right > p.2 { right } else { p.2 },
                if bottom > p.3 { bottom } else { p.3 },
            )
        },
        _ => p,
    }
}

/// Bounds grown over the first `k` edges.
pub open spec fn edges_bounds(edges: Seq<PositionedEdge>, b: (i16, i16, i16, i16), k: int) -> (i16, i16, i16, i16)
    decreases k,
{
    if k <= 0 || k > edges.len() {
        b
    } else {
        edge_bounds(edge_shape(edges[k - 1]), edges_bounds(edges, b, k - 1))
    }
}

/// The bounds of a whole picture: nodes, subgraph boxes, then edges.
pub open spec fn picture_bounds(
    nodes: Seq<PositionedNode>,
    subgraphs: Seq<PositionedSubgraph>,
    edges: Seq<PositionedEdge>,
) -> (i16, i16, i16, i16) {
    let b0: (i16, i16, i16, i16) = (i16::MAX, i16::MAX, i16::MIN, i16::MIN);
    let b1 = rects_bounds(Seq::new(nodes.len(), |i: int| nodes[i].rect), b0, nodes.len() as int);
    let b2 = rects_bounds(Seq::new(subgraphs.len(), |i: int| subgraphs[i].rect), b1, subgraphs.len() as int);
    edges_bounds(edges, b2, edges.len() as int)
}

/// `r` moved by `(sx, sy)`, saturating.
pub open spec fn moved(r: Rect, sx: int, sy: int) -> Rect {
    Rect { x: sat_add_i16(r.x as int, sx) as i16, y: sat_add_i16(r.y as int, sy) as i16, w: r.w, h: r.h }
}

/// An optional position moved by `(sx, sy)`, saturating.
pub open spec fn moved_pos(p: Option<(i16, i16)>, sx: int, sy: int) -> Option<(i16, i16)> {
    match p {
        Some((x, y)) => Some((sat_add_i16(x as int, sx) as i16, sat_add_i16(y as int, sy) as i16)),
        None => None,
    }
}

/// An optional arrow-head position moved by `(sx, sy)`, saturating.
pub open spec fn moved_head(p: Option<(i16, i16, FlowDirection)>, sx: int, sy: int) -> Option<(i16, i16, FlowDirection)> {
    match p {
        Some((x, y, d)) => Some((sat_add_i16(x as int, sx) as i16, sat_add_i16(y as int, sy) as i16, d)),
        None => None,
    }
}

/// An edge moved by `(sx, sy)`: its cells, label and arrow heads.
pub open spec fn moved_edge(e: EdgeShape, sx: int, sy: int) -> EdgeShape {
    EdgeShape {
        cells: Seq::new(
            e.cells.len(),
            |i: int| EdgeCell { x: sat_add_i16(e.cells[i].x as int, sx) as i16, y: sat_add_i16(e.cells[i].y as int, sy) as i16, bits: e.cells[i].bits },
        ),
        label_pos: moved_pos(e.label_pos, sx, sy),
        head_from_pos: moved_head(e.head_from_pos, sx, sy),
        head_to_pos: moved_head(e.head_to_pos, sx, sy),
        ..e
    }
}

fn grow_by_cells(cells: &Vec<EdgeCell>, b: (i16, i16, i16, i16)) -> (r: (i16, i16, i16, i16))
    ensures
        r == cells_bounds(cells@, b, cells@.len() as int),
{
    let (mut min_x, mut min_y, mut max_x, mut max_y) = b;
    let mut k: usize = 0;
    while k < cells.len()
        invariant
            k <= cells@.len(),
            (min_x, min_y, max_x, max_y) == cells_bounds(cells@, b, k as int),
        decreases cells@.len() - k,
    {
        let c = cells[k];
        if c.x < min_x {
            min_x = c.x;
        }
        if c.y < min_y {
            min_y = c.y;
        }
        let right = i16_sat_add(c.x, 1);
        let bottom = i16_sat_add(c.y, 1);
        if right > max_x {
            max_x = right;
        }
        if bottom > max_y {
            max_y = bottom;
        }
        k = k + 1;
    }
    (min_x, min_y, max_x, max_y)
}

fn grow_by_edge(e: &PositionedEdge, b: (i16, i16, i16, i16)) -> (r: (i16, i16, i16, i16))
    ensures
        r == edge_bounds(edge_shape(*e), b),
{
    let (mut min_x, mut min_y, mut max_x, mut max_y) = grow_by_cells(&e.cells, b);
    match (&e.label_pos, &e.label) {
        (Some((x, y)), Some(l)) => {
            let x = *x;
            let y = *y;
            if x < min_x {
                min_x = x;
            }
            if y < min_y {
                min_y = y;
            }
            let right = i16_sat_add(x, u16_as_i16(low_u16(l.as_str().unicode_len())));
            let bottom = i16_sat_add(y, 1);
            if right > max_x {
                max_x = right;
            }
            if bottom > max_y {
                max_y = bottom;
            }
        },
        _ => {},
    }
    (min_x, min_y, max_x, max_y)
}

fn move_edge(e: &mut PositionedEdge, sx: i16, sy: i16)
    ensures
        edge_shape(*final(e)) == moved_edge(edge_shape(*old(e)), sx as int, sy as int),
{
    let mut cells: Vec<EdgeCell> = Vec::new();
    let mut k: usize = 0;
    while k < e.cells.len()
        invariant
            k <= e.cells@.len(),
            e == old(e),
            cells@.len() == k,
            forall|i: int|
                0 <= i < k ==> #[trigger] cells@[i] == (EdgeCell {
                    x: sat_add_i16(e.cells@[i].x as int, sx as int) as i16,
                    y: sat_add_i16(e.cells@[i].y as int, sy as int) as i16,
                    bits: e.cells@[i].bits,
                }),
        decreases e.cells@.len() - k,
    {
        let c = e.cells[k];
        cells.push(EdgeCell { x: i16_sat_add(c.x, sx), y: i16_sat_add(c.y, sy), bits: c.bits });
        k = k + 1;
    }
    e.cells = cells;
    e.label_pos = match e.label_pos {
        Some((x, y)) => Some((i16_sat_add(x, sx), i16_sat_add(y, sy))),
        None => None,
    };
    e.head_from_pos = match e.head_from_pos {
        Some((x, y, d)) => Some((i16_sat_add(x, sx), i16_sat_add(y, sy), d)),
        None => None,
    };
    e.head_to_pos = match e.head_to_pos {
        Some((x, y, d)) => Some((i16_sat_add(x, sx), i16_sat_add(y, sy), d)),
        None => None,
    };
    proof {
        assert(edge_shape(*e).cells =~= moved_edge(edge_shape(*old(e)), sx as int, sy as int).cells);
    }
}

fn move_rect(r: Rect, sx: i16, sy: i16) -> (m: Rect)
    ensures
        m == moved(r, sx as int, sy as int),
{
    Rect { x: i16_sat_add(r.x, sx), y: i16_sat_add(r.y, sy), w: r.w, h: r.h }
}

/// A placed node moved by `(sx, sy)`.
pub open spec fn moved_node(
    v: (Rect, Seq<char>, Seq<char>, Seq<Seq<char>>, crate::flowchart::NodeShape, Style, Style),
    sx: int,
    sy: int,
) -> (Rect, Seq<char>, Seq<char>, Seq<Seq<char>>, crate::flowchart::NodeShape, Style, Style) {
    (moved(v.0, sx, sy), v.1, v.2, v.3, v.4, v.5, v.6)
}

/// A placed box moved by `(sx, sy)`, with its header.
pub open spec fn moved_box(v: (Rect, Rect, Seq<char>, Seq<char>, int, Style), sx: int, sy: int) -> (
    Rect,
    Rect,
    Seq<char>,
    Seq<char>,
    int,
    Style,
) {
    (moved(v.0, sx, sy), moved(v.1, sx, sy), v.2, v.3, v.4, v.5)
}

/// What [`normalize_output`] gives for these parts: nothing when they
/// cover no cell; otherwise every part moved so the picture starts at the
/// origin, and the picture's size.
pub open spec fn normalized(
    nodes: Seq<PositionedNode>,
    subgraphs: Seq<PositionedSubgraph>,
    edges: Seq<PositionedEdge>,
    r: FlowchartRenderOutput,
) -> bool {
    let b = picture_bounds(nodes, subgraphs, edges);
    if b.0 == i16::MAX || b.1 == i16::MAX {
        &&& r.nodes@.len() == 0
        &&& r.subgraphs@.len() == 0
        &&& r.edges@.len() == 0
        &&& r.width == 0
        &&& r.height == 0
    } else {
        let sx = sat_add_i16(0, -(b.0 as int));
        let sy = sat_add_i16(0, -(b.1 as int));
        &&& r.nodes@.len() == nodes.len()
        &&& forall|i: int|
            0 <= i < nodes.len() ==> node_view(#[trigger] r.nodes@[i]) == moved_node(node_view(nodes[i]), sx, sy)
        &&& r.subgraphs@.len() == subgraphs.len()
        &&& forall|i: int|
            0 <= i < subgraphs.len() ==> box_view(#[trigger] r.subgraphs@[i]) == moved_box(
                box_view(subgraphs[i]),
                sx,
                sy,
            )
        &&& r.edges@.len() == edges.len()
        &&& forall|i: int|
            0 <= i < edges.len() ==> edge_shape(#[trigger] r.edges@[i]) == moved_edge(edge_shape(edges[i]), sx, sy)
        &&& r.width == clamp_u16(b.2 - b.0)
        &&& r.height == clamp_u16(b.3 - b.1)
    }
}

/// Moves the picture so it starts at the origin and measures it: the
/// bounds of every node, box, edge cell and edge label; an empty picture
/// when nothing bounds it.
pub fn normalize_output(
    nodes: Vec<PositionedNode>,
    subgraphs: Vec<PositionedSubgraph>,
    edges: Vec<PositionedEdge>,
) -> (r: FlowchartRenderOutput)
    ensures
        normalized(nodes@, subgraphs@, edges@, r),
{
    let ghost n0 = nodes@;
    let ghost s0 = subgraphs@;
    let ghost e0 = edges@;
    let mut min_x: i16 = i16::MAX;
    let mut min_y: i16 = i16::MAX;
    let mut max_x: i16 = i16::MIN;
    let mut max_y: i16 = i16::MIN;
    let ghost nr = Seq::new(n0.len(), |i: int| n0[i].rect);
    let ghost sr = Seq::new(s0.len(), |i: int| s0[i].rect);
    let mut k: usize = 0;
    while k < nodes.len()
        invariant
            k <= n0.len(),
            nodes@ == n0,
            nr == Seq::new(n0.len(), |i: int| n0[i].rect),
            (min_x, min_y, max_x, max_y) == rects_bounds(nr, (i16::MAX, i16::MAX, i16::MIN, i16::MIN), k as int),
        decreases n0.len() - k,
    {
        include_rect(nodes[k].rect, &mut min_x, &mut min_y, &mut max_x, &mut max_y);
        k = k + 1;
    }
    let ghost b1 = (min_x, min_y, max_x, max_y);
    let mut k: usize = 0;
    while k < subgraphs.len()
        invariant
            k <= s0.len(),
            subgraphs@ == s0,
            sr == Seq::new(s0.len(), |i: int| s0[i].rect),
            (min_x, min_y, max_x, max_y) == rects_bounds(sr, b1, k as int),
        decreases s0.len() - k,
    {
        include_rect(subgraphs[k].rect, &mut min_x, &mut min_y, &mut max_x, &mut max_y);
        k = k + 1;
    }
    let ghost b2 = (min_x, min_y, max_x, max_y);
    let mut k: usize = 0;
    while k < edges.len()
        invariant
            k <= e0.len(),
            edges@ == e0,
            (min_x, min_y, max_x, max_y) == edges_bounds(e0, b2, k as int),
        decreases e0.len() - k,
    {
        let b = grow_by_edge(&edges[k], (min_x, min_y, max_x, max_y));
        min_x = b.0;
        min_y = b.1;
        max_x = b.2;
        max_y = b.3;
        k = k + 1;
    }
    assert((min_x, min_y, max_x, max_y) == picture_bounds(n0, s0, e0));
    if min_x == i16::MAX || min_y == i16::MAX {
        return FlowchartRenderOutput { nodes: Vec::new(), subgraphs: Vec::new(), edges: Vec::new(), width: 0, height: 0 };
    }
    let sx = i16_sat_sub(0, min_x);
    let sy = i16_sat_sub(0, min_y);
    let mut rest = nodes;
    let mut out_nodes: Vec<PositionedNode> = Vec::new();
    while rest.len() > 0
        invariant
            out_nodes@.len() + rest@.len() == n0.len(),
            rest@ == n0.subrange(out_nodes@.len() as int, n0.len() as int),
            forall|i: int|
                0 <= i < out_nodes@.len() ==> node_view(#[trigger] out_nodes@[i]) == moved_node(
                    node_view(n0[i]),
                    sx as int,
                    sy as int,
                ),
        decreases rest@.len(),
    {
        let ghost j = out_nodes@.len() as int;
        let mut n = rest.remove(0);
        assert(n == n0[j]);
        n.rect = move_rect(n.rect, sx, sy);
        out_nodes.push(n);
        assert(rest@ =~= n0.subrange(j + 1, n0.len() as int));
    }
    let mut rest = subgraphs;
    let mut out_boxes: Vec<PositionedSubgraph> = Vec::new();
    while rest.len() > 0
        invariant
            out_boxes@.len() + rest@.len() == s0.len(),
            rest@ == s0.subrange(out_boxes@.len() as int, s0.len() as int),
            forall|i: int|
                0 <= i < out_boxes@.len() ==> box_view(#[trigger] out_boxes@[i]) == moved_box(
                    box_view(s0[i]),
                    sx as int,
                    sy as int,
                ),
        decreases rest@.len(),
    {
        let ghost j = out_boxes@.len() as int;
        let mut b = rest.remove(0);
        assert(b == s0[j]);
        b.rect = move_rect(b.rect, sx, sy);
        b.header_rect = move_rect(b.header_rect, sx, sy);
        out_boxes.push(b);
        assert(rest@ =~= s0.subrange(j + 1, s0.len() as int));
    }
    let mut rest = edges;
    let mut out_edges: Vec<PositionedEdge> = Vec::new();
    while rest.len() > 0
        invariant
            out_edges@.len() + rest@.len() == e0.len(),
            rest@ == e0.subrange(out_edges@.len() as int, e0.len() as int),
            forall|i: int|
                0 <= i < out_edges@.len() ==> edge_shape(#[trigger] out_edges@[i]) == moved_edge(
                    edge_shape(e0[i]),
                    sx as int,
                    sy as int,
                ),
        decreases rest@.len(),
    {
        let ghost j = out_edges@.len() as int;
        let mut e = rest.remove(0);
        assert(e == e0[j]);
        move_edge(&mut e, sx, sy);
        out_edges.push(e);
        assert(rest@ =~= e0.subrange(j + 1, e0.len() as int));
    }
    FlowchartRenderOutput {
        nodes: out_nodes,
        subgraphs: out_boxes,
        edges: out_edges,
        width: clamp_to_u16(max_x as i32 - min_x as i32),
        height: clamp_to_u16(max_y as i32 - min_y as i32),
    }
}

/// Edges leave a node from the middle of its trailing side and arrive in
/// front of the middle of the next node's leading side, following the
/// diagram's direction: downwards they leave just below `from` and arrive
/// just above `to`, upwards the other way round, rightwards they leave just
/// right of `from` and arrive just left of `to`, leftwards the other way
/// round. (Rects are taken well inside the `i16` range.)
pub proof fn law_ports(from: Rect, to: Rect, direction: FlowDirection)
    requires
        -16000 <= from.x && -16000 <= from.y && -16000 <= to.x && -16000 <= to.y,
        from.x + from.w <= 16000 && from.y + from.h <= 16000 && to.x + to.w <= 16000 && to.y + to.h <= 16000,
    ensures
        ({
            let (a, b) = spec_ports(from, to, direction);
            let vertical = direction == FlowDirection::TopDown || direction == FlowDirection::BottomUp;
            &&& vertical ==> a.0 == from.x + from.w / 2 && b.0 == to.x + to.w / 2
            &&& !vertical ==> a.1 == from.y + from.h / 2 && b.1 == to.y + to.h / 2
            &&& direction == FlowDirection::TopDown ==> a.1 == from.y + from.h && b.1 == to.y - 1
            &&& direction == FlowDirection::BottomUp ==> a.1 == from.y - 1 && b.1 == to.y + to.h
            &&& direction == FlowDirection::LeftRight ==> a.0 == from.x + from.w && b.0 == to.x - 1
            &&& direction == FlowDirection::RightLeft ==> a.0 == from.x - 1 && b.0 == to.x + to.w
        }),
{
}

/// Rects whose far edges stay in the `i16` range (and that do not start on
/// its last column).
pub open spec fn rects_in_range(rects: Seq<Rect>) -> bool {
    forall|i: int|
        0 <= i < rects.len() ==> (#[trigger] rects[i]).x < i16::MAX && rects[i].w <= i16::MAX && rects[i].h <= i16::MAX
            && rects[i].x + rects[i].w <= i16::MAX && rects[i].y + rects[i].h <= i16::MAX
}

proof fn lemma_rects_bounds(rects: Seq<Rect>, k: int)
    requires
        0 <= k <= rects.len(),
        rects_in_range(rects),
    ensures
        ({
            let b = rects_bounds(rects, (i16::MAX, i16::MAX, i16::MIN, i16::MIN), k);
            &&& k == 0 ==> b == (i16::MAX, i16::MAX, i16::MIN, i16::MIN)
            &&& forall|i: int|
                0 <= i < k ==> b.0 <= (#[trigger] rects[i]).x && b.1 <= rects[i].y && rects[i].x + rects[i].w <= b.2
                    && rects[i].y + rects[i].h <= b.3
            &&& k > 0 ==> (exists|i: int| 0 <= i < k && b.0 == (#[trigger] rects[i]).x) && (exists|i: int|
                0 <= i < k && b.1 == (#[trigger] rects[i]).y) && (exists|i: int|
                0 <= i < k && b.2 == (#[trigger] rects[i]).x + rects[i].w) && (exists|i: int|
                0 <= i < k && b.3 == (#[trigger] rects[i]).y + rects[i].h)
        }),
    decreases k,
{
    if k > 0 {
        lemma_rects_bounds(rects, k - 1);
        let r = rects[k - 1];
        assert(rects_in_range(rects) ==> r.x < i16::MAX);
        let prev = rects_bounds(rects, (i16::MAX, i16::MAX, i16::MIN, i16::MIN), k - 1);
        let b = rects_bounds(rects, (i16::MAX, i16::MAX, i16::MIN, i16::MIN), k);
        assert(b == spec_include(prev, r));
        assert(sat_add_i16(r.x as int, wrap_i16(r.w as int)) == r.x + r.w);
        assert(sat_add_i16(r.y as int, wrap_i16(r.h as int)) == r.y + r.h);
        if k == 1 {
            assert(b.0 == r.x && b.1 == r.y && b.2 == r.x + r.w && b.3 == r.y + r.h);
        } else {
            if b.0 == prev.0 {
                let i = choose|i: int| 0 <= i < k - 1 && prev.0 == (#[trigger] rects[i]).x;
                assert(b.0 == rects[i].x);
            } else {
                assert(b.0 == rects[k - 1].x);
            }
            if b.1 == prev.1 {
                let i = choose|i: int| 0 <= i < k - 1 && prev.1 == (#[trigger] rects[i]).y;
                assert(b.1 == rects[i].y);
            } else {
                assert(b.1 == rects[k - 1].y);
            }
            if b.2 == prev.2 {
                let i = choose|i: int| 0 <= i < k - 1 && prev.2 == (#[trigger] rects[i]).x + rects[i].w;
                assert(b.2 == rects[i].x + rects[i].w);
            } else {
                assert(b.2 == rects[k - 1].x + rects[k - 1].w);
            }
            if b.3 == prev.3 {
                let i = choose|i: int| 0 <= i < k - 1 && prev.3 == (#[trigger] rects[i]).y + rects[i].h;
                assert(b.3 == rects[i].y + rects[i].h);
            } else {
                assert(b.3 == rects[k - 1].y + rects[k - 1].h);
            }
        }
    }
}

/// The rectangle covering a list of rects is the smallest that holds them
/// all: every rect lies inside it, and each of its four edges is the edge of
/// some rect. A list without rects has none.
pub proof fn law_bounds_for_rects(rects: Seq<Rect>)
    requires
        rects_in_range(rects),
    ensures
        rects.len() == 0 <==> spec_bounds_for_rects(rects) is None,
        spec_bounds_for_rects(rects) matches Some(bb) ==> {
            &&& forall|i: int|
                0 <= i < rects.len() ==> bb.x <= (#[trigger] rects[i]).x && bb.y <= rects[i].y && rects[i].x
                    + rects[i].w <= bb.x + bb.w && rects[i].y + rects[i].h <= bb.y + bb.h
            &&& exists|i: int| 0 <= i < rects.len() && bb.x == (#[trigger] rects[i]).x
            &&& exists|i: int| 0 <= i < rects.len() && bb.y == (#[trigger] rects[i]).y
            &&& exists|i: int| 0 <= i < rects.len() && bb.x + bb.w == (#[trigger] rects[i]).x + rects[i].w
            &&& exists|i: int| 0 <= i < rects.len() && bb.y + bb.h == (#[trigger] rects[i]).y + rects[i].h
        },
{
    lemma_rects_bounds(rects, rects.len() as int);
    let b = rects_bounds(rects, (i16::MAX, i16::MAX, i16::MIN, i16::MIN), rects.len() as int);
    if rects.len() > 0 {
        assert(b.0 <= rects[0].x);
        assert(rects[0].x + rects[0].w <= b.2);
        let bb = spec_bounds_for_rects(rects)->0;
        assert(bb.w == b.2 - b.0);
        assert(bb.h == b.3 - b.1);
    }
}

} // verus!
