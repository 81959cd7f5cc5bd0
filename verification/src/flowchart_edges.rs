//! The cells an edge's route covers: each axis-aligned step of the route
//! joins the cells it passes through, the first and last cells reach towards
//! the nodes they touch, and the covered cells come out in reading order
//! (row by row, left to right) with the directions each one connects.

use vstd::prelude::*;

use crate::flowchart::{EdgeStyle, FlowDirection, Flowchart, NodeId};
use crate::flowchart_boxes::{find_rect, rect_for, PositionedNode, PositionedSubgraph};
use crate::flowchart_rank::LayoutEdge;
use crate::flowchart_output::{
    bounds_for_rects, edge_shape, opposite, port_attachment_bits, ports, spec_bounds_for_rects, spec_ports, trunc_half,
    EdgeCell, EdgeShape, PositionedEdge,
};
use crate::flowchart_route::{
    back_edge_label_segment_midpoint, back_edge_points, detour_choice, detour_values, forward_edge_points,
    horizontal_or_vertical_crosses, obstacle_rects, spec_back_label,
    spec_obstacles,
    spec_back_points, spec_forward_points, straight_blocked,
};
use crate::style::{i16_sat_sub, sat_add_i16, Rect};
use crate::graph_layout::{EAST, NORTH, SOUTH, WEST};

verus! {

/// The directions the step from `a` to `b` joins cell `(x, y)` in: along a
/// vertical step, up unless at its top and down unless at its bottom; along
/// a horizontal step, left unless at its left end and right unless at its
/// right end; nothing off the step, for a step of no length, or for a
/// diagonal step.
pub open spec fn seg_bits(a: (i16, i16), b: (i16, i16), x: int, y: int) -> u8 {
    if a == b {
        0
    } else if a.0 == b.0 {
        let lo: int = if a.1 <= b.1 { a.1 as int } else { b.1 as int };
        let hi: int = if a.1 <= b.1 { b.1 as int } else { a.1 as int };
        if x == a.0 && lo <= y <= hi {
            (if y > lo { NORTH } else { 0u8 }) | (if y < hi { SOUTH } else { 0u8 })
        } else {
            0
        }
    } else if a.1 == b.1 {
        let lo: int = if a.0 <= b.0 { a.0 as int } else { b.0 as int };
        let hi: int = if a.0 <= b.0 { b.0 as int } else { a.0 as int };
        if y == a.1 && lo <= x <= hi {
            (if x > lo { WEST } else { 0u8 }) | (if x < hi { EAST } else { 0u8 })
        } else {
            0
        }
    } else {
        0
    }
}

/// `init` with the bits of the first `k` steps of `pts` added.
pub open spec fn fold_bits(init: u8, pts: Seq<(i16, i16)>, k: int, x: int, y: int) -> u8
    decreases k,
{
    if k <= 0 || k >= pts.len() {
        init
    } else {
        fold_bits(init, pts, k - 1, x, y) | seg_bits(pts[k - 1], pts[k], x, y)
    }
}

/// The directions at `(x, y)` of an edge leaving `start` and arriving at
/// `end` along `pts`: the source side at `start`, the target side at `end`,
/// then every step in order.
pub open spec fn cell_bits(start: (i16, i16), end: (i16, i16), direction: FlowDirection, pts: Seq<(i16, i16)>, x: int, y: int) -> u8 {
    let att = attachment(direction);
    let b0: u8 = if x == start.0 && y == start.1 { 0u8 | att.0 } else { 0u8 };
    let b1: u8 = if x == end.0 && y == end.1 { b0 | att.1 } else { b0 };
    fold_bits(b1, pts, pts.len() - 1, x, y)
}

/// The bits the first and last cells gain towards the nodes.
pub open spec fn attachment(direction: FlowDirection) -> (u8, u8) {
    match direction {
        FlowDirection::TopDown => (NORTH, SOUTH),
        FlowDirection::BottomUp => (SOUTH, NORTH),
        FlowDirection::LeftRight => (WEST, EAST),
        FlowDirection::RightLeft => (EAST, WEST),
    }
}

/// Whether `(y1, x1)` comes before `(y2, x2)` in reading order.
pub open spec fn reads_before(a: EdgeCell, b: EdgeCell) -> bool {
    a.y < b.y || (a.y == b.y && a.x < b.x)
}

/// `cells` are exactly the cells the edge covers (those whose direction
/// bits, kept to the four directions, are not empty), in reading order, each
/// with those bits.
pub open spec fn covered_cells(start: (i16, i16), end: (i16, i16), direction: FlowDirection, pts: Seq<(i16, i16)>, cells: Seq<EdgeCell>) -> bool {
    &&& forall|i: int|
        0 <= i < cells.len() ==> (#[trigger] cells[i]).bits == cell_bits(
            start,
            end,
            direction,
            pts,
            cells[i].x as int,
            cells[i].y as int,
        ) & 15 && cells[i].bits != 0
    &&& forall|i: int, j: int| 0 <= i < j < cells.len() ==> reads_before(#[trigger] cells[i], #[trigger] cells[j])
    &&& forall|x: i16, y: i16|
        (#[trigger] cell_bits(start, end, direction, pts, x as int, y as int)) & 15 != 0 ==> exists|i: int|
            0 <= i < cells.len() && cells[i].x == x && cells[i].y == y
}

fn seg_bits_at(a: (i16, i16), b: (i16, i16), x: i16, y: i16) -> (r: u8)
    ensures
        r == seg_bits(a, b, x as int, y as int),
{
    if a.0 == b.0 && a.1 == b.1 {
        0
    } else if a.0 == b.0 {
        let lo = if a.1 <= b.1 { a.1 } else { b.1 };
        let hi = if a.1 <= b.1 { b.1 } else { a.1 };
        if x == a.0 && lo <= y && y <= hi {
            (if y > lo { NORTH } else { 0u8 }) | (if y < hi { SOUTH } else { 0u8 })
        } else {
            0
        }
    } else if a.1 == b.1 {
        let lo = if a.0 <= b.0 { a.0 } else { b.0 };
        let hi = if a.0 <= b.0 { b.0 } else { a.0 };
        if y == a.1 && lo <= x && x <= hi {
            (if x > lo { WEST } else { 0u8 }) | (if x < hi { EAST } else { 0u8 })
        } else {
            0
        }
    } else {
        0
    }
}

fn cell_bits_at(start: (i16, i16), end: (i16, i16), direction: FlowDirection, pts: &Vec<(i16, i16)>, x: i16, y: i16) -> (r: u8)
    ensures
        r == cell_bits(start, end, direction, pts@, x as int, y as int),
{
    let (sa, ta) = port_attachment_bits(direction);
    let b0: u8 = if x == start.0 && y == start.1 { 0u8 | sa } else { 0u8 };
    let mut b: u8 = if x == end.0 && y == end.1 { b0 | ta } else { b0 };
    let ghost init = b;
    let mut k: usize = 1;
    while k < pts.len()
        invariant
            1 <= k <= pts@.len() || (k == 1 && pts@.len() <= 1),
            b == fold_bits(init, pts@, k - 1, x as int, y as int),
        decreases pts@.len() - k,
    {
        b = b | seg_bits_at(pts[k - 1], pts[k], x, y);
        k = k + 1;
    }
    b
}

/// Nothing joins a cell away from a step.
proof fn lemma_fold_zero(pts: Seq<(i16, i16)>, k: int, x: int, y: int)
    requires
        forall|j: int| 0 <= j < k && j + 1 < pts.len() ==> seg_bits(#[trigger] pts[j], pts[j + 1], x, y) == 0,
    ensures
        fold_bits(0, pts, k, x, y) == 0,
    decreases k,
{
    if k > 0 && k < pts.len() {
        lemma_fold_zero(pts, k - 1, x, y);
        let a = fold_bits(0, pts, k - 1, x, y);
        let s = seg_bits(pts[k - 1], pts[k], x, y);
        assert(a == 0 && s == 0);
        assert(0u8 | 0u8 == 0u8) by (bit_vector);
    }
}

/// The cells of a route, as [`covered_cells`] says.
pub fn edge_cells(start: (i16, i16), end: (i16, i16), direction: FlowDirection, pts: &Vec<(i16, i16)>) -> (r: Vec<EdgeCell>)
    ensures
        covered_cells(start, end, direction, pts@, r@),
{
    // the box holding both ends and every point of the route
    let mut min_x = if start.0 < end.0 { start.0 } else { end.0 };
    let mut max_x = if start.0 < end.0 { end.0 } else { start.0 };
    let mut min_y = if start.1 < end.1 { start.1 } else { end.1 };
    let mut max_y = if start.1 < end.1 { end.1 } else { start.1 };
    let mut k: usize = 0;
    while k < pts.len()
        invariant
            k <= pts@.len(),
            min_x <= start.0 <= max_x && min_x <= end.0 <= max_x,
            min_y <= start.1 <= max_y && min_y <= end.1 <= max_y,
            forall|j: int| 0 <= j < k ==> min_x <= (#[trigger] pts@[j]).0 <= max_x && min_y <= pts@[j].1 <= max_y,
        decreases pts@.len() - k,
    {
        let p = pts[k];
        if p.0 < min_x {
            min_x = p.0;
        }
        if p.0 > max_x {
            max_x = p.0;
        }
        if p.1 < min_y {
            min_y = p.1;
        }
        if p.1 > max_y {
            max_y = p.1;
        }
        k = k + 1;
    }
    proof {
        assert forall|x: i16, y: i16|
            !(min_x <= x <= max_x && min_y <= y <= max_y) implies #[trigger] cell_bits(
            start,
            end,
            direction,
            pts@,
            x as int,
            y as int,
        ) == 0 by {
            assert forall|j: int| 0 <= j < pts@.len() - 1 && j + 1 < pts@.len() implies seg_bits(
                #[trigger] pts@[j],
                pts@[j + 1],
                x as int,
                y as int,
            ) == 0 by {
                let a = pts@[j];
                let b = pts@[j + 1];
                assert(min_x <= a.0 <= max_x && min_y <= a.1 <= max_y);
                assert(min_x <= b.0 <= max_x && min_y <= b.1 <= max_y);
            }
            lemma_fold_zero(pts@, pts@.len() - 1, x as int, y as int);
        }
    }
    let mut out: Vec<EdgeCell> = Vec::new();
    let mut y: i32 = min_y as i32;
    assert(0u8 & 15u8 == 0u8) by (bit_vector);
    while y <= max_y as i32
        invariant
            0u8 & 15u8 == 0u8,
            min_y as i32 <= y <= max_y as i32 + 1,
            min_x <= max_x,
            forall|x: i16, yy: i16|
                !(min_x <= x <= max_x && min_y <= yy <= max_y) ==> #[trigger] cell_bits(
                    start,
                    end,
                    direction,
                    pts@,
                    x as int,
                    yy as int,
                ) == 0,
            forall|i: int|
                0 <= i < out@.len() ==> (#[trigger] out@[i]).bits == cell_bits(
                    start,
                    end,
                    direction,
                    pts@,
                    out@[i].x as int,
                    out@[i].y as int,
                ) & 15 && out@[i].bits != 0 && out@[i].y < y,
            forall|i: int, j: int| 0 <= i < j < out@.len() ==> reads_before(#[trigger] out@[i], #[trigger] out@[j]),
            forall|xx: i16, yy: i16|
                yy < y && (#[trigger] cell_bits(start, end, direction, pts@, xx as int, yy as int)) & 15 != 0
                    ==> exists|i: int| 0 <= i < out@.len() && out@[i].x == xx && out@[i].y == yy,
        decreases max_y as i32 + 1 - y,
    {
        let yv = y as i16;
        let mut x: i32 = min_x as i32;
        let ghost row_start = out@.len();
        while x <= max_x as i32
            invariant
                0u8 & 15u8 == 0u8,
                min_x as i32 <= x <= max_x as i32 + 1,
                min_y as i32 <= y <= max_y as i32,
                yv == y,
                row_start <= out@.len(),
                forall|i: int|
                    0 <= i < out@.len() ==> (#[trigger] out@[i]).bits == cell_bits(
                        start,
                        end,
                        direction,
                        pts@,
                        out@[i].x as int,
                        out@[i].y as int,
                    ) & 15 && out@[i].bits != 0 && out@[i].y <= y,
                forall|i: int| row_start <= i < out@.len() ==> (#[trigger] out@[i]).y == y && out@[i].x < x,
                forall|i: int| 0 <= i < row_start ==> (#[trigger] out@[i]).y < y,
                forall|i: int, j: int| 0 <= i < j < out@.len() ==> reads_before(#[trigger] out@[i], #[trigger] out@[j]),
                forall|xx: i16, yy: i16|
                    (yy < y || (yy == y && xx < x)) && (#[trigger] cell_bits(
                        start,
                        end,
                        direction,
                        pts@,
                        xx as int,
                        yy as int,
                    )) & 15 != 0 ==> exists|i: int| 0 <= i < out@.len() && out@[i].x == xx && out@[i].y == yy,
                forall|xx: i16, yy: i16|
                    !(min_x <= xx <= max_x && min_y <= yy <= max_y) ==> #[trigger] cell_bits(
                        start,
                        end,
                        direction,
                        pts@,
                        xx as int,
                        yy as int,
                    ) == 0,
            decreases max_x as i32 + 1 - x,
        {
            let xv = x as i16;
            let bits = cell_bits_at(start, end, direction, pts, xv, yv) & 15;
            if bits != 0 {
                let ghost before = out@;
                out.push(EdgeCell { x: xv, y: yv, bits });
                proof {
                    assert forall|xx: i16, yy: i16|
                        (yy < y || (yy == y && xx < x + 1)) && (#[trigger] cell_bits(
                            start,
                            end,
                            direction,
                            pts@,
                            xx as int,
                            yy as int,
                        )) & 15 != 0 implies exists|i: int| 0 <= i < out@.len() && out@[i].x == xx && out@[i].y == yy by {
                        if yy == y && xx == x {
                            assert(out@[before.len() as int].x == xx);
                        } else {
                            let i = choose|i: int| 0 <= i < before.len() && before[i].x == xx && before[i].y == yy;
                            assert(out@[i] == before[i]);
                        }
                    }
                }
            } else {
                proof {
                    assert forall|xx: i16, yy: i16|
                        (yy < y || (yy == y && xx < x + 1)) && (#[trigger] cell_bits(
                            start,
                            end,
                            direction,
                            pts@,
                            xx as int,
                            yy as int,
                        )) & 15 != 0 implies exists|i: int| 0 <= i < out@.len() && out@[i].x == xx && out@[i].y == yy by {
                        if yy == y && xx == x {
                            assert(false);
                        }
                    }
                }
            }
            x = x + 1;
        }
        proof {
            assert forall|xx: i16, yy: i16|
                yy < y + 1 && (#[trigger] cell_bits(start, end, direction, pts@, xx as int, yy as int)) & 15 != 0
                    implies exists|i: int| 0 <= i < out@.len() && out@[i].x == xx && out@[i].y == yy by {
                if yy == y && xx as i32 > max_x as i32 {
                    assert(cell_bits(start, end, direction, pts@, xx as int, yy as int) == 0);
                    assert(0u8 & 15u8 == 0u8) by (bit_vector);
                }
            }
        }
        y = y + 1;
    }
    proof {
        assert forall|xx: i16, yy: i16|
            (#[trigger] cell_bits(start, end, direction, pts@, xx as int, yy as int)) & 15 != 0 implies exists|i: int|
                0 <= i < out@.len() && out@[i].x == xx && out@[i].y == yy by {
            if yy as i32 > max_y as i32 {
                assert(cell_bits(start, end, direction, pts@, xx as int, yy as int) == 0);
                assert(0u8 & 15u8 == 0u8) by (bit_vector);
            }
        }
    }
    out
}

/// The length of the step from `a` to `b`, counted along both axes.
pub open spec fn step_len(a: (i16, i16), b: (i16, i16)) -> int {
    let dx = a.0 - b.0;
    let dy = a.1 - b.1;
    (if dx < 0 { -dx } else { dx }) + (if dy < 0 { -dy } else { dy })
}

/// Which of the first `k` steps is the longest, the last of equals.
pub open spec fn longest_step(pts: Seq<(i16, i16)>, k: int) -> int
    decreases k,
{
    if k <= 1 {
        0
    } else {
        let j = longest_step(pts, k - 1);
        if step_len(pts[k - 1], pts[k]) >= step_len(pts[j], pts[j + 1]) {
            k - 1
        } else {
            j
        }
    }
}

/// Every step's length fits in `u16` and the sums of its ends' coordinates
/// fit in `i16`, as the midpoint arithmetic needs.
pub open spec fn steps_fit(pts: Seq<(i16, i16)>) -> bool {
    forall|j: int|
        0 <= j < pts.len() - 1 ==> {
            &&& step_len(#[trigger] pts[j], pts[j + 1]) <= 0xffff
            &&& i16::MIN <= pts[j].0 + pts[j + 1].0 <= i16::MAX
            &&& i16::MIN <= pts[j].1 + pts[j + 1].1 <= i16::MAX
        }
}

/// The midpoint of the longest step (the last of equals), rounded toward
/// zero; none for fewer than two points.
pub open spec fn spec_longest_mid(pts: Seq<(i16, i16)>) -> Option<(int, int)> {
    if pts.len() < 2 {
        None
    } else {
        let j = longest_step(pts, pts.len() - 1);
        Some((trunc_half(pts[j].0 + pts[j + 1].0), trunc_half(pts[j].1 + pts[j + 1].1)))
    }
}

proof fn lemma_longest_in_range(pts: Seq<(i16, i16)>, k: int)
    requires
        1 <= k,
    ensures
        0 <= longest_step(pts, k) < k,
    decreases k,
{
    if k > 1 {
        lemma_longest_in_range(pts, k - 1);
    }
}

pub(crate) fn step_length(a: (i16, i16), b: (i16, i16)) -> (r: u32)
    ensures
        r == step_len(a, b),
{
    let dx: i32 = a.0 as i32 - b.0 as i32;
    let dy: i32 = a.1 as i32 - b.1 as i32;
    let ax: u32 = if dx < 0 { (-dx) as u32 } else { dx as u32 };
    let ay: u32 = if dy < 0 { (-dy) as u32 } else { dy as u32 };
    ax + ay
}

/// The midpoint of the longest step; see [`spec_longest_mid`].
pub fn longest_segment_midpoint(points: &Vec<(i16, i16)>) -> (r: Option<(i16, i16)>)
    requires
        steps_fit(points@),
    ensures
        match r {
            Some(p) => spec_longest_mid(points@) == Some((p.0 as int, p.1 as int)),
            None => spec_longest_mid(points@) is None,
        },
{
    if points.len() < 2 {
        return None;
    }
    let mut best: usize = 0;
    let mut best_len = step_length(points[0], points[1]);
    let mut k: usize = 2;
    while k < points.len()
        invariant
            2 <= k <= points@.len(),
            best == longest_step(points@, k - 1),
            best < k - 1,
            best_len == step_len(points@[best as int], points@[best + 1]),
        decreases points@.len() - k,
    {
        let l = step_length(points[k - 1], points[k]);
        if l >= best_len {
            best = k - 1;
            best_len = l;
        }
        k = k + 1;
    }
    let a = points[best];
    let b = points[best + 1];
    assert(0 <= best < points@.len() - 1);
    let sx: i16 = a.0 + b.0;
    let sy: i16 = a.1 + b.1;
    Some((sx / 2, sy / 2))
}

/// The points a route follows: around the diagram's side for a back edge,
/// straight or around obstacles otherwise.
pub open spec fn route_points(
    start: (i16, i16),
    end: (i16, i16),
    direction: FlowDirection,
    is_back_edge: bool,
    bounds: Option<Rect>,
    obstacles: Seq<Rect>,
) -> Seq<(i16, i16)> {
    if is_back_edge {
        spec_back_points(start, end, direction, bounds, obstacles)
    } else {
        spec_forward_points(start, end, direction, obstacles)
    }
}

/// The ports of an edge as `i16` pairs.
pub open spec fn port_pair(from: Rect, to: Rect, direction: FlowDirection) -> ((i16, i16), (i16, i16)) {
    let p = spec_ports(from, to, direction);
    ((p.0.0 as i16, p.0.1 as i16), (p.1.0 as i16, p.1.1 as i16))
}

/// Where an edge's label goes: centred on the middle of its longest step
/// (for a back edge, on its side step when it has one), moved left by half
/// the label's length in characters (taken as `i16`, as a cast truncates,
/// and halved toward zero).
pub open spec fn spec_label_pos(label_len: nat, pts: Seq<(i16, i16)>, is_back_edge: bool, direction: FlowDirection) -> Option<
    (int, int),
> {
    let mid = if is_back_edge && spec_back_label(pts, direction) is Some {
        spec_back_label(pts, direction)
    } else {
        spec_longest_mid(pts)
    };
    match mid {
        Some(m) => Some((sat_add_i16(m.0, -trunc_half((label_len as i16) as int)), m.1)),
        None => None,
    }
}

/// Whether the route's computation stays within what its arithmetic allows:
/// a detour around obstacles has room on the chosen side, and a labelled
/// edge's steps fit the midpoint arithmetic.
pub open spec fn route_fits(
    from: Rect,
    to: Rect,
    direction: FlowDirection,
    labelled: bool,
    is_back_edge: bool,
    bounds: Option<Rect>,
    obstacles: Seq<Rect>,
) -> bool {
    let (start, end) = port_pair(from, to, direction);
    &&& !is_back_edge && straight_blocked(start, end, direction, obstacles) ==> detour_choice(
        start,
        end,
        direction,
        obstacles,
    ).2 != i16::MIN && detour_choice(start, end, direction, obstacles).3 != i16::MIN
    &&& labelled ==> steps_fit(route_points(start, end, direction, is_back_edge, bounds, obstacles))
}

/// What [`route_edge_cells`] gives: nothing for an invisible edge;
/// otherwise the cells its route covers, its label's place, and its arrow
/// heads at the ports.
pub open spec fn routed(
    from: Rect,
    to: Rect,
    direction: FlowDirection,
    style: EdgeStyle,
    label: Option<Seq<char>>,
    is_back_edge: bool,
    bounds: Option<Rect>,
    obstacles: Seq<Rect>,
    cells: Seq<EdgeCell>,
    label_pos: Option<(i16, i16)>,
    head_from: Option<(i16, i16, FlowDirection)>,
    head_to: Option<(i16, i16, FlowDirection)>,
) -> bool {
    if style == EdgeStyle::Invisible {
        cells.len() == 0 && label_pos is None && head_from is None && head_to is None
    } else {
        let (start, end) = port_pair(from, to, direction);
        let pts = route_points(start, end, direction, is_back_edge, bounds, obstacles);
        &&& covered_cells(start, end, direction, pts, cells)
        &&& head_from == Some((start.0, start.1, opposite_of(direction)))
        &&& head_to == Some((end.0, end.1, direction))
        &&& match label {
            None => label_pos is None,
            Some(l) => match label_pos {
                Some(p) => spec_label_pos(l.len(), pts, is_back_edge, direction) == Some((p.0 as int, p.1 as int)),
                None => spec_label_pos(l.len(), pts, is_back_edge, direction) is None,
            },
        }
    }
}

/// An edge's route: its cells, where its label goes, and where its arrow
/// heads sit (at the source pointing back against the flow, at the target
/// pointing with it). An invisible edge has none of these.
pub fn route_edge_cells(
    from: Rect,
    to: Rect,
    direction: FlowDirection,
    style: EdgeStyle,
    label: Option<&str>,
    is_back_edge: bool,
    bounds: Option<Rect>,
    obstacles: &Vec<Rect>,
) -> (r: (Vec<EdgeCell>, Option<(i16, i16)>, Option<(i16, i16, FlowDirection)>, Option<(i16, i16, FlowDirection)>))
    requires
        style != EdgeStyle::Invisible ==> route_fits(from, to, direction, label is Some, is_back_edge, bounds, obstacles@),
    ensures
        routed(
            from,
            to,
            direction,
            style,
            match label {
                Some(l) => Some(l@),
                None => None,
            },
            is_back_edge,
            bounds,
            obstacles@,
            r.0@,
            r.1,
            r.2,
            r.3,
        ),
{
    if style == EdgeStyle::Invisible {
        return (Vec::new(), None, None, None);
    }
    let (start, end) = ports(from, to, direction);
    assert(start == port_pair(from, to, direction).0 && end == port_pair(from, to, direction).1);
    let points = if is_back_edge {
        back_edge_points(start, end, direction, bounds, obstacles)
    } else {
        forward_edge_points(start, end, direction, obstacles)
    };
    let cells = edge_cells(start, end, direction, &points);
    let label_pos = match label {
        Some(l) => {
            let n = l.unicode_len();
            let width = #[verifier::truncate] (n as i16);
            let mid = if is_back_edge {
                match back_edge_label_segment_midpoint(&points, direction) {
                    Some(m) => Some(m),
                    None => longest_segment_midpoint(&points),
                }
            } else {
                longest_segment_midpoint(&points)
            };
            match mid {
                Some(m) => Some((i16_sat_sub(m.0, width / 2), m.1)),
                None => None,
            }
        },
        None => None,
    };
    (cells, label_pos, Some((start.0, start.1, opposite(direction))), Some((end.0, end.1, direction)))
}

/// The direction against `direction`.
pub open spec fn opposite_of(direction: FlowDirection) -> FlowDirection {
    match direction {
        FlowDirection::TopDown => FlowDirection::BottomUp,
        FlowDirection::BottomUp => FlowDirection::TopDown,
        FlowDirection::LeftRight => FlowDirection::RightLeft,
        FlowDirection::RightLeft => FlowDirection::LeftRight,
    }
}

/// Every node's rectangle, then every subgraph box's.
pub open spec fn diagram_rects(nodes: Seq<PositionedNode>, subgraphs: Seq<PositionedSubgraph>) -> Seq<Rect> {
    nodes.map_values(|n: PositionedNode| n.rect) + subgraphs.map_values(|b: PositionedSubgraph| b.rect)
}

/// Whether a layout edge can be routed: it names an edge, and both of its
/// ends are placed nodes.
pub open spec fn routable(fc: Flowchart, nodes: Seq<PositionedNode>, le: LayoutEdge) -> bool {
    &&& le.index < fc.edges@.len()
    &&& rect_for(nodes, fc.edges@[le.index as int].from.0@) is Some
    &&& rect_for(nodes, fc.edges@[le.index as int].to.0@) is Some
}

/// The routable layout edges among the first `k`, in order.
pub open spec fn routable_edges(fc: Flowchart, nodes: Seq<PositionedNode>, edges: Seq<LayoutEdge>, k: int) -> Seq<LayoutEdge>
    decreases k,
{
    if k <= 0 || k > edges.len() {
        Seq::empty()
    } else if routable(fc, nodes, edges[k - 1]) {
        routable_edges(fc, nodes, edges, k - 1).push(edges[k - 1])
    } else {
        routable_edges(fc, nodes, edges, k - 1)
    }
}

/// Whether the edge of `le` is marked as closing a cycle.
pub open spec fn is_back(back: Seq<bool>, le: LayoutEdge) -> bool {
    le.index < back.len() && back[le.index as int]
}

/// The route of layout edge `le` fits its arithmetic; see [`route_fits`].
pub open spec fn edge_fits(
    fc: Flowchart,
    nodes: Seq<PositionedNode>,
    subgraphs: Seq<PositionedSubgraph>,
    back: Seq<bool>,
    le: LayoutEdge,
) -> bool {
    let edge = fc.edges@[le.index as int];
    edge.style != EdgeStyle::Invisible ==> route_fits(
        rect_for(nodes, edge.from.0@)->Some_0,
        rect_for(nodes, edge.to.0@)->Some_0,
        fc.direction,
        edge.label is Some,
        is_back(back, le),
        spec_bounds_for_rects(diagram_rects(nodes, subgraphs)),
        spec_obstacles(fc, nodes, subgraphs, edge.from.0@, edge.to.0@),
    )
}

/// `e` is the routed form of layout edge `le`: the edge's identity, label
/// and styles, with the route between its ends' rectangles around the
/// obstacles, inside the diagram's bounds for a back edge.
pub open spec fn routed_edge(
    fc: Flowchart,
    nodes: Seq<PositionedNode>,
    subgraphs: Seq<PositionedSubgraph>,
    back: Seq<bool>,
    le: LayoutEdge,
    e: EdgeShape,
) -> bool {
    let edge = fc.edges@[le.index as int];
    let label = match edge.label {
        Some(l) => Some(l@),
        None => None,
    };
    &&& e.index == le.index
    &&& e.from == edge.from.0@
    &&& e.to == edge.to.0@
    &&& e.label == label
    &&& e.style == edge.style
    &&& e.head_from == edge.head_from
    &&& e.head_to == edge.head_to
    &&& e.line_style == edge.line_style
    &&& e.label_style == edge.label_style
    &&& routed(
        rect_for(nodes, edge.from.0@)->Some_0,
        rect_for(nodes, edge.to.0@)->Some_0,
        fc.direction,
        edge.style,
        label,
        is_back(back, le),
        spec_bounds_for_rects(diagram_rects(nodes, subgraphs)),
        spec_obstacles(fc, nodes, subgraphs, edge.from.0@, edge.to.0@),
        e.cells,
        e.label_pos,
        e.head_from_pos,
        e.head_to_pos,
    )
}

fn copy_id(id: &NodeId) -> (r: NodeId)
    ensures
        r.0@ == id.0@,
{
    NodeId(id.0.clone())
}

pub(crate) fn diagram_rect_list(nodes: &Vec<PositionedNode>, subgraphs: &Vec<PositionedSubgraph>) -> (r: Vec<Rect>)
    ensures
        r@ == diagram_rects(nodes@, subgraphs@),
{
    let mut out: Vec<Rect> = Vec::new();
    let mut i: usize = 0;
    while i < nodes.len()
        invariant
            i <= nodes@.len(),
            out@ == nodes@.subrange(0, i as int).map_values(|n: PositionedNode| n.rect),
        decreases nodes@.len() - i,
    {
        out.push(nodes[i].rect);
        assert(nodes@.subrange(0, i + 1).map_values(|n: PositionedNode| n.rect) =~= nodes@.subrange(0, i as int).map_values(
            |n: PositionedNode| n.rect,
        ).push(nodes@[i as int].rect));
        i = i + 1;
    }
    let ghost head = out@;
    assert(nodes@.subrange(0, nodes@.len() as int) =~= nodes@);
    let mut j: usize = 0;
    while j < subgraphs.len()
        invariant
            j <= subgraphs@.len(),
            head == nodes@.map_values(|n: PositionedNode| n.rect),
            out@ == head + subgraphs@.subrange(0, j as int).map_values(|b: PositionedSubgraph| b.rect),
        decreases subgraphs@.len() - j,
    {
        out.push(subgraphs[j].rect);
        assert(subgraphs@.subrange(0, j + 1).map_values(|b: PositionedSubgraph| b.rect) =~= subgraphs@.subrange(
            0,
            j as int,
        ).map_values(|b: PositionedSubgraph| b.rect).push(subgraphs@[j as int].rect));
        j = j + 1;
    }
    assert(subgraphs@.subrange(0, subgraphs@.len() as int) =~= subgraphs@);
    out
}

/// Routes every routable layout edge, in order; see [`routed_edge`].
pub fn route_edges(
    fc: &Flowchart,
    nodes: &Vec<PositionedNode>,
    subgraphs: &Vec<PositionedSubgraph>,
    edges: &Vec<LayoutEdge>,
    back: &Vec<bool>,
) -> (r: Vec<PositionedEdge>)
    requires
        forall|i: int|
            0 <= i < edges@.len() && routable(*fc, nodes@, #[trigger] edges@[i]) ==> edge_fits(
                *fc,
                nodes@,
                subgraphs@,
                back@,
                edges@[i],
            ),
    ensures
        r@.len() == routable_edges(*fc, nodes@, edges@, edges@.len() as int).len(),
        forall|i: int|
            0 <= i < r@.len() ==> routed_edge(
                *fc,
                nodes@,
                subgraphs@,
                back@,
                routable_edges(*fc, nodes@, edges@, edges@.len() as int)[i],
                edge_shape(#[trigger] r@[i]),
            ),
{
    let rects = diagram_rect_list(nodes, subgraphs);
    let bounds = bounds_for_rects(&rects);
    let mut out: Vec<PositionedEdge> = Vec::new();
    let mut k: usize = 0;
    while k < edges.len()
        invariant
            k <= edges@.len(),
            bounds == spec_bounds_for_rects(diagram_rects(nodes@, subgraphs@)),
            forall|i: int|
                0 <= i < edges@.len() && routable(*fc, nodes@, #[trigger] edges@[i]) ==> edge_fits(
                    *fc,
                    nodes@,
                    subgraphs@,
                    back@,
                    edges@[i],
                ),
            out@.len() == routable_edges(*fc, nodes@, edges@, k as int).len(),
            forall|i: int|
                0 <= i < out@.len() ==> routed_edge(
                    *fc,
                    nodes@,
                    subgraphs@,
                    back@,
                    routable_edges(*fc, nodes@, edges@, k as int)[i],
                    edge_shape(#[trigger] out@[i]),
                ),
        decreases edges@.len() - k,
    {
        let le = edges[k];
        if le.index < fc.edges.len() {
            let edge = &fc.edges[le.index];
            let from = find_rect(nodes, &edge.from);
            let to = find_rect(nodes, &edge.to);
            match (from, to) {
                (Some(from), Some(to)) => {
                    let obstacles = obstacle_rects(fc, nodes, subgraphs, &edge.from, &edge.to);
                    let is_back_edge = le.index < back.len() && back[le.index];
                    assert(routable(*fc, nodes@, edges@[k as int]));
                    let label = match &edge.label {
                        Some(l) => Some(l.as_str()),
                        None => None,
                    };
                    let routed_parts = route_edge_cells(
                        from,
                        to,
                        fc.direction,
                        edge.style,
                        label,
                        is_back_edge,
                        bounds,
                        &obstacles,
                    );
                    let (cells, label_pos, head_from_pos, head_to_pos) = routed_parts;
                    let e = PositionedEdge {
                        index: le.index,
                        from: copy_id(&edge.from),
                        to: copy_id(&edge.to),
                        label: match &edge.label {
                            Some(l) => Some(l.clone()),
                            None => None,
                        },
                        style: edge.style,
                        head_from: edge.head_from,
                        head_to: edge.head_to,
                        line_style: edge.line_style,
                        label_style: edge.label_style,
                        cells,
                        label_pos,
                        head_from_pos,
                        head_to_pos,
                    };
                    let ghost before = out@;
                    out.push(e);
                    proof {
                        let kept = routable_edges(*fc, nodes@, edges@, k + 1);
                        assert(kept == routable_edges(*fc, nodes@, edges@, k as int).push(edges@[k as int]));
                        assert forall|i: int| 0 <= i < out@.len() implies routed_edge(
                            *fc,
                            nodes@,
                            subgraphs@,
                            back@,
                            kept[i],
                            edge_shape(#[trigger] out@[i]),
                        ) by {
                            if i < before.len() {
                                assert(out@[i] == before[i]);
                            }
                        }
                    }
                },
                _ => {},
            }
        }
        k = k + 1;
    }
    out
}

/// Whether every step of `pts` fits the midpoint arithmetic; see
/// [`steps_fit`].
pub fn steps_fit_exec(pts: &Vec<(i16, i16)>) -> (r: bool)
    ensures
        r == steps_fit(pts@),
{
    let mut j: usize = 0;
    while j < pts.len() && j + 1 < pts.len()
        invariant
            j <= pts@.len(),
            forall|k: int|
                0 <= k < j && k < pts@.len() - 1 ==> {
                    &&& step_len(#[trigger] pts@[k], pts@[k + 1]) <= 0xffff
                    &&& i16::MIN <= pts@[k].0 + pts@[k + 1].0 <= i16::MAX
                    &&& i16::MIN <= pts@[k].1 + pts@[k + 1].1 <= i16::MAX
                },
        decreases pts@.len() - j,
    {
        let a = pts[j];
        let b = pts[j + 1];
        let l = step_length(a, b);
        let sx: i32 = a.0 as i32 + b.0 as i32;
        let sy: i32 = a.1 as i32 + b.1 as i32;
        if l > 0xffff || sx < -32768 || sx > 32767 || sy < -32768 || sy > 32767 {
            return false;
        }
        j = j + 1;
    }
    true
}

/// Whether an edge's route fits its arithmetic; see [`route_fits`].
pub fn route_fits_exec(
    from: Rect,
    to: Rect,
    direction: FlowDirection,
    labelled: bool,
    is_back_edge: bool,
    bounds: Option<Rect>,
    obstacles: &Vec<Rect>,
) -> (r: bool)
    ensures
        r == route_fits(from, to, direction, labelled, is_back_edge, bounds, obstacles@),
{
    let (start, end) = ports(from, to, direction);
    assert(start == port_pair(from, to, direction).0 && end == port_pair(from, to, direction).1);
    if !is_back_edge {
        let vertical = match direction {
            FlowDirection::TopDown | FlowDirection::BottomUp => true,
            _ => false,
        };
        let (sa, ea, sm, em) = if vertical {
            (start.1, end.1, start.0, end.0)
        } else {
            (start.0, end.0, start.1, end.1)
        };
        let blocked = sm == em && horizontal_or_vertical_crosses(sa, ea, sm, obstacles, !vertical);
        assert(blocked == straight_blocked(start, end, direction, obstacles@));
        if blocked {
            let (_, _, d_past, d_before) = detour_values(start, end, direction, obstacles);
            if d_past == i16::MIN || d_before == i16::MIN {
                return false;
            }
        }
    }
    if labelled {
        let pts = if is_back_edge {
            back_edge_points(start, end, direction, bounds, obstacles)
        } else {
            forward_edge_points(start, end, direction, obstacles)
        };
        return steps_fit_exec(&pts);
    }
    true
}

/// Whether every routable layout edge fits its arithmetic among these nodes
/// and boxes; see [`edge_fits`].
pub fn edges_fit(
    fc: &Flowchart,
    nodes: &Vec<PositionedNode>,
    subgraphs: &Vec<PositionedSubgraph>,
    edges: &Vec<LayoutEdge>,
    back: &Vec<bool>,
) -> (r: bool)
    ensures
        r == forall|i: int|
            0 <= i < edges@.len() && routable(*fc, nodes@, #[trigger] edges@[i]) ==> edge_fits(
                *fc,
                nodes@,
                subgraphs@,
                back@,
                edges@[i],
            ),
{
    let rects = diagram_rect_list(nodes, subgraphs);
    let bounds = bounds_for_rects(&rects);
    let mut k: usize = 0;
    while k < edges.len()
        invariant
            k <= edges@.len(),
            bounds == spec_bounds_for_rects(diagram_rects(nodes@, subgraphs@)),
            forall|i: int|
                0 <= i < k && routable(*fc, nodes@, #[trigger] edges@[i]) ==> edge_fits(
                    *fc,
                    nodes@,
                    subgraphs@,
                    back@,
                    edges@[i],
                ),
        decreases edges@.len() - k,
    {
        let le = edges[k];
        if le.index < fc.edges.len() {
            let edge = &fc.edges[le.index];
            match (find_rect(nodes, &edge.from), find_rect(nodes, &edge.to)) {
                (Some(from), Some(to)) => {
                    if edge.style != EdgeStyle::Invisible {
                        let obstacles = obstacle_rects(fc, nodes, subgraphs, &edge.from, &edge.to);
                        let is_back_edge = le.index < back.len() && back[le.index];
                        if !route_fits_exec(
                            from,
                            to,
                            fc.direction,
                            edge.label.is_some(),
                            is_back_edge,
                            bounds,
                            &obstacles,
                        ) {
                            assert(routable(*fc, nodes@, edges@[k as int]));
                            assert(!edge_fits(*fc, nodes@, subgraphs@, back@, edges@[k as int]));
                            return false;
                        }
                    }
                },
                _ => {},
            }
        }
        k = k + 1;
    }
    true
}

/// A straight run of an edge marks each of its cells toward its neighbours
/// on the run: a vertical run's top cell points south, its bottom cell
/// north, and the cells between both ways; a horizontal run's left cell
/// points east, its right cell west, and the cells between both ways. Cells
/// off the run are not marked, and neither is a run of a single point.
pub proof fn law_segment_bits(a: (i16, i16), b: (i16, i16), x: int, y: int)
    ensures
        a == b ==> seg_bits(a, b, x, y) == 0,
        (a.0 == b.0 && a.1 < b.1 && x == a.0) ==> {
            &&& y == a.1 ==> seg_bits(a, b, x, y) == SOUTH
            &&& y == b.1 ==> seg_bits(a, b, x, y) == NORTH
            &&& a.1 < y < b.1 ==> seg_bits(a, b, x, y) == NORTH | SOUTH
            &&& (y < a.1 || y > b.1) ==> seg_bits(a, b, x, y) == 0
        },
        (a.1 == b.1 && a.0 < b.0 && y == a.1) ==> {
            &&& x == a.0 ==> seg_bits(a, b, x, y) == EAST
            &&& x == b.0 ==> seg_bits(a, b, x, y) == WEST
            &&& a.0 < x < b.0 ==> seg_bits(a, b, x, y) == WEST | EAST
            &&& (x < a.0 || x > b.0) ==> seg_bits(a, b, x, y) == 0
        },
        (a.0 == b.0 && x != a.0) ==> seg_bits(a, b, x, y) == 0,
        (a.0 != b.0 && a.1 != b.1) ==> seg_bits(a, b, x, y) == 0,
        seg_bits(a, b, x, y) == seg_bits(b, a, x, y),
{
    assert(0u8 | SOUTH == SOUTH) by (bit_vector);
    assert(NORTH | 0u8 == NORTH) by (bit_vector);
    assert(0u8 | EAST == EAST) by (bit_vector);
    assert(WEST | 0u8 == WEST) by (bit_vector);
}

} // verus!
