//! Choosing where an edge's segments run: the gutter a forward edge turns
//! in, the side a back edge goes round, and lines pushed clear of the
//! rectangles in the way.

use vstd::prelude::*;

use crate::flowchart::{find_node, node_pos, FlowDirection, Flowchart, NodeId};
use crate::flowchart_boxes::{declared_parent, parent_of, PositionedNode, PositionedSubgraph};
use crate::flowchart_output::{
    crosses_horizontal, crosses_vertical, rect_intersects_horizontal_segment, rect_intersects_vertical_segment,
    signed_midpoint, trunc_half,
};
use crate::style::{i16_sat_add, i16_sat_sub, sat_add_i16, u16_as_i16, wrap_i16, Rect};

verus! {

/// `a + b` saturating in `i16`, as an `i16`.
pub open spec fn sadd(a: int, b: int) -> int {
    sat_add_i16(a, b)
}

/// Whether a segment at `axis_value` across from `minor_a` to `minor_b`
/// passes through one of the first `k` obstacles: a horizontal segment at
/// height `axis_value` when `is_y_axis`, else a vertical one.
pub open spec fn any_crossing(minor_a: int, minor_b: int, axis_value: int, obstacles: Seq<Rect>, is_y_axis: bool, k: int) -> bool
    decreases k,
{
    if k <= 0 || k > obstacles.len() {
        false
    } else {
        any_crossing(minor_a, minor_b, axis_value, obstacles, is_y_axis, k - 1) || if is_y_axis {
            crosses_horizontal(obstacles[k - 1], axis_value, minor_a, minor_b)
        } else {
            crosses_vertical(obstacles[k - 1], axis_value, minor_a, minor_b)
        }
    }
}

/// Whether a segment crosses an obstacle; see [`any_crossing`].
pub fn horizontal_or_vertical_crosses(
    minor_a: i16,
    minor_b: i16,
    axis_value: i16,
    obstacles: &Vec<Rect>,
    is_y_axis: bool,
) -> (r: bool)
    ensures
        r == any_crossing(
            minor_a as int,
            minor_b as int,
            axis_value as int,
            obstacles@,
            is_y_axis,
            obstacles@.len() as int,
        ),
{
    let mut found = false;
    let mut k: usize = 0;
    while k < obstacles.len()
        invariant
            k <= obstacles@.len(),
            found == any_crossing(minor_a as int, minor_b as int, axis_value as int, obstacles@, is_y_axis, k as int),
        decreases obstacles@.len() - k,
    {
        let hit = if is_y_axis {
            rect_intersects_horizontal_segment(obstacles[k], axis_value, minor_a, minor_b)
        } else {
            rect_intersects_vertical_segment(obstacles[k], axis_value, minor_a, minor_b)
        };
        found = found || hit;
        k = k + 1;
    }
    found
}

/// The cross-axis line a forward edge turns along: halfway between its
/// ends, or else just before its end, or else just after its start, the
/// first that crosses no obstacle; halfway when none is clear.
pub open spec fn spec_gutter(start_axis: int, end_axis: int, start_minor: int, end_minor: int, obstacles: Seq<Rect>, is_y_axis: bool) -> int {
    let preferred = trunc_half(start_axis + end_axis);
    let before_end = if start_axis <= end_axis {
        let a = sadd(end_axis, -1);
        let b = sadd(start_axis, 1);
        if a > b { a } else { b }
    } else {
        let a = sadd(end_axis, 1);
        let b = sadd(start_axis, -1);
        if a < b { a } else { b }
    };
    let after_start = if start_axis <= end_axis {
        let a = sadd(start_axis, 1);
        let b = sadd(end_axis, -1);
        if a < b { a } else { b }
    } else {
        let a = sadd(start_axis, -1);
        let b = sadd(end_axis, 1);
        if a > b { a } else { b }
    };
    let n = obstacles.len() as int;
    if !any_crossing(start_minor, end_minor, preferred, obstacles, is_y_axis, n) {
        preferred
    } else if !any_crossing(start_minor, end_minor, before_end, obstacles, is_y_axis, n) {
        before_end
    } else if !any_crossing(start_minor, end_minor, after_start, obstacles, is_y_axis, n) {
        after_start
    } else {
        preferred
    }
}

/// The line a forward edge turns along; see [`spec_gutter`].
pub fn choose_gutter_axis(
    start_axis: i16,
    end_axis: i16,
    start_minor: i16,
    end_minor: i16,
    obstacles: &Vec<Rect>,
    is_y_axis: bool,
) -> (r: i16)
    ensures
        r == spec_gutter(start_axis as int, end_axis as int, start_minor as int, end_minor as int, obstacles@, is_y_axis),
{
    let preferred = signed_midpoint(start_axis, end_axis);
    let before_end = if start_axis <= end_axis {
        let a = i16_sat_sub(end_axis, 1);
        let b = i16_sat_add(start_axis, 1);
        if a > b { a } else { b }
    } else {
        let a = i16_sat_add(end_axis, 1);
        let b = i16_sat_sub(start_axis, 1);
        if a < b { a } else { b }
    };
    let after_start = if start_axis <= end_axis {
        let a = i16_sat_add(start_axis, 1);
        let b = i16_sat_sub(end_axis, 1);
        if a < b { a } else { b }
    } else {
        let a = i16_sat_sub(start_axis, 1);
        let b = i16_sat_add(end_axis, 1);
        if a > b { a } else { b }
    };
    if !horizontal_or_vertical_crosses(start_minor, end_minor, preferred, obstacles, is_y_axis) {
        preferred
    } else if !horizontal_or_vertical_crosses(start_minor, end_minor, before_end, obstacles, is_y_axis) {
        before_end
    } else if !horizontal_or_vertical_crosses(start_minor, end_minor, after_start, obstacles, is_y_axis) {
        after_start
    } else {
        preferred
    }
}

/// The nearest clear line among the first `k` blocking obstacles: the
/// least top less one (pushing up) or the greatest bottom (pushing down);
/// none without blocking obstacles. Along `x` instead when `vertical`.
pub open spec fn next_clear(
    obstacles: Seq<Rect>,
    candidate: int,
    a: int,
    b: int,
    toward_low: bool,
    vertical: bool,
    k: int,
) -> Option<int>
    decreases k,
{
    if k <= 0 || k > obstacles.len() {
        None
    } else {
        let prev = next_clear(obstacles, candidate, a, b, toward_low, vertical, k - 1);
        let r = obstacles[k - 1];
        let blocks = if vertical { crosses_vertical(r, candidate, a, b) } else { crosses_horizontal(r, candidate, a, b) };
        if !blocks {
            prev
        } else {
            let (lo_edge, hi_edge) = if vertical {
                (r.x as int, sadd(r.x as int, wrap_i16(r.w as int)))
            } else {
                (r.y as int, sadd(r.y as int, wrap_i16(r.h as int)))
            };
            let v = if toward_low { sadd(lo_edge, -1) } else { hi_edge };
            match prev {
                None => Some(v),
                Some(p) => Some(
                    if toward_low {
                        if v < p { v } else { p }
                    } else {
                        if v > p { v } else { p }
                    },
                ),
            }
        }
    }
}

/// A line moved clear of the obstacles, at most `16 - it` more times:
/// while it crosses one, it jumps past all that it crosses; it falls back
/// to where it started (`initial`) when a jump does not move it or the
/// tries run out.
pub open spec fn push_clear(
    obstacles: Seq<Rect>,
    initial: int,
    candidate: int,
    a: int,
    b: int,
    toward_low: bool,
    vertical: bool,
    it: int,
) -> int
    decreases 16 - it,
{
    if it >= 16 {
        initial
    } else {
        match next_clear(obstacles, candidate, a, b, toward_low, vertical, obstacles.len() as int) {
            None => candidate,
            Some(n) => if n != candidate {
                push_clear(obstacles, initial, n, a, b, toward_low, vertical, it + 1)
            } else {
                initial
            },
        }
    }
}

fn next_clear_exec(
    obstacles: &Vec<Rect>,
    candidate: i16,
    a: i16,
    b: i16,
    toward_low: bool,
    vertical: bool,
) -> (r: Option<i16>)
    ensures
        match r {
            Some(v) => next_clear(obstacles@, candidate as int, a as int, b as int, toward_low, vertical, obstacles@.len() as int)
                == Some(v as int),
            None => next_clear(obstacles@, candidate as int, a as int, b as int, toward_low, vertical, obstacles@.len() as int) is None,
        },
{
    let mut best: Option<i16> = None;
    let mut k: usize = 0;
    while k < obstacles.len()
        invariant
            k <= obstacles@.len(),
            match best {
                Some(v) => next_clear(obstacles@, candidate as int, a as int, b as int, toward_low, vertical, k as int)
                    == Some(v as int),
                None => next_clear(obstacles@, candidate as int, a as int, b as int, toward_low, vertical, k as int) is None,
            },
        decreases obstacles@.len() - k,
    {
        let r = obstacles[k];
        let blocks = if vertical {
            rect_intersects_vertical_segment(r, candidate, a, b)
        } else {
            rect_intersects_horizontal_segment(r, candidate, a, b)
        };
        if blocks {
            let (lo_edge, hi_edge) = if vertical {
                (r.x, i16_sat_add(r.x, u16_as_i16(r.w)))
            } else {
                (r.y, i16_sat_add(r.y, u16_as_i16(r.h)))
            };
            let v = if toward_low { i16_sat_sub(lo_edge, 1) } else { hi_edge };
            best = match best {
                None => Some(v),
                Some(p) => Some(
                    if toward_low {
                        if v < p { v } else { p }
                    } else {
                        if v > p { v } else { p }
                    },
                ),
            };
        }
        k = k + 1;
    }
    best
}

fn push_clear_exec(
    obstacles: &Vec<Rect>,
    initial: i16,
    a: i16,
    b: i16,
    toward_low: bool,
    vertical: bool,
) -> (r: i16)
    ensures
        r == push_clear(obstacles@, initial as int, initial as int, a as int, b as int, toward_low, vertical, 0),
{
    let mut candidate = initial;
    let mut it: usize = 0;
    while it < 16
        invariant
            it <= 16,
            push_clear(obstacles@, initial as int, initial as int, a as int, b as int, toward_low, vertical, 0)
                == push_clear(obstacles@, initial as int, candidate as int, a as int, b as int, toward_low, vertical, it as int),
        decreases 16 - it,
    {
        match next_clear_exec(obstacles, candidate, a, b, toward_low, vertical) {
            None => {
                return candidate;
            },
            Some(n) => {
                if n == candidate {
                    return initial;
                }
                candidate = n;
            },
        }
        it = it + 1;
    }
    initial
}

/// Whether a horizontal line near a back edge's end moves up (else down)
/// to clear obstacles: up towards the target in top-down diagrams, down
/// from the source; the other way round bottom-up; none sideways.
pub open spec fn pushes_up(direction: FlowDirection, toward_target: bool) -> Option<bool> {
    match direction {
        FlowDirection::TopDown => Some(toward_target),
        FlowDirection::BottomUp => Some(!toward_target),
        _ => None,
    }
}

/// Whether a vertical line near a back edge's end moves left (else right)
/// to clear obstacles: left towards the target left-to-right, right from
/// the source; the other way round right-to-left; none up or down.
pub open spec fn pushes_left(direction: FlowDirection, toward_target: bool) -> Option<bool> {
    match direction {
        FlowDirection::LeftRight => Some(toward_target),
        FlowDirection::RightLeft => Some(!toward_target),
        _ => None,
    }
}

/// A horizontal line from `x_a` to `x_b` moved clear of the obstacles;
/// see [`push_clear`] and [`pushes_up`].
pub fn push_horizontal_axis_outside_obstacles(
    initial_y: i16,
    x_a: i16,
    x_b: i16,
    obstacles: &Vec<Rect>,
    direction: FlowDirection,
    toward_target: bool,
) -> (r: i16)
    ensures
        r == match pushes_up(direction, toward_target) {
            Some(up) => push_clear(obstacles@, initial_y as int, initial_y as int, x_a as int, x_b as int, up, false, 0),
            None => initial_y as int,
        },
{
    let up = match direction {
        FlowDirection::TopDown => toward_target,
        FlowDirection::BottomUp => !toward_target,
        _ => {
            return initial_y;
        },
    };
    push_clear_exec(obstacles, initial_y, x_a, x_b, up, false)
}

/// A vertical line from `y_a` to `y_b` moved clear of the obstacles; see
/// [`push_clear`] and [`pushes_left`].
pub fn push_vertical_axis_outside_obstacles(
    initial_x: i16,
    y_a: i16,
    y_b: i16,
    obstacles: &Vec<Rect>,
    direction: FlowDirection,
    toward_target: bool,
) -> (r: i16)
    ensures
        r == match pushes_left(direction, toward_target) {
            Some(left) => push_clear(obstacles@, initial_x as int, initial_x as int, y_a as int, y_b as int, left, true, 0),
            None => initial_x as int,
        },
{
    let left = match direction {
        FlowDirection::LeftRight => toward_target,
        FlowDirection::RightLeft => !toward_target,
        _ => {
            return initial_x;
        },
    };
    push_clear_exec(obstacles, initial_x, y_a, y_b, left, true)
}

/// The column a back edge in a top-down or bottom-up diagram runs down:
/// two cells beyond the diagram's nearer-or-equal side (the right one on a
/// tie) measured from between its ends; without bounds, two cells left of
/// the leftmost end.
pub open spec fn spec_side_x(start: (i16, i16), end: (i16, i16), bounds: Option<Rect>) -> int {
    match bounds {
        None => sadd(if start.0 < end.0 { start.0 as int } else { end.0 as int }, -2),
        Some(b) => {
            let center = trunc_half(start.0 + end.0);
            let right = sadd(b.x as int, wrap_i16(b.w as int));
            if right - center >= center - b.x {
                sadd(right, 2)
            } else {
                sadd(b.x as int, -2)
            }
        },
    }
}

/// The row a back edge in a left-to-right or right-to-left diagram runs
/// along; as [`spec_side_x`] with the axes swapped (the bottom on a tie).
pub open spec fn spec_side_y(start: (i16, i16), end: (i16, i16), bounds: Option<Rect>) -> int {
    match bounds {
        None => sadd(if start.1 < end.1 { start.1 as int } else { end.1 as int }, -2),
        Some(b) => {
            let center = trunc_half(start.1 + end.1);
            let bottom = sadd(b.y as int, wrap_i16(b.h as int));
            if bottom - center >= center - b.y {
                sadd(bottom, 2)
            } else {
                sadd(b.y as int, -2)
            }
        },
    }
}

/// The column a back edge runs down; see [`spec_side_x`].
pub fn pick_back_edge_side_x(start: (i16, i16), end: (i16, i16), bounds: Option<Rect>) -> (r: i16)
    ensures
        r == spec_side_x(start, end, bounds),
{
    match bounds {
        None => i16_sat_sub(if start.0 < end.0 { start.0 } else { end.0 }, 2),
        Some(b) => {
            let center = signed_midpoint(start.0, end.0);
            let right = i16_sat_add(b.x, u16_as_i16(b.w));
            let left_dist: i32 = center as i32 - b.x as i32;
            let right_dist: i32 = right as i32 - center as i32;
            if right_dist >= left_dist {
                i16_sat_add(right, 2)
            } else {
                i16_sat_sub(b.x, 2)
            }
        },
    }
}

/// The row a back edge runs along; see [`spec_side_y`].
pub fn pick_back_edge_side_y(start: (i16, i16), end: (i16, i16), bounds: Option<Rect>) -> (r: i16)
    ensures
        r == spec_side_y(start, end, bounds),
{
    match bounds {
        None => i16_sat_sub(if start.1 < end.1 { start.1 } else { end.1 }, 2),
        Some(b) => {
            let center = signed_midpoint(start.1, end.1);
            let bottom = i16_sat_add(b.y, u16_as_i16(b.h));
            let top_dist: i32 = center as i32 - b.y as i32;
            let bottom_dist: i32 = bottom as i32 - center as i32;
            if bottom_dist >= top_dist {
                i16_sat_add(bottom, 2)
            } else {
                i16_sat_sub(b.y, 2)
            }
        },
    }
}

/// Where a back edge's label goes: beside the middle of the segment that
/// approaches its target (the fourth to fifth of its six points), one cell
/// further out; none for a route of fewer than six points.
pub open spec fn spec_back_label(points: Seq<(i16, i16)>, direction: FlowDirection) -> Option<(int, int)> {
    if points.len() < 6 {
        None
    } else {
        let a = points[3];
        let b = points[4];
        match direction {
            FlowDirection::TopDown => Some((trunc_half(a.0 + b.0), sadd(a.1 as int, -1))),
            FlowDirection::BottomUp => Some((trunc_half(a.0 + b.0), sadd(a.1 as int, 1))),
            FlowDirection::LeftRight => Some((sadd(a.0 as int, -1), trunc_half(a.1 + b.1))),
            FlowDirection::RightLeft => Some((sadd(a.0 as int, 1), trunc_half(a.1 + b.1))),
        }
    }
}

/// Where a back edge's label goes; see [`spec_back_label`].
pub fn back_edge_label_segment_midpoint(points: &Vec<(i16, i16)>, direction: FlowDirection) -> (r: Option<(i16, i16)>)
    ensures
        match r {
            Some(p) => spec_back_label(points@, direction) == Some((p.0 as int, p.1 as int)),
            None => spec_back_label(points@, direction) is None,
        },
{
    if points.len() < 6 {
        return None;
    }
    let a = points[3];
    let b = points[4];
    match direction {
        FlowDirection::TopDown => Some((signed_midpoint(a.0, b.0), i16_sat_sub(a.1, 1))),
        FlowDirection::BottomUp => Some((signed_midpoint(a.0, b.0), i16_sat_add(a.1, 1))),
        FlowDirection::LeftRight => Some((i16_sat_sub(a.0, 1), signed_midpoint(a.1, b.1))),
        FlowDirection::RightLeft => Some((i16_sat_add(a.0, 1), signed_midpoint(a.1, b.1))),
    }
}

/// The far and near edges, across the flow, of the first `k` obstacles
/// that overlap the span `lo..hi` along it: the greatest far edge and the
/// least near edge; none when no obstacle overlaps.
pub open spec fn detour_edges(obstacles: Seq<Rect>, vertical: bool, lo: int, hi: int, k: int) -> Option<(int, int)>
    decreases k,
{
    if k <= 0 || k > obstacles.len() {
        None
    } else {
        let prev = detour_edges(obstacles, vertical, lo, hi, k - 1);
        let r = obstacles[k - 1];
        let (along_lo, along_hi, near, far) = if vertical {
            (r.y as int, sadd(r.y as int, wrap_i16(r.h as int)), r.x as int, sadd(r.x as int, wrap_i16(r.w as int)))
        } else {
            (r.x as int, sadd(r.x as int, wrap_i16(r.w as int)), r.y as int, sadd(r.y as int, wrap_i16(r.h as int)))
        };
        if along_hi > lo && along_lo < hi {
            match prev {
                None => Some((far, near)),
                Some((f, n)) => Some((if far > f { far } else { f }, if near < n { near } else { n })),
            }
        } else {
            prev
        }
    }
}

/// The two candidate detours of a blocked straight edge and how far each
/// lies from the edge: past the far edges, or before the near edges, of the
/// obstacles beside its span (the edge itself when none is).
pub open spec fn detour_choice(start: (i16, i16), end: (i16, i16), direction: FlowDirection, obstacles: Seq<Rect>) -> (
    int,
    int,
    int,
    int,
) {
    let vertical = direction == FlowDirection::TopDown || direction == FlowDirection::BottomUp;
    let (a, b) = if vertical { (start.1 as int, end.1 as int) } else { (start.0 as int, end.0 as int) };
    let lo = if a <= b { a } else { b };
    let hi = if a <= b { b } else { a };
    let center = if vertical { start.0 as int } else { start.1 as int };
    let (right, left) = match detour_edges(obstacles, vertical, lo, hi, obstacles.len() as int) {
        Some((f, n)) => (f, n),
        None => (center, center),
    };
    let past = sadd(right, 1);
    let before = sadd(left, -1);
    (past, before, sadd(past, -center), sadd(center, -before))
}

/// The line a blocked straight edge detours along: past the obstacles when
/// that is no farther than before them, else before them.
pub open spec fn spec_detour(start: (i16, i16), end: (i16, i16), direction: FlowDirection, obstacles: Seq<Rect>) -> int {
    let (past, before, d_past, d_before) = detour_choice(start, end, direction, obstacles);
    let ap = if d_past < 0 { -d_past } else { d_past };
    let ab = if d_before < 0 { -d_before } else { d_before };
    if ap <= ab { past } else { before }
}

/// The candidate detours of an edge and their distances; see
/// [`detour_choice`].
pub fn detour_values(start: (i16, i16), end: (i16, i16), direction: FlowDirection, obstacles: &Vec<Rect>) -> (r: (
    i16,
    i16,
    i16,
    i16,
))
    ensures
        (r.0 as int, r.1 as int, r.2 as int, r.3 as int) == detour_choice(start, end, direction, obstacles@),
{
    let vertical = match direction {
        FlowDirection::TopDown | FlowDirection::BottomUp => true,
        _ => false,
    };
    let (a, b) = if vertical { (start.1, end.1) } else { (start.0, end.0) };
    let lo = if a <= b { a } else { b };
    let hi = if a <= b { b } else { a };
    let mut edges: Option<(i16, i16)> = None;
    let mut k: usize = 0;
    while k < obstacles.len()
        invariant
            k <= obstacles@.len(),
            match edges {
                Some((f, n)) => detour_edges(obstacles@, vertical, lo as int, hi as int, k as int) == Some((f as int, n as int)),
                None => detour_edges(obstacles@, vertical, lo as int, hi as int, k as int) is None,
            },
        decreases obstacles@.len() - k,
    {
        let r = obstacles[k];
        let (along_lo, along_hi, near, far) = if vertical {
            (r.y, i16_sat_add(r.y, u16_as_i16(r.h)), r.x, i16_sat_add(r.x, u16_as_i16(r.w)))
        } else {
            (r.x, i16_sat_add(r.x, u16_as_i16(r.w)), r.y, i16_sat_add(r.y, u16_as_i16(r.h)))
        };
        if along_hi > lo && along_lo < hi {
            edges = match edges {
                None => Some((far, near)),
                Some((f, n)) => Some((if far > f { far } else { f }, if near < n { near } else { n })),
            };
        }
        k = k + 1;
    }
    let center = if vertical { start.0 } else { start.1 };
    let (right, left) = match edges {
        Some((f, n)) => (f, n),
        None => (center, center),
    };
    let past = i16_sat_add(right, 1);
    let before = i16_sat_sub(left, 1);
    let d_past = i16_sat_sub(past, center);
    let d_before = i16_sat_sub(center, before);
    (past, before, d_past, d_before)
}

/// The line a blocked straight edge detours along; see [`spec_detour`].
/// The distances are taken as `i16` and must not be `i16::MIN`.
pub fn pick_detour_minor(start: (i16, i16), end: (i16, i16), direction: FlowDirection, obstacles: &Vec<Rect>) -> (r: i16)
    requires
        detour_choice(start, end, direction, obstacles@).2 != i16::MIN,
        detour_choice(start, end, direction, obstacles@).3 != i16::MIN,
    ensures
        r == spec_detour(start, end, direction, obstacles@),
{
    let (past, before, d_past, d_before) = detour_values(start, end, direction, obstacles);
    let ap: i16 = if d_past < 0 { -d_past } else { d_past };
    let ab: i16 = if d_before < 0 { -d_before } else { d_before };
    if ap <= ab { past } else { before }
}

/// Whether walking up from `cur` through declared parents (at most `fuel`
/// links) meets the subgraph `sg`.
pub open spec fn reaches(sgs: Seq<crate::flowchart::FlowchartSubgraphSpec>, cur: Option<NodeId>, sg: Seq<char>, fuel: nat) -> bool
    decreases fuel,
{
    match cur {
        None => false,
        Some(p) => if p.0@ == sg {
            true
        } else if fuel == 0 {
            false
        } else {
            reaches(sgs, declared_parent(sgs, p.0@), sg, (fuel - 1) as nat)
        },
    }
}

/// Whether the first node named `node` lies, at any depth, in subgraph
/// `sg` (following as many links as there are subgraphs).
pub open spec fn spec_contains(fc: Flowchart, sg: Seq<char>, node: Seq<char>) -> bool {
    let i = node_pos(fc.nodes@, node);
    i < fc.nodes@.len() && reaches(fc.subgraphs@, fc.nodes@[i].parent, sg, fc.subgraphs@.len() as nat)
}

/// Whether a node lies in a subgraph; see [`spec_contains`].
pub fn subgraph_contains_node(fc: &Flowchart, sg: &NodeId, node: &NodeId) -> (r: bool)
    ensures
        r == spec_contains(*fc, sg.0@, node.0@),
{
    let i = find_node(&fc.nodes, node);
    if i >= fc.nodes.len() {
        return false;
    }
    let mut current: Option<NodeId> = match &fc.nodes[i].parent {
        Some(p) => Some(p.copy()),
        None => None,
    };
    let mut fuel: usize = fc.subgraphs.len();
    loop
        invariant
            reaches(fc.subgraphs@, current, sg.0@, fuel as nat) == spec_contains(*fc, sg.0@, node.0@),
        decreases fuel,
    {
        match current {
            None => {
                return false;
            },
            Some(p) => {
                if p.same(sg) {
                    return true;
                }
                if fuel == 0 {
                    return false;
                }
                current = parent_of(fc, &p);
                fuel = fuel - 1;
            },
        }
    }
}

/// The rectangles of the first `k` nodes named neither `from` nor `to`.
pub open spec fn other_nodes(nodes: Seq<PositionedNode>, from: Seq<char>, to: Seq<char>, k: int) -> Seq<Rect>
    decreases k,
{
    if k <= 0 || k > nodes.len() {
        Seq::empty()
    } else {
        let prev = other_nodes(nodes, from, to, k - 1);
        if nodes[k - 1].id.0@ != from && nodes[k - 1].id.0@ != to {
            prev.push(nodes[k - 1].rect)
        } else {
            prev
        }
    }
}

/// The rectangles of the first `k` boxes that contain neither `from` nor
/// `to`.
pub open spec fn other_boxes(fc: Flowchart, boxes: Seq<PositionedSubgraph>, from: Seq<char>, to: Seq<char>, k: int) -> Seq<Rect>
    decreases k,
{
    if k <= 0 || k > boxes.len() {
        Seq::empty()
    } else {
        let prev = other_boxes(fc, boxes, from, to, k - 1);
        let b = boxes[k - 1];
        if !spec_contains(fc, b.id.0@, from) && !spec_contains(fc, b.id.0@, to) {
            prev.push(b.rect)
        } else {
            prev
        }
    }
}

/// The rectangles an edge from `from` to `to` must avoid: every other
/// node, then every box that contains neither end.
pub open spec fn spec_obstacles(
    fc: Flowchart,
    nodes: Seq<PositionedNode>,
    boxes: Seq<PositionedSubgraph>,
    from: Seq<char>,
    to: Seq<char>,
) -> Seq<Rect> {
    other_nodes(nodes, from, to, nodes.len() as int) + other_boxes(fc, boxes, from, to, boxes.len() as int)
}

/// The rectangles an edge must avoid; see [`spec_obstacles`].
pub fn obstacle_rects(
    fc: &Flowchart,
    nodes: &Vec<PositionedNode>,
    boxes: &Vec<PositionedSubgraph>,
    from: &NodeId,
    to: &NodeId,
) -> (r: Vec<Rect>)
    ensures
        r@ == spec_obstacles(*fc, nodes@, boxes@, from.0@, to.0@),
{
    let mut out: Vec<Rect> = Vec::new();
    let mut k: usize = 0;
    while k < nodes.len()
        invariant
            k <= nodes@.len(),
            out@ == other_nodes(nodes@, from.0@, to.0@, k as int),
        decreases nodes@.len() - k,
    {
        if !nodes[k].id.same(from) && !nodes[k].id.same(to) {
            out.push(nodes[k].rect);
        }
        k = k + 1;
    }
    let ghost first = out@;
    let mut k: usize = 0;
    while k < boxes.len()
        invariant
            k <= boxes@.len(),
            first == other_nodes(nodes@, from.0@, to.0@, nodes@.len() as int),
            out@ == first + other_boxes(*fc, boxes@, from.0@, to.0@, k as int),
        decreases boxes@.len() - k,
    {
        if !subgraph_contains_node(fc, &boxes[k].id, from) && !subgraph_contains_node(fc, &boxes[k].id, to) {
            out.push(boxes[k].rect);
        }
        proof {
            assert(out@ =~= first + other_boxes(*fc, boxes@, from.0@, to.0@, k + 1));
        }
        k = k + 1;
    }
    out
}

/// Whether a diagram's layers stack vertically.
pub open spec fn is_vertical(d: FlowDirection) -> bool {
    d == FlowDirection::TopDown || d == FlowDirection::BottomUp
}

/// Whether a forward edge runs straight into an obstacle: its ends line up
/// and the straight segment between them crosses one.
pub open spec fn straight_blocked(start: (i16, i16), end: (i16, i16), direction: FlowDirection, obstacles: Seq<Rect>) -> bool {
    let v = is_vertical(direction);
    let (sa, ea, sm, em) = if v {
        (start.1 as int, end.1 as int, start.0 as int, end.0 as int)
    } else {
        (start.0 as int, end.0 as int, start.1 as int, end.1 as int)
    };
    sm == em && any_crossing(sa, ea, sm, obstacles, !v, obstacles.len() as int)
}

/// A forward edge's route: from its start, across to a detour line when a
/// straight run is blocked (or else along the gutter line), on to the
/// end's line, then to its end.
pub open spec fn spec_forward_points(start: (i16, i16), end: (i16, i16), direction: FlowDirection, obstacles: Seq<Rect>) -> Seq<(i16, i16)> {
    let v = is_vertical(direction);
    let (sa, ea, sm, em) = if v {
        (start.1 as int, end.1 as int, start.0 as int, end.0 as int)
    } else {
        (start.0 as int, end.0 as int, start.1 as int, end.1 as int)
    };
    let middle = if straight_blocked(start, end, direction, obstacles) {
        let d = spec_detour(start, end, direction, obstacles) as i16;
        if v { seq![(d, start.1), (d, end.1)] } else { seq![(start.0, d), (end.0, d)] }
    } else {
        let g = spec_gutter(sa, ea, sm, em, obstacles, v) as i16;
        if v { seq![(start.0, g), (end.0, g)] } else { seq![(g, start.1), (g, end.1)] }
    };
    seq![start] + middle + seq![end]
}

/// A forward edge's route; see [`spec_forward_points`].
pub fn forward_edge_points(start: (i16, i16), end: (i16, i16), direction: FlowDirection, obstacles: &Vec<Rect>) -> (r: Vec<
    (i16, i16),
>)
    requires
        straight_blocked(start, end, direction, obstacles@) ==> detour_choice(start, end, direction, obstacles@).2
            != i16::MIN && detour_choice(start, end, direction, obstacles@).3 != i16::MIN,
    ensures
        r@ == spec_forward_points(start, end, direction, obstacles@),
{
    let vertical = match direction {
        FlowDirection::TopDown | FlowDirection::BottomUp => true,
        _ => false,
    };
    let (sa, ea, sm, em) = if vertical { (start.1, end.1, start.0, end.0) } else { (start.0, end.0, start.1, end.1) };
    let blocked = sm == em && horizontal_or_vertical_crosses(sa, ea, sm, obstacles, !vertical);
    let mut points: Vec<(i16, i16)> = Vec::new();
    points.push(start);
    if blocked {
        let d = pick_detour_minor(start, end, direction, obstacles);
        if vertical {
            points.push((d, start.1));
            points.push((d, end.1));
        } else {
            points.push((start.0, d));
            points.push((end.0, d));
        }
    } else {
        let g = choose_gutter_axis(sa, ea, sm, em, obstacles, vertical);
        if vertical {
            points.push((start.0, g));
            points.push((end.0, g));
        } else {
            points.push((g, start.1));
            points.push((g, end.1));
        }
    }
    points.push(end);
    proof {
        assert(points@ =~= spec_forward_points(start, end, direction, obstacles@));
    }
    points
}

/// A horizontal line moved clear as a back edge's end needs; see
/// [`push_horizontal_axis_outside_obstacles`].
pub open spec fn pushed_h(initial: int, a: int, b: int, obstacles: Seq<Rect>, direction: FlowDirection, toward: bool) -> int {
    match pushes_up(direction, toward) {
        Some(up) => push_clear(obstacles, initial, initial, a, b, up, false, 0),
        None => initial,
    }
}

/// A vertical line moved clear as a back edge's end needs; see
/// [`push_vertical_axis_outside_obstacles`].
pub open spec fn pushed_v(initial: int, a: int, b: int, obstacles: Seq<Rect>, direction: FlowDirection, toward: bool) -> int {
    match pushes_left(direction, toward) {
        Some(left) => push_clear(obstacles, initial, initial, a, b, left, true, 0),
        None => initial,
    }
}

/// A back edge's route: out of its start to a line clear of obstacles,
/// across to a side beyond the diagram, back along it to a line clear of
/// obstacles just before its end, and into its end.
pub open spec fn spec_back_points(
    start: (i16, i16),
    end: (i16, i16),
    direction: FlowDirection,
    bounds: Option<Rect>,
    obstacles: Seq<Rect>,
) -> Seq<(i16, i16)> {
    let middle = if is_vertical(direction) {
        let side = spec_side_x(start, end, bounds);
        let initial = if direction == FlowDirection::TopDown { sadd(end.1 as int, -1) } else { sadd(end.1 as int, 1) };
        let approach = pushed_h(initial, side, end.0 as int, obstacles, direction, true) as i16;
        let exit = pushed_h(start.1 as int, start.0 as int, side, obstacles, direction, false) as i16;
        seq![(start.0, exit), (side as i16, exit), (side as i16, approach), (end.0, approach)]
    } else {
        let side = spec_side_y(start, end, bounds);
        let initial = if direction == FlowDirection::LeftRight { sadd(end.0 as int, -1) } else { sadd(end.0 as int, 1) };
        let approach = pushed_v(initial, side, end.1 as int, obstacles, direction, true) as i16;
        let exit = pushed_v(start.0 as int, start.1 as int, side, obstacles, direction, false) as i16;
        seq![(exit, start.1), (exit, side as i16), (approach, side as i16), (approach, end.1)]
    };
    seq![start] + middle + seq![end]
}

/// A back edge's route; see [`spec_back_points`].
pub fn back_edge_points(
    start: (i16, i16),
    end: (i16, i16),
    direction: FlowDirection,
    bounds: Option<Rect>,
    obstacles: &Vec<Rect>,
) -> (r: Vec<(i16, i16)>)
    ensures
        r@ == spec_back_points(start, end, direction, bounds, obstacles@),
{
    let mut points: Vec<(i16, i16)> = Vec::new();
    points.push(start);
    match direction {
        FlowDirection::TopDown | FlowDirection::BottomUp => {
            let side = pick_back_edge_side_x(start, end, bounds);
            let initial = match direction {
                FlowDirection::TopDown => i16_sat_sub(end.1, 1),
                _ => i16_sat_add(end.1, 1),
            };
            let approach = push_horizontal_axis_outside_obstacles(initial, side, end.0, obstacles, direction, true);
            let exit = push_horizontal_axis_outside_obstacles(start.1, start.0, side, obstacles, direction, false);
            points.push((start.0, exit));
            points.push((side, exit));
            points.push((side, approach));
            points.push((end.0, approach));
        },
        FlowDirection::LeftRight | FlowDirection::RightLeft => {
            let side = pick_back_edge_side_y(start, end, bounds);
            let initial = match direction {
                FlowDirection::LeftRight => i16_sat_sub(end.0, 1),
                _ => i16_sat_add(end.0, 1),
            };
            let approach = push_vertical_axis_outside_obstacles(initial, side, end.1, obstacles, direction, true);
            let exit = push_vertical_axis_outside_obstacles(start.0, start.1, side, obstacles, direction, false);
            points.push((exit, start.1));
            points.push((exit, side));
            points.push((approach, side));
            points.push((approach, end.1));
        },
    }
    points.push(end);
    proof {
        assert(points@ =~= spec_back_points(start, end, direction, bounds, obstacles@));
    }
    points
}

} // verus!
