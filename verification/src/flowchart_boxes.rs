//! Drawing each subgraph's box: the bounds of its member nodes and of the
//! boxes of its nested subgraphs (inner boxes are drawn first), widened to
//! fit the header and grown by the subgraph padding and the border, then
//! ordered from the outermost box to the innermost.

use vstd::prelude::*;

use crate::flowchart::{find_subgraph, subgraph_pos, Flowchart, FlowchartSubgraphSpec, NodeId, NodeShape};
use crate::flowchart_layout::{add_i32, sat32};
use crate::git::spec_lookup;
use crate::style::{i16_sat_add, i16_sat_sub, sat_add_i16, sat_sub_u16, u16_as_i16, wrap_i16, Rect, Style};

verus! {

/// A node with its place in the diagram.
#[derive(Debug)]
pub struct PositionedNode {
    pub rect: Rect,
    pub id: NodeId,
    pub label: String,
    pub label_lines: Vec<String>,
    pub shape: NodeShape,
    pub style: Style,
    pub hover_style: Style,
}

/// A subgraph's box with its place in the diagram.
#[derive(Debug)]
pub struct PositionedSubgraph {
    pub rect: Rect,
    pub header_rect: Rect,
    pub id: NodeId,
    pub label: String,
    pub depth: usize,
    pub style: Style,
}

/// What a placed box is: its rectangle, header rectangle, identifier,
/// label, depth and style.
pub open spec fn box_view(b: PositionedSubgraph) -> (Rect, Rect, Seq<char>, Seq<char>, int, Style) {
    (b.rect, b.header_rect, b.id.0@, b.label@, b.depth as int, b.style)
}

/// The views of a sequence of boxes.
pub open spec fn boxes_view(s: Seq<PositionedSubgraph>) -> Seq<(Rect, Rect, Seq<char>, Seq<char>, int, Style)> {
    s.map_values(|b: PositionedSubgraph| box_view(b))
}

/// Bounds (min x, min y, max x, max y) grown to cover `r`; the right and
/// bottom edges are `x + w` and `y + h`, the size taken as `i16` and the sum
/// saturating.
pub open spec fn spec_include(b: (i16, i16, i16, i16), r: Rect) -> (i16, i16, i16, i16) {
    let right = sat_add_i16(r.x as int, wrap_i16(r.w as int)) as i16;
    let bottom = sat_add_i16(r.y as int, wrap_i16(r.h as int)) as i16;
    (
        if r.x < b.0 { r.x } else { b.0 },
        if r.y < b.1 { r.y } else { b.1 },
        if right > b.2 { right } else { b.2 },
        if bottom > b.3 { bottom } else { b.3 },
    )
}

/// Grows the bounds to cover `rect`.
pub fn include_rect(rect: Rect, min_x: &mut i16, min_y: &mut i16, max_x: &mut i16, max_y: &mut i16)
    ensures
        (*final(min_x), *final(min_y), *final(max_x), *final(max_y)) == spec_include(
            (*old(min_x), *old(min_y), *old(max_x), *old(max_y)),
            rect,
        ),
{
    if rect.x < *min_x {
        *min_x = rect.x;
    }
    if rect.y < *min_y {
        *min_y = rect.y;
    }
    let right = i16_sat_add(rect.x, u16_as_i16(rect.w));
    let bottom = i16_sat_add(rect.y, u16_as_i16(rect.h));
    if right > *max_x {
        *max_x = right;
    }
    if bottom > *max_y {
        *max_y = bottom;
    }
}

/// The rectangle of the last placed node named `id`.
pub open spec fn rect_for(nodes: Seq<PositionedNode>, id: Seq<char>) -> Option<Rect>
    decreases nodes.len(),
{
    if nodes.len() == 0 {
        None
    } else if nodes.last().id.0@ == id {
        Some(nodes.last().rect)
    } else {
        rect_for(nodes.drop_last(), id)
    }
}

pub(crate) fn find_rect(nodes: &Vec<PositionedNode>, id: &NodeId) -> (r: Option<Rect>)
    ensures
        r == rect_for(nodes@, id.0@),
{
    let mut k: usize = nodes.len();
    proof {
        assert(nodes@.subrange(0, k as int) =~= nodes@);
    }
    while k > 0
        invariant
            k <= nodes@.len(),
            rect_for(nodes@, id.0@) == rect_for(nodes@.subrange(0, k as int), id.0@),
        decreases k,
    {
        proof {
            assert(nodes@.subrange(0, k as int).drop_last() =~= nodes@.subrange(0, k - 1));
        }
        if nodes[k - 1].id.same(id) {
            return Some(nodes[k - 1].rect);
        }
        k = k - 1;
    }
    None
}

/// The declared parent of the first subgraph named `id`.
pub open spec fn declared_parent(sgs: Seq<FlowchartSubgraphSpec>, id: Seq<char>) -> Option<NodeId> {
    let i = subgraph_pos(sgs, id);
    if i < sgs.len() {
        sgs[i].parent
    } else {
        None
    }
}

/// Whether `p` names the subgraph `id`.
pub open spec fn names(p: Option<NodeId>, id: Seq<char>) -> bool {
    p matches Some(q) && q.0@ == id
}

/// Bounds grown over the first `k` declared nodes whose parent is `id` and
/// that were placed.
pub open spec fn member_bounds(
    fc: Flowchart,
    nodes: Seq<PositionedNode>,
    id: Seq<char>,
    b: (i16, i16, i16, i16),
    k: int,
) -> (i16, i16, i16, i16)
    decreases k,
{
    if k <= 0 || k > fc.nodes@.len() {
        b
    } else {
        let p = member_bounds(fc, nodes, id, b, k - 1);
        let n = fc.nodes@[k - 1];
        if names(n.parent, id) {
            match rect_for(nodes, n.id.0@) {
                Some(r) => spec_include(p, r),
                None => p,
            }
        } else {
            p
        }
    }
}

/// Bounds grown over the first `k` boxes of `out` whose subgraph is
/// declared inside `id`.
pub open spec fn nested_bounds(
    sgs: Seq<FlowchartSubgraphSpec>,
    out: Seq<(Rect, Rect, Seq<char>, Seq<char>, int, Style)>,
    id: Seq<char>,
    b: (i16, i16, i16, i16),
    k: int,
) -> (i16, i16, i16, i16)
    decreases k,
{
    if k <= 0 || k > out.len() {
        b
    } else {
        let p = nested_bounds(sgs, out, id, b, k - 1);
        if names(declared_parent(sgs, out[k - 1].2), id) {
            spec_include(p, out[k - 1].0)
        } else {
            p
        }
    }
}

/// The number of ancestors met walking up from `cur`, following at most
/// `fuel` links.
pub open spec fn depth_from(sgs: Seq<FlowchartSubgraphSpec>, cur: Option<NodeId>, fuel: nat) -> int
    decreases fuel,
{
    match cur {
        None => 0,
        Some(p) => if fuel == 0 {
            0
        } else {
            1 + depth_from(sgs, declared_parent(sgs, p.0@), (fuel - 1) as nat)
        },
    }
}

/// How deeply the subgraph `id` is nested: the length of its chain of
/// declared parents (followed through as many links as there are subgraphs).
pub open spec fn spec_depth(fc: Flowchart, id: Seq<char>) -> int {
    depth_from(fc.subgraphs@, declared_parent(fc.subgraphs@, id), fc.subgraphs@.len() as nat)
}

pub(crate) fn parent_of(fc: &Flowchart, id: &NodeId) -> (r: Option<NodeId>)
    ensures
        r == declared_parent(fc.subgraphs@, id.0@),
{
    let i = find_subgraph(&fc.subgraphs, id);
    if i < fc.subgraphs.len() {
        match &fc.subgraphs[i].parent {
            Some(p) => Some(p.copy()),
            None => None,
        }
    } else {
        None
    }
}

/// How deeply the subgraph `id` is nested; see [`spec_depth`].
pub fn subgraph_depth(fc: &Flowchart, id: &NodeId) -> (r: usize)
    ensures
        r == spec_depth(*fc, id.0@),
{
    let mut depth: usize = 0;
    let mut fuel: usize = fc.subgraphs.len();
    let mut current = parent_of(fc, id);
    while current.is_some() && fuel > 0
        invariant
            fuel <= fc.subgraphs@.len(),
            fc.subgraphs@.len() <= usize::MAX,
            depth + fuel == fc.subgraphs@.len(),
            depth + depth_from(fc.subgraphs@, current, fuel as nat) == spec_depth(*fc, id.0@),
        decreases fuel,
    {
        let next = match &current {
            Some(p) => parent_of(fc, p),
            None => None,
        };
        current = next;
        assert(depth < fc.subgraphs@.len());
        depth = depth + 1;
        fuel = fuel - 1;
    }
    depth
}

/// The style a class assignment gives `id`: the style of its class, or
/// the empty style.
pub open spec fn class_style(fc: Flowchart, id: Seq<char>) -> Style {
    match spec_lookup(fc.class_assignments.entries@, id) {
        Some(c) => match spec_lookup(fc.class_defs.entries@, c@) {
            Some(s) => s,
            None => Style::empty(),
        },
        None => Style::empty(),
    }
}

/// The style a class assignment gives `id`; see [`class_style`].
pub fn assigned_class_style(fc: &Flowchart, id: &NodeId) -> (r: Style)
    ensures
        r == class_style(*fc, id.0@),
{
    match fc.class_assignments.position(id.0.as_str()) {
        Some(i) => match fc.class_defs.get(fc.class_assignments.entries[i].1.as_str()) {
            Some(s) => s,
            None => Style::new(),
        },
        None => Style::new(),
    }
}

/// The header's width: the label's length plus two, at most `u16::MAX`.
pub open spec fn header_width(label: Seq<char>) -> int {
    if label.len() + 2 > 65535 {
        65535
    } else {
        label.len() + 2int
    }
}

/// `v` clamped to `0 ..= u16::MAX`.
pub open spec fn clamp_u16(v: int) -> int {
    if v < 0 {
        0
    } else if v > 65535 {
        65535
    } else {
        v
    }
}

/// The box around bounds `b`: padding and a border on every side, two rows
/// above for the header line, at least as wide as the header.
pub open spec fn box_rect(fc: Flowchart, label: Seq<char>, b: (i16, i16, i16, i16)) -> Rect {
    let pad = fc.subgraph_padding;
    let span = b.2 - b.0;
    let wide = if span > header_width(label) { span } else { header_width(label) };
    Rect {
        x: sat_add_i16(sat_add_i16(b.0 as int, -wrap_i16(pad.left as int)), -1) as i16,
        y: sat_add_i16(sat_add_i16(b.1 as int, -wrap_i16(pad.top as int)), -2) as i16,
        w: clamp_u16(sat32(sat32(wide + pad.spec_horizontal()) + 2)) as u16,
        h: clamp_u16(sat32(sat32((b.3 - b.1) + pad.spec_vertical()) + 3)) as u16,
    }
}

/// The header's rectangle inside box `r`: one row on the top border, one
/// cell in, at most as wide as the box's inside.
pub open spec fn header_rect(label: Seq<char>, r: Rect) -> Rect {
    let inside = sat_sub_u16(r.w as int, 2);
    Rect {
        x: sat_add_i16(r.x as int, 1) as i16,
        y: r.y,
        w: (if header_width(label) < inside { header_width(label) } else { inside }) as u16,
        h: 1,
    }
}

/// The box of subgraph `sg`, given the boxes drawn so far; none when it
/// covers nothing.
pub open spec fn spec_box(
    fc: Flowchart,
    nodes: Seq<PositionedNode>,
    out: Seq<(Rect, Rect, Seq<char>, Seq<char>, int, Style)>,
    sg: FlowchartSubgraphSpec,
) -> Option<(Rect, Rect, Seq<char>, Seq<char>, int, Style)> {
    let start: (i16, i16, i16, i16) = (i16::MAX, i16::MAX, i16::MIN, i16::MIN);
    let b1 = member_bounds(fc, nodes, sg.id.0@, start, fc.nodes@.len() as int);
    let b = nested_bounds(fc.subgraphs@, out, sg.id.0@, b1, out.len() as int);
    if b.0 == i16::MAX {
        None
    } else {
        let r = box_rect(fc, sg.label@, b);
        Some(
            (
                r,
                header_rect(sg.label@, r),
                sg.id.0@,
                sg.label@,
                spec_depth(fc, sg.id.0@),
                class_style(fc, sg.id.0@).spec_patch(sg.style),
            ),
        )
    }
}

/// The boxes of the last `k` subgraphs, innermost declarations first.
pub open spec fn boxes_upto(fc: Flowchart, nodes: Seq<PositionedNode>, k: int) -> Seq<
    (Rect, Rect, Seq<char>, Seq<char>, int, Style),
>
    decreases k,
{
    if k <= 0 || k > fc.subgraphs@.len() {
        Seq::empty()
    } else {
        let out = boxes_upto(fc, nodes, k - 1);
        match spec_box(fc, nodes, out, fc.subgraphs@[fc.subgraphs@.len() - k]) {
            Some(b) => out.push(b),
            None => out,
        }
    }
}

/// Where a box of depth `d` goes among `g`: before the first deeper box.
pub open spec fn depth_pos(g: Seq<(Rect, Rect, Seq<char>, Seq<char>, int, Style)>, d: int, k: int) -> int
    decreases k,
{
    if k <= 0 {
        0
    } else {
        let j = depth_pos(g, d, k - 1);
        if j < k - 1 {
            j
        } else if d < g[k - 1].4 {
            k - 1
        } else {
            k
        }
    }
}

/// `s` ordered by depth, boxes of equal depth keeping their order.
pub open spec fn sort_by_depth(s: Seq<(Rect, Rect, Seq<char>, Seq<char>, int, Style)>) -> Seq<
    (Rect, Rect, Seq<char>, Seq<char>, int, Style),
>
    decreases s.len(),
{
    if s.len() == 0 {
        Seq::empty()
    } else {
        let g = sort_by_depth(s.drop_last());
        g.insert(depth_pos(g, s.last().4, g.len() as int), s.last())
    }
}

proof fn lemma_depth_pos_range(g: Seq<(Rect, Rect, Seq<char>, Seq<char>, int, Style)>, d: int, k: int)
    requires
        k >= 0,
    ensures
        0 <= depth_pos(g, d, k) <= k,
    decreases k,
{
    if k > 0 {
        lemma_depth_pos_range(g, d, k - 1);
    }
}

proof fn lemma_depth_pos_stays(g: Seq<(Rect, Rect, Seq<char>, Seq<char>, int, Style)>, d: int, j: int, k: int, n: int)
    requires
        0 <= j <= k <= n,
        depth_pos(g, d, k) == j,
        j == k ==> (k < n ==> d < g[k].4),
        j < k || k == n || d < g[k].4,
    ensures
        depth_pos(g, d, n) == j,
    decreases n - k,
{
    if k < n {
        lemma_depth_pos_stays(g, d, j, k + 1, n);
    }
}

/// Sorts boxes by depth, keeping the order of boxes of equal depth.
fn sort_boxes(out: Vec<PositionedSubgraph>) -> (r: Vec<PositionedSubgraph>)
    ensures
        boxes_view(r@) == sort_by_depth(boxes_view(out@)),
{
    let ghost s = boxes_view(out@);
    let total = out.len();
    let mut rest = out;
    let mut sorted: Vec<PositionedSubgraph> = Vec::new();
    let mut k: usize = 0;
    while rest.len() > 0
        invariant
            k + rest@.len() == s.len(),
            s.len() == total,
            boxes_view(rest@) == s.subrange(k as int, s.len() as int),
            boxes_view(sorted@) == sort_by_depth(s.subrange(0, k as int)),
        decreases rest@.len(),
    {
        let ghost before = rest@;
        let x = rest.remove(0);
        proof {
            assert(box_view(x) == s[k as int]) by {
                assert(x == before[0]);
                assert(boxes_view(before)[0] == box_view(before[0]));
                assert(boxes_view(before)[0] == s.subrange(k as int, s.len() as int)[0]);
            }
            assert(boxes_view(rest@) =~= s.subrange(k + 1, s.len() as int)) by {
                assert(rest@ =~= before.subrange(1, before.len() as int));
                assert forall|i: int| 0 <= i < rest@.len() implies boxes_view(rest@)[i] == s[k + 1 + i] by {
                    assert(boxes_view(before)[i + 1] == s.subrange(k as int, s.len() as int)[i + 1]);
                }
            }
            assert(s.subrange(0, k + 1).drop_last() =~= s.subrange(0, k as int));
        }
        let ghost g = boxes_view(sorted@);
        let n = sorted.len();
        let mut j: usize = 0;
        while j < n && sorted[j].depth <= x.depth
            invariant
                n == sorted@.len(),
                j <= n,
                g == boxes_view(sorted@),
                depth_pos(g, x.depth as int, j as int) == j,
            decreases n - j,
        {
            j = j + 1;
        }
        proof {
            lemma_depth_pos_stays(g, x.depth as int, j as int, j as int, n as int);
        }
        sorted.insert(j, x);
        proof {
            assert(boxes_view(sorted@) =~= g.insert(j as int, box_view(x)));
        }
        k = k + 1;
    }
    proof {
        assert(s.subrange(0, s.len() as int) =~= s);
    }
    sorted
}

fn member_bounds_of(fc: &Flowchart, nodes: &Vec<PositionedNode>, id: &NodeId) -> (r: (i16, i16, i16, i16))
    ensures
        r == member_bounds(*fc, nodes@, id.0@, (i16::MAX, i16::MAX, i16::MIN, i16::MIN), fc.nodes@.len() as int),
{
    let mut min_x: i16 = i16::MAX;
    let mut min_y: i16 = i16::MAX;
    let mut max_x: i16 = i16::MIN;
    let mut max_y: i16 = i16::MIN;
    let mut k: usize = 0;
    while k < fc.nodes.len()
        invariant
            k <= fc.nodes@.len(),
            (min_x, min_y, max_x, max_y) == member_bounds(
                *fc,
                nodes@,
                id.0@,
                (i16::MAX, i16::MAX, i16::MIN, i16::MIN),
                k as int,
            ),
        decreases fc.nodes@.len() - k,
    {
        let member = match &fc.nodes[k].parent {
            Some(q) => q.same(id),
            None => false,
        };
        if member {
            match find_rect(nodes, &fc.nodes[k].id) {
                Some(r) => include_rect(r, &mut min_x, &mut min_y, &mut max_x, &mut max_y),
                None => {},
            }
        }
        k = k + 1;
    }
    (min_x, min_y, max_x, max_y)
}

fn nested_bounds_of(fc: &Flowchart, out: &Vec<PositionedSubgraph>, id: &NodeId, b: (i16, i16, i16, i16)) -> (r: (
    i16,
    i16,
    i16,
    i16,
))
    ensures
        r == nested_bounds(fc.subgraphs@, boxes_view(out@), id.0@, b, out@.len() as int),
{
    let (mut min_x, mut min_y, mut max_x, mut max_y) = b;
    let mut k: usize = 0;
    while k < out.len()
        invariant
            k <= out@.len(),
            (min_x, min_y, max_x, max_y) == nested_bounds(fc.subgraphs@, boxes_view(out@), id.0@, b, k as int),
        decreases out@.len() - k,
    {
        let inside = match parent_of(fc, &out[k].id) {
            Some(q) => q.same(id),
            None => false,
        };
        proof {
            assert(boxes_view(out@)[k as int] == box_view(out@[k as int]));
        }
        if inside {
            include_rect(out[k].rect, &mut min_x, &mut min_y, &mut max_x, &mut max_y);
        }
        k = k + 1;
    }
    (min_x, min_y, max_x, max_y)
}

fn clamp_to_u16(v: i32) -> (r: u16)
    ensures
        r == clamp_u16(v as int),
{
    if v < 0 {
        0
    } else if v > 65535 {
        65535
    } else {
        v as u16
    }
}

/// The boxes of all subgraphs that cover something, ordered from the
/// outermost to the innermost (boxes of equal depth in reverse declaration
/// order). A box covers its member nodes (the last placed node of each
/// member's name) and the boxes of the subgraphs declared inside it.
pub fn layout_subgraphs(fc: &Flowchart, nodes: &Vec<PositionedNode>) -> (r: Vec<PositionedSubgraph>)
    ensures
        boxes_view(r@) == sort_by_depth(boxes_upto(*fc, nodes@, fc.subgraphs@.len() as int)),
{
    let mut out: Vec<PositionedSubgraph> = Vec::new();
    let n = fc.subgraphs.len();
    let mut k: usize = 0;
    while k < n
        invariant
            k <= n,
            n == fc.subgraphs@.len(),
            boxes_view(out@) == boxes_upto(*fc, nodes@, k as int),
        decreases n - k,
    {
        let sg = &fc.subgraphs[n - 1 - k];
        let b1 = member_bounds_of(fc, nodes, &sg.id);
        let (min_x, min_y, max_x, max_y) = nested_bounds_of(fc, &out, &sg.id, b1);
        if min_x != i16::MAX {
            let pad = fc.subgraph_padding;
            let count = sg.label.as_str().unicode_len();
            let hw: u16 = if count > 65533 { 65535 } else { (count + 2) as u16 };
            let span: i32 = max_x as i32 - min_x as i32;
            let wide: i32 = if span > hw as i32 { span } else { hw as i32 };
            let w = clamp_to_u16(add_i32(add_i32(wide, pad.horizontal() as i32), 2));
            let tall: i32 = max_y as i32 - min_y as i32;
            let h = clamp_to_u16(add_i32(add_i32(tall, pad.vertical() as i32), 3));
            let rect = Rect {
                x: i16_sat_sub(i16_sat_sub(min_x, u16_as_i16(pad.left)), 1),
                y: i16_sat_sub(i16_sat_sub(min_y, u16_as_i16(pad.top)), 2),
                w,
                h,
            };
            let inside: u16 = if rect.w < 2 { 0 } else { rect.w - 2 };
            let header = Rect { x: i16_sat_add(rect.x, 1), y: rect.y, w: if hw < inside { hw } else { inside }, h: 1 };
            let depth = subgraph_depth(fc, &sg.id);
            let style = assigned_class_style(fc, &sg.id).patch(sg.style);
            let placed = PositionedSubgraph {
                rect,
                header_rect: header,
                id: sg.id.copy(),
                label: sg.label.clone(),
                depth,
                style,
            };
            proof {
                assert(boxes_upto(*fc, nodes@, k + 1) == boxes_upto(*fc, nodes@, k as int).push(box_view(placed)));
            }
            let ghost before = out@;
            out.push(placed);
            proof {
                assert(boxes_view(out@) =~= boxes_view(before).push(box_view(placed)));
            }
        }
        k = k + 1;
    }
    sort_boxes(out)
}

proof fn lemma_depth_pos_first(g: Seq<(Rect, Rect, Seq<char>, Seq<char>, int, Style)>, d: int, k: int)
    requires
        0 <= k <= g.len(),
    ensures
        0 <= depth_pos(g, d, k) <= k,
        forall|j: int| 0 <= j < depth_pos(g, d, k) ==> g[j].4 <= d,
        depth_pos(g, d, k) < k ==> d < g[depth_pos(g, d, k)].4,
    decreases k,
{
    if k > 0 {
        lemma_depth_pos_first(g, d, k - 1);
    }
}

/// The boxes come out ordered from the outermost to the innermost: depths
/// never decrease along the result, and it holds exactly the boxes given.
pub proof fn lemma_sort_by_depth(s: Seq<(Rect, Rect, Seq<char>, Seq<char>, int, Style)>)
    ensures
        forall|i: int, j: int|
            0 <= i < j < sort_by_depth(s).len() ==> sort_by_depth(s)[i].4 <= sort_by_depth(s)[j].4,
        sort_by_depth(s).to_multiset() == s.to_multiset(),
    decreases s.len(),
{
    broadcast use vstd::seq_lib::to_multiset_insert, vstd::seq_lib::to_multiset_build;

    if s.len() == 0 {
        assert(sort_by_depth(s) =~= s);
    } else {
        lemma_sort_by_depth(s.drop_last());
        let g = sort_by_depth(s.drop_last());
        let x = s.last();
        let p = depth_pos(g, x.4, g.len() as int);
        lemma_depth_pos_first(g, x.4, g.len() as int);
        let r = g.insert(p, x);
        assert(r == sort_by_depth(s));
        assert forall|i: int, j: int| 0 <= i < j < r.len() implies r[i].4 <= r[j].4 by {
            if j < p {
                assert(r[i] == g[i] && r[j] == g[j]);
            } else if j == p {
                assert(r[i] == g[i]);
            } else if i < p {
                assert(r[i] == g[i] && r[j] == g[j - 1]);
                assert(g[p].4 <= g[j - 1].4 || p == j - 1);
            } else if i == p {
                assert(r[j] == g[j - 1]);
                assert(g[p].4 <= g[j - 1].4 || p == j - 1);
            } else {
                assert(r[i] == g[i - 1] && r[j] == g[j - 1]);
            }
        }
        assert(s.drop_last().push(x) =~= s);
    }
}

/// A rect that lies well inside the `i16` range.
pub open spec fn rect_well_inside(r: Rect) -> bool {
    -10000 <= r.x <= 10000 && -10000 <= r.y <= 10000 && r.w <= 10000 && r.h <= 10000
}

proof fn lemma_include_grows(b: (i16, i16, i16, i16), r: Rect)
    requires
        rect_well_inside(r),
    ensures
        spec_include(b, r).0 <= b.0 && spec_include(b, r).1 <= b.1,
        spec_include(b, r).2 >= b.2 && spec_include(b, r).3 >= b.3,
        spec_include(b, r).0 <= r.x && spec_include(b, r).1 <= r.y,
        spec_include(b, r).2 >= r.x + r.w && spec_include(b, r).3 >= r.y + r.h,
        b.0 >= -10000 && b.1 >= -10000 ==> spec_include(b, r).0 >= -10000 && spec_include(b, r).1 >= -10000,
        b.2 <= 20000 && b.3 <= 20000 ==> spec_include(b, r).2 <= 20000 && spec_include(b, r).3 <= 20000,
{
}

proof fn lemma_member_bounds(fc: Flowchart, nodes: Seq<PositionedNode>, id: Seq<char>, b: (i16, i16, i16, i16), k: int)
    requires
        0 <= k <= fc.nodes@.len(),
        forall|i: int| 0 <= i < nodes.len() ==> rect_well_inside(#[trigger] nodes[i].rect),
        b.0 >= -10000 && b.1 >= -10000 && b.2 <= 20000 && b.3 <= 20000,
    ensures
        ({
            let m = member_bounds(fc, nodes, id, b, k);
            &&& m.0 <= b.0 && m.1 <= b.1 && m.2 >= b.2 && m.3 >= b.3
            &&& m.0 >= -10000 && m.1 >= -10000 && m.2 <= 20000 && m.3 <= 20000
            &&& forall|j: int|
                0 <= j < k && names((#[trigger] fc.nodes@[j]).parent, id) ==> (rect_for(nodes, fc.nodes@[j].id.0@) matches Some(
                    r,
                ) ==> m.0 <= r.x && m.1 <= r.y && m.2 >= r.x + r.w && m.3 >= r.y + r.h)
        }),
    decreases k,
{
    if k > 0 {
        lemma_member_bounds(fc, nodes, id, b, k - 1);
        let p = member_bounds(fc, nodes, id, b, k - 1);
        let n = fc.nodes@[k - 1];
        if names(n.parent, id) {
            match rect_for(nodes, n.id.0@) {
                Some(r) => {
                    lemma_rect_for_member(nodes, n.id.0@);
                    lemma_include_grows(p, r);
                },
                None => {},
            }
        }
    }
}

proof fn lemma_rect_for_member(nodes: Seq<PositionedNode>, id: Seq<char>)
    requires
        forall|i: int| 0 <= i < nodes.len() ==> rect_well_inside(#[trigger] nodes[i].rect),
    ensures
        rect_for(nodes, id) matches Some(r) ==> rect_well_inside(r),
    decreases nodes.len(),
{
    if nodes.len() > 0 {
        assert(rect_well_inside(nodes[nodes.len() - 1].rect));
        lemma_rect_for_member(nodes.drop_last(), id);
        assert forall|i: int| 0 <= i < nodes.drop_last().len() implies rect_well_inside(#[trigger] nodes.drop_last()[i].rect) by {
            assert(nodes.drop_last()[i] == nodes[i]);
        }
    }
}

proof fn lemma_nested_bounds(
    sgs: Seq<FlowchartSubgraphSpec>,
    out: Seq<(Rect, Rect, Seq<char>, Seq<char>, int, Style)>,
    id: Seq<char>,
    b: (i16, i16, i16, i16),
    k: int,
)
    requires
        0 <= k <= out.len(),
        forall|i: int| 0 <= i < out.len() ==> rect_well_inside(#[trigger] out[i].0),
        b.0 >= -10000 && b.1 >= -10000 && b.2 <= 20000 && b.3 <= 20000,
    ensures
        ({
            let m = nested_bounds(sgs, out, id, b, k);
            &&& m.0 <= b.0 && m.1 <= b.1 && m.2 >= b.2 && m.3 >= b.3
            &&& m.0 >= -10000 && m.1 >= -10000 && m.2 <= 20000 && m.3 <= 20000
        }),
    decreases k,
{
    if k > 0 {
        lemma_nested_bounds(sgs, out, id, b, k - 1);
        let p = nested_bounds(sgs, out, id, b, k - 1);
        if names(declared_parent(sgs, out[k - 1].2), id) {
            lemma_include_grows(p, out[k - 1].0);
        }
    }
}

/// A subgraph's box holds each of its member nodes inside its border: the
/// member's rect lies strictly within the box on every side, with the box's
/// padding and its header row above. (Rects and paddings are taken small
/// enough that nothing saturates.)
pub proof fn law_box_holds_members(
    fc: Flowchart,
    nodes: Seq<PositionedNode>,
    out: Seq<(Rect, Rect, Seq<char>, Seq<char>, int, Style)>,
    sg: FlowchartSubgraphSpec,
    j: int,
)
    requires
        0 <= j < fc.nodes@.len(),
        names(fc.nodes@[j].parent, sg.id.0@),
        forall|i: int| 0 <= i < nodes.len() ==> rect_well_inside(#[trigger] nodes[i].rect),
        forall|i: int| 0 <= i < out.len() ==> rect_well_inside(#[trigger] out[i].0),
        fc.subgraph_padding.left <= 1000 && fc.subgraph_padding.right <= 1000 && fc.subgraph_padding.top <= 1000
            && fc.subgraph_padding.bottom <= 1000,
        rect_for(nodes, fc.nodes@[j].id.0@) is Some,
    ensures
        spec_box(fc, nodes, out, sg) matches Some(bx) && ({
            let r = rect_for(nodes, fc.nodes@[j].id.0@)->0;
            let pad = fc.subgraph_padding;
            &&& bx.0.x + 1 + pad.left <= r.x
            &&& bx.0.y + 2 + pad.top <= r.y
            &&& r.x + r.w + pad.right + 1 <= bx.0.x + bx.0.w
            &&& r.y + r.h + pad.bottom + 1 <= bx.0.y + bx.0.h
        }),
{
    let start: (i16, i16, i16, i16) = (i16::MAX, i16::MAX, i16::MIN, i16::MIN);
    lemma_member_bounds(fc, nodes, sg.id.0@, start, fc.nodes@.len() as int);
    let b1 = member_bounds(fc, nodes, sg.id.0@, start, fc.nodes@.len() as int);
    lemma_rect_for_member(nodes, fc.nodes@[j].id.0@);
    let r = rect_for(nodes, fc.nodes@[j].id.0@)->0;
    assert(b1.0 <= r.x);
    lemma_nested_bounds(fc.subgraphs@, out, sg.id.0@, b1, out.len() as int);
    let b = nested_bounds(fc.subgraphs@, out, sg.id.0@, b1, out.len() as int);
    assert(b.0 <= r.x && b.0 < i16::MAX);
    assert(b.2 >= r.x + r.w && b.3 >= r.y + r.h);
}

} // verus!
