//! Turning layers and lanes into coordinates: layers stack along the major
//! axis (reversed for bottom-up and right-to-left diagrams), the minor axis
//! is centred on zero, and each node takes its declared text and style.

use vstd::prelude::*;

use crate::flowchart::{FlowDirection, Flowchart, NodeShape};
use crate::flowchart_boxes::{assigned_class_style, class_style, PositionedNode};
use crate::flowchart_layout::{
    add_i32, clamp_i32_to_i16, compute_node_offsets, nodes_declared, sat32, spec_place, sub_i32, LayoutNode,
};
use crate::style::{Rect, Style};
use crate::wrap::strings_view;

verus! {

/// The deepest layer among the first `k` nodes (zero for none).
pub open spec fn max_layer_of(nodes: Seq<LayoutNode>, k: int) -> int
    decreases k,
{
    if k <= 0 {
        0
    } else if nodes[k - 1].layer > max_layer_of(nodes, k - 1) {
        nodes[k - 1].layer as int
    } else {
        max_layer_of(nodes, k - 1)
    }
}

/// A node's extent along the major axis: its height when layers stack
/// vertically, its width otherwise.
pub open spec fn major_size(n: LayoutNode, d: FlowDirection) -> int {
    match d {
        FlowDirection::TopDown | FlowDirection::BottomUp => n.height as int,
        _ => n.width as int,
    }
}

/// The largest major extent among the first `k` nodes in `layer`.
pub open spec fn layer_extent(nodes: Seq<LayoutNode>, d: FlowDirection, layer: int, k: int) -> int
    decreases k,
{
    if k <= 0 {
        0
    } else if nodes[k - 1].layer == layer && major_size(nodes[k - 1], d) > layer_extent(nodes, d, layer, k - 1) {
        major_size(nodes[k - 1], d)
    } else {
        layer_extent(nodes, d, layer, k - 1)
    }
}

/// Where layer `l` starts along the major axis: the layers before it, each
/// followed by the layer gap.
pub open spec fn layer_start(fc: Flowchart, nodes: Seq<LayoutNode>, l: int) -> int
    decreases l,
{
    if l <= 0 {
        0
    } else {
        sat32(sat32(layer_start(fc, nodes, l - 1) + layer_extent(nodes, fc.direction, l - 1, nodes.len() as int))
            + fc.layer_gap)
    }
}

/// What a placed node is: its rectangle, identifier, label, text lines,
/// shape, style and hover style.
pub open spec fn node_view(n: PositionedNode) -> (Rect, Seq<char>, Seq<char>, Seq<Seq<char>>, NodeShape, Style, Style) {
    (n.rect, n.id.0@, n.label@, strings_view(n.label_lines@), n.shape, n.style, n.hover_style)
}

/// `v` clamped to the `i16` range.
pub open spec fn clamp16(v: int) -> int {
    if v < i16::MIN {
        i16::MIN as int
    } else if v > i16::MAX {
        i16::MAX as int
    } else {
        v
    }
}

/// Node `i` placed: the minor axis from its lane offset less half the total
/// span, the major axis from its layer's start (mirrored for bottom-up and
/// right-to-left diagrams), with its declaration's text and its class style
/// patched by its own style.
pub open spec fn spec_positioned(
    fc: Flowchart,
    nodes: Seq<LayoutNode>,
    lines: Seq<Seq<Seq<char>>>,
    i: int,
) -> (Rect, Seq<char>, Seq<char>, Seq<Seq<char>>, NodeShape, Style, Style) {
    let n = nodes[i];
    let max_layer = max_layer_of(nodes, nodes.len() as int);
    let placed = spec_place(
        fc,
        nodes,
        max_layer,
        None,
        0,
        Seq::new(nodes.len(), |j: int| 0i32),
        (fc.subgraphs@.len() + 1) as nat,
    );
    let minor = sat32(placed.0[i] - placed.1 / 2);
    let full = sat32(layer_start(fc, nodes, max_layer + 1) - fc.layer_gap);
    let major = match fc.direction {
        FlowDirection::TopDown | FlowDirection::LeftRight => layer_start(fc, nodes, n.layer as int),
        _ => sat32(full - layer_start(fc, nodes, n.layer as int)),
    };
    let (x, y) = match fc.direction {
        FlowDirection::TopDown | FlowDirection::BottomUp => (minor, major),
        _ => (major, minor),
    };
    let s = fc.nodes@[n.spec_index as int];
    (
        Rect { x: clamp16(x) as i16, y: clamp16(y) as i16, w: n.width, h: n.height },
        s.id.0@,
        s.label@,
        lines[i],
        s.shape,
        class_style(fc, s.id.0@).spec_patch(s.style),
        s.hover_style,
    )
}

proof fn lemma_max_layer(nodes: Seq<LayoutNode>, k: int)
    requires
        0 <= k <= nodes.len(),
    ensures
        0 <= max_layer_of(nodes, k),
        forall|j: int| 0 <= j < k ==> nodes[j].layer <= max_layer_of(nodes, k),
    decreases k,
{
    if k > 0 {
        lemma_max_layer(nodes, k - 1);
    }
}

fn copy_lines(v: &Vec<String>) -> (r: Vec<String>)
    ensures
        strings_view(r@) == strings_view(v@),
{
    let mut out: Vec<String> = Vec::new();
    let mut k: usize = 0;
    while k < v.len()
        invariant
            k <= v@.len(),
            strings_view(out@) == strings_view(v@).subrange(0, k as int),
        decreases v@.len() - k,
    {
        let ghost before = out@;
        out.push(v[k].clone());
        assert(strings_view(out@) =~= strings_view(v@).subrange(0, k + 1)) by {
            assert(strings_view(out@) =~= strings_view(before).push(v@[k as int]@));
        }
        k = k + 1;
    }
    out
}

fn layer_extent_exec(nodes: &Vec<LayoutNode>, d: FlowDirection, layer: usize) -> (r: i32)
    ensures
        r == layer_extent(nodes@, d, layer as int, nodes@.len() as int),
{
    let mut best: u16 = 0;
    let mut k: usize = 0;
    while k < nodes.len()
        invariant
            k <= nodes@.len(),
            best == layer_extent(nodes@, d, layer as int, k as int),
        decreases nodes@.len() - k,
    {
        let n = nodes[k];
        let size: u16 = match d {
            FlowDirection::TopDown | FlowDirection::BottomUp => n.height,
            _ => n.width,
        };
        if n.layer == layer && size > best {
            best = size;
        }
        k = k + 1;
    }
    best as i32
}

/// Gives every laid-out node its rectangle, text and style; `lines` holds
/// each node's wrapped label.
pub fn assign_coordinates(fc: &Flowchart, nodes: &Vec<LayoutNode>, lines: &Vec<Vec<String>>) -> (r: Vec<
    PositionedNode,
>)
    requires
        nodes_declared(*fc, nodes@),
        lines@.len() == nodes@.len(),
        fc.subgraphs@.len() < usize::MAX,
        forall|i: int| 0 <= i < nodes@.len() ==> (#[trigger] nodes@[i]).layer < usize::MAX,
    ensures
        r@.len() == nodes@.len(),
        forall|i: int|
            0 <= i < r@.len() ==> node_view(#[trigger] r@[i]) == spec_positioned(
                *fc,
                nodes@,
                Seq::new(lines@.len(), |j: int| strings_view(lines@[j]@)),
                i,
            ),
{
    let ghost lv = Seq::new(lines@.len(), |j: int| strings_view(lines@[j]@));
    let mut max_layer: usize = 0;
    let mut k: usize = 0;
    while k < nodes.len()
        invariant
            k <= nodes@.len(),
            max_layer == max_layer_of(nodes@, k as int),
            forall|i: int| 0 <= i < nodes@.len() ==> (#[trigger] nodes@[i]).layer < usize::MAX,
            max_layer < usize::MAX,
        decreases nodes@.len() - k,
    {
        if nodes[k].layer > max_layer {
            max_layer = nodes[k].layer;
        }
        k = k + 1;
    }
    let mut starts: Vec<i32> = Vec::new();
    let mut cursor: i32 = 0;
    let mut layer: usize = 0;
    while layer <= max_layer
        invariant
            layer <= max_layer + 1,
            max_layer < usize::MAX,
            starts@.len() == layer,
            forall|j: int| 0 <= j < layer ==> starts@[j] == layer_start(*fc, nodes@, j),
            cursor == layer_start(*fc, nodes@, layer as int),
        decreases max_layer + 1 - layer,
    {
        starts.push(cursor);
        let e = layer_extent_exec(nodes, fc.direction, layer);
        cursor = add_i32(add_i32(cursor, e), fc.layer_gap as i32);
        layer = layer + 1;
    }
    let full = sub_i32(cursor, fc.layer_gap as i32);
    let (offsets, total) = compute_node_offsets(fc, nodes, max_layer);
    proof {
        crate::flowchart_layout::lemma_place_bounds(
            *fc,
            nodes@,
            max_layer as int,
            None,
            0,
            Seq::new(nodes@.len(), |j: int| 0i32),
            (fc.subgraphs@.len() + 1) as nat,
        );
        lemma_max_layer(nodes@, nodes@.len() as int);
    }
    let half: i32 = (total as u32 / 2) as i32;
    let mut out: Vec<PositionedNode> = Vec::new();
    let mut i: usize = 0;
    while i < nodes.len()
        invariant
            i <= nodes@.len(),
            nodes_declared(*fc, nodes@),
            lines@.len() == nodes@.len(),
            lv == Seq::new(lines@.len(), |j: int| strings_view(lines@[j]@)),
            offsets@.len() == nodes@.len(),
            max_layer == max_layer_of(nodes@, nodes@.len() as int),
            starts@.len() == max_layer + 1,
            forall|j: int| 0 <= j <= max_layer ==> starts@[j] == layer_start(*fc, nodes@, j),
            full == sat32(layer_start(*fc, nodes@, max_layer + 1) - fc.layer_gap),
            ({
                let p = spec_place(
                    *fc,
                    nodes@,
                    max_layer as int,
                    None,
                    0,
                    Seq::new(nodes@.len(), |j: int| 0i32),
                    (fc.subgraphs@.len() + 1) as nat,
                );
                offsets@ == p.0 && half == p.1 / 2
            }),
            forall|j: int| 0 <= j < nodes@.len() ==> nodes@[j].layer <= max_layer,
            out@.len() == i,
            forall|j: int| 0 <= j < i ==> node_view(#[trigger] out@[j]) == spec_positioned(*fc, nodes@, lv, j),
        decreases nodes@.len() - i,
    {
        let n = nodes[i];
        proof {
            assert(nodes@[i as int].spec_index < fc.nodes@.len());
        }
        let s = &fc.nodes[n.spec_index];
        let minor = sub_i32(offsets[i], half);
        let major: i32 = match fc.direction {
            FlowDirection::TopDown | FlowDirection::LeftRight => starts[n.layer],
            _ => sub_i32(full, starts[n.layer]),
        };
        let (x, y): (i32, i32) = match fc.direction {
            FlowDirection::TopDown | FlowDirection::BottomUp => (minor, major),
            _ => (major, minor),
        };
        let style = assigned_class_style(fc, &s.id).patch(s.style);
        let placed = PositionedNode {
            rect: Rect { x: clamp_i32_to_i16(x), y: clamp_i32_to_i16(y), w: n.width, h: n.height },
            id: s.id.copy(),
            label: s.label.clone(),
            label_lines: copy_lines(&lines[i]),
            shape: s.shape,
            style,
            hover_style: s.hover_style,
        };
        out.push(placed);
        i = i + 1;
    }
    out
}

proof fn lemma_layer_extent(nodes: Seq<LayoutNode>, d: FlowDirection, layer: int, k: int)
    requires
        0 <= k <= nodes.len(),
    ensures
        0 <= layer_extent(nodes, d, layer, k),
        forall|j: int| 0 <= j < k && nodes[j].layer == layer ==> major_size(nodes[j], d) <= layer_extent(nodes, d, layer, k),
    decreases k,
{
    if k > 0 {
        lemma_layer_extent(nodes, d, layer, k - 1);
    }
}

proof fn lemma_layer_start_step(fc: Flowchart, nodes: Seq<LayoutNode>, l: int)
    requires
        0 <= l,
    ensures
        0 <= layer_start(fc, nodes, l) <= layer_start(fc, nodes, l + 1) <= i32::MAX,
        layer_start(fc, nodes, l + 1) < i32::MAX ==> layer_start(fc, nodes, l + 1) == layer_start(fc, nodes, l)
            + layer_extent(nodes, fc.direction, l, nodes.len() as int) + fc.layer_gap,
    decreases l,
{
    lemma_layer_extent(nodes, fc.direction, l, nodes.len() as int);
    if l > 0 {
        lemma_layer_start_step(fc, nodes, l - 1);
    }
}

proof fn lemma_layer_start_grows(fc: Flowchart, nodes: Seq<LayoutNode>, l: int, m: int)
    requires
        0 <= l <= m,
    ensures
        0 <= layer_start(fc, nodes, l) <= layer_start(fc, nodes, m),
    decreases m - l,
{
    lemma_layer_start_step(fc, nodes, l);
    if l < m {
        lemma_layer_start_grows(fc, nodes, l + 1, m);
    }
}

/// Layers stack along the diagram's flow without overlapping: in a
/// top-down diagram a node of a later layer starts below every node of an
/// earlier one by at least the layer gap, and nodes of one layer start on the
/// same row; likewise across columns in a left-to-right diagram. (The
/// diagram is taken to fit in the `i16` range.)
pub proof fn law_layers_stack(fc: Flowchart, nodes: Seq<LayoutNode>, lines: Seq<Seq<Seq<char>>>, i: int, j: int)
    requires
        fc.direction == FlowDirection::TopDown || fc.direction == FlowDirection::LeftRight,
        0 <= i < nodes.len(),
        0 <= j < nodes.len(),
        nodes[i].layer <= nodes[j].layer,
        layer_start(fc, nodes, max_layer_of(nodes, nodes.len() as int) + 1) <= i16::MAX,
    ensures
        ({
            let a = spec_positioned(fc, nodes, lines, i).0;
            let b = spec_positioned(fc, nodes, lines, j).0;
            &&& fc.direction == FlowDirection::TopDown ==> (nodes[i].layer < nodes[j].layer ==> a.y + a.h + fc.layer_gap
                <= b.y) && (nodes[i].layer == nodes[j].layer ==> a.y == b.y)
            &&& fc.direction == FlowDirection::LeftRight ==> (nodes[i].layer < nodes[j].layer ==> a.x + a.w
                + fc.layer_gap <= b.x) && (nodes[i].layer == nodes[j].layer ==> a.x == b.x)
        }),
{
    let top = max_layer_of(nodes, nodes.len() as int) + 1;
    lemma_max_layer(nodes, nodes.len() as int);
    let li = nodes[i].layer as int;
    let lj = nodes[j].layer as int;
    lemma_layer_start_grows(fc, nodes, li, top);
    lemma_layer_start_grows(fc, nodes, lj, top);
    if li < lj {
        lemma_layer_start_grows(fc, nodes, li + 1, top);
        lemma_layer_start_step(fc, nodes, li);
        lemma_layer_start_grows(fc, nodes, li + 1, lj);
        lemma_layer_extent(nodes, fc.direction, li, nodes.len() as int);
    }
}

} // verus!
