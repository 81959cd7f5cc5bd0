//! Placing a layered flowchart along its minor axis: every container (the
//! diagram, then each subgraph) gives its own nodes one lane, layer by
//! layer and centred, and its child subgraphs lanes of their own beside it,
//! so no node outside a subgraph shares the subgraph's span. Then each
//! subgraph's box is drawn around its members.

use vstd::prelude::*;

use crate::flowchart::{FlowDirection, Flowchart, FlowchartNodeSpec, FlowchartSubgraphSpec, NodeId};
use crate::style::Padding;

verus! {

/// A node being laid out: its declaration's index, its layer and order in
/// that layer, and its size.
#[derive(Clone, Copy, Debug, PartialEq, Eq, Structural)]
pub struct LayoutNode {
    pub spec_index: usize,
    pub layer: usize,
    pub order: usize,
    pub width: u16,
    pub height: u16,
}

/// `v` clamped to the `i32` range.
pub open spec fn sat32(v: int) -> int {
    if v > i32::MAX { i32::MAX as int } else if v < i32::MIN { i32::MIN as int } else { v }
}

/// Whether a declared parent is the container `c` (both absent, or the same
/// identifier).
pub open spec fn same_container(p: Option<NodeId>, c: Option<NodeId>) -> bool {
    match (p, c) {
        (None, None) => true,
        (Some(a), Some(b)) => a.0@ == b.0@,
        _ => false,
    }
}

/// Saturating `i32` addition.
pub fn add_i32(a: i32, b: i32) -> (r: i32)
    ensures
        r == sat32(a + b),
{
    let s: i64 = a as i64 + b as i64;
    if s > 2147483647 { 2147483647 } else if s < -2147483648 { -2147483648 } else { s as i32 }
}

/// Saturating `i32` subtraction.
pub fn sub_i32(a: i32, b: i32) -> (r: i32)
    ensures
        r == sat32(a - b),
{
    let s: i64 = a as i64 - b as i64;
    if s > 2147483647 { 2147483647 } else if s < -2147483648 { -2147483648 } else { s as i32 }
}

fn container_eq(p: &Option<NodeId>, c: &Option<NodeId>) -> (r: bool)
    ensures
        r == same_container(*p, *c),
{
    match (p, c) {
        (None, None) => true,
        (Some(a), Some(b)) => a.same(b),
        _ => false,
    }
}

/// A node's extent along the minor axis: its width when layers stack
/// vertically, its height otherwise.
pub open spec fn minor_size(n: LayoutNode, d: FlowDirection) -> int {
    match d {
        FlowDirection::TopDown | FlowDirection::BottomUp => n.width as int,
        _ => n.height as int,
    }
}

/// The gap left between lanes of sibling containers.
pub open spec fn spec_cluster_gap(fc: Flowchart) -> int {
    fc.node_gap + fc.subgraph_padding.spec_horizontal() + 4
}

/// The gap left between lanes of sibling containers.
pub fn cluster_gap(fc: &Flowchart) -> (r: i32)
    ensures
        r == spec_cluster_gap(*fc),
{
    fc.node_gap as i32 + fc.subgraph_padding.horizontal() as i32 + 4
}

/// The sum of the first `k` sizes of `indices`, saturating.
pub open spec fn sum_sizes(nodes: Seq<LayoutNode>, indices: Seq<usize>, d: FlowDirection, k: int) -> int
    decreases k,
{
    if k <= 0 || k > indices.len() {
        0
    } else {
        sat32(sum_sizes(nodes, indices, d, k - 1) + minor_size(nodes[indices[k - 1] as int], d))
    }
}

/// The span a row of nodes covers: their sizes and the gaps between them.
pub open spec fn spec_minor_extent(fc: Flowchart, nodes: Seq<LayoutNode>, indices: Seq<usize>) -> int {
    let gaps = if indices.len() == 0 {
        0
    } else {
        sat32(fc.node_gap * (indices.len() - 1))
    };
    sat32(sum_sizes(nodes, indices, fc.direction, indices.len() as int) + gaps)
}

/// The span a row of nodes covers; see [`spec_minor_extent`].
pub fn minor_extent_for_indices(fc: &Flowchart, nodes: &Vec<LayoutNode>, indices: &Vec<usize>) -> (r: i32)
    requires
        forall|i: int| 0 <= i < indices@.len() ==> indices@[i] < nodes@.len(),
    ensures
        r == spec_minor_extent(*fc, nodes@, indices@),
{
    let mut sum: i32 = 0;
    let mut k: usize = 0;
    while k < indices.len()
        invariant
            k <= indices@.len(),
            forall|i: int| 0 <= i < indices@.len() ==> indices@[i] < nodes@.len(),
            sum == sum_sizes(nodes@, indices@, fc.direction, k as int),
        decreases indices@.len() - k,
    {
        let n = nodes[indices[k]];
        let size: i32 = match fc.direction {
            FlowDirection::TopDown | FlowDirection::BottomUp => n.width as i32,
            _ => n.height as i32,
        };
        sum = add_i32(sum, size);
        k = k + 1;
    }
    let count: i32 = if indices.len() == 0 {
        0
    } else if indices.len() - 1 > i32::MAX as usize {
        i32::MAX
    } else {
        (indices.len() - 1) as i32
    };
    let gaps: i32 = if indices.len() == 0 {
        0
    } else {
        proof {
            assert(0 <= fc.node_gap * count <= 65535 * 2147483647) by (nonlinear_arith)
                requires
                    0 <= fc.node_gap <= 65535,
                    0 <= count <= 2147483647;
        }
        let prod: i64 = fc.node_gap as i64 * count as i64;
        if prod > 2147483647 { 2147483647 } else { prod as i32 }
    };
    proof {
        if indices.len() > 0 {
            let m: int = indices@.len() - 1;
            if m > i32::MAX {
                if fc.node_gap == 0 {
                    assert(fc.node_gap * m == 0);
                    assert(fc.node_gap * count == 0);
                } else {
                    assert(fc.node_gap * m >= m) by (nonlinear_arith)
                        requires
                            fc.node_gap >= 1,
                            m >= 0;
                    assert(fc.node_gap * count >= count) by (nonlinear_arith)
                        requires
                            fc.node_gap >= 1,
                            count >= 0;
                }
            } else {
                assert(count == m);
            }
            assert(gaps == sat32(fc.node_gap * m));
        }
    }
    add_i32(sum, gaps)
}

/// Index positions of `pool` whose node lies in `layer`, in the order of
/// their position in the layer (ties keep pool order).
pub open spec fn spec_layered_group(nodes: Seq<LayoutNode>, pool: Seq<usize>, layer: int) -> Seq<usize>
    decreases pool.len(),
{
    if pool.len() == 0 {
        Seq::empty()
    } else {
        let g = spec_layered_group(nodes, pool.drop_last(), layer);
        let x = pool.last();
        if nodes[x as int].layer == layer {
            g.insert(order_pos(nodes, g, nodes[x as int].order as int, g.len() as int), x)
        } else {
            g
        }
    }
}

/// Where a node of position `order` goes among `g`: after every node whose
/// position is not larger.
pub open spec fn order_pos(nodes: Seq<LayoutNode>, g: Seq<usize>, order: int, k: int) -> int
    decreases k,
{
    if k <= 0 {
        0
    } else {
        let j = order_pos(nodes, g, order, k - 1);
        if j < k - 1 {
            j
        } else if order < nodes[g[k - 1] as int].order {
            k - 1
        } else {
            k
        }
    }
}

proof fn lemma_order_pos_stays(nodes: Seq<LayoutNode>, g: Seq<usize>, order: int, j: int, n: int)
    requires
        0 <= j <= n,
        order_pos(nodes, g, order, j) == j,
        j < n ==> order < nodes[g[j] as int].order,
    ensures
        order_pos(nodes, g, order, n) == j,
    decreases n - j,
{
    if j < n {
        lemma_order_pos_below(nodes, g, order, j, j + 1, n);
    }
}

proof fn lemma_order_pos_below(nodes: Seq<LayoutNode>, g: Seq<usize>, order: int, j: int, k: int, n: int)
    requires
        0 <= j < k <= n,
        order_pos(nodes, g, order, k) == j,
    ensures
        order_pos(nodes, g, order, n) == j,
    decreases n - k,
{
    if k < n {
        lemma_order_pos_below(nodes, g, order, j, k + 1, n);
    }
}

proof fn lemma_group_indices(nodes: Seq<LayoutNode>, pool: Seq<usize>, layer: int)
    requires
        forall|i: int| 0 <= i < pool.len() ==> pool[i] < nodes.len(),
    ensures
        forall|i: int|
            0 <= i < spec_layered_group(nodes, pool, layer).len() ==> spec_layered_group(nodes, pool, layer)[i]
                < nodes.len(),
        spec_layered_group(nodes, pool, layer).len() <= pool.len(),
    decreases pool.len(),
{
    if pool.len() > 0 {
        lemma_group_indices(nodes, pool.drop_last(), layer);
        let g = spec_layered_group(nodes, pool.drop_last(), layer);
        if nodes[pool.last() as int].layer == layer {
            let p = order_pos(nodes, g, nodes[pool.last() as int].order as int, g.len() as int);
            lemma_order_pos_range(nodes, g, nodes[pool.last() as int].order as int, g.len() as int);
            let h = g.insert(p, pool.last());
            assert forall|i: int| 0 <= i < h.len() implies h[i] < nodes.len() by {
                if i < p {
                    assert(h[i] == g[i]);
                } else if i > p {
                    assert(h[i] == g[i - 1]);
                }
            }
        }
    }
}

proof fn lemma_order_pos_range(nodes: Seq<LayoutNode>, g: Seq<usize>, order: int, k: int)
    requires
        k >= 0,
    ensures
        0 <= order_pos(nodes, g, order, k) <= k,
    decreases k,
{
    if k > 0 {
        lemma_order_pos_range(nodes, g, order, k - 1);
    }
}

/// The nodes of `pool` in `layer`, by position in the layer.
pub fn layered_group(nodes: &Vec<LayoutNode>, pool: &Vec<usize>, layer: usize) -> (r: Vec<usize>)
    requires
        forall|i: int| 0 <= i < pool@.len() ==> pool@[i] < nodes@.len(),
    ensures
        r@ == spec_layered_group(nodes@, pool@, layer as int),
{
    let mut g: Vec<usize> = Vec::new();
    let mut k: usize = 0;
    while k < pool.len()
        invariant
            k <= pool@.len(),
            forall|i: int| 0 <= i < pool@.len() ==> pool@[i] < nodes@.len(),
            g@ == spec_layered_group(nodes@, pool@.subrange(0, k as int), layer as int),
        decreases pool@.len() - k,
    {
        let x = pool[k];
        proof {
            assert(pool@.subrange(0, k + 1).drop_last() =~= pool@.subrange(0, k as int));
            assert(pool@.subrange(0, k + 1).last() == x);
        }
        if nodes[x].layer == layer {
            let order = nodes[x].order;
            let n = g.len();
            let mut j: usize = 0;
            proof {
                lemma_group_indices(nodes@, pool@.subrange(0, k as int), layer as int);
            }
            while j < n
                invariant
                    n == g@.len(),
                    j <= n,
                    forall|i: int| 0 <= i < g@.len() ==> g@[i] < nodes@.len(),
                    order_pos(nodes@, g@, order as int, j as int) == j,
                ensures
                    j <= n,
                    order_pos(nodes@, g@, order as int, j as int) == j,
                    j < n ==> order < nodes@[g@[j as int] as int].order,
                decreases n - j,
            {
                if order < nodes[g[j]].order {
                    break;
                }
                j = j + 1;
            }
            proof {
                lemma_order_pos_stays(nodes@, g@, order as int, j as int, n as int);
            }
            g.insert(j, x);
        }
        k = k + 1;
    }
    proof {
        assert(pool@.subrange(0, pool@.len() as int) =~= pool@);
    }
    g
}

/// The width a subgraph's header needs inside its padding and border:
/// the label's length plus two, less the padding and border added back
/// later; zero when there is no such subgraph.
pub open spec fn spec_header_floor(fc: Flowchart, id: Seq<char>) -> int {
    let i = crate::flowchart::subgraph_pos(fc.subgraphs@, id);
    if i < fc.subgraphs@.len() {
        let n: int = fc.subgraphs@[i].label@.len() as int + 2;
        let a = if n > usize::MAX { usize::MAX as int } else { n };
        let b = if a - fc.subgraph_padding.spec_horizontal() < 0 { 0 } else { a - fc.subgraph_padding.spec_horizontal() };
        let c = if b - 2 < 0 { 0 } else { b - 2 };
        (c as i32) as int
    } else {
        0
    }
}

/// The width a subgraph's header needs beyond the lane; see
/// [`spec_header_floor`].
pub fn subgraph_header_floor(fc: &Flowchart, id: &NodeId) -> (r: i32)
    ensures
        r == spec_header_floor(*fc, id.0@),
{
    let i = crate::flowchart::find_subgraph(&fc.subgraphs, id);
    if i < fc.subgraphs.len() {
        let n: usize = fc.subgraphs[i].label.as_str().unicode_len();
        let a: usize = if n > usize::MAX - 2 { usize::MAX } else { n + 2 };
        let h: usize = fc.subgraph_padding.horizontal() as usize;
        let b: usize = if a < h { 0 } else { a - h };
        let c: usize = if b < 2 { 0 } else { b - 2 };
        #[verifier::truncate]
        let t: i32 = c as i32;
        t
    } else {
        0
    }
}

/// Whether every layout node names a declared node.
pub open spec fn nodes_declared(fc: Flowchart, nodes: Seq<LayoutNode>) -> bool {
    forall|i: int| 0 <= i < nodes.len() ==> (#[trigger] nodes[i]).spec_index < fc.nodes@.len()
}

/// Indices (in order) of the first `k` layout nodes declared directly in
/// container `c`.
pub open spec fn spec_direct(fc: Flowchart, nodes: Seq<LayoutNode>, c: Option<NodeId>, k: int) -> Seq<usize>
    decreases k,
{
    if k <= 0 || k > nodes.len() {
        Seq::empty()
    } else {
        let d = spec_direct(fc, nodes, c, k - 1);
        if same_container(fc.nodes@[nodes[k - 1].spec_index as int].parent, c) {
            d.push((k - 1) as usize)
        } else {
            d
        }
    }
}

/// Identifiers (in declaration order) of the first `k` subgraphs whose
/// parent is `c`.
pub open spec fn spec_child_ids(sgs: Seq<FlowchartSubgraphSpec>, c: Option<NodeId>, k: int) -> Seq<NodeId>
    decreases k,
{
    if k <= 0 || k > sgs.len() {
        Seq::empty()
    } else {
        let d = spec_child_ids(sgs, c, k - 1);
        if same_container(sgs[k - 1].parent, c) {
            d.push(sgs[k - 1].id)
        } else {
            d
        }
    }
}

/// The span of the nodes of `pool` in `layer`.
pub open spec fn group_extent(fc: Flowchart, nodes: Seq<LayoutNode>, pool: Seq<usize>, layer: int) -> int {
    spec_minor_extent(fc, nodes, spec_layered_group(nodes, pool, layer))
}

/// The widest of the first `l` layers' spans (zero for none).
pub open spec fn lane_upto(fc: Flowchart, nodes: Seq<LayoutNode>, pool: Seq<usize>, l: int) -> int
    decreases l,
{
    if l <= 0 {
        0
    } else {
        let a = lane_upto(fc, nodes, pool, l - 1);
        let b = group_extent(fc, nodes, pool, l - 1);
        if b > a { b } else { a }
    }
}

/// Where the `k`-th node of a layer group starts, relative to the group.
pub open spec fn local_at(fc: Flowchart, nodes: Seq<LayoutNode>, group: Seq<usize>, k: int) -> int
    decreases k,
{
    if k <= 0 {
        0
    } else {
        sat32(sat32(local_at(fc, nodes, group, k - 1) + minor_size(nodes[group[k - 1] as int], fc.direction))
            + fc.node_gap)
    }
}

/// `offsets` after the first `k` nodes of `group` are placed from `start`.
pub open spec fn write_group(
    fc: Flowchart,
    nodes: Seq<LayoutNode>,
    group: Seq<usize>,
    start: int,
    offsets: Seq<i32>,
    k: int,
) -> Seq<i32>
    decreases k,
{
    if k <= 0 {
        offsets
    } else {
        write_group(fc, nodes, group, start, offsets, k - 1).update(
            group[k - 1] as int,
            sat32(start + local_at(fc, nodes, group, k - 1)) as i32,
        )
    }
}

/// `offsets` after the first `l` layers of `pool` are centred in a lane of
/// width `lane` starting at `cursor`.
pub open spec fn write_layers(
    fc: Flowchart,
    nodes: Seq<LayoutNode>,
    pool: Seq<usize>,
    cursor: int,
    lane: int,
    offsets: Seq<i32>,
    l: int,
) -> Seq<i32>
    decreases l,
{
    if l <= 0 {
        offsets
    } else {
        let o = write_layers(fc, nodes, pool, cursor, lane, offsets, l - 1);
        let g = spec_layered_group(nodes, pool, l - 1);
        if g.len() == 0 {
            o
        } else {
            let centering = sat32(lane - spec_minor_extent(fc, nodes, g)) / 2;
            write_group(fc, nodes, g, sat32(cursor + centering), o, g.len() as int)
        }
    }
}

/// Placing container `c` from `base`: its own nodes' lane first, then each
/// child subgraph's lanes, separated by the cluster gap. Gives the new
/// offsets and the cursor after the container. `fuel` bounds the nesting
/// depth that is followed.
pub open spec fn spec_place(
    fc: Flowchart,
    nodes: Seq<LayoutNode>,
    max_layer: int,
    c: Option<NodeId>,
    base: int,
    offsets: Seq<i32>,
    fuel: nat,
) -> (Seq<i32>, int)
    decreases fuel, 0int,
{
    if fuel == 0 {
        (offsets, base)
    } else {
        let direct = spec_direct(fc, nodes, c, nodes.len() as int);
        let lane = lane_upto(fc, nodes, direct, max_layer + 1);
        let o1 = if direct.len() == 0 {
            offsets
        } else {
            write_layers(fc, nodes, direct, base, lane, offsets, max_layer + 1)
        };
        let cursor = if direct.len() == 0 { base } else { sat32(base + lane) };
        let kids = spec_child_ids(fc.subgraphs@, c, fc.subgraphs@.len() as int);
        let r = spec_place_children(fc, nodes, max_layer, kids, kids.len() as int, o1, cursor, direct.len() > 0, (fuel - 1) as nat);
        (r.0, r.1)
    }
}

/// Placing the first `k` child subgraphs `kids` after `cursor`.
pub open spec fn spec_place_children(
    fc: Flowchart,
    nodes: Seq<LayoutNode>,
    max_layer: int,
    kids: Seq<NodeId>,
    k: int,
    offsets: Seq<i32>,
    cursor: int,
    placed: bool,
    fuel: nat,
) -> (Seq<i32>, int, bool)
    decreases fuel, k,
{
    if k <= 0 || k > kids.len() {
        (offsets, cursor, placed)
    } else {
        let prev = spec_place_children(fc, nodes, max_layer, kids, k - 1, offsets, cursor, placed, fuel);
        let start = if prev.2 { sat32(prev.1 + spec_cluster_gap(fc)) } else { prev.1 };
        let sub = spec_place(fc, nodes, max_layer, Some(kids[k - 1]), start, prev.0, fuel);
        let inner = sat32(sub.1 - start);
        let floor = spec_header_floor(fc, kids[k - 1].0@);
        let needed = if inner > floor { inner } else { floor };
        (sub.0, sat32(start + needed), true)
    }
}

proof fn lemma_direct_indices(fc: Flowchart, nodes: Seq<LayoutNode>, c: Option<NodeId>, k: int)
    ensures
        forall|i: int|
            0 <= i < spec_direct(fc, nodes, c, k).len() ==> (#[trigger] spec_direct(fc, nodes, c, k)[i]) < nodes.len(),
    decreases k,
{
    if k > 0 && k <= nodes.len() {
        lemma_direct_indices(fc, nodes, c, k - 1);
        let d = spec_direct(fc, nodes, c, k - 1);
        assert forall|i: int| 0 <= i < spec_direct(fc, nodes, c, k).len() implies (#[trigger] spec_direct(
            fc,
            nodes,
            c,
            k,
        )[i]) < nodes.len() by {
            if i < d.len() {
                assert(spec_direct(fc, nodes, c, k)[i] == d[i]);
            }
        }
    }
}

proof fn lemma_sum_sizes_nonneg(nodes: Seq<LayoutNode>, indices: Seq<usize>, d: FlowDirection, k: int)
    ensures
        0 <= sum_sizes(nodes, indices, d, k) <= i32::MAX,
    decreases k,
{
    if k > 0 && k <= indices.len() {
        lemma_sum_sizes_nonneg(nodes, indices, d, k - 1);
    }
}

proof fn lemma_extent_range(fc: Flowchart, nodes: Seq<LayoutNode>, indices: Seq<usize>)
    ensures
        0 <= spec_minor_extent(fc, nodes, indices) <= i32::MAX,
{
    lemma_sum_sizes_nonneg(nodes, indices, fc.direction, indices.len() as int);
    if indices.len() > 0 {
        assert(fc.node_gap * (indices.len() - 1) >= 0) by (nonlinear_arith)
            requires
                fc.node_gap >= 0,
                indices.len() >= 1;
    }
}

proof fn lemma_lane_bounds(fc: Flowchart, nodes: Seq<LayoutNode>, pool: Seq<usize>, l: int, n: int)
    requires
        0 <= l < n,
    ensures
        group_extent(fc, nodes, pool, l) <= lane_upto(fc, nodes, pool, n),
    decreases n,
{
    if l < n - 1 {
        lemma_lane_bounds(fc, nodes, pool, l, n - 1);
    }
}

proof fn lemma_lane_range(fc: Flowchart, nodes: Seq<LayoutNode>, pool: Seq<usize>, n: int)
    ensures
        0 <= lane_upto(fc, nodes, pool, n) <= i32::MAX,
    decreases n,
{
    if n > 0 {
        lemma_lane_range(fc, nodes, pool, n - 1);
        lemma_extent_range(fc, nodes, spec_layered_group(nodes, pool, n - 1));
    }
}

fn direct_indices(fc: &Flowchart, nodes: &Vec<LayoutNode>, c: &Option<NodeId>) -> (r: Vec<usize>)
    requires
        nodes_declared(*fc, nodes@),
    ensures
        r@ == spec_direct(*fc, nodes@, *c, nodes@.len() as int),
{
    let mut out: Vec<usize> = Vec::new();
    let mut k: usize = 0;
    while k < nodes.len()
        invariant
            k <= nodes@.len(),
            nodes_declared(*fc, nodes@),
            out@ == spec_direct(*fc, nodes@, *c, k as int),
        decreases nodes@.len() - k,
    {
        let si = nodes[k].spec_index;
        proof {
            assert(nodes@[k as int].spec_index < fc.nodes@.len());
        }
        if container_eq(&fc.nodes[si].parent, c) {
            out.push(k);
        }
        k = k + 1;
    }
    out
}

fn child_ids(fc: &Flowchart, c: &Option<NodeId>) -> (r: Vec<NodeId>)
    ensures
        r@ == spec_child_ids(fc.subgraphs@, *c, fc.subgraphs@.len() as int),
{
    let mut out: Vec<NodeId> = Vec::new();
    let mut k: usize = 0;
    while k < fc.subgraphs.len()
        invariant
            k <= fc.subgraphs@.len(),
            out@ == spec_child_ids(fc.subgraphs@, *c, k as int),
        decreases fc.subgraphs@.len() - k,
    {
        if container_eq(&fc.subgraphs[k].parent, c) {
            out.push(fc.subgraphs[k].id.copy());
        }
        k = k + 1;
    }
    out
}

fn lane_extent(fc: &Flowchart, nodes: &Vec<LayoutNode>, pool: &Vec<usize>, max_layer: usize) -> (r: i32)
    requires
        forall|i: int| 0 <= i < pool@.len() ==> pool@[i] < nodes@.len(),
    ensures
        r == lane_upto(*fc, nodes@, pool@, max_layer + 1),
{
    let mut lane: i32 = 0;
    let mut layer: usize = 0;
    loop
        invariant_except_break
            lane == lane_upto(*fc, nodes@, pool@, layer as int),
        invariant
            layer <= max_layer,
            forall|i: int| 0 <= i < pool@.len() ==> pool@[i] < nodes@.len(),
        ensures
            lane == lane_upto(*fc, nodes@, pool@, max_layer + 1),
        decreases max_layer - layer,
    {
        let group = layered_group(nodes, pool, layer);
        proof {
            lemma_group_indices(nodes@, pool@, layer as int);
        }
        let e = minor_extent_for_indices(fc, nodes, &group);
        if e > lane {
            lane = e;
        }
        if layer == max_layer {
            break;
        }
        layer = layer + 1;
    }
    lane
}

fn place_group(
    fc: &Flowchart,
    nodes: &Vec<LayoutNode>,
    group: &Vec<usize>,
    start: i32,
    offsets: &mut Vec<i32>,
)
    requires
        old(offsets)@.len() == nodes@.len(),
        forall|i: int| 0 <= i < group@.len() ==> group@[i] < nodes@.len(),
    ensures
        final(offsets)@ == write_group(*fc, nodes@, group@, start as int, old(offsets)@, group@.len() as int),
        final(offsets)@.len() == nodes@.len(),
{
    let ghost o0 = offsets@;
    let mut local: i32 = 0;
    let mut j: usize = 0;
    while j < group.len()
        invariant
            j <= group@.len(),
            offsets@.len() == nodes@.len(),
            forall|i: int| 0 <= i < group@.len() ==> group@[i] < nodes@.len(),
            offsets@ == write_group(*fc, nodes@, group@, start as int, o0, j as int),
            local == local_at(*fc, nodes@, group@, j as int),
        decreases group@.len() - j,
    {
        let idx = group[j];
        offsets.set(idx, add_i32(start, local));
        let n = nodes[idx];
        let size: i32 = match fc.direction {
            FlowDirection::TopDown | FlowDirection::BottomUp => n.width as i32,
            _ => n.height as i32,
        };
        local = add_i32(add_i32(local, size), fc.node_gap as i32);
        j = j + 1;
    }
}

fn place_layers(
    fc: &Flowchart,
    nodes: &Vec<LayoutNode>,
    pool: &Vec<usize>,
    max_layer: usize,
    cursor: i32,
    lane: i32,
    offsets: &mut Vec<i32>,
)
    requires
        old(offsets)@.len() == nodes@.len(),
        forall|i: int| 0 <= i < pool@.len() ==> pool@[i] < nodes@.len(),
        lane == lane_upto(*fc, nodes@, pool@, max_layer + 1),
    ensures
        final(offsets)@ == write_layers(*fc, nodes@, pool@, cursor as int, lane as int, old(offsets)@, max_layer + 1),
        final(offsets)@.len() == nodes@.len(),
{
    let ghost o0 = offsets@;
    let mut layer: usize = 0;
    loop
        invariant_except_break
            offsets@ == write_layers(*fc, nodes@, pool@, cursor as int, lane as int, o0, layer as int),
        invariant
            layer <= max_layer,
            forall|i: int| 0 <= i < pool@.len() ==> pool@[i] < nodes@.len(),
            lane == lane_upto(*fc, nodes@, pool@, max_layer + 1),
            offsets@.len() == nodes@.len(),
        ensures
            offsets@ == write_layers(*fc, nodes@, pool@, cursor as int, lane as int, o0, max_layer + 1),
        decreases max_layer - layer,
    {
        let group = layered_group(nodes, pool, layer);
        proof {
            lemma_group_indices(nodes@, pool@, layer as int);
        }
        if group.len() > 0 {
            let e = minor_extent_for_indices(fc, nodes, &group);
            proof {
                lemma_lane_bounds(*fc, nodes@, pool@, layer as int, max_layer + 1);
                lemma_extent_range(*fc, nodes@, group@);
            }
            let d = sub_i32(lane, e);
            let centering: i32 = (d as u32 / 2) as i32;
            let start = add_i32(cursor, centering);
            place_group(fc, nodes, &group, start, offsets);
        }
        if layer == max_layer {
            break;
        }
        layer = layer + 1;
    }
}

/// Places the nodes of container `c` (the diagram for `None`) and of its
/// subgraphs from `base` along the minor axis, writing each node's offset;
/// returns the cursor after the container.
pub fn place_container(
    fc: &Flowchart,
    nodes: &Vec<LayoutNode>,
    max_layer: usize,
    c: &Option<NodeId>,
    base: i32,
    offsets: &mut Vec<i32>,
    fuel: usize,
) -> (r: i32)
    requires
        old(offsets)@.len() == nodes@.len(),
        nodes_declared(*fc, nodes@),
    ensures
        final(offsets)@ == spec_place(*fc, nodes@, max_layer as int, *c, base as int, old(offsets)@, fuel as nat).0,
        r == spec_place(*fc, nodes@, max_layer as int, *c, base as int, old(offsets)@, fuel as nat).1,
        final(offsets)@.len() == nodes@.len(),
    decreases fuel,
{
    if fuel == 0 {
        return base;
    }
    let ghost o0 = offsets@;
    let direct = direct_indices(fc, nodes, c);
    proof {
        lemma_direct_indices(*fc, nodes@, *c, nodes@.len() as int);
    }
    let lane = lane_extent(fc, nodes, &direct, max_layer);
    let mut cursor = base;
    let mut placed = false;
    if direct.len() > 0 {
        place_layers(fc, nodes, &direct, max_layer, cursor, lane, offsets);
        cursor = add_i32(cursor, lane);
        placed = true;
    }
    let kids = child_ids(fc, c);
    let ghost o1 = offsets@;
    let ghost c1 = cursor as int;
    let ghost p1 = placed;
    let mut k: usize = 0;
    while k < kids.len()
        invariant
            k <= kids@.len(),
            fuel > 0,
            offsets@.len() == nodes@.len(),
            nodes_declared(*fc, nodes@),
            ({
                let r = spec_place_children(*fc, nodes@, max_layer as int, kids@, k as int, o1, c1, p1, (fuel - 1) as nat);
                offsets@ == r.0 && cursor == r.1 && placed == r.2
            }),
        decreases kids@.len() - k,
    {
        if placed {
            cursor = add_i32(cursor, cluster_gap(fc));
        }
        let inner_start = cursor;
        let sub_end = place_container(fc, nodes, max_layer, &Some(kids[k].copy()), inner_start, offsets, fuel - 1);
        let inner = sub_i32(sub_end, inner_start);
        let floor = subgraph_header_floor(fc, &kids[k]);
        let needed = if inner > floor { inner } else { floor };
        cursor = add_i32(inner_start, needed);
        placed = true;
        k = k + 1;
    }
    cursor
}

/// The offsets of every node along the minor axis, the whole diagram
/// placed from zero, and the total span; nesting is followed as deep as
/// there are subgraphs.
pub fn compute_node_offsets(fc: &Flowchart, nodes: &Vec<LayoutNode>, max_layer: usize) -> (r: (Vec<i32>, i32))
    requires
        nodes_declared(*fc, nodes@),
        fc.subgraphs@.len() < usize::MAX,
    ensures
        ({
            let p = spec_place(
                *fc,
                nodes@,
                max_layer as int,
                None,
                0,
                Seq::new(nodes@.len(), |i: int| 0i32),
                (fc.subgraphs@.len() + 1) as nat,
            );
            r.0@ == p.0 && r.1 == p.1
        }),
{
    let mut offsets: Vec<i32> = Vec::new();
    let mut k: usize = 0;
    while k < nodes.len()
        invariant
            k <= nodes@.len(),
            offsets@ == Seq::new(k as nat, |i: int| 0i32),
        decreases nodes@.len() - k,
    {
        offsets.push(0);
        proof {
            assert(offsets@ =~= Seq::new((k + 1) as nat, |i: int| 0i32));
        }
        k = k + 1;
    }
    let total = place_container(fc, nodes, max_layer, &None, 0, &mut offsets, fc.subgraphs.len() + 1);
    (offsets, total)
}

/// `v` clamped to the `i16` range.
pub fn clamp_i32_to_i16(v: i32) -> (r: i16)
    ensures
        r == (if v < i16::MIN { i16::MIN as int } else if v > i16::MAX { i16::MAX as int } else { v as int }),
{
    if v < -32768 {
        -32768
    } else if v > 32767 {
        32767
    } else {
        v as i16
    }
}

/// The exact sum of the first `k` sizes of `g`.
pub open spec fn exact_sum(nodes: Seq<LayoutNode>, g: Seq<usize>, d: FlowDirection, k: int) -> int
    decreases k,
{
    if k <= 0 {
        0
    } else {
        exact_sum(nodes, g, d, k - 1) + minor_size(nodes[g[k - 1] as int], d)
    }
}

proof fn lemma_minor_size_range(n: LayoutNode, d: FlowDirection)
    ensures
        0 <= minor_size(n, d) <= u16::MAX,
{
}

proof fn lemma_exact_sum_mono(nodes: Seq<LayoutNode>, g: Seq<usize>, d: FlowDirection, j: int, k: int)
    requires
        0 <= j <= k,
    ensures
        0 <= exact_sum(nodes, g, d, j) <= exact_sum(nodes, g, d, k),
    decreases k,
{
    if k > 0 {
        lemma_minor_size_range(nodes[g[k - 1] as int], d);
        if j < k {
            lemma_exact_sum_mono(nodes, g, d, j, k - 1);
        } else {
            lemma_exact_sum_mono(nodes, g, d, 0, k - 1);
        }
    }
}

proof fn lemma_sum_sizes_exact(nodes: Seq<LayoutNode>, g: Seq<usize>, d: FlowDirection, k: int)
    requires
        0 <= k <= g.len(),
    ensures
        sum_sizes(nodes, g, d, k) == (if exact_sum(nodes, g, d, k) > i32::MAX { i32::MAX as int } else { exact_sum(
            nodes,
            g,
            d,
            k,
        ) }),
    decreases k,
{
    if k > 0 {
        lemma_sum_sizes_exact(nodes, g, d, k - 1);
        lemma_exact_sum_mono(nodes, g, d, 0, k - 1);
        lemma_minor_size_range(nodes[g[k - 1] as int], d);
    }
}

proof fn lemma_local_exact(fc: Flowchart, nodes: Seq<LayoutNode>, g: Seq<usize>, k: int)
    requires
        0 <= k <= g.len(),
    ensures
        local_at(fc, nodes, g, k) == (if exact_sum(nodes, g, fc.direction, k) + k * fc.node_gap > i32::MAX {
            i32::MAX as int
        } else {
            exact_sum(nodes, g, fc.direction, k) + k * fc.node_gap
        }),
    decreases k,
{
    if k > 0 {
        lemma_local_exact(fc, nodes, g, k - 1);
        lemma_exact_sum_mono(nodes, g, fc.direction, 0, k - 1);
        let size = minor_size(nodes[g[k - 1] as int], fc.direction);
        lemma_minor_size_range(nodes[g[k - 1] as int], fc.direction);
        let gap = fc.node_gap as int;
        assert((k - 1) * gap + gap == k * gap) by (nonlinear_arith);
        assert((k - 1) * gap >= 0) by (nonlinear_arith)
            requires
                k >= 1,
                gap >= 0;
        let a = exact_sum(nodes, g, fc.direction, k - 1) + (k - 1) * gap;
        assert(exact_sum(nodes, g, fc.direction, k) + k * gap == a + size + gap);
    } else {
        assert(k * fc.node_gap == 0) by (nonlinear_arith)
            requires
                k == 0;
    }
}

/// Within an unsaturated row, each node ends no later than the row does.
proof fn lemma_row_member_fits(fc: Flowchart, nodes: Seq<LayoutNode>, g: Seq<usize>, k: int)
    requires
        0 <= k < g.len(),
        spec_minor_extent(fc, nodes, g) < i32::MAX,
    ensures
        0 <= local_at(fc, nodes, g, k),
        local_at(fc, nodes, g, k) + minor_size(nodes[g[k] as int], fc.direction) <= spec_minor_extent(fc, nodes, g),
{
    let d = fc.direction;
    let n = g.len() as int;
    lemma_sum_sizes_exact(nodes, g, d, n);
    lemma_local_exact(fc, nodes, g, k);
    lemma_exact_sum_mono(nodes, g, d, k + 1, n);
    lemma_exact_sum_mono(nodes, g, d, 0, k);
    assert(fc.node_gap * (n - 1) >= 0) by (nonlinear_arith)
        requires
            n >= 1,
            fc.node_gap >= 0;
    assert(k * fc.node_gap <= fc.node_gap * (n - 1)) by (nonlinear_arith)
        requires
            0 <= k <= n - 1,
            fc.node_gap >= 0;
    assert(k * fc.node_gap >= 0) by (nonlinear_arith)
        requires
            0 <= k,
            fc.node_gap >= 0;
}

/// Either unchanged from `o`, or inside the lane `[lo, hi)`.
pub open spec fn kept_or_within(
    nodes: Seq<LayoutNode>,
    d: FlowDirection,
    o: Seq<i32>,
    r: Seq<i32>,
    lo: int,
    hi: int,
) -> bool {
    &&& r.len() == o.len()
    &&& forall|i: int|
        0 <= i < r.len() ==> #[trigger] r[i] == o[i] || (lo <= r[i] && r[i] + minor_size(nodes[i], d) <= hi)
}

/// Either unchanged from `o`, or at least `lo`.
pub open spec fn kept_or_after(o: Seq<i32>, r: Seq<i32>, lo: int) -> bool {
    &&& r.len() == o.len()
    &&& forall|i: int| 0 <= i < r.len() ==> #[trigger] r[i] == o[i] || r[i] >= lo
}

proof fn lemma_write_group_within(
    fc: Flowchart,
    nodes: Seq<LayoutNode>,
    g: Seq<usize>,
    start: int,
    offsets: Seq<i32>,
    k: int,
)
    requires
        0 <= k <= g.len(),
        offsets.len() == nodes.len(),
        forall|i: int| 0 <= i < g.len() ==> g[i] < nodes.len(),
        0 <= start,
        start + spec_minor_extent(fc, nodes, g) < i32::MAX,
    ensures
        kept_or_within(
            nodes,
            fc.direction,
            offsets,
            write_group(fc, nodes, g, start, offsets, k),
            start,
            start + spec_minor_extent(fc, nodes, g),
        ),
    decreases k,
{
    if k > 0 {
        lemma_write_group_within(fc, nodes, g, start, offsets, k - 1);
        lemma_extent_range(fc, nodes, g);
        lemma_row_member_fits(fc, nodes, g, k - 1);
    }
}

proof fn lemma_write_group_after(
    fc: Flowchart,
    nodes: Seq<LayoutNode>,
    g: Seq<usize>,
    start: int,
    offsets: Seq<i32>,
    k: int,
)
    requires
        0 <= k <= g.len(),
        forall|i: int| 0 <= i < g.len() ==> g[i] < offsets.len(),
        0 <= start <= i32::MAX,
    ensures
        kept_or_after(offsets, write_group(fc, nodes, g, start, offsets, k), start),
    decreases k,
{
    if k > 0 {
        lemma_write_group_after(fc, nodes, g, start, offsets, k - 1);
        lemma_local_exact(fc, nodes, g, k - 1);
        lemma_exact_sum_mono(nodes, g, fc.direction, 0, k - 1);
        assert((k - 1) * fc.node_gap >= 0) by (nonlinear_arith)
            requires
                k >= 1,
                fc.node_gap >= 0;
    }
}

proof fn lemma_write_layers_bounds(
    fc: Flowchart,
    nodes: Seq<LayoutNode>,
    pool: Seq<usize>,
    cursor: int,
    lane: int,
    offsets: Seq<i32>,
    l: int,
    max_layer: int,
)
    requires
        0 <= l <= max_layer + 1,
        offsets.len() == nodes.len(),
        forall|i: int| 0 <= i < pool.len() ==> pool[i] < nodes.len(),
        lane == lane_upto(fc, nodes, pool, max_layer + 1),
        0 <= cursor <= i32::MAX,
    ensures
        kept_or_after(offsets, write_layers(fc, nodes, pool, cursor, lane, offsets, l), cursor),
        cursor + lane < i32::MAX ==> kept_or_within(
            nodes,
            fc.direction,
            offsets,
            write_layers(fc, nodes, pool, cursor, lane, offsets, l),
            cursor,
            cursor + lane,
        ),
    decreases l,
{
    if l > 0 {
        lemma_write_layers_bounds(fc, nodes, pool, cursor, lane, offsets, l - 1, max_layer);
        let o = write_layers(fc, nodes, pool, cursor, lane, offsets, l - 1);
        let g = spec_layered_group(nodes, pool, l - 1);
        if g.len() > 0 {
            lemma_group_indices(nodes, pool, l - 1);
            lemma_lane_bounds(fc, nodes, pool, l - 1, max_layer + 1);
            lemma_lane_range(fc, nodes, pool, max_layer + 1);
            lemma_extent_range(fc, nodes, g);
            let ge = spec_minor_extent(fc, nodes, g);
            let centering = sat32(lane - ge) / 2;
            let start = sat32(cursor + centering);
            assert(0 <= centering <= lane - ge);
            lemma_write_group_after(fc, nodes, g, start, o, g.len() as int);
            if cursor + lane < i32::MAX {
                lemma_write_group_within(fc, nodes, g, start, o, g.len() as int);
            }
        }
    }
}

pub(crate) proof fn lemma_place_bounds(
    fc: Flowchart,
    nodes: Seq<LayoutNode>,
    max_layer: int,
    c: Option<NodeId>,
    base: int,
    offsets: Seq<i32>,
    fuel: nat,
)
    requires
        0 <= base <= i32::MAX,
        max_layer >= 0,
        offsets.len() == nodes.len(),
        nodes_declared(fc, nodes),
    ensures
        base <= spec_place(fc, nodes, max_layer, c, base, offsets, fuel).1 <= i32::MAX,
        kept_or_after(offsets, spec_place(fc, nodes, max_layer, c, base, offsets, fuel).0, base),
    decreases fuel, 0int,
{
    if fuel > 0 {
        let direct = spec_direct(fc, nodes, c, nodes.len() as int);
        lemma_direct_indices(fc, nodes, c, nodes.len() as int);
        let lane = lane_upto(fc, nodes, direct, max_layer + 1);
        lemma_lane_range(fc, nodes, direct, max_layer + 1);
        let o1 = if direct.len() == 0 {
            offsets
        } else {
            write_layers(fc, nodes, direct, base, lane, offsets, max_layer + 1)
        };
        if direct.len() > 0 {
            lemma_write_layers_bounds(fc, nodes, direct, base, lane, offsets, max_layer + 1, max_layer);
        }
        let cursor = if direct.len() == 0 { base } else { sat32(base + lane) };
        let kids = spec_child_ids(fc.subgraphs@, c, fc.subgraphs@.len() as int);
        lemma_children_bounds(fc, nodes, max_layer, kids, kids.len() as int, o1, cursor, direct.len() > 0, (fuel - 1) as nat);
    }
}

proof fn lemma_children_bounds(
    fc: Flowchart,
    nodes: Seq<LayoutNode>,
    max_layer: int,
    kids: Seq<NodeId>,
    k: int,
    offsets: Seq<i32>,
    cursor: int,
    placed: bool,
    fuel: nat,
)
    requires
        0 <= cursor <= i32::MAX,
        max_layer >= 0,
        offsets.len() == nodes.len(),
        nodes_declared(fc, nodes),
    ensures
        ({
            let r = spec_place_children(fc, nodes, max_layer, kids, k, offsets, cursor, placed, fuel);
            let first = if placed { sat32(cursor + spec_cluster_gap(fc)) } else { cursor };
            &&& cursor <= r.1 <= i32::MAX
            &&& kept_or_after(offsets, r.0, first)
            &&& r.2 == (placed || (0 < k <= kids.len()))
        }),
    decreases fuel, k,
{
    if 0 < k <= kids.len() {
        lemma_children_bounds(fc, nodes, max_layer, kids, k - 1, offsets, cursor, placed, fuel);
        let prev = spec_place_children(fc, nodes, max_layer, kids, k - 1, offsets, cursor, placed, fuel);
        let start = if prev.2 { sat32(prev.1 + spec_cluster_gap(fc)) } else { prev.1 };
        lemma_place_bounds(fc, nodes, max_layer, Some(kids[k - 1]), start, prev.0, fuel);
        let sub = spec_place(fc, nodes, max_layer, Some(kids[k - 1]), start, prev.0, fuel);
        let first = if placed { sat32(cursor + spec_cluster_gap(fc)) } else { cursor };
        assert(start >= first);
        assert(kept_or_after(offsets, sub.0, first)) by {
            assert forall|i: int| 0 <= i < sub.0.len() implies #[trigger] sub.0[i] == offsets[i] || sub.0[i] >= first by {
                assert(sub.0[i] == prev.0[i] || sub.0[i] >= start);
                assert(prev.0[i] == offsets[i] || prev.0[i] >= first);
            }
        }
    }
}

/// Lanes never mix: placing a container from `base` (and nothing
/// saturating) leaves every node either where it was, or inside the
/// container's own lane `[base, base + lane)` with its whole size, or at or
/// beyond the start of the child subgraphs' lanes, which begin a cluster
/// gap after the container's own lane (at `base` when the container has no
/// nodes of its own).
pub proof fn lemma_lanes_separate(
    fc: Flowchart,
    nodes: Seq<LayoutNode>,
    max_layer: int,
    c: Option<NodeId>,
    base: int,
    offsets: Seq<i32>,
    fuel: nat,
)
    requires
        max_layer >= 0,
        offsets.len() == nodes.len(),
        nodes_declared(fc, nodes),
        0 <= base,
        base + lane_upto(fc, nodes, spec_direct(fc, nodes, c, nodes.len() as int), max_layer + 1) + spec_cluster_gap(fc)
            < i32::MAX,
        fuel > 0,
    ensures
        ({
            let direct = spec_direct(fc, nodes, c, nodes.len() as int);
            let lane = lane_upto(fc, nodes, direct, max_layer + 1);
            let kids_start = if direct.len() > 0 { base + lane + spec_cluster_gap(fc) } else { base };
            let r = spec_place(fc, nodes, max_layer, c, base, offsets, fuel).0;
            &&& r.len() == offsets.len()
            &&& forall|i: int|
                0 <= i < r.len() ==> #[trigger] r[i] == offsets[i] || (base <= r[i] && r[i] + minor_size(
                    nodes[i],
                    fc.direction,
                ) <= base + lane) || r[i] >= kids_start
        }),
{
    let direct = spec_direct(fc, nodes, c, nodes.len() as int);
    lemma_direct_indices(fc, nodes, c, nodes.len() as int);
    let lane = lane_upto(fc, nodes, direct, max_layer + 1);
    lemma_lane_range(fc, nodes, direct, max_layer + 1);
    let o1 = if direct.len() == 0 {
        offsets
    } else {
        write_layers(fc, nodes, direct, base, lane, offsets, max_layer + 1)
    };
    if direct.len() > 0 {
        lemma_write_layers_bounds(fc, nodes, direct, base, lane, offsets, max_layer + 1, max_layer);
    }
    let cursor = if direct.len() == 0 { base } else { sat32(base + lane) };
    let kids = spec_child_ids(fc.subgraphs@, c, fc.subgraphs@.len() as int);
    lemma_children_bounds(fc, nodes, max_layer, kids, kids.len() as int, o1, cursor, direct.len() > 0, (fuel - 1) as nat);
}

} // verus!
