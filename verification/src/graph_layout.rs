//! Tree layout of a graph: node sizes, layered positions, elbow edges, and
//! the normalised output the widget draws.

use vstd::prelude::*;

use crate::graph::{Graph, GraphDirection, GraphNode, GraphNodePath};
use crate::style::{sat_add_u16, BorderStyle, Padding, Rect, Style};
use crate::file_tree::StyleSlot;
use crate::width::{display_width, str_width};
use crate::wrap::{spec_wrap_label, strings_view, wrap_label};

verus! {

/// Whether a node has a border: its own choice, else the graph's default.
pub open spec fn node_has_border(node: GraphNode, g: Graph) -> bool {
    match node.border {
        Some(b) => b,
        None => g.node_border,
    }
}

/// A node's label lines, wrapped to the graph's widest line.
pub open spec fn node_lines(node: GraphNode, g: Graph) -> Seq<Seq<char>> {
    spec_wrap_label(node.label@, g.max_node_width as int)
}

/// `min(v, u16::MAX)`.
pub open spec fn cap_u16(v: int) -> int {
    if v > u16::MAX { u16::MAX as int } else { v }
}

/// The widest of the first `k` lines, each width capped at `u16::MAX`.
pub open spec fn widest(lines: Seq<Seq<char>>, k: int) -> int
    decreases k,
{
    if k <= 0 {
        0
    } else {
        let w = cap_u16(display_width(lines[k - 1]) as int);
        let m = widest(lines, k - 1);
        if w > m { w } else { m }
    }
}

/// A node's size: its label (at least one cell wide and one line tall) with
/// the node padding, and the border when drawn.
pub open spec fn spec_node_dims(node: GraphNode, g: Graph) -> (int, int) {
    let lines = node_lines(node, g);
    let lw = widest(lines, lines.len() as int);
    let lh = cap_u16(if lines.len() < 1 { 1 } else { lines.len() as int });
    let w0 = sat_add_u16(lw, g.node_padding.spec_horizontal());
    let w1 = if w0 < 1 { 1 } else { w0 };
    let h1 = sat_add_u16(lh, g.node_padding.spec_vertical());
    if node_has_border(node, g) {
        (sat_add_u16(w1, 2), sat_add_u16(h1, 2))
    } else {
        (w1, h1)
    }
}

proof fn lemma_widest_range(lines: Seq<Seq<char>>, k: int)
    ensures
        0 <= widest(lines, k) <= u16::MAX,
    decreases k,
{
    if k > 0 {
        lemma_widest_range(lines, k - 1);
    }
}

/// A node's size and label lines; see [`spec_node_dims`].
pub fn node_size(node: &GraphNode, graph: &Graph) -> (r: (u16, u16, Vec<String>))
    ensures
        r.0 == spec_node_dims(*node, *graph).0,
        r.1 == spec_node_dims(*node, *graph).1,
        strings_view(r.2@) == node_lines(*node, *graph),
{
    let border = match node.border {
        Some(b) => b,
        None => graph.node_border,
    };
    let lines = wrap_label(node.label.as_str(), graph.max_node_width);
    let mut lw: u16 = 0;
    let mut i: usize = 0;
    while i < lines.len()
        invariant
            i <= lines@.len(),
            lw == widest(strings_view(lines@), i as int),
        decreases lines@.len() - i,
    {
        proof {
            lemma_widest_range(strings_view(lines@), i as int);
        }
        let w = str_width(lines[i].as_str());
        let wc: u16 = if w > 65535 { 65535 } else { w as u16 };
        assert(strings_view(lines@)[i as int] == lines@[i as int]@);
        if wc > lw {
            lw = wc;
        }
        i = i + 1;
    }
    let lh: u16 = if lines.len() < 1 { 1 } else if lines.len() > 65535 { 65535 } else { lines.len() as u16 };
    let w0 = lw.saturating_add(graph.node_padding.horizontal());
    let mut width: u16 = if w0 < 1 { 1 } else { w0 };
    let mut height: u16 = lh.saturating_add(graph.node_padding.vertical());
    if border {
        width = width.saturating_add(2);
        height = height.saturating_add(2);
    }
    (width, height, lines)
}

/// The largest node width and height in a subtree.
pub open spec fn tree_max(node: GraphNode, g: Graph) -> (int, int)
    decreases node, 0int,
{
    let (w, h) = spec_node_dims(node, g);
    let (cw, ch) = children_max(node.children@, g, node.children@.len() as int);
    (if w > cw { w } else { cw }, if h > ch { h } else { ch })
}

/// The largest node width and height among the first `k` subtrees.
pub open spec fn children_max(children: Seq<GraphNode>, g: Graph, k: int) -> (int, int)
    decreases children, k,
{
    if k <= 0 || k > children.len() {
        (0, 0)
    } else {
        let (w, h) = children_max(children, g, k - 1);
        let (cw, ch) = tree_max(children[k - 1], g);
        (if w > cw { w } else { cw }, if h > ch { h } else { ch })
    }
}

/// The largest node width and height seen so far.
#[derive(Clone, Copy, Debug)]
pub struct Metrics {
    pub max_width: u16,
    pub max_height: u16,
}

/// Raises `metrics` to cover every node of the subtree at `node`.
fn visit_metrics(node: &GraphNode, graph: &Graph, metrics: &mut Metrics)
    ensures
        final(metrics).max_width as int == (if old(metrics).max_width >= tree_max(*node, *graph).0 {
            old(metrics).max_width as int
        } else {
            tree_max(*node, *graph).0
        }),
        final(metrics).max_height as int == (if old(metrics).max_height >= tree_max(*node, *graph).1 {
            old(metrics).max_height as int
        } else {
            tree_max(*node, *graph).1
        }),
    decreases node, 0int,
{
    let (w, h, _) = node_size(node, graph);
    let ghost m0 = *metrics;
    if w > metrics.max_width {
        metrics.max_width = w;
    }
    if h > metrics.max_height {
        metrics.max_height = h;
    }
    let ghost m1 = *metrics;
    let mut i: usize = 0;
    while i < node.children.len()
        invariant
            i <= node.children@.len(),
            metrics.max_width as int == (if m1.max_width >= children_max(node.children@, *graph, i as int).0 {
                m1.max_width as int
            } else {
                children_max(node.children@, *graph, i as int).0
            }),
            metrics.max_height as int == (if m1.max_height >= children_max(node.children@, *graph, i as int).1 {
                m1.max_height as int
            } else {
                children_max(node.children@, *graph, i as int).1
            }),
        decreases node.children@.len() - i,
    {
        visit_metrics(&node.children[i], graph, metrics);
        i = i + 1;
    }
}

/// The metrics of a whole tree.
pub fn metrics_from_root(root: &GraphNode, graph: &Graph) -> (r: Metrics)
    ensures
        r.max_width == tree_max(*root, *graph).0,
        r.max_height == tree_max(*root, *graph).1,
{
    let mut m = Metrics { max_width: 0, max_height: 0 };
    visit_metrics(root, graph, &mut m);
    m
}


/// `v` clamped to the `i32` range.
pub open spec fn sat_i32(v: int) -> int {
    if v > i32::MAX { i32::MAX as int } else if v < i32::MIN { i32::MIN as int } else { v }
}

/// Half of `v`, rounded toward zero.
pub open spec fn tdiv2(v: int) -> int {
    if v >= 0 { v / 2 } else { -((-v) / 2) }
}

/// A laid-out node: its position along the sibling and depth axes, its size,
/// its parent's index in the preorder list, its path and the node itself.
pub struct FlatSpec {
    pub sib: int,
    pub depth: int,
    pub w: int,
    pub h: int,
    pub parent: Option<int>,
    pub path: Seq<usize>,
    pub node: GraphNode,
}

/// `(sibling size, sibling gap, depth size, depth gap)` of a node.
pub open spec fn axis_sizes(w: int, h: int, g: Graph, m: Metrics) -> (int, int, int, int) {
    match g.direction {
        GraphDirection::TopDown => (w, g.gap_x as int, m.max_height as int, g.gap_y as int),
        GraphDirection::LeftRight => (h, g.gap_y as int, m.max_width as int, g.gap_x as int),
    }
}

/// Every entry of a list moved `d` along the sibling axis.
pub open spec fn shift_list(l: Seq<FlatSpec>, d: int) -> Seq<FlatSpec> {
    Seq::new(l.len(), |i: int| FlatSpec { sib: sat_i32(l[i].sib + d), ..l[i] })
}

/// A subtree's preorder list and bounds, given its children's layout `ch`
/// (entries, next cursor, lowest and highest bound): the parent centred over
/// its children (at `cursor` when it has none), and the whole subtree moved
/// forward when it would start before `cursor`.
pub open spec fn layout_of(
    node: GraphNode,
    g: Graph,
    m: Metrics,
    depth: int,
    cursor: int,
    path: Seq<usize>,
    parent: Option<int>,
    ch: (Seq<FlatSpec>, int, int, int),
) -> (Seq<FlatSpec>, int, int) {
    let (w, h) = spec_node_dims(node, g);
    let (ss, sg, ds, dg) = axis_sizes(w, h, g, m);
    let depth_pos = sat_i32(depth * sat_add_u16(ds, dg));
    let k = node.children@.len() as int;
    let (cl, _c, cmin, cmax) = ch;
    let sib = if k == 0 { cursor } else { sat_i32(tdiv2(sat_i32(cmin + cmax)) - ss / 2) };
    let me = FlatSpec { sib, depth: depth_pos, w, h, parent, path, node };
    let list = seq![me] + cl;
    let lo0 = if cmin == i32::MAX { sib } else { cmin };
    let lo = if lo0 < sib { lo0 } else { sib };
    let end = sat_i32(sib + ss);
    let hi0 = if cmax == i32::MIN { end } else { cmax };
    let hi = if hi0 > end { hi0 } else { end };
    if lo < cursor {
        let d = sat_i32(cursor - lo);
        (shift_list(list, d), sat_i32(lo + d), sat_i32(hi + d))
    } else {
        (list, lo, hi)
    }
}

/// The preorder list of a subtree laid out from `cursor` along the sibling
/// axis, with its sibling-axis bounds: children side by side (each subtree
/// after the previous one's far bound and the sibling gap), the parent
/// centred over them, and the whole subtree moved forward when it would
/// start before `cursor`. Entry indices start at `base`.
pub open spec fn spec_layout(
    node: GraphNode,
    g: Graph,
    m: Metrics,
    depth: int,
    cursor: int,
    base: int,
    path: Seq<usize>,
    parent: Option<int>,
) -> (Seq<FlatSpec>, int, int)
    decreases node, 0int,
{
    let (w, h) = spec_node_dims(node, g);
    let sg = axis_sizes(w, h, g, m).1;
    layout_of(
        node,
        g,
        m,
        depth,
        cursor,
        path,
        parent,
        layout_children(
            node.children@,
            g,
            m,
            cap_u16(depth + 1),
            cursor,
            base + 1,
            path,
            base,
            sg,
            node.children@.len() as int,
        ),
    )
}

/// The first `k` children's subtrees laid out side by side from `cursor`:
/// their entries, the next cursor, and their lowest and highest bounds.
pub open spec fn layout_children(
    children: Seq<GraphNode>,
    g: Graph,
    m: Metrics,
    depth: int,
    cursor: int,
    base: int,
    path: Seq<usize>,
    parent: int,
    sg: int,
    k: int,
) -> (Seq<FlatSpec>, int, int, int)
    decreases children, k,
{
    if k <= 0 || k > children.len() {
        (Seq::empty(), cursor, i32::MAX as int, i32::MIN as int)
    } else {
        let (l, c, mn, mx) = layout_children(children, g, m, depth, cursor, base, path, parent, sg, k - 1);
        let (sl, bmn, bmx) = spec_layout(
            children[k - 1],
            g,
            m,
            depth,
            c,
            base + l.len(),
            path.push((k - 1) as usize),
            Some(parent),
        );
        (l + sl, sat_i32(bmx + sg), if bmn < mn { bmn } else { mn }, if bmx > mx { bmx } else { mx })
    }
}

proof fn lemma_layout_unfold(
    node: GraphNode,
    g: Graph,
    m: Metrics,
    depth: int,
    cursor: int,
    base: int,
    path: Seq<usize>,
    parent: Option<int>,
)
    ensures
        spec_layout(node, g, m, depth, cursor, base, path, parent) == layout_of(
            node,
            g,
            m,
            depth,
            cursor,
            path,
            parent,
            layout_children(
                node.children@,
                g,
                m,
                cap_u16(depth + 1),
                cursor,
                base + 1,
                path,
                base,
                axis_sizes(spec_node_dims(node, g).0, spec_node_dims(node, g).1, g, m).1,
                node.children@.len() as int,
            ),
        ),
{
}

proof fn lemma_children_zero(
    children: Seq<GraphNode>,
    g: Graph,
    m: Metrics,
    depth: int,
    cursor: int,
    base: int,
    path: Seq<usize>,
    parent: int,
    sg: int,
)
    ensures
        layout_children(children, g, m, depth, cursor, base, path, parent, sg, 0) == (
            Seq::<FlatSpec>::empty(),
            cursor,
            i32::MAX as int,
            i32::MIN as int,
        ),
{
}

proof fn lemma_children_step(
    children: Seq<GraphNode>,
    g: Graph,
    m: Metrics,
    depth: int,
    cursor: int,
    base: int,
    path: Seq<usize>,
    parent: int,
    sg: int,
    k: int,
)
    requires
        0 < k <= children.len(),
    ensures
        ({
            let (l, c, mn, mx) = layout_children(children, g, m, depth, cursor, base, path, parent, sg, k - 1);
            let (sl, bmn, bmx) = spec_layout(
                children[k - 1],
                g,
                m,
                depth,
                c,
                base + l.len(),
                path.push((k - 1) as usize),
                Some(parent),
            );
            layout_children(children, g, m, depth, cursor, base, path, parent, sg, k) == (
                l + sl,
                sat_i32(bmx + sg),
                if bmn < mn { bmn } else { mn },
                if bmx > mx { bmx } else { mx },
            )
        }),
{
}

/// What a laid-out node carries besides its sibling-axis position.
#[derive(Debug)]
pub struct FlatInfo {
    pub depth_pos: i32,
    pub width: u16,
    pub height: u16,
    pub parent: Option<usize>,
    pub path: Vec<usize>,
    pub label: String,
    pub label_lines: Vec<String>,
    pub style: Style,
    pub hover_style: Style,
    pub focus_style: StyleSlot,
    pub border: bool,
}

/// The view of an optional index.
pub open spec fn opt_int(o: Option<usize>) -> Option<int> {
    match o {
        Some(v) => Some(v as int),
        None => None,
    }
}

/// An entry's exec data agrees with its laid-out node.
pub open spec fn info_matches(f: FlatInfo, s: FlatSpec, g: Graph) -> bool {
    &&& f.depth_pos == s.depth
    &&& f.width == s.w
    &&& f.height == s.h
    &&& opt_int(f.parent) == s.parent
    &&& f.path@ == s.path
    &&& f.label@ == s.node.label@
    &&& strings_view(f.label_lines@) == node_lines(s.node, g)
    &&& f.style == s.node.style
    &&& f.hover_style == s.node.hover_style
    &&& f.focus_style == s.node.focus_style
    &&& f.border == node_has_border(s.node, g)
}

fn sat_i32_exec(v: i64) -> (r: i32)
    ensures
        r == sat_i32(v as int),
{
    if v > i32::MAX as i64 {
        i32::MAX
    } else if v < i32::MIN as i64 {
        i32::MIN
    } else {
        v as i32
    }
}

/// Moves the entries from `base` on by `d` along the sibling axis.
fn shift_from(sibs: &mut Vec<i32>, base: usize, d: i32)
    requires
        base <= old(sibs)@.len(),
    ensures
        final(sibs)@.len() == old(sibs)@.len(),
        forall|t: int| 0 <= t < base ==> final(sibs)@[t] == old(sibs)@[t],
        forall|t: int| base <= t < old(sibs)@.len() ==> final(sibs)@[t] == sat_i32(old(sibs)@[t] + d),
{
    let ghost unshifted = sibs@;
    let mut j: usize = base;
    while j < sibs.len()
        invariant
            base <= j <= sibs@.len(),
            sibs@.len() == unshifted.len(),
            forall|t: int| 0 <= t < base ==> sibs@[t] == unshifted[t],
            forall|t: int| base <= t < j ==> sibs@[t] == sat_i32(unshifted[t] + d),
            forall|t: int| j <= t < sibs@.len() ==> sibs@[t] == unshifted[t],
        decreases sibs@.len() - j,
    {
        let v = sibs[j];
        sibs.set(j, sat_i32_exec(v as i64 + d as i64));
        j = j + 1;
    }
}

/// The first `n` elements of `s2` are those of `s`.
pub open spec fn keeps<T>(s2: Seq<T>, s: Seq<T>, n: int) -> bool {
    n <= s2.len() && n <= s.len() && forall|t: int| 0 <= t < n ==> #[trigger] s2[t] == s[t]
}

/// The entries from `start` on match `l`, in order.
pub open spec fn entries_match(sibs: Seq<i32>, infos: Seq<FlatInfo>, start: int, l: Seq<FlatSpec>, g: Graph) -> bool {
    forall|k: int| 0 <= k < l.len() ==> sibs[start + k] == (#[trigger] l[k]).sib && info_matches(infos[start + k], l[k], g)
}

proof fn lemma_entries_concat(sibs: Seq<i32>, infos: Seq<FlatInfo>, start: int, a: Seq<FlatSpec>, b: Seq<FlatSpec>, g: Graph)
    requires
        entries_match(sibs, infos, start, a, g),
        entries_match(sibs, infos, start + a.len(), b, g),
    ensures
        entries_match(sibs, infos, start, a + b, g),
{
    assert forall|k: int| 0 <= k < (a + b).len() implies sibs[start + k] == (#[trigger] (a + b)[k]).sib && info_matches(
        infos[start + k],
        (a + b)[k],
        g,
    ) by {
        if k < a.len() {
            assert((a + b)[k] == a[k]);
        } else {
            let j = k - a.len();
            assert((a + b)[k] == b[j]);
            assert(start + a.len() + j == start + k);
        }
    }
}

proof fn lemma_entries_keep(
    sibs: Seq<i32>,
    infos: Seq<FlatInfo>,
    sibs2: Seq<i32>,
    infos2: Seq<FlatInfo>,
    n: int,
    start: int,
    a: Seq<FlatSpec>,
    g: Graph,
)
    requires
        entries_match(sibs, infos, start, a, g),
        0 <= start,
        start + a.len() <= n,
        keeps(sibs2, sibs, n),
        keeps(infos2, infos, n),
    ensures
        entries_match(sibs2, infos2, start, a, g),
{
    assert forall|k: int| 0 <= k < a.len() implies sibs2[start + k] == (#[trigger] a[k]).sib && info_matches(
        infos2[start + k],
        a[k],
        g,
    ) by {
        assert(sibs2[start + k] == sibs[start + k]);
        assert(infos2[start + k] == infos[start + k]);
    }
}

/// Lays out a node's children side by side after its own entry at `base`;
/// see [`layout_children`].
fn layout_children_exec(
    node: &GraphNode,
    graph: &Graph,
    metrics: &Metrics,
    depth: u16,
    cursor: i32,
    path: &Vec<usize>,
    base: usize,
    sg: u16,
    infos: &mut Vec<FlatInfo>,
    sibs: &mut Vec<i32>,
) -> (r: (i32, i32, i32))
    requires
        old(infos)@.len() == old(sibs)@.len(),
        old(sibs)@.len() == base + 1,
    ensures
        ({
            let (cl, c, mn, mx) = layout_children(
                node.children@,
                *graph,
                *metrics,
                depth as int,
                cursor as int,
                base + 1,
                path@,
                base as int,
                sg as int,
                node.children@.len() as int,
            );
            &&& final(sibs)@.len() == base + 1 + cl.len()
            &&& final(infos)@.len() == final(sibs)@.len()
            &&& keeps(final(sibs)@, old(sibs)@, base + 1)
            &&& keeps(final(infos)@, old(infos)@, base + 1)
            &&& entries_match(final(sibs)@, final(infos)@, base + 1, cl, *graph)
            &&& r.0 as int == c && r.1 as int == mn && r.2 as int == mx
        }),
    decreases node, 0int,
{
    let ghost sibs0 = sibs@;
    let ghost infos0 = infos@;
    let mut child_cursor = cursor;
    let mut cmin: i32 = i32::MAX;
    let mut cmax: i32 = i32::MIN;
    let ghost mut cl: Seq<FlatSpec> = Seq::empty();
    let mut i: usize = 0;
    proof {
        lemma_children_zero(node.children@, *graph, *metrics, depth as int, cursor as int, base + 1, path@, base as int, sg as int);
    }
    while i < node.children.len()
        invariant
            sibs0.len() == base + 1,
            infos0.len() == base + 1,
            i <= node.children@.len(),
            layout_children(
                node.children@,
                *graph,
                *metrics,
                depth as int,
                cursor as int,
                base + 1,
                path@,
                base as int,
                sg as int,
                i as int,
            ) == (cl, child_cursor as int, cmin as int, cmax as int),
            sibs@.len() == base + 1 + cl.len(),
            infos@.len() == sibs@.len(),
            keeps(sibs@, sibs0, base + 1),
            keeps(infos@, infos0, base + 1),
            entries_match(sibs@, infos@, base + 1, cl, *graph),
        decreases node.children@.len() - i,
    {
        let mut cp = path.clone();
        cp.push(i);
        let ghost sibs_before = sibs@;
        let ghost infos_before = infos@;
        let (bmn, bmx) = layout_subtree(
            &node.children[i],
            graph,
            metrics,
            depth,
            child_cursor,
            &cp,
            Some(base),
            infos,
            sibs,
        );
        let ghost sl = spec_layout(
            node.children@[i as int],
            *graph,
            *metrics,
            depth as int,
            child_cursor as int,
            sibs_before.len() as int,
            cp@,
            Some(base as int),
        ).0;
        proof {
            lemma_children_step(
                node.children@,
                *graph,
                *metrics,
                depth as int,
                cursor as int,
                base + 1,
                path@,
                base as int,
                sg as int,
                i as int + 1,
            );
            assert(cp@ == path@.push(i));
            assert(((i + 1 - 1) as usize) == i);
            let cl2 = cl + sl;
            lemma_entries_keep(
                sibs_before,
                infos_before,
                sibs@,
                infos@,
                sibs_before.len() as int,
                base + 1,
                cl,
                *graph,
            );
            assert(keeps(sibs@, sibs0, base + 1)) by {
                assert forall|t: int| 0 <= t < base + 1 implies #[trigger] sibs@[t] == sibs0[t] by {
                    assert(sibs@[t] == sibs_before[t]);
                }
            }
            assert(keeps(infos@, infos0, base + 1)) by {
                assert forall|t: int| 0 <= t < base + 1 implies #[trigger] infos@[t] == infos0[t] by {
                    assert(infos@[t] == infos_before[t]);
                }
            }
            lemma_entries_concat(sibs@, infos@, base + 1, cl, sl, *graph);
            cl = cl2;
            assert(entries_match(sibs@, infos@, base + 1, cl, *graph));
        }
        child_cursor = sat_i32_exec(bmx as i64 + sg as i64);
        if bmn < cmin {
            cmin = bmn;
        }
        if bmx > cmax {
            cmax = bmx;
        }
        i = i + 1;
    }
    (child_cursor, cmin, cmax)
}

/// Lays out the subtree at `node`, appending its entries in preorder; see
/// [`spec_layout`].
#[verifier::rlimit(60)]
fn layout_subtree(
    node: &GraphNode,
    graph: &Graph,
    metrics: &Metrics,
    depth: u16,
    cursor: i32,
    path: &Vec<usize>,
    parent: Option<usize>,
    infos: &mut Vec<FlatInfo>,
    sibs: &mut Vec<i32>,
) -> (r: (i32, i32))
    requires
        old(infos)@.len() == old(sibs)@.len(),
    ensures
        ({
            let (l, lo, hi) = spec_layout(
                *node,
                *graph,
                *metrics,
                depth as int,
                cursor as int,
                old(sibs)@.len() as int,
                path@,
                opt_int(parent),
            );
            &&& final(sibs)@.len() == old(sibs)@.len() + l.len()
            &&& final(infos)@.len() == final(sibs)@.len()
            &&& keeps(final(sibs)@, old(sibs)@, old(sibs)@.len() as int)
            &&& keeps(final(infos)@, old(infos)@, old(infos)@.len() as int)
            &&& entries_match(final(sibs)@, final(infos)@, old(sibs)@.len() as int, l, *graph)
            &&& r.0 as int == lo && r.1 as int == hi
        }),
    decreases node, 1int,
{
    let ghost infos0 = infos@;
    let ghost sibs0 = sibs@;
    let base = sibs.len();
    let (width, height, lines) = node_size(node, graph);
    let (ss, sg, ds, dg): (u16, u16, u16, u16) = match graph.direction {
        GraphDirection::TopDown => (width, graph.gap_x, metrics.max_height, graph.gap_y),
        GraphDirection::LeftRight => (height, graph.gap_y, metrics.max_width, graph.gap_x),
    };
    let step = ds.saturating_add(dg);
    assert((depth as int) * (step as int) <= 65535 * 65535) by (nonlinear_arith)
        requires depth <= 65535, step <= 65535, depth >= 0, step >= 0;
    assert((depth as int) * (step as int) >= 0) by (nonlinear_arith)
        requires depth >= 0, step >= 0;
    let depth_pos = sat_i32_exec(depth as i64 * step as i64);
    let border = match node.border {
        Some(b) => b,
        None => graph.node_border,
    };
    infos.push(
        FlatInfo {
            depth_pos,
            width,
            height,
            parent,
            path: path.clone(),
            label: node.label.clone(),
            label_lines: lines,
            style: node.style,
            hover_style: node.hover_style,
            focus_style: node.focus_style,
            border,
        },
    );
    sibs.push(0);
    let ghost me_info = infos@[base as int];
    let ghost pushed = sibs@;
    let ghost ipushed = infos@;
    let (_next, cmin, cmax) = layout_children_exec(
        node,
        graph,
        metrics,
        depth.saturating_add(1),
        cursor,
        path,
        base,
        sg,
        infos,
        sibs,
    );
    let k = node.children.len();
    let sib: i32 = if k == 0 {
        cursor
    } else {
        let sum = sat_i32_exec(cmin as i64 + cmax as i64) as i64;
        let center: i64 = if sum >= 0 { sum / 2 } else { -((-sum) / 2) };
        sat_i32_exec(center - (ss / 2) as i64)
    };
    let ghost sibs_mid = sibs@;
    sibs.set(base, sib);
    let lo0: i32 = if cmin == i32::MAX { sib } else { cmin };
    let mut lo: i32 = if lo0 < sib { lo0 } else { sib };
    let end = sat_i32_exec(sib as i64 + ss as i64);
    let hi0: i32 = if cmax == i32::MIN { end } else { cmax };
    let mut hi: i32 = if hi0 > end { hi0 } else { end };
    let ghost unshifted = sibs@;
    let shifted = lo < cursor;
    let ghost d_spec: int = sat_i32(cursor - lo);
    if shifted {
        let d = sat_i32_exec(cursor as i64 - lo as i64);
        shift_from(sibs, base, d);
        lo = sat_i32_exec(lo as i64 + d as i64);
        hi = sat_i32_exec(hi as i64 + d as i64);
    }
    proof {
        lemma_layout_unfold(*node, *graph, *metrics, depth as int, cursor as int, base as int, path@, opt_int(parent));
        let ch = layout_children(
            node.children@,
            *graph,
            *metrics,
            cap_u16(depth + 1),
            cursor as int,
            base + 1,
            path@,
            base as int,
            sg as int,
            k as int,
        );
        let (cl, _c, _mn, _mx) = ch;
        let me = FlatSpec {
            sib: sib as int,
            depth: depth_pos as int,
            w: width as int,
            h: height as int,
            parent: opt_int(parent),
            path: path@,
            node: *node,
        };
        let list = seq![me] + cl;
        let l = spec_layout(*node, *graph, *metrics, depth as int, cursor as int, base as int, path@, opt_int(parent)).0;
        assert(l == (if shifted { shift_list(list, d_spec) } else { list }));
        assert(infos@[base as int] == me_info);
        assert(info_matches(me_info, me, *graph));
        assert(keeps(sibs@, sibs0, base as int)) by {
            assert forall|t: int| 0 <= t < base implies #[trigger] sibs@[t] == sibs0[t] by {
                assert(sibs_mid[t] == pushed[t]);
            }
        }
        assert(keeps(infos@, infos0, base as int)) by {
            assert forall|t: int| 0 <= t < base implies #[trigger] infos@[t] == infos0[t] by {
                assert(infos@[t] == ipushed[t]);
            }
        }
        assert forall|t: int| 0 <= t < l.len() implies sibs@[base + t] == (#[trigger] l[t]).sib && info_matches(
            infos@[base + t],
            l[t],
            *graph,
        ) by {
            assert(list[t] == (if t == 0 { me } else { cl[t - 1] }));
            if t > 0 {
                let j = t - 1;
                assert(cl[j] == list[t]);
                assert(info_matches(infos@[base + 1 + j], cl[j], *graph));
                assert(sibs_mid[base + 1 + j] == cl[j].sib);
                assert(base + 1 + j == base + t);
            }
        }
    }
    (lo, hi)
}


/// Edge direction bits of a cell.
pub const NORTH: u8 = 1;
pub const EAST: u8 = 2;
pub const SOUTH: u8 = 4;
pub const WEST: u8 = 8;

/// An edge cell's contribution: its position and direction bits.
pub type EdgeBit = (i16, i16, u8);

/// `v` clamped to the `i16` range.
pub open spec fn sat_i16(v: int) -> int {
    if v > i16::MAX { i16::MAX as int } else if v < i16::MIN { i16::MIN as int } else { v }
}

/// `v` as an `i16` (two's complement) for a `u16`.
pub open spec fn wrap16(v: int) -> int {
    if v > i16::MAX { v - 65536 } else { v }
}

/// The cells of a straight run from `a` to `b` (vertical or horizontal),
/// each marked toward its neighbours on the run; nothing for a point or a
/// diagonal.
pub open spec fn connect_cells(a: (int, int), b: (int, int)) -> Seq<(int, int, int)> {
    if a == b {
        Seq::empty()
    } else if a.0 == b.0 {
        let lo = if a.1 <= b.1 { a.1 } else { b.1 };
        let hi = if a.1 <= b.1 { b.1 } else { a.1 };
        Seq::new(
            (hi - lo + 1) as nat,
            |i: int| (a.0, lo + i, (if lo + i > lo { NORTH as int } else { 0 }) + (if lo + i < hi { SOUTH as int } else { 0 })),
        )
    } else if a.1 == b.1 {
        let lo = if a.0 <= b.0 { a.0 } else { b.0 };
        let hi = if a.0 <= b.0 { b.0 } else { a.0 };
        Seq::new(
            (hi - lo + 1) as nat,
            |i: int| (lo + i, a.1, (if lo + i > lo { WEST as int } else { 0 }) + (if lo + i < hi { EAST as int } else { 0 })),
        )
    } else {
        Seq::empty()
    }
}

/// The cells of the elbow edge from a parent's far side to a child's near
/// side: out of the parent, halfway across, over, and into the child.
pub open spec fn route_cells(parent: Rect, child: Rect, dir: GraphDirection) -> Seq<(int, int, int)> {
    match dir {
        GraphDirection::TopDown => {
            let start = (
                sat_i16(parent.x + tdiv2(wrap16(parent.w as int))),
                sat_i16(parent.y + wrap16(parent.h as int)),
            );
            let end = (sat_i16(child.x + tdiv2(wrap16(child.w as int))), sat_i16(child.y - 1));
            if start.1 > end.1 {
                Seq::empty()
            } else if start == end {
                seq![(start.0, start.1, NORTH as int), (end.0, end.1, SOUTH as int)]
            } else {
                let mid = sat_i16(start.1 + sat_i16(end.1 - start.1) / 2);
                seq![(start.0, start.1, NORTH as int), (end.0, end.1, SOUTH as int)] + connect_cells(start, (start.0, mid))
                    + connect_cells((start.0, mid), (end.0, mid)) + connect_cells((end.0, mid), end)
            }
        },
        GraphDirection::LeftRight => {
            let start = (
                sat_i16(parent.x + wrap16(parent.w as int)),
                sat_i16(parent.y + tdiv2(wrap16(parent.h as int))),
            );
            let end = (sat_i16(child.x - 1), sat_i16(child.y + tdiv2(wrap16(child.h as int))));
            if start.0 > end.0 {
                Seq::empty()
            } else if start == end {
                seq![(start.0, start.1, WEST as int), (end.0, end.1, EAST as int)]
            } else {
                let mid = sat_i16(start.0 + sat_i16(end.0 - start.0) / 2);
                seq![(start.0, start.1, WEST as int), (end.0, end.1, EAST as int)] + connect_cells(start, (mid, start.1))
                    + connect_cells((mid, start.1), (mid, end.1)) + connect_cells((mid, end.1), end)
            }
        },
    }
}

/// The accumulated cells with one contribution merged in: its bits or-ed
/// into the cell's, or the cell appended.
pub open spec fn merge_cell(acc: Seq<EdgeBit>, c: (int, int, int)) -> Seq<EdgeBit> {
    let i = first_index(acc, c.0, c.1);
    if i < acc.len() {
        acc.update(i, (acc[i].0, acc[i].1, acc[i].2 | (c.2 as u8)))
    } else {
        acc.push((c.0 as i16, c.1 as i16, 0u8 | (c.2 as u8)))
    }
}

/// Index of the first cell at `(x, y)`, or the length.
pub open spec fn first_index(acc: Seq<EdgeBit>, x: int, y: int) -> int
    decreases acc.len(),
{
    if acc.len() == 0 {
        0
    } else {
        let i = first_index(acc.drop_last(), x, y);
        if i < acc.len() - 1 {
            i
        } else if acc.last().0 == x && acc.last().1 == y {
            acc.len() - 1
        } else {
            acc.len() as int
        }
    }
}

/// The first `k` contributions merged.
pub open spec fn merge_all(acc: Seq<EdgeBit>, cs: Seq<(int, int, int)>, k: int) -> Seq<EdgeBit>
    decreases k,
{
    if k <= 0 { acc } else { merge_cell(merge_all(acc, cs, k - 1), cs[k - 1]) }
}


proof fn lemma_first_index(acc: Seq<EdgeBit>, x: int, y: int)
    ensures
        0 <= first_index(acc, x, y) <= acc.len(),
        first_index(acc, x, y) < acc.len() ==> acc[first_index(acc, x, y)].0 == x && acc[first_index(acc, x, y)].1 == y,
        forall|j: int| 0 <= j < first_index(acc, x, y) ==> !(acc[j].0 == x && acc[j].1 == y),
    decreases acc.len(),
{
    if acc.len() > 0 {
        let p = acc.drop_last();
        lemma_first_index(p, x, y);
        assert forall|j: int| 0 <= j < p.len() implies p[j] == acc[j] by {}
    }
}

proof fn lemma_merge_all_concat(acc: Seq<EdgeBit>, c1: Seq<(int, int, int)>, c2: Seq<(int, int, int)>, k: int)
    requires
        0 <= k <= c2.len(),
    ensures
        merge_all(acc, c1 + c2, c1.len() + k) == merge_all(merge_all(acc, c1, c1.len() as int), c2, k),
    decreases k,
{
    if k == 0 {
        lemma_merge_all_prefix(acc, c1, c2, c1.len() as int);
    } else {
        lemma_merge_all_concat(acc, c1, c2, k - 1);
        assert((c1 + c2)[c1.len() + k - 1] == c2[k - 1]);
    }
}

proof fn lemma_merge_all_prefix(acc: Seq<EdgeBit>, c1: Seq<(int, int, int)>, c2: Seq<(int, int, int)>, k: int)
    requires
        0 <= k <= c1.len(),
    ensures
        merge_all(acc, c1 + c2, k) == merge_all(acc, c1, k),
    decreases k,
{
    if k > 0 {
        lemma_merge_all_prefix(acc, c1, c2, k - 1);
        assert((c1 + c2)[k - 1] == c1[k - 1]);
    }
}

/// Merges one contribution into the accumulated cells; see [`merge_cell`].
fn merge_into(acc: &mut Vec<EdgeBit>, x: i16, y: i16, bits: u8)
    ensures
        final(acc)@ == merge_cell(old(acc)@, (x as int, y as int, bits as int)),
{
    proof {
        lemma_first_index(acc@, x as int, y as int);
    }
    let mut i: usize = 0;
    while i < acc.len()
        invariant
            acc@ == old(acc)@,
            i <= acc@.len(),
            forall|j: int| 0 <= j < i ==> !(acc@[j].0 == x && acc@[j].1 == y),
            0 <= first_index(acc@, x as int, y as int) <= acc@.len(),
            first_index(acc@, x as int, y as int) < acc@.len() ==> acc@[first_index(acc@, x as int, y as int)].0 == x
                && acc@[first_index(acc@, x as int, y as int)].1 == y,
            forall|j: int| 0 <= j < first_index(acc@, x as int, y as int) ==> !(acc@[j].0 == x && acc@[j].1 == y),
        decreases acc@.len() - i,
    {
        let e = acc[i];
        if e.0 == x && e.1 == y {
            assert(first_index(acc@, x as int, y as int) == i);
            acc.set(i, (e.0, e.1, e.2 | bits));
            return;
        }
        i = i + 1;
    }
    acc.push((x, y, 0u8 | bits));
}

/// Merges the cells of a straight run; see [`connect_cells`].
fn connect(a: (i16, i16), b: (i16, i16), acc: &mut Vec<EdgeBit>)
    ensures
        final(acc)@ == merge_all(
            old(acc)@,
            connect_cells((a.0 as int, a.1 as int), (b.0 as int, b.1 as int)),
            connect_cells((a.0 as int, a.1 as int), (b.0 as int, b.1 as int)).len() as int,
        ),
{
    let ghost cells = connect_cells((a.0 as int, a.1 as int), (b.0 as int, b.1 as int));
    let ghost acc0 = acc@;
    if a.0 == b.0 && a.1 == b.1 {
        return;
    }
    if a.0 == b.0 {
        let lo: i32 = if a.1 <= b.1 { a.1 as i32 } else { b.1 as i32 };
        let hi: i32 = if a.1 <= b.1 { b.1 as i32 } else { a.1 as i32 };
        let mut v: i32 = lo;
        while v <= hi
            invariant
                cells == connect_cells((a.0 as int, a.1 as int), (b.0 as int, b.1 as int)),
                a.0 == b.0,
                !(a.1 == b.1),
                lo == (if a.1 <= b.1 { a.1 as int } else { b.1 as int }),
                hi == (if a.1 <= b.1 { b.1 as int } else { a.1 as int }),
                lo <= v <= hi + 1,
                i16::MIN <= lo <= hi <= i16::MAX,
                acc@ == merge_all(acc0, cells, v - lo),
            decreases hi + 1 - v,
        {
            let bits: u8 = (if v > lo { NORTH } else { 0 }) + (if v < hi { SOUTH } else { 0 });
            merge_into(acc, a.0, v as i16, bits);
            proof {
                assert(cells[v - lo] == (a.0 as int, v as int, bits as int));
            }
            v = v + 1;
        }
    } else if a.1 == b.1 {
        let lo: i32 = if a.0 <= b.0 { a.0 as i32 } else { b.0 as i32 };
        let hi: i32 = if a.0 <= b.0 { b.0 as i32 } else { a.0 as i32 };
        let mut v: i32 = lo;
        while v <= hi
            invariant
                cells == connect_cells((a.0 as int, a.1 as int), (b.0 as int, b.1 as int)),
                a.1 == b.1,
                !(a.0 == b.0),
                lo == (if a.0 <= b.0 { a.0 as int } else { b.0 as int }),
                hi == (if a.0 <= b.0 { b.0 as int } else { a.0 as int }),
                lo <= v <= hi + 1,
                i16::MIN <= lo <= hi <= i16::MAX,
                acc@ == merge_all(acc0, cells, v - lo),
            decreases hi + 1 - v,
        {
            let bits: u8 = (if v > lo { WEST } else { 0 }) + (if v < hi { EAST } else { 0 });
            merge_into(acc, v as i16, a.1, bits);
            proof {
                assert(cells[v - lo] == (v as int, a.1 as int, bits as int));
            }
            v = v + 1;
        }
    }
}


fn sat_i16_exec(v: i32) -> (r: i16)
    ensures
        r == sat_i16(v as int),
{
    if v > 32767 {
        32767
    } else if v < -32768 {
        -32768
    } else {
        v as i16
    }
}

/// Half a size taken as an `i16`, rounded toward zero.
fn half_wrapped(v: u16) -> (r: i32)
    ensures
        r == tdiv2(wrap16(v as int)),
{
    let w: i32 = if v > 32767 { v as i32 - 65536 } else { v as i32 };
    if w >= 0 { w / 2 } else { -((-w) / 2) }
}

proof fn lemma_merge_all_step(acc: Seq<EdgeBit>, a: Seq<(int, int, int)>, b: Seq<(int, int, int)>)
    ensures
        merge_all(acc, a + b, (a + b).len() as int) == merge_all(merge_all(acc, a, a.len() as int), b, b.len() as int),
{
    lemma_merge_all_concat(acc, a, b, b.len() as int);
}

/// Merges the cells of the elbow edge from `parent` to `child`; see
/// [`route_cells`].
fn route_edge(parent: Rect, child: Rect, direction: GraphDirection, acc: &mut Vec<EdgeBit>)
    ensures
        final(acc)@ == merge_all(old(acc)@, route_cells(parent, child, direction), route_cells(parent, child, direction).len() as int),
{
    let ghost acc0 = acc@;
    match direction {
        GraphDirection::TopDown => {
            let start = (
                sat_i16_exec(parent.x as i32 + half_wrapped(parent.w)),
                sat_i16_exec(parent.y as i32 + (if parent.h > 32767 { parent.h as i32 - 65536 } else { parent.h as i32 })),
            );
            let end = (sat_i16_exec(child.x as i32 + half_wrapped(child.w)), sat_i16_exec(child.y as i32 - 1));
            if start.1 > end.1 {
                return;
            }
            merge_into(acc, start.0, start.1, NORTH);
            merge_into(acc, end.0, end.1, SOUTH);
            proof {
                let two = seq![(start.0 as int, start.1 as int, NORTH as int), (end.0 as int, end.1 as int, SOUTH as int)];
                reveal_with_fuel(merge_all, 3);
                assert(acc@ == merge_all(acc0, two, 2));
            }
            if start.0 == end.0 && start.1 == end.1 {
                return;
            }
            let mid = sat_i16_exec(start.1 as i32 + (sat_i16_exec(end.1 as i32 - start.1 as i32) as i32) / 2);
            let ghost a1 = acc@;
            connect(start, (start.0, mid), acc);
            let ghost a2 = acc@;
            connect((start.0, mid), (end.0, mid), acc);
            let ghost a3 = acc@;
            connect((end.0, mid), end, acc);
            proof {
                let s0 = (start.0 as int, start.1 as int);
                let e0 = (end.0 as int, end.1 as int);
                let m = mid as int;
                let two = seq![(start.0 as int, start.1 as int, NORTH as int), (end.0 as int, end.1 as int, SOUTH as int)];
                let c1 = connect_cells(s0, (s0.0, m));
                let c2 = connect_cells((s0.0, m), (e0.0, m));
                let c3 = connect_cells((e0.0, m), e0);
                lemma_merge_all_step(acc0, two, c1);
                lemma_merge_all_step(acc0, two + c1, c2);
                lemma_merge_all_step(acc0, two + c1 + c2, c3);
                assert(route_cells(parent, child, direction) == two + c1 + c2 + c3);
            }
        },
        GraphDirection::LeftRight => {
            let start = (
                sat_i16_exec(parent.x as i32 + (if parent.w > 32767 { parent.w as i32 - 65536 } else { parent.w as i32 })),
                sat_i16_exec(parent.y as i32 + half_wrapped(parent.h)),
            );
            let end = (sat_i16_exec(child.x as i32 - 1), sat_i16_exec(child.y as i32 + half_wrapped(child.h)));
            if start.0 > end.0 {
                return;
            }
            merge_into(acc, start.0, start.1, WEST);
            merge_into(acc, end.0, end.1, EAST);
            proof {
                let two = seq![(start.0 as int, start.1 as int, WEST as int), (end.0 as int, end.1 as int, EAST as int)];
                reveal_with_fuel(merge_all, 3);
                assert(acc@ == merge_all(acc0, two, 2));
            }
            if start.0 == end.0 && start.1 == end.1 {
                return;
            }
            let mid = sat_i16_exec(start.0 as i32 + (sat_i16_exec(end.0 as i32 - start.0 as i32) as i32) / 2);
            connect(start, (mid, start.1), acc);
            connect((mid, start.1), (mid, end.1), acc);
            connect((mid, end.1), end, acc);
            proof {
                let s0 = (start.0 as int, start.1 as int);
                let e0 = (end.0 as int, end.1 as int);
                let m = mid as int;
                let two = seq![(start.0 as int, start.1 as int, WEST as int), (end.0 as int, end.1 as int, EAST as int)];
                let c1 = connect_cells(s0, (m, s0.1));
                let c2 = connect_cells((m, s0.1), (m, e0.1));
                let c3 = connect_cells((m, e0.1), e0);
                lemma_merge_all_step(acc0, two, c1);
                lemma_merge_all_step(acc0, two + c1, c2);
                lemma_merge_all_step(acc0, two + c1 + c2, c3);
                assert(route_cells(parent, child, direction) == two + c1 + c2 + c3);
            }
        },
    }
}


/// The box-drawing character for a cell's direction bits: lines, corners,
/// tees and crosses in the edge style; a lone direction draws the straight
/// line along its axis.
pub open spec fn spec_glyph(bits: int, style: BorderStyle) -> char {
    let k = match style {
        BorderStyle::Plain => 0int,
        BorderStyle::Rounded => 1,
        BorderStyle::Double => 2,
        BorderStyle::Thick => 3,
    };
    let pick = |p: char, r: char, d: char, t: char| if k == 0 { p } else if k == 1 { r } else if k == 2 { d } else { t };
    if bits == 1 || bits == 4 || bits == 5 {
        pick('\u{2502}', '\u{2502}', '\u{2551}', '\u{2503}')
    } else if bits == 2 || bits == 8 || bits == 10 {
        pick('\u{2500}', '\u{2500}', '\u{2550}', '\u{2501}')
    } else if bits == 6 {
        pick('\u{250c}', '\u{256d}', '\u{2554}', '\u{250f}')
    } else if bits == 12 {
        pick('\u{2510}', '\u{256e}', '\u{2557}', '\u{2513}')
    } else if bits == 3 {
        pick('\u{2514}', '\u{2570}', '\u{255a}', '\u{2517}')
    } else if bits == 9 {
        pick('\u{2518}', '\u{256f}', '\u{255d}', '\u{251b}')
    } else if bits == 7 {
        pick('\u{251c}', '\u{251c}', '\u{2560}', '\u{2523}')
    } else if bits == 13 {
        pick('\u{2524}', '\u{2524}', '\u{2563}', '\u{252b}')
    } else if bits == 14 {
        pick('\u{252c}', '\u{252c}', '\u{2566}', '\u{2533}')
    } else if bits == 11 {
        pick('\u{2534}', '\u{2534}', '\u{2569}', '\u{253b}')
    } else if bits == 15 {
        pick('\u{253c}', '\u{253c}', '\u{256c}', '\u{254b}')
    } else {
        ' '
    }
}

/// The box-drawing character for a cell's direction bits; see
/// [`spec_glyph`].
pub fn glyph_for_bits(bits: u8, style: BorderStyle) -> (r: char)
    ensures
        r == spec_glyph(bits as int, style),
{
    let k: u8 = match style {
        BorderStyle::Plain => 0,
        BorderStyle::Rounded => 1,
        BorderStyle::Double => 2,
        BorderStyle::Thick => 3,
    };
    let pick = |p: char, r: char, d: char, t: char| -> (c: char)
        ensures
            c == (if k == 0 { p } else if k == 1 { r } else if k == 2 { d } else { t }),
        {
            if k == 0 {
                p
            } else if k == 1 {
                r
            } else if k == 2 {
                d
            } else {
                t
            }
        };
    if bits == 1 || bits == 4 || bits == 5 {
        pick('\u{2502}', '\u{2502}', '\u{2551}', '\u{2503}')
    } else if bits == 2 || bits == 8 || bits == 10 {
        pick('\u{2500}', '\u{2500}', '\u{2550}', '\u{2501}')
    } else if bits == 6 {
        pick('\u{250c}', '\u{256d}', '\u{2554}', '\u{250f}')
    } else if bits == 12 {
        pick('\u{2510}', '\u{256e}', '\u{2557}', '\u{2513}')
    } else if bits == 3 {
        pick('\u{2514}', '\u{2570}', '\u{255a}', '\u{2517}')
    } else if bits == 9 {
        pick('\u{2518}', '\u{256f}', '\u{255d}', '\u{251b}')
    } else if bits == 7 {
        pick('\u{251c}', '\u{251c}', '\u{2560}', '\u{2523}')
    } else if bits == 13 {
        pick('\u{2524}', '\u{2524}', '\u{2563}', '\u{252b}')
    } else if bits == 14 {
        pick('\u{252c}', '\u{252c}', '\u{2566}', '\u{2533}')
    } else if bits == 11 {
        pick('\u{2534}', '\u{2534}', '\u{2569}', '\u{253b}')
    } else if bits == 15 {
        pick('\u{253c}', '\u{253c}', '\u{256c}', '\u{254b}')
    } else {
        ' '
    }
}

/// The rect a laid-out node takes: sibling and depth positions on the axes
/// of the direction, clamped to `i16`.
pub open spec fn rect_of(f: FlatSpec, dir: GraphDirection) -> Rect {
    rect_at(f.sib, f.depth, f.w, f.h, dir)
}

/// The rect at sibling position `sib` and depth position `depth`.
pub open spec fn rect_at(sib: int, depth: int, w: int, h: int, dir: GraphDirection) -> Rect {
    let (x, y) = match dir {
        GraphDirection::TopDown => (sib, depth),
        GraphDirection::LeftRight => (depth, sib),
    };
    Rect { x: sat_i16(x) as i16, y: sat_i16(y) as i16, w: w as u16, h: h as u16 }
}

/// The edge cells contributed by the first `k` entries: each entry with a
/// (listed) parent routes an edge from the parent's rect to its own.
pub open spec fn edge_contribs(flat: Seq<FlatSpec>, dir: GraphDirection, k: int) -> Seq<(int, int, int)>
    decreases k,
{
    if k <= 0 {
        Seq::empty()
    } else {
        edge_contribs(flat, dir, k - 1) + match flat[k - 1].parent {
            Some(p) => if 0 <= p < flat.len() {
                route_cells(rect_of(flat[p], dir), rect_of(flat[k - 1], dir), dir)
            } else {
                Seq::empty()
            },
            None => Seq::empty(),
        }
    }
}

/// The drawn edge cells among the first `k` accumulated: those with a
/// direction, with their glyphs.
pub open spec fn edge_glyphs(acc: Seq<EdgeBit>, style: BorderStyle, k: int) -> Seq<(int, int, char)>
    decreases k,
{
    if k <= 0 {
        Seq::empty()
    } else {
        let e = acc[k - 1];
        let rest = edge_glyphs(acc, style, k - 1);
        if e.2 & 15u8 != 0 {
            rest.push((e.0 as int, e.1 as int, spec_glyph((e.2 & 15u8) as int, style)))
        } else {
            rest
        }
    }
}

/// `(min x, min y, max x, max y)` over the first `k` rects, from `b`.
pub open spec fn rect_bounds(rects: Seq<Rect>, b: (int, int, int, int), k: int) -> (int, int, int, int)
    decreases k,
{
    if k <= 0 {
        b
    } else {
        let (x0, y0, x1, y1) = rect_bounds(rects, b, k - 1);
        let r = rects[k - 1];
        let rx = sat_i16(r.x + wrap16(r.w as int));
        let ry = sat_i16(r.y + wrap16(r.h as int));
        (
            if r.x < x0 { r.x as int } else { x0 },
            if r.y < y0 { r.y as int } else { y0 },
            if rx > x1 { rx } else { x1 },
            if ry > y1 { ry } else { y1 },
        )
    }
}

/// `(min x, min y, max x, max y)` over the first `k` cells, from `b`.
pub open spec fn cell_bounds(cells: Seq<(int, int, char)>, b: (int, int, int, int), k: int) -> (int, int, int, int)
    decreases k,
{
    if k <= 0 {
        b
    } else {
        let (x0, y0, x1, y1) = cell_bounds(cells, b, k - 1);
        let c = cells[k - 1];
        (
            if c.0 < x0 { c.0 } else { x0 },
            if c.1 < y0 { c.1 } else { y0 },
            if sat_i16(c.0 + 1) > x1 { sat_i16(c.0 + 1) } else { x1 },
            if sat_i16(c.1 + 1) > y1 { sat_i16(c.1 + 1) } else { y1 },
        )
    }
}

/// A node as drawn.
#[derive(Debug)]
pub struct PositionedGraphNode {
    pub rect: Rect,
    pub path: GraphNodePath,
    pub label: String,
    pub label_lines: Vec<String>,
    pub style: Style,
    pub hover_style: Style,
    pub focus_style: StyleSlot,
    pub border: bool,
}

/// An edge cell as drawn.
#[derive(Clone, Copy, Debug, PartialEq, Eq)]
pub struct GraphEdgeCell {
    pub x: i16,
    pub y: i16,
    pub glyph: char,
}

/// What a graph draws: its nodes, its edge cells and its size.
#[derive(Debug)]
pub struct GraphRenderOutput {
    pub nodes: Vec<PositionedGraphNode>,
    pub edges: Vec<GraphEdgeCell>,
    pub width: u16,
    pub height: u16,
}

impl GraphRenderOutput {
    /// Nothing to draw.
    pub fn empty() -> (r: Self)
        ensures
            r.nodes@.len() == 0 && r.edges@.len() == 0 && r.width == 0 && r.height == 0,
    {
        GraphRenderOutput { nodes: Vec::new(), edges: Vec::new(), width: 0, height: 0 }
    }
}

/// A drawn node agrees with its laid-out entry at `rect`.
pub open spec fn positioned_matches(p: PositionedGraphNode, s: FlatSpec, rect: Rect, g: Graph) -> bool {
    &&& p.rect == rect
    &&& p.path.0@ == s.path
    &&& p.label@ == s.node.label@
    &&& strings_view(p.label_lines@) == node_lines(s.node, g)
    &&& p.style == s.node.style
    &&& p.hover_style == s.node.hover_style
    &&& p.focus_style == s.node.focus_style
    &&& p.border == node_has_border(s.node, g)
}

/// The layout of a graph's tree from the origin.
pub open spec fn graph_flat(g: Graph) -> Seq<FlatSpec> {
    match g.root {
        Some(root) => spec_layout(
            root,
            g,
            Metrics { max_width: tree_max(root, g).0 as u16, max_height: tree_max(root, g).1 as u16 },
            0,
            0,
            0,
            Seq::empty(),
            None,
        ).0,
        None => Seq::empty(),
    }
}

/// The edge cells of a graph before normalisation.
pub open spec fn graph_edge_cells(g: Graph) -> Seq<(int, int, char)> {
    let flat = graph_flat(g);
    let acc = merge_all(Seq::empty(), edge_contribs(flat, g.direction, flat.len() as int), edge_contribs(
        flat,
        g.direction,
        flat.len() as int,
    ).len() as int);
    edge_glyphs(acc, g.edge_border_style, acc.len() as int)
}

/// The bounds of a graph's nodes and edge cells before normalisation.
pub open spec fn graph_bounds(g: Graph) -> (int, int, int, int) {
    let flat = graph_flat(g);
    let rects = Seq::new(flat.len(), |i: int| rect_of(flat[i], g.direction));
    let cells = graph_edge_cells(g);
    cell_bounds(
        cells,
        rect_bounds(rects, (i16::MAX as int, i16::MAX as int, i16::MIN as int, i16::MIN as int), rects.len() as int),
        cells.len() as int,
    )
}

/// Whether a graph draws nothing (no node or edge bounds the picture).
pub open spec fn graph_is_empty(g: Graph) -> bool {
    graph_bounds(g).0 == i16::MAX || graph_bounds(g).1 == i16::MAX
}

/// `r` moved so the picture starts at the origin.
pub open spec fn shifted_rect(r: Rect, b: (int, int, int, int)) -> Rect {
    Rect { x: sat_i16(r.x + sat_i16(0 - b.0)) as i16, y: sat_i16(r.y + sat_i16(0 - b.1)) as i16, ..r }
}

/// `hi - lo` clamped to a `u16`.
pub open spec fn extent(lo: int, hi: int) -> int {
    if hi - lo < 0 { 0 } else if hi - lo > u16::MAX { u16::MAX as int } else { hi - lo }
}


fn copy_strings(v: &Vec<String>) -> (r: Vec<String>)
    ensures
        strings_view(r@) == strings_view(v@),
{
    let mut out: Vec<String> = Vec::new();
    let mut i: usize = 0;
    while i < v.len()
        invariant
            i <= v@.len(),
            out@.len() == i,
            forall|j: int| 0 <= j < i ==> (#[trigger] out@[j])@ == v@[j]@,
        decreases v@.len() - i,
    {
        out.push(v[i].clone());
        i = i + 1;
    }
    assert(strings_view(out@) =~= strings_view(v@));
    out
}

fn copy_indices(v: &Vec<usize>) -> (r: Vec<usize>)
    ensures
        r@ == v@,
{
    let mut out: Vec<usize> = Vec::new();
    let mut i: usize = 0;
    while i < v.len()
        invariant
            i <= v@.len(),
            out@ =~= v@.subrange(0, i as int),
        decreases v@.len() - i,
    {
        out.push(v[i]);
        i = i + 1;
        assert(out@ =~= v@.subrange(0, i as int));
    }
    assert(v@.subrange(0, v@.len() as int) =~= v@);
    out
}

fn rect_of_exec(sib: i32, info: &FlatInfo, dir: GraphDirection) -> (r: Rect)
    ensures
        r == rect_at(sib as int, info.depth_pos as int, info.width as int, info.height as int, dir),
{
    let (x, y) = match dir {
        GraphDirection::TopDown => (sib, info.depth_pos),
        GraphDirection::LeftRight => (info.depth_pos, sib),
    };
    Rect { x: sat_i16_exec(x), y: sat_i16_exec(y), w: info.width, h: info.height }
}


fn cell_bound_step(b: (i16, i16, i16, i16), x: i16, y: i16) -> (r: (i16, i16, i16, i16))
    ensures
        r.0 == (if x < b.0 { x } else { b.0 }),
        r.1 == (if y < b.1 { y } else { b.1 }),
        r.2 == (if sat_i16(x + 1) > b.2 { sat_i16(x + 1) } else { b.2 as int }),
        r.3 == (if sat_i16(y + 1) > b.3 { sat_i16(y + 1) } else { b.3 as int }),
{
    let x1 = sat_i16_exec(x as i32 + 1);
    let y1 = sat_i16_exec(y as i32 + 1);
    (
        if x < b.0 { x } else { b.0 },
        if y < b.1 { y } else { b.1 },
        if x1 > b.2 { x1 } else { b.2 },
        if y1 > b.3 { y1 } else { b.3 },
    )
}

/// What [`build_graph_output`] draws for `g`.
pub open spec fn graph_output_spec(g: Graph, out: GraphRenderOutput) -> bool {
    &&& graph_is_empty(g) ==> out.nodes@.len() == 0 && out.edges@.len() == 0 && out.width == 0 && out.height == 0
    &&& !graph_is_empty(g) ==> ({
        let flat = graph_flat(g);
        let b = graph_bounds(g);
        let cells = graph_edge_cells(g);
        &&& out.nodes@.len() == flat.len()
        &&& forall|i: int|
            0 <= i < flat.len() ==> positioned_matches(
                #[trigger] out.nodes@[i],
                flat[i],
                shifted_rect(rect_of(flat[i], g.direction), b),
                g,
            )
        &&& out.edges@.len() == cells.len()
        &&& forall|i: int|
            0 <= i < cells.len() ==> #[trigger] out.edges@[i] == (GraphEdgeCell {
                x: sat_i16(cells[i].0 + sat_i16(0 - b.0)) as i16,
                y: sat_i16(cells[i].1 + sat_i16(0 - b.1)) as i16,
                glyph: cells[i].2,
            })
        &&& out.width == extent(b.0, b.2)
        &&& out.height == extent(b.1, b.3)
    })
}

/// Lays out a graph: its tree in layers, elbow edges from parents to
/// children, everything moved so the picture starts at the origin; empty
/// when nothing bounds the picture.
pub fn build_graph_output(graph: &Graph) -> (out: GraphRenderOutput)
    ensures
        graph_is_empty(*graph) ==> out.nodes@.len() == 0 && out.edges@.len() == 0 && out.width == 0 && out.height
            == 0,
        !graph_is_empty(*graph) ==> ({
            let flat = graph_flat(*graph);
            let b = graph_bounds(*graph);
            let cells = graph_edge_cells(*graph);
            &&& out.nodes@.len() == flat.len()
            &&& forall|i: int|
                0 <= i < flat.len() ==> positioned_matches(
                    #[trigger] out.nodes@[i],
                    flat[i],
                    shifted_rect(rect_of(flat[i], graph.direction), b),
                    *graph,
                )
            &&& out.edges@.len() == cells.len()
            &&& forall|i: int|
                0 <= i < cells.len() ==> #[trigger] out.edges@[i] == (GraphEdgeCell {
                    x: sat_i16(cells[i].0 + sat_i16(0 - b.0)) as i16,
                    y: sat_i16(cells[i].1 + sat_i16(0 - b.1)) as i16,
                    glyph: cells[i].2,
                })
            &&& out.width == extent(b.0, b.2)
            &&& out.height == extent(b.1, b.3)
        }),
{
    let root = match &graph.root {
        Some(r) => r,
        None => {
            proof {
                let flat = graph_flat(*graph);
                assert(flat.len() == 0);
                assert(edge_contribs(flat, graph.direction, 0).len() == 0);
            }
            return GraphRenderOutput::empty();
        },
    };
    let metrics = metrics_from_root(root, graph);
    let mut infos: Vec<FlatInfo> = Vec::new();
    let mut sibs: Vec<i32> = Vec::new();
    let no_path: Vec<usize> = Vec::new();
    let _ = layout_subtree(root, graph, &metrics, 0, 0, &no_path, None, &mut infos, &mut sibs);
    let ghost flat = graph_flat(*graph);
    assert(no_path@ =~= Seq::<usize>::empty());
    assert(flat.len() == sibs@.len());
    let n = sibs.len();
    let dir = graph.direction;
    // Rects.
    let mut rects: Vec<Rect> = Vec::new();
    let mut i: usize = 0;
    while i < n
        invariant
            n == sibs@.len(),
            n == infos@.len(),
            flat == graph_flat(*graph),
            flat.len() == n,
            entries_match(sibs@, infos@, 0, flat, *graph),
            dir == graph.direction,
            i <= n,
            rects@.len() == i,
            forall|j: int| 0 <= j < i ==> #[trigger] rects@[j] == rect_of(flat[j], dir),
        decreases n - i,
    {
        assert(flat[i as int] == flat[i as int]);
        rects.push(rect_of_exec(sibs[i], &infos[i], dir));
        i = i + 1;
    }
    // Edge contributions.
    let mut acc: Vec<EdgeBit> = Vec::new();
    let mut i: usize = 0;
    while i < n
        invariant
            n == sibs@.len(),
            n == infos@.len(),
            flat == graph_flat(*graph),
            flat.len() == n,
            entries_match(sibs@, infos@, 0, flat, *graph),
            dir == graph.direction,
            rects@.len() == n,
            forall|j: int| 0 <= j < n ==> #[trigger] rects@[j] == rect_of(flat[j], dir),
            i <= n,
            acc@ == merge_all(Seq::empty(), edge_contribs(flat, dir, i as int), edge_contribs(flat, dir, i as int).len() as int),
        decreases n - i,
    {
        assert(flat[i as int] == flat[i as int]);
        let ghost before = edge_contribs(flat, dir, i as int);
        match infos[i].parent {
            Some(p) => {
                if p < n {
                    route_edge(rects[p], rects[i], dir, &mut acc);
                    proof {
                        lemma_merge_all_step(
                            Seq::empty(),
                            before,
                            route_cells(rect_of(flat[p as int], dir), rect_of(flat[i as int], dir), dir),
                        );
                    }
                } else {
                    proof {
                        assert(edge_contribs(flat, dir, i as int + 1) =~= before);
                    }
                }
            },
            None => {
                proof {
                    assert(edge_contribs(flat, dir, i as int + 1) =~= before);
                }
            },
        }
        i = i + 1;
    }
    let ghost contribs = edge_contribs(flat, dir, n as int);
    // Glyphs.
    let mut cells: Vec<GraphEdgeCell> = Vec::new();
    let mut i: usize = 0;
    while i < acc.len()
        invariant
            i <= acc@.len(),
            cells@.len() == edge_glyphs(acc@, graph.edge_border_style, i as int).len(),
            forall|j: int|
                0 <= j < cells@.len() ==> (#[trigger] cells@[j]).x as int == edge_glyphs(
                    acc@,
                    graph.edge_border_style,
                    i as int,
                )[j].0 && cells@[j].y as int == edge_glyphs(acc@, graph.edge_border_style, i as int)[j].1
                    && cells@[j].glyph == edge_glyphs(acc@, graph.edge_border_style, i as int)[j].2,
        decreases acc@.len() - i,
    {
        let e = acc[i];
        let bits = e.2 & 15u8;
        if bits != 0 {
            let glyph = glyph_for_bits(bits, graph.edge_border_style);
            cells.push(GraphEdgeCell { x: e.0, y: e.1, glyph });
        }
        i = i + 1;
    }
    let ghost gcells = graph_edge_cells(*graph);
    assert(gcells == edge_glyphs(acc@, graph.edge_border_style, acc@.len() as int));
    // Bounds.
    let mut bd: (i16, i16, i16, i16) = (i16::MAX, i16::MAX, i16::MIN, i16::MIN);
    let ghost rseq = Seq::new(flat.len(), |j: int| rect_of(flat[j], dir));
    let mut i: usize = 0;
    while i < n
        invariant
            rects@.len() == n,
            rseq.len() == n,
            forall|j: int| 0 <= j < n ==> #[trigger] rects@[j] == rseq[j],
            i <= n,
            (bd.0 as int, bd.1 as int, bd.2 as int, bd.3 as int) == rect_bounds(
                rseq,
                (i16::MAX as int, i16::MAX as int, i16::MIN as int, i16::MIN as int),
                i as int,
            ),
        decreases n - i,
    {
        let r = rects[i];
        let rx = sat_i16_exec(r.x as i32 + (if r.w > 32767 { r.w as i32 - 65536 } else { r.w as i32 }));
        let ry = sat_i16_exec(r.y as i32 + (if r.h > 32767 { r.h as i32 - 65536 } else { r.h as i32 }));
        bd = (
            if r.x < bd.0 { r.x } else { bd.0 },
            if r.y < bd.1 { r.y } else { bd.1 },
            if rx > bd.2 { rx } else { bd.2 },
            if ry > bd.3 { ry } else { bd.3 },
        );
        i = i + 1;
    }
    let mut i: usize = 0;
    let ghost b0 = (bd.0 as int, bd.1 as int, bd.2 as int, bd.3 as int);
    let ghost cseq = edge_glyphs(acc@, graph.edge_border_style, acc@.len() as int);
    while i < cells.len()
        invariant
            cells@.len() == cseq.len(),
            forall|j: int|
                0 <= j < cells@.len() ==> (#[trigger] cells@[j]).x as int == cseq[j].0 && cells@[j].y as int
                    == cseq[j].1 && cells@[j].glyph == cseq[j].2,
            i <= cells@.len(),
            (bd.0 as int, bd.1 as int, bd.2 as int, bd.3 as int) == cell_bounds(cseq, b0, i as int),
        decreases cells@.len() - i,
    {
        let c = cells[i];
        bd = cell_bound_step(bd, c.x, c.y);
        i = i + 1;
    }
    proof {
        assert(graph_bounds(*graph) == (bd.0 as int, bd.1 as int, bd.2 as int, bd.3 as int));
    }
    if bd.0 == i16::MAX || bd.1 == i16::MAX {
        return GraphRenderOutput::empty();
    }
    let shift_x = sat_i16_exec(0 - bd.0 as i32);
    let shift_y = sat_i16_exec(0 - bd.1 as i32);
    let mut nodes: Vec<PositionedGraphNode> = Vec::new();
    let mut i: usize = 0;
    while i < n
        invariant
            n == sibs@.len(),
            n == infos@.len(),
            flat == graph_flat(*graph),
            flat.len() == n,
            entries_match(sibs@, infos@, 0, flat, *graph),
            rects@.len() == n,
            forall|j: int| 0 <= j < n ==> #[trigger] rects@[j] == rect_of(flat[j], dir),
            dir == graph.direction,
            shift_x == sat_i16(0 - bd.0),
            shift_y == sat_i16(0 - bd.1),
            i <= n,
            nodes@.len() == i,
            forall|j: int|
                0 <= j < i ==> positioned_matches(
                    #[trigger] nodes@[j],
                    flat[j],
                    shifted_rect(rect_of(flat[j], dir), (bd.0 as int, bd.1 as int, bd.2 as int, bd.3 as int)),
                    *graph,
                ),
        decreases n - i,
    {
        assert(flat[i as int] == flat[i as int]);
        let r = rects[i];
        let info = &infos[i];
        let rect = Rect { x: sat_i16_exec(r.x as i32 + shift_x as i32), y: sat_i16_exec(r.y as i32 + shift_y as i32), ..r };
        nodes.push(
            PositionedGraphNode {
                rect,
                path: GraphNodePath(copy_indices(&info.path)),
                label: info.label.clone(),
                label_lines: copy_strings(&info.label_lines),
                style: info.style,
                hover_style: info.hover_style,
                focus_style: info.focus_style,
                border: info.border,
            },
        );
        i = i + 1;
    }
    let mut edges: Vec<GraphEdgeCell> = Vec::new();
    let mut i: usize = 0;
    while i < cells.len()
        invariant
            cells@.len() == cseq.len(),
            forall|j: int|
                0 <= j < cells@.len() ==> (#[trigger] cells@[j]).x as int == cseq[j].0 && cells@[j].y as int
                    == cseq[j].1 && cells@[j].glyph == cseq[j].2,
            shift_x == sat_i16(0 - bd.0),
            shift_y == sat_i16(0 - bd.1),
            i <= cells@.len(),
            edges@.len() == i,
            forall|j: int|
                0 <= j < i ==> #[trigger] edges@[j] == (GraphEdgeCell {
                    x: sat_i16(cseq[j].0 + sat_i16(0 - bd.0)) as i16,
                    y: sat_i16(cseq[j].1 + sat_i16(0 - bd.1)) as i16,
                    glyph: cseq[j].2,
                }),
        decreases cells@.len() - i,
    {
        let c = cells[i];
        edges.push(
            GraphEdgeCell { x: sat_i16_exec(c.x as i32 + shift_x as i32), y: sat_i16_exec(c.y as i32 + shift_y as i32), glyph: c.glyph },
        );
        i = i + 1;
    }
    let wd: i32 = bd.2 as i32 - bd.0 as i32;
    let ht: i32 = bd.3 as i32 - bd.1 as i32;
    GraphRenderOutput {
        nodes,
        edges,
        width: if wd < 0 { 0 } else if wd > 65535 { 65535 } else { wd as u16 },
        height: if ht < 0 { 0 } else if ht > 65535 { 65535 } else { ht as u16 },
    }
}


/// The drawn size of a graph's picture.
pub open spec fn picture_size(g: Graph) -> (int, int) {
    if graph_is_empty(g) {
        (0, 0)
    } else {
        let b = graph_bounds(g);
        (extent(b.0, b.2), extent(b.1, b.3))
    }
}

/// The size of a graph: its picture, padding and border.
pub open spec fn spec_measure_graph(g: Graph) -> (int, int) {
    let (pw, ph) = picture_size(g);
    let w = sat_add_u16(pw, g.padding.spec_horizontal());
    let h = sat_add_u16(ph, g.padding.spec_vertical());
    if g.border { (sat_add_u16(w, 2), sat_add_u16(h, 2)) } else { (w, h) }
}

/// The size of a graph; see [`spec_measure_graph`].
pub fn measure_graph(graph: &Graph) -> (r: (u16, u16))
    ensures
        r.0 == spec_measure_graph(*graph).0,
        r.1 == spec_measure_graph(*graph).1,
{
    let output = build_graph_output(graph);
    let mut w = output.width.saturating_add(graph.padding.horizontal());
    let mut h = output.height.saturating_add(graph.padding.vertical());
    if graph.border {
        w = w.saturating_add(2);
        h = h.saturating_add(2);
    }
    (w, h)
}

fn same_path(a: &Vec<usize>, b: &Vec<usize>) -> (r: bool)
    ensures
        r == (a@ == b@),
{
    if a.len() != b.len() {
        return false;
    }
    let mut i: usize = 0;
    while i < a.len()
        invariant
            a@.len() == b@.len(),
            i <= a@.len(),
            forall|j: int| 0 <= j < i ==> a@[j] == b@[j],
        decreases a@.len() - i,
    {
        if a[i] != b[i] {
            return false;
        }
        i = i + 1;
    }
    assert(a@ =~= b@);
    true
}

/// Index of the first laid-out node at `path`, or the length.
pub open spec fn first_at_path(flat: Seq<FlatSpec>, path: Seq<usize>, k: int) -> int
    decreases k,
{
    if k <= 0 {
        0
    } else {
        let i = first_at_path(flat, path, k - 1);
        if i < k - 1 {
            i
        } else if flat[k - 1].path == path {
            k - 1
        } else {
            k
        }
    }
}

/// The offset that centres the node at `path` in a `vw` by `vh` viewport:
/// the node's centre in the graph's coordinates (border and padding
/// included) less half the viewport; `None` when no node is drawn there.
pub open spec fn spec_center_offset(g: Graph, path: Seq<usize>, vw: int, vh: int) -> Option<(int, int)> {
    let flat = graph_flat(g);
    let i = first_at_path(flat, path, flat.len() as int);
    if graph_is_empty(g) || i >= flat.len() {
        None
    } else {
        let r = shifted_rect(rect_of(flat[i], g.direction), graph_bounds(g));
        let b: int = if g.border { 1 } else { 0 };
        Some((
            b + g.padding.left + r.x + r.w / 2 - vw / 2,
            b + g.padding.top + r.y + r.h / 2 - vh / 2,
        ))
    }
}

impl Graph {
    /// The pan offset that centres the node at `path` in a `viewport_w` by
    /// `viewport_h` viewport; see [`spec_center_offset`].
    pub fn center_offset_for(&self, path: &GraphNodePath, viewport_w: u16, viewport_h: u16) -> (r: Option<(i32, i32)>)
        ensures
            r matches Some(p) ==> spec_center_offset(*self, path.0@, viewport_w as int, viewport_h as int) == Some(
                (p.0 as int, p.1 as int),
            ),
            r is None ==> spec_center_offset(*self, path.0@, viewport_w as int, viewport_h as int) is None,
    {
        let output = build_graph_output(self);
        let ghost flat = graph_flat(*self);
        let mut i: usize = 0;
        while i < output.nodes.len()
            invariant
                !graph_is_empty(*self) ==> output.nodes@.len() == flat.len(),
                graph_is_empty(*self) ==> output.nodes@.len() == 0,
                !graph_is_empty(*self) ==> forall|j: int|
                    0 <= j < flat.len() ==> positioned_matches(
                        #[trigger] output.nodes@[j],
                        flat[j],
                        shifted_rect(rect_of(flat[j], self.direction), graph_bounds(*self)),
                        *self,
                    ),
                i <= output.nodes@.len(),
                flat == graph_flat(*self),
                first_at_path(flat, path.0@, i as int) == i as int,
            decreases output.nodes@.len() - i,
        {
            if same_path(&output.nodes[i].path.0, &path.0) {
                let rect = output.nodes[i].rect;
                let b: i32 = if self.border { 1 } else { 0 };
                proof {
                    assert(!graph_is_empty(*self));
                    assert(positioned_matches(output.nodes@[i as int], flat[i as int], shifted_rect(rect_of(flat[i as int], self.direction), graph_bounds(*self)), *self));
                    assert(first_at_path(flat, path.0@, i as int + 1) == i);
                    lemma_first_at_path_stable(flat, path.0@, i as int + 1, flat.len() as int);
                    assert(first_at_path(flat, path.0@, flat.len() as int) == i);
                    assert(rect == shifted_rect(rect_of(flat[i as int], self.direction), graph_bounds(*self)));
                    assert(spec_center_offset(*self, path.0@, viewport_w as int, viewport_h as int) == Some((
                        b + self.padding.left + rect.x + rect.w / 2 - viewport_w / 2,
                        b + self.padding.top + rect.y + rect.h / 2 - viewport_h / 2,
                    )));
                }
                return Some((
                    b + self.padding.left as i32 + rect.x as i32 + (rect.w / 2) as i32 - (viewport_w / 2) as i32,
                    b + self.padding.top as i32 + rect.y as i32 + (rect.h / 2) as i32 - (viewport_h / 2) as i32,
                ));
            }
            i = i + 1;
        }
        None
    }
}

proof fn lemma_first_at_path_stable(flat: Seq<FlatSpec>, path: Seq<usize>, k: int, n: int)
    requires
        0 < k <= n,
        first_at_path(flat, path, k) < k,
    ensures
        first_at_path(flat, path, n) == first_at_path(flat, path, k),
    decreases n - k,
{
    if k < n {
        lemma_first_at_path_stable(flat, path, k, n - 1);
    }
}

/// A node's size is its label's widest line and line count with the node
/// padding around them (at least one cell wide), and a border adds one cell
/// on every side: the same node with its border drawn is two cells wider
/// and two taller than without (while sizes stay below `u16::MAX`). A
/// node's own border setting overrides the graph's.
pub proof fn law_node_dims(node: GraphNode, g: Graph)
    ensures
        ({
            let on = GraphNode { border: Some(true), ..node };
            let off = GraphNode { border: Some(false), ..node };
            let lines = node_lines(node, g);
            let lw = widest(lines, lines.len() as int);
            let lh = if lines.len() < 1 { 1 } else { lines.len() as int };
            let (w, h) = spec_node_dims(off, g);
            &&& (lh < u16::MAX && lw + g.node_padding.left + g.node_padding.right < u16::MAX - 2 && lh
                + g.node_padding.top + g.node_padding.bottom < u16::MAX - 2) ==> {
                &&& w == (if lw + g.node_padding.left + g.node_padding.right < 1 {
                    1
                } else {
                    lw + g.node_padding.left + g.node_padding.right
                })
                &&& h == lh + g.node_padding.top + g.node_padding.bottom
                &&& spec_node_dims(on, g) == (w + 2, h + 2)
            }
            &&& node.border is None ==> spec_node_dims(node, g) == if g.node_border {
                spec_node_dims(on, g)
            } else {
                spec_node_dims(off, g)
            }
        }),
{
}

} // verus!
