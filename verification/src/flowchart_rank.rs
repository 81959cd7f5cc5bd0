//! Ranking a flowchart's nodes into layers: edges are resolved to node
//! indices, the edges that close a cycle (found by a depth-first walk in
//! declaration order) are set aside as reversed, every other edge pushes its
//! target at least one layer below its source, and sources without
//! predecessors are pulled down next to their nearest successor.

use vstd::prelude::*;

use crate::flowchart::{Flowchart, FlowchartNodeSpec, NodeId};
use crate::flowchart_layout::LayoutNode;

verus! {

/// An edge between node indices; `reversed` when it closes a cycle.
#[derive(Clone, Copy, Debug, PartialEq, Eq, Structural)]
pub struct LayoutEdge {
    pub index: usize,
    pub from: usize,
    pub to: usize,
    pub reversed: bool,
}

/// The last declared node named `id`, or none.
pub open spec fn last_node_pos(nodes: Seq<FlowchartNodeSpec>, id: Seq<char>) -> Option<int>
    decreases nodes.len(),
{
    if nodes.len() == 0 {
        None
    } else if nodes.last().id.0@ == id {
        Some(nodes.len() - 1)
    } else {
        last_node_pos(nodes.drop_last(), id)
    }
}

proof fn lemma_last_node_pos(nodes: Seq<FlowchartNodeSpec>, id: Seq<char>)
    ensures
        last_node_pos(nodes, id) matches Some(i) ==> 0 <= i < nodes.len(),
    decreases nodes.len(),
{
    if nodes.len() > 0 {
        lemma_last_node_pos(nodes.drop_last(), id);
    }
}

fn node_index(nodes: &Vec<FlowchartNodeSpec>, id: &NodeId) -> (r: Option<usize>)
    ensures
        r matches Some(i) ==> last_node_pos(nodes@, id.0@) == Some(i as int),
        r is None ==> last_node_pos(nodes@, id.0@) is None,
{
    let mut k: usize = nodes.len();
    proof {
        assert(nodes@.subrange(0, k as int) =~= nodes@);
    }
    while k > 0
        invariant
            k <= nodes@.len(),
            last_node_pos(nodes@, id.0@) == last_node_pos(nodes@.subrange(0, k as int), id.0@),
        decreases k,
    {
        proof {
            assert(nodes@.subrange(0, k as int).drop_last() =~= nodes@.subrange(0, k - 1));
        }
        if nodes[k - 1].id.same(id) {
            return Some(k - 1);
        }
        k = k - 1;
    }
    None
}

/// The first `k` declared edges whose ends both name nodes, as (edge index,
/// source, target).
pub open spec fn raw_edges(fc: Flowchart, k: int) -> Seq<(usize, usize, usize)>
    decreases k,
{
    if k <= 0 || k > fc.edges@.len() {
        Seq::empty()
    } else {
        let prev = raw_edges(fc, k - 1);
        let e = fc.edges@[k - 1];
        match (last_node_pos(fc.nodes@, e.from.0@), last_node_pos(fc.nodes@, e.to.0@)) {
            (Some(a), Some(b)) => prev.push(((k - 1) as usize, a as usize, b as usize)),
            _ => prev,
        }
    }
}

/// The out-edges of node `v` among the first `k` raw edges, as (target,
/// edge index), in order.
pub open spec fn out_edges(raw: Seq<(usize, usize, usize)>, v: int, k: int) -> Seq<(usize, usize)>
    decreases k,
{
    if k <= 0 || k > raw.len() {
        Seq::empty()
    } else {
        let prev = out_edges(raw, v, k - 1);
        if raw[k - 1].1 == v {
            prev.push((raw[k - 1].2, raw[k - 1].0))
        } else {
            prev
        }
    }
}

/// The walk's state: nodes on the current path, nodes finished, and edges
/// found to close a cycle.
pub type WalkState = (Seq<bool>, Seq<bool>, Seq<bool>);

/// The depth-first walk from `node`, following at most `fuel` nested calls.
pub open spec fn walk(adj: Seq<Seq<(usize, usize)>>, node: int, st: WalkState, fuel: nat) -> WalkState
    decreases fuel, 0int,
{
    if fuel == 0 || st.1[node] {
        st
    } else {
        let st1 = (st.0.update(node, true), st.1, st.2);
        let st2 = walk_edges(adj, node, adj[node].len() as int, st1, (fuel - 1) as nat);
        (st2.0.update(node, false), st2.1.update(node, true), st2.2)
    }
}

/// The walk over the first `k` out-edges of `node`: an edge to a node on
/// the current path closes a cycle; an edge to an unvisited node is walked.
pub open spec fn walk_edges(adj: Seq<Seq<(usize, usize)>>, node: int, k: int, st: WalkState, fuel: nat) -> WalkState
    decreases fuel, k,
{
    if k <= 0 || k > adj[node].len() {
        st
    } else {
        let s = walk_edges(adj, node, k - 1, st, fuel);
        let (next, e) = adj[node][k - 1];
        if s.0[next as int] {
            (s.0, s.1, s.2.update(e as int, true))
        } else if !s.1[next as int] {
            walk(adj, next as int, s, fuel)
        } else {
            s
        }
    }
}

/// The walk started from each of the first `k` nodes in turn.
pub open spec fn walk_all(adj: Seq<Seq<(usize, usize)>>, k: int, st: WalkState, fuel: nat) -> WalkState
    decreases k,
{
    if k <= 0 {
        st
    } else {
        walk(adj, k - 1, walk_all(adj, k - 1, st, fuel), fuel)
    }
}

/// Whether adjacency lists and walk state fit `n` nodes and `m` edges.
pub open spec fn walk_ok(adj: Seq<Seq<(usize, usize)>>, st: WalkState, n: int, m: int) -> bool {
    &&& adj.len() == n
    &&& st.0.len() == n
    &&& st.1.len() == n
    &&& st.2.len() == m
    &&& forall|v: int, j: int| 0 <= v < n && 0 <= j < adj[v].len() ==> (#[trigger] adj[v][j]).0 < n && adj[v][j].1 < m
}

fn walk_exec(
    node: usize,
    adj: &Vec<Vec<(usize, usize)>>,
    visiting: &mut Vec<bool>,
    visited: &mut Vec<bool>,
    back: &mut Vec<bool>,
    fuel: usize,
)
    requires
        node < adj@.len(),
        walk_ok(adj@.map_values(|l: Vec<(usize, usize)>| l@), (old(visiting)@, old(visited)@, old(back)@), adj@.len() as int, old(back)@.len() as int),
    ensures
        (final(visiting)@, final(visited)@, final(back)@) == walk(
            adj@.map_values(|l: Vec<(usize, usize)>| l@),
            node as int,
            (old(visiting)@, old(visited)@, old(back)@),
            fuel as nat,
        ),
        final(visiting)@.len() == old(visiting)@.len(),
        final(visited)@.len() == old(visited)@.len(),
        final(back)@.len() == old(back)@.len(),
    decreases fuel,
{
    let ghost a = adj@.map_values(|l: Vec<(usize, usize)>| l@);
    if fuel == 0 || visited[node] {
        return;
    }
    visiting.set(node, true);
    let ghost st1 = (visiting@, visited@, back@);
    let ghost m0 = back@.len();
    let list = &adj[node];
    assert(a[node as int] == list@);
    let mut k: usize = 0;
    while k < list.len()
        invariant
            k <= list@.len(),
            node < adj@.len(),
            a == adj@.map_values(|l: Vec<(usize, usize)>| l@),
            a[node as int] == list@,
            fuel > 0,
            back@.len() == m0,
            walk_ok(a, (visiting@, visited@, back@), adj@.len() as int, back@.len() as int),
            (visiting@, visited@, back@) == walk_edges(a, node as int, k as int, st1, (fuel - 1) as nat),
        decreases list@.len() - k,
    {
        let (next, e) = list[k];
        assert(a[node as int][k as int] == (next, e));
        if visiting[next] {
            back.set(e, true);
        } else if !visited[next] {
            walk_exec(next, adj, visiting, visited, back, fuel - 1);
        }
        k = k + 1;
    }
    visiting.set(node, false);
    visited.set(node, true);
}

/// Every node's out-edges.
pub open spec fn adjacency(fc: Flowchart) -> Seq<Seq<(usize, usize)>> {
    let raw = raw_edges(fc, fc.edges@.len() as int);
    Seq::new(fc.nodes@.len(), |v: int| out_edges(raw, v, raw.len() as int))
}

/// Which edges close a cycle: the walk started from every node in
/// declaration order, nested as deep as there are nodes.
pub open spec fn spec_back_edges(fc: Flowchart) -> Seq<bool> {
    let n = fc.nodes@.len();
    let st: WalkState = (Seq::new(n, |i: int| false), Seq::new(n, |i: int| false), Seq::new(fc.edges@.len(), |i: int| false));
    walk_all(adjacency(fc), n as int, st, (n + 1) as nat).2
}

/// The resolved edges, each marked reversed when it closes a cycle.
pub open spec fn spec_layout_edges(fc: Flowchart) -> Seq<LayoutEdge> {
    let raw = raw_edges(fc, fc.edges@.len() as int);
    let back = spec_back_edges(fc);
    Seq::new(
        raw.len(),
        |i: int| LayoutEdge { index: raw[i].0, from: raw[i].1, to: raw[i].2, reversed: back[raw[i].0 as int] },
    )
}

proof fn lemma_raw_edges(fc: Flowchart, k: int)
    ensures
        forall|i: int|
            0 <= i < raw_edges(fc, k).len() ==> (#[trigger] raw_edges(fc, k)[i]).0 < fc.edges@.len()
                && raw_edges(fc, k)[i].1 < fc.nodes@.len() && raw_edges(fc, k)[i].2 < fc.nodes@.len(),
    decreases k,
{
    if k > 0 && k <= fc.edges@.len() {
        lemma_raw_edges(fc, k - 1);
        let e = fc.edges@[k - 1];
        lemma_last_node_pos(fc.nodes@, e.from.0@);
        lemma_last_node_pos(fc.nodes@, e.to.0@);
        let prev = raw_edges(fc, k - 1);
        let cur = raw_edges(fc, k);
        assert forall|i: int| 0 <= i < cur.len() implies (#[trigger] cur[i]).0 < fc.edges@.len() && cur[i].1
            < fc.nodes@.len() && cur[i].2 < fc.nodes@.len() by {
            if i < prev.len() {
                assert(cur[i] == prev[i]);
            }
        }
    }
}

proof fn lemma_out_edges(raw: Seq<(usize, usize, usize)>, v: int, k: int, n: int, m: int)
    requires
        forall|i: int| 0 <= i < raw.len() ==> (#[trigger] raw[i]).0 < m && raw[i].1 < n && raw[i].2 < n,
    ensures
        forall|j: int| 0 <= j < out_edges(raw, v, k).len() ==> (#[trigger] out_edges(raw, v, k)[j]).0 < n && out_edges(
            raw,
            v,
            k,
        )[j].1 < m,
    decreases k,
{
    if k > 0 && k <= raw.len() {
        lemma_out_edges(raw, v, k - 1, n, m);
        let prev = out_edges(raw, v, k - 1);
        let cur = out_edges(raw, v, k);
        assert forall|j: int| 0 <= j < cur.len() implies (#[trigger] cur[j]).0 < n && cur[j].1 < m by {
            if j < prev.len() {
                assert(cur[j] == prev[j]);
            } else {
                assert(raw[k - 1].0 < m && raw[k - 1].2 < n);
            }
        }
    }
}

fn raw_edges_exec(fc: &Flowchart) -> (r: Vec<(usize, usize, usize)>)
    ensures
        r@ == raw_edges(*fc, fc.edges@.len() as int),
{
    let mut out: Vec<(usize, usize, usize)> = Vec::new();
    let mut k: usize = 0;
    while k < fc.edges.len()
        invariant
            k <= fc.edges@.len(),
            out@ == raw_edges(*fc, k as int),
        decreases fc.edges@.len() - k,
    {
        let e = &fc.edges[k];
        match (node_index(&fc.nodes, &e.from), node_index(&fc.nodes, &e.to)) {
            (Some(a), Some(b)) => out.push((k, a, b)),
            _ => {},
        }
        k = k + 1;
    }
    out
}

fn out_edges_exec(raw: &Vec<(usize, usize, usize)>, v: usize) -> (r: Vec<(usize, usize)>)
    ensures
        r@ == out_edges(raw@, v as int, raw@.len() as int),
{
    let mut out: Vec<(usize, usize)> = Vec::new();
    let mut k: usize = 0;
    while k < raw.len()
        invariant
            k <= raw@.len(),
            out@ == out_edges(raw@, v as int, k as int),
        decreases raw@.len() - k,
    {
        let (e, a, b) = raw[k];
        if a == v {
            out.push((b, e));
        }
        k = k + 1;
    }
    out
}

fn falses(n: usize) -> (r: Vec<bool>)
    ensures
        r@ == Seq::new(n as nat, |i: int| false),
{
    let mut out: Vec<bool> = Vec::new();
    let mut k: usize = 0;
    while k < n
        invariant
            k <= n,
            out@ == Seq::new(k as nat, |i: int| false),
        decreases n - k,
    {
        out.push(false);
        proof {
            assert(out@ =~= Seq::new((k + 1) as nat, |i: int| false));
        }
        k = k + 1;
    }
    out
}

/// Resolves the edges to node indices and marks those that close a cycle;
/// also gives, by edge index, which edges were marked.
pub fn classify_edges(fc: &Flowchart) -> (r: (Vec<LayoutEdge>, Vec<bool>))
    requires
        fc.nodes@.len() < usize::MAX,
    ensures
        r.0@ == spec_layout_edges(*fc),
        r.1@ == spec_back_edges(*fc),
{
    let n = fc.nodes.len();
    let m = fc.edges.len();
    let raw = raw_edges_exec(fc);
    proof {
        lemma_raw_edges(*fc, fc.edges@.len() as int);
    }
    let mut adj: Vec<Vec<(usize, usize)>> = Vec::new();
    let mut v: usize = 0;
    while v < n
        invariant
            v <= n,
            n == fc.nodes@.len(),
            raw@ == raw_edges(*fc, fc.edges@.len() as int),
            adj@.len() == v,
            forall|u: int| 0 <= u < v ==> (#[trigger] adj@[u])@ == out_edges(raw@, u, raw@.len() as int),
        decreases n - v,
    {
        adj.push(out_edges_exec(&raw, v));
        v = v + 1;
    }
    let ghost a = adj@.map_values(|l: Vec<(usize, usize)>| l@);
    proof {
        assert(a =~= adjacency(*fc));
        assert forall|u: int, j: int| 0 <= u < n && 0 <= j < a[u].len() implies (#[trigger] a[u][j]).0 < n && a[u][j].1 < m by {
            lemma_out_edges(raw@, u, raw@.len() as int, n as int, m as int);
        }
    }
    let mut visiting = falses(n);
    let mut visited = falses(n);
    let mut back = falses(m);
    let ghost st0: WalkState = (visiting@, visited@, back@);
    let mut node: usize = 0;
    while node < n
        invariant
            node <= n,
            n == fc.nodes@.len(),
            n < usize::MAX,
            adj@.len() == n,
            a == adj@.map_values(|l: Vec<(usize, usize)>| l@),
            walk_ok(a, (visiting@, visited@, back@), n as int, m as int),
            (visiting@, visited@, back@) == walk_all(a, node as int, st0, (n + 1) as nat),
        decreases n - node,
    {
        walk_exec(node, &adj, &mut visiting, &mut visited, &mut back, n + 1);
        node = node + 1;
    }
    let mut edges: Vec<LayoutEdge> = Vec::new();
    let mut k: usize = 0;
    while k < raw.len()
        invariant
            k <= raw@.len(),
            raw@ == raw_edges(*fc, fc.edges@.len() as int),
            back@ == spec_back_edges(*fc),
            back@.len() == m,
            m == fc.edges@.len(),
            forall|i: int|
                0 <= i < raw@.len() ==> (#[trigger] raw@[i]).0 < m && raw@[i].1 < n && raw@[i].2 < n,
            edges@ == spec_layout_edges(*fc).subrange(0, k as int),
        decreases raw@.len() - k,
    {
        let (e, from, to) = raw[k];
        edges.push(LayoutEdge { index: e, from, to, reversed: back[e] });
        proof {
            assert(edges@ =~= spec_layout_edges(*fc).subrange(0, k + 1));
        }
        k = k + 1;
    }
    proof {
        assert(spec_layout_edges(*fc).subrange(0, raw@.len() as int) =~= spec_layout_edges(*fc));
    }
    (edges, back)
}

/// `a + b` saturating at `usize::MAX`.
pub open spec fn sat_add_usize(a: int, b: int) -> int {
    if a + b > usize::MAX { usize::MAX as int } else { a + b }
}

/// One pass over the first `k` edges: each edge that does not close a cycle
/// pushes its target to at least one layer below its source. Gives the
/// layers and whether any moved.
pub open spec fn relax(layers: Seq<usize>, edges: Seq<LayoutEdge>, k: int) -> (Seq<usize>, bool)
    decreases k,
{
    if k <= 0 || k > edges.len() {
        (layers, false)
    } else {
        let (l, c) = relax(layers, edges, k - 1);
        let e = edges[k - 1];
        let next = sat_add_usize(l[e.from as int] as int, 1);
        if !e.reversed && l[e.to as int] < next {
            (l.update(e.to as int, next as usize), true)
        } else {
            (l, c)
        }
    }
}

/// Passes repeated while one moved something, at most `limit` of them in all
/// (`guard` made so far).
pub open spec fn relax_rounds(layers: Seq<usize>, edges: Seq<LayoutEdge>, changed: bool, guard: int, limit: int) -> Seq<
    usize,
>
    decreases limit - guard,
{
    if !changed || guard >= limit {
        layers
    } else {
        let (l, c) = relax(layers, edges, edges.len() as int);
        relax_rounds(l, edges, c, guard + 1, limit)
    }
}

/// The number of passes allowed: nodes times edges (at least one each),
/// saturating, and at least one.
pub open spec fn pass_limit(n: int, m: int) -> int {
    let mm = if m < 1 { 1 } else { m };
    let p = if n * mm > usize::MAX { usize::MAX as int } else { n * mm };
    if p < 1 { 1 } else { p }
}

/// Whether one of the first `k` edges that do not close a cycle ends at `v`.
pub open spec fn has_incoming(edges: Seq<LayoutEdge>, v: int, k: int) -> bool
    decreases k,
{
    if k <= 0 || k > edges.len() {
        false
    } else {
        has_incoming(edges, v, k - 1) || (!edges[k - 1].reversed && edges[k - 1].to == v)
    }
}

/// The least layer just above a successor of `v`, over the first `k` edges
/// that do not close a cycle; none without such an edge.
pub open spec fn min_target(layers: Seq<usize>, edges: Seq<LayoutEdge>, v: int, k: int) -> Option<int>
    decreases k,
{
    if k <= 0 || k > edges.len() {
        None
    } else {
        let prev = min_target(layers, edges, v, k - 1);
        let e = edges[k - 1];
        if !e.reversed && e.from == v {
            let t = if layers[e.to as int] == 0 { 0 } else { layers[e.to as int] - 1 };
            match prev {
                None => Some(t),
                Some(p) => Some(if t < p { t } else { p }),
            }
        } else {
            prev
        }
    }
}

/// The first `k` nodes, in order, each without a predecessor moved down to
/// just above its nearest successor when that is lower.
pub open spec fn pull_sources(layers: Seq<usize>, edges: Seq<LayoutEdge>, k: int) -> Seq<usize>
    decreases k,
{
    if k <= 0 {
        layers
    } else {
        let l = pull_sources(layers, edges, k - 1);
        let v = k - 1;
        if has_incoming(edges, v, edges.len() as int) {
            l
        } else {
            match min_target(l, edges, v, edges.len() as int) {
                Some(t) => if t > l[v] { l.update(v, t as usize) } else { l },
                None => l,
            }
        }
    }
}

/// The layers of `nodes`.
pub open spec fn layers_of(nodes: Seq<LayoutNode>) -> Seq<usize> {
    Seq::new(nodes.len(), |i: int| nodes[i].layer)
}

/// The layers after ranking: relaxation passes, then sources pulled down.
pub open spec fn spec_ranked(nodes: Seq<LayoutNode>, edges: Seq<LayoutEdge>) -> Seq<usize> {
    let r = relax_rounds(layers_of(nodes), edges, true, 0, pass_limit(nodes.len() as int, edges.len() as int));
    pull_sources(r, edges, nodes.len() as int)
}

/// Whether every edge joins two of `n` nodes.
pub open spec fn edges_ok(edges: Seq<LayoutEdge>, n: int) -> bool {
    forall|i: int| 0 <= i < edges.len() ==> (#[trigger] edges[i]).from < n && edges[i].to < n
}

fn relax_exec(layers: &mut Vec<usize>, edges: &Vec<LayoutEdge>) -> (r: bool)
    requires
        edges_ok(edges@, old(layers)@.len() as int),
    ensures
        (final(layers)@, r) == relax(old(layers)@, edges@, edges@.len() as int),
        final(layers)@.len() == old(layers)@.len(),
{
    let ghost l0 = layers@;
    let mut changed = false;
    let mut k: usize = 0;
    while k < edges.len()
        invariant
            k <= edges@.len(),
            layers@.len() == l0.len(),
            edges_ok(edges@, l0.len() as int),
            (layers@, changed) == relax(l0, edges@, k as int),
        decreases edges@.len() - k,
    {
        let e = edges[k];
        let next = layers[e.from].saturating_add(1);
        if !e.reversed && layers[e.to] < next {
            layers.set(e.to, next);
            changed = true;
        }
        k = k + 1;
    }
    changed
}

fn min_target_exec(layers: &Vec<usize>, edges: &Vec<LayoutEdge>, v: usize) -> (r: Option<usize>)
    requires
        edges_ok(edges@, layers@.len() as int),
    ensures
        match r {
            Some(t) => min_target(layers@, edges@, v as int, edges@.len() as int) == Some(t as int),
            None => min_target(layers@, edges@, v as int, edges@.len() as int) is None,
        },
{
    let mut best: Option<usize> = None;
    let mut k: usize = 0;
    while k < edges.len()
        invariant
            k <= edges@.len(),
            edges_ok(edges@, layers@.len() as int),
            match best {
                Some(t) => min_target(layers@, edges@, v as int, k as int) == Some(t as int),
                None => min_target(layers@, edges@, v as int, k as int) is None,
            },
        decreases edges@.len() - k,
    {
        let e = edges[k];
        if !e.reversed && e.from == v {
            let t = layers[e.to].saturating_sub(1);
            best = match best {
                None => Some(t),
                Some(p) => Some(if t < p { t } else { p }),
            };
        }
        k = k + 1;
    }
    best
}

fn has_incoming_exec(edges: &Vec<LayoutEdge>, v: usize) -> (r: bool)
    ensures
        r == has_incoming(edges@, v as int, edges@.len() as int),
{
    let mut found = false;
    let mut k: usize = 0;
    while k < edges.len()
        invariant
            k <= edges@.len(),
            found == has_incoming(edges@, v as int, k as int),
        decreases edges@.len() - k,
    {
        if !edges[k].reversed && edges[k].to == v {
            found = true;
        }
        k = k + 1;
    }
    found
}

/// Moves each node without a predecessor, in order, down to just above its
/// nearest successor when that is lower; see [`pull_sources`].
fn pull_predecessorless_sources_forward(layers: &mut Vec<usize>, edges: &Vec<LayoutEdge>)
    requires
        edges_ok(edges@, old(layers)@.len() as int),
    ensures
        final(layers)@ == pull_sources(old(layers)@, edges@, old(layers)@.len() as int),
        final(layers)@.len() == old(layers)@.len(),
{
    let n = layers.len();
    let ghost ranked = layers@;
    let mut v: usize = 0;
    while v < n
        invariant
            v <= n,
            layers@.len() == n,
            edges_ok(edges@, n as int),
            layers@ == pull_sources(ranked, edges@, v as int),
        decreases n - v,
    {
        if !has_incoming_exec(edges, v) {
            match min_target_exec(&layers, edges, v) {
                Some(t) => {
                    if t > layers[v] {
                        layers.set(v, t);
                    }
                },
                None => {},
            }
        }
        v = v + 1;
    }
}

/// Ranks the nodes into layers; only their layers change. See
/// [`spec_ranked`].
pub fn assign_layers(nodes: &mut Vec<LayoutNode>, edges: &Vec<LayoutEdge>)
    requires
        edges_ok(edges@, old(nodes)@.len() as int),
    ensures
        final(nodes)@.len() == old(nodes)@.len(),
        forall|i: int|
            0 <= i < final(nodes)@.len() ==> #[trigger] final(nodes)@[i] == (LayoutNode {
                layer: spec_ranked(old(nodes)@, edges@)[i],
                ..old(nodes)@[i]
            }),
{
    let ghost n0 = nodes@;
    let n = nodes.len();
    let mut layers: Vec<usize> = Vec::new();
    let mut k: usize = 0;
    while k < n
        invariant
            k <= n,
            n == n0.len(),
            nodes@ == n0,
            layers@ == layers_of(n0).subrange(0, k as int),
        decreases n - k,
    {
        layers.push(nodes[k].layer);
        proof {
            assert(layers@ =~= layers_of(n0).subrange(0, k + 1));
        }
        k = k + 1;
    }
    proof {
        assert(layers@ =~= layers_of(n0));
    }
    let m = edges.len();
    let mm: usize = if m < 1 { 1 } else { m };
    proof {
        assert(0 <= n * mm <= usize::MAX * usize::MAX) by (nonlinear_arith)
            requires
                0 <= n <= usize::MAX,
                0 <= mm <= usize::MAX;
    }
    let prod: u128 = n as u128 * mm as u128;
    let p: usize = if prod > usize::MAX as u128 { usize::MAX } else { prod as usize };
    let limit: usize = if p < 1 { 1 } else { p };
    let mut changed = true;
    let mut guard: usize = 0;
    assert(limit == pass_limit(n as int, m as int));
    while changed && guard < limit
        invariant
            layers@.len() == n,
            n == n0.len(),
            edges_ok(edges@, n as int),
            guard <= limit,
            limit == pass_limit(n as int, edges@.len() as int),
            relax_rounds(layers@, edges@, changed, guard as int, limit as int) == relax_rounds(
                layers_of(n0),
                edges@,
                true,
                0,
                limit as int,
            ),
        decreases limit - guard,
    {
        changed = relax_exec(&mut layers, edges);
        guard = guard + 1;
    }
    pull_predecessorless_sources_forward(&mut layers, edges);
    let mut i: usize = 0;
    while i < n
        invariant
            i <= n,
            n == n0.len(),
            nodes@.len() == n,
            layers@.len() == n,
            layers@ == spec_ranked(n0, edges@),
            forall|j: int| 0 <= j < i ==> #[trigger] nodes@[j] == (LayoutNode { layer: layers@[j], ..n0[j] }),
            forall|j: int| i <= j < n ==> #[trigger] nodes@[j] == n0[j],
        decreases n - i,
    {
        let mut node = nodes[i];
        node.layer = layers[i];
        nodes.set(i, node);
        i = i + 1;
    }
}

/// The layout edges join declared nodes.
pub proof fn lemma_layout_edges_ok(fc: Flowchart)
    ensures
        edges_ok(spec_layout_edges(fc), fc.nodes@.len() as int),
{
    lemma_raw_edges(fc, fc.edges@.len() as int);
    let raw = raw_edges(fc, fc.edges@.len() as int);
    assert forall|i: int| 0 <= i < spec_layout_edges(fc).len() implies (#[trigger] spec_layout_edges(fc)[i]).from
        < fc.nodes@.len() && spec_layout_edges(fc)[i].to < fc.nodes@.len() by {
        assert(raw[i].1 < fc.nodes@.len() && raw[i].2 < fc.nodes@.len());
    }
}

} // verus!
