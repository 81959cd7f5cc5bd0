//! A whole flowchart laid out: nodes placed in the order their layers were
//! given, subgraph boxes around them, edges routed, and the picture moved to
//! the origin; and the size the flowchart takes with its chrome.

use vstd::prelude::*;

use crate::flowchart::Flowchart;
use crate::flowchart_boxes::{boxes_upto, boxes_view, layout_subgraphs, sort_by_depth, PositionedNode, PositionedSubgraph};
use crate::flowchart_edges::{edge_fits, edges_fit, routable, routable_edges, route_edges, routed_edge};
use crate::flowchart_label::{intrinsic_node_size, spec_node_size, spec_wrap_label};
use crate::flowchart_layout::{nodes_declared, LayoutNode};
use crate::flowchart_output::{edge_shape, normalize_output, normalized, FlowchartRenderOutput, PositionedEdge};
use crate::flowchart_place::{assign_coordinates, node_view, spec_positioned};
use crate::flowchart_rank::{
    assign_layers, classify_edges, lemma_layout_edges_ok, spec_back_edges, spec_layout_edges, spec_ranked,
};
use crate::wrap::strings_view;

verus! {

/// The wrapped label lines of each laid-out node.
pub open spec fn label_lines_of(fc: Flowchart, ordered: Seq<LayoutNode>) -> Seq<Seq<Seq<char>>> {
    Seq::new(
        ordered.len(),
        |j: int|
            spec_wrap_label(
                fc.nodes@[ordered[j].spec_index as int].label@,
                if fc.max_node_width < 1 { 1 } else { fc.max_node_width as int },
            ),
    )
}

/// `ns` are the laid-out nodes placed.
pub open spec fn placed(fc: Flowchart, ordered: Seq<LayoutNode>, ns: Seq<PositionedNode>) -> bool {
    &&& ns.len() == ordered.len()
    &&& forall|i: int|
        0 <= i < ns.len() ==> node_view(#[trigger] ns[i]) == spec_positioned(fc, ordered, label_lines_of(fc, ordered), i)
}

/// `bs` are the subgraph boxes around nodes `ns`, shallowest first.
pub open spec fn boxed(fc: Flowchart, ns: Seq<PositionedNode>, bs: Seq<PositionedSubgraph>) -> bool {
    boxes_view(bs) == sort_by_depth(boxes_upto(fc, ns, fc.subgraphs@.len() as int))
}

/// `es` are the routed edges between nodes `ns` around boxes `bs`.
pub open spec fn routed_all(fc: Flowchart, ns: Seq<PositionedNode>, bs: Seq<PositionedSubgraph>, es: Seq<PositionedEdge>) -> bool {
    let kept = routable_edges(fc, ns, spec_layout_edges(fc), spec_layout_edges(fc).len() as int);
    &&& es.len() == kept.len()
    &&& forall|i: int|
        0 <= i < es.len() ==> routed_edge(fc, ns, bs, spec_back_edges(fc), kept[i], edge_shape(#[trigger] es[i]))
}

/// Every routable edge among nodes `ns` and boxes `bs` fits its arithmetic.
pub open spec fn routes_fit(fc: Flowchart, ns: Seq<PositionedNode>, bs: Seq<PositionedSubgraph>) -> bool {
    forall|i: int|
        0 <= i < spec_layout_edges(fc).len() && routable(fc, ns, #[trigger] spec_layout_edges(fc)[i]) ==> edge_fits(
            fc,
            ns,
            bs,
            spec_back_edges(fc),
            spec_layout_edges(fc)[i],
        )
}

/// What laying out `fc` with its nodes in `ordered` may ask of its inputs:
/// every laid-out node declared, counts below `usize::MAX`, and every route
/// fitting its arithmetic wherever nodes and boxes land.
pub open spec fn layout_ok(fc: Flowchart, ordered: Seq<LayoutNode>) -> bool {
    &&& fc.nodes@.len() < usize::MAX
    &&& fc.subgraphs@.len() < usize::MAX
    &&& nodes_declared(fc, ordered)
    &&& forall|i: int| 0 <= i < ordered.len() ==> (#[trigger] ordered[i]).layer < usize::MAX
    &&& forall|ns: Seq<PositionedNode>, bs: Seq<PositionedSubgraph>|
        #![trigger placed(fc, ordered, ns), boxed(fc, ns, bs)]
        placed(fc, ordered, ns) && boxed(fc, ns, bs) ==> routes_fit(fc, ns, bs)
}

/// The empty picture.
pub open spec fn empty_output(r: FlowchartRenderOutput) -> bool {
    r.nodes@.len() == 0 && r.subgraphs@.len() == 0 && r.edges@.len() == 0 && r.width == 0 && r.height == 0
}

/// The picture of `fc` laid out from `ordered`: empty without nodes;
/// otherwise the placed nodes, their boxes and routed edges, moved to the
/// origin.
pub open spec fn laid_out(fc: Flowchart, ordered: Seq<LayoutNode>, r: FlowchartRenderOutput) -> bool {
    if fc.nodes@.len() == 0 {
        empty_output(r)
    } else {
        exists|ns: Seq<PositionedNode>, bs: Seq<PositionedSubgraph>, es: Seq<PositionedEdge>|
            #![trigger normalized(ns, bs, es, r)]
            placed(fc, ordered, ns) && boxed(fc, ns, bs) && routed_all(fc, ns, bs, es) && normalized(ns, bs, es, r)
    }
}

fn node_lines(fc: &Flowchart, ordered: &Vec<LayoutNode>) -> (r: Vec<Vec<String>>)
    requires
        nodes_declared(*fc, ordered@),
    ensures
        r@.len() == ordered@.len(),
        Seq::new(r@.len(), |j: int| strings_view(r@[j]@)) == label_lines_of(*fc, ordered@),
{
    let mut out: Vec<Vec<String>> = Vec::new();
    let mut i: usize = 0;
    while i < ordered.len()
        invariant
            i <= ordered@.len(),
            nodes_declared(*fc, ordered@),
            out@.len() == i,
            forall|j: int| 0 <= j < i ==> strings_view((#[trigger] out@[j])@) == label_lines_of(*fc, ordered@)[j],
        decreases ordered@.len() - i,
    {
        let node = &fc.nodes[ordered[i].spec_index];
        let (_, _, lines) = intrinsic_node_size(node.label.as_str(), node.shape, fc.max_node_width);
        out.push(lines);
        i = i + 1;
    }
    assert(Seq::new(out@.len(), |j: int| strings_view(out@[j]@)) =~= label_lines_of(*fc, ordered@));
    out
}

/// Lays out `fc` with its nodes layered and ordered as in `ordered`; see
/// [`laid_out`].
pub fn build_flowchart_output(fc: &Flowchart, ordered: &Vec<LayoutNode>) -> (r: FlowchartRenderOutput)
    requires
        layout_ok(*fc, ordered@),
    ensures
        laid_out(*fc, ordered@, r),
{
    if fc.nodes.len() == 0 {
        return FlowchartRenderOutput {
            nodes: Vec::new(),
            subgraphs: Vec::new(),
            edges: Vec::new(),
            width: 0,
            height: 0,
        };
    }
    let lines = node_lines(fc, ordered);
    let (layout_edges, back_edges) = classify_edges(fc);
    let positioned = assign_coordinates(fc, ordered, &lines);
    let boxes = layout_subgraphs(fc, &positioned);
    assert(placed(*fc, ordered@, positioned@));
    assert(boxed(*fc, positioned@, boxes@));
    assert(routes_fit(*fc, positioned@, boxes@));
    let edges = route_edges(fc, &positioned, &boxes, &layout_edges, &back_edges);
    let ghost (ns, bs, es) = (positioned@, boxes@, edges@);
    assert(routed_all(*fc, ns, bs, es));
    let r = normalize_output(positioned, boxes, edges);
    assert(normalized(ns, bs, es, r));
    r
}

/// `v + d`, at most `u16::MAX`.
pub open spec fn add16(v: int, d: int) -> int {
    if v + d > 0xffff { 0xffff } else { v + d }
}

/// The size with chrome: the picture, then the padding, then two cells of
/// border each way when there is a border.
pub open spec fn with_chrome(fc: Flowchart, w: int, h: int) -> (int, int) {
    let w1 = add16(w, fc.padding.spec_horizontal());
    let h1 = add16(h, fc.padding.spec_vertical());
    if fc.border {
        (add16(w1, 2), add16(h1, 2))
    } else {
        (w1, h1)
    }
}

/// The size a flowchart takes, chrome included; see [`with_chrome`].
pub fn measure_flowchart(fc: &Flowchart, ordered: &Vec<LayoutNode>) -> (r: (u16, u16))
    requires
        layout_ok(*fc, ordered@),
    ensures
        exists|out: FlowchartRenderOutput|
            laid_out(*fc, ordered@, out) && #[trigger] with_chrome(*fc, out.width as int, out.height as int) == (
                r.0 as int,
                r.1 as int,
            ),
{
    let out = build_flowchart_output(fc, ordered);
    let mut w = out.width.saturating_add(fc.padding.horizontal());
    let mut h = out.height.saturating_add(fc.padding.vertical());
    if fc.border {
        w = w.saturating_add(2);
        h = h.saturating_add(2);
    }
    assert(with_chrome(*fc, out.width as int, out.height as int) == (w as int, h as int));
    (w, h)
}

/// The nodes before layering, as values; see [`initial_layout_nodes`].
pub open spec fn initial_nodes(fc: Flowchart) -> Seq<LayoutNode> {
    Seq::new(
        fc.nodes@.len(),
        |i: int|
            LayoutNode {
                spec_index: i as usize,
                layer: 0,
                order: i as usize,
                width: spec_node_size(fc.nodes@[i].label@, fc.nodes@[i].shape, fc.max_node_width as int).0 as u16,
                height: spec_node_size(fc.nodes@[i].label@, fc.nodes@[i].shape, fc.max_node_width as int).1 as u16,
            },
    )
}

/// The nodes before layering: each declared node in order, in layer zero at
/// its own position, with its intrinsic size.
pub fn initial_layout_nodes(fc: &Flowchart) -> (r: Vec<LayoutNode>)
    ensures
        r@.len() == fc.nodes@.len(),
        forall|i: int|
            0 <= i < r@.len() ==> {
                let n = #[trigger] r@[i];
                &&& n.spec_index == i && n.layer == 0 && n.order == i
                &&& (n.width as int, n.height as int) == spec_node_size(
                    fc.nodes@[i].label@,
                    fc.nodes@[i].shape,
                    fc.max_node_width as int,
                )
            },
{
    let mut out: Vec<LayoutNode> = Vec::new();
    let mut i: usize = 0;
    while i < fc.nodes.len()
        invariant
            i <= fc.nodes@.len(),
            out@.len() == i,
            forall|j: int|
                0 <= j < i ==> {
                    let n = #[trigger] out@[j];
                    &&& n.spec_index == j && n.layer == 0 && n.order == j
                    &&& (n.width as int, n.height as int) == spec_node_size(
                        fc.nodes@[j].label@,
                        fc.nodes@[j].shape,
                        fc.max_node_width as int,
                    )
                },
        decreases fc.nodes@.len() - i,
    {
        let node = &fc.nodes[i];
        let (width, height, _) = intrinsic_node_size(node.label.as_str(), node.shape, fc.max_node_width);
        out.push(LayoutNode { spec_index: i, layer: 0, order: i, width, height });
        i = i + 1;
    }
    out
}

/// The nodes layered: [`initial_layout_nodes`] with each node's layer from
/// the layering of the flowchart's edges.
pub fn layered_nodes(fc: &Flowchart) -> (r: Vec<LayoutNode>)
    requires
        fc.nodes@.len() < usize::MAX,
    ensures
        r@.len() == fc.nodes@.len(),
        nodes_declared(*fc, r@),
        forall|i: int|
            0 <= i < r@.len() ==> {
                let n = #[trigger] r@[i];
                &&& n.spec_index == i && n.order == i
                &&& (n.width as int, n.height as int) == spec_node_size(
                    fc.nodes@[i].label@,
                    fc.nodes@[i].shape,
                    fc.max_node_width as int,
                )
            },
        forall|i: int|
            0 <= i < r@.len() ==> (#[trigger] r@[i]).layer == spec_ranked(initial_nodes(*fc), spec_layout_edges(*fc))[i],
{
    let mut nodes = initial_layout_nodes(fc);
    let ghost init = nodes@;
    assert(init =~= initial_nodes(*fc));
    let (edges, _) = classify_edges(fc);
    proof {
        lemma_layout_edges_ok(*fc);
    }
    assign_layers(&mut nodes, &edges);
    nodes
}

/// Whether the inputs of a layout that a test can settle hold: counts below
/// `usize::MAX`, every laid-out node declared, every layer below
/// `usize::MAX`.
pub open spec fn layout_inputs_ok(fc: Flowchart, ordered: Seq<LayoutNode>) -> bool {
    &&& fc.nodes@.len() < usize::MAX
    &&& fc.subgraphs@.len() < usize::MAX
    &&& nodes_declared(fc, ordered)
    &&& forall|i: int| 0 <= i < ordered.len() ==> (#[trigger] ordered[i]).layer < usize::MAX
}

fn layout_inputs_fit(fc: &Flowchart, ordered: &Vec<LayoutNode>) -> (r: bool)
    ensures
        r == layout_inputs_ok(*fc, ordered@),
{
    if fc.nodes.len() == usize::MAX || fc.subgraphs.len() == usize::MAX {
        return false;
    }
    let mut i: usize = 0;
    while i < ordered.len()
        invariant
            i <= ordered@.len(),
            forall|j: int|
                0 <= j < i ==> (#[trigger] ordered@[j]).spec_index < fc.nodes@.len() && ordered@[j].layer < usize::MAX,
        decreases ordered@.len() - i,
    {
        if ordered[i].spec_index >= fc.nodes.len() || ordered[i].layer == usize::MAX {
            return false;
        }
        i = i + 1;
    }
    true
}

/// Lays out `fc` as [`build_flowchart_output`] does, testing first what
/// that asks of its inputs: nothing (`None`) when a laid-out node is not
/// declared, a count or layer reaches `usize::MAX`, or a route's arithmetic
/// would overflow where the nodes and boxes actually land.
pub fn try_build_flowchart_output(fc: &Flowchart, ordered: &Vec<LayoutNode>) -> (r: Option<FlowchartRenderOutput>)
    ensures
        layout_ok(*fc, ordered@) ==> r is Some,
        r matches Some(out) ==> laid_out(*fc, ordered@, out),
        r is None ==> !layout_ok(*fc, ordered@),
{
    if fc.nodes.len() == 0 {
        return Some(
            FlowchartRenderOutput { nodes: Vec::new(), subgraphs: Vec::new(), edges: Vec::new(), width: 0, height: 0 },
        );
    }
    if !layout_inputs_fit(fc, ordered) {
        return None;
    }
    let lines = node_lines(fc, ordered);
    let (layout_edges, back_edges) = classify_edges(fc);
    let positioned = assign_coordinates(fc, ordered, &lines);
    let boxes = layout_subgraphs(fc, &positioned);
    assert(placed(*fc, ordered@, positioned@));
    assert(boxed(*fc, positioned@, boxes@));
    if !edges_fit(fc, &positioned, &boxes, &layout_edges, &back_edges) {
        assert(!routes_fit(*fc, positioned@, boxes@));
        return None;
    }
    assert(routes_fit(*fc, positioned@, boxes@));
    let edges = route_edges(fc, &positioned, &boxes, &layout_edges, &back_edges);
    let ghost (ns, bs, es) = (positioned@, boxes@, edges@);
    assert(routed_all(*fc, ns, bs, es));
    let r = normalize_output(positioned, boxes, edges);
    assert(normalized(ns, bs, es, r));
    Some(r)
}

/// The size with chrome of [`try_build_flowchart_output`]'s picture, when
/// it lays one out.
pub fn try_measure_flowchart(fc: &Flowchart, ordered: &Vec<LayoutNode>) -> (r: Option<(u16, u16)>)
    ensures
        layout_ok(*fc, ordered@) ==> r is Some,
        r is None ==> !layout_ok(*fc, ordered@),
        r matches Some(size) ==> exists|out: FlowchartRenderOutput|
            laid_out(*fc, ordered@, out) && #[trigger] with_chrome(*fc, out.width as int, out.height as int) == (
                size.0 as int,
                size.1 as int,
            ),
{
    match try_build_flowchart_output(fc, ordered) {
        None => None,
        Some(out) => {
            let mut w = out.width.saturating_add(fc.padding.horizontal());
            let mut h = out.height.saturating_add(fc.padding.vertical());
            if fc.border {
                w = w.saturating_add(2);
                h = h.saturating_add(2);
            }
            assert(with_chrome(*fc, out.width as int, out.height as int) == (w as int, h as int));
            Some((w, h))
        },
    }
}

} // verus!
