//! The flowchart widget's description: nodes with shapes, directed edges
//! with strokes and arrowheads, nested subgraphs, class styles, and the
//! glyph theme it is drawn with.

use vstd::prelude::*;

use crate::git::{spec_lookup, PathMap};
use crate::style::{BorderStyle, Length, Padding, Style};

verus! {

/// Direction in which a flowchart is laid out.
#[derive(Clone, Copy, Debug, PartialEq, Eq, Structural, Hash)]
pub enum FlowDirection {
    /// Sources above targets.
    TopDown,
    /// Sources below targets.
    BottomUp,
    /// Sources left of targets.
    LeftRight,
    /// Sources right of targets.
    RightLeft,
}

/// The outline of a node.
#[derive(Clone, Copy, Debug, PartialEq, Eq, Structural, Hash)]
pub enum NodeShape {
    Rect,
    Round,
    Stadium,
    Subroutine,
    Cylinder,
    Circle,
    Asymmetric,
    Diamond,
    Hexagon,
    Parallelogram,
    ParallelogramAlt,
    Trapezoid,
    TrapezoidAlt,
    DoubleCircle,
}

/// The stroke of an edge.
#[derive(Clone, Copy, Debug, PartialEq, Eq, Structural, Hash)]
pub enum EdgeStyle {
    Solid,
    Dashed,
    Thick,
    /// Takes part in layout but is not drawn.
    Invisible,
}

/// The marker at an end of an edge.
#[derive(Clone, Copy, Debug, PartialEq, Eq, Structural, Hash)]
pub enum EdgeArrow {
    /// No marker.
    NoHead,
    Open,
    Filled,
    Cross,
    Circle,
}

impl EdgeStyle {
    /// The slot of this stroke in a theme's glyph table.
    pub fn theme_index(self) -> (r: usize)
        ensures
            r == (match self {
                EdgeStyle::Solid => 0usize,
                EdgeStyle::Dashed => 1,
                EdgeStyle::Thick => 2,
                EdgeStyle::Invisible => 3,
            }),
    {
        match self {
            EdgeStyle::Solid => 0,
            EdgeStyle::Dashed => 1,
            EdgeStyle::Thick => 2,
            EdgeStyle::Invisible => 3,
        }
    }
}

impl EdgeArrow {
    /// The slot of this marker in a theme's arrowhead table.
    pub fn theme_index(self) -> (r: usize)
        ensures
            r == (match self {
                EdgeArrow::NoHead => 0usize,
                EdgeArrow::Open => 1,
                EdgeArrow::Filled => 2,
                EdgeArrow::Cross => 3,
                EdgeArrow::Circle => 4,
            }),
    {
        match self {
            EdgeArrow::NoHead => 0,
            EdgeArrow::Open => 1,
            EdgeArrow::Filled => 2,
            EdgeArrow::Cross => 3,
            EdgeArrow::Circle => 4,
        }
    }
}

/// The identifier of a node or subgraph.
#[derive(Clone, Debug, PartialEq, Eq, Hash)]
pub struct NodeId(pub String);

impl NodeId {
    /// An identifier with the given text.
    pub fn new(id: &str) -> (r: Self)
        ensures
            r.0@ == id@,
    {
        NodeId(String::from_str(id))
    }

    /// The identifier's text.
    pub fn as_str(&self) -> (r: &str)
        ensures
            r@ == self.0@,
    {
        self.0.as_str()
    }

    /// A copy of the identifier.
    pub fn copy(&self) -> (r: Self)
        ensures
            r == *self,
    {
        NodeId(self.0.clone())
    }

    /// Whether two identifiers are the same text.
    pub fn same(&self, other: &NodeId) -> (r: bool)
        ensures
            r == (self.0@ == other.0@),
    {
        crate::text::str_eq(self.0.as_str(), other.0.as_str())
    }
}

/// A directed edge between two nodes.
#[derive(Debug)]
pub struct Edge {
    pub from: NodeId,
    pub to: NodeId,
    pub label: Option<String>,
    pub style: EdgeStyle,
    pub head_from: EdgeArrow,
    pub head_to: EdgeArrow,
    pub line_style: Option<Style>,
    pub label_style: Option<Style>,
}

impl Edge {
    /// An edge of the given stroke, with a filled arrowhead at its target.
    pub fn new(from: &str, to: &str, style: EdgeStyle) -> (r: Self)
        ensures
            r.from.0@ == from@ && r.to.0@ == to@,
            r.label is None && r.style == style,
            r.head_from == EdgeArrow::NoHead && r.head_to == EdgeArrow::Filled,
            r.line_style is None && r.label_style is None,
    {
        Edge {
            from: NodeId::new(from),
            to: NodeId::new(to),
            label: None,
            style,
            head_from: EdgeArrow::NoHead,
            head_to: EdgeArrow::Filled,
            line_style: None,
            label_style: None,
        }
    }

    /// A solid edge.
    pub fn solid(from: &str, to: &str) -> (r: Self)
        ensures
            r.from.0@ == from@ && r.to.0@ == to@,
            r.label is None && r.style == EdgeStyle::Solid,
            r.head_from == EdgeArrow::NoHead && r.head_to == EdgeArrow::Filled,
            r.line_style is None && r.label_style is None,
    {
        Edge::new(from, to, EdgeStyle::Solid)
    }

    /// A dashed edge.
    pub fn dashed(from: &str, to: &str) -> (r: Self)
        ensures
            r.from.0@ == from@ && r.to.0@ == to@,
            r.label is None && r.style == EdgeStyle::Dashed,
            r.head_from == EdgeArrow::NoHead && r.head_to == EdgeArrow::Filled,
            r.line_style is None && r.label_style is None,
    {
        Edge::new(from, to, EdgeStyle::Dashed)
    }

    /// A thick edge.
    pub fn thick(from: &str, to: &str) -> (r: Self)
        ensures
            r.from.0@ == from@ && r.to.0@ == to@,
            r.label is None && r.style == EdgeStyle::Thick,
            r.head_from == EdgeArrow::NoHead && r.head_to == EdgeArrow::Filled,
            r.line_style is None && r.label_style is None,
    {
        Edge::new(from, to, EdgeStyle::Thick)
    }

    /// An edge that takes part in layout but is not drawn, without
    /// arrowheads.
    pub fn invisible(from: &str, to: &str) -> (r: Self)
        ensures
            r.from.0@ == from@ && r.to.0@ == to@,
            r.label is None && r.style == EdgeStyle::Invisible,
            r.head_from == EdgeArrow::NoHead && r.head_to == EdgeArrow::NoHead,
            r.line_style is None && r.label_style is None,
    {
        Edge::new(from, to, EdgeStyle::Invisible).arrow_to(EdgeArrow::NoHead)
    }

    /// Sets the edge's label.
    pub fn label(self, label: &str) -> (r: Self)
        ensures
            r.label matches Some(l) && l@ == label@,
            r == (Edge { label: r.label, ..self }),
    {
        Edge { label: Some(String::from_str(label)), ..self }
    }

    /// Sets the marker at the source.
    pub fn arrow_from(self, arrow: EdgeArrow) -> (r: Self)
        ensures
            r == (Edge { head_from: arrow, ..self }),
    {
        Edge { head_from: arrow, ..self }
    }

    /// Sets the marker at the target.
    pub fn arrow_to(self, arrow: EdgeArrow) -> (r: Self)
        ensures
            r == (Edge { head_to: arrow, ..self }),
    {
        Edge { head_to: arrow, ..self }
    }

    /// Sets both markers.
    pub fn arrows(self, from: EdgeArrow, to: EdgeArrow) -> (r: Self)
        ensures
            r == (Edge { head_from: from, head_to: to, ..self }),
    {
        Edge { head_from: from, head_to: to, ..self }
    }

    /// Overrides the stroke style.
    pub fn line_style(self, style: Style) -> (r: Self)
        ensures
            r == (Edge { line_style: Some(style), ..self }),
    {
        Edge { line_style: Some(style), ..self }
    }

    /// Overrides the label style.
    pub fn label_style(self, style: Style) -> (r: Self)
        ensures
            r == (Edge { label_style: Some(style), ..self }),
    {
        Edge { label_style: Some(style), ..self }
    }
}

/// A node as pointer events report it.
#[derive(Clone, Debug, PartialEq, Eq, Hash)]
pub struct FlowchartNodeEvent {
    pub id: NodeId,
    pub label: String,
}

/// An edge as pointer events report it.
#[derive(Clone, Debug, PartialEq, Eq, Hash)]
pub struct FlowchartEdgeEvent {
    pub from: NodeId,
    pub to: NodeId,
    pub label: Option<String>,
}

/// A subgraph as pointer events report it.
#[derive(Clone, Debug, PartialEq, Eq, Hash)]
pub struct FlowchartSubgraphEvent {
    pub id: NodeId,
    pub label: String,
}

/// Which item of a flowchart is meant: a node, an edge by insertion index,
/// or a subgraph.
#[derive(Clone, Debug, PartialEq, Eq, Hash)]
pub enum FlowchartItemPath {
    Node(NodeId),
    Edge(usize),
    Subgraph(NodeId),
}

/// A node as declared.
#[derive(Debug)]
pub struct FlowchartNodeSpec {
    pub id: NodeId,
    pub label: String,
    pub shape: NodeShape,
    pub style: Style,
    pub hover_style: Style,
    pub parent: Option<NodeId>,
}

/// A subgraph as declared.
#[derive(Debug)]
pub struct FlowchartSubgraphSpec {
    pub id: NodeId,
    pub label: String,
    pub parent: Option<NodeId>,
    pub style: Style,
}

/// Node style defaults: the default style, styles per class, and the border
/// of rectangular shapes.
#[derive(Debug)]
pub struct NodeStyleSet {
    pub default: Style,
    pub classes: PathMap<Style>,
    pub border_style: BorderStyle,
}

impl NodeStyleSet {
    /// No styles, rounded borders.
    pub fn new() -> (r: Self)
        ensures
            r.default == Style::empty(),
            forall|k: Seq<char>| spec_lookup(r.classes.entries@, k) is None,
            r.border_style == BorderStyle::Rounded,
    {
        NodeStyleSet { default: Style::new(), classes: PathMap::new(), border_style: BorderStyle::Rounded }
    }
}

/// The glyphs of one stroke.
#[derive(Clone, Copy, Debug, PartialEq, Eq, Structural, Hash)]
pub struct EdgeGlyphs {
    pub horizontal: char,
    pub vertical: char,
    pub border_style: BorderStyle,
}

/// The glyphs of one arrowhead, by the way it points.
#[derive(Clone, Copy, Debug, PartialEq, Eq, Structural, Hash)]
pub struct ArrowGlyphs {
    pub up: char,
    pub down: char,
    pub left: char,
    pub right: char,
}

/// Subgraph box styling.
#[derive(Clone, Copy, Debug, PartialEq, Eq, Structural, Hash)]
pub struct SubgraphTheme {
    pub style: Style,
    pub header_style: Style,
    pub border_style: BorderStyle,
}

/// A flowchart's glyphs and style defaults.
#[derive(Debug)]
pub struct FlowchartTheme {
    pub node_styles: NodeStyleSet,
    /// Stroke glyphs, by [`EdgeStyle::theme_index`].
    pub edge_glyphs: [EdgeGlyphs; 4],
    /// Arrowhead glyphs, by [`EdgeArrow::theme_index`].
    pub arrow_heads: [ArrowGlyphs; 5],
    pub subgraph: SubgraphTheme,
    pub label_style: Style,
    pub item_hover_style: Style,
}

fn arrows(up: char, down: char, left: char, right: char) -> (r: ArrowGlyphs)
    ensures
        r == (ArrowGlyphs { up, down, left, right }),
{
    ArrowGlyphs { up, down, left, right }
}

fn strokes(horizontal: char, vertical: char) -> (r: EdgeGlyphs)
    ensures
        r == (EdgeGlyphs { horizontal, vertical, border_style: BorderStyle::Plain }),
{
    EdgeGlyphs { horizontal, vertical, border_style: BorderStyle::Plain }
}

impl FlowchartTheme {
    /// Box-drawing strokes with filled arrowheads.
    pub fn classic() -> (r: Self)
        ensures
            r.node_styles.default == Style::empty(),
            forall|k: Seq<char>| spec_lookup(r.node_styles.classes.entries@, k) is None,
            r.node_styles.border_style == BorderStyle::Rounded,
            r.edge_glyphs@ == seq![
                EdgeGlyphs { horizontal: '─', vertical: '│', border_style: BorderStyle::Plain },
                EdgeGlyphs { horizontal: '╌', vertical: '╎', border_style: BorderStyle::Plain },
                EdgeGlyphs { horizontal: '━', vertical: '┃', border_style: BorderStyle::Plain },
                EdgeGlyphs { horizontal: ' ', vertical: ' ', border_style: BorderStyle::Plain },
            ],
            r.arrow_heads@ == seq![
                ArrowGlyphs { up: ' ', down: ' ', left: ' ', right: ' ' },
                ArrowGlyphs { up: '△', down: '▽', left: '◁', right: '▷' },
                ArrowGlyphs { up: '▲', down: '▼', left: '◀', right: '▶' },
                ArrowGlyphs { up: '×', down: '×', left: '×', right: '×' },
                ArrowGlyphs { up: '○', down: '○', left: '○', right: '○' },
            ],
            r.subgraph == (SubgraphTheme {
                style: Style::empty(),
                header_style: Style::empty(),
                border_style: BorderStyle::Rounded,
            }),
            r.label_style == Style::empty(),
            r.item_hover_style == Style::empty(),
    {
        let t = FlowchartTheme {
            node_styles: NodeStyleSet::new(),
            edge_glyphs: [strokes('─', '│'), strokes('╌', '╎'), strokes('━', '┃'), strokes(' ', ' ')],
            arrow_heads: [
                arrows(' ', ' ', ' ', ' '),
                arrows('△', '▽', '◁', '▷'),
                arrows('▲', '▼', '◀', '▶'),
                arrows('×', '×', '×', '×'),
                arrows('○', '○', '○', '○'),
            ],
            subgraph: SubgraphTheme {
                style: Style::new(),
                header_style: Style::new(),
                border_style: BorderStyle::Rounded,
            },
            label_style: Style::new(),
            item_hover_style: Style::new(),
        };
        proof {
            assert(t.edge_glyphs@ =~= seq![
                EdgeGlyphs { horizontal: '─', vertical: '│', border_style: BorderStyle::Plain },
                EdgeGlyphs { horizontal: '╌', vertical: '╎', border_style: BorderStyle::Plain },
                EdgeGlyphs { horizontal: '━', vertical: '┃', border_style: BorderStyle::Plain },
                EdgeGlyphs { horizontal: ' ', vertical: ' ', border_style: BorderStyle::Plain },
            ]);
            assert(t.arrow_heads@ =~= seq![
                ArrowGlyphs { up: ' ', down: ' ', left: ' ', right: ' ' },
                ArrowGlyphs { up: '△', down: '▽', left: '◁', right: '▷' },
                ArrowGlyphs { up: '▲', down: '▼', left: '◀', right: '▶' },
                ArrowGlyphs { up: '×', down: '×', left: '×', right: '×' },
                ArrowGlyphs { up: '○', down: '○', left: '○', right: '○' },
            ]);
        }
        t
    }

    /// The classic theme with plain node borders and open arrowheads where
    /// filled ones were.
    pub fn minimal() -> (r: Self)
        ensures
            r.node_styles.border_style == BorderStyle::Plain,
            r.arrow_heads@[2] == (ArrowGlyphs { up: '△', down: '▽', left: '◁', right: '▷' }),
            r.arrow_heads@[0] == (ArrowGlyphs { up: ' ', down: ' ', left: ' ', right: ' ' }),
            r.arrow_heads@[1] == (ArrowGlyphs { up: '△', down: '▽', left: '◁', right: '▷' }),
            r.arrow_heads@[3] == (ArrowGlyphs { up: '×', down: '×', left: '×', right: '×' }),
            r.arrow_heads@[4] == (ArrowGlyphs { up: '○', down: '○', left: '○', right: '○' }),
            r.edge_glyphs@[0] == (EdgeGlyphs { horizontal: '─', vertical: '│', border_style: BorderStyle::Plain }),
            r.subgraph.border_style == BorderStyle::Rounded,
    {
        let mut theme = FlowchartTheme::classic();
        theme.node_styles.border_style = BorderStyle::Plain;
        theme.arrow_heads[EdgeArrow::Filled.theme_index()] = arrows('△', '▽', '◁', '▷');
        theme
    }

    /// ASCII-only glyphs.
    pub fn ascii() -> (r: Self)
        ensures
            r.node_styles.border_style == BorderStyle::Plain,
            r.edge_glyphs@ == seq![
                EdgeGlyphs { horizontal: '-', vertical: '|', border_style: BorderStyle::Plain },
                EdgeGlyphs { horizontal: '-', vertical: ':', border_style: BorderStyle::Plain },
                EdgeGlyphs { horizontal: '=', vertical: '#', border_style: BorderStyle::Plain },
                EdgeGlyphs { horizontal: ' ', vertical: ' ', border_style: BorderStyle::Plain },
            ],
            r.arrow_heads@ == seq![
                ArrowGlyphs { up: ' ', down: ' ', left: ' ', right: ' ' },
                ArrowGlyphs { up: '^', down: 'v', left: '<', right: '>' },
                ArrowGlyphs { up: '^', down: 'v', left: '<', right: '>' },
                ArrowGlyphs { up: 'x', down: 'x', left: 'x', right: 'x' },
                ArrowGlyphs { up: 'o', down: 'o', left: 'o', right: 'o' },
            ],
            r.subgraph.border_style == BorderStyle::Plain,
    {
        let mut node_styles = NodeStyleSet::new();
        node_styles.border_style = BorderStyle::Plain;
        let t = FlowchartTheme {
            node_styles,
            edge_glyphs: [strokes('-', '|'), strokes('-', ':'), strokes('=', '#'), strokes(' ', ' ')],
            arrow_heads: [
                arrows(' ', ' ', ' ', ' '),
                arrows('^', 'v', '<', '>'),
                arrows('^', 'v', '<', '>'),
                arrows('x', 'x', 'x', 'x'),
                arrows('o', 'o', 'o', 'o'),
            ],
            subgraph: SubgraphTheme {
                style: Style::new(),
                header_style: Style::new(),
                border_style: BorderStyle::Plain,
            },
            label_style: Style::new(),
            item_hover_style: Style::new(),
        };
        proof {
            assert(t.edge_glyphs@ =~= seq![
                EdgeGlyphs { horizontal: '-', vertical: '|', border_style: BorderStyle::Plain },
                EdgeGlyphs { horizontal: '-', vertical: ':', border_style: BorderStyle::Plain },
                EdgeGlyphs { horizontal: '=', vertical: '#', border_style: BorderStyle::Plain },
                EdgeGlyphs { horizontal: ' ', vertical: ' ', border_style: BorderStyle::Plain },
            ]);
            assert(t.arrow_heads@ =~= seq![
                ArrowGlyphs { up: ' ', down: ' ', left: ' ', right: ' ' },
                ArrowGlyphs { up: '^', down: 'v', left: '<', right: '>' },
                ArrowGlyphs { up: '^', down: 'v', left: '<', right: '>' },
                ArrowGlyphs { up: 'x', down: 'x', left: 'x', right: 'x' },
                ArrowGlyphs { up: 'o', down: 'o', left: 'o', right: 'o' },
            ]);
        }
        t
    }
}


/// Index of the first node with identifier `id`, or the length.
pub open spec fn node_pos(nodes: Seq<FlowchartNodeSpec>, id: Seq<char>) -> int
    decreases nodes.len(),
{
    if nodes.len() == 0 {
        0
    } else if node_pos(nodes.drop_last(), id) < nodes.len() - 1 {
        node_pos(nodes.drop_last(), id)
    } else if nodes.last().id.0@ == id {
        nodes.len() - 1
    } else {
        nodes.len() as int
    }
}

/// Index of the first subgraph with identifier `id`, or the length.
pub open spec fn subgraph_pos(subgraphs: Seq<FlowchartSubgraphSpec>, id: Seq<char>) -> int
    decreases subgraphs.len(),
{
    if subgraphs.len() == 0 {
        0
    } else if subgraph_pos(subgraphs.drop_last(), id) < subgraphs.len() - 1 {
        subgraph_pos(subgraphs.drop_last(), id)
    } else if subgraphs.last().id.0@ == id {
        subgraphs.len() - 1
    } else {
        subgraphs.len() as int
    }
}

/// The nodes with `n` replacing the first node of its identifier, or added
/// after them.
pub open spec fn upsert_node(nodes: Seq<FlowchartNodeSpec>, n: FlowchartNodeSpec) -> Seq<FlowchartNodeSpec> {
    let i = node_pos(nodes, n.id.0@);
    if i < nodes.len() {
        nodes.update(i, n)
    } else {
        nodes.push(n)
    }
}

/// The subgraphs with `s` replacing the first subgraph of its identifier, or
/// added after them.
pub open spec fn upsert_subgraph(subgraphs: Seq<FlowchartSubgraphSpec>, s: FlowchartSubgraphSpec) -> Seq<
    FlowchartSubgraphSpec,
> {
    let i = subgraph_pos(subgraphs, s.id.0@);
    if i < subgraphs.len() {
        subgraphs.update(i, s)
    } else {
        subgraphs.push(s)
    }
}

proof fn lemma_node_pos(nodes: Seq<FlowchartNodeSpec>, id: Seq<char>)
    ensures
        0 <= node_pos(nodes, id) <= nodes.len(),
        node_pos(nodes, id) < nodes.len() ==> nodes[node_pos(nodes, id)].id.0@ == id,
        forall|k: int| 0 <= k < node_pos(nodes, id) ==> (#[trigger] nodes[k]).id.0@ != id,
    decreases nodes.len(),
{
    if nodes.len() > 0 {
        lemma_node_pos(nodes.drop_last(), id);
        assert forall|k: int| 0 <= k < node_pos(nodes, id) implies (#[trigger] nodes[k]).id.0@ != id by {
            if k < nodes.len() - 1 {
                assert(nodes.drop_last()[k] == nodes[k]);
            }
        }
    }
}

proof fn lemma_subgraph_pos(subgraphs: Seq<FlowchartSubgraphSpec>, id: Seq<char>)
    ensures
        0 <= subgraph_pos(subgraphs, id) <= subgraphs.len(),
        subgraph_pos(subgraphs, id) < subgraphs.len() ==> subgraphs[subgraph_pos(subgraphs, id)].id.0@ == id,
        forall|k: int| 0 <= k < subgraph_pos(subgraphs, id) ==> (#[trigger] subgraphs[k]).id.0@ != id,
    decreases subgraphs.len(),
{
    if subgraphs.len() > 0 {
        lemma_subgraph_pos(subgraphs.drop_last(), id);
        assert forall|k: int| 0 <= k < subgraph_pos(subgraphs, id) implies (#[trigger] subgraphs[k]).id.0@ != id by {
            if k < subgraphs.len() - 1 {
                assert(subgraphs.drop_last()[k] == subgraphs[k]);
            }
        }
    }
}

proof fn lemma_node_pos_exact(nodes: Seq<FlowchartNodeSpec>, id: Seq<char>, i: int)
    requires
        0 <= i <= nodes.len(),
        i < nodes.len() ==> nodes[i].id.0@ == id,
        forall|k: int| 0 <= k < i ==> (#[trigger] nodes[k]).id.0@ != id,
    ensures
        node_pos(nodes, id) == i,
    decreases nodes.len(),
{
    lemma_node_pos(nodes, id);
    if nodes.len() > 0 {
        if i < nodes.len() - 1 {
            assert forall|k: int| 0 <= k < i implies (#[trigger] nodes.drop_last()[k]).id.0@ != id by {
                assert(nodes.drop_last()[k] == nodes[k]);
            }
            lemma_node_pos_exact(nodes.drop_last(), id, i);
        } else {
            assert forall|k: int| 0 <= k < nodes.len() - 1 implies (#[trigger] nodes.drop_last()[k]).id.0@ != id by {
                assert(nodes.drop_last()[k] == nodes[k]);
            }
            lemma_node_pos_exact(nodes.drop_last(), id, nodes.len() - 1);
        }
    }
}

proof fn lemma_subgraph_pos_exact(subgraphs: Seq<FlowchartSubgraphSpec>, id: Seq<char>, i: int)
    requires
        0 <= i <= subgraphs.len(),
        i < subgraphs.len() ==> subgraphs[i].id.0@ == id,
        forall|k: int| 0 <= k < i ==> (#[trigger] subgraphs[k]).id.0@ != id,
    ensures
        subgraph_pos(subgraphs, id) == i,
    decreases subgraphs.len(),
{
    lemma_subgraph_pos(subgraphs, id);
    if subgraphs.len() > 0 {
        if i < subgraphs.len() - 1 {
            assert forall|k: int| 0 <= k < i implies (#[trigger] subgraphs.drop_last()[k]).id.0@ != id by {
                assert(subgraphs.drop_last()[k] == subgraphs[k]);
            }
            lemma_subgraph_pos_exact(subgraphs.drop_last(), id, i);
        } else {
            assert forall|k: int| 0 <= k < subgraphs.len() - 1 implies (#[trigger] subgraphs.drop_last()[k]).id.0@
                != id by {
                assert(subgraphs.drop_last()[k] == subgraphs[k]);
            }
            lemma_subgraph_pos_exact(subgraphs.drop_last(), id, subgraphs.len() - 1);
        }
    }
}

pub(crate) fn find_node(nodes: &Vec<FlowchartNodeSpec>, id: &NodeId) -> (r: usize)
    ensures
        r == node_pos(nodes@, id.0@),
{
    let mut i: usize = 0;
    while i < nodes.len()
        invariant
            i <= nodes@.len(),
            forall|k: int| 0 <= k < i ==> (#[trigger] nodes@[k]).id.0@ != id.0@,
        decreases nodes@.len() - i,
    {
        if nodes[i].id.same(id) {
            proof {
                lemma_node_pos_exact(nodes@, id.0@, i as int);
            }
            return i;
        }
        i = i + 1;
    }
    proof {
        lemma_node_pos_exact(nodes@, id.0@, i as int);
    }
    i
}

pub(crate) fn find_subgraph(subgraphs: &Vec<FlowchartSubgraphSpec>, id: &NodeId) -> (r: usize)
    ensures
        r == subgraph_pos(subgraphs@, id.0@),
{
    let mut i: usize = 0;
    while i < subgraphs.len()
        invariant
            i <= subgraphs@.len(),
            forall|k: int| 0 <= k < i ==> (#[trigger] subgraphs@[k]).id.0@ != id.0@,
        decreases subgraphs@.len() - i,
    {
        if subgraphs[i].id.same(id) {
            proof {
                lemma_subgraph_pos_exact(subgraphs@, id.0@, i as int);
            }
            return i;
        }
        i = i + 1;
    }
    proof {
        lemma_subgraph_pos_exact(subgraphs@, id.0@, i as int);
    }
    i
}

fn upsert_node_exec(nodes: &mut Vec<FlowchartNodeSpec>, n: FlowchartNodeSpec)
    ensures
        final(nodes)@ == upsert_node(old(nodes)@, n),
{
    let i = find_node(nodes, &n.id);
    if i < nodes.len() {
        nodes.set(i, n);
    } else {
        nodes.push(n);
    }
}

fn upsert_subgraph_exec(subgraphs: &mut Vec<FlowchartSubgraphSpec>, s: FlowchartSubgraphSpec)
    ensures
        final(subgraphs)@ == upsert_subgraph(old(subgraphs)@, s),
{
    let i = find_subgraph(subgraphs, &s.id);
    if i < subgraphs.len() {
        subgraphs.set(i, s);
    } else {
        subgraphs.push(s);
    }
}

/// The nodes with the first node of identifier `id` given hover style `style`.
pub open spec fn with_hover(nodes: Seq<FlowchartNodeSpec>, id: Seq<char>, style: Style) -> Seq<FlowchartNodeSpec> {
    let i = node_pos(nodes, id);
    if i < nodes.len() {
        nodes.update(i, FlowchartNodeSpec { hover_style: style, ..nodes[i] })
    } else {
        nodes
    }
}

fn set_hover(nodes: &mut Vec<FlowchartNodeSpec>, id: &NodeId, style: Style)
    ensures
        final(nodes)@ == with_hover(old(nodes)@, id.0@, style),
{
    let i = find_node(nodes, id);
    if i < nodes.len() {
        let n = nodes.remove(i);
        let updated = FlowchartNodeSpec { hover_style: style, ..n };
        nodes.insert(i, updated);
        proof {
            assert(nodes@ =~= with_hover(old(nodes)@, id.0@, style));
        }
    }
}

/// A flowchart: its direction, nodes, edges, subgraphs, class styles, and
/// drawing options.
#[derive(Debug)]
pub struct Flowchart {
    pub direction: FlowDirection,
    pub nodes: Vec<FlowchartNodeSpec>,
    pub edges: Vec<Edge>,
    pub subgraphs: Vec<FlowchartSubgraphSpec>,
    pub class_defs: PathMap<Style>,
    pub class_assignments: PathMap<String>,
    pub style: Style,
    pub node_style: Style,
    pub edge_style: Style,
    pub subgraph_style: Style,
    pub label_style: Style,
    pub item_hover_style: Style,
    pub border: bool,
    pub border_style: BorderStyle,
    pub padding: Padding,
    pub node_gap: u16,
    pub layer_gap: u16,
    pub subgraph_padding: Padding,
    pub max_node_width: u16,
    pub theme: FlowchartTheme,
    pub width: Length,
    pub height: Length,
}

/// A subgraph's contents, collected before they join the flowchart.
#[derive(Debug)]
pub struct FlowchartSubgraphBuilder {
    pub parent: NodeId,
    pub nodes: Vec<FlowchartNodeSpec>,
    pub edges: Vec<Edge>,
    pub subgraphs: Vec<FlowchartSubgraphSpec>,
}

/// Whether `b` is an empty builder for the subgraph `id`.
pub open spec fn fresh_builder(b: FlowchartSubgraphBuilder, id: Seq<char>) -> bool {
    b.parent.0@ == id && b.nodes@.len() == 0 && b.edges@.len() == 0 && b.subgraphs@.len() == 0
}

/// The nodes after adding `adds` one by one, each without a parent placed
/// in subgraph `id`.
pub open spec fn add_nodes(nodes: Seq<FlowchartNodeSpec>, adds: Seq<FlowchartNodeSpec>, id: NodeId, k: int) -> Seq<
    FlowchartNodeSpec,
>
    decreases k,
{
    if k <= 0 || k > adds.len() {
        nodes
    } else {
        let n = adds[k - 1];
        upsert_node(
            add_nodes(nodes, adds, id, k - 1),
            FlowchartNodeSpec { parent: if n.parent is Some { n.parent } else { Some(id) }, ..n },
        )
    }
}

/// The subgraphs after adding `adds` one by one, each without a parent
/// placed in subgraph `id`.
pub open spec fn add_subgraphs(
    subgraphs: Seq<FlowchartSubgraphSpec>,
    adds: Seq<FlowchartSubgraphSpec>,
    id: NodeId,
    k: int,
) -> Seq<FlowchartSubgraphSpec>
    decreases k,
{
    if k <= 0 || k > adds.len() {
        subgraphs
    } else {
        let s = adds[k - 1];
        upsert_subgraph(
            add_subgraphs(subgraphs, adds, id, k - 1),
            FlowchartSubgraphSpec { parent: if s.parent is Some { s.parent } else { Some(id) }, ..s },
        )
    }
}

/// The subgraphs with each parentless one placed in subgraph `id`.
pub open spec fn adopt(subgraphs: Seq<FlowchartSubgraphSpec>, id: NodeId) -> Seq<FlowchartSubgraphSpec> {
    Seq::new(
        subgraphs.len(),
        |i: int|
            FlowchartSubgraphSpec {
                parent: if subgraphs[i].parent is Some {
                    subgraphs[i].parent
                } else {
                    Some(id)
                },
                ..subgraphs[i]
            },
    )
}

impl FlowchartSubgraphBuilder {
    /// An empty builder for the subgraph `parent`.
    pub fn new(parent: NodeId) -> (r: Self)
        ensures
            r.parent == parent,
            r.nodes@.len() == 0 && r.edges@.len() == 0 && r.subgraphs@.len() == 0,
    {
        FlowchartSubgraphBuilder { parent, nodes: Vec::new(), edges: Vec::new(), subgraphs: Vec::new() }
    }

    /// Adds a node inside this subgraph.
    pub fn node(self, id: &str, label: &str, shape: NodeShape) -> (r: Self)
        ensures
            r.parent == self.parent && r.edges == self.edges && r.subgraphs == self.subgraphs,
            r.nodes@.len() == self.nodes@.len() + 1,
            r.nodes@.subrange(0, self.nodes@.len() as int) == self.nodes@,
            r.nodes@.last().id.0@ == id@ && r.nodes@.last().label@ == label@ && r.nodes@.last().shape == shape,
            r.nodes@.last().style == Style::empty() && r.nodes@.last().hover_style == Style::empty(),
            r.nodes@.last().parent == Some(self.parent),
    {
        self.styled_node(id, label, shape, Style::new())
    }

    /// Adds a styled node inside this subgraph.
    pub fn styled_node(self, id: &str, label: &str, shape: NodeShape, style: Style) -> (r: Self)
        ensures
            r.parent == self.parent && r.edges == self.edges && r.subgraphs == self.subgraphs,
            r.nodes@.len() == self.nodes@.len() + 1,
            r.nodes@.subrange(0, self.nodes@.len() as int) == self.nodes@,
            r.nodes@.last().id.0@ == id@ && r.nodes@.last().label@ == label@ && r.nodes@.last().shape == shape,
            r.nodes@.last().style == style && r.nodes@.last().hover_style == Style::empty(),
            r.nodes@.last().parent == Some(self.parent),
    {
        let mut nodes = self.nodes;
        let parent = self.parent.copy();
        nodes.push(
            FlowchartNodeSpec {
                id: NodeId::new(id),
                label: String::from_str(label),
                shape,
                style,
                hover_style: Style::new(),
                parent: Some(parent),
            },
        );
        let r = FlowchartSubgraphBuilder { nodes, ..self };
        proof {
            assert(r.nodes@.subrange(0, self.nodes@.len() as int) =~= self.nodes@);
        }
        r
    }

    /// Sets the hover style of a node added to this builder.
    pub fn node_hover_style(self, id: &str, style: Style) -> (r: Self)
        ensures
            r.parent == self.parent && r.edges == self.edges && r.subgraphs == self.subgraphs,
            r.nodes@ == with_hover(self.nodes@, id@, style),
    {
        let mut nodes = self.nodes;
        set_hover(&mut nodes, &NodeId::new(id), style);
        FlowchartSubgraphBuilder { nodes, ..self }
    }

    /// Adds an edge inside this subgraph.
    pub fn edge(self, edge: Edge) -> (r: Self)
        ensures
            r.parent == self.parent && r.nodes == self.nodes && r.subgraphs == self.subgraphs,
            r.edges@ == self.edges@.push(edge),
    {
        let mut edges = self.edges;
        edges.push(edge);
        FlowchartSubgraphBuilder { edges, ..self }
    }

    /// Adds a nested subgraph whose contents `build` adds to a fresh builder;
    /// the nested subgraphs without a parent are placed in it.
    pub fn subgraph<F: FnOnce(FlowchartSubgraphBuilder) -> FlowchartSubgraphBuilder>(
        self,
        id: &str,
        label: &str,
        build: F,
    ) -> (r: Self)
        requires
            forall|b: FlowchartSubgraphBuilder| build.requires((b,)),
        ensures
            exists|b: FlowchartSubgraphBuilder, nested: FlowchartSubgraphBuilder|
                fresh_builder(b, id@) && build.ensures((b,), nested) && {
                    &&& r.parent == self.parent
                    &&& r.subgraphs@.len() == self.subgraphs@.len() + 1 + nested.subgraphs@.len()
                    &&& r.subgraphs@.subrange(0, self.subgraphs@.len() as int) == self.subgraphs@
                    &&& r.subgraphs@[self.subgraphs@.len() as int].id.0@ == id@
                    &&& r.subgraphs@[self.subgraphs@.len() as int].label@ == label@
                    &&& r.subgraphs@[self.subgraphs@.len() as int].parent == Some(self.parent)
                    &&& r.subgraphs@[self.subgraphs@.len() as int].style == Style::empty()
                    &&& r.subgraphs@.subrange(self.subgraphs@.len() as int + 1, r.subgraphs@.len() as int)
                        == adopt(nested.subgraphs@, b.parent)
                    &&& r.nodes@ == self.nodes@ + nested.nodes@
                    &&& r.edges@ == self.edges@ + nested.edges@
                },
    {
        let sid = NodeId::new(id);
        let b = FlowchartSubgraphBuilder::new(sid.copy());
        let ghost b_spec = b;
        let nested = build(b);
        let mut subgraphs = self.subgraphs;
        let mut nodes = self.nodes;
        let mut edges = self.edges;
        let ghost s0 = subgraphs@;
        let ghost n0 = nodes@;
        let ghost e0 = edges@;
        subgraphs.push(
            FlowchartSubgraphSpec {
                id: sid.copy(),
                label: String::from_str(label),
                parent: Some(self.parent.copy()),
                style: Style::new(),
            },
        );
        let ghost s1 = subgraphs@;
        let ghost nv = nested.subgraphs@;
        let mut ns = nested.nodes;
        let mut es = nested.edges;
        let mut ss = nested.subgraphs;
        let ghost nn = ns@;
        let ghost ne = es@;
        nodes.append(&mut ns);
        edges.append(&mut es);
        let mut i: usize = 0;
        let n = ss.len();
        let mut rest: Vec<FlowchartSubgraphSpec> = Vec::new();
        while ss.len() > 0
            invariant
                n == nv.len(),
                ss@ == nv.subrange(i as int, n as int),
                i <= n,
                subgraphs@ == s1 + adopt(nv, sid).subrange(0, i as int),
            decreases ss@.len(),
        {
            let s = ss.remove(0);
            let parent = match s.parent {
                Some(p) => Some(p),
                None => Some(sid.copy()),
            };
            subgraphs.push(FlowchartSubgraphSpec { parent, ..s });
            proof {
                assert(subgraphs@ =~= s1 + adopt(nv, sid).subrange(0, i + 1));
                assert(ss@ =~= nv.subrange(i + 1, n as int));
            }
            i = i + 1;
        }
        let r = FlowchartSubgraphBuilder { parent: self.parent, nodes, edges, subgraphs };
        proof {
            assert(adopt(nv, sid).subrange(0, n as int) =~= adopt(nv, sid));
            assert(r.subgraphs@.subrange(0, s0.len() as int) =~= s0);
            assert(r.subgraphs@.subrange(s0.len() as int + 1, r.subgraphs@.len() as int) =~= adopt(nv, sid));
            assert(fresh_builder(b_spec, id@));
            assert(r.nodes@ =~= n0 + nn);
            assert(r.edges@ =~= e0 + ne);
        }
        r
    }
}

impl Flowchart {
    /// An empty flowchart laid out in `direction`, with the default options.
    pub fn new(direction: FlowDirection) -> (r: Self)
        ensures
            r.direction == direction,
            r.nodes@.len() == 0 && r.edges@.len() == 0 && r.subgraphs@.len() == 0,
            forall|k: Seq<char>| spec_lookup(r.class_defs.entries@, k) is None,
            forall|k: Seq<char>| spec_lookup(r.class_assignments.entries@, k) is None,
            r.style == Style::empty() && r.node_style == Style::empty() && r.edge_style == Style::empty(),
            r.subgraph_style == Style::empty() && r.label_style == Style::empty(),
            r.item_hover_style == Style::empty(),
            !r.border && r.border_style == BorderStyle::Plain,
            r.padding == (Padding { top: 0, right: 0, bottom: 0, left: 0 }),
            r.node_gap == 4 && r.layer_gap == 3,
            r.subgraph_padding == (Padding { top: 1, right: 2, bottom: 1, left: 2 }),
            r.max_node_width == 24,
            r.width == Length::Auto && r.height == Length::Auto,
    {
        Flowchart {
            direction,
            nodes: Vec::new(),
            edges: Vec::new(),
            subgraphs: Vec::new(),
            class_defs: PathMap::new(),
            class_assignments: PathMap::new(),
            style: Style::new(),
            node_style: Style::new(),
            edge_style: Style::new(),
            subgraph_style: Style::new(),
            label_style: Style::new(),
            item_hover_style: Style::new(),
            border: false,
            border_style: BorderStyle::Plain,
            padding: Padding::new(0, 0, 0, 0),
            node_gap: 4,
            layer_gap: 3,
            subgraph_padding: Padding::new(1, 2, 1, 2),
            max_node_width: 24,
            theme: FlowchartTheme::classic(),
            width: Length::Auto,
            height: Length::Auto,
        }
    }

    /// Adds a node, or replaces the node with the same identifier.
    pub fn node(self, id: &str, label: &str, shape: NodeShape) -> (r: Self)
        ensures
            exists|n: FlowchartNodeSpec|
                n.id.0@ == id@ && n.label@ == label@ && n.shape == shape && n.style == Style::empty()
                    && n.hover_style == Style::empty() && n.parent is None && r == (Flowchart {
                    nodes: r.nodes,
                    ..self
                }) && r.nodes@ == upsert_node(self.nodes@, n),
    {
        self.styled_node(id, label, shape, Style::new())
    }

    /// Adds a node with a style, or replaces the node with the same
    /// identifier.
    pub fn styled_node(self, id: &str, label: &str, shape: NodeShape, style: Style) -> (r: Self)
        ensures
            exists|n: FlowchartNodeSpec|
                n.id.0@ == id@ && n.label@ == label@ && n.shape == shape && n.style == style && n.hover_style
                    == Style::empty() && n.parent is None && r == (Flowchart { nodes: r.nodes, ..self })
                    && r.nodes@ == upsert_node(self.nodes@, n),
    {
        let mut nodes = self.nodes;
        let n = FlowchartNodeSpec {
            id: NodeId::new(id),
            label: String::from_str(label),
            shape,
            style,
            hover_style: Style::new(),
            parent: None,
        };
        let ghost ns = n;
        upsert_node_exec(&mut nodes, n);
        Flowchart { nodes, ..self }
    }

    /// Sets the hover style of the node with identifier `id`, if there is one.
    pub fn node_hover_style(self, id: &str, style: Style) -> (r: Self)
        ensures
            r == (Flowchart { nodes: r.nodes, ..self }),
            r.nodes@ == with_hover(self.nodes@, id@, style),
    {
        let mut nodes = self.nodes;
        set_hover(&mut nodes, &NodeId::new(id), style);
        Flowchart { nodes, ..self }
    }

    /// Adds an edge.
    pub fn edge(self, edge: Edge) -> (r: Self)
        ensures
            r == (Flowchart { edges: r.edges, ..self }),
            r.edges@ == self.edges@.push(edge),
    {
        let mut edges = self.edges;
        edges.push(edge);
        Flowchart { edges, ..self }
    }

    /// Adds the subgraph `id`, whose contents `build` adds to a fresh
    /// builder: the subgraph itself, then its nodes and nested subgraphs
    /// (those without a parent placed in it), each replacing any of the same
    /// identifier, then its edges.
    pub fn subgraph<F: FnOnce(FlowchartSubgraphBuilder) -> FlowchartSubgraphBuilder>(
        self,
        id: &str,
        label: &str,
        build: F,
    ) -> (r: Self)
        requires
            forall|b: FlowchartSubgraphBuilder| build.requires((b,)),
        ensures
            exists|b: FlowchartSubgraphBuilder, nested: FlowchartSubgraphBuilder, s: FlowchartSubgraphSpec|
                fresh_builder(b, id@) && build.ensures((b,), nested) && s.id == b.parent && s.label@ == label@
                    && s.parent is None && s.style == Style::empty() && {
                    &&& r == (Flowchart { nodes: r.nodes, edges: r.edges, subgraphs: r.subgraphs, ..self })
                    &&& r.subgraphs@ == add_subgraphs(
                        upsert_subgraph(self.subgraphs@, s),
                        nested.subgraphs@,
                        b.parent,
                        nested.subgraphs@.len() as int,
                    )
                    &&& r.nodes@ == add_nodes(self.nodes@, nested.nodes@, b.parent, nested.nodes@.len() as int)
                    &&& r.edges@ == self.edges@ + nested.edges@
                },
    {
        let sid = NodeId::new(id);
        let b = FlowchartSubgraphBuilder::new(sid.copy());
        let ghost b_spec = b;
        let nested = build(b);
        let mut subgraphs = self.subgraphs;
        let mut nodes = self.nodes;
        let mut edges = self.edges;
        let ghost n0 = nodes@;
        let ghost e0 = edges@;
        let s = FlowchartSubgraphSpec { id: sid.copy(), label: String::from_str(label), parent: None, style: Style::new() };
        let ghost s_spec = s;
        upsert_subgraph_exec(&mut subgraphs, s);
        let ghost s1 = subgraphs@;
        let mut ns = nested.nodes;
        let mut es = nested.edges;
        let mut ss = nested.subgraphs;
        let ghost nn = ns@;
        let ghost ne = es@;
        let ghost nv = ss@;
        let mut i: usize = 0;
        let n = ns.len();
        while ns.len() > 0
            invariant
                n == nn.len(),
                i <= n,
                ns@ == nn.subrange(i as int, n as int),
                nodes@ == add_nodes(n0, nn, sid, i as int),
            decreases ns@.len(),
        {
            let x = ns.remove(0);
            let parent = match x.parent {
                Some(p) => Some(p),
                None => Some(sid.copy()),
            };
            proof {
                assert(x == nn[i as int]);
            }
            upsert_node_exec(&mut nodes, FlowchartNodeSpec { parent, ..x });
            proof {
                assert(ns@ =~= nn.subrange(i + 1, n as int));
            }
            i = i + 1;
        }
        let mut j: usize = 0;
        let m = ss.len();
        while ss.len() > 0
            invariant
                m == nv.len(),
                j <= m,
                ss@ == nv.subrange(j as int, m as int),
                subgraphs@ == add_subgraphs(s1, nv, sid, j as int),
            decreases ss@.len(),
        {
            let x = ss.remove(0);
            let parent = match x.parent {
                Some(p) => Some(p),
                None => Some(sid.copy()),
            };
            proof {
                assert(x == nv[j as int]);
            }
            upsert_subgraph_exec(&mut subgraphs, FlowchartSubgraphSpec { parent, ..x });
            proof {
                assert(ss@ =~= nv.subrange(j + 1, m as int));
            }
            j = j + 1;
        }
        edges.append(&mut es);
        let r = Flowchart { nodes, edges, subgraphs, ..self };
        proof {
            assert(fresh_builder(b_spec, id@));
            assert(r.edges@ =~= e0 + ne);
            assert(s_spec.id == b_spec.parent);
        }
        r
    }

    /// Defines (or redefines) the style of a class.
    pub fn class_def(self, name: &str, style: Style) -> (r: Self)
        ensures
            r == (Flowchart { class_defs: r.class_defs, ..self }),
            forall|k: Seq<char>|
                #[trigger] spec_lookup(r.class_defs.entries@, k) == if k == name@ {
                    Some(style)
                } else {
                    spec_lookup(self.class_defs.entries@, k)
                },
    {
        let mut class_defs = self.class_defs;
        class_defs.insert(String::from_str(name), style);
        Flowchart { class_defs, ..self }
    }

    /// Assigns a class to a node or subgraph.
    pub fn assign_class(self, id: &str, class: &str) -> (r: Self)
        ensures
            r == (Flowchart { class_assignments: r.class_assignments, ..self }),
            spec_lookup(r.class_assignments.entries@, id@) matches Some(c) && c@ == class@,
            forall|k: Seq<char>|
                k != id@ ==> #[trigger] spec_lookup(r.class_assignments.entries@, k) == spec_lookup(
                    self.class_assignments.entries@,
                    k,
                ),
    {
        let mut class_assignments = self.class_assignments;
        class_assignments.insert(String::from_str(id), String::from_str(class));
        Flowchart { class_assignments, ..self }
    }

    /// Sets the widest a node label may be before it wraps (at least 1).
    pub fn max_node_width(self, width: u16) -> (r: Self)
        ensures
            r == (Flowchart { max_node_width: if width < 1 { 1 } else { width }, ..self }),
    {
        Flowchart { max_node_width: if width < 1 { 1 } else { width }, ..self }
    }

    /// Sets the base flowchart style.
    pub fn style(self, value: Style) -> (r: Self)
        ensures
            r == (Flowchart { style: value, ..self }),
    {
        Flowchart { style: value, ..self }
    }

    /// Sets the default node style.
    pub fn node_style(self, value: Style) -> (r: Self)
        ensures
            r == (Flowchart { node_style: value, ..self }),
    {
        Flowchart { node_style: value, ..self }
    }

    /// Sets the default edge style.
    pub fn edge_style(self, value: Style) -> (r: Self)
        ensures
            r == (Flowchart { edge_style: value, ..self }),
    {
        Flowchart { edge_style: value, ..self }
    }

    /// Sets the default subgraph style.
    pub fn subgraph_style(self, value: Style) -> (r: Self)
        ensures
            r == (Flowchart { subgraph_style: value, ..self }),
    {
        Flowchart { subgraph_style: value, ..self }
    }

    /// Sets the default edge-label style.
    pub fn label_style(self, value: Style) -> (r: Self)
        ensures
            r == (Flowchart { label_style: value, ..self }),
    {
        Flowchart { label_style: value, ..self }
    }

    /// Sets the item hover overlay style.
    pub fn item_hover_style(self, value: Style) -> (r: Self)
        ensures
            r == (Flowchart { item_hover_style: value, ..self }),
    {
        Flowchart { item_hover_style: value, ..self }
    }

    /// Sets the diagram's glyph theme.
    pub fn theme(self, value: FlowchartTheme) -> (r: Self)
        ensures
            r == (Flowchart { theme: value, ..self }),
    {
        Flowchart { theme: value, ..self }
    }

    /// Toggles the outer border.
    pub fn border(self, value: bool) -> (r: Self)
        ensures
            r == (Flowchart { border: value, ..self }),
    {
        Flowchart { border: value, ..self }
    }

    /// Sets the outer border style.
    pub fn border_style(self, value: BorderStyle) -> (r: Self)
        ensures
            r == (Flowchart { border_style: value, ..self }),
    {
        Flowchart { border_style: value, ..self }
    }

    /// Sets the padding inside the optional outer border.
    pub fn padding(self, value: Padding) -> (r: Self)
        ensures
            r == (Flowchart { padding: value, ..self }),
    {
        Flowchart { padding: value, ..self }
    }

    /// Sets the gap between nodes in a layer.
    pub fn node_gap(self, value: u16) -> (r: Self)
        ensures
            r == (Flowchart { node_gap: value, ..self }),
    {
        Flowchart { node_gap: value, ..self }
    }

    /// Sets the gap between layers.
    pub fn layer_gap(self, value: u16) -> (r: Self)
        ensures
            r == (Flowchart { layer_gap: value, ..self }),
    {
        Flowchart { layer_gap: value, ..self }
    }

    /// Sets the padding around subgraph contents.
    pub fn subgraph_padding(self, value: Padding) -> (r: Self)
        ensures
            r == (Flowchart { subgraph_padding: value, ..self }),
    {
        Flowchart { subgraph_padding: value, ..self }
    }

    /// Sets the requested width.
    pub fn width(self, value: Length) -> (r: Self)
        ensures
            r == (Flowchart { width: value, ..self }),
    {
        Flowchart { width: value, ..self }
    }

    /// Sets the requested height.
    pub fn height(self, value: Length) -> (r: Self)
        ensures
            r == (Flowchart { height: value, ..self }),
    {
        Flowchart { height: value, ..self }
    }
}

} // verus!
