//! Explicit row/column grid layout.
//!
//! Children are placed in flow order or at explicit cells and may span
//! several tracks. Track sizes come from the track definitions and the
//! children's minimum sizes; leftover room goes to flexible tracks and a
//! shortfall is taken back from auto and flexible ones.

use vstd::prelude::*;

use crate::element::Element;
use crate::flow::u16_sat_mul;
use crate::style::{
    sat_add_i16, sat_add_u16, sat_sub_u16, wrap_i16, i16_sat_add, u16_as_i16, Align, BorderStyle, Justify,
    Length, Padding, Rect, Style,
};

verus! {

/// Track sizing and chrome configuration of a grid.
#[derive(Clone, Debug)]
pub struct GridProps {
    /// Column track sizes; empty lets the grid infer one column.
    pub columns: Vec<Length>,
    /// Row track sizes; empty lets the grid infer rows from placement.
    pub rows: Vec<Length>,
    /// Horizontal gap between columns.
    pub gap_x: u16,
    /// Vertical gap between rows.
    pub gap_y: u16,
    /// Inner padding (inside the border, if any).
    pub padding: Padding,
    /// Base style.
    pub style: Style,
    /// Cross-axis alignment of each item in its cell.
    pub align: Align,
    /// Main-axis alignment of each item in its cell.
    pub justify: Justify,
    /// Width of the grid container.
    pub width: Length,
    /// Height of the grid container.
    pub height: Length,
    /// Whether a border is drawn.
    pub border: bool,
    /// Border line style.
    pub border_style: BorderStyle,
}

impl Default for GridProps {
    fn default() -> (r: Self)
        ensures
            r.columns@.len() == 0 && r.rows@.len() == 0,
            r.gap_x == 0 && r.gap_y == 0,
            r.padding == (Padding { top: 0, right: 0, bottom: 0, left: 0 }),
            r.style == Style::empty(),
            r.align == Align::Start && r.justify == Justify::Start,
            r.width == Length::Flex(1) && r.height == Length::Flex(1),
            !r.border && r.border_style == BorderStyle::Plain,
    {
        GridProps {
            columns: Vec::new(),
            rows: Vec::new(),
            gap_x: 0,
            gap_y: 0,
            padding: Padding::new(0, 0, 0, 0),
            style: Style::new(),
            align: Align::Start,
            justify: Justify::Start,
            width: Length::Flex(1),
            height: Length::Flex(1),
            border: false,
            border_style: BorderStyle::Plain,
        }
    }
}

/// A `(row, column)` pair: a cell position or a span in tracks.
#[derive(Clone, Copy, Debug, PartialEq, Eq, Structural)]
pub struct Cell {
    pub row: u16,
    pub col: u16,
}

/// A child of a grid with its optional explicit cell and its span.
#[derive(Clone, Debug)]
pub struct GridItem {
    pub element: Element,
    pub placement: Option<Cell>,
    pub span: Cell,
}

/// An explicit row/column grid container.
#[derive(Clone, Debug)]
pub struct Grid {
    pub props: GridProps,
    pub items: Vec<GridItem>,
}

/// `max(v, 1)`.
pub open spec fn at_least_one(v: int) -> int {
    if v < 1 { 1 } else { v }
}

impl Grid {
    /// An empty grid with default props.
    pub fn new() -> (r: Self)
        ensures
            r.items@.len() == 0,
            r.props.columns@.len() == 0 && r.props.rows@.len() == 0,
            r.props.gap_x == 0 && r.props.gap_y == 0,
            r.props.padding == (Padding { top: 0, right: 0, bottom: 0, left: 0 }),
            r.props.style == Style::empty(),
            r.props.align == Align::Start && r.props.justify == Justify::Start,
            r.props.width == Length::Flex(1) && r.props.height == Length::Flex(1),
            !r.props.border && r.props.border_style == BorderStyle::Plain,
    {
        Grid { props: GridProps::default(), items: Vec::new() }
    }

    /// Sets the column track sizes.
    pub fn columns(self, columns: Vec<Length>) -> (r: Self)
        ensures
            r.props.columns@ == columns@,
            r.props.rows@ == self.props.rows@,
            r.items@ == self.items@,
            r.props == (GridProps { columns: r.props.columns, ..self.props }),
    {
        Grid { props: GridProps { columns, ..self.props }, items: self.items }
    }

    /// Sets the row track sizes.
    pub fn rows(self, rows: Vec<Length>) -> (r: Self)
        ensures
            r.props.rows@ == rows@,
            r.props.columns@ == self.props.columns@,
            r.items@ == self.items@,
            r.props == (GridProps { rows: r.props.rows, ..self.props }),
    {
        Grid { props: GridProps { rows, ..self.props }, items: self.items }
    }

    /// Sets `n` (at least one) equally sized auto columns.
    pub fn uniform_columns(self, n: usize) -> (r: Self)
        ensures
            r.props.columns@ == Seq::new(at_least_one(n as int) as nat, |i: int| Length::Auto),
            r.props.rows@ == self.props.rows@,
            r.items@ == self.items@,
            r.props == (GridProps { columns: r.props.columns, ..self.props }),
    {
        let count: usize = if n < 1 { 1 } else { n };
        let mut columns: Vec<Length> = Vec::new();
        let mut i: usize = 0;
        while i < count
            invariant
                i <= count,
                columns@ == Seq::new(i as nat, |k: int| Length::Auto),
            decreases count - i,
        {
            columns.push(Length::Auto);
            i = i + 1;
        }
        Grid { props: GridProps { columns, ..self.props }, items: self.items }
    }

    /// Sets both gaps.
    pub fn gap(self, gap: u16) -> (r: Self)
        ensures
            r.props == (GridProps { gap_x: gap, gap_y: gap, ..self.props }),
            r.items == self.items,
    {
        Grid { props: GridProps { gap_x: gap, gap_y: gap, ..self.props }, items: self.items }
    }

    /// Sets the horizontal gap between columns.
    pub fn gap_x(self, gap: u16) -> (r: Self)
        ensures
            r.props == (GridProps { gap_x: gap, ..self.props }),
            r.items == self.items,
    {
        Grid { props: GridProps { gap_x: gap, ..self.props }, items: self.items }
    }

    /// Sets the vertical gap between rows.
    pub fn gap_y(self, gap: u16) -> (r: Self)
        ensures
            r.props == (GridProps { gap_y: gap, ..self.props }),
            r.items == self.items,
    {
        Grid { props: GridProps { gap_y: gap, ..self.props }, items: self.items }
    }

    /// The horizontal gap between columns, by its other name.
    pub fn column_gap(self, gap: u16) -> (r: Self)
        ensures
            r.props == (GridProps { gap_x: gap, ..self.props }),
            r.items == self.items,
    {
        self.gap_x(gap)
    }

    /// The vertical gap between rows, by its other name.
    pub fn row_gap(self, gap: u16) -> (r: Self)
        ensures
            r.props == (GridProps { gap_y: gap, ..self.props }),
            r.items == self.items,
    {
        self.gap_y(gap)
    }

    /// Appends a child in flow order.
    pub fn child(self, element: Element) -> (r: Self)
        ensures
            r.props == self.props,
            r.items@ == self.items@.push(GridItem { element, placement: None, span: Cell { row: 1, col: 1 } }),
    {
        let mut items = self.items;
        items.push(GridItem { element, placement: None, span: Cell { row: 1, col: 1 } });
        Grid { props: self.props, items }
    }

    /// Sets the span of the most recently added child (each at least one).
    pub fn span(self, row_span: u16, col_span: u16) -> (r: Self)
        ensures
            r.props == self.props,
            self.items@.len() == 0 ==> r.items@ == self.items@,
            self.items@.len() > 0 ==> r.items@ == self.items@.update(
                self.items@.len() - 1,
                GridItem {
                    span: Cell { row: at_least_one(row_span as int) as u16, col: at_least_one(col_span as int) as u16 },
                    ..self.items@.last()
                },
            ),
    {
        let mut items = self.items;
        let n = items.len();
        if n > 0 {
            let last = items.remove(n - 1);
            let rs: u16 = if row_span < 1 { 1 } else { row_span };
            let cs: u16 = if col_span < 1 { 1 } else { col_span };
            items.push(GridItem { span: Cell { row: rs, col: cs }, ..last });
        }
        Grid { props: self.props, items }
    }

    /// Places a child at an explicit `(row, col)` cell.
    pub fn cell(self, row: u16, col: u16, element: Element) -> (r: Self)
        ensures
            r.props == self.props,
            r.items@ == self.items@.push(GridItem { element, placement: Some(Cell { row, col }), span: Cell { row: 1, col: 1 } }),
    {
        let mut items = self.items;
        items.push(GridItem { element, placement: Some(Cell { row, col }), span: Cell { row: 1, col: 1 } });
        Grid { props: self.props, items }
    }

    /// Places a child at an explicit cell, spanning `row_span` by `col_span`
    /// tracks (each at least one).
    pub fn cell_span(self, row: u16, col: u16, row_span: u16, col_span: u16, element: Element) -> (r: Self)
        ensures
            r.props == self.props,
            r.items@ == self.items@.push(
                GridItem {
                    element,
                    placement: Some(Cell { row, col }),
                    span: Cell { row: at_least_one(row_span as int) as u16, col: at_least_one(col_span as int) as u16 },
                },
            ),
    {
        let rs: u16 = if row_span < 1 { 1 } else { row_span };
        let cs: u16 = if col_span < 1 { 1 } else { col_span };
        let mut items = self.items;
        items.push(GridItem { element, placement: Some(Cell { row, col }), span: Cell { row: rs, col: cs } });
        Grid { props: self.props, items }
    }

    /// Sets the inner padding.
    pub fn padding(self, padding: Padding) -> (r: Self)
        ensures
            r.props == (GridProps { padding, ..self.props }),
            r.items == self.items,
    {
        Grid { props: GridProps { padding, ..self.props }, items: self.items }
    }

    /// Sets the base style.
    pub fn style(self, style: Style) -> (r: Self)
        ensures
            r.props == (GridProps { style, ..self.props }),
            r.items == self.items,
    {
        Grid { props: GridProps { style, ..self.props }, items: self.items }
    }

    /// Sets the cross-axis alignment of items in their cells.
    pub fn align(self, align: Align) -> (r: Self)
        ensures
            r.props == (GridProps { align, ..self.props }),
            r.items == self.items,
    {
        Grid { props: GridProps { align, ..self.props }, items: self.items }
    }

    /// Sets the main-axis alignment of items in their cells.
    pub fn justify(self, justify: Justify) -> (r: Self)
        ensures
            r.props == (GridProps { justify, ..self.props }),
            r.items == self.items,
    {
        Grid { props: GridProps { justify, ..self.props }, items: self.items }
    }

    /// Sets the width of the container.
    pub fn width(self, width: Length) -> (r: Self)
        ensures
            r.props == (GridProps { width, ..self.props }),
            r.items == self.items,
    {
        Grid { props: GridProps { width, ..self.props }, items: self.items }
    }

    /// Sets the height of the container.
    pub fn height(self, height: Length) -> (r: Self)
        ensures
            r.props == (GridProps { height, ..self.props }),
            r.items == self.items,
    {
        Grid { props: GridProps { height, ..self.props }, items: self.items }
    }

    /// Toggles the border.
    pub fn border(self, border: bool) -> (r: Self)
        ensures
            r.props == (GridProps { border, ..self.props }),
            r.items == self.items,
    {
        Grid { props: GridProps { border, ..self.props }, items: self.items }
    }

    /// Sets the border line style.
    pub fn border_style(self, border_style: BorderStyle) -> (r: Self)
        ensures
            r.props == (GridProps { border_style, ..self.props }),
            r.items == self.items,
    {
        Grid { props: GridProps { border_style, ..self.props }, items: self.items }
    }
}


/// The track at `i`, or `Auto` past the end.
pub open spec fn track_at(tracks: Seq<Length>, i: int) -> Length {
    if 0 <= i < tracks.len() { tracks[i] } else { Length::Auto }
}

/// The minimum at `i`, or zero past the end.
pub open spec fn min_at(mins: Seq<u16>, i: int) -> int {
    if 0 <= i < mins.len() { mins[i] as int } else { 0 }
}

/// The number of lines a track list stands for: at least one.
pub open spec fn line_count(n: int) -> int {
    if n < 1 { 1 } else { n }
}

/// `min(v, u16::MAX)`.
pub open spec fn cap_u16(v: int) -> int {
    if v > u16::MAX { u16::MAX as int } else { v }
}

/// `max(v, 0)`.
pub open spec fn max0(v: int) -> int {
    if v < 0 { 0 } else { v }
}

/// `max(a, b)`.
pub open spec fn max2(a: int, b: int) -> int {
    if a >= b { a } else { b }
}

/// The gaps between `n` lines: `gap` times `n - 1` (taken as a `u16`),
/// saturating.
pub open spec fn spec_gap_total(gap: int, n: int) -> int {
    cap_u16(gap * ((n - 1) % 65536))
}

/// `p` percent (at most 100) of `available`; nothing of an unbounded size.
pub open spec fn spec_percent_of(available: int, p: int) -> int {
    if available == u16::MAX {
        0
    } else {
        available * (if p > 100 { 100 } else { p }) / 100
    }
}

fn track_at_exec(tracks: &Vec<Length>, i: usize) -> (r: Length)
    ensures
        r == track_at(tracks@, i as int),
{
    if i < tracks.len() { tracks[i] } else { Length::Auto }
}

fn min_at_exec(mins: &Vec<u16>, i: usize) -> (r: u16)
    ensures
        r == min_at(mins@, i as int),
{
    if i < mins.len() { mins[i] } else { 0 }
}

fn gap_total(gap: u16, n: usize) -> (r: u16)
    requires
        n >= 1,
    ensures
        r == spec_gap_total(gap as int, n as int),
{
    let k: u16 = ((n - 1) % 65536) as u16;
    u16_sat_mul(gap, k)
}

/// `p` percent (at most 100) of `available`; zero when `available` is
/// `u16::MAX`, which stands for "unbounded".
pub fn percent_of(available: u16, p: u16) -> (r: u16)
    ensures
        r == spec_percent_of(available as int, p as int),
{
    if available == u16::MAX {
        return 0;
    }
    let pm: u32 = if p > 100 { 100 } else { p as u32 };
    let a: u32 = available as u32;
    assert(a * pm / 100 <= a) by (nonlinear_arith)
        requires pm <= 100, a <= 65535;
    let v: u32 = a * pm / 100;
    v as u16
}

/// The size a line has before slack or shortfall is shared out.
pub open spec fn base_size(t: Length, m: int, inner: int) -> int {
    match t {
        Length::Px(px) => max2(px as int, m),
        Length::Percent(p) => max2(spec_percent_of(inner, p as int), m),
        _ => m,
    }
}

/// The base size of line `i`.
pub open spec fn base_at(tracks: Seq<Length>, mins: Seq<u16>, inner: int, i: int) -> int {
    base_size(track_at(tracks, i), min_at(mins, i), inner)
}

/// The sum of the first `k` base sizes.
pub open spec fn base_sum(tracks: Seq<Length>, mins: Seq<u16>, inner: int, k: int) -> int
    decreases k,
{
    if k <= 0 { 0 } else { base_sum(tracks, mins, inner, k - 1) + base_at(tracks, mins, inner, k - 1) }
}

/// The weight of a flexible track (at least one); zero for the others.
pub open spec fn flex_weight(t: Length) -> int {
    match t {
        Length::Flex(w) => at_least_one(w as int),
        _ => 0,
    }
}

/// The total weight of the first `k` tracks.
pub open spec fn weight_sum(tracks: Seq<Length>, k: int) -> int
    decreases k,
{
    if k <= 0 { 0 } else { weight_sum(tracks, k - 1) + flex_weight(track_at(tracks, k - 1)) }
}

/// How many of the first `k` tracks are flexible.
pub open spec fn flex_count(tracks: Seq<Length>, k: int) -> int
    decreases k,
{
    if k <= 0 { 0 } else { flex_count(tracks, k - 1) + (if track_at(tracks, k - 1) is Flex { 1int } else { 0 }) }
}

/// What the first `k` tracks get of `extra` by weight, rounded down each.
pub open spec fn flex_share(tracks: Seq<Length>, extra: int, tw: int, k: int) -> int
    decreases k,
{
    if k <= 0 {
        0
    } else {
        flex_share(tracks, extra, tw, k - 1) + extra * flex_weight(track_at(tracks, k - 1)) / tw
    }
}

/// Whether a track gives back room when lines overflow.
pub open spec fn shrinkable(t: Length) -> bool {
    t is Auto || t is Flex
}

/// The base sizes of the shrinkable tracks among the first `k`.
pub open spec fn shrink_prefix(tracks: Seq<Length>, mins: Seq<u16>, inner: int, k: int) -> int
    decreases k,
{
    if k <= 0 {
        0
    } else {
        shrink_prefix(tracks, mins, inner, k - 1) + (if shrinkable(track_at(tracks, k - 1)) {
            base_at(tracks, mins, inner, k - 1)
        } else {
            0
        })
    }
}

/// Line sizes for `tracks`: each line gets its base size (fixed, percent of
/// the room left after gaps, or its minimum). When `distribute` is set and
/// room is left, flexible lines share it by weight, the last flexible line
/// taking the remainder; when the lines overflow, the excess (taken as a
/// `u16`) is taken from auto and flexible lines in order.
pub open spec fn spec_line_sizes(tracks: Seq<Length>, mins: Seq<u16>, gap: int, available: int, distribute: bool) -> Seq<
    int,
> {
    let n = line_count(tracks.len() as int);
    let inner = sat_sub_u16(available, spec_gap_total(gap, n));
    let total = base_sum(tracks, mins, inner, n);
    let used = if total > u32::MAX { u32::MAX as int } else { total };
    let tw = weight_sum(tracks, n);
    let fc = flex_count(tracks, n);
    Seq::new(
        n as nat,
        |i: int|
            {
                let t = track_at(tracks, i);
                let b = base_at(tracks, mins, inner, i);
                if distribute && used < inner {
                    if tw > 0 && t is Flex {
                        let extra = inner - used;
                        let add = if flex_count(tracks, i) + 1 == fc {
                            max0(extra - flex_share(tracks, extra, tw, i))
                        } else {
                            extra * flex_weight(t) / tw
                        };
                        sat_add_u16(b, add)
                    } else {
                        b
                    }
                } else if used > inner {
                    if shrinkable(t) {
                        let over = (used - inner) % 65536;
                        b - (if b <= max0(over - shrink_prefix(tracks, mins, inner, i)) {
                            b
                        } else {
                            max0(over - shrink_prefix(tracks, mins, inner, i))
                        })
                    } else {
                        b
                    }
                } else {
                    b
                }
            },
    )
}

proof fn lemma_weight_sum_mono(tracks: Seq<Length>, i: int, j: int)
    requires
        0 <= i <= j,
    ensures
        weight_sum(tracks, i) <= weight_sum(tracks, j),
    decreases j - i,
{
    if i < j {
        lemma_weight_sum_mono(tracks, i, j - 1);
    }
}

proof fn lemma_flex_count_mono(tracks: Seq<Length>, i: int, j: int)
    requires
        0 <= i <= j,
    ensures
        flex_count(tracks, i) <= flex_count(tracks, j),
        flex_count(tracks, j) - flex_count(tracks, i) <= j - i,
    decreases j - i,
{
    if i < j {
        lemma_flex_count_mono(tracks, i, j - 1);
    }
}

fn base_size_exec(t: Length, m: u16, inner: u16) -> (r: u16)
    ensures
        r == base_size(t, m as int, inner as int),
{
    match t {
        Length::Px(px) => if px >= m { px } else { m },
        Length::Percent(p) => {
            let v = percent_of(inner, p);
            if v >= m { v } else { m }
        },
        _ => m,
    }
}

/// Resolves line sizes within `available` cells; see [`spec_line_sizes`].
pub fn resolve_line_sizes(tracks: &Vec<Length>, mins: &Vec<u16>, gap: u16, available: u16, distribute_slack: bool) -> (r:
    Vec<u16>)
    ensures
        r@.len() == line_count(tracks@.len() as int),
        forall|i: int|
            0 <= i < r@.len() ==> r@[i] as int == #[trigger] spec_line_sizes(
                tracks@,
                mins@,
                gap as int,
                available as int,
                distribute_slack,
            )[i],
{
    let n: usize = if tracks.len() < 1 { 1 } else { tracks.len() };
    let gt = gap_total(gap, n);
    let inner: u16 = available.saturating_sub(gt);
    let ghost spec_sizes = spec_line_sizes(tracks@, mins@, gap as int, available as int, distribute_slack);
    let mut sizes: Vec<u16> = Vec::new();
    let mut used: u32 = 0;
    let mut tw: u128 = 0;
    let mut fc: usize = 0;
    let mut i: usize = 0;
    while i < n
        invariant
            n == line_count(tracks@.len() as int),
            inner == sat_sub_u16(available as int, spec_gap_total(gap as int, n as int)),
            i <= n,
            sizes@.len() == i,
            forall|j: int| 0 <= j < i ==> sizes@[j] as int == base_at(tracks@, mins@, inner as int, j),
            used as int == (if base_sum(tracks@, mins@, inner as int, i as int) > u32::MAX {
                u32::MAX as int
            } else {
                base_sum(tracks@, mins@, inner as int, i as int)
            }),
            tw as int == weight_sum(tracks@, i as int),
            tw <= 65535 * i,
            i <= usize::MAX,
            fc as int == flex_count(tracks@, i as int),
            fc <= i,
        decreases n - i,
    {
        let t = track_at_exec(tracks, i);
        let b = base_size_exec(t, min_at_exec(mins, i), inner);
        sizes.push(b);
        used = used.saturating_add(b as u32);
        match t {
            Length::Flex(w) => {
                let wt: u128 = if w < 1 { 1 } else { w as u128 };
                tw = tw + wt;
                fc = fc + 1;
            },
            _ => {},
        }
        i = i + 1;
    }
    proof {
        lemma_weight_sum_mono(tracks@, 0, n as int);
    }
    let inner32: u32 = inner as u32;
    if distribute_slack && used < inner32 {
        if tw > 0 {
            let extra: u32 = inner32 - used;
            let mut rem: u32 = extra;
            let mut fx: usize = 0;
            let mut i: usize = 0;
            while i < n
                invariant
                    n == line_count(tracks@.len() as int),
                    inner == sat_sub_u16(available as int, spec_gap_total(gap as int, n as int)),
                    distribute_slack,
                    (used as int) < inner as int,
                    extra as int == inner - used,
                    extra <= 65535,
                    used as int == (if base_sum(tracks@, mins@, inner as int, n as int) > u32::MAX {
                        u32::MAX as int
                    } else {
                        base_sum(tracks@, mins@, inner as int, n as int)
                    }),
                    tw > 0,
                    tw as int == weight_sum(tracks@, n as int),
                    fc as int == flex_count(tracks@, n as int),
                    spec_sizes == spec_line_sizes(tracks@, mins@, gap as int, available as int, distribute_slack),
                    spec_sizes.len() == n,
                    i <= n,
                    sizes@.len() == n,
                    fx as int == flex_count(tracks@, i as int),
                    fx < fc ==> rem as int == max0(extra - flex_share(tracks@, extra as int, tw as int, i as int)),
                    rem <= extra,
                    fx <= fc,
                    forall|j: int| 0 <= j < i ==> sizes@[j] as int == spec_sizes[j],
                    forall|j: int| i <= j < n ==> sizes@[j] as int == base_at(tracks@, mins@, inner as int, j),
                decreases n - i,
            {
                let t = track_at_exec(tracks, i);
                match t {
                    Length::Flex(w) => {
                        let wt: u128 = if w < 1 { 1 } else { w as u128 };
                        proof {
                            lemma_weight_sum_mono(tracks@, i as int + 1, n as int);
                            lemma_weight_sum_mono(tracks@, 0, i as int);
                            lemma_flex_count_mono(tracks@, i as int + 1, n as int);
                            assert(weight_sum(tracks@, i as int + 1) == weight_sum(tracks@, i as int) + wt);
                            assert(wt as int <= tw);
                        }
                        let add: u32 = if fx + 1 == fc {
                            rem
                        } else {
                            assert((extra as int) * (wt as int) / (tw as int) <= extra as int) by (nonlinear_arith)
                                requires wt <= tw, tw > 0, extra <= 65535;
                            assert((extra as u128) * wt <= 65535 * 65535) by (nonlinear_arith)
                                requires wt <= 65535, extra <= 65535;
                            ((extra as u128) * wt / tw) as u32
                        };
                        assert(extra as int * wt as int / tw as int >= 0) by (nonlinear_arith)
                            requires extra >= 0, wt >= 0, tw > 0;
                        let cur = sizes[i];
                        sizes.set(i, cur.saturating_add(add as u16));
                        rem = rem.saturating_sub(add);
                        fx = fx + 1;
                    },
                    _ => {},
                }
                i = i + 1;
            }
        }
    } else if used > inner32 {
        let over: u16 = ((used - inner32) % 65536) as u16;
        let mut left: u16 = over;
        let mut i: usize = 0;
        while i < n
            invariant
                n == line_count(tracks@.len() as int),
                inner == sat_sub_u16(available as int, spec_gap_total(gap as int, n as int)),
                !(distribute_slack && (used as int) < inner as int),
                used as int > inner as int,
                over as int == (used - inner) % 65536,
                used as int == (if base_sum(tracks@, mins@, inner as int, n as int) > u32::MAX {
                    u32::MAX as int
                } else {
                    base_sum(tracks@, mins@, inner as int, n as int)
                }),
                spec_sizes == spec_line_sizes(tracks@, mins@, gap as int, available as int, distribute_slack),
                spec_sizes.len() == n,
                i <= n,
                sizes@.len() == n,
                left as int == max0(over - shrink_prefix(tracks@, mins@, inner as int, i as int)),
                forall|j: int| 0 <= j < i ==> sizes@[j] as int == spec_sizes[j],
                forall|j: int| i <= j < n ==> sizes@[j] as int == base_at(tracks@, mins@, inner as int, j),
            decreases n - i,
        {
            let t = track_at_exec(tracks, i);
            if matches!(t, Length::Auto | Length::Flex(_)) {
                let cur = sizes[i];
                let take: u16 = if left <= cur { left } else { cur };
                sizes.set(i, cur - take);
                left = left - take;
            }
            i = i + 1;
        }
    } else {
        proof {
            assert forall|j: int| 0 <= j < n implies sizes@[j] as int == spec_sizes[j] by {}
        }
    }
    sizes
}


/// The size a line asks for when nothing bounds the grid.
pub open spec fn budget_line(t: Length, m: int) -> int {
    match t {
        Length::Px(px) => max2(px as int, m),
        _ => m,
    }
}

/// The sum of the first `k` budget lines.
pub open spec fn budget_sum(tracks: Seq<Length>, mins: Seq<u16>, k: int) -> int
    decreases k,
{
    if k <= 0 { 0 } else { budget_sum(tracks, mins, k - 1) + budget_line(track_at(tracks, k - 1), min_at(mins, k - 1)) }
}

/// The room lines ask for with no bound: their fixed sizes and minimums and
/// the gaps between them, between one and `u16::MAX`.
pub open spec fn spec_intrinsic_main_budget(tracks: Seq<Length>, mins: Seq<u16>, gap: int) -> int {
    let n = line_count(tracks.len() as int);
    let c = cap_u16(spec_gap_total(gap, n) + budget_sum(tracks, mins, n));
    if c < 1 { 1 } else { c }
}

proof fn lemma_budget_sum_nonneg(tracks: Seq<Length>, mins: Seq<u16>, k: int)
    ensures
        budget_sum(tracks, mins, k) >= 0,
    decreases k,
{
    if k > 0 {
        lemma_budget_sum_nonneg(tracks, mins, k - 1);
    }
}

/// The unbounded room lines ask for; see [`spec_intrinsic_main_budget`].
pub fn intrinsic_main_budget(tracks: &Vec<Length>, mins: &Vec<u16>, gap: u16) -> (r: u16)
    ensures
        r == spec_intrinsic_main_budget(tracks@, mins@, gap as int),
{
    let n: usize = if tracks.len() < 1 { 1 } else { tracks.len() };
    let gt = gap_total(gap, n);
    let mut s: u32 = gt as u32;
    let mut i: usize = 0;
    while i < n
        invariant
            n == line_count(tracks@.len() as int),
            gt == spec_gap_total(gap as int, n as int),
            i <= n,
            s as int == (if gt + budget_sum(tracks@, mins@, i as int) > u32::MAX {
                u32::MAX as int
            } else {
                gt + budget_sum(tracks@, mins@, i as int)
            }),
        decreases n - i,
    {
        proof {
            lemma_budget_sum_nonneg(tracks@, mins@, i as int);
        }
        let t = track_at_exec(tracks, i);
        let m = min_at_exec(mins, i);
        let line: u16 = match t {
            Length::Px(px) => if px >= m { px } else { m },
            _ => m,
        };
        s = s.saturating_add(line as u32);
        i = i + 1;
    }
    proof {
        lemma_budget_sum_nonneg(tracks@, mins@, n as int);
    }
    let c: u32 = if s > 65535 { 65535 } else { s };
    let c: u32 = if c < 1 { 1 } else { c };
    c as u16
}

/// The sum of `s[a..b]`.
pub open spec fn sum_range(s: Seq<u16>, a: int, b: int) -> int
    decreases b - a,
{
    if b <= a { 0 } else { sum_range(s, a, b - 1) + s[b - 1] }
}

/// The extent of `count` lines from `start` (cut at the last line) and the
/// gaps between them, saturating.
pub open spec fn spec_span_main_axis(sizes: Seq<u16>, gap: int, start: int, count: int) -> int {
    let end = if start + count > sizes.len() { sizes.len() as int } else { start + count };
    if end <= start { 0 } else { cap_u16(sum_range(sizes, start, end) + gap * (end - start - 1)) }
}

proof fn lemma_sum_range_nonneg(s: Seq<u16>, a: int, b: int)
    ensures
        sum_range(s, a, b) >= 0,
    decreases b - a,
{
    if b > a {
        lemma_sum_range_nonneg(s, a, b - 1);
    }
}

/// The extent of `count` lines from `start`; see [`spec_span_main_axis`].
pub fn span_main_axis(sizes: &Vec<u16>, gap: u16, start: usize, count: usize) -> (r: u16)
    ensures
        r == spec_span_main_axis(sizes@, gap as int, start as int, count as int),
{
    let end: usize = if count > sizes.len() || start > sizes.len() - count { sizes.len() } else { start + count };
    if end <= start {
        return 0;
    }
    let mut t: u16 = 0;
    let mut i: usize = start;
    while i < end
        invariant
            start <= i <= end,
            end <= sizes@.len(),
            i == start ==> t == 0,
            i > start ==> t as int == cap_u16(sum_range(sizes@, start as int, i as int) + gap * (i - start - 1)),
        decreases end - i,
    {
        proof {
            lemma_sum_range_nonneg(sizes@, start as int, i as int);
        }
        if i > start {
            proof {
                assert(gap * (i - start) == gap * (i - start - 1) + gap) by (nonlinear_arith);
                assert(gap * (i - start - 1) >= 0) by (nonlinear_arith)
                    requires i > start, gap >= 0;
            }
            t = t.saturating_add(gap);
        }
        t = t.saturating_add(sizes[i]);
        i = i + 1;
    }
    t
}

/// Where line `k` starts: the sizes and gaps before it, each taken as an
/// `i16` and added saturating.
pub open spec fn spec_track_start(sizes: Seq<u16>, gap: int, k: int) -> int
    decreases k,
{
    if k <= 0 {
        0
    } else {
        let p = sat_add_i16(spec_track_start(sizes, gap, k - 1), wrap_i16(sizes[k - 1] as int));
        if k < sizes.len() { sat_add_i16(p, wrap_i16(gap)) } else { p }
    }
}

proof fn lemma_track_start_range(sizes: Seq<u16>, gap: int, k: int)
    ensures
        i16::MIN <= spec_track_start(sizes, gap, k) <= i16::MAX,
    decreases k,
{
    if k > 0 {
        lemma_track_start_range(sizes, gap, k - 1);
    }
}

/// Where line `idx` starts; see [`spec_track_start`].
pub fn track_start(sizes: &Vec<u16>, gap: u16, idx: usize) -> (r: i16)
    ensures
        r == spec_track_start(sizes@, gap as int, if idx < sizes@.len() { idx as int } else { sizes@.len() as int }),
{
    let end: usize = if idx < sizes.len() { idx } else { sizes.len() };
    let mut p: i16 = 0;
    let mut i: usize = 0;
    while i < end
        invariant
            i <= end,
            end <= sizes@.len(),
            p == spec_track_start(sizes@, gap as int, i as int),
        decreases end - i,
    {
        proof {
            lemma_track_start_range(sizes@, gap as int, i as int);
        }
        p = i16_sat_add(p, u16_as_i16(sizes[i]));
        if i + 1 < sizes.len() {
            p = i16_sat_add(p, u16_as_i16(gap));
        }
        i = i + 1;
    }
    p
}

/// Where a child of height `child_h` starts in its cell along the main axis;
/// the distributing modes place a lone child at the start.
pub open spec fn spec_justify_in_cell(bounds: Rect, child_h: int, justify: Justify) -> int {
    match justify {
        Justify::Center => sat_add_i16(bounds.y as int, sat_sub_u16(bounds.h as int, child_h) / 2),
        Justify::End => sat_add_i16(bounds.y as int, wrap_i16(sat_sub_u16(bounds.h as int, child_h))),
        _ => bounds.y as int,
    }
}

/// Where a child starts in its cell along the main axis.
pub fn justify_in_cell(bounds: Rect, child_h: u16, justify: Justify) -> (r: i16)
    ensures
        r == spec_justify_in_cell(bounds, child_h as int, justify),
{
    match justify {
        Justify::Center => i16_sat_add(bounds.y, (bounds.h.saturating_sub(child_h) / 2) as i16),
        Justify::End => i16_sat_add(bounds.y, u16_as_i16(bounds.h.saturating_sub(child_h))),
        _ => bounds.y,
    }
}

/// Where a child of width `child_w` starts in its cell along the cross axis.
pub open spec fn spec_align_x(bounds: Rect, child_w: int, align: Align) -> int {
    match align {
        Align::Center => sat_add_i16(bounds.x as int, sat_sub_u16(bounds.w as int, child_w) / 2),
        Align::End => sat_add_i16(bounds.x as int, wrap_i16(sat_sub_u16(bounds.w as int, child_w))),
        _ => bounds.x as int,
    }
}

/// Where a child starts in its cell along the cross axis.
pub fn align_x(bounds: Rect, child_w: u16, align: Align) -> (r: i16)
    ensures
        r == spec_align_x(bounds, child_w as int, align),
{
    match align {
        Align::Center => i16_sat_add(bounds.x, (bounds.w.saturating_sub(child_w) / 2) as i16),
        Align::End => i16_sat_add(bounds.x, u16_as_i16(bounds.w.saturating_sub(child_w))),
        _ => bounds.x,
    }
}

/// The size of the grid's chrome: padding and border.
pub open spec fn spec_chrome_min(props: GridProps) -> (int, int) {
    let b: int = if props.border { 2 } else { 0 };
    (sat_add_u16(props.padding.spec_horizontal(), b), sat_add_u16(props.padding.spec_vertical(), b))
}

/// The size of an empty grid: its padding and border.
pub fn chrome_min(props: &GridProps) -> (r: (u16, u16))
    ensures
        r.0 == spec_chrome_min(*props).0,
        r.1 == spec_chrome_min(*props).1,
{
    let mut w = props.padding.horizontal();
    let mut h = props.padding.vertical();
    if props.border {
        w = w.saturating_add(2);
        h = h.saturating_add(2);
    }
    (w, h)
}

/// One `Auto` track where none is given.
pub open spec fn spec_normalize(tracks: Seq<Length>) -> Seq<Length> {
    if tracks.len() == 0 { seq![Length::Auto] } else { tracks }
}

/// Column and row tracks with an `Auto` track standing in for an empty list.
pub fn normalize_tracks(cols: &Vec<Length>, rows: &Vec<Length>) -> (r: (Vec<Length>, Vec<Length>))
    ensures
        r.0@ == spec_normalize(cols@),
        r.1@ == spec_normalize(rows@),
{
    let c = if cols.len() == 0 { vec![Length::Auto] } else { cols.clone() };
    let r = if rows.len() == 0 { vec![Length::Auto] } else { rows.clone() };
    (c, r)
}

/// A span of at least one, cut to `max` (itself at least one).
pub open spec fn spec_clamp_span(span: int, max: int) -> int {
    let s = at_least_one(span);
    let m = at_least_one(max);
    if s < m { s } else { m }
}

/// A span of at least one, cut to `max` (itself at least one).
pub fn clamp_span(span: u16, max: usize) -> (r: usize)
    ensures
        r == spec_clamp_span(span as int, max as int),
{
    let s: usize = if span < 1 { 1 } else { span as usize };
    let m: usize = if max < 1 { 1 } else { max };
    if s < m { s } else { m }
}


/// How many of the first `k` tracks are `Auto`.
pub open spec fn auto_count(tracks: Seq<Length>, k: int) -> int
    decreases k,
{
    if k <= 0 { 0 } else { auto_count(tracks, k - 1) + (if track_at(tracks, k - 1) is Auto { 1int } else { 0 }) }
}

proof fn lemma_auto_count_mono(tracks: Seq<Length>, i: int, j: int)
    requires
        0 <= i <= j,
    ensures
        auto_count(tracks, i) <= auto_count(tracks, j),
        auto_count(tracks, j) - auto_count(tracks, i) <= j - i,
    decreases j - i,
{
    if i < j {
        lemma_auto_count_mono(tracks, i, j - 1);
    }
}

/// The end of the `len` lines from `start`, cut at `n`.
pub open spec fn range_end(start: int, len: int, n: int) -> int {
    if start + len < n { start + len } else { n }
}

/// `sizes` after a spanning item lacking `deficit` cells grows the lines
/// `start..start + len` it covers: auto lines share the deficit evenly, the
/// first ones getting one more for the remainder; without auto lines,
/// flexible lines share it by weight, the last taking the remainder.
pub open spec fn spec_distribute(sizes: Seq<u16>, tracks: Seq<Length>, start: int, len: int, deficit: int) -> Seq<int> {
    let end = range_end(start, len, sizes.len() as int);
    let k = auto_count(tracks, end) - auto_count(tracks, start);
    let tw = weight_sum(tracks, end) - weight_sum(tracks, start);
    let fc = flex_count(tracks, end) - flex_count(tracks, start);
    Seq::new(
        sizes.len(),
        |i: int|
            {
                let t = track_at(tracks, i);
                if deficit == 0 || len == 0 || !(start <= i < end) {
                    sizes[i] as int
                } else if k > 0 {
                    if t is Auto {
                        let extra: int = if auto_count(tracks, i) - auto_count(tracks, start) < deficit % k { 1 } else { 0 };
                        sat_add_u16(sizes[i] as int, deficit / k + extra)
                    } else {
                        sizes[i] as int
                    }
                } else if tw > 0 && t is Flex {
                    let share = flex_share(tracks, deficit, tw, i) - flex_share(tracks, deficit, tw, start);
                    let add = if flex_count(tracks, i) - flex_count(tracks, start) + 1 == fc {
                        max0(deficit - share)
                    } else {
                        deficit * flex_weight(t) / tw
                    };
                    sat_add_u16(sizes[i] as int, add)
                } else {
                    sizes[i] as int
                }
            },
    )
}

/// Grows the lines a spanning item covers by the cells it lacks; see
/// [`spec_distribute`].
fn distribute_span_deficit(sizes: &mut Vec<u16>, tracks: &Vec<Length>, start: usize, len: usize, deficit: u16)
    requires
        len <= 65535,
        start <= 65535,
    ensures
        final(sizes)@.len() == old(sizes)@.len(),
        forall|i: int|
            0 <= i < final(sizes)@.len() ==> final(sizes)@[i] as int == #[trigger] spec_distribute(
                old(sizes)@,
                tracks@,
                start as int,
                len as int,
                deficit as int,
            )[i],
{
    let ghost old_sizes = sizes@;
    let ghost target = spec_distribute(old_sizes, tracks@, start as int, len as int, deficit as int);
    if deficit == 0 || len == 0 {
        return;
    }
    let end: usize = if start + len < sizes.len() { start + len } else { sizes.len() };
    let mut k: usize = 0;
    let mut tw: u128 = 0;
    let mut fc: usize = 0;
    let mut i: usize = start;
    proof {
        lemma_auto_count_mono(tracks@, 0, start as int);
        lemma_weight_sum_mono(tracks@, 0, start as int);
    }
    while i < end
        invariant
            start <= i,
            i <= end || end <= start,
            end == range_end(start as int, len as int, old_sizes.len() as int),
            end <= old_sizes.len(),
            k as int == auto_count(tracks@, i as int) - auto_count(tracks@, start as int),
            tw as int == weight_sum(tracks@, i as int) - weight_sum(tracks@, start as int),
            fc as int == flex_count(tracks@, i as int) - flex_count(tracks@, start as int),
            k <= i - start,
            fc <= i - start,
            tw <= 65535 * (i - start),
            len <= 65535,
        decreases end - i,
    {
        let t = track_at_exec(tracks, i);
        match t {
            Length::Auto => {
                k = k + 1;
            },
            Length::Flex(w) => {
                let wt: u128 = if w < 1 { 1 } else { w as u128 };
                tw = tw + wt;
                fc = fc + 1;
            },
            _ => {},
        }
        i = i + 1;
    }
    if end <= start {
        assert(sizes@ =~= old_sizes);
        assert forall|j: int| 0 <= j < sizes@.len() implies sizes@[j] as int == target[j] by {}
        return;
    }
    assert(k <= 65535);
    if k > 0 {
        let kk: u16 = k as u16;
        let per: u16 = deficit / kk;
        let rem: u16 = deficit % kk;
        let mut ai: usize = 0;
        let mut i: usize = start;
        while i < end
            invariant
                start <= i <= end,
                end == range_end(start as int, len as int, old_sizes.len() as int),
                end <= old_sizes.len(),
                k as int == auto_count(tracks@, end as int) - auto_count(tracks@, start as int),
                kk == k,
                k > 0,
                deficit > 0,
                len > 0,
                per as int == (deficit as int) / (k as int),
                rem as int == (deficit as int) % (k as int),
                ai as int == auto_count(tracks@, i as int) - auto_count(tracks@, start as int),
                target == spec_distribute(old_sizes, tracks@, start as int, len as int, deficit as int),
                sizes@.len() == old_sizes.len(),
                forall|j: int| 0 <= j < sizes@.len() && !(start <= j < i) ==> sizes@[j] == old_sizes[j],
                forall|j: int| start <= j < i ==> sizes@[j] as int == target[j],
            decreases end - i,
        {
            let t = track_at_exec(tracks, i);
            if matches!(t, Length::Auto) {
                proof {
                    lemma_auto_count_mono(tracks@, i as int + 1, end as int);
                }
                let add: u16 = if ai < rem as usize {
                    assert(k >= 2);
                    assert((deficit as int) / (k as int) <= (deficit as int) / 2) by (nonlinear_arith)
                        requires k >= 2, deficit >= 0;
                    per + 1
                } else {
                    per
                };
                let cur = sizes[i];
                sizes.set(i, cur.saturating_add(add));
                ai = ai + 1;
            }
            i = i + 1;
        }
        assert forall|j: int| 0 <= j < sizes@.len() implies sizes@[j] as int == target[j] by {}
    } else if tw > 0 {
        proof {
            lemma_weight_sum_mono(tracks@, 0, start as int);
        }
        let d32: u32 = deficit as u32;
        let mut rem: u32 = d32;
        let mut fx: usize = 0;
        let mut i: usize = start;
        while i < end
            invariant
                start <= i <= end,
                end == range_end(start as int, len as int, old_sizes.len() as int),
                end <= old_sizes.len(),
                auto_count(tracks@, end as int) - auto_count(tracks@, start as int) == 0,
                tw > 0,
                tw as int == weight_sum(tracks@, end as int) - weight_sum(tracks@, start as int),
                fc as int == flex_count(tracks@, end as int) - flex_count(tracks@, start as int),
                deficit > 0,
                len > 0,
                d32 == deficit,
                fx as int == flex_count(tracks@, i as int) - flex_count(tracks@, start as int),
                fx <= fc,
                fx < fc ==> rem as int == max0(
                    deficit - (flex_share(tracks@, deficit as int, tw as int, i as int) - flex_share(
                        tracks@,
                        deficit as int,
                        tw as int,
                        start as int,
                    )),
                ),
                rem <= deficit,
                target == spec_distribute(old_sizes, tracks@, start as int, len as int, deficit as int),
                sizes@.len() == old_sizes.len(),
                forall|j: int| 0 <= j < sizes@.len() && !(start <= j < i) ==> sizes@[j] == old_sizes[j],
                forall|j: int| start <= j < i ==> sizes@[j] as int == target[j],
            decreases end - i,
        {
            let t = track_at_exec(tracks, i);
            match t {
                Length::Flex(w) => {
                    let wt: u128 = if w < 1 { 1 } else { w as u128 };
                    proof {
                        lemma_weight_sum_mono(tracks@, i as int + 1, end as int);
                        lemma_weight_sum_mono(tracks@, start as int, i as int);
                        lemma_flex_count_mono(tracks@, i as int + 1, end as int);
                        assert(weight_sum(tracks@, i as int + 1) == weight_sum(tracks@, i as int) + wt);
                        assert(wt as int <= tw);
                    }
                    let add: u32 = if fx + 1 == fc {
                        rem
                    } else {
                        assert((d32 as int) * (wt as int) / (tw as int) <= d32 as int) by (nonlinear_arith)
                            requires wt <= tw, tw > 0, d32 <= 65535;
                        assert((d32 as u128) * wt <= 65535 * 65535) by (nonlinear_arith)
                            requires wt <= 65535, d32 <= 65535;
                        ((d32 as u128) * wt / tw) as u32
                    };
                    assert(d32 as int * wt as int / tw as int >= 0) by (nonlinear_arith)
                        requires d32 >= 0, wt >= 0, tw > 0;
                    let cur = sizes[i];
                    sizes.set(i, cur.saturating_add(add as u16));
                    rem = rem.saturating_sub(add);
                    fx = fx + 1;
                },
                _ => {},
            }
            i = i + 1;
        }
        assert forall|j: int| 0 <= j < sizes@.len() implies sizes@[j] as int == target[j] by {}
    } else {
        assert forall|j: int| 0 <= j < sizes@.len() implies sizes@[j] as int == target[j] by {}
    }
}


/// The occupancy of a grid's cells, row by row.
pub open spec fn occ_view(occ: Seq<Vec<bool>>) -> Seq<Seq<bool>> {
    Seq::new(occ.len(), |r: int| occ[r]@)
}

/// Every row of the occupancy has `ncols` cells.
pub open spec fn occ_wf(o: Seq<Seq<bool>>, ncols: int) -> bool {
    forall|r: int| 0 <= r < o.len() ==> #[trigger] o[r].len() == ncols
}

/// A `rs` by `cs` block at `(r, c)` lies in the grid on free cells.
pub open spec fn spec_fits(o: Seq<Seq<bool>>, r: int, c: int, rs: int, cs: int, ncols: int) -> bool {
    &&& 0 <= r && 0 <= c
    &&& c + cs <= ncols
    &&& r + rs <= o.len()
    &&& forall|rr: int, cc: int| r <= rr < r + rs && c <= cc < c + cs ==> !#[trigger] o[rr][cc]
}

/// The occupancy with the block at `(r, c)` taken.
pub open spec fn spec_mark(o: Seq<Seq<bool>>, r: int, c: int, rs: int, cs: int) -> Seq<Seq<bool>> {
    Seq::new(
        o.len(),
        |rr: int| Seq::new(o[rr].len(), |cc: int| o[rr][cc] || (r <= rr < r + rs && c <= cc < c + cs)),
    )
}

/// An empty row of `ncols` cells.
pub open spec fn empty_row(ncols: int) -> Seq<bool> {
    Seq::new(ncols as nat, |c: int| false)
}

/// The occupancy with `k` empty rows appended.
pub open spec fn spec_grow(o: Seq<Seq<bool>>, ncols: int, k: int) -> Seq<Seq<bool>> {
    o + Seq::new(k as nat, |i: int| empty_row(ncols))
}

/// The first cell at or after `(r, c)` in row-major order where the block
/// fits.
pub open spec fn spec_first_fit(o: Seq<Seq<bool>>, rs: int, cs: int, ncols: int, r: int, c: int) -> Option<(int, int)>
    decreases o.len() - r, ncols - c,
{
    if r < 0 || c < 0 || r >= o.len() || ncols <= 0 {
        None
    } else if c >= ncols {
        spec_first_fit(o, rs, cs, ncols, r + 1, 0)
    } else if spec_fits(o, r, c, rs, cs, ncols) {
        Some((r, c))
    } else {
        spec_first_fit(o, rs, cs, ncols, r, c + 1)
    }
}

proof fn lemma_first_fit_found(o: Seq<Seq<bool>>, rs: int, cs: int, ncols: int, r: int, c: int)
    ensures
        spec_first_fit(o, rs, cs, ncols, r, c) matches Some(p) ==> spec_fits(o, p.0, p.1, rs, cs, ncols) && 0 <= p.1
            < ncols && r <= p.0 < o.len(),
    decreases o.len() - r, ncols - c,
{
    if r < 0 || c < 0 || r >= o.len() || ncols <= 0 {
    } else if c >= ncols {
        lemma_first_fit_found(o, rs, cs, ncols, r + 1, 0);
    } else if spec_fits(o, r, c, rs, cs, ncols) {
    } else {
        lemma_first_fit_found(o, rs, cs, ncols, r, c + 1);
    }
}

proof fn lemma_first_fit_witness(o: Seq<Seq<bool>>, rs: int, cs: int, ncols: int, r: int, c: int, r0: int, c0: int)
    requires
        0 <= r,
        0 <= c,
        r < r0 || (r == r0 && c <= c0),
        0 <= c0 < ncols,
        r0 < o.len(),
        spec_fits(o, r0, c0, rs, cs, ncols),
    ensures
        spec_first_fit(o, rs, cs, ncols, r, c) is Some,
    decreases o.len() - r, ncols - c,
{
    if c >= ncols {
        lemma_first_fit_witness(o, rs, cs, ncols, r + 1, 0, r0, c0);
    } else if spec_fits(o, r, c, rs, cs, ncols) {
    } else {
        lemma_first_fit_witness(o, rs, cs, ncols, r, c + 1, r0, c0);
    }
}

/// How many empty rows auto placement appends before the block fits
/// (never more than `rs`).
pub open spec fn spec_auto_rows(o: Seq<Seq<bool>>, rs: int, cs: int, ncols: int, k: int) -> int
    decreases rs - k,
{
    if k >= rs || spec_first_fit(spec_grow(o, ncols, k), rs, cs, ncols, 0, 0) is Some {
        k
    } else {
        spec_auto_rows(o, rs, cs, ncols, k + 1)
    }
}

/// Auto placement: append rows until the block fits, then take the first
/// free cell in row-major order.
pub open spec fn spec_auto_place(o: Seq<Seq<bool>>, rs: int, cs: int, ncols: int) -> (Seq<Seq<bool>>, (int, int)) {
    let g = spec_grow(o, ncols, spec_auto_rows(o, rs, cs, ncols, 0));
    let p = spec_first_fit(g, rs, cs, ncols, 0, 0)->0;
    (spec_mark(g, p.0, p.1, rs, cs), p)
}

/// The spans an item takes: its row span cut to 4096 and its column span cut
/// to the column count.
pub open spec fn item_spans(item: GridItem, ncols: int) -> (int, int) {
    (spec_clamp_span(item.span.row as int, 4096), spec_clamp_span(item.span.col as int, ncols))
}

/// Placing one item: at its explicit cell (rows appended to reach it) when
/// the block fits there, else by auto placement.
pub open spec fn spec_place(o: Seq<Seq<bool>>, item: GridItem, ncols: int) -> (Seq<Seq<bool>>, (int, int)) {
    let (rs, cs) = item_spans(item, ncols);
    match item.placement {
        Some(p) => {
            let g = spec_grow(o, ncols, max0(p.row + rs - o.len()));
            if spec_fits(g, p.row as int, p.col as int, rs, cs, ncols) {
                (spec_mark(g, p.row as int, p.col as int, rs, cs), (p.row as int, p.col as int))
            } else {
                spec_auto_place(g, rs, cs, ncols)
            }
        },
        None => spec_auto_place(o, rs, cs, ncols),
    }
}

/// The occupancy and positions after placing the first `k` items in order.
pub open spec fn spec_placements(items: Seq<GridItem>, o0: Seq<Seq<bool>>, ncols: int, k: int) -> (
    Seq<Seq<bool>>,
    Seq<(int, int)>,
)
    decreases k,
{
    if k <= 0 {
        (o0, Seq::empty())
    } else {
        let (o, ps) = spec_placements(items, o0, ncols, k - 1);
        let (o2, p) = spec_place(o, items[k - 1], ncols);
        (o2, ps.push(p))
    }
}

/// The occupancy a grid starts from: `rows` empty rows of `ncols` cells.
pub open spec fn initial_occ(rows: int, ncols: int) -> Seq<Seq<bool>> {
    Seq::new(rows as nat, |r: int| empty_row(ncols))
}

fn fits(occ: &Vec<Vec<bool>>, r: usize, c: usize, rs: usize, cs: usize, ncols: usize) -> (b: bool)
    requires
        occ_wf(occ_view(occ@), ncols as int),
    ensures
        b == spec_fits(occ_view(occ@), r as int, c as int, rs as int, cs as int, ncols as int),
{
    let ghost o = occ_view(occ@);
    if c > ncols || cs > ncols - c {
        return false;
    }
    if r > occ.len() || rs > occ.len() - r {
        return false;
    }
    let rend: usize = r + rs;
    let cend: usize = c + cs;
    let mut rr: usize = r;
    while rr < rend
        invariant
            rend == r + rs,
            cend == c + cs,
            o == occ_view(occ@),
            occ_wf(o, ncols as int),
            c + cs <= ncols,
            r + rs <= occ@.len(),
            r <= rr <= r + rs,
            forall|a: int, b: int| r <= a < rr && c <= b < c + cs ==> !#[trigger] o[a][b],
        decreases r + rs - rr,
    {
        let mut cc: usize = c;
        while cc < cend
            invariant
                rend == r + rs,
                cend == c + cs,
                o == occ_view(occ@),
                occ_wf(o, ncols as int),
                c + cs <= ncols,
                r + rs <= occ@.len(),
                r <= rr < r + rs,
                c <= cc <= c + cs,
                forall|a: int, b: int| r <= a < rr && c <= b < c + cs ==> !#[trigger] o[a][b],
                forall|b: int| c <= b < cc ==> !#[trigger] o[rr as int][b],
            decreases c + cs - cc,
        {
            assert(o[rr as int] == occ@[rr as int]@);
            if occ[rr][cc] {
                return false;
            }
            cc = cc + 1;
        }
        rr = rr + 1;
    }
    true
}

fn mark_occ(occ: &mut Vec<Vec<bool>>, r: usize, c: usize, rs: usize, cs: usize, ncols: usize)
    requires
        occ_wf(occ_view(old(occ)@), ncols as int),
        spec_fits(occ_view(old(occ)@), r as int, c as int, rs as int, cs as int, ncols as int),
    ensures
        occ_view(final(occ)@) == spec_mark(occ_view(old(occ)@), r as int, c as int, rs as int, cs as int),
        occ_wf(occ_view(final(occ)@), ncols as int),
        final(occ)@.len() == old(occ)@.len(),
{
    let ghost o = occ_view(occ@);
    let ghost target = spec_mark(o, r as int, c as int, rs as int, cs as int);
    let n_rows: usize = occ.len();
    assert(o.len() == n_rows);
    let rend: usize = r + rs;
    let cend: usize = c + cs;
    let mut rr: usize = r;
    while rr < rend
        invariant
            rend == r + rs,
            cend == c + cs,
            o.len() == occ@.len(),
            occ_wf(o, ncols as int),
            spec_fits(o, r as int, c as int, rs as int, cs as int, ncols as int),
            target == spec_mark(o, r as int, c as int, rs as int, cs as int),
            r <= rr <= r + rs,
            forall|a: int| 0 <= a < occ@.len() && (a < r || a >= rr) ==> occ@[a]@ == o[a],
            forall|a: int| r <= a < rr ==> occ@[a]@ == target[a],
        decreases r + rs - rr,
    {
        let mut row: Vec<bool> = occ[rr].clone();
        assert(row@ == o[rr as int]) by {
            assert(row@ =~= occ@[rr as int]@);
        }
        let mut cc: usize = c;
        while cc < cend
            invariant
                rend == r + rs,
                cend == c + cs,
                o.len() == occ@.len(),
                occ_wf(o, ncols as int),
                spec_fits(o, r as int, c as int, rs as int, cs as int, ncols as int),
                r <= rr < r + rs,
                c <= cc <= c + cs,
                row@.len() == ncols,
                forall|b: int| 0 <= b < ncols && (b < c || b >= cc) ==> row@[b] == o[rr as int][b],
                forall|b: int| c <= b < cc ==> row@[b],
            decreases c + cs - cc,
        {
            row.set(cc, true);
            cc = cc + 1;
        }
        assert(row@ =~= target[rr as int]);
        occ.set(rr, row);
        rr = rr + 1;
    }
    assert forall|a: int| 0 <= a < occ@.len() implies #[trigger] occ_view(occ@)[a] =~= target[a] by {
        if a < r || a >= rend {
            assert(occ@[a]@ == o[a]);
        }
    }
    assert(occ_view(occ@) =~= target);
}

fn first_fit(occ: &Vec<Vec<bool>>, rs: usize, cs: usize, ncols: usize) -> (res: Option<(usize, usize)>)
    requires
        occ_wf(occ_view(occ@), ncols as int),
    ensures
        res matches Some(p) ==> spec_first_fit(occ_view(occ@), rs as int, cs as int, ncols as int, 0, 0) == Some(
            (p.0 as int, p.1 as int),
        ),
        res is None ==> spec_first_fit(occ_view(occ@), rs as int, cs as int, ncols as int, 0, 0) is None,
{
    let ghost o = occ_view(occ@);
    if ncols == 0 {
        return None;
    }
    let mut r: usize = 0;
    while r < occ.len()
        invariant
            o == occ_view(occ@),
            occ_wf(o, ncols as int),
            ncols > 0,
            r <= occ@.len(),
            spec_first_fit(o, rs as int, cs as int, ncols as int, 0, 0) == spec_first_fit(
                o,
                rs as int,
                cs as int,
                ncols as int,
                r as int,
                0,
            ),
        decreases occ@.len() - r,
    {
        let mut c: usize = 0;
        while c < ncols
            invariant
                o == occ_view(occ@),
                occ_wf(o, ncols as int),
                ncols > 0,
                r < occ@.len(),
                c <= ncols,
                spec_first_fit(o, rs as int, cs as int, ncols as int, 0, 0) == spec_first_fit(
                    o,
                    rs as int,
                    cs as int,
                    ncols as int,
                    r as int,
                    c as int,
                ),
            decreases ncols - c,
        {
            if fits(occ, r, c, rs, cs, ncols) {
                return Some((r, c));
            }
            c = c + 1;
        }
        r = r + 1;
    }
    None
}


/// `k` auto tracks.
pub open spec fn autos(k: int) -> Seq<Length> {
    Seq::new(k as nat, |i: int| Length::Auto)
}

fn empty_row_exec(ncols: usize) -> (r: Vec<bool>)
    ensures
        r@ == empty_row(ncols as int),
{
    let mut row: Vec<bool> = Vec::new();
    let mut i: usize = 0;
    while i < ncols
        invariant
            i <= ncols,
            row@ == Seq::new(i as nat, |c: int| false),
        decreases ncols - i,
    {
        row.push(false);
        i = i + 1;
        assert(row@ =~= Seq::new(i as nat, |c: int| false));
    }
    row
}

/// Appends one empty row to the occupancy and an auto track to the rows.
fn push_row(occ: &mut Vec<Vec<bool>>, rows: &mut Vec<Length>, ncols: usize)
    requires
        occ_wf(occ_view(old(occ)@), ncols as int),
    ensures
        occ_view(final(occ)@) == spec_grow(occ_view(old(occ)@), ncols as int, 1),
        occ_wf(occ_view(final(occ)@), ncols as int),
        final(occ)@.len() == old(occ)@.len() + 1,
        final(rows)@ == old(rows)@.push(Length::Auto),
{
    let ghost o = occ_view(occ@);
    occ.push(empty_row_exec(ncols));
    rows.push(Length::Auto);
    assert(occ_view(occ@) =~= spec_grow(o, ncols as int, 1));
}

proof fn lemma_grow_step(o: Seq<Seq<bool>>, ncols: int, k: int)
    requires
        k >= 0,
    ensures
        spec_grow(spec_grow(o, ncols, k), ncols, 1) == spec_grow(o, ncols, k + 1),
{
    assert(spec_grow(spec_grow(o, ncols, k), ncols, 1) =~= spec_grow(o, ncols, k + 1));
}

proof fn lemma_grow_wf(o: Seq<Seq<bool>>, ncols: int, k: int)
    requires
        occ_wf(o, ncols),
        k >= 0,
        ncols >= 0,
    ensures
        occ_wf(spec_grow(o, ncols, k), ncols),
{
    let g = spec_grow(o, ncols, k);
    assert forall|r: int| 0 <= r < g.len() implies #[trigger] g[r].len() == ncols by {
        if r >= o.len() {
            assert(g[r] == empty_row(ncols));
        }
    }
}

proof fn lemma_auto_fits_after_rs(o: Seq<Seq<bool>>, rs: int, cs: int, ncols: int)
    requires
        occ_wf(o, ncols),
        rs >= 1,
        1 <= cs <= ncols,
    ensures
        spec_first_fit(spec_grow(o, ncols, rs), rs, cs, ncols, 0, 0) is Some,
{
    let g = spec_grow(o, ncols, rs);
    assert forall|rr: int, cc: int| o.len() <= rr < o.len() + rs && 0 <= cc < cs implies !#[trigger] g[rr][cc] by {
        assert(g[rr] == empty_row(ncols));
    }
    assert(spec_fits(g, o.len() as int, 0, rs, cs, ncols));
    lemma_first_fit_witness(g, rs, cs, ncols, 0, 0, o.len() as int, 0);
}

/// Auto-places an `rs` by `cs` block; see [`spec_auto_place`].
fn auto_place(occ: &mut Vec<Vec<bool>>, rows: &mut Vec<Length>, rs: usize, cs: usize, ncols: usize) -> (p: (
    usize,
    usize,
))
    requires
        occ_wf(occ_view(old(occ)@), ncols as int),
        1 <= rs <= 4096,
        1 <= cs <= ncols,
    ensures
        occ_view(final(occ)@) == spec_auto_place(occ_view(old(occ)@), rs as int, cs as int, ncols as int).0,
        (p.0 as int, p.1 as int) == spec_auto_place(occ_view(old(occ)@), rs as int, cs as int, ncols as int).1,
        occ_wf(occ_view(final(occ)@), ncols as int),
        final(occ)@.len() >= old(occ)@.len(),
        final(rows)@ == old(rows)@ + autos(final(occ)@.len() - old(occ)@.len()),
{
    let ghost o = occ_view(occ@);
    let ghost rows0 = rows@;
    let ghost len0 = occ@.len();
    let mut k: usize = 0;
    proof {
        assert(spec_grow(o, ncols as int, 0) =~= o);
        assert(rows@ =~= rows0 + autos(0));
    }
    loop
        invariant
            o == occ_view(old(occ)@),
            rows0 == old(rows)@,
            len0 == old(occ)@.len(),
            1 <= rs <= 4096,
            1 <= cs <= ncols,
            occ_wf(o, ncols as int),
            k <= rs,
            occ_view(occ@) == spec_grow(o, ncols as int, k as int),
            occ@.len() == len0 + k,
            occ_wf(occ_view(occ@), ncols as int),
            spec_auto_rows(o, rs as int, cs as int, ncols as int, 0) == spec_auto_rows(
                o,
                rs as int,
                cs as int,
                ncols as int,
                k as int,
            ),
            rows@ == rows0 + autos(k as int),
        decreases rs - k,
    {
        match first_fit(occ, rs, cs, ncols) {
            Some(pos) => {
                let ghost cur = occ_view(occ@);
                proof {
                    lemma_first_fit_found(cur, rs as int, cs as int, ncols as int, 0, 0);
                    assert(spec_auto_rows(o, rs as int, cs as int, ncols as int, k as int) == k);
                    assert(spec_grow(o, ncols as int, spec_auto_rows(o, rs as int, cs as int, ncols as int, 0)) == cur);
                    assert(spec_auto_place(o, rs as int, cs as int, ncols as int) == (
                        spec_mark(cur, pos.0 as int, pos.1 as int, rs as int, cs as int),
                        (pos.0 as int, pos.1 as int),
                    ));
                    assert(o == occ_view(old(occ)@));
                }
                mark_occ(occ, pos.0, pos.1, rs, cs, ncols);
                proof {
                    assert(rows@ =~= rows0 + autos(occ@.len() - len0));
                }
                return pos;
            },
            None => {
                proof {
                    if k == rs {
                        lemma_auto_fits_after_rs(o, rs as int, cs as int, ncols as int);
                    }
                    lemma_grow_step(o, ncols as int, k as int);
                }
                push_row(occ, rows, ncols);
                k = k + 1;
                proof {
                    assert(rows@ =~= rows0 + autos(k as int));
                }
            },
        }
    }
}

/// The positions of the first `k` placed items, resolved from an initial
/// occupancy of `rows` rows and `ncols` columns.
pub open spec fn placements_of(items: Seq<GridItem>, ncols: int, rows: int) -> (Seq<Seq<bool>>, Seq<(int, int)>) {
    spec_placements(items, initial_occ(rows, ncols), ncols, items.len() as int)
}

/// Places each item at its explicit cell when its block fits there (rows
/// are appended to reach it), otherwise at the first free cell in row-major
/// order, appending rows until one is found. Returns the positions (taken as
/// `u16`) and the row tracks with an auto track for every appended row.
pub fn resolve_placements(items: &Vec<GridItem>, col_tracks: &Vec<Length>, row_tracks: Vec<Length>) -> (r: (
    Vec<Cell>,
    Vec<Length>,
))
    ensures
        r.0@.len() == items@.len(),
        forall|k: int|
            0 <= k < items@.len() ==> #[trigger] r.0@[k] == (Cell {
                row: placements_of(
                    items@,
                    line_count(col_tracks@.len() as int),
                    line_count(row_tracks@.len() as int),
                ).1[k].0 as u16,
                col: placements_of(
                    items@,
                    line_count(col_tracks@.len() as int),
                    line_count(row_tracks@.len() as int),
                ).1[k].1 as u16,
            }),
        r.1@ == row_tracks@ + autos(
            placements_of(items@, line_count(col_tracks@.len() as int), line_count(row_tracks@.len() as int)).0.len()
                - line_count(row_tracks@.len() as int),
        ),
{
    let ncols: usize = if col_tracks.len() < 1 { 1 } else { col_tracks.len() };
    let nrows0: usize = if row_tracks.len() < 1 { 1 } else { row_tracks.len() };
    let ghost o0 = initial_occ(nrows0 as int, ncols as int);
    let mut occ: Vec<Vec<bool>> = Vec::new();
    let mut i: usize = 0;
    while i < nrows0
        invariant
            i <= nrows0,
            occ@.len() == i,
            forall|r: int| 0 <= r < i ==> (#[trigger] occ@[r])@ == empty_row(ncols as int),
        decreases nrows0 - i,
    {
        occ.push(empty_row_exec(ncols));
        i = i + 1;
    }
    assert(occ_view(occ@) =~= o0);
    let ghost rows0 = row_tracks@;
    let mut rows = row_tracks;
    let mut out: Vec<Cell> = Vec::new();
    proof {
        assert(rows@ =~= rows0 + autos(0));
    }
    let mut k: usize = 0;
    while k < items.len()
        invariant
            ncols == line_count(col_tracks@.len() as int),
            nrows0 == line_count(rows0.len() as int),
            o0 == initial_occ(nrows0 as int, ncols as int),
            k <= items@.len(),
            occ_view(occ@) == spec_placements(items@, o0, ncols as int, k as int).0,
            occ_wf(occ_view(occ@), ncols as int),
            occ@.len() >= nrows0,
            rows@ == rows0 + autos(occ@.len() - nrows0),
            out@.len() == k,
            forall|j: int|
                0 <= j < k ==> #[trigger] out@[j] == (Cell {
                    row: spec_placements(items@, o0, ncols as int, k as int).1[j].0 as u16,
                    col: spec_placements(items@, o0, ncols as int, k as int).1[j].1 as u16,
                }),
            spec_placements(items@, o0, ncols as int, k as int).1.len() == k,
        decreases items@.len() - k,
    {
        let ghost o = occ_view(occ@);
        let ghost len_before = occ@.len();
        let ghost rows_before = rows@;
        let item = &items[k];
        let rs = clamp_span(item.span.row, 4096);
        let cs = clamp_span(item.span.col, ncols);
        let ghost placed_spec = spec_place(o, items@[k as int], ncols as int);
        let mut placed: Option<(usize, usize)> = None;
        match item.placement {
            Some(p) => {
                let r0 = p.row as usize;
                let c0 = p.col as usize;
                let ghost need = max0(r0 + rs - o.len());
                let ghost mut grown: int = 0;
                proof {
                    assert(spec_grow(o, ncols as int, 0) =~= o);
                }
                while r0 + rs > occ.len()
                    invariant
                        occ_wf(o, ncols as int),
                        0 <= grown <= need,
                        need == max0(r0 + rs - o.len()),
                        occ@.len() == o.len() + grown,
                        occ_view(occ@) == spec_grow(o, ncols as int, grown),
                        occ_wf(occ_view(occ@), ncols as int),
                        rows@ == rows_before + autos(grown),
                        r0 <= 65535,
                        rs <= 4096,
                    decreases r0 + rs - occ@.len(),
                {
                    proof {
                        lemma_grow_step(o, ncols as int, grown);
                    }
                    push_row(&mut occ, &mut rows, ncols);
                    proof {
                        grown = grown + 1;
                        assert(rows@ =~= rows_before + autos(grown));
                    }
                }
                assert(grown == need);
                if fits(&occ, r0, c0, rs, cs, ncols) {
                    mark_occ(&mut occ, r0, c0, rs, cs, ncols);
                    out.push(p);
                    placed = Some((r0, c0));
                } else {
                    let pos = auto_place(&mut occ, &mut rows, rs, cs, ncols);
                    out.push(Cell { row: pos.0 as u16, col: pos.1 as u16 });
                    placed = Some(pos);
                }
            },
            None => {
                let pos = auto_place(&mut occ, &mut rows, rs, cs, ncols);
                out.push(Cell { row: pos.0 as u16, col: pos.1 as u16 });
                placed = Some(pos);
            },
        }
        proof {
            assert(rows@ =~= rows0 + autos(occ@.len() - nrows0));
        }
        k = k + 1;
    }
    (out, rows)
}


/// [`spec_distribute`] as line sizes.
pub open spec fn distribute_u16(sizes: Seq<u16>, tracks: Seq<Length>, start: int, len: int, deficit: int) -> Seq<u16> {
    Seq::new(sizes.len(), |i: int| spec_distribute(sizes, tracks, start, len, deficit)[i] as u16)
}

/// `s` with line `i` raised to at least `v`.
pub open spec fn raise(s: Seq<u16>, i: int, v: u16) -> Seq<u16> {
    s.update(i, if v > s[i] { v } else { s[i] })
}

/// The lower bounds a track list sets before any item is seen: fixed sizes,
/// and percents of `avail`.
pub open spec fn initial_mins(tracks: Seq<Length>, avail: int) -> Seq<u16> {
    Seq::new(
        tracks.len(),
        |i: int|
            match tracks[i] {
                Length::Px(px) => px,
                Length::Percent(p) => spec_percent_of(avail, p as int) as u16,
                _ => 0u16,
            },
    )
}

/// The room inside the grid's chrome, when the grid is bounded.
pub open spec fn inner_avail(max: Option<u16>, pad: int, border: bool) -> Option<u16> {
    match max {
        Some(m) => Some(sat_sub_u16(sat_sub_u16(m as int, pad), if border { 2 } else { 0 }) as u16),
        None => None,
    }
}

/// An unbounded size stands as `u16::MAX`.
pub open spec fn or_unbounded(v: Option<u16>) -> int {
    match v {
        Some(x) => x as int,
        None => u16::MAX as int,
    }
}

/// The cell extent a multi-track item already has: its lines' minimums and
/// the gaps between them, saturating.
pub open spec fn covered(mins: Seq<u16>, gap: int, start: int, span: int) -> int {
    let end = if start + span < mins.len() { start + span } else { mins.len() as int };
    cap_u16(spec_gap_total(gap, span) + sum_range(mins, start, end))
}

/// Column and row minimums after the first pass over the first `k` items:
/// single-cell items raise auto columns to their width and fixed rows to
/// their height; items spanning columns grow the columns they cover by the
/// width they lack.
pub open spec fn mins_first_pass(
    gap_x: int,
    items: Seq<GridItem>,
    cells: Seq<Cell>,
    cols: Seq<Length>,
    rows: Seq<Length>,
    c0: Seq<u16>,
    r0: Seq<u16>,
    k: int,
) -> (Seq<u16>, Seq<u16>)
    decreases k,
{
    if k <= 0 {
        (c0, r0)
    } else {
        let (cm, rm) = mins_first_pass(gap_x, items, cells, cols, rows, c0, r0, k - 1);
        let item = items[k - 1];
        let r = cells[k - 1].row as int;
        let c = cells[k - 1].col as int;
        let rs = at_least_one(item.span.row as int);
        let cs = at_least_one(item.span.col as int);
        let mw = item.element.min_w;
        let mh = item.element.min_h;
        if r >= rows.len() || c >= cols.len() {
            (cm, rm)
        } else if rs == 1 && cs == 1 {
            (
                if cols[c] is Auto { raise(cm, c, mw) } else { cm },
                if rows[r] is Px || rows[r] is Percent { raise(rm, r, mh) } else { rm },
            )
        } else if cs > 1 && mw > covered(cm, gap_x, c, cs) {
            (distribute_u16(cm, cols, c, cs, mw - covered(cm, gap_x, c, cs)), rm)
        } else {
            (cm, rm)
        }
    }
}

/// Row minimums after the second pass: single-row items raise auto rows to
/// their height.
pub open spec fn mins_second_pass(items: Seq<GridItem>, cells: Seq<Cell>, cols_len: int, rows: Seq<Length>, r0: Seq<u16>, k: int) -> Seq<
    u16,
>
    decreases k,
{
    if k <= 0 {
        r0
    } else {
        let rm = mins_second_pass(items, cells, cols_len, rows, r0, k - 1);
        let item = items[k - 1];
        let r = cells[k - 1].row as int;
        let c = cells[k - 1].col as int;
        if r >= rows.len() || c >= cols_len || at_least_one(item.span.row as int) != 1 || !(rows[r] is Auto) {
            rm
        } else {
            raise(rm, r, item.element.min_h)
        }
    }
}

/// Row minimums after the third pass: items spanning rows grow the rows
/// they cover by the height they lack.
pub open spec fn mins_third_pass(
    gap_y: int,
    items: Seq<GridItem>,
    cells: Seq<Cell>,
    cols_len: int,
    rows: Seq<Length>,
    r0: Seq<u16>,
    k: int,
) -> Seq<u16>
    decreases k,
{
    if k <= 0 {
        r0
    } else {
        let rm = mins_third_pass(gap_y, items, cells, cols_len, rows, r0, k - 1);
        let item = items[k - 1];
        let r = cells[k - 1].row as int;
        let c = cells[k - 1].col as int;
        let rs = at_least_one(item.span.row as int);
        let mh = item.element.min_h;
        if r >= rows.len() || c >= cols_len || rs <= 1 || !(mh > covered(rm, gap_y, r, rs)) {
            rm
        } else {
            distribute_u16(rm, rows, r, rs, mh - covered(rm, gap_y, r, rs))
        }
    }
}

/// The column and row minimums of a grid's tracks given its placed items.
pub open spec fn spec_intrinsic_mins(
    props: GridProps,
    items: Seq<GridItem>,
    cells: Seq<Cell>,
    cols: Seq<Length>,
    rows: Seq<Length>,
    max_w: Option<u16>,
    max_h: Option<u16>,
) -> (Seq<u16>, Seq<u16>) {
    let n = if items.len() < cells.len() { items.len() as int } else { cells.len() as int };
    let aw = or_unbounded(inner_avail(max_w, props.padding.spec_horizontal(), props.border));
    let ah = or_unbounded(inner_avail(max_h, props.padding.spec_vertical(), props.border));
    let (cm, rm) = mins_first_pass(
        props.gap_x as int,
        items,
        cells,
        cols,
        rows,
        initial_mins(cols, aw),
        initial_mins(rows, ah),
        n,
    );
    let rm2 = mins_second_pass(items, cells, cols.len() as int, rows, rm, n);
    (cm, mins_third_pass(props.gap_y as int, items, cells, cols.len() as int, rows, rm2, n))
}

fn inner_avail_exec(max: Option<u16>, pad: u16, border: bool) -> (r: Option<u16>)
    ensures
        r == inner_avail(max, pad as int, border),
{
    match max {
        Some(m) => Some(m.saturating_sub(pad).saturating_sub(if border { 2 } else { 0 })),
        None => None,
    }
}

fn initial_mins_exec(tracks: &Vec<Length>, avail: u16) -> (r: Vec<u16>)
    ensures
        r@ == initial_mins(tracks@, avail as int),
{
    let mut out: Vec<u16> = Vec::new();
    let mut i: usize = 0;
    while i < tracks.len()
        invariant
            i <= tracks@.len(),
            out@ =~= initial_mins(tracks@, avail as int).take(i as int),
        decreases tracks@.len() - i,
    {
        let v: u16 = match tracks[i] {
            Length::Px(px) => px,
            Length::Percent(p) => percent_of(avail, p),
            _ => 0,
        };
        out.push(v);
        i = i + 1;
        assert(out@ =~= initial_mins(tracks@, avail as int).take(i as int));
    }
    assert(out@ =~= initial_mins(tracks@, avail as int));
    out
}

fn raise_exec(s: &mut Vec<u16>, i: usize, v: u16)
    requires
        i < old(s)@.len(),
    ensures
        final(s)@ == raise(old(s)@, i as int, v),
{
    let cur = s[i];
    if v > cur {
        s.set(i, v);
    } else {
        s.set(i, cur);
    }
}

/// The cell extent a multi-track item already has; see [`covered`].
fn covered_exec(mins: &Vec<u16>, gap: u16, start: usize, span: usize) -> (r: u16)
    requires
        1 <= span <= 65535,
        start < mins@.len(),
    ensures
        r == covered(mins@, gap as int, start as int, span as int),
{
    let end: usize = if span < mins.len() - start { start + span } else { mins.len() };
    let mut t: u16 = gap_total(gap, span);
    let mut i: usize = start;
    while i < end
        invariant
            start <= i <= end,
            end <= mins@.len(),
            end == (if start + span < mins@.len() { start + span } else { mins@.len() as int }),
            t as int == cap_u16(spec_gap_total(gap as int, span as int) + sum_range(mins@, start as int, i as int)),
        decreases end - i,
    {
        proof {
            lemma_sum_range_nonneg(mins@, start as int, i as int);
        }
        t = t.saturating_add(mins[i]);
        i = i + 1;
    }
    t
}

/// Column and row minimums of a grid's tracks; see [`spec_intrinsic_mins`].
pub fn compute_intrinsic_mins(
    props: &GridProps,
    items: &Vec<GridItem>,
    placements: &Vec<Cell>,
    col_tracks: &Vec<Length>,
    row_tracks: &Vec<Length>,
    max_w: Option<u16>,
    max_h: Option<u16>,
) -> (r: (Vec<u16>, Vec<u16>))
    ensures
        r.0@ == spec_intrinsic_mins(*props, items@, placements@, col_tracks@, row_tracks@, max_w, max_h).0,
        r.1@ == spec_intrinsic_mins(*props, items@, placements@, col_tracks@, row_tracks@, max_w, max_h).1,
{
    let num_cols = col_tracks.len();
    let num_rows = row_tracks.len();
    let n: usize = if items.len() < placements.len() { items.len() } else { placements.len() };
    let inner_w = inner_avail_exec(max_w, props.padding.horizontal(), props.border);
    let inner_h = inner_avail_exec(max_h, props.padding.vertical(), props.border);
    let avail_w: u16 = match inner_w {
        Some(w) => w,
        None => u16::MAX,
    };
    let avail_h: u16 = match inner_h {
        Some(h) => h,
        None => u16::MAX,
    };
    let mut col_mins = initial_mins_exec(col_tracks, avail_w);
    let mut row_mins = initial_mins_exec(row_tracks, avail_h);
    let ghost c0 = col_mins@;
    let ghost r0 = row_mins@;
    let mut k: usize = 0;
    while k < n
        invariant
            n <= items@.len(),
            n <= placements@.len(),
            k <= n,
            num_cols == col_tracks@.len(),
            num_rows == row_tracks@.len(),
            (col_mins@, row_mins@) == mins_first_pass(
                props.gap_x as int,
                items@,
                placements@,
                col_tracks@,
                row_tracks@,
                c0,
                r0,
                k as int,
            ),
            col_mins@.len() == num_cols,
            row_mins@.len() == num_rows,
        decreases n - k,
    {
        let item = &items[k];
        let cell = placements[k];
        let rs: usize = if item.span.row < 1 { 1 } else { item.span.row as usize };
        let cs: usize = if item.span.col < 1 { 1 } else { item.span.col as usize };
        let r = cell.row as usize;
        let c = cell.col as usize;
        if r < num_rows && c < num_cols {
            let (mw, mh) = item.element.min_size_constrained(inner_w, inner_h);
            if rs == 1 && cs == 1 {
                if matches!(col_tracks[c], Length::Auto) {
                    raise_exec(&mut col_mins, c, mw);
                }
                if matches!(row_tracks[r], Length::Px(_) | Length::Percent(_)) {
                    raise_exec(&mut row_mins, r, mh);
                }
            } else if cs > 1 {
                let sum_w = covered_exec(&col_mins, props.gap_x, c, cs);
                if mw > sum_w {
                    let ghost before = col_mins@;
                    distribute_span_deficit(&mut col_mins, col_tracks, c, cs, mw - sum_w);
                    assert(col_mins@ =~= distribute_u16(before, col_tracks@, c as int, cs as int, (mw - sum_w) as int));
                }
            }
        }
        k = k + 1;
    }
    let col_budget: u16 = match inner_w {
        Some(w) => w,
        None => intrinsic_main_budget(col_tracks, &col_mins, props.gap_x),
    };
    let col_probe = resolve_line_sizes(col_tracks, &col_mins, props.gap_x, col_budget, max_w.is_some());
    let ghost r1 = row_mins@;
    let mut k: usize = 0;
    while k < n
        invariant
            n <= items@.len(),
            n <= placements@.len(),
            k <= n,
            num_cols == col_tracks@.len(),
            num_rows == row_tracks@.len(),
            row_mins@ == mins_second_pass(items@, placements@, num_cols as int, row_tracks@, r1, k as int),
            row_mins@.len() == num_rows,
        decreases n - k,
    {
        let item = &items[k];
        let cell = placements[k];
        let rs: usize = if item.span.row < 1 { 1 } else { item.span.row as usize };
        let cs: usize = if item.span.col < 1 { 1 } else { item.span.col as usize };
        let r = cell.row as usize;
        let c = cell.col as usize;
        if r < num_rows && c < num_cols && rs == 1 && matches!(row_tracks[r], Length::Auto) {
            let cs_eff: usize = if cs < num_cols - c { cs } else { num_cols - c };
            let cw = span_main_axis(&col_probe, props.gap_x, c, cs_eff);
            let (_, mh) = item.element.min_size_constrained(Some(cw), inner_h);
            raise_exec(&mut row_mins, r, mh);
        }
        k = k + 1;
    }
    let ghost r2 = row_mins@;
    let mut k: usize = 0;
    while k < n
        invariant
            n <= items@.len(),
            n <= placements@.len(),
            k <= n,
            num_cols == col_tracks@.len(),
            num_rows == row_tracks@.len(),
            row_mins@ == mins_third_pass(props.gap_y as int, items@, placements@, num_cols as int, row_tracks@, r2, k as int),
            row_mins@.len() == num_rows,
        decreases n - k,
    {
        let item = &items[k];
        let cell = placements[k];
        let rs: usize = if item.span.row < 1 { 1 } else { item.span.row as usize };
        let cs: usize = if item.span.col < 1 { 1 } else { item.span.col as usize };
        let r = cell.row as usize;
        let c = cell.col as usize;
        if r < num_rows && c < num_cols && rs > 1 {
            let cs_eff: usize = if cs < num_cols - c { cs } else { num_cols - c };
            let cw = span_main_axis(&col_probe, props.gap_x, c, cs_eff);
            let (_, mh) = item.element.min_size_constrained(Some(cw), inner_h);
            let sum_h = covered_exec(&row_mins, props.gap_y, r, rs);
            if mh > sum_h {
                let ghost before = row_mins@;
                distribute_span_deficit(&mut row_mins, row_tracks, r, rs, mh - sum_h);
                assert(row_mins@ =~= distribute_u16(before, row_tracks@, r as int, rs as int, (mh - sum_h) as int));
            }
        }
        k = k + 1;
    }
    (col_mins, row_mins)
}


/// A grid's resolved placement and track minimums.
#[derive(Clone, Debug)]
pub struct GridResolved {
    pub placements: Vec<Cell>,
    pub col_tracks: Vec<Length>,
    pub row_tracks: Vec<Length>,
    pub col_mins: Vec<u16>,
    pub row_mins: Vec<u16>,
}

/// The cells items are placed at (positions taken as `u16`).
pub open spec fn placed_cells(items: Seq<GridItem>, ncols: int, nrows: int) -> Seq<Cell> {
    Seq::new(
        items.len(),
        |k: int|
            Cell {
                row: placements_of(items, ncols, nrows).1[k].0 as u16,
                col: placements_of(items, ncols, nrows).1[k].1 as u16,
            },
    )
}

/// The row tracks once placement has appended auto rows.
pub open spec fn placed_rows(items: Seq<GridItem>, rows: Seq<Length>, ncols: int) -> Seq<Length> {
    rows + autos(placements_of(items, ncols, line_count(rows.len() as int)).0.len() - line_count(rows.len() as int))
}

/// Placement, tracks and minimums of a grid: `(cells, column tracks, row
/// tracks, column minimums, row minimums)`.
pub open spec fn spec_resolved(props: GridProps, items: Seq<GridItem>, max_w: Option<u16>, max_h: Option<u16>) -> (
    Seq<Cell>,
    Seq<Length>,
    Seq<Length>,
    Seq<u16>,
    Seq<u16>,
) {
    let ct = spec_normalize(props.columns@);
    let rt0 = spec_normalize(props.rows@);
    let ncols = ct.len() as int;
    let cells = placed_cells(items, ncols, rt0.len() as int);
    let rt = placed_rows(items, rt0, ncols);
    let mins = spec_intrinsic_mins(props, items, cells, ct, rt, max_w, max_h);
    (cells, ct, rt, mins.0, mins.1)
}

/// Resolves placement and track minimums; see [`spec_resolved`].
pub fn resolve_grid(props: &GridProps, items: &Vec<GridItem>, max_w: Option<u16>, max_h: Option<u16>) -> (g: GridResolved)
    ensures
        (g.placements@, g.col_tracks@, g.row_tracks@, g.col_mins@, g.row_mins@) == spec_resolved(
            *props,
            items@,
            max_w,
            max_h,
        ),
{
    let (col_tracks, row_tracks) = normalize_tracks(&props.columns, &props.rows);
    let ghost rt0 = row_tracks@;
    let (placements, row_tracks) = resolve_placements(items, &col_tracks, row_tracks);
    assert(placements@ =~= placed_cells(items@, col_tracks@.len() as int, rt0.len() as int));
    let (col_mins, row_mins) = compute_intrinsic_mins(
        props,
        items,
        &placements,
        &col_tracks,
        &row_tracks,
        max_w,
        max_h,
    );
    GridResolved { placements, col_tracks, row_tracks, col_mins, row_mins }
}

/// Line sizes as `u16` values.
pub open spec fn line_sizes_u16(tracks: Seq<Length>, mins: Seq<u16>, gap: int, available: int, distribute: bool) -> Seq<
    u16,
> {
    Seq::new(
        line_count(tracks.len() as int) as nat,
        |i: int| spec_line_sizes(tracks, mins, gap, available, distribute)[i] as u16,
    )
}

fn line_sizes(tracks: &Vec<Length>, mins: &Vec<u16>, gap: u16, available: u16, distribute_slack: bool) -> (r: Vec<u16>)
    ensures
        r@ == line_sizes_u16(tracks@, mins@, gap as int, available as int, distribute_slack),
{
    let v = resolve_line_sizes(tracks, mins, gap, available, distribute_slack);
    assert(v@ =~= line_sizes_u16(tracks@, mins@, gap as int, available as int, distribute_slack));
    v
}

/// The extent of all lines and the gaps between them (the line count less
/// one taken as a `u32`), saturating at `u32::MAX`.
pub open spec fn lines_extent(sizes: Seq<u16>, gap: int) -> int {
    let t = gap * ((sizes.len() - 1) % 0x1_0000_0000) + sum_range(sizes, 0, sizes.len() as int);
    if t > u32::MAX { u32::MAX as int } else { t }
}

fn lines_extent_exec(sizes: &Vec<u16>, gap: u16) -> (r: u32)
    requires
        sizes@.len() >= 1,
    ensures
        r == lines_extent(sizes@, gap as int),
{
    let k: u64 = ((sizes.len() - 1) as u64) % 0x1_0000_0000;
    assert(gap as u64 * k <= 65535 * 0xffff_ffff) by (nonlinear_arith)
        requires gap <= 65535, k <= 0xffff_ffff;
    let p: u64 = gap as u64 * k;
    let mut t: u32 = if p > 0xffff_ffff { 0xffff_ffff } else { p as u32 };
    let mut i: usize = 0;
    while i < sizes.len()
        invariant
            i <= sizes@.len(),
            p == gap * ((sizes@.len() - 1) % 0x1_0000_0000),
            t as int == (if p + sum_range(sizes@, 0, i as int) > u32::MAX {
                u32::MAX as int
            } else {
                p + sum_range(sizes@, 0, i as int)
            }),
        decreases sizes@.len() - i,
    {
        proof {
            lemma_sum_range_nonneg(sizes@, 0, i as int);
        }
        t = t.saturating_add(sizes[i] as u32);
        i = i + 1;
    }
    t
}

/// The measured size of a grid: chrome alone when empty; otherwise its lines
/// resolved within the bound (or their unbounded budget), the total taken as
/// a `u16`, plus padding and border, cut to the bound.
pub open spec fn spec_measure_grid(props: GridProps, items: Seq<GridItem>, max_w: Option<u16>, max_h: Option<u16>) -> (
    int,
    int,
) {
    if items.len() == 0 {
        spec_chrome_min(props)
    } else {
        let (cells, ct, rt, cm, rm) = spec_resolved(props, items, max_w, max_h);
        let iw = inner_avail(max_w, props.padding.spec_horizontal(), props.border);
        let ih = inner_avail(max_h, props.padding.spec_vertical(), props.border);
        let ipw = match iw {
            Some(w) => w as int,
            None => spec_intrinsic_main_budget(ct, cm, props.gap_x as int),
        };
        let iph = match ih {
            Some(h) => h as int,
            None => spec_intrinsic_main_budget(rt, rm, props.gap_y as int),
        };
        let cols = line_sizes_u16(ct, cm, props.gap_x as int, ipw, max_w is Some);
        let rows = line_sizes_u16(rt, rm, props.gap_y as int, iph, max_h is Some);
        let b: int = if props.border { 2 } else { 0 };
        let w = sat_add_u16(sat_add_u16(lines_extent(cols, props.gap_x as int) % 65536, props.padding.spec_horizontal()), b);
        let h = sat_add_u16(sat_add_u16(lines_extent(rows, props.gap_y as int) % 65536, props.padding.spec_vertical()), b);
        (
            match max_w {
                Some(m) => if w > m { m as int } else { w },
                None => w,
            },
            match max_h {
                Some(m) => if h > m { m as int } else { h },
                None => h,
            },
        )
    }
}

/// The size a grid measures within optional bounds; see [`spec_measure_grid`].
pub fn measure_grid(props: &GridProps, items: &Vec<GridItem>, max_w: Option<u16>, max_h: Option<u16>) -> (r: (u16, u16))
    ensures
        r.0 == spec_measure_grid(*props, items@, max_w, max_h).0,
        r.1 == spec_measure_grid(*props, items@, max_w, max_h).1,
{
    if items.len() == 0 {
        return chrome_min(props);
    }
    let g = resolve_grid(props, items, max_w, max_h);
    let inner_w_avail = inner_avail_exec(max_w, props.padding.horizontal(), props.border);
    let inner_h_avail = inner_avail_exec(max_h, props.padding.vertical(), props.border);
    let ip_w: u16 = match inner_w_avail {
        Some(w) => w,
        None => intrinsic_main_budget(&g.col_tracks, &g.col_mins, props.gap_x),
    };
    let ip_h: u16 = match inner_h_avail {
        Some(h) => h,
        None => intrinsic_main_budget(&g.row_tracks, &g.row_mins, props.gap_y),
    };
    let col_sizes = line_sizes(&g.col_tracks, &g.col_mins, props.gap_x, ip_w, max_w.is_some());
    let row_sizes = line_sizes(&g.row_tracks, &g.row_mins, props.gap_y, ip_h, max_h.is_some());
    let tw = lines_extent_exec(&col_sizes, props.gap_x);
    let th = lines_extent_exec(&row_sizes, props.gap_y);
    let mut w: u16 = ((tw % 65536) as u16).saturating_add(props.padding.horizontal());
    let mut h: u16 = ((th % 65536) as u16).saturating_add(props.padding.vertical());
    if props.border {
        w = w.saturating_add(2);
        h = h.saturating_add(2);
    } else {
        w = w.saturating_add(0);
        h = h.saturating_add(0);
    }
    if let Some(mw) = max_w {
        if w > mw {
            w = mw;
        }
    }
    if let Some(mh) = max_h {
        if h > mh {
            h = mh;
        }
    }
    (w, h)
}

/// Whether a requested length fills the cell.
pub open spec fn fills(l: Length) -> bool {
    l is Flex || l is Percent
}

/// Whether item `i` starts inside the grid's tracks when laid out in `bounds`.
pub open spec fn spec_item_in_tracks(props: GridProps, items: Seq<GridItem>, bounds: Rect, i: int) -> bool {
    let inner = bounds.spec_inner(props.border, props.padding);
    let (cells, ct, rt, cm, rm) = spec_resolved(props, items, Some(inner.w), Some(inner.h));
    let cols = line_sizes_u16(ct, cm, props.gap_x as int, inner.w as int, true);
    let rows = line_sizes_u16(rt, rm, props.gap_y as int, inner.h as int, true);
    cells[i].row < rows.len() && cells[i].col < cols.len()
}

/// The cell item `i` covers (its spans cut at the grid's last track) when a
/// grid is laid out in `bounds`.
pub open spec fn spec_item_cell(props: GridProps, items: Seq<GridItem>, bounds: Rect, i: int) -> Rect {
    let inner = bounds.spec_inner(props.border, props.padding);
    let (cells, ct, rt, cm, rm) = spec_resolved(props, items, Some(inner.w), Some(inner.h));
    let cols = line_sizes_u16(ct, cm, props.gap_x as int, inner.w as int, true);
    let rows = line_sizes_u16(rt, rm, props.gap_y as int, inner.h as int, true);
    let r = cells[i].row as int;
    let c = cells[i].col as int;
    let rs = at_least_one(items[i].span.row as int);
    let cs = at_least_one(items[i].span.col as int);
    let cs_eff = if cs < cols.len() - c { cs } else { cols.len() - c };
    let rs_eff = if rs < rows.len() - r { rs } else { rows.len() - r };
    Rect {
        x: sat_add_i16(inner.x as int, spec_track_start(cols, props.gap_x as int, c)) as i16,
        y: sat_add_i16(inner.y as int, spec_track_start(rows, props.gap_y as int, r)) as i16,
        w: spec_span_main_axis(cols, props.gap_x as int, c, cs_eff) as u16,
        h: spec_span_main_axis(rows, props.gap_y as int, r, rs_eff) as u16,
    }
}

/// The rect item `i` gets when a grid is laid out in `bounds`.
pub open spec fn spec_item_rect(props: GridProps, items: Seq<GridItem>, bounds: Rect, i: int) -> Rect {
    let inner = bounds.spec_inner(props.border, props.padding);
    if !spec_item_in_tracks(props, items, bounds, i) {
        Rect { x: inner.x, y: inner.y, w: 0, h: 0 }
    } else {
        let cell = spec_item_cell(props, items, bounds, i);
        let e = items[i].element;
        let child_w: u16 = if props.align == Align::Stretch || fills(e.width) {
            cell.w
        } else if e.min_w < cell.w {
            e.min_w
        } else {
            cell.w
        };
        let child_h: u16 = if fills(e.height) {
            cell.h
        } else if e.min_h < cell.h {
            e.min_h
        } else {
            cell.h
        };
        Rect {
            x: spec_align_x(cell, child_w as int, props.align) as i16,
            y: spec_justify_in_cell(cell, child_h as int, props.justify) as i16,
            w: child_w,
            h: child_h,
        }
    }
}

/// Lays out a grid's items in `bounds`: one rect per item, in order; see
/// [`spec_item_rect`].
pub fn layout_grid(props: &GridProps, items: &Vec<GridItem>, bounds: Rect) -> (r: Vec<Rect>)
    ensures
        r@.len() == items@.len(),
        forall|i: int| 0 <= i < items@.len() ==> r@[i] == #[trigger] spec_item_rect(*props, items@, bounds, i),
{
    if items.len() == 0 {
        return Vec::new();
    }
    let inner = bounds.inner(props.border, props.padding);
    let g = resolve_grid(props, items, Some(inner.w), Some(inner.h));
    let col_sizes = line_sizes(&g.col_tracks, &g.col_mins, props.gap_x, inner.w, true);
    let row_sizes = line_sizes(&g.row_tracks, &g.row_mins, props.gap_y, inner.h, true);
    let num_cols = col_sizes.len();
    let num_rows = row_sizes.len();
    let mut out: Vec<Rect> = Vec::new();
    let mut i: usize = 0;
    while i < items.len()
        invariant
            inner == bounds.spec_inner(props.border, props.padding),
            (g.placements@, g.col_tracks@, g.row_tracks@, g.col_mins@, g.row_mins@) == spec_resolved(
                *props,
                items@,
                Some(inner.w),
                Some(inner.h),
            ),
            col_sizes@ == line_sizes_u16(g.col_tracks@, g.col_mins@, props.gap_x as int, inner.w as int, true),
            row_sizes@ == line_sizes_u16(g.row_tracks@, g.row_mins@, props.gap_y as int, inner.h as int, true),
            num_cols == col_sizes@.len(),
            num_rows == row_sizes@.len(),
            g.placements@.len() == items@.len(),
            i <= items@.len(),
            out@.len() == i,
            forall|j: int| 0 <= j < i ==> out@[j] == #[trigger] spec_item_rect(*props, items@, bounds, j),
        decreases items@.len() - i,
    {
        let item = &items[i];
        let cell_pos = g.placements[i];
        let rs: usize = if item.span.row < 1 { 1 } else { item.span.row as usize };
        let cs: usize = if item.span.col < 1 { 1 } else { item.span.col as usize };
        let r = cell_pos.row as usize;
        let c = cell_pos.col as usize;
        if r >= num_rows || c >= num_cols {
            out.push(Rect { x: inner.x, y: inner.y, w: 0, h: 0 });
        } else {
            let cs_eff: usize = if cs < num_cols - c { cs } else { num_cols - c };
            let rs_eff: usize = if rs < num_rows - r { rs } else { num_rows - r };
            let x0 = i16_sat_add(inner.x, track_start(&col_sizes, props.gap_x, c));
            let y0 = i16_sat_add(inner.y, track_start(&row_sizes, props.gap_y, r));
            let cw = span_main_axis(&col_sizes, props.gap_x, c, cs_eff);
            let ch = span_main_axis(&row_sizes, props.gap_y, r, rs_eff);
            let cell = Rect { x: x0, y: y0, w: cw, h: ch };
            let (mw, mh) = item.element.min_size_constrained(Some(cw), Some(ch));
            let req_w = item.element.requested_main_axis(true);
            let req_h = item.element.requested_main_axis(false);
            let fills_w = matches!(req_w, Length::Flex(_) | Length::Percent(_));
            let fills_h = matches!(req_h, Length::Flex(_) | Length::Percent(_));
            let child_w: u16 = if props.align == Align::Stretch || fills_w {
                cw
            } else if mw < cw {
                mw
            } else {
                cw
            };
            let child_h: u16 = if fills_h {
                ch
            } else if mh < ch {
                mh
            } else {
                ch
            };
            let cx = align_x(cell, child_w, props.align);
            let cy = justify_in_cell(cell, child_h, props.justify);
            out.push(Rect { x: cx, y: cy, w: child_w, h: child_h });
        }
        i = i + 1;
    }
    out
}


/// The minimum size a grid asks of its parent: chrome alone along a flexible
/// axis (at least one cell on each axis when it has children and both axes
/// flex), its measured size along a fixed one.
pub open spec fn spec_grid_min_size(g: Grid) -> (int, int) {
    let props = g.props;
    let b: int = if props.border { 2 } else { 0 };
    let chrome_w = sat_add_u16(props.padding.spec_horizontal(), b);
    let chrome_h = sat_add_u16(props.padding.spec_vertical(), b);
    let flex_w = props.width is Flex;
    let flex_h = props.height is Flex;
    let measured = spec_measure_grid(props, g.items@, None, None);
    if flex_w && flex_h {
        if g.items@.len() > 0 {
            (at_least_one(chrome_w), at_least_one(chrome_h))
        } else {
            (chrome_w, chrome_h)
        }
    } else if flex_w {
        (chrome_w, measured.1)
    } else if flex_h {
        (measured.0, at_least_one(chrome_h))
    } else {
        measured
    }
}

impl Grid {
    /// The minimum size the grid asks of its parent; see [`spec_grid_min_size`].
    pub fn min_size(&self) -> (r: (u16, u16))
        ensures
            r.0 == spec_grid_min_size(*self).0,
            r.1 == spec_grid_min_size(*self).1,
    {
        let props = &self.props;
        let b: u16 = if props.border { 2 } else { 0 };
        let chrome_w = props.padding.horizontal().saturating_add(b);
        let chrome_h = props.padding.vertical().saturating_add(b);
        let flex_w = matches!(props.width, Length::Flex(_));
        let flex_h = matches!(props.height, Length::Flex(_));
        if flex_w && flex_h {
            if self.items.len() > 0 {
                (if chrome_w < 1 { 1 } else { chrome_w }, if chrome_h < 1 { 1 } else { chrome_h })
            } else {
                (chrome_w, chrome_h)
            }
        } else if flex_w {
            let (_, h) = measure_grid(props, &self.items, None, None);
            (chrome_w, h)
        } else if flex_h {
            let (w, _) = measure_grid(props, &self.items, None, None);
            (w, if chrome_h < 1 { 1 } else { chrome_h })
        } else {
            measure_grid(props, &self.items, None, None)
        }
    }
}

/// Each item sits inside the cell it covers, placed by the grid's
/// alignment across and its justification down the cell: `Start` (and,
/// down the cell, the distributing modes, which place a lone child at the
/// start) puts it at the cell's left or top edge, `End` against the right
/// or bottom edge, and `Center` in the middle, its leftover space split
/// with the odd column or row after it. (Edges are taken where they do not
/// run past the `i16` range.)
pub proof fn law_grid_item_in_cell(props: GridProps, items: Seq<GridItem>, bounds: Rect, i: int)
    requires
        0 <= i < items.len(),
        spec_item_in_tracks(props, items, bounds, i),
    ensures
        ({
            let cell = spec_item_cell(props, items, bounds, i);
            let r = spec_item_rect(props, items, bounds, i);
            let fits_x = cell.w <= i16::MAX && cell.x + cell.w <= i16::MAX;
            let fits_y = cell.h <= i16::MAX && cell.y + cell.h <= i16::MAX;
            let left = r.x - cell.x;
            let right = (cell.x + cell.w) - (r.x + r.w);
            let top = r.y - cell.y;
            let bottom = (cell.y + cell.h) - (r.y + r.h);
            &&& r.w <= cell.w && r.h <= cell.h
            &&& (props.align == Align::Start || props.align == Align::Stretch) ==> r.x == cell.x
            &&& props.align == Align::Stretch ==> r.w == cell.w
            &&& (props.align == Align::End && fits_x) ==> right == 0
            &&& (props.align == Align::Center && fits_x) ==> 0 <= left <= right <= left + 1
            &&& (props.justify != Justify::Center && props.justify != Justify::End) ==> r.y == cell.y
            &&& (props.justify == Justify::End && fits_y) ==> bottom == 0
            &&& (props.justify == Justify::Center && fits_y) ==> 0 <= top <= bottom <= top + 1
        }),
{
}

/// How a line is sized when the lines fit in the room left after the gaps
/// (their base sizes add up to at most that room): a fixed line of `px`
/// cells gets `px` (or its content minimum when larger); a percent line gets
/// that share (at most all) of the room, rounded down, or its minimum when
/// larger; a line sized by its content gets its minimum; only flexible
/// lines grow past that, and only when the spare room is shared out.
pub proof fn law_grid_line_sizes(tracks: Seq<Length>, mins: Seq<u16>, gap: int, available: int, distribute: bool, i: int)
    requires
        0 <= i < line_count(tracks.len() as int),
        0 <= available < u16::MAX,
        0 <= gap,
        ({
            let n = line_count(tracks.len() as int);
            let inner = sat_sub_u16(available, spec_gap_total(gap, n));
            base_sum(tracks, mins, inner, n) <= inner
        }),
    ensures
        ({
            let n = line_count(tracks.len() as int);
            let inner = sat_sub_u16(available, spec_gap_total(gap, n));
            let sz = spec_line_sizes(tracks, mins, gap, available, distribute)[i];
            let m = min_at(mins, i);
            &&& track_at(tracks, i) matches Length::Px(px) ==> sz == if px >= m { px as int } else { m }
            &&& track_at(tracks, i) matches Length::Percent(p) ==> {
                let share = inner * (if p > 100 { 100int } else { p as int }) / 100;
                sz == if share >= m { share } else { m }
            }
            &&& track_at(tracks, i) is Auto ==> sz == m
            &&& (track_at(tracks, i) is Flex && !distribute) ==> sz == m
            &&& track_at(tracks, i) is Flex ==> sz >= m
        }),
{
    let n = line_count(tracks.len() as int);
    let inner = sat_sub_u16(available, spec_gap_total(gap, n));
    assert(inner < u16::MAX);
}

} // verus!
