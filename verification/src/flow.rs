//! `Flow`: a container that packs children left to right and wraps onto new
//! rows when the next child would overflow the available width.

use vstd::prelude::*;

use crate::element::Element;
use crate::style::{
    i16_sat_add, sat_add_i16, sat_add_u16, sat_sub_u16, u16_as_i16, wrap_i16, Align, BorderStyle, Justify, Length, Padding, Rect,
    Style,
};

verus! {

/// A horizontal wrapping container.
#[derive(Clone)]
pub struct Flow {
    pub children: Vec<Element>,
    pub gap: u16,
    /// Vertical gap between wrapped rows; `None` falls back to `gap`.
    pub row_gap: Option<u16>,
    pub align: Align,
    pub justify: Justify,
    pub padding: Padding,
    pub border: bool,
    pub border_style: BorderStyle,
    pub style: Style,
    pub width: Length,
    pub height: Length,
    /// Whether a parent stack may shrink the flow below its widest child.
    pub shrinkable: bool,
}

/// One wrapped row: its top, its width and height, and each child's index and rect.
#[derive(Clone, Debug, PartialEq, Eq)]
pub struct FlowRow {
    pub y: i16,
    pub width: u16,
    pub height: u16,
    pub items: Vec<(usize, Rect)>,
}

/// What packing needs besides the measured sizes.
#[derive(Clone, Copy, Debug)]
pub struct FlowPackParams {
    pub available_w: u16,
    pub gap: u16,
    pub row_gap: u16,
    pub align: Align,
    pub origin_x: i16,
    pub origin_y: i16,
}

/// Width a child gets: its measured width, capped at the row width.
pub open spec fn clamped_w(m: Seq<(usize, u16, u16)>, k: int, aw: int) -> int {
    if m[k].1 > aw { aw } else { m[k].1 as int }
}

/// Width of the row made of children `a..b`, gaps included, saturating.
pub open spec fn row_width(m: Seq<(usize, u16, u16)>, a: int, b: int, aw: int, gap: int) -> int
    decreases b - a,
{
    if b <= a + 1 {
        clamped_w(m, a, aw)
    } else {
        sat_add_u16(sat_add_u16(row_width(m, a, b - 1, aw, gap), gap), clamped_w(m, b - 1, aw))
    }
}

/// Height of the row made of children `a..b`: the tallest child.
pub open spec fn row_height(m: Seq<(usize, u16, u16)>, a: int, b: int) -> int
    decreases b - a,
{
    if b <= a + 1 {
        m[a].2 as int
    } else {
        let h = row_height(m, a, b - 1);
        if m[b - 1].2 > h { m[b - 1].2 as int } else { h }
    }
}

/// Where each row starts, packing children greedily: a child joins the current
/// row when the row, a gap and the child still fit.
pub open spec fn row_starts(m: Seq<(usize, u16, u16)>, n: int, aw: int, gap: int) -> Seq<int>
    decreases n,
{
    if n <= 0 {
        Seq::empty()
    } else if n == 1 {
        seq![0]
    } else {
        let s = row_starts(m, n - 1, aw, gap);
        let a = s.last();
        if sat_add_u16(sat_add_u16(row_width(m, a, n - 1, aw, gap), gap), clamped_w(m, n - 1, aw)) <= aw {
            s
        } else {
            s.push(n - 1)
        }
    }
}

/// End (exclusive) of row `r`.
pub open spec fn row_end(starts: Seq<int>, r: int, n: int) -> int {
    if r + 1 < starts.len() { starts[r + 1] } else { n }
}

/// Top of row `r`: rows stack with their heights and the row gap, saturating.
pub open spec fn row_top(m: Seq<(usize, u16, u16)>, starts: Seq<int>, r: int, n: int, origin_y: int, row_gap: int) -> int
    decreases r,
{
    if r <= 0 {
        origin_y
    } else {
        sat_add_i16(
            sat_add_i16(
                row_top(m, starts, r - 1, n, origin_y, row_gap),
                wrap_i16(row_height(m, starts[r - 1], row_end(starts, r - 1, n))),
            ),
            wrap_i16(row_gap),
        )
    }
}

/// Horizontal offset of child `k` from the row's left edge.
pub open spec fn x_cursor(m: Seq<(usize, u16, u16)>, a: int, k: int, aw: int, gap: int) -> int
    decreases k - a,
{
    if k <= a {
        0
    } else {
        sat_add_u16(sat_add_u16(x_cursor(m, a, k - 1, aw, gap), clamped_w(m, k - 1, aw)), gap)
    }
}

/// Offset of a child of height `child_h` within a row of height `row_h`.
pub open spec fn spec_cross_offset(align: Align, row_h: int, child_h: int) -> int {
    match align {
        Align::Start | Align::Stretch => 0,
        Align::Center => sat_sub_u16(row_h, child_h) / 2,
        Align::End => sat_sub_u16(row_h, child_h),
    }
}

/// Offset of a child within its row along the cross axis.
pub fn cross_offset(align: Align, row_h: u16, child_h: u16) -> (r: u16)
    ensures
        r == spec_cross_offset(align, row_h as int, child_h as int),
{
    match align {
        Align::Start | Align::Stretch => 0,
        Align::Center => row_h.saturating_sub(child_h) / 2,
        Align::End => row_h.saturating_sub(child_h),
    }
}

/// The rect a packed child gets.
pub open spec fn item_rect(m: Seq<(usize, u16, u16)>, a: int, b: int, k: int, p: FlowPackParams, row_y: int) -> Rect {
    Rect {
        x: sat_add_i16(p.origin_x as int, wrap_i16(x_cursor(m, a, k, p.available_w as int, p.gap as int))) as i16,
        y: sat_add_i16(row_y, wrap_i16(spec_cross_offset(p.align, row_height(m, a, b), m[k].2 as int))) as i16,
        w: clamped_w(m, k, p.available_w as int) as u16,
        h: m[k].2,
    }
}

/// Row `r` as packing lays it out.
pub open spec fn spec_row_ok(m: Seq<(usize, u16, u16)>, p: FlowPackParams, starts: Seq<int>, r: int, row: FlowRow) -> bool {
    let n = m.len() as int;
    let a = starts[r];
    let b = row_end(starts, r, n);
    let aw = p.available_w as int;
    let gap = p.gap as int;
    &&& row.y == row_top(m, starts, r, n, p.origin_y as int, p.row_gap as int)
    &&& row.width == row_width(m, a, b, aw, gap)
    &&& row.height == row_height(m, a, b)
    &&& row.items@.len() == b - a
    &&& forall|t: int|
        0 <= t < b - a ==> (#[trigger] row.items@[t]).0 == m[a + t].0 && row.items@[t].1 == item_rect(
            m,
            a,
            b,
            a + t,
            p,
            row.y as int,
        )
}

proof fn lemma_row_starts_shape(m: Seq<(usize, u16, u16)>, n: int, aw: int, gap: int)
    requires
        n >= 1,
    ensures
        row_starts(m, n, aw, gap).len() >= 1,
        row_starts(m, n, aw, gap)[0] == 0,
        row_starts(m, n, aw, gap).last() < n,
        forall|i: int, j: int|
            0 <= i < j < row_starts(m, n, aw, gap).len() ==> row_starts(m, n, aw, gap)[i] < row_starts(m, n, aw, gap)[j],
    decreases n,
{
    if n > 1 {
        lemma_row_starts_shape(m, n - 1, aw, gap);
    }
}

proof fn lemma_row_top_agree(
    m: Seq<(usize, u16, u16)>,
    s1: Seq<int>,
    s2: Seq<int>,
    r: int,
    n1: int,
    n2: int,
    oy: int,
    rg: int,
)
    requires
        0 <= r < s1.len(),
        r < s2.len(),
        forall|i: int| 0 <= i <= r ==> s1[i] == s2[i],
    ensures
        row_top(m, s1, r, n1, oy, rg) == row_top(m, s2, r, n2, oy, rg),
    decreases r,
{
    if r > 0 {
        lemma_row_top_agree(m, s1, s2, r - 1, n1, n2, oy, rg);
    }
}

proof fn lemma_rows_extend(m: Seq<(usize, u16, u16)>, p: FlowPackParams, s1: Seq<int>, s2: Seq<int>, rows: Seq<FlowRow>)
    requires
        s1.len() <= s2.len(),
        rows.len() == s1.len() - 1,
        forall|i: int| 0 <= i < s1.len() ==> s1[i] == s2[i],
        forall|i: int| 0 <= i < rows.len() ==> spec_row_ok(m, p, s1, i, #[trigger] rows[i]),
    ensures
        forall|i: int| 0 <= i < rows.len() ==> spec_row_ok(m, p, s2, i, #[trigger] rows[i]),
{
    assert forall|i: int| 0 <= i < rows.len() implies spec_row_ok(m, p, s2, i, #[trigger] rows[i]) by {
        lemma_row_top_agree(m, s1, s2, i, m.len() as int, m.len() as int, p.origin_y as int, p.row_gap as int);
    }
}

/// Lays out row `a..b` at height `row_y`.
fn build_row(
    measured: &[(usize, u16, u16)],
    a: usize,
    b: usize,
    p: &FlowPackParams,
    row_y: i16,
    row_w: u16,
    row_h: u16,
) -> (r: FlowRow)
    requires
        a < b <= measured@.len(),
        row_w == row_width(measured@, a as int, b as int, p.available_w as int, p.gap as int),
        row_h == row_height(measured@, a as int, b as int),
    ensures
        r.y == row_y,
        r.width == row_w,
        r.height == row_h,
        r.items@.len() == b - a,
        forall|t: int|
            0 <= t < b - a ==> (#[trigger] r.items@[t]).0 == measured@[a + t].0 && r.items@[t].1 == item_rect(
                measured@,
                a as int,
                b as int,
                a + t,
                *p,
                row_y as int,
            ),
{
    let mut items: Vec<(usize, Rect)> = Vec::new();
    let mut x_cur: u16 = 0;
    let mut k = a;
    while k < b
        invariant
            a <= k <= b <= measured@.len(),
            row_h == row_height(measured@, a as int, b as int),
            x_cur == x_cursor(measured@, a as int, k as int, p.available_w as int, p.gap as int),
            items@.len() == k - a,
            forall|t: int|
                0 <= t < k - a ==> (#[trigger] items@[t]).0 == measured@[a + t].0 && items@[t].1 == item_rect(
                    measured@,
                    a as int,
                    b as int,
                    a + t,
                    *p,
                    row_y as int,
                ),
        decreases b - k,
    {
        let (idx, mw, mh) = measured[k];
        let cw = if mw > p.available_w { p.available_w } else { mw };
        let x = i16_sat_add(p.origin_x, u16_as_i16(x_cur));
        let y = i16_sat_add(row_y, u16_as_i16(cross_offset(p.align, row_h, mh)));
        items.push((idx, Rect { x, y, w: cw, h: mh }));
        x_cur = x_cur.saturating_add(cw).saturating_add(p.gap);
        k = k + 1;
    }
    FlowRow { y: row_y, width: row_w, height: row_h, items }
}

proof fn lemma_rows_fit_upto(m: Seq<(usize, u16, u16)>, n: int, aw: int, gap: int)
    requires
        1 <= n <= m.len(),
        0 <= aw <= u16::MAX,
    ensures
        ({
            let starts = row_starts(m, n, aw, gap);
            &&& forall|r: int|
                0 <= r < starts.len() ==> #[trigger] row_width(m, starts[r], row_end(starts, r, n), aw, gap) <= aw
            &&& forall|r: int|
                0 <= r < starts.len() - 1 ==> sat_add_u16(
                    sat_add_u16(#[trigger] row_width(m, starts[r], starts[r + 1], aw, gap), gap),
                    clamped_w(m, starts[r + 1], aw),
                ) > aw
        }),
    decreases n,
{
    lemma_row_starts_shape(m, n, aw, gap);
    if n > 1 {
        lemma_rows_fit_upto(m, n - 1, aw, gap);
        lemma_row_starts_shape(m, n - 1, aw, gap);
        let s = row_starts(m, n - 1, aw, gap);
        let starts = row_starts(m, n, aw, gap);
        let a = s.last();
        if sat_add_u16(sat_add_u16(row_width(m, a, n - 1, aw, gap), gap), clamped_w(m, n - 1, aw)) <= aw {
            assert(starts == s);
            assert forall|r: int| 0 <= r < starts.len() implies #[trigger] row_width(
                m,
                starts[r],
                row_end(starts, r, n),
                aw,
                gap,
            ) <= aw by {
                if r == starts.len() - 1 {
                    assert(row_width(m, a, n, aw, gap) == sat_add_u16(
                        sat_add_u16(row_width(m, a, n - 1, aw, gap), gap),
                        clamped_w(m, n - 1, aw),
                    ));
                } else {
                    assert(row_end(starts, r, n) == row_end(s, r, n - 1));
                }
            }
        } else {
            assert(starts == s.push(n - 1));
            assert forall|r: int| 0 <= r < starts.len() implies #[trigger] row_width(
                m,
                starts[r],
                row_end(starts, r, n),
                aw,
                gap,
            ) <= aw by {
                if r == starts.len() - 1 {
                    assert(row_width(m, n - 1, n, aw, gap) == clamped_w(m, n - 1, aw));
                } else {
                    assert(starts[r] == s[r]);
                    assert(row_end(starts, r, n) == row_end(s, r, n - 1));
                }
            }
            assert forall|r: int| 0 <= r < starts.len() - 1 implies sat_add_u16(
                sat_add_u16(#[trigger] row_width(m, starts[r], starts[r + 1], aw, gap), gap),
                clamped_w(m, starts[r + 1], aw),
            ) > aw by {
                assert(starts[r] == s[r]);
                if r < s.len() - 1 {
                    assert(starts[r + 1] == s[r + 1]);
                }
            }
        }
    }
}

/// Rows never overflow: every packed row, gaps included, is at most the
/// available width (a child wider than the row is capped to it), and a row
/// ends only where the next child, after a gap, would not fit.
pub proof fn lemma_rows_fit(m: Seq<(usize, u16, u16)>, aw: u16, gap: u16)
    ensures
        ({
            let n = m.len() as int;
            let starts = row_starts(m, n, aw as int, gap as int);
            &&& forall|r: int|
                0 <= r < starts.len() ==> #[trigger] row_width(m, starts[r], row_end(starts, r, n), aw as int, gap as int)
                    <= aw
            &&& forall|r: int|
                0 <= r < starts.len() - 1 ==> sat_add_u16(
                    sat_add_u16(#[trigger] row_width(m, starts[r], starts[r + 1], aw as int, gap as int), gap as int),
                    clamped_w(m, starts[r + 1], aw as int),
                ) > aw
        }),
{
    if m.len() > 0 {
        lemma_rows_fit_upto(m, m.len() as int, aw as int, gap as int);
    }
}

/// Rows split the children into consecutive, non-empty runs in order: there
/// are rows exactly when there are children, the first starts at the first
/// child, each starts after the one before, and the last starts before the
/// end (so row `r` holds children `starts[r]..row_end(r)`, never none).
pub proof fn lemma_rows_partition(m: Seq<(usize, u16, u16)>, n: int, aw: int, gap: int)
    requires
        0 <= n,
    ensures
        ({
            let starts = row_starts(m, n, aw, gap);
            &&& (starts.len() == 0) == (n == 0)
            &&& n > 0 ==> starts[0] == 0 && starts.last() < n
            &&& forall|r: int| 0 <= r < starts.len() - 1 ==> #[trigger] starts[r] < starts[r + 1]
            &&& forall|r: int| 0 <= r < starts.len() ==> starts[r] < #[trigger] row_end(starts, r, n)
        }),
    decreases n,
{
    if n > 1 {
        lemma_rows_partition(m, n - 1, aw, gap);
        let s = row_starts(m, n - 1, aw, gap);
        let starts = row_starts(m, n, aw, gap);
        assert forall|r: int| 0 <= r < starts.len() - 1 implies #[trigger] starts[r] < starts[r + 1] by {
            if starts.len() > s.len() {
                if r < s.len() - 1 {
                    assert(starts[r] == s[r] && starts[r + 1] == s[r + 1]);
                }
            } else {
                assert(starts[r] == s[r] && starts[r + 1] == s[r + 1]);
            }
        }
        assert forall|r: int| 0 <= r < starts.len() implies starts[r] < #[trigger] row_end(starts, r, n) by {
            if r + 1 < starts.len() {
                assert(starts[r] < starts[r + 1]);
            }
        }
    }
}

proof fn lemma_row_height_max(m: Seq<(usize, u16, u16)>, a: int, b: int, k: int)
    requires
        a <= k < b,
    ensures
        m[k].2 <= row_height(m, a, b),
        row_height(m, a, b) <= u16::MAX,
    decreases b - a,
{
    if b > a + 1 {
        if k < b - 1 {
            lemma_row_height_max(m, a, b - 1, k);
        } else {
            lemma_row_height_max(m, a, b - 1, a);
        }
    }
}

/// Across each packed row its children line up by the alignment: `Start`
/// and `Stretch` put every child at the row's top, `End` puts every child's
/// bottom on the row's bottom, and `Center` splits a child's leftover height
/// with the odd row below it. A row is as tall as its tallest child. (Edges
/// are taken where they do not run past the `i16` range.)
pub proof fn law_flow_cross_alignment(m: Seq<(usize, u16, u16)>, p: FlowPackParams, r: int, row: FlowRow, t: int)
    requires
        ({
            let starts = row_starts(m, m.len() as int, p.available_w as int, p.gap as int);
            &&& 0 <= r < starts.len()
            &&& spec_row_ok(m, p, starts, r, row)
        }),
        0 <= t < row.items@.len(),
    ensures
        ({
            let rect = row.items@[t].1;
            let fits = row.height <= i16::MAX && row.y + row.height <= i16::MAX;
            let top = rect.y - row.y;
            let bottom = (row.y + row.height) - (rect.y + rect.h);
            &&& rect.h <= row.height
            &&& (p.align == Align::Start || p.align == Align::Stretch) ==> rect.y == row.y
            &&& (p.align == Align::End && fits) ==> bottom == 0
            &&& (p.align == Align::Center && fits) ==> 0 <= top <= bottom <= top + 1
        }),
{
    let n = m.len() as int;
    let starts = row_starts(m, n, p.available_w as int, p.gap as int);
    lemma_rows_partition(m, n, p.available_w as int, p.gap as int);
    let a = starts[r];
    let b = row_end(starts, r, n);
    assert(row.items@[t].1 == item_rect(m, a, b, a + t, p, row.y as int));
    lemma_row_height_max(m, a, b, a + t);
}

proof fn lemma_row_width_step(m: Seq<(usize, u16, u16)>, a: int, j: int, aw: int, gap: int)
    requires
        a < j,
        0 <= aw <= u16::MAX,
        0 <= gap,
    ensures
        0 <= row_width(m, a, j, aw, gap) <= u16::MAX,
        row_width(m, a, j, aw, gap) <= row_width(m, a, j + 1, aw, gap),
    decreases j - a,
{
    if j > a + 1 {
        lemma_row_width_step(m, a, j - 1, aw, gap);
    }
}

proof fn lemma_row_width_grows(m: Seq<(usize, u16, u16)>, a: int, j: int, b: int, aw: int, gap: int)
    requires
        a < j <= b,
        0 <= aw <= u16::MAX,
        0 <= gap,
    ensures
        0 <= row_width(m, a, j, aw, gap) <= row_width(m, a, b, aw, gap),
    decreases b - j,
{
    lemma_row_width_step(m, a, j, aw, gap);
    if j < b {
        lemma_row_width_grows(m, a, j + 1, b, aw, gap);
    }
}

proof fn lemma_cursor_meets_width(m: Seq<(usize, u16, u16)>, a: int, k: int, aw: int, gap: int)
    requires
        a <= k,
        0 <= aw <= u16::MAX,
        0 <= gap,
        row_width(m, a, k + 1, aw, gap) <= i16::MAX,
    ensures
        x_cursor(m, a, k, aw, gap) + clamped_w(m, k, aw) == row_width(m, a, k + 1, aw, gap),
        0 <= x_cursor(m, a, k, aw, gap),
    decreases k - a,
{
    if k > a {
        lemma_row_width_step(m, a, k, aw, gap);
        lemma_cursor_meets_width(m, a, k - 1, aw, gap);
    }
}

/// Along each packed row its children sit side by side from the row's left
/// edge: the first at the packing origin, each next one a gap after the end
/// of the one before, and the last ending where the row's width ends.
/// (Edges are taken where they do not run past the `i16` range.)
pub proof fn law_flow_main_positions(m: Seq<(usize, u16, u16)>, p: FlowPackParams, r: int, row: FlowRow)
    requires
        ({
            let starts = row_starts(m, m.len() as int, p.available_w as int, p.gap as int);
            &&& 0 <= r < starts.len()
            &&& spec_row_ok(m, p, starts, r, row)
        }),
        row.width <= i16::MAX,
        p.origin_x + row.width <= i16::MAX,
    ensures
        ({
            let it = row.items@;
            &&& it.len() >= 1
            &&& it[0].1.x == p.origin_x
            &&& forall|t: int| 0 <= t < it.len() - 1 ==> #[trigger] it[t + 1].1.x == it[t].1.x + it[t].1.w + p.gap
            &&& it.last().1.x + it.last().1.w == p.origin_x + row.width
        }),
{
    let n = m.len() as int;
    let aw = p.available_w as int;
    let gap = p.gap as int;
    let starts = row_starts(m, n, aw, gap);
    lemma_rows_partition(m, n, aw, gap);
    let a = starts[r];
    let b = row_end(starts, r, n);
    let it = row.items@;
    assert forall|t: int| 0 <= t < it.len() implies it[t].1.x == p.origin_x + x_cursor(m, a, a + t, aw, gap)
        && it[t].1.w == clamped_w(m, a + t, aw) && x_cursor(m, a, a + t, aw, gap) + clamped_w(m, a + t, aw)
        == row_width(m, a, a + t + 1, aw, gap) by {
        assert(it[t].1 == item_rect(m, a, b, a + t, p, row.y as int));
        assert(a + t + 1 <= b);
        lemma_row_width_grows(m, a, a + t + 1, b, aw, gap);
        assert(row_width(m, a, a + t + 1, aw, gap) <= i16::MAX);
        lemma_cursor_meets_width(m, a, a + t, aw, gap);
        let xc = x_cursor(m, a, a + t, aw, gap);
        let cw = clamped_w(m, a + t, aw);
        assert(0 <= cw <= aw);
        assert(0 <= xc <= i16::MAX);
        assert(wrap_i16(xc) == xc);
        assert(sat_add_i16(p.origin_x as int, xc) == p.origin_x + xc);
    }
    assert forall|t: int| 0 <= t < it.len() - 1 implies #[trigger] it[t + 1].1.x == it[t].1.x + it[t].1.w + p.gap by {
        lemma_row_width_grows(m, a, a + t + 2, b, aw, gap);
    }
}

/// Packs measured children `(index, width, height)` into rows.
pub fn pack_rows_from_sizes(measured: &[(usize, u16, u16)], params: FlowPackParams) -> (r: Vec<FlowRow>)
    ensures
        ({
            let m = measured@;
            let starts = row_starts(m, m.len() as int, params.available_w as int, params.gap as int);
            &&& r@.len() == starts.len()
            &&& forall|i: int| 0 <= i < r@.len() ==> spec_row_ok(m, params, starts, i, #[trigger] r@[i])
        }),
{
    let ghost m = measured@;
    let ghost aw = params.available_w as int;
    let ghost gap = params.gap as int;
    let n = measured.len();
    let mut rows: Vec<FlowRow> = Vec::new();
    if n == 0 {
        return rows;
    }
    let ghost mut starts: Seq<int> = seq![0];
    let mut a: usize = 0;
    let (_, w0, h0) = measured[0];
    let mut row_w: u16 = if w0 > params.available_w { params.available_w } else { w0 };
    let mut row_h: u16 = h0;
    let mut row_y: i16 = params.origin_y;
    let mut k: usize = 1;
    while k < n
        invariant
            1 <= k <= n,
            n == m.len(),
            m == measured@,
            aw == params.available_w,
            gap == params.gap,
            starts == row_starts(m, k as int, aw, gap),
            starts.len() >= 1,
            a == starts.last(),
            a < k,
            row_w == row_width(m, a as int, k as int, aw, gap),
            row_h == row_height(m, a as int, k as int),
            row_y == row_top(m, starts, starts.len() - 1, k as int, params.origin_y as int, params.row_gap as int),
            rows@.len() == starts.len() - 1,
            forall|i: int| 0 <= i < rows@.len() ==> spec_row_ok(m, params, starts, i, #[trigger] rows@[i]),
        decreases n - k,
    {
        let (_, mw, mh) = measured[k];
        let cw = if mw > params.available_w { params.available_w } else { mw };
        let next_w = row_w.saturating_add(params.gap).saturating_add(cw);
        proof {
            lemma_row_starts_shape(m, k as int, aw, gap);
        }
        if next_w <= params.available_w {
            row_w = next_w;
            row_h = if mh > row_h { mh } else { row_h };
            proof {
                lemma_row_top_agree(m, starts, starts, starts.len() - 1, k as int, k as int + 1, params.origin_y as int, params.row_gap as int);
            }
        } else {
            let row = build_row(measured, a, k, &params, row_y, row_w, row_h);
            let ghost old_starts = starts;
            let ghost old_rows = rows@;
            proof {
                starts = starts.push(k as int);
                lemma_row_top_agree(m, old_starts, starts, old_starts.len() - 1, k as int, m.len() as int, params.origin_y as int, params.row_gap as int);
                lemma_rows_extend(m, params, old_starts, starts, old_rows);
            }
            rows.push(row);
            proof {
                assert forall|i: int| 0 <= i < rows@.len() implies spec_row_ok(m, params, starts, i, #[trigger] rows@[i]) by {
                    if i < old_rows.len() {
                        assert(rows@[i] == old_rows[i]);
                    }
                }
                lemma_row_top_agree(m, old_starts, starts, old_starts.len() - 1, k as int, k as int + 1, params.origin_y as int, params.row_gap as int);
                assert(row_end(starts, starts.len() - 2, k as int + 1) == k);
            }
            row_y = i16_sat_add(i16_sat_add(row_y, u16_as_i16(row_h)), u16_as_i16(params.row_gap));
            a = k;
            row_w = cw;
            row_h = mh;
        }
        k = k + 1;
    }
    let row = build_row(measured, a, n, &params, row_y, row_w, row_h);
    let ghost old_rows = rows@;
    rows.push(row);
    proof {
        assert forall|i: int| 0 <= i < rows@.len() implies spec_row_ok(m, params, starts, i, #[trigger] rows@[i]) by {
            if i < old_rows.len() {
                assert(rows@[i] == old_rows[i]);
            }
        }
    }
    rows
}

/// Children as `(index, width, height)`, skipping portals.
pub open spec fn spec_measured(children: Seq<Element>) -> Seq<(usize, u16, u16)>
    decreases children.len(),
{
    if children.len() == 0 {
        Seq::empty()
    } else {
        let rest = spec_measured(children.drop_last());
        let c = children.last();
        if c.portal {
            rest
        } else {
            rest.push(((children.len() - 1) as usize, c.min_w, c.min_h))
        }
    }
}

/// Widest row.
pub open spec fn rows_max_width(m: Seq<(usize, u16, u16)>, starts: Seq<int>, r: int, aw: int, gap: int) -> int
    decreases r,
{
    if r <= 0 {
        0
    } else {
        let w = row_width(m, starts[r - 1], row_end(starts, r - 1, m.len() as int), aw, gap);
        let rest = rows_max_width(m, starts, r - 1, aw, gap);
        if w > rest { w } else { rest }
    }
}

/// Sum of row heights, saturating.
pub open spec fn rows_total_height(m: Seq<(usize, u16, u16)>, starts: Seq<int>, r: int) -> int
    decreases r,
{
    if r <= 0 {
        0
    } else {
        sat_add_u16(rows_total_height(m, starts, r - 1), row_height(m, starts[r - 1], row_end(starts, r - 1, m.len() as int)))
    }
}

/// Single-row natural size of the children: widths (of those wider than
/// zero) joined by gaps, and the tallest height.
pub open spec fn natural_size(children: Seq<Element>, gap: int) -> (int, int, int)
    decreases children.len(),
{
    if children.len() == 0 {
        (0, 0, 0)
    } else {
        let (w, h, visible) = natural_size(children.drop_last(), gap);
        let c = children.last();
        if c.portal {
            (w, h, visible)
        } else {
            let w1 = if c.min_w > 0 { sat_add_u16(if visible > 0 { sat_add_u16(w, gap) } else { w }, c.min_w as int) } else { w };
            let v1 = if c.min_w > 0 { sat_add_u16(visible, 1) } else { visible };
            (w1, if c.min_h > h { c.min_h as int } else { h }, v1)
        }
    }
}

impl Flow {
    pub open spec fn spec_chrome(self) -> (int, int) {
        let b: int = if self.border { 2 } else { 0 };
        (self.padding.spec_horizontal() + b, self.padding.spec_vertical() + b)
    }

    pub open spec fn spec_row_gap(self) -> u16 {
        match self.row_gap {
            Some(g) => g,
            None => self.gap,
        }
    }

    /// An empty flow: no gaps, start-aligned, full width, auto height.
    pub fn new() -> (r: Self)
        ensures
            r.children@.len() == 0,
            r.gap == 0,
            r.row_gap is None,
            r.align == Align::Start,
            r.justify == Justify::Start,
            r.padding == (Padding { top: 0, right: 0, bottom: 0, left: 0 }),
            !r.border,
            r.border_style == BorderStyle::Plain,
            r.style == Style::empty(),
            r.width == Length::Flex(1),
            r.height == Length::Auto,
            !r.shrinkable,
    {
        Flow {
            children: Vec::new(),
            gap: 0,
            row_gap: None,
            align: Align::Start,
            justify: Justify::Start,
            padding: Padding::all(0),
            border: false,
            border_style: BorderStyle::Plain,
            style: Style::new(),
            width: Length::Flex(1),
            height: Length::Auto,
            shrinkable: false,
        }
    }

    /// Appends a child.
    pub fn child(self, child: Element) -> (r: Self)
        ensures
            r.children@ == self.children@.push(child),
            r == (Flow { children: r.children, ..self }),
    {
        let mut f = self;
        f.children.push(child);
        f
    }

    /// Replaces all children.
    pub fn children(self, children: Vec<Element>) -> (r: Self)
        ensures
            r == (Flow { children, ..self }),
    {
        Flow { children, ..self }
    }

    /// Sets the gap between items (and between rows unless `row_gap` is set).
    pub fn gap(self, gap: u16) -> (r: Self)
        ensures
            r == (Flow { gap, ..self }),
    {
        Flow { gap, ..self }
    }

    /// Sets the vertical gap between wrapped rows.
    pub fn row_gap(self, row_gap: u16) -> (r: Self)
        ensures
            r == (Flow { row_gap: Some(row_gap), ..self }),
    {
        Flow { row_gap: Some(row_gap), ..self }
    }

    /// Lets a parent shrink the flow below its widest child.
    pub fn shrinkable(self, shrinkable: bool) -> (r: Self)
        ensures
            r == (Flow { shrinkable, ..self }),
    {
        Flow { shrinkable, ..self }
    }

    /// Sets cross-axis alignment within each row.
    pub fn align(self, align: Align) -> (r: Self)
        ensures
            r == (Flow { align, ..self }),
    {
        Flow { align, ..self }
    }

    /// Sets main-axis distribution within each row.
    pub fn justify(self, justify: Justify) -> (r: Self)
        ensures
            r == (Flow { justify, ..self }),
    {
        Flow { justify, ..self }
    }

    /// Sets the padding.
    pub fn padding(self, padding: Padding) -> (r: Self)
        ensures
            r == (Flow { padding, ..self }),
    {
        Flow { padding, ..self }
    }

    /// Draws a border.
    pub fn border(self, border: bool) -> (r: Self)
        ensures
            r == (Flow { border, ..self }),
    {
        Flow { border, ..self }
    }

    /// Sets the border style.
    pub fn border_style(self, border_style: BorderStyle) -> (r: Self)
        ensures
            r == (Flow { border_style, ..self }),
    {
        Flow { border_style, ..self }
    }

    /// Sets the base style.
    pub fn style(self, style: Style) -> (r: Self)
        ensures
            r == (Flow { style, ..self }),
    {
        Flow { style, ..self }
    }

    /// Sets the requested width.
    pub fn width(self, width: Length) -> (r: Self)
        ensures
            r == (Flow { width, ..self }),
    {
        Flow { width, ..self }
    }

    /// Sets the requested height.
    pub fn height(self, height: Length) -> (r: Self)
        ensures
            r == (Flow { height, ..self }),
    {
        Flow { height, ..self }
    }
}

/// Border and padding size of a flow.
pub fn flow_chrome(flow: &Flow) -> (r: (u16, u16))
    requires
        flow.spec_chrome().0 <= u16::MAX,
        flow.spec_chrome().1 <= u16::MAX,
    ensures
        r.0 == flow.spec_chrome().0 && r.1 == flow.spec_chrome().1,
{
    let b: u16 = if flow.border { 2 } else { 0 };
    (flow.padding.horizontal() + b, flow.padding.vertical() + b)
}

fn measured_children(flow: &Flow) -> (r: Vec<(usize, u16, u16)>)
    ensures
        r@ == spec_measured(flow.children@),
{
    let mut out: Vec<(usize, u16, u16)> = Vec::new();
    let mut i: usize = 0;
    while i < flow.children.len()
        invariant
            0 <= i <= flow.children@.len(),
            out@ == spec_measured(flow.children@.subrange(0, i as int)),
        decreases flow.children@.len() - i,
    {
        let c = &flow.children[i];
        assert(flow.children@.subrange(0, i + 1 as int).drop_last() =~= flow.children@.subrange(0, i as int));
        if !c.portal {
            let (w, h) = c.min_size_constrained(None, None);
            out.push((i, w, h));
        }
        i = i + 1;
    }
    assert(flow.children@.subrange(0, i as int) =~= flow.children@);
    out
}

/// Packs the flow's children inside `bounds` (after border and padding).
pub fn pack_rows(flow: &Flow, bounds: Rect) -> (r: Vec<FlowRow>)
    ensures
        ({
            let m = spec_measured(flow.children@);
            let inner = bounds.spec_inner(flow.border, flow.padding);
            let p = FlowPackParams {
                available_w: inner.w,
                gap: flow.gap,
                row_gap: flow.spec_row_gap(),
                align: flow.align,
                origin_x: inner.x,
                origin_y: inner.y,
            };
            let starts = row_starts(m, m.len() as int, p.available_w as int, p.gap as int);
            &&& r@.len() == starts.len()
            &&& forall|i: int| 0 <= i < r@.len() ==> spec_row_ok(m, p, starts, i, #[trigger] r@[i])
        }),
{
    let inner = bounds.inner(flow.border, flow.padding);
    let measured = measured_children(flow);
    let row_gap = match flow.row_gap {
        Some(g) => g,
        None => flow.gap,
    };
    pack_rows_from_sizes(
        measured.as_slice(),
        FlowPackParams {
            available_w: inner.w,
            gap: flow.gap,
            row_gap,
            align: flow.align,
            origin_x: inner.x,
            origin_y: inner.y,
        },
    )
}

/// `a * b` saturating at `u16::MAX`.
pub fn u16_sat_mul(a: u16, b: u16) -> (r: u16)
    ensures
        r == (if a * b > u16::MAX { u16::MAX as int } else { a * b }),
{
    assert((a as u32) * (b as u32) <= 65535 * 65535) by (nonlinear_arith)
        requires a <= 65535, b <= 65535;
    let p: u32 = a as u32 * b as u32;
    if p > 65535 { 65535 } else { p as u16 }
}

/// The flow's size: with no width limit, all children on one row; otherwise
/// the packed rows, each limit including the flow's border and padding.
pub fn measure_flow(flow: &Flow, max_w: Option<u16>, max_h: Option<u16>) -> (r: (u16, u16))
    requires
        flow.spec_chrome().0 <= u16::MAX,
        flow.spec_chrome().1 <= u16::MAX,
        max_w matches Some(mw) ==> ({
            let m = spec_measured(flow.children@);
            let inner = (Rect { x: 0, y: 0, w: sat_sub_u16(mw as int, flow.spec_chrome().0) as u16, h: 0 }).spec_inner(
                flow.border,
                flow.padding,
            );
            let nr = row_starts(m, m.len() as int, inner.w as int, flow.gap as int).len() as int;
            nr > 1 ==> nr % 65536 != 0
        }),
    ensures
        ({
            let (cw, ch) = flow.spec_chrome();
            match max_w {
                None => {
                    let (w, h, _) = natural_size(flow.children@, flow.gap as int);
                    r.0 == sat_add_u16(w, cw) && r.1 == sat_add_u16(h, ch)
                },
                Some(mw) => {
                    let m = spec_measured(flow.children@);
                    let inner = (Rect { x: 0, y: 0, w: sat_sub_u16(mw as int, cw) as u16, h: 0 }).spec_inner(
                        flow.border,
                        flow.padding,
                    );
                    let starts = row_starts(m, m.len() as int, inner.w as int, flow.gap as int);
                    let nr = starts.len() as int;
                    let gaps = if nr > 1 {
                        let t = nr % 65536 - 1;
                        if flow.spec_row_gap() * t > u16::MAX { u16::MAX as int } else { flow.spec_row_gap() * t }
                    } else {
                        0
                    };
                    &&& r.0 == sat_add_u16(rows_max_width(m, starts, nr, inner.w as int, flow.gap as int), cw)
                    &&& r.1 == sat_add_u16(sat_add_u16(rows_total_height(m, starts, nr), gaps), ch)
                },
            }
        }),
{
    let (chrome_w, chrome_h) = flow_chrome(flow);
    match max_w {
        None => {
            let mut w: u16 = 0;
            let mut h: u16 = 0;
            let mut visible: u16 = 0;
            let mut i: usize = 0;
            while i < flow.children.len()
                invariant
                    0 <= i <= flow.children@.len(),
                    (w as int, h as int, visible as int) == natural_size(flow.children@.subrange(0, i as int), flow.gap as int),
                decreases flow.children@.len() - i,
            {
                let c = &flow.children[i];
                assert(flow.children@.subrange(0, i + 1 as int).drop_last() =~= flow.children@.subrange(0, i as int));
                if !c.portal {
                    let (cw, ch) = c.min_size_constrained(None, max_h);
                    if cw > 0 {
                        if visible > 0 {
                            w = w.saturating_add(flow.gap);
                        }
                        w = w.saturating_add(cw);
                        visible = visible.saturating_add(1);
                    }
                    h = if ch > h { ch } else { h };
                }
                i = i + 1;
            }
            assert(flow.children@.subrange(0, i as int) =~= flow.children@);
            (w.saturating_add(chrome_w), h.saturating_add(chrome_h))
        },
        Some(mw) => {
            let inner_w = mw.saturating_sub(chrome_w);
            let rows = pack_rows(flow, Rect { x: 0, y: 0, w: inner_w, h: 0 });
            let ghost m = spec_measured(flow.children@);
            let ghost inner = (Rect { x: 0, y: 0, w: inner_w, h: 0 }).spec_inner(flow.border, flow.padding);
            let ghost starts = row_starts(m, m.len() as int, inner.w as int, flow.gap as int);
            proof {
                lemma_measured_len(flow.children@);
                lemma_starts_len(m, m.len() as int, inner.w as int, flow.gap as int);
            }
            let mut measured_w: u16 = 0;
            let mut measured_h: u16 = 0;
            let mut i: usize = 0;
            while i < rows.len()
                invariant
                    0 <= i <= rows@.len(),
                    rows@.len() == starts.len(),
                    forall|j: int|
                        0 <= j < rows@.len() ==> spec_row_ok(
                            m,
                            FlowPackParams {
                                available_w: inner.w,
                                gap: flow.gap,
                                row_gap: flow.spec_row_gap(),
                                align: flow.align,
                                origin_x: inner.x,
                                origin_y: inner.y,
                            },
                            starts,
                            j,
                            #[trigger] rows@[j],
                        ),
                    measured_w == rows_max_width(m, starts, i as int, inner.w as int, flow.gap as int),
                    measured_h == rows_total_height(m, starts, i as int),
                decreases rows@.len() - i,
            {
                let row = &rows[i];
                measured_w = if row.width > measured_w { row.width } else { measured_w };
                measured_h = measured_h.saturating_add(row.height);
                i = i + 1;
            }
            if rows.len() > 1 {
                let row_gap = match flow.row_gap {
                    Some(g) => g,
                    None => flow.gap,
                };
                let count = crate::heatmap::low_u16(rows.len());
                measured_h = measured_h.saturating_add(u16_sat_mul(row_gap, count - 1));
            }
            (measured_w.saturating_add(chrome_w), measured_h.saturating_add(chrome_h))
        },
    }
}

proof fn lemma_measured_len(children: Seq<Element>)
    ensures
        spec_measured(children).len() <= children.len(),
    decreases children.len(),
{
    if children.len() > 0 {
        lemma_measured_len(children.drop_last());
    }
}

proof fn lemma_starts_len(m: Seq<(usize, u16, u16)>, n: int, aw: int, gap: int)
    requires
        n >= 0,
    ensures
        row_starts(m, n, aw, gap).len() <= n,
    decreases n,
{
    if n > 1 {
        lemma_starts_len(m, n - 1, aw, gap);
    }
}

} // verus!
