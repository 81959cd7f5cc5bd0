//! The geometry of a heatmap: the grid's shape, its labels and chrome,
//! without the values. The size the heatmap asks for, its cell width, and
//! the text of its column header and glyph cells.

use vstd::prelude::*;

use crate::style::{sat_add_u16, Padding, Span, Style};
use crate::width::{display_width, str_width};

verus! {

/// Rendering strategy for heatmap cells.
#[derive(Clone, Debug, PartialEq, Eq)]
pub enum HeatmapCellMode {
    /// Each cell is a coloured background block.
    Background,
    /// Each cell shows a centred glyph over the coloured background.
    Glyph(String),
    /// Only the glyph takes the mapped colour; the background is untouched.
    GlyphForeground(String),
}

/// Horizontal layout mode for the heatmap legend.
#[derive(Clone, Copy, Debug, PartialEq, Eq, Structural)]
pub enum HeatmapLegendWidth {
    /// The legend starts where the grid starts.
    Grid,
    /// The legend spans the full inner width, row labels included.
    Full,
}

/// What a heatmap's size depends on: how many cells each row has, the
/// labels, the cell mode and width, the gaps, the legend and the chrome.
#[derive(Debug)]
pub struct HeatmapGeometry {
    pub row_lengths: Vec<usize>,
    pub row_labels: Vec<String>,
    pub column_labels: Vec<String>,
    pub cell_mode: HeatmapCellMode,
    pub cell_width: u16,
    pub gap_x: u16,
    pub gap_y: u16,
    pub legend_spacing: u16,
    pub show_legend: bool,
    pub padding: Padding,
    pub border: bool,
}

/// `v` capped at `u16::MAX`.
pub open spec fn cap16(v: int) -> int {
    if v > 65535 {
        65535
    } else {
        v
    }
}

/// Saturating `u16` multiplication.
pub open spec fn sat_mul_u16(a: int, b: int) -> int {
    if a * b > 65535 {
        65535
    } else {
        a * b
    }
}

/// `v as u16` for a non-negative `v`: its low sixteen bits.
pub open spec fn low16(v: int) -> int {
    v % 65536
}

/// The width a cell needs: the configured width, at least one column, and
/// at least the glyph's width in glyph modes.
pub open spec fn spec_cell_width(g: HeatmapGeometry) -> int {
    let min_width = match g.cell_mode {
        HeatmapCellMode::Background => 1,
        HeatmapCellMode::Glyph(s) => cap16(if display_width(s@) < 1 { 1 } else { display_width(s@) as int }),
        HeatmapCellMode::GlyphForeground(s) => cap16(if display_width(s@) < 1 { 1 } else { display_width(s@) as int }),
    };
    if g.cell_width > min_width {
        g.cell_width as int
    } else {
        min_width
    }
}

fn sat_mul16(a: u16, b: u16) -> (r: u16)
    ensures
        r == sat_mul_u16(a as int, b as int),
{
    proof {
        assert(0 <= a * b <= 65535 * 65535) by (nonlinear_arith)
            requires
                0 <= a <= 65535,
                0 <= b <= 65535;
    }
    let p: u32 = a as u32 * b as u32;
    if p > 65535 {
        65535
    } else {
        p as u16
    }
}

fn glyph_min_width(s: &String) -> (r: u16)
    ensures
        r == cap16(if display_width(s@) < 1 { 1 } else { display_width(s@) as int }),
{
    let w = str_width(s.as_str());
    let w1: usize = if w < 1 { 1 } else { w };
    if w1 > 65535 {
        65535
    } else {
        w1 as u16
    }
}

impl HeatmapGeometry {
    /// The width each cell takes; see [`spec_cell_width`].
    pub fn effective_cell_width(&self) -> (r: u16)
        ensures
            r == spec_cell_width(*self),
    {
        let min_width: u16 = match &self.cell_mode {
            HeatmapCellMode::Background => 1,
            HeatmapCellMode::Glyph(s) => glyph_min_width(s),
            HeatmapCellMode::GlyphForeground(s) => glyph_min_width(s),
        };
        if self.cell_width > min_width {
            self.cell_width
        } else {
            min_width
        }
    }
}

/// The longest of the first `k` row lengths.
pub open spec fn max_len(v: Seq<usize>, k: int) -> int
    decreases k,
{
    if k <= 0 {
        0
    } else if v[k - 1] > max_len(v, k - 1) {
        v[k - 1] as int
    } else {
        max_len(v, k - 1)
    }
}

/// The widest of the first `k` labels, each capped at `u16::MAX`.
pub open spec fn max_label(labels: Seq<String>, k: int) -> int
    decreases k,
{
    if k <= 0 {
        0
    } else if cap16(display_width(labels[k - 1]@) as int) > max_label(labels, k - 1) {
        cap16(display_width(labels[k - 1]@) as int)
    } else {
        max_label(labels, k - 1)
    }
}

/// The size a heatmap asks for: nothing for an empty grid; else a row-label
/// gutter (the widest label and a space), the cells with their gaps, a
/// header row when there are column labels, a legend row (and its spacing)
/// when shown, then padding and border. Counts are taken as `u16` (their
/// low sixteen bits) and sums and products saturate.
pub open spec fn spec_measure(g: HeatmapGeometry) -> (int, int) {
    let rows = g.row_lengths@.len() as int;
    let cols = max_len(g.row_lengths@, rows);
    if rows == 0 || cols == 0 {
        (0, 0)
    } else {
        let cell_w = spec_cell_width(g);
        let gutter = if g.row_labels@.len() == 0 {
            0
        } else {
            sat_add_u16(max_label(g.row_labels@, g.row_labels@.len() as int), 1)
        };
        let header: int = if g.column_labels@.len() == 0 { 0 } else { 1 };
        let legend = if g.show_legend { sat_add_u16(1, g.legend_spacing as int) } else { 0 };
        let data_w = sat_add_u16(sat_mul_u16(low16(cols), cell_w), sat_mul_u16(low16(cols - 1), g.gap_x as int));
        let data_h = sat_add_u16(low16(rows), sat_mul_u16(low16(rows - 1), g.gap_y as int));
        let w = sat_add_u16(sat_add_u16(gutter, data_w), g.padding.spec_horizontal());
        let h = sat_add_u16(sat_add_u16(sat_add_u16(header, data_h), legend), g.padding.spec_vertical());
        if g.border {
            (sat_add_u16(w, 2), sat_add_u16(h, 2))
        } else {
            (w, h)
        }
    }
}

pub(crate) fn low_u16(v: usize) -> (r: u16)
    ensures
        r == low16(v as int),
{
    proof {
        assert((v as u16) == v % 65536) by (bit_vector);
    }
    #[verifier::truncate]
    (v as u16)
}

/// The size a heatmap asks for; see [`spec_measure`].
pub fn measure_heatmap(g: &HeatmapGeometry) -> (r: (u16, u16))
    ensures
        (r.0 as int, r.1 as int) == spec_measure(*g),
{
    let rows = g.row_lengths.len();
    let mut cols: usize = 0;
    let mut k: usize = 0;
    while k < rows
        invariant
            k <= rows,
            rows == g.row_lengths@.len(),
            cols == max_len(g.row_lengths@, k as int),
        decreases rows - k,
    {
        if g.row_lengths[k] > cols {
            cols = g.row_lengths[k];
        }
        k = k + 1;
    }
    if rows == 0 || cols == 0 {
        return (0, 0);
    }
    let cell_w = g.effective_cell_width();
    let gutter: u16 = if g.row_labels.len() == 0 {
        0
    } else {
        let mut widest: u16 = 0;
        let mut j: usize = 0;
        while j < g.row_labels.len()
            invariant
                j <= g.row_labels@.len(),
                widest == max_label(g.row_labels@, j as int),
            decreases g.row_labels@.len() - j,
        {
            let w = str_width(g.row_labels[j].as_str());
            let c: u16 = if w > 65535 { 65535 } else { w as u16 };
            if c > widest {
                widest = c;
            }
            j = j + 1;
        }
        widest.saturating_add(1)
    };
    let header: u16 = if g.column_labels.len() == 0 { 0 } else { 1 };
    let legend: u16 = if g.show_legend { 1u16.saturating_add(g.legend_spacing) } else { 0 };
    let data_w = sat_mul16(low_u16(cols), cell_w).saturating_add(sat_mul16(low_u16(cols - 1), g.gap_x));
    let data_h = low_u16(rows).saturating_add(sat_mul16(low_u16(rows - 1), g.gap_y));
    let mut w = gutter.saturating_add(data_w);
    let mut h = header.saturating_add(data_h).saturating_add(legend);
    w = w.saturating_add(g.padding.horizontal());
    h = h.saturating_add(g.padding.vertical());
    if g.border {
        w = w.saturating_add(2);
        h = h.saturating_add(2);
    }
    (w, h)
}

/// `n` spaces.
pub open spec fn spaces(n: int) -> Seq<char> {
    Seq::new(if n < 0 { 0 } else { n as nat }, |i: int| ' ')
}

pub(crate) fn push_spaces(out: &mut String, n: usize)
    ensures
        final(out)@ == old(out)@ + spaces(n as int),
{
    let mut k: usize = 0;
    while k < n
        invariant
            k <= n,
            out@ == old(out)@ + spaces(k as int),
        decreases n - k,
    {
        out.append(" ");
        proof {
            reveal_strlit(" ");
            assert(out@ =~= old(out)@ + spaces(k + 1));
        }
        k = k + 1;
    }
}

/// A glyph centred in `width` columns: the glyph (counted as at least one
/// column, at most `width`) with half the room on its left (rounded down) and
/// the rest on its right; empty for no width.
pub open spec fn spec_center_glyph(glyph: Seq<char>, width: int) -> Seq<char> {
    if width == 0 {
        Seq::empty()
    } else {
        let gw0 = if display_width(glyph) < 1 { 1 } else { display_width(glyph) as int };
        let gw = if gw0 < width { gw0 } else { width };
        let left = (width - gw) / 2;
        let right = width - (left + gw);
        spaces(left) + glyph + spaces(right)
    }
}

/// Centres a glyph in `width` columns; see [`spec_center_glyph`].
pub fn center_glyph(glyph: &str, width: u16) -> (r: String)
    ensures
        r@ == spec_center_glyph(glyph@, width as int),
{
    let width = width as usize;
    if width == 0 {
        return String::new();
    }
    let w = str_width(glyph);
    let gw0: usize = if w < 1 { 1 } else { w };
    let gw: usize = if gw0 < width { gw0 } else { width };
    let left = (width - gw) / 2;
    let right = width - (left + gw);
    let mut out = String::new();
    push_spaces(&mut out, left);
    out.append(glyph);
    push_spaces(&mut out, right);
    out
}

/// A cell's text: its first `width` characters, padded with spaces to
/// `width` characters.
pub open spec fn spec_fit_cell_text(text: Seq<char>, width: int) -> Seq<char> {
    let t = if text.len() > width { text.subrange(0, width) } else { text };
    t + spaces(width - t.len())
}

/// Fits a cell's text to its width; see [`spec_fit_cell_text`].
pub fn fit_cell_text(text: &str, width: u16) -> (r: String)
    ensures
        r@ == spec_fit_cell_text(text@, width as int),
{
    let n = text.unicode_len();
    let w = width as usize;
    let t = if n > w { text.substring_char(0, w) } else { text };
    let mut out = String::new();
    out.append(t);
    let len = if n > w { w } else { n };
    push_spaces(&mut out, w - len);
    proof {
        assert(out@ =~= spec_fit_cell_text(text@, width as int));
    }
    out
}

/// The column header: for each of `cols` columns its label fitted to the
/// cell width (an empty label past the last one), with a gap of spaces
/// between columns when there is a gap; none without labels.
pub open spec fn spec_header_line(labels: Seq<String>, cell_width: int, cols: int, gap_x: int) -> Option<
    Seq<Seq<char>>,
> {
    if labels.len() == 0 {
        None
    } else {
        Some(header_cells(labels, cell_width, cols, gap_x, cols))
    }
}

/// The header's span texts for the first `k` columns.
pub open spec fn header_cells(labels: Seq<String>, cell_width: int, cols: int, gap_x: int, k: int) -> Seq<Seq<char>>
    decreases k,
{
    if k <= 0 {
        Seq::empty()
    } else {
        let c = k - 1;
        let label = if c < labels.len() { labels[c]@ } else { Seq::empty() };
        let cell = header_cells(labels, cell_width, cols, gap_x, k - 1).push(spec_fit_cell_text(label, cell_width));
        if c + 1 < cols && gap_x > 0 {
            cell.push(spaces(gap_x))
        } else {
            cell
        }
    }
}

/// The column header's spans; see [`spec_header_line`]. Every span has the
/// empty style.
pub fn build_header_line(labels: &Vec<String>, cell_width: u16, cols: usize, gap_x: u16) -> (r: Option<Vec<Span>>)
    ensures
        match r {
            None => spec_header_line(labels@, cell_width as int, cols as int, gap_x as int) is None,
            Some(spans) => spec_header_line(labels@, cell_width as int, cols as int, gap_x as int) == Some(
                spans@.map_values(|s: Span| s.content@),
            ) && forall|i: int| 0 <= i < spans@.len() ==> (#[trigger] spans@[i]).style == Style::empty(),
        },
{
    if labels.len() == 0 {
        return None;
    }
    let mut spans: Vec<Span> = Vec::new();
    let mut c: usize = 0;
    while c < cols
        invariant
            c <= cols,
            labels@.len() > 0,
            spans@.map_values(|s: Span| s.content@) == header_cells(
                labels@,
                cell_width as int,
                cols as int,
                gap_x as int,
                c as int,
            ),
            forall|i: int| 0 <= i < spans@.len() ==> (#[trigger] spans@[i]).style == Style::empty(),
        decreases cols - c,
    {
        let ghost before = spans@;
        let text = if c < labels.len() { fit_cell_text(labels[c].as_str(), cell_width) } else { fit_cell_text("", cell_width) };
        proof {
            reveal_strlit("");
        }
        spans.push(Span { content: text, style: Style::new() });
        if c + 1 < cols && gap_x > 0 {
            let mut gap = String::new();
            push_spaces(&mut gap, gap_x as usize);
            spans.push(Span { content: gap, style: Style::new() });
        }
        proof {
            assert(spans@.map_values(|s: Span| s.content@) =~= header_cells(
                labels@,
                cell_width as int,
                cols as int,
                gap_x as int,
                c + 1,
            ));
        }
        c = c + 1;
    }
    Some(spans)
}

/// A glyph is centred in its cell: blanks on each side, the right side
/// taking the odd blank, filling the cell exactly when the glyph (at least
/// one column wide) fits; a glyph wider than the cell is left as it is.
pub proof fn law_center_glyph(glyph: Seq<char>, width: int)
    requires
        width >= 1,
    ensures
        ({
            let gw = if display_width(glyph) < 1 { 1 } else { display_width(glyph) as int };
            &&& gw <= width ==> exists|l: int, r: int|
                0 <= l <= r <= l + 1 && l + gw + r == width && spec_center_glyph(glyph, width) == #[trigger] spaces(l)
                    + glyph + #[trigger] spaces(r)
            &&& gw > width ==> spec_center_glyph(glyph, width) == glyph
        }),
{
    let gw = if display_width(glyph) < 1 { 1 } else { display_width(glyph) as int };
    if gw <= width {
        let l = (width - gw) / 2;
        let r = width - (l + gw);
        assert(0 <= l <= r <= l + 1 && l + gw + r == width);
        assert(spec_center_glyph(glyph, width) == spaces(l) + glyph + spaces(r));
        assert(exists|l2: int, r2: int|
            0 <= l2 <= r2 <= l2 + 1 && l2 + gw + r2 == width && spec_center_glyph(glyph, width) == #[trigger] spaces(l2)
                + glyph + #[trigger] spaces(r2));
    } else {
        assert(spaces(0) =~= Seq::<char>::empty());
        assert(spec_center_glyph(glyph, width) =~= glyph);
    }
}

/// A cell's text is cut or padded with blanks to exactly the cell's width,
/// keeping its first characters.
pub proof fn law_fit_cell_text(text: Seq<char>, width: int)
    requires
        width >= 0,
    ensures
        spec_fit_cell_text(text, width).len() == width,
        forall|i: int| 0 <= i < width ==> #[trigger] spec_fit_cell_text(text, width)[i] == if i < text.len() {
            text[i]
        } else {
            ' '
        },
{
}

/// How each part of a heatmap adds to its size (while sizes stay below
/// `u16::MAX`): a grid with no cells takes no room; a border adds two columns and
/// two rows; a legend adds a row and its spacing below; the legend and the
/// header change only the height. The cells are at least one column wide,
/// and at least as wide as the configured width.
pub proof fn law_heatmap_size(g: HeatmapGeometry)
    ensures
        (g.row_lengths@.len() == 0) ==> spec_measure(g) == (0int, 0int),
        ({
            let plain = HeatmapGeometry { border: false, show_legend: false, ..g };
            let (w, h) = spec_measure(plain);
            let legend = 1 + g.legend_spacing;
            let filled = g.row_lengths@.len() > 0 && max_len(g.row_lengths@, g.row_lengths@.len() as int) > 0;
            &&& (filled && w + 2 < u16::MAX && h + legend + 2 < u16::MAX) ==> {
                &&& spec_measure(HeatmapGeometry { border: true, show_legend: false, ..g }) == (w + 2, h + 2)
                &&& spec_measure(HeatmapGeometry { border: false, show_legend: true, ..g }) == (w, h + legend)
            }
            &&& !filled ==> spec_measure(g) == (0int, 0int)
        }),
        1 <= spec_cell_width(g),
        g.cell_width <= spec_cell_width(g),
{
}

} // verus!
