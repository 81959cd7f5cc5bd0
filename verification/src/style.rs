//! Geometry and style vocabulary shared by every widget.

use vstd::prelude::*;

verus! {

/// Saturating `u16` addition.
pub open spec fn sat_add_u16(a: int, b: int) -> int {
    if a + b > u16::MAX { u16::MAX as int } else { a + b }
}

/// Saturating `u16` subtraction.
pub open spec fn sat_sub_u16(a: int, b: int) -> int {
    if a - b < 0 { 0 } else { a - b }
}

/// Saturating `i16` addition.
pub open spec fn sat_add_i16(a: int, b: int) -> int {
    if a + b > i16::MAX { i16::MAX as int } else if a + b < i16::MIN { i16::MIN as int } else { a + b }
}

/// Saturating `i16` addition.
pub fn i16_sat_add(a: i16, b: i16) -> (r: i16)
    ensures
        r == sat_add_i16(a as int, b as int),
{
    let s: i32 = a as i32 + b as i32;
    if s > 32767 { 32767 } else if s < -32768 { -32768 } else { s as i16 }
}

/// Saturating `i16` subtraction.
pub fn i16_sat_sub(a: i16, b: i16) -> (r: i16)
    ensures
        r == sat_add_i16(a as int, -(b as int)),
{
    let s: i32 = a as i32 - b as i32;
    if s > 32767 { 32767 } else if s < -32768 { -32768 } else { s as i16 }
}

/// Saturating `i16 + u16`, landing in `i16`.
pub fn i16_sat_add_u16(a: i16, b: u16) -> (r: i16)
    ensures
        r == sat_add_i16(a as int, b as int),
{
    let s: i32 = a as i32 + b as i32;
    if s > 32767 { 32767 } else { s as i16 }
}

/// `u16` as `i16`, saturating at `i16::MAX`.
pub fn u16_to_i16_sat(v: u16) -> (r: i16)
    ensures
        r == (if v > i16::MAX { i16::MAX as int } else { v as int }),
{
    if v > 32767 { 32767 } else { v as i16 }
}

/// The `i16` a `u16` reinterprets as (two's complement).
pub open spec fn wrap_i16(v: int) -> int {
    if v > i16::MAX { v - 65536 } else { v }
}

/// `v as i16` for a `u16`.
pub fn u16_as_i16(v: u16) -> (r: i16)
    ensures
        r == wrap_i16(v as int),
{
    if v > 32767 { (v as i32 - 65536) as i16 } else { v as i16 }
}

/// A rectangle in terminal cells.
#[derive(Clone, Copy, Debug, PartialEq, Eq, Structural, Default)]
pub struct Rect {
    pub x: i16,
    pub y: i16,
    pub w: u16,
    pub h: u16,
}

/// Per-edge spacing in cells.
#[derive(Clone, Copy, Debug, PartialEq, Eq, Structural, Default)]
pub struct Padding {
    pub top: u16,
    pub right: u16,
    pub bottom: u16,
    pub left: u16,
}

impl Padding {
    /// Padding with every edge set to `v`.
    pub fn all(v: u16) -> (r: Self)
        ensures
            r.top == v && r.right == v && r.bottom == v && r.left == v,
    {
        Padding { top: v, right: v, bottom: v, left: v }
    }

    /// Vertical padding `v` on top and bottom, horizontal padding `h` left and right.
    pub fn symmetric(v: u16, h: u16) -> (r: Self)
        ensures
            r.top == v && r.bottom == v && r.left == h && r.right == h,
    {
        Padding { top: v, right: h, bottom: v, left: h }
    }

    /// Padding with each edge given separately.
    pub fn new(top: u16, right: u16, bottom: u16, left: u16) -> (r: Self)
        ensures
            r.top == top && r.right == right && r.bottom == bottom && r.left == left,
    {
        Padding { top, right, bottom, left }
    }

    pub open spec fn spec_horizontal(self) -> int {
        sat_add_u16(self.left as int, self.right as int)
    }

    pub open spec fn spec_vertical(self) -> int {
        sat_add_u16(self.top as int, self.bottom as int)
    }

    /// Total left + right padding, saturating at `u16::MAX`.
    pub fn horizontal(&self) -> (r: u16)
        ensures
            r == self.spec_horizontal(),
    {
        self.left.saturating_add(self.right)
    }

    /// Total top + bottom padding, saturating at `u16::MAX`.
    pub fn vertical(&self) -> (r: u16)
        ensures
            r == self.spec_vertical(),
    {
        self.top.saturating_add(self.bottom)
    }
}

impl Rect {
    pub open spec fn spec_inset(self, p: Padding) -> Rect {
        Rect {
            x: sat_add_i16(self.x as int, p.left as int) as i16,
            y: sat_add_i16(self.y as int, p.top as int) as i16,
            w: sat_sub_u16(self.w as int, p.spec_horizontal()) as u16,
            h: sat_sub_u16(self.h as int, p.spec_vertical()) as u16,
        }
    }

    /// Shrinks the rect by `p` on each edge, saturating.
    pub fn inset(self, p: Padding) -> (r: Rect)
        ensures
            r == self.spec_inset(p),
    {
        Rect {
            x: i16_sat_add_u16(self.x, p.left),
            y: i16_sat_add_u16(self.y, p.top),
            w: self.w.saturating_sub(p.horizontal()),
            h: self.h.saturating_sub(p.vertical()),
        }
    }

    pub open spec fn spec_inner(self, border: bool, p: Padding) -> Rect {
        let b = if border { self.spec_inset(Padding { top: 1, right: 1, bottom: 1, left: 1 }) } else { self };
        b.spec_inset(p)
    }

    /// The content area inside an optional one-cell border and `p`.
    pub fn inner(self, border: bool, p: Padding) -> (r: Rect)
        ensures
            r == self.spec_inner(border, p),
    {
        let b = if border { self.inset(Padding::all(1)) } else { self };
        b.inset(p)
    }
}

/// Requested size along one axis.
#[derive(Clone, Copy, Debug, PartialEq, Eq, Structural, Hash)]
pub enum Length {
    /// Size to content.
    Auto,
    /// Exactly this many cells.
    Px(u16),
    /// A percentage of the available space (clamped to 100).
    Percent(u16),
    /// Take a weighted share of leftover space.
    Flex(u16),
}

/// Cross-axis alignment.
#[derive(Clone, Copy, Debug, PartialEq, Eq, Structural, Hash)]
pub enum Align {
    Start,
    Center,
    End,
    Stretch,
}

/// Main-axis distribution.
#[derive(Clone, Copy, Debug, PartialEq, Eq, Structural, Hash)]
pub enum Justify {
    Start,
    Center,
    End,
    SpaceBetween,
    SpaceAround,
    SpaceEvenly,
}

/// Border line style.
#[derive(Clone, Copy, Debug, PartialEq, Eq, Structural, Hash)]
pub enum BorderStyle {
    Plain,
    Rounded,
    Double,
    Thick,
}

/// Terminal colour.
#[derive(Clone, Copy, Debug, PartialEq, Eq, Structural, Hash)]
pub enum Color {
    Reset,
    Black,
    Red,
    Green,
    Yellow,
    Blue,
    Magenta,
    Cyan,
    Gray,
    DarkGray,
    LightRed,
    LightGreen,
    LightYellow,
    LightBlue,
    LightMagenta,
    LightCyan,
    White,
    Rgb(u8, u8, u8),
    Indexed(u8),
}

/// Foreground, background and text modifiers of a span or a widget.
#[derive(Clone, Copy, Debug, PartialEq, Eq, Structural, Hash)]
pub struct Style {
    pub fg: Option<Color>,
    pub bg: Option<Color>,
    pub bold: bool,
    pub dim: bool,
    pub italic: bool,
    pub underlined: bool,
    pub reversed: bool,
}

impl Style {
    pub open spec fn empty() -> Style {
        Style { fg: None, bg: None, bold: false, dim: false, italic: false, underlined: false, reversed: false }
    }

    /// Whether no colour or modifier is set.
    pub fn is_empty(&self) -> (r: bool)
        ensures
            r == (*self == Style::empty()),
    {
        self.fg.is_none() && self.bg.is_none() && !self.bold && !self.dim && !self.italic && !self.underlined
            && !self.reversed
    }

    pub open spec fn fg_spec(self, color: Color) -> Style {
        Style { fg: Some(color), ..self }
    }

    /// A style that changes nothing.
    pub fn new() -> (r: Self)
        ensures
            r == Style::empty(),
    {
        Style { fg: None, bg: None, bold: false, dim: false, italic: false, underlined: false, reversed: false }
    }

    /// Sets the foreground colour.
    pub fn fg(self, color: Color) -> (r: Self)
        ensures
            r == (Style { fg: Some(color), ..self }),
    {
        Style { fg: Some(color), ..self }
    }

    /// Sets the background colour.
    pub fn bg(self, color: Color) -> (r: Self)
        ensures
            r == (Style { bg: Some(color), ..self }),
    {
        Style { bg: Some(color), ..self }
    }

    /// Adds bold.
    pub fn bold(self) -> (r: Self)
        ensures
            r == (Style { bold: true, ..self }),
    {
        Style { bold: true, ..self }
    }

    /// Adds dim.
    pub fn dim(self) -> (r: Self)
        ensures
            r == (Style { dim: true, ..self }),
    {
        Style { dim: true, ..self }
    }

    /// Adds italic.
    pub fn italic(self) -> (r: Self)
        ensures
            r == (Style { italic: true, ..self }),
    {
        Style { italic: true, ..self }
    }

    /// Adds underline.
    pub fn underlined(self) -> (r: Self)
        ensures
            r == (Style { underlined: true, ..self }),
    {
        Style { underlined: true, ..self }
    }

    /// Adds reverse video.
    pub fn reversed(self) -> (r: Self)
        ensures
            r == (Style { reversed: true, ..self }),
    {
        Style { reversed: true, ..self }
    }

    pub open spec fn spec_patch(self, other: Style) -> Style {
        Style {
            fg: if other.fg is Some { other.fg } else { self.fg },
            bg: if other.bg is Some { other.bg } else { self.bg },
            bold: self.bold || other.bold,
            dim: self.dim || other.dim,
            italic: self.italic || other.italic,
            underlined: self.underlined || other.underlined,
            reversed: self.reversed || other.reversed,
        }
    }

    /// Layers `other` over `self`: its colours win where set, its modifiers are added.
    pub fn patch(self, other: Style) -> (r: Self)
        ensures
            r == self.spec_patch(other),
    {
        Style {
            fg: if other.fg.is_some() { other.fg } else { self.fg },
            bg: if other.bg.is_some() { other.bg } else { self.bg },
            bold: self.bold || other.bold,
            dim: self.dim || other.dim,
            italic: self.italic || other.italic,
            underlined: self.underlined || other.underlined,
            reversed: self.reversed || other.reversed,
        }
    }
}

impl Default for Style {
    fn default() -> (r: Self)
        ensures
            r == Style::empty(),
    {
        Style::new()
    }
}

/// Patching with the empty style changes nothing, and patching is associative.
pub proof fn lemma_patch_laws(a: Style, b: Style, c: Style)
    ensures
        a.spec_patch(Style::empty()) == a,
        Style::empty().spec_patch(a) == a,
        a.spec_patch(b).spec_patch(c) == a.spec_patch(b.spec_patch(c)),
{
}

/// One edge of a box.
#[derive(Clone, Copy, Debug, PartialEq, Eq, Structural, Hash)]
pub enum Edge {
    Left,
    Right,
    Top,
    Bottom,
}

/// Which border edges a frame draws and reserves room for.
#[derive(Clone, Copy, Debug, PartialEq, Eq, Structural, Hash)]
pub enum BorderEdges {
    /// All four edges.
    All,
    /// The top and bottom rows with corner caps; no side columns.
    HorizontalCaps,
}

impl BorderEdges {
    /// Whether the left column is drawn.
    pub fn has_left(&self) -> (r: bool)
        ensures
            r == (*self == BorderEdges::All),
    {
        matches!(self, BorderEdges::All)
    }

    /// Whether the right column is drawn.
    pub fn has_right(&self) -> (r: bool)
        ensures
            r == (*self == BorderEdges::All),
    {
        matches!(self, BorderEdges::All)
    }

    /// Whether the top row is drawn.
    pub fn has_top(&self) -> (r: bool)
        ensures
            r,
    {
        true
    }

    /// Whether the bottom row is drawn.
    pub fn has_bottom(&self) -> (r: bool)
        ensures
            r,
    {
        true
    }

    pub open spec fn spec_padding(self) -> Padding {
        match self {
            BorderEdges::All => Padding { top: 1, right: 1, bottom: 1, left: 1 },
            BorderEdges::HorizontalCaps => Padding { top: 1, right: 0, bottom: 1, left: 0 },
        }
    }

    /// The room the drawn edges take.
    pub fn padding(&self) -> (r: Padding)
        ensures
            r == self.spec_padding(),
    {
        match self {
            BorderEdges::All => Padding::new(1, 1, 1, 1),
            BorderEdges::HorizontalCaps => Padding::new(1, 0, 1, 0),
        }
    }
}

/// A run of text drawn in one style.
#[derive(Clone, Debug, PartialEq, Eq)]
pub struct Span {
    pub content: String,
    pub style: Style,
}

impl Span {
    /// Unstyled text.
    pub fn new(content: &str) -> (r: Self)
        ensures
            r.content@ == content@,
            r.style == Style::empty(),
    {
        Span { content: String::from_str(content), style: Style::new() }
    }

    /// Sets the span's style.
    pub fn style(self, style: Style) -> (r: Self)
        ensures
            r.content == self.content,
            r.style == style,
    {
        Span { style, ..self }
    }
}

/// Spans as (text, style) pairs.
pub open spec fn spans_view(v: Seq<Span>) -> Seq<(Seq<char>, Style)> {
    Seq::new(v.len(), |i: int| (v[i].content@, v[i].style))
}

/// Insetting a rect keeps each padding's distance from its own edge: the
/// left padding from the left edge, the right padding from the right edge,
/// and so on, when the paddings fit in the rect; a border takes one more
/// cell from every edge. (Edges are taken where they do not run past the
/// `i16` range.)
pub proof fn law_inset_edges(r: Rect, border: bool, p: Padding)
    requires
        r.x + r.w <= i16::MAX,
        r.y + r.h <= i16::MAX,
    ensures
        ({
            let b: int = if border { 1 } else { 0 };
            let inner = r.spec_inner(border, p);
            &&& (2 * b + p.left + p.right <= r.w) ==> inner.x == r.x + b + p.left && inner.x + inner.w == r.x + r.w - b
                - p.right
            &&& (2 * b + p.top + p.bottom <= r.h) ==> inner.y == r.y + b + p.top && inner.y + inner.h == r.y + r.h - b
                - p.bottom
            &&& inner.w <= r.w && inner.h <= r.h
        }),
{
}

} // verus!
