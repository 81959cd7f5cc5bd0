//! The frame container: a bordered panel with labels, tabs, decorations and
//! one child, and the geometry every other part of it shares.

use vstd::prelude::*;

use crate::element::Element;
use crate::file_tree::StyleSlot;
use crate::style::{
    sat_add_i16, sat_add_u16, sat_sub_u16, wrap_i16, i16_sat_add, i16_sat_sub, u16_as_i16, Align, BorderEdges,
    BorderStyle, Edge, Length, Padding, Rect, Style,
};
use crate::width::{display_width, str_width};

verus! {

/// A label drawn in one of a frame's border positions.
#[derive(Clone, Debug, PartialEq, Eq)]
pub struct FrameLabel {
    /// The label's text.
    pub content: String,
    /// Style layered on the group style.
    pub style: Option<Style>,
    /// Style layered on the group focus style while focused.
    pub focused_style: Option<Style>,
}

impl FrameLabel {
    /// A label with the given text.
    pub fn new(content: &str) -> (r: Self)
        ensures
            r.content@ == content@,
            r.style is None,
            r.focused_style is None,
    {
        FrameLabel { content: String::from_str(content), style: None, focused_style: None }
    }

    /// Sets the normal style.
    pub fn style(self, style: Style) -> (r: Self)
        ensures
            r == (FrameLabel { style: Some(style), ..self }),
    {
        FrameLabel { style: Some(style), ..self }
    }

    /// Sets the style while the frame is focused.
    pub fn focused_style(self, style: Style) -> (r: Self)
        ensures
            r == (FrameLabel { focused_style: Some(style), ..self }),
    {
        FrameLabel { focused_style: Some(style), ..self }
    }
}

/// Positional labels in one border row of a frame.
#[derive(Clone, Debug, PartialEq, Eq)]
pub struct BorderLabels {
    pub left: Option<FrameLabel>,
    pub center: Option<FrameLabel>,
    pub right: Option<FrameLabel>,
    /// Default style of the group's labels.
    pub style: Style,
    /// Style layered on while the frame is focused.
    pub focused_style: Option<Style>,
    /// Horizontal padding around each label.
    pub padding: Padding,
}

/// The width a label takes in its row: its text and the group's padding.
pub open spec fn label_width(label: Option<FrameLabel>, padding: Padding) -> int {
    match label {
        Some(l) => display_width(l.content@) + padding.left + padding.right,
        None => 0,
    }
}

/// Whether a label is present with some text.
pub open spec fn label_present(label: Option<FrameLabel>) -> bool {
    label matches Some(l) && l.content@.len() > 0
}

impl BorderLabels {
    /// An empty group.
    pub fn new() -> (r: Self)
        ensures
            r.left is None && r.center is None && r.right is None,
            r.style == Style::empty(),
            r.focused_style is None,
            r.padding == (Padding { top: 0, right: 0, bottom: 0, left: 0 }),
    {
        BorderLabels {
            left: None,
            center: None,
            right: None,
            style: Style::new(),
            focused_style: None,
            padding: Padding::new(0, 0, 0, 0),
        }
    }

    /// Sets the left label.
    pub fn left(self, label: FrameLabel) -> (r: Self)
        ensures
            r == (BorderLabels { left: Some(label), ..self }),
    {
        BorderLabels { left: Some(label), ..self }
    }

    /// Sets the centred label.
    pub fn center(self, label: FrameLabel) -> (r: Self)
        ensures
            r == (BorderLabels { center: Some(label), ..self }),
    {
        BorderLabels { center: Some(label), ..self }
    }

    /// Sets the right label.
    pub fn right(self, label: FrameLabel) -> (r: Self)
        ensures
            r == (BorderLabels { right: Some(label), ..self }),
    {
        BorderLabels { right: Some(label), ..self }
    }

    /// Sets the group's default style.
    pub fn style(self, style: Style) -> (r: Self)
        ensures
            r == (BorderLabels { style, ..self }),
    {
        BorderLabels { style, ..self }
    }

    /// Sets the group's style while the frame is focused.
    pub fn focused_style(self, style: Style) -> (r: Self)
        ensures
            r == (BorderLabels { focused_style: Some(style), ..self }),
    {
        BorderLabels { focused_style: Some(style), ..self }
    }

    /// Sets the padding around each label.
    pub fn padding(self, padding: Padding) -> (r: Self)
        ensures
            r == (BorderLabels { padding, ..self }),
    {
        BorderLabels { padding, ..self }
    }

    /// Whether any label of the group has text.
    pub fn has_labels(&self) -> (r: bool)
        ensures
            r == (label_present(self.left) || label_present(self.center) || label_present(self.right)),
    {
        let present = |l: &Option<FrameLabel>| -> (b: bool)
            ensures
                b == label_present(*l),
            {
                match l {
                    Some(label) => label.content.as_str().unicode_len() > 0,
                    None => false,
                }
            };
        present(&self.left) || present(&self.center) || present(&self.right)
    }

    /// The width the group's labels take: each label's display width and
    /// padding, saturating.
    pub fn min_width(&self) -> (r: usize)
        ensures
            r == (if label_width(self.left, self.padding) + label_width(self.center, self.padding) + label_width(
                self.right,
                self.padding,
            ) > usize::MAX {
                usize::MAX as int
            } else {
                label_width(self.left, self.padding) + label_width(self.center, self.padding) + label_width(
                    self.right,
                    self.padding,
                )
            }),
    {
        let a = label_cells(&self.left, self.padding);
        let b = label_cells(&self.center, self.padding);
        let c = label_cells(&self.right, self.padding);
        a.saturating_add(b).saturating_add(c)
    }
}

fn label_cells(label: &Option<FrameLabel>, padding: Padding) -> (r: usize)
    ensures
        r == (if label_width(*label, padding) > usize::MAX { usize::MAX as int } else { label_width(*label, padding) }),
{
    match label {
        Some(l) => str_width(l.content.as_str()).saturating_add(padding.left as usize).saturating_add(
            padding.right as usize,
        ),
        None => 0,
    }
}

/// What happens where frame border symbols overlap.
#[derive(Clone, Copy, Debug, PartialEq, Eq, Structural, Hash)]
pub enum BorderMergeMode {
    /// The last one drawn wins.
    Replace,
    /// Merge only where an exact box-drawing symbol exists.
    Exact,
    /// Merge using the closest symbol.
    Fuzzy,
}

/// The border line a frame's tab strip is drawn on.
#[derive(Clone, Copy, Debug, PartialEq, Eq, Structural, Hash)]
pub enum TabEdge {
    Top,
    Bottom,
}

/// Where an edge decoration is drawn.
#[derive(Clone, Copy, Debug, PartialEq, Eq, Structural, Hash)]
pub enum DecorationPlacement {
    /// On the border line (or the outer edge without a border).
    Border,
    /// Inside the content area's edge.
    Inside,
    /// Outside the frame, growing it.
    Outside,
}

/// Glyphs of edge decorations.
#[derive(Clone, Copy, Debug, PartialEq, Eq, Structural, Hash)]
pub enum DecorationGlyph {
    AutoThin,
    AutoHeavy,
    AutoDouble,
    AutoBlock,
    HorizontalThin,
    HorizontalHeavy,
    HorizontalDouble,
    HorizontalBlock,
    VerticalThin,
    VerticalHeavy,
    VerticalDouble,
    HalfBlock,
    HalfBlockTop,
    HalfBlockBottom,
    HalfBlockLeft,
    HalfBlockRight,
    CapTop,
    CapBottom,
    CapLeft,
    CapRight,
    CapTopHeavy,
    CapBottomHeavy,
    CapLeftHeavy,
    CapRightHeavy,
    Custom(char),
}

/// Whether an edge is vertical (left or right).
pub open spec fn is_vertical(edge: Edge) -> bool {
    edge == Edge::Left || edge == Edge::Right
}

impl DecorationGlyph {
    /// The character drawn for this glyph on `edge`.
    pub open spec fn spec_resolve(self, edge: Edge) -> char {
        match self {
            DecorationGlyph::AutoThin => if is_vertical(edge) { '\u{2502}' } else { '\u{2500}' },
            DecorationGlyph::AutoHeavy => if is_vertical(edge) { '\u{2503}' } else { '\u{2501}' },
            DecorationGlyph::AutoDouble => if is_vertical(edge) { '\u{2551}' } else { '\u{2550}' },
            DecorationGlyph::AutoBlock => if is_vertical(edge) { '\u{2503}' } else { '\u{25ac}' },
            DecorationGlyph::HorizontalThin => '\u{2500}',
            DecorationGlyph::HorizontalHeavy => '\u{2501}',
            DecorationGlyph::HorizontalDouble => '\u{2550}',
            DecorationGlyph::HorizontalBlock => '\u{25ac}',
            DecorationGlyph::VerticalThin => '\u{2502}',
            DecorationGlyph::VerticalHeavy => '\u{2503}',
            DecorationGlyph::VerticalDouble => '\u{2551}',
            DecorationGlyph::HalfBlock => match edge {
                Edge::Top => '\u{2584}',
                Edge::Bottom => '\u{2580}',
                Edge::Left => '\u{258c}',
                Edge::Right => '\u{2590}',
            },
            DecorationGlyph::HalfBlockTop => '\u{2584}',
            DecorationGlyph::HalfBlockBottom => '\u{2580}',
            DecorationGlyph::HalfBlockLeft => '\u{258c}',
            DecorationGlyph::HalfBlockRight => '\u{2590}',
            DecorationGlyph::CapTop => '\u{257b}',
            DecorationGlyph::CapBottom => '\u{2579}',
            DecorationGlyph::CapLeft => '\u{257a}',
            DecorationGlyph::CapRight => '\u{2578}',
            DecorationGlyph::CapTopHeavy => '\u{257f}',
            DecorationGlyph::CapBottomHeavy => '\u{257d}',
            DecorationGlyph::CapLeftHeavy => '\u{257e}',
            DecorationGlyph::CapRightHeavy => '\u{257c}',
            DecorationGlyph::Custom(c) => c,
        }
    }

    /// The character drawn for this glyph on `edge`.
    pub fn resolve(self, edge: Edge) -> (r: char)
        ensures
            r == self.spec_resolve(edge),
    {
        let vertical = matches!(edge, Edge::Left | Edge::Right);
        match self {
            DecorationGlyph::AutoThin => if vertical { '\u{2502}' } else { '\u{2500}' },
            DecorationGlyph::AutoHeavy => if vertical { '\u{2503}' } else { '\u{2501}' },
            DecorationGlyph::AutoDouble => if vertical { '\u{2551}' } else { '\u{2550}' },
            DecorationGlyph::AutoBlock => if vertical { '\u{2503}' } else { '\u{25ac}' },
            DecorationGlyph::HorizontalThin => '\u{2500}',
            DecorationGlyph::HorizontalHeavy => '\u{2501}',
            DecorationGlyph::HorizontalDouble => '\u{2550}',
            DecorationGlyph::HorizontalBlock => '\u{25ac}',
            DecorationGlyph::VerticalThin => '\u{2502}',
            DecorationGlyph::VerticalHeavy => '\u{2503}',
            DecorationGlyph::VerticalDouble => '\u{2551}',
            DecorationGlyph::HalfBlock => match edge {
                Edge::Top => '\u{2584}',
                Edge::Bottom => '\u{2580}',
                Edge::Left => '\u{258c}',
                Edge::Right => '\u{2590}',
            },
            DecorationGlyph::HalfBlockTop => '\u{2584}',
            DecorationGlyph::HalfBlockBottom => '\u{2580}',
            DecorationGlyph::HalfBlockLeft => '\u{258c}',
            DecorationGlyph::HalfBlockRight => '\u{2590}',
            DecorationGlyph::CapTop => '\u{257b}',
            DecorationGlyph::CapBottom => '\u{2579}',
            DecorationGlyph::CapLeft => '\u{257a}',
            DecorationGlyph::CapRight => '\u{2578}',
            DecorationGlyph::CapTopHeavy => '\u{257f}',
            DecorationGlyph::CapBottomHeavy => '\u{257d}',
            DecorationGlyph::CapLeftHeavy => '\u{257e}',
            DecorationGlyph::CapRightHeavy => '\u{257c}',
            DecorationGlyph::Custom(c) => c,
        }
    }
}

/// An edge decoration.
#[derive(Clone, Copy, Debug, PartialEq, Eq, Structural, Hash)]
pub struct EdgeDecoration {
    pub edge: Edge,
    pub placement: DecorationPlacement,
    /// Thickness in cells (at least one).
    pub thickness: u16,
    pub glyph: DecorationGlyph,
    pub style: Style,
    pub focus_style: Option<Style>,
    pub hover_style: Option<Style>,
    pub cap_start: Option<DecorationGlyph>,
    pub cap_end: Option<DecorationGlyph>,
}

impl EdgeDecoration {
    /// A one-cell heavy decoration on `edge`, drawn on the border.
    pub fn new(edge: Edge) -> (r: Self)
        ensures
            r == (EdgeDecoration {
                edge,
                placement: DecorationPlacement::Border,
                thickness: 1,
                glyph: DecorationGlyph::AutoHeavy,
                style: Style::empty(),
                focus_style: None,
                hover_style: None,
                cap_start: None,
                cap_end: None,
            }),
    {
        EdgeDecoration {
            edge,
            placement: DecorationPlacement::Border,
            thickness: 1,
            glyph: DecorationGlyph::AutoHeavy,
            style: Style::new(),
            focus_style: None,
            hover_style: None,
            cap_start: None,
            cap_end: None,
        }
    }

    /// Sets the glyph.
    pub fn glyph(self, glyph: DecorationGlyph) -> (r: Self)
        ensures
            r == (EdgeDecoration { glyph, ..self }),
    {
        EdgeDecoration { glyph, ..self }
    }

    /// Sets the thickness (at least one).
    pub fn thickness(self, thickness: u16) -> (r: Self)
        ensures
            r == (EdgeDecoration { thickness: if thickness < 1 { 1u16 } else { thickness }, ..self }),
    {
        EdgeDecoration { thickness: if thickness < 1 { 1 } else { thickness }, ..self }
    }

    /// Sets the base style.
    pub fn style(self, style: Style) -> (r: Self)
        ensures
            r == (EdgeDecoration { style, ..self }),
    {
        EdgeDecoration { style, ..self }
    }

    /// Sets the style while focused.
    pub fn focus_style(self, style: Style) -> (r: Self)
        ensures
            r == (EdgeDecoration { focus_style: Some(style), ..self }),
    {
        EdgeDecoration { focus_style: Some(style), ..self }
    }

    /// Sets the style while hovered.
    pub fn hover_style(self, style: Style) -> (r: Self)
        ensures
            r == (EdgeDecoration { hover_style: Some(style), ..self }),
    {
        EdgeDecoration { hover_style: Some(style), ..self }
    }

    /// Sets the start (top or left) cap glyph.
    pub fn cap_start(self, glyph: DecorationGlyph) -> (r: Self)
        ensures
            r == (EdgeDecoration { cap_start: Some(glyph), ..self }),
    {
        EdgeDecoration { cap_start: Some(glyph), ..self }
    }

    /// Sets the end (bottom or right) cap glyph.
    pub fn cap_end(self, glyph: DecorationGlyph) -> (r: Self)
        ensures
            r == (EdgeDecoration { cap_end: Some(glyph), ..self }),
    {
        EdgeDecoration { cap_end: Some(glyph), ..self }
    }

    /// Sets the placement.
    pub fn placement(self, placement: DecorationPlacement) -> (r: Self)
        ensures
            r == (EdgeDecoration { placement, ..self }),
    {
        EdgeDecoration { placement, ..self }
    }
}

/// The padding of tabs and the separators between them, in cells.
#[derive(Clone, Copy, Debug, PartialEq, Eq, Structural, Hash)]
pub struct TabVariant {
    pub active_left: u16,
    pub active_right: u16,
    pub inactive_left: u16,
    pub inactive_right: u16,
    pub separator: u16,
}

/// How focus moves through a subtree.
#[derive(Clone, Copy, Debug, PartialEq, Eq, Structural, Hash)]
pub enum FocusScope {
    /// Focus moves freely in and out.
    Unscoped,
    /// Focus stays inside the subtree.
    Contain,
}

/// Rarely used focus and hover style overrides of a frame.
#[derive(Clone, Copy, Debug, PartialEq, Eq, Structural, Hash)]
pub struct FrameStyleOverrides {
    pub inner_style: Option<Style>,
    pub focus_title_style: Option<Style>,
    pub focus_style: Option<StyleSlot>,
    pub hover_style: Option<StyleSlot>,
    pub focus_border_style: Option<BorderStyle>,
    pub focus_status_style: Option<Style>,
    pub focus_active_tab_style: Option<Style>,
    pub focus_inactive_tab_style: Option<Style>,
}

impl FrameStyleOverrides {
    pub open spec fn none() -> FrameStyleOverrides {
        FrameStyleOverrides {
            inner_style: None,
            focus_title_style: None,
            focus_style: None,
            hover_style: None,
            focus_border_style: None,
            focus_status_style: None,
            focus_active_tab_style: None,
            focus_inactive_tab_style: None,
        }
    }

    /// No overrides.
    pub fn new() -> (r: Self)
        ensures
            r == FrameStyleOverrides::none(),
    {
        FrameStyleOverrides {
            inner_style: None,
            focus_title_style: None,
            focus_style: None,
            hover_style: None,
            focus_border_style: None,
            focus_status_style: None,
            focus_active_tab_style: None,
            focus_inactive_tab_style: None,
        }
    }
}

/// A frame's configuration.
#[derive(Clone, Debug)]
pub struct FrameNode {
    pub title: Option<String>,
    pub title_prefix: Option<String>,
    pub title_suffix: Option<String>,
    pub title_alignment: Align,
    pub tab_titles: Vec<String>,
    pub active_tab: usize,
    pub active_tab_style: Style,
    pub inactive_tab_style: Style,
    pub tab_variant: TabVariant,
    pub tab_edge: TabEdge,
    /// Whether a tab-change handler is attached.
    pub on_tab_change: bool,
    pub status: Option<String>,
    pub status_center: Option<String>,
    pub status_right: Option<String>,
    pub padding: Padding,
    pub decorations: Vec<EdgeDecoration>,
    pub border: bool,
    pub border_style: BorderStyle,
    pub border_edges: BorderEdges,
    pub border_merge_mode: BorderMergeMode,
    pub join_frame: bool,
    pub style: Style,
    pub title_style: Style,
    pub status_style: Style,
    pub width: Length,
    pub height: Length,
    pub unfocused_height: Option<Length>,
    pub focus_min_height: Option<u16>,
    pub compact: bool,
    pub collapsible: bool,
    pub header: BorderLabels,
    pub footer: BorderLabels,
    pub has_header: bool,
    pub focusable: bool,
    pub focus_scope: FocusScope,
    pub child_align: Align,
    pub style_overrides: Option<FrameStyleOverrides>,
}

/// The style a slot stands for on its own: the empty style when inherited.
pub open spec fn slot_style(slot: StyleSlot) -> Style {
    match slot {
        StyleSlot::Inherit => Style::empty(),
        StyleSlot::Replace(s) => s,
        StyleSlot::Extend(s) => s,
    }
}

/// The decorations' thickness on each edge among those placed `placement`,
/// over the first `k`, saturating.
pub open spec fn placed_padding(decos: Seq<EdgeDecoration>, placement: DecorationPlacement, k: int) -> Padding
    decreases k,
{
    if k <= 0 {
        Padding { top: 0, right: 0, bottom: 0, left: 0 }
    } else {
        let p = placed_padding(decos, placement, k - 1);
        let d = decos[k - 1];
        let t = d.thickness as int;
        if d.placement != placement {
            p
        } else {
            match d.edge {
                Edge::Left => Padding { left: sat_add_u16(p.left as int, t) as u16, ..p },
                Edge::Right => Padding { right: sat_add_u16(p.right as int, t) as u16, ..p },
                Edge::Top => Padding { top: sat_add_u16(p.top as int, t) as u16, ..p },
                Edge::Bottom => Padding { bottom: sat_add_u16(p.bottom as int, t) as u16, ..p },
            }
        }
    }
}

fn placed_padding_exec(decos: &Vec<EdgeDecoration>, placement: DecorationPlacement) -> (r: Padding)
    ensures
        r == placed_padding(decos@, placement, decos@.len() as int),
{
    let mut pad = Padding::new(0, 0, 0, 0);
    let mut i: usize = 0;
    while i < decos.len()
        invariant
            i <= decos@.len(),
            pad == placed_padding(decos@, placement, i as int),
        decreases decos@.len() - i,
    {
        let d = decos[i];
        if d.placement == placement {
            let t = d.thickness;
            match d.edge {
                Edge::Left => pad.left = pad.left.saturating_add(t),
                Edge::Right => pad.right = pad.right.saturating_add(t),
                Edge::Top => pad.top = pad.top.saturating_add(t),
                Edge::Bottom => pad.bottom = pad.bottom.saturating_add(t),
            }
        }
        i = i + 1;
    }
    pad
}

impl FrameNode {
    pub open spec fn spec_border_padding(self) -> Padding {
        if self.border {
            self.border_edges.spec_padding()
        } else {
            Padding { top: 0, right: 0, bottom: 0, left: 0 }
        }
    }

    pub open spec fn spec_overrides(self) -> FrameStyleOverrides {
        match self.style_overrides {
            Some(o) => o,
            None => FrameStyleOverrides::none(),
        }
    }

    pub open spec fn spec_outside_padding(self) -> Padding {
        placed_padding(self.decorations@, DecorationPlacement::Outside, self.decorations@.len() as int)
    }

    pub open spec fn spec_border_deco_inset(self) -> Padding {
        if self.border {
            Padding { top: 0, right: 0, bottom: 0, left: 0 }
        } else {
            placed_padding(self.decorations@, DecorationPlacement::Border, self.decorations@.len() as int)
        }
    }

    pub open spec fn spec_has_focus_chrome(self) -> bool {
        self.focus_min_height is Some || (self.style_overrides matches Some(o) && (
        (o.focus_style matches Some(s) && !(s is Inherit)) || o.focus_border_style is Some
            || (o.focus_title_style matches Some(s) && s != Style::empty()) || (o.focus_status_style matches Some(s)
            && s != Style::empty()) || (o.focus_active_tab_style matches Some(s) && s != Style::empty())
            || (o.focus_inactive_tab_style matches Some(s) && s != Style::empty())))
    }

    /// Whether the border is drawn.
    pub fn has_border(&self) -> (r: bool)
        ensures
            r == self.border,
    {
        self.border
    }

    /// The room the drawn border edges take.
    pub fn border_padding(&self) -> (r: Padding)
        ensures
            r == self.spec_border_padding(),
    {
        if self.has_border() {
            self.border_edges.padding()
        } else {
            Padding::new(0, 0, 0, 0)
        }
    }

    /// The inner content style override.
    pub fn inner_style(&self) -> (r: Option<Style>)
        ensures
            r == (match self.style_overrides {
                Some(o) => o.inner_style,
                None => None,
            }),
    {
        match &self.style_overrides {
            Some(o) => o.inner_style,
            None => None,
        }
    }

    /// The focused title style override.
    pub fn focus_title_style(&self) -> (r: Option<Style>)
        ensures
            r == (match self.style_overrides {
                Some(o) => o.focus_title_style,
                None => None,
            }),
    {
        match &self.style_overrides {
            Some(o) => o.focus_title_style,
            None => None,
        }
    }

    /// The focused frame style override (the empty style when inherited).
    pub fn focus_style(&self) -> (r: Option<Style>)
        ensures
            r == (match self.style_overrides {
                Some(o) => match o.focus_style {
                    Some(slot) => Some(slot_style(slot)),
                    None => None,
                },
                None => None,
            }),
    {
        match &self.style_overrides {
            Some(o) => match o.focus_style {
                Some(StyleSlot::Inherit) => Some(Style::new()),
                Some(StyleSlot::Replace(s)) => Some(s),
                Some(StyleSlot::Extend(s)) => Some(s),
                None => None,
            },
            None => None,
        }
    }

    /// The hover style override (the empty style when inherited).
    pub fn hover_style(&self) -> (r: Option<Style>)
        ensures
            r == (match self.style_overrides {
                Some(o) => match o.hover_style {
                    Some(slot) => Some(slot_style(slot)),
                    None => None,
                },
                None => None,
            }),
    {
        match &self.style_overrides {
            Some(o) => match o.hover_style {
                Some(StyleSlot::Inherit) => Some(Style::new()),
                Some(StyleSlot::Replace(s)) => Some(s),
                Some(StyleSlot::Extend(s)) => Some(s),
                None => None,
            },
            None => None,
        }
    }

    /// The focused border style override.
    pub fn focus_border_style(&self) -> (r: Option<BorderStyle>)
        ensures
            r == (match self.style_overrides {
                Some(o) => o.focus_border_style,
                None => None,
            }),
    {
        match &self.style_overrides {
            Some(o) => o.focus_border_style,
            None => None,
        }
    }

    /// The focused status style override.
    pub fn focus_status_style(&self) -> (r: Option<Style>)
        ensures
            r == (match self.style_overrides {
                Some(o) => o.focus_status_style,
                None => None,
            }),
    {
        match &self.style_overrides {
            Some(o) => o.focus_status_style,
            None => None,
        }
    }

    /// The focused active-tab style override.
    pub fn focus_active_tab_style(&self) -> (r: Option<Style>)
        ensures
            r == (match self.style_overrides {
                Some(o) => o.focus_active_tab_style,
                None => None,
            }),
    {
        match &self.style_overrides {
            Some(o) => o.focus_active_tab_style,
            None => None,
        }
    }

    /// The focused inactive-tab style override.
    pub fn focus_inactive_tab_style(&self) -> (r: Option<Style>)
        ensures
            r == (match self.style_overrides {
                Some(o) => o.focus_inactive_tab_style,
                None => None,
            }),
    {
        match &self.style_overrides {
            Some(o) => o.focus_inactive_tab_style,
            None => None,
        }
    }

    /// Whether focus changes how the frame looks: a focused minimum height or
    /// a focus style that is not inherited or empty.
    fn has_focus_chrome(&self) -> (r: bool)
        ensures
            r == self.spec_has_focus_chrome(),
    {
        if self.focus_min_height.is_some() {
            return true;
        }
        match &self.style_overrides {
            Some(o) => {
                let focus = match o.focus_style {
                    Some(StyleSlot::Inherit) => false,
                    Some(_) => true,
                    None => false,
                };
                let non_empty = |s: Option<Style>| -> (b: bool)
                    ensures
                        b == (s matches Some(x) && x != Style::empty()),
                    {
                        match s {
                            Some(x) => !x.is_empty(),
                            None => false,
                        }
                    };
                focus || o.focus_border_style.is_some() || non_empty(o.focus_title_style) || non_empty(
                    o.focus_status_style,
                ) || non_empty(o.focus_active_tab_style) || non_empty(o.focus_inactive_tab_style)
            },
            None => false,
        }
    }

    /// The overrides, created empty if there were none.
    pub fn overrides_mut(&mut self) -> (r: &mut FrameStyleOverrides)
        ensures
            *r == old(self).spec_overrides(),
            *final(self) == (FrameNode { style_overrides: Some(*final(r)), ..*old(self) }),
    {
        if self.style_overrides.is_none() {
            self.style_overrides = Some(FrameStyleOverrides::new());
        }
        match &mut self.style_overrides {
            Some(o) => o,
            None => vstd::pervasive::unreached(),
        }
    }

    /// The padding outside decorations add around the frame.
    pub fn decoration_outside_padding(&self) -> (r: Padding)
        ensures
            r == self.spec_outside_padding(),
    {
        placed_padding_exec(&self.decorations, DecorationPlacement::Outside)
    }

    /// The room border-placed decorations take inside a borderless frame
    /// (none when the frame has a border).
    pub fn decoration_border_content_inset(&self) -> (r: Padding)
        ensures
            r == self.spec_border_deco_inset(),
    {
        if self.has_border() {
            return Padding::new(0, 0, 0, 0);
        }
        placed_padding_exec(&self.decorations, DecorationPlacement::Border)
    }

    /// Whether the frame takes focus.
    pub fn is_focusable(&self) -> (r: bool)
        ensures
            r == self.focusable,
    {
        self.focusable
    }

    /// How focus moves through the frame's subtree.
    pub fn focus_scope(&self) -> (r: FocusScope)
        ensures
            r == self.focus_scope,
    {
        self.focus_scope
    }

    /// Whether clicks do something: a tab-change handler is attached.
    pub fn has_on_click(&self) -> (r: bool)
        ensures
            r == self.on_tab_change,
    {
        self.on_tab_change
    }

    /// Whether hovering changes anything: clicks do something, or a
    /// non-empty hover style is set.
    pub fn is_hoverable(&self) -> (r: bool)
        ensures
            r == (self.on_tab_change || (self.style_overrides matches Some(o) && o.hover_style matches Some(slot)
                && slot_style(slot) != Style::empty())),
    {
        if self.has_on_click() {
            return true;
        }
        match self.hover_style() {
            Some(s) => !s.is_empty(),
            None => false,
        }
    }

    /// Whether hovering changes anything under a theme, `themed_hover_non_empty`
    /// telling whether the hover slot resolves to a non-empty style there.
    pub fn is_hoverable_for_theme(&self, themed_hover_non_empty: bool) -> (r: bool)
        ensures
            r == (self.on_tab_change || (self.style_overrides matches Some(o) && o.hover_style matches Some(slot) && (
            slot is Inherit || themed_hover_non_empty))),
    {
        if self.has_on_click() {
            return true;
        }
        match &self.style_overrides {
            Some(o) => match o.hover_style {
                Some(StyleSlot::Inherit) => true,
                Some(_) => themed_hover_non_empty,
                None => false,
            },
            None => false,
        }
    }

    /// Refines hit testing at `(x, y)` in `rect`: a frame that cannot take
    /// focus still catches clicks on its border when focus changes how it
    /// looks, and with a tab handler only its top row takes clicks.
    pub fn hit_test_refinement(&self, x: i16, y: i16, rect: Rect) -> (r: Option<bool>)
        ensures
            r == spec_hit_test_refinement(*self, x as int, y as int, rect),
    {
        let right = i16_sat_sub(i16_sat_add(rect.x, u16_as_i16(rect.w)), 1);
        let bottom = i16_sat_sub(i16_sat_add(rect.y, u16_as_i16(rect.h)), 1);
        let on_left = self.border_edges.has_left() && x == rect.x;
        let on_right = self.border_edges.has_right() && x == right;
        let on_top = self.border_edges.has_top() && y == rect.y;
        let on_bottom = self.border_edges.has_bottom() && y == bottom;
        let on_border = self.has_border() && rect.w > 0 && rect.h > 0 && (on_left || on_right || on_top || on_bottom);
        if !self.focusable && self.on_tab_change {
            if y != rect.y {
                return Some(on_border && self.has_focus_chrome());
            }
        }
        if !self.focusable && on_border && self.has_focus_chrome() {
            return Some(true);
        }
        None
    }
}

/// Whether `(x, y)` lies on a drawn border edge of `rect`.
pub open spec fn spec_on_border(f: FrameNode, x: int, y: int, rect: Rect) -> bool {
    let right = sat_add_i16(sat_add_i16(rect.x as int, wrap_i16(rect.w as int)), -1);
    let bottom = sat_add_i16(sat_add_i16(rect.y as int, wrap_i16(rect.h as int)), -1);
    f.border && rect.w > 0 && rect.h > 0 && ((f.border_edges == BorderEdges::All && x == rect.x) || (
    f.border_edges == BorderEdges::All && x == right) || y == rect.y || y == bottom)
}

/// See [`FrameNode::hit_test_refinement`].
pub open spec fn spec_hit_test_refinement(f: FrameNode, x: int, y: int, rect: Rect) -> Option<bool> {
    if !f.focusable && f.on_tab_change && y != rect.y {
        Some(spec_on_border(f, x, y, rect) && f.spec_has_focus_chrome())
    } else if !f.focusable && spec_on_border(f, x, y, rect) && f.spec_has_focus_chrome() {
        Some(true)
    } else {
        None
    }
}

impl Default for FrameNode {
    fn default() -> (r: Self)
        ensures
            r.title is None && r.title_prefix is None && r.title_suffix is None,
            r.title_alignment == Align::Start,
            r.tab_titles@.len() == 0,
            r.active_tab == 0,
            r.active_tab_style == Style::empty() && r.inactive_tab_style == Style::empty(),
            r.tab_variant == (TabVariant { active_left: 1, active_right: 1, inactive_left: 1, inactive_right: 1, separator: 1 }),
            r.tab_edge == TabEdge::Top,
            !r.on_tab_change,
            r.status is None && r.status_center is None && r.status_right is None,
            r.padding == (Padding { top: 0, right: 0, bottom: 0, left: 0 }),
            r.decorations@.len() == 0,
            r.border,
            r.border_style == BorderStyle::Plain,
            r.border_edges == BorderEdges::All,
            r.border_merge_mode == BorderMergeMode::Exact,
            !r.join_frame,
            r.style == Style::empty() && r.title_style == Style::empty() && r.status_style == Style::empty(),
            r.width == Length::Flex(1) && r.height == Length::Flex(1),
            r.unfocused_height is None && r.focus_min_height is None,
            !r.compact,
            r.collapsible,
            r.header.left is None && r.header.center is None && r.header.right is None,
            r.header.style == Style::empty() && r.header.focused_style is None,
            r.header.padding == (Padding { top: 0, right: 0, bottom: 0, left: 0 }),
            r.footer.left is None && r.footer.center is None && r.footer.right is None,
            r.footer.style == Style::empty() && r.footer.focused_style is None,
            r.footer.padding == (Padding { top: 0, right: 0, bottom: 0, left: 0 }),
            !r.has_header,
            !r.focusable,
            r.focus_scope == FocusScope::Unscoped,
            r.child_align == Align::Start,
            r.style_overrides is None,
    {
        FrameNode {
            title: None,
            title_prefix: None,
            title_suffix: None,
            title_alignment: Align::Start,
            tab_titles: Vec::new(),
            active_tab: 0,
            active_tab_style: Style::new(),
            inactive_tab_style: Style::new(),
            tab_variant: TabVariant { active_left: 1, active_right: 1, inactive_left: 1, inactive_right: 1, separator: 1 },
            tab_edge: TabEdge::Top,
            on_tab_change: false,
            status: None,
            status_center: None,
            status_right: None,
            padding: Padding::new(0, 0, 0, 0),
            decorations: Vec::new(),
            border: true,
            border_style: BorderStyle::Plain,
            border_edges: BorderEdges::All,
            border_merge_mode: BorderMergeMode::Exact,
            join_frame: false,
            style: Style::new(),
            title_style: Style::new(),
            status_style: Style::new(),
            width: Length::Flex(1),
            height: Length::Flex(1),
            unfocused_height: None,
            focus_min_height: None,
            compact: false,
            collapsible: true,
            header: BorderLabels::new(),
            footer: BorderLabels::new(),
            has_header: false,
            focusable: false,
            focus_scope: FocusScope::Unscoped,
            child_align: Align::Start,
            style_overrides: None,
        }
    }
}

impl FrameNode {
    /// The overrides, or none.
    pub fn overrides(&self) -> (r: FrameStyleOverrides)
        ensures
            r == self.spec_overrides(),
    {
        match &self.style_overrides {
            Some(o) => *o,
            None => FrameStyleOverrides::new(),
        }
    }
}

/// A frame container.
#[derive(Clone, Debug)]
pub struct Frame {
    pub props: FrameNode,
    /// Content drawn in the header row inside the frame.
    pub header: Option<Element>,
    pub child: Option<Element>,
}

impl Frame {
    /// A frame with the default configuration, no header and no child.
    pub fn new() -> (r: Self)
        ensures
            r.header is None && r.child is None,
            r.props.border && r.props.collapsible && r.props.border_edges == BorderEdges::All,
            r.props.width == Length::Flex(1) && r.props.height == Length::Flex(1),
            r.props.tab_titles@.len() == 0 && r.props.decorations@.len() == 0,
            r.props.header.left is None && r.props.header.center is None && r.props.header.right is None,
            r.props.footer.left is None && r.props.footer.center is None && r.props.footer.right is None,
            r.props.style_overrides is None && !r.props.has_header && !r.props.focusable,
            r.props.padding == (Padding { top: 0, right: 0, bottom: 0, left: 0 }),
    {
        Frame { props: FrameNode::default(), header: None, child: None }
    }

    /// Sets the tab titles drawn in the border.
    pub fn tab_titles(self, titles: Vec<String>) -> (r: Self)
        ensures
            r.props.tab_titles@ == titles@,
            r.props == (FrameNode { tab_titles: r.props.tab_titles, ..self.props }),
            r.header == self.header && r.child == self.child,
    {
        Frame { props: FrameNode { tab_titles: titles, ..self.props }, ..self }
    }

    /// Appends an edge decoration.
    pub fn decoration(self, decoration: EdgeDecoration) -> (r: Self)
        ensures
            r.props.decorations@ == self.props.decorations@.push(decoration),
            r.props == (FrameNode { decorations: r.props.decorations, ..self.props }),
            r.header == self.header && r.child == self.child,
    {
        let mut decorations = self.props.decorations;
        decorations.push(decoration);
        Frame { props: FrameNode { decorations, ..self.props }, ..self }
    }

    /// Sets the header content drawn inside the frame.
    pub fn header_content(self, header: Element) -> (r: Self)
        ensures
            r.header == Some(header),
            r.props == (FrameNode { has_header: true, ..self.props }),
            r.child == self.child,
    {
        Frame { props: FrameNode { has_header: true, ..self.props }, header: Some(header), ..self }
    }

    /// Sets the child.
    pub fn child(self, child: Element) -> (r: Self)
        ensures
            r.child == Some(child),
            r.props == self.props && r.header == self.header,
    {
        Frame { child: Some(child), ..self }
    }

    /// Sets the active tab index.
    pub fn active_tab(self, value: usize) -> (r: Self)
        ensures
            r.props == (FrameNode { active_tab: value, ..self.props }),
            r.header == self.header && r.child == self.child,
    {
        Frame { props: FrameNode { active_tab: value, ..self.props }, ..self }
    }

    /// Sets the style of the active tab.
    pub fn active_tab_style(self, value: Style) -> (r: Self)
        ensures
            r.props == (FrameNode { active_tab_style: value, ..self.props }),
            r.header == self.header && r.child == self.child,
    {
        Frame { props: FrameNode { active_tab_style: value, ..self.props }, ..self }
    }

    /// Sets the style of the active tab while focused.
    pub fn focus_active_tab_style(self, value: Style) -> (r: Self)
        ensures
            r.props == (FrameNode { style_overrides: Some(FrameStyleOverrides { focus_active_tab_style: Some(value), ..self.props.spec_overrides() }), ..self.props }),
            r.header == self.header && r.child == self.child,
    {
        let o = self.props.overrides();
        Frame { props: FrameNode { style_overrides: Some(FrameStyleOverrides { focus_active_tab_style: Some(value), ..o }), ..self.props }, ..self }
    }

    /// Sets the style of inactive tabs.
    pub fn inactive_tab_style(self, value: Style) -> (r: Self)
        ensures
            r.props == (FrameNode { inactive_tab_style: value, ..self.props }),
            r.header == self.header && r.child == self.child,
    {
        Frame { props: FrameNode { inactive_tab_style: value, ..self.props }, ..self }
    }

    /// Sets the style of inactive tabs while focused.
    pub fn focus_inactive_tab_style(self, value: Style) -> (r: Self)
        ensures
            r.props == (FrameNode { style_overrides: Some(FrameStyleOverrides { focus_inactive_tab_style: Some(value), ..self.props.spec_overrides() }), ..self.props }),
            r.header == self.header && r.child == self.child,
    {
        let o = self.props.overrides();
        Frame { props: FrameNode { style_overrides: Some(FrameStyleOverrides { focus_inactive_tab_style: Some(value), ..o }), ..self.props }, ..self }
    }

    /// Sets the border line the tabs are drawn on.
    pub fn tab_edge(self, value: TabEdge) -> (r: Self)
        ensures
            r.props == (FrameNode { tab_edge: value, ..self.props }),
            r.header == self.header && r.child == self.child,
    {
        Frame { props: FrameNode { tab_edge: value, ..self.props }, ..self }
    }

    /// Sets the tab padding and separators.
    pub fn tab_variant(self, value: TabVariant) -> (r: Self)
        ensures
            r.props == (FrameNode { tab_variant: value, ..self.props }),
            r.header == self.header && r.child == self.child,
    {
        Frame { props: FrameNode { tab_variant: value, ..self.props }, ..self }
    }

    /// Sets the labels of the top border.
    pub fn header(self, value: BorderLabels) -> (r: Self)
        ensures
            r.props == (FrameNode { header: value, ..self.props }),
            r.header == self.header && r.child == self.child,
    {
        Frame { props: FrameNode { header: value, ..self.props }, ..self }
    }

    /// Sets the left header label.
    pub fn header_left(self, value: FrameLabel) -> (r: Self)
        ensures
            r.props == (FrameNode { header: BorderLabels { left: Some(value), ..self.props.header }, ..self.props }),
            r.header == self.header && r.child == self.child,
    {
        Frame { props: FrameNode { header: BorderLabels { left: Some(value), ..self.props.header }, ..self.props }, ..self }
    }

    /// Sets the centred header label.
    pub fn header_center(self, value: FrameLabel) -> (r: Self)
        ensures
            r.props == (FrameNode { header: BorderLabels { center: Some(value), ..self.props.header }, ..self.props }),
            r.header == self.header && r.child == self.child,
    {
        Frame { props: FrameNode { header: BorderLabels { center: Some(value), ..self.props.header }, ..self.props }, ..self }
    }

    /// Sets the right header label.
    pub fn header_right(self, value: FrameLabel) -> (r: Self)
        ensures
            r.props == (FrameNode { header: BorderLabels { right: Some(value), ..self.props.header }, ..self.props }),
            r.header == self.header && r.child == self.child,
    {
        Frame { props: FrameNode { header: BorderLabels { right: Some(value), ..self.props.header }, ..self.props }, ..self }
    }

    /// Sets the base style.
    pub fn style(self, value: Style) -> (r: Self)
        ensures
            r.props == (FrameNode { style: value, ..self.props }),
            r.header == self.header && r.child == self.child,
    {
        Frame { props: FrameNode { style: value, ..self.props }, ..self }
    }

    /// Sets the style of the inner content area.
    pub fn inner_style(self, value: Style) -> (r: Self)
        ensures
            r.props == (FrameNode { style_overrides: Some(FrameStyleOverrides { inner_style: Some(value), ..self.props.spec_overrides() }), ..self.props }),
            r.header == self.header && r.child == self.child,
    {
        let o = self.props.overrides();
        Frame { props: FrameNode { style_overrides: Some(FrameStyleOverrides { inner_style: Some(value), ..o }), ..self.props }, ..self }
    }

    /// Replaces the themed focus style.
    pub fn focus_style(self, value: Style) -> (r: Self)
        ensures
            r.props == (FrameNode { style_overrides: Some(FrameStyleOverrides { focus_style: Some(StyleSlot::Replace(value)), ..self.props.spec_overrides() }), ..self.props }),
            r.header == self.header && r.child == self.child,
    {
        let o = self.props.overrides();
        Frame { props: FrameNode { style_overrides: Some(FrameStyleOverrides { focus_style: Some(StyleSlot::Replace(value)), ..o }), ..self.props }, ..self }
    }

    /// Extends the themed focus style.
    pub fn extend_focus_style(self, value: Style) -> (r: Self)
        ensures
            r.props == (FrameNode { style_overrides: Some(FrameStyleOverrides { focus_style: Some(StyleSlot::Extend(value)), ..self.props.spec_overrides() }), ..self.props }),
            r.header == self.header && r.child == self.child,
    {
        let o = self.props.overrides();
        Frame { props: FrameNode { style_overrides: Some(FrameStyleOverrides { focus_style: Some(StyleSlot::Extend(value)), ..o }), ..self.props }, ..self }
    }

    /// Inherits the themed focus style.
    pub fn inherit_focus_style(self) -> (r: Self)
        ensures
            r.props == (FrameNode { style_overrides: Some(FrameStyleOverrides { focus_style: Some(StyleSlot::Inherit), ..self.props.spec_overrides() }), ..self.props }),
            r.header == self.header && r.child == self.child,
    {
        let o = self.props.overrides();
        Frame { props: FrameNode { style_overrides: Some(FrameStyleOverrides { focus_style: Some(StyleSlot::Inherit), ..o }), ..self.props }, ..self }
    }

    /// Sets the focus style slot.
    pub fn focus_style_slot(self, value: StyleSlot) -> (r: Self)
        ensures
            r.props == (FrameNode { style_overrides: Some(FrameStyleOverrides { focus_style: Some(value), ..self.props.spec_overrides() }), ..self.props }),
            r.header == self.header && r.child == self.child,
    {
        let o = self.props.overrides();
        Frame { props: FrameNode { style_overrides: Some(FrameStyleOverrides { focus_style: Some(value), ..o }), ..self.props }, ..self }
    }

    /// Replaces the themed hover style.
    pub fn hover_style(self, value: Style) -> (r: Self)
        ensures
            r.props == (FrameNode { style_overrides: Some(FrameStyleOverrides { hover_style: Some(StyleSlot::Replace(value)), ..self.props.spec_overrides() }), ..self.props }),
            r.header == self.header && r.child == self.child,
    {
        let o = self.props.overrides();
        Frame { props: FrameNode { style_overrides: Some(FrameStyleOverrides { hover_style: Some(StyleSlot::Replace(value)), ..o }), ..self.props }, ..self }
    }

    /// Extends the themed hover style.
    pub fn extend_hover_style(self, value: Style) -> (r: Self)
        ensures
            r.props == (FrameNode { style_overrides: Some(FrameStyleOverrides { hover_style: Some(StyleSlot::Extend(value)), ..self.props.spec_overrides() }), ..self.props }),
            r.header == self.header && r.child == self.child,
    {
        let o = self.props.overrides();
        Frame { props: FrameNode { style_overrides: Some(FrameStyleOverrides { hover_style: Some(StyleSlot::Extend(value)), ..o }), ..self.props }, ..self }
    }

    /// Inherits the themed hover style.
    pub fn inherit_hover_style(self) -> (r: Self)
        ensures
            r.props == (FrameNode { style_overrides: Some(FrameStyleOverrides { hover_style: Some(StyleSlot::Inherit), ..self.props.spec_overrides() }), ..self.props }),
            r.header == self.header && r.child == self.child,
    {
        let o = self.props.overrides();
        Frame { props: FrameNode { style_overrides: Some(FrameStyleOverrides { hover_style: Some(StyleSlot::Inherit), ..o }), ..self.props }, ..self }
    }

    /// Sets the hover style slot.
    pub fn hover_style_slot(self, value: StyleSlot) -> (r: Self)
        ensures
            r.props == (FrameNode { style_overrides: Some(FrameStyleOverrides { hover_style: Some(value), ..self.props.spec_overrides() }), ..self.props }),
            r.header == self.header && r.child == self.child,
    {
        let o = self.props.overrides();
        Frame { props: FrameNode { style_overrides: Some(FrameStyleOverrides { hover_style: Some(value), ..o }), ..self.props }, ..self }
    }

    /// Sets the border style while focused.
    pub fn focus_border_style(self, value: BorderStyle) -> (r: Self)
        ensures
            r.props == (FrameNode { style_overrides: Some(FrameStyleOverrides { focus_border_style: Some(value), ..self.props.spec_overrides() }), ..self.props }),
            r.header == self.header && r.child == self.child,
    {
        let o = self.props.overrides();
        Frame { props: FrameNode { style_overrides: Some(FrameStyleOverrides { focus_border_style: Some(value), ..o }), ..self.props }, ..self }
    }

    /// Toggles the border.
    pub fn border(self, value: bool) -> (r: Self)
        ensures
            r.props == (FrameNode { border: value, ..self.props }),
            r.header == self.header && r.child == self.child,
    {
        Frame { props: FrameNode { border: value, ..self.props }, ..self }
    }

    /// Sets the border style.
    pub fn border_style(self, value: BorderStyle) -> (r: Self)
        ensures
            r.props == (FrameNode { border_style: value, ..self.props }),
            r.header == self.header && r.child == self.child,
    {
        Frame { props: FrameNode { border_style: value, ..self.props }, ..self }
    }

    /// Sets which border edges are drawn and take room.
    pub fn border_edges(self, value: BorderEdges) -> (r: Self)
        ensures
            r.props == (FrameNode { border_edges: value, ..self.props }),
            r.header == self.header && r.child == self.child,
    {
        Frame { props: FrameNode { border_edges: value, ..self.props }, ..self }
    }

    /// Sets how overlapping border symbols merge.
    pub fn border_merge_mode(self, value: BorderMergeMode) -> (r: Self)
        ensures
            r.props == (FrameNode { border_merge_mode: value, ..self.props }),
            r.header == self.header && r.child == self.child,
    {
        Frame { props: FrameNode { border_merge_mode: value, ..self.props }, ..self }
    }

    /// Joins borders with touching neighbours.
    pub fn join_frame(self, value: bool) -> (r: Self)
        ensures
            r.props == (FrameNode { join_frame: value, ..self.props }),
            r.header == self.header && r.child == self.child,
    {
        Frame { props: FrameNode { join_frame: value, ..self.props }, ..self }
    }

    /// Sets the padding.
    pub fn padding(self, value: Padding) -> (r: Self)
        ensures
            r.props == (FrameNode { padding: value, ..self.props }),
            r.header == self.header && r.child == self.child,
    {
        Frame { props: FrameNode { padding: value, ..self.props }, ..self }
    }

    /// Replaces all edge decorations.
    pub fn decorations(self, value: Vec<EdgeDecoration>) -> (r: Self)
        ensures
            r.props.decorations@ == value@,
            r.props == (FrameNode { decorations: r.props.decorations, ..self.props }),
            r.header == self.header && r.child == self.child,
    {
        Frame { props: FrameNode { decorations: value, ..self.props }, ..self }
    }

    /// Sets the requested width.
    pub fn width(self, value: Length) -> (r: Self)
        ensures
            r.props == (FrameNode { width: value, ..self.props }),
            r.header == self.header && r.child == self.child,
    {
        Frame { props: FrameNode { width: value, ..self.props }, ..self }
    }

    /// Sets the requested height.
    pub fn height(self, value: Length) -> (r: Self)
        ensures
            r.props == (FrameNode { height: value, ..self.props }),
            r.header == self.header && r.child == self.child,
    {
        Frame { props: FrameNode { height: value, ..self.props }, ..self }
    }

    /// Sets the requested height while unfocused.
    pub fn unfocused_height(self, value: Length) -> (r: Self)
        ensures
            r.props == (FrameNode { unfocused_height: Some(value), ..self.props }),
            r.header == self.header && r.child == self.child,
    {
        Frame { props: FrameNode { unfocused_height: Some(value), ..self.props }, ..self }
    }

    /// Sets the minimum height while focused (borders included).
    pub fn focus_min_height(self, value: u16) -> (r: Self)
        ensures
            r.props == (FrameNode { focus_min_height: Some(value), ..self.props }),
            r.header == self.header && r.child == self.child,
    {
        Frame { props: FrameNode { focus_min_height: Some(value), ..self.props }, ..self }
    }

    /// Toggles single-line rendering.
    pub fn compact(self, value: bool) -> (r: Self)
        ensures
            r.props == (FrameNode { compact: value, ..self.props }),
            r.header == self.header && r.child == self.child,
    {
        Frame { props: FrameNode { compact: value, ..self.props }, ..self }
    }

    /// Lets the frame collapse when room is short.
    pub fn collapsible(self, value: bool) -> (r: Self)
        ensures
            r.props == (FrameNode { collapsible: value, ..self.props }),
            r.header == self.header && r.child == self.child,
    {
        Frame { props: FrameNode { collapsible: value, ..self.props }, ..self }
    }

    /// Sets the labels of the bottom border.
    pub fn footer(self, value: BorderLabels) -> (r: Self)
        ensures
            r.props == (FrameNode { footer: value, ..self.props }),
            r.header == self.header && r.child == self.child,
    {
        Frame { props: FrameNode { footer: value, ..self.props }, ..self }
    }

    /// Sets the left footer label.
    pub fn footer_left(self, value: FrameLabel) -> (r: Self)
        ensures
            r.props == (FrameNode { footer: BorderLabels { left: Some(value), ..self.props.footer }, ..self.props }),
            r.header == self.header && r.child == self.child,
    {
        Frame { props: FrameNode { footer: BorderLabels { left: Some(value), ..self.props.footer }, ..self.props }, ..self }
    }

    /// Sets the centred footer label.
    pub fn footer_center(self, value: FrameLabel) -> (r: Self)
        ensures
            r.props == (FrameNode { footer: BorderLabels { center: Some(value), ..self.props.footer }, ..self.props }),
            r.header == self.header && r.child == self.child,
    {
        Frame { props: FrameNode { footer: BorderLabels { center: Some(value), ..self.props.footer }, ..self.props }, ..self }
    }

    /// Sets the right footer label.
    pub fn footer_right(self, value: FrameLabel) -> (r: Self)
        ensures
            r.props == (FrameNode { footer: BorderLabels { right: Some(value), ..self.props.footer }, ..self.props }),
            r.header == self.header && r.child == self.child,
    {
        Frame { props: FrameNode { footer: BorderLabels { right: Some(value), ..self.props.footer }, ..self.props }, ..self }
    }

    /// Sets the header group style.
    pub fn header_style(self, value: Style) -> (r: Self)
        ensures
            r.props == (FrameNode { header: BorderLabels { style: value, ..self.props.header }, ..self.props }),
            r.header == self.header && r.child == self.child,
    {
        Frame { props: FrameNode { header: BorderLabels { style: value, ..self.props.header }, ..self.props }, ..self }
    }

    /// Sets the header group style while focused.
    pub fn focused_header_style(self, value: Style) -> (r: Self)
        ensures
            r.props == (FrameNode { header: BorderLabels { focused_style: Some(value), ..self.props.header }, ..self.props }),
            r.header == self.header && r.child == self.child,
    {
        Frame { props: FrameNode { header: BorderLabels { focused_style: Some(value), ..self.props.header }, ..self.props }, ..self }
    }

    /// Sets the footer group style.
    pub fn footer_style(self, value: Style) -> (r: Self)
        ensures
            r.props == (FrameNode { footer: BorderLabels { style: value, ..self.props.footer }, ..self.props }),
            r.header == self.header && r.child == self.child,
    {
        Frame { props: FrameNode { footer: BorderLabels { style: value, ..self.props.footer }, ..self.props }, ..self }
    }

    /// Sets the footer group style while focused.
    pub fn focused_footer_style(self, value: Style) -> (r: Self)
        ensures
            r.props == (FrameNode { footer: BorderLabels { focused_style: Some(value), ..self.props.footer }, ..self.props }),
            r.header == self.header && r.child == self.child,
    {
        Frame { props: FrameNode { footer: BorderLabels { focused_style: Some(value), ..self.props.footer }, ..self.props }, ..self }
    }

    /// Sets the header label padding.
    pub fn header_padding(self, value: Padding) -> (r: Self)
        ensures
            r.props == (FrameNode { header: BorderLabels { padding: value, ..self.props.header }, ..self.props }),
            r.header == self.header && r.child == self.child,
    {
        Frame { props: FrameNode { header: BorderLabels { padding: value, ..self.props.header }, ..self.props }, ..self }
    }

    /// Sets the footer label padding.
    pub fn footer_padding(self, value: Padding) -> (r: Self)
        ensures
            r.props == (FrameNode { footer: BorderLabels { padding: value, ..self.props.footer }, ..self.props }),
            r.header == self.header && r.child == self.child,
    {
        Frame { props: FrameNode { footer: BorderLabels { padding: value, ..self.props.footer }, ..self.props }, ..self }
    }

    /// Makes the frame focusable without a child or tabs.
    pub fn focusable(self, value: bool) -> (r: Self)
        ensures
            r.props == (FrameNode { focusable: value, ..self.props }),
            r.header == self.header && r.child == self.child,
    {
        Frame { props: FrameNode { focusable: value, ..self.props }, ..self }
    }

    /// Sets how focus moves through the frame.
    pub fn focus_scope(self, value: FocusScope) -> (r: Self)
        ensures
            r.props == (FrameNode { focus_scope: value, ..self.props }),
            r.header == self.header && r.child == self.child,
    {
        Frame { props: FrameNode { focus_scope: value, ..self.props }, ..self }
    }

    /// Sets the child's alignment in the inner area.
    pub fn child_align(self, value: Align) -> (r: Self)
        ensures
            r.props == (FrameNode { child_align: value, ..self.props }),
            r.header == self.header && r.child == self.child,
    {
        Frame { props: FrameNode { child_align: value, ..self.props }, ..self }
    }

}

/// Whether a frame joins a neighbour on its left or top edge.
#[derive(Clone, Copy, Debug, PartialEq, Eq, Structural, Default)]
pub struct FrameJoinOverlap {
    pub left: bool,
    pub top: bool,
}

/// The geometric plan of a frame: every inset and rect that measuring,
/// placing and drawing it share.
#[derive(Clone, Copy, Debug, PartialEq, Eq, Structural)]
pub struct FrameGeometry {
    /// The whole allocated rect, outside decorations included.
    pub outer_rect: Rect,
    /// The rect inside outside decorations.
    pub frame_rect: Rect,
    /// The rect inside the border, join adjustments applied.
    pub body_rect: Rect,
    /// Where the child goes.
    pub content_rect: Rect,
    pub header_rect: Option<Rect>,
    pub status_rect: Option<Rect>,
    pub join_overlap: FrameJoinOverlap,
    pub has_border: bool,
    pub border_padding: Padding,
    pub vscrollbar_track_x: Option<i16>,
    pub hscrollbar_track_y: Option<i16>,
    pub padding: Padding,
    pub decoration_outside: Padding,
    pub border_deco_inset: Padding,
}

/// `v` less `pad`, saturating, for an optional bound.
pub open spec fn opt_sub(v: Option<u16>, pad: int) -> Option<u16> {
    match v {
        Some(x) => Some(sat_sub_u16(x as int, pad) as u16),
        None => None,
    }
}

fn opt_sub_exec(v: Option<u16>, pad: u16) -> (r: Option<u16>)
    ensures
        r == opt_sub(v, pad as int),
{
    match v {
        Some(x) => Some(x.saturating_sub(pad)),
        None => None,
    }
}

impl FrameGeometry {
    /// The outer size `(width, height)`.
    pub fn outer_size(&self) -> (r: (u16, u16))
        ensures
            r == (self.outer_rect.w, self.outer_rect.h),
    {
        (self.outer_rect.w, self.outer_rect.h)
    }

    pub open spec fn spec_inner_max_size(self, max_w: Option<u16>, max_h: Option<u16>) -> (Option<u16>, Option<u16>) {
        let w0 = opt_sub(max_w, self.decoration_outside.spec_horizontal());
        let h0 = opt_sub(max_h, self.decoration_outside.spec_vertical());
        let w1 = if self.has_border { opt_sub(w0, self.border_padding.spec_horizontal()) } else { w0 };
        let h1 = if self.has_border { opt_sub(h0, self.border_padding.spec_vertical()) } else { h0 };
        (
            opt_sub(opt_sub(w1, self.padding.spec_horizontal()), self.border_deco_inset.spec_horizontal()),
            opt_sub(opt_sub(h1, self.padding.spec_vertical()), self.border_deco_inset.spec_vertical()),
        )
    }

    /// The largest inner size a child can be measured in: the bounds less
    /// outside decorations, border, padding and border decorations.
    pub fn inner_max_size(&self, max_w: Option<u16>, max_h: Option<u16>) -> (r: (Option<u16>, Option<u16>))
        ensures
            r == self.spec_inner_max_size(max_w, max_h),
    {
        let mut w = opt_sub_exec(max_w, self.decoration_outside.horizontal());
        let mut h = opt_sub_exec(max_h, self.decoration_outside.vertical());
        if self.has_border {
            w = opt_sub_exec(w, self.border_padding.horizontal());
            h = opt_sub_exec(h, self.border_padding.vertical());
        }
        w = opt_sub_exec(w, self.padding.horizontal());
        h = opt_sub_exec(h, self.padding.vertical());
        w = opt_sub_exec(w, self.border_deco_inset.horizontal());
        h = opt_sub_exec(h, self.border_deco_inset.vertical());
        (w, h)
    }
}

/// A length resolved in `avail` cells: fixed sizes as given, percents of
/// `avail` (at most 100), everything else all of it.
pub open spec fn resolve_length(len: Length, avail: int) -> int {
    match len {
        Length::Px(px) => px as int,
        Length::Percent(p) => avail * (if p > 100 { 100 } else { p as int }) / 100,
        _ => avail,
    }
}

fn resolve_length_exec(len: Length, avail: u16) -> (r: u16)
    ensures
        r == resolve_length(len, avail as int),
{
    match len {
        Length::Px(px) => px,
        Length::Percent(p) => {
            let pm: u32 = if p > 100 { 100 } else { p as u32 };
            assert(avail as u32 * pm / 100 <= avail) by (nonlinear_arith)
                requires pm <= 100;
            (avail as u32 * pm / 100) as u16
        },
        _ => avail,
    }
}

/// `r` grown one cell up-left on the joined edges.
pub open spec fn join_grow(r: Rect, left: bool, top: bool) -> Rect {
    let a = if left {
        Rect { x: sat_add_i16(r.x as int, -1) as i16, w: sat_add_u16(r.w as int, 1) as u16, ..r }
    } else {
        r
    };
    if top {
        Rect { y: sat_add_i16(a.y as int, -1) as i16, h: sat_add_u16(a.h as int, 1) as u16, ..a }
    } else {
        a
    }
}

fn join_grow_exec(r: Rect, left: bool, top: bool) -> (o: Rect)
    ensures
        o == join_grow(r, left, top),
{
    let mut a = r;
    if left {
        a.x = i16_sat_sub(a.x, 1);
        a.w = a.w.saturating_add(1);
    }
    if top {
        a.y = i16_sat_sub(a.y, 1);
        a.h = a.h.saturating_add(1);
    }
    a
}

/// Whether a border-placed decoration sits on `edge`.
pub open spec fn has_border_deco(decos: Seq<EdgeDecoration>, edge: Edge) -> bool {
    exists|i: int| 0 <= i < decos.len() && decos[i].placement == DecorationPlacement::Border && #[trigger] decos[i].edge == edge
}

fn has_border_deco_exec(decos: &Vec<EdgeDecoration>, edge: Edge) -> (r: bool)
    ensures
        r == has_border_deco(decos@, edge),
{
    let mut i: usize = 0;
    while i < decos.len()
        invariant
            i <= decos@.len(),
            forall|j: int| 0 <= j < i ==> !(decos@[j].placement == DecorationPlacement::Border && #[trigger] decos@[j].edge == edge),
        decreases decos@.len() - i,
    {
        if decos[i].placement == DecorationPlacement::Border && decos[i].edge == edge {
            return true;
        }
        i = i + 1;
    }
    false
}

/// The last cell of a span starting at `start` of `len` cells.
pub open spec fn last_cell(start: int, len: int) -> int {
    sat_add_i16(sat_add_i16(start, wrap_i16(len)), -1)
}

/// Horizontal-only padding.
pub open spec fn sides(p: Padding) -> Padding {
    Padding { left: p.left, right: p.right, top: 0, bottom: 0 }
}

/// A frame's geometric plan in `rect`; see [`compute_frame_geometry`].
pub open spec fn spec_frame_geometry(props: FrameNode, rect: Rect, join: FrameJoinOverlap, has_parent: bool) -> FrameGeometry {
    let deco_out = props.spec_outside_padding();
    let inset = props.spec_border_deco_inset();
    let hb = props.border;
    let bp = props.spec_border_padding();
    let jl = props.join_frame && props.border_edges == BorderEdges::All && join.left;
    let jt = props.join_frame && join.top;
    let frame_rect = rect.spec_inset(deco_out);
    let body = if hb { join_grow(frame_rect.spec_inset(bp), jl, jt) } else { frame_rect };
    let rw = resolve_length(props.width, frame_rect.w as int);
    let rh = resolve_length(props.height, frame_rect.h as int);
    let inner0 = Rect {
        w: if props.width is Percent && has_parent {
            frame_rect.w
        } else if rw < frame_rect.w {
            rw as u16
        } else {
            frame_rect.w
        },
        h: if props.height is Percent && has_parent {
            frame_rect.h
        } else if rh < frame_rect.h {
            rh as u16
        } else {
            frame_rect.h
        },
        ..frame_rect
    };
    let inner = if hb { join_grow(inner0.spec_inset(bp), jl, jt) } else { inner0 };
    let has_status = props.status is Some || props.status_center is Some || props.status_right is Some;
    let content0 = if has_status && !hb { Rect { h: sat_sub_u16(inner.h as int, 1) as u16, ..inner } } else { inner };
    let content1 = content0.spec_inset(props.padding).spec_inset(inset);
    let has_header = props.has_header && !props.compact && frame_rect.h > 0;
    let bordered_header = Rect {
        x: sat_add_i16(frame_rect.x as int, if jl { 0 } else { 1 }) as i16,
        y: sat_add_i16(frame_rect.y as int, if jt { -1 } else { 0 }) as i16,
        w: sat_add_u16(sat_sub_u16(frame_rect.w as int, 2), if jl { 1 } else { 0 }) as u16,
        h: 1,
    }.spec_inset(sides(props.header.padding));
    let inline_header = Rect { x: content1.x, y: content1.y, w: content1.w, h: 1 }.spec_inset(sides(props.header.padding));
    let header_rect = if has_header && hb {
        if bordered_header.w > 0 && bordered_header.h > 0 { Some(bordered_header) } else { None }
    } else if has_header && content1.h > 0 {
        if inline_header.w > 0 && inline_header.h > 0 { Some(inline_header) } else { None }
    } else {
        None
    };
    let content = if has_header && !hb && content1.h > 0 {
        Rect { y: sat_add_i16(content1.y as int, 1) as i16, h: sat_sub_u16(content1.h as int, 1) as u16, ..content1 }
    } else {
        content1
    };
    let status = Rect {
        x: inner.x,
        y: last_cell(inner.y as int, inner.h as int) as i16,
        w: inner.w,
        h: 1,
    }.spec_inset(props.padding).spec_inset(inset).spec_inset(sides(props.footer.padding));
    let status_rect = if has_status && !hb && status.w > 0 && status.h > 0 { Some(status) } else { None };
    let vtrack = if hb && props.border_edges == BorderEdges::All {
        Some(last_cell(frame_rect.x as int, frame_rect.w as int) as i16)
    } else if has_border_deco(props.decorations@, Edge::Right) {
        Some(last_cell(body.x as int, body.w as int) as i16)
    } else if has_border_deco(props.decorations@, Edge::Left) {
        Some(body.x)
    } else {
        None
    };
    let htrack = if hb {
        Some(last_cell(frame_rect.y as int, frame_rect.h as int) as i16)
    } else if has_border_deco(props.decorations@, Edge::Bottom) {
        Some(last_cell(body.y as int, body.h as int) as i16)
    } else if has_border_deco(props.decorations@, Edge::Top) {
        Some(body.y)
    } else {
        None
    };
    FrameGeometry {
        outer_rect: rect,
        frame_rect,
        body_rect: body,
        content_rect: content,
        header_rect,
        status_rect,
        join_overlap: join,
        has_border: hb,
        border_padding: bp,
        vscrollbar_track_x: vtrack,
        hscrollbar_track_y: htrack,
        padding: props.padding,
        decoration_outside: deco_out,
        border_deco_inset: inset,
    }
}

fn last_cell_exec(start: i16, len: u16) -> (r: i16)
    ensures
        r == last_cell(start as int, len as int),
{
    i16_sat_sub(i16_sat_add(start, u16_as_i16(len)), 1)
}

/// Plans a frame in `rect`: outside decorations come off first, then the
/// border (grown back over joined neighbours), the requested size (a
/// percent already resolved by a parent is taken whole), a borderless status
/// row, padding and border decorations; the header sits in the top border or
/// takes the first content row; scrollbar tracks go on the right and bottom
/// border or decoration.
pub fn compute_frame_geometry(props: &FrameNode, rect: Rect, join: FrameJoinOverlap, has_parent: bool) -> (g:
    FrameGeometry)
    ensures
        g == spec_frame_geometry(*props, rect, join, has_parent),
{
    let deco_out = props.decoration_outside_padding();
    let inset = props.decoration_border_content_inset();
    let hb = props.has_border();
    let bp = props.border_padding();
    let jl = props.join_frame && props.border_edges.has_left() && join.left;
    let jt = props.join_frame && props.border_edges.has_top() && join.top;
    let frame_rect = rect.inset(deco_out);
    let body = if hb { join_grow_exec(frame_rect.inset(bp), jl, jt) } else { frame_rect };
    let rw = resolve_length_exec(props.width, frame_rect.w);
    let rh = resolve_length_exec(props.height, frame_rect.h);
    let iw: u16 = if matches!(props.width, Length::Percent(_)) && has_parent {
        frame_rect.w
    } else if rw < frame_rect.w {
        rw
    } else {
        frame_rect.w
    };
    let ih: u16 = if matches!(props.height, Length::Percent(_)) && has_parent {
        frame_rect.h
    } else if rh < frame_rect.h {
        rh
    } else {
        frame_rect.h
    };
    let inner0 = Rect { w: iw, h: ih, ..frame_rect };
    let inner = if hb { join_grow_exec(inner0.inset(bp), jl, jt) } else { inner0 };
    let has_status = props.status.is_some() || props.status_center.is_some() || props.status_right.is_some();
    let content0 = if has_status && !hb { Rect { h: inner.h.saturating_sub(1), ..inner } } else { inner };
    let content1 = content0.inset(props.padding).inset(inset);
    let has_header = props.has_header && !props.compact && frame_rect.h > 0;
    let hpad = Padding::new(0, props.header.padding.right, 0, props.header.padding.left);
    let mut header_rect: Option<Rect> = None;
    let mut content = content1;
    if has_header {
        if hb {
            let header = Rect {
                x: i16_sat_add(frame_rect.x, if jl { 0 } else { 1 }),
                y: i16_sat_add(frame_rect.y, if jt { -1 } else { 0 }),
                w: frame_rect.w.saturating_sub(2).saturating_add(if jl { 1 } else { 0 }),
                h: 1,
            }.inset(hpad);
            if header.w > 0 && header.h > 0 {
                header_rect = Some(header);
            }
        } else if content1.h > 0 {
            let header = Rect { x: content1.x, y: content1.y, w: content1.w, h: 1 }.inset(hpad);
            if header.w > 0 && header.h > 0 {
                header_rect = Some(header);
            }
            content = Rect { y: i16_sat_add(content1.y, 1), h: content1.h.saturating_sub(1), ..content1 };
        }
    }
    let mut status_rect: Option<Rect> = None;
    if has_status && !hb {
        let fpad = Padding::new(0, props.footer.padding.right, 0, props.footer.padding.left);
        let status = Rect { x: inner.x, y: last_cell_exec(inner.y, inner.h), w: inner.w, h: 1 }.inset(
            props.padding,
        ).inset(inset).inset(fpad);
        if status.w > 0 && status.h > 0 {
            status_rect = Some(status);
        }
    }
    let vtrack: Option<i16> = if hb && props.border_edges.has_right() {
        Some(last_cell_exec(frame_rect.x, frame_rect.w))
    } else if has_border_deco_exec(&props.decorations, Edge::Right) {
        Some(last_cell_exec(body.x, body.w))
    } else if has_border_deco_exec(&props.decorations, Edge::Left) {
        Some(body.x)
    } else {
        None
    };
    let htrack: Option<i16> = if hb && props.border_edges.has_bottom() {
        Some(last_cell_exec(frame_rect.y, frame_rect.h))
    } else if has_border_deco_exec(&props.decorations, Edge::Bottom) {
        Some(last_cell_exec(body.y, body.h))
    } else if has_border_deco_exec(&props.decorations, Edge::Top) {
        Some(body.y)
    } else {
        None
    };
    FrameGeometry {
        outer_rect: rect,
        frame_rect,
        body_rect: body,
        content_rect: content,
        header_rect,
        status_rect,
        join_overlap: join,
        has_border: hb,
        border_padding: bp,
        vscrollbar_track_x: vtrack,
        hscrollbar_track_y: htrack,
        padding: props.padding,
        decoration_outside: deco_out,
        border_deco_inset: inset,
    }
}


/// `min(v, u16::MAX)`.
pub open spec fn cap16(v: int) -> int {
    if v > u16::MAX { u16::MAX as int } else { v }
}

/// The cells tab `i` takes in the strip: its title, its padding (active or
/// not) and the separator after it (but the last).
pub open spec fn tab_cells(titles: Seq<String>, active: int, v: TabVariant, i: int) -> int {
    display_width(titles[i]@) + (if i == active {
        v.active_left + v.active_right
    } else {
        v.inactive_left + v.inactive_right
    }) + (if i + 1 < titles.len() { v.separator as int } else { 0 })
}

/// The cells of the first `k` tabs.
pub open spec fn tabs_total(titles: Seq<String>, active: int, v: TabVariant, k: int) -> int
    decreases k,
{
    if k <= 0 { 0 } else { tabs_total(titles, active, v, k - 1) + tab_cells(titles, active, v, k - 1) }
}

/// The width a bordered frame's top line needs: the tab strip (the active
/// tab cut to the last) or the title, and the two corners.
pub open spec fn title_line_width(props: FrameNode) -> Option<int> {
    let n = props.tab_titles@.len() as int;
    if n > 0 {
        let active = if props.active_tab < n - 1 { props.active_tab as int } else { n - 1 };
        Some(cap16(tabs_total(props.tab_titles@, active, props.tab_variant, n) + 2))
    } else {
        match props.title {
            Some(t) => Some(cap16(display_width(t@) as int + 2)),
            None => None,
        }
    }
}

proof fn lemma_tabs_total_nonneg(titles: Seq<String>, active: int, v: TabVariant, k: int)
    ensures
        tabs_total(titles, active, v, k) >= 0,
    decreases k,
{
    if k > 0 {
        lemma_tabs_total_nonneg(titles, active, v, k - 1);
    }
}

fn title_line_width_exec(props: &FrameNode) -> (r: Option<u16>)
    ensures
        r matches Some(w) ==> title_line_width(*props) == Some(w as int),
        r is None ==> title_line_width(*props) is None,
{
    let n = props.tab_titles.len();
    if n > 0 {
        let active: usize = if props.active_tab < n - 1 { props.active_tab } else { n - 1 };
        let v = props.tab_variant;
        let mut w: usize = 0;
        let mut i: usize = 0;
        while i < n
            invariant
                n == props.tab_titles@.len(),
                i <= n,
                active == (if props.active_tab < n - 1 { props.active_tab as int } else { n - 1 }),
                v == props.tab_variant,
                w as int == (if tabs_total(props.tab_titles@, active as int, v, i as int) > usize::MAX {
                    usize::MAX as int
                } else {
                    tabs_total(props.tab_titles@, active as int, v, i as int)
                }),
            decreases n - i,
        {
            proof {
                lemma_tabs_total_nonneg(props.tab_titles@, active as int, v, i as int);
            }
            let title_w = str_width(props.tab_titles[i].as_str());
            let (pl, pr): (u16, u16) = if i == active {
                (v.active_left, v.active_right)
            } else {
                (v.inactive_left, v.inactive_right)
            };
            w = w.saturating_add(title_w).saturating_add(pl as usize).saturating_add(pr as usize);
            if i + 1 < n {
                w = w.saturating_add(v.separator as usize);
            }
            i = i + 1;
        }
        proof {
            lemma_tabs_total_nonneg(props.tab_titles@, active as int, v, n as int);
        }
        let w2 = w.saturating_add(2);
        Some(if w2 > 65535 { 65535 } else { w2 as u16 })
    } else {
        match &props.title {
            Some(t) => {
                let w2 = str_width(t.as_str()).saturating_add(2);
                Some(if w2 > 65535 { 65535 } else { w2 as u16 })
            },
            None => None,
        }
    }
}

/// The widest status segment of a frame, if it has one.
pub open spec fn status_width(props: FrameNode) -> int {
    let a = match props.status {
        Some(t) => cap16(display_width(t@) as int),
        None => 0,
    };
    let b = match props.status_center {
        Some(t) => cap16(display_width(t@) as int),
        None => 0,
    };
    let c = match props.status_right {
        Some(t) => cap16(display_width(t@) as int),
        None => 0,
    };
    max3(a, b, c)
}

/// The largest of three.
pub open spec fn max3(a: int, b: int, c: int) -> int {
    let m = if a >= b { a } else { b };
    if m >= c { m } else { c }
}

fn text_cells(t: &Option<String>) -> (r: u16)
    ensures
        r == (match *t {
            Some(s) => cap16(display_width(s@) as int),
            None => 0,
        }),
{
    match t {
        Some(s) => {
            let w = str_width(s.as_str());
            if w > 65535 { 65535 } else { w as u16 }
        },
        None => 0,
    }
}

fn status_width_exec(props: &FrameNode) -> (r: u16)
    ensures
        r == status_width(*props),
{
    let a = text_cells(&props.status);
    let b = text_cells(&props.status_center);
    let c = text_cells(&props.status_right);
    let m = if a >= b { a } else { b };
    if m >= c { m } else { c }
}

/// The larger of two.
pub open spec fn max_of(a: int, b: int) -> int {
    if a >= b { a } else { b }
}

/// The minimum size a frame's chrome takes without its content: padding,
/// border and its top line, or (borderless) the header and status rows, one
/// content row, and decorations.
pub open spec fn spec_frame_chrome(frame: Frame) -> (int, int) {
    let props = frame.props;
    let bp = props.spec_border_padding();
    let w0 = props.padding.spec_horizontal();
    let h0 = props.padding.spec_vertical();
    let has_status = props.status is Some || props.status_center is Some || props.status_right is Some;
    let (w1, h1) = if props.border {
        let w = sat_add_u16(w0, bp.spec_horizontal());
        (
            match title_line_width(props) {
                Some(t) => max_of(w, t),
                None => w,
            },
            sat_add_u16(h0, bp.spec_vertical()),
        )
    } else {
        let (wa, ha) = match frame.header {
            Some(e) => (max_of(w0, e.min_w as int), sat_add_u16(h0, max_of(e.min_h as int, 1))),
            None => (w0, h0),
        };
        if has_status {
            (max_of(wa, status_width(props)), sat_add_u16(ha, 1))
        } else {
            (wa, ha)
        }
    };
    let h2 = sat_add_u16(h1, 1);
    let out = props.spec_outside_padding();
    let inset = props.spec_border_deco_inset();
    (
        sat_add_u16(sat_add_u16(w1, out.spec_horizontal()), inset.spec_horizontal()),
        sat_add_u16(sat_add_u16(h2, out.spec_vertical()), inset.spec_vertical()),
    )
}

/// The minimum size of a frame's chrome; see [`spec_frame_chrome`].
pub fn measure_frame_chrome(frame: &Frame) -> (r: (u16, u16))
    ensures
        r.0 == spec_frame_chrome(*frame).0,
        r.1 == spec_frame_chrome(*frame).1,
{
    let props = &frame.props;
    let mut min_w: u16 = props.padding.horizontal();
    let mut min_h: u16 = props.padding.vertical();
    if props.has_border() {
        let bp = props.border_padding();
        min_w = min_w.saturating_add(bp.horizontal());
        min_h = min_h.saturating_add(bp.vertical());
        match title_line_width_exec(props) {
            Some(t) => {
                if t > min_w {
                    min_w = t;
                }
            },
            None => {},
        }
    } else {
        match &frame.header {
            Some(e) => {
                let (hw, hh) = e.min_size_constrained(None, None);
                if hw > min_w {
                    min_w = hw;
                }
                min_h = min_h.saturating_add(if hh < 1 { 1 } else { hh });
            },
            None => {},
        }
        if props.status.is_some() || props.status_center.is_some() || props.status_right.is_some() {
            let w = status_width_exec(props);
            if w > min_w {
                min_w = w;
            }
            min_h = min_h.saturating_add(1);
        }
    }
    min_h = min_h.saturating_add(1);
    let out = props.decoration_outside_padding();
    min_w = min_w.saturating_add(out.horizontal());
    min_h = min_h.saturating_add(out.vertical());
    let inset = props.decoration_border_content_inset();
    min_w = min_w.saturating_add(inset.horizontal());
    min_h = min_h.saturating_add(inset.vertical());
    (min_w, min_h)
}

/// The room the inside of a frame leaves: its own width when fixed (a
/// percent of the bound when the bound is known), less decorations, border
/// and padding.
pub open spec fn frame_inner_width_cap(props: FrameNode, outer: int) -> int {
    let bw = if props.border { props.border_edges.spec_padding().spec_horizontal() } else { 0 };
    sat_sub_u16(
        sat_sub_u16(sat_sub_u16(sat_sub_u16(outer, props.spec_outside_padding().spec_horizontal()), bw), props.padding.spec_horizontal()),
        props.spec_border_deco_inset().spec_horizontal(),
    )
}

/// The bounds a frame's child is measured in; see [`frame_inner_max_size`].
pub open spec fn spec_frame_inner_max_size(frame: Frame, max_w: Option<u16>, max_h: Option<u16>) -> (Option<u16>, Option<u16>) {
    let props = frame.props;
    let g = spec_frame_geometry(props, Rect { x: 0, y: 0, w: 0, h: 0 }, FrameJoinOverlap { left: false, top: false }, true);
    let (w, h) = g.spec_inner_max_size(max_w, max_h);
    let capped = |cap: int|
        match w {
            Some(x) => Some(if x < cap { x } else { cap as u16 }),
            None => Some(cap as u16),
        };
    match props.width {
        Length::Px(px) => (capped(frame_inner_width_cap(props, px as int)), h),
        Length::Percent(p) => match max_w {
            Some(pw) => (capped(frame_inner_width_cap(props, pw * (if p > 100 { 100 } else { p as int }) / 100)), h),
            None => (w, h),
        },
        _ => (w, h),
    }
}

/// The bounds a frame's child is measured in: the frame's inner size within
/// the bounds, cut to its own inner width when its width is fixed or a
/// percent of a known bound.
pub fn frame_inner_max_size(frame: &Frame, max_w: Option<u16>, max_h: Option<u16>) -> (r: (Option<u16>, Option<u16>))
    ensures
        r == spec_frame_inner_max_size(*frame, max_w, max_h),
{
    let props = &frame.props;
    let g = compute_frame_geometry(props, Rect { x: 0, y: 0, w: 0, h: 0 }, FrameJoinOverlap { left: false, top: false }, true);
    let (w, h) = g.inner_max_size(max_w, max_h);
    let bw: u16 = if props.has_border() { props.border_edges.padding().horizontal() } else { 0 };
    let cap_of = |outer: u16| -> (c: u16)
        ensures
            c == frame_inner_width_cap(*props, outer as int),
        {
            outer.saturating_sub(g.decoration_outside.horizontal()).saturating_sub(bw).saturating_sub(
                props.padding.horizontal(),
            ).saturating_sub(g.border_deco_inset.horizontal())
        };
    match props.width {
        Length::Px(px) => {
            let cap = cap_of(px);
            (Some(match w {
                Some(x) => if x < cap { x } else { cap },
                None => cap,
            }), h)
        },
        Length::Percent(p) => match max_w {
            Some(pw) => {
                let pm: u32 = if p > 100 { 100 } else { p as u32 };
                assert(pw as u32 * pm / 100 <= pw) by (nonlinear_arith)
                    requires pm <= 100;
                let cap = cap_of((pw as u32 * pm / 100) as u16);
                (Some(match w {
                    Some(x) => if x < cap { x } else { cap },
                    None => cap,
                }), h)
            },
            None => (w, h),
        },
        _ => (w, h),
    }
}


/// The outer size a frame measures to: its content (child and header) with
/// padding, border decorations, a borderless header and status row, the
/// border and its top line, and outside decorations; a fixed size (or a
/// percent of a known bound) replaces the measured one.
pub open spec fn spec_measure_size(frame: Frame, max_w: Option<u16>, max_h: Option<u16>) -> (int, int) {
    let props = frame.props;
    let inset = props.spec_border_deco_inset();
    let out = props.spec_outside_padding();
    let (cw, ch) = match frame.child {
        Some(c) => (c.min_w as int, c.min_h as int),
        None => (0, 0),
    };
    let (hw, hh) = match frame.header {
        Some(e) => (e.min_w as int, e.min_h as int),
        None => (0, 0),
    };
    let w0 = sat_add_u16(sat_add_u16(max_of(cw, hw), props.padding.spec_horizontal()), inset.spec_horizontal());
    let h0 = sat_add_u16(sat_add_u16(ch, props.padding.spec_vertical()), inset.spec_vertical());
    let h1 = if frame.header is Some && !props.border { sat_add_u16(h0, max_of(hh, 1)) } else { h0 };
    let has_status = props.status is Some || props.status_center is Some || props.status_right is Some;
    let w1 = if has_status { max_of(w0, status_width(props)) } else { w0 };
    let h2 = if has_status && !props.border { sat_add_u16(h1, 1) } else { h1 };
    let bp = props.spec_border_padding();
    let (w3, h3) = if props.border {
        let wt = match title_line_width(props) {
            Some(t) => max_of(w1, t),
            None => w1,
        };
        (sat_add_u16(wt, bp.spec_horizontal()), sat_add_u16(h2, bp.spec_vertical()))
    } else {
        (w1, h2)
    };
    let w4 = sat_add_u16(w3, out.spec_horizontal());
    let h4 = sat_add_u16(h3, out.spec_vertical());
    let w5 = match props.width {
        Length::Px(px) => px as int,
        Length::Percent(p) => match max_w {
            Some(pw) => pw * (if p > 100 { 100 } else { p as int }) / 100,
            None => w4,
        },
        _ => w4,
    };
    let h5 = match props.height {
        Length::Px(px) => px as int,
        Length::Percent(p) => match max_h {
            Some(ph) => ph * (if p > 100 { 100 } else { p as int }) / 100,
            None => h4,
        },
        _ => h4,
    };
    (w5, h5)
}

fn measured_size(frame: &Frame, max_w: Option<u16>, max_h: Option<u16>) -> (r: (u16, u16))
    ensures
        r.0 == spec_measure_size(*frame, max_w, max_h).0,
        r.1 == spec_measure_size(*frame, max_w, max_h).1,
{
    let props = &frame.props;
    let out = props.decoration_outside_padding();
    let inset = props.decoration_border_content_inset();
    let (inner_max_w, inner_max_h) = frame_inner_max_size(frame, max_w, max_h);
    let (cw, ch): (u16, u16) = match &frame.child {
        Some(c) => c.min_size_constrained(inner_max_w, inner_max_h),
        None => (0, 0),
    };
    let (hw, hh): (u16, u16) = match &frame.header {
        Some(e) => e.min_size_constrained(None, None),
        None => (0, 0),
    };
    let mut inner_w: u16 = (if cw >= hw { cw } else { hw }).saturating_add(props.padding.horizontal()).saturating_add(
        inset.horizontal(),
    );
    let mut inner_h: u16 = ch.saturating_add(props.padding.vertical()).saturating_add(inset.vertical());
    if frame.header.is_some() && !props.has_border() {
        inner_h = inner_h.saturating_add(if hh < 1 { 1 } else { hh });
    }
    let has_status = props.status.is_some() || props.status_center.is_some() || props.status_right.is_some();
    if has_status {
        let w = status_width_exec(props);
        if w > inner_w {
            inner_w = w;
        }
        if !props.has_border() {
            inner_h = inner_h.saturating_add(1);
        }
    }
    let mut outer_w = inner_w;
    let mut outer_h = inner_h;
    if props.has_border() {
        match title_line_width_exec(props) {
            Some(t) => {
                if t > outer_w {
                    outer_w = t;
                }
            },
            None => {},
        }
        let bp = props.border_padding();
        outer_w = outer_w.saturating_add(bp.horizontal());
        outer_h = outer_h.saturating_add(bp.vertical());
    }
    outer_w = outer_w.saturating_add(out.horizontal());
    outer_h = outer_h.saturating_add(out.vertical());
    match props.width {
        Length::Px(px) => {
            outer_w = px;
        },
        Length::Percent(p) => {
            if let Some(pw) = max_w {
                let pm: u32 = if p > 100 { 100 } else { p as u32 };
                assert(pw as u32 * pm / 100 <= pw) by (nonlinear_arith)
                    requires pm <= 100;
                outer_w = (pw as u32 * pm / 100) as u16;
            }
        },
        _ => {},
    }
    match props.height {
        Length::Px(px) => {
            outer_h = px;
        },
        Length::Percent(p) => {
            if let Some(ph) = max_h {
                let pm: u32 = if p > 100 { 100 } else { p as u32 };
                assert(ph as u32 * pm / 100 <= ph) by (nonlinear_arith)
                    requires pm <= 100;
                outer_h = (ph as u32 * pm / 100) as u16;
            }
        },
        _ => {},
    }
    (outer_w, outer_h)
}

/// The plan of a frame measured within optional bounds, placed at the
/// origin; see [`spec_measure_size`].
pub fn measure_frame(frame: &Frame, max_w: Option<u16>, max_h: Option<u16>) -> (g: FrameGeometry)
    ensures
        g == spec_frame_geometry(
            frame.props,
            Rect {
                x: 0,
                y: 0,
                w: spec_measure_size(*frame, max_w, max_h).0 as u16,
                h: spec_measure_size(*frame, max_w, max_h).1 as u16,
            },
            FrameJoinOverlap { left: false, top: false },
            true,
        ),
        g.outer_rect.w == spec_measure_size(*frame, max_w, max_h).0,
        g.outer_rect.h == spec_measure_size(*frame, max_w, max_h).1,
{
    let (w, h) = measured_size(frame, max_w, max_h);
    compute_frame_geometry(&frame.props, Rect { x: 0, y: 0, w, h }, FrameJoinOverlap { left: false, top: false }, true)
}

/// The minimum size a frame asks of its parent: along a flexible width only
/// its decorations, along a flexible (or percent) height its chrome;
/// otherwise its measured size.
pub open spec fn spec_frame_min_size(frame: Frame) -> (int, int) {
    let props = frame.props;
    let measured = spec_measure_size(frame, None, None);
    (
        if props.width is Flex {
            sat_add_u16(props.spec_outside_padding().spec_horizontal(), props.spec_border_deco_inset().spec_horizontal())
        } else {
            measured.0
        },
        if props.height is Flex || props.height is Percent {
            spec_frame_chrome(frame).1
        } else {
            measured.1
        },
    )
}

impl Frame {
    /// The minimum size the frame asks of its parent; see
    /// [`spec_frame_min_size`].
    pub fn min_size(&self) -> (r: (u16, u16))
        ensures
            r.0 == spec_frame_min_size(*self).0,
            r.1 == spec_frame_min_size(*self).1,
    {
        let g = measure_frame(self, None, None);
        let (_, chrome_h) = measure_frame_chrome(self);
        let w = if matches!(self.props.width, Length::Flex(_)) {
            self.props.decoration_outside_padding().horizontal().saturating_add(
                self.props.decoration_border_content_inset().horizontal(),
            )
        } else {
            g.outer_size().0
        };
        let h = if matches!(self.props.height, Length::Flex(_) | Length::Percent(_)) {
            chrome_h
        } else {
            g.outer_size().1
        };
        (w, h)
    }
}

/// A bordered frame's border is its outline: with all edges drawn, a cell
/// is on it exactly when it is in the first or last column or row of the
/// frame's rect; cells strictly inside are not, and a frame without a
/// border has none. (The rect is taken where its far edges stay in the
/// `i16` range.)
pub proof fn law_on_border(f: FrameNode, x: int, y: int, rect: Rect)
    requires
        0 < rect.w <= i16::MAX && 0 < rect.h <= i16::MAX,
        rect.x + rect.w <= i16::MAX,
        rect.y + rect.h <= i16::MAX,
    ensures
        !f.border ==> !spec_on_border(f, x, y, rect),
        (f.border && f.border_edges == BorderEdges::All) ==> (spec_on_border(f, x, y, rect) <==> (x == rect.x || x
            == rect.x + rect.w - 1 || y == rect.y || y == rect.y + rect.h - 1)),
        (rect.x < x < rect.x + rect.w - 1 && rect.y < y < rect.y + rect.h - 1) ==> !spec_on_border(f, x, y, rect),
{
}

} // verus!
