//! What a file tree shows: each entry as a row of spans (icon, label with
//! explorer matches, git description), nested as the tree widget draws it,
//! together with the lookup from row positions back to entries.

use vstd::prelude::*;

use crate::changed_tree::FsNode;
use crate::file_icon::{file_name_of, lookup_override, override_for, path_file_name, spec_icon_with, IconSpan, NerdIcon};
use crate::file_tree::{FileIconStyle, FileKind, FileTreeItemStyle, FileTreeProps, FileTreeSuffixPriority};
use crate::git::{spec_lookup, GitFileDecorations, PathMap};
use crate::lexpath::{set_contains, set_of};
use crate::style::{spans_view, Color, Span, Style};
use crate::tree_row::{
    git_description_spans, highlight_label_spans, spec_description_spans, spec_highlight_spans, spec_status_style,
    status_style,
};

verus! {

/// A row of a list: its spans, the description drawn after them, the row
/// style, and which side gives way first when the row is too narrow.
#[derive(Debug)]
pub struct ListItem {
    pub spans: Vec<Span>,
    pub description_spans: Vec<Span>,
    pub style: Option<Style>,
    pub primary_truncate_description_first: bool,
}

/// A node of the tree widget: a row, whether its children show, how many
/// guide cells are filled before it, and its children.
#[derive(Debug)]
pub struct TreeNode {
    pub item: ListItem,
    pub expanded: bool,
    pub leading_guide_fill_cells: u16,
    pub children: Vec<TreeNode>,
}

/// Which entry a drawn row stands for.
#[derive(Clone, Debug, PartialEq, Eq)]
pub struct VisibleFileTreeEntry {
    pub path: String,
    pub kind: FileKind,
}

/// The explorer's current matches: the matched character indices of each
/// label, and the paths left visible.
#[derive(Debug)]
pub struct ExplorerFilter {
    pub visible_paths: Vec<String>,
    pub expanded_paths: Vec<String>,
    pub label_hits: PathMap<Vec<u32>>,
    pub primary_match_directory: Option<String>,
    pub match_count: usize,
}

/// A filter that holds nothing: no visible or expanded paths, no hits, no
/// primary directory and no matches.
pub open spec fn is_empty_filter(f: ExplorerFilter) -> bool {
    &&& f.visible_paths@.len() == 0
    &&& f.expanded_paths@.len() == 0
    &&& f.label_hits.entries@.len() == 0
    &&& f.primary_match_directory is None
    &&& f.match_count == 0
}

impl Default for ExplorerFilter {
    fn default() -> (r: Self)
        ensures
            is_empty_filter(r),
    {
        ExplorerFilter {
            visible_paths: Vec::new(),
            expanded_paths: Vec::new(),
            label_hits: PathMap::new(),
            primary_match_directory: None,
            match_count: 0,
        }
    }
}

/// Everything a projection reads besides the node itself. `nerd_icons`
/// holds the nerd-font glyph chosen for each path; `root_label` is how the
/// root's path is displayed.
pub struct ProjectionBuildContext<'a> {
    pub props: &'a FileTreeProps,
    pub expanded: &'a Vec<String>,
    pub explorer_filter: Option<&'a ExplorerFilter>,
    pub git_decorations: &'a PathMap<GitFileDecorations>,
    pub path_styles: &'a PathMap<FileTreeItemStyle>,
    pub nerd_icons: &'a PathMap<NerdIcon>,
    pub root_label: &'a String,
}

/// A row as values.
pub struct ItemView {
    pub spans: Seq<(Seq<char>, Style)>,
    pub description: Seq<(Seq<char>, Style)>,
    pub style: Option<Style>,
    pub primary_truncate_description_first: bool,
}

/// A tree node as values.
pub struct TreeView {
    pub item: ItemView,
    pub expanded: bool,
    pub fill: u16,
    pub children: Seq<TreeView>,
}

pub open spec fn item_view(i: ListItem) -> ItemView {
    ItemView {
        spans: spans_view(i.spans@),
        description: spans_view(i.description_spans@),
        style: i.style,
        primary_truncate_description_first: i.primary_truncate_description_first,
    }
}

pub open spec fn tree_view(t: TreeNode) -> TreeView
    decreases t, 0int,
{
    TreeView {
        item: item_view(t.item),
        expanded: t.expanded,
        fill: t.leading_guide_fill_cells,
        children: tree_children_view(t.children@, t.children@.len() as int),
    }
}

pub open spec fn tree_children_view(cs: Seq<TreeNode>, k: int) -> Seq<TreeView>
    decreases cs, k,
{
    if k <= 0 || k > cs.len() {
        Seq::empty()
    } else {
        tree_children_view(cs, k - 1).push(tree_view(cs[k - 1]))
    }
}

/// A lookup entry as values: the row's position in the tree, the entry's
/// path and kind.
pub open spec fn lookup_entry_view(e: (Vec<usize>, VisibleFileTreeEntry)) -> (Seq<usize>, Seq<char>, FileKind) {
    (e.0@, e.1.path@, e.1.kind)
}

pub open spec fn lookup_view(v: Seq<(Vec<usize>, VisibleFileTreeEntry)>) -> Seq<(Seq<usize>, Seq<char>, FileKind)> {
    Seq::new(v.len(), |i: int| lookup_entry_view(v[i]))
}

/// The matched indices of the label at `path`.
pub open spec fn label_hits_for(f: Option<&ExplorerFilter>, path: Seq<char>) -> Option<Seq<u32>> {
    match f {
        Some(filter) => match spec_lookup(filter.label_hits.entries@, path) {
            Some(h) => Some(h@),
            None => None,
        },
        None => None,
    }
}

/// Whether the explorer leaves `path` visible.
pub open spec fn is_visible(f: Option<&ExplorerFilter>, path: Seq<char>) -> bool {
    match f {
        Some(filter) => set_of(filter.visible_paths@).contains(path),
        None => true,
    }
}

/// The nerd-font glyph and colour chosen for `path`; an empty glyph when
/// none was chosen.
pub open spec fn nerd_icon_for(icons: PathMap<NerdIcon>, path: Seq<char>) -> (Seq<char>, Option<Color>) {
    match spec_lookup(icons.entries@, path) {
        Some(n) => (n.glyph@, n.color),
        None => (Seq::empty(), None),
    }
}

/// Whether the rows draw nerd-font arrows that follow the tree guides.
pub open spec fn guide_aware_arrows(props: FileTreeProps) -> bool {
    props.show_icons && props.show_arrows && (props.icon_style == FileIconStyle::NerdFont || props.icon_style
        == FileIconStyle::NerdFontColored)
}

/// Whether a row fills the arrow gutter with guide cells: a non-root entry
/// that draws no arrow of its own (anything but a directory, or a directory
/// with an icon override) when arrows follow the guides.
pub open spec fn needs_arrow_placeholder(node: FsNode, is_root: bool, props: FileTreeProps) -> bool {
    guide_aware_arrows(props) && !is_root && (node.kind != FileKind::Directory || override_for(
        props.icon_overrides,
        path_file_name(node.path@),
    ) is Some)
}

/// The label style configured for a kind of entry.
pub open spec fn kind_label_style(kind: FileKind, props: FileTreeProps) -> Style {
    match kind {
        FileKind::Directory => props.directory_label_style,
        FileKind::File => props.file_label_style,
        _ => Style::empty(),
    }
}

/// The style of a row's label: its kind's style, with the change style over
/// it when changed labels are highlighted (not on the root), and the path's
/// own label style over that.
pub open spec fn label_style_of(node: FsNode, is_root: bool, ctx: ProjectionBuildContext) -> Style {
    let props = *ctx.props;
    let base = kind_label_style(node.kind, props);
    let changed = match spec_lookup(ctx.git_decorations.entries@, node.path@) {
        Some(d) => if props.highlight_changed_labels && props.git_status && !is_root {
            base.spec_patch(spec_status_style(d.status, props))
        } else {
            base
        },
        None => base,
    };
    match spec_lookup(ctx.path_styles.entries@, node.path@) {
        Some(ps) => match ps.label {
            Some(l) => changed.spec_patch(l),
            None => changed,
        },
        None => changed,
    }
}

/// The label text: the displayed root path for the root, else the name.
pub open spec fn label_of(node: FsNode, is_root: bool, ctx: ProjectionBuildContext) -> Seq<char> {
    if is_root {
        ctx.root_label@
    } else {
        node.name@
    }
}

/// The icon spans of a row: the icon in its colour (with the path's icon
/// style over it) and a separating space, when icons are shown.
pub open spec fn icon_spans(node: FsNode, is_root: bool, expanded: bool, ctx: ProjectionBuildContext) -> Seq<
    (Seq<char>, Style),
> {
    let props = *ctx.props;
    if props.show_icons {
        let nerd = nerd_icon_for(*ctx.nerd_icons, node.path@);
        let icon = spec_icon_with(node.kind, node.path@, expanded, is_root, props, nerd.0, nerd.1);
        let st0 = Style { fg: icon.1, ..Style::empty() };
        let st = match spec_lookup(ctx.path_styles.entries@, node.path@) {
            Some(ps) => match ps.icon {
                Some(i) => st0.spec_patch(i),
                None => st0,
            },
            None => st0,
        };
        seq![(icon.0, st), (seq![' '], Style::empty())]
    } else {
        Seq::empty()
    }
}

/// The description spans with the global suffix style, then the path's own
/// suffix style, layered over each.
pub open spec fn suffix_styled(spans: Seq<(Seq<char>, Style)>, global: Style, path: Option<Style>) -> Seq<
    (Seq<char>, Style),
> {
    Seq::new(
        spans.len(),
        |i: int|
            (spans[i].0, match path {
                Some(p) => spans[i].1.spec_patch(global).spec_patch(p),
                None => spans[i].1.spec_patch(global),
            }),
    )
}

/// The row of an entry.
pub open spec fn spec_row_item(node: FsNode, is_root: bool, expanded: bool, ctx: ProjectionBuildContext) -> ItemView {
    let props = *ctx.props;
    let ps = spec_lookup(ctx.path_styles.entries@, node.path@);
    let deco = spec_lookup(ctx.git_decorations.entries@, node.path@);
    ItemView {
        spans: icon_spans(node, is_root, expanded, ctx) + spec_highlight_spans(
            label_of(node, is_root, ctx),
            label_hits_for(ctx.explorer_filter, node.path@),
            label_style_of(node, is_root, ctx),
            props.explorer_match_style,
        ),
        description: suffix_styled(
            spec_description_spans(deco, props, node.kind == FileKind::Directory, expanded),
            props.change_suffix_style,
            match ps {
                Some(p) => p.suffix,
                None => None,
            },
        ),
        style: match ps {
            Some(p) => p.row,
            None => None,
        },
        primary_truncate_description_first: props.change_suffix_priority == FileTreeSuffixPriority::Label,
    }
}

/// A childless node showing `text` unstyled.
pub open spec fn text_node(text: Seq<char>) -> TreeView {
    TreeView {
        item: ItemView {
            spans: seq![(text, Style::empty())],
            description: Seq::empty(),
            style: None,
            primary_truncate_description_first: true,
        },
        expanded: false,
        fill: 0,
        children: Seq::empty(),
    }
}

/// How many of the first `k` children the explorer leaves visible.
pub open spec fn visible_count(cs: Seq<FsNode>, k: int, f: Option<&ExplorerFilter>) -> int
    decreases k,
{
    if k <= 0 || k > cs.len() {
        0
    } else {
        visible_count(cs, k - 1, f) + if is_visible(f, cs[k - 1].path@) {
            1int
        } else {
            0int
        }
    }
}

/// Whether a directory's loaded children are shown: it is loaded, not
/// loading, and without an error.
pub open spec fn shows_children(node: FsNode) -> bool {
    node.kind == FileKind::Directory && !node.loading && node.loaded && node.error is None
}

/// The tree node drawn for `node` at tree position `tp`: its row, expanded
/// when its path is expanded, with the arrow gutter filled when needed, and
/// for a directory a loading, unloaded or error placeholder or else its
/// visible children in order.
pub open spec fn spec_projected(node: FsNode, is_root: bool, tp: Seq<usize>, ctx: ProjectionBuildContext) -> TreeView
    decreases node, 0int,
{
    let props = *ctx.props;
    let expanded = set_of(ctx.expanded@).contains(node.path@);
    TreeView {
        item: spec_row_item(node, is_root, expanded, ctx),
        expanded,
        fill: if needs_arrow_placeholder(node, is_root, props) {
            2
        } else {
            0
        },
        children: if node.kind != FileKind::Directory {
            Seq::empty()
        } else if node.loading {
            seq![text_node(props.loading_label@)]
        } else if !node.loaded {
            seq![text_node(seq![' '])]
        } else {
            match node.error {
                Some(e) => seq![text_node(props.error_prefix@ + seq![' '] + e@)],
                None => projected_children(node.children@, node.children@.len() as int, tp, ctx),
            }
        },
    }
}

/// The nodes of the first `k` children the explorer leaves visible, each at
/// the next position below `tp`.
pub open spec fn projected_children(cs: Seq<FsNode>, k: int, tp: Seq<usize>, ctx: ProjectionBuildContext) -> Seq<
    TreeView,
>
    decreases cs, k,
{
    if k <= 0 || k > cs.len() {
        Seq::empty()
    } else {
        let prev = projected_children(cs, k - 1, tp, ctx);
        if is_visible(ctx.explorer_filter, cs[k - 1].path@) {
            prev.push(
                spec_projected(cs[k - 1], false, tp.push(visible_count(cs, k - 1, ctx.explorer_filter) as usize), ctx),
            )
        } else {
            prev
        }
    }
}

/// The lookup entries of `node`'s subtree in preorder: each drawn entry's
/// tree position, path and kind.
pub open spec fn spec_projected_lookup(node: FsNode, tp: Seq<usize>, ctx: ProjectionBuildContext) -> Seq<
    (Seq<usize>, Seq<char>, FileKind),
>
    decreases node, 0int,
{
    seq![(tp, node.path@, node.kind)] + if shows_children(node) {
        lookup_children(node.children@, node.children@.len() as int, tp, ctx)
    } else {
        Seq::empty()
    }
}

pub open spec fn lookup_children(cs: Seq<FsNode>, k: int, tp: Seq<usize>, ctx: ProjectionBuildContext) -> Seq<
    (Seq<usize>, Seq<char>, FileKind),
>
    decreases cs, k,
{
    if k <= 0 || k > cs.len() {
        Seq::empty()
    } else {
        let prev = lookup_children(cs, k - 1, tp, ctx);
        if is_visible(ctx.explorer_filter, cs[k - 1].path@) {
            prev + spec_projected_lookup(
                cs[k - 1],
                tp.push(visible_count(cs, k - 1, ctx.explorer_filter) as usize),
                ctx,
            )
        } else {
            prev
        }
    }
}

fn copy_span(s: &Span) -> (r: Span)
    ensures
        r.content@ == s.content@,
        r.style == s.style,
{
    Span { content: s.content.clone(), style: s.style }
}

fn append_spans(dst: &mut Vec<Span>, src: &Vec<Span>)
    ensures
        spans_view(final(dst)@) == spans_view(old(dst)@) + spans_view(src@),
{
    let ghost start = spans_view(dst@);
    let mut i: usize = 0;
    while i < src.len()
        invariant
            i <= src@.len(),
            spans_view(dst@) == start + spans_view(src@).subrange(0, i as int),
        decreases src@.len() - i,
    {
        let ghost before = dst@;
        dst.push(copy_span(&src[i]));
        proof {
            assert(spans_view(dst@) =~= spans_view(before).push((src@[i as int].content@, src@[i as int].style)));
            assert(spans_view(src@).subrange(0, i + 1) =~= spans_view(src@).subrange(0, i as int).push(
                spans_view(src@)[i as int],
            ));
        }
        i = i + 1;
    }
    proof {
        assert(spans_view(src@).subrange(0, src@.len() as int) =~= spans_view(src@));
    }
}

/// Layers the global suffix style, then the path's own, over each span.
pub fn apply_suffix_style(spans: &mut Vec<Span>, global_style: Style, path_style: Option<Style>)
    ensures
        spans_view(final(spans)@) == suffix_styled(spans_view(old(spans)@), global_style, path_style),
{
    let ghost start = spans_view(spans@);
    let mut out: Vec<Span> = Vec::new();
    let mut i: usize = 0;
    while i < spans.len()
        invariant
            i <= spans@.len(),
            start == spans_view(spans@),
            spans_view(out@) == suffix_styled(start, global_style, path_style).subrange(0, i as int),
        decreases spans@.len() - i,
    {
        let sp = &spans[i];
        let mut style = sp.style.patch(global_style);
        if let Some(ps) = path_style {
            style = style.patch(ps);
        }
        let ghost before = out@;
        out.push(Span { content: sp.content.clone(), style });
        proof {
            assert(spans_view(out@) =~= spans_view(before).push((sp.content@, style)));
            assert(suffix_styled(start, global_style, path_style).subrange(0, i + 1) =~= suffix_styled(
                start,
                global_style,
                path_style,
            ).subrange(0, i as int).push(suffix_styled(start, global_style, path_style)[i as int]));
        }
        i = i + 1;
    }
    proof {
        assert(suffix_styled(start, global_style, path_style).subrange(0, spans@.len() as int) =~= suffix_styled(
            start,
            global_style,
            path_style,
        ));
    }
    *spans = out;
}

fn nerd_icon_of(icons: &PathMap<NerdIcon>, path: &str) -> (r: NerdIcon)
    ensures
        (r.glyph@, r.color) == nerd_icon_for(*icons, path@),
{
    match icons.position(path) {
        Some(i) => {
            let n = &icons.entries[i].1;
            NerdIcon { glyph: n.glyph.clone(), color: n.color }
        },
        None => NerdIcon { glyph: String::new(), color: None },
    }
}

/// The label style of a row; see [`label_style_of`].
fn label_style(node: &FsNode, is_root: bool, ctx: &ProjectionBuildContext) -> (r: Style)
    ensures
        r == label_style_of(*node, is_root, *ctx),
{
    let props = ctx.props;
    let base = match node.kind {
        FileKind::Directory => props.directory_label_style,
        FileKind::File => props.file_label_style,
        _ => Style::new(),
    };
    let changed = match ctx.git_decorations.get(node.path.as_str()) {
        Some(d) => if props.highlight_changed_labels && props.git_status && !is_root {
            base.patch(status_style(d.status, props))
        } else {
            base
        },
        None => base,
    };
    match ctx.path_styles.get(node.path.as_str()) {
        Some(ps) => match ps.label {
            Some(l) => changed.patch(l),
            None => changed,
        },
        None => changed,
    }
}

/// The row drawn for `node`; see [`spec_row_item`].
pub fn build_row_item(node: &FsNode, is_root: bool, expanded: bool, ctx: &ProjectionBuildContext) -> (r: ListItem)
    ensures
        item_view(r) == spec_row_item(*node, is_root, expanded, *ctx),
{
    let props = ctx.props;
    let path = node.path.as_str();
    let ps = ctx.path_styles.get(path);
    let mut spans: Vec<Span> = Vec::new();
    let ghost icons = icon_spans(*node, is_root, expanded, *ctx);
    if props.show_icons {
        let nerd = nerd_icon_of(ctx.nerd_icons, path);
        let icon = node.kind.icon(path, expanded, is_root, props, &nerd);
        let st0 = Style { fg: icon.fg, ..Style::new() };
        let st = match ps {
            Some(p) => match p.icon {
                Some(i) => st0.patch(i),
                None => st0,
            },
            None => st0,
        };
        spans.push(Span { content: icon.text, style: st });
        spans.push(Span::new(" "));
        proof {
            reveal_strlit(" ");
            assert(" "@ =~= seq![' ']);
            let nerd_s = nerd_icon_for(*ctx.nerd_icons, node.path@);
            let icon_s = spec_icon_with(node.kind, node.path@, expanded, is_root, *props, nerd_s.0, nerd_s.1);
            assert(icon.text@ == icon_s.0);
            assert(icon.fg == icon_s.1);
            assert(st0 == Style { fg: icon_s.1, ..Style::empty() });
            assert(spans_view(spans@)[0] == (icon.text@, st));
            assert(spans_view(spans@) =~= icons);
        }
    } else {
        proof {
            assert(spans_view(spans@) =~= icons);
        }
    }
    let label = if is_root { ctx.root_label.clone() } else { node.name.clone() };
    let lstyle = label_style(node, is_root, ctx);
    let hits: Option<&[u32]> = match ctx.explorer_filter {
        Some(f) => match f.label_hits.position(path) {
            Some(i) => Some(f.label_hits.entries[i].1.as_slice()),
            None => None,
        },
        None => None,
    };
    let highlighted = highlight_label_spans(label.as_str(), hits, lstyle, props.explorer_match_style);
    append_spans(&mut spans, &highlighted);
    let mut description = git_description_spans(
        ctx.git_decorations.get(path),
        props,
        node.is_dir(),
        expanded,
    );
    let suffix = match ps {
        Some(p) => p.suffix,
        None => None,
    };
    apply_suffix_style(&mut description, props.change_suffix_style, suffix);
    let truncate = match props.change_suffix_priority {
        FileTreeSuffixPriority::Label => true,
        FileTreeSuffixPriority::Suffix => false,
    };
    ListItem {
        spans,
        description_spans: description,
        style: match ps {
            Some(p) => p.row,
            None => None,
        },
        primary_truncate_description_first: truncate,
    }
}

pub proof fn lemma_tree_children_view(cs: Seq<TreeNode>, k: int)
    requires
        0 <= k <= cs.len(),
    ensures
        tree_children_view(cs, k) == Seq::new(k as nat, |i: int| tree_view(cs[i])),
    decreases k,
{
    if k > 0 {
        lemma_tree_children_view(cs, k - 1);
    }
    assert(tree_children_view(cs, k) =~= Seq::new(k as nat, |i: int| tree_view(cs[i])));
}

fn text_tree_node(text: String) -> (r: TreeNode)
    ensures
        tree_view(r) == text_node(text@),
{
    let t = TreeNode {
        item: ListItem {
            spans: vec![Span { content: text, style: Style::new() }],
            description_spans: Vec::new(),
            style: None,
            primary_truncate_description_first: true,
        },
        expanded: false,
        leading_guide_fill_cells: 0,
        children: Vec::new(),
    };
    proof {
        assert(spans_view(t.item.spans@) =~= seq![(text@, Style::empty())]);
        assert(spans_view(t.item.description_spans@) =~= Seq::<(Seq<char>, Style)>::empty());
        assert(tree_children_view(t.children@, 0) =~= Seq::<TreeView>::empty());
    }
    t
}

fn copy_indices(v: &Vec<usize>) -> (r: Vec<usize>)
    ensures
        r@ == v@,
{
    let mut r: Vec<usize> = Vec::new();
    let mut i: usize = 0;
    while i < v.len()
        invariant
            i <= v@.len(),
            r@ == v@.subrange(0, i as int),
        decreases v@.len() - i,
    {
        r.push(v[i]);
        i = i + 1;
    }
    proof {
        assert(r@ =~= v@);
    }
    r
}

fn visible(ctx: &ProjectionBuildContext, path: &str) -> (r: bool)
    ensures
        r == is_visible(ctx.explorer_filter, path@),
{
    match ctx.explorer_filter {
        Some(f) => set_contains(&f.visible_paths, path),
        None => true,
    }
}

fn arrow_placeholder(node: &FsNode, is_root: bool, props: &FileTreeProps) -> (r: bool)
    ensures
        r == needs_arrow_placeholder(*node, is_root, *props),
{
    let aware = props.show_icons && props.show_arrows && (props.icon_style == FileIconStyle::NerdFont
        || props.icon_style == FileIconStyle::NerdFontColored);
    if !aware || is_root {
        return false;
    }
    if !node.is_dir() {
        return true;
    }
    let name = file_name_of(node.path.as_str());
    lookup_override(&props.icon_overrides, &name).is_some()
}

fn project_children(
    node: &FsNode,
    tree_path: &Vec<usize>,
    ctx: &ProjectionBuildContext,
    lookup: &mut Vec<(Vec<usize>, VisibleFileTreeEntry)>,
) -> (r: Vec<TreeNode>)
    ensures
        tree_children_view(r@, r@.len() as int) == projected_children(
            node.children@,
            node.children@.len() as int,
            tree_path@,
            *ctx,
        ),
        lookup_view(final(lookup)@) == lookup_view(old(lookup)@) + lookup_children(
            node.children@,
            node.children@.len() as int,
            tree_path@,
            *ctx,
        ),
    decreases node, 0int,
{
    let ghost start = lookup_view(lookup@);
    let ghost cs = node.children@;
    let mut out: Vec<TreeNode> = Vec::new();
    let mut display: usize = 0;
    let mut k: usize = 0;
    proof {
        assert(tree_children_view(out@, 0) =~= Seq::<TreeView>::empty());
        assert(lookup_view(lookup@) =~= start + Seq::<(Seq<usize>, Seq<char>, FileKind)>::empty());
    }
    while k < node.children.len()
        invariant
            k <= cs.len(),
            cs == node.children@,
            display as int == visible_count(cs, k as int, ctx.explorer_filter),
            display <= k,
            tree_children_view(out@, out@.len() as int) == projected_children(cs, k as int, tree_path@, *ctx),
            lookup_view(lookup@) == start + lookup_children(cs, k as int, tree_path@, *ctx),
        decreases cs.len() - k,
    {
        let child = &node.children[k];
        if visible(ctx, child.path.as_str()) {
            let mut cp = copy_indices(tree_path);
            cp.push(display);
            let ghost lk_before = lookup_view(lookup@);
            let t = build_projected_tree_node(child, false, cp, ctx, lookup);
            let ghost before = out@;
            out.push(t);
            proof {
                lemma_tree_children_view(before, before.len() as int);
                lemma_tree_children_view(out@, out@.len() as int);
                assert(tree_children_view(out@, out@.len() as int) =~= tree_children_view(before, before.len() as int).push(
                    tree_view(t),
                ));
                assert(lookup_view(lookup@) =~= start + lookup_children(cs, k + 1, tree_path@, *ctx));
            }
            display = display + 1;
        } else {
            proof {
                assert(lookup_children(cs, k + 1, tree_path@, *ctx) == lookup_children(cs, k as int, tree_path@, *ctx));
            }
        }
        k = k + 1;
    }
    out
}

/// The tree node drawn for `node` at tree position `tree_path`, recording
/// each drawn entry in `lookup`; see [`spec_projected`] and
/// [`spec_projected_lookup`].
pub fn build_projected_tree_node(
    node: &FsNode,
    is_root: bool,
    tree_path: Vec<usize>,
    ctx: &ProjectionBuildContext,
    lookup: &mut Vec<(Vec<usize>, VisibleFileTreeEntry)>,
) -> (r: TreeNode)
    ensures
        tree_view(r) == spec_projected(*node, is_root, tree_path@, *ctx),
        lookup_view(final(lookup)@) == lookup_view(old(lookup)@) + spec_projected_lookup(*node, tree_path@, *ctx),
    decreases node, 1int,
{
    let ghost start = lookup_view(lookup@);
    lookup.push((copy_indices(&tree_path), VisibleFileTreeEntry { path: node.path.clone(), kind: node.kind }));
    proof {
        assert(lookup_view(lookup@) =~= start + seq![(tree_path@, node.path@, node.kind)]);
    }
    let expanded = set_contains(ctx.expanded, node.path.as_str());
    let item = build_row_item(node, is_root, expanded, ctx);
    let fill: u16 = if arrow_placeholder(node, is_root, ctx.props) { 2 } else { 0 };
    let props = ctx.props;
    let mut children: Vec<TreeNode> = Vec::new();
    let ghost mid = lookup_view(lookup@);
    if node.is_dir() {
        if node.loading {
            children.push(text_tree_node(props.loading_label.clone()));
        } else if !node.loaded {
            proof {
                reveal_strlit(" ");
                assert(" "@ =~= seq![' ']);
            }
            children.push(text_tree_node(String::from_str(" ")));
        } else if let Some(e) = &node.error {
            let mut text = props.error_prefix.clone();
            text.append(" ");
            text.append(e.as_str());
            proof {
                reveal_strlit(" ");
                assert(" "@ =~= seq![' ']);
            }
            children.push(text_tree_node(text));
        } else {
            children = project_children(node, &tree_path, ctx, lookup);
        }
    }
    let t = TreeNode { item, expanded, leading_guide_fill_cells: fill, children };
    proof {
        lemma_tree_children_view(t.children@, t.children@.len() as int);
        if !shows_children(*node) {
            assert(lookup_view(lookup@) == mid);
            assert(lookup_view(lookup@) =~= start + spec_projected_lookup(*node, tree_path@, *ctx));
        } else {
            assert(lookup_view(lookup@) =~= start + spec_projected_lookup(*node, tree_path@, *ctx));
        }
        assert(tree_view(t).children =~= spec_projected(*node, is_root, tree_path@, *ctx).children);
    }
    t
}

/// A directory's projected children are its children the explorer leaves
/// visible, in order: as many as are visible, and the visible child `j`
/// projected at position `tp ++ [v]`, `v` counting the visible children
/// before it.
#[verifier::rlimit(40)]
pub proof fn lemma_projected_children_in_order(cs: Seq<FsNode>, k: int, tp: Seq<usize>, ctx: ProjectionBuildContext)
    requires
        0 <= k <= cs.len(),
    ensures
        projected_children(cs, k, tp, ctx).len() == visible_count(cs, k, ctx.explorer_filter),
        forall|j: int|
            0 <= j < k && is_visible(ctx.explorer_filter, cs[j].path@) ==> projected_children(cs, k, tp, ctx)[visible_count(
                cs,
                j,
                ctx.explorer_filter,
            )] == spec_projected(
                #[trigger] cs[j],
                false,
                tp.push(visible_count(cs, j, ctx.explorer_filter) as usize),
                ctx,
            ),
    decreases k,
{
    if k > 0 {
        lemma_projected_children_in_order(cs, k - 1, tp, ctx);
        lemma_visible_count_bounds(cs, k - 1, ctx.explorer_filter);
        let f = ctx.explorer_filter;
        let prev = projected_children(cs, k - 1, tp, ctx);
        let cur = projected_children(cs, k, tp, ctx);
        let vis = is_visible(f, cs[k - 1].path@);
        let last = spec_projected(cs[k - 1], false, tp.push(visible_count(cs, k - 1, f) as usize), ctx);
        assert(vis ==> cur == prev.push(last));
        assert(!vis ==> cur == prev);
        assert(prev.len() == visible_count(cs, k - 1, f));
        assert forall|j: int| 0 <= j < k && is_visible(f, cs[j].path@) implies cur[visible_count(cs, j, f)]
            == spec_projected(#[trigger] cs[j], false, tp.push(visible_count(cs, j, f) as usize), ctx) by {
            lemma_visible_count_bounds(cs, j, f);
            if j < k - 1 {
                lemma_visible_count_monotone(cs, j + 1, k - 1, f);
                assert(visible_count(cs, j + 1, f) == visible_count(cs, j, f) + 1);
                assert(visible_count(cs, j, f) < prev.len());
                if vis {
                    let v = visible_count(cs, j, f);
                    assert(prev.push(last)[v] == prev[v]);
                    assert(cur[v] == prev[v]);
                }
            } else {
                assert(j == k - 1 && vis);
                assert(cur[prev.len() as int] == last);
            }
        }
    }
}

proof fn lemma_visible_count_bounds(cs: Seq<FsNode>, k: int, f: Option<&ExplorerFilter>)
    requires
        0 <= k <= cs.len(),
    ensures
        0 <= visible_count(cs, k, f) <= k,
    decreases k,
{
    if k > 0 {
        lemma_visible_count_bounds(cs, k - 1, f);
    }
}

proof fn lemma_visible_count_monotone(cs: Seq<FsNode>, a: int, b: int, f: Option<&ExplorerFilter>)
    requires
        0 <= a <= b <= cs.len(),
    ensures
        visible_count(cs, a, f) <= visible_count(cs, b, f),
    decreases b - a,
{
    if a < b {
        lemma_visible_count_monotone(cs, a, b - 1, f);
    }
}

/// A row's label reads the root label on the root and the entry's name
/// elsewhere; with no change recorded and no style set for its path, it is
/// drawn in the label style configured for its kind (directories and files
/// each their own, other entries plainly), and a changed entry's label takes
/// its change style over that only when changed labels are highlighted and
/// statuses shown.
pub proof fn law_row_label(node: FsNode, is_root: bool, ctx: ProjectionBuildContext)
    ensures
        label_of(node, is_root, ctx) == if is_root { ctx.root_label@ } else { node.name@ },
        (spec_lookup(ctx.git_decorations.entries@, node.path@) is None && spec_lookup(ctx.path_styles.entries@, node.path@)
            is None) ==> label_style_of(node, is_root, ctx) == match node.kind {
            FileKind::Directory => ctx.props.directory_label_style,
            FileKind::File => ctx.props.file_label_style,
            _ => Style::empty(),
        },
        (spec_lookup(ctx.path_styles.entries@, node.path@) is None && !(ctx.props.highlight_changed_labels
            && ctx.props.git_status)) ==> label_style_of(node, is_root, ctx) == match node.kind {
            FileKind::Directory => ctx.props.directory_label_style,
            FileKind::File => ctx.props.file_label_style,
            _ => Style::empty(),
        },
{
}

} // verus!
