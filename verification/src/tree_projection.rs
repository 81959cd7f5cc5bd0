//! The file tree's whole projection: which tree is shown (the loaded tree or
//! the changed-only tree), which directories are expanded, the styles each
//! path resolves to, the drawn tree, and which row each path lands on.

use vstd::prelude::*;

use crate::changed_tree::{
    build_changed_only_root, children_view, fs_view, lemma_children_view, spec_changed_only_root, FsNode, FsTree,
    GitStatusSnapshot,
};
use crate::file_icon::NerdIcon;
use crate::file_tree::{FileKind, FileTreeChangeView, FileTreeItemStyle, FileTreeProps};
use crate::git::{spec_lookup, PathMap};
use crate::lexpath::{
    ancestors_under, insert_path_with_ancestors, insert_unique, resolve_path_under_root, set_of,
    spec_resolve_under_root,
};
use crate::projection::{
    build_projected_tree_node, lemma_tree_children_view, lookup_view, spec_projected, spec_projected_lookup,
    tree_children_view, tree_view, ExplorerFilter, ProjectionBuildContext, TreeNode, TreeView,
    VisibleFileTreeEntry,
};
use crate::wrap::strings_view;

verus! {

/// A file tree's state: the loaded tree, the expanded directories and the
/// latest change snapshot (what a projection reads), with the bookkeeping of
/// git loads (the generation a pending load must match, the last refresh
/// nonce acted on, the signature of the changes last auto-expanded) and of
/// the explorer (its input, the id of the latest query, the filter it gave,
/// the expanded set before the search began and the directory to reopen
/// when the search is cleared).
#[derive(Debug)]
pub struct FileTreeState {
    pub root: FsNode,
    pub root_virtual: bool,
    pub expanded: Vec<String>,
    pub git_snapshot: GitStatusSnapshot,
    pub git_load_generation: u64,
    pub last_git_refresh_nonce: u64,
    pub changed_only_auto_expand_signature: u64,
    pub explorer_text: String,
    pub explorer_cursor: usize,
    pub explorer_anchor: usize,
    pub explorer_query_id: u64,
    pub explorer_filter: ExplorerFilter,
    pub search_expanded_snapshot: Option<Vec<String>>,
    pub search_found_dir: Option<String>,
}

/// Facts from outside the tree a projection needs: the nerd-font glyph of
/// each path, how the root path is displayed, the canonical form of paths
/// that exist on disk, and the kinds of changed paths found on disk.
#[derive(Debug)]
pub struct ProjectionInputs {
    pub nerd_icons: PathMap<NerdIcon>,
    pub root_label: String,
    pub canonical: PathMap<String>,
    pub probed: PathMap<FileKind>,
}

/// A projection: the drawn tree, the entry of each drawn row, the row index
/// of each path, and what it was built from (the shown tree, the expanded
/// paths and the resolved path styles).
#[derive(Debug)]
pub struct FileTreeProjection {
    pub root: TreeNode,
    pub lookup: Vec<(Vec<usize>, VisibleFileTreeEntry)>,
    pub path_to_visible_index: PathMap<usize>,
    pub shown: FsNode,
    pub expanded: Vec<String>,
    pub path_styles: PathMap<FileTreeItemStyle>,
}

/// A deep copy of a node.
pub fn copy_fs_node(n: &FsNode) -> (r: FsNode)
    ensures
        fs_view(r) == fs_view(*n),
    decreases n,
{
    let mut children: Vec<FsNode> = Vec::new();
    let mut i: usize = 0;
    while i < n.children.len()
        invariant
            i <= n.children@.len(),
            children@.len() == i,
            forall|j: int| 0 <= j < i ==> fs_view(#[trigger] children@[j]) == fs_view(n.children@[j]),
        decreases n.children@.len() - i,
    {
        let c = copy_fs_node(&n.children[i]);
        children.push(c);
        i = i + 1;
    }
    let r = FsNode {
        name: n.name.clone(),
        path: n.path.clone(),
        kind: n.kind,
        loaded: n.loaded,
        loading: n.loading,
        error: match &n.error {
            Some(e) => Some(e.clone()),
            None => None,
        },
        children,
    };
    proof {
        lemma_children_view(r.children@, r.children@.len() as int);
        lemma_children_view(n.children@, n.children@.len() as int);
        assert(children_view(r.children@, r.children@.len() as int) =~= children_view(
            n.children@,
            n.children@.len() as int,
        ));
    }
    r
}

/// The style stored for `key` once the first `k` path styles are resolved
/// under `root`: the last one resolving to `key`.
pub open spec fn resolved_style(
    entries: Seq<(String, FileTreeItemStyle)>,
    root: Seq<char>,
    canonical: PathMap<String>,
    k: int,
    key: Seq<char>,
) -> Option<FileTreeItemStyle>
    decreases k,
{
    if k <= 0 || k > entries.len() {
        None
    } else if spec_resolve_under_root(root, entries[k - 1].0@, canonical) == Some(key) {
        Some(entries[k - 1].1)
    } else {
        resolved_style(entries, root, canonical, k - 1, key)
    }
}

/// The path styles keyed by the paths they resolve to under `root`; styles
/// whose path leaves `root` are dropped.
pub fn resolved_path_styles(
    styles: &PathMap<FileTreeItemStyle>,
    root: &str,
    canonical: &PathMap<String>,
) -> (r: PathMap<FileTreeItemStyle>)
    ensures
        forall|key: Seq<char>|
            #[trigger] spec_lookup(r.entries@, key) == resolved_style(
                styles.entries@,
                root@,
                *canonical,
                styles.entries@.len() as int,
                key,
            ),
{
    let mut out: PathMap<FileTreeItemStyle> = PathMap::new();
    let mut k: usize = 0;
    while k < styles.entries.len()
        invariant
            k <= styles.entries@.len(),
            forall|key: Seq<char>|
                #[trigger] spec_lookup(out.entries@, key) == resolved_style(
                    styles.entries@,
                    root@,
                    *canonical,
                    k as int,
                    key,
                ),
        decreases styles.entries@.len() - k,
    {
        let (p, st) = (&styles.entries[k].0, styles.entries[k].1);
        if let Some(resolved) = resolve_path_under_root(root, p.as_str(), canonical) {
            out.insert(resolved, st);
        }
        k = k + 1;
    }
    out
}

/// The reveal and select paths that resolve under `root`, in that order.
pub open spec fn spec_reveal_paths(props: FileTreeProps, root: Seq<char>, canonical: PathMap<String>) -> Seq<
    Seq<char>,
> {
    let first = match props.reveal_path {
        Some(p) => match spec_resolve_under_root(root, p@, canonical) {
            Some(r) => seq![r],
            None => Seq::empty(),
        },
        None => Seq::empty(),
    };
    let second = match props.select_path {
        Some(p) => match spec_resolve_under_root(root, p@, canonical) {
            Some(r) => seq![r],
            None => Seq::empty(),
        },
        None => Seq::empty(),
    };
    first + second
}

/// The reveal and select paths resolved under `root`.
pub fn normalized_reveal_paths(props: &FileTreeProps, root: &str, canonical: &PathMap<String>) -> (r: Vec<String>)
    ensures
        strings_view(r@) == spec_reveal_paths(*props, root@, *canonical),
{
    let mut out: Vec<String> = Vec::new();
    if let Some(p) = &props.reveal_path {
        if let Some(x) = resolve_path_under_root(root, p.as_str(), canonical) {
            out.push(x);
        }
    }
    let ghost mid = strings_view(out@);
    if let Some(p) = &props.select_path {
        if let Some(x) = resolve_path_under_root(root, p.as_str(), canonical) {
            out.push(x);
        }
    }
    proof {
        assert(strings_view(out@) =~= spec_reveal_paths(*props, root@, *canonical));
    }
    out
}

/// The paths of each of `paths` and their ancestors down to `root`.
pub open spec fn reveal_closure(paths: Seq<Seq<char>>, root: Seq<char>, k: int) -> Set<Seq<char>>
    decreases k,
{
    if k <= 0 || k > paths.len() {
        Set::empty()
    } else {
        reveal_closure(paths, root, k - 1) + ancestors_under(paths[k - 1], root)
    }
}

/// The directories shown expanded: the configured set (with the root) when
/// the tree is controlled, else the tree's own; either way with every
/// revealed path and its ancestors.
pub open spec fn spec_effective_expanded(
    props: FileTreeProps,
    expanded: Seq<String>,
    root: Seq<char>,
    canonical: PathMap<String>,
) -> Set<Seq<char>> {
    let reveal = spec_reveal_paths(props, root, canonical);
    let base = match props.expanded_paths {
        Some(ep) => set_of(ep@).insert(root),
        None => set_of(expanded),
    };
    base + reveal_closure(reveal, root, reveal.len() as int)
}

fn copy_strings_into(dst: &mut Vec<String>, src: &Vec<String>)
    ensures
        set_of(final(dst)@) == set_of(old(dst)@) + set_of(src@),
{
    let mut i: usize = 0;
    let ghost start = set_of(dst@);
    while i < src.len()
        invariant
            i <= src@.len(),
            set_of(dst@) == start + set_of(src@.subrange(0, i as int)),
        decreases src@.len() - i,
    {
        insert_unique(dst, src[i].clone());
        proof {
            assert(set_of(src@.subrange(0, i + 1)) =~= set_of(src@.subrange(0, i as int)).insert(src@[i as int]@)) by {
                assert forall|t: Seq<char>| set_of(src@.subrange(0, i + 1)).contains(t) implies set_of(
                    src@.subrange(0, i as int),
                ).insert(src@[i as int]@).contains(t) by {
                    let j = choose|j: int| 0 <= j < i + 1 && (#[trigger] src@.subrange(0, i + 1)[j])@ == t;
                    if j < i {
                        assert(src@.subrange(0, i as int)[j] == src@.subrange(0, i + 1)[j]);
                    }
                }
                assert forall|t: Seq<char>| set_of(src@.subrange(0, i as int)).insert(src@[i as int]@).contains(
                    t,
                ) implies set_of(src@.subrange(0, i + 1)).contains(t) by {
                    if t == src@[i as int]@ {
                        assert(src@.subrange(0, i + 1)[i as int] == src@[i as int]);
                    } else {
                        let j = choose|j: int| 0 <= j < i && (#[trigger] src@.subrange(0, i as int)[j])@ == t;
                        assert(src@.subrange(0, i + 1)[j] == src@.subrange(0, i as int)[j]);
                    }
                }
            }
            assert(set_of(dst@) =~= start + set_of(src@.subrange(0, i + 1)));
        }
        i = i + 1;
    }
    proof {
        assert(src@.subrange(0, src@.len() as int) =~= src@);
    }
}

/// The expanded directories a projection draws; see
/// [`spec_effective_expanded`].
pub fn effective_expanded_paths(
    props: &FileTreeProps,
    expanded: &Vec<String>,
    root: &str,
    canonical: &PathMap<String>,
) -> (r: Vec<String>)
    ensures
        set_of(r@) == spec_effective_expanded(*props, expanded@, root@, *canonical),
{
    let reveal = normalized_reveal_paths(props, root, canonical);
    let mut out: Vec<String> = Vec::new();
    proof {
        assert(set_of(out@) =~= Set::<Seq<char>>::empty());
    }
    match &props.expanded_paths {
        Some(ep) => {
            copy_strings_into(&mut out, ep);
            insert_unique(&mut out, String::from_str(root));
        },
        None => {
            copy_strings_into(&mut out, expanded);
        },
    }
    let ghost base = set_of(out@);
    proof {
        assert(base =~= match props.expanded_paths {
            Some(ep) => set_of(ep@).insert(root@),
            None => set_of(expanded@),
        });
    }
    let ghost rv = strings_view(reveal@);
    let mut i: usize = 0;
    proof {
        assert(set_of(out@) =~= base + reveal_closure(rv, root@, 0));
    }
    while i < reveal.len()
        invariant
            i <= reveal@.len(),
            rv == strings_view(reveal@),
            set_of(out@) == base + reveal_closure(rv, root@, i as int),
        decreases reveal@.len() - i,
    {
        insert_path_with_ancestors(&mut out, reveal[i].as_str(), root);
        proof {
            assert(rv[i as int] == reveal@[i as int]@);
            assert(set_of(out@) =~= base + reveal_closure(rv, root@, i + 1));
        }
        i = i + 1;
    }
    out
}

/// The tree positions of the rows drawn for `t` at `tp`, in order: the row
/// itself, then, when expanded, its children's rows.
pub open spec fn visible_rows(t: TreeView, tp: Seq<usize>) -> Seq<Seq<usize>>
    decreases t, 0int,
{
    seq![tp] + if t.expanded {
        rows_children(t.children, t.children.len() as int, tp)
    } else {
        Seq::empty()
    }
}

pub open spec fn rows_children(cs: Seq<TreeView>, k: int, tp: Seq<usize>) -> Seq<Seq<usize>>
    decreases cs, k,
{
    if k <= 0 || k > cs.len() {
        Seq::empty()
    } else {
        rows_children(cs, k - 1, tp) + visible_rows(cs[k - 1], tp.push((k - 1) as usize))
    }
}

/// The path recorded for tree position `q`, if any.
pub open spec fn lookup_path(lookup: Seq<(Seq<usize>, Seq<char>, FileKind)>, q: Seq<usize>) -> Option<Seq<char>>
    decreases lookup.len(),
{
    if lookup.len() == 0 {
        None
    } else if lookup[0].0 == q {
        Some(lookup[0].1)
    } else {
        lookup_path(lookup.drop_first(), q)
    }
}

/// The last of the first `k` rows whose entry is at `key`.
pub open spec fn row_index_of(
    rows: Seq<Seq<usize>>,
    lookup: Seq<(Seq<usize>, Seq<char>, FileKind)>,
    key: Seq<char>,
    k: int,
) -> Option<int>
    decreases k,
{
    if k <= 0 || k > rows.len() {
        None
    } else if lookup_path(lookup, rows[k - 1]) == Some(key) {
        Some(k - 1)
    } else {
        row_index_of(rows, lookup, key, k - 1)
    }
}

pub open spec fn cap_usize(v: int) -> int {
    if v > usize::MAX { usize::MAX as int } else { v }
}

proof fn lemma_row_index_range(
    rows: Seq<Seq<usize>>,
    lookup: Seq<(Seq<usize>, Seq<char>, FileKind)>,
    key: Seq<char>,
    k: int,
)
    ensures
        row_index_of(rows, lookup, key, k) matches Some(j) ==> 0 <= j < k,
    decreases k,
{
    if k > 0 && k <= rows.len() {
        lemma_row_index_range(rows, lookup, key, k - 1);
    }
}

proof fn lemma_row_index_concat(
    a: Seq<Seq<usize>>,
    b: Seq<Seq<usize>>,
    lookup: Seq<(Seq<usize>, Seq<char>, FileKind)>,
    key: Seq<char>,
    m: int,
)
    requires
        0 <= m <= b.len(),
    ensures
        row_index_of(a + b, lookup, key, a.len() + m) == match row_index_of(b, lookup, key, m) {
            Some(j) => Some(a.len() + j),
            None => row_index_of(a, lookup, key, a.len() as int),
        },
    decreases m,
{
    if m > 0 {
        assert((a + b)[a.len() + m - 1] == b[m - 1]);
        lemma_row_index_concat(a, b, lookup, key, m - 1);
    } else {
        lemma_row_index_prefix(a, b, lookup, key, a.len() as int);
    }
}

proof fn lemma_row_index_prefix(
    a: Seq<Seq<usize>>,
    b: Seq<Seq<usize>>,
    lookup: Seq<(Seq<usize>, Seq<char>, FileKind)>,
    key: Seq<char>,
    k: int,
)
    requires
        0 <= k <= a.len(),
    ensures
        row_index_of(a + b, lookup, key, k) == row_index_of(a, lookup, key, k),
    decreases k,
{
    if k > 0 {
        assert((a + b)[k - 1] == a[k - 1]);
        lemma_row_index_prefix(a, b, lookup, key, k - 1);
    }
}

fn indices_eq(a: &Vec<usize>, b: &Vec<usize>) -> (r: bool)
    ensures
        r == (a@ == b@),
{
    if a.len() != b.len() {
        return false;
    }
    let mut i: usize = 0;
    while i < a.len()
        invariant
            a@.len() == b@.len(),
            i <= a@.len(),
            forall|j: int| 0 <= j < i ==> a@[j] == b@[j],
        decreases a@.len() - i,
    {
        if a[i] != b[i] {
            return false;
        }
        i = i + 1;
    }
    proof {
        assert(a@ =~= b@);
    }
    true
}

fn find_lookup<'a>(lookup: &'a Vec<(Vec<usize>, VisibleFileTreeEntry)>, q: &Vec<usize>) -> (r: Option<&'a String>)
    ensures
        match r {
            Some(p) => lookup_path(lookup_view(lookup@), q@) == Some(p@),
            None => lookup_path(lookup_view(lookup@), q@) is None,
        },
{
    let ghost lv = lookup_view(lookup@);
    let mut i: usize = 0;
    proof {
        assert(lv.subrange(0, lv.len() as int) =~= lv);
    }
    while i < lookup.len()
        invariant
            i <= lookup@.len(),
            lv == lookup_view(lookup@),
            lookup_path(lv, q@) == lookup_path(lv.subrange(i as int, lv.len() as int), q@),
        decreases lookup@.len() - i,
    {
        proof {
            let rest = lv.subrange(i as int, lv.len() as int);
            assert(rest.drop_first() =~= lv.subrange(i + 1, lv.len() as int));
            assert(rest[0] == lookup_entry(lookup@[i as int]));
        }
        if indices_eq(&lookup[i].0, q) {
            return Some(&lookup[i].1.path);
        }
        i = i + 1;
    }
    proof {
        assert(lv.subrange(i as int, lv.len() as int) =~= Seq::<(Seq<usize>, Seq<char>, FileKind)>::empty());
    }
    None
}

pub open spec fn lookup_entry(e: (Vec<usize>, VisibleFileTreeEntry)) -> (Seq<usize>, Seq<char>, FileKind) {
    (e.0@, e.1.path@, e.1.kind)
}

fn collect_visible_index_by_path(
    node: &TreeNode,
    tree_path: Vec<usize>,
    lookup: &Vec<(Vec<usize>, VisibleFileTreeEntry)>,
    next: &mut usize,
    out: &mut PathMap<usize>,
)
    ensures
        ({
            let rows = visible_rows(tree_view(*node), tree_path@);
            &&& *final(next) as int == cap_usize(*old(next) + rows.len())
            &&& forall|key: Seq<char>|
                #[trigger] spec_lookup(final(out).entries@, key) == match row_index_of(
                    rows,
                    lookup_view(lookup@),
                    key,
                    rows.len() as int,
                ) {
                    Some(j) => Some(cap_usize(*old(next) + j) as usize),
                    None => spec_lookup(old(out).entries@, key),
                }
        }),
    decreases node,
{
    let ghost lv = lookup_view(lookup@);
    let ghost start = *next;
    let ghost out0 = out.entries@;
    let ghost first = seq![tree_path@];
    let found = find_lookup(lookup, &tree_path);
    match found {
        Some(p) => {
            let key_text = p.clone();
            let ghost kv = key_text@;
            out.insert(key_text, *next);
            proof {
                assert forall|key: Seq<char>|
                    #[trigger] spec_lookup(out.entries@, key) == match row_index_of(first, lv, key, 1) {
                        Some(j) => Some(cap_usize(start + j) as usize),
                        None => spec_lookup(out0, key),
                    } by {
                    assert(first[0] == tree_path@);
                    assert(lookup_path(lv, first[0]) == Some(kv));
                    assert(row_index_of(first, lv, key, 0) is None);
                }
            }
        },
        None => {
            proof {
                assert forall|key: Seq<char>|
                    #[trigger] spec_lookup(out.entries@, key) == match row_index_of(first, lv, key, 1) {
                        Some(j) => Some(cap_usize(start + j) as usize),
                        None => spec_lookup(out0, key),
                    } by {
                    assert(first[0] == tree_path@);
                    assert(row_index_of(first, lv, key, 0) is None);
                }
            }
        },
    }
    *next = next.saturating_add(1);
    let ghost tv = tree_view(*node);
    proof {
        lemma_tree_children_view(node.children@, node.children@.len() as int);
    }
    if !node.expanded {
        proof {
            assert(visible_rows(tv, tree_path@) =~= first);
        }
        return;
    }
    let ghost cs = tv.children;
    let mut i: usize = 0;
    proof {
        assert(first + rows_children(cs, 0, tree_path@) =~= first);
    }
    while i < node.children.len()
        invariant
            i <= node.children@.len(),
            cs == tree_children_view(node.children@, node.children@.len() as int),
            cs == Seq::new(node.children@.len(), |j: int| tree_view(node.children@[j])),
            lv == lookup_view(lookup@),
            ({
                let rows = first + rows_children(cs, i as int, tree_path@);
                &&& *next as int == cap_usize(start + rows.len())
                &&& forall|key: Seq<char>|
                    #[trigger] spec_lookup(out.entries@, key) == match row_index_of(rows, lv, key, rows.len() as int) {
                        Some(j) => Some(cap_usize(start + j) as usize),
                        None => spec_lookup(out0, key),
                    }
            }),
        decreases node.children@.len() - i,
    {
        let mut cp = copy_path_indices(&tree_path);
        cp.push(i);
        let ghost before_rows = first + rows_children(cs, i as int, tree_path@);
        let ghost next_before = *next;
        let ghost out_before = out.entries@;
        collect_visible_index_by_path(&node.children[i], cp, lookup, next, out);
        proof {
            let child_rows = visible_rows(tree_view(node.children@[i as int]), tree_path@.push(i));
            assert(cs[i as int] == tree_view(node.children@[i as int]));
            let after_rows = first + rows_children(cs, i + 1, tree_path@);
            assert(after_rows =~= before_rows + child_rows);
            assert forall|key: Seq<char>|
                #[trigger] spec_lookup(out.entries@, key) == match row_index_of(
                    after_rows,
                    lv,
                    key,
                    after_rows.len() as int,
                ) {
                    Some(j) => Some(cap_usize(start + j) as usize),
                    None => spec_lookup(out0, key),
                } by {
                lemma_row_index_concat(before_rows, child_rows, lv, key, child_rows.len() as int);
                lemma_row_index_range(child_rows, lv, key, child_rows.len() as int);
                match row_index_of(child_rows, lv, key, child_rows.len() as int) {
                    Some(j) => {
                        assert(cap_usize(cap_usize(start + before_rows.len()) + j) == cap_usize(
                            start + before_rows.len() + j,
                        ));
                    },
                    None => {},
                }
            }
        }
        i = i + 1;
    }
    proof {
        assert(visible_rows(tv, tree_path@) =~= first + rows_children(cs, cs.len() as int, tree_path@));
    }
}

fn copy_path_indices(v: &Vec<usize>) -> (r: Vec<usize>)
    ensures
        r@ == v@,
{
    let mut r: Vec<usize> = Vec::new();
    let mut i: usize = 0;
    while i < v.len()
        invariant
            i <= v@.len(),
            r@ == v@.subrange(0, i as int),
        decreases v@.len() - i,
    {
        r.push(v[i]);
        i = i + 1;
    }
    proof {
        assert(r@ =~= v@);
    }
    r
}

/// The row index of each drawn path: rows are counted in drawing order
/// (a row, then the rows of its children when it is expanded), and a path
/// maps to the last row showing its entry.
pub fn visible_index_by_path(root: &TreeNode, lookup: &Vec<(Vec<usize>, VisibleFileTreeEntry)>) -> (r: PathMap<
    usize,
>)
    ensures
        forall|key: Seq<char>|
            #[trigger] spec_lookup(r.entries@, key) == match row_index_of(
                visible_rows(tree_view(*root), Seq::empty()),
                lookup_view(lookup@),
                key,
                visible_rows(tree_view(*root), Seq::empty()).len() as int,
            ) {
                Some(j) => Some(cap_usize(j) as usize),
                None => None,
            },
{
    let mut out: PathMap<usize> = PathMap::new();
    let mut next: usize = 0;
    let top: Vec<usize> = Vec::new();
    proof {
        assert(top@ =~= Seq::<usize>::empty());
    }
    collect_visible_index_by_path(root, top, lookup, &mut next, &mut out);
    out
}

/// The context a projection of `shown` is drawn with.
pub open spec fn projection_context<'a>(
    props: &'a FileTreeProps,
    expanded: &'a Vec<String>,
    filter: Option<&'a ExplorerFilter>,
    state: &'a FileTreeState,
    path_styles: &'a PathMap<FileTreeItemStyle>,
    inputs: &'a ProjectionInputs,
) -> ProjectionBuildContext<'a> {
    ProjectionBuildContext {
        props,
        expanded,
        explorer_filter: filter,
        git_decorations: &state.git_snapshot.entries,
        path_styles,
        nerd_icons: &inputs.nerd_icons,
        root_label: &inputs.root_label,
    }
}

/// Builds what the file tree draws: the changed-only tree when only changes
/// are viewed (else the loaded tree), drawn with the effective expanded set
/// and the path styles resolved under its root, with each drawn path's row.
pub fn build_projection(
    props: &FileTreeProps,
    state: &FileTreeState,
    explorer_filter: Option<&ExplorerFilter>,
    inputs: &ProjectionInputs,
) -> (r: FileTreeProjection)
    ensures
        fs_view(r.shown) == (if props.change_view == FileTreeChangeView::ChangedOnly {
            spec_changed_only_root(state.root, state.git_snapshot, props.show_hidden, inputs.probed)
        } else {
            fs_view(state.root)
        }),
        set_of(r.expanded@) == spec_effective_expanded(*props, state.expanded@, state.root.path@, inputs.canonical),
        forall|key: Seq<char>|
            #[trigger] spec_lookup(r.path_styles.entries@, key) == resolved_style(
                props.path_styles.entries@,
                r.shown.path@,
                inputs.canonical,
                props.path_styles.entries@.len() as int,
                key,
            ),
        tree_view(r.root) == spec_projected(
            r.shown,
            true,
            Seq::empty(),
            projection_context(props, &r.expanded, explorer_filter, state, &r.path_styles, inputs),
        ),
        lookup_view(r.lookup@) == spec_projected_lookup(
            r.shown,
            Seq::empty(),
            projection_context(props, &r.expanded, explorer_filter, state, &r.path_styles, inputs),
        ),
        forall|key: Seq<char>|
            #[trigger] spec_lookup(r.path_to_visible_index.entries@, key) == match row_index_of(
                visible_rows(tree_view(r.root), Seq::empty()),
                lookup_view(r.lookup@),
                key,
                visible_rows(tree_view(r.root), Seq::empty()).len() as int,
            ) {
                Some(j) => Some(cap_usize(j) as usize),
                None => None,
            },
{
    let shown = if props.change_view == FileTreeChangeView::ChangedOnly {
        build_changed_only_root(&state.root, &state.git_snapshot, props.show_hidden, &inputs.probed)
    } else {
        copy_fs_node(&state.root)
    };
    let expanded = effective_expanded_paths(props, &state.expanded, state.root.path.as_str(), &inputs.canonical);
    let path_styles = resolved_path_styles(&props.path_styles, shown.path.as_str(), &inputs.canonical);
    let mut lookup: Vec<(Vec<usize>, VisibleFileTreeEntry)> = Vec::new();
    let top: Vec<usize> = Vec::new();
    let root;
    {
        let ctx = ProjectionBuildContext {
            props,
            expanded: &expanded,
            explorer_filter,
            git_decorations: &state.git_snapshot.entries,
            path_styles: &path_styles,
            nerd_icons: &inputs.nerd_icons,
            root_label: &inputs.root_label,
        };
        proof {
            assert(top@ =~= Seq::<usize>::empty());
            assert(lookup_view(lookup@) =~= Seq::<(Seq<usize>, Seq<char>, FileKind)>::empty());
        }
        root = build_projected_tree_node(&shown, true, top, &ctx, &mut lookup);
        proof {
            assert(lookup_view(lookup@) =~= spec_projected_lookup(shown, Seq::empty(), ctx));
        }
    }
    let index = visible_index_by_path(&root, &lookup);
    FileTreeProjection { root, lookup, path_to_visible_index: index, shown, expanded, path_styles }
}

/// The path a selection asks for: the select path, else the selected path,
/// resolved under `root`.
pub open spec fn spec_selection_target(props: FileTreeProps, root: Seq<char>, canonical: PathMap<String>) -> Option<
    Seq<char>,
> {
    let requested = if props.select_path is Some {
        props.select_path
    } else {
        props.selected_path
    };
    match requested {
        Some(p) => spec_resolve_under_root(root, p@, canonical),
        None => None,
    }
}

/// The row the requested selection lands on, if it is drawn.
pub fn selected_visible_index_by_path(
    props: &FileTreeProps,
    state: &FileTreeState,
    projection: &FileTreeProjection,
    canonical: &PathMap<String>,
) -> (r: Option<usize>)
    ensures
        r == match spec_selection_target(*props, state.root.path@, *canonical) {
            Some(p) => spec_lookup(projection.path_to_visible_index.entries@, p),
            None => None,
        },
{
    let requested = if props.select_path.is_some() { &props.select_path } else { &props.selected_path };
    let path = match requested {
        Some(p) => resolve_path_under_root(state.root.path.as_str(), p.as_str(), canonical),
        None => None,
    };
    match path {
        Some(p) => projection.path_to_visible_index.get(p.as_str()),
        None => None,
    }
}

} // verus!
