//! The file-tree nodes, and the "changed only" tree: the changed paths under
//! a root arranged as a directory tree, directories first, then by name.

use vstd::prelude::*;

use crate::file_tree::FileKind;
use crate::git::{spec_lookup, GitFileDecorations, PathMap};
use crate::lexpath::{
    components, is_prefix, path_components, push_copy, render_comps, render_components, spec_hidden_under_root,
    hidden_under_root, components_prefix,
};
use crate::wrap::strings_view;

verus! {

/// A node of the file tree: a file, directory, symlink or other entry, with
/// its loading state and the children loaded so far.
#[derive(Debug)]
pub struct FsNode {
    pub name: String,
    pub path: String,
    pub kind: FileKind,
    pub loaded: bool,
    pub loading: bool,
    pub error: Option<String>,
    pub children: Vec<FsNode>,
}

impl FsNode {
    /// Whether the node is a directory.
    pub fn is_dir(&self) -> (r: bool)
        ensures
            r == (self.kind == FileKind::Directory),
    {
        match self.kind {
            FileKind::Directory => true,
            _ => false,
        }
    }
}

/// What git (or the application) reports about a repository: decorations
/// per path, the changed paths, their kinds where known, and whether the
/// changes name paths that need not exist on disk.
#[derive(Debug)]
pub struct GitStatusSnapshot {
    pub entries: PathMap<GitFileDecorations>,
    pub changed_paths: Vec<String>,
    pub kinds: PathMap<FileKind>,
    pub virtual_changes: bool,
}

/// A file-tree node as a value.
pub struct FsTree {
    pub name: Seq<char>,
    pub path: Seq<char>,
    pub kind: FileKind,
    pub loaded: bool,
    pub loading: bool,
    pub error: Option<Seq<char>>,
    pub children: Seq<FsTree>,
}

/// A node as a value.
pub open spec fn fs_view(n: FsNode) -> FsTree
    decreases n, 0int,
{
    FsTree {
        name: n.name@,
        path: n.path@,
        kind: n.kind,
        loaded: n.loaded,
        loading: n.loading,
        error: match n.error {
            Some(e) => Some(e@),
            None => None,
        },
        children: children_view(n.children@, n.children@.len() as int),
    }
}

/// The first `k` children as values.
pub open spec fn children_view(cs: Seq<FsNode>, k: int) -> Seq<FsTree>
    decreases cs, k,
{
    if k <= 0 || k > cs.len() {
        Seq::empty()
    } else {
        children_view(cs, k - 1).push(fs_view(cs[k - 1]))
    }
}

/// The text in lower case, as `str::to_lowercase` gives it.
pub uninterp spec fn lowercase_of(s: Seq<char>) -> Seq<char>;

/// Calls `str::to_lowercase`; the result is named, not stated.
#[verifier::external_body]
fn to_lowercase(s: &str) -> (r: String)
    ensures
        r@ == lowercase_of(s@),
{
    s.to_lowercase()
}

/// Whether `a` comes before `b` character by character (a proper prefix
/// comes first).
pub open spec fn text_lt(a: Seq<char>, b: Seq<char>) -> bool
    decreases a.len(),
{
    if b.len() == 0 {
        false
    } else if a.len() == 0 {
        true
    } else if a[0] != b[0] {
        (a[0] as int) < (b[0] as int)
    } else {
        text_lt(a.drop_first(), b.drop_first())
    }
}

fn text_less(a: &str, b: &str) -> (r: bool)
    ensures
        r == text_lt(a@, b@),
{
    let n = a.unicode_len();
    let m = b.unicode_len();
    let mut i: usize = 0;
    proof {
        assert(a@.subrange(0, n as int) =~= a@);
        assert(b@.subrange(0, m as int) =~= b@);
    }
    while i < n && i < m
        invariant
            n == a@.len(),
            m == b@.len(),
            i <= n,
            i <= m,
            text_lt(a@, b@) == text_lt(a@.subrange(i as int, n as int), b@.subrange(i as int, m as int)),
        decreases n - i,
    {
        let x = a.get_char(i);
        let y = b.get_char(i);
        proof {
            let sa = a@.subrange(i as int, n as int);
            let sb = b@.subrange(i as int, m as int);
            assert(sa.drop_first() =~= a@.subrange(i + 1, n as int));
            assert(sb.drop_first() =~= b@.subrange(i + 1, m as int));
            assert(sa[0] == x && sb[0] == y);
        }
        if x != y {
            return (x as u32) < (y as u32);
        }
        i = i + 1;
    }
    i < m && i == n
}

/// Whether tree `a` sorts before tree `b`: directories first, then by the
/// lower-cased name, then by the name.
pub open spec fn tree_before(a: FsTree, b: FsTree) -> bool {
    let ad = a.kind == FileKind::Directory;
    let bd = b.kind == FileKind::Directory;
    let la = lowercase_of(a.name);
    let lb = lowercase_of(b.name);
    (ad && !bd) || (ad == bd && (text_lt(la, lb) || (la == lb && text_lt(a.name, b.name))))
}

/// Where `x` goes in `s`: before the first entry it sorts before.
pub open spec fn insert_pos(s: Seq<FsTree>, x: FsTree, k: int) -> int
    decreases k,
{
    if k <= 0 {
        0
    } else {
        let j = insert_pos(s, x, k - 1);
        if j < k - 1 {
            j
        } else if tree_before(x, s[k - 1]) {
            k - 1
        } else {
            k
        }
    }
}

/// The trees sorted, each inserted after the ones it does not sort before.
pub open spec fn sort_trees(s: Seq<FsTree>) -> Seq<FsTree>
    decreases s.len(),
{
    if s.len() == 0 {
        Seq::empty()
    } else {
        let sorted = sort_trees(s.drop_last());
        sorted.insert(insert_pos(sorted, s.last(), sorted.len() as int), s.last())
    }
}

/// A changed path kept for the tree: its text and its components below the
/// root.
pub open spec fn entry_view(e: (String, Vec<String>)) -> (Seq<char>, Seq<Seq<char>>) {
    (e.0@, strings_view(e.1@))
}

/// The first `k` changed paths that lie strictly below `root` and are not
/// hidden there, each with its components below the root.
pub open spec fn accepted_changes(cps: Seq<Seq<char>>, root: Seq<char>, show_hidden: bool, k: int) -> Seq<
    (Seq<char>, Seq<Seq<char>>),
>
    decreases k,
{
    if k <= 0 || k > cps.len() {
        Seq::empty()
    } else {
        let prev = accepted_changes(cps, root, show_hidden, k - 1);
        let cp = cps[k - 1];
        let c = components(cp);
        let rc = components(root);
        if is_prefix(rc, c) && !spec_hidden_under_root(cp, root, show_hidden) && c.len() > rc.len() {
            prev.push((cp, c.subrange(rc.len() as int, c.len() as int)))
        } else {
            prev
        }
    }
}

/// The distinct names one level below `p` among the first `k` accepted
/// paths, in the order they first appear.
pub open spec fn next_names(a: Seq<(Seq<char>, Seq<Seq<char>>)>, p: Seq<Seq<char>>, k: int) -> Seq<Seq<char>>
    decreases k,
{
    if k <= 0 || k > a.len() {
        Seq::empty()
    } else {
        let prev = next_names(a, p, k - 1);
        let r = a[k - 1].1;
        if r.len() > p.len() && is_prefix(p, r) && !prev.contains(r[p.len() as int]) {
            prev.push(r[p.len() as int])
        } else {
            prev
        }
    }
}

/// Index of the first accepted path at or below `p`, or `k`.
pub open spec fn first_under(a: Seq<(Seq<char>, Seq<Seq<char>>)>, p: Seq<Seq<char>>, k: int) -> int
    decreases k,
{
    if k <= 0 {
        0
    } else {
        let j = first_under(a, p, k - 1);
        if j < k - 1 {
            j
        } else if is_prefix(p, a[k - 1].1) {
            k - 1
        } else {
            k
        }
    }
}

/// The kind of a changed leaf: as the snapshot records it; else a file when
/// the changes are virtual; else as `probed` found it on disk, a file when
/// nothing was found.
pub open spec fn leaf_kind(cp: Seq<char>, snap: GitStatusSnapshot, probed: PathMap<FileKind>) -> FileKind {
    match spec_lookup(snap.kinds.entries@, cp) {
        Some(k) => k,
        None => if snap.virtual_changes {
            FileKind::File
        } else {
            match spec_lookup(probed.entries@, cp) {
                Some(k) => k,
                None => FileKind::File,
            }
        },
    }
}

/// The kind of the node at `p`: a leaf's kind when the first path that
/// reaches `p` ends there, a directory otherwise.
pub open spec fn node_kind(
    a: Seq<(Seq<char>, Seq<Seq<char>>)>,
    p: Seq<Seq<char>>,
    snap: GitStatusSnapshot,
    probed: PathMap<FileKind>,
) -> FileKind {
    let f = first_under(a, p, a.len() as int);
    if f < a.len() && a[f].1.len() == p.len() {
        leaf_kind(a[f].0, snap, probed)
    } else {
        FileKind::Directory
    }
}

/// The node at `p` below a root with components `rc`, with its subtree
/// (depth bounded by `fuel`), children sorted.
pub open spec fn changed_subtree(
    a: Seq<(Seq<char>, Seq<Seq<char>>)>,
    rc: Seq<Seq<char>>,
    p: Seq<Seq<char>>,
    snap: GitStatusSnapshot,
    probed: PathMap<FileKind>,
    fuel: nat,
) -> FsTree
    decreases fuel, 0int,
{
    FsTree {
        name: if p.len() > 0 {
            p.last()
        } else {
            Seq::empty()
        },
        path: render_comps(rc + p),
        kind: node_kind(a, p, snap, probed),
        loaded: true,
        loading: false,
        error: None,
        children: if fuel == 0 {
            Seq::empty()
        } else {
            sort_trees(
                changed_children(a, rc, p, snap, probed, (fuel - 1) as nat, next_names(a, p, a.len() as int).len() as int),
            )
        },
    }
}

/// The subtrees of the first `k` names below `p`, in name order of first
/// appearance.
pub open spec fn changed_children(
    a: Seq<(Seq<char>, Seq<Seq<char>>)>,
    rc: Seq<Seq<char>>,
    p: Seq<Seq<char>>,
    snap: GitStatusSnapshot,
    probed: PathMap<FileKind>,
    fuel: nat,
    k: int,
) -> Seq<FsTree>
    decreases fuel, k + 1,
{
    let names = next_names(a, p, a.len() as int);
    if k <= 0 || k > names.len() {
        Seq::empty()
    } else {
        changed_children(a, rc, p, snap, probed, fuel, k - 1).push(
            changed_subtree(a, rc, p.push(names[k - 1]), snap, probed, fuel),
        )
    }
}

/// The longest accepted path, in components.
pub open spec fn max_depth(a: Seq<(Seq<char>, Seq<Seq<char>>)>, k: int) -> nat
    decreases k,
{
    if k <= 0 || k > a.len() {
        0
    } else {
        let m = max_depth(a, k - 1);
        if a[k - 1].1.len() > m {
            a[k - 1].1.len()
        } else {
            m
        }
    }
}

/// The changed-only tree of `snap` under `source_root`: the root as a loaded
/// directory, holding every accepted changed path as a chain of nodes.
pub open spec fn spec_changed_only_root(
    source_root: FsNode,
    snap: GitStatusSnapshot,
    show_hidden: bool,
    probed: PathMap<FileKind>,
) -> FsTree {
    let cps = strings_view(snap.changed_paths@);
    let a = accepted_changes(cps, source_root.path@, show_hidden, cps.len() as int);
    let rc = components(source_root.path@);
    let t = changed_subtree(a, rc, Seq::empty(), snap, probed, max_depth(a, a.len() as int));
    FsTree { name: source_root.name@, path: source_root.path@, kind: FileKind::Directory, ..t }
}

/// Accepted changed paths as values.
pub open spec fn entries_view(v: Seq<(String, Vec<String>)>) -> Seq<(Seq<char>, Seq<Seq<char>>)> {
    Seq::new(v.len(), |i: int| entry_view(v[i]))
}

pub proof fn lemma_children_view(cs: Seq<FsNode>, k: int)
    requires
        0 <= k <= cs.len(),
    ensures
        children_view(cs, k) == Seq::new(k as nat, |i: int| fs_view(cs[i])),
    decreases k,
{
    if k > 0 {
        lemma_children_view(cs, k - 1);
        assert(children_view(cs, k) =~= Seq::new(k as nat, |i: int| fs_view(cs[i])));
    } else {
        assert(children_view(cs, k) =~= Seq::new(k as nat, |i: int| fs_view(cs[i])));
    }
}

/// The view of a whole list of children.
pub open spec fn kids(cs: Seq<FsNode>) -> Seq<FsTree> {
    children_view(cs, cs.len() as int)
}

fn tree_less(x: &FsNode, y: &FsNode) -> (r: bool)
    ensures
        r == tree_before(fs_view(*x), fs_view(*y)),
{
    let xd = x.is_dir();
    let yd = y.is_dir();
    if xd && !yd {
        return true;
    }
    if xd != yd {
        return false;
    }
    let lx = to_lowercase(x.name.as_str());
    let ly = to_lowercase(y.name.as_str());
    if text_less(lx.as_str(), ly.as_str()) {
        return true;
    }
    crate::text::str_eq(lx.as_str(), ly.as_str()) && text_less(x.name.as_str(), y.name.as_str())
}

/// Inserts `child` among sorted `children` after every child it does not
/// sort before.
fn insert_sorted(children: &mut Vec<FsNode>, child: FsNode)
    ensures
        kids(final(children)@) == kids(old(children)@).insert(
            insert_pos(kids(old(children)@), fs_view(child), kids(old(children)@).len() as int),
            fs_view(child),
        ),
{
    let ghost s = kids(children@);
    let ghost x = fs_view(child);
    proof {
        lemma_children_view(children@, children@.len() as int);
    }
    let n = children.len();
    let mut j: usize = 0;
    while j < n
        invariant
            n == children@.len(),
            j <= n,
            s == Seq::new(n as nat, |i: int| fs_view(children@[i])),
            x == fs_view(child),
            insert_pos(s, x, j as int) == j,
        ensures
            j <= n,
            insert_pos(s, x, j as int) == j,
            j < n ==> tree_before(x, s[j as int]),
        decreases n - j,
    {
        if tree_less(&child, &children[j]) {
            break;
        }
        j = j + 1;
    }
    proof {
        lemma_insert_pos_stays(s, x, j as int, n as int);
    }
    let ghost before = children@;
    children.insert(j, child);
    proof {
        lemma_children_view(children@, children@.len() as int);
        assert(kids(children@) =~= s.insert(j as int, x));
    }
}

proof fn lemma_insert_pos_stays(s: Seq<FsTree>, x: FsTree, j: int, n: int)
    requires
        0 <= j <= n,
        insert_pos(s, x, j) == j,
        j < n ==> tree_before(x, s[j]),
    ensures
        insert_pos(s, x, n) == j,
    decreases n - j,
{
    if j < n {
        lemma_insert_pos_below(s, x, j, j + 1, n);
    }
}

proof fn lemma_insert_pos_below(s: Seq<FsTree>, x: FsTree, j: int, k: int, n: int)
    requires
        0 <= j < k <= n,
        insert_pos(s, x, k) == j,
    ensures
        insert_pos(s, x, n) == j,
    decreases n - k,
{
    if k < n {
        lemma_insert_pos_below(s, x, j, k + 1, n);
    }
}

fn clone_strings(v: &Vec<String>) -> (r: Vec<String>)
    ensures
        strings_view(r@) == strings_view(v@),
{
    let mut r: Vec<String> = Vec::new();
    let mut i: usize = 0;
    while i < v.len()
        invariant
            i <= v@.len(),
            strings_view(r@) == strings_view(v@).subrange(0, i as int),
        decreases v@.len() - i,
    {
        push_copy(&mut r, &v[i]);
        proof {
            assert(strings_view(v@).subrange(0, i + 1) =~= strings_view(v@).subrange(0, i as int).push(v@[i as int]@));
        }
        i = i + 1;
    }
    proof {
        assert(strings_view(v@).subrange(0, v@.len() as int) =~= strings_view(v@));
    }
    r
}

/// The changed paths of `snap` kept for the tree under `root`.
pub fn accepted_changes_of(snap: &GitStatusSnapshot, root: &str, show_hidden: bool) -> (r: Vec<(String, Vec<String>)>)
    ensures
        entries_view(r@) == accepted_changes(
            strings_view(snap.changed_paths@),
            root@,
            show_hidden,
            snap.changed_paths@.len() as int,
        ),
{
    let rc = path_components(root);
    let mut out: Vec<(String, Vec<String>)> = Vec::new();
    let ghost cps = strings_view(snap.changed_paths@);
    let mut k: usize = 0;
    proof {
        assert(entries_view(out@) =~= accepted_changes(cps, root@, show_hidden, 0));
    }
    while k < snap.changed_paths.len()
        invariant
            k <= snap.changed_paths@.len(),
            cps == strings_view(snap.changed_paths@),
            strings_view(rc@) == components(root@),
            entries_view(out@) == accepted_changes(cps, root@, show_hidden, k as int),
        decreases snap.changed_paths@.len() - k,
    {
        let cp = snap.changed_paths[k].as_str();
        let c = path_components(cp);
        proof {
            assert(cps[k as int] == cp@);
        }
        if components_prefix(&rc, &c) && !hidden_under_root(cp, root, show_hidden) && c.len() > rc.len() {
            let mut rel: Vec<String> = Vec::new();
            let mut i: usize = rc.len();
            while i < c.len()
                invariant
                    rc@.len() <= i <= c@.len(),
                    strings_view(rel@) == strings_view(c@).subrange(rc@.len() as int, i as int),
                decreases c@.len() - i,
            {
                push_copy(&mut rel, &c[i]);
                proof {
                    assert(strings_view(c@).subrange(rc@.len() as int, i + 1) =~= strings_view(c@).subrange(
                        rc@.len() as int,
                        i as int,
                    ).push(c@[i as int]@));
                }
                i = i + 1;
            }
            let ghost before = out@;
            out.push((String::from_str(cp), rel));
            proof {
                assert(entries_view(out@) =~= entries_view(before).push((cp@, strings_view(c@).subrange(
                    rc@.len() as int,
                    c@.len() as int,
                ))));
            }
        }
        k = k + 1;
    }
    out
}

fn contains_text(v: &Vec<String>, s: &str) -> (r: bool)
    ensures
        r == strings_view(v@).contains(s@),
{
    let mut i: usize = 0;
    while i < v.len()
        invariant
            i <= v@.len(),
            forall|j: int| 0 <= j < i ==> v@[j]@ != s@,
        decreases v@.len() - i,
    {
        if crate::text::str_eq(v[i].as_str(), s) {
            proof {
                assert(strings_view(v@)[i as int] == s@);
            }
            return true;
        }
        i = i + 1;
    }
    proof {
        if strings_view(v@).contains(s@) {
            let j = choose|j: int| 0 <= j < v@.len() && strings_view(v@)[j] == s@;
            assert(v@[j]@ == s@);
        }
    }
    false
}

fn next_names_of(a: &Vec<(String, Vec<String>)>, p: &Vec<String>) -> (r: Vec<String>)
    ensures
        strings_view(r@) == next_names(entries_view(a@), strings_view(p@), a@.len() as int),
{
    let ghost av = entries_view(a@);
    let ghost pv = strings_view(p@);
    let mut out: Vec<String> = Vec::new();
    let mut k: usize = 0;
    while k < a.len()
        invariant
            k <= a@.len(),
            av == entries_view(a@),
            pv == strings_view(p@),
            strings_view(out@) == next_names(av, pv, k as int),
        decreases a@.len() - k,
    {
        let r = &a[k].1;
        proof {
            assert(av[k as int].1 == strings_view(r@));
        }
        if r.len() > p.len() && components_prefix(p, r) {
            let name = r[p.len()].as_str();
            if !contains_text(&out, name) {
                push_copy(&mut out, &r[p.len()]);
            }
        }
        k = k + 1;
    }
    out
}

fn node_kind_of(
    a: &Vec<(String, Vec<String>)>,
    p: &Vec<String>,
    snap: &GitStatusSnapshot,
    probed: &PathMap<FileKind>,
) -> (r: FileKind)
    ensures
        r == node_kind(entries_view(a@), strings_view(p@), *snap, *probed),
{
    let ghost av = entries_view(a@);
    let ghost pv = strings_view(p@);
    let mut k: usize = 0;
    while k < a.len()
        invariant
            k <= a@.len(),
            av == entries_view(a@),
            pv == strings_view(p@),
            first_under(av, pv, k as int) == k,
        ensures
            k <= a@.len(),
            first_under(av, pv, k as int) == k,
            k < a@.len() ==> is_prefix(pv, av[k as int].1),
        decreases a@.len() - k,
    {
        proof {
            assert(av[k as int].1 == strings_view(a@[k as int].1@));
        }
        if components_prefix(p, &a[k].1) {
            break;
        }
        k = k + 1;
    }
    proof {
        lemma_first_under_stays(av, pv, k as int, a@.len() as int);
    }
    if k < a.len() && a[k].1.len() == p.len() {
        let cp = a[k].0.as_str();
        match snap.kinds.get(cp) {
            Some(kind) => kind,
            None => {
                if snap.virtual_changes {
                    FileKind::File
                } else {
                    match probed.get(cp) {
                        Some(kind) => kind,
                        None => FileKind::File,
                    }
                }
            },
        }
    } else {
        FileKind::Directory
    }
}

proof fn lemma_first_under_stays(a: Seq<(Seq<char>, Seq<Seq<char>>)>, p: Seq<Seq<char>>, j: int, n: int)
    requires
        0 <= j <= n,
        first_under(a, p, j) == j,
        j < n ==> is_prefix(p, a[j].1),
    ensures
        first_under(a, p, n) == j,
    decreases n - j,
{
    if j < n {
        lemma_first_under_below(a, p, j, j + 1, n);
    }
}

proof fn lemma_first_under_below(a: Seq<(Seq<char>, Seq<Seq<char>>)>, p: Seq<Seq<char>>, j: int, k: int, n: int)
    requires
        0 <= j < k <= n,
        first_under(a, p, k) == j,
    ensures
        first_under(a, p, n) == j,
    decreases n - k,
{
    if k < n {
        lemma_first_under_below(a, p, j, k + 1, n);
    }
}

fn build_changed_subtree(
    a: &Vec<(String, Vec<String>)>,
    rc: &Vec<String>,
    p: &Vec<String>,
    snap: &GitStatusSnapshot,
    probed: &PathMap<FileKind>,
    fuel: usize,
) -> (r: FsNode)
    ensures
        fs_view(r) == changed_subtree(entries_view(a@), strings_view(rc@), strings_view(p@), *snap, *probed, fuel as nat),
    decreases fuel,
{
    let ghost av = entries_view(a@);
    let ghost rv = strings_view(rc@);
    let ghost pv = strings_view(p@);
    let name = if p.len() > 0 { p[p.len() - 1].clone() } else { String::new() };
    let mut full = clone_strings(rc);
    let mut i: usize = 0;
    while i < p.len()
        invariant
            i <= p@.len(),
            rv == strings_view(rc@),
            pv == strings_view(p@),
            strings_view(full@) == rv + pv.subrange(0, i as int),
        decreases p@.len() - i,
    {
        push_copy(&mut full, &p[i]);
        proof {
            assert(pv.subrange(0, i + 1) =~= pv.subrange(0, i as int).push(p@[i as int]@));
            assert(strings_view(full@) =~= rv + pv.subrange(0, i + 1));
        }
        i = i + 1;
    }
    proof {
        assert(pv.subrange(0, p@.len() as int) =~= pv);
    }
    let path = render_components(&full);
    let kind = node_kind_of(a, p, snap, probed);
    let mut children: Vec<FsNode> = Vec::new();
    if fuel > 0 {
        let names = next_names_of(a, p);
        let ghost nv = strings_view(names@);
        let mut k: usize = 0;
        proof {
            assert(kids(children@) =~= Seq::<FsTree>::empty());
            assert(sort_trees(changed_children(av, rv, pv, *snap, *probed, (fuel - 1) as nat, 0)) =~= Seq::<FsTree>::empty());
        }
        while k < names.len()
            invariant
                k <= names@.len(),
                fuel > 0,
                av == entries_view(a@),
                rv == strings_view(rc@),
                pv == strings_view(p@),
                nv == strings_view(names@),
                nv == next_names(av, pv, av.len() as int),
                kids(children@) == sort_trees(changed_children(av, rv, pv, *snap, *probed, (fuel - 1) as nat, k as int)),
            decreases names@.len() - k,
        {
            let mut cp = clone_strings(p);
            push_copy(&mut cp, &names[k]);
            let child = build_changed_subtree(a, rc, &cp, snap, probed, fuel - 1);
            proof {
                assert(strings_view(cp@) == pv.push(nv[k as int]));
                let prev = changed_children(av, rv, pv, *snap, *probed, (fuel - 1) as nat, k as int);
                let next = changed_children(av, rv, pv, *snap, *probed, (fuel - 1) as nat, k + 1);
                assert(next == prev.push(fs_view(child)));
                assert(next.drop_last() =~= prev);
            }
            insert_sorted(&mut children, child);
            k = k + 1;
        }
    }
    let node = FsNode { name, path, kind, loaded: true, loading: false, error: None, children };
    proof {
        assert(name@ == (if pv.len() > 0 { pv.last() } else { Seq::<char>::empty() }));
        assert(fs_view(node).children == kids(node.children@));
        if fuel == 0 {
            assert(kids(node.children@) =~= Seq::<FsTree>::empty());
        }
        assert(fs_view(node) == changed_subtree(av, rv, pv, *snap, *probed, fuel as nat));
    }
    node
}

fn max_depth_of(a: &Vec<(String, Vec<String>)>) -> (r: usize)
    ensures
        r == max_depth(entries_view(a@), a@.len() as int),
{
    let mut m: usize = 0;
    let mut k: usize = 0;
    while k < a.len()
        invariant
            k <= a@.len(),
            m == max_depth(entries_view(a@), k as int),
        decreases a@.len() - k,
    {
        proof {
            assert(entries_view(a@)[k as int].1.len() == a@[k as int].1@.len());
        }
        if a[k].1.len() > m {
            m = a[k].1.len();
        }
        k = k + 1;
    }
    m
}

/// The changed-only tree of `snapshot` under `source_root`; see
/// [`spec_changed_only_root`]. `probed` holds the kinds found on disk for
/// changed paths whose kind the snapshot does not record.
pub fn build_changed_only_root(
    source_root: &FsNode,
    snapshot: &GitStatusSnapshot,
    show_hidden: bool,
    probed: &PathMap<FileKind>,
) -> (r: FsNode)
    ensures
        fs_view(r) == spec_changed_only_root(*source_root, *snapshot, show_hidden, *probed),
{
    let a = accepted_changes_of(snapshot, source_root.path.as_str(), show_hidden);
    let rc = path_components(source_root.path.as_str());
    let depth = max_depth_of(&a);
    let top: Vec<String> = Vec::new();
    proof {
        assert(strings_view(top@) =~= Seq::<Seq<char>>::empty());
    }
    let t = build_changed_subtree(&a, &rc, &top, snapshot, probed, depth);
    let root = FsNode {
        name: source_root.name.clone(),
        path: source_root.path.clone(),
        kind: FileKind::Directory,
        loaded: t.loaded,
        loading: t.loading,
        error: t.error,
        children: t.children,
    };
    root
}

/// Whether an entry's name hides it: it starts with a dot and is neither
/// `.` nor `..`.
pub open spec fn spec_hidden_name(name: Seq<char>) -> bool {
    name.len() > 0 && name[0] == '.' && name != seq!['.'] && name != seq!['.', '.']
}

/// Whether an entry's name hides it; see [`spec_hidden_name`].
pub fn is_hidden_name(name: &str) -> (r: bool)
    ensures
        r == spec_hidden_name(name@),
{
    let n = name.unicode_len();
    if n == 0 || name.get_char(0) != '.' {
        return false;
    }
    proof {
        assert(n == 1 ==> name@ =~= seq!['.']);
    }
    if n == 1 {
        return false;
    }
    let second = name.get_char(1);
    proof {
        assert(n == 2 && second == '.' ==> name@ =~= seq!['.', '.']);
        assert(name@.len() != 1);
        if n != 2 {
            assert(name@.len() != 2);
        }
        if second != '.' {
            assert(name@[1] != seq!['.', '.'][1]);
        }
    }
    !(n == 2 && second == '.')
}

/// The entries of a directory listing kept from the first `k` read: hidden
/// ones dropped unless shown, at most `max` kept, the rest counted as
/// omitted (saturating).
pub open spec fn listing(entries: Seq<FsNode>, show_hidden: bool, max: int, k: int) -> (Seq<FsTree>, int)
    decreases k,
{
    if k <= 0 || k > entries.len() {
        (Seq::empty(), 0)
    } else {
        let (kept, omitted) = listing(entries, show_hidden, max, k - 1);
        let e = entries[k - 1];
        if !show_hidden && spec_hidden_name(e.name@) {
            (kept, omitted)
        } else if kept.len() >= max {
            (kept, if omitted + 1 > usize::MAX { usize::MAX as int } else { omitted + 1 })
        } else {
            (kept.push(fs_view(e)), omitted)
        }
    }
}

/// Selects and orders a directory's entries as read: see [`listing`]; the
/// kept entries come directories first, then by lower-cased name, then by
/// name, entries that tie keeping their order.
pub fn select_directory_entries(entries: Vec<FsNode>, show_hidden: bool, max: usize) -> (r: (Vec<FsNode>, usize))
    ensures
        kids(r.0@) == sort_trees(listing(entries@, show_hidden, max as int, entries@.len() as int).0),
        r.1 == listing(entries@, show_hidden, max as int, entries@.len() as int).1,
{
    let ghost all = entries@;
    let total = entries.len();
    let mut rest = entries;
    let mut sorted: Vec<FsNode> = Vec::new();
    let mut kept: usize = 0;
    let mut omitted: usize = 0;
    let mut k: usize = 0;
    while rest.len() > 0
        invariant
            k + rest@.len() == all.len(),
            all.len() == total,
            rest@ == all.subrange(k as int, all.len() as int),
            ({
                let l = listing(all, show_hidden, max as int, k as int);
                kids(sorted@) == sort_trees(l.0) && kept == l.0.len() && omitted == l.1
            }),
        decreases rest@.len(),
    {
        let ghost before = rest@;
        let e = rest.remove(0);
        proof {
            assert(e == all[k as int]);
            assert(rest@ =~= all.subrange(k + 1, all.len() as int));
        }
        if !show_hidden && is_hidden_name(e.name.as_str()) {
        } else if kept >= max {
            omitted = omitted.saturating_add(1);
        } else {
            let ghost l = listing(all, show_hidden, max as int, k as int);
            proof {
                assert(l.0.push(fs_view(e)).drop_last() =~= l.0);
            }
            insert_sorted(&mut sorted, e);
            kept = kept + 1;
        }
        k = k + 1;
    }
    (sorted, omitted)
}

/// No directory comes after a non-directory in `s`.
pub open spec fn directories_first(s: Seq<FsTree>) -> bool {
    forall|i: int, j: int|
        0 <= i < j < s.len() && (#[trigger] s[j]).kind == FileKind::Directory ==> (#[trigger] s[i]).kind
            == FileKind::Directory
}

proof fn lemma_insert_pos(s: Seq<FsTree>, x: FsTree, k: int)
    requires
        0 <= k <= s.len(),
    ensures
        0 <= insert_pos(s, x, k) <= k,
        forall|i: int| 0 <= i < insert_pos(s, x, k) ==> !tree_before(x, #[trigger] s[i]),
        insert_pos(s, x, k) < k ==> tree_before(x, s[insert_pos(s, x, k)]),
    decreases k,
{
    if k > 0 {
        lemma_insert_pos(s, x, k - 1);
    }
}

/// Sorting entries keeps them all (as many, each still there) and lists
/// every directory before any other entry.
pub proof fn law_sort_directories_first(s: Seq<FsTree>)
    ensures
        sort_trees(s).len() == s.len(),
        forall|i: int| 0 <= i < s.len() ==> sort_trees(s).contains(#[trigger] s[i]),
        directories_first(sort_trees(s)),
    decreases s.len(),
{
    if s.len() > 0 {
        let rest = s.drop_last();
        law_sort_directories_first(rest);
        let sorted = sort_trees(rest);
        let x = s.last();
        let p = insert_pos(sorted, x, sorted.len() as int);
        lemma_insert_pos(sorted, x, sorted.len() as int);
        let out = sorted.insert(p, x);
        assert(sort_trees(s) == out);
        assert forall|i: int| 0 <= i < s.len() implies out.contains(#[trigger] s[i]) by {
            if i == s.len() - 1 {
                assert(out[p] == x);
            } else {
                assert(rest[i] == s[i]);
                assert(sorted.contains(rest[i]));
                let q = choose|q: int| 0 <= q < sorted.len() && sorted[q] == rest[i];
                if q < p {
                    assert(out[q] == sorted[q]);
                } else {
                    assert(out[q + 1] == sorted[q]);
                }
            }
        }
        assert forall|i: int, j: int|
            0 <= i < j < out.len() && (#[trigger] out[j]).kind == FileKind::Directory implies (#[trigger] out[i]).kind
                == FileKind::Directory by {
            let oi = if i < p { i } else { i - 1 };
            let oj = if j < p { j } else { j - 1 };
            if i != p && j != p {
                assert(out[i] == sorted[oi] && out[j] == sorted[oj]);
            } else if j == p {
                // x is a directory placed at p: everything before it sorts no later.
                assert(out[i] == sorted[i]);
                assert(!tree_before(x, sorted[i]));
            } else {
                // i == p: x comes before out[j], a directory.
                assert(out[j] == sorted[j - 1]);
                assert(p < sorted.len());
                assert(tree_before(x, sorted[p]));
                if x.kind != FileKind::Directory {
                    assert(sorted[p].kind != FileKind::Directory);
                    assert(sorted[j - 1].kind == FileKind::Directory);
                    assert(p <= j - 1);
                    if p < j - 1 {
                        assert(sorted[p].kind == FileKind::Directory);
                    }
                }
            }
        }
    }
}

/// Names compare character by character, a proper prefix coming first: the
/// comparison is a strict total order (never both ways, one way for any two
/// different names, and transitive).
pub proof fn law_text_order(a: Seq<char>, b: Seq<char>, c: Seq<char>)
    ensures
        !text_lt(a, a),
        !(text_lt(a, b) && text_lt(b, a)),
        a != b ==> text_lt(a, b) || text_lt(b, a),
        (text_lt(a, b) && text_lt(b, c)) ==> text_lt(a, c),
        (a.len() < b.len() && b.subrange(0, a.len() as int) == a) ==> text_lt(a, b),
        (a.len() > 0 && b.len() > 0 && (a[0] as int) < (b[0] as int)) ==> text_lt(a, b),
    decreases a.len(),
{
    if a.len() > 0 {
        let bb = if b.len() > 0 { b.drop_first() } else { b };
        let cc = if c.len() > 0 { c.drop_first() } else { c };
        law_text_order(a.drop_first(), bb, cc);
        if b.len() > 0 {
            if a[0] == b[0] && a != b {
                assert(a.drop_first() != b.drop_first()) by {
                    if a.drop_first() == b.drop_first() {
                        assert(a =~= seq![a[0]] + a.drop_first());
                        assert(b =~= seq![b[0]] + b.drop_first());
                    }
                }
            }
            if a.len() < b.len() && b.subrange(0, a.len() as int) == a {
                assert(b.drop_first().subrange(0, a.drop_first().len() as int) =~= a.drop_first());
                assert(b[0] == b.subrange(0, a.len() as int)[0]);
            }
        }
    } else if b.len() == 0 {
        assert(a =~= b);
    }
}

} // verus!
