//! Keeping a file tree's nodes up to date: a directory's listing applied to
//! its node, the root of a tree of provided paths, the directories changed
//! paths open, and load states carried over to a projected copy.

use vstd::prelude::*;

use crate::changed_tree::{children_view, fs_view, kids, lemma_children_view, FsNode, FsTree};
use crate::explorer::{parent_of, path_parent};
use crate::file_icon::{file_name_of, path_file_name};
use crate::file_tree::FileKind;
use crate::lexpath::{ancestors_under, insert_path_with_ancestors, set_of};
use crate::text::{push_zero_padded, zero_padded};
use crate::tree_projection::{copy_fs_node, FileTreeState};

verus! {

/// What reading a directory gave: its entries in display order, how many
/// were left out over the limit, and the error that stopped the read.
#[derive(Debug)]
pub struct DirectoryLoadResult {
    pub entries: Vec<FsNode>,
    pub omitted: usize,
    pub error: Option<String>,
}

/// A listed entry as a fresh node: loaded unless it is a directory.
pub open spec fn fresh_node(e: FsTree) -> FsTree {
    FsTree {
        name: e.name,
        path: e.path,
        kind: e.kind,
        loaded: e.kind != FileKind::Directory,
        loading: false,
        error: None,
        children: Seq::empty(),
    }
}

/// The row standing for entries left out of a listing.
pub open spec fn truncated_node(parent_path: Seq<char>, omitted: nat) -> FsTree {
    FsTree {
        name: seq!['.', '.', '.', ' '] + zero_padded(omitted, 0) + seq![' ', 'm', 'o', 'r', 'e', ' ', 'e', 'n', 't', 'r', 'i', 'e', 's'],
        path: parent_path + seq!['/', '_', '_', 't', 'r', 'u', 'n', 'c', 'a', 't', 'e', 'd', '_', '_'],
        kind: FileKind::Other,
        loaded: true,
        loading: false,
        error: None,
        children: Seq::empty(),
    }
}

/// A node with a listing applied: no longer loading, loaded, carrying the
/// listing's error; without an error its children are the listed entries,
/// then a row for those left out when any were.
pub open spec fn spec_apply_load(n: FsTree, entries: Seq<FsTree>, omitted: nat, error: Option<Seq<char>>) -> FsTree {
    let listed = Seq::new(entries.len(), |i: int| fresh_node(entries[i]));
    FsTree {
        loading: false,
        loaded: true,
        error,
        children: if error is Some {
            Seq::empty()
        } else if omitted > 0 {
            listed.push(truncated_node(n.path, omitted))
        } else {
            listed
        },
        ..n
    }
}

fn fresh_from(e: &FsNode) -> (r: FsNode)
    ensures
        fs_view(r) == fresh_node(fs_view(*e)),
{
    let r = FsNode {
        name: e.name.clone(),
        path: e.path.clone(),
        kind: e.kind,
        loaded: !e.is_dir(),
        loading: false,
        error: None,
        children: Vec::new(),
    };
    proof {
        assert(children_view(r.children@, 0) =~= Seq::<FsTree>::empty());
    }
    r
}

/// Applies a directory listing to its node; see [`spec_apply_load`].
pub fn apply_directory_load(node: &mut FsNode, result: DirectoryLoadResult)
    ensures
        fs_view(*final(node)) == spec_apply_load(
            fs_view(*old(node)),
            kids(result.entries@),
            result.omitted as nat,
            match result.error {
                Some(e) => Some(e@),
                None => None,
            },
        ),
{
    let ghost entries = kids(result.entries@);
    proof {
        lemma_children_view(result.entries@, result.entries@.len() as int);
    }
    node.loading = false;
    node.loaded = true;
    let failed = result.error.is_some();
    node.error = result.error;
    let mut children: Vec<FsNode> = Vec::new();
    if !failed {
        let mut k: usize = 0;
        while k < result.entries.len()
            invariant
                k <= result.entries@.len(),
                entries == Seq::new(result.entries@.len() as nat, |i: int| fs_view(result.entries@[i])),
                children@.len() == k,
                kids(children@) == Seq::new(k as nat, |i: int| fresh_node(entries[i])),
            decreases result.entries@.len() - k,
        {
            let ghost before = children@;
            let c = fresh_from(&result.entries[k]);
            let ghost cv = fs_view(c);
            children.push(c);
            proof {
                lemma_children_view(before, before.len() as int);
                lemma_children_view(children@, children@.len() as int);
                assert forall|i: int| 0 <= i < k + 1 implies fs_view(#[trigger] children@[i]) == fresh_node(entries[i]) by {
                    if i < k {
                        assert(children@[i] == before[i]);
                        assert(kids(before)[i] == fs_view(before[i]));
                    } else {
                        assert(children@[i] == c);
                    }
                }
                assert(kids(children@) =~= Seq::new((k + 1) as nat, |i: int| fresh_node(entries[i])));
            }
            k = k + 1;
        }
        if result.omitted > 0 {
            proof {
                reveal_strlit("... ");
                reveal_strlit(" more entries");
                reveal_strlit("/__truncated__");
            }
            let mut name = String::from_str("... ");
            push_zero_padded(&mut name, result.omitted as u64, 0);
            name.append(" more entries");
            let mut path = node.path.clone();
            path.append("/__truncated__");
            assert(path@ == fs_view(*old(node)).path + seq!['/', '_', '_', 't', 'r', 'u', 'n', 'c', 'a', 't', 'e', 'd', '_', '_']);
            assert(name@ == seq!['.', '.', '.', ' '] + zero_padded(result.omitted as nat, 0) + seq![' ', 'm', 'o', 'r', 'e', ' ', 'e', 'n', 't', 'r', 'i', 'e', 's']);
            let ghost before = children@;
            let t = FsNode {
                name,
                path,
                kind: FileKind::Other,
                loaded: true,
                loading: false,
                error: None,
                children: Vec::new(),
            };
            let ghost tv = fs_view(t);
            children.push(t);
            proof {
                reveal_strlit("... ");
                reveal_strlit(" more entries");
                reveal_strlit("/__truncated__");
                lemma_children_view(before, before.len() as int);
                lemma_children_view(children@, children@.len() as int);
                assert(children_view(t.children@, 0) =~= Seq::<FsTree>::empty());
                assert(tv == truncated_node(fs_view(*old(node)).path, result.omitted as nat));
                let want = Seq::new(entries.len(), |i: int| fresh_node(entries[i])).push(
                    truncated_node(fs_view(*old(node)).path, result.omitted as nat),
                );
                assert forall|i: int| 0 <= i < children@.len() implies fs_view(#[trigger] children@[i]) == want[i] by {
                    if i < before.len() {
                        assert(children@[i] == before[i]);
                        assert(kids(before)[i] == fs_view(before[i]));
                    } else {
                        assert(children@[i] == t);
                    }
                }
                assert(kids(children@) =~= want);
            }
        }
    }
    node.children = children;
    proof {
        if failed {
            assert(kids(node.children@) =~= Seq::<FsTree>::empty());
        }
        assert(fs_view(*node).children == kids(node.children@));
    }
}

/// The root node of a tree of provided paths at `path`: a loaded directory
/// named by the path's last component (or by `root` when it has none).
pub open spec fn spec_virtual_root(root: Seq<char>, path: Seq<char>) -> FsTree {
    FsTree {
        name: match path_file_name(path) {
            Some(n) => if n.len() > 0 { n } else { root },
            None => root,
        },
        path,
        kind: FileKind::Directory,
        loaded: true,
        loading: false,
        error: None,
        children: Seq::empty(),
    }
}

/// The root node of a tree of provided paths; see [`spec_virtual_root`].
pub fn virtual_root_node_at(root: &str, path: &str) -> (r: FsNode)
    ensures
        fs_view(r) == spec_virtual_root(root@, path@),
{
    let name = match file_name_of(path) {
        Some(n) => if n.as_str().unicode_len() > 0 { n } else { String::from_str(root) },
        None => String::from_str(root),
    };
    let r = FsNode {
        name,
        path: String::from_str(path),
        kind: FileKind::Directory,
        loaded: true,
        loading: false,
        error: None,
        children: Vec::new(),
    };
    proof {
        assert(children_view(r.children@, 0) =~= Seq::<FsTree>::empty());
    }
    r
}

/// The directories the first `k` changed paths open: each path's parent
/// with its ancestors under `root`.
pub open spec fn opened_by_changes(paths: Seq<String>, root: Seq<char>, k: int) -> Set<Seq<char>>
    decreases k,
{
    if k <= 0 || k > paths.len() {
        Set::empty()
    } else {
        opened_by_changes(paths, root, k - 1) + match path_parent(paths[k - 1]@) {
            Some(p) => ancestors_under(p, root),
            None => Set::empty(),
        }
    }
}

/// Expands the directories that hold changed paths, with their ancestors
/// under the root; nothing else in the state changes.
pub fn expand_changed_only_directories(state: &mut FileTreeState, changed_paths: &Vec<String>)
    ensures
        set_of(final(state).expanded@) == set_of(old(state).expanded@) + opened_by_changes(
            changed_paths@,
            old(state).root.path@,
            changed_paths@.len() as int,
        ),
        *final(state) == (FileTreeState { expanded: final(state).expanded, ..*old(state) }),
{
    let ghost start = set_of(state.expanded@);
    let mut k: usize = 0;
    while k < changed_paths.len()
        invariant
            k <= changed_paths@.len(),
            *state == (FileTreeState { expanded: state.expanded, ..*old(state) }),
            start == set_of(old(state).expanded@),
            set_of(state.expanded@) == start + opened_by_changes(changed_paths@, state.root.path@, k as int),
        decreases changed_paths@.len() - k,
    {
        match parent_of(changed_paths[k].as_str()) {
            Some(parent) => {
                insert_path_with_ancestors(&mut state.expanded, parent.as_str(), state.root.path.as_str());
            },
            None => {},
        }
        proof {
            assert(set_of(state.expanded@) =~= start + opened_by_changes(changed_paths@, state.root.path@, k + 1));
        }
        k = k + 1;
    }
}

/// The last of `cs` at `path`.
pub open spec fn child_at(cs: Seq<FsTree>, path: Seq<char>) -> Option<FsTree>
    decreases cs.len(),
{
    if cs.len() == 0 {
        None
    } else if cs.last().path == path {
        Some(cs.last())
    } else {
        child_at(cs.drop_last(), path)
    }
}

/// A projected node with the load state of its source: loaded, loading and
/// error taken from `s`, and each child that `s` also has (by path, the last
/// such) brought up to date the same way.
pub open spec fn spec_sync(p: FsTree, s: FsTree) -> FsTree
    decreases p, 0int,
{
    FsTree {
        loaded: s.loaded,
        loading: s.loading,
        error: s.error,
        children: sync_children(p.children, s, p.children.len() as int),
        ..p
    }
}

/// The first `k` projected children brought up to date from `s`'s.
pub open spec fn sync_children(cs: Seq<FsTree>, s: FsTree, k: int) -> Seq<FsTree>
    decreases cs, k,
{
    if k <= 0 || k > cs.len() {
        Seq::empty()
    } else {
        sync_children(cs, s, k - 1).push(
            match child_at(s.children, cs[k - 1].path) {
                Some(sc) => spec_sync(cs[k - 1], sc),
                None => cs[k - 1],
            },
        )
    }
}

fn find_child(cs: &Vec<FsNode>, path: &String) -> (r: Option<usize>)
    ensures
        match r {
            Some(i) => i < cs@.len() && child_at(kids(cs@), path@) == Some(fs_view(cs@[i as int])),
            None => child_at(kids(cs@), path@) is None,
        },
{
    proof {
        lemma_children_view(cs@, cs@.len() as int);
    }
    let ghost all = kids(cs@);
    let mut k: usize = cs.len();
    proof {
        assert(all.subrange(0, k as int) =~= all);
    }
    while k > 0
        invariant
            k <= cs@.len(),
            all == kids(cs@),
            all == Seq::new(cs@.len(), |i: int| fs_view(cs@[i])),
            child_at(all, path@) == child_at(all.subrange(0, k as int), path@),
        decreases k,
    {
        proof {
            assert(all.subrange(0, k as int).drop_last() =~= all.subrange(0, k - 1));
        }
        if crate::text::str_eq(cs[k - 1].path.as_str(), path.as_str()) {
            proof {
                assert(all.subrange(0, k as int).last() == all[k - 1]);
                assert(all[k - 1] == fs_view(cs@[k - 1]));
            }
            return Some(k - 1);
        }
        k = k - 1;
    }
    None
}

/// Carries load states from `source` over to a projected copy of it; see
/// [`spec_sync`]. Gives the updated copy.
pub fn sync_projected_load_states(projected: &FsNode, source: &FsNode) -> (r: FsNode)
    ensures
        fs_view(r) == spec_sync(fs_view(*projected), fs_view(*source)),
    decreases projected,
{
    let ghost pc = kids(projected.children@);
    proof {
        lemma_children_view(projected.children@, projected.children@.len() as int);
    }
    let mut out: Vec<FsNode> = Vec::new();
    let mut i: usize = 0;
    while i < projected.children.len()
        invariant
            i <= projected.children@.len(),
            out@.len() == i,
            pc == Seq::new(projected.children@.len(), |j: int| fs_view(projected.children@[j])),
            kids(out@) == sync_children(pc, fs_view(*source), i as int),
        decreases projected.children@.len() - i,
    {
        let ghost before = out@;
        let c = &projected.children[i];
        let synced = match find_child(&source.children, &c.path) {
            Some(k) => sync_projected_load_states(c, &source.children[k]),
            None => copy_fs_node(c),
        };
        let ghost sv = fs_view(synced);
        out.push(synced);
        proof {
            lemma_children_view(before, before.len() as int);
            lemma_children_view(out@, out@.len() as int);
            assert(kids(out@) =~= kids(before).push(sv));
        }
        i = i + 1;
    }
    let r = FsNode {
        name: projected.name.clone(),
        path: projected.path.clone(),
        kind: projected.kind,
        loaded: source.loaded,
        loading: source.loading,
        error: match &source.error {
            Some(e) => Some(e.clone()),
            None => None,
        },
        children: out,
    };
    proof {
        assert(fs_view(r).children == kids(out@));
    }
    r
}

} // verus!
