//! What a file tree does with each message it receives and with each change
//! of its properties: the state it moves to, whether it redraws, and the work
//! it hands to its host (explorer searches, git loads, directory reads, the
//! events it emits, focus moves). The host performs that work and feeds the
//! results back as messages.

use std::collections::hash_map::DefaultHasher;
use std::hash::{Hash, Hasher};
use vstd::prelude::*;

use crate::changed_tree::{build_changed_only_root, spec_changed_only_root, fs_view, lemma_children_view, FsNode, FsTree, GitStatusSnapshot};
use crate::explorer::{parent_of, path_parent, ExplorerCandidate};
use crate::file_tree::{
    FileKind, FileTreeChange, FileTreeChangeSource, FileTreeChangeView, FileTreeEvent, FileTreeProps,
    FileTreeToggleEvent,
};
use crate::file_tree_state::{expand_changed_only_directories, opened_by_changes};
use crate::lexpath::{
    ancestors_under, components, copy_strings, insert_path_with_ancestors, insert_unique, is_prefix,
    path_starts_with, set_of,
};
use crate::git::PathMap;
use crate::projection::{is_empty_filter, ExplorerFilter, VisibleFileTreeEntry};
use crate::provided_changes::{effective_initial_snapshot, is_initial_snapshot, needs_git_snapshot};
use crate::text::{char_is_ws, is_ws, str_eq};
use crate::tree_projection::{
    effective_expanded_paths, normalized_reveal_paths, reveal_closure, spec_effective_expanded, spec_reveal_paths,
    FileTreeState,
};
use crate::wrap::strings_view;

verus! {

/// A message a file tree receives from its host: tree events, explorer
/// input and results, git refresh requests and loaded snapshots, checks of
/// the changed-only expansion and of the root's kind, and focus requests.
pub enum FileTreeMsg {
    TreeSelected { entry: Option<VisibleFileTreeEntry> },
    TreeActivated { entry: Option<VisibleFileTreeEntry> },
    TreeToggled { entry: Option<VisibleFileTreeEntry>, expanded: bool },
    ExplorerQueryChanged { text: String, cursor: usize, anchor: usize },
    ExplorerResultsReady { query_id: u64, filter: ExplorerFilter },
    RequestGitRefresh(u64),
    GitSnapshotLoaded { generation: u64, snapshot: GitStatusSnapshot },
    EnsureChangedOnlyExpanded,
    /// Open and load the ancestors of the reveal and select paths;
    /// `canonical` holds the canonical forms of those paths found on disk.
    EnsureRevealPaths { canonical: PathMap<String> },
    SyncRootMode,
    FocusExplorer,
    FocusTree,
}

/// Work a file tree hands to its host.
pub enum FileTreeAction {
    /// Search for `query`: among the entries of the changed-only tree
    /// ([`changed_only_search_candidates`]) when `changed_only`, on disk
    /// under `root` otherwise; answer with `ExplorerResultsReady`.
    SpawnExplorerSearch { query_id: u64, query: String, root: String, changed_only: bool },
    /// Load the git status of the repository holding `root`; answer with
    /// `GitSnapshotLoaded`.
    LoadGitSnapshot { generation: u64, root: String, diff_stats: bool },
    /// Read every expanded directory not loaded yet.
    LoadExpandedDirectories,
    /// Read every directory in `paths` (and, below one read, in `paths`
    /// again) not loaded yet; draw again if any was read.
    LoadDirectories { paths: Vec<String> },
    /// Read the directory at `path` into the tree.
    ReadDirectory { path: String },
    /// Build the root node afresh and hand it to [`install_root`].
    RebuildRoot,
    EmitSelect(FileTreeEvent),
    EmitActivate(FileTreeEvent),
    EmitToggle(FileTreeToggleEvent),
    /// Move focus to the child with this key.
    Focus(String),
}

/// How much of the tree is drawn again after a step: nothing, everything, or
/// what a step that started work asks for.
#[derive(Clone, Copy, Debug, PartialEq, Eq, Structural)]
pub enum FileTreeRedraw {
    Nothing,
    Full,
    WithCommand,
}

/// The outcome of one step.
pub struct FileTreeUpdate {
    pub redraw: FileTreeRedraw,
    pub actions: Vec<FileTreeAction>,
}

/// `x + 1`, staying at the maximum.
pub open spec fn sat_inc(x: u64) -> u64 {
    if x == u64::MAX {
        x
    } else {
        (x + 1) as u64
    }
}

/// `x + 1`, wrapping to zero.
pub open spec fn wrap_inc(x: u64) -> u64 {
    if x == u64::MAX {
        0
    } else {
        (x + 1) as u64
    }
}

/// Whether the tree reads its changes from git and shows something of them.
pub open spec fn spec_needs_git(p: FileTreeProps) -> bool {
    p.change_source is Git && (p.git_status || p.git_diff_stats || p.change_view == FileTreeChangeView::ChangedOnly)
}

/// Whether the tree's root is a virtual node: provided changes shown
/// changed-only.
pub open spec fn spec_virtual_root(p: FileTreeProps) -> bool {
    p.change_source is Provided && p.change_view == FileTreeChangeView::ChangedOnly
}

/// Whether the text is empty once white space is trimmed.
pub open spec fn is_blank(s: Seq<char>) -> bool {
    forall|i: int| 0 <= i < s.len() ==> is_ws(#[trigger] s[i])
}

/// Whether `s` holds only white space.
pub fn text_is_blank(s: &str) -> (r: bool)
    ensures
        r == is_blank(s@),
{
    let n = s.unicode_len();
    let mut i: usize = 0;
    while i < n
        invariant
            n == s@.len(),
            i <= n,
            forall|k: int| 0 <= k < i ==> is_ws(#[trigger] s@[k]),
        decreases n - i,
    {
        if !char_is_ws(s.get_char(i)) {
            return false;
        }
        i = i + 1;
    }
    true
}

/// The text of an optional string.
pub open spec fn opt_text(o: Option<String>) -> Option<Seq<char>> {
    match o {
        Some(s) => Some(s@),
        None => None,
    }
}

/// The directory to reopen when a search is cleared after `path` was
/// selected: the path itself for a directory, else its parent when that lies
/// under the root, else the root.
pub open spec fn restore_directory(path: Seq<char>, kind: FileKind, root: Seq<char>) -> Seq<char> {
    if kind == FileKind::Directory {
        path
    } else {
        match path_parent(path) {
            Some(p) => if is_prefix(components(root), components(p)) {
                p
            } else {
                root
            },
            None => root,
        }
    }
}

/// See [`restore_directory`].
pub fn selected_directory_for_restore(path: &str, kind: FileKind, root_path: &str) -> (r: String)
    ensures
        r@ == restore_directory(path@, kind, root_path@),
{
    if kind == FileKind::Directory {
        return String::from_str(path);
    }
    match parent_of(path) {
        Some(p) => {
            if path_starts_with(p.as_str(), root_path) {
                p
            } else {
                String::from_str(root_path)
            }
        },
        None => String::from_str(root_path),
    }
}

/// The first node at `path`, looking at a node before its children and at
/// children in order.
pub open spec fn find_node(t: FsTree, path: Seq<char>) -> Option<FsTree>
    decreases t, 0int,
{
    if t.path == path {
        Some(t)
    } else {
        find_in(t.children, path, 0)
    }
}

/// The first node at `path` in `cs[i..]` and their subtrees.
pub open spec fn find_in(cs: Seq<FsTree>, path: Seq<char>, i: int) -> Option<FsTree>
    decreases cs, cs.len() - i,
{
    if i < 0 || i >= cs.len() {
        None
    } else {
        match find_node(cs[i], path) {
            Some(n) => Some(n),
            None => find_in(cs, path, i + 1),
        }
    }
}

/// Whether the node at `path` is a directory that has not been read.
pub open spec fn unread_directory_at(t: FsTree, path: Seq<char>) -> bool {
    find_node(t, path) matches Some(n) && n.kind == FileKind::Directory && !n.loaded
}

fn unread_directory_in(n: &FsNode, path: &str) -> (r: Option<bool>)
    ensures
        match find_node(fs_view(*n), path@) {
            Some(t) => r == Some(t.kind == FileKind::Directory && !t.loaded),
            None => r is None,
        },
    decreases n,
{
    if str_eq(n.path.as_str(), path) {
        return Some(n.kind == FileKind::Directory && !n.loaded);
    }
    let ghost kids = fs_view(*n).children;
    proof {
        lemma_children_view(n.children@, n.children@.len() as int);
    }
    let mut i: usize = 0;
    while i < n.children.len()
        invariant
            i <= n.children@.len(),
            kids == fs_view(*n).children,
            kids == Seq::new(n.children@.len(), |k: int| fs_view(n.children@[k])),
            find_node(fs_view(*n), path@) == find_in(kids, path@, i as int),
        decreases n.children@.len() - i,
    {
        let r = unread_directory_in(&n.children[i], path);
        assert(kids[i as int] == fs_view(n.children@[i as int]));
        if r.is_some() {
            return r;
        }
        i = i + 1;
    }
    None
}

/// Whether the node at `path` in the tree is a directory not read yet.
pub fn is_unread_directory(root: &FsNode, path: &str) -> (r: bool)
    ensures
        r == unread_directory_at(fs_view(*root), path@),
{
    match unread_directory_in(root, path) {
        Some(b) => b,
        None => false,
    }
}

/// Removes every copy of `s` from the strings in `v`.
pub fn remove_path(v: &mut Vec<String>, s: &str)
    ensures
        set_of(final(v)@) == set_of(old(v)@).remove(s@),
{
    let mut out: Vec<String> = Vec::new();
    let mut i: usize = 0;
    while i < v.len()
        invariant
            i <= v@.len(),
            forall|t: Seq<char>|
                #![trigger set_of(out@).contains(t)]
                set_of(out@).contains(t) == (t != s@ && exists|k: int| 0 <= k < i && (#[trigger] v@[k])@ == t),
        decreases v@.len() - i,
    {
        let ghost before = out@;
        if !str_eq(v[i].as_str(), s) {
            out.push(v[i].clone());
        }
        proof {
            assert forall|t: Seq<char>|
                set_of(out@).contains(t) == (t != s@ && exists|k: int| 0 <= k < i + 1 && (#[trigger] v@[k])@ == t) by {
                if set_of(out@).contains(t) {
                    let j = choose|j: int| 0 <= j < out@.len() && (#[trigger] out@[j])@ == t;
                    if j < before.len() {
                        assert(before[j] == out@[j]);
                        assert(set_of(before).contains(t));
                    } else {
                        assert(v@[i as int]@ == t);
                    }
                }
                if t != s@ && exists|k: int| 0 <= k < i + 1 && (#[trigger] v@[k])@ == t {
                    let k = choose|k: int| 0 <= k < i + 1 && (#[trigger] v@[k])@ == t;
                    if k < i {
                        assert(set_of(before).contains(t));
                        let j = choose|j: int| 0 <= j < before.len() && (#[trigger] before[j])@ == t;
                        assert(out@[j] == before[j]);
                    } else {
                        assert(out@[before.len() as int]@ == t);
                    }
                }
            }
        }
        i = i + 1;
    }
    proof {
        assert forall|t: Seq<char>| set_of(out@).contains(t) == set_of(old(v)@).remove(s@).contains(t) by {
            if set_of(old(v)@).contains(t) {
                let k = choose|k: int| 0 <= k < old(v)@.len() && (#[trigger] old(v)@[k])@ == t;
                assert(v@[k]@ == t);
            }
        }
        assert(set_of(out@) =~= set_of(old(v)@).remove(s@));
    }
    *v = out;
}

/// The changed paths' signature: zero for none, else a hash of them.
pub open spec fn signature_of_none(paths: Seq<String>, sig: u64) -> bool {
    paths.len() == 0 ==> sig == 0
}

/// Calls `Hash::hash` for `Vec<String>` on the paths with `hasher`. Nothing
/// is stated of the writes it makes: std does not document the bytes a
/// vector and its strings feed the hasher.
#[verifier::external_body]
fn hash_paths_into(paths: &Vec<String>, hasher: &mut DefaultHasher) {
    paths.hash(hasher);
}

/// A signature of the changed paths: zero when there are none.
pub fn change_snapshot_signature(snapshot: &GitStatusSnapshot) -> (r: u64)
    ensures
        signature_of_none(snapshot.changed_paths@, r),
{
    if snapshot.changed_paths.len() == 0 {
        0
    } else {
        let mut hasher = DefaultHasher::new();
        hash_paths_into(&snapshot.changed_paths, &mut hasher);
        hasher.finish()
    }
}

/// Whether the changed-only view may open the directories of the changes:
/// the view is changed-only, the caller does not control expansion, and
/// there are changes.
pub open spec fn may_auto_expand(props: FileTreeProps, st: FileTreeState) -> bool {
    &&& props.change_view == FileTreeChangeView::ChangedOnly
    &&& props.expanded_paths is None
    &&& st.git_snapshot.changed_paths@.len() > 0
}

/// The auto-expansion step for a change-set signature `sig`: it happens
/// (`did`) exactly when [`may_auto_expand`] holds and `sig` differs from the
/// signature recorded; then the directories holding the changes are opened
/// (with their ancestors under the root) and `sig` is recorded; otherwise
/// nothing changes.
pub open spec fn expansion_for(st: FileTreeState, new: FileTreeState, props: FileTreeProps, sig: u64, did: bool) -> bool {
    &&& did == (may_auto_expand(props, st) && st.changed_only_auto_expand_signature != sig)
    &&& did ==> set_of(new.expanded@) == set_of(st.expanded@) + opened_by_changes(
        st.git_snapshot.changed_paths@,
        st.root.path@,
        st.git_snapshot.changed_paths@.len() as int,
    )
    &&& did ==> new == (FileTreeState {
        expanded: new.expanded,
        changed_only_auto_expand_signature: sig,
        ..st
    })
    &&& !did ==> new == st
}

/// One auto-expansion step from `st` to `new` for the signature of the
/// current change set, as [`expansion_for`] says: the signature is a hash
/// of the changed paths (zero for none) whose value depends on the machine,
/// so it is left open here.
pub open spec fn auto_expansion(st: FileTreeState, new: FileTreeState, props: FileTreeProps, did: bool) -> bool {
    exists|sig: u64|
        #![trigger expansion_for(st, new, props, sig, did)]
        signature_of_none(st.git_snapshot.changed_paths@, sig) && expansion_for(st, new, props, sig, did)
}

/// Opens the changed directories when the view may auto-expand and
/// `signature` differs from the one recorded; see [`expansion_for`].
pub fn expand_for_signature(state: &mut FileTreeState, props: &FileTreeProps, signature: u64) -> (did: bool)
    ensures
        expansion_for(*old(state), *final(state), *props, signature, did),
{
    if props.change_view == FileTreeChangeView::ChangedOnly && props.expanded_paths.is_none()
        && state.git_snapshot.changed_paths.len() > 0 && state.changed_only_auto_expand_signature != signature {
        let changed = copy_strings(&state.git_snapshot.changed_paths);
        expand_changed_only_directories(state, &changed);
        proof {
            lemma_opened_same(changed@, old(state).git_snapshot.changed_paths@, state.root.path@);
        }
        state.changed_only_auto_expand_signature = signature;
        return true;
    }
    false
}

fn auto_expand_changed_only(state: &mut FileTreeState, props: &FileTreeProps) -> (did: bool)
    ensures
        auto_expansion(*old(state), *final(state), *props, did),
{
    let signature = change_snapshot_signature(&state.git_snapshot);
    let did = expand_for_signature(state, props, signature);
    assert(expansion_for(*old(state), *state, *props, signature, did));
    did
}

proof fn lemma_opened_same(a: Seq<String>, b: Seq<String>, root: Seq<char>)
    requires
        strings_view(a) == strings_view(b),
    ensures
        opened_by_changes(a, root, a.len() as int) == opened_by_changes(b, root, b.len() as int),
{
    assert(a.len() == strings_view(a).len());
    assert forall|k: int| 0 <= k <= a.len() implies opened_by_changes(a, root, k) == opened_by_changes(b, root, k) by {
        lemma_opened_prefix(a, b, root, k);
    }
}

proof fn lemma_opened_prefix(a: Seq<String>, b: Seq<String>, root: Seq<char>, k: int)
    requires
        strings_view(a) == strings_view(b),
        0 <= k <= a.len(),
    ensures
        opened_by_changes(a, root, k) == opened_by_changes(b, root, k),
    decreases k,
{
    assert(a.len() == strings_view(a).len() && b.len() == strings_view(b).len());
    if k > 0 {
        lemma_opened_prefix(a, b, root, k - 1);
        assert(a[k - 1]@ == strings_view(a)[k - 1]);
        assert(b[k - 1]@ == strings_view(b)[k - 1]);
    }
}

/// A nonce-driven git refresh: acted on only when the tree needs git and the
/// nonce is newer than the last one acted on; then the load generation moves
/// on and one load of the root's repository is asked for with it.
pub open spec fn refresh_step(st: FileTreeState, new: FileTreeState, props: FileTreeProps, nonce: u64, r: FileTreeUpdate) -> bool {
    if spec_needs_git(props) && nonce > st.last_git_refresh_nonce {
        &&& new == (FileTreeState {
            last_git_refresh_nonce: nonce,
            git_load_generation: wrap_inc(st.git_load_generation),
            ..st
        })
        &&& r.redraw == FileTreeRedraw::Nothing
        &&& r.actions@.len() == 1
        &&& r.actions@[0] matches FileTreeAction::LoadGitSnapshot { generation, root, diff_stats } && generation
            == new.git_load_generation && root@ == props.root@ && diff_stats == props.git_diff_stats
    } else {
        &&& new == st
        &&& r.redraw == FileTreeRedraw::Nothing
        &&& r.actions@.len() == 0
    }
}

fn request_git_refresh(state: &mut FileTreeState, props: &FileTreeProps, nonce: u64) -> (r: FileTreeUpdate)
    ensures
        refresh_step(*old(state), *final(state), *props, nonce, r),
{
    if !needs_git_snapshot(props) || nonce <= state.last_git_refresh_nonce {
        return FileTreeUpdate { redraw: FileTreeRedraw::Nothing, actions: Vec::new() };
    }
    state.last_git_refresh_nonce = nonce;
    state.git_load_generation = if state.git_load_generation == u64::MAX {
        0
    } else {
        state.git_load_generation + 1
    };
    let mut actions = Vec::new();
    actions.push(
        FileTreeAction::LoadGitSnapshot {
            generation: state.git_load_generation,
            root: props.root.clone(),
            diff_stats: props.git_diff_stats,
        },
    );
    FileTreeUpdate { redraw: FileTreeRedraw::Nothing, actions }
}

/// A loaded git snapshot: dropped when its generation is stale or the tree
/// no longer needs git; otherwise it replaces the current one, the
/// changed-only view may open the changes' directories, and the tree is
/// drawn again.
pub open spec fn snapshot_step(
    st: FileTreeState,
    new: FileTreeState,
    props: FileTreeProps,
    generation: u64,
    snapshot: GitStatusSnapshot,
    r: FileTreeUpdate,
) -> bool {
    if generation != st.git_load_generation || !spec_needs_git(props) {
        &&& new == st
        &&& r.redraw == FileTreeRedraw::Nothing
        &&& r.actions@.len() == 0
    } else {
        &&& exists|did: bool| auto_expansion(FileTreeState { git_snapshot: snapshot, ..st }, new, props, did)
        &&& r.redraw == FileTreeRedraw::Full
        &&& r.actions@.len() == 0
    }
}

fn git_snapshot_loaded(state: &mut FileTreeState, props: &FileTreeProps, generation: u64, snapshot: GitStatusSnapshot) -> (r:
    FileTreeUpdate)
    ensures
        snapshot_step(*old(state), *final(state), *props, generation, snapshot, r),
{
    if generation != state.git_load_generation || !needs_git_snapshot(props) {
        return FileTreeUpdate { redraw: FileTreeRedraw::Nothing, actions: Vec::new() };
    }
    state.git_snapshot = snapshot;
    let ghost mid = *state;
    let did = auto_expand_changed_only(state, props);
    assert(auto_expansion(mid, *state, *props, did));
    FileTreeUpdate { redraw: FileTreeRedraw::Full, actions: Vec::new() }
}

/// A check of the changed-only expansion: drawn again only when it opened
/// directories.
pub open spec fn ensure_expanded_step(st: FileTreeState, new: FileTreeState, props: FileTreeProps, r: FileTreeUpdate) -> bool {
    &&& exists|did: bool|
        auto_expansion(st, new, props, did) && r.redraw == (if did {
            FileTreeRedraw::Full
        } else {
            FileTreeRedraw::Nothing
        })
    &&& r.actions@.len() == 0
}

fn ensure_changed_only_expanded(state: &mut FileTreeState, props: &FileTreeProps) -> (r: FileTreeUpdate)
    ensures
        ensure_expanded_step(*old(state), *final(state), *props, r),
{
    let did = auto_expand_changed_only(state, props);
    let redraw = if did {
        FileTreeRedraw::Full
    } else {
        FileTreeRedraw::Nothing
    };
    FileTreeUpdate { redraw, actions: Vec::new() }
}

/// A selected row: while a search is shown, the directory to reopen once it
/// is cleared is recorded; the selection is passed on.
pub open spec fn selected_step(st: FileTreeState, new: FileTreeState, entry: Option<VisibleFileTreeEntry>, r: FileTreeUpdate) -> bool {
    match entry {
        None => new == st && r.redraw == FileTreeRedraw::Nothing && r.actions@.len() == 0,
        Some(e) => {
            &&& if !is_blank(st.explorer_text@) {
                &&& opt_text(new.search_found_dir) == Some(restore_directory(e.path@, e.kind, st.root.path@))
                &&& new == (FileTreeState { search_found_dir: new.search_found_dir, ..st })
            } else {
                new == st
            }
            &&& r.redraw == FileTreeRedraw::Nothing
            &&& r.actions@.len() == 1
            &&& r.actions@[0] matches FileTreeAction::EmitSelect(ev) && ev.path@ == e.path@ && ev.kind == e.kind
        },
    }
}

fn tree_selected(state: &mut FileTreeState, entry: Option<VisibleFileTreeEntry>) -> (r: FileTreeUpdate)
    ensures
        selected_step(*old(state), *final(state), entry, r),
{
    let mut actions = Vec::new();
    match entry {
        Some(e) => {
            if !text_is_blank(state.explorer_text.as_str()) {
                let dir = selected_directory_for_restore(e.path.as_str(), e.kind, state.root.path.as_str());
                state.search_found_dir = Some(dir);
            }
            actions.push(FileTreeAction::EmitSelect(FileTreeEvent { path: e.path, kind: e.kind }));
        },
        None => {},
    }
    FileTreeUpdate { redraw: FileTreeRedraw::Nothing, actions }
}

/// An activated row is passed on; nothing else changes.
pub open spec fn activated_step(st: FileTreeState, new: FileTreeState, entry: Option<VisibleFileTreeEntry>, r: FileTreeUpdate) -> bool {
    &&& new == st
    &&& r.redraw == FileTreeRedraw::Nothing
    &&& match entry {
        None => r.actions@.len() == 0,
        Some(e) => r.actions@.len() == 1 && (r.actions@[0] matches FileTreeAction::EmitActivate(ev) && ev.path@
            == e.path@ && ev.kind == e.kind),
    }
}

fn tree_activated(entry: Option<VisibleFileTreeEntry>) -> (r: FileTreeUpdate)
    ensures
        forall|st: FileTreeState| activated_step(st, st, entry, r),
{
    let mut actions = Vec::new();
    match entry {
        Some(e) => {
            actions.push(FileTreeAction::EmitActivate(FileTreeEvent { path: e.path, kind: e.kind }));
        },
        None => {},
    }
    FileTreeUpdate { redraw: FileTreeRedraw::Nothing, actions }
}

/// A toggled row: unless the caller controls expansion, the path joins or
/// leaves the expanded set; the toggle is passed on; an expanded directory
/// not read yet is read, outside the changed-only view.
pub open spec fn toggled_step(
    st: FileTreeState,
    new: FileTreeState,
    props: FileTreeProps,
    entry: Option<VisibleFileTreeEntry>,
    expanded: bool,
    r: FileTreeUpdate,
) -> bool {
    match entry {
        None => new == st && r.redraw == FileTreeRedraw::Full && r.actions@.len() == 0,
        Some(e) => {
            let read = props.change_view != FileTreeChangeView::ChangedOnly && expanded && unread_directory_at(
                fs_view(st.root),
                e.path@,
            );
            &&& props.expanded_paths is None ==> set_of(new.expanded@) == (if expanded {
                set_of(st.expanded@).insert(e.path@)
            } else {
                set_of(st.expanded@).remove(e.path@)
            })
            &&& props.expanded_paths is Some ==> new.expanded == st.expanded
            &&& new == (FileTreeState { expanded: new.expanded, ..st })
            &&& r.redraw == FileTreeRedraw::Full
            &&& r.actions@.len() == (if read {
                2nat
            } else {
                1nat
            })
            &&& r.actions@[0] matches FileTreeAction::EmitToggle(ev) && ev.path@ == e.path@ && ev.kind == e.kind
                && ev.expanded == expanded
            &&& read ==> (r.actions@[1] matches FileTreeAction::ReadDirectory { path } && path@ == e.path@)
        },
    }
}

fn tree_toggled(state: &mut FileTreeState, props: &FileTreeProps, entry: Option<VisibleFileTreeEntry>, expanded: bool) -> (r:
    FileTreeUpdate)
    ensures
        toggled_step(*old(state), *final(state), *props, entry, expanded, r),
{
    let mut actions = Vec::new();
    match entry {
        Some(e) => {
            if props.expanded_paths.is_none() {
                if expanded {
                    insert_unique(&mut state.expanded, e.path.clone());
                } else {
                    remove_path(&mut state.expanded, e.path.as_str());
                }
            }
            let read = props.change_view != FileTreeChangeView::ChangedOnly && expanded && is_unread_directory(
                &state.root,
                e.path.as_str(),
            );
            let path = e.path.clone();
            actions.push(FileTreeAction::EmitToggle(FileTreeToggleEvent { path: e.path, kind: e.kind, expanded }));
            if read {
                actions.push(FileTreeAction::ReadDirectory { path });
            }
        },
        None => {},
    }
    FileTreeUpdate { redraw: FileTreeRedraw::Full, actions }
}

/// Where a search runs: the shown root in the changed-only view, the
/// configured root otherwise.
pub open spec fn search_root(st: FileTreeState, props: FileTreeProps) -> Seq<char> {
    if props.change_view == FileTreeChangeView::ChangedOnly {
        st.root.path@
    } else {
        props.root@
    }
}

/// A new explorer input. A blank query ends the search: the filter is
/// cleared, the expanded set from before the search comes back, with the
/// directory found (or the filter's primary directory) and its ancestors
/// opened. Any other query starts a search under the next query id, keeping
/// the expanded set from before the first query.
pub open spec fn query_step(
    st: FileTreeState,
    new: FileTreeState,
    props: FileTreeProps,
    text: String,
    cursor: usize,
    anchor: usize,
    r: FileTreeUpdate,
) -> bool {
    let typed = FileTreeState { explorer_text: text, explorer_cursor: cursor, explorer_anchor: anchor, ..st };
    if is_blank(text@) {
        let restore = if st.search_found_dir is Some {
            opt_text(st.search_found_dir)
        } else {
            opt_text(st.explorer_filter.primary_match_directory)
        };
        let base = match st.search_expanded_snapshot {
            Some(v) => set_of(v@),
            None => set_of(st.expanded@),
        };
        &&& is_empty_filter(new.explorer_filter)
        &&& set_of(new.expanded@) == base + match restore {
            Some(p) => ancestors_under(p, st.root.path@),
            None => Set::empty(),
        }
        &&& new == (FileTreeState {
            expanded: new.expanded,
            explorer_filter: new.explorer_filter,
            search_expanded_snapshot: None,
            search_found_dir: None,
            ..typed
        })
        &&& r.redraw == FileTreeRedraw::Full
        &&& r.actions@.len() == 1
        &&& r.actions@[0] is LoadExpandedDirectories
    } else {
        &&& st.search_expanded_snapshot is None ==> (new.search_expanded_snapshot matches Some(v) && strings_view(v@)
            == strings_view(st.expanded@) && new.search_found_dir is None)
        &&& st.search_expanded_snapshot is Some ==> new.search_expanded_snapshot == st.search_expanded_snapshot
            && new.search_found_dir == st.search_found_dir
        &&& new == (FileTreeState {
            explorer_query_id: sat_inc(st.explorer_query_id),
            search_expanded_snapshot: new.search_expanded_snapshot,
            search_found_dir: new.search_found_dir,
            ..typed
        })
        &&& r.redraw == FileTreeRedraw::WithCommand
        &&& r.actions@.len() == 1
        &&& r.actions@[0] matches FileTreeAction::SpawnExplorerSearch { query_id, query, root, changed_only }
            && query_id == new.explorer_query_id && query@ == text@ && root@ == search_root(st, props) && changed_only
            == (props.change_view == FileTreeChangeView::ChangedOnly)
    }
}

fn query_changed(state: &mut FileTreeState, props: &FileTreeProps, text: String, cursor: usize, anchor: usize) -> (r:
    FileTreeUpdate)
    ensures
        query_step(*old(state), *final(state), *props, text, cursor, anchor, r),
{
    let query = text.clone();
    state.explorer_text = text;
    state.explorer_cursor = cursor;
    state.explorer_anchor = anchor;
    if text_is_blank(query.as_str()) {
        let restore = match &state.search_found_dir {
            Some(d) => Some(d.clone()),
            None => match &state.explorer_filter.primary_match_directory {
                Some(d) => Some(d.clone()),
                None => None,
            },
        };
        state.explorer_filter = ExplorerFilter::default();
        let snapshot = state.search_expanded_snapshot.take();
        match snapshot {
            Some(v) => {
                state.expanded = v;
            },
            None => {},
        }
        let ghost base = set_of(state.expanded@);
        match restore {
            Some(p) => {
                insert_path_with_ancestors(&mut state.expanded, p.as_str(), state.root.path.as_str());
            },
            None => {
                assert(set_of(state.expanded@) =~= base + Set::empty());
            },
        }
        state.search_found_dir = None;
        let mut actions = Vec::new();
        actions.push(FileTreeAction::LoadExpandedDirectories);
        return FileTreeUpdate { redraw: FileTreeRedraw::Full, actions };
    }
    if state.search_expanded_snapshot.is_none() {
        state.search_expanded_snapshot = Some(copy_strings(&state.expanded));
        state.search_found_dir = None;
    }
    state.explorer_query_id = if state.explorer_query_id == u64::MAX {
        u64::MAX
    } else {
        state.explorer_query_id + 1
    };
    let root = if props.change_view == FileTreeChangeView::ChangedOnly {
        state.root.path.clone()
    } else {
        props.root.clone()
    };
    let mut actions = Vec::new();
    let changed_only = props.change_view == FileTreeChangeView::ChangedOnly;
    actions.push(FileTreeAction::SpawnExplorerSearch { query_id: state.explorer_query_id, query, root, changed_only });
    FileTreeUpdate { redraw: FileTreeRedraw::WithCommand, actions }
}

/// Search results: dropped when they answer an older query or the input is
/// blank; otherwise the filter is taken, the directory to reopen is set from
/// it unless one was chosen, and the directories it opens are expanded.
pub open spec fn results_step(st: FileTreeState, new: FileTreeState, query_id: u64, filter: ExplorerFilter, r: FileTreeUpdate) -> bool {
    if query_id != st.explorer_query_id || is_blank(st.explorer_text@) {
        &&& new == st
        &&& r.redraw == FileTreeRedraw::Nothing
        &&& r.actions@.len() == 0
    } else {
        &&& opt_text(new.search_found_dir) == (if st.search_found_dir is None {
            opt_text(filter.primary_match_directory)
        } else {
            opt_text(st.search_found_dir)
        })
        &&& set_of(new.expanded@) == set_of(st.expanded@) + set_of(filter.expanded_paths@)
        &&& new == (FileTreeState {
            expanded: new.expanded,
            explorer_filter: filter,
            search_found_dir: new.search_found_dir,
            ..st
        })
        &&& r.redraw == FileTreeRedraw::Full
        &&& r.actions@.len() == 1
        &&& r.actions@[0] is LoadExpandedDirectories
    }
}

fn results_ready(state: &mut FileTreeState, query_id: u64, filter: ExplorerFilter) -> (r: FileTreeUpdate)
    ensures
        results_step(*old(state), *final(state), query_id, filter, r),
{
    if query_id != state.explorer_query_id || text_is_blank(state.explorer_text.as_str()) {
        return FileTreeUpdate { redraw: FileTreeRedraw::Nothing, actions: Vec::new() };
    }
    state.explorer_filter = filter;
    if state.search_found_dir.is_none() {
        state.search_found_dir = match &state.explorer_filter.primary_match_directory {
            Some(d) => Some(d.clone()),
            None => None,
        };
    }
    let ghost start = set_of(state.expanded@);
    let ghost fp = state.explorer_filter.expanded_paths@;
    let ghost mid = *state;
    let mut i: usize = 0;
    while i < state.explorer_filter.expanded_paths.len()
        invariant
            i <= fp.len(),
            fp == state.explorer_filter.expanded_paths@,
            *state == (FileTreeState { expanded: state.expanded, ..mid }),
            mid.explorer_filter == filter,
            mid.root == old(state).root,
            mid == (FileTreeState { explorer_filter: filter, search_found_dir: mid.search_found_dir, ..*old(state) }),
            opt_text(mid.search_found_dir) == (if old(state).search_found_dir is None {
                opt_text(filter.primary_match_directory)
            } else {
                opt_text(old(state).search_found_dir)
            }),
            start == set_of(old(state).expanded@),
            forall|t: Seq<char>|
                #![trigger set_of(state.expanded@).contains(t)]
                set_of(state.expanded@).contains(t) == (start.contains(t) || exists|k: int|
                    0 <= k < i && (#[trigger] fp[k])@ == t),
        decreases fp.len() - i,
    {
        let p = state.explorer_filter.expanded_paths[i].clone();
        let ghost before = set_of(state.expanded@);
        insert_unique(&mut state.expanded, p);
        proof {
            assert forall|t: Seq<char>|
                set_of(state.expanded@).contains(t) == (start.contains(t) || exists|k: int|
                    0 <= k < i + 1 && (#[trigger] fp[k])@ == t) by {
                if t == fp[i as int]@ {
                    assert(exists|k: int| 0 <= k < i + 1 && (#[trigger] fp[k])@ == t);
                }
                if exists|k: int| 0 <= k < i + 1 && (#[trigger] fp[k])@ == t {
                    let k = choose|k: int| 0 <= k < i + 1 && (#[trigger] fp[k])@ == t;
                    if k < i {
                        assert(before.contains(t));
                    }
                }
                if before.contains(t) {
                }
            }
        }
        i = i + 1;
    }
    proof {
        assert forall|t: Seq<char>| set_of(state.expanded@).contains(t) == (start + set_of(fp)).contains(t) by {
            if set_of(fp).contains(t) {
                let k = choose|k: int| 0 <= k < fp.len() && (#[trigger] fp[k])@ == t;
                assert(exists|k: int| 0 <= k < i && (#[trigger] fp[k])@ == t);
            }
        }
        assert(set_of(state.expanded@) =~= start + set_of(fp));
    }
    let mut actions = Vec::new();
    actions.push(FileTreeAction::LoadExpandedDirectories);
    FileTreeUpdate { redraw: FileTreeRedraw::Full, actions }
}

/// A focus request: focus moves to the child with `key`; nothing else
/// changes.
pub open spec fn focus_step(st: FileTreeState, new: FileTreeState, key: Seq<char>, r: FileTreeUpdate) -> bool {
    &&& new == st
    &&& r.redraw == FileTreeRedraw::Nothing
    &&& r.actions@.len() == 1
    &&& r.actions@[0] matches FileTreeAction::Focus(k) && k@ == key
}

fn focus(key: &str) -> (r: FileTreeUpdate)
    ensures
        forall|st: FileTreeState| focus_step(st, st, key@, r),
{
    let mut actions = Vec::new();
    actions.push(FileTreeAction::Focus(String::from_str(key)));
    FileTreeUpdate { redraw: FileTreeRedraw::Nothing, actions }
}

/// The key of the explorer's input.
pub open spec fn input_key() -> Seq<char> {
    seq!['_', '_', 'f', 't', '_', 'i', 'n', 'p', 'u', 't']
}

/// The key of the tree.
pub open spec fn tree_key() -> Seq<char> {
    seq!['_', '_', 'f', 't', '_', 't', 'r', 'e', 'e']
}


/// The state for a new root, before its node arrives: the root's kind per
/// `props`, nothing expanded, the initial snapshot, the next load
/// generation after `g`, the props' refresh nonce, and the explorer's filter
/// and search bookkeeping cleared.
pub open spec fn reset_for_root(st: FileTreeState, new: FileTreeState, props: FileTreeProps, g: u64) -> bool {
    &&& new == (FileTreeState {
        root_virtual: spec_virtual_root(props),
        expanded: new.expanded,
        git_snapshot: new.git_snapshot,
        git_load_generation: wrap_inc(g),
        last_git_refresh_nonce: props.git_refresh_nonce,
        changed_only_auto_expand_signature: 0,
        explorer_filter: new.explorer_filter,
        search_expanded_snapshot: None,
        search_found_dir: None,
        ..st
    })
    &&& new.expanded@.len() == 0
    &&& is_empty_filter(new.explorer_filter)
    &&& is_initial_snapshot(props, props.root@, new.git_snapshot)
}

fn reset_root_state(state: &mut FileTreeState, props: &FileTreeProps)
    ensures
        reset_for_root(*old(state), *final(state), *props, old(state).git_load_generation),
{
    state.root_virtual = is_virtual_root(props);
    state.expanded = Vec::new();
    state.git_snapshot = effective_initial_snapshot(props, props.root.as_str());
    state.git_load_generation = if state.git_load_generation == u64::MAX {
        0
    } else {
        state.git_load_generation + 1
    };
    state.last_git_refresh_nonce = props.git_refresh_nonce;
    state.changed_only_auto_expand_signature = 0;
    state.explorer_filter = ExplorerFilter::default();
    state.search_expanded_snapshot = None;
    state.search_found_dir = None;
}

/// A check of the root's kind: when it no longer matches the properties the
/// state is reset for a new root, whose node is asked of the host.
pub open spec fn sync_root_step(st: FileTreeState, new: FileTreeState, props: FileTreeProps, r: FileTreeUpdate) -> bool {
    if st.root_virtual == spec_virtual_root(props) {
        &&& new == st
        &&& r.redraw == FileTreeRedraw::Nothing
        &&& r.actions@.len() == 0
    } else {
        &&& reset_for_root(st, new, props, st.git_load_generation)
        &&& r.redraw == FileTreeRedraw::Full
        &&& r.actions@.len() == 1
        &&& r.actions@[0] is RebuildRoot
    }
}

fn sync_root_mode(state: &mut FileTreeState, props: &FileTreeProps) -> (r: FileTreeUpdate)
    ensures
        sync_root_step(*old(state), *final(state), *props, r),
{
    if state.root_virtual == is_virtual_root(props) {
        return FileTreeUpdate { redraw: FileTreeRedraw::Nothing, actions: Vec::new() };
    }
    reset_root_state(state, props);
    let mut actions = Vec::new();
    actions.push(FileTreeAction::RebuildRoot);
    FileTreeUpdate { redraw: FileTreeRedraw::Full, actions }
}

/// What one message does to the state, see the step of each kind.
pub open spec fn update_step(st: FileTreeState, new: FileTreeState, props: FileTreeProps, msg: FileTreeMsg, r: FileTreeUpdate) -> bool {
    match msg {
        FileTreeMsg::TreeSelected { entry } => selected_step(st, new, entry, r),
        FileTreeMsg::TreeActivated { entry } => activated_step(st, new, entry, r),
        FileTreeMsg::TreeToggled { entry, expanded } => toggled_step(st, new, props, entry, expanded, r),
        FileTreeMsg::ExplorerQueryChanged { text, cursor, anchor } => query_step(st, new, props, text, cursor, anchor, r),
        FileTreeMsg::ExplorerResultsReady { query_id, filter } => results_step(st, new, query_id, filter, r),
        FileTreeMsg::RequestGitRefresh(nonce) => refresh_step(st, new, props, nonce, r),
        FileTreeMsg::GitSnapshotLoaded { generation, snapshot } => snapshot_step(st, new, props, generation, snapshot, r),
        FileTreeMsg::EnsureChangedOnlyExpanded => ensure_expanded_step(st, new, props, r),
        FileTreeMsg::EnsureRevealPaths { canonical } => reveal_step(st, new, props, canonical, r),
        FileTreeMsg::SyncRootMode => sync_root_step(st, new, props, r),
        FileTreeMsg::FocusExplorer => focus_step(st, new, input_key(), r),
        FileTreeMsg::FocusTree => focus_step(st, new, tree_key(), r),
    }
}

/// Handles one message: the state moves on as [`update_step`] says, and the
/// work to be done is handed back.
pub fn file_tree_update(state: &mut FileTreeState, props: &FileTreeProps, msg: FileTreeMsg) -> (r: FileTreeUpdate)
    ensures
        update_step(*old(state), *final(state), *props, msg, r),
{
    match msg {
        FileTreeMsg::TreeSelected { entry } => tree_selected(state, entry),
        FileTreeMsg::TreeActivated { entry } => tree_activated(entry),
        FileTreeMsg::TreeToggled { entry, expanded } => tree_toggled(state, props, entry, expanded),
        FileTreeMsg::ExplorerQueryChanged { text, cursor, anchor } => query_changed(state, props, text, cursor, anchor),
        FileTreeMsg::ExplorerResultsReady { query_id, filter } => results_ready(state, query_id, filter),
        FileTreeMsg::RequestGitRefresh(nonce) => request_git_refresh(state, props, nonce),
        FileTreeMsg::GitSnapshotLoaded { generation, snapshot } => git_snapshot_loaded(state, props, generation, snapshot),
        FileTreeMsg::EnsureChangedOnlyExpanded => ensure_changed_only_expanded(state, props),
        FileTreeMsg::EnsureRevealPaths { canonical } => ensure_reveal_paths(state, props, &canonical),
        FileTreeMsg::SyncRootMode => sync_root_mode(state, props),
        FileTreeMsg::FocusExplorer => {
            proof {
                reveal_strlit("__ft_input");
                assert("__ft_input"@ =~= input_key());
            }
            focus("__ft_input")
        },
        FileTreeMsg::FocusTree => {
            proof {
                reveal_strlit("__ft_tree");
                assert("__ft_tree"@ =~= tree_key());
            }
            focus("__ft_tree")
        },
    }
}

/// A change as plain values.
pub open spec fn change_fields(c: FileTreeChange) -> (Seq<char>, crate::file_tree::FileTreeChangeStatus, Option<FileKind>, usize, usize, bool) {
    (c.path@, c.status, c.kind, c.additions, c.deletions, c.staged)
}

/// Whether two change sources are equal: both git, or both the same list of
/// changes.
pub open spec fn same_change_source(a: FileTreeChangeSource, b: FileTreeChangeSource) -> bool {
    match (a, b) {
        (FileTreeChangeSource::Git, FileTreeChangeSource::Git) => true,
        (FileTreeChangeSource::Provided(x), FileTreeChangeSource::Provided(y)) => x@.len() == y@.len() && forall|i: int|
            0 <= i < x@.len() ==> change_fields(#[trigger] x@[i]) == change_fields(y@[i]),
        _ => false,
    }
}

fn same_change(a: &FileTreeChange, b: &FileTreeChange) -> (r: bool)
    ensures
        r == (change_fields(*a) == change_fields(*b)),
{
    let kinds = match (a.kind, b.kind) {
        (Some(x), Some(y)) => x == y,
        (None, None) => true,
        _ => false,
    };
    str_eq(a.path.as_str(), b.path.as_str()) && a.status == b.status && kinds && a.additions == b.additions
        && a.deletions == b.deletions && a.staged == b.staged
}

/// See [`same_change_source`].
pub fn change_sources_equal(a: &FileTreeChangeSource, b: &FileTreeChangeSource) -> (r: bool)
    ensures
        r == same_change_source(*a, *b),
{
    match (a, b) {
        (FileTreeChangeSource::Git, FileTreeChangeSource::Git) => true,
        (FileTreeChangeSource::Provided(x), FileTreeChangeSource::Provided(y)) => {
            if x.len() != y.len() {
                return false;
            }
            let mut i: usize = 0;
            while i < x.len()
                invariant
                    i <= x@.len(),
                    x@.len() == y@.len(),
                    *a == FileTreeChangeSource::Provided(*x),
                    *b == FileTreeChangeSource::Provided(*y),
                    forall|k: int| 0 <= k < i ==> change_fields(#[trigger] x@[k]) == change_fields(y@[k]),
                decreases x@.len() - i,
            {
                if !same_change(&x[i], &y[i]) {
                    assert(change_fields(x@[i as int]) != change_fields(y@[i as int]));
                    return false;
                }
                i = i + 1;
            }
            true
        },
        _ => false,
    }
}

/// Whether two optional path sets hold the same paths.
pub open spec fn same_path_sets(a: Option<Vec<String>>, b: Option<Vec<String>>) -> bool {
    match (a, b) {
        (None, None) => true,
        (Some(x), Some(y)) => set_of(x@) == set_of(y@),
        _ => false,
    }
}

fn subset_of(a: &Vec<String>, b: &Vec<String>) -> (r: bool)
    ensures
        r == set_of(a@).subset_of(set_of(b@)),
{
    let mut i: usize = 0;
    while i < a.len()
        invariant
            i <= a@.len(),
            forall|k: int| 0 <= k < i ==> set_of(b@).contains(#[trigger] a@[k]@),
        decreases a@.len() - i,
    {
        if !crate::lexpath::set_contains(b, a[i].as_str()) {
            assert(set_of(a@).contains(a@[i as int]@));
            return false;
        }
        i = i + 1;
    }
    assert forall|t: Seq<char>| set_of(a@).contains(t) implies set_of(b@).contains(t) by {
        let k = choose|k: int| 0 <= k < a@.len() && (#[trigger] a@[k])@ == t;
    }
    true
}

/// See [`same_path_sets`].
pub fn path_sets_equal(a: &Option<Vec<String>>, b: &Option<Vec<String>>) -> (r: bool)
    ensures
        r == same_path_sets(*a, *b),
{
    match (a, b) {
        (None, None) => true,
        (Some(x), Some(y)) => {
            let r = subset_of(x, y) && subset_of(y, x);
            proof {
                if r {
                    assert(set_of(x@) =~= set_of(y@));
                }
            }
            r
        },
        _ => false,
    }
}

/// A change of properties. The load generation moves on when the root, the
/// change source, the line-count option or the need for git changes; a
/// change of root or of root kind (virtual or on disk) resets the state for
/// a new root (its node comes from the host), a change of the change source
/// alone resets the snapshot. The tree is drawn again when any of these
/// changed, when the caller's expanded set changed, or when git is to be
/// loaded: because it is newly needed, or its root or line-count option
/// changed.
pub open spec fn props_step(st: FileTreeState, new: FileTreeState, old_props: FileTreeProps, props: FileTreeProps, r: FileTreeUpdate) -> bool {
    let root_changed = old_props.root@ != props.root@;
    let source_changed = !same_change_source(old_props.change_source, props.change_source);
    let root_mode = root_changed || spec_virtual_root(old_props) != spec_virtual_root(props);
    let load = spec_needs_git(props) && (!spec_needs_git(old_props) || root_changed || old_props.git_diff_stats
        != props.git_diff_stats);
    let bump = root_changed || source_changed || old_props.git_diff_stats != props.git_diff_stats || spec_needs_git(
        old_props,
    ) != spec_needs_git(props);
    let g = if bump {
        wrap_inc(st.git_load_generation)
    } else {
        st.git_load_generation
    };
    let dirty = root_mode || source_changed || !same_path_sets(old_props.expanded_paths, props.expanded_paths) || load;
    &&& root_mode ==> reset_for_root(st, new, props, g)
    &&& (!root_mode && source_changed) ==> new == (FileTreeState {
        git_load_generation: g,
        git_snapshot: new.git_snapshot,
        ..st
    }) && is_initial_snapshot(props, props.root@, new.git_snapshot)
    &&& (!root_mode && !source_changed) ==> new == (FileTreeState { git_load_generation: g, ..st })
    &&& r.redraw == (if dirty {
        FileTreeRedraw::WithCommand
    } else {
        FileTreeRedraw::Nothing
    })
    &&& r.actions@.len() == (if root_mode {
        1int
    } else {
        0int
    }) + (if load {
        1int
    } else {
        0int
    })
    &&& root_mode ==> r.actions@[0] is RebuildRoot
    &&& load ==> (r.actions@.last() matches FileTreeAction::LoadGitSnapshot { generation, root, diff_stats }
        && generation == new.git_load_generation && root@ == props.root@ && diff_stats == props.git_diff_stats)
}

fn is_virtual_root(props: &FileTreeProps) -> (r: bool)
    ensures
        r == spec_virtual_root(*props),
{
    match props.change_source {
        FileTreeChangeSource::Provided(_) => props.change_view == FileTreeChangeView::ChangedOnly,
        FileTreeChangeSource::Git => false,
    }
}

/// Handles a change of properties from `old_props` to `props`, as
/// [`props_step`] says.
pub fn file_tree_on_props_changed(state: &mut FileTreeState, old_props: &FileTreeProps, props: &FileTreeProps) -> (r:
    FileTreeUpdate)
    ensures
        props_step(*old(state), *final(state), *old_props, *props, r),
{
    let root_changed = !str_eq(old_props.root.as_str(), props.root.as_str());
    let source_changed = !change_sources_equal(&old_props.change_source, &props.change_source);
    let root_mode = root_changed || is_virtual_root(old_props) != is_virtual_root(props);
    let needs_now = needs_git_snapshot(props);
    let needed_before = needs_git_snapshot(old_props);
    let load = needs_now && (!needed_before || root_changed || old_props.git_diff_stats != props.git_diff_stats);
    if root_changed || source_changed || old_props.git_diff_stats != props.git_diff_stats || needed_before != needs_now {
        state.git_load_generation = if state.git_load_generation == u64::MAX {
            0
        } else {
            state.git_load_generation + 1
        };
    }
    let mut actions = Vec::new();
    if root_mode {
        reset_root_state(state, props);
        actions.push(FileTreeAction::RebuildRoot);
    } else if source_changed {
        state.git_snapshot = effective_initial_snapshot(props, props.root.as_str());
    }
    let dirty = root_mode || source_changed || !path_sets_equal(&old_props.expanded_paths, &props.expanded_paths)
        || load;
    if load {
        actions.push(
            FileTreeAction::LoadGitSnapshot {
                generation: state.git_load_generation,
                root: props.root.clone(),
                diff_stats: props.git_diff_stats,
            },
        );
    }
    let redraw = if dirty {
        FileTreeRedraw::WithCommand
    } else {
        FileTreeRedraw::Nothing
    };
    FileTreeUpdate { redraw, actions }
}

/// Installs a freshly built root node: it becomes the tree's root and the
/// only expanded path.
pub fn install_root(state: &mut FileTreeState, root: FsNode)
    ensures
        *final(state) == (FileTreeState { root, expanded: final(state).expanded, ..*old(state) }),
        strings_view(final(state).expanded@) == seq![root.path@],
{
    let path = root.path.clone();
    state.root = root;
    let mut expanded = Vec::new();
    expanded.push(path);
    state.expanded = expanded;
    assert(strings_view(state.expanded@) =~= seq![root.path@]);
}

/// What drawing the tree decides besides the projection itself: the
/// follow-up work to ask for (resyncing the root's kind, a git refresh for a
/// new nonce, opening the changed directories, revealing configured paths),
/// whether the explorer's filter applies, whether the explorer input is
/// shown, and the match count it shows.
pub struct FileTreeViewPlan {
    pub sync_root: bool,
    pub refresh_nonce: Option<u64>,
    pub ensure_changed_only: bool,
    pub reveal_paths: bool,
    pub filter_active: bool,
    pub show_explorer: bool,
    pub match_count: usize,
}

/// See [`FileTreeViewPlan`]. Opening the changed directories is asked for
/// only where [`may_auto_expand`] holds and the changes' signature differs
/// from the one recorded.
pub fn file_tree_view_plan(state: &FileTreeState, props: &FileTreeProps) -> (r: FileTreeViewPlan)
    ensures
        r.sync_root == (state.root_virtual != spec_virtual_root(*props)),
        r.refresh_nonce == (if spec_needs_git(*props) && props.git_refresh_nonce != state.last_git_refresh_nonce {
            Some(props.git_refresh_nonce)
        } else {
            None
        }),
        exists|sig: u64|
            #![trigger signature_of_none(state.git_snapshot.changed_paths@, sig)]
            signature_of_none(state.git_snapshot.changed_paths@, sig) && r.ensure_changed_only == (may_auto_expand(
                *props,
                *state,
            ) && state.changed_only_auto_expand_signature != sig),
        r.reveal_paths == (props.reveal_path is Some || props.select_path is Some),
        r.filter_active == (props.explorer && !is_blank(state.explorer_text@)),
        r.show_explorer == props.explorer,
        r.match_count == state.explorer_filter.match_count,
{
    let refresh_nonce = if needs_git_snapshot(props) && props.git_refresh_nonce != state.last_git_refresh_nonce {
        Some(props.git_refresh_nonce)
    } else {
        None
    };
    let signature = change_snapshot_signature(&state.git_snapshot);
    let ensure_changed_only = props.change_view == FileTreeChangeView::ChangedOnly && props.expanded_paths.is_none()
        && state.git_snapshot.changed_paths.len() > 0 && state.changed_only_auto_expand_signature != signature;
    assert(signature_of_none(state.git_snapshot.changed_paths@, signature));
    FileTreeViewPlan {
        sync_root: state.root_virtual != is_virtual_root(props),
        refresh_nonce,
        ensure_changed_only,
        reveal_paths: props.reveal_path.is_some() || props.select_path.is_some(),
        filter_active: props.explorer && !text_is_blank(state.explorer_text.as_str()),
        show_explorer: props.explorer,
        match_count: state.explorer_filter.match_count,
    }
}

/// Revealing the reveal and select paths (resolved under the root with the
/// canonical forms in `canonical`): nothing when none resolves; otherwise,
/// unless the caller controls expansion, their ancestors under the root are
/// opened, the tree is drawn again when that opened anything, and the
/// directories of the effective expanded set are to be loaded.
pub open spec fn reveal_step(
    st: FileTreeState,
    new: FileTreeState,
    props: FileTreeProps,
    canonical: PathMap<String>,
    r: FileTreeUpdate,
) -> bool {
    let root = st.root.path@;
    let reveal = spec_reveal_paths(props, root, canonical);
    if reveal.len() == 0 {
        &&& new == st
        &&& r.redraw == FileTreeRedraw::Nothing
        &&& r.actions@.len() == 0
    } else {
        &&& props.expanded_paths is None ==> set_of(new.expanded@) == set_of(st.expanded@) + reveal_closure(
            reveal,
            root,
            reveal.len() as int,
        )
        &&& props.expanded_paths is Some ==> new.expanded == st.expanded
        &&& new == (FileTreeState { expanded: new.expanded, ..st })
        &&& r.redraw == (if set_of(new.expanded@) == set_of(st.expanded@) {
            FileTreeRedraw::Nothing
        } else {
            FileTreeRedraw::Full
        })
        &&& r.actions@.len() == 1
        &&& r.actions@[0] matches FileTreeAction::LoadDirectories { paths } && set_of(paths@) == spec_effective_expanded(
            props,
            st.expanded@,
            root,
            canonical,
        )
    }
}

/// See [`reveal_step`].
pub fn ensure_reveal_paths(state: &mut FileTreeState, props: &FileTreeProps, canonical: &PathMap<String>) -> (r:
    FileTreeUpdate)
    ensures
        reveal_step(*old(state), *final(state), *props, *canonical, r),
{
    let reveal = normalized_reveal_paths(props, state.root.path.as_str(), canonical);
    if reveal.len() == 0 {
        return FileTreeUpdate { redraw: FileTreeRedraw::Nothing, actions: Vec::new() };
    }
    let paths = effective_expanded_paths(props, &state.expanded, state.root.path.as_str(), canonical);
    let mut redraw = FileTreeRedraw::Nothing;
    if props.expanded_paths.is_none() {
        let grown = copy_strings(&paths);
        proof {
            assert(set_of(grown@) =~= set_of(paths@)) by {
                assert forall|t: Seq<char>| set_of(grown@).contains(t) == set_of(paths@).contains(t) by {
                    assert(strings_view(grown@).len() == grown@.len());
                    assert(strings_view(paths@).len() == paths@.len());
                    if set_of(grown@).contains(t) {
                        let i = choose|i: int| 0 <= i < grown@.len() && (#[trigger] grown@[i])@ == t;
                        assert(strings_view(grown@)[i] == strings_view(paths@)[i]);
                        assert(paths@[i]@ == t);
                    }
                    if set_of(paths@).contains(t) {
                        let i = choose|i: int| 0 <= i < paths@.len() && (#[trigger] paths@[i])@ == t;
                        assert(strings_view(grown@)[i] == strings_view(paths@)[i]);
                        assert(grown@[i]@ == t);
                    }
                }
            }
        }
        if !subset_of(&grown, &state.expanded) {
            redraw = FileTreeRedraw::Full;
        } else {
            proof {
                assert(set_of(grown@) =~= set_of(state.expanded@));
            }
        }
        state.expanded = grown;
    }
    let mut actions = Vec::new();
    actions.push(FileTreeAction::LoadDirectories { paths });
    FileTreeUpdate { redraw, actions }
}

/// An entry as a search candidate: its path, its label and whether it is a
/// directory.
pub open spec fn candidate_of(t: FsTree) -> (Seq<char>, Seq<char>, bool) {
    (t.path, t.name, t.kind == FileKind::Directory)
}

/// The candidates of a subtree in preorder, its top entry first.
pub open spec fn tree_candidates(t: FsTree) -> Seq<(Seq<char>, Seq<char>, bool)>
    decreases t, 0int,
{
    seq![candidate_of(t)] + children_candidates(t.children, t.children.len() as int)
}

/// The candidates of the first `k` subtrees, in order.
pub open spec fn children_candidates(cs: Seq<FsTree>, k: int) -> Seq<(Seq<char>, Seq<char>, bool)>
    decreases cs, k,
{
    if k <= 0 || k > cs.len() {
        Seq::empty()
    } else {
        children_candidates(cs, k - 1) + tree_candidates(cs[k - 1])
    }
}

/// Candidates as values.
pub open spec fn candidates_view(v: Seq<ExplorerCandidate>) -> Seq<(Seq<char>, Seq<char>, bool)> {
    v.map_values(|c: ExplorerCandidate| (c.path@, c.label@, c.is_dir))
}

fn push_candidate(out: &mut Vec<ExplorerCandidate>, n: &FsNode)
    ensures
        candidates_view(final(out)@) == candidates_view(old(out)@).push(candidate_of(fs_view(*n))),
{
    out.push(ExplorerCandidate { path: n.path.clone(), label: n.name.clone(), is_dir: n.kind == FileKind::Directory });
    assert(candidates_view(out@) =~= candidates_view(old(out)@).push(candidate_of(fs_view(*n))));
}

fn collect_children_candidates(n: &FsNode, out: &mut Vec<ExplorerCandidate>)
    ensures
        candidates_view(final(out)@) == candidates_view(old(out)@) + children_candidates(
            fs_view(*n).children,
            fs_view(*n).children.len() as int,
        ),
    decreases n, 0int,
{
    let ghost kids = fs_view(*n).children;
    proof {
        lemma_children_view(n.children@, n.children@.len() as int);
    }
    let ghost start = candidates_view(out@);
    let mut i: usize = 0;
    while i < n.children.len()
        invariant
            i <= n.children@.len(),
            kids == fs_view(*n).children,
            kids == Seq::new(n.children@.len(), |k: int| fs_view(n.children@[k])),
            candidates_view(out@) == start + children_candidates(kids, i as int),
        decreases n.children@.len() - i,
    {
        collect_tree_candidates(&n.children[i], out);
        assert(kids[i as int] == fs_view(n.children@[i as int]));
        assert(children_candidates(kids, i + 1) == children_candidates(kids, i as int) + tree_candidates(kids[i as int]));
        i = i + 1;
    }
}

fn collect_tree_candidates(n: &FsNode, out: &mut Vec<ExplorerCandidate>)
    ensures
        candidates_view(final(out)@) == candidates_view(old(out)@) + tree_candidates(fs_view(*n)),
    decreases n, 1int,
{
    push_candidate(out, n);
    collect_children_candidates(n, out);
}

/// What a search in the changed-only view looks through: every entry of the
/// changed-only tree below its root, in preorder. `probed` holds the kinds
/// of changed paths found on disk.
pub fn changed_only_search_candidates(state: &FileTreeState, show_hidden: bool, probed: &PathMap<FileKind>) -> (r: Vec<
    ExplorerCandidate,
>)
    ensures
        candidates_view(r@) == children_candidates(
            spec_changed_only_root(state.root, state.git_snapshot, show_hidden, *probed).children,
            spec_changed_only_root(state.root, state.git_snapshot, show_hidden, *probed).children.len() as int,
        ),
{
    let root = build_changed_only_root(&state.root, &state.git_snapshot, show_hidden, probed);
    let mut out: Vec<ExplorerCandidate> = Vec::new();
    assert(candidates_view(out@) =~= Seq::empty());
    collect_children_candidates(&root, &mut out);
    out
}

/// Unless the caller controls expansion, opening an entry makes it
/// expanded, closing it makes it not, and opening then closing it leaves the
/// other expanded entries as they were; either way the toggle is reported
/// with the entry's path and the new state.
pub proof fn law_toggle_open_close(
    st: FileTreeState,
    mid: FileTreeState,
    fin: FileTreeState,
    props: FileTreeProps,
    e: VisibleFileTreeEntry,
    r1: FileTreeUpdate,
    r2: FileTreeUpdate,
)
    requires
        props.expanded_paths is None,
        toggled_step(st, mid, props, Some(e), true, r1),
        toggled_step(mid, fin, props, Some(e), false, r2),
    ensures
        set_of(mid.expanded@).contains(e.path@),
        !set_of(fin.expanded@).contains(e.path@),
        set_of(fin.expanded@) == set_of(st.expanded@).remove(e.path@),
        r1.actions@[0] matches FileTreeAction::EmitToggle(ev) && ev.path@ == e.path@ && ev.expanded,
        r2.actions@[0] matches FileTreeAction::EmitToggle(ev) && ev.path@ == e.path@ && !ev.expanded,
        fin == (FileTreeState { expanded: fin.expanded, ..st }),
{
    assert(set_of(st.expanded@).insert(e.path@).remove(e.path@) =~= set_of(st.expanded@).remove(e.path@));
}

/// Search results answer the latest query only: after a query is typed and
/// then another, the results of the first are ignored (nothing changes and
/// nothing is redrawn), while the results of the second are taken in.
pub proof fn law_stale_results_ignored(
    s0: FileTreeState,
    s1: FileTreeState,
    s2: FileTreeState,
    props: FileTreeProps,
    t1: String,
    t2: String,
    c1: usize,
    a1: usize,
    c2: usize,
    a2: usize,
    r1: FileTreeUpdate,
    r2: FileTreeUpdate,
    f: ExplorerFilter,
    s3: FileTreeState,
    r3: FileTreeUpdate,
    s4: FileTreeState,
    r4: FileTreeUpdate,
)
    requires
        s0.explorer_query_id < u64::MAX - 1,
        !is_blank(t1@),
        !is_blank(t2@),
        query_step(s0, s1, props, t1, c1, a1, r1),
        query_step(s1, s2, props, t2, c2, a2, r2),
        r1.actions@[0] matches FileTreeAction::SpawnExplorerSearch { query_id, .. } && results_step(
            s2,
            s3,
            query_id,
            f,
            r3,
        ),
        r2.actions@[0] matches FileTreeAction::SpawnExplorerSearch { query_id, .. } && results_step(
            s2,
            s4,
            query_id,
            f,
            r4,
        ),
    ensures
        s3 == s2,
        r3.redraw == FileTreeRedraw::Nothing && r3.actions@.len() == 0,
        s4.explorer_filter == f,
        r4.redraw == FileTreeRedraw::Full,
{
}

} // verus!
