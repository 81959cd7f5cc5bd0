//! Change sets an application provides in place of git: each change
//! resolved under the root, its decorations rolled up to every ancestor, and
//! the changed paths listed in order without repeats.

use vstd::prelude::*;

use crate::changed_tree::{text_lt, GitStatusSnapshot};
use crate::file_tree::{
    FileKind, FileTreeChange, FileTreeChangeSource, FileTreeChangeStatus, FileTreeChangeView, FileTreeProps,
};
use crate::git::{
    insert_decoration, keys_unique, spec_lookup, spec_merge_decorations, GitChangeState, GitDiffStat, GitFileDecorations,
    GitFileStatus, PathMap,
};
use crate::lexpath::{
    components, is_prefix, lexical, parent_floor, path_components, render_comps, render_components,
    resolve_provided_path, set_of, spec_resolve_provided, push_copy, components_prefix,
};
use crate::explorer::{parent_of, path_parent};
use crate::lexpath::path_starts_with;
use crate::wrap::strings_view;

verus! {

proof fn lemma_text_lt_irreflexive(a: Seq<char>)
    ensures
        !text_lt(a, a),
    decreases a.len(),
{
    if a.len() > 0 {
        lemma_text_lt_irreflexive(a.drop_first());
    }
}

proof fn lemma_text_lt_total(a: Seq<char>, b: Seq<char>)
    ensures
        a != b ==> text_lt(a, b) || text_lt(b, a),
        !(text_lt(a, b) && text_lt(b, a)),
    decreases a.len(),
{
    if a.len() > 0 && b.len() > 0 {
        lemma_text_lt_total(a.drop_first(), b.drop_first());
        if a[0] == b[0] && a != b {
            assert(a =~= seq![a[0]] + a.drop_first());
            assert(b =~= seq![b[0]] + b.drop_first());
        }
    } else if a.len() == 0 && b.len() == 0 {
        assert(a =~= b);
    }
}

proof fn lemma_text_lt_transitive(a: Seq<char>, b: Seq<char>, c: Seq<char>)
    requires
        text_lt(a, b),
        text_lt(b, c),
    ensures
        text_lt(a, c),
    decreases a.len(),
{
    if a.len() > 0 && b.len() > 0 && c.len() > 0 {
        if a[0] == b[0] && b[0] == c[0] {
            lemma_text_lt_transitive(a.drop_first(), b.drop_first(), c.drop_first());
        }
    }
}

/// Whether the texts are in strictly increasing order.
pub open spec fn strictly_sorted(s: Seq<Seq<char>>) -> bool {
    forall|i: int, j: int| 0 <= i < j < s.len() ==> text_lt(#[trigger] s[i], #[trigger] s[j])
}

fn text_less(a: &str, b: &str) -> (r: bool)
    ensures
        r == text_lt(a@, b@),
{
    let n = a.unicode_len();
    let m = b.unicode_len();
    let mut i: usize = 0;
    proof {
        assert(a@.subrange(0, n as int) =~= a@);
        assert(b@.subrange(0, m as int) =~= b@);
    }
    while i < n && i < m
        invariant
            n == a@.len(),
            m == b@.len(),
            i <= n,
            i <= m,
            text_lt(a@, b@) == text_lt(a@.subrange(i as int, n as int), b@.subrange(i as int, m as int)),
        decreases n - i,
    {
        let x = a.get_char(i);
        let y = b.get_char(i);
        proof {
            let sa = a@.subrange(i as int, n as int);
            let sb = b@.subrange(i as int, m as int);
            assert(sa.drop_first() =~= a@.subrange(i + 1, n as int));
            assert(sb.drop_first() =~= b@.subrange(i + 1, m as int));
            assert(sa[0] == x && sb[0] == y);
        }
        if x != y {
            return (x as u32) < (y as u32);
        }
        i = i + 1;
    }
    i < m && i == n
}

/// Adds `s` to a strictly sorted list unless it is there already.
pub fn insert_sorted_unique(v: &mut Vec<String>, s: String)
    requires
        strictly_sorted(strings_view(old(v)@)),
    ensures
        strictly_sorted(strings_view(final(v)@)),
        set_of(final(v)@) == set_of(old(v)@).insert(s@),
{
    let ghost sv = strings_view(v@);
    let n = v.len();
    let mut j: usize = 0;
    while j < n
        invariant
            n == v@.len(),
            j <= n,
            sv == strings_view(v@),
            forall|k: int| 0 <= k < j ==> text_lt(#[trigger] sv[k], s@),
        ensures
            j <= n,
            forall|k: int| 0 <= k < j ==> text_lt(#[trigger] sv[k], s@),
            j < n ==> !text_lt(sv[j as int], s@),
        decreases n - j,
    {
        if !text_less(v[j].as_str(), s.as_str()) {
            break;
        }
        j = j + 1;
    }
    if j < n && crate::text::str_eq(v[j].as_str(), s.as_str()) {
        proof {
            assert(set_of(v@) =~= set_of(v@).insert(s@)) by {
                assert(v@[j as int]@ == s@);
            }
        }
        return;
    }
    proof {
        if j < n {
            lemma_text_lt_total(sv[j as int], s@);
            assert(text_lt(s@, sv[j as int]));
        }
    }
    let ghost before = v@;
    v.insert(j, s);
    proof {
        let nv = strings_view(v@);
        assert(nv =~= sv.insert(j as int, s@));
        assert forall|a: int, b: int| 0 <= a < b < nv.len() implies text_lt(#[trigger] nv[a], #[trigger] nv[b]) by {
            if a < j && b < j {
                assert(nv[a] == sv[a] && nv[b] == sv[b]);
            } else if a < j && b == j {
                assert(nv[a] == sv[a]);
            } else if a < j && b > j {
                assert(nv[a] == sv[a] && nv[b] == sv[b - 1]);
                if a < b - 1 {
                    assert(text_lt(sv[a], sv[b - 1]));
                }
            } else if a == j {
                assert(nv[b] == sv[b - 1]);
                if b - 1 > j {
                    assert(text_lt(sv[j as int], sv[b - 1]));
                    lemma_text_lt_transitive(s@, sv[j as int], sv[b - 1]);
                }
            } else {
                assert(nv[a] == sv[a - 1] && nv[b] == sv[b - 1]);
            }
        }
        assert forall|t: Seq<char>| set_of(v@).contains(t) <==> set_of(before).insert(s@).contains(t) by {
            if set_of(v@).contains(t) {
                let k = choose|k: int| 0 <= k < v@.len() && (#[trigger] v@[k])@ == t;
                if k < j {
                    assert(before[k] == v@[k]);
                } else if k > j {
                    assert(before[k - 1] == v@[k]);
                }
            }
            if set_of(before).contains(t) {
                let k = choose|k: int| 0 <= k < before.len() && (#[trigger] before[k])@ == t;
                if k < j {
                    assert(v@[k] == before[k]);
                } else {
                    assert(v@[k + 1] == before[k]);
                }
            }
            if t == s@ {
                assert(v@[j as int]@ == s@);
            }
        }
        assert(set_of(v@) =~= set_of(before).insert(s@));
    }
}

/// The status a provided change reports: staged or unstaged.
pub open spec fn spec_provided_status(status: FileTreeChangeStatus, staged: bool) -> GitFileStatus {
    let state = Some(change_state(status));
    if staged {
        GitFileStatus { staged: state, unstaged: None }
    } else {
        GitFileStatus { staged: None, unstaged: state }
    }
}

pub open spec fn change_state(status: FileTreeChangeStatus) -> GitChangeState {
    match status {
        FileTreeChangeStatus::Modified => GitChangeState::Modified,
        FileTreeChangeStatus::Added => GitChangeState::Added,
        FileTreeChangeStatus::Deleted => GitChangeState::Deleted,
        FileTreeChangeStatus::Renamed => GitChangeState::Renamed,
        FileTreeChangeStatus::Untracked => GitChangeState::Untracked,
        FileTreeChangeStatus::Conflicted => GitChangeState::Conflicted,
    }
}

/// The status a provided change reports.
pub fn provided_status(status: FileTreeChangeStatus, staged: bool) -> (r: GitFileStatus)
    ensures
        r == spec_provided_status(status, staged),
{
    let state = Some(GitChangeState::from_change_status(status));
    if staged {
        GitFileStatus::new(state, None)
    } else {
        GitFileStatus::new(None, state)
    }
}

/// The paths of the ancestors of the first `k` components of `c`, nearest
/// first, stopping after the one equal to `rc` (or where there is no parent).
pub open spec fn parent_chain(c: Seq<Seq<char>>, rc: Seq<Seq<char>>, k: int) -> Seq<Seq<char>>
    decreases k,
{
    if k <= parent_floor(c) || k > c.len() {
        Seq::empty()
    } else {
        let p = c.subrange(0, k - 1);
        seq![render_comps(p)] + if p == rc {
            Seq::empty()
        } else {
            parent_chain(c, rc, k - 1)
        }
    }
}

/// `d` recorded at `full` and, as not direct, at each of its ancestors up to
/// the root.
pub open spec fn rolled_up(full: Seq<char>, root: Seq<char>, d: GitFileDecorations) -> Seq<
    (Seq<char>, GitFileDecorations),
> {
    let c = components(full);
    let chain = parent_chain(c, components(root), c.len() as int);
    seq![(full, d)] + Seq::new(chain.len(), |i: int| (chain[i], GitFileDecorations { direct: false, ..d }))
}

/// The decorations a provided change records, in order: its status, then
/// its line counts when it has any.
pub open spec fn change_events(root: Seq<char>, ch: FileTreeChange) -> Seq<(Seq<char>, GitFileDecorations)> {
    match spec_resolve_provided(root, ch.path@) {
        None => Seq::empty(),
        Some(full) => {
            let status = GitFileDecorations {
                status: spec_provided_status(ch.status, ch.staged),
                diff_stat: None,
                direct: true,
            };
            let diff = GitFileDecorations {
                status: GitFileStatus { staged: None, unstaged: None },
                diff_stat: Some(GitDiffStat { added: ch.additions, removed: ch.deletions }),
                direct: true,
            };
            rolled_up(full, root, status) + if ch.additions > 0 || ch.deletions > 0 {
                rolled_up(full, root, diff)
            } else {
                Seq::empty()
            }
        },
    }
}

/// The decoration at `key` after merging in the first `j` events.
pub open spec fn apply_events(
    base: Option<GitFileDecorations>,
    evs: Seq<(Seq<char>, GitFileDecorations)>,
    j: int,
    key: Seq<char>,
) -> Option<GitFileDecorations>
    decreases j,
{
    if j <= 0 || j > evs.len() {
        base
    } else {
        let prev = apply_events(base, evs, j - 1, key);
        if evs[j - 1].0 == key {
            Some(
                match prev {
                    Some(e) => spec_merge_decorations(e, evs[j - 1].1),
                    None => evs[j - 1].1,
                },
            )
        } else {
            prev
        }
    }
}

/// The decoration at `key` after the first `k` provided changes.
pub open spec fn provided_decoration(root: Seq<char>, changes: Seq<FileTreeChange>, k: int, key: Seq<char>) -> Option<
    GitFileDecorations,
>
    decreases k,
{
    if k <= 0 || k > changes.len() {
        None
    } else {
        let evs = change_events(root, changes[k - 1]);
        apply_events(provided_decoration(root, changes, k - 1, key), evs, evs.len() as int, key)
    }
}

/// The kind recorded for `key` by the first `k` changes: the last change at
/// `key` that names a kind.
pub open spec fn provided_kind(root: Seq<char>, changes: Seq<FileTreeChange>, k: int, key: Seq<char>) -> Option<
    FileKind,
>
    decreases k,
{
    if k <= 0 || k > changes.len() {
        None
    } else if spec_resolve_provided(root, changes[k - 1].path@) == Some(key) && changes[k - 1].kind is Some {
        changes[k - 1].kind
    } else {
        provided_kind(root, changes, k - 1, key)
    }
}

/// Whether some of the first `k` changes resolves to `key`.
pub open spec fn provided_changed(root: Seq<char>, changes: Seq<FileTreeChange>, k: int, key: Seq<char>) -> bool
    decreases k,
{
    if k <= 0 || k > changes.len() {
        false
    } else {
        spec_resolve_provided(root, changes[k - 1].path@) == Some(key) || provided_changed(root, changes, k - 1, key)
    }
}

proof fn lemma_apply_events_step(
    base: Option<GitFileDecorations>,
    evs: Seq<(Seq<char>, GitFileDecorations)>,
    e: (Seq<char>, GitFileDecorations),
    key: Seq<char>,
)
    ensures
        apply_events(base, evs.push(e), evs.len() as int + 1, key) == if e.0 == key {
            Some(
                match apply_events(base, evs, evs.len() as int, key) {
                    Some(x) => spec_merge_decorations(x, e.1),
                    None => e.1,
                },
            )
        } else {
            apply_events(base, evs, evs.len() as int, key)
        },
{
    lemma_apply_events_prefix(base, evs, e, key, evs.len() as int);
}

proof fn lemma_apply_events_prefix(
    base: Option<GitFileDecorations>,
    evs: Seq<(Seq<char>, GitFileDecorations)>,
    e: (Seq<char>, GitFileDecorations),
    key: Seq<char>,
    j: int,
)
    requires
        0 <= j <= evs.len(),
    ensures
        apply_events(base, evs.push(e), j, key) == apply_events(base, evs, j, key),
    decreases j,
{
    if j > 0 {
        assert(evs.push(e)[j - 1] == evs[j - 1]);
        lemma_apply_events_prefix(base, evs, e, key, j - 1);
    }
}

fn record(
    entries: &mut PathMap<GitFileDecorations>,
    path: String,
    d: GitFileDecorations,
    Ghost(base): Ghost<spec_fn(Seq<char>) -> Option<GitFileDecorations>>,
    Ghost(done): Ghost<Seq<(Seq<char>, GitFileDecorations)>>,
)
    requires
        keys_unique(old(entries).entries@),
        forall|key: Seq<char>|
            #[trigger] spec_lookup(old(entries).entries@, key) == apply_events(base(key), done, done.len() as int, key),
    ensures
        keys_unique(final(entries).entries@),
        forall|key: Seq<char>|
            #[trigger] spec_lookup(final(entries).entries@, key) == apply_events(
                base(key),
                done.push((path@, d)),
                done.len() as int + 1,
                key,
            ),
{
    let ghost pv = path@;
    insert_decoration(entries, path, d);
    proof {
        assert forall|key: Seq<char>|
            #[trigger] spec_lookup(entries.entries@, key) == apply_events(
                base(key),
                done.push((pv, d)),
                done.len() as int + 1,
                key,
            ) by {
            lemma_apply_events_step(base(key), done, (pv, d), key);
        }
    }
}

fn take_prefix(c: &Vec<String>, k: usize) -> (r: Vec<String>)
    requires
        k <= c@.len(),
    ensures
        strings_view(r@) == strings_view(c@).subrange(0, k as int),
{
    let mut r: Vec<String> = Vec::new();
    let mut i: usize = 0;
    while i < k
        invariant
            k <= c@.len(),
            i <= k,
            strings_view(r@) == strings_view(c@).subrange(0, i as int),
        decreases k - i,
    {
        push_copy(&mut r, &c[i]);
        proof {
            assert(strings_view(c@).subrange(0, i + 1) =~= strings_view(c@).subrange(0, i as int).push(c@[i as int]@));
        }
        i = i + 1;
    }
    r
}

/// Records `d` at `full` and, not direct, at each ancestor up to `root`.
fn record_rolled_up(
    entries: &mut PathMap<GitFileDecorations>,
    full: &String,
    root: &str,
    rc: &Vec<String>,
    d: GitFileDecorations,
    Ghost(base): Ghost<spec_fn(Seq<char>) -> Option<GitFileDecorations>>,
    Ghost(done): Ghost<Seq<(Seq<char>, GitFileDecorations)>>,
)
    requires
        strings_view(rc@) == components(root@),
        keys_unique(old(entries).entries@),
        forall|key: Seq<char>|
            #[trigger] spec_lookup(old(entries).entries@, key) == apply_events(base(key), done, done.len() as int, key),
    ensures
        keys_unique(final(entries).entries@),
        forall|key: Seq<char>|
            #[trigger] spec_lookup(final(entries).entries@, key) == apply_events(
                base(key),
                done + rolled_up(full@, root@, d),
                (done + rolled_up(full@, root@, d)).len() as int,
                key,
            ),
{
    record(entries, full.clone(), d, Ghost(base), Ghost(done));
    let ghost mut now = done.push((full@, d));
    let c = path_components(full.as_str());
    let ghost cv = strings_view(c@);
    let ghost rv = strings_view(rc@);
    let ghost chain = parent_chain(cv, rv, cv.len() as int);
    let indirect = GitFileDecorations { direct: false, ..d };
    let floor: usize = if c.len() > 0 && crate::text::str_eq(c[0].as_str(), "/") { 1 } else { 0 };
    proof {
        reveal_strlit("/");
        assert("/"@ =~= crate::lexpath::root_comp());
        assert(floor == parent_floor(cv));
    }
    let mut k: usize = c.len();
    let ghost mut taken: Seq<Seq<char>> = Seq::empty();
    proof {
        assert(chain =~= taken + parent_chain(cv, rv, k as int));
        assert(now =~= done + seq![(full@, d)] + Seq::new(taken.len(), |i: int| (taken[i], indirect)));
    }
    while k > floor
        invariant_except_break
            chain == taken + parent_chain(cv, rv, k as int),
        invariant
            k <= c@.len(),
            cv == strings_view(c@),
            rv == strings_view(rc@),
            floor == parent_floor(cv),
            now == done + seq![(full@, d)] + Seq::new(taken.len(), |i: int| (taken[i], indirect)),
            keys_unique(entries.entries@),
            forall|key: Seq<char>|
                #[trigger] spec_lookup(entries.entries@, key) == apply_events(base(key), now, now.len() as int, key),
        ensures
            keys_unique(entries.entries@),
            chain == taken,
            now == done + seq![(full@, d)] + Seq::new(taken.len(), |i: int| (taken[i], indirect)),
            forall|key: Seq<char>|
                #[trigger] spec_lookup(entries.entries@, key) == apply_events(base(key), now, now.len() as int, key),
        decreases k,
    {
        let p = take_prefix(&c, k - 1);
        let text = render_components(&p);
        let at_root = p.len() == rc.len() && components_prefix(&p, rc);
        let ghost tv = text@;
        record(entries, text, indirect, Ghost(base), Ghost(now));
        proof {
            let pv = cv.subrange(0, k - 1);
            assert(strings_view(p@) == pv);
            assert(at_root == (pv == rv)) by {
                if at_root {
                    assert(rv.subrange(0, pv.len() as int) =~= rv);
                }
                if pv == rv {
                    assert(rv.subrange(0, rv.len() as int) =~= rv);
                }
            }
            assert(parent_chain(cv, rv, k as int) == seq![render_comps(pv)] + if pv == rv {
                Seq::empty()
            } else {
                parent_chain(cv, rv, k - 1)
            });
            let new_taken = taken.push(tv);
            assert(now.push((tv, indirect)) =~= done + seq![(full@, d)] + Seq::new(
                new_taken.len(),
                |i: int| (new_taken[i], indirect),
            ));
            now = now.push((tv, indirect));
            if at_root {
                assert(chain =~= new_taken);
            } else {
                assert(chain =~= new_taken + parent_chain(cv, rv, k - 1));
            }
            taken = new_taken;
        }
        if at_root {
            break;
        }
        k = k - 1;
    }
    proof {
        assert(done + rolled_up(full@, root@, d) =~= now);
    }
}

/// The snapshot of a provided change set under `root` (the root as
/// resolved): each change resolved under the root (changes outside it are
/// dropped), its status and line counts merged into its path and every
/// ancestor up to the root, its kind recorded, and the changed paths listed
/// in increasing order without repeats. The changes are virtual: they need
/// not exist on disk.
pub fn provided_change_snapshot(root: &str, changes: &Vec<FileTreeChange>) -> (r: GitStatusSnapshot)
    ensures
        forall|key: Seq<char>|
            #[trigger] spec_lookup(r.entries.entries@, key) == provided_decoration(
                root@,
                changes@,
                changes@.len() as int,
                key,
            ),
        forall|key: Seq<char>|
            #[trigger] spec_lookup(r.kinds.entries@, key) == provided_kind(root@, changes@, changes@.len() as int, key),
        strictly_sorted(strings_view(r.changed_paths@)),
        forall|key: Seq<char>|
            #[trigger] set_of(r.changed_paths@).contains(key) == provided_changed(
                root@,
                changes@,
                changes@.len() as int,
                key,
            ),
        r.virtual_changes,
        keys_unique(r.entries.entries@),
        keys_unique(r.kinds.entries@),
{
    let rc = path_components(root);
    let mut entries: PathMap<GitFileDecorations> = PathMap::new();
    let mut kinds: PathMap<FileKind> = PathMap::new();
    let mut changed: Vec<String> = Vec::new();
    let mut k: usize = 0;
    proof {
        assert forall|t: Seq<char>| set_of(changed@).contains(t) == provided_changed(root@, changes@, 0, t) by {}
    }
    while k < changes.len()
        invariant
            k <= changes@.len(),
            strings_view(rc@) == components(root@),
            keys_unique(entries.entries@),
            keys_unique(kinds.entries@),
            forall|key: Seq<char>|
                #[trigger] spec_lookup(entries.entries@, key) == provided_decoration(root@, changes@, k as int, key),
            forall|key: Seq<char>|
                #[trigger] spec_lookup(kinds.entries@, key) == provided_kind(root@, changes@, k as int, key),
            strictly_sorted(strings_view(changed@)),
            forall|key: Seq<char>|
                #[trigger] set_of(changed@).contains(key) == provided_changed(root@, changes@, k as int, key),
        decreases changes@.len() - k,
    {
        let ch = &changes[k];
        let ghost base = |key: Seq<char>| provided_decoration(root@, changes@, k as int, key);
        let ghost evs = change_events(root@, *ch);
        match resolve_provided_path(root, ch.path.as_str()) {
            Some(full) => {
                let status = GitFileDecorations {
                    status: provided_status(ch.status, ch.staged),
                    diff_stat: None,
                    direct: true,
                };
                proof {
                    assert forall|key: Seq<char>|
                        #[trigger] spec_lookup(entries.entries@, key) == apply_events(
                            base(key),
                            Seq::empty(),
                            0,
                            key,
                        ) by {}
                }
                record_rolled_up(&mut entries, &full, root, &rc, status, Ghost(base), Ghost(Seq::empty()));
                let ghost first = Seq::<(Seq<char>, GitFileDecorations)>::empty() + rolled_up(full@, root@, status);
                if ch.additions > 0 || ch.deletions > 0 {
                    let diff = GitFileDecorations {
                        status: GitFileStatus::new(None, None),
                        diff_stat: Some(GitDiffStat::new(ch.additions, ch.deletions)),
                        direct: true,
                    };
                    record_rolled_up(&mut entries, &full, root, &rc, diff, Ghost(base), Ghost(first));
                    proof {
                        assert(first + rolled_up(full@, root@, diff) =~= evs);
                    }
                } else {
                    proof {
                        assert(first =~= evs);
                    }
                }
                if let Some(kind) = ch.kind {
                    kinds.insert(full.clone(), kind);
                }
                insert_sorted_unique(&mut changed, full);
            },
            None => {
                proof {
                    assert(evs =~= Seq::<(Seq<char>, GitFileDecorations)>::empty());
                }
            },
        }
        k = k + 1;
    }
    GitStatusSnapshot { entries, changed_paths: changed, kinds, virtual_changes: true }
}

/// The root a provided change set is resolved under: its canonical form
/// when it exists on disk, else the root made absolute against `cwd` and
/// normalized by text.
pub open spec fn spec_provided_root_path(root: Seq<char>, canonical: Option<Seq<char>>, cwd: Seq<char>) -> Seq<char> {
    match canonical {
        Some(c) => c,
        None => lexical(crate::lexpath::join_text(cwd, root)),
    }
}

/// The root a provided change set is resolved under; see
/// [`spec_provided_root_path`].
pub fn provided_root_path(root: &str, canonical: Option<&str>, cwd: &str) -> (r: String)
    ensures
        r@ == spec_provided_root_path(
            root@,
            match canonical {
                Some(c) => Some(c@),
                None => None,
            },
            cwd@,
        ),
{
    match canonical {
        Some(c) => String::from_str(c),
        None => {
            let joined = crate::lexpath::join_path(cwd, root);
            crate::lexpath::lexical_normalize_path(joined.as_str())
        },
    }
}

/// Whether the tree needs a snapshot from the local git repository: its
/// changes come from git, and statuses, line counts or the changed-only view
/// are shown.
pub fn needs_git_snapshot(props: &FileTreeProps) -> (r: bool)
    ensures
        r == (props.change_source is Git && (props.git_status || props.git_diff_stats || props.change_view
            == FileTreeChangeView::ChangedOnly)),
{
    match props.change_source {
        FileTreeChangeSource::Git => props.git_status || props.git_diff_stats || props.change_view
            == FileTreeChangeView::ChangedOnly,
        FileTreeChangeSource::Provided(_) => false,
    }
}

/// Whether `s` is the snapshot a tree with `props` starts with, its provided
/// changes resolved under `root_path`: empty for git, the provided change set
/// otherwise.
pub open spec fn is_initial_snapshot(props: FileTreeProps, root_path: Seq<char>, s: GitStatusSnapshot) -> bool {
    &&& props.change_source is Git ==> !s.virtual_changes && s.changed_paths@.len() == 0 && (forall|key: Seq<char>|
            #[trigger] spec_lookup(s.entries.entries@, key) is None) && (forall|key: Seq<char>|
            #[trigger] spec_lookup(s.kinds.entries@, key) is None)
    &&& props.change_source matches FileTreeChangeSource::Provided(changes) ==> ({
            &&& forall|key: Seq<char>|
                #[trigger] spec_lookup(s.entries.entries@, key) == provided_decoration(
                    root_path,
                    changes@,
                    changes@.len() as int,
                    key,
                )
            &&& forall|key: Seq<char>|
                #[trigger] spec_lookup(s.kinds.entries@, key) == provided_kind(
                    root_path,
                    changes@,
                    changes@.len() as int,
                    key,
                )
            &&& strictly_sorted(strings_view(s.changed_paths@))
            &&& forall|key: Seq<char>|
                #[trigger] set_of(s.changed_paths@).contains(key) == provided_changed(
                    root_path,
                    changes@,
                    changes@.len() as int,
                    key,
                )
            &&& s.virtual_changes
        })
}

/// The snapshot a tree starts with: empty for git (it is loaded later), the
/// provided change set resolved under `root_path` otherwise.
pub fn effective_initial_snapshot(props: &FileTreeProps, root_path: &str) -> (r: GitStatusSnapshot)
    ensures
        is_initial_snapshot(*props, root_path@, r),
{
    match &props.change_source {
        FileTreeChangeSource::Git => GitStatusSnapshot {
            entries: PathMap::new(),
            changed_paths: Vec::new(),
            kinds: PathMap::new(),
            virtual_changes: false,
        },
        FileTreeChangeSource::Provided(changes) => provided_change_snapshot(root_path, changes),
    }
}

/// The directories a git change at `p` rolls up to: each parent in turn
/// (as `std::path::Path::parent` gives it) while it lies under `root`,
/// stopping after `root` itself; at most `fuel` of them.
pub open spec fn git_rollup_chain(p: Seq<char>, root: Seq<char>, fuel: nat) -> Seq<Seq<char>>
    decreases fuel,
{
    if fuel == 0 {
        Seq::empty()
    } else {
        match path_parent(p) {
            None => Seq::empty(),
            Some(q) => if !is_prefix(components(root), components(q)) {
                Seq::empty()
            } else if components(q) == components(root) {
                seq![q]
            } else {
                seq![q] + git_rollup_chain(q, root, (fuel - 1) as nat)
            },
        }
    }
}

/// The directories a git change at `full_path` rolls up to under
/// `repo_root`; see [`git_rollup_chain`] (a path has fewer parents than
/// characters, so the chain is taken with one more step than that).
pub fn git_rollup_parents(full_path: &str, repo_root: &str) -> (r: Vec<String>)
    ensures
        strings_view(r@) == git_rollup_chain(full_path@, repo_root@, (full_path@.len() + 1) as nat),
{
    let mut out: Vec<String> = Vec::new();
    let mut current = String::from_str(full_path);
    let mut fuel: usize = full_path.unicode_len();
    let ghost total = (full_path@.len() + 1) as nat;
    proof {
        assert(strings_view(out@) =~= Seq::<Seq<char>>::empty());
    }
    loop
        invariant
            fuel < total,
            total == (full_path@.len() + 1) as nat,
            git_rollup_chain(full_path@, repo_root@, total) == strings_view(out@) + git_rollup_chain(
                current@,
                repo_root@,
                (fuel + 1) as nat,
            ),
        decreases fuel,
    {
        let ghost chain_here = git_rollup_chain(current@, repo_root@, (fuel + 1) as nat);
        let parent = match parent_of(current.as_str()) {
            None => {
                assert(chain_here == Seq::<Seq<char>>::empty());
                assert(strings_view(out@) + chain_here =~= strings_view(out@));
                return out;
            },
            Some(q) => q,
        };
        assert(path_parent(current@) == Some(parent@));
        if !path_starts_with(parent.as_str(), repo_root) {
            assert(chain_here == Seq::<Seq<char>>::empty());
            assert(strings_view(out@) + chain_here =~= strings_view(out@));
            return out;
        }
        let at_root = path_starts_with(repo_root, parent.as_str());
        let ghost before = strings_view(out@);
        out.push(parent.clone());
        assert(strings_view(out@) =~= before.push(parent@));
        if at_root {
            proof {
                let cq = components(parent@);
                let cr = components(repo_root@);
                assert(cq.subrange(0, cr.len() as int) == cr);
                assert(cr.subrange(0, cq.len() as int) == cq);
                assert(cq =~= cr);
                assert(chain_here == seq![parent@]);
                assert(before + seq![parent@] =~= before.push(parent@));
            }
            return out;
        }
        if fuel == 0 {
            proof {
                assert(components(parent@) != components(repo_root@));
                assert(chain_here == seq![parent@] + git_rollup_chain(parent@, repo_root@, 0));
                assert(chain_here =~= seq![parent@]);
                assert(before + seq![parent@] =~= before.push(parent@));
            }
            return out;
        }
        proof {
            assert(components(parent@) != components(repo_root@));
            assert(chain_here == seq![parent@] + git_rollup_chain(parent@, repo_root@, fuel as nat));
            assert(before + (seq![parent@] + git_rollup_chain(parent@, repo_root@, fuel as nat)) =~= before.push(parent@)
                + git_rollup_chain(parent@, repo_root@, fuel as nat));
        }
        current = parent;
        fuel = fuel - 1;
    }
}

/// The decoration events of a git change: `d` at `full`, then, not direct,
/// at each of `parents`.
pub open spec fn rollup_events(full: Seq<char>, parents: Seq<String>, d: GitFileDecorations) -> Seq<
    (Seq<char>, GitFileDecorations),
> {
    seq![(full, d)] + Seq::new(parents.len(), |i: int| (parents[i]@, GitFileDecorations { direct: false, ..d }))
}

/// Records a git change's decoration at `full` and, not direct, at each of
/// `parents`; each record merges with what the path had.
pub fn insert_decoration_rolled_up(
    entries: &mut PathMap<GitFileDecorations>,
    full: String,
    parents: &Vec<String>,
    d: GitFileDecorations,
)
    ensures
        keys_unique(old(entries).entries@) ==> keys_unique(final(entries).entries@),
        forall|key: Seq<char>|
            #[trigger] spec_lookup(final(entries).entries@, key) == apply_events(
                spec_lookup(old(entries).entries@, key),
                rollup_events(full@, parents@, d),
                rollup_events(full@, parents@, d).len() as int,
                key,
            ),
{
    let ghost evs = rollup_events(full@, parents@, d);
    let ghost start = entries.entries@;
    let ghost fv = full@;
    insert_decoration(entries, full, d);
    assert(evs[0] == (fv, d));
    assert(evs.len() == parents@.len() + 1);
    assert forall|key: Seq<char>|
        #[trigger] spec_lookup(entries.entries@, key) == apply_events(spec_lookup(start, key), evs, 1, key) by {
        assert(apply_events(spec_lookup(start, key), evs, 0, key) == spec_lookup(start, key));
    }
    let rolled = GitFileDecorations { direct: false, ..d };
    let mut i: usize = 0;
    while i < parents.len()
        invariant
            i <= parents@.len(),
            evs == rollup_events(full@, parents@, d),
            rolled == (GitFileDecorations { direct: false, ..d }),
            keys_unique(start) ==> keys_unique(entries.entries@),
            forall|key: Seq<char>|
                #[trigger] spec_lookup(entries.entries@, key) == apply_events(spec_lookup(start, key), evs, i + 1, key),
        decreases parents@.len() - i,
    {
        insert_decoration(entries, parents[i].clone(), rolled);
        proof {
            assert(evs[i + 1] == (parents@[i as int]@, rolled));
        }
        i = i + 1;
    }
}

/// A provided change reports the git change of the same name, in the staged
/// column when it is staged and in the work-tree column otherwise, leaving
/// the other column empty.
pub proof fn law_provided_status(status: FileTreeChangeStatus, staged: bool)
    ensures
        ({
            let st = spec_provided_status(status, staged);
            let state = if staged { st.staged } else { st.unstaged };
            let other = if staged { st.unstaged } else { st.staged };
            &&& other is None
            &&& status == FileTreeChangeStatus::Modified ==> state == Some(GitChangeState::Modified)
            &&& status == FileTreeChangeStatus::Added ==> state == Some(GitChangeState::Added)
            &&& status == FileTreeChangeStatus::Deleted ==> state == Some(GitChangeState::Deleted)
            &&& status == FileTreeChangeStatus::Renamed ==> state == Some(GitChangeState::Renamed)
            &&& status == FileTreeChangeStatus::Untracked ==> state == Some(GitChangeState::Untracked)
            &&& status == FileTreeChangeStatus::Conflicted ==> state == Some(GitChangeState::Conflicted)
        }),
{
}

} // verus!
