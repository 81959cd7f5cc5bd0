//! Searching a file tree's entries for a query: an entry matches when its
//! name (or, for queries that look like paths, its whole path) fuzzily
//! matches; every match is made visible with its ancestors, its directory
//! is expanded, and the characters its name matched at are kept for
//! highlighting.

use vstd::prelude::*;

use nucleo::pattern::{CaseMatching, Normalization, Pattern};
use nucleo::{Config, Matcher, Utf32String};

use crate::git::{spec_lookup, PathMap};
use crate::lexpath::{
    components, components_prefix, insert_unique, parent_floor, path_components, render_comps, render_components,
    set_of, take_components,
};
use crate::text::{find_char, spec_find, spec_trim, trim_bounds};
use crate::wrap::strings_view;

verus! {

/// The positions (in the text's graphemes, which for ASCII text are its
/// characters) at which `nucleo` matches `query` (parsed as a
/// pattern with smart case and smart normalization) in `text`, as its
/// `Pattern::indices` reports them with the default matcher configuration;
/// none when it does not match.
pub uninterp spec fn fuzzy_hits(query: Seq<char>, text: Seq<char>) -> Option<Seq<u32>>;

/// The parent of a path, as `std::path::Path::parent` reads it.
pub uninterp spec fn path_parent(path: Seq<char>) -> Option<Seq<char>>;

/// The number of spaces in `s`.
pub open spec fn space_count(s: Seq<char>) -> nat
    decreases s.len(),
{
    if s.len() == 0 {
        0
    } else {
        space_count(s.drop_last()) + if s.last() == ' ' { 1nat } else { 0nat }
    }
}

/// Calls `nucleo`'s `Pattern::parse` and `Pattern::indices` (a fresh
/// default `Matcher`); the positions are named, not stated. The matcher
/// panics on a text of more than `u32::MAX` characters. The pattern splits
/// the query into atoms at (unescaped) spaces and sums their `u16` scores
/// in a `u32`; with at most 65536 spaces there are at most 65537 atoms,
/// whose scores cannot overflow that sum.
#[verifier::external_body]
fn fuzzy_indices(query: &str, text: &str) -> (r: Option<Vec<u32>>)
    requires
        text@.len() <= u32::MAX,
        space_count(query@) <= 65536,
    ensures
        match r {
            Some(v) => fuzzy_hits(query@, text@) == Some(v@),
            None => fuzzy_hits(query@, text@) is None,
        },
{
    let mut matcher = Matcher::new(Config::DEFAULT);
    let pattern = Pattern::parse(query, CaseMatching::Smart, Normalization::Smart);
    let haystack = Utf32String::from(text);
    let mut hits = Vec::new();
    pattern.indices(haystack.slice(..), &mut matcher, &mut hits).map(|_| hits)
}

/// Calls `std::path::Path::parent`; the result is named, not stated.
#[verifier::external_body]
pub(crate) fn parent_of(path: &str) -> (r: Option<String>)
    ensures
        match r {
            Some(p) => path_parent(path@) == Some(p@),
            None => path_parent(path@) is None,
        },
{
    std::path::Path::new(path).parent().map(|p| p.to_string_lossy().into_owned())
}

/// An entry that can be searched for.
#[derive(Debug)]
pub struct ExplorerCandidate {
    pub path: String,
    pub label: String,
    pub is_dir: bool,
}

/// The paths from `c`'s first `k` components up towards the root: each
/// prefix in turn, stopping after the root's own components, or when no
/// parent is left.
pub open spec fn chain_from(c: Seq<Seq<char>>, rc: Seq<Seq<char>>, k: int) -> Set<Seq<char>>
    decreases k,
{
    let here = set![render_comps(c.subrange(0, k))];
    if k <= parent_floor(c) || c.subrange(0, k) == rc || k > c.len() {
        here
    } else {
        here + chain_from(c, rc, k - 1)
    }
}

/// `path` and its ancestors, up to `root` or as far as they go.
pub open spec fn spec_chain(path: Seq<char>, root: Seq<char>) -> Set<Seq<char>> {
    chain_from(components(path), components(root), components(path).len() as int)
}

/// Adds `path` and its ancestors, up to `root` or as far as they go, to
/// `set`; paths are spelled from their components.
pub fn include_path_with_ancestors(set: &mut Vec<String>, path: &str, root: &str)
    ensures
        set_of(final(set)@) == set_of(old(set)@) + spec_chain(path@, root@),
{
    proof {
        reveal_strlit("/");
        assert("/"@ =~= crate::lexpath::root_comp());
    }
    let c = path_components(path);
    let rc = path_components(root);
    let ghost cv = strings_view(c@);
    let ghost rv = strings_view(rc@);
    let floor: usize = if c.len() > 0 && crate::text::str_eq(c[0].as_str(), "/") { 1 } else { 0 };
    proof {
        assert(floor == parent_floor(cv));
    }
    let ghost start = set_of(set@);
    let mut k: usize = c.len();
    loop
        invariant
            k <= c@.len(),
            cv == strings_view(c@),
            rv == strings_view(rc@),
            floor == parent_floor(cv),
            set_of(set@) + chain_from(cv, rv, k as int) == start + spec_chain(path@, root@),
        ensures
            set_of(set@) == start + spec_chain(path@, root@),
        decreases k,
    {
        let prefix = take_components(&c, k);
        let text = render_components(&prefix);
        let ghost before = set_of(set@);
        insert_unique(set, text);
        let same = prefix.len() == rc.len() && components_prefix(&rc, &prefix);
        proof {
            assert(strings_view(prefix@) == cv.subrange(0, k as int));
            assert(same == (cv.subrange(0, k as int) == rv)) by {
                if same {
                    assert(strings_view(prefix@) =~= rv);
                }
                if cv.subrange(0, k as int) == rv {
                    assert(prefix@.len() == strings_view(prefix@).len());
                    assert(rc@.len() == strings_view(rc@).len());
                    assert(strings_view(prefix@).subrange(0, strings_view(rc@).len() as int) =~= strings_view(rc@));
                }
            }
        }
        if k <= floor || same {
            proof {
                assert(set_of(set@) =~= start + spec_chain(path@, root@));
            }
            break;
        }
        proof {
            assert(set_of(set@) + chain_from(cv, rv, k - 1) =~= start + spec_chain(path@, root@));
        }
        k = k - 1;
    }
}

/// `v` with `x` inserted in order, unless already there.
pub open spec fn insert_sorted(v: Seq<u32>, x: u32) -> Seq<u32>
    decreases v.len(),
{
    if v.len() == 0 {
        seq![x]
    } else if x < v[0] {
        seq![x] + v
    } else if x == v[0] {
        v
    } else {
        seq![v[0]] + insert_sorted(v.drop_first(), x)
    }
}

/// The first `k` values of `s`, in increasing order, each once.
pub open spec fn sorted_unique(s: Seq<u32>, k: int) -> Seq<u32>
    decreases k,
{
    if k <= 0 {
        Seq::empty()
    } else {
        insert_sorted(sorted_unique(s, k - 1), s[k - 1])
    }
}

fn insert_sorted_exec(v: &mut Vec<u32>, x: u32)
    ensures
        final(v)@ == insert_sorted(old(v)@, x),
{
    let ghost v0 = v@;
    let mut i: usize = 0;
    proof {
        assert(v0.subrange(0, 0) + insert_sorted(v0.subrange(0, v0.len() as int), x) =~= insert_sorted(v0, x)) by {
            assert(v0.subrange(0, v0.len() as int) =~= v0);
        }
    }
    while i < v.len() && v[i] < x
        invariant
            i <= v@.len(),
            v@ == v0,
            insert_sorted(v0, x) == v0.subrange(0, i as int) + insert_sorted(v0.subrange(i as int, v0.len() as int), x),
        decreases v@.len() - i,
    {
        proof {
            let rest = v0.subrange(i as int, v0.len() as int);
            assert(rest.drop_first() =~= v0.subrange(i + 1, v0.len() as int));
            assert(v0.subrange(0, i + 1) =~= v0.subrange(0, i as int) + seq![rest[0]]);
        }
        i = i + 1;
    }
    let ghost rest = v0.subrange(i as int, v0.len() as int);
    if i < v.len() && v[i] == x {
        proof {
            assert(v0.subrange(0, i as int) + rest =~= v0);
        }
        return;
    }
    v.insert(i, x);
    proof {
        assert(v@ =~= v0.subrange(0, i as int) + insert_sorted(rest, x));
    }
}

/// Positions sorted, each once; see [`sorted_unique`].
pub fn sort_unique(s: &Vec<u32>) -> (r: Vec<u32>)
    ensures
        r@ == sorted_unique(s@, s@.len() as int),
{
    let mut out: Vec<u32> = Vec::new();
    let mut k: usize = 0;
    while k < s.len()
        invariant
            k <= s@.len(),
            out@ == sorted_unique(s@, k as int),
        decreases s@.len() - k,
    {
        insert_sorted_exec(&mut out, s[k]);
        k = k + 1;
    }
    out
}

proof fn lemma_insert_sorted(v: Seq<u32>, x: u32)
    requires
        forall|i: int, j: int| 0 <= i < j < v.len() ==> v[i] < v[j],
    ensures
        forall|i: int, j: int| 0 <= i < j < insert_sorted(v, x).len() ==> insert_sorted(v, x)[i] < insert_sorted(v, x)[j],
        insert_sorted(v, x).to_set() == v.to_set().insert(x),
    decreases v.len(),
{
    broadcast use vstd::seq_lib::group_seq_properties;

    let r = insert_sorted(v, x);
    if v.len() == 0 {
        assert(r.to_set() =~= v.to_set().insert(x)) by {
            assert(r =~= seq![x]);
        }
    } else if x < v[0] {
        assert(r.to_set() =~= v.to_set().insert(x)) by {
            assert forall|y: u32| r.to_set().contains(y) <==> v.to_set().insert(x).contains(y) by {
                if r.contains(y) {
                    let i = choose|i: int| 0 <= i < r.len() && r[i] == y;
                    if i > 0 {
                        assert(v[i - 1] == y);
                    }
                }
                if v.contains(y) {
                    let i = choose|i: int| 0 <= i < v.len() && v[i] == y;
                    assert(r[i + 1] == y);
                }
                if y == x {
                    assert(r[0] == y);
                }
            }
        }
    } else if x == v[0] {
        assert(r.to_set() =~= v.to_set().insert(x)) by {
            assert(v.contains(x)) by {
                assert(v[0] == x);
            }
        }
    } else {
        let t = v.drop_first();
        assert forall|i: int, j: int| 0 <= i < j < t.len() implies t[i] < t[j] by {
            assert(t[i] == v[i + 1] && t[j] == v[j + 1]);
        }
        lemma_insert_sorted(t, x);
        let it = insert_sorted(t, x);
        assert forall|i: int, j: int| 0 <= i < j < r.len() implies r[i] < r[j] by {
            if i == 0 {
                assert(r[j] == it[j - 1]);
                assert(it.to_set().contains(it[j - 1]));
                assert(t.to_set().insert(x).contains(it[j - 1]));
                if it[j - 1] != x {
                    let q = choose|q: int| 0 <= q < t.len() && t[q] == it[j - 1];
                    assert(v[q + 1] == it[j - 1]);
                }
            } else {
                assert(r[i] == it[i - 1] && r[j] == it[j - 1]);
            }
        }
        assert(r.to_set() =~= v.to_set().insert(x)) by {
            assert forall|y: u32| r.to_set().contains(y) <==> v.to_set().insert(x).contains(y) by {
                if r.contains(y) {
                    let i = choose|i: int| 0 <= i < r.len() && r[i] == y;
                    if i > 0 {
                        assert(it.contains(y)) by {
                            assert(it[i - 1] == y);
                        }
                        assert(it.to_set().contains(y));
                        if y != x {
                            let q = choose|q: int| 0 <= q < t.len() && t[q] == y;
                            assert(v[q + 1] == y);
                        }
                    } else {
                        assert(v[0] == y);
                    }
                }
                if v.contains(y) {
                    let i = choose|i: int| 0 <= i < v.len() && v[i] == y;
                    if i > 0 {
                        assert(t[i - 1] == y);
                        assert(t.to_set().insert(x).contains(y));
                        assert(it.to_set().contains(y));
                        let q = choose|q: int| 0 <= q < it.len() && it[q] == y;
                        assert(r[q + 1] == y);
                    } else {
                        assert(r[0] == y);
                    }
                }
                if y == x {
                    assert(it.to_set().contains(x));
                    let q = choose|q: int| 0 <= q < it.len() && it[q] == x;
                    assert(r[q + 1] == x);
                }
            }
        }
    }
}

/// Matched positions come out in increasing order, each once, and are
/// exactly the positions reported.
pub proof fn lemma_sorted_unique(s: Seq<u32>, k: int)
    requires
        0 <= k <= s.len(),
    ensures
        forall|i: int, j: int| 0 <= i < j < sorted_unique(s, k).len() ==> sorted_unique(s, k)[i] < sorted_unique(s, k)[j],
        sorted_unique(s, k).to_set() == s.subrange(0, k).to_set(),
    decreases k,
{
    if k == 0 {
        assert(sorted_unique(s, k).to_set() =~= s.subrange(0, k).to_set());
    } else {
        lemma_sorted_unique(s, k - 1);
        lemma_insert_sorted(sorted_unique(s, k - 1), s[k - 1]);
        assert(s.subrange(0, k) =~= s.subrange(0, k - 1).push(s[k - 1]));
        assert(s.subrange(0, k - 1).push(s[k - 1]).to_set() =~= s.subrange(0, k - 1).to_set().insert(s[k - 1])) by {
            let p = s.subrange(0, k - 1);
            let q = p.push(s[k - 1]);
            assert forall|y: u32| q.to_set().contains(y) <==> p.to_set().insert(s[k - 1]).contains(y) by {
                if q.contains(y) {
                    let i = choose|i: int| 0 <= i < q.len() && q[i] == y;
                    if i < p.len() {
                        assert(p[i] == y);
                    }
                }
                if p.contains(y) {
                    let i = choose|i: int| 0 <= i < p.len() && p[i] == y;
                    assert(p.push(s[k - 1])[i] == y);
                }
                if y == s[k - 1] {
                    assert(p.push(s[k - 1])[p.len() as int] == y);
                }
            }
        }
    }
}

/// Whether a query may also match whole paths: it names a directory
/// separator, or has no dot (so it does not look like a file name).
pub open spec fn allows_path_match(q: Seq<char>) -> bool {
    spec_find(q, '/', 0) < q.len() || spec_find(q, '\\', 0) < q.len() || !(spec_find(q, '.', 0) < q.len())
}

/// The directory a match opens: the entry itself for a directory, else its
/// parent (the root when it has none).
pub open spec fn entry_dir(path: Seq<char>, is_dir: bool, root: Seq<char>) -> Seq<char> {
    if is_dir {
        path
    } else {
        match path_parent(path) {
            Some(p) => p,
            None => root,
        }
    }
}

/// A search's findings: visible paths, expanded paths, matched positions by
/// path, the first match's directory, and the number of matches.
pub type SearchState = (Set<Seq<char>>, Set<Seq<char>>, Map<Seq<char>, Seq<u32>>, Option<Seq<char>>, int);

/// The findings after the first `k` candidates.
pub open spec fn search_fold(cands: Seq<ExplorerCandidate>, q: Seq<char>, root: Seq<char>, k: int) -> SearchState
    decreases k,
{
    if k <= 0 || k > cands.len() {
        (Set::empty(), Set::empty(), Map::empty(), None, 0)
    } else {
        let st = search_fold(cands, q, root, k - 1);
        let c = cands[k - 1];
        let label_match = fuzzy_hits(q, c.label@);
        let path_match = allows_path_match(q) && fuzzy_hits(q, c.path@) is Some;
        if !(label_match is Some || path_match) {
            st
        } else {
            let hits = match label_match {
                Some(h) => {
                    let sorted = sorted_unique(h, h.len() as int);
                    if sorted.len() > 0 { st.2.insert(c.path@, sorted) } else { st.2 }
                },
                None => st.2,
            };
            let dir = entry_dir(c.path@, c.is_dir, root);
            (
                st.0 + spec_chain(c.path@, root),
                st.1 + spec_chain(dir, root),
                hits,
                if st.3 is None { Some(dir) } else { st.3 },
                if st.4 + 1 > usize::MAX { usize::MAX as int } else { st.4 + 1 },
            )
        }
    }
}

/// A search for `query` (trimmed) among `cands` under `root`: nothing for
/// an empty query; else the findings of every candidate, with the root made
/// visible (and expanded) when anything is.
pub open spec fn spec_search(root: Seq<char>, cands: Seq<ExplorerCandidate>, query: Seq<char>) -> SearchState {
    let q = spec_trim(query);
    if q.len() == 0 {
        (Set::empty(), Set::empty(), Map::empty(), None, 0)
    } else {
        let st = search_fold(cands, q, root, cands.len() as int);
        (
            if st.0 != Set::<Seq<char>>::empty() { st.0.insert(root) } else { st.0 },
            if st.1 != Set::<Seq<char>>::empty() { st.1.insert(root) } else { st.1 },
            st.2,
            st.3,
            st.4,
        )
    }
}

/// Whether `f` holds exactly the findings `st`.
pub open spec fn filter_matches(f: crate::projection::ExplorerFilter, st: SearchState) -> bool {
    &&& set_of(f.visible_paths@) == st.0
    &&& set_of(f.expanded_paths@) == st.1
    &&& forall|k: Seq<char>|
        match #[trigger] spec_lookup(f.label_hits.entries@, k) {
            Some(v) => st.2.contains_key(k) && st.2[k] == v@,
            None => !st.2.contains_key(k),
        }
    &&& match f.primary_match_directory {
        Some(d) => st.3 == Some(d@),
        None => st.3 is None,
    }
    &&& f.match_count == st.4
}

fn contains_char(s: &str, c: char) -> (r: bool)
    ensures
        r == (spec_find(s@, c, 0) < s@.len()),
{
    find_char(s, c, 0) < s.unicode_len()
}

/// The directory a match opens; see [`entry_dir`].
pub fn entry_directory_path(c: &ExplorerCandidate, root: &str) -> (r: String)
    ensures
        r@ == entry_dir(c.path@, c.is_dir, root@),
{
    if c.is_dir {
        return c.path.clone();
    }
    match parent_of(c.path.as_str()) {
        Some(p) => p,
        None => String::from_str(root),
    }
}

proof fn lemma_set_of_empty(v: Seq<String>)
    ensures
        (set_of(v) == Set::<Seq<char>>::empty()) == (v.len() == 0),
{
    if v.len() > 0 {
        assert(set_of(v).contains(v[0]@));
    } else {
        assert(set_of(v) =~= Set::<Seq<char>>::empty());
    }
}

/// Whether the matcher can take the search: every name and path at most
/// `u32::MAX` characters, the trimmed query at most 65536 spaces.
pub open spec fn search_fits(candidates: Seq<ExplorerCandidate>, query: Seq<char>) -> bool {
    &&& space_count(spec_trim(query)) <= 65536
    &&& forall|i: int|
        0 <= i < candidates.len() ==> (#[trigger] candidates[i]).label@.len() <= u32::MAX && candidates[i].path@.len()
            <= u32::MAX
}

/// Whether a search fits the matcher; see [`search_fits`].
pub fn search_fits_matcher(candidates: &Vec<ExplorerCandidate>, query: &str) -> (r: bool)
    ensures
        r == search_fits(candidates@, query@),
{
    let n = query.unicode_len();
    let (a, b) = trim_bounds(query, 0, n);
    proof {
        assert(query@.subrange(0, n as int) =~= query@);
    }
    let ghost t = query@.subrange(a as int, b as int);
    assert(t =~= spec_trim(query@));
    let mut spaces: usize = 0;
    let mut i: usize = a;
    while i < b
        invariant
            a <= i <= b <= query@.len(),
            t == query@.subrange(a as int, b as int),
            spaces == space_count(query@.subrange(a as int, i as int)),
            spaces <= i - a,
        decreases b - i,
    {
        assert(query@.subrange(a as int, i + 1).drop_last() =~= query@.subrange(a as int, i as int));
        if query.get_char(i) == ' ' {
            spaces = spaces + 1;
        }
        i = i + 1;
    }
    if spaces > 65536 {
        return false;
    }
    let mut k: usize = 0;
    while k < candidates.len()
        invariant
            k <= candidates@.len(),
            forall|i: int|
                0 <= i < k ==> (#[trigger] candidates@[i]).label@.len() <= u32::MAX && candidates@[i].path@.len()
                    <= u32::MAX,
        decreases candidates@.len() - k,
    {
        let a = candidates[k].label.as_str().unicode_len();
        let b = candidates[k].path.as_str().unicode_len();
        if a as u64 > u32::MAX as u64 || b as u64 > u32::MAX as u64 {
            return false;
        }
        k = k + 1;
    }
    true
}

/// Searches `candidates` under `root` for `query`; see [`spec_search`].
pub fn search_candidates(root: &str, candidates: &Vec<ExplorerCandidate>, query: &str) -> (r:
    crate::projection::ExplorerFilter)
    requires
        search_fits(candidates@, query@),
    ensures
        filter_matches(r, spec_search(root@, candidates@, query@)),
{
    let n = query.unicode_len();
    let (a, b) = trim_bounds(query, 0, n);
    let q = query.substring_char(a, b);
    proof {
        assert(query@.subrange(0, n as int) =~= query@);
        assert(q@ =~= spec_trim(query@));
    }
    let mut f = crate::projection::ExplorerFilter {
        visible_paths: Vec::new(),
        expanded_paths: Vec::new(),
        label_hits: PathMap::new(),
        primary_match_directory: None,
        match_count: 0,
    };
    proof {
        assert(set_of(f.visible_paths@) =~= Set::<Seq<char>>::empty());
        assert(set_of(f.expanded_paths@) =~= Set::<Seq<char>>::empty());
    }
    if q.unicode_len() == 0 {
        return f;
    }
    let allow = contains_char(q, '/') || contains_char(q, '\\') || !contains_char(q, '.');
    let mut k: usize = 0;
    while k < candidates.len()
        invariant
            k <= candidates@.len(),
            q@ == spec_trim(query@),
            q@.len() <= query@.len(),
            search_fits(candidates@, query@),
            allow == allows_path_match(q@),
            filter_matches(f, search_fold(candidates@, q@, root@, k as int)),
        decreases candidates@.len() - k,
    {
        let c = &candidates[k];
        let label = fuzzy_indices(q, c.label.as_str());
        let path_match = allow && fuzzy_indices(q, c.path.as_str()).is_some();
        if label.is_some() || path_match {
            f.match_count = f.match_count.saturating_add(1);
            include_path_with_ancestors(&mut f.visible_paths, c.path.as_str(), root);
            match label {
                Some(h) => {
                    let sorted = sort_unique(&h);
                    if sorted.len() > 0 {
                        f.label_hits.insert(c.path.clone(), sorted);
                    }
                },
                None => {},
            }
            let dir = entry_directory_path(c, root);
            include_path_with_ancestors(&mut f.expanded_paths, dir.as_str(), root);
            if f.primary_match_directory.is_none() {
                f.primary_match_directory = Some(dir);
            }
        }
        k = k + 1;
    }
    proof {
        lemma_set_of_empty(f.visible_paths@);
        lemma_set_of_empty(f.expanded_paths@);
    }
    if f.visible_paths.len() > 0 {
        insert_unique(&mut f.visible_paths, String::from_str(root));
    }
    if f.expanded_paths.len() > 0 {
        insert_unique(&mut f.expanded_paths, String::from_str(root));
    }
    f
}

proof fn lemma_find_absent(s: Seq<char>, c: char, from: int)
    requires
        0 <= from,
        forall|i: int| from <= i < s.len() ==> s[i] != c,
    ensures
        spec_find(s, c, from) == s.len(),
    decreases s.len() - from,
{
    if from < s.len() {
        lemma_find_absent(s, c, from + 1);
    }
}

proof fn lemma_find_present(s: Seq<char>, c: char, from: int, i: int)
    requires
        0 <= from <= i < s.len(),
        s[i] == c,
    ensures
        spec_find(s, c, from) < s.len(),
    decreases i - from,
{
    if s[from] != c {
        lemma_find_present(s, c, from + 1, i);
    }
}

/// Whether candidate `c` is found by query `q`: its label matches, or the
/// query may match paths and its path matches.
pub open spec fn found_by(c: ExplorerCandidate, q: Seq<char>) -> bool {
    fuzzy_hits(q, c.label@) is Some || (allows_path_match(q) && fuzzy_hits(q, c.path@) is Some)
}

proof fn lemma_fold_count_nonneg(cands: Seq<ExplorerCandidate>, q: Seq<char>, root: Seq<char>, k: int)
    ensures
        search_fold(cands, q, root, k).4 >= 0,
    decreases k,
{
    if k > 0 && k <= cands.len() {
        lemma_fold_count_nonneg(cands, q, root, k - 1);
    }
}

proof fn lemma_fold_keeps_found(cands: Seq<ExplorerCandidate>, q: Seq<char>, root: Seq<char>, j: int, k: int)
    requires
        0 <= j < k <= cands.len(),
        found_by(cands[j], q),
    ensures
        search_fold(cands, q, root, k).4 >= 1,
        search_fold(cands, q, root, k).3 is Some,
        spec_chain(cands[j].path@, root).subset_of(search_fold(cands, q, root, k).0),
    decreases k,
{
    lemma_fold_count_nonneg(cands, q, root, k - 1);
    if k - 1 > j {
        lemma_fold_keeps_found(cands, q, root, j, k - 1);
    }
}

proof fn lemma_fold_none_found(cands: Seq<ExplorerCandidate>, q: Seq<char>, root: Seq<char>, k: int)
    requires
        0 <= k <= cands.len(),
        forall|j: int| 0 <= j < k ==> !found_by(#[trigger] cands[j], q),
    ensures
        search_fold(cands, q, root, k) == (Set::<Seq<char>>::empty(), Set::<Seq<char>>::empty(), Map::<
            Seq<char>,
            Seq<u32>,
        >::empty(), None::<Seq<char>>, 0int),
    decreases k,
{
    if k > 0 {
        lemma_fold_none_found(cands, q, root, k - 1);
        assert(!found_by(cands[k - 1], q));
    }
}

/// A candidate is found, counted and shown with its ancestors when its label
/// matches the trimmed query, and also when its full path matches and the
/// query has no dot or names a directory separator (`/` or `\`): the
/// search then counts at least one match, has a directory to open, and
/// shows the candidate's path and its ancestors under the root.
pub proof fn law_search_finds_matches(root: Seq<char>, cands: Seq<ExplorerCandidate>, query: Seq<char>, j: int)
    requires
        0 <= j < cands.len(),
        spec_trim(query).len() > 0,
        fuzzy_hits(spec_trim(query), cands[j].label@) is Some || (((forall|i: int|
            0 <= i < spec_trim(query).len() ==> spec_trim(query)[i] != '.') || (exists|i: int|
            0 <= i < spec_trim(query).len() && (spec_trim(query)[i] == '/' || spec_trim(query)[i] == '\\')))
            && fuzzy_hits(spec_trim(query), cands[j].path@) is Some),
    ensures
        spec_search(root, cands, query).4 >= 1,
        spec_search(root, cands, query).3 is Some,
        spec_chain(cands[j].path@, root).subset_of(spec_search(root, cands, query).0),
{
    let q = spec_trim(query);
    if fuzzy_hits(q, cands[j].label@) is None {
        if forall|i: int| 0 <= i < q.len() ==> q[i] != '.' {
            lemma_find_absent(q, '.', 0);
        } else {
            let i = choose|i: int| 0 <= i < q.len() && (q[i] == '/' || q[i] == '\\');
            if q[i] == '/' {
                lemma_find_present(q, '/', 0, i);
            } else {
                lemma_find_present(q, '\\', 0, i);
            }
        }
    }
    assert(found_by(cands[j], q));
    lemma_fold_keeps_found(cands, q, root, j, cands.len() as int);
}

/// A query that looks like a file name (it has a dot and no directory
/// separator) is matched against labels only: when no candidate's label
/// matches, nothing is found, whatever the paths.
pub proof fn law_dotted_queries_match_labels(root: Seq<char>, cands: Seq<ExplorerCandidate>, query: Seq<char>)
    requires
        exists|i: int| 0 <= i < spec_trim(query).len() && spec_trim(query)[i] == '.',
        forall|i: int|
            0 <= i < spec_trim(query).len() ==> spec_trim(query)[i] != '/' && spec_trim(query)[i] != '\\',
        forall|j: int| 0 <= j < cands.len() ==> fuzzy_hits(spec_trim(query), (#[trigger] cands[j]).label@) is None,
    ensures
        spec_search(root, cands, query).0 == Set::<Seq<char>>::empty(),
        spec_search(root, cands, query).4 == 0,
        spec_search(root, cands, query).3 is None,
{
    let q = spec_trim(query);
    let i = choose|i: int| 0 <= i < q.len() && q[i] == '.';
    lemma_find_present(q, '.', 0, i);
    lemma_find_absent(q, '/', 0);
    lemma_find_absent(q, '\\', 0);
    assert(!allows_path_match(q));
    assert forall|j: int| 0 <= j < cands.len() implies !found_by(#[trigger] cands[j], q) by {}
    lemma_fold_none_found(cands, q, root, cands.len() as int);
}

/// How many of the first `k` candidates query `q` finds.
pub open spec fn found_count(cands: Seq<ExplorerCandidate>, q: Seq<char>, k: int) -> int
    decreases k,
{
    if k <= 0 || k > cands.len() {
        0
    } else {
        found_count(cands, q, k - 1) + if found_by(cands[k - 1], q) { 1int } else { 0int }
    }
}

proof fn lemma_fold_counts(cands: Seq<ExplorerCandidate>, q: Seq<char>, root: Seq<char>, k: int)
    requires
        0 <= k <= cands.len(),
    ensures
        search_fold(cands, q, root, k).4 == if found_count(cands, q, k) > usize::MAX {
            usize::MAX as int
        } else {
            found_count(cands, q, k)
        },
        0 <= found_count(cands, q, k) <= k,
    decreases k,
{
    if k > 0 {
        lemma_fold_counts(cands, q, root, k - 1);
    }
}

/// A search counts its matches: the match count is the number of candidates
/// it finds (by label, or by path where the query allows it), capped at
/// `usize::MAX`; a blank query finds nothing.
pub proof fn law_search_counts(root: Seq<char>, cands: Seq<ExplorerCandidate>, query: Seq<char>)
    ensures
        spec_trim(query).len() == 0 ==> spec_search(root, cands, query).4 == 0,
        spec_trim(query).len() > 0 ==> spec_search(root, cands, query).4 == if found_count(
            cands,
            spec_trim(query),
            cands.len() as int,
        ) > usize::MAX {
            usize::MAX as int
        } else {
            found_count(cands, spec_trim(query), cands.len() as int)
        },
{
    lemma_fold_counts(cands, spec_trim(query), root, cands.len() as int);
}

} // verus!
