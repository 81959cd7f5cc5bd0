//! POSIX paths taken apart and put back together by their text alone, as
//! the path rules do on a Unix host: `/` separates components, a leading `/`
//! is the root, `.` is the current directory and `..` the parent.
//!
//! A path's components are kept as text: `"/"` for the root, `"."` for a
//! leading current-directory marker, `".."` for a parent step, and the name
//! otherwise.

use vstd::prelude::*;

use crate::git::{spec_lookup, PathMap};
use crate::wrap::strings_view;

verus! {

/// Where the segment starting at `i` ends: the next `/` or the end.
pub open spec fn seg_end(s: Seq<char>, i: int) -> int
    decreases s.len() - i,
{
    if i >= s.len() {
        s.len() as int
    } else if s[i] == '/' {
        i
    } else {
        seg_end(s, i + 1)
    }
}

/// The text between separators from `i` on, empty segments included.
pub open spec fn segs_from(s: Seq<char>, i: int) -> Seq<Seq<char>>
    decreases s.len() + 1 - i,
{
    if i > s.len() || i < 0 {
        Seq::empty()
    } else {
        let j = seg_end(s, i);
        proof {
            lemma_seg_end(s, i);
        }
        if j < i {
            Seq::empty()
        } else {
            seq![s.subrange(i, j)] + segs_from(s, j + 1)
        }
    }
}

pub open spec fn dot() -> Seq<char> {
    seq!['.']
}

pub open spec fn dotdot() -> Seq<char> {
    seq!['.', '.']
}

pub open spec fn root_comp() -> Seq<char> {
    seq!['/']
}

/// The segments that are components: all but empty ones and `.`.
pub open spec fn keep_segs(g: Seq<Seq<char>>) -> Seq<Seq<char>>
    decreases g.len(),
{
    if g.len() == 0 {
        Seq::empty()
    } else {
        keep_segs(g.drop_last()) + if g.last().len() > 0 && g.last() != dot() {
            seq![g.last()]
        } else {
            Seq::empty()
        }
    }
}

pub open spec fn is_absolute(s: Seq<char>) -> bool {
    s.len() > 0 && s[0] == '/'
}

/// The components of a path: the root for a leading `/`, a `.` only when a
/// relative path starts with one, then every non-empty segment but `.`.
pub open spec fn components(s: Seq<char>) -> Seq<Seq<char>> {
    let segs = segs_from(s, 0);
    (if is_absolute(s) {
        seq![root_comp()]
    } else if segs.len() > 0 && segs[0] == dot() {
        seq![dot()]
    } else {
        Seq::empty()
    }) + keep_segs(segs)
}

pub proof fn lemma_seg_end(s: Seq<char>, i: int)
    requires
        0 <= i <= s.len(),
    ensures
        i <= seg_end(s, i) <= s.len(),
        seg_end(s, i) < s.len() ==> s[seg_end(s, i)] == '/',
        forall|k: int| i <= k < seg_end(s, i) ==> s[k] != '/',
    decreases s.len() - i,
{
    if i < s.len() && s[i] != '/' {
        lemma_seg_end(s, i + 1);
    }
}

proof fn lemma_seg_end_skip(s: Seq<char>, i: int, k: int)
    requires
        0 <= i <= k <= s.len(),
        forall|m: int| i <= m < k ==> s[m] != '/',
    ensures
        seg_end(s, i) == seg_end(s, k),
    decreases k - i,
{
    if i < k {
        lemma_seg_end_skip(s, i + 1, k);
    }
}

proof fn lemma_keep_push(g: Seq<Seq<char>>, x: Seq<char>)
    ensures
        keep_segs(g.push(x)) == keep_segs(g) + if x.len() > 0 && x != dot() {
            seq![x]
        } else {
            Seq::empty()
        },
{
    assert(g.push(x).drop_last() =~= g);
}

fn str_is(s: &str, lit: &str) -> (r: bool)
    ensures
        r == (s@ == lit@),
{
    crate::text::str_eq(s, lit)
}

/// The components of `s`; see [`components`].
pub fn path_components(s: &str) -> (r: Vec<String>)
    ensures
        strings_view(r@) == components(s@),
{
    let n = s.unicode_len();
    let mut out: Vec<String> = Vec::new();
    let abs = n > 0 && s.get_char(0) == '/';
    proof {
        reveal_strlit("/");
        reveal_strlit(".");
        assert("/"@ =~= root_comp());
        assert("."@ =~= dot());
        lemma_seg_end(s@, 0);
    }
    let mut start: usize = 0;
    let mut i: usize = 0;
    let ghost mut done: Seq<Seq<char>> = Seq::empty();
    let mut first_dot = false;
    // the segment starting at 0 decides whether a relative path keeps its leading `.`
    while i < n
        invariant
            n == s@.len(),
            start <= i <= n,
            forall|k: int| start <= k < i ==> s@[k] != '/',
            segs_from(s@, 0) == done + segs_from(s@, start as int),
            strings_view(out@) == keep_segs(done),
            (start == 0) == (done.len() == 0),
            done.len() > 0 ==> (first_dot == (done[0] == dot())),
        decreases n - i,
    {
        proof {
            reveal_strlit(".");
            assert("."@ =~= dot());
        }
        if s.get_char(i) == '/' {
            proof {
                lemma_seg_end_skip(s@, start as int, i as int);
                assert(seg_end(s@, i as int) == i);
                assert(segs_from(s@, start as int) == seq![s@.subrange(start as int, i as int)] + segs_from(
                    s@,
                    i + 1,
                ));
            }
            let seg = s.substring_char(start, i);
            let keep = seg.unicode_len() > 0 && !str_is(seg, ".");
            if done_is_empty(start) {
                first_dot = str_is(seg, ".");
            }
            if keep {
                out.push(String::from_str(seg));
            }
            proof {
                let piece = s@.subrange(start as int, i as int);
                lemma_keep_push(done, piece);
                assert(strings_view(out@) =~= keep_segs(done.push(piece)));
                assert(done + segs_from(s@, start as int) =~= done.push(piece) + segs_from(s@, i + 1));
                done = done.push(piece);
            }
            start = i + 1;
        }
        i = i + 1;
    }
    proof {
        lemma_seg_end_skip(s@, start as int, n as int);
        assert(seg_end(s@, n as int) == n);
        assert(segs_from(s@, n + 1) =~= Seq::<Seq<char>>::empty());
        assert(segs_from(s@, start as int) =~= seq![s@.subrange(start as int, n as int)]);
    }
    let seg = s.substring_char(start, n);
    proof {
        reveal_strlit(".");
        assert("."@ =~= dot());
    }
    let keep = seg.unicode_len() > 0 && !str_is(seg, ".");
    if done_is_empty(start) {
        first_dot = str_is(seg, ".");
    }
    if keep {
        out.push(String::from_str(seg));
    }
    proof {
        let piece = s@.subrange(start as int, n as int);
        lemma_keep_push(done, piece);
        assert(strings_view(out@) =~= keep_segs(done.push(piece)));
        assert(done.push(piece) =~= segs_from(s@, 0));
        done = done.push(piece);
        assert(first_dot == (segs_from(s@, 0)[0] == dot()));
    }
    let ghost pre = if is_absolute(s@) {
        seq![root_comp()]
    } else if segs_from(s@, 0).len() > 0 && segs_from(s@, 0)[0] == dot() {
        seq![dot()]
    } else {
        Seq::<Seq<char>>::empty()
    };
    let mut r: Vec<String> = Vec::new();
    if abs {
        r.push(String::from_str("/"));
    } else if first_dot {
        r.push(String::from_str("."));
    }
    proof {
        assert(strings_view(r@) =~= pre + strings_view(out@).subrange(0, 0));
    }
    let mut k: usize = 0;
    while k < out.len()
        invariant
            strings_view(out@) == keep_segs(segs_from(s@, 0)),
            k <= out@.len(),
            strings_view(r@) == pre + strings_view(out@).subrange(0, k as int),
        decreases out@.len() - k,
    {
        let ghost before = r@;
        r.push(out[k].clone());
        proof {
            assert(strings_view(r@) =~= strings_view(before).push(out@[k as int]@));
            assert(strings_view(out@).subrange(0, k + 1) =~= strings_view(out@).subrange(0, k as int).push(
                strings_view(out@)[k as int],
            ));
        }
        k = k + 1;
    }
    proof {
        assert(strings_view(out@).subrange(0, out@.len() as int) =~= strings_view(out@));
    }
    r
}

fn done_is_empty(start: usize) -> (r: bool)
    ensures
        r == (start == 0),
{
    start == 0
}

/// The names joined with `/`.
pub open spec fn join_names(names: Seq<Seq<char>>) -> Seq<char>
    decreases names.len(),
{
    if names.len() == 0 {
        Seq::empty()
    } else if names.len() == 1 {
        names[0]
    } else {
        join_names(names.drop_last()) + seq!['/'] + names.last()
    }
}

/// The text of a path made of `names`, rooted when `abs`.
pub open spec fn render(abs: bool, names: Seq<Seq<char>>) -> Seq<char> {
    (if abs {
        seq!['/']
    } else {
        Seq::empty()
    }) + join_names(names)
}

/// The text of a path with components `c`.
pub open spec fn render_comps(c: Seq<Seq<char>>) -> Seq<char> {
    if c.len() > 0 && c[0] == root_comp() {
        render(true, c.drop_first())
    } else {
        render(false, c)
    }
}

/// Components `c` resolved in order: the root restarts the path, `.` is
/// skipped, `..` drops the last name (there is nothing above the root), and
/// a name is appended. The result is whether the path is rooted and its
/// names.
pub open spec fn normalize_comps(c: Seq<Seq<char>>) -> (bool, Seq<Seq<char>>)
    decreases c.len(),
{
    if c.len() == 0 {
        (false, Seq::empty())
    } else {
        let (abs, names) = normalize_comps(c.drop_last());
        let x = c.last();
        if x == root_comp() {
            (true, Seq::empty())
        } else if x == dot() {
            (abs, names)
        } else if x == dotdot() {
            (abs, if names.len() > 0 {
                names.drop_last()
            } else {
                names
            })
        } else {
            (abs, names.push(x))
        }
    }
}

/// The components of a normalized path.
pub open spec fn normalized_comps(n: (bool, Seq<Seq<char>>)) -> Seq<Seq<char>> {
    (if n.0 {
        seq![root_comp()]
    } else {
        Seq::empty()
    }) + n.1
}

pub open spec fn is_prefix(a: Seq<Seq<char>>, b: Seq<Seq<char>>) -> bool {
    a.len() <= b.len() && b.subrange(0, a.len() as int) == a
}

fn render_exec(abs: bool, names: &Vec<String>) -> (r: String)
    ensures
        r@ == render(abs, strings_view(names@)),
{
    proof {
        reveal_strlit("/");
        assert("/"@ =~= seq!['/']);
    }
    let mut out = if abs { String::from_str("/") } else { String::new() };
    let ghost pre = out@;
    let mut i: usize = 0;
    proof {
        assert(strings_view(names@).subrange(0, 0) =~= Seq::<Seq<char>>::empty());
        assert(pre =~= (if abs { seq!['/'] } else { Seq::empty() }));
    }
    while i < names.len()
        invariant
            i <= names@.len(),
            pre == (if abs { seq!['/'] } else { Seq::<char>::empty() }),
            out@ == pre + join_names(strings_view(names@).subrange(0, i as int)),
        decreases names@.len() - i,
    {
        proof {
            reveal_strlit("/");
        }
        if i > 0 {
            out.append("/");
        }
        out.append(names[i].as_str());
        proof {
            let v = strings_view(names@);
            let next = v.subrange(0, i + 1);
            assert(next.drop_last() =~= v.subrange(0, i as int));
            assert(next.last() == names@[i as int]@);
            if i == 0 {
                assert(next =~= seq![names@[0]@]);
            }
            assert(out@ =~= pre + join_names(next));
        }
        i = i + 1;
    }
    proof {
        assert(strings_view(names@).subrange(0, names@.len() as int) =~= strings_view(names@));
    }
    out
}

/// Appends a copy of `s`.
pub fn push_copy(r: &mut Vec<String>, s: &String)
    ensures
        strings_view(final(r)@) == strings_view(old(r)@).push(s@),
{
    r.push(s.clone());
    assert(strings_view(r@) =~= strings_view(old(r)@).push(s@));
}

pub fn copy_strings(v: &Vec<String>) -> (r: Vec<String>)
    ensures
        strings_view(r@) == strings_view(v@),
{
    let mut r: Vec<String> = Vec::new();
    let mut i: usize = 0;
    while i < v.len()
        invariant
            i <= v@.len(),
            strings_view(r@) == strings_view(v@).subrange(0, i as int),
        decreases v@.len() - i,
    {
        push_copy(&mut r, &v[i]);
        proof {
            assert(strings_view(v@).subrange(0, i + 1) =~= strings_view(v@).subrange(0, i as int).push(v@[i as int]@));
        }
        i = i + 1;
    }
    proof {
        assert(strings_view(v@).subrange(0, v@.len() as int) =~= strings_view(v@));
    }
    r
}

/// The text of a path with components `c`.
pub fn render_components(c: &Vec<String>) -> (r: String)
    ensures
        r@ == render_comps(strings_view(c@)),
{
    proof {
        reveal_strlit("/");
        assert("/"@ =~= root_comp());
    }
    if c.len() > 0 && str_is(c[0].as_str(), "/") {
        let mut rest: Vec<String> = Vec::new();
        let mut i: usize = 1;
        while i < c.len()
            invariant
                1 <= i <= c@.len(),
                strings_view(rest@) == strings_view(c@).subrange(1, i as int),
            decreases c@.len() - i,
        {
            push_copy(&mut rest, &c[i]);
            proof {
                assert(strings_view(c@).subrange(1, i + 1) =~= strings_view(c@).subrange(1, i as int).push(c@[i as int]@));
            }
            i = i + 1;
        }
        proof {
            assert(strings_view(c@).subrange(1, c@.len() as int) =~= strings_view(c@).drop_first());
        }
        render_exec(true, &rest)
    } else {
        render_exec(false, c)
    }
}

/// Resolves components in order; see [`normalize_comps`].
pub fn normalize_components(c: &Vec<String>) -> (r: (bool, Vec<String>))
    ensures
        (r.0, strings_view(r.1@)) == normalize_comps(strings_view(c@)),
{
    proof {
        reveal_strlit("/");
        reveal_strlit(".");
        reveal_strlit("..");
        assert("/"@ =~= root_comp());
        assert("."@ =~= dot());
        assert(".."@ =~= dotdot());
    }
    let mut abs = false;
    let mut names: Vec<String> = Vec::new();
    let mut i: usize = 0;
    while i < c.len()
        invariant
            i <= c@.len(),
            "/"@ == root_comp(),
            "."@ == dot(),
            ".."@ == dotdot(),
            (abs, strings_view(names@)) == normalize_comps(strings_view(c@).subrange(0, i as int)),
        decreases c@.len() - i,
    {
        let x = c[i].as_str();
        let ghost before = strings_view(names@);
        proof {
            let v = strings_view(c@);
            assert(v.subrange(0, i + 1).drop_last() =~= v.subrange(0, i as int));
            assert(v.subrange(0, i + 1).last() == x@);
        }
        if str_is(x, "/") {
            abs = true;
            names = Vec::new();
            proof {
                assert(strings_view(names@) =~= Seq::<Seq<char>>::empty());
            }
        } else if str_is(x, ".") {
        } else if str_is(x, "..") {
            if names.len() > 0 {
                names.pop();
                proof {
                    assert(strings_view(names@) =~= before.drop_last());
                }
            }
        } else {
            names.push(String::from_str(x));
            proof {
                assert(strings_view(names@) =~= before.push(x@));
            }
        }
        i = i + 1;
    }
    proof {
        assert(strings_view(c@).subrange(0, c@.len() as int) =~= strings_view(c@));
    }
    (abs, names)
}

/// The components of a normalized path.
pub fn normalized_components(abs: bool, names: &Vec<String>) -> (r: Vec<String>)
    ensures
        strings_view(r@) == normalized_comps((abs, strings_view(names@))),
{
    proof {
        reveal_strlit("/");
        assert("/"@ =~= root_comp());
    }
    let mut r: Vec<String> = Vec::new();
    if abs {
        push_copy(&mut r, &String::from_str("/"));
    }
    let ghost pre = strings_view(r@);
    proof {
        assert(pre =~= (if abs { seq![root_comp()] } else { Seq::<Seq<char>>::empty() }));
    }
    let mut i: usize = 0;
    while i < names.len()
        invariant
            i <= names@.len(),
            strings_view(r@) == pre + strings_view(names@).subrange(0, i as int),
        decreases names@.len() - i,
    {
        push_copy(&mut r, &names[i]);
        proof {
            assert(strings_view(names@).subrange(0, i + 1) =~= strings_view(names@).subrange(0, i as int).push(names@[i as int]@));
            assert(strings_view(r@) =~= pre + strings_view(names@).subrange(0, i + 1));
        }
        i = i + 1;
    }
    proof {
        assert(strings_view(names@).subrange(0, names@.len() as int) =~= strings_view(names@));
    }
    r
}

/// Whether `a` is a prefix of `b`, component by component.
pub fn components_prefix(a: &Vec<String>, b: &Vec<String>) -> (r: bool)
    ensures
        r == is_prefix(strings_view(a@), strings_view(b@)),
{
    if a.len() > b.len() {
        return false;
    }
    let mut i: usize = 0;
    while i < a.len()
        invariant
            a@.len() <= b@.len(),
            i <= a@.len(),
            forall|k: int| 0 <= k < i ==> a@[k]@ == b@[k]@,
        decreases a@.len() - i,
    {
        if !crate::text::str_eq(a[i].as_str(), b[i].as_str()) {
            proof {
                assert(strings_view(b@).subrange(0, a@.len() as int)[i as int] != strings_view(a@)[i as int]);
            }
            return false;
        }
        i = i + 1;
    }
    proof {
        assert(strings_view(b@).subrange(0, a@.len() as int) =~= strings_view(a@));
    }
    true
}

/// `path` with its `.` and `..` components resolved by text alone.
pub fn lexical_normalize_path(path: &str) -> (r: String)
    ensures
        r@ == render(normalize_comps(components(path@)).0, normalize_comps(components(path@)).1),
{
    let c = path_components(path);
    let (abs, names) = normalize_components(&c);
    render_exec(abs, &names)
}

/// Whether `path` starts with `base`, component by component.
pub fn path_starts_with(path: &str, base: &str) -> (r: bool)
    ensures
        r == is_prefix(components(base@), components(path@)),
{
    let p = path_components(path);
    let b = path_components(base);
    components_prefix(&b, &p)
}

/// The path `path` names under `root` (joined to it when relative), with
/// `.` and `..` resolved by text alone, when it stays under `root`.
pub open spec fn spec_resolve_provided(root: Seq<char>, path: Seq<char>) -> Option<Seq<char>> {
    let joined = if is_absolute(path) {
        components(path)
    } else {
        components(root) + components(path)
    };
    let n = normalize_comps(joined);
    if is_prefix(components(root), normalized_comps(n)) {
        Some(render(n.0, n.1))
    } else {
        None
    }
}

/// Resolves a path of a provided tree under `root`; see
/// [`spec_resolve_provided`].
pub fn resolve_provided_path(root: &str, path: &str) -> (r: Option<String>)
    ensures
        match r {
            Some(s) => spec_resolve_provided(root@, path@) == Some(s@),
            None => spec_resolve_provided(root@, path@) is None,
        },
{
    let rc = path_components(root);
    let pc = path_components(path);
    let absolute = path.unicode_len() > 0 && path.get_char(0) == '/';
    let mut joined: Vec<String> = if absolute { Vec::new() } else { copy_strings(&rc) };
    let ghost pre = strings_view(joined@);
    let mut i: usize = 0;
    while i < pc.len()
        invariant
            i <= pc@.len(),
            strings_view(joined@) == pre + strings_view(pc@).subrange(0, i as int),
        decreases pc@.len() - i,
    {
        push_copy(&mut joined, &pc[i]);
        proof {
            assert(strings_view(pc@).subrange(0, i + 1) =~= strings_view(pc@).subrange(0, i as int).push(pc@[i as int]@));
            assert(strings_view(joined@) =~= pre + strings_view(pc@).subrange(0, i + 1));
        }
        i = i + 1;
    }
    proof {
        assert(strings_view(pc@).subrange(0, pc@.len() as int) =~= strings_view(pc@));
        if absolute {
            assert(pre =~= Seq::<Seq<char>>::empty());
            assert(strings_view(joined@) =~= components(path@));
        }
    }
    let (abs, names) = normalize_components(&joined);
    let nc = normalized_components(abs, &names);
    if components_prefix(&rc, &nc) {
        Some(render_exec(abs, &names))
    } else {
        None
    }
}

/// Whether `name` is a single plain name: exactly one component, neither
/// the root nor `.` nor `..`.
pub open spec fn spec_valid_name(name: Seq<char>) -> bool {
    let c = components(name);
    c.len() == 1 && c[0] != root_comp() && c[0] != dot() && c[0] != dotdot()
}

/// Whether `name` can name an entry of a provided directory.
pub fn is_valid_provided_name(name: &str) -> (r: bool)
    ensures
        r == spec_valid_name(name@),
{
    proof {
        reveal_strlit("/");
        reveal_strlit(".");
        reveal_strlit("..");
        assert("/"@ =~= root_comp());
        assert("."@ =~= dot());
        assert(".."@ =~= dotdot());
    }
    let c = path_components(name);
    c.len() == 1 && !str_is(c[0].as_str(), "/") && !str_is(c[0].as_str(), ".") && !str_is(c[0].as_str(), "..")
}

/// The texts a list of strings holds.
pub open spec fn set_of(v: Seq<String>) -> Set<Seq<char>> {
    Set::new(|t: Seq<char>| exists|i: int| 0 <= i < v.len() && (#[trigger] v[i])@ == t)
}

/// Adds `s` to the strings in `v` unless it is there already.
pub fn insert_unique(v: &mut Vec<String>, s: String)
    ensures
        set_of(final(v)@) == set_of(old(v)@).insert(s@),
{
    let mut i: usize = 0;
    while i < v.len()
        invariant
            i <= v@.len(),
            forall|k: int| 0 <= k < i ==> (#[trigger] v@[k])@ != s@,
        decreases v@.len() - i,
    {
        if crate::text::str_eq(v[i].as_str(), s.as_str()) {
            proof {
                assert(set_of(v@) =~= set_of(v@).insert(s@));
            }
            return;
        }
        i = i + 1;
    }
    let ghost before = v@;
    v.push(s);
    proof {
        assert forall|t: Seq<char>| set_of(v@).contains(t) <==> set_of(before).insert(s@).contains(t) by {
            if set_of(v@).contains(t) {
                let j = choose|j: int| 0 <= j < v@.len() && (#[trigger] v@[j])@ == t;
                if j < before.len() {
                    assert(before[j] == v@[j]);
                }
            }
            if set_of(before).contains(t) {
                let j = choose|j: int| 0 <= j < before.len() && (#[trigger] before[j])@ == t;
                assert(v@[j] == before[j]);
            }
            if t == s@ {
                assert(v@[before.len() as int]@ == t);
            }
        }
        assert(set_of(v@) =~= set_of(before).insert(s@));
    }
}

/// The lowest number of components a path keeps when stepping to parents:
/// one for a rooted path, none otherwise.
pub open spec fn parent_floor(c: Seq<Seq<char>>) -> int {
    if c.len() > 0 && c[0] == root_comp() {
        1
    } else {
        0
    }
}

/// `path` and its ancestors down to `root`, when `path` lies under `root`.
pub open spec fn ancestors_under(path: Seq<char>, root: Seq<char>) -> Set<Seq<char>> {
    let c = components(path);
    let rc = components(root);
    let m = if rc.len() >= parent_floor(c) {
        rc.len() as int
    } else {
        parent_floor(c)
    };
    if is_prefix(rc, c) {
        Set::new(|t: Seq<char>| exists|k: int| m <= k <= c.len() && t == render_comps(#[trigger] c.subrange(0, k)))
    } else {
        Set::empty()
    }
}

pub(crate) fn take_components(c: &Vec<String>, k: usize) -> (r: Vec<String>)
    requires
        k <= c@.len(),
    ensures
        strings_view(r@) == strings_view(c@).subrange(0, k as int),
{
    let mut r: Vec<String> = Vec::new();
    let mut i: usize = 0;
    while i < k
        invariant
            k <= c@.len(),
            i <= k,
            strings_view(r@) == strings_view(c@).subrange(0, i as int),
        decreases k - i,
    {
        push_copy(&mut r, &c[i]);
        proof {
            assert(strings_view(c@).subrange(0, i + 1) =~= strings_view(c@).subrange(0, i as int).push(c@[i as int]@));
        }
        i = i + 1;
    }
    r
}

/// Adds `path` and each of its ancestors down to `root_path` to `expanded`,
/// when `path` lies under `root_path`.
pub fn insert_path_with_ancestors(expanded: &mut Vec<String>, path: &str, root_path: &str)
    ensures
        set_of(final(expanded)@) == set_of(old(expanded)@) + ancestors_under(path@, root_path@),
{
    proof {
        reveal_strlit("/");
        assert("/"@ =~= root_comp());
    }
    let c = path_components(path);
    let rc = path_components(root_path);
    let ghost cv = strings_view(c@);
    let ghost rv = strings_view(rc@);
    if !components_prefix(&rc, &c) {
        proof {
            assert(set_of(expanded@) =~= set_of(expanded@) + ancestors_under(path@, root_path@));
        }
        return;
    }
    let floor: usize = if c.len() > 0 && str_is(c[0].as_str(), "/") { 1 } else { 0 };
    let m: usize = if rc.len() >= floor { rc.len() } else { floor };
    let ghost start = set_of(expanded@);
    let mut k: usize = c.len();
    proof {
        assert(floor == parent_floor(cv));
        assert(prefixes_above(cv, k as int) =~= Set::empty());
        assert(set_of(expanded@) =~= start + prefixes_above(cv, k as int));
    }
    while k > m
        invariant
            m <= k <= c@.len(),
            cv == strings_view(c@),
            set_of(expanded@) == start + prefixes_above(cv, k as int),
        decreases k - m,
    {
        let prefix = take_components(&c, k);
        let text = render_components(&prefix);
        insert_unique(expanded, text);
        proof {
            lemma_prefixes_step(cv, k as int);
            assert(set_of(expanded@) =~= start + prefixes_above(cv, k - 1));
        }
        k = k - 1;
    }
    let prefix = take_components(&c, k);
    let text = render_components(&prefix);
    insert_unique(expanded, text);
    proof {
        lemma_prefixes_step(cv, k as int);
        assert(ancestors_under(path@, root_path@) == prefixes_above(cv, m - 1));
        assert(set_of(expanded@) =~= set_of(old(expanded)@) + ancestors_under(path@, root_path@));
    }
}

/// The texts of the prefixes of `c` longer than `k` components.
pub open spec fn prefixes_above(c: Seq<Seq<char>>, k: int) -> Set<Seq<char>> {
    Set::new(|t: Seq<char>| exists|j: int| k < j <= c.len() && t == render_comps(#[trigger] c.subrange(0, j)))
}

proof fn lemma_prefixes_step(c: Seq<Seq<char>>, k: int)
    requires
        0 <= k <= c.len(),
    ensures
        prefixes_above(c, k - 1) == prefixes_above(c, k).insert(render_comps(c.subrange(0, k))),
{
    let a = prefixes_above(c, k - 1);
    let b = prefixes_above(c, k).insert(render_comps(c.subrange(0, k)));
    assert forall|t: Seq<char>| a.contains(t) <==> b.contains(t) by {
        if a.contains(t) {
            let j = choose|j: int| k - 1 < j <= c.len() && t == render_comps(#[trigger] c.subrange(0, j));
            if j > k {
                assert(prefixes_above(c, k).contains(t));
            }
        }
        if prefixes_above(c, k).contains(t) {
            let j = choose|j: int| k < j <= c.len() && t == render_comps(#[trigger] c.subrange(0, j));
            assert(a.contains(t));
        }
        if t == render_comps(c.subrange(0, k)) {
            assert(a.contains(t));
        }
    }
    assert(a =~= b);
}

/// Whether some component of `path` below `root` names a hidden entry
/// (starts with `.`), unless hidden entries are shown.
pub open spec fn spec_hidden_under_root(path: Seq<char>, root: Seq<char>, show_hidden: bool) -> bool {
    let c = components(path);
    let rc = components(root);
    !show_hidden && is_prefix(rc, c) && exists|j: int|
        rc.len() <= j < c.len() && (#[trigger] c[j]).len() > 0 && c[j][0] == '.'
}

/// Whether `path` is hidden below `root_path`; see [`spec_hidden_under_root`].
pub fn hidden_under_root(path: &str, root_path: &str, show_hidden: bool) -> (r: bool)
    ensures
        r == spec_hidden_under_root(path@, root_path@, show_hidden),
{
    if show_hidden {
        return false;
    }
    let c = path_components(path);
    let rc = path_components(root_path);
    if !components_prefix(&rc, &c) {
        return false;
    }
    let mut j: usize = rc.len();
    while j < c.len()
        invariant
            rc@.len() <= j <= c@.len(),
            strings_view(c@) == components(path@),
            strings_view(rc@) == components(root_path@),
            is_prefix(components(root_path@), components(path@)),
            !show_hidden,
            forall|i: int|
                rc@.len() <= i < j ==> !((#[trigger] strings_view(c@)[i]).len() > 0 && strings_view(c@)[i][0] == '.'),
        decreases c@.len() - j,
    {
        let name = c[j].as_str();
        if name.unicode_len() > 0 && name.get_char(0) == '.' {
            proof {
                assert(strings_view(c@)[j as int] == name@);
                assert(components(path@)[j as int] == name@);
            }
            return true;
        }
        proof {
            assert(strings_view(c@)[j as int] == name@);
        }
        j = j + 1;
    }
    false
}

/// Whether `s` is among the strings of `v`.
pub fn set_contains(v: &Vec<String>, s: &str) -> (r: bool)
    ensures
        r == set_of(v@).contains(s@),
{
    let mut i: usize = 0;
    while i < v.len()
        invariant
            i <= v@.len(),
            forall|j: int| 0 <= j < i ==> (#[trigger] v@[j])@ != s@,
        decreases v@.len() - i,
    {
        if crate::text::str_eq(v[i].as_str(), s) {
            return true;
        }
        i = i + 1;
    }
    false
}

/// `rel` joined onto `root` as text: an absolute `rel` replaces `root`; an
/// empty `root` or one ending in `/` is followed directly, any other by a
/// `/`.
pub open spec fn join_text(root: Seq<char>, rel: Seq<char>) -> Seq<char> {
    if is_absolute(rel) {
        rel
    } else if root.len() == 0 || root.last() == '/' {
        root + rel
    } else {
        root + seq!['/'] + rel
    }
}

/// Joins `rel` onto `root`; see [`join_text`].
pub fn join_path(root: &str, rel: &str) -> (r: String)
    ensures
        r@ == join_text(root@, rel@),
{
    if rel.unicode_len() > 0 && rel.get_char(0) == '/' {
        return String::from_str(rel);
    }
    let n = root.unicode_len();
    let mut out = String::from_str(root);
    if n > 0 && root.get_char(n - 1) != '/' {
        proof {
            reveal_strlit("/");
        }
        out.append("/");
    }
    out.append(rel);
    out
}

/// A path normalized by text alone.
pub open spec fn lexical(p: Seq<char>) -> Seq<char> {
    render(normalize_comps(components(p)).0, normalize_comps(components(p)).1)
}

/// `path` resolved under `root`: joined onto it when relative, then taken as
/// `canonical` records its canonical form, or else normalized by text;
/// kept only when it lies under `root`.
pub open spec fn spec_resolve_under_root(root: Seq<char>, path: Seq<char>, canonical: PathMap<String>) -> Option<
    Seq<char>,
> {
    let candidate = join_text(root, path);
    let c = match spec_lookup(canonical.entries@, candidate) {
        Some(x) => x@,
        None => lexical(candidate),
    };
    if is_prefix(components(root), components(c)) {
        Some(c)
    } else {
        None
    }
}

/// Resolves `path` under `root`; see [`spec_resolve_under_root`].
/// `canonical` holds the canonical forms of the paths found on disk.
pub fn resolve_path_under_root(root: &str, path: &str, canonical: &PathMap<String>) -> (r: Option<String>)
    ensures
        match r {
            Some(s) => spec_resolve_under_root(root@, path@, *canonical) == Some(s@),
            None => spec_resolve_under_root(root@, path@, *canonical) is None,
        },
{
    let candidate = join_path(root, path);
    let c = match canonical.position(candidate.as_str()) {
        Some(i) => canonical.entries[i].1.clone(),
        None => lexical_normalize_path(candidate.as_str()),
    };
    if path_starts_with(c.as_str(), root) {
        Some(c)
    } else {
        None
    }
}

/// Normalizing components follows the path as a walk: a root restarts it,
/// `.` stays put, a name steps down into it and `..` steps back out of the
/// name before it (never above the start). So a name followed by `..`
/// changes nothing, and what comes out holds only names.
pub proof fn law_normalize_walk(c: Seq<Seq<char>>, name: Seq<char>)
    requires
        name != root_comp() && name != dot() && name != dotdot(),
    ensures
        normalize_comps(c.push(name)) == (normalize_comps(c).0, normalize_comps(c).1.push(name)),
        normalize_comps(c.push(name).push(dotdot())) == normalize_comps(c),
        normalize_comps(c.push(dot())) == normalize_comps(c),
        normalize_comps(c.push(root_comp())) == (true, Seq::<Seq<char>>::empty()),
        forall|i: int| 0 <= i < normalize_comps(c).1.len() ==> {
            let n = #[trigger] normalize_comps(c).1[i];
            n != root_comp() && n != dot() && n != dotdot()
        },
{
    let c2 = c.push(name);
    let c3 = c2.push(dotdot());
    let c4 = c.push(dot());
    let c5 = c.push(root_comp());
    assert(c2.drop_last() =~= c);
    assert(c3.drop_last() =~= c2);
    assert(c4.drop_last() =~= c);
    assert(c5.drop_last() =~= c);
    assert(c3.last() == dotdot());
    assert(c4.last() == dot());
    assert(dot()[0] != root_comp()[0]);
    assert(dotdot().len() != root_comp().len() && dotdot().len() != dot().len());
    let n = normalize_comps(c);
    assert(normalize_comps(c2) == (n.0, n.1.push(name)));
    assert(n.1.push(name).drop_last() =~= n.1);
    assert(normalize_comps(c3) == (n.0, n.1.push(name).drop_last()));
    assert(normalize_comps(c4) == n);
    lemma_normalize_names(c);
}

proof fn lemma_normalize_names(c: Seq<Seq<char>>)
    ensures
        forall|i: int| 0 <= i < normalize_comps(c).1.len() ==> {
            let n = #[trigger] normalize_comps(c).1[i];
            n != root_comp() && n != dot() && n != dotdot()
        },
    decreases c.len(),
{
    if c.len() > 0 {
        lemma_normalize_names(c.drop_last());
        let p = normalize_comps(c.drop_last()).1;
        let x = c.last();
        if x == dotdot() && p.len() > 0 {
            assert forall|i: int| 0 <= i < p.drop_last().len() implies #[trigger] p.drop_last()[i] == p[i] by {}
        } else if x != root_comp() && x != dot() && x != dotdot() {
            assert forall|i: int| 0 <= i < p.len() implies #[trigger] p.push(x)[i] == p[i] by {}
        }
    }
}

} // verus!
