//! Showing paths to people: the home directory written as `~`.

use vstd::prelude::*;

verus! {

/// Length of `h` once trailing separators are removed.
pub open spec fn trimmed_len(h: Seq<char>, seps: Seq<char>, n: int) -> int
    decreases n,
{
    if n <= 0 {
        0
    } else if seps.contains(h[n - 1]) {
        trimmed_len(h, seps, n - 1)
    } else {
        n
    }
}

/// What follows `home` in `path`, when `path` lies under it on a component
/// boundary: the path is the home itself or continues with a separator.
pub open spec fn spec_home_rest(path: Seq<char>, home: Seq<char>, seps: Seq<char>) -> Option<Seq<char>> {
    let h = home.subrange(0, trimmed_len(home, seps, home.len() as int));
    if h.len() == 0 || h.len() > path.len() || path.subrange(0, h.len() as int) != h {
        None
    } else {
        let rest = path.subrange(h.len() as int, path.len() as int);
        if rest.len() == 0 || seps.contains(rest[0]) {
            Some(rest)
        } else {
            None
        }
    }
}

/// `path` with the first home (in order) it lies under replaced by `~`.
pub open spec fn spec_abbreviate_home(path: Seq<char>, homes: Seq<Seq<char>>, seps: Seq<char>) -> Seq<char>
    decreases homes.len(),
{
    if homes.len() == 0 {
        path
    } else {
        match spec_home_rest(path, homes[0], seps) {
            Some(rest) => seq!['~'] + rest,
            None => spec_abbreviate_home(path, homes.drop_first(), seps),
        }
    }
}

fn is_sep(c: char, seps: &[char]) -> (r: bool)
    ensures
        r == seps@.contains(c),
{
    let mut i: usize = 0;
    while i < seps.len()
        invariant
            0 <= i <= seps@.len(),
            forall|k: int| 0 <= k < i ==> seps@[k] != c,
        decreases seps@.len() - i,
    {
        if seps[i] == c {
            assert(seps@[i as int] == c);
            return true;
        }
        i = i + 1;
    }
    false
}

fn home_rest<'a>(path: &'a str, home: &str, seps: &[char]) -> (r: Option<&'a str>)
    ensures
        match r {
            Some(rest) => spec_home_rest(path@, home@, seps@) == Some(rest@),
            None => spec_home_rest(path@, home@, seps@) is None,
        },
{
    let hn = home.unicode_len();
    let mut t = hn;
    while t > 0 && is_sep(home.get_char(t - 1), seps)
        invariant
            0 <= t <= hn,
            hn == home@.len(),
            trimmed_len(home@, seps@, hn as int) == trimmed_len(home@, seps@, t as int),
        decreases t,
    {
        t = t - 1;
    }
    let pn = path.unicode_len();
    if t == 0 || t > pn {
        return None;
    }
    let h = home.substring_char(0, t);
    let head = path.substring_char(0, t);
    if !crate::text::str_eq(head, h) {
        return None;
    }
    let rest = path.substring_char(t, pn);
    if t == pn || is_sep(path.get_char(t), seps) {
        Some(rest)
    } else {
        None
    }
}

/// Replaces whichever of `homes` (tried in order) `path` lies under with `~`.
///
/// The match has to end on a component boundary, and trailing separators of a
/// home are not part of its name; an empty home never matches.
pub fn abbreviate_home(path: &str, homes: &[String], separators: &[char]) -> (r: String)
    ensures
        r@ == spec_abbreviate_home(path@, homes@.map_values(|h: String| h@), separators@),
{
    let ghost hs = homes@.map_values(|h: String| h@);
    let mut i: usize = 0;
    assert(hs.subrange(0, hs.len() as int) =~= hs);
    while i < homes.len()
        invariant
            0 <= i <= homes@.len(),
            hs == homes@.map_values(|h: String| h@),
            spec_abbreviate_home(path@, hs, separators@) == spec_abbreviate_home(path@, hs.subrange(i as int, hs.len() as int), separators@),
        decreases homes@.len() - i,
    {
        let ghost tail = hs.subrange(i as int, hs.len() as int);
        assert(tail.drop_first() =~= hs.subrange(i + 1, hs.len() as int));
        assert(tail[0] == homes@[i as int]@);
        match home_rest(path, homes[i].as_str(), separators) {
            Some(rest) => {
                proof {
                    reveal_strlit("~");
                }
                let mut out = String::from_str("~");
                out.append(rest);
                return out;
            },
            None => {},
        }
        i = i + 1;
    }
    assert(hs.subrange(i as int, hs.len() as int) =~= Seq::<Seq<char>>::empty());
    String::from_str(path)
}

/// With one home (not ending in a separator, or ending in some that are not
/// part of its name), a path inside it becomes `~` followed by the rest
/// from the separator on, the home itself becomes `~`, and a path that only
/// starts with the home's letters, or lies elsewhere, is left alone.
pub proof fn law_abbreviate_home(h: Seq<char>, trailing: Seq<char>, c: char, rest: Seq<char>, other: Seq<char>, seps: Seq<char>)
    requires
        h.len() > 0,
        !seps.contains(h.last()),
        forall|i: int| 0 <= i < trailing.len() ==> seps.contains(#[trigger] trailing[i]),
        seps.contains(c),
        !(other.len() >= h.len() && other.subrange(0, h.len() as int) == h),
    ensures
        spec_abbreviate_home(h + seq![c] + rest, seq![h + trailing], seps) == seq!['~', c] + rest,
        spec_abbreviate_home(h, seq![h + trailing], seps) == seq!['~'],
        other.len() > 0 && !seps.contains(other[0]) ==> spec_abbreviate_home(h + other, seq![h + trailing], seps) == h
            + other,
        spec_abbreviate_home(other, seq![h + trailing], seps) == other,
{
    let home = h + trailing;
    lemma_trimmed_home(h, trailing, seps, trailing.len() as int);
    assert(home.subrange(0, h.len() as int) =~= h);
    let p1 = h + seq![c] + rest;
    assert(p1.subrange(0, h.len() as int) =~= h);
    assert(p1.subrange(h.len() as int, p1.len() as int) =~= seq![c] + rest);
    assert(seq![h + trailing].drop_first() =~= Seq::<Seq<char>>::empty());
    assert(h.subrange(0, h.len() as int) =~= h);
    assert(h.subrange(h.len() as int, h.len() as int) =~= Seq::<char>::empty());
    assert(seq!['~'] + Seq::<char>::empty() =~= seq!['~']);
    assert(seq!['~'] + (seq![c] + rest) =~= seq!['~', c] + rest);
    let p2 = h + other;
    assert(p2.subrange(0, h.len() as int) =~= h);
    let hs = seq![h + trailing];
    assert(spec_abbreviate_home(p2, hs.drop_first(), seps) == p2);
    assert(spec_abbreviate_home(other, hs.drop_first(), seps) == other);
    if other.len() > 0 && !seps.contains(other[0]) {
        assert(p2.subrange(h.len() as int, p2.len() as int)[0] == other[0]);
        assert(spec_home_rest(p2, home, seps) is None);
    }
    assert(spec_home_rest(other, home, seps) is None);
}

proof fn lemma_trimmed_home(h: Seq<char>, trailing: Seq<char>, seps: Seq<char>, k: int)
    requires
        h.len() > 0,
        !seps.contains(h.last()),
        forall|i: int| 0 <= i < trailing.len() ==> seps.contains(#[trigger] trailing[i]),
        0 <= k <= trailing.len(),
    ensures
        trimmed_len(h + trailing, seps, h.len() + k) == h.len(),
    decreases k,
{
    let home = h + trailing;
    if k > 0 {
        assert(home[h.len() + k - 1] == trailing[k - 1]);
        lemma_trimmed_home(h, trailing, seps, k - 1);
    } else {
        assert(home[h.len() - 1] == h.last());
    }
}

} // verus!
