//! Word wrapping of short labels to a column budget.

use vstd::prelude::*;

use crate::text::{char_is_ws, find_char, is_ws, spec_find};
use crate::width::{char_display_width, char_width, display_width, str_width};

verus! {

/// `a + b`, saturating at `usize::MAX`.
pub open spec fn sat_usize(a: int, b: int) -> int {
    if a + b > usize::MAX { usize::MAX as int } else { a + b }
}

/// The lines of `s` from `start`, as `str::lines` splits them: at each
/// `\n`, dropping a `\r` just before it; no empty line after a final `\n`.
pub open spec fn lines_from(s: Seq<char>, start: int) -> Seq<Seq<char>>
    decreases s.len() - start,
{
    if start < 0 || start >= s.len() {
        Seq::empty()
    } else {
        let e = spec_find(s, '\n', start);
        let seg = s.subrange(start, e);
        let line = if e < s.len() && seg.len() > 0 && seg.last() == '\r' { seg.drop_last() } else { seg };
        if e < start {
            Seq::empty()
        } else if e < s.len() {
            seq![line] + lines_from(s, e + 1)
        } else {
            seq![line]
        }
    }
}

/// Index of the first character at or after `from` that is (or is not)
/// white space, or the length.
pub open spec fn find_ws(s: Seq<char>, from: int, ws: bool) -> int
    decreases s.len() - from,
{
    if from < 0 || from >= s.len() {
        s.len() as int
    } else if is_ws(s[from]) == ws {
        from
    } else {
        find_ws(s, from + 1, ws)
    }
}

/// The white-space separated words of `s` from `from`.
pub open spec fn words_from(s: Seq<char>, from: int) -> Seq<Seq<char>>
    decreases s.len() - from,
{
    let a = find_ws(s, from, false);
    if from < 0 || a >= s.len() {
        Seq::empty()
    } else {
        let b = find_ws(s, a, true);
        if b <= from || b > s.len() {
            Seq::empty()
        } else {
            seq![s.subrange(a, b)] + words_from(s, b)
        }
    }
}

/// Wrapping state: the lines so far, the line being filled and its width.
pub struct WrapState {
    pub out: Seq<Seq<char>>,
    pub cur: Seq<char>,
    pub cw: int,
}

/// The width of a character (zero for control characters).
pub open spec fn cwidth(c: char) -> int {
    match char_display_width(c) {
        Some(w) => w as int,
        None => 0,
    }
}

/// The first `k` characters of a word that fits no line, placed one by one,
/// starting a new line whenever the next one would overflow a started line.
pub open spec fn break_chars(st: WrapState, w: Seq<char>, max_w: int, k: int) -> WrapState
    decreases k,
{
    if k <= 0 {
        st
    } else {
        let s = break_chars(st, w, max_w, k - 1);
        let c = w[k - 1];
        let s2 = if s.cw > 0 && sat_usize(s.cw, cwidth(c)) > max_w {
            WrapState { out: s.out.push(s.cur), cur: Seq::empty(), cw: 0 }
        } else {
            s
        };
        WrapState { out: s2.out, cur: s2.cur.push(c), cw: sat_usize(s2.cw, cwidth(c)) }
    }
}

/// One word placed: after a space on the current line when it fits there,
/// alone on an empty line when it fits, else broken by characters on fresh
/// lines.
pub open spec fn place_word(st: WrapState, w: Seq<char>, max_w: int) -> WrapState {
    let ww = display_width(w) as int;
    if st.cw > 0 && sat_usize(sat_usize(st.cw, 1), ww) <= max_w {
        WrapState { out: st.out, cur: st.cur + seq![' '] + w, cw: sat_usize(sat_usize(st.cw, 1), ww) }
    } else if st.cw == 0 && ww <= max_w {
        WrapState { out: st.out, cur: st.cur + w, cw: ww }
    } else {
        let st1 = if st.cur.len() > 0 { WrapState { out: st.out.push(st.cur), cur: Seq::empty(), cw: 0 } } else { st };
        break_chars(st1, w, max_w, w.len() as int)
    }
}

/// The first `k` words placed.
pub open spec fn place_words(st: WrapState, words: Seq<Seq<char>>, max_w: int, k: int) -> WrapState
    decreases k,
{
    if k <= 0 { st } else { place_word(place_words(st, words, max_w, k - 1), words[k - 1], max_w) }
}

/// The wrapped lines of one source line: an empty line stays one empty line.
pub open spec fn wrap_line(line: Seq<char>, max_w: int) -> Seq<Seq<char>> {
    if line.len() == 0 {
        seq![Seq::empty()]
    } else {
        let words = words_from(line, 0);
        let st = place_words(WrapState { out: Seq::empty(), cur: Seq::empty(), cw: 0 }, words, max_w, words.len() as int);
        if st.cur.len() > 0 { st.out.push(st.cur) } else { st.out }
    }
}

/// The wrapped lines of the first `k` source lines.
pub open spec fn wrap_lines(lines: Seq<Seq<char>>, max_w: int, k: int) -> Seq<Seq<char>>
    decreases k,
{
    if k <= 0 { Seq::empty() } else { wrap_lines(lines, max_w, k - 1) + wrap_line(lines[k - 1], max_w) }
}

/// A label wrapped to `max_width` columns (at least one): each source line
/// wrapped greedily by words, words too wide broken by characters; at least
/// one (possibly empty) line.
pub open spec fn spec_wrap_label(text: Seq<char>, max_width: int) -> Seq<Seq<char>> {
    let m = if max_width < 1 { 1 } else { max_width };
    let lines = lines_from(text, 0);
    let out = wrap_lines(lines, m, lines.len() as int);
    if out.len() == 0 { seq![Seq::empty()] } else { out }
}

/// The view of a list of strings.
pub open spec fn strings_view(v: Seq<String>) -> Seq<Seq<char>> {
    Seq::new(v.len(), |i: int| v[i]@)
}

pub(crate) fn find_ws_exec(s: &str, from: usize, ws: bool) -> (r: usize)
    requires
        from <= s@.len(),
    ensures
        r == find_ws(s@, from as int, ws),
        from <= r <= s@.len(),
{
    let n = s.unicode_len();
    let mut i = from;
    while i < n
        invariant
            from <= i <= n,
            n == s@.len(),
            find_ws(s@, from as int, ws) == find_ws(s@, i as int, ws),
        decreases n - i,
    {
        if char_is_ws(s.get_char(i)) == ws {
            return i;
        }
        i = i + 1;
    }
    i
}

pub(crate) proof fn lemma_find_ws_bounds(s: Seq<char>, from: int, ws: bool)
    requires
        0 <= from <= s.len(),
    ensures
        from <= find_ws(s, from, ws) <= s.len(),
        find_ws(s, from, ws) < s.len() ==> is_ws(s[find_ws(s, from, ws)]) == ws,
    decreases s.len() - from,
{
    if from < s.len() && is_ws(s[from]) != ws {
        lemma_find_ws_bounds(s, from + 1, ws);
    }
}

/// Places the characters of a word one by one; see [`break_chars`].
fn push_wrapped_word(word: &str, max_width: usize, out: &mut Vec<String>, current: &mut String, current_width: &mut usize)
    ensures
        ({
            let st = break_chars(
                WrapState { out: strings_view(old(out)@), cur: old(current)@, cw: *old(current_width) as int },
                word@,
                max_width as int,
                word@.len() as int,
            );
            strings_view(final(out)@) == st.out && final(current)@ == st.cur && *final(current_width) as int == st.cw
        }),
{
    let ghost st0 = WrapState { out: strings_view(out@), cur: current@, cw: *current_width as int };
    let n = word.unicode_len();
    let mut k: usize = 0;
    while k < n
        invariant
            n == word@.len(),
            k <= n,
            ({
                let st = break_chars(st0, word@, max_width as int, k as int);
                strings_view(out@) == st.out && current@ == st.cur && *current_width as int == st.cw
            }),
        decreases n - k,
    {
        let c = word.get_char(k);
        let w: usize = match char_width(c) {
            Some(v) => v,
            None => 0,
        };
        if *current_width > 0 && current_width.saturating_add(w) > max_width {
            let mut taken = String::new();
            std::mem::swap(&mut taken, current);
            let ghost before = out@;
            out.push(taken);
            assert(strings_view(out@) =~= strings_view(before).push(taken@));
            *current_width = 0;
        }
        let one = word.substring_char(k, k + 1);
        current.append(one);
        assert(one@ =~= seq![c]);
        *current_width = current_width.saturating_add(w);
        k = k + 1;
    }
}

/// Wraps one source line; see [`wrap_line`].
fn wrap_source_line(source: &str, max_width: usize, out: &mut Vec<String>)
    ensures
        strings_view(final(out)@) == strings_view(old(out)@) + wrap_line(source@, max_width as int),
{
    let ghost out0 = strings_view(out@);
    let n = source.unicode_len();
    if n == 0 {
        out.push(String::new());
        assert(strings_view(out@) =~= out0 + wrap_line(source@, max_width as int));
        return;
    }
    let ghost words = words_from(source@, 0);
    let mut lines: Vec<String> = Vec::new();
    let mut current = String::new();
    let mut current_width: usize = 0;
    let mut i: usize = 0;
    let ghost mut k: int = 0;
    let ghost st0 = WrapState { out: Seq::empty(), cur: Seq::empty(), cw: 0 };
    assert(strings_view(lines@) =~= Seq::<Seq<char>>::empty());
    proof {
        assert(words_from(source@, 0) == words.subrange(0, words.len() as int));
    }
    while i < n
        invariant
            n == source@.len(),
            0 <= i <= n,
            words == words_from(source@, 0),
            0 <= k <= words.len(),
            words_from(source@, i as int) == words.subrange(k, words.len() as int),
            ({
                let st = place_words(st0, words, max_width as int, k);
                strings_view(lines@) == st.out && current@ == st.cur && current_width as int == st.cw
            }),
        ensures
            k == words.len(),
            ({
                let st = place_words(st0, words, max_width as int, k);
                strings_view(lines@) == st.out && current@ == st.cur && current_width as int == st.cw
            }),
        decreases n - i,
    {
        let a = find_ws_exec(source, i, false);
        if a >= n {
            proof {
                assert(words_from(source@, i as int) =~= Seq::<Seq<char>>::empty());
                assert(words.subrange(k, words.len() as int).len() == 0);
            }
            break;
        }
        let b = find_ws_exec(source, a, true);
        proof {
            lemma_find_ws_bounds(source@, i as int, false);
            lemma_find_ws_bounds(source@, a as int, true);
            assert(b > a);
            let rest = words_from(source@, i as int);
            assert(rest == seq![source@.subrange(a as int, b as int)] + words_from(source@, b as int));
            assert(words[k] == rest[0]);
            assert(words_from(source@, b as int) =~= words.subrange(k + 1, words.len() as int)) by {
                assert(rest.subrange(1, rest.len() as int) =~= words_from(source@, b as int));
            }
        }
        let word = source.substring_char(a, b);
        let ww = str_width(word);
        if current_width > 0 && current_width.saturating_add(1).saturating_add(ww) <= max_width {
            current.append(" ");
            current.append(word);
            current_width = current_width.saturating_add(1).saturating_add(ww);
        } else if current_width == 0 && ww <= max_width {
            current.append(word);
            current_width = ww;
        } else {
            if current.as_str().unicode_len() > 0 {
                let mut taken = String::new();
                std::mem::swap(&mut taken, &mut current);
                let ghost before = lines@;
                lines.push(taken);
                assert(strings_view(lines@) =~= strings_view(before).push(taken@));
                current_width = 0;
            }
            push_wrapped_word(word, max_width, &mut lines, &mut current, &mut current_width);
        }
        proof {
            reveal_strlit(" ");
            k = k + 1;
        }
        i = b;
    }
    assert(k == words.len());
    if current.as_str().unicode_len() > 0 {
        let ghost before = lines@;
        let ghost cur_v = current@;
        lines.push(current);
        assert(strings_view(lines@) =~= strings_view(before).push(cur_v));
    }
    let ghost produced = strings_view(lines@);
    assert(produced =~= wrap_line(source@, max_width as int));
    let mut j: usize = 0;
    while j < lines.len()
        invariant
            j <= lines@.len(),
            strings_view(out@) =~= out0 + strings_view(lines@).subrange(0, j as int),
        decreases lines@.len() - j,
    {
        let ghost before = out@;
        let line = lines[j].clone();
        out.push(line);
        assert(strings_view(out@) =~= strings_view(before).push(lines@[j as int]@));
        assert(strings_view(lines@).subrange(0, j as int + 1) =~= strings_view(lines@).subrange(0, j as int).push(
            lines@[j as int]@,
        ));
        j = j + 1;
    }
}


pub(crate) proof fn lemma_find_bounds(s: Seq<char>, c: char, from: int)
    requires
        0 <= from <= s.len(),
    ensures
        from <= spec_find(s, c, from) <= s.len(),
    decreases s.len() - from,
{
    if from < s.len() && s[from] != c {
        lemma_find_bounds(s, c, from + 1);
    }
}

/// Wraps a label; see [`spec_wrap_label`].
pub fn wrap_label(text: &str, max_width: u16) -> (r: Vec<String>)
    ensures
        strings_view(r@) == spec_wrap_label(text@, max_width as int),
{
    let m: usize = if max_width < 1 { 1 } else { max_width as usize };
    let n = text.unicode_len();
    let ghost lines = lines_from(text@, 0);
    let mut out: Vec<String> = Vec::new();
    let mut start: usize = 0;
    let ghost mut k: int = 0;
    assert(strings_view(out@) =~= wrap_lines(lines, m as int, 0));
    while start < n
        invariant_except_break
            lines_from(text@, start as int) == lines.subrange(k, lines.len() as int),
        invariant
            n == text@.len(),
            start <= n,
            lines == lines_from(text@, 0),
            0 <= k <= lines.len(),
            strings_view(out@) == wrap_lines(lines, m as int, k),
        ensures
            k == lines.len(),
            strings_view(out@) == wrap_lines(lines, m as int, k),
        decreases n - start,
    {
        let e = find_char(text, '\n', start);
        proof {
            lemma_find_bounds(text@, '\n', start as int);
        }
        let seg = text.substring_char(start, e);
        let seg_len = e - start;
        let line: &str = if e < n && seg_len > 0 && seg.get_char(seg_len - 1) == '\r' {
            text.substring_char(start, e - 1)
        } else {
            seg
        };
        proof {
            let rest = lines_from(text@, start as int);
            assert(rest[0] == line@) by {
                if e < n && seg_len > 0 && seg@.last() == '\r' {
                    assert(line@ =~= seg@.drop_last());
                }
            }
            assert(rest.len() >= 1);
            assert(k < lines.len());
            assert(lines.subrange(k, lines.len() as int)[0] == lines[k]);
            assert(lines[k] == line@);
            if e < n {
                assert(lines_from(text@, e as int + 1) =~= lines.subrange(k + 1, lines.len() as int)) by {
                    assert(rest.subrange(1, rest.len() as int) =~= lines_from(text@, e as int + 1));
                }
            } else {
                assert(rest.len() == 1);
            }
        }
        let ghost before = strings_view(out@);
        wrap_source_line(line, m, &mut out);
        proof {
            assert(wrap_lines(lines, m as int, k + 1) == before + wrap_line(line@, m as int));
            k = k + 1;
        }
        if e >= n {
            break;
        }
        start = e + 1;
    }
    proof {
        if start >= n && k < lines.len() {
            assert(lines_from(text@, start as int) =~= Seq::<Seq<char>>::empty());
        }
    }
    if out.len() == 0 {
        out.push(String::new());
        assert(strings_view(out@) =~= seq![Seq::<char>::empty()]);
    }
    out
}

} // verus!
