//! The text inside a flowchart node: its label wrapped by words to a width
//! counted in characters, and the node size that text and the node's shape
//! call for.

use vstd::prelude::*;

use crate::flowchart::NodeShape;
use crate::text::find_char;
use crate::wrap::{find_ws_exec, lemma_find_bounds, lemma_find_ws_bounds, lines_from, strings_view, words_from};

verus! {

/// One word added to the line being filled (`st.1`, finished lines in
/// `st.0`): after a space when the line, a space and the word fit in `max`
/// characters (or the line is empty), else on a fresh line.
pub open spec fn fw_place(st: (Seq<Seq<char>>, Seq<char>), w: Seq<char>, max: int) -> (Seq<Seq<char>>, Seq<char>) {
    let needed = st.1.len() + (if st.1.len() > 0 { 1int } else { 0int }) + w.len();
    if needed > max && st.1.len() > 0 {
        (st.0.push(st.1), w)
    } else if st.1.len() > 0 {
        (st.0, st.1 + seq![' '] + w)
    } else {
        (st.0, w)
    }
}

/// The first `k` words placed.
pub open spec fn fw_words(words: Seq<Seq<char>>, max: int, k: int) -> (Seq<Seq<char>>, Seq<char>)
    decreases k,
{
    if k <= 0 {
        (Seq::empty(), Seq::empty())
    } else {
        fw_place(fw_words(words, max, k - 1), words[k - 1], max)
    }
}

/// One source line wrapped: its words placed, then the last line kept even
/// when empty.
pub open spec fn fw_line(line: Seq<char>, max: int) -> Seq<Seq<char>> {
    let words = words_from(line, 0);
    let st = fw_words(words, max, words.len() as int);
    st.0.push(st.1)
}

/// The first `k` source lines wrapped.
pub open spec fn fw_lines(lines: Seq<Seq<char>>, max: int, k: int) -> Seq<Seq<char>>
    decreases k,
{
    if k <= 0 {
        Seq::empty()
    } else {
        fw_lines(lines, max, k - 1) + fw_line(lines[k - 1], max)
    }
}

/// A label wrapped to `max` characters per line; at least one line.
pub open spec fn spec_wrap_label(label: Seq<char>, max: int) -> Seq<Seq<char>> {
    let lines = lines_from(label, 0);
    let out = fw_lines(lines, max, lines.len() as int);
    if out.len() == 0 {
        seq![Seq::empty()]
    } else {
        out
    }
}

fn wrap_line(source: &str, max: usize, out: &mut Vec<String>)
    ensures
        strings_view(final(out)@) == strings_view(old(out)@) + fw_line(source@, max as int),
{
    let ghost out0 = strings_view(out@);
    let n = source.unicode_len();
    let ghost words = words_from(source@, 0);
    let mut lines: Vec<String> = Vec::new();
    let mut current = String::new();
    let mut i: usize = 0;
    let ghost mut k: int = 0;
    proof {
        assert(strings_view(lines@) =~= Seq::<Seq<char>>::empty());
        assert(words_from(source@, 0) == words.subrange(0, words.len() as int));
    }
    while i < n
        invariant
            n == source@.len(),
            0 <= i <= n,
            words == words_from(source@, 0),
            0 <= k <= words.len(),
            words_from(source@, i as int) == words.subrange(k, words.len() as int),
            ({
                let st = fw_words(words, max as int, k);
                strings_view(lines@) == st.0 && current@ == st.1
            }),
        ensures
            k == words.len(),
            ({
                let st = fw_words(words, max as int, k);
                strings_view(lines@) == st.0 && current@ == st.1
            }),
        decreases n - i,
    {
        let a = find_ws_exec(source, i, false);
        if a >= n {
            proof {
                assert(words_from(source@, i as int) =~= Seq::<Seq<char>>::empty());
                assert(words.subrange(k, words.len() as int).len() == 0);
            }
            break;
        }
        let b = find_ws_exec(source, a, true);
        proof {
            lemma_find_ws_bounds(source@, i as int, false);
            lemma_find_ws_bounds(source@, a as int, true);
            assert(b > a);
            let rest = words_from(source@, i as int);
            assert(rest == seq![source@.subrange(a as int, b as int)] + words_from(source@, b as int));
            assert(words[k] == rest[0]);
            assert(words_from(source@, b as int) =~= words.subrange(k + 1, words.len() as int)) by {
                assert(rest.subrange(1, rest.len() as int) =~= words_from(source@, b as int));
            }
        }
        let word = source.substring_char(a, b);
        let cur_len = current.as_str().unicode_len();
        let word_len = word.unicode_len();
        let needed: u128 = cur_len as u128 + (if cur_len > 0 { 1u128 } else { 0u128 }) + word_len as u128;
        if needed > max as u128 && cur_len > 0 {
            let mut taken = String::new();
            std::mem::swap(&mut taken, &mut current);
            let ghost before = lines@;
            lines.push(taken);
            assert(strings_view(lines@) =~= strings_view(before).push(taken@));
            current.append(word);
        } else {
            if cur_len > 0 {
                current.append(" ");
            }
            current.append(word);
        }
        proof {
            reveal_strlit(" ");
            k = k + 1;
        }
        i = b;
    }
    let ghost before = lines@;
    let ghost cur_v = current@;
    lines.push(current);
    assert(strings_view(lines@) =~= strings_view(before).push(cur_v));
    let mut j: usize = 0;
    while j < lines.len()
        invariant
            j <= lines@.len(),
            strings_view(out@) =~= out0 + strings_view(lines@).subrange(0, j as int),
        decreases lines@.len() - j,
    {
        let ghost prev = out@;
        let line = lines[j].clone();
        out.push(line);
        assert(strings_view(out@) =~= strings_view(prev).push(lines@[j as int]@));
        assert(strings_view(lines@).subrange(0, j as int + 1) =~= strings_view(lines@).subrange(0, j as int).push(
            lines@[j as int]@,
        ));
        j = j + 1;
    }
}

/// Wraps a node label; see [`spec_wrap_label`].
pub fn wrap_label(label: &str, max: u16) -> (r: Vec<String>)
    ensures
        strings_view(r@) == spec_wrap_label(label@, max as int),
{
    let m: usize = max as usize;
    let n = label.unicode_len();
    let ghost lines = lines_from(label@, 0);
    let mut out: Vec<String> = Vec::new();
    let mut start: usize = 0;
    let ghost mut k: int = 0;
    assert(strings_view(out@) =~= fw_lines(lines, m as int, 0));
    while start < n
        invariant_except_break
            lines_from(label@, start as int) == lines.subrange(k, lines.len() as int),
        invariant
            n == label@.len(),
            start <= n,
            lines == lines_from(label@, 0),
            0 <= k <= lines.len(),
            strings_view(out@) == fw_lines(lines, m as int, k),
        ensures
            k == lines.len(),
            strings_view(out@) == fw_lines(lines, m as int, k),
        decreases n - start,
    {
        let e = find_char(label, '\n', start);
        proof {
            lemma_find_bounds(label@, '\n', start as int);
        }
        let seg = label.substring_char(start, e);
        let seg_len = e - start;
        let line: &str = if e < n && seg_len > 0 && seg.get_char(seg_len - 1) == '\r' {
            label.substring_char(start, e - 1)
        } else {
            seg
        };
        proof {
            let rest = lines_from(label@, start as int);
            assert(rest[0] == line@) by {
                if e < n && seg_len > 0 && seg@.last() == '\r' {
                    assert(line@ =~= seg@.drop_last());
                }
            }
            assert(rest.len() >= 1);
            assert(k < lines.len());
            assert(lines.subrange(k, lines.len() as int)[0] == lines[k]);
            assert(lines[k] == line@);
            if e < n {
                assert(lines_from(label@, e as int + 1) =~= lines.subrange(k + 1, lines.len() as int)) by {
                    assert(rest.subrange(1, rest.len() as int) =~= lines_from(label@, e as int + 1));
                }
            } else {
                assert(rest.len() == 1);
            }
        }
        let ghost before = strings_view(out@);
        wrap_line(line, m, &mut out);
        proof {
            assert(fw_lines(lines, m as int, k + 1) == before + fw_line(line@, m as int));
            k = k + 1;
        }
        if e >= n {
            break;
        }
        start = e + 1;
    }
    proof {
        if start >= n && k < lines.len() {
            assert(lines_from(label@, start as int) =~= Seq::<Seq<char>>::empty());
        }
    }
    if out.len() == 0 {
        out.push(String::new());
        assert(strings_view(out@) =~= seq![Seq::<char>::empty()]);
    }
    out
}

/// Extra width and height a shape adds around its text, and its least
/// width and height.
pub open spec fn shape_chrome(shape: NodeShape) -> (int, int, int, int) {
    match shape {
        NodeShape::Diamond | NodeShape::Hexagon | NodeShape::DoubleCircle => (4, 2, 5, 3),
        NodeShape::Circle => (4, 2, 5, 3),
        NodeShape::Stadium | NodeShape::Cylinder => (4, 2, 6, 3),
        NodeShape::Subroutine => (4, 2, 6, 3),
        NodeShape::Asymmetric => (3, 2, 5, 3),
        NodeShape::Parallelogram | NodeShape::ParallelogramAlt | NodeShape::Trapezoid | NodeShape::TrapezoidAlt => (
            4,
            2,
            5,
            3,
        ),
        NodeShape::Rect | NodeShape::Round => (2, 2, 3, 3),
    }
}

/// The longest of the first `k` lines, in characters.
pub open spec fn longest(lines: Seq<Seq<char>>, k: int) -> int
    decreases k,
{
    if k <= 0 {
        0
    } else if lines[k - 1].len() > longest(lines, k - 1) {
        lines[k - 1].len() as int
    } else {
        longest(lines, k - 1)
    }
}

/// `v` capped at `u16::MAX`.
pub open spec fn cap_u16(v: int) -> int {
    if v > 65535 {
        65535
    } else {
        v
    }
}

/// A node's size: its wrapped text (at least one column wide) with the
/// shape's extra width and height, at least the shape's least size.
pub open spec fn spec_node_size(label: Seq<char>, shape: NodeShape, max_width: int) -> (int, int) {
    let lines = spec_wrap_label(label, if max_width < 1 { 1 } else { max_width });
    let w = cap_u16(longest(lines, lines.len() as int));
    let h = cap_u16(if lines.len() < 1 { 1 } else { lines.len() as int });
    let (ew, eh, mw, mh) = shape_chrome(shape);
    let sw = cap_u16(w + ew);
    let sh = cap_u16(h + eh);
    (if sw > mw { sw } else { mw }, if sh > mh { sh } else { mh })
}

/// A node's size and wrapped text; see [`spec_node_size`].
pub fn intrinsic_node_size(label: &str, shape: NodeShape, max_width: u16) -> (r: (u16, u16, Vec<String>))
    ensures
        strings_view(r.2@) == spec_wrap_label(label@, if max_width < 1 { 1 } else { max_width as int }),
        (r.0 as int, r.1 as int) == spec_node_size(label@, shape, max_width as int),
{
    let lines = wrap_label(label, if max_width < 1 { 1 } else { max_width });
    let mut widest: usize = 0;
    let mut k: usize = 0;
    while k < lines.len()
        invariant
            k <= lines@.len(),
            widest == longest(strings_view(lines@), k as int),
        decreases lines@.len() - k,
    {
        let c = lines[k].as_str().unicode_len();
        if c > widest {
            widest = c;
        }
        k = k + 1;
    }
    let w: u16 = if widest > 65535 { 65535 } else { widest as u16 };
    let h: u16 = if lines.len() < 1 { 1 } else if lines.len() > 65535 { 65535 } else { lines.len() as u16 };
    let (ew, eh, mw, mh): (u16, u16, u16, u16) = match shape {
        NodeShape::Diamond | NodeShape::Hexagon | NodeShape::DoubleCircle => (4, 2, 5, 3),
        NodeShape::Circle => (4, 2, 5, 3),
        NodeShape::Stadium | NodeShape::Cylinder => (4, 2, 6, 3),
        NodeShape::Subroutine => (4, 2, 6, 3),
        NodeShape::Asymmetric => (3, 2, 5, 3),
        NodeShape::Parallelogram | NodeShape::ParallelogramAlt | NodeShape::Trapezoid | NodeShape::TrapezoidAlt => (
            4,
            2,
            5,
            3,
        ),
        NodeShape::Rect | NodeShape::Round => (2, 2, 3, 3),
    };
    let sw: u16 = w.saturating_add(ew);
    let sh: u16 = h.saturating_add(eh);
    (if sw > mw { sw } else { mw }, if sh > mh { sh } else { mh }, lines)
}

/// Placing words keeps every line within the width: each finished line, and
/// the line being filled, holds at most `max` characters unless it is a
/// single word longer than that (words are never broken).
pub proof fn law_fw_words_fit(words: Seq<Seq<char>>, max: int, k: int)
    requires
        0 <= k <= words.len(),
        0 <= max,
    ensures
        ({
            let st = fw_words(words, max, k);
            let lines = st.0.push(st.1);
            forall|i: int|
                0 <= i < lines.len() ==> (#[trigger] lines[i]).len() <= max || exists|j: int|
                    0 <= j < k && lines[i] == words[j]
        }),
    decreases k,
{
    if k > 0 {
        law_fw_words_fit(words, max, k - 1);
        let prev = fw_words(words, max, k - 1);
        let st = fw_words(words, max, k);
        let pl = prev.0.push(prev.1);
        let lines = st.0.push(st.1);
        let w = words[k - 1];
        assert forall|i: int| 0 <= i < lines.len() implies (#[trigger] lines[i]).len() <= max || exists|j: int|
            0 <= j < k && lines[i] == words[j] by {
            if i < lines.len() - 1 {
                assert(lines[i] == pl[i]);
                if pl[i].len() > max {
                    let j = choose|j: int| 0 <= j < k - 1 && pl[i] == words[j];
                    assert(lines[i] == words[j]);
                }
            } else if st.1 == w {
                assert(lines[i] == words[k - 1]);
            }
        }
    }
}

} // verus!
