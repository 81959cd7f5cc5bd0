//! Decimal text: parsing unsigned numbers and writing zero-padded ones.

use vstd::prelude::*;

verus! {

pub open spec fn is_digit(c: char) -> bool {
    '0' <= c && c <= '9'
}

pub open spec fn digit_value(c: char) -> int {
    (c as int) - ('0' as int)
}

/// Value of a run of decimal digits.
pub open spec fn digits_value(s: Seq<char>) -> int
    decreases s.len(),
{
    if s.len() == 0 {
        0
    } else {
        digits_value(s.drop_last()) * 10 + digit_value(s.last())
    }
}

pub open spec fn all_digits(s: Seq<char>) -> bool {
    forall|i: int| 0 <= i < s.len() ==> is_digit(#[trigger] s[i])
}

/// How Rust's `str::parse` reads an unsigned number: an optional `+`, then at
/// least one digit and nothing else; `None` when the value exceeds `max`.
pub open spec fn spec_parse_unsigned(s: Seq<char>, max: int) -> Option<int> {
    let body = if s.len() > 0 && s[0] == '+' { s.drop_first() } else { s };
    if body.len() > 0 && all_digits(body) && digits_value(body) <= max {
        Some(digits_value(body))
    } else {
        None
    }
}

proof fn lemma_digits_value_nonneg(s: Seq<char>)
    requires
        all_digits(s),
    ensures
        digits_value(s) >= 0,
    decreases s.len(),
{
    if s.len() > 0 {
        lemma_digits_value_nonneg(s.drop_last());
    }
}

/// Reads `s[from..to]` as an unsigned decimal no greater than `max`.
pub fn parse_unsigned(s: &str, from: usize, to: usize, max: u64) -> (r: Option<u64>)
    requires
        from <= to <= s@.len(),
    ensures
        r matches Some(v) ==> spec_parse_unsigned(s@.subrange(from as int, to as int), max as int) == Some(v as int),
        r is None ==> spec_parse_unsigned(s@.subrange(from as int, to as int), max as int) is None,
{
    let ghost part = s@.subrange(from as int, to as int);
    let mut start = from;
    if from < to && s.get_char(from) == '+' {
        start = from + 1;
    }
    let ghost body = s@.subrange(start as int, to as int);
    assert(body =~= (if part.len() > 0 && part[0] == '+' { part.drop_first() } else { part }));
    if start == to {
        return None;
    }
    let mut value: u64 = 0;
    let mut i = start;
    while i < to
        invariant
            start <= i <= to <= s@.len(),
            body == s@.subrange(start as int, to as int),
            part == s@.subrange(from as int, to as int),
            body == (if part.len() > 0 && part[0] == '+' { part.drop_first() } else { part }),
            body.len() > 0,
            value <= max,
            all_digits(s@.subrange(start as int, i as int)),
            value == digits_value(s@.subrange(start as int, i as int)),
        decreases to - i,
    {
        let c = s.get_char(i);
        assert(s@.subrange(start as int, i + 1 as int).drop_last() =~= s@.subrange(start as int, i as int));
        if !('0' <= c && c <= '9') {
            assert(body[i - start] == c);
            return None;
        }
        let d = (c as u64) - ('0' as u64);
        let next128: u128 = value as u128 * 10 + d as u128;
        if next128 > max as u128 {
            proof {
                assert(s@.subrange(start as int, i + 1 as int) =~= body.subrange(0, (i + 1 - start) as int));
                lemma_digits_prefix_bound(body, (i + 1 - start) as int);
            }
            return None;
        }
        value = next128 as u64;
        i = i + 1;
    }
    assert(s@.subrange(start as int, i as int) =~= body);
    Some(value)
}

proof fn lemma_digits_prefix_bound(s: Seq<char>, k: int)
    requires
        0 <= k <= s.len(),
        all_digits(s.subrange(0, k)),
    ensures
        all_digits(s) ==> digits_value(s) >= digits_value(s.subrange(0, k)),
    decreases s.len() - k,
{
    if k < s.len() && all_digits(s) {
        assert(s.subrange(0, k + 1).drop_last() =~= s.subrange(0, k));
        lemma_digits_value_nonneg(s.subrange(0, k));
        lemma_digits_prefix_bound(s, k + 1);
    } else if k == s.len() {
        assert(s.subrange(0, k) =~= s);
    }
}

/// Unicode white space, as `char::is_whitespace` decides it.
pub open spec fn is_ws(c: char) -> bool {
    c == '\t' || c == '\n' || c == '\x0B' || c == '\x0C' || c == '\r' || c == ' ' || c == '\u{85}' || c
        == '\u{A0}' || c == '\u{1680}' || ('\u{2000}' <= c && c <= '\u{200A}') || c == '\u{2028}' || c
        == '\u{2029}' || c == '\u{202F}' || c == '\u{205F}' || c == '\u{3000}'
}

/// Whether `c` is white space.
pub fn char_is_ws(c: char) -> (r: bool)
    ensures
        r == is_ws(c),
{
    c == '\t' || c == '\n' || c == '\x0B' || c == '\x0C' || c == '\r' || c == ' ' || c == '\u{85}' || c
        == '\u{A0}' || c == '\u{1680}' || ('\u{2000}' <= c && c <= '\u{200A}') || c == '\u{2028}' || c
        == '\u{2029}' || c == '\u{202F}' || c == '\u{205F}' || c == '\u{3000}'
}

/// Start of `s` after leading white space.
pub open spec fn trim_start_at(s: Seq<char>, from: int) -> int
    decreases s.len() - from,
{
    if from >= s.len() {
        s.len() as int
    } else if is_ws(s[from]) {
        trim_start_at(s, from + 1)
    } else {
        from
    }
}

/// End of `s[lo..to]` before trailing white space.
pub open spec fn trim_end_at(s: Seq<char>, lo: int, to: int) -> int
    decreases to - lo,
{
    if to <= lo {
        lo
    } else if is_ws(s[to - 1]) {
        trim_end_at(s, lo, to - 1)
    } else {
        to
    }
}

/// `s[from..to]` without white space at either end.
pub open spec fn spec_trim(s: Seq<char>) -> Seq<char> {
    let a = trim_start_at(s, 0);
    s.subrange(a, trim_end_at(s, a, s.len() as int))
}

/// The bounds of `s[from..to]` with white space trimmed from both ends.
pub fn trim_bounds(s: &str, from: usize, to: usize) -> (r: (usize, usize))
    requires
        from <= to <= s@.len(),
    ensures
        r.0 == trim_start_at(s@.subrange(from as int, to as int), 0) + from,
        r.1 == trim_end_at(
            s@.subrange(from as int, to as int),
            trim_start_at(s@.subrange(from as int, to as int), 0),
            (to - from) as int,
        ) + from,
        from <= r.0 <= r.1 <= to,
{
    let ghost sub = s@.subrange(from as int, to as int);
    let mut a = from;
    while a < to && char_is_ws(s.get_char(a))
        invariant
            from <= a <= to <= s@.len(),
            sub == s@.subrange(from as int, to as int),
            trim_start_at(sub, 0) == trim_start_at(sub, (a - from) as int),
        decreases to - a,
    {
        a = a + 1;
    }
    let mut b = to;
    while b > a && char_is_ws(s.get_char(b - 1))
        invariant
            from <= a <= b <= to <= s@.len(),
            sub == s@.subrange(from as int, to as int),
            trim_start_at(sub, 0) == (a - from) as int,
            trim_end_at(sub, (a - from) as int, (to - from) as int) == trim_end_at(sub, (a - from) as int, (b - from) as int),
        decreases b - a,
    {
        b = b - 1;
    }
    (a, b)
}

/// Whether `s[at..at + p.len()]` equals `p`.
pub open spec fn occurs_at(s: Seq<char>, p: Seq<char>, at: int) -> bool {
    0 <= at && at + p.len() <= s.len() && s.subrange(at, at + p.len()) == p
}

/// Whether `s[at..]` starts with `p`.
pub fn matches_at(s: &str, p: &str, at: usize) -> (r: bool)
    requires
        at <= s@.len(),
    ensures
        r == occurs_at(s@, p@, at as int),
{
    let n = s.unicode_len();
    let m = p.unicode_len();
    if m > n - at {
        return false;
    }
    let mut i: usize = 0;
    while i < m
        invariant
            0 <= i <= m,
            m == p@.len(),
            n == s@.len(),
            at + m <= n,
            forall|k: int| 0 <= k < i ==> s@[at + k] == p@[k],
        decreases m - i,
    {
        if s.get_char(at + i) != p.get_char(i) {
            assert(s@.subrange(at as int, at + m as int)[i as int] != p@[i as int]);
            return false;
        }
        i = i + 1;
    }
    assert(s@.subrange(at as int, at + m as int) =~= p@);
    true
}

/// First position in `from..to` where `p` occurs wholly inside `s[..to]`.
pub open spec fn first_occurrence(s: Seq<char>, p: Seq<char>, from: int, to: int) -> int
    decreases to + 1 - from,
{
    if from + p.len() > to {
        -1
    } else if occurs_at(s, p, from) {
        from
    } else {
        first_occurrence(s, p, from + 1, to)
    }
}

/// Last position in `from..to` where `p` occurs wholly inside `s[from..to]`.
pub open spec fn last_occurrence(s: Seq<char>, p: Seq<char>, from: int, to: int) -> int
    decreases to + 1 - from,
{
    if to - p.len() < from {
        -1
    } else if occurs_at(s, p, to - p.len()) {
        to - p.len()
    } else {
        last_occurrence(s, p, from, to - 1)
    }
}

pub proof fn lemma_first_occurrence(s: Seq<char>, p: Seq<char>, from: int, to: int)
    requires
        0 <= from,
    ensures
        first_occurrence(s, p, from, to) >= 0 ==> from <= first_occurrence(s, p, from, to) && first_occurrence(s, p, from, to)
            + p.len() <= to && occurs_at(s, p, first_occurrence(s, p, from, to)),
        first_occurrence(s, p, from, to) >= -1,
    decreases to + 1 - from,
{
    if from + p.len() <= to && !occurs_at(s, p, from) {
        lemma_first_occurrence(s, p, from + 1, to);
    }
}

pub proof fn lemma_last_occurrence(s: Seq<char>, p: Seq<char>, from: int, to: int)
    ensures
        last_occurrence(s, p, from, to) >= 0 ==> from <= last_occurrence(s, p, from, to) && last_occurrence(s, p, from, to)
            + p.len() <= to && occurs_at(s, p, last_occurrence(s, p, from, to)),
        last_occurrence(s, p, from, to) >= -1,
    decreases to + 1 - from,
{
    if to - p.len() >= from && !occurs_at(s, p, to - p.len()) {
        lemma_last_occurrence(s, p, from, to - 1);
    }
}

/// First occurrence of `p` within `s[from..to]`, if any.
pub fn find_str(s: &str, p: &str, from: usize, to: usize) -> (r: Option<usize>)
    requires
        from <= to <= s@.len(),
    ensures
        match r {
            Some(i) => first_occurrence(s@, p@, from as int, to as int) == i,
            None => first_occurrence(s@, p@, from as int, to as int) == -1,
        },
{
    proof {
        lemma_first_occurrence(s@, p@, from as int, to as int);
    }
    let m = p.unicode_len();
    if m > to - from {
        return None;
    }
    let mut i = from;
    loop
        invariant
            from <= i <= to - m,
            m <= to - from,
            to <= s@.len(),
            m == p@.len(),
            first_occurrence(s@, p@, from as int, to as int) == first_occurrence(s@, p@, i as int, to as int),
        decreases to - m - i,
    {
        if matches_at(s, p, i) {
            return Some(i);
        }
        if i == to - m {
            proof {
                assert(first_occurrence(s@, p@, i + 1, to as int) == -1);
            }
            return None;
        }
        i = i + 1;
    }
}

/// Last occurrence of `p` within `s[from..to]`, if any.
pub fn rfind_str(s: &str, p: &str, from: usize, to: usize) -> (r: Option<usize>)
    requires
        from <= to <= s@.len(),
    ensures
        match r {
            Some(i) => last_occurrence(s@, p@, from as int, to as int) == i,
            None => last_occurrence(s@, p@, from as int, to as int) == -1,
        },
{
    proof {
        lemma_last_occurrence(s@, p@, from as int, to as int);
    }
    let m = p.unicode_len();
    if m > to {
        return None;
    }
    let mut j = to;
    while j >= m && j - m >= from
        invariant
            from <= to,
            m <= to <= s@.len(),
            j <= to,
            m == p@.len(),
            last_occurrence(s@, p@, from as int, to as int) == last_occurrence(s@, p@, from as int, j as int),
        decreases j,
    {
        if matches_at(s, p, j - m) {
            return Some(j - m);
        }
        assert(m > 0) by {
            if m == 0 {
                assert(s@.subrange(j as int, j as int) =~= p@);
            }
        }
        j = j - 1;
    }
    None
}

/// Whether two strings hold the same characters.
pub fn str_eq(a: &str, b: &str) -> (r: bool)
    ensures
        r == (a@ == b@),
{
    let n = a.unicode_len();
    let m = b.unicode_len();
    if n != m {
        return false;
    }
    let mut i: usize = 0;
    while i < n
        invariant
            0 <= i <= n,
            n == a@.len(),
            m == b@.len(),
            n == m,
            forall|k: int| 0 <= k < i ==> a@[k] == b@[k],
        decreases n - i,
    {
        if a.get_char(i) != b.get_char(i) {
            return false;
        }
        i = i + 1;
    }
    assert(a@ =~= b@);
    true
}

/// Index of the first `c` in `s` at or after `from`, or `s.len()` when there is none.
pub open spec fn spec_find(s: Seq<char>, c: char, from: int) -> int
    decreases s.len() - from,
{
    if from >= s.len() {
        s.len() as int
    } else if s[from] == c {
        from
    } else {
        spec_find(s, c, from + 1)
    }
}

/// Index of the first `c` in `s` at or after `from`, or the length when there is none.
pub fn find_char(s: &str, c: char, from: usize) -> (r: usize)
    requires
        from <= s@.len(),
    ensures
        r == spec_find(s@, c, from as int),
        from <= r <= s@.len(),
{
    let n = s.unicode_len();
    let mut i = from;
    while i < n
        invariant
            from <= i <= n,
            n == s@.len(),
            spec_find(s@, c, from as int) == spec_find(s@, c, i as int),
        decreases n - i,
    {
        if s.get_char(i) == c {
            return i;
        }
        i = i + 1;
    }
    i
}

/// Decimal digits of `n` without leading zeros ("0" for zero).
pub open spec fn decimal_digits(n: nat) -> Seq<char>
    decreases n,
{
    if n < 10 {
        seq![digit_char(n)]
    } else {
        decimal_digits(n / 10).push(digit_char(n % 10))
    }
}

pub open spec fn digit_char(d: nat) -> char {
    (('0' as nat) + d) as char
}

/// `n` written with at least `width` digits, zero-padded on the left.
pub open spec fn zero_padded(n: nat, width: nat) -> Seq<char> {
    let ds = decimal_digits(n);
    if ds.len() >= width {
        ds
    } else {
        Seq::new((width - ds.len()) as nat, |i: int| '0') + ds
    }
}

/// How `{:0w}` formats a signed integer: the sign counts towards the width.
pub open spec fn signed_zero_padded(v: int, width: nat) -> Seq<char> {
    if v < 0 {
        seq!['-'] + zero_padded((-v) as nat, if width > 0 { (width - 1) as nat } else { 0 })
    } else {
        zero_padded(v as nat, width)
    }
}

fn digit_str(d: u64) -> (r: &'static str)
    requires
        d < 10,
    ensures
        r@ == seq![digit_char(d as nat)],
{
    proof {
        reveal_strlit("0");
        reveal_strlit("1");
        reveal_strlit("2");
        reveal_strlit("3");
        reveal_strlit("4");
        reveal_strlit("5");
        reveal_strlit("6");
        reveal_strlit("7");
        reveal_strlit("8");
        reveal_strlit("9");
    }
    if d == 0 { "0" } else if d == 1 { "1" } else if d == 2 { "2" } else if d == 3 { "3" } else if d == 4 {
        "4"
    } else if d == 5 { "5" } else if d == 6 { "6" } else if d == 7 { "7" } else if d == 8 { "8" } else { "9" }
}

fn push_digits(out: &mut String, n: u64)
    ensures
        final(out)@ == old(out)@ + decimal_digits(n as nat),
    decreases n,
{
    if n >= 10 {
        push_digits(out, n / 10);
    }
    out.append(digit_str(n % 10));
}

fn count_digits(n: u64) -> (r: usize)
    ensures
        r == decimal_digits(n as nat).len(),
    decreases n,
{
    if n < 10 {
        1
    } else {
        let k = count_digits(n / 10);
        proof {
            reveal_with_fuel(pow10, 21);
            assert(pow10(20) == 100_000_000_000_000_000_000nat);
            lemma_digits_len_le((n / 10) as nat, 19);
        }
        k + 1
    }
}

pub open spec fn pow10(k: nat) -> nat
    decreases k,
{
    if k == 0 { 1 } else { 10 * pow10((k - 1) as nat) }
}

proof fn lemma_digits_len_le(n: nat, k: nat)
    requires
        k >= 1,
        n < pow10(k),
    ensures
        decimal_digits(n).len() <= k,
    decreases k,
{
    if n >= 10 {
        if k == 1 {
            assert(pow10(1) == 10) by {
                reveal_with_fuel(pow10, 2);
            }
        } else {
            lemma_digits_len_le(n / 10, (k - 1) as nat);
        }
    }
}

/// Appends `n` zero-padded to `width` digits.
pub fn push_zero_padded(out: &mut String, n: u64, width: usize)
    ensures
        final(out)@ == old(out)@ + zero_padded(n as nat, width as nat),
{
    let len = count_digits(n);
    let ghost start = out@;
    if len < width {
        let mut i: usize = 0;
        while i < width - len
            invariant
                len < width,
                i <= width - len,
                out@ == start + Seq::new(i as nat, |j: int| '0'),
            decreases width - len - i,
        {
            proof {
                reveal_strlit("0");
            }
            out.append("0");
            assert(start + Seq::new((i + 1) as nat, |j: int| '0') =~= start + Seq::new(i as nat, |j: int| '0') + seq!['0']);
            i = i + 1;
        }
    }
    push_digits(out, n);
    assert(out@ =~= start + zero_padded(n as nat, width as nat));
}

/// Appends `v` formatted as `{:0width}` would.
pub fn push_signed_zero_padded(out: &mut String, v: i64, width: usize)
    ensures
        final(out)@ == old(out)@ + signed_zero_padded(v as int, width as nat),
{
    let ghost start = out@;
    if v < 0 {
        proof {
            reveal_strlit("-");
        }
        out.append("-");
        let mag: u64 = if v == i64::MIN { 9_223_372_036_854_775_808u64 } else { (-v) as u64 };
        push_zero_padded(out, mag, if width > 0 { width - 1 } else { 0 });
        assert(out@ =~= start + signed_zero_padded(v as int, width as nat));
    } else {
        push_zero_padded(out, v as u64, width);
    }
}

proof fn lemma_trim_start(s: Seq<char>, from: int)
    requires
        0 <= from <= s.len(),
    ensures
        from <= trim_start_at(s, from) <= s.len(),
        forall|i: int| from <= i < trim_start_at(s, from) ==> is_ws(#[trigger] s[i]),
        trim_start_at(s, from) < s.len() ==> !is_ws(s[trim_start_at(s, from)]),
    decreases s.len() - from,
{
    if from < s.len() && is_ws(s[from]) {
        lemma_trim_start(s, from + 1);
    }
}

proof fn lemma_trim_end(s: Seq<char>, lo: int, to: int)
    requires
        0 <= lo <= to <= s.len(),
    ensures
        lo <= trim_end_at(s, lo, to) <= to,
        forall|i: int| trim_end_at(s, lo, to) <= i < to ==> is_ws(#[trigger] s[i]),
        trim_end_at(s, lo, to) > lo ==> !is_ws(s[trim_end_at(s, lo, to) - 1]),
    decreases to - lo,
{
    if to > lo && is_ws(s[to - 1]) {
        lemma_trim_end(s, lo, to - 1);
    }
}

/// Trimming removes white space from both ends and nothing else: the result
/// is a run of the text that neither starts nor ends with white space, and
/// everything cut off around it is white space.
pub proof fn law_trim(s: Seq<char>)
    ensures
        exists|a: int, b: int|
            0 <= a <= b <= s.len() && spec_trim(s) == s.subrange(a, b) && (forall|i: int|
                0 <= i < a ==> is_ws(#[trigger] s[i])) && (forall|i: int| b <= i < s.len() ==> is_ws(#[trigger] s[i])),
        spec_trim(s).len() > 0 ==> !is_ws(spec_trim(s)[0]) && !is_ws(spec_trim(s).last()),
        (forall|i: int| 0 <= i < s.len() ==> !is_ws(#[trigger] s[i])) ==> spec_trim(s) == s,
{
    lemma_trim_start(s, 0);
    let a = trim_start_at(s, 0);
    lemma_trim_end(s, a, s.len() as int);
    let b = trim_end_at(s, a, s.len() as int);
    assert(spec_trim(s) == s.subrange(a, b));
    if b > a {
        assert(spec_trim(s)[0] == s[a]);
        assert(spec_trim(s).last() == s[b - 1]);
    }
    if forall|i: int| 0 <= i < s.len() ==> !is_ws(#[trigger] s[i]) {
        if a < s.len() {
            assert(!is_ws(s[a]));
        }
        if b < s.len() {
            assert(is_ws(s[b]));
        }
        assert(s.subrange(a, b) =~= s);
    }
}

/// A number written in decimal reads back as itself: one or more digits,
/// no sign.
pub proof fn lemma_decimal_digits_value(n: nat)
    ensures
        decimal_digits(n).len() >= 1,
        all_digits(decimal_digits(n)),
        digits_value(decimal_digits(n)) == n,
        decimal_digits(n)[0] != '+',
    decreases n,
{
    if n >= 10 {
        lemma_decimal_digits_value(n / 10);
        let d = decimal_digits(n / 10);
        let e = d.push(digit_char(n % 10));
        assert(e.drop_last() =~= d);
        assert(e[0] == d[0]);
        assert forall|i: int| 0 <= i < e.len() implies is_digit(#[trigger] e[i]) by {
            if i < d.len() {
                assert(e[i] == d[i]);
            }
        }
        assert(n == (n / 10) * 10 + n % 10);
        assert(digit_value(digit_char(n % 10)) == n % 10);
        assert(digits_value(e) == digits_value(d) * 10 + digit_value(e.last()));
        assert(decimal_digits(n) == e);
    } else {
        assert(digit_value(digit_char(n)) == n);
        assert(decimal_digits(n).drop_last() =~= Seq::<char>::empty());
        assert(digits_value(decimal_digits(n).drop_last()) == 0);
    }
}

} // verus!
