//! The text of a file-tree row beyond its icon: the git markers and line
//! counts after the label, and the label split into matched and unmatched
//! runs for the explorer.

use vstd::prelude::*;

use crate::file_tree::FileTreeProps;
use crate::git::{spec_marker, GitChangeState, GitDiffStat, GitFileDecorations, GitFileStatus, GitIconStyle};
use crate::style::{spans_view, Span, Style};
use crate::text::{decimal_digits, push_zero_padded};

verus! {

/// The configured style of a change state.
pub open spec fn spec_state_style(s: GitChangeState, props: FileTreeProps) -> Style {
    match s {
        GitChangeState::Modified => props.git_style_modified,
        GitChangeState::Added => props.git_style_added,
        GitChangeState::Deleted => props.git_style_deleted,
        GitChangeState::Renamed => props.git_style_renamed,
        GitChangeState::Untracked => props.git_style_untracked,
        GitChangeState::Conflicted => props.git_style_conflicted,
    }
}

/// The configured style of a change state.
pub fn state_style(s: GitChangeState, props: &FileTreeProps) -> (r: Style)
    ensures
        r == spec_state_style(s, *props),
{
    match s {
        GitChangeState::Modified => props.git_style_modified,
        GitChangeState::Added => props.git_style_added,
        GitChangeState::Deleted => props.git_style_deleted,
        GitChangeState::Renamed => props.git_style_renamed,
        GitChangeState::Untracked => props.git_style_untracked,
        GitChangeState::Conflicted => props.git_style_conflicted,
    }
}

/// The style of a row's status: the added style for anything staged, else
/// the unstaged state's style, else none.
pub open spec fn spec_status_style(status: GitFileStatus, props: FileTreeProps) -> Style {
    if status.staged is Some {
        props.git_style_added
    } else {
        match status.unstaged {
            Some(s) => spec_state_style(s, props),
            None => Style::empty(),
        }
    }
}

/// The style of a row's status; see [`spec_status_style`].
pub fn status_style(status: GitFileStatus, props: &FileTreeProps) -> (r: Style)
    ensures
        r == spec_status_style(status, *props),
{
    if status.staged.is_some() {
        return props.git_style_added;
    }
    match status.unstaged {
        Some(s) => state_style(s, props),
        None => Style::new(),
    }
}

/// The marker text of a state: the nerd-font icon in that style, else the
/// configured text marker.
pub open spec fn spec_git_marker(s: GitChangeState, props: FileTreeProps, is_staged: bool) -> Seq<char> {
    if props.git_icon_style == GitIconStyle::NerdFont {
        spec_marker(s, GitIconStyle::NerdFont, is_staged)
    } else {
        match s {
            GitChangeState::Modified => props.git_marker_modified@,
            GitChangeState::Added => props.git_marker_added@,
            GitChangeState::Deleted => props.git_marker_deleted@,
            GitChangeState::Renamed => props.git_marker_renamed@,
            GitChangeState::Untracked => props.git_marker_untracked@,
            GitChangeState::Conflicted => props.git_marker_conflicted@,
        }
    }
}

/// The marker text of a state.
pub fn git_marker(s: GitChangeState, props: &FileTreeProps, is_staged: bool) -> (r: String)
    ensures
        r@ == spec_git_marker(s, *props, is_staged),
{
    if props.git_icon_style == GitIconStyle::NerdFont {
        return String::from_str(s.marker(GitIconStyle::NerdFont, is_staged));
    }
    match s {
        GitChangeState::Modified => props.git_marker_modified.clone(),
        GitChangeState::Added => props.git_marker_added.clone(),
        GitChangeState::Deleted => props.git_marker_deleted.clone(),
        GitChangeState::Renamed => props.git_marker_renamed.clone(),
        GitChangeState::Untracked => props.git_marker_untracked.clone(),
        GitChangeState::Conflicted => props.git_marker_conflicted.clone(),
    }
}

/// A single unstyled space.
pub open spec fn gap() -> (Seq<char>, Style) {
    (seq![' '], Style::empty())
}

/// The spans of a status: a leading space, the staged marker in the added
/// style, then the unstaged marker (after a space when both are shown) in
/// its state's style; nothing when the status is clean.
pub open spec fn spec_status_spans(status: GitFileStatus, props: FileTreeProps) -> Seq<(Seq<char>, Style)> {
    if status.staged is None && status.unstaged is None {
        Seq::empty()
    } else {
        let staged = match status.staged {
            Some(s) => seq![(spec_git_marker(s, props, true), props.git_style_added)],
            None => Seq::empty(),
        };
        let unstaged = match status.unstaged {
            Some(u) => (if status.staged is Some {
                seq![gap()]
            } else {
                Seq::empty()
            }) + seq![(spec_git_marker(u, props, false), spec_state_style(u, props))],
            None => Seq::empty(),
        };
        seq![gap()] + staged + unstaged
    }
}

/// The spans of line counts: a leading space, `+added` in the added style,
/// and `-removed` in the deleted style, separated by a space, each only when
/// non-zero.
pub open spec fn spec_diff_spans(d: GitDiffStat, props: FileTreeProps) -> Seq<(Seq<char>, Style)> {
    let added = if d.added > 0 {
        seq![(seq!['+'] + decimal_digits(d.added as nat), props.git_style_added)]
    } else {
        Seq::empty()
    };
    let removed = if d.removed > 0 {
        (if d.added > 0 {
            seq![gap()]
        } else {
            Seq::empty()
        }) + seq![(seq!['-'] + decimal_digits(d.removed as nat), props.git_style_deleted)]
    } else {
        Seq::empty()
    };
    seq![gap()] + added + removed
}

/// The description after a row's label: nothing for an undecorated row or
/// an expanded directory; else the status spans when statuses are shown,
/// followed by the line counts when they are shown and not empty.
pub open spec fn spec_description_spans(
    decoration: Option<GitFileDecorations>,
    props: FileTreeProps,
    is_dir: bool,
    is_expanded: bool,
) -> Seq<(Seq<char>, Style)> {
    match decoration {
        None => Seq::empty(),
        Some(d) => if is_dir && is_expanded {
            Seq::empty()
        } else {
            (if props.git_status {
                spec_status_spans(d.status, props)
            } else {
                Seq::empty()
            }) + match d.diff_stat {
                Some(ds) => if props.git_diff_stats && !(ds.added == 0 && ds.removed == 0) {
                    spec_diff_spans(ds, props)
                } else {
                    Seq::empty()
                },
                None => Seq::empty(),
            }
        },
    }
}

fn push_span(spans: &mut Vec<Span>, content: String, style: Style)
    ensures
        spans_view(final(spans)@) == spans_view(old(spans)@).push((content@, style)),
{
    spans.push(Span { content, style });
    assert(spans_view(spans@) =~= spans_view(old(spans)@).push((content@, style)));
}

fn push_gap(spans: &mut Vec<Span>)
    ensures
        spans_view(final(spans)@) == spans_view(old(spans)@).push(gap()),
{
    proof {
        reveal_strlit(" ");
        assert(" "@ =~= seq![' ']);
    }
    push_span(spans, String::from_str(" "), Style::new());
}

/// Appends the spans of `status`.
pub fn push_git_status_spans(spans: &mut Vec<Span>, status: GitFileStatus, props: &FileTreeProps)
    ensures
        spans_view(final(spans)@) == spans_view(old(spans)@) + spec_status_spans(status, *props),
{
    let ghost start = spans_view(spans@);
    if status.staged.is_none() && status.unstaged.is_none() {
        assert(spans_view(spans@) =~= start + spec_status_spans(status, *props));
        return;
    }
    push_gap(spans);
    if let Some(staged) = status.staged {
        push_span(spans, git_marker(staged, props, true), props.git_style_added);
    }
    if let Some(unstaged) = status.unstaged {
        if status.staged.is_some() {
            push_gap(spans);
        }
        push_span(spans, git_marker(unstaged, props, false), state_style(unstaged, props));
    }
    assert(spans_view(spans@) =~= start + spec_status_spans(status, *props));
}

fn signed_count(sign: &str, n: usize) -> (r: String)
    requires
        sign@.len() == 1,
    ensures
        r@ == sign@ + decimal_digits(n as nat),
{
    let mut out = String::from_str(sign);
    push_zero_padded(&mut out, n as u64, 0);
    out
}

fn push_diff_spans(spans: &mut Vec<Span>, d: GitDiffStat, props: &FileTreeProps)
    ensures
        spans_view(final(spans)@) == spans_view(old(spans)@) + spec_diff_spans(d, *props),
{
    let ghost start = spans_view(spans@);
    proof {
        reveal_strlit("+");
        reveal_strlit("-");
        assert("+"@ =~= seq!['+']);
        assert("-"@ =~= seq!['-']);
    }
    push_gap(spans);
    if d.added > 0 {
        push_span(spans, signed_count("+", d.added), props.git_style_added);
    }
    if d.removed > 0 {
        if d.added > 0 {
            push_gap(spans);
        }
        push_span(spans, signed_count("-", d.removed), props.git_style_deleted);
    }
    assert(spans_view(spans@) =~= start + spec_diff_spans(d, *props));
}

/// The spans drawn after a row's label; see [`spec_description_spans`].
pub fn git_description_spans(
    decoration: Option<GitFileDecorations>,
    props: &FileTreeProps,
    is_dir: bool,
    is_expanded: bool,
) -> (r: Vec<Span>)
    ensures
        spans_view(r@) == spec_description_spans(decoration, *props, is_dir, is_expanded),
{
    let mut spans: Vec<Span> = Vec::new();
    assert(spans_view(spans@) =~= Seq::empty());
    let d = match decoration {
        Some(d) => d,
        None => return spans,
    };
    if is_dir && is_expanded {
        return spans;
    }
    if props.git_status {
        push_git_status_spans(&mut spans, d.status, props);
    }
    let ghost mid = spans_view(spans@);
    if props.git_diff_stats {
        if let Some(ds) = d.diff_stat {
            if !ds.is_empty() {
                push_diff_spans(&mut spans, ds, props);
            }
        }
    }
    assert(spans_view(spans@) =~= spec_description_spans(decoration, *props, is_dir, is_expanded));
    spans
}

/// Whether the character at index `i` is one of the requested hits.
pub open spec fn is_hit(hits: Seq<u32>, i: int) -> bool {
    exists|k: int| 0 <= k < hits.len() && hits[k] as int == i
}

/// The first `n` characters of `t` split into maximal runs that are all hits
/// or all misses, each with whether it is a run of hits.
pub open spec fn hit_runs(t: Seq<char>, hits: Seq<u32>, n: int) -> Seq<(Seq<char>, bool)>
    decreases n,
{
    if n <= 0 {
        Seq::empty()
    } else {
        let prev = hit_runs(t, hits, n - 1);
        let h = is_hit(hits, n - 1);
        if prev.len() > 0 && prev.last().1 == h {
            prev.update(prev.len() - 1, (prev.last().0.push(t[n - 1]), h))
        } else {
            prev.push((seq![t[n - 1]], h))
        }
    }
}

/// Runs drawn in the base style, hit runs with the selection style layered
/// over it.
pub open spec fn styled_runs(runs: Seq<(Seq<char>, bool)>, base: Style, selection: Style) -> Seq<(Seq<char>, Style)> {
    Seq::new(
        runs.len(),
        |k: int|
            (runs[k].0, if runs[k].1 {
                base.spec_patch(selection)
            } else {
                base
            }),
    )
}

/// The spans of a label whose characters at `hits` are highlighted; see
/// [`highlight_label_spans`].
pub open spec fn spec_highlight_spans(t: Seq<char>, hits: Option<Seq<u32>>, base: Style, selection: Style) -> Seq<
    (Seq<char>, Style),
> {
    if t.len() == 0 {
        Seq::empty()
    } else {
        match hits {
            None => seq![(t, base)],
            Some(h) => if h.len() == 0 {
                seq![(t, base)]
            } else {
                styled_runs(hit_runs(t, h, t.len() as int), base, selection)
            },
        }
    }
}

proof fn lemma_hit_runs_nonempty(t: Seq<char>, hits: Seq<u32>, n: int)
    requires
        n > 0,
    ensures
        hit_runs(t, hits, n).len() > 0,
        hit_runs(t, hits, n).last().1 == is_hit(hits, n - 1),
    decreases n,
{
}

fn index_is_hit(hits: &[u32], i: usize) -> (r: bool)
    ensures
        r == is_hit(hits@, i as int),
{
    let mut k: usize = 0;
    while k < hits.len()
        invariant
            k <= hits@.len(),
            forall|j: int| 0 <= j < k ==> hits@[j] as int != i,
        decreases hits@.len() - k,
    {
        if hits[k] as usize == i {
            return true;
        }
        k = k + 1;
    }
    false
}

/// Splits `text` into spans so the characters at the indices in `hits` are
/// drawn with `selection_style` over `base_style` and the rest with
/// `base_style`; adjacent characters alike share a span.
pub fn highlight_label_spans(text: &str, hits: Option<&[u32]>, base_style: Style, selection_style: Style) -> (r: Vec<
    Span,
>)
    ensures
        spans_view(r@) == spec_highlight_spans(
            text@,
            match hits {
                Some(h) => Some(h@),
                None => None,
            },
            base_style,
            selection_style,
        ),
{
    let n = text.unicode_len();
    let mut spans: Vec<Span> = Vec::new();
    if n == 0 {
        assert(spans_view(spans@) =~= Seq::empty());
        return spans;
    }
    let h = match hits {
        Some(h) => h,
        None => {
            push_span(&mut spans, String::from_str(text), base_style);
            assert(spans_view(spans@) =~= seq![(text@, base_style)]);
            return spans;
        },
    };
    if h.len() == 0 {
        push_span(&mut spans, String::from_str(text), base_style);
        assert(spans_view(spans@) =~= seq![(text@, base_style)]);
        return spans;
    }
    let hl = base_style.patch(selection_style);
    let mut start: usize = 0;
    let mut current = index_is_hit(h, 0);
    let mut i: usize = 1;
    proof {
        assert(hit_runs(text@, h@, 0) =~= Seq::<(Seq<char>, bool)>::empty());
        assert(text@.subrange(0, 1) =~= seq![text@[0]]);
        assert(spans_view(spans@) =~= Seq::empty());
    }
    while i < n
        invariant
            n == text@.len(),
            1 <= i <= n,
            start < i,
            hl == base_style.spec_patch(selection_style),
            ({
                let runs = hit_runs(text@, h@, i as int);
                &&& runs.len() > 0
                &&& spans_view(spans@) == styled_runs(runs.drop_last(), base_style, selection_style)
                &&& runs.last() == (text@.subrange(start as int, i as int), current)
            }),
        decreases n - i,
    {
        let hit = index_is_hit(h, i);
        let ghost runs = hit_runs(text@, h@, i as int);
        if hit != current {
            let piece = String::from_str(text.substring_char(start, i));
            push_span(&mut spans, piece, if current { hl } else { base_style });
            proof {
                assert(styled_runs(runs.drop_last(), base_style, selection_style).push(
                    (runs.last().0, if runs.last().1 { hl } else { base_style }),
                ) =~= styled_runs(runs, base_style, selection_style));
                assert(hit_runs(text@, h@, i + 1) == runs.push((seq![text@[i as int]], hit)));
                assert(runs.push((seq![text@[i as int]], hit)).drop_last() =~= runs);
                assert(text@.subrange(i as int, i + 1) =~= seq![text@[i as int]]);
            }
            start = i;
            current = hit;
        } else {
            proof {
                let next = hit_runs(text@, h@, i + 1);
                assert(next == runs.update(runs.len() - 1, (runs.last().0.push(text@[i as int]), hit)));
                assert(next.drop_last() =~= runs.drop_last());
                assert(text@.subrange(start as int, i + 1) =~= text@.subrange(start as int, i as int).push(
                    text@[i as int],
                ));
            }
        }
        i = i + 1;
    }
    let ghost runs = hit_runs(text@, h@, n as int);
    let piece = String::from_str(text.substring_char(start, n));
    push_span(&mut spans, piece, if current { hl } else { base_style });
    proof {
        assert(styled_runs(runs.drop_last(), base_style, selection_style).push(
            (runs.last().0, if runs.last().1 { hl } else { base_style }),
        ) =~= styled_runs(runs, base_style, selection_style));
    }
    spans
}

/// A status shows as a space, then the staged state's marker in the added
/// style, then (after a space when both are there) the unstaged state's
/// marker in the style configured for that state; with text markers each
/// state shows the marker configured for it. A clean status shows nothing.
pub proof fn law_status_spans(status: GitFileStatus, props: FileTreeProps)
    ensures
        ({
            let sp = spec_status_spans(status, props);
            let k = if status.staged is Some { 3int } else { 1int };
            &&& (status.staged is None && status.unstaged is None) ==> sp.len() == 0
            &&& !(status.staged is None && status.unstaged is None) ==> sp[0] == (seq![' '], Style::empty())
            &&& status.staged is Some ==> sp[1].1 == props.git_style_added
            &&& (status.staged is Some && status.unstaged is Some) ==> sp.len() == 4 && sp[2] == (
                seq![' '],
                Style::empty(),
            )
            &&& (status.staged is Some) != (status.unstaged is Some) ==> sp.len() == 2
            &&& status.unstaged == Some(GitChangeState::Modified) ==> sp[k].1 == props.git_style_modified && (props.git_icon_style
                == GitIconStyle::Text ==> sp[k].0 == props.git_marker_modified@)
            &&& status.unstaged == Some(GitChangeState::Added) ==> sp[k].1 == props.git_style_added && (props.git_icon_style
                == GitIconStyle::Text ==> sp[k].0 == props.git_marker_added@)
            &&& status.unstaged == Some(GitChangeState::Deleted) ==> sp[k].1 == props.git_style_deleted && (props.git_icon_style
                == GitIconStyle::Text ==> sp[k].0 == props.git_marker_deleted@)
            &&& status.unstaged == Some(GitChangeState::Renamed) ==> sp[k].1 == props.git_style_renamed && (props.git_icon_style
                == GitIconStyle::Text ==> sp[k].0 == props.git_marker_renamed@)
            &&& status.unstaged == Some(GitChangeState::Untracked) ==> sp[k].1 == props.git_style_untracked && (props.git_icon_style
                == GitIconStyle::Text ==> sp[k].0 == props.git_marker_untracked@)
            &&& status.unstaged == Some(GitChangeState::Conflicted) ==> sp[k].1 == props.git_style_conflicted && (props.git_icon_style
                == GitIconStyle::Text ==> sp[k].0 == props.git_marker_conflicted@)
            &&& status.staged == Some(GitChangeState::Modified) ==> (props.git_icon_style
                == GitIconStyle::Text ==> sp[1].0 == props.git_marker_modified@)
            &&& status.staged == Some(GitChangeState::Added) ==> (props.git_icon_style
                == GitIconStyle::Text ==> sp[1].0 == props.git_marker_added@)
            &&& status.staged == Some(GitChangeState::Deleted) ==> (props.git_icon_style
                == GitIconStyle::Text ==> sp[1].0 == props.git_marker_deleted@)
            &&& status.staged == Some(GitChangeState::Renamed) ==> (props.git_icon_style
                == GitIconStyle::Text ==> sp[1].0 == props.git_marker_renamed@)
            &&& status.staged == Some(GitChangeState::Untracked) ==> (props.git_icon_style
                == GitIconStyle::Text ==> sp[1].0 == props.git_marker_untracked@)
            &&& status.staged == Some(GitChangeState::Conflicted) ==> (props.git_icon_style
                == GitIconStyle::Text ==> sp[1].0 == props.git_marker_conflicted@)
        }),
{
}

/// Line counts show as a space, then `+` and the added count in the added
/// style, then (after a space when both are there) `-` and the removed count
/// in the deleted style; a zero count is left out.
pub proof fn law_diff_spans(d: GitDiffStat, props: FileTreeProps)
    ensures
        ({
            let sp = spec_diff_spans(d, props);
            let plus = (seq!['+'] + decimal_digits(d.added as nat), props.git_style_added);
            let minus = (seq!['-'] + decimal_digits(d.removed as nat), props.git_style_deleted);
            &&& sp[0] == (seq![' '], Style::empty())
            &&& (d.added > 0 && d.removed > 0) ==> sp == seq![(seq![' '], Style::empty()), plus, (seq![' '], Style::empty()), minus]
            &&& (d.added > 0 && d.removed == 0) ==> sp == seq![(seq![' '], Style::empty()), plus]
            &&& (d.added == 0 && d.removed > 0) ==> sp == seq![(seq![' '], Style::empty()), minus]
            &&& (d.added == 0 && d.removed == 0) ==> sp.len() == 1
        }),
{
}

/// The text of a run of spans, in order.
pub open spec fn spans_text(spans: Seq<(Seq<char>, Style)>) -> Seq<char>
    decreases spans.len(),
{
    if spans.len() == 0 {
        Seq::empty()
    } else {
        spans_text(spans.drop_last()) + spans.last().0
    }
}

/// The style a run of spans gives the character at `i` of its text.
pub open spec fn style_at(spans: Seq<(Seq<char>, Style)>, i: int) -> Style
    decreases spans.len(),
{
    if spans.len() == 0 {
        Style::empty()
    } else if i < spans_text(spans.drop_last()).len() {
        style_at(spans.drop_last(), i)
    } else {
        spans.last().1
    }
}

proof fn lemma_hit_runs_styled(t: Seq<char>, hits: Seq<u32>, n: int, base: Style, selection: Style)
    requires
        0 <= n <= t.len(),
    ensures
        spans_text(styled_runs(hit_runs(t, hits, n), base, selection)) == t.subrange(0, n),
        forall|i: int|
            0 <= i < n ==> #[trigger] style_at(styled_runs(hit_runs(t, hits, n), base, selection), i) == if is_hit(
                hits,
                i,
            ) {
                base.spec_patch(selection)
            } else {
                base
            },
    decreases n,
{
    let hl = base.spec_patch(selection);
    if n == 0 {
        assert(styled_runs(hit_runs(t, hits, 0), base, selection) =~= Seq::<(Seq<char>, Style)>::empty());
        assert(t.subrange(0, 0) =~= Seq::<char>::empty());
    } else {
        lemma_hit_runs_styled(t, hits, n - 1, base, selection);
        let prev = hit_runs(t, hits, n - 1);
        let h = is_hit(hits, n - 1);
        let sh = if h { hl } else { base };
        let sp = styled_runs(prev, base, selection);
        let runs = hit_runs(t, hits, n);
        let sr = styled_runs(runs, base, selection);
        assert(t.subrange(0, n) =~= t.subrange(0, n - 1).push(t[n - 1]));
        if prev.len() > 0 && prev.last().1 == h {
            assert(sr.drop_last() =~= sp.drop_last());
            assert(sr.last() == (prev.last().0.push(t[n - 1]), sh));
            assert(sp.last() == (prev.last().0, sh));
            assert(spans_text(sp) == spans_text(sp.drop_last()) + prev.last().0);
            assert(spans_text(sr) =~= spans_text(sp).push(t[n - 1]));
            assert forall|i: int| 0 <= i < n implies #[trigger] style_at(sr, i) == if is_hit(hits, i) {
                hl
            } else {
                base
            } by {
                if i < n - 1 {
                    assert(style_at(sp, i) == if is_hit(hits, i) { hl } else { base });
                    if i < spans_text(sp.drop_last()).len() {
                        assert(style_at(sr, i) == style_at(sr.drop_last(), i));
                    } else {
                        assert(style_at(sp, i) == sh);
                    }
                }
            }
        } else {
            assert(sr =~= sp.push((seq![t[n - 1]], sh)));
            assert(sr.drop_last() =~= sp);
            assert(spans_text(sr) =~= spans_text(sp) + seq![t[n - 1]]);
            assert forall|i: int| 0 <= i < n implies #[trigger] style_at(sr, i) == if is_hit(hits, i) {
                hl
            } else {
                base
            } by {
                if i < n - 1 {
                    assert(style_at(sp, i) == if is_hit(hits, i) { hl } else { base });
                }
            }
        }
    }
}

/// Highlighting keeps a label's text and styles each of its characters on
/// its own: a character at one of the hit positions gets the selection style
/// over the base, every other one the base style.
pub proof fn law_highlight_spans(t: Seq<char>, hits: Option<Seq<u32>>, base: Style, selection: Style)
    ensures
        spans_text(spec_highlight_spans(t, hits, base, selection)) == t,
        forall|i: int|
            0 <= i < t.len() ==> #[trigger] style_at(spec_highlight_spans(t, hits, base, selection), i) == if (
            hits matches Some(h) && is_hit(h, i)) {
                base.spec_patch(selection)
            } else {
                base
            },
{
    let sp = spec_highlight_spans(t, hits, base, selection);
    if t.len() == 0 {
        assert(sp =~= Seq::<(Seq<char>, Style)>::empty());
    } else {
        match hits {
            Some(h) => {
                if h.len() > 0 {
                    lemma_hit_runs_styled(t, h, t.len() as int, base, selection);
                    assert(t.subrange(0, t.len() as int) =~= t);
                } else {
                    assert(sp == seq![(t, base)]);
                    assert(sp.drop_last() =~= Seq::<(Seq<char>, Style)>::empty());
                    assert(spans_text(sp.drop_last()) =~= Seq::<char>::empty());
                    assert(spans_text(sp) =~= t);
                    assert forall|i: int| 0 <= i < t.len() implies !is_hit(h, i) by {}
                }
            },
            None => {
                assert(sp == seq![(t, base)]);
                assert(sp.drop_last() =~= Seq::<(Seq<char>, Style)>::empty());
                assert(spans_text(sp.drop_last()) =~= Seq::<char>::empty());
                assert(spans_text(sp) =~= t);
            },
        }
    }
}

} // verus!
