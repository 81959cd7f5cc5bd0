//! Git change decorations: states, parsing `git status --porcelain` and
//! `git diff --numstat` lines, and merging decorations per path.

use vstd::prelude::*;

use crate::text::{
    decimal_digits, is_digit, lemma_decimal_digits_value,
    find_str, first_occurrence, last_occurrence, lemma_first_occurrence, lemma_last_occurrence, occurs_at,
    parse_unsigned, rfind_str, spec_parse_unsigned,
    trim_bounds, trim_end_at, trim_start_at,
};

verus! {

/// How git markers are drawn.
#[derive(Clone, Copy, Debug, PartialEq, Eq, Structural, Hash)]
pub enum GitIconStyle {
    /// Text markers such as "M", "A", "D".
    Text,
    /// Nerd-font icons.
    NerdFont,
}

/// A staged or unstaged change of one file.
#[derive(Clone, Copy, Debug, PartialEq, Eq, Structural, Hash)]
pub enum GitChangeState {
    Modified,
    Added,
    Deleted,
    Renamed,
    Untracked,
    Conflicted,
}

pub open spec fn spec_priority(s: GitChangeState) -> int {
    match s {
        GitChangeState::Conflicted => 6,
        GitChangeState::Deleted => 5,
        GitChangeState::Renamed => 4,
        GitChangeState::Added => 3,
        GitChangeState::Modified => 2,
        GitChangeState::Untracked => 1,
    }
}

/// The marker of a change state in a given icon style.
pub open spec fn spec_marker(s: GitChangeState, style: GitIconStyle, staged: bool) -> Seq<char> {
    match style {
        GitIconStyle::Text => match s {
            GitChangeState::Modified => seq!['M'],
            GitChangeState::Added => seq!['A'],
            GitChangeState::Deleted => seq!['D'],
            GitChangeState::Renamed => seq!['R'],
            GitChangeState::Untracked => seq!['?'],
            GitChangeState::Conflicted => seq!['!'],
        },
        GitIconStyle::NerdFont => match s {
            GitChangeState::Modified => if staged { seq!['\u{f14a}'] } else { seq!['\u{f444}'] },
            GitChangeState::Added => if staged { seq!['\u{f0fe}'] } else { seq!['\u{f128}'] },
            GitChangeState::Deleted => if staged { seq!['\u{f2d3}'] } else { seq!['\u{f467}'] },
            GitChangeState::Renamed => if staged { seq!['\u{f06c2}'] } else { seq!['\u{f0055}'] },
            GitChangeState::Untracked => seq!['\u{f128}'],
            GitChangeState::Conflicted => seq!['\u{e728}'],
        },
    }
}

impl GitChangeState {
    /// Which state wins when two meet: higher priority wins.
    pub fn priority(self) -> (r: u8)
        ensures
            r == spec_priority(self),
    {
        match self {
            GitChangeState::Conflicted => 6,
            GitChangeState::Deleted => 5,
            GitChangeState::Renamed => 4,
            GitChangeState::Added => 3,
            GitChangeState::Modified => 2,
            GitChangeState::Untracked => 1,
        }
    }

    /// The marker drawn for this state: a letter in text style, and in
    /// nerd-font style an icon that tells staged from unstaged changes.
    pub fn marker(self, style: GitIconStyle, is_staged: bool) -> (r: &'static str)
        ensures
            r@ == spec_marker(self, style, is_staged),
    {
        match style {
            GitIconStyle::Text => {
                proof {
                    reveal_strlit("M");
                    reveal_strlit("A");
                    reveal_strlit("D");
                    reveal_strlit("R");
                    reveal_strlit("?");
                    reveal_strlit("!");
                }
                self.text_marker()
            },
            GitIconStyle::NerdFont => {
                proof {
                    reveal_strlit("\u{f444}");
                    reveal_strlit("\u{f14a}");
                    reveal_strlit("\u{f128}");
                    reveal_strlit("\u{f0fe}");
                    reveal_strlit("\u{f467}");
                    reveal_strlit("\u{f2d3}");
                    reveal_strlit("\u{f0055}");
                    reveal_strlit("\u{f06c2}");
                    reveal_strlit("\u{e728}");
                }
                match self {
                    GitChangeState::Modified => if is_staged { "\u{f14a}" } else { "\u{f444}" },
                    GitChangeState::Added => if is_staged { "\u{f0fe}" } else { "\u{f128}" },
                    GitChangeState::Deleted => if is_staged { "\u{f2d3}" } else { "\u{f467}" },
                    GitChangeState::Renamed => if is_staged { "\u{f06c2}" } else { "\u{f0055}" },
                    GitChangeState::Untracked => "\u{f128}",
                    GitChangeState::Conflicted => "\u{e728}",
                }
            },
        }
    }

    /// The text marker of this state ("M", "A", "D", "R", "?", "!").
    pub fn text_marker(self) -> (r: &'static str)
        ensures
            r@ == (match self {
                GitChangeState::Modified => "M"@,
                GitChangeState::Added => "A"@,
                GitChangeState::Deleted => "D"@,
                GitChangeState::Renamed => "R"@,
                GitChangeState::Untracked => "?"@,
                GitChangeState::Conflicted => "!"@,
            }),
    {
        match self {
            GitChangeState::Modified => "M",
            GitChangeState::Added => "A",
            GitChangeState::Deleted => "D",
            GitChangeState::Renamed => "R",
            GitChangeState::Untracked => "?",
            GitChangeState::Conflicted => "!",
        }
    }
}

/// Staged and unstaged state of a file.
#[derive(Clone, Copy, Debug, PartialEq, Eq, Structural, Hash)]
pub struct GitFileStatus {
    pub staged: Option<GitChangeState>,
    pub unstaged: Option<GitChangeState>,
}

impl GitFileStatus {
    /// A status from its two parts.
    pub fn new(staged: Option<GitChangeState>, unstaged: Option<GitChangeState>) -> (r: Self)
        ensures
            r == (GitFileStatus { staged, unstaged }),
    {
        GitFileStatus { staged, unstaged }
    }

    /// The state used for styling: staged first, else unstaged.
    pub fn primary_state(self) -> (r: Option<GitChangeState>)
        ensures
            r == (if self.staged is Some { self.staged } else { self.unstaged }),
    {
        if self.staged.is_some() { self.staged } else { self.unstaged }
    }
}

/// Added and removed line counts.
#[derive(Clone, Copy, Debug, PartialEq, Eq, Structural, Hash)]
pub struct GitDiffStat {
    pub added: usize,
    pub removed: usize,
}

pub open spec fn sat_add_usize(a: int, b: int) -> int {
    if a + b > usize::MAX { usize::MAX as int } else { a + b }
}

impl GitDiffStat {
    /// A line-count summary.
    pub fn new(added: usize, removed: usize) -> (r: Self)
        ensures
            r == (GitDiffStat { added, removed }),
    {
        GitDiffStat { added, removed }
    }

    /// Whether nothing was added or removed.
    pub fn is_empty(self) -> (r: bool)
        ensures
            r == (self.added == 0 && self.removed == 0),
    {
        self.added == 0 && self.removed == 0
    }

    pub open spec fn spec_sum(self, other: Self) -> Self {
        GitDiffStat {
            added: sat_add_usize(self.added as int, other.added as int) as usize,
            removed: sat_add_usize(self.removed as int, other.removed as int) as usize,
        }
    }

    /// Both counts added, saturating.
    pub fn saturating_add(self, other: Self) -> (r: Self)
        ensures
            r == self.spec_sum(other),
    {
        GitDiffStat {
            added: if self.added > usize::MAX - other.added { usize::MAX } else { self.added + other.added },
            removed: if self.removed > usize::MAX - other.removed { usize::MAX } else { self.removed + other.removed },
        }
    }
}

/// Decorations of one row: status, line counts, and whether they belong to
/// the path itself (`direct`) or were rolled up from below it.
#[derive(Clone, Copy, Debug, PartialEq, Eq, Structural, Hash)]
pub struct GitFileDecorations {
    pub status: GitFileStatus,
    pub diff_stat: Option<GitDiffStat>,
    pub direct: bool,
}

impl GitFileDecorations {
    /// Decorations carrying a status only.
    pub fn from_status(status: GitFileStatus, direct: bool) -> (r: Self)
        ensures
            r == (GitFileDecorations { status, diff_stat: None, direct }),
    {
        GitFileDecorations { status, diff_stat: None, direct }
    }

    /// Decorations carrying line counts only.
    pub fn from_diff_stat(diff_stat: GitDiffStat, direct: bool) -> (r: Self)
        ensures
            r == (GitFileDecorations { status: GitFileStatus { staged: None, unstaged: None }, diff_stat: Some(diff_stat), direct }),
    {
        GitFileDecorations { status: GitFileStatus::new(None, None), diff_stat: Some(diff_stat), direct }
    }
}

/// One side of a merged status: the existing state unless the new one has a
/// strictly higher priority; an absent side keeps the other.
pub open spec fn spec_merge_state(e: Option<GitChangeState>, s: Option<GitChangeState>) -> Option<GitChangeState> {
    match (e, s) {
        (Some(a), Some(b)) => if spec_priority(a) >= spec_priority(b) { Some(a) } else { Some(b) },
        (e, None) => e,
        (_, s) => s,
    }
}

pub open spec fn spec_merge_status(e: GitFileStatus, s: GitFileStatus) -> GitFileStatus {
    GitFileStatus { staged: spec_merge_state(e.staged, s.staged), unstaged: spec_merge_state(e.unstaged, s.unstaged) }
}

pub open spec fn spec_merge_diff_stat(e: Option<GitDiffStat>, d: Option<GitDiffStat>) -> Option<GitDiffStat> {
    match (e, d) {
        (Some(a), Some(b)) => Some(a.spec_sum(b)),
        (Some(a), None) => Some(a),
        (None, Some(b)) => Some(b),
        (None, None) => None,
    }
}

pub open spec fn spec_merge_decorations(e: GitFileDecorations, d: GitFileDecorations) -> GitFileDecorations {
    GitFileDecorations {
        status: spec_merge_status(e.status, d.status),
        diff_stat: spec_merge_diff_stat(e.diff_stat, d.diff_stat),
        direct: e.direct || d.direct,
    }
}

fn merge_state(e: Option<GitChangeState>, s: Option<GitChangeState>) -> (r: Option<GitChangeState>)
    ensures
        r == spec_merge_state(e, s),
{
    match (e, s) {
        (Some(a), Some(b)) => if a.priority() >= b.priority() { Some(a) } else { Some(b) },
        (e, None) => e,
        (_, s) => s,
    }
}

/// Merges two statuses side by side, keeping the higher-priority state.
pub fn merge_status(existing: GitFileStatus, status: GitFileStatus) -> (r: GitFileStatus)
    ensures
        r == spec_merge_status(existing, status),
{
    GitFileStatus::new(merge_state(existing.staged, status.staged), merge_state(existing.unstaged, status.unstaged))
}

/// Adds line counts when both are present.
pub fn merge_diff_stat(existing: Option<GitDiffStat>, diff_stat: Option<GitDiffStat>) -> (r: Option<GitDiffStat>)
    ensures
        r == spec_merge_diff_stat(existing, diff_stat),
{
    match (existing, diff_stat) {
        (Some(a), Some(b)) => Some(a.saturating_add(b)),
        (Some(a), None) => Some(a),
        (None, Some(b)) => Some(b),
        (None, None) => None,
    }
}

/// Merging a status with itself changes nothing; merging is associative, and
/// the result has the higher priority on each side.
pub proof fn lemma_merge_status_laws(a: GitFileStatus, b: GitFileStatus, c: GitFileStatus)
    ensures
        spec_merge_status(a, a) == a,
        spec_merge_status(spec_merge_status(a, b), c) == spec_merge_status(a, spec_merge_status(b, c)),
        spec_merge_status(a, GitFileStatus { staged: None, unstaged: None }) == a,
        spec_merge_status(GitFileStatus { staged: None, unstaged: None }, a) == a,
        (a.unstaged is Some && b.unstaged is Some) ==> (spec_merge_status(a, b).unstaged is Some && spec_priority(
            spec_merge_status(a, b).unstaged->0,
        ) >= spec_priority(a.unstaged->0) && spec_priority(spec_merge_status(a, b).unstaged->0) >= spec_priority(
            b.unstaged->0,
        )),
{
}

/// A map from paths to values, kept as a list of entries; the first entry for
/// a path is the one that counts.
#[derive(Clone, Debug)]
pub struct PathMap<V> {
    pub entries: Vec<(String, V)>,
}

/// The value stored for `key` among `entries`, if any.
pub open spec fn spec_lookup<V>(entries: Seq<(String, V)>, key: Seq<char>) -> Option<V>
    decreases entries.len(),
{
    if entries.len() == 0 {
        None
    } else if entries[0].0@ == key {
        Some(entries[0].1)
    } else {
        spec_lookup(entries.drop_first(), key)
    }
}

/// No two entries share a key, so each key has one entry.
pub open spec fn keys_unique<V>(entries: Seq<(String, V)>) -> bool {
    forall|i: int, j: int| 0 <= i < j < entries.len() ==> entries[i].0@ != entries[j].0@
}

/// Index of the first entry for `key`, or the length.
pub open spec fn spec_position<V>(entries: Seq<(String, V)>, key: Seq<char>) -> int
    decreases entries.len(),
{
    if entries.len() == 0 {
        0
    } else if entries[0].0@ == key {
        0
    } else {
        1 + spec_position(entries.drop_first(), key)
    }
}

proof fn lemma_position<V>(entries: Seq<(String, V)>, key: Seq<char>)
    ensures
        0 <= spec_position(entries, key) <= entries.len(),
        spec_position(entries, key) < entries.len() ==> entries[spec_position(entries, key)].0@ == key
            && spec_lookup(entries, key) == Some(entries[spec_position(entries, key)].1),
        spec_position(entries, key) == entries.len() ==> spec_lookup(entries, key) is None,
        forall|k: int| 0 <= k < spec_position(entries, key) ==> entries[k].0@ != key,
    decreases entries.len(),
{
    if entries.len() > 0 && entries[0].0@ != key {
        lemma_position(entries.drop_first(), key);
        assert forall|k: int| 1 <= k < spec_position(entries, key) implies entries[k].0@ != key by {
            assert(entries.drop_first()[k - 1] == entries[k]);
        }
    }
}

proof fn lemma_lookup_update<V>(entries: Seq<(String, V)>, i: int, e: (String, V), key: Seq<char>)
    requires
        0 <= i < entries.len(),
        entries[i].0@ == e.0@,
        forall|k: int| 0 <= k < i ==> entries[k].0@ != e.0@,
    ensures
        spec_lookup(entries.update(i, e), key) == (if key == e.0@ { Some(e.1) } else { spec_lookup(entries, key) }),
    decreases entries.len(),
{
    let u = entries.update(i, e);
    if i > 0 {
        assert(u.drop_first() =~= entries.drop_first().update(i - 1, e));
        assert(u[0] == entries[0]);
        assert forall|k: int| 0 <= k < i - 1 implies entries.drop_first()[k].0@ != e.0@ by {
            assert(entries.drop_first()[k] == entries[k + 1]);
        }
        lemma_lookup_update(entries.drop_first(), i - 1, e, key);
    } else {
        assert(u.drop_first() =~= entries.drop_first());
        assert(u[0] == e);
    }
}

proof fn lemma_lookup_push<V>(entries: Seq<(String, V)>, e: (String, V), key: Seq<char>)
    requires
        spec_lookup(entries, e.0@) is None,
    ensures
        spec_lookup(entries.push(e), key) == (if key == e.0@ { Some(e.1) } else { spec_lookup(entries, key) }),
    decreases entries.len(),
{
    let p = entries.push(e);
    reveal_with_fuel(spec_lookup, 2);
    if entries.len() > 0 {
        assert(entries[0].0@ != e.0@);
        assert(p.drop_first() =~= entries.drop_first().push(e));
        assert(p[0] == entries[0]);
        lemma_lookup_push(entries.drop_first(), e, key);
        lemma_lookup_push(entries.drop_first(), e, e.0@);
    } else {
        assert(p.drop_first() =~= Seq::<(String, V)>::empty());
        assert(p[0] == e);
    }
}

impl<V> PathMap<V> {
    /// An empty map.
    pub fn new() -> (r: Self)
        ensures
            forall|k: Seq<char>| spec_lookup(r.entries@, k) is None,
            r.entries@.len() == 0,
            keys_unique(r.entries@),
    {
        PathMap { entries: Vec::new() }
    }

    /// The value stored for `key`.
    pub fn get(&self, key: &str) -> (r: Option<V>) where V: Copy
        ensures
            r == spec_lookup(self.entries@, key@),
    {
        proof {
            lemma_position(self.entries@, key@);
        }
        let mut i: usize = 0;
        while i < self.entries.len()
            invariant
                0 <= i <= self.entries@.len(),
                forall|k: int| 0 <= k < i ==> self.entries@[k].0@ != key@,
                0 <= spec_position(self.entries@, key@) <= self.entries@.len(),
                spec_position(self.entries@, key@) < self.entries@.len() ==> self.entries@[spec_position(self.entries@, key@)].0@ == key@
                    && spec_lookup(self.entries@, key@) == Some(self.entries@[spec_position(self.entries@, key@)].1),
                spec_position(self.entries@, key@) == self.entries@.len() ==> spec_lookup(self.entries@, key@) is None,
                forall|k: int| 0 <= k < spec_position(self.entries@, key@) ==> self.entries@[k].0@ != key@,
            decreases self.entries@.len() - i,
        {
            if crate::text::str_eq(self.entries[i].0.as_str(), key) {
                return Some(self.entries[i].1);
            }
            i = i + 1;
        }
        None
    }

    /// Index of the first entry for `key`, if any.
    pub fn position(&self, key: &str) -> (r: Option<usize>)
        ensures
            r matches Some(i) ==> i < self.entries@.len() && self.entries@[i as int].0@ == key@ && (forall|k: int|
                0 <= k < i ==> self.entries@[k].0@ != key@) && spec_lookup(self.entries@, key@) == Some(
                self.entries@[i as int].1,
            ),
            r is None ==> spec_lookup(self.entries@, key@) is None,
    {
        proof {
            lemma_position(self.entries@, key@);
        }
        let mut i: usize = 0;
        while i < self.entries.len()
            invariant
                0 <= i <= self.entries@.len(),
                forall|k: int| 0 <= k < i ==> self.entries@[k].0@ != key@,
                0 <= spec_position(self.entries@, key@) <= self.entries@.len(),
                spec_position(self.entries@, key@) < self.entries@.len() ==> self.entries@[spec_position(self.entries@, key@)].0@ == key@
                    && spec_lookup(self.entries@, key@) == Some(self.entries@[spec_position(self.entries@, key@)].1),
                spec_position(self.entries@, key@) == self.entries@.len() ==> spec_lookup(self.entries@, key@) is None,
                forall|k: int| 0 <= k < spec_position(self.entries@, key@) ==> self.entries@[k].0@ != key@,
            decreases self.entries@.len() - i,
        {
            if crate::text::str_eq(self.entries[i].0.as_str(), key) {
                assert(spec_position(self.entries@, key@) == i);
                return Some(i);
            }
            i = i + 1;
        }
        None
    }

    /// Stores `value` for `key`, replacing what was there. A map whose keys
    /// are unique keeps them so, and grows by one entry exactly when `key`
    /// was new.
    pub fn insert(&mut self, key: String, value: V)
        ensures
            keys_unique(old(self).entries@) ==> keys_unique(final(self).entries@),
            final(self).entries@.len() == old(self).entries@.len() + if spec_lookup(old(self).entries@, key@) is None {
                1int
            } else {
                0int
            },
            forall|k: Seq<char>|
                #[trigger] spec_lookup(final(self).entries@, k) == (if k == key@ { Some(value) } else { spec_lookup(
                    old(self).entries@,
                    k,
                ) }),
    {
        let ghost old_entries = self.entries@;
        let ghost kv = key@;
        match self.position(key.as_str()) {
            Some(i) => {
                let ghost before = self.entries@;
                self.entries.set(i, (key, value));
                proof {
                    assert forall|a: int, b: int| 0 <= a < b < self.entries@.len() && keys_unique(before) implies self.entries@[a].0@
                        != self.entries@[b].0@ by {
                        assert(before[i as int].0@ == kv);
                    }
                }
                proof {
                    assert forall|k: Seq<char>| #[trigger] spec_lookup(self.entries@, k) == (if k == kv { Some(value) } else { spec_lookup(old_entries, k) }) by {
                        lemma_lookup_update(old_entries, i as int, self.entries@[i as int], k);
                    }
                }
            },
            None => {
                proof {
                    lemma_position(old_entries, kv);
                }
                self.entries.push((key, value));
                proof {
                    assert forall|k: Seq<char>| #[trigger] spec_lookup(self.entries@, k) == (if k == kv { Some(value) } else { spec_lookup(old_entries, k) }) by {
                        lemma_lookup_push(old_entries, self.entries@.last(), k);
                    }
                }
            },
        }
    }
}

/// Merges `decoration` into what `entries` holds for `path`.
pub fn insert_decoration(entries: &mut PathMap<GitFileDecorations>, path: String, decoration: GitFileDecorations)
    ensures
        keys_unique(old(entries).entries@) ==> keys_unique(final(entries).entries@),
        final(entries).entries@.len() == old(entries).entries@.len() + if spec_lookup(old(entries).entries@, path@) is None {
            1int
        } else {
            0int
        },
        forall|k: Seq<char>|
            #[trigger] spec_lookup(final(entries).entries@, k) == if k == path@ {
                Some(
                    match spec_lookup(old(entries).entries@, k) {
                        Some(e) => spec_merge_decorations(e, decoration),
                        None => decoration,
                    },
                )
            } else {
                spec_lookup(old(entries).entries@, k)
            },
{
    let merged = match entries.get(path.as_str()) {
        Some(existing) => GitFileDecorations {
            status: merge_status(existing.status, decoration.status),
            diff_stat: merge_diff_stat(existing.diff_stat, decoration.diff_stat),
            direct: existing.direct || decoration.direct,
        },
        None => decoration,
    };
    entries.insert(path, merged);
}

/// Merges `status` into what `statuses` holds for `path`.
pub fn insert_status(statuses: &mut PathMap<GitFileStatus>, path: String, status: GitFileStatus)
    ensures
        keys_unique(old(statuses).entries@) ==> keys_unique(final(statuses).entries@),
        final(statuses).entries@.len() == old(statuses).entries@.len() + if spec_lookup(old(statuses).entries@, path@) is None {
            1int
        } else {
            0int
        },
        forall|k: Seq<char>|
            #[trigger] spec_lookup(final(statuses).entries@, k) == if k == path@ {
                Some(
                    match spec_lookup(old(statuses).entries@, k) {
                        Some(e) => spec_merge_status(e, status),
                        None => status,
                    },
                )
            } else {
                spec_lookup(old(statuses).entries@, k)
            },
{
    let merged = match statuses.get(path.as_str()) {
        Some(existing) => merge_status(existing, status),
        None => status,
    };
    statuses.insert(path, merged);
}

/// The change a porcelain status letter stands for.
pub open spec fn spec_char_state(c: char) -> Option<GitChangeState> {
    if c == 'M' || c == 'C' {
        Some(GitChangeState::Modified)
    } else if c == 'A' {
        Some(GitChangeState::Added)
    } else if c == 'D' {
        Some(GitChangeState::Deleted)
    } else if c == 'R' {
        Some(GitChangeState::Renamed)
    } else if c == 'U' {
        Some(GitChangeState::Conflicted)
    } else {
        None
    }
}

fn char_to_change_state(c: char) -> (r: Option<GitChangeState>)
    ensures
        r == spec_char_state(c),
{
    if c == 'M' || c == 'C' {
        Some(GitChangeState::Modified)
    } else if c == 'A' {
        Some(GitChangeState::Added)
    } else if c == 'D' {
        Some(GitChangeState::Deleted)
    } else if c == 'R' {
        Some(GitChangeState::Renamed)
    } else if c == 'U' {
        Some(GitChangeState::Conflicted)
    } else {
        None
    }
}

/// Status from the two porcelain letters, or `None` when neither is a change.
pub open spec fn spec_status_from_xy(x: char, y: char) -> Option<GitFileStatus> {
    if spec_char_state(x) is None && spec_char_state(y) is None {
        None
    } else {
        Some(GitFileStatus { staged: spec_char_state(x), unstaged: spec_char_state(y) })
    }
}

fn git_status_from_xy(x: char, y: char) -> (r: Option<GitFileStatus>)
    ensures
        r == spec_status_from_xy(x, y),
{
    let staged = char_to_change_state(x);
    let unstaged = char_to_change_state(y);
    if staged.is_none() && unstaged.is_none() {
        return None;
    }
    Some(GitFileStatus::new(staged, unstaged))
}

/// Bounds of the trimmed text after the status code of a porcelain line.
pub open spec fn porcelain_field(s: Seq<char>) -> (int, int) {
    let rest = s.subrange(3, s.len() as int);
    let a = trim_start_at(rest, 0);
    (a + 3, trim_end_at(rest, a, rest.len() as int) + 3)
}

/// What a `git status --porcelain=v1` line says: the path (for renames the
/// destination) and the status.
pub open spec fn spec_parse_porcelain(s: Seq<char>) -> Option<(Seq<char>, GitFileStatus)> {
    if s.len() < 3 {
        None
    } else {
        let (a, b) = porcelain_field(s);
        let status = if s[0] == '?' && s[1] == '?' {
            Some(GitFileStatus { staged: None, unstaged: Some(GitChangeState::Untracked) })
        } else {
            spec_status_from_xy(s[0], s[1])
        };
        let arrow = last_occurrence(s, " -> "@, a, b);
        let path = if (s[0] == 'R' || s[1] == 'R') && arrow >= 0 {
            s.subrange(arrow + 4, b)
        } else {
            s.subrange(a, b)
        };
        match status {
            Some(st) => Some((path, st)),
            None => None,
        }
    }
}

/// The number of bytes a character takes in UTF-8.
pub open spec fn utf8_width(c: char) -> int {
    if (c as int) < 0x80 {
        1
    } else if (c as int) < 0x800 {
        2
    } else if (c as int) < 0x1_0000 {
        3
    } else {
        4
    }
}

/// Whether the line's first two bytes can be cut off as its status code:
/// the line is shorter than three bytes, or its second byte ends a
/// character.
pub open spec fn status_code_sliceable(s: Seq<char>) -> bool {
    let w0 = if s.len() > 0 { utf8_width(s[0]) } else { 0 };
    let w1 = if s.len() > 1 { utf8_width(s[1]) } else { 0 };
    (s.len() <= 2 && w0 + w1 < 3) || w0 == 2 || (w0 == 1 && w1 == 1)
}

/// What the parser gives for a line: nothing for a line shorter than three
/// characters or whose first three are not all ASCII (its status code or
/// path field would not fall on character boundaries), else
/// [`spec_parse_porcelain`].
pub open spec fn spec_parse_porcelain_line(s: Seq<char>) -> Option<(Seq<char>, GitFileStatus)> {
    if s.len() < 3 || !((s[0] as int) < 0x80 && (s[1] as int) < 0x80 && (s[2] as int) < 0x80) {
        None
    } else {
        spec_parse_porcelain(s)
    }
}

/// Parses a `git status --porcelain=v1` line. The status code is the line's
/// first two bytes, so a line whose second byte falls inside a character
/// is left out.
pub fn parse_git_porcelain_line(line: &str) -> (r: Option<(&str, GitFileStatus)>)
    requires
        status_code_sliceable(line@),
    ensures
        match r {
            Some((p, st)) => spec_parse_porcelain_line(line@) == Some((p@, st)),
            None => spec_parse_porcelain_line(line@) is None,
        },
{
    let n = line.unicode_len();
    if n < 3 {
        return None;
    }
    let x = line.get_char(0);
    let y = line.get_char(1);
    let z = line.get_char(2);
    if !((x as u32) < 0x80 && (y as u32) < 0x80 && (z as u32) < 0x80) {
        return None;
    }
    let (a, b) = trim_bounds(line, 3, n);
    proof {
        assert(line@.subrange(3, n as int) =~= line@.subrange(3, line@.len() as int));
    }
    let status = if x == '?' && y == '?' {
        GitFileStatus::new(None, Some(GitChangeState::Untracked))
    } else {
        match git_status_from_xy(x, y) {
            Some(st) => st,
            None => return None,
        }
    };
    proof {
        reveal_strlit(" -> ");
    }
    let path = if x == 'R' || y == 'R' {
        match rfind_str(line, " -> ", a, b) {
            Some(arrow) => {
                proof {
                    lemma_last_occurrence(line@, " -> "@, a as int, b as int);
                }
                line.substring_char(arrow + 4, b)
            },
            None => line.substring_char(a, b),
        }
    } else {
        line.substring_char(a, b)
    };
    Some((path, status))
}

/// Rename spelling in numstat paths: `dir/{old => new}/f` or `old => new`
/// becomes the destination path.
pub open spec fn spec_normalize_numstat_path(p: Seq<char>) -> Seq<char> {
    let k = first_occurrence(p, " => "@, 0, p.len() as int);
    if k < 0 {
        p
    } else {
        let before = p.subrange(0, k);
        let after = p.subrange(k + 4, p.len() as int);
        let ob = last_occurrence(before, "{"@, 0, before.len() as int);
        if ob < 0 {
            after
        } else {
            let cb = first_occurrence(after, "}"@, 0, after.len() as int);
            if cb < 0 {
                before.subrange(0, ob) + after
            } else {
                before.subrange(0, ob) + after.subrange(0, cb) + after.subrange(cb + 1, after.len() as int)
            }
        }
    }
}

/// The destination path of a numstat path field.
pub fn normalize_numstat_path(path: &str) -> (r: String)
    ensures
        r@ == spec_normalize_numstat_path(path@),
{
    let n = path.unicode_len();
    proof {
        reveal_strlit(" => ");
        reveal_strlit("{");
        reveal_strlit("}");
    }
    let k = match find_str(path, " => ", 0, n) {
        Some(k) => k,
        None => {
            return String::from_str(path);
        },
    };
    proof {
        lemma_first_occurrence(path@, " => "@, 0, n as int);
    }
    let before = path.substring_char(0, k);
    let after = path.substring_char(k + 4, n);
    let bl = before.unicode_len();
    let al = after.unicode_len();
    let ob = match rfind_str(before, "{", 0, bl) {
        Some(ob) => ob,
        None => {
            return String::from_str(after);
        },
    };
    proof {
        lemma_last_occurrence(before@, "{"@, 0, bl as int);
    }
    let mut out = String::from_str(before.substring_char(0, ob));
    match find_str(after, "}", 0, al) {
        None => {
            out.append(after);
        },
        Some(cb) => {
            proof {
                lemma_first_occurrence(after@, "}"@, 0, al as int);
            }
            out.append(after.substring_char(0, cb));
            out.append(after.substring_char(cb + 1, al));
        },
    }
    out
}

/// What a `git diff --numstat` line says: the (destination) path and the
/// line counts; `None` for binary files, empty paths or malformed lines.
pub open spec fn spec_parse_numstat(s: Seq<char>) -> Option<(Seq<char>, GitDiffStat)> {
    let t1 = crate::text::spec_find(s, '\t', 0);
    let t2 = crate::text::spec_find(s, '\t', t1 + 1);
    if t1 >= s.len() || t2 >= s.len() {
        None
    } else {
        let added = s.subrange(0, t1);
        let removed = s.subrange(t1 + 1, t2);
        let path = crate::text::spec_trim(s.subrange(t2 + 1, s.len() as int));
        let a = spec_parse_unsigned(added, usize::MAX as int);
        let d = spec_parse_unsigned(removed, usize::MAX as int);
        if added == "-"@ || removed == "-"@ || path.len() == 0 || a is None || d is None {
            None
        } else {
            Some((spec_normalize_numstat_path(path), GitDiffStat { added: a->0 as usize, removed: d->0 as usize }))
        }
    }
}

/// Parses a `git diff --numstat` line.
pub fn parse_git_numstat_line(line: &str) -> (r: Option<(String, GitDiffStat)>)
    ensures
        match r {
            Some((p, st)) => spec_parse_numstat(line@) == Some((p@, st)),
            None => spec_parse_numstat(line@) is None,
        },
{
    let n = line.unicode_len();
    let t1 = crate::text::find_char(line, '\t', 0);
    if t1 >= n {
        return None;
    }
    let t2 = crate::text::find_char(line, '\t', t1 + 1);
    if t2 >= n {
        return None;
    }
    let added = line.substring_char(0, t1);
    let removed = line.substring_char(t1 + 1, t2);
    let (a, b) = trim_bounds(line, t2 + 1, n);
    let path = line.substring_char(a, b);
    proof {
        reveal_strlit("-");
        let sub = line@.subrange(t2 + 1, n as int);
        assert(path@ =~= crate::text::spec_trim(sub));
    }
    if crate::text::str_eq(added, "-") || crate::text::str_eq(removed, "-") || b == a {
        return None;
    }
    let an = added.unicode_len();
    let rn = removed.unicode_len();
    let av = parse_unsigned(added, 0, an, usize::MAX as u64);
    let rv = parse_unsigned(removed, 0, rn, usize::MAX as u64);
    proof {
        assert(added@.subrange(0, an as int) =~= added@);
        assert(removed@.subrange(0, rn as int) =~= removed@);
    }
    match (av, rv) {
        (Some(x), Some(y)) => Some((normalize_numstat_path(path), GitDiffStat { added: x as usize, removed: y as usize })),
        _ => None,
    }
}

/// Each porcelain status letter names the change it stands for, in the
/// staged (first) and the unstaged (second) column alike: `M` and `C` a
/// modification, `A` an addition, `D` a deletion, `R` a rename and `U` a
/// conflict. Any other letter leaves its column empty, and a line whose two
/// letters are both of that kind (and not `??`) gives nothing.
pub proof fn law_porcelain_status_letters(s: Seq<char>)
    requires
        s.len() >= 3,
        (s[0] as int) < 0x80 && (s[1] as int) < 0x80 && (s[2] as int) < 0x80,
        !(s[0] == '?' && s[1] == '?'),
    ensures
        ({
            let r = spec_parse_porcelain_line(s);
            let x = s[0];
            let y = s[1];
            let letter_x = x == 'M' || x == 'C' || x == 'A' || x == 'D' || x == 'R' || x == 'U';
            let letter_y = y == 'M' || y == 'C' || y == 'A' || y == 'D' || y == 'R' || y == 'U';
            &&& (letter_x || letter_y) == (r is Some)
            &&& (x == 'M' || x == 'C') ==> r.unwrap().1.staged == Some(GitChangeState::Modified)
            &&& x == 'A' ==> r.unwrap().1.staged == Some(GitChangeState::Added)
            &&& x == 'D' ==> r.unwrap().1.staged == Some(GitChangeState::Deleted)
            &&& x == 'R' ==> r.unwrap().1.staged == Some(GitChangeState::Renamed)
            &&& x == 'U' ==> r.unwrap().1.staged == Some(GitChangeState::Conflicted)
            &&& (y == 'M' || y == 'C') ==> r.unwrap().1.unstaged == Some(GitChangeState::Modified)
            &&& y == 'A' ==> r.unwrap().1.unstaged == Some(GitChangeState::Added)
            &&& y == 'D' ==> r.unwrap().1.unstaged == Some(GitChangeState::Deleted)
            &&& y == 'R' ==> r.unwrap().1.unstaged == Some(GitChangeState::Renamed)
            &&& y == 'U' ==> r.unwrap().1.unstaged == Some(GitChangeState::Conflicted)
            &&& (r is Some && !letter_x) ==> r.unwrap().1.staged is None
            &&& (r is Some && !letter_y) ==> r.unwrap().1.unstaged is None
        }),
{
}

/// A `??` line is an untracked file: nothing staged, untracked in the work
/// tree.
pub proof fn law_porcelain_untracked(s: Seq<char>)
    requires
        s.len() >= 3,
        s[0] == '?' && s[1] == '?' && (s[2] as int) < 0x80,
    ensures
        spec_parse_porcelain_line(s) is Some,
        spec_parse_porcelain_line(s).unwrap().1 == (GitFileStatus {
            staged: None,
            unstaged: Some(GitChangeState::Untracked),
        }),
{
}

proof fn lemma_tab_free_find(s: Seq<char>, from: int)
    requires
        0 <= from,
        forall|i: int| from <= i < s.len() ==> s[i] != '\t',
    ensures
        crate::text::spec_find(s, '\t', from) == s.len(),
    decreases s.len() - from,
{
    if from < s.len() {
        lemma_tab_free_find(s, from + 1);
    }
}

proof fn lemma_find_first_tab(s: Seq<char>, from: int, t: int)
    requires
        0 <= from <= t < s.len(),
        s[t] == '\t',
        forall|i: int| from <= i < t ==> s[i] != '\t',
    ensures
        crate::text::spec_find(s, '\t', from) == t,
    decreases t - from,
{
    if from < t {
        lemma_find_first_tab(s, from + 1, t);
    }
}

/// A numstat line reads back the counts it was written with: the added
/// count from the first field, the removed count from the second, and the
/// path from the rest (trimmed, then normalised), for any counts and any
/// path without tabs that is not blank.
pub proof fn law_numstat_reads_counts(added: usize, removed: usize, path: Seq<char>)
    requires
        forall|i: int| 0 <= i < path.len() ==> path[i] != '\t',
        crate::text::spec_trim(path).len() > 0,
    ensures
        ({
            let line = decimal_digits(added as nat) + seq!['\t'] + decimal_digits(removed as nat) + seq!['\t'] + path;
            spec_parse_numstat(line) == Some(
                (spec_normalize_numstat_path(crate::text::spec_trim(path)), GitDiffStat { added, removed }),
            )
        }),
{
    let da = decimal_digits(added as nat);
    let dr = decimal_digits(removed as nat);
    lemma_decimal_digits_value(added as nat);
    lemma_decimal_digits_value(removed as nat);
    let line = da + seq!['\t'] + dr + seq!['\t'] + path;
    let t1 = da.len() as int;
    let t2 = t1 + 1 + dr.len();
    assert forall|i: int| 0 <= i < t1 implies line[i] != '\t' by {
        assert(line[i] == da[i]);
        assert(is_digit(da[i]));
    }
    lemma_find_first_tab(line, 0, t1);
    assert forall|i: int| t1 + 1 <= i < t2 implies line[i] != '\t' by {
        assert(line[i] == dr[i - t1 - 1]);
        assert(is_digit(dr[i - t1 - 1]));
    }
    lemma_find_first_tab(line, t1 + 1, t2);
    assert(line.subrange(0, t1) =~= da);
    assert(line.subrange(t1 + 1, t2) =~= dr);
    assert(line.subrange(t2 + 1, line.len() as int) =~= path);
    reveal_strlit("-");
    assert(da != "-"@) by {
        assert(is_digit(da[0]));
    }
    assert(dr != "-"@) by {
        assert(is_digit(dr[0]));
    }
}

/// A binary file's numstat line (`-` for both counts) gives nothing.
pub proof fn law_numstat_binary(path: Seq<char>)
    ensures
        spec_parse_numstat(seq!['-', '\t', '-', '\t'] + path) is None,
{
    let line = seq!['-', '\t', '-', '\t'] + path;
    lemma_find_first_tab(line, 0, 1);
    lemma_find_first_tab(line, 2, 3);
    reveal_strlit("-");
    assert(line.subrange(0, 1) =~= "-"@);
}

/// Which change wins when two statuses of one path meet, column by column:
/// a conflict over everything, then a deletion, a rename, an addition, a
/// modification, and an untracked file last; a column with one change keeps
/// it. Line counts of one path add up.
pub proof fn law_merge_precedence(a: GitChangeState, b: GitChangeState, x: GitDiffStat, y: GitDiffStat)
    ensures
        (a == GitChangeState::Conflicted || b == GitChangeState::Conflicted) ==> spec_merge_state(Some(a), Some(b))
            == Some(GitChangeState::Conflicted),
        (a == GitChangeState::Deleted && b != GitChangeState::Conflicted) ==> spec_merge_state(Some(a), Some(b)) == Some(
            GitChangeState::Deleted,
        ),
        (a == GitChangeState::Renamed && (b == GitChangeState::Added || b == GitChangeState::Modified || b
            == GitChangeState::Untracked)) ==> spec_merge_state(Some(a), Some(b)) == Some(GitChangeState::Renamed),
        (a == GitChangeState::Added && (b == GitChangeState::Modified || b == GitChangeState::Untracked))
            ==> spec_merge_state(Some(a), Some(b)) == Some(GitChangeState::Added),
        (a == GitChangeState::Modified && b == GitChangeState::Untracked) ==> spec_merge_state(Some(a), Some(b)) == Some(
            GitChangeState::Modified,
        ),
        spec_merge_state(Some(a), Some(b)) == spec_merge_state(Some(b), Some(a)),
        spec_merge_state(Some(a), None) == Some(a) && spec_merge_state(None, Some(a)) == Some(a),
        (x.added + y.added <= usize::MAX && x.removed + y.removed <= usize::MAX) ==> spec_merge_diff_stat(Some(x), Some(y))
            == Some(GitDiffStat { added: (x.added + y.added) as usize, removed: (x.removed + y.removed) as usize }),
{
}

} // verus!
