//! The rows a Gantt chart draws: an optional title, the date range, an axis,
//! and for each section its title and one row per task (the label padded to
//! the widest label, then the task's bar scaled onto the timeline), with the
//! size those rows take.

use vstd::prelude::*;

use crate::gantt::{spec_ymd_text, GanttDate, GanttDiagram, GanttError, GanttSpec, GanttTaskStatus};
use crate::gantt_calendar::lemma_day_number_in_range;
use crate::gantt_date::{lemma_day_number_injective, max_day_number, min_day_number};
use crate::gantt_timeline::{
    resolve_gantt_spec, spec_dates_in_range, spec_flat_tasks, spec_resolve_outcome, spec_resolved_ok, spec_section_offset,
    ResolvedGanttSection, ResolvedGanttTask,
};
use crate::heatmap::{push_spaces, spaces};
use crate::width::{display_width, str_width};

verus! {

/// What a row or cell of the chart stands for, which picks its style.
#[derive(Clone, Copy, Debug, PartialEq, Eq, Structural, Hash)]
pub enum GanttRenderRole {
    Text,
    Title,
    Axis,
    Section,
    TaskLabel,
    PendingBar,
    ActiveBar,
    DoneBar,
    CriticalBar,
    Milestone,
}

impl Default for GanttRenderRole {
    fn default() -> (r: Self)
        ensures
            r == GanttRenderRole::Text,
    {
        GanttRenderRole::Text
    }
}

/// A piece of text in a row.
#[derive(Clone, Debug)]
pub struct GanttRenderCell {
    pub text: String,
    pub role: GanttRenderRole,
}

/// A row of cells.
#[derive(Clone, Debug)]
pub struct GanttRenderRow {
    pub role: GanttRenderRole,
    pub cells: Vec<GanttRenderCell>,
}

/// All rows of a chart.
#[derive(Clone, Debug)]
pub struct GanttRenderRows {
    pub rows: Vec<GanttRenderRow>,
}

/// How wide the timeline may grow.
#[derive(Clone, Copy, Debug, PartialEq, Eq, Structural, Hash)]
pub struct GanttRenderConfig {
    pub max_timeline_width: u16,
}

impl Default for GanttRenderConfig {
    fn default() -> (r: Self)
        ensures
            r.max_timeline_width == 80,
    {
        GanttRenderConfig { max_timeline_width: 80 }
    }
}

/// A cell as its text and role.
pub open spec fn cell_view(c: GanttRenderCell) -> (Seq<char>, GanttRenderRole) {
    (c.text@, c.role)
}

/// A row as its role and cells.
pub open spec fn row_view(r: GanttRenderRow) -> (GanttRenderRole, Seq<(Seq<char>, GanttRenderRole)>) {
    (r.role, r.cells@.map_values(|c: GanttRenderCell| cell_view(c)))
}

/// Rows as values.
pub open spec fn rows_view(rs: Seq<GanttRenderRow>) -> Seq<(GanttRenderRole, Seq<(Seq<char>, GanttRenderRole)>)> {
    rs.map_values(|r: GanttRenderRow| row_view(r))
}

/// The smaller of an optional value and `v`.
pub open spec fn min_with(a: Option<int>, v: int) -> Option<int> {
    match a {
        Some(x) => Some(if v < x { v } else { x }),
        None => Some(v),
    }
}

/// The larger of an optional value and `v`.
pub open spec fn max_with(a: Option<int>, v: int) -> Option<int> {
    match a {
        Some(x) => Some(if v > x { v } else { x }),
        None => Some(v),
    }
}

/// The earliest start of the first `k` tasks.
pub open spec fn tasks_min_start(ts: Seq<ResolvedGanttTask>, k: int) -> Option<int>
    decreases k,
{
    if k <= 0 || k > ts.len() {
        None
    } else {
        min_with(tasks_min_start(ts, k - 1), ts[k - 1].start_day as int)
    }
}

/// The latest end of the first `k` tasks.
pub open spec fn tasks_max_end(ts: Seq<ResolvedGanttTask>, k: int) -> Option<int>
    decreases k,
{
    if k <= 0 || k > ts.len() {
        None
    } else {
        max_with(tasks_max_end(ts, k - 1), ts[k - 1].end_day_exclusive as int)
    }
}

/// The widest label of the first `k` tasks.
pub open spec fn tasks_label_width(ts: Seq<ResolvedGanttTask>, k: int) -> nat
    decreases k,
{
    if k <= 0 || k > ts.len() {
        0
    } else {
        let w = display_width(ts[k - 1].task.label@);
        let m = tasks_label_width(ts, k - 1);
        if w > m { w } else { m }
    }
}

/// The earliest start in the first `k` sections.
pub open spec fn secs_min_start(ss: Seq<ResolvedGanttSection>, k: int) -> Option<int>
    decreases k,
{
    if k <= 0 || k > ss.len() {
        None
    } else {
        match tasks_min_start(ss[k - 1].tasks@, ss[k - 1].tasks@.len() as int) {
            Some(v) => min_with(secs_min_start(ss, k - 1), v),
            None => secs_min_start(ss, k - 1),
        }
    }
}

/// The latest end in the first `k` sections.
pub open spec fn secs_max_end(ss: Seq<ResolvedGanttSection>, k: int) -> Option<int>
    decreases k,
{
    if k <= 0 || k > ss.len() {
        None
    } else {
        match tasks_max_end(ss[k - 1].tasks@, ss[k - 1].tasks@.len() as int) {
            Some(v) => max_with(secs_max_end(ss, k - 1), v),
            None => secs_max_end(ss, k - 1),
        }
    }
}

/// The widest label in the first `k` sections.
pub open spec fn secs_label_width(ss: Seq<ResolvedGanttSection>, k: int) -> nat
    decreases k,
{
    if k <= 0 || k > ss.len() {
        0
    } else {
        let w = tasks_label_width(ss[k - 1].tasks@, ss[k - 1].tasks@.len() as int);
        let m = secs_label_width(ss, k - 1);
        if w > m { w } else { m }
    }
}

/// Every task's dates are real dates matching its day numbers, and it ends
/// after it starts.
pub open spec fn task_dates_ok(t: ResolvedGanttTask) -> bool {
    &&& min_day_number() <= t.start_day <= max_day_number()
    &&& t.end.is_valid() && t.end.spec_day_number() == t.end_day_exclusive - 1
    &&& t.start_day < t.end_day_exclusive
}

/// [`task_dates_ok`] of every task of every section.
pub open spec fn sections_dates_ok(ss: Seq<ResolvedGanttSection>) -> bool {
    forall|s: int, t: int|
        0 <= s < ss.len() && 0 <= t < ss[s].tasks@.len() ==> task_dates_ok(#[trigger] ss[s].tasks@[t])
}

/// Day numbers of dates with `i32` years stay well inside `i64`.
proof fn lemma_day_bounds()
    ensures
        -0x1000_0000_0000 < min_day_number() < 0,
        0 < max_day_number() < 0x1000_0000_0000,
{
}

/// An optional `i64` as an optional integer.
pub open spec fn opt_int(o: Option<i64>) -> Option<int> {
    match o {
        Some(v) => Some(v as int),
        None => None,
    }
}

fn tasks_extent(ts: &Vec<ResolvedGanttTask>) -> (r: (Option<i64>, Option<i64>, usize))
    ensures
        opt_int(r.0) == tasks_min_start(ts@, ts@.len() as int),
        opt_int(r.1) == tasks_max_end(ts@, ts@.len() as int),
        r.2 == tasks_label_width(ts@, ts@.len() as int),
{
    let mut lo: Option<i64> = None;
    let mut hi: Option<i64> = None;
    let mut w: usize = 0;
    let mut k: usize = 0;
    while k < ts.len()
        invariant
            k <= ts@.len(),
            opt_int(lo) == tasks_min_start(ts@, k as int),
            opt_int(hi) == tasks_max_end(ts@, k as int),
            w == tasks_label_width(ts@, k as int),
        decreases ts@.len() - k,
    {
        let t = &ts[k];
        lo = match lo {
            Some(x) => Some(if t.start_day < x { t.start_day } else { x }),
            None => Some(t.start_day),
        };
        hi = match hi {
            Some(x) => Some(if t.end_day_exclusive > x { t.end_day_exclusive } else { x }),
            None => Some(t.end_day_exclusive),
        };
        let lw = str_width(t.task.label.as_str());
        if lw > w {
            w = lw;
        }
        k = k + 1;
    }
    (lo, hi, w)
}

/// The earliest start, latest end and widest label over all sections.
fn chart_extent(ss: &Vec<ResolvedGanttSection>) -> (r: (Option<i64>, Option<i64>, usize))
    ensures
        opt_int(r.0) == secs_min_start(ss@, ss@.len() as int),
        opt_int(r.1) == secs_max_end(ss@, ss@.len() as int),
        r.2 == secs_label_width(ss@, ss@.len() as int),
{
    let mut lo: Option<i64> = None;
    let mut hi: Option<i64> = None;
    let mut w: usize = 0;
    let mut k: usize = 0;
    while k < ss.len()
        invariant
            k <= ss@.len(),
            opt_int(lo) == secs_min_start(ss@, k as int),
            opt_int(hi) == secs_max_end(ss@, k as int),
            w == secs_label_width(ss@, k as int),
        decreases ss@.len() - k,
    {
        let (tl, th, tw) = tasks_extent(&ss[k].tasks);
        match tl {
            Some(v) => {
                lo = match lo {
                    Some(x) => Some(if v < x { v } else { x }),
                    None => Some(v),
                };
            },
            None => {},
        }
        match th {
            Some(v) => {
                hi = match hi {
                    Some(x) => Some(if v > x { v } else { x }),
                    None => Some(v),
                };
            },
            None => {},
        }
        if tw > w {
            w = tw;
        }
        k = k + 1;
    }
    (lo, hi, w)
}

/// A fold's result is the value of one of the folded tasks.
proof fn lemma_tasks_extent_member(ts: Seq<ResolvedGanttTask>, k: int)
    requires
        0 <= k <= ts.len(),
    ensures
        tasks_min_start(ts, k) matches Some(v) ==> exists|i: int| 0 <= i < k && ts[i].start_day == v,
        tasks_max_end(ts, k) matches Some(v) ==> exists|i: int| 0 <= i < k && ts[i].end_day_exclusive == v,
        (tasks_min_start(ts, k) is Some) == (k > 0),
        (tasks_max_end(ts, k) is Some) == (k > 0),
    decreases k,
{
    if k > 0 {
        lemma_tasks_extent_member(ts, k - 1);
    }
}

/// The sections' earliest start and latest end are a start and an end of
/// some task, and one exists exactly when the other does.
proof fn lemma_secs_extent_member(ss: Seq<ResolvedGanttSection>, k: int)
    requires
        0 <= k <= ss.len(),
    ensures
        secs_min_start(ss, k) matches Some(v) ==> exists|s: int, i: int|
            0 <= s < k && 0 <= i < ss[s].tasks@.len() && (#[trigger] ss[s].tasks@[i]).start_day == v,
        secs_max_end(ss, k) matches Some(v) ==> exists|s: int, i: int|
            0 <= s < k && 0 <= i < ss[s].tasks@.len() && (#[trigger] ss[s].tasks@[i]).end_day_exclusive == v,
        (secs_min_start(ss, k) is Some) == (secs_max_end(ss, k) is Some),
    decreases k,
{
    if k > 0 {
        lemma_secs_extent_member(ss, k - 1);
        lemma_tasks_extent_member(ss[k - 1].tasks@, ss[k - 1].tasks@.len() as int);
    }
}

/// Columns of the timeline: the days spanned, at least one, at most the
/// configured maximum (itself taken as at least one).
pub open spec fn timeline_width(max_w: int, days: int) -> int {
    let m = if max_w < 1 { 1 } else { max_w };
    let d = if days < 1 { 1 } else { days };
    if m < d { m } else { d }
}

/// The column of day `offset` (clamped into the chart) on a timeline of
/// `width` columns spanning `total` days, rounded down.
pub open spec fn scale_day(offset: int, total: int, width: int) -> int {
    let c = if offset < 0 {
        0
    } else if offset > total {
        total
    } else {
        offset
    };
    let v = c * width / total;
    if v < width { v } else { width }
}

/// The bar glyph of a role.
pub open spec fn bar_glyph(role: GanttRenderRole) -> char {
    match role {
        GanttRenderRole::DoneBar => '█',
        GanttRenderRole::ActiveBar => '▓',
        GanttRenderRole::CriticalBar => '▒',
        GanttRenderRole::Milestone => '◆',
        _ => '░',
    }
}

/// A task's timeline: a milestone is one diamond at its start column; any
/// other task fills the columns from its start to its end (at least one).
pub open spec fn task_bar(start: int, end: int, min: int, max: int, width: int, milestone: bool, role: GanttRenderRole) -> Seq<char> {
    let total = if max - min < 1 { 1 } else { max - min };
    let sc0 = scale_day(start - min, total, width);
    let sc = if sc0 < width - 1 { sc0 } else { width - 1 };
    if milestone {
        Seq::new(width as nat, |i: int| if i == sc { '◆' } else { ' ' })
    } else {
        let e0 = scale_day(end - min, total, width);
        let e1 = if e0 > sc + 1 { e0 } else { sc + 1 };
        let ec = if e1 < width { e1 } else { width };
        Seq::new(width as nat, |i: int| if sc <= i < ec { bar_glyph(role) } else { ' ' })
    }
}

/// The axis: `width` rules with a tick at each end.
pub open spec fn axis_text(width: int) -> Seq<char> {
    Seq::new(width as nat, |i: int| if i == 0 || i == width - 1 { '┬' } else { '─' })
}

/// The date whose day number is `n`.
pub open spec fn date_of(n: int) -> GanttDate {
    choose|d: GanttDate| d.is_valid() && d.spec_day_number() == n
}

/// The chart's first and last day.
pub open spec fn date_range_text(min: int, max: int) -> Seq<char> {
    spec_ymd_text(date_of(min)) + seq![' ', '→', ' '] + spec_ymd_text(date_of(max - 1))
}

/// A label padded with spaces to `lw` columns.
pub open spec fn label_cell(label: Seq<char>, lw: nat) -> Seq<char> {
    if display_width(label) >= lw {
        label
    } else {
        label + spaces(lw - display_width(label))
    }
}

/// The bar role of a status.
pub open spec fn role_for_status(s: GanttTaskStatus) -> GanttRenderRole {
    match s {
        GanttTaskStatus::Pending => GanttRenderRole::PendingBar,
        GanttTaskStatus::Active => GanttRenderRole::ActiveBar,
        GanttTaskStatus::Done => GanttRenderRole::DoneBar,
        GanttTaskStatus::Critical => GanttRenderRole::CriticalBar,
    }
}

/// The role of a task's bar.
pub open spec fn bar_role(t: ResolvedGanttTask) -> GanttRenderRole {
    if t.task.milestone {
        GanttRenderRole::Milestone
    } else {
        role_for_status(t.task.status)
    }
}

/// A task's row.
pub open spec fn task_row(t: ResolvedGanttTask, min: int, max: int, w: int, lw: nat) -> (GanttRenderRole, Seq<
    (Seq<char>, GanttRenderRole),
>) {
    (
        GanttRenderRole::Text,
        seq![
            (label_cell(t.task.label@, lw), GanttRenderRole::TaskLabel),
            (
                task_bar(t.start_day as int, t.end_day_exclusive as int, min, max, w, t.task.milestone, bar_role(t)),
                bar_role(t),
            ),
        ],
    )
}

/// The rows of the first `k` tasks.
pub open spec fn task_rows(ts: Seq<ResolvedGanttTask>, k: int, min: int, max: int, w: int, lw: nat) -> Seq<
    (GanttRenderRole, Seq<(Seq<char>, GanttRenderRole)>),
>
    decreases k,
{
    if k <= 0 || k > ts.len() {
        Seq::empty()
    } else {
        task_rows(ts, k - 1, min, max, w, lw).push(task_row(ts[k - 1], min, max, w, lw))
    }
}

/// A section's title row.
pub open spec fn section_title_row(title: Seq<char>) -> (GanttRenderRole, Seq<(Seq<char>, GanttRenderRole)>) {
    (GanttRenderRole::Section, seq![(title, GanttRenderRole::Section)])
}

/// The rows of the first `k` sections: each title, then its tasks.
pub open spec fn section_rows(ss: Seq<ResolvedGanttSection>, k: int, min: int, max: int, w: int, lw: nat) -> Seq<
    (GanttRenderRole, Seq<(Seq<char>, GanttRenderRole)>),
>
    decreases k,
{
    if k <= 0 || k > ss.len() {
        Seq::empty()
    } else {
        section_rows(ss, k - 1, min, max, w, lw).push(section_title_row(ss[k - 1].title@)) + task_rows(
            ss[k - 1].tasks@,
            ss[k - 1].tasks@.len() as int,
            min,
            max,
            w,
            lw,
        )
    }
}

/// The title's row, when there is a title.
pub open spec fn title_rows(title: Option<Seq<char>>) -> Seq<(GanttRenderRole, Seq<(Seq<char>, GanttRenderRole)>)> {
    match title {
        Some(t) => seq![(GanttRenderRole::Title, seq![(t, GanttRenderRole::Title)])],
        None => Seq::empty(),
    }
}

/// The chart's rows: the title's; then, when there are tasks, the date range,
/// the axis under padding as wide as the labels, and each section's rows.
/// The chart spans from the earliest start to the latest end (at least one
/// day).
pub open spec fn gantt_rows(title: Option<Seq<char>>, ss: Seq<ResolvedGanttSection>, max_w: int) -> Seq<
    (GanttRenderRole, Seq<(Seq<char>, GanttRenderRole)>),
> {
    let n = ss.len() as int;
    match secs_min_start(ss, n) {
        None => title_rows(title),
        Some(min) => {
            let max0 = match secs_max_end(ss, n) {
                Some(e) => e,
                None => min + 1,
            };
            let max = if max0 > min + 1 { max0 } else { min + 1 };
            let w = timeline_width(max_w, max - min);
            let lw = secs_label_width(ss, n);
            title_rows(title) + seq![
                (GanttRenderRole::Axis, seq![(date_range_text(min, max), GanttRenderRole::Axis)]),
                (
                    GanttRenderRole::Axis,
                    seq![(spaces(lw as int), GanttRenderRole::TaskLabel), (axis_text(w), GanttRenderRole::Axis)],
                ),
            ] + section_rows(ss, n, min, max, w, lw)
        },
    }
}

/// Appends one of the chart's glyphs.
fn push_glyph(out: &mut String, c: char)
    requires
        c == ' ' || c == '█' || c == '▓' || c == '▒' || c == '░' || c == '◆' || c == '─' || c == '┬',
    ensures
        final(out)@ == old(out)@.push(c),
{
    if c == ' ' {
        out.append(" ");
        proof {
            reveal_strlit(" ");
        }
    } else if c == '█' {
        out.append("█");
        proof {
            reveal_strlit("█");
        }
    } else if c == '▓' {
        out.append("▓");
        proof {
            reveal_strlit("▓");
        }
    } else if c == '▒' {
        out.append("▒");
        proof {
            reveal_strlit("▒");
        }
    } else if c == '░' {
        out.append("░");
        proof {
            reveal_strlit("░");
        }
    } else if c == '◆' {
        out.append("◆");
        proof {
            reveal_strlit("◆");
        }
    } else if c == '─' {
        out.append("─");
        proof {
            reveal_strlit("─");
        }
    } else {
        out.append("┬");
        proof {
            reveal_strlit("┬");
        }
    }
    assert(out@ =~= old(out)@.push(c));
}

fn glyph_for_role(role: GanttRenderRole) -> (r: char)
    ensures
        r == bar_glyph(role),
{
    match role {
        GanttRenderRole::DoneBar => '█',
        GanttRenderRole::ActiveBar => '▓',
        GanttRenderRole::CriticalBar => '▒',
        GanttRenderRole::Milestone => '◆',
        _ => '░',
    }
}

fn status_role(s: GanttTaskStatus) -> (r: GanttRenderRole)
    ensures
        r == role_for_status(s),
{
    match s {
        GanttTaskStatus::Pending => GanttRenderRole::PendingBar,
        GanttTaskStatus::Active => GanttRenderRole::ActiveBar,
        GanttTaskStatus::Done => GanttRenderRole::DoneBar,
        GanttTaskStatus::Critical => GanttRenderRole::CriticalBar,
    }
}

fn axis_string(width: usize) -> (r: String)
    requires
        width >= 1,
    ensures
        r@ == axis_text(width as int),
{
    let mut out = String::new();
    let mut i: usize = 0;
    while i < width
        invariant
            i <= width,
            out@ == axis_text(width as int).subrange(0, i as int),
        decreases width - i,
    {
        let c = if i == 0 || i == width - 1 { '┬' } else { '─' };
        push_glyph(&mut out, c);
        assert(axis_text(width as int).subrange(0, i + 1) =~= axis_text(width as int).subrange(0, i as int).push(c));
        i = i + 1;
    }
    assert(axis_text(width as int).subrange(0, width as int) =~= axis_text(width as int));
    out
}

fn scale_column(offset: i64, total: i64, width: usize) -> (r: usize)
    requires
        1 <= total < 0x4000_0000_0000,
        -0x4000_0000_0000 < offset < 0x4000_0000_0000,
        1 <= width <= 0xffff,
    ensures
        r == scale_day(offset as int, total as int, width as int),
{
    let c: i64 = if offset < 0 {
        0
    } else if offset > total {
        total
    } else {
        offset
    };
    let cu = c as u64;
    let wu = width as u64;
    assert(cu * wu <= 0x4000_0000_0000 * 0xffff) by (nonlinear_arith)
        requires
            cu <= 0x4000_0000_0000,
            wu <= 0xffff,
    ;
    let v = (cu * wu) / (total as u64);
    assert(v <= cu * wu);
    if v < wu {
        v as usize
    } else {
        width
    }
}

fn bar_string(start: i64, end: i64, min: i64, max: i64, width: usize, milestone: bool, role: GanttRenderRole) -> (r: String)
    requires
        min < max,
        max - min < 0x4000_0000_0000,
        -0x2000_0000_0000 < min,
        max < 0x2000_0000_0000,
        -0x2000_0000_0000 < start < 0x2000_0000_0000,
        -0x2000_0000_0000 < end < 0x2000_0000_0000,
        1 <= width <= 0xffff,
    ensures
        r@ == task_bar(start as int, end as int, min as int, max as int, width as int, milestone, role),
{
    let ghost spec_bar = task_bar(start as int, end as int, min as int, max as int, width as int, milestone, role);
    let total = max - min;
    let sc0 = scale_column(start - min, total, width);
    let sc = if sc0 < width - 1 { sc0 } else { width - 1 };
    let ec = if milestone {
        sc + 1
    } else {
        let e0 = scale_column(end - min, total, width);
        let e1 = if e0 > sc + 1 { e0 } else { sc + 1 };
        if e1 < width { e1 } else { width }
    };
    let glyph = if milestone { '◆' } else { glyph_for_role(role) };
    let mut out = String::new();
    let mut i: usize = 0;
    while i < width
        invariant
            i <= width,
            sc < ec <= width,
            spec_bar.len() == width,
            forall|j: int| 0 <= j < width ==> #[trigger] spec_bar[j] == if sc <= j < ec { glyph } else { ' ' },
            glyph == '◆' || glyph == '█' || glyph == '▓' || glyph == '▒' || glyph == '░',
            out@ == spec_bar.subrange(0, i as int),
        decreases width - i,
    {
        let c = if sc <= i && i < ec { glyph } else { ' ' };
        push_glyph(&mut out, c);
        assert(spec_bar.subrange(0, i + 1) =~= spec_bar.subrange(0, i as int).push(c));
        i = i + 1;
    }
    assert(spec_bar.subrange(0, width as int) =~= spec_bar);
    out
}

fn label_string(label: &str, lw: usize) -> (r: String)
    ensures
        r@ == label_cell(label@, lw as nat),
{
    let w = str_width(label);
    let mut out = String::from_str(label);
    if w < lw {
        push_spaces(&mut out, lw - w);
    }
    out
}

fn date_text(n: i64) -> (r: String)
    requires
        min_day_number() <= n <= max_day_number(),
    ensures
        r@ == spec_ymd_text(date_of(n as int)),
{
    let d = GanttDate::from_day_number(n);
    proof {
        let e = date_of(n as int);
        assert(d.is_valid() && d.spec_day_number() == n);
        lemma_day_number_injective(
            d.year as int,
            d.month as int,
            d.day as int,
            e.year as int,
            e.month as int,
            e.day as int,
        );
    }
    d.to_string()
}

fn range_text(min: i64, max: i64) -> (r: String)
    requires
        min_day_number() <= min < max,
        max - 1 <= max_day_number(),
    ensures
        r@ == date_range_text(min as int, max as int),
{
    let mut out = date_text(min);
    out.append(" → ");
    let end = date_text(max - 1);
    out.append(end.as_str());
    proof {
        reveal_strlit(" → ");
        assert(" → "@ =~= seq![' ', '→', ' ']);
    }
    out
}

fn one_cell_row(role: GanttRenderRole, text: String, cell_role: GanttRenderRole) -> (r: GanttRenderRow)
    ensures
        row_view(r) == (role, seq![(text@, cell_role)]),
{
    let mut cells = Vec::new();
    cells.push(GanttRenderCell { text, role: cell_role });
    let r = GanttRenderRow { role, cells };
    assert(r.cells@.map_values(|c: GanttRenderCell| cell_view(c)) =~= seq![(text@, cell_role)]);
    r
}

fn two_cell_row(role: GanttRenderRole, a: String, ra: GanttRenderRole, b: String, rb: GanttRenderRole) -> (r: GanttRenderRow)
    ensures
        row_view(r) == (role, seq![(a@, ra), (b@, rb)]),
{
    let mut cells = Vec::new();
    cells.push(GanttRenderCell { text: a, role: ra });
    cells.push(GanttRenderCell { text: b, role: rb });
    let r = GanttRenderRow { role, cells };
    assert(r.cells@.map_values(|c: GanttRenderCell| cell_view(c)) =~= seq![(a@, ra), (b@, rb)]);
    r
}

fn push_row(rows: &mut Vec<GanttRenderRow>, r: GanttRenderRow)
    ensures
        rows_view(final(rows)@) == rows_view(old(rows)@).push(row_view(r)),
{
    rows.push(r);
    assert(rows_view(rows@) =~= rows_view(old(rows)@).push(row_view(r)));
}


/// The range every row builder works in.
pub open spec fn chart_bounds(min: i64, max: i64, w: usize) -> bool {
    &&& min_day_number() <= min < max
    &&& max - 1 <= max_day_number()
    &&& -0x1000_0000_0000 < min_day_number() < 0
    &&& 0 < max_day_number() < 0x1000_0000_0000
    &&& 1 <= w <= 0xffff
}

fn append_task_rows(rows: &mut Vec<GanttRenderRow>, tasks: &Vec<ResolvedGanttTask>, min: i64, max: i64, w: usize, lw: usize)
    requires
        chart_bounds(min, max, w),
        forall|t: int| 0 <= t < tasks@.len() ==> task_dates_ok(#[trigger] tasks@[t]),
    ensures
        rows_view(final(rows)@) == rows_view(old(rows)@) + task_rows(
            tasks@,
            tasks@.len() as int,
            min as int,
            max as int,
            w as int,
            lw as nat,
        ),
{
    let ghost start = rows_view(rows@);
    let mut t: usize = 0;
    while t < tasks.len()
        invariant
            t <= tasks@.len(),
            chart_bounds(min, max, w),
            forall|k: int| 0 <= k < tasks@.len() ==> task_dates_ok(#[trigger] tasks@[k]),
            rows_view(rows@) == start + task_rows(tasks@, t as int, min as int, max as int, w as int, lw as nat),
        decreases tasks@.len() - t,
    {
        let task = &tasks[t];
        proof {
            assert(task_dates_ok(tasks@[t as int]));
            lemma_day_number_in_range(task.end.year as int, task.end.month as int, task.end.day as int);
        }
        let role = if task.task.milestone {
            GanttRenderRole::Milestone
        } else {
            status_role(task.task.status)
        };
        let label = label_string(task.task.label.as_str(), lw);
        let bar = bar_string(task.start_day, task.end_day_exclusive, min, max, w, task.task.milestone, role);
        push_row(rows, two_cell_row(GanttRenderRole::Text, label, GanttRenderRole::TaskLabel, bar, role));
        t = t + 1;
    }
}

fn append_section_rows(rows: &mut Vec<GanttRenderRow>, resolved: &Vec<ResolvedGanttSection>, min: i64, max: i64, w: usize, lw: usize)
    requires
        chart_bounds(min, max, w),
        sections_dates_ok(resolved@),
    ensures
        rows_view(final(rows)@) == rows_view(old(rows)@) + section_rows(
            resolved@,
            resolved@.len() as int,
            min as int,
            max as int,
            w as int,
            lw as nat,
        ),
{
    let ghost ss = resolved@;
    let ghost head = rows_view(rows@);
    let mut s: usize = 0;
    while s < resolved.len()
        invariant
            s <= ss.len(),
            ss == resolved@,
            sections_dates_ok(ss),
            chart_bounds(min, max, w),
            rows_view(rows@) == head + section_rows(ss, s as int, min as int, max as int, w as int, lw as nat),
        decreases ss.len() - s,
    {
        let sec = &resolved[s];
        push_row(rows, one_cell_row(GanttRenderRole::Section, sec.title.clone(), GanttRenderRole::Section));
        assert forall|t: int| 0 <= t < sec.tasks@.len() implies task_dates_ok(#[trigger] sec.tasks@[t]) by {
            assert(task_dates_ok(ss[s as int].tasks@[t]));
        }
        append_task_rows(rows, &sec.tasks, min, max, w, lw);
        proof {
            let prev = section_rows(ss, s as int, min as int, max as int, w as int, lw as nat);
            let tr = task_rows(
                ss[s as int].tasks@,
                ss[s as int].tasks@.len() as int,
                min as int,
                max as int,
                w as int,
                lw as nat,
            );
            assert(section_rows(ss, s + 1, min as int, max as int, w as int, lw as nat) == prev.push(
                section_title_row(ss[s as int].title@),
            ) + tr);
            assert(rows_view(rows@) =~= head + (prev.push(section_title_row(ss[s as int].title@)) + tr));
        }
        s = s + 1;
    }
}


/// The chart's earliest start and latest end are day numbers of real dates.
proof fn lemma_extent_in_range(ss: Seq<ResolvedGanttSection>, min: int, hi: int)
    requires
        sections_dates_ok(ss),
        secs_min_start(ss, ss.len() as int) == Some(min),
        secs_max_end(ss, ss.len() as int) == Some(hi),
    ensures
        min_day_number() <= min <= max_day_number(),
        min_day_number() <= hi - 1 <= max_day_number(),
{
    lemma_secs_extent_member(ss, ss.len() as int);
    let (s0, i0) = choose|s: int, i: int|
        0 <= s < ss.len() && 0 <= i < ss[s].tasks@.len() && (#[trigger] ss[s].tasks@[i]).start_day == min;
    let t0 = ss[s0].tasks@[i0];
    assert(task_dates_ok(t0));
    let (s1, i1) = choose|s: int, i: int|
        0 <= s < ss.len() && 0 <= i < ss[s].tasks@.len() && (#[trigger] ss[s].tasks@[i]).end_day_exclusive == hi;
    let t1 = ss[s1].tasks@[i1];
    assert(task_dates_ok(t1));
    lemma_day_number_in_range(t1.end.year as int, t1.end.month as int, t1.end.day as int);
}


proof fn lemma_extent_both(ss: Seq<ResolvedGanttSection>)
    ensures
        (secs_min_start(ss, ss.len() as int) is Some) == (secs_max_end(ss, ss.len() as int) is Some),
{
    lemma_secs_extent_member(ss, ss.len() as int);
}

/// The rows of a chart with `title` and these resolved sections, on a
/// timeline of at most `config.max_timeline_width` columns; see
/// [`gantt_rows`].
#[verifier::rlimit(40)]
pub fn build_gantt_rows_from_resolved(title: &Option<String>, resolved: &Vec<ResolvedGanttSection>, config: GanttRenderConfig) -> (r:
    GanttRenderRows)
    requires
        sections_dates_ok(resolved@),
    ensures
        rows_view(r.rows@) == gantt_rows(
            match title {
                Some(t) => Some(t@),
                None => None,
            },
            resolved@,
            config.max_timeline_width as int,
        ),
{
    let ghost tv = match title {
        Some(t) => Some(t@),
        None => None,
    };
    let ghost ss = resolved@;
    let mut rows: Vec<GanttRenderRow> = Vec::new();
    match title {
        Some(t) => {
            push_row(&mut rows, one_cell_row(GanttRenderRole::Title, t.clone(), GanttRenderRole::Title));
        },
        None => {},
    }
    assert(rows_view(rows@) =~= title_rows(tv));
    let (lo, hi, lw) = chart_extent(resolved);
    proof {
        lemma_extent_both(ss);
        lemma_day_bounds();
    }
    let min = match lo {
        None => {
            return GanttRenderRows { rows };
        },
        Some(m) => m,
    };
    let hi_v = match hi {
        Some(e) => e,
        None => min + 1,
    };
    proof {
        lemma_extent_in_range(ss, min as int, hi_v as int);
    }
    let max = if hi_v > min + 1 { hi_v } else { min + 1 };
    let mw: i64 = if config.max_timeline_width < 1 { 1 } else { config.max_timeline_width as i64 };
    let days = max - min;
    let w_i: i64 = if mw < days { mw } else { days };
    let w = w_i as usize;
    assert(w as int == timeline_width(config.max_timeline_width as int, max - min));
    push_row(&mut rows, one_cell_row(GanttRenderRole::Axis, range_text(min, max), GanttRenderRole::Axis));
    let mut pad = String::new();
    push_spaces(&mut pad, lw);
    push_row(
        &mut rows,
        two_cell_row(GanttRenderRole::Axis, pad, GanttRenderRole::TaskLabel, axis_string(w), GanttRenderRole::Axis),
    );
    let ghost head = rows_view(rows@);
    assert(head =~= title_rows(tv) + seq![
        (GanttRenderRole::Axis, seq![(date_range_text(min as int, max as int), GanttRenderRole::Axis)]),
        (
            GanttRenderRole::Axis,
            seq![(spaces(lw as int), GanttRenderRole::TaskLabel), (axis_text(w as int), GanttRenderRole::Axis)],
        ),
    ]);
    append_section_rows(&mut rows, resolved, min, max, w, lw);
    GanttRenderRows { rows }
}

/// The text of an optional title.
pub open spec fn title_text(t: Option<String>) -> Option<Seq<char>> {
    match t {
        Some(s) => Some(s@),
        None => None,
    }
}

/// What [`build_gantt_render_rows`] gives for a resolution `res` of the spec:
/// the rows of the resolved sections, or the same error.
pub open spec fn rows_for(spec: GanttSpec, config: GanttRenderConfig, res: Result<Vec<ResolvedGanttSection>, GanttError>, r: Result<
    GanttRenderRows,
    GanttError,
>) -> bool {
    match res {
        Ok(out) => r matches Ok(rows) && rows_view(rows.rows@) == gantt_rows(
            title_text(spec.title),
            out@,
            config.max_timeline_width as int,
        ),
        Err(e) => r == Err::<GanttRenderRows, GanttError>(e),
    }
}

/// Resolves the spec and lays out its rows; see [`gantt_rows`]. Fails as
/// [`resolve_gantt_spec`] does.
pub fn build_gantt_render_rows(spec: &GanttSpec, config: GanttRenderConfig) -> (r: Result<GanttRenderRows, GanttError>)
    requires
        spec_dates_in_range(spec_flat_tasks(spec.sections@)),
        spec_flat_tasks(spec.sections@).len() < 0x1_0000_0000,
    ensures
        exists|res: Result<Vec<ResolvedGanttSection>, GanttError>|
            spec_resolve_outcome(*spec, res) && #[trigger] rows_for(*spec, config, res, r),
{
    let res = resolve_gantt_spec(spec);
    match res {
        Ok(out) => {
            proof {
                let ts = spec_flat_tasks(spec.sections@);
                assert forall|s: int, t: int| 0 <= s < out@.len() && 0 <= t < out@[s].tasks@.len() implies task_dates_ok(
                    #[trigger] out@[s].tasks@[t],
                ) by {
                    assert(spec_resolved_ok(ts, spec_section_offset(spec.sections@, s) + t, out@[s].tasks@[t]));
                }
            }
            let rows = build_gantt_rows_from_resolved(&spec.title, &out, config);
            let r = Ok(rows);
            assert(rows_for(*spec, config, Ok(out), r));
            r
        },
        Err(e) => {
            let r = Err(e);
            assert(rows_for(*spec, config, Err(e), r));
            r
        },
    }
}

/// The summed widths of the first `k` cells.
pub open spec fn cells_width(cs: Seq<(Seq<char>, GanttRenderRole)>, k: int) -> nat
    decreases k,
{
    if k <= 0 || k > cs.len() {
        0
    } else {
        cells_width(cs, k - 1) + display_width(cs[k - 1].0)
    }
}

/// A row's width: its cells with one column between neighbours.
pub open spec fn row_width(cs: Seq<(Seq<char>, GanttRenderRole)>) -> nat {
    cells_width(cs, cs.len() as int) + if cs.len() > 0 { (cs.len() - 1) as nat } else { 0 }
}

/// The widest of the first `k` rows.
pub open spec fn rows_width(rs: Seq<(GanttRenderRole, Seq<(Seq<char>, GanttRenderRole)>)>, k: int) -> nat
    decreases k,
{
    if k <= 0 || k > rs.len() {
        0
    } else {
        let w = row_width(rs[k - 1].1);
        let m = rows_width(rs, k - 1);
        if w > m { w } else { m }
    }
}

/// `v`, at most `u16::MAX`.
pub open spec fn cap16(v: int) -> u16 {
    if v > 0xffff { 0xffff } else { v as u16 }
}

fn row_columns(row: &GanttRenderRow) -> (r: u16)
    ensures
        r == cap16(row_width(row_view(*row).1) as int),
{
    let ghost cs = row_view(*row).1;
    let mut acc: usize = 0;
    let mut k: usize = 0;
    while k < row.cells.len()
        invariant
            k <= row.cells@.len(),
            cs == row_view(*row).1,
            cs.len() == row.cells@.len(),
            acc == cap16(cells_width(cs, k as int) as int),
        decreases row.cells@.len() - k,
    {
        let w = str_width(row.cells[k].text.as_str());
        assert(cs[k as int].0 == row.cells@[k as int].text@);
        acc = if w >= 0xffff - acc { 0xffff } else { acc + w };
        k = k + 1;
    }
    let n = row.cells.len();
    let gaps = if n > 0 { n - 1 } else { 0 };
    let total = if gaps >= 0xffff - acc { 0xffff } else { acc + gaps };
    total as u16
}

/// The columns and lines the rows take, each at most `u16::MAX`.
pub fn measure_gantt_rows(rows: &GanttRenderRows) -> (r: (u16, u16))
    ensures
        r.0 == cap16(rows_width(rows_view(rows.rows@), rows.rows@.len() as int) as int),
        r.1 == cap16(rows.rows@.len() as int),
{
    let ghost rs = rows_view(rows.rows@);
    let mut w: u16 = 0;
    let mut k: usize = 0;
    while k < rows.rows.len()
        invariant
            k <= rows.rows@.len(),
            rs == rows_view(rows.rows@),
            w == cap16(rows_width(rs, k as int) as int),
        decreases rows.rows@.len() - k,
    {
        let c = row_columns(&rows.rows[k]);
        if c > w {
            w = c;
        }
        k = k + 1;
    }
    let n = rows.rows.len();
    (w, if n > 0xffff { 0xffff } else { n as u16 })
}

/// `parts` joined with `sep` between neighbours.
pub open spec fn joined(parts: Seq<Seq<char>>, sep: Seq<char>) -> Seq<char>
    decreases parts.len(),
{
    if parts.len() == 0 {
        Seq::empty()
    } else if parts.len() == 1 {
        parts[0]
    } else {
        joined(parts.drop_last(), sep) + sep + parts.last()
    }
}

/// How an error is described.
pub open spec fn error_text(e: GanttError) -> Seq<char> {
    match e {
        GanttError::InvalidDate(d) => "invalid Gantt date: "@ + d@,
        GanttError::MissingDependency { task, dependency } => "task '"@ + task@ + "' depends on missing task id '"@
            + dependency@ + "'"@,
        GanttError::DuplicateTaskId(id) => "duplicate Gantt task id '"@ + id@ + "'"@,
        GanttError::CyclicDependency(path) => "cyclic Gantt dependency: "@ + joined(
            path@.map_values(|p: String| p@),
            " -> "@,
        ),
        GanttError::UnresolvedStart(task) => "task '"@ + task@ + "' must define start_date(...) or after(...)"@,
    }
}

/// See [`error_text`].
pub fn gantt_error_message(e: &GanttError) -> (r: String)
    ensures
        r@ == error_text(*e),
{
    match e {
        GanttError::InvalidDate(d) => {
            let mut out = String::from_str("invalid Gantt date: ");
            out.append(d.as_str());
            out
        },
        GanttError::MissingDependency { task, dependency } => {
            let mut out = String::from_str("task '");
            out.append(task.as_str());
            out.append("' depends on missing task id '");
            out.append(dependency.as_str());
            out.append("'");
            out
        },
        GanttError::DuplicateTaskId(id) => {
            let mut out = String::from_str("duplicate Gantt task id '");
            out.append(id.as_str());
            out.append("'");
            out
        },
        GanttError::CyclicDependency(path) => {
            let mut out = String::from_str("cyclic Gantt dependency: ");
            let ghost parts = path@.map_values(|p: String| p@);
            let ghost start = out@;
            let mut k: usize = 0;
            while k < path.len()
                invariant
                    k <= path@.len(),
                    parts == path@.map_values(|p: String| p@),
                    out@ == start + joined(parts.subrange(0, k as int), " -> "@),
                decreases path@.len() - k,
            {
                if k > 0 {
                    out.append(" -> ");
                }
                out.append(path[k].as_str());
                proof {
                    let sub = parts.subrange(0, k + 1);
                    assert(sub.drop_last() =~= parts.subrange(0, k as int));
                    if k == 0 {
                        assert(joined(sub, " -> "@) == sub[0]);
                    }
                }
                k = k + 1;
            }
            assert(parts.subrange(0, path@.len() as int) =~= parts);
            out
        },
        GanttError::UnresolvedStart(task) => {
            let mut out = String::from_str("task '");
            out.append(task.as_str());
            out.append("' must define start_date(...) or after(...)");
            out
        },
    }
}

/// The size a chart takes: its rows' size, or one line of its error message
/// (`Gantt error: ` and the error's description) when the spec does not
/// resolve; then its padding, each dimension at most `u16::MAX`.
pub fn measure_gantt_diagram(diagram: &GanttDiagram) -> (r: (u16, u16))
    requires
        spec_dates_in_range(spec_flat_tasks(diagram.spec.sections@)),
        spec_flat_tasks(diagram.spec.sections@).len() < 0x1_0000_0000,
    ensures
        exists|res: Result<GanttRenderRows, GanttError>|
            #![trigger rows_result(diagram.spec, diagram.max_timeline_width, res)]
            rows_result(diagram.spec, diagram.max_timeline_width, res) && r == (match res {
                Ok(rows) => (
                    add_sat16(cap16(rows_width(rows_view(rows.rows@), rows.rows@.len() as int) as int), diagram.padding.spec_horizontal()),
                    add_sat16(cap16(rows.rows@.len() as int), diagram.padding.spec_vertical()),
                ),
                Err(e) => (
                    add_sat16(cap16(("Gantt error: "@ + error_text(e)).len() as int), diagram.padding.spec_horizontal()),
                    add_sat16(1, diagram.padding.spec_vertical()),
                ),
            }),
{
    let built = build_gantt_render_rows(&diagram.spec, GanttRenderConfig { max_timeline_width: diagram.max_timeline_width });
    let (w, h) = match &built {
        Ok(rows) => measure_gantt_rows(rows),
        Err(e) => {
            let mut text = String::from_str("Gantt error: ");
            let m = gantt_error_message(e);
            text.append(m.as_str());
            let n = text.unicode_len();
            (if n > 0xffff { 0xffff } else { n as u16 }, 1)
        },
    };
    let r = (w.saturating_add(diagram.padding.horizontal()), h.saturating_add(diagram.padding.vertical()));
    assert(rows_result(diagram.spec, diagram.max_timeline_width, built));
    r
}

/// Whether `res` is what laying out the spec's rows with this timeline width
/// gives.
pub open spec fn rows_result(spec: GanttSpec, max_timeline_width: u16, res: Result<GanttRenderRows, GanttError>) -> bool {
    exists|out: Result<Vec<ResolvedGanttSection>, GanttError>|
        spec_resolve_outcome(spec, out) && #[trigger] rows_for(
            spec,
            GanttRenderConfig { max_timeline_width },
            out,
            res,
        )
}

/// `a + b`, at most `u16::MAX`.
pub open spec fn add_sat16(a: u16, b: int) -> u16 {
    if a + b > 0xffff { 0xffff } else { (a + b) as u16 }
}

/// A task's row is its label, then its bar across the `w` timeline columns.
/// The bar's role and glyph tell the task's kind: a milestone is drawn with
/// `◆` in the milestone role; any other task by its status, pending with `░`,
/// active with `▓`, done with `█` and critical with `▒`, each in a role of its
/// own. Every column of the bar holds that glyph or a blank, and a task that
/// is not a milestone fills at least one column.
pub proof fn law_task_row_roles(t: ResolvedGanttTask, min: int, max: int, w: int, lw: nat)
    requires
        w >= 1,
    ensures
        ({
            let cells = task_row(t, min, max, w, lw).1;
            let bar = cells[1].0;
            let role = cells[1].1;
            let glyph = if t.task.milestone {
                '◆'
            } else {
                match t.task.status {
                    GanttTaskStatus::Pending => '░',
                    GanttTaskStatus::Active => '▓',
                    GanttTaskStatus::Done => '█',
                    GanttTaskStatus::Critical => '▒',
                }
            };
            &&& cells.len() == 2
            &&& cells[0].1 == GanttRenderRole::TaskLabel
            &&& t.task.milestone ==> role == GanttRenderRole::Milestone
            &&& (!t.task.milestone && t.task.status == GanttTaskStatus::Pending) ==> role == GanttRenderRole::PendingBar
            &&& (!t.task.milestone && t.task.status == GanttTaskStatus::Active) ==> role == GanttRenderRole::ActiveBar
            &&& (!t.task.milestone && t.task.status == GanttTaskStatus::Done) ==> role == GanttRenderRole::DoneBar
            &&& (!t.task.milestone && t.task.status == GanttTaskStatus::Critical) ==> role
                == GanttRenderRole::CriticalBar
            &&& bar.len() == w
            &&& forall|i: int| 0 <= i < w ==> #[trigger] bar[i] == ' ' || bar[i] == glyph
            &&& exists|i: int| 0 <= i < w && #[trigger] bar[i] == glyph
        }),
{
    let cells = task_row(t, min, max, w, lw).1;
    let total = if max - min < 1 { 1 } else { max - min };
    let sc0 = scale_day(t.start_day - min, total, w);
    let sc = if sc0 < w - 1 { sc0 } else { w - 1 };
    assert(0 <= sc0) by (nonlinear_arith)
        requires
            sc0 == scale_day(t.start_day - min, total, w),
            total >= 1,
            w >= 1,
    {
        let off = t.start_day - min;
        let c = if off < 0 { 0 } else if off > total { total } else { off };
        assert(c * w >= 0);
        assert(c * w / total >= 0);
    }
    let role = bar_role(t);
    let glyph = if t.task.milestone { '◆' } else { bar_glyph(role) };
    assert(!t.task.milestone ==> match t.task.status {
        GanttTaskStatus::Pending => glyph == '░',
        GanttTaskStatus::Active => glyph == '▓',
        GanttTaskStatus::Done => glyph == '█',
        GanttTaskStatus::Critical => glyph == '▒',
    });
    let bar = task_bar(t.start_day as int, t.end_day_exclusive as int, min, max, w, t.task.milestone, role);
    assert(cells[1].0 == bar);
    assert(0 <= sc < w);
    assert(bar[sc] == glyph);
    assert(forall|i: int| 0 <= i < w ==> #[trigger] bar[i] == ' ' || bar[i] == glyph);
}

/// Days map onto timeline columns in order: the chart's first day is the
/// first column, its end the last column edge, a later day never lands left
/// of an earlier one, and days outside the chart are pinned to its edges.
pub proof fn law_scale_day(o1: int, o2: int, total: int, width: int)
    requires
        total >= 1,
        width >= 0,
        o1 <= o2,
    ensures
        scale_day(0, total, width) == 0,
        scale_day(total, total, width) == width,
        0 <= scale_day(o1, total, width) <= scale_day(o2, total, width) <= width,
        o1 <= 0 ==> scale_day(o1, total, width) == 0,
        o2 >= total ==> scale_day(o2, total, width) == width,
{
    let c1 = if o1 < 0 { 0 } else if o1 > total { total } else { o1 };
    let c2 = if o2 < 0 { 0 } else if o2 > total { total } else { o2 };
    assert(0 <= c1 * width / total <= c2 * width / total) by (nonlinear_arith)
        requires
            0 <= c1 <= c2,
            width >= 0,
            total >= 1,
    {
        assert(c1 * width <= c2 * width);
    }
    assert(total * width / total == width) by (nonlinear_arith)
        requires
            total >= 1,
    ;
    assert(c2 * width / total <= width) by (nonlinear_arith)
        requires
            0 <= c2 <= total,
            width >= 0,
            total >= 1,
    {
        assert(c2 * width <= total * width);
    }
}

/// The timeline has one column per day of the chart, but never more than
/// the configured maximum (taken as at least one) and never fewer than
/// one; its axis rule has a tick at each end and plain rule between.
pub proof fn law_timeline_width(max_w: int, days: int)
    ensures
        1 <= timeline_width(max_w, days),
        timeline_width(max_w, days) <= if max_w < 1 { 1 } else { max_w },
        (1 <= days && days <= max_w) ==> timeline_width(max_w, days) == days,
        (days > max_w && max_w >= 1) ==> timeline_width(max_w, days) == max_w,
        ({
            let w = timeline_width(max_w, days);
            let a = axis_text(w);
            &&& a.len() == w
            &&& a[0] == '┬' && a[w - 1] == '┬'
            &&& forall|i: int| 0 < i < w - 1 ==> #[trigger] a[i] == '─'
        }),
{
}

/// At one column per day, a task's bar covers exactly its days: the columns
/// from its start to the day before its exclusive end are filled with its
/// glyph and the others are blank; a milestone's diamond sits on its start
/// day's column.
pub proof fn law_bar_covers_days(start: int, end: int, min: int, max: int, milestone: bool, role: GanttRenderRole)
    requires
        min <= start < end <= max,
    ensures
        ({
            let w = max - min;
            let bar = task_bar(start, end, min, max, w, milestone, role);
            &&& bar.len() == w
            &&& !milestone ==> forall|i: int|
                0 <= i < w ==> #[trigger] bar[i] == if start - min <= i < end - min { bar_glyph(role) } else { ' ' }
            &&& milestone ==> forall|i: int| 0 <= i < w ==> #[trigger] bar[i] == if i == start - min { '◆' } else { ' ' }
        }),
{
    let w = max - min;
    let o1 = start - min;
    let o2 = end - min;
    assert(o1 * w / w == o1) by (nonlinear_arith)
        requires
            w >= 1,
    ;
    assert(o2 * w / w == o2) by (nonlinear_arith)
        requires
            w >= 1,
    ;
}

} // verus!
