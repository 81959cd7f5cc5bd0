//! Resolving a Gantt specification into dated tasks: ids are checked, `after`
//! dependencies are followed, and cycles or missing starts are reported.

use vstd::prelude::*;

use crate::gantt::{
    GanttDate, GanttError, GanttSpec, GanttTask, GanttTaskStart, GanttTaskStartView, GanttTaskView,
    clone_opt_string, opt_text_view,
};
use crate::gantt_date::{max_day_number, min_day_number};

verus! {

/// A task with its resolved dates; `end` is its last day.
#[derive(Clone, Debug, PartialEq, Eq)]
pub struct ResolvedGanttTask {
    pub task: GanttTask,
    pub start: GanttDate,
    pub end: GanttDate,
    pub start_day: i64,
    pub end_day_exclusive: i64,
}

/// A section whose tasks are resolved.
#[derive(Clone, Debug, PartialEq, Eq)]
pub struct ResolvedGanttSection {
    pub title: String,
    pub tasks: Vec<ResolvedGanttTask>,
}

/// All tasks of a spec, section by section, in order.
pub open spec fn spec_flat_tasks(sections: Seq<crate::gantt::GanttSection>) -> Seq<GanttTaskView>
    decreases sections.len(),
{
    if sections.len() == 0 {
        Seq::empty()
    } else {
        spec_flat_tasks(sections.drop_last()) + sections.last().tasks@.map_values(|t: GanttTask| t@)
    }
}

/// Days a task occupies: milestones take one, others at least one.
pub open spec fn spec_span(t: GanttTaskView) -> int {
    if t.milestone { 1 } else if t.duration < 1 { 1 } else { t.duration as int }
}

/// Index of the first task carrying `id`, or -1.
pub open spec fn spec_index_of(ts: Seq<GanttTaskView>, id: Seq<char>) -> int
    decreases ts.len(),
{
    if ts.len() == 0 {
        -1
    } else if spec_index_of(ts.drop_last(), id) >= 0 {
        spec_index_of(ts.drop_last(), id)
    } else if ts.last().id == Some(id) {
        ts.len() - 1
    } else {
        -1
    }
}

/// Whether task `j` repeats an id used by an earlier task.
pub open spec fn spec_is_duplicate(ts: Seq<GanttTaskView>, j: int) -> bool {
    ts[j].id is Some && exists|i: int| 0 <= i < j && ts[i].id == ts[j].id
}

/// Whether task `j` depends on an id no task carries.
pub open spec fn spec_is_missing(ts: Seq<GanttTaskView>, j: int) -> bool {
    ts[j].start matches Some(GanttTaskStartView::After(dep)) && spec_index_of(ts, dep) < 0
}

/// Start day of task `i`, following `after` links at most `fuel` times.
pub open spec fn spec_resolve(ts: Seq<GanttTaskView>, i: int, fuel: nat) -> Option<int>
    decreases fuel,
{
    if fuel == 0 || !(0 <= i < ts.len()) {
        None
    } else {
        match ts[i].start {
            Some(GanttTaskStartView::Date(d)) => Some(d.spec_day_number()),
            Some(GanttTaskStartView::After(dep)) => {
                let p = spec_index_of(ts, dep);
                match spec_resolve(ts, p, (fuel - 1) as nat) {
                    Some(s) => Some(s + spec_span(ts[p])),
                    None => None,
                }
            },
            None => None,
        }
    }
}

/// The name an error uses for a task: its id, else its label.
pub open spec fn spec_task_name(t: GanttTaskView) -> Seq<char> {
    match t.id {
        Some(id) => id,
        None => t.label,
    }
}

/// Every task that resolves starts and ends on days whose year fits in `i32`,
/// so that each of those days converts back into a date without wrapping its
/// year.
pub open spec fn spec_dates_in_range(ts: Seq<GanttTaskView>) -> bool {
    forall|i: int|
        0 <= i < ts.len() ==> (#[trigger] spec_resolve(ts, i, (ts.len() + 1) as nat) matches Some(s) ==> (
        min_day_number() <= s && s + spec_span(ts[i]) - 1 <= max_day_number()))
}

/// `path` is a chain of `after` links that returns to where it started,
/// naming each task on it once before it closes on the first.
pub open spec fn spec_is_cycle(ts: Seq<GanttTaskView>, path: Seq<Seq<char>>) -> bool {
    &&& path.len() >= 2
    &&& path[0] == path.last()
    &&& path.drop_last().no_duplicates()
    &&& forall|k: int|
        0 <= k < path.len() - 1 ==> exists|i: int|
            0 <= i < ts.len() && ts[i].id == Some(#[trigger] path[k]) && ts[i].start
                == Some(GanttTaskStartView::After(path[k + 1]))
}

proof fn lemma_resolve_monotone(ts: Seq<GanttTaskView>, i: int, f: nat, g: nat)
    requires
        f <= g,
        spec_resolve(ts, i, f) is Some,
    ensures
        spec_resolve(ts, i, g) == spec_resolve(ts, i, f),
    decreases f,
{
    match ts[i].start {
        Some(GanttTaskStartView::After(dep)) => {
            let p = spec_index_of(ts, dep);
            lemma_resolve_monotone(ts, p, (f - 1) as nat, (g - 1) as nat);
        },
        _ => {},
    }
}

proof fn lemma_span_bounds(t: GanttTaskView)
    ensures
        1 <= spec_span(t) <= u32::MAX,
{
}

proof fn lemma_index_of(ts: Seq<GanttTaskView>, id: Seq<char>)
    ensures
        -1 <= spec_index_of(ts, id) < ts.len(),
        spec_index_of(ts, id) >= 0 ==> ts[spec_index_of(ts, id)].id == Some(id),
        spec_index_of(ts, id) >= 0 ==> forall|k: int| 0 <= k < spec_index_of(ts, id) ==> ts[k].id != Some(id),
        spec_index_of(ts, id) < 0 ==> forall|k: int| 0 <= k < ts.len() ==> ts[k].id != Some(id),
    decreases ts.len(),
{
    if ts.len() > 0 {
        lemma_index_of(ts.drop_last(), id);
        assert forall|k: int| 0 <= k < ts.len() - 1 implies ts.drop_last()[k] == ts[k] by {}
    }
}

/// Resolved start days stay inside the representable range, and so do the
/// last days of the tasks they start.
proof fn lemma_resolve_bounds(ts: Seq<GanttTaskView>, i: int, f: nat)
    requires
        spec_dates_in_range(ts),
        spec_resolve(ts, i, f) is Some,
        f <= ts.len() + 1,
    ensures
        min_day_number() <= spec_resolve(ts, i, f)->0,
        spec_resolve(ts, i, f)->0 + spec_span(ts[i]) - 1 <= max_day_number(),
{
    lemma_resolve_monotone(ts, i, f, (ts.len() + 1) as nat);
    assert(spec_resolve(ts, i, (ts.len() + 1) as nat) matches Some(s) ==> (min_day_number() <= s && s + spec_span(ts[i])
        - 1 <= max_day_number()));
}

/// A task whose `after` chain reaches a dated task through distinct tasks is resolvable.
proof fn lemma_chain_resolves(ts: Seq<GanttTaskView>, path: Seq<int>, k: int)
    requires
        0 <= k < path.len(),
        forall|a: int| 0 <= a < path.len() ==> 0 <= #[trigger] path[a] < ts.len(),
        forall|a: int|
            0 <= a < path.len() - 1 ==> (ts[#[trigger] path[a]].start matches Some(GanttTaskStartView::After(dep))
                && spec_index_of(ts, dep) == path[a + 1]),
        ts[path.last()].start matches Some(GanttTaskStartView::Date(_)),
    ensures
        spec_resolve(ts, path[k], (path.len() - k) as nat) is Some,
    decreases path.len() - k,
{
    if k < path.len() - 1 {
        lemma_chain_resolves(ts, path, k + 1);
    }
}

/// Tasks on a chain that ends in a cycle or at a task without a start never resolve.
proof fn lemma_chain_unresolvable(ts: Seq<GanttTaskView>, path: Seq<int>, back: int, f: nat)
    requires
        forall|a: int| 0 <= a < path.len() ==> 0 <= #[trigger] path[a] < ts.len(),
        path.len() >= 1,
        forall|a: int|
            0 <= a < path.len() - 1 ==> (ts[#[trigger] path[a]].start matches Some(GanttTaskStartView::After(dep))
                && spec_index_of(ts, dep) == path[a + 1]),
        (ts[path.last()].start is None) || (0 <= back < path.len() && (ts[path.last()].start matches Some(
            GanttTaskStartView::After(dep),
        ) && spec_index_of(ts, dep) == path[back])),
    ensures
        forall|a: int| 0 <= a < path.len() ==> spec_resolve(ts, #[trigger] path[a], f) is None,
    decreases f,
{
    if f > 0 {
        lemma_chain_unresolvable(ts, path, back, (f - 1) as nat);
        assert forall|a: int| 0 <= a < path.len() implies spec_resolve(ts, #[trigger] path[a], f) is None by {
            if a < path.len() - 1 {
                assert(spec_resolve(ts, path[a + 1], (f - 1) as nat) is None);
            } else if ts[path.last()].start is Some {
                assert(spec_resolve(ts, path[back], (f - 1) as nat) is None);
            }
        }
    }
}

/// Distinct indices below `n` number at most `n`.
proof fn lemma_distinct_bound(path: Seq<int>, n: int)
    requires
        path.no_duplicates(),
        forall|a: int| 0 <= a < path.len() ==> 0 <= #[trigger] path[a] < n,
        n >= 0,
    ensures
        path.len() <= n,
{
    path.unique_seq_to_set();
    vstd::set_lib::lemma_int_range(0, n);
    assert(path.to_set().subset_of(vstd::set_lib::set_int_range(0, n)));
    vstd::set_lib::lemma_len_subset(path.to_set(), vstd::set_lib::set_int_range(0, n));
}

/// An optional day number as a mathematical integer.
pub open spec fn opt_int(o: Option<i64>) -> Option<int> {
    match o {
        Some(v) => Some(v as int),
        None => None,
    }
}

/// Views of a list of tasks.
pub open spec fn task_views(v: Seq<GanttTask>) -> Seq<GanttTaskView> {
    v.map_values(|t: GanttTask| t@)
}

/// Copies of all tasks, section by section.
fn flatten_tasks(spec: &GanttSpec) -> (r: Vec<GanttTask>)
    ensures
        task_views(r@) == spec_flat_tasks(spec.sections@),
{
    let mut out: Vec<GanttTask> = Vec::new();
    let mut si: usize = 0;
    while si < spec.sections.len()
        invariant
            0 <= si <= spec.sections@.len(),
            task_views(out@) == spec_flat_tasks(spec.sections@.subrange(0, si as int)),
        decreases spec.sections@.len() - si,
    {
        let section = &spec.sections[si];
        let ghost before = out@;
        let mut ti: usize = 0;
        while ti < section.tasks.len()
            invariant
                0 <= ti <= section.tasks@.len(),
                section == &spec.sections@[si as int],
                task_views(out@) == task_views(before) + section.tasks@.subrange(0, ti as int).map_values(
                    |t: GanttTask| t@,
                ),
            decreases section.tasks@.len() - ti,
        {
            let copy = section.tasks[ti].duplicate();
            let ghost prev = out@;
            out.push(copy);
            assert(task_views(out@) =~= task_views(prev).push(section.tasks@[ti as int]@));
            assert(section.tasks@.subrange(0, ti + 1 as int).map_values(|t: GanttTask| t@) =~= section.tasks@.subrange(
                0,
                ti as int,
            ).map_values(|t: GanttTask| t@).push(section.tasks@[ti as int]@));
            assert(task_views(out@) =~= task_views(before) + section.tasks@.subrange(0, ti + 1 as int).map_values(
                |t: GanttTask| t@,
            ));
            ti = ti + 1;
        }
        assert(section.tasks@.subrange(0, ti as int) =~= section.tasks@);
        assert(spec.sections@.subrange(0, si + 1 as int).drop_last() =~= spec.sections@.subrange(0, si as int));
        si = si + 1;
    }
    assert(spec.sections@.subrange(0, si as int) =~= spec.sections@);
    out
}

fn same_text(a: &Option<String>, b: &String) -> (r: bool)
    ensures
        r == (opt_text_view(*a) == Some(b@)),
{
    match a {
        Some(x) => *x == *b,
        None => false,
    }
}

/// Index of the first task with this id, or -1.
fn index_of(tasks: &Vec<GanttTask>, id: &String) -> (r: i64)
    requires
        tasks@.len() < 0x7fff_ffff_ffff_ffff,
    ensures
        r == spec_index_of(task_views(tasks@), id@),
{
    let ghost ts = task_views(tasks@);
    proof {
        lemma_index_of(ts, id@);
    }
    let mut i: usize = 0;
    while i < tasks.len()
        invariant
            0 <= i <= tasks@.len(),
            ts == task_views(tasks@),
            tasks@.len() < 0x7fff_ffff_ffff_ffff,
            forall|k: int| 0 <= k < i ==> ts[k].id != Some(id@),
            -1 <= spec_index_of(ts, id@) < ts.len(),
            spec_index_of(ts, id@) >= 0 ==> ts[spec_index_of(ts, id@)].id == Some(id@),
            spec_index_of(ts, id@) >= 0 ==> forall|k: int| 0 <= k < spec_index_of(ts, id@) ==> ts[k].id != Some(id@),
            spec_index_of(ts, id@) < 0 ==> forall|k: int| 0 <= k < ts.len() ==> ts[k].id != Some(id@),
        decreases tasks@.len() - i,
    {
        if same_text(&tasks[i].id, id) {
            assert(ts[i as int].id == Some(id@));
            return i as i64;
        }
        i = i + 1;
    }
    -1
}

/// A copy of a task's name as errors report it.
fn task_name(task: &GanttTask) -> (r: String)
    ensures
        r@ == spec_task_name(task@),
{
    match &task.id {
        Some(id) => id.clone(),
        None => task.label.clone(),
    }
}

fn span_of(task: &GanttTask) -> (r: i64)
    ensures
        r == spec_span(task@),
{
    if task.milestone {
        1
    } else if task.duration.days < 1 {
        1
    } else {
        task.duration.days as i64
    }
}

/// The predecessor index of each task (-1 for tasks without an `after`), or the
/// first task whose dependency names no task.
fn predecessors(tasks: &Vec<GanttTask>) -> (r: Result<Vec<i64>, usize>)
    requires
        tasks@.len() < 0x7fff_ffff_ffff_ffff,
    ensures
        r matches Ok(p) ==> ({
            &&& p@.len() == tasks@.len()
            &&& forall|j: int| 0 <= j < tasks@.len() ==> !spec_is_missing(task_views(tasks@), j)
            &&& forall|j: int|
                0 <= j < tasks@.len() ==> (match task_views(tasks@)[j].start {
                    Some(GanttTaskStartView::After(dep)) => #[trigger] p@[j] == spec_index_of(task_views(tasks@), dep),
                    _ => p@[j] == -1,
                })
        }),
        r matches Err(j) ==> j < tasks@.len() && spec_is_missing(task_views(tasks@), j as int) && forall|k: int|
            0 <= k < j ==> !spec_is_missing(task_views(tasks@), k),
{
    let ghost ts = task_views(tasks@);
    let mut out: Vec<i64> = Vec::new();
    let mut j: usize = 0;
    while j < tasks.len()
        invariant
            0 <= j <= tasks@.len(),
            ts == task_views(tasks@),
            tasks@.len() < 0x7fff_ffff_ffff_ffff,
            out@.len() == j,
            forall|k: int| 0 <= k < j ==> !spec_is_missing(ts, k),
            forall|k: int|
                0 <= k < j ==> (match ts[k].start {
                    Some(GanttTaskStartView::After(dep)) => #[trigger] out@[k] == spec_index_of(ts, dep),
                    _ => out@[k] == -1,
                }),
        decreases tasks@.len() - j,
    {
        assert(ts[j as int] == tasks@[j as int]@);
        match &tasks[j].start {
            Some(GanttTaskStart::After(dep)) => {
                let p = index_of(tasks, dep);
                if p < 0 {
                    return Err(j);
                }
                out.push(p);
            },
            _ => {
                out.push(-1);
            },
        }
        j = j + 1;
    }
    Ok(out)
}

/// The first task whose id repeats an earlier one.
fn first_duplicate(tasks: &Vec<GanttTask>) -> (r: Option<usize>)
    ensures
        r matches Some(j) ==> j < tasks@.len() && spec_is_duplicate(task_views(tasks@), j as int) && forall|k: int|
            0 <= k < j ==> !spec_is_duplicate(task_views(tasks@), k),
        r is None ==> forall|k: int| 0 <= k < tasks@.len() ==> !spec_is_duplicate(task_views(tasks@), k),
{
    let ghost ts = task_views(tasks@);
    let mut j: usize = 0;
    while j < tasks.len()
        invariant
            0 <= j <= tasks@.len(),
            ts == task_views(tasks@),
            forall|k: int| 0 <= k < j ==> !spec_is_duplicate(ts, k),
        decreases tasks@.len() - j,
    {
        assert(ts[j as int] == tasks@[j as int]@);
        match &tasks[j].id {
            Some(id) => {
                let mut i: usize = 0;
                while i < j
                    invariant
                        0 <= i <= j < tasks@.len(),
                        ts == task_views(tasks@),
                        ts[j as int].id == Some(id@),
                        forall|k: int| 0 <= k < j ==> !spec_is_duplicate(ts, k),
                        forall|k: int| 0 <= k < i ==> ts[k].id != ts[j as int].id,
                    decreases j - i,
                {
                    assert(ts[i as int] == tasks@[i as int]@);
                    if same_text(&tasks[i].id, id) {
                        assert(ts[i as int].id == ts[j as int].id);
                        assert(spec_is_duplicate(ts, j as int));
                        return Some(j);
                    }
                    i = i + 1;
                }
            },
            None => {},
        }
        j = j + 1;
    }
    None
}

/// Start days of every task with `after` links followed at most `tasks.len()` times.
fn resolve_levels(tasks: &Vec<GanttTask>, preds: &Vec<i64>) -> (r: Vec<Option<i64>>)
    requires
        spec_dates_in_range(task_views(tasks@)),
        preds@.len() == tasks@.len(),
        forall|j: int|
            0 <= j < tasks@.len() ==> (match task_views(tasks@)[j].start {
                Some(GanttTaskStartView::After(dep)) => #[trigger] preds@[j] == spec_index_of(task_views(tasks@), dep),
                _ => preds@[j] == -1,
            }),
        forall|j: int| 0 <= j < tasks@.len() ==> !spec_is_missing(task_views(tasks@), j),
    ensures
        r@.len() == tasks@.len(),
        forall|i: int| 0 <= i < tasks@.len() ==> opt_int(#[trigger] r@[i]) == spec_resolve(task_views(tasks@), i, tasks@.len() as nat),
{
    let ghost ts = task_views(tasks@);
    let n = tasks.len();
    let mut vals: Vec<Option<i64>> = Vec::new();
    let mut i: usize = 0;
    while i < n
        invariant
            0 <= i <= n,
            n == tasks@.len(),
            vals@.len() == i,
            forall|k: int| 0 <= k < i ==> opt_int(#[trigger] vals@[k]) == spec_resolve(ts, k, 0),
        decreases n - i,
    {
        vals.push(None);
        i = i + 1;
    }
    let mut f: usize = 0;
    while f < n
        invariant
            0 <= f <= n,
            n == tasks@.len(),
            ts == task_views(tasks@),
            spec_dates_in_range(ts),
            preds@.len() == n,
            forall|j: int|
                0 <= j < n ==> (match ts[j].start {
                    Some(GanttTaskStartView::After(dep)) => #[trigger] preds@[j] == spec_index_of(ts, dep),
                    _ => preds@[j] == -1,
                }),
            forall|j: int| 0 <= j < n ==> !spec_is_missing(ts, j),
            vals@.len() == n,
            forall|k: int| 0 <= k < n ==> opt_int(#[trigger] vals@[k]) == spec_resolve(ts, k, f as nat),
        decreases n - f,
    {
        let mut next: Vec<Option<i64>> = Vec::new();
        let mut k: usize = 0;
        while k < n
            invariant
                0 <= k <= n,
                0 <= f < n,
                n == tasks@.len(),
                ts == task_views(tasks@),
                spec_dates_in_range(ts),
                preds@.len() == n,
                forall|j: int|
                    0 <= j < n ==> (match ts[j].start {
                        Some(GanttTaskStartView::After(dep)) => #[trigger] preds@[j] == spec_index_of(ts, dep),
                        _ => preds@[j] == -1,
                    }),
                forall|j: int| 0 <= j < n ==> !spec_is_missing(ts, j),
                vals@.len() == n,
                forall|q: int| 0 <= q < n ==> opt_int(#[trigger] vals@[q]) == spec_resolve(ts, q, f as nat),
                next@.len() == k,
                forall|q: int| 0 <= q < k ==> opt_int(#[trigger] next@[q]) == spec_resolve(ts, q, (f + 1) as nat),
            decreases n - k,
        {
            assert(ts[k as int] == tasks@[k as int]@);
            let v: Option<i64> = match &tasks[k].start {
                Some(GanttTaskStart::Date(d)) => Some(d.day_number()),
                Some(GanttTaskStart::After(_)) => {
                    let p = preds[k];
                    proof {
                        assert(preds@[k as int] == p);
                        let dep = ts[k as int].start->Some_0->After_0;
                        lemma_index_of(ts, dep);
                        assert(!spec_is_missing(ts, k as int));
                        assert(0 <= p < n);
                        assert(opt_int(vals@[p as int]) == spec_resolve(ts, p as int, f as nat));
                    }
                    match vals[p as usize] {
                        Some(sp) => {
                            proof {
                                lemma_resolve_bounds(ts, p as int, f as nat);
                                lemma_span_bounds(ts[p as int]);
                                assert(ts[p as int] == tasks@[p as int]@);
                            }
                            Some(sp + span_of(&tasks[p as usize]))
                        },
                        None => None,
                    }
                },
                None => None,
            };
            next.push(v);
            k = k + 1;
        }
        vals = next;
        f = f + 1;
    }
    vals
}

pub open spec fn idx_seq(v: Seq<usize>) -> Seq<int> {
    v.map_values(|x: usize| x as int)
}

pub open spec fn text_seq(v: Seq<String>) -> Seq<Seq<char>> {
    v.map_values(|x: String| x@)
}

/// The ids of `path[from..]` followed by the id of `path[from]` again.
fn cycle_names(tasks: &Vec<GanttTask>, path: &Vec<usize>, from: usize) -> (r: Vec<String>)
    requires
        from < path@.len(),
        forall|a: int| 0 <= a < path@.len() ==> #[trigger] path@[a] < tasks@.len(),
        forall|a: int| 0 <= a < path@.len() ==> task_views(tasks@)[#[trigger] path@[a] as int].id is Some,
    ensures
        r@.len() == path@.len() - from + 1,
        forall|a: int|
            0 <= a < path@.len() - from ==> Some(#[trigger] r@[a]@) == task_views(tasks@)[path@[from + a] as int].id,
        Some(r@.last()@) == task_views(tasks@)[path@[from as int] as int].id,
{
    let ghost ts = task_views(tasks@);
    let mut out: Vec<String> = Vec::new();
    let mut k: usize = from;
    while k < path.len()
        invariant
            from <= k <= path@.len(),
            out@.len() == k - from,
            ts == task_views(tasks@),
            forall|a: int| 0 <= a < path@.len() ==> #[trigger] path@[a] < tasks@.len(),
            forall|a: int| 0 <= a < path@.len() ==> ts[#[trigger] path@[a] as int].id is Some,
            forall|a: int| 0 <= a < k - from ==> Some(#[trigger] out@[a]@) == ts[path@[from + a] as int].id,
        decreases path@.len() - k,
    {
        assert(ts[path@[k as int] as int] == tasks@[path@[k as int] as int]@);
        let name = task_name(&tasks[path[k]]);
        out.push(name);
        k = k + 1;
    }
    assert(ts[path@[from as int] as int] == tasks@[path@[from as int] as int]@);
    let last = task_name(&tasks[path[from]]);
    out.push(last);
    out
}

/// The error for task `start`, which no number of `after` steps resolves:
/// the cycle its chain runs into, or the chain's task that has no start.
/// Where `x` first occurs in `v`.
fn position_of(v: &Vec<usize>, x: usize) -> (r: Option<usize>)
    ensures
        r matches Some(j) ==> j < v@.len() && v@[j as int] == x,
        r is None ==> forall|a: int| 0 <= a < v@.len() ==> v@[a] != x,
{
    let mut j: usize = 0;
    while j < v.len()
        invariant
            0 <= j <= v@.len(),
            forall|a: int| 0 <= a < j ==> v@[a] != x,
        decreases v@.len() - j,
    {
        if v[j] == x {
            return Some(j);
        }
        j = j + 1;
    }
    None
}

proof fn lemma_cycle_error(ts: Seq<GanttTaskView>, chain: Seq<int>, j: int, names: Seq<Seq<char>>, start: int)
    requires
        0 <= j < chain.len() - 1,
        chain[0] == start,
        chain[j] == chain.last(),
        forall|a: int| 0 <= a < chain.len() ==> 0 <= #[trigger] chain[a] < ts.len(),
        forall|a: int|
            0 <= a < chain.len() - 1 ==> (ts[#[trigger] chain[a]].start matches Some(GanttTaskStartView::After(dep))
                && spec_index_of(ts, dep) == chain[a + 1]),
        forall|a: int| 0 <= a < ts.len() ==> !spec_is_missing(ts, a),
        names.len() == chain.len() - j,
        forall|a: int| 0 <= a < chain.len() - 1 - j ==> Some(#[trigger] names[a]) == ts[chain[j + a]].id,
        Some(names.last()) == ts[chain[j]].id,
        chain.drop_last().no_duplicates(),
        forall|a: int| 0 <= a < ts.len() ==> !spec_is_duplicate(ts, a),
    ensures
        forall|f: nat| spec_resolve(ts, start, f) is None,
        spec_is_cycle(ts, names),
{
    assert forall|f: nat| #[trigger] spec_resolve(ts, start, f) is None by {
        let pre = chain.drop_last();
        assert forall|a: int| 0 <= a < pre.len() - 1 implies (ts[#[trigger] pre[a]].start matches Some(
            GanttTaskStartView::After(dep),
        ) && spec_index_of(ts, dep) == pre[a + 1]) by {
            assert(pre[a] == chain[a]);
        }
        assert(ts[pre.last()].start matches Some(GanttTaskStartView::After(dep)) && spec_index_of(ts, dep) == pre[j]);
        lemma_chain_unresolvable(ts, pre, j, f);
        assert(pre[0] == start);
    }
    assert forall|k: int| 0 <= k < names.len() - 1 implies exists|i: int|
        0 <= i < ts.len() && ts[i].id == Some(#[trigger] names[k]) && ts[i].start == Some(
            GanttTaskStartView::After(names[k + 1]),
        ) by {
        let i = chain[j + k];
        let dep = ts[i].start->Some_0->After_0;
        lemma_index_of(ts, dep);
        assert(!spec_is_missing(ts, i));
        assert(ts[i].id == Some(names[k]));
    }
    let body = names.drop_last();
    assert forall|a: int, b: int| 0 <= a < body.len() && 0 <= b < body.len() && a != b implies body[a]
        != body[b] by {
        let p = chain[j + a];
        let q = chain[j + b];
        assert(body[a] == names[a] && body[b] == names[b]);
        assert(chain.drop_last()[j + a] == p && chain.drop_last()[j + b] == q);
        if body[a] == body[b] {
            assert(ts[p].id == ts[q].id);
            if p < q {
                assert(spec_is_duplicate(ts, q));
            } else {
                assert(spec_is_duplicate(ts, p));
            }
        }
    }
}

fn unresolved_error(tasks: &Vec<GanttTask>, preds: &Vec<i64>, start: usize) -> (r: GanttError)
    requires
        start < tasks@.len(),
        task_views(tasks@)[start as int].id is Some,
        spec_resolve(task_views(tasks@), start as int, tasks@.len() as nat) is None,
        preds@.len() == tasks@.len(),
        forall|j: int|
            0 <= j < tasks@.len() ==> (match task_views(tasks@)[j].start {
                Some(GanttTaskStartView::After(dep)) => #[trigger] preds@[j] == spec_index_of(task_views(tasks@), dep),
                _ => preds@[j] == -1,
            }),
        forall|j: int| 0 <= j < tasks@.len() ==> !spec_is_missing(task_views(tasks@), j),
        forall|j: int| 0 <= j < tasks@.len() ==> !spec_is_duplicate(task_views(tasks@), j),
    ensures
        forall|f: nat| spec_resolve(task_views(tasks@), start as int, f) is None,
        r is CyclicDependency || r is UnresolvedStart,
        r matches GanttError::CyclicDependency(p) ==> spec_is_cycle(task_views(tasks@), text_seq(p@)),
        r matches GanttError::UnresolvedStart(x) ==> exists|i: int|
            0 <= i < tasks@.len() && task_views(tasks@)[i].id == Some(x@) && task_views(tasks@)[i].start is None,
{
    let ghost ts = task_views(tasks@);
    let n = tasks.len();
    let mut path: Vec<usize> = Vec::new();
    let mut cur: usize = start;
    loop
        invariant
            n == tasks@.len(),
            ts == task_views(tasks@),
            start < n,
            cur < n,
            ts[cur as int].id is Some,
            spec_resolve(ts, start as int, n as nat) is None,
            preds@.len() == n,
            forall|j: int|
                0 <= j < n ==> (match ts[j].start {
                    Some(GanttTaskStartView::After(dep)) => #[trigger] preds@[j] == spec_index_of(ts, dep),
                    _ => preds@[j] == -1,
                }),
            forall|j: int| 0 <= j < n ==> !spec_is_missing(ts, j),
            forall|j: int| 0 <= j < n ==> !spec_is_duplicate(ts, j),
            idx_seq(path@).no_duplicates(),
            forall|a: int| 0 <= a < path@.len() ==> #[trigger] path@[a] < n,
            forall|a: int| 0 <= a < path@.len() ==> ts[#[trigger] path@[a] as int].id is Some,
            path@.len() == 0 ==> cur == start,
            path@.len() > 0 ==> path@[0] == start,
            path@.len() > 0 ==> preds@[path@.last() as int] == cur as int,
            forall|a: int|
                0 <= a < path@.len() ==> (ts[#[trigger] path@[a] as int].start matches Some(
                    GanttTaskStartView::After(dep),
                ) && spec_index_of(ts, dep) == (if a + 1 < path@.len() { path@[a + 1] as int } else { cur as int })),
        decreases n - path@.len(),
    {
        let ghost chain = idx_seq(path@).push(cur as int);
        assert forall|a: int| 0 <= a < chain.len() - 1 implies (ts[#[trigger] chain[a]].start matches Some(
            GanttTaskStartView::After(dep),
        ) && spec_index_of(ts, dep) == chain[a + 1]) by {
            assert(chain[a] == path@[a] as int);
        }
        // Has the chain come back to a task it already passed?
        if let Some(j) = position_of(&path, cur) {
            let cycle = cycle_names(tasks, &path, j);
            proof {
                assert(chain.drop_last() =~= idx_seq(path@));
                lemma_cycle_error(ts, chain, j as int, text_seq(cycle@), start as int);
            }
            return GanttError::CyclicDependency(cycle);
        }
        assert(ts[cur as int] == tasks@[cur as int]@);
        match &tasks[cur].start {
            None => {
                proof {
                    assert forall|f: nat| #[trigger] spec_resolve(ts, start as int, f) is None by {
                        lemma_chain_unresolvable(ts, chain, 0, f);
                        assert(chain[0] == start);
                    }
                }
                return GanttError::UnresolvedStart(task_name(&tasks[cur]));
            },
            Some(GanttTaskStart::Date(_)) => {
                proof {
                    assert(chain.no_duplicates());
                    lemma_distinct_bound(chain, n as int);
                    lemma_chain_resolves(ts, chain, 0);
                    lemma_resolve_monotone(ts, start as int, chain.len() as nat, n as nat);
                }
                return GanttError::UnresolvedStart(task_name(&tasks[cur]));
            },
            Some(GanttTaskStart::After(_)) => {
                let p = preds[cur];
                proof {
                    let dep = ts[cur as int].start->Some_0->After_0;
                    lemma_index_of(ts, dep);
                    assert(!spec_is_missing(ts, cur as int));
                    assert(idx_seq(path@.push(cur)) =~= chain);
                    assert(chain.no_duplicates());
                    lemma_distinct_bound(chain, n as int);
                }
                path.push(cur);
                cur = p as usize;
            },
        }
    }
}

/// Index in the flattened task list of the first task of section `s`.
pub open spec fn spec_section_offset(sections: Seq<crate::gantt::GanttSection>, s: int) -> int {
    spec_flat_tasks(sections.subrange(0, s)).len() as int
}

proof fn lemma_flat_prefix(sections: Seq<crate::gantt::GanttSection>, s: int)
    requires
        0 <= s <= sections.len(),
    ensures
        spec_flat_tasks(sections.subrange(0, s)).len() <= spec_flat_tasks(sections).len(),
        forall|k: int|
            0 <= k < spec_flat_tasks(sections.subrange(0, s)).len() ==> #[trigger] spec_flat_tasks(sections)[k]
                == spec_flat_tasks(sections.subrange(0, s))[k],
    decreases sections.len() - s,
{
    if s < sections.len() {
        lemma_flat_prefix(sections, s + 1);
        assert(sections.subrange(0, s + 1).drop_last() =~= sections.subrange(0, s));
    } else {
        assert(sections.subrange(0, s) =~= sections);
    }
}

proof fn lemma_flat_section(sections: Seq<crate::gantt::GanttSection>, s: int, t: int)
    requires
        0 <= s < sections.len(),
        0 <= t < sections[s].tasks@.len(),
    ensures
        spec_section_offset(sections, s) + t < spec_flat_tasks(sections).len(),
        spec_flat_tasks(sections)[spec_section_offset(sections, s) + t] == sections[s].tasks@[t]@,
        spec_section_offset(sections, s + 1) == spec_section_offset(sections, s) + sections[s].tasks@.len(),
{
    lemma_flat_prefix(sections, s + 1);
    assert(sections.subrange(0, s + 1).drop_last() =~= sections.subrange(0, s));
}

proof fn lemma_flat_section_len(sections: Seq<crate::gantt::GanttSection>, s: int)
    requires
        0 <= s < sections.len(),
    ensures
        spec_section_offset(sections, s + 1) == spec_section_offset(sections, s) + sections[s].tasks@.len(),
{
    assert(sections.subrange(0, s + 1).drop_last() =~= sections.subrange(0, s));
}

/// What a task resolves to: start day, exclusive end day, and both dates.
pub open spec fn spec_resolved_ok(ts: Seq<GanttTaskView>, k: int, r: ResolvedGanttTask) -> bool {
    let n = ts.len();
    &&& r.task@ == ts[k]
    &&& spec_resolve(ts, k, (n + 1) as nat) == Some(r.start_day as int)
    &&& r.end_day_exclusive == r.start_day + spec_span(ts[k])
    &&& min_day_number() <= r.start_day <= max_day_number()
    &&& r.start.spec_day_number() == r.start_day
    &&& (ts[k].start matches Some(GanttTaskStartView::Date(d)) ==> r.start == d)
    &&& (ts[k].start matches Some(GanttTaskStartView::After(_)) ==> r.start.is_valid())
    &&& r.end.is_valid() && r.end.spec_day_number() == r.end_day_exclusive - 1
}

/// What resolving `spec` gives: see [`resolve_gantt_spec`].
pub open spec fn spec_resolve_outcome(spec: GanttSpec, r: Result<Vec<ResolvedGanttSection>, GanttError>) -> bool {
    let ts = spec_flat_tasks(spec.sections@);
    let n = ts.len();
    let dup = exists|j: int| 0 <= j < n && spec_is_duplicate(ts, j);
    let missing = exists|j: int| 0 <= j < n && spec_is_missing(ts, j);
    let stuck = exists|i: int|
        0 <= i < n && ts[i].id is Some && spec_resolve(ts, i, (n + 1) as nat) is None;
    let unstarted = exists|i: int| 0 <= i < n && ts[i].id is None && ts[i].start is None;
    &&& dup <==> (r matches Err(GanttError::DuplicateTaskId(_)))
    &&& (r matches Err(GanttError::DuplicateTaskId(id)) ==> exists|j: int|
        0 <= j < n && spec_is_duplicate(ts, j) && ts[j].id == Some(id@) && forall|k: int|
            0 <= k < j ==> !spec_is_duplicate(ts, k))
    &&& !dup ==> (missing <==> (r matches Err(GanttError::MissingDependency { .. })))
    &&& (r matches Err(GanttError::MissingDependency { task, dependency }) ==> exists|j: int|
        0 <= j < n && spec_is_missing(ts, j) && spec_task_name(ts[j]) == task@ && ts[j].start
            == Some(GanttTaskStartView::After(dependency@)) && forall|k: int|
            0 <= k < j ==> !spec_is_missing(ts, k))
    &&& (!dup && !missing && stuck) ==> (r is Err && (r->Err_0 is CyclicDependency || (r->Err_0 matches GanttError::UnresolvedStart(x) && exists|i: int|
        0 <= i < n && ts[i].id == Some(x@) && ts[i].start is None)))
    &&& (r matches Err(GanttError::CyclicDependency(p)) ==> spec_is_cycle(ts, text_seq(p@)))
    &&& (!dup && !missing && !stuck && unstarted) ==> (r matches Err(GanttError::UnresolvedStart(x)) && exists|i: int|
        0 <= i < n && ts[i].id is None && ts[i].start is None && ts[i].label == x@ && forall|k: int|
            0 <= k < i ==> !(ts[k].id is None && ts[k].start is None))
    &&& r is Ok <==> (!dup && !missing && !stuck && !unstarted)
    &&& (r matches Ok(out) ==> {
        &&& out@.len() == spec.sections@.len()
        &&& forall|s: int|
            0 <= s < out@.len() ==> {
                &&& (#[trigger] out@[s]).title@ == spec.sections@[s].title@
                &&& out@[s].tasks@.len() == spec.sections@[s].tasks@.len()
                &&& forall|t: int|
                    0 <= t < out@[s].tasks@.len() ==> spec_resolved_ok(
                        ts,
                        spec_section_offset(spec.sections@, s) + t,
                        #[trigger] out@[s].tasks@[t],
                    )
            }
    })

}

/// Resolves every task's dates.
///
/// Errors, in the order they are looked for: the first task (section by
/// section) whose id repeats an earlier one; the first task depending on an id
/// no task has; a task with an id whose `after` chain never reaches a dated
/// task (reported as the cycle it runs into, or the chain's task without a
/// start); the first task without an id and without a start.
pub fn resolve_gantt_spec(spec: &GanttSpec) -> (r: Result<Vec<ResolvedGanttSection>, GanttError>)
    requires
        spec_dates_in_range(spec_flat_tasks(spec.sections@)),
        spec_flat_tasks(spec.sections@).len() < 0x1_0000_0000,
    ensures
        spec_resolve_outcome(*spec, r),
{
    let tasks = flatten_tasks(spec);
    let ghost ts = task_views(tasks@);
    let n = tasks.len();
    if let Some(j) = first_duplicate(&tasks) {
        let id = clone_opt_string(&tasks[j].id);
        assert(ts[j as int] == tasks@[j as int]@);
        return match id {
            Some(id) => Err(GanttError::DuplicateTaskId(id)),
            None => Err(GanttError::DuplicateTaskId(String::new())),
        };
    }
    let preds = match predecessors(&tasks) {
        Ok(p) => p,
        Err(j) => {
            assert(ts[j as int] == tasks@[j as int]@);
            let name = task_name(&tasks[j]);
            let dep = match &tasks[j].start {
                Some(GanttTaskStart::After(d)) => d.clone(),
                _ => String::new(),
            };
            return Err(GanttError::MissingDependency { task: name, dependency: dep });
        },
    };
    let vals = resolve_levels(&tasks, &preds);
    // tasks with ids whose chain never reaches a date
    let mut i: usize = 0;
    while i < n
        invariant
            0 <= i <= n,
            n == tasks@.len(),
            ts == task_views(tasks@),
            ts == spec_flat_tasks(spec.sections@),
            forall|a: int| 0 <= a < n ==> !spec_is_duplicate(ts, a),
            forall|a: int| 0 <= a < n ==> !spec_is_missing(ts, a),
            preds@.len() == n,
            forall|j: int|
                0 <= j < n ==> (match ts[j].start {
                    Some(GanttTaskStartView::After(dep)) => #[trigger] preds@[j] == spec_index_of(ts, dep),
                    _ => preds@[j] == -1,
                }),
            vals@.len() == n,
            forall|q: int| 0 <= q < n ==> opt_int(#[trigger] vals@[q]) == spec_resolve(ts, q, n as nat),
            forall|q: int| 0 <= q < i ==> ts[q].id is Some ==> vals@[q] is Some,
        decreases n - i,
    {
        assert(ts[i as int] == tasks@[i as int]@);
        if tasks[i].id.is_some() && vals[i].is_none() {
            assert(opt_int(vals@[i as int]) == spec_resolve(ts, i as int, n as nat));
            let e = unresolved_error(&tasks, &preds, i);
            proof {
                assert(spec_resolve(ts, i as int, (n + 1) as nat) is None);
            }
            return Err(e);
        }
        i = i + 1;
    }
    // one more step gives every task, with or without id, its start
    let mut finals: Vec<Option<i64>> = Vec::new();
    let mut k: usize = 0;
    while k < n
        invariant
            0 <= k <= n,
            n == tasks@.len(),
            ts == task_views(tasks@),
            spec_dates_in_range(ts),
            vals@.len() == n,
            preds@.len() == n,
            forall|j: int|
                0 <= j < n ==> (match ts[j].start {
                    Some(GanttTaskStartView::After(dep)) => #[trigger] preds@[j] == spec_index_of(ts, dep),
                    _ => preds@[j] == -1,
                }),
            forall|j: int| 0 <= j < n ==> !spec_is_missing(ts, j),
            forall|q: int| 0 <= q < n ==> opt_int(#[trigger] vals@[q]) == spec_resolve(ts, q, n as nat),
            forall|q: int| 0 <= q < n ==> ts[q].id is Some ==> vals@[q] is Some,
            finals@.len() == k,
            forall|q: int| 0 <= q < k ==> opt_int(#[trigger] finals@[q]) == spec_resolve(ts, q, (n + 1) as nat),
        decreases n - k,
    {
        assert(ts[k as int] == tasks@[k as int]@);
        let v: Option<i64> = match &tasks[k].start {
            Some(GanttTaskStart::Date(d)) => Some(d.day_number()),
            Some(GanttTaskStart::After(_)) => {
                let p = preds[k];
                proof {
                    assert(preds@[k as int] == p);
                    let dep = ts[k as int].start->Some_0->After_0;
                    lemma_index_of(ts, dep);
                    assert(!spec_is_missing(ts, k as int));
                    assert(0 <= p < n);
                    assert(ts[p as int].id is Some);
                    assert(opt_int(vals@[p as int]) == spec_resolve(ts, p as int, n as nat));
                    lemma_resolve_bounds(ts, p as int, n as nat);
                    lemma_span_bounds(ts[p as int]);
                    assert(ts[p as int] == tasks@[p as int]@);
                }
                match vals[p as usize] {
                    Some(sp) => Some(sp + span_of(&tasks[p as usize])),
                    None => None,
                }
            },
            None => None,
        };
        finals.push(v);
        k = k + 1;
    }
    // the first task without id and without start
    let mut q: usize = 0;
    while q < n
        invariant
            0 <= q <= n,
            n == tasks@.len(),
            ts == task_views(tasks@),
            ts == spec_flat_tasks(spec.sections@),
            forall|a: int| 0 <= a < n ==> !spec_is_duplicate(ts, a),
            forall|a: int| 0 <= a < n ==> !spec_is_missing(ts, a),
            preds@.len() == n,
            forall|j: int|
                0 <= j < n ==> (match ts[j].start {
                    Some(GanttTaskStartView::After(dep)) => #[trigger] preds@[j] == spec_index_of(ts, dep),
                    _ => preds@[j] == -1,
                }),
            finals@.len() == n,
            vals@.len() == n,
            forall|a: int| 0 <= a < n ==> opt_int(#[trigger] finals@[a]) == spec_resolve(ts, a, (n + 1) as nat),
            forall|a: int| 0 <= a < n ==> opt_int(#[trigger] vals@[a]) == spec_resolve(ts, a, n as nat),
            forall|a: int| 0 <= a < n ==> ts[a].id is Some ==> vals@[a] is Some,
            forall|a: int| 0 <= a < q ==> finals@[a] is Some,
            forall|a: int| 0 <= a < q ==> !(ts[a].id is None && ts[a].start is None),
        decreases n - q,
    {
        assert(ts[q as int] == tasks@[q as int]@);
        if finals[q].is_none() {
            proof {
                assert(opt_int(finals@[q as int]) == spec_resolve(ts, q as int, (n + 1) as nat));
                if ts[q as int].id is Some {
                    assert(opt_int(vals@[q as int]) == spec_resolve(ts, q as int, n as nat));
                    lemma_resolve_monotone(ts, q as int, n as nat, (n + 1) as nat);
                }
                match ts[q as int].start {
                    Some(GanttTaskStartView::After(dep)) => {
                        lemma_index_of(ts, dep);
                        assert(!spec_is_missing(ts, q as int));
                        let p = spec_index_of(ts, dep);
                        assert(opt_int(vals@[p]) == spec_resolve(ts, p, n as nat));
                    },
                    _ => {},
                }
                assert forall|a: int| 0 <= a < n && ts[a].id is Some implies spec_resolve(ts, a, (n + 1) as nat) is Some by {
                    assert(opt_int(vals@[a]) == spec_resolve(ts, a, n as nat));
                    lemma_resolve_monotone(ts, a, n as nat, (n + 1) as nat);
                }
            }
            let label = tasks[q].label.clone();
            return Err(GanttError::UnresolvedStart(label));
        }
        proof {
            if ts[q as int].id is None && ts[q as int].start is None {
                assert(opt_int(finals@[q as int]) == spec_resolve(ts, q as int, (n + 1) as nat));
            }
        }
        q = q + 1;
    }
    proof {
        assert forall|a: int| 0 <= a < n && ts[a].id is Some implies spec_resolve(ts, a, (n + 1) as nat) is Some by {
            assert(opt_int(vals@[a]) == spec_resolve(ts, a, n as nat));
            lemma_resolve_monotone(ts, a, n as nat, (n + 1) as nat);
        }
    }
    build_sections(spec, &tasks, &finals)
}

/// Assembles the resolved sections from the start day of each flattened task.
fn build_sections(spec: &GanttSpec, tasks: &Vec<GanttTask>, finals: &Vec<Option<i64>>) -> (r: Result<
    Vec<ResolvedGanttSection>,
    GanttError,
>)
    requires
        task_views(tasks@) == spec_flat_tasks(spec.sections@),
        spec_dates_in_range(task_views(tasks@)),
        finals@.len() == tasks@.len(),
        forall|a: int|
            0 <= a < tasks@.len() ==> opt_int(#[trigger] finals@[a]) == spec_resolve(
                task_views(tasks@),
                a,
                (tasks@.len() + 1) as nat,
            ),
        forall|a: int| 0 <= a < tasks@.len() ==> finals@[a] is Some,
    ensures
        r matches Ok(out) ==> {
            &&& out@.len() == spec.sections@.len()
            &&& forall|s: int|
                0 <= s < out@.len() ==> {
                    &&& (#[trigger] out@[s]).title@ == spec.sections@[s].title@
                    &&& out@[s].tasks@.len() == spec.sections@[s].tasks@.len()
                    &&& forall|t: int|
                        0 <= t < out@[s].tasks@.len() ==> spec_resolved_ok(
                            task_views(tasks@),
                            spec_section_offset(spec.sections@, s) + t,
                            #[trigger] out@[s].tasks@[t],
                        )
                }
        },
        r is Ok,
{
    let ghost ts = task_views(tasks@);
    let n = tasks.len();
    let mut out: Vec<ResolvedGanttSection> = Vec::new();
    let mut k: usize = 0;
    let mut si: usize = 0;
    assert(spec.sections@.subrange(0, 0) =~= Seq::<crate::gantt::GanttSection>::empty());
    while si < spec.sections.len()
        invariant
            0 <= si <= spec.sections@.len(),
            ts == task_views(tasks@),
            ts == spec_flat_tasks(spec.sections@),
            spec_dates_in_range(ts),
            n == tasks@.len(),
            finals@.len() == n,
            forall|a: int| 0 <= a < n ==> opt_int(#[trigger] finals@[a]) == spec_resolve(ts, a, (n + 1) as nat),
            forall|a: int| 0 <= a < n ==> finals@[a] is Some,
            k == spec_section_offset(spec.sections@, si as int),
            out@.len() == si,
            forall|s: int|
                0 <= s < si ==> {
                    &&& (#[trigger] out@[s]).title@ == spec.sections@[s].title@
                    &&& out@[s].tasks@.len() == spec.sections@[s].tasks@.len()
                    &&& forall|t: int|
                        0 <= t < out@[s].tasks@.len() ==> spec_resolved_ok(
                            ts,
                            spec_section_offset(spec.sections@, s) + t,
                            #[trigger] out@[s].tasks@[t],
                        )
                },
        decreases spec.sections@.len() - si,
    {
        let section = &spec.sections[si];
        let mut rtasks: Vec<ResolvedGanttTask> = Vec::new();
        let mut ti: usize = 0;
        proof {
            lemma_flat_section_len(spec.sections@, si as int);
            lemma_flat_prefix(spec.sections@, si as int + 1);
        }
        while ti < section.tasks.len()
            invariant
                0 <= ti <= section.tasks@.len(),
                section == &spec.sections@[si as int],
                si < spec.sections@.len(),
                ts == task_views(tasks@),
                ts == spec_flat_tasks(spec.sections@),
                spec_dates_in_range(ts),
                n == tasks@.len(),
                finals@.len() == n,
                forall|a: int| 0 <= a < n ==> opt_int(#[trigger] finals@[a]) == spec_resolve(ts, a, (n + 1) as nat),
                forall|a: int| 0 <= a < n ==> finals@[a] is Some,
                k == spec_section_offset(spec.sections@, si as int),
                k + section.tasks@.len() <= n,
                rtasks@.len() == ti,
                forall|t: int| 0 <= t < ti ==> spec_resolved_ok(ts, k + t, #[trigger] rtasks@[t]),
            decreases section.tasks@.len() - ti,
        {
            proof {
                lemma_flat_section(spec.sections@, si as int, ti as int);
            }
            let idx = k + ti;
            let start_day = match finals[idx] {
                Some(v) => v,
                None => 0,
            };
            proof {
                assert(opt_int(finals@[idx as int]) == spec_resolve(ts, idx as int, (n + 1) as nat));
                lemma_resolve_bounds(ts, idx as int, (n + 1) as nat);
                lemma_span_bounds(ts[idx as int]);
                assert(ts[idx as int] == section.tasks@[ti as int]@);
            }
            let span = span_of(&section.tasks[ti]);
            let end_excl = start_day + span;
            let start = match &section.tasks[ti].start {
                Some(GanttTaskStart::Date(d)) => *d,
                _ => GanttDate::from_day_number(start_day),
            };
            let end = GanttDate::from_day_number(end_excl - 1);
            let task = section.tasks[ti].duplicate();
            rtasks.push(ResolvedGanttTask { task, start, end, start_day, end_day_exclusive: end_excl });
            ti = ti + 1;
        }
        out.push(ResolvedGanttSection { title: section.title.clone(), tasks: rtasks });
        k = k + ti;
        si = si + 1;
    }
    Ok(out)
}

/// Resolved tasks keep their dates consistent: a task lasts one day when it
/// is a milestone and its duration (at least one day) otherwise; a task with
/// a fixed start begins on that date; a task that comes after another begins
/// the day after that one ends (on its exclusive end), the other being the
/// first task carrying the named id; and a task's last day is the day before
/// its exclusive end.
pub proof fn law_resolved_dates(ts: Seq<GanttTaskView>, k: int, rk: ResolvedGanttTask, p: int, rp: ResolvedGanttTask)
    requires
        0 <= k < ts.len(),
        0 <= p < ts.len(),
        spec_resolved_ok(ts, k, rk),
        spec_resolved_ok(ts, p, rp),
    ensures
        rk.end_day_exclusive == rk.start_day + (if ts[k].milestone {
            1int
        } else if ts[k].duration < 1 {
            1int
        } else {
            ts[k].duration as int
        }),
        ts[k].start matches Some(GanttTaskStartView::Date(d)) ==> rk.start == d && rk.start_day == d.spec_day_number(),
        (ts[k].start matches Some(GanttTaskStartView::After(dep)) && ts[p].id == Some(dep) && forall|q: int|
            0 <= q < p ==> ts[q].id != Some(dep)) ==> rk.start_day == rp.end_day_exclusive,
        rk.end.spec_day_number() == rk.end_day_exclusive - 1,
        rk.start.spec_day_number() == rk.start_day,
{
    let n = ts.len();
    if let Some(GanttTaskStartView::After(dep)) = ts[k].start {
        if ts[p].id == Some(dep) && forall|q: int| 0 <= q < p ==> ts[q].id != Some(dep) {
            lemma_index_of(ts, dep);
            let pi = spec_index_of(ts, dep);
            if pi < p {
                assert(ts[pi].id != Some(dep));
            }
            assert(pi == p);
            lemma_resolve_monotone(ts, p, n as nat, (n + 1) as nat);
        }
    }
}

} // verus!
