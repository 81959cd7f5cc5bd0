//! Gantt diagram model: dates, tasks, sections and the diagram widget.

use vstd::prelude::*;

use crate::gantt_date::{
    civil_from_days, days_from_civil, is_valid_date, max_day_number, min_day_number, spec_day_number,
    spec_days_in_month, spec_valid_date,
};
use crate::style::{Color, Length, Padding, Style};
use crate::text::{decimal_digits, find_char, is_digit, lemma_decimal_digits_value, parse_unsigned, push_signed_zero_padded, push_zero_padded, signed_zero_padded, spec_find, spec_parse_unsigned, zero_padded};

verus! {

/// A calendar date in the proleptic Gregorian calendar.
#[derive(Clone, Copy, Debug, PartialEq, Eq, Structural, Hash)]
pub struct GanttDate {
    pub year: i32,
    pub month: u8,
    pub day: u8,
}

/// Errors found while reading or resolving a Gantt specification.
#[derive(Clone, Debug, PartialEq, Eq)]
pub enum GanttError {
    InvalidDate(String),
    MissingDependency { task: String, dependency: String },
    DuplicateTaskId(String),
    CyclicDependency(Vec<String>),
    UnresolvedStart(String),
}

/// The date a `YYYY-MM-DD` string names, if it names one.
pub open spec fn spec_parse_ymd(s: Seq<char>) -> Option<GanttDate> {
    let i = spec_find(s, '-', 0);
    let j = spec_find(s, '-', i + 1);
    let k = spec_find(s, '-', j + 1);
    if i >= s.len() || j >= s.len() || k < s.len() {
        None
    } else {
        let y = spec_parse_unsigned(s.subrange(0, i), i32::MAX as int);
        let m = spec_parse_unsigned(s.subrange(i + 1, j), u8::MAX as int);
        let d = spec_parse_unsigned(s.subrange(j + 1, s.len() as int), u8::MAX as int);
        if y is Some && m is Some && d is Some && spec_valid_date(y->0, m->0, d->0) {
            Some(GanttDate { year: y->0 as i32, month: m->0 as u8, day: d->0 as u8 })
        } else {
            None
        }
    }
}

/// `YYYY-MM-DD`, zero-padded, with the sign counted in the year's width.
pub open spec fn spec_ymd_text(d: GanttDate) -> Seq<char> {
    signed_zero_padded(d.year as int, 4) + seq!['-'] + zero_padded(d.month as nat, 2) + seq!['-'] + zero_padded(
        d.day as nat,
        2,
    )
}

impl GanttDate {
    pub open spec fn spec_day_number(self) -> int {
        spec_day_number(self.year as int, self.month as int, self.day as int)
    }

    pub open spec fn is_valid(self) -> bool {
        spec_valid_date(self.year as int, self.month as int, self.day as int)
    }

    /// A date from its parts, unchecked.
    pub fn new(year: i32, month: u8, day: u8) -> (r: Self)
        ensures
            r == (GanttDate { year, month, day }),
    {
        GanttDate { year, month, day }
    }

    /// Parses `YYYY-MM-DD`; the error carries the input.
    pub fn parse_ymd(input: &str) -> (r: Result<Self, GanttError>)
        ensures
            r matches Ok(d) ==> spec_parse_ymd(input@) == Some(d),
            r is Err ==> spec_parse_ymd(input@) is None,
            r matches Err(e) ==> (e matches GanttError::InvalidDate(t) && t@ == input@),
    {
        let n = input.unicode_len();
        let i = find_char(input, '-', 0);
        if i >= n {
            return Err(GanttError::InvalidDate(String::from_str(input)));
        }
        let j = find_char(input, '-', i + 1);
        if j >= n {
            return Err(GanttError::InvalidDate(String::from_str(input)));
        }
        let k = find_char(input, '-', j + 1);
        if k < n {
            return Err(GanttError::InvalidDate(String::from_str(input)));
        }
        let y = parse_unsigned(input, 0, i, 2147483647);
        let m = parse_unsigned(input, i + 1, j, 255);
        let d = parse_unsigned(input, j + 1, n, 255);
        match (y, m, d) {
            (Some(y), Some(m), Some(d)) => {
                if is_valid_date(y as i32, m as u8, d as u8) {
                    Ok(GanttDate { year: y as i32, month: m as u8, day: d as u8 })
                } else {
                    Err(GanttError::InvalidDate(String::from_str(input)))
                }
            },
            _ => Err(GanttError::InvalidDate(String::from_str(input))),
        }
    }

    /// `YYYY-MM-DD`, as the date is displayed.
    pub fn to_string(&self) -> (r: String)
        ensures
            r@ == spec_ymd_text(*self),
    {
        let mut out = String::new();
        push_signed_zero_padded(&mut out, self.year as i64, 4);
        proof {
            reveal_strlit("-");
        }
        out.append("-");
        push_zero_padded(&mut out, self.month as u64, 2);
        out.append("-");
        push_zero_padded(&mut out, self.day as u64, 2);
        out
    }

    /// Days since 1970-01-01 (negative before).
    pub fn day_number(self) -> (r: i64)
        ensures
            r == self.spec_day_number(),
    {
        days_from_civil(self.year, self.month, self.day)
    }

    /// The date `days` days after 1970-01-01.
    pub fn from_day_number(days: i64) -> (r: Self)
        requires
            min_day_number() <= days <= max_day_number(),
        ensures
            r.is_valid(),
            r.spec_day_number() == days,
    {
        let (year, month, day) = civil_from_days(days);
        GanttDate { year, month, day }
    }

    /// The date `days` days later (earlier when negative).
    pub fn add_days(self, days: i64) -> (r: Self)
        requires
            min_day_number() <= self.spec_day_number() + days <= max_day_number(),
        ensures
            r.is_valid(),
            r.spec_day_number() == self.spec_day_number() + days,
    {
        Self::from_day_number(self.day_number() + days)
    }
}

/// How a task's start is determined.
#[derive(Clone, Debug, PartialEq, Eq)]
pub enum GanttTaskStart {
    /// Starts on a fixed date.
    Date(GanttDate),
    /// Starts the day after the task with this id ends.
    After(String),
}

/// Model of a task start, with text as characters.
pub enum GanttTaskStartView {
    Date(GanttDate),
    After(Seq<char>),
}

impl View for GanttTaskStart {
    type V = GanttTaskStartView;

    open spec fn view(&self) -> GanttTaskStartView {
        match self {
            GanttTaskStart::Date(d) => GanttTaskStartView::Date(*d),
            GanttTaskStart::After(id) => GanttTaskStartView::After(id@),
        }
    }
}

/// A task's length in days.
#[derive(Clone, Copy, Debug, PartialEq, Eq, Structural, Hash)]
pub struct GanttDuration {
    pub days: u32,
}

impl GanttDuration {
    /// A duration of `days` days.
    pub fn days(days: u32) -> (r: Self)
        ensures
            r.days == days,
    {
        GanttDuration { days }
    }
}

/// Progress state of a task, which picks its bar glyph and colour.
#[derive(Clone, Copy, Debug, PartialEq, Eq, Structural, Hash)]
pub enum GanttTaskStatus {
    Pending,
    Active,
    Done,
    Critical,
}

/// One bar of the chart.
#[derive(Clone, Debug, PartialEq, Eq)]
pub struct GanttTask {
    pub id: Option<String>,
    pub label: String,
    pub start: Option<GanttTaskStart>,
    pub duration: GanttDuration,
    pub status: GanttTaskStatus,
    pub milestone: bool,
}

/// Model of a task.
pub struct GanttTaskView {
    pub id: Option<Seq<char>>,
    pub label: Seq<char>,
    pub start: Option<GanttTaskStartView>,
    pub duration: u32,
    pub status: GanttTaskStatus,
    pub milestone: bool,
}

pub open spec fn opt_text_view(s: Option<String>) -> Option<Seq<char>> {
    match s {
        Some(t) => Some(t@),
        None => None,
    }
}

pub open spec fn opt_start_view(s: Option<GanttTaskStart>) -> Option<GanttTaskStartView> {
    match s {
        Some(t) => Some(t@),
        None => None,
    }
}

impl View for GanttTask {
    type V = GanttTaskView;

    open spec fn view(&self) -> GanttTaskView {
        GanttTaskView {
            id: opt_text_view(self.id),
            label: self.label@,
            start: opt_start_view(self.start),
            duration: self.duration.days,
            status: self.status,
            milestone: self.milestone,
        }
    }
}

/// A copy of `s` with the same text.
pub fn clone_opt_string(s: &Option<String>) -> (r: Option<String>)
    ensures
        opt_text_view(r) == opt_text_view(*s),
{
    match s {
        Some(t) => Some(t.clone()),
        None => None,
    }
}

impl GanttTaskStart {
    /// A copy with the same model.
    pub fn duplicate(&self) -> (r: Self)
        ensures
            r@ == self@,
    {
        match self {
            GanttTaskStart::Date(d) => GanttTaskStart::Date(*d),
            GanttTaskStart::After(id) => GanttTaskStart::After(id.clone()),
        }
    }
}

impl GanttTask {
    /// A one-day pending task with this label and no start yet.
    pub fn new(label: &str) -> (r: Self)
        ensures
            r@ == (GanttTaskView {
                id: None,
                label: label@,
                start: None,
                duration: 1,
                status: GanttTaskStatus::Pending,
                milestone: false,
            }),
    {
        GanttTask {
            id: None,
            label: String::from_str(label),
            start: None,
            duration: GanttDuration::days(1),
            status: GanttTaskStatus::Pending,
            milestone: false,
        }
    }

    /// A copy with the same model.
    pub fn duplicate(&self) -> (r: Self)
        ensures
            r@ == self@,
    {
        GanttTask {
            id: clone_opt_string(&self.id),
            label: self.label.clone(),
            start: match &self.start {
                Some(s) => Some(s.duplicate()),
                None => None,
            },
            duration: self.duration,
            status: self.status,
            milestone: self.milestone,
        }
    }

    /// Gives the task an id other tasks can depend on.
    pub fn id(self, id: &str) -> (r: Self)
        ensures
            r@ == (GanttTaskView { id: Some(id@), ..self@ }),
    {
        GanttTask { id: Some(String::from_str(id)), ..self }
    }

    /// Starts the task on a fixed date.
    pub fn start_date(self, date: GanttDate) -> (r: Self)
        ensures
            r@ == (GanttTaskView { start: Some(GanttTaskStartView::Date(date)), ..self@ }),
    {
        GanttTask { start: Some(GanttTaskStart::Date(date)), ..self }
    }

    /// Starts the task the day after task `id` ends.
    pub fn after(self, id: &str) -> (r: Self)
        ensures
            r@ == (GanttTaskView { start: Some(GanttTaskStartView::After(id@)), ..self@ }),
    {
        GanttTask { start: Some(GanttTaskStart::After(String::from_str(id))), ..self }
    }

    /// Sets the length.
    pub fn duration(self, duration: GanttDuration) -> (r: Self)
        ensures
            r@ == (GanttTaskView { duration: duration.days, ..self@ }),
    {
        GanttTask { duration, ..self }
    }

    /// Sets the length in days.
    pub fn duration_days(self, days: u32) -> (r: Self)
        ensures
            r@ == (GanttTaskView { duration: days, ..self@ }),
    {
        GanttTask { duration: GanttDuration::days(days), ..self }
    }

    /// Sets the status.
    pub fn status(self, status: GanttTaskStatus) -> (r: Self)
        ensures
            r@ == (GanttTaskView { status, ..self@ }),
    {
        GanttTask { status, ..self }
    }

    /// Marks the task pending.
    pub fn pending(self) -> (r: Self)
        ensures
            r@ == (GanttTaskView { status: GanttTaskStatus::Pending, ..self@ }),
    {
        GanttTask { status: GanttTaskStatus::Pending, ..self }
    }

    /// Marks the task active.
    pub fn active(self) -> (r: Self)
        ensures
            r@ == (GanttTaskView { status: GanttTaskStatus::Active, ..self@ }),
    {
        GanttTask { status: GanttTaskStatus::Active, ..self }
    }

    /// Marks the task done.
    pub fn done(self) -> (r: Self)
        ensures
            r@ == (GanttTaskView { status: GanttTaskStatus::Done, ..self@ }),
    {
        GanttTask { status: GanttTaskStatus::Done, ..self }
    }

    /// Marks the task critical.
    pub fn critical(self) -> (r: Self)
        ensures
            r@ == (GanttTaskView { status: GanttTaskStatus::Critical, ..self@ }),
    {
        GanttTask { status: GanttTaskStatus::Critical, ..self }
    }

    /// Turns the task into a zero-length milestone.
    pub fn milestone(self) -> (r: Self)
        ensures
            r@ == (GanttTaskView { milestone: true, duration: 0, ..self@ }),
    {
        GanttTask { milestone: true, duration: GanttDuration::days(0), ..self }
    }
}

/// A titled group of tasks.
#[derive(Clone, Debug, PartialEq, Eq)]
pub struct GanttSection {
    pub title: String,
    pub tasks: Vec<GanttTask>,
}

impl GanttSection {
    /// An empty section.
    pub fn new(title: &str) -> (r: Self)
        ensures
            r.title@ == title@,
            r.tasks@.len() == 0,
    {
        GanttSection { title: String::from_str(title), tasks: Vec::new() }
    }

    /// Appends a task.
    pub fn task(self, task: GanttTask) -> (r: Self)
        ensures
            r.title@ == self.title@,
            r.tasks@ == self.tasks@.push(task),
    {
        let mut s = self;
        s.tasks.push(task);
        s
    }
}

/// The whole chart: an optional title and its sections.
#[derive(Clone, Debug, PartialEq, Eq)]
pub struct GanttSpec {
    pub title: Option<String>,
    pub sections: Vec<GanttSection>,
}

impl GanttSpec {
    /// An untitled chart with no sections.
    pub fn new() -> (r: Self)
        ensures
            r.title is None,
            r.sections@.len() == 0,
    {
        GanttSpec { title: None, sections: Vec::new() }
    }

    /// Sets the title.
    pub fn title(self, title: &str) -> (r: Self)
        ensures
            opt_text_view(r.title) == Some(title@),
            r.sections@ == self.sections@,
    {
        GanttSpec { title: Some(String::from_str(title)), ..self }
    }

    /// Appends a section.
    pub fn section(self, section: GanttSection) -> (r: Self)
        ensures
            opt_text_view(r.title) == opt_text_view(self.title),
            r.sections@ == self.sections@.push(section),
    {
        let mut s = self;
        s.sections.push(section);
        s
    }
}

/// Styles of the chart's parts.
#[derive(Clone, Copy, Debug, PartialEq, Eq, Structural)]
pub struct GanttDiagramTheme {
    pub axis: Style,
    pub title: Style,
    pub section: Style,
    pub task: Style,
    pub pending: Style,
    pub active: Style,
    pub done: Style,
    pub critical: Style,
    pub milestone: Style,
}

impl Default for GanttDiagramTheme {
    fn default() -> (r: Self)
        ensures
            r.axis == Style::empty().fg_spec(Color::DarkGray),
            r.title == (Style { bold: true, ..Style::empty() }),
            r.section == (Style { bold: true, ..Style::empty().fg_spec(Color::Cyan) }),
            r.task == Style::empty(),
            r.pending == Style::empty().fg_spec(Color::Gray),
            r.active == Style::empty().fg_spec(Color::Yellow),
            r.done == Style::empty().fg_spec(Color::Green),
            r.critical == Style::empty().fg_spec(Color::LightRed),
            r.milestone == Style::empty().fg_spec(Color::Magenta),
    {
        GanttDiagramTheme {
            axis: Style::new().fg(Color::DarkGray),
            title: Style::new().bold(),
            section: Style::new().fg(Color::Cyan).bold(),
            task: Style::new(),
            pending: Style::new().fg(Color::Gray),
            active: Style::new().fg(Color::Yellow),
            done: Style::new().fg(Color::Green),
            critical: Style::new().fg(Color::LightRed),
            milestone: Style::new().fg(Color::Magenta),
        }
    }
}

/// The Gantt chart widget.
#[derive(Clone)]
pub struct GanttDiagram {
    pub spec: GanttSpec,
    pub theme: GanttDiagramTheme,
    pub style: Style,
    pub title_override: Style,
    pub axis_override: Style,
    pub section_override: Style,
    pub task_override: Style,
    pub padding: Padding,
    pub width: Length,
    pub height: Length,
    pub max_timeline_width: u16,
}

impl GanttDiagram {
    /// An empty chart: auto size, no padding, timeline at most 80 columns.
    pub fn new() -> (r: Self)
        ensures
            r.spec.title is None,
            r.spec.sections@.len() == 0,
            r.style == Style::empty(),
            r.title_override == Style::empty(),
            r.axis_override == Style::empty(),
            r.section_override == Style::empty(),
            r.task_override == Style::empty(),
            r.padding == (Padding { top: 0, right: 0, bottom: 0, left: 0 }),
            r.width == Length::Auto,
            r.height == Length::Auto,
            r.max_timeline_width == 80,
    {
        GanttDiagram {
            spec: GanttSpec::new(),
            theme: GanttDiagramTheme::default(),
            style: Style::new(),
            title_override: Style::new(),
            axis_override: Style::new(),
            section_override: Style::new(),
            task_override: Style::new(),
            padding: Padding::all(0),
            width: Length::Auto,
            height: Length::Auto,
            max_timeline_width: 80,
        }
    }

    /// Replaces the chart data.
    pub fn spec(self, spec: GanttSpec) -> (r: Self)
        ensures
            r == (GanttDiagram { spec, ..self }),
    {
        GanttDiagram { spec, ..self }
    }

    /// Sets the chart title.
    pub fn title(self, title: &str) -> (r: Self)
        ensures
            opt_text_view(r.spec.title) == Some(title@),
            r.spec.sections == self.spec.sections,
            r == (GanttDiagram { spec: r.spec, ..self }),
    {
        let mut d = self;
        d.spec.title = Some(String::from_str(title));
        d
    }

    /// Appends a section.
    pub fn section(self, section: GanttSection) -> (r: Self)
        ensures
            r.spec.title == self.spec.title,
            r.spec.sections@ == self.spec.sections@.push(section),
            r == (GanttDiagram { spec: r.spec, ..self }),
    {
        let mut d = self;
        d.spec.sections.push(section);
        d
    }

    /// Sets the theme.
    pub fn theme(self, theme: GanttDiagramTheme) -> (r: Self)
        ensures
            r == (GanttDiagram { theme, ..self }),
    {
        GanttDiagram { theme, ..self }
    }

    /// Sets the base style.
    pub fn style(self, style: Style) -> (r: Self)
        ensures
            r == (GanttDiagram { style, ..self }),
    {
        GanttDiagram { style, ..self }
    }

    /// Overrides the title style.
    pub fn title_style(self, style: Style) -> (r: Self)
        ensures
            r == (GanttDiagram { title_override: style, ..self }),
    {
        GanttDiagram { title_override: style, ..self }
    }

    /// Overrides the axis style.
    pub fn axis_style(self, style: Style) -> (r: Self)
        ensures
            r == (GanttDiagram { axis_override: style, ..self }),
    {
        GanttDiagram { axis_override: style, ..self }
    }

    /// Overrides the section style.
    pub fn section_style(self, style: Style) -> (r: Self)
        ensures
            r == (GanttDiagram { section_override: style, ..self }),
    {
        GanttDiagram { section_override: style, ..self }
    }

    /// Overrides the task label style.
    pub fn task_style(self, style: Style) -> (r: Self)
        ensures
            r == (GanttDiagram { task_override: style, ..self }),
    {
        GanttDiagram { task_override: style, ..self }
    }

    /// Sets the padding.
    pub fn padding(self, padding: Padding) -> (r: Self)
        ensures
            r == (GanttDiagram { padding, ..self }),
    {
        GanttDiagram { padding, ..self }
    }

    /// Sets the requested width.
    pub fn width(self, width: Length) -> (r: Self)
        ensures
            r == (GanttDiagram { width, ..self }),
    {
        GanttDiagram { width, ..self }
    }

    /// Sets the requested height.
    pub fn height(self, height: Length) -> (r: Self)
        ensures
            r == (GanttDiagram { height, ..self }),
    {
        GanttDiagram { height, ..self }
    }

    /// Caps the timeline at `width` columns.
    pub fn max_timeline_width(self, width: u16) -> (r: Self)
        ensures
            r == (GanttDiagram { max_timeline_width: width, ..self }),
    {
        GanttDiagram { max_timeline_width: width, ..self }
    }
}

/// Reading a valid date back from its day number gives the same date.
pub proof fn lemma_day_number_roundtrip(d: GanttDate, e: GanttDate)
    requires
        d.is_valid(),
        e.is_valid(),
        e.spec_day_number() == d.spec_day_number(),
    ensures
        e == d,
{
    crate::gantt_date::lemma_day_number_injective(
        d.year as int,
        d.month as int,
        d.day as int,
        e.year as int,
        e.month as int,
        e.day as int,
    );
}

proof fn lemma_find_at(s: Seq<char>, c: char, from: int, t: int)
    requires
        0 <= from <= t <= s.len(),
        t < s.len() ==> s[t] == c,
        forall|i: int| from <= i < t ==> s[i] != c,
    ensures
        spec_find(s, c, from) == t,
    decreases t - from,
{
    if from < t {
        lemma_find_at(s, c, from + 1, t);
    }
}

proof fn lemma_parse_digits(v: nat, max: int)
    requires
        v <= max,
    ensures
        spec_parse_unsigned(decimal_digits(v), max) == Some(v as int),
{
    lemma_decimal_digits_value(v);
}

/// A date written as its year, month and day in decimal, joined by dashes,
/// reads back as that date exactly when it is a real calendar date (and
/// otherwise does not read at all).
pub proof fn law_parse_ymd(y: nat, m: nat, d: nat)
    requires
        y <= i32::MAX,
        m <= u8::MAX,
        d <= u8::MAX,
    ensures
        spec_parse_ymd(decimal_digits(y) + seq!['-'] + decimal_digits(m) + seq!['-'] + decimal_digits(d)) == if spec_valid_date(
            y as int,
            m as int,
            d as int,
        ) {
            Some(GanttDate { year: y as i32, month: m as u8, day: d as u8 })
        } else {
            None
        },
{
    let dy = decimal_digits(y);
    let dm = decimal_digits(m);
    let dd = decimal_digits(d);
    lemma_decimal_digits_value(y);
    lemma_decimal_digits_value(m);
    lemma_decimal_digits_value(d);
    let s = dy + seq!['-'] + dm + seq!['-'] + dd;
    let i = dy.len() as int;
    let j = i + 1 + dm.len();
    assert forall|k: int| 0 <= k < i implies s[k] != '-' by {
        assert(s[k] == dy[k]);
        assert(is_digit(dy[k]));
    }
    lemma_find_at(s, '-', 0, i);
    assert forall|k: int| i + 1 <= k < j implies s[k] != '-' by {
        assert(s[k] == dm[k - i - 1]);
        assert(is_digit(dm[k - i - 1]));
    }
    lemma_find_at(s, '-', i + 1, j);
    assert forall|k: int| j + 1 <= k < s.len() implies s[k] != '-' by {
        assert(s[k] == dd[k - j - 1]);
        assert(is_digit(dd[k - j - 1]));
    }
    lemma_find_at(s, '-', j + 1, s.len() as int);
    assert(s.subrange(0, i) =~= dy);
    assert(s.subrange(i + 1, j) =~= dm);
    assert(s.subrange(j + 1, s.len() as int) =~= dd);
    lemma_parse_digits(y, i32::MAX as int);
    lemma_parse_digits(m, u8::MAX as int);
    lemma_parse_digits(d, u8::MAX as int);
}

/// The calendar: every month has 28 to 31 days, February has its 29th day
/// exactly in leap years (every fourth year, but not centuries unless they
/// divide by 400), and a year has 366 days in a leap year and 365 otherwise.
pub proof fn law_calendar(y: int, m: int)
    ensures
        1 <= m <= 12 ==> 28 <= spec_days_in_month(y, m) <= 31,
        spec_valid_date(y, 2, 29) <==> ((y % 4 == 0 && y % 100 != 0) || y % 400 == 0),
        spec_days_in_month(y, 1) + spec_days_in_month(y, 2) + spec_days_in_month(y, 3) + spec_days_in_month(y, 4)
            + spec_days_in_month(y, 5) + spec_days_in_month(y, 6) + spec_days_in_month(y, 7) + spec_days_in_month(y, 8)
            + spec_days_in_month(y, 9) + spec_days_in_month(y, 10) + spec_days_in_month(y, 11) + spec_days_in_month(y, 12)
            == if (y % 4 == 0 && y % 100 != 0) || y % 400 == 0 { 366int } else { 365int },
{
}

} // verus!
