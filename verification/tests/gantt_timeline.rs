use tui_lipan::gantt::{GanttDate, GanttError, GanttSection, GanttSpec, GanttTask};
use tui_lipan::gantt_timeline::resolve_gantt_spec;

fn date(s: &str) -> GanttDate {
    GanttDate::parse_ymd(s).unwrap()
}

#[test]
fn date_roundtrip_formats_ymd() {
    let date = GanttDate::parse_ymd("2026-05-20").unwrap();
    assert_eq!(date.to_string(), "2026-05-20");
    assert_eq!(GanttDate::from_day_number(date.day_number()), date);
}

#[test]
fn add_days_crosses_leap_and_month_boundaries() {
    assert_eq!(
        GanttDate::parse_ymd("2024-02-28").unwrap().add_days(1),
        GanttDate::parse_ymd("2024-02-29").unwrap()
    );
    assert_eq!(
        GanttDate::parse_ymd("2024-02-29").unwrap().add_days(1),
        GanttDate::parse_ymd("2024-03-01").unwrap()
    );
}

#[test]
fn resolves_after_chain_sample() {
    let spec = GanttSpec::new().section(
        GanttSection::new("Build")
            .task(GanttTask::new("Design").id("design").start_date(date("2026-01-01")).duration_days(3))
            .task(GanttTask::new("Implement").id("impl").after("design").duration_days(2)),
    );
    let resolved = resolve_gantt_spec(&spec).unwrap();
    assert_eq!(resolved[0].tasks[1].start.to_string(), "2026-01-04");
    assert_eq!(resolved[0].tasks[1].end.to_string(), "2026-01-05");
}

#[test]
fn reports_missing_dependency() {
    let spec = GanttSpec::new()
        .section(GanttSection::new("Build").task(GanttTask::new("Implement").after("missing")));
    assert!(matches!(resolve_gantt_spec(&spec), Err(GanttError::MissingDependency { .. })));
}

#[test]
fn reports_cycle() {
    let spec = GanttSpec::new().section(
        GanttSection::new("Build")
            .task(GanttTask::new("A").id("a").after("b"))
            .task(GanttTask::new("B").id("b").after("a")),
    );
    assert!(matches!(resolve_gantt_spec(&spec), Err(GanttError::CyclicDependency(_))));
}

#[test]
fn cycle_path_starts_and_ends_at_the_same_task() {
    let spec = GanttSpec::new().section(
        GanttSection::new("Build")
            .task(GanttTask::new("A").id("a").after("b"))
            .task(GanttTask::new("B").id("b").after("a")),
    );
    match resolve_gantt_spec(&spec) {
        Err(GanttError::CyclicDependency(path)) => {
            assert_eq!(path, vec!["a".to_string(), "b".to_string(), "a".to_string()]);
        }
        other => panic!("expected a cycle, got {other:?}"),
    }
}

#[test]
fn duplicate_id_is_reported() {
    let spec = GanttSpec::new().section(
        GanttSection::new("Build")
            .task(GanttTask::new("A").id("a").start_date(date("2026-01-01")))
            .task(GanttTask::new("B").id("a").start_date(date("2026-01-02"))),
    );
    assert_eq!(resolve_gantt_spec(&spec), Err(GanttError::DuplicateTaskId("a".to_string())));
}

#[test]
fn task_without_start_is_reported_by_label() {
    let spec = GanttSpec::new().section(GanttSection::new("Build").task(GanttTask::new("Loose")));
    assert_eq!(resolve_gantt_spec(&spec), Err(GanttError::UnresolvedStart("Loose".to_string())));
}

#[test]
fn chain_ending_without_start_reports_that_task() {
    let spec = GanttSpec::new().section(
        GanttSection::new("Build")
            .task(GanttTask::new("A").id("a").after("b"))
            .task(GanttTask::new("B").id("b")),
    );
    assert_eq!(resolve_gantt_spec(&spec), Err(GanttError::UnresolvedStart("b".to_string())));
}

#[test]
fn milestone_takes_one_day_and_anonymous_tasks_follow_their_dependency() {
    let spec = GanttSpec::new().section(
        GanttSection::new("Build")
            .task(GanttTask::new("Design").id("design").start_date(date("2026-01-01")).duration_days(2))
            .task(GanttTask::new("Ship").after("design").milestone()),
    );
    let resolved = resolve_gantt_spec(&spec).unwrap();
    let ship = &resolved[0].tasks[1];
    assert_eq!(ship.start.to_string(), "2026-01-03");
    assert_eq!(ship.end, ship.start);
    assert_eq!(ship.end_day_exclusive - ship.start_day, 1);
}

#[test]
fn invalid_dates_are_rejected() {
    assert_eq!(GanttDate::parse_ymd("2023-02-29"), Err(GanttError::InvalidDate("2023-02-29".to_string())));
    assert!(GanttDate::parse_ymd("2024-13-01").is_err());
    assert!(GanttDate::parse_ymd("2024-01").is_err());
    assert!(GanttDate::parse_ymd("2024-01-01-01").is_err());
    assert!(GanttDate::parse_ymd("+2024-01-01").is_ok());
    assert!(GanttDate::parse_ymd("2024-1-x").is_err());
}

#[test]
fn day_numbers_count_from_the_unix_epoch() {
    assert_eq!(date("1970-01-01").day_number(), 0);
    assert_eq!(date("2000-03-01").day_number(), 11017);
    assert_eq!(GanttDate::from_day_number(-1).to_string(), "1969-12-31");
    assert_eq!(GanttDate::new(-5, 1, 2).to_string(), "-005-01-02");
}

#[test]
fn every_day_of_a_leap_cycle_roundtrips() {
    let start = date("1999-12-25").day_number();
    for n in start..start + 2000 {
        let d = GanttDate::from_day_number(n);
        assert_eq!(d.day_number(), n);
        assert_eq!(GanttDate::parse_ymd(&d.to_string()).unwrap(), d);
    }
}

#[test]
fn cycle_path_names_each_task_once() {
    let spec = GanttSpec::new().section(
        GanttSection::new("Build")
            .task(GanttTask::new("Start").id("s").after("c"))
            .task(GanttTask::new("A").id("a").after("b"))
            .task(GanttTask::new("B").id("b").after("c"))
            .task(GanttTask::new("C").id("c").after("a")),
    );
    match resolve_gantt_spec(&spec) {
        Err(GanttError::CyclicDependency(path)) => {
            assert_eq!(path, vec!["c".to_string(), "a".to_string(), "b".to_string(), "c".to_string()]);
        }
        other => panic!("expected a cycle, got {other:?}"),
    }
}

#[test]
fn dates_need_exactly_three_parts() {
    assert_eq!(GanttDate::parse_ymd("2026-05-20-1"), Err(GanttError::InvalidDate("2026-05-20-1".to_string())));
    assert_eq!(GanttDate::parse_ymd("2026-05"), Err(GanttError::InvalidDate("2026-05".to_string())));
    assert!(GanttDate::parse_ymd("2024-02-29").is_ok());
}

#[test]
fn later_dates_have_larger_day_numbers() {
    let epoch = GanttDate::new(1970, 1, 1);
    assert_eq!(epoch.day_number(), 0);
    let a = date("2025-12-31");
    let b = date("2026-01-01");
    let c = date("2026-03-01");
    assert!(a.day_number() < b.day_number());
    assert!(b.day_number() < c.day_number());
    assert_eq!(b.day_number() - a.day_number(), 1);
    assert_eq!(date("2024-02-29").add_days(-30).add_days(30), date("2024-02-29"));
}

#[test]
fn a_fixed_start_keeps_its_date_as_given() {
    // 2024-02-30 is no calendar day; its day number is that of 2024-03-01.
    let odd = GanttDate::new(2024, 2, 30);
    let spec = GanttSpec::new().section(
        GanttSection::new("S")
            .task(GanttTask::new("A").id("a").start_date(odd).duration_days(2))
            .task(GanttTask::new("B").after("a").duration_days(1)),
    );
    let resolved = resolve_gantt_spec(&spec).unwrap();
    assert_eq!(resolved[0].tasks[0].start, odd);
    assert_eq!(resolved[0].tasks[0].start_day, date("2024-03-01").day_number());
    assert_eq!(resolved[0].tasks[0].end.to_string(), "2024-03-02");
    assert_eq!(resolved[0].tasks[1].start.to_string(), "2024-03-03");
}

#[test]
fn dates_near_the_last_representable_year_resolve() {
    let late = GanttDate::new(i32::MAX, 12, 1);
    let spec = GanttSpec::new().section(
        GanttSection::new("S").task(GanttTask::new("A").id("a").start_date(late).duration_days(31)),
    );
    let resolved = resolve_gantt_spec(&spec).unwrap();
    assert_eq!(resolved[0].tasks[0].end, GanttDate::new(i32::MAX, 12, 31));
}
