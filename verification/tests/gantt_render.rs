use tui_lipan::gantt::{GanttDate, GanttDiagram, GanttError, GanttSection, GanttSpec, GanttTask};
use tui_lipan::gantt_render::{
    build_gantt_render_rows, gantt_error_message, measure_gantt_diagram, measure_gantt_rows, GanttRenderConfig,
    GanttRenderRole, GanttRenderRows,
};
use tui_lipan::style::Padding;

fn date(s: &str) -> GanttDate {
    GanttDate::parse_ymd(s).unwrap()
}

fn texts(rows: &GanttRenderRows) -> Vec<Vec<String>> {
    rows.rows.iter().map(|r| r.cells.iter().map(|c| c.text.clone()).collect()).collect()
}

#[test]
fn render_output_contains_labels_and_bars() {
    let spec = GanttSpec::new().title("Release").section(
        GanttSection::new("Build")
            .task(GanttTask::new("Design").id("design").start_date(date("2026-01-01")).duration_days(2).done())
            .task(GanttTask::new("Ship").after("design").milestone()),
    );
    let rows = build_gantt_render_rows(&spec, GanttRenderConfig { max_timeline_width: 12 }).unwrap();
    let text = rows
        .rows
        .iter()
        .flat_map(|row| row.cells.iter())
        .map(|cell| cell.text.as_str())
        .collect::<Vec<_>>()
        .join("\n");
    assert!(text.contains("Release"));
    assert!(text.contains("Build"));
    assert!(text.contains("Design"));
    assert!(text.contains('█'));
    assert!(text.contains('◆'));
}

#[test]
fn rows_scale_bars_onto_the_timeline() {
    let spec = GanttSpec::new().title("Release").section(
        GanttSection::new("Build")
            .task(GanttTask::new("Design").id("design").start_date(date("2026-01-01")).duration_days(2).done())
            .task(GanttTask::new("Ship").after("design").milestone()),
    );
    let rows = build_gantt_render_rows(&spec, GanttRenderConfig { max_timeline_width: 12 }).unwrap();
    assert_eq!(
        texts(&rows),
        vec![
            vec!["Release".to_string()],
            vec!["2026-01-01 → 2026-01-03".to_string()],
            vec!["      ".to_string(), "┬─┬".to_string()],
            vec!["Build".to_string()],
            vec!["Design".to_string(), "██ ".to_string()],
            vec!["Ship  ".to_string(), "  ◆".to_string()],
        ]
    );
    assert_eq!(rows.rows[4].cells[1].role, GanttRenderRole::DoneBar);
    assert_eq!(rows.rows[5].cells[1].role, GanttRenderRole::Milestone);
    assert_eq!(rows.rows[1].role, GanttRenderRole::Axis);
    assert_eq!(measure_gantt_rows(&rows), (23, 6));
}

#[test]
fn long_charts_are_squeezed_into_the_maximum_width() {
    let spec = GanttSpec::new().section(
        GanttSection::new("S")
            .task(GanttTask::new("A").id("a").start_date(date("2026-01-01")).duration_days(10))
            .task(GanttTask::new("B").start_date(date("2026-01-06")).duration_days(5).active()),
    );
    let rows = build_gantt_render_rows(&spec, GanttRenderConfig { max_timeline_width: 4 }).unwrap();
    assert_eq!(texts(&rows)[1], vec![" ".to_string(), "┬──┬".to_string()]);
    assert_eq!(texts(&rows)[3], vec!["A".to_string(), "░░░░".to_string()]);
    assert_eq!(texts(&rows)[4], vec!["B".to_string(), "  ▓▓".to_string()]);
}

#[test]
fn chart_without_tasks_keeps_only_its_title() {
    let spec = GanttSpec::new().title("Empty");
    let rows = build_gantt_render_rows(&spec, GanttRenderConfig::default()).unwrap();
    assert_eq!(texts(&rows), vec![vec!["Empty".to_string()]]);
    assert_eq!(measure_gantt_rows(&rows), (5, 1));
}

#[test]
fn unresolved_chart_is_measured_by_its_error() {
    let spec = GanttSpec::new().section(GanttSection::new("S").task(GanttTask::new("A").after("missing")));
    let err = build_gantt_render_rows(&spec, GanttRenderConfig::default()).unwrap_err();
    let message = gantt_error_message(&err);
    assert_eq!(message, "task 'A' depends on missing task id 'missing'");
    let diagram = GanttDiagram::new().spec(spec).padding(Padding::all(1));
    let expected = ("Gantt error: ".chars().count() + message.chars().count()) as u16 + 2;
    assert_eq!(measure_gantt_diagram(&diagram), (expected, 3));
}

#[test]
fn cycle_message_joins_the_path() {
    let e = GanttError::CyclicDependency(vec!["a".to_string(), "b".to_string(), "a".to_string()]);
    assert_eq!(gantt_error_message(&e), "cyclic Gantt dependency: a -> b -> a");
}
