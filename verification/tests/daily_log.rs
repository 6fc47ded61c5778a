use scribe::clock::Timestamp;
use scribe::daily_log::{day_groups, day_heading, entry_time, format_time, render_day, sort_by_time};
use scribe::transcript::Transcript;

/// 2026-06-12 08:00:00 UTC.
const EARLY: Timestamp = Timestamp { secs: 1_781_251_200, nanos: 0 };
/// 2026-06-12 09:00:00 UTC.
const LATE: Timestamp = Timestamp { secs: 1_781_254_800, nanos: 0 };

fn note(id: &str, text: &str, analysis: Option<&str>, at: Timestamp) -> Transcript {
    let mut t = Transcript::new_last_buffer(text, Some(1000), None, Some("en".into())).unwrap();
    t.id = id.to_string();
    t.created_at = at;
    t.is_note = true;
    t.analysis = analysis.map(ToOwned::to_owned);
    t
}

fn chars(s: &str) -> Vec<char> {
    s.chars().collect()
}

#[test]
fn render_daily_orders_and_separates_entries() {
    let a = note("a", "first", None, EARLY);
    let b = note("b", "second", None, LATE);
    let times = vec![entry_time(a.created_at), entry_time(b.created_at)];
    let rendered = render_day(&day_heading("2026-06-12"), &vec![a, b], &times, true);
    assert!(rendered.starts_with("# June 12, 2026"));
    let first = rendered.find("first").unwrap();
    let second = rendered.find("second").unwrap();
    assert!(first < second, "entries in chronological order");
    assert!(!rendered.contains("> "));
}

#[test]
fn render_day_exact_layout_with_summary() {
    let a = note("a", "  buy milk  ", Some(" line one\nline two "), EARLY);
    let rendered = render_day("June 12, 2026", &vec![a], &vec!["8:00 AM".to_string()], true);
    assert_eq!(
        rendered,
        "# June 12, 2026\n\n**8:00 AM**\n\nbuy milk\n\n> line one\n> line two\n\n"
    );
}

#[test]
fn render_day_without_summaries_skips_analysis() {
    let a = note("a", "draft", Some("Summary"), EARLY);
    let rendered = render_day("June 12, 2026", &vec![a], &vec!["8:00 AM".to_string()], false);
    assert_eq!(rendered, "# June 12, 2026\n\n**8:00 AM**\n\ndraft\n\n");
}

#[test]
fn day_heading_names_the_month() {
    assert_eq!(day_heading("2026-06-12"), "June 12, 2026");
    assert_eq!(day_heading("2025-01-05"), "January 5, 2025");
    assert_eq!(day_heading("2026-13-40"), "2026-13-40");
    assert_eq!(day_heading("not a day"), "not a day");
}

#[test]
fn format_time_is_twelve_hour_without_leading_zero() {
    assert_eq!(format_time(0, 5), "12:05 AM");
    assert_eq!(format_time(9, 30), "9:30 AM");
    assert_eq!(format_time(12, 0), "12:00 PM");
    assert_eq!(format_time(15, 51), "3:51 PM");
    assert_eq!(format_time(23, 59), "11:59 PM");
}

#[test]
fn day_groups_sorts_days_and_keeps_positions_in_order() {
    let days = vec![chars("2026-06-13"), chars("2026-06-12"), chars("2026-06-13"), chars("2026-06-12")];
    let groups = day_groups(&days);
    assert_eq!(groups.len(), 2);
    assert_eq!(groups[0].0, chars("2026-06-12"));
    assert_eq!(groups[0].1, vec![1, 3]);
    assert_eq!(groups[1].0, chars("2026-06-13"));
    assert_eq!(groups[1].1, vec![0, 2]);
    assert!(day_groups(&Vec::new()).is_empty());
}

#[test]
fn sort_by_time_is_stable() {
    let times = vec![LATE, EARLY, LATE, EARLY];
    assert_eq!(sort_by_time(&vec![0, 1, 2, 3], &times), vec![1, 3, 0, 2]);
    assert_eq!(sort_by_time(&vec![0, 2], &times), vec![0, 2]);
}

#[test]
fn day_files_put_each_entry_in_one_file_per_day() {
    let late = note("b", "second", Some("sum"), LATE);
    let early = note("a", "first", None, EARLY);
    let mut next = note("c", "tomorrow", None, EARLY);
    next.created_at = Timestamp { secs: EARLY.secs + 86_400, nanos: 0 };
    let files = scribe::daily_log::day_files(&vec![next, late, early], true);
    assert_eq!(files.len(), 2);
    assert_eq!(files[0].day, "2026-06-12");
    assert_eq!(files[0].entries, 2);
    assert_eq!(files[0].positions, vec![2, 1]);
    assert_eq!(files[1].positions, vec![0]);
    assert!(files[0].content.starts_with("# June 12, 2026\n\n"));
    assert!(files[0].content.find("first").unwrap() < files[0].content.find("second").unwrap());
    assert!(files[0].content.contains("> sum\n"));
    assert_eq!(files[1].day, "2026-06-13");
    assert_eq!(files[1].entries, 1);
    assert!(files[1].content.contains("tomorrow"));
}

#[test]
fn day_files_without_summaries() {
    let a = note("a", "first", Some("sum"), EARLY);
    let files = scribe::daily_log::day_files(&vec![a], false);
    assert_eq!(files.len(), 1);
    assert!(!files[0].content.contains("> "));
    assert!(scribe::daily_log::day_files(&Vec::new(), true).is_empty());
}
