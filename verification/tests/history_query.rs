use scribe::clock::Timestamp;
use scribe::history_query::{escape_like_query, is_expired, retention_cutoff, search_pattern};

#[test]
fn like_wildcards_and_backslashes_are_escaped() {
    assert_eq!(escape_like_query("100%_done\\now"), "100\\%\\_done\\\\now");
    assert_eq!(escape_like_query("plain"), "plain");
    assert_eq!(escape_like_query(""), "");
}

#[test]
fn search_patterns_trim_and_wrap_the_query() {
    assert_eq!(search_pattern(Some("  alpha ")).as_deref(), Some("%alpha%"));
    assert_eq!(search_pattern(Some("50%")).as_deref(), Some("%50\\%%"));
    assert_eq!(search_pattern(Some("   ")), None);
    assert_eq!(search_pattern(None), None);
}

#[test]
fn retention_cutoff_is_whole_days_before_now() {
    let now = Timestamp { secs: 1_781_289_000, nanos: 5 };
    assert_eq!(retention_cutoff(now, None), None);
    let cut = retention_cutoff(now, Some(30)).unwrap();
    assert_eq!(cut.secs, 1_781_289_000 - 30 * 86_400);
    assert_eq!(cut.nanos, 5);
}

#[test]
fn rows_created_before_the_cutoff_expire() {
    assert!(is_expired("2026-05-01T10:00:00+00:00", "2026-05-13T18:30:00+00:00"));
    assert!(!is_expired("2026-06-12T18:30:00+00:00", "2026-05-13T18:30:00+00:00"));
    assert!(!is_expired("2026-05-13T18:30:00+00:00", "2026-05-13T18:30:00+00:00"));
}
