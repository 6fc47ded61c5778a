use scribe::note_sync::{debounce, DebounceAction as A, DebounceEvent as E, DebounceState as S};
use scribe::error::CommandError;
use scribe::http::SentLog;
use scribe::github_backup::{encode_path, file_day, GitHubBackup, SyncReport};
use scribe::google_drive::{escape_query_literal, find_query, Drive, FOLDER_MIME};
use scribe::note_sync::{
    combine_sync_results, push_notes, push_transcripts, should_clear_token, sync_gate, SyncAttempt,
    SyncGate,
};

fn report(items: u32, files: u32) -> Result<SyncReport, CommandError> {
    Ok(SyncReport { synced_notes: items, files_written: files })
}

#[test]
fn combines_successful_note_and_transcript_progress() {
    let attempt = combine_sync_results("alice/notes".into(), report(2, 1), report(3, 2));
    assert_eq!(attempt.repo, "alice/notes");
    assert_eq!(attempt.report.synced_notes, 5);
    assert_eq!(attempt.report.files_written, 3);
    assert!(attempt.error.is_none());
}

#[test]
fn keeps_partial_progress_and_first_error() {
    let attempt = combine_sync_results(
        "alice/notes".into(),
        Err(CommandError::new("notes_failed", "notes failed")),
        report(3, 2),
    );
    assert_eq!(attempt.report.synced_notes, 3);
    assert_eq!(attempt.report.files_written, 2);
    assert_eq!(attempt.error.unwrap().code, "notes_failed");
}

#[test]
fn first_of_two_errors_wins_and_into_result_reports_it() {
    let attempt = combine_sync_results(
        "r".into(),
        Err(CommandError::new("first", "a")),
        Err(CommandError::new("second", "b")),
    );
    assert_eq!(attempt.into_result().unwrap_err().code, "first");
    let ok = SyncAttempt { repo: "r".into(), report: SyncReport { synced_notes: 1, files_written: 1 }, error: None };
    assert_eq!(ok.into_result().unwrap(), SyncReport { synced_notes: 1, files_written: 1 });
}

#[test]
fn unauthorized_sync_clears_the_token() {
    assert!(should_clear_token(&Err(CommandError::new("github_unauthorized", "x"))));
    assert!(!should_clear_token(&Err(CommandError::new("github_sync_failed", "x"))));
    assert!(!should_clear_token(&report(1, 1)));
}

#[test]
fn new_rejects_bad_repo_slug() {
    assert!(GitHubBackup::new("tok", "noslash").is_err());
    assert!(GitHubBackup::new("tok", "a/b/c").is_err());
    let ok = GitHubBackup::new("tok", " owner / name ").unwrap();
    assert_eq!((ok.owner.as_str(), ok.repo.as_str()), ("owner", "name"));
    assert_eq!(
        GitHubBackup::new("tok", "x").unwrap_err().message,
        "The GitHub repository must be in \"owner/name\" form, got \"x\"."
    );
}

#[test]
fn contents_paths_are_encoded_per_segment() {
    let backup = GitHubBackup::new("tok", "alice/notes").unwrap();
    assert_eq!(
        backup.contents_url("transcripts/2026-06/2026 06 12.md"),
        "https://api.github.com/repos/alice/notes/contents/transcripts/2026-06/2026%2006%2012.md"
    );
    assert_eq!(encode_path("a b/c?d"), "a%20b/c%3Fd");
    assert_eq!(backup.bearer(), "Bearer tok");
}

#[test]
fn file_day_is_the_stem_of_a_daily_file() {
    assert_eq!(file_day("2026-06/2026-06-12.md"), "2026-06-12");
    assert_eq!(file_day("transcripts/2026-06/2026-06-12.md"), "2026-06-12");
    assert_eq!(file_day("notes.txt"), "notes.txt");
}

#[test]
fn drive_queries_escape_literals() {
    assert_eq!(escape_query_literal("it's a\\b"), "it\\'s a\\\\b");
    assert_eq!(
        find_query(Some("root-id"), "Scribe Voice Notes", Some(FOLDER_MIME)),
        "name = 'Scribe Voice Notes' and trashed = false and mimeType = 'application/vnd.google-apps.folder' and 'root-id' in parents"
    );
    assert_eq!(find_query(None, "x", None), "name = 'x' and trashed = false");
    assert_eq!(Drive::new("t").bearer(), "Bearer t");
}

#[test]
fn sync_gate_skips_when_off_and_refuses_missing_setup() {
    assert_eq!(sync_gate(false, false, "").unwrap(), SyncGate::Skip);
    let e = sync_gate(true, false, "alice/notes").unwrap_err();
    assert_eq!(e.code, "github_not_signed_in");
    assert_eq!(e.message, "Sign in to GitHub in Settings \u{2192} Sync first.");
    let e = sync_gate(true, true, "  ").unwrap_err();
    assert_eq!(e.code, "github_repo_unset");
    assert_eq!(sync_gate(true, true, "alice/notes").unwrap(), SyncGate::Run);
}

#[test]
fn nothing_to_push_is_an_empty_report_without_github() {
    let none: Vec<scribe::transcript::Transcript> = Vec::new();
    assert_eq!(push_notes("tok", "not a slug", &none, &mut SentLog::new()).unwrap(), SyncReport { synced_notes: 0, files_written: 0 });
    assert_eq!(push_transcripts("tok", "not a slug", &none, &mut SentLog::new()).unwrap(), SyncReport { synced_notes: 0, files_written: 0 });
    let one = vec![scribe::transcript::Transcript::new_last_buffer("x", None, None, None).unwrap()];
    assert_eq!(push_notes("tok", "not a slug", &one, &mut SentLog::new()).unwrap_err().code, "github_sync_failed");
}

#[test]
fn a_burst_of_saves_syncs_once_after_the_quiet_period() {
    let mut state = S::Idle;
    let mut actions = Vec::new();
    for event in [E::Saved, E::Saved, E::Saved, E::Quiet, E::Quiet, E::Saved, E::Quiet, E::Closed] {
        let (next, action) = debounce(state, event);
        state = next;
        actions.push(action);
    }
    assert_eq!(
        actions,
        vec![A::Wait, A::Wait, A::Wait, A::Sync, A::Wait, A::Wait, A::Sync, A::Exit]
    );
}
