//! Automatic backup of notes and transcripts: the outcome of one sync
//! attempt across both backup paths.
use vstd::prelude::*;

use crate::error::CommandError;
use crate::daily_log::{backup_files, DayFile};
use crate::github_backup::{slug_parts, GitHubBackup, SyncReport, API_BASE};
use crate::http::{extends, lemma_extends_refl, SentLog};
use crate::text::{is_blank, is_blank_str};
use crate::transcript::Transcript;

verus! {

/// One sync run over both configured backup paths.
#[derive(Debug)]
pub struct SyncAttempt {
    pub repo: String,
    pub report: SyncReport,
    pub error: Option<CommandError>,
}

impl SyncAttempt {
    /// The first failure, or the combined progress.
    pub fn into_result(self) -> (r: Result<SyncReport, CommandError>)
        ensures
            match self.error {
                Some(e) => r == Err::<SyncReport, CommandError>(e),
                None => r == Ok::<SyncReport, CommandError>(self.report),
            },
    {
        match self.error {
            Some(error) => Err(error),
            None => Ok(self.report),
        }
    }
}

pub open spec fn progress_of(r: Result<SyncReport, CommandError>) -> (int, int) {
    match r {
        Ok(report) => (report.synced_notes as int, report.files_written as int),
        Err(_) => (0, 0),
    }
}

/// Combines the notes path and the all-transcripts path so one destination
/// can succeed when the other fails: the progress of both is added up and
/// the first failure, notes first, is kept.
pub fn combine_sync_results(
    repo: String,
    notes: Result<SyncReport, CommandError>,
    transcripts: Result<SyncReport, CommandError>,
) -> (a: SyncAttempt)
    requires
        progress_of(notes).0 + progress_of(transcripts).0 <= u32::MAX,
        progress_of(notes).1 + progress_of(transcripts).1 <= u32::MAX,
    ensures
        a.repo == repo,
        a.report.synced_notes == progress_of(notes).0 + progress_of(transcripts).0,
        a.report.files_written == progress_of(notes).1 + progress_of(transcripts).1,
        a.error == match notes {
            Err(e) => Some(e),
            Ok(_) => match transcripts {
                Err(e) => Some(e),
                Ok(_) => None::<CommandError>,
            },
        },
{
    let mut report = SyncReport { synced_notes: 0, files_written: 0 };
    let mut first_error: Option<CommandError> = None;
    match notes {
        Ok(next) => {
            report.synced_notes = next.synced_notes;
            report.files_written = next.files_written;
        },
        Err(error) => first_error = Some(error),
    }
    match transcripts {
        Ok(next) => {
            report.synced_notes = report.synced_notes + next.synced_notes;
            report.files_written = report.files_written + next.files_written;
        },
        Err(error) => if first_error.is_none() {
            first_error = Some(error);
        },
    }
    SyncAttempt { repo, report, error: first_error }
}

/// A sync that failed because GitHub rejected the token: the dead token
/// should be cleared so the UI prompts a reconnect.
pub fn should_clear_token(result: &Result<SyncReport, CommandError>) -> (r: bool)
    ensures
        r == (result matches Err(e) && e.code@ == "github_unauthorized"@),
{
    match result {
        Err(error) => error.code == "github_unauthorized".to_string(),
        Ok(_) => false,
    }
}

/// Whether a backup path runs this time.
#[derive(Debug, Clone, Copy, PartialEq, Eq, Structural)]
pub enum SyncGate {
    /// Switched off: the path reports nothing synced.
    Skip,
    Run,
}

/// A backup path runs when switched on, with a stored token and a
/// repository; without either of those it is refused.
pub fn sync_gate(enabled: bool, has_token: bool, repo: &str) -> (r: Result<SyncGate, CommandError>)
    ensures
        !enabled ==> r == Ok::<SyncGate, CommandError>(SyncGate::Skip),
        enabled && !has_token ==> (r matches Err(e) && e.code@ == "github_not_signed_in"@
            && e.message@ == "Sign in to GitHub in Settings \u{2192} Sync first."@),
        enabled && has_token && is_blank(repo@) ==> (r matches Err(e) && e.code@
            == "github_repo_unset"@ && e.message@
            == "Set a GitHub repository (owner/name) in Settings \u{2192} Sync first."@),
        enabled && has_token && !is_blank(repo@) ==> r == Ok::<SyncGate, CommandError>(SyncGate::Run),
{
    if !enabled {
        return Ok(SyncGate::Skip);
    }
    if !has_token {
        return Err(
            CommandError::from_parts(
                "github_not_signed_in",
                "Sign in to GitHub in Settings \u{2192} Sync first.".to_string(),
            ),
        );
    }
    if is_blank_str(repo) {
        return Err(
            CommandError::from_parts(
                "github_repo_unset",
                "Set a GitHub repository (owner/name) in Settings \u{2192} Sync first.".to_string(),
            ),
        );
    }
    Ok(SyncGate::Run)
}

/// A path that synced nothing.
pub fn empty_report() -> (r: SyncReport)
    ensures
        r.synced_notes == 0 && r.files_written == 0,
{
    SyncReport { synced_notes: 0, files_written: 0 }
}

/// Pushes the notes to `repo` with `token` as the daily notes log; nothing
/// to push is an empty report without contacting GitHub.
pub fn push_notes(token: &str, repo: &str, notes: &Vec<Transcript>, log: &mut SentLog) -> (r: Result<SyncReport, CommandError>)
    requires
        notes.len() <= u32::MAX,
    ensures
        notes.len() == 0 ==> r == Ok::<SyncReport, CommandError>(SyncReport { synced_notes: 0, files_written: 0 }),
        notes.len() > 0 && slug_parts(repo@) is None ==> (r matches Err(e) && e.code@
            == "github_sync_failed"@ && e.message@
            == "The GitHub repository must be in \"owner/name\" form, got \""@ + repo@ + "\"."@),
        extends(old(log).sent(), final(log).sent()),
        notes.len() == 0 || slug_parts(repo@) is None ==> final(log).sent() == old(log).sent(),
        r matches Ok(report) ==> report.synced_notes == notes.len() && (notes.len() == 0 || exists|
            b: GitHubBackup,
            files: Seq<DayFile>,
            pos: Seq<int>,
        |
            #[trigger] b.wrote_days(final(log).sent(), old(log).sent().len() as int, ""@, files, pos)
                && b.token@ == token@ && slug_parts(repo@) == Some((b.owner@, b.repo@))
                && b.api@ == API_BASE@ && backup_files(notes@, true, files) && report.files_written == files.len()),
        r matches Err(e) ==> e.code@ == "github_sync_failed"@ || e.code@ == "github_unauthorized"@,
{
    proof {
        lemma_extends_refl(log.sent());
    }
    if notes.len() == 0 {
        return Ok(empty_report());
    }
    let backup = GitHubBackup::new(token, repo)?;
    backup.sync_notes(notes, log)
}

/// Pushes every dictation transcript to the repository's `transcripts/`
/// folder; nothing to push is an empty report without contacting GitHub.
pub fn push_transcripts(token: &str, repo: &str, transcripts: &Vec<Transcript>, log: &mut SentLog) -> (r: Result<SyncReport, CommandError>)
    requires
        transcripts.len() <= u32::MAX,
    ensures
        transcripts.len() == 0 ==> r == Ok::<SyncReport, CommandError>(SyncReport { synced_notes: 0, files_written: 0 }),
        transcripts.len() > 0 && slug_parts(repo@) is None ==> (r matches Err(e) && e.code@
            == "github_sync_failed"@ && e.message@
            == "The GitHub repository must be in \"owner/name\" form, got \""@ + repo@ + "\"."@),
        extends(old(log).sent(), final(log).sent()),
        transcripts.len() == 0 || slug_parts(repo@) is None ==> final(log).sent() == old(log).sent(),
        r matches Ok(report) ==> report.synced_notes == transcripts.len() && (transcripts.len() == 0 || exists|
            b: GitHubBackup,
            files: Seq<DayFile>,
            pos: Seq<int>,
        |
            #[trigger] b.wrote_days(final(log).sent(), old(log).sent().len() as int, "transcripts/"@, files, pos)
                && b.token@ == token@ && slug_parts(repo@) == Some((b.owner@, b.repo@))
                && b.api@ == API_BASE@ && backup_files(transcripts@, false, files) && report.files_written == files.len()),
        r matches Err(e) ==> e.code@ == "github_sync_failed"@ || e.code@ == "github_unauthorized"@,
{
    proof {
        lemma_extends_refl(log.sent());
    }
    if transcripts.len() == 0 {
        return Ok(empty_report());
    }
    let backup = GitHubBackup::new(token, repo)?;
    backup.sync_all_transcripts(transcripts, log)
}

// --- debouncing automatic syncs --------------------------------------------------

/// Seconds of quiet after the last note save before an automatic sync.
pub const DEBOUNCE_SECS: u64 = 3;

/// The automatic-sync worker: idle until a note is saved, then waiting for
/// a quiet period.
#[derive(Debug, Clone, Copy, PartialEq, Eq, Structural)]
pub enum DebounceState {
    Idle,
    Waiting,
}

/// What the worker observed.
#[derive(Debug, Clone, Copy, PartialEq, Eq, Structural)]
pub enum DebounceEvent {
    /// A note was saved.
    Saved,
    /// The debounce period passed without another save.
    Quiet,
    /// The app is shutting down.
    Closed,
}

/// What the worker does next.
#[derive(Debug, Clone, Copy, PartialEq, Eq, Structural)]
pub enum DebounceAction {
    Wait,
    Sync,
    Exit,
}

pub open spec fn debounce_step(state: DebounceState, event: DebounceEvent) -> (DebounceState, DebounceAction) {
    match event {
        DebounceEvent::Closed => (DebounceState::Idle, DebounceAction::Exit),
        DebounceEvent::Saved => (DebounceState::Waiting, DebounceAction::Wait),
        DebounceEvent::Quiet => match state {
            DebounceState::Waiting => (DebounceState::Idle, DebounceAction::Sync),
            DebounceState::Idle => (DebounceState::Idle, DebounceAction::Wait),
        },
    }
}

/// One step of the worker: saves keep it waiting, a quiet period after a
/// save syncs once, shutdown ends it. A sync happens only after a save, and
/// leaves the worker idle until the next one.
pub fn debounce(state: DebounceState, event: DebounceEvent) -> (r: (DebounceState, DebounceAction))
    ensures
        r == debounce_step(state, event),
        r.1 == DebounceAction::Sync ==> state == DebounceState::Waiting && r.0 == DebounceState::Idle,
        r.0 == DebounceState::Waiting ==> event == DebounceEvent::Saved,
{
    match event {
        DebounceEvent::Closed => (DebounceState::Idle, DebounceAction::Exit),
        DebounceEvent::Saved => (DebounceState::Waiting, DebounceAction::Wait),
        DebounceEvent::Quiet => match state {
            DebounceState::Waiting => (DebounceState::Idle, DebounceAction::Sync),
            DebounceState::Idle => (DebounceState::Idle, DebounceAction::Wait),
        },
    }
}

/// The actions of the worker over a run of events from `state`.
pub open spec fn debounce_run(state: DebounceState, events: Seq<DebounceEvent>) -> Seq<DebounceAction>
    decreases events.len(),
{
    if events.len() == 0 {
        Seq::empty()
    } else {
        let (next, action) = debounce_step(state, events[0]);
        seq![action] + debounce_run(next, events.drop_first())
    }
}

/// How many times `a` occurs in `s`.
pub open spec fn occurrences<A>(s: Seq<A>, a: A) -> nat
    decreases s.len(),
{
    if s.len() == 0 {
        0
    } else {
        occurrences(s.drop_first(), a) + if s[0] == a {
            1nat
        } else {
            0nat
        }
    }
}

/// A burst of saves is synced at most once: over any run of events from an
/// idle worker, there are no more syncs than saves.
pub proof fn lemma_syncs_bounded_by_saves(state: DebounceState, events: Seq<DebounceEvent>)
    ensures
        occurrences(debounce_run(state, events), DebounceAction::Sync) + (if state
            == DebounceState::Waiting {
            0nat
        } else {
            1nat
        }) <= occurrences(events, DebounceEvent::Saved) + 1,
    decreases events.len(),
{
    if events.len() > 0 {
        let (next, action) = debounce_step(state, events[0]);
        lemma_syncs_bounded_by_saves(next, events.drop_first());
        assert(debounce_run(state, events).drop_first() == debounce_run(next, events.drop_first()));
    }
}

} // verus!
