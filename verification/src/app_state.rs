//! The dictation life-cycle state machine: which event is accepted in which
//! status, and what the machine reports afterwards.
use vstd::prelude::*;

use crate::clock::{now, Timestamp};
use crate::text::{chars_of, push_str, string_from_chars};

verus! {

#[derive(Debug, Clone, Copy, PartialEq, Eq, Structural)]
pub enum AppStatus {
    Idle,
    Recording,
    Stopping,
    Transcribing,
    Pasting,
    Ready,
    Error,
    Paused,
}

#[derive(Debug, Clone, Copy, PartialEq, Eq, Structural)]
pub enum AppEvent {
    StartRecording,
    StopRecording,
    ValidAudio,
    AudioTooShort,
    TranscriptionSucceeded,
    /// Whisper finished but produced no text (e.g. a tap with no speech).
    /// Benign: the app returns to Idle instead of Error.
    TranscriptionEmpty,
    TranscriptionFailed,
    /// Stopping the audio stream failed; the recording is gone, so the app
    /// returns to Idle rather than stranding in Stopping.
    StopFailed,
    StartPasting,
    PasteCompleted,
    ReadyTimeout,
    ResetError,
    Pause,
    Resume,
    CancelRecording,
}

#[derive(Debug, Clone)]
pub struct AppErrorInfo {
    pub code: AppErrorCode,
    pub message: String,
}

#[derive(Debug, Clone, Copy, PartialEq, Eq, Structural)]
pub enum AppErrorCode {
    NoMicrophoneSelected,
    MicrophonePermissionDenied,
    MicrophoneUnavailable,
    RecordingFailed,
    AudioTooShort,
    WhisperModelMissing,
    WhisperTranscriptionFailed,
    ModelDownloadFailed,
    HotkeyRegistrationFailed,
    PasteFailed,
    ClipboardRestoreFailed,
    AppDatabaseError,
    InvalidStateTransition,
}

#[derive(Debug, Clone)]
pub struct AppStateSnapshot {
    pub status: AppStatus,
    pub error: Option<AppErrorInfo>,
    pub updated_at: Timestamp,
}

#[derive(Debug)]
pub struct AppStateMachine {
    status: AppStatus,
    error: Option<AppErrorInfo>,
    updated_at: Timestamp,
}

#[derive(Debug, Clone, PartialEq, Eq)]
pub struct StateTransitionError {
    pub from: AppStatus,
}

/// The status an event moves the machine to, or `None` when the event is not
/// accepted in `from`.
pub open spec fn next_status(from: AppStatus, event: AppEvent) -> Option<AppStatus> {
    match (from, event) {
        (AppStatus::Idle, AppEvent::StartRecording) => Some(AppStatus::Recording),
        (AppStatus::Ready, AppEvent::StartRecording) => Some(AppStatus::Recording),
        (AppStatus::Recording, AppEvent::StopRecording) => Some(AppStatus::Stopping),
        (AppStatus::Recording, AppEvent::CancelRecording) => Some(AppStatus::Idle),
        (AppStatus::Stopping, AppEvent::ValidAudio) => Some(AppStatus::Transcribing),
        (AppStatus::Stopping, AppEvent::AudioTooShort) => Some(AppStatus::Idle),
        (AppStatus::Stopping, AppEvent::StopFailed) => Some(AppStatus::Idle),
        (AppStatus::Transcribing, AppEvent::TranscriptionSucceeded) => Some(AppStatus::Ready),
        (AppStatus::Transcribing, AppEvent::TranscriptionEmpty) => Some(AppStatus::Idle),
        (AppStatus::Transcribing, AppEvent::TranscriptionFailed) => Some(AppStatus::Error),
        (AppStatus::Ready, AppEvent::StartPasting) => Some(AppStatus::Pasting),
        (AppStatus::Pasting, AppEvent::PasteCompleted) => Some(AppStatus::Ready),
        (AppStatus::Ready, AppEvent::ReadyTimeout) => Some(AppStatus::Idle),
        (AppStatus::Error, AppEvent::ResetError) => Some(AppStatus::Idle),
        (AppStatus::Idle, AppEvent::Pause) => Some(AppStatus::Paused),
        (AppStatus::Ready, AppEvent::Pause) => Some(AppStatus::Paused),
        (AppStatus::Paused, AppEvent::Resume) => Some(AppStatus::Idle),
        _ => None,
    }
}

/// The message the machine reports in the Error status.
pub open spec fn transcription_failed_message() -> Seq<char> {
    "Whisper transcription failed. Try again or choose another model."@
}

/// The error the machine carries in `status`: the transcription failure in
/// `Error`, nothing otherwise.
pub open spec fn error_matches(status: AppStatus, error: Option<AppErrorInfo>) -> bool {
    if status == AppStatus::Error {
        error matches Some(info) && info.code == AppErrorCode::WhisperTranscriptionFailed
            && info.message@ == transcription_failed_message()
    } else {
        error is None
    }
}

/// The status reached by feeding `events` in order from `from`, or `None` as
/// soon as one of them is rejected.
pub open spec fn run_events(from: AppStatus, events: Seq<AppEvent>) -> Option<AppStatus>
    decreases events.len(),
{
    if events.len() == 0 {
        Some(from)
    } else {
        match next_status(from, events[0]) {
            Some(next) => run_events(next, events.drop_first()),
            None => None,
        }
    }
}

fn copy_error(e: &Option<AppErrorInfo>) -> (r: Option<AppErrorInfo>)
    ensures
        r == *e,
{
    match e {
        Some(info) => Some(AppErrorInfo { code: info.code, message: info.message.clone() }),
        None => None,
    }
}

fn transcription_failed_info() -> (info: AppErrorInfo)
    ensures
        info.code == AppErrorCode::WhisperTranscriptionFailed,
        info.message@ == transcription_failed_message(),
{
    let message = chars_of("Whisper transcription failed. Try again or choose another model.");
    AppErrorInfo {
        code: AppErrorCode::WhisperTranscriptionFailed,
        message: string_from_chars(&message),
    }
}

impl AppStateMachine {
    #[verifier::type_invariant]
    spec fn error_consistent(self) -> bool {
        error_matches(self.status, self.error)
    }

    pub closed spec fn spec_status(self) -> AppStatus {
        self.status
    }

    pub closed spec fn spec_error(self) -> Option<AppErrorInfo> {
        self.error
    }

    pub closed spec fn spec_updated_at(self) -> Timestamp {
        self.updated_at
    }

    /// A fresh machine: Idle, no error, stamped with the current time.
    pub fn new() -> (m: Self)
        ensures
            m.spec_status() == AppStatus::Idle,
            m.spec_error() is None,
    {
        AppStateMachine { status: AppStatus::Idle, error: None, updated_at: now() }
    }

    pub fn snapshot(&self) -> (s: AppStateSnapshot)
        ensures
            s.status == self.spec_status(),
            s.error == self.spec_error(),
            s.updated_at == self.spec_updated_at(),
            error_matches(s.status, s.error),
    {
        proof {
            use_type_invariant(self);
        }
        AppStateSnapshot { status: self.status, error: copy_error(&self.error), updated_at: self.updated_at }
    }

    pub fn status(&self) -> (s: &AppStatus)
        ensures
            *s == self.spec_status(),
    {
        &self.status
    }

    /// Applies `event`. An accepted event moves to `next_status`, sets the
    /// error exactly when the new status is Error and restamps the machine; a
    /// rejected event changes nothing and reports the status it came from.
    pub fn transition(&mut self, event: AppEvent) -> (r: Result<AppStateSnapshot, StateTransitionError>)
        ensures
            match next_status(old(self).spec_status(), event) {
                Some(next) => {
                    &&& r matches Ok(snap) && snap.status == next && snap.error == final(self).spec_error()
                        && snap.updated_at == final(self).spec_updated_at()
                    &&& final(self).spec_status() == next
                    &&& error_matches(next, final(self).spec_error())
                },
                None => {
                    &&& r matches Err(e) && e.from == old(self).spec_status()
                    &&& final(self).spec_status() == old(self).spec_status()
                    &&& final(self).spec_error() == old(self).spec_error()
                    &&& final(self).spec_updated_at() == old(self).spec_updated_at()
                },
            },
    {
        let next = match (self.status, event) {
            (AppStatus::Idle, AppEvent::StartRecording) => AppStatus::Recording,
            (AppStatus::Ready, AppEvent::StartRecording) => AppStatus::Recording,
            (AppStatus::Recording, AppEvent::StopRecording) => AppStatus::Stopping,
            (AppStatus::Recording, AppEvent::CancelRecording) => AppStatus::Idle,
            (AppStatus::Stopping, AppEvent::ValidAudio) => AppStatus::Transcribing,
            (AppStatus::Stopping, AppEvent::AudioTooShort) => AppStatus::Idle,
            (AppStatus::Stopping, AppEvent::StopFailed) => AppStatus::Idle,
            (AppStatus::Transcribing, AppEvent::TranscriptionSucceeded) => AppStatus::Ready,
            (AppStatus::Transcribing, AppEvent::TranscriptionEmpty) => AppStatus::Idle,
            (AppStatus::Transcribing, AppEvent::TranscriptionFailed) => AppStatus::Error,
            (AppStatus::Ready, AppEvent::StartPasting) => AppStatus::Pasting,
            (AppStatus::Pasting, AppEvent::PasteCompleted) => AppStatus::Ready,
            (AppStatus::Ready, AppEvent::ReadyTimeout) => AppStatus::Idle,
            (AppStatus::Error, AppEvent::ResetError) => AppStatus::Idle,
            (AppStatus::Idle, AppEvent::Pause) => AppStatus::Paused,
            (AppStatus::Ready, AppEvent::Pause) => AppStatus::Paused,
            (AppStatus::Paused, AppEvent::Resume) => AppStatus::Idle,
            _ => {
                return Err(StateTransitionError { from: self.status });
            },
        };
        let error = if next == AppStatus::Error {
            Some(transcription_failed_info())
        } else {
            None
        };
        *self = AppStateMachine { status: next, error, updated_at: now() };
        Ok(self.snapshot())
    }
}

impl Default for AppStateMachine {
    fn default() -> (m: Self)
        ensures
            m.spec_status() == AppStatus::Idle,
            m.spec_error() is None,
    {
        AppStateMachine::new()
    }
}

impl StateTransitionError {
    /// "invalid transition from <status>", the text the error displays as.
    pub fn to_display_string(&self) -> (s: String)
        ensures
            s@ == "invalid transition from "@ + status_name(self.from),
    {
        let mut m = chars_of("invalid transition from ");
        push_str(&mut m, status_label(self.from));
        string_from_chars(&m)
    }
}

/// The variant name of a status, as it prints and serializes.
pub open spec fn status_name(s: AppStatus) -> Seq<char> {
    match s {
        AppStatus::Idle => "Idle"@,
        AppStatus::Recording => "Recording"@,
        AppStatus::Stopping => "Stopping"@,
        AppStatus::Transcribing => "Transcribing"@,
        AppStatus::Pasting => "Pasting"@,
        AppStatus::Ready => "Ready"@,
        AppStatus::Error => "Error"@,
        AppStatus::Paused => "Paused"@,
    }
}

pub fn status_label(s: AppStatus) -> (r: &'static str)
    ensures
        r@ == status_name(s),
{
    match s {
        AppStatus::Idle => "Idle",
        AppStatus::Recording => "Recording",
        AppStatus::Stopping => "Stopping",
        AppStatus::Transcribing => "Transcribing",
        AppStatus::Pasting => "Pasting",
        AppStatus::Ready => "Ready",
        AppStatus::Error => "Error",
        AppStatus::Paused => "Paused",
    }
}

/// No status is a dead end: from every status some sequence of accepted
/// events leads back to Idle (an Error state in particular always recovers).
pub proof fn lemma_every_status_returns_to_idle(s: AppStatus)
    ensures
        exists|events: Seq<AppEvent>| run_events(s, events) == Some(AppStatus::Idle),
{
    let events: Seq<AppEvent> = match s {
        AppStatus::Idle => seq![],
        AppStatus::Recording => seq![AppEvent::CancelRecording],
        AppStatus::Stopping => seq![AppEvent::StopFailed],
        AppStatus::Transcribing => seq![AppEvent::TranscriptionEmpty],
        AppStatus::Pasting => seq![AppEvent::PasteCompleted, AppEvent::ReadyTimeout],
        AppStatus::Ready => seq![AppEvent::ReadyTimeout],
        AppStatus::Error => seq![AppEvent::ResetError],
        AppStatus::Paused => seq![AppEvent::Resume],
    };
    reveal_with_fuel(run_events, 3);
    assert(run_events(s, events) == Some(AppStatus::Idle));
}

/// A recording can only begin from Idle or Ready: in every other status
/// (mid-capture, transcribing, pasting, Error, Paused) the start is refused.
pub proof fn lemma_recording_starts_only_when_idle_or_ready(s: AppStatus)
    ensures
        next_status(s, AppEvent::StartRecording) is Some <==> (s == AppStatus::Idle || s
            == AppStatus::Ready),
{
}

/// Pausing and resuming from Idle comes back to Idle.
pub proof fn lemma_pause_resume_round_trip()
    ensures
        run_events(AppStatus::Idle, seq![AppEvent::Pause, AppEvent::Resume]) == Some(
            AppStatus::Idle,
        ),
{
    reveal_with_fuel(run_events, 3);
}

} // verus!
