//! The single, authoritative dictation-state model: the mapping from the
//! internal `AppStatus` to the two consumer-facing flags, `dictating` (the
//! microphone is capturing) and `busy` (anywhere in the capture-to-insert
//! cycle), and the snapshot that carries them.
use vstd::prelude::*;

use crate::app_state::{AppStateSnapshot, AppStatus};
use crate::clock::Timestamp;

verus! {

/// Snapshot contract version.
pub const SCHEMA_VERSION: u32 = 1;

/// Producer name every payload carries.
pub const APP_NAME: &'static str = "scribe";

/// The application's semantic version, carried as `appVersion`.
pub fn app_version() -> (v: &'static str)
    ensures
        v@ == "0.1.0"@,
{
    "0.1.0"
}

pub open spec fn dictating_status(status: AppStatus) -> bool {
    status == AppStatus::Recording || status == AppStatus::Stopping
}

pub open spec fn busy_status(status: AppStatus) -> bool {
    status == AppStatus::Recording || status == AppStatus::Stopping || status
        == AppStatus::Transcribing || status == AppStatus::Pasting
}

/// The microphone is capturing: `Recording`, and `Stopping` while the audio
/// tail flushes.
pub fn is_dictating(status: &AppStatus) -> (r: bool)
    ensures
        r == dictating_status(*status),
{
    match status {
        AppStatus::Recording | AppStatus::Stopping => true,
        _ => false,
    }
}

/// The user is inside a dictation cycle: dictating, or transcribing, or
/// pasting.
pub fn is_busy(status: &AppStatus) -> (r: bool)
    ensures
        r == busy_status(*status),
{
    match status {
        AppStatus::Recording | AppStatus::Stopping | AppStatus::Transcribing
        | AppStatus::Pasting => true,
        _ => false,
    }
}

/// Whenever the microphone is capturing, the app reports itself busy.
pub proof fn lemma_dictating_implies_busy(status: AppStatus)
    ensures
        dictating_status(status) ==> busy_status(status),
{
}

/// A finished, reset, paused or idle producer never claims activity.
pub proof fn lemma_inactive_states_report_nothing(status: AppStatus)
    requires
        status == AppStatus::Idle || status == AppStatus::Ready || status == AppStatus::Error
            || status == AppStatus::Paused,
    ensures
        !dictating_status(status),
        !busy_status(status),
{
}

/// The wire snapshot.
#[derive(Debug, Clone)]
pub struct DictationSnapshot {
    pub schema_version: u32,
    pub app: &'static str,
    pub app_version: &'static str,
    pub status: AppStatus,
    pub dictating: bool,
    pub busy: bool,
    /// When the current status was entered.
    pub since: Timestamp,
    /// When this snapshot was produced.
    pub updated_at: Timestamp,
    pub pid: u32,
}

impl DictationSnapshot {
    /// Projects a state-machine snapshot onto the wire shape: `since` is the
    /// state's own stamp, `updated_at` is `now`.
    pub fn from_state(state: &AppStateSnapshot, now: Timestamp, pid: u32) -> (s: Self)
        ensures
            s.schema_version == SCHEMA_VERSION,
            s.app@ == "scribe"@,
            s.app_version@ == "0.1.0"@,
            s.status == state.status,
            s.dictating == dictating_status(state.status),
            s.busy == busy_status(state.status),
            s.since == state.updated_at,
            s.updated_at == now,
            s.pid == pid,
    {
        DictationSnapshot {
            schema_version: SCHEMA_VERSION,
            app: APP_NAME,
            app_version: app_version(),
            status: state.status,
            dictating: is_dictating(&state.status),
            busy: is_busy(&state.status),
            since: state.updated_at,
            updated_at: now,
            pid,
        }
    }
}

} // verus!
