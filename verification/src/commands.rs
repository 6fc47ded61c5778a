//! The decisions behind the app's commands: the GitHub connection summary,
//! the device-flow prompt and which attempt may be polled, the export scope
//! and format a request names, the analysis switch, and the restore preview.
use vstd::prelude::*;

use crate::error::CommandError;
use crate::github_oauth::{is_configured, valid_client_id, DeviceCode, DeviceFlowRegistry};
use crate::text::{chars_of, eq_str, push_str, string_from_chars};
use crate::transcript::Transcript;
use crate::import::PreparedImport;
use vstd::string::StringSliceAdditionalSpecFns;

verus! {

/// Connection and configuration status for the sync settings.
#[derive(Debug, Clone)]
pub struct GithubStatus {
    /// A valid GitHub App client id is configured (device flow available).
    pub configured: bool,
    /// An access token is present in the keychain.
    pub connected: bool,
    /// The connected login (empty when not connected).
    pub username: String,
    /// The target repository, `owner/name` (empty when unset).
    pub repo: String,
}

/// The status shown for a build with `client_id`, a keychain that does or
/// does not hold a token, and the saved login and repository.
pub fn github_status(client_id: Option<&str>, has_token: bool, username: String, repo: String) -> (s:
    GithubStatus)
    ensures
        s.configured == (client_id matches Some(v) && valid_client_id(v.spec_bytes())),
        s.connected == has_token,
        s.username == username,
        s.repo == repo,
{
    GithubStatus { configured: is_configured(client_id), connected: has_token, username, repo }
}

/// The device-flow prompt the UI shows; the UI hands `device_code` and
/// `interval_secs` back to poll.
#[derive(Debug, Clone)]
pub struct GithubDeviceStart {
    pub device_code: String,
    pub user_code: String,
    pub verification_uri: String,
    pub expires_in_secs: u64,
    pub interval_secs: u64,
}

pub fn device_start(device: DeviceCode) -> (s: GithubDeviceStart)
    ensures
        s.device_code == device.device_code,
        s.user_code == device.user_code,
        s.verification_uri == device.verification_uri,
        s.expires_in_secs == device.expires_in,
        s.interval_secs == device.interval,
{
    GithubDeviceStart {
        device_code: device.device_code,
        user_code: device.user_code,
        verification_uri: device.verification_uri,
        expires_in_secs: device.expires_in,
        interval_secs: device.interval,
    }
}

/// What a backup would restore, shown before the user confirms.
#[derive(Debug, Clone)]
pub struct TranscriptImportPreview {
    pub path: String,
    pub file_name: String,
    pub total: u32,
    pub notes: u32,
    pub dictations: u32,
    pub conflicts: u32,
    pub audio_paths_removed: u32,
    pub metadata_corrected: u32,
    pub fingerprint: String,
}

/// The preview of a prepared backup read from `path`; a file name that is
/// not available is shown as "Scribe backup.json".
pub fn import_preview(
    path: String,
    file_name: Option<String>,
    prepared: &PreparedImport,
    conflicts: u32,
    fingerprint: String,
) -> (p: TranscriptImportPreview)
    ensures
        p.path == path,
        p.file_name@ == match file_name {
            Some(n) => n@,
            None => "Scribe backup.json"@,
        },
        p.total == prepared.total,
        p.notes == prepared.notes,
        p.dictations == prepared.dictations,
        p.conflicts == conflicts,
        p.audio_paths_removed == prepared.audio_paths_removed,
        p.metadata_corrected == prepared.metadata_corrected,
        p.fingerprint == fingerprint,
{
    let file_name = match file_name {
        Some(n) => n,
        None => "Scribe backup.json".to_string(),
    };
    TranscriptImportPreview {
        path,
        file_name,
        total: prepared.total,
        notes: prepared.notes,
        dictations: prepared.dictations,
        conflicts,
        audio_paths_removed: prepared.audio_paths_removed,
        metadata_corrected: prepared.metadata_corrected,
        fingerprint,
    }
}

/// The poll of the device flow `device_code` may go on only while the
/// attempt is registered; its cancellation flag is handed back.
pub fn active_device_attempt(flows: &DeviceFlowRegistry, device_code: &str) -> (r: Result<u64, CommandError>)
    ensures
        flows.attempt_of(device_code@) is Some <==> r is Ok,
        r matches Ok(flag) ==> flows.attempt_of(device_code@) == Some(flag),
        r matches Err(e) ==> e.code@ == "github_auth_cancelled"@ && e.message@
            == "This GitHub sign-in attempt is no longer active."@,
{
    match flows.get(device_code) {
        Some(flag) => Ok(flag),
        None => Err(
            CommandError::from_parts(
                "github_auth_cancelled",
                "This GitHub sign-in attempt is no longer active.".to_string(),
            ),
        ),
    }
}

/// Note analysis runs only when it is switched on in Settings.
pub fn ensure_analysis_enabled(enabled: bool) -> (r: Result<(), CommandError>)
    ensures
        r is Ok <==> enabled,
        r matches Err(e) ==> e.code@ == "note_analysis_disabled"@ && e.message@
            == "Notes analysis is turned off in Settings."@,
{
    if enabled {
        Ok(())
    } else {
        Err(
            CommandError::from_parts(
                "note_analysis_disabled",
                "Notes analysis is turned off in Settings.".to_string(),
            ),
        )
    }
}

/// The refusal of an analysis of a transcript that is not in the history.
pub fn transcript_not_in_history(id: &str) -> (e: CommandError)
    ensures
        e.code@ == "transcript_not_found"@,
        e.message@ == "Transcript "@ + id@ + " was not found in local history."@,
{
    let mut m = chars_of("Transcript ");
    push_str(&mut m, id);
    push_str(&mut m, " was not found in local history.");
    CommandError::from_parts("transcript_not_found", string_from_chars(&m))
}

/// Which transcripts an export holds.
#[derive(Debug, Clone, Copy, PartialEq, Eq, Structural)]
pub enum ExportScope {
    All,
    Notes,
    Dictation,
}

/// The file format of an export.
#[derive(Debug, Clone, Copy, PartialEq, Eq, Structural)]
pub enum ExportFormat {
    Markdown,
    Csv,
    Json,
}

/// The scope an export request names: "all", "notes" or "dictation".
pub fn parse_export_scope(scope: &str) -> (r: Result<ExportScope, CommandError>)
    ensures
        scope@ == "all"@ ==> r == Ok::<ExportScope, CommandError>(ExportScope::All),
        scope@ == "notes"@ ==> r == Ok::<ExportScope, CommandError>(ExportScope::Notes),
        scope@ == "dictation"@ ==> r == Ok::<ExportScope, CommandError>(ExportScope::Dictation),
        r is Err <==> (scope@ != "all"@ && scope@ != "notes"@ && scope@ != "dictation"@),
        r matches Err(e) ==> e.code@ == "invalid_export_scope"@ && e.message@
            == "Unknown export scope \""@ + scope@ + "\". Expected all, notes, or dictation."@,
{
    proof {
        reveal_strlit("all");
        reveal_strlit("notes");
        reveal_strlit("dictation");
        assert("all"@.len() == 3 && "notes"@.len() == 5 && "dictation"@.len() == 9);
    }
    if eq_str(&chars_of(scope), "all") {
        Ok(ExportScope::All)
    } else if eq_str(&chars_of(scope), "notes") {
        Ok(ExportScope::Notes)
    } else if eq_str(&chars_of(scope), "dictation") {
        Ok(ExportScope::Dictation)
    } else {
        let mut m = chars_of("Unknown export scope \"");
        push_str(&mut m, scope);
        push_str(&mut m, "\". Expected all, notes, or dictation.");
        Err(CommandError::from_parts("invalid_export_scope", string_from_chars(&m)))
    }
}

/// The format an export request names: "markdown", "csv" or "json".
pub fn parse_export_format(format: &str) -> (r: Result<ExportFormat, CommandError>)
    ensures
        format@ == "markdown"@ ==> r == Ok::<ExportFormat, CommandError>(ExportFormat::Markdown),
        format@ == "csv"@ ==> r == Ok::<ExportFormat, CommandError>(ExportFormat::Csv),
        format@ == "json"@ ==> r == Ok::<ExportFormat, CommandError>(ExportFormat::Json),
        r is Err <==> (format@ != "markdown"@ && format@ != "csv"@ && format@ != "json"@),
        r matches Err(e) ==> e.code@ == "invalid_export_format"@ && e.message@
            == "Unknown export format \""@ + format@ + "\". Expected markdown, csv, or json."@,
{
    proof {
        reveal_strlit("markdown");
        reveal_strlit("csv");
        reveal_strlit("json");
        assert("markdown"@.len() == 8 && "csv"@.len() == 3 && "json"@.len() == 4);
    }
    if eq_str(&chars_of(format), "markdown") {
        Ok(ExportFormat::Markdown)
    } else if eq_str(&chars_of(format), "csv") {
        Ok(ExportFormat::Csv)
    } else if eq_str(&chars_of(format), "json") {
        Ok(ExportFormat::Json)
    } else {
        let mut m = chars_of("Unknown export format \"");
        push_str(&mut m, format);
        push_str(&mut m, "\". Expected markdown, csv, or json.");
        Err(CommandError::from_parts("invalid_export_format", string_from_chars(&m)))
    }
}

pub open spec fn extension_of(format: ExportFormat) -> Seq<char> {
    match format {
        ExportFormat::Markdown => "md"@,
        ExportFormat::Csv => "csv"@,
        ExportFormat::Json => "json"@,
    }
}

impl ExportFormat {
    /// The file extension of the format.
    pub fn extension(self) -> (r: &'static str)
        ensures
            r@ == extension_of(self),
    {
        match self {
            ExportFormat::Markdown => "md",
            ExportFormat::Csv => "csv",
            ExportFormat::Json => "json",
        }
    }
}

/// The suggested file name of an export made on local day `day`
/// (`YYYY-MM-DD`): `scribe-export-{day}.{extension}`.
pub fn export_file_name(day: &str, format: ExportFormat) -> (r: String)
    ensures
        r@ == "scribe-export-"@ + day@ + "."@ + extension_of(format),
{
    let mut m = chars_of("scribe-export-");
    push_str(&mut m, day);
    push_str(&mut m, ".");
    push_str(&mut m, format.extension());
    string_from_chars(&m)
}

} // verus!
