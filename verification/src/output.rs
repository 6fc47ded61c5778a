//! What the output paths report: the action taken, its status, and an honest
//! account of what happened to the system clipboard; plus the platform input
//! primitives, which on this platform are the unsupported stubs.
use vstd::prelude::*;

use crate::error::CommandError;
use crate::settings::{OutputMode, PasteMethod};

verus! {

#[derive(Debug, Clone, Copy, PartialEq, Eq, Structural)]
pub enum OutputAction {
    SaveOnly,
    CopyClipboard,
    Paste,
    CopyAndPaste,
}

#[derive(Debug, Clone, Copy, PartialEq, Eq, Structural)]
pub enum OutputStatus {
    Completed,
    /// The transcript was pasted, but the previous clipboard could not be put
    /// back afterwards. The paste itself succeeded.
    ClipboardRestoreFailed,
}

/// What each output path did to the system clipboard.
#[derive(Debug, Clone, Copy, PartialEq, Eq, Structural)]
pub enum ClipboardPreservation {
    /// Never read or written (the keystroke insert).
    Untouched,
    /// Borrowed for Ctrl+V, then the previous contents were restored.
    RestoredAfterPaste,
    /// Borrowed for Ctrl+V, but the restore failed: the transcript is still
    /// on the clipboard.
    RestoreFailed,
    /// Replaced with the transcript on purpose (Copy, Copy + Paste).
    ReplacedWithTranscript,
}

#[derive(Debug, Clone)]
pub struct OutputResult {
    pub transcript_id: String,
    pub action: OutputAction,
    pub status: OutputStatus,
    pub output_mode: OutputMode,
    pub paste_method: Option<PasteMethod>,
    pub copied: bool,
    pub pasted: bool,
    pub clipboard_restored: Option<bool>,
    pub clipboard_preservation: ClipboardPreservation,
    pub clipboard_restore_error: Option<String>,
    pub message: String,
}

/// The action an output mode performs after a transcript is saved; `None`
/// for save-only.
pub fn action_for_mode(mode: OutputMode) -> (r: Option<OutputAction>)
    ensures
        r == match mode {
            OutputMode::SaveOnly => None,
            OutputMode::AutoPaste => Some(OutputAction::Paste),
            OutputMode::CopyClipboard => Some(OutputAction::CopyClipboard),
            OutputMode::CopyAndPaste => Some(OutputAction::CopyAndPaste),
        },
{
    match mode {
        OutputMode::SaveOnly => None,
        OutputMode::AutoPaste => Some(OutputAction::Paste),
        OutputMode::CopyClipboard => Some(OutputAction::CopyClipboard),
        OutputMode::CopyAndPaste => Some(OutputAction::CopyAndPaste),
    }
}

/// Result of a keystroke insert: pasted, clipboard never touched.
pub fn direct_insert_result(transcript_id: &str, output_mode: OutputMode) -> (r: OutputResult)
    ensures
        r.transcript_id@ == transcript_id@,
        r.action == OutputAction::Paste,
        r.status == OutputStatus::Completed,
        r.output_mode == output_mode,
        r.paste_method == Some(PasteMethod::DirectInsert),
        !r.copied,
        r.pasted,
        r.clipboard_restored is None,
        r.clipboard_preservation == ClipboardPreservation::Untouched,
        r.clipboard_restore_error is None,
        r.message@ == "Inserted via keystrokes; clipboard untouched."@,
{
    OutputResult {
        transcript_id: transcript_id.to_string(),
        action: OutputAction::Paste,
        status: OutputStatus::Completed,
        output_mode,
        paste_method: Some(PasteMethod::DirectInsert),
        copied: false,
        pasted: true,
        clipboard_restored: None,
        clipboard_preservation: ClipboardPreservation::Untouched,
        clipboard_restore_error: None,
        message: "Inserted via keystrokes; clipboard untouched.".to_string(),
    }
}

/// Result of a borrow-and-restore paste, given how the restore went. A failed
/// restore is a partial success, reported honestly rather than as an error.
pub fn clipboard_paste_result(
    transcript_id: &str,
    output_mode: OutputMode,
    restore: Result<(), CommandError>,
) -> (r: OutputResult)
    ensures
        r.transcript_id@ == transcript_id@,
        r.action == OutputAction::Paste,
        r.output_mode == output_mode,
        r.paste_method == Some(PasteMethod::ClipboardPaste),
        r.pasted,
        match restore {
            Ok(()) => {
                &&& r.status == OutputStatus::Completed
                &&& !r.copied
                &&& r.clipboard_restored == Some(true)
                &&& r.clipboard_preservation == ClipboardPreservation::RestoredAfterPaste
                &&& r.clipboard_restore_error is None
                &&& r.message@ == "Pasted transcript and restored your clipboard."@
            },
            Err(e) => {
                &&& r.status == OutputStatus::ClipboardRestoreFailed
                &&& r.copied
                &&& r.clipboard_restored == Some(false)
                &&& r.clipboard_preservation == ClipboardPreservation::RestoreFailed
                &&& r.clipboard_restore_error matches Some(m) && m@ == e.message@
                &&& r.message@ == "Pasted transcript, but couldn't restore your previous clipboard."@
            },
        },
{
    match restore {
        Ok(()) => OutputResult {
            transcript_id: transcript_id.to_string(),
            action: OutputAction::Paste,
            status: OutputStatus::Completed,
            output_mode,
            paste_method: Some(PasteMethod::ClipboardPaste),
            copied: false,
            pasted: true,
            clipboard_restored: Some(true),
            clipboard_preservation: ClipboardPreservation::RestoredAfterPaste,
            clipboard_restore_error: None,
            message: "Pasted transcript and restored your clipboard.".to_string(),
        },
        Err(error) => OutputResult {
            transcript_id: transcript_id.to_string(),
            action: OutputAction::Paste,
            status: OutputStatus::ClipboardRestoreFailed,
            output_mode,
            paste_method: Some(PasteMethod::ClipboardPaste),
            copied: true,
            pasted: true,
            clipboard_restored: Some(false),
            clipboard_preservation: ClipboardPreservation::RestoreFailed,
            clipboard_restore_error: Some(error.message),
            message: "Pasted transcript, but couldn't restore your previous clipboard.".to_string(),
        },
    }
}

/// Result of the Copy mode: the transcript is left on the clipboard.
pub fn copy_result(transcript_id: &str, output_mode: OutputMode) -> (r: OutputResult)
    ensures
        r.transcript_id@ == transcript_id@,
        r.action == OutputAction::CopyClipboard,
        r.status == OutputStatus::Completed,
        r.output_mode == output_mode,
        r.paste_method is None,
        r.copied,
        !r.pasted,
        r.clipboard_restored is None,
        r.clipboard_preservation == ClipboardPreservation::ReplacedWithTranscript,
        r.clipboard_restore_error is None,
        r.message@ == "Copied transcript to the clipboard."@,
{
    OutputResult {
        transcript_id: transcript_id.to_string(),
        action: OutputAction::CopyClipboard,
        status: OutputStatus::Completed,
        output_mode,
        paste_method: None,
        copied: true,
        pasted: false,
        clipboard_restored: None,
        clipboard_preservation: ClipboardPreservation::ReplacedWithTranscript,
        clipboard_restore_error: None,
        message: "Copied transcript to the clipboard.".to_string(),
    }
}

/// Result of Copy + Paste: copied, pasted, and left on the clipboard.
pub fn copy_and_paste_result(transcript_id: &str) -> (r: OutputResult)
    ensures
        r.transcript_id@ == transcript_id@,
        r.action == OutputAction::CopyAndPaste,
        r.status == OutputStatus::Completed,
        r.output_mode == OutputMode::CopyAndPaste,
        r.paste_method == Some(PasteMethod::ClipboardPaste),
        r.copied,
        r.pasted,
        r.clipboard_restored is None,
        r.clipboard_preservation == ClipboardPreservation::ReplacedWithTranscript,
        r.clipboard_restore_error is None,
        r.message@ == "Copied transcript to the clipboard and pasted it."@,
{
    OutputResult {
        transcript_id: transcript_id.to_string(),
        action: OutputAction::CopyAndPaste,
        status: OutputStatus::Completed,
        output_mode: OutputMode::CopyAndPaste,
        paste_method: Some(PasteMethod::ClipboardPaste),
        copied: true,
        pasted: true,
        clipboard_restored: None,
        clipboard_preservation: ClipboardPreservation::ReplacedWithTranscript,
        clipboard_restore_error: None,
        message: "Copied transcript to the clipboard and pasted it.".to_string(),
    }
}

/// Error when the Last Transcript Buffer is empty.
pub fn no_last_transcript() -> (e: CommandError)
    ensures
        e.code@ == "last_transcript_missing"@,
        e.message@ == "No transcript is available in the Last Transcript Buffer."@,
{
    CommandError::new(
        "last_transcript_missing",
        "No transcript is available in the Last Transcript Buffer.",
    )
}

// --- platform input primitives (this platform has no synthetic input) ------

/// Focus guard before pasting: nothing to guard here, so always `Ok`.
pub fn ensure_foreign_focus() -> (r: Result<(), CommandError>)
    ensures
        r is Ok,
{
    Ok(())
}

/// Keystroke insertion is Windows-only: always `direct_insert_unsupported`.
pub fn direct_insert_text(text: &str) -> (r: Result<(), CommandError>)
    ensures
        r matches Err(e) && e.code@ == "direct_insert_unsupported"@
            && e.message@ == "Direct Insert is currently implemented for Windows only."@,
{
    Err(
        CommandError::new(
            "direct_insert_unsupported",
            "Direct Insert is currently implemented for Windows only.",
        ),
    )
}

/// Synthetic Ctrl+V is Windows-only: always `paste_unsupported`.
pub fn send_paste_shortcut() -> (r: Result<(), CommandError>)
    ensures
        r matches Err(e) && e.code@ == "paste_unsupported"@
            && e.message@ == "Programmatic paste is currently implemented for Windows only."@,
{
    Err(
        CommandError::new(
            "paste_unsupported",
            "Programmatic paste is currently implemented for Windows only.",
        ),
    )
}

/// There is no raw clipboard to snapshot here: always empty ("nothing to
/// restore").
pub fn save_clipboard_snapshot() -> (r: Vec<(u32, Vec<u8>)>)
    ensures
        r@.len() == 0,
{
    Vec::new()
}

/// Nothing was snapshotted, so restoring is a successful no-op.
pub fn restore_clipboard_snapshot(snapshot: &Vec<(u32, Vec<u8>)>) -> (r: Result<(), CommandError>)
    ensures
        r is Ok,
{
    Ok(())
}

} // verus!
