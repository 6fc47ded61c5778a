use scribe::error::CommandError;
use scribe::output::{
    action_for_mode, clipboard_paste_result, copy_and_paste_result, copy_result,
    direct_insert_result, direct_insert_text, ensure_foreign_focus, restore_clipboard_snapshot,
    save_clipboard_snapshot, send_paste_shortcut, ClipboardPreservation, OutputAction,
    OutputResult, OutputStatus,
};
use scribe::output_uia::{control_type_label, insert_focused, uia_outcome, uia_step, UiaStep};
use scribe::settings::{OutputMode, PasteMethod};
use scribe::transcript::Transcript;

#[test]
fn direct_insert_result_reports_clipboard_untouched() {
    let transcript = Transcript::new_last_buffer("hello", Some(100), None, None).unwrap();

    let result = OutputResult {
        transcript_id: transcript.id,
        action: OutputAction::Paste,
        status: OutputStatus::Completed,
        output_mode: OutputMode::AutoPaste,
        paste_method: Some(PasteMethod::DirectInsert),
        copied: false,
        pasted: true,
        clipboard_restored: None,
        clipboard_preservation: ClipboardPreservation::Untouched,
        clipboard_restore_error: None,
        message: "Inserted via keystrokes; clipboard untouched.".to_string(),
    };

    assert_eq!(result.clipboard_preservation, ClipboardPreservation::Untouched);
    assert!(!result.copied);
    assert!(result.pasted);
}

#[test]
fn clipboard_paste_success_result_reports_restored_clipboard() {
    let transcript = Transcript::new_last_buffer("hello", Some(100), None, None).unwrap();

    let result = OutputResult {
        transcript_id: transcript.id,
        action: OutputAction::Paste,
        status: OutputStatus::Completed,
        output_mode: OutputMode::AutoPaste,
        paste_method: Some(PasteMethod::ClipboardPaste),
        copied: false,
        pasted: true,
        clipboard_restored: Some(true),
        clipboard_preservation: ClipboardPreservation::RestoredAfterPaste,
        clipboard_restore_error: None,
        message: "Pasted transcript and restored your clipboard.".to_string(),
    };

    assert_eq!(result.clipboard_preservation, ClipboardPreservation::RestoredAfterPaste);
    assert_eq!(result.status, OutputStatus::Completed);
    assert!(!result.copied);
    assert!(result.pasted);
    assert_eq!(result.clipboard_restored, Some(true));
    assert!(result.clipboard_restore_error.is_none());
}

#[test]
fn clipboard_paste_restore_failure_result_is_honest() {
    let transcript = Transcript::new_last_buffer("hello", Some(100), None, None).unwrap();

    let result = OutputResult {
        transcript_id: transcript.id,
        action: OutputAction::Paste,
        status: OutputStatus::ClipboardRestoreFailed,
        output_mode: OutputMode::AutoPaste,
        paste_method: Some(PasteMethod::ClipboardPaste),
        copied: true,
        pasted: true,
        clipboard_restored: Some(false),
        clipboard_preservation: ClipboardPreservation::RestoreFailed,
        clipboard_restore_error: Some("clipboard write failed".to_string()),
        message: "Pasted transcript, but couldn't restore your previous clipboard.".to_string(),
    };

    assert_eq!(result.clipboard_preservation, ClipboardPreservation::RestoreFailed);
    assert_eq!(result.status, OutputStatus::ClipboardRestoreFailed);
    assert!(result.pasted);
    assert_eq!(result.clipboard_restored, Some(false));
    assert!(result.clipboard_restore_error.is_some());
}

#[test]
fn built_results_match_each_output_path() {
    let direct = direct_insert_result("tx_a", OutputMode::AutoPaste);
    assert_eq!(direct.clipboard_preservation, ClipboardPreservation::Untouched);
    assert_eq!(direct.paste_method, Some(PasteMethod::DirectInsert));
    assert_eq!(direct.transcript_id, "tx_a");

    let restored = clipboard_paste_result("tx_b", OutputMode::AutoPaste, Ok(()));
    assert_eq!(restored.status, OutputStatus::Completed);
    assert_eq!(restored.clipboard_restored, Some(true));
    assert!(!restored.copied);

    let failed = clipboard_paste_result(
        "tx_c",
        OutputMode::AutoPaste,
        Err(CommandError::new("clipboard_write_failed", "clipboard write failed")),
    );
    assert_eq!(failed.status, OutputStatus::ClipboardRestoreFailed);
    assert_eq!(failed.clipboard_restore_error.as_deref(), Some("clipboard write failed"));
    assert!(failed.copied && failed.pasted);

    let copied = copy_result("tx_d", OutputMode::CopyClipboard);
    assert_eq!(copied.action, OutputAction::CopyClipboard);
    assert!(copied.copied && !copied.pasted);

    let both = copy_and_paste_result("tx_e");
    assert_eq!(both.action, OutputAction::CopyAndPaste);
    assert_eq!(both.output_mode, OutputMode::CopyAndPaste);
}

#[test]
fn output_modes_map_to_actions() {
    assert_eq!(action_for_mode(OutputMode::SaveOnly), None);
    assert_eq!(action_for_mode(OutputMode::AutoPaste), Some(OutputAction::Paste));
    assert_eq!(action_for_mode(OutputMode::CopyClipboard), Some(OutputAction::CopyClipboard));
    assert_eq!(action_for_mode(OutputMode::CopyAndPaste), Some(OutputAction::CopyAndPaste));
}

#[test]
fn platform_input_stubs_report_unsupported() {
    assert!(ensure_foreign_focus().is_ok());
    assert_eq!(direct_insert_text("x").unwrap_err().code, "direct_insert_unsupported");
    assert_eq!(send_paste_shortcut().unwrap_err().code, "paste_unsupported");
    let snapshot = save_clipboard_snapshot();
    assert!(snapshot.is_empty());
    assert!(restore_clipboard_snapshot(&snapshot).is_ok());
}

#[test]
fn non_windows_stub_errors() {
    let err = insert_focused("hi").unwrap_err();
    assert_eq!(err.code, "uia_insert_unsupported");
}

#[test]
fn new_transcript_is_trimmed_and_counted() {
    let t = Transcript::new_last_buffer("  two words \n", Some(5), None, Some("en".to_string()))
        .unwrap();
    assert_eq!(t.text, "two words");
    assert_eq!(t.word_count, 2);
    assert_eq!(t.character_count, 9);
    assert!(t.id.starts_with("tx_"));
    assert_eq!(t.id.len(), 39);
    assert!(Transcript::new_last_buffer(" \t ", None, None, None).is_none());
}

#[test]
fn uia_skips_controls_it_cannot_write_safely() {
    assert_eq!(uia_step(false, None, None), UiaStep::NoValuePattern);
    assert_eq!(uia_step(true, Some(true), Some("")), UiaStep::ReadOnly);
    assert_eq!(uia_step(true, Some(false), Some("héllo")), UiaStep::UnsafeOverwrite(5));
    assert_eq!(uia_step(true, None, Some("")), UiaStep::SetValue);
    assert_eq!(uia_step(true, Some(false), None), UiaStep::SetValue);
}

#[test]
fn uia_outcome_reports_the_step() {
    let skipped = uia_outcome(UiaStep::UnsafeOverwrite(12), Some("Edit".to_string()), None);
    assert!(!skipped.inserted);
    assert_eq!(skipped.method, "unsupported_unsafe_overwrite");
    assert!(skipped.message.starts_with("Focused control already contains 12 character(s); "));
    assert_eq!(skipped.control_type.as_deref(), Some("Edit"));

    let written = uia_outcome(UiaStep::SetValue, None, Some("Search".to_string()));
    assert!(written.inserted);
    assert_eq!(written.method, "value_pattern");
    assert_eq!(written.message, "Inserted via UIA ValuePattern::SetValue (no clipboard, no keystrokes).");

    let none = uia_outcome(UiaStep::NoValuePattern, None, None);
    assert_eq!(none.method, "unsupported_no_value_pattern");
    assert!(none.message.ends_with("Fall back to keystrokes."));
}

#[test]
fn control_types_have_short_labels() {
    assert_eq!(control_type_label(50004), "Edit");
    assert_eq!(control_type_label(50030), "Document");
    assert_eq!(control_type_label(50020), "ControlType(50020)");
    assert_eq!(control_type_label(-3), "ControlType(-3)");
}
