use scribe::commands::{
    active_device_attempt, ensure_analysis_enabled, export_file_name, parse_export_format,
    parse_export_scope, transcript_not_in_history, ExportFormat, ExportScope,
};
use scribe::github_oauth::DeviceFlowRegistry;

#[test]
fn export_scopes_and_formats_parse() {
    assert_eq!(parse_export_scope("all").unwrap(), ExportScope::All);
    assert_eq!(parse_export_scope("notes").unwrap(), ExportScope::Notes);
    assert_eq!(parse_export_scope("dictation").unwrap(), ExportScope::Dictation);
    let e = parse_export_scope("everything").unwrap_err();
    assert_eq!(e.code, "invalid_export_scope");
    assert_eq!(e.message, "Unknown export scope \"everything\". Expected all, notes, or dictation.");

    assert_eq!(parse_export_format("markdown").unwrap(), ExportFormat::Markdown);
    assert_eq!(parse_export_format("csv").unwrap(), ExportFormat::Csv);
    assert_eq!(parse_export_format("json").unwrap(), ExportFormat::Json);
    let e = parse_export_format("pdf").unwrap_err();
    assert_eq!(e.code, "invalid_export_format");
    assert_eq!(e.message, "Unknown export format \"pdf\". Expected markdown, csv, or json.");
}

#[test]
fn export_file_names_carry_day_and_extension() {
    assert_eq!(export_file_name("2026-06-12", ExportFormat::Markdown), "scribe-export-2026-06-12.md");
    assert_eq!(export_file_name("2026-06-12", ExportFormat::Csv), "scribe-export-2026-06-12.csv");
    assert_eq!(export_file_name("2026-06-12", ExportFormat::Json), "scribe-export-2026-06-12.json");
}

#[test]
fn only_registered_device_attempts_may_poll() {
    let mut flows = DeviceFlowRegistry::new();
    let flag = flows.start("dev-1");
    assert_eq!(active_device_attempt(&flows, "dev-1").unwrap(), flag);
    let e = active_device_attempt(&flows, "dev-2").unwrap_err();
    assert_eq!(e.code, "github_auth_cancelled");
    assert_eq!(e.message, "This GitHub sign-in attempt is no longer active.");
}

#[test]
fn analysis_needs_the_switch_and_a_known_transcript() {
    assert!(ensure_analysis_enabled(true).is_ok());
    let e = ensure_analysis_enabled(false).unwrap_err();
    assert_eq!(e.code, "note_analysis_disabled");
    let e = transcript_not_in_history("tx_9");
    assert_eq!(e.code, "transcript_not_found");
    assert_eq!(e.message, "Transcript tx_9 was not found in local history.");
}
