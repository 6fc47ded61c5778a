use scribe::clock::Timestamp;
use scribe::import::{
    check_import_size, normalize, prepare_import, sha256_fingerprint, valid_transcript_id,
    validate_transcript, verify_fingerprint,
};
use scribe::transcript::Transcript;

fn exported() -> Transcript {
    let mut transcript =
        Transcript::new_last_buffer("restored words", Some(800), None, Some("en".into())).unwrap();
    transcript.audio_path = Some("C:\\private\\clip.wav".into());
    transcript.word_count = 999;
    transcript.character_count = 999;
    transcript
}

#[test]
fn prepares_lossless_export_and_removes_untrusted_local_paths() {
    let prepared = prepare_import(&vec![exported()]).unwrap();

    assert_eq!(prepared.total, 1);
    assert_eq!(prepared.dictations, 1);
    assert_eq!(prepared.notes, 0);
    assert_eq!(prepared.audio_paths_removed, 1);
    assert_eq!(prepared.metadata_corrected, 1);
    assert_eq!(prepared.transcripts[0].audio_path, None);
    assert_eq!(prepared.transcripts[0].word_count, 2);
    assert_eq!(prepared.transcripts[0].character_count, 14);
}

#[test]
fn rejects_duplicate_ids() {
    let transcript = exported();
    let error = prepare_import(&vec![transcript.clone(), transcript.clone()]).unwrap_err();
    assert_eq!(error.code, "duplicate_import_id");
    assert_eq!(
        error.message,
        format!("The backup contains the transcript id \"{}\" more than once.", transcript.id)
    );
}

#[test]
fn many_distinct_ids_are_accepted() {
    let rows: Vec<Transcript> = (0..500)
        .map(|i| {
            let mut t = exported();
            t.id = format!("tx_{i}");
            t.is_note = i % 2 == 0;
            t
        })
        .collect();
    let prepared = prepare_import(&rows).unwrap();
    assert_eq!(prepared.total, 500);
    assert_eq!(prepared.notes, 250);
    assert_eq!(prepared.dictations, 250);
}

#[test]
fn rejects_blank_text_and_invalid_ids() {
    let mut transcript = exported();
    transcript.text = "  ".into();
    let error = prepare_import(&vec![transcript]).unwrap_err();
    assert_eq!(error.code, "invalid_import_record");
    assert_eq!(error.message, "Backup record 1 has no transcript text.");

    let mut transcript = exported();
    transcript.id = "../../settings".into();
    let error = prepare_import(&vec![exported(), transcript]).unwrap_err();
    assert_eq!(error.code, "invalid_import_record");
    assert_eq!(error.message, "Backup record 2 has an invalid transcript id.");
}

#[test]
fn transcript_ids_are_checked_bytewise() {
    assert!(valid_transcript_id("tx_abc-DEF_123"));
    assert!(!valid_transcript_id("tx_"));
    assert!(!valid_transcript_id("ab_cd"));
    assert!(!valid_transcript_id("tx_a/b"));
    assert!(!valid_transcript_id(&format!("tx_{}", "a".repeat(126))));
    assert!(valid_transcript_id(&format!("tx_{}", "a".repeat(125))));
}

#[test]
fn clears_analysis_provenance_when_analysis_is_absent() {
    let mut transcript = exported();
    transcript.analysis = None;
    transcript.analysis_model = Some("stale-model".into());
    transcript.analysis_created_at = Some(Timestamp { secs: 1_000, nanos: 0 });

    let prepared = prepare_import(&vec![transcript]).unwrap();
    assert_eq!(prepared.transcripts[0].analysis_model, None);
    assert_eq!(prepared.transcripts[0].analysis_created_at, None);

    let mut analyzed = exported();
    analyzed.analysis = Some("summary".into());
    analyzed.analysis_model = Some("m".into());
    assert_eq!(normalize(&analyzed).analysis_model.as_deref(), Some("m"));
}

#[test]
fn bounds_every_free_form_metadata_field() {
    let updates: [fn(&mut Transcript); 3] = [
        |transcript: &mut Transcript| transcript.model_id = Some("m".repeat(257)),
        |transcript: &mut Transcript| transcript.language = Some("l".repeat(65)),
        |transcript: &mut Transcript| {
            transcript.analysis = Some("summary".into());
            transcript.analysis_model = Some("a".repeat(257));
        },
    ];
    for update in updates {
        let mut transcript = exported();
        update(&mut transcript);
        let error = prepare_import(&vec![transcript]).unwrap_err();
        assert_eq!(error.code, "invalid_import_record");
    }
    let mut ok = exported();
    ok.language = Some("l".repeat(64));
    assert!(validate_transcript(&ok, 0).is_ok());
}

#[test]
fn oversized_backups_are_refused() {
    assert!(check_import_size(100 * 1024 * 1024).is_ok());
    assert_eq!(check_import_size(100 * 1024 * 1024 + 1).unwrap_err().code, "import_too_large");
    let rows: Vec<Transcript> = vec![exported(); 100_001];
    assert_eq!(prepare_import(&rows).unwrap_err().code, "import_too_many_records");
}

#[test]
fn fingerprint_changes_with_any_previewed_byte() {
    let first = sha256_fingerprint(br#"[{"id":"tx_1"}]"#);
    let second = sha256_fingerprint(br#"[{"id":"tx_2"}]"#);
    assert_eq!(first.len(), 64);
    assert_ne!(first, second);
    assert!(verify_fingerprint(&first, &first).is_ok());
    let error = verify_fingerprint(&second, &first).unwrap_err();
    assert_eq!(error.code, "import_file_changed");
}

#[test]
fn fingerprint_of_empty_input_is_the_known_digest() {
    assert_eq!(
        sha256_fingerprint(b""),
        "e3b0c44298fc1c149afbf4c8996fb92427ae41e4649b934ca495991b7852b855"
    );
}

#[test]
fn restore_reads_only_json_files() {
    assert!(scribe::import::check_import_path("C:/backups/scribe.json").is_ok());
    assert!(scribe::import::check_import_path("/tmp/Backup.JSON").is_ok());
    let e = scribe::import::check_import_path("/tmp/backup.csv").unwrap_err();
    assert_eq!(e.code, "invalid_import_file");
    assert_eq!(e.message, "Choose a .json file exported by Scribe.");
    assert!(scribe::import::check_import_path("/tmp/json").is_err());
}

#[test]
fn normalizing_twice_changes_nothing() {
    let mut t = exported();
    t.word_count = 99;
    t.audio_path = Some("C:/clips/a.wav".into());
    t.analysis = None;
    t.analysis_model = Some("stale".into());
    let once = normalize(&t);
    let twice = normalize(&once);
    assert_eq!(once.word_count, twice.word_count);
    assert_eq!(once.character_count, twice.character_count);
    assert_eq!(twice.audio_path, None);
    assert_eq!(twice.analysis_model, None);
    assert_eq!(once.text, twice.text);
    let prepared = prepare_import(&vec![once]).unwrap();
    assert_eq!(prepared.metadata_corrected, 0);
    assert_eq!(prepared.audio_paths_removed, 0);
}

#[test]
fn a_fresh_transcript_id_passes_the_restore_check() {
    let t = Transcript::new_last_buffer("hello", None, None, None).unwrap();
    assert!(t.id.starts_with("tx_"));
    assert_eq!(t.id.len(), 39);
    assert!(valid_transcript_id(&t.id));
}

#[test]
fn editing_trims_the_text_and_counts_again() {
    let t = Transcript::new_last_buffer("old words here", Some(800), None, Some("en".into())).unwrap();
    let edited = t.edited("  new text \n").unwrap();
    assert_eq!(edited.text, "new text");
    assert_eq!(edited.word_count, 2);
    assert_eq!(edited.character_count, 8);
    assert_eq!(edited.id, t.id);
    assert_eq!(edited.duration_ms, Some(800));
    let err = t.edited("   ").unwrap_err();
    assert_eq!(err.code, "empty_transcript");
    assert_eq!(err.message, "Transcript text cannot be empty.");
}
