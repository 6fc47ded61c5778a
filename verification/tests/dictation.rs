use scribe::dictation::recordings_to_prune;
use scribe::app_state::{AppEvent, AppStateMachine, AppStatus};
use scribe::audio::RecordingResultStatus;
use scribe::commands::{device_start, github_status, import_preview};
use scribe::dictation::{
    dictation_transcript, should_auto_paste, should_notify_sync, transcript_duration,
    transition_if_transcribing, validate_recording_result, whisper_language,
};
use scribe::github_oauth::DeviceCode;
use scribe::import::prepare_import;
use scribe::settings::{OutputMode, PasteMethod};
use scribe::transcript::Transcript;

#[test]
fn only_finished_recordings_with_audio_are_transcribed() {
    assert!(validate_recording_result(RecordingResultStatus::Completed, Some("/tmp/a.wav")).is_ok());
    assert!(validate_recording_result(RecordingResultStatus::TimedOut, Some("/tmp/a.wav")).is_ok());
    assert_eq!(
        validate_recording_result(RecordingResultStatus::TooShort, Some("/tmp/a.wav")).unwrap_err().code,
        "recording_not_transcribable"
    );
    assert_eq!(
        validate_recording_result(RecordingResultStatus::Completed, Some("  ")).unwrap_err().code,
        "recording_wav_missing"
    );
    assert_eq!(
        validate_recording_result(RecordingResultStatus::Completed, None).unwrap_err().code,
        "recording_wav_missing"
    );
}

#[test]
fn whisper_language_falls_back_to_auto() {
    assert_eq!(whisper_language(" en "), "en");
    assert_eq!(whisper_language("   "), "auto");
}

#[test]
fn dictation_transcript_records_the_run() {
    let t = dictation_transcript(
        "  hello there ",
        5_000_000_000,
        "small.en",
        "en".to_string(),
        OutputMode::AutoPaste,
        PasteMethod::ClipboardPaste,
        321,
        true,
    )
    .unwrap();
    assert_eq!(t.text, "hello there");
    assert_eq!(t.duration_ms, Some(u32::MAX));
    assert_eq!(t.model_id.as_deref(), Some("small.en"));
    assert_eq!(t.output_mode, Some(OutputMode::AutoPaste));
    assert_eq!(t.transcription_latency_ms, Some(321));
    assert!(t.is_note);
    assert!(dictation_transcript(" ", 1, "m", "en".into(), OutputMode::SaveOnly, PasteMethod::DirectInsert, 0, false).is_none());
    assert_eq!(transcript_duration(12), 12);
}

#[test]
fn notes_and_disconnects_are_not_pasted() {
    assert!(should_auto_paste(false, false));
    assert!(!should_auto_paste(true, false));
    assert!(!should_auto_paste(false, true));
    assert!(should_notify_sync(true, true, false));
    assert!(!should_notify_sync(false, true, false));
    assert!(should_notify_sync(false, false, true));
}

#[test]
fn failover_only_moves_a_transcribing_machine() {
    let mut machine = AppStateMachine::new();
    assert!(transition_if_transcribing(&mut machine, AppEvent::TranscriptionFailed).is_none());
    assert_eq!(*machine.status(), AppStatus::Idle);
    machine.transition(AppEvent::StartRecording).unwrap();
    machine.transition(AppEvent::StopRecording).unwrap();
    machine.transition(AppEvent::ValidAudio).unwrap();
    let snap = transition_if_transcribing(&mut machine, AppEvent::TranscriptionFailed).unwrap();
    assert_eq!(snap.status, AppStatus::Error);
}

#[test]
fn settings_screens_get_their_values() {
    let status = github_status(Some("Iv1abc"), true, "alice".into(), "alice/notes".into());
    assert!(status.configured && status.connected);
    assert!(!github_status(None, false, String::new(), String::new()).configured);

    let start = device_start(DeviceCode {
        device_code: "d".into(),
        user_code: "U-1".into(),
        verification_uri: "https://github.com/login/device".into(),
        expires_in: 900,
        interval: 5,
    });
    assert_eq!((start.expires_in_secs, start.interval_secs), (900, 5));

    let t = Transcript::new_last_buffer("words", None, None, None).unwrap();
    let prepared = prepare_import(&vec![t]).unwrap();
    let preview = import_preview("/b.json".into(), None, &prepared, 1, "f".into());
    assert_eq!(preview.file_name, "Scribe backup.json");
    assert_eq!((preview.total, preview.conflicts, preview.dictations), (1, 1, 1));
}

fn at(secs: i64) -> scribe::clock::Timestamp {
    scribe::clock::Timestamp { secs, nanos: 0 }
}

#[test]
fn prune_keeps_the_newest_wavs_and_spares_other_files() {
    // 25 WAVs written a second apart (listed newest first) and one text file.
    let mut modified = Vec::new();
    let mut is_wav = Vec::new();
    for index in 0..25 {
        modified.push(at(1_000 - index));
        is_wav.push(true);
    }
    modified.push(at(1));
    is_wav.push(false);
    let doomed = recordings_to_prune(&modified, &is_wav, 20);
    // The five oldest WAVs, oldest first; never the text file.
    assert_eq!(doomed, vec![24, 23, 22, 21, 20]);
}

#[test]
fn prune_is_a_noop_under_the_cap() {
    let modified = vec![at(1), at(2), at(3), at(4), at(5)];
    let is_wav = vec![true; 5];
    assert!(recordings_to_prune(&modified, &is_wav, 20).is_empty());
    assert!(recordings_to_prune(&Vec::new(), &Vec::new(), 20).is_empty());
}

#[test]
fn prune_breaks_time_ties_by_listing_order() {
    let modified = vec![at(5), at(5), at(1)];
    let is_wav = vec![true, true, true];
    assert_eq!(recordings_to_prune(&modified, &is_wav, 1), vec![2, 0]);
}
