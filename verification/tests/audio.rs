use scribe::audio::{microphone_list, select_microphone};
use scribe::audio::{session_plan, SessionPlan, SessionSettings, StartRecordingRequest};
use scribe::audio::{
    classify_recording, duration_ms, fallback_microphone_id, microphone_unavailable,
    no_test_clip, silence_trim_bounds, test_clip_duration, trim_window_len, ChunkLevel,
    RecordingResultStatus, SilenceAutoStop, StopReason,
};

#[test]
fn duration_uses_source_sample_rate() {
    assert_eq!(duration_ms(4_800, 48_000), 100);
    assert_eq!(duration_ms(16_000, 16_000), 1_000);
}

#[test]
fn duration_of_zero_rate_is_zero() {
    assert_eq!(duration_ms(16_000, 0), 0);
    assert_eq!(duration_ms(15, 16_000), 0);
}

/// Loud flags for `total` samples with `[loud_from, loud_to)` above the
/// silence threshold, in windows of `window` samples.
fn windows(total: usize, window: usize, loud_from: usize, loud_to: usize) -> Vec<bool> {
    (0..total).step_by(window).map(|start| start < loud_to && start + window > loud_from).collect()
}

#[test]
fn trim_keeps_padding_around_speech() {
    let window = trim_window_len(16_000);
    assert_eq!(window, 320);
    let loud = windows(40_000, window, 16_000, 24_000);
    assert_eq!(silence_trim_bounds(&loud, 40_000, 16_000, true), (16_000 - 4_800, 24_000 + 4_800));
}

#[test]
fn trim_edges_do_not_underflow_or_overrun() {
    let loud = windows(8_000, 320, 0, 8_000);
    assert_eq!(silence_trim_bounds(&loud, 8_000, 16_000, true), (0, 8_000));
}

#[test]
fn trim_keeps_all_silence_and_disabled_input_whole() {
    let silent = windows(32_000, 320, 0, 0);
    assert_eq!(silence_trim_bounds(&silent, 32_000, 16_000, true), (0, 32_000));
    let loud = windows(40_000, 320, 16_000, 24_000);
    assert_eq!(silence_trim_bounds(&loud, 40_000, 16_000, false), (0, 40_000));
}

#[test]
fn auto_stop_waits_for_speech_then_silence() {
    let mut stop = SilenceAutoStop::new(Some(1_000), 16_000);
    assert!(!stop.observe(16_000, ChunkLevel::Silence));
    assert!(!stop.observe(1_600, ChunkLevel::Speech));
    assert!(!stop.observe(8_000, ChunkLevel::Silence));
    assert!(!stop.observe(1_600, ChunkLevel::Sound));
    assert!(!stop.observe(8_000, ChunkLevel::Silence));
    assert!(stop.observe(8_000, ChunkLevel::Silence));
    assert!(!stop.observe(16_000, ChunkLevel::Silence));
    assert!(stop.triggered);

    let mut disabled = SilenceAutoStop::new(None, 16_000);
    assert!(!disabled.observe(1_600, ChunkLevel::Speech));
    assert!(!disabled.observe(160_000, ChunkLevel::Silence));
}

#[test]
fn recordings_are_classified() {
    let (status, reason) = classify_recording(StopReason::Cancelled, 5_000, 300);
    assert_eq!(status, RecordingResultStatus::Cancelled);
    assert_eq!(reason.as_deref(), Some("Recording was cancelled."));
    let (status, reason) = classify_recording(StopReason::Completed, 200, 300);
    assert_eq!(status, RecordingResultStatus::TooShort);
    assert_eq!(reason.as_deref(), Some("Recording was shorter than the 300 ms minimum."));
    assert_eq!(classify_recording(StopReason::Timeout, 500, 300).0, RecordingResultStatus::TimedOut);
    assert_eq!(classify_recording(StopReason::Disconnected, 500, 300).0, RecordingResultStatus::Completed);
}

#[test]
fn test_clip_length_is_clamped() {
    assert_eq!(test_clip_duration(None, 300, 60_000), 3_000);
    assert_eq!(test_clip_duration(Some(10), 300, 60_000), 300);
    assert_eq!(test_clip_duration(Some(90_000), 300, 60_000), 60_000);
}

#[test]
fn device_errors_and_ids() {
    assert_eq!(no_test_clip().code, "no_test_clip");
    assert_eq!(fallback_microphone_id(2, "USB Mic"), "cpal:2:USB Mic");
    let e = microphone_unavailable("USB Mic", "device busy");
    assert_eq!(e.code, "microphone_unavailable");
    assert_eq!(e.message, "Microphone 'USB Mic' is unavailable. device busy");
}

fn endpoint(name: &str, id: &str) -> scribe::audio::Endpoint {
    scribe::audio::Endpoint { name: name.to_string(), id: id.to_string() }
}

#[test]
fn microphones_take_endpoint_ids_in_listing_order() {
    let names = vec![Some("USB Mic".to_string()), Some("USB Mic".to_string()), None, Some("Webcam".to_string())];
    let endpoints = vec![endpoint("USB Mic", "{ep-1}"), endpoint("Headset", "{ep-h}"), endpoint("USB Mic", "{ep-2}")];
    let mics = microphone_list(&names, Some("USB Mic"), &endpoints, Some("Webcam"));
    assert_eq!(mics.len(), 4);
    assert_eq!(mics[0].id, "{ep-1}");
    assert_eq!(mics[0].endpoint_id.as_deref(), Some("{ep-1}"));
    assert_eq!(mics[1].id, "{ep-2}");
    assert_eq!(mics[2].name, "Microphone 3");
    assert_eq!(mics[2].id, "cpal:2:Microphone 3");
    assert_eq!(mics[2].endpoint_id, None);
    assert_eq!(mics[3].id, "cpal:3:Webcam");
    assert!(mics[0].is_default && mics[1].is_default && !mics[3].is_default);
    assert!(mics[3].is_selected && !mics[0].is_selected);
    assert!(mics.iter().all(|m| m.is_available));
}

#[test]
fn selection_prefers_named_then_default_then_first() {
    let names = vec![Some("A".to_string()), Some("B".to_string())];
    let mics = microphone_list(&names, Some("B"), &Vec::new(), None);
    assert_eq!(select_microphone(&mics, Some("A")).unwrap(), 0);
    assert_eq!(select_microphone(&mics, Some("cpal:1:B")).unwrap(), 1);
    assert_eq!(select_microphone(&mics, None).unwrap(), 1);
    let e = select_microphone(&mics, Some("C")).unwrap_err();
    assert_eq!(e.code, "microphone_unavailable");
    assert_eq!(e.message, "Selected microphone is not available: C. Choose another microphone.");

    let no_default = microphone_list(&names, None, &Vec::new(), None);
    assert_eq!(select_microphone(&no_default, None).unwrap(), 0);
    let e = select_microphone(&Vec::new(), None).unwrap_err();
    assert_eq!(e.code, "no_microphone_selected");
}

fn session_settings() -> SessionSettings {
    SessionSettings {
        selected_mic_id: Some("mic-settings".to_string()),
        min_recording_ms: 500,
        max_recording_ms: 120_000,
        silence_auto_stop_enabled: true,
        silence_auto_stop_ms: 2_000,
        incremental_transcription_enabled: true,
        segment_pause_enabled: false,
        segment_pause_ms: 700,
        segment_max_ms: 25_000,
    }
}

#[test]
fn session_plan_for_a_toggle_started_note() {
    let request = StartRecordingRequest { microphone_id: None, max_duration_ms: None, is_note: true, is_transform: false };
    let plan = session_plan(&request, &session_settings(), false, true);
    assert_eq!(
        plan,
        SessionPlan {
            microphone_id: Some("mic-settings".to_string()),
            max_duration_ms: 120_000,
            is_note: true,
            is_transform: false,
            auto_stop_after_ms: Some(2_000),
            incremental: true,
            segment_pause_ms: None,
            segment_max_ms: 25_000,
        }
    );
}

#[test]
fn session_plan_for_a_test_clip_turns_extras_off() {
    let request = StartRecordingRequest { microphone_id: None, max_duration_ms: Some(100), is_note: true, is_transform: true };
    let plan = session_plan(&request, &session_settings(), true, true);
    // The cap never falls below the configured minimum.
    assert_eq!(plan.max_duration_ms, 500);
    assert!(!plan.is_note && !plan.is_transform && !plan.incremental);
    assert_eq!(plan.auto_stop_after_ms, None);
}

#[test]
fn hold_to_talk_is_never_auto_stopped() {
    let request = StartRecordingRequest::default();
    let plan = session_plan(&request, &session_settings(), false, false);
    assert_eq!(plan.auto_stop_after_ms, None);
}

#[test]
fn the_requested_microphone_wins_over_settings() {
    let request = StartRecordingRequest {
        microphone_id: Some("mic-request".to_string()),
        max_duration_ms: None,
        is_note: false,
        is_transform: false,
    };
    let plan = session_plan(&request, &session_settings(), false, false);
    assert_eq!(plan.microphone_id.as_deref(), Some("mic-request"));
    let mut no_choice = session_settings();
    no_choice.selected_mic_id = None;
    let plan = session_plan(&StartRecordingRequest::default(), &no_choice, false, false);
    assert_eq!(plan.microphone_id, None);
}
