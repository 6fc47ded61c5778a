use scribe::app_state::{AppEvent, AppStateMachine, AppStatus};

#[test]
fn supports_main_recording_flow() {
    let mut machine = AppStateMachine::default();

    assert_eq!(machine.status(), &AppStatus::Idle);
    assert_eq!(machine.transition(AppEvent::StartRecording).unwrap().status, AppStatus::Recording);
    assert_eq!(machine.transition(AppEvent::StopRecording).unwrap().status, AppStatus::Stopping);
    assert_eq!(machine.transition(AppEvent::ValidAudio).unwrap().status, AppStatus::Transcribing);
    assert_eq!(
        machine.transition(AppEvent::TranscriptionSucceeded).unwrap().status,
        AppStatus::Ready
    );
    assert_eq!(machine.transition(AppEvent::ReadyTimeout).unwrap().status, AppStatus::Idle);
}

#[test]
fn ignores_new_recording_while_transcribing() {
    let mut machine = AppStateMachine::default();

    machine.transition(AppEvent::StartRecording).unwrap();
    machine.transition(AppEvent::StopRecording).unwrap();
    machine.transition(AppEvent::ValidAudio).unwrap();

    let error = machine.transition(AppEvent::StartRecording).unwrap_err();
    assert_eq!(error.from, AppStatus::Transcribing);
    assert_eq!(machine.status(), &AppStatus::Transcribing);
}

#[test]
fn audio_too_short_returns_to_idle() {
    let mut machine = AppStateMachine::default();

    machine.transition(AppEvent::StartRecording).unwrap();
    machine.transition(AppEvent::StopRecording).unwrap();

    assert_eq!(machine.transition(AppEvent::AudioTooShort).unwrap().status, AppStatus::Idle);
}

#[test]
fn empty_transcription_returns_to_idle_without_error() {
    let mut machine = AppStateMachine::default();

    machine.transition(AppEvent::StartRecording).unwrap();
    machine.transition(AppEvent::StopRecording).unwrap();
    machine.transition(AppEvent::ValidAudio).unwrap();

    let snapshot = machine.transition(AppEvent::TranscriptionEmpty).unwrap();
    assert_eq!(snapshot.status, AppStatus::Idle);
    assert!(snapshot.error.is_none());
}

#[test]
fn stop_failure_returns_to_idle() {
    let mut machine = AppStateMachine::default();

    machine.transition(AppEvent::StartRecording).unwrap();
    machine.transition(AppEvent::StopRecording).unwrap();

    let snapshot = machine.transition(AppEvent::StopFailed).unwrap();
    assert_eq!(snapshot.status, AppStatus::Idle);
    assert!(snapshot.error.is_none());
}

#[test]
fn error_state_recovers_to_idle_and_can_record_again() {
    let mut machine = AppStateMachine::default();

    machine.transition(AppEvent::StartRecording).unwrap();
    machine.transition(AppEvent::StopRecording).unwrap();
    machine.transition(AppEvent::ValidAudio).unwrap();
    let snapshot = machine.transition(AppEvent::TranscriptionFailed).unwrap();
    assert_eq!(snapshot.status, AppStatus::Error);
    assert!(snapshot.error.is_some());

    let snapshot = machine.transition(AppEvent::ResetError).unwrap();
    assert_eq!(snapshot.status, AppStatus::Idle);
    assert!(snapshot.error.is_none());

    assert_eq!(machine.transition(AppEvent::StartRecording).unwrap().status, AppStatus::Recording);
}

#[test]
fn pasting_flow_round_trips_back_to_ready_then_idle() {
    let mut machine = AppStateMachine::default();

    machine.transition(AppEvent::StartRecording).unwrap();
    machine.transition(AppEvent::StopRecording).unwrap();
    machine.transition(AppEvent::ValidAudio).unwrap();
    machine.transition(AppEvent::TranscriptionSucceeded).unwrap();
    assert_eq!(machine.status(), &AppStatus::Ready);

    assert_eq!(machine.transition(AppEvent::StartPasting).unwrap().status, AppStatus::Pasting);
    assert_eq!(machine.transition(AppEvent::PasteCompleted).unwrap().status, AppStatus::Ready);
    assert_eq!(machine.transition(AppEvent::ReadyTimeout).unwrap().status, AppStatus::Idle);
}

#[test]
fn pause_and_resume_round_trip() {
    let mut machine = AppStateMachine::default();

    assert_eq!(machine.transition(AppEvent::Pause).unwrap().status, AppStatus::Paused);
    assert!(machine.transition(AppEvent::StartRecording).is_err());
    assert_eq!(machine.status(), &AppStatus::Paused);

    assert_eq!(machine.transition(AppEvent::Resume).unwrap().status, AppStatus::Idle);
}

#[test]
fn disconnect_recovery_reuses_the_normal_stop_to_transcribe_sequence() {
    let mut machine = AppStateMachine::default();

    machine.transition(AppEvent::StartRecording).unwrap();
    assert_eq!(machine.status(), &AppStatus::Recording);
    assert_eq!(machine.transition(AppEvent::StopRecording).unwrap().status, AppStatus::Stopping);
    assert_eq!(machine.transition(AppEvent::ValidAudio).unwrap().status, AppStatus::Transcribing);
    let snapshot = machine.transition(AppEvent::TranscriptionSucceeded).unwrap();
    assert_eq!(snapshot.status, AppStatus::Ready);
    assert!(snapshot.error.is_none());
}

#[test]
fn illegal_transition_is_rejected_and_leaves_state_unchanged() {
    let mut machine = AppStateMachine::default();

    let error = machine.transition(AppEvent::StopRecording).unwrap_err();
    assert_eq!(error.from, AppStatus::Idle);
    assert_eq!(machine.status(), &AppStatus::Idle);

    assert!(machine.transition(AppEvent::StartPasting).is_err());
    assert_eq!(machine.status(), &AppStatus::Idle);
}

#[test]
fn error_snapshot_carries_the_transcription_failure() {
    let mut machine = AppStateMachine::new();
    machine.transition(AppEvent::StartRecording).unwrap();
    machine.transition(AppEvent::StopRecording).unwrap();
    machine.transition(AppEvent::ValidAudio).unwrap();
    let snapshot = machine.transition(AppEvent::TranscriptionFailed).unwrap();
    let info = snapshot.error.unwrap();
    assert_eq!(info.code, scribe::app_state::AppErrorCode::WhisperTranscriptionFailed);
    assert_eq!(info.message, "Whisper transcription failed. Try again or choose another model.");
}

#[test]
fn every_status_has_a_way_back_to_idle() {
    let mut machine = AppStateMachine::new();
    machine.transition(AppEvent::StartRecording).unwrap();
    assert_eq!(machine.transition(AppEvent::CancelRecording).unwrap().status, AppStatus::Idle);
    machine.transition(AppEvent::Pause).unwrap();
    assert_eq!(machine.transition(AppEvent::Resume).unwrap().status, AppStatus::Idle);
}

#[test]
fn transition_error_displays_its_origin() {
    let mut machine = AppStateMachine::new();
    let error = machine.transition(AppEvent::PasteCompleted).unwrap_err();
    assert_eq!(error.to_display_string(), "invalid transition from Idle");
}
