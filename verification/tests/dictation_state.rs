use scribe::app_state::{AppStateSnapshot, AppStatus};
use scribe::dictation_state::{app_version, is_busy, is_dictating, DictationSnapshot};

fn expectations() -> Vec<(AppStatus, bool, bool)> {
    vec![
        (AppStatus::Idle, false, false),
        (AppStatus::Recording, true, true),
        (AppStatus::Stopping, true, true),
        (AppStatus::Transcribing, false, true),
        (AppStatus::Pasting, false, true),
        (AppStatus::Ready, false, false),
        (AppStatus::Error, false, false),
        (AppStatus::Paused, false, false),
    ]
}

#[test]
fn dictating_and_busy_match_the_contract_table() {
    for (status, dictating, busy) in expectations() {
        assert_eq!(is_dictating(&status), dictating, "dictating wrong for {:?}", status);
        assert_eq!(is_busy(&status), busy, "busy wrong for {:?}", status);
    }
}

#[test]
fn dictating_implies_busy_for_every_status() {
    for (status, _, _) in expectations() {
        if is_dictating(&status) {
            assert!(is_busy(&status), "invariant dictating => busy broken for {:?}", status);
        }
    }
}

#[test]
fn dictating_matches_legacy_listening_set() {
    assert!(is_dictating(&AppStatus::Recording));
    assert!(is_dictating(&AppStatus::Stopping));
    for status in [
        AppStatus::Idle,
        AppStatus::Transcribing,
        AppStatus::Pasting,
        AppStatus::Ready,
        AppStatus::Error,
        AppStatus::Paused,
    ] {
        assert!(!is_dictating(&status), "{:?} was not legacy listening", status);
    }
}

#[test]
fn idle_snapshot_is_not_dictating_or_busy() {
    let state = AppStateSnapshot { status: AppStatus::Idle, error: None, updated_at: scribe::clock::Timestamp { secs: 1_781_289_000, nanos: 0 } };
    let snap = DictationSnapshot::from_state(&state, scribe::clock::Timestamp { secs: 1_781_289_000, nanos: 0 }, 1);
    assert!(!snap.dictating);
    assert!(!snap.busy);
}

#[test]
fn terminal_and_inactive_states_never_report_activity() {
    for status in [AppStatus::Idle, AppStatus::Ready, AppStatus::Error, AppStatus::Paused] {
        assert!(!is_dictating(&status), "{:?} must not be dictating", status);
        assert!(!is_busy(&status), "{:?} must not be busy", status);
    }
}

#[test]
fn recording_snapshot_carries_contract_fields() {
    let since = scribe::clock::Timestamp { secs: 100, nanos: 5 };
    let now = scribe::clock::Timestamp { secs: 200, nanos: 0 };
    let state = AppStateSnapshot { status: AppStatus::Recording, error: None, updated_at: since };
    let snap = DictationSnapshot::from_state(&state, now, 4242);
    assert_eq!(snap.schema_version, 1);
    assert_eq!(snap.app, "scribe");
    assert_eq!(snap.app_version, app_version());
    assert_eq!(snap.status, AppStatus::Recording);
    assert!(snap.dictating);
    assert!(snap.busy);
    assert_eq!(snap.since, since);
    assert_eq!(snap.updated_at, now);
    assert_eq!(snap.pid, 4242);
}
