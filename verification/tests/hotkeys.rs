use scribe::app_state::AppStatus;
use scribe::hotkeys::{press_effect, release_stops_dictation, toggle_action, PressEffect, ToggleAction};
use scribe::error::CommandError;
use scribe::hotkeys::{
    classify_shortcut, normalize_shortcut, parse_modifier_chord, step, validate_hotkeys,
    ChordDispatch, ChordState, HotkeyAction, HotkeySettings, ModifierChord, ModifierSnapshot,
    PressedActions, ShortcutForm,
};

/// Stands in for the global-shortcut parser: every distinct normalized
/// shortcut text gets its own id, equal texts share one.
fn plugin_answers(h: &HotkeySettings) -> Vec<Result<u32, CommandError>> {
    let mut seen: Vec<String> = Vec::new();
    [&h.hold_to_talk, &h.toggle_dictation, &h.paste_last_transcript, &h.open_dashboard]
        .iter()
        .map(|s| {
            let text = normalize_shortcut(s);
            let id = match seen.iter().position(|t| *t == text) {
                Some(i) => i,
                None => {
                    seen.push(text);
                    seen.len() - 1
                }
            };
            Ok(id as u32 + 1)
        })
        .collect()
}

fn check(h: &HotkeySettings) -> Result<(), CommandError> {
    validate_hotkeys(h, &plugin_answers(h))
}

fn expect_chord(shortcut: &str) -> ModifierChord {
    parse_modifier_chord(shortcut).expect("modifier chord")
}

#[test]
fn detects_duplicate_shortcuts() {
    let hotkeys = HotkeySettings {
        hold_to_talk: "Ctrl+Win+Space".to_string(),
        toggle_dictation: "Ctrl+Win+Space".to_string(),
        paste_last_transcript: "Ctrl+Alt+V".to_string(),
        open_dashboard: "Ctrl+Win+H".to_string(),
    };
    assert!(check(&hotkeys).is_err());
}

#[test]
fn detects_duplicate_modifier_chords_across_spellings() {
    let hotkeys = HotkeySettings {
        hold_to_talk: "Ctrl+Shift".to_string(),
        toggle_dictation: "shift+control".to_string(),
        paste_last_transcript: "Ctrl+Alt+V".to_string(),
        open_dashboard: "Ctrl+Alt+D".to_string(),
    };
    assert!(check(&hotkeys).is_err());
}

#[test]
fn modifier_chord_does_not_collide_with_plugin_shortcut() {
    let hotkeys = HotkeySettings {
        hold_to_talk: "Ctrl+Shift".to_string(),
        toggle_dictation: "Ctrl+Shift+T".to_string(),
        paste_last_transcript: "Ctrl+Alt+V".to_string(),
        open_dashboard: "Ctrl+Alt+D".to_string(),
    };
    assert!(check(&hotkeys).is_ok());
}

#[test]
fn parser_errors_are_reported_first() {
    let hotkeys = HotkeySettings {
        hold_to_talk: "Ctrl+Shift".to_string(),
        toggle_dictation: "Bogus".to_string(),
        paste_last_transcript: "Ctrl+Alt+V".to_string(),
        open_dashboard: "Ctrl+Alt+V".to_string(),
    };
    let mut answers = plugin_answers(&hotkeys);
    answers[1] = Err(CommandError::new("invalid_hotkey", "Bogus is not a key."));
    assert_eq!(validate_hotkeys(&hotkeys, &answers).unwrap_err().code, "invalid_hotkey");
}

#[test]
fn parses_modifier_only_chords() {
    let chord = expect_chord("Ctrl+Shift");
    assert!(chord.ctrl && chord.shift && !chord.alt && !chord.win);
    assert_eq!(chord.label(), "Ctrl+Shift");

    let chord = expect_chord(" control + ALT ");
    assert!(chord.ctrl && chord.alt && !chord.shift && !chord.win);
    assert_eq!(chord.label(), "Ctrl+Alt");

    let chord = expect_chord("Shift+Meta");
    assert!(chord.shift && chord.win && !chord.ctrl && !chord.alt);
    assert_eq!(chord.label(), "Shift+Win");

    let chord = expect_chord("Win");
    assert!(chord.win && !chord.ctrl && !chord.shift && !chord.alt);
    assert_eq!(chord.label(), "Win");
}

#[test]
fn modifier_chord_parsing_is_case_insensitive_and_order_insensitive() {
    assert_eq!(expect_chord("CTRL+SHIFT"), expect_chord("shift+ctrl"));
    assert_eq!(expect_chord("Super+Ctrl"), expect_chord("ctrl+win"));
}

#[test]
fn shortcuts_with_a_key_are_not_modifier_chords() {
    assert!(parse_modifier_chord("Ctrl+Shift+T").is_none());
    assert!(matches!(classify_shortcut("Ctrl+Shift+T"), ShortcutForm::Plugin(_)));
    assert!(matches!(classify_shortcut("Ctrl+Shift"), ShortcutForm::Chord(_)));
}

#[test]
fn action_names_round_trip() {
    for action in [
        HotkeyAction::HoldToTalk,
        HotkeyAction::ToggleDictation,
        HotkeyAction::PasteLastTranscript,
        HotkeyAction::OpenDashboard,
    ] {
        assert_eq!(HotkeyAction::parse(action.event_name()).unwrap(), action);
    }
    assert!(HotkeyAction::parse("nope").is_err());
}

#[test]
fn autorepeat_fires_an_action_once() {
    let mut pressed = PressedActions::default();
    assert!(pressed.mark_pressed_once(HotkeyAction::HoldToTalk));
    assert!(!pressed.mark_pressed_once(HotkeyAction::HoldToTalk));
    assert!(pressed.mark_released_once(HotkeyAction::HoldToTalk));
    assert!(!pressed.mark_released_once(HotkeyAction::HoldToTalk));
}

#[test]
fn chord_presses_after_the_arming_delay_and_releases_once() {
    let chord = expect_chord("Ctrl+Shift");
    let held = ModifierSnapshot { ctrl: true, shift: true, alt: false, win: false };
    let up = ModifierSnapshot { ctrl: false, shift: false, alt: false, win: false };
    let (state, d) = step(chord, ChordState::Idle, held, 0, false);
    assert_eq!(d, ChordDispatch::Nothing);
    let (state, d) = step(chord, state, held, 1_000, false);
    assert_eq!(d, ChordDispatch::Pressed);
    assert_eq!(state, ChordState::Active);
    let (state, d) = step(chord, state, up, 1_100, false);
    assert_eq!(d, ChordDispatch::Released);
    assert_eq!(state, ChordState::Suppressed);
    let (state, _) = step(chord, state, up, 1_200, false);
    assert_eq!(state, ChordState::Idle);
}

#[test]
fn toggle_starts_from_rest_and_stops_a_recording() {
    assert_eq!(toggle_action(AppStatus::Idle), ToggleAction::Start);
    assert_eq!(toggle_action(AppStatus::Ready), ToggleAction::Start);
    assert_eq!(toggle_action(AppStatus::Error), ToggleAction::Start);
    assert_eq!(toggle_action(AppStatus::Recording), ToggleAction::Stop);
    assert_eq!(toggle_action(AppStatus::Transcribing), ToggleAction::Ignore);
    assert_eq!(toggle_action(AppStatus::Pasting), ToggleAction::Ignore);
}

#[test]
fn pressed_and_released_hotkeys_do_their_action() {
    assert_eq!(press_effect(HotkeyAction::HoldToTalk, true), PressEffect::StartHeldDictation);
    assert_eq!(press_effect(HotkeyAction::ToggleDictation, true), PressEffect::ToggleDictation);
    assert_eq!(press_effect(HotkeyAction::PasteLastTranscript, false), PressEffect::PasteLastTranscript);
    assert_eq!(press_effect(HotkeyAction::OpenDashboard, true), PressEffect::ToggleDashboard);
    assert_eq!(press_effect(HotkeyAction::OpenDashboard, false), PressEffect::OpenDashboard);
    assert!(release_stops_dictation(HotkeyAction::HoldToTalk));
    assert!(!release_stops_dictation(HotkeyAction::ToggleDictation));
}

#[test]
fn a_toggle_hold_starts_a_note_or_toggles_but_not_both() {
    let mut hold = scribe::hotkeys::NoteChordHold::new();
    // A plain tap toggles dictation on release.
    hold.key_down();
    assert!(hold.arm(7));
    assert!(hold.is_note_key(7));
    assert_eq!(hold.key_up(), (Some(7), true));
    assert!(!hold.is_note_key(7));

    // Q during the hold fires once (autorepeat ignored) and the release does not toggle.
    hold.key_down();
    assert!(hold.arm(7));
    assert!(hold.note_pressed());
    assert!(!hold.note_pressed());
    assert_eq!(hold.key_up(), (Some(7), false));

    // A grab that lands after the release is handed straight back.
    assert!(!hold.arm(9));
    assert!(!hold.is_note_key(9));
}

#[test]
fn chord_ignores_token_order_case_and_spaces() {
    assert_eq!(parse_modifier_chord("CTRL+SHIFT"), parse_modifier_chord(" shift + ctrl "));
    assert_eq!(parse_modifier_chord("Ctrl+Ctrl+Shift"), parse_modifier_chord("shift+control"));
    assert!(parse_modifier_chord("Ctrl+").is_none());
    assert!(parse_modifier_chord("   ").is_none());
}

#[test]
fn toggle_keys_map_to_virtual_key_codes() {
    assert_eq!(scribe::hotkeys::code_to_vk("KeyA"), Some(0x41));
    assert_eq!(scribe::hotkeys::code_to_vk("Digit7"), Some(0x37));
    assert_eq!(scribe::hotkeys::code_to_vk("F12"), Some(0x7B));
    assert_eq!(scribe::hotkeys::code_to_vk("Backquote"), Some(0xC0));
    assert_eq!(scribe::hotkeys::code_to_vk("Slash"), Some(0xBF));
    assert_eq!(scribe::hotkeys::code_to_vk("Enter"), None);
    assert_eq!(scribe::hotkeys::toggle_vk_for(false, "Space"), Some(0x20));
    assert_eq!(scribe::hotkeys::toggle_vk_for(true, "Space"), None);
}
