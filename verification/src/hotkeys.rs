//! Hotkey bindings: the four actions, their shortcut text, modifier-only
//! chords (e.g. "Ctrl+Shift"), the spelling normalization handed to the
//! global-shortcut parser, duplicate detection, and the modifier-chord
//! watcher's state machine.
use vstd::prelude::*;

use crate::app_state::AppStatus;

use crate::error::CommandError;
use crate::text::{
    ascii_lower_seq, ascii_lowercase, chars_of, eq_str, is_blank_str, join, join_chars, push_str, split_char, split_on, string_from_chars, trim, trimmed, views};

verus! {

#[derive(Debug, Clone, Copy, PartialEq, Eq, Hash, Structural)]
pub enum HotkeyAction {
    HoldToTalk,
    ToggleDictation,
    PasteLastTranscript,
    OpenDashboard,
}

/// The four shortcut bindings, as the user typed them.
#[derive(Debug, Clone)]
pub struct HotkeySettings {
    pub hold_to_talk: String,
    pub toggle_dictation: String,
    pub paste_last_transcript: String,
    pub open_dashboard: String,
}

pub open spec fn action_of_name(v: Seq<char>) -> Option<HotkeyAction> {
    if v == "holdToTalk"@ || v == "hold_to_talk"@ || v == "hold-to-talk"@ {
        Some(HotkeyAction::HoldToTalk)
    } else if v == "toggleDictation"@ || v == "toggle_dictation"@ || v == "toggle-dictation"@ {
        Some(HotkeyAction::ToggleDictation)
    } else if v == "pasteLastTranscript"@ || v == "paste_last_transcript"@ || v
        == "paste-last-transcript"@ {
        Some(HotkeyAction::PasteLastTranscript)
    } else if v == "openDashboard"@ || v == "open_dashboard"@ || v == "open-dashboard"@ {
        Some(HotkeyAction::OpenDashboard)
    } else {
        None
    }
}

pub open spec fn event_name_of(a: HotkeyAction) -> Seq<char> {
    match a {
        HotkeyAction::HoldToTalk => "hold_to_talk"@,
        HotkeyAction::ToggleDictation => "toggle_dictation"@,
        HotkeyAction::PasteLastTranscript => "paste_last_transcript"@,
        HotkeyAction::OpenDashboard => "open_dashboard"@,
    }
}

/// The variant name, as `{:?}` prints it.
pub open spec fn action_debug_name(a: HotkeyAction) -> Seq<char> {
    match a {
        HotkeyAction::HoldToTalk => "HoldToTalk"@,
        HotkeyAction::ToggleDictation => "ToggleDictation"@,
        HotkeyAction::PasteLastTranscript => "PasteLastTranscript"@,
        HotkeyAction::OpenDashboard => "OpenDashboard"@,
    }
}

pub open spec fn shortcut_of(a: HotkeyAction, h: HotkeySettings) -> Seq<char> {
    match a {
        HotkeyAction::HoldToTalk => h.hold_to_talk@,
        HotkeyAction::ToggleDictation => h.toggle_dictation@,
        HotkeyAction::PasteLastTranscript => h.paste_last_transcript@,
        HotkeyAction::OpenDashboard => h.open_dashboard@,
    }
}

/// The actions in registration order.
pub open spec fn action_at(i: int) -> HotkeyAction {
    if i == 0 {
        HotkeyAction::HoldToTalk
    } else if i == 1 {
        HotkeyAction::ToggleDictation
    } else if i == 2 {
        HotkeyAction::PasteLastTranscript
    } else {
        HotkeyAction::OpenDashboard
    }
}

pub fn hotkey_actions() -> (r: [HotkeyAction; 4])
    ensures
        forall|i: int| 0 <= i < 4 ==> r@[i] == action_at(i),
{
    [
        HotkeyAction::HoldToTalk,
        HotkeyAction::ToggleDictation,
        HotkeyAction::PasteLastTranscript,
        HotkeyAction::OpenDashboard,
    ]
}

fn debug_name(a: HotkeyAction) -> (r: &'static str)
    ensures
        r@ == action_debug_name(a),
{
    match a {
        HotkeyAction::HoldToTalk => "HoldToTalk",
        HotkeyAction::ToggleDictation => "ToggleDictation",
        HotkeyAction::PasteLastTranscript => "PasteLastTranscript",
        HotkeyAction::OpenDashboard => "OpenDashboard",
    }
}

impl HotkeyAction {
    /// Accepts the camelCase, snake_case and kebab-case spellings of an
    /// action; anything else is `invalid_hotkey_action`.
    pub fn parse(value: &str) -> (r: Result<Self, CommandError>)
        ensures
            match action_of_name(value@) {
                Some(a) => r == Ok::<HotkeyAction, CommandError>(a),
                None => r matches Err(e) && e.code@ == "invalid_hotkey_action"@ && e.message@
                    == "Unknown hotkey action '"@ + value@ + "'."@,
            },
    {
        let v = chars_of(value);
        if eq_str(&v, "holdToTalk") || eq_str(&v, "hold_to_talk") || eq_str(&v, "hold-to-talk") {
            Ok(HotkeyAction::HoldToTalk)
        } else if eq_str(&v, "toggleDictation") || eq_str(&v, "toggle_dictation") || eq_str(
            &v,
            "toggle-dictation",
        ) {
            Ok(HotkeyAction::ToggleDictation)
        } else if eq_str(&v, "pasteLastTranscript") || eq_str(&v, "paste_last_transcript")
            || eq_str(&v, "paste-last-transcript") {
            Ok(HotkeyAction::PasteLastTranscript)
        } else if eq_str(&v, "openDashboard") || eq_str(&v, "open_dashboard") || eq_str(
            &v,
            "open-dashboard",
        ) {
            Ok(HotkeyAction::OpenDashboard)
        } else {
            let mut m = chars_of("Unknown hotkey action '");
            push_str(&mut m, value);
            push_str(&mut m, "'.");
            Err(CommandError::from_parts("invalid_hotkey_action", string_from_chars(&m)))
        }
    }

    pub fn event_name(self) -> (r: &'static str)
        ensures
            r@ == event_name_of(self),
    {
        match self {
            HotkeyAction::HoldToTalk => "hold_to_talk",
            HotkeyAction::ToggleDictation => "toggle_dictation",
            HotkeyAction::PasteLastTranscript => "paste_last_transcript",
            HotkeyAction::OpenDashboard => "open_dashboard",
        }
    }

    pub fn shortcut(self, hotkeys: &HotkeySettings) -> (r: &str)
        ensures
            r@ == shortcut_of(self, *hotkeys),
    {
        match self {
            HotkeyAction::HoldToTalk => hotkeys.hold_to_talk.as_str(),
            HotkeyAction::ToggleDictation => hotkeys.toggle_dictation.as_str(),
            HotkeyAction::PasteLastTranscript => hotkeys.paste_last_transcript.as_str(),
            HotkeyAction::OpenDashboard => hotkeys.open_dashboard.as_str(),
        }
    }

    /// Rebinds this action; the other three bindings are untouched.
    pub fn set_shortcut(self, hotkeys: &mut HotkeySettings, shortcut: String)
        ensures
            shortcut_of(self, *final(hotkeys)) == shortcut@,
            forall|b: HotkeyAction| b != self ==> shortcut_of(b, *final(hotkeys)) == shortcut_of(b, *old(hotkeys)),
    {
        match self {
            HotkeyAction::HoldToTalk => hotkeys.hold_to_talk = shortcut,
            HotkeyAction::ToggleDictation => hotkeys.toggle_dictation = shortcut,
            HotkeyAction::PasteLastTranscript => hotkeys.paste_last_transcript = shortcut,
            HotkeyAction::OpenDashboard => hotkeys.open_dashboard = shortcut,
        }
    }
}

/// Every action name that parses names the action it is parsed to: parsing
/// an action's event name gives the action back.
pub proof fn lemma_event_name_parses_back(a: HotkeyAction)
    ensures
        action_of_name(event_name_of(a)) == Some(a),
{
    reveal_strlit("hold_to_talk");
    reveal_strlit("toggle_dictation");
    reveal_strlit("paste_last_transcript");
    reveal_strlit("open_dashboard");
    reveal_strlit("holdToTalk");
    reveal_strlit("hold-to-talk");
    reveal_strlit("toggleDictation");
    reveal_strlit("toggle-dictation");
    reveal_strlit("pasteLastTranscript");
    reveal_strlit("paste-last-transcript");
    reveal_strlit("openDashboard");
    reveal_strlit("open-dashboard");
    let v = event_name_of(a);
    match a {
        HotkeyAction::HoldToTalk => {
            assert(v[0] == 'h');
        },
        HotkeyAction::ToggleDictation => {
            assert(v != "holdToTalk"@ && v != "hold_to_talk"@ && v != "hold-to-talk"@) by {
                assert(v[0] != "holdToTalk"@[0]);
            }
        },
        HotkeyAction::PasteLastTranscript => {
            assert(v[0] != "holdToTalk"@[0]);
            assert(v[0] != "toggleDictation"@[0]);
        },
        HotkeyAction::OpenDashboard => {
            assert(v[0] != "holdToTalk"@[0]);
            assert(v[0] != "toggleDictation"@[0]);
            assert(v[0] != "pasteLastTranscript"@[0]);
        },
    }
}

#[derive(Debug, Clone)]
pub struct HotkeyStatus {
    pub bindings: Vec<HotkeyBindingStatus>,
    pub hold_release_verification_required: bool,
    pub windows_fallback_note: String,
}

#[derive(Debug, Clone)]
pub struct HotkeyBindingStatus {
    pub action: HotkeyAction,
    pub shortcut: String,
    pub normalized_shortcut: Option<String>,
    pub registered: bool,
    pub error: Option<String>,
}

/// One binding that could not be registered.
#[derive(Debug, Clone)]
pub struct HotkeyRegistrationFailure {
    pub action: HotkeyAction,
    pub shortcut: String,
    pub message: String,
}

/// A shortcut made up only of modifier keys (e.g. "Ctrl+Shift").
#[derive(Debug, Clone, Copy, PartialEq, Eq, Hash, Default, Structural)]
pub struct ModifierChord {
    pub ctrl: bool,
    pub shift: bool,
    pub alt: bool,
    pub win: bool,
}

pub open spec fn chord_label_parts(c: ModifierChord) -> Seq<Seq<char>> {
    let a = if c.ctrl { seq!["Ctrl"@] } else { Seq::<Seq<char>>::empty() };
    let b = if c.shift { a.push("Shift"@) } else { a };
    let d = if c.alt { b.push("Alt"@) } else { b };
    if c.win { d.push("Win"@) } else { d }
}

impl ModifierChord {
    pub open spec fn spec_is_empty(self) -> bool {
        !(self.ctrl || self.shift || self.alt || self.win)
    }

    pub fn is_empty(self) -> (r: bool)
        ensures
            r == self.spec_is_empty(),
    {
        !(self.ctrl || self.shift || self.alt || self.win)
    }

    /// Canonical label, e.g. "Ctrl+Shift" or "Ctrl+Alt+Win".
    pub fn label(self) -> (r: String)
        ensures
            r@ == join(chord_label_parts(self), "+"@),
    {
        let mut parts: Vec<Vec<char>> = Vec::new();
        if self.ctrl {
            parts.push(chars_of("Ctrl"));
        }
        if self.shift {
            parts.push(chars_of("Shift"));
        }
        if self.alt {
            parts.push(chars_of("Alt"));
        }
        if self.win {
            parts.push(chars_of("Win"));
        }
        assert(views(parts@) =~= chord_label_parts(self));
        let plus = chars_of("+");
        string_from_chars(&join_chars(&parts, &plus))
    }
}

/// The modifier a lowercased token names, as (ctrl, shift, alt, win) flags.
pub open spec fn modifier_token(t: Seq<char>) -> Option<ModifierChord> {
    if t == "ctrl"@ || t == "control"@ {
        Some(ModifierChord { ctrl: true, shift: false, alt: false, win: false })
    } else if t == "shift"@ {
        Some(ModifierChord { ctrl: false, shift: true, alt: false, win: false })
    } else if t == "alt"@ || t == "option"@ {
        Some(ModifierChord { ctrl: false, shift: false, alt: true, win: false })
    } else if t == "win"@ || t == "windows"@ || t == "super"@ || t == "meta"@ || t == "cmd"@ || t
        == "command"@ {
        Some(ModifierChord { ctrl: false, shift: false, alt: false, win: true })
    } else {
        None
    }
}

pub open spec fn chord_union(a: ModifierChord, b: ModifierChord) -> ModifierChord {
    ModifierChord { ctrl: a.ctrl || b.ctrl, shift: a.shift || b.shift, alt: a.alt || b.alt, win: a.win || b.win }
}

/// The chord the `+`-separated tokens spell, when every token is a modifier.
pub open spec fn chord_of_tokens(tokens: Seq<Seq<char>>) -> Option<ModifierChord>
    decreases tokens.len(),
{
    if tokens.len() == 0 {
        Some(ModifierChord { ctrl: false, shift: false, alt: false, win: false })
    } else {
        match (chord_of_tokens(tokens.drop_last()), modifier_token(ascii_lower_seq(trim(tokens.last())))) {
            (Some(c), Some(m)) => Some(chord_union(c, m)),
            _ => None,
        }
    }
}

/// `Some` when every `+`-separated token is a modifier name (case-insensitive,
/// surrounding whitespace ignored) and at least one modifier is named.
pub open spec fn modifier_chord_of(shortcut: Seq<char>) -> Option<ModifierChord> {
    if trim(shortcut).len() == 0 {
        None
    } else {
        match chord_of_tokens(split_on(shortcut, '+')) {
            Some(c) => if c.spec_is_empty() {
                None
            } else {
                Some(c)
            },
            None => None,
        }
    }
}

fn modifier_of_token(token: &Vec<char>) -> (r: Option<ModifierChord>)
    ensures
        r == modifier_token(ascii_lower_seq(trim(token@))),
{
    let t = trimmed(token);
    let lower = ascii_lowercase(&t);
    if eq_str(&lower, "ctrl") || eq_str(&lower, "control") {
        Some(ModifierChord { ctrl: true, shift: false, alt: false, win: false })
    } else if eq_str(&lower, "shift") {
        Some(ModifierChord { ctrl: false, shift: true, alt: false, win: false })
    } else if eq_str(&lower, "alt") || eq_str(&lower, "option") {
        Some(ModifierChord { ctrl: false, shift: false, alt: true, win: false })
    } else if eq_str(&lower, "win") || eq_str(&lower, "windows") || eq_str(&lower, "super")
        || eq_str(&lower, "meta") || eq_str(&lower, "cmd") || eq_str(&lower, "command") {
        Some(ModifierChord { ctrl: false, shift: false, alt: false, win: true })
    } else {
        None
    }
}

pub fn parse_modifier_chord(shortcut: &str) -> (r: Option<ModifierChord>)
    ensures
        r == modifier_chord_of(shortcut@),
{
    if is_blank_str(shortcut) {
        return None;
    }
    let text = chars_of(shortcut);
    let tokens = split_char(&text, '+');
    let ghost ts = views(tokens@);
    let mut chord = ModifierChord { ctrl: false, shift: false, alt: false, win: false };
    let mut i: usize = 0;
    while i < tokens.len()
        invariant
            ts == views(tokens@),
            ts == split_on(shortcut@, '+'),
            trim(shortcut@).len() != 0,
            i <= tokens.len(),
            chord_of_tokens(ts.take(i as int)) == Some(chord),
        decreases tokens.len() - i,
    {
        assert(ts.take(i as int + 1).drop_last() == ts.take(i as int));
        assert(ts.take(i as int + 1).last() == tokens@[i as int]@);
        match modifier_of_token(&tokens[i]) {
            Some(m) => {
                chord = ModifierChord {
                    ctrl: chord.ctrl || m.ctrl,
                    shift: chord.shift || m.shift,
                    alt: chord.alt || m.alt,
                    win: chord.win || m.win,
                };
            },
            None => {
                proof {
                    lemma_chord_tokens_fail(ts, i as int + 1);
                }
                assert(ts.take(ts.len() as int) == ts);
                return None;
            },
        }
        i = i + 1;
    }
    assert(ts.take(tokens.len() as int) == ts);
    if chord.is_empty() {
        None
    } else {
        Some(chord)
    }
}

/// What one `+`-separated token names once trimmed and lowercased.
pub open spec fn token_modifier(token: Seq<char>) -> Option<ModifierChord> {
    modifier_token(ascii_lower_seq(trim(token)))
}

/// A token as the chord reads it: trimmed and lowercased.
pub open spec fn chord_token_text(token: Seq<char>) -> Seq<char> {
    ascii_lower_seq(trim(token))
}

proof fn lemma_chord_of_tokens_shape(tokens: Seq<Seq<char>>)
    ensures
        (chord_of_tokens(tokens) is Some) <==> (forall|i: int|
            0 <= i < tokens.len() ==> #[trigger] token_modifier(tokens[i]) is Some),
        chord_of_tokens(tokens) is Some ==> {
            let c = chord_of_tokens(tokens)->0;
            &&& c.ctrl <==> exists|i: int| 0 <= i < tokens.len() && (#[trigger] token_modifier(tokens[i]))->0.ctrl
            &&& c.shift <==> exists|i: int| 0 <= i < tokens.len() && (#[trigger] token_modifier(tokens[i]))->0.shift
            &&& c.alt <==> exists|i: int| 0 <= i < tokens.len() && (#[trigger] token_modifier(tokens[i]))->0.alt
            &&& c.win <==> exists|i: int| 0 <= i < tokens.len() && (#[trigger] token_modifier(tokens[i]))->0.win
        },
    decreases tokens.len(),
{
    if tokens.len() > 0 {
        let front = tokens.drop_last();
        lemma_chord_of_tokens_shape(front);
        assert forall|i: int| 0 <= i < front.len() implies token_modifier(front[i]) == token_modifier(
            tokens[i],
        ) by {}
        assert(token_modifier(tokens.last()) == token_modifier(tokens[tokens.len() - 1]));
        if chord_of_tokens(tokens) is Some {
            let c = chord_of_tokens(tokens)->0;
            let last = tokens.len() - 1;
            if c.ctrl && !token_modifier(tokens[last])->0.ctrl {
                let i = choose|i: int| 0 <= i < front.len() && (#[trigger] token_modifier(front[i]))->0.ctrl;
                assert(token_modifier(tokens[i])->0.ctrl);
            }
            if c.shift && !token_modifier(tokens[last])->0.shift {
                let i = choose|i: int| 0 <= i < front.len() && (#[trigger] token_modifier(front[i]))->0.shift;
                assert(token_modifier(tokens[i])->0.shift);
            }
            if c.alt && !token_modifier(tokens[last])->0.alt {
                let i = choose|i: int| 0 <= i < front.len() && (#[trigger] token_modifier(front[i]))->0.alt;
                assert(token_modifier(tokens[i])->0.alt);
            }
            if c.win && !token_modifier(tokens[last])->0.win {
                let i = choose|i: int| 0 <= i < front.len() && (#[trigger] token_modifier(front[i]))->0.win;
                assert(token_modifier(tokens[i])->0.win);
            }
            assert forall|i: int| 0 <= i < tokens.len() && #[trigger] token_modifier(tokens[i])->0.ctrl implies c.ctrl by {
                if i < last {
                    assert(token_modifier(front[i])->0.ctrl);
                }
            }
            assert forall|i: int| 0 <= i < tokens.len() && #[trigger] token_modifier(tokens[i])->0.shift implies c.shift by {
                if i < last {
                    assert(token_modifier(front[i])->0.shift);
                }
            }
            assert forall|i: int| 0 <= i < tokens.len() && #[trigger] token_modifier(tokens[i])->0.alt implies c.alt by {
                if i < last {
                    assert(token_modifier(front[i])->0.alt);
                }
            }
            assert forall|i: int| 0 <= i < tokens.len() && #[trigger] token_modifier(tokens[i])->0.win implies c.win by {
                if i < last {
                    assert(token_modifier(front[i])->0.win);
                }
            }
        } else {
            if chord_of_tokens(front) is None {
                let i = choose|i: int| 0 <= i < front.len() && !(#[trigger] token_modifier(front[i]) is Some);
                assert(!(token_modifier(tokens[i]) is Some));
            }
        }
    }
}

proof fn lemma_blank_pieces(s: Seq<char>, sep: char)
    requires
        crate::text::is_blank(s),
    ensures
        forall|i: int| 0 <= i < split_on(s, sep).len() ==> crate::text::is_blank(#[trigger] split_on(s, sep)[i]),
    decreases s.len(),
{
    if s.len() > 0 {
        lemma_blank_pieces(s.drop_last(), sep);
        crate::text::lemma_split_on_nonempty(s.drop_last(), sep);
        let r = split_on(s.drop_last(), sep);
        assert(crate::text::is_blank(r[r.len() - 1]));
        assert(crate::text::is_blank(r.last().push(s.last())));
        assert(crate::text::is_blank(Seq::<char>::empty()));
    }
}

proof fn lemma_blank_token_names_nothing(t: Seq<char>)
    requires
        crate::text::is_blank(t),
    ensures
        token_modifier(t) is None,
{
    crate::text::lemma_trim_empty_iff_blank(t);
    assert(ascii_lower_seq(trim(t)).len() == 0);
    reveal_strlit("ctrl");
    reveal_strlit("control");
    reveal_strlit("shift");
    reveal_strlit("alt");
    reveal_strlit("option");
    reveal_strlit("win");
    reveal_strlit("windows");
    reveal_strlit("super");
    reveal_strlit("meta");
    reveal_strlit("cmd");
    reveal_strlit("command");
}

/// Every token of `ta` names what some token of `tb` names.
spec fn covered(ta: Seq<Seq<char>>, tb: Seq<Seq<char>>) -> bool {
    forall|i: int| #![trigger ta[i]] 0 <= i < ta.len() ==> exists|j: int| 0 <= j < tb.len()
        && token_modifier(ta[i]) == #[trigger] token_modifier(tb[j])
}

spec fn flag_of(c: ModifierChord, k: int) -> bool {
    if k == 0 {
        c.ctrl
    } else if k == 1 {
        c.shift
    } else if k == 2 {
        c.alt
    } else {
        c.win
    }
}

proof fn lemma_some_transfers(ta: Seq<Seq<char>>, tb: Seq<Seq<char>>)
    requires
        covered(tb, ta),
        chord_of_tokens(ta) is Some,
    ensures
        chord_of_tokens(tb) is Some,
{
    lemma_chord_of_tokens_shape(ta);
    lemma_chord_of_tokens_shape(tb);
    assert forall|j: int| 0 <= j < tb.len() implies #[trigger] token_modifier(tb[j]) is Some by {
        let i = choose|i: int| 0 <= i < ta.len() && token_modifier(tb[j]) == #[trigger] token_modifier(ta[i]);
        assert(token_modifier(ta[i]) is Some);
    }
}

proof fn lemma_flag_transfers(ta: Seq<Seq<char>>, tb: Seq<Seq<char>>, k: int)
    requires
        covered(ta, tb),
        chord_of_tokens(ta) is Some,
        chord_of_tokens(tb) is Some,
        flag_of(chord_of_tokens(ta)->0, k),
    ensures
        flag_of(chord_of_tokens(tb)->0, k),
{
    lemma_chord_of_tokens_shape(ta);
    lemma_chord_of_tokens_shape(tb);
    if k == 0 {
        let i = choose|i: int| 0 <= i < ta.len() && (#[trigger] token_modifier(ta[i]))->0.ctrl;
        let j = choose|j: int| 0 <= j < tb.len() && token_modifier(ta[i]) == #[trigger] token_modifier(tb[j]);
        assert(token_modifier(tb[j])->0.ctrl);
    } else if k == 1 {
        let i = choose|i: int| 0 <= i < ta.len() && (#[trigger] token_modifier(ta[i]))->0.shift;
        let j = choose|j: int| 0 <= j < tb.len() && token_modifier(ta[i]) == #[trigger] token_modifier(tb[j]);
        assert(token_modifier(tb[j])->0.shift);
    } else if k == 2 {
        let i = choose|i: int| 0 <= i < ta.len() && (#[trigger] token_modifier(ta[i]))->0.alt;
        let j = choose|j: int| 0 <= j < tb.len() && token_modifier(ta[i]) == #[trigger] token_modifier(tb[j]);
        assert(token_modifier(tb[j])->0.alt);
    } else {
        let i = choose|i: int| 0 <= i < ta.len() && (#[trigger] token_modifier(ta[i]))->0.win;
        let j = choose|j: int| 0 <= j < tb.len() && token_modifier(ta[i]) == #[trigger] token_modifier(tb[j]);
        assert(token_modifier(tb[j])->0.win);
    }
}

proof fn lemma_same_tokens_same_chord(ta: Seq<Seq<char>>, tb: Seq<Seq<char>>)
    requires
        covered(ta, tb),
        covered(tb, ta),
    ensures
        chord_of_tokens(ta) == chord_of_tokens(tb),
{
    if chord_of_tokens(ta) is Some {
        lemma_some_transfers(ta, tb);
    }
    if chord_of_tokens(tb) is Some {
        lemma_some_transfers(tb, ta);
    }
    if chord_of_tokens(ta) is Some {
        let ca = chord_of_tokens(ta)->0;
        let cb = chord_of_tokens(tb)->0;
        assert forall|k: int| 0 <= k < 4 implies flag_of(ca, k) == flag_of(cb, k) by {
            if flag_of(ca, k) {
                lemma_flag_transfers(ta, tb, k);
            }
            if flag_of(cb, k) {
                lemma_flag_transfers(tb, ta, k);
            }
        }
        assert(flag_of(ca, 0) == flag_of(cb, 0));
        assert(flag_of(ca, 1) == flag_of(cb, 1));
        assert(flag_of(ca, 2) == flag_of(cb, 2));
        assert(flag_of(ca, 3) == flag_of(cb, 3));
    }
}

/// The `+`-separated tokens of `a` and of `b`, trimmed and lowercased, are
/// the same set.
pub open spec fn same_token_texts(a: Seq<char>, b: Seq<char>) -> bool {
    &&& forall|i: int|
        0 <= i < split_on(a, '+').len() ==> exists|j: int|
            0 <= j < split_on(b, '+').len() && #[trigger] chord_token_text(split_on(a, '+')[i])
                == #[trigger] chord_token_text(split_on(b, '+')[j])
    &&& forall|j: int|
        0 <= j < split_on(b, '+').len() ==> exists|i: int|
            0 <= i < split_on(a, '+').len() && #[trigger] chord_token_text(split_on(a, '+')[i])
                == #[trigger] chord_token_text(split_on(b, '+')[j])
}

proof fn lemma_same_token_texts_cover(a: Seq<char>, b: Seq<char>)
    requires
        same_token_texts(a, b),
    ensures
        covered(split_on(a, '+'), split_on(b, '+')),
        covered(split_on(b, '+'), split_on(a, '+')),
{
    let ta = split_on(a, '+');
    let tb = split_on(b, '+');
    assert forall|i: int| #![trigger ta[i]] 0 <= i < ta.len() implies exists|j: int| 0 <= j < tb.len()
        && token_modifier(ta[i]) == #[trigger] token_modifier(tb[j]) by {
        let j = choose|j: int| 0 <= j < tb.len() && #[trigger] chord_token_text(ta[i]) == #[trigger] chord_token_text(tb[j]);
        assert(token_modifier(ta[i]) == token_modifier(tb[j]));
    }
    assert forall|j: int| #![trigger tb[j]] 0 <= j < tb.len() implies exists|i: int| 0 <= i < ta.len()
        && token_modifier(tb[j]) == #[trigger] token_modifier(ta[i]) by {
        let i = choose|i: int| 0 <= i < ta.len() && #[trigger] chord_token_text(ta[i]) == #[trigger] chord_token_text(tb[j]);
        assert(token_modifier(ta[i]) == token_modifier(tb[j]));
    }
}

proof fn lemma_blank_shortcut_names_no_chord(a: Seq<char>)
    requires
        trim(a).len() == 0,
    ensures
        chord_of_tokens(split_on(a, '+')) is None,
{
    let ta = split_on(a, '+');
    crate::text::lemma_trim_empty_iff_blank(a);
    crate::text::lemma_split_on_nonempty(a, '+');
    lemma_blank_pieces(a, '+');
    lemma_blank_token_names_nothing(ta[0]);
    lemma_chord_of_tokens_shape(ta);
}

/// A shortcut names a modifier chord exactly when it is not blank and every
/// `+`-separated token, trimmed and lowercased, is a modifier name; the chord
/// then holds each modifier that some token names, and no other.
pub proof fn law_chord_is_the_union_of_its_tokens(s: Seq<char>)
    ensures
        (modifier_chord_of(s) is Some) <==> (trim(s).len() > 0 && forall|i: int|
            0 <= i < split_on(s, '+').len() ==> #[trigger] token_modifier(split_on(s, '+')[i]) is Some),
        modifier_chord_of(s) is Some ==> {
            let c = modifier_chord_of(s)->0;
            let t = split_on(s, '+');
            &&& c.ctrl <==> exists|i: int| 0 <= i < t.len() && (#[trigger] token_modifier(t[i]))->0.ctrl
            &&& c.shift <==> exists|i: int| 0 <= i < t.len() && (#[trigger] token_modifier(t[i]))->0.shift
            &&& c.alt <==> exists|i: int| 0 <= i < t.len() && (#[trigger] token_modifier(t[i]))->0.alt
            &&& c.win <==> exists|i: int| 0 <= i < t.len() && (#[trigger] token_modifier(t[i]))->0.win
        },
{
    let t = split_on(s, '+');
    lemma_chord_of_tokens_shape(t);
    crate::text::lemma_split_on_nonempty(s, '+');
    if chord_of_tokens(t) is Some {
        let m = token_modifier(t[0]);
        assert(m is Some);
        assert(m->0.ctrl || m->0.shift || m->0.alt || m->0.win);
    }
}

/// A modifier chord does not depend on the order of its tokens, nor on their
/// case, the spaces around them or repeats: two shortcuts whose `+`-separated
/// tokens, trimmed and lowercased, are the same set parse to the same chord
/// (so "CTRL+SHIFT" and " shift + ctrl " name one chord).
pub proof fn law_chord_ignores_order_case_and_spaces(a: Seq<char>, b: Seq<char>)
    requires
        same_token_texts(a, b),
    ensures
        modifier_chord_of(a) == modifier_chord_of(b),
{
    lemma_same_token_texts_cover(a, b);
    lemma_same_tokens_same_chord(split_on(a, '+'), split_on(b, '+'));
    if trim(a).len() == 0 {
        lemma_blank_shortcut_names_no_chord(a);
    }
    if trim(b).len() == 0 {
        lemma_blank_shortcut_names_no_chord(b);
    }
}


/// Once a prefix of the tokens is not all modifiers, no longer prefix is.
pub proof fn lemma_chord_tokens_fail(ts: Seq<Seq<char>>, k: int)
    requires
        0 <= k <= ts.len(),
        chord_of_tokens(ts.take(k)) is None,
    ensures
        chord_of_tokens(ts) is None,
    decreases ts.len() - k,
{
    if k < ts.len() {
        assert(ts.take(k + 1).drop_last() == ts.take(k));
        lemma_chord_tokens_fail(ts, k + 1);
    } else {
        assert(ts.take(k) == ts);
    }
}

/// The token spelling the global-shortcut parser expects.
pub open spec fn normalized_token(t: Seq<char>) -> Seq<char> {
    let l = ascii_lower_seq(trim(t));
    if l == "win"@ || l == "windows"@ || l == "meta"@ {
        "Super"@
    } else if l == "control"@ {
        "Ctrl"@
    } else if l == "~"@ || l == "`"@ || l == "tilde"@ || l == "backquote"@ {
        "Backquote"@
    } else {
        l
    }
}

pub open spec fn normalized_shortcut(s: Seq<char>) -> Seq<char> {
    join(split_on(s, '+').map_values(|t: Seq<char>| normalized_token(t)), "+"@)
}

fn normalize_token(token: &Vec<char>) -> (r: Vec<char>)
    ensures
        r@ == normalized_token(token@),
{
    let t = trimmed(token);
    let l = ascii_lowercase(&t);
    if eq_str(&l, "win") || eq_str(&l, "windows") || eq_str(&l, "meta") {
        chars_of("Super")
    } else if eq_str(&l, "control") {
        chars_of("Ctrl")
    } else if eq_str(&l, "~") || eq_str(&l, "`") || eq_str(&l, "tilde") || eq_str(&l, "backquote") {
        chars_of("Backquote")
    } else {
        l
    }
}

/// Rewrites each `+`-separated token into the parser's spelling: Win /
/// Windows / Meta become "Super", Control becomes "Ctrl", the tilde aliases
/// become "Backquote", everything else is trimmed and lowercased.
pub fn normalize_shortcut(shortcut: &str) -> (r: String)
    ensures
        r@ == normalized_shortcut(shortcut@),
{
    let text = chars_of(shortcut);
    let tokens = split_char(&text, '+');
    let ghost ts = views(tokens@);
    let mut out: Vec<Vec<char>> = Vec::new();
    let mut i: usize = 0;
    while i < tokens.len()
        invariant
            ts == views(tokens@),
            i <= tokens.len(),
            views(out@) == ts.take(i as int).map_values(|t: Seq<char>| normalized_token(t)),
        decreases tokens.len() - i,
    {
        let ghost old_out = out@;
        let n = normalize_token(&tokens[i]);
        out.push(n);
        assert(views(out@) =~= views(old_out).push(normalized_token(ts[i as int])));
        assert(ts.take(i as int + 1).map_values(|t: Seq<char>| normalized_token(t)) =~= ts.take(
            i as int,
        ).map_values(|t: Seq<char>| normalized_token(t)).push(normalized_token(ts[i as int])));
        i = i + 1;
    }
    assert(ts.take(tokens.len() as int) == ts);
    let plus = chars_of("+");
    string_from_chars(&join_chars(&out, &plus))
}

/// What a binding is registered as: a global-shortcut id, or a modifier chord.
#[derive(Debug, Clone, Copy, PartialEq, Eq, Hash, Structural)]
pub enum BindingKey {
    Plugin(u32),
    Chord(ModifierChord),
}

/// How a shortcut binds: a modifier-only chord watched natively, or text for
/// the global-shortcut parser (already normalized).
#[derive(Debug, Clone)]
pub enum ShortcutForm {
    Chord(ModifierChord),
    Plugin(String),
}

/// Classifies a shortcut: modifier-only chords first, otherwise the
/// normalized text the global-shortcut parser receives.
pub fn classify_shortcut(shortcut: &str) -> (r: ShortcutForm)
    ensures
        match modifier_chord_of(shortcut@) {
            Some(c) => r matches ShortcutForm::Chord(rc) && rc == c,
            None => r matches ShortcutForm::Plugin(s) && s@ == normalized_shortcut(shortcut@),
        },
{
    match parse_modifier_chord(shortcut) {
        Some(chord) => ShortcutForm::Chord(chord),
        None => ShortcutForm::Plugin(normalize_shortcut(shortcut)),
    }
}

/// The binding key of action `i` given the parser's answer for it, or the
/// parser's error.
pub open spec fn binding_of(h: HotkeySettings, plugin: Seq<Result<u32, CommandError>>, i: int) -> Result<BindingKey, CommandError> {
    match modifier_chord_of(shortcut_of(action_at(i), h)) {
        Some(c) => Ok(BindingKey::Chord(c)),
        None => match plugin[i] {
            Ok(id) => Ok(BindingKey::Plugin(id)),
            Err(e) => Err(e),
        },
    }
}

/// The first action (in registration order) whose binding is unusable or
/// collides with an earlier one.
pub open spec fn first_conflict(h: HotkeySettings, plugin: Seq<Result<u32, CommandError>>, n: int) -> Option<int>
    decreases n,
{
    if n <= 0 {
        None
    } else {
        match first_conflict(h, plugin, n - 1) {
            Some(i) => Some(i),
            None => {
                let i = n - 1;
                if binding_of(h, plugin, i) is Err || exists|j: int|
                    0 <= j < i && binding_of(h, plugin, j) == binding_of(h, plugin, i) {
                    Some(i)
                } else {
                    None
                }
            },
        }
    }
}

/// Checks that every binding parses and that no two actions share one.
/// `plugin[i]` is the global-shortcut parser's answer (shortcut id or error)
/// for action `i`'s normalized text; it is consulted only when that
/// shortcut is not a modifier chord. The first failure, in registration
/// order, is reported: the parser's own error, or `duplicate_hotkey`.
pub fn validate_hotkeys(hotkeys: &HotkeySettings, plugin: &Vec<Result<u32, CommandError>>) -> (r: Result<(), CommandError>)
    requires
        plugin.len() == 4,
    ensures
        match first_conflict(*hotkeys, plugin@, 4) {
            None => r is Ok,
            Some(i) => match binding_of(*hotkeys, plugin@, i) {
                Err(e) => r == Err::<(), CommandError>(e),
                Ok(_) => r matches Err(e) && e.code@ == "duplicate_hotkey"@,
            },
        },
{
    let actions = hotkey_actions();
    let mut seen: Vec<(BindingKey, HotkeyAction)> = Vec::new();
    let mut i: usize = 0;
    while i < 4
        invariant
            plugin.len() == 4,
            forall|k: int| 0 <= k < 4 ==> actions@[k] == action_at(k),
            i <= 4,
            seen.len() == i,
            first_conflict(*hotkeys, plugin@, i as int) is None,
            forall|k: int| 0 <= k < i ==> binding_of(*hotkeys, plugin@, k) == Ok::<BindingKey, CommandError>(seen@[k].0)
                && seen@[k].1 == action_at(k),
        decreases 4 - i,
    {
        let action = actions[i];
        let shortcut = action.shortcut(hotkeys);
        let key = match parse_modifier_chord(shortcut) {
            Some(chord) => BindingKey::Chord(chord),
            None => match &plugin[i] {
                Ok(id) => BindingKey::Plugin(*id),
                Err(e) => {
                    proof {
                        lemma_first_conflict_stable(*hotkeys, plugin@, i as int + 1);
                    }
                    return Err(e.clone_error());
                },
            },
        };
        assert(binding_of(*hotkeys, plugin@, i as int) == Ok::<BindingKey, CommandError>(key));
        let mut j: usize = 0;
        while j < seen.len()
            invariant
                j <= seen.len(),
                seen.len() == i,
                i < 4,
                plugin.len() == 4,
                first_conflict(*hotkeys, plugin@, i as int) is None,
                binding_of(*hotkeys, plugin@, i as int) == Ok::<BindingKey, CommandError>(key),
                forall|k: int| 0 <= k < i ==> binding_of(*hotkeys, plugin@, k) == Ok::<BindingKey, CommandError>(seen@[k].0)
                    && seen@[k].1 == action_at(k),
                forall|k: int| 0 <= k < j ==> seen@[k].0 != key,
            decreases seen.len() - j,
        {
            if seen[j].0 == key {
                proof {
                    assert(binding_of(*hotkeys, plugin@, j as int) == binding_of(*hotkeys, plugin@, i as int));
                    lemma_first_conflict_stable(*hotkeys, plugin@, i as int + 1);
                }
                let mut m = chars_of(shortcut);
                push_str(&mut m, " is already assigned to ");
                push_str(&mut m, debug_name(seen[j].1));
                push_str(&mut m, ". Choose a different hotkey.");
                return Err(CommandError::from_parts("duplicate_hotkey", string_from_chars(&m)));
            }
            j = j + 1;
        }
        assert(first_conflict(*hotkeys, plugin@, i as int + 1) is None) by {
            if exists|j: int| 0 <= j < i && binding_of(*hotkeys, plugin@, j) == binding_of(*hotkeys, plugin@, i as int) {
                let j = choose|j: int| 0 <= j < i && binding_of(*hotkeys, plugin@, j) == binding_of(*hotkeys, plugin@, i as int);
                assert(seen@[j].0 != key);
            }
        }
        seen.push((key, action));
        i = i + 1;
    }
    Ok(())
}

/// Once an earlier action conflicts, the reported conflict stays the same as
/// more actions are checked.
pub proof fn lemma_first_conflict_stable(h: HotkeySettings, plugin: Seq<Result<u32, CommandError>>, n: int)
    requires
        0 <= n <= 4,
        first_conflict(h, plugin, n) is Some,
    ensures
        first_conflict(h, plugin, 4) == first_conflict(h, plugin, n),
    decreases 4 - n,
{
    if n < 4 {
        lemma_first_conflict_stable(h, plugin, n + 1);
    }
}

// ---------------------------------------------------------------------------
// Press/release bookkeeping
// ---------------------------------------------------------------------------

/// Which actions are currently held, so key autorepeat fires an action once
/// and only a held action can be released.
#[derive(Debug, Clone, Copy, Default)]
pub struct PressedActions {
    pub hold_to_talk: bool,
    pub toggle_dictation: bool,
    pub paste_last_transcript: bool,
    pub open_dashboard: bool,
}

pub open spec fn is_pressed(p: PressedActions, a: HotkeyAction) -> bool {
    match a {
        HotkeyAction::HoldToTalk => p.hold_to_talk,
        HotkeyAction::ToggleDictation => p.toggle_dictation,
        HotkeyAction::PasteLastTranscript => p.paste_last_transcript,
        HotkeyAction::OpenDashboard => p.open_dashboard,
    }
}

impl PressedActions {
    fn set(&mut self, action: HotkeyAction, value: bool)
        ensures
            is_pressed(*final(self), action) == value,
            forall|b: HotkeyAction| b != action ==> is_pressed(*final(self), b) == is_pressed(*old(self), b),
    {
        match action {
            HotkeyAction::HoldToTalk => self.hold_to_talk = value,
            HotkeyAction::ToggleDictation => self.toggle_dictation = value,
            HotkeyAction::PasteLastTranscript => self.paste_last_transcript = value,
            HotkeyAction::OpenDashboard => self.open_dashboard = value,
        }
    }

    fn get(&self, action: HotkeyAction) -> (r: bool)
        ensures
            r == is_pressed(*self, action),
    {
        match action {
            HotkeyAction::HoldToTalk => self.hold_to_talk,
            HotkeyAction::ToggleDictation => self.toggle_dictation,
            HotkeyAction::PasteLastTranscript => self.paste_last_transcript,
            HotkeyAction::OpenDashboard => self.open_dashboard,
        }
    }

    /// Records a press; true only when the action was not already held.
    pub fn mark_pressed_once(&mut self, action: HotkeyAction) -> (r: bool)
        ensures
            r == !is_pressed(*old(self), action),
            is_pressed(*final(self), action),
            forall|b: HotkeyAction| b != action ==> is_pressed(*final(self), b) == is_pressed(*old(self), b),
    {
        let was = self.get(action);
        self.set(action, true);
        !was
    }

    /// Records a release; true only when the action was held.
    pub fn mark_released_once(&mut self, action: HotkeyAction) -> (r: bool)
        ensures
            r == is_pressed(*old(self), action),
            !is_pressed(*final(self), action),
            forall|b: HotkeyAction| b != action ==> is_pressed(*final(self), b) == is_pressed(*old(self), b),
    {
        let was = self.get(action);
        self.set(action, false);
        was
    }

    /// Forgets every held action (bindings were replaced).
    pub fn clear(&mut self)
        ensures
            forall|b: HotkeyAction| !is_pressed(*final(self), b),
    {
        *self = PressedActions {
            hold_to_talk: false,
            toggle_dictation: false,
            paste_last_transcript: false,
            open_dashboard: false,
        };
    }
}

// ---------------------------------------------------------------------------
// Modifier-chord watcher
// ---------------------------------------------------------------------------

/// How long a chord must be held alone before it fires.
pub const ARMING_DELAY_MS: u64 = 150;

#[derive(Debug, Clone, Copy, PartialEq, Eq, Structural)]
pub enum ChordState {
    /// Waiting for the chord modifiers to be held down.
    Idle,
    /// Chord is down; fires at the deadline (ms) unless another key shows up.
    Arming(u64),
    /// The press has fired; waiting for a modifier release.
    Active,
    /// Aborted or finished; waiting for every chord modifier to be released.
    Suppressed,
}

/// What the watcher dispatches after one poll.
#[derive(Debug, Clone, Copy, PartialEq, Eq, Structural)]
pub enum ChordDispatch {
    Nothing,
    Pressed,
    Released,
}

/// The modifier keys down at one poll.
#[derive(Debug, Clone, Copy, PartialEq, Eq, Structural)]
pub struct ModifierSnapshot {
    pub ctrl: bool,
    pub shift: bool,
    pub alt: bool,
    pub win: bool,
}

impl ModifierSnapshot {
    pub open spec fn spec_exactly(self, c: ModifierChord) -> bool {
        self.ctrl == c.ctrl && self.shift == c.shift && self.alt == c.alt && self.win == c.win
    }

    pub open spec fn spec_holds_all(self, c: ModifierChord) -> bool {
        (!c.ctrl || self.ctrl) && (!c.shift || self.shift) && (!c.alt || self.alt) && (!c.win
            || self.win)
    }

    pub open spec fn spec_holds_any(self, c: ModifierChord) -> bool {
        (c.ctrl && self.ctrl) || (c.shift && self.shift) || (c.alt && self.alt) || (c.win
            && self.win)
    }

    /// Exactly the chord's modifiers are down.
    pub fn exactly(self, c: ModifierChord) -> (r: bool)
        ensures
            r == self.spec_exactly(c),
    {
        self.ctrl == c.ctrl && self.shift == c.shift && self.alt == c.alt && self.win == c.win
    }

    /// Every modifier of the chord is down (extras allowed).
    pub fn holds_all(self, c: ModifierChord) -> (r: bool)
        ensures
            r == self.spec_holds_all(c),
    {
        (!c.ctrl || self.ctrl) && (!c.shift || self.shift) && (!c.alt || self.alt) && (!c.win
            || self.win)
    }

    /// At least one modifier of the chord is down.
    pub fn holds_any(self, c: ModifierChord) -> (r: bool)
        ensures
            r == self.spec_holds_any(c),
    {
        (c.ctrl && self.ctrl) || (c.shift && self.shift) || (c.alt && self.alt) || (c.win
            && self.win)
    }
}

pub open spec fn chord_step(
    chord: ModifierChord,
    state: ChordState,
    snap: ModifierSnapshot,
    now_ms: u64,
    other_key_down: bool,
) -> (ChordState, ChordDispatch) {
    match state {
        ChordState::Idle => if snap.spec_exactly(chord) {
            (ChordState::Arming((now_ms + ARMING_DELAY_MS) as u64), ChordDispatch::Nothing)
        } else {
            (ChordState::Idle, ChordDispatch::Nothing)
        },
        ChordState::Arming(deadline) => if !snap.spec_holds_all(chord) {
            (ChordState::Idle, ChordDispatch::Nothing)
        } else if !snap.spec_exactly(chord) {
            (ChordState::Suppressed, ChordDispatch::Nothing)
        } else if other_key_down {
            (ChordState::Suppressed, ChordDispatch::Nothing)
        } else if now_ms >= deadline {
            (ChordState::Active, ChordDispatch::Pressed)
        } else {
            (ChordState::Arming(deadline), ChordDispatch::Nothing)
        },
        ChordState::Active => if !snap.spec_holds_all(chord) {
            (ChordState::Suppressed, ChordDispatch::Released)
        } else {
            (ChordState::Active, ChordDispatch::Nothing)
        },
        ChordState::Suppressed => if snap.spec_holds_any(chord) {
            (ChordState::Suppressed, ChordDispatch::Nothing)
        } else {
            (ChordState::Idle, ChordDispatch::Nothing)
        },
    }
}

/// One poll of the chord watcher: the chord arms when exactly its modifiers
/// are down, fires once after the arming delay unless another key or
/// modifier joins (then it is suppressed), and releases when a modifier lets
/// go; after that it waits for all its modifiers to be up before re-arming.
/// A press is dispatched only out of Arming and always leads to Active; a
/// release only out of Active, and it always leads to Suppressed.
pub fn step(
    chord: ModifierChord,
    state: ChordState,
    snapshot: ModifierSnapshot,
    now_ms: u64,
    other_key_down: bool,
) -> (r: (ChordState, ChordDispatch))
    requires
        now_ms <= u64::MAX - ARMING_DELAY_MS,
    ensures
        r == chord_step(chord, state, snapshot, now_ms, other_key_down),
        r.1 == ChordDispatch::Pressed ==> state is Arming && r.0 == ChordState::Active,
        r.1 == ChordDispatch::Released ==> state == ChordState::Active && r.0 == ChordState::Suppressed,
        other_key_down ==> r.1 != ChordDispatch::Pressed,
        state is Arming && other_key_down && snapshot.spec_holds_all(chord) ==> r == (
            ChordState::Suppressed,
            ChordDispatch::Nothing,
        ),
{
    match state {
        ChordState::Idle => {
            if snapshot.exactly(chord) {
                (ChordState::Arming(now_ms + ARMING_DELAY_MS), ChordDispatch::Nothing)
            } else {
                (ChordState::Idle, ChordDispatch::Nothing)
            }
        },
        ChordState::Arming(deadline) => {
            if !snapshot.holds_all(chord) {
                (ChordState::Idle, ChordDispatch::Nothing)
            } else if !snapshot.exactly(chord) {
                (ChordState::Suppressed, ChordDispatch::Nothing)
            } else if other_key_down {
                (ChordState::Suppressed, ChordDispatch::Nothing)
            } else if now_ms >= deadline {
                (ChordState::Active, ChordDispatch::Pressed)
            } else {
                (ChordState::Arming(deadline), ChordDispatch::Nothing)
            }
        },
        ChordState::Active => {
            if !snapshot.holds_all(chord) {
                (ChordState::Suppressed, ChordDispatch::Released)
            } else {
                (ChordState::Active, ChordDispatch::Nothing)
            }
        },
        ChordState::Suppressed => {
            if snapshot.holds_any(chord) {
                (ChordState::Suppressed, ChordDispatch::Nothing)
            } else {
                (ChordState::Idle, ChordDispatch::Nothing)
            }
        },
    }
}

/// The watcher's dispatches alternate: over any run of polls, between two
/// presses there is a release (the state after a press is Active, and the
/// only way out of Active is a release).
pub open spec fn run_chord(
    chord: ModifierChord,
    state: ChordState,
    polls: Seq<(ModifierSnapshot, u64, bool)>,
) -> Seq<ChordDispatch>
    decreases polls.len(),
{
    if polls.len() == 0 {
        Seq::<ChordDispatch>::empty()
    } else {
        let (next, d) = chord_step(chord, state, polls[0].0, polls[0].1, polls[0].2);
        seq![d] + run_chord(chord, next, polls.drop_first())
    }
}

pub proof fn lemma_run_chord_len(chord: ModifierChord, state: ChordState, polls: Seq<(ModifierSnapshot, u64, bool)>)
    ensures
        run_chord(chord, state, polls).len() == polls.len(),
    decreases polls.len(),
{
    if polls.len() > 0 {
        let (next, d) = chord_step(chord, state, polls[0].0, polls[0].1, polls[0].2);
        lemma_run_chord_len(chord, next, polls.drop_first());
    }
}

/// In Active no further press can be dispatched until a release has been.
pub proof fn lemma_active_never_presses_again(
    chord: ModifierChord,
    polls: Seq<(ModifierSnapshot, u64, bool)>,
    k: int,
)
    requires
        0 <= k < polls.len(),
        forall|j: int| 0 <= j < k ==> run_chord(chord, ChordState::Active, polls)[j] != ChordDispatch::Released,
    ensures
        run_chord(chord, ChordState::Active, polls)[k] != ChordDispatch::Pressed,
    decreases k,
{
    let (next, d) = chord_step(chord, ChordState::Active, polls[0].0, polls[0].1, polls[0].2);
    let rest = polls.drop_first();
    lemma_run_chord_len(chord, next, rest);
    assert(run_chord(chord, ChordState::Active, polls) == seq![d] + run_chord(chord, next, rest));
    assert(run_chord(chord, ChordState::Active, polls)[0] == d);
    if k > 0 {
        assert(d != ChordDispatch::Released);
        assert(next == ChordState::Active);
        assert forall|j: int| 0 <= j < k - 1 implies run_chord(chord, ChordState::Active, rest)[j]
            != ChordDispatch::Released by {
            assert(run_chord(chord, ChordState::Active, polls)[j + 1] == run_chord(chord, ChordState::Active, rest)[j]);
        }
        lemma_active_never_presses_again(chord, rest, k - 1);
        assert(run_chord(chord, ChordState::Active, polls)[k] == run_chord(chord, ChordState::Active, rest)[k - 1]);
    }
}

/// A poll in which another key is down never starts dictation, whatever the
/// state; an arming chord that sees another key (the user typing a
/// shortcut such as Ctrl+Win+D) is suppressed, not fired.
pub proof fn law_typing_never_presses(
    chord: ModifierChord,
    state: ChordState,
    snap: ModifierSnapshot,
    now_ms: u64,
)
    ensures
        chord_step(chord, state, snap, now_ms, true).1 != ChordDispatch::Pressed,
        state is Arming && (!chord.ctrl || snap.ctrl) && (!chord.shift || snap.shift) && (!chord.alt
            || snap.alt) && (!chord.win || snap.win) ==> chord_step(chord, state, snap, now_ms, true) == (
            ChordState::Suppressed,
            ChordDispatch::Nothing,
        ),
{
}

/// Dictation starts only out of an arming chord whose deadline has come,
/// with exactly the chord's modifiers down and no other key.
pub proof fn law_press_needs_the_bare_chord_held_long_enough(
    chord: ModifierChord,
    state: ChordState,
    snap: ModifierSnapshot,
    now_ms: u64,
    other_key_down: bool,
)
    ensures
        chord_step(chord, state, snap, now_ms, other_key_down).1 == ChordDispatch::Pressed ==> (state
            matches ChordState::Arming(deadline) && now_ms >= deadline && !other_key_down && snap.ctrl
            == chord.ctrl && snap.shift == chord.shift && snap.alt == chord.alt && snap.win == chord.win),
{
}

/// Over any run of polls, no poll in which another key is down dispatches a
/// press.
pub proof fn law_no_press_while_typing(
    chord: ModifierChord,
    state: ChordState,
    polls: Seq<(ModifierSnapshot, u64, bool)>,
    k: int,
)
    requires
        0 <= k < polls.len(),
        polls[k].2,
    ensures
        run_chord(chord, state, polls)[k] != ChordDispatch::Pressed,
    decreases k,
{
    let (next, d) = chord_step(chord, state, polls[0].0, polls[0].1, polls[0].2);
    let rest = polls.drop_first();
    lemma_run_chord_len(chord, next, rest);
    assert(run_chord(chord, state, polls) == seq![d] + run_chord(chord, next, rest));
    if k == 0 {
        law_typing_never_presses(chord, state, polls[0].0, polls[0].1);
    } else {
        assert(rest[k - 1] == polls[k]);
        law_no_press_while_typing(chord, next, rest, k - 1);
        assert(run_chord(chord, state, polls)[k] == run_chord(chord, next, rest)[k - 1]);
    }
}

// --- what a hotkey does --------------------------------------------------------

/// What the toggle key (or the note chord) does in a given app state.
#[derive(Debug, Clone, Copy, PartialEq, Eq, Structural)]
pub enum ToggleAction {
    /// Start a dictation (from Error the start path first resets).
    Start,
    /// Stop the dictation that is recording.
    Stop,
    /// Busy stopping, transcribing or pasting: nothing to do.
    Ignore,
}

/// Idle, Ready and Error start a dictation; Recording stops it; every other
/// state ignores the key.
pub fn toggle_action(status: AppStatus) -> (r: ToggleAction)
    ensures
        (status == AppStatus::Idle || status == AppStatus::Ready || status == AppStatus::Error)
            <==> r == ToggleAction::Start,
        status == AppStatus::Recording <==> r == ToggleAction::Stop,
{
    match status {
        AppStatus::Idle | AppStatus::Ready | AppStatus::Error => ToggleAction::Start,
        AppStatus::Recording => ToggleAction::Stop,
        _ => ToggleAction::Ignore,
    }
}

/// What a pressed hotkey does.
#[derive(Debug, Clone, Copy, PartialEq, Eq, Structural)]
pub enum PressEffect {
    /// Hold-to-talk: start a dictation that never auto-stops on silence.
    StartHeldDictation,
    /// Toggle dictation as `toggle_action` says.
    ToggleDictation,
    PasteLastTranscript,
    /// Show the dashboard, or hide it when it is already in front.
    ToggleDashboard,
    OpenDashboard,
}

/// Each action has one effect; the dashboard key toggles the window when the
/// setting says so, and only opens it otherwise.
pub fn press_effect(action: HotkeyAction, dashboard_hotkey_toggles: bool) -> (r: PressEffect)
    ensures
        action == HotkeyAction::HoldToTalk <==> r == PressEffect::StartHeldDictation,
        action == HotkeyAction::ToggleDictation <==> r == PressEffect::ToggleDictation,
        action == HotkeyAction::PasteLastTranscript <==> r == PressEffect::PasteLastTranscript,
        action == HotkeyAction::OpenDashboard ==> r == if dashboard_hotkey_toggles {
            PressEffect::ToggleDashboard
        } else {
            PressEffect::OpenDashboard
        },
{
    match action {
        HotkeyAction::HoldToTalk => PressEffect::StartHeldDictation,
        HotkeyAction::ToggleDictation => PressEffect::ToggleDictation,
        HotkeyAction::PasteLastTranscript => PressEffect::PasteLastTranscript,
        HotkeyAction::OpenDashboard => if dashboard_hotkey_toggles {
            PressEffect::ToggleDashboard
        } else {
            PressEffect::OpenDashboard
        },
    }
}

/// Releasing a hotkey stops the dictation only for hold-to-talk.
pub fn release_stops_dictation(action: HotkeyAction) -> (r: bool)
    ensures
        r <==> action == HotkeyAction::HoldToTalk,
{
    match action {
        HotkeyAction::HoldToTalk => true,
        _ => false,
    }
}

// --- the note chord during a toggle hold -----------------------------------------

/// One hold of the toggle key: whether it is down, the note key grabbed for
/// the hold (by shortcut id), and whether the note chord fired.
#[derive(Debug, Clone, Copy, PartialEq, Eq, Structural)]
pub struct NoteChordHold {
    pub held: bool,
    pub note_key: Option<u32>,
    pub fired: bool,
}

impl NoteChordHold {
    pub fn new() -> (h: Self)
        ensures
            !h.held && h.note_key is None && !h.fired,
    {
        NoteChordHold { held: false, note_key: None, fired: false }
    }

    /// The toggle key went down: a new hold, nothing fired yet.
    pub fn key_down(&mut self)
        ensures
            final(self).held && !final(self).fired && final(self).note_key == old(self).note_key,
    {
        self.held = true;
        self.fired = false;
    }

    /// The note key was grabbed: kept only while the hold lasts. `false`
    /// tells the caller to release the grab again at once.
    pub fn arm(&mut self, id: u32) -> (kept: bool)
        ensures
            kept == old(self).held,
            kept ==> final(self).note_key == Some(id),
            !kept ==> final(self).note_key == old(self).note_key,
            final(self).held == old(self).held && final(self).fired == old(self).fired,
    {
        if self.held {
            self.note_key = Some(id);
            true
        } else {
            false
        }
    }

    /// Whether shortcut `id` is the grabbed note key.
    pub fn is_note_key(&self, id: u32) -> (r: bool)
        ensures
            r == (self.note_key == Some(id)),
    {
        match self.note_key {
            Some(k) => k == id,
            None => false,
        }
    }

    /// The note key was pressed: only the first press of a hold counts (key
    /// autorepeat is ignored).
    pub fn note_pressed(&mut self) -> (first: bool)
        ensures
            first == !old(self).fired,
            final(self).fired,
            final(self).held == old(self).held && final(self).note_key == old(self).note_key,
    {
        let first = !self.fired;
        self.fired = true;
        first
    }

    /// The toggle key came up: the hold ends, the grab (if any) is handed
    /// back for release, and dictation toggles unless the note chord fired.
    pub fn key_up(&mut self) -> (r: (Option<u32>, bool))
        ensures
            r.0 == old(self).note_key,
            r.1 == !old(self).fired,
            !final(self).held && final(self).note_key is None && final(self).fired == old(self).fired,
    {
        self.held = false;
        let key = self.note_key;
        self.note_key = None;
        (key, !self.fired)
    }
}

/// How many of `n` calls of `note_pressed`, made on a hold whose `fired`
/// flag starts as `fired`, return `true`.
pub open spec fn counted_presses(fired: bool, n: nat) -> nat
    decreases n,
{
    if n == 0 {
        0
    } else {
        counted_presses(true, (n - 1) as nat) + if fired {
            0nat
        } else {
            1nat
        }
    }
}

/// One toggle hold does exactly one thing: it starts a note (the first of
/// any number of note-key presses) or, when the note key was never pressed,
/// toggles dictation on release; never both.
pub proof fn lemma_hold_does_one_thing(n: nat)
    ensures
        counted_presses(false, n) + (if n == 0 {
            1nat
        } else {
            0nat
        }) == 1,
        n > 0 ==> counted_presses(false, n) == 1,
    decreases n,
{
    if n > 0 {
        lemma_fired_presses_do_nothing((n - 1) as nat);
    }
}

/// Once the chord fired, further presses count for nothing.
pub proof fn lemma_fired_presses_do_nothing(n: nat)
    ensures
        counted_presses(true, n) == 0,
    decreases n,
{
    if n > 0 {
        lemma_fired_presses_do_nothing((n - 1) as nat);
    }
}

/// The Windows virtual-key code of a key, named as the global-shortcut
/// parser names its key codes (`KeyA`, `Digit1`, `F5`, `Space`, ...): the keys
/// a toggle hotkey is realistically bound to, `None` for any other.
pub open spec fn vk_of_code(code: Seq<char>) -> Option<i32> {
    if code == "Backquote"@ {
        Some(0xC0)
    } else if code == "KeyA"@ {
        Some(0x41)
    } else if code == "KeyB"@ {
        Some(0x42)
    } else if code == "KeyC"@ {
        Some(0x43)
    } else if code == "KeyD"@ {
        Some(0x44)
    } else if code == "KeyE"@ {
        Some(0x45)
    } else if code == "KeyF"@ {
        Some(0x46)
    } else if code == "KeyG"@ {
        Some(0x47)
    } else if code == "KeyH"@ {
        Some(0x48)
    } else if code == "KeyI"@ {
        Some(0x49)
    } else if code == "KeyJ"@ {
        Some(0x4A)
    } else if code == "KeyK"@ {
        Some(0x4B)
    } else if code == "KeyL"@ {
        Some(0x4C)
    } else if code == "KeyM"@ {
        Some(0x4D)
    } else if code == "KeyN"@ {
        Some(0x4E)
    } else if code == "KeyO"@ {
        Some(0x4F)
    } else if code == "KeyP"@ {
        Some(0x50)
    } else if code == "KeyQ"@ {
        Some(0x51)
    } else if code == "KeyR"@ {
        Some(0x52)
    } else if code == "KeyS"@ {
        Some(0x53)
    } else if code == "KeyT"@ {
        Some(0x54)
    } else if code == "KeyU"@ {
        Some(0x55)
    } else if code == "KeyV"@ {
        Some(0x56)
    } else if code == "KeyW"@ {
        Some(0x57)
    } else if code == "KeyX"@ {
        Some(0x58)
    } else if code == "KeyY"@ {
        Some(0x59)
    } else if code == "KeyZ"@ {
        Some(0x5A)
    } else if code == "Digit0"@ {
        Some(0x30)
    } else if code == "Digit1"@ {
        Some(0x31)
    } else if code == "Digit2"@ {
        Some(0x32)
    } else if code == "Digit3"@ {
        Some(0x33)
    } else if code == "Digit4"@ {
        Some(0x34)
    } else if code == "Digit5"@ {
        Some(0x35)
    } else if code == "Digit6"@ {
        Some(0x36)
    } else if code == "Digit7"@ {
        Some(0x37)
    } else if code == "Digit8"@ {
        Some(0x38)
    } else if code == "Digit9"@ {
        Some(0x39)
    } else if code == "F1"@ {
        Some(0x70)
    } else if code == "F2"@ {
        Some(0x71)
    } else if code == "F3"@ {
        Some(0x72)
    } else if code == "F4"@ {
        Some(0x73)
    } else if code == "F5"@ {
        Some(0x74)
    } else if code == "F6"@ {
        Some(0x75)
    } else if code == "F7"@ {
        Some(0x76)
    } else if code == "F8"@ {
        Some(0x77)
    } else if code == "F9"@ {
        Some(0x78)
    } else if code == "F10"@ {
        Some(0x79)
    } else if code == "F11"@ {
        Some(0x7A)
    } else if code == "F12"@ {
        Some(0x7B)
    } else if code == "Space"@ {
        Some(0x20)
    } else if code == "Minus"@ {
        Some(0xBD)
    } else if code == "Equal"@ {
        Some(0xBB)
    } else if code == "BracketLeft"@ {
        Some(0xDB)
    } else if code == "BracketRight"@ {
        Some(0xDD)
    } else if code == "Backslash"@ {
        Some(0xDC)
    } else if code == "Semicolon"@ {
        Some(0xBA)
    } else if code == "Quote"@ {
        Some(0xDE)
    } else if code == "Comma"@ {
        Some(0xBC)
    } else if code == "Period"@ {
        Some(0xBE)
    } else if code == "Slash"@ {
        Some(0xBF)
    } else {
        None
    }
}

pub fn code_to_vk(code: &str) -> (r: Option<i32>)
    ensures
        r == vk_of_code(code@),
{
    let c = chars_of(code);
    if eq_str(&c, "Backquote") {
        Some(0xC0)
    } else if eq_str(&c, "KeyA") {
        Some(0x41)
    } else if eq_str(&c, "KeyB") {
        Some(0x42)
    } else if eq_str(&c, "KeyC") {
        Some(0x43)
    } else if eq_str(&c, "KeyD") {
        Some(0x44)
    } else if eq_str(&c, "KeyE") {
        Some(0x45)
    } else if eq_str(&c, "KeyF") {
        Some(0x46)
    } else if eq_str(&c, "KeyG") {
        Some(0x47)
    } else if eq_str(&c, "KeyH") {
        Some(0x48)
    } else if eq_str(&c, "KeyI") {
        Some(0x49)
    } else if eq_str(&c, "KeyJ") {
        Some(0x4A)
    } else if eq_str(&c, "KeyK") {
        Some(0x4B)
    } else if eq_str(&c, "KeyL") {
        Some(0x4C)
    } else if eq_str(&c, "KeyM") {
        Some(0x4D)
    } else if eq_str(&c, "KeyN") {
        Some(0x4E)
    } else if eq_str(&c, "KeyO") {
        Some(0x4F)
    } else if eq_str(&c, "KeyP") {
        Some(0x50)
    } else if eq_str(&c, "KeyQ") {
        Some(0x51)
    } else if eq_str(&c, "KeyR") {
        Some(0x52)
    } else if eq_str(&c, "KeyS") {
        Some(0x53)
    } else if eq_str(&c, "KeyT") {
        Some(0x54)
    } else if eq_str(&c, "KeyU") {
        Some(0x55)
    } else if eq_str(&c, "KeyV") {
        Some(0x56)
    } else if eq_str(&c, "KeyW") {
        Some(0x57)
    } else if eq_str(&c, "KeyX") {
        Some(0x58)
    } else if eq_str(&c, "KeyY") {
        Some(0x59)
    } else if eq_str(&c, "KeyZ") {
        Some(0x5A)
    } else if eq_str(&c, "Digit0") {
        Some(0x30)
    } else if eq_str(&c, "Digit1") {
        Some(0x31)
    } else if eq_str(&c, "Digit2") {
        Some(0x32)
    } else if eq_str(&c, "Digit3") {
        Some(0x33)
    } else if eq_str(&c, "Digit4") {
        Some(0x34)
    } else if eq_str(&c, "Digit5") {
        Some(0x35)
    } else if eq_str(&c, "Digit6") {
        Some(0x36)
    } else if eq_str(&c, "Digit7") {
        Some(0x37)
    } else if eq_str(&c, "Digit8") {
        Some(0x38)
    } else if eq_str(&c, "Digit9") {
        Some(0x39)
    } else if eq_str(&c, "F1") {
        Some(0x70)
    } else if eq_str(&c, "F2") {
        Some(0x71)
    } else if eq_str(&c, "F3") {
        Some(0x72)
    } else if eq_str(&c, "F4") {
        Some(0x73)
    } else if eq_str(&c, "F5") {
        Some(0x74)
    } else if eq_str(&c, "F6") {
        Some(0x75)
    } else if eq_str(&c, "F7") {
        Some(0x76)
    } else if eq_str(&c, "F8") {
        Some(0x77)
    } else if eq_str(&c, "F9") {
        Some(0x78)
    } else if eq_str(&c, "F10") {
        Some(0x79)
    } else if eq_str(&c, "F11") {
        Some(0x7A)
    } else if eq_str(&c, "F12") {
        Some(0x7B)
    } else if eq_str(&c, "Space") {
        Some(0x20)
    } else if eq_str(&c, "Minus") {
        Some(0xBD)
    } else if eq_str(&c, "Equal") {
        Some(0xBB)
    } else if eq_str(&c, "BracketLeft") {
        Some(0xDB)
    } else if eq_str(&c, "BracketRight") {
        Some(0xDD)
    } else if eq_str(&c, "Backslash") {
        Some(0xDC)
    } else if eq_str(&c, "Semicolon") {
        Some(0xBA)
    } else if eq_str(&c, "Quote") {
        Some(0xDE)
    } else if eq_str(&c, "Comma") {
        Some(0xBC)
    } else if eq_str(&c, "Period") {
        Some(0xBE)
    } else if eq_str(&c, "Slash") {
        Some(0xBF)
    } else {
        None
    }
}

/// The key a toggle hotkey is polled by: only a binding without modifiers
/// can be watched as a single key.
pub fn toggle_vk_for(has_modifiers: bool, code: &str) -> (r: Option<i32>)
    ensures
        r == if has_modifiers {
            None
        } else {
            vk_of_code(code@)
        },
{
    if has_modifiers {
        return None;
    }
    code_to_vk(code)
}

} // verus!
