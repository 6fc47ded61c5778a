//! Clipboard-free insertion through UI Automation. The choice of what to do
//! with the focused control (write its value, or skip it and say why) and
//! the report of that choice are decided here from what the control
//! exposes; the COM calls themselves exist only on Windows, so on this
//! platform the entry point reports that it is unsupported and callers fall
//! back to the ordinary paste path.
use vstd::prelude::*;

use crate::error::CommandError;
use crate::text::{chars_of, decimal, decimal_of, push_all, push_str, string_from_chars};

verus! {

/// How the focused element was driven, or why it could not be.
#[derive(Debug, Clone)]
pub struct UiaInsertOutcome {
    /// The text was actually inserted through UI Automation.
    pub inserted: bool,
    /// Stable machine code: `value_pattern`, `unsupported_read_only`, ...
    pub method: String,
    /// Control type name of the focused element, when known.
    pub control_type: Option<String>,
    /// Name of the focused element, when known.
    pub element_name: Option<String>,
    /// Human-readable explanation.
    pub message: String,
}

/// Inserts `text` into the focused control. UI Automation is Windows-only,
/// so on this platform the result is always `uia_insert_unsupported`.
pub fn insert_focused(text: &str) -> (r: Result<UiaInsertOutcome, CommandError>)
    ensures
        r matches Err(e) && e.code@ == "uia_insert_unsupported"@
            && e.message@ == "UI Automation insertion is implemented for Windows only."@,
{
    Err(
        CommandError::new(
            "uia_insert_unsupported",
            "UI Automation insertion is implemented for Windows only.",
        ),
    )
}


/// The short label of a UI Automation control type id: the ones that matter
/// for text entry by name, any other as `ControlType(<id>)`.
pub open spec fn control_type_label_of(id: i32) -> Seq<char> {
    if id == 50004 {
        "Edit"@
    } else if id == 50030 {
        "Document"@
    } else if id == 50000 {
        "Button"@
    } else if id == 50025 {
        "Pane"@
    } else if id == 50033 {
        "Custom"@
    } else if id == 50032 {
        "Group"@
    } else if id == 50026 {
        "Header"@
    } else {
        "ControlType("@ + signed_decimal(id as int) + ")"@
    }
}

pub open spec fn signed_decimal(n: int) -> Seq<char> {
    if n < 0 {
        seq!['-'] + decimal_of((-n) as nat)
    } else {
        decimal_of(n as nat)
    }
}

pub fn control_type_label(id: i32) -> (r: String)
    ensures
        r@ == control_type_label_of(id),
{
    match id {
        50004 => "Edit".to_string(),
        50030 => "Document".to_string(),
        50000 => "Button".to_string(),
        50025 => "Pane".to_string(),
        50033 => "Custom".to_string(),
        50032 => "Group".to_string(),
        50026 => "Header".to_string(),
        _ => {
            let mut label = chars_of("ControlType(");
            if id < 0 {
                label.push('-');
                let magnitude: i64 = -(id as i64);
                push_all(&mut label, &decimal(magnitude as u64));
            } else {
                push_all(&mut label, &decimal(id as u64));
            }
            push_str(&mut label, ")");
            string_from_chars(&label)
        },
    }
}

/// What a UI Automation insert does with the focused control: nothing when
/// it has no value pattern or a read-only one, nothing when it already holds
/// text (a `SetValue` would replace it all), and otherwise a `SetValue`.
#[derive(Debug, Clone, Copy, PartialEq, Eq, Structural)]
pub enum UiaStep {
    NoValuePattern,
    ReadOnly,
    /// The control already holds this many characters.
    UnsafeOverwrite(usize),
    SetValue,
}

/// Chooses the step from what the control exposes: whether it has a value
/// pattern, whether that pattern reported itself read-only (`None` when the
/// question failed), and its current text when it could be read.
pub fn uia_step(has_value_pattern: bool, read_only: Option<bool>, existing: Option<&str>) -> (r: UiaStep)
    ensures
        !has_value_pattern ==> r == UiaStep::NoValuePattern,
        has_value_pattern && read_only == Some(true) ==> r == UiaStep::ReadOnly,
        has_value_pattern && read_only != Some(true) ==> r == match existing {
            Some(t) => if t@.len() > 0 {
                UiaStep::UnsafeOverwrite(t@.len() as usize)
            } else {
                UiaStep::SetValue
            },
            None => UiaStep::SetValue,
        },
{
    if !has_value_pattern {
        return UiaStep::NoValuePattern;
    }
    if let Some(true) = read_only {
        return UiaStep::ReadOnly;
    }
    match existing {
        Some(t) => {
            let n = chars_of(t).len();
            if n > 0 {
                UiaStep::UnsafeOverwrite(n)
            } else {
                UiaStep::SetValue
            }
        },
        None => UiaStep::SetValue,
    }
}

pub open spec fn step_method(step: UiaStep) -> Seq<char> {
    match step {
        UiaStep::NoValuePattern => "unsupported_no_value_pattern"@,
        UiaStep::ReadOnly => "unsupported_read_only"@,
        UiaStep::UnsafeOverwrite(_) => "unsupported_unsafe_overwrite"@,
        UiaStep::SetValue => "value_pattern"@,
    }
}

pub open spec fn step_message(step: UiaStep) -> Seq<char> {
    match step {
        UiaStep::NoValuePattern => "Focused control exposes no UIA ValuePattern, so it cannot be written atomically via UI Automation. Fall back to keystrokes."@,
        UiaStep::ReadOnly => "Focused control's UIA ValuePattern is read-only. Fall back to keystrokes."@,
        UiaStep::UnsafeOverwrite(n) => "Focused control already contains "@ + decimal_of(n as nat)
            + " character(s); a UIA SetValue would replace the whole field, not insert at the caret. Skipped to avoid clobbering. Fall back to keystrokes (which insert at the caret)."@,
        UiaStep::SetValue => "Inserted via UIA ValuePattern::SetValue (no clipboard, no keystrokes)."@,
    }
}

/// The report of `step` for the control described by `control_type` and
/// `element_name`; for `SetValue` it is the report of a write that landed.
pub fn uia_outcome(step: UiaStep, control_type: Option<String>, element_name: Option<String>) -> (o:
    UiaInsertOutcome)
    ensures
        o.inserted == (step == UiaStep::SetValue),
        o.method@ == step_method(step),
        o.message@ == step_message(step),
        o.control_type == control_type,
        o.element_name == element_name,
{
    let (method, message) = match step {
        UiaStep::NoValuePattern => (
            "unsupported_no_value_pattern".to_string(),
            "Focused control exposes no UIA ValuePattern, so it cannot be written atomically via UI Automation. Fall back to keystrokes.".to_string(),
        ),
        UiaStep::ReadOnly => (
            "unsupported_read_only".to_string(),
            "Focused control's UIA ValuePattern is read-only. Fall back to keystrokes.".to_string(),
        ),
        UiaStep::UnsafeOverwrite(n) => {
            let mut m = chars_of("Focused control already contains ");
            push_all(&mut m, &decimal(n as u64));
            push_str(
                &mut m,
                " character(s); a UIA SetValue would replace the whole field, not insert at the caret. Skipped to avoid clobbering. Fall back to keystrokes (which insert at the caret).",
            );
            ("unsupported_unsafe_overwrite".to_string(), string_from_chars(&m))
        },
        UiaStep::SetValue => (
            "value_pattern".to_string(),
            "Inserted via UIA ValuePattern::SetValue (no clipboard, no keystrokes).".to_string(),
        ),
    };
    UiaInsertOutcome { inserted: step == UiaStep::SetValue, method, control_type, element_name, message }
}

} // verus!
