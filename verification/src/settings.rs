//! User-selectable modes that the output and cleanup paths branch on.
use vstd::prelude::*;

verus! {

/// What happens to a finished transcript.
#[derive(Debug, Clone, Copy, PartialEq, Eq, Structural)]
pub enum OutputMode {
    SaveOnly,
    AutoPaste,
    CopyClipboard,
    CopyAndPaste,
}

/// How an auto-paste reaches the focused app.
#[derive(Debug, Clone, Copy, PartialEq, Eq, Structural)]
pub enum PasteMethod {
    /// Synthesized keystrokes; the clipboard is never touched.
    DirectInsert,
    /// Borrow the clipboard for a real Ctrl+V, then restore it.
    ClipboardPaste,
}

/// The local-LLM polish applied to a finished dictation.
#[derive(Debug, Clone, Copy, PartialEq, Eq, Structural)]
pub enum DictationCleanupMode {
    Standard,
    Email,
    Chat,
    Code,
    Custom,
}

} // verus!
