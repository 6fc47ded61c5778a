//! Optional local-LLM polish of a finished dictation. Non-blocking by
//! contract: a short timeout, and any failure or blank reply falls back to
//! the original transcript, so the user always gets their words.
use vstd::prelude::*;

use crate::note_analysis::{chat_call, normalized_endpoint, run_chat, AnalysisOutcome, ChatCall};
use crate::error::CommandError;
use crate::settings::DictationCleanupMode;
use crate::text::{is_blank, is_blank_str, trim};

verus! {

/// A quick touch-up, not a long analysis: a stuck model degrades to the raw
/// transcript instead of stalling output.
pub const CLEANUP_TIMEOUT_SECS: u64 = 20;

pub open spec fn standard_prompt() -> Seq<char> {
    "You clean up dictated speech-to-text. Fix punctuation, capitalization, and obvious transcription errors, and remove filler words (um, uh, like, you know). Keep the speaker's wording and meaning faithful \u{2014} do not summarize, add, or answer. Output ONLY the cleaned text."@
}

pub open spec fn email_prompt() -> Seq<char> {
    "You clean up dictated speech-to-text and format it as a polite email body. Fix punctuation, capitalization, and obvious transcription errors, and remove filler words (um, uh, like, you know). Keep the speaker's wording and meaning faithful \u{2014} do not summarize, invent details, or answer. Lay it out as a courteous email body with greeting and sign-off only if the dictation implies them. Output ONLY the email text."@
}

pub open spec fn chat_prompt() -> Seq<char> {
    "You clean up dictated speech-to-text into a concise, casual chat message. Fix punctuation, capitalization, and obvious transcription errors, and remove filler words (um, uh, like, you know). Keep the speaker's wording and meaning faithful \u{2014} do not summarize away content, add, or answer. Keep it natural and informal. Output ONLY the message text."@
}

pub open spec fn code_prompt() -> Seq<char> {
    "You clean up dictated speech-to-text into a code comment / technical phrasing. Fix punctuation, capitalization, and obvious transcription errors, and remove filler words (um, uh, like, you know). Keep the speaker's wording and meaning faithful \u{2014} do not summarize, add, or answer. Phrase it as a clear technical note or code comment. Output ONLY the cleaned text."@
}

/// The system prompt for a mode; `Custom` uses the user's prompt unless it is
/// blank, in which case the Standard prompt.
pub open spec fn prompt_for(mode: DictationCleanupMode, custom: Seq<char>) -> Seq<char> {
    match mode {
        DictationCleanupMode::Standard => standard_prompt(),
        DictationCleanupMode::Email => email_prompt(),
        DictationCleanupMode::Chat => chat_prompt(),
        DictationCleanupMode::Code => code_prompt(),
        DictationCleanupMode::Custom => if is_blank(custom) {
            standard_prompt()
        } else {
            custom
        },
    }
}

pub fn system_prompt<'a>(mode: DictationCleanupMode, custom_prompt: &'a str) -> (r: &'a str)
    ensures
        r@ == prompt_for(mode, custom_prompt@),
{
    let standard = "You clean up dictated speech-to-text. Fix punctuation, capitalization, and obvious transcription errors, and remove filler words (um, uh, like, you know). Keep the speaker's wording and meaning faithful \u{2014} do not summarize, add, or answer. Output ONLY the cleaned text.";
    proof {
        reveal_strlit("You clean up dictated speech-to-text. Fix punctuation, capitalization, and obvious transcription errors, and remove filler words (um, uh, like, you know). Keep the speaker's wording and meaning faithful \u{2014} do not summarize, add, or answer. Output ONLY the cleaned text.");
    }
    match mode {
        DictationCleanupMode::Standard => standard,
        DictationCleanupMode::Email => {
            proof {
                reveal_strlit("You clean up dictated speech-to-text and format it as a polite email body. Fix punctuation, capitalization, and obvious transcription errors, and remove filler words (um, uh, like, you know). Keep the speaker's wording and meaning faithful \u{2014} do not summarize, invent details, or answer. Lay it out as a courteous email body with greeting and sign-off only if the dictation implies them. Output ONLY the email text.");
            }
            "You clean up dictated speech-to-text and format it as a polite email body. Fix punctuation, capitalization, and obvious transcription errors, and remove filler words (um, uh, like, you know). Keep the speaker's wording and meaning faithful \u{2014} do not summarize, invent details, or answer. Lay it out as a courteous email body with greeting and sign-off only if the dictation implies them. Output ONLY the email text."
        },
        DictationCleanupMode::Chat => {
            proof {
                reveal_strlit("You clean up dictated speech-to-text into a concise, casual chat message. Fix punctuation, capitalization, and obvious transcription errors, and remove filler words (um, uh, like, you know). Keep the speaker's wording and meaning faithful \u{2014} do not summarize away content, add, or answer. Keep it natural and informal. Output ONLY the message text.");
            }
            "You clean up dictated speech-to-text into a concise, casual chat message. Fix punctuation, capitalization, and obvious transcription errors, and remove filler words (um, uh, like, you know). Keep the speaker's wording and meaning faithful \u{2014} do not summarize away content, add, or answer. Keep it natural and informal. Output ONLY the message text."
        },
        DictationCleanupMode::Code => {
            proof {
                reveal_strlit("You clean up dictated speech-to-text into a code comment / technical phrasing. Fix punctuation, capitalization, and obvious transcription errors, and remove filler words (um, uh, like, you know). Keep the speaker's wording and meaning faithful \u{2014} do not summarize, add, or answer. Phrase it as a clear technical note or code comment. Output ONLY the cleaned text.");
            }
            "You clean up dictated speech-to-text into a code comment / technical phrasing. Fix punctuation, capitalization, and obvious transcription errors, and remove filler words (um, uh, like, you know). Keep the speaker's wording and meaning faithful \u{2014} do not summarize, add, or answer. Phrase it as a clear technical note or code comment. Output ONLY the cleaned text."
        },
        DictationCleanupMode::Custom => if is_blank_str(custom_prompt) {
            standard
        } else {
            custom_prompt
        },
    }
}

/// What the cleanup returns given the LLM's outcome: a non-blank analysis
/// replaces the text; an error or a blank analysis keeps the original.
pub fn cleanup_result(text: &str, outcome: Result<AnalysisOutcome, CommandError>) -> (r: String)
    ensures
        r@ == match outcome {
            Ok(o) => if is_blank(o.analysis@) {
                text@
            } else {
                o.analysis@
            },
            Err(_) => text@,
        },
{
    match outcome {
        Ok(o) => if is_blank_str(o.analysis.as_str()) {
            text.to_string()
        } else {
            o.analysis
        },
        Err(_) => text.to_string(),
    }
}

/// The completion a cleanup asks for: the mode's system prompt, the
/// dictated text as the user message, the short cleanup timeout.
pub fn cleanup_call(
    text: &str,
    mode: DictationCleanupMode,
    custom_prompt: &str,
    endpoint: &str,
    model: &str,
) -> (c: ChatCall)
    ensures
        c.endpoint@ == normalized_endpoint(endpoint@),
        c.model@ == trim(model@),
        c.system@ == prompt_for(mode, custom_prompt@),
        c.user@ == text@,
        c.timeout_secs == CLEANUP_TIMEOUT_SECS,
{
    chat_call(endpoint, model, system_prompt(mode, custom_prompt), text, CLEANUP_TIMEOUT_SECS)
}

/// Polishes `text` with the local LLM (`run_chat` of `cleanup_call`), or
/// returns it unchanged. Blank input is returned as-is without contacting
/// the server; otherwise the result is `cleanup_result` of the server's
/// outcome: either the original text or a non-blank rewrite.
pub fn cleanup(
    text: &str,
    mode: DictationCleanupMode,
    custom_prompt: &str,
    endpoint: &str,
    model: &str,
) -> (r: String)
    ensures
        is_blank(text@) ==> r@ == text@,
        r@ == text@ || !is_blank(r@),
{
    if is_blank_str(text) {
        return text.to_string();
    }
    let outcome = run_chat(&cleanup_call(text, mode, custom_prompt, endpoint, model));
    cleanup_result(text, outcome)
}

} // verus!
