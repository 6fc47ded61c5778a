//! Selected-text transform: the highlighted text and the user's instruction
//! go to the local LLM, and its rewrite replaces the selection. The message
//! layout and the checks around the LLM call live here; capturing and
//! replacing the selection is Windows input code.
use vstd::prelude::*;

use crate::error::CommandError;
use crate::note_analysis::{chat_call, normalized_endpoint, run_chat, AnalysisOutcome, ChatCall, REQUEST_TIMEOUT_SECS};
use crate::text::{chars_of, is_blank, is_blank_str, push_str, string_from_chars, trim, trimmed};

verus! {

/// Pins the model to a pure text editor: only the transformed text comes back.
pub open spec fn system_prompt_text() -> Seq<char> {
    "You are a precise text editor. Apply the user's instruction to the text below. Output ONLY the transformed text \u{2014} no preamble, no explanations, no quotes."@
}

/// The user message: the trimmed instruction and the untouched selection,
/// under explicit labels with a separator between them.
pub open spec fn user_message(selection: Seq<char>, instruction: Seq<char>) -> Seq<char> {
    "Instruction: "@ + trim(instruction) + "\n\n---\nText:\n"@ + selection
}

/// The (system, user) chat messages for a transform.
pub fn build_messages(selection: &str, instruction: &str) -> (r: (String, String))
    ensures
        r.0@ == system_prompt_text(),
        r.1@ == user_message(selection@, instruction@),
{
    let system = "You are a precise text editor. Apply the user's instruction to the text below. Output ONLY the transformed text \u{2014} no preamble, no explanations, no quotes.".to_string();
    let mut user = chars_of("Instruction: ");
    let instr = trimmed(&chars_of(instruction));
    crate::text::push_all(&mut user, &instr);
    push_str(&mut user, "\n\n---\nText:\n");
    push_str(&mut user, selection);
    (system, string_from_chars(&user))
}

/// The completion a transform asks for: the editor system prompt and the
/// instruction-and-selection user message, with the long timeout.
pub fn transform_call(selection: &str, instruction: &str, endpoint: &str, model: &str) -> (c: ChatCall)
    ensures
        c.endpoint@ == normalized_endpoint(endpoint@),
        c.model@ == trim(model@),
        c.system@ == system_prompt_text(),
        c.user@ == user_message(selection@, instruction@),
        c.timeout_secs == REQUEST_TIMEOUT_SECS,
{
    let (system, user) = build_messages(selection, instruction);
    chat_call(endpoint, model, system.as_str(), user.as_str(), REQUEST_TIMEOUT_SECS)
}

/// The rewrite a transform returns for the outcome of its completion: the
/// trimmed analysis, or the failure unchanged.
pub fn transform_result(outcome: Result<AnalysisOutcome, CommandError>) -> (r: Result<String, CommandError>)
    ensures
        outcome matches Ok(o) ==> (r matches Ok(s) && s@ == trim(o.analysis@)),
        outcome matches Err(e) ==> (r matches Err(f) && f == e),
{
    match outcome {
        Ok(o) => Ok(string_from_chars(&trimmed(&chars_of(o.analysis.as_str())))),
        Err(e) => Err(e),
    }
}

/// Runs one transform against the local LLM: `transform_result` of
/// `run_chat` of `transform_call`.
/// A blank selection or instruction is refused before any request; after
/// that, the outcome is the server's: a failure carries the analysis error,
/// and a rewrite is never empty.
pub fn transform(selection: &str, instruction: &str, endpoint: &str, model: &str) -> (r: Result<
    String,
    CommandError,
>)
    ensures
        is_blank(selection@) ==> (r matches Err(e) && e.code@ == "selection_empty"@ && e.message@
            == "No text was selected. Highlight some text first, then transform it."@),
        !is_blank(selection@) && is_blank(instruction@) ==> (r matches Err(e) && e.code@
            == "instruction_empty"@ && e.message@
            == "No instruction was given. Say or type what to do with the selected text."@),
        !is_blank(selection@) && !is_blank(instruction@) && r is Err ==> r->Err_0.code@
            == "note_analysis_failed"@,
        r matches Ok(s) ==> s@.len() > 0 && trim(s@) == s@,
{
    if is_blank_str(selection) {
        return Err(
            CommandError::new(
                "selection_empty",
                "No text was selected. Highlight some text first, then transform it.",
            ),
        );
    }
    if is_blank_str(instruction) {
        return Err(
            CommandError::new(
                "instruction_empty",
                "No instruction was given. Say or type what to do with the selected text.",
            ),
        );
    }
    let outcome = run_chat(&transform_call(selection, instruction, endpoint, model));
    proof {
        if outcome is Ok {
            crate::text::lemma_trim_idempotent(outcome->Ok_0.analysis@);
        }
    }
    transform_result(outcome)
}

} // verus!
