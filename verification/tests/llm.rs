use scribe::dictation_cleanup::{cleanup, cleanup_call, cleanup_result, system_prompt, CLEANUP_TIMEOUT_SECS};
use scribe::error::CommandError;
use scribe::http::{HttpFailure, HttpReply, HttpStage};
use scribe::note_analysis::{
    analyze_text, chat_request_body, check_status, completion_outcome, exchange_failure,
    first_listed_model, listed_model_ids, normalize_endpoint, status_from_failure,
    status_from_models_reply, AnalysisOutcome,
};
use scribe::note_analysis::{chat_call, chat_request, models_request, MODELS_TIMEOUT_SECS, REQUEST_TIMEOUT_SECS};
use scribe::selection_transform::{build_messages, transform, transform_call, transform_result};
use scribe::settings::DictationCleanupMode;

fn reply(status: u16, status_text: &str, body: &str) -> HttpReply {
    HttpReply { status, status_text: status_text.to_string(), body: body.to_string() }
}

#[test]
fn unreachable_server_mentions_the_endpoint() {
    let error = analyze_text("http://127.0.0.1:59997/v1", "m", "p", "n").unwrap_err();
    assert!(error.to_display_string().contains("127.0.0.1:59997"));
}

#[test]
fn unreachable_endpoint_falls_back_to_original_text() {
    let original = "um this should survive unchanged";
    let cleaned = cleanup(
        original,
        DictationCleanupMode::Standard,
        "",
        "http://127.0.0.1:59996/v1",
        "m",
    );
    assert_eq!(cleaned, original);
}

#[test]
fn blank_input_returns_blank_without_calling_the_server() {
    let cleaned = cleanup(
        "   \n  ",
        DictationCleanupMode::Standard,
        "",
        "http://127.0.0.1:59995/v1",
        "m",
    );
    assert_eq!(cleaned, "   \n  ");
}

#[test]
fn build_messages_labels_instruction_and_text() {
    let (system, user) = build_messages("Hello world", "make it uppercase");
    assert!(system.contains("precise text editor"));
    assert!(system.contains("ONLY the transformed text"));
    assert_eq!(user, "Instruction: make it uppercase\n\n---\nText:\nHello world");
}

#[test]
fn build_messages_trims_the_instruction_but_preserves_the_selection() {
    let (_, user) = build_messages("  keep my spaces  ", "  fix grammar  ");
    assert!(user.starts_with("Instruction: fix grammar\n\n"));
    assert!(user.ends_with("Text:\n  keep my spaces  "));
}

#[test]
fn transform_rejects_empty_selection() {
    let error = transform("   ", "fix grammar", "http://127.0.0.1:1/v1", "m").unwrap_err();
    assert_eq!(error.code, "selection_empty");
}

#[test]
fn transform_rejects_empty_instruction() {
    let error = transform("some text", "  ", "http://127.0.0.1:1/v1", "m").unwrap_err();
    assert_eq!(error.code, "instruction_empty");
}

#[test]
fn transform_surfaces_llm_errors() {
    let error = transform("text", "instruction", "http://127.0.0.1:59998/v1", "m").unwrap_err();
    assert!(error.to_display_string().contains("127.0.0.1:59998"));
}

#[test]
fn endpoint_is_trimmed_and_loses_trailing_slashes() {
    let e: String = normalize_endpoint("  http://localhost:1234/v1// ").into_iter().collect();
    assert_eq!(e, "http://localhost:1234/v1");
    assert!(normalize_endpoint("   ").is_empty());
}

#[test]
fn chat_body_carries_system_then_user_message() {
    let body = chat_request_body("my-model", "Summarize.", "note \"text\"");
    assert_eq!(
        body,
        "{\"messages\":[{\"content\":\"Summarize.\",\"role\":\"system\"},{\"content\":\"note \\\"text\\\"\",\"role\":\"user\"}],\"model\":\"my-model\",\"stream\":false}"
    );
}

#[test]
fn completion_reply_is_trimmed_and_prefers_the_served_model() {
    let ok = completion_outcome(
        &reply(
            200,
            "200 OK",
            r#"{"model":"qwen2.5-7b-instruct","choices":[{"message":{"role":"assistant","content":" Summary.\n- Do the thing "}}]}"#,
        ),
        "my-model",
    )
    .unwrap();
    assert_eq!(ok.analysis, "Summary.\n- Do the thing");
    assert_eq!(ok.model, "qwen2.5-7b-instruct");

    let unnamed = completion_outcome(
        &reply(200, "200 OK", r#"{"choices":[{"message":{"content":"done"}}]}"#),
        "my-model",
    )
    .unwrap();
    assert_eq!(unnamed.model, "my-model");
}

#[test]
fn blank_completion_content_is_an_error() {
    let error = completion_outcome(
        &reply(200, "200 OK", r#"{"choices":[{"message":{"content":"   "}}]}"#),
        "m",
    )
    .unwrap_err();
    assert_eq!(error.code, "note_analysis_failed");
    assert!(error.message.contains("no analysis text"));
}

#[test]
fn http_and_parse_failures_are_reported() {
    let http = completion_outcome(&reply(500, "500 Internal Server Error", "boom"), "m").unwrap_err();
    assert_eq!(http.message, "The LLM server returned HTTP 500 Internal Server Error. boom");
    let parse = completion_outcome(&reply(200, "200 OK", "not json"), "m").unwrap_err();
    assert!(parse.message.starts_with("Could not parse the LLM response. "));
}

#[test]
fn empty_model_list_is_a_clear_error() {
    assert_eq!(first_listed_model(r#"{"data":[{"id":"loaded-model"},{"id":"other"}]}"#).unwrap(), "loaded-model");
    let error = first_listed_model(r#"{"data":[]}"#).unwrap_err();
    assert!(error.message.contains("lists no models"));
}

#[test]
fn model_list_keeps_string_ids_in_order() {
    let ids = listed_model_ids(r#"{"data":[{"id":"a"},{"id":7},{"name":"x"},{"id":"b"}]}"#);
    assert_eq!(ids, vec!["a".to_string(), "b".to_string()]);
    assert!(listed_model_ids(r#"{"other":1}"#).is_empty());
}

#[test]
fn status_reports_reachability_and_models() {
    let endpoint: Vec<char> = "http://h/v1".chars().collect();
    let up = status_from_models_reply(&endpoint, &reply(200, "200 OK", r#"{"data":[{"id":"m1"}]}"#));
    assert!(up.reachable);
    assert_eq!(up.models, vec!["m1".to_string()]);
    assert!(up.error.is_none());

    let down = status_from_models_reply(&endpoint, &reply(404, "404 Not Found", ""));
    assert!(!down.reachable);
    assert_eq!(down.error.as_deref(), Some("The server at http://h/v1 returned HTTP 404 Not Found."));

    let refused = status_from_failure(
        &endpoint,
        &HttpFailure { stage: HttpStage::Send, detail: "refused".to_string() },
    );
    assert_eq!(refused.error.as_deref(), Some("Could not reach a local LLM server at http://h/v1. Is it running?"));
}

#[test]
fn check_status_empty_endpoint_is_unreachable() {
    let status = check_status("   ");
    assert!(!status.reachable);
    assert!(status.models.is_empty());
    assert_eq!(status.error.as_deref(), Some("No server endpoint is set."));
}

#[test]
fn check_status_unreachable_is_not_an_error() {
    let status = check_status("http://127.0.0.1:59997/v1");
    assert!(!status.reachable);
    assert_eq!(status.endpoint, "http://127.0.0.1:59997/v1");
    assert!(status.models.is_empty());
    assert!(status.error.unwrap().contains("127.0.0.1:59997"));
}

#[test]
fn send_failures_name_the_endpoint() {
    let endpoint: Vec<char> = "http://h/v1".chars().collect();
    let e = exchange_failure(
        &endpoint,
        &HttpFailure { stage: HttpStage::Send, detail: "refused".to_string() },
        "the LLM response",
    );
    assert_eq!(e.message, "Could not reach the local LLM server at http://h/v1. Is it running? refused");
    let r = exchange_failure(
        &endpoint,
        &HttpFailure { stage: HttpStage::Read, detail: "eof".to_string() },
        "the model list",
    );
    assert_eq!(r.message, "Could not read the model list. eof");
}

#[test]
fn custom_mode_blank_prompt_falls_back_to_standard() {
    assert!(system_prompt(DictationCleanupMode::Custom, "   ").contains("clean up dictated speech-to-text"));
    assert_eq!(system_prompt(DictationCleanupMode::Custom, "Translate to pirate speak."), "Translate to pirate speak.");
    assert!(system_prompt(DictationCleanupMode::Email, "").contains("polite email body"));
}

#[test]
fn cleanup_keeps_the_original_on_failure_or_blank_reply() {
    let ok = AnalysisOutcome { analysis: "Done.".to_string(), model: "m".to_string() };
    assert_eq!(cleanup_result("um done", Ok(ok)), "Done.");
    let blank = AnalysisOutcome { analysis: "  ".to_string(), model: "m".to_string() };
    assert_eq!(cleanup_result("um done", Ok(blank)), "um done");
    assert_eq!(cleanup_result("um done", Err(CommandError::new("x", "y"))), "um done");
}

fn collected(chars: &[char]) -> String {
    chars.iter().collect()
}

#[test]
fn explicit_model_round_trips_prompt_and_note() {
    // The trailing slash of the endpoint is tolerated.
    let call = chat_call("http://127.0.0.1:8080/v1/", "my-model", "Summarize.", "note text here", REQUEST_TIMEOUT_SECS);
    let req = chat_request(&call, call.model.as_str());
    assert_eq!(req.url, "http://127.0.0.1:8080/v1/chat/completions");
    assert!(req.body.contains("\"my-model\""));
    assert!(req.body.contains("Summarize."));
    assert!(req.body.contains("note text here"));
    assert_eq!(req.headers, vec![("Content-Type".to_string(), "application/json".to_string())]);

    let outcome = completion_outcome(
        &reply(
            200,
            "200 OK",
            r#"{"model":"qwen2.5-7b-instruct","choices":[{"message":{"role":"assistant","content":" Summary.\n- Do the thing "}}]}"#,
        ),
        call.model.as_str(),
    )
    .unwrap();
    assert_eq!(outcome.analysis, "Summary.\n- Do the thing");
    // The server-reported model wins over the requested one.
    assert_eq!(outcome.model, "qwen2.5-7b-instruct");
}

#[test]
fn empty_model_uses_first_listed_model() {
    let call = chat_call("http://127.0.0.1:8080/v1", "  ", "p", "n", REQUEST_TIMEOUT_SECS);
    assert!(call.model.is_empty());
    let list = models_request(&call.endpoint);
    assert_eq!(list.url, "http://127.0.0.1:8080/v1/models");
    let model = first_listed_model(r#"{"data":[{"id":"loaded-model"},{"id":"other"}]}"#).unwrap();
    assert_eq!(model, "loaded-model");
    let req = chat_request(&call, model.as_str());
    assert!(req.body.contains("\"loaded-model\""));
}

#[test]
fn check_status_lists_models_when_reachable() {
    let endpoint = normalize_endpoint("http://127.0.0.1:8080/v1/");
    let req = models_request(&endpoint);
    assert_eq!(req.url, "http://127.0.0.1:8080/v1/models");
    assert_eq!(req.timeout_secs, MODELS_TIMEOUT_SECS);
    assert!(req.headers.is_empty());
    assert!(req.body.is_empty());

    let status = status_from_models_reply(
        &endpoint,
        &reply(200, "200 OK", r#"{"data":[{"id":"loaded-model"},{"id":"other"}]}"#),
    );
    assert!(status.reachable);
    assert!(status.error.is_none());
    assert_eq!(status.models, vec!["loaded-model", "other"]);
    // The endpoint is normalized (no trailing slash).
    assert_eq!(status.endpoint, "http://127.0.0.1:8080/v1");
}

#[test]
fn check_status_reachable_with_empty_model_list() {
    let endpoint = normalize_endpoint("http://127.0.0.1:8080/v1");
    let status = status_from_models_reply(&endpoint, &reply(200, "200 OK", r#"{"data":[]}"#));
    assert!(status.reachable);
    assert!(status.models.is_empty());
    assert!(status.error.is_none());
}

#[test]
fn chat_call_normalizes_endpoint_and_trims_model() {
    let call = chat_call(" http://h/v1// ", "  m1 ", "sys", "usr", 7);
    assert_eq!(collected(&call.endpoint), "http://h/v1");
    assert_eq!(call.model, "m1");
    assert_eq!(call.system, "sys");
    assert_eq!(call.user, "usr");
    assert_eq!(call.timeout_secs, 7);
    let req = chat_request(&call, "m1");
    assert_eq!(req.timeout_secs, 7);
    assert_eq!(req.body, chat_request_body("m1", "sys", "usr"));
}

#[test]
fn transform_asks_with_the_editor_prompt_and_the_selection() {
    let call = transform_call("teh cat", " fix typos ", "http://h/v1/", "m");
    let (system, user) = build_messages("teh cat", " fix typos ");
    assert_eq!(call.system, system);
    assert_eq!(call.user, user);
    assert!(call.user.starts_with("Instruction: fix typos"));
    assert!(call.user.ends_with("Text:\nteh cat"));
    assert_eq!(call.timeout_secs, REQUEST_TIMEOUT_SECS);
    assert_eq!(collected(&call.endpoint), "http://h/v1");
}

#[test]
fn cleanup_asks_with_the_mode_prompt_and_the_dictation() {
    let call = cleanup_call("um hello", DictationCleanupMode::Email, "", "http://h/v1", " m ");
    assert_eq!(call.system, system_prompt(DictationCleanupMode::Email, ""));
    assert_eq!(call.user, "um hello");
    assert_eq!(call.model, "m");
    assert_eq!(call.timeout_secs, CLEANUP_TIMEOUT_SECS);
}

#[test]
fn transform_returns_the_trimmed_rewrite_or_the_failure() {
    let ok = AnalysisOutcome { analysis: "  The cat.\n".to_string(), model: "m".to_string() };
    assert_eq!(transform_result(Ok(ok)).unwrap(), "The cat.");
    let err = transform_result(Err(CommandError::new("note_analysis_failed", "down"))).unwrap_err();
    assert_eq!(err.code, "note_analysis_failed");
    assert_eq!(err.message, "down");
}

#[test]
fn json_strings_are_quoted_as_serde_json_quotes_them() {
    for text in ["plain", "a\u{1}b\tc\u{8}\u{c}\r\n", "\u{7f} é \u{1F600}", "q\"b\\s/", "\u{1f}"] {
        assert_eq!(scribe::json::json_quote(text), serde_json::to_string(text).unwrap());
    }
}
