//! Local-LLM analysis of note text through an OpenAI-compatible
//! chat-completions API (LM Studio by default, Ollama works too). The
//! analysis prompt is the system message and the note the user message.
use vstd::prelude::*;

use crate::error::CommandError;
use crate::http::{
    header_views, http_get, http_post, SentLog, is_success, request_view, status_is_success, HttpFailure,
    HttpReply, HttpRequest, HttpStage, MAX_TIMEOUT_SECS,
};
use crate::json::{
    json_array_len_at, json_check, json_error_of, json_lookup_array_len, json_lookup_str,
    json_quote, json_quoted, json_str_at};
use crate::text::{
    chars_of, decimal, decimal_of, push_all, push_str, slice, string_from_chars, trim,
    trimmed, truncate_chars, truncated};

verus! {

/// Long notes on modest hardware can take a while.
pub const REQUEST_TIMEOUT_SECS: u64 = 180;

/// Listing models is instant when the server is up; fail fast when not.
pub const MODELS_TIMEOUT_SECS: u64 = 5;

#[derive(Debug, Clone)]
pub struct AnalysisOutcome {
    pub analysis: String,
    pub model: String,
}

/// Health of the local LLM server. `reachable: false` is a normal answer
/// (server not running), not an error.
#[derive(Debug, Clone)]
pub struct LlmStatus {
    pub reachable: bool,
    pub endpoint: String,
    pub models: Vec<String>,
    pub error: Option<String>,
}

/// `s` without any trailing `c` (`str::trim_end_matches` with a char).
pub open spec fn strip_trailing(s: Seq<char>, c: char) -> Seq<char>
    decreases s.len(),
{
    if s.len() > 0 && s.last() == c {
        strip_trailing(s.drop_last(), c)
    } else {
        s
    }
}

/// The endpoint as requests use it: trimmed, trailing slashes removed.
pub open spec fn normalized_endpoint(s: Seq<char>) -> Seq<char> {
    strip_trailing(trim(s), '/')
}

pub fn normalize_endpoint(endpoint: &str) -> (r: Vec<char>)
    ensures
        r@ == normalized_endpoint(endpoint@),
{
    let t = trimmed(&chars_of(endpoint));
    let mut n: usize = t.len();
    assert(t@.take(n as int) == t@);
    while n > 0 && t[n - 1] == '/'
        invariant
            n <= t.len(),
            strip_trailing(t@, '/') == strip_trailing(t@.take(n as int), '/'),
        decreases n,
    {
        assert(t@.take(n as int).drop_last() == t@.take(n as int - 1));
        n = n - 1;
    }
    slice(&t, 0, n)
}

/// The user agent every request carries.
pub open spec fn user_agent_text() -> Seq<char> {
    "Scribe/0.1.0"@
}

pub fn user_agent() -> (r: String)
    ensures
        r@ == user_agent_text(),
{
    "Scribe/0.1.0".to_string()
}

pub fn failure(message: &Vec<char>) -> (e: CommandError)
    ensures
        e.code@ == "note_analysis_failed"@,
        e.message@ == message@,
{
    CommandError::from_parts("note_analysis_failed", string_from_chars(message))
}

/// The chat-completions request body: system then user message, no
/// streaming. Keys are in serde_json's sorted object order.
pub open spec fn chat_body(model: Seq<char>, system: Seq<char>, user: Seq<char>) -> Seq<char> {
    "{\"messages\":[{\"content\":"@ + json_quoted(system) + ",\"role\":\"system\"},{\"content\":"@
        + json_quoted(user) + ",\"role\":\"user\"}],\"model\":"@ + json_quoted(model)
        + ",\"stream\":false}"@
}

pub fn chat_request_body(model: &str, system: &str, user: &str) -> (r: String)
    ensures
        r@ == chat_body(model@, system@, user@),
{
    let mut out = chars_of("{\"messages\":[{\"content\":");
    push_str(&mut out, json_quote(system).as_str());
    push_str(&mut out, ",\"role\":\"system\"},{\"content\":");
    push_str(&mut out, json_quote(user).as_str());
    push_str(&mut out, ",\"role\":\"user\"}],\"model\":");
    push_str(&mut out, json_quote(model).as_str());
    push_str(&mut out, ",\"stream\":false}");
    string_from_chars(&out)
}

/// What a completions reply yields: `Ok((analysis, model))` or the failure
/// message. Non-2xx, unparsable and blank replies are failures; the model the
/// server reports wins over the requested one when it is non-empty.
pub open spec fn completion_spec(
    status: u16,
    status_text: Seq<char>,
    body: Seq<char>,
    requested_model: Seq<char>,
) -> Result<(Seq<char>, Seq<char>), Seq<char>> {
    if !is_success(status) {
        Err("The LLM server returned HTTP "@ + status_text + ". "@ + truncated(body, 300))
    } else if json_error_of(body) is Some {
        Err("Could not parse the LLM response. "@ + json_error_of(body)->0)
    } else {
        match json_str_at(body, "/choices/0/message/content"@) {
            Some(content) => if trim(content).len() == 0 {
                Err("The LLM response contained no analysis text."@)
            } else {
                let model = match json_str_at(body, "/model"@) {
                    Some(m) => if m.len() > 0 {
                        m
                    } else {
                        requested_model
                    },
                    None => requested_model,
                };
                Ok((trim(content), model))
            },
            None => Err("The LLM response contained no analysis text."@),
        }
    }
}

/// Interprets a chat-completions reply.
pub fn completion_outcome(reply: &HttpReply, requested_model: &str) -> (r: Result<
    AnalysisOutcome,
    CommandError,
>)
    ensures
        match r {
            Ok(o) => completion_spec(reply.status, reply.status_text@, reply.body@, requested_model@)
                == Ok::<(Seq<char>, Seq<char>), Seq<char>>((o.analysis@, o.model@)),
            Err(e) => e.code@ == "note_analysis_failed"@ && completion_spec(
                reply.status,
                reply.status_text@,
                reply.body@,
                requested_model@,
            ) == Err::<(Seq<char>, Seq<char>), Seq<char>>(e.message@),
        },
{
    if !status_is_success(reply.status) {
        let mut m = chars_of("The LLM server returned HTTP ");
        push_str(&mut m, reply.status_text.as_str());
        push_str(&mut m, ". ");
        push_str(&mut m, truncate_chars(reply.body.as_str(), 300).as_str());
        return Err(failure(&m));
    }
    match json_check(reply.body.as_str()) {
        Err(detail) => {
            let mut m = chars_of("Could not parse the LLM response. ");
            push_str(&mut m, detail.as_str());
            return Err(failure(&m));
        },
        Ok(()) => {},
    }
    let content = json_lookup_str(reply.body.as_str(), "/choices/0/message/content");
    proof {
        reveal_strlit("/choices/0/message/content");
        reveal_strlit("/model");
    }
    match content {
        None => Err(failure(&chars_of("The LLM response contained no analysis text."))),
        Some(content) => {
            let analysis = trimmed(&chars_of(content.as_str()));
            if analysis.len() == 0 {
                return Err(failure(&chars_of("The LLM response contained no analysis text.")));
            }
            let model = match json_lookup_str(reply.body.as_str(), "/model") {
                Some(m) => if !m.as_str().is_empty() {
                    m
                } else {
                    requested_model.to_string()
                },
                None => requested_model.to_string(),
            };
            Ok(AnalysisOutcome { analysis: string_from_chars(&analysis), model })
        },
    }
}

/// The first model id a `/models` reply lists (on LM Studio, the loaded
/// model), or the failure message.
pub open spec fn first_model_spec(body: Seq<char>) -> Result<Seq<char>, Seq<char>> {
    if json_error_of(body) is Some {
        Err("Could not parse the model list. "@ + json_error_of(body)->0)
    } else {
        match json_str_at(body, "/data/0/id"@) {
            Some(id) => Ok(id),
            None => Err("The LLM server lists no models. Load a model (e.g. in LM Studio) first."@),
        }
    }
}

pub fn first_listed_model(body: &str) -> (r: Result<String, CommandError>)
    ensures
        match r {
            Ok(id) => first_model_spec(body@) == Ok::<Seq<char>, Seq<char>>(id@),
            Err(e) => e.code@ == "note_analysis_failed"@ && first_model_spec(body@) == Err::<
                Seq<char>,
                Seq<char>,
            >(e.message@),
        },
{
    match json_check(body) {
        Err(detail) => {
            let mut m = chars_of("Could not parse the model list. ");
            push_str(&mut m, detail.as_str());
            return Err(failure(&m));
        },
        Ok(()) => {},
    }
    proof {
        reveal_strlit("/data/0/id");
    }
    match json_lookup_str(body, "/data/0/id") {
        Some(id) => Ok(id),
        None => Err(
            failure(
                &chars_of(
                    "The LLM server lists no models. Load a model (e.g. in LM Studio) first.",
                ),
            ),
        ),
    }
}

/// The message for an exchange with the server that broke off; `reading`
/// names what was being read ("the LLM response", "the model list").
pub open spec fn exchange_failure_message(
    endpoint: Seq<char>,
    stage: HttpStage,
    detail: Seq<char>,
    reading: Seq<char>,
) -> Seq<char> {
    match stage {
        HttpStage::Client => detail,
        HttpStage::Send => "Could not reach the local LLM server at "@ + endpoint
            + ". Is it running? "@ + detail,
        HttpStage::Read => "Could not read "@ + reading + ". "@ + detail,
    }
}

pub fn exchange_failure(endpoint: &Vec<char>, failed: &HttpFailure, reading: &str) -> (e:
    CommandError)
    ensures
        e.code@ == "note_analysis_failed"@,
        e.message@ == exchange_failure_message(endpoint@, failed.stage, failed.detail@, reading@),
{
    let m = match failed.stage {
        HttpStage::Client => chars_of(failed.detail.as_str()),
        HttpStage::Send => {
            let mut m = chars_of("Could not reach the local LLM server at ");
            push_all(&mut m, endpoint);
            push_str(&mut m, ". Is it running? ");
            push_str(&mut m, failed.detail.as_str());
            m
        },
        HttpStage::Read => {
            let mut m = chars_of("Could not read ");
            push_str(&mut m, reading);
            push_str(&mut m, ". ");
            push_str(&mut m, failed.detail.as_str());
            m
        },
    };
    failure(&m)
}

fn url_with_path(endpoint: &Vec<char>, path: &str) -> (r: String)
    ensures
        r@ == endpoint@ + path@,
{
    let mut u = endpoint.clone();
    push_str(&mut u, path);
    string_from_chars(&u)
}

/// The request listing the models of the server at `endpoint` (already
/// normalized): `GET {endpoint}/models`, no headers, the short timeout.
pub fn models_request(endpoint: &Vec<char>) -> (r: HttpRequest)
    ensures
        request_view(r) == (
            endpoint@ + "/models"@,
            user_agent_text(),
            MODELS_TIMEOUT_SECS,
            Seq::<(Seq<char>, Seq<char>)>::empty(),
            Seq::<char>::empty(),
        ),
{
    let r = HttpRequest {
        url: url_with_path(endpoint, "/models"),
        user_agent: user_agent(),
        timeout_secs: MODELS_TIMEOUT_SECS,
        headers: Vec::new(),
        body: String::new(),
    };
    assert(header_views(r.headers@) =~= Seq::<(Seq<char>, Seq<char>)>::empty());
    r
}

/// One chat completion to ask for: the server (normalized endpoint), the
/// requested model (trimmed; empty means the first one the server lists),
/// the system and user messages, and how long to wait.
pub struct ChatCall {
    pub endpoint: Vec<char>,
    pub model: String,
    pub system: String,
    pub user: String,
    pub timeout_secs: u64,
}

pub fn chat_call(endpoint: &str, model: &str, system: &str, user: &str, timeout_secs: u64) -> (c: ChatCall)
    ensures
        c.endpoint@ == normalized_endpoint(endpoint@),
        c.model@ == trim(model@),
        c.system@ == system@,
        c.user@ == user@,
        c.timeout_secs == timeout_secs,
{
    ChatCall {
        endpoint: normalize_endpoint(endpoint),
        model: string_from_chars(&trimmed(&chars_of(model))),
        system: system.to_string(),
        user: user.to_string(),
        timeout_secs,
    }
}

/// The completion request of `call` for `model`: `POST
/// {endpoint}/chat/completions`, a JSON content type, and the chat body with
/// the call's system and user messages.
pub fn chat_request(call: &ChatCall, model: &str) -> (r: HttpRequest)
    ensures
        request_view(r) == (
            call.endpoint@ + "/chat/completions"@,
            user_agent_text(),
            call.timeout_secs,
            seq![("Content-Type"@, "application/json"@)],
            chat_body(model@, call.system@, call.user@),
        ),
{
    let mut headers: Vec<(String, String)> = Vec::new();
    headers.push(("Content-Type".to_string(), "application/json".to_string()));
    let r = HttpRequest {
        url: url_with_path(&call.endpoint, "/chat/completions"),
        user_agent: user_agent(),
        timeout_secs: call.timeout_secs,
        headers,
        body: chat_request_body(model, call.system.as_str(), call.user.as_str()),
    };
    assert(header_views(r.headers@) =~= seq![("Content-Type"@, "application/json"@)]);
    r
}

/// Runs `call`: with no requested model, the first model `models_request`
/// lists is used; then `chat_request` is sent and its reply read by
/// `completion_outcome`. A failure always carries `note_analysis_failed`; an
/// analysis is trimmed and never empty; with a requested model, the outcome
/// is what some completion reply for that model yields.
pub fn run_chat(call: &ChatCall) -> (r: Result<AnalysisOutcome, CommandError>)
    requires
        call.timeout_secs <= MAX_TIMEOUT_SECS,
    ensures
        r matches Err(e) ==> e.code@ == "note_analysis_failed"@,
        r matches Ok(o) ==> o.analysis@.len() > 0 && trim(o.analysis@) == o.analysis@,
        call.model@.len() > 0 && r is Ok ==> exists|status: u16, status_text: Seq<char>, body: Seq<char>|
            #[trigger] completion_spec(status, status_text, body, call.model@) == Ok::<
                (Seq<char>, Seq<char>),
                Seq<char>,
            >((r->Ok_0.analysis@, r->Ok_0.model@)),
        call.model@.len() == 0 && r is Ok ==> exists|listing: Seq<char>, status: u16, status_text: Seq<char>, body: Seq<char>|
            #[trigger] first_model_spec(listing) is Ok && #[trigger] completion_spec(
                status,
                status_text,
                body,
                first_model_spec(listing)->Ok_0,
            ) == Ok::<(Seq<char>, Seq<char>), Seq<char>>((r->Ok_0.analysis@, r->Ok_0.model@)),
{
    let ghost mut listing: Seq<char> = Seq::empty();
    let model = if call.model.as_str().is_empty() {
        let listed = match http_get(&models_request(&call.endpoint), &mut SentLog::new()) {
            Ok(reply) => reply,
            Err(failed) => return Err(exchange_failure(&call.endpoint, &failed, "the model list")),
        };
        proof {
            listing = listed.body@;
        }
        first_listed_model(listed.body.as_str())?
    } else {
        call.model.clone()
    };
    let reply = match http_post(&chat_request(call, model.as_str()), &mut SentLog::new()) {
        Ok(reply) => reply,
        Err(failed) => return Err(exchange_failure(&call.endpoint, &failed, "the LLM response")),
    };
    let r = completion_outcome(&reply, model.as_str());
    proof {
        if r is Ok {
            let o = r->Ok_0;
            let content = json_str_at(reply.body@, "/choices/0/message/content"@)->0;
            crate::text::lemma_trim_idempotent(content);
            assert(o.analysis@ == trim(content));
            assert(completion_spec(reply.status, reply.status_text@, reply.body@, model@) == Ok::<
                (Seq<char>, Seq<char>),
                Seq<char>,
            >((o.analysis@, o.model@)));
            if call.model@.len() == 0 {
                assert(first_model_spec(listing) == Ok::<Seq<char>, Seq<char>>(model@));
                assert(first_model_spec(listing) is Ok);
                assert(completion_spec(
                    reply.status,
                    reply.status_text@,
                    reply.body@,
                    first_model_spec(listing)->Ok_0,
                ) == Ok::<(Seq<char>, Seq<char>), Seq<char>>((o.analysis@, o.model@)));
            }
        }
    }
    r
}

/// Analyzes `note_text` with `prompt` as the system message, waiting at most
/// `timeout_secs` for the completion: `run_chat` of `chat_call` of these. An
/// empty `model` means the first model the server lists.
pub fn analyze_text_with_timeout(
    endpoint: &str,
    model: &str,
    prompt: &str,
    note_text: &str,
    timeout_secs: u64,
) -> (r: Result<AnalysisOutcome, CommandError>)
    requires
        timeout_secs <= MAX_TIMEOUT_SECS,
    ensures
        r matches Err(e) ==> e.code@ == "note_analysis_failed"@,
        r matches Ok(o) ==> o.analysis@.len() > 0 && trim(o.analysis@) == o.analysis@,
        trim(model@).len() > 0 && r is Ok ==> exists|status: u16, status_text: Seq<char>, body: Seq<char>|
            #[trigger] completion_spec(status, status_text, body, trim(model@)) == Ok::<
                (Seq<char>, Seq<char>),
                Seq<char>,
            >((r->Ok_0.analysis@, r->Ok_0.model@)),
        trim(model@).len() == 0 && r is Ok ==> exists|listing: Seq<char>, status: u16, status_text: Seq<char>, body: Seq<char>|
            #[trigger] first_model_spec(listing) is Ok && #[trigger] completion_spec(
                status,
                status_text,
                body,
                first_model_spec(listing)->Ok_0,
            ) == Ok::<(Seq<char>, Seq<char>), Seq<char>>((r->Ok_0.analysis@, r->Ok_0.model@)),
{
    run_chat(&chat_call(endpoint, model, prompt, note_text, timeout_secs))
}

/// `analyze_text_with_timeout` with the long default timeout.
pub fn analyze_text(endpoint: &str, model: &str, prompt: &str, note_text: &str) -> (r: Result<
    AnalysisOutcome,
    CommandError,
>)
    ensures
        r matches Err(e) ==> e.code@ == "note_analysis_failed"@,
        r matches Ok(o) ==> o.analysis@.len() > 0 && trim(o.analysis@) == o.analysis@,
        trim(model@).len() > 0 && r is Ok ==> exists|status: u16, status_text: Seq<char>, body: Seq<char>|
            #[trigger] completion_spec(status, status_text, body, trim(model@)) == Ok::<
                (Seq<char>, Seq<char>),
                Seq<char>,
            >((r->Ok_0.analysis@, r->Ok_0.model@)),
        trim(model@).len() == 0 && r is Ok ==> exists|listing: Seq<char>, status: u16, status_text: Seq<char>, body: Seq<char>|
            #[trigger] first_model_spec(listing) is Ok && #[trigger] completion_spec(
                status,
                status_text,
                body,
                first_model_spec(listing)->Ok_0,
            ) == Ok::<(Seq<char>, Seq<char>), Seq<char>>((r->Ok_0.analysis@, r->Ok_0.model@)),
{
    analyze_text_with_timeout(endpoint, model, prompt, note_text, REQUEST_TIMEOUT_SECS)
}

// --- server status ---------------------------------------------------------

/// JSON Pointer to the `id` of the `i`-th entry of `data`.
pub open spec fn model_id_pointer(i: nat) -> Seq<char> {
    "/data/"@ + decimal_of(i) + "/id"@
}

/// The string ids among the first `n` entries of `data`, in order.
pub open spec fn listed_ids(body: Seq<char>, n: nat) -> Seq<Seq<char>>
    decreases n,
{
    if n == 0 {
        Seq::empty()
    } else {
        let earlier = listed_ids(body, (n - 1) as nat);
        match json_str_at(body, model_id_pointer((n - 1) as nat)) {
            Some(id) => earlier.push(id),
            None => earlier,
        }
    }
}

/// Every string id the `data` array of a `/models` reply lists (none when
/// there is no such array).
pub open spec fn model_ids(body: Seq<char>) -> Seq<Seq<char>> {
    match json_array_len_at(body, "/data"@) {
        Some(n) => listed_ids(body, n),
        None => Seq::empty(),
    }
}

pub open spec fn string_views(v: Seq<String>) -> Seq<Seq<char>> {
    v.map_values(|s: String| s@)
}

pub fn listed_model_ids(body: &str) -> (r: Vec<String>)
    ensures
        string_views(r@) == model_ids(body@),
{
    proof {
        reveal_strlit("/data");
    }
    let n = match json_lookup_array_len(body, "/data") {
        Some(n) => n,
        None => {
            let empty: Vec<String> = Vec::new();
            assert(string_views(empty@) =~= Seq::<Seq<char>>::empty());
            return empty;
        },
    };
    let mut out: Vec<String> = Vec::new();
    let mut i: usize = 0;
    while i < n
        invariant
            i <= n,
            json_array_len_at(body@, "/data"@) == Some(n as nat),
            string_views(out@) == listed_ids(body@, i as nat),
        decreases n - i,
    {
        let mut pointer = chars_of("/data/");
        push_all(&mut pointer, &decimal(i as u64));
        push_str(&mut pointer, "/id");
        let pointer = string_from_chars(&pointer);
        assert(pointer@ == model_id_pointer(i as nat));
        let ghost before = out@;
        match json_lookup_str(body, pointer.as_str()) {
            Some(id) => {
                let ghost idv = id@;
                out.push(id);
                assert(string_views(out@) =~= string_views(before).push(idv));
            },
            None => {},
        }
        i = i + 1;
    }
    out
}

/// What a `/models` reply says about the server at `endpoint`.
pub fn status_from_models_reply(endpoint: &Vec<char>, reply: &HttpReply) -> (s: LlmStatus)
    ensures
        s.endpoint@ == endpoint@,
        s.reachable == (is_success(reply.status) && json_error_of(reply.body@) is None),
        !is_success(reply.status) ==> (s.error matches Some(m) && m@ == "The server at "@
            + endpoint@ + " returned HTTP "@ + reply.status_text@ + "."@),
        is_success(reply.status) && json_error_of(reply.body@) is Some ==> (s.error matches Some(m)
            && m@ == "The server at "@ + endpoint@
            + " did not return an OpenAI-compatible model list."@),
        s.reachable ==> s.error is None && string_views(s.models@) == model_ids(reply.body@),
        !s.reachable ==> s.models@.len() == 0,
{
    if !status_is_success(reply.status) {
        let mut m = chars_of("The server at ");
        push_all(&mut m, endpoint);
        push_str(&mut m, " returned HTTP ");
        push_str(&mut m, reply.status_text.as_str());
        push_str(&mut m, ".");
        return LlmStatus {
            reachable: false,
            endpoint: string_from_chars(endpoint),
            models: Vec::new(),
            error: Some(string_from_chars(&m)),
        };
    }
    if json_check(reply.body.as_str()).is_err() {
        let mut m = chars_of("The server at ");
        push_all(&mut m, endpoint);
        push_str(&mut m, " did not return an OpenAI-compatible model list.");
        return LlmStatus {
            reachable: false,
            endpoint: string_from_chars(endpoint),
            models: Vec::new(),
            error: Some(string_from_chars(&m)),
        };
    }
    LlmStatus {
        reachable: true,
        endpoint: string_from_chars(endpoint),
        models: listed_model_ids(reply.body.as_str()),
        error: None,
    }
}

/// The status when the `/models` exchange broke off.
pub fn status_from_failure(endpoint: &Vec<char>, failed: &HttpFailure) -> (s: LlmStatus)
    ensures
        !s.reachable,
        s.endpoint@ == endpoint@,
        s.models@.len() == 0,
        s.error matches Some(m) && m@ == match failed.stage {
            HttpStage::Client => "Could not build the HTTP client. "@ + failed.detail@,
            HttpStage::Send => "Could not reach a local LLM server at "@ + endpoint@
                + ". Is it running?"@,
            HttpStage::Read => "Could not read the model list. "@ + failed.detail@,
        },
{
    let m = match failed.stage {
        HttpStage::Client => {
            let mut m = chars_of("Could not build the HTTP client. ");
            push_str(&mut m, failed.detail.as_str());
            m
        },
        HttpStage::Send => {
            let mut m = chars_of("Could not reach a local LLM server at ");
            push_all(&mut m, endpoint);
            push_str(&mut m, ". Is it running?");
            m
        },
        HttpStage::Read => {
            let mut m = chars_of("Could not read the model list. ");
            push_str(&mut m, failed.detail.as_str());
            m
        },
    };
    LlmStatus {
        reachable: false,
        endpoint: string_from_chars(endpoint),
        models: Vec::new(),
        error: Some(string_from_chars(&m)),
    }
}

/// Probes the server with `models_request` of the normalized endpoint. Never
/// an error: an empty endpoint (probed nowhere) or an unreachable server is
/// reported as `reachable: false`; a reply is read by
/// `status_from_models_reply`.
pub fn check_status(endpoint: &str) -> (s: LlmStatus)
    ensures
        s.endpoint@ == normalized_endpoint(endpoint@),
        normalized_endpoint(endpoint@).len() == 0 ==> !s.reachable,
        normalized_endpoint(endpoint@).len() == 0 <==> (s.error matches Some(m) && m@
            == "No server endpoint is set."@),
        !s.reachable ==> s.models@.len() == 0,
{
    let endpoint = normalize_endpoint(endpoint);
    if endpoint.len() == 0 {
        return LlmStatus {
            reachable: false,
            endpoint: string_from_chars(&endpoint),
            models: Vec::new(),
            error: Some("No server endpoint is set.".to_string()),
        };
    }
    let s = match http_get(&models_request(&endpoint), &mut SentLog::new()) {
        Ok(reply) => status_from_models_reply(&endpoint, &reply),
        Err(failed) => status_from_failure(&endpoint, &failed),
    };
    proof {
        reveal_strlit("No server endpoint is set.");
        reveal_strlit("The server at ");
        reveal_strlit("Could not build the HTTP client. ");
        reveal_strlit("Could not reach a local LLM server at ");
        reveal_strlit("Could not read the model list. ");
        if s.error is Some {
            let m = s.error->0@;
            assert(m[0] != 'N');
        }
    }
    s
}

} // verus!
