//! Backup of notes to a GitHub repository through the Contents API: one
//! Markdown file per local calendar day, regenerated from the local store on
//! each sync. This module holds the repository handle, the paths and URLs it
//! writes to, and the report of a sync.
use vstd::prelude::*;

use crate::daily_log::{backup_files, day_files, lemma_total_entries_prefix, total_entries, DayFile};
use crate::error::CommandError;
use crate::github_oauth::form_encoded;
use crate::http::{
    accepted, body_of, extends, header_views, http_get, lemma_extends_keeps, lemma_extends_refl,
    lemma_extends_trans, lemma_one_more_extends, http_post, http_put, is_success, one_more, request_view,
    status_is_success, status_of, Exchange, HttpFailure, HttpReply, HttpRequest, HttpStage, Method, SentLog,
    MAX_TIMEOUT_SECS,
};
use crate::json::{json_lookup_str, json_quote, json_quoted, json_str_at};
use crate::transcript::Transcript;
use crate::text::{
    ascii_lower_seq, ascii_lowercase, chars_of, ends_with, eq_chars, find_last, has_suffix, join,
    join_chars, push_all, push_str, rfind_char, slice, split_char, split_on, string_from_chars,
    trim, trimmed, truncate_chars, truncated, views,
};
use vstd::utf8::encode_utf8;
use vstd::string::StringSliceAdditionalSpecFns;

verus! {

pub const API_BASE: &'static str = "https://api.github.com";

/// What one backup run wrote.
#[derive(Debug, Clone, Copy, PartialEq, Eq, Structural)]
pub struct SyncReport {
    /// Note or transcript entries written across all daily files.
    pub synced_notes: u32,
    /// Distinct daily files created or updated.
    pub files_written: u32,
}

/// The Contents API handle for one token and one `owner/name` repository.
#[derive(Debug, Clone)]
pub struct GitHubBackup {
    pub token: String,
    pub owner: String,
    pub repo: String,
    pub api: String,
}

pub fn failure(message: &Vec<char>) -> (e: CommandError)
    ensures
        e.code@ == "github_sync_failed"@,
        e.message@ == message@,
{
    CommandError::from_parts("github_sync_failed", string_from_chars(message))
}

/// `owner/name` split at `/`: exactly two parts, each non-blank once trimmed.
pub open spec fn slug_parts(slug: Seq<char>) -> Option<(Seq<char>, Seq<char>)> {
    let parts = split_on(slug, '/');
    let owner = trim(parts[0]);
    let name = if parts.len() > 1 {
        trim(parts[1])
    } else {
        Seq::empty()
    };
    if owner.len() == 0 || name.len() == 0 || parts.len() > 2 {
        None
    } else {
        Some((owner, name))
    }
}

impl GitHubBackup {
    /// A handle for `owner/name`; refused unless the slug is exactly that.
    pub fn new(token: &str, repo_slug: &str) -> (r: Result<Self, CommandError>)
        ensures
            match slug_parts(repo_slug@) {
                Some((owner, name)) => r matches Ok(b) && b.owner@ == owner && b.repo@ == name
                    && b.token@ == token@ && b.api@ == API_BASE@,
                None => r matches Err(e) && e.code@ == "github_sync_failed"@ && e.message@
                    == "The GitHub repository must be in \"owner/name\" form, got \""@
                    + repo_slug@ + "\"."@,
            },
    {
        let parts = split_char(&chars_of(repo_slug), '/');
        proof {
            crate::text::lemma_split_on_nonempty(repo_slug@, '/');
        }
        let owner = trimmed(&parts[0]);
        let name = if parts.len() > 1 {
            trimmed(&parts[1])
        } else {
            Vec::new()
        };
        if owner.len() == 0 || name.len() == 0 || parts.len() > 2 {
            let mut m = chars_of("The GitHub repository must be in \"owner/name\" form, got \"");
            push_str(&mut m, repo_slug);
            push_str(&mut m, "\".");
            return Err(failure(&m));
        }
        Ok(GitHubBackup {
            token: token.to_string(),
            owner: string_from_chars(&owner),
            repo: string_from_chars(&name),
            api: API_BASE.to_string(),
        })
    }

    /// The `Authorization` header value.
    pub fn bearer(&self) -> (r: String)
        ensures
            r@ == "Bearer "@ + self.token@,
    {
        let mut m = chars_of("Bearer ");
        push_str(&mut m, self.token.as_str());
        string_from_chars(&m)
    }

    /// The Contents API URL of `path` in this repository.
    pub fn contents_url(&self, path: &str) -> (r: String)
        ensures
            r@ == self.api@ + "/repos/"@ + self.owner@ + "/"@ + self.repo@ + "/contents/"@
                + encoded_path(path@),
    {
        let mut m = chars_of(self.api.as_str());
        push_str(&mut m, "/repos/");
        push_str(&mut m, self.owner.as_str());
        push_str(&mut m, "/");
        push_str(&mut m, self.repo.as_str());
        push_str(&mut m, "/contents/");
        push_str(&mut m, encode_path(path).as_str());
        string_from_chars(&m)
    }
}

/// The day of a daily file path, its stem: `2026-06/2026-06-12.md` gives
/// `2026-06-12`. A last segment without `.md` leaves the path as it is.
pub open spec fn file_day_of(path: Seq<char>) -> Seq<char> {
    let name = match find_last(path, '/') {
        Some(i) => path.subrange(i + 1, path.len() as int),
        None => path,
    };
    if has_suffix(name, ".md"@) {
        name.subrange(0, name.len() - 3)
    } else {
        path
    }
}

pub fn file_day(path: &str) -> (r: String)
    ensures
        r@ == file_day_of(path@),
{
    let p = chars_of(path);
    let name = match rfind_char(&p, '/') {
        Some(i) => slice(&p, i + 1, p.len()),
        None => p.clone(),
    };
    let suffix = chars_of(".md");
    if ends_with(&name, &suffix) {
        proof {
            reveal_strlit(".md");
        }
        string_from_chars(&slice(&name, 0, name.len() - 3))
    } else {
        path.to_string()
    }
}

/// A segment percent-encoded byte by byte, unreserved bytes kept.
pub open spec fn encoded_segment(segment: Seq<char>) -> Seq<char> {
    form_encoded(encode_utf8(segment))
}

/// A Contents API path: `/` kept as the separator, each segment encoded.
pub open spec fn encoded_path(path: Seq<char>) -> Seq<char> {
    join(split_on(path, '/').map_values(|s: Seq<char>| encoded_segment(s)), "/"@)
}

pub fn encode_segment(segment: &str) -> (r: String)
    ensures
        r@ == encoded_segment(segment@),
{
    crate::github_oauth::form_encode(segment)
}

pub fn encode_path(path: &str) -> (r: String)
    ensures
        r@ == encoded_path(path@),
{
    let parts = split_char(&chars_of(path), '/');
    let ghost ps = views(parts@);
    let mut out: Vec<Vec<char>> = Vec::new();
    let mut i: usize = 0;
    while i < parts.len()
        invariant
            ps == views(parts@),
            i <= parts.len(),
            views(out@) == ps.take(i as int).map_values(|s: Seq<char>| encoded_segment(s)),
        decreases parts.len() - i,
    {
        let ghost before = out@;
        let seg = string_from_chars(&parts[i]);
        let enc = encode_segment(seg.as_str());
        out.push(chars_of(enc.as_str()));
        assert(views(out@) =~= views(before).push(encoded_segment(ps[i as int])));
        assert(ps.take(i as int + 1).map_values(|s: Seq<char>| encoded_segment(s)) =~= ps.take(
            i as int,
        ).map_values(|s: Seq<char>| encoded_segment(s)).push(encoded_segment(ps[i as int])));
        i = i + 1;
    }
    assert(ps.take(parts.len() as int) == ps);
    let slash = chars_of("/");
    string_from_chars(&join_chars(&out, &slash))
}

// --- talking to the Contents API ----------------------------------------------

/// `base64::engine::general_purpose::STANDARD` encoding of `bytes`.
pub uninterp spec fn base64_of(bytes: Seq<u8>) -> Seq<char>;

/// `STANDARD.encode` (padded base64). Claimed: the result is
/// `base64_of(bytes)`.
#[verifier::external_body]
fn base64_encode(bytes: &[u8]) -> (r: String)
    ensures
        r@ == base64_of(bytes@),
{
    base64::Engine::encode(&base64::engine::general_purpose::STANDARD, bytes)
}

/// The outcome of one write: written, or rejected for a stale blob sha.
#[derive(Debug, Clone, Copy, PartialEq, Eq, Structural)]
pub enum PutOutcome {
    Written,
    Conflict,
}

/// The token was revoked or expired (HTTP 401).
pub fn unauthorized() -> (e: CommandError)
    ensures
        e.code@ == "github_unauthorized"@,
{
    CommandError::new(
        "github_unauthorized",
        "Your GitHub connection expired or was revoked. Reconnect GitHub in Settings \u{2192} Sync.",
    )
}

fn exchange_failure(failed: &HttpFailure, sending: &str) -> (e: CommandError)
    ensures
        e.code@ == "github_sync_failed"@,
{
    let m = match failed.stage {
        HttpStage::Client => chars_of(failed.detail.as_str()),
        HttpStage::Send => {
            let mut m = chars_of(sending);
            push_str(&mut m, failed.detail.as_str());
            m
        },
        HttpStage::Read => {
            let mut m = chars_of("Could not read GitHub's response. ");
            push_str(&mut m, failed.detail.as_str());
            m
        },
    };
    failure(&m)
}

/// ASCII case-insensitive equality (`str::eq_ignore_ascii_case`).
pub fn eq_ignore_ascii_case(a: &str, b: &str) -> (r: bool)
    ensures
        r == (ascii_lower_seq(a@) == ascii_lower_seq(b@)),
{
    eq_chars(&ascii_lowercase(&chars_of(a)), &ascii_lowercase(&chars_of(b)))
}

/// The body of a Contents API write (keys in serde_json's sorted order).
pub open spec fn put_body_of(content_b64: Seq<char>, message: Seq<char>, sha: Option<Seq<char>>) -> Seq<char> {
    "{\"content\":"@ + json_quoted(content_b64) + ",\"message\":"@ + json_quoted(message) + match sha {
        Some(s) => ",\"sha\":"@ + json_quoted(s),
        None => Seq::empty(),
    } + "}"@
}

// --- reading the Contents API's replies ---------------------------------------

/// "GitHub returned HTTP {status} {doing}" — the refusal of an unexpected
/// status.
pub open spec fn http_refusal(status_text: Seq<char>, doing: Seq<char>) -> Seq<char> {
    "GitHub returned HTTP "@ + status_text + " "@ + doing
}

fn refusal(status_text: &str, doing: &Vec<char>) -> (e: CommandError)
    ensures
        e.code@ == "github_sync_failed"@,
        e.message@ == http_refusal(status_text@, doing@),
{
    let mut m = chars_of("GitHub returned HTTP ");
    push_str(&mut m, status_text);
    push_str(&mut m, " ");
    push_all(&mut m, doing);
    failure(&m)
}

/// Whether the repository exists, from the reply to reading it: a 2xx says
/// it does, 404 that it does not; 401 is `github_unauthorized`, any other
/// status a refusal.
pub fn repo_reply(status: u16, status_text: &str, owner: &str, repo: &str) -> (r: Result<bool, CommandError>)
    ensures
        status == 401 ==> (r matches Err(e) && e.code@ == "github_unauthorized"@),
        status != 401 && is_success(status) ==> r == Ok::<bool, CommandError>(true),
        status == 404 ==> r == Ok::<bool, CommandError>(false),
        status != 401 && status != 404 && !is_success(status) ==> (r matches Err(e) && e.code@
            == "github_sync_failed"@ && e.message@ == http_refusal(
            status_text@,
            "checking the repository "@ + owner@ + "/"@ + repo@ + "."@,
        )),
{
    if status == 401 {
        return Err(unauthorized());
    }
    if status_is_success(status) {
        return Ok(true);
    }
    if status == 404 {
        return Ok(false);
    }
    let mut doing = chars_of("checking the repository ");
    push_str(&mut doing, owner);
    push_str(&mut doing, "/");
    push_str(&mut doing, repo);
    push_str(&mut doing, ".");
    Err(refusal(status_text, &doing))
}

/// The login a reply body names ("" when it names none).
pub open spec fn login_of(body: Seq<char>) -> Seq<char> {
    match json_str_at(body, "/login"@) {
        Some(l) => l,
        None => Seq::<char>::empty(),
    }
}

/// The signed-in login, from the reply to reading the account ("" when the
/// reply names none).
pub fn login_reply(status: u16, status_text: &str, body: &str) -> (r: Result<String, CommandError>)
    ensures
        status == 401 ==> (r matches Err(e) && e.code@ == "github_unauthorized"@),
        status != 401 && !is_success(status) ==> (r matches Err(e) && e.code@ == "github_sync_failed"@
            && e.message@ == http_refusal(status_text@, "reading the authenticated account."@)),
        status != 401 && is_success(status) ==> (r matches Ok(login) && login@ == match json_str_at(
            body@,
            "/login"@,
        ) {
            Some(l) => l,
            None => Seq::<char>::empty(),
        }),
{
    if status == 401 {
        return Err(unauthorized());
    }
    if !status_is_success(status) {
        return Err(refusal(status_text, &chars_of("reading the authenticated account.")));
    }
    match json_lookup_str(body, "/login") {
        Some(login) => Ok(login),
        None => Ok(String::new()),
    }
}

/// A missing repository is created only under the signed-in account: the
/// owner must be the login (ignoring ASCII case).
pub fn check_owner(login: &str, owner: &str, repo: &str) -> (r: Result<(), CommandError>)
    ensures
        r is Ok <==> ascii_lower_seq(login@) == ascii_lower_seq(owner@),
        r matches Err(e) ==> e.code@ == "github_sync_failed"@ && e.message@ == "The repository "@
            + owner@ + "/"@ + repo@
            + " does not exist and could not be created automatically (it is owned by \""@ + owner@
            + "\", not your account \""@ + login@ + "\"). Create it on GitHub first."@,
{
    if eq_ignore_ascii_case(login, owner) {
        return Ok(());
    }
    let mut m = chars_of("The repository ");
    push_str(&mut m, owner);
    push_str(&mut m, "/");
    push_str(&mut m, repo);
    push_str(&mut m, " does not exist and could not be created automatically (it is owned by \"");
    push_str(&mut m, owner);
    push_str(&mut m, "\", not your account \"");
    push_str(&mut m, login);
    push_str(&mut m, "\"). Create it on GitHub first.");
    Err(failure(&m))
}

/// The reply to creating the repository: any 2xx will do.
pub fn create_reply(status: u16, status_text: &str, body: &str, owner: &str, repo: &str) -> (r: Result<(), CommandError>)
    ensures
        r is Ok <==> is_success(status),
        r matches Err(e) ==> e.code@ == "github_sync_failed"@ && e.message@ == http_refusal(
            status_text@,
            "creating the repository "@ + owner@ + "/"@ + repo@ + ". "@ + truncated(body@, 300),
        ),
{
    if status_is_success(status) {
        return Ok(());
    }
    let mut doing = chars_of("creating the repository ");
    push_str(&mut doing, owner);
    push_str(&mut doing, "/");
    push_str(&mut doing, repo);
    push_str(&mut doing, ". ");
    push_str(&mut doing, truncate_chars(body, 300).as_str());
    Err(refusal(status_text, &doing))
}

/// The blob sha of `path` from the reply to reading it: `None` on 404.
pub fn sha_reply(status: u16, status_text: &str, body: &str, path: &str) -> (r: Result<Option<String>, CommandError>)
    ensures
        status == 401 ==> (r matches Err(e) && e.code@ == "github_unauthorized"@),
        status == 404 ==> r matches Ok(None),
        status != 401 && status != 404 && !is_success(status) ==> (r matches Err(e) && e.code@
            == "github_sync_failed"@ && e.message@ == http_refusal(
            status_text@,
            "reading "@ + path@ + "."@,
        )),
        is_success(status) ==> (r matches Ok(sha) && match sha {
            Some(s) => json_str_at(body@, "/sha"@) == Some(s@),
            None => json_str_at(body@, "/sha"@) is None,
        }),
{
    if status == 401 {
        return Err(unauthorized());
    }
    if status == 404 {
        return Ok(None);
    }
    if !status_is_success(status) {
        let mut doing = chars_of("reading ");
        push_str(&mut doing, path);
        push_str(&mut doing, ".");
        return Err(refusal(status_text, &doing));
    }
    Ok(json_lookup_str(body, "/sha"))
}

/// The reply to a write of `path`: a 2xx wrote it, 409 or 422 mean the sha
/// was stale, 401 is `github_unauthorized`, anything else a refusal.
pub fn put_reply(status: u16, status_text: &str, body: &str, path: &str) -> (r: Result<PutOutcome, CommandError>)
    ensures
        is_success(status) ==> r == Ok::<PutOutcome, CommandError>(PutOutcome::Written),
        (status == 409 || status == 422) ==> r == Ok::<PutOutcome, CommandError>(PutOutcome::Conflict),
        status == 401 ==> (r matches Err(e) && e.code@ == "github_unauthorized"@),
        !is_success(status) && status != 409 && status != 422 && status != 401 ==> (r matches Err(e)
            && e.code@ == "github_sync_failed"@ && e.message@ == http_refusal(
            status_text@,
            "writing "@ + path@ + ". "@ + truncated(body@, 300),
        )),
{
    if status_is_success(status) {
        return Ok(PutOutcome::Written);
    }
    if status == 409 || status == 422 {
        return Ok(PutOutcome::Conflict);
    }
    if status == 401 {
        return Err(unauthorized());
    }
    let mut doing = chars_of("writing ");
    push_str(&mut doing, path);
    push_str(&mut doing, ". ");
    push_str(&mut doing, truncate_chars(body, 300).as_str());
    Err(refusal(status_text, &doing))
}

/// The headers of every Contents API request made with `token`.
pub open spec fn github_headers(token: Seq<char>) -> Seq<(Seq<char>, Seq<char>)> {
    seq![
        ("Authorization"@, "Bearer "@ + token),
        ("Accept"@, "application/vnd.github+json"@),
        ("X-GitHub-Api-Version"@, "2022-11-28"@),
    ]
}

/// A GitHub request to `url` carrying `body`, as plain values: the app's
/// user agent, a thirty-second timeout and the GitHub headers.
pub open spec fn github_request(token: Seq<char>, url: Seq<char>, body: Seq<char>) -> (Seq<char>, Seq<char>, u64, Seq<(Seq<char>, Seq<char>)>, Seq<char>) {
    (url, "Scribe/0.1.0"@, 30u64, github_headers(token), body)
}

/// The body that creates the repository `repo`: private and initialized
/// (keys in serde_json's sorted order).
pub open spec fn create_repo_body(repo: Seq<char>) -> Seq<char> {
    "{\"auto_init\":true,\"name\":"@ + json_quoted(repo) + ",\"private\":true}"@
}

/// Where the daily file of `day` goes under `prefix`: the `YYYY-MM` folder,
/// then `YYYY-MM-DD.md`.
pub open spec fn day_file_path_of(prefix: Seq<char>, day: Seq<char>) -> Seq<char> {
    prefix + day.take(if day.len() >= 7 { 7 } else { day.len() as int }) + "/"@ + day + ".md"@
}

pub fn day_file_path(prefix: &str, day: &str) -> (r: String)
    ensures
        r@ == day_file_path_of(prefix@, day@),
{
    let d = chars_of(day);
    let month_len: usize = if d.len() >= 7 {
        7
    } else {
        d.len()
    };
    let mut path = chars_of(prefix);
    push_all(&mut path, &slice(&d, 0, month_len));
    push_str(&mut path, "/");
    push_all(&mut path, &d);
    push_str(&mut path, ".md");
    assert(d@.subrange(0, month_len as int) == d@.take(month_len as int));
    string_from_chars(&path)
}

/// The writes of a backup under `prefix`: each daily file's content to its
/// `day_file_path`, in the order of `files`.
pub fn day_writes(files: &Vec<DayFile>, prefix: &str) -> (w: Vec<(String, String)>)
    ensures
        w.len() == files.len(),
        forall|q: int| 0 <= q < files.len() ==> (#[trigger] w@[q]).0@ == day_file_path_of(
            prefix@,
            files@[q].day@,
        ) && w@[q].1@ == files@[q].content@,
{
    let mut w: Vec<(String, String)> = Vec::new();
    let mut f: usize = 0;
    while f < files.len()
        invariant
            f <= files.len(),
            w.len() == f,
            forall|q: int| 0 <= q < f ==> (#[trigger] w@[q]).0@ == day_file_path_of(
                prefix@,
                files@[q].day@,
            ) && w@[q].1@ == files@[q].content@,
        decreases files.len() - f,
    {
        let path = day_file_path(prefix, files[f].day.as_str());
        let content = files[f].content.clone();
        w.push((path, content));
        f = f + 1;
    }
    w
}

/// What follows a write of a daily file: done, one retry after a first sha
/// conflict, or giving up after a second.
#[derive(Debug, Clone, Copy, PartialEq, Eq, Structural)]
pub enum PutNext {
    Done,
    Retry,
    GiveUp,
}

/// A write that landed is done; the first conflict is retried with a fresh
/// sha; a second conflict gives up.
pub fn after_put(attempt: u8, outcome: PutOutcome) -> (r: PutNext)
    ensures
        outcome == PutOutcome::Written ==> r == PutNext::Done,
        outcome == PutOutcome::Conflict && attempt == 0 ==> r == PutNext::Retry,
        outcome == PutOutcome::Conflict && attempt > 0 ==> r == PutNext::GiveUp,
{
    match outcome {
        PutOutcome::Written => PutNext::Done,
        PutOutcome::Conflict => if attempt == 0 {
            PutNext::Retry
        } else {
            PutNext::GiveUp
        },
    }
}

impl GitHubBackup {
    /// The Contents API URL of `path` in this repository.
    pub open spec fn contents_url_of(self, path: Seq<char>) -> Seq<char> {
        self.api@ + "/repos/"@ + self.owner@ + "/"@ + self.repo@ + "/contents/"@ + encoded_path(path)
    }

    /// A request to `url` with `body` and this handle's token.
    pub fn request(&self, url: String, body: String) -> (r: HttpRequest)
        ensures
            request_view(r) == github_request(self.token@, url@, body@),
    {
        let mut headers: Vec<(String, String)> = Vec::new();
        headers.push(("Authorization".to_string(), self.bearer()));
        headers.push(("Accept".to_string(), "application/vnd.github+json".to_string()));
        headers.push(("X-GitHub-Api-Version".to_string(), "2022-11-28".to_string()));
        let r = HttpRequest { url, user_agent: "Scribe/0.1.0".to_string(), timeout_secs: 30, headers, body };
        proof {
            reveal_strlit("Scribe/0.1.0");
            assert(header_views(r.headers@) =~= github_headers(self.token@));
        }
        r
    }

    /// Reading the repository: `GET {api}/repos/{owner}/{repo}`.
    pub fn repo_request(&self) -> (r: HttpRequest)
        ensures
            request_view(r) == github_request(
                self.token@,
                self.api@ + "/repos/"@ + self.owner@ + "/"@ + self.repo@,
                Seq::empty(),
            ),
    {
        let mut url = chars_of(self.api.as_str());
        push_str(&mut url, "/repos/");
        push_str(&mut url, self.owner.as_str());
        push_str(&mut url, "/");
        push_str(&mut url, self.repo.as_str());
        self.request(string_from_chars(&url), String::new())
    }

    /// Reading the signed-in account: `GET {api}/user`.
    pub fn login_request(&self) -> (r: HttpRequest)
        ensures
            request_view(r) == github_request(self.token@, self.api@ + "/user"@, Seq::empty()),
    {
        let mut url = chars_of(self.api.as_str());
        push_str(&mut url, "/user");
        self.request(string_from_chars(&url), String::new())
    }

    /// Creating the repository under the signed-in account:
    /// `POST {api}/user/repos` with `create_repo_body`.
    pub fn create_repo_request(&self) -> (r: HttpRequest)
        ensures
            request_view(r) == github_request(
                self.token@,
                self.api@ + "/user/repos"@,
                create_repo_body(self.repo@),
            ),
    {
        let mut url = chars_of(self.api.as_str());
        push_str(&mut url, "/user/repos");
        let mut body = chars_of("{\"auto_init\":true,\"name\":");
        push_str(&mut body, json_quote(self.repo.as_str()).as_str());
        push_str(&mut body, ",\"private\":true}");
        self.request(string_from_chars(&url), string_from_chars(&body))
    }

    /// Reading `path`: `GET` its Contents API URL.
    pub fn sha_request(&self, path: &str) -> (r: HttpRequest)
        ensures
            request_view(r) == github_request(self.token@, self.contents_url_of(path@), Seq::empty()),
    {
        self.request(self.contents_url(path), String::new())
    }

    /// Writing `content` to `path` (over the blob `sha` when updating): `PUT`
    /// its Contents API URL with `put_body`.
    pub fn put_request(&self, path: &str, content: &str, sha: Option<&str>) -> (r: HttpRequest)
        ensures
            request_view(r) == github_request(
                self.token@,
                self.contents_url_of(path@),
                put_body_of(
                    base64_of(content.spec_bytes()),
                    "scribe: notes "@ + file_day_of(path@),
                    match sha {
                        Some(s) => Some(s@),
                        None => None,
                    },
                ),
            ),
    {
        self.request(self.contents_url(path), GitHubBackup::put_body(path, content, sha))
    }

    /// The request view of writing `content` to `path` over the blob `sha`.
    pub open spec fn put_view(self, path: Seq<char>, content: Seq<char>, sha: Option<Seq<char>>) -> crate::http::RequestView {
        github_request(
            self.token@,
            self.contents_url_of(path),
            put_body_of(base64_of(encode_utf8(content)), "scribe: notes "@ + file_day_of(path), sha),
        )
    }

    /// Exchanges `i - 1` and `i` of `sent` wrote `content` to `path`: the
    /// read of `path`, then a write over the sha that read returned (none
    /// when the file was missing), which GitHub accepted.
    pub open spec fn wrote_file(self, sent: Seq<Exchange>, i: int, path: Seq<char>, content: Seq<char>) -> bool {
        &&& 1 <= i < sent.len()
        &&& sent[i - 1].0 == Method::Get
        &&& sent[i - 1].1 == github_request(self.token@, self.contents_url_of(path), Seq::empty())
        &&& sent[i - 1].2 is Some
        &&& sent[i].0 == Method::Put
        &&& sent[i].1 == self.put_view(
            path,
            content,
            if is_success(status_of(sent[i - 1])) {
                json_str_at(body_of(sent[i - 1]), "/sha"@)
            } else {
                None
            },
        )
        &&& accepted(sent[i])
    }

    /// The daily `files` were written under `prefix`, in order: file `q` at
    /// exchange `pos[q]` (from `from` on).
    pub open spec fn wrote_days(
        self,
        sent: Seq<Exchange>,
        from: int,
        prefix: Seq<char>,
        files: Seq<DayFile>,
        pos: Seq<int>,
    ) -> bool {
        &&& pos.len() == files.len()
        &&& forall|q: int|
            0 <= q < files.len() ==> from < #[trigger] pos[q] && self.wrote_file(
                sent,
                pos[q],
                day_file_path_of(prefix, files[q].day@),
                files[q].content@,
            )
        &&& forall|q1: int, q2: int| 0 <= q1 < q2 < files.len() ==> #[trigger] pos[q1] < #[trigger] pos[q2]
    }

    /// Sends the read `req`; the reply, whatever its status.
    pub fn get_json(&self, req: &HttpRequest, log: &mut SentLog) -> (r: Result<HttpReply, CommandError>)
        requires
            req.timeout_secs <= MAX_TIMEOUT_SECS,
        ensures
            one_more(old(log).sent(), final(log).sent(), Method::Get, request_view(*req)),
            r matches Ok(reply) ==> final(log).sent().last().2 == Some((reply.status, reply.body@)),
            r matches Err(e) ==> e.code@ == "github_sync_failed"@,
    {
        match http_get(req, log) {
            Ok(reply) => Ok(reply),
            Err(failed) => Err(exchange_failure(&failed, "Could not reach GitHub. ")),
        }
    }

    /// The login of the account the token belongs to ("" when GitHub does
    /// not say).
    pub fn fetch_login(&self, log: &mut SentLog) -> (r: Result<String, CommandError>)
        ensures
            one_more(old(log).sent(), final(log).sent(), Method::Get, github_request(self.token@, self.api@ + "/user"@, Seq::empty())),
            r matches Ok(login) ==> accepted(final(log).sent().last()) && login@ == login_of(
                body_of(final(log).sent().last()),
            ),
            r matches Err(e) ==> e.code@ == "github_sync_failed"@ || e.code@ == "github_unauthorized"@,
    {
        let reply = self.get_json(&self.login_request(), log)?;
        login_reply(reply.status, reply.status_text.as_str(), reply.body.as_str())
    }

    /// Makes sure the repository exists. A missing one is created (private,
    /// initialized) only when it belongs to the signed-in account; otherwise
    /// the user is asked to create it. Exchanges: reading the repository;
    /// when it is missing, reading the account; when that is the owner,
    /// creating the repository.
    pub fn ensure_repo(&self, log: &mut SentLog) -> (r: Result<(), CommandError>)
        ensures
            extends(old(log).sent(), final(log).sent()),
            final(log).sent().len() > old(log).sent().len(),
            final(log).sent().len() <= old(log).sent().len() + 3,
            ({
                let n = old(log).sent().len() as int;
                let s = final(log).sent();
                &&& s[n].0 == Method::Get
                &&& s[n].1 == github_request(self.token@, self.api@ + "/repos/"@ + self.owner@ + "/"@ + self.repo@, Seq::empty())
                &&& s.len() == n + 3 ==> {
                    &&& s[n].2 is Some
                    &&& status_of(s[n]) == 404
                    &&& s[n + 1].0 == Method::Get
                    &&& s[n + 1].1 == github_request(self.token@, self.api@ + "/user"@, Seq::empty())
                    &&& accepted(s[n + 1])
                    &&& ascii_lower_seq(login_of(body_of(s[n + 1]))) == ascii_lower_seq(self.owner@)
                    &&& s[n + 2].0 == Method::Post
                    &&& s[n + 2].1 == github_request(self.token@, self.api@ + "/user/repos"@, create_repo_body(self.repo@))
                }
                &&& r is Ok ==> ((s.len() == n + 1 && accepted(s[n])) || (s.len() == n + 3 && accepted(s[n + 2])))
            }),
            r matches Err(e) ==> e.code@ == "github_sync_failed"@ || e.code@ == "github_unauthorized"@,
    {
        let ghost start = log.sent();
        let ghost n = start.len() as int;
        let got = self.get_json(&self.repo_request(), log);
        let ghost s0 = log.sent();
        proof {
            lemma_one_more_extends(start, s0, Method::Get, s0.last().1);
            assert(s0[n] == s0.last());
        }
        let reply = got?;
        if repo_reply(reply.status, reply.status_text.as_str(), self.owner.as_str(), self.repo.as_str())? {
            return Ok(());
        }
        let fetched = self.fetch_login(log);
        let ghost s1 = log.sent();
        proof {
            lemma_one_more_extends(s0, s1, Method::Get, s1.last().1);
            lemma_extends_trans(start, s0, s1);
            lemma_extends_keeps(s0, s1);
            assert(s1[n + 1] == s1.last());
        }
        let login = fetched?;
        check_owner(login.as_str(), self.owner.as_str(), self.repo.as_str())?;
        let req = self.create_repo_request();
        let sent = http_post(&req, log);
        proof {
            let s2 = log.sent();
            lemma_one_more_extends(s1, s2, Method::Post, request_view(req));
            lemma_extends_trans(start, s1, s2);
            lemma_extends_keeps(s1, s2);
            assert(s2[n + 2] == s2.last());
        }
        let reply = match sent {
            Ok(reply) => reply,
            Err(failed) => return Err(exchange_failure(&failed, "Could not reach GitHub. ")),
        };
        create_reply(
            reply.status,
            reply.status_text.as_str(),
            reply.body.as_str(),
            self.owner.as_str(),
            self.repo.as_str(),
        )
    }

    /// The blob sha of `path`, `None` when the file does not exist yet.
    pub fn get_sha(&self, path: &str, log: &mut SentLog) -> (r: Result<Option<String>, CommandError>)
        ensures
            one_more(old(log).sent(), final(log).sent(), Method::Get, github_request(self.token@, self.contents_url_of(path@), Seq::empty())),
            r matches Ok(sha) ==> final(log).sent().last().2 is Some && match sha {
                Some(v) => Some(v@),
                None => None,
            } == if is_success(status_of(final(log).sent().last())) {
                json_str_at(body_of(final(log).sent().last()), "/sha"@)
            } else {
                None
            },
            r matches Err(e) ==> e.code@ == "github_sync_failed"@ || e.code@ == "github_unauthorized"@,
    {
        let reply = self.get_json(&self.sha_request(path), log)?;
        sha_reply(reply.status, reply.status_text.as_str(), reply.body.as_str(), path)
    }

    /// The body of a write of `content` to `path`, naming the day in the
    /// commit message and carrying the sha when updating.
    pub fn put_body(path: &str, content: &str, sha: Option<&str>) -> (r: String)
        ensures
            r@ == put_body_of(
                base64_of(content.spec_bytes()),
                "scribe: notes "@ + file_day_of(path@),
                match sha {
                    Some(s) => Some(s@),
                    None => None,
                },
            ),
    {
        let encoded = base64_encode(content.as_bytes());
        let mut message = chars_of("scribe: notes ");
        push_str(&mut message, file_day(path).as_str());
        let message = string_from_chars(&message);
        let mut body = chars_of("{\"content\":");
        push_str(&mut body, json_quote(encoded.as_str()).as_str());
        push_str(&mut body, ",\"message\":");
        push_str(&mut body, json_quote(message.as_str()).as_str());
        match sha {
            Some(s) => {
                push_str(&mut body, ",\"sha\":");
                push_str(&mut body, json_quote(s).as_str());
            },
            None => {},
        }
        push_str(&mut body, "}");
        string_from_chars(&body)
    }

    /// Writes `content` to `path`. A stale sha (409, 422) is a `Conflict`
    /// for the caller to retry; 401 is `github_unauthorized`.
    pub fn put_contents(&self, path: &str, content: &str, sha: Option<&str>, log: &mut SentLog) -> (r: Result<
        PutOutcome,
        CommandError,
    >)
        ensures
            one_more(old(log).sent(), final(log).sent(), Method::Put, self.put_view(path@, content@, match sha {
                Some(s) => Some(s@),
                None => None,
            })),
            r == Ok::<PutOutcome, CommandError>(PutOutcome::Written) <==> accepted(final(log).sent().last()),
            r matches Err(e) ==> e.code@ == "github_sync_failed"@ || e.code@ == "github_unauthorized"@,
    {
        let reply = match http_put(&self.put_request(path, content, sha), log) {
            Ok(reply) => reply,
            Err(failed) => return Err(exchange_failure(&failed, "Could not write to GitHub. ")),
        };
        put_reply(reply.status, reply.status_text.as_str(), reply.body.as_str(), path)
    }

    /// Writes a daily file: learn its sha, write, and on a sha conflict
    /// learn it again and retry once. On success the last two exchanges are
    /// that read and the accepted write of `content`.
    pub fn put_day_file(&self, path: &str, content: &str, log: &mut SentLog) -> (r: Result<(), CommandError>)
        ensures
            extends(old(log).sent(), final(log).sent()),
            r is Ok ==> final(log).sent().len() >= old(log).sent().len() + 2 && self.wrote_file(
                final(log).sent(),
                final(log).sent().len() - 1,
                path@,
                content@,
            ),
            r matches Err(e) ==> e.code@ == "github_sync_failed"@ || e.code@ == "github_unauthorized"@,
    {
        let ghost start = log.sent();
        proof {
            lemma_extends_refl(start);
        }
        let mut attempt: u8 = 0;
        loop
            invariant
                attempt <= 1,
                start == old(log).sent(),
                extends(start, log.sent()),
            decreases 1 - attempt,
        {
            let ghost before = log.sent();
            let got = self.get_sha(path, log);
            let ghost read = log.sent();
            proof {
                lemma_one_more_extends(before, read, Method::Get, read.last().1);
                lemma_extends_trans(start, before, read);
            }
            let sha = got?;
            let sha_ref = match &sha {
                Some(s) => Some(s.as_str()),
                None => None,
            };
            let put = self.put_contents(path, content, sha_ref, log);
            proof {
                let s = log.sent();
                lemma_one_more_extends(read, s, Method::Put, s.last().1);
                lemma_extends_trans(start, read, s);
                assert(s.drop_last() == read);
                assert(s[s.len() - 2] == read.last());
            }
            let outcome = put?;
            match after_put(attempt, outcome) {
                PutNext::Done => return Ok(()),
                PutNext::Retry => {
                    attempt = attempt + 1;
                },
                PutNext::GiveUp => {
                    let mut m = chars_of("GitHub kept rejecting the write to ");
                    push_str(&mut m, path);
                    push_str(&mut m, " (sha conflict). Try again.");
                    return Err(failure(&m));
                },
            }
        }
    }

    /// Performs the `day_writes` of the `day_files` of `entries` under
    /// `prefix`, in order, after making sure the repository exists. The
    /// report counts every entry and every file written.
    fn sync_days(&self, entries: &Vec<Transcript>, prefix: &str, with_summary: bool, log: &mut SentLog) -> (r: Result<
        SyncReport,
        CommandError,
    >)
        requires
            entries.len() <= u32::MAX,
        ensures
            extends(old(log).sent(), final(log).sent()),
            r matches Ok(report) ==> report.synced_notes == entries.len() && exists|files: Seq<DayFile>, pos: Seq<int>|
                #[trigger] self.wrote_days(final(log).sent(), old(log).sent().len() as int, prefix@, files, pos)
                && backup_files(entries@, with_summary, files) && report.files_written == files.len(),
            r matches Err(e) ==> e.code@ == "github_sync_failed"@ || e.code@ == "github_unauthorized"@,
    {
        let ghost start = log.sent();
        self.ensure_repo(log)?;
        let ghost repo_checked = log.sent();
        let files = day_files(entries, with_summary);
        let writes = day_writes(&files, prefix);
        let mut written: u32 = 0;
        let mut synced: u32 = 0;
        let mut f: usize = 0;
        let ghost mut pos: Seq<int> = Seq::empty();
        while f < files.len()
            invariant
                total_entries(files@) == entries.len(),
                files.len() <= entries.len(),
                forall|q: int| 0 <= q < files.len() ==> (#[trigger] files@[q]).entries >= 1,
                f <= files.len(),
                written == f,
                written <= synced,
                synced == total_entries(files@.take(f as int)),
                entries.len() <= u32::MAX,
                writes.len() == files.len(),
                forall|q: int| 0 <= q < files.len() ==> (#[trigger] writes@[q]).0@ == day_file_path_of(
                    prefix@,
                    files@[q].day@,
                ) && writes@[q].1@ == files@[q].content@,
                start == old(log).sent(),
                extends(start, log.sent()),
                self.wrote_days(log.sent(), start.len() as int, prefix@, files@.take(f as int), pos),
                forall|q: int| 0 <= q < pos.len() ==> #[trigger] pos[q] < log.sent().len(),
            decreases files.len() - f,
        {
            let ghost before = log.sent();
            let wrote = self.put_day_file(writes[f].0.as_str(), writes[f].1.as_str(), log);
            proof {
                lemma_extends_trans(start, before, log.sent());
            }
            wrote?;
            proof {
                let s = log.sent();
                let at = s.len() - 1;
                lemma_extends_keeps(before, s);
                assert forall|q: int| 0 <= q < pos.len() implies s[pos[q]] == before[pos[q]] && s[pos[q] - 1]
                    == before[pos[q] - 1] by {
                    assert(s.take(before.len() as int)[pos[q]] == s[pos[q]]);
                    assert(s.take(before.len() as int)[pos[q] - 1] == s[pos[q] - 1]);
                }
                let npos = pos.push(at);
                assert(files@.take(f as int + 1).drop_last() == files@.take(f as int));
                assert(files@.take(f as int + 1)[f as int] == files@[f as int]);
                assert(self.wrote_days(s, start.len() as int, prefix@, files@.take(f as int + 1), npos));
                pos = npos;
                assert(s.take(start.len() as int) == start);
                lemma_total_entries_prefix(files@, f as int + 1);
            }
            written = written + 1;
            synced = synced + (files[f].entries as u32);
            f = f + 1;
        }
        assert(files@.take(files.len() as int) == files@);
        assert(backup_files(entries@, with_summary, files@));
        Ok(SyncReport { synced_notes: synced, files_written: written })
    }

    /// Backs up notes: one daily file per local day at the repository root,
    /// with summaries, each written with its content as `wrote_days` states.
    pub fn sync_notes(&self, notes: &Vec<Transcript>, log: &mut SentLog) -> (r: Result<SyncReport, CommandError>)
        requires
            notes.len() <= u32::MAX,
        ensures
            extends(old(log).sent(), final(log).sent()),
            r matches Ok(report) ==> report.synced_notes == notes.len() && exists|files: Seq<DayFile>, pos: Seq<int>|
                #[trigger] self.wrote_days(final(log).sent(), old(log).sent().len() as int, ""@, files, pos)
                && backup_files(notes@, true, files) && report.files_written == files.len(),
            r matches Err(e) ==> e.code@ == "github_sync_failed"@ || e.code@ == "github_unauthorized"@,
    {
        self.sync_days(notes, "", true, log)
    }

    /// Backs up every transcript under `transcripts/`, one daily file per
    /// local day, without summaries, each written as `wrote_days` states.
    pub fn sync_all_transcripts(&self, transcripts: &Vec<Transcript>, log: &mut SentLog) -> (r: Result<
        SyncReport,
        CommandError,
    >)
        requires
            transcripts.len() <= u32::MAX,
        ensures
            extends(old(log).sent(), final(log).sent()),
            r matches Ok(report) ==> report.synced_notes == transcripts.len() && exists|files: Seq<DayFile>, pos: Seq<int>|
                #[trigger] self.wrote_days(final(log).sent(), old(log).sent().len() as int, "transcripts/"@, files, pos)
                && backup_files(transcripts@, false, files) && report.files_written == files.len(),
            r matches Err(e) ==> e.code@ == "github_sync_failed"@ || e.code@ == "github_unauthorized"@,
    {
        self.sync_days(transcripts, "transcripts/", false, log)
    }
}

} // verus!
