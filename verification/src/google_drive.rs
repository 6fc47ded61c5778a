//! Backup of notes to Google Drive (REST v3, `drive.file` scope): the daily
//! Markdown files live in app-created folders. This module holds the Drive
//! handle, the file queries it sends, and the report of a sync.
use vstd::prelude::*;

use crate::daily_log::{backup_files, day_files, lemma_total_entries_prefix, total_entries, DayFile};
use crate::error::CommandError;
use crate::github_oauth::form_encoded;
use crate::http::{
    accepted, body_of, extends, header_views, http_get, http_patch, http_post, is_success,
    lemma_extends_keeps, lemma_extends_trans, lemma_one_more_extends, one_more, request_view,
    status_is_success, Exchange, HttpFailure, HttpRequest, HttpStage, Method, RequestView, SentLog,
    MAX_TIMEOUT_SECS,
};
use vstd::utf8::encode_utf8;
use crate::json::{json_check, json_error_of, json_lookup_str, json_quote, json_quoted, json_str_at};
use crate::text::{
    chars_of, is_blank, is_blank_str, join, join_chars, push_str, slice, string_from_chars,
    truncate_chars, truncated, views};
use crate::transcript::Transcript;
use vstd::string::StringSliceAdditionalSpecFns;

verus! {

pub const ROOT_FOLDER_NAME: &'static str = "Scribe Voice Notes";

/// The full-history transcript backup lives apart from the notes.
pub const TRANSCRIPTS_ROOT_FOLDER_NAME: &'static str = "Scribe Transcripts";

pub const FOLDER_MIME: &'static str = "application/vnd.google-apps.folder";

/// What one backup run wrote.
#[derive(Debug, Clone, Copy, PartialEq, Eq, Structural)]
pub struct SyncReport {
    /// Note or transcript entries written across all daily files.
    pub synced_notes: u32,
    /// Distinct daily files created or updated.
    pub files_written: u32,
}

/// The Drive handle for one access token.
#[derive(Debug, Clone)]
pub struct Drive {
    pub token: String,
    pub api: String,
    pub upload: String,
}

impl Drive {
    pub fn new(access_token: &str) -> (d: Self)
        ensures
            d.token@ == access_token@,
            d.api@ == "https://www.googleapis.com/drive/v3"@,
            d.upload@ == "https://www.googleapis.com/upload/drive/v3"@,
    {
        Drive {
            token: access_token.to_string(),
            api: "https://www.googleapis.com/drive/v3".to_string(),
            upload: "https://www.googleapis.com/upload/drive/v3".to_string(),
        }
    }

    /// The `Authorization` header value.
    pub fn bearer(&self) -> (r: String)
        ensures
            r@ == "Bearer "@ + self.token@,
    {
        let mut m = chars_of("Bearer ");
        push_str(&mut m, self.token.as_str());
        string_from_chars(&m)
    }
}

pub fn failure(message: &Vec<char>) -> (e: CommandError)
    ensures
        e.code@ == "drive_sync_failed"@,
        e.message@ == message@,
{
    CommandError::from_parts("drive_sync_failed", string_from_chars(message))
}

/// A value inside a Drive query string literal: backslashes doubled first,
/// then single quotes escaped.
pub open spec fn escaped_literal(s: Seq<char>) -> Seq<char>
    decreases s.len(),
{
    if s.len() == 0 {
        s
    } else {
        let rest = escaped_literal(s.drop_last());
        if s.last() == '\\' {
            rest + seq!['\\', '\\']
        } else if s.last() == '\'' {
            rest + seq!['\\', '\'']
        } else {
            rest.push(s.last())
        }
    }
}

pub fn escape_query_literal(value: &str) -> (r: String)
    ensures
        r@ == escaped_literal(value@),
{
    let v = chars_of(value);
    let mut out: Vec<char> = Vec::new();
    let mut i: usize = 0;
    while i < v.len()
        invariant
            i <= v.len(),
            out@ == escaped_literal(v@.take(i as int)),
        decreases v.len() - i,
    {
        assert(v@.take(i as int + 1).drop_last() == v@.take(i as int));
        if v[i] == '\\' {
            out.push('\\');
            out.push('\\');
        } else if v[i] == '\'' {
            out.push('\\');
            out.push('\'');
        } else {
            out.push(v[i]);
        }
        i = i + 1;
    }
    assert(v@.take(v.len() as int) == v@);
    string_from_chars(&out)
}

/// Percent-encodes a query-string value (unreserved bytes kept).
pub fn encode(value: &str) -> (r: String)
    ensures
        r@ == form_encoded(value.spec_bytes()),
{
    crate::github_oauth::form_encode(value)
}

/// The `q` of a `files.list` search: the name, not trashed, optionally the
/// MIME type, optionally the parent folder.
pub open spec fn find_query_of(parent: Option<Seq<char>>, name: Seq<char>, mime: Option<Seq<char>>) -> Seq<char> {
    let base = seq!["name = '"@ + escaped_literal(name) + "'"@, "trashed = false"@];
    let with_mime = match mime {
        Some(m) => base.push("mimeType = '"@ + m + "'"@),
        None => base,
    };
    let clauses = match parent {
        Some(p) => with_mime.push("'"@ + escaped_literal(p) + "' in parents"@),
        None => with_mime,
    };
    join(clauses, " and "@)
}

pub fn find_query(parent: Option<&str>, name: &str, mime: Option<&str>) -> (r: String)
    ensures
        r@ == find_query_of(
            match parent {
                Some(p) => Some(p@),
                None => None,
            },
            name@,
            match mime {
                Some(m) => Some(m@),
                None => None,
            },
        ),
{
    let mut clauses: Vec<Vec<char>> = Vec::new();
    let mut first = chars_of("name = '");
    push_str(&mut first, escape_query_literal(name).as_str());
    push_str(&mut first, "'");
    clauses.push(first);
    clauses.push(chars_of("trashed = false"));
    match mime {
        Some(m) => {
            let mut c = chars_of("mimeType = '");
            push_str(&mut c, m);
            push_str(&mut c, "'");
            clauses.push(c);
        },
        None => {},
    }
    match parent {
        Some(p) => {
            let mut c = chars_of("'");
            push_str(&mut c, escape_query_literal(p).as_str());
            push_str(&mut c, "' in parents");
            clauses.push(c);
        },
        None => {},
    }
    proof {
        let ghost pv = match parent {
            Some(p) => Some(p@),
            None => None::<Seq<char>>,
        };
        let ghost mv = match mime {
            Some(m) => Some(m@),
            None => None::<Seq<char>>,
        };
        let base = seq!["name = '"@ + escaped_literal(name@) + "'"@, "trashed = false"@];
        let with_mime = match mv {
            Some(m) => base.push("mimeType = '"@ + m + "'"@),
            None => base,
        };
        let all = match pv {
            Some(p) => with_mime.push("'"@ + escaped_literal(p) + "' in parents"@),
            None => with_mime,
        };
        assert(views(clauses@) =~= all);
    }
    let and = chars_of(" and ");
    string_from_chars(&join_chars(&clauses, &and))
}


// --- the exchanges with Drive --------------------------------------------------

/// What is wrong with a Drive reply to an attempt to `action`, if anything: a
/// non-2xx status, or a non-blank body that is not JSON. A blank body is an
/// empty answer.
pub open spec fn drive_reply_error(status: u16, status_text: Seq<char>, body: Seq<char>, action: Seq<char>) -> Option<Seq<char>> {
    if !is_success(status) {
        Some(
            "Google Drive returned HTTP "@ + status_text + " trying to "@ + action + ". "@
                + truncated(body, 300),
        )
    } else if is_blank(body) {
        None
    } else {
        match json_error_of(body) {
            Some(detail) => Some("Could not parse the Drive response. "@ + detail),
            None => None,
        }
    }
}

/// Checks a Drive reply: refused exactly when `drive_reply_error` names a
/// problem, with that message.
pub fn read_reply(status: u16, status_text: &str, body: &str, action: &str) -> (r: Result<(), CommandError>)
    ensures
        match drive_reply_error(status, status_text@, body@, action@) {
            Some(m) => r matches Err(e) && e.code@ == "drive_sync_failed"@ && e.message@ == m,
            None => r is Ok,
        },
{
    if !status_is_success(status) {
        let mut m = chars_of("Google Drive returned HTTP ");
        push_str(&mut m, status_text);
        push_str(&mut m, " trying to ");
        push_str(&mut m, action);
        push_str(&mut m, ". ");
        push_str(&mut m, truncate_chars(body, 300).as_str());
        return Err(failure(&m));
    }
    if is_blank_str(body) {
        return Ok(());
    }
    match json_check(body) {
        Ok(()) => Ok(()),
        Err(detail) => {
            let mut m = chars_of("Could not parse the Drive response. ");
            push_str(&mut m, detail.as_str());
            Err(failure(&m))
        },
    }
}

/// A transport failure: `sending` prefixes a failure to deliver the request.
fn exchange_failure(failed: &HttpFailure, sending: &str) -> (e: CommandError)
    ensures
        e.code@ == "drive_sync_failed"@,
{
    let m = match failed.stage {
        HttpStage::Client => chars_of(failed.detail.as_str()),
        HttpStage::Send => {
            let mut m = chars_of(sending);
            push_str(&mut m, failed.detail.as_str());
            m
        },
        HttpStage::Read => {
            let mut m = chars_of("Could not read the Drive response. ");
            push_str(&mut m, failed.detail.as_str());
            m
        },
    };
    failure(&m)
}

/// The metadata of a new Drive file: its name, optionally its MIME type and
/// parent folder (keys in `serde_json`'s sorted order).
pub open spec fn create_metadata_of(parent: Option<Seq<char>>, name: Seq<char>, mime: Option<Seq<char>>) -> Seq<char> {
    let with_mime = match mime {
        Some(m) => "{\"mimeType\":"@ + json_quoted(m) + ","@,
        None => "{"@,
    };
    let with_name = with_mime + "\"name\":"@ + json_quoted(name);
    match parent {
        Some(p) => with_name + ",\"parents\":["@ + json_quoted(p) + "]}"@,
        None => with_name + "}"@,
    }
}

pub fn create_metadata(parent: Option<&str>, name: &str, mime: Option<&str>) -> (r: String)
    ensures
        r@ == create_metadata_of(
            match parent {
                Some(p) => Some(p@),
                None => None,
            },
            name@,
            match mime {
                Some(m) => Some(m@),
                None => None,
            },
        ),
{
    let mut body = match mime {
        Some(m) => {
            let mut b = chars_of("{\"mimeType\":");
            push_str(&mut b, json_quote(m).as_str());
            push_str(&mut b, ",");
            b
        },
        None => chars_of("{"),
    };
    push_str(&mut body, "\"name\":");
    push_str(&mut body, json_quote(name).as_str());
    match parent {
        Some(p) => {
            push_str(&mut body, ",\"parents\":[");
            push_str(&mut body, json_quote(p).as_str());
            push_str(&mut body, "]}");
        },
        None => {
            push_str(&mut body, "}");
        },
    }
    string_from_chars(&body)
}

/// A Drive request to `url` carrying `body`, as plain values: the app's user
/// agent, a thirty-second timeout, the bearer token and, for a body, its
/// content type.
pub open spec fn drive_request(token: Seq<char>, url: Seq<char>, content_type: Option<Seq<char>>, body: Seq<char>) -> (Seq<char>, Seq<char>, u64, Seq<(Seq<char>, Seq<char>)>, Seq<char>) {
    let auth = seq![("Authorization"@, "Bearer "@ + token)];
    (
        url,
        "Scribe/0.1.0"@,
        30u64,
        match content_type {
            Some(t) => auth.push(("Content-Type"@, t)),
            None => auth,
        },
        body,
    )
}

/// The name of the `YYYY-MM` folder of `day`.
pub open spec fn month_of(day: Seq<char>) -> Seq<char> {
    day.take(if day.len() >= 7 { 7 } else { day.len() as int })
}

pub fn month_folder_name(day: &str) -> (r: String)
    ensures
        r@ == month_of(day@),
{
    let d = chars_of(day);
    let month_len: usize = if d.len() >= 7 {
        7
    } else {
        d.len()
    };
    assert(d@.subrange(0, month_len as int) == d@.take(month_len as int));
    string_from_chars(&slice(&d, 0, month_len))
}

/// The file of `day` with `suffix`: `{day}.md` for the daily log,
/// `{day}-organized.md` for the organized notes.
pub fn file_name_for(day: &str, suffix: &str) -> (r: String)
    ensures
        r@ == day@ + suffix@,
{
    let mut name = chars_of(day);
    push_str(&mut name, suffix);
    string_from_chars(&name)
}

/// The writes of a Drive backup: each daily file's content as `{day}.md`
/// into the `month_of(day)` folder, in the order of `files`, as (day, file
/// name, content).
pub fn daily_writes(files: &Vec<DayFile>) -> (w: Vec<(String, String, String)>)
    ensures
        w.len() == files.len(),
        forall|q: int| 0 <= q < files.len() ==> (#[trigger] w@[q]).0@ == files@[q].day@ && w@[q].1@
            == files@[q].day@ + ".md"@ && w@[q].2@ == files@[q].content@,
{
    let mut w: Vec<(String, String, String)> = Vec::new();
    let mut f: usize = 0;
    while f < files.len()
        invariant
            f <= files.len(),
            w.len() == f,
            forall|q: int| 0 <= q < f ==> (#[trigger] w@[q]).0@ == files@[q].day@ && w@[q].1@
                == files@[q].day@ + ".md"@ && w@[q].2@ == files@[q].content@,
        decreases files.len() - f,
    {
        let day = files[f].day.clone();
        let name = file_name_for(files[f].day.as_str(), ".md");
        let content = files[f].content.clone();
        w.push((day, name, content));
        f = f + 1;
    }
    w
}

pub open spec fn opt_view(o: Option<&str>) -> Option<Seq<char>> {
    match o {
        Some(v) => Some(v@),
        None => None,
    }
}

impl Drive {
    /// A request to `url` with this handle's token, and `body` of
    /// `content_type` when given.
    pub fn request(&self, url: String, content_type: Option<&str>, body: String) -> (r: HttpRequest)
        ensures
            request_view(r) == drive_request(self.token@, url@, opt_view(content_type), body@),
    {
        let mut headers: Vec<(String, String)> = Vec::new();
        headers.push(("Authorization".to_string(), self.bearer()));
        match content_type {
            Some(t) => headers.push(("Content-Type".to_string(), t.to_string())),
            None => {},
        }
        let r = HttpRequest { url, user_agent: "Scribe/0.1.0".to_string(), timeout_secs: 30, headers, body };
        proof {
            reveal_strlit("Scribe/0.1.0");
            assert(header_views(r.headers@) =~= drive_request(
                self.token@,
                r.url@,
                opt_view(content_type),
                r.body@,
            ).3);
        }
        r
    }

    /// The search for `name` (of MIME type `mime`, under `parent`):
    /// `GET {api}/files?q=` and the encoded `find_query`.
    pub fn find_request(&self, parent: Option<&str>, name: &str, mime: Option<&str>) -> (r: HttpRequest)
        ensures
            request_view(r) == drive_request(
                self.token@,
                self.api@ + "/files?q="@ + form_encoded(
                    encode_utf8(find_query_of(opt_view(parent), name@, opt_view(mime))),
                ) + "&fields=files(id,name)&spaces=drive&pageSize=10"@,
                None,
                Seq::empty(),
            ),
    {
        let mut url = chars_of(self.api.as_str());
        push_str(&mut url, "/files?q=");
        push_str(&mut url, encode(find_query(parent, name, mime).as_str()).as_str());
        push_str(&mut url, "&fields=files(id,name)&spaces=drive&pageSize=10");
        self.request(string_from_chars(&url), None, String::new())
    }

    /// Creating `name` (of MIME type `mime`, under `parent`):
    /// `POST {api}/files?fields=id` with `create_metadata`.
    pub fn create_request(&self, parent: Option<&str>, name: &str, mime: Option<&str>) -> (r: HttpRequest)
        ensures
            request_view(r) == drive_request(
                self.token@,
                self.api@ + "/files?fields=id"@,
                Some("application/json"@),
                create_metadata_of(opt_view(parent), name@, opt_view(mime)),
            ),
    {
        let mut url = chars_of(self.api.as_str());
        push_str(&mut url, "/files?fields=id");
        self.request(string_from_chars(&url), Some("application/json"), create_metadata(parent, name, mime))
    }

    /// Replacing the content of `file_id`:
    /// `PATCH {upload}/files/{file_id}?uploadType=media` with `content` as
    /// Markdown.
    pub fn upload_request(&self, file_id: &str, content: &str) -> (r: HttpRequest)
        ensures
            request_view(r) == drive_request(
                self.token@,
                self.upload@ + "/files/"@ + file_id@ + "?uploadType=media"@,
                Some("text/markdown; charset=utf-8"@),
                content@,
            ),
    {
        let mut url = chars_of(self.upload.as_str());
        push_str(&mut url, "/files/");
        push_str(&mut url, file_id);
        push_str(&mut url, "?uploadType=media");
        self.request(string_from_chars(&url), Some("text/markdown; charset=utf-8"), content.to_string())
    }

    /// The request view of `find_request`.
    pub open spec fn find_view(self, parent: Option<Seq<char>>, name: Seq<char>, mime: Option<Seq<char>>) -> RequestView {
        drive_request(
            self.token@,
            self.api@ + "/files?q="@ + form_encoded(encode_utf8(find_query_of(parent, name, mime)))
                + "&fields=files(id,name)&spaces=drive&pageSize=10"@,
            None,
            Seq::empty(),
        )
    }

    /// The request view of `create_request`.
    pub open spec fn create_view(self, parent: Option<Seq<char>>, name: Seq<char>, mime: Option<Seq<char>>) -> RequestView {
        drive_request(self.token@, self.api@ + "/files?fields=id"@, Some("application/json"@), create_metadata_of(parent, name, mime))
    }

    /// The request view of `upload_request`.
    pub open spec fn upload_view(self, file_id: Seq<char>, content: Seq<char>) -> RequestView {
        drive_request(
            self.token@,
            self.upload@ + "/files/"@ + file_id + "?uploadType=media"@,
            Some("text/markdown; charset=utf-8"@),
            content,
        )
    }

    /// Exchanges `n` up to `end` looked for `name` and found `id`, or found
    /// nothing and created it as `id`.
    pub open spec fn found_or_created(
        self,
        s: Seq<Exchange>,
        n: int,
        end: int,
        parent: Option<Seq<char>>,
        name: Seq<char>,
        mime: Option<Seq<char>>,
        id: Seq<char>,
    ) -> bool {
        &&& 0 <= n < end <= s.len()
        &&& s[n].0 == Method::Get
        &&& s[n].1 == self.find_view(parent, name, mime)
        &&& accepted(s[n])
        &&& match json_str_at(body_of(s[n]), "/files/0/id"@) {
            Some(found) => end == n + 1 && id == found,
            None => end == n + 2 && s[n + 1].0 == Method::Post && s[n + 1].1 == self.create_view(
                parent,
                name,
                mime,
            ) && accepted(s[n + 1]) && json_str_at(body_of(s[n + 1]), "/id"@) == Some(id),
        }
    }

    /// Exchanges `n` up to `end` wrote `content` to `file_name` in the
    /// `month_of(day)` folder under the folder `root`: the month folder
    /// found or created, the file found or created in it, then its content
    /// uploaded and accepted.
    pub open spec fn wrote_into(
        self,
        s: Seq<Exchange>,
        n: int,
        end: int,
        root: Seq<char>,
        day: Seq<char>,
        file_name: Seq<char>,
        content: Seq<char>,
    ) -> bool {
        exists|m: int, folder: Seq<char>, f: int, file: Seq<char>|
            #[trigger] self.found_or_created(s, n, m, Some(root), month_of(day), Some(FOLDER_MIME@), folder)
                && #[trigger] self.found_or_created(s, m, f, Some(folder), file_name, None, file)
                && f + 1 == end && end <= s.len() && s[f].0 == Method::Patch && s[f].1
                == self.upload_view(file, content) && accepted(s[f])
    }

    /// The daily `files` were written under the folder `root`, in order,
    /// file `q` by exchanges `bounds[q]` up to `bounds[q + 1]`, and nothing
    /// else was sent after `bounds[0]`.
    pub open spec fn wrote_days(
        self,
        s: Seq<Exchange>,
        root: Seq<char>,
        files: Seq<DayFile>,
        bounds: Seq<int>,
    ) -> bool {
        &&& bounds.len() == files.len() + 1
        &&& bounds.last() == s.len()
        &&& forall|q: int|
            0 <= q < files.len() ==> #[trigger] self.wrote_into(
                s,
                bounds[q],
                bounds[q + 1],
                root,
                files[q].day@,
                files[q].day@ + ".md"@,
                files[q].content@,
            )
    }

    proof fn lemma_found_kept(
        self,
        s: Seq<Exchange>,
        s2: Seq<Exchange>,
        n: int,
        end: int,
        parent: Option<Seq<char>>,
        name: Seq<char>,
        mime: Option<Seq<char>>,
        id: Seq<char>,
    )
        requires
            extends(s, s2),
            self.found_or_created(s, n, end, parent, name, mime, id),
        ensures
            self.found_or_created(s2, n, end, parent, name, mime, id),
    {
        lemma_extends_keeps(s, s2);
        assert(s2[n] == s[n]);
        if end == n + 2 {
            assert(s2[n + 1] == s[n + 1]);
        }
    }

    proof fn lemma_wrote_kept(
        self,
        s: Seq<Exchange>,
        s2: Seq<Exchange>,
        n: int,
        end: int,
        root: Seq<char>,
        day: Seq<char>,
        file_name: Seq<char>,
        content: Seq<char>,
    )
        requires
            extends(s, s2),
            self.wrote_into(s, n, end, root, day, file_name, content),
        ensures
            self.wrote_into(s2, n, end, root, day, file_name, content),
    {
        let (m, folder, f, file) = choose|m: int, folder: Seq<char>, f: int, file: Seq<char>|
            #[trigger] self.found_or_created(s, n, m, Some(root), month_of(day), Some(FOLDER_MIME@), folder)
                && #[trigger] self.found_or_created(s, m, f, Some(folder), file_name, None, file)
                && f + 1 == end && end <= s.len() && s[f].0 == Method::Patch && s[f].1
                == self.upload_view(file, content) && accepted(s[f]);
        self.lemma_found_kept(s, s2, n, m, Some(root), month_of(day), Some(FOLDER_MIME@), folder);
        self.lemma_found_kept(s, s2, m, f, Some(folder), file_name, None, file);
        lemma_extends_keeps(s, s2);
        assert(s2[f] == s[f]);
    }

    /// Sends the read `req`; the body of a successful reply.
    fn get_json(&self, req: &HttpRequest, log: &mut SentLog) -> (r: Result<String, CommandError>)
        requires
            req.timeout_secs <= MAX_TIMEOUT_SECS,
        ensures
            one_more(old(log).sent(), final(log).sent(), Method::Get, request_view(*req)),
            r matches Ok(body) ==> accepted(final(log).sent().last()) && body@ == body_of(final(log).sent().last()),
            r matches Err(e) ==> e.code@ == "drive_sync_failed"@,
    {
        let reply = match http_get(req, log) {
            Ok(reply) => reply,
            Err(failed) => return Err(exchange_failure(&failed, "Could not reach Google Drive. ")),
        };
        read_reply(reply.status, reply.status_text.as_str(), reply.body.as_str(), "query Google Drive")?;
        Ok(reply.body)
    }

    /// The id of the first file named `name` (optionally of MIME type `mime`,
    /// optionally under `parent`), `None` when there is none: the reply to
    /// `find_request`.
    pub fn find(&self, parent: Option<&str>, name: &str, mime: Option<&str>, log: &mut SentLog) -> (r: Result<
        Option<String>,
        CommandError,
    >)
        ensures
            one_more(old(log).sent(), final(log).sent(), Method::Get, self.find_view(opt_view(parent), name@, opt_view(mime))),
            r matches Ok(found) ==> accepted(final(log).sent().last()) && json_str_at(
                body_of(final(log).sent().last()),
                "/files/0/id"@,
            ) == match found {
                Some(id) => Some(id@),
                None => None,
            },
            r matches Err(e) ==> e.code@ == "drive_sync_failed"@,
    {
        let body = self.get_json(&self.find_request(parent, name, mime), log)?;
        proof {
            reveal_strlit("/files/0/id");
        }
        Ok(json_lookup_str(body.as_str(), "/files/0/id"))
    }

    /// Creates a file or folder named `name` with `create_request` and
    /// returns its id.
    pub fn create(&self, parent: Option<&str>, name: &str, mime: Option<&str>, log: &mut SentLog) -> (r: Result<
        String,
        CommandError,
    >)
        ensures
            one_more(old(log).sent(), final(log).sent(), Method::Post, self.create_view(opt_view(parent), name@, opt_view(mime))),
            r matches Ok(id) ==> accepted(final(log).sent().last()) && json_str_at(
                body_of(final(log).sent().last()),
                "/id"@,
            ) == Some(id@),
            r matches Err(e) ==> e.code@ == "drive_sync_failed"@,
    {
        let reply = match http_post(&self.create_request(parent, name, mime), log) {
            Ok(reply) => reply,
            Err(failed) => return Err(exchange_failure(&failed, "Could not reach Google Drive. ")),
        };
        read_reply(reply.status, reply.status_text.as_str(), reply.body.as_str(), "create a Drive file")?;
        proof {
            reveal_strlit("/id");
        }
        match json_lookup_str(reply.body.as_str(), "/id") {
            Some(id) => Ok(id),
            None => Err(failure(&chars_of("Google Drive did not return a file id."))),
        }
    }

    /// Replaces the content of file `file_id` with `content` by
    /// `upload_request`.
    pub fn upload_text(&self, file_id: &str, content: &str, log: &mut SentLog) -> (r: Result<(), CommandError>)
        ensures
            one_more(old(log).sent(), final(log).sent(), Method::Patch, self.upload_view(file_id@, content@)),
            r is Ok ==> accepted(final(log).sent().last()),
            r matches Err(e) ==> e.code@ == "drive_sync_failed"@,
    {
        let reply = match http_patch(&self.upload_request(file_id, content), log) {
            Ok(reply) => reply,
            Err(failed) => return Err(exchange_failure(&failed, "Could not upload to Google Drive. ")),
        };
        read_reply(reply.status, reply.status_text.as_str(), reply.body.as_str(), "upload Drive file content")
    }

    /// The file `name` of MIME type `mime` under `parent`: the one found,
    /// else a new one.
    fn find_or_create(&self, parent: Option<&str>, name: &str, mime: Option<&str>, log: &mut SentLog) -> (r: Result<
        String,
        CommandError,
    >)
        ensures
            extends(old(log).sent(), final(log).sent()),
            r matches Ok(id) ==> self.found_or_created(
                final(log).sent(),
                old(log).sent().len() as int,
                final(log).sent().len() as int,
                opt_view(parent),
                name@,
                opt_view(mime),
                id@,
            ),
            r matches Err(e) ==> e.code@ == "drive_sync_failed"@,
    {
        let ghost start = log.sent();
        let found = self.find(parent, name, mime, log);
        let ghost s1 = log.sent();
        proof {
            lemma_one_more_extends(start, s1, Method::Get, self.find_view(opt_view(parent), name@, opt_view(mime)));
            assert(s1[start.len() as int] == s1.last());
        }
        match found? {
            Some(id) => Ok(id),
            None => {
                let made = self.create(parent, name, mime, log);
                proof {
                    let s2 = log.sent();
                    lemma_one_more_extends(s1, s2, Method::Post, self.create_view(opt_view(parent), name@, opt_view(mime)));
                    lemma_extends_trans(start, s1, s2);
                    lemma_extends_keeps(s1, s2);
                    assert(s2[start.len() as int] == s1[start.len() as int]);
                    assert(s2[start.len() as int + 1] == s2.last());
                }
                made
            },
        }
    }

    /// The folder `name` (under `parent`), created when absent.
    pub fn ensure_folder(&self, parent: Option<&str>, name: &str, log: &mut SentLog) -> (r: Result<String, CommandError>)
        ensures
            extends(old(log).sent(), final(log).sent()),
            r matches Ok(id) ==> self.found_or_created(
                final(log).sent(),
                old(log).sent().len() as int,
                final(log).sent().len() as int,
                opt_view(parent),
                name@,
                Some(FOLDER_MIME@),
                id@,
            ),
            r matches Err(e) ==> e.code@ == "drive_sync_failed"@,
    {
        self.find_or_create(parent, name, Some(FOLDER_MIME), log)
    }

    /// Writes `content` to `file_name` in the `month_of(day)` folder under
    /// `root`, creating the folder and the file as needed.
    pub fn write_into_month(&self, root: &str, day: &str, file_name: &str, content: &str, log: &mut SentLog) -> (r: Result<
        (),
        CommandError,
    >)
        ensures
            extends(old(log).sent(), final(log).sent()),
            r is Ok ==> self.wrote_into(
                final(log).sent(),
                old(log).sent().len() as int,
                final(log).sent().len() as int,
                root@,
                day@,
                file_name@,
                content@,
            ),
            r matches Err(e) ==> e.code@ == "drive_sync_failed"@,
    {
        let ghost start = log.sent();
        let month = month_folder_name(day);
        let month_folder = self.ensure_folder(Some(root), month.as_str(), log)?;
        let ghost s1 = log.sent();
        let file = self.find_or_create(Some(month_folder.as_str()), file_name, None, log);
        let ghost s2 = log.sent();
        proof {
            lemma_extends_trans(start, s1, s2);
        }
        let file_id = file?;
        let uploaded = self.upload_text(file_id.as_str(), content, log);
        proof {
            let s3 = log.sent();
            lemma_one_more_extends(s2, s3, Method::Patch, self.upload_view(file_id@, content@));
            lemma_extends_trans(s1, s2, s3);
            lemma_extends_trans(start, s1, s3);
            self.lemma_found_kept(s1, s3, start.len() as int, s1.len() as int, Some(root@), month_of(day@), Some(FOLDER_MIME@), month_folder@);
            self.lemma_found_kept(s2, s3, s1.len() as int, s2.len() as int, Some(month_folder@), file_name@, None, file_id@);
            assert(s3[s2.len() as int] == s3.last());
        }
        uploaded?;
        Ok(())
    }

    /// Writes the end-of-day organized Markdown of `day` as
    /// `{day}-organized.md` beside the day's log, under the notes folder.
    pub fn write_organized(&self, day: &str, content: &str, log: &mut SentLog) -> (r: Result<(), CommandError>)
        ensures
            extends(old(log).sent(), final(log).sent()),
            r is Ok ==> exists|root_end: int, root: Seq<char>|
                #[trigger] self.found_or_created(
                    final(log).sent(),
                    old(log).sent().len() as int,
                    root_end,
                    None,
                    ROOT_FOLDER_NAME@,
                    Some(FOLDER_MIME@),
                    root,
                ) && self.wrote_into(
                    final(log).sent(),
                    root_end,
                    final(log).sent().len() as int,
                    root,
                    day@,
                    day@ + "-organized.md"@,
                    content@,
                ),
            r matches Err(e) ==> e.code@ == "drive_sync_failed"@,
    {
        let ghost start = log.sent();
        let root = self.ensure_folder(None, ROOT_FOLDER_NAME, log)?;
        let ghost s1 = log.sent();
        let name = file_name_for(day, "-organized.md");
        let written = self.write_into_month(root.as_str(), day, name.as_str(), content, log);
        proof {
            let s2 = log.sent();
            lemma_extends_trans(start, s1, s2);
            self.lemma_found_kept(s1, s2, start.len() as int, s1.len() as int, None, ROOT_FOLDER_NAME@, Some(FOLDER_MIME@), root@);
        }
        written
    }

    /// Performs the `daily_writes` of the `day_files` of `entries`, in
    /// order, under the root folder named `root_name`. The report counts
    /// every entry and every file written.
    fn sync_days(&self, entries: &Vec<Transcript>, root_name: &str, with_summary: bool, log: &mut SentLog) -> (r: Result<
        SyncReport,
        CommandError,
    >)
        requires
            entries.len() <= u32::MAX,
        ensures
            extends(old(log).sent(), final(log).sent()),
            r matches Ok(report) ==> report.synced_notes == entries.len() && exists|
                root_end: int,
                root: Seq<char>,
                files: Seq<DayFile>,
                bounds: Seq<int>,
            |
                #[trigger] self.found_or_created(
                    final(log).sent(),
                    old(log).sent().len() as int,
                    root_end,
                    None,
                    root_name@,
                    Some(FOLDER_MIME@),
                    root,
                ) && #[trigger] self.wrote_days(final(log).sent(), root, files, bounds) && bounds[0] == root_end
                    && backup_files(entries@, with_summary, files) && report.files_written == files.len(),
            r matches Err(e) ==> e.code@ == "drive_sync_failed"@,
    {
        let ghost start = log.sent();
        let root = self.ensure_folder(None, root_name, log)?;
        let ghost root_end = log.sent().len() as int;
        let files = day_files(entries, with_summary);
        let writes = daily_writes(&files);
        let mut written: u32 = 0;
        let mut synced: u32 = 0;
        let mut f: usize = 0;
        let ghost mut bounds: Seq<int> = seq![root_end];
        assert(self.wrote_days(log.sent(), root@, files@.take(0), bounds));
        while f < files.len()
            invariant
                total_entries(files@) == entries.len(),
                files.len() <= entries.len(),
                forall|q: int| 0 <= q < files.len() ==> (#[trigger] files@[q]).entries >= 1,
                f <= files.len(),
                written == f,
                written <= synced,
                synced == total_entries(files@.take(f as int)),
                entries.len() <= u32::MAX,
                writes.len() == files.len(),
                forall|q: int| 0 <= q < files.len() ==> (#[trigger] writes@[q]).0@ == files@[q].day@ && writes@[q].1@
                    == files@[q].day@ + ".md"@ && writes@[q].2@ == files@[q].content@,
                start == old(log).sent(),
                extends(start, log.sent()),
                self.found_or_created(log.sent(), start.len() as int, root_end, None, root_name@, Some(FOLDER_MIME@), root@),
                self.wrote_days(log.sent(), root@, files@.take(f as int), bounds),
                bounds[0] == root_end,
            decreases files.len() - f,
        {
            let ghost before = log.sent();
            let wrote = self.write_into_month(root.as_str(), writes[f].0.as_str(), writes[f].1.as_str(), writes[f].2.as_str(), log);
            proof {
                lemma_extends_trans(start, before, log.sent());
            }
            wrote?;
            proof {
                let s = log.sent();
                let old_files = files@.take(f as int);
                let new_files = files@.take(f as int + 1);
                let nb = bounds.push(s.len() as int);
                assert forall|q: int| 0 <= q < old_files.len() implies #[trigger] self.wrote_into(
                    s,
                    nb[q],
                    nb[q + 1],
                    root@,
                    new_files[q].day@,
                    new_files[q].day@ + ".md"@,
                    new_files[q].content@,
                ) by {
                    assert(new_files[q] == old_files[q]);
                    assert(nb[q] == bounds[q] && nb[q + 1] == bounds[q + 1]);
                    assert(self.wrote_into(before, bounds[q], bounds[q + 1], root@, old_files[q].day@, old_files[q].day@ + ".md"@, old_files[q].content@));
                    self.lemma_wrote_kept(before, s, bounds[q], bounds[q + 1], root@, old_files[q].day@, old_files[q].day@ + ".md"@, old_files[q].content@);
                }
                assert(new_files[f as int] == files@[f as int]);
                assert(nb[f as int] == before.len());
                assert(self.wrote_into(s, nb[f as int], nb[f as int + 1], root@, new_files[f as int].day@, new_files[f as int].day@ + ".md"@, new_files[f as int].content@));
                assert(self.wrote_days(s, root@, new_files, nb));
                self.lemma_found_kept(before, s, start.len() as int, root_end, None, root_name@, Some(FOLDER_MIME@), root@);
                lemma_extends_trans(start, before, s);
                bounds = nb;
                assert(files@.take(f as int + 1).drop_last() == files@.take(f as int));
                lemma_total_entries_prefix(files@, f as int + 1);
            }
            written = written + 1;
            synced = synced + (files[f].entries as u32);
            f = f + 1;
        }
        assert(files@.take(files.len() as int) == files@);
        assert(backup_files(entries@, with_summary, files@));
        Ok(SyncReport { synced_notes: synced, files_written: written })
    }

    /// Writes each note into its day's `YYYY-MM/YYYY-MM-DD.md` under
    /// "Scribe Voice Notes", with summaries, as `wrote_days` states.
    pub fn sync_notes(&self, notes: &Vec<Transcript>, log: &mut SentLog) -> (r: Result<SyncReport, CommandError>)
        requires
            notes.len() <= u32::MAX,
        ensures
            extends(old(log).sent(), final(log).sent()),
            r matches Ok(report) ==> report.synced_notes == notes.len() && exists|
                root_end: int,
                root: Seq<char>,
                files: Seq<DayFile>,
                bounds: Seq<int>,
            |
                #[trigger] self.found_or_created(
                    final(log).sent(),
                    old(log).sent().len() as int,
                    root_end,
                    None,
                    ROOT_FOLDER_NAME@,
                    Some(FOLDER_MIME@),
                    root,
                ) && #[trigger] self.wrote_days(final(log).sent(), root, files, bounds) && bounds[0] == root_end
                    && backup_files(notes@, true, files) && report.files_written == files.len(),
            r matches Err(e) ==> e.code@ == "drive_sync_failed"@,
    {
        self.sync_days(notes, ROOT_FOLDER_NAME, true, log)
    }

    /// Backs up every transcript under "Scribe Transcripts", one daily file
    /// per local day, without summaries, as `wrote_days` states.
    pub fn sync_all_transcripts(&self, transcripts: &Vec<Transcript>, log: &mut SentLog) -> (r: Result<
        SyncReport,
        CommandError,
    >)
        requires
            transcripts.len() <= u32::MAX,
        ensures
            extends(old(log).sent(), final(log).sent()),
            r matches Ok(report) ==> report.synced_notes == transcripts.len() && exists|
                root_end: int,
                root: Seq<char>,
                files: Seq<DayFile>,
                bounds: Seq<int>,
            |
                #[trigger] self.found_or_created(
                    final(log).sent(),
                    old(log).sent().len() as int,
                    root_end,
                    None,
                    TRANSCRIPTS_ROOT_FOLDER_NAME@,
                    Some(FOLDER_MIME@),
                    root,
                ) && #[trigger] self.wrote_days(final(log).sent(), root, files, bounds) && bounds[0] == root_end
                    && backup_files(transcripts@, false, files) && report.files_written == files.len(),
            r matches Err(e) ==> e.code@ == "drive_sync_failed"@,
    {
        self.sync_days(transcripts, TRANSCRIPTS_ROOT_FOLDER_NAME, false, log)
    }
}

} // verus!
