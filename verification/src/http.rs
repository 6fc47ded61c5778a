//! Blocking HTTP exchanges through reqwest. What a remote server answers is
//! outside the library's knowledge, so nothing is claimed of a reply; what is
//! sent is fixed by the request value the caller builds, and every exchange
//! is recorded, with its outcome, in the caller's `SentLog`.
use vstd::prelude::*;

use std::time::Duration;

verus! {

/// One request: where, with which headers and body, and how long to wait.
pub struct HttpRequest {
    pub url: String,
    pub user_agent: String,
    pub timeout_secs: u64,
    pub headers: Vec<(String, String)>,
    pub body: String,
}

/// A completed exchange: the status code, its display form ("404 Not Found")
/// and the body text.
pub struct HttpReply {
    pub status: u16,
    pub status_text: String,
    pub body: String,
}

/// Where an exchange broke off.
#[derive(Debug, Clone, Copy, PartialEq, Eq, Structural)]
pub enum HttpStage {
    /// The client could not be built.
    Client,
    /// The request did not reach the server or got no answer.
    Send,
    /// The answer's body could not be read.
    Read,
}

/// A failed exchange: the stage and reqwest's error display text.
pub struct HttpFailure {
    pub stage: HttpStage,
    pub detail: String,
}

/// The longest wait a request may ask for (a year). reqwest's blocking
/// client adds the timeout to the current instant unchecked, so a huge one
/// would overflow.
pub const MAX_TIMEOUT_SECS: u64 = 31_536_000;

/// A request as plain values: URL, user agent, timeout, headers and body.
pub open spec fn request_view(r: HttpRequest) -> (Seq<char>, Seq<char>, u64, Seq<(Seq<char>, Seq<char>)>, Seq<char>) {
    (r.url@, r.user_agent@, r.timeout_secs, header_views(r.headers@), r.body@)
}

pub open spec fn header_views(h: Seq<(String, String)>) -> Seq<(Seq<char>, Seq<char>)> {
    h.map_values(|p: (String, String)| (p.0@, p.1@))
}

/// A request as plain values (see `request_view`).
pub type RequestView = (Seq<char>, Seq<char>, u64, Seq<(Seq<char>, Seq<char>)>, Seq<char>);

/// The HTTP method of an exchange.
#[derive(Debug, Clone, Copy, PartialEq, Eq, Structural)]
pub enum Method {
    Get,
    Post,
    Put,
    Patch,
}

/// One exchange as the log keeps it: the method, the request, and the
/// reply's status and body (`None` when the exchange broke off).
pub type Exchange = (Method, RequestView, Option<(u16, Seq<char>)>);

/// The exchange `req` made with `method` and its outcome `r`.
pub open spec fn exchange_of(method: Method, req: HttpRequest, r: Result<HttpReply, HttpFailure>) -> Exchange {
    (
        method,
        request_view(req),
        match r {
            Ok(reply) => Some((reply.status, reply.body@)),
            Err(_) => None,
        },
    )
}

/// `after` holds what `before` holds, and possibly more after it.
pub open spec fn extends(before: Seq<Exchange>, after: Seq<Exchange>) -> bool {
    before.len() <= after.len() && after.take(before.len() as int) == before
}

/// `after` is `before` and one exchange more: `method` with the request `req`.
pub open spec fn one_more(before: Seq<Exchange>, after: Seq<Exchange>, method: Method, req: RequestView) -> bool {
    &&& after == before.push(after.last())
    &&& after.last().0 == method
    &&& after.last().1 == req
}

/// The exchange got a reply with a 2xx status.
pub open spec fn accepted(e: Exchange) -> bool {
    match e.2 {
        Some(reply) => is_success(reply.0),
        None => false,
    }
}

/// The status of the exchange's reply (meaningful when it got one).
pub open spec fn status_of(e: Exchange) -> u16 {
    match e.2 {
        Some(reply) => reply.0,
        None => 0,
    }
}

/// The body of the exchange's reply (meaningful when it got one).
pub open spec fn body_of(e: Exchange) -> Seq<char> {
    match e.2 {
        Some(reply) => reply.1,
        None => Seq::empty(),
    }
}

/// What a log held stays where it was as the log grows.
pub proof fn lemma_extends_keeps(before: Seq<Exchange>, after: Seq<Exchange>)
    requires
        extends(before, after),
    ensures
        forall|k: int| 0 <= k < before.len() ==> #[trigger] after[k] == before[k],
{
    assert forall|k: int| 0 <= k < before.len() implies #[trigger] after[k] == before[k] by {
        assert(after.take(before.len() as int)[k] == after[k]);
    }
}

/// A log extends itself.
pub proof fn lemma_extends_refl(s: Seq<Exchange>)
    ensures
        extends(s, s),
{
    assert(s.take(s.len() as int) =~= s);
}

/// Growing a log twice grows it.
pub proof fn lemma_extends_trans(a: Seq<Exchange>, b: Seq<Exchange>, c: Seq<Exchange>)
    requires
        extends(a, b),
        extends(b, c),
    ensures
        extends(a, c),
{
    lemma_extends_keeps(a, b);
    lemma_extends_keeps(b, c);
    assert(c.take(a.len() as int) =~= a);
}

/// One more exchange grows the log.
pub proof fn lemma_one_more_extends(before: Seq<Exchange>, after: Seq<Exchange>, method: Method, req: RequestView)
    requires
        one_more(before, after, method, req),
    ensures
        extends(before, after),
{
    assert(after.take(before.len() as int) =~= before);
}

/// The exchanges handed to the HTTP client through one log, in order. Only
/// the exchange functions of this module add to it.
pub struct SentLog {
    exchanges: Ghost<Seq<Exchange>>,
}

impl SentLog {
    pub closed spec fn sent(&self) -> Seq<Exchange> {
        self.exchanges@
    }

    /// A log with nothing sent.
    pub fn new() -> (l: SentLog)
        ensures
            l.sent() == Seq::<Exchange>::empty(),
    {
        SentLog { exchanges: Ghost(Seq::empty()) }
    }
}

/// A 2xx status (`StatusCode::is_success`).
pub open spec fn is_success(status: u16) -> bool {
    200 <= status && status < 300
}

pub fn status_is_success(status: u16) -> (r: bool)
    ensures
        r == is_success(status),
{
    200 <= status && status < 300
}

/// A failed exchange at `stage`, with reqwest's error text.
pub fn http_failure(stage: HttpStage, detail: String) -> (f: HttpFailure)
    ensures
        f.stage == stage,
        f.detail == detail,
{
    HttpFailure { stage, detail }
}

/// GET `req.url` with `req`'s user agent, headers and timeout
/// (`reqwest::blocking::Client` builder, `get`, `send`, `text`). The body of
/// `req` is not sent. Claimed: the exchange is added to `log`; nothing is
/// claimed of the outcome, the remote server's answer or the transport
/// error.
#[verifier::external_body]
pub(crate) fn http_get(req: &HttpRequest, log: &mut SentLog) -> (r: Result<HttpReply, HttpFailure>)
    requires
        req.timeout_secs <= MAX_TIMEOUT_SECS,
    ensures
        final(log).sent() == old(log).sent().push(exchange_of(Method::Get, *req, r)),
{
    let client = reqwest::blocking::Client::builder().user_agent(&req.user_agent).build()
        .map_err(|e| http_failure(HttpStage::Client, e.to_string()))?;
    let mut builder = client.get(&req.url).timeout(Duration::from_secs(req.timeout_secs));
    for (name, value) in req.headers.iter() { builder = builder.header(name, value); }
    let response = builder.send().map_err(|e| http_failure(HttpStage::Send, e.to_string()))?;
    let status = response.status();
    let body = response.text().map_err(|e| http_failure(HttpStage::Read, e.to_string()))?;
    Ok(HttpReply { status: status.as_u16(), status_text: status.to_string(), body })
}

/// POST `req.body` to `req.url` with `req`'s user agent, headers and timeout
/// (`reqwest::blocking::Client` builder, `post`, `body`, `send`, `text`).
/// Claimed: the exchange is added to `log`; nothing is claimed of the
/// outcome, the remote server's answer or the transport error.
#[verifier::external_body]
pub(crate) fn http_post(req: &HttpRequest, log: &mut SentLog) -> (r: Result<HttpReply, HttpFailure>)
    requires
        req.timeout_secs <= MAX_TIMEOUT_SECS,
    ensures
        final(log).sent() == old(log).sent().push(exchange_of(Method::Post, *req, r)),
{
    let client = reqwest::blocking::Client::builder().user_agent(&req.user_agent).build()
        .map_err(|e| http_failure(HttpStage::Client, e.to_string()))?;
    let mut builder = client.post(&req.url).timeout(Duration::from_secs(req.timeout_secs));
    for (name, value) in req.headers.iter() { builder = builder.header(name, value); }
    let response = builder.body(req.body.clone()).send()
        .map_err(|e| http_failure(HttpStage::Send, e.to_string()))?;
    let status = response.status();
    let body = response.text().map_err(|e| http_failure(HttpStage::Read, e.to_string()))?;
    Ok(HttpReply { status: status.as_u16(), status_text: status.to_string(), body })
}

/// PUT `req.body` to `req.url` with `req`'s user agent, headers and timeout
/// (`reqwest::blocking::Client` builder, `put`, `body`, `send`, `text`).
/// Claimed: the exchange is added to `log`; nothing is claimed of the
/// outcome, the remote server's answer or the transport error.
#[verifier::external_body]
pub(crate) fn http_put(req: &HttpRequest, log: &mut SentLog) -> (r: Result<HttpReply, HttpFailure>)
    requires
        req.timeout_secs <= MAX_TIMEOUT_SECS,
    ensures
        final(log).sent() == old(log).sent().push(exchange_of(Method::Put, *req, r)),
{
    let client = reqwest::blocking::Client::builder().user_agent(&req.user_agent).build()
        .map_err(|e| http_failure(HttpStage::Client, e.to_string()))?;
    let mut builder = client.put(&req.url).timeout(Duration::from_secs(req.timeout_secs));
    for (name, value) in req.headers.iter() { builder = builder.header(name, value); }
    let response = builder.body(req.body.clone()).send()
        .map_err(|e| http_failure(HttpStage::Send, e.to_string()))?;
    let status = response.status();
    let body = response.text().map_err(|e| http_failure(HttpStage::Read, e.to_string()))?;
    Ok(HttpReply { status: status.as_u16(), status_text: status.to_string(), body })
}

/// PATCH `req.body` to `req.url` with `req`'s user agent, headers and
/// timeout (`reqwest::blocking::Client` builder, `patch`, `body`, `send`,
/// `text`). Claimed: the exchange is added to `log`; nothing is claimed of
/// the outcome, the remote server's answer or the transport error.
#[verifier::external_body]
pub(crate) fn http_patch(req: &HttpRequest, log: &mut SentLog) -> (r: Result<HttpReply, HttpFailure>)
    requires
        req.timeout_secs <= MAX_TIMEOUT_SECS,
    ensures
        final(log).sent() == old(log).sent().push(exchange_of(Method::Patch, *req, r)),
{
    let client = reqwest::blocking::Client::builder().user_agent(&req.user_agent).build()
        .map_err(|e| http_failure(HttpStage::Client, e.to_string()))?;
    let mut builder = client.patch(&req.url).timeout(Duration::from_secs(req.timeout_secs));
    for (name, value) in req.headers.iter() { builder = builder.header(name, value); }
    let response = builder.body(req.body.clone()).send()
        .map_err(|e| http_failure(HttpStage::Send, e.to_string()))?;
    let status = response.status();
    let body = response.text().map_err(|e| http_failure(HttpStage::Read, e.to_string()))?;
    Ok(HttpReply { status: status.as_u16(), status_text: status.to_string(), body })
}

} // verus!
