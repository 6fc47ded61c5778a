//! GitHub App device flow for the notes backup: request a device code, poll
//! until the user authorizes, and keep the access token fresh. GitHub answers
//! HTTP 200 even while authorization is pending, so polling branches on the
//! reply's `error` field, not on the status code.
use vstd::prelude::*;

use crate::error::CommandError;
use vstd::string::StringSliceAdditionalSpecFns;
use crate::http::{
    header_views, http_post, SentLog, is_success, request_view, status_is_success, HttpFailure, HttpRequest,
    HttpStage,
};
use crate::json::{
    json_check, json_error_of, json_lookup_present, json_lookup_str, json_lookup_u64,
    json_present_at, json_str_at, json_u64_at,
};
use crate::text::{
    chars_of, push_str, string_from_chars, trim_start, truncate_chars, truncated,
};

verus! {

pub const CREDENTIAL_VERSION: u8 = 1;

/// Refresh this long before expiry so no request starts with a dying token.
pub const REFRESH_WINDOW_SECS: u64 = 300;

/// Device codes expire after about 15 minutes; polling stops after that.
pub const POLL_TIMEOUT_SECS: u64 = 900;

pub const HTTP_TIMEOUT_SECS: u64 = 30;

/// The stored access token, with its refresh token and expiry times for
/// expiring GitHub App user tokens.
#[derive(Debug, Clone)]
pub struct StoredCredential {
    pub version: u8,
    pub access_token: String,
    pub refresh_token: Option<String>,
    pub expires_at: Option<u64>,
    pub refresh_token_expires_at: Option<u64>,
}

/// `a + b`, saturating at `u64::MAX`.
pub open spec fn sat_add(a: u64, b: u64) -> u64 {
    if a + b > u64::MAX {
        u64::MAX
    } else {
        (a + b) as u64
    }
}

pub fn saturating_add(a: u64, b: u64) -> (r: u64)
    ensures
        r == sat_add(a, b),
{
    if a > u64::MAX - b {
        u64::MAX
    } else {
        a + b
    }
}

impl StoredCredential {
    /// A raw, non-expiring OAuth token saved by earlier builds.
    pub fn legacy(access_token: String) -> (c: Self)
        ensures
            c.version == CREDENTIAL_VERSION,
            c.access_token == access_token,
            c.refresh_token is None,
            c.expires_at is None,
            c.refresh_token_expires_at is None,
    {
        StoredCredential {
            version: CREDENTIAL_VERSION,
            access_token,
            refresh_token: None,
            expires_at: None,
            refresh_token_expires_at: None,
        }
    }

    /// The token expires within the refresh window of `now`.
    pub open spec fn refresh_due(self, now: u64) -> bool {
        match self.expires_at {
            Some(at) => at <= sat_add(now, REFRESH_WINDOW_SECS),
            None => false,
        }
    }

    pub fn needs_refresh(&self, now: u64) -> (r: bool)
        ensures
            r == self.refresh_due(now),
    {
        match self.expires_at {
            Some(at) => at <= saturating_add(now, REFRESH_WINDOW_SECS),
            None => false,
        }
    }
}

// --- the registry of running device-flow polls ------------------------------

/// The device code of the last entry for `code` (later entries win).
pub open spec fn lookup(s: Seq<(String, u64)>, code: Seq<char>) -> Option<u64>
    decreases s.len(),
{
    if s.len() == 0 {
        None
    } else if s.last().0@ == code {
        Some(s.last().1)
    } else {
        lookup(s.drop_last(), code)
    }
}

/// `s` with every entry for `code` removed.
pub open spec fn without(s: Seq<(String, u64)>, code: Seq<char>) -> Seq<(String, u64)>
    decreases s.len(),
{
    if s.len() == 0 {
        s
    } else {
        let rest = without(s.drop_last(), code);
        if s.last().0@ == code {
            rest
        } else {
            rest.push(s.last())
        }
    }
}

pub proof fn lemma_lookup_without(s: Seq<(String, u64)>, code: Seq<char>, other: Seq<char>)
    ensures
        lookup(without(s, code), other) == if other == code {
            None
        } else {
            lookup(s, other)
        },
    decreases s.len(),
{
    if s.len() > 0 {
        lemma_lookup_without(s.drop_last(), code, other);
        let rest = without(s.drop_last(), code);
        if s.last().0@ != code {
            assert(rest.push(s.last()).drop_last() == rest);
        }
    }
}

pub proof fn lemma_without_bounded(s: Seq<(String, u64)>, code: Seq<char>, bound: u64)
    requires
        forall|i: int| 0 <= i < s.len() ==> s[i].1 < bound,
    ensures
        forall|i: int| 0 <= i < without(s, code).len() ==> without(s, code)[i].1 < bound,
    decreases s.len(),
{
    if s.len() > 0 {
        let t = s.drop_last();
        assert forall|i: int| 0 <= i < t.len() implies t[i].1 < bound by {
            assert(t[i] == s[i]);
        }
        lemma_without_bounded(t, code, bound);
        let rest = without(t, code);
        if s.last().0@ != code {
            assert forall|i: int| 0 <= i < rest.push(s.last()).len() implies rest.push(
                s.last(),
            )[i].1 < bound by {
                if i < rest.len() {
                    assert(rest.push(s.last())[i] == rest[i]);
                } else {
                    assert(s.last() == s[s.len() - 1]);
                }
            }
        }
    }
}

pub proof fn lemma_lookup_bounded(s: Seq<(String, u64)>, code: Seq<char>, bound: u64)
    requires
        forall|i: int| 0 <= i < s.len() ==> s[i].1 < bound,
    ensures
        lookup(s, code) matches Some(id) ==> id < bound,
    decreases s.len(),
{
    if s.len() > 0 {
        let t = s.drop_last();
        assert forall|i: int| 0 <= i < t.len() implies t[i].1 < bound by {
            assert(t[i] == s[i]);
        }
        lemma_lookup_bounded(t, code, bound);
        assert(s.last() == s[s.len() - 1]);
    }
}

/// The device-flow polls in progress, keyed by GitHub's opaque device code.
/// Each `start` hands out a fresh flag; `cancel` raises that flag so the poll
/// stops both polling and saving the credential.
pub struct DeviceFlowRegistry {
    attempts: Vec<(String, u64)>,
    next_flag: u64,
    cancelled: Vec<u64>,
}

impl DeviceFlowRegistry {
    #[verifier::type_invariant]
    spec fn flags_issued(self) -> bool {
        &&& forall|i: int| 0 <= i < self.attempts@.len() ==> self.attempts@[i].1 < self.next_flag
        &&& forall|i: int| 0 <= i < self.cancelled@.len() ==> self.cancelled@[i] < self.next_flag
    }

    /// The flag of the running attempt for `code`.
    pub closed spec fn attempt_of(self, code: Seq<char>) -> Option<u64> {
        lookup(self.attempts@, code)
    }

    /// Whether `flag` has been raised.
    pub closed spec fn flag_raised(self, flag: u64) -> bool {
        self.cancelled@.contains(flag)
    }

    /// How many flags have been handed out.
    pub closed spec fn flags_handed_out(self) -> u64 {
        self.next_flag
    }

    pub fn new() -> (r: Self)
        ensures
            forall|code: Seq<char>| r.attempt_of(code) is None,
            forall|flag: u64| !r.flag_raised(flag),
            r.flags_handed_out() == 0,
    {
        DeviceFlowRegistry { attempts: Vec::new(), next_flag: 0, cancelled: Vec::new() }
    }

    fn find(&self, code: &String) -> (r: Option<u64>)
        ensures
            r == lookup(self.attempts@, code@),
    {
        let mut j: usize = self.attempts.len();
        assert(self.attempts@.take(j as int) == self.attempts@);
        while j > 0
            invariant
                j <= self.attempts.len(),
                lookup(self.attempts@, code@) == lookup(self.attempts@.take(j as int), code@),
            decreases j,
        {
            assert(self.attempts@.take(j as int).drop_last() == self.attempts@.take(j as int - 1));
            if self.attempts[j - 1].0 == *code {
                return Some(self.attempts[j - 1].1);
            }
            j = j - 1;
        }
        None
    }

    fn entries_without(&self, code: &String) -> (r: Vec<(String, u64)>)
        ensures
            r@ == without(self.attempts@, code@),
    {
        let mut out: Vec<(String, u64)> = Vec::new();
        let mut i: usize = 0;
        while i < self.attempts.len()
            invariant
                i <= self.attempts.len(),
                out@ == without(self.attempts@.take(i as int), code@),
            decreases self.attempts.len() - i,
        {
            assert(self.attempts@.take(i as int + 1).drop_last() == self.attempts@.take(i as int));
            if self.attempts[i].0 != *code {
                let entry = (self.attempts[i].0.clone(), self.attempts[i].1);
                out.push(entry);
            }
            i = i + 1;
        }
        assert(self.attempts@.take(self.attempts.len() as int) == self.attempts@);
        out
    }

    /// Registers a poll for `device_code` and returns its fresh, lowered
    /// flag. An earlier attempt for the same code is replaced.
    pub fn start(&mut self, device_code: &str) -> (flag: u64)
        requires
            old(self).flags_handed_out() < u64::MAX,
        ensures
            final(self).attempt_of(device_code@) == Some(flag),
            forall|code: Seq<char>| code != device_code@ ==> final(self).attempt_of(code)
                == old(self).attempt_of(code),
            !final(self).flag_raised(flag),
            forall|f: u64| f != flag ==> final(self).flag_raised(f) == old(self).flag_raised(f),
            final(self).flags_handed_out() == old(self).flags_handed_out() + 1,
    {
        proof {
            use_type_invariant(&*self);
        }
        let key = device_code.to_string();
        let flag = self.next_flag;
        let mut attempts = self.entries_without(&key);
        proof {
            lemma_without_bounded(self.attempts@, key@, flag);
            assert forall|code: Seq<char>| #[trigger] lookup(attempts@, code) == if code == key@ {
                None
            } else {
                lookup(self.attempts@, code)
            } by {
                lemma_lookup_without(self.attempts@, key@, code);
            }
        }
        let ghost pre = attempts@;
        let ghost key_view = key@;
        attempts.push((key, flag));
        assert(attempts@.drop_last() == pre);
        assert forall|code: Seq<char>| code != key_view implies #[trigger] lookup(attempts@, code)
            == lookup(old(self).attempts@, code) by {
            assert(lookup(pre, code) == lookup(old(self).attempts@, code));
        }
        self.next_flag = flag + 1;
        self.attempts = attempts;
        assert(!self.cancelled@.contains(flag));
        flag
    }

    /// The flag of the running attempt for `device_code`, if any.
    pub fn get(&self, device_code: &str) -> (r: Option<u64>)
        ensures
            r == self.attempt_of(device_code@),
    {
        let key = device_code.to_string();
        self.find(&key)
    }

    /// Raises the flag of the attempt for `device_code` and forgets the
    /// attempt; `false` when there was none.
    pub fn cancel(&mut self, device_code: &str) -> (r: bool)
        ensures
            r == old(self).attempt_of(device_code@) is Some,
            final(self).attempt_of(device_code@) is None,
            forall|code: Seq<char>| code != device_code@ ==> final(self).attempt_of(code)
                == old(self).attempt_of(code),
            forall|f: u64| final(self).flag_raised(f) == (old(self).flag_raised(f) || old(
                self,
            ).attempt_of(device_code@) == Some(f)),
            final(self).flags_handed_out() == old(self).flags_handed_out(),
    {
        proof {
            use_type_invariant(&*self);
        }
        let key = device_code.to_string();
        let found = self.find(&key);
        let attempts = self.entries_without(&key);
        proof {
            lemma_without_bounded(self.attempts@, key@, self.next_flag);
            lemma_lookup_bounded(self.attempts@, key@, self.next_flag);
            assert forall|code: Seq<char>| #[trigger] lookup(attempts@, code) == if code == key@ {
                None
            } else {
                lookup(self.attempts@, code)
            } by {
                lemma_lookup_without(self.attempts@, key@, code);
            }
        }
        self.attempts = attempts;
        match found {
            Some(flag) => {
                let mut raised = self.cancelled.clone();
                raised.push(flag);
                self.cancelled = raised;
                assert forall|f: u64| self.cancelled@.contains(f) == (old(self).cancelled@.contains(f)
                    || f == flag) by {
                    if f == flag {
                        assert(self.cancelled@[self.cancelled@.len() - 1] == f);
                    }
                    if old(self).cancelled@.contains(f) {
                        let i = choose|i: int| 0 <= i < old(self).cancelled@.len() && old(self).cancelled@[i] == f;
                        assert(self.cancelled@[i] == f);
                    }
                    if self.cancelled@.contains(f) && f != flag {
                        let i = choose|i: int| 0 <= i < self.cancelled@.len() && self.cancelled@[i] == f;
                        assert(old(self).cancelled@[i] == f);
                    }
                }
                true
            },
            None => false,
        }
    }

    /// Forgets the attempt for `device_code` without raising its flag.
    pub fn finish(&mut self, device_code: &str)
        ensures
            final(self).attempt_of(device_code@) is None,
            forall|code: Seq<char>| code != device_code@ ==> final(self).attempt_of(code)
                == old(self).attempt_of(code),
            forall|f: u64| final(self).flag_raised(f) == old(self).flag_raised(f),
            final(self).flags_handed_out() == old(self).flags_handed_out(),
    {
        proof {
            use_type_invariant(&*self);
        }
        let key = device_code.to_string();
        let attempts = self.entries_without(&key);
        proof {
            lemma_without_bounded(self.attempts@, key@, self.next_flag);
            assert forall|code: Seq<char>| #[trigger] lookup(attempts@, code) == if code == key@ {
                None
            } else {
                lookup(self.attempts@, code)
            } by {
                lemma_lookup_without(self.attempts@, key@, code);
            }
        }
        self.attempts = attempts;
    }

    /// Whether `flag` has been raised by a `cancel`.
    pub fn is_cancelled(&self, flag: u64) -> (r: bool)
        ensures
            r == self.flag_raised(flag),
    {
        let mut i: usize = 0;
        while i < self.cancelled.len()
            invariant
                i <= self.cancelled.len(),
                forall|j: int| 0 <= j < i ==> self.cancelled@[j] != flag,
            decreases self.cancelled.len() - i,
        {
            if self.cancelled[i] == flag {
                return true;
            }
            i = i + 1;
        }
        false
    }
}

impl Default for DeviceFlowRegistry {
    fn default() -> (r: Self)
        ensures
            forall|code: Seq<char>| r.attempt_of(code) is None,
            forall|flag: u64| !r.flag_raised(flag),
            r.flags_handed_out() == 0,
    {
        DeviceFlowRegistry::new()
    }
}

/// A cancelled attempt stops with `github_auth_cancelled`.
pub fn ensure_attempt_active(cancelled: bool) -> (r: Result<(), CommandError>)
    ensures
        r is Ok <==> !cancelled,
        r matches Err(e) ==> e.code@ == "github_auth_cancelled"@ && e.message@
            == "GitHub sign-in was cancelled."@,
{
    if cancelled {
        Err(CommandError::new("github_auth_cancelled", "GitHub sign-in was cancelled."))
    } else {
        Ok(())
    }
}

// --- client id and form encoding ---------------------------------------------

pub open spec fn is_ascii_alnum_byte(b: u8) -> bool {
    (65 <= b && b <= 90) || (97 <= b && b <= 122) || (48 <= b && b <= 57)
}

/// A GitHub App client id: `Iv`, then at least one more byte, all ASCII
/// letters and digits. OAuth App ids (`Ov`) are refused.
pub open spec fn valid_client_id(b: Seq<u8>) -> bool {
    &&& b.len() > 2
    &&& b[0] == 73 && b[1] == 118
    &&& forall|i: int| 0 <= i < b.len() ==> is_ascii_alnum_byte(b[i])
}

pub fn validate_client_id<'a>(value: Option<&'a str>) -> (r: Option<&'a str>)
    ensures
        r is Some <==> (value matches Some(v) && valid_client_id(v.spec_bytes())),
        r matches Some(s) ==> value == Some(s),
{
    match value {
        None => None,
        Some(v) => {
            let b = v.as_bytes();
            if b.len() <= 2 || b[0] != 73u8 || b[1] != 118u8 {
                return None;
            }
            let mut i: usize = 0;
            while i < b.len()
                invariant
                    i <= b@.len(),
                    b@ == v.spec_bytes(),
                    value == Some(v),
                    forall|j: int| 0 <= j < i ==> is_ascii_alnum_byte(b@[j]),
                decreases b@.len() - i,
            {
                let c = b[i];
                if !((65u8 <= c && c <= 90u8) || (97u8 <= c && c <= 122u8) || (48u8 <= c && c
                    <= 57u8)) {
                    assert(!is_ascii_alnum_byte(b@[i as int]));
                    return None;
                }
                i = i + 1;
            }
            Some(v)
        },
    }
}

/// True once a valid GitHub App client id is configured.
pub fn is_configured(client_id: Option<&str>) -> (r: bool)
    ensures
        r == (client_id matches Some(v) && valid_client_id(v.spec_bytes())),
{
    validate_client_id(client_id).is_some()
}

pub fn not_configured() -> (e: CommandError)
    ensures
        e.code@ == "github_not_configured"@,
{
    CommandError::new(
        "github_not_configured",
        "This build has no valid GitHub App client configured, so new GitHub connections are unavailable.",
    )
}

/// The stored token was revoked or expired.
pub fn unauthorized() -> (e: CommandError)
    ensures
        e.code@ == "github_unauthorized"@,
        e.message@
            == "Your GitHub connection expired or was revoked. Reconnect GitHub in Settings \u{2192} Sync."@,
{
    CommandError::new(
        "github_unauthorized",
        "Your GitHub connection expired or was revoked. Reconnect GitHub in Settings \u{2192} Sync.",
    )
}

pub fn failure(message: &Vec<char>) -> (e: CommandError)
    ensures
        e.code@ == "github_auth_failed"@,
        e.message@ == message@,
{
    CommandError::from_parts("github_auth_failed", string_from_chars(message))
}

/// RFC 3986 unreserved bytes, which form encoding leaves as they are.
pub open spec fn unreserved(b: u8) -> bool {
    is_ascii_alnum_byte(b) || b == 45 || b == 95 || b == 46 || b == 126
}

pub open spec fn hex_upper(d: u8) -> char {
    if d < 10 {
        ((48 + d) as u8) as char
    } else {
        ((55 + d) as u8) as char
    }
}

pub open spec fn encode_byte(b: u8) -> Seq<char> {
    if unreserved(b) {
        seq![b as char]
    } else {
        seq!['%', hex_upper(b / 16), hex_upper(b % 16)]
    }
}

/// x-www-form-urlencoded value: unreserved bytes kept, every other byte as
/// `%XX` with uppercase hex.
pub open spec fn form_encoded(b: Seq<u8>) -> Seq<char>
    decreases b.len(),
{
    if b.len() == 0 {
        Seq::empty()
    } else {
        form_encoded(b.drop_last()) + encode_byte(b.last())
    }
}

fn hex_digit(d: u8) -> (c: char)
    requires
        d < 16,
    ensures
        c == hex_upper(d),
{
    if d < 10 {
        (48 + d) as char
    } else {
        (55 + d) as char
    }
}

pub fn form_encode(value: &str) -> (r: String)
    ensures
        r@ == form_encoded(value.spec_bytes()),
{
    let b = value.as_bytes();
    let mut out: Vec<char> = Vec::new();
    let mut i: usize = 0;
    while i < b.len()
        invariant
            i <= b@.len(),
            b@ == value.spec_bytes(),
            out@ == form_encoded(b@.take(i as int)),
        decreases b@.len() - i,
    {
        let c = b[i];
        assert(b@.take(i as int + 1).drop_last() == b@.take(i as int));
        if (65u8 <= c && c <= 90u8) || (97u8 <= c && c <= 122u8) || (48u8 <= c && c <= 57u8) || c
            == 45u8 || c == 95u8 || c == 46u8 || c == 126u8 {
            out.push(c as char);
        } else {
            out.push('%');
            out.push(hex_digit(c / 16));
            out.push(hex_digit(c % 16));
        }
        i = i + 1;
    }
    assert(b@.take(b@.len() as int) == b@);
    string_from_chars(&out)
}

/// Body of the device-code request: the client id only, no OAuth scope.
pub fn device_code_request_body(client_id: &str) -> (r: String)
    ensures
        r@ == "client_id="@ + form_encoded(client_id.spec_bytes()),
{
    let mut body = chars_of("client_id=");
    push_str(&mut body, form_encode(client_id).as_str());
    string_from_chars(&body)
}

// --- reading GitHub's replies --------------------------------------------------

pub open spec fn opt_view(o: Option<String>) -> Option<Seq<char>> {
    match o {
        Some(s) => Some(s@),
        None => None,
    }
}

/// The non-empty string at `pointer`.
pub open spec fn nonempty_str_at(text: Seq<char>, pointer: Seq<char>) -> Option<Seq<char>> {
    match json_str_at(text, pointer) {
        Some(s) => if s.len() > 0 {
            Some(s)
        } else {
            None
        },
        None => None,
    }
}

fn nonempty_str(text: &str, pointer: &str) -> (r: Option<String>)
    ensures
        opt_view(r) == nonempty_str_at(text@, pointer@),
{
    match json_lookup_str(text, pointer) {
        Some(v) => if v.as_str().is_empty() {
            None
        } else {
            Some(v)
        },
        None => None,
    }
}

/// `now + secs` for an expiry given in seconds from now.
pub open spec fn expiry(now: u64, secs: Option<u64>) -> Option<u64> {
    match secs {
        Some(s) => Some(sat_add(now, s)),
        None => None,
    }
}

/// Why a token reply yields no credential, if it does not.
pub open spec fn credential_error(text: Seq<char>) -> Option<Seq<char>> {
    if nonempty_str_at(text, "/access_token"@) is None {
        Some("GitHub's response had no `access_token`."@)
    } else if json_u64_at(text, "/expires_in"@) is Some && nonempty_str_at(text, "/refresh_token"@)
        is None {
        Some("GitHub returned an expiring access token without a refresh token."@)
    } else {
        None
    }
}

/// `res` is what a token reply `text`, received at `now`, yields.
pub open spec fn credential_matches(
    text: Seq<char>,
    now: u64,
    res: Result<StoredCredential, CommandError>,
) -> bool {
    match res {
        Ok(c) => {
            &&& credential_error(text) is None
            &&& c.version == CREDENTIAL_VERSION
            &&& nonempty_str_at(text, "/access_token"@) == Some(c.access_token@)
            &&& opt_view(c.refresh_token) == nonempty_str_at(text, "/refresh_token"@)
            &&& c.expires_at == expiry(now, json_u64_at(text, "/expires_in"@))
            &&& c.refresh_token_expires_at == expiry(
                now,
                json_u64_at(text, "/refresh_token_expires_in"@),
            )
        },
        Err(e) => e.code@ == "github_auth_failed"@ && credential_error(text) == Some(e.message@),
    }
}

/// The credential in a token reply: expiries are counted from `now`, and an
/// expiring access token must come with a refresh token.
pub fn credential_from_response(text: &str, now: u64) -> (r: Result<StoredCredential, CommandError>)
    ensures
        credential_matches(text@, now, r),
{
    proof {
        reveal_strlit("/access_token");
        reveal_strlit("/refresh_token");
        reveal_strlit("/expires_in");
        reveal_strlit("/refresh_token_expires_in");
    }
    let access_token = match nonempty_str(text, "/access_token") {
        Some(t) => t,
        None => return Err(failure(&chars_of("GitHub's response had no `access_token`."))),
    };
    let refresh_token = nonempty_str(text, "/refresh_token");
    let expires_at = match json_lookup_u64(text, "/expires_in") {
        Some(secs) => Some(saturating_add(now, secs)),
        None => None,
    };
    let refresh_token_expires_at = match json_lookup_u64(text, "/refresh_token_expires_in") {
        Some(secs) => Some(saturating_add(now, secs)),
        None => None,
    };
    if expires_at.is_some() && refresh_token.is_none() {
        return Err(
            failure(&chars_of("GitHub returned an expiring access token without a refresh token.")),
        );
    }
    Ok(StoredCredential {
        version: CREDENTIAL_VERSION,
        access_token,
        refresh_token,
        expires_at,
        refresh_token_expires_at,
    })
}

/// What the UI shows the user to complete the device flow.
#[derive(Debug, Clone)]
pub struct DeviceCode {
    pub device_code: String,
    pub user_code: String,
    pub verification_uri: String,
    pub expires_in: u64,
    pub interval: u64,
}

pub open spec fn missing_key_message(key: Seq<char>) -> Seq<char> {
    "GitHub's response had no `"@ + key + "`."@
}

/// Why a device-code reply yields no device code, if it does not.
pub open spec fn device_code_error(status: u16, status_text: Seq<char>, text: Seq<char>) -> Option<
    Seq<char>,
> {
    if !is_success(status) {
        Some(
            "GitHub rejected the device-code request (HTTP "@ + status_text + "). "@ + truncated(
                text,
                300,
            ),
        )
    } else if json_error_of(text) is Some {
        Some("Could not parse GitHub's response. "@ + json_error_of(text)->0)
    } else if nonempty_str_at(text, "/device_code"@) is None {
        Some(missing_key_message("device_code"@))
    } else if nonempty_str_at(text, "/user_code"@) is None {
        Some(missing_key_message("user_code"@))
    } else if nonempty_str_at(text, "/verification_uri"@) is None {
        Some(missing_key_message("verification_uri"@))
    } else {
        None
    }
}

pub open spec fn or_default(v: Option<u64>, d: u64) -> u64 {
    match v {
        Some(x) => x,
        None => d,
    }
}

fn missing_key(key: &str) -> (e: CommandError)
    ensures
        e.code@ == "github_auth_failed"@,
        e.message@ == missing_key_message(key@),
{
    let mut m = chars_of("GitHub's response had no `");
    push_str(&mut m, key);
    push_str(&mut m, "`.");
    failure(&m)
}

/// Reads GitHub's answer to the device-code request. Expiry defaults to 900
/// seconds and the poll interval to 5.
pub fn device_code_from_reply(status: u16, status_text: &str, text: &str) -> (r: Result<
    DeviceCode,
    CommandError,
>)
    ensures
        match r {
            Ok(d) => {
                &&& device_code_error(status, status_text@, text@) is None
                &&& nonempty_str_at(text@, "/device_code"@) == Some(d.device_code@)
                &&& nonempty_str_at(text@, "/user_code"@) == Some(d.user_code@)
                &&& nonempty_str_at(text@, "/verification_uri"@) == Some(d.verification_uri@)
                &&& d.expires_in == or_default(json_u64_at(text@, "/expires_in"@), 900)
                &&& d.interval == or_default(json_u64_at(text@, "/interval"@), 5)
            },
            Err(e) => e.code@ == "github_auth_failed"@ && device_code_error(
                status,
                status_text@,
                text@,
            ) == Some(e.message@),
        },
{
    if !status_is_success(status) {
        let mut m = chars_of("GitHub rejected the device-code request (HTTP ");
        push_str(&mut m, status_text);
        push_str(&mut m, "). ");
        push_str(&mut m, truncate_chars(text, 300).as_str());
        return Err(failure(&m));
    }
    match json_check(text) {
        Err(detail) => {
            let mut m = chars_of("Could not parse GitHub's response. ");
            push_str(&mut m, detail.as_str());
            return Err(failure(&m));
        },
        Ok(()) => {},
    }
    proof {
        reveal_strlit("/device_code");
        reveal_strlit("/user_code");
        reveal_strlit("/verification_uri");
        reveal_strlit("/expires_in");
        reveal_strlit("/interval");
        reveal_strlit("device_code");
        reveal_strlit("user_code");
        reveal_strlit("verification_uri");
    }
    let device_code = match nonempty_str(text, "/device_code") {
        Some(v) => v,
        None => return Err(missing_key("device_code")),
    };
    let user_code = match nonempty_str(text, "/user_code") {
        Some(v) => v,
        None => return Err(missing_key("user_code")),
    };
    let verification_uri = match nonempty_str(text, "/verification_uri") {
        Some(v) => v,
        None => return Err(missing_key("verification_uri")),
    };
    let expires_in = match json_lookup_u64(text, "/expires_in") {
        Some(v) => v,
        None => 900,
    };
    let interval = match json_lookup_u64(text, "/interval") {
        Some(v) => v,
        None => 5,
    };
    Ok(DeviceCode { device_code, user_code, verification_uri, expires_in, interval })
}

/// What one poll of the token endpoint means for the device flow.
#[derive(Debug)]
pub enum PollStep {
    /// Authorization is still pending: poll again after this many seconds.
    Wait(u64),
    /// The flow is over, with a credential or the reason it failed.
    Done(Result<StoredCredential, CommandError>),
}

/// The verdict of a poll reply, before any credential is read.
pub enum PollVerdict {
    Wait(u64),
    Fail(Seq<char>, Seq<char>),
    Token,
}

pub open spec fn poll_verdict(text: Seq<char>, interval: u64, cancelled: bool) -> PollVerdict {
    if json_error_of(text) is Some {
        PollVerdict::Fail(
            "github_auth_failed"@,
            "Could not parse GitHub's response. "@ + json_error_of(text)->0,
        )
    } else if json_present_at(text, "/access_token"@) {
        if cancelled {
            PollVerdict::Fail("github_auth_cancelled"@, "GitHub sign-in was cancelled."@)
        } else {
            PollVerdict::Token
        }
    } else {
        match json_str_at(text, "/error"@) {
            Some(err) => if err == "authorization_pending"@ {
                PollVerdict::Wait(interval)
            } else if err == "slow_down"@ {
                PollVerdict::Wait((interval + 5) as u64)
            } else if err == "expired_token"@ {
                PollVerdict::Fail(
                    "github_auth_failed"@,
                    "The GitHub sign-in code expired before you authorized it. Please try again."@,
                )
            } else if err == "access_denied"@ {
                PollVerdict::Fail("github_auth_failed"@, "GitHub sign-in was denied."@)
            } else {
                let detail = match json_str_at(text, "/error_description"@) {
                    Some(d) => d,
                    None => err,
                };
                PollVerdict::Fail("github_auth_failed"@, "GitHub sign-in failed: "@ + detail)
            },
            None => PollVerdict::Fail(
                "github_auth_failed"@,
                "GitHub returned an unexpected response. "@ + truncated(text, 300),
            ),
        }
    }
}

/// Interprets one reply of the token endpoint while polling at `interval`
/// seconds. Pending keeps the interval, `slow_down` adds five seconds, a
/// token ends the flow unless the attempt was cancelled meanwhile.
pub fn poll_step(text: &str, interval: u64, now: u64, cancelled: bool) -> (r: PollStep)
    requires
        interval <= u64::MAX - 5,
    ensures
        match poll_verdict(text@, interval, cancelled) {
            PollVerdict::Wait(n) => r == PollStep::Wait(n),
            PollVerdict::Fail(code, message) => r matches PollStep::Done(Err(e)) && e.code@ == code
                && e.message@ == message,
            PollVerdict::Token => r matches PollStep::Done(res) && credential_matches(
                text@,
                now,
                res,
            ),
        },
{
    match json_check(text) {
        Err(detail) => {
            let mut m = chars_of("Could not parse GitHub's response. ");
            push_str(&mut m, detail.as_str());
            return PollStep::Done(Err(failure(&m)));
        },
        Ok(()) => {},
    }
    proof {
        reveal_strlit("/access_token");
        reveal_strlit("/error");
        reveal_strlit("/error_description");
        reveal_strlit("authorization_pending");
        reveal_strlit("slow_down");
        reveal_strlit("expired_token");
        reveal_strlit("access_denied");
    }
    if json_lookup_present(text, "/access_token") {
        return match ensure_attempt_active(cancelled) {
            Err(e) => PollStep::Done(Err(e)),
            Ok(()) => PollStep::Done(credential_from_response(text, now)),
        };
    }
    match json_lookup_str(text, "/error") {
        Some(err) => {
            if err == "authorization_pending".to_string() {
                PollStep::Wait(interval)
            } else if err == "slow_down".to_string() {
                PollStep::Wait(interval + 5)
            } else if err == "expired_token".to_string() {
                PollStep::Done(
                    Err(
                        failure(
                            &chars_of(
                                "The GitHub sign-in code expired before you authorized it. Please try again.",
                            ),
                        ),
                    ),
                )
            } else if err == "access_denied".to_string() {
                PollStep::Done(Err(failure(&chars_of("GitHub sign-in was denied."))))
            } else {
                let detail = match json_lookup_str(text, "/error_description") {
                    Some(d) => d,
                    None => err,
                };
                let mut m = chars_of("GitHub sign-in failed: ");
                push_str(&mut m, detail.as_str());
                PollStep::Done(Err(failure(&m)))
            }
        },
        None => {
            let mut m = chars_of("GitHub returned an unexpected response. ");
            push_str(&mut m, truncate_chars(text, 300).as_str());
            PollStep::Done(Err(failure(&m)))
        },
    }
}

/// The failure of a refresh reply, if it is one: `(code, message)`.
pub open spec fn refresh_error(status: u16, status_text: Seq<char>, text: Seq<char>) -> Option<
    (Seq<char>, Seq<char>),
> {
    if json_error_of(text) is Some {
        Some(("github_auth_failed"@, "Could not parse GitHub's response. "@ + json_error_of(text)->0))
    } else if json_str_at(text, "/error"@) == Some("bad_refresh_token"@) || json_str_at(
        text,
        "/error"@,
    ) == Some("incorrect_client_credentials"@) {
        Some(
            (
                "github_unauthorized"@,
                "Your GitHub connection expired or was revoked. Reconnect GitHub in Settings \u{2192} Sync."@,
            ),
        )
    } else if !is_success(status) || json_present_at(text, "/error"@) {
        let described = if json_present_at(text, "/error_description"@) {
            json_str_at(text, "/error_description"@)
        } else {
            json_str_at(text, "/error"@)
        };
        let detail = match described {
            Some(d) => d,
            None => "unexpected response"@,
        };
        Some(
            (
                "github_auth_failed"@,
                "GitHub could not refresh the connection (HTTP "@ + status_text + "): "@ + detail,
            ),
        )
    } else {
        None
    }
}

/// Interprets GitHub's answer to a token refresh. A rejected refresh token
/// means the user must reconnect (`github_unauthorized`).
pub fn refresh_outcome(status: u16, status_text: &str, text: &str, now: u64) -> (r: Result<
    StoredCredential,
    CommandError,
>)
    ensures
        match refresh_error(status, status_text@, text@) {
            Some((code, message)) => r matches Err(e) && e.code@ == code && e.message@ == message,
            None => credential_matches(text@, now, r),
        },
{
    match json_check(text) {
        Err(detail) => {
            let mut m = chars_of("Could not parse GitHub's response. ");
            push_str(&mut m, detail.as_str());
            return Err(failure(&m));
        },
        Ok(()) => {},
    }
    proof {
        reveal_strlit("/error");
        reveal_strlit("/error_description");
        reveal_strlit("bad_refresh_token");
        reveal_strlit("incorrect_client_credentials");
        reveal_strlit("unexpected response");
    }
    let error = json_lookup_str(text, "/error");
    match &error {
        Some(e) => {
            if *e == "bad_refresh_token".to_string() || *e
                == "incorrect_client_credentials".to_string() {
                return Err(unauthorized());
            }
        },
        None => {},
    }
    if !status_is_success(status) || json_lookup_present(text, "/error") {
        let described = if json_lookup_present(text, "/error_description") {
            json_lookup_str(text, "/error_description")
        } else {
            error
        };
        let detail = match described {
            Some(d) => d,
            None => "unexpected response".to_string(),
        };
        let mut m = chars_of("GitHub could not refresh the connection (HTTP ");
        push_str(&mut m, status_text);
        push_str(&mut m, "): ");
        push_str(&mut m, detail.as_str());
        return Err(failure(&m));
    }
    credential_from_response(text, now)
}

/// How to obtain a usable access token from the stored credential at `now`.
#[derive(Debug)]
pub enum AccessPlan {
    /// The stored token is good: use it.
    Use(String),
    /// The token is about to expire: refresh it with this refresh token.
    Refresh(String),
    /// The connection cannot be renewed; when `true`, the stale credential
    /// is signed out first.
    Unauthorized(bool),
}

/// Decides how to obtain the access token: the stored one while it is not
/// due for refresh, else a refresh while the refresh token lives, else the
/// user must reconnect.
pub fn access_token(credential: &StoredCredential, now: u64) -> (r: AccessPlan)
    ensures
        !credential.refresh_due(now) ==> r == AccessPlan::Use(credential.access_token),
        credential.refresh_due(now) ==> match credential.refresh_token {
            None => r == AccessPlan::Unauthorized(false),
            Some(t) => match credential.refresh_token_expires_at {
                Some(at) => if at <= now {
                    r == AccessPlan::Unauthorized(true)
                } else {
                    r == AccessPlan::Refresh(t)
                },
                None => r == AccessPlan::Refresh(t),
            },
        },
{
    if !credential.needs_refresh(now) {
        return AccessPlan::Use(credential.access_token.clone());
    }
    match &credential.refresh_token {
        None => AccessPlan::Unauthorized(false),
        Some(t) => match credential.refresh_token_expires_at {
            Some(at) => if at <= now {
                AccessPlan::Unauthorized(true)
            } else {
                AccessPlan::Refresh(t.clone())
            },
            None => AccessPlan::Refresh(t.clone()),
        },
    }
}

/// A saved credential is JSON when its first non-whitespace char is `{`;
/// anything else is a raw token from earlier builds.
pub open spec fn looks_like_json(encoded: Seq<char>) -> bool {
    trim_start(encoded).len() > 0 && trim_start(encoded)[0] == '{'
}

pub fn is_json_credential(encoded: &str) -> (r: bool)
    ensures
        r == looks_like_json(encoded@),
{
    let chars = chars_of(encoded);
    let mut i: usize = 0;
    assert(chars@.subrange(0, chars@.len() as int) == chars@);
    while i < chars.len() && crate::text::char_is_whitespace(chars[i])
        invariant
            i <= chars.len(),
            trim_start(chars@) == trim_start(chars@.subrange(i as int, chars@.len() as int)),
        decreases chars.len() - i,
    {
        let ghost sub = chars@.subrange(i as int, chars@.len() as int);
        assert(sub.drop_first() == chars@.subrange(i as int + 1, chars@.len() as int));
        i = i + 1;
    }
    let ghost sub = chars@.subrange(i as int, chars@.len() as int);
    assert(trim_start(sub) == sub);
    i < chars.len() && chars[i] == '{'
}

/// Reads a saved credential that is not JSON: the raw legacy token. `None`
/// for JSON, which the serde layer decodes and `validate_decoded` checks.
pub fn decode_legacy(encoded: &str) -> (r: Option<StoredCredential>)
    ensures
        r is None <==> looks_like_json(encoded@),
        r matches Some(c) ==> c.access_token@ == encoded@ && c.version == CREDENTIAL_VERSION
            && c.refresh_token is None && c.expires_at is None && c.refresh_token_expires_at
            is None,
{
    if is_json_credential(encoded) {
        None
    } else {
        Some(StoredCredential::legacy(encoded.to_string()))
    }
}

/// A decoded JSON credential must carry the current version and a token.
pub fn validate_decoded(credential: StoredCredential) -> (r: Result<StoredCredential, CommandError>)
    ensures
        r is Ok <==> (credential.version == CREDENTIAL_VERSION && credential.access_token@.len()
            > 0),
        r matches Ok(c) ==> c == credential,
        r matches Err(e) ==> e.code@ == "github_auth_failed"@ && e.message@
            == "The saved GitHub credential is invalid."@,
{
    if credential.version != CREDENTIAL_VERSION || credential.access_token.as_str().is_empty() {
        Err(failure(&chars_of("The saved GitHub credential is invalid.")))
    } else {
        Ok(credential)
    }
}

// --- the exchanges with GitHub ----------------------------------------------

pub open spec fn exchange_message(stage: HttpStage, detail: Seq<char>, sending: Seq<char>) -> Seq<
    char,
> {
    match stage {
        HttpStage::Client => detail,
        HttpStage::Send => sending + detail,
        HttpStage::Read => "Could not read GitHub's response. "@ + detail,
    }
}

fn exchange_failure(failed: &HttpFailure, sending: &str) -> (e: CommandError)
    ensures
        e.code@ == "github_auth_failed"@,
        e.message@ == exchange_message(failed.stage, failed.detail@, sending@),
{
    let m = match failed.stage {
        HttpStage::Client => chars_of(failed.detail.as_str()),
        HttpStage::Send => {
            let mut m = chars_of(sending);
            push_str(&mut m, failed.detail.as_str());
            m
        },
        HttpStage::Read => {
            let mut m = chars_of("Could not read GitHub's response. ");
            push_str(&mut m, failed.detail.as_str());
            m
        },
    };
    failure(&m)
}

/// A form POST to `url` carrying `body`, as plain values: the app's user
/// agent, the thirty-second timeout, JSON accepted, a form-encoded body.
pub open spec fn form_request(url: Seq<char>, body: Seq<char>) -> (Seq<char>, Seq<char>, u64, Seq<(Seq<char>, Seq<char>)>, Seq<char>) {
    (
        url,
        "Scribe/0.1.0"@,
        HTTP_TIMEOUT_SECS,
        seq![("Accept"@, "application/json"@), ("Content-Type"@, "application/x-www-form-urlencoded"@)],
        body,
    )
}

pub fn form_post(url: &str, body: String) -> (r: HttpRequest)
    ensures
        request_view(r) == form_request(url@, body@),
{
    let mut headers: Vec<(String, String)> = Vec::new();
    headers.push(("Accept".to_string(), "application/json".to_string()));
    headers.push(("Content-Type".to_string(), "application/x-www-form-urlencoded".to_string()));
    let r = HttpRequest {
        url: url.to_string(),
        user_agent: "Scribe/0.1.0".to_string(),
        timeout_secs: HTTP_TIMEOUT_SECS,
        headers,
        body,
    };
    proof {
        reveal_strlit("Scribe/0.1.0");
        assert(header_views(r.headers@) =~= form_request(url@, body@).3);
    }
    r
}

/// The request for a device code: `POST https://github.com/login/device/code`
/// with the client id.
pub fn device_code_request(client_id: &str) -> (r: HttpRequest)
    ensures
        request_view(r) == form_request(
            "https://github.com/login/device/code"@,
            "client_id="@ + form_encoded(client_id.spec_bytes()),
        ),
{
    form_post("https://github.com/login/device/code", device_code_request_body(client_id))
}

/// One token poll: `POST https://github.com/login/oauth/access_token` with
/// `poll_request_body`.
pub fn poll_request(client_id: &str, device_code: &str) -> (r: HttpRequest)
    ensures
        request_view(r) == form_request(
            "https://github.com/login/oauth/access_token"@,
            "client_id="@ + form_encoded(client_id.spec_bytes()) + "&device_code="@
                + form_encoded(device_code.spec_bytes())
                + "&grant_type=urn:ietf:params:oauth:grant-type:device_code"@,
        ),
{
    form_post("https://github.com/login/oauth/access_token", poll_request_body(client_id, device_code))
}

/// A token refresh at `endpoint` with `refresh_request_body`.
pub fn refresh_request(endpoint: &str, client_id: &str, refresh_token: &str) -> (r: HttpRequest)
    ensures
        request_view(r) == form_request(
            endpoint@,
            "client_id="@ + form_encoded(client_id.spec_bytes())
                + "&grant_type=refresh_token&refresh_token="@ + form_encoded(
                refresh_token.spec_bytes(),
            ),
        ),
{
    form_post(endpoint, refresh_request_body(client_id, refresh_token))
}

/// Step one of the device flow: ask GitHub for a device code and a user code.
/// Refused with `github_not_configured` without a valid client id; otherwise
/// GitHub's answer decides.
pub fn request_device_code(client_id: Option<&str>) -> (r: Result<DeviceCode, CommandError>)
    ensures
        !(client_id matches Some(v) && valid_client_id(v.spec_bytes())) ==> (r matches Err(e)
            && e.code@ == "github_not_configured"@),
        r matches Err(e) ==> e.code@ == "github_not_configured"@ || e.code@
            == "github_auth_failed"@,
{
    let id = match validate_client_id(client_id) {
        Some(id) => id,
        None => return Err(not_configured()),
    };
    let req = device_code_request(id);
    match http_post(&req, &mut SentLog::new()) {
        Err(failed) => Err(exchange_failure(&failed, "Could not reach GitHub. ")),
        Ok(reply) => device_code_from_reply(reply.status, reply.status_text.as_str(), reply.body.as_str()),
    }
}

/// Body of a token poll for `device_code`.
pub fn poll_request_body(client_id: &str, device_code: &str) -> (r: String)
    ensures
        r@ == "client_id="@ + form_encoded(client_id.spec_bytes()) + "&device_code="@
            + form_encoded(device_code.spec_bytes())
            + "&grant_type=urn:ietf:params:oauth:grant-type:device_code"@,
{
    let mut body = chars_of("client_id=");
    push_str(&mut body, form_encode(client_id).as_str());
    push_str(&mut body, "&device_code=");
    push_str(&mut body, form_encode(device_code).as_str());
    push_str(&mut body, "&grant_type=urn:ietf:params:oauth:grant-type:device_code");
    string_from_chars(&body)
}

/// The first wait between polls: the interval GitHub asked for, at least a
/// second (and small enough that a `slow_down` can add five more).
pub fn first_poll_interval(interval_secs: u64) -> (r: u64)
    ensures
        r == if interval_secs < 1 {
            1
        } else if interval_secs > u64::MAX - 5 {
            (u64::MAX - 5) as u64
        } else {
            interval_secs
        },
        1 <= r <= u64::MAX - 5,
{
    if interval_secs < 1 {
        1
    } else if interval_secs > u64::MAX - 5 {
        u64::MAX - 5
    } else {
        interval_secs
    }
}

/// Before each wait and each poll: a cancelled attempt stops with
/// `github_auth_cancelled`; past the deadline (seconds since the flow
/// began, `POLL_TIMEOUT_SECS`) the flow times out; otherwise it goes on.
pub fn poll_gate(cancelled: bool, elapsed_secs: u64) -> (r: Result<(), CommandError>)
    ensures
        cancelled ==> (r matches Err(e) && e.code@ == "github_auth_cancelled"@),
        !cancelled && elapsed_secs >= POLL_TIMEOUT_SECS ==> (r matches Err(e) && e.code@
            == "github_auth_failed"@ && e.message@
            == "Timed out waiting for GitHub authorization. Please try again."@),
        r is Ok <==> !cancelled && elapsed_secs < POLL_TIMEOUT_SECS,
{
    ensure_attempt_active(cancelled)?;
    if elapsed_secs >= POLL_TIMEOUT_SECS {
        return Err(failure(&chars_of("Timed out waiting for GitHub authorization. Please try again.")));
    }
    Ok(())
}

/// One poll of the token endpoint (`poll_request`), interpreted by
/// `poll_step`. A cancelled attempt sends nothing and stops with
/// `github_auth_cancelled`. The waiting between polls is the caller's.
pub fn poll_once(client_id: &str, device_code: &str, interval: u64, now: u64, cancelled: bool) -> (r:
    PollStep)
    requires
        interval <= u64::MAX - 5,
    ensures
        r matches PollStep::Done(Ok(_)) ==> !cancelled,
        cancelled ==> (r matches PollStep::Done(Err(e)) && e.code@ == "github_auth_cancelled"@
            && e.message@ == "GitHub sign-in was cancelled."@),
{
    if let Err(e) = ensure_attempt_active(cancelled) {
        return PollStep::Done(Err(e));
    }
    match http_post(&poll_request(client_id, device_code), &mut SentLog::new()) {
        Err(failed) => PollStep::Done(Err(exchange_failure(&failed, "Could not reach GitHub. "))),
        Ok(reply) => poll_step(reply.body.as_str(), interval, now, cancelled),
    }
}

/// Body of a token refresh.
pub fn refresh_request_body(client_id: &str, refresh_token: &str) -> (r: String)
    ensures
        r@ == "client_id="@ + form_encoded(client_id.spec_bytes())
            + "&grant_type=refresh_token&refresh_token="@ + form_encoded(
            refresh_token.spec_bytes(),
        ),
{
    let mut body = chars_of("client_id=");
    push_str(&mut body, form_encode(client_id).as_str());
    push_str(&mut body, "&grant_type=refresh_token&refresh_token=");
    push_str(&mut body, form_encode(refresh_token).as_str());
    string_from_chars(&body)
}

/// Trades `refresh_token` for a new credential at `endpoint`. GitHub's
/// answer decides; a failure is `github_unauthorized` when GitHub rejected
/// the refresh token, else `github_auth_failed`.
pub fn refresh_credential_at(endpoint: &str, client_id: &str, refresh_token: &str, now: u64) -> (r:
    Result<StoredCredential, CommandError>)
    ensures
        r matches Err(e) ==> e.code@ == "github_auth_failed"@ || e.code@ == "github_unauthorized"@,
{
    let req = refresh_request(endpoint, client_id, refresh_token);
    match http_post(&req, &mut SentLog::new()) {
        Err(failed) => Err(
            exchange_failure(&failed, "Could not refresh the GitHub connection. "),
        ),
        Ok(reply) => refresh_outcome(
            reply.status,
            reply.status_text.as_str(),
            reply.body.as_str(),
            now,
        ),
    }
}

} // verus!
