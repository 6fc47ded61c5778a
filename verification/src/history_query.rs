//! The transcript history: how a search box entry becomes a SQL `LIKE`
//! pattern, and which rows history retention removes.
use vstd::prelude::*;

use crate::clock::Timestamp;
use crate::daily_log::{lex_less, lex_lt};
use crate::text::{chars_of, string_from_chars, trim, trimmed};

verus! {

/// `query` with the `LIKE` wildcards and the escape char itself escaped by a
/// backslash, so that it matches literally.
pub open spec fn like_escaped(s: Seq<char>) -> Seq<char>
    decreases s.len(),
{
    if s.len() == 0 {
        s
    } else {
        let rest = like_escaped(s.drop_last());
        if s.last() == '\\' || s.last() == '%' || s.last() == '_' {
            rest + seq!['\\', s.last()]
        } else {
            rest.push(s.last())
        }
    }
}

pub fn escape_like_query(query: &str) -> (r: String)
    ensures
        r@ == like_escaped(query@),
{
    let v = chars_of(query);
    let mut out: Vec<char> = Vec::new();
    let mut i: usize = 0;
    while i < v.len()
        invariant
            i <= v.len(),
            out@ == like_escaped(v@.take(i as int)),
        decreases v.len() - i,
    {
        assert(v@.take(i as int + 1).drop_last() == v@.take(i as int));
        let c = v[i];
        if c == '\\' || c == '%' || c == '_' {
            out.push('\\');
        }
        out.push(c);
        proof {
            let prev = like_escaped(v@.take(i as int));
            if c == '\\' || c == '%' || c == '_' {
                assert(out@ =~= prev + seq!['\\', c]);
            }
        }
        i = i + 1;
    }
    assert(v@.take(v.len() as int) == v@);
    string_from_chars(&out)
}

/// The `LIKE` pattern of a search: the trimmed query, escaped, anywhere in
/// the text. A missing or blank query searches nothing (every row matches).
pub open spec fn search_pattern_of(query: Option<Seq<char>>) -> Option<Seq<char>> {
    match query {
        Some(q) => if trim(q).len() == 0 {
            None
        } else {
            Some("%"@ + like_escaped(trim(q)) + "%"@)
        },
        None => None,
    }
}

pub fn search_pattern(query: Option<&str>) -> (r: Option<String>)
    ensures
        match r {
            Some(p) => search_pattern_of(
                match query {
                    Some(q) => Some(q@),
                    None => None,
                },
            ) == Some(p@),
            None => search_pattern_of(
                match query {
                    Some(q) => Some(q@),
                    None => None,
                },
            ) is None,
        },
{
    match query {
        Some(q) => {
            let t = trimmed(&chars_of(q));
            if t.len() == 0 {
                None
            } else {
                let text = string_from_chars(&t);
                let mut p = chars_of("%");
                crate::text::push_str(&mut p, escape_like_query(text.as_str()).as_str());
                crate::text::push_str(&mut p, "%");
                Some(string_from_chars(&p))
            }
        },
        None => None,
    }
}

/// Seconds in a day.
pub const SECS_PER_DAY: i64 = 86400;

/// The instant before which history is removed: `retention_days` whole days
/// before `now`; `None` (keep everything) when no retention is set.
pub fn retention_cutoff(now: Timestamp, retention_days: Option<u16>) -> (r: Option<Timestamp>)
    requires
        now.secs >= i64::MIN + 65535 * SECS_PER_DAY,
    ensures
        match retention_days {
            None => r is None,
            Some(d) => r == Some(Timestamp { secs: (now.secs - d * SECS_PER_DAY) as i64, nanos: now.nanos }),
        },
{
    match retention_days {
        None => None,
        Some(d) => Some(Timestamp { secs: now.secs - (d as i64) * SECS_PER_DAY, nanos: now.nanos }),
    }
}

/// Whether retention removes a row: its stored RFC 3339 `created_at` text
/// sorts before the cutoff's (the text comparison the database makes).
pub fn is_expired(created_at: &str, cutoff: &str) -> (r: bool)
    ensures
        r == lex_lt(created_at@, cutoff@),
{
    lex_less(&chars_of(created_at), &chars_of(cutoff))
}

} // verus!
