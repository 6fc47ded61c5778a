//! Read access to JSON replies, taken from serde_json, and the quoting of
//! strings for JSON request bodies, written here as serde_json writes it. A
//! reply is queried by JSON Pointer (RFC 6901), so the navigation the
//! library performs is visible in the pointer it passes.
use vstd::prelude::*;

verus! {

/// `serde_json::from_str::<Value>` failing on `text`: `Some` of the error's
/// display text, or `None` when `text` is a JSON document.
pub uninterp spec fn json_error_of(text: Seq<char>) -> Option<Seq<char>>;

/// The string addressed by `pointer` in the document `text` (`Value::pointer`
/// then `Value::as_str`); `None` when `text` does not parse, nothing is
/// there, or it is not a string.
pub uninterp spec fn json_str_at(text: Seq<char>, pointer: Seq<char>) -> Option<Seq<char>>;

/// The unsigned integer addressed by `pointer` (`Value::pointer` then
/// `Value::as_u64`).
pub uninterp spec fn json_u64_at(text: Seq<char>, pointer: Seq<char>) -> Option<u64>;

/// Whether any value, of any type, is addressed by `pointer`.
pub uninterp spec fn json_present_at(text: Seq<char>, pointer: Seq<char>) -> bool;

/// The length of the array addressed by `pointer` (`Value::as_array`).
pub uninterp spec fn json_array_len_at(text: Seq<char>, pointer: Seq<char>) -> Option<nat>;

/// A lowercase hexadecimal digit.
pub open spec fn hex_lower(d: u32) -> char {
    if d < 10 {
        ((48 + d) as u32) as char
    } else {
        ((87 + d) as u32) as char
    }
}

/// How one char is written inside a JSON string, as `serde_json` writes it:
/// the quote and the backslash escaped, the five short control escapes, any
/// other control char below U+0020 as `\u00XX` (lowercase hex), and every
/// other char as itself.
pub open spec fn json_escape_char(c: char) -> Seq<char> {
    if c == '"' {
        seq!['\\', '"']
    } else if c == '\\' {
        seq!['\\', '\\']
    } else if c == '\u{8}' {
        seq!['\\', 'b']
    } else if c == '\t' {
        seq!['\\', 't']
    } else if c == '\n' {
        seq!['\\', 'n']
    } else if c == '\u{c}' {
        seq!['\\', 'f']
    } else if c == '\r' {
        seq!['\\', 'r']
    } else if (c as u32) < 0x20 {
        seq!['\\', 'u', '0', '0', hex_lower((c as u32) / 16), hex_lower((c as u32) % 16)]
    } else {
        seq![c]
    }
}

/// The escaped chars of `s`.
pub open spec fn json_escaped(s: Seq<char>) -> Seq<char>
    decreases s.len(),
{
    if s.len() == 0 {
        Seq::empty()
    } else {
        json_escaped(s.drop_last()) + json_escape_char(s.last())
    }
}

/// `s` as a JSON string literal, quotes and escapes included
/// (`serde_json::to_string` of a `&str`).
pub open spec fn json_quoted(s: Seq<char>) -> Seq<char> {
    seq!['"'] + json_escaped(s) + seq!['"']
}

/// `serde_json::from_str::<Value>`, keeping only the outcome. Claimed: `Err`
/// carries the display text `json_error_of(text)`, `Ok` exactly when that is
/// `None`.
#[verifier::external_body]
pub(crate) fn json_check(text: &str) -> (r: Result<(), String>)
    ensures
        match r {
            Ok(()) => json_error_of(text@) is None,
            Err(m) => json_error_of(text@) == Some(m@),
        },
{
    match serde_json::from_str::<serde_json::Value>(text) {
        Ok(_) => Ok(()),
        Err(error) => Err(error.to_string()),
    }
}

/// Parses `text` and reads the string at `pointer`. Claimed: the result is
/// `json_str_at(text, pointer)`.
#[verifier::external_body]
pub(crate) fn json_lookup_str(text: &str, pointer: &str) -> (r: Option<String>)
    ensures
        match r {
            Some(s) => json_str_at(text@, pointer@) == Some(s@),
            None => json_str_at(text@, pointer@) is None,
        },
{
    match serde_json::from_str::<serde_json::Value>(text) {
        Ok(value) => value.pointer(pointer).and_then(serde_json::Value::as_str).map(str::to_string),
        Err(_) => None,
    }
}

/// Parses `text` and reads the unsigned integer at `pointer`. Claimed: the
/// result is `json_u64_at(text, pointer)`.
#[verifier::external_body]
pub(crate) fn json_lookup_u64(text: &str, pointer: &str) -> (r: Option<u64>)
    ensures
        r == json_u64_at(text@, pointer@),
{
    match serde_json::from_str::<serde_json::Value>(text) {
        Ok(value) => value.pointer(pointer).and_then(serde_json::Value::as_u64),
        Err(_) => None,
    }
}

/// Parses `text` and reports whether anything is at `pointer`. Claimed: the
/// result is `json_present_at(text, pointer)`.
#[verifier::external_body]
pub(crate) fn json_lookup_present(text: &str, pointer: &str) -> (r: bool)
    ensures
        r == json_present_at(text@, pointer@),
{
    match serde_json::from_str::<serde_json::Value>(text) {
        Ok(value) => value.pointer(pointer).is_some(),
        Err(_) => false,
    }
}

/// Parses `text` and reads the length of the array at `pointer`. Claimed:
/// the result is `json_array_len_at(text, pointer)`.
#[verifier::external_body]
pub(crate) fn json_lookup_array_len(text: &str, pointer: &str) -> (r: Option<usize>)
    ensures
        match r {
            Some(n) => json_array_len_at(text@, pointer@) == Some(n as nat),
            None => json_array_len_at(text@, pointer@) is None,
        },
{
    match serde_json::from_str::<serde_json::Value>(text) {
        Ok(value) => value.pointer(pointer).and_then(serde_json::Value::as_array).map(Vec::len),
        Err(_) => None,
    }
}

fn hex_digit(d: u32) -> (c: char)
    requires
        d < 16,
    ensures
        c == hex_lower(d),
{
    if d < 10 {
        ((48 + d) as u8) as char
    } else {
        ((87 + d) as u8) as char
    }
}

/// `s` as a JSON string literal, written as `serde_json::to_string` writes a
/// `&str`.
pub fn json_quote(s: &str) -> (r: String)
    ensures
        r@ == json_quoted(s@),
{
    let v = crate::text::chars_of(s);
    let mut out: Vec<char> = Vec::new();
    out.push('"');
    let mut i: usize = 0;
    while i < v.len()
        invariant
            i <= v.len(),
            out@ == seq!['"'] + json_escaped(v@.take(i as int)),
        decreases v.len() - i,
    {
        let c = v[i];
        let ghost before = out@;
        assert(v@.take(i as int + 1).drop_last() == v@.take(i as int));
        assert(v@.take(i as int + 1).last() == c);
        if c == '"' {
            out.push('\\');
            out.push('"');
        } else if c == '\\' {
            out.push('\\');
            out.push('\\');
        } else if c == '\u{8}' {
            out.push('\\');
            out.push('b');
        } else if c == '\t' {
            out.push('\\');
            out.push('t');
        } else if c == '\n' {
            out.push('\\');
            out.push('n');
        } else if c == '\u{c}' {
            out.push('\\');
            out.push('f');
        } else if c == '\r' {
            out.push('\\');
            out.push('r');
        } else if (c as u32) < 0x20 {
            let code: u32 = c as u32;
            out.push('\\');
            out.push('u');
            out.push('0');
            out.push('0');
            out.push(hex_digit(code / 16));
            out.push(hex_digit(code % 16));
        } else {
            out.push(c);
        }
        assert(out@ == before + json_escape_char(c));
        i = i + 1;
    }
    assert(v@.take(v.len() as int) == v@);
    out.push('"');
    crate::text::string_from_chars(&out)
}

} // verus!
