//! Which build of the app is running, by its bundle identifier: the Dev
//! flavor's identifier ends in `.dev`, and the identifier before the rebrand
//! said `.localdictate` where it now says `.scribe`.
use vstd::prelude::*;

use crate::text::{chars_of, ends_with, eq_chars, has_prefix, has_suffix, push_all, slice, string_from_chars};

verus! {

/// The Dev flavor runs under an identifier ending in `.dev`.
pub fn is_dev_flavor(identifier: &str) -> (r: bool)
    ensures
        r == has_suffix(identifier@, ".dev"@),
{
    ends_with(&chars_of(identifier), &chars_of(".dev"))
}

/// The name the UI shows for the running flavor.
pub fn display_name(identifier: &str) -> (r: &'static str)
    ensures
        r@ == if has_suffix(identifier@, ".dev"@) {
            "Scribe Dev"@
        } else {
            "Scribe"@
        },
{
    if is_dev_flavor(identifier) {
        "Scribe Dev"
    } else {
        "Scribe"
    }
}

/// `s` with every occurrence of a non-empty `from` (left to right, not
/// overlapping) replaced by `to`, as `str::replace` does.
pub open spec fn replaced(s: Seq<char>, from: Seq<char>, to: Seq<char>) -> Seq<char>
    decreases s.len(),
{
    if s.len() == 0 || from.len() == 0 {
        s
    } else if has_prefix(s, from) {
        to + replaced(s.skip(from.len() as int), from, to)
    } else {
        seq![s[0]] + replaced(s.skip(1), from, to)
    }
}

pub fn replace_all(s: &str, from: &str, to: &str) -> (r: String)
    requires
        from@.len() > 0,
    ensures
        r@ == replaced(s@, from@, to@),
{
    let v = chars_of(s);
    let f = chars_of(from);
    let t = chars_of(to);
    let mut out: Vec<char> = Vec::new();
    let mut i: usize = 0;
    assert(v@.skip(0) == v@);
    assert(out@ + replaced(v@, f@, t@) =~= replaced(v@, f@, t@));
    while i < v.len()
        invariant
            i <= v.len(),
            f@ == from@,
            t@ == to@,
            f.len() > 0,
            v@ == s@,
            out@ + replaced(v@.skip(i as int), f@, t@) == replaced(v@, f@, t@),
        decreases v.len() - i,
    {
        let ghost rest = v@.skip(i as int);
        let fits = f.len() <= v.len() - i;
        let head = if fits {
            slice(&v, i, i + f.len())
        } else {
            Vec::new()
        };
        if fits && eq_chars(&head, &f) {
            assert(rest.subrange(0, f@.len() as int) =~= head@);
            assert(has_prefix(rest, f@));
            assert(rest.skip(f@.len() as int) =~= v@.skip(i + f.len()));
            let ghost before = out@;
            let ghost later = replaced(v@.skip(i + f.len()), f@, t@);
            push_all(&mut out, &t);
            assert(out@ + later =~= before + (t@ + later));
            i = i + f.len();
        } else {
            assert(!has_prefix(rest, f@)) by {
                if has_prefix(rest, f@) {
                    assert(rest.subrange(0, f@.len() as int) =~= v@.subrange(i as int, i + f.len()));
                }
            }
            assert(rest.skip(1) =~= v@.skip(i + 1));
            assert(rest[0] == v@[i as int]);
            let ghost before = out@;
            let ghost later = replaced(v@.skip(i + 1), f@, t@);
            out.push(v[i]);
            assert(out@ + later =~= before + (seq![v@[i as int]] + later));
            i = i + 1;
        }
    }
    assert(v@.skip(v.len() as int).len() == 0);
    assert(out@ + replaced(v@.skip(v.len() as int), f@, t@) == out@);
    string_from_chars(&out)
}

/// The identifier the app had before the rebrand, when it differs from the
/// current one (`.scribe` said `.localdictate`); `None` for a build that was
/// never renamed, whose data needs no carrying over.
pub fn pre_rebrand_identifier(identifier: &str) -> (r: Option<String>)
    ensures
        match r {
            Some(old) => old@ == replaced(identifier@, ".scribe"@, ".localdictate"@) && old@
                != identifier@,
            None => replaced(identifier@, ".scribe"@, ".localdictate"@) == identifier@,
        },
{
    proof {
        reveal_strlit(".scribe");
    }
    let old = replace_all(identifier, ".scribe", ".localdictate");
    if eq_chars(&chars_of(old.as_str()), &chars_of(identifier)) {
        None
    } else {
        Some(old)
    }
}

} // verus!
