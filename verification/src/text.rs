//! Character-level text model shared by every module: strings are handled as
//! sequences of `char`, and the std text operations the library relies on
//! (trimming, splitting, joining, line iteration, whitespace splitting) are
//! stated here as spec functions over `Seq<char>` with verified executables.
use vstd::prelude::*;

verus! {

broadcast use vstd::string::group_string_axioms;

// ---------------------------------------------------------------------------
// Character classes taken from std
// ---------------------------------------------------------------------------

/// Unicode `White_Space`, as `char::is_whitespace` reports it: tab through
/// carriage return, space, next line, no-break space, ogham space mark, the
/// en quad through hair space, line and paragraph separators, narrow
/// no-break space, medium mathematical space and ideographic space.
pub open spec fn is_ws(c: char) -> bool {
    let u = c as u32;
    (9 <= u && u <= 13) || u == 32 || u == 0x85 || u == 0xA0 || u == 0x1680 || (0x2000 <= u && u
        <= 0x200A) || u == 0x2028 || u == 0x2029 || u == 0x202F || u == 0x205F || u == 0x3000
}

/// Unicode alphabetic-or-numeric, as `char::is_alphanumeric` reports it.
pub uninterp spec fn is_alnum(c: char) -> bool;

/// The lowercase mapping of a char, as `char::to_lowercase` yields it.
pub uninterp spec fn lower_of(c: char) -> Seq<char>;

pub open spec fn is_ascii_upper(c: char) -> bool {
    65 <= (c as u32) && (c as u32) <= 90
}

pub open spec fn is_ascii_lower_letter(c: char) -> bool {
    97 <= (c as u32) && (c as u32) <= 122
}

pub open spec fn is_ascii_digit(c: char) -> bool {
    48 <= (c as u32) && (c as u32) <= 57
}

pub open spec fn is_ascii_alnum(c: char) -> bool {
    is_ascii_upper(c) || is_ascii_lower_letter(c) || is_ascii_digit(c)
}

/// `char::to_ascii_lowercase`.
pub open spec fn ascii_lower(c: char) -> char {
    if is_ascii_upper(c) {
        ((c as u32) + 32) as char
    } else {
        c
    }
}

/// `str::to_ascii_lowercase`, char by char.
pub open spec fn ascii_lower_seq(s: Seq<char>) -> Seq<char> {
    s.map_values(|c: char| ascii_lower(c))
}

/// Whether `c` is whitespace, as `char::is_whitespace` says.
pub fn char_is_whitespace(c: char) -> (r: bool)
    ensures
        r == is_ws(c),
{
    let u = c as u32;
    (9 <= u && u <= 13) || u == 32 || u == 0x85 || u == 0xA0 || u == 0x1680 || (0x2000 <= u && u
        <= 0x200A) || u == 0x2028 || u == 0x2029 || u == 0x202F || u == 0x205F || u == 0x3000
}

/// `char::is_alphanumeric`: alphabetic or numeric in Unicode. Claimed: the
/// result is `is_alnum(c)`, and among ASCII chars exactly the letters and
/// digits qualify.
#[verifier::external_body]
pub(crate) fn char_is_alphanumeric(c: char) -> (r: bool)
    ensures
        r == is_alnum(c),
        (c as u32) < 128 ==> (r == is_ascii_alnum(c)),
{
    c.is_alphanumeric()
}

/// `char::to_lowercase`, collected. Claimed: the chars are `lower_of(c)`, and
/// an ASCII char maps to its single ASCII lowercase form.
#[verifier::external_body]
pub(crate) fn char_to_lowercase(c: char) -> (r: Vec<char>)
    ensures
        r@ == lower_of(c),
        (c as u32) < 128 ==> r@ == seq![ascii_lower(c)],
{
    c.to_lowercase().collect()
}

/// Builds a `String` from chars (`FromIterator<char>`). Claimed: the string
/// holds exactly those chars.
#[verifier::external_body]
pub(crate) fn string_from_chars(v: &Vec<char>) -> (s: String)
    ensures
        s@ == v@,
{
    v.iter().collect()
}

/// The chars of a string slice, in order.
pub fn chars_of(s: &str) -> (v: Vec<char>)
    ensures
        v@ == s@,
{
    let mut v: Vec<char> = Vec::new();
    for c in it: s.chars()
        invariant
            v@ == it.seq().take(it.index() as int),
            it.seq() == s@,
    {
        v.push(c);
    }
    v
}

pub fn ascii_lowercase_char(c: char) -> (r: char)
    ensures
        r == ascii_lower(c),
{
    if c >= 'A' && c <= 'Z' {
        let code: u32 = c as u32 + 32;
        (code as u8) as char
    } else {
        c
    }
}

pub fn ascii_lowercase(v: &Vec<char>) -> (r: Vec<char>)
    ensures
        r@ == ascii_lower_seq(v@),
{
    let mut r: Vec<char> = Vec::new();
    let mut i: usize = 0;
    while i < v.len()
        invariant
            i <= v.len(),
            r@ == ascii_lower_seq(v@.take(i as int)),
        decreases v.len() - i,
    {
        r.push(ascii_lowercase_char(v[i]));
        assert(v@.take(i as int + 1) == v@.take(i as int).push(v@[i as int]));
        i = i + 1;
    }
    assert(v@.take(v.len() as int) == v@);
    r
}

// ---------------------------------------------------------------------------
// Slicing, comparison, concatenation
// ---------------------------------------------------------------------------

pub fn slice(v: &Vec<char>, start: usize, end: usize) -> (r: Vec<char>)
    requires
        start <= end <= v.len(),
    ensures
        r@ == v@.subrange(start as int, end as int),
{
    let mut r: Vec<char> = Vec::new();
    let mut i: usize = start;
    while i < end
        invariant
            start <= i <= end <= v.len(),
            r@ == v@.subrange(start as int, i as int),
        decreases end - i,
    {
        r.push(v[i]);
        i = i + 1;
    }
    r
}

pub fn push_all(out: &mut Vec<char>, extra: &Vec<char>)
    ensures
        final(out)@ == old(out)@ + extra@,
{
    let mut i: usize = 0;
    while i < extra.len()
        invariant
            i <= extra.len(),
            out@ == old(out)@ + extra@.take(i as int),
        decreases extra.len() - i,
    {
        out.push(extra[i]);
        assert(extra@.take(i as int + 1) == extra@.take(i as int).push(extra@[i as int]));
        i = i + 1;
    }
    assert(extra@.take(extra.len() as int) == extra@);
}

pub fn push_str(out: &mut Vec<char>, extra: &str)
    ensures
        final(out)@ == old(out)@ + extra@,
{
    let chars = chars_of(extra);
    push_all(out, &chars);
}

pub fn eq_chars(a: &Vec<char>, b: &Vec<char>) -> (r: bool)
    ensures
        r == (a@ == b@),
{
    if a.len() != b.len() {
        return false;
    }
    let mut i: usize = 0;
    while i < a.len()
        invariant
            a.len() == b.len(),
            i <= a.len(),
            forall|j: int| 0 <= j < i ==> a@[j] == b@[j],
        decreases a.len() - i,
    {
        if a[i] != b[i] {
            return false;
        }
        i = i + 1;
    }
    assert(a@ == b@);
    true
}

pub fn eq_str(a: &Vec<char>, b: &str) -> (r: bool)
    ensures
        r == (a@ == b@),
{
    let bv = chars_of(b);
    eq_chars(a, &bv)
}

pub open spec fn has_prefix(s: Seq<char>, p: Seq<char>) -> bool {
    p.len() <= s.len() && s.subrange(0, p.len() as int) == p
}

pub open spec fn has_suffix(s: Seq<char>, p: Seq<char>) -> bool {
    p.len() <= s.len() && s.subrange(s.len() - p.len(), s.len() as int) == p
}

pub fn starts_with(s: &Vec<char>, p: &Vec<char>) -> (r: bool)
    ensures
        r == has_prefix(s@, p@),
{
    if p.len() > s.len() {
        return false;
    }
    let head = slice(s, 0, p.len());
    eq_chars(&head, p)
}

pub fn ends_with(s: &Vec<char>, p: &Vec<char>) -> (r: bool)
    ensures
        r == has_suffix(s@, p@),
{
    if p.len() > s.len() {
        return false;
    }
    let tail = slice(s, s.len() - p.len(), s.len());
    eq_chars(&tail, p)
}

/// `p` occurs in `s` starting at `i`.
pub open spec fn occurs_at(s: Seq<char>, p: Seq<char>, i: int) -> bool {
    0 <= i && i + p.len() <= s.len() && s.subrange(i, i + p.len()) == p
}

/// `str::contains` with a string pattern.
pub open spec fn contains_seq(s: Seq<char>, p: Seq<char>) -> bool {
    exists|i: int| occurs_at(s, p, i)
}

pub fn contains(s: &Vec<char>, p: &Vec<char>) -> (r: bool)
    ensures
        r == contains_seq(s@, p@),
{
    if p.len() > s.len() {
        assert(!contains_seq(s@, p@));
        return false;
    }
    let last = s.len() - p.len();
    let mut i: usize = 0;
    loop
        invariant
            last == s.len() - p.len(),
            p.len() <= s.len(),
            i <= last,
            forall|j: int| 0 <= j < i ==> !occurs_at(s@, p@, j),
        decreases last - i,
    {
        let piece = slice(s, i, i + p.len());
        if eq_chars(&piece, p) {
            assert(occurs_at(s@, p@, i as int));
            return true;
        }
        if i == last {
            assert forall|j: int| !occurs_at(s@, p@, j) by {
                if 0 <= j && j + p@.len() <= s@.len() && j < i {
                    assert(!occurs_at(s@, p@, j));
                }
            }
            return false;
        }
        i = i + 1;
    }
}

pub open spec fn contains_char(s: Seq<char>, c: char) -> bool {
    exists|i: int| 0 <= i < s.len() && s[i] == c
}

pub fn has_char(s: &Vec<char>, c: char) -> (r: bool)
    ensures
        r == contains_char(s@, c),
{
    let mut i: usize = 0;
    while i < s.len()
        invariant
            i <= s.len(),
            forall|j: int| 0 <= j < i ==> s@[j] != c,
        decreases s.len() - i,
    {
        if s[i] == c {
            return true;
        }
        i = i + 1;
    }
    false
}

// ---------------------------------------------------------------------------
// Trimming (`str::trim`, `trim_start`, `trim_end`)
// ---------------------------------------------------------------------------

pub open spec fn trim_start(s: Seq<char>) -> Seq<char>
    decreases s.len(),
{
    if s.len() > 0 && is_ws(s[0]) {
        trim_start(s.drop_first())
    } else {
        s
    }
}

pub open spec fn trim_end(s: Seq<char>) -> Seq<char>
    decreases s.len(),
{
    if s.len() > 0 && is_ws(s.last()) {
        trim_end(s.drop_last())
    } else {
        s
    }
}

/// `str::trim`: leading and trailing Unicode whitespace removed.
pub open spec fn trim(s: Seq<char>) -> Seq<char> {
    trim_end(trim_start(s))
}

/// Every char of `s` is whitespace (so `trim(s)` is empty).
pub open spec fn is_blank(s: Seq<char>) -> bool {
    forall|i: int| 0 <= i < s.len() ==> is_ws(s[i])
}

pub proof fn lemma_trim_start_suffix(s: Seq<char>)
    ensures
        exists|k: int|
            0 <= k <= s.len() && trim_start(s) == s.subrange(k, s.len() as int) && (forall|j: int|
                0 <= j < k ==> is_ws(s[j])) && (k < s.len() ==> !is_ws(s[k])),
    decreases s.len(),
{
    if s.len() > 0 && is_ws(s[0]) {
        lemma_trim_start_suffix(s.drop_first());
        let k = choose|k: int|
            0 <= k <= s.drop_first().len() && trim_start(s.drop_first()) == s.drop_first().subrange(
                k,
                s.drop_first().len() as int,
            ) && (forall|j: int| 0 <= j < k ==> is_ws(s.drop_first()[j])) && (k
                < s.drop_first().len() ==> !is_ws(s.drop_first()[k]));
        assert(s.drop_first().subrange(k, s.drop_first().len() as int) == s.subrange(
            k + 1,
            s.len() as int,
        ));
        assert forall|j: int| 0 <= j < k + 1 implies is_ws(s[j]) by {
            if j > 0 {
                assert(s[j] == s.drop_first()[j - 1]);
            }
        }
        assert(k + 1 < s.len() ==> s[k + 1] == s.drop_first()[k]);
    } else {
        assert(s.subrange(0, s.len() as int) == s);
    }
}

pub proof fn lemma_trim_end_prefix(s: Seq<char>)
    ensures
        exists|k: int|
            0 <= k <= s.len() && trim_end(s) == s.subrange(0, k) && (forall|j: int|
                k <= j < s.len() ==> is_ws(s[j])) && (k > 0 ==> !is_ws(s[k - 1])),
    decreases s.len(),
{
    if s.len() > 0 && is_ws(s.last()) {
        lemma_trim_end_prefix(s.drop_last());
        let k = choose|k: int|
            0 <= k <= s.drop_last().len() && trim_end(s.drop_last()) == s.drop_last().subrange(
                0,
                k,
            ) && (forall|j: int| k <= j < s.drop_last().len() ==> is_ws(s.drop_last()[j])) && (k
                > 0 ==> !is_ws(s.drop_last()[k - 1]));
        assert(s.drop_last().subrange(0, k) == s.subrange(0, k));
        assert forall|j: int| k <= j < s.len() implies is_ws(s[j]) by {
            if j < s.len() - 1 {
                assert(s[j] == s.drop_last()[j]);
            }
        }
    } else {
        assert(s.subrange(0, s.len() as int) == s);
    }
}

/// No whitespace at either end.
pub open spec fn is_trimmed(s: Seq<char>) -> bool {
    s.len() == 0 || (!is_ws(s[0]) && !is_ws(s.last()))
}

pub proof fn lemma_trim_is_trimmed(s: Seq<char>)
    ensures
        is_trimmed(trim(s)),
{
    lemma_trim_start_suffix(s);
    let k = choose|k: int|
        0 <= k <= s.len() && trim_start(s) == s.subrange(k, s.len() as int) && (forall|j: int|
            0 <= j < k ==> is_ws(s[j])) && (k < s.len() ==> !is_ws(s[k]));
    let t = trim_start(s);
    assert(t.len() > 0 ==> t[0] == s[k]);
    lemma_trim_end_prefix(t);
    let m = choose|m: int|
        0 <= m <= t.len() && trim_end(t) == t.subrange(0, m) && (forall|j: int|
            m <= j < t.len() ==> is_ws(t[j])) && (m > 0 ==> !is_ws(t[m - 1]));
    assert(m > 0 ==> trim(s)[0] == t[0] && trim(s).last() == t[m - 1]);
}

pub proof fn lemma_trimmed_is_fixed(t: Seq<char>)
    requires
        is_trimmed(t),
    ensures
        trim(t) == t,
{
    assert(trim_start(t) == t);
    assert(trim_end(t) == t);
}

/// `str::trim` is idempotent.
pub proof fn lemma_trim_idempotent(s: Seq<char>)
    ensures
        trim(trim(s)) == trim(s),
{
    lemma_trim_is_trimmed(s);
    lemma_trimmed_is_fixed(trim(s));
}

/// The positions `[start, end)` of `trim(v@)` inside `v@`.
pub fn trim_bounds(v: &Vec<char>) -> (r: (usize, usize))
    ensures
        r.0 <= r.1 <= v.len(),
        v@.subrange(r.0 as int, r.1 as int) == trim(v@),
{
    let n = v.len();
    let mut i: usize = 0;
    assert(v@.subrange(0, n as int) == v@);
    while i < n && char_is_whitespace(v[i])
        invariant
            n == v.len(),
            i <= n,
            trim_start(v@) == trim_start(v@.subrange(i as int, n as int)),
        decreases n - i,
    {
        assert(v@.subrange(i as int, n as int).drop_first() == v@.subrange(i as int + 1, n as int));
        i = i + 1;
    }
    let ghost front = v@.subrange(i as int, n as int);
    assert(trim_start(front) == front);
    let mut j: usize = n;
    while j > i && char_is_whitespace(v[j - 1])
        invariant
            n == v.len(),
            i <= j <= n,
            front == v@.subrange(i as int, n as int),
            trim_end(front) == trim_end(v@.subrange(i as int, j as int)),
        decreases j - i,
    {
        assert(v@.subrange(i as int, j as int).drop_last() == v@.subrange(i as int, j as int - 1));
        j = j - 1;
    }
    (i, j)
}

pub fn trimmed(v: &Vec<char>) -> (r: Vec<char>)
    ensures
        r@ == trim(v@),
{
    let (a, b) = trim_bounds(v);
    slice(v, a, b)
}

pub fn trim_str(s: &str) -> (r: Vec<char>)
    ensures
        r@ == trim(s@),
{
    let v = chars_of(s);
    trimmed(&v)
}

pub proof fn lemma_trim_empty_iff_blank(s: Seq<char>)
    ensures
        (trim(s).len() == 0) == is_blank(s),
{
    lemma_trim_start_suffix(s);
    let k = choose|k: int|
        0 <= k <= s.len() && trim_start(s) == s.subrange(k, s.len() as int) && (forall|j: int|
            0 <= j < k ==> is_ws(s[j])) && (k < s.len() ==> !is_ws(s[k]));
    let t = trim_start(s);
    lemma_trim_end_prefix(t);
    let m = choose|m: int|
        0 <= m <= t.len() && trim_end(t) == t.subrange(0, m) && (forall|j: int|
            m <= j < t.len() ==> is_ws(t[j])) && (m > 0 ==> !is_ws(t[m - 1]));
    if trim(s).len() == 0 {
        assert(m == 0);
        if k < s.len() {
            assert(t[0] == s[k]);
            assert(is_ws(t[0]));
            assert(false);
        }
        assert(is_blank(s));
    } else {
        assert(m > 0);
        assert(t[m - 1] == s[k + m - 1]);
        assert(!is_blank(s));
    }
}

/// Whether trimming leaves nothing (`s.trim().is_empty()`).
pub fn is_blank_chars(v: &Vec<char>) -> (r: bool)
    ensures
        r == (trim(v@).len() == 0),
        r == is_blank(v@),
{
    proof {
        lemma_trim_empty_iff_blank(v@);
    }
    let mut i: usize = 0;
    while i < v.len()
        invariant
            i <= v.len(),
            forall|j: int| 0 <= j < i ==> is_ws(v@[j]),
        decreases v.len() - i,
    {
        if !char_is_whitespace(v[i]) {
            assert(!is_ws(v@[i as int]));
            assert(!is_blank(v@));
            proof {
                lemma_trim_empty_iff_blank(v@);
            }
            return false;
        }
        i = i + 1;
    }
    true
}

pub fn is_blank_str(s: &str) -> (r: bool)
    ensures
        r == (trim(s@).len() == 0),
        r == is_blank(s@),
{
    let v = chars_of(s);
    is_blank_chars(&v)
}


// ---------------------------------------------------------------------------
// Splitting and joining
// ---------------------------------------------------------------------------

/// `str::split(sep)` with a char separator: always at least one piece.
pub open spec fn split_on(s: Seq<char>, sep: char) -> Seq<Seq<char>>
    decreases s.len(),
{
    if s.len() == 0 {
        seq![Seq::<char>::empty()]
    } else {
        let r = split_on(s.drop_last(), sep);
        if s.last() == sep {
            r.push(Seq::<char>::empty())
        } else {
            r.update(r.len() - 1, r.last().push(s.last()))
        }
    }
}

pub proof fn lemma_split_on_nonempty(s: Seq<char>, sep: char)
    ensures
        split_on(s, sep).len() >= 1,
    decreases s.len(),
{
    if s.len() > 0 {
        lemma_split_on_nonempty(s.drop_last(), sep);
    }
}

/// The views of a sequence of char vectors.
pub open spec fn views(v: Seq<Vec<char>>) -> Seq<Seq<char>> {
    v.map_values(|x: Vec<char>| x@)
}

pub fn split_char(v: &Vec<char>, sep: char) -> (r: Vec<Vec<char>>)
    ensures
        views(r@) == split_on(v@, sep),
        r.len() >= 1,
{
    let mut pieces: Vec<Vec<char>> = Vec::new();
    let mut cur: Vec<char> = Vec::new();
    let mut i: usize = 0;
    assert(views(pieces@).push(cur@) =~= split_on(v@.take(0), sep));
    while i < v.len()
        invariant
            i <= v.len(),
            views(pieces@).push(cur@) == split_on(v@.take(i as int), sep),
        decreases v.len() - i,
    {
        proof {
            lemma_split_on_nonempty(v@.take(i as int), sep);
        }
        let ghost prev = v@.take(i as int);
        let ghost sp = split_on(prev, sep);
        assert(v@.take(i as int + 1).drop_last() == prev);
        assert(v@.take(i as int + 1).last() == v@[i as int]);
        let ghost old_pieces = pieces@;
        let ghost old_cur = cur@;
        assert(views(old_pieces) == sp.drop_last()) by {
            assert(views(old_pieces) =~= views(old_pieces).push(old_cur).drop_last());
        }
        assert(old_cur == sp.last());
        if v[i] == sep {
            pieces.push(cur);
            cur = Vec::new();
            assert(views(pieces@) =~= views(old_pieces).push(old_cur));
            assert(views(pieces@).push(cur@) =~= sp.push(Seq::<char>::empty()));
        } else {
            cur.push(v[i]);
            assert(views(pieces@).push(cur@) =~= sp.update(sp.len() - 1, old_cur.push(v@[i as int])));
        }
        i = i + 1;
    }
    assert(v@.take(v.len() as int) == v@);
    let ghost old_pieces = pieces@;
    let ghost old_cur = cur@;
    pieces.push(cur);
    assert(views(pieces@) =~= views(old_pieces).push(old_cur));
    pieces
}

/// `[T]::join(sep)` over char sequences.
pub open spec fn join(parts: Seq<Seq<char>>, sep: Seq<char>) -> Seq<char>
    decreases parts.len(),
{
    if parts.len() == 0 {
        Seq::<char>::empty()
    } else if parts.len() == 1 {
        parts[0]
    } else {
        join(parts.drop_last(), sep) + sep + parts.last()
    }
}

pub fn join_chars(parts: &Vec<Vec<char>>, sep: &Vec<char>) -> (r: Vec<char>)
    ensures
        r@ == join(views(parts@), sep@),
{
    let mut out: Vec<char> = Vec::new();
    let mut i: usize = 0;
    while i < parts.len()
        invariant
            i <= parts.len(),
            out@ == join(views(parts@).take(i as int), sep@),
        decreases parts.len() - i,
    {
        let ghost prev = views(parts@).take(i as int);
        assert(views(parts@).take(i as int + 1).drop_last() == prev);
        assert(views(parts@).take(i as int + 1).last() == parts@[i as int]@);
        if i > 0 {
            push_all(&mut out, sep);
        }
        push_all(&mut out, &parts[i]);
        i = i + 1;
    }
    assert(views(parts@).take(parts.len() as int) == views(parts@));
    out
}

/// `str::split_whitespace`: maximal runs of non-whitespace chars.
pub open spec fn words(s: Seq<char>) -> Seq<Seq<char>>
    decreases s.len(),
{
    if s.len() == 0 {
        Seq::<Seq<char>>::empty()
    } else {
        let r = words(s.drop_last());
        if is_ws(s.last()) {
            r
        } else if s.len() >= 2 && !is_ws(s.drop_last().last()) {
            r.update(r.len() - 1, r.last().push(s.last()))
        } else {
            r.push(seq![s.last()])
        }
    }
}

pub proof fn lemma_words_nonempty_tail(s: Seq<char>)
    ensures
        s.len() > 0 && !is_ws(s.last()) ==> words(s).len() >= 1,
    decreases s.len(),
{
    if s.len() > 0 {
        lemma_words_nonempty_tail(s.drop_last());
    }
}

pub fn split_whitespace(v: &Vec<char>) -> (r: Vec<Vec<char>>)
    ensures
        views(r@) == words(v@),
{
    let mut out: Vec<Vec<char>> = Vec::new();
    let mut i: usize = 0;
    let mut in_word = false;
    assert(views(out@) =~= words(v@.take(0)));
    while i < v.len()
        invariant
            i <= v.len(),
            views(out@) == words(v@.take(i as int)),
            in_word == (i > 0 && !is_ws(v@[i - 1])),
        decreases v.len() - i,
    {
        let ghost prev = v@.take(i as int);
        let ghost ws = words(prev);
        let ghost old_out = out@;
        assert(v@.take(i as int + 1).drop_last() == prev);
        assert(v@.take(i as int + 1).last() == v@[i as int]);
        proof {
            lemma_words_nonempty_tail(prev);
            if i > 0 {
                assert(prev.last() == v@[i - 1]);
            }
        }
        let c = v[i];
        if char_is_whitespace(c) {
            in_word = false;
        } else if in_word {
            let last = out.len() - 1;
            let mut w = out.pop().unwrap();
            let ghost old_w = w@;
            assert(old_w == ws.last());
            w.push(c);
            out.push(w);
            assert(views(out@) =~= ws.update(last as int, ws.last().push(c)));
            in_word = true;
        } else {
            let mut w: Vec<char> = Vec::new();
            w.push(c);
            out.push(w);
            assert(views(out@) =~= views(old_out).push(seq![c]));
            in_word = true;
        }
        i = i + 1;
    }
    assert(v@.take(v.len() as int) == v@);
    out
}

/// `str::lines`: pieces split at `\n`, with a `\r` before each `\n` removed,
/// and no final empty line.
pub open spec fn strip_cr(s: Seq<char>) -> Seq<char> {
    if s.len() > 0 && s.last() == '\r' {
        s.drop_last()
    } else {
        s
    }
}

pub open spec fn lines(s: Seq<char>) -> Seq<Seq<char>> {
    let pieces = split_on(s, '\n');
    let done = pieces.drop_last().map_values(|p: Seq<char>| strip_cr(p));
    if pieces.last().len() == 0 {
        done
    } else {
        done.push(pieces.last())
    }
}

pub fn lines_of(v: &Vec<char>) -> (r: Vec<Vec<char>>)
    ensures
        views(r@) == lines(v@),
{
    let pieces = split_char(v, '\n');
    let n = pieces.len();
    let ghost ps = views(pieces@);
    let mut out: Vec<Vec<char>> = Vec::new();
    let mut i: usize = 0;
    while i + 1 < n
        invariant
            n == pieces.len(),
            n >= 1,
            ps == views(pieces@),
            i + 1 <= n,
            views(out@) == ps.drop_last().take(i as int).map_values(|p: Seq<char>| strip_cr(p)),
        decreases n - i,
    {
        let p = &pieces[i];
        let stripped = if p.len() > 0 && p[p.len() - 1] == '\r' {
            slice(p, 0, p.len() - 1)
        } else {
            slice(p, 0, p.len())
        };
        proof {
            assert(p@.subrange(0, p@.len() as int) == p@);
            if p@.len() > 0 {
                assert(p@.subrange(0, p@.len() - 1) == p@.drop_last());
            }
        }
        let ghost old_out = out@;
        out.push(stripped);
        assert(ps[i as int] == p@);
        assert(ps.drop_last().take(i as int + 1) == ps.drop_last().take(i as int).push(ps[i as int]));
        assert(views(out@) =~= views(old_out).push(strip_cr(p@)));
        assert(ps.drop_last().take(i as int + 1).map_values(|p: Seq<char>| strip_cr(p)) =~= ps.drop_last().take(i as int).map_values(|p: Seq<char>| strip_cr(p)).push(strip_cr(p@)));
        i = i + 1;
    }
    assert(ps.drop_last().take(i as int) == ps.drop_last());
    let last = &pieces[n - 1];
    assert(ps.last() == last@);
    if last.len() > 0 {
        let copy = slice(last, 0, last.len());
        assert(last@.subrange(0, last@.len() as int) == last@);
        let ghost old_out = out@;
        out.push(copy);
        assert(views(out@) =~= views(old_out).push(last@));
    }
    out
}

// ---------------------------------------------------------------------------
// Integer parsing (`str::parse::<u32>`)
// ---------------------------------------------------------------------------

pub open spec fn digit_value(c: char) -> int {
    (c as u32) - 48
}

/// Value of a sequence of decimal digits.
pub open spec fn digits_value(s: Seq<char>) -> int
    decreases s.len(),
{
    if s.len() == 0 {
        0
    } else {
        digits_value(s.drop_last()) * 10 + digit_value(s.last())
    }
}

pub open spec fn all_digits(s: Seq<char>) -> bool {
    forall|i: int| 0 <= i < s.len() ==> is_ascii_digit(s[i])
}

/// The digits after an optional leading `+`.
pub open spec fn unsigned_body(s: Seq<char>) -> Seq<char> {
    if s.len() > 0 && s[0] == '+' {
        s.drop_first()
    } else {
        s
    }
}

/// `str::parse::<u32>`: an optional `+`, then one or more ASCII digits whose
/// value fits in a `u32`.
pub open spec fn parse_u32_spec(s: Seq<char>) -> Option<u32> {
    let body = unsigned_body(s);
    if body.len() > 0 && all_digits(body) && digits_value(body) <= u32::MAX {
        Some(digits_value(body) as u32)
    } else {
        None
    }
}

pub proof fn lemma_digits_value_nonneg(s: Seq<char>)
    requires
        all_digits(s),
    ensures
        digits_value(s) >= 0,
    decreases s.len(),
{
    if s.len() > 0 {
        lemma_digits_value_nonneg(s.drop_last());
    }
}

pub proof fn lemma_digits_value_mono(s: Seq<char>, k: int)
    requires
        all_digits(s),
        0 <= k <= s.len(),
    ensures
        digits_value(s.take(k)) <= digits_value(s),
    decreases s.len() - k,
{
    if k < s.len() {
        lemma_digits_value_mono(s, k + 1);
        assert(s.take(k + 1).drop_last() == s.take(k));
        lemma_digits_value_nonneg(s.take(k));
    } else {
        assert(s.take(k) == s);
    }
}

pub fn parse_u32(v: &Vec<char>) -> (r: Option<u32>)
    ensures
        r == parse_u32_spec(v@),
{
    let start: usize = if v.len() > 0 && v[0] == '+' {
        1
    } else {
        0
    };
    let ghost body = unsigned_body(v@);
    assert(body == v@.subrange(start as int, v.len() as int));
    if start >= v.len() {
        return None;
    }
    let mut acc: u64 = 0;
    let mut i: usize = start;
    while i < v.len()
        invariant
            start <= i <= v.len(),
            start < v.len(),
            body == unsigned_body(v@),
            body == v@.subrange(start as int, v.len() as int),
            all_digits(body.take(i - start)),
            acc as int == digits_value(body.take(i - start)),
            acc <= u32::MAX,
        decreases v.len() - i,
    {
        let c = v[i];
        assert(body[i - start] == c);
        let code: u32 = c as u32;
        if !(code >= 48 && code <= 57) {
            assert(!is_ascii_digit(c));
            assert(!all_digits(body));
            return None;
        }
        let d: u64 = (code - 48) as u64;
        let next: u64 = acc * 10 + d;
        assert(body.take(i - start + 1).drop_last() == body.take(i - start));
        assert(body.take(i - start + 1).last() == c);
        assert(all_digits(body.take(i - start + 1)));
        if next > 4294967295u64 {
            proof {
                if all_digits(body) {
                    lemma_digits_value_mono(body, i - start + 1);
                }
            }
            return None;
        }
        acc = next;
        i = i + 1;
    }
    assert(body.take(i - start) == body);
    Some(acc as u32)
}


// ---------------------------------------------------------------------------
// Searching for a char (`str::find`, `str::rfind`, `split_once`)
// ---------------------------------------------------------------------------

/// Index of the first `c` in `s`.
pub open spec fn find_first(s: Seq<char>, c: char) -> Option<int>
    decreases s.len(),
{
    if s.len() == 0 {
        None
    } else {
        match find_first(s.drop_last(), c) {
            Some(i) => Some(i),
            None => if s.last() == c {
                Some(s.len() - 1)
            } else {
                None
            },
        }
    }
}

/// Index of the last `c` in `s`.
pub open spec fn find_last(s: Seq<char>, c: char) -> Option<int>
    decreases s.len(),
{
    if s.len() == 0 {
        None
    } else if s.last() == c {
        Some(s.len() - 1)
    } else {
        find_last(s.drop_last(), c)
    }
}

pub proof fn lemma_find_first_prefix(s: Seq<char>, c: char, k: int)
    requires
        0 <= k <= s.len(),
        find_first(s.take(k), c) is Some,
    ensures
        find_first(s, c) == find_first(s.take(k), c),
    decreases s.len() - k,
{
    if k < s.len() {
        assert(s.take(k + 1).drop_last() == s.take(k));
        lemma_find_first_prefix(s, c, k + 1);
    } else {
        assert(s.take(k) == s);
    }
}

pub proof fn lemma_find_first_none(s: Seq<char>, c: char)
    ensures
        find_first(s, c) is None <==> !contains_char(s, c),
        find_first(s, c) matches Some(i) ==> 0 <= i < s.len() && s[i] == c,
    decreases s.len(),
{
    if s.len() > 0 {
        lemma_find_first_none(s.drop_last(), c);
        if find_first(s.drop_last(), c) is None && s.last() != c {
            assert forall|i: int| 0 <= i < s.len() implies s[i] != c by {
                if i < s.len() - 1 {
                    assert(s[i] == s.drop_last()[i]);
                }
            }
        }
        if contains_char(s.drop_last(), c) {
            let i = choose|i: int| 0 <= i < s.drop_last().len() && s.drop_last()[i] == c;
            assert(s[i] == c);
        }
    }
}

pub fn find_char(v: &Vec<char>, c: char) -> (r: Option<usize>)
    ensures
        match r {
            Some(i) => find_first(v@, c) == Some(i as int),
            None => find_first(v@, c) is None,
        },
        r matches Some(i) ==> i < v.len() && v@[i as int] == c,
{
    let mut i: usize = 0;
    while i < v.len()
        invariant
            i <= v.len(),
            find_first(v@.take(i as int), c) is None,
        decreases v.len() - i,
    {
        assert(v@.take(i as int + 1).drop_last() == v@.take(i as int));
        if v[i] == c {
            proof {
                lemma_find_first_prefix(v@, c, i as int + 1);
            }
            return Some(i);
        }
        i = i + 1;
    }
    assert(v@.take(v.len() as int) == v@);
    None
}

pub fn rfind_char(v: &Vec<char>, c: char) -> (r: Option<usize>)
    ensures
        match r {
            Some(i) => find_last(v@, c) == Some(i as int),
            None => find_last(v@, c) is None,
        },
        r matches Some(i) ==> i < v.len() && v@[i as int] == c,
{
    let mut j: usize = v.len();
    assert(v@.take(j as int) == v@);
    while j > 0
        invariant
            j <= v.len(),
            find_last(v@, c) == find_last(v@.take(j as int), c),
        decreases j,
    {
        assert(v@.take(j as int).drop_last() == v@.take(j as int - 1));
        if v[j - 1] == c {
            return Some(j - 1);
        }
        j = j - 1;
    }
    None
}

// ---------------------------------------------------------------------------
// Decimal rendering (`u64` as `Display`) and char-count truncation
// ---------------------------------------------------------------------------

pub open spec fn digit_char(d: nat) -> char {
    ((48 + d) as u32) as char
}

/// The decimal digits of `n`, as `{}` renders an unsigned integer.
pub open spec fn decimal_of(n: nat) -> Seq<char>
    decreases n,
{
    if n < 10 {
        seq![digit_char(n)]
    } else {
        decimal_of(n / 10).push(digit_char(n % 10))
    }
}

pub fn decimal(n: u64) -> (r: Vec<char>)
    ensures
        r@ == decimal_of(n as nat),
    decreases n,
{
    if n < 10 {
        let c: char = ((48 + n) as u8) as char;
        let mut r: Vec<char> = Vec::new();
        r.push(c);
        assert(r@ == seq![digit_char(n as nat)]);
        r
    } else {
        let mut r = decimal(n / 10);
        let d: u64 = n % 10;
        let c: char = ((48 + d) as u8) as char;
        r.push(c);
        r
    }
}

/// The first `max` chars of `s` followed by an ellipsis when `s` is longer,
/// else `s` itself.
pub open spec fn truncated(s: Seq<char>, max: nat) -> Seq<char> {
    if s.len() <= max {
        s
    } else {
        s.take(max as int).push('\u{2026}')
    }
}

pub fn truncate_chars(text: &str, max_chars: usize) -> (r: String)
    ensures
        r@ == truncated(text@, max_chars as nat),
{
    let chars = chars_of(text);
    if chars.len() <= max_chars {
        text.to_string()
    } else {
        let mut head = slice(&chars, 0, max_chars);
        head.push('\u{2026}');
        string_from_chars(&head)
    }
}

} // verus!
