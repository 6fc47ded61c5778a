//! The daily Markdown file the backups write: a friendly date heading, then
//! one entry per note or transcript under its local clock time.
use vstd::prelude::*;

use crate::clock::{local_hour_minute, Timestamp};
use crate::text::{chars_of, decimal, decimal_of, lines, lines_of, push_all, push_str, string_from_chars, trim, trimmed, views};
use crate::transcript::Transcript;

verus! {

/// `NaiveDate::parse_from_str(day, "%Y-%m-%d")` as (year, month, day).
pub uninterp spec fn calendar_date_of(day: Seq<char>) -> Option<(i32, u32, u32)>;

/// `NaiveDate::parse_from_str` with `%Y-%m-%d`, then `Datelike::year`,
/// `month` and `day`. Claimed: the result is `calendar_date_of(day)`, and
/// chrono's documented ranges: month 1 to 12, day 1 to 31.
#[verifier::external_body]
fn parse_day(day: &str) -> (r: Option<(i32, u32, u32)>)
    ensures
        r == calendar_date_of(day@),
        r matches Some(d) ==> 1 <= d.1 <= 12 && 1 <= d.2 <= 31,
{
    match chrono::NaiveDate::parse_from_str(day, "%Y-%m-%d") {
        Ok(date) => Some((chrono::Datelike::year(&date), chrono::Datelike::month(&date), chrono::Datelike::day(&date))),
        Err(_) => None,
    }
}

/// English month names, as chrono's `%B` renders them.
pub open spec fn month_name(m: u32) -> Seq<char> {
    if m == 1 { "January"@ }
    else if m == 2 { "February"@ }
    else if m == 3 { "March"@ }
    else if m == 4 { "April"@ }
    else if m == 5 { "May"@ }
    else if m == 6 { "June"@ }
    else if m == 7 { "July"@ }
    else if m == 8 { "August"@ }
    else if m == 9 { "September"@ }
    else if m == 10 { "October"@ }
    else if m == 11 { "November"@ }
    else { "December"@ }
}

fn month_text(m: u32) -> (r: &'static str)
    ensures
        r@ == month_name(m),
{
    proof {
        reveal_strlit("January");
        reveal_strlit("February");
        reveal_strlit("March");
        reveal_strlit("April");
        reveal_strlit("May");
        reveal_strlit("June");
        reveal_strlit("July");
        reveal_strlit("August");
        reveal_strlit("September");
        reveal_strlit("October");
        reveal_strlit("November");
        reveal_strlit("December");
    }
    if m == 1 { "January" }
    else if m == 2 { "February" }
    else if m == 3 { "March" }
    else if m == 4 { "April" }
    else if m == 5 { "May" }
    else if m == 6 { "June" }
    else if m == 7 { "July" }
    else if m == 8 { "August" }
    else if m == 9 { "September" }
    else if m == 10 { "October" }
    else if m == 11 { "November" }
    else { "December" }
}

/// A signed year as `{}` renders it.
pub open spec fn year_text(y: i32) -> Seq<char> {
    if y < 0 {
        "-"@ + decimal_of((-y) as nat)
    } else {
        decimal_of(y as nat)
    }
}

/// "June 12, 2026" for "2026-06-12"; a day that does not parse is shown as
/// it is.
pub open spec fn heading_of(day: Seq<char>) -> Seq<char> {
    match calendar_date_of(day) {
        Some((y, m, d)) => month_name(m) + " "@ + decimal_of(d as nat) + ", "@ + year_text(y),
        None => day,
    }
}

pub fn day_heading(day: &str) -> (r: String)
    ensures
        r@ == heading_of(day@),
{
    match parse_day(day) {
        None => day.to_string(),
        Some((y, m, d)) => {
            let mut out = chars_of(month_text(m));
            push_str(&mut out, " ");
            push_all(&mut out, &decimal(d as u64));
            push_str(&mut out, ", ");
            if y < 0 {
                push_str(&mut out, "-");
                let magnitude: u64 = (0i64 - (y as i64)) as u64;
                push_all(&mut out, &decimal(magnitude));
            } else {
                push_all(&mut out, &decimal(y as u64));
            }
            string_from_chars(&out)
        },
    }
}

/// 12-hour clock time like "3:51 PM": no leading zero on the hour, two-digit
/// minutes.
pub open spec fn clock_text(hour: u32, minute: u32) -> Seq<char> {
    let h12: u32 = if hour == 0 {
        12
    } else if hour <= 12 {
        hour
    } else {
        (hour - 12) as u32
    };
    let meridiem = if hour < 12 {
        "AM"@
    } else {
        "PM"@
    };
    let mm = if minute < 10 {
        "0"@ + decimal_of(minute as nat)
    } else {
        decimal_of(minute as nat)
    };
    decimal_of(h12 as nat) + ":"@ + mm + " "@ + meridiem
}

pub fn format_time(hour: u32, minute: u32) -> (r: String)
    requires
        hour < 24,
        minute < 60,
    ensures
        r@ == clock_text(hour, minute),
{
    let h12: u32 = if hour == 0 {
        12
    } else if hour <= 12 {
        hour
    } else {
        hour - 12
    };
    let mut out = decimal(h12 as u64);
    push_str(&mut out, ":");
    if minute < 10 {
        push_str(&mut out, "0");
    }
    push_all(&mut out, &decimal(minute as u64));
    push_str(&mut out, " ");
    if hour < 12 {
        push_str(&mut out, "AM");
    } else {
        push_str(&mut out, "PM");
    }
    proof {
        reveal_strlit("AM");
        reveal_strlit("PM");
        reveal_strlit("0");
    }
    string_from_chars(&out)
}

/// The local clock time of an instant, empty for one chrono cannot
/// represent. Which hour and minute it shows depends on the machine's time
/// zone; an ordinary instant always gets one.
pub fn entry_time(at: Timestamp) -> (r: String)
    ensures
        r@.len() == 0 || exists|h: u32, m: u32| h < 24 && m < 60 && r@ == #[trigger] clock_text(h, m),
        crate::clock::ordinary_instant(at) ==> exists|h: u32, m: u32|
            h < 24 && m < 60 && r@ == #[trigger] clock_text(h, m),
{
    match local_hour_minute(at) {
        Some((h, m)) => format_time(h, m),
        None => String::new(),
    }
}

pub open spec fn summary_block(analysis: Option<String>) -> Seq<char> {
    match analysis {
        Some(a) => if trim(a@).len() == 0 {
            Seq::empty()
        } else {
            "\n"@ + crate::export::quoted_lines(lines(trim(a@)))
        },
        None => Seq::empty(),
    }
}

/// One entry: the bold time, the trimmed text, and (notes only) the summary
/// as a blockquote.
pub open spec fn entry_of(t: Transcript, time: Seq<char>, with_summary: bool) -> Seq<char> {
    "**"@ + time + "**\n\n"@ + trim(t.text@) + "\n"@ + (if with_summary {
        summary_block(t.analysis)
    } else {
        Seq::empty()
    }) + "\n"@
}

pub open spec fn entries_of(ts: Seq<Transcript>, times: Seq<Seq<char>>, with_summary: bool) -> Seq<char>
    decreases ts.len(),
{
    if ts.len() == 0 {
        Seq::empty()
    } else {
        entries_of(ts.drop_last(), times, with_summary) + entry_of(
            ts.last(),
            times[ts.len() - 1],
            with_summary,
        )
    }
}

/// The daily file: `# heading`, then the entries in the given order.
pub open spec fn daily_file(heading: Seq<char>, ts: Seq<Transcript>, times: Seq<Seq<char>>, with_summary: bool) -> Seq<char> {
    "# "@ + heading + "\n\n"@ + entries_of(ts, times, with_summary)
}

/// Renders a day's file from its entries and their clock times. The notes
/// log carries summaries; the full transcript backup does not.
pub fn render_day(heading: &str, entries: &Vec<Transcript>, times: &Vec<String>, with_summary: bool) -> (r: String)
    requires
        times.len() == entries.len(),
    ensures
        r@ == daily_file(heading@, entries@, times@.map_values(|s: String| s@), with_summary),
{
    let ghost tv = times@.map_values(|s: String| s@);
    let mut out = chars_of("# ");
    push_str(&mut out, heading);
    push_str(&mut out, "\n\n");
    let mut i: usize = 0;
    while i < entries.len()
        invariant
            i <= entries.len(),
            times.len() == entries.len(),
            tv == times@.map_values(|s: String| s@),
            out@ == "# "@ + heading@ + "\n\n"@ + entries_of(entries@.take(i as int), tv, with_summary),
        decreases entries.len() - i,
    {
        let ghost before = out@;
        assert(entries@.take(i as int + 1).drop_last() == entries@.take(i as int));
        let t = &entries[i];
        push_str(&mut out, "**");
        push_str(&mut out, times[i].as_str());
        push_str(&mut out, "**\n\n");
        push_all(&mut out, &trimmed(&chars_of(t.text.as_str())));
        push_str(&mut out, "\n");
        if with_summary {
            match &t.analysis {
                Some(a) => {
                    let body = trimmed(&chars_of(a.as_str()));
                    if body.len() > 0 {
                        push_str(&mut out, "\n");
                        let ls = lines_of(&body);
                        let mut k: usize = 0;
                        let ghost mid = out@;
                        while k < ls.len()
                            invariant
                                k <= ls.len(),
                                out@ == mid + crate::export::quoted_lines(views(ls@).take(k as int)),
                            decreases ls.len() - k,
                        {
                            assert(views(ls@).take(k as int + 1).drop_last() == views(ls@).take(k as int));
                            push_str(&mut out, "> ");
                            push_all(&mut out, &ls[k]);
                            push_str(&mut out, "\n");
                            k = k + 1;
                        }
                        assert(views(ls@).take(ls.len() as int) == views(ls@));
                    }
                },
                None => {},
            }
        }
        push_str(&mut out, "\n");
        proof {
            assert(tv[i as int] == times@[i as int]@);
            assert(out@ =~= before + entry_of(entries@[i as int], tv[i as int], with_summary));
        }
        i = i + 1;
    }
    assert(entries@.take(entries.len() as int) == entries@);
    string_from_chars(&out)
}

// --- grouping entries by day ---------------------------------------------------

/// Code-point order of strings (the order of their UTF-8 bytes).
pub open spec fn lex_lt(a: Seq<char>, b: Seq<char>) -> bool
    decreases a.len(),
{
    if a.len() == 0 {
        b.len() > 0
    } else if b.len() == 0 {
        false
    } else if a[0] == b[0] {
        lex_lt(a.drop_first(), b.drop_first())
    } else {
        (a[0] as int) < (b[0] as int)
    }
}

pub proof fn lemma_lex_total(a: Seq<char>, b: Seq<char>)
    ensures
        a == b || lex_lt(a, b) || lex_lt(b, a),
    decreases a.len(),
{
    if a.len() > 0 && b.len() > 0 && a[0] == b[0] {
        lemma_lex_total(a.drop_first(), b.drop_first());
        if a.drop_first() == b.drop_first() {
            assert(a == seq![a[0]] + a.drop_first());
            assert(b == seq![b[0]] + b.drop_first());
        }
    } else if a.len() > 0 && b.len() > 0 {
        assert((a[0] as int) != (b[0] as int));
    } else if a.len() == 0 && b.len() == 0 {
        assert(a =~= b);
    }
}

/// Code-point order is transitive.
pub proof fn lemma_lex_transitive(a: Seq<char>, b: Seq<char>, c: Seq<char>)
    requires
        lex_lt(a, b),
        lex_lt(b, c),
    ensures
        lex_lt(a, c),
    decreases a.len(),
{
    if a.len() > 0 && b.len() > 0 && c.len() > 0 && a[0] == b[0] && b[0] == c[0] {
        lemma_lex_transitive(a.drop_first(), b.drop_first(), c.drop_first());
    }
}

/// Groups whose keys ascend step by step ascend throughout.
pub proof fn lemma_groups_ascending(g: Seq<(Vec<char>, Vec<usize>)>, p: int, q: int)
    requires
        forall|k: int| 0 <= k < g.len() - 1 ==> lex_lt(#[trigger] g[k].0@, g[k + 1].0@),
        0 <= p < q < g.len(),
    ensures
        lex_lt(g[p].0@, g[q].0@),
    decreases q - p,
{
    if q > p + 1 {
        lemma_groups_ascending(g, p, q - 1);
        assert(lex_lt(g[q - 1].0@, g[q].0@));
        lemma_lex_transitive(g[p].0@, g[q - 1].0@, g[q].0@);
    } else {
        assert(lex_lt(g[p].0@, g[p + 1].0@));
    }
}

pub fn lex_less(a: &Vec<char>, b: &Vec<char>) -> (r: bool)
    ensures
        r == lex_lt(a@, b@),
{
    let mut i: usize = 0;
    assert(a@.skip(0) == a@);
    assert(b@.skip(0) == b@);
    while i < a.len() && i < b.len() && a[i] == b[i]
        invariant
            i <= a.len(),
            i <= b.len(),
            lex_lt(a@, b@) == lex_lt(a@.skip(i as int), b@.skip(i as int)),
        decreases a.len() - i,
    {
        assert(a@.skip(i as int).drop_first() == a@.skip(i as int + 1));
        assert(b@.skip(i as int).drop_first() == b@.skip(i as int + 1));
        i = i + 1;
    }
    assert(a@.skip(i as int).len() == a.len() - i);
    assert(b@.skip(i as int).len() == b.len() - i);
    if i == a.len() {
        i < b.len()
    } else if i == b.len() {
        false
    } else {
        assert(a@.skip(i as int)[0] == a@[i as int]);
        assert(b@.skip(i as int)[0] == b@[i as int]);
        a[i] < b[i]
    }
}

pub open spec fn total_len(g: Seq<(Vec<char>, Vec<usize>)>) -> nat
    decreases g.len(),
{
    if g.len() == 0 {
        0
    } else {
        total_len(g.drop_last()) + g.last().1@.len()
    }
}

/// Position `i` is filed in some group.
pub open spec fn filed(g: Seq<(Vec<char>, Vec<usize>)>, i: int) -> bool {
    exists|p: int| 0 <= p < g.len() && #[trigger] g[p].1@.contains(i as usize)
}

/// `g` groups positions `0..n` of `days` by day: keys distinct and
/// ascending, no group empty, each position filed, in order, under its own
/// day.
pub open spec fn grouped(g: Seq<(Vec<char>, Vec<usize>)>, days: Seq<Seq<char>>, n: int) -> bool {
    &&& forall|p: int, q: int| 0 <= p < q < g.len() ==> g[p].0@ != g[q].0@
    &&& forall|p: int| 0 <= p < g.len() - 1 ==> lex_lt(#[trigger] g[p].0@, g[p + 1].0@)
    &&& forall|p: int, k: int|
        #![trigger g[p].1@[k]]
        0 <= p < g.len() && 0 <= k < g[p].1@.len() ==> g[p].1@[k] < n && days[g[p].1@[k] as int]
            == g[p].0@
    &&& forall|p: int, k: int, l: int|
        0 <= p < g.len() && 0 <= k < l < g[p].1@.len() ==> #[trigger] g[p].1@[k] < #[trigger] g[p].1@[l]
    &&& forall|p: int| 0 <= p < g.len() ==> #[trigger] g[p].1@.len() > 0
    &&& forall|i: int| 0 <= i < n ==> #[trigger] filed(g, i)
    &&& total_len(g) == n
}

proof fn lemma_total_len_update(g: Seq<(Vec<char>, Vec<usize>)>, p: int, e: (Vec<char>, Vec<usize>))
    requires
        0 <= p < g.len(),
    ensures
        total_len(g.update(p, e)) == total_len(g) - g[p].1@.len() + e.1@.len(),
    decreases g.len(),
{
    if p < g.len() - 1 {
        lemma_total_len_update(g.drop_last(), p, e);
        assert(g.update(p, e).drop_last() == g.drop_last().update(p, e));
    } else {
        assert(g.update(p, e).drop_last() == g.drop_last());
    }
}

proof fn lemma_total_len_insert(g: Seq<(Vec<char>, Vec<usize>)>, p: int, e: (Vec<char>, Vec<usize>))
    requires
        0 <= p <= g.len(),
    ensures
        total_len(g.insert(p, e)) == total_len(g) + e.1@.len(),
    decreases g.len(),
{
    if p == g.len() {
        assert(g.insert(p, e).drop_last() == g);
    } else {
        lemma_total_len_insert(g.drop_last(), p, e);
        assert(g.insert(p, e).drop_last() == g.drop_last().insert(p, e));
    }
}

proof fn lemma_file_existing(
    before: Seq<(Vec<char>, Vec<usize>)>,
    after: Seq<(Vec<char>, Vec<usize>)>,
    dv: Seq<Seq<char>>,
    at: int,
    i: int,
)
    requires
        grouped(before, dv, i),
        0 <= at < before.len(),
        0 <= i < dv.len(),
        i < usize::MAX,
        before[at].0@ == dv[i],
        after.len() == before.len(),
        after[at].0@ == before[at].0@,
        after[at].1@ == before[at].1@.push(i as usize),
        forall|p: int| 0 <= p < before.len() && p != at ==> after[p] == before[p],
    ensures
        grouped(after, dv, i + 1),
{
    assert(after == before.update(at, after[at]));
    lemma_total_len_update(before, at, after[at]);
    assert forall|pp: int, k: int|
        #![trigger after[pp].1@[k]]
        0 <= pp < after.len() && 0 <= k < after[pp].1@.len() implies after[pp].1@[k] < i + 1
        && dv[after[pp].1@[k] as int] == after[pp].0@ by {
        if pp == at {
            if k < before[pp].1@.len() {
                assert(after[pp].1@[k] == before[pp].1@[k]);
                assert(before[pp].1@[k] < i);
            } else {
                assert(after[pp].1@[k] == i as usize);
            }
        } else {
            assert(after[pp] == before[pp]);
            assert(before[pp].1@[k] < i);
        }
    }
    assert forall|pp: int, k: int, l: int|
        0 <= pp < after.len() && 0 <= k < l < after[pp].1@.len() implies #[trigger] after[pp].1@[k]
        < #[trigger] after[pp].1@[l] by {
        if pp == at {
            assert(after[pp].1@[k] == before[pp].1@[k]);
            assert(before[pp].1@[k] < i);
            if l < before[pp].1@.len() {
                assert(after[pp].1@[l] == before[pp].1@[l]);
            } else {
                assert(after[pp].1@[l] == i as usize);
            }
        } else {
            assert(after[pp] == before[pp]);
        }
    }
    assert forall|ii: int| 0 <= ii < i + 1 implies #[trigger] filed(after, ii) by {
        if ii == i {
            assert(after[at].1@[after[at].1@.len() - 1] == ii as usize);
            assert(after[at].1@.contains(ii as usize));
        } else {
            assert(filed(before, ii));
            let pp = choose|pp: int| 0 <= pp < before.len() && #[trigger] before[pp].1@.contains(ii as usize);
            let k = choose|k: int| 0 <= k < before[pp].1@.len() && before[pp].1@[k] == ii as usize;
            if pp == at {
                assert(after[pp].1@[k] == ii as usize);
            }
            assert(after[pp].1@.contains(ii as usize));
        }
    }
    assert forall|pp: int| 0 <= pp < after.len() - 1 implies lex_lt(#[trigger] after[pp].0@, after[pp + 1].0@) by {
        assert(after[pp].0@ == before[pp].0@);
        assert(after[pp + 1].0@ == before[pp + 1].0@);
    }
    assert forall|pp: int, qq: int| 0 <= pp < qq < after.len() implies after[pp].0@ != after[qq].0@ by {
        assert(after[pp].0@ == before[pp].0@);
        assert(after[qq].0@ == before[qq].0@);
    }
}

#[verifier::rlimit(60)]
proof fn lemma_insert_group(
    before: Seq<(Vec<char>, Vec<usize>)>,
    dv: Seq<Seq<char>>,
    q: int,
    e: (Vec<char>, Vec<usize>),
    i: int,
)
    requires
        grouped(before, dv, i),
        0 <= q <= before.len(),
        0 <= i < dv.len(),
        i < usize::MAX,
        e.0@ == dv[i],
        e.1@ == seq![i as usize],
        forall|r: int| 0 <= r < before.len() ==> before[r].0@ != e.0@,
        forall|r: int| 0 <= r < q ==> !lex_lt(e.0@, before[r].0@),
        q < before.len() ==> lex_lt(e.0@, before[q].0@),
    ensures
        grouped(before.insert(q, e), dv, i + 1),
{
    let after = before.insert(q, e);
    lemma_total_len_insert(before, q, e);
    if q > 0 {
        lemma_lex_total(e.0@, before[q - 1].0@);
    }
    assert forall|pp: int, qq: int| 0 <= pp < qq < after.len() implies after[pp].0@ != after[qq].0@ by {
        if pp < q && qq > q {
            assert(after[pp] == before[pp]);
            assert(after[qq] == before[qq - 1]);
        } else if pp < q && qq < q {
            assert(after[pp] == before[pp]);
            assert(after[qq] == before[qq]);
        } else if pp > q {
            assert(after[pp] == before[pp - 1]);
            assert(after[qq] == before[qq - 1]);
        } else if pp == q {
            assert(after[qq] == before[qq - 1]);
        } else {
            assert(after[pp] == before[pp]);
        }
    }
    assert forall|pp: int| 0 <= pp < after.len() - 1 implies lex_lt(#[trigger] after[pp].0@, after[pp + 1].0@) by {
        if pp + 1 < q {
            assert(after[pp] == before[pp]);
            assert(after[pp + 1] == before[pp + 1]);
        } else if pp + 1 == q {
            assert(after[pp] == before[pp]);
        } else if pp == q {
            assert(after[pp + 1] == before[pp]);
        } else {
            assert(after[pp] == before[pp - 1]);
            assert(after[pp + 1] == before[pp]);
        }
    }
    assert forall|pp: int, k: int|
        #![trigger after[pp].1@[k]]
        0 <= pp < after.len() && 0 <= k < after[pp].1@.len() implies after[pp].1@[k] < i + 1
        && dv[after[pp].1@[k] as int] == after[pp].0@ by {
        if pp < q {
            assert(after[pp] == before[pp]);
            assert(before[pp].1@[k] < i);
        } else if pp > q {
            assert(after[pp] == before[pp - 1]);
            assert(before[pp - 1].1@[k] < i);
        } else {
            assert(after[pp] == e);
            assert(e.1@[k] == i as usize);
        }
    }
    assert forall|pp: int, k: int, l: int|
        0 <= pp < after.len() && 0 <= k < l < after[pp].1@.len() implies #[trigger] after[pp].1@[k]
        < #[trigger] after[pp].1@[l] by {
        if pp < q {
            assert(after[pp] == before[pp]);
        } else if pp > q {
            assert(after[pp] == before[pp - 1]);
        } else {
            assert(after[pp] == e);
        }
    }
    assert forall|ii: int| 0 <= ii < i + 1 implies #[trigger] filed(after, ii) by {
        if ii == i {
            assert(after[q].1@[0] == ii as usize);
            assert(after[q].1@.contains(ii as usize));
        } else {
            assert(filed(before, ii));
            let pp = choose|pp: int| 0 <= pp < before.len() && #[trigger] before[pp].1@.contains(ii as usize);
            if pp < q {
                assert(after[pp] == before[pp]);
                assert(after[pp].1@.contains(ii as usize));
            } else {
                assert(after[pp + 1] == before[pp]);
                assert(after[pp + 1].1@.contains(ii as usize));
            }
        }
    }
}

/// Groups positions `0..days.len()` by day, days ascending.
pub fn day_groups(days: &Vec<Vec<char>>) -> (g: Vec<(Vec<char>, Vec<usize>)>)
    ensures
        grouped(g@, views(days@), days.len() as int),
{
    let ghost dv = views(days@);
    let mut g: Vec<(Vec<char>, Vec<usize>)> = Vec::new();
    let mut i: usize = 0;
    while i < days.len()
        invariant
            dv == views(days@),
            i <= days.len(),
            grouped(g@, dv, i as int),
        decreases days.len() - i,
    {
        let day = &days[i];
        let mut p: usize = 0;
        let mut found = false;
        while p < g.len() && !found
            invariant
                p <= g.len(),
                !found ==> forall|q: int| 0 <= q < p ==> g@[q].0@ != day@,
                found ==> p >= 1 && g@[p - 1].0@ == day@,
            decreases g.len() - p,
        {
            if crate::text::eq_chars(&g[p].0, day) {
                found = true;
            }
            p = p + 1;
        }
        let ghost before = g@;
        if found {
            let at = p - 1;
            let mut filed_now = g[at].1.clone();
            filed_now.push(i);
            let entry = (g[at].0.clone(), filed_now);
            g.set(at, entry);
            proof {
                lemma_file_existing(before, g@, dv, at as int, i as int);
            }
        } else {
            let mut q: usize = 0;
            while q < g.len() && !lex_less(day, &g[q].0)
                invariant
                    q <= g.len(),
                    forall|r: int| 0 <= r < q ==> !lex_lt(day@, g@[r].0@),
                decreases g.len() - q,
            {
                q = q + 1;
            }
            let mut fresh: Vec<usize> = Vec::new();
            fresh.push(i);
            let entry = (day.clone(), fresh);
            let ghost added = entry;
            g.insert(q, entry);
            proof {
                assert(added.1@ == seq![i as usize]);
                lemma_insert_group(before, dv, q as int, added, i as int);
            }
        }
        i = i + 1;
    }
    g
}

// --- ordering a day's entries by time -----------------------------------------

/// Instants in time order (seconds, then nanoseconds).
pub open spec fn time_lt(a: Timestamp, b: Timestamp) -> bool {
    a.secs < b.secs || (a.secs == b.secs && a.nanos < b.nanos)
}

/// Entry `a` comes before entry `b`: earlier, or at the same instant and
/// given earlier (a stable sort by time).
pub open spec fn comes_before(times: Seq<Timestamp>, a: usize, b: usize) -> bool {
    time_lt(times[a as int], times[b as int]) || (times[a as int] == times[b as int] && a < b)
}

pub open spec fn ordered_by_time(times: Seq<Timestamp>, s: Seq<usize>) -> bool {
    forall|k: int| 0 <= k < s.len() - 1 ==> comes_before(times, #[trigger] s[k], s[k + 1])
}

/// In a sequence ordered by time, every earlier position comes before every
/// later one.
pub proof fn lemma_ordered_by_time_pairs(times: Seq<Timestamp>, s: Seq<usize>)
    requires
        ordered_by_time(times, s),
    ensures
        forall|i: int, j: int| 0 <= i < j < s.len() ==> comes_before(times, #[trigger] s[i], #[trigger] s[j]),
    decreases s.len(),
{
    if s.len() > 1 {
        let t = s.drop_last();
        assert forall|k: int| 0 <= k < t.len() - 1 implies comes_before(times, #[trigger] t[k], t[k + 1]) by {
            assert(comes_before(times, s[k], s[k + 1]));
        }
        lemma_ordered_by_time_pairs(times, t);
        assert forall|i: int, j: int| 0 <= i < j < s.len() implies comes_before(times, #[trigger] s[i], #[trigger] s[j]) by {
            if j < s.len() - 1 {
                assert(t[i] == s[i] && t[j] == s[j]);
            } else if i < j - 1 {
                assert(t[i] == s[i] && t[j - 1] == s[j - 1]);
                assert(comes_before(times, s[i], s[j - 1]));
                assert(comes_before(times, s[j - 1], s[j]));
            } else {
                assert(comes_before(times, s[j - 1], s[j]));
            }
        }
    }
}

fn entry_before(times: &Vec<Timestamp>, a: usize, b: usize) -> (r: bool)
    requires
        a < times.len(),
        b < times.len(),
    ensures
        r == comes_before(times@, a, b),
{
    let ta = times[a];
    let tb = times[b];
    ta.secs < tb.secs || (ta.secs == tb.secs && ta.nanos < tb.nanos) || (ta.secs == tb.secs
        && ta.nanos == tb.nanos && a < b)
}

/// The positions `idx` (given in increasing order) sorted stably by the
/// time of their entries.
pub fn sort_by_time(idx: &Vec<usize>, times: &Vec<Timestamp>) -> (r: Vec<usize>)
    requires
        forall|k: int| 0 <= k < idx.len() ==> idx@[k] < times.len(),
        forall|k: int, l: int| 0 <= k < l < idx.len() ==> idx@[k] < idx@[l],
    ensures
        r.len() == idx.len(),
        forall|x: usize| r@.contains(x) <==> idx@.contains(x),
        ordered_by_time(times@, r@),
{
    let mut out: Vec<usize> = Vec::new();
    let mut j: usize = 0;
    while j < idx.len()
        invariant
            j <= idx.len(),
            forall|k: int| 0 <= k < idx.len() ==> idx@[k] < times.len(),
            forall|k: int, l: int| 0 <= k < l < idx.len() ==> idx@[k] < idx@[l],
            out.len() == j,
            forall|q: int| 0 <= q < out.len() ==> out@[q] < times.len(),
            forall|x: usize| out@.contains(x) <==> idx@.take(j as int).contains(x),
            ordered_by_time(times@, out@),
        decreases idx.len() - j,
    {
        let x = idx[j];
        let mut p: usize = 0;
        while p < out.len() && !entry_before(times, x, out[p])
            invariant
                p <= out.len(),
                x < times.len(),
                forall|q: int| 0 <= q < out.len() ==> out@[q] < times.len(),
                forall|q: int| 0 <= q < p ==> !comes_before(times@, x, out@[q]),
            decreases out.len() - p,
        {
            p = p + 1;
        }
        let ghost before = out@;
        proof {
            assert forall|q: int| 0 <= q < before.len() implies before[q] != x by {
                assert(before.contains(before[q]));
                assert(idx@.take(j as int).contains(before[q]));
                let k = choose|k: int| 0 <= k < j && idx@.take(j as int)[k] == before[q];
                assert(idx@[k] < idx@[j as int]);
            }
        }
        out.insert(p, x);
        proof {
            assert(out@ == before.insert(p as int, x));
            assert(idx@.take(j as int + 1) == idx@.take(j as int).push(x));
            assert forall|q: int| 0 <= q < out@.len() implies out@[q] < times.len() by {
                if q < p {
                    assert(out@[q] == before[q]);
                } else if q > p {
                    assert(out@[q] == before[q - 1]);
                }
            }
            let tj = idx@.take(j as int);
            let tj1 = idx@.take(j as int + 1);
            assert forall|y: usize| out@.contains(y) <==> tj1.contains(y) by {
                if out@.contains(y) {
                    let q = choose|q: int| 0 <= q < out@.len() && out@[q] == y;
                    if q < p {
                        assert(before[q] == y);
                        assert(before.contains(y));
                        assert(tj.contains(y));
                    } else if q > p {
                        assert(before[q - 1] == y);
                        assert(before.contains(y));
                        assert(tj.contains(y));
                    }
                    if tj.contains(y) {
                        let k = choose|k: int| 0 <= k < tj.len() && tj[k] == y;
                        assert(tj1[k] == y);
                    } else {
                        assert(tj1[j as int] == y);
                    }
                }
                if tj1.contains(y) {
                    let k = choose|k: int| 0 <= k < tj1.len() && tj1[k] == y;
                    if k < j {
                        assert(tj[k] == y);
                        assert(tj.contains(y));
                        assert(before.contains(y));
                        let q = choose|q: int| 0 <= q < before.len() && before[q] == y;
                        if q < p {
                            assert(out@[q] == y);
                        } else {
                            assert(out@[q + 1] == y);
                        }
                    } else {
                        assert(y == x);
                        assert(out@[p as int] == y);
                    }
                }
            }
            assert forall|k: int| 0 <= k < out@.len() - 1 implies comes_before(
                times@,
                #[trigger] out@[k],
                out@[k + 1],
            ) by {
                if k + 1 < p {
                    assert(out@[k] == before[k] && out@[k + 1] == before[k + 1]);
                } else if k + 1 == p {
                    assert(out@[k] == before[k]);
                    assert(!comes_before(times@, x, before[k]));
                    assert(before[k] != x);
                } else if k == p {
                    assert(out@[k + 1] == before[k]);
                } else {
                    assert(out@[k] == before[k - 1] && out@[k + 1] == before[k]);
                }
            }
        }
        j = j + 1;
    }
    assert(idx@.take(idx.len() as int) == idx@);
    out
}


// --- the daily files of a backup ---------------------------------------------

/// One daily file of a backup: its local day (`YYYY-MM-DD`), its rendered
/// Markdown, how many entries it holds, and their positions in the backed-up
/// list, in the order the file shows them.
pub struct DayFile {
    pub day: String,
    pub content: String,
    pub entries: usize,
    pub positions: Vec<usize>,
}

/// Some file shows the entry at position `i`.
pub open spec fn holds_entry(files: Seq<DayFile>, i: int) -> bool {
    exists|f: int, k: int|
        0 <= f < files.len() && 0 <= k < files[f].positions.len() && #[trigger] files[f].positions@[k]
            == i
}

/// The instants of `entries`, in order.
pub open spec fn created_times(entries: Seq<Transcript>) -> Seq<Timestamp> {
    entries.map_values(|t: Transcript| t.created_at)
}

/// The entries at `positions`, in that order.
pub open spec fn entry_rows(entries: Seq<Transcript>, positions: Seq<usize>) -> Seq<Transcript> {
    positions.map_values(|p: usize| entries[p as int])
}

/// Entries held across `files`.
pub open spec fn total_entries(files: Seq<DayFile>) -> nat
    decreases files.len(),
{
    if files.len() == 0 {
        0
    } else {
        total_entries(files.drop_last()) + files.last().entries as nat
    }
}

/// A prefix of the files holds no more entries than all of them.
pub proof fn lemma_total_entries_prefix(files: Seq<DayFile>, k: int)
    requires
        0 <= k <= files.len(),
    ensures
        total_entries(files.take(k)) <= total_entries(files),
    decreases files.len(),
{
    if k == files.len() {
        assert(files.take(k) == files);
    } else {
        lemma_total_entries_prefix(files.drop_last(), k);
        assert(files.drop_last().take(k) == files.take(k));
    }
}

/// What the daily files of a backup of `entries` are: one per local
/// calendar day, days distinct and ascending, each day's entries in time
/// order under the friendly date heading, every entry in exactly one file,
/// once.
pub open spec fn backup_files(entries: Seq<Transcript>, with_summary: bool, files: Seq<DayFile>) -> bool {
    &&& total_entries(files) == entries.len()
    &&& files.len() <= entries.len()
    &&& forall|f: int|
        0 <= f < files.len() ==> (#[trigger] files[f]).entries >= 1 && files[f].entries
            == files[f].positions.len()
    &&& forall|f: int, k: int|
        0 <= f < files.len() && 0 <= k < files[f].positions.len() ==> #[trigger] files[f].positions@[k]
            < entries.len()
    &&& forall|i: int| 0 <= i < entries.len() ==> #[trigger] holds_entry(files, i)
    &&& forall|f1: int, k1: int, f2: int, k2: int|
        0 <= f1 < files.len() && 0 <= k1 < files[f1].positions.len() && 0 <= f2 < files.len() && 0 <= k2
            < files[f2].positions.len() && #[trigger] files[f1].positions@[k1]
            == #[trigger] files[f2].positions@[k2] ==> f1 == f2 && k1 == k2
    &&& forall|f: int| 0 <= f < files.len() ==> ordered_by_time(created_times(entries), (#[trigger] files[f]).positions@)
    &&& forall|f1: int, f2: int| 0 <= f1 < f2 < files.len() ==> lex_lt((#[trigger] files[f1]).day@, (#[trigger] files[f2]).day@)
    &&& forall|f: int|
        0 <= f < files.len() ==> exists|times: Seq<Seq<char>>|
            times.len() == (#[trigger] files[f]).positions.len() && files[f].content@ == daily_file(
                heading_of(files[f].day@),
                entry_rows(entries, files[f].positions@),
                times,
                with_summary,
            )
}

/// The daily files of a backup of `entries`: one per local calendar day,
/// days distinct and ascending, each day's entries in time order under the
/// friendly date heading. Notes carry their summaries (`with_summary`); the
/// transcript backup does not. Every entry lands in exactly one file, once.
pub fn day_files(entries: &Vec<Transcript>, with_summary: bool) -> (r: Vec<DayFile>)
    ensures
        backup_files(entries@, with_summary, r@),
{
    let mut days: Vec<Vec<char>> = Vec::new();
    let mut times: Vec<Timestamp> = Vec::new();
    let mut i: usize = 0;
    while i < entries.len()
        invariant
            i <= entries.len(),
            days.len() == i,
            times.len() == i,
            forall|k: int| 0 <= k < i ==> times@[k] == (#[trigger] entries@[k]).created_at,
        decreases entries.len() - i,
    {
        let day = match crate::clock::format_local(entries[i].created_at, crate::clock::LocalPattern::Day) {
            Some(d) => chars_of(d.as_str()),
            None => Vec::new(),
        };
        days.push(day);
        times.push(entries[i].created_at);
        i = i + 1;
    }
    assert(times@ =~= created_times(entries@));
    let ghost ctimes = created_times(entries@);
    let groups = day_groups(&days);
    let ghost dv = views(days@);
    let mut out: Vec<DayFile> = Vec::new();
    let mut g: usize = 0;
    while g < groups.len()
        invariant
            grouped(groups@, dv, entries.len() as int),
            dv == views(days@),
            times@ == ctimes,
            ctimes == created_times(entries@),
            times.len() == entries.len(),
            g <= groups.len(),
            out.len() == g,
            out.len() <= total_entries(out@),
            total_entries(out@) == total_len(groups@.take(g as int)),
            forall|f: int|
                0 <= f < out.len() ==> (#[trigger] out@[f]).entries >= 1 && out@[f].entries
                    == out@[f].positions.len(),
            forall|f: int| 0 <= f < out.len() ==> (#[trigger] out@[f]).day@ == groups@[f].0@,
            forall|f: int, x: usize|
                0 <= f < out.len() ==> (#[trigger] out@[f].positions@.contains(x)
                    <==> groups@[f].1@.contains(x)),
            forall|f: int, k: int|
                0 <= f < out.len() && 0 <= k < out@[f].positions.len() ==> #[trigger] out@[f].positions@[k]
                    < entries.len(),
            forall|f: int| 0 <= f < out.len() ==> ordered_by_time(ctimes, (#[trigger] out@[f]).positions@),
            forall|f: int|
                0 <= f < out.len() ==> exists|ts: Seq<Seq<char>>|
                    ts.len() == (#[trigger] out@[f]).positions.len() && out@[f].content@ == daily_file(
                        heading_of(out@[f].day@),
                        entry_rows(entries@, out@[f].positions@),
                        ts,
                        with_summary,
                    ),
        decreases groups.len() - g,
    {
        let (day, members) = (&groups[g].0, &groups[g].1);
        proof {
            assert forall|k: int| 0 <= k < members.len() implies members@[k] < times.len() by {
                assert(groups@[g as int].1@[k] == members@[k]);
            }
            assert forall|k: int, l: int| 0 <= k < l < members.len() implies members@[k]
                < members@[l] by {
                assert(groups@[g as int].1@[k] < groups@[g as int].1@[l]);
            }
        }
        let order = sort_by_time(members, &times);
        proof {
            assert forall|q: int| 0 <= q < order.len() implies order@[q] < entries.len() by {
                assert(order@.contains(order@[q]));
                assert(members@.contains(order@[q]));
                let k = choose|k: int| 0 <= k < members@.len() && members@[k] == order@[q];
                assert(groups@[g as int].1@[k] == members@[k]);
            }
        }
        let mut rows: Vec<Transcript> = Vec::new();
        let mut stamps: Vec<String> = Vec::new();
        let mut k: usize = 0;
        while k < order.len()
            invariant
                k <= order.len(),
                rows.len() == k,
                stamps.len() == k,
                forall|q: int| 0 <= q < order.len() ==> order@[q] < entries.len(),
                forall|q: int| 0 <= q < k ==> rows@[q] == entries@[order@[q] as int],
            decreases order.len() - k,
        {
            stamps.push(entry_time(entries[order[k]].created_at));
            rows.push(entries[order[k]].copy());
            k = k + 1;
        }
        assert(rows@ =~= entry_rows(entries@, order@));
        let day_text = string_from_chars(day);
        let heading = day_heading(day_text.as_str());
        let content = render_day(heading.as_str(), &rows, &stamps, with_summary);
        proof {
            assert(groups@.take(g as int + 1).drop_last() == groups@.take(g as int));
            assert(groups@.take(g as int + 1).last() == groups@[g as int]);
            assert(members@.len() >= 1);
        }
        let count = order.len();
        let file = DayFile { day: day_text, content, entries: count, positions: order };
        proof {
            let ts = stamps@.map_values(|s: String| s@);
            assert(ts.len() == file.positions.len());
            assert(file.content@ == daily_file(
                heading_of(file.day@),
                entry_rows(entries@, file.positions@),
                ts,
                with_summary,
            ));
            assert(out@.push(file).drop_last() == out@);
        }
        let ghost before = out@;
        out.push(file);
        proof {
            assert forall|f: int| 0 <= f < out.len() implies exists|ts: Seq<Seq<char>>|
                ts.len() == (#[trigger] out@[f]).positions.len() && out@[f].content@ == daily_file(
                    heading_of(out@[f].day@),
                    entry_rows(entries@, out@[f].positions@),
                    ts,
                    with_summary,
                ) by {
                if f < g {
                    assert(out@[f] == before[f]);
                } else {
                    let ts = stamps@.map_values(|s: String| s@);
                    assert(ts.len() == out@[f].positions.len());
                }
            }
            assert forall|f: int, x: usize|
                0 <= f < out.len() implies (#[trigger] out@[f].positions@.contains(x)
                    <==> groups@[f].1@.contains(x)) by {
                if f < g {
                    assert(out@[f] == before[f]);
                }
            }
        }
        g = g + 1;
    }
    proof {
        assert(groups@.take(groups.len() as int) == groups@);
        assert forall|i: int| 0 <= i < entries.len() implies #[trigger] holds_entry(out@, i) by {
            assert(filed(groups@, i));
            let p = choose|p: int| 0 <= p < groups@.len() && #[trigger] groups@[p].1@.contains(i as usize);
            assert(out@[p].positions@.contains(i as usize));
            let k = choose|k: int| 0 <= k < out@[p].positions@.len() && out@[p].positions@[k] == i as usize;
            assert(out@[p].positions@[k] == i);
        }
        assert forall|f1: int, k1: int, f2: int, k2: int|
            0 <= f1 < out.len() && 0 <= k1 < out@[f1].positions.len() && 0 <= f2 < out.len() && 0 <= k2
                < out@[f2].positions.len() && #[trigger] out@[f1].positions@[k1]
                == #[trigger] out@[f2].positions@[k2] implies f1 == f2 && k1 == k2 by {
            let x = out@[f1].positions@[k1];
            assert(out@[f1].positions@.contains(x));
            assert(out@[f2].positions@.contains(x));
            assert(groups@[f1].1@.contains(x));
            assert(groups@[f2].1@.contains(x));
            let a = choose|a: int| 0 <= a < groups@[f1].1@.len() && groups@[f1].1@[a] == x;
            let b = choose|b: int| 0 <= b < groups@[f2].1@.len() && groups@[f2].1@[b] == x;
            assert(dv[groups@[f1].1@[a] as int] == groups@[f1].0@);
            assert(dv[groups@[f2].1@[b] as int] == groups@[f2].0@);
            if f1 != f2 {
                if f1 < f2 {
                    assert(groups@[f1].0@ != groups@[f2].0@);
                } else {
                    assert(groups@[f2].0@ != groups@[f1].0@);
                }
            }
            lemma_ordered_by_time_pairs(ctimes, out@[f1].positions@);
            if k1 < k2 {
                assert(comes_before(ctimes, out@[f1].positions@[k1], out@[f1].positions@[k2]));
            } else if k2 < k1 {
                assert(comes_before(ctimes, out@[f1].positions@[k2], out@[f1].positions@[k1]));
            }
        }
        assert forall|f1: int, f2: int| 0 <= f1 < f2 < out.len() implies lex_lt(
            (#[trigger] out@[f1]).day@,
            (#[trigger] out@[f2]).day@,
        ) by {
            lemma_groups_ascending(groups@, f1, f2);
            assert(out@[f1].day@ == groups@[f1].0@);
            assert(out@[f2].day@ == groups@[f2].0@);
        }
    }
    out
}

} // verus!
