//! Export of transcripts as a Markdown document or RFC 4180 CSV. Both are
//! renderers over the rows: fetching them and writing the file is the
//! caller's. Markdown headings show local time, which depends on the
//! machine's time zone, so the Markdown document is stated over the headings
//! it was given.
use vstd::prelude::*;

use crate::clock::{format_local, ordinary_instant, rfc3339_of, to_rfc3339, LocalPattern};
use crate::text::{
    chars_of, contains_char, decimal, decimal_of, has_char, join, join_chars, lines, lines_of, push_all,
    push_str, string_from_chars, trim, trimmed, views,
};
use crate::transcript::Transcript;

verus! {

// --- CSV -----------------------------------------------------------------------

/// `s` with every double quote doubled.
pub open spec fn double_quotes(s: Seq<char>) -> Seq<char>
    decreases s.len(),
{
    if s.len() == 0 {
        s
    } else {
        let rest = double_quotes(s.drop_last());
        if s.last() == '"' {
            rest + seq!['"', '"']
        } else {
            rest.push(s.last())
        }
    }
}

pub open spec fn needs_quoting(s: Seq<char>) -> bool {
    contains_char(s, ',') || contains_char(s, '"') || contains_char(s, '\n') || contains_char(s, '\r')
}

/// One CSV field: quoted, with inner quotes doubled, when it holds a comma,
/// a double quote, CR or LF; otherwise as it is.
pub open spec fn csv_field_of(s: Seq<char>) -> Seq<char> {
    if needs_quoting(s) {
        seq!['"'] + double_quotes(s) + seq!['"']
    } else {
        s
    }
}

pub fn csv_field(value: &str) -> (r: String)
    ensures
        r@ == csv_field_of(value@),
{
    let v = chars_of(value);
    if has_char(&v, ',') || has_char(&v, '"') || has_char(&v, '\n') || has_char(&v, '\r') {
        let mut out: Vec<char> = Vec::new();
        out.push('"');
        let mut i: usize = 0;
        while i < v.len()
            invariant
                i <= v.len(),
                out@ == seq!['"'] + double_quotes(v@.take(i as int)),
            decreases v.len() - i,
        {
            assert(v@.take(i as int + 1).drop_last() == v@.take(i as int));
            if v[i] == '"' {
                out.push('"');
                out.push('"');
            } else {
                out.push(v[i]);
            }
            i = i + 1;
        }
        assert(v@.take(v.len() as int) == v@);
        out.push('"');
        string_from_chars(&out)
    } else {
        value.to_string()
    }
}

pub open spec fn csv_header() -> Seq<char> {
    "id,created_at,is_note,word_count,character_count,language,text,analysis\r\n"@
}

pub open spec fn or_empty(o: Option<String>) -> Seq<char> {
    match o {
        Some(s) => s@,
        None => Seq::empty(),
    }
}

/// The `created_at` column: the RFC 3339 instant, empty for an instant
/// chrono cannot represent.
pub open spec fn created_at_text(t: Transcript) -> Seq<char> {
    match rfc3339_of(t.created_at.secs, t.created_at.nanos) {
        Some(s) => s,
        None => Seq::empty(),
    }
}

pub open spec fn csv_row(t: Transcript) -> Seq<char> {
    join(
        seq![
            csv_field_of(t.id@),
            csv_field_of(created_at_text(t)),
            csv_field_of(if t.is_note { "true"@ } else { "false"@ }),
            csv_field_of(decimal_of(t.word_count as nat)),
            csv_field_of(decimal_of(t.character_count as nat)),
            csv_field_of(or_empty(t.language)),
            csv_field_of(t.text@),
            csv_field_of(or_empty(t.analysis)),
        ],
        ","@,
    ) + "\r\n"@
}

pub open spec fn csv_rows(ts: Seq<Transcript>) -> Seq<char>
    decreases ts.len(),
{
    if ts.len() == 0 {
        Seq::empty()
    } else {
        csv_rows(ts.drop_last()) + csv_row(ts.last())
    }
}

fn csv_line(t: &Transcript) -> (r: Vec<char>)
    ensures
        r@ == csv_row(*t),
{
    let created = match to_rfc3339(t.created_at) {
        Some(s) => s,
        None => String::new(),
    };
    let word_count = string_from_chars(&decimal(t.word_count as u64));
    let character_count = string_from_chars(&decimal(t.character_count as u64));
    let language = match &t.language {
        Some(l) => l.clone(),
        None => String::new(),
    };
    let analysis = match &t.analysis {
        Some(a) => a.clone(),
        None => String::new(),
    };
    let is_note = if t.is_note {
        "true"
    } else {
        "false"
    };
    let mut fields: Vec<Vec<char>> = Vec::new();
    fields.push(chars_of(csv_field(t.id.as_str()).as_str()));
    fields.push(chars_of(csv_field(created.as_str()).as_str()));
    fields.push(chars_of(csv_field(is_note).as_str()));
    fields.push(chars_of(csv_field(word_count.as_str()).as_str()));
    fields.push(chars_of(csv_field(character_count.as_str()).as_str()));
    fields.push(chars_of(csv_field(language.as_str()).as_str()));
    fields.push(chars_of(csv_field(t.text.as_str()).as_str()));
    fields.push(chars_of(csv_field(analysis.as_str()).as_str()));
    proof {
        reveal_strlit("true");
        reveal_strlit("false");
    }
    assert(views(fields@) =~= seq![
        csv_field_of(t.id@),
        csv_field_of(created_at_text(*t)),
        csv_field_of(if t.is_note { "true"@ } else { "false"@ }),
        csv_field_of(decimal_of(t.word_count as nat)),
        csv_field_of(decimal_of(t.character_count as nat)),
        csv_field_of(or_empty(t.language)),
        csv_field_of(t.text@),
        csv_field_of(or_empty(t.analysis)),
    ]);
    let comma = chars_of(",");
    let mut line = join_chars(&fields, &comma);
    push_str(&mut line, "\r\n");
    line
}

/// The transcripts as RFC 4180 CSV: a header row, then one row per
/// transcript, every line ended by CRLF.
pub fn to_csv(transcripts: &Vec<Transcript>) -> (r: String)
    ensures
        r@ == csv_header() + csv_rows(transcripts@),
{
    let mut out = chars_of("id,created_at,is_note,word_count,character_count,language,text,analysis\r\n");
    let mut i: usize = 0;
    while i < transcripts.len()
        invariant
            i <= transcripts.len(),
            out@ == csv_header() + csv_rows(transcripts@.take(i as int)),
        decreases transcripts.len() - i,
    {
        assert(transcripts@.take(i as int + 1).drop_last() == transcripts@.take(i as int));
        let line = csv_line(&transcripts[i]);
        push_all(&mut out, &line);
        i = i + 1;
    }
    assert(transcripts@.take(transcripts.len() as int) == transcripts@);
    string_from_chars(&out)
}

// --- Markdown ----------------------------------------------------------------

pub open spec fn quoted_lines(ls: Seq<Seq<char>>) -> Seq<char>
    decreases ls.len(),
{
    if ls.len() == 0 {
        Seq::empty()
    } else {
        quoted_lines(ls.drop_last()) + "> "@ + ls.last() + "\n"@
    }
}

/// A non-blank analysis as a blockquote, one `> ` line per line.
pub open spec fn analysis_block(analysis: Option<String>) -> Seq<char> {
    match analysis {
        Some(a) => if trim(a@).len() == 0 {
            Seq::empty()
        } else {
            "\n"@ + quoted_lines(lines(trim(a@)))
        },
        None => Seq::empty(),
    }
}

/// One transcript's section under `heading`: its kind and heading, its
/// trimmed text, and, for a note, its analysis.
pub open spec fn markdown_section(t: Transcript, heading: Seq<char>) -> Seq<char> {
    "\n---\n\n## "@ + (if t.is_note { "Note"@ } else { "Dictation"@ }) + " \u{2014} "@ + heading
        + "\n\n"@ + trim(t.text@) + "\n"@ + (if t.is_note {
        analysis_block(t.analysis)
    } else {
        Seq::empty()
    }) + "\n"@
}

pub open spec fn markdown_sections(ts: Seq<Transcript>, headings: Seq<Seq<char>>) -> Seq<char>
    decreases ts.len(),
{
    if ts.len() == 0 {
        Seq::empty()
    } else {
        markdown_sections(ts.drop_last(), headings) + markdown_section(
            ts.last(),
            headings[ts.len() - 1],
        )
    }
}

/// The document title and the count line.
pub open spec fn markdown_title(n: nat) -> Seq<char> {
    "# Scribe export\n\n_"@ + decimal_of(n) + " transcript"@ + (if n == 1 {
        ""@
    } else {
        "s"@
    }) + " exported._\n"@
}

pub open spec fn markdown_doc(ts: Seq<Transcript>, headings: Seq<Seq<char>>) -> Seq<char> {
    markdown_title(ts.len()) + markdown_sections(ts, headings)
}

fn analysis_lines(analysis: &Option<String>) -> (r: Vec<char>)
    ensures
        r@ == analysis_block(*analysis),
{
    match analysis {
        None => Vec::new(),
        Some(a) => {
            let body = trimmed(&chars_of(a.as_str()));
            if body.len() == 0 {
                return Vec::new();
            }
            let ls = lines_of(&body);
            let mut out = chars_of("\n");
            let mut i: usize = 0;
            while i < ls.len()
                invariant
                    i <= ls.len(),
                    out@ == "\n"@ + quoted_lines(views(ls@).take(i as int)),
                decreases ls.len() - i,
            {
                assert(views(ls@).take(i as int + 1).drop_last() == views(ls@).take(i as int));
                push_str(&mut out, "> ");
                push_all(&mut out, &ls[i]);
                push_str(&mut out, "\n");
                i = i + 1;
            }
            assert(views(ls@).take(ls.len() as int) == views(ls@));
            out
        },
    }
}

/// The Markdown document with the given section headings: a title, a count
/// line, then one section per transcript.
pub fn render_markdown(transcripts: &Vec<Transcript>, headings: &Vec<String>) -> (r: String)
    requires
        headings.len() == transcripts.len(),
    ensures
        r@ == markdown_doc(transcripts@, headings@.map_values(|h: String| h@)),
{
    let ghost hv = headings@.map_values(|h: String| h@);
    let n = transcripts.len();
    let mut out = chars_of("# Scribe export\n\n_");
    push_all(&mut out, &decimal(n as u64));
    push_str(&mut out, " transcript");
    if n != 1 {
        push_str(&mut out, "s");
    }
    push_str(&mut out, " exported._\n");
    proof {
        reveal_strlit("");
    }
    assert(out@ == markdown_title(n as nat));
    let mut i: usize = 0;
    while i < n
        invariant
            n == transcripts.len(),
            n == headings.len(),
            hv == headings@.map_values(|h: String| h@),
            i <= n,
            out@ == markdown_title(n as nat) + markdown_sections(transcripts@.take(i as int), hv),
        decreases n - i,
    {
        let ghost before = out@;
        assert(transcripts@.take(i as int + 1).drop_last() == transcripts@.take(i as int));
        let t = &transcripts[i];
        push_str(&mut out, "\n---\n\n## ");
        if t.is_note {
            push_str(&mut out, "Note");
        } else {
            push_str(&mut out, "Dictation");
        }
        push_str(&mut out, " \u{2014} ");
        push_str(&mut out, headings[i].as_str());
        push_str(&mut out, "\n\n");
        push_all(&mut out, &trimmed(&chars_of(t.text.as_str())));
        push_str(&mut out, "\n");
        if t.is_note {
            push_all(&mut out, &analysis_lines(&t.analysis));
        }
        push_str(&mut out, "\n");
        proof {
            reveal_strlit("Note");
            reveal_strlit("Dictation");
            assert(hv[i as int] == headings@[i as int]@);
            assert(out@ =~= before + markdown_section(transcripts@[i as int], hv[i as int]));
        }
        i = i + 1;
    }
    assert(transcripts@.take(n as int) == transcripts@);
    string_from_chars(&out)
}

/// The Markdown document, each section headed by its local creation time
/// ("2026-06-12 18:30"; empty for an instant chrono cannot represent). The
/// local time depends on the machine's time zone, so the contract speaks of
/// some headings, one per transcript, each non-empty for an ordinary
/// instant.
pub fn to_markdown(transcripts: &Vec<Transcript>) -> (r: String)
    ensures
        exists|headings: Seq<Seq<char>>| #![trigger markdown_doc(transcripts@, headings)]
            headings.len() == transcripts@.len() && r@ == markdown_doc(transcripts@, headings) && (
            forall|i: int|
                0 <= i < headings.len() && ordinary_instant(#[trigger] transcripts@[i].created_at)
                    ==> headings[i].len() > 0),
{
    let mut headings: Vec<String> = Vec::new();
    let mut i: usize = 0;
    while i < transcripts.len()
        invariant
            i <= transcripts.len(),
            headings.len() == i,
            forall|k: int|
                0 <= k < i && ordinary_instant(#[trigger] transcripts@[k].created_at) ==> headings@[k]@.len() > 0,
        decreases transcripts.len() - i,
    {
        let h = match format_local(transcripts[i].created_at, LocalPattern::DayTime) {
            Some(h) => h,
            None => String::new(),
        };
        headings.push(h);
        i = i + 1;
    }
    let r = render_markdown(transcripts, &headings);
    let ghost hv = headings@.map_values(|h: String| h@);
    assert(hv.len() == transcripts@.len());
    assert forall|i: int|
        0 <= i < hv.len() && ordinary_instant(#[trigger] transcripts@[i].created_at) implies hv[i].len() > 0 by {
        assert(hv[i] == headings@[i]@);
    }
    r
}

} // verus!
