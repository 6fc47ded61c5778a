use scribe::clock::Timestamp;
use scribe::export::{csv_field, render_markdown, to_csv, to_markdown};
use scribe::transcript::Transcript;

/// 2026-06-12 18:30:00 UTC.
const AT: Timestamp = Timestamp { secs: 1_781_289_000, nanos: 0 };

fn dictation(id: &str, text: &str) -> Transcript {
    let mut t = Transcript::new_last_buffer(text, Some(1000), None, Some("en".into())).unwrap();
    t.id = id.to_string();
    t.created_at = AT;
    t
}

fn note(id: &str, text: &str, analysis: &str) -> Transcript {
    let mut t = dictation(id, text);
    t.is_note = true;
    t.analysis = Some(analysis.to_string());
    t
}

fn gnarly() -> Transcript {
    dictation("tx_gnarly", "he said \"hi, there\"\nthen left")
}

#[test]
fn markdown_includes_text_kind_and_analysis() {
    let rows = vec![dictation("tx_1", "buy milk"), note("tx_2", "call Sam", "Summary: a call")];
    let md = to_markdown(&rows);

    assert!(md.starts_with("# Scribe export"));
    assert!(md.contains("2 transcripts exported"));
    assert!(md.contains("## Dictation"));
    assert!(md.contains("buy milk"));
    assert!(md.contains("## Note"));
    assert!(md.contains("call Sam"));
    assert!(md.contains("> Summary: a call"));
}

#[test]
fn markdown_singular_count_for_one_row() {
    let md = to_markdown(&vec![dictation("tx_1", "solo")]);
    assert!(md.contains("1 transcript exported."));
    assert!(!md.contains("transcripts exported"));
}

#[test]
fn markdown_sections_follow_the_given_headings() {
    let rows = vec![note("tx_2", "  call Sam ", " line one\nline two \n")];
    let md = render_markdown(&rows, &vec!["2026-06-12 18:30".to_string()]);
    assert_eq!(
        md,
        "# Scribe export\n\n_1 transcript exported._\n\n---\n\n## Note \u{2014} 2026-06-12 18:30\n\ncall Sam\n\n> line one\n> line two\n\n"
    );
}

#[test]
fn csv_has_header_and_quotes_special_characters() {
    let rows = vec![note("tx_note", "a note", "did stuff"), gnarly()];
    let csv = to_csv(&rows);

    let mut lines = csv.split("\r\n");
    assert_eq!(
        lines.next().unwrap(),
        "id,created_at,is_note,word_count,character_count,language,text,analysis"
    );

    let note_line = lines.next().unwrap();
    assert!(note_line.starts_with("tx_note,"));
    assert!(note_line.contains(",true,"));
    assert!(note_line.contains("a note"));
    assert!(note_line.contains("did stuff"));

    let gnarly_line = lines.next().unwrap();
    assert!(gnarly_line.contains(",false,"));
    assert!(gnarly_line.contains("\"he said \"\"hi, there\"\"\nthen left\""));
}

#[test]
fn csv_row_has_every_column() {
    let csv = to_csv(&vec![note("tx_1", "a note", "did stuff")]);
    assert_eq!(
        csv,
        "id,created_at,is_note,word_count,character_count,language,text,analysis\r\ntx_1,2026-06-12T18:30:00+00:00,true,2,6,en,a note,did stuff\r\n"
    );
}

#[test]
fn csv_field_escaping_matches_rfc_4180() {
    assert_eq!(csv_field("plain"), "plain");
    assert_eq!(csv_field("a,b"), "\"a,b\"");
    assert_eq!(csv_field("say \"hi\""), "\"say \"\"hi\"\"\"");
    assert_eq!(csv_field("line1\nline2"), "\"line1\nline2\"");
    assert_eq!(csv_field("line1\rline2"), "\"line1\rline2\"");
    assert_eq!(csv_field(""), "");
}

#[test]
fn empty_input_renders_each_format_cleanly() {
    assert!(to_markdown(&Vec::new()).contains("0 transcripts exported"));
    assert_eq!(
        to_csv(&Vec::new()),
        "id,created_at,is_note,word_count,character_count,language,text,analysis\r\n"
    );
}

#[test]
fn markdown_leaves_dictation_analysis_out() {
    let mut d = dictation("tx_1", "buy milk");
    d.analysis = Some("Summary: errands".to_string());
    let md = render_markdown(&vec![d], &vec!["2026-06-12 18:30".to_string()]);
    assert_eq!(
        md,
        "# Scribe export\n\n_1 transcript exported._\n\n---\n\n## Dictation \u{2014} 2026-06-12 18:30\n\nbuy milk\n\n"
    );
    assert!(!md.contains("> "));
}
