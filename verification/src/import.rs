//! Validation and normalization of a restored JSON export. The JSON itself
//! is decoded into transcripts by the serde layer; everything decided about
//! the decoded records happens here.
use vstd::prelude::*;

use crate::error::CommandError;
use crate::file_transcribe::{extension_of, path_extension};
use crate::text::{ascii_lower_seq, ascii_lowercase, eq_str, chars_of, decimal, decimal_of, is_blank, is_blank_str, push_all, push_str, string_from_chars, words};
use crate::transcript::{metadata_for_text, stored_count, Transcript};
use vstd::string::StringSliceAdditionalSpecFns;
use vstd::utf8::encode_utf8;

use sha2::Digest;

verus! {

pub const MAX_IMPORT_BYTES: u64 = 104857600;

pub const MAX_IMPORT_RECORDS: usize = 100000;

pub const MAX_TEXT_BYTES: usize = 5242880;

pub const MAX_MODEL_ID_BYTES: usize = 256;

pub const MAX_LANGUAGE_BYTES: usize = 64;

pub const MAX_ANALYSIS_MODEL_BYTES: usize = 256;

/// A validated backup, ready to restore, with what was done to it.
#[derive(Debug, Clone)]
pub struct PreparedImport {
    pub transcripts: Vec<Transcript>,
    pub total: u32,
    pub notes: u32,
    pub dictations: u32,
    pub audio_paths_removed: u32,
    pub metadata_corrected: u32,
}

/// What a restore did.
#[derive(Debug, Clone, Copy, PartialEq, Eq, Structural)]
pub struct ImportReport {
    pub imported: u32,
    pub skipped: u32,
    pub replaced: u32,
}

pub open spec fn byte_len(s: Seq<char>) -> nat {
    encode_utf8(s).len()
}

pub open spec fn is_id_byte(b: u8) -> bool {
    (65 <= b && b <= 90) || (97 <= b && b <= 122) || (48 <= b && b <= 57) || b == 95 || b == 45
}

/// `tx_` and at least one more byte, at most 128 bytes in all, the rest
/// ASCII letters, digits, `_` or `-`.
pub open spec fn valid_id_bytes(b: Seq<u8>) -> bool {
    &&& b.len() > 3 && b.len() <= 128
    &&& b[0] == 116 && b[1] == 120 && b[2] == 95
    &&& forall|i: int| 3 <= i < b.len() ==> is_id_byte(b[i])
}

pub fn valid_transcript_id(id: &str) -> (r: bool)
    ensures
        r == valid_id_bytes(id.spec_bytes()),
{
    let b = id.as_bytes();
    if b.len() <= 3 || b.len() > 128 || b[0] != 116u8 || b[1] != 120u8 || b[2] != 95u8 {
        return false;
    }
    let mut i: usize = 3;
    while i < b.len()
        invariant
            3 <= i <= b@.len(),
            b@ == id.spec_bytes(),
            forall|j: int| 3 <= j < i ==> is_id_byte(b@[j]),
        decreases b@.len() - i,
    {
        let c = b[i];
        if !((65u8 <= c && c <= 90u8) || (97u8 <= c && c <= 122u8) || (48u8 <= c && c <= 57u8)
            || c == 95u8 || c == 45u8) {
            assert(!is_id_byte(b@[i as int]));
            return false;
        }
        i = i + 1;
    }
    true
}

pub open spec fn too_long(o: Option<String>, max: nat) -> bool {
    o matches Some(s) && byte_len(s@) > max
}

/// Why a record is refused, if it is.
pub open spec fn record_problem(t: Transcript) -> Option<Seq<char>> {
    if !valid_id_bytes(encode_utf8(t.id@)) {
        Some("has an invalid transcript id"@)
    } else if is_blank(t.text@) {
        Some("has no transcript text"@)
    } else if byte_len(t.text@) > MAX_TEXT_BYTES {
        Some("has more than 5 MB of text"@)
    } else if too_long(t.analysis, MAX_TEXT_BYTES as nat) {
        Some("has more than 5 MB of analysis"@)
    } else if too_long(t.model_id, MAX_MODEL_ID_BYTES as nat) {
        Some("has a model id longer than 256 bytes"@)
    } else if too_long(t.language, MAX_LANGUAGE_BYTES as nat) {
        Some("has a language longer than 64 bytes"@)
    } else if too_long(t.analysis_model, MAX_ANALYSIS_MODEL_BYTES as nat) {
        Some("has a analysis model longer than 256 bytes"@)
    } else {
        None
    }
}

pub open spec fn invalid_record_message(index: nat, reason: Seq<char>) -> Seq<char> {
    "Backup record "@ + decimal_of(index + 1) + " "@ + reason + "."@
}

pub fn invalid_record(index: usize, reason: &str) -> (e: CommandError)
    requires
        index < usize::MAX,
    ensures
        e.code@ == "invalid_import_record"@,
        e.message@ == invalid_record_message(index as nat, reason@),
{
    let mut m = chars_of("Backup record ");
    push_all(&mut m, &decimal((index + 1) as u64));
    push_str(&mut m, " ");
    push_str(&mut m, reason);
    push_str(&mut m, ".");
    CommandError::from_parts("invalid_import_record", string_from_chars(&m))
}

fn exceeds(value: &Option<String>, max: usize) -> (r: bool)
    ensures
        r == too_long(*value, max as nat),
{
    match value {
        Some(s) => s.as_str().as_bytes().len() > max,
        None => false,
    }
}

/// Checks one decoded record, numbered from one in the message.
pub fn validate_transcript(transcript: &Transcript, index: usize) -> (r: Result<(), CommandError>)
    requires
        index < usize::MAX,
    ensures
        match record_problem(*transcript) {
            None => r is Ok,
            Some(reason) => r matches Err(e) && e.code@ == "invalid_import_record"@ && e.message@
                == invalid_record_message(index as nat, reason),
        },
{
    if !valid_transcript_id(transcript.id.as_str()) {
        return Err(invalid_record(index, "has an invalid transcript id"));
    }
    if is_blank_str(transcript.text.as_str()) {
        return Err(invalid_record(index, "has no transcript text"));
    }
    if transcript.text.as_str().as_bytes().len() > MAX_TEXT_BYTES {
        return Err(invalid_record(index, "has more than 5 MB of text"));
    }
    if exceeds(&transcript.analysis, MAX_TEXT_BYTES) {
        return Err(invalid_record(index, "has more than 5 MB of analysis"));
    }
    if exceeds(&transcript.model_id, MAX_MODEL_ID_BYTES) {
        return Err(invalid_record(index, "has a model id longer than 256 bytes"));
    }
    if exceeds(&transcript.language, MAX_LANGUAGE_BYTES) {
        return Err(invalid_record(index, "has a language longer than 64 bytes"));
    }
    if exceeds(&transcript.analysis_model, MAX_ANALYSIS_MODEL_BYTES) {
        return Err(invalid_record(index, "has a analysis model longer than 256 bytes"));
    }
    Ok(())
}

/// A restore reads only `.json` files (the extension compared without
/// regard to ASCII case).
pub fn check_import_path(path: &str) -> (r: Result<(), CommandError>)
    ensures
        r is Ok <==> (extension_of(path@) matches Some(e) && ascii_lower_seq(e) == "json"@),
        r matches Err(e) ==> e.code@ == "invalid_import_file"@ && e.message@
            == "Choose a .json file exported by Scribe."@,
{
    let ok = match path_extension(path) {
        Some(ext) => eq_str(&ascii_lowercase(&chars_of(ext.as_str())), "json"),
        None => false,
    };
    if ok {
        Ok(())
    } else {
        Err(
            CommandError::from_parts(
                "invalid_import_file",
                "Choose a .json file exported by Scribe.".to_string(),
            ),
        )
    }
}

/// A backup over the size limit is refused before it is decoded.
pub fn check_import_size(len: u64) -> (r: Result<(), CommandError>)
    ensures
        r is Ok <==> len <= MAX_IMPORT_BYTES,
        r matches Err(e) ==> e.code@ == "import_too_large"@,
{
    if len > MAX_IMPORT_BYTES {
        Err(CommandError::new("import_too_large", "The backup is larger than the 100 MB restore limit."))
    } else {
        Ok(())
    }
}

/// A restore goes ahead only on the bytes that were previewed.
pub fn verify_fingerprint(actual: &str, expected: &str) -> (r: Result<(), CommandError>)
    ensures
        r is Ok <==> actual@ == expected@,
        r matches Err(e) ==> e.code@ == "import_file_changed"@ && e.message@
            == "The backup changed after it was previewed. Choose it again before restoring."@,
{
    if crate::text::eq_str(&chars_of(actual), expected) {
        return Ok(());
    }
    Err(
        CommandError::new(
            "import_file_changed",
            "The backup changed after it was previewed. Choose it again before restoring.",
        ),
    )
}

/// Lowercase hex SHA-256 of `bytes` (`sha2::Sha256::digest`, `{:x}`).
pub uninterp spec fn sha256_hex_of(bytes: Seq<u8>) -> Seq<char>;

/// `Sha256::digest` formatted as lowercase hex. Claimed: the result is
/// `sha256_hex_of(contents)`, 64 chars for the 32-byte digest.
#[verifier::external_body]
pub fn sha256_fingerprint(contents: &[u8]) -> (r: String)
    ensures
        r@ == sha256_hex_of(contents@),
        r@.len() == 64,
{
    format!("{:x}", sha2::Sha256::digest(contents))
}

// --- preparing a decoded backup ----------------------------------------------

/// A record as restored: no local audio path (it is not trusted across
/// machines), counts recomputed from the text, and no analysis provenance
/// without an analysis.
pub open spec fn normalized(t: Transcript) -> Transcript {
    Transcript {
        audio_path: None,
        word_count: stored_count(words(t.text@).len()),
        character_count: stored_count(t.text@.len()),
        analysis_model: if t.analysis is None {
            None
        } else {
            t.analysis_model
        },
        analysis_created_at: if t.analysis is None {
            None
        } else {
            t.analysis_created_at
        },
        ..t
    }
}

/// Restoring a restored record changes nothing: normalizing is idempotent,
/// and a normalized record has nothing left to correct or strip.
pub proof fn lemma_normalize_idempotent(t: Transcript)
    ensures
        normalized(normalized(t)) == normalized(t),
        !counts_wrong(normalized(t)),
        normalized(t).audio_path is None,
{
}

/// The stored counts disagree with the text.
pub open spec fn counts_wrong(t: Transcript) -> bool {
    t.word_count != stored_count(words(t.text@).len()) || t.character_count != stored_count(
        t.text@.len(),
    )
}

pub open spec fn count_audio(ts: Seq<Transcript>) -> nat
    decreases ts.len(),
{
    if ts.len() == 0 {
        0
    } else {
        count_audio(ts.drop_last()) + if ts.last().audio_path is Some {
            1nat
        } else {
            0nat
        }
    }
}

pub open spec fn count_corrected(ts: Seq<Transcript>) -> nat
    decreases ts.len(),
{
    if ts.len() == 0 {
        0
    } else {
        count_corrected(ts.drop_last()) + if counts_wrong(ts.last()) {
            1nat
        } else {
            0nat
        }
    }
}

pub open spec fn count_notes(ts: Seq<Transcript>) -> nat
    decreases ts.len(),
{
    if ts.len() == 0 {
        0
    } else {
        count_notes(ts.drop_last()) + if ts.last().is_note {
            1nat
        } else {
            0nat
        }
    }
}

pub proof fn lemma_counts_bounded(ts: Seq<Transcript>)
    ensures
        count_audio(ts) <= ts.len(),
        count_corrected(ts) <= ts.len(),
        count_notes(ts) <= ts.len(),
    decreases ts.len(),
{
    if ts.len() > 0 {
        lemma_counts_bounded(ts.drop_last());
    }
}

/// Some record before `i` carries the same id as record `i`.
pub open spec fn id_seen_before(ts: Seq<Transcript>, i: int) -> bool {
    exists|j: int| 0 <= j < i && ts[j].id@ == ts[i].id@
}

pub open spec fn duplicate_message(id: Seq<char>) -> Seq<char> {
    "The backup contains the transcript id \""@ + id + "\" more than once."@
}

/// The first refusal among the first `n` records, in order: `(code,
/// message)`.
pub open spec fn import_error(ts: Seq<Transcript>, n: int) -> Option<(Seq<char>, Seq<char>)>
    decreases n,
{
    if n <= 0 {
        None
    } else {
        match import_error(ts, n - 1) {
            Some(e) => Some(e),
            None => {
                let i = n - 1;
                match record_problem(ts[i]) {
                    Some(reason) => Some(
                        ("invalid_import_record"@, invalid_record_message(i as nat, reason)),
                    ),
                    None => if id_seen_before(ts, i) {
                        Some(("duplicate_import_id"@, duplicate_message(ts[i].id@)))
                    } else {
                        None
                    },
                }
            },
        }
    }
}

pub proof fn lemma_import_error_stable(ts: Seq<Transcript>, n: int, m: int)
    requires
        0 <= n <= m,
        import_error(ts, n) is Some,
    ensures
        import_error(ts, m) == import_error(ts, n),
    decreases m - n,
{
    if n < m {
        lemma_import_error_stable(ts, n, m - 1);
    }
}

/// The bucket an id is filed under while looking for duplicates.
pub open spec fn bucket_of(s: Seq<char>) -> nat
    decreases s.len(),
{
    if s.len() == 0 {
        0
    } else {
        ((bucket_of(s.drop_last()) * 31 + ((s.last() as u32) as nat)) % 4096) as nat
    }
}

fn bucket_index(id: &str) -> (r: usize)
    ensures
        r == bucket_of(id@),
        r < 4096,
{
    let chars = chars_of(id);
    let mut h: u64 = 0;
    let mut i: usize = 0;
    while i < chars.len()
        invariant
            i <= chars.len(),
            h == bucket_of(chars@.take(i as int)),
            h < 4096,
        decreases chars.len() - i,
    {
        assert(chars@.take(i as int + 1).drop_last() == chars@.take(i as int));
        let c: u32 = chars[i] as u32;
        h = (h * 31 + c as u64) % 4096;
        i = i + 1;
    }
    assert(chars@.take(chars.len() as int) == chars@);
    h as usize
}

fn clone_text(o: &Option<String>) -> (r: Option<String>)
    ensures
        r == *o,
{
    match o {
        Some(s) => Some(s.clone()),
        None => None,
    }
}

/// The restored form of one record.
pub fn normalize(t: &Transcript) -> (r: Transcript)
    ensures
        r == normalized(*t),
{
    let metadata = metadata_for_text(t.text.as_str());
    let keep_analysis = t.analysis.is_some();
    Transcript {
        id: t.id.clone(),
        text: t.text.clone(),
        created_at: t.created_at,
        duration_ms: t.duration_ms,
        word_count: metadata.word_count,
        character_count: metadata.character_count,
        model_id: clone_text(&t.model_id),
        language: clone_text(&t.language),
        output_mode: t.output_mode,
        paste_method: t.paste_method,
        transcription_latency_ms: t.transcription_latency_ms,
        audio_path: None,
        is_note: t.is_note,
        analysis: clone_text(&t.analysis),
        analysis_model: if keep_analysis {
            clone_text(&t.analysis_model)
        } else {
            None
        },
        analysis_created_at: if keep_analysis {
            t.analysis_created_at
        } else {
            None
        },
    }
}

/// Validates and normalizes a decoded backup. More than 100,000 records are
/// refused; otherwise the first bad record, in order, is refused with its
/// number and reason, or as a duplicate of an earlier id. An accepted backup
/// is returned normalized, with its counts.
pub fn prepare_import(transcripts: &Vec<Transcript>) -> (r: Result<PreparedImport, CommandError>)
    ensures
        transcripts.len() > MAX_IMPORT_RECORDS ==> (r matches Err(e) && e.code@
            == "import_too_many_records"@ && e.message@
            == "The backup contains more than the 100000 record restore limit."@),
        transcripts.len() <= MAX_IMPORT_RECORDS ==> match import_error(
            transcripts@,
            transcripts.len() as int,
        ) {
            Some((code, message)) => r matches Err(e) && e.code@ == code && e.message@ == message,
            None => r matches Ok(p) && {
                &&& p.transcripts@ == transcripts@.map_values(|t: Transcript| normalized(t))
                &&& p.total == transcripts.len()
                &&& p.notes == count_notes(transcripts@)
                &&& p.dictations == transcripts.len() - count_notes(transcripts@)
                &&& p.audio_paths_removed == count_audio(transcripts@)
                &&& p.metadata_corrected == count_corrected(transcripts@)
            },
        },
{
    if transcripts.len() > MAX_IMPORT_RECORDS {
        return Err(
            CommandError::new(
                "import_too_many_records",
                "The backup contains more than the 100000 record restore limit.",
            ),
        );
    }
    let ghost ts = transcripts@;
    let mut buckets: Vec<Vec<usize>> = Vec::new();
    while buckets.len() < 4096
        invariant
            buckets.len() <= 4096,
            forall|b: int| 0 <= b < buckets.len() ==> buckets@[b]@.len() == 0,
        decreases 4096 - buckets.len(),
    {
        buckets.push(Vec::new());
    }
    let mut out: Vec<Transcript> = Vec::new();
    let mut notes: u32 = 0;
    let mut audio: u32 = 0;
    let mut corrected: u32 = 0;
    let mut i: usize = 0;
    while i < transcripts.len()
        invariant
            ts == transcripts@,
            transcripts.len() <= MAX_IMPORT_RECORDS,
            i <= transcripts.len(),
            import_error(ts, i as int) is None,
            buckets.len() == 4096,
            forall|b: int, t: int|
                #![trigger buckets@[b]@[t]]
                0 <= b < 4096 && 0 <= t < buckets@[b]@.len() ==> buckets@[b]@[t] < i
                    && bucket_of(ts[buckets@[b]@[t] as int].id@) == b,
            forall|k: int|
                0 <= k < i ==> #[trigger] buckets@[bucket_of(ts[k].id@) as int]@.contains(
                    k as usize,
                ),
            out@ == ts.take(i as int).map_values(|t: Transcript| normalized(t)),
            notes == count_notes(ts.take(i as int)),
            audio == count_audio(ts.take(i as int)),
            corrected == count_corrected(ts.take(i as int)),
        decreases transcripts.len() - i,
    {
        let t = &transcripts[i];
        assert(ts.take(i as int + 1).drop_last() == ts.take(i as int));
        proof {
            lemma_counts_bounded(ts.take(i as int));
        }
        match validate_transcript(t, i) {
            Err(e) => {
                proof {
                    lemma_import_error_stable(ts, i as int + 1, ts.len() as int);
                }
                return Err(e);
            },
            Ok(()) => {},
        }
        let b = bucket_index(t.id.as_str());
        let bucket = &buckets[b];
        let mut k: usize = 0;
        while k < bucket.len()
            invariant
                k <= bucket@.len(),
                forall|q: int| 0 <= q < k ==> ts[bucket@[q] as int].id@ != ts[i as int].id@,
                forall|q: int| 0 <= q < bucket@.len() ==> bucket@[q] < i,
                i < ts.len(),
                ts == transcripts@,
                *t == ts[i as int],
                transcripts.len() <= MAX_IMPORT_RECORDS,
                import_error(ts, i as int) is None,
                record_problem(ts[i as int]) is None,
            decreases bucket@.len() - k,
        {
            let j = bucket[k];
            if transcripts[j].id == t.id {
                assert(id_seen_before(ts, i as int));
                proof {
                    lemma_import_error_stable(ts, i as int + 1, ts.len() as int);
                }
                let mut m = chars_of("The backup contains the transcript id \"");
                push_str(&mut m, t.id.as_str());
                push_str(&mut m, "\" more than once.");
                return Err(CommandError::from_parts("duplicate_import_id", string_from_chars(&m)));
            }
            k = k + 1;
        }
        assert(!id_seen_before(ts, i as int)) by {
            if id_seen_before(ts, i as int) {
                let j = choose|j: int| 0 <= j < i && ts[j].id@ == ts[i as int].id@;
                assert(buckets@[bucket_of(ts[j].id@) as int]@.contains(j as usize));
                let q = choose|q: int| 0 <= q < bucket@.len() && bucket@[q] == j as usize;
                assert(ts[bucket@[q] as int].id@ == ts[i as int].id@);
            }
        }
        let mut filed = buckets[b].clone();
        filed.push(i);
        let ghost before = buckets@;
        buckets.set(b, filed);
        proof {
            assert forall|bb: int, tt: int|
                #![trigger buckets@[bb]@[tt]]
                0 <= bb < 4096 && 0 <= tt < buckets@[bb]@.len() implies buckets@[bb]@[tt] < i + 1
                && bucket_of(ts[buckets@[bb]@[tt] as int].id@) == bb by {
                if bb == b as int {
                    if tt < before[bb]@.len() {
                        assert(buckets@[bb]@[tt] == before[bb]@[tt]);
                    }
                } else {
                    assert(buckets@[bb] == before[bb]);
                }
            }
            assert forall|kk: int| 0 <= kk < i + 1 implies #[trigger] buckets@[bucket_of(
                ts[kk].id@,
            ) as int]@.contains(kk as usize) by {
                let bk = bucket_of(ts[kk].id@) as int;
                if kk < i {
                    assert(before[bk]@.contains(kk as usize));
                    let q = choose|q: int| 0 <= q < before[bk]@.len() && before[bk]@[q] == kk as usize;
                    assert(buckets@[bk]@[q] == kk as usize);
                } else {
                    assert(buckets@[bk]@[buckets@[bk]@.len() - 1] == i);
                }
            }
        }
        let norm = normalize(t);
        if t.audio_path.is_some() {
            audio = audio + 1;
        }
        if t.word_count != norm.word_count || t.character_count != norm.character_count {
            corrected = corrected + 1;
        }
        if t.is_note {
            notes = notes + 1;
        }
        out.push(norm);
        assert(out@ =~= ts.take(i as int + 1).map_values(|t: Transcript| normalized(t)));
        i = i + 1;
    }
    assert(ts.take(transcripts.len() as int) == ts);
    proof {
        lemma_counts_bounded(ts);
    }
    let total = transcripts.len() as u32;
    Ok(PreparedImport {
        transcripts: out,
        total,
        notes,
        dictations: total - notes,
        audio_paths_removed: audio,
        metadata_corrected: corrected,
    })
}

} // verus!
