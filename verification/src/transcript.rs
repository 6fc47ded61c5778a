//! A saved transcript and the text metadata stored beside it.
use vstd::prelude::*;

use crate::import::{is_id_byte, valid_id_bytes};
use vstd::utf8::{encode_utf8, is_ascii_chars, is_ascii_chars_encode_utf8};

use crate::clock::{now, Timestamp};
use crate::error::CommandError;
use crate::settings::{OutputMode, PasteMethod};
use crate::text::{chars_of, is_blank, split_whitespace, string_from_chars, trim, trimmed, words};

verus! {

#[derive(Debug, Clone)]
pub struct Transcript {
    pub id: String,
    pub text: String,
    pub created_at: Timestamp,
    pub duration_ms: Option<u32>,
    pub word_count: u32,
    pub character_count: u32,
    pub model_id: Option<String>,
    pub language: Option<String>,
    pub output_mode: Option<OutputMode>,
    pub paste_method: Option<PasteMethod>,
    pub transcription_latency_ms: Option<u32>,
    pub audio_path: Option<String>,
    pub is_note: bool,
    pub analysis: Option<String>,
    pub analysis_model: Option<String>,
    pub analysis_created_at: Option<Timestamp>,
}

/// Word and character counts of a transcript text.
#[derive(Debug, Clone, Copy, PartialEq, Eq, Structural)]
pub struct TextMetadata {
    pub word_count: u32,
    pub character_count: u32,
}

/// A count as stored: saturating at `u32::MAX`.
pub open spec fn stored_count(n: nat) -> u32 {
    if n > u32::MAX {
        u32::MAX
    } else {
        n as u32
    }
}

fn count_u32(n: usize) -> (r: u32)
    ensures
        r == stored_count(n as nat),
{
    if n > 4294967295usize {
        4294967295u32
    } else {
        n as u32
    }
}

/// Whitespace-separated words and chars of `text`.
pub fn metadata_for_text(text: &str) -> (m: TextMetadata)
    ensures
        m.word_count == stored_count(words(text@).len()),
        m.character_count == stored_count(text@.len()),
{
    let chars = chars_of(text);
    let parts = split_whitespace(&chars);
    TextMetadata { word_count: count_u32(parts.len()), character_count: count_u32(chars.len()) }
}

/// A lowercase hexadecimal digit.
pub open spec fn is_lower_hex(c: char) -> bool {
    ('0' <= c && c <= '9') || ('a' <= c && c <= 'f')
}

/// The hyphenated form of a UUID: 8-4-4-4-12 lowercase hex digits.
pub open spec fn hyphenated_uuid(s: Seq<char>) -> bool {
    &&& s.len() == 36
    &&& forall|i: int|
        0 <= i < 36 ==> if i == 8 || i == 13 || i == 18 || i == 23 {
            #[trigger] s[i] == '-'
        } else {
            is_lower_hex(s[i])
        }
}

/// A fresh random identifier (`uuid::Uuid::new_v4`, shown by `Display`,
/// which is the lowercase hyphenated form). Claimed: that form; the value
/// itself is random.
#[verifier::external_body]
pub(crate) fn new_uuid() -> (s: String)
    ensures
        hyphenated_uuid(s@),
{
    uuid::Uuid::new_v4().to_string()
}

fn copy_text(o: &Option<String>) -> (r: Option<String>)
    ensures
        r == *o,
{
    match o {
        Some(s) => Some(s.clone()),
        None => None,
    }
}

impl Transcript {
    /// The transcript after its text is edited to `text`: trimmed, with
    /// the word and character counts taken again; every other field kept.
    /// Blank text is refused with `empty_transcript`.
    pub fn edited(&self, text: &str) -> (r: Result<Transcript, CommandError>)
        ensures
            is_blank(text@) ==> (r matches Err(e) && e.code@ == "empty_transcript"@ && e.message@
                == "Transcript text cannot be empty."@),
            !is_blank(text@) ==> (r matches Ok(t) && t.text@ == trim(text@) && t.word_count
                == stored_count(words(trim(text@)).len()) && t.character_count == stored_count(
                trim(text@).len(),
            ) && t == (Transcript {
                text: t.text,
                word_count: t.word_count,
                character_count: t.character_count,
                ..*self
            })),
    {
        let body = trimmed(&chars_of(text));
        proof {
            crate::text::lemma_trim_empty_iff_blank(text@);
        }
        if body.len() == 0 {
            return Err(CommandError::new("empty_transcript", "Transcript text cannot be empty."));
        }
        let body_text = string_from_chars(&body);
        let metadata = metadata_for_text(body_text.as_str());
        let mut t = self.copy();
        t.text = body_text;
        t.word_count = metadata.word_count;
        t.character_count = metadata.character_count;
        Ok(t)
    }

    /// A field-for-field copy.
    pub fn copy(&self) -> (r: Transcript)
        ensures
            r == *self,
    {
        Transcript {
            id: self.id.clone(),
            text: self.text.clone(),
            created_at: self.created_at,
            duration_ms: self.duration_ms,
            word_count: self.word_count,
            character_count: self.character_count,
            model_id: copy_text(&self.model_id),
            language: copy_text(&self.language),
            output_mode: self.output_mode,
            paste_method: self.paste_method,
            transcription_latency_ms: self.transcription_latency_ms,
            audio_path: copy_text(&self.audio_path),
            is_note: self.is_note,
            analysis: copy_text(&self.analysis),
            analysis_model: copy_text(&self.analysis_model),
            analysis_created_at: self.analysis_created_at,
        }
    }

    /// A new transcript for the Last Transcript Buffer, stamped now, or `None`
    /// when the text is blank. The text is stored trimmed, with its word and
    /// character counts; the id is `tx_` and a fresh UUID.
    pub fn new_last_buffer(
        text: &str,
        duration_ms: Option<u32>,
        model_id: Option<String>,
        language: Option<String>,
    ) -> (r: Option<Self>)
        ensures
            r is None <==> is_blank(text@),
            r matches Some(t) ==> {
                &&& t.text@ == trim(text@)
                &&& t.id@.len() == 39
                &&& t.id@.take(3) == "tx_"@
                &&& valid_id_bytes(encode_utf8(t.id@))
                &&& t.word_count == stored_count(words(trim(text@)).len())
                &&& t.character_count == stored_count(trim(text@).len())
                &&& t.duration_ms == duration_ms
                &&& t.model_id == model_id
                &&& t.language == language
                &&& t.output_mode is None
                &&& t.paste_method is None
                &&& t.transcription_latency_ms is None
                &&& t.audio_path is None
                &&& !t.is_note
                &&& t.analysis is None
                &&& t.analysis_model is None
                &&& t.analysis_created_at is None
            },
    {
        let body = trimmed(&chars_of(text));
        if body.len() == 0 {
            proof {
                crate::text::lemma_trim_empty_iff_blank(text@);
            }
            return None;
        }
        proof {
            crate::text::lemma_trim_empty_iff_blank(text@);
        }
        let body_text = string_from_chars(&body);
        let metadata = metadata_for_text(body_text.as_str());
        let mut id = chars_of("tx_");
        let uuid = new_uuid();
        crate::text::push_str(&mut id, uuid.as_str());
        proof {
            reveal_strlit("tx_");
            assert(id@.take(3) =~= "tx_"@);
            assert(is_ascii_chars(id@)) by {
                assert forall|i: int| 0 <= i < id@.len() implies '\0' <= #[trigger] id@[i] <= '\u{7f}' by {
                    if i >= 3 {
                        assert(id@[i] == uuid@[i - 3]);
                    }
                }
            }
            is_ascii_chars_encode_utf8(id@);
            let b = encode_utf8(id@);
            assert forall|i: int| 3 <= i < b.len() implies is_id_byte(#[trigger] b[i]) by {
                assert(id@[i] == uuid@[i - 3]);
                assert(id@[i] as u8 == b[i]);
            }
        }
        Some(Transcript {
            id: string_from_chars(&id),
            text: body_text,
            created_at: now(),
            duration_ms,
            word_count: metadata.word_count,
            character_count: metadata.character_count,
            model_id,
            language,
            output_mode: None,
            paste_method: None,
            transcription_latency_ms: None,
            audio_path: None,
            is_note: false,
            analysis: None,
            analysis_model: None,
            analysis_created_at: None,
        })
    }
}

} // verus!
