//! What happens to a finished recording on its way to a saved transcript:
//! which recordings can be transcribed, what the transcript records, and
//! where it goes next.
use vstd::prelude::*;

use crate::app_state::{AppEvent, AppStateMachine, AppStateSnapshot, AppStatus};
use crate::clock::Timestamp;
use crate::daily_log::{comes_before, lemma_ordered_by_time_pairs, sort_by_time};
use crate::audio::RecordingResultStatus;
use crate::error::CommandError;
use crate::settings::{OutputMode, PasteMethod};
use crate::text::{chars_of, is_blank, is_blank_str, string_from_chars, trim, trimmed, words};
use crate::import::valid_id_bytes;
use crate::transcript::{stored_count, Transcript};
use vstd::utf8::encode_utf8;

verus! {

#[derive(Debug, Clone, Copy, PartialEq, Eq, Structural)]
pub enum DictationStatus {
    Saved,
}

#[derive(Debug, Clone)]
pub struct DictationResult {
    pub session_id: String,
    pub status: DictationStatus,
    pub transcript: Transcript,
    pub model_id: String,
    pub duration_ms: u64,
    pub transcription_latency_ms: u32,
}

/// Only completed or timed-out recordings that carry a WAV path are
/// transcribed.
pub fn validate_recording_result(status: RecordingResultStatus, wav_path: Option<&str>) -> (r: Result<
    (),
    CommandError,
>)
    ensures
        !(status == RecordingResultStatus::Completed || status == RecordingResultStatus::TimedOut)
            ==> (r matches Err(e) && e.code@ == "recording_not_transcribable"@),
        (status == RecordingResultStatus::Completed || status == RecordingResultStatus::TimedOut)
            ==> match wav_path {
            Some(p) if !is_blank(p@) => r is Ok,
            _ => r matches Err(e) && e.code@ == "recording_wav_missing"@ && e.message@
                == "Recording completed but did not include a WAV path. Record again."@,
        },
{
    match status {
        RecordingResultStatus::Completed | RecordingResultStatus::TimedOut => {},
        _ => {
            return Err(
                CommandError::new(
                    "recording_not_transcribable",
                    "Only completed or timed-out recordings with a WAV file can be transcribed.",
                ),
            );
        },
    }
    let missing = match wav_path {
        Some(p) => is_blank_str(p),
        None => true,
    };
    if missing {
        return Err(
            CommandError::new(
                "recording_wav_missing",
                "Recording completed but did not include a WAV path. Record again.",
            ),
        );
    }
    Ok(())
}

/// The `--language` argument whisper expects: the stored code trimmed, or
/// `auto` when it is blank.
pub fn whisper_language(code: &str) -> (r: String)
    ensures
        r@ == if is_blank(code@) {
            "auto"@
        } else {
            trim(code@)
        },
{
    let t = trimmed(&chars_of(code));
    proof {
        crate::text::lemma_trim_empty_iff_blank(code@);
    }
    if t.len() == 0 {
        "auto".to_string()
    } else {
        string_from_chars(&t)
    }
}

/// A recording's length as a transcript stores it: saturating at
/// `u32::MAX`.
pub fn transcript_duration(duration_ms: u64) -> (r: u32)
    ensures
        r == if duration_ms > u32::MAX {
            u32::MAX
        } else {
            duration_ms as u32
        },
{
    if duration_ms > 4294967295u64 {
        4294967295u32
    } else {
        duration_ms as u32
    }
}

/// The transcript of a finished dictation, or `None` when the final text is
/// blank (nothing heard: nothing is saved). It records the output settings,
/// the latency and whether it is a note.
pub fn dictation_transcript(
    final_text: &str,
    duration_ms: u64,
    model_id: &str,
    language: String,
    output_mode: OutputMode,
    paste_method: PasteMethod,
    latency_ms: u32,
    is_note: bool,
) -> (r: Option<Transcript>)
    ensures
        r is None <==> is_blank(final_text@),
        r matches Some(t) ==> {
            &&& t.text@ == trim(final_text@)
            &&& t.id@.len() == 39
            &&& t.id@.take(3) == "tx_"@
            &&& valid_id_bytes(encode_utf8(t.id@))
            &&& t.word_count == stored_count(words(trim(final_text@)).len())
            &&& t.character_count == stored_count(trim(final_text@).len())
            &&& t.duration_ms == Some(
                if duration_ms > u32::MAX {
                    u32::MAX
                } else {
                    duration_ms as u32
                },
            )
            &&& t.model_id matches Some(m) && m@ == model_id@
            &&& t.language == Some(language)
            &&& t.output_mode == Some(output_mode)
            &&& t.paste_method == Some(paste_method)
            &&& t.transcription_latency_ms == Some(latency_ms)
            &&& t.is_note == is_note
            &&& t.audio_path is None
            &&& t.analysis is None
            &&& t.analysis_model is None
            &&& t.analysis_created_at is None
        },
{
    let made = Transcript::new_last_buffer(
        final_text,
        Some(transcript_duration(duration_ms)),
        Some(model_id.to_string()),
        Some(language),
    );
    match made {
        None => None,
        Some(mut t) => {
            t.output_mode = Some(output_mode);
            t.paste_method = Some(paste_method);
            t.transcription_latency_ms = Some(latency_ms);
            t.is_note = is_note;
            Some(t)
        },
    }
}

/// Notes and disconnect salvages are saved but never auto-pasted: a mic that
/// died on dead air would otherwise paste silence hallucinations.
pub fn should_auto_paste(is_note: bool, disconnected: bool) -> (r: bool)
    ensures
        r == (!is_note && !disconnected),
{
    !is_note && !disconnected
}

/// A saved transcript triggers a backup when its backup path is on: notes
/// go to the notes log, dictations to the transcript backup.
pub fn should_notify_sync(is_note: bool, notes_sync_enabled: bool, all_transcripts_enabled: bool) -> (r:
    bool)
    ensures
        r == if is_note {
            notes_sync_enabled
        } else {
            all_transcripts_enabled
        },
{
    if is_note {
        notes_sync_enabled
    } else {
        all_transcripts_enabled
    }
}

/// Moves the state machine with `event` only while it is transcribing; any
/// other status is left alone. Returns the new snapshot when it moved.
pub fn transition_if_transcribing(machine: &mut AppStateMachine, event: AppEvent) -> (r: Option<
    AppStateSnapshot,
>)
    ensures
        old(machine).spec_status() != AppStatus::Transcribing ==> r is None && *final(machine)
            == *old(machine),
        old(machine).spec_status() == AppStatus::Transcribing ==> match crate::app_state::next_status(
            AppStatus::Transcribing,
            event,
        ) {
            Some(next) => r matches Some(snap) && snap.status == next && final(machine).spec_status()
                == next,
            None => r is None && final(machine).spec_status() == AppStatus::Transcribing,
        },
{
    if *machine.status() != AppStatus::Transcribing {
        return None;
    }
    match machine.transition(event) {
        Ok(snapshot) => Some(snapshot),
        Err(_) => None,
    }
}

/// How many failed recordings are kept for the user to inspect.
pub const MAX_FAILED_RECORDINGS: usize = 20;

/// How many of `is_wav` are WAVs.
pub open spec fn wav_count(is_wav: Seq<bool>) -> nat
    decreases is_wav.len(),
{
    if is_wav.len() == 0 {
        0
    } else {
        wav_count(is_wav.drop_last()) + if is_wav.last() {
            1nat
        } else {
            0nat
        }
    }
}

/// The files of the failed-recordings folder to delete so that only the
/// newest `keep` WAVs stay: given each file's modification time and whether
/// it is a WAV, the positions of the oldest WAVs beyond `keep`, oldest first.
/// Files that are not WAVs are never chosen; nothing is chosen while the
/// WAVs are within the cap.
pub fn recordings_to_prune(modified: &Vec<Timestamp>, is_wav: &Vec<bool>, keep: usize) -> (r: Vec<usize>)
    requires
        modified.len() == is_wav.len(),
    ensures
        wav_count(is_wav@) <= keep ==> r.len() == 0,
        wav_count(is_wav@) > keep ==> r.len() == wav_count(is_wav@) - keep,
        forall|q: int| 0 <= q < r.len() ==> r@[q] < is_wav.len() && is_wav@[r@[q] as int],
        forall|q: int, p: int| 0 <= q < p < r.len() ==> comes_before(modified@, #[trigger] r@[q], #[trigger] r@[p]),
        forall|q: int, k: usize|
            0 <= q < r.len() && k < is_wav.len() && #[trigger] is_wav@[k as int] && !r@.contains(k)
                ==> comes_before(modified@, #[trigger] r@[q], k),
{
    let mut wavs: Vec<usize> = Vec::new();
    let mut i: usize = 0;
    while i < is_wav.len()
        invariant
            i <= is_wav.len(),
            modified.len() == is_wav.len(),
            wavs.len() == wav_count(is_wav@.take(i as int)),
            forall|k: int| 0 <= k < wavs.len() ==> wavs@[k] < i && is_wav@[wavs@[k] as int],
            forall|k: int, l: int| 0 <= k < l < wavs.len() ==> wavs@[k] < wavs@[l],
            forall|x: usize| x < i && is_wav@[x as int] ==> wavs@.contains(x),
        decreases is_wav.len() - i,
    {
        assert(is_wav@.take(i as int + 1).drop_last() == is_wav@.take(i as int));
        let ghost before = wavs@;
        if is_wav[i] {
            wavs.push(i);
            assert(wavs@[wavs.len() - 1] == i);
        }
        assert forall|x: usize| x < i + 1 && is_wav@[x as int] implies wavs@.contains(x) by {
            if x == i {
                assert(wavs@[wavs.len() - 1] == i);
            } else {
                assert(before.contains(x));
                let k = choose|k: int| 0 <= k < before.len() && before[k] == x;
                assert(wavs@[k] == before[k]);
            }
        }
        i = i + 1;
    }
    assert(is_wav@.take(is_wav.len() as int) == is_wav@);
    if wavs.len() <= keep {
        return Vec::new();
    }
    let ordered = sort_by_time(&wavs, modified);
    proof {
        lemma_ordered_by_time_pairs(modified@, ordered@);
    }
    let count = wavs.len() - keep;
    let mut r: Vec<usize> = Vec::new();
    let mut q: usize = 0;
    while q < count
        invariant
            q <= count <= ordered.len(),
            r@ == ordered@.take(q as int),
        decreases count - q,
    {
        r.push(ordered[q]);
        q = q + 1;
    }
    proof {
        assert forall|q: int| 0 <= q < r.len() implies r@[q] < is_wav.len() && is_wav@[r@[q] as int] by {
            assert(r@[q] == ordered@[q]);
            assert(ordered@.contains(ordered@[q]));
            assert(wavs@.contains(ordered@[q]));
        }
        assert forall|qq: int, k: usize|
            0 <= qq < r.len() && k < is_wav.len() && #[trigger] is_wav@[k as int] && !r@.contains(k)
            implies comes_before(modified@, #[trigger] r@[qq], k) by {
            assert(wavs@.contains(k));
            assert(ordered@.contains(k));
            let pk = choose|pk: int| 0 <= pk < ordered.len() && ordered@[pk] == k;
            if pk < count {
                assert(r@[pk] == k);
                assert(r@.contains(k));
            }
            assert(r@[qq] == ordered@[qq]);
            assert(comes_before(modified@, ordered@[qq], ordered@[pk]));
        }
    }
    r
}

} // verus!
