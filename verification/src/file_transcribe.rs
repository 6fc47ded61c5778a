//! Transcription of a user-provided audio or video file: which files need an
//! ffmpeg conversion first, where the text is saved, and how failures read.
use vstd::prelude::*;

use crate::error::CommandError;
use crate::text::{
    ascii_lower_seq, ascii_lowercase, chars_of, lines, lines_of, push_all,
    push_str, string_from_chars, trim, trimmed, views};

verus! {

/// `std::path::Path::extension` of the path, lossily as text.
pub uninterp spec fn extension_of(path: Seq<char>) -> Option<Seq<char>>;

/// `std::path::Path::file_name` of the path, lossily as text.
pub uninterp spec fn file_name_of(path: Seq<char>) -> Option<Seq<char>>;

/// `std::path::Path::with_file_name`: the path with its last component
/// replaced by `name`.
pub uninterp spec fn with_file_name_of(path: Seq<char>, name: Seq<char>) -> Seq<char>;

/// `Path::extension` (`to_string_lossy`). Claimed: the result is
/// `extension_of(path)`.
#[verifier::external_body]
pub(crate) fn path_extension(path: &str) -> (r: Option<String>)
    ensures
        match r {
            Some(e) => extension_of(path@) == Some(e@),
            None => extension_of(path@) is None,
        },
{
    std::path::Path::new(path).extension().map(|e| e.to_string_lossy().into_owned())
}

/// `Path::file_name` (`to_string_lossy`). Claimed: the result is
/// `file_name_of(path)`.
#[verifier::external_body]
fn path_file_name(path: &str) -> (r: Option<String>)
    ensures
        match r {
            Some(n) => file_name_of(path@) == Some(n@),
            None => file_name_of(path@) is None,
        },
{
    std::path::Path::new(path).file_name().map(|n| n.to_string_lossy().into_owned())
}

/// `Path::with_file_name` (`to_string_lossy`). Claimed: the result is
/// `with_file_name_of(path, name)`.
#[verifier::external_body]
fn path_with_file_name(path: &str, name: &str) -> (r: String)
    ensures
        r@ == with_file_name_of(path@, name@),
{
    std::path::Path::new(path).with_file_name(name).to_string_lossy().into_owned()
}

#[derive(Debug, Clone)]
pub struct TranscribeFileResult {
    pub text: String,
    /// Known only when the audio handed to whisper is a WAV.
    pub duration_ms: Option<u64>,
    pub latency_ms: u32,
}

/// Whisper decodes WAV, MP3, FLAC and OGG itself (any letter case).
pub open spec fn is_native_extension(ext: Seq<char>) -> bool {
    let e = ascii_lower_seq(ext);
    e == "wav"@ || e == "mp3"@ || e == "flac"@ || e == "ogg"@
}

/// Everything but the native formats is converted with ffmpeg first,
/// including files without an extension.
pub fn needs_ffmpeg(path: &str) -> (r: bool)
    ensures
        r == !(extension_of(path@) matches Some(e) && is_native_extension(e)),
{
    match path_extension(path) {
        None => true,
        Some(ext) => {
            let e = ascii_lowercase(&chars_of(ext.as_str()));
            proof {
                reveal_strlit("wav");
                reveal_strlit("mp3");
                reveal_strlit("flac");
                reveal_strlit("ogg");
            }
            let native = crate::text::eq_str(&e, "wav") || crate::text::eq_str(&e, "mp3")
                || crate::text::eq_str(&e, "flac") || crate::text::eq_str(&e, "ogg");
            !native
        },
    }
}

/// Where the transcript of `source` is saved: `<file name>.txt` beside it, so
/// the source itself is never overwritten. A path without a file name (the
/// root, `..`) is refused.
pub fn text_target_for_source(source: &str) -> (r: Result<String, CommandError>)
    ensures
        match file_name_of(source@) {
            Some(name) => r matches Ok(t) && t@ == with_file_name_of(source@, name + ".txt"@),
            None => r matches Err(e) && e.code@ == "save_text_failed"@ && e.message@ == source@
                + " is not a file path."@,
        },
{
    match path_file_name(source) {
        None => {
            let mut m = chars_of(source);
            push_str(&mut m, " is not a file path.");
            Err(CommandError::from_parts("save_text_failed", string_from_chars(&m)))
        },
        Some(name) => {
            let mut n = chars_of(name.as_str());
            push_str(&mut n, ".txt");
            let n = string_from_chars(&n);
            Ok(path_with_file_name(source, n.as_str()))
        },
    }
}

/// The last non-blank line of ffmpeg's stderr, trimmed: ffmpeg banners are
/// long and the reason comes last.
pub open spec fn last_nonblank_line(ls: Seq<Seq<char>>) -> Seq<char>
    decreases ls.len(),
{
    if ls.len() == 0 {
        Seq::empty()
    } else if trim(ls.last()).len() > 0 {
        trim(ls.last())
    } else {
        last_nonblank_line(ls.drop_last())
    }
}

/// The error for an ffmpeg run that failed on `source`.
pub fn ffmpeg_failure(source: &str, stderr: &str) -> (e: CommandError)
    ensures
        e.code@ == "ffmpeg_conversion_failed"@,
        e.message@ == "ffmpeg could not extract audio from "@ + source@ + ". "@
            + last_nonblank_line(lines(stderr@)),
{
    let ls = lines_of(&chars_of(stderr));
    let ghost lv = views(ls@);
    let mut j: usize = ls.len();
    assert(lv.take(j as int) == lv);
    while j > 0 && crate::text::is_blank_chars(&ls[j - 1])
        invariant
            j <= ls.len(),
            lv == views(ls@),
            last_nonblank_line(lv) == last_nonblank_line(lv.take(j as int)),
        decreases j,
    {
        assert(lv.take(j as int).drop_last() == lv.take(j as int - 1));
        j = j - 1;
    }
    let detail = if j == 0 {
        Vec::new()
    } else {
        assert(lv.take(j as int).last() == lv[j - 1]);
        trimmed(&ls[j - 1])
    };
    let mut m = chars_of("ffmpeg could not extract audio from ");
    push_str(&mut m, source);
    push_str(&mut m, ". ");
    push_all(&mut m, &detail);
    proof {
        if j == 0 {
            assert(lv.take(0) =~= Seq::<Seq<char>>::empty());
        }
    }
    CommandError::from_parts("ffmpeg_conversion_failed", string_from_chars(&m))
}

/// ffmpeg is not installed.
pub fn ffmpeg_required() -> (e: CommandError)
    ensures
        e.code@ == "ffmpeg_required"@,
{
    CommandError::new(
        "ffmpeg_required",
        "This file format needs ffmpeg to decode. Install ffmpeg and add it to PATH, or provide a WAV, MP3, FLAC, or OGG file.",
    )
}

/// Length of a WAV of `frames` frames at `sample_rate`, in milliseconds;
/// unknown for a zero rate.
pub fn wav_duration_ms(frames: u32, sample_rate: u32) -> (r: Option<u64>)
    ensures
        sample_rate == 0 ==> r is None,
        sample_rate != 0 ==> r == Some(((frames as int * 1000) / sample_rate as int) as u64),
{
    if sample_rate == 0 {
        return None;
    }
    let total: u64 = (frames as u64) * 1000;
    Some(total / (sample_rate as u64))
}

/// Elapsed milliseconds as stored: saturating at `u32::MAX`.
pub fn latency_ms(elapsed_ms: u128) -> (r: u32)
    ensures
        r == if elapsed_ms > u32::MAX {
            u32::MAX
        } else {
            elapsed_ms as u32
        },
{
    if elapsed_ms > 4294967295u128 {
        4294967295u32
    } else {
        elapsed_ms as u32
    }
}

} // verus!
