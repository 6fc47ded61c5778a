//! Incremental transcription while the user is still talking: the audio is
//! cut into phrases at natural pauses, each phrase is transcribed on its own,
//! and the texts are joined in order. This module holds the cutting decisions
//! (over chunk sizes and loudness classes), the joining of segment texts, and
//! the prompt each segment is transcribed with.
use vstd::prelude::*;

use crate::audio::{duration_ms, duration_of, ChunkLevel};
use crate::text::{
    chars_of, join, join_chars, push_all, push_str, slice, string_from_chars, trim,
    trimmed, views};

verus! {

/// With pause cutting off, how much trailing audio to keep while bounding a
/// speechless buffer at the length cap.
pub const SILENCE_KEEP_MS: u64 = 1000;

/// How much accumulated transcript (in chars) follows the vocabulary prompt.
pub const PROMPT_CONTEXT_CHARS: usize = 200;

/// The assembled output of one incremental session.
#[derive(Debug, Clone)]
pub struct AssembledTranscript {
    pub text: String,
    pub segments: u32,
}

// --- joining and prompting ----------------------------------------------------

/// The trimmed, non-empty segment texts, in order.
pub open spec fn kept_segments(texts: Seq<Seq<char>>) -> Seq<Seq<char>>
    decreases texts.len(),
{
    if texts.len() == 0 {
        Seq::empty()
    } else {
        let earlier = kept_segments(texts.drop_last());
        if trim(texts.last()).len() == 0 {
            earlier
        } else {
            earlier.push(trim(texts.last()))
        }
    }
}

pub open spec fn string_views(v: Seq<String>) -> Seq<Seq<char>> {
    v.map_values(|s: String| s@)
}

/// Segment texts joined with single spaces, empty ones dropped.
pub fn join_segments(texts: &Vec<String>) -> (r: String)
    ensures
        r@ == join(kept_segments(string_views(texts@)), " "@),
{
    let mut kept: Vec<Vec<char>> = Vec::new();
    let mut i: usize = 0;
    while i < texts.len()
        invariant
            i <= texts.len(),
            views(kept@) == kept_segments(string_views(texts@).take(i as int)),
        decreases texts.len() - i,
    {
        let ghost before = kept@;
        assert(string_views(texts@).take(i as int + 1).drop_last() == string_views(texts@).take(
            i as int,
        ));
        let t = trimmed(&chars_of(texts[i].as_str()));
        if t.len() > 0 {
            kept.push(t);
            assert(views(kept@) =~= views(before).push(kept@.last()@));
        }
        i = i + 1;
    }
    assert(string_views(texts@).take(texts.len() as int) == string_views(texts@));
    let space = chars_of(" ");
    string_from_chars(&join_chars(&kept, &space))
}

/// The last `max_chars` chars of `s` (all of it when shorter).
pub open spec fn tail_of(s: Seq<char>, max_chars: nat) -> Seq<char> {
    if s.len() <= max_chars {
        s
    } else {
        s.subrange(s.len() - max_chars, s.len() as int)
    }
}

/// The last `max_chars` chars of `text`, on char boundaries.
pub fn text_tail(text: &str, max_chars: usize) -> (r: String)
    ensures
        r@ == tail_of(text@, max_chars as nat),
{
    let chars = chars_of(text);
    if chars.len() <= max_chars {
        text.to_string()
    } else {
        string_from_chars(&slice(&chars, chars.len() - max_chars, chars.len()))
    }
}

/// The prompt for one segment: the trimmed vocabulary prompt, then the last
/// 200 chars of the trimmed transcript so far, joined by a space when both
/// are present.
pub open spec fn segment_prompt(vocabulary: Seq<char>, accumulated: Seq<char>) -> Seq<char> {
    let v = trim(vocabulary);
    let c = tail_of(trim(accumulated), PROMPT_CONTEXT_CHARS as nat);
    if v.len() == 0 {
        c
    } else if c.len() == 0 {
        v
    } else {
        v + " "@ + c
    }
}

pub fn prompt_with_context(vocabulary_prompt: &str, accumulated: &str) -> (r: String)
    ensures
        r@ == segment_prompt(vocabulary_prompt@, accumulated@),
{
    let vocabulary = trimmed(&chars_of(vocabulary_prompt));
    let acc = trimmed(&chars_of(accumulated));
    let context = if acc.len() <= PROMPT_CONTEXT_CHARS {
        acc
    } else {
        slice(&acc, acc.len() - PROMPT_CONTEXT_CHARS, acc.len())
    };
    if vocabulary.len() == 0 {
        string_from_chars(&context)
    } else if context.len() == 0 {
        string_from_chars(&vocabulary)
    } else {
        let mut out = vocabulary;
        push_str(&mut out, " ");
        push_all(&mut out, &context);
        string_from_chars(&out)
    }
}

// --- cutting the audio into segments -----------------------------------------

// --- collecting segment texts ------------------------------------------------

/// The segment texts after one more transcription: an empty text is not kept.
pub open spec fn after_segment(texts: Seq<Seq<char>>, text: Seq<char>) -> Seq<Seq<char>> {
    if text.len() == 0 {
        texts
    } else {
        texts.push(text)
    }
}

/// The joining side of an incremental session: the segment texts received so
/// far, how many segments were transcribed, and whether the session fell
/// back to transcribing the full clip.
pub struct Coordinator {
    pub texts: Vec<String>,
    pub segments: u32,
    pub failed: bool,
}

impl Coordinator {
    pub fn new() -> (c: Self)
        ensures
            c.texts@.len() == 0,
            c.segments == 0,
            !c.failed,
    {
        Coordinator { texts: Vec::new(), segments: 0, failed: false }
    }

    /// The transcript so far, which the next segment's prompt carries.
    pub fn accumulated(&self) -> (r: String)
        ensures
            r@ == join(kept_segments(string_views(self.texts@)), " "@),
    {
        join_segments(&self.texts)
    }

    /// Whether a new segment is still worth transcribing.
    pub fn wants_segments(&self) -> (r: bool)
        ensures
            r == !self.failed,
    {
        !self.failed
    }

    /// A segment's transcription came back. After a failure it is ignored. A
    /// text is counted, kept when not empty, and the partial transcript to
    /// show is returned with the segment count; a failed transcription makes
    /// the session fall back to the full clip.
    pub fn segment_result(&mut self, result: Result<String, String>) -> (partial: Option<(String, u32)>)
        requires
            old(self).segments < u32::MAX,
        ensures
            old(self).failed ==> *final(self) == *old(self) && partial is None,
            !old(self).failed && result is Err ==> final(self).failed && final(self).texts@
                == old(self).texts@ && final(self).segments == old(self).segments && partial is None,
            !old(self).failed && result is Ok ==> !final(self).failed && final(self).segments
                == old(self).segments + 1 && string_views(final(self).texts@) == after_segment(
                string_views(old(self).texts@),
                result->Ok_0@,
            ),
            !old(self).failed && result is Ok ==> (partial matches Some((text, n)) && text@ == join(
                kept_segments(string_views(final(self).texts@)),
                " "@,
            ) && n == final(self).segments),
    {
        if self.failed {
            return None;
        }
        match result {
            Ok(text) => {
                self.segments = self.segments + 1;
                if !text.as_str().is_empty() {
                    let ghost before = self.texts@;
                    self.texts.push(text);
                    assert(string_views(self.texts@) =~= string_views(before).push(
                        self.texts@.last()@,
                    ));
                }
                Some((join_segments(&self.texts), self.segments))
            },
            Err(_) => {
                self.failed = true;
                None
            },
        }
    }

    /// Segment audio could not be prepared: fall back to the full clip.
    pub fn fail(&mut self)
        ensures
            final(self).failed,
            final(self).texts@ == old(self).texts@,
            final(self).segments == old(self).segments,
    {
        self.failed = true;
    }

    /// The assembled transcript when recording finishes, `None` when the
    /// session fell back to the full clip.
    pub fn finish(&self) -> (r: Option<AssembledTranscript>)
        ensures
            r is None <==> self.failed,
            r matches Some(a) ==> a.text@ == join(kept_segments(string_views(self.texts@)), " "@)
                && a.segments == self.segments,
    {
        if self.failed {
            None
        } else {
            Some(AssembledTranscript { text: join_segments(&self.texts), segments: self.segments })
        }
    }
}

/// What to do with the buffered samples after a chunk.
#[derive(Debug, Clone, Copy, PartialEq, Eq, Structural)]
pub enum SegmentAction {
    /// The chunk was not buffered.
    Skip,
    /// The chunk was appended; no segment yet.
    Buffer,
    /// The chunk was appended and the whole buffer, this many samples, is a
    /// finished segment.
    Cut(usize),
    /// The chunk was appended, then this many leading samples were dropped
    /// to keep a speechless buffer bounded.
    Trim(usize),
}

/// Cuts a stream of chunks into segments. A segment is finished once it holds
/// speech and ends in `pause_ms` of continuous silence (when pause cutting is
/// on), or once it reaches `max_ms`. Silence between segments is never
/// buffered. The samples themselves stay with the caller; this tracks how
/// many are buffered.
#[derive(Debug, Clone, Copy)]
pub struct Segmenter {
    pub sample_rate: u32,
    pub buffered: usize,
    pub speech_detected: bool,
    pub trailing_silence_samples: usize,
    pub pause_ms: Option<u64>,
    pub max_ms: u64,
}

/// Invariant: the trailing silence lies inside the buffer.
pub open spec fn segmenter_wf(s: Segmenter) -> bool {
    s.trailing_silence_samples <= s.buffered
}

/// The next state and action for a chunk of `len` samples at `level`.
pub open spec fn segmenter_step(s: Segmenter, len: nat, level: ChunkLevel) -> (Segmenter, SegmentAction) {
    if len == 0 || s.sample_rate == 0 || (s.buffered == 0 && level == ChunkLevel::Silence) {
        (s, SegmentAction::Skip)
    } else {
        let buffered = s.buffered + len;
        let speech = s.speech_detected || level == ChunkLevel::Speech;
        let trailing = if level == ChunkLevel::Silence {
            s.trailing_silence_samples + len
        } else {
            0
        };
        let pause_cut = match s.pause_ms {
            Some(p) => speech && duration_of(trailing as nat, s.sample_rate as nat) >= p,
            None => false,
        };
        let at_cap = duration_of(buffered as nat, s.sample_rate as nat) >= s.max_ms;
        let emptied = Segmenter {
            buffered: 0,
            speech_detected: false,
            trailing_silence_samples: 0,
            ..s
        };
        if pause_cut || (at_cap && speech) {
            (emptied, SegmentAction::Cut(buffered as usize))
        } else if at_cap {
            let keep = s.sample_rate as int * SILENCE_KEEP_MS / 1000;
            let dropped = if buffered > keep {
                buffered - keep
            } else {
                0
            };
            let left = buffered - dropped;
            (
                Segmenter {
                    buffered: left as usize,
                    speech_detected: speech,
                    trailing_silence_samples: if trailing <= left {
                        trailing as usize
                    } else {
                        left as usize
                    },
                    ..s
                },
                SegmentAction::Trim(dropped as usize),
            )
        } else {
            (
                Segmenter {
                    buffered: buffered as usize,
                    speech_detected: speech,
                    trailing_silence_samples: trailing as usize,
                    ..s
                },
                SegmentAction::Buffer,
            )
        }
    }
}

impl Segmenter {
    pub fn new(sample_rate: u32, pause_ms: Option<u64>, max_ms: u64) -> (s: Self)
        ensures
            s.sample_rate == sample_rate,
            s.pause_ms == pause_ms,
            s.max_ms == max_ms,
            s.buffered == 0,
            !s.speech_detected,
            s.trailing_silence_samples == 0,
    {
        Segmenter {
            sample_rate,
            buffered: 0,
            speech_detected: false,
            trailing_silence_samples: 0,
            pause_ms,
            max_ms,
        }
    }

    /// Feeds one chunk of `len` samples at `level`.
    pub fn push_chunk(&mut self, len: usize, level: ChunkLevel) -> (action: SegmentAction)
        requires
            segmenter_wf(*old(self)),
            old(self).buffered + len <= usize::MAX,
        ensures
            (*final(self), action) == segmenter_step(*old(self), len as nat, level),
            segmenter_wf(*final(self)),
            level != ChunkLevel::Silence && action != SegmentAction::Skip ==> final(self).trailing_silence_samples
                == 0,
            level == ChunkLevel::Silence ==> final(self).trailing_silence_samples <= old(self).trailing_silence_samples
                + len,
    {
        if len == 0 || self.sample_rate == 0 || (self.buffered == 0 && level == ChunkLevel::Silence) {
            return SegmentAction::Skip;
        }
        self.buffered = self.buffered + len;
        match level {
            ChunkLevel::Speech => {
                self.speech_detected = true;
                self.trailing_silence_samples = 0;
            },
            ChunkLevel::Sound => {
                self.trailing_silence_samples = 0;
            },
            ChunkLevel::Silence => {
                self.trailing_silence_samples = self.trailing_silence_samples + len;
            },
        }
        let pause_cut = match self.pause_ms {
            Some(p) => self.speech_detected && duration_ms(
                self.trailing_silence_samples,
                self.sample_rate,
            ) >= p,
            None => false,
        };
        let at_cap = duration_ms(self.buffered, self.sample_rate) >= self.max_ms;
        if pause_cut || (at_cap && self.speech_detected) {
            let n = self.buffered;
            self.buffered = 0;
            self.speech_detected = false;
            self.trailing_silence_samples = 0;
            return SegmentAction::Cut(n);
        }
        if at_cap {
            let keep: u64 = (self.sample_rate as u64) * 1000 / 1000;
            let dropped: usize = if (self.buffered as u64) > keep {
                self.buffered - (keep as usize)
            } else {
                0
            };
            self.buffered = self.buffered - dropped;
            if self.trailing_silence_samples > self.buffered {
                self.trailing_silence_samples = self.buffered;
            }
            return SegmentAction::Trim(dropped);
        }
        SegmentAction::Buffer
    }

    /// Final flush at stop: the whole buffer when it holds speech, with no
    /// trailing-silence requirement; otherwise it is discarded. Either way
    /// the buffer is empty afterwards.
    pub fn take_tail(&mut self) -> (r: Option<usize>)
        ensures
            r == if old(self).speech_detected {
                Some(old(self).buffered)
            } else {
                None::<usize>
            },
            final(self).buffered == 0,
            !final(self).speech_detected,
            final(self).trailing_silence_samples == 0,
            final(self).sample_rate == old(self).sample_rate,
            final(self).pause_ms == old(self).pause_ms,
            final(self).max_ms == old(self).max_ms,
    {
        let had_speech = self.speech_detected;
        let n = self.buffered;
        self.buffered = 0;
        self.speech_detected = false;
        self.trailing_silence_samples = 0;
        if had_speech {
            Some(n)
        } else {
            None
        }
    }
}

/// Every finished segment holds speech: a cut happens only once speech was
/// buffered, and the whole buffer goes out.
pub proof fn lemma_cut_only_after_speech(s: Segmenter, len: nat, level: ChunkLevel)
    requires
        s.buffered + len <= usize::MAX,
    ensures
        segmenter_step(s, len, level).1 matches SegmentAction::Cut(n) ==> (s.speech_detected
            || level == ChunkLevel::Speech) && n == s.buffered + len && segmenter_step(s, len, level).0.buffered == 0,
{
}

/// Silence never starts a segment: a silent chunk into an empty buffer
/// leaves everything as it was.
pub proof fn lemma_leading_silence_skipped(s: Segmenter, len: nat)
    requires
        s.buffered == 0,
    ensures
        segmenter_step(s, len, ChunkLevel::Silence) == (s, SegmentAction::Skip),
{
}

/// The segmenter after `chunks` (length, level) are fed to `s` in order.
pub open spec fn fed(s: Segmenter, chunks: Seq<(nat, ChunkLevel)>) -> Segmenter
    decreases chunks.len(),
{
    if chunks.len() == 0 {
        s
    } else {
        segmenter_step(fed(s, chunks.drop_last()), chunks.last().0, chunks.last().1).0
    }
}

/// The samples of the run of consecutive silent chunks at the end of
/// `chunks` (on top of `start` silent samples before them when every chunk is
/// silent): any louder chunk ends the run.
pub open spec fn silence_run(start: nat, chunks: Seq<(nat, ChunkLevel)>) -> nat
    decreases chunks.len(),
{
    if chunks.len() == 0 {
        start
    } else if chunks.last().1 == ChunkLevel::Silence {
        silence_run(start, chunks.drop_last()) + chunks.last().0
    } else {
        0
    }
}

/// The samples in `chunks`.
pub open spec fn chunks_len(chunks: Seq<(nat, ChunkLevel)>) -> nat
    decreases chunks.len(),
{
    if chunks.len() == 0 {
        0
    } else {
        chunks_len(chunks.drop_last()) + chunks.last().0
    }
}

proof fn lemma_silence_run_bounded(start: nat, chunks: Seq<(nat, ChunkLevel)>)
    ensures
        silence_run(start, chunks) <= start + chunks_len(chunks),
    decreases chunks.len(),
{
    if chunks.len() > 0 {
        lemma_silence_run_bounded(start, chunks.drop_last());
    }
}

/// The silence a segmenter counts toward a pause is only the current run of
/// consecutive silent chunks: speech or sound in between starts the count
/// again, so two short pauses never add up to a long one.
pub proof fn law_silence_count_is_the_current_run(s: Segmenter, chunks: Seq<(nat, ChunkLevel)>)
    requires
        s.sample_rate > 0,
        forall|i: int| 0 <= i < chunks.len() ==> #[trigger] chunks[i].0 > 0,
        s.trailing_silence_samples + chunks_len(chunks) <= usize::MAX,
    ensures
        fed(s, chunks).trailing_silence_samples <= silence_run(s.trailing_silence_samples as nat, chunks),
        fed(s, chunks).sample_rate == s.sample_rate,
    decreases chunks.len(),
{
    if chunks.len() > 0 {
        let front = chunks.drop_last();
        assert forall|i: int| 0 <= i < front.len() implies #[trigger] front[i].0 > 0 by {
            assert(front[i] == chunks[i]);
        }
        law_silence_count_is_the_current_run(s, front);
        lemma_silence_run_bounded(s.trailing_silence_samples as nat, front);
        assert(chunks.last() == chunks[chunks.len() - 1]);
        assert(chunks.last().0 > 0);
    }
}

/// Two pauses, each shorter than the pause length, with speech between them
/// never make a cut at the second: after a speech chunk (that did not end a
/// segment) the silence count is zero.
pub proof fn law_speech_resets_the_pause(s: Segmenter, len: nat)
    requires
        len > 0,
        s.sample_rate > 0,
    ensures
        segmenter_step(s, len, ChunkLevel::Speech).1 != SegmentAction::Skip,
        segmenter_step(s, len, ChunkLevel::Speech).0.trailing_silence_samples == 0,
{
}

} // verus!
