use scribe::audio::ChunkLevel;
use scribe::incremental::{
    join_segments, prompt_with_context, text_tail, SegmentAction, Segmenter,
};

const RATE: u32 = 16_000;
/// 20 ms chunks at 16 kHz.
const CHUNK: usize = 320;
const TEST_PAUSE_MS: u64 = 1_000;
const TEST_MAX_MS: u64 = 25_000;

fn new_segmenter() -> Segmenter {
    Segmenter::new(RATE, Some(TEST_PAUSE_MS), TEST_MAX_MS)
}

fn samples(ms: usize) -> usize {
    RATE as usize * ms / 1_000
}

fn silence_marker_len() -> usize {
    ((RATE as u64 * TEST_PAUSE_MS / 1_000) as usize).div_ceil(CHUNK) * CHUNK
}

/// Feeds `(duration_ms, level)` runs in 20 ms chunks and collects the length
/// of every finished segment.
fn feed(segmenter: &mut Segmenter, runs: &[(usize, ChunkLevel)]) -> Vec<usize> {
    let mut cuts = Vec::new();
    for &(ms, level) in runs {
        let mut left = samples(ms);
        while left > 0 {
            let len = left.min(CHUNK);
            if let SegmentAction::Cut(n) = segmenter.push_chunk(len, level) {
                cuts.push(n);
            }
            left -= len;
        }
    }
    cuts
}

#[test]
fn finalizes_on_silence_after_speech() {
    let mut segmenter = new_segmenter();
    let segments = feed(
        &mut segmenter,
        &[(1_000, ChunkLevel::Speech), (TEST_PAUSE_MS as usize + 400, ChunkLevel::Silence)],
    );
    assert_eq!(segments, vec![16_000 + silence_marker_len()]);
    assert!(segmenter.take_tail().is_none());
}

#[test]
fn brief_pause_below_threshold_does_not_split_a_segment() {
    let mut segmenter = new_segmenter();
    let pause_ms = TEST_PAUSE_MS as usize / 2;
    let segments = feed(
        &mut segmenter,
        &[(1_000, ChunkLevel::Speech), (pause_ms, ChunkLevel::Silence), (1_000, ChunkLevel::Speech)],
    );
    assert!(segments.is_empty(), "a sub-threshold hesitation must not split the segment");
    let tail = segmenter.take_tail().expect("tail contains speech");
    assert_eq!(tail, RATE as usize * 2 + samples(pause_ms));
}

#[test]
fn pause_disabled_never_cuts_on_silence() {
    let mut segmenter = Segmenter::new(RATE, None, TEST_MAX_MS);
    let segments = feed(&mut segmenter, &[(1_000, ChunkLevel::Speech), (3_000, ChunkLevel::Silence)]);
    assert!(segments.is_empty(), "pause-disabled must not cut on silence");
    let tail = segmenter.take_tail().expect("tail contains speech");
    assert_eq!(tail, RATE as usize * 4);
}

#[test]
fn length_cap_still_bounds_segments_when_pause_disabled() {
    let mut segmenter = Segmenter::new(RATE, None, 2_000);
    let segments = feed(&mut segmenter, &[(3_000, ChunkLevel::Speech)]);
    assert_eq!(segments, vec![RATE as usize * 2]);
    let tail = segmenter.take_tail().expect("tail contains speech");
    assert_eq!(tail, RATE as usize);
}

#[test]
fn does_not_finalize_without_speech() {
    let mut segmenter = new_segmenter();
    let segments = feed(&mut segmenter, &[(2_000, ChunkLevel::Sound), (1_000, ChunkLevel::Silence)]);
    assert!(segments.is_empty());
    assert!(segmenter.take_tail().is_none());
}

#[test]
fn finalizes_at_hard_cap_during_continuous_speech() {
    let mut segmenter = new_segmenter();
    let segments = feed(&mut segmenter, &[(27_000, ChunkLevel::Speech)]);
    assert_eq!(segments, vec![RATE as usize * 25]);
    let tail = segmenter.take_tail().expect("tail contains speech");
    assert_eq!(tail, RATE as usize * 2);
}

#[test]
fn hard_cap_without_speech_keeps_buffer_bounded_and_discards() {
    let mut segmenter = new_segmenter();
    let segments = feed(&mut segmenter, &[(60_000, ChunkLevel::Sound)]);
    assert!(segments.is_empty());
    assert!(segmenter.buffered <= RATE as usize * 25 + CHUNK);
    assert!(segmenter.take_tail().is_none());
}

#[test]
fn leading_silence_is_never_accumulated() {
    let mut segmenter = new_segmenter();
    let segments = feed(
        &mut segmenter,
        &[
            (1_000, ChunkLevel::Silence),
            (1_000, ChunkLevel::Speech),
            (TEST_PAUSE_MS as usize + 400, ChunkLevel::Silence),
        ],
    );
    assert_eq!(segments, vec![16_000 + silence_marker_len()]);
}

#[test]
fn tail_flushes_speech_without_silence_requirement() {
    let mut segmenter = new_segmenter();
    let segments = feed(&mut segmenter, &[(300, ChunkLevel::Speech)]);
    assert!(segments.is_empty());
    let tail = segmenter.take_tail().expect("tail contains speech");
    assert_eq!(tail, 4_800);
    assert!(segmenter.take_tail().is_none());
}

#[test]
fn joins_segments_with_single_spaces_dropping_empties() {
    let texts = vec![
        " Hello there. ".to_string(),
        String::new(),
        "   ".to_string(),
        "Second phrase.".to_string(),
    ];
    assert_eq!(join_segments(&texts), "Hello there. Second phrase.");
    assert_eq!(join_segments(&Vec::new()), "");
}

#[test]
fn prompt_combines_vocabulary_and_context_tail() {
    assert_eq!(prompt_with_context("", ""), "");
    assert_eq!(prompt_with_context(" Scribe, Tauri ", ""), "Scribe, Tauri");
    assert_eq!(prompt_with_context("", "previous text"), "previous text");
    assert_eq!(prompt_with_context("Scribe", "previous text"), "Scribe previous text");
}

#[test]
fn prompt_context_is_limited_to_the_last_200_chars() {
    let accumulated = "x".repeat(300);
    let prompt = prompt_with_context("vocab", &accumulated);
    assert_eq!(prompt, format!("vocab {}", "x".repeat(200)));
}

#[test]
fn prompt_context_truncation_respects_char_boundaries() {
    let accumulated = "é".repeat(300);
    let prompt = prompt_with_context("", &accumulated);
    assert_eq!(prompt.chars().count(), 200);
    assert!(prompt.chars().all(|character| character == 'é'));
}

#[test]
fn text_tail_returns_short_text_unchanged() {
    assert_eq!(text_tail("short", 200), "short");
    assert_eq!(text_tail("anything", 0), "");
}

#[test]
fn coordinator_joins_segment_texts_and_counts_segments() {
    let mut c = scribe::incremental::Coordinator::new();
    assert!(c.wants_segments());
    let first = c.segment_result(Ok(" Hello there ".to_string())).unwrap();
    assert_eq!(first, ("Hello there".to_string(), 1));
    let second = c.segment_result(Ok(String::new())).unwrap();
    assert_eq!(second, ("Hello there".to_string(), 2));
    let third = c.segment_result(Ok("general Kenobi".to_string())).unwrap();
    assert_eq!(third, ("Hello there general Kenobi".to_string(), 3));
    assert_eq!(c.accumulated(), "Hello there general Kenobi");
    let done = c.finish().unwrap();
    assert_eq!(done.text, "Hello there general Kenobi");
    assert_eq!(done.segments, 3);
}

#[test]
fn coordinator_falls_back_after_a_failed_segment() {
    let mut c = scribe::incremental::Coordinator::new();
    c.segment_result(Ok("kept".to_string()));
    assert!(c.segment_result(Err("whisper failed".to_string())).is_none());
    assert!(!c.wants_segments());
    // Later segments are ignored once the session has fallen back.
    assert!(c.segment_result(Ok("late".to_string())).is_none());
    assert_eq!(c.segments, 1);
    assert!(c.finish().is_none());
}

#[test]
fn coordinator_fail_discards_the_session() {
    let mut c = scribe::incremental::Coordinator::new();
    c.segment_result(Ok("kept".to_string()));
    c.fail();
    assert!(c.finish().is_none());
}
