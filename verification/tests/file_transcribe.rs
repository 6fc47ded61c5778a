use scribe::file_transcribe::{
    ffmpeg_failure, ffmpeg_required, latency_ms, needs_ffmpeg, text_target_for_source,
    wav_duration_ms,
};
use std::path::Path;

#[test]
fn native_formats_skip_ffmpeg() {
    for name in ["a.wav", "b.MP3", "c.flac", "d.Ogg"] {
        assert!(!needs_ffmpeg(name), "{name} should be native");
    }
}

#[test]
fn other_formats_need_ffmpeg() {
    for name in ["a.mp4", "b.mkv", "c.m4a", "d.webm", "noextension"] {
        assert!(needs_ffmpeg(name), "{name} should need ffmpeg");
    }
}

#[test]
fn text_target_appends_txt_to_full_name() {
    assert_eq!(
        Path::new(&text_target_for_source("/tmp/meeting.mp4").unwrap()),
        Path::new("/tmp/meeting.mp4.txt")
    );
    assert_eq!(Path::new(&text_target_for_source("clip.wav").unwrap()), Path::new("clip.wav.txt"));
}

#[test]
fn text_target_rejects_non_file_paths() {
    assert!(text_target_for_source("/").is_err());
    assert_eq!(text_target_for_source("/").unwrap_err().message, "/ is not a file path.");
}

#[test]
fn ffmpeg_failure_quotes_the_last_reason_line() {
    let e = ffmpeg_failure("in.mkv", "ffmpeg version 6\nbanner\n  in.mkv: Invalid data found  \n\n");
    assert_eq!(e.code, "ffmpeg_conversion_failed");
    assert_eq!(e.message, "ffmpeg could not extract audio from in.mkv. in.mkv: Invalid data found");
    assert_eq!(ffmpeg_failure("x", "").message, "ffmpeg could not extract audio from x. ");
    assert_eq!(ffmpeg_required().code, "ffmpeg_required");
}

#[test]
fn wav_duration_and_latency() {
    assert_eq!(wav_duration_ms(48_000, 16_000), Some(3_000));
    assert_eq!(wav_duration_ms(48_000, 0), None);
    assert_eq!(latency_ms(1_234), 1_234);
    assert_eq!(latency_ms(u128::MAX), u32::MAX);
}
