use scribe::error::CommandError;
use scribe::model_manager::{
    catalog_model, model_status, partial_file_name, request_cancel_download, status_after_download,
    verify_download, verify_file_checksum, DownloadRegistry,
};
use scribe::models::ModelStatus;

#[test]
fn a_model_downloads_once_at_a_time_and_can_be_cancelled() {
    let mut downloads = DownloadRegistry::default();
    let flag = downloads.start("small.en").unwrap();
    assert!(downloads.is_downloading("small.en"));
    let again = downloads.start("small.en").unwrap_err();
    assert_eq!(again.code, "model_download_in_progress");
    assert_eq!(again.message, "small.en is already downloading.");

    assert!(!downloads.is_cancelled(flag));
    assert_eq!(request_cancel_download(&mut downloads, "small.en").unwrap(), true);
    assert!(downloads.is_cancelled(flag));
    assert_eq!(request_cancel_download(&mut downloads, "base").unwrap(), false);

    downloads.finish("small.en");
    assert!(!downloads.is_downloading("small.en"));
    let next = downloads.start("small.en").unwrap();
    assert!(!downloads.is_cancelled(next));
}

#[test]
fn shown_status_prefers_activity_then_disk() {
    assert_eq!(model_status(true, true, true, None), ModelStatus::Downloading);
    assert_eq!(model_status(false, true, true, None), ModelStatus::Selected);
    assert_eq!(model_status(false, true, false, None), ModelStatus::Downloaded);
    assert_eq!(model_status(false, false, false, Some(ModelStatus::Failed)), ModelStatus::Failed);
    assert_eq!(model_status(false, false, true, Some(ModelStatus::Selected)), ModelStatus::NotDownloaded);
}

#[test]
fn status_after_download_distinguishes_cancel_from_failure() {
    assert_eq!(status_after_download(&Ok(()), true), ModelStatus::Selected);
    assert_eq!(status_after_download(&Ok(()), false), ModelStatus::Downloaded);
    let cancelled = Err(CommandError::new("model_download_cancelled", "x"));
    assert_eq!(status_after_download(&cancelled, false), ModelStatus::NotDownloaded);
    let failed = Err(CommandError::new("model_download_failed", "x"));
    assert_eq!(status_after_download(&failed, false), ModelStatus::Failed);
}

#[test]
fn downloads_are_checked_for_size_then_checksum() {
    let size = verify_download("Small", Some(10), 9, Some("abc"), "abc").unwrap_err();
    assert_eq!(size.code, "model_download_failed");
    assert_eq!(
        size.message,
        "Downloaded size for Small did not match the server response. Expected 10 bytes, got 9 bytes."
    );
    let sum = verify_download("Small", Some(9), 9, Some("abc"), "abd").unwrap_err();
    assert_eq!(sum.code, "model_checksum_mismatch");
    assert!(verify_download("Small", None, 9, None, "x").is_ok());
    assert!(verify_file_checksum("Small", Some("a"), "a").is_ok());
    assert_eq!(verify_file_checksum("Small", Some("a"), "b").unwrap_err().message, "Small did not match the expected checksum. Re-download the model.");
}

#[test]
fn unknown_models_are_refused() {
    let e = catalog_model("nope").unwrap_err();
    assert_eq!(e.code, "unknown_model");
    assert_eq!(e.message, "Unknown Whisper model 'nope'. Choose a model from the catalog.");
    assert_eq!(partial_file_name("ggml-small.bin"), "ggml-small.bin.part");
}

#[test]
fn cancelled_download_names_the_model() {
    let e = scribe::model_manager::download_cancelled("Base (English)");
    assert_eq!(e.code, "model_download_cancelled");
    assert_eq!(e.message, "Download for Base (English) was cancelled.");
}

#[test]
fn smallest_present_model_is_the_first_smallest() {
    let sizes = vec![None, Some(500), Some(75), None, Some(75)];
    assert_eq!(scribe::model_manager::smallest_present(&sizes), Some(2));
    assert_eq!(scribe::model_manager::smallest_present(&vec![None, None]), None);
    assert_eq!(scribe::model_manager::smallest_present(&Vec::new()), None);
}

#[test]
fn model_hash_checks_size_then_sha1_of_the_fed_bytes() {
    use_model_hash();
}

fn fed(chunks: &[&[u8]]) -> scribe::checksum::ModelHash {
    let mut h = scribe::checksum::ModelHash::new();
    for c in chunks {
        h.feed(c);
    }
    h
}

fn use_model_hash() {
    let abc = "a9993e364706816aba3e25717850c26c9cd0d89d";
    let h = fed(&[b"a", b"", b"bc"]);
    assert_eq!(h.byte_count(), 3);
    assert_eq!(h.check_download("Tiny", Some(3), Some(abc)).unwrap(), 3);
    assert_eq!(fed(&[b"abc"]).check_download("Tiny", None, None).unwrap(), 3);

    let short = fed(&[b"ab"]).check_download("Tiny", Some(3), Some(abc)).unwrap_err();
    assert_eq!(short.code, "model_download_failed");
    assert_eq!(
        short.message,
        "Downloaded size for Tiny did not match the server response. Expected 3 bytes, got 2 bytes."
    );
    let wrong = fed(&[b"abd"]).check_download("Tiny", Some(3), Some(abc)).unwrap_err();
    assert_eq!(wrong.code, "model_checksum_mismatch");
    assert_eq!(wrong.message, "Downloaded Tiny did not match the expected checksum. Retry the download.");

    assert!(fed(&[b"abc"]).check_installed("Tiny", Some(abc)).is_ok());
    let bad = fed(&[b"ab"]).check_installed("Tiny", Some(abc)).unwrap_err();
    assert_eq!(bad.message, "Tiny did not match the expected checksum. Re-download the model.");
}
