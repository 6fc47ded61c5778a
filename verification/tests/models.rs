use scribe::models::{catalog, catalog_model, ModelStatus, DEFAULT_MODEL_ID};

#[test]
fn default_model_is_present_and_english_only() {
    let default = catalog_model(DEFAULT_MODEL_ID).expect("default model in catalog");
    assert!(!default.multilingual, "the default model stays English-only");
}

#[test]
fn catalog_includes_multilingual_base_and_small() {
    for id in ["tiny", "base", "small", "medium"] {
        let model = catalog_model(id).unwrap_or_else(|| panic!("{id} should be in the catalog"));
        assert!(model.multilingual, "{id} must be flagged multilingual");
        assert_eq!(model.filename, format!("ggml-{id}.bin"));
        assert!(model.expected_sha1.is_none());
    }
}

#[test]
fn en_builds_are_english_only_and_large_turbo_is_multilingual() {
    for id in ["tiny.en", "base.en", "small.en", "small.en-q5_1", "medium.en"] {
        assert!(!catalog_model(id).unwrap().multilingual, "{id} is an English-only build");
    }
    assert!(catalog_model("large-v3-turbo-q5_0").unwrap().multilingual);
    assert!(catalog_model("large-v3-turbo").unwrap().multilingual);
}

#[test]
fn full_large_turbo_is_offered_alongside_the_quantized_one() {
    let q5 = catalog_model("large-v3-turbo-q5_0").unwrap();
    let full = catalog_model("large-v3-turbo").unwrap();
    assert_eq!(q5.filename, "ggml-large-v3-turbo-q5_0.bin");
    assert_eq!(full.filename, "ggml-large-v3-turbo.bin");
    assert!(full.expected_sha1.is_none());
}

#[test]
fn download_urls_point_at_the_whisper_cpp_repo() {
    let small = catalog_model("small").unwrap();
    assert_eq!(
        small.download_url(),
        "https://huggingface.co/ggerganov/whisper.cpp/resolve/main/ggml-small.bin"
    );
}

#[test]
fn unknown_model_is_not_in_the_catalog() {
    assert!(catalog_model("huge").is_none());
    assert_eq!(catalog().len(), 11);
}

#[test]
fn status_values_round_trip_through_the_database_form() {
    for status in [
        ModelStatus::NotDownloaded,
        ModelStatus::Downloading,
        ModelStatus::Downloaded,
        ModelStatus::Selected,
        ModelStatus::Loaded,
        ModelStatus::Failed,
        ModelStatus::UpdateAvailable,
    ] {
        assert_eq!(ModelStatus::from_db_value(status.as_db_value()), status);
    }
    assert_eq!(ModelStatus::from_db_value("bogus"), ModelStatus::NotDownloaded);
    assert_eq!(ModelStatus::Failed.as_db_value(), "failed");
}

#[test]
fn checksum_is_sha1_when_published() {
    let model = catalog_model("tiny.en").unwrap();
    let checksum = model.checksum().unwrap();
    assert_eq!(checksum.value, "c78c86eb1a8faa21b369bcd33207cc90d64ae9df");
    assert!(catalog_model("tiny").unwrap().checksum().is_none());
}
