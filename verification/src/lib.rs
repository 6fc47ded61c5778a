pub mod app_state;
pub mod clock;
pub mod dictation_state;
pub mod error;
pub mod filler;
pub mod gpu;
pub mod hotkeys;
pub mod models;
pub mod text;
pub mod output;
pub mod output_uia;
pub mod settings;
pub mod transcript;
pub mod http;
pub mod json;
pub mod note_analysis;
pub mod dictation_cleanup;
pub mod selection_transform;
pub mod github_oauth;
pub mod audio;
pub mod incremental;
pub mod export;
pub mod github_backup;
pub mod note_sync;
pub mod google_drive;
pub mod file_transcribe;
pub mod import;
pub mod model_manager;
pub mod dictation;
pub mod commands;
pub mod daily_log;
pub mod history_query;
pub mod checksum;
pub mod flavor;
