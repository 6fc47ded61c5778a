# scribe

The verified core of Scribe, a local-first dictation app: the decisions it
makes about recordings, transcripts, hotkeys, backups and restores, with
their contracts stated and proved by Verus. The transcript database, the
Windows clipboard and the COM calls of UI Automation, audio capture and the
Tauri shell are not part of this crate; what a UI Automation insert does
with the focused control, and how a recording session is set up, are.

## Layout

- `src/` — the verified library:
  - state: `app_state`, `dictation_state`, `hotkeys` (bindings, conflict
    checks, the modifier-chord watcher), `incremental` (phrase cutting and
    segment joining), `audio` (session set-up, auto-stop, silence
    trimming, microphone choice), `output_uia` (the UI Automation insert's
    choice and report), `note_sync` (sync gating and debouncing);
  - text and files: `text`, `filler`, `export` (CSV and Markdown),
    `daily_log` (the daily backup files), `import` (restore validation),
    `history_query`, `file_transcribe`, `flavor`;
  - services: `github_oauth` (device flow, tokens), `github_backup`,
    `google_drive`, `note_analysis`, `dictation_cleanup`,
    `selection_transform`, reached through `http` and `json`.
    Every request they send is built by a function whose contract fixes its
    URL, headers and body, and is recorded with its reply in the caller's
    `SentLog` (a ghost record only the exchange functions add to). The
    backup contracts state over that record what was sent: which files were
    written, with which content, and when a repository or folder was
    created. What a server decides is not claimed;
  - model checks: `checksum` (the SHA-1 of a model stream, with its byte
    count, against the catalog) and `model_manager`;
  - values shared by all: `error`, `clock`, `settings`, `transcript`,
    `models`, `output`, `commands`.
- `tests/` — scenario tests run against the compiled library.
- `app/` — the shell around it: file and WAV I/O, floating-point sample
  math, the download stream, the poll and debounce loops, serde forms.

Outside crates are reached only through small trusted wrappers whose
contracts say what the crate's documentation promises (`reqwest`,
`serde_json` for reading replies, `sha1`, `sha2`, `base64`, `chrono`,
`uuid`, `std::path`). JSON string quoting, a few lines to state, is written
and proved here; the tests compare it with `serde_json`.
