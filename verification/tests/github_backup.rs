use scribe::clock::Timestamp;
use base64::Engine;
use scribe::github_backup::{
    after_put, check_owner, day_writes, create_reply, day_file_path, login_reply, put_reply, repo_reply,
    sha_reply, GitHubBackup, PutNext, PutOutcome,
};
use scribe::daily_log::DayFile;
use scribe::http::{HttpRequest, SentLog};
use scribe::transcript::Transcript;

/// 2026-06-12 18:30:00 UTC.
const AT: Timestamp = Timestamp { secs: 1_781_289_000, nanos: 0 };

fn unreachable_backup() -> GitHubBackup {
    let mut backup = GitHubBackup::new("tok", "alice/scribe-notes").unwrap();
    // Nothing listens on port 1 of the loopback address.
    backup.api = "http://127.0.0.1:1".to_string();
    backup
}

#[test]
fn put_body_encodes_content_and_names_the_day() {
    let body = GitHubBackup::put_body("2026-06/2026-06-12.md", "hi", Some("abc"));
    assert_eq!(
        body,
        "{\"content\":\"aGk=\",\"message\":\"scribe: notes 2026-06-12\",\"sha\":\"abc\"}"
    );
    let fresh = GitHubBackup::put_body("2026-06/2026-06-12.md", "hi", None);
    assert_eq!(fresh, "{\"content\":\"aGk=\",\"message\":\"scribe: notes 2026-06-12\"}");
}

#[test]
fn put_body_base64_encodes_the_whole_daily_file() {
    let body = GitHubBackup::put_body("transcripts/2026-06/2026-06-12.md", "# June 12, 2026\n\nhello\n", None);
    assert!(body.contains("\"content\":\"IyBKdW5lIDEyLCAyMDI2CgpoZWxsbwo=\""));
    assert!(!body.contains("\"sha\""));
}

#[test]
fn unreachable_github_fails_the_sync() {
    let mut note = Transcript::new_last_buffer("buy milk", Some(1000), None, None).unwrap();
    note.created_at = AT;
    let error = unreachable_backup().sync_notes(&vec![note], &mut SentLog::new()).unwrap_err();
    assert_eq!(error.code, "github_sync_failed");
    assert!(error.message.starts_with("Could not reach GitHub."));
}

#[test]
fn unreachable_github_fails_a_daily_write() {
    let error = unreachable_backup().put_day_file("2026-06/2026-06-12.md", "x", &mut SentLog::new()).unwrap_err();
    assert_eq!(error.code, "github_sync_failed");
}

#[test]
fn repository_replies_say_whether_it_exists() {
    assert_eq!(repo_reply(200, "200 OK", "alice", "notes").unwrap(), true);
    assert_eq!(repo_reply(404, "404 Not Found", "alice", "notes").unwrap(), false);
    assert_eq!(repo_reply(401, "401 Unauthorized", "alice", "notes").unwrap_err().code, "github_unauthorized");
    let e = repo_reply(500, "500 Internal Server Error", "alice", "notes").unwrap_err();
    assert_eq!(e.code, "github_sync_failed");
    assert_eq!(e.message, "GitHub returned HTTP 500 Internal Server Error checking the repository alice/notes.");
}

#[test]
fn login_and_owner_checks() {
    assert_eq!(login_reply(200, "200 OK", "{\"login\":\"Alice\"}").unwrap(), "Alice");
    assert_eq!(login_reply(200, "200 OK", "{}").unwrap(), "");
    let e = login_reply(403, "403 Forbidden", "").unwrap_err();
    assert_eq!(e.message, "GitHub returned HTTP 403 Forbidden reading the authenticated account.");
    assert!(check_owner("Alice", "alice", "notes").is_ok());
    let e = check_owner("bob", "alice", "notes").unwrap_err();
    assert_eq!(
        e.message,
        "The repository alice/notes does not exist and could not be created automatically (it is owned by \"alice\", not your account \"bob\"). Create it on GitHub first."
    );
}

#[test]
fn create_sha_and_put_replies() {
    assert!(create_reply(201, "201 Created", "{}", "alice", "notes").is_ok());
    let e = create_reply(422, "422 Unprocessable Entity", "name already exists", "alice", "notes").unwrap_err();
    assert_eq!(
        e.message,
        "GitHub returned HTTP 422 Unprocessable Entity creating the repository alice/notes. name already exists"
    );
    assert_eq!(sha_reply(200, "200 OK", "{\"sha\":\"abc\"}", "a.md").unwrap().as_deref(), Some("abc"));
    assert_eq!(sha_reply(404, "404 Not Found", "", "a.md").unwrap(), None);
    assert_eq!(sha_reply(401, "401 Unauthorized", "", "a.md").unwrap_err().code, "github_unauthorized");
    assert_eq!(
        sha_reply(500, "500 Internal Server Error", "", "a.md").unwrap_err().message,
        "GitHub returned HTTP 500 Internal Server Error reading a.md."
    );
    assert_eq!(put_reply(201, "201 Created", "", "a.md").unwrap(), PutOutcome::Written);
    assert_eq!(put_reply(409, "409 Conflict", "", "a.md").unwrap(), PutOutcome::Conflict);
    assert_eq!(put_reply(422, "422 Unprocessable Entity", "", "a.md").unwrap(), PutOutcome::Conflict);
    assert_eq!(put_reply(401, "401 Unauthorized", "", "a.md").unwrap_err().code, "github_unauthorized");
    assert_eq!(
        put_reply(500, "500 Internal Server Error", "boom", "a.md").unwrap_err().message,
        "GitHub returned HTTP 500 Internal Server Error writing a.md. boom"
    );
}

fn header<'a>(req: &'a HttpRequest, name: &str) -> Option<&'a str> {
    req.headers.iter().find(|(k, _)| k == name).map(|(_, v)| v.as_str())
}

#[test]
fn put_day_file_creates_new_file_with_base64_content() {
    let backup = GitHubBackup::new("tok", "alice/scribe-notes").unwrap();
    let path = "2026-06/2026-06-12.md";
    let content = "# June 12, 2026\n\nhello\n";

    // The sha lookup is a GET of the file; a 404 means a new file.
    let lookup = backup.sha_request(path);
    assert_eq!(
        lookup.url,
        "https://api.github.com/repos/alice/scribe-notes/contents/2026-06/2026-06-12.md"
    );
    assert!(lookup.body.is_empty());
    assert_eq!(header(&lookup, "Authorization"), Some("Bearer tok"));
    assert!(sha_reply(404, "404 Not Found", "{\"message\":\"Not Found\"}", path).unwrap().is_none());

    // The PUT carries the base64 of the content and, for a new file, no sha.
    let put = backup.put_request(path, content, None);
    assert_eq!(put.url, lookup.url);
    assert_eq!(header(&put, "Authorization"), Some("Bearer tok"));
    assert_eq!(header(&put, "X-GitHub-Api-Version"), Some("2022-11-28"));
    let expected_b64 = base64::engine::general_purpose::STANDARD.encode(content.as_bytes());
    assert!(put.body.contains(&expected_b64));
    assert!(!put.body.contains("\"sha\""));
    let written = put_reply(201, "201 Created", "{\"content\":{\"sha\":\"newsha\"}}", path).unwrap();
    assert_eq!(written, PutOutcome::Written);
    assert_eq!(after_put(0, written), PutNext::Done);
}

#[test]
fn put_day_file_sends_sha_when_updating() {
    let backup = GitHubBackup::new("tok", "alice/scribe-notes").unwrap();
    let path = "2026-06/2026-06-12.md";
    let sha = sha_reply(200, "200 OK", "{\"sha\":\"oldsha123\"}", path).unwrap();
    assert_eq!(sha.as_deref(), Some("oldsha123"));
    let put = backup.put_request(path, "updated\n", sha.as_deref());
    assert!(put.url.starts_with("https://api.github.com/repos/alice/scribe-notes/contents/"));
    assert!(put.body.contains("oldsha123"), "update PUT carries the sha");
}

#[test]
fn a_first_conflict_is_retried_and_a_second_gives_up() {
    assert_eq!(after_put(0, PutOutcome::Conflict), PutNext::Retry);
    assert_eq!(after_put(1, PutOutcome::Conflict), PutNext::GiveUp);
    assert_eq!(after_put(1, PutOutcome::Written), PutNext::Done);
}

#[test]
fn daily_files_go_under_their_month_folder() {
    assert_eq!(day_file_path("", "2026-06-12"), "2026-06/2026-06-12.md");
    assert_eq!(day_file_path("transcripts/", "2026-06-12"), "transcripts/2026-06/2026-06-12.md");
}

#[test]
fn repository_requests_name_the_repository() {
    let backup = GitHubBackup::new("tok", "alice/scribe-notes").unwrap();
    assert_eq!(backup.repo_request().url, "https://api.github.com/repos/alice/scribe-notes");
    assert_eq!(backup.login_request().url, "https://api.github.com/user");
    let create = backup.create_repo_request();
    assert_eq!(create.url, "https://api.github.com/user/repos");
    assert_eq!(create.body, "{\"auto_init\":true,\"name\":\"scribe-notes\",\"private\":true}");
    assert_eq!(header(&create, "Accept"), Some("application/vnd.github+json"));
}

#[test]
fn each_daily_file_is_written_to_its_dated_path() {
    let files = vec![
        DayFile { day: "2026-06-11".to_string(), content: "a\n".to_string(), entries: 1, positions: vec![0] },
        DayFile { day: "2026-06-12".to_string(), content: "b\n".to_string(), entries: 2, positions: vec![1, 2] },
    ];
    let writes = day_writes(&files, "transcripts/");
    assert_eq!(
        writes,
        vec![
            ("transcripts/2026-06/2026-06-11.md".to_string(), "a\n".to_string()),
            ("transcripts/2026-06/2026-06-12.md".to_string(), "b\n".to_string()),
        ]
    );
}

#[test]
fn put_body_base64_matches_the_base64_crate() {
    for content in ["", "h", "hi", "hi!", "hello world~", "# June 12, 2026\n\nhello \u{e9}\n"] {
        let expected = base64::engine::general_purpose::STANDARD.encode(content.as_bytes());
        let body = GitHubBackup::put_body("2026-06/2026-06-12.md", content, None);
        assert!(body.starts_with(&format!("{{\"content\":\"{expected}\"")), "{content:?}");
    }
}
