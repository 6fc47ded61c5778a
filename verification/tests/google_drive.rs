use scribe::clock::Timestamp;
use scribe::daily_log::DayFile;
use scribe::http::SentLog;
use scribe::google_drive::{create_metadata, daily_writes, file_name_for, month_folder_name, read_reply, Drive};
use scribe::transcript::Transcript;

fn unreachable_drive() -> Drive {
    let mut drive = Drive::new("tok");
    // Nothing listens on port 1 of the loopback address.
    drive.api = "http://127.0.0.1:1".to_string();
    drive.upload = "http://127.0.0.1:1".to_string();
    drive
}

#[test]
fn create_metadata_orders_keys() {
    assert_eq!(
        create_metadata(None, "Scribe Voice Notes", Some("application/vnd.google-apps.folder")),
        "{\"mimeType\":\"application/vnd.google-apps.folder\",\"name\":\"Scribe Voice Notes\"}"
    );
    assert_eq!(
        create_metadata(Some("root1"), "2026-06-12.md", None),
        "{\"name\":\"2026-06-12.md\",\"parents\":[\"root1\"]}"
    );
}

#[test]
fn read_reply_refuses_errors_and_non_json() {
    let e = read_reply(404, "404 Not Found", "{\"error\":1}", "query Google Drive").unwrap_err();
    assert_eq!(e.code, "drive_sync_failed");
    assert_eq!(e.message, "Google Drive returned HTTP 404 Not Found trying to query Google Drive. {\"error\":1}");
    let e = read_reply(200, "200 OK", "not json", "upload Drive file content").unwrap_err();
    assert!(e.message.starts_with("Could not parse the Drive response. "));
    assert!(read_reply(200, "200 OK", "  ", "upload").is_ok());
    assert!(read_reply(201, "201 Created", "{\"id\":\"x\"}", "create").is_ok());
}

#[test]
fn unreachable_drive_fails_the_sync() {
    let mut t = Transcript::new_last_buffer("buy milk", Some(1000), None, None).unwrap();
    t.created_at = Timestamp { secs: 1_781_289_000, nanos: 0 };
    let e = unreachable_drive().sync_notes(&vec![t], &mut SentLog::new()).unwrap_err();
    assert_eq!(e.code, "drive_sync_failed");
    assert!(e.message.starts_with("Could not reach Google Drive. "));
}

#[test]
fn unreachable_drive_fails_an_upload() {
    let e = unreachable_drive().upload_text("file1", "x", &mut SentLog::new()).unwrap_err();
    assert!(e.message.starts_with("Could not upload to Google Drive. "));
}

fn header_value<'a>(headers: &'a [(String, String)], name: &str) -> Option<&'a str> {
    headers.iter().find(|(k, _)| k == name).map(|(_, v)| v.as_str())
}

#[test]
fn daily_files_are_named_by_day_under_a_month_folder() {
    assert_eq!(month_folder_name("2026-06-12"), "2026-06");
    assert_eq!(file_name_for("2026-06-12", ".md"), "2026-06-12.md");
    assert_eq!(file_name_for("2026-06-12", "-organized.md"), "2026-06-12-organized.md");
}

#[test]
fn upload_replaces_the_file_content_as_markdown() {
    let drive = Drive::new("tok");
    let req = drive.upload_request("daily1", "# June 12, 2026\n");
    assert_eq!(
        req.url,
        "https://www.googleapis.com/upload/drive/v3/files/daily1?uploadType=media"
    );
    assert_eq!(req.body, "# June 12, 2026\n");
    assert_eq!(header_value(&req.headers, "Authorization"), Some("Bearer tok"));
    assert_eq!(header_value(&req.headers, "Content-Type"), Some("text/markdown; charset=utf-8"));
}

#[test]
fn create_and_find_requests_name_the_folder() {
    let drive = Drive::new("tok");
    let create = drive.create_request(Some("root1"), "2026-06", Some("application/vnd.google-apps.folder"));
    assert_eq!(create.url, "https://www.googleapis.com/drive/v3/files?fields=id");
    assert_eq!(
        create.body,
        create_metadata(Some("root1"), "2026-06", Some("application/vnd.google-apps.folder"))
    );
    assert_eq!(header_value(&create.headers, "Content-Type"), Some("application/json"));

    let find = drive.find_request(None, "Scribe Voice Notes", None);
    assert!(find.url.starts_with("https://www.googleapis.com/drive/v3/files?q="));
    assert!(find.url.contains("Scribe%20Voice%20Notes"));
    assert!(find.body.is_empty());
}

#[test]
fn each_daily_file_goes_to_its_day_name() {
    let files = vec![DayFile { day: "2026-06-12".to_string(), content: "x\n".to_string(), entries: 1, positions: vec![0] }];
    assert_eq!(
        daily_writes(&files),
        vec![("2026-06-12".to_string(), "2026-06-12.md".to_string(), "x\n".to_string())]
    );
}
