use scribe::github_oauth::{
    access_token, credential_from_response, decode_legacy, device_code_from_reply,
    device_code_request_body, ensure_attempt_active, form_encode, is_configured, poll_request_body,
    poll_step, refresh_outcome, refresh_request_body, request_device_code, validate_client_id,
    validate_decoded, AccessPlan, DeviceFlowRegistry, PollStep, StoredCredential,
    CREDENTIAL_VERSION,
};
use scribe::github_oauth::{
    device_code_request, first_poll_interval, poll_gate, poll_once, poll_request, refresh_request,
    POLL_TIMEOUT_SECS,
};

#[test]
fn device_flow_registry_cancels_and_reaps_an_attempt() {
    let mut registry = DeviceFlowRegistry::default();
    let flag = registry.start("device-1");
    assert!(!registry.is_cancelled(flag));

    assert!(registry.cancel("device-1"));
    assert!(registry.is_cancelled(flag));
    assert!(registry.get("device-1").is_none());
    assert!(!registry.cancel("device-1"));
}

#[test]
fn restarting_an_attempt_hands_out_a_fresh_flag() {
    let mut registry = DeviceFlowRegistry::new();
    let first = registry.start("device-1");
    let other = registry.start("device-2");
    let second = registry.start("device-1");
    assert_ne!(first, second);
    assert_eq!(registry.get("device-1"), Some(second));
    registry.finish("device-1");
    assert!(registry.get("device-1").is_none());
    assert!(!registry.is_cancelled(second));
    assert_eq!(registry.get("device-2"), Some(other));
}

#[test]
fn cancelled_attempt_is_refused() {
    assert_eq!(ensure_attempt_active(true).unwrap_err().code, "github_auth_cancelled");
    assert!(ensure_attempt_active(false).is_ok());
}

#[test]
fn form_encode_escapes_reserved_chars() {
    assert_eq!(form_encode("a/b=c&d"), "a%2Fb%3Dc%26d");
    assert_eq!(form_encode("Aa0-_.~"), "Aa0-_.~");
}

#[test]
fn form_encode_escapes_multibyte_chars_bytewise() {
    assert_eq!(form_encode("é €"), "%C3%A9%20%E2%82%AC");
}

#[test]
fn only_github_app_client_ids_are_accepted() {
    assert_eq!(validate_client_id(Some("Iv123abcXYZ")), Some("Iv123abcXYZ"));
    assert_eq!(validate_client_id(Some("Ov123abcXYZ")), None);
    assert_eq!(validate_client_id(Some("Iv")), None);
    assert_eq!(validate_client_id(Some("Iv123 abc")), None);
    assert_eq!(validate_client_id(None), None);
    assert!(is_configured(Some("Iv1")));
    assert!(!is_configured(None));
}

#[test]
fn device_request_omits_classic_oauth_scope() {
    let body = device_code_request_body("Iv123");
    assert_eq!(body, "client_id=Iv123");
    assert!(!body.contains("scope"));
    assert!(!body.contains("repo"));
}

#[test]
fn poll_and_refresh_bodies_are_form_encoded() {
    assert_eq!(
        poll_request_body("Iv123", "dev/1"),
        "client_id=Iv123&device_code=dev%2F1&grant_type=urn:ietf:params:oauth:grant-type:device_code"
    );
    let refresh = refresh_request_body("Iv123", "ghr_old/value");
    assert!(refresh.contains("client_id=Iv123"));
    assert!(refresh.contains("grant_type=refresh_token"));
    assert!(refresh.contains("refresh_token=ghr_old%2Fvalue"));
    assert!(!refresh.contains("client_secret"));
}

#[test]
fn parses_expiring_and_non_expiring_credentials() {
    let expiring = credential_from_response(
        r#"{"access_token":"ghu_access","expires_in":28800,"refresh_token":"ghr_refresh","refresh_token_expires_in":15897600,"token_type":"bearer","scope":""}"#,
        1_000,
    )
    .unwrap();
    assert_eq!(expiring.access_token, "ghu_access");
    assert_eq!(expiring.refresh_token.as_deref(), Some("ghr_refresh"));
    assert_eq!(expiring.expires_at, Some(29_800));
    assert_eq!(expiring.refresh_token_expires_at, Some(15_898_600));

    let permanent =
        credential_from_response(r#"{"access_token":"ghu_access","token_type":"bearer"}"#, 1_000)
            .unwrap();
    assert_eq!(permanent.expires_at, None);
    assert_eq!(permanent.refresh_token, None);
}

#[test]
fn rejects_expiring_access_token_without_refresh_token() {
    let error =
        credential_from_response(r#"{"access_token":"ghu_access","expires_in":28800}"#, 1_000)
            .unwrap_err();
    assert_eq!(error.code, "github_auth_failed");
}

#[test]
fn expiry_saturates_instead_of_overflowing() {
    let c = credential_from_response(
        r#"{"access_token":"a","refresh_token":"r","expires_in":10}"#,
        u64::MAX - 3,
    )
    .unwrap();
    assert_eq!(c.expires_at, Some(u64::MAX));
}

#[test]
fn device_code_response_parses() {
    let code = device_code_from_reply(
        200,
        "200 OK",
        r#"{"device_code":"dev123","user_code":"ABCD-1234","verification_uri":"https://github.com/login/device","expires_in":900,"interval":5}"#,
    )
    .unwrap();
    assert_eq!(code.device_code, "dev123");
    assert_eq!(code.user_code, "ABCD-1234");
    assert_eq!(code.verification_uri, "https://github.com/login/device");
    assert_eq!(code.expires_in, 900);
    assert_eq!(code.interval, 5);

    let defaults = device_code_from_reply(
        200,
        "200 OK",
        r#"{"device_code":"d","user_code":"u","verification_uri":"v"}"#,
    )
    .unwrap();
    assert_eq!((defaults.expires_in, defaults.interval), (900, 5));

    let missing = device_code_from_reply(200, "200 OK", r#"{"device_code":"d"}"#).unwrap_err();
    assert_eq!(missing.message, "GitHub's response had no `user_code`.");
    let rejected = device_code_from_reply(404, "404 Not Found", "nope").unwrap_err();
    assert_eq!(rejected.message, "GitHub rejected the device-code request (HTTP 404 Not Found). nope");
}

#[test]
fn poll_treats_authorization_pending_then_access_token() {
    assert!(matches!(poll_step(r#"{"error":"authorization_pending"}"#, 5, 0, false), PollStep::Wait(5)));
    assert!(matches!(poll_step(r#"{"error":"slow_down"}"#, 5, 0, false), PollStep::Wait(10)));
    match poll_step(r#"{"access_token":"ghs_secret","token_type":"bearer"}"#, 5, 0, false) {
        PollStep::Done(Ok(c)) => assert_eq!(c.access_token, "ghs_secret"),
        _ => panic!("expected a credential"),
    }
}

#[test]
fn poll_failures_are_specific() {
    let message = |text: &str| match poll_step(text, 5, 0, false) {
        PollStep::Done(Err(e)) => e.message,
        _ => panic!("expected a failure"),
    };
    assert_eq!(message(r#"{"error":"access_denied"}"#), "GitHub sign-in was denied.");
    assert!(message(r#"{"error":"expired_token"}"#).contains("expired"));
    assert_eq!(
        message(r#"{"error":"weird","error_description":"Odd."}"#),
        "GitHub sign-in failed: Odd."
    );
    assert_eq!(message(r#"{"error":"weird"}"#), "GitHub sign-in failed: weird");
    assert_eq!(message(r#"{}"#), "GitHub returned an unexpected response. {}");
    match poll_step(r#"{"access_token":"t"}"#, 5, 0, true) {
        PollStep::Done(Err(e)) => assert_eq!(e.code, "github_auth_cancelled"),
        _ => panic!("a cancelled attempt must not yield a token"),
    }
}

#[test]
fn legacy_raw_token_remains_readable() {
    let credential = decode_legacy("gho_existing_oauth_token").unwrap();
    assert_eq!(credential.access_token, "gho_existing_oauth_token");
    assert_eq!(credential.refresh_token, None);
    assert_eq!(credential.expires_at, None);
    assert!(decode_legacy("  {\"version\":1}").is_none());
}

#[test]
fn decoded_credentials_need_version_and_token() {
    let good = StoredCredential {
        version: CREDENTIAL_VERSION,
        access_token: "ghu_new".to_string(),
        refresh_token: Some("ghr_new".to_string()),
        expires_at: Some(10_000),
        refresh_token_expires_at: Some(20_000),
    };
    assert!(validate_decoded(good.clone()).is_ok());
    let mut wrong_version = good.clone();
    wrong_version.version = 2;
    assert_eq!(validate_decoded(wrong_version).unwrap_err().code, "github_auth_failed");
    let mut empty = good;
    empty.access_token = String::new();
    assert!(validate_decoded(empty).is_err());
}

#[test]
fn refresh_window_is_applied_without_underflow() {
    let mut credential = StoredCredential::legacy("ghu_access".to_string());
    assert!(!credential.needs_refresh(100));
    credential.expires_at = Some(1_000);
    assert!(!credential.needs_refresh(699));
    assert!(credential.needs_refresh(700));
    assert!(credential.needs_refresh(u64::MAX));
}

#[test]
fn access_plan_follows_token_lifetimes() {
    let mut credential = StoredCredential::legacy("ghu_access".to_string());
    assert!(matches!(access_token(&credential, 5), AccessPlan::Use(ref t) if t == "ghu_access"));
    credential.expires_at = Some(100);
    assert!(matches!(access_token(&credential, 5), AccessPlan::Unauthorized(false)));
    credential.refresh_token = Some("ghr".to_string());
    assert!(matches!(access_token(&credential, 5), AccessPlan::Refresh(ref t) if t == "ghr"));
    credential.refresh_token_expires_at = Some(5);
    assert!(matches!(access_token(&credential, 5), AccessPlan::Unauthorized(true)));
}

#[test]
fn bad_refresh_token_requires_reauthorization() {
    let error = refresh_outcome(
        200,
        "200 OK",
        r#"{"error":"bad_refresh_token","error_description":"The refresh token is invalid."}"#,
        5_000,
    )
    .unwrap_err();
    assert_eq!(error.code, "github_unauthorized");
}

#[test]
fn refresh_rotates_both_tokens() {
    let credential = refresh_outcome(
        200,
        "200 OK",
        r#"{"access_token":"ghu_rotated","expires_in":28800,"refresh_token":"ghr_rotated","refresh_token_expires_in":15897600,"token_type":"bearer"}"#,
        5_000,
    )
    .unwrap();
    assert_eq!(credential.access_token, "ghu_rotated");
    assert_eq!(credential.refresh_token.as_deref(), Some("ghr_rotated"));
    let failed = refresh_outcome(400, "400 Bad Request", r#"{"error":"other"}"#, 0).unwrap_err();
    assert_eq!(failed.message, "GitHub could not refresh the connection (HTTP 400 Bad Request): other");
}

#[test]
fn unconfigured_build_reports_clearly() {
    let error = request_device_code(None).unwrap_err();
    assert_eq!(error.code, "github_not_configured");
    assert_eq!(request_device_code(Some("Ov123")).unwrap_err().code, "github_not_configured");
}

#[test]
fn cancelled_poll_stops_before_contacting_github() {
    match poll_once("unused", "unused", 1, 0, true) {
        PollStep::Done(Err(error)) => assert_eq!(error.code, "github_auth_cancelled"),
        other => panic!("expected a cancelled stop, got {other:?}"),
    }
}

#[test]
fn poll_gate_stops_on_cancel_and_after_the_deadline() {
    assert_eq!(poll_gate(true, 0).unwrap_err().code, "github_auth_cancelled");
    let late = poll_gate(false, POLL_TIMEOUT_SECS).unwrap_err();
    assert_eq!(late.code, "github_auth_failed");
    assert_eq!(late.message, "Timed out waiting for GitHub authorization. Please try again.");
    assert!(poll_gate(false, POLL_TIMEOUT_SECS - 1).is_ok());
}

#[test]
fn first_poll_interval_is_at_least_a_second() {
    assert_eq!(first_poll_interval(0), 1);
    assert_eq!(first_poll_interval(5), 5);
    assert_eq!(first_poll_interval(u64::MAX), u64::MAX - 5);
}

#[test]
fn device_flow_requests_go_to_github_as_forms() {
    let code = device_code_request("Iv123");
    assert_eq!(code.url, "https://github.com/login/device/code");
    assert_eq!(code.body, "client_id=Iv123");
    assert!(code
        .headers
        .iter()
        .any(|(k, v)| k == "Accept" && v == "application/json"));

    let poll = poll_request("Iv123", "dev 1");
    assert_eq!(poll.url, "https://github.com/login/oauth/access_token");
    assert_eq!(
        poll.body,
        "client_id=Iv123&device_code=dev%201&grant_type=urn:ietf:params:oauth:grant-type:device_code"
    );

    let refresh = refresh_request("https://example.test/token", "Iv123", "r/1");
    assert_eq!(refresh.url, "https://example.test/token");
    assert_eq!(refresh.body, "client_id=Iv123&grant_type=refresh_token&refresh_token=r%2F1");
}
