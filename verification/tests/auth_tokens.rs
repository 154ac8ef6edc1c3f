use omnilauncher::hf_auth::{
    device_code_form, granted_outcome, poll_outcome_from_error, token_poll_form, whoami_name, AccessToken, PollOutcome,
    TokenSuccess, HF_OAUTH_CLIENT_ID,
};
use omnilauncher::json::JsonValue;
use std::time::{SystemTime, UNIX_EPOCH};

#[test]
fn token_success_parses_to_expiry() {
    let resp = TokenSuccess { access_token: "hf_test".into(), expires_in: 3600 };
    let tok = AccessToken::from_response(&resp);
    assert_eq!(tok.value, "hf_test");
    let now = SystemTime::now().duration_since(UNIX_EPOCH).unwrap().as_secs();
    assert!((tok.expires_at as i64 - now as i64 - 3600).abs() < 5);
    assert!(tok.seconds_until_expiry() > 3590);
    assert!(!tok.expires_within(300));
}

#[test]
fn expires_within_detects_soon_expiry() {
    let now = SystemTime::now().duration_since(UNIX_EPOCH).unwrap().as_secs();
    let tok = AccessToken { value: "x".into(), expires_at: now + 120 };
    assert!(tok.expires_within(300));
    assert!(!tok.expires_within(60));
}

#[test]
fn expired_token_saturates_to_zero() {
    let tok = AccessToken { value: "x".into(), expires_at: 1 };
    assert_eq!(tok.seconds_until_expiry(), 0);
    assert!(tok.expires_within(300));
}

#[test]
fn client_id_is_the_registered_one() {
    assert_eq!(HF_OAUTH_CLIENT_ID, "92992f79-e30e-4a1e-b20c-b904b3231622");
}

#[test]
fn token_lifetime_at_a_fixed_time() {
    let resp = TokenSuccess { access_token: "t".into(), expires_in: 3600 };
    let tok = AccessToken::from_response_at(&resp, 1_000);
    assert_eq!(tok.expires_at, 4_600);
    assert_eq!(tok.seconds_until_expiry_at(1_000), 3600);
    assert_eq!(tok.seconds_until_expiry_at(5_000), 0);
    assert!(tok.expires_within_at(100, 4_550));
    assert!(!tok.expires_within_at(10, 4_550));
    let huge = TokenSuccess { access_token: "t".into(), expires_in: u64::MAX };
    assert_eq!(AccessToken::from_response_at(&huge, 10).expires_at, u64::MAX);
}

#[test]
fn poll_errors_are_classified() {
    assert!(matches!(poll_outcome_from_error("authorization_pending"), PollOutcome::Pending));
    assert!(matches!(poll_outcome_from_error("slow_down"), PollOutcome::SlowDown));
    assert!(matches!(poll_outcome_from_error("expired_token"), PollOutcome::Expired));
    match poll_outcome_from_error("access_denied") {
        PollOutcome::Denied { message } => assert_eq!(message, "You declined the authorization request."),
        _ => panic!("expected a denial"),
    }
    match poll_outcome_from_error("declined_access") {
        PollOutcome::Denied { message } => {
            assert_eq!(message, "Your account is not permitted to authorize this app.")
        }
        _ => panic!("expected a denial"),
    }
    match poll_outcome_from_error("server_error") {
        PollOutcome::Denied { message } => assert_eq!(message, "Authorization failed: server_error"),
        _ => panic!("expected a denial"),
    }
}

#[test]
fn whoami_reads_the_name() {
    let v = JsonValue::Object(vec![
        ("name".to_string(), JsonValue::Str("alice".to_string())),
        ("fullname".to_string(), JsonValue::Str("Alice A.".to_string())),
    ]);
    assert_eq!(whoami_name(&v), Ok("alice".to_string()));
    let missing = JsonValue::Object(vec![("fullname".to_string(), JsonValue::Str("x".to_string()))]);
    assert_eq!(whoami_name(&missing), Err("whoami response missing 'name' field".to_string()));
}

#[test]
fn granted_outcome_falls_back_to_unknown_user() {
    let tok = AccessToken { value: "t".into(), expires_at: 99 };
    match granted_outcome(&tok, None) {
        PollOutcome::Granted { username, expires_at } => {
            assert_eq!(username, "(unknown)");
            assert_eq!(expires_at, 99);
        }
        _ => panic!("expected a grant"),
    }
    match granted_outcome(&tok, Some("bob".into())) {
        PollOutcome::Granted { username, .. } => assert_eq!(username, "bob"),
        _ => panic!("expected a grant"),
    }
}

#[test]
fn oauth_forms() {
    let d = device_code_form();
    assert_eq!(
        d,
        vec![
            ("client_id".to_string(), HF_OAUTH_CLIENT_ID.to_string()),
            ("scope".to_string(), "openid profile read-repos gated-repos".to_string()),
        ]
    );
    let t = token_poll_form("dev123");
    assert_eq!(t[0], ("grant_type".to_string(), "urn:ietf:params:oauth:grant-type:device_code".to_string()));
    assert_eq!(t[1], ("device_code".to_string(), "dev123".to_string()));
    assert_eq!(t[2].0, "client_id");
}
