use ryu_clips::shadow::{
    checked_status, error_body, shadow_auth, shadow_base, shadow_token, status_is_success,
    status_text, unavailable, ShadowEnv,
};
use serde_json::Value;

fn json(text: &str) -> Value {
    serde_json::from_str(text).unwrap()
}

fn env(url: Option<&str>, token: Option<&str>) -> ShadowEnv {
    ShadowEnv { url: url.map(str::to_string), token: token.map(str::to_string) }
}

#[test]
fn unavailable_body_shape() {
    assert_eq!(
        unavailable("boom".to_string()),
        json(r#"{ "available": false, "reason": "boom" }"#)
    );
}

#[test]
fn error_body_shape() {
    assert_eq!(error_body("no".to_string()), json(r#"{ "error": "no" }"#));
}

#[test]
fn shadow_base_defaults_and_honors_env() {
    assert_eq!(shadow_base(&env(None, None)), "http://127.0.0.1:3030");
    assert_eq!(
        shadow_base(&env(Some("http://127.0.0.1:9999"), None)),
        "http://127.0.0.1:9999"
    );
}

#[test]
fn shadow_token_trims_and_treats_empty_as_none() {
    assert_eq!(shadow_token(&env(None, None)), None);
    assert_eq!(shadow_token(&env(None, Some("   "))), None);
    assert_eq!(shadow_token(&env(None, Some("  tok  "))).as_deref(), Some("tok"));
}

#[test]
fn shadow_auth_adds_bearer_only_when_token_present() {
    assert_eq!(shadow_auth(&env(None, None)), None);
    assert_eq!(
        shadow_auth(&env(None, Some("sekret"))).as_deref(),
        Some("Bearer sekret")
    );
}

#[test]
fn statuses_show_their_number_and_words() {
    assert_eq!(status_text(200), "200 OK");
    assert_eq!(status_text(503), "503 Service Unavailable");
    assert_eq!(status_text(100), "100 Continue");
    assert!(status_text(799).starts_with("799 "));
    assert!(status_text(999).starts_with("999 "));
    assert_eq!(status_text(99), "99");
    assert_eq!(status_text(1000), "1000");
}

#[test]
fn statuses_have_three_digits() {
    assert_eq!(checked_status(100, 502), 100);
    assert_eq!(checked_status(999, 502), 999);
    assert_eq!(checked_status(99, 502), 502);
    assert_eq!(checked_status(1000, 200), 200);
}

#[test]
fn statuses_from_200_to_299_are_successes() {
    assert!(!status_is_success(199));
    assert!(status_is_success(200));
    assert!(status_is_success(299));
    assert!(!status_is_success(300));
}
