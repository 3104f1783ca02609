use ryu_clips::sidecar::{
    bearer_ok, clips_port, ct_eq, download_video, ensure_ytdlp, expected_token, health, parse_port,
    require_clips_token, tmp_dir, Access, BROKER_BACK_HINT, DEFAULT_PORT,
};

#[test]
fn bearer_ok_matches_only_exact_nonempty_token() {
    assert!(bearer_ok(Some("secret"), Some("secret")));
    assert!(!bearer_ok(Some("secret"), Some("other")));
    assert!(!bearer_ok(Some("secre"), Some("secret")));
    assert!(!bearer_ok(None, Some("secret")));
}

#[test]
fn bearer_ok_is_fail_closed_without_expected() {
    assert!(!bearer_ok(Some("secret"), None));
    assert!(!bearer_ok(Some(""), Some("")));
    assert!(!bearer_ok(None, None));
}

#[test]
fn ct_eq_compares_all_bytes() {
    assert!(ct_eq(b"", b""));
    assert!(ct_eq(b"abc", b"abc"));
    assert!(!ct_eq(b"abc", b"abd"));
    assert!(!ct_eq(b"xbc", b"abc"));
    assert!(!ct_eq(b"ab", b"abc"));
    assert!(!ct_eq(b"abc", b"ab"));
    assert!(!ct_eq(b"ab", b"ab\0"));
    assert!(!ct_eq(b"ab\0", b"ab"));
    assert!(!ct_eq(b"a", b""));
    assert!(!ct_eq(b"", b"a"));
}

#[test]
fn access_takes_the_bearer() {
    let expected = expected_token(Some("  secret \n"));
    assert_eq!(expected.as_deref(), Some("secret"));
    let expected = expected.as_deref();
    assert_eq!(require_clips_token(Some("Bearer secret"), expected), Access::Granted);
    assert_eq!(require_clips_token(Some("bearer secret"), expected), Access::Unauthorized);
    assert_eq!(require_clips_token(Some("Bearer  secret"), expected), Access::Unauthorized);
    assert_eq!(require_clips_token(Some("Bearer secret "), expected), Access::Unauthorized);
    assert_eq!(require_clips_token(Some("secret"), expected), Access::Unauthorized);
    assert_eq!(require_clips_token(None, expected), Access::Unauthorized);
}

#[test]
fn access_is_refused_without_a_token() {
    assert_eq!(expected_token(None), None);
    assert_eq!(expected_token(Some(" \t")), None);
    assert_eq!(require_clips_token(Some("Bearer "), None), Access::Unauthorized);
    assert_eq!(require_clips_token(Some("Bearer "), Some("")), Access::Unauthorized);
    assert_eq!(require_clips_token(None, None), Access::Unauthorized);
}

#[test]
fn the_port_is_the_configured_one_or_the_default() {
    assert_eq!(DEFAULT_PORT, 7992);
    assert_eq!(clips_port(None), 7992);
    assert_eq!(clips_port(Some(" 8080 ")), 8080);
    assert_eq!(clips_port(Some("")), 7992);
    assert_eq!(clips_port(Some("x")), 7992);
    assert_eq!(clips_port(Some("65536")), 7992);
    assert_eq!(clips_port(Some("-1")), 7992);
}

#[test]
fn ports_are_read_as_the_standard_library_reads_them() {
    let cases: Vec<&str> = vec![
        "0", "1", "65535", "65536", "70000", "99999999999999999999", "+80", "+", "-0", "", "8 0",
        "0080", "00000000080", "++1", "1+", "\u{661}", "1a",
    ];
    for case in cases {
        assert_eq!(parse_port(case), case.parse::<u16>().ok(), "on {case:?}");
    }
}

#[test]
fn health_is_static() {
    let (status, body) = health();
    assert_eq!(status, 200);
    assert_eq!(body, serde_json::from_str::<serde_json::Value>(r#"{ "ok": true }"#).unwrap());
}

#[test]
fn the_sidecar_downloads_nothing() {
    let reason = ensure_ytdlp().unwrap_err();
    assert_eq!(reason, format!("URL ingest {BROKER_BACK_HINT}"));
    assert_eq!(download_video().unwrap_err(), reason);
    assert!(reason.starts_with("URL ingest requires Core's kernel machinery"));
}

#[test]
fn work_goes_into_the_tmp_dir_of_the_data_dir() {
    assert_eq!(tmp_dir(&b"/data".to_vec()), b"/data/tmp".to_vec());
}
