use ryu_clips::api::{BytesEvent, BytesReply};
use ryu_clips::filing::{build_clip_summary_md, file_clip_into_space, FilingStep};
use ryu_clips::shadow::{Method, ShadowEnv};
use ryu_clips::{CLIPS_SPACE_DESC, CLIPS_SPACE_NAME};
use serde_json::Value;

fn json(text: &str) -> Value {
    serde_json::from_str(text).unwrap()
}

fn env() -> ShadowEnv {
    ShadowEnv { url: None, token: Some("t".to_string()) }
}

/// Files `bundle` with a Shadow that answers with `status` and `bytes`, or not
/// at all. Returns what is stored.
fn file(bundle: &Value, answer: Option<(u16, Vec<u8>)>) -> Option<(String, Option<Vec<u8>>, String)> {
    let mut event: BytesEvent<()> = BytesEvent::Request(());
    loop {
        event = BytesEvent::Shadow(match file_clip_into_space(&env(), bundle, event) {
            FilingStep::Skip => return None,
            FilingStep::Send(_) => match &answer {
                Some((status, _)) => BytesReply::Head { status: *status },
                None => BytesReply::Failed,
            },
            FilingStep::ReadBytes => {
                let (status, bytes) = answer.clone().unwrap();
                BytesReply::Bytes { status, content_type: None, bytes }
            }
            FilingStep::Store { title, mp4, summary } => return Some((title, mp4, summary)),
        });
    }
}

#[test]
fn summary_renders_duration_mmss() {
    let md = build_clip_summary_md("My Clip", 125_000, &json("{}"));
    assert!(md.contains("# My Clip"), "title missing: {md}");
    assert!(md.contains("- Duration: 02:05"), "duration wrong: {md}");
    assert_eq!(md, "# My Clip\n\n- Duration: 02:05\n");
}

#[test]
fn summary_shows_long_durations_in_full() {
    let md = build_clip_summary_md("C", 7_325_999, &json("{}"));
    assert_eq!(md, "# C\n\n- Duration: 122:05\n");
}

#[test]
fn summary_includes_coverage_warning() {
    let md = build_clip_summary_md("C", 0, &json(r#"{ "scanWarning": "partial" }"#));
    assert!(md.contains("- Coverage: partial"), "coverage missing: {md}");
    assert_eq!(md, "# C\n\n- Duration: 00:00\n- Coverage: partial\n");
}

#[test]
fn summary_includes_highlights() {
    let bundle = json(
        r#"{
            "recommendedMoments": [
                { "atMs": 3000, "reason": "intro" },
                { "atMs": 42000, "reason": "key point" }
            ]
        }"#,
    );
    let md = build_clip_summary_md("C", 60_000, &bundle);
    assert!(md.contains("## Highlights"), "highlights header missing: {md}");
    assert!(md.contains("- 03s: intro"), "first moment missing: {md}");
    assert!(md.contains("- 42s: key point"), "second moment missing: {md}");
    assert_eq!(
        md,
        "# C\n\n- Duration: 01:00\n\n## Highlights\n- 03s: intro\n- 42s: key point\n"
    );
}

#[test]
fn summary_omits_empty_highlights() {
    let md = build_clip_summary_md("C", 0, &json(r#"{ "recommendedMoments": [] }"#));
    assert!(!md.contains("## Highlights"), "should omit empty highlights: {md}");
}

#[test]
fn summary_fills_in_what_a_moment_lacks() {
    let bundle = json(r#"{ "recommendedMoments": [{}, { "atMs": -5, "reason": 1 }, { "atMs": 123456 }] }"#);
    let md = build_clip_summary_md("C", 0, &bundle);
    assert_eq!(
        md,
        "# C\n\n- Duration: 00:00\n\n## Highlights\n- 00s: \n- 00s: \n- 123s: \n"
    );
}

#[test]
fn file_clip_into_space_noops_without_id() {
    assert!(file(&json(r#"{ "title": "x" }"#), Some((200, vec![1]))).is_none());
    assert!(file(&json(r#"{ "id": 7 }"#), Some((200, vec![1]))).is_none());
}

#[test]
fn file_clip_into_space_stores_mp4_and_summary() {
    let bundle = json(
        r#"{
            "id": "cid",
            "title": "Demo",
            "durationMs": 65000,
            "recommendedMoments": [{ "atMs": 3000, "reason": "intro" }]
        }"#,
    );
    let (title, mp4, summary) = file(&bundle, Some((200, vec![1, 2, 3, 4]))).unwrap();
    assert_eq!(title, "Demo");
    assert_eq!(mp4, Some(vec![1, 2, 3, 4]));
    assert!(summary.contains("# Demo"));
    assert!(summary.contains("01:05"));
    assert!(summary.contains("intro"));
}

#[test]
fn file_clip_into_space_asks_shadow_for_the_video() {
    let bundle = json(r#"{ "id": "cid" }"#);
    match file_clip_into_space(&env(), &bundle, BytesEvent::Request(())) {
        FilingStep::Send(request) => {
            assert_eq!(request.method, Method::Get);
            assert_eq!(request.url, "http://127.0.0.1:3030/clips/cid/file");
            assert_eq!(request.authorization.as_deref(), Some("Bearer t"));
            assert_eq!(request.timeout_secs, 15);
        }
        _ => panic!("expected a request"),
    }
}

#[test]
fn file_clip_into_space_stores_without_mp4_when_file_unreachable() {
    let (_, mp4, _) = file(&json(r#"{ "id": "cid", "title": "T" }"#), None).unwrap();
    assert!(mp4.is_none(), "no mp4 when Shadow /file is unreachable");
}

#[test]
fn file_clip_into_space_stores_without_mp4_when_the_body_breaks_off() {
    let bundle = json(r#"{ "id": "cid", "title": "T" }"#);
    let event = BytesEvent::Shadow(BytesReply::Broken { status: 200 });
    match file_clip_into_space(&env(), &bundle, event) {
        FilingStep::Store { mp4, .. } => assert!(mp4.is_none()),
        _ => panic!("expected a clip to store"),
    }
}

#[test]
fn file_clip_into_space_falls_back_title_when_blank() {
    let bundle = json(r#"{ "id": "cid", "title": "   " }"#);
    let (title, mp4, _) = file(&bundle, Some((404, vec![]))).unwrap();
    assert_eq!(title, "Clip");
    assert!(mp4.is_none(), "404 => no mp4 filed");
}

#[test]
fn file_clip_into_space_keeps_the_title_as_it_is() {
    let bundle = json(r#"{ "id": "cid", "title": " T " }"#);
    let (title, _, summary) = file(&bundle, None).unwrap();
    assert_eq!(title, " T ");
    assert_eq!(summary, "#  T \n\n- Duration: 00:00\n");
}

#[test]
fn clips_have_a_space() {
    assert_eq!(CLIPS_SPACE_NAME, "Clips");
    assert_eq!(CLIPS_SPACE_DESC, "Screen recordings and clips captured by Ryu");
}
