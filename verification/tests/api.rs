use ryu_clips::api::{
    clip_id_is_safe, get_context, get_file, get_frame, get_sources, list_clips, pause_clip,
    post_diagnostics, recent_activity, resume_clip, rewrite_frames_endpoint, start_clip, stop_clip,
    BytesAnswer, BytesEvent, BytesReply, BytesStep, Event, FrameQuery, JsonAnswer,
    RecentActivityQuery, Step,
};
use ryu_clips::shadow::{Method, ShadowEnv, ShadowReply, ShadowRequest};
use serde_json::Value;

fn json(text: &str) -> Value {
    serde_json::from_str(text).unwrap()
}

fn env() -> ShadowEnv {
    ShadowEnv { url: Some("http://127.0.0.1:9999".to_string()), token: None }
}

/// A Shadow that answers every request alike.
enum Mock {
    Json(u16, &'static str),
    Text(u16, &'static str),
    Dead,
}

impl Mock {
    fn status(&self) -> u16 {
        match self {
            Mock::Json(status, _) => *status,
            Mock::Text(status, _) => *status,
            Mock::Dead => unreachable!(),
        }
    }

    fn head(&self) -> ShadowReply {
        match self {
            Mock::Dead => ShadowReply::Failed("connection refused".to_string()),
            _ => ShadowReply::Head(self.status()),
        }
    }

    fn body(&self) -> ShadowReply {
        let text: &str = match self {
            Mock::Json(_, text) => text,
            Mock::Text(_, text) => text,
            Mock::Dead => unreachable!(),
        };
        match serde_json::from_str::<Value>(text) {
            Ok(body) => ShadowReply::Json(self.status(), body),
            Err(e) => ShadowReply::Malformed(self.status(), e.to_string()),
        }
    }
}

/// Drives a handler against `mock`. Returns what was sent, and the answer.
fn drive<T>(
    mock: Mock,
    request: T,
    handler: impl Fn(Event<T>) -> Step,
) -> (Vec<ShadowRequest>, JsonAnswer) {
    let mut sent: Vec<ShadowRequest> = Vec::new();
    let mut event: Event<T> = Event::Request(request);
    loop {
        match handler(event) {
            Step::Send(request) => {
                sent.push(request);
                event = Event::Shadow(mock.head());
            }
            Step::ReadJson => event = Event::Shadow(mock.body()),
            Step::Done(answer) => return (sent, answer),
        }
    }
}

fn reason(answer: &JsonAnswer) -> String {
    assert_eq!(answer.body["available"], Value::Bool(false));
    answer.body["reason"].as_str().unwrap().to_string()
}

/// A Shadow that serves content alike for every request.
enum BytesMock {
    Bytes(u16, Option<&'static str>, Vec<u8>),
    Broken(u16),
    Dead,
}

fn drive_bytes<T>(
    mock: BytesMock,
    request: T,
    handler: impl Fn(BytesEvent<T>) -> BytesStep,
) -> (Vec<ShadowRequest>, BytesAnswer) {
    let mut sent: Vec<ShadowRequest> = Vec::new();
    let mut event: BytesEvent<T> = BytesEvent::Request(request);
    loop {
        match handler(event) {
            BytesStep::Send(request) => {
                sent.push(request);
                event = BytesEvent::Shadow(match &mock {
                    BytesMock::Bytes(status, _, _) => BytesReply::Head { status: *status },
                    BytesMock::Broken(status) => BytesReply::Head { status: *status },
                    BytesMock::Dead => BytesReply::Failed,
                });
            }
            BytesStep::ReadBytes => {
                event = BytesEvent::Shadow(match &mock {
                    BytesMock::Bytes(status, content_type, bytes) => BytesReply::Bytes {
                        status: *status,
                        content_type: content_type.map(str::to_string),
                        bytes: bytes.clone(),
                    },
                    BytesMock::Broken(status) => BytesReply::Broken { status: *status },
                    BytesMock::Dead => unreachable!(),
                });
            }
            BytesStep::Done(answer) => return (sent, answer),
        }
    }
}

fn status_of(answer: &BytesAnswer) -> u16 {
    match answer {
        BytesAnswer::Status(status) => *status,
        BytesAnswer::Content { .. } => 200,
    }
}

#[test]
fn clip_id_is_safe_rejects_traversal_and_separators() {
    assert!(clip_id_is_safe("abc123"));
    assert!(clip_id_is_safe("clip-2026-07-16_09-30"));
    assert!(!clip_id_is_safe(""));
    assert!(!clip_id_is_safe("a/b"));
    assert!(!clip_id_is_safe("../secret"));
    assert!(!clip_id_is_safe("id/../../admin"));
    assert!(!clip_id_is_safe(".."));
    assert!(!clip_id_is_safe("a..b"));
}

#[test]
fn clip_id_is_safe_accepts_single_dots_and_other_scripts() {
    assert!(clip_id_is_safe("a.b.c"));
    assert!(clip_id_is_safe("\u{e9}t\u{e9}"));
    assert!(!clip_id_is_safe("\u{e9}t\u{e9}.."));
    assert!(!clip_id_is_safe("/"));
}

#[test]
fn rewrite_frames_endpoint_points_at_core() {
    let mut body = json(r#"{ "id": "abc", "framesEndpoint": "/clips/abc/frame" }"#);
    rewrite_frames_endpoint(&mut body, "abc");
    assert_eq!(body["framesEndpoint"], "/api/clips/abc/frame");
}

#[test]
fn rewrite_frames_endpoint_inserts_when_absent() {
    let mut body = json(r#"{ "id": "xy" }"#);
    rewrite_frames_endpoint(&mut body, "xy");
    assert_eq!(body["framesEndpoint"], "/api/clips/xy/frame");
}

#[test]
fn rewrite_frames_endpoint_noop_on_non_object() {
    let mut body = json(r#""not an object""#);
    rewrite_frames_endpoint(&mut body, "z");
    assert_eq!(body, "not an object");
}

#[test]
fn rewrite_frames_endpoint_twice_changes_nothing_more() {
    let mut once = json(r#"{ "id": "abc", "durationMs": 7, "tags": ["a"] }"#);
    rewrite_frames_endpoint(&mut once, "abc");
    let mut twice = once.clone();
    rewrite_frames_endpoint(&mut twice, "abc");
    assert_eq!(once, twice);
    assert_eq!(
        once,
        json(r#"{ "id": "abc", "durationMs": 7, "tags": ["a"], "framesEndpoint": "/api/clips/abc/frame" }"#)
    );
}

#[test]
fn list_clips_returns_shadow_body_on_success() {
    let (sent, answer) = drive(Mock::Json(200, r#"{ "clips": ["a"] }"#), (), |e| {
        list_clips(&env(), e)
    });
    assert_eq!(answer.status, 200);
    assert_eq!(answer.body, json(r#"{ "clips": ["a"] }"#));
    assert!(!answer.file_clip);
    assert_eq!(sent.len(), 1);
    assert_eq!(sent[0].method, Method::Get);
    assert_eq!(sent[0].url, "http://127.0.0.1:9999/clips");
    assert_eq!(sent[0].query, None);
    assert_eq!(sent[0].body, None);
    assert_eq!(sent[0].authorization, None);
    assert_eq!(sent[0].timeout_secs, 15);
}

#[test]
fn list_clips_failsoft_on_non_2xx() {
    let (_, answer) = drive(Mock::Json(500, "{}"), (), |e| list_clips(&env(), e));
    assert_eq!(answer.status, 200);
    assert!(reason(&answer).contains("HTTP 500"));
}

#[test]
fn list_clips_failsoft_on_invalid_json() {
    let (_, answer) = drive(Mock::Text(200, "not json"), (), |e| list_clips(&env(), e));
    assert_eq!(answer.status, 200);
    assert!(reason(&answer).contains("invalid response"));
}

#[test]
fn list_clips_failsoft_when_shadow_unreachable() {
    let (_, answer) = drive(Mock::Dead, (), |e| list_clips(&env(), e));
    assert_eq!(answer.status, 200);
    assert!(reason(&answer).contains("not reachable"));
}

#[test]
fn list_clips_names_the_status_and_its_words() {
    let (_, answer) = drive(Mock::Json(404, "{}"), (), |e| list_clips(&env(), e));
    assert_eq!(reason(&answer), "Shadow returned HTTP 404 Not Found");
}

#[test]
fn every_request_carries_the_token() {
    let with_token = ShadowEnv { url: None, token: Some(" sekret ".to_string()) };
    let (sent, _) = drive(Mock::Dead, (), |e| list_clips(&with_token, e));
    assert_eq!(sent[0].authorization.as_deref(), Some("Bearer sekret"));
    assert_eq!(sent[0].url, "http://127.0.0.1:3030/clips");
    let (sent, _) = drive(Mock::Dead, (), |e| stop_clip(&with_token, "c", e));
    assert_eq!(sent[0].authorization.as_deref(), Some("Bearer sekret"));
}

#[test]
fn start_clip_passes_through_shadow_status_and_body() {
    let (sent, answer) = drive(
        Mock::Json(201, r#"{ "id": "s1", "state": "recording" }"#),
        json(r#"{ "source": "d" }"#),
        |e| start_clip(&env(), e),
    );
    assert_eq!(answer.status, 201);
    assert_eq!(answer.body["id"], "s1");
    assert!(!answer.file_clip);
    assert_eq!(sent[0].method, Method::Post);
    assert_eq!(sent[0].url, "http://127.0.0.1:9999/clips/start");
    assert_eq!(sent[0].body, Some(json(r#"{ "source": "d" }"#)));
}

#[test]
fn start_clip_bad_gateway_on_invalid_json() {
    let (_, answer) = drive(Mock::Text(200, "nope"), json("{}"), |e| start_clip(&env(), e));
    assert_eq!(answer.status, 502);
    assert_eq!(answer.body["available"], false);
}

#[test]
fn start_clip_bad_gateway_when_unreachable() {
    let (_, answer) = drive(Mock::Dead, json("{}"), |e| start_clip(&env(), e));
    assert_eq!(answer.status, 502);
    assert!(reason(&answer).contains("not reachable"));
}

#[test]
fn start_clip_passes_an_error_of_shadow_through() {
    let (_, answer) = drive(Mock::Json(409, r#"{ "error": "busy" }"#), json("{}"), |e| {
        start_clip(&env(), e)
    });
    assert_eq!(answer.status, 409);
    assert_eq!(answer.body, json(r#"{ "error": "busy" }"#));
}

#[test]
fn start_clip_answers_200_for_a_status_out_of_range() {
    match start_clip(&env(), Event::Shadow(ShadowReply::Json(1000, json("{}")))) {
        Step::Done(answer) => assert_eq!(answer.status, 200),
        _ => panic!("expected an answer"),
    }
    match start_clip(&env(), Event::Shadow(ShadowReply::Json(99, json("{}")))) {
        Step::Done(answer) => assert_eq!(answer.status, 200),
        _ => panic!("expected an answer"),
    }
}

#[test]
fn stop_clip_rejects_unsafe_id() {
    let (sent, answer) = drive(Mock::Dead, (), |e| stop_clip(&env(), "../x", e));
    assert!(sent.is_empty());
    assert_eq!(answer.status, 400);
    assert_eq!(answer.body["error"], "invalid clip id");
}

#[test]
fn stop_clip_rewrites_frames_endpoint_on_success() {
    let (sent, answer) = drive(
        Mock::Json(200, r#"{ "id": "cid", "durationMs": 5000 }"#),
        (),
        |e| stop_clip(&env(), "cid", e),
    );
    assert_eq!(answer.status, 200);
    assert_eq!(answer.body["framesEndpoint"], "/api/clips/cid/frame");
    assert!(answer.file_clip);
    assert_eq!(sent[0].method, Method::Post);
    assert_eq!(sent[0].url, "http://127.0.0.1:9999/clips/cid/stop");
    assert_eq!(sent[0].body, None);
}

#[test]
fn stop_clip_files_nothing_on_an_error() {
    let (_, answer) = drive(Mock::Json(404, r#"{ "error": "no such clip" }"#), (), |e| {
        stop_clip(&env(), "cid", e)
    });
    assert_eq!(answer.status, 404);
    assert!(!answer.file_clip);
    assert_eq!(answer.body["framesEndpoint"], "/api/clips/cid/frame");
}

#[test]
fn stop_clip_bad_gateway_on_invalid_json() {
    let (_, answer) = drive(Mock::Text(200, "x"), (), |e| stop_clip(&env(), "cid", e));
    assert_eq!(answer.status, 502);
    assert!(!answer.file_clip);
}

#[test]
fn stop_clip_bad_gateway_when_unreachable() {
    let (_, answer) = drive(Mock::Dead, (), |e| stop_clip(&env(), "cid", e));
    assert_eq!(answer.status, 502);
    assert!(!answer.file_clip);
}

#[test]
fn pause_clip_rejects_unsafe_id() {
    let (sent, answer) = drive(Mock::Dead, (), |e| pause_clip(&env(), "a/b", e));
    assert!(sent.is_empty());
    assert_eq!(answer.status, 400);
}

#[test]
fn pause_clip_passes_through_on_success() {
    let (sent, answer) = drive(Mock::Json(200, r#"{ "state": "paused" }"#), (), |e| {
        pause_clip(&env(), "cid", e)
    });
    assert_eq!(answer.status, 200);
    assert_eq!(answer.body["state"], "paused");
    assert!(answer.body.get("framesEndpoint").is_none());
    assert_eq!(sent[0].url, "http://127.0.0.1:9999/clips/cid/pause");
}

#[test]
fn resume_clip_rejects_unsafe_id() {
    let (sent, answer) = drive(Mock::Dead, (), |e| resume_clip(&env(), "..", e));
    assert!(sent.is_empty());
    assert_eq!(answer.status, 400);
}

#[test]
fn resume_clip_bad_gateway_when_unreachable() {
    let (sent, answer) = drive(Mock::Dead, (), |e| resume_clip(&env(), "cid", e));
    assert_eq!(answer.status, 502);
    assert_eq!(sent[0].url, "http://127.0.0.1:9999/clips/cid/resume");
}

#[test]
fn proxy_clip_post_bad_gateway_on_invalid_json() {
    let (_, answer) = drive(Mock::Text(200, "x"), (), |e| resume_clip(&env(), "cid", e));
    assert_eq!(answer.status, 502);
    assert_eq!(answer.body["available"], false);
}

#[test]
fn get_sources_returns_body_on_success() {
    let (sent, answer) = drive(Mock::Json(200, r#"{ "displays": [1] }"#), (), |e| {
        get_sources(&env(), e)
    });
    assert_eq!(answer.body["displays"], json("[1]"));
    assert_eq!(sent[0].url, "http://127.0.0.1:9999/clips/sources");
}

#[test]
fn get_sources_failsoft_on_non_2xx() {
    let (_, answer) = drive(Mock::Json(503, "{}"), (), |e| get_sources(&env(), e));
    assert_eq!(answer.status, 200);
    assert!(reason(&answer).contains("HTTP 503"));
}

#[test]
fn get_sources_failsoft_on_invalid_json() {
    let (_, answer) = drive(Mock::Text(200, "x"), (), |e| get_sources(&env(), e));
    assert!(reason(&answer).contains("invalid response"));
}

#[test]
fn get_sources_failsoft_when_unreachable() {
    let (_, answer) = drive(Mock::Dead, (), |e| get_sources(&env(), e));
    assert!(reason(&answer).contains("not reachable"));
}

#[test]
fn get_context_rejects_unsafe_id() {
    let (sent, answer) = drive(Mock::Dead, (), |e| get_context(&env(), "a/b", e));
    assert!(sent.is_empty());
    assert_eq!(answer.status, 400);
}

#[test]
fn get_context_rewrites_frames_endpoint() {
    let (sent, answer) = drive(
        Mock::Json(200, r#"{ "id": "cid", "framesEndpoint": "/clips/cid/frame" }"#),
        (),
        |e| get_context(&env(), "cid", e),
    );
    assert_eq!(answer.status, 200);
    assert_eq!(answer.body["framesEndpoint"], "/api/clips/cid/frame");
    assert!(!answer.file_clip);
    assert_eq!(sent[0].method, Method::Get);
    assert_eq!(sent[0].url, "http://127.0.0.1:9999/clips/cid/context");
}

#[test]
fn get_context_bad_gateway_on_invalid_json() {
    let (_, answer) = drive(Mock::Text(200, "x"), (), |e| get_context(&env(), "cid", e));
    assert_eq!(answer.status, 502);
}

#[test]
fn get_context_bad_gateway_when_unreachable() {
    let (_, answer) = drive(Mock::Dead, (), |e| get_context(&env(), "cid", e));
    assert_eq!(answer.status, 502);
}

#[test]
fn get_frame_rejects_unsafe_id() {
    let (sent, answer) = drive_bytes(BytesMock::Dead, FrameQuery { at_ms: 0 }, |e| {
        get_frame(&env(), "../x", e)
    });
    assert!(sent.is_empty());
    assert_eq!(status_of(&answer), 400);
}

#[test]
fn get_frame_forwards_bytes_and_content_type() {
    let (sent, answer) = drive_bytes(
        BytesMock::Bytes(200, Some("image/png"), vec![1, 2, 3]),
        FrameQuery { at_ms: 42 },
        |e| get_frame(&env(), "cid", e),
    );
    match answer {
        BytesAnswer::Content { content_type, bytes } => {
            assert_eq!(content_type, "image/png");
            assert_eq!(bytes, vec![1, 2, 3]);
        }
        _ => panic!("expected content"),
    }
    assert_eq!(sent[0].url, "http://127.0.0.1:9999/clips/cid/frame");
    assert_eq!(sent[0].query, Some(("atMs".to_string(), 42)));
}

#[test]
fn get_frame_forwards_shadow_content_type_verbatim() {
    let (_, answer) = drive_bytes(
        BytesMock::Bytes(200, Some("application/octet-stream"), vec![9]),
        FrameQuery { at_ms: 0 },
        |e| get_frame(&env(), "cid", e),
    );
    match answer {
        BytesAnswer::Content { content_type, bytes } => {
            assert_eq!(content_type, "application/octet-stream");
            assert_eq!(bytes, vec![9]);
        }
        _ => panic!("expected content"),
    }
}

#[test]
fn get_frame_calls_content_without_a_type_a_jpeg() {
    let (_, answer) = drive_bytes(
        BytesMock::Bytes(200, None, vec![9]),
        FrameQuery { at_ms: 0 },
        |e| get_frame(&env(), "cid", e),
    );
    match answer {
        BytesAnswer::Content { content_type, .. } => assert_eq!(content_type, "image/jpeg"),
        _ => panic!("expected content"),
    }
}

#[test]
fn get_frame_forwards_non_2xx_status() {
    let (_, answer) = drive_bytes(
        BytesMock::Bytes(404, Some("image/jpeg"), vec![]),
        FrameQuery { at_ms: 0 },
        |e| get_frame(&env(), "cid", e),
    );
    assert_eq!(status_of(&answer), 404);
}

#[test]
fn get_frame_bad_gateway_when_unreachable() {
    let (_, answer) = drive_bytes(BytesMock::Dead, FrameQuery { at_ms: 0 }, |e| {
        get_frame(&env(), "cid", e)
    });
    assert_eq!(status_of(&answer), 502);
}

#[test]
fn get_frame_bad_gateway_when_the_body_breaks_off() {
    let (_, answer) = drive_bytes(BytesMock::Broken(200), FrameQuery { at_ms: 0 }, |e| {
        get_frame(&env(), "cid", e)
    });
    assert_eq!(status_of(&answer), 502);
}

#[test]
fn get_file_rejects_unsafe_id() {
    let (sent, answer) = drive_bytes(BytesMock::Dead, (), |e| get_file(&env(), "a/b", e));
    assert!(sent.is_empty());
    assert_eq!(status_of(&answer), 400);
}

#[test]
fn get_file_forwards_mp4_bytes() {
    let (sent, answer) = drive_bytes(
        BytesMock::Bytes(200, Some("video/mp4"), vec![7, 7]),
        (),
        |e| get_file(&env(), "cid", e),
    );
    match answer {
        BytesAnswer::Content { content_type, bytes } => {
            assert_eq!(content_type, "video/mp4");
            assert_eq!(bytes, vec![7, 7]);
        }
        _ => panic!("expected content"),
    }
    assert_eq!(sent[0].url, "http://127.0.0.1:9999/clips/cid/file");
    assert_eq!(sent[0].query, None);
}

#[test]
fn get_file_calls_content_without_a_type_a_video() {
    let (_, answer) = drive_bytes(BytesMock::Bytes(206, None, vec![7]), (), |e| {
        get_file(&env(), "cid", e)
    });
    match answer {
        BytesAnswer::Content { content_type, .. } => assert_eq!(content_type, "video/mp4"),
        _ => panic!("expected content"),
    }
}

#[test]
fn post_diagnostics_rejects_unsafe_id() {
    let (sent, answer) = drive(Mock::Dead, json("{}"), |e| post_diagnostics(&env(), "..", e));
    assert!(sent.is_empty());
    assert_eq!(answer.status, 400);
}

#[test]
fn post_diagnostics_passes_through_on_success() {
    let (sent, answer) = drive(
        Mock::Json(200, r#"{ "ok": true }"#),
        json(r#"{ "level": "warn" }"#),
        |e| post_diagnostics(&env(), "cid", e),
    );
    assert_eq!(answer.status, 200);
    assert_eq!(answer.body["ok"], true);
    assert_eq!(sent[0].url, "http://127.0.0.1:9999/clips/cid/diagnostics");
    assert_eq!(sent[0].body, Some(json(r#"{ "level": "warn" }"#)));
}

#[test]
fn post_diagnostics_bad_gateway_on_invalid_json() {
    let (_, answer) = drive(Mock::Text(200, "x"), json("{}"), |e| {
        post_diagnostics(&env(), "cid", e)
    });
    assert_eq!(answer.status, 502);
}

#[test]
fn post_diagnostics_bad_gateway_when_unreachable() {
    let (_, answer) = drive(Mock::Dead, json("{}"), |e| post_diagnostics(&env(), "cid", e));
    assert_eq!(answer.status, 502);
}

#[test]
fn recent_activity_clamps_minutes() {
    let cases: Vec<(Option<u32>, &str)> = vec![
        (None, "minutes=3"),
        (Some(0), "minutes=1"),
        (Some(99), "minutes=15"),
        (Some(7), "minutes=7"),
    ];
    for (minutes, query) in cases {
        let (sent, answer) = drive(Mock::Json(200, "{}"), (), |e| {
            recent_activity(
                &env(),
                match e {
                    Event::Request(()) => Event::Request(RecentActivityQuery { minutes }),
                    Event::Shadow(reply) => Event::Shadow(reply),
                },
            )
        });
        assert_eq!(answer.status, 200);
        assert_eq!(sent[0].url, format!("http://127.0.0.1:9999/activity/recent?{query}"));
    }
}

#[test]
fn recent_activity_passes_the_bundle_through() {
    let (_, answer) = drive(
        Mock::Json(206, r#"{ "frames": [1, 2] }"#),
        RecentActivityQuery { minutes: Some(15) },
        |e| recent_activity(&env(), e),
    );
    assert_eq!(answer.status, 200);
    assert_eq!(answer.body, json(r#"{ "frames": [1, 2] }"#));
}

#[test]
fn recent_activity_forwards_non_2xx_status() {
    let (_, answer) = drive(
        Mock::Json(500, "{}"),
        RecentActivityQuery { minutes: Some(3) },
        |e| recent_activity(&env(), e),
    );
    assert_eq!(answer.status, 500);
    assert!(reason(&answer).contains("HTTP 500"));
}

#[test]
fn recent_activity_bad_gateway_on_invalid_json() {
    let (_, answer) = drive(Mock::Text(200, "x"), RecentActivityQuery { minutes: None }, |e| {
        recent_activity(&env(), e)
    });
    assert_eq!(answer.status, 502);
}

#[test]
fn recent_activity_service_unavailable_when_unreachable() {
    let (_, answer) = drive(Mock::Dead, RecentActivityQuery { minutes: None }, |e| {
        recent_activity(&env(), e)
    });
    assert_eq!(answer.status, 503);
    assert!(reason(&answer).contains("not reachable"));
}

#[test]
fn clips_and_actions_have_paths_of_their_own() {
    let mut urls: Vec<String> = Vec::new();
    for id in ["a", "b", "stop"] {
        let (sent, _) = drive(Mock::Dead, (), |e| stop_clip(&env(), id, e));
        urls.push(sent[0].url.clone());
        let (sent, _) = drive(Mock::Dead, (), |e| pause_clip(&env(), id, e));
        urls.push(sent[0].url.clone());
        let (sent, _) = drive_bytes(BytesMock::Dead, (), |e| get_file(&env(), id, e));
        urls.push(sent[0].url.clone());
    }
    for i in 0..urls.len() {
        assert_eq!(urls[i].split('/').count(), 6);
        for j in 0..i {
            assert_ne!(urls[i], urls[j]);
        }
    }
}
