//! The handlers of `/api/clips/*`.
//!
//! A handler is a function from what has happened to what to do next. It is
//! first given the request of the caller, and says what to ask Shadow. It is
//! then given what came of that, as often as there is something new, until it
//! says what to answer.
//!
//! Shadow may be down. The handlers that read JSON then answer with
//! `{ "available": false, "reason": .. }` rather than with nothing.

use crate::json;
use crate::shadow;
use crate::shadow::{Method, ShadowEnv, ShadowReply, ShadowRequest};
use crate::text;
use serde_json::Value;
use vstd::prelude::*;
use vstd::string::*;

verus! {

/// What has happened: the caller asked, with `T`, or Shadow replied.
#[derive(Debug)]
pub enum Event<T> {
    Request(T),
    Shadow(ShadowReply),
}

/// An answer to the caller.
#[derive(Debug)]
pub struct JsonAnswer {
    pub status: u16,
    pub body: Value,
    /// Whether the clip that `body` describes is finished and now to be filed.
    /// That goes on beside the answer, which it neither delays nor alters.
    pub file_clip: bool,
}

/// What to do next.
#[derive(Debug)]
pub enum Step {
    /// Send this to Shadow.
    Send(ShadowRequest),
    /// Read the body of Shadow's answer as JSON.
    ReadJson,
    /// Answer the caller.
    Done(JsonAnswer),
}

impl Step {
    /// Whether this answers with `status` and `body`, and files the clip or not.
    pub open spec fn answers(self, status: u16, body: json::JsonView, file_clip: bool) -> bool {
        &&& self matches Step::Done(answer)
        &&& answer.status == status
        &&& json::json_of(answer.body) == body
        &&& answer.file_clip == file_clip
    }

    /// Whether this sends a request that only asks `method` of `path`.
    pub open spec fn only_asks(self, env: ShadowEnv, method: Method, path: Seq<char>) -> bool {
        self matches Step::Send(request) && request.only_asks(env, method, path)
    }

    /// Whether this posts `body` to `path`.
    pub open spec fn posts(self, env: ShadowEnv, path: Seq<char>, body: Value) -> bool {
        &&& self matches Step::Send(request)
        &&& request.asks(env, Method::Post, path)
        &&& request.query is None
        &&& request.body == Some(body)
        &&& request.timeout_secs == shadow::SHADOW_TIMEOUT_SECS
    }
}

pub(crate) fn done(status: u16, body: Value) -> (res: Step)
    ensures
        res.answers(status, json::json_of(body), false),
        res->Done_0.body == body,
{
    Step::Done(JsonAnswer { status, body, file_clip: false })
}

/// Whether `id` can stand as one segment in the text of a path: it is not empty,
/// and it holds neither a slash nor two dots in a row.
pub open spec fn safe_id(id: Seq<char>) -> bool {
    &&& id.len() > 0
    &&& !id.contains('/')
    &&& !text::has_double(id, '.')
}

/// Whether `id` can stand as one segment in the text of a Shadow path. It arrives
/// percent-decoded, so a slash or dots in it would lead to other routes of
/// Shadow.
pub fn clip_id_is_safe(id: &str) -> (res: bool)
    ensures
        res == safe_id(id@),
{
    !id.is_empty() && !text::contains_char(id, '/') && !text::contains_double(id, '.')
}

/// What the caller is answered who names a clip by an unsafe id.
pub open spec fn refuses_id(res: Step) -> bool {
    res.answers(400, shadow::error_json("invalid clip id"@), false)
}

fn refuse_id() -> (res: Step)
    ensures
        refuses_id(res),
{
    done(400, shadow::error_body("invalid clip id".to_owned()))
}

/// The path of `action` on the clip `id`.
pub open spec fn clip_path(id: Seq<char>, action: Seq<char>) -> Seq<char> {
    "/clips/"@ + id + action
}

pub(crate) fn clip_url_path(id: &str, action: &str) -> (res: String)
    ensures
        res@ == clip_path(id@, action@),
{
    let mut res: String = "/clips/".to_owned();
    res.append(id);
    res.append(action);
    res
}

/// Where the frames of the clip `id` are served here.
pub open spec fn frames_endpoint(id: Seq<char>) -> Seq<char> {
    "/api/clips/"@ + id + "/frame"@
}

/// `body` with its `framesEndpoint` pointing here. Anything but an object stays
/// as it is.
pub open spec fn with_frames_endpoint(body: json::JsonView, id: Seq<char>) -> json::JsonView {
    match body {
        json::JsonView::Object(m) => json::JsonView::Object(
            m.insert("framesEndpoint"@, json::JsonView::Text(frames_endpoint(id))),
        ),
        _ => body,
    }
}

/// Points the `framesEndpoint` of a clip manifest, which Shadow gives relative
/// to itself, at this service.
pub fn rewrite_frames_endpoint(body: &mut Value, id: &str)
    ensures
        json::json_of(*final(body)) == with_frames_endpoint(json::json_of(*old(body)), id@),
        !(json::json_of(*old(body)) is Object) ==> *final(body) == *old(body),
{
    if let Some(fields) = body.as_object_mut() {
        let mut endpoint: String = "/api/clips/".to_owned();
        endpoint.append(id);
        endpoint.append("/frame");
        fields.insert("framesEndpoint".to_owned(), json::text_value(endpoint));
    }
}

/// How a handler goes on that passes the answer of Shadow through, whatever its
/// status. With `frames_of`, the body is a manifest of that clip, and its
/// frames endpoint is rewritten. With `files`, a success finishes a clip.
pub open spec fn relays(
    reply: ShadowReply,
    frames_of: Option<Seq<char>>,
    files: bool,
    res: Step,
) -> bool {
    match reply {
        ShadowReply::Failed(e) => res.answers(
            502,
            shadow::unavailable_json(shadow::unreachable_reason(e@)),
            false,
        ),
        ShadowReply::Head(_) => res is ReadJson,
        ShadowReply::Json(code, body) => {
            &&& res.answers(
                shadow::status_or(code, 200),
                match frames_of {
                    Some(id) => with_frames_endpoint(json::json_of(body), id),
                    None => json::json_of(body),
                },
                files && shadow::is_success(shadow::status_or(code, 200)),
            )
            &&& frames_of is None ==> res->Done_0.body == body
        },
        ShadowReply::Malformed(_, e) => res.answers(
            502,
            shadow::unavailable_json(shadow::malformed_reason(e@)),
            false,
        ),
    }
}

pub(crate) fn relay(reply: ShadowReply, frames_of: Option<&str>, files: bool) -> (res: Step)
    ensures
        relays(reply, text::text_of(frames_of), files, res),
{
    match reply {
        ShadowReply::Failed(e) => done(
            502,
            shadow::unavailable(shadow::phrase("Shadow is not reachable: ", e.as_str())),
        ),
        ShadowReply::Head(_) => Step::ReadJson,
        ShadowReply::Json(code, body) => {
            let status: u16 = shadow::checked_status(code, 200);
            let mut body: Value = body;
            if let Some(id) = frames_of {
                rewrite_frames_endpoint(&mut body, id);
            }
            let file_clip: bool = files && shadow::status_is_success(status);
            Step::Done(JsonAnswer { status, body, file_clip })
        },
        ShadowReply::Malformed(_, e) => done(
            502,
            shadow::unavailable(
                shadow::phrase("Shadow returned an invalid response: ", e.as_str()),
            ),
        ),
    }
}

/// How a handler goes on that reads the body of Shadow only where the status is
/// a success, which it answers with 200. It answers a failure in transport with
/// `unreachable`, an error status with `refused`, or with that status itself
/// where `refused` is none, and a body that is no JSON with `malformed`.
pub open spec fn reads_on_success(
    reply: ShadowReply,
    unreachable: u16,
    refused: Option<u16>,
    malformed: u16,
    res: Step,
) -> bool {
    match reply {
        ShadowReply::Failed(e) => res.answers(
            unreachable,
            shadow::unavailable_json(shadow::unreachable_reason(e@)),
            false,
        ),
        ShadowReply::Head(code) => if shadow::is_success(code) {
            res is ReadJson
        } else {
            reports_status(code, refused, res)
        },
        ShadowReply::Json(code, body) => if shadow::is_success(code) {
            res.answers(200, json::json_of(body), false) && res->Done_0.body == body
        } else {
            reports_status(code, refused, res)
        },
        ShadowReply::Malformed(code, e) => if shadow::is_success(code) {
            res.answers(malformed, shadow::unavailable_json(shadow::malformed_reason(e@)), false)
        } else {
            reports_status(code, refused, res)
        },
    }
}

/// Whether `res` reports that Shadow answered with the error status `code`.
pub open spec fn reports_status(code: u16, refused: Option<u16>, res: Step) -> bool {
    res.answers(
        match refused {
            Some(status) => status,
            None => shadow::status_or(code, 502),
        },
        shadow::unavailable_json(shadow::refused_reason(code)),
        false,
    )
}

fn report_status(code: u16, refused: Option<u16>) -> (res: Step)
    ensures
        reports_status(code, refused, res),
{
    let status: u16 = match refused {
        Some(status) => status,
        None => shadow::checked_status(code, 502),
    };
    let words: String = shadow::status_text(code);
    done(status, shadow::unavailable(shadow::phrase("Shadow returned HTTP ", words.as_str())))
}

fn read_on_success(
    reply: ShadowReply,
    unreachable: u16,
    refused: Option<u16>,
    malformed: u16,
) -> (res: Step)
    ensures
        reads_on_success(reply, unreachable, refused, malformed, res),
{
    match reply {
        ShadowReply::Failed(e) => done(
            unreachable,
            shadow::unavailable(shadow::phrase("Shadow is not reachable: ", e.as_str())),
        ),
        ShadowReply::Head(code) => if shadow::status_is_success(code) {
            Step::ReadJson
        } else {
            report_status(code, refused)
        },
        ShadowReply::Json(code, body) => if shadow::status_is_success(code) {
            done(200, body)
        } else {
            report_status(code, refused)
        },
        ShadowReply::Malformed(code, e) => if shadow::status_is_success(code) {
            done(
                malformed,
                shadow::unavailable(
                    shadow::phrase("Shadow returned an invalid response: ", e.as_str()),
                ),
            )
        } else {
            report_status(code, refused)
        },
    }
}

/// How the list of the clips goes on after `event`.
pub open spec fn lists_clips(env: ShadowEnv, event: Event<()>, res: Step) -> bool {
    match event {
        Event::Request(_) => res.only_asks(env, Method::Get, "/clips"@),
        Event::Shadow(reply) => reads_on_success(reply, 200, Some(200), 200, res),
    }
}

/// `GET /api/clips`: the clips.
pub fn list_clips(env: &ShadowEnv, event: Event<()>) -> (res: Step)
    ensures
        lists_clips(*env, event, res),
{
    match event {
        Event::Request(_) => Step::Send(shadow::plain_request(env, Method::Get, "/clips")),
        Event::Shadow(reply) => read_on_success(reply, 200, Some(200), 200),
    }
}

/// How the list of the sources goes on after `event`.
pub open spec fn lists_sources(env: ShadowEnv, event: Event<()>, res: Step) -> bool {
    match event {
        Event::Request(_) => res.only_asks(env, Method::Get, "/clips/sources"@),
        Event::Shadow(reply) => reads_on_success(reply, 200, Some(200), 200, res),
    }
}

/// `GET /api/clips/sources`: the displays and windows that can be captured.
pub fn get_sources(env: &ShadowEnv, event: Event<()>) -> (res: Step)
    ensures
        lists_sources(*env, event, res),
{
    match event {
        Event::Request(_) => Step::Send(shadow::plain_request(env, Method::Get, "/clips/sources")),
        Event::Shadow(reply) => read_on_success(reply, 200, Some(200), 200),
    }
}

/// How the start of a clip goes on after `event`.
pub open spec fn starts_clip(env: ShadowEnv, event: Event<Value>, res: Step) -> bool {
    match event {
        Event::Request(body) => res.posts(env, "/clips/start"@, body),
        Event::Shadow(reply) => relays(reply, None, false, res),
    }
}

/// `POST /api/clips/start`: starts a clip, as the body of the caller says.
pub fn start_clip(env: &ShadowEnv, event: Event<Value>) -> (res: Step)
    ensures
        starts_clip(*env, event, res),
{
    match event {
        Event::Request(body) => {
            let path: &str = "/clips/start";
            let mut request: ShadowRequest = shadow::plain_request(env, Method::Post, path);
            request.body = Some(body);
            Step::Send(request)
        },
        Event::Shadow(reply) => relay(reply, None, false),
    }
}

/// How the end of a clip goes on after `event`.
pub open spec fn stops_clip(env: ShadowEnv, id: Seq<char>, event: Event<()>, res: Step) -> bool {
    if !safe_id(id) {
        refuses_id(res)
    } else {
        match event {
            Event::Request(_) => res.only_asks(env, Method::Post, clip_path(id, "/stop"@)),
            Event::Shadow(reply) => relays(reply, Some(id), true, res),
        }
    }
}

/// `POST /api/clips/:id/stop`: finishes a clip, and has it filed.
pub fn stop_clip(env: &ShadowEnv, id: &str, event: Event<()>) -> (res: Step)
    ensures
        stops_clip(*env, id@, event, res),
{
    if !clip_id_is_safe(id) {
        return refuse_id();
    }
    match event {
        Event::Request(_) => Step::Send(
            shadow::plain_request(env, Method::Post, clip_url_path(id, "/stop").as_str()),
        ),
        Event::Shadow(reply) => relay(reply, Some(id), true),
    }
}

/// How the pause of a clip goes on after `event`.
pub open spec fn pauses_clip(env: ShadowEnv, id: Seq<char>, event: Event<()>, res: Step) -> bool {
    if !safe_id(id) {
        refuses_id(res)
    } else {
        match event {
            Event::Request(_) => res.only_asks(env, Method::Post, clip_path(id, "/pause"@)),
            Event::Shadow(reply) => relays(reply, None, false, res),
        }
    }
}

/// `POST /api/clips/:id/pause`: pauses the clip that is being recorded.
pub fn pause_clip(env: &ShadowEnv, id: &str, event: Event<()>) -> (res: Step)
    ensures
        pauses_clip(*env, id@, event, res),
{
    if !clip_id_is_safe(id) {
        return refuse_id();
    }
    proxy_clip_post(env, clip_url_path(id, "/pause").as_str(), event)
}

/// How the resumption of a clip goes on after `event`.
pub open spec fn resumes_clip(env: ShadowEnv, id: Seq<char>, event: Event<()>, res: Step) -> bool {
    if !safe_id(id) {
        refuses_id(res)
    } else {
        match event {
            Event::Request(_) => res.only_asks(env, Method::Post, clip_path(id, "/resume"@)),
            Event::Shadow(reply) => relays(reply, None, false, res),
        }
    }
}

/// `POST /api/clips/:id/resume`: resumes a paused clip.
pub fn resume_clip(env: &ShadowEnv, id: &str, event: Event<()>) -> (res: Step)
    ensures
        resumes_clip(*env, id@, event, res),
{
    if !clip_id_is_safe(id) {
        return refuse_id();
    }
    proxy_clip_post(env, clip_url_path(id, "/resume").as_str(), event)
}

/// Posts to `path` without a body, and passes the answer through.
fn proxy_clip_post(env: &ShadowEnv, path: &str, event: Event<()>) -> (res: Step)
    ensures
        match event {
            Event::Request(_) => res.only_asks(*env, Method::Post, path@),
            Event::Shadow(reply) => relays(reply, None, false, res),
        },
{
    match event {
        Event::Request(_) => Step::Send(shadow::plain_request(env, Method::Post, path)),
        Event::Shadow(reply) => relay(reply, None, false),
    }
}

/// How the reading of a manifest goes on after `event`.
pub open spec fn gets_context(env: ShadowEnv, id: Seq<char>, event: Event<()>, res: Step) -> bool {
    if !safe_id(id) {
        refuses_id(res)
    } else {
        match event {
            Event::Request(_) => res.only_asks(env, Method::Get, clip_path(id, "/context"@)),
            Event::Shadow(reply) => relays(reply, Some(id), false, res),
        }
    }
}

/// `GET /api/clips/:id/context`: the manifest of a clip.
pub fn get_context(env: &ShadowEnv, id: &str, event: Event<()>) -> (res: Step)
    ensures
        gets_context(*env, id@, event, res),
{
    if !clip_id_is_safe(id) {
        return refuse_id();
    }
    match event {
        Event::Request(_) => Step::Send(
            shadow::plain_request(env, Method::Get, clip_url_path(id, "/context").as_str()),
        ),
        Event::Shadow(reply) => relay(reply, Some(id), false),
    }
}

/// How the posting of diagnostics goes on after `event`.
pub open spec fn posts_diagnostics(
    env: ShadowEnv,
    id: Seq<char>,
    event: Event<Value>,
    res: Step,
) -> bool {
    if !safe_id(id) {
        refuses_id(res)
    } else {
        match event {
            Event::Request(body) => res.posts(env, clip_path(id, "/diagnostics"@), body),
            Event::Shadow(reply) => relays(reply, None, false, res),
        }
    }
}

/// `POST /api/clips/:id/diagnostics`: appends the body of the caller to the
/// diagnostics of a clip.
pub fn post_diagnostics(env: &ShadowEnv, id: &str, event: Event<Value>) -> (res: Step)
    ensures
        posts_diagnostics(*env, id@, event, res),
{
    if !clip_id_is_safe(id) {
        return refuse_id();
    }
    match event {
        Event::Request(body) => {
            let url_path: String = clip_url_path(id, "/diagnostics");
            let path: &str = url_path.as_str();
            let mut request: ShadowRequest = shadow::plain_request(env, Method::Post, path);
            request.body = Some(body);
            Step::Send(request)
        },
        Event::Shadow(reply) => relay(reply, None, false),
    }
}

/// The query of `GET /api/clips/recent-activity`.
#[derive(Debug)]
pub struct RecentActivityQuery {
    pub minutes: Option<u32>,
}

/// Minutes of activity to ask for when the caller names none.
pub const DEFAULT_ACTIVITY_MINUTES: u32 = 3;

/// The most minutes of activity to ask for.
pub const MAX_ACTIVITY_MINUTES: u32 = 15;

impl RecentActivityQuery {
    /// The minutes to ask for: those that the caller names or the default,
    /// brought into the range from one to the most there are.
    pub open spec fn clamped_minutes(self) -> u32 {
        let minutes = match self.minutes {
            Some(minutes) => minutes,
            None => DEFAULT_ACTIVITY_MINUTES,
        };
        if minutes < 1 {
            1
        } else if minutes > MAX_ACTIVITY_MINUTES {
            MAX_ACTIVITY_MINUTES
        } else {
            minutes
        }
    }
}

/// How the reading of recent activity goes on after `event`.
pub open spec fn gets_activity(
    env: ShadowEnv,
    event: Event<RecentActivityQuery>,
    res: Step,
) -> bool {
    match event {
        Event::Request(query) => res.only_asks(
            env,
            Method::Get,
            "/activity/recent?minutes="@ + text::decimal(query.clamped_minutes() as nat),
        ),
        Event::Shadow(reply) => reads_on_success(reply, 503, None, 502, res),
    }
}

/// `GET /api/clips/recent-activity`: what was on the screen in the last
/// minutes. The bundle of Shadow is passed through, and kept nowhere.
pub fn recent_activity(env: &ShadowEnv, event: Event<RecentActivityQuery>) -> (res: Step)
    ensures
        gets_activity(*env, event, res),
{
    match event {
        Event::Request(query) => {
            let asked: u32 = match query.minutes {
                Some(minutes) => minutes,
                None => DEFAULT_ACTIVITY_MINUTES,
            };
            let minutes: u32 = if asked < 1 {
                1
            } else if asked > MAX_ACTIVITY_MINUTES {
                MAX_ACTIVITY_MINUTES
            } else {
                asked
            };
            let digits: String = text::decimal_text(minutes as u64);
            let path: String = shadow::phrase("/activity/recent?minutes=", digits.as_str());
            Step::Send(shadow::plain_request(env, Method::Get, path.as_str()))
        },
        Event::Shadow(reply) => read_on_success(reply, 503, None, 502),
    }
}

/// The query of `GET /api/clips/:id/frame`.
#[derive(Debug)]
pub struct FrameQuery {
    pub at_ms: u64,
}

/// What came of a request for content, as far as it is known.
#[derive(Debug)]
pub enum BytesReply {
    /// The request failed in transport.
    Failed,
    /// Shadow answered with this status. Its body was not read.
    Head { status: u16 },
    /// Shadow answered with this status, this `Content-Type` and this body.
    Bytes { status: u16, content_type: Option<String>, bytes: Vec<u8> },
    /// Shadow answered with this status, and its body could not be read.
    Broken { status: u16 },
}

/// What has happened: the caller asked, with `T`, or Shadow replied.
#[derive(Debug)]
pub enum BytesEvent<T> {
    Request(T),
    Shadow(BytesReply),
}

/// An answer to a caller who asked for content.
#[derive(Debug)]
pub enum BytesAnswer {
    /// This status, with an empty body.
    Status(u16),
    /// The content, with status 200.
    Content { content_type: String, bytes: Vec<u8> },
}

/// What to do next, for a caller who asked for content.
#[derive(Debug)]
pub enum BytesStep {
    /// Send this to Shadow.
    Send(ShadowRequest),
    /// Read the body of Shadow's answer.
    ReadBytes,
    /// Answer the caller.
    Done(BytesAnswer),
}

/// How a handler goes on that passes content through.
pub open spec fn streams(reply: BytesReply, default_type: Seq<char>, res: BytesStep) -> bool {
    match reply {
        BytesReply::Failed => res == BytesStep::Done(BytesAnswer::Status(502)),
        BytesReply::Head { status } => if shadow::is_success(status) {
            res is ReadBytes
        } else {
            forwards_status(status, res)
        },
        BytesReply::Bytes { status, content_type, bytes } => if shadow::is_success(status) {
            &&& res matches BytesStep::Done(BytesAnswer::Content {
                content_type: sent_type,
                bytes: sent,
            })
            &&& sent_type@ == match content_type {
                Some(t) => t@,
                None => default_type,
            }
            &&& sent@ == bytes@
        } else {
            forwards_status(status, res)
        },
        BytesReply::Broken { status } => if shadow::is_success(status) {
            res == BytesStep::Done(BytesAnswer::Status(502))
        } else {
            forwards_status(status, res)
        },
    }
}

/// Whether `res` answers with the error status of Shadow.
pub open spec fn forwards_status(status: u16, res: BytesStep) -> bool {
    res == BytesStep::Done(BytesAnswer::Status(shadow::status_or(status, 502)))
}

fn forward_status(status: u16) -> (res: BytesStep)
    ensures
        forwards_status(status, res),
{
    BytesStep::Done(BytesAnswer::Status(shadow::checked_status(status, 502)))
}

/// Passes content through, with the `Content-Type` of Shadow, or with
/// `default_type` where Shadow gives none.
fn proxy_bytes(reply: BytesReply, default_type: &str) -> (res: BytesStep)
    ensures
        streams(reply, default_type@, res),
{
    match reply {
        BytesReply::Failed => BytesStep::Done(BytesAnswer::Status(502)),
        BytesReply::Head { status } => if shadow::status_is_success(status) {
            BytesStep::ReadBytes
        } else {
            forward_status(status)
        },
        BytesReply::Bytes { status, content_type, bytes } => if shadow::status_is_success(status) {
            let sent_type: String = match content_type {
                Some(t) => t,
                None => default_type.to_owned(),
            };
            BytesStep::Done(BytesAnswer::Content { content_type: sent_type, bytes })
        } else {
            forward_status(status)
        },
        BytesReply::Broken { status } => if shadow::status_is_success(status) {
            BytesStep::Done(BytesAnswer::Status(502))
        } else {
            forward_status(status)
        },
    }
}

/// How the reading of a frame goes on after `event`.
pub open spec fn gets_frame(
    env: ShadowEnv,
    id: Seq<char>,
    event: BytesEvent<FrameQuery>,
    res: BytesStep,
) -> bool {
    if !safe_id(id) {
        res == BytesStep::Done(BytesAnswer::Status(400))
    } else {
        match event {
            BytesEvent::Request(query) => {
                &&& res matches BytesStep::Send(request)
                &&& request.asks(env, Method::Get, clip_path(id, "/frame"@))
                &&& request.query matches Some(parameter)
                &&& parameter.0@ == "atMs"@
                &&& parameter.1 == query.at_ms
                &&& request.body is None
                &&& request.timeout_secs == shadow::SHADOW_TIMEOUT_SECS
            },
            BytesEvent::Shadow(reply) => streams(reply, "image/jpeg"@, res),
        }
    }
}

/// `GET /api/clips/:id/frame`: the frame of a clip at a time.
pub fn get_frame(env: &ShadowEnv, id: &str, event: BytesEvent<FrameQuery>) -> (res: BytesStep)
    ensures
        gets_frame(*env, id@, event, res),
{
    if !clip_id_is_safe(id) {
        return BytesStep::Done(BytesAnswer::Status(400));
    }
    match event {
        BytesEvent::Request(query) => {
            let path: String = clip_url_path(id, "/frame");
            let mut request: ShadowRequest = shadow::plain_request(env, Method::Get, path.as_str());
            request.query = Some(("atMs".to_owned(), query.at_ms));
            BytesStep::Send(request)
        },
        BytesEvent::Shadow(reply) => proxy_bytes(reply, "image/jpeg"),
    }
}

/// How the reading of a video goes on after `event`.
pub open spec fn gets_file(
    env: ShadowEnv,
    id: Seq<char>,
    event: BytesEvent<()>,
    res: BytesStep,
) -> bool {
    if !safe_id(id) {
        res == BytesStep::Done(BytesAnswer::Status(400))
    } else {
        match event {
            BytesEvent::Request(_) => {
                &&& res matches BytesStep::Send(request)
                &&& request.only_asks(env, Method::Get, clip_path(id, "/file"@))
            },
            BytesEvent::Shadow(reply) => streams(reply, "video/mp4"@, res),
        }
    }
}

/// `GET /api/clips/:id/file`: the video of a clip.
pub fn get_file(env: &ShadowEnv, id: &str, event: BytesEvent<()>) -> (res: BytesStep)
    ensures
        gets_file(*env, id@, event, res),
{
    if !clip_id_is_safe(id) {
        return BytesStep::Done(BytesAnswer::Status(400));
    }
    match event {
        BytesEvent::Request(_) => BytesStep::Send(
            shadow::plain_request(env, Method::Get, clip_url_path(id, "/file").as_str()),
        ),
        BytesEvent::Shadow(reply) => proxy_bytes(reply, "video/mp4"),
    }
}

/// Whether between the slashes of `path` there stand `clips`, `id` and `action`,
/// and nothing else.
pub open spec fn addresses(path: Seq<char>, id: Seq<char>, action: Seq<char>) -> bool {
    text::split(path, '/') == seq![Seq::<char>::empty(), "clips"@, id, action]
}

/// A safe id stays one segment in the text of the path that it is put into, and
/// is not the one that climbs to a parent.
pub proof fn law_safe_id_is_one_segment(id: Seq<char>, action: Seq<char>)
    requires
        safe_id(id),
        safe_id(action),
    ensures
        addresses(clip_path(id, seq!['/'] + action), id, action),
        id != ".."@,
        action != ".."@,
{
    reveal_strlit("/clips/");
    reveal_strlit("clips");
    reveal_strlit("..");
    let path = clip_path(id, seq!['/'] + action);
    let none = Seq::<char>::empty();
    assert(path =~= none.push('/') + ("clips"@.push('/') + (id.push('/') + action)));
    text::lemma_split_first(none, '/', "clips"@.push('/') + (id.push('/') + action));
    text::lemma_split_first("clips"@, '/', id.push('/') + action);
    text::lemma_split_first(id, '/', action);
    text::lemma_split_whole(action, '/');
    assert(text::split(path, '/') =~= seq![none, "clips"@, id, action]);
    if id == ".."@ {
        assert(id[0] == '.' && id[1] == '.');
    }
    if action == ".."@ {
        assert(action[0] == '.' && action[1] == '.');
    }
}

/// What the handlers of one clip ask of Shadow is addressed, in the text of its
/// path, to that clip and to their own action.
pub proof fn law_clip_routes_address_their_clip(id: Seq<char>)
    requires
        safe_id(id),
    ensures
        addresses(clip_path(id, "/stop"@), id, "stop"@),
        addresses(clip_path(id, "/pause"@), id, "pause"@),
        addresses(clip_path(id, "/resume"@), id, "resume"@),
        addresses(clip_path(id, "/context"@), id, "context"@),
        addresses(clip_path(id, "/frame"@), id, "frame"@),
        addresses(clip_path(id, "/file"@), id, "file"@),
        addresses(clip_path(id, "/diagnostics"@), id, "diagnostics"@),
{
    reveal_strlit("stop");
    reveal_strlit("/stop");
    assert("/stop"@ =~= seq!['/'] + "stop"@);
    law_safe_id_is_one_segment(id, "stop"@);
    reveal_strlit("pause");
    reveal_strlit("/pause");
    assert("/pause"@ =~= seq!['/'] + "pause"@);
    law_safe_id_is_one_segment(id, "pause"@);
    reveal_strlit("resume");
    reveal_strlit("/resume");
    assert("/resume"@ =~= seq!['/'] + "resume"@);
    law_safe_id_is_one_segment(id, "resume"@);
    reveal_strlit("context");
    reveal_strlit("/context");
    assert("/context"@ =~= seq!['/'] + "context"@);
    law_safe_id_is_one_segment(id, "context"@);
    reveal_strlit("frame");
    reveal_strlit("/frame");
    assert("/frame"@ =~= seq!['/'] + "frame"@);
    law_safe_id_is_one_segment(id, "frame"@);
    reveal_strlit("file");
    reveal_strlit("/file");
    assert("/file"@ =~= seq!['/'] + "file"@);
    law_safe_id_is_one_segment(id, "file"@);
    reveal_strlit("diagnostics");
    reveal_strlit("/diagnostics");
    assert("/diagnostics"@ =~= seq!['/'] + "diagnostics"@);
    law_safe_id_is_one_segment(id, "diagnostics"@);
}

/// Two clips share no path, and neither do two actions on one clip.
pub proof fn law_clip_paths_are_distinct(
    id: Seq<char>,
    action: Seq<char>,
    other_id: Seq<char>,
    other_action: Seq<char>,
)
    requires
        safe_id(id),
        safe_id(action),
        safe_id(other_id),
        safe_id(other_action),
        clip_path(id, seq!['/'] + action) == clip_path(other_id, seq!['/'] + other_action),
    ensures
        id == other_id,
        action == other_action,
{
    law_safe_id_is_one_segment(id, action);
    law_safe_id_is_one_segment(other_id, other_action);
    let parts = text::split(clip_path(id, seq!['/'] + action), '/');
    assert(parts[2] == id && parts[2] == other_id);
    assert(parts[3] == action && parts[3] == other_action);
}

/// Pointing the frames endpoint here sets that member of a manifest and no
/// other one, and doing it again changes nothing.
pub proof fn law_frames_endpoint_is_rewritten_once(body: json::JsonView, id: Seq<char>)
    ensures
        body is Object ==> with_frames_endpoint(body, id).text_member("framesEndpoint"@) == Some(
            frames_endpoint(id),
        ),
        forall|key: Seq<char>|
            key != "framesEndpoint"@ ==> #[trigger] with_frames_endpoint(body, id).member(key)
                == body.member(key),
        with_frames_endpoint(with_frames_endpoint(body, id), id) == with_frames_endpoint(body, id),
{
    if let json::JsonView::Object(m) = body {
        let v = json::JsonView::Text(frames_endpoint(id));
        assert(m.insert("framesEndpoint"@, v).insert("framesEndpoint"@, v) =~= m.insert(
            "framesEndpoint"@,
            v,
        ));
    }
}

/// Whether `body` reports that Shadow is not available, and why.
pub open spec fn says_unavailable(body: json::JsonView) -> bool {
    &&& body.member("available"@) == Some(json::JsonView::Bool(false))
    &&& body.text_member("reason"@) is Some
}

/// Whether Shadow gave the JSON of a success.
pub open spec fn gave_json(reply: ShadowReply) -> bool {
    reply matches ShadowReply::Json(code, _) && shadow::is_success(code)
}

/// Without JSON from Shadow the caller still gets an answer, which says that
/// Shadow is not available and why, and no clip is filed. This is what the
/// handlers do that pass any status through.
pub proof fn law_relay_is_fail_soft(
    reply: ShadowReply,
    frames_of: Option<Seq<char>>,
    files: bool,
    res: Step,
)
    requires
        relays(reply, frames_of, files, res),
        reply is Failed || reply is Malformed,
    ensures
        res is Done,
        says_unavailable(json::json_of(res->Done_0.body)),
        !res->Done_0.file_clip,
{
    lemma_unavailable_says_so();
}

/// Without the JSON of a success the caller still gets an answer, which says
/// that Shadow is not available and why. This is what the handlers do that
/// read successes only.
pub proof fn law_read_is_fail_soft(
    reply: ShadowReply,
    unreachable: u16,
    refused: Option<u16>,
    malformed: u16,
    res: Step,
)
    requires
        reads_on_success(reply, unreachable, refused, malformed, res),
        !gave_json(reply),
        !(reply matches ShadowReply::Head(code) && shadow::is_success(code)),
    ensures
        res is Done,
        says_unavailable(json::json_of(res->Done_0.body)),
        !res->Done_0.file_clip,
{
    lemma_unavailable_says_so();
}

/// The handlers that list never answer with an error status, whatever Shadow
/// replies.
pub proof fn law_listing_never_errs(reply: ShadowReply, res: Step)
    requires
        reads_on_success(reply, 200, Some(200), 200, res),
    ensures
        res matches Step::Done(answer) ==> answer.status == 200,
{
}

/// Every answer of unavailability says so.
pub proof fn lemma_unavailable_says_so()
    ensures
        forall|reason: Seq<char>| says_unavailable(#[trigger] shadow::unavailable_json(reason)),
{
    reveal_strlit("available");
    reveal_strlit("reason");
    assert("available"@.len() != "reason"@.len());
}

/// A clip is filed only where Shadow reports success with a JSON body, and the
/// caller is then answered with that success.
pub proof fn law_only_a_success_is_filed(
    reply: ShadowReply,
    frames_of: Option<Seq<char>>,
    files: bool,
    res: Step,
)
    requires
        relays(reply, frames_of, files, res),
    ensures
        (res is Done && res->Done_0.file_clip) ==> {
            &&& files
            &&& reply is Json
            &&& shadow::is_success(res->Done_0.status)
        },
        files && gave_json(reply) ==> res is Done && res->Done_0.file_clip,
{
}

/// At least one minute of activity is asked for and never more than the most
/// there are; a number within these bounds is asked for as it is.
pub proof fn law_activity_minutes_are_bounded(query: RecentActivityQuery)
    ensures
        1 <= query.clamped_minutes() <= MAX_ACTIVITY_MINUTES,
        (query.minutes matches Some(m) && 1 <= m <= MAX_ACTIVITY_MINUTES)
            ==> query.clamped_minutes() == query.minutes->0,
        query.minutes is None ==> query.clamped_minutes() == DEFAULT_ACTIVITY_MINUTES,
{
}

/// Every exchange ends. After Shadow's reply nothing more is sent; the body is
/// asked for at most once, and a reply that is complete is answered.
pub proof fn law_relay_ends(
    reply: ShadowReply,
    frames_of: Option<Seq<char>>,
    files: bool,
    res: Step,
)
    requires
        relays(reply, frames_of, files, res),
    ensures
        !(res is Send),
        res is ReadJson ==> reply is Head,
{
}

/// Every exchange ends, also where successes only are read.
pub proof fn law_read_ends(
    reply: ShadowReply,
    unreachable: u16,
    refused: Option<u16>,
    malformed: u16,
    res: Step,
)
    requires
        reads_on_success(reply, unreachable, refused, malformed, res),
    ensures
        !(res is Send),
        res is ReadJson ==> reply is Head,
{
}

/// Every exchange over content ends.
pub proof fn law_stream_ends(reply: BytesReply, default_type: Seq<char>, res: BytesStep)
    requires
        streams(reply, default_type, res),
    ensures
        !(res is Send),
        res is ReadBytes ==> reply is Head,
{
}

/// Content comes through as it is, and only with a success: a caller is given
/// bytes exactly when Shadow gave them.
pub proof fn law_content_comes_from_a_success(
    reply: BytesReply,
    default_type: Seq<char>,
    res: BytesStep,
)
    requires
        streams(reply, default_type, res),
    ensures
        (res matches BytesStep::Done(answer) && answer is Content) <==> (reply
            matches BytesReply::Bytes { status, .. } && shadow::is_success(status)),
        res matches BytesStep::Done(BytesAnswer::Content { bytes, .. }) ==> bytes@
            == reply->Bytes_bytes@,
{
}

} // verus!
