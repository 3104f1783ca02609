//! What the handlers owe those who ask them, said of what is sent and answered.
//!
//! The contracts of the handlers are put together from a few patterns. The laws
//! here say what comes of them in the end: which request reaches Shadow, and
//! what of Shadow's reply reaches the caller. The functions in front of them
//! only give names to what the laws speak of; no contract uses them.

use crate::api;
use crate::api::{
    BytesAnswer, BytesEvent, BytesReply, BytesStep, Event, FrameQuery, RecentActivityQuery, Step,
};
use crate::filing;
use crate::filing::FilingStep;
use crate::ingest;
use crate::ingest::{IngestBody, IngestEnv, IngestEvent, IngestStep};
use crate::json;
use crate::json::JsonView;
use crate::local;
use crate::paths;
use crate::shadow;
use crate::shadow::{Method, ShadowEnv, ShadowReply, ShadowRequest};
use crate::sidecar;
use crate::text;
use crate::{CaptionCue, DownloadedClip};
use serde_json::Value;
use vstd::prelude::*;
use vstd::string::*;
use vstd::utf8::*;

verus! {

/// Whether `request` asks `method` of `path` at the Shadow of `env`, as the
/// bearer of its token, and waits for `seconds`.
pub open spec fn reaches(
    request: ShadowRequest,
    env: ShadowEnv,
    method: Method,
    path: Seq<char>,
    seconds: u64,
) -> bool {
    &&& request.method == method
    &&& request.url@ == match env.url {
        Some(url) => url@ + path,
        None => "http://127.0.0.1:3030"@ + path,
    }
    &&& match env.token {
        Some(token) => if text::is_blank(token@) {
            request.authorization is None
        } else {
            request.authorization matches Some(header) && header@ == "Bearer "@ + text::trimmed(
                token@,
            )
        },
        None => request.authorization is None,
    }
    &&& request.timeout_secs == seconds
}

/// Whether `res` sends such a request, with `body` and nothing in the query.
pub open spec fn asks_shadow(
    res: Step,
    env: ShadowEnv,
    method: Method,
    path: Seq<char>,
    body: Option<Value>,
) -> bool {
    &&& res matches Step::Send(request)
    &&& reaches(request, env, method, path, 15)
    &&& request.query is None
    &&& request.body == body
}

/// Whether `res` tells the caller, with `status`, that Shadow is not available
/// for `reason`.
pub open spec fn tells_unavailable(res: Step, status: u16, reason: Seq<char>) -> bool {
    &&& res matches Step::Done(answer)
    &&& answer.status == status
    &&& !answer.file_clip
    &&& json::json_of(answer.body) == JsonView::Object(
        map!["available"@ => JsonView::Bool(false), "reason"@ => JsonView::Text(reason)],
    )
}

/// Whether `res` refuses the caller, with `status`, for `message`.
pub open spec fn tells_error(res: Step, status: u16, message: Seq<char>) -> bool {
    &&& res matches Step::Done(answer)
    &&& answer.status == status
    &&& !answer.file_clip
    &&& json::json_of(answer.body) == JsonView::Object(map!["error"@ => JsonView::Text(message)])
}

/// Whether `sent` is the manifest `given` of the clip `id`, with its frames
/// here: an object has every other member as it was, and anything else is as it
/// was altogether.
pub open spec fn is_manifest_here(given: JsonView, sent: JsonView, id: Seq<char>) -> bool {
    match given {
        JsonView::Object(m) => {
            &&& sent matches JsonView::Object(s)
            &&& s.contains_key("framesEndpoint"@)
            &&& s["framesEndpoint"@] == JsonView::Text("/api/clips/"@ + id + "/frame"@)
            &&& s.remove("framesEndpoint"@) == m.remove("framesEndpoint"@)
        },
        _ => sent == given,
    }
}

/// Whether `reply` came through to the caller, whatever its status: the status
/// and the body are those of Shadow, and without JSON the caller is told why.
/// With `id` the body is the manifest of that clip, and with `files` a success
/// is filed.
pub open spec fn came_through(
    reply: ShadowReply,
    id: Option<Seq<char>>,
    files: bool,
    down: u16,
    res: Step,
) -> bool {
    match reply {
        ShadowReply::Failed(e) => tells_unavailable(res, down, "Shadow is not reachable: "@ + e@),
        ShadowReply::Head(_) => res is ReadJson,
        ShadowReply::Json(code, body) => {
            &&& res matches Step::Done(answer)
            &&& 100 <= code <= 999 ==> answer.status == code
            &&& !(100 <= code <= 999) ==> answer.status == 200
            &&& answer.file_clip <==> files && 200 <= answer.status < 300
            &&& match id {
                Some(id) => is_manifest_here(
                    json::json_of(body),
                    json::json_of(answer.body),
                    id,
                ),
                None => answer.body == body,
            }
        },
        ShadowReply::Malformed(_, e) => tells_unavailable(
            res,
            502,
            "Shadow returned an invalid response: "@ + e@,
        ),
    }
}

proof fn lemma_came_through(
    reply: ShadowReply,
    id: Option<Seq<char>>,
    files: bool,
    res: Step,
)
    requires
        api::relays(reply, id, files, res),
    ensures
        came_through(reply, id, files, 502, res),
{
    if let ShadowReply::Json(_, body) = reply {
        if let JsonView::Object(m) = json::json_of(body) {
            if let Some(id) = id {
                let v = JsonView::Text(api::frames_endpoint(id));
                assert(m.insert("framesEndpoint"@, v).remove("framesEndpoint"@) =~= m.remove(
                    "framesEndpoint"@,
                ));
            }
        }
    }
}

/// The status that stands for the error status `code` of Shadow.
pub open spec fn error_status(code: u16, refused: Option<u16>) -> u16 {
    match refused {
        Some(status) => status,
        None => if 100 <= code <= 999 {
            code
        } else {
            502
        },
    }
}

/// Whether `res` tells the caller that Shadow answered with the error status
/// `code`, by its number.
pub open spec fn tells_refused(res: Step, code: u16, refused: Option<u16>) -> bool {
    exists|reason: Seq<char>|
        {
            &&& #[trigger] tells_unavailable(res, error_status(code, refused), reason)
            &&& ("Shadow returned HTTP "@ + text::decimal(code as nat)).is_prefix_of(reason)
        }
}

/// Whether the JSON of a success came through to the caller untouched, with
/// status 200, and the caller is told why where there is none.
pub open spec fn success_came_through(
    reply: ShadowReply,
    down: u16,
    refused: Option<u16>,
    broken: u16,
    res: Step,
) -> bool {
    match reply {
        ShadowReply::Failed(e) => tells_unavailable(res, down, "Shadow is not reachable: "@ + e@),
        ShadowReply::Head(code) => if 200 <= code < 300 {
            res is ReadJson
        } else {
            tells_refused(res, code, refused)
        },
        ShadowReply::Json(code, body) => if 200 <= code < 300 {
            &&& res matches Step::Done(answer)
            &&& answer.status == 200
            &&& answer.body == body
            &&& !answer.file_clip
        } else {
            tells_refused(res, code, refused)
        },
        ShadowReply::Malformed(code, e) => if 200 <= code < 300 {
            tells_unavailable(res, broken, "Shadow returned an invalid response: "@ + e@)
        } else {
            tells_refused(res, code, refused)
        },
    }
}

proof fn lemma_success_came_through(
    reply: ShadowReply,
    down: u16,
    refused: Option<u16>,
    broken: u16,
    res: Step,
)
    requires
        api::reads_on_success(reply, down, refused, broken, res),
    ensures
        success_came_through(reply, down, refused, broken, res),
{
    let code = match reply {
        ShadowReply::Failed(_) => 0,
        ShadowReply::Head(code) => code,
        ShadowReply::Json(code, _) => code,
        ShadowReply::Malformed(code, _) => code,
    };
    shadow::law_reasons_end_with_their_cause(Seq::empty(), code);
    if !(reply is Failed) && !(200 <= code < 300) {
        assert(tells_unavailable(
            res,
            error_status(code, refused),
            shadow::refused_reason(code),
        ));
    }
}

/// JSON that Shadow gives with a success is the answer as it is, with status
/// 200, whatever it holds.
pub proof fn law_read_passes_json_through(
    reply: ShadowReply,
    unreachable: u16,
    refused: Option<u16>,
    malformed: u16,
    res: Step,
)
    requires
        api::reads_on_success(reply, unreachable, refused, malformed, res),
        reply matches ShadowReply::Json(code, _) && 200 <= code < 300,
    ensures
        res matches Step::Done(answer) && answer.status == 200 && answer.body == reply->Json_1
            && !answer.file_clip,
{
}

/// JSON that Shadow gives is the answer, with the status of Shadow, whatever the
/// two are. Of a manifest the place of the frames alone is changed.
pub proof fn law_relay_passes_json_through(
    reply: ShadowReply,
    id: Option<Seq<char>>,
    files: bool,
    res: Step,
)
    requires
        api::relays(reply, id, files, res),
        reply is Json,
    ensures
        came_through(reply, id, files, 502, res),
{
    lemma_came_through(reply, id, files, res);
}

/// The frames of a clip are at a path with five parts, one of which is the whole
/// id. It is the path of the frame route for that very clip.
pub proof fn law_frames_endpoint_leads_to_the_clip(id: Seq<char>)
    requires
        !id.contains('/'),
    ensures
        text::split(api::frames_endpoint(id), '/') == seq![
            Seq::<char>::empty(),
            "api"@,
            "clips"@,
            id,
            "frame"@,
        ],
{
    reveal_strlit("/api/clips/");
    reveal_strlit("/frame");
    reveal_strlit("api");
    reveal_strlit("clips");
    reveal_strlit("frame");
    let none = Seq::<char>::empty();
    let last = id.push('/') + "frame"@;
    let rest = "clips"@.push('/') + last;
    let whole = "api"@.push('/') + rest;
    assert(api::frames_endpoint(id) =~= none.push('/') + whole);
    text::lemma_split_first(none, '/', whole);
    text::lemma_split_first("api"@, '/', rest);
    text::lemma_split_first("clips"@, '/', last);
    text::lemma_split_first(id, '/', "frame"@);
    text::lemma_split_whole("frame"@, '/');
    assert(text::split(api::frames_endpoint(id), '/') =~= seq![
        none,
        "api"@,
        "clips"@,
        id,
        "frame"@,
    ]);
}

/// No two clips have their frames at one place, whatever their ids.
pub proof fn law_frames_endpoints_are_distinct(id: Seq<char>, other: Seq<char>)
    requires
        api::frames_endpoint(id) == api::frames_endpoint(other),
    ensures
        id == other,
{
    let head = "/api/clips/"@;
    let tail = "/frame"@;
    let a = head + id + tail;
    let b = head + other + tail;
    assert(a.len() == head.len() + id.len() + tail.len());
    assert(a.subrange(head.len() as int, a.len() - tail.len()) =~= id);
    assert(b.subrange(head.len() as int, b.len() - tail.len()) =~= other);
}

/// A manifest that is no object is passed on as it is, and an object keeps every
/// other member and stays an object.
pub proof fn law_rewriting_touches_nothing_else(body: JsonView, id: Seq<char>)
    ensures
        is_manifest_here(body, api::with_frames_endpoint(body, id), id),
{
    if let JsonView::Object(m) = body {
        let v = JsonView::Text(api::frames_endpoint(id));
        assert(m.insert("framesEndpoint"@, v).remove("framesEndpoint"@) =~= m.remove(
            "framesEndpoint"@,
        ));
    }
}

/// The clips are listed as Shadow lists them, and where it does not, the caller
/// is told why, always with status 200.
pub proof fn law_clips_are_listed(env: ShadowEnv, event: Event<()>, res: Step)
    requires
        api::lists_clips(env, event, res),
    ensures
        match event {
            Event::Request(_) => asks_shadow(res, env, Method::Get, "/clips"@, None),
            Event::Shadow(reply) => success_came_through(reply, 200, Some(200), 200, res),
        },
{
    lemma_reaches(env);
    if let Event::Shadow(reply) = event {
        lemma_success_came_through(reply, 200, Some(200), 200, res);
    }
}

/// The sources are listed as Shadow lists them, and where it does not, the
/// caller is told why, always with status 200.
pub proof fn law_sources_are_listed(env: ShadowEnv, event: Event<()>, res: Step)
    requires
        api::lists_sources(env, event, res),
    ensures
        match event {
            Event::Request(_) => asks_shadow(res, env, Method::Get, "/clips/sources"@, None),
            Event::Shadow(reply) => success_came_through(reply, 200, Some(200), 200, res),
        },
{
    lemma_reaches(env);
    if let Event::Shadow(reply) = event {
        lemma_success_came_through(reply, 200, Some(200), 200, res);
    }
}

/// Recent activity is asked for by whole minutes, from one to fifteen and three
/// by default, and given as Shadow gives it.
pub proof fn law_activity_is_given(
    env: ShadowEnv,
    event: Event<RecentActivityQuery>,
    res: Step,
)
    requires
        api::gets_activity(env, event, res),
    ensures
        match event {
            Event::Request(query) => exists|digits: Seq<char>|
                {
                    &&& #[trigger] sidecar::all_digits(digits)
                    &&& sidecar::number(digits) == (match query.minutes {
                        None => 3nat,
                        Some(0) => 1nat,
                        Some(m) => if m > 15 {
                            15nat
                        } else {
                            m as nat
                        },
                    })
                    &&& asks_shadow(
                        res,
                        env,
                        Method::Get,
                        "/activity/recent?minutes="@ + digits,
                        None,
                    )
                },
            Event::Shadow(reply) => success_came_through(reply, 503, None, 502, res),
        },
{
    lemma_reaches(env);
    match event {
        Event::Request(query) => {
            let digits = text::decimal(query.clamped_minutes() as nat);
            sidecar::law_numbers_read_back(query.clamped_minutes() as nat);
            assert(sidecar::all_digits(digits));
        },
        Event::Shadow(reply) => {
            lemma_success_came_through(reply, 503, None, 502, res);
        },
    }
}

/// A clip is started with what the caller sends, and the answer of Shadow comes
/// through.
pub proof fn law_clip_is_started(env: ShadowEnv, event: Event<Value>, res: Step)
    requires
        api::starts_clip(env, event, res),
    ensures
        match event {
            Event::Request(body) => asks_shadow(
                res,
                env,
                Method::Post,
                "/clips/start"@,
                Some(body),
            ),
            Event::Shadow(reply) => came_through(reply, None, false, 502, res),
        },
{
    lemma_reaches(env);
    if let Event::Shadow(reply) = event {
        lemma_came_through(reply, None, false, res);
    }
}

/// Whether `id` is one that leads to a clip: some characters, no slash, and no
/// two dots in a row.
pub open spec fn leads_to_a_clip(id: Seq<char>) -> bool {
    &&& id.len() > 0
    &&& forall|i: int| 0 <= i < id.len() ==> #[trigger] id[i] != '/'
    &&& forall|i: int| 0 < i < id.len() ==> !(#[trigger] id[i] == '.' && id[i - 1] == '.')
}

proof fn lemma_leads_to_a_clip(id: Seq<char>)
    ensures
        api::safe_id(id) <==> leads_to_a_clip(id),
{
    if api::safe_id(id) {
        assert forall|i: int| 0 <= i < id.len() implies #[trigger] id[i] != '/' by {
            assert(id.contains(id[i]));
        }
        assert forall|i: int| 0 < i < id.len() implies !(#[trigger] id[i] == '.' && id[i - 1]
            == '.') by {
            if id[i] == '.' && id[i - 1] == '.' {
                assert(id[i - 1 + 1] == '.');
            }
        }
    }
    if leads_to_a_clip(id) && text::has_double(id, '.') {
        let i = choose|i: int| 0 <= i < id.len() - 1 && #[trigger] id[i] == '.' && id[i + 1] == '.';
        assert(!(id[i + 1] == '.' && id[i + 1 - 1] == '.'));
    }
}

/// An id that leads to no clip is refused and nothing is sent. Otherwise the
/// clip is finished by its whole id, the manifest comes through with its frames
/// here, and a clip that Shadow finished is filed.
pub proof fn law_clip_is_stopped(env: ShadowEnv, id: Seq<char>, event: Event<()>, res: Step)
    requires
        api::stops_clip(env, id, event, res),
    ensures
        if !leads_to_a_clip(id) {
            tells_error(res, 400, "invalid clip id"@)
        } else {
            match event {
                Event::Request(_) => asks_shadow(
                    res,
                    env,
                    Method::Post,
                    "/clips/"@ + id + "/stop"@,
                    None,
                ),
                Event::Shadow(reply) => came_through(reply, Some(id), true, 502, res),
            }
        },
{
    lemma_leads_to_a_clip(id);
    lemma_reaches(env);
    if let Event::Shadow(reply) = event {
        if api::safe_id(id) {
            lemma_came_through(reply, Some(id), true, res);
        }
    }
}

/// A clip is paused by its whole id, and the answer of Shadow comes through.
pub proof fn law_clip_is_paused(env: ShadowEnv, id: Seq<char>, event: Event<()>, res: Step)
    requires
        api::pauses_clip(env, id, event, res),
    ensures
        if !leads_to_a_clip(id) {
            tells_error(res, 400, "invalid clip id"@)
        } else {
            match event {
                Event::Request(_) => asks_shadow(
                    res,
                    env,
                    Method::Post,
                    "/clips/"@ + id + "/pause"@,
                    None,
                ),
                Event::Shadow(reply) => came_through(reply, None, false, 502, res),
            }
        },
{
    lemma_leads_to_a_clip(id);
    lemma_reaches(env);
    if let Event::Shadow(reply) = event {
        if api::safe_id(id) {
            lemma_came_through(reply, None, false, res);
        }
    }
}

/// A clip is resumed by its whole id, and the answer of Shadow comes through.
pub proof fn law_clip_is_resumed(env: ShadowEnv, id: Seq<char>, event: Event<()>, res: Step)
    requires
        api::resumes_clip(env, id, event, res),
    ensures
        if !leads_to_a_clip(id) {
            tells_error(res, 400, "invalid clip id"@)
        } else {
            match event {
                Event::Request(_) => asks_shadow(
                    res,
                    env,
                    Method::Post,
                    "/clips/"@ + id + "/resume"@,
                    None,
                ),
                Event::Shadow(reply) => came_through(reply, None, false, 502, res),
            }
        },
{
    lemma_leads_to_a_clip(id);
    lemma_reaches(env);
    if let Event::Shadow(reply) = event {
        if api::safe_id(id) {
            lemma_came_through(reply, None, false, res);
        }
    }
}

/// The manifest of a clip is asked for by its whole id, and comes through with
/// its frames here. Reading it files nothing.
pub proof fn law_context_is_given(env: ShadowEnv, id: Seq<char>, event: Event<()>, res: Step)
    requires
        api::gets_context(env, id, event, res),
    ensures
        if !leads_to_a_clip(id) {
            tells_error(res, 400, "invalid clip id"@)
        } else {
            match event {
                Event::Request(_) => asks_shadow(
                    res,
                    env,
                    Method::Get,
                    "/clips/"@ + id + "/context"@,
                    None,
                ),
                Event::Shadow(reply) => came_through(reply, Some(id), false, 502, res),
            }
        },
{
    lemma_leads_to_a_clip(id);
    lemma_reaches(env);
    if let Event::Shadow(reply) = event {
        if api::safe_id(id) {
            lemma_came_through(reply, Some(id), false, res);
        }
    }
}

/// Diagnostics are posted to their clip as the caller sends them, and the answer
/// of Shadow comes through.
pub proof fn law_diagnostics_are_posted(
    env: ShadowEnv,
    id: Seq<char>,
    event: Event<Value>,
    res: Step,
)
    requires
        api::posts_diagnostics(env, id, event, res),
    ensures
        if !leads_to_a_clip(id) {
            tells_error(res, 400, "invalid clip id"@)
        } else {
            match event {
                Event::Request(body) => asks_shadow(
                    res,
                    env,
                    Method::Post,
                    "/clips/"@ + id + "/diagnostics"@,
                    Some(body),
                ),
                Event::Shadow(reply) => came_through(reply, None, false, 502, res),
            }
        },
{
    lemma_leads_to_a_clip(id);
    lemma_reaches(env);
    if let Event::Shadow(reply) = event {
        if api::safe_id(id) {
            lemma_came_through(reply, None, false, res);
        }
    }
}

proof fn lemma_reaches(env: ShadowEnv)
    ensures
        forall|request: ShadowRequest, method: Method, path: Seq<char>| #[trigger]
            request.asks(env, method, path) ==> reaches(
                request,
                env,
                method,
                path,
                request.timeout_secs,
            ),
{
    shadow::law_shadow_is_where_the_environment_says(env);
    shadow::law_token_is_the_bearer(env);
}

/// Whether the content of a success came through to the caller: all its bytes,
/// under the type that Shadow gives it or under `default_type`. An error status
/// of Shadow is passed on, and any other failure is one of the way there.
pub open spec fn content_came_through(
    reply: BytesReply,
    default_type: Seq<char>,
    res: BytesStep,
) -> bool {
    match reply {
        BytesReply::Failed => res == BytesStep::Done(BytesAnswer::Status(502)),
        BytesReply::Head { status } => if 200 <= status < 300 {
            res is ReadBytes
        } else {
            res == BytesStep::Done(BytesAnswer::Status(error_status(status, None)))
        },
        BytesReply::Bytes { status, content_type, bytes } => if 200 <= status < 300 {
            &&& res matches BytesStep::Done(BytesAnswer::Content {
                content_type: sent_type,
                bytes: sent,
            })
            &&& content_type matches Some(t) ==> sent_type@ == t@
            &&& content_type is None ==> sent_type@ == default_type
            &&& sent@ == bytes@
        } else {
            res == BytesStep::Done(BytesAnswer::Status(error_status(status, None)))
        },
        BytesReply::Broken { status } => if 200 <= status < 300 {
            res == BytesStep::Done(BytesAnswer::Status(502))
        } else {
            res == BytesStep::Done(BytesAnswer::Status(error_status(status, None)))
        },
    }
}

/// A frame is asked for by the whole id of its clip and its time, and comes
/// through as Shadow gives it.
pub proof fn law_frame_is_given(
    env: ShadowEnv,
    id: Seq<char>,
    event: BytesEvent<FrameQuery>,
    res: BytesStep,
)
    requires
        api::gets_frame(env, id, event, res),
    ensures
        if !leads_to_a_clip(id) {
            res == BytesStep::Done(BytesAnswer::Status(400))
        } else {
            match event {
                BytesEvent::Request(query) => {
                    &&& res matches BytesStep::Send(request)
                    &&& reaches(request, env, Method::Get, "/clips/"@ + id + "/frame"@, 15)
                    &&& request.query matches Some(parameter)
                    &&& parameter.0@ == "atMs"@
                    &&& parameter.1 == query.at_ms
                    &&& request.body is None
                },
                BytesEvent::Shadow(reply) => content_came_through(reply, "image/jpeg"@, res),
            }
        },
{
    lemma_leads_to_a_clip(id);
    lemma_reaches(env);
}

/// A video is asked for by the whole id of its clip, and comes through as Shadow
/// gives it.
pub proof fn law_file_is_given(
    env: ShadowEnv,
    id: Seq<char>,
    event: BytesEvent<()>,
    res: BytesStep,
)
    requires
        api::gets_file(env, id, event, res),
    ensures
        if !leads_to_a_clip(id) {
            res == BytesStep::Done(BytesAnswer::Status(400))
        } else {
            match event {
                BytesEvent::Request(_) => {
                    &&& res matches BytesStep::Send(request)
                    &&& reaches(request, env, Method::Get, "/clips/"@ + id + "/file"@, 15)
                    &&& request.query is None
                    &&& request.body is None
                },
                BytesEvent::Shadow(reply) => content_came_through(reply, "video/mp4"@, res),
            }
        },
{
    lemma_leads_to_a_clip(id);
    lemma_reaches(env);
}

/// The string under `key`, if `doc` is an object that has one there.
pub open spec fn text_at(doc: JsonView, key: Seq<char>) -> Option<Seq<char>> {
    match doc {
        JsonView::Object(m) => if m.contains_key(key) {
            match m[key] {
                JsonView::Text(s) => Some(s),
                _ => None,
            }
        } else {
            None
        },
        _ => None,
    }
}

/// The number under `key` that is not negative, or zero where there is none.
pub open spec fn number_at(doc: JsonView, key: Seq<char>) -> nat {
    match doc {
        JsonView::Object(m) => if m.contains_key(key) {
            match m[key] {
                JsonView::Unsigned(n) => n,
                _ => 0,
            }
        } else {
            0
        },
        _ => 0,
    }
}

/// Whether `v` is the number `n`, or `null` where there is none.
pub open spec fn is_number(v: JsonView, n: Option<u64>) -> bool {
    match n {
        Some(x) => v == JsonView::Unsigned(x as nat),
        None => v == JsonView::Null,
    }
}

/// Whether `v` is `raw` without the white space around it, or `default` where
/// there is nothing but that.
pub open spec fn is_choice(v: JsonView, raw: Option<String>, default: Seq<char>) -> bool {
    match raw {
        Some(s) => if text::is_blank(s@) {
            v == JsonView::Text(default)
        } else {
            v == JsonView::Text(text::trimmed(s@))
        },
        None => v == JsonView::Text(default),
    }
}

/// Whether `v` is the text of the path `bytes`. Where they are UTF-8 it encodes
/// to just these bytes.
pub open spec fn is_path(v: JsonView, bytes: Seq<u8>) -> bool {
    &&& v matches JsonView::Text(s)
    &&& valid_utf8(bytes) ==> encode_utf8(s) == bytes
    &&& !valid_utf8(bytes) ==> s == ingest::lossy(bytes)
}

/// Whether `v` is the caption `cue` with its text and its times, and nothing
/// else.
pub open spec fn is_cue(v: JsonView, cue: CaptionCue) -> bool {
    &&& v matches JsonView::Object(c)
    &&& forall|key: Seq<char>| #[trigger]
        c.contains_key(key) <==> key == "startMs"@ || key == "endMs"@ || key == "text"@
    &&& c["startMs"@] == JsonView::Unsigned(cue.start_ms as nat)
    &&& c["endMs"@] == JsonView::Unsigned(cue.end_ms as nat)
    &&& c["text"@] == JsonView::Text(cue.text@)
}

/// A caption is sent with the time it starts, the time it ends and its text,
/// each as it is.
pub proof fn law_cue_is_sent_whole(cue: CaptionCue)
    ensures
        is_cue(ingest::cue_json(cue), cue),
{
    reveal_strlit("startMs");
    reveal_strlit("endMs");
    reveal_strlit("text");
    assert("startMs"@.len() == 7 && "endMs"@.len() == 5 && "text"@.len() == 4);
}

/// A copy of a caption is sent as the caption itself is.
pub proof fn law_copied_cues_are_sent_alike(cue: CaptionCue, copy: CaptionCue)
    requires
        copy.same(cue),
    ensures
        ingest::cue_json(copy) == ingest::cue_json(cue),
{
}

/// Whether `res` hands a video over to Shadow, as the object with the members
/// `m`: those of an ingest and no others, with the choices of the caller and of
/// the environment.
pub open spec fn hands_over(
    res: IngestStep,
    env: IngestEnv,
    body: IngestBody,
    m: Map<Seq<char>, JsonView>,
) -> bool {
    &&& res matches IngestStep::Proxy(step)
    &&& step matches Step::Send(request)
    &&& reaches(request, env.shadow, Method::Post, "/clips/ingest"@, 600)
    &&& request.query is None
    &&& request.body matches Some(sent)
    &&& json::json_of(sent) == JsonView::Object(m)
    &&& forall|key: Seq<char>| #[trigger]
        m.contains_key(key) <==> {
            ||| key == "videoPath"@
            ||| key == "captions"@
            ||| key == "captionSegments"@
            ||| key == "detail"@
            ||| key == "start"@
            ||| key == "end"@
            ||| key == "sttEngine"@
        }
    &&& is_choice(m["detail"@], body.detail, "balanced"@)
    &&& is_choice(m["sttEngine"@], env.stt_engine, "gateway"@)
}

proof fn lemma_hands_over(
    res: IngestStep,
    env: IngestEnv,
    body: IngestBody,
    handover: ingest::Handover,
) -> (m: Map<Seq<char>, JsonView>)
    requires
        res.hands_over(env.shadow, ingest::payload_json(env, body, handover)),
    ensures
        hands_over(res, env, body, m),
        m["videoPath"@] == JsonView::Text(handover.video),
        handover.captions matches Some(s) ==> m["captions"@] == JsonView::Text(s),
        handover.captions is None ==> m["captions"@] == JsonView::Null,
        m["captionSegments"@] == JsonView::Array(handover.cues),
        is_number(m["start"@], handover.start),
        is_number(m["end"@], handover.end),
{
    let m = ingest::payload_json(env, body, handover)->Object_0;
    lemma_reaches(env.shadow);
    ingest::law_payload_keeps_every_part(env, body, handover);
    reveal_strlit("videoPath");
    reveal_strlit("captions");
    reveal_strlit("captionSegments");
    reveal_strlit("detail");
    reveal_strlit("start");
    reveal_strlit("end");
    reveal_strlit("sttEngine");
    assert("videoPath"@.len() == 9 && "captions"@.len() == 8 && "captionSegments"@.len() == 15);
    assert("detail"@.len() == 6 && "start"@.len() == 5 && "end"@.len() == 3);
    assert("sttEngine"@.len() == 9 && "videoPath"@[0] != "sttEngine"@[0]);
    if let Some(d) = body.detail {
        text::law_blank_counts_as_none(d@);
    }
    if let Some(e) = env.stt_engine {
        text::law_blank_counts_as_none(e@);
    }
    m
}

proof fn lemma_path_text(bytes: Seq<u8>)
    ensures
        is_path(JsonView::Text(ingest::path_text(bytes)), bytes),
{
    if valid_utf8(bytes) {
        decode_utf8_encode_utf8(bytes);
    }
}

/// A downloaded video is handed over with its path, its captions, and every
/// timed caption in its place. The bounds of the caller go with it, unless both
/// were given and the download was trimmed.
pub proof fn law_downloaded_video_is_handed_over(
    env: IngestEnv,
    body: IngestBody,
    clip: DownloadedClip,
    res: IngestStep,
) -> (m: Map<Seq<char>, JsonView>)
    requires
        !text::is_blank(body.source@),
        ingest::goes_on(env, body, IngestEvent::Downloaded(clip), res),
    ensures
        hands_over(res, env, body, m),
        is_path(m["videoPath"@], clip.video@),
        clip.captions matches Some(s) ==> m["captions"@] == JsonView::Text(s@),
        clip.captions is None ==> m["captions"@] == JsonView::Null,
        m["captionSegments"@] matches JsonView::Array(items) && items.len()
            == clip.caption_segments@.len() && forall|i: int|
            0 <= i < items.len() ==> is_cue(#[trigger] items[i], clip.caption_segments@[i]),
        body.start is Some && body.end is Some ==> m["start"@] == JsonView::Null && m["end"@]
            == JsonView::Null,
        !(body.start is Some && body.end is Some) ==> is_number(m["start"@], body.start)
            && is_number(m["end"@], body.end),
{
    text::law_blank_counts_as_none(body.source@);
    let handover = ingest::Handover {
        video: ingest::path_text(clip.video@),
        captions: text::string_of(clip.captions),
        cues: ingest::cues_json(clip.caption_segments@),
        start: body.forwarded_bounds().0,
        end: body.forwarded_bounds().1,
    };
    let m = lemma_hands_over(res, env, body, handover);
    lemma_path_text(clip.video@);
    assert forall|i: int| 0 <= i < handover.cues.len() implies is_cue(
        #[trigger] handover.cues[i],
        clip.caption_segments@[i],
    ) by {
        law_cue_is_sent_whole(clip.caption_segments@[i]);
    }
    m
}

/// A local video is handed over with its path and without captions, and with
/// each bound of the caller, whether or not the other is given. That happens
/// exactly when it is a file, lies in a folder that allows it, and is a video.
pub proof fn law_local_video_is_handed_over(
    env: IngestEnv,
    body: IngestBody,
    path: Vec<u8>,
    is_file: bool,
    bases: Vec<Vec<u8>>,
    res: IngestStep,
) -> (m: Map<Seq<char>, JsonView>)
    requires
        !text::is_blank(body.source@),
        ingest::goes_on(env, body, IngestEvent::Found { path, is_file, bases }, res),
    ensures
        (res matches IngestStep::Proxy(step) && step is Send) <==> is_file && local::is_video(
            path@,
        ) && exists|i: int| 0 <= i < bases@.len() && local::within(path@, (#[trigger] bases@[i])@),
        (res matches IngestStep::Proxy(step) && step is Send) ==> {
            &&& hands_over(res, env, body, m)
            &&& is_path(m["videoPath"@], path@)
            &&& m["captions"@] == JsonView::Null
            &&& m["captionSegments"@] matches JsonView::Array(items)
            &&& items.len() == 0
            &&& is_number(m["start"@], body.start)
            &&& is_number(m["end"@], body.end)
        },
{
    text::law_blank_counts_as_none(body.source@);
    let folders = text::bytes_of(bases@);
    if local::allowed(path@, folders) {
        let i = choose|i: int| 0 <= i < folders.len() && #[trigger] local::within(path@, folders[i]);
        assert(local::within(path@, bases@[i]@));
    }
    if exists|i: int| 0 <= i < bases@.len() && local::within(path@, (#[trigger] bases@[i])@) {
        let i = choose|i: int| 0 <= i < bases@.len() && local::within(path@, (#[trigger] bases@[i])@);
        assert(local::within(path@, folders[i]));
    }
    if is_file && local::allowed(path@, folders) && local::is_video(path@) {
        lemma_path_text(path@);
        lemma_hands_over(
            res,
            env,
            body,
            ingest::Handover {
                video: ingest::path_text(path@),
                captions: None,
                cues: Seq::empty(),
                start: body.start,
                end: body.end,
            },
        )
    } else {
        Map::empty()
    }
}

/// Over both steps of the ingest of a URL, each bound that the caller gives
/// reaches the download or Shadow, and not both; one that is not given reaches
/// neither.
pub proof fn law_each_bound_reaches_one_of_the_two(
    env: IngestEnv,
    body: IngestBody,
    tmp_dir: Vec<u8>,
    download: IngestStep,
    clip: DownloadedClip,
    res: IngestStep,
) -> (m: Map<Seq<char>, JsonView>)
    requires
        !text::is_blank(body.source@),
        ingest::goes_on(env, body, IngestEvent::Downloader { tmp_dir }, download),
        ingest::goes_on(env, body, IngestEvent::Downloaded(clip), res),
    ensures
        hands_over(res, env, body, m),
        download matches IngestStep::Download { start, end, .. } && {
            &&& start == body.start && m["start"@] == JsonView::Null || start is None && is_number(
                m["start"@],
                body.start,
            )
            &&& end == body.end && m["end"@] == JsonView::Null || end is None && is_number(
                m["end"@],
                body.end,
            )
            &&& start is Some <==> end is Some
        },
{
    text::law_blank_counts_as_none(body.source@);
    law_downloaded_video_is_handed_over(env, body, clip, res)
}

/// Whether `res` refuses an ingest, with `status`, for `message`.
pub open spec fn ingest_tells(res: IngestStep, status: u16, message: Seq<char>) -> bool {
    res matches IngestStep::Proxy(step) && tells_error(step, status, message)
}

/// A blank source is refused, whatever else there is. A URL goes to the
/// downloader, and anything else is looked up, with the media folders of the
/// user and the extra ones.
pub proof fn law_ingest_begins(env: IngestEnv, body: IngestBody, res: IngestStep)
    requires
        ingest::goes_on(env, body, IngestEvent::Request, res),
    ensures
        ({
            let source = text::trimmed(body.source@);
            if text::is_blank(body.source@) {
                ingest_tells(res, 400, "missing `source` (a video URL or local file path)"@)
            } else if "http://"@.is_prefix_of(source) || "https://"@.is_prefix_of(source) {
                res is EnsureDownloader
            } else {
                &&& res matches IngestStep::Locate { path, bases }
                &&& path@ == source
                &&& text::bytes_of(bases@) == local::media_folders(paths::path_of(env.home))
                    + local::extra_folders(paths::path_of(env.allowed_dirs))
                &&& env.home matches Some(home) ==> {
                    &&& bases@.len() >= 3
                    &&& bases@[0]@ == paths::joined(home@, encode_utf8("Movies"@))
                    &&& bases@[1]@ == paths::joined(home@, encode_utf8("Downloads"@))
                    &&& bases@[2]@ == paths::joined(home@, encode_utf8("Desktop"@))
                }
            }
        }),
{
    text::law_blank_counts_as_none(body.source@);
    if let IngestStep::Locate { path, bases } = res {
        if env.home is Some {
            let all = text::bytes_of(bases@);
            let media = local::media_folders(paths::path_of(env.home));
            assert(all == media + local::extra_folders(paths::path_of(env.allowed_dirs)));
            assert(media.len() == 3 && bases@.len() == all.len());
            assert(all[0] == media[0] && all[1] == media[1] && all[2] == media[2]);
            assert(all[0] == bases@[0]@ && all[1] == bases@[1]@ && all[2] == bases@[2]@);
        }
    }
}

/// The download is asked for by the whole URL, into a directory of its own right
/// under the one for them.
pub proof fn law_download_is_asked_for(
    env: IngestEnv,
    body: IngestBody,
    tmp_dir: Vec<u8>,
    res: IngestStep,
)
    requires
        !text::is_blank(body.source@),
        ingest::goes_on(env, body, IngestEvent::Downloader { tmp_dir }, res),
    ensures
        res matches IngestStep::Download { url, work_dir, .. } && {
            &&& url@ == text::trimmed(body.source@)
            &&& local::within(work_dir@, tmp_dir@)
            &&& local::names(work_dir@).len() == local::names(tmp_dir@).len() + 1
            &&& encode_utf8("clip-ingest-"@).is_prefix_of(local::names(work_dir@).last())
        },
{
    text::law_blank_counts_as_none(body.source@);
    if let IngestStep::Download { work_dir, .. } = res {
        let id = choose|id: Seq<char>| #[trigger]
            ingest::is_random_id(id) && work_dir@ == ingest::work_dir_in(tmp_dir@, id);
        let name = encode_utf8("clip-ingest-"@ + id);
        ingest::lemma_work_dir_name(id);
        local::law_join_adds_one_name(tmp_dir@, name);
        text::lemma_encode_both("clip-ingest-"@, id);
        assert(encode_utf8("clip-ingest-"@).is_prefix_of(name));
    }
}

/// What cannot be ingested is refused, and the caller is told which step failed
/// and of what: the error of that step in full, or the source as it was given.
pub proof fn law_ingest_is_refused(
    env: IngestEnv,
    body: IngestBody,
    event: IngestEvent,
    res: IngestStep,
)
    requires
        ingest::goes_on(env, body, event, res),
    ensures
        ({
            let source = text::trimmed(body.source@);
            if text::is_blank(body.source@) {
                ingest_tells(res, 400, "missing `source` (a video URL or local file path)"@)
            } else {
                match event {
                    IngestEvent::NoDownloader(e) => ingest_tells(
                        res,
                        502,
                        "could not install the yt-dlp downloader: "@ + e@,
                    ),
                    IngestEvent::NotDownloaded(e) => ingest_tells(
                        res,
                        502,
                        "downloading the video failed: "@ + e@,
                    ),
                    IngestEvent::NotFound => ingest_tells(
                        res,
                        400,
                        "local file not found: "@ + source,
                    ),
                    IngestEvent::Found { path, is_file, bases } => {
                        let folders = text::bytes_of(bases@);
                        if !is_file {
                            ingest_tells(res, 400, "not a file: "@ + source)
                        } else if !local::allowed(path@, folders) {
                            ingest_tells(
                                res,
                                400,
                                "local file is outside the allowed ingest folders (Movies, Downloads, Desktop, or RYU_CLIPS_ALLOWED_DIRS)"@,
                            )
                        } else {
                            !local::is_video(path@) ==> ingest_tells(
                                res,
                                400,
                                "unsupported video type (expected .mp4, .mov, .mkv, or .webm)"@,
                            )
                        }
                    },
                    _ => true,
                }
            }
        }),
{
    text::law_blank_counts_as_none(body.source@);
}

/// What Shadow makes of the video is the answer: its status and its body, with
/// the frames here where the clip has an id, and a clip that it made is filed.
/// Without JSON the caller is told why.
pub proof fn law_ingest_answers_with_the_clip(
    env: IngestEnv,
    body: IngestBody,
    reply: ShadowReply,
    res: IngestStep,
)
    requires
        !text::is_blank(body.source@),
        ingest::goes_on(env, body, IngestEvent::Shadow(reply), res),
    ensures
        res matches IngestStep::Proxy(step) && match reply {
            ShadowReply::Json(_, made) => came_through(
                reply,
                text_at(json::json_of(made), "id"@),
                true,
                503,
                step,
            ),
            _ => came_through(reply, None, true, 503, step),
        },
{
    text::law_blank_counts_as_none(body.source@);
    if let IngestStep::Proxy(step) = res {
        match reply {
            ShadowReply::Failed(_) => {},
            ShadowReply::Json(_, made) => {
                lemma_came_through(reply, text_at(json::json_of(made), "id"@), true, step);
            },
            _ => {
                lemma_came_through(reply, None, true, step);
            },
        }
    }
}

/// The title of a clip is the one in its manifest, in full, and `Clip` only
/// where that is missing or blank.
pub proof fn law_title_is_that_of_the_manifest(bundle: JsonView)
    ensures
        match text_at(bundle, "title"@) {
            Some(title) => if text::is_blank(title) {
                filing::clip_title(bundle) == "Clip"@
            } else {
                filing::clip_title(bundle) == title
            },
            None => filing::clip_title(bundle) == "Clip"@,
        },
{
    if let Some(title) = text_at(bundle, "title"@) {
        text::law_blank_counts_as_none(title);
    }
}

/// The heading gives the title in full, and a duration that reads back: the
/// minutes and the seconds make up its whole seconds.
pub proof fn law_heading_reads_back(title: Seq<char>, duration_ms: nat) -> (time: (
    Seq<char>,
    Seq<char>,
))
    ensures
        filing::heading(title, duration_ms) == "# "@ + title + "\n\n- Duration: "@ + time.0 + ":"@
            + time.1 + "\n"@,
        sidecar::all_digits(time.0),
        sidecar::all_digits(time.1),
        time.0.len() >= 2,
        time.1.len() == 2,
        sidecar::number(time.1) < 60,
        sidecar::number(time.0) * 60 + sidecar::number(time.1) == duration_ms / 1000,
{
    let secs = duration_ms / 1000;
    sidecar::law_two_digits_read_back(secs / 60);
    sidecar::law_two_digits_read_back(secs % 60);
    (text::two_digits(secs / 60), text::two_digits(secs % 60))
}

/// A warning on what was looked at is in the summary in full, and nothing is
/// where there is none.
pub proof fn law_coverage_gives_the_warning(bundle: JsonView)
    ensures
        match text_at(bundle, "scanWarning"@) {
            Some(warning) => filing::coverage(bundle) == "- Coverage: "@ + warning + "\n"@,
            None => filing::coverage(bundle).len() == 0,
        },
{
}

/// The line of a moment gives its whole second, in digits that read back, and
/// its reason in full.
pub proof fn law_moment_line_reads_back(moment: JsonView) -> (line: (Seq<char>, Seq<char>))
    ensures
        filing::moment_line(moment) == "- "@ + line.0 + "s: "@ + line.1 + "\n"@,
        sidecar::all_digits(line.0),
        line.0.len() >= 2,
        sidecar::number(line.0) == number_at(moment, "atMs"@) / 1000,
        match text_at(moment, "reason"@) {
            Some(reason) => line.1 == reason,
            None => line.1.len() == 0,
        },
{
    sidecar::law_two_digits_read_back(number_at(moment, "atMs"@) / 1000);
    (
        text::two_digits(number_at(moment, "atMs"@) / 1000),
        match text_at(moment, "reason"@) {
            Some(reason) => reason,
            None => Seq::empty(),
        },
    )
}

/// The items under `key`, or none where `doc` has no array there.
pub open spec fn items_at(doc: JsonView, key: Seq<char>) -> Seq<JsonView> {
    match doc {
        JsonView::Object(m) => if m.contains_key(key) {
            match m[key] {
                JsonView::Array(items) => items,
                _ => Seq::empty(),
            }
        } else {
            Seq::empty()
        },
        _ => Seq::empty(),
    }
}

/// The highlights are the lines of all the moments that the manifest recommends,
/// and there are none where it recommends no moment.
pub proof fn law_highlights_have_every_moment(bundle: JsonView)
    ensures
        items_at(bundle, "recommendedMoments"@).len() > 0 ==> filing::highlights(bundle)
            == "\n## Highlights\n"@ + filing::moment_lines(
            items_at(bundle, "recommendedMoments"@),
        ),
        items_at(bundle, "recommendedMoments"@).len() == 0 ==> filing::highlights(bundle).len()
            == 0,
        filing::moment_lines(Seq::empty()).len() == 0,
{
}

/// The summary is the heading, the coverage and the highlights, in this order,
/// and nothing else.
pub proof fn law_summary_has_all_its_parts(title: Seq<char>, duration_ms: nat, bundle: JsonView)
    ensures
        filing::heading(title, duration_ms).is_prefix_of(
            filing::summary_of(title, duration_ms, bundle),
        ),
        filing::highlights(bundle).is_suffix_of(filing::summary_of(title, duration_ms, bundle)),
        filing::summary_of(title, duration_ms, bundle).len() == filing::heading(
            title,
            duration_ms,
        ).len() + filing::coverage(bundle).len() + filing::highlights(bundle).len(),
        filing::summary_of(title, duration_ms, bundle).subrange(
            filing::heading(title, duration_ms).len() as int,
            (filing::heading(title, duration_ms).len() + filing::coverage(bundle).len()) as int,
        ) == filing::coverage(bundle),
{
    let h = filing::heading(title, duration_ms);
    let c = filing::coverage(bundle);
    let s = filing::summary_of(title, duration_ms, bundle);
    assert(s.subrange(h.len() as int, (h.len() + c.len()) as int) =~= c);
    assert(h.is_prefix_of(s));
    assert(filing::highlights(bundle).is_suffix_of(s));
}

/// Whether `res` stores the clip that `bundle` describes: under its title, with
/// the summary of its duration and manifest, and with the video `mp4`.
pub open spec fn stores_clip(bundle: JsonView, mp4: Option<Seq<u8>>, res: FilingStep) -> bool {
    &&& res matches FilingStep::Store { title, mp4: stored, summary }
    &&& match text_at(bundle, "title"@) {
        Some(given) => if text::is_blank(given) {
            title@ == "Clip"@
        } else {
            title@ == given
        },
        None => title@ == "Clip"@,
    }
    &&& summary@ == filing::summary_of(title@, number_at(bundle, "durationMs"@), bundle)
    &&& match mp4 {
        Some(bytes) => stored matches Some(kept) && kept@ == bytes,
        None => stored is None,
    }
}

/// A clip without an id is left. Any other is asked for by its whole id, and
/// stored with every byte of the video that Shadow sends with a success, or
/// without a video where it sends none.
pub proof fn law_clip_is_filed(
    env: ShadowEnv,
    bundle: JsonView,
    event: BytesEvent<()>,
    res: FilingStep,
)
    requires
        filing::files_clip(env, bundle, event, res),
    ensures
        match text_at(bundle, "id"@) {
            None => res is Skip,
            Some(id) => match event {
                BytesEvent::Request(_) => {
                    &&& res matches FilingStep::Send(request)
                    &&& reaches(request, env, Method::Get, "/clips/"@ + id + "/file"@, 15)
                    &&& request.query is None
                    &&& request.body is None
                },
                BytesEvent::Shadow(reply) => match reply {
                    BytesReply::Head { status } => if 200 <= status < 300 {
                        res is ReadBytes
                    } else {
                        stores_clip(bundle, None, res)
                    },
                    BytesReply::Bytes { status, bytes, .. } => if 200 <= status < 300 {
                        stores_clip(bundle, Some(bytes@), res)
                    } else {
                        stores_clip(bundle, None, res)
                    },
                    BytesReply::Broken { .. } => stores_clip(bundle, None, res),
                    BytesReply::Failed => stores_clip(bundle, None, res),
                },
            },
        },
{
    lemma_reaches(env);
    law_title_is_that_of_the_manifest(bundle);
}

} // verus!
