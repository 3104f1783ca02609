//! Ingest: a watched URL or a local video becomes a clip.
//!
//! A URL is downloaded first, and a local file is looked up and held against the
//! allowed folders. Shadow then makes the clip out of the video. [`ingest`] is
//! told what has happened and says what to do next, like the handlers of
//! [`crate::api`].
//!
//! A video is trimmed once. A URL with both bounds is trimmed by the download,
//! and Shadow is then given none; in every other case Shadow is given what
//! bounds there are.

use crate::api;
use crate::api::Step;
use crate::json;
use crate::local;
use crate::paths;
use crate::shadow;
use crate::shadow::{Method, ShadowEnv, ShadowReply, ShadowRequest};
use crate::text;
use crate::{CaptionCue, DownloadedClip};
use serde_json::Value;
use vstd::prelude::*;
use vstd::string::*;
use vstd::utf8::*;

verus! {

/// The body of `POST /api/clips/ingest`.
#[derive(Debug)]
pub struct IngestBody {
    /// A URL (`http` or `https`) to download, or the path of a local video.
    pub source: String,
    /// How much detail is wanted: `transcript`, `efficient`, `balanced` or
    /// `tokenBurner`.
    pub detail: Option<String>,
    /// Where the clip starts in the video, in milliseconds.
    pub start: Option<u64>,
    /// Where the clip ends in the video, in milliseconds.
    pub end: Option<u64>,
}

impl Default for IngestBody {
    fn default() -> (res: Self)
        ensures
            res.source@.len() == 0,
            res.detail is None,
            res.start is None,
            res.end is None,
    {
        IngestBody { source: String::new(), detail: None, start: None, end: None }
    }
}

/// What the environment says of ingests.
#[derive(Debug)]
pub struct IngestEnv {
    pub shadow: ShadowEnv,
    /// `RYU_CLIP_STT_ENGINE`.
    pub stt_engine: Option<String>,
    /// `HOME`, by its bytes.
    pub home: Option<Vec<u8>>,
    /// `RYU_CLIPS_ALLOWED_DIRS`, by its bytes.
    pub allowed_dirs: Option<Vec<u8>>,
}

/// What has happened.
#[derive(Debug)]
pub enum IngestEvent {
    /// The caller asked.
    Request,
    /// The downloader cannot be had, for this reason.
    NoDownloader(String),
    /// The downloader is there. Work directories go under `tmp_dir`.
    Downloader { tmp_dir: Vec<u8> },
    /// The download failed, for this reason.
    NotDownloaded(String),
    /// The video was downloaded.
    Downloaded(DownloadedClip),
    /// The local path leads nowhere.
    NotFound,
    /// The local path leads to `path`, which is a file or not. Of the folders
    /// that were asked for, `bases` are those that exist. All of these are as
    /// the file system resolves them.
    Found { path: Vec<u8>, is_file: bool, bases: Vec<Vec<u8>> },
    /// Shadow replied.
    Shadow(ShadowReply),
}

/// What to do next.
#[derive(Debug)]
pub enum IngestStep {
    /// See to it that the downloader is there.
    EnsureDownloader,
    /// Download `url` into `work_dir`, from `start` to `end` where both are
    /// given.
    Download { url: String, work_dir: Vec<u8>, start: Option<u64>, end: Option<u64> },
    /// Look up the file `path` and the folders `bases`.
    Locate { path: String, bases: Vec<Vec<u8>> },
    /// Go on as every handler does.
    Proxy(Step),
}

impl IngestStep {
    /// Whether this refuses the request with `status` and `message`.
    pub open spec fn refuses(self, status: u16, message: Seq<char>) -> bool {
        self matches IngestStep::Proxy(step) && step.answers(
            status,
            shadow::error_json(message),
            false,
        )
    }

    /// Whether this hands a video over to Shadow, with `payload`.
    pub open spec fn hands_over(self, env: ShadowEnv, payload: json::JsonView) -> bool {
        &&& self matches IngestStep::Proxy(step)
        &&& step matches Step::Send(request)
        &&& request.asks(env, Method::Post, "/clips/ingest"@)
        &&& request.query is None
        &&& request.body matches Some(body)
        &&& json::json_of(body) == payload
        &&& request.timeout_secs == shadow::INGEST_TIMEOUT_SECS
    }
}

fn refuse(status: u16, message: String) -> (res: IngestStep)
    ensures
        res.refuses(status, message@),
{
    IngestStep::Proxy(api::done(status, shadow::error_body(message)))
}

/// Whether `source` is a URL to download.
pub open spec fn is_url(source: Seq<char>) -> bool {
    "http://"@.is_prefix_of(source) || "https://"@.is_prefix_of(source)
}

fn source_is_url(source: &str) -> (res: bool)
    ensures
        res == is_url(source@),
{
    text::starts_with(source, "http://") || text::starts_with(source, "https://")
}

/// `raw` without its surrounding white space, or `default` when nothing is left.
pub open spec fn trimmed_or(raw: Option<Seq<char>>, default: Seq<char>) -> Seq<char> {
    match text::trimmed_or_none(raw) {
        Some(s) => s,
        None => default,
    }
}

fn trim_or(raw: &Option<String>, default: &str) -> (res: String)
    ensures
        res@ == trimmed_or(text::string_of(*raw), default@),
{
    let kept: Option<String> = match raw {
        Some(s) => text::trim_or_none(Some(s.as_str())),
        None => None,
    };
    match kept {
        Some(s) => s,
        None => default.to_owned(),
    }
}

/// The text that `String::from_utf8_lossy` reads from bytes.
pub uninterp spec fn lossy(bytes: Seq<u8>) -> Seq<char>;

/// `String::from_utf8_lossy`: the text that `bytes` encode. What is no UTF-8 in
/// them is replaced; bytes that are all UTF-8 are decoded as they stand.
#[verifier::external_body]
fn lossy_text(bytes: &[u8]) -> (res: String)
    ensures
        res@ == lossy(bytes@),
        valid_utf8(bytes@) ==> res@ == decode_utf8(bytes@),
{
    String::from_utf8_lossy(bytes).into_owned()
}

/// The text of the path `bytes`: what they encode, where they are UTF-8, and
/// otherwise that with replacements.
pub open spec fn path_text(bytes: Seq<u8>) -> Seq<char> {
    if valid_utf8(bytes) {
        decode_utf8(bytes)
    } else {
        lossy(bytes)
    }
}

/// Whether `c` is a hexadecimal digit in lower case.
pub open spec fn is_hex(c: char) -> bool {
    '0' <= c <= '9' || 'a' <= c <= 'f'
}

/// Whether `id` writes a random UUID without hyphens.
pub open spec fn is_random_id(id: Seq<char>) -> bool {
    &&& id.len() == 32
    &&& forall|i: int| 0 <= i < id.len() ==> is_hex(#[trigger] id[i])
    &&& id[12] == '4'
    &&& id[16] == '8' || id[16] == '9' || id[16] == 'a' || id[16] == 'b'
}

/// `uuid::Uuid::new_v4`, then `simple`, as text: a random UUID as 32 lower-case
/// hexadecimal digits, among them the version and the variant. Which one it is
/// rests on chance. Where the system has no randomness to give, the call does
/// not return.
#[verifier::external_body]
fn random_id() -> (res: String)
    ensures
        is_random_id(res@),
{
    uuid::Uuid::new_v4().simple().to_string()
}

/// The work directory of the ingest `id`, under `tmp_dir`.
pub open spec fn work_dir_in(tmp_dir: Seq<u8>, id: Seq<char>) -> Seq<u8> {
    paths::joined(tmp_dir, encode_utf8("clip-ingest-"@ + id))
}

/// The work directory of the ingest `id`, under `tmp_dir`.
pub fn work_dir(tmp_dir: &Vec<u8>, id: &str) -> (res: Vec<u8>)
    ensures
        res@ == work_dir_in(tmp_dir@, id@),
{
    let name: String = shadow::phrase("clip-ingest-", id);
    paths::join(tmp_dir.as_slice(), name.as_str())
}

/// A timed caption, as Shadow reads it.
pub open spec fn cue_json(cue: CaptionCue) -> json::JsonView {
    json::JsonView::Object(
        map![
            "startMs"@ => json::JsonView::Unsigned(cue.start_ms as nat),
            "endMs"@ => json::JsonView::Unsigned(cue.end_ms as nat),
            "text"@ => json::JsonView::Text(cue.text@),
        ],
    )
}

/// Timed captions, as Shadow reads them.
pub open spec fn cues_json(cues: Seq<CaptionCue>) -> Seq<json::JsonView> {
    Seq::new(cues.len(), |i: int| cue_json(cues[i]))
}

fn cue_value(cue: &CaptionCue) -> (res: Value)
    ensures
        json::json_of(res) == cue_json(*cue),
{
    let mut fields = serde_json::Map::new();
    fields.insert("startMs".to_owned(), json::unsigned_value(cue.start_ms));
    fields.insert("endMs".to_owned(), json::unsigned_value(cue.end_ms));
    fields.insert("text".to_owned(), json::text_value(cue.text.clone()));
    json::object_value(fields)
}

fn cue_values(cues: &Vec<CaptionCue>) -> (res: Vec<Value>)
    ensures
        json::jsons_of(res@) == cues_json(cues@),
{
    let mut res: Vec<Value> = Vec::new();
    let n: usize = cues.len();
    for i in 0..n
        invariant
            n == cues@.len(),
            res@.len() == i,
            forall|j: int| 0 <= j < i ==> json::json_of(#[trigger] res@[j]) == cue_json(cues@[j]),
    {
        res.push(cue_value(&cues[i]));
    }
    assert(json::jsons_of(res@) =~= cues_json(cues@));
    res
}

/// A video, with what Shadow is told of it.
pub ghost struct Handover {
    pub video: Seq<char>,
    pub captions: Option<Seq<char>>,
    pub cues: Seq<json::JsonView>,
    pub start: Option<u64>,
    pub end: Option<u64>,
}

/// What is sent to Shadow to make a clip.
pub open spec fn payload_json(
    env: IngestEnv,
    body: IngestBody,
    handover: Handover,
) -> json::JsonView {
    json::JsonView::Object(
        map![
            "videoPath"@ => json::JsonView::Text(handover.video),
            "captions"@ => json::text_or_null(handover.captions),
            "captionSegments"@ => json::JsonView::Array(handover.cues),
            "detail"@ => json::JsonView::Text(
                trimmed_or(text::string_of(body.detail), "balanced"@),
            ),
            "start"@ => json::unsigned_or_null(handover.start),
            "end"@ => json::unsigned_or_null(handover.end),
            "sttEngine"@ => json::JsonView::Text(
                trimmed_or(text::string_of(env.stt_engine), "gateway"@),
            ),
        ],
    )
}

fn hand_over(
    env: &IngestEnv,
    body: &IngestBody,
    video: String,
    captions: Option<String>,
    cues: Vec<Value>,
    start: Option<u64>,
    end: Option<u64>,
) -> (res: IngestStep)
    ensures
        res.hands_over(
            env.shadow,
            payload_json(
                *env,
                *body,
                (Handover {
                    video: video@,
                    captions: text::string_of(captions),
                    cues: json::jsons_of(cues@),
                    start,
                    end,
                }),
            ),
        ),
{
    let mut fields = serde_json::Map::new();
    fields.insert("videoPath".to_owned(), json::text_value(video));
    fields.insert("captions".to_owned(), json::optional_text(captions));
    fields.insert("captionSegments".to_owned(), json::array_value(cues));
    let detail: String = trim_or(&body.detail, "balanced");
    fields.insert("detail".to_owned(), json::text_value(detail));
    fields.insert("start".to_owned(), json::optional_unsigned(start));
    fields.insert("end".to_owned(), json::optional_unsigned(end));
    let stt_engine: String = trim_or(&env.stt_engine, "gateway");
    fields.insert("sttEngine".to_owned(), json::text_value(stt_engine));
    let mut request: ShadowRequest = shadow::plain_request(
        &env.shadow,
        Method::Post,
        "/clips/ingest",
    );
    request.body = Some(json::object_value(fields));
    request.timeout_secs = shadow::INGEST_TIMEOUT_SECS;
    IngestStep::Proxy(Step::Send(request))
}

impl IngestBody {
    /// What is to be ingested: the source without its surrounding white space.
    pub open spec fn wanted(self) -> Seq<char> {
        text::trimmed(self.source@)
    }

    /// The bounds for the download to trim at: both or none.
    pub open spec fn download_bounds(self) -> (Option<u64>, Option<u64>) {
        if self.start is Some && self.end is Some {
            (self.start, self.end)
        } else {
            (None, None)
        }
    }

    /// The bounds for Shadow to trim a downloaded video at: none where the
    /// download trimmed it.
    pub open spec fn forwarded_bounds(self) -> (Option<u64>, Option<u64>) {
        if self.start is Some && self.end is Some {
            (None, None)
        } else {
            (self.start, self.end)
        }
    }
}

/// How the ingest of a local file goes on, once it was looked up.
pub open spec fn ingests_local(
    env: IngestEnv,
    body: IngestBody,
    path: Seq<u8>,
    is_file: bool,
    bases: Seq<Seq<u8>>,
    res: IngestStep,
) -> bool {
    if !is_file {
        res.refuses(400, "not a file: "@ + body.wanted())
    } else if !local::allowed(path, bases) {
        res.refuses(
            400,
            "local file is outside the allowed ingest folders (Movies, Downloads, Desktop, or RYU_CLIPS_ALLOWED_DIRS)"@,
        )
    } else if !local::is_video(path) {
        res.refuses(400, "unsupported video type (expected .mp4, .mov, .mkv, or .webm)"@)
    } else {
        res.hands_over(
            env.shadow,
            payload_json(
                env,
                body,
                Handover {
                    video: path_text(path),
                    captions: None,
                    cues: Seq::empty(),
                    start: body.start,
                    end: body.end,
                },
            ),
        )
    }
}

fn ingest_local(
    env: &IngestEnv,
    body: &IngestBody,
    source: &str,
    path: Vec<u8>,
    is_file: bool,
    bases: Vec<Vec<u8>>,
) -> (res: IngestStep)
    requires
        source@ == body.wanted(),
    ensures
        ingests_local(*env, *body, path@, is_file, text::bytes_of(bases@), res),
{
    if !is_file {
        return refuse(400, shadow::phrase("not a file: ", source));
    }
    if !local::local_ingest_allowed(&path, &bases) {
        return refuse(
            400,
            "local file is outside the allowed ingest folders (Movies, Downloads, Desktop, or RYU_CLIPS_ALLOWED_DIRS)".to_owned(),
        );
    }
    if !local::video_extension_ok(&path) {
        return refuse(
            400,
            "unsupported video type (expected .mp4, .mov, .mkv, or .webm)".to_owned(),
        );
    }
    let cues: Vec<Value> = Vec::new();
    assert(json::jsons_of(cues@) =~= Seq::empty());
    hand_over(env, body, lossy_text(path.as_slice()), None, cues, body.start, body.end)
}

/// How the ingest of a URL goes on, once it was downloaded.
pub open spec fn ingests_download(
    env: IngestEnv,
    body: IngestBody,
    clip: DownloadedClip,
    res: IngestStep,
) -> bool {
    res.hands_over(
        env.shadow,
        payload_json(
            env,
            body,
            Handover {
                video: path_text(clip.video@),
                captions: text::string_of(clip.captions),
                cues: cues_json(clip.caption_segments@),
                start: body.forwarded_bounds().0,
                end: body.forwarded_bounds().1,
            },
        ),
    )
}

fn ingest_download(env: &IngestEnv, body: &IngestBody, clip: DownloadedClip) -> (res: IngestStep)
    ensures
        ingests_download(*env, *body, clip, res),
{
    let cues: Vec<Value> = cue_values(&clip.caption_segments);
    let video: String = lossy_text(clip.video.as_slice());
    if body.start.is_some() && body.end.is_some() {
        hand_over(env, body, video, clip.captions, cues, None, None)
    } else {
        hand_over(env, body, video, clip.captions, cues, body.start, body.end)
    }
}

/// How an ingest goes on, once Shadow replied. A clip that Shadow names has its
/// frames here, and one that it made is filed.
pub open spec fn ingested(reply: ShadowReply, res: IngestStep) -> bool {
    &&& res matches IngestStep::Proxy(step)
    &&& match reply {
        ShadowReply::Failed(e) => step.answers(
            503,
            shadow::unavailable_json(shadow::unreachable_reason(e@)),
            false,
        ),
        ShadowReply::Json(_, body) => api::relays(
            reply,
            json::json_of(body).text_member("id"@),
            true,
            step,
        ),
        _ => api::relays(reply, None, true, step),
    }
}

fn finish(reply: ShadowReply) -> (res: IngestStep)
    ensures
        ingested(reply, res),
{
    match reply {
        ShadowReply::Failed(e) => IngestStep::Proxy(
            api::done(
                503,
                shadow::unavailable(shadow::phrase("Shadow is not reachable: ", e.as_str())),
            ),
        ),
        ShadowReply::Json(code, body) => {
            let id: Option<String> = json::text_member(&body, "id");
            let frames_of: Option<&str> = match &id {
                Some(id) => Some(id.as_str()),
                None => None,
            };
            IngestStep::Proxy(api::relay(ShadowReply::Json(code, body), frames_of, true))
        },
        other => IngestStep::Proxy(api::relay(other, None, true)),
    }
}

/// How an ingest goes on after `event`.
pub open spec fn goes_on(
    env: IngestEnv,
    body: IngestBody,
    event: IngestEvent,
    res: IngestStep,
) -> bool {
    if body.wanted().len() == 0 {
        res.refuses(400, "missing `source` (a video URL or local file path)"@)
    } else {
        match event {
            IngestEvent::Request => if is_url(body.wanted()) {
                res is EnsureDownloader
            } else {
                &&& res matches IngestStep::Locate { path, bases }
                &&& path@ == body.wanted()
                &&& text::bytes_of(bases@) == local::media_folders(paths::path_of(env.home))
                    + local::extra_folders(paths::path_of(env.allowed_dirs))
            },
            IngestEvent::NoDownloader(e) => res.refuses(
                502,
                "could not install the yt-dlp downloader: "@ + e@,
            ),
            IngestEvent::Downloader { tmp_dir } => {
                &&& res matches IngestStep::Download { url, work_dir, start, end }
                &&& url@ == body.wanted()
                &&& exists|id: Seq<char>|
                    #[trigger] is_random_id(id) && work_dir@ == work_dir_in(tmp_dir@, id)
                &&& (start, end) == body.download_bounds()
            },
            IngestEvent::NotDownloaded(e) => res.refuses(
                502,
                "downloading the video failed: "@ + e@,
            ),
            IngestEvent::Downloaded(clip) => ingests_download(env, body, clip, res),
            IngestEvent::NotFound => res.refuses(400, "local file not found: "@ + body.wanted()),
            IngestEvent::Found { path, is_file, bases } => ingests_local(
                env,
                body,
                path@,
                is_file,
                text::bytes_of(bases@),
                res,
            ),
            IngestEvent::Shadow(reply) => ingested(reply, res),
        }
    }
}

/// `POST /api/clips/ingest`: makes a clip out of a watched URL or a local
/// video.
pub fn ingest(env: &IngestEnv, body: &IngestBody, event: IngestEvent) -> (res: IngestStep)
    ensures
        goes_on(*env, *body, event, res),
{
    let source: &str = text::trim(body.source.as_str());
    if source.is_empty() {
        return refuse(400, "missing `source` (a video URL or local file path)".to_owned());
    }
    match event {
        IngestEvent::Request => if source_is_url(source) {
            IngestStep::EnsureDownloader
        } else {
            let bases: Vec<Vec<u8>> = local::allowed_bases(
                env.home.as_ref(),
                env.allowed_dirs.as_ref(),
            );
            IngestStep::Locate { path: source.to_owned(), bases }
        },
        IngestEvent::NoDownloader(e) => refuse(
            502,
            shadow::phrase("could not install the yt-dlp downloader: ", e.as_str()),
        ),
        IngestEvent::Downloader { tmp_dir } => {
            let id: String = random_id();
            let dir: Vec<u8> = work_dir(&tmp_dir, id.as_str());
            let (start, end): (Option<u64>, Option<u64>) = if body.start.is_some()
                && body.end.is_some() {
                (body.start, body.end)
            } else {
                (None, None)
            };
            assert(is_random_id(id@) && dir@ == work_dir_in(tmp_dir@, id@));
            IngestStep::Download { url: source.to_owned(), work_dir: dir, start, end }
        },
        IngestEvent::NotDownloaded(e) => refuse(
            502,
            shadow::phrase("downloading the video failed: ", e.as_str()),
        ),
        IngestEvent::Downloaded(clip) => ingest_download(env, body, clip),
        IngestEvent::NotFound => refuse(400, shadow::phrase("local file not found: ", source)),
        IngestEvent::Found { path, is_file, bases } => ingest_local(
            env,
            body,
            source,
            path,
            is_file,
            bases,
        ),
        IngestEvent::Shadow(reply) => finish(reply),
    }
}

/// A downloaded video is trimmed once: the bounds that the caller gives reach
/// the download or Shadow, and never both.
pub proof fn law_video_is_trimmed_once(body: IngestBody)
    ensures
        body.download_bounds() == (body.start, body.end) || body.download_bounds() == (
            None::<u64>,
            None::<u64>,
        ),
        body.forwarded_bounds() == (body.start, body.end) || body.forwarded_bounds() == (
            None::<u64>,
            None::<u64>,
        ),
        body.start is Some || body.end is Some ==> (body.download_bounds() == (body.start, body.end)
            <==> body.forwarded_bounds() == (None::<u64>, None::<u64>)),
        body.download_bounds().0 is Some <==> body.download_bounds().1 is Some,
{
}

/// What Shadow is told is all there is to a handover, each part under a name of
/// its own.
pub proof fn law_payload_keeps_every_part(env: IngestEnv, body: IngestBody, handover: Handover)
    ensures
        ({
            let payload = payload_json(env, body, handover);
            &&& payload.text_member("videoPath"@) == Some(handover.video)
            &&& payload.member("captions"@) == Some(json::text_or_null(handover.captions))
            &&& payload.member("captionSegments"@) == Some(json::JsonView::Array(handover.cues))
            &&& payload.text_member("detail"@) == Some(
                trimmed_or(text::string_of(body.detail), "balanced"@),
            )
            &&& payload.member("start"@) == Some(json::unsigned_or_null(handover.start))
            &&& payload.member("end"@) == Some(json::unsigned_or_null(handover.end))
            &&& payload.text_member("sttEngine"@) == Some(
                trimmed_or(text::string_of(env.stt_engine), "gateway"@),
            )
        }),
{
    reveal_strlit("videoPath");
    reveal_strlit("captions");
    reveal_strlit("captionSegments");
    reveal_strlit("detail");
    reveal_strlit("start");
    reveal_strlit("end");
    reveal_strlit("sttEngine");
    assert("videoPath"@.len() == 9 && "captions"@.len() == 8 && "captionSegments"@.len() == 15);
    assert("detail"@.len() == 6 && "start"@.len() == 5 && "end"@.len() == 3);
    assert("sttEngine"@.len() == 9 && "videoPath"@[0] != "sttEngine"@[0]);
}

/// A local file reaches Shadow only if it is a file, lies in an allowed folder
/// and is named like a video, and it is then the file that was looked up.
pub proof fn law_only_allowed_videos_reach_shadow(
    env: IngestEnv,
    body: IngestBody,
    path: Seq<u8>,
    is_file: bool,
    bases: Seq<Seq<u8>>,
    res: IngestStep,
)
    requires
        ingests_local(env, body, path, is_file, bases, res),
        res matches IngestStep::Proxy(step) && step is Send,
    ensures
        is_file,
        local::allowed(path, bases),
        local::is_video(path),
        res->Proxy_0->Send_0.body matches Some(sent) && json::json_of(sent).text_member(
            "videoPath"@,
        ) == Some(path_text(path)),
{
    law_payload_keeps_every_part(
        env,
        body,
        Handover {
            video: path_text(path),
            captions: None,
            cues: Seq::empty(),
            start: body.start,
            end: body.end,
        },
    );
}

/// When Shadow gives no JSON, the caller is told that it is not available and
/// why, and no clip is filed.
pub proof fn law_ingest_is_fail_soft(reply: ShadowReply, res: IngestStep)
    requires
        ingested(reply, res),
        reply is Failed || reply is Malformed,
    ensures
        res matches IngestStep::Proxy(step) && step is Done && api::says_unavailable(
            json::json_of(step->Done_0.body),
        ) && !step->Done_0.file_clip,
{
    match reply {
        ShadowReply::Failed(e) => {
            api::lemma_unavailable_says_so();
        },
        _ => {
            api::law_relay_is_fail_soft(reply, None, true, res->Proxy_0);
        },
    }
}

/// Two ingests whose random ids differ have a work directory each, right under
/// the directory for them.
pub proof fn law_work_dirs_are_apart(tmp_dir: Seq<u8>, id: Seq<char>, other: Seq<char>)
    requires
        is_random_id(id),
        is_random_id(other),
        id != other,
    ensures
        work_dir_in(tmp_dir, id) != work_dir_in(tmp_dir, other),
        !local::within(work_dir_in(tmp_dir, id), work_dir_in(tmp_dir, other)),
        local::within(work_dir_in(tmp_dir, id), tmp_dir),
{
    let name = "clip-ingest-"@ + id;
    let other_name = "clip-ingest-"@ + other;
    lemma_work_dir_name(id);
    lemma_work_dir_name(other);
    assert(name.skip("clip-ingest-"@.len() as int) =~= id);
    assert(other_name.skip("clip-ingest-"@.len() as int) =~= other);
    text::lemma_same_bytes(name, other_name);
    local::law_siblings_are_apart(tmp_dir, encode_utf8(name), encode_utf8(other_name));
    local::law_join_adds_one_name(tmp_dir, encode_utf8(name));
}

/// The name of a work directory is one name.
pub proof fn lemma_work_dir_name(id: Seq<char>)
    requires
        is_random_id(id),
    ensures
        encode_utf8("clip-ingest-"@ + id).len() > 1,
        !encode_utf8("clip-ingest-"@ + id).contains(0x2F),
{
    reveal_strlit("clip-ingest-");
    let name = "clip-ingest-"@ + id;
    assert forall|i: int| 0 <= i < name.len() implies (name[i] as nat) < 128 && name[i] != '/' by {
        if i >= 12 {
            assert(name[i] == id[i - 12]);
            assert(is_hex(id[i - 12]));
        }
    }
    assert(is_ascii_chars(name));
    is_ascii_chars_encode_utf8(name);
}

/// Whether `event` can be what came of `step`.
pub open spec fn comes_of(step: IngestStep, event: IngestEvent) -> bool {
    match step {
        IngestStep::EnsureDownloader => event is NoDownloader || event is Downloader,
        IngestStep::Download { .. } => event is NotDownloaded || event is Downloaded,
        IngestStep::Locate { .. } => event is NotFound || event is Found,
        IngestStep::Proxy(Step::Send(_)) => event matches IngestEvent::Shadow(reply) && (reply
            is Failed || reply is Head),
        IngestStep::Proxy(Step::ReadJson) => event matches IngestEvent::Shadow(reply) && (reply
            is Json || reply is Malformed),
        IngestStep::Proxy(Step::Done(_)) => false,
    }
}

/// How many events an ingest can still be told of after `step`.
pub open spec fn events_left(step: IngestStep) -> nat {
    match step {
        IngestStep::EnsureDownloader => 4,
        IngestStep::Download { .. } => 3,
        IngestStep::Locate { .. } => 3,
        IngestStep::Proxy(Step::Send(_)) => 2,
        IngestStep::Proxy(Step::ReadJson) => 1,
        IngestStep::Proxy(Step::Done(_)) => 0,
    }
}

/// Every ingest ends with an answer: each event brings it nearer, and where no
/// event is left the answer is there.
pub proof fn law_ingest_ends(
    env: IngestEnv,
    body: IngestBody,
    step: IngestStep,
    event: IngestEvent,
    res: IngestStep,
)
    requires
        comes_of(step, event),
        goes_on(env, body, event, res),
    ensures
        events_left(res) < events_left(step),
        events_left(res) == 0 <==> (res matches IngestStep::Proxy(last) && last is Done),
{
}

/// A URL never leads to the local files, and a path never to the downloader.
pub proof fn law_sources_keep_to_their_way(env: IngestEnv, body: IngestBody, res: IngestStep)
    requires
        goes_on(env, body, IngestEvent::Request, res),
    ensures
        res is EnsureDownloader <==> body.wanted().len() > 0 && is_url(body.wanted()),
        res is Locate <==> body.wanted().len() > 0 && !is_url(body.wanted()),
        !(res is Download),
        !(res matches IngestStep::Proxy(step) && !(step is Done)),
{
}

} // verus!
