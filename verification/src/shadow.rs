//! The exchange with Shadow, the capture service on loopback.
//!
//! This crate does no I/O. A handler says what to ask Shadow, is told what came
//! of it, and says what to answer; [`ShadowRequest`] and [`ShadowReply`] are
//! what passes between it and whoever performs the exchange.

use crate::json;
use crate::text;
use serde_json::Value;
use vstd::prelude::*;
use vstd::string::*;

verus! {

/// Where Shadow listens when nothing else is configured.
pub const DEFAULT_SHADOW_URL: &'static str = "http://127.0.0.1:3030";

/// Seconds to wait for Shadow. Clips involve ffmpeg on the Shadow side, so this
/// is more generous than a plain query needs.
pub const SHADOW_TIMEOUT_SECS: u64 = 15;

/// Seconds to wait for an ingest, which runs ffmpeg over a whole video.
pub const INGEST_TIMEOUT_SECS: u64 = 600;

/// What the environment says of Shadow.
#[derive(Debug)]
pub struct ShadowEnv {
    /// `RYU_SHADOW_URL`.
    pub url: Option<String>,
    /// `SHADOW_API_TOKEN`.
    pub token: Option<String>,
}

impl ShadowEnv {
    /// The base URL: the configured one as it stands, or the default.
    pub open spec fn base(self) -> Seq<char> {
        match self.url {
            Some(url) => url@,
            None => DEFAULT_SHADOW_URL@,
        }
    }

    /// The `Authorization` header of every request: the trimmed token as a
    /// bearer, and none without a token.
    pub open spec fn authorization(self) -> Option<Seq<char>> {
        match text::trimmed_or_none(text::string_of(self.token)) {
            Some(token) => Some("Bearer "@ + token),
            None => None,
        }
    }
}

/// The base URL of Shadow.
pub fn shadow_base(env: &ShadowEnv) -> (res: String)
    ensures
        res@ == env.base(),
{
    match &env.url {
        Some(url) => url.clone(),
        None => DEFAULT_SHADOW_URL.to_owned(),
    }
}

/// The token for Shadow: trimmed, and none when it is blank.
pub fn shadow_token(env: &ShadowEnv) -> (res: Option<String>)
    ensures
        text::string_of(res) == text::trimmed_or_none(text::string_of(env.token)),
{
    match &env.token {
        Some(token) => text::trim_or_none(Some(token.as_str())),
        None => None,
    }
}

/// The `Authorization` header for Shadow: a bearer where there is a token, and
/// none otherwise.
pub fn shadow_auth(env: &ShadowEnv) -> (res: Option<String>)
    ensures
        text::string_of(res) == env.authorization(),
{
    match shadow_token(env) {
        Some(token) => {
            let mut header: String = "Bearer ".to_owned();
            header.append(token.as_str());
            Some(header)
        },
        None => None,
    }
}

/// An HTTP method.
#[derive(Clone, Copy, PartialEq, Eq, Structural, Debug)]
pub enum Method {
    Get,
    Post,
}

/// A request to Shadow.
#[derive(Debug)]
pub struct ShadowRequest {
    pub method: Method,
    pub url: String,
    /// A query parameter to add to the URL.
    pub query: Option<(String, u64)>,
    /// The `Authorization` header.
    pub authorization: Option<String>,
    /// The JSON body.
    pub body: Option<Value>,
    pub timeout_secs: u64,
}

impl ShadowRequest {
    /// Whether this asks `method` of `path` at the Shadow of `env`, with its
    /// token.
    pub open spec fn asks(self, env: ShadowEnv, method: Method, path: Seq<char>) -> bool {
        &&& self.method == method
        &&& self.url@ == env.base() + path
        &&& text::string_of(self.authorization) == env.authorization()
    }

    /// Whether this asks `method` of `path`, with nothing in the query and no
    /// body, within the usual time.
    pub open spec fn only_asks(self, env: ShadowEnv, method: Method, path: Seq<char>) -> bool {
        &&& self.asks(env, method, path)
        &&& self.query is None
        &&& self.body is None
        &&& self.timeout_secs == SHADOW_TIMEOUT_SECS
    }
}

/// A request without a query and a body.
pub(crate) fn plain_request(env: &ShadowEnv, method: Method, path: &str) -> (res: ShadowRequest)
    ensures
        res.only_asks(*env, method, path@),
{
    let mut url: String = shadow_base(env);
    url.append(path);
    ShadowRequest {
        method,
        url,
        query: None,
        authorization: shadow_auth(env),
        body: None,
        timeout_secs: SHADOW_TIMEOUT_SECS,
    }
}

/// What came of a request, as far as it is known.
#[derive(Debug)]
pub enum ShadowReply {
    /// The request failed in transport, for this reason.
    Failed(String),
    /// Shadow answered with this status. Its body was not read.
    Head(u16),
    /// Shadow answered with this status and this JSON body.
    Json(u16, Value),
    /// Shadow answered with this status, and with a body that is no JSON, for
    /// this reason.
    Malformed(u16, String),
}

/// Whether `code` is a status that reports success.
pub open spec fn is_success(code: u16) -> bool {
    200 <= code < 300
}

/// Whether `code` is a status that reports success.
pub fn status_is_success(code: u16) -> (res: bool)
    ensures
        res == is_success(code),
{
    200 <= code && code < 300
}

/// `code` if it can be a status, and `fallback` otherwise.
pub open spec fn status_or(code: u16, fallback: u16) -> u16 {
    if 100 <= code <= 999 {
        code
    } else {
        fallback
    }
}

/// `axum::http::StatusCode::from_u16`, then `as_u16`: `code`, exactly when it
/// has three digits.
#[verifier::external_body]
fn known_status(code: u16) -> (res: Option<u16>)
    ensures
        res == (if 100 <= code <= 999 {
            Some(code)
        } else {
            None
        }),
{
    axum::http::StatusCode::from_u16(code).ok().map(|status| status.as_u16())
}

/// `code` if it can be a status, and `fallback` otherwise.
pub fn checked_status(code: u16, fallback: u16) -> (res: u16)
    ensures
        res == status_or(code, fallback),
{
    match known_status(code) {
        Some(known) => known,
        None => fallback,
    }
}

/// The words that `axum::http::StatusCode` shows after the number of a status.
pub uninterp spec fn status_reason(code: u16) -> Seq<char>;

/// A status as it is shown: its number, and after it the words for it.
pub open spec fn status_words(code: u16) -> Seq<char> {
    if 100 <= code <= 999 {
        text::decimal(code as nat) + " "@ + status_reason(code)
    } else {
        text::decimal(code as nat)
    }
}

/// The `Display` of `axum::http::StatusCode`: the number of the status in
/// decimal, a space, and its canonical reason or a stand-in for one.
#[verifier::external_body]
fn known_status_text(code: u16) -> (res: String)
    requires
        100 <= code <= 999,
    ensures
        res@ == text::decimal(code as nat) + " "@ + status_reason(code),
{
    axum::http::StatusCode::from_u16(code).unwrap().to_string()
}

/// Shows a status.
pub fn status_text(code: u16) -> (res: String)
    ensures
        res@ == status_words(code),
{
    match known_status(code) {
        Some(known) => known_status_text(known),
        None => text::decimal_text(code as u64),
    }
}

/// The body of an answer when Shadow has none to give.
pub open spec fn unavailable_json(reason: Seq<char>) -> json::JsonView {
    json::JsonView::Object(
        map![
            "available"@ => json::JsonView::Bool(false),
            "reason"@ => json::JsonView::Text(reason),
        ],
    )
}

/// The body of an answer when Shadow has none to give: that it is not
/// available, and why.
pub fn unavailable(reason: String) -> (res: Value)
    ensures
        json::json_of(res) == unavailable_json(reason@),
{
    let mut fields = serde_json::Map::new();
    fields.insert("available".to_owned(), json::bool_value(false));
    let ghost r = reason@;
    fields.insert("reason".to_owned(), json::text_value(reason));
    assert(json::fields_of(fields) =~= map![
        "available"@ => json::JsonView::Bool(false),
        "reason"@ => json::JsonView::Text(r),
    ]);
    json::object_value(fields)
}

/// The body of an answer to a request that is refused.
pub open spec fn error_json(message: Seq<char>) -> json::JsonView {
    json::JsonView::Object(map!["error"@ => json::JsonView::Text(message)])
}

/// The body of an answer to a request that is refused.
pub fn error_body(message: String) -> (res: Value)
    ensures
        json::json_of(res) == error_json(message@),
{
    let mut fields = serde_json::Map::new();
    let ghost m = message@;
    fields.insert("error".to_owned(), json::text_value(message));
    assert(json::fields_of(fields) =~= map!["error"@ => json::JsonView::Text(m)]);
    json::object_value(fields)
}

/// Why Shadow is unavailable when the request failed in transport.
pub open spec fn unreachable_reason(e: Seq<char>) -> Seq<char> {
    "Shadow is not reachable: "@ + e
}

/// Why Shadow is unavailable when its body is no JSON.
pub open spec fn malformed_reason(e: Seq<char>) -> Seq<char> {
    "Shadow returned an invalid response: "@ + e
}

/// Why Shadow is unavailable when it answered with an error.
pub open spec fn refused_reason(code: u16) -> Seq<char> {
    "Shadow returned HTTP "@ + status_words(code)
}

/// The text `head`, and `tail` after it.
pub(crate) fn phrase(head: &str, tail: &str) -> (res: String)
    ensures
        res@ == head@ + tail@,
{
    let mut res: String = head.to_owned();
    res.append(tail);
    res
}

/// Shadow is asked where the environment says, as it says it, and at the
/// loopback default otherwise.
pub proof fn law_shadow_is_where_the_environment_says(env: ShadowEnv)
    ensures
        env.url matches Some(url) ==> env.base() == url@,
        env.url is None ==> env.base() == "http://127.0.0.1:3030"@,
{
}

/// A request carries the token as a bearer, without the white space around it,
/// and no header where there is no token or a blank one.
pub proof fn law_token_is_the_bearer(env: ShadowEnv)
    ensures
        env.token matches Some(token) ==> {
            &&& text::is_blank(token@) ==> env.authorization() is None
            &&& !text::is_blank(token@) ==> env.authorization() == Some(
                "Bearer "@ + text::trimmed(token@),
            )
        },
        env.token is None ==> env.authorization() is None,
{
    if let Some(token) = env.token {
        text::law_blank_counts_as_none(token@);
    }
}

/// A status of three digits is passed on as it is, and for any other number the
/// fallback stands in.
pub proof fn law_status_has_three_digits(code: u16, fallback: u16)
    ensures
        100 <= code <= 999 ==> status_or(code, fallback) == code,
        code < 100 || code > 999 ==> status_or(code, fallback) == fallback,
        is_success(code) ==> 100 <= code <= 999,
        is_success(code) <==> code / 100 == 2,
{
}

/// A body of unavailability says that Shadow is not available and gives the
/// whole reason, and a refusal gives the whole message. They say nothing else.
pub proof fn law_bodies_give_the_whole_text(s: Seq<char>, key: Seq<char>)
    ensures
        unavailable_json(s).member("available"@) == Some(json::JsonView::Bool(false)),
        unavailable_json(s).member("reason"@) == Some(json::JsonView::Text(s)),
        key != "available"@ && key != "reason"@ ==> unavailable_json(s).member(key) is None,
        error_json(s).member("error"@) == Some(json::JsonView::Text(s)),
        key != "error"@ ==> error_json(s).member(key) is None,
{
    reveal_strlit("available");
    reveal_strlit("reason");
    assert("available"@.len() != "reason"@.len());
}

/// Every reason ends with what it is about, in full: the error that was met, or
/// the number of the status and, where it has any, its words.
pub proof fn law_reasons_end_with_their_cause(e: Seq<char>, code: u16)
    ensures
        e.is_suffix_of(unreachable_reason(e)),
        e.is_suffix_of(malformed_reason(e)),
        unreachable_reason(e).len() == "Shadow is not reachable: "@.len() + e.len(),
        malformed_reason(e).len() == "Shadow returned an invalid response: "@.len() + e.len(),
        ("Shadow returned HTTP "@ + text::decimal(code as nat)).is_prefix_of(refused_reason(code)),
        100 <= code <= 999 ==> refused_reason(code) == "Shadow returned HTTP "@ + text::decimal(
            code as nat,
        ) + " "@ + status_reason(code),
{
    let head = "Shadow returned HTTP "@;
    let digits = text::decimal(code as nat);
    if 100 <= code <= 999 {
        assert(refused_reason(code) =~= head + digits + " "@ + status_reason(code));
    }
    assert((head + digits).is_prefix_of(refused_reason(code)));
}

} // verus!
