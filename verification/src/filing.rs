//! Filing: a finished clip is stored in the system space for clips, with a
//! short summary.
//!
//! The video is fetched from Shadow, since the path in the manifest means
//! something to Shadow alone. Filing never fails: a clip whose video cannot be
//! had is filed by its summary.

use crate::api;
use crate::api::{BytesEvent, BytesReply};
use crate::json;
use crate::shadow;
use crate::shadow::{Method, ShadowEnv, ShadowRequest};
use crate::text;
use serde_json::Value;
use vstd::prelude::*;
use vstd::string::*;

verus! {

/// What to do next with a finished clip.
#[derive(Debug)]
pub enum FilingStep {
    /// Leave the clip: it has no id.
    Skip,
    /// Send this to Shadow.
    Send(ShadowRequest),
    /// Read the body of Shadow's answer.
    ReadBytes,
    /// Store the clip.
    Store { title: String, mp4: Option<Vec<u8>>, summary: String },
}

/// The title of a clip: the one in its manifest, unless it is blank.
pub open spec fn clip_title(bundle: json::JsonView) -> Seq<char> {
    match bundle.text_member("title"@) {
        Some(title) => if text::trimmed(title).len() > 0 {
            title
        } else {
            "Clip"@
        },
        None => "Clip"@,
    }
}

fn title_of(bundle: &Value) -> (res: String)
    ensures
        res@ == clip_title(json::json_of(*bundle)),
{
    match json::text_member(bundle, "title") {
        Some(title) => {
            if text::trim(title.as_str()).is_empty() {
                "Clip".to_owned()
            } else {
                title
            }
        },
        None => "Clip".to_owned(),
    }
}

/// The line of the summary that a recommended moment gets: its second, and why
/// it is recommended.
pub open spec fn moment_line(moment: json::JsonView) -> Seq<char> {
    let reason = match moment.text_member("reason"@) {
        Some(reason) => reason,
        None => Seq::empty(),
    };
    "- "@ + text::two_digits(moment.unsigned_member("atMs"@) / 1000) + "s: "@ + reason + "\n"@
}

fn moment_text(moment: &Value) -> (res: String)
    ensures
        res@ == moment_line(json::json_of(*moment)),
{
    let at: u64 = json::unsigned_member(moment, "atMs") / 1000;
    let reason: String = match json::text_member(moment, "reason") {
        Some(reason) => reason,
        None => String::new(),
    };
    let mut res: String = "- ".to_owned();
    res.append(text::two_digit_text(at).as_str());
    res.append("s: ");
    res.append(reason.as_str());
    res.append("\n");
    res
}

/// The lines of `moments`, in order.
pub open spec fn moment_lines(moments: Seq<json::JsonView>) -> Seq<char>
    decreases moments.len(),
{
    if moments.len() == 0 {
        Seq::empty()
    } else {
        moment_lines(moments.drop_last()) + moment_line(moments.last())
    }
}

/// The part of the summary on how much of the recording was looked at, where
/// that was not all.
pub open spec fn coverage(bundle: json::JsonView) -> Seq<char> {
    match bundle.text_member("scanWarning"@) {
        Some(warning) => "- Coverage: "@ + warning + "\n"@,
        None => Seq::empty(),
    }
}

/// The moments that a manifest recommends.
pub open spec fn moments_of(bundle: json::JsonView) -> Seq<json::JsonView> {
    match bundle.member("recommendedMoments"@) {
        Some(v) => match v.items() {
            Some(moments) => moments,
            None => Seq::empty(),
        },
        None => Seq::empty(),
    }
}

/// The part of the summary on the recommended moments, where there are any.
pub open spec fn highlights(bundle: json::JsonView) -> Seq<char> {
    if moments_of(bundle).len() == 0 {
        Seq::empty()
    } else {
        "\n## Highlights\n"@ + moment_lines(moments_of(bundle))
    }
}

/// The head of the summary: the title, and the duration in minutes and seconds.
pub open spec fn heading(title: Seq<char>, duration_ms: nat) -> Seq<char> {
    let secs = duration_ms / 1000;
    "# "@ + title + "\n\n- Duration: "@ + text::two_digits(secs / 60) + ":"@ + text::two_digits(
        secs % 60,
    ) + "\n"@
}

/// The summary of a clip, in Markdown.
pub open spec fn summary_of(
    title: Seq<char>,
    duration_ms: nat,
    bundle: json::JsonView,
) -> Seq<char> {
    heading(title, duration_ms) + coverage(bundle) + highlights(bundle)
}

fn highlights_text(moments: &Vec<Value>) -> (res: String)
    requires
        moments@.len() > 0,
    ensures
        res@ == "\n## Highlights\n"@ + moment_lines(json::jsons_of(moments@)),
{
    let mut res: String = "\n## Highlights\n".to_owned();
    let ghost all = json::jsons_of(moments@);
    let n: usize = moments.len();
    assert(all.take(0) =~= Seq::empty());
    assert(res@ =~= "\n## Highlights\n"@ + moment_lines(all.take(0)));
    for i in 0..n
        invariant
            n == moments@.len(),
            all == json::jsons_of(moments@),
            res@ == "\n## Highlights\n"@ + moment_lines(all.take(i as int)),
    {
        assert(all.take(i + 1).drop_last() =~= all.take(i as int));
        res.append(moment_text(&moments[i]).as_str());
        assert(res@ =~= "\n## Highlights\n"@ + moment_lines(all.take(i + 1)));
    }
    assert(all.take(n as int) =~= all);
    res
}

/// Writes the summary of a clip, in Markdown, from its manifest.
pub fn build_clip_summary_md(title: &str, duration_ms: u64, bundle: &Value) -> (res: String)
    ensures
        res@ == summary_of(title@, duration_ms as nat, json::json_of(*bundle)),
{
    let secs: u64 = duration_ms / 1000;
    let mut md: String = "# ".to_owned();
    md.append(title);
    md.append("\n\n- Duration: ");
    md.append(text::two_digit_text(secs / 60).as_str());
    md.append(":");
    md.append(text::two_digit_text(secs % 60).as_str());
    md.append("\n");
    let ghost head = md@;
    let ghost view = json::json_of(*bundle);
    if let Some(warning) = json::text_member(bundle, "scanWarning") {
        md.append("- Coverage: ");
        md.append(warning.as_str());
        md.append("\n");
    }
    assert(md@ =~= head + coverage(view));
    let ghost front = md@;
    if let Some(v) = json::member(bundle, "recommendedMoments") {
        if let Some(moments) = v.as_array() {
            if moments.len() > 0 {
                md.append(highlights_text(moments).as_str());
            }
        }
    }
    assert(md@ =~= front + highlights(view));
    md
}

/// What is stored of the clip that `bundle` describes, with the video `mp4`
/// where it could be had.
pub open spec fn stores(bundle: json::JsonView, mp4: Option<Seq<u8>>, res: FilingStep) -> bool {
    &&& res matches FilingStep::Store { title, mp4: stored, summary }
    &&& title@ == clip_title(bundle)
    &&& summary@ == summary_of(
        clip_title(bundle),
        bundle.unsigned_member("durationMs"@),
        bundle,
    )
    &&& match mp4 {
        Some(bytes) => stored matches Some(s) && s@ == bytes,
        None => stored is None,
    }
}

fn store(bundle: &Value, mp4: Option<Vec<u8>>) -> (res: FilingStep)
    ensures
        stores(
            json::json_of(*bundle),
            match mp4 {
                Some(bytes) => Some(bytes@),
                None => None,
            },
            res,
        ),
{
    let title: String = title_of(bundle);
    let duration_ms: u64 = json::unsigned_member(bundle, "durationMs");
    let summary: String = build_clip_summary_md(title.as_str(), duration_ms, bundle);
    FilingStep::Store { title, mp4, summary }
}

/// How the filing of the clip that `bundle` describes goes on, once Shadow
/// replied.
pub open spec fn files(bundle: json::JsonView, reply: BytesReply, res: FilingStep) -> bool {
    match reply {
        BytesReply::Head { status } => if shadow::is_success(status) {
            res is ReadBytes
        } else {
            stores(bundle, None, res)
        },
        BytesReply::Bytes { status, content_type: _, bytes } => if shadow::is_success(status) {
            stores(bundle, Some(bytes@), res)
        } else {
            stores(bundle, None, res)
        },
        _ => stores(bundle, None, res),
    }
}

/// How the filing of the clip that `bundle` describes goes on after `event`.
pub open spec fn files_clip(
    env: ShadowEnv,
    bundle: json::JsonView,
    event: BytesEvent<()>,
    res: FilingStep,
) -> bool {
    match bundle.text_member("id"@) {
        None => res is Skip,
        Some(id) => match event {
            BytesEvent::Request(_) => {
                &&& res matches FilingStep::Send(request)
                &&& request.only_asks(env, Method::Get, api::clip_path(id, "/file"@))
            },
            BytesEvent::Shadow(reply) => files(bundle, reply, res),
        },
    }
}

/// Files the finished clip that `bundle` describes: fetches its video from
/// Shadow, and has it stored with a summary. A clip without an id is left.
pub fn file_clip_into_space(env: &ShadowEnv, bundle: &Value, event: BytesEvent<()>) -> (res:
    FilingStep)
    ensures
        files_clip(*env, json::json_of(*bundle), event, res),
{
    let id: String = match json::text_member(bundle, "id") {
        Some(id) => id,
        None => {
            return FilingStep::Skip;
        },
    };
    match event {
        BytesEvent::Request(_) => {
            let path: String = api::clip_url_path(id.as_str(), "/file");
            FilingStep::Send(shadow::plain_request(env, Method::Get, path.as_str()))
        },
        BytesEvent::Shadow(reply) => match reply {
            BytesReply::Head { status } => if shadow::status_is_success(status) {
                FilingStep::ReadBytes
            } else {
                store(bundle, None)
            },
            BytesReply::Bytes { status, content_type: _, bytes } => if shadow::status_is_success(
                status,
            ) {
                store(bundle, Some(bytes))
            } else {
                store(bundle, None)
            },
            _ => store(bundle, None),
        },
    }
}

/// Whatever Shadow replies, a clip is stored in the end: with its video if this
/// came with a success, and by its summary otherwise.
pub proof fn law_filing_is_fail_soft(bundle: json::JsonView, reply: BytesReply, res: FilingStep)
    requires
        files(bundle, reply, res),
        !(res is ReadBytes),
    ensures
        res matches FilingStep::Store { title, mp4, summary } && title@.len() > 0 && (mp4 is Some
            <==> (reply matches BytesReply::Bytes { status, .. } && shadow::is_success(status))),
{
    reveal_strlit("Clip");
    if let Some(title) = bundle.text_member("title"@) {
        if title.len() == 0 {
            assert(text::trimmed(title) == title);
        }
    }
}

/// Every filing ends: nothing is sent after Shadow's reply, and the body is
/// asked for at most once.
pub proof fn law_filing_ends(bundle: json::JsonView, reply: BytesReply, res: FilingStep)
    requires
        files(bundle, reply, res),
    ensures
        res is Store || res is ReadBytes,
        res is ReadBytes ==> reply is Head,
{
}

/// A duration is shown in full: the minutes and the seconds of the heading make
/// up its whole seconds, and the seconds are below sixty.
pub proof fn law_duration_is_shown_in_full(duration_ms: nat)
    ensures
        ({
            let secs = duration_ms / 1000;
            &&& (secs / 60) * 60 + secs % 60 == secs
            &&& secs % 60 < 60
            &&& text::two_digits(secs % 60).len() == 2
        }),
{
    let rest = (duration_ms / 1000) % 60;
    reveal_with_fuel(text::decimal, 3);
    assert(rest >= 10 ==> rest / 10 < 10);
}

/// The summary has a section on highlights exactly when the manifest recommends
/// a moment, and without one it ends after the coverage.
pub proof fn law_summary_has_highlights_iff_moments(
    title: Seq<char>,
    duration_ms: nat,
    bundle: json::JsonView,
)
    ensures
        moments_of(bundle).len() == 0 <==> summary_of(title, duration_ms, bundle) == heading(
            title,
            duration_ms,
        ) + coverage(bundle),
        moments_of(bundle).len() > 0 ==> summary_of(title, duration_ms, bundle) == heading(
            title,
            duration_ms,
        ) + coverage(bundle) + "\n## Highlights\n"@ + moment_lines(moments_of(bundle)),
{
    reveal_strlit("\n## Highlights\n");
    let front = heading(title, duration_ms) + coverage(bundle);
    if moments_of(bundle).len() == 0 {
        assert(front + highlights(bundle) =~= front);
    } else {
        assert(front + highlights(bundle) =~= front + "\n## Highlights\n"@ + moment_lines(
            moments_of(bundle),
        ));
        assert(summary_of(title, duration_ms, bundle).len() > front.len());
    }
}

/// Every recommended moment has its line in the section, in the order of the
/// manifest.
pub proof fn law_moments_keep_their_order(
    before: Seq<json::JsonView>,
    moment: json::JsonView,
    after: Seq<json::JsonView>,
)
    ensures
        moment_lines(before.push(moment) + after) == moment_lines(before) + moment_line(moment)
            + moment_lines(after),
    decreases after.len(),
{
    let all = before.push(moment) + after;
    if after.len() == 0 {
        assert(all =~= before.push(moment));
        assert(before.push(moment).drop_last() =~= before);
    } else {
        law_moments_keep_their_order(before, moment, after.drop_last());
        assert(all.drop_last() =~= before.push(moment) + after.drop_last());
        assert(all.last() == after.last());
    }
    assert(moment_lines(all) =~= moment_lines(before) + moment_line(moment) + moment_lines(after));
}

} // verus!
