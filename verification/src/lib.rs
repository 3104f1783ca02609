//! Clips: record, ingest and browse clips of the screen.
//!
//! Shadow, a service on loopback, owns the sensor half: it captures the screen
//! and the sound, and makes a bundle of each clip. This crate is what stands
//! before it, the `/api/clips/*` surface that the desktop drives: which request
//! is let in, what Shadow is asked, and what the caller is answered.
//!
//! The crate does no I/O. A handler is told what has happened and says what to
//! do next, and the contracts say what that is. [`api`] has the handlers,
//! [`ingest`] the one that makes a clip out of a URL or a local video, for which
//! [`local`] says which files are allowed, and [`filing`] what becomes of a
//! finished clip; [`laws`] says what all these owe those who ask. [`shadow`] is
//! the exchange with Shadow, [`json`] the documents that pass through it, and
//! [`sidecar`] and [`paths`] hold the rules of the process that serves all this.
//!
//! When Shadow is down, a caller who asked for JSON is answered
//! `{ "available": false, "reason": .. }`.

pub mod api;
pub mod filing;
pub mod ingest;
pub mod json;
pub mod laws;
pub mod local;
pub mod paths;
pub mod shadow;
pub mod sidecar;
pub mod text;

use vstd::prelude::*;

verus! {

/// The system space that finished clips are filed into.
pub const CLIPS_SPACE_NAME: &'static str = "Clips";

/// What that space is for.
pub const CLIPS_SPACE_DESC: &'static str = "Screen recordings and clips captured by Ryu";

/// A timed caption of a downloaded video.
#[derive(Debug)]
pub struct CaptionCue {
    pub start_ms: u64,
    pub end_ms: u64,
    pub text: String,
}

impl CaptionCue {
    /// Whether `self` and `other` say the same at the same time.
    pub open spec fn same(self, other: CaptionCue) -> bool {
        &&& self.start_ms == other.start_ms
        &&& self.end_ms == other.end_ms
        &&& self.text@ == other.text@
    }
}

impl Clone for CaptionCue {
    fn clone(&self) -> (res: Self)
        ensures
            res.same(*self),
    {
        CaptionCue { start_ms: self.start_ms, end_ms: self.end_ms, text: self.text.clone() }
    }
}

/// A downloaded video, and the captions that came with it.
#[derive(Debug)]
pub struct DownloadedClip {
    /// The path of the video file, by its bytes.
    pub video: Vec<u8>,
    /// The captions as plain text.
    pub captions: Option<String>,
    /// The same captions, with their times.
    pub caption_segments: Vec<CaptionCue>,
}

impl Clone for DownloadedClip {
    fn clone(&self) -> (res: Self)
        ensures
            res.video@ == self.video@,
            text::string_of(res.captions) == text::string_of(self.captions),
            res.caption_segments@.len() == self.caption_segments@.len(),
            forall|i: int|
                0 <= i < self.caption_segments@.len() ==> #[trigger] res.caption_segments@[i].same(
                    self.caption_segments@[i],
                ),
    {
        let mut segments: Vec<CaptionCue> = Vec::new();
        let n: usize = self.caption_segments.len();
        for i in 0..n
            invariant
                n == self.caption_segments@.len(),
                segments@.len() == i,
                forall|j: int|
                    0 <= j < i ==> #[trigger] segments@[j].same(self.caption_segments@[j]),
        {
            segments.push(self.caption_segments[i].clone());
        }
        let captions: Option<String> = match &self.captions {
            Some(s) => Some(s.clone()),
            None => None,
        };
        DownloadedClip { video: self.video.clone(), captions, caption_segments: segments }
    }
}

} // verus!
