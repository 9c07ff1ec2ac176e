//! Playback of local media files: pacing, re-opening after failures, and the
//! player's reaction to commands and pipeline messages.
//!
//! The caller drives the pipeline. Where a decision needs the outcome of a
//! pipeline call, one function says what to call and another takes the result.

use vstd::prelude::*;
use vstd::string::*;

use crate::id_map::IdMap;
use crate::portal_captures;
use crate::portal_captures::elapsed_ns;
use crate::source_id;
use crate::text;
use crate::text::{characters, contains_chars, contains_text, ends_with_text, joined, lower_chars};
use crate::media_sessions::MediaCommand;

verus! {

// ---------------------------------------------------------------------------
// Pacing
// ---------------------------------------------------------------------------

/// A forward jump of more than this is a discontinuity, not an interval between
/// two frames.
pub const PACE_DISCONT_JUMP_NS: u64 = 500_000_000;

/// One pacing sleep is never longer than this.
pub const PACE_MAX_SLEEP_NS: u64 = 100_000_000;

/// Holds samples back until their time. Times are nanoseconds.
pub struct MediaPacer {
    origin: u64,
    origin_pts: u64,
    last_pts: u64,
    initialized: bool,
}

impl MediaPacer {
    /// When the current run of samples began.
    pub closed spec fn run_start(self) -> u64 {
        self.origin
    }

    /// The presentation time of the run's first sample.
    pub closed spec fn run_start_pts(self) -> u64 {
        self.origin_pts
    }

    /// The presentation time of the previous sample.
    pub closed spec fn previous_pts(self) -> u64 {
        self.last_pts
    }

    /// Whether a sample was seen.
    pub closed spec fn has_started(self) -> bool {
        self.initialized
    }

    /// Whether a sample begins a new run: it is marked so, is the first, lies
    /// before its predecessor or too far behind it.
    pub open spec fn begins_run(self, pts: u64, discont: bool) -> bool {
        discont || !self.has_started() || pts < self.previous_pts() || pts - self.previous_pts()
            > PACE_DISCONT_JUMP_NS
    }

    /// Before the first sample.
    pub fn new(now: u64) -> (r: Self)
        ensures
            !r.has_started(),
            r.run_start() == now,
            r.run_start_pts() == 0,
            r.previous_pts() == 0,
    {
        MediaPacer { origin: now, origin_pts: 0, last_pts: 0, initialized: false }
    }

    /// How long to hold a sample back; `None` where it is due.
    pub fn delay(&mut self, now: u64, pts: u64, discont: bool) -> (r: Option<u64>)
        ensures
            final(self).has_started(),
            final(self).previous_pts() == pts,
            if old(self).begins_run(pts, discont) {
                &&& r is None
                &&& final(self).run_start() == now
                &&& final(self).run_start_pts() == pts
            } else {
                let target = if pts >= old(self).run_start_pts() {
                    pts - old(self).run_start_pts()
                } else {
                    0
                };
                let wait = target - portal_captures::elapsed(now, old(self).run_start());
                &&& final(self).run_start() == old(self).run_start()
                &&& final(self).run_start_pts() == old(self).run_start_pts()
                &&& r == (if wait < 0 {
                    None
                } else if wait <= PACE_MAX_SLEEP_NS {
                    Some(wait as u64)
                } else {
                    Some(PACE_MAX_SLEEP_NS)
                })
            },
            // A sample is due as long after the start of its run as its timestamp lies
            // behind the first one's; nothing waits longer than a tenth of a second.
            r matches Some(wait) ==> wait <= 100_000_000,
            r matches Some(_) ==> !discont && old(self).has_started() && old(self).previous_pts()
                <= pts <= old(self).previous_pts() + 500_000_000,
            !discont && old(self).has_started() && old(self).previous_pts() <= pts <= old(
                self,
            ).previous_pts() + 500_000_000 && pts >= old(self).run_start_pts() && now >= old(
                self,
            ).run_start() ==> {
                let due = old(self).run_start() + (pts - old(self).run_start_pts());
                &&& due < now ==> r is None
                &&& now <= due <= now + 100_000_000 ==> r == Some((due - now) as u64)
                &&& due > now + 100_000_000 ==> r == Some(100_000_000u64)
            },
    {
        let jump: u64 = pts.saturating_sub(self.last_pts);
        if discont || !self.initialized || pts < self.last_pts || jump > PACE_DISCONT_JUMP_NS {
            self.origin = now;
            self.origin_pts = pts;
            self.last_pts = pts;
            self.initialized = true;
            return None;
        }
        self.last_pts = pts;
        let target: u64 = pts.saturating_sub(self.origin_pts);
        let passed: u64 = elapsed_ns(now, self.origin);
        if target < passed {
            None
        } else {
            let wait: u64 = target - passed;
            if wait <= PACE_MAX_SLEEP_NS {
                Some(wait)
            } else {
                Some(PACE_MAX_SLEEP_NS)
            }
        }
    }
}

// ---------------------------------------------------------------------------
// Re-opening
// ---------------------------------------------------------------------------

/// After so many failures without a clean stretch the file is given up.
pub const MAX_REOPEN_CYCLES: u32 = 6;

/// Milliseconds between two attempts.
pub const RETRY_BACKOFF_MS: u64 = 250;

/// Playback for so many nanoseconds counts as a clean stretch.
pub const CLEAN_STRETCH_NS: u64 = 5_000_000_000;

/// Counts failures that a new attempt may cure.
pub struct ReopenBudget {
    cumulative: u32,
    playback_start: Option<u64>,
    last_sample: Option<u64>,
}

impl ReopenBudget {
    /// Failures since the last clean stretch.
    pub closed spec fn charged(self) -> u32 {
        self.cumulative
    }

    /// When the current attempt delivered its first sample.
    pub closed spec fn first_delivery(self) -> Option<u64> {
        self.playback_start
    }

    /// When the current attempt delivered its last sample.
    pub closed spec fn last_delivery(self) -> Option<u64> {
        self.last_sample
    }

    /// Whether the current attempt played long enough and until recently.
    pub open spec fn was_clean(self, now: u64) -> bool {
        &&& self.first_delivery() is Some
        &&& portal_captures::elapsed(now, self.first_delivery()->0) >= CLEAN_STRETCH_NS
        &&& self.last_delivery() is Some
        &&& portal_captures::elapsed(now, self.last_delivery()->0) < CLEAN_STRETCH_NS
    }

    /// Nothing charged.
    pub fn new() -> (r: Self)
        ensures
            r.charged() == 0,
            r.first_delivery() is None,
            r.last_delivery() is None,
    {
        ReopenBudget { cumulative: 0, playback_start: None, last_sample: None }
    }

    /// The attempt delivered its first sample; later calls change nothing.
    pub fn note_playback_start(&mut self, now: u64)
        ensures
            final(self).charged() == old(self).charged(),
            final(self).last_delivery() == old(self).last_delivery(),
            final(self).first_delivery() == (if old(self).first_delivery() is Some {
                old(self).first_delivery()
            } else {
                Some(now)
            }),
    {
        if self.playback_start.is_none() {
            self.playback_start = Some(now);
        }
    }

    /// The attempt delivered a sample.
    pub fn note_sample(&mut self, now: u64)
        ensures
            final(self).charged() == old(self).charged(),
            final(self).last_delivery() == Some(now),
            final(self).first_delivery() == (if old(self).first_delivery() is Some {
                old(self).first_delivery()
            } else {
                Some(now)
            }),
    {
        self.last_sample = Some(now);
        self.note_playback_start(now);
    }

    /// A new attempt begins.
    pub fn begin_attempt(&mut self)
        ensures
            final(self).charged() == old(self).charged(),
            final(self).first_delivery() is None,
            final(self).last_delivery() is None,
    {
        self.playback_start = None;
        self.last_sample = None;
    }

    /// Charges one failure and returns how many are charged now.
    pub fn charge(&mut self, now: u64) -> (r: u32)
        requires
            old(self).charged() < u32::MAX,
        ensures
            final(self).first_delivery() == old(self).first_delivery(),
            final(self).last_delivery() == old(self).last_delivery(),
            r == final(self).charged(),
            r == (if old(self).was_clean(now) {
                1
            } else {
                old(self).charged() + 1
            }),
    {
        let started_long_ago = match self.playback_start {
            Some(start) => elapsed_ns(now, start) >= CLEAN_STRETCH_NS,
            None => false,
        };
        let delivered_recently = match self.last_sample {
            Some(last) => elapsed_ns(now, last) < CLEAN_STRETCH_NS,
            None => false,
        };
        if started_long_ago && delivered_recently {
            self.cumulative = 0;
        }
        self.cumulative = self.cumulative + 1;
        self.cumulative
    }
}

/// How one attempt at playing a file ended.
#[derive(Debug)]
pub enum MediaAttempt {
    /// Playback is over.
    Finished,
    /// Another attempt may help.
    Transient(String),
}

/// What follows an attempt.
#[derive(Clone, Copy, Debug, PartialEq, Eq, Structural)]
pub enum RunStep {
    /// Leave the player.
    Done,
    /// Wait for the backoff and try again.
    Retry,
    /// Report the file as given up ([`Player::on_gave_up`]), and leave the player.
    GiveUp,
}

/// Decides what follows an attempt.
pub fn after_attempt(budget: &mut ReopenBudget, attempt: &MediaAttempt, now: u64) -> (r: RunStep)
    requires
        old(budget).charged() < MAX_REOPEN_CYCLES,
    ensures
        match attempt {
            MediaAttempt::Finished => r == RunStep::Done && *final(budget) == *old(budget),
            MediaAttempt::Transient(_) => {
                &&& final(budget).first_delivery() == old(budget).first_delivery()
                &&& final(budget).last_delivery() == old(budget).last_delivery()
                &&& final(budget).charged() == (if old(budget).was_clean(now) {
                    1
                } else {
                    old(budget).charged() + 1
                })
                &&& r == (if final(budget).charged() >= MAX_REOPEN_CYCLES {
                    RunStep::GiveUp
                } else {
                    RunStep::Retry
                })
            },
        },
        r == RunStep::Done <==> attempt is Finished,
        r == RunStep::GiveUp <==> attempt is Transient && old(budget).charged() == 5
            && !old(budget).was_clean(now),
{
    match attempt {
        MediaAttempt::Finished => RunStep::Done,
        MediaAttempt::Transient(_) => {
            let used: u32 = budget.charge(now);
            if used >= MAX_REOPEN_CYCLES {
                RunStep::GiveUp
            } else {
                RunStep::Retry
            }
        },
    }
}

/// The verdict on a file that failed too often.
pub fn gave_up_reason() -> (r: String)
    ensures
        r@ == "Medium wiederholt fehlgeschlagen (wiederholtes Nachladen)"@,
{
    "Medium wiederholt fehlgeschlagen (wiederholtes Nachladen)".to_owned()
}

/// A file that delivers a single sample per attempt and then stalls never earns
/// its failures back: a lone sample is either too recent to be a stretch or too
/// old to be recent.
pub proof fn law_single_sample_is_no_clean_stretch(budget: ReopenBudget, now: u64)
    requires
        budget.first_delivery() == budget.last_delivery(),
    ensures
        !budget.was_clean(now),
{
}

// ---------------------------------------------------------------------------
// File kinds
// ---------------------------------------------------------------------------

/// A stretch of playback was clean where samples began to come at least five seconds
/// ago and the last one came less than five seconds ago.
pub proof fn law_clean_stretch_is_long_and_recent(
    budget: ReopenBudget,
    first: u64,
    last: u64,
    now: u64,
)
    requires
        budget.first_delivery() == Some(first),
        budget.last_delivery() == Some(last),
        first <= last <= now,
    ensures
        budget.was_clean(now) <==> now - first >= 5_000_000_000 && now - last < 5_000_000_000,
{
}

/// Whether a lower-case address ends in the extension.
pub open spec fn has_extension(uri: Seq<char>, extension: Seq<char>) -> bool {
    text::ends_with(uri.map_values(|c: char| text::ascii_lower(c)), extension)
}

/// The extension by which an address counts as a pure audio file.
pub open spec fn audio_kind(uri: Seq<char>) -> Option<Seq<char>> {
    if has_extension(uri, ".flac"@) {
        Some("flac"@)
    } else if has_extension(uri, ".ogg"@) {
        Some("ogg"@)
    } else if has_extension(uri, ".opus"@) {
        Some("opus"@)
    } else if has_extension(uri, ".m4a"@) {
        Some("m4a"@)
    } else if has_extension(uri, ".aac"@) {
        Some("aac"@)
    } else if has_extension(uri, ".wav"@) {
        Some("wav"@)
    } else if has_extension(uri, ".mp3"@) {
        Some("mp3"@)
    } else {
        None
    }
}

/// The extension by which an address counts as a pure audio file.
pub fn audio_extension(uri: &str) -> (r: Option<&'static str>)
    ensures
        match r {
            Some(kind) => audio_kind(uri@) == Some(kind@),
            None => audio_kind(uri@) is None,
        },
{
    let chars = characters(uri);
    let lower = lower_chars(&chars);
    if ends_with_text(&lower, ".flac") {
        Some("flac")
    } else if ends_with_text(&lower, ".ogg") {
        Some("ogg")
    } else if ends_with_text(&lower, ".opus") {
        Some("opus")
    } else if ends_with_text(&lower, ".m4a") {
        Some("m4a")
    } else if ends_with_text(&lower, ".aac") {
        Some("aac")
    } else if ends_with_text(&lower, ".wav") {
        Some("wav")
    } else if ends_with_text(&lower, ".mp3") {
        Some("mp3")
    } else {
        None
    }
}

/// Files are told apart by how their names end, in capitals or not: the seven audio
/// formats are known under their own extension, whatever stands before it.
pub proof fn law_audio_is_known_by_its_extension(stem: Seq<char>)
    ensures
        audio_kind(stem + ".mp3"@) == Some("mp3"@),
        audio_kind(stem + ".wav"@) == Some("wav"@),
        audio_kind(stem + ".aac"@) == Some("aac"@),
        audio_kind(stem + ".m4a"@) == Some("m4a"@),
        audio_kind(stem + ".opus"@) == Some("opus"@),
        audio_kind(stem + ".ogg"@) == Some("ogg"@),
        audio_kind(stem + ".flac"@) == Some("flac"@),
        audio_kind(stem + ".MP3"@) == Some("mp3"@),
        audio_kind(stem + ".mp4"@) is None,
        audio_kind(stem + ".mkv"@) is None,
{
    reveal_strlit(".flac");
    reveal_strlit(".ogg");
    reveal_strlit(".opus");
    reveal_strlit(".m4a");
    reveal_strlit(".aac");
    reveal_strlit(".wav");
    reveal_strlit(".mp3");
    reveal_strlit(".MP3");
    reveal_strlit(".mp4");
    reveal_strlit(".mkv");
    lemma_has_extension(stem, ".flac"@, ".flac"@);
    lemma_other_extension(stem, ".ogg"@, ".flac"@, 1);
    lemma_has_extension(stem, ".ogg"@, ".ogg"@);
    lemma_other_extension(stem, ".opus"@, ".flac"@, 1);
    lemma_other_extension(stem, ".opus"@, ".ogg"@, 1);
    lemma_has_extension(stem, ".opus"@, ".opus"@);
    lemma_other_extension(stem, ".m4a"@, ".flac"@, 1);
    lemma_other_extension(stem, ".m4a"@, ".ogg"@, 1);
    lemma_other_extension(stem, ".m4a"@, ".opus"@, 1);
    lemma_has_extension(stem, ".m4a"@, ".m4a"@);
    lemma_other_extension(stem, ".aac"@, ".flac"@, 3);
    lemma_other_extension(stem, ".aac"@, ".ogg"@, 1);
    lemma_other_extension(stem, ".aac"@, ".opus"@, 1);
    lemma_other_extension(stem, ".aac"@, ".m4a"@, 1);
    lemma_has_extension(stem, ".aac"@, ".aac"@);
    lemma_other_extension(stem, ".wav"@, ".flac"@, 1);
    lemma_other_extension(stem, ".wav"@, ".ogg"@, 1);
    lemma_other_extension(stem, ".wav"@, ".opus"@, 1);
    lemma_other_extension(stem, ".wav"@, ".m4a"@, 1);
    lemma_other_extension(stem, ".wav"@, ".aac"@, 1);
    lemma_has_extension(stem, ".wav"@, ".wav"@);
    lemma_other_extension(stem, ".mp3"@, ".flac"@, 1);
    lemma_other_extension(stem, ".mp3"@, ".ogg"@, 1);
    lemma_other_extension(stem, ".mp3"@, ".opus"@, 1);
    lemma_other_extension(stem, ".mp3"@, ".m4a"@, 1);
    lemma_other_extension(stem, ".mp3"@, ".aac"@, 1);
    lemma_other_extension(stem, ".mp3"@, ".wav"@, 1);
    lemma_has_extension(stem, ".mp3"@, ".mp3"@);
    lemma_other_extension(stem, ".MP3"@, ".flac"@, 1);
    lemma_other_extension(stem, ".MP3"@, ".ogg"@, 1);
    lemma_other_extension(stem, ".MP3"@, ".opus"@, 1);
    lemma_other_extension(stem, ".MP3"@, ".m4a"@, 1);
    lemma_other_extension(stem, ".MP3"@, ".aac"@, 1);
    lemma_other_extension(stem, ".MP3"@, ".wav"@, 1);
    lemma_has_extension(stem, ".MP3"@, ".mp3"@);
    lemma_other_extension(stem, ".mp4"@, ".flac"@, 1);
    lemma_other_extension(stem, ".mp4"@, ".ogg"@, 1);
    lemma_other_extension(stem, ".mp4"@, ".opus"@, 1);
    lemma_other_extension(stem, ".mp4"@, ".m4a"@, 1);
    lemma_other_extension(stem, ".mp4"@, ".aac"@, 1);
    lemma_other_extension(stem, ".mp4"@, ".wav"@, 1);
    lemma_other_extension(stem, ".mp4"@, ".mp3"@, 1);
    lemma_other_extension(stem, ".mkv"@, ".flac"@, 1);
    lemma_other_extension(stem, ".mkv"@, ".ogg"@, 1);
    lemma_other_extension(stem, ".mkv"@, ".opus"@, 1);
    lemma_other_extension(stem, ".mkv"@, ".m4a"@, 1);
    lemma_other_extension(stem, ".mkv"@, ".aac"@, 1);
    lemma_other_extension(stem, ".mkv"@, ".wav"@, 2);
    lemma_other_extension(stem, ".mkv"@, ".mp3"@, 1);
}

proof fn lemma_has_extension(stem: Seq<char>, tail: Seq<char>, extension: Seq<char>)
    requires
        tail.len() == extension.len(),
        forall|i: int| 0 <= i < tail.len() ==> text::ascii_lower(#[trigger] tail[i]) == extension[i],
    ensures
        has_extension(stem + tail, extension),
{
    let name = (stem + tail).map_values(|c: char| text::ascii_lower(c));
    let at = name.len() - extension.len();
    assert(name.subrange(at, at + extension.len()) =~= extension);
}

proof fn lemma_other_extension(stem: Seq<char>, tail: Seq<char>, extension: Seq<char>, k: int)
    requires
        1 <= k <= tail.len(),
        k <= extension.len(),
        text::ascii_lower(tail[tail.len() - k]) != extension[extension.len() - k],
    ensures
        !has_extension(stem + tail, extension),
{
    let name = (stem + tail).map_values(|c: char| text::ascii_lower(c));
    let at = name.len() - extension.len();
    if has_extension(stem + tail, extension) {
        let end = name.subrange(at, at + extension.len());
        assert(end[extension.len() - k] == extension[extension.len() - k]);
        assert(end[extension.len() - k] == name[name.len() - k]);
    }
}

/// The pipeline of a pure audio file.
pub open spec fn audio_pipeline() -> Seq<char> {
    "uridecodebin name=decode ! queue ! audioconvert ! audioresample ! audio/x-raw,format=F32LE,rate=48000,channels=2,layout=interleaved ! appsink name=audio_sink sync=true async=false max-buffers=16 drop=true emit-signals=true"@
}

/// The pipeline of any other file: its video must come as NV12 in DMA-BUFs.
pub open spec fn video_pipeline() -> Seq<char> {
    "uridecodebin name=decode ! queue ! capsfilter caps=\"video/x-raw(memory:DMABuf),format=DMA_DRM,drm-format=NV12\" ! appsink name=video_sink sync=true async=false max-buffers=2 drop=false emit-signals=true decode. ! queue ! audioconvert ! audioresample ! audio/x-raw,format=F32LE,rate=48000,channels=2,layout=interleaved ! appsink name=audio_sink sync=true async=false max-buffers=16 drop=true emit-signals=true"@
}

/// The pipeline that plays the file at an address.
pub fn pipeline_description(uri: &str) -> (r: &'static str)
    ensures
        r@ == (if audio_kind(uri@) is Some {
            audio_pipeline()
        } else {
            video_pipeline()
        }),
{
    if audio_extension(uri).is_some() {
        "uridecodebin name=decode ! queue ! audioconvert ! audioresample ! audio/x-raw,format=F32LE,rate=48000,channels=2,layout=interleaved ! appsink name=audio_sink sync=true async=false max-buffers=16 drop=true emit-signals=true"
    } else {
        "uridecodebin name=decode ! queue ! capsfilter caps=\"video/x-raw(memory:DMABuf),format=DMA_DRM,drm-format=NV12\" ! appsink name=video_sink sync=true async=false max-buffers=2 drop=false emit-signals=true decode. ! queue ! audioconvert ! audioresample ! audio/x-raw,format=F32LE,rate=48000,channels=2,layout=interleaved ! appsink name=audio_sink sync=true async=false max-buffers=16 drop=true emit-signals=true"
    }
}

/// What can fail before a pipeline runs.
#[derive(Clone, Copy, Debug, PartialEq, Eq, Structural)]
pub enum SetupStage {
    Parse,
    Downcast,
    Decoder,
    VideoSink,
    AudioSinkMissing,
    AudioSink,
    Pause,
    Play,
    Bus,
}

/// The verdict on a file whose pipeline could not be set up. `error` is the text of
/// the failed call, where there is one.
pub fn setup_error(stage: SetupStage, error: &str) -> (r: String)
    ensures
        r@ == (match stage {
            SetupStage::Parse => "hardware DMA-BUF pipeline: "@ + error@,
            SetupStage::Downcast => "media pipeline is not a GstPipeline"@,
            SetupStage::Decoder => "uridecodebin missing"@,
            SetupStage::VideoSink => "video sink is not appsink"@,
            SetupStage::AudioSinkMissing => "audio appsink missing"@,
            SetupStage::AudioSink => "audio sink is not appsink"@,
            SetupStage::Pause => "pause media pipeline: "@ + error@,
            SetupStage::Play => "start media pipeline: "@ + error@,
            SetupStage::Bus => "media pipeline has no bus"@,
        }),
{
    match stage {
        SetupStage::Parse => joined("hardware DMA-BUF pipeline: ", error),
        SetupStage::Downcast => "media pipeline is not a GstPipeline".to_owned(),
        SetupStage::Decoder => "uridecodebin missing".to_owned(),
        SetupStage::VideoSink => "video sink is not appsink".to_owned(),
        SetupStage::AudioSinkMissing => "audio appsink missing".to_owned(),
        SetupStage::AudioSink => "audio sink is not appsink".to_owned(),
        SetupStage::Pause => joined("pause media pipeline: ", error),
        SetupStage::Play => joined("start media pipeline: ", error),
        SetupStage::Bus => "media pipeline has no bus".to_owned(),
    }
}

// ---------------------------------------------------------------------------
// Samples
// ---------------------------------------------------------------------------

/// The decoded pictures of one attempt.
pub struct VideoTap {
    pub pacer: MediaPacer,
    pub sequence: u64,
}

impl VideoTap {
    /// Before the first picture.
    pub fn new(now: u64) -> (r: Self)
        ensures
            r.sequence == 0,
            !r.pacer.has_started(),
            r.pacer.run_start() == now,
    {
        VideoTap { pacer: MediaPacer::new(now), sequence: 0 }
    }

    /// The number of the next picture; pictures are numbered from zero. It counts as
    /// delivered at `now`, once it was held back.
    pub fn on_delivered(&mut self, budget: &mut ReopenBudget, now: u64) -> (r: u64)
        ensures
            r == old(self).sequence,
            final(self).sequence == (old(self).sequence + 1) % 0x1_0000_0000_0000_0000,
            final(self).pacer == old(self).pacer,
            final(budget).charged() == old(budget).charged(),
            final(budget).last_delivery() == Some(now),
            final(budget).first_delivery() == (if old(budget).first_delivery() is Some {
                old(budget).first_delivery()
            } else {
                Some(now)
            }),
    {
        let number: u64 = self.sequence;
        self.sequence = self.sequence.wrapping_add(1);
        budget.note_sample(now);
        number
    }
}

/// The decoded audio of one attempt.
pub struct AudioTap {
    pub pacer: MediaPacer,
    pub registered: bool,
}

impl AudioTap {
    /// Before the first sample.
    pub fn new(now: u64) -> (r: Self)
        ensures
            !r.registered,
            !r.pacer.has_started(),
            r.pacer.run_start() == now,
    {
        AudioTap { pacer: MediaPacer::new(now), registered: false }
    }

    /// A sample counts as delivered at `now`. True for the first one, whose ring is
    /// handed to the mixer.
    pub fn on_delivered(&mut self, budget: &mut ReopenBudget, now: u64) -> (r: bool)
        ensures
            r == !old(self).registered,
            final(self).registered,
            final(self).pacer == old(self).pacer,
            final(budget).charged() == old(budget).charged(),
            final(budget).last_delivery() == Some(now),
            final(budget).first_delivery() == (if old(budget).first_delivery() is Some {
                old(budget).first_delivery()
            } else {
                Some(now)
            }),
    {
        let first = !self.registered;
        if first {
            self.registered = true;
            budget.note_playback_start(now);
        }
        budget.note_sample(now);
        first
    }
}

// ---------------------------------------------------------------------------
// Planes of a decoded frame
// ---------------------------------------------------------------------------

/// The bytes of a buffer in which a plane begins: from its offset to the next
/// plane's offset or the end of the buffer, at least one byte, within the buffer.
pub fn plane_window(offsets: &Vec<usize>, plane: usize, size: usize) -> (r: (usize, usize))
    requires
        plane < offsets@.len(),
        offsets@[plane as int] < usize::MAX,
    ensures
        r.0 == offsets@[plane as int],
        r.1 == ({
            let next = if plane + 1 < offsets@.len() {
                offsets@[plane + 1] as int
            } else {
                size as int
            };
            let end = if next > offsets@[plane as int] + 1 {
                next
            } else {
                offsets@[plane as int] + 1
            };
            if end < size {
                end
            } else {
                size as int
            }
        }),
        // The window is not empty and ends where the next plane begins, or with the data.
        offsets@[plane as int] < size ==> r.0 < r.1 <= size,
        plane + 1 == offsets@.len() && offsets@[plane as int] < size ==> r.1 == size,
        plane + 1 < offsets@.len() && offsets@[plane as int] < offsets@[plane + 1] <= size ==> r.1
            == offsets@[plane + 1],
{
    let offset: usize = offsets[plane];
    let next: usize = if plane < offsets.len() - 1 {
        offsets[plane + 1]
    } else {
        size
    };
    let end: usize = if next > offset + 1 {
        next
    } else {
        offset + 1
    };
    (
        offset,
        if end < size {
            end
        } else {
            size
        },
    )
}

/// Where a plane begins in its memory object.
pub fn plane_offset(memory_offset: usize, skip: usize) -> (r: Result<u32, String>)
    ensures
        match r {
            Ok(offset) => offset == memory_offset + skip,
            Err(reason) => memory_offset + skip > u32::MAX && reason@
                == "media DMA-BUF plane offset overflows u32"@,
        },
{
    match memory_offset.checked_add(skip) {
        Some(offset) => if offset <= u32::MAX as usize {
            Ok(offset as u32)
        } else {
            Err("media DMA-BUF plane offset overflows u32".to_owned())
        },
        None => Err("media DMA-BUF plane offset overflows u32".to_owned()),
    }
}

/// The stride of a plane.
pub fn plane_stride(stride: i32) -> (r: Result<u32, String>)
    ensures
        match r {
            Ok(value) => stride >= 0 && value == stride,
            Err(reason) => stride < 0 && reason@ == "media DMA-BUF plane stride is invalid"@,
        },
{
    if stride >= 0 {
        Ok(stride as u32)
    } else {
        Err("media DMA-BUF plane stride is invalid".to_owned())
    }
}

/// Why the planes of a sample cannot be looked up.
pub enum SampleFault {
    NoCaps,
    /// The caps do not describe DMA-BUF video; the text says why.
    InvalidCaps(String),
    NoBuffer,
}

impl SampleFault {
    /// What is told about the sample.
    pub fn message(&self) -> (r: String)
        ensures
            r@ == (match *self {
                SampleFault::NoCaps => "video sample has no caps"@,
                SampleFault::InvalidCaps(error) => "invalid DMA-DRM video caps: "@ + error@,
                SampleFault::NoBuffer => "video sample has no buffer"@,
            }),
    {
        match self {
            SampleFault::NoCaps => "video sample has no caps".to_owned(),
            SampleFault::InvalidCaps(error) => joined(
                "invalid DMA-DRM video caps: ",
                error.as_str(),
            ),
            SampleFault::NoBuffer => "video sample has no buffer".to_owned(),
        }
    }
}

/// What was found behind a plane's bytes.
pub enum PlaneMemory {
    /// Nothing backs them.
    Missing,
    /// They lie in several memory objects.
    Spread,
    /// Their memory object is no DMA-BUF.
    Foreign,
    /// The descriptor could not be duplicated; the system's words.
    NotDuplicated(String),
    /// One DMA-BUF, with the offset of its memory and of the plane in that.
    Found { memory_offset: usize, skip: usize },
}

/// Where a plane lies in its DMA-BUF.
#[derive(Clone, Copy, Debug, PartialEq, Eq, Structural)]
pub struct MediaPlane {
    pub offset: u32,
    pub stride: u32,
}

/// Where a plane lies, or why it cannot be used.
pub open spec fn plane_result(plane: int, found: PlaneMemory, stride: i32) -> Result<
    MediaPlane,
    Seq<char>,
> {
    match found {
        PlaneMemory::Missing => Err(
            "DMA-BUF plane "@ + text::decimal_digits(plane as nat) + " has no backing memory"@,
        ),
        PlaneMemory::Spread => Err(
            "DMA-BUF plane "@ + text::decimal_digits(plane as nat)
                + " spans multiple memory objects"@,
        ),
        PlaneMemory::Foreign => Err("GStreamer negotiated non-DMA-BUF video memory"@),
        PlaneMemory::NotDuplicated(reason) => Err("duplicate media DMA-BUF fd: "@ + reason@),
        PlaneMemory::Found { memory_offset, skip } => if memory_offset + skip > u32::MAX {
            Err("media DMA-BUF plane offset overflows u32"@)
        } else if stride < 0 {
            Err("media DMA-BUF plane stride is invalid"@)
        } else {
            Ok(MediaPlane { offset: (memory_offset + skip) as u32, stride: stride as u32 })
        },
    }
}

/// A plane lies where its memory begins, as far in as it is said to, with the stride that
/// it has; one that is not wholly in one shared memory, or whose place or stride no number
/// of 32 bits can give, is refused.
pub proof fn law_plane_lies_in_its_memory(plane: int, found: PlaneMemory, stride: i32)
    ensures
        plane_result(plane, found, stride) matches Ok(layout) ==> {
            &&& found matches PlaneMemory::Found { memory_offset, skip } && layout.offset
                == memory_offset + skip
            &&& layout.stride == stride
        },
        found matches PlaneMemory::Found { memory_offset, skip } ==> (plane_result(
            plane,
            found,
            stride,
        ) is Ok <==> memory_offset + skip <= u32::MAX && stride >= 0),
        !(found is Found) ==> plane_result(plane, found, stride) is Err,
{
}

/// Where one plane lies.
pub fn plane_layout(plane: usize, found: &PlaneMemory, stride: i32) -> (r: Result<
    MediaPlane,
    String,
>)
    ensures
        match r {
            Ok(layout) => plane_result(plane as int, *found, stride) == Ok::<_, Seq<char>>(layout),
            Err(reason) => plane_result(plane as int, *found, stride) == Err::<MediaPlane, _>(
                reason@,
            ),
        },
{
    match found {
        PlaneMemory::Missing => Err(
            joined(
                joined("DMA-BUF plane ", text::decimal(plane as u64).as_str()).as_str(),
                " has no backing memory",
            ),
        ),
        PlaneMemory::Spread => Err(
            joined(
                joined("DMA-BUF plane ", text::decimal(plane as u64).as_str()).as_str(),
                " spans multiple memory objects",
            ),
        ),
        PlaneMemory::Foreign => Err("GStreamer negotiated non-DMA-BUF video memory".to_owned()),
        PlaneMemory::NotDuplicated(reason) => Err(
            joined("duplicate media DMA-BUF fd: ", reason.as_str()),
        ),
        PlaneMemory::Found { memory_offset, skip } => match plane_offset(*memory_offset, *skip) {
            Ok(offset) => match plane_stride(stride) {
                Ok(stride) => Ok(MediaPlane { offset, stride }),
                Err(reason) => Err(reason),
            },
            Err(reason) => Err(reason),
        },
    }
}

/// Where the planes of a frame lie, given what was found behind each; the first
/// plane that cannot be used, or a frame without planes, refuses the frame.
pub fn dma_buf_planes(found: &Vec<PlaneMemory>, strides: &Vec<i32>) -> (r: Result<
    Vec<MediaPlane>,
    String,
>)
    requires
        found@.len() <= strides@.len(),
    ensures
        match r {
            Ok(layouts) => {
                &&& found@.len() > 0
                &&& layouts@.len() == found@.len()
                &&& forall|i: int|
                    0 <= i < found@.len() ==> plane_result(i, #[trigger] found@[i], strides@[i])
                        == Ok::<_, Seq<char>>(layouts@[i])
            },
            Err(reason) => if found@.len() == 0 {
                reason@ == "DMA-BUF video sample has no planes"@
            } else {
                exists|k: int|
                    0 <= k < found@.len() && plane_result(k, #[trigger] found@[k], strides@[k])
                        == Err::<MediaPlane, _>(reason@) && forall|i: int|
                        0 <= i < k ==> plane_result(i, #[trigger] found@[i], strides@[i]) is Ok
            },
        },
{
    let mut layouts: Vec<MediaPlane> = Vec::new();
    let mut plane: usize = 0;
    while plane < found.len()
        invariant
            plane <= found@.len() <= strides@.len(),
            layouts@.len() == plane,
            forall|i: int|
                0 <= i < plane ==> plane_result(i, #[trigger] found@[i], strides@[i]) == Ok::<
                    _,
                    Seq<char>,
                >(layouts@[i]),
        decreases found@.len() - plane,
    {
        match plane_layout(plane, &found[plane], strides[plane]) {
            Ok(layout) => {
                layouts.push(layout);
            },
            Err(reason) => {
                return Err(reason);
            },
        }
        plane += 1;
    }
    if layouts.len() == 0 {
        return Err("DMA-BUF video sample has no planes".to_owned());
    }
    Ok(layouts)
}

// ---------------------------------------------------------------------------
// The player
// ---------------------------------------------------------------------------

/// What the player tells the renderer about its state; times are whole seconds.
#[derive(Clone, Copy, Debug, PartialEq, Eq, Structural)]
pub struct PlaybackReport {
    pub playing: bool,
    pub position: u64,
    pub duration: Option<u64>,
}

/// What happens beside the pipeline, in order.
#[derive(Debug)]
pub enum PlayerEffect {
    /// Audio is let through or muted.
    RingActive(bool),
    /// Buffered audio is dropped.
    RingClear,
    /// The renderer is told that a jump failed.
    SeekFailed(String),
    /// The renderer is told that the file cannot be played.
    Unsupported(String),
    /// The renderer is told the state, without fail.
    Report(PlaybackReport),
}

/// What an effect says.
pub enum EffectView {
    RingActive(bool),
    RingClear,
    SeekFailed(Seq<char>),
    Unsupported(Seq<char>),
    Report(PlaybackReport),
}

impl View for PlayerEffect {
    type V = EffectView;

    open spec fn view(&self) -> EffectView {
        match *self {
            PlayerEffect::RingActive(on) => EffectView::RingActive(on),
            PlayerEffect::RingClear => EffectView::RingClear,
            PlayerEffect::SeekFailed(reason) => EffectView::SeekFailed(reason@),
            PlayerEffect::Unsupported(reason) => EffectView::Unsupported(reason@),
            PlayerEffect::Report(state) => EffectView::Report(state),
        }
    }
}

/// What a list of effects says.
pub open spec fn effects_view(effects: Seq<PlayerEffect>) -> Seq<EffectView> {
    effects.map_values(|e: PlayerEffect| e@)
}

fn perform(effects: &mut Vec<PlayerEffect>, effect: PlayerEffect)
    ensures
        effects_view(final(effects)@) == effects_view(old(effects)@).push(effect@),
{
    effects.push(effect);
    assert(effects_view(effects@) =~= effects_view(old(effects)@).push(effect@));
}

/// The next pipeline call for a command.
#[derive(Clone, Copy, Debug, PartialEq, Eq, Structural)]
pub enum PipelineCall {
    /// No call.
    Nothing,
    /// Jump to the start of the file.
    SeekStart,
    /// Jump to the position (bit pattern of seconds).
    SeekTo(u64),
    /// Play.
    SetPlaying,
    /// Pause.
    SetPaused,
    /// Stop and leave the player.
    Stop,
}

/// What the player's error message means.
#[derive(Debug)]
pub enum ErrorOutcome {
    /// The verdict was reported: report the paused state and leave the attempt.
    Finish,
    /// Leave the player with this reason.
    Fatal(String),
    /// Leave the attempt and try again.
    Retry(String),
}

/// An error message of the pipeline: which of the error domains it belongs to,
/// its message, its debug detail and its full text.
#[derive(Debug)]
pub struct PipelineError {
    pub stream: bool,
    pub resource: bool,
    pub core: bool,
    pub message: String,
    pub detail: String,
    pub display: String,
}

/// Whether another attempt may cure an error.
pub open spec fn is_transient(error: PipelineError) -> bool {
    error.stream || text::occurs(error.detail@, "not-linked"@) || text::occurs(
        error.message@,
        "Internal data stream error"@,
    ) || error.resource || error.core
}

/// Whether an error says that no common format was found.
pub open spec fn is_negotiation(error: PipelineError) -> bool {
    text::occurs(
        (error.message@ + " "@ + error.detail@).map_values(|c: char| text::ascii_lower(c)),
        "negotiat"@,
    )
}

/// State of a player that outlives its attempts.
pub struct Player {
    looped: bool,
    desired_playing: bool,
    unsupported: bool,
    playing: bool,
    ended: bool,
    last_state: Option<PlaybackReport>,
}

/// What a player knows.
#[verifier::ext_equal]
pub struct PlayerView {
    pub looped: bool,
    pub desired_playing: bool,
    pub unsupported: bool,
    pub playing: bool,
    pub ended: bool,
    pub last_state: Option<PlaybackReport>,
}

impl View for Player {
    type V = PlayerView;

    closed spec fn view(&self) -> PlayerView {
        PlayerView {
            looped: self.looped,
            desired_playing: self.desired_playing,
            unsupported: self.unsupported,
            playing: self.playing,
            ended: self.ended,
            last_state: self.last_state,
        }
    }
}

/// A player whose file is opened again: it plays where playing is wanted.
pub open spec fn reopened(p: PlayerView) -> PlayerView {
    PlayerView { playing: p.desired_playing, ended: false, last_state: None, ..p }
}

/// A player whose file came to its end.
pub open spec fn at_end(p: PlayerView) -> PlayerView {
    PlayerView { playing: false, ended: true, desired_playing: false, ..p }
}

/// A player whose file cannot be played.
pub open spec fn condemned(p: PlayerView) -> PlayerView {
    PlayerView { unsupported: true, ..p }
}

/// What is told about a file that cannot be played: once.
pub open spec fn verdict(p: PlayerView, reason: Seq<char>) -> Seq<EffectView> {
    if p.unsupported {
        Seq::empty()
    } else {
        seq![EffectView::Unsupported(reason)]
    }
}

/// The state to report, where it is not the last one delivered.
pub open spec fn report_of(p: PlayerView, position: u64, duration: Option<u64>) -> Option<
    PlaybackReport,
> {
    let state = PlaybackReport { playing: p.playing, position, duration };
    if p.last_state == Some(state) {
        None
    } else {
        Some(state)
    }
}

/// A file that does not play, at a position.
pub open spec fn paused_at(position: u64, duration: Option<u64>) -> PlaybackReport {
    PlaybackReport { playing: false, position, duration }
}

/// A player whose state was delivered.
pub open spec fn delivered(p: PlayerView, state: PlaybackReport) -> PlayerView {
    PlayerView { last_state: Some(state), ..p }
}

/// Whether a command mutes the audio before the player sees it.
pub fn mutes_at_once(command: MediaCommand) -> (r: bool)
    ensures
        r == (command is Pause || command is Stop),
{
    match command {
        MediaCommand::Pause => true,
        MediaCommand::Stop => true,
        _ => false,
    }
}

impl Player {
    /// A player for a freshly opened file, which starts playing.
    pub fn new(looped: bool) -> (r: Self)
        ensures
            r@ == (PlayerView {
                looped,
                desired_playing: true,
                unsupported: false,
                playing: false,
                ended: false,
                last_state: None,
            }),
    {
        Player {
            looped,
            desired_playing: true,
            unsupported: false,
            playing: false,
            ended: false,
            last_state: None,
        }
    }

    /// Begins an attempt. True where the pipeline is to be played, else it stays
    /// paused: an attempt that failed while paused comes back paused.
    pub fn begin_attempt(&mut self) -> (r: bool)
        ensures
            r == old(self)@.desired_playing,
            final(self)@ == reopened(old(self)@),
    {
        self.playing = self.desired_playing;
        self.ended = false;
        self.last_state = None;
        self.desired_playing
    }

    /// The first pipeline call for a command.
    pub fn on_command(&mut self, command: MediaCommand) -> (r: PipelineCall)
        ensures
            r == (match command {
                MediaCommand::Play => if old(self)@.ended {
                    PipelineCall::SeekStart
                } else {
                    PipelineCall::SetPlaying
                },
                MediaCommand::Pause => PipelineCall::SetPaused,
                MediaCommand::Seek(position) => PipelineCall::SeekTo(position),
                MediaCommand::SetLoop(_) => PipelineCall::Nothing,
                MediaCommand::Stop => PipelineCall::Stop,
            }),
            final(self)@ == (match command {
                MediaCommand::SetLoop(value) => PlayerView { looped: value, ..old(self)@ },
                _ => old(self)@,
            }),
    {
        match command {
            MediaCommand::Play => if self.ended {
                PipelineCall::SeekStart
            } else {
                PipelineCall::SetPlaying
            },
            MediaCommand::Pause => PipelineCall::SetPaused,
            MediaCommand::Seek(position) => PipelineCall::SeekTo(position),
            MediaCommand::SetLoop(value) => {
                self.looped = value;
                PipelineCall::Nothing
            },
            MediaCommand::Stop => PipelineCall::Stop,
        }
    }

    /// The jump to the start that a play command needs was made, or not. True
    /// where the pipeline is to be played next.
    pub fn on_restart_seek(&mut self, ok: bool, effects: &mut Vec<PlayerEffect>) -> (r: bool)
        ensures
            r == ok,
            final(self)@ == (if ok {
                PlayerView { ended: false, ..old(self)@ }
            } else {
                old(self)@
            }),
            effects_view(final(effects)@) == (if ok {
                effects_view(old(effects)@).push(EffectView::RingClear)
            } else {
                effects_view(old(effects)@)
            }),
    {
        if ok {
            self.ended = false;
            perform(effects, PlayerEffect::RingClear);
        }
        ok
    }

    /// The pipeline was played for a play command, or not.
    pub fn on_playing_set(&mut self, ok: bool, effects: &mut Vec<PlayerEffect>)
        ensures
            final(self)@ == (if ok {
                PlayerView { playing: true, desired_playing: true, ..old(self)@ }
            } else {
                old(self)@
            }),
            effects_view(final(effects)@) == (if ok {
                effects_view(old(effects)@).push(EffectView::RingActive(true))
            } else {
                effects_view(old(effects)@)
            }),
    {
        if ok {
            self.playing = true;
            self.desired_playing = true;
            perform(effects, PlayerEffect::RingActive(true));
        }
    }

    /// The pipeline of a new attempt plays, as was wanted: audio is let through.
    pub fn on_attempt_playing(&self, effects: &mut Vec<PlayerEffect>)
        ensures
            effects_view(final(effects)@) == effects_view(old(effects)@).push(
                EffectView::RingActive(true),
            ),
    {
        perform(effects, PlayerEffect::RingActive(true));
    }

    /// Ends a play command: where it had no effect the paused state is reported, so
    /// that nobody waits for a player that does not play.
    pub fn on_play_ended(
        &self,
        position: u64,
        duration: Option<u64>,
        effects: &mut Vec<PlayerEffect>,
    )
        ensures
            effects_view(final(effects)@) == (if self@.playing {
                effects_view(old(effects)@)
            } else {
                effects_view(old(effects)@).push(EffectView::Report(paused_at(position, duration)))
            }),
    {
        if !self.playing {
            perform(
                effects,
                PlayerEffect::Report(PlaybackReport { playing: false, position, duration }),
            );
        }
    }

    /// The attempt ended for good: the paused state is reported.
    pub fn on_attempt_finished(
        &self,
        position: u64,
        duration: Option<u64>,
        effects: &mut Vec<PlayerEffect>,
    )
        ensures
            effects_view(final(effects)@) == effects_view(old(effects)@).push(
                EffectView::Report(paused_at(position, duration)),
            ),
    {
        perform(
            effects,
            PlayerEffect::Report(PlaybackReport { playing: false, position, duration }),
        );
    }

    /// The file failed too often: it is reported as unplayable, unless that was done
    /// before, and as paused at its start.
    pub fn on_gave_up(&mut self, effects: &mut Vec<PlayerEffect>)
        ensures
            final(self)@ == condemned(old(self)@),
            effects_view(final(effects)@) == (effects_view(old(effects)@) + verdict(
                old(self)@,
                "Medium wiederholt fehlgeschlagen (wiederholtes Nachladen)"@,
            )).push(EffectView::Report(paused_at(0, None))),
    {
        self.unsupported_once(gave_up_reason(), effects);
        perform(
            effects,
            PlayerEffect::Report(PlaybackReport { playing: false, position: 0, duration: None }),
        );
    }

    /// The pipeline was paused for a pause command, or not.
    pub fn on_paused_set(&mut self, ok: bool)
        ensures
            final(self)@ == (if ok {
                PlayerView { playing: false, desired_playing: false, ..old(self)@ }
            } else {
                old(self)@
            }),
    {
        if ok {
            self.playing = false;
            self.desired_playing = false;
        }
    }

    /// The jump of a seek command was made, or not.
    pub fn on_seek(&mut self, result: Result<(), String>, effects: &mut Vec<PlayerEffect>)
        ensures
            match result {
                Ok(()) => {
                    &&& final(self)@ == (PlayerView { ended: false, ..old(self)@ })
                    &&& effects_view(final(effects)@) == effects_view(old(effects)@).push(
                        EffectView::RingClear,
                    )
                },
                Err(error) => {
                    &&& final(self)@ == old(self)@
                    &&& effects_view(final(effects)@) == effects_view(old(effects)@).push(
                        EffectView::SeekFailed("Seek fehlgeschlagen: "@ + error@),
                    )
                },
            },
    {
        match result {
            Ok(()) => {
                self.ended = false;
                perform(effects, PlayerEffect::RingClear);
            },
            Err(error) => {
                perform(
                    effects,
                    PlayerEffect::SeekFailed(joined("Seek fehlgeschlagen: ", error.as_str())),
                );
            },
        }
    }

    /// The end of the file was reached: a looped file jumps to its start, another
    /// one is paused there.
    pub fn on_end_of_stream(&mut self, effects: &mut Vec<PlayerEffect>) -> (r: PipelineCall)
        ensures
            if old(self)@.looped {
                &&& r == PipelineCall::SeekStart
                &&& final(self)@ == old(self)@
                &&& effects_view(final(effects)@) == effects_view(old(effects)@)
            } else {
                &&& r == PipelineCall::SetPaused
                &&& final(self)@ == at_end(old(self)@)
                &&& effects_view(final(effects)@) == effects_view(old(effects)@).push(
                    EffectView::RingActive(false),
                )
            },
    {
        if self.looped {
            PipelineCall::SeekStart
        } else {
            self.playing = false;
            self.ended = true;
            self.desired_playing = false;
            perform(effects, PlayerEffect::RingActive(false));
            PipelineCall::SetPaused
        }
    }

    /// The jump of a looped file was made, or not. A failed jump counts as the
    /// end, so that a later play command starts over.
    pub fn on_loop_seek(&mut self, result: Result<(), String>, effects: &mut Vec<PlayerEffect>)
        ensures
            match result {
                Ok(()) => {
                    &&& final(self)@ == old(self)@
                    &&& effects_view(final(effects)@) == effects_view(old(effects)@).push(
                        EffectView::RingClear,
                    )
                },
                Err(error) => {
                    &&& final(self)@ == (PlayerView { ended: true, ..old(self)@ })
                    &&& effects_view(final(effects)@) == effects_view(old(effects)@).push(
                        EffectView::SeekFailed("Wiederholungs-Seek fehlgeschlagen: "@ + error@),
                    ).push(EffectView::RingActive(false))
                },
            },
    {
        match result {
            Ok(()) => {
                perform(effects, PlayerEffect::RingClear);
            },
            Err(error) => {
                perform(
                    effects,
                    PlayerEffect::SeekFailed(
                        joined("Wiederholungs-Seek fehlgeschlagen: ", error.as_str()),
                    ),
                );
                self.ended = true;
                perform(effects, PlayerEffect::RingActive(false));
            },
        }
    }

    /// Reports the file as unplayable, unless that was done before.
    pub fn unsupported_once(&mut self, reason: String, effects: &mut Vec<PlayerEffect>)
        ensures
            final(self)@ == condemned(old(self)@),
            effects_view(final(effects)@) == effects_view(old(effects)@) + verdict(
                old(self)@,
                reason@,
            ),
    {
        let ghost before = effects_view(effects@);
        if !self.unsupported {
            self.unsupported = true;
            perform(effects, PlayerEffect::Unsupported(reason));
        }
        assert(effects_view(effects@) =~= before + verdict(old(self)@, reason@));
    }

    /// A decoded video sample arrived. True where it lies in a DMA-BUF and is
    /// shown; otherwise the file is reported as unplayable.
    pub fn on_video_sample(&mut self, dma_buf: bool, effects: &mut Vec<PlayerEffect>) -> (r: bool)
        ensures
            r == dma_buf,
            final(self)@ == (PlayerView {
                unsupported: old(self)@.unsupported || !dma_buf,
                ..old(self)@
            }),
            effects_view(final(effects)@) == (if dma_buf || old(self)@.unsupported {
                effects_view(old(effects)@)
            } else {
                effects_view(old(effects)@).push(
                    EffectView::Unsupported(
                        "Software-/Systemspeicher-Videodecoder abgelehnt; DMA-BUF erforderlich"@,
                    ),
                )
            }),
    {
        if !dma_buf {
            self.unsupported_once(
                "Software-/Systemspeicher-Videodecoder abgelehnt; DMA-BUF erforderlich".to_owned(),
                effects,
            );
        }
        dma_buf
    }

    /// The pipeline reported an error. `audio` is the extension of a pure audio
    /// file.
    pub fn on_error(
        &mut self,
        error: PipelineError,
        audio: Option<&'static str>,
        effects: &mut Vec<PlayerEffect>,
    ) -> (r: ErrorOutcome)
        ensures
            if is_transient(error) && is_negotiation(error) {
                let reason = match audio {
                    Some(extension) => "Audioformat nicht unterstützt: "@ + extension@,
                    None => "DMA-BUF-Videounterhandlung fehlgeschlagen: "@ + error.detail@,
                };
                &&& r is Finish
                &&& final(self)@ == (PlayerView { unsupported: true, ..old(self)@ })
                &&& effects_view(final(effects)@) == (if old(self)@.unsupported {
                    effects_view(old(effects)@)
                } else {
                    effects_view(old(effects)@).push(EffectView::Unsupported(reason))
                }).push(EffectView::RingActive(false))
            } else {
                &&& final(self)@ == old(self)@
                &&& effects_view(final(effects)@) == effects_view(old(effects)@).push(
                    EffectView::RingActive(false),
                )
                &&& if is_transient(error) {
                    r matches ErrorOutcome::Retry(reason) && reason@ == "transient media error: "@
                        + error.detail@
                } else {
                    r matches ErrorOutcome::Fatal(reason) && reason@ == error.display@ + ": "@
                        + error.detail@
                }
            },
    {
        let transient = error.stream || contains_text(error.detail.as_str(), "not-linked")
            || contains_text(error.message.as_str(), "Internal data stream error")
            || error.resource || error.core;
        let mut indication = joined(error.message.as_str(), " ");
        indication.append(error.detail.as_str());
        let chars = characters(indication.as_str());
        let lower = lower_chars(&chars);
        let negotiation = contains_chars(&lower, "negotiat");
        if transient && negotiation {
            let reason = match audio {
                Some(extension) => joined("Audioformat nicht unterstützt: ", extension),
                None => joined(
                    "DMA-BUF-Videounterhandlung fehlgeschlagen: ",
                    error.detail.as_str(),
                ),
            };
            self.unsupported_once(reason, effects);
            perform(effects, PlayerEffect::RingActive(false));
            return ErrorOutcome::Finish;
        }
        perform(effects, PlayerEffect::RingActive(false));
        if !transient {
            let mut reason = joined(error.display.as_str(), ": ");
            reason.append(error.detail.as_str());
            return ErrorOutcome::Fatal(reason);
        }
        ErrorOutcome::Retry(joined("transient media error: ", error.detail.as_str()))
    }

    /// The state to report, or `None` where it was the last one delivered.
    pub fn report(&self, position: u64, duration: Option<u64>) -> (r: Option<PlaybackReport>)
        ensures
            r == report_of(self@, position, duration),
    {
        let state = PlaybackReport { playing: self.playing, position, duration };
        match self.last_state {
            Some(last) => if last == state {
                None
            } else {
                Some(state)
            },
            None => Some(state),
        }
    }

    /// A reported state was delivered. One that was not is reported again.
    pub fn on_report_delivered(&mut self, state: PlaybackReport)
        ensures
            final(self)@ == delivered(old(self)@, state),
    {
        self.last_state = Some(state);
    }
}

// ---------------------------------------------------------------------------
// Laws
// ---------------------------------------------------------------------------

/// A file that ended by itself stays paused when a later error re-opens it.
pub proof fn law_ended_file_reopens_paused(p: PlayerView)
    ensures
        !reopened(at_end(p)).playing,
        reopened(p).playing == p.desired_playing,
{
}

/// A fault is worth another attempt where it is one of the stream, of a resource or of
/// the core, or where its words say that an element was not linked or that data stopped
/// flowing; nothing else is.
pub proof fn law_transient_faults(error: PipelineError)
    ensures
        error.stream || error.resource || error.core ==> is_transient(error),
        text::occurs(error.detail@, "not-linked"@) ==> is_transient(error),
        text::occurs(error.message@, "Internal data stream error"@) ==> is_transient(error),
        is_transient(error) ==> error.stream || error.resource || error.core || text::occurs(
            error.detail@,
            "not-linked"@,
        ) || text::occurs(error.message@, "Internal data stream error"@),
{
}

/// Reopening a file keeps what the user wants and what is known of the file; only the
/// progress is forgotten.
pub proof fn law_reopening_keeps_the_wishes(p: PlayerView)
    ensures
        reopened(p).looped == p.looped,
        reopened(p).desired_playing == p.desired_playing,
        reopened(p).unsupported == p.unsupported,
        !reopened(p).ended,
        reopened(p).last_state is None,
        at_end(p).ended && !at_end(p).playing && !at_end(p).desired_playing,
        at_end(p).looped == p.looped && at_end(p).unsupported == p.unsupported,
        condemned(p).unsupported && condemned(p).looped == p.looped && condemned(p).playing
            == p.playing && condemned(p).ended == p.ended,
{
}

/// A state is reported exactly where it differs from the one that was last delivered, in
/// whether it plays, in its position or in its length, and it says what the player does.
pub proof fn law_changed_state_is_reported(p: PlayerView, position: u64, duration: Option<u64>)
    ensures
        report_of(p, position, duration) is None <==> p.last_state is Some
            && p.last_state->0.playing == p.playing && p.last_state->0.position == position
            && p.last_state->0.duration == duration,
        report_of(p, position, duration) matches Some(state) ==> state.playing == p.playing
            && state.position == position && state.duration == duration,
        paused_at(position, duration).playing == false && paused_at(position, duration).position
            == position && paused_at(position, duration).duration == duration,
{
}

/// The verdict that a file cannot be played is told once, also across re-opening.
pub proof fn law_verdict_is_told_once(p: PlayerView, first: Seq<char>, second: Seq<char>)
    requires
        !p.unsupported,
    ensures
        verdict(p, first).len() == 1,
        verdict(condemned(p), second).len() == 0,
        verdict(reopened(condemned(p)), second).len() == 0,
{
}

/// A delivered state is not reported again while nothing changes; one that was not
/// delivered is.
pub proof fn law_delivered_state_is_not_repeated(
    p: PlayerView,
    position: u64,
    duration: Option<u64>,
)
    requires
        report_of(p, position, duration) is Some,
    ensures
        report_of(
            delivered(p, report_of(p, position, duration)->0),
            position,
            duration,
        ) is None,
{
}

// ---------------------------------------------------------------------------
// Workers
// ---------------------------------------------------------------------------

/// So many attempts are made to hand a notice over.
pub const MAX_SEND_ATTEMPTS: u32 = 200;

/// Milliseconds between two attempts to hand a notice over.
pub const SEND_RETRY_MS: u64 = 10;

/// How an attempt to hand a notice over went.
#[derive(Clone, Copy, Debug, PartialEq, Eq, Structural)]
pub enum SendResult {
    Delivered,
    Full,
    Disconnected,
}

/// Whether to try again after so many attempts. The receiver may be the thread that
/// waits for the sender to end, so the sender must not wait for ever.
pub fn retries_send(attempts: u32, result: SendResult) -> (r: bool)
    ensures
        r == (result == SendResult::Full && attempts < MAX_SEND_ATTEMPTS),
        attempts >= 200 ==> !r,
        attempts < 200 ==> (r <==> result == SendResult::Full),
{
    match result {
        SendResult::Full => attempts < MAX_SEND_ATTEMPTS,
        _ => false,
    }
}

/// A running player. `R` is an audio ring, `W` the thread with its commands.
pub struct MediaWorker<R, W> {
    pub ring: R,
    pub worker: W,
}

/// The running players, by source.
pub struct LinuxMedia<R, W> {
    pub workers: IdMap<MediaWorker<R, W>>,
}

impl<R: Copy, W> LinuxMedia<R, W> {
    /// Each source has at most one player.
    pub open spec fn wf(self) -> bool {
        self.workers.wf()
    }

    /// No players yet.
    pub fn start() -> (r: Self)
        ensures
            r.wf(),
            r.workers@ == Map::<u128, MediaWorker<R, W>>::empty(),
    {
        LinuxMedia { workers: IdMap::new() }
    }

    /// The ring that a new player of a source plays to: the one that the mixer
    /// knows, where there is one, so that the mixer keeps playing from it.
    pub fn ring_for(rings: &IdMap<R>, source_id: u128, fresh: R) -> (r: R)
        requires
            rings.wf(),
        ensures
            r == (if rings@.dom().contains(source_id) {
                rings@[source_id]
            } else {
                fresh
            }),
    {
        match rings.get(source_id) {
            Some(ring) => *ring,
            None => fresh,
        }
    }

    /// Keeps a player that was started and hands back the one that it replaces.
    pub fn open(&mut self, source_id: u128, ring: R, worker: W) -> (r: Option<MediaWorker<R, W>>)
        requires
            old(self).wf(),
        ensures
            final(self).wf(),
            final(self).workers@ == old(self).workers@.insert(
                source_id,
                MediaWorker { ring, worker },
            ),
            r == (if old(self).workers@.dom().contains(source_id) {
                Some(old(self).workers@[source_id])
            } else {
                None
            }),
    {
        self.workers.insert(source_id, MediaWorker { ring, worker })
    }

    /// The player that a command goes to, and the ring that it mutes at once.
    pub fn command(&self, source_id: u128, command: MediaCommand) -> (r: Option<(&W, Option<R>)>)
        requires
            self.wf(),
        ensures
            match r {
                Some((worker, mute)) => {
                    &&& self.workers@.dom().contains(source_id)
                    &&& *worker == self.workers@[source_id].worker
                    &&& mute == (if command is Pause || command is Stop {
                        Some(self.workers@[source_id].ring)
                    } else {
                        None
                    })
                },
                None => !self.workers@.dom().contains(source_id),
            },
    {
        match self.workers.get(source_id) {
            Some(entry) => {
                let mute = if mutes_at_once(command) {
                    Some(entry.ring)
                } else {
                    None
                };
                Some((&entry.worker, mute))
            },
            None => None,
        }
    }

    /// The ring of a source's player.
    pub fn audio_ring_handle(&self, source_id: u128) -> (r: Option<R>)
        requires
            self.wf(),
        ensures
            r == (if self.workers@.dom().contains(source_id) {
                Some(self.workers@[source_id].ring)
            } else {
                None
            }),
    {
        match self.workers.get(source_id) {
            Some(entry) => Some(entry.ring),
            None => None,
        }
    }

    /// Ends a player: it is handed back to be joined, and the mixer forgets its
    /// ring.
    pub fn remove(&mut self, source_id: u128, rings: &mut IdMap<R>) -> (r: Option<
        MediaWorker<R, W>,
    >)
        requires
            old(self).wf(),
            old(rings).wf(),
        ensures
            final(self).wf(),
            final(rings).wf(),
            final(self).workers@ == old(self).workers@.remove(source_id),
            final(rings)@ == old(rings)@.remove(source_id),
            r == (if old(self).workers@.dom().contains(source_id) {
                Some(old(self).workers@[source_id])
            } else {
                None
            }),
    {
        let worker = self.workers.remove(source_id);
        rings.remove(source_id);
        worker
    }

    /// Ends every player: they are handed back to be joined, and the mixer forgets
    /// all rings.
    pub fn shutdown(&mut self, rings: &mut IdMap<R>) -> (r: IdMap<MediaWorker<R, W>>)
        ensures
            final(self).wf(),
            final(rings).wf(),
            r == old(self).workers,
            final(self).workers@ == Map::<u128, MediaWorker<R, W>>::empty(),
            final(rings)@ == Map::<u128, R>::empty(),
    {
        let mut workers: IdMap<MediaWorker<R, W>> = IdMap::new();
        std::mem::swap(&mut workers, &mut self.workers);
        rings.clear();
        workers
    }
}

/// The name of a player's thread.
pub fn worker_name(source_id: u128) -> (r: String)
    ensures
        r@ == "gstreamer-media-"@ + source_id::hyphenated(source_id),
{
    let id = source_id::id_text(source_id);
    joined("gstreamer-media-", id.as_str())
}

} // verus!
