//! Playback of media files on Windows: the clock of a file and what is read when.
//!
//! Reading and seeking are the caller's; these functions take the results. `T` is a decoded picture.

use vstd::prelude::*;
use vstd::string::*;

use crate::portal_captures;
use crate::portal_captures::elapsed_ns;
use crate::windows_video;
use crate::windows_video::WindowsVideoError;

verus! {

/// Audio is read until so many frames are buffered: 200 ms at 48 kHz.
pub const AUDIO_TARGET_FRAMES: usize = 9600;

/// A picture is read this long before it is due: 50 ms in units of 100 ns.
pub const VIDEO_LEAD_100NS: i64 = 500_000;

/// So many empty audio reads in a row end a refill.
pub const MAX_IDLE_PROBES: u32 = 4;

/// The result of a round of reading.
#[derive(Clone, Copy, Debug, PartialEq, Eq, Structural)]
pub enum ReadOutcome {
    /// Something new was read.
    Advanced,
    /// Nothing was due.
    Paced,
    /// The file has ended.
    Eof,
}

/// An open media file. Times are in units of 100 ns, `play_epoch` in nanoseconds.
pub struct MediaVideoSource<T> {
    pub texture: Option<T>,
    pub timestamp_100ns: i64,
    pub audio_enabled: bool,
    pub video_enabled: bool,
    pub decoded_video: bool,
    pub video_ended: bool,
    pub audio_ended: bool,
    pub play_epoch: u64,
    pub play_offset_100ns: i64,
    pub clock_paused: bool,
}

/// Whether every stream of the file has ended.
pub open spec fn ended<T>(media: MediaVideoSource<T>) -> bool {
    (!media.video_enabled || media.video_ended) && (!media.audio_enabled || media.audio_ended)
}

/// The position of the file's clock, which stands still while it is paused.
pub open spec fn clock_at<T>(media: MediaVideoSource<T>, now: u64) -> int {
    media.play_offset_100ns + if media.clock_paused {
        0
    } else {
        portal_captures::elapsed(now, media.play_epoch) / 100
    }
}

/// Whether the clock, with the lead of pictures, is within 64 bits.
pub open spec fn clock_in_range<T>(media: MediaVideoSource<T>, now: u64) -> bool {
    clock_at(media, now) + VIDEO_LEAD_100NS <= i64::MAX
}

/// Whether the next picture is due: there is none yet, or the clock has come within
/// the lead of the current one.
pub open spec fn due<T>(media: MediaVideoSource<T>, now: u64) -> bool {
    media.texture is None || media.timestamp_100ns <= clock_at(media, now) + VIDEO_LEAD_100NS
}

/// A file after it was moved to a position.
pub open spec fn moved_to<T>(media: MediaVideoSource<T>, ticks: i64, now: u64) -> MediaVideoSource<
    T,
> {
    MediaVideoSource {
        texture: None::<T>,
        timestamp_100ns: ticks,
        video_ended: false,
        audio_ended: false,
        play_offset_100ns: ticks,
        play_epoch: now,
        ..media
    }
}

/// A file after its clock was stopped or started.
pub open spec fn with_clock<T>(
    media: MediaVideoSource<T>,
    paused: bool,
    now: u64,
) -> MediaVideoSource<T> {
    if paused == media.clock_paused {
        media
    } else if paused {
        MediaVideoSource {
            play_offset_100ns: clock_at(media, now) as i64,
            clock_paused: true,
            ..media
        }
    } else {
        MediaVideoSource { play_epoch: now, clock_paused: false, ..media }
    }
}

/// What a round of reading begins with.
#[derive(Clone, Copy, Debug, PartialEq, Eq, Structural)]
pub enum ReadPlan {
    /// Read nothing: the file has ended.
    Ended,
    /// Read a picture and, where `audio`, refill audio.
    Read { video: bool, audio: bool },
}

impl<T> MediaVideoSource<T> {
    /// A file whose streams were selected; its clock stands at zero. A file
    /// without any supported stream is refused.
    pub fn open(video_enabled: bool, audio_enabled: bool, now: u64) -> (r: Result<
        Self,
        WindowsVideoError,
    >)
        ensures
            match r {
                Ok(media) => {
                    &&& video_enabled || audio_enabled
                    &&& media == (MediaVideoSource {
                        texture: None::<T>,
                        timestamp_100ns: 0,
                        audio_enabled,
                        video_enabled,
                        decoded_video: false,
                        video_ended: false,
                        audio_ended: false,
                        play_epoch: now,
                        play_offset_100ns: 0,
                        clock_paused: true,
                    })
                },
                Err(e) => {
                    &&& !video_enabled && !audio_enabled
                    &&& e@ == windows_video::ErrorView::UnsupportedMedia(
                        "Media Foundation found no supported audio or video stream"@,
                    )
                },
            },
    {
        if !video_enabled && !audio_enabled {
            return Err(
                WindowsVideoError::UnsupportedMedia(
                    "Media Foundation found no supported audio or video stream".to_owned(),
                ),
            );
        }
        Ok(
            MediaVideoSource {
                texture: None,
                timestamp_100ns: 0,
                audio_enabled,
                video_enabled,
                decoded_video: false,
                video_ended: false,
                audio_ended: false,
                play_epoch: now,
                play_offset_100ns: 0,
                clock_paused: true,
            },
        )
    }

    /// Whether every stream of the file has ended.
    pub fn streams_ended(&self) -> (r: bool)
        ensures
            r == ended(*self),
    {
        (!self.video_enabled || self.video_ended) && (!self.audio_enabled || self.audio_ended)
    }

    /// Whether the clock can be read at `now`.
    pub fn clock_fits(&self, now: u64) -> (r: bool)
        ensures
            r == clock_in_range(*self, now),
    {
        let elapsed: u64 = if self.clock_paused {
            0
        } else {
            elapsed_ns(now, self.play_epoch) / 100
        };
        match self.play_offset_100ns.checked_add(elapsed as i64) {
            Some(clock) => clock.checked_add(VIDEO_LEAD_100NS).is_some(),
            None => false,
        }
    }

    /// The position of the clock.
    pub fn media_clock_100ns(&self, now: u64) -> (r: i64)
        requires
            clock_in_range(*self, now),
        ensures
            r == clock_at(*self, now),
    {
        let elapsed: u64 = if self.clock_paused {
            0
        } else {
            elapsed_ns(now, self.play_epoch) / 100
        };
        self.play_offset_100ns + elapsed as i64
    }

    /// Stops or starts the clock; doing either again changes nothing.
    pub fn set_paused(&mut self, paused: bool, now: u64)
        requires
            clock_in_range(*old(self), now),
        ensures
            *final(self) == with_clock(*old(self), paused, now),
            clock_at(*final(self), now) == clock_at(*old(self), now),
    {
        if paused == self.clock_paused {
            return;
        }
        if paused {
            self.play_offset_100ns = self.media_clock_100ns(now);
            self.clock_paused = true;
        } else {
            self.play_epoch = now;
            self.clock_paused = false;
        }
    }

    /// Whether the next picture is due.
    pub fn video_due(&self, now: u64) -> (r: bool)
        requires
            clock_in_range(*self, now),
        ensures
            r == due(*self, now),
    {
        if self.texture.is_none() {
            return true;
        }
        self.timestamp_100ns <= self.media_clock_100ns(now) + VIDEO_LEAD_100NS
    }

    /// What this round reads.
    pub fn plan_read(&self, now: u64) -> (r: ReadPlan)
        requires
            clock_in_range(*self, now),
        ensures
            r == (if ended(*self) {
                ReadPlan::Ended
            } else {
                ReadPlan::Read {
                    video: self.video_enabled && due(*self, now),
                    audio: self.audio_enabled,
                }
            }),
    {
        if self.streams_ended() {
            return ReadPlan::Ended;
        }
        ReadPlan::Read {
            video: self.video_enabled && self.video_due(now),
            audio: self.audio_enabled,
        }
    }

    /// Takes a picture with its time, or the end of the video; true where a
    /// picture came.
    pub fn on_video(&mut self, sample: Option<(T, i64)>) -> (r: bool)
        ensures
            r == (sample is Some),
            *final(self) == (match sample {
                Some((texture, timestamp)) => MediaVideoSource {
                    texture: Some(texture),
                    decoded_video: true,
                    timestamp_100ns: timestamp,
                    ..*old(self)
                },
                None => MediaVideoSource { video_ended: true, ..*old(self) },
            }),
    {
        match sample {
            Some((texture, timestamp)) => {
                self.texture = Some(texture);
                self.decoded_video = true;
                self.timestamp_100ns = timestamp;
                true
            },
            None => {
                self.video_ended = true;
                false
            },
        }
    }

    /// The end of the audio.
    pub fn on_audio_end(&mut self)
        ensures
            *final(self) == (MediaVideoSource { audio_ended: true, ..*old(self) }),
    {
        self.audio_ended = true;
    }

    /// The result of a round of reading that read something new or nothing.
    pub fn read_outcome(&self, advanced: bool) -> (r: ReadOutcome)
        ensures
            r == (if advanced {
                ReadOutcome::Advanced
            } else if ended(*self) {
                ReadOutcome::Eof
            } else {
                ReadOutcome::Paced
            }),
    {
        if advanced {
            ReadOutcome::Advanced
        } else if self.streams_ended() {
            ReadOutcome::Eof
        } else {
            ReadOutcome::Paced
        }
    }

    /// The file was moved to a position: the clock goes on from there, the picture
    /// is gone until the next one comes, and no stream has ended.
    pub fn seek(&mut self, ticks: i64, now: u64)
        ensures
            *final(self) == moved_to(*old(self), ticks, now),
    {
        self.texture = None;
        self.timestamp_100ns = ticks;
        self.video_ended = false;
        self.audio_ended = false;
        self.play_offset_100ns = ticks;
        self.play_epoch = now;
    }

    /// The current picture.
    pub fn texture(&self) -> (r: Option<&T>)
        ensures
            match r {
                Some(texture) => self.texture == Some(*texture),
                None => self.texture is None,
            },
    {
        self.texture.as_ref()
    }

    /// Whether any picture was ever decoded.
    pub fn decoded_video(&self) -> (r: bool)
        ensures
            r == self.decoded_video,
    {
        self.decoded_video
    }

    /// The time of the current picture.
    pub fn timestamp_100ns(&self) -> (r: i64)
        ensures
            r == self.timestamp_100ns,
    {
        self.timestamp_100ns
    }
}

/// A file that was moved is not at its end, shows its first picture at once and
/// stays where it was moved to until time passes.
pub proof fn law_seek_restarts_the_file<T>(media: MediaVideoSource<T>, ticks: i64, now: u64)
    requires
        media.video_enabled || media.audio_enabled,
    ensures
        ({
            let moved = moved_to(media, ticks, now);
            &&& !ended(moved)
            &&& due(moved, now)
            &&& clock_at(moved, now) == ticks
        }),
{
}

/// The clock of a running file advances as time does, in steps of a hundred nanoseconds;
/// that of a paused one stands.
pub proof fn law_clock_runs_with_time<T>(media: MediaVideoSource<T>, now: u64, ticks: u64)
    requires
        media.play_epoch <= now,
        now + ticks * 100 <= u64::MAX,
    ensures
        !media.clock_paused ==> clock_at(media, (now + ticks * 100) as u64) == clock_at(media, now)
            + ticks,
        media.clock_paused ==> clock_at(media, (now + ticks * 100) as u64) == clock_at(media, now),
        !media.clock_paused ==> clock_at(media, media.play_epoch) == media.play_offset_100ns,
{
}

/// A picture is wanted where there is none or where the one that is shown lies no more
/// than a twentieth of a second ahead of the clock.
pub proof fn law_picture_is_wanted_in_time<T>(media: MediaVideoSource<T>, now: u64)
    ensures
        media.texture is None ==> due(media, now),
        media.texture is Some ==> (due(media, now) <==> media.timestamp_100ns - clock_at(media, now)
            <= 500_000),
{
}

/// A file has ended when each of its streams has.
pub proof fn law_file_ends_with_its_last_stream<T>(media: MediaVideoSource<T>)
    ensures
        media.video_enabled && !media.video_ended ==> !ended(media),
        media.audio_enabled && !media.audio_ended ==> !ended(media),
        media.video_ended && media.audio_ended ==> ended(media),
        media.video_ended && !media.audio_enabled ==> ended(media),
        media.audio_ended && !media.video_enabled ==> ended(media),
{
}

/// A pause costs no playing time: however long it lasts, the clock goes on from
/// where it stopped.
pub proof fn law_pause_keeps_the_position<T>(
    media: MediaVideoSource<T>,
    paused_at: u64,
    resumed_at: u64,
)
    requires
        !media.clock_paused,
        clock_in_range(media, paused_at),
    ensures
        ({
            let paused = with_clock(media, true, paused_at);
            let resumed = with_clock(paused, false, resumed_at);
            &&& clock_at(paused, resumed_at) == clock_at(media, paused_at)
            &&& clock_at(resumed, resumed_at) == clock_at(media, paused_at)
        }),
{
}

/// How many stereo frames an audio buffer of `length` bytes holds.
pub fn audio_frames(has_data: bool, length: u32) -> (r: usize)
    ensures
        r == (if has_data && length >= 8 {
            length as int / 8
        } else {
            0
        }),
{
    if has_data && length >= 8 {
        (length / 8) as usize
    } else {
        0
    }
}

/// A refill of the audio buffer.
pub struct AudioRefill {
    pub advanced: bool,
    pub idle_probes: u32,
    pub ended: bool,
}

impl AudioRefill {
    /// The refill stops before too many empty reads.
    pub open spec fn wf(self) -> bool {
        self.idle_probes <= MAX_IDLE_PROBES
    }

    /// Begins a refill.
    pub fn new() -> (r: Self)
        ensures
            r.wf(),
            r == (AudioRefill { advanced: false, idle_probes: 0, ended: false }),
    {
        AudioRefill { advanced: false, idle_probes: 0, ended: false }
    }

    /// Whether to read on: the buffer is below its target, the audio has not ended
    /// and the last reads were not all empty.
    pub fn wants_more(&self, filled_frames: usize) -> (r: bool)
        ensures
            r == (filled_frames < AUDIO_TARGET_FRAMES && !self.ended && self.idle_probes
                < MAX_IDLE_PROBES),
            // A fifth of a second is kept ahead, and four probes without data end the round.
            r <==> filled_frames < 9600 && !self.ended && self.idle_probes < 4,
    {
        filled_frames < AUDIO_TARGET_FRAMES && !self.ended && self.idle_probes < MAX_IDLE_PROBES
    }

    /// Takes a read: the end of the audio, or so many frames.
    pub fn on_probe(&mut self, frames: Option<usize>)
        requires
            old(self).idle_probes < MAX_IDLE_PROBES,
        ensures
            final(self).wf(),
            *final(self) == (match frames {
                None => AudioRefill { ended: true, ..*old(self) },
                Some(0) => AudioRefill {
                    idle_probes: (old(self).idle_probes + 1) as u32,
                    ..*old(self)
                },
                Some(_) => AudioRefill { advanced: true, idle_probes: 0, ..*old(self) },
            }),
    {
        match frames {
            None => {
                self.ended = true;
            },
            Some(frames) => {
                if frames == 0 {
                    self.idle_probes = self.idle_probes + 1;
                } else {
                    self.idle_probes = 0;
                    self.advanced = true;
                }
            },
        }
    }
}

} // verus!
