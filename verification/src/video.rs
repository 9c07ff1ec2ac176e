//! Playback controls shared between the user interface and the render threads,
//! and the hand-over of single frames.

use std::sync::Arc;

use vstd::prelude::*;

use crate::id_map::IdMap;

verus! {

/// What the user wants of a media source. `seek_seconds` is the bit pattern of a
/// position in seconds (double precision); `epoch` counts the user's requests.
#[derive(Clone, Copy, Debug, PartialEq, Eq, Structural)]
pub struct MediaControl {
    pub playing: bool,
    pub seek_seconds: Option<u64>,
    pub epoch: u64,
}

/// Controls that nobody touched.
pub open spec fn default_control() -> MediaControl {
    MediaControl { playing: true, seek_seconds: None, epoch: 0 }
}

impl Default for MediaControl {
    fn default() -> (r: Self)
        ensures
            r == default_control(),
    {
        MediaControl { playing: true, seek_seconds: None, epoch: 0 }
    }
}

/// The controls of all media sources.
pub struct MediaControlBus {
    pub controls: IdMap<MediaControl>,
}

/// The controls of a source; untouched where nothing is recorded.
pub open spec fn control_of(controls: Map<u128, MediaControl>, id: u128) -> MediaControl {
    if controls.dom().contains(id) {
        controls[id]
    } else {
        default_control()
    }
}

/// A bus without any recorded controls.
pub fn media_control_bus() -> (r: MediaControlBus)
    ensures
        r.wf(),
        r.controls@ == Map::<u128, MediaControl>::empty(),
{
    MediaControlBus { controls: IdMap::new() }
}

impl MediaControlBus {
    /// Each source is recorded once.
    pub open spec fn wf(self) -> bool {
        self.controls.wf()
    }

    /// The controls of a source.
    pub fn read(&self, id: u128) -> (r: MediaControl)
        requires
            self.wf(),
        ensures
            r == control_of(self.controls@, id),
    {
        match self.controls.get(id) {
            Some(control) => *control,
            None => MediaControl { playing: true, seek_seconds: None, epoch: 0 },
        }
    }

    /// The controls of a source, recorded if they were not.
    pub fn entry(&mut self, id: u128) -> (r: MediaControl)
        requires
            old(self).wf(),
        ensures
            final(self).wf(),
            r == control_of(old(self).controls@, id),
            final(self).controls@ == old(self).controls@.insert(id, r),
    {
        let control = self.read(id);
        self.controls.insert(id, control);
        control
    }

    /// Takes the requested position of a source.
    pub fn take_seek(&mut self, id: u128) -> (r: Option<u64>)
        requires
            old(self).wf(),
        ensures
            final(self).wf(),
            r == control_of(old(self).controls@, id).seek_seconds,
            final(self).controls@ == old(self).controls@.insert(
                id,
                MediaControl { seek_seconds: None, ..control_of(old(self).controls@, id) },
            ),
    {
        let mut control = self.read(id);
        let seek = control.seek_seconds;
        control.seek_seconds = None;
        self.controls.insert(id, control);
        seek
    }

    /// Takes the requested position of a source that controls are recorded for.
    pub fn take_recorded_seek(&mut self, id: u128) -> (r: Option<u64>)
        requires
            old(self).wf(),
        ensures
            final(self).wf(),
            r == control_of(old(self).controls@, id).seek_seconds,
            final(self).controls@ == without_seek(old(self).controls@, id),
    {
        let seek = match self.controls.get_mut(id) {
            Some(control) => control.seek_seconds.take(),
            None => None,
        };
        assert(self.controls@ =~= without_seek(old(self).controls@, id));
        seek
    }

    /// Records that playback stopped by itself, unless the user asked for
    /// something since `epoch`.
    pub fn write_back_paused(&mut self, id: u128, epoch: u64)
        requires
            old(self).wf(),
        ensures
            final(self).wf(),
            final(self).controls@ == old(self).controls@.insert(
                id,
                paused_since(control_of(old(self).controls@, id), epoch),
            ),
    {
        let mut control = self.read(id);
        if control.epoch == epoch {
            control.playing = false;
        }
        self.controls.insert(id, control);
    }
}

/// The controls once the requested position of a source was taken.
pub open spec fn without_seek(controls: Map<u128, MediaControl>, id: u128) -> Map<
    u128,
    MediaControl,
> {
    if controls.dom().contains(id) {
        controls.insert(id, MediaControl { seek_seconds: None, ..controls[id] })
    } else {
        controls
    }
}

/// Controls after playback stopped by itself while the user's last known request
/// was `epoch`.
pub open spec fn paused_since(control: MediaControl, epoch: u64) -> MediaControl {
    if control.epoch == epoch {
        MediaControl { playing: false, ..control }
    } else {
        control
    }
}

/// A stale write-back cannot undo a newer request of the user: once the epoch has
/// moved on, the controls stay as the user set them. With the current epoch the
/// write-back takes effect.
pub proof fn law_stale_write_back_is_ignored(control: MediaControl, epoch: u64)
    ensures
        epoch != control.epoch ==> paused_since(control, epoch) == control,
        epoch == control.epoch ==> !paused_since(control, epoch).playing,
        paused_since(control, epoch).seek_seconds == control.seek_seconds,
        paused_since(control, epoch).epoch == control.epoch,
{
}

/// A source that nobody has touched plays from where it is, in the first epoch; one that
/// has a control goes by it.
pub proof fn law_untouched_source_plays(controls: Map<u128, MediaControl>, id: u128)
    ensures
        !controls.dom().contains(id) ==> {
            &&& control_of(controls, id).playing
            &&& control_of(controls, id).seek_seconds is None
            &&& control_of(controls, id).epoch == 0
        },
        controls.dom().contains(id) ==> control_of(controls, id) == controls[id],
{
}

/// Taking a requested position out leaves everything else: the other sources, and
/// whether this one plays.
pub proof fn law_taken_seek_is_gone(controls: Map<u128, MediaControl>, id: u128, other: u128)
    ensures
        control_of(without_seek(controls, id), id).seek_seconds is None,
        control_of(without_seek(controls, id), id).playing == control_of(controls, id).playing,
        control_of(without_seek(controls, id), id).epoch == control_of(controls, id).epoch,
        other != id ==> control_of(without_seek(controls, id), other) == control_of(
            controls,
            other,
        ),
        without_seek(controls, id).dom() == controls.dom(),
{
    assert(without_seek(controls, id).dom() =~= controls.dom());
}

/// A rendered frame of a source.
#[derive(Clone, Debug)]
pub struct GpuFrame {
    pub source_id: u128,
    pub sequence: u64,
    pub timestamp_ns: u64,
    pub native_texture: usize,
}

/// Slot that holds the newest frame only.
pub struct LatestFrame {
    slot: Option<Arc<GpuFrame>>,
}

impl Default for LatestFrame {
    fn default() -> (r: Self)
        ensures
            r.held() is None,
    {
        LatestFrame { slot: None }
    }
}

impl LatestFrame {
    /// The frame that waits in the slot.
    pub closed spec fn held(self) -> Option<Arc<GpuFrame>> {
        self.slot
    }

    /// Puts a frame into the slot and hands back the one that it replaces.
    pub fn publish(&mut self, frame: Arc<GpuFrame>) -> (r: Option<Arc<GpuFrame>>)
        ensures
            final(self).held() == Some(frame),
            r == old(self).held(),
    {
        let previous = self.slot.take();
        self.slot = Some(frame);
        previous
    }

    /// Takes the frame out of the slot.
    pub fn take(&mut self) -> (r: Option<Arc<GpuFrame>>)
        ensures
            final(self).held() is None,
            r == old(self).held(),
    {
        self.slot.take()
    }
}

} // verus!
