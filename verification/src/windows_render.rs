//! The Windows render loop: what is drawn in a frame, how the output changes its
//! size, and how the loop recovers from a lost device.

use vstd::prelude::*;
use vstd::string::*;

use crate::engine_event;
use crate::engine_event::{send, DeviceRecoveryPhase, EngineEvent};
use crate::id_map::IdMap;
use crate::project;
use crate::project::{
    active_scene, find_source, source_name, OutputConfig, Project, SceneItem, Source, TextAlign,
};
use crate::recovery;
use crate::recovery::{backoff_duration, MAX_RECOVERY_FAILURES};
use crate::text;
use crate::text::{decimal, joined};
use crate::windows_capture::{DisplayTables, WindowTables};
use crate::windows_media::MediaVideoSource;
use crate::windows_pump::MediaPump;
use crate::windows_sync;
use crate::windows_sync::{FailureLog, Loaded};
use crate::windows_video::{DisplayCapture, WindowsVideoError};

verus! {

/// So many frames in a row end a series of recoveries.
pub const RECOVERY_STREAK_RESET_FRAMES: u32 = 60;

/// The sources that live on the device and what is remembered of them. `F` is a
/// captured frame, `T` a texture, `D` a duplication.
pub struct WindowsSources<F, T, D> {
    pub windows: WindowTables<F>,
    pub displays: DisplayTables<DisplayCapture<D, T>>,
    pub media: IdMap<Loaded<MediaVideoSource<T>>>,
    pub images: IdMap<Loaded<T>>,
    pub failures: FailureLog,
    pub pump: MediaPump,
}

/// Where the picture of an item comes from.
#[derive(Clone, Copy, Debug, PartialEq, Eq, Structural)]
pub enum PictureOrigin {
    Window,
    Media,
    Display,
    Image,
}

/// An item that is drawn with a picture.
#[derive(Clone, Copy, Debug, PartialEq, Eq, Structural)]
pub struct PictureDraw {
    pub item: usize,
    pub origin: PictureOrigin,
}

/// An item that is drawn as a text source.
#[derive(Clone, Copy, Debug, PartialEq, Eq, Structural)]
pub struct TextDraw {
    pub item: usize,
    pub source: usize,
}

/// An item whose source has no picture.
pub struct OfflineDraw {
    pub item: usize,
    pub text: String,
}

/// The picture of a source: a captured window, else a media file, else a display,
/// else an image.
pub open spec fn picture_of<F, T, D>(s: WindowsSources<F, T, D>, id: u128) -> Option<
    PictureOrigin,
> {
    if s.windows.frames@.dom().contains(id) {
        Some(PictureOrigin::Window)
    } else if s.media@.dom().contains(id) && s.media@[id].value.texture is Some {
        Some(PictureOrigin::Media)
    } else if s.displays.captures@.dom().contains(id) && s.displays.captures@[id].value.texture is
        Some {
        Some(PictureOrigin::Display)
    } else if s.images@.dom().contains(id) {
        Some(PictureOrigin::Image)
    } else {
        None
    }
}

/// Whether a source is present: it has a picture, plays sound only, or has shown a
/// picture before.
pub open spec fn is_present<F, T, D>(s: WindowsSources<F, T, D>, id: u128) -> bool {
    picture_of(s, id) is Some || (s.media@.dom().contains(id) && (
    !s.media@[id].value.video_enabled || s.media@[id].value.decoded_video))
}

/// `i` is the first text source with the id.
pub open spec fn is_first_text(sources: Seq<Source>, id: u128, i: int) -> bool {
    &&& 0 <= i < sources.len()
    &&& sources[i] is Text && project::id_of(sources[i]) == id
    &&& forall|j: int|
        0 <= j < i ==> !((#[trigger] sources[j]) is Text && project::id_of(sources[j]) == id)
}

/// Whether any text source has the id.
pub open spec fn has_text(sources: Seq<Source>, id: u128) -> bool {
    exists|i: int| is_first_text(sources, id, i)
}

/// Whether a source without a picture gets a sign in its place.
pub open spec fn needs_sign(sources: Seq<Source>, id: u128) -> bool {
    exists|i: int| #[trigger]
        project::is_first_source(sources, id, i) && !(sources[i] is Text)
            && !(sources[i] is ApplicationAudio)
}

/// The sign of a source without a picture.
pub open spec fn sign_text(name: Seq<char>) -> Seq<char> {
    "Quelle nicht verfügbar: "@ + name
}

/// The pictures of a scene, in order.
pub open spec fn pictures<F, T, D>(s: WindowsSources<F, T, D>, items: Seq<SceneItem>) -> Seq<
    (int, PictureOrigin),
>
    decreases items.len(),
{
    if items.len() == 0 {
        Seq::empty()
    } else {
        let before = pictures(s, items.drop_last());
        let item = items.last();
        match picture_of(s, item.source_id) {
            Some(origin) => if item.visible {
                before.push((items.len() - 1, origin))
            } else {
                before
            },
            None => before,
        }
    }
}

/// The texts of a scene, in order: which item shows which source.
pub open spec fn texts(sources: Seq<Source>, items: Seq<SceneItem>) -> Seq<(int, int)>
    decreases items.len(),
{
    if items.len() == 0 {
        Seq::empty()
    } else {
        let before = texts(sources, items.drop_last());
        let item = items.last();
        if item.visible && has_text(sources, item.source_id) {
            before.push(
                (items.len() - 1, choose|i: int| is_first_text(sources, item.source_id, i)),
            )
        } else {
            before
        }
    }
}

/// The signs of a scene, in order.
pub open spec fn signs<F, T, D>(
    s: WindowsSources<F, T, D>,
    sources: Seq<Source>,
    items: Seq<SceneItem>,
) -> Seq<(int, Seq<char>)>
    decreases items.len(),
{
    if items.len() == 0 {
        Seq::empty()
    } else {
        let before = signs(s, sources, items.drop_last());
        let item = items.last();
        if item.visible && !is_present(s, item.source_id) && needs_sign(sources, item.source_id) {
            before.push(
                (
                    items.len() - 1,
                    sign_text(
                        project::name_of(
                            sources[choose|i: int|
                                project::is_first_source(sources, item.source_id, i)],
                        ),
                    ),
                ),
            )
        } else {
            before
        }
    }
}

/// How a sign is written. The size is the bit pattern of a number of pixels.
pub struct SignStyle {
    pub font_family: String,
    pub font_size_bits: u32,
    pub font_weight: u16,
    pub color: String,
    pub background_color: String,
    pub align: TextAlign,
}

/// The bit pattern of 28 pixels.
pub const SIGN_SIZE_BITS: u32 = 0x41e0_0000;

/// How every sign is written: white on dark blue, in the middle.
pub fn sign_style() -> (r: SignStyle)
    ensures
        r.font_family@ == "Segoe UI"@,
        r.font_size_bits == SIGN_SIZE_BITS,
        r.font_weight == 600,
        r.color@ == "#ffffff"@,
        r.background_color@ == "#202736"@,
        r.align == TextAlign::Center,
{
    SignStyle {
        font_family: "Segoe UI".to_owned(),
        font_size_bits: SIGN_SIZE_BITS,
        font_weight: 600,
        color: "#ffffff".to_owned(),
        background_color: "#202736".to_owned(),
        align: TextAlign::Center,
    }
}

/// What a list of drawn pictures says.
pub open spec fn pictures_view(draws: Seq<PictureDraw>) -> Seq<(int, PictureOrigin)> {
    draws.map_values(|d: PictureDraw| (d.item as int, d.origin))
}

/// What a list of drawn texts says.
pub open spec fn texts_view(draws: Seq<TextDraw>) -> Seq<(int, int)> {
    draws.map_values(|d: TextDraw| (d.item as int, d.source as int))
}

/// What a list of signs says.
pub open spec fn signs_view(draws: Seq<OfflineDraw>) -> Seq<(int, Seq<char>)> {
    draws.map_values(|d: OfflineDraw| (d.item as int, d.text@))
}

/// Position of the first text source with the id.
fn find_text(sources: &Vec<Source>, id: u128) -> (r: Option<usize>)
    ensures
        match r {
            Some(i) => is_first_text(sources@, id, i as int),
            None => !has_text(sources@, id),
        },
{
    let mut i: usize = 0;
    while i < sources.len()
        invariant
            i <= sources@.len(),
            forall|j: int|
                0 <= j < i ==> !((#[trigger] sources@[j]) is Text && project::id_of(sources@[j])
                    == id),
        decreases sources@.len() - i,
    {
        match &sources[i] {
            Source::Text(text) => {
                if text.id == id {
                    return Some(i);
                }
            },
            _ => {},
        }
        i += 1;
    }
    None
}

proof fn lemma_first_text_unique(sources: Seq<Source>, id: u128, i: int)
    requires
        is_first_text(sources, id, i),
    ensures
        has_text(sources, id),
        (choose|j: int| is_first_text(sources, id, j)) == i,
{
    let j = choose|j: int| is_first_text(sources, id, j);
    assert(is_first_text(sources, id, j));
    if j < i {
        assert(sources[j] is Text);
    } else if i < j {
        assert(sources[i] is Text);
    }
}

proof fn lemma_first_source_unique(sources: Seq<Source>, id: u128, i: int, j: int)
    requires
        project::is_first_source(sources, id, i),
        project::is_first_source(sources, id, j),
    ensures
        i == j,
{
    if j < i {
        assert(project::id_of(sources[j]) != id);
    } else if i < j {
        assert(project::id_of(sources[i]) != id);
    }
}

impl<F, T, D> WindowsSources<F, T, D> {
    /// Each table lists a source once.
    pub open spec fn wf(self) -> bool {
        &&& self.windows.wf()
        &&& self.displays.wf()
        &&& self.media.wf()
        &&& self.images.wf()
        &&& self.failures.wf()
        &&& self.pump.wf()
    }

    /// No sources yet.
    pub fn new() -> (r: Self)
        ensures
            r.wf(),
            r.is_bare(),
            r.displays.available@ == Set::<u128>::empty(),
            r.pump.ended@ == Set::<u128>::empty(),
    {
        WindowsSources {
            windows: WindowTables::new(),
            displays: DisplayTables::new(),
            media: IdMap::new(),
            images: IdMap::new(),
            failures: FailureLog::new(),
            pump: MediaPump::new(),
        }
    }

    /// Nothing is left of the device.
    pub open spec fn is_bare(self) -> bool {
        &&& self.windows.captures@.dom() == Set::<u128>::empty()
        &&& self.windows.frames@.dom() == Set::<u128>::empty()
        &&& self.windows.stale@ == Set::<u128>::empty()
        &&& self.displays.captures@.dom() == Set::<u128>::empty()
        &&& self.media@.dom() == Set::<u128>::empty()
        &&& self.images@.dom() == Set::<u128>::empty()
        &&& self.failures@.dom() == Set::<windows_sync::FailureKey>::empty()
        &&& self.pump.last_state@.dom() == Set::<u128>::empty()
        &&& self.pump.read_backoff@ == Set::<u128>::empty()
        &&& self.pump.previous_visible@ == Set::<u128>::empty()
    }

    /// The device is gone, and with it everything that lived on it; the sources are
    /// opened anew by the next ticks. Which displays were reported and which files
    /// have ended is still known.
    pub fn clear_device_tied_state(&mut self)
        requires
            old(self).wf(),
        ensures
            final(self).wf(),
            final(self).is_bare(),
            final(self).displays.available == old(self).displays.available,
            final(self).pump.ended == old(self).pump.ended,
    {
        self.media.clear();
        self.failures.clear();
        self.windows.captures.clear();
        self.windows.frames.clear();
        self.windows.stale.clear();
        self.displays.captures.clear();
        self.images.clear();
        self.pump.forget_device();
    }

    /// The picture of a source.
    pub fn picture(&self, id: u128) -> (r: Option<PictureOrigin>)
        requires
            self.wf(),
        ensures
            r == picture_of(*self, id),
    {
        if self.windows.frames.contains(id) {
            return Some(PictureOrigin::Window);
        }
        match self.media.get(id) {
            Some(loaded) => {
                if loaded.value.texture().is_some() {
                    return Some(PictureOrigin::Media);
                }
            },
            None => {},
        }
        match self.displays.captures.get(id) {
            Some(loaded) => {
                if loaded.value.texture().is_some() {
                    return Some(PictureOrigin::Display);
                }
            },
            None => {},
        }
        if self.images.contains(id) {
            Some(PictureOrigin::Image)
        } else {
            None
        }
    }

    /// Whether a source is present.
    pub fn present(&self, id: u128) -> (r: bool)
        requires
            self.wf(),
        ensures
            r == is_present(*self, id),
    {
        if self.picture(id).is_some() {
            return true;
        }
        match self.media.get(id) {
            Some(loaded) => !loaded.value.video_enabled || loaded.value.decoded_video(),
            None => false,
        }
    }

    /// What a frame shows: the pictures, the texts and the signs of the active
    /// scene, each in the order of its items.
    pub fn plan_frame(&self, project: &Project) -> (r: (
        Vec<PictureDraw>,
        Vec<TextDraw>,
        Vec<OfflineDraw>,
    ))
        requires
            self.wf(),
        ensures
            pictures_view(r.0@) == pictures(*self, project::active_items(*project)),
            texts_view(r.1@) == texts(project.sources@, project::active_items(*project)),
            signs_view(r.2@) == signs(
                *self,
                project.sources@,
                project::active_items(*project),
            ),
    {
        let mut shown: Vec<PictureDraw> = Vec::new();
        let mut written: Vec<TextDraw> = Vec::new();
        let mut offline: Vec<OfflineDraw> = Vec::new();
        let ghost sources = project.sources@;
        proof {
            assert(pictures_view(shown@) =~= Seq::empty());
            assert(texts_view(written@) =~= Seq::empty());
            assert(signs_view(offline@) =~= Seq::empty());
        }
        let scene: usize = match active_scene(project) {
            Some(scene) => scene,
            None => {
                return (shown, written, offline);
            },
        };
        let items = &project.scenes[scene].items;
        let mut i: usize = 0;
        while i < items.len()
            invariant
                i <= items@.len(),
                self.wf(),
                sources == project.sources@,
                pictures_view(shown@) == pictures(*self, items@.take(i as int)),
                texts_view(written@) == texts(sources, items@.take(i as int)),
                signs_view(offline@) == signs(*self, sources, items@.take(i as int)),
            decreases items@.len() - i,
        {
            let id: u128 = items[i].source_id;
            let ghost shown_before = shown@;
            let ghost written_before = written@;
            let ghost offline_before = offline@;
            proof {
                assert(items@.take(i + 1).drop_last() =~= items@.take(i as int));
                assert(items@.take(i + 1).last() == items@[i as int]);
            }
            if items[i].visible {
                match self.picture(id) {
                    Some(origin) => {
                        shown.push(PictureDraw { item: i, origin });
                        assert(pictures_view(shown@) =~= pictures_view(shown_before).push(
                            (i as int, origin),
                        ));
                    },
                    None => {},
                }
                match find_text(&project.sources, id) {
                    Some(source) => {
                        proof {
                            lemma_first_text_unique(sources, id, source as int);
                        }
                        written.push(TextDraw { item: i, source });
                        assert(texts_view(written@) =~= texts_view(written_before).push(
                            (i as int, source as int),
                        ));
                    },
                    None => {},
                }
                if !self.present(id) {
                    match find_source(&project.sources, id) {
                        Some(source) => {
                            let sign = match &project.sources[source] {
                                Source::Text(_) => false,
                                Source::ApplicationAudio { .. } => false,
                                _ => true,
                            };
                            proof {
                                assert forall|j: int|
                                    #[trigger] project::is_first_source(sources, id, j) implies j
                                    == source by {
                                    lemma_first_source_unique(sources, id, j, source as int);
                                }
                                assert(project::is_first_source(sources, id, source as int));
                                assert(needs_sign(sources, id) <==> sign);
                            }
                            if sign {
                                let text = joined(
                                    "Quelle nicht verfügbar: ",
                                    source_name(&project.sources[source]),
                                );
                                offline.push(OfflineDraw { item: i, text });
                                assert(signs_view(offline@) =~= signs_view(offline_before).push(
                                    (i as int, text@),
                                ));
                            }
                        },
                        None => {
                            assert(!needs_sign(sources, id)) by {
                                if needs_sign(sources, id) {
                                    let j = choose|j: int| #[trigger]
                                        project::is_first_source(sources, id, j) && !(sources[j] is
                                            Text) && !(sources[j] is ApplicationAudio);
                                    assert(project::id_of(sources[j]) == id);
                                }
                            }
                        },
                    }
                }
            }
            i += 1;
        }
        assert(items@.take(i as int) =~= items@);
        (shown, written, offline)
    }
}

/// What is left to do after a device was rebuilt, or not.
#[derive(Clone, Copy, Debug, PartialEq, Eq, Structural)]
pub enum RecoveryStep {
    /// Render on.
    Continue,
    /// Wait so many milliseconds, then render on.
    Wait(u64),
    /// Wait so many milliseconds, report that the loop gives up, and leave it.
    WaitAndGiveUp(u64),
    /// Leave the loop.
    GiveUp,
}

/// How far a series of recoveries has come.
#[derive(Clone, Copy, Debug, PartialEq, Eq, Structural)]
pub struct RecoveryStreak {
    pub streak: u32,
    pub frames: u32,
}

/// The series after a frame was rendered.
pub open spec fn after_frame(s: RecoveryStreak) -> RecoveryStreak {
    if s.streak == 0 {
        s
    } else if s.frames + 1 >= RECOVERY_STREAK_RESET_FRAMES {
        RecoveryStreak { streak: 0, frames: 0 }
    } else {
        RecoveryStreak { streak: s.streak, frames: (s.frames + 1) as u32 }
    }
}

/// The series after a frame failed.
pub open spec fn after_error(s: RecoveryStreak) -> RecoveryStreak {
    RecoveryStreak { streak: (s.streak + 1) as u32, frames: 0 }
}

/// The last report of a loop whose device can be rebuilt but does not render.
pub open spec fn unstable_text(streak: u32) -> Seq<char> {
    "Wiederherstellung endgültig aufgegeben: "@ + text::decimal_digits(streak as nat)
        + " Eingriffe in Folge ohne stabilen Frame"@
}

/// A report on a recovery.
pub open spec fn recovery_event(phase: DeviceRecoveryPhase, detail: Option<Seq<char>>) ->
    engine_event::EventView {
    engine_event::EventView::DeviceRecovery { phase, detail }
}

/// The state of the Windows render loop.
pub struct WindowsRenderLoop {
    pub output: OutputConfig,
    pub recovery: RecoveryStreak,
    pub resize_failures: u32,
    pub next_resize_attempt: u64,
    pub deadline: u64,
}

/// Whether two outputs are the same.
pub open spec fn same_output(a: OutputConfig, b: OutputConfig) -> bool {
    &&& a.width == b.width
    &&& a.height == b.height
    &&& a.fps == b.fps
    &&& a.background@ == b.background@
}

fn copy_output(output: &OutputConfig) -> (r: OutputConfig)
    ensures
        same_output(r, *output),
{
    OutputConfig {
        width: output.width,
        height: output.height,
        fps: output.fps,
        background: output.background.clone(),
    }
}

impl WindowsRenderLoop {
    /// The loop runs: it has not used up its recoveries.
    pub open spec fn running(self) -> bool {
        &&& self.recovery.streak < MAX_RECOVERY_FAILURES
        &&& self.recovery.frames < RECOVERY_STREAK_RESET_FRAMES
    }

    /// A loop that begins now.
    pub fn new(output: &OutputConfig, now: u64) -> (r: Self)
        ensures
            r.running(),
            same_output(r.output, *output),
            r.recovery == (RecoveryStreak { streak: 0, frames: 0 }),
            r.resize_failures == 0,
            r.next_resize_attempt == now,
            r.deadline == now,
    {
        WindowsRenderLoop {
            output: copy_output(output),
            recovery: RecoveryStreak { streak: 0, frames: 0 },
            resize_failures: 0,
            next_resize_attempt: now,
            deadline: now,
        }
    }

    /// Takes over the wanted output. Rate and background apply at once. True where
    /// a new size is to be tried now; until it is there the old size stays.
    pub fn begin_resize(&mut self, next: &OutputConfig, now: u64, events: &mut Vec<EngineEvent>) ->
        (r: bool)
        ensures
            ({
                let resized = next.width != old(self).output.width || next.height != old(
                    self,
                ).output.height;
                &&& final(self).recovery == old(self).recovery
                &&& final(self).deadline == old(self).deadline
                &&& final(self).output.fps == next.fps
                &&& final(self).output.background@ == next.background@
                &&& final(self).output.width == old(self).output.width
                &&& final(self).output.height == old(self).output.height
                &&& r == (resized && now >= old(self).next_resize_attempt)
                &&& final(self).resize_failures == (if resized {
                    old(self).resize_failures
                } else {
                    0
                })
                &&& final(self).next_resize_attempt == (if resized {
                    old(self).next_resize_attempt
                } else {
                    now
                })
            }),
            engine_event::events_view(final(events)@) == (if r {
                engine_event::events_view(old(events)@).push(
                    recovery_event(DeviceRecoveryPhase::Started, None),
                )
            } else {
                engine_event::events_view(old(events)@)
            }),
    {
        let resized = next.width != self.output.width || next.height != self.output.height;
        self.output.fps = next.fps;
        self.output.background = next.background.clone();
        if !resized {
            self.resize_failures = 0;
            self.next_resize_attempt = now;
            return false;
        }
        if now >= self.next_resize_attempt {
            send(
                events,
                EngineEvent::DeviceRecovery { phase: DeviceRecoveryPhase::Started, detail: None },
            );
            true
        } else {
            false
        }
    }

    /// Takes the result of the new size. A size that cannot be had is tried again
    /// later and costs none of the loop's recoveries.
    pub fn on_resized(
        &mut self,
        next: &OutputConfig,
        result: Result<(), String>,
        now: u64,
        events: &mut Vec<EngineEvent>,
    )
        requires
            old(self).resize_failures < u32::MAX,
            now + 2_000_000_000 <= u64::MAX,
        ensures
            final(self).recovery == old(self).recovery,
            final(self).deadline == old(self).deadline,
            match result {
                Ok(()) => {
                    &&& same_output(final(self).output, *next)
                    &&& final(self).resize_failures == 0
                    &&& final(self).next_resize_attempt == now
                    &&& engine_event::events_view(final(events)@) == engine_event::events_view(
                        old(events)@,
                    ).push(recovery_event(DeviceRecoveryPhase::Succeeded, None))
                },
                Err(error) => {
                    &&& final(self).output == old(self).output
                    &&& final(self).resize_failures == old(self).resize_failures + 1
                    &&& final(self).next_resize_attempt == now + recovery::backoff_ms(
                        final(self).resize_failures,
                    ) * 1_000_000
                    &&& engine_event::events_view(final(events)@) == engine_event::events_view(
                        old(events)@,
                    ).push(recovery_event(DeviceRecoveryPhase::Failed, Some(error@)))
                },
            },
    {
        match result {
            Ok(()) => {
                self.output = copy_output(next);
                self.resize_failures = 0;
                self.next_resize_attempt = now;
                send(
                    events,
                    EngineEvent::DeviceRecovery {
                        phase: DeviceRecoveryPhase::Succeeded,
                        detail: None,
                    },
                );
            },
            Err(error) => {
                self.resize_failures = self.resize_failures + 1;
                send(
                    events,
                    EngineEvent::DeviceRecovery {
                        phase: DeviceRecoveryPhase::Failed,
                        detail: Some(error),
                    },
                );
                let wait: u64 = backoff_duration(self.resize_failures);
                assert(wait <= 2000);
                self.next_resize_attempt = now + wait * 1_000_000;
            },
        }
    }

    /// A frame failed: one more recovery begins.
    pub fn on_render_error(&mut self, error: &str, events: &mut Vec<EngineEvent>)
        requires
            old(self).running(),
        ensures
            *final(self) == (WindowsRenderLoop {
                recovery: after_error(old(self).recovery),
                ..*old(self)
            }),
            engine_event::events_view(final(events)@) == engine_event::events_view(
                old(events)@,
            ).push(recovery_event(DeviceRecoveryPhase::Started, Some(error@))),
    {
        self.recovery = RecoveryStreak { streak: self.recovery.streak + 1, frames: 0 };
        send(
            events,
            EngineEvent::DeviceRecovery {
                phase: DeviceRecoveryPhase::Started,
                detail: Some(error.to_owned()),
            },
        );
    }

    /// Takes the result of rebuilding the device after a failed frame. Every
    /// recovery counts, whether or not it worked: a device that can be rebuilt but
    /// does not render ends the loop as well.
    pub fn on_recreated(&self, result: Result<(), String>, events: &mut Vec<EngineEvent>) -> (r:
        RecoveryStep)
        requires
            1 <= self.recovery.streak <= MAX_RECOVERY_FAILURES,
        ensures
            ({
                let streak = self.recovery.streak;
                let wait = recovery::backoff_ms(streak) as u64;
                let before = engine_event::events_view(old(events)@);
                match result {
                    Ok(()) => {
                        &&& engine_event::events_view(final(events)@) == before.push(
                            recovery_event(DeviceRecoveryPhase::Succeeded, None),
                        )
                        &&& r == (if streak >= MAX_RECOVERY_FAILURES {
                            RecoveryStep::WaitAndGiveUp(wait)
                        } else if streak > 1 {
                            RecoveryStep::Wait(wait)
                        } else {
                            RecoveryStep::Continue
                        })
                    },
                    Err(error) => {
                        let failed = before.push(
                            recovery_event(DeviceRecoveryPhase::Failed, Some(error@)),
                        );
                        if streak >= MAX_RECOVERY_FAILURES {
                            &&& engine_event::events_view(final(events)@) == failed.push(
                                recovery_event(
                                    DeviceRecoveryPhase::Failed,
                                    Some(
                                        "Wiederherstellung endgültig aufgegeben nach 8 fehlgeschlagenen Versuchen"@,
                                    ),
                                ),
                            )
                            &&& r == RecoveryStep::GiveUp
                        } else {
                            &&& engine_event::events_view(final(events)@) == failed
                            &&& r == RecoveryStep::Wait(wait)
                        }
                    },
                }
            }),
            r == RecoveryStep::Continue <==> result is Ok && self.recovery.streak == 1,
            r == RecoveryStep::GiveUp <==> result is Err && self.recovery.streak == 8,
            r is WaitAndGiveUp <==> result is Ok && self.recovery.streak == 8,
    {
        let streak: u32 = self.recovery.streak;
        match result {
            Ok(()) => {
                send(
                    events,
                    EngineEvent::DeviceRecovery {
                        phase: DeviceRecoveryPhase::Succeeded,
                        detail: None,
                    },
                );
                if streak >= MAX_RECOVERY_FAILURES {
                    RecoveryStep::WaitAndGiveUp(backoff_duration(streak))
                } else if streak > 1 {
                    RecoveryStep::Wait(backoff_duration(streak))
                } else {
                    RecoveryStep::Continue
                }
            },
            Err(error) => {
                send(
                    events,
                    EngineEvent::DeviceRecovery {
                        phase: DeviceRecoveryPhase::Failed,
                        detail: Some(error),
                    },
                );
                if streak >= MAX_RECOVERY_FAILURES {
                    send(
                        events,
                        EngineEvent::DeviceRecovery {
                            phase: DeviceRecoveryPhase::Failed,
                            detail: Some(
                                "Wiederherstellung endgültig aufgegeben nach 8 fehlgeschlagenen Versuchen".to_owned(),
                            ),
                        },
                    );
                    RecoveryStep::GiveUp
                } else {
                    RecoveryStep::Wait(backoff_duration(streak))
                }
            },
        }
    }

    /// Reports that the loop gives up although the device could be rebuilt.
    pub fn report_unstable(&self, events: &mut Vec<EngineEvent>)
        ensures
            engine_event::events_view(final(events)@) == engine_event::events_view(
                old(events)@,
            ).push(
                recovery_event(
                    DeviceRecoveryPhase::Failed,
                    Some(unstable_text(self.recovery.streak)),
                ),
            ),
    {
        let digits = decimal(self.recovery.streak as u64);
        let head = joined("Wiederherstellung endgültig aufgegeben: ", digits.as_str());
        let detail = joined(head.as_str(), " Eingriffe in Folge ohne stabilen Frame");
        send(
            events,
            EngineEvent::DeviceRecovery { phase: DeviceRecoveryPhase::Failed, detail: Some(detail) },
        );
    }

    /// A frame was rendered.
    pub fn on_frame_rendered(&mut self)
        requires
            old(self).running(),
        ensures
            final(self).running(),
            *final(self) == (WindowsRenderLoop {
                recovery: after_frame(old(self).recovery),
                ..*old(self)
            }),
    {
        if self.recovery.streak > 0 {
            let frames: u32 = self.recovery.frames + 1;
            if frames >= RECOVERY_STREAK_RESET_FRAMES {
                self.recovery = RecoveryStreak { streak: 0, frames: 0 };
            } else {
                self.recovery = RecoveryStreak { streak: self.recovery.streak, frames };
            }
        }
    }

    /// Moves the deadline on by one frame and tells how long to sleep; where the
    /// deadline has passed, the count starts anew from the current time.
    pub fn pace(&mut self, frame_ns: u64, now: u64) -> (r: u64)
        requires
            old(self).deadline + frame_ns <= u64::MAX,
        ensures
            ({
                let due = old(self).deadline + frame_ns;
                &&& *final(self) == (WindowsRenderLoop {
                    deadline: if due > now {
                        due as u64
                    } else {
                        now
                    },
                    ..*old(self)
                })
                &&& r == (if due > now {
                    due - now
                } else {
                    0
                })
            }),
    {
        let due: u64 = self.deadline + frame_ns;
        if due > now {
            self.deadline = due;
            due - now
        } else {
            self.deadline = now;
            0
        }
    }
}

/// Reports that the first device could not be made and gives the error of the
/// start.
pub fn startup_failed(message: String, events: &mut Vec<EngineEvent>) -> (r: WindowsVideoError)
    ensures
        r@ == crate::windows_video::ErrorView::SwapChain(message@),
        engine_event::events_view(final(events)@) == engine_event::events_view(old(events)@).push(
            recovery_event(DeviceRecoveryPhase::Failed, Some(message@)),
        ),
{
    send(
        events,
        EngineEvent::DeviceRecovery {
            phase: DeviceRecoveryPhase::Failed,
            detail: Some(message.clone()),
        },
    );
    WindowsVideoError::SwapChain(message)
}

/// Media Foundation: which failure was written to the log last.
pub struct MediaContextLog {
    pub last_error: Option<String>,
}

impl MediaContextLog {
    /// Takes the result of a start; true where a failure is to be logged, that is
    /// where it is another one than the last.
    pub fn on_start(&mut self, result: Result<(), String>) -> (r: bool)
        ensures
            engine_event::text_view(final(self).last_error) == (match result {
                Ok(()) => None,
                Err(reason) => Some(reason@),
            }),
            r == (result is Err && engine_event::text_view(old(self).last_error) != Some(
                result->Err_0@,
            )),
    {
        match result {
            Ok(()) => {
                self.last_error = None;
                false
            },
            Err(reason) => {
                let known = match &self.last_error {
                    Some(last) => text::same_text(last.as_str(), reason.as_str()),
                    None => false,
                };
                self.last_error = Some(reason);
                !known
            },
        }
    }
}

/// The series of recoveries after a history of frames; true is a rendered frame.
pub open spec fn streak_after(history: Seq<bool>) -> RecoveryStreak
    decreases history.len(),
{
    if history.len() == 0 {
        RecoveryStreak { streak: 0, frames: 0 }
    } else if history.last() {
        after_frame(streak_after(history.drop_last()))
    } else {
        after_error(streak_after(history.drop_last()))
    }
}

/// How many frames of a history failed.
pub open spec fn failed_frames(history: Seq<bool>) -> nat
    decreases history.len(),
{
    if history.len() == 0 {
        0
    } else if history.last() {
        failed_frames(history.drop_last())
    } else {
        failed_frames(history.drop_last()) + 1
    }
}

/// How many frames were rendered since the last failed one.
pub open spec fn rendered_since(history: Seq<bool>) -> nat
    decreases history.len(),
{
    if history.len() == 0 || !history.last() {
        0
    } else {
        rendered_since(history.drop_last()) + 1
    }
}

/// Whether no 60 frames in a row were rendered after the first failed one.
pub open spec fn unstable(history: Seq<bool>) -> bool
    decreases history.len(),
{
    if history.len() == 0 {
        true
    } else {
        &&& unstable(history.drop_last())
        &&& failed_frames(history) > 0 ==> rendered_since(history) < RECOVERY_STREAK_RESET_FRAMES
    }
}

/// What an item shows is decided by the tables alone: a window's frame before a media
/// file's, that before a display's, that before an image; a file or display that has no
/// picture yet counts as none.
pub proof fn law_item_shows_what_its_source_has<F, T, D>(s: WindowsSources<F, T, D>, id: u128)
    ensures
        ({
            let window = s.windows.frames@.dom().contains(id);
            let media = s.media@.dom().contains(id) && s.media@[id].value.texture is Some;
            let display = s.displays.captures@.dom().contains(id)
                && s.displays.captures@[id].value.texture is Some;
            let image = s.images@.dom().contains(id);
            &&& picture_of(s, id) == Some(PictureOrigin::Window) <==> window
            &&& picture_of(s, id) == Some(PictureOrigin::Media) <==> !window && media
            &&& picture_of(s, id) == Some(PictureOrigin::Display) <==> !window && !media && display
            &&& picture_of(s, id) == Some(PictureOrigin::Image) <==> !window && !media && !display
                && image
            &&& picture_of(s, id) is None <==> !window && !media && !display && !image
        }),
{
}

/// A source is present where it has a picture, or where it is a media file that needs
/// none: one without video, or one that has decoded some.
pub proof fn law_present_source_needs_no_sign<F, T, D>(s: WindowsSources<F, T, D>, id: u128)
    ensures
        picture_of(s, id) is Some ==> is_present(s, id),
        s.media@.dom().contains(id) && !s.media@[id].value.video_enabled ==> is_present(s, id),
        s.media@.dom().contains(id) && s.media@[id].value.decoded_video ==> is_present(s, id),
        is_present(s, id) && picture_of(s, id) is None ==> s.media@.dom().contains(id) && (
        !s.media@[id].value.video_enabled || s.media@[id].value.decoded_video),
{
}

/// The pictures are those of the visible items, in their order.
pub proof fn law_pictures_are_of_the_visible_items<F, T, D>(
    s: WindowsSources<F, T, D>,
    items: Seq<SceneItem>,
)
    ensures
        forall|k: int|
            0 <= k < pictures(s, items).len() ==> ({
                let (i, origin) = #[trigger] pictures(s, items)[k];
                0 <= i < items.len() && items[i].visible && picture_of(s, items[i].source_id)
                    == Some(origin)
            }),
        forall|k: int, l: int|
            0 <= k < l < pictures(s, items).len() ==> (#[trigger] pictures(s, items)[k]).0 < (
            #[trigger] pictures(s, items)[l]).0,
        forall|i: int|
            0 <= i < items.len() && (#[trigger] items[i]).visible && picture_of(
                s,
                items[i].source_id,
            ) is Some ==> pictures(s, items).contains(
                (i, picture_of(s, items[i].source_id)->0),
            ),
    decreases items.len(),
{
    if items.len() > 0 {
        let rest = items.drop_last();
        law_pictures_are_of_the_visible_items(s, rest);
        let before = pictures(s, rest);
        let all = pictures(s, items);
        assert forall|k: int| 0 <= k < all.len() implies ({
            let (i, origin) = #[trigger] all[k];
            0 <= i < items.len() && items[i].visible && picture_of(s, items[i].source_id) == Some(
                origin,
            )
        }) by {
            if k < before.len() {
                assert(all[k] == before[k]);
            }
        }
        assert forall|i: int|
            0 <= i < items.len() && (#[trigger] items[i]).visible && picture_of(
                s,
                items[i].source_id,
            ) is Some implies all.contains((i, picture_of(s, items[i].source_id)->0)) by {
            let wanted = (i, picture_of(s, items[i].source_id)->0);
            if i < rest.len() {
                assert(rest[i] == items[i]);
                let k = choose|k: int| 0 <= k < before.len() && before[k] == wanted;
                assert(all[k] == wanted);
            } else {
                assert(all[all.len() - 1] == wanted);
            }
        }
        assert forall|k: int, l: int| 0 <= k < l < all.len() implies (#[trigger] all[k]).0 < (
        #[trigger] all[l]).0 by {
            assert(all[k] == before[k]);
            if l < before.len() {
                assert(all[l] == before[l]);
            }
        }
    }
}

/// The texts are those of the visible items whose id a text source has, in their order,
/// each with the first such source.
pub proof fn law_texts_are_of_the_visible_items(sources: Seq<Source>, items: Seq<SceneItem>)
    ensures
        forall|k: int|
            0 <= k < texts(sources, items).len() ==> ({
                let (i, at) = #[trigger] texts(sources, items)[k];
                &&& 0 <= i < items.len() && items[i].visible
                &&& 0 <= at < sources.len() && sources[at] is Text && project::id_of(sources[at])
                    == items[i].source_id
                &&& forall|j: int|
                    0 <= j < at && (#[trigger] sources[j]) is Text ==> project::id_of(sources[j])
                        != items[i].source_id
            }),
        forall|k: int, l: int|
            0 <= k < l < texts(sources, items).len() ==> (#[trigger] texts(sources, items)[k]).0 < (
            #[trigger] texts(sources, items)[l]).0,
        forall|i: int|
            0 <= i < items.len() && (#[trigger] items[i]).visible && has_text(
                sources,
                items[i].source_id,
            ) ==> exists|k: int|
                0 <= k < texts(sources, items).len() && (#[trigger] texts(sources, items)[k]).0
                    == i,
    decreases items.len(),
{
    if items.len() > 0 {
        let rest = items.drop_last();
        law_texts_are_of_the_visible_items(sources, rest);
        let before = texts(sources, rest);
        let all = texts(sources, items);
        let item = items.last();
        if item.visible && has_text(sources, item.source_id) {
            let at = choose|i: int| is_first_text(sources, item.source_id, i);
            assert(is_first_text(sources, item.source_id, at));
        }
        assert forall|k: int| 0 <= k < all.len() implies ({
            let (i, at) = #[trigger] all[k];
            &&& 0 <= i < items.len() && items[i].visible
            &&& 0 <= at < sources.len() && sources[at] is Text && project::id_of(sources[at])
                == items[i].source_id
            &&& forall|j: int|
                0 <= j < at && (#[trigger] sources[j]) is Text ==> project::id_of(sources[j])
                    != items[i].source_id
        }) by {
            if k < before.len() {
                assert(all[k] == before[k]);
                let (i, at) = before[k];
                assert(rest[i] == items[i]);
            }
        }
        assert forall|i: int|
            0 <= i < items.len() && (#[trigger] items[i]).visible && has_text(
                sources,
                items[i].source_id,
            ) implies exists|k: int| 0 <= k < all.len() && (#[trigger] all[k]).0 == i by {
            if i < rest.len() {
                assert(rest[i] == items[i]);
                let k = choose|k: int| 0 <= k < before.len() && (#[trigger] before[k]).0 == i;
                assert(all[k] == before[k]);
            } else {
                assert(all[all.len() - 1].0 == i);
            }
        }
        assert forall|k: int, l: int| 0 <= k < l < all.len() implies (#[trigger] all[k]).0 < (
        #[trigger] all[l]).0 by {
            assert(all[k] == before[k]);
            if l < before.len() {
                assert(all[l] == before[l]);
            }
        }
    }
}

/// A sign stands for each visible item whose source is not present and is neither a text
/// nor a sound, in their order, with the name of the source.
pub proof fn law_signs_are_of_the_missing_sources<F, T, D>(
    s: WindowsSources<F, T, D>,
    sources: Seq<Source>,
    items: Seq<SceneItem>,
)
    ensures
        forall|k: int|
            0 <= k < signs(s, sources, items).len() ==> ({
                let (i, words) = #[trigger] signs(s, sources, items)[k];
                &&& 0 <= i < items.len() && items[i].visible
                &&& !is_present(s, items[i].source_id)
                &&& needs_sign(sources, items[i].source_id)
                &&& forall|at: int| #[trigger]
                    project::is_first_source(sources, items[i].source_id, at) ==> words
                        == "Quelle nicht verfügbar: "@ + project::name_of(sources[at])
            }),
        forall|i: int|
            0 <= i < items.len() && (#[trigger] items[i]).visible && !is_present(
                s,
                items[i].source_id,
            ) && needs_sign(sources, items[i].source_id) ==> exists|k: int|
                0 <= k < signs(s, sources, items).len() && (#[trigger] signs(
                    s,
                    sources,
                    items,
                )[k]).0 == i,
    decreases items.len(),
{
    if items.len() > 0 {
        let rest = items.drop_last();
        law_signs_are_of_the_missing_sources(s, sources, rest);
        let before = signs(s, sources, rest);
        let all = signs(s, sources, items);
        assert forall|k: int| 0 <= k < all.len() implies ({
            let (i, words) = #[trigger] all[k];
            &&& 0 <= i < items.len() && items[i].visible
            &&& !is_present(s, items[i].source_id)
            &&& needs_sign(sources, items[i].source_id)
            &&& forall|at: int| #[trigger]
                project::is_first_source(sources, items[i].source_id, at) ==> words
                    == "Quelle nicht verfügbar: "@ + project::name_of(sources[at])
        }) by {
            if k < before.len() {
                assert(all[k] == before[k]);
            } else {
                let id = items.last().source_id;
                let first = choose|i: int| project::is_first_source(sources, id, i);
                assert forall|at: int| #[trigger]
                    project::is_first_source(sources, id, at) implies sources[at]
                    == sources[first] by {
                    lemma_first_source_unique(sources, id, at, first);
                }
            }
        }
        assert forall|i: int|
            0 <= i < items.len() && (#[trigger] items[i]).visible && !is_present(
                s,
                items[i].source_id,
            ) && needs_sign(sources, items[i].source_id) implies exists|k: int|
            0 <= k < all.len() && (#[trigger] all[k]).0 == i by {
            if i < rest.len() {
                assert(rest[i] == items[i]);
                let k = choose|k: int| 0 <= k < before.len() && (#[trigger] before[k]).0 == i;
                assert(all[k] == before[k]);
            } else {
                assert(all[all.len() - 1].0 == i);
            }
        }
    }
}

/// Every kind of source but a text and a sound is marked where it is missing.
pub proof fn law_missing_picture_is_marked(sources: Seq<Source>, id: u128, i: int)
    requires
        0 <= i < sources.len(),
        project::id_of(sources[i]) == id,
        forall|j: int| 0 <= j < i ==> project::id_of(#[trigger] sources[j]) != id,
    ensures
        needs_sign(sources, id) <==> sources[i] is Window || sources[i] is Display || sources[i]
            is Image || sources[i] is Media,
{
    assert(project::is_first_source(sources, id, i));
    if needs_sign(sources, id) {
        let j = choose|j: int| #[trigger]
            project::is_first_source(sources, id, j) && !(sources[j] is Text)
                && !(sources[j] is ApplicationAudio);
        lemma_first_source_unique(sources, id, i, j);
    }
}

/// Sixty frames in a row without a failure end a streak of recoveries; each recovery adds
/// one and starts the count anew.
pub proof fn law_sixty_frames_end_a_streak(s: RecoveryStreak)
    requires
        s.streak < u32::MAX,
        s.frames < 60,
    ensures
        after_error(s).streak == s.streak + 1 && after_error(s).frames == 0,
        s.streak == 0 ==> after_frame(s) == s,
        s.streak > 0 && s.frames < 59 ==> after_frame(s).streak == s.streak && after_frame(s).frames
            == s.frames + 1,
        s.frames == 59 ==> after_frame(s).streak == 0,
{
}

/// As long as no 60 frames in a row are rendered, every failed frame counts: the
/// series is as long as frames have failed, however often the device could be
/// rebuilt in between, so the loop gives up at the eighth.
pub proof fn law_flapping_device_ends_the_loop(history: Seq<bool>)
    requires
        unstable(history),
        failed_frames(history) <= MAX_RECOVERY_FAILURES,
    ensures
        streak_after(history).streak == failed_frames(history),
        failed_frames(history) > 0 ==> streak_after(history).frames == rendered_since(history),
    decreases history.len(),
{
    if history.len() > 0 {
        law_flapping_device_ends_the_loop(history.drop_last());
    }
}

/// 60 frames in a row end a series: a single failure leaves no trace.
pub proof fn law_stable_device_is_forgiven(history: Seq<bool>, frames: nat)
    requires
        streak_after(history).frames == 0,
        frames == RECOVERY_STREAK_RESET_FRAMES,
    ensures
        streak_after(history + Seq::new(frames, |i: int| true)) == (RecoveryStreak {
            streak: 0,
            frames: 0,
        }),
{
    lemma_frames_count(history, frames);
}

proof fn lemma_frames_count(history: Seq<bool>, frames: nat)
    requires
        streak_after(history).frames == 0,
        frames <= RECOVERY_STREAK_RESET_FRAMES,
    ensures
        ({
            let before = streak_after(history);
            let after = streak_after(history + Seq::new(frames, |i: int| true));
            if before.streak == 0 {
                after == before
            } else if frames == RECOVERY_STREAK_RESET_FRAMES {
                after == RecoveryStreak { streak: 0, frames: 0 }
            } else {
                after == RecoveryStreak { streak: before.streak, frames: frames as u32 }
            }
        }),
    decreases frames,
{
    let all = history + Seq::new(frames, |i: int| true);
    if frames == 0 {
        assert(all =~= history);
    } else {
        let fewer = (frames - 1) as nat;
        lemma_frames_count(history, fewer);
        assert(all.drop_last() =~= history + Seq::new(fewer, |i: int| true));
        assert(all.last());
    }
}

} // verus!
