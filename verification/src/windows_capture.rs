//! Captured windows and displays: which frames are shown and when a source counts
//! as gone.

use vstd::prelude::*;
use vstd::string::*;

use crate::engine_event;
use crate::engine_event::{send, EngineEvent};
use crate::id_map::IdMap;
use crate::id_set::IdSet;
use crate::portal_captures;
use crate::portal_captures::elapsed_ns;
use crate::project;
use crate::project::{active_scene, Project, SceneItem};
use crate::windows_sync::Loaded;
use crate::windows_video;
use crate::windows_video::WindowsVideoError;

verus! {

/// A window that delivers nothing for so many nanoseconds may be gone.
pub const STALE_AGE_NS: u64 = 750_000_000;

/// A running capture of a window. `F` is a frame.
pub struct WindowCapture<F> {
    pub latest: Option<F>,
    pub last_frame: Option<u64>,
    pub closed: bool,
    pub created_at: u64,
    pub content_width: i32,
    pub content_height: i32,
}

/// Whether a capture has been silent for longer than `maximum_age`; before its
/// first frame it has four times as long.
pub open spec fn stale<F>(capture: WindowCapture<F>, maximum_age: u64, now: u64) -> bool {
    match capture.last_frame {
        Some(arrival) => portal_captures::elapsed(now, arrival) > maximum_age,
        None => portal_captures::elapsed(now, capture.created_at) > maximum_age * 4,
    }
}

impl<F> WindowCapture<F> {
    /// A capture needs a window.
    pub fn check_window(window: usize) -> (r: Result<(), WindowsVideoError>)
        ensures
            windows_video::error_view(r) == (if window == 0 {
                Some(windows_video::ErrorView::SourceUnavailable("window handle is null"@))
            } else {
                None
            }),
    {
        if window == 0 {
            Err(WindowsVideoError::SourceUnavailable("window handle is null".to_owned()))
        } else {
            Ok(())
        }
    }

    /// Starts with a window of the given size, which must have an area.
    pub fn start(width: i32, height: i32, now: u64) -> (r: Result<Self, WindowsVideoError>)
        ensures
            match r {
                Ok(capture) => {
                    &&& width > 0 && height > 0
                    &&& capture == (WindowCapture {
                        latest: None::<F>,
                        last_frame: None,
                        closed: false,
                        created_at: now,
                        content_width: width,
                        content_height: height,
                    })
                },
                Err(e) => {
                    &&& width <= 0 || height <= 0
                    &&& e@ == windows_video::ErrorView::SourceUnavailable(
                        "window has no capturable client area"@,
                    )
                },
            },
    {
        if width <= 0 || height <= 0 {
            return Err(
                WindowsVideoError::SourceUnavailable(
                    "window has no capturable client area".to_owned(),
                ),
            );
        }
        Ok(
            WindowCapture {
                latest: None,
                last_frame: None,
                closed: false,
                created_at: now,
                content_width: width,
                content_height: height,
            },
        )
    }

    /// Whether a frame of the given size asks for a new frame pool.
    pub fn needs_pool(&self, width: i32, height: i32) -> (r: bool)
        ensures
            r == (self.content_width != width || self.content_height != height),
    {
        self.content_width != width || self.content_height != height
    }

    /// Takes the result of a new frame pool. The size is committed on success only,
    /// so that the next frame tries a failed change again.
    pub fn recreate_pool(&mut self, width: i32, height: i32, recreated: bool)
        ensures
            *final(self) == (if recreated {
                WindowCapture { content_width: width, content_height: height, ..*old(self) }
            } else {
                *old(self)
            }),
    {
        if recreated {
            self.content_width = width;
            self.content_height = height;
        }
    }

    /// A frame arrived; it replaces one that nobody took.
    pub fn on_frame(&mut self, frame: F, now: u64)
        ensures
            *final(self) == (WindowCapture {
                latest: Some(frame),
                last_frame: Some(now),
                ..*old(self)
            }),
    {
        self.latest = Some(frame);
        self.last_frame = Some(now);
    }

    /// The window was closed.
    pub fn on_closed(&mut self)
        ensures
            *final(self) == (WindowCapture { closed: true, ..*old(self) }),
    {
        self.closed = true;
    }

    /// Takes the newest frame.
    pub fn take_latest(&mut self) -> (r: Option<F>)
        ensures
            r == old(self).latest,
            *final(self) == (WindowCapture { latest: None::<F>, ..*old(self) }),
    {
        self.latest.take()
    }

    /// Whether the capture has been silent for too long.
    pub fn is_stale(&self, maximum_age: u64, now: u64) -> (r: bool)
        requires
            self.last_frame is None ==> maximum_age * 4 <= u64::MAX,
        ensures
            r == stale(*self, maximum_age, now),
    {
        match self.last_frame {
            Some(arrival) => elapsed_ns(now, arrival) > maximum_age,
            None => elapsed_ns(now, self.created_at) > maximum_age * 4,
        }
    }

    /// Whether any frame ever arrived.
    pub fn has_delivered(&self) -> (r: bool)
        ensures
            r == (self.last_frame is Some),
    {
        self.last_frame.is_some()
    }

    /// Whether the window was closed.
    pub fn is_closed(&self) -> (r: bool)
        ensures
            r == self.closed,
    {
        self.closed
    }
}

/// The captured windows, the frames on show and the windows reported as gone.
pub struct WindowTables<F> {
    pub captures: IdMap<Loaded<WindowCapture<F>>>,
    pub frames: IdMap<F>,
    pub stale: IdSet,
}

/// What the window tables and the events say.
#[verifier::ext_equal]
pub struct WindowModel<F> {
    pub captures: Map<u128, Loaded<WindowCapture<F>>>,
    pub frames: Map<u128, F>,
    pub stale: Set<u128>,
    pub events: Seq<engine_event::EventView>,
}

/// A capture without its newest frame.
pub open spec fn emptied<F>(loaded: Loaded<WindowCapture<F>>) -> Loaded<WindowCapture<F>> {
    Loaded { value: WindowCapture { latest: None::<F>, ..loaded.value }, ..loaded }
}

/// A window is gone when it is silent and was closed or never delivered anything.
/// A window that stands still is not: its last frame stays on show.
pub open spec fn is_gone<F>(capture: WindowCapture<F>, now: u64) -> bool {
    stale(capture, STALE_AGE_NS, now) && (capture.last_frame is None || capture.closed)
}

/// Why a window is gone.
pub open spec fn gone_reason<F>(capture: WindowCapture<F>) -> Seq<char> {
    if capture.closed {
        "Fenster wurde geschlossen"@
    } else {
        "Fenster liefert keine Live-Frames"@
    }
}

/// What one source's capture does to the tables.
pub open spec fn window_source<F>(m: WindowModel<F>, id: u128, now: u64) -> WindowModel<F> {
    if !m.captures.dom().contains(id) {
        m
    } else {
        let capture = m.captures[id].value;
        match capture.latest {
            Some(frame) => WindowModel {
                captures: m.captures.insert(id, emptied(m.captures[id])),
                frames: m.frames.insert(id, frame),
                stale: m.stale.remove(id),
                events: if m.stale.contains(id) {
                    m.events.push(engine_event::EventView::SourceAvailable { source_id: id })
                } else {
                    m.events
                },
            },
            None => if is_gone(capture, now) {
                WindowModel {
                    captures: m.captures,
                    frames: m.frames.remove(id),
                    stale: m.stale.insert(id),
                    events: if m.stale.contains(id) {
                        m.events
                    } else {
                        m.events.push(
                            engine_event::EventView::SourceUnavailable {
                                source_id: id,
                                reason: gone_reason(capture),
                            },
                        )
                    },
                }
            } else {
                m
            },
        }
    }
}

/// What the captures of the visible items do to the tables, item by item.
pub open spec fn window_items<F>(m: WindowModel<F>, items: Seq<SceneItem>, now: u64) -> WindowModel<
    F,
>
    decreases items.len(),
{
    if items.len() == 0 {
        m
    } else {
        let before = window_items(m, items.drop_last(), now);
        if items.last().visible {
            window_source(before, items.last().source_id, now)
        } else {
            before
        }
    }
}

impl<F> WindowTables<F> {
    /// Each table lists a source once.
    pub open spec fn wf(self) -> bool {
        self.captures.wf() && self.frames.wf() && self.stale.wf()
    }

    /// What the tables and a list of events say.
    pub open spec fn model(self, events: Seq<EngineEvent>) -> WindowModel<F> {
        WindowModel {
            captures: self.captures@,
            frames: self.frames@,
            stale: self.stale@,
            events: engine_event::events_view(events),
        }
    }

    /// No windows yet.
    pub fn new() -> (r: Self)
        ensures
            r.wf(),
            r.captures@ == Map::<u128, Loaded<WindowCapture<F>>>::empty(),
            r.frames@ == Map::<u128, F>::empty(),
            r.stale@ == Set::<u128>::empty(),
    {
        WindowTables { captures: IdMap::new(), frames: IdMap::new(), stale: IdSet::new() }
    }

    fn pump_source(&mut self, id: u128, now: u64, events: &mut Vec<EngineEvent>)
        requires
            old(self).wf(),
        ensures
            final(self).wf(),
            final(self).model(final(events)@) == window_source(
                old(self).model(old(events)@),
                id,
                now,
            ),
    {
        let ghost goal = window_source(self.model(events@), id, now);
        let (latest, gone, closed) = match self.captures.get_mut(id) {
            Some(loaded) => {
                let latest = loaded.value.take_latest();
                let gone = loaded.value.is_stale(STALE_AGE_NS, now) && (
                !loaded.value.has_delivered() || loaded.value.is_closed());
                let closed = loaded.value.is_closed();
                (latest, gone, closed)
            },
            None => {
                assert(self.model(events@) =~= goal);
                return;
            },
        };
        match latest {
            Some(frame) => {
                self.frames.insert(id, frame);
                if self.stale.remove(id) {
                    send(events, EngineEvent::SourceAvailable { source_id: id });
                }
            },
            None => {
                assert(self.captures@ =~= old(self).captures@);
                if gone {
                    self.frames.remove(id);
                    if self.stale.insert(id) {
                        let reason = if closed {
                            "Fenster wurde geschlossen"
                        } else {
                            "Fenster liefert keine Live-Frames"
                        };
                        send(
                            events,
                            EngineEvent::SourceUnavailable { source_id: id, reason: reason.to_owned() },
                        );
                    }
                }
            },
        }
        assert(self.model(events@) =~= goal);
    }

    /// Takes the newest frames of the visible windows and reports windows that are
    /// gone or back.
    pub fn pump_window_frames(&mut self, project: &Project, now: u64, events: &mut Vec<EngineEvent>)
        requires
            old(self).wf(),
        ensures
            final(self).wf(),
            final(self).model(final(events)@) == window_items(
                old(self).model(old(events)@),
                project::active_items(*project),
                now,
            ),
    {
        let scene: usize = match active_scene(project) {
            Some(scene) => scene,
            None => {
                return;
            },
        };
        let items = &project.scenes[scene].items;
        let ghost start = self.model(events@);
        let mut i: usize = 0;
        while i < items.len()
            invariant
                i <= items@.len(),
                self.wf(),
                self.model(events@) == window_items(start, items@.take(i as int), now),
            decreases items@.len() - i,
        {
            assert(items@.take(i + 1).drop_last() =~= items@.take(i as int));
            if items[i].visible {
                self.pump_source(items[i].source_id, now, events);
            }
            i += 1;
        }
        assert(items@.take(i as int) =~= items@);
    }
}

/// A window is given up where it was closed and its last frame is more than three
/// quarters of a second old, or where it has never delivered one in three seconds; a
/// window that merely shows nothing new is not.
pub proof fn law_window_is_gone_when_closed_or_silent<F>(capture: WindowCapture<F>, now: u64)
    ensures
        capture.last_frame matches Some(arrival) ==> (is_gone(capture, now) <==> capture.closed
            && now > arrival + 750_000_000),
        capture.last_frame is None ==> (is_gone(capture, now) <==> now > capture.created_at
            + 3_000_000_000),
{
}

/// A window's new frame is shown and taken, and a window that was given up is told as
/// available again; one that is given up loses its frame and is told as unavailable, once.
pub proof fn law_window_shows_its_newest_frame<F>(m: WindowModel<F>, id: u128, now: u64, other: u128)
    requires
        m.captures.dom().contains(id),
    ensures
        ({
            let after = window_source(m, id, now);
            let capture = m.captures[id].value;
            &&& capture.latest matches Some(frame) ==> {
                &&& after.frames.dom().contains(id) && after.frames[id] == frame
                &&& !after.stale.contains(id)
                &&& after.captures[id].value.latest is None
                &&& m.stale.contains(id) ==> after.events == m.events.push(
                    engine_event::EventView::SourceAvailable { source_id: id },
                )
                &&& !m.stale.contains(id) ==> after.events == m.events
            }
            &&& capture.latest is None && is_gone(capture, now) ==> {
                &&& !after.frames.dom().contains(id)
                &&& after.stale.contains(id)
                &&& m.stale.contains(id) ==> after.events == m.events
                &&& !m.stale.contains(id) ==> after.events.len() == m.events.len() + 1 && (
                after.events.last() matches engine_event::EventView::SourceUnavailable {
                    source_id,
                    ..
                } && source_id == id)
            }
            &&& other != id ==> {
                &&& after.frames.dom().contains(other) == m.frames.dom().contains(other)
                &&& m.frames.dom().contains(other) ==> after.frames[other] == m.frames[other]
                &&& after.stale.contains(other) == m.stale.contains(other)
            }
        }),
{
}

/// Only windows with a visible item are looked at.
pub proof fn law_hidden_window_is_left_alone<F>(
    m: WindowModel<F>,
    items: Seq<SceneItem>,
    now: u64,
    id: u128,
)
    requires
        forall|i: int|
            0 <= i < items.len() && (#[trigger] items[i]).source_id == id ==> !items[i].visible,
    ensures
        ({
            let after = window_items(m, items, now);
            &&& after.captures.dom().contains(id) == m.captures.dom().contains(id)
            &&& m.captures.dom().contains(id) ==> after.captures[id] == m.captures[id]
            &&& after.frames.dom().contains(id) == m.frames.dom().contains(id)
            &&& m.frames.dom().contains(id) ==> after.frames[id] == m.frames[id]
            &&& after.stale.contains(id) == m.stale.contains(id)
        }),
    decreases items.len(),
{
    if items.len() > 0 {
        assert(items.last() == items[items.len() - 1]);
        assert forall|i: int|
            0 <= i < items.drop_last().len() && (#[trigger] items.drop_last()[i]).source_id
                == id implies !items.drop_last()[i].visible by {
            assert(items.drop_last()[i] == items[i]);
        }
        law_hidden_window_is_left_alone(m, items.drop_last(), now, id);
    }
}

/// A window that stands still stays on show: once it has delivered a frame and is
/// open, silence changes nothing.
pub proof fn law_still_window_stays<F>(m: WindowModel<F>, id: u128, now: u64)
    requires
        m.captures.dom().contains(id),
        m.captures[id].value.latest is None,
        m.captures[id].value.last_frame is Some,
        !m.captures[id].value.closed,
    ensures
        window_source(m, id, now) == m,
{
}

/// A window that is gone is reported once: looking at it again changes nothing.
pub proof fn law_gone_window_is_reported_once<F>(m: WindowModel<F>, id: u128, now: u64, later: u64)
    requires
        m.captures.dom().contains(id),
        m.captures[id].value.latest is None,
        is_gone(m.captures[id].value, now),
        now <= later,
    ensures
        window_source(window_source(m, id, now), id, later) == window_source(m, id, now),
{
    let once = window_source(m, id, now);
    assert(once.stale.insert(id) =~= once.stale);
    assert(once.frames.remove(id) =~= once.frames);
}

/// The duplicated displays and those that were reported as available.
pub struct DisplayTables<D> {
    pub captures: IdMap<Loaded<D>>,
    pub available: IdSet,
}

impl<D> DisplayTables<D> {
    /// Each table lists a source once.
    pub open spec fn wf(self) -> bool {
        self.captures.wf() && self.available.wf()
    }

    /// No displays yet.
    pub fn new() -> (r: Self)
        ensures
            r.wf(),
            r.captures@ == Map::<u128, Loaded<D>>::empty(),
            r.available@ == Set::<u128>::empty(),
    {
        DisplayTables { captures: IdMap::new(), available: IdSet::new() }
    }

    /// Takes what one duplication gave: a frame, nothing new, or a failure. The
    /// first frame is reported; a failed duplication is dropped and made anew in
    /// a later tick.
    pub fn on_acquired(
        &mut self,
        id: u128,
        result: Result<bool, String>,
        events: &mut Vec<EngineEvent>,
    )
        requires
            old(self).wf(),
        ensures
            final(self).wf(),
            match result {
                Ok(true) => {
                    &&& final(self).captures@ == old(self).captures@
                    &&& final(self).available@ == old(self).available@.insert(id)
                    &&& engine_event::events_view(final(events)@) == (if old(
                        self,
                    ).available@.contains(id) {
                        engine_event::events_view(old(events)@)
                    } else {
                        engine_event::events_view(old(events)@).push(
                            engine_event::EventView::SourceAvailable { source_id: id },
                        )
                    })
                },
                Ok(false) => {
                    &&& *final(self) == *old(self)
                    &&& final(events)@ == old(events)@
                },
                Err(reason) => {
                    &&& final(self).captures@ == old(self).captures@.remove(id)
                    &&& final(self).available@ == old(self).available@.remove(id)
                    &&& engine_event::events_view(final(events)@) == engine_event::events_view(
                        old(events)@,
                    ).push(
                        engine_event::EventView::SourceUnavailable {
                            source_id: id,
                            reason: reason@,
                        },
                    )
                },
            },
    {
        match result {
            Ok(true) => {
                if self.available.insert(id) {
                    send(events, EngineEvent::SourceAvailable { source_id: id });
                }
            },
            Ok(false) => {},
            Err(reason) => {
                self.available.remove(id);
                send(events, EngineEvent::SourceUnavailable { source_id: id, reason });
                self.captures.remove(id);
            },
        }
    }
}

} // verus!
