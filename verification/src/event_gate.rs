//! Hand-over of engine events to the window.
//!
//! Until the window listens, events wait in a buffer. When it reports that it is
//! ready, everything that waited is replayed in order before new events pass.

use vstd::prelude::*;
use vstd::string::*;

use crate::engine_event;
use crate::engine_event::EngineEvent;
use crate::text::joined;

verus! {

/// So many events wait at most; then the oldest gives way.
pub const PENDING_EVENT_LIMIT: usize = 512;

/// A hotkey that could not be registered when the studio started.
pub struct HotkeyFailure {
    pub scene_id: u128,
    pub message: String,
}

/// The buffer between the engine and the window.
pub struct EventGate {
    pub initial_events: Vec<EngineEvent>,
    pub initial_hotkey_failures: Vec<HotkeyFailure>,
    pub pending: Vec<EngineEvent>,
    pub ready: bool,
    pub overflow_logged: bool,
}

/// What the forwarder does with an event.
pub enum Forward {
    /// The event waits; where `log_overflow`, the log says that an event was lost.
    Buffered { log_overflow: bool },
    /// The event goes to the window.
    Emit(EngineEvent),
}

/// A buffer after one more event: the oldest gives way where it is full.
pub open spec fn buffered(
    pending: Seq<engine_event::EventView>,
    event: engine_event::EventView,
) -> Seq<engine_event::EventView> {
    if pending.len() >= PENDING_EVENT_LIMIT {
        pending.drop_first().push(event)
    } else {
        pending.push(event)
    }
}

/// The events of failed hotkeys.
pub open spec fn hotkey_events(failures: Seq<HotkeyFailure>) -> Seq<engine_event::EventView> {
    failures.map_values(
        |f: HotkeyFailure| engine_event::EventView::HotkeyError {
            scene_id: f.scene_id,
            message: f.message@,
        },
    )
}

impl EventGate {
    /// Everything that waits, in the order in which it will be replayed.
    pub open spec fn waiting(self) -> Seq<engine_event::EventView> {
        engine_event::events_view(self.initial_events@) + hotkey_events(
            self.initial_hotkey_failures@,
        ) + engine_event::events_view(self.pending@)
    }

    /// A closed gate with the events of the start.
    pub fn new(initial_events: Vec<EngineEvent>) -> (r: Self)
        ensures
            r.initial_events == initial_events,
            r.initial_hotkey_failures@.len() == 0,
            r.pending@.len() == 0,
            !r.ready,
            !r.overflow_logged,
            r.waiting() == engine_event::events_view(initial_events@),
    {
        let r = EventGate {
            initial_events,
            initial_hotkey_failures: Vec::new(),
            pending: Vec::new(),
            ready: false,
            overflow_logged: false,
        };
        assert(r.waiting() =~= engine_event::events_view(initial_events@));
        r
    }

    /// Notes a hotkey that could not be registered at the start.
    pub fn note_hotkey_failure(&mut self, scene_id: u128, message: String)
        ensures
            final(self).initial_events == old(self).initial_events,
            final(self).pending == old(self).pending,
            final(self).ready == old(self).ready,
            final(self).overflow_logged == old(self).overflow_logged,
            hotkey_events(final(self).initial_hotkey_failures@) == hotkey_events(
                old(self).initial_hotkey_failures@,
            ).push(
                engine_event::EventView::HotkeyError { scene_id, message: message@ },
            ),
    {
        self.initial_hotkey_failures.push(HotkeyFailure { scene_id, message });
        assert(hotkey_events(self.initial_hotkey_failures@) =~= hotkey_events(
            old(self).initial_hotkey_failures@,
        ).push(engine_event::EventView::HotkeyError { scene_id, message: message@ }));
    }

    fn buffer(&mut self, event: EngineEvent) -> (r: bool)
        ensures
            engine_event::events_view(final(self).pending@) == buffered(
                engine_event::events_view(old(self).pending@),
                event@,
            ),
            r == (old(self).pending@.len() >= PENDING_EVENT_LIMIT),
            final(self).initial_events == old(self).initial_events,
            final(self).initial_hotkey_failures == old(self).initial_hotkey_failures,
            final(self).ready == old(self).ready,
            final(self).overflow_logged == old(self).overflow_logged,
    {
        let overflowed = self.pending.len() >= PENDING_EVENT_LIMIT;
        if overflowed {
            self.pending.remove(0);
        }
        self.pending.push(event);
        assert(engine_event::events_view(self.pending@) =~= buffered(
            engine_event::events_view(old(self).pending@),
            event@,
        ));
        overflowed
    }

    /// Takes an event of the engine. A lost event is logged when the buffer begins
    /// to overflow, not again for each further one.
    pub fn forward(&mut self, event: EngineEvent) -> (r: Forward)
        ensures
            final(self).initial_events == old(self).initial_events,
            final(self).initial_hotkey_failures == old(self).initial_hotkey_failures,
            final(self).ready == old(self).ready,
            if old(self).ready {
                &&& r == Forward::Emit(event)
                &&& *final(self) == *old(self)
            } else {
                let overflowed = old(self).pending@.len() >= PENDING_EVENT_LIMIT;
                &&& r == (Forward::Buffered {
                    log_overflow: overflowed && !old(self).overflow_logged,
                })
                &&& final(self).overflow_logged == overflowed
                &&& overflowed <==> old(self).pending@.len() >= 512
                &&& engine_event::events_view(final(self).pending@) == buffered(
                    engine_event::events_view(old(self).pending@),
                    event@,
                )
            },
    {
        if self.ready {
            return Forward::Emit(event);
        }
        let overflowed = self.buffer(event);
        let log_overflow = overflowed && !self.overflow_logged;
        self.overflow_logged = overflowed;
        Forward::Buffered { log_overflow }
    }

    /// An event could not be told: it waits, and forwarding stops.
    pub fn on_emit_failed(&mut self, event: EngineEvent)
        ensures
            !final(self).ready,
            final(self).initial_events == old(self).initial_events,
            final(self).initial_hotkey_failures == old(self).initial_hotkey_failures,
            final(self).overflow_logged == old(self).overflow_logged,
            engine_event::events_view(final(self).pending@) == buffered(
                engine_event::events_view(old(self).pending@),
                event@,
            ),
    {
        self.ready = false;
        self.buffer(event);
    }

    /// The window listens: starts forwarding and gives everything that waited, in the
    /// order in which it is told.
    pub fn begin_replay(&mut self) -> (r: Vec<EngineEvent>)
        ensures
            engine_event::events_view(r@) == old(self).waiting(),
            final(self).initial_events@.len() == 0,
            final(self).initial_hotkey_failures@.len() == 0,
            final(self).pending@.len() == 0,
            final(self).waiting() == Seq::<engine_event::EventView>::empty(),
            final(self).ready,
            final(self).overflow_logged == old(self).overflow_logged,
    {
        let mut events: Vec<EngineEvent> = Vec::new();
        let mut hotkeys: Vec<HotkeyFailure> = Vec::new();
        let mut pending: Vec<EngineEvent> = Vec::new();
        std::mem::swap(&mut events, &mut self.initial_events);
        std::mem::swap(&mut hotkeys, &mut self.initial_hotkey_failures);
        std::mem::swap(&mut pending, &mut self.pending);
        let ghost first = engine_event::events_view(events@);
        let mut i: usize = 0;
        assert(first =~= first + hotkey_events(hotkeys@).take(0));
        while i < hotkeys.len()
            invariant
                i <= hotkeys@.len(),
                engine_event::events_view(events@) == first + hotkey_events(hotkeys@).take(
                    i as int,
                ),
            decreases hotkeys@.len() - i,
        {
            let ghost before = events@;
            events.push(
                EngineEvent::HotkeyError {
                    scene_id: hotkeys[i].scene_id,
                    message: hotkeys[i].message.clone(),
                },
            );
            proof {
                assert(engine_event::events_view(events@) =~= engine_event::events_view(
                    before,
                ).push(hotkey_events(hotkeys@)[i as int]));
                assert(engine_event::events_view(events@) =~= first + hotkey_events(
                    hotkeys@,
                ).take(i + 1));
            }
            i += 1;
        }
        proof {
            assert(hotkey_events(hotkeys@).take(i as int) =~= hotkey_events(hotkeys@));
        }
        events.append(&mut pending);
        self.ready = true;
        proof {
            assert(engine_event::events_view(events@) =~= old(self).waiting());
            assert(self.waiting() =~= Seq::empty());
        }
        events
    }

    /// The replay stopped at an event: it and everything after it waits again among
    /// the pending events, and forwarding stops.
    pub fn on_replay_failed(&mut self, events: Vec<EngineEvent>, told: usize, error: &str) -> (r:
        String)
        requires
            old(self).waiting().len() == 0,
            told < events@.len(),
        ensures
            !final(self).ready,
            final(self).overflow_logged == old(self).overflow_logged,
            final(self).initial_events@.len() == 0,
            final(self).initial_hotkey_failures@.len() == 0,
            engine_event::events_view(final(self).pending@) == engine_event::events_view(
                events@,
            ).skip(told as int),
            final(self).waiting() == engine_event::events_view(events@).skip(told as int),
            r@ == "Engine-Ereignis konnte nicht zugestellt werden: "@ + error@,
    {
        let mut events = events;
        let ghost all = events@;
        self.pending = events.split_off(told);
        self.ready = false;
        proof {
            assert(engine_event::events_view(self.initial_events@).len() == 0);
            assert(hotkey_events(self.initial_hotkey_failures@).len() == 0);
            assert(engine_event::events_view(self.pending@) =~= engine_event::events_view(
                all,
            ).skip(told as int));
            assert(self.waiting() =~= engine_event::events_view(all).skip(told as int));
        }
        joined("Engine-Ereignis konnte nicht zugestellt werden: ", error)
    }
}

/// Up to 512 events wait, and no event is lost before; then each new one takes the place
/// of the oldest.
pub proof fn law_only_the_oldest_event_is_lost(
    pending: Seq<engine_event::EventView>,
    event: engine_event::EventView,
    i: int,
)
    requires
        0 <= i < pending.len() <= 512,
    ensures
        pending.len() < 512 ==> buffered(pending, event)[i] == pending[i] && buffered(
            pending,
            event,
        ).len() == pending.len() + 1,
        pending.len() == 512 ==> buffered(pending, event).len() == 512,
        pending.len() == 512 && i > 0 ==> buffered(pending, event)[i - 1] == pending[i],
        buffered(pending, event).last() == event,
{
}

/// A buffer never grows beyond its limit, keeps its newest events in order, and
/// loses nothing before it is full.
pub proof fn law_buffer_is_bounded(
    pending: Seq<engine_event::EventView>,
    event: engine_event::EventView,
)
    requires
        pending.len() <= PENDING_EVENT_LIMIT,
    ensures
        buffered(pending, event).len() <= PENDING_EVENT_LIMIT,
        buffered(pending, event).last() == event,
        pending.len() < PENDING_EVENT_LIMIT ==> buffered(pending, event).drop_last() == pending,
        pending.len() == PENDING_EVENT_LIMIT ==> buffered(pending, event).drop_last()
            == pending.drop_first(),
{
}

/// An interrupted replay loses nothing and repeats nothing: what was told and what
/// waits again are together what had waited.
pub proof fn law_interrupted_replay_is_resumed(before: EventGate, after: EventGate, told: int)
    requires
        0 <= told <= before.waiting().len(),
        after.waiting() == before.waiting().skip(told),
    ensures
        before.waiting().take(told) + after.waiting() == before.waiting(),
{
    assert(before.waiting().take(told) + before.waiting().skip(told) =~= before.waiting());
}

} // verus!
