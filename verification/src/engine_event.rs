//! Events that the engine sends to the shell.

use vstd::prelude::*;

verus! {

/// How far a device recovery has come.
#[derive(Clone, Copy, Debug, PartialEq, Eq, Structural)]
pub enum DeviceRecoveryPhase {
    Started,
    Succeeded,
    Failed,
}

/// Playback state of a media source; times are the bit patterns of seconds in
/// double precision.
#[derive(Clone, Copy, Debug, PartialEq, Eq, Structural)]
pub struct MediaState {
    pub playing: bool,
    pub position_bits: u64,
    pub duration_bits: Option<u64>,
}

/// An engine event.
#[derive(Clone, Debug)]
pub enum EngineEvent {
    SourceAvailable { source_id: u128 },
    SourceUnavailable { source_id: u128, reason: String },
    UnsupportedMedia { source_id: u128, reason: String },
    MediaState { source_id: u128, state: MediaState },
    DeviceRecovery { phase: DeviceRecoveryPhase, detail: Option<String> },
    EngineError { message: String },
    HotkeyError { scene_id: u128, message: String },
}

/// What an event says.
pub enum EventView {
    SourceAvailable { source_id: u128 },
    SourceUnavailable { source_id: u128, reason: Seq<char> },
    UnsupportedMedia { source_id: u128, reason: Seq<char> },
    MediaState { source_id: u128, state: MediaState },
    DeviceRecovery { phase: DeviceRecoveryPhase, detail: Option<Seq<char>> },
    EngineError { message: Seq<char> },
    HotkeyError { scene_id: u128, message: Seq<char> },
}

/// The characters of an optional text.
pub open spec fn text_view(text: Option<String>) -> Option<Seq<char>> {
    match text {
        Some(t) => Some(t@),
        None => None,
    }
}

impl View for EngineEvent {
    type V = EventView;

    open spec fn view(&self) -> EventView {
        match *self {
            EngineEvent::SourceAvailable { source_id } => EventView::SourceAvailable { source_id },
            EngineEvent::SourceUnavailable { source_id, reason } => EventView::SourceUnavailable {
                source_id,
                reason: reason@,
            },
            EngineEvent::UnsupportedMedia { source_id, reason } => EventView::UnsupportedMedia {
                source_id,
                reason: reason@,
            },
            EngineEvent::MediaState { source_id, state } => EventView::MediaState {
                source_id,
                state,
            },
            EngineEvent::DeviceRecovery { phase, detail } => EventView::DeviceRecovery {
                phase,
                detail: text_view(detail),
            },
            EngineEvent::EngineError { message } => EventView::EngineError { message: message@ },
            EngineEvent::HotkeyError { scene_id, message } => EventView::HotkeyError {
                scene_id,
                message: message@,
            },
        }
    }
}

/// What a list of events says.
pub open spec fn events_view(events: Seq<EngineEvent>) -> Seq<EventView> {
    events.map_values(|e: EngineEvent| e@)
}

/// Appends one event.
pub fn send(events: &mut Vec<EngineEvent>, event: EngineEvent)
    ensures
        events_view(final(events)@) == events_view(old(events)@).push(event@),
        final(events)@ == old(events)@.push(event),
{
    events.push(event);
    assert(events_view(events@) =~= events_view(old(events)@).push(event@));
}

} // verus!
