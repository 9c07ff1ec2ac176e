//! What the Windows render loop does with each media file in a round.
//!
//! A round goes through the media sources one by one. For each, the caller does
//! what a step asks for (a seek, a read, holding the clock) and hands back the
//! result, until the source is done.

use vstd::prelude::*;
use vstd::string::*;

use crate::engine_event;
use crate::engine_event::{send, EngineEvent, MediaState};
use crate::id_map::IdMap;
use crate::id_set::IdSet;
use crate::project;
use crate::project::{active_scene, MediaSource, Project};
use crate::video;
use crate::video::{MediaControl, MediaControlBus};
use crate::windows_media::ReadOutcome;
use crate::windows_sync;
use crate::windows_sync::{FailureKey, FailureKind, FailureLog};

verus! {

/// What the caller does next for a source.
#[derive(Clone, Copy, Debug, PartialEq, Eq, Structural)]
pub enum PumpStep {
    /// Move the file to its start because the source came into view.
    SeekForRestart,
    /// Move the file to where the user wants it; the bit pattern of seconds.
    SeekTo(u64),
    /// Move the file to its start because the user plays an ended file.
    SeekForReplay,
    /// Stop the clock and, where `report`, report the position of the paused file.
    Hold { report: bool },
    /// Run the clock and read.
    Read,
    /// Move a looped file that has ended to its start.
    SeekForLoop,
    /// Empty the audio buffer: a looped file could not go back to its start.
    Mute,
    /// Nothing more in this round.
    Done,
}

/// A position of a file. `stepped` says whether it is at least a quarter of a
/// second away from the position that was reported last.
#[derive(Clone, Copy, Debug, PartialEq, Eq, Structural)]
pub struct Position {
    pub bits: u64,
    pub stepped: bool,
}

/// What was reported last about a file.
#[derive(Clone, Copy, Debug, PartialEq, Eq, Structural)]
pub struct LastState {
    pub playing: bool,
    pub position_bits: u64,
}

/// A source whose turn it is.
#[derive(Clone, Copy, Debug, PartialEq, Eq, Structural)]
pub struct PumpTurn {
    pub source_id: u128,
    pub looped: bool,
    pub continue_when_hidden: bool,
    pub visible: bool,
    pub control: MediaControl,
}

/// What the render loop remembers of its media files.
pub struct MediaPump {
    pub last_state: IdMap<LastState>,
    pub ended: IdSet,
    pub read_backoff: IdSet,
    pub previous_visible: IdSet,
}

/// What the pump, the failure log, the controls and the events say.
#[verifier::ext_equal]
pub struct PumpModel {
    pub last_state: Map<u128, LastState>,
    pub ended: Set<u128>,
    pub read_backoff: Set<u128>,
    pub previous_visible: Set<u128>,
    pub failures: Map<FailureKey, Seq<char>>,
    pub controls: Map<u128, MediaControl>,
    pub events: Seq<engine_event::EventView>,
}

/// The key of a read failure.
pub open spec fn read_failure(id: u128) -> FailureKey {
    FailureKey { source_id: id, kind: FailureKind::MediaRead }
}

/// After a state was reported: a changed play state goes out at once, a position
/// only when it has moved far enough.
pub open spec fn reported(m: PumpModel, id: u128, playing: bool, position: Position) -> PumpModel {
    if m.last_state.dom().contains(id) && m.last_state[id].playing == playing && !position.stepped {
        m
    } else {
        PumpModel {
            last_state: m.last_state.insert(
                id,
                LastState { playing, position_bits: position.bits },
            ),
            events: m.events.push(
                engine_event::EventView::MediaState {
                    source_id: id,
                    state: MediaState { playing, position_bits: position.bits, duration_bits: None },
                },
            ),
            ..m
        }
    }
}

/// After a file was moved to its start because its source came into view.
pub open spec fn restarted(m: PumpModel, id: u128, moved: bool) -> PumpModel {
    PumpModel {
        ended: if moved {
            m.ended.remove(id)
        } else {
            m.ended
        },
        failures: m.failures.remove(read_failure(id)),
        read_backoff: m.read_backoff.remove(id),
        ..m
    }
}

/// After a file was moved by the user, or played again after its end: earlier read
/// failures and the last report are forgotten, and the file is not at its end.
pub open spec fn moved(m: PumpModel, id: u128) -> PumpModel {
    PumpModel {
        last_state: m.last_state.remove(id),
        ended: m.ended.remove(id),
        failures: m.failures.remove(read_failure(id)),
        read_backoff: m.read_backoff.remove(id),
        ..m
    }
}

/// After a file could not be moved.
pub open spec fn complained(m: PumpModel, id: u128, reason: Seq<char>) -> PumpModel {
    PumpModel {
        events: m.events.push(
            engine_event::EventView::UnsupportedMedia { source_id: id, reason },
        ),
        ..m
    }
}

/// After playback stopped by itself: the user's wish to play is withdrawn, unless
/// there is a newer one.
pub open spec fn stopped(m: PumpModel, id: u128, epoch: u64) -> PumpModel {
    PumpModel {
        controls: m.controls.insert(
            id,
            video::paused_since(video::control_of(m.controls, id), epoch),
        ),
        ..m
    }
}

/// After a file came to its end and stays there.
pub open spec fn latched(m: PumpModel, turn: PumpTurn, position: Position) -> PumpModel {
    let id = turn.source_id;
    let latch = PumpModel {
        ended: m.ended.insert(id),
        ..stopped(m, id, turn.control.epoch)
    };
    reported(latch, id, false, position)
}

/// What a source that should play does: one round of rest after a failed read,
/// else it reads; hidden, it holds.
pub open spec fn play_step(m: PumpModel, turn: PumpTurn) -> (PumpModel, PumpStep) {
    if turn.visible || turn.continue_when_hidden {
        if m.read_backoff.contains(turn.source_id) {
            (
                PumpModel { read_backoff: m.read_backoff.remove(turn.source_id), ..m },
                PumpStep::Hold { report: false },
            )
        } else {
            (m, PumpStep::Read)
        }
    } else {
        (m, PumpStep::Hold { report: false })
    }
}

/// What a source does once its seeks are done: an ended file waits until the user
/// plays it, a paused one holds, and the others play.
pub open spec fn gate_step(m: PumpModel, turn: PumpTurn) -> (PumpModel, PumpStep) {
    if m.ended.contains(turn.source_id) {
        if turn.control.playing {
            (m, PumpStep::SeekForReplay)
        } else {
            (m, PumpStep::Hold { report: true })
        }
    } else if !turn.control.playing {
        (m, PumpStep::Hold { report: true })
    } else {
        play_step(m, turn)
    }
}

/// What a source does once it was restarted, where it had to be: the position that
/// the user asked for comes first.
pub open spec fn seek_step(m: PumpModel, turn: PumpTurn) -> (PumpModel, PumpStep) {
    let id = turn.source_id;
    let taken = PumpModel { controls: video::without_seek(m.controls, id), ..m };
    match video::control_of(m.controls, id).seek_seconds {
        Some(position) => (taken, PumpStep::SeekTo(position)),
        None => gate_step(taken, turn),
    }
}

/// The turn of a source.
pub open spec fn turn_of(m: PumpModel, source: MediaSource, visible: bool) -> PumpTurn {
    PumpTurn {
        source_id: source.id,
        looped: source.looped,
        continue_when_hidden: source.continue_when_hidden,
        visible,
        control: video::control_of(m.controls, source.id),
    }
}

/// The first step of a source.
pub open spec fn first_step(m: PumpModel, source: MediaSource, visible: bool) -> (
    PumpModel,
    PumpStep,
) {
    if source.restart_on_show && visible && !m.previous_visible.contains(source.id) {
        (m, PumpStep::SeekForRestart)
    } else {
        seek_step(m, turn_of(m, source, visible))
    }
}

/// After a round of reading.
pub open spec fn read_step(
    m: PumpModel,
    turn: PumpTurn,
    result: Result<ReadOutcome, Seq<char>>,
    position: Position,
) -> (PumpModel, PumpStep) {
    let id = turn.source_id;
    match result {
        Ok(ReadOutcome::Eof) => if turn.looped {
            (m, PumpStep::SeekForLoop)
        } else {
            let end = latched(m, turn, position);
            (
                PumpModel { failures: end.failures.remove(read_failure(id)), ..end },
                PumpStep::Done,
            )
        },
        Ok(ReadOutcome::Advanced) => {
            let told = reported(m, id, true, position);
            (
                PumpModel { failures: told.failures.remove(read_failure(id)), ..told },
                PumpStep::Done,
            )
        },
        Ok(ReadOutcome::Paced) => (m, PumpStep::Done),
        Err(reason) => {
            let rests = PumpModel {
                read_backoff: m.read_backoff.insert(id),
                failures: windows_sync::noted(m.failures, read_failure(id), reason),
                ..m
            };
            (
                if windows_sync::is_news(m.failures, read_failure(id), reason) {
                    complained(rests, id, reason)
                } else {
                    rests
                },
                PumpStep::Done,
            )
        },
    }
}

/// The text of a result's error.
pub open spec fn result_view<A>(result: Result<A, String>) -> Result<A, Seq<char>> {
    match result {
        Ok(value) => Ok(value),
        Err(reason) => Err(reason@),
    }
}

/// The sources that a project shows.
pub open spec fn visible_ids(project: Project) -> Set<u128> {
    Set::new(|id: u128| project::shown_in(project::active_items(project), id))
}

/// The sources that a project shows.
pub fn visible_sources(project: &Project) -> (r: IdSet)
    ensures
        r.wf(),
        r@ == visible_ids(*project),
{
    let mut r = IdSet::new();
    let scene: usize = match active_scene(project) {
        Some(scene) => scene,
        None => {
            assert(r@ =~= visible_ids(*project));
            return r;
        },
    };
    let items = &project.scenes[scene].items;
    let mut i: usize = 0;
    while i < items.len()
        invariant
            i <= items@.len(),
            r.wf(),
            forall|id: u128| #[trigger]
                r@.contains(id) <==> project::shown_in(items@.take(i as int), id),
        decreases items@.len() - i,
    {
        let ghost before = r@;
        let ghost item = items@[i as int];
        if items[i].visible {
            r.insert(items[i].source_id);
        }
        proof {
            let now = items@.take(i + 1);
            let then = items@.take(i as int);
            assert forall|id: u128| #[trigger] r@.contains(id) <==> project::shown_in(now, id) by {
                if project::shown_in(then, id) {
                    let j = choose|j: int|
                        0 <= j < then.len() && (#[trigger] then[j]).visible && then[j].source_id
                            == id;
                    assert(now[j].visible && now[j].source_id == id);
                }
                if item.visible && item.source_id == id {
                    assert(now[i as int].visible && now[i as int].source_id == id);
                }
                if project::shown_in(now, id) {
                    let j = choose|j: int|
                        0 <= j < now.len() && (#[trigger] now[j]).visible && now[j].source_id == id;
                    if j < i {
                        assert(then[j].visible && then[j].source_id == id);
                    }
                }
                assert(before.contains(id) <==> project::shown_in(then, id));
            }
        }
        i += 1;
    }
    assert(items@.take(i as int) =~= items@);
    assert(r@ =~= visible_ids(*project));
    r
}

impl MediaPump {
    /// Each table lists a source once.
    pub open spec fn wf(self) -> bool {
        &&& self.last_state.wf()
        &&& self.ended.wf()
        &&& self.read_backoff.wf()
        &&& self.previous_visible.wf()
    }

    /// What the pump and its surroundings say.
    pub open spec fn model(
        self,
        bus: MediaControlBus,
        failures: FailureLog,
        events: Seq<EngineEvent>,
    ) -> PumpModel {
        PumpModel {
            last_state: self.last_state@,
            ended: self.ended@,
            read_backoff: self.read_backoff@,
            previous_visible: self.previous_visible@,
            failures: failures@,
            controls: bus.controls@,
            events: engine_event::events_view(events),
        }
    }

    /// Nothing is remembered yet.
    pub fn new() -> (r: Self)
        ensures
            r.wf(),
            r.last_state@ == Map::<u128, LastState>::empty(),
            r.ended@ == Set::<u128>::empty(),
            r.read_backoff@ == Set::<u128>::empty(),
            r.previous_visible@ == Set::<u128>::empty(),
    {
        MediaPump {
            last_state: IdMap::new(),
            ended: IdSet::new(),
            read_backoff: IdSet::new(),
            previous_visible: IdSet::new(),
        }
    }

    /// The bit pattern of the position that was reported last.
    pub fn last_position(&self, id: u128) -> (r: Option<u64>)
        requires
            self.wf(),
        ensures
            r == (if self.last_state@.dom().contains(id) {
                Some(self.last_state@[id].position_bits)
            } else {
                None
            }),
    {
        match self.last_state.get(id) {
            Some(last) => Some(last.position_bits),
            None => None,
        }
    }

    /// Reports a state, where it is news.
    pub fn send_media_state(
        &mut self,
        id: u128,
        playing: bool,
        position: Position,
        events: &mut Vec<EngineEvent>,
    )
        requires
            old(self).wf(),
        ensures
            final(self).wf(),
            final(self).ended == old(self).ended,
            final(self).read_backoff == old(self).read_backoff,
            final(self).previous_visible == old(self).previous_visible,
            forall|bus: MediaControlBus, failures: FailureLog|
                #![trigger final(self).model(bus, failures, final(events)@)]
                final(self).model(bus, failures, final(events)@) == reported(
                    old(self).model(bus, failures, old(events)@),
                    id,
                    playing,
                    position,
                ),
    {
        let same = match self.last_state.get(id) {
            Some(last) => last.playing == playing && !position.stepped,
            None => false,
        };
        if !same {
            self.last_state.insert(id, LastState { playing, position_bits: position.bits });
            send(
                events,
                EngineEvent::MediaState {
                    source_id: id,
                    state: MediaState { playing, position_bits: position.bits, duration_bits: None },
                },
            );
        }
    }

    fn play(&mut self, turn: PumpTurn) -> (r: PumpStep)
        requires
            old(self).wf(),
        ensures
            final(self).wf(),
            forall|bus: MediaControlBus, failures: FailureLog, events: Seq<EngineEvent>|
                #![trigger final(self).model(bus, failures, events)]
                (final(self).model(bus, failures, events), r) == play_step(
                    old(self).model(bus, failures, events),
                    turn,
                ),
    {
        if turn.visible || turn.continue_when_hidden {
            if self.read_backoff.contains(turn.source_id) {
                self.read_backoff.remove(turn.source_id);
                PumpStep::Hold { report: false }
            } else {
                PumpStep::Read
            }
        } else {
            PumpStep::Hold { report: false }
        }
    }

    fn gate(&mut self, turn: PumpTurn) -> (r: PumpStep)
        requires
            old(self).wf(),
        ensures
            final(self).wf(),
            forall|bus: MediaControlBus, failures: FailureLog, events: Seq<EngineEvent>|
                #![trigger final(self).model(bus, failures, events)]
                (final(self).model(bus, failures, events), r) == gate_step(
                    old(self).model(bus, failures, events),
                    turn,
                ),
    {
        if self.ended.contains(turn.source_id) {
            if turn.control.playing {
                PumpStep::SeekForReplay
            } else {
                PumpStep::Hold { report: true }
            }
        } else if !turn.control.playing {
            PumpStep::Hold { report: true }
        } else {
            self.play(turn)
        }
    }

    fn requested(&mut self, turn: PumpTurn, bus: &mut MediaControlBus) -> (r: PumpStep)
        requires
            old(self).wf(),
            old(bus).wf(),
        ensures
            final(self).wf(),
            final(bus).wf(),
            forall|failures: FailureLog, events: Seq<EngineEvent>|
                #![trigger final(self).model(*final(bus), failures, events)]
                (final(self).model(*final(bus), failures, events), r) == seek_step(
                    old(self).model(*old(bus), failures, events),
                    turn,
                ),
    {
        match bus.take_recorded_seek(turn.source_id) {
            Some(position) => PumpStep::SeekTo(position),
            None => self.gate(turn),
        }
    }

    /// Begins the turn of a source whose file is open.
    pub fn begin(&mut self, source: &MediaSource, visible: bool, bus: &mut MediaControlBus) -> (r: (
        PumpTurn,
        PumpStep,
    ))
        requires
            old(self).wf(),
            old(bus).wf(),
        ensures
            final(self).wf(),
            final(bus).wf(),
            forall|failures: FailureLog, events: Seq<EngineEvent>|
                #![trigger final(self).model(*final(bus), failures, events)]
                {
                    let before = old(self).model(*old(bus), failures, events);
                    &&& r.0 == turn_of(before, *source, visible)
                    &&& (final(self).model(*final(bus), failures, events), r.1) == first_step(
                        before,
                        *source,
                        visible,
                    )
                },
    {
        let turn = PumpTurn {
            source_id: source.id,
            looped: source.looped,
            continue_when_hidden: source.continue_when_hidden,
            visible,
            control: bus.read(source.id),
        };
        let step = if source.restart_on_show && visible && !self.previous_visible.contains(
            source.id,
        ) {
            PumpStep::SeekForRestart
        } else {
            self.requested(turn, bus)
        };
        (turn, step)
    }

    /// Takes the result of a restart.
    pub fn after_restart(
        &mut self,
        turn: PumpTurn,
        moved: bool,
        bus: &mut MediaControlBus,
        failures: &mut FailureLog,
    ) -> (r: PumpStep)
        requires
            old(self).wf(),
            old(bus).wf(),
            old(failures).wf(),
        ensures
            final(self).wf(),
            final(bus).wf(),
            final(failures).wf(),
            forall|events: Seq<EngineEvent>|
                #![trigger final(self).model(*final(bus), *final(failures), events)]
                (final(self).model(*final(bus), *final(failures), events), r) == seek_step(
                    restarted(
                        old(self).model(*old(bus), *old(failures), events),
                        turn.source_id,
                        moved,
                    ),
                    turn,
                ),
    {
        if moved {
            self.ended.remove(turn.source_id);
        }
        failures.forget(turn.source_id, FailureKind::MediaRead);
        self.read_backoff.remove(turn.source_id);
        self.requested(turn, bus)
    }

    fn forget_trouble(&mut self, id: u128, failures: &mut FailureLog)
        requires
            old(self).wf(),
            old(failures).wf(),
        ensures
            final(self).wf(),
            final(failures).wf(),
            forall|bus: MediaControlBus, events: Seq<EngineEvent>|
                #![trigger final(self).model(bus, *final(failures), events)]
                final(self).model(bus, *final(failures), events) == moved(
                    old(self).model(bus, *old(failures), events),
                    id,
                ),
    {
        failures.forget(id, FailureKind::MediaRead);
        self.read_backoff.remove(id);
        self.last_state.remove(id);
        self.ended.remove(id);
    }

    /// Takes the result of a seek that the user asked for.
    pub fn after_seek(
        &mut self,
        turn: PumpTurn,
        result: Result<(), String>,
        failures: &mut FailureLog,
        events: &mut Vec<EngineEvent>,
    ) -> (r: PumpStep)
        requires
            old(self).wf(),
            old(failures).wf(),
        ensures
            final(self).wf(),
            final(failures).wf(),
            forall|bus: MediaControlBus|
                #![trigger final(self).model(bus, *final(failures), final(events)@)]
                {
                    let before = old(self).model(bus, *old(failures), old(events)@);
                    (final(self).model(bus, *final(failures), final(events)@), r) == gate_step(
                        match result {
                            Ok(()) => moved(before, turn.source_id),
                            Err(reason) => complained(before, turn.source_id, reason@),
                        },
                        turn,
                    )
                },
    {
        let id: u128 = turn.source_id;
        match result {
            Ok(()) => {
                self.forget_trouble(id, failures);
            },
            Err(reason) => {
                send(events, EngineEvent::UnsupportedMedia { source_id: id, reason });
            },
        }
        self.gate(turn)
    }

    /// Takes the result of going back to the start of an ended file.
    pub fn after_replay(
        &mut self,
        turn: PumpTurn,
        result: Result<(), String>,
        bus: &mut MediaControlBus,
        failures: &mut FailureLog,
        events: &mut Vec<EngineEvent>,
    ) -> (r: PumpStep)
        requires
            old(self).wf(),
            old(bus).wf(),
            old(failures).wf(),
        ensures
            final(self).wf(),
            final(bus).wf(),
            final(failures).wf(),
            ({
                let id = turn.source_id;
                let before = old(self).model(*old(bus), *old(failures), old(events)@);
                (final(self).model(*final(bus), *final(failures), final(events)@), r) == (
                match result {
                    Ok(()) => play_step(moved(before, id), turn),
                    Err(reason) => (
                        complained(stopped(before, id, turn.control.epoch), id, reason@),
                        PumpStep::Hold { report: true },
                    ),
                })
            }),
    {
        let id: u128 = turn.source_id;
        match result {
            Ok(()) => {
                self.forget_trouble(id, failures);
                self.play(turn)
            },
            Err(reason) => {
                bus.write_back_paused(id, turn.control.epoch);
                send(events, EngineEvent::UnsupportedMedia { source_id: id, reason });
                PumpStep::Hold { report: true }
            },
        }
    }

    /// The clock was stopped. A file that is paused or has ended reports its
    /// position.
    pub fn after_hold(
        &mut self,
        turn: PumpTurn,
        report: bool,
        position: Position,
        events: &mut Vec<EngineEvent>,
    )
        requires
            old(self).wf(),
        ensures
            final(self).wf(),
            forall|bus: MediaControlBus, failures: FailureLog|
                #![trigger final(self).model(bus, failures, final(events)@)]
                {
                    let before = old(self).model(bus, failures, old(events)@);
                    final(self).model(bus, failures, final(events)@) == (if report {
                        reported(before, turn.source_id, false, position)
                    } else {
                        before
                    })
                },
    {
        if report {
            self.send_media_state(turn.source_id, false, position, events);
        }
    }

    fn latch(
        &mut self,
        turn: PumpTurn,
        position: Position,
        bus: &mut MediaControlBus,
        events: &mut Vec<EngineEvent>,
    )
        requires
            old(self).wf(),
            old(bus).wf(),
        ensures
            final(self).wf(),
            final(bus).wf(),
            forall|failures: FailureLog|
                #![trigger final(self).model(*final(bus), failures, final(events)@)]
                final(self).model(*final(bus), failures, final(events)@) == latched(
                    old(self).model(*old(bus), failures, old(events)@),
                    turn,
                    position,
                ),
    {
        bus.write_back_paused(turn.source_id, turn.control.epoch);
        self.ended.insert(turn.source_id);
        self.send_media_state(turn.source_id, false, position, events);
    }

    /// Takes the result of a round of reading.
    pub fn after_read(
        &mut self,
        turn: PumpTurn,
        result: Result<ReadOutcome, String>,
        position: Position,
        bus: &mut MediaControlBus,
        failures: &mut FailureLog,
        events: &mut Vec<EngineEvent>,
    ) -> (r: PumpStep)
        requires
            old(self).wf(),
            old(bus).wf(),
            old(failures).wf(),
        ensures
            final(self).wf(),
            final(bus).wf(),
            final(failures).wf(),
            (final(self).model(*final(bus), *final(failures), final(events)@), r) == read_step(
                old(self).model(*old(bus), *old(failures), old(events)@),
                turn,
                result_view(result),
                position,
            ),
    {
        let id: u128 = turn.source_id;
        match result {
            Ok(ReadOutcome::Eof) => {
                if turn.looped {
                    return PumpStep::SeekForLoop;
                }
                self.latch(turn, position, bus, events);
                failures.forget(id, FailureKind::MediaRead);
            },
            Ok(ReadOutcome::Advanced) => {
                self.send_media_state(id, true, position, events);
                failures.forget(id, FailureKind::MediaRead);
            },
            Ok(ReadOutcome::Paced) => {},
            Err(reason) => {
                self.read_backoff.insert(id);
                if failures.should_report_failure(id, FailureKind::MediaRead, reason.as_str()) {
                    send(events, EngineEvent::UnsupportedMedia { source_id: id, reason });
                }
            },
        }
        PumpStep::Done
    }

    /// Takes the result of going back to the start of a looped file. Where that
    /// fails the file has ended until the user plays it again.
    pub fn after_loop_seek(
        &mut self,
        turn: PumpTurn,
        moved: bool,
        position: Position,
        bus: &mut MediaControlBus,
        events: &mut Vec<EngineEvent>,
    ) -> (r: PumpStep)
        requires
            old(self).wf(),
            old(bus).wf(),
        ensures
            final(self).wf(),
            final(bus).wf(),
            forall|failures: FailureLog|
                #![trigger final(self).model(*final(bus), failures, final(events)@)]
                {
                    let before = old(self).model(*old(bus), failures, old(events)@);
                    (final(self).model(*final(bus), failures, final(events)@), r) == (if moved {
                        (before, PumpStep::Done)
                    } else {
                        (latched(before, turn, position), PumpStep::Mute)
                    })
                },
    {
        if moved {
            return PumpStep::Done;
        }
        self.latch(turn, position, bus, events);
        PumpStep::Mute
    }

    /// Ends a round.
    pub fn finish(&mut self, visible: IdSet)
        requires
            old(self).wf(),
            visible.wf(),
        ensures
            final(self).wf(),
            *final(self) == (MediaPump { previous_visible: visible, ..*old(self) }),
    {
        self.previous_visible = visible;
    }

    /// The device was lost: what was said of the files is forgotten, but not that
    /// they ended.
    pub fn forget_device(&mut self)
        requires
            old(self).wf(),
        ensures
            final(self).wf(),
            final(self).ended == old(self).ended,
            final(self).last_state@ == Map::<u128, LastState>::empty(),
            final(self).read_backoff@ == Set::<u128>::empty(),
            final(self).previous_visible@ == Set::<u128>::empty(),
    {
        self.last_state.clear();
        self.read_backoff.clear();
        self.previous_visible.clear();
    }
}

/// A file is read exactly where its control says playing, it has not ended, its source
/// is shown or continues when hidden, and no failed read rests. A paused file is held
/// and told as such; an ended one that is to play goes back to its start first; anything
/// else is held in silence.
pub proof fn law_file_is_read_where_it_plays(m: PumpModel, turn: PumpTurn)
    ensures
        ({
            let ended = m.ended.contains(turn.source_id);
            let rests = m.read_backoff.contains(turn.source_id);
            let step = gate_step(m, turn).1;
            &&& step == PumpStep::Read <==> turn.control.playing && !ended && (turn.visible
                || turn.continue_when_hidden) && !rests
            &&& step == (PumpStep::Hold { report: true }) <==> !turn.control.playing
            &&& step == PumpStep::SeekForReplay <==> turn.control.playing && ended
            &&& step == (PumpStep::Hold { report: false }) <==> turn.control.playing && !ended && (
            !(turn.visible || turn.continue_when_hidden) || rests)
        }),
        gate_step(m, turn).0.ended == m.ended,
        gate_step(m, turn).0.controls == m.controls,
        gate_step(m, turn).0.events == m.events,
        gate_step(m, turn).0.last_state == m.last_state,
        gate_step(m, turn).0.failures == m.failures,
        forall|other: u128|
            other != turn.source_id ==> (#[trigger] gate_step(m, turn).0.read_backoff.contains(other)
                <==> m.read_backoff.contains(other)),
{
}

/// A round begins with the restart of a file whose source comes into view and restarts
/// then; else with the position that the user asked for, which is thereby used up; else
/// with what the control says.
pub proof fn law_restart_before_seek_before_play(m: PumpModel, source: MediaSource, visible: bool)
    ensures
        ({
            let comes_into_view = source.restart_on_show && visible && !m.previous_visible.contains(
                source.id,
            );
            let control = video::control_of(m.controls, source.id);
            let (after, step) = first_step(m, source, visible);
            &&& step == PumpStep::SeekForRestart <==> comes_into_view
            &&& comes_into_view ==> after == m
            &&& step is SeekTo <==> !comes_into_view && control.seek_seconds is Some
            &&& step matches PumpStep::SeekTo(position) ==> control.seek_seconds == Some(position)
            &&& !comes_into_view ==> video::control_of(after.controls, source.id).seek_seconds
                is None && video::control_of(after.controls, source.id).playing == control.playing
            &&& !comes_into_view && control.seek_seconds is None && !control.playing ==> step == (
            PumpStep::Hold { report: true })
            &&& !comes_into_view && control.seek_seconds is None && step == PumpStep::Read
                ==> control.playing && (visible || source.continue_when_hidden)
        }),
{
}

/// A state is told where it is the first, where it changed between playing and paused,
/// or where the position took a step; what is told is remembered.
pub proof fn law_state_is_told_where_it_changed(
    m: PumpModel,
    id: u128,
    playing: bool,
    position: Position,
)
    ensures
        !m.last_state.dom().contains(id) || m.last_state[id].playing != playing || position.stepped
            ==> {
            let told = reported(m, id, playing, position);
            &&& told.events.len() == m.events.len() + 1
            &&& told.events.drop_last() == m.events
            &&& told.events.last() matches engine_event::EventView::MediaState { source_id, state }
                && source_id == id && state.playing == playing && state.position_bits
                == position.bits
            &&& told.last_state.dom().contains(id) && told.last_state[id].playing == playing
        },
        m.last_state.dom().contains(id) && m.last_state[id].playing == playing && !position.stepped
            ==> reported(m, id, playing, position) == m,
{
    assert(reported(m, id, playing, position).events.drop_last() =~= m.events || reported(
        m,
        id,
        playing,
        position,
    ) == m);
}

/// What a read did decides what follows: at the end a looped file goes back to its
/// start; any other stops, is told as paused and is remembered as ended. Progress is
/// told as playing and ends the complaint about failed reads. A failed read rests for a
/// round, and is told unless it is the complaint that stands.
pub proof fn law_read_outcome_decides_what_follows(
    m: PumpModel,
    turn: PumpTurn,
    result: Result<ReadOutcome, Seq<char>>,
    position: Position,
)
    ensures
        ({
            let id = turn.source_id;
            let (after, step) = read_step(m, turn, result, position);
            &&& step == PumpStep::SeekForLoop <==> result == Ok::<ReadOutcome, Seq<char>>(
                ReadOutcome::Eof,
            ) && turn.looped
            &&& step != PumpStep::SeekForLoop ==> step == PumpStep::Done
            &&& result == Ok::<ReadOutcome, Seq<char>>(ReadOutcome::Eof) && !turn.looped ==> {
                &&& after.ended == m.ended.insert(id)
                &&& video::control_of(m.controls, id).epoch == turn.control.epoch
                    ==> !video::control_of(after.controls, id).playing
                &&& after.last_state.dom().contains(id) && !after.last_state[id].playing
            }
            &&& result == Ok::<ReadOutcome, Seq<char>>(ReadOutcome::Advanced) ==> {
                &&& after.last_state.dom().contains(id) && after.last_state[id].playing
                &&& after.ended == m.ended
                &&& after.controls == m.controls
                &&& !after.failures.dom().contains(read_failure(id))
            }
            &&& result == Ok::<ReadOutcome, Seq<char>>(ReadOutcome::Paced) ==> after == m
            &&& result is Err ==> {
                &&& after.read_backoff == m.read_backoff.insert(id)
                &&& after.ended == m.ended
                &&& after.controls == m.controls
                &&& after.last_state == m.last_state
            }
        }),
{
}

/// A file that was moved is no longer ended, and neither a failed read nor the last told
/// position counts any more. A restart that failed to move it leaves it ended.
pub proof fn law_moved_file_starts_afresh(m: PumpModel, id: u128, other: u128)
    ensures
        !moved(m, id).ended.contains(id),
        !moved(m, id).last_state.dom().contains(id),
        !moved(m, id).read_backoff.contains(id),
        !restarted(m, id, true).ended.contains(id),
        restarted(m, id, false).ended == m.ended,
        !restarted(m, id, true).read_backoff.contains(id),
        restarted(m, id, true).last_state == m.last_state,
        moved(m, id).controls == m.controls && moved(m, id).events == m.events,
        other != id ==> {
            &&& moved(m, id).ended.contains(other) == m.ended.contains(other)
            &&& moved(m, id).read_backoff.contains(other) == m.read_backoff.contains(other)
            &&& restarted(m, id, true).ended.contains(other) == m.ended.contains(other)
        },
{
}

/// An ended file is not read: it holds until the user plays it, and is read only
/// once going back to its start has worked.
pub proof fn law_ended_file_waits(m: PumpModel, turn: PumpTurn)
    requires
        m.ended.contains(turn.source_id),
    ensures
        gate_step(m, turn).1 == (if turn.control.playing {
            PumpStep::SeekForReplay
        } else {
            PumpStep::Hold { report: true }
        }),
        gate_step(m, turn).0 == m,
        !moved(m, turn.source_id).ended.contains(turn.source_id),
{
}

/// A file that came to its end by itself stays paused, also in a round after the
/// device was rebuilt, unless the user asked to play it since.
pub proof fn law_end_is_remembered(m: PumpModel, turn: PumpTurn, position: Position)
    requires
        video::control_of(m.controls, turn.source_id).epoch == turn.control.epoch,
    ensures
        latched(m, turn, position).ended.contains(turn.source_id),
        !video::control_of(latched(m, turn, position).controls, turn.source_id).playing,
{
}

/// A newer wish of the user survives the end of the file.
pub proof fn law_newer_wish_survives_the_end(m: PumpModel, turn: PumpTurn, position: Position)
    requires
        video::control_of(m.controls, turn.source_id).epoch != turn.control.epoch,
    ensures
        video::control_of(latched(m, turn, position).controls, turn.source_id)
            == video::control_of(m.controls, turn.source_id),
{
}

/// A failed read costs one round: the next one holds, the one after reads again.
pub proof fn law_failed_read_rests_once(
    m: PumpModel,
    turn: PumpTurn,
    reason: Seq<char>,
    position: Position,
)
    requires
        turn.visible || turn.continue_when_hidden,
        turn.control.playing,
        !m.ended.contains(turn.source_id),
    ensures
        ({
            let failed = read_step(m, turn, Err(reason), position).0;
            let rested = gate_step(failed, turn);
            &&& rested.1 == PumpStep::Hold { report: false }
            &&& gate_step(rested.0, turn).1 == PumpStep::Read
        }),
{
}

/// A state that was reported is not reported again while nothing changes, and a
/// moved file always reports its new position.
pub proof fn law_same_state_is_silent(m: PumpModel, id: u128, playing: bool, position: Position)
    ensures
        ({
            let once = reported(m, id, playing, position);
            let still = Position { bits: position.bits, stepped: false };
            reported(once, id, playing, still) == once
        }),
        reported(moved(m, id), id, playing, position).events.len() == m.events.len() + 1,
{
}

/// What is left once the device was lost: that files have ended, and the controls.
pub open spec fn without_device(m: PumpModel) -> PumpModel {
    PumpModel {
        last_state: Map::empty(),
        read_backoff: Set::empty(),
        previous_visible: Set::empty(),
        failures: Map::empty(),
        ..m
    }
}

/// A file that came to its end does not start again by itself when the device is
/// rebuilt and the file opened anew: it holds and reports that it is paused.
pub proof fn law_rebuilt_device_starts_no_ended_file(
    m: PumpModel,
    turn: PumpTurn,
    position: Position,
    source: MediaSource,
    visible: bool,
)
    requires
        source.id == turn.source_id,
        video::control_of(m.controls, source.id).epoch == turn.control.epoch,
        video::control_of(m.controls, source.id).seek_seconds is None,
        !source.restart_on_show,
    ensures
        first_step(without_device(latched(m, turn, position)), source, visible).1 == (
        PumpStep::Hold { report: true }),
{
}

} // verus!
