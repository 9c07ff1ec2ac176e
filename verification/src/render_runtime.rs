//! The render thread of the Vulkan renderer: its handle, the order of its work and
//! how it ends.
//!
//! [`RenderRounds`] names the next step of the thread. The thread performs it and
//! hands the outcome back; the tables of captures and media sources, which the steps
//! work on, are modules of their own.

use vstd::prelude::*;
use vstd::string::*;

use crate::engine_event;
use crate::engine_event::EngineEvent;
use crate::id_map::IdMap;
use crate::linux::{CapturedFrame, SendBufferToken};
use crate::portal_captures::CaptureTables;
use crate::recovery;
use crate::render_loop;
use crate::render_loop::{Extent, NativeSurfaces, NextStep, RenderFailure, RenderLoop};
use crate::text::joined;

verus! {

// ---------------------------------------------------------------------------
// The handle
// ---------------------------------------------------------------------------

/// What a fresh render thread told within its time.
pub enum Ready {
    /// Everything is started.
    Started,
    /// A part could not be started.
    Refused(String),
    /// Nothing came; the text says why the wait ended.
    Silent(String),
}

/// A running render thread. `H` joins it.
pub struct RenderRuntime<H> {
    pub stop: bool,
    pub thread: Option<H>,
}

/// A render thread that did not start: the caller joins it, with `stop` set.
pub struct FailedStart<H> {
    pub thread: H,
    pub message: String,
}

impl<H> RenderRuntime<H> {
    /// Takes what the fresh thread told.
    pub fn start(ready: Ready, thread: H) -> (r: Result<Self, FailedStart<H>>)
        ensures
            match ready {
                Ready::Started => r == Ok::<Self, FailedStart<H>>(
                    RenderRuntime { stop: false, thread: Some(thread) },
                ),
                Ready::Refused(error) => {
                    &&& r matches Err(failed)
                    &&& failed.thread == thread
                    &&& failed.message@ == error@
                },
                Ready::Silent(error) => {
                    &&& r matches Err(failed)
                    &&& failed.thread == thread
                    &&& failed.message@ == "Zeitüberschreitung beim Vulkan-Renderer-Start: "@
                        + error@
                },
            },
    {
        match ready {
            Ready::Started => Ok(RenderRuntime { stop: false, thread: Some(thread) }),
            Ready::Refused(error) => Err(FailedStart { thread, message: error }),
            Ready::Silent(error) => {
                let message = joined(
                    "Zeitüberschreitung beim Vulkan-Renderer-Start: ",
                    error.as_str(),
                );
                Err(FailedStart { thread, message })
            },
        }
    }

    /// Asks the thread to stop; gives it to be joined, the first time.
    pub fn shutdown(&mut self) -> (r: Option<H>)
        ensures
            r == old(self).thread,
            final(self).stop,
            final(self).thread is None,
    {
        self.stop = true;
        self.thread.take()
    }
}

// ---------------------------------------------------------------------------
// The order of the work
// ---------------------------------------------------------------------------

/// A step of the render thread.
#[derive(Clone, Copy, Debug, PartialEq, Eq, Structural)]
pub enum RoundStep {
    /// Look whether the thread is to stop, and take a snapshot of the project.
    Begin,
    /// Build the missing device.
    BuildDevice,
    /// Wait for the backoff, then begin.
    WaitThenBegin,
    /// Bring the players in line with the project.
    ReconcileMedia,
    /// Compare the sizes of the surfaces with those of the device.
    CompareSizes,
    /// Rebuild what depends on the sizes.
    Resize,
    /// Compare the portal selection with the one that is captured.
    CompareSelection,
    /// Replace the capture thread.
    RestartCapture,
    /// Wait for the backoff, then replace the capture thread.
    WaitThenRestartCapture,
    /// Bring the captures in line with the project.
    ReconcileCaptures,
    /// Take in what the capture thread sent.
    TakeMessages,
    /// Give up captures that never delivered.
    ExpireCaptures,
    /// Render a frame.
    Render,
    /// Rebuild both swapchains.
    RecreateSwapchains,
    /// Rebuild the device.
    RecreateDevice,
    /// Wait for the backoff, then pace.
    WaitThenPace,
    /// Sleep until the next frame is due.
    Pace,
    /// Leave the loop.
    End,
}

/// The render thread between two steps.
pub struct RenderRounds {
    pub rounds: RenderLoop,
    pub step: RoundStep,
}

/// The step after one that cannot fail.
pub open spec fn after_done(step: RoundStep) -> RoundStep {
    match step {
        RoundStep::WaitThenBegin => RoundStep::Begin,
        RoundStep::ReconcileMedia => RoundStep::CompareSizes,
        RoundStep::WaitThenRestartCapture => RoundStep::RestartCapture,
        RoundStep::ReconcileCaptures => RoundStep::TakeMessages,
        RoundStep::TakeMessages => RoundStep::ExpireCaptures,
        RoundStep::ExpireCaptures => RoundStep::Render,
        RoundStep::WaitThenPace => RoundStep::Pace,
        other => other,
    }
}

/// Whether a step cannot fail, so that it is just done.
pub open spec fn is_plain(step: RoundStep) -> bool {
    after_done(step) != step
}

/// The step that a decision of the loop asks for.
pub open spec fn step_of(next: NextStep) -> RoundStep {
    match next {
        NextStep::Pace => RoundStep::Pace,
        NextStep::NextRound => RoundStep::Begin,
        NextStep::RecreateSwapchains => RoundStep::RecreateSwapchains,
        NextStep::RecreateDevice => RoundStep::RecreateDevice,
        NextStep::BackoffThenPace => RoundStep::WaitThenPace,
        NextStep::BackoffThenNextRound => RoundStep::WaitThenBegin,
        NextStep::Stop => RoundStep::End,
    }
}

fn asked_for(next: NextStep) -> (r: RoundStep)
    ensures
        r == step_of(next),
{
    match next {
        NextStep::Pace => RoundStep::Pace,
        NextStep::NextRound => RoundStep::Begin,
        NextStep::RecreateSwapchains => RoundStep::RecreateSwapchains,
        NextStep::RecreateDevice => RoundStep::RecreateDevice,
        NextStep::BackoffThenPace => RoundStep::WaitThenPace,
        NextStep::BackoffThenNextRound => RoundStep::WaitThenBegin,
        NextStep::Stop => RoundStep::End,
    }
}

/// Whether a step works with the device.
pub open spec fn uses_device(step: RoundStep) -> bool {
    match step {
        RoundStep::ReconcileMedia
        | RoundStep::CompareSizes
        | RoundStep::Resize
        | RoundStep::CompareSelection
        | RoundStep::RestartCapture
        | RoundStep::WaitThenRestartCapture
        | RoundStep::ReconcileCaptures
        | RoundStep::TakeMessages
        | RoundStep::ExpireCaptures
        | RoundStep::Render
        | RoundStep::RecreateSwapchains => true,
        _ => false,
    }
}

impl RenderRounds {
    /// A device exists where a step works with it and is missing where one builds
    /// it; a loop that goes on has attempts left.
    pub open spec fn wf(self) -> bool {
        &&& uses_device(self.step) ==> self.rounds.has_device()
        &&& self.step == RoundStep::BuildDevice || self.step == RoundStep::RecreateDevice
            ==> !self.rounds.has_device()
        &&& self.step != RoundStep::End ==> self.rounds.running()
    }

    /// A thread whose services have just been started.
    pub fn new(output: Extent, now: u64) -> (r: Self)
        ensures
            r.wf(),
            r.step == RoundStep::Begin,
            r.rounds.has_device(),
            r.rounds.failures() == 0,
            r.rounds.output_size() == output,
            r.rounds.deadline() == now,
    {
        RenderRounds { rounds: RenderLoop::new(output, now), step: RoundStep::Begin }
    }

    /// Begins a round, unless the thread is to stop.
    pub fn begin(&mut self, stop: bool)
        requires
            old(self).wf(),
            old(self).step == RoundStep::Begin,
        ensures
            final(self).wf(),
            final(self).rounds == old(self).rounds,
            final(self).step == (if stop {
                RoundStep::End
            } else if old(self).rounds.has_device() {
                RoundStep::ReconcileMedia
            } else {
                RoundStep::BuildDevice
            }),
    {
        self.step = if stop {
            RoundStep::End
        } else if self.rounds.needs_device() {
            RoundStep::BuildDevice
        } else {
            RoundStep::ReconcileMedia
        };
    }

    /// A step that cannot fail was done.
    pub fn done(&mut self)
        requires
            old(self).wf(),
            is_plain(old(self).step),
        ensures
            final(self).wf(),
            final(self).rounds == old(self).rounds,
            final(self).step == after_done(old(self).step),
    {
        self.step = match self.step {
            RoundStep::WaitThenBegin => RoundStep::Begin,
            RoundStep::ReconcileMedia => RoundStep::CompareSizes,
            RoundStep::WaitThenRestartCapture => RoundStep::RestartCapture,
            RoundStep::ReconcileCaptures => RoundStep::TakeMessages,
            RoundStep::TakeMessages => RoundStep::ExpireCaptures,
            RoundStep::ExpireCaptures => RoundStep::Render,
            RoundStep::WaitThenPace => RoundStep::Pace,
            other => other,
        };
    }

    /// Milliseconds of the backoff.
    pub fn backoff(&self) -> (r: u64)
        ensures
            r == recovery::backoff_ms(self.rounds.failures() as u32),
    {
        self.rounds.backoff()
    }

    /// The missing device was built, or not.
    pub fn on_device_built(
        &mut self,
        result: Result<(), String>,
        output: Extent,
        events: &mut Vec<EngineEvent>,
    )
        requires
            old(self).wf(),
            old(self).step == RoundStep::BuildDevice,
        ensures
            final(self).wf(),
            final(self).rounds.has_device() == (result is Ok),
            final(self).step == (if result is Ok {
                RoundStep::Begin
            } else if final(self).rounds.running() {
                RoundStep::WaitThenBegin
            } else {
                RoundStep::End
            }),
            final(self).rounds.failures() == (if result is Ok {
                0
            } else {
                old(self).rounds.failures() + 1
            }),
            final(self).rounds.deadline() == old(self).rounds.deadline(),
            final(self).rounds.output_size() == (if result is Ok {
                output
            } else {
                old(self).rounds.output_size()
            }),
            engine_event::events_view(final(events)@) == engine_event::events_view(old(events)@)
                + outcome_report(result, old(self).rounds.failures()),
    {
        let ghost before = engine_event::events_view(events@);
        let next = self.rounds.on_device_built(result, output, events);
        self.step = asked_for(next);
        assert(engine_event::events_view(events@) =~= before + outcome_report(
            result,
            old(self).rounds.failures(),
        ));
    }

    /// Compares the sizes; announces a change.
    pub fn compare_sizes(
        &mut self,
        output: Extent,
        program: Extent,
        preview: Extent,
        surfaces: NativeSurfaces,
        events: &mut Vec<EngineEvent>,
    )
        requires
            old(self).wf(),
            old(self).step == RoundStep::CompareSizes,
        ensures
            final(self).wf(),
            final(self).rounds == old(self).rounds,
            ({
                let changed = sizes_changed(old(self).rounds, output, program, preview, surfaces);
                &&& final(self).step == (if changed {
                    RoundStep::Resize
                } else {
                    RoundStep::CompareSelection
                })
                &&& engine_event::events_view(final(events)@) == (if changed {
                    engine_event::events_view(old(events)@).push(render_loop::started_report(None))
                } else {
                    engine_event::events_view(old(events)@)
                })
            }),
    {
        self.step = if self.rounds.begin_resize(output, program, preview, surfaces, events) {
            RoundStep::Resize
        } else {
            RoundStep::CompareSelection
        };
    }

    /// What depends on the sizes was rebuilt, or not. A failure drops the device.
    pub fn on_resized(
        &mut self,
        result: Result<(), String>,
        output: Extent,
        events: &mut Vec<EngineEvent>,
    )
        requires
            old(self).wf(),
            old(self).step == RoundStep::Resize,
        ensures
            final(self).wf(),
            final(self).rounds.has_device() == (result is Ok),
            final(self).step == (if result is Ok {
                RoundStep::CompareSelection
            } else if final(self).rounds.running() {
                RoundStep::WaitThenBegin
            } else {
                RoundStep::End
            }),
            final(self).rounds.failures() == (if result is Ok {
                0
            } else {
                old(self).rounds.failures() + 1
            }),
            final(self).rounds.deadline() == old(self).rounds.deadline(),
            final(self).rounds.output_size() == (if result is Ok {
                output
            } else {
                old(self).rounds.output_size()
            }),
            engine_event::events_view(final(events)@) == engine_event::events_view(old(events)@)
                + outcome_report(result, old(self).rounds.failures()),
    {
        let ghost before = engine_event::events_view(events@);
        self.step = match self.rounds.on_resized(result, output, events) {
            Some(next) => asked_for(next),
            None => RoundStep::CompareSelection,
        };
        assert(engine_event::events_view(events@) =~= before + outcome_report(
            result,
            old(self).rounds.failures(),
        ));
    }

    /// The portal selection is another one, or still the same.
    pub fn compare_selection(&mut self, changed: bool)
        requires
            old(self).wf(),
            old(self).step == RoundStep::CompareSelection,
        ensures
            final(self).wf(),
            final(self).rounds == old(self).rounds,
            final(self).step == (if changed {
                RoundStep::RestartCapture
            } else {
                RoundStep::ReconcileCaptures
            }),
    {
        self.step = if changed {
            RoundStep::RestartCapture
        } else {
            RoundStep::ReconcileCaptures
        };
    }

    /// The capture thread was replaced, or not. Failures count against the same
    /// budget as those of the device; a success does not refill it.
    pub fn on_capture_restarted(
        &mut self,
        result: Result<(), String>,
        events: &mut Vec<EngineEvent>,
    )
        requires
            old(self).wf(),
            old(self).step == RoundStep::RestartCapture,
        ensures
            final(self).wf(),
            final(self).rounds.has_device(),
            final(self).rounds.deadline() == old(self).rounds.deadline(),
            final(self).rounds.output_size() == old(self).rounds.output_size(),
            match result {
                Ok(()) => {
                    &&& final(self).step == RoundStep::ReconcileCaptures
                    &&& final(self).rounds.failures() == old(self).rounds.failures()
                    &&& final(events)@ == old(events)@
                },
                Err(error) => {
                    &&& final(self).step == (if final(self).rounds.running() {
                        RoundStep::WaitThenRestartCapture
                    } else {
                        RoundStep::End
                    })
                    &&& final(self).rounds.failures() == old(self).rounds.failures() + 1
                    &&& engine_event::events_view(final(events)@) == engine_event::events_view(
                        old(events)@,
                    ) + recovery::failure_report(old(self).rounds.failures(), error@)
                },
            },
    {
        self.step = match result {
            Ok(()) => RoundStep::ReconcileCaptures,
            Err(error) => {
                if self.rounds.on_capture_failed(error.as_str(), events) {
                    RoundStep::WaitThenRestartCapture
                } else {
                    RoundStep::End
                }
            },
        };
    }

    /// A frame was rendered, or not.
    pub fn on_rendered(
        &mut self,
        result: Result<(), RenderFailure>,
        events: &mut Vec<EngineEvent>,
    )
        requires
            old(self).wf(),
            old(self).step == RoundStep::Render,
        ensures
            final(self).wf(),
            final(self).rounds.failures() == old(self).rounds.failures(),
            final(self).rounds.deadline() == old(self).rounds.deadline(),
            final(self).rounds.output_size() == old(self).rounds.output_size(),
            final(self).rounds.has_device() == (final(self).step != RoundStep::RecreateDevice),
            final(self).step == step_after_frame(result),
            engine_event::events_view(final(events)@) == engine_event::events_view(old(events)@)
                + frame_report(result),
    {
        let ghost before = engine_event::events_view(events@);
        let next = self.rounds.on_rendered(result, events);
        self.step = asked_for(next);
        assert(engine_event::events_view(events@) =~= before + frame_report(result));
    }

    /// Both swapchains were rebuilt, or not. A failure drops the device.
    pub fn on_swapchains_recreated(&mut self, ok: bool, events: &mut Vec<EngineEvent>)
        requires
            old(self).wf(),
            old(self).step == RoundStep::RecreateSwapchains,
        ensures
            final(self).wf(),
            final(self).rounds.has_device() == ok,
            final(self).rounds.deadline() == old(self).rounds.deadline(),
            final(self).rounds.output_size() == old(self).rounds.output_size(),
            final(self).step == (if ok {
                RoundStep::Pace
            } else {
                RoundStep::RecreateDevice
            }),
            final(self).rounds.failures() == (if ok {
                0
            } else {
                old(self).rounds.failures()
            }),
            engine_event::events_view(final(events)@) == (if ok {
                engine_event::events_view(old(events)@).push(recovery::success_report())
            } else {
                engine_event::events_view(old(events)@)
            }),
    {
        let next = self.rounds.on_swapchains_recreated(ok, events);
        self.step = asked_for(next);
    }

    /// The device was rebuilt after a failed frame, or not.
    pub fn on_device_recreated(
        &mut self,
        result: Result<(), String>,
        events: &mut Vec<EngineEvent>,
    )
        requires
            old(self).wf(),
            old(self).step == RoundStep::RecreateDevice,
        ensures
            final(self).wf(),
            final(self).rounds.has_device() == (result is Ok),
            final(self).rounds.deadline() == old(self).rounds.deadline(),
            final(self).rounds.output_size() == old(self).rounds.output_size(),
            final(self).step == (if result is Ok {
                RoundStep::Pace
            } else if final(self).rounds.running() {
                RoundStep::WaitThenPace
            } else {
                RoundStep::End
            }),
            final(self).rounds.failures() == (if result is Ok {
                0
            } else {
                old(self).rounds.failures() + 1
            }),
            engine_event::events_view(final(events)@) == engine_event::events_view(old(events)@)
                + outcome_report(result, old(self).rounds.failures()),
    {
        let ghost before = engine_event::events_view(events@);
        let next = self.rounds.on_device_recreated(result, events);
        self.step = asked_for(next);
        assert(engine_event::events_view(events@) =~= before + outcome_report(
            result,
            old(self).rounds.failures(),
        ));
    }

    /// Ends a round: how long to sleep before the next one.
    pub fn pace(&mut self, frame_ns: u64, now: u64) -> (r: u64)
        requires
            old(self).wf(),
            old(self).step == RoundStep::Pace,
            old(self).rounds.deadline() + frame_ns <= u64::MAX,
        ensures
            final(self).wf(),
            final(self).step == RoundStep::Begin,
            final(self).rounds.has_device() == old(self).rounds.has_device(),
            final(self).rounds.failures() == old(self).rounds.failures(),
            final(self).rounds.output_size() == old(self).rounds.output_size(),
            (final(self).rounds.deadline(), r) == render_loop::paced(
                old(self).rounds.deadline(),
                frame_ns,
                now,
            ),
    {
        self.step = RoundStep::Begin;
        self.rounds.pace(frame_ns, now)
    }
}

/// Whether the surfaces or the output differ from what the device was built for.
pub open spec fn sizes_changed(
    rounds: RenderLoop,
    output: Extent,
    program: Extent,
    preview: Extent,
    surfaces: NativeSurfaces,
) -> bool {
    output != rounds.output_size() || program != render_loop::program_extent(surfaces) || preview
        != render_loop::preview_extent(surfaces)
}

/// What is told about the outcome of building something after `failures` failures in
/// a row.
pub open spec fn outcome_report(result: Result<(), String>, failures: nat) -> Seq<
    engine_event::EventView,
> {
    match result {
        Ok(()) => seq![recovery::success_report()],
        Err(error) => recovery::failure_report(failures, error@),
    }
}

/// The step after a frame.
pub open spec fn step_after_frame(result: Result<(), RenderFailure>) -> RoundStep {
    match result {
        Ok(()) => RoundStep::Pace,
        Err(RenderFailure::AcquireTimeout) => RoundStep::Pace,
        Err(RenderFailure::Device { swapchain_scoped, .. }) => if swapchain_scoped {
            RoundStep::RecreateSwapchains
        } else {
            RoundStep::RecreateDevice
        },
        Err(RenderFailure::Import { .. }) => RoundStep::Begin,
    }
}

/// What is told about a frame.
pub open spec fn frame_report(result: Result<(), RenderFailure>) -> Seq<engine_event::EventView> {
    match result {
        Ok(()) => Seq::empty(),
        Err(RenderFailure::AcquireTimeout) => Seq::empty(),
        Err(RenderFailure::Device { swapchain_scoped, name }) => seq![
            render_loop::started_report(
                Some(render_loop::recovery_detail(swapchain_scoped, name@)),
            ),
        ],
        Err(RenderFailure::Import { reason }) => seq![
            engine_event::EventView::EngineError { message: reason@ },
        ],
    }
}

// ---------------------------------------------------------------------------
// The end
// ---------------------------------------------------------------------------

/// What the thread does at its end.
#[derive(Clone, Copy, Debug, PartialEq, Eq, Structural)]
pub enum EndStep {
    /// Drop the texture of a source.
    RemoveTexture(u128),
    /// Stop every player.
    ShutdownMedia,
    /// Give a buffer back to its capture.
    Return { source_id: u128, token: SendBufferToken },
    /// Stop the capture thread.
    ShutdownCapture,
}

/// Dropping the textures of sources.
pub open spec fn removals(ids: Seq<u128>) -> Seq<EndStep> {
    ids.map_values(|id: u128| EndStep::RemoveTexture(id))
}

/// Giving back the buffers of frames, in order.
pub open spec fn given_back<F>(
    frames: Map<u128, CapturedFrame<F>>,
    ids: Seq<u128>,
) -> Seq<EndStep> {
    ids.map_values(
        |id: u128|
            EndStep::Return { source_id: frames[id].source_id, token: frames[id].buffer_token },
    )
}

fn push_removals(ids: &Vec<u128>, steps: &mut Vec<EndStep>)
    ensures
        final(steps)@ == old(steps)@ + removals(ids@),
{
    let mut i: usize = 0;
    while i < ids.len()
        invariant
            i <= ids@.len(),
            steps@ =~= old(steps)@ + removals(ids@).take(i as int),
        decreases ids@.len() - i,
    {
        steps.push(EndStep::RemoveTexture(ids[i]));
        i += 1;
    }
    assert(removals(ids@).take(i as int) =~= removals(ids@));
}

/// What the thread does at its end, in order: the textures go where a device still
/// has them, every player stops, and every buffer goes back before the capture thread
/// stops.
pub fn finish<M, F>(
    has_device: bool,
    media_frames: &mut IdMap<M>,
    captures: &mut CaptureTables<F>,
) -> (r: Vec<EndStep>)
    requires
        old(media_frames).wf(),
        old(captures).wf(),
    ensures
        final(media_frames).wf(),
        final(captures).wf(),
        final(media_frames)@ == Map::<u128, M>::empty(),
        final(captures).frames@ == Map::<u128, CapturedFrame<F>>::empty(),
        final(captures).nodes == old(captures).nodes,
        final(captures).capture_started == old(captures).capture_started,
        final(captures).restart_backoff == old(captures).restart_backoff,
        final(captures).portal_lost == old(captures).portal_lost,
        final(captures).evict_notified == old(captures).evict_notified,
        final(captures).generation == old(captures).generation,
        ({
            let media = if has_device {
                removals(old(media_frames).order())
            } else {
                Seq::empty()
            };
            let portal = if has_device {
                removals(old(captures).frames.order())
            } else {
                Seq::empty()
            };
            r@ == media.push(EndStep::ShutdownMedia) + portal + given_back(
                old(captures).frames@,
                old(captures).frames.order(),
            ).push(EndStep::ShutdownCapture)
        }),
{
    let mut steps: Vec<EndStep> = Vec::new();
    if has_device {
        let ids = media_frames.keys();
        push_removals(&ids, &mut steps);
    }
    media_frames.clear();
    steps.push(EndStep::ShutdownMedia);
    let ids = captures.frames.keys();
    if has_device {
        push_removals(&ids, &mut steps);
    }
    let ghost head = steps@;
    let ghost frames = captures.frames@;
    proof {
        captures.frames.lemma_order();
    }
    let mut i: usize = 0;
    while i < ids.len()
        invariant
            i <= ids@.len(),
            captures.wf(),
            captures.frames@ == frames,
            *captures == *old(captures),
            forall|k: int| 0 <= k < ids@.len() ==> frames.dom().contains(#[trigger] ids@[k]),
            steps@ =~= head + given_back(frames, ids@).take(i as int),
        decreases ids@.len() - i,
    {
        assert(frames.dom().contains(ids@[i as int]));
        match captures.frames.get(ids[i]) {
            Some(frame) => {
                steps.push(
                    EndStep::Return { source_id: frame.source_id, token: frame.buffer_token },
                );
            },
            None => {},
        }
        i += 1;
    }
    assert(given_back(frames, ids@).take(i as int) =~= given_back(frames, ids@));
    captures.frames.clear();
    steps.push(EndStep::ShutdownCapture);
    steps
}

/// A round goes through its steps in one order: the players, the sizes, the portal
/// selection, the captures, their messages, the silent ones, and then the frame. A wait
/// leads back to what it put off.
pub proof fn law_round_goes_in_order()
    ensures
        after_done(RoundStep::ReconcileMedia) == RoundStep::CompareSizes,
        after_done(RoundStep::ReconcileCaptures) == RoundStep::TakeMessages,
        after_done(RoundStep::TakeMessages) == RoundStep::ExpireCaptures,
        after_done(RoundStep::ExpireCaptures) == RoundStep::Render,
        after_done(RoundStep::WaitThenBegin) == RoundStep::Begin,
        after_done(RoundStep::WaitThenRestartCapture) == RoundStep::RestartCapture,
        after_done(RoundStep::WaitThenPace) == RoundStep::Pace,
        !is_plain(RoundStep::Begin) && !is_plain(RoundStep::Render) && !is_plain(RoundStep::Pace)
            && !is_plain(RoundStep::End) && !is_plain(RoundStep::BuildDevice) && !is_plain(
            RoundStep::Resize,
        ) && !is_plain(RoundStep::CompareSizes) && !is_plain(RoundStep::CompareSelection)
            && !is_plain(RoundStep::RestartCapture) && !is_plain(RoundStep::RecreateSwapchains)
            && !is_plain(RoundStep::RecreateDevice),
{
}

/// A frame that was shown or skipped is followed by the wait for the next; a lost
/// swapchain is rebuilt alone, a lost device as a whole, and a frame that could not be
/// put together is told and begun anew at once.
pub proof fn law_frame_outcome_decides_what_follows(result: Result<(), RenderFailure>)
    ensures
        result is Ok ==> step_after_frame(result) == RoundStep::Pace && frame_report(result).len()
            == 0,
        match result {
            Ok(()) => true,
            Err(RenderFailure::AcquireTimeout) => step_after_frame(result) == RoundStep::Pace
                && frame_report(result).len() == 0,
            Err(RenderFailure::Device { swapchain_scoped, name }) => {
                &&& swapchain_scoped ==> step_after_frame(result) == RoundStep::RecreateSwapchains
                &&& !swapchain_scoped ==> step_after_frame(result) == RoundStep::RecreateDevice
                &&& frame_report(result).len() == 1
                &&& frame_report(result)[0] matches engine_event::EventView::DeviceRecovery {
                    phase,
                    detail,
                } && phase == engine_event::DeviceRecoveryPhase::Started && detail is Some
            },
            Err(RenderFailure::Import { reason }) => {
                &&& step_after_frame(result) == RoundStep::Begin
                &&& frame_report(result) == seq![
                    engine_event::EventView::EngineError { message: reason@ },
                ]
            },
        },
{
}

/// What depends on the sizes is rebuilt exactly where one differs: that of the output,
/// or that of either surface from the images that it has.
pub proof fn law_changed_size_is_noticed(
    rounds: RenderLoop,
    output: Extent,
    program: Extent,
    preview: Extent,
    surfaces: NativeSurfaces,
)
    requires
        surfaces.program_width > 0 && surfaces.program_height > 0,
        surfaces.preview_width > 0 && surfaces.preview_height > 0,
    ensures
        sizes_changed(rounds, output, program, preview, surfaces) <==> output.width
            != rounds.output_size().width || output.height != rounds.output_size().height
            || program.width != surfaces.program_width || program.height != surfaces.program_height
            || preview.width != surfaces.preview_width || preview.height
            != surfaces.preview_height,
{
}

/// At the end every frame's buffer goes back, and nothing is sent to the capture
/// thread after it was stopped.
pub proof fn law_every_buffer_goes_back_at_the_end<F>(
    frames: Map<u128, CapturedFrame<F>>,
    ids: Seq<u128>,
    id: u128,
)
    requires
        ids.contains(id),
    ensures
        given_back(frames, ids).contains(
            EndStep::Return { source_id: frames[id].source_id, token: frames[id].buffer_token },
        ),
        !given_back(frames, ids).contains(EndStep::ShutdownCapture),
{
    let i = ids.index_of(id);
    assert(given_back(frames, ids)[i] == (EndStep::Return {
        source_id: frames[id].source_id,
        token: frames[id].buffer_token,
    }));
}

} // verus!
