//! Decisions of the Vulkan render loop: when the device or its surface-sized
//! parts are rebuilt, what is reported meanwhile, and how frames are paced.
//!
//! The loop itself performs the device work and hands each result back here.

use vstd::prelude::*;
use vstd::string::*;

use crate::engine_event;
use crate::engine_event::{send, DeviceRecoveryPhase, EngineEvent};
use crate::recovery;
use crate::recovery::{RecoveryBudget, RecoveryOutcome};
use crate::text::joined;

verus! {

/// The windowing system that the native surfaces belong to.
#[derive(Clone, Copy, Debug, PartialEq, Eq, Structural)]
pub enum NativeSurfaceKind {
    Xlib,
    Wayland,
    Win32,
}

/// Handles and sizes of the program and preview surfaces.
#[derive(Clone, Copy, Debug, PartialEq, Eq, Structural)]
pub struct NativeSurfaces {
    pub kind: NativeSurfaceKind,
    pub studio: usize,
    pub display: usize,
    pub program: usize,
    pub preview: usize,
    pub program_width: u32,
    pub program_height: u32,
    pub preview_width: u32,
    pub preview_height: u32,
}

/// A surface side in pixels; a collapsed window counts as one pixel.
pub open spec fn at_least_one(side: u32) -> u32 {
    if side == 0 {
        1
    } else {
        side
    }
}

/// A surface side in pixels.
pub fn surface_side(side: u32) -> (r: u32)
    ensures
        r == at_least_one(side),
{
    if side == 0 {
        1
    } else {
        side
    }
}

/// Checks that the handles can make Vulkan surfaces.
pub fn check_handles(surfaces: NativeSurfaces) -> (r: Result<(), String>)
    ensures
        match r {
            Ok(()) => {
                &&& surfaces.display != 0
                &&& surfaces.kind != NativeSurfaceKind::Win32
                &&& surfaces.kind == NativeSurfaceKind::Wayland ==> surfaces.program != 0
                    && surfaces.preview != 0
            },
            Err(reason) => if surfaces.display == 0 {
                reason@ == "native display handle is null"@
            } else if surfaces.kind == NativeSurfaceKind::Wayland && surfaces.program == 0 {
                reason@ == "Program Wayland surface is null"@
            } else if surfaces.kind == NativeSurfaceKind::Wayland && surfaces.preview == 0 {
                reason@ == "Preview Wayland surface is null"@
            } else {
                surfaces.kind == NativeSurfaceKind::Win32 && reason@
                    == "unsupported Linux native surface type"@
            },
        },
{
    if surfaces.display == 0 {
        return Err("native display handle is null".to_owned());
    }
    match surfaces.kind {
        NativeSurfaceKind::Xlib => Ok(()),
        NativeSurfaceKind::Wayland => {
            if surfaces.program == 0 {
                Err("Program Wayland surface is null".to_owned())
            } else if surfaces.preview == 0 {
                Err("Preview Wayland surface is null".to_owned())
            } else {
                Ok(())
            }
        },
        NativeSurfaceKind::Win32 => Err("unsupported Linux native surface type".to_owned()),
    }
}

/// Width and height in pixels.
#[derive(Clone, Copy, Debug, PartialEq, Eq, Structural)]
pub struct Extent {
    pub width: u32,
    pub height: u32,
}

/// Which swapchains are rebuilt.
#[derive(Clone, Copy, Debug, PartialEq, Eq, Structural)]
pub struct SwapchainPlan {
    pub program: bool,
    pub preview: bool,
}

/// Which swapchains are rebuilt: both where that is forced, else those whose
/// size differs from the wanted one.
pub fn swapchains_to_recreate(
    program: Extent,
    preview: Extent,
    wanted_program: Extent,
    wanted_preview: Extent,
    force: bool,
) -> (r: SwapchainPlan)
    ensures
        r.program == (force || program != wanted_program),
        r.preview == (force || preview != wanted_preview),
{
    SwapchainPlan {
        program: force || program.width != wanted_program.width || program.height
            != wanted_program.height,
        preview: force || preview.width != wanted_preview.width || preview.height
            != wanted_preview.height,
    }
}

/// The wanted size of the program swapchain.
pub open spec fn program_extent(surfaces: NativeSurfaces) -> Extent {
    Extent {
        width: at_least_one(surfaces.program_width),
        height: at_least_one(surfaces.program_height),
    }
}

/// The wanted size of the preview swapchain.
pub open spec fn preview_extent(surfaces: NativeSurfaces) -> Extent {
    Extent {
        width: at_least_one(surfaces.preview_width),
        height: at_least_one(surfaces.preview_height),
    }
}

/// The wanted sizes of the program and preview swapchains.
pub fn wanted_extents(surfaces: NativeSurfaces) -> (r: (Extent, Extent))
    ensures
        r.0 == program_extent(surfaces),
        r.1 == preview_extent(surfaces),
{
    (
        Extent {
            width: surface_side(surfaces.program_width),
            height: surface_side(surfaces.program_height),
        },
        Extent {
            width: surface_side(surfaces.preview_width),
            height: surface_side(surfaces.preview_height),
        },
    )
}

/// How a frame failed.
#[derive(Debug)]
pub enum RenderFailure {
    /// No swapchain image became free in time; the frame is skipped.
    AcquireTimeout,
    /// A Vulkan call failed. `swapchain_scoped` marks an outdated swapchain.
    Device { swapchain_scoped: bool, name: String },
    /// The frame could not be put together.
    Import { reason: String },
}

/// What the loop does next.
#[derive(Clone, Copy, Debug, PartialEq, Eq, Structural)]
pub enum NextStep {
    /// Wait for the next frame.
    Pace,
    /// Begin the next round without waiting.
    NextRound,
    /// Rebuild both swapchains.
    RecreateSwapchains,
    /// Drop the device and build a new one.
    RecreateDevice,
    /// Wait for the backoff, then for the next frame.
    BackoffThenPace,
    /// Wait for the backoff, then begin the next round.
    BackoffThenNextRound,
    /// Leave the loop.
    Stop,
}

/// State of the render loop.
pub struct RenderLoop {
    alive: bool,
    budget: RecoveryBudget,
    output: Extent,
    deadline_ns: u64,
}

/// What is told when a recovery starts.
pub open spec fn started_report(detail: Option<Seq<char>>) -> engine_event::EventView {
    engine_event::EventView::DeviceRecovery { phase: DeviceRecoveryPhase::Started, detail }
}

/// Why a recovery starts after a failed Vulkan call.
pub open spec fn recovery_detail(swapchain_scoped: bool, name: Seq<char>) -> Seq<char> {
    if swapchain_scoped {
        "Vulkan-Swapchain wird neu erstellt"@
    } else {
        "Vulkan-Gerät wird nach "@ + name + " neu erstellt"@
    }
}

/// The next deadline and how long to sleep: until the deadline but at most 20 ms, or
/// not at all where it has passed already; then the count starts anew from `now`.
pub open spec fn paced(deadline: u64, frame_ns: u64, now: u64) -> (u64, u64) {
    let due = deadline + frame_ns;
    if due < now {
        (now, 0)
    } else if due - now <= 20_000_000 {
        (due as u64, (due - now) as u64)
    } else {
        (due as u64, 20_000_000)
    }
}

impl RenderLoop {
    /// Whether a device exists.
    pub closed spec fn has_device(self) -> bool {
        self.alive
    }

    /// Failures in a row.
    pub closed spec fn failures(self) -> nat {
        self.budget.count()
    }

    /// The output size that the device was built for.
    pub closed spec fn output_size(self) -> Extent {
        self.output
    }

    /// When the next frame is due.
    pub closed spec fn deadline(self) -> u64 {
        self.deadline_ns
    }

    /// The loop has attempts left.
    pub open spec fn running(self) -> bool {
        self.failures() < recovery::MAX_RECOVERY_FAILURES
    }

    /// A loop with a freshly built device.
    pub fn new(output: Extent, now: u64) -> (r: Self)
        ensures
            r.has_device(),
            r.failures() == 0,
            r.running(),
            r.output_size() == output,
            r.deadline() == now,
    {
        RenderLoop { alive: true, budget: RecoveryBudget::new(), output, deadline_ns: now }
    }

    /// Whether a round begins with building a device.
    pub fn needs_device(&self) -> (r: bool)
        ensures
            r == !self.has_device(),
    {
        !self.alive
    }

    /// Milliseconds to wait after the failures so far.
    pub fn backoff(&self) -> (r: u64)
        ensures
            r == recovery::backoff_ms(self.failures() as u32),
    {
        recovery::backoff_duration(self.budget.failures())
    }

    /// The device was built, or not, at the begin of a round.
    pub fn on_device_built(
        &mut self,
        result: Result<(), String>,
        output: Extent,
        events: &mut Vec<EngineEvent>,
    ) -> (r: NextStep)
        requires
            old(self).running(),
            !old(self).has_device(),
        ensures
            final(self).deadline() == old(self).deadline(),
            match result {
                Ok(()) => {
                    &&& r == NextStep::NextRound
                    &&& final(self).has_device()
                    &&& final(self).failures() == 0
                    &&& final(self).output_size() == output
                    &&& engine_event::events_view(final(events)@) == engine_event::events_view(
                        old(events)@,
                    ).push(recovery::success_report())
                },
                Err(error) => {
                    &&& !final(self).has_device()
                    &&& final(self).failures() == old(self).failures() + 1
                    &&& final(self).output_size() == old(self).output_size()
                    &&& r == (if final(self).running() {
                        NextStep::BackoffThenNextRound
                    } else {
                        NextStep::Stop
                    })
                    &&& engine_event::events_view(final(events)@) == engine_event::events_view(
                        old(events)@,
                    ) + recovery::failure_report(old(self).failures(), error@)
                },
            },
    {
        match result {
            Ok(()) => {
                self.alive = true;
                self.output = output;
                self.budget.on_success(events);
                NextStep::NextRound
            },
            Err(error) => match self.budget.on_failure(error.as_str(), events) {
                RecoveryOutcome::GiveUp => NextStep::Stop,
                _ => NextStep::BackoffThenNextRound,
            },
        }
    }

    /// Whether surface-sized parts must be rebuilt; announces it.
    pub fn begin_resize(
        &self,
        output: Extent,
        program: Extent,
        preview: Extent,
        surfaces: NativeSurfaces,
        events: &mut Vec<EngineEvent>,
    ) -> (r: bool)
        ensures
            r == (output != self.output_size() || program != program_extent(surfaces) || preview
                != preview_extent(surfaces)),
            engine_event::events_view(final(events)@) == (if r {
                engine_event::events_view(old(events)@).push(started_report(None))
            } else {
                engine_event::events_view(old(events)@)
            }),
    {
        let wanted = wanted_extents(surfaces);
        let due = output.width != self.output.width || output.height != self.output.height
            || program.width != wanted.0.width || program.height != wanted.0.height
            || preview.width != wanted.1.width || preview.height != wanted.1.height;
        if due {
            send(
                events,
                EngineEvent::DeviceRecovery { phase: DeviceRecoveryPhase::Started, detail: None },
            );
        }
        due
    }

    /// The surface-sized parts were rebuilt, or not. A failure drops the device.
    pub fn on_resized(
        &mut self,
        result: Result<(), String>,
        output: Extent,
        events: &mut Vec<EngineEvent>,
    ) -> (r: Option<NextStep>)
        requires
            old(self).running(),
            old(self).has_device(),
        ensures
            final(self).deadline() == old(self).deadline(),
            match result {
                Ok(()) => {
                    &&& r is None
                    &&& final(self).has_device()
                    &&& final(self).failures() == 0
                    &&& final(self).output_size() == output
                    &&& engine_event::events_view(final(events)@) == engine_event::events_view(
                        old(events)@,
                    ).push(recovery::success_report())
                },
                Err(error) => {
                    &&& !final(self).has_device()
                    &&& final(self).failures() == old(self).failures() + 1
                    &&& final(self).output_size() == old(self).output_size()
                    &&& r == Some(
                        if final(self).running() {
                            NextStep::BackoffThenNextRound
                        } else {
                            NextStep::Stop
                        },
                    )
                    &&& engine_event::events_view(final(events)@) == engine_event::events_view(
                        old(events)@,
                    ) + recovery::failure_report(old(self).failures(), error@)
                },
            },
    {
        match result {
            Ok(()) => {
                self.output = output;
                self.budget.on_success(events);
                None
            },
            Err(error) => {
                self.alive = false;
                match self.budget.on_failure(error.as_str(), events) {
                    RecoveryOutcome::GiveUp => Some(NextStep::Stop),
                    _ => Some(NextStep::BackoffThenNextRound),
                }
            },
        }
    }

    /// The capture thread could not be started again. True where the loop tries
    /// once more after the backoff.
    pub fn on_capture_failed(&mut self, error: &str, events: &mut Vec<EngineEvent>) -> (r: bool)
        requires
            old(self).running(),
        ensures
            final(self).has_device() == old(self).has_device(),
            final(self).output_size() == old(self).output_size(),
            final(self).deadline() == old(self).deadline(),
            final(self).failures() == old(self).failures() + 1,
            r == final(self).running(),
            engine_event::events_view(final(events)@) == engine_event::events_view(old(events)@)
                + recovery::failure_report(old(self).failures(), error@),
    {
        match self.budget.on_failure(error, events) {
            RecoveryOutcome::GiveUp => false,
            _ => true,
        }
    }

    /// A frame was rendered, or not.
    pub fn on_rendered(
        &mut self,
        result: Result<(), RenderFailure>,
        events: &mut Vec<EngineEvent>,
    ) -> (r: NextStep)
        requires
            old(self).running(),
            old(self).has_device(),
        ensures
            final(self).failures() == old(self).failures(),
            final(self).output_size() == old(self).output_size(),
            final(self).deadline() == old(self).deadline(),
            match result {
                Ok(()) => {
                    &&& r == NextStep::Pace
                    &&& final(self).has_device()
                    &&& final(events)@ == old(events)@
                },
                Err(RenderFailure::AcquireTimeout) => {
                    &&& r == NextStep::Pace
                    &&& final(self).has_device()
                    &&& final(events)@ == old(events)@
                },
                Err(RenderFailure::Device { swapchain_scoped, name }) => {
                    &&& r == (if swapchain_scoped {
                        NextStep::RecreateSwapchains
                    } else {
                        NextStep::RecreateDevice
                    })
                    &&& final(self).has_device() == swapchain_scoped
                    &&& engine_event::events_view(final(events)@) == engine_event::events_view(
                        old(events)@,
                    ).push(started_report(Some(recovery_detail(swapchain_scoped, name@))))
                },
                Err(RenderFailure::Import { reason }) => {
                    &&& r == NextStep::NextRound
                    &&& final(self).has_device()
                    &&& engine_event::events_view(final(events)@) == engine_event::events_view(
                        old(events)@,
                    ).push(engine_event::EventView::EngineError { message: reason@ })
                },
            },
    {
        match result {
            Ok(()) => NextStep::Pace,
            Err(RenderFailure::AcquireTimeout) => NextStep::Pace,
            Err(RenderFailure::Device { swapchain_scoped, name }) => {
                let detail = if swapchain_scoped {
                    "Vulkan-Swapchain wird neu erstellt".to_owned()
                } else {
                    let mut text = joined("Vulkan-Gerät wird nach ", name.as_str());
                    text.append(" neu erstellt");
                    text
                };
                send(
                    events,
                    EngineEvent::DeviceRecovery {
                        phase: DeviceRecoveryPhase::Started,
                        detail: Some(detail),
                    },
                );
                if swapchain_scoped {
                    NextStep::RecreateSwapchains
                } else {
                    self.alive = false;
                    NextStep::RecreateDevice
                }
            },
            Err(RenderFailure::Import { reason }) => {
                send(events, EngineEvent::EngineError { message: reason });
                NextStep::NextRound
            },
        }
    }

    /// Both swapchains were rebuilt, or not. A failure drops the device.
    pub fn on_swapchains_recreated(&mut self, ok: bool, events: &mut Vec<EngineEvent>) -> (r:
        NextStep)
        requires
            old(self).running(),
            old(self).has_device(),
        ensures
            final(self).output_size() == old(self).output_size(),
            final(self).deadline() == old(self).deadline(),
            final(self).has_device() == ok,
            ok ==> {
                &&& r == NextStep::Pace
                &&& final(self).failures() == 0
                &&& engine_event::events_view(final(events)@) == engine_event::events_view(
                    old(events)@,
                ).push(recovery::success_report())
            },
            !ok ==> {
                &&& r == NextStep::RecreateDevice
                &&& final(self).failures() == old(self).failures()
                &&& final(events)@ == old(events)@
            },
    {
        if ok {
            self.budget.on_success(events);
            NextStep::Pace
        } else {
            self.alive = false;
            NextStep::RecreateDevice
        }
    }

    /// The device was rebuilt after a failed frame, or not.
    pub fn on_device_recreated(
        &mut self,
        result: Result<(), String>,
        events: &mut Vec<EngineEvent>,
    ) -> (r: NextStep)
        requires
            old(self).running(),
            !old(self).has_device(),
        ensures
            final(self).output_size() == old(self).output_size(),
            final(self).deadline() == old(self).deadline(),
            match result {
                Ok(()) => {
                    &&& r == NextStep::Pace
                    &&& final(self).has_device()
                    &&& final(self).failures() == 0
                    &&& engine_event::events_view(final(events)@) == engine_event::events_view(
                        old(events)@,
                    ).push(recovery::success_report())
                },
                Err(error) => {
                    &&& !final(self).has_device()
                    &&& final(self).failures() == old(self).failures() + 1
                    &&& r == (if final(self).running() {
                        NextStep::BackoffThenPace
                    } else {
                        NextStep::Stop
                    })
                    &&& engine_event::events_view(final(events)@) == engine_event::events_view(
                        old(events)@,
                    ) + recovery::failure_report(old(self).failures(), error@)
                },
            },
    {
        match result {
            Ok(()) => {
                self.alive = true;
                self.budget.on_success(events);
                NextStep::Pace
            },
            Err(error) => match self.budget.on_failure(error.as_str(), events) {
                RecoveryOutcome::GiveUp => NextStep::Stop,
                _ => NextStep::BackoffThenPace,
            },
        }
    }

    /// Moves the deadline on by one frame and tells how long to sleep.
    pub fn pace(&mut self, frame_ns: u64, now: u64) -> (r: u64)
        requires
            old(self).deadline() + frame_ns <= u64::MAX,
        ensures
            final(self).has_device() == old(self).has_device(),
            final(self).failures() == old(self).failures(),
            final(self).output_size() == old(self).output_size(),
            (final(self).deadline(), r) == paced(old(self).deadline(), frame_ns, now),
    {
        let due: u64 = self.deadline_ns + frame_ns;
        if due >= now {
            self.deadline_ns = due;
            let wait: u64 = due - now;
            if wait <= 20_000_000 {
                wait
            } else {
                20_000_000
            }
        } else {
            self.deadline_ns = now;
            0
        }
    }
}

/// Frames keep their pace: each is due one frame after the one before, and the loop
/// sleeps until then, though never longer than a fiftieth of a second at once. A loop
/// that is late does not make up for it: the next frame is counted from now.
pub proof fn law_frames_keep_their_pace(deadline: u64, frame_ns: u64, now: u64)
    requires
        deadline + frame_ns <= u64::MAX,
    ensures
        ({
            let (due, sleep) = paced(deadline, frame_ns, now);
            &&& sleep <= 20_000_000
            &&& now + sleep <= due
            &&& deadline + frame_ns >= now ==> due == deadline + frame_ns
            &&& deadline + frame_ns < now ==> due == now && sleep == 0
            &&& now <= deadline + frame_ns <= now + 20_000_000 ==> now + sleep == due
            &&& deadline + frame_ns >= now + 20_000_000 ==> sleep == 20_000_000
        }),
{
}

/// The images of each surface are as large as the surface, and never empty.
pub proof fn law_images_fit_their_surface(surfaces: NativeSurfaces)
    ensures
        surfaces.program_width > 0 ==> program_extent(surfaces).width == surfaces.program_width,
        surfaces.program_height > 0 ==> program_extent(surfaces).height == surfaces.program_height,
        surfaces.preview_width > 0 ==> preview_extent(surfaces).width == surfaces.preview_width,
        surfaces.preview_height > 0 ==> preview_extent(surfaces).height == surfaces.preview_height,
        program_extent(surfaces).width > 0 && program_extent(surfaces).height > 0,
        preview_extent(surfaces).width > 0 && preview_extent(surfaces).height > 0,
        at_least_one(0) == 1,
{
}

/// The part of the renderer that could not be started.
#[derive(Clone, Copy, Debug, PartialEq, Eq, Structural)]
pub enum StartupStage {
    Compositor,
    Capture,
    Media,
}

/// Reports a failed start and returns what the waiting caller is told.
pub fn startup_failed(stage: StartupStage, error: &str, events: &mut Vec<EngineEvent>) -> (r:
    String)
    ensures
        match stage {
            StartupStage::Compositor => {
                &&& r@ == error@
                &&& engine_event::events_view(final(events)@) == engine_event::events_view(
                    old(events)@,
                ).push(
                    engine_event::EventView::DeviceRecovery {
                        phase: DeviceRecoveryPhase::Failed,
                        detail: Some(error@),
                    },
                )
            },
            StartupStage::Capture => {
                &&& r@ == error@
                &&& engine_event::events_view(final(events)@) == engine_event::events_view(
                    old(events)@,
                ).push(engine_event::EventView::EngineError { message: error@ })
            },
            StartupStage::Media => {
                &&& r@ == "GStreamer nicht verfügbar: "@ + error@
                &&& engine_event::events_view(final(events)@) == engine_event::events_view(
                    old(events)@,
                ).push(
                    engine_event::EventView::EngineError {
                        message: "GStreamer nicht verfügbar: "@ + error@,
                    },
                )
            },
        },
{
    match stage {
        StartupStage::Compositor => {
            send(
                events,
                EngineEvent::DeviceRecovery {
                    phase: DeviceRecoveryPhase::Failed,
                    detail: Some(error.to_owned()),
                },
            );
            error.to_owned()
        },
        StartupStage::Capture => {
            send(events, EngineEvent::EngineError { message: error.to_owned() });
            error.to_owned()
        },
        StartupStage::Media => {
            send(
                events,
                EngineEvent::EngineError { message: joined("GStreamer nicht verfügbar: ", error) },
            );
            joined("GStreamer nicht verfügbar: ", error)
        },
    }
}

} // verus!
