//! The render thread on Windows: the order of its work, with what a lost or replaced
//! device takes away.
//!
//! [`WindowsRounds`] names the next step of the thread. The thread performs it and
//! hands the outcome back.

use vstd::prelude::*;
use vstd::string::*;

use crate::engine_event;
use crate::engine_event::{DeviceRecoveryPhase, EngineEvent};
use crate::project;
use crate::project::{OutputConfig, Project};
use crate::recovery;
use crate::recovery::MAX_RECOVERY_FAILURES;
use crate::windows_capture;
use crate::windows_render;
use crate::windows_render::{RecoveryStep, WindowsRenderLoop, WindowsSources};
use crate::windows_sync;
use crate::windows_sync::{SyncClock, SyncPass};
use crate::windows_video;
use crate::windows_video::WindowsVideoError;

verus! {

/// What a fresh render thread told within its time.
pub enum WindowsReady {
    /// The first device is made.
    Started,
    /// The first device could not be made, or nothing came; the text says why.
    Failed(String),
}

/// Takes what a fresh thread told. The caller joins a thread that failed.
pub fn on_ready(ready: WindowsReady) -> (r: Result<(), WindowsVideoError>)
    ensures
        windows_video::error_view(r) == (match ready {
            WindowsReady::Started => None,
            WindowsReady::Failed(error) => Some(windows_video::ErrorView::SwapChain(error@)),
        }),
{
    match ready {
        WindowsReady::Started => Ok(()),
        WindowsReady::Failed(error) => Err(WindowsVideoError::SwapChain(error)),
    }
}

/// A step of the render thread.
#[derive(Clone, Copy, Debug, PartialEq, Eq, Structural)]
pub enum WindowsStep {
    /// Look whether the thread is to stop, and take a snapshot of the project.
    Begin,
    /// Make a device for the new size.
    Resize,
    /// Look whether sources are to be synchronised.
    CompareClock,
    /// Run the passes of a tick.
    Synchronize,
    /// Take the newest frames of the windows.
    PumpWindows,
    /// Take the newest frames of the displays.
    PumpDisplays,
    /// Drive the media files.
    PumpMedia,
    /// Render a frame.
    Render,
    /// Make the device anew.
    Recreate,
    /// Wait so many milliseconds, then begin.
    Wait(u64),
    /// Wait so many milliseconds, then give up.
    WaitAndGiveUp(u64),
    /// Sleep until the next frame is due.
    Pace,
    /// Leave the loop.
    End,
}

/// The render thread between two steps. `media_ready` tells whether media files can
/// be opened on the current device.
pub struct WindowsRounds<F, T, D> {
    pub rounds: WindowsRenderLoop,
    pub sources: WindowsSources<F, T, D>,
    pub sync: SyncClock,
    pub media_ready: bool,
    pub step: WindowsStep,
}

/// The step that a recovery asks for.
pub open spec fn step_of(next: RecoveryStep) -> WindowsStep {
    match next {
        RecoveryStep::Continue => WindowsStep::Begin,
        RecoveryStep::Wait(ms) => WindowsStep::Wait(ms),
        RecoveryStep::WaitAndGiveUp(ms) => WindowsStep::WaitAndGiveUp(ms),
        RecoveryStep::GiveUp => WindowsStep::End,
    }
}

/// What follows a recovery in a series of so many.
pub open spec fn recovery_step(recreated: bool, streak: u32) -> RecoveryStep {
    let wait = recovery::backoff_ms(streak) as u64;
    if streak >= MAX_RECOVERY_FAILURES {
        if recreated {
            RecoveryStep::WaitAndGiveUp(wait)
        } else {
            RecoveryStep::GiveUp
        }
    } else if recreated && streak <= 1 {
        RecoveryStep::Continue
    } else {
        RecoveryStep::Wait(wait)
    }
}

/// What is told about a recovery in a series of so many.
pub open spec fn recovery_report(error: Option<Seq<char>>, streak: u32) -> Seq<
    engine_event::EventView,
> {
    match error {
        None => seq![windows_render::recovery_event(DeviceRecoveryPhase::Succeeded, None)],
        Some(error) => {
            let failed = seq![
                windows_render::recovery_event(DeviceRecoveryPhase::Failed, Some(error)),
            ];
            if streak >= MAX_RECOVERY_FAILURES {
                failed.push(
                    windows_render::recovery_event(
                        DeviceRecoveryPhase::Failed,
                        Some(
                            "Wiederherstellung endgültig aufgegeben nach 8 fehlgeschlagenen Versuchen"@,
                        ),
                    ),
                )
            } else {
                failed
            }
        },
    }
}

/// The error of a result, as far as it failed.
pub open spec fn failure_of<A>(result: Result<A, String>) -> Option<Seq<char>> {
    match result {
        Ok(_) => None,
        Err(error) => Some(error@),
    }
}

/// Everything but the given fields stayed.
pub open spec fn same_sources<F, T, D>(a: WindowsRounds<F, T, D>, b: WindowsRounds<F, T, D>) -> bool {
    a.sources == b.sources && a.sync == b.sync && a.media_ready == b.media_ready
}

/// The device is gone: nothing that lived on it is left, sources are due to be
/// synchronised, and which displays were reported and which files have ended is still
/// known.
pub open spec fn device_replaced<F, T, D>(
    before: WindowsRounds<F, T, D>,
    after: WindowsRounds<F, T, D>,
) -> bool {
    &&& after.sources.is_bare()
    &&& after.sources.displays.available == before.sources.displays.available
    &&& after.sources.pump.ended == before.sources.pump.ended
    &&& after.sync.last_run() is None
    &&& after.sync.ticks() == before.sync.ticks()
}

impl<F, T, D> WindowsRounds<F, T, D> {
    /// The tables are sound; a loop that goes on has recoveries left, and between a
    /// failed frame and the new device nothing lives on the old one.
    pub open spec fn wf(self) -> bool {
        &&& self.sources.wf()
        &&& match self.step {
            WindowsStep::End => true,
            WindowsStep::Recreate => {
                &&& 1 <= self.rounds.recovery.streak <= MAX_RECOVERY_FAILURES
                &&& self.rounds.recovery.frames == 0
                &&& self.sources.is_bare()
            },
            WindowsStep::WaitAndGiveUp(_) => self.rounds.recovery.streak == MAX_RECOVERY_FAILURES,
            _ => self.rounds.running(),
        }
    }

    /// A thread whose first device has just been made; `media_ready` tells whether
    /// media files can be opened on it.
    pub fn new(output: &OutputConfig, media_ready: bool, now: u64) -> (r: Self)
        ensures
            r.wf(),
            r.step == WindowsStep::Begin,
            r.media_ready == media_ready,
            r.sync.last_run() is None,
            r.sync.ticks() == 0,
            r.sources.is_bare(),
            r.rounds.deadline == now,
            windows_render::same_output(r.rounds.output, *output),
    {
        WindowsRounds {
            rounds: WindowsRenderLoop::new(output, now),
            sources: WindowsSources::new(),
            sync: SyncClock::new(),
            media_ready,
            step: WindowsStep::Begin,
        }
    }

    /// Begins a round, unless the thread is to stop: takes over the wanted output.
    pub fn begin(
        &mut self,
        stop: bool,
        next: &OutputConfig,
        now: u64,
        events: &mut Vec<EngineEvent>,
    )
        requires
            old(self).wf(),
            old(self).step == WindowsStep::Begin,
        ensures
            final(self).wf(),
            same_sources(*old(self), *final(self)),
            if stop {
                &&& final(self).step == WindowsStep::End
                &&& final(self).rounds == old(self).rounds
                &&& final(events)@ == old(events)@
            } else {
                let resized = next.width != old(self).rounds.output.width || next.height != old(
                    self,
                ).rounds.output.height;
                let tries = resized && now >= old(self).rounds.next_resize_attempt;
                &&& final(self).step == (if tries {
                    WindowsStep::Resize
                } else {
                    WindowsStep::CompareClock
                })
                &&& final(self).rounds.recovery == old(self).rounds.recovery
                &&& final(self).rounds.deadline == old(self).rounds.deadline
                &&& final(self).rounds.output.fps == next.fps
                &&& final(self).rounds.output.background@ == next.background@
                &&& final(self).rounds.output.width == old(self).rounds.output.width
                &&& final(self).rounds.output.height == old(self).rounds.output.height
                &&& final(self).rounds.resize_failures == (if resized {
                    old(self).rounds.resize_failures
                } else {
                    0
                })
                &&& final(self).rounds.next_resize_attempt == (if resized {
                    old(self).rounds.next_resize_attempt
                } else {
                    now
                })
                &&& engine_event::events_view(final(events)@) == (if tries {
                    engine_event::events_view(old(events)@).push(
                        windows_render::recovery_event(DeviceRecoveryPhase::Started, None),
                    )
                } else {
                    engine_event::events_view(old(events)@)
                })
            },
    {
        if stop {
            self.step = WindowsStep::End;
            return;
        }
        self.step = if self.rounds.begin_resize(next, now, events) {
            WindowsStep::Resize
        } else {
            WindowsStep::CompareClock
        };
    }

    /// A device for the new size was made, with or without media files, or not. What
    /// lived on the old device goes only where the new one is there.
    pub fn on_resized(
        &mut self,
        next: &OutputConfig,
        result: Result<bool, String>,
        now: u64,
        events: &mut Vec<EngineEvent>,
    )
        requires
            old(self).wf(),
            old(self).step == WindowsStep::Resize,
            old(self).rounds.resize_failures < u32::MAX,
            now + 2_000_000_000 <= u64::MAX,
        ensures
            final(self).wf(),
            final(self).step == WindowsStep::CompareClock,
            final(self).rounds.recovery == old(self).rounds.recovery,
            final(self).rounds.deadline == old(self).rounds.deadline,
            match result {
                Ok(media_ready) => {
                    &&& device_replaced(*old(self), *final(self))
                    &&& final(self).media_ready == media_ready
                    &&& windows_render::same_output(final(self).rounds.output, *next)
                    &&& final(self).rounds.resize_failures == 0
                    &&& final(self).rounds.next_resize_attempt == now
                    &&& engine_event::events_view(final(events)@) == engine_event::events_view(
                        old(events)@,
                    ).push(windows_render::recovery_event(DeviceRecoveryPhase::Succeeded, None))
                },
                Err(error) => {
                    &&& same_sources(*old(self), *final(self))
                    &&& final(self).rounds.output == old(self).rounds.output
                    &&& final(self).rounds.resize_failures == old(self).rounds.resize_failures + 1
                    &&& final(self).rounds.next_resize_attempt == now + recovery::backoff_ms(
                        final(self).rounds.resize_failures,
                    ) * 1_000_000
                    &&& engine_event::events_view(final(events)@) == engine_event::events_view(
                        old(events)@,
                    ).push(
                        windows_render::recovery_event(DeviceRecoveryPhase::Failed, Some(error@)),
                    )
                },
            },
    {
        self.step = WindowsStep::CompareClock;
        match result {
            Ok(media_ready) => {
                self.sources.clear_device_tied_state();
                self.media_ready = media_ready;
                self.sync.force();
                self.rounds.on_resized(next, Ok(()), now, events);
            },
            Err(error) => {
                self.rounds.on_resized(next, Err(error), now, events);
            },
        }
    }

    /// Looks whether sources are to be synchronised.
    pub fn compare_clock(&mut self, now: u64)
        requires
            old(self).wf(),
            old(self).step == WindowsStep::CompareClock,
        ensures
            final(self).wf(),
            same_sources(*old(self), *final(self)),
            final(self).rounds == old(self).rounds,
            final(self).step == (if windows_sync::is_due(old(self).sync, now) {
                WindowsStep::Synchronize
            } else {
                WindowsStep::PumpWindows
            }),
    {
        self.step = if self.sync.due(now) {
            WindowsStep::Synchronize
        } else {
            WindowsStep::PumpWindows
        };
    }

    /// The passes of the tick, in order. The media pass opens files only where
    /// `media_ready`, and first tries to make that so.
    pub fn passes(&mut self) -> (r: [SyncPass; 4])
        requires
            old(self).wf(),
            old(self).step == WindowsStep::Synchronize,
        ensures
            final(self).wf(),
            final(self).step == WindowsStep::Synchronize,
            final(self).rounds == old(self).rounds,
            final(self).sources == old(self).sources,
            final(self).media_ready == old(self).media_ready,
            r@ == windows_sync::passes_of(old(self).sync.ticks()),
            final(self).sync.ticks() == windows_sync::next_tick(old(self).sync.ticks()),
            final(self).sync.last_run() == old(self).sync.last_run(),
    {
        self.sync.begin()
    }

    /// Every pass of the tick has run.
    pub fn on_synchronized(&mut self, now: u64)
        requires
            old(self).wf(),
            old(self).step == WindowsStep::Synchronize,
        ensures
            final(self).wf(),
            final(self).step == WindowsStep::PumpWindows,
            final(self).rounds == old(self).rounds,
            final(self).sources == old(self).sources,
            final(self).media_ready == old(self).media_ready,
            final(self).sync.last_run() == Some(now),
            final(self).sync.ticks() == old(self).sync.ticks(),
    {
        self.sync.done(now);
        self.step = WindowsStep::PumpWindows;
    }

    /// Takes the newest frames of the windows.
    pub fn pump_windows(&mut self, project: &Project, now: u64, events: &mut Vec<EngineEvent>)
        requires
            old(self).wf(),
            old(self).step == WindowsStep::PumpWindows,
        ensures
            final(self).wf(),
            final(self).step == WindowsStep::PumpDisplays,
            final(self).rounds == old(self).rounds,
            final(self).sync == old(self).sync,
            final(self).media_ready == old(self).media_ready,
            final(self).sources == (WindowsSources {
                windows: final(self).sources.windows,
                ..old(self).sources
            }),
            final(self).sources.windows.model(final(events)@) == windows_capture::window_items(
                old(self).sources.windows.model(old(events)@),
                project::active_items(*project),
                now,
            ),
    {
        self.sources.windows.pump_window_frames(project, now, events);
        self.step = WindowsStep::PumpDisplays;
    }

    /// The displays were taken in.
    pub fn on_displays_pumped(&mut self)
        requires
            old(self).wf(),
            old(self).step == WindowsStep::PumpDisplays,
        ensures
            final(self).wf(),
            final(self).step == WindowsStep::PumpMedia,
            final(self).rounds == old(self).rounds,
            same_sources(*old(self), *final(self)),
    {
        self.step = WindowsStep::PumpMedia;
    }

    /// The media files were driven.
    pub fn on_media_pumped(&mut self)
        requires
            old(self).wf(),
            old(self).step == WindowsStep::PumpMedia,
        ensures
            final(self).wf(),
            final(self).step == WindowsStep::Render,
            final(self).rounds == old(self).rounds,
            same_sources(*old(self), *final(self)),
    {
        self.step = WindowsStep::Render;
    }

    /// A frame was rendered, or not. A failure drops everything that lives on the
    /// device.
    pub fn on_rendered(&mut self, result: Result<(), String>, events: &mut Vec<EngineEvent>)
        requires
            old(self).wf(),
            old(self).step == WindowsStep::Render,
        ensures
            final(self).wf(),
            match result {
                Ok(()) => {
                    &&& final(self).step == WindowsStep::Pace
                    &&& same_sources(*old(self), *final(self))
                    &&& final(self).rounds == (WindowsRenderLoop {
                        recovery: windows_render::after_frame(old(self).rounds.recovery),
                        ..old(self).rounds
                    })
                    &&& final(events)@ == old(events)@
                },
                Err(error) => {
                    &&& final(self).step == WindowsStep::Recreate
                    &&& device_replaced(*old(self), *final(self))
                    &&& !final(self).media_ready
                    &&& final(self).rounds == (WindowsRenderLoop {
                        recovery: windows_render::after_error(old(self).rounds.recovery),
                        ..old(self).rounds
                    })
                    &&& engine_event::events_view(final(events)@) == engine_event::events_view(
                        old(events)@,
                    ).push(
                        windows_render::recovery_event(DeviceRecoveryPhase::Started, Some(error@)),
                    )
                },
            },
    {
        match result {
            Ok(()) => {
                self.rounds.on_frame_rendered();
                self.step = WindowsStep::Pace;
            },
            Err(error) => {
                self.rounds.on_render_error(error.as_str(), events);
                self.sources.clear_device_tied_state();
                self.media_ready = false;
                self.sync.force();
                self.step = WindowsStep::Recreate;
            },
        }
    }

    /// The device was made anew, with or without media files, or not.
    pub fn on_recreated(&mut self, result: Result<bool, String>, events: &mut Vec<EngineEvent>)
        requires
            old(self).wf(),
            old(self).step == WindowsStep::Recreate,
        ensures
            final(self).wf(),
            final(self).rounds == old(self).rounds,
            final(self).sources == old(self).sources,
            final(self).sync == old(self).sync,
            final(self).media_ready == (match result {
                Ok(media_ready) => media_ready,
                Err(_) => old(self).media_ready,
            }),
            final(self).step == step_of(
                recovery_step(result is Ok, old(self).rounds.recovery.streak),
            ),
            engine_event::events_view(final(events)@) == engine_event::events_view(old(events)@)
                + recovery_report(failure_of(result), old(self).rounds.recovery.streak),
    {
        let ghost before = engine_event::events_view(events@);
        let ghost told = recovery_report(failure_of(result), self.rounds.recovery.streak);
        let next = match result {
            Ok(media_ready) => {
                self.media_ready = media_ready;
                self.rounds.on_recreated(Ok(()), events)
            },
            Err(error) => self.rounds.on_recreated(Err(error), events),
        };
        self.step = match next {
            RecoveryStep::Continue => WindowsStep::Begin,
            RecoveryStep::Wait(ms) => WindowsStep::Wait(ms),
            RecoveryStep::WaitAndGiveUp(ms) => WindowsStep::WaitAndGiveUp(ms),
            RecoveryStep::GiveUp => WindowsStep::End,
        };
        assert(engine_event::events_view(events@) =~= before + told);
    }

    /// The wait is over.
    pub fn waited(&mut self, events: &mut Vec<EngineEvent>)
        requires
            old(self).wf(),
            old(self).step is Wait || old(self).step is WaitAndGiveUp,
        ensures
            final(self).wf(),
            final(self).rounds == old(self).rounds,
            same_sources(*old(self), *final(self)),
            final(self).step == (if old(self).step is Wait {
                WindowsStep::Begin
            } else {
                WindowsStep::End
            }),
            engine_event::events_view(final(events)@) == (if old(self).step is Wait {
                engine_event::events_view(old(events)@)
            } else {
                engine_event::events_view(old(events)@).push(
                    windows_render::recovery_event(
                        DeviceRecoveryPhase::Failed,
                        Some(windows_render::unstable_text(old(self).rounds.recovery.streak)),
                    ),
                )
            }),
    {
        let gives_up = match self.step {
            WindowsStep::WaitAndGiveUp(_) => true,
            _ => false,
        };
        if gives_up {
            self.rounds.report_unstable(events);
            self.step = WindowsStep::End;
        } else {
            self.step = WindowsStep::Begin;
        }
    }

    /// Ends a round: how long to sleep before the next one.
    pub fn pace(&mut self, frame_ns: u64, now: u64) -> (r: u64)
        requires
            old(self).wf(),
            old(self).step == WindowsStep::Pace,
            old(self).rounds.deadline + frame_ns <= u64::MAX,
        ensures
            final(self).wf(),
            final(self).step == WindowsStep::Begin,
            same_sources(*old(self), *final(self)),
            ({
                let due = old(self).rounds.deadline + frame_ns;
                &&& final(self).rounds == (WindowsRenderLoop {
                    deadline: if due > now {
                        due as u64
                    } else {
                        now
                    },
                    ..old(self).rounds
                })
                &&& r == (if due > now {
                    due - now
                } else {
                    0
                })
            }),
    {
        self.step = WindowsStep::Begin;
        self.rounds.pace(frame_ns, now)
    }
}

/// The first recovery of a streak costs nothing where it succeeds; any other waits a
/// fifth of a second for each in the streak, two seconds at most; the eighth is the last,
/// and only where it succeeded is it waited for.
pub proof fn law_recoveries_wait_and_end(recreated: bool, streak: u32)
    requires
        streak >= 1,
    ensures
        streak >= 8 && !recreated ==> step_of(recovery_step(recreated, streak)) == WindowsStep::End,
        streak >= 8 && recreated ==> step_of(recovery_step(recreated, streak)) is WaitAndGiveUp,
        streak == 1 && recreated ==> step_of(recovery_step(recreated, streak))
            == WindowsStep::Begin,
        streak < 8 && (streak > 1 || !recreated) ==> step_of(recovery_step(recreated, streak))
            == WindowsStep::Wait((200 * streak) as u64),
{
}

/// A recovery is told as it ended; a failed one with its error, and the eighth failure
/// adds that there will be no more.
pub proof fn law_recoveries_are_told(error: Option<Seq<char>>, streak: u32)
    ensures
        error is None ==> recovery_report(error, streak) == seq![
            engine_event::EventView::DeviceRecovery {
                phase: DeviceRecoveryPhase::Succeeded,
                detail: None,
            },
        ],
        error is Some ==> recovery_report(error, streak)[0]
            == (engine_event::EventView::DeviceRecovery {
            phase: DeviceRecoveryPhase::Failed,
            detail: error,
        }),
        error is Some && streak < 8 ==> recovery_report(error, streak).len() == 1,
        error is Some && streak >= 8 ==> recovery_report(error, streak).len() == 2,
{
}

/// While a lost device is made anew no source has a picture, and the first round on
/// the new one synchronises the sources.
pub proof fn law_lost_device_shows_nothing<F, T, D>(
    before: WindowsRounds<F, T, D>,
    after: WindowsRounds<F, T, D>,
    id: u128,
    now: u64,
)
    requires
        device_replaced(before, after),
    ensures
        windows_render::picture_of(after.sources, id) is None,
        !windows_render::is_present(after.sources, id),
        windows_sync::is_due(after.sync, now),
{
}

} // verus!
