//! What the taskbar button of the studio shows.

use vstd::prelude::*;

use crate::engine_event::{DeviceRecoveryPhase, EngineEvent};

verus! {

/// What one part of the studio is doing.
#[derive(Clone, Copy, Debug, PartialEq, Eq, Structural)]
pub enum Activity {
    Idle,
    Indeterminate,
    Progress(u8),
    Error,
}

/// What the updater and the device are doing.
#[derive(Clone, Copy, Debug, PartialEq, Eq, Structural)]
pub struct Signals {
    pub update: Activity,
    pub device: Activity,
}

/// What the taskbar button shows.
#[derive(Clone, Copy, Debug, PartialEq, Eq, Structural)]
pub enum Presentation {
    Idle,
    Indeterminate,
    Progress(u8),
    Error,
}

/// What the button shows: an error of either part, else a device that recovers,
/// else the updater.
pub open spec fn presentation_of(signals: Signals) -> Presentation {
    if signals.device == Activity::Error || signals.update == Activity::Error {
        Presentation::Error
    } else if signals.device == Activity::Indeterminate {
        Presentation::Indeterminate
    } else {
        match signals.update {
            Activity::Idle => Presentation::Idle,
            Activity::Indeterminate => Presentation::Indeterminate,
            Activity::Progress(progress) => Presentation::Progress(progress),
            Activity::Error => Presentation::Error,
        }
    }
}

impl Default for Signals {
    fn default() -> (r: Self)
        ensures
            r == (Signals { update: Activity::Idle, device: Activity::Idle }),
    {
        Signals { update: Activity::Idle, device: Activity::Idle }
    }
}

impl Signals {
    /// What the taskbar button shows.
    pub fn presentation(self) -> (r: Presentation)
        ensures
            r == presentation_of(self),
    {
        if self.device == Activity::Error || self.update == Activity::Error {
            Presentation::Error
        } else if self.device == Activity::Indeterminate {
            Presentation::Indeterminate
        } else {
            match self.update {
                Activity::Idle => Presentation::Idle,
                Activity::Indeterminate => Presentation::Indeterminate,
                Activity::Progress(progress) => Presentation::Progress(progress),
                Activity::Error => Presentation::Error,
            }
        }
    }
}

/// The button is redrawn exactly where it looks different, and then as it is to look.
pub proof fn law_button_is_redrawn_where_it_changes(before: Signals, after: Signals)
    ensures
        change(before, after) is Some <==> presentation_of(before) != presentation_of(after),
        change(before, after) matches Some(look) ==> look == presentation_of(after),
        change(before, before) is None,
        device_activity(DeviceRecoveryPhase::Started) == Activity::Indeterminate,
        device_activity(DeviceRecoveryPhase::Succeeded) == Activity::Idle,
        device_activity(DeviceRecoveryPhase::Failed) == Activity::Error,
{
}

/// An error stays on the button whatever the other part does, a recovering device
/// hides the updater's progress, and a device at rest reveals it.
pub proof fn law_errors_outrank_recovery_outranks_updates(signals: Signals)
    ensures
        presentation_of(Signals { device: Activity::Error, ..signals }) == Presentation::Error,
        presentation_of(Signals { update: Activity::Error, ..signals }) == Presentation::Error,
        signals.update != Activity::Error ==> presentation_of(
            Signals { device: Activity::Indeterminate, ..signals },
        ) == Presentation::Indeterminate,
        presentation_of(Signals { device: Activity::Idle, ..signals }) == (match signals.update {
            Activity::Idle => Presentation::Idle,
            Activity::Indeterminate => Presentation::Indeterminate,
            Activity::Progress(progress) => Presentation::Progress(progress),
            Activity::Error => Presentation::Error,
        }),
{
}

/// The signals behind the taskbar button.
pub struct TaskbarState {
    pub signals: Signals,
}

/// What is to be shown after a change; none where the button looks the same.
pub open spec fn change(before: Signals, after: Signals) -> Option<Presentation> {
    if presentation_of(before) != presentation_of(after) {
        Some(presentation_of(after))
    } else {
        None
    }
}

/// What the device does in a phase of a recovery.
pub open spec fn device_activity(phase: DeviceRecoveryPhase) -> Activity {
    match phase {
        DeviceRecoveryPhase::Started => Activity::Indeterminate,
        DeviceRecoveryPhase::Succeeded => Activity::Idle,
        DeviceRecoveryPhase::Failed => Activity::Error,
    }
}

impl TaskbarState {
    /// Both parts are idle.
    pub fn new() -> (r: Self)
        ensures
            r.signals == (Signals { update: Activity::Idle, device: Activity::Idle }),
    {
        TaskbarState { signals: Signals { update: Activity::Idle, device: Activity::Idle } }
    }

    /// Replaces the signals and tells what is to be shown, where that changes.
    pub fn update(&mut self, next: Signals) -> (r: Option<Presentation>)
        ensures
            final(self).signals == next,
            r == change(old(self).signals, next),
    {
        let previous = self.signals.presentation();
        self.signals = next;
        let shown = self.signals.presentation();
        if previous != shown {
            Some(shown)
        } else {
            None
        }
    }

    /// The updater does something else.
    pub fn set_update(&mut self, activity: Activity) -> (r: Option<Presentation>)
        ensures
            final(self).signals == (Signals { update: activity, ..old(self).signals }),
            r == change(old(self).signals, final(self).signals),
    {
        self.update(Signals { update: activity, device: self.signals.device })
    }

    /// Takes an engine event: recoveries of the device are shown.
    pub fn record_engine_event(&mut self, event: &EngineEvent) -> (r: Option<Presentation>)
        ensures
            final(self).signals == (match *event {
                EngineEvent::DeviceRecovery { phase, .. } => Signals {
                    device: device_activity(phase),
                    ..old(self).signals
                },
                _ => old(self).signals,
            }),
            r == change(old(self).signals, final(self).signals),
    {
        match event {
            EngineEvent::DeviceRecovery { phase, .. } => {
                let device = match *phase {
                    DeviceRecoveryPhase::Started => Activity::Indeterminate,
                    DeviceRecoveryPhase::Succeeded => Activity::Idle,
                    DeviceRecoveryPhase::Failed => Activity::Error,
                };
                self.update(Signals { update: self.signals.update, device })
            },
            _ => None,
        }
    }
}

/// How a progress bar is drawn.
#[derive(Clone, Copy, Debug, PartialEq, Eq, Structural)]
pub enum BarStatus {
    Hidden,
    Normal,
    Indeterminate,
    Failed,
}

/// The progress bar of the taskbar button and its error badge.
#[derive(Clone, Copy, Debug, PartialEq, Eq, Structural)]
pub struct TaskbarLook {
    pub status: BarStatus,
    pub progress: Option<u64>,
    pub error_badge: bool,
}

/// How a presentation is drawn.
pub fn look(presentation: Presentation) -> (r: TaskbarLook)
    ensures
        r == (match presentation {
            Presentation::Idle => TaskbarLook {
                status: BarStatus::Hidden,
                progress: None,
                error_badge: false,
            },
            Presentation::Indeterminate => TaskbarLook {
                status: BarStatus::Indeterminate,
                progress: None,
                error_badge: false,
            },
            Presentation::Progress(progress) => TaskbarLook {
                status: BarStatus::Normal,
                progress: Some(progress as u64),
                error_badge: false,
            },
            Presentation::Error => TaskbarLook {
                status: BarStatus::Failed,
                progress: Some(100),
                error_badge: true,
            },
        }),
{
    match presentation {
        Presentation::Idle => TaskbarLook {
            status: BarStatus::Hidden,
            progress: None,
            error_badge: false,
        },
        Presentation::Indeterminate => TaskbarLook {
            status: BarStatus::Indeterminate,
            progress: None,
            error_badge: false,
        },
        Presentation::Progress(progress) => TaskbarLook {
            status: BarStatus::Normal,
            progress: Some(progress as u64),
            error_badge: false,
        },
        Presentation::Error => TaskbarLook {
            status: BarStatus::Failed,
            progress: Some(100),
            error_badge: true,
        },
    }
}

} // verus!
