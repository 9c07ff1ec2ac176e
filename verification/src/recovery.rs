//! How often and how long the render loop tries again after device failures.

use vstd::prelude::*;
use vstd::string::*;

use crate::engine_event;
use crate::engine_event::{send, DeviceRecoveryPhase, EngineEvent};
use crate::text::joined;

verus! {

/// The render loop gives up after this many failures in a row.
pub const MAX_RECOVERY_FAILURES: u32 = 8;

/// Milliseconds to wait after so many failures in a row: 200 each, at most 2000.
pub open spec fn backoff_ms(failures: u32) -> int {
    if failures * 200 <= 2000 {
        failures * 200
    } else {
        2000
    }
}

/// Milliseconds to wait after so many failures in a row.
pub fn backoff_duration(failures: u32) -> (r: u64)
    ensures
        r == backoff_ms(failures),
{
    let total: u64 = failures as u64 * 200;
    if total <= 2000 {
        total
    } else {
        2000
    }
}

/// Waiting times never shrink as failures add up and never exceed two seconds.
pub proof fn law_backoff_grows_to_two_seconds(fewer: u32, more: u32)
    requires
        fewer <= more,
    ensures
        backoff_ms(fewer) <= backoff_ms(more),
        backoff_ms(more) <= 2000,
{
}

/// Each failure adds a fifth of a second to the wait before the next attempt, up to two
/// seconds.
pub proof fn law_wait_grows_with_each_failure(failures: u32)
    ensures
        backoff_ms(0) == 0,
        failures < 10 ==> backoff_ms((failures + 1) as u32) == backoff_ms(failures) + 200,
        failures >= 10 ==> backoff_ms(failures) == 2000,
{
}

/// What the render loop does after a failed creation.
#[derive(Clone, Copy, Debug, PartialEq, Eq, Structural)]
pub enum RecoveryOutcome {
    /// The device works again.
    Recovered,
    /// Wait, then try again.
    RetryAfterBackoff,
    /// Leave the render loop.
    GiveUp,
}

/// Counts device failures in a row.
pub struct RecoveryBudget {
    failures: u32,
}

/// The last message of a render loop that gives up.
pub open spec fn give_up_text(error: Seq<char>) -> Seq<char> {
    "Vulkan-Renderer nach 8 Wiederherstellungsversuchen aufgegeben: "@ + error
}

/// What is told about a failure after `failures` earlier ones.
pub open spec fn failure_report(failures: nat, error: Seq<char>) -> Seq<engine_event::EventView> {
    let failed = seq![
        engine_event::EventView::DeviceRecovery {
            phase: DeviceRecoveryPhase::Failed,
            detail: Some(error),
        },
    ];
    if failures + 1 >= MAX_RECOVERY_FAILURES {
        failed.push(engine_event::EventView::EngineError { message: give_up_text(error) })
    } else {
        failed
    }
}

/// What is told about a recovery.
pub open spec fn success_report() -> engine_event::EventView {
    engine_event::EventView::DeviceRecovery { phase: DeviceRecoveryPhase::Succeeded, detail: None }
}

impl RecoveryBudget {
    /// Failures since the last success.
    pub closed spec fn count(self) -> nat {
        self.failures as nat
    }

    /// The loop still runs: it has not used up its attempts.
    pub open spec fn wf(self) -> bool {
        !gives_up(self.count())
    }

    /// No failures yet.
    pub fn new() -> (r: Self)
        ensures
            r.wf(),
            r.count() == 0,
    {
        RecoveryBudget { failures: 0 }
    }

    /// Failures since the last success.
    pub fn failures(&self) -> (r: u32)
        ensures
            r == self.count(),
    {
        self.failures
    }

    /// A creation or re-creation succeeded.
    pub fn on_success(&mut self, events: &mut Vec<EngineEvent>)
        ensures
            final(self).count() == 0,
            final(self).wf(),
            engine_event::events_view(final(events)@) == engine_event::events_view(
                old(events)@,
            ).push(success_report()),
    {
        self.failures = 0;
        send(
            events,
            EngineEvent::DeviceRecovery { phase: DeviceRecoveryPhase::Succeeded, detail: None },
        );
    }

    /// A creation or re-creation failed.
    pub fn on_failure(&mut self, error: &str, events: &mut Vec<EngineEvent>) -> (r: RecoveryOutcome)
        requires
            old(self).wf(),
        ensures
            final(self).count() == old(self).count() + 1,
            r == (if final(self).wf() {
                RecoveryOutcome::RetryAfterBackoff
            } else {
                RecoveryOutcome::GiveUp
            }),
            engine_event::events_view(final(events)@) == engine_event::events_view(old(events)@)
                + failure_report(old(self).count(), error@),
    {
        self.failures = self.failures + 1;
        send(
            events,
            EngineEvent::DeviceRecovery {
                phase: DeviceRecoveryPhase::Failed,
                detail: Some(error.to_owned()),
            },
        );
        let outcome = if self.failures >= MAX_RECOVERY_FAILURES {
            send(
                events,
                EngineEvent::EngineError {
                    message: joined(
                        "Vulkan-Renderer nach 8 Wiederherstellungsversuchen aufgegeben: ",
                        error,
                    ),
                },
            );
            RecoveryOutcome::GiveUp
        } else {
            RecoveryOutcome::RetryAfterBackoff
        };
        assert(engine_event::events_view(events@) =~= engine_event::events_view(old(events)@)
            + failure_report(old(self).count(), error@));
        outcome
    }
}

/// Whether a loop that failed so often in a row has given up.
pub open spec fn gives_up(failures: nat) -> bool {
    failures >= MAX_RECOVERY_FAILURES
}

/// Every failed attempt is told first, with its error; a success is told as one, without
/// any.
pub proof fn law_attempts_are_told(failures: nat, error: Seq<char>)
    ensures
        failure_report(failures, error)[0] == (engine_event::EventView::DeviceRecovery {
            phase: DeviceRecoveryPhase::Failed,
            detail: Some(error),
        }),
        failures < 7 ==> failure_report(failures, error).len() == 1,
        failures >= 7 ==> failure_report(failures, error).len() == 2 && failure_report(
            failures,
            error,
        )[1] is EngineError,
        success_report() == (engine_event::EventView::DeviceRecovery {
            phase: DeviceRecoveryPhase::Succeeded,
            detail: None,
        }),
        !gives_up(7),
        gives_up(8),
{
}

/// A loop gives up on the eighth failure in a row and not before, and only then says
/// so: it reports each failure, and with the last one the end.
pub proof fn law_gives_up_on_eighth_failure(failures: nat, error: Seq<char>)
    ensures
        gives_up(failures + 1) <==> failures >= 7,
        failure_report(failures, error).len() == (if gives_up(failures + 1) {
            2nat
        } else {
            1nat
        }),
        gives_up(failures + 1) ==> failure_report(failures, error).last() == (
        engine_event::EventView::EngineError { message: give_up_text(error) }),
{
}

} // verus!
