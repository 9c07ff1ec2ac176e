//! Start and end of the studio, and the audio watchdog that outlives it.

use vstd::prelude::*;
use vstd::string::*;

use crate::text;
use crate::text::{decimal, parse_u32, same_text};

verus! {

/// The sources that the user can add, whether the desktop portal must be asked for
/// more, and a note. `C` is a source.
#[derive(Debug)]
pub struct SourceEnumeration<C> {
    pub candidates: Vec<C>,
    pub portal_selection_required: bool,
    pub message: Option<String>,
}

/// What the process was started for. `J` is the path of the audio journal.
#[derive(Debug)]
pub enum StartupMode<J> {
    /// The studio.
    Studio,
    /// The watchdog of a studio.
    Watchdog { parent: u32, journal: J },
    /// A watchdog without a parent or a journal: nothing to do.
    Nothing,
}

/// The first argument of a watchdog.
pub open spec fn watchdog_flag() -> Seq<char> {
    "--audio-watchdog"@
}

/// What the process was started for, from its arguments after the program's name.
pub fn startup_mode<J>(flag: Option<&str>, parent: Option<&str>, journal: Option<J>) -> (r:
    StartupMode<J>)
    ensures
        r == (match flag {
            Some(flag) => if flag@ == watchdog_flag() {
                match (parent, journal) {
                    (Some(parent), Some(journal)) => match text::parsed_u32(parent@) {
                        Some(parent) => StartupMode::Watchdog { parent, journal },
                        None => StartupMode::Nothing,
                    },
                    _ => StartupMode::Nothing,
                }
            } else {
                StartupMode::Studio
            },
            None => StartupMode::Studio,
        }),
{
    match flag {
        Some(flag) => {
            if !same_text(flag, "--audio-watchdog") {
                return StartupMode::Studio;
            }
        },
        None => {
            return StartupMode::Studio;
        },
    }
    match (parent, journal) {
        (Some(parent), Some(journal)) => match parse_u32(parent) {
            Some(parent) => StartupMode::Watchdog { parent, journal },
            None => StartupMode::Nothing,
        },
        _ => StartupMode::Nothing,
    }
}

/// The arguments of a watchdog.
pub struct WatchdogArguments<J> {
    pub flag: String,
    pub parent: String,
    pub journal: J,
}

/// The arguments with which a studio starts its watchdog.
pub fn spawn_audio_watchdog<J>(process_id: u32, journal: J) -> (r: WatchdogArguments<J>)
    ensures
        r.flag@ == watchdog_flag(),
        r.parent@ == text::decimal_digits(process_id as nat),
        r.journal == journal,
{
    WatchdogArguments {
        flag: "--audio-watchdog".to_owned(),
        parent: decimal(process_id as u64),
        journal,
    }
}

/// A watchdog reads the number of its parent as the studio wrote it.
pub proof fn law_watchdog_finds_its_parent(process_id: u32)
    ensures
        text::parsed_u32(text::decimal_digits(process_id as nat)) == Some(process_id),
{
    text::law_decimal_round_trip(process_id);
}

/// What a watchdog does, in order.
#[derive(Clone, Copy, Debug, PartialEq, Eq, Structural)]
pub enum WatchdogStep {
    /// Wait until the studio has ended.
    WaitForParent,
    /// Close the handle of the studio's process.
    CloseParent,
    /// Undo what the studio had changed about the audio of other programs.
    RepairJournal,
}

/// What a watchdog does. A studio that cannot be opened has ended already.
pub fn run_audio_watchdog(parent_opened: bool) -> (r: Vec<WatchdogStep>)
    ensures
        r@ == (if parent_opened {
            seq![
                WatchdogStep::WaitForParent,
                WatchdogStep::CloseParent,
                WatchdogStep::RepairJournal,
            ]
        } else {
            seq![WatchdogStep::RepairJournal]
        }),
{
    let mut steps: Vec<WatchdogStep> = Vec::new();
    if parent_opened {
        steps.push(WatchdogStep::WaitForParent);
        steps.push(WatchdogStep::CloseParent);
    }
    steps.push(WatchdogStep::RepairJournal);
    assert(steps@ =~= (if parent_opened {
        seq![
            WatchdogStep::WaitForParent,
            WatchdogStep::CloseParent,
            WatchdogStep::RepairJournal,
        ]
    } else {
        seq![WatchdogStep::RepairJournal]
    }));
    steps
}

/// What is taken down at the end, in order.
#[derive(Clone, Copy, Debug, PartialEq, Eq, Structural)]
pub enum CleanupStep {
    UnregisterHotkeys,
    StopEvents,
    ShutdownEngine,
    JoinEvents,
    DestroyPreview,
    RestoreVisibility,
    ClearPortal,
}

/// What the running studio holds.
#[derive(Clone, Copy, Debug, PartialEq, Eq, Structural)]
pub struct RuntimeResources {
    pub engine: bool,
    pub event_thread: bool,
    pub preview: bool,
    pub output_visibility: bool,
    pub cleaned: bool,
}

/// One step, where it is due.
pub open spec fn when(due: bool, step: CleanupStep) -> Seq<CleanupStep> {
    if due {
        seq![step]
    } else {
        Seq::empty()
    }
}

/// What is taken down: the engine before the thread that forwards its events, and
/// the windows after both.
pub open spec fn cleanup_steps(r: RuntimeResources) -> Seq<CleanupStep> {
    if r.cleaned {
        Seq::empty()
    } else {
        seq![CleanupStep::UnregisterHotkeys, CleanupStep::StopEvents] + when(
            r.engine,
            CleanupStep::ShutdownEngine,
        ) + when(r.event_thread, CleanupStep::JoinEvents) + when(
            r.preview,
            CleanupStep::DestroyPreview,
        ) + when(r.output_visibility, CleanupStep::RestoreVisibility) + seq![
            CleanupStep::ClearPortal,
        ]
    }
}

impl RuntimeResources {
    /// Nothing is held yet.
    pub fn new() -> (r: Self)
        ensures
            r == (RuntimeResources {
                engine: false,
                event_thread: false,
                preview: false,
                output_visibility: false,
                cleaned: false,
            }),
    {
        RuntimeResources {
            engine: false,
            event_thread: false,
            preview: false,
            output_visibility: false,
            cleaned: false,
        }
    }

    /// Takes everything down, once.
    pub fn cleanup(&mut self) -> (r: Vec<CleanupStep>)
        ensures
            r@ == cleanup_steps(*old(self)),
            final(self).cleaned,
            *final(self) == (if old(self).cleaned {
                *old(self)
            } else {
                RuntimeResources {
                    engine: false,
                    event_thread: false,
                    preview: false,
                    output_visibility: false,
                    cleaned: true,
                }
            }),
    {
        let mut steps: Vec<CleanupStep> = Vec::new();
        if self.cleaned {
            assert(steps@ =~= cleanup_steps(*old(self)));
            return steps;
        }
        self.cleaned = true;
        steps.push(CleanupStep::UnregisterHotkeys);
        steps.push(CleanupStep::StopEvents);
        if self.engine {
            self.engine = false;
            steps.push(CleanupStep::ShutdownEngine);
        }
        if self.event_thread {
            self.event_thread = false;
            steps.push(CleanupStep::JoinEvents);
        }
        if self.preview {
            self.preview = false;
            steps.push(CleanupStep::DestroyPreview);
        }
        if self.output_visibility {
            self.output_visibility = false;
            steps.push(CleanupStep::RestoreVisibility);
        }
        steps.push(CleanupStep::ClearPortal);
        assert(steps@ =~= cleanup_steps(*old(self)));
        steps
    }
}

/// Everything that exists is cleaned up, and nothing else: the hotkeys first, then the
/// events are told to stop before the engine ends and joined after it, and the portal
/// comes last.
pub proof fn law_cleanup_takes_what_exists(r: RuntimeResources)
    requires
        !r.cleaned,
    ensures
        ({
            let steps = cleanup_steps(r);
            let engine: int = if r.engine { 1 } else { 0 };
            let events: int = if r.event_thread { 1 } else { 0 };
            let preview: int = if r.preview { 1 } else { 0 };
            let output: int = if r.output_visibility { 1 } else { 0 };
            &&& steps.len() == 3 + engine + events + preview + output
            &&& steps[0] == CleanupStep::UnregisterHotkeys
            &&& steps[1] == CleanupStep::StopEvents
            &&& r.engine ==> steps[2] == CleanupStep::ShutdownEngine
            &&& r.event_thread ==> steps[2 + engine] == CleanupStep::JoinEvents
            &&& r.preview ==> steps[2 + engine + events] == CleanupStep::DestroyPreview
            &&& r.output_visibility ==> steps[2 + engine + events + preview]
                == CleanupStep::RestoreVisibility
            &&& steps.last() == CleanupStep::ClearPortal
        }),
{
}

/// Asked to end twice, the studio is taken down once.
pub proof fn law_cleanup_happens_once(r: RuntimeResources)
    ensures
        cleanup_steps(RuntimeResources { cleaned: true, ..r }).len() == 0,
{
}

/// The path of a chosen file; `unicode` is the path as text, where it is text.
pub fn chosen_file(is_file: bool, unicode: Option<String>) -> (r: Result<String, String>)
    ensures
        match r {
            Ok(path) => is_file && unicode == Some(path),
            Err(message) => message@ == (if !is_file {
                "Ausgewählter Pfad ist keine reguläre Datei"@
            } else {
                "Ausgewählter Pfad ist kein gültiger Unicode-Pfad"@
            }),
        },
        r is Ok <==> is_file && unicode is Some,
{
    if !is_file {
        return Err("Ausgewählter Pfad ist keine reguläre Datei".to_owned());
    }
    match unicode {
        Some(path) => Ok(path),
        None => Err("Ausgewählter Pfad ist kein gültiger Unicode-Pfad".to_owned()),
    }
}

/// Whether a window is one that the engine renders to.
pub fn is_rendered_window(label: &str) -> (r: bool)
    ensures
        r == (label@ == "program"@ || label@ == "preview"@),
{
    same_text(label, "program") || same_text(label, "preview")
}

} // verus!
