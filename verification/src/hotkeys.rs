//! Hotkeys of scenes: changing one, removing its scene, and what is undone when a
//! step fails.
//!
//! The system registers hotkeys and the engine stores them; both can refuse. The
//! caller does what a step asks for and hands back the reply.

use vstd::prelude::*;
use vstd::string::*;

use crate::engine_event;
use crate::event_gate;
use crate::event_gate::EventGate;
use crate::text::{joined, same_text};

verus! {

/// The hotkey of a scene.
pub struct SceneHotkey {
    pub scene_id: u128,
    pub hotkey: Option<String>,
}

/// What an optional hotkey says.
pub open spec fn hotkey_view(hotkey: Option<String>) -> Option<Seq<char>> {
    match hotkey {
        Some(hotkey) => Some(hotkey@),
        None => None,
    }
}

/// `i` is the first entry of the scene.
pub open spec fn is_first_scene(scenes: Seq<SceneHotkey>, scene_id: u128, i: int) -> bool {
    &&& 0 <= i < scenes.len()
    &&& scenes[i].scene_id == scene_id
    &&& forall|j: int| 0 <= j < i ==> (#[trigger] scenes[j]).scene_id != scene_id
}

/// Whether the scene exists.
pub open spec fn has_scene(scenes: Seq<SceneHotkey>, scene_id: u128) -> bool {
    exists|i: int| 0 <= i < scenes.len() && (#[trigger] scenes[i]).scene_id == scene_id
}

/// Position of the scene.
pub fn find_scene(scenes: &Vec<SceneHotkey>, scene_id: u128) -> (r: Option<usize>)
    ensures
        match r {
            Some(i) => is_first_scene(scenes@, scene_id, i as int),
            None => !has_scene(scenes@, scene_id),
        },
{
    let mut i: usize = 0;
    while i < scenes.len()
        invariant
            i <= scenes@.len(),
            forall|j: int| 0 <= j < i ==> (#[trigger] scenes@[j]).scene_id != scene_id,
        decreases scenes@.len() - i,
    {
        if scenes[i].scene_id == scene_id {
            return Some(i);
        }
        i += 1;
    }
    None
}

/// What the caller does next.
pub enum HotkeyStep {
    /// Ask whether the hotkey is registered.
    IsRegistered(String),
    /// Register the hotkey.
    Register(String),
    /// Unregister the hotkey.
    Unregister(String),
    /// Have the engine store the change.
    Store,
    /// The change is made.
    Done,
    /// The change is refused.
    Refused(String),
}

/// What a step says.
pub enum StepView {
    IsRegistered(Seq<char>),
    Register(Seq<char>),
    Unregister(Seq<char>),
    Store,
    Done,
    Refused(Seq<char>),
}

impl View for HotkeyStep {
    type V = StepView;

    open spec fn view(&self) -> StepView {
        match *self {
            HotkeyStep::IsRegistered(s) => StepView::IsRegistered(s@),
            HotkeyStep::Register(s) => StepView::Register(s@),
            HotkeyStep::Unregister(s) => StepView::Unregister(s@),
            HotkeyStep::Store => StepView::Store,
            HotkeyStep::Done => StepView::Done,
            HotkeyStep::Refused(s) => StepView::Refused(s@),
        }
    }
}

/// The reply to a step.
pub enum Reply {
    /// The answer to a question.
    Answer(bool),
    /// The step was done.
    Success,
    /// The step failed.
    Failure(String),
}

/// What a reply says.
pub enum ReplyView {
    Answer(bool),
    Success,
    Failure(Seq<char>),
}

impl View for Reply {
    type V = ReplyView;

    open spec fn view(&self) -> ReplyView {
        match *self {
            Reply::Answer(answer) => ReplyView::Answer(answer),
            Reply::Success => ReplyView::Success,
            Reply::Failure(reason) => ReplyView::Failure(reason@),
        }
    }
}

/// How far a change has come.
#[derive(Clone, Copy, Debug, PartialEq, Eq, Structural)]
pub enum ChangePhase {
    /// The same hotkey again: is it still registered?
    CheckSame,
    /// The same hotkey again: it is registered anew.
    RenewSame,
    /// The new hotkey is registered.
    RegisterNew,
    /// Is the old hotkey registered?
    CheckOld,
    /// The old hotkey is unregistered.
    UnregisterOld,
    /// The old hotkey stays: the new one is unregistered again.
    UndoNew,
    /// The engine stores the new hotkey.
    Store,
    /// The engine refused: the new hotkey is unregistered again.
    RollbackNew,
    /// The engine refused: the old hotkey is registered again.
    RollbackOld,
    /// The change is made.
    Done,
    /// The change is refused.
    Refused,
}

/// A change of a scene's hotkey.
pub struct HotkeyChange {
    pub old: Option<String>,
    pub new: Option<String>,
    pub old_was_registered: bool,
    pub rollback_failed: bool,
    pub message: String,
    pub phase: ChangePhase,
}

/// What a change says.
pub struct ChangeView {
    pub old: Option<Seq<char>>,
    pub new: Option<Seq<char>>,
    pub old_was_registered: bool,
    pub rollback_failed: bool,
    pub message: Seq<char>,
    pub phase: ChangePhase,
}

impl View for HotkeyChange {
    type V = ChangeView;

    open spec fn view(&self) -> ChangeView {
        ChangeView {
            old: hotkey_view(self.old),
            new: hotkey_view(self.new),
            old_was_registered: self.old_was_registered,
            rollback_failed: self.rollback_failed,
            message: self.message@,
            phase: self.phase,
        }
    }
}

/// The change after it moved to another phase.
pub open spec fn at(c: ChangeView, phase: ChangePhase) -> ChangeView {
    ChangeView { phase, ..c }
}

/// The change after it was refused.
pub open spec fn refused(c: ChangeView, message: Seq<char>) -> ChangeView {
    ChangeView { message, phase: ChangePhase::Refused, ..c }
}

/// What comes once the new hotkey is in place.
pub open spec fn after_new(c: ChangeView) -> ChangeView {
    at(
        c,
        if c.old is Some {
            ChangePhase::CheckOld
        } else {
            ChangePhase::Store
        },
    )
}

/// What comes once the new hotkey is out of the way after a refusal of the engine.
pub open spec fn after_rollback(c: ChangeView) -> ChangeView {
    at(
        c,
        if c.old_was_registered && c.old is Some {
            ChangePhase::RollbackOld
        } else {
            ChangePhase::Refused
        },
    )
}

/// The message after one more thing could not be undone.
pub open spec fn with_rollback_failure(c: ChangeView, failure: Seq<char>) -> ChangeView {
    ChangeView {
        message: if c.rollback_failed {
            c.message + "; "@ + failure
        } else {
            c.message + "; Hotkey-Rollback fehlgeschlagen: "@ + failure
        },
        rollback_failed: true,
        ..c
    }
}

/// A change before its first step.
pub open spec fn first_phase(old: Option<Seq<char>>, new: Option<Seq<char>>) -> ChangeView {
    let c = ChangeView {
        old,
        new,
        old_was_registered: false,
        rollback_failed: false,
        message: Seq::empty(),
        phase: ChangePhase::Done,
    };
    if old == new {
        if new is Some {
            at(c, ChangePhase::CheckSame)
        } else {
            c
        }
    } else if new is Some {
        at(c, ChangePhase::RegisterNew)
    } else {
        after_new(c)
    }
}

/// The change after a reply; none where the reply does not fit the step.
pub open spec fn advanced(c: ChangeView, reply: ReplyView) -> Option<ChangeView> {
    match (c.phase, reply) {
        (ChangePhase::CheckSame, ReplyView::Answer(registered)) => Some(
            at(
                c,
                if registered {
                    ChangePhase::Done
                } else {
                    ChangePhase::RenewSame
                },
            ),
        ),
        (ChangePhase::RenewSame, ReplyView::Success) => Some(at(c, ChangePhase::Done)),
        (ChangePhase::RenewSame, ReplyView::Failure(e)) => Some(
            refused(c, c.new->0 + ": "@ + e),
        ),
        (ChangePhase::RegisterNew, ReplyView::Success) => Some(after_new(c)),
        (ChangePhase::RegisterNew, ReplyView::Failure(e)) => Some(
            refused(c, c.new->0 + ": "@ + e),
        ),
        (ChangePhase::CheckOld, ReplyView::Answer(registered)) => Some(
            ChangeView {
                old_was_registered: registered,
                phase: if registered {
                    ChangePhase::UnregisterOld
                } else {
                    ChangePhase::Store
                },
                ..c
            },
        ),
        (ChangePhase::UnregisterOld, ReplyView::Success) => Some(at(c, ChangePhase::Store)),
        (ChangePhase::UnregisterOld, ReplyView::Failure(e)) => Some(
            ChangeView {
                message: "Alter Hotkey "@ + c.old->0 + " konnte nicht entfernt werden: "@ + e,
                phase: if c.new is Some {
                    ChangePhase::UndoNew
                } else {
                    ChangePhase::Refused
                },
                ..c
            },
        ),
        (ChangePhase::UndoNew, ReplyView::Success) => Some(at(c, ChangePhase::Refused)),
        (ChangePhase::UndoNew, ReplyView::Failure(e)) => Some(
            ChangeView {
                rollback_failed: true,
                ..refused(
                    c,
                    c.message + "; neuer Hotkey "@ + c.new->0
                        + " konnte nicht zurückgerollt werden: "@ + e,
                )
            },
        ),
        (ChangePhase::Store, ReplyView::Success) => Some(at(c, ChangePhase::Done)),
        (ChangePhase::Store, ReplyView::Failure(e)) => {
            let failed = ChangeView { message: e, ..c };
            Some(
                if c.new is Some {
                    at(failed, ChangePhase::RollbackNew)
                } else {
                    after_rollback(failed)
                },
            )
        },
        (ChangePhase::RollbackNew, ReplyView::Success) => Some(after_rollback(c)),
        (ChangePhase::RollbackNew, ReplyView::Failure(e)) => Some(
            after_rollback(
                with_rollback_failure(
                    c,
                    "neuer Hotkey "@ + c.new->0 + " konnte nicht entfernt werden: "@ + e,
                ),
            ),
        ),
        (ChangePhase::RollbackOld, ReplyView::Success) => Some(at(c, ChangePhase::Refused)),
        (ChangePhase::RollbackOld, ReplyView::Failure(e)) => Some(
            at(
                with_rollback_failure(
                    c,
                    "alter Hotkey "@ + c.old->0 + " konnte nicht wiederhergestellt werden: "@ + e,
                ),
                ChangePhase::Refused,
            ),
        ),
        _ => None,
    }
}

/// What the caller does in a phase.
pub open spec fn step_of(c: ChangeView) -> StepView {
    match c.phase {
        ChangePhase::CheckSame => StepView::IsRegistered(c.new->0),
        ChangePhase::RenewSame => StepView::Register(c.new->0),
        ChangePhase::RegisterNew => StepView::Register(c.new->0),
        ChangePhase::CheckOld => StepView::IsRegistered(c.old->0),
        ChangePhase::UnregisterOld => StepView::Unregister(c.old->0),
        ChangePhase::UndoNew => StepView::Unregister(c.new->0),
        ChangePhase::Store => StepView::Store,
        ChangePhase::RollbackNew => StepView::Unregister(c.new->0),
        ChangePhase::RollbackOld => StepView::Register(c.old->0),
        ChangePhase::Done => StepView::Done,
        ChangePhase::Refused => StepView::Refused(c.message),
    }
}

/// Whether a change has the hotkeys that its phase works on.
pub open spec fn is_sound(c: ChangeView) -> bool {
    match c.phase {
        ChangePhase::CheckSame => c.new is Some,
        ChangePhase::RenewSame => c.new is Some,
        ChangePhase::RegisterNew => c.new is Some,
        ChangePhase::CheckOld => c.old is Some,
        ChangePhase::UnregisterOld => c.old is Some,
        ChangePhase::UndoNew => c.new is Some,
        ChangePhase::RollbackNew => c.new is Some,
        ChangePhase::RollbackOld => c.old is Some,
        _ => true,
    }
}

fn joined3(a: &str, b: &str, c: &str) -> (r: String)
    ensures
        r@ == a@ + b@ + c@,
{
    let ab = joined(a, b);
    joined(ab.as_str(), c)
}

fn shortcut(hotkey: &Option<String>) -> (r: &str)
    requires
        hotkey is Some,
    ensures
        r@ == hotkey_view(*hotkey)->0,
{
    match hotkey {
        Some(hotkey) => hotkey.as_str(),
        None => "",
    }
}

fn same_hotkey(a: &Option<String>, b: &Option<String>) -> (r: bool)
    ensures
        r == (hotkey_view(*a) == hotkey_view(*b)),
{
    match (a, b) {
        (Some(a), Some(b)) => same_text(a.as_str(), b.as_str()),
        (None, None) => true,
        _ => false,
    }
}

impl HotkeyChange {
    /// The change has the hotkeys that its phase works on.
    pub open spec fn wf(self) -> bool {
        is_sound(self@)
    }

    /// Begins to change the hotkey of a scene.
    pub fn begin(scenes: &Vec<SceneHotkey>, scene_id: u128, new: Option<String>) -> (r: Result<
        Self,
        String,
    >)
        ensures
            match r {
                Ok(change) => {
                    &&& change.wf()
                    &&& exists|i: int| #[trigger]
                        is_first_scene(scenes@, scene_id, i) && change@ == first_phase(
                            hotkey_view(scenes@[i].hotkey),
                            hotkey_view(new),
                        )
                },
                Err(message) => {
                    &&& !has_scene(scenes@, scene_id)
                    &&& message@ == "Szene nicht gefunden"@
                },
            },
    {
        let scene: usize = match find_scene(scenes, scene_id) {
            Some(scene) => scene,
            None => {
                return Err("Szene nicht gefunden".to_owned());
            },
        };
        let old = match &scenes[scene].hotkey {
            Some(hotkey) => Some(hotkey.clone()),
            None => None,
        };
        let phase = if same_hotkey(&old, &new) {
            if new.is_some() {
                ChangePhase::CheckSame
            } else {
                ChangePhase::Done
            }
        } else if new.is_some() {
            ChangePhase::RegisterNew
        } else if old.is_some() {
            ChangePhase::CheckOld
        } else {
            ChangePhase::Store
        };
        proof {
            reveal_strlit("");
        }
        let change = HotkeyChange {
            old,
            new,
            old_was_registered: false,
            rollback_failed: false,
            message: "".to_owned(),
            phase,
        };
        assert(change.message@ =~= Seq::<char>::empty());
        assert(is_first_scene(scenes@, scene_id, scene as int));
        Ok(change)
    }

    /// What the caller does next.
    pub fn step(&self) -> (r: HotkeyStep)
        requires
            self.wf(),
        ensures
            r@ == step_of(self@),
    {
        match self.phase {
            ChangePhase::CheckSame => HotkeyStep::IsRegistered(shortcut(&self.new).to_owned()),
            ChangePhase::RenewSame => HotkeyStep::Register(shortcut(&self.new).to_owned()),
            ChangePhase::RegisterNew => HotkeyStep::Register(shortcut(&self.new).to_owned()),
            ChangePhase::CheckOld => HotkeyStep::IsRegistered(shortcut(&self.old).to_owned()),
            ChangePhase::UnregisterOld => HotkeyStep::Unregister(shortcut(&self.old).to_owned()),
            ChangePhase::UndoNew => HotkeyStep::Unregister(shortcut(&self.new).to_owned()),
            ChangePhase::Store => HotkeyStep::Store,
            ChangePhase::RollbackNew => HotkeyStep::Unregister(shortcut(&self.new).to_owned()),
            ChangePhase::RollbackOld => HotkeyStep::Register(shortcut(&self.old).to_owned()),
            ChangePhase::Done => HotkeyStep::Done,
            ChangePhase::Refused => HotkeyStep::Refused(self.message.clone()),
        }
    }

    fn phase_after_new(&self) -> (r: ChangePhase)
        ensures
            at(self@, r) == after_new(self@),
    {
        if self.old.is_some() {
            ChangePhase::CheckOld
        } else {
            ChangePhase::Store
        }
    }

    fn phase_after_rollback(&self) -> (r: ChangePhase)
        ensures
            at(self@, r) == after_rollback(self@),
    {
        if self.old_was_registered && self.old.is_some() {
            ChangePhase::RollbackOld
        } else {
            ChangePhase::Refused
        }
    }

    fn note_rollback_failure(&mut self, failure: &str)
        ensures
            final(self)@ == with_rollback_failure(old(self)@, failure@),
    {
        self.message = if self.rollback_failed {
            joined3(self.message.as_str(), "; ", failure)
        } else {
            joined3(self.message.as_str(), "; Hotkey-Rollback fehlgeschlagen: ", failure)
        };
        self.rollback_failed = true;
    }

    /// Takes the reply to the current step; false where it does not fit.
    pub fn on_reply(&mut self, reply: Reply) -> (r: bool)
        requires
            old(self).wf(),
        ensures
            final(self).wf(),
            r == (advanced(old(self)@, reply@) is Some),
            final(self)@ == (match advanced(old(self)@, reply@) {
                Some(next) => next,
                None => old(self)@,
            }),
    {
        match (self.phase, reply) {
            (ChangePhase::CheckSame, Reply::Answer(registered)) => {
                self.phase = if registered {
                    ChangePhase::Done
                } else {
                    ChangePhase::RenewSame
                };
            },
            (ChangePhase::RenewSame, Reply::Success) => {
                self.phase = ChangePhase::Done;
            },
            (ChangePhase::RenewSame, Reply::Failure(e)) => {
                self.message = joined3(shortcut(&self.new), ": ", e.as_str());
                self.phase = ChangePhase::Refused;
            },
            (ChangePhase::RegisterNew, Reply::Success) => {
                self.phase = self.phase_after_new();
            },
            (ChangePhase::RegisterNew, Reply::Failure(e)) => {
                self.message = joined3(shortcut(&self.new), ": ", e.as_str());
                self.phase = ChangePhase::Refused;
            },
            (ChangePhase::CheckOld, Reply::Answer(registered)) => {
                self.old_was_registered = registered;
                self.phase = if registered {
                    ChangePhase::UnregisterOld
                } else {
                    ChangePhase::Store
                };
            },
            (ChangePhase::UnregisterOld, Reply::Success) => {
                self.phase = ChangePhase::Store;
            },
            (ChangePhase::UnregisterOld, Reply::Failure(e)) => {
                let head = joined3(
                    "Alter Hotkey ",
                    shortcut(&self.old),
                    " konnte nicht entfernt werden: ",
                );
                self.message = joined(head.as_str(), e.as_str());
                self.phase = if self.new.is_some() {
                    ChangePhase::UndoNew
                } else {
                    ChangePhase::Refused
                };
            },
            (ChangePhase::UndoNew, Reply::Success) => {
                self.phase = ChangePhase::Refused;
            },
            (ChangePhase::UndoNew, Reply::Failure(e)) => {
                let head = joined3(self.message.as_str(), "; neuer Hotkey ", shortcut(&self.new));
                self.message = joined3(
                    head.as_str(),
                    " konnte nicht zurückgerollt werden: ",
                    e.as_str(),
                );
                self.rollback_failed = true;
                self.phase = ChangePhase::Refused;
            },
            (ChangePhase::Store, Reply::Success) => {
                self.phase = ChangePhase::Done;
            },
            (ChangePhase::Store, Reply::Failure(e)) => {
                self.message = e;
                self.phase = if self.new.is_some() {
                    ChangePhase::RollbackNew
                } else {
                    self.phase_after_rollback()
                };
            },
            (ChangePhase::RollbackNew, Reply::Success) => {
                self.phase = self.phase_after_rollback();
            },
            (ChangePhase::RollbackNew, Reply::Failure(e)) => {
                let head = joined3(
                    "neuer Hotkey ",
                    shortcut(&self.new),
                    " konnte nicht entfernt werden: ",
                );
                let failure = joined(head.as_str(), e.as_str());
                self.note_rollback_failure(failure.as_str());
                self.phase = self.phase_after_rollback();
            },
            (ChangePhase::RollbackOld, Reply::Success) => {
                self.phase = ChangePhase::Refused;
            },
            (ChangePhase::RollbackOld, Reply::Failure(e)) => {
                let head = joined3(
                    "alter Hotkey ",
                    shortcut(&self.old),
                    " konnte nicht wiederhergestellt werden: ",
                );
                let failure = joined(head.as_str(), e.as_str());
                self.note_rollback_failure(failure.as_str());
                self.phase = ChangePhase::Refused;
            },
            _ => {
                return false;
            },
        }
        true
    }
}

/// The registered hotkeys after a step that the system was asked for.
pub open spec fn registered_after(
    registered: Set<Seq<char>>,
    step: StepView,
    reply: ReplyView,
) -> Set<Seq<char>> {
    match (step, reply) {
        (StepView::Register(hotkey), ReplyView::Success) => registered.insert(hotkey),
        (StepView::Unregister(hotkey), ReplyView::Success) => registered.remove(hotkey),
        _ => registered,
    }
}

/// Whether a reply is truthful: a question is answered as things are, and a hotkey
/// that is registered cannot be registered again.
pub open spec fn is_truthful(
    registered: Set<Seq<char>>,
    step: StepView,
    reply: ReplyView,
) -> bool {
    match (step, reply) {
        (StepView::IsRegistered(hotkey), ReplyView::Answer(answer)) => answer
            == registered.contains(hotkey),
        (StepView::Register(hotkey), ReplyView::Success) => !registered.contains(hotkey),
        _ => true,
    }
}

/// The registered hotkeys with the new one.
pub open spec fn with_new(c: ChangeView, registered: Set<Seq<char>>) -> Set<Seq<char>> {
    match c.new {
        Some(hotkey) => registered.insert(hotkey),
        None => registered,
    }
}

/// The registered hotkeys without the old one, where it was registered.
pub open spec fn without_old(c: ChangeView, registered: Set<Seq<char>>) -> Set<Seq<char>> {
    if c.old_was_registered && c.old is Some {
        registered.remove(c.old->0)
    } else {
        registered
    }
}

/// How the registered hotkeys of a running change relate to those before it.
pub open spec fn keeps_track(
    c: ChangeView,
    before: Set<Seq<char>>,
    now: Set<Seq<char>>,
) -> bool {
    let fresh = c.new is Some ==> !before.contains(c.new->0);
    let known = c.old_was_registered ==> c.old is Some && before.contains(c.old->0);
    let asked = c.old is Some && !c.old_was_registered ==> !before.contains(c.old->0);
    &&& known
    &&& match c.phase {
        ChangePhase::CheckSame => now == before && c.old == c.new,
        ChangePhase::RenewSame => now == before && c.old == c.new && fresh,
        ChangePhase::RegisterNew => {
            &&& now == before
            &&& c.old != c.new
            &&& !c.old_was_registered
            &&& !c.rollback_failed
        },
        ChangePhase::CheckOld => {
            &&& now == with_new(c, before)
            &&& fresh
            &&& c.old != c.new
            &&& !c.old_was_registered
            &&& !c.rollback_failed
        },
        ChangePhase::UnregisterOld => {
            &&& now == with_new(c, before)
            &&& fresh
            &&& c.old != c.new
            &&& c.old_was_registered
            &&& !c.rollback_failed
        },
        ChangePhase::UndoNew => now == with_new(c, before) && fresh,
        ChangePhase::Store => {
            &&& now == without_old(c, with_new(c, before))
            &&& fresh
            &&& asked
            &&& c.old != c.new
            &&& !c.rollback_failed
        },
        ChangePhase::RollbackNew => {
            &&& now == without_old(c, with_new(c, before))
            &&& fresh
            &&& c.old != c.new
            &&& !c.rollback_failed
        },
        ChangePhase::RollbackOld => {
            &&& c.old_was_registered
            &&& !c.rollback_failed ==> now == before.remove(c.old->0)
        },
        ChangePhase::Done => if c.old == c.new {
            now == with_new(c, before)
        } else {
            now == without_old(c, with_new(c, before)) && asked
        },
        ChangePhase::Refused => !c.rollback_failed ==> now == before,
    }
}

proof fn lemma_reply_keeps_track(
    c: ChangeView,
    before: Set<Seq<char>>,
    now: Set<Seq<char>>,
    reply: ReplyView,
)
    requires
        is_sound(c),
        keeps_track(c, before, now),
        is_truthful(now, step_of(c), reply),
        advanced(c, reply) is Some,
    ensures
        is_sound(advanced(c, reply)->0),
        keeps_track(advanced(c, reply)->0, before, registered_after(now, step_of(c), reply)),
        steps_left(advanced(c, reply)->0) < steps_left(c),
        (advanced(c, reply)->0).old == c.old,
        (advanced(c, reply)->0).new == c.new,
{
    if c.new is Some && !before.contains(c.new->0) {
        assert(before.insert(c.new->0).remove(c.new->0) =~= before);
        if c.old is Some {
            assert(before.insert(c.new->0).remove(c.old->0).remove(c.new->0) =~= before.remove(
                c.old->0,
            ).remove(c.new->0));
            assert(before.remove(c.old->0).remove(c.new->0) =~= before.remove(c.old->0));
        }
    }
    if c.old is Some && before.contains(c.old->0) {
        assert(before.remove(c.old->0).insert(c.old->0) =~= before);
    }
    if c.phase == ChangePhase::CheckSame && reply == ReplyView::Answer(true) {
        assert(with_new(c, before) =~= before);
    }
}

/// How many steps a change can still take.
pub open spec fn steps_left(c: ChangeView) -> nat {
    match c.phase {
        ChangePhase::RegisterNew => 6,
        ChangePhase::CheckOld => 5,
        ChangePhase::UnregisterOld => 4,
        ChangePhase::Store => 3,
        ChangePhase::RollbackNew => 2,
        ChangePhase::CheckSame => 2,
        ChangePhase::UndoNew => 1,
        ChangePhase::RollbackOld => 1,
        ChangePhase::RenewSame => 1,
        ChangePhase::Done => 0,
        ChangePhase::Refused => 0,
    }
}

/// A change and the registered hotkeys after replies; none where a reply does not fit
/// its step or is not truthful.
pub open spec fn change_after(
    c: ChangeView,
    registered: Set<Seq<char>>,
    replies: Seq<ReplyView>,
) -> Option<(ChangeView, Set<Seq<char>>)>
    decreases replies.len(),
{
    if replies.len() == 0 {
        Some((c, registered))
    } else {
        match change_after(c, registered, replies.drop_last()) {
            Some((then, now)) => match advanced(then, replies.last()) {
                Some(next) if is_truthful(now, step_of(then), replies.last()) => Some(
                    (next, registered_after(now, step_of(then), replies.last())),
                ),
                _ => None,
            },
            None => None,
        }
    }
}

proof fn lemma_change_keeps_track(
    c: ChangeView,
    registered: Set<Seq<char>>,
    replies: Seq<ReplyView>,
)
    requires
        is_sound(c),
        keeps_track(c, registered, registered),
        change_after(c, registered, replies) is Some,
    ensures
        ({
            let (then, now) = change_after(c, registered, replies)->0;
            &&& is_sound(then)
            &&& keeps_track(then, registered, now)
            &&& steps_left(then) + replies.len() <= steps_left(c)
            &&& then.old == c.old
            &&& then.new == c.new
        }),
    decreases replies.len(),
{
    if replies.len() > 0 {
        lemma_change_keeps_track(c, registered, replies.drop_last());
        let (then, now) = change_after(c, registered, replies.drop_last())->0;
        lemma_reply_keeps_track(then, registered, now, replies.last());
    }
}

/// A changed hotkey is stored before the change counts as made, and nothing is stored
/// before the new one is registered and the old one is gone. What the engine says where
/// it refuses is what the change is refused with, unless undoing it fails as well.
pub proof fn law_change_is_stored_last(c: ChangeView, reply: ReplyView)
    requires
        advanced(c, reply) is Some,
    ensures
        ({
            let next = advanced(c, reply)->0;
            &&& next.old == c.old && next.new == c.new
            &&& c.phase == ChangePhase::Store && reply == ReplyView::Success ==> next.phase
                == ChangePhase::Done
            &&& next.phase == ChangePhase::Done ==> (c.phase == ChangePhase::Store && reply
                == ReplyView::Success) || c.phase == ChangePhase::CheckSame || c.phase
                == ChangePhase::RenewSame
            &&& next.phase == ChangePhase::Store ==> (c.phase == ChangePhase::RegisterNew && reply
                == ReplyView::Success && c.old is None) || (c.phase == ChangePhase::CheckOld
                && reply == ReplyView::Answer(false)) || (c.phase == ChangePhase::UnregisterOld
                && reply == ReplyView::Success)
            &&& c.phase == ChangePhase::Store && reply is Failure ==> next.message
                == reply->Failure_0 && next.phase != ChangePhase::Done
            &&& c.phase == ChangePhase::RollbackNew && reply == ReplyView::Success ==> next.message
                == c.message
            &&& c.phase == ChangePhase::RollbackOld && reply == ReplyView::Success ==> next.message
                == c.message && next.phase == ChangePhase::Refused
        }),
{
}

/// A change begins with asking after a hotkey that stays, with registering one that is
/// new, with asking after the old one where it goes without a successor, and is made at
/// once where there is none at all.
pub proof fn law_change_begins_with_what_is_needed(old: Option<Seq<char>>, new: Option<Seq<char>>)
    ensures
        new is Some && old == new ==> step_of(first_phase(old, new)) == StepView::IsRegistered(
            new->0,
        ),
        new is Some && old != new ==> step_of(first_phase(old, new)) == StepView::Register(new->0),
        new is None && old is Some ==> step_of(first_phase(old, new)) == StepView::IsRegistered(
            old->0,
        ),
        new is None && old is None ==> step_of(first_phase(old, new)) == StepView::Done,
{
}

/// Whatever the system and the engine reply: a change takes at most six steps; one
/// that was made leaves the new hotkey registered, the old one not and all others as
/// they were; and a refused one leaves everything as it was, unless undoing failed as
/// well.
pub proof fn law_refused_change_is_undone(
    old: Option<Seq<char>>,
    new: Option<Seq<char>>,
    registered: Set<Seq<char>>,
    replies: Seq<ReplyView>,
)
    requires
        change_after(first_phase(old, new), registered, replies) is Some,
    ensures
        ({
            let (c, now) = change_after(first_phase(old, new), registered, replies)->0;
            &&& replies.len() <= 6
            &&& c.phase == ChangePhase::Refused && !c.rollback_failed ==> now == registered
            &&& c.phase == ChangePhase::Done ==> forall|hotkey: Seq<char>| #[trigger]
                now.contains(hotkey) <==> new == Some(hotkey) || (registered.contains(hotkey) && old
                    != Some(hotkey))
        }),
{
    lemma_change_keeps_track(first_phase(old, new), registered, replies);
}

// ---------------------------------------------------------------------------
// Removing a scene
// ---------------------------------------------------------------------------

/// How far the removal of a scene has come.
#[derive(Clone, Copy, Debug, PartialEq, Eq, Structural)]
pub enum RemovalPhase {
    /// Is the hotkey registered?
    Check,
    /// The hotkey is unregistered.
    Unregister,
    /// The engine removes the scene.
    Store,
    /// The engine refused: the hotkey is registered again.
    Restore,
    /// The scene is removed.
    Done,
    /// The removal is refused.
    Refused,
}

/// The removal of a scene. The hotkey goes first: where that fails the scene stays,
/// rather than a hotkey without a scene.
pub struct SceneRemoval {
    pub hotkey: Option<String>,
    pub unregistered: bool,
    pub rollback_failed: bool,
    pub message: String,
    pub phase: RemovalPhase,
}

/// What a removal says.
pub struct RemovalView {
    pub hotkey: Option<Seq<char>>,
    pub unregistered: bool,
    pub rollback_failed: bool,
    pub message: Seq<char>,
    pub phase: RemovalPhase,
}

impl View for SceneRemoval {
    type V = RemovalView;

    open spec fn view(&self) -> RemovalView {
        RemovalView {
            hotkey: hotkey_view(self.hotkey),
            unregistered: self.unregistered,
            rollback_failed: self.rollback_failed,
            message: self.message@,
            phase: self.phase,
        }
    }
}

/// A removal before its first step.
pub open spec fn first_removal(hotkey: Option<Seq<char>>) -> RemovalView {
    RemovalView {
        hotkey,
        unregistered: false,
        rollback_failed: false,
        message: Seq::empty(),
        phase: if hotkey is Some {
            RemovalPhase::Check
        } else {
            RemovalPhase::Store
        },
    }
}

/// The removal after a reply; none where the reply does not fit the step.
pub open spec fn removal_advanced(c: RemovalView, reply: ReplyView) -> Option<RemovalView> {
    match (c.phase, reply) {
        (RemovalPhase::Check, ReplyView::Answer(registered)) => Some(
            RemovalView {
                phase: if registered {
                    RemovalPhase::Unregister
                } else {
                    RemovalPhase::Store
                },
                ..c
            },
        ),
        (RemovalPhase::Unregister, ReplyView::Success) => Some(
            RemovalView { unregistered: true, phase: RemovalPhase::Store, ..c },
        ),
        (RemovalPhase::Unregister, ReplyView::Failure(e)) => Some(
            RemovalView {
                message: "Hotkey "@ + c.hotkey->0 + " konnte nicht entfernt werden: "@ + e,
                phase: RemovalPhase::Refused,
                ..c
            },
        ),
        (RemovalPhase::Store, ReplyView::Success) => Some(
            RemovalView { phase: RemovalPhase::Done, ..c },
        ),
        (RemovalPhase::Store, ReplyView::Failure(e)) => Some(
            RemovalView {
                message: e,
                phase: if c.unregistered && c.hotkey is Some {
                    RemovalPhase::Restore
                } else {
                    RemovalPhase::Refused
                },
                ..c
            },
        ),
        (RemovalPhase::Restore, ReplyView::Success) => Some(
            RemovalView { phase: RemovalPhase::Refused, ..c },
        ),
        (RemovalPhase::Restore, ReplyView::Failure(e)) => Some(
            RemovalView {
                message: c.message + "; Hotkey-Rollback für "@ + c.hotkey->0
                    + " fehlgeschlagen: "@ + e,
                rollback_failed: true,
                phase: RemovalPhase::Refused,
                ..c
            },
        ),
        _ => None,
    }
}

/// What the caller does in a phase of a removal.
pub open spec fn removal_step(c: RemovalView) -> StepView {
    match c.phase {
        RemovalPhase::Check => StepView::IsRegistered(c.hotkey->0),
        RemovalPhase::Unregister => StepView::Unregister(c.hotkey->0),
        RemovalPhase::Store => StepView::Store,
        RemovalPhase::Restore => StepView::Register(c.hotkey->0),
        RemovalPhase::Done => StepView::Done,
        RemovalPhase::Refused => StepView::Refused(c.message),
    }
}

/// Whether a removal has the hotkey that its phase works on.
pub open spec fn removal_is_sound(c: RemovalView) -> bool {
    match c.phase {
        RemovalPhase::Check => c.hotkey is Some,
        RemovalPhase::Unregister => c.hotkey is Some,
        RemovalPhase::Restore => c.hotkey is Some,
        _ => true,
    }
}

impl SceneRemoval {
    /// The removal has the hotkey that its phase works on.
    pub open spec fn wf(self) -> bool {
        removal_is_sound(self@)
    }

    /// Begins to remove a scene. A scene that is not there has no hotkey; the
    /// engine refuses to remove it.
    pub fn begin(scenes: &Vec<SceneHotkey>, scene_id: u128) -> (r: Self)
        ensures
            r.wf(),
            if has_scene(scenes@, scene_id) {
                exists|i: int| #[trigger]
                    is_first_scene(scenes@, scene_id, i) && r@ == first_removal(
                        hotkey_view(scenes@[i].hotkey),
                    )
            } else {
                r@ == first_removal(None)
            },
    {
        let hotkey = match find_scene(scenes, scene_id) {
            Some(scene) => {
                assert(has_scene(scenes@, scene_id));
                match &scenes[scene].hotkey {
                    Some(hotkey) => Some(hotkey.clone()),
                    None => None,
                }
            },
            None => None,
        };
        let phase = if hotkey.is_some() {
            RemovalPhase::Check
        } else {
            RemovalPhase::Store
        };
        proof {
            reveal_strlit("");
        }
        let removal = SceneRemoval {
            hotkey,
            unregistered: false,
            rollback_failed: false,
            message: "".to_owned(),
            phase,
        };
        assert(removal.message@ =~= Seq::<char>::empty());
        removal
    }

    /// What the caller does next.
    pub fn step(&self) -> (r: HotkeyStep)
        requires
            self.wf(),
        ensures
            r@ == removal_step(self@),
    {
        match self.phase {
            RemovalPhase::Check => HotkeyStep::IsRegistered(shortcut(&self.hotkey).to_owned()),
            RemovalPhase::Unregister => HotkeyStep::Unregister(shortcut(&self.hotkey).to_owned()),
            RemovalPhase::Store => HotkeyStep::Store,
            RemovalPhase::Restore => HotkeyStep::Register(shortcut(&self.hotkey).to_owned()),
            RemovalPhase::Done => HotkeyStep::Done,
            RemovalPhase::Refused => HotkeyStep::Refused(self.message.clone()),
        }
    }

    /// Takes the reply to the current step; false where it does not fit.
    pub fn on_reply(&mut self, reply: Reply) -> (r: bool)
        requires
            old(self).wf(),
        ensures
            final(self).wf(),
            r == (removal_advanced(old(self)@, reply@) is Some),
            final(self)@ == (match removal_advanced(old(self)@, reply@) {
                Some(next) => next,
                None => old(self)@,
            }),
    {
        match (self.phase, reply) {
            (RemovalPhase::Check, Reply::Answer(registered)) => {
                self.phase = if registered {
                    RemovalPhase::Unregister
                } else {
                    RemovalPhase::Store
                };
            },
            (RemovalPhase::Unregister, Reply::Success) => {
                self.unregistered = true;
                self.phase = RemovalPhase::Store;
            },
            (RemovalPhase::Unregister, Reply::Failure(e)) => {
                let head = joined3(
                    "Hotkey ",
                    shortcut(&self.hotkey),
                    " konnte nicht entfernt werden: ",
                );
                self.message = joined(head.as_str(), e.as_str());
                self.phase = RemovalPhase::Refused;
            },
            (RemovalPhase::Store, Reply::Success) => {
                self.phase = RemovalPhase::Done;
            },
            (RemovalPhase::Store, Reply::Failure(e)) => {
                self.message = e;
                self.phase = if self.unregistered && self.hotkey.is_some() {
                    RemovalPhase::Restore
                } else {
                    RemovalPhase::Refused
                };
            },
            (RemovalPhase::Restore, Reply::Success) => {
                self.phase = RemovalPhase::Refused;
            },
            (RemovalPhase::Restore, Reply::Failure(e)) => {
                let head = joined3(
                    self.message.as_str(),
                    "; Hotkey-Rollback für ",
                    shortcut(&self.hotkey),
                );
                self.message = joined3(head.as_str(), " fehlgeschlagen: ", e.as_str());
                self.rollback_failed = true;
                self.phase = RemovalPhase::Refused;
            },
            _ => {
                return false;
            },
        }
        true
    }
}

/// The registered hotkeys without that of the scene.
pub open spec fn without_hotkey(registered: Set<Seq<char>>, hotkey: Option<Seq<char>>) -> Set<
    Seq<char>,
> {
    match hotkey {
        Some(hotkey) => registered.remove(hotkey),
        None => registered,
    }
}

/// How the registered hotkeys of a running removal relate to those before it.
pub open spec fn removal_keeps_track(
    c: RemovalView,
    before: Set<Seq<char>>,
    now: Set<Seq<char>>,
) -> bool {
    let gone = c.hotkey is Some && !c.rollback_failed && before.contains(c.hotkey->0) && now
        == before.remove(c.hotkey->0);
    let idle = now == before && (c.hotkey is Some ==> !before.contains(c.hotkey->0));
    match c.phase {
        RemovalPhase::Check => now == before && !c.unregistered && !c.rollback_failed,
        RemovalPhase::Unregister => {
            &&& now == before
            &&& c.hotkey is Some
            &&& before.contains(c.hotkey->0)
            &&& !c.unregistered
            &&& !c.rollback_failed
        },
        RemovalPhase::Store => if c.unregistered {
            gone
        } else {
            idle
        },
        RemovalPhase::Restore => gone,
        RemovalPhase::Done => now == without_hotkey(before, c.hotkey),
        RemovalPhase::Refused => !c.rollback_failed ==> now == before,
    }
}

proof fn lemma_reply_keeps_removal_track(
    c: RemovalView,
    before: Set<Seq<char>>,
    now: Set<Seq<char>>,
    reply: ReplyView,
)
    requires
        removal_is_sound(c),
        removal_keeps_track(c, before, now),
        is_truthful(now, removal_step(c), reply),
        removal_advanced(c, reply) is Some,
    ensures
        removal_is_sound(removal_advanced(c, reply)->0),
        removal_keeps_track(
            removal_advanced(c, reply)->0,
            before,
            registered_after(now, removal_step(c), reply),
        ),
        removal_steps_left(removal_advanced(c, reply)->0) < removal_steps_left(c),
        (removal_advanced(c, reply)->0).hotkey == c.hotkey,
{
    if c.hotkey is Some {
        if before.contains(c.hotkey->0) {
            assert(before.remove(c.hotkey->0).insert(c.hotkey->0) =~= before);
        } else {
            assert(before.remove(c.hotkey->0) =~= before);
        }
    }
}

/// How many steps a removal can still take.
pub open spec fn removal_steps_left(c: RemovalView) -> nat {
    match c.phase {
        RemovalPhase::Check => 4,
        RemovalPhase::Unregister => 3,
        RemovalPhase::Store => 2,
        RemovalPhase::Restore => 1,
        RemovalPhase::Done => 0,
        RemovalPhase::Refused => 0,
    }
}

/// A removal and the registered hotkeys after replies; none where a reply does not fit
/// its step or is not truthful.
pub open spec fn removal_after(
    c: RemovalView,
    registered: Set<Seq<char>>,
    replies: Seq<ReplyView>,
) -> Option<(RemovalView, Set<Seq<char>>)>
    decreases replies.len(),
{
    if replies.len() == 0 {
        Some((c, registered))
    } else {
        match removal_after(c, registered, replies.drop_last()) {
            Some((then, now)) => match removal_advanced(then, replies.last()) {
                Some(next) if is_truthful(now, removal_step(then), replies.last()) => Some(
                    (next, registered_after(now, removal_step(then), replies.last())),
                ),
                _ => None,
            },
            None => None,
        }
    }
}

proof fn lemma_removal_keeps_track(
    c: RemovalView,
    registered: Set<Seq<char>>,
    replies: Seq<ReplyView>,
)
    requires
        removal_is_sound(c),
        removal_keeps_track(c, registered, registered),
        removal_after(c, registered, replies) is Some,
    ensures
        ({
            let (then, now) = removal_after(c, registered, replies)->0;
            &&& removal_is_sound(then)
            &&& removal_keeps_track(then, registered, now)
            &&& removal_steps_left(then) + replies.len() <= removal_steps_left(c)
            &&& then.hotkey == c.hotkey
        }),
    decreases replies.len(),
{
    if replies.len() > 0 {
        lemma_removal_keeps_track(c, registered, replies.drop_last());
        let (then, now) = removal_after(c, registered, replies.drop_last())->0;
        lemma_reply_keeps_removal_track(then, registered, now, replies.last());
    }
}

/// A scene is removed only when its hotkey is gone, and its hotkey comes back where the
/// engine refuses, with the engine's words.
pub proof fn law_scene_is_removed_after_its_hotkey(c: RemovalView, reply: ReplyView)
    requires
        removal_advanced(c, reply) is Some,
    ensures
        ({
            let next = removal_advanced(c, reply)->0;
            &&& next.hotkey == c.hotkey
            &&& next.phase == RemovalPhase::Done <==> c.phase == RemovalPhase::Store && reply
                == ReplyView::Success
            &&& next.phase == RemovalPhase::Store ==> (c.phase == RemovalPhase::Check && reply
                == ReplyView::Answer(false)) || (c.phase == RemovalPhase::Unregister && reply
                == ReplyView::Success)
            &&& c.phase == RemovalPhase::Store && reply is Failure ==> next.message
                == reply->Failure_0
            &&& c.phase == RemovalPhase::Store && reply is Failure && c.unregistered && c.hotkey
                is Some ==> removal_step(next) == StepView::Register(c.hotkey->0)
            &&& c.phase == RemovalPhase::Restore && reply == ReplyView::Success ==> next.message
                == c.message && next.phase == RemovalPhase::Refused
        }),
{
}

/// Whatever the system and the engine reply: a removal takes at most four steps; a
/// scene that was removed leaves no hotkey behind; and a scene that stays keeps its
/// hotkey, unless registering it again failed as well.
pub proof fn law_refused_removal_is_undone(
    hotkey: Option<Seq<char>>,
    registered: Set<Seq<char>>,
    replies: Seq<ReplyView>,
)
    requires
        removal_after(first_removal(hotkey), registered, replies) is Some,
    ensures
        ({
            let (c, now) = removal_after(first_removal(hotkey), registered, replies)->0;
            &&& replies.len() <= 4
            &&& c.phase == RemovalPhase::Refused && !c.rollback_failed ==> now == registered
            &&& c.phase == RemovalPhase::Done ==> now == without_hotkey(registered, hotkey)
        }),
{
    if hotkey is None {
        assert(removal_keeps_track(first_removal(hotkey), registered, registered));
    }
    lemma_removal_keeps_track(first_removal(hotkey), registered, replies);
}

/// Notes that the hotkey of a scene could not be registered at the start.
pub fn note_initial_failure(gate: &mut EventGate, scene_id: u128, hotkey: &str, error: &str)
    ensures
        final(gate).initial_events == old(gate).initial_events,
        final(gate).pending == old(gate).pending,
        final(gate).ready == old(gate).ready,
        final(gate).overflow_logged == old(gate).overflow_logged,
        event_gate::hotkey_events(final(gate).initial_hotkey_failures@)
            == event_gate::hotkey_events(old(gate).initial_hotkey_failures@).push(
            engine_event::EventView::HotkeyError {
                scene_id,
                message: hotkey@ + ": "@ + error@,
            },
        ),
{
    gate.note_hotkey_failure(scene_id, joined3(hotkey, ": ", error));
}

} // verus!
