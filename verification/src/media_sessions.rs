//! Which media files are open, and what their players are told.
//!
//! The caller opens and closes players; these functions say when, and turn the
//! project, the user's controls and the players' notices into commands and
//! events. `M` is a decoded video frame.

use vstd::prelude::*;
use vstd::string::*;

use crate::engine_event;
use crate::engine_event::{send, EngineEvent, MediaState};
use crate::id_map;
use crate::id_map::IdMap;
use crate::id_set::IdSet;
use crate::project;
use crate::project::{MediaSource, Project, Source};
use crate::text::same_text;
use crate::video;
use crate::video::MediaControlBus;

verus! {

/// A file that could not be played is tried again after this many nanoseconds.
pub const MEDIA_RETRY_COOLDOWN_NS: u64 = 30_000_000_000;

/// What a player is told. Positions are bit patterns of seconds.
#[derive(Clone, Copy, Debug, PartialEq, Eq, Structural)]
pub enum MediaCommand {
    Play,
    Pause,
    Seek(u64),
    SetLoop(bool),
    Stop,
}

/// What happens to players, in order.
#[derive(Clone, Copy, Debug, PartialEq, Eq, Structural)]
pub enum MediaEffect {
    Close { source_id: u128 },
    Command { source_id: u128, command: MediaCommand },
}

/// A media source that the render loop takes care of.
pub struct MediaRuntimeBinding {
    pub path: String,
    pub looped: bool,
    pub visible: bool,
    pub playing: bool,
    pub opened: bool,
    pub retry_after: Option<u64>,
    pub control_epoch: u64,
}

/// What a player reports.
pub enum MediaNotice<M> {
    State { source_id: u128, state: MediaState },
    Unsupported { source_id: u128, reason: String },
    SeekFailed { source_id: u128, reason: String },
    Video { source_id: u128, frame: M },
}

/// The media sources of the render loop and their newest frames.
pub struct MediaSessions<M> {
    pub sources: IdMap<MediaRuntimeBinding>,
    pub frames: IdMap<M>,
}

/// Whether the file of a source is another one than the one taken care of.
pub open spec fn path_changed(
    sources: Map<u128, MediaRuntimeBinding>,
    id: u128,
    path: Seq<char>,
) -> bool {
    sources.dom().contains(id) && sources[id].path@ != path
}

/// Whether a source that could not be played is due for another attempt.
pub open spec fn retry_due(sources: Map<u128, MediaRuntimeBinding>, id: u128, now: u64) -> bool {
    &&& sources.dom().contains(id)
    &&& !sources[id].opened
    &&& sources[id].retry_after is Some
    &&& now >= sources[id].retry_after->0
}

/// Closing a player that is open.
pub open spec fn close_if_open(sources: Map<u128, MediaRuntimeBinding>, id: u128) -> Seq<
    MediaEffect,
> {
    if sources.dom().contains(id) && sources[id].opened {
        seq![MediaEffect::Close { source_id: id }]
    } else {
        Seq::empty()
    }
}

/// Whether a source should be playing.
pub open spec fn should_play(
    control: video::MediaControl,
    visible: bool,
    source: MediaSource,
) -> bool {
    control.playing && (visible || source.continue_when_hidden)
}

/// What an open player is told in one round: a changed loop setting, a restart
/// when the source comes into view, a changed play state, a requested position.
pub open spec fn drive_effects(
    binding: MediaRuntimeBinding,
    source: MediaSource,
    visible: bool,
    control: video::MediaControl,
) -> Seq<MediaEffect> {
    let id = source.id;
    let looped = if binding.looped != source.looped {
        seq![MediaEffect::Command { source_id: id, command: MediaCommand::SetLoop(source.looped) }]
    } else {
        Seq::empty()
    };
    let restart = if visible && !binding.visible && source.restart_on_show {
        seq![MediaEffect::Command { source_id: id, command: MediaCommand::Seek(0) }]
    } else {
        Seq::empty()
    };
    let play = if binding.playing != should_play(control, visible, source) {
        seq![
            MediaEffect::Command {
                source_id: id,
                command: if should_play(control, visible, source) {
                    MediaCommand::Play
                } else {
                    MediaCommand::Pause
                },
            },
        ]
    } else {
        Seq::empty()
    };
    let seek = match control.seek_seconds {
        Some(position) => seq![
            MediaEffect::Command { source_id: id, command: MediaCommand::Seek(position) },
        ],
        None => Seq::empty(),
    };
    looped + restart + play + seek
}

/// Whether the project still has the media source.
pub open spec fn is_media_of(sources: Seq<Source>, id: u128) -> bool {
    exists|i: int|
        0 <= i < sources.len() && (#[trigger] sources[i]) is Media && project::id_of(sources[i])
            == id
}

/// The players of sources that the project no longer has, in order.
pub open spec fn close_effects(
    bindings: Map<u128, MediaRuntimeBinding>,
    wanted: Seq<Source>,
    ids: Seq<u128>,
) -> Seq<MediaEffect>
    decreases ids.len(),
{
    if ids.len() == 0 {
        Seq::empty()
    } else {
        let before = close_effects(bindings, wanted, ids.drop_last());
        if is_media_of(wanted, ids.last()) {
            before
        } else {
            before + close_if_open(bindings, ids.last())
        }
    }
}

fn has_media(sources: &Vec<Source>, id: u128) -> (r: bool)
    ensures
        r == is_media_of(sources@, id),
{
    let mut i: usize = 0;
    while i < sources.len()
        invariant
            i <= sources@.len(),
            forall|j: int|
                0 <= j < i ==> !((#[trigger] sources@[j]) is Media && project::id_of(sources@[j])
                    == id),
        decreases sources@.len() - i,
    {
        match &sources[i] {
            Source::Media(media) => {
                if media.id == id {
                    assert(sources@[i as int] is Media);
                    return true;
                }
            },
            _ => {},
        }
        i += 1;
    }
    false
}

spec fn both_agree<M>(a: MediaSessions<M>, b: MediaSessions<M>, id: u128) -> bool {
    id_map::agree(a.sources@, b.sources@, id) && id_map::agree(a.frames@, b.frames@, id)
}

/// What the tables say about one source after the project's missing sources were
/// dropped.
pub open spec fn pruned_at<M>(
    before: MediaSessions<M>,
    after: MediaSessions<M>,
    wanted: Seq<Source>,
    id: u128,
) -> bool {
    if before.sources@.dom().contains(id) && !is_media_of(wanted, id) {
        !after.sources@.dom().contains(id) && !after.frames@.dom().contains(id)
    } else {
        id_map::agree(before.sources@, after.sources@, id) && id_map::agree(
            before.frames@,
            after.frames@,
            id,
        )
    }
}

impl<M> MediaSessions<M> {
    /// Both tables list each source once.
    pub open spec fn wf(self) -> bool {
        self.sources.wf() && self.frames.wf()
    }

    /// No media sources yet.
    pub fn new() -> (r: Self)
        ensures
            r.wf(),
            r.sources@ == Map::<u128, MediaRuntimeBinding>::empty(),
            r.frames@ == Map::<u128, M>::empty(),
    {
        MediaSessions { sources: IdMap::new(), frames: IdMap::new() }
    }

    /// Begins a round for one media source: a changed file or an elapsed retry
    /// time ends the previous attempt. True where the file is to be opened.
    pub fn begin(&mut self, source: &MediaSource, now: u64, effects: &mut Vec<MediaEffect>) -> (r:
        bool)
        requires
            old(self).wf(),
        ensures
            final(self).wf(),
            ({
                let id = source.id;
                let changed = path_changed(old(self).sources@, id, source.path@);
                let ends = changed || retry_due(old(self).sources@, id, now);
                &&& final(self).sources@ == (if ends {
                    old(self).sources@.remove(id)
                } else {
                    old(self).sources@
                })
                &&& final(self).frames@ == (if ends {
                    old(self).frames@.remove(id)
                } else {
                    old(self).frames@
                })
                &&& final(effects)@ == old(effects)@ + (if changed {
                    close_if_open(old(self).sources@, id)
                } else {
                    Seq::empty()
                })
                &&& r == !final(self).sources@.dom().contains(id)
            }),
            r <==> !old(self).sources@.dom().contains(source.id) || old(
                self,
            ).sources@[source.id].path@ != source.path@ || (!old(self).sources@[source.id].opened
                && (old(self).sources@[source.id].retry_after matches Some(after) && now >= after)),
    {
        let id: u128 = source.id;
        let (changed, open, due) = match self.sources.get(id) {
            Some(binding) => (
                !same_text(binding.path.as_str(), source.path.as_str()),
                binding.opened,
                !binding.opened && match binding.retry_after {
                    Some(deadline) => now >= deadline,
                    None => false,
                },
            ),
            None => (false, false, false),
        };
        if changed && open {
            effects.push(MediaEffect::Close { source_id: id });
        }
        if changed || due {
            self.sources.remove(id);
            self.frames.remove(id);
        }
        assert(effects@ =~= old(effects)@ + (if changed {
            close_if_open(old(self).sources@, id)
        } else {
            Seq::empty()
        }));
        !self.sources.contains(id)
    }

    /// A file was opened, or not. A failure is reported and tried again later.
    pub fn on_open(
        &mut self,
        source: &MediaSource,
        visible: bool,
        result: Result<(), String>,
        now: u64,
        events: &mut Vec<EngineEvent>,
    )
        requires
            old(self).wf(),
            now + MEDIA_RETRY_COOLDOWN_NS <= u64::MAX,
        ensures
            final(self).wf(),
            final(self).frames == old(self).frames,
            final(self).sources@.dom() == old(self).sources@.dom().insert(source.id),
            id_map::agree_except(old(self).sources@, final(self).sources@, source.id),
            ({
                let binding = final(self).sources@[source.id];
                &&& binding.path@ == source.path@
                &&& binding.looped == source.looped
                &&& binding.visible == visible
                &&& binding.playing
                &&& binding.opened == (result is Ok)
                &&& binding.retry_after == (if result is Ok {
                    None
                } else {
                    Some((now + MEDIA_RETRY_COOLDOWN_NS) as u64)
                })
                &&& result is Err ==> binding.retry_after == Some((now + 30_000_000_000) as u64)
                &&& binding.control_epoch == 0
            }),
            engine_event::events_view(final(events)@) == match result {
                Ok(()) => engine_event::events_view(old(events)@),
                Err(reason) => engine_event::events_view(old(events)@).push(
                    engine_event::EventView::UnsupportedMedia {
                        source_id: source.id,
                        reason: reason@,
                    },
                ),
            },
    {
        let opened = result.is_ok();
        match result {
            Ok(()) => {},
            Err(reason) => {
                send(events, EngineEvent::UnsupportedMedia { source_id: source.id, reason });
            },
        }
        self.sources.insert(
            source.id,
            MediaRuntimeBinding {
                path: source.path.clone(),
                looped: source.looped,
                visible,
                playing: true,
                opened,
                retry_after: if opened {
                    None
                } else {
                    Some(now + MEDIA_RETRY_COOLDOWN_NS)
                },
                control_epoch: 0,
            },
        );
        assert(self.sources@.dom() =~= old(self).sources@.dom().insert(source.id));
    }

    /// Tells an open player what the project and the user want of it.
    pub fn drive(
        &mut self,
        source: &MediaSource,
        visible: bool,
        bus: &mut MediaControlBus,
        effects: &mut Vec<MediaEffect>,
    )
        requires
            old(self).wf(),
            old(bus).wf(),
            old(self).sources@.dom().contains(source.id),
        ensures
            final(self).wf(),
            final(bus).wf(),
            final(self).frames == old(self).frames,
            old(self).sources@[source.id].opened && final(self).sources@[source.id].playing ==> (
            old(bus).controls@.dom().contains(source.id) ==> old(
                bus,
            ).controls@[source.id].playing) && (visible || source.continue_when_hidden),
            old(self).sources@[source.id].opened && !final(self).sources@[source.id].playing ==> !(
            visible || source.continue_when_hidden) || (old(bus).controls@.dom().contains(source.id)
                && !old(bus).controls@[source.id].playing),
            ({
                let before = old(self).sources@[source.id];
                let control = video::control_of(old(bus).controls@, source.id);
                if before.opened {
                    &&& final(self).sources@ == old(self).sources@.insert(
                        source.id,
                        MediaRuntimeBinding {
                            looped: source.looped,
                            visible,
                            playing: should_play(control, visible, *source),
                            control_epoch: control.epoch,
                            ..before
                        },
                    )
                    &&& final(bus).controls@ == old(bus).controls@.insert(
                        source.id,
                        video::MediaControl { seek_seconds: None, ..control },
                    )
                    &&& final(effects)@ == old(effects)@ + drive_effects(
                        before,
                        *source,
                        visible,
                        control,
                    )
                } else {
                    &&& final(self).sources@ == old(self).sources@
                    &&& final(bus).controls@ == old(bus).controls@
                    &&& final(effects)@ == old(effects)@
                }
            }),
    {
        let id: u128 = source.id;
        let ghost before = self.sources@[id];
        let ghost e0 = effects@;
        let control = bus.read(id);
        match self.sources.get_mut(id) {
            Some(binding) => {
                if binding.opened {
                    if binding.looped != source.looped {
                        effects.push(
                            MediaEffect::Command {
                                source_id: id,
                                command: MediaCommand::SetLoop(source.looped),
                            },
                        );
                        binding.looped = source.looped;
                    }
                    if visible && !binding.visible && source.restart_on_show {
                        effects.push(
                            MediaEffect::Command { source_id: id, command: MediaCommand::Seek(0) },
                        );
                    }
                    binding.control_epoch = control.epoch;
                    let play = control.playing && (visible || source.continue_when_hidden);
                    if binding.playing != play {
                        effects.push(
                            MediaEffect::Command {
                                source_id: id,
                                command: if play {
                                    MediaCommand::Play
                                } else {
                                    MediaCommand::Pause
                                },
                            },
                        );
                        binding.playing = play;
                    }
                    binding.visible = visible;
                    match bus.take_seek(id) {
                        Some(position) => {
                            effects.push(
                                MediaEffect::Command {
                                    source_id: id,
                                    command: MediaCommand::Seek(position),
                                },
                            );
                        },
                        None => {},
                    }
                    assert(effects@ =~= e0 + drive_effects(before, *source, visible, control));
                } else {
                    assert(self.sources@ =~= old(self).sources@);
                }
            },
            None => {},
        }
    }

    /// Drops the sources that the project no longer has.
    pub fn prune(&mut self, wanted: &Project, effects: &mut Vec<MediaEffect>)
        requires
            old(self).wf(),
        ensures
            final(self).wf(),
            forall|id: u128| #[trigger]
                pruned_at(*old(self), *final(self), wanted.sources@, id),
            final(effects)@ == old(effects)@ + close_effects(
                old(self).sources@,
                wanted.sources@,
                old(self).sources.order(),
            ),
    {
        let ids = self.sources.keys();
        let ghost before = *self;
        proof {
            self.sources.lemma_order();
        }
        let mut i: usize = 0;
        while i < ids.len()
            invariant
                i <= ids@.len(),
                self.wf(),
                before == *old(self),
                ids@ == before.sources.order(),
                ids@.no_duplicates(),
                forall|k: int|
                    0 <= k < ids@.len() ==> before.sources@.dom().contains(#[trigger] ids@[k]),
                effects@ == old(effects)@ + close_effects(
                    before.sources@,
                    wanted.sources@,
                    ids@.take(i as int),
                ),
                forall|id: u128|
                    !ids@.take(i as int).contains(id) ==> #[trigger] both_agree(before, *self, id),
                forall|k: int|
                    0 <= k < i ==> #[trigger] pruned_at(before, *self, wanted.sources@, ids@[k]),
            decreases ids@.len() - i,
        {
            let id: u128 = ids[i];
            let ghost prior = *self;
            let ghost done = ids@.take(i as int);
            let ghost next = ids@.take(i + 1);
            proof {
                assert(next.drop_last() =~= done);
                assert(next[i as int] == id);
                assert(!done.contains(id)) by {
                    if done.contains(id) {
                        let j = done.index_of(id);
                        assert(ids@[j] == ids@[i as int]);
                    }
                }
                assert(both_agree(before, prior, id));
                assert(before.sources@.dom().contains(ids@[i as int]));
            }
            if !has_media(&wanted.sources, id) {
                let open = match self.sources.get(id) {
                    Some(binding) => binding.opened,
                    None => false,
                };
                if open {
                    effects.push(MediaEffect::Close { source_id: id });
                }
                self.sources.remove(id);
                self.frames.remove(id);
            }
            proof {
                assert(effects@ =~= old(effects)@ + close_effects(
                    before.sources@,
                    wanted.sources@,
                    next,
                ));
                assert forall|k: u128| !next.contains(k) implies #[trigger] both_agree(
                    before,
                    *self,
                    k,
                ) by {
                    assert(!done.contains(k)) by {
                        if done.contains(k) {
                            let j = done.index_of(k);
                            assert(next[j] == k);
                        }
                    }
                    assert(both_agree(before, prior, k));
                }
                assert forall|k: int| 0 <= k < i + 1 implies #[trigger] pruned_at(
                    before,
                    *self,
                    wanted.sources@,
                    ids@[k],
                ) by {
                    if k < i {
                        assert(pruned_at(before, prior, wanted.sources@, ids@[k]));
                        assert(ids@[k] != ids@[i as int]);
                    }
                }
            }
            i += 1;
        }
        assert(ids@.take(i as int) =~= ids@);
        proof {
            assert forall|id: u128| #[trigger] pruned_at(before, *self, wanted.sources@, id) by {
                if before.sources@.dom().contains(id) {
                    assert(before.sources.order().contains(id));
                    let k = ids@.index_of(id);
                    assert(pruned_at(before, *self, wanted.sources@, ids@[k]));
                } else {
                    assert(!ids@.contains(id));
                    assert(both_agree(before, *self, id));
                }
            }
        }
    }

    /// Takes in one notice of a player.
    pub fn on_notice(
        &mut self,
        notice: MediaNotice<M>,
        now: u64,
        import_failures: &IdMap<u64>,
        bus: &mut MediaControlBus,
        available: &mut IdSet,
        effects: &mut Vec<MediaEffect>,
        events: &mut Vec<EngineEvent>,
    )
        requires
            old(self).wf(),
            old(bus).wf(),
            old(available).wf(),
            import_failures.wf(),
            now + MEDIA_RETRY_COOLDOWN_NS <= u64::MAX,
        ensures
            final(self).wf(),
            final(bus).wf(),
            final(available).wf(),
            match notice {
                MediaNotice::State { source_id, state } => {
                    let known = old(self).sources@.dom().contains(source_id);
                    &&& final(self).frames == old(self).frames
                    &&& final(available)@ == old(available)@
                    &&& final(effects)@ == old(effects)@
                    &&& final(self).sources@ == (if known {
                        old(self).sources@.insert(
                            source_id,
                            MediaRuntimeBinding {
                                playing: state.playing,
                                ..old(self).sources@[source_id]
                            },
                        )
                    } else {
                        old(self).sources@
                    })
                    &&& final(bus).controls@ == (if known && !state.playing {
                        old(bus).controls@.insert(
                            source_id,
                            video::paused_since(
                                video::control_of(old(bus).controls@, source_id),
                                old(self).sources@[source_id].control_epoch,
                            ),
                        )
                    } else {
                        old(bus).controls@
                    })
                    &&& engine_event::events_view(final(events)@) == engine_event::events_view(
                        old(events)@,
                    ).push(engine_event::EventView::MediaState { source_id, state })
                },
                MediaNotice::Unsupported { source_id, reason } => {
                    &&& final(bus).controls@ == old(bus).controls@
                    &&& final(self).frames@ == old(self).frames@.remove(source_id)
                    &&& final(available)@ == old(available)@.remove(source_id)
                    &&& final(effects)@ == old(effects)@.push(MediaEffect::Close { source_id })
                    &&& final(self).sources@ == (if old(self).sources@.dom().contains(source_id) {
                        old(self).sources@.insert(
                            source_id,
                            MediaRuntimeBinding {
                                opened: false,
                                playing: false,
                                retry_after: Some((now + MEDIA_RETRY_COOLDOWN_NS) as u64),
                                ..old(self).sources@[source_id]
                            },
                        )
                    } else {
                        old(self).sources@
                    })
                    &&& old(self).sources@.dom().contains(source_id)
                        ==> final(self).sources@[source_id].retry_after == Some(
                        (now + 30_000_000_000) as u64,
                    )
                    &&& engine_event::events_view(final(events)@) == engine_event::events_view(
                        old(events)@,
                    ).push(
                        engine_event::EventView::UnsupportedMedia { source_id, reason: reason@ },
                    )
                },
                MediaNotice::SeekFailed { source_id, reason } => {
                    &&& final(self).sources@ == old(self).sources@
                    &&& final(self).frames == old(self).frames
                    &&& final(bus).controls@ == old(bus).controls@
                    &&& final(available)@ == old(available)@
                    &&& final(effects)@ == old(effects)@
                    &&& engine_event::events_view(final(events)@) == engine_event::events_view(
                        old(events)@,
                    ).push(
                        engine_event::EventView::UnsupportedMedia { source_id, reason: reason@ },
                    )
                },
                MediaNotice::Video { source_id, frame } => {
                    &&& final(self).sources@ == old(self).sources@
                    &&& final(self).frames@ == old(self).frames@.insert(source_id, frame)
                    &&& final(bus).controls@ == old(bus).controls@
                    &&& final(available)@ == old(available)@.insert(source_id)
                    &&& final(effects)@ == old(effects)@
                    &&& engine_event::events_view(final(events)@) == (if old(available)@.contains(
                        source_id,
                    ) || import_failures@.dom().contains(source_id) {
                        engine_event::events_view(old(events)@)
                    } else {
                        engine_event::events_view(old(events)@).push(
                            engine_event::EventView::SourceAvailable { source_id },
                        )
                    })
                },
            },
    {
        match notice {
            MediaNotice::State { source_id, state } => {
                let mut pause_epoch: Option<u64> = None;
                match self.sources.get_mut(source_id) {
                    Some(binding) => {
                        binding.playing = state.playing;
                        if !state.playing {
                            pause_epoch = Some(binding.control_epoch);
                        }
                    },
                    None => {},
                }
                match pause_epoch {
                    Some(epoch) => {
                        bus.write_back_paused(source_id, epoch);
                    },
                    None => {},
                }
                send(events, EngineEvent::MediaState { source_id, state });
            },
            MediaNotice::Unsupported { source_id, reason } => {
                effects.push(MediaEffect::Close { source_id });
                match self.sources.get_mut(source_id) {
                    Some(binding) => {
                        binding.opened = false;
                        binding.playing = false;
                        binding.retry_after = Some(now + MEDIA_RETRY_COOLDOWN_NS);
                    },
                    None => {},
                }
                self.frames.remove(source_id);
                available.remove(source_id);
                send(events, EngineEvent::UnsupportedMedia { source_id, reason });
            },
            MediaNotice::SeekFailed { source_id, reason } => {
                send(events, EngineEvent::UnsupportedMedia { source_id, reason });
            },
            MediaNotice::Video { source_id, frame } => {
                self.frames.insert(source_id, frame);
                let first = available.insert(source_id);
                if first && !import_failures.contains(source_id) {
                    send(events, EngineEvent::SourceAvailable { source_id });
                }
            },
        }
    }
}

// ---------------------------------------------------------------------------
// Laws
// ---------------------------------------------------------------------------

/// A file that cannot be played is tried again when the cooldown is over and not
/// before, as long as the source keeps its file.
pub proof fn law_unplayable_file_waits(
    sources: Map<u128, MediaRuntimeBinding>,
    id: u128,
    failed_at: u64,
    now: u64,
)
    requires
        sources.dom().contains(id),
        !sources[id].opened,
        failed_at + MEDIA_RETRY_COOLDOWN_NS <= u64::MAX,
        sources[id].retry_after == Some((failed_at + MEDIA_RETRY_COOLDOWN_NS) as u64),
    ensures
        retry_due(sources, id, now) <==> now >= failed_at + MEDIA_RETRY_COOLDOWN_NS,
{
}

/// Play and pause are sent on edges only: a round that repeats the previous one
/// with nothing requested sends nothing.
pub proof fn law_unchanged_round_is_silent(
    binding: MediaRuntimeBinding,
    source: MediaSource,
    visible: bool,
    control: video::MediaControl,
)
    requires
        binding.looped == source.looped,
        binding.visible == visible,
        binding.playing == should_play(control, visible, source),
        control.seek_seconds is None,
    ensures
        drive_effects(binding, source, visible, control) == Seq::<MediaEffect>::empty(),
{
    assert(drive_effects(binding, source, visible, control) =~= Seq::<MediaEffect>::empty());
}

/// A requested position is carried out once: the round that sends it clears the
/// request, and the next round sends nothing.
pub proof fn law_seek_is_sent_once(
    binding: MediaRuntimeBinding,
    source: MediaSource,
    visible: bool,
    control: video::MediaControl,
)
    requires
        control.seek_seconds is Some,
    ensures
        ({
            let driven = MediaRuntimeBinding {
                looped: source.looped,
                visible,
                playing: should_play(control, visible, source),
                control_epoch: control.epoch,
                ..binding
            };
            let cleared = video::MediaControl { seek_seconds: None, ..control };
            &&& drive_effects(binding, source, visible, control).last() == (MediaEffect::Command {
                source_id: source.id,
                command: MediaCommand::Seek(control.seek_seconds->0),
            })
            &&& drive_effects(driven, source, visible, cleared) == Seq::<MediaEffect>::empty()
        }),
{
    let driven = MediaRuntimeBinding {
        looped: source.looped,
        visible,
        playing: should_play(control, visible, source),
        control_epoch: control.epoch,
        ..binding
    };
    let cleared = video::MediaControl { seek_seconds: None, ..control };
    law_unchanged_round_is_silent(driven, source, visible, cleared);
}

/// A session stays exactly as long as the project has a media source of its id; one that
/// goes takes its frame along.
pub proof fn law_sessions_follow_the_project<M>(
    before: MediaSessions<M>,
    after: MediaSessions<M>,
    wanted: Seq<Source>,
    id: u128,
    i: int,
)
    requires
        pruned_at(before, after, wanted, id),
        before.sources@.dom().contains(id),
    ensures
        0 <= i < wanted.len() && wanted[i] is Media && project::id_of(wanted[i]) == id ==> {
            &&& after.sources@.dom().contains(id) && after.sources@[id] == before.sources@[id]
            &&& id_map::agree(before.frames@, after.frames@, id)
        },
        (forall|j: int|
            0 <= j < wanted.len() && (#[trigger] wanted[j]) is Media ==> project::id_of(wanted[j])
                != id) ==> !after.sources@.dom().contains(id) && !after.frames@.dom().contains(id),
{
}

/// A player is closed where its session goes and it was open, and no other is.
pub proof fn law_open_players_are_closed(
    bindings: Map<u128, MediaRuntimeBinding>,
    wanted: Seq<Source>,
    ids: Seq<u128>,
    i: int,
)
    requires
        0 <= i < ids.len(),
    ensures
        bindings.dom().contains(ids[i]) && bindings[ids[i]].opened && (forall|j: int|
            0 <= j < wanted.len() && (#[trigger] wanted[j]) is Media ==> project::id_of(wanted[j])
                != ids[i]) ==> close_effects(bindings, wanted, ids).contains(
            MediaEffect::Close { source_id: ids[i] },
        ),
        forall|n: int|
            0 <= n < close_effects(bindings, wanted, ids).len() ==> is_due_close(
                bindings,
                wanted,
                #[trigger] close_effects(bindings, wanted, ids)[n],
            ),
    decreases ids.len(),
{
    let last = ids.last();
    let before = close_effects(bindings, wanted, ids.drop_last());
    let more = close_if_open(bindings, last);
    let all = close_effects(bindings, wanted, ids);
    let close = MediaEffect::Close { source_id: ids[i] };
    if ids.len() > 1 {
        law_open_players_are_closed(
            bindings,
            wanted,
            ids.drop_last(),
            if i < ids.len() - 1 {
                i
            } else {
                0
            },
        );
    } else {
        assert(before.len() == 0);
    }
    assert forall|n: int| 0 <= n < all.len() implies is_due_close(
        bindings,
        wanted,
        #[trigger] all[n],
    ) by {
        if n < before.len() {
            assert(all[n] == before[n]);
        }
    }
    if bindings.dom().contains(ids[i]) && bindings[ids[i]].opened && !is_media_of(wanted, ids[i]) {
        if i < ids.len() - 1 {
            let n = choose|n: int| 0 <= n < before.len() && before[n] == close;
            assert(all[n] == close);
        } else {
            assert(all[all.len() - 1] == close);
        }
    }
}

/// Whether an effect closes an open player whose source is gone.
pub open spec fn is_due_close(
    bindings: Map<u128, MediaRuntimeBinding>,
    wanted: Seq<Source>,
    effect: MediaEffect,
) -> bool {
    effect matches MediaEffect::Close { source_id } && bindings.dom().contains(source_id)
        && bindings[source_id].opened && !is_media_of(wanted, source_id)
}

/// Whether a player is told something.
pub open spec fn tells(
    binding: MediaRuntimeBinding,
    source: MediaSource,
    visible: bool,
    control: video::MediaControl,
    command: MediaCommand,
) -> bool {
    drive_effects(binding, source, visible, control).contains(
        MediaEffect::Command { source_id: source.id, command },
    )
}

/// A player follows its control: one that plays is told to pause in the round in which
/// the control says paused, shown or not, or in which its source is hidden and does not
/// continue; one that stands still is told to play exactly where the control says
/// playing and its source is shown or continues when hidden; and neither is told the
/// other.
pub proof fn law_player_follows_its_control(
    binding: MediaRuntimeBinding,
    source: MediaSource,
    visible: bool,
    control: video::MediaControl,
)
    ensures
        tells(binding, source, visible, control, MediaCommand::Pause) <==> binding.playing && (
        !control.playing || (!visible && !source.continue_when_hidden)),
        tells(binding, source, visible, control, MediaCommand::Play) <==> !binding.playing
            && control.playing && (visible || source.continue_when_hidden),
        should_play(control, visible, source) ==> control.playing && (visible
            || source.continue_when_hidden),
        control.playing && visible ==> should_play(control, visible, source),
        control.playing && source.continue_when_hidden ==> should_play(control, visible, source),
{
    lemma_drive_effects(binding, source, visible, control);
}

/// A player hears of its loop setting exactly where it changed, and is moved to its
/// start exactly where its source comes into view and restarts then, or to the position
/// that the user asks for. The user's position comes last, so that it holds.
pub proof fn law_player_hears_what_changed(
    binding: MediaRuntimeBinding,
    source: MediaSource,
    visible: bool,
    control: video::MediaControl,
    position: u64,
    looped: bool,
)
    ensures
        tells(binding, source, visible, control, MediaCommand::SetLoop(looped)) <==> looped
            == source.looped && looped != binding.looped,
        tells(binding, source, visible, control, MediaCommand::Seek(position)) <==> (position == 0
            && visible && !binding.visible && source.restart_on_show) || control.seek_seconds
            == Some(position),
        !tells(binding, source, visible, control, MediaCommand::Stop),
        control.seek_seconds == Some(position) ==> drive_effects(
            binding,
            source,
            visible,
            control,
        ).last() == (MediaEffect::Command {
            source_id: source.id,
            command: MediaCommand::Seek(position),
        }),
{
    lemma_drive_effects(binding, source, visible, control);
}

/// What one round tells a player goes to that player alone, and no player is told the
/// same twice, but for a restart and a requested start.
pub proof fn law_commands_go_to_their_player(
    binding: MediaRuntimeBinding,
    source: MediaSource,
    visible: bool,
    control: video::MediaControl,
    i: int,
)
    requires
        0 <= i < drive_effects(binding, source, visible, control).len(),
    ensures
        drive_effects(binding, source, visible, control)[i] matches MediaEffect::Command {
            source_id,
            ..
        } && source_id == source.id,
        drive_effects(binding, source, visible, control).len() <= 4,
{
    lemma_drive_effects(binding, source, visible, control);
}

proof fn lemma_drive_effects(
    binding: MediaRuntimeBinding,
    source: MediaSource,
    visible: bool,
    control: video::MediaControl,
)
    ensures
        ({
            let e = drive_effects(binding, source, visible, control);
            let told = |c: MediaCommand| MediaEffect::Command { source_id: source.id, command: c };
            let n0: int = if binding.looped != source.looped { 1 } else { 0 };
            let n1: int = if visible && !binding.visible && source.restart_on_show { 1 } else { 0 };
            let n2: int = if binding.playing != should_play(control, visible, source) {
                1
            } else {
                0
            };
            let n3: int = if control.seek_seconds is Some { 1 } else { 0 };
            &&& e.len() == n0 + n1 + n2 + n3
            &&& n0 == 1 ==> e[0] == told(MediaCommand::SetLoop(source.looped))
            &&& n1 == 1 ==> e[n0] == told(MediaCommand::Seek(0))
            &&& n2 == 1 ==> e[n0 + n1] == told(
                if should_play(control, visible, source) {
                    MediaCommand::Play
                } else {
                    MediaCommand::Pause
                },
            )
            &&& n3 == 1 ==> e[n0 + n1 + n2] == told(MediaCommand::Seek(control.seek_seconds->0))
        }),
{
}

/// Playback that stopped at the end of its file can be started again by the
/// user: after the write-back the recorded wish is paused, so that the next play
/// request is an edge.
pub proof fn law_play_after_end_is_an_edge(
    binding: MediaRuntimeBinding,
    source: MediaSource,
    visible: bool,
    ended: video::MediaControl,
    requested: video::MediaControl,
)
    requires
        !binding.playing,
        requested.playing,
        visible || source.continue_when_hidden,
        ended == video::paused_since(ended, ended.epoch),
    ensures
        !ended.playing,
        drive_effects(binding, source, visible, requested).contains(
            MediaEffect::Command { source_id: source.id, command: MediaCommand::Play },
        ),
{
    let all = drive_effects(binding, source, visible, requested);
    let play = MediaEffect::Command { source_id: source.id, command: MediaCommand::Play };
    let a: int = if binding.looped != source.looped {
        1
    } else {
        0
    };
    let b: int = if visible && !binding.visible && source.restart_on_show {
        1
    } else {
        0
    };
    assert(all[a + b] == play);
}

} // verus!
