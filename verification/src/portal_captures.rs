//! Bookkeeping of the render loop for portal captures.
//!
//! Every function updates the tables and lists what the capture thread is to be
//! told; the caller performs the list in order.

use vstd::prelude::*;
use vstd::string::*;

use crate::engine_event;
use crate::engine_event::{send, EngineEvent};
use crate::id_map;
use crate::id_map::IdMap;
use crate::id_set::IdSet;
use crate::linux;
use crate::linux::{CapturedFrame, FrameMessage, PortalStreamInfo, SendBufferToken};
use crate::project;
use crate::project::{Project, Source};
use crate::text;
use crate::text::{parse_u32, same_text};

verus! {

/// A failed start or import is retried after this many nanoseconds.
pub const IMPORT_RETRY_INTERVAL_NS: u64 = 500_000_000;

/// A capture that has not delivered within this many nanoseconds is offline.
pub const CAPTURE_GRACE_NS: u64 = 750_000_000;

/// One message to the capture thread.
#[derive(Clone, Copy, Debug, PartialEq, Eq, Structural)]
pub enum CaptureEffect {
    Start { source_id: u128, node_id: u32 },
    Stop { source_id: u128 },
    Return { source_id: u128, token: SendBufferToken },
}

/// The tables that the render loop keeps about portal captures. Times are
/// nanoseconds of a monotonic clock.
pub struct CaptureTables<F> {
    /// The frame that is shown for a source; its buffer is held until returned.
    pub frames: IdMap<CapturedFrame<F>>,
    /// The portal node that a source's capture runs on.
    pub nodes: IdMap<u32>,
    /// When a capture was started that has not delivered yet.
    pub capture_started: IdMap<u64>,
    /// When a capture was last started.
    pub restart_backoff: IdMap<u64>,
    /// Sources whose portal connection is gone until the next selection.
    pub portal_lost: IdSet,
    /// The reason that was last reported for a source.
    pub evict_notified: IdMap<String>,
    /// The portal selection that the tables belong to.
    pub generation: u64,
}

/// Nanoseconds from `since` to `now`; none where the clock reads earlier.
pub open spec fn elapsed(now: u64, since: u64) -> int {
    if now >= since {
        now - since
    } else {
        0
    }
}

/// The time between two moments is their distance, and none where the later one comes
/// first.
pub proof fn law_time_passes_forward(now: u64, since: u64)
    ensures
        now >= since ==> since + elapsed(now, since) == now,
        now <= since ==> elapsed(now, since) == 0,
{
}

/// Nanoseconds from `since` to `now`.
pub fn elapsed_ns(now: u64, since: u64) -> (r: u64)
    ensures
        r == elapsed(now, since),
{
    now.saturating_sub(since)
}

/// Whether the reason was already reported for the source.
pub open spec fn already_notified(
    notified: Map<u128, String>,
    id: u128,
    reason: Seq<char>,
) -> bool {
    notified.dom().contains(id) && notified[id]@ == reason
}

/// The returned buffer of a source, if it shows a frame.
pub open spec fn return_of<F>(frames: Map<u128, CapturedFrame<F>>, id: u128) -> Seq<CaptureEffect> {
    if frames.dom().contains(id) {
        seq![CaptureEffect::Return { source_id: id, token: frames[id].buffer_token }]
    } else {
        Seq::empty()
    }
}

/// The returned buffers of several sources, in order.
pub open spec fn returns_of<F>(
    frames: Map<u128, CapturedFrame<F>>,
    ids: Seq<u128>,
) -> Seq<CaptureEffect>
    decreases ids.len(),
{
    if ids.len() == 0 {
        Seq::empty()
    } else {
        returns_of(frames, ids.drop_last()) + return_of(frames, ids.last())
    }
}

/// Stops for several sources, in order.
pub open spec fn stops_of(ids: Seq<u128>) -> Seq<CaptureEffect> {
    ids.map_values(|id: u128| CaptureEffect::Stop { source_id: id })
}

impl<F> CaptureTables<F> {
    /// Every table lists each source once.
    pub open spec fn wf(self) -> bool {
        &&& self.frames.wf()
        &&& self.nodes.wf()
        &&& self.capture_started.wf()
        &&& self.restart_backoff.wf()
        &&& self.portal_lost.wf()
        &&& self.evict_notified.wf()
    }

    /// Empty tables before the first selection.
    pub fn new() -> (r: Self)
        ensures
            r.wf(),
            r.frames@ == Map::<u128, CapturedFrame<F>>::empty(),
            r.nodes@ == Map::<u128, u32>::empty(),
            r.capture_started@ == Map::<u128, u64>::empty(),
            r.restart_backoff@ == Map::<u128, u64>::empty(),
            r.portal_lost@ == Set::<u128>::empty(),
            r.evict_notified@ == Map::<u128, String>::empty(),
            r.generation == 0,
    {
        CaptureTables {
            frames: IdMap::new(),
            nodes: IdMap::new(),
            capture_started: IdMap::new(),
            restart_backoff: IdMap::new(),
            portal_lost: IdSet::new(),
            evict_notified: IdMap::new(),
            generation: 0,
        }
    }

    fn return_frame(&mut self, id: u128, effects: &mut Vec<CaptureEffect>)
        requires
            old(self).wf(),
        ensures
            final(self).wf(),
            final(self).frames@ == old(self).frames@.remove(id),
            final(effects)@ == old(effects)@ + return_of(old(self).frames@, id),
            final(self).nodes == old(self).nodes,
            final(self).capture_started == old(self).capture_started,
            final(self).restart_backoff == old(self).restart_backoff,
            final(self).portal_lost == old(self).portal_lost,
            final(self).evict_notified == old(self).evict_notified,
            final(self).generation == old(self).generation,
    {
        match self.frames.remove(id) {
            Some(frame) => {
                effects.push(CaptureEffect::Return { source_id: id, token: frame.buffer_token });
            },
            None => {},
        }
        assert(effects@ =~= old(effects)@ + return_of(old(self).frames@, id));
    }

    /// Returns the buffers of every frame.
    pub fn return_all(&mut self, effects: &mut Vec<CaptureEffect>)
        requires
            old(self).wf(),
        ensures
            final(self).wf(),
            final(self).frames@ == Map::<u128, CapturedFrame<F>>::empty(),
            final(effects)@ == old(effects)@ + returns_of(
                old(self).frames@,
                old(self).frames.order(),
            ),
            final(self).nodes == old(self).nodes,
            final(self).capture_started == old(self).capture_started,
            final(self).restart_backoff == old(self).restart_backoff,
            final(self).portal_lost == old(self).portal_lost,
            final(self).evict_notified == old(self).evict_notified,
            final(self).generation == old(self).generation,
    {
        let ids = self.frames.keys();
        let mut i: usize = 0;
        while i < ids.len()
            invariant
                i <= ids@.len(),
                self.wf(),
                ids@ == old(self).frames.order(),
                self.frames@ == old(self).frames@,
                effects@ == old(effects)@ + returns_of(old(self).frames@, ids@.take(i as int)),
                *self == *old(self),
            decreases ids@.len() - i,
        {
            proof {
                assert(ids@.take(i + 1).drop_last() =~= ids@.take(i as int));
            }
            match self.frames.get(ids[i]) {
                Some(frame) => {
                    effects.push(
                        CaptureEffect::Return { source_id: ids[i], token: frame.buffer_token },
                    );
                },
                None => {},
            }
            assert(effects@ =~= old(effects)@ + returns_of(old(self).frames@, ids@.take(i + 1)));
            i += 1;
        }
        assert(ids@.take(i as int) =~= ids@);
        self.frames.clear();
    }

    /// Begins the change to another portal selection: every capture is stopped
    /// and every buffer returned. False where the selection is still the same.
    /// The caller then replaces the capture thread and calls
    /// [`CaptureTables::finish_generation`].
    pub fn begin_generation(&mut self, current: u64, effects: &mut Vec<CaptureEffect>) -> (r: bool)
        requires
            old(self).wf(),
        ensures
            final(self).wf(),
            r == (current != old(self).generation),
            !r ==> *final(self) == *old(self) && final(effects)@ == old(effects)@,
            r ==> {
                &&& final(self).nodes@ == Map::<u128, u32>::empty()
                &&& final(self).frames@ == Map::<u128, CapturedFrame<F>>::empty()
                &&& final(effects)@ == old(effects)@ + stops_of(old(self).nodes.order())
                    + returns_of(old(self).frames@, old(self).frames.order())
                &&& final(self).capture_started == old(self).capture_started
                &&& final(self).restart_backoff == old(self).restart_backoff
                &&& final(self).portal_lost == old(self).portal_lost
                &&& final(self).evict_notified == old(self).evict_notified
                &&& final(self).generation == old(self).generation
            },
    {
        if current == self.generation {
            return false;
        }
        let ids = self.nodes.keys();
        let mut i: usize = 0;
        while i < ids.len()
            invariant
                i <= ids@.len(),
                *self == *old(self),
                effects@ =~= old(effects)@ + stops_of(ids@).take(i as int),
            decreases ids@.len() - i,
        {
            effects.push(CaptureEffect::Stop { source_id: ids[i] });
            i += 1;
        }
        assert(stops_of(ids@).take(i as int) =~= stops_of(ids@));
        self.nodes.clear();
        self.return_all(effects);
        true
    }

    /// Completes the change to another portal selection.
    pub fn finish_generation(&mut self, current: u64, available: &mut IdSet)
        requires
            old(self).wf(),
            old(available).wf(),
        ensures
            final(self).wf(),
            final(available).wf(),
            final(available)@ == Set::<u128>::empty(),
            final(self).capture_started@ == Map::<u128, u64>::empty(),
            final(self).restart_backoff@ == Map::<u128, u64>::empty(),
            final(self).portal_lost@ == Set::<u128>::empty(),
            final(self).evict_notified@ == Map::<u128, String>::empty(),
            final(self).generation == current,
            final(self).frames == old(self).frames,
            final(self).nodes == old(self).nodes,
    {
        available.clear();
        self.capture_started.clear();
        self.evict_notified.clear();
        self.restart_backoff.clear();
        self.portal_lost.clear();
        self.generation = current;
    }
}

// ---------------------------------------------------------------------------
// Which captures are wanted
// ---------------------------------------------------------------------------

/// The portal node that a source asks for: it must name the current selection,
/// and the node must be one of its streams.
pub open spec fn wanted_node(
    source: Source,
    marker: Option<Seq<char>>,
    selected: Seq<PortalStreamInfo>,
) -> Option<u32> {
    let node = match source {
        Source::Window { process_path, window_title, .. } => if marker == Some(process_path@) {
            text::parsed_u32(window_title@)
        } else {
            None
        },
        Source::Display { adapter_luid, output_id, .. } => if marker == Some(adapter_luid@) {
            Some(output_id)
        } else {
            None
        },
        _ => None,
    };
    match node {
        Some(n) => if is_selected(selected, n) {
            Some(n)
        } else {
            None
        },
        None => None,
    }
}

/// Whether the selection has a stream on the node.
pub open spec fn is_selected(selected: Seq<PortalStreamInfo>, node: u32) -> bool {
    exists|i: int| 0 <= i < selected.len() && (#[trigger] selected[i]).pipewire_node_id == node
}

/// The captures that a project asks for; a later source of the same id wins.
pub open spec fn wanted_captures(
    sources: Seq<Source>,
    marker: Option<Seq<char>>,
    selected: Seq<PortalStreamInfo>,
) -> Map<u128, u32>
    decreases sources.len(),
{
    if sources.len() == 0 {
        Map::empty()
    } else {
        let before = wanted_captures(sources.drop_last(), marker, selected);
        match wanted_node(sources.last(), marker, selected) {
            Some(node) => before.insert(project::id_of(sources.last()), node),
            None => before,
        }
    }
}

fn has_node(selected: &Vec<PortalStreamInfo>, node: u32) -> (r: bool)
    ensures
        r == is_selected(selected@, node),
{
    let mut i: usize = 0;
    while i < selected.len()
        invariant
            i <= selected@.len(),
            forall|j: int| 0 <= j < i ==> (#[trigger] selected@[j]).pipewire_node_id != node,
        decreases selected@.len() - i,
    {
        if selected[i].pipewire_node_id == node {
            return true;
        }
        i += 1;
    }
    false
}

/// The portal node that a source asks for.
pub fn node_of(source: &Source, marker: &Option<String>, selected: &Vec<PortalStreamInfo>) -> (r:
    Option<u32>)
    ensures
        r == wanted_node(*source, engine_event::text_view(*marker), selected@),
{
    let marker = match marker {
        Some(marker) => marker,
        None => {
            return None;
        },
    };
    let node: Option<u32> = match source {
        Source::Window { process_path, window_title, .. } => {
            if same_text(process_path.as_str(), marker.as_str()) {
                parse_u32(window_title.as_str())
            } else {
                None
            }
        },
        Source::Display { adapter_luid, output_id, .. } => {
            if same_text(adapter_luid.as_str(), marker.as_str()) {
                Some(*output_id)
            } else {
                None
            }
        },
        _ => None,
    };
    match node {
        Some(n) => if has_node(selected, n) {
            Some(n)
        } else {
            None
        },
        None => None,
    }
}

/// The captures that a project asks for.
pub fn wanted(project: &Project, marker: &Option<String>, selected: &Vec<PortalStreamInfo>) -> (r:
    IdMap<u32>)
    ensures
        r.wf(),
        r@ == wanted_captures(project.sources@, engine_event::text_view(*marker), selected@),
{
    let mut r: IdMap<u32> = IdMap::new();
    let ghost m = engine_event::text_view(*marker);
    let mut i: usize = 0;
    while i < project.sources.len()
        invariant
            i <= project.sources@.len(),
            r.wf(),
            m == engine_event::text_view(*marker),
            r@ == wanted_captures(project.sources@.take(i as int), m, selected@),
        decreases project.sources@.len() - i,
    {
        proof {
            assert(project.sources@.take(i + 1).drop_last() =~= project.sources@.take(i as int));
        }
        match node_of(&project.sources[i], marker, selected) {
            Some(node) => {
                r.insert(project.sources[i].id(), node);
            },
            None => {},
        }
        i += 1;
    }
    assert(project.sources@.take(i as int) =~= project.sources@);
    r
}

// ---------------------------------------------------------------------------
// Starting and stopping captures
// ---------------------------------------------------------------------------

/// Whether a wanted capture is started now: its portal is not lost, it does not
/// run on the wanted node yet, and if it does not run at all, its last start is
/// long enough ago.
pub open spec fn starts<F>(t: CaptureTables<F>, id: u128, node: u32, now: u64) -> bool {
    &&& !t.portal_lost@.contains(id)
    &&& if t.nodes@.dom().contains(id) {
        t.nodes@[id] != node
    } else {
        !(t.restart_backoff@.dom().contains(id) && elapsed(now, t.restart_backoff@[id])
            < IMPORT_RETRY_INTERVAL_NS)
    }
}

/// What the capture thread is told for one wanted capture.
pub open spec fn start_effect<F>(
    t: CaptureTables<F>,
    id: u128,
    node: u32,
    now: u64,
) -> Seq<CaptureEffect> {
    if starts(t, id, node, now) {
        let start = CaptureEffect::Start { source_id: id, node_id: node };
        if t.nodes@.dom().contains(id) {
            seq![CaptureEffect::Stop { source_id: id }, start]
        } else {
            seq![start]
        }
    } else {
        Seq::empty()
    }
}

/// What the capture thread is told for the wanted captures, in order.
pub open spec fn start_effects<F>(
    t: CaptureTables<F>,
    wanted: Map<u128, u32>,
    ids: Seq<u128>,
    now: u64,
) -> Seq<CaptureEffect>
    decreases ids.len(),
{
    if ids.len() == 0 {
        Seq::empty()
    } else {
        start_effects(t, wanted, ids.drop_last(), now) + start_effect(
            t,
            ids.last(),
            wanted[ids.last()],
            now,
        )
    }
}

/// What the capture thread is told for running captures that are not wanted, in
/// order: stop, then the shown buffer back.
pub open spec fn stop_effects<F>(
    frames: Map<u128, CapturedFrame<F>>,
    wanted: Map<u128, u32>,
    ids: Seq<u128>,
) -> Seq<CaptureEffect>
    decreases ids.len(),
{
    if ids.len() == 0 {
        Seq::empty()
    } else {
        let before = stop_effects(frames, wanted, ids.drop_last());
        let id = ids.last();
        if wanted.dom().contains(id) {
            before
        } else {
            before.push(CaptureEffect::Stop { source_id: id }) + return_of(frames, id)
        }
    }
}

/// Whether a running capture is not wanted any more.
pub open spec fn is_unwanted<F>(t: CaptureTables<F>, wanted: Map<u128, u32>, id: u128) -> bool {
    t.nodes@.dom().contains(id) && !wanted.dom().contains(id)
}

/// What the tables say about one source after the captures were brought in line
/// with what is wanted.
pub open spec fn reconciled_at<F>(
    before: CaptureTables<F>,
    after: CaptureTables<F>,
    wanted: Map<u128, u32>,
    now: u64,
    id: u128,
) -> bool {
    if wanted.dom().contains(id) && starts(before, id, wanted[id], now) {
        &&& after.nodes@.dom().contains(id) && after.nodes@[id] == wanted[id]
        &&& after.capture_started@.dom().contains(id) && after.capture_started@[id] == now
        &&& after.restart_backoff@.dom().contains(id) && after.restart_backoff@[id] == now
        &&& id_map::agree(before.frames@, after.frames@, id)
        &&& id_map::agree(before.evict_notified@, after.evict_notified@, id)
    } else if is_unwanted(before, wanted, id) {
        &&& !after.nodes@.dom().contains(id)
        &&& !after.capture_started@.dom().contains(id)
        &&& !after.restart_backoff@.dom().contains(id)
        &&& !after.frames@.dom().contains(id)
        &&& !after.evict_notified@.dom().contains(id)
    } else {
        &&& id_map::agree(before.nodes@, after.nodes@, id)
        &&& id_map::agree(before.capture_started@, after.capture_started@, id)
        &&& id_map::agree(before.restart_backoff@, after.restart_backoff@, id)
        &&& id_map::agree(before.frames@, after.frames@, id)
        &&& id_map::agree(before.evict_notified@, after.evict_notified@, id)
    }
}

spec fn unchanged_at<F>(a: CaptureTables<F>, b: CaptureTables<F>, id: u128) -> bool {
    &&& id_map::agree(a.nodes@, b.nodes@, id)
    &&& id_map::agree(a.capture_started@, b.capture_started@, id)
    &&& id_map::agree(a.restart_backoff@, b.restart_backoff@, id)
    &&& id_map::agree(a.frames@, b.frames@, id)
    &&& id_map::agree(a.evict_notified@, b.evict_notified@, id)
}

impl<F> CaptureTables<F> {
    /// Starts the wanted captures that do not run and stops the running ones
    /// that are not wanted.
    pub fn reconcile(
        &mut self,
        wanted: &IdMap<u32>,
        now: u64,
        effects: &mut Vec<CaptureEffect>,
    )
        requires
            old(self).wf(),
            wanted.wf(),
        ensures
            final(self).wf(),
            forall|id: u128| #[trigger]
                reconciled_at(*old(self), *final(self), wanted@, now, id),
            final(self).portal_lost@ == old(self).portal_lost@,
            final(self).generation == old(self).generation,
            final(effects)@ == old(effects)@ + start_effects(
                *old(self),
                wanted@,
                wanted.order(),
                now,
            ) + stop_effects(old(self).frames@, wanted@, old(self).nodes.order()),
    {
        let ghost before = *self;
        let running = self.nodes.keys();
        let ids = wanted.keys();
        proof {
            wanted.lemma_order();
            self.nodes.lemma_order();
        }
        let mut i: usize = 0;
        while i < ids.len()
            invariant
                i <= ids@.len(),
                self.wf(),
                wanted.wf(),
                before == *old(self),
                ids@ == wanted.order(),
                ids@.no_duplicates(),
                forall|k: int| 0 <= k < ids@.len() ==> wanted@.dom().contains(#[trigger] ids@[k]),
                self.portal_lost == before.portal_lost,
                self.generation == before.generation,
                self.frames == before.frames,
                self.evict_notified == before.evict_notified,
                effects@ == old(effects)@ + start_effects(
                    before,
                    wanted@,
                    ids@.take(i as int),
                    now,
                ),
                forall|id: u128|
                    !ids@.take(i as int).contains(id) ==> #[trigger] unchanged_at(
                        before,
                        *self,
                        id,
                    ),
                forall|k: int|
                    0 <= k < i ==> #[trigger] reconciled_at(before, *self, wanted@, now, ids@[k]),
            decreases ids@.len() - i,
        {
            let id: u128 = ids[i];
            let node: u32 = match wanted.get(id) {
                Some(node) => *node,
                None => 0,
            };
            let ghost prior = *self;
            proof {
                assert(ids@.take(i + 1).drop_last() =~= ids@.take(i as int));
                assert(!ids@.take(i as int).contains(id)) by {
                    if ids@.take(i as int).contains(id) {
                        let j = ids@.take(i as int).index_of(id);
                        assert(ids@[j] == ids@[i as int]);
                    }
                }
                assert(unchanged_at(before, *self, id));
            }
            let lost = self.portal_lost.contains(id);
            let current: Option<u32> = match self.nodes.get(id) {
                Some(n) => Some(*n),
                None => None,
            };
            let cooling = match self.restart_backoff.get(id) {
                Some(last) => elapsed_ns(now, *last) < IMPORT_RETRY_INTERVAL_NS,
                None => false,
            };
            let go = !lost && match current {
                Some(n) => n != node,
                None => !cooling,
            };
            assert(go == starts(before, id, node, now));
            if go {
                if current.is_some() {
                    effects.push(CaptureEffect::Stop { source_id: id });
                }
                effects.push(CaptureEffect::Start { source_id: id, node_id: node });
                self.restart_backoff.insert(id, now);
                self.nodes.insert(id, node);
                self.capture_started.insert(id, now);
            }
            proof {
                assert(effects@ =~= old(effects)@ + start_effects(
                    before,
                    wanted@,
                    ids@.take(i + 1),
                    now,
                ));
                assert forall|k: u128| !ids@.take(i + 1).contains(k) implies #[trigger] unchanged_at(
                    before,
                    *self,
                    k,
                ) by {
                    assert(ids@.take(i + 1)[i as int] == id);
                    assert(!ids@.take(i as int).contains(k)) by {
                        if ids@.take(i as int).contains(k) {
                            let j = ids@.take(i as int).index_of(k);
                            assert(ids@.take(i + 1)[j] == k);
                        }
                    }
                    assert(unchanged_at(before, prior, k));
                }
                assert forall|k: int| 0 <= k < i + 1 implies #[trigger] reconciled_at(
                    before,
                    *self,
                    wanted@,
                    now,
                    ids@[k],
                ) by {
                    if k < i {
                        assert(reconciled_at(before, prior, wanted@, now, ids@[k]));
                        assert(ids@[k] != ids@[i as int]);
                    }
                }
            }
            i += 1;
        }
        assert(ids@.take(i as int) =~= ids@);
        let ghost mid = *self;
        let ghost sent = effects@;
        proof {
            assert forall|id: u128| wanted@.dom().contains(id) implies #[trigger] reconciled_at(
                before,
                mid,
                wanted@,
                now,
                id,
            ) by {
                assert(wanted.order().contains(id));
                let k = ids@.index_of(id);
                assert(reconciled_at(before, mid, wanted@, now, ids@[k]));
            }
            assert forall|id: u128| !wanted@.dom().contains(id) implies #[trigger] unchanged_at(
                before,
                mid,
                id,
            ) by {
                assert(!ids@.contains(id));
            }
        }
        let mut j: usize = 0;
        while j < running.len()
            invariant
                j <= running@.len(),
                self.wf(),
                wanted.wf(),
                before == *old(self),
                running@ == before.nodes.order(),
                running@.no_duplicates(),
                forall|k: int|
                    0 <= k < running@.len() ==> before.nodes@.dom().contains(
                        #[trigger] running@[k],
                    ),
                self.portal_lost == before.portal_lost,
                self.generation == before.generation,
                forall|id: u128|
                    !wanted@.dom().contains(id) ==> #[trigger] unchanged_at(before, mid, id),
                effects@ == sent + stop_effects(before.frames@, wanted@, running@.take(j as int)),
                forall|id: u128|
                    wanted@.dom().contains(id) || !running@.take(j as int).contains(id)
                        ==> #[trigger] unchanged_at(mid, *self, id),
                forall|k: int|
                    0 <= k < j && !wanted@.dom().contains(running@[k]) ==> #[trigger] reconciled_at(
                        before,
                        *self,
                        wanted@,
                        now,
                        running@[k],
                    ),
            decreases running@.len() - j,
        {
            let id: u128 = running[j];
            let ghost prior = *self;
            proof {
                assert(running@.take(j + 1).drop_last() =~= running@.take(j as int));
                assert(!running@.take(j as int).contains(id)) by {
                    if running@.take(j as int).contains(id) {
                        let k = running@.take(j as int).index_of(id);
                        assert(running@[k] == running@[j as int]);
                    }
                }
                assert(unchanged_at(mid, *self, id));
            }
            if !wanted.contains(id) {
                assert(unchanged_at(before, mid, id));
                effects.push(CaptureEffect::Stop { source_id: id });
                self.nodes.remove(id);
                self.capture_started.remove(id);
                self.evict_notified.remove(id);
                self.restart_backoff.remove(id);
                self.return_frame(id, effects);
            }
            proof {
                assert(effects@ =~= sent + stop_effects(
                    before.frames@,
                    wanted@,
                    running@.take(j + 1),
                ));
                assert forall|k: u128|
                    wanted@.dom().contains(k) || !running@.take(j + 1).contains(
                        k,
                    ) implies #[trigger] unchanged_at(mid, *self, k) by {
                    assert(running@.take(j + 1)[j as int] == id);
                    if !wanted@.dom().contains(k) {
                        assert(!running@.take(j as int).contains(k)) by {
                            if running@.take(j as int).contains(k) {
                                let n = running@.take(j as int).index_of(k);
                                assert(running@.take(j + 1)[n] == k);
                            }
                        }
                    }
                    assert(unchanged_at(mid, prior, k));
                }
                assert forall|k: int|
                    0 <= k < j + 1 && !wanted@.dom().contains(
                        running@[k],
                    ) implies #[trigger] reconciled_at(
                    before,
                    *self,
                    wanted@,
                    now,
                    running@[k],
                ) by {
                    if k < j {
                        assert(reconciled_at(before, prior, wanted@, now, running@[k]));
                        assert(running@[k] != running@[j as int]);
                    }
                }
            }
            j += 1;
        }
        assert(running@.take(j as int) =~= running@);
        proof {
            assert forall|id: u128| #[trigger]
                reconciled_at(before, *self, wanted@, now, id) by {
                if wanted@.dom().contains(id) {
                    assert(reconciled_at(before, mid, wanted@, now, id));
                    assert(unchanged_at(mid, *self, id));
                } else if before.nodes@.dom().contains(id) {
                    assert(before.nodes.order().contains(id));
                    let k = running@.index_of(id);
                    assert(reconciled_at(before, *self, wanted@, now, running@[k]));
                } else {
                    assert(!running@.contains(id));
                    assert(unchanged_at(before, mid, id));
                    assert(unchanged_at(mid, *self, id));
                }
            }
        }
    }
}

// ---------------------------------------------------------------------------
// Messages of the capture thread
// ---------------------------------------------------------------------------

/// What a source error means for the tables and for the user.
pub open spec fn failed_at<F>(
    before: CaptureTables<F>,
    after: CaptureTables<F>,
    id: u128,
    reason: Seq<char>,
) -> bool {
    &&& after.nodes@ == before.nodes@.remove(id)
    &&& after.capture_started@ == before.capture_started@.remove(id)
    &&& after.frames@ == before.frames@.remove(id)
    &&& after.restart_backoff@ == before.restart_backoff@
    &&& after.generation == before.generation
    &&& after.evict_notified@.dom() == before.evict_notified@.dom().insert(id)
    &&& already_notified(after.evict_notified@, id, reason)
    &&& id_map::agree_except(before.evict_notified@, after.evict_notified@, id)
}

/// The report of a failure; none where it was the last thing reported.
pub open spec fn failure_events<F>(
    t: CaptureTables<F>,
    id: u128,
    reason: Seq<char>,
) -> Seq<engine_event::EventView> {
    if already_notified(t.evict_notified@, id, reason) {
        Seq::empty()
    } else {
        seq![engine_event::EventView::SourceUnavailable { source_id: id, reason }]
    }
}

/// The capture thread's answer to a failed source: its shown buffer back, then
/// stop.
pub open spec fn failure_effects<F>(t: CaptureTables<F>, id: u128) -> Seq<CaptureEffect> {
    return_of(t.frames@, id).push(CaptureEffect::Stop { source_id: id })
}

impl<F> CaptureTables<F> {
    fn notify(&mut self, id: u128, reason: String, events: &mut Vec<EngineEvent>)
        requires
            old(self).wf(),
        ensures
            final(self).wf(),
            final(self).frames == old(self).frames,
            final(self).nodes == old(self).nodes,
            final(self).capture_started == old(self).capture_started,
            final(self).restart_backoff == old(self).restart_backoff,
            final(self).portal_lost == old(self).portal_lost,
            final(self).generation == old(self).generation,
            final(self).evict_notified@.dom() == old(self).evict_notified@.dom().insert(id),
            already_notified(final(self).evict_notified@, id, reason@),
            id_map::agree_except(old(self).evict_notified@, final(self).evict_notified@, id),
            engine_event::events_view(final(events)@) == engine_event::events_view(old(events)@)
                + failure_events(*old(self), id, reason@),
    {
        let known = match self.evict_notified.get(id) {
            Some(last) => same_text(last.as_str(), reason.as_str()),
            None => false,
        };
        if !known {
            self.evict_notified.insert(id, reason.clone());
            send(events, EngineEvent::SourceUnavailable { source_id: id, reason });
        }
        assert(self.evict_notified@.dom() =~= old(self).evict_notified@.dom().insert(id));
        assert(engine_event::events_view(events@) =~= engine_event::events_view(old(events)@)
            + failure_events(*old(self), id, reason@));
    }

    fn fail(
        &mut self,
        id: u128,
        reason: String,
        available: &mut IdSet,
        effects: &mut Vec<CaptureEffect>,
        events: &mut Vec<EngineEvent>,
    )
        requires
            old(self).wf(),
            old(available).wf(),
        ensures
            final(self).wf(),
            final(available).wf(),
            final(available)@ == old(available)@.remove(id),
            failed_at(*old(self), *final(self), id, reason@),
            final(self).portal_lost == old(self).portal_lost,
            final(effects)@ == old(effects)@ + failure_effects(*old(self), id),
            engine_event::events_view(final(events)@) == engine_event::events_view(old(events)@)
                + failure_events(*old(self), id, reason@),
    {
        available.remove(id);
        self.capture_started.remove(id);
        self.nodes.remove(id);
        self.return_frame(id, effects);
        effects.push(CaptureEffect::Stop { source_id: id });
        assert(effects@ =~= old(effects)@ + failure_effects(*old(self), id));
        self.notify(id, reason, events);
    }

    /// Takes in one message of the capture thread. `portal_lost_reason` is the
    /// report that means the portal connection itself is gone.
    pub fn on_message(
        &mut self,
        message: FrameMessage<F>,
        portal_lost_reason: &str,
        import_failures: &IdMap<u64>,
        available: &mut IdSet,
        effects: &mut Vec<CaptureEffect>,
        events: &mut Vec<EngineEvent>,
    )
        requires
            old(self).wf(),
            old(available).wf(),
            import_failures.wf(),
        ensures
            final(self).wf(),
            final(available).wf(),
            final(self).generation == old(self).generation,
            match message {
                FrameMessage::Frame(frame) => {
                    let id = frame.source_id;
                    &&& final(self).frames@ == old(self).frames@.insert(id, frame)
                    &&& final(self).capture_started@ == old(self).capture_started@.remove(id)
                    &&& final(self).evict_notified@ == old(self).evict_notified@.remove(id)
                    &&& final(self).restart_backoff@ == old(self).restart_backoff@.remove(id)
                    &&& final(self).nodes == old(self).nodes
                    &&& final(self).portal_lost == old(self).portal_lost
                    &&& final(available)@ == old(available)@.insert(id)
                    &&& final(effects)@ == old(effects)@ + return_of(old(self).frames@, id)
                    &&& engine_event::events_view(final(events)@) == (if old(available)@.contains(
                        id,
                    ) || import_failures@.dom().contains(id) {
                        engine_event::events_view(old(events)@)
                    } else {
                        engine_event::events_view(old(events)@).push(
                            engine_event::EventView::SourceAvailable { source_id: id },
                        )
                    })
                },
                FrameMessage::SourceError { source_id, reason } => {
                    &&& failed_at(*old(self), *final(self), source_id, reason@)
                    &&& final(self).portal_lost@ == (if reason@ == portal_lost_reason@ {
                        old(self).portal_lost@.insert(source_id)
                    } else {
                        old(self).portal_lost@
                    })
                    &&& final(available)@ == old(available)@.remove(source_id)
                    &&& final(effects)@ == old(effects)@ + failure_effects(*old(self), source_id)
                    &&& engine_event::events_view(final(events)@) == engine_event::events_view(
                        old(events)@,
                    ) + failure_events(*old(self), source_id, reason@)
                },
            },
    {
        match message {
            FrameMessage::Frame(frame) => {
                let id: u128 = frame.source_id;
                match self.frames.insert(id, frame) {
                    Some(previous) => {
                        effects.push(
                            CaptureEffect::Return { source_id: id, token: previous.buffer_token },
                        );
                    },
                    None => {},
                }
                assert(effects@ =~= old(effects)@ + return_of(old(self).frames@, id));
                self.capture_started.remove(id);
                self.evict_notified.remove(id);
                self.restart_backoff.remove(id);
                let first = available.insert(id);
                if first && !import_failures.contains(id) {
                    send(events, EngineEvent::SourceAvailable { source_id: id });
                }
            },
            FrameMessage::SourceError { source_id, reason } => {
                let lost = same_text(reason.as_str(), portal_lost_reason);
                self.fail(source_id, reason, available, effects, events);
                if lost {
                    self.portal_lost.insert(source_id);
                }
            },
        }
    }
}

// ---------------------------------------------------------------------------
// Silent captures
// ---------------------------------------------------------------------------

/// What is reported of a capture that never delivered.
pub open spec fn silent_reason() -> Seq<char> {
    "PipeWire-Quelle liefert keine Live-Frames"@
}

/// Whether a capture was started and has not delivered in time.
pub open spec fn is_silent<F>(t: CaptureTables<F>, now: u64, id: u128) -> bool {
    t.capture_started@.dom().contains(id) && elapsed(now, t.capture_started@[id])
        > CAPTURE_GRACE_NS
}

/// What the capture thread is told about silent captures, in order.
pub open spec fn silence_effects<F>(t: CaptureTables<F>, now: u64, ids: Seq<u128>) -> Seq<
    CaptureEffect,
>
    decreases ids.len(),
{
    if ids.len() == 0 {
        Seq::empty()
    } else {
        let before = silence_effects(t, now, ids.drop_last());
        if is_silent(t, now, ids.last()) {
            before + failure_effects(t, ids.last())
        } else {
            before
        }
    }
}

/// What the user is told about silent captures, in order.
pub open spec fn silence_events<F>(t: CaptureTables<F>, now: u64, ids: Seq<u128>) -> Seq<
    engine_event::EventView,
>
    decreases ids.len(),
{
    if ids.len() == 0 {
        Seq::empty()
    } else {
        let before = silence_events(t, now, ids.drop_last());
        if is_silent(t, now, ids.last()) {
            before + failure_events(t, ids.last(), silent_reason())
        } else {
            before
        }
    }
}

/// What the tables say about one source after silent captures were given up.
pub open spec fn expired_at<F>(
    before: CaptureTables<F>,
    after: CaptureTables<F>,
    now: u64,
    id: u128,
) -> bool {
    if is_silent(before, now, id) {
        &&& !after.nodes@.dom().contains(id)
        &&& !after.capture_started@.dom().contains(id)
        &&& !after.frames@.dom().contains(id)
        &&& already_notified(after.evict_notified@, id, silent_reason())
    } else {
        &&& id_map::agree(before.nodes@, after.nodes@, id)
        &&& id_map::agree(before.capture_started@, after.capture_started@, id)
        &&& id_map::agree(before.frames@, after.frames@, id)
        &&& id_map::agree(before.evict_notified@, after.evict_notified@, id)
    }
}

impl<F> CaptureTables<F> {
    /// Gives up captures that were started and never delivered; the next
    /// reconciliation starts them again.
    pub fn expire(
        &mut self,
        now: u64,
        available: &mut IdSet,
        effects: &mut Vec<CaptureEffect>,
        events: &mut Vec<EngineEvent>,
    )
        requires
            old(self).wf(),
            old(available).wf(),
        ensures
            final(self).wf(),
            final(available).wf(),
            forall|id: u128| #[trigger] expired_at(*old(self), *final(self), now, id),
            forall|id: u128| #[trigger]
                final(available)@.contains(id) <==> old(available)@.contains(id) && !is_silent(
                    *old(self),
                    now,
                    id,
                ),
            final(self).restart_backoff@ == old(self).restart_backoff@,
            final(self).portal_lost == old(self).portal_lost,
            final(self).generation == old(self).generation,
            final(effects)@ == old(effects)@ + silence_effects(
                *old(self),
                now,
                old(self).capture_started.order(),
            ),
            engine_event::events_view(final(events)@) == engine_event::events_view(old(events)@)
                + silence_events(*old(self), now, old(self).capture_started.order()),
    {
        let ghost before = *self;
        let ids = self.capture_started.keys();
        proof {
            self.capture_started.lemma_order();
        }
        let mut i: usize = 0;
        while i < ids.len()
            invariant
                i <= ids@.len(),
                self.wf(),
                available.wf(),
                before == *old(self),
                ids@ == before.capture_started.order(),
                ids@.no_duplicates(),
                forall|k: int|
                    0 <= k < ids@.len() ==> before.capture_started@.dom().contains(
                        #[trigger] ids@[k],
                    ),
                self.restart_backoff@ == before.restart_backoff@,
                self.portal_lost == before.portal_lost,
                self.generation == before.generation,
                effects@ == old(effects)@ + silence_effects(before, now, ids@.take(i as int)),
                engine_event::events_view(events@) == engine_event::events_view(old(events)@)
                    + silence_events(before, now, ids@.take(i as int)),
                forall|id: u128|
                    !ids@.take(i as int).contains(id) ==> #[trigger] unchanged_at(
                        before,
                        *self,
                        id,
                    ),
                forall|k: int| 0 <= k < i ==> #[trigger] expired_at(before, *self, now, ids@[k]),
                forall|id: u128| #[trigger]
                    available@.contains(id) <==> old(available)@.contains(id) && !(ids@.take(
                        i as int,
                    ).contains(id) && is_silent(before, now, id)),
            decreases ids@.len() - i,
        {
            let id: u128 = ids[i];
            let ghost prior = *self;
            proof {
                assert(ids@.take(i + 1).drop_last() =~= ids@.take(i as int));
                assert(ids@.take(i + 1)[i as int] == id);
                assert(!ids@.take(i as int).contains(id)) by {
                    if ids@.take(i as int).contains(id) {
                        let j = ids@.take(i as int).index_of(id);
                        assert(ids@[j] == ids@[i as int]);
                    }
                }
                assert(unchanged_at(before, *self, id));
                assert forall|k: u128|
                    ids@.take(i + 1).contains(k) <==> (k == id || ids@.take(i as int).contains(
                        k,
                    )) by {
                    if ids@.take(i as int).contains(k) {
                        let j = ids@.take(i as int).index_of(k);
                        assert(ids@.take(i + 1)[j] == k);
                    }
                    if ids@.take(i + 1).contains(k) && k != id {
                        let j = ids@.take(i + 1).index_of(k);
                        assert(ids@.take(i as int)[j] == k);
                    }
                }
            }
            let silent = match self.capture_started.get(id) {
                Some(started) => elapsed_ns(now, *started) > CAPTURE_GRACE_NS,
                None => false,
            };
            assert(silent == is_silent(before, now, id));
            if silent {
                let reason = "PipeWire-Quelle liefert keine Live-Frames".to_owned();
                self.fail(id, reason, available, effects, events);
            }
            proof {
                assert(effects@ =~= old(effects)@ + silence_effects(before, now, ids@.take(i + 1)));
                assert(engine_event::events_view(events@) =~= engine_event::events_view(
                    old(events)@,
                ) + silence_events(before, now, ids@.take(i + 1)));
                assert forall|k: u128| !ids@.take(i + 1).contains(k) implies #[trigger] unchanged_at(
                    before,
                    *self,
                    k,
                ) by {
                    assert(unchanged_at(before, prior, k));
                    if silent {
                        assert(id_map::agree(prior.evict_notified@, self.evict_notified@, k));
                    }
                }
                assert forall|k: int| 0 <= k < i + 1 implies #[trigger] expired_at(
                    before,
                    *self,
                    now,
                    ids@[k],
                ) by {
                    if k < i {
                        assert(expired_at(before, prior, now, ids@[k]));
                        assert(ids@[k] != ids@[i as int]);
                        if silent {
                            assert(id_map::agree(
                                prior.evict_notified@,
                                self.evict_notified@,
                                ids@[k],
                            ));
                        }
                    }
                }
            }
            i += 1;
        }
        assert(ids@.take(i as int) =~= ids@);
        proof {
            assert forall|id: u128| #[trigger] expired_at(before, *self, now, id) by {
                if before.capture_started@.dom().contains(id) {
                    assert(before.capture_started.order().contains(id));
                    let k = ids@.index_of(id);
                    assert(expired_at(before, *self, now, ids@[k]));
                } else {
                    assert(!ids@.contains(id));
                    assert(unchanged_at(before, *self, id));
                }
            }
        }
    }
}

// ---------------------------------------------------------------------------
// Laws
// ---------------------------------------------------------------------------

/// After a reconciliation only wanted captures run, and a wanted capture that
/// runs does so on the wanted node.
pub proof fn law_only_wanted_captures_run<F>(
    before: CaptureTables<F>,
    after: CaptureTables<F>,
    wanted: Map<u128, u32>,
    now: u64,
    id: u128,
)
    requires
        reconciled_at(before, after, wanted, now, id),
        after.nodes@.dom().contains(id),
        !before.portal_lost@.contains(id),
    ensures
        wanted.dom().contains(id),
        after.nodes@[id] == wanted[id],
{
}

/// A wanted capture is started exactly where its portal connection stands and either it
/// runs on another node, or it does not run and was not started within the last half
/// second. A capture that runs on its node is left alone.
pub proof fn law_capture_starts_when_due<F>(t: CaptureTables<F>, id: u128, node: u32, now: u64)
    ensures
        t.portal_lost@.contains(id) ==> start_effect(t, id, node, now) == Seq::<
            CaptureEffect,
        >::empty(),
        !t.portal_lost@.contains(id) && t.nodes@.dom().contains(id) && t.nodes@[id] != node
            ==> start_effect(t, id, node, now) == seq![
            CaptureEffect::Stop { source_id: id },
            CaptureEffect::Start { source_id: id, node_id: node },
        ],
        t.nodes@.dom().contains(id) && t.nodes@[id] == node ==> start_effect(t, id, node, now)
            == Seq::<CaptureEffect>::empty(),
        !t.portal_lost@.contains(id) && !t.nodes@.dom().contains(id) && (
        t.restart_backoff@.dom().contains(id) ==> t.restart_backoff@[id] + 500_000_000 <= now)
            ==> start_effect(t, id, node, now) == seq![
            CaptureEffect::Start { source_id: id, node_id: node },
        ],
        !t.nodes@.dom().contains(id) && t.restart_backoff@.dom().contains(id) && now
            < t.restart_backoff@[id] + 500_000_000 ==> start_effect(t, id, node, now) == Seq::<
            CaptureEffect,
        >::empty(),
{
}

/// Of the wanted captures those are started that are due, each on its own node.
pub proof fn law_due_captures_are_started<F>(
    t: CaptureTables<F>,
    wanted: Map<u128, u32>,
    ids: Seq<u128>,
    now: u64,
    i: int,
)
    requires
        0 <= i < ids.len(),
        !t.portal_lost@.contains(ids[i]),
        !(t.nodes@.dom().contains(ids[i]) && t.nodes@[ids[i]] == wanted[ids[i]]),
        !t.nodes@.dom().contains(ids[i]) && t.restart_backoff@.dom().contains(ids[i])
            ==> t.restart_backoff@[ids[i]] + 500_000_000 <= now,
    ensures
        start_effects(t, wanted, ids, now).contains(
            CaptureEffect::Start { source_id: ids[i], node_id: wanted[ids[i]] },
        ),
    decreases ids.len(),
{
    let start = CaptureEffect::Start { source_id: ids[i], node_id: wanted[ids[i]] };
    let before = start_effects(t, wanted, ids.drop_last(), now);
    let last = start_effect(t, ids.last(), wanted[ids.last()], now);
    if i == ids.len() - 1 {
        assert(last[last.len() - 1] == start);
    } else {
        law_due_captures_are_started(t, wanted, ids.drop_last(), now, i);
    }
    lemma_contained(before, last, start);
}

/// After the captures were brought in line, each that is wanted and was due runs on its
/// node as started now, none that is not wanted runs or shows a frame, and every other
/// is as it was.
pub proof fn law_captures_are_brought_in_line<F>(
    before: CaptureTables<F>,
    after: CaptureTables<F>,
    wanted: Map<u128, u32>,
    now: u64,
    id: u128,
)
    requires
        reconciled_at(before, after, wanted, now, id),
    ensures
        !wanted.dom().contains(id) && before.nodes@.dom().contains(id) ==> {
            &&& !after.nodes@.dom().contains(id)
            &&& !after.frames@.dom().contains(id)
            &&& !after.capture_started@.dom().contains(id)
            &&& !after.restart_backoff@.dom().contains(id)
            &&& !after.evict_notified@.dom().contains(id)
        },
        wanted.dom().contains(id) && !before.portal_lost@.contains(id) && before.nodes@.dom().contains(
            id,
        ) ==> after.nodes@.dom().contains(id) && after.nodes@[id] == wanted[id],
        wanted.dom().contains(id) && !before.portal_lost@.contains(id) && !before.nodes@.dom().contains(
            id,
        ) && (before.restart_backoff@.dom().contains(id) ==> before.restart_backoff@[id]
            + 500_000_000 <= now) ==> {
            &&& after.nodes@.dom().contains(id) && after.nodes@[id] == wanted[id]
            &&& after.capture_started@.dom().contains(id) && after.capture_started@[id] == now
            &&& after.restart_backoff@.dom().contains(id) && after.restart_backoff@[id] == now
        },
        wanted.dom().contains(id) && before.nodes@.dom().contains(id) && before.nodes@[id]
            == wanted[id] ==> {
            &&& id_map::agree(before.capture_started@, after.capture_started@, id)
            &&& id_map::agree(before.restart_backoff@, after.restart_backoff@, id)
            &&& id_map::agree(before.frames@, after.frames@, id)
        },
        wanted.dom().contains(id) && before.frames@.dom().contains(id)
            ==> after.frames@.dom().contains(id) && after.frames@[id] == before.frames@[id],
{
}

/// A capture that has delivered nothing for more than three quarters of a second after
/// its start is given up, and no other: its frame goes, it no longer runs, and the
/// reason is noted.
pub proof fn law_silent_capture_is_given_up<F>(
    before: CaptureTables<F>,
    after: CaptureTables<F>,
    now: u64,
    id: u128,
)
    requires
        expired_at(before, after, now, id),
    ensures
        before.capture_started@.dom().contains(id) && now > before.capture_started@[id]
            + 750_000_000 ==> {
            &&& !after.nodes@.dom().contains(id)
            &&& !after.frames@.dom().contains(id)
            &&& !after.capture_started@.dom().contains(id)
            &&& after.evict_notified@.dom().contains(id)
        },
        !before.capture_started@.dom().contains(id) || now <= before.capture_started@[id]
            + 750_000_000 ==> {
            &&& id_map::agree(before.nodes@, after.nodes@, id)
            &&& id_map::agree(before.frames@, after.frames@, id)
            &&& id_map::agree(before.capture_started@, after.capture_started@, id)
            &&& id_map::agree(before.evict_notified@, after.evict_notified@, id)
        },
{
}

/// A source is captured from the node that it names where the portal's marker is its
/// own and the node was selected: a window names it in decimal in its title field, a
/// display by its output. Other sources are never captured.
pub proof fn law_capture_runs_on_the_selected_node(
    source: Source,
    marker: Option<Seq<char>>,
    selected: Seq<PortalStreamInfo>,
    i: int,
    node: u32,
)
    requires
        0 <= i < selected.len(),
        selected[i].pipewire_node_id == node,
    ensures
        match source {
            Source::Window { process_path, window_title, .. } => {
                &&& marker == Some(process_path@) && text::parsed_u32(window_title@) == Some(node)
                    ==> wanted_node(source, marker, selected) == Some(node)
                &&& wanted_node(source, marker, selected) is Some ==> marker == Some(
                    process_path@,
                ) && wanted_node(source, marker, selected) == text::parsed_u32(window_title@)
            },
            Source::Display { adapter_luid, output_id, .. } => {
                &&& marker == Some(adapter_luid@) && output_id == node ==> wanted_node(
                    source,
                    marker,
                    selected,
                ) == Some(node)
                &&& wanted_node(source, marker, selected) is Some ==> marker == Some(
                    adapter_luid@,
                ) && wanted_node(source, marker, selected) == Some(output_id)
            },
            _ => wanted_node(source, marker, selected) is None,
        },
{
}

/// A node that was not selected is not captured.
pub proof fn law_unselected_node_is_not_captured(
    source: Source,
    marker: Option<Seq<char>>,
    selected: Seq<PortalStreamInfo>,
    node: u32,
)
    requires
        forall|i: int|
            0 <= i < selected.len() ==> (#[trigger] selected[i]).pipewire_node_id != node,
    ensures
        wanted_node(source, marker, selected) != Some(node),
{
}

/// Every source that names a selected node is captured, under its id; of several with
/// one id the last decides.
pub proof fn law_every_capturable_source_is_wanted(
    sources: Seq<Source>,
    marker: Option<Seq<char>>,
    selected: Seq<PortalStreamInfo>,
    i: int,
)
    requires
        0 <= i < sources.len(),
        wanted_node(sources[i], marker, selected) is Some,
        forall|j: int|
            i < j < sources.len() ==> project::id_of(#[trigger] sources[j]) != project::id_of(
                sources[i],
            ),
    ensures
        ({
            let captures = wanted_captures(sources, marker, selected);
            let id = project::id_of(sources[i]);
            captures.dom().contains(id) && Some(captures[id]) == wanted_node(
                sources[i],
                marker,
                selected,
            )
        }),
    decreases sources.len(),
{
    if i < sources.len() - 1 {
        assert(project::id_of(sources[sources.len() - 1]) != project::id_of(sources[i]));
        law_every_capturable_source_is_wanted(sources.drop_last(), marker, selected, i);
    }
}

/// What is captured belongs to a source that names a selected node.
pub proof fn law_only_capturable_sources_are_wanted(
    sources: Seq<Source>,
    marker: Option<Seq<char>>,
    selected: Seq<PortalStreamInfo>,
    id: u128,
)
    requires
        forall|i: int|
            0 <= i < sources.len() && project::id_of(#[trigger] sources[i]) == id ==> wanted_node(
                sources[i],
                marker,
                selected,
            ) is None,
    ensures
        !wanted_captures(sources, marker, selected).dom().contains(id),
    decreases sources.len(),
{
    if sources.len() > 0 {
        assert(sources.last() == sources[sources.len() - 1]);
        assert forall|i: int|
            0 <= i < sources.drop_last().len() && project::id_of(#[trigger] sources.drop_last()[i])
                == id implies wanted_node(sources.drop_last()[i], marker, selected) is None by {
            assert(sources.drop_last()[i] == sources[i]);
        }
        law_only_capturable_sources_are_wanted(sources.drop_last(), marker, selected, id);
    }
}

/// A source whose portal is lost is not started before the next selection.
pub proof fn law_lost_portal_waits<F>(t: CaptureTables<F>, id: u128, node: u32, now: u64)
    requires
        t.portal_lost@.contains(id),
    ensures
        !starts(t, id, node, now),
{
}

/// A capture whose start failed is not started again within the retry interval:
/// the failure removes its node and keeps the time of the start.
pub proof fn law_failed_start_backs_off<F>(
    started: CaptureTables<F>,
    failed: CaptureTables<F>,
    id: u128,
    reason: Seq<char>,
    node: u32,
    at: u64,
    now: u64,
)
    requires
        started.restart_backoff@.dom().contains(id),
        started.restart_backoff@[id] == at,
        failed_at(started, failed, id, reason),
        elapsed(now, at) < IMPORT_RETRY_INTERVAL_NS,
    ensures
        !starts(failed, id, node, now),
{
}

/// The same failure is reported once: right after a report, the same reason for
/// the same source produces no event.
pub proof fn law_failure_is_reported_once<F>(
    before: CaptureTables<F>,
    after: CaptureTables<F>,
    id: u128,
    reason: Seq<char>,
)
    requires
        failed_at(before, after, id, reason),
    ensures
        failure_events(after, id, reason) == Seq::<engine_event::EventView>::empty(),
{
}

proof fn lemma_returns_contain<F>(frames: Map<u128, CapturedFrame<F>>, ids: Seq<u128>, i: int)
    requires
        0 <= i < ids.len(),
        frames.dom().contains(ids[i]),
    ensures
        returns_of(frames, ids).contains(
            CaptureEffect::Return { source_id: ids[i], token: frames[ids[i]].buffer_token },
        ),
    decreases ids.len(),
{
    let wanted = CaptureEffect::Return { source_id: ids[i], token: frames[ids[i]].buffer_token };
    let init = returns_of(frames, ids.drop_last());
    let all = returns_of(frames, ids);
    if i == ids.len() - 1 {
        assert(all[init.len() as int] == wanted);
    } else {
        assert(ids.drop_last()[i] == ids[i]);
        lemma_returns_contain(frames, ids.drop_last(), i);
        let k = init.index_of(wanted);
        assert(all[k] == wanted);
    }
}

/// No buffer is lost when the portal selection changes: the buffer of every
/// shown frame is among those returned.
pub proof fn law_every_buffer_is_returned<F>(tables: CaptureTables<F>, id: u128)
    requires
        tables.wf(),
        tables.frames@.dom().contains(id),
    ensures
        returns_of(tables.frames@, tables.frames.order()).contains(
            CaptureEffect::Return { source_id: id, token: tables.frames@[id].buffer_token },
        ),
{
    tables.frames.lemma_order();
    assert(tables.frames.order().contains(id));
    let i = tables.frames.order().index_of(id);
    lemma_returns_contain(tables.frames@, tables.frames.order(), i);
}

/// Whether the buffer of a frame that is no longer shown is among the effects.
pub open spec fn gives_back<F>(
    before: CaptureTables<F>,
    after: CaptureTables<F>,
    effects: Seq<CaptureEffect>,
    id: u128,
) -> bool {
    before.frames@.dom().contains(id) && !after.frames@.dom().contains(id) ==> effects.contains(
        CaptureEffect::Return { source_id: id, token: before.frames@[id].buffer_token },
    )
}

proof fn lemma_contained(a: Seq<CaptureEffect>, b: Seq<CaptureEffect>, effect: CaptureEffect)
    requires
        a.contains(effect) || b.contains(effect),
    ensures
        (a + b).contains(effect),
{
    if a.contains(effect) {
        let i = a.index_of(effect);
        assert((a + b)[i] == effect);
    } else {
        let i = b.index_of(effect);
        assert((a + b)[a.len() + i] == effect);
    }
}

proof fn lemma_return_of<F>(frames: Map<u128, CapturedFrame<F>>, id: u128)
    requires
        frames.dom().contains(id),
    ensures
        return_of(frames, id).contains(
            CaptureEffect::Return { source_id: id, token: frames[id].buffer_token },
        ),
{
    assert(return_of(frames, id)[0] == (CaptureEffect::Return {
        source_id: id,
        token: frames[id].buffer_token,
    }));
}

proof fn lemma_stops_return<F>(
    frames: Map<u128, CapturedFrame<F>>,
    wanted: Map<u128, u32>,
    ids: Seq<u128>,
    id: u128,
)
    requires
        ids.contains(id),
        frames.dom().contains(id),
        !wanted.dom().contains(id),
    ensures
        stop_effects(frames, wanted, ids).contains(
            CaptureEffect::Return { source_id: id, token: frames[id].buffer_token },
        ),
    decreases ids.len(),
{
    let effect = CaptureEffect::Return { source_id: id, token: frames[id].buffer_token };
    let last = ids.last();
    let before = stop_effects(frames, wanted, ids.drop_last());
    if last == id {
        lemma_return_of(frames, id);
        lemma_contained(
            before.push(CaptureEffect::Stop { source_id: id }),
            return_of(frames, id),
            effect,
        );
    } else {
        let i = ids.index_of(id);
        assert(ids.drop_last()[i] == id);
        lemma_stops_return(frames, wanted, ids.drop_last(), id);
        let i = before.index_of(effect);
        assert(before.push(CaptureEffect::Stop { source_id: last })[i] == effect);
        lemma_contained(
            before.push(CaptureEffect::Stop { source_id: last }),
            return_of(frames, last),
            effect,
        );
    }
}

proof fn lemma_failure_returns<F>(t: CaptureTables<F>, id: u128)
    requires
        t.frames@.dom().contains(id),
    ensures
        failure_effects(t, id).contains(
            CaptureEffect::Return { source_id: id, token: t.frames@[id].buffer_token },
        ),
{
    assert(failure_effects(t, id)[0] == (CaptureEffect::Return {
        source_id: id,
        token: t.frames@[id].buffer_token,
    }));
}

proof fn lemma_silence_returns<F>(t: CaptureTables<F>, now: u64, ids: Seq<u128>, id: u128)
    requires
        ids.contains(id),
        t.frames@.dom().contains(id),
        is_silent(t, now, id),
    ensures
        silence_effects(t, now, ids).contains(
            CaptureEffect::Return { source_id: id, token: t.frames@[id].buffer_token },
        ),
    decreases ids.len(),
{
    let effect = CaptureEffect::Return { source_id: id, token: t.frames@[id].buffer_token };
    let last = ids.last();
    let before = silence_effects(t, now, ids.drop_last());
    if last == id {
        lemma_failure_returns(t, id);
        lemma_contained(before, failure_effects(t, id), effect);
    } else {
        let i = ids.index_of(id);
        assert(ids.drop_last()[i] == id);
        lemma_silence_returns(t, now, ids.drop_last(), id);
        if is_silent(t, now, last) {
            lemma_contained(before, failure_effects(t, last), effect);
        }
    }
}

/// A capture that is stopped because nobody wants it gives its buffer back.
pub proof fn law_stopped_capture_gives_back<F>(
    before: CaptureTables<F>,
    after: CaptureTables<F>,
    wanted: Map<u128, u32>,
    order: Seq<u128>,
    now: u64,
    id: u128,
)
    requires
        before.wf(),
        reconciled_at(before, after, wanted, now, id),
    ensures
        gives_back(
            before,
            after,
            start_effects(before, wanted, order, now) + stop_effects(
                before.frames@,
                wanted,
                before.nodes.order(),
            ),
            id,
        ),
{
    if before.frames@.dom().contains(id) && !after.frames@.dom().contains(id) {
        before.nodes.lemma_order();
        lemma_stops_return(before.frames@, wanted, before.nodes.order(), id);
        lemma_contained(
            start_effects(before, wanted, order, now),
            stop_effects(before.frames@, wanted, before.nodes.order()),
            CaptureEffect::Return { source_id: id, token: before.frames@[id].buffer_token },
        );
    }
}

/// A capture that failed gives its buffer back, whatever the reason.
pub proof fn law_failed_capture_gives_back<F>(
    before: CaptureTables<F>,
    after: CaptureTables<F>,
    failed: u128,
    reason: Seq<char>,
    id: u128,
)
    requires
        failed_at(before, after, failed, reason),
    ensures
        gives_back(before, after, failure_effects(before, failed), id),
{
    if before.frames@.dom().contains(failed) {
        lemma_failure_returns(before, failed);
    }
}

/// A capture that was given up for its silence gives its buffer back.
pub proof fn law_silent_capture_gives_back<F>(
    before: CaptureTables<F>,
    after: CaptureTables<F>,
    now: u64,
    id: u128,
)
    requires
        before.wf(),
        expired_at(before, after, now, id),
    ensures
        gives_back(
            before,
            after,
            silence_effects(before, now, before.capture_started.order()),
            id,
        ),
{
    if before.frames@.dom().contains(id) && !after.frames@.dom().contains(id) {
        before.capture_started.lemma_order();
        lemma_silence_returns(before, now, before.capture_started.order(), id);
    }
}

/// A project that was saved with the marker of another selection asks for no
/// capture of the current one.
pub proof fn law_old_selection_is_not_rebound(
    source: Source,
    current: u128,
    saved: u128,
    selected: Seq<PortalStreamInfo>,
)
    requires
        current != saved,
        match source {
            Source::Window { process_path, .. } => process_path@ == linux::marker_text(
                saved,
            ),
            Source::Display { adapter_luid, .. } => adapter_luid@ == linux::marker_text(
                saved,
            ),
            _ => true,
        },
    ensures
        wanted_node(source, Some(linux::marker_text(current)), selected) is None,
{
    if linux::marker_text(current) == linux::marker_text(saved) {
        linux::law_marker_identifies_selection(current, saved);
    }
}

} // verus!
