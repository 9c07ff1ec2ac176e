//! Imported DMA-BUF textures: when they are imported, retired and handed back
//! and forth between the capture side and the graphics queue.
//!
//! `T` is the renderer's texture (image, view and memories); `image` is the
//! number of its image handle. A texture that leaves a table is appended to a
//! list of retired textures that the caller destroys.

use vstd::prelude::*;
use vstd::string::*;

use crate::engine_event;
use crate::engine_event::{send, EngineEvent};
use crate::id_map;
use crate::id_map::IdMap;
use crate::portal_captures;
use crate::portal_captures::{elapsed_ns, IMPORT_RETRY_INTERVAL_NS};

verus! {

/// An imported texture.
pub struct CachedExternalFrame<T> {
    pub sequence: u64,
    pub texture: T,
    pub image: u64,
    /// Planar images own one memory per plane, and their barriers address the
    /// planes instead of the colour aspect.
    pub disjoint: bool,
    /// Whether the image was acquired by the graphics queue before.
    pub acquired: bool,
}

/// Where a texture comes from.
#[derive(Clone, Copy, Debug, PartialEq, Eq, Structural)]
pub enum ExternalKind {
    Portal,
    Media,
}

/// The imported textures of portal captures and of media files.
pub struct ExternalTextures<T> {
    pub portal: IdMap<CachedExternalFrame<T>>,
    pub media: IdMap<CachedExternalFrame<T>>,
}

/// What is told about a source whose frame cannot be imported.
pub open spec fn import_failed_reason() -> Seq<char> {
    "Vulkan-DMA-BUF-Import fehlgeschlagen"@
}

/// The textures of the ids that are not wanted, in order.
pub open spec fn stale_textures<T>(
    table: Map<u128, CachedExternalFrame<T>>,
    wanted: Set<u128>,
    ids: Seq<u128>,
) -> Seq<T>
    decreases ids.len(),
{
    if ids.len() == 0 {
        Seq::empty()
    } else {
        let before = stale_textures(table, wanted, ids.drop_last());
        if wanted.contains(ids.last()) {
            before
        } else {
            before.push(table[ids.last()].texture)
        }
    }
}

/// The texture of a source, if there is one.
pub open spec fn texture_of<T>(table: Map<u128, CachedExternalFrame<T>>, id: u128) -> Seq<T> {
    if table.dom().contains(id) {
        seq![table[id].texture]
    } else {
        Seq::empty()
    }
}

/// What a table and the failed imports say about one source after the textures
/// of sources that are not wanted were retired.
pub open spec fn swept_at<T>(
    t0: Map<u128, CachedExternalFrame<T>>,
    t1: Map<u128, CachedExternalFrame<T>>,
    f0: Map<u128, u64>,
    f1: Map<u128, u64>,
    wanted: Set<u128>,
    id: u128,
) -> bool {
    if t0.dom().contains(id) && !wanted.contains(id) {
        !t1.dom().contains(id) && !f1.dom().contains(id)
    } else {
        id_map::agree(t0, t1, id) && id_map::agree(f0, f1, id)
    }
}

spec fn untouched_at<T>(
    t0: Map<u128, CachedExternalFrame<T>>,
    t1: Map<u128, CachedExternalFrame<T>>,
    f0: Map<u128, u64>,
    f1: Map<u128, u64>,
    id: u128,
) -> bool {
    id_map::agree(t0, t1, id) && id_map::agree(f0, f1, id)
}

fn retire_stale<T, X>(
    table: &mut IdMap<CachedExternalFrame<T>>,
    wanted: &IdMap<X>,
    import_failures: &mut IdMap<u64>,
    retired: &mut Vec<T>,
)
    requires
        old(table).wf(),
        wanted.wf(),
        old(import_failures).wf(),
    ensures
        final(table).wf(),
        final(import_failures).wf(),
        forall|id: u128| #[trigger]
            swept_at(
                old(table)@,
                final(table)@,
                old(import_failures)@,
                final(import_failures)@,
                wanted@.dom(),
                id,
            ),
        final(retired)@ == old(retired)@ + stale_textures(
            old(table)@,
            wanted@.dom(),
            old(table).order(),
        ),
{
    let ids = table.keys();
    proof {
        table.lemma_order();
    }
    let ghost t0 = table@;
    let ghost f0 = import_failures@;
    let mut i: usize = 0;
    while i < ids.len()
        invariant
            i <= ids@.len(),
            table.wf(),
            wanted.wf(),
            import_failures.wf(),
            t0 == old(table)@,
            f0 == old(import_failures)@,
            ids@ == old(table).order(),
            ids@.no_duplicates(),
            forall|k: int| 0 <= k < ids@.len() ==> t0.dom().contains(#[trigger] ids@[k]),
            retired@ == old(retired)@ + stale_textures(t0, wanted@.dom(), ids@.take(i as int)),
            forall|id: u128|
                !ids@.take(i as int).contains(id) ==> #[trigger] untouched_at(
                    t0,
                    table@,
                    f0,
                    import_failures@,
                    id,
                ),
            forall|k: int|
                0 <= k < i ==> #[trigger] swept_at(
                    t0,
                    table@,
                    f0,
                    import_failures@,
                    wanted@.dom(),
                    ids@[k],
                ),
        decreases ids@.len() - i,
    {
        let id: u128 = ids[i];
        let ghost t1 = table@;
        let ghost f1 = import_failures@;
        let ghost done = ids@.take(i as int);
        let ghost next = ids@.take(i + 1);
        proof {
            assert(next.drop_last() =~= done);
            assert(next[i as int] == id);
            assert(!done.contains(id)) by {
                if done.contains(id) {
                    let j = done.index_of(id);
                    assert(ids@[j] == ids@[i as int]);
                }
            }
            assert(untouched_at(t0, t1, f0, f1, id));
            assert(t0.dom().contains(ids@[i as int]));
        }
        if !wanted.contains(id) {
            match table.remove(id) {
                Some(cached) => {
                    retired.push(cached.texture);
                },
                None => {},
            }
            import_failures.remove(id);
        }
        proof {
            assert(retired@ =~= old(retired)@ + stale_textures(t0, wanted@.dom(), next));
            assert forall|k: u128| !next.contains(k) implies #[trigger] untouched_at(
                t0,
                table@,
                f0,
                import_failures@,
                k,
            ) by {
                assert(!done.contains(k)) by {
                    if done.contains(k) {
                        let j = done.index_of(k);
                        assert(next[j] == k);
                    }
                }
                assert(untouched_at(t0, t1, f0, f1, k));
            }
            assert forall|k: int| 0 <= k < i + 1 implies #[trigger] swept_at(
                t0,
                table@,
                f0,
                import_failures@,
                wanted@.dom(),
                ids@[k],
            ) by {
                if k < i {
                    assert(swept_at(t0, t1, f0, f1, wanted@.dom(), ids@[k]));
                    assert(ids@[k] != ids@[i as int]);
                }
            }
        }
        i += 1;
    }
    assert(ids@.take(i as int) =~= ids@);
    proof {
        assert forall|id: u128| #[trigger]
            swept_at(t0, table@, f0, import_failures@, wanted@.dom(), id) by {
            if t0.dom().contains(id) {
                assert(old(table).order().contains(id));
                let k = ids@.index_of(id);
                assert(swept_at(t0, table@, f0, import_failures@, wanted@.dom(), ids@[k]));
            } else {
                assert(!ids@.contains(id));
                assert(untouched_at(t0, table@, f0, import_failures@, id));
            }
        }
    }
}

/// Whether a frame is imported now: it is not the imported one already, and the
/// last failed attempt is long enough ago.
pub open spec fn imports_now<T>(
    table: Map<u128, CachedExternalFrame<T>>,
    import_failures: Map<u128, u64>,
    id: u128,
    sequence: u64,
    now: u64,
) -> bool {
    &&& !(table.dom().contains(id) && table[id].sequence == sequence)
    &&& !(import_failures.dom().contains(id) && portal_captures::elapsed(now, import_failures[id])
        < IMPORT_RETRY_INTERVAL_NS)
}

impl<T> ExternalTextures<T> {
    /// Both tables list each source once.
    pub open spec fn wf(self) -> bool {
        self.portal.wf() && self.media.wf()
    }

    /// One of the two tables.
    pub open spec fn table(self, kind: ExternalKind) -> Map<u128, CachedExternalFrame<T>> {
        match kind {
            ExternalKind::Portal => self.portal@,
            ExternalKind::Media => self.media@,
        }
    }

    /// Keys of one of the two tables, in order.
    pub open spec fn table_order(self, kind: ExternalKind) -> Seq<u128> {
        match kind {
            ExternalKind::Portal => self.portal.order(),
            ExternalKind::Media => self.media.order(),
        }
    }

    /// The table that an operation does not touch.
    pub open spec fn other(self, kind: ExternalKind) -> IdMap<CachedExternalFrame<T>> {
        match kind {
            ExternalKind::Portal => self.media,
            ExternalKind::Media => self.portal,
        }
    }

    /// No textures.
    pub fn new() -> (r: Self)
        ensures
            r.wf(),
            r.portal@ == Map::<u128, CachedExternalFrame<T>>::empty(),
            r.media@ == Map::<u128, CachedExternalFrame<T>>::empty(),
    {
        ExternalTextures { portal: IdMap::new(), media: IdMap::new() }
    }

    /// Retires the textures of sources that show no frame any more and forgets
    /// their failed imports.
    pub fn evict_stale<X>(
        &mut self,
        kind: ExternalKind,
        frames: &IdMap<X>,
        import_failures: &mut IdMap<u64>,
        retired: &mut Vec<T>,
    )
        requires
            old(self).wf(),
            frames.wf(),
            old(import_failures).wf(),
        ensures
            final(self).wf(),
            final(import_failures).wf(),
            final(self).other(kind) == old(self).other(kind),
            forall|id: u128| #[trigger]
                swept_at(
                    old(self).table(kind),
                    final(self).table(kind),
                    old(import_failures)@,
                    final(import_failures)@,
                    frames@.dom(),
                    id,
                ),
            final(retired)@ == old(retired)@ + stale_textures(
                old(self).table(kind),
                frames@.dom(),
                old(self).table_order(kind),
            ),
    {
        match kind {
            ExternalKind::Portal => retire_stale(
                &mut self.portal,
                frames,
                import_failures,
                retired,
            ),
            ExternalKind::Media => retire_stale(&mut self.media, frames, import_failures, retired),
        }
    }

    /// Whether a frame is imported now.
    pub fn decide(
        &self,
        kind: ExternalKind,
        id: u128,
        sequence: u64,
        now: u64,
        import_failures: &IdMap<u64>,
    ) -> (r: bool)
        requires
            self.wf(),
            import_failures.wf(),
        ensures
            r == imports_now(self.table(kind), import_failures@, id, sequence, now),
            r ==> !self.table(kind).dom().contains(id) || self.table(kind)[id].sequence != sequence,
            (!self.table(kind).dom().contains(id) || self.table(kind)[id].sequence != sequence) && (
            import_failures@.dom().contains(id) ==> import_failures@[id] + 500_000_000 <= now) ==> r,
            r && import_failures@.dom().contains(id) ==> import_failures@[id] + 500_000_000 <= now,
    {
        let cached = match kind {
            ExternalKind::Portal => self.portal.get(id),
            ExternalKind::Media => self.media.get(id),
        };
        let same = match cached {
            Some(c) => c.sequence == sequence,
            None => false,
        };
        let cooling = match import_failures.get(id) {
            Some(last) => elapsed_ns(now, *last) < IMPORT_RETRY_INTERVAL_NS,
            None => false,
        };
        !same && !cooling
    }

    /// A frame was imported: its texture replaces the previous one. A source that
    /// had failed is available again.
    pub fn on_imported(
        &mut self,
        kind: ExternalKind,
        id: u128,
        sequence: u64,
        texture: T,
        image: u64,
        import_failures: &mut IdMap<u64>,
        retired: &mut Vec<T>,
        events: &mut Vec<EngineEvent>,
    )
        requires
            old(self).wf(),
            old(import_failures).wf(),
        ensures
            final(self).wf(),
            final(import_failures).wf(),
            final(self).other(kind) == old(self).other(kind),
            final(self).table(kind) == old(self).table(kind).insert(
                id,
                CachedExternalFrame {
                    sequence,
                    texture,
                    image,
                    disjoint: kind == ExternalKind::Media,
                    acquired: false,
                },
            ),
            final(import_failures)@ == old(import_failures)@.remove(id),
            final(retired)@ == old(retired)@ + texture_of(old(self).table(kind), id),
            engine_event::events_view(final(events)@) == (if old(import_failures)@.dom().contains(id) {
                engine_event::events_view(old(events)@).push(
                    engine_event::EventView::SourceAvailable { source_id: id },
                )
            } else {
                engine_event::events_view(old(events)@)
            }),
    {
        if import_failures.remove(id).is_some() {
            send(events, EngineEvent::SourceAvailable { source_id: id });
        }
        let cached = CachedExternalFrame {
            sequence,
            texture,
            image,
            disjoint: kind == ExternalKind::Media,
            acquired: false,
        };
        let previous = match kind {
            ExternalKind::Portal => self.portal.insert(id, cached),
            ExternalKind::Media => self.media.insert(id, cached),
        };
        match previous {
            Some(old_frame) => {
                retired.push(old_frame.texture);
            },
            None => {},
        }
        assert(retired@ =~= old(retired)@ + texture_of(old(self).table(kind), id));
    }

    /// Takes a source's textures out of both tables.
    pub fn remove_external_texture(&mut self, id: u128, retired: &mut Vec<T>)
        requires
            old(self).wf(),
        ensures
            final(self).wf(),
            final(self).portal@ == old(self).portal@.remove(id),
            final(self).media@ == old(self).media@.remove(id),
            final(retired)@ == old(retired)@ + texture_of(old(self).portal@, id) + texture_of(
                old(self).media@,
                id,
            ),
    {
        match self.portal.remove(id) {
            Some(cached) => {
                retired.push(cached.texture);
            },
            None => {},
        }
        assert(retired@ =~= old(retired)@ + texture_of(old(self).portal@, id));
        match self.media.remove(id) {
            Some(cached) => {
                retired.push(cached.texture);
            },
            None => {},
        }
        assert(retired@ =~= old(retired)@ + texture_of(old(self).portal@, id) + texture_of(
            old(self).media@,
            id,
        ));
    }

    /// A frame could not be imported: the source shows the placeholder until the
    /// next attempt. The first failure in a row is reported.
    pub fn on_import_failed(
        &mut self,
        id: u128,
        now: u64,
        import_failures: &mut IdMap<u64>,
        retired: &mut Vec<T>,
        events: &mut Vec<EngineEvent>,
    )
        requires
            old(self).wf(),
            old(import_failures).wf(),
        ensures
            final(self).wf(),
            final(import_failures).wf(),
            final(self).portal@ == old(self).portal@.remove(id),
            final(self).media@ == old(self).media@.remove(id),
            final(import_failures)@ == old(import_failures)@.insert(id, now),
            final(retired)@ == old(retired)@ + texture_of(old(self).portal@, id) + texture_of(
                old(self).media@,
                id,
            ),
            engine_event::events_view(final(events)@) == (if old(import_failures)@.dom().contains(id) {
                engine_event::events_view(old(events)@)
            } else {
                engine_event::events_view(old(events)@).push(
                    engine_event::EventView::SourceUnavailable {
                        source_id: id,
                        reason: import_failed_reason(),
                    },
                )
            }),
    {
        if import_failures.insert(id, now).is_none() {
            send(
                events,
                EngineEvent::SourceUnavailable {
                    source_id: id,
                    reason: "Vulkan-DMA-BUF-Import fehlgeschlagen".to_owned(),
                },
            );
        }
        self.remove_external_texture(id, retired);
    }
}

/// A frame that is imported already is not imported again.
pub proof fn law_import_is_not_repeated<T>(
    before: Map<u128, CachedExternalFrame<T>>,
    after: Map<u128, CachedExternalFrame<T>>,
    failures: Map<u128, u64>,
    id: u128,
    cached: CachedExternalFrame<T>,
    now: u64,
)
    requires
        after == before.insert(id, cached),
    ensures
        !imports_now(after, failures, id, cached.sequence, now),
{
}

/// Every frame that differs from the imported one is imported, however many frames lie
/// between: where no import of the source failed within the last half second, a frame
/// is imported exactly where the source has no texture or one of another number.
pub proof fn law_every_new_frame_is_imported<T>(
    textures: ExternalTextures<T>,
    kind: ExternalKind,
    failures: Map<u128, u64>,
    id: u128,
    sequence: u64,
    now: u64,
)
    requires
        failures.dom().contains(id) ==> failures[id] + 500_000_000 <= now,
    ensures
        ({
            let table = match kind {
                ExternalKind::Portal => textures.portal@,
                ExternalKind::Media => textures.media@,
            };
            imports_now(textures.table(kind), failures, id, sequence, now) <==> (
            !table.dom().contains(id) || table[id].sequence != sequence)
        }),
{
}

/// A source that failed to import less than half a second ago waits, also where its
/// frame is new.
pub proof fn law_recent_failure_waits<T>(
    textures: ExternalTextures<T>,
    kind: ExternalKind,
    failures: Map<u128, u64>,
    id: u128,
    sequence: u64,
    now: u64,
)
    requires
        failures.dom().contains(id),
        failures[id] <= now < failures[id] + 500_000_000,
    ensures
        !imports_now(textures.table(kind), failures, id, sequence, now),
{
}

/// What a source shows is of the newest imported frame: after its import the frame is
/// not imported again, and any other frame is.
pub proof fn law_imported_frame_is_the_shown_one<T>(
    before: Map<u128, CachedExternalFrame<T>>,
    failures: Map<u128, u64>,
    id: u128,
    frame: CachedExternalFrame<T>,
    other: u64,
    now: u64,
)
    requires
        other != frame.sequence,
    ensures
        !imports_now(before.insert(id, frame), failures.remove(id), id, frame.sequence, now),
        imports_now(before.insert(id, frame), failures.remove(id), id, other, now),
{
}

/// A sweep leaves a wanted source its texture and its failure, and takes both from a
/// source that is no longer wanted.
pub proof fn law_sweep_takes_only_the_unwanted<T>(
    t0: Map<u128, CachedExternalFrame<T>>,
    t1: Map<u128, CachedExternalFrame<T>>,
    f0: Map<u128, u64>,
    f1: Map<u128, u64>,
    wanted: Set<u128>,
    id: u128,
)
    requires
        swept_at(t0, t1, f0, f1, wanted, id),
        t0.dom().contains(id),
    ensures
        wanted.contains(id) ==> t1.dom().contains(id) && t1[id] == t0[id] && (f1.dom().contains(id)
            <==> f0.dom().contains(id)),
        !wanted.contains(id) ==> !t1.dom().contains(id) && !f1.dom().contains(id),
{
}

/// A sweep retires the textures of the sources that are no longer wanted, those and no
/// others.
pub proof fn law_unwanted_textures_retire<T>(
    table: Map<u128, CachedExternalFrame<T>>,
    wanted: Set<u128>,
    ids: Seq<u128>,
    i: int,
)
    requires
        0 <= i < ids.len(),
    ensures
        !wanted.contains(ids[i]) ==> stale_textures(table, wanted, ids).contains(
            table[ids[i]].texture,
        ),
        wanted.contains(ids[i]) ==> stale_textures(table, wanted, ids) == stale_textures(
            table,
            wanted,
            ids.remove(i),
        ),
        stale_textures(table, wanted, ids).len() <= ids.len(),
    decreases ids.len(),
{
    lemma_stale_count(table, wanted, ids);
    let before = stale_textures(table, wanted, ids.drop_last());
    let all = stale_textures(table, wanted, ids);
    if i == ids.len() - 1 {
        assert(ids.remove(i) =~= ids.drop_last());
        if !wanted.contains(ids[i]) {
            assert(all[all.len() - 1] == table[ids[i]].texture);
        }
    } else {
        law_unwanted_textures_retire(table, wanted, ids.drop_last(), i);
        assert(ids.remove(i).drop_last() =~= ids.drop_last().remove(i));
        assert(ids.remove(i).last() == ids.last());
        if !wanted.contains(ids[i]) {
            let k = choose|k: int| 0 <= k < before.len() && before[k] == table[ids[i]].texture;
            assert(all[k] == table[ids[i]].texture);
        }
    }
}

proof fn lemma_stale_count<T>(
    table: Map<u128, CachedExternalFrame<T>>,
    wanted: Set<u128>,
    ids: Seq<u128>,
)
    ensures
        stale_textures(table, wanted, ids).len() <= ids.len(),
    decreases ids.len(),
{
    if ids.len() > 0 {
        lemma_stale_count(table, wanted, ids.drop_last());
    }
}

/// A failed import is not tried again within the retry interval, whatever frame
/// the source delivers, and is tried again once the interval has passed.
pub proof fn law_failed_import_backs_off<T>(
    after: Map<u128, CachedExternalFrame<T>>,
    failures: Map<u128, u64>,
    id: u128,
    sequence: u64,
    failed_at: u64,
    now: u64,
)
    requires
        failures.dom().contains(id),
        failures[id] == failed_at,
        !after.dom().contains(id),
    ensures
        imports_now(after, failures, id, sequence, now) <==> portal_captures::elapsed(
            now,
            failed_at,
        ) >= IMPORT_RETRY_INTERVAL_NS,
{
}

} // verus!
