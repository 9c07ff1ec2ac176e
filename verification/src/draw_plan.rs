//! What one frame draws, and which imported images change owner around it.

use vstd::prelude::*;

use crate::external_textures::{CachedExternalFrame, ExternalTextures};
use crate::id_map::IdMap;
use crate::project::SceneItem;

verus! {

/// A scene draws at most this many items.
pub const MAX_SCENE_ITEMS: usize = 128;

/// What an item is textured with.
#[derive(Clone, Copy, Debug, PartialEq, Eq, Structural)]
pub enum TextureBinding {
    Portal,
    Media,
    Static,
    Placeholder,
}

/// One item to draw. `slot` is its descriptor set; `switch_pipeline` tells that
/// the pipeline must be bound first because the previous draw used the other one.
#[derive(Clone, Copy, Debug, PartialEq, Eq, Structural)]
pub struct DrawCommand {
    pub item: usize,
    pub slot: usize,
    pub binding: TextureBinding,
    pub media_pipeline: bool,
    pub switch_pipeline: bool,
    pub mode: u32,
}

/// What an item of a source is textured with: a capture before a media frame
/// before an uploaded image, else the placeholder.
pub open spec fn binding_of(
    portal: Set<u128>,
    media: Set<u128>,
    statics: Set<u128>,
    id: u128,
) -> TextureBinding {
    if portal.contains(id) {
        TextureBinding::Portal
    } else if media.contains(id) {
        TextureBinding::Media
    } else if statics.contains(id) {
        TextureBinding::Static
    } else {
        TextureBinding::Placeholder
    }
}

/// The positions of the visible items, in order.
pub open spec fn visible_positions(items: Seq<SceneItem>) -> Seq<int>
    decreases items.len(),
{
    if items.len() == 0 {
        Seq::empty()
    } else {
        let before = visible_positions(items.drop_last());
        if items.last().visible {
            before.push(items.len() - 1)
        } else {
            before
        }
    }
}

/// The positions of the items that are drawn: the first 128 visible ones.
pub open spec fn drawn_positions(items: Seq<SceneItem>) -> Seq<int> {
    let visible = visible_positions(items);
    if visible.len() <= MAX_SCENE_ITEMS {
        visible
    } else {
        visible.take(MAX_SCENE_ITEMS as int)
    }
}

/// The draw of the `k`-th drawn item.
pub open spec fn draw_at(
    items: Seq<SceneItem>,
    portal: Set<u128>,
    media: Set<u128>,
    statics: Set<u128>,
    k: int,
) -> DrawCommand {
    let drawn = drawn_positions(items);
    let binding = binding_of(portal, media, statics, items[drawn[k]].source_id);
    let previous_media = k > 0 && binding_of(portal, media, statics, items[drawn[k - 1]].source_id)
        == TextureBinding::Media;
    DrawCommand {
        item: drawn[k] as usize,
        slot: k as usize,
        binding,
        media_pipeline: binding == TextureBinding::Media,
        switch_pipeline: (binding == TextureBinding::Media) != previous_media,
        mode: if binding == TextureBinding::Placeholder {
            1
        } else {
            0
        },
    }
}

proof fn lemma_visible_positions(items: Seq<SceneItem>)
    ensures
        forall|k: int|
            0 <= k < visible_positions(items).len() ==> 0 <= #[trigger] visible_positions(items)[k]
                < items.len() && items[visible_positions(items)[k]].visible,
        visible_positions(items).len() <= items.len(),
    decreases items.len(),
{
    if items.len() > 0 {
        lemma_visible_positions(items.drop_last());
        let before = visible_positions(items.drop_last());
        assert forall|k: int| 0 <= k < visible_positions(items).len() implies 0
            <= #[trigger] visible_positions(items)[k] < items.len()
            && items[visible_positions(items)[k]].visible by {
            if k < before.len() {
                assert(visible_positions(items)[k] == before[k]);
            }
        }
    }
}

proof fn lemma_visible_grows(items: Seq<SceneItem>, i: int)
    requires
        0 <= i <= items.len(),
    ensures
        visible_positions(items.take(i)).len() <= visible_positions(items).len(),
        visible_positions(items.take(i)) =~= visible_positions(items).take(
            visible_positions(items.take(i)).len() as int,
        ),
    decreases items.len() - i,
{
    if i == items.len() {
        assert(items.take(i) =~= items);
    } else {
        lemma_visible_grows(items, i + 1);
        assert(items.take(i + 1).drop_last() =~= items.take(i));
        let now = visible_positions(items.take(i));
        let next = visible_positions(items.take(i + 1));
        let all = visible_positions(items);
        assert(now =~= next.take(now.len() as int));
        assert forall|k: int| 0 <= k < now.len() implies now[k] == all[k] by {
            assert(next[k] == all.take(next.len() as int)[k]);
        }
    }
}

proof fn lemma_visible_in_order(items: Seq<SceneItem>)
    ensures
        forall|k: int, l: int|
            0 <= k < l < visible_positions(items).len() ==> #[trigger] visible_positions(items)[k]
                < #[trigger] visible_positions(items)[l],
    decreases items.len(),
{
    if items.len() > 0 {
        lemma_visible_in_order(items.drop_last());
        lemma_visible_positions(items.drop_last());
    }
}

proof fn lemma_visible_has(items: Seq<SceneItem>, i: int)
    requires
        0 <= i < items.len(),
        items[i].visible,
    ensures
        visible_positions(items).contains(i),
    decreases items.len(),
{
    let all = visible_positions(items);
    if i == items.len() - 1 {
        assert(all[all.len() - 1] == i);
    } else {
        lemma_visible_has(items.drop_last(), i);
        let before = visible_positions(items.drop_last());
        let k = choose|k: int| 0 <= k < before.len() && before[k] == i;
        assert(all[k] == i);
    }
}

/// A scene draws its visible items and no others, each once and in their order, the
/// first below the later ones. Only where it has more than 128 visible items are any
/// left out, and then the ones behind the 128th.
pub proof fn law_visible_items_are_drawn_in_order(items: Seq<SceneItem>)
    ensures
        drawn_positions(items).len() <= 128,
        forall|k: int|
            0 <= k < drawn_positions(items).len() ==> 0 <= #[trigger] drawn_positions(items)[k]
                < items.len() && items[drawn_positions(items)[k]].visible,
        forall|k: int, l: int|
            0 <= k < l < drawn_positions(items).len() ==> #[trigger] drawn_positions(items)[k]
                < #[trigger] drawn_positions(items)[l],
        forall|i: int|
            0 <= i < items.len() && (#[trigger] items[i]).visible ==> drawn_positions(
                items,
            ).contains(i) || (drawn_positions(items).len() == 128
                && drawn_positions(items)[127] < i),
{
    lemma_visible_positions(items);
    lemma_visible_in_order(items);
    let all = visible_positions(items);
    let drawn = drawn_positions(items);
    assert forall|k: int| 0 <= k < drawn.len() implies #[trigger] drawn[k] == all[k] by {}
    assert forall|i: int| 0 <= i < items.len() && (#[trigger] items[i]).visible implies drawn.contains(
        i,
    ) || (drawn.len() == 128 && drawn[127] < i) by {
        lemma_visible_has(items, i);
        let k = choose|k: int| 0 <= k < all.len() && all[k] == i;
        if k < drawn.len() {
            assert(drawn[k] == i);
        } else {
            assert(all[127] < all[k]);
        }
    }
}

/// What a draw shows is decided by the three tables alone: the captured frame where
/// its source has one; else the media frame, through the pipeline for media, where it
/// has one; else the uploaded texture; and only where it has none of the three the
/// placeholder, which is drawn in mode 1. Everything else is drawn in mode 0.
pub proof fn law_draw_shows_what_its_source_has(
    items: Seq<SceneItem>,
    portal: Set<u128>,
    media: Set<u128>,
    statics: Set<u128>,
    k: int,
)
    requires
        0 <= k < drawn_positions(items).len(),
        items.len() <= usize::MAX,
    ensures
        ({
            let draw = draw_at(items, portal, media, statics, k);
            let id = items[draw.item as int].source_id;
            &&& draw.item == drawn_positions(items)[k]
            &&& draw.slot == k
            &&& draw.mode == 1 <==> !portal.contains(id) && !media.contains(id)
                && !statics.contains(id)
            &&& draw.mode == 0 <==> portal.contains(id) || media.contains(id) || statics.contains(
                id,
            )
            &&& draw.binding == TextureBinding::Portal <==> portal.contains(id)
            &&& draw.binding == TextureBinding::Media <==> !portal.contains(id)
                && media.contains(id)
            &&& draw.binding == TextureBinding::Static <==> !portal.contains(id)
                && !media.contains(id) && statics.contains(id)
            &&& draw.media_pipeline <==> !portal.contains(id) && media.contains(id)
        }),
{
    law_visible_items_are_drawn_in_order(items);
}

/// The pipeline is bound anew exactly where it changes: the first draw finds the plain
/// one bound, each later draw the one that the draw before it used.
pub proof fn law_pipeline_is_bound_where_it_changes(
    items: Seq<SceneItem>,
    portal: Set<u128>,
    media: Set<u128>,
    statics: Set<u128>,
    k: int,
)
    requires
        0 <= k < drawn_positions(items).len(),
    ensures
        ({
            let draw = draw_at(items, portal, media, statics, k);
            let bound = k > 0 && draw_at(items, portal, media, statics, k - 1).media_pipeline;
            draw.switch_pipeline <==> draw.media_pipeline != bound
        }),
{
}

/// The draws of a scene.
pub fn plan_draws<T, S>(
    items: &Vec<SceneItem>,
    textures: &ExternalTextures<T>,
    statics: &IdMap<S>,
) -> (r: Vec<DrawCommand>)
    requires
        textures.wf(),
        statics.wf(),
    ensures
        r@.len() == drawn_positions(items@).len(),
        forall|k: int|
            0 <= k < r@.len() ==> #[trigger] r@[k] == draw_at(
                items@,
                textures.portal@.dom(),
                textures.media@.dom(),
                statics@.dom(),
                k,
            ),
        forall|k: int|
            0 <= k < r@.len() ==> ({
                let id = items@[(#[trigger] r@[k]).item as int].source_id;
                let pictured = textures.portal@.dom().contains(id) || textures.media@.dom().contains(
                    id,
                ) || statics@.dom().contains(id);
                r@[k].mode == if pictured { 0u32 } else { 1u32 }
            }),
{
    let mut draws: Vec<DrawCommand> = Vec::new();
    let mut media_bound = false;
    let mut i: usize = 0;
    let ghost p = textures.portal@.dom();
    let ghost m = textures.media@.dom();
    let ghost s = statics@.dom();
    assert(items@.take(0) =~= Seq::<SceneItem>::empty());
    while i < items.len() && draws.len() < MAX_SCENE_ITEMS
        invariant
            i <= items@.len(),
            textures.wf(),
            statics.wf(),
            p == textures.portal@.dom(),
            m == textures.media@.dom(),
            s == statics@.dom(),
            draws@.len() <= MAX_SCENE_ITEMS,
            draws@.len() == visible_positions(items@.take(i as int)).len(),
            forall|k: int| 0 <= k < draws@.len() ==> #[trigger] draws@[k] == draw_at(items@, p, m, s, k),
            draws@.len() == 0 ==> !media_bound,
            draws@.len() > 0 ==> media_bound == draws@[draws@.len() - 1].media_pipeline,
        decreases items@.len() - i,
    {
        let item = items[i];
        proof {
            assert(items@.take(i + 1).drop_last() =~= items@.take(i as int));
            assert(items@.take(i + 1).last() == item);
            lemma_visible_grows(items@, i + 1);
            lemma_visible_positions(items@.take(i + 1));
        }
        if item.visible {
            let binding = if textures.portal.contains(item.source_id) {
                TextureBinding::Portal
            } else if textures.media.contains(item.source_id) {
                TextureBinding::Media
            } else if statics.contains(item.source_id) {
                TextureBinding::Static
            } else {
                TextureBinding::Placeholder
            };
            let media_draw = binding == TextureBinding::Media;
            let command = DrawCommand {
                item: i,
                slot: draws.len(),
                binding,
                media_pipeline: media_draw,
                switch_pipeline: media_draw != media_bound,
                mode: if binding == TextureBinding::Placeholder {
                    1
                } else {
                    0
                },
            };
            proof {
                let k = draws@.len() as int;
                let here = visible_positions(items@.take(i + 1));
                let all = visible_positions(items@);
                assert(here[k] == i);
                assert(all.take(here.len() as int)[k] == i);
                assert(drawn_positions(items@)[k] == i);
                if k > 0 {
                    assert(draws@[k - 1] == draw_at(items@, p, m, s, k - 1));
                    let j = drawn_positions(items@)[k - 1];
                    assert(binding_of(p, m, s, items@[j].source_id) == draws@[k - 1].binding);
                }
                assert(command == draw_at(items@, p, m, s, k));
            }
            draws.push(command);
            media_bound = media_draw;
        }
        i += 1;
    }
    proof {
        lemma_visible_grows(items@, i as int);
        if i == items@.len() {
            assert(items@.take(i as int) =~= items@);
        }
        assert forall|k: int| 0 <= k < draws@.len() implies ({
            let id = items@[(#[trigger] draws@[k]).item as int].source_id;
            draws@[k].mode == if p.contains(id) || m.contains(id) || s.contains(id) {
                0u32
            } else {
                1u32
            }
        }) by {
            law_draw_shows_what_its_source_has(items@, p, m, s, k);
        }
    }
    draws
}

// ---------------------------------------------------------------------------
// Ownership transfers
// ---------------------------------------------------------------------------

/// An imported image that the graphics queue takes over for a frame.
#[derive(Clone, Copy, Debug, PartialEq, Eq, Structural)]
pub struct ExternalImage {
    pub image: u64,
    pub first_acquire: bool,
    pub disjoint: bool,
}

/// The imported texture that an item of a source shows.
pub open spec fn shown_texture<T>(textures: ExternalTextures<T>, id: u128) -> Option<
    CachedExternalFrame<T>,
> {
    if textures.portal@.dom().contains(id) {
        Some(textures.portal@[id])
    } else if textures.media@.dom().contains(id) {
        Some(textures.media@[id])
    } else {
        None
    }
}

/// Whether an image is listed.
pub open spec fn lists_image(list: Seq<ExternalImage>, image: u64) -> bool {
    exists|i: int| 0 <= i < list.len() && (#[trigger] list[i]).image == image
}

/// The imported images that the visible items show, each once and at most 128.
pub open spec fn external_images<T>(
    items: Seq<SceneItem>,
    textures: ExternalTextures<T>,
) -> Seq<ExternalImage>
    decreases items.len(),
{
    if items.len() == 0 {
        Seq::empty()
    } else {
        let before = external_images(items.drop_last(), textures);
        let item = items.last();
        match shown_texture(textures, item.source_id) {
            Some(cached) => if item.visible && before.len() < MAX_SCENE_ITEMS && !lists_image(
                before,
                cached.image,
            ) {
                before.push(
                    ExternalImage {
                        image: cached.image,
                        first_acquire: !cached.acquired,
                        disjoint: cached.disjoint,
                    },
                )
            } else {
                before
            },
            None => before,
        }
    }
}

fn is_listed(list: &Vec<ExternalImage>, image: u64) -> (r: bool)
    ensures
        r == lists_image(list@, image),
{
    let mut i: usize = 0;
    while i < list.len()
        invariant
            i <= list@.len(),
            forall|j: int| 0 <= j < i ==> (#[trigger] list@[j]).image != image,
        decreases list@.len() - i,
    {
        if list[i].image == image {
            return true;
        }
        i += 1;
    }
    false
}

/// The imported images that take part in a frame.
pub fn collect_external_images<T>(
    items: &Vec<SceneItem>,
    textures: &ExternalTextures<T>,
) -> (r: Vec<ExternalImage>)
    requires
        textures.wf(),
    ensures
        r@ == external_images(items@, *textures),
{
    let mut list: Vec<ExternalImage> = Vec::new();
    let mut i: usize = 0;
    assert(items@.take(0) =~= Seq::<SceneItem>::empty());
    while i < items.len()
        invariant
            i <= items@.len(),
            textures.wf(),
            list@ == external_images(items@.take(i as int), *textures),
        decreases items@.len() - i,
    {
        proof {
            assert(items@.take(i + 1).drop_last() =~= items@.take(i as int));
        }
        let item = items[i];
        let cached = match textures.portal.get(item.source_id) {
            Some(cached) => Some(cached),
            None => textures.media.get(item.source_id),
        };
        match cached {
            Some(cached) => {
                if item.visible && list.len() < MAX_SCENE_ITEMS && !is_listed(&list, cached.image) {
                    list.push(
                        ExternalImage {
                            image: cached.image,
                            first_acquire: !cached.acquired,
                            disjoint: cached.disjoint,
                        },
                    );
                }
            },
            None => {},
        }
        i += 1;
    }
    assert(items@.take(i as int) =~= items@);
    list
}

/// The part of an image that a barrier addresses.
#[derive(Clone, Copy, Debug, PartialEq, Eq, Structural)]
pub enum Aspect {
    Color,
    Plane0,
    Plane1,
}

/// The layout that an image is in.
#[derive(Clone, Copy, Debug, PartialEq, Eq, Structural)]
pub enum Layout {
    Undefined,
    General,
    ShaderReadOnly,
}

/// A queue family that owns an image.
#[derive(Clone, Copy, Debug, PartialEq, Eq, Structural)]
pub enum Owner {
    Foreign,
    Graphics,
}

/// One ownership transfer with its layout change.
#[derive(Clone, Copy, Debug, PartialEq, Eq, Structural)]
pub struct OwnershipBarrier {
    pub image: u64,
    pub aspect: Aspect,
    pub old_layout: Layout,
    pub new_layout: Layout,
    pub source: Owner,
    pub target: Owner,
}

/// The parts of an image that its barriers address.
pub open spec fn aspects(image: ExternalImage) -> Seq<Aspect> {
    if image.disjoint {
        seq![Aspect::Plane0, Aspect::Plane1]
    } else {
        seq![Aspect::Color]
    }
}

/// The barrier by which the graphics queue takes a part of an image over.
pub open spec fn acquire_barrier(image: ExternalImage, aspect: Aspect) -> OwnershipBarrier {
    OwnershipBarrier {
        image: image.image,
        aspect,
        old_layout: if image.first_acquire {
            Layout::Undefined
        } else {
            Layout::General
        },
        new_layout: Layout::ShaderReadOnly,
        source: Owner::Foreign,
        target: Owner::Graphics,
    }
}

/// The barrier by which the graphics queue hands a part of an image back.
pub open spec fn release_barrier(image: ExternalImage, aspect: Aspect) -> OwnershipBarrier {
    OwnershipBarrier {
        image: image.image,
        aspect,
        old_layout: Layout::ShaderReadOnly,
        new_layout: Layout::General,
        source: Owner::Graphics,
        target: Owner::Foreign,
    }
}

/// The barriers before the scene pass, in order.
pub open spec fn acquire_sequence(images: Seq<ExternalImage>) -> Seq<OwnershipBarrier>
    decreases images.len(),
{
    if images.len() == 0 {
        Seq::empty()
    } else {
        acquire_sequence(images.drop_last()) + aspects(images.last()).map_values(
            |a: Aspect| acquire_barrier(images.last(), a),
        )
    }
}

/// The barriers after the scene pass, in order.
pub open spec fn release_sequence(images: Seq<ExternalImage>) -> Seq<OwnershipBarrier>
    decreases images.len(),
{
    if images.len() == 0 {
        Seq::empty()
    } else {
        release_sequence(images.drop_last()) + aspects(images.last()).map_values(
            |a: Aspect| release_barrier(images.last(), a),
        )
    }
}

fn push_acquire(list: &mut Vec<OwnershipBarrier>, image: ExternalImage, aspect: Aspect)
    ensures
        final(list)@ == old(list)@.push(acquire_barrier(image, aspect)),
{
    list.push(
        OwnershipBarrier {
            image: image.image,
            aspect,
            old_layout: if image.first_acquire {
                Layout::Undefined
            } else {
                Layout::General
            },
            new_layout: Layout::ShaderReadOnly,
            source: Owner::Foreign,
            target: Owner::Graphics,
        },
    );
}

fn push_release(list: &mut Vec<OwnershipBarrier>, image: ExternalImage, aspect: Aspect)
    ensures
        final(list)@ == old(list)@.push(release_barrier(image, aspect)),
{
    list.push(
        OwnershipBarrier {
            image: image.image,
            aspect,
            old_layout: Layout::ShaderReadOnly,
            new_layout: Layout::General,
            source: Owner::Graphics,
            target: Owner::Foreign,
        },
    );
}

/// The barriers before the scene pass.
pub fn acquire_barriers(images: &Vec<ExternalImage>) -> (r: Vec<OwnershipBarrier>)
    ensures
        r@ == acquire_sequence(images@),
{
    let mut list: Vec<OwnershipBarrier> = Vec::new();
    let mut i: usize = 0;
    while i < images.len()
        invariant
            i <= images@.len(),
            list@ == acquire_sequence(images@.take(i as int)),
        decreases images@.len() - i,
    {
        let image = images[i];
        let ghost before = list@;
        proof {
            assert(images@.take(i + 1).drop_last() =~= images@.take(i as int));
        }
        if image.disjoint {
            push_acquire(&mut list, image, Aspect::Plane0);
            push_acquire(&mut list, image, Aspect::Plane1);
        } else {
            push_acquire(&mut list, image, Aspect::Color);
        }
        assert(list@ =~= before + aspects(image).map_values(|a: Aspect| acquire_barrier(image, a)));
        i += 1;
    }
    assert(images@.take(i as int) =~= images@);
    list
}

/// The barriers after the scene pass.
pub fn release_barriers(images: &Vec<ExternalImage>) -> (r: Vec<OwnershipBarrier>)
    ensures
        r@ == release_sequence(images@),
{
    let mut list: Vec<OwnershipBarrier> = Vec::new();
    let mut i: usize = 0;
    while i < images.len()
        invariant
            i <= images@.len(),
            list@ == release_sequence(images@.take(i as int)),
        decreases images@.len() - i,
    {
        let image = images[i];
        let ghost before = list@;
        proof {
            assert(images@.take(i + 1).drop_last() =~= images@.take(i as int));
        }
        if image.disjoint {
            push_release(&mut list, image, Aspect::Plane0);
            push_release(&mut list, image, Aspect::Plane1);
        } else {
            push_release(&mut list, image, Aspect::Color);
        }
        assert(list@ =~= before + aspects(image).map_values(|a: Aspect| release_barrier(image, a)));
        i += 1;
    }
    assert(images@.take(i as int) =~= images@);
    list
}

/// Whether a frame acquires the image for the first time.
pub open spec fn first_acquired(images: Seq<ExternalImage>, image: u64) -> bool {
    exists|i: int|
        0 <= i < images.len() && (#[trigger] images[i]).first_acquire && images[i].image == image
}

/// A texture after the frame was submitted.
pub open spec fn after_submit<T>(
    images: Seq<ExternalImage>,
    cached: CachedExternalFrame<T>,
) -> CachedExternalFrame<T> {
    CachedExternalFrame {
        acquired: cached.acquired || first_acquired(images, cached.image),
        ..cached
    }
}

fn is_first_acquired(images: &Vec<ExternalImage>, image: u64) -> (r: bool)
    ensures
        r == first_acquired(images@, image),
{
    let mut i: usize = 0;
    while i < images.len()
        invariant
            i <= images@.len(),
            forall|j: int|
                0 <= j < i ==> !((#[trigger] images@[j]).first_acquire && images@[j].image
                    == image),
        decreases images@.len() - i,
    {
        if images[i].first_acquire && images[i].image == image {
            return true;
        }
        i += 1;
    }
    false
}

fn commit_table<T>(table: &mut IdMap<CachedExternalFrame<T>>, images: &Vec<ExternalImage>)
    requires
        old(table).wf(),
    ensures
        final(table).wf(),
        final(table)@.dom() == old(table)@.dom(),
        forall|id: u128| #[trigger]
            old(table)@.dom().contains(id) ==> final(table)@[id] == after_submit(
                images@,
                old(table)@[id],
            ),
{
    let ids = table.keys();
    let ghost t0 = table@;
    proof {
        table.lemma_order();
    }
    let mut i: usize = 0;
    while i < ids.len()
        invariant
            i <= ids@.len(),
            table.wf(),
            t0 == old(table)@,
            ids@ == old(table).order(),
            ids@.no_duplicates(),
            forall|k: int| 0 <= k < ids@.len() ==> t0.dom().contains(#[trigger] ids@[k]),
            table@.dom() == t0.dom(),
            forall|id: u128|
                t0.dom().contains(id) && !ids@.take(i as int).contains(id)
                    ==> #[trigger] table@[id] == t0[id],
            forall|k: int|
                0 <= k < i ==> table@[#[trigger] ids@[k]] == after_submit(images@, t0[ids@[k]]),
        decreases ids@.len() - i,
    {
        let id: u128 = ids[i];
        let ghost t1 = table@;
        proof {
            assert(!ids@.take(i as int).contains(id)) by {
                if ids@.take(i as int).contains(id) {
                    let j = ids@.take(i as int).index_of(id);
                    assert(ids@[j] == ids@[i as int]);
                }
            }
            assert(t0.dom().contains(ids@[i as int]));
            assert(table@[id] == t0[id]);
        }
        match table.get_mut(id) {
            Some(cached) => {
                if is_first_acquired(images, cached.image) {
                    cached.acquired = true;
                }
            },
            None => {},
        }
        proof {
            assert(table@.dom() =~= t0.dom());
            assert forall|k: u128| t0.dom().contains(k) && !ids@.take(i + 1).contains(
                k,
            ) implies #[trigger] table@[k] == t0[k] by {
                assert(ids@.take(i + 1)[i as int] == id);
                assert(!ids@.take(i as int).contains(k)) by {
                    if ids@.take(i as int).contains(k) {
                        let j = ids@.take(i as int).index_of(k);
                        assert(ids@.take(i + 1)[j] == k);
                    }
                }
                assert(t1[k] == t0[k]);
            }
            assert forall|k: int| 0 <= k < i + 1 implies table@[#[trigger] ids@[k]] == after_submit(
                images@,
                t0[ids@[k]],
            ) by {
                if k < i {
                    assert(t1[ids@[k]] == after_submit(images@, t0[ids@[k]]));
                    assert(ids@[k] != ids@[i as int]);
                }
            }
        }
        i += 1;
    }
    proof {
        assert forall|id: u128| #[trigger] t0.dom().contains(id) implies table@[id] == after_submit(
            images@,
            t0[id],
        ) by {
            assert(old(table).order().contains(id));
            let k = ids@.index_of(id);
            assert(ids@[k] == id);
        }
    }
}

/// Marks the images of a submitted frame as acquired. A frame that was not
/// submitted leaves the marks alone, so that the next one repeats the first
/// acquisition.
pub fn commit_acquired<T>(textures: &mut ExternalTextures<T>, images: &Vec<ExternalImage>)
    requires
        old(textures).wf(),
    ensures
        final(textures).wf(),
        final(textures).portal@.dom() == old(textures).portal@.dom(),
        final(textures).media@.dom() == old(textures).media@.dom(),
        forall|id: u128| #[trigger]
            old(textures).portal@.dom().contains(id) ==> final(textures).portal@[id]
                == after_submit(images@, old(textures).portal@[id]),
        forall|id: u128| #[trigger]
            old(textures).media@.dom().contains(id) ==> final(textures).media@[id] == after_submit(
                images@,
                old(textures).media@[id],
            ),
{
    commit_table(&mut textures.portal, images);
    commit_table(&mut textures.media, images);
}

// ---------------------------------------------------------------------------
// Laws
// ---------------------------------------------------------------------------

/// The images of a frame are those that its visible items show: of a captured frame
/// before a media frame, each with what its table says of it. Each is in the list as long
/// as that has room for 128.
pub proof fn law_shown_images_are_taken_over<T>(items: Seq<SceneItem>, textures: ExternalTextures<T>)
    ensures
        forall|k: int|
            0 <= k < external_images(items, textures).len() ==> is_shown_image(
                items,
                textures,
                #[trigger] external_images(items, textures)[k],
            ),
        forall|i: int|
            0 <= i < items.len() && (#[trigger] items[i]).visible && (
            textures.portal@.dom().contains(items[i].source_id)
                || textures.media@.dom().contains(items[i].source_id)) ==> external_images(
                items,
                textures,
            ).len() == 128 || lists_image(
                external_images(items, textures),
                if textures.portal@.dom().contains(items[i].source_id) {
                    textures.portal@[items[i].source_id].image
                } else {
                    textures.media@[items[i].source_id].image
                },
            ),
    decreases items.len(),
{
    law_images_are_distinct(items, textures);
    if items.len() > 0 {
        let rest = items.drop_last();
        law_shown_images_are_taken_over(rest, textures);
        law_images_are_distinct(rest, textures);
        let before = external_images(rest, textures);
        let all = external_images(items, textures);
        assert forall|k: int| 0 <= k < all.len() implies is_shown_image(
            items,
            textures,
            #[trigger] all[k],
        ) by {
            if k < before.len() {
                assert(all[k] == before[k]);
                let i = choose|i: int|
                    0 <= i < rest.len() && (#[trigger] rest[i]).visible && is_image_of(
                        textures,
                        rest[i].source_id,
                        before[k],
                    );
                assert(items[i] == rest[i]);
            } else {
                assert(items[items.len() - 1].visible);
            }
        }
        assert forall|i: int|
            0 <= i < items.len() && (#[trigger] items[i]).visible && (
            textures.portal@.dom().contains(items[i].source_id)
                || textures.media@.dom().contains(items[i].source_id)) implies all.len() == 128
            || lists_image(
            all,
            if textures.portal@.dom().contains(items[i].source_id) {
                textures.portal@[items[i].source_id].image
            } else {
                textures.media@[items[i].source_id].image
            },
        ) by {
            let id = items[i].source_id;
            let image = if textures.portal@.dom().contains(id) {
                textures.portal@[id].image
            } else {
                textures.media@[id].image
            };
            if i < rest.len() {
                assert(rest[i] == items[i]);
            }
            if lists_image(before, image) {
                let k = choose|k: int| 0 <= k < before.len() && (#[trigger] before[k]).image == image;
                assert(all[k] == before[k]);
            } else if i == items.len() - 1 && before.len() < 128 {
                assert(all[all.len() - 1].image == image);
            }
        }
    }
}

/// Whether an image is the one that a source shows, as its table has it.
pub open spec fn is_image_of<T>(
    textures: ExternalTextures<T>,
    id: u128,
    image: ExternalImage,
) -> bool {
    if textures.portal@.dom().contains(id) {
        &&& image.image == textures.portal@[id].image
        &&& image.first_acquire == !textures.portal@[id].acquired
        &&& image.disjoint == textures.portal@[id].disjoint
    } else {
        &&& textures.media@.dom().contains(id)
        &&& image.image == textures.media@[id].image
        &&& image.first_acquire == !textures.media@[id].acquired
        &&& image.disjoint == textures.media@[id].disjoint
    }
}

/// Whether some visible item shows an image.
pub open spec fn is_shown_image<T>(
    items: Seq<SceneItem>,
    textures: ExternalTextures<T>,
    image: ExternalImage,
) -> bool {
    exists|i: int|
        0 <= i < items.len() && (#[trigger] items[i]).visible && is_image_of(
            textures,
            items[i].source_id,
            image,
        )
}

/// An image is taken over from the foreign owner for reading, out of no layout the first
/// time and out of the general one later, and goes back to that owner in the general one.
/// An image of two planes is taken over and given back plane by plane, any other as a
/// whole.
pub proof fn law_images_change_hands_for_a_frame(images: Seq<ExternalImage>, image: ExternalImage)
    ensures
        ({
            let taken = acquire_sequence(images.push(image));
            let given = release_sequence(images.push(image));
            let n = acquire_sequence(images).len() as int;
            let m = release_sequence(images).len() as int;
            &&& acquire_sequence(images).is_prefix_of(taken)
            &&& release_sequence(images).is_prefix_of(given)
            &&& image.disjoint ==> taken.len() == n + 2 && taken[n].aspect == Aspect::Plane0 && taken[n
                + 1].aspect == Aspect::Plane1 && given.len() == m + 2 && given[m].aspect
                == Aspect::Plane0 && given[m + 1].aspect == Aspect::Plane1
            &&& !image.disjoint ==> taken.len() == n + 1 && taken[n].aspect == Aspect::Color
                && given.len() == m + 1 && given[m].aspect == Aspect::Color
            &&& forall|k: int|
                n <= k < taken.len() ==> {
                    &&& (#[trigger] taken[k]).image == image.image
                    &&& taken[k].source == Owner::Foreign && taken[k].target == Owner::Graphics
                    &&& taken[k].new_layout == Layout::ShaderReadOnly
                    &&& image.first_acquire ==> taken[k].old_layout == Layout::Undefined
                    &&& !image.first_acquire ==> taken[k].old_layout == Layout::General
                }
            &&& forall|k: int|
                m <= k < given.len() ==> {
                    &&& (#[trigger] given[k]).image == image.image
                    &&& given[k].source == Owner::Graphics && given[k].target == Owner::Foreign
                    &&& given[k].old_layout == Layout::ShaderReadOnly
                    &&& given[k].new_layout == Layout::General
                }
        }),
{
    assert(images.push(image).drop_last() =~= images);
    assert(images.push(image).last() == image);
}

/// Submitting a frame changes of its images only that they were taken over once.
pub proof fn law_submitting_notes_the_first_takeover<T>(
    images: Seq<ExternalImage>,
    cached: CachedExternalFrame<T>,
)
    ensures
        after_submit(images, cached).sequence == cached.sequence,
        after_submit(images, cached).texture == cached.texture,
        after_submit(images, cached).image == cached.image,
        after_submit(images, cached).disjoint == cached.disjoint,
        cached.acquired ==> after_submit(images, cached).acquired,
        (forall|i: int| 0 <= i < images.len() ==> (#[trigger] images[i]).image != cached.image)
            ==> after_submit(images, cached).acquired == cached.acquired,
{
}

/// Every image takes part in a frame once, and at most 128 do.
pub proof fn law_images_are_distinct<T>(items: Seq<SceneItem>, textures: ExternalTextures<T>)
    ensures
        external_images(items, textures).len() <= MAX_SCENE_ITEMS,
        forall|i: int, j: int|
            0 <= i < j < external_images(items, textures).len() ==> (#[trigger] external_images(
                items,
                textures,
            )[i]).image != (#[trigger] external_images(items, textures)[j]).image,
    decreases items.len(),
{
    if items.len() > 0 {
        law_images_are_distinct(items.drop_last(), textures);
        let before = external_images(items.drop_last(), textures);
        let all = external_images(items, textures);
        assert forall|i: int, j: int| 0 <= i < j < all.len() implies (#[trigger] all[i]).image != (
        #[trigger] all[j]).image by {
            if j < before.len() {
                assert(all[i] == before[i] && all[j] == before[j]);
            } else if all.len() > before.len() {
                assert(all[i] == before[i]);
                assert(!lists_image(before, all[j].image));
            }
        }
    }
}

/// What is taken over before the scene pass is handed back after it: the two
/// barrier lists address the same parts of the same images in the same order,
/// and each handed-back part is in the layout in which it was taken over.
pub proof fn law_ownership_is_returned(images: Seq<ExternalImage>)
    ensures
        acquire_sequence(images).len() == release_sequence(images).len(),
        forall|i: int|
            0 <= i < acquire_sequence(images).len() ==> {
                &&& (#[trigger] acquire_sequence(images)[i]).image == release_sequence(
                    images,
                )[i].image
                &&& acquire_sequence(images)[i].aspect == release_sequence(images)[i].aspect
                &&& acquire_sequence(images)[i].new_layout == release_sequence(images)[i].old_layout
                &&& acquire_sequence(images)[i].target == release_sequence(images)[i].source
                &&& release_sequence(images)[i].target == acquire_sequence(images)[i].source
            },
    decreases images.len(),
{
    if images.len() > 0 {
        law_ownership_is_returned(images.drop_last());
        let a = acquire_sequence(images.drop_last());
        let r = release_sequence(images.drop_last());
        assert forall|i: int| 0 <= i < acquire_sequence(images).len() implies {
            &&& (#[trigger] acquire_sequence(images)[i]).image == release_sequence(images)[i].image
            &&& acquire_sequence(images)[i].aspect == release_sequence(images)[i].aspect
            &&& acquire_sequence(images)[i].new_layout == release_sequence(images)[i].old_layout
            &&& acquire_sequence(images)[i].target == release_sequence(images)[i].source
            &&& release_sequence(images)[i].target == acquire_sequence(images)[i].source
        } by {
            if i < a.len() {
                assert(acquire_sequence(images)[i] == a[i]);
                assert(release_sequence(images)[i] == r[i]);
            }
        }
    }
}

/// A scene never needs more than 256 barriers on either side.
pub proof fn law_barriers_fit(images: Seq<ExternalImage>)
    requires
        images.len() <= MAX_SCENE_ITEMS,
    ensures
        acquire_sequence(images).len() <= 2 * MAX_SCENE_ITEMS,
        release_sequence(images).len() <= 2 * MAX_SCENE_ITEMS,
{
    lemma_barrier_count(images);
}

proof fn lemma_barrier_count(images: Seq<ExternalImage>)
    ensures
        acquire_sequence(images).len() <= 2 * images.len(),
        release_sequence(images).len() <= 2 * images.len(),
    decreases images.len(),
{
    if images.len() > 0 {
        lemma_barrier_count(images.drop_last());
    }
}

/// Once a frame with an image's first acquisition was submitted, the texture is
/// marked, so that later frames take the image over from the general layout.
pub proof fn law_first_acquire_happens_once<T>(
    images: Seq<ExternalImage>,
    cached: CachedExternalFrame<T>,
    i: int,
)
    requires
        0 <= i < images.len(),
        images[i].image == cached.image,
        images[i].first_acquire == !cached.acquired,
    ensures
        after_submit(images, cached).acquired,
{
    if !cached.acquired {
        assert(images[i].first_acquire);
    }
}

} // verus!
