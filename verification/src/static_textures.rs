//! Uploaded textures of image and text sources.
//!
//! One pass per frame goes over the visible items of the active scene. For each
//! item the caller asks what is wanted ([`StaticPass::next`]) and hands over what it
//! found on disk ([`StaticTextures::on_image`]) or laid out
//! ([`StaticTextures::on_text`]). Where these give a picture, it is uploaded and the
//! outcome reported ([`StaticTextures::on_upload`]).
//! [`StaticTextures::finish`] then drops everything that no visible item shows.
//! `T` is the renderer's texture.

use vstd::prelude::*;
use vstd::string::*;

use crate::engine_event;
use crate::engine_event::{send, EngineEvent};
use crate::id_map;
use crate::id_map::IdMap;
use crate::id_set::IdSet;
use crate::image_cache;
use crate::image_cache::{copy_bytes, DecodedImage, ImageCache};
use crate::keyed_map;
use crate::project;
use crate::project::{active_scene, find_source, Project, SceneItem, Source, TextSource};
use crate::text::{same_bytes, same_text};
use crate::text_raster;
use crate::text_raster::{
    parse_color, PlacedGlyph, RasterError, RasterizedText, TextAlignKey, TextCache, TextKey,
};

verus! {

/// What an uploaded texture was made from.
pub enum StaticIdentity {
    Image { path: Vec<u8>, fingerprint: (u128, u64) },
    Text(TextKey),
}

/// An uploaded texture.
pub struct CachedStaticTexture<T> {
    pub identity: StaticIdentity,
    pub texture: T,
}

/// An image file as it is on disk: its canonical path, that path as it is shown to
/// the user, and its state.
pub struct ImageFile {
    pub path: Vec<u8>,
    pub shown: String,
    pub fingerprint: (u128, u64),
}

/// What a visible item wants.
pub enum StaticRequest {
    /// The item shows the image file.
    Image { source_id: u128, path: String },
    /// The item shows the text panel.
    Text { source_id: u128, key: TextKey },
}

/// What a request says.
pub enum RequestView {
    Image { source_id: u128, path: Seq<char> },
    Text { source_id: u128, key: text_raster::TextKeyView },
}

impl View for StaticRequest {
    type V = RequestView;

    open spec fn view(&self) -> RequestView {
        match *self {
            StaticRequest::Image { source_id, path } => RequestView::Image {
                source_id,
                path: path@,
            },
            StaticRequest::Text { source_id, key } => RequestView::Text { source_id, key: key@ },
        }
    }
}

/// One pass over the active scene: how many items it has seen, and what the visible
/// ones among them want.
pub struct StaticPass {
    pub position: usize,
    pub desired: IdSet,
    pub desired_text: Vec<TextKey>,
    pub desired_images: Vec<Vec<u8>>,
}

/// The uploaded textures and the failures that were reported.
pub struct StaticTextures<T> {
    pub textures: IdMap<CachedStaticTexture<T>>,
    pub failures: IdMap<String>,
}

/// The panel of a text source at the size of an item.
pub open spec fn wanted_panel(source: TextSource, item: SceneItem) -> text_raster::TextKeyView {
    text_raster::TextKeyView {
        text: source.text@,
        family: source.font_family@,
        size_bits: source.font_size_bits,
        weight: source.font_weight,
        color: text_raster::color_of(source.color@),
        background: text_raster::color_of(source.background_color@),
        align: text_raster::align_key(source.align),
        width: item.panel_width,
        height: item.panel_height,
    }
}

/// What an item wants of the source that it shows.
pub open spec fn wish_of(source: Source, item: SceneItem) -> Option<RequestView> {
    match source {
        Source::Image { id, path, .. } => Some(
            RequestView::Image { source_id: id, path: path@ },
        ),
        Source::Text(text) => Some(
            RequestView::Text { source_id: text.id, key: wanted_panel(text, item) },
        ),
        _ => None,
    }
}

/// What an item wants: nothing where it is hidden or shows no image and no text.
pub open spec fn wish(sources: Seq<Source>, item: SceneItem) -> Option<RequestView> {
    match project::source_of(sources, item.source_id) {
        Some(source) if item.visible => wish_of(source, item),
        _ => None,
    }
}

/// Whether one of `items` shows the source as an image or a text.
pub open spec fn desires(sources: Seq<Source>, items: Seq<SceneItem>, id: u128) -> bool {
    exists|i: int|
        0 <= i < items.len() && (#[trigger] items[i]).source_id == id && wish(sources, items[i])
            is Some
}

/// The text panels that `items` show, in order.
pub open spec fn panels_of(sources: Seq<Source>, items: Seq<SceneItem>) -> Seq<
    text_raster::TextKeyView,
>
    decreases items.len(),
{
    if items.len() == 0 {
        Seq::empty()
    } else {
        let before = panels_of(sources, items.drop_last());
        match wish(sources, items.last()) {
            Some(RequestView::Text { key, .. }) => before.push(key),
            _ => before,
        }
    }
}

/// What a list of panels says.
pub open spec fn panels_view(list: Seq<TextKey>) -> Seq<text_raster::TextKeyView> {
    list.map_values(|key: TextKey| key@)
}

/// Whether an identity is that of the image file in the given state.
pub open spec fn is_image(
    identity: StaticIdentity,
    path: Seq<u8>,
    fingerprint: (u128, u64),
) -> bool {
    identity matches StaticIdentity::Image { path: p, fingerprint: f } && p@ == path && f
        == fingerprint
}

/// Whether an identity is that of the text panel.
pub open spec fn is_panel(identity: StaticIdentity, key: text_raster::TextKeyView) -> bool {
    identity matches StaticIdentity::Text(k) && k@ == key
}

/// Whether a list has a panel.
pub open spec fn lists_panel(list: Seq<TextKey>, key: text_raster::TextKeyView) -> bool {
    exists|i: int| 0 <= i < list.len() && (#[trigger] list[i])@ == key
}

fn has_panel(list: &Vec<TextKey>, key: &TextKey) -> (r: bool)
    ensures
        r == lists_panel(list@, key@),
{
    let mut i: usize = 0;
    while i < list.len()
        invariant
            i <= list@.len(),
            forall|j: int| 0 <= j < i ==> (#[trigger] list@[j])@ != key@,
        decreases list@.len() - i,
    {
        if list[i].matches(key) {
            return true;
        }
        i += 1;
    }
    false
}

fn request(sources: &Vec<Source>, item: SceneItem) -> (r: Option<StaticRequest>)
    ensures
        match r {
            Some(request) => wish(sources@, item) == Some(request@),
            None => wish(sources@, item) is None,
        },
{
    if !item.visible {
        return None;
    }
    let at: usize = match find_source(sources, item.source_id) {
        Some(at) => at,
        None => {
            return None;
        },
    };
    match &sources[at] {
        Source::Image { id, path, .. } => Some(
            StaticRequest::Image { source_id: *id, path: path.clone() },
        ),
        Source::Text(source) => Some(
            StaticRequest::Text {
                source_id: source.id,
                key: TextKey {
                    text: source.text.clone(),
                    family: source.font_family.clone(),
                    size_bits: source.font_size_bits,
                    weight: source.font_weight,
                    color: parse_color(source.color.as_str()),
                    background: parse_color(source.background_color.as_str()),
                    align: TextAlignKey::from(source.align),
                    width: item.panel_width,
                    height: item.panel_height,
                },
            },
        ),
        _ => None,
    }
}

proof fn lemma_wish_is_of_its_source(sources: Seq<Source>, item: SceneItem)
    ensures
        match wish(sources, item) {
            Some(RequestView::Image { source_id, .. }) => source_id == item.source_id,
            Some(RequestView::Text { source_id, .. }) => source_id == item.source_id,
            None => true,
        },
{
    project::lemma_source_has_its_id(sources, item.source_id);
}

/// A visible item that shows a text source asks for the panel that the source
/// describes: its text in its font, at its size, weight and alignment, in the colour
/// that its `color` gives on the one that its `background_color` gives, as large as the
/// item. Of several sources with one id it is the first that counts.
pub proof fn law_text_request_is_of_its_source(
    sources: Seq<Source>,
    item: SceneItem,
    at: int,
    source: TextSource,
)
    requires
        item.visible,
        0 <= at < sources.len(),
        sources[at] == Source::Text(source),
        source.id == item.source_id,
        forall|j: int| 0 <= j < at ==> project::id_of(#[trigger] sources[j]) != item.source_id,
    ensures
        wish(sources, item) matches Some(RequestView::Text { source_id, key }) && {
            &&& source_id == item.source_id
            &&& key.text == source.text@
            &&& key.family == source.font_family@
            &&& key.size_bits == source.font_size_bits
            &&& key.weight == source.font_weight
            &&& key.color == text_raster::color_of(source.color@)
            &&& key.background == text_raster::color_of(source.background_color@)
            &&& key.align == TextAlignKey::Left <==> source.align == project::TextAlign::Left
            &&& key.align == TextAlignKey::Center <==> source.align == project::TextAlign::Center
            &&& key.align == TextAlignKey::Right <==> source.align == project::TextAlign::Right
            &&& key.width == item.panel_width
            &&& key.height == item.panel_height
        },
{
    project::law_first_source_counts(sources, item.source_id, at);
}

/// A visible item that shows an image source asks for the file that the source names,
/// under the source's id.
pub proof fn law_image_request_is_of_its_source(sources: Seq<Source>, item: SceneItem, at: int)
    requires
        item.visible,
        0 <= at < sources.len(),
        sources[at] is Image,
        project::id_of(sources[at]) == item.source_id,
        forall|j: int| 0 <= j < at ==> project::id_of(#[trigger] sources[j]) != item.source_id,
    ensures
        wish(sources, item) matches Some(RequestView::Image { source_id, path }) && source_id
            == item.source_id && path == sources[at]->Image_path@,
{
    project::law_first_source_counts(sources, item.source_id, at);
}

/// Nothing is asked for a hidden item, nor for one whose source is no image and no
/// text, nor for one whose source is gone.
pub proof fn law_only_pictures_are_asked_for(sources: Seq<Source>, item: SceneItem)
    ensures
        !item.visible ==> wish(sources, item) is None,
        (forall|j: int| 0 <= j < sources.len() ==> project::id_of(#[trigger] sources[j]) != item.source_id)
            ==> wish(sources, item) is None,
        forall|at: int|
            0 <= at < sources.len() && project::id_of(#[trigger] sources[at]) == item.source_id && (
            forall|j: int|
                0 <= j < at ==> project::id_of(#[trigger] sources[j]) != item.source_id) && !(
            sources[at] is Image) && !(sources[at] is Text) ==> wish(sources, item) is None,
{
    if forall|j: int| 0 <= j < sources.len() ==> project::id_of(#[trigger] sources[j]) != item.source_id {
        project::law_no_source_of_an_unknown_id(sources, item.source_id);
    }
    assert forall|at: int|
        0 <= at < sources.len() && project::id_of(#[trigger] sources[at]) == item.source_id && (
        forall|j: int| 0 <= j < at ==> project::id_of(#[trigger] sources[j]) != item.source_id)
            && !(sources[at] is Image) && !(sources[at] is Text) implies wish(
        sources,
        item,
    ) is None by {
        project::law_first_source_counts(sources, item.source_id, at);
    }
}

proof fn lemma_desires_next(sources: Seq<Source>, items: Seq<SceneItem>, n: int, id: u128)
    requires
        0 <= n < items.len(),
    ensures
        desires(sources, items.take(n + 1), id) <==> desires(sources, items.take(n), id) || (
        items[n].source_id == id && wish(sources, items[n]) is Some),
{
    let next = items.take(n + 1);
    let done = items.take(n);
    if desires(sources, next, id) {
        let i = choose|i: int|
            0 <= i < next.len() && (#[trigger] next[i]).source_id == id && wish(sources, next[i])
                is Some;
        if i < n {
            assert(done[i] == next[i]);
        }
    }
    if desires(sources, done, id) {
        let i = choose|i: int|
            0 <= i < done.len() && (#[trigger] done[i]).source_id == id && wish(sources, done[i])
                is Some;
        assert(next[i] == done[i]);
    }
    assert(next[n] == items[n]);
}

impl StaticPass {
    /// Each source is noted once.
    pub open spec fn wf(self) -> bool {
        self.desired.wf()
    }

    /// The pass has noted what the items that it has seen want.
    pub open spec fn follows(self, project: Project) -> bool {
        let seen = project::active_items(project).take(self.position as int);
        &&& self.wf()
        &&& self.position <= project::active_items(project).len()
        &&& forall|id: u128| #[trigger]
            self.desired@.contains(id) <==> desires(project.sources@, seen, id)
        &&& panels_view(self.desired_text@) == panels_of(project.sources@, seen)
    }

    /// The pass has seen every item.
    pub open spec fn is_complete(self, project: Project) -> bool {
        self.follows(project) && self.position == project::active_items(project).len()
    }

    /// A pass before its first item; none where the project has no active scene, so
    /// that nothing changes.
    pub fn begin(project: &Project) -> (r: Option<Self>)
        ensures
            r is Some <==> project::has_active_scene(*project),
            match r {
                Some(pass) => {
                    &&& pass.follows(*project)
                    &&& pass.position == 0
                    &&& pass.desired_images@ == Seq::<Vec<u8>>::empty()
                },
                None => true,
            },
    {
        match active_scene(project) {
            Some(_) => {
                let pass = StaticPass {
                    position: 0,
                    desired: IdSet::new(),
                    desired_text: Vec::new(),
                    desired_images: Vec::new(),
                };
                assert(panels_view(pass.desired_text@) =~= Seq::empty());
                Some(pass)
            },
            None => None,
        }
    }

    /// What the next visible item with an image or a text wants; notes it as desired.
    /// None where the pass is complete.
    pub fn next(&mut self, project: &Project) -> (r: Option<StaticRequest>)
        requires
            old(self).follows(*project),
        ensures
            final(self).follows(*project),
            final(self).desired_images == old(self).desired_images,
            ({
                let items = project::active_items(*project);
                match r {
                    Some(request) => {
                        let at = final(self).position - 1;
                        &&& old(self).position <= at < items.len()
                        &&& wish(project.sources@, items[at]) == Some(request@)
                        &&& items[at].visible
                        &&& match (
                            project::source_of(project.sources@, items[at].source_id),
                            request,
                        ) {
                            (Some(Source::Text(source)), StaticRequest::Text { source_id, key }) => {
                                &&& source_id == items[at].source_id
                                &&& key.text@ == source.text@
                                &&& key.family@ == source.font_family@
                                &&& key.size_bits == source.font_size_bits
                                &&& key.weight == source.font_weight
                                &&& key.color@ == text_raster::color_of(source.color@)
                                &&& key.background@ == text_raster::color_of(
                                    source.background_color@,
                                )
                                &&& key.align == text_raster::align_key(source.align)
                                &&& key.width == items[at].panel_width
                                &&& key.height == items[at].panel_height
                            },
                            (
                                Some(Source::Image { path: named, .. }),
                                StaticRequest::Image { source_id, path },
                            ) => source_id == items[at].source_id && path@ == named@,
                            _ => false,
                        }
                        &&& forall|j: int|
                            old(self).position <= j < at ==> wish(
                                project.sources@,
                                #[trigger] items[j],
                            ) is None
                    },
                    None => {
                        &&& final(self).is_complete(*project)
                        &&& forall|j: int|
                            old(self).position <= j < items.len() ==> wish(
                                project.sources@,
                                #[trigger] items[j],
                            ) is None
                    },
                }
            }),
    {
        let scene: usize = match active_scene(project) {
            Some(scene) => scene,
            None => {
                return None;
            },
        };
        let items = &project.scenes[scene].items;
        let ghost sources = project.sources@;
        let ghost from = self.position;
        let ghost images = self.desired_images;
        while self.position < items.len()
            invariant
                items@ == project::active_items(*project),
                sources == project.sources@,
                from <= self.position,
                images == self.desired_images,
                self.follows(*project),
                forall|j: int|
                    from <= j < self.position ==> wish(sources, #[trigger] items@[j]) is None,
                from == old(self).position,
                images == old(self).desired_images,
            decreases items@.len() - self.position,
        {
            let ghost before = *self;
            let ghost n = self.position as int;
            let item = items[self.position];
            let wanted = request(&project.sources, item);
            self.position = self.position + 1;
            proof {
                lemma_wish_is_of_its_source(sources, item);
                assert(items@.take(n + 1).drop_last() =~= items@.take(n));
            }
            match wanted {
                Some(request) => {
                    self.desired.insert(item.source_id);
                    match &request {
                        StaticRequest::Text { key, .. } => {
                            self.desired_text.push(key.copy());
                            assert(panels_view(self.desired_text@) =~= panels_view(
                                before.desired_text@,
                            ).push(key@));
                        },
                        _ => {},
                    }
                    proof {
                        assert forall|id: u128| #[trigger]
                            self.desired@.contains(id) <==> desires(
                                sources,
                                items@.take(n + 1),
                                id,
                            ) by {
                            lemma_desires_next(sources, items@, n, id);
                            assert(before.desired@.contains(id) <==> desires(
                                sources,
                                items@.take(n),
                                id,
                            ));
                        }
                    }
                    return Some(request);
                },
                None => {
                    proof {
                        assert forall|id: u128| #[trigger]
                            self.desired@.contains(id) <==> desires(
                                sources,
                                items@.take(n + 1),
                                id,
                            ) by {
                            lemma_desires_next(sources, items@, n, id);
                            assert(before.desired@.contains(id) <==> desires(
                                sources,
                                items@.take(n),
                                id,
                            ));
                        }
                    }
                },
            }
        }
        None
    }

    /// Notes the canonical path of a decoded image as desired.
    pub fn note_image(&mut self, path: Vec<u8>)
        ensures
            final(self).position == old(self).position,
            final(self).desired == old(self).desired,
            final(self).desired_text == old(self).desired_text,
            final(self).desired_images@ == old(self).desired_images@.push(path),
    {
        self.desired_images.push(path);
    }
}

/// The texture of a source, if there is one.
pub open spec fn static_texture_of<T>(
    table: Map<u128, CachedStaticTexture<T>>,
    id: u128,
) -> Seq<T> {
    if table.dom().contains(id) {
        seq![table[id].texture]
    } else {
        Seq::empty()
    }
}

/// Whether the failure was the last one reported for the source.
pub open spec fn already_reported(failures: Map<u128, String>, id: u128, reason: Seq<char>) -> bool {
    failures.dom().contains(id) && failures[id]@ == reason
}

/// What is told when a source shows what it should without an upload.
pub open spec fn unchanged_events(failures: Map<u128, String>, id: u128) -> Seq<
    engine_event::EventView,
> {
    if failures.dom().contains(id) {
        seq![engine_event::EventView::SourceAvailable { source_id: id }]
    } else {
        Seq::empty()
    }
}

/// What is told when a picture could not be had.
pub open spec fn failure_events(failures: Map<u128, String>, id: u128, reason: Seq<char>) -> Seq<
    engine_event::EventView,
> {
    if already_reported(failures, id, reason) {
        Seq::empty()
    } else {
        seq![engine_event::EventView::SourceUnavailable { source_id: id, reason }]
    }
}

/// The tables after a source was found to show what it should.
pub open spec fn kept<T>(before: StaticTextures<T>, after: StaticTextures<T>, id: u128) -> bool {
    &&& after.textures@ == before.textures@
    &&& after.textures.order() == before.textures.order()
    &&& after.failures@ == before.failures@.remove(id)
}

/// The tables after a picture could not be had: its texture is gone and the reason
/// is noted.
pub open spec fn dropped<T>(
    before: StaticTextures<T>,
    after: StaticTextures<T>,
    id: u128,
    reason: Seq<char>,
) -> bool {
    &&& after.textures@ == before.textures@.remove(id)
    &&& after.failures@.dom() == before.failures@.dom().insert(id)
    &&& already_reported(after.failures@, id, reason)
    &&& id_map::agree_except(before.failures@, after.failures@, id)
}

/// Whether a pass lists one more image.
pub open spec fn noted(before: StaticPass, after: StaticPass, path: Seq<u8>) -> bool {
    &&& after.position == before.position
    &&& after.desired == before.desired
    &&& after.desired_text == before.desired_text
    &&& after.desired_images@.len() == before.desired_images@.len() + 1
    &&& after.desired_images@.drop_last() == before.desired_images@
    &&& after.desired_images@.last()@ == path
}

/// The textures of sources that are not desired, in order.
pub open spec fn stale_static_textures<T>(
    table: Map<u128, CachedStaticTexture<T>>,
    desired: Set<u128>,
    ids: Seq<u128>,
) -> Seq<T>
    decreases ids.len(),
{
    if ids.len() == 0 {
        Seq::empty()
    } else {
        let before = stale_static_textures(table, desired, ids.drop_last());
        if desired.contains(ids.last()) {
            before
        } else {
            before.push(table[ids.last()].texture)
        }
    }
}

/// What the tables say about one source after a pass.
pub open spec fn finished_at<T>(
    before: StaticTextures<T>,
    after: StaticTextures<T>,
    desired: Set<u128>,
    id: u128,
) -> bool {
    if before.textures@.dom().contains(id) && !desired.contains(id) {
        !after.textures@.dom().contains(id) && !after.failures@.dom().contains(id)
    } else {
        id_map::agree(before.textures@, after.textures@, id) && id_map::agree(
            before.failures@,
            after.failures@,
            id,
        )
    }
}

/// What becomes of a source's texture.
pub enum PictureWish {
    /// It shows what it should.
    Keep,
    /// There is no picture; the text says why.
    Drop(Seq<char>),
    /// A new picture is uploaded.
    Upload,
}

/// What becomes of the texture of an image source.
pub open spec fn image_wish<T>(
    textures: StaticTextures<T>,
    cache: ImageCache,
    id: u128,
    file: Result<ImageFile, String>,
    contents: Result<&Vec<u8>, String>,
    now: u64,
) -> PictureWish {
    match file {
        Err(reason) => PictureWish::Drop(reason@),
        Ok(file) => {
            let found = image_cache::contents_view(contents);
            if !cache.offers(file.path@, file.fingerprint, found, now) {
                PictureWish::Drop(
                    cache.refusal_text(file.path@, file.shown@, file.fingerprint, found, now),
                )
            } else if textures.textures@.dom().contains(id) && is_image(
                textures.textures@[id].identity,
                file.path@,
                file.fingerprint,
            ) {
                PictureWish::Keep
            } else {
                PictureWish::Upload
            }
        },
    }
}

/// What becomes of the texture of a text source.
pub open spec fn text_wish<T>(
    textures: StaticTextures<T>,
    cache: TextCache,
    id: u128,
    key: text_raster::TextKeyView,
    glyphs: Result<Vec<PlacedGlyph>, RasterError>,
) -> PictureWish {
    if textures.textures@.dom().contains(id) && is_panel(textures.textures@[id].identity, key) {
        PictureWish::Keep
    } else if cache.panels().dom().contains(key) {
        PictureWish::Upload
    } else {
        match glyphs {
            Err(error) => PictureWish::Drop(text_raster::error_message(error)),
            Ok(_) => if text_raster::panel_side(key.width) * text_raster::panel_side(key.height)
                * 4 > usize::MAX {
                PictureWish::Drop(
                    text_raster::error_message(
                        RasterError::TooLarge { width: key.width, height: key.height },
                    ),
                )
            } else {
                PictureWish::Upload
            },
        }
    }
}

spec fn same_at<T>(a: StaticTextures<T>, b: StaticTextures<T>, id: u128) -> bool {
    id_map::agree(a.textures@, b.textures@, id) && id_map::agree(a.failures@, b.failures@, id)
}

impl<T> StaticTextures<T> {
    /// Both tables list each source once.
    pub open spec fn wf(self) -> bool {
        self.textures.wf() && self.failures.wf()
    }

    /// No textures.
    pub fn new() -> (r: Self)
        ensures
            r.wf(),
            r.textures@ == Map::<u128, CachedStaticTexture<T>>::empty(),
            r.failures@ == Map::<u128, String>::empty(),
    {
        StaticTextures { textures: IdMap::new(), failures: IdMap::new() }
    }

    /// Whether the uploaded texture already shows the image file in this state.
    pub fn image_unchanged(&self, id: u128, path: &Vec<u8>, fingerprint: (u128, u64)) -> (r: bool)
        requires
            self.wf(),
        ensures
            r == (self.textures@.dom().contains(id) && is_image(
                self.textures@[id].identity,
                path@,
                fingerprint,
            )),
    {
        match self.textures.get(id) {
            Some(cached) => match &cached.identity {
                StaticIdentity::Image { path: known, fingerprint: state } => same_bytes(
                    known,
                    path,
                ) && state.0 == fingerprint.0 && state.1 == fingerprint.1,
                StaticIdentity::Text(_) => false,
            },
            None => false,
        }
    }

    /// Whether the uploaded texture already shows the text panel.
    pub fn text_unchanged(&self, id: u128, key: &TextKey) -> (r: bool)
        requires
            self.wf(),
        ensures
            r == (self.textures@.dom().contains(id) && is_panel(
                self.textures@[id].identity,
                key@,
            )),
    {
        match self.textures.get(id) {
            Some(cached) => match &cached.identity {
                StaticIdentity::Text(known) => known.matches(key),
                StaticIdentity::Image { .. } => false,
            },
            None => false,
        }
    }

    /// The source shows what it should without an upload.
    pub fn on_unchanged(&mut self, id: u128, events: &mut Vec<EngineEvent>)
        requires
            old(self).wf(),
        ensures
            final(self).wf(),
            kept(*old(self), *final(self), id),
            engine_event::events_view(final(events)@) == engine_event::events_view(old(events)@)
                + unchanged_events(old(self).failures@, id),
    {
        if self.failures.remove(id).is_some() {
            send(events, EngineEvent::SourceAvailable { source_id: id });
        }
        assert(engine_event::events_view(events@) =~= engine_event::events_view(old(events)@)
            + unchanged_events(old(self).failures@, id));
    }

    /// A texture was uploaded: it replaces the previous one.
    pub fn on_uploaded(
        &mut self,
        id: u128,
        identity: StaticIdentity,
        texture: T,
        retired: &mut Vec<T>,
        events: &mut Vec<EngineEvent>,
    )
        requires
            old(self).wf(),
        ensures
            final(self).wf(),
            final(self).textures@ == old(self).textures@.insert(
                id,
                CachedStaticTexture { identity, texture },
            ),
            final(self).failures@ == old(self).failures@.remove(id),
            final(retired)@ == old(retired)@ + static_texture_of(old(self).textures@, id),
            engine_event::events_view(final(events)@) == engine_event::events_view(
                old(events)@,
            ).push(engine_event::EventView::SourceAvailable { source_id: id }),
    {
        match self.textures.insert(id, CachedStaticTexture { identity, texture }) {
            Some(previous) => {
                retired.push(previous.texture);
            },
            None => {},
        }
        assert(retired@ =~= old(retired)@ + static_texture_of(old(self).textures@, id));
        self.failures.remove(id);
        send(events, EngineEvent::SourceAvailable { source_id: id });
    }

    /// The picture could not be had or uploaded. The same reason is reported once.
    pub fn on_failed(
        &mut self,
        id: u128,
        reason: String,
        retired: &mut Vec<T>,
        events: &mut Vec<EngineEvent>,
    )
        requires
            old(self).wf(),
        ensures
            final(self).wf(),
            dropped(*old(self), *final(self), id, reason@),
            final(retired)@ == old(retired)@ + static_texture_of(old(self).textures@, id),
            engine_event::events_view(final(events)@) == engine_event::events_view(old(events)@)
                + failure_events(old(self).failures@, id, reason@),
    {
        let known = match self.failures.get(id) {
            Some(last) => same_text(last.as_str(), reason.as_str()),
            None => false,
        };
        if !known {
            self.failures.insert(id, reason.clone());
            send(events, EngineEvent::SourceUnavailable { source_id: id, reason });
        }
        assert(engine_event::events_view(events@) =~= engine_event::events_view(old(events)@)
            + failure_events(old(self).failures@, id, reason@));
        assert(self.failures@.dom() =~= old(self).failures@.dom().insert(id));
        match self.textures.remove(id) {
            Some(previous) => {
                retired.push(previous.texture);
            },
            None => {},
        }
        assert(retired@ =~= old(retired)@ + static_texture_of(old(self).textures@, id));
    }

    /// A visible item shows an image file: `file` is what is on disk, or why it could
    /// not be looked up, and `contents` what the file holds, where
    /// [`ImageCache::needs_contents`] asks for it, or why it could not be read. A file
    /// with an image is noted as shown. Gives the image where it is to be uploaded.
    pub fn on_image<'a>(
        &mut self,
        pass: &mut StaticPass,
        id: u128,
        file: Result<ImageFile, String>,
        contents: Result<&Vec<u8>, String>,
        now: u64,
        image_cache: &'a mut ImageCache,
        retired: &mut Vec<T>,
        events: &mut Vec<EngineEvent>,
    ) -> (r: Option<(StaticIdentity, &'a DecodedImage)>)
        requires
            old(self).wf(),
            old(image_cache).wf(),
        ensures
            final(self).wf(),
            final(image_cache).wf(),
            match file {
                Err(reason) => {
                    &&& *final(pass) == *old(pass)
                    &&& *final(image_cache) == *old(image_cache)
                },
                Ok(file) => {
                    &&& if old(image_cache).offers(
                        file.path@,
                        file.fingerprint,
                        image_cache::contents_view(contents),
                        now,
                    ) {
                        noted(*old(pass), *final(pass), file.path@)
                    } else {
                        *final(pass) == *old(pass)
                    }
                    &&& image_cache::fetched(
                        *old(image_cache),
                        *final(image_cache),
                        file.path@,
                        file.fingerprint,
                        image_cache::contents_view(contents),
                        now,
                    )
                },
            },
            match image_wish(*old(self), *old(image_cache), id, file, contents, now) {
                PictureWish::Keep => {
                    &&& r is None
                    &&& kept(*old(self), *final(self), id)
                    &&& final(retired)@ == old(retired)@
                    &&& engine_event::events_view(final(events)@) == engine_event::events_view(
                        old(events)@,
                    ) + unchanged_events(old(self).failures@, id)
                },
                PictureWish::Drop(reason) => {
                    &&& r is None
                    &&& dropped(*old(self), *final(self), id, reason)
                    &&& final(retired)@ == old(retired)@ + static_texture_of(
                        old(self).textures@,
                        id,
                    )
                    &&& engine_event::events_view(final(events)@) == engine_event::events_view(
                        old(events)@,
                    ) + failure_events(old(self).failures@, id, reason)
                },
                PictureWish::Upload => {
                    &&& r matches Some((identity, image))
                    &&& is_image(identity, file->Ok_0.path@, file->Ok_0.fingerprint)
                    &&& *image == final(image_cache).images()[file->Ok_0.path@]
                    &&& *final(self) == *old(self)
                    &&& final(retired)@ == old(retired)@
                    &&& final(events)@ == old(events)@
                },
            },
    {
        let file = match file {
            Ok(file) => file,
            Err(reason) => {
                self.on_failed(id, reason, retired, events);
                return None;
            },
        };
        let unchanged = self.image_unchanged(id, &file.path, file.fingerprint);
        let fetched = image_cache.get_or_decode(
            copy_bytes(&file.path),
            file.fingerprint,
            contents,
            now,
        );
        match fetched {
            Ok(image) => {
                pass.note_image(copy_bytes(&file.path));
                assert(pass.desired_images@.drop_last() =~= old(pass).desired_images@);
                if unchanged {
                    self.on_unchanged(id, events);
                    return None;
                }
                let identity = StaticIdentity::Image {
                    path: file.path,
                    fingerprint: file.fingerprint,
                };
                Some((identity, image))
            },
            Err(error) => {
                self.on_failed(id, error.message(file.shown.as_str()), retired, events);
                None
            },
        }
    }

    /// Whether [`StaticTextures::on_text`] needs the glyphs of the panel.
    pub fn needs_glyphs(&self, id: u128, key: &TextKey, text_cache: &TextCache) -> (r: bool)
        requires
            self.wf(),
            text_cache.wf(),
        ensures
            r == (!(self.textures@.dom().contains(id) && is_panel(
                self.textures@[id].identity,
                key@,
            )) && !text_cache.panels().dom().contains(key@)),
    {
        !self.text_unchanged(id, key) && text_cache.needs_glyphs(key)
    }

    /// A visible item shows a text panel: `glyphs` are its glyphs, where
    /// [`StaticTextures::needs_glyphs`] asks for them, or why there are none. Gives the
    /// bitmap where it is to be uploaded.
    pub fn on_text<'a>(
        &mut self,
        id: u128,
        key: TextKey,
        glyphs: Result<Vec<PlacedGlyph>, RasterError>,
        text_cache: &'a mut TextCache,
        retired: &mut Vec<T>,
        events: &mut Vec<EngineEvent>,
    ) -> (r: Option<(StaticIdentity, &'a RasterizedText)>)
        requires
            old(self).wf(),
            old(text_cache).wf(),
            glyphs matches Ok(list) ==> forall|i: int|
                0 <= i < list@.len() ==> (#[trigger] list@[i]).wf(),
        ensures
            final(self).wf(),
            final(text_cache).wf(),
            match text_wish(*old(self), *old(text_cache), id, key@, glyphs) {
                PictureWish::Keep => {
                    &&& r is None
                    &&& *final(text_cache) == *old(text_cache)
                    &&& kept(*old(self), *final(self), id)
                    &&& final(retired)@ == old(retired)@
                    &&& engine_event::events_view(final(events)@) == engine_event::events_view(
                        old(events)@,
                    ) + unchanged_events(old(self).failures@, id)
                },
                PictureWish::Drop(reason) => {
                    &&& r is None
                    &&& final(text_cache).panels() == old(text_cache).panels()
                    &&& dropped(*old(self), *final(self), id, reason)
                    &&& final(retired)@ == old(retired)@ + static_texture_of(
                        old(self).textures@,
                        id,
                    )
                    &&& engine_event::events_view(final(events)@) == engine_event::events_view(
                        old(events)@,
                    ) + failure_events(old(self).failures@, id, reason)
                },
                PictureWish::Upload => {
                    &&& r matches Some((identity, raster))
                    &&& is_panel(identity, key@)
                    &&& if old(text_cache).panels().dom().contains(key@) {
                        &&& *raster == old(text_cache).panels()[key@]
                        &&& final(text_cache).panels() == old(text_cache).panels()
                    } else {
                        &&& text_raster::shows_panel(*raster, key@, glyphs->Ok_0@)
                        &&& final(text_cache).panels() == old(text_cache).panels().insert(
                            key@,
                            *raster,
                        )
                    }
                    &&& *final(self) == *old(self)
                    &&& final(retired)@ == old(retired)@
                    &&& final(events)@ == old(events)@
                },
            },
    {
        if self.text_unchanged(id, &key) {
            self.on_unchanged(id, events);
            return None;
        }
        let identity = StaticIdentity::Text(key.copy());
        match text_cache.rasterize(key, glyphs) {
            Ok(raster) => Some((identity, raster)),
            Err(error) => {
                self.on_failed(id, error.message(), retired, events);
                None
            },
        }
    }

    /// Takes the outcome of an upload.
    pub fn on_upload(
        &mut self,
        id: u128,
        identity: StaticIdentity,
        uploaded: Result<T, String>,
        retired: &mut Vec<T>,
        events: &mut Vec<EngineEvent>,
    )
        requires
            old(self).wf(),
        ensures
            final(self).wf(),
            final(retired)@ == old(retired)@ + static_texture_of(old(self).textures@, id),
            match uploaded {
                Ok(texture) => {
                    &&& final(self).textures@ == old(self).textures@.insert(
                        id,
                        CachedStaticTexture { identity, texture },
                    )
                    &&& final(self).failures@ == old(self).failures@.remove(id)
                    &&& engine_event::events_view(final(events)@) == engine_event::events_view(
                        old(events)@,
                    ).push(engine_event::EventView::SourceAvailable { source_id: id })
                },
                Err(reason) => {
                    &&& dropped(*old(self), *final(self), id, reason@)
                    &&& engine_event::events_view(final(events)@) == engine_event::events_view(
                        old(events)@,
                    ) + failure_events(old(self).failures@, id, reason@)
                },
            },
    {
        match uploaded {
            Ok(texture) => {
                self.on_uploaded(id, identity, texture, retired, events);
            },
            Err(reason) => {
                self.on_failed(id, reason, retired, events);
            },
        }
    }

    /// Ends a pass: caches and textures keep what visible items show. A file that
    /// cannot be decoded stays known as long as it cools down.
    pub fn finish(
        &mut self,
        pass: &StaticPass,
        text_cache: &mut TextCache,
        image_cache: &mut ImageCache,
        now: u64,
        retired: &mut Vec<T>,
    )
        requires
            old(self).wf(),
            pass.wf(),
            old(text_cache).wf(),
            old(image_cache).wf(),
        ensures
            final(self).wf(),
            final(text_cache).wf(),
            final(image_cache).wf(),
            forall|id: u128| #[trigger]
                finished_at(*old(self), *final(self), pass.desired@, id),
            final(retired)@ == old(retired)@ + stale_static_textures(
                old(self).textures@,
                pass.desired@,
                old(self).textures.order(),
            ),
            forall|key: text_raster::TextKeyView| #[trigger]
                final(text_cache).panels().dom().contains(key) <==> old(text_cache).panels().dom().contains(key) && lists_panel(pass.desired_text@, key),
            forall|key: text_raster::TextKeyView| #[trigger]
                final(text_cache).panels().dom().contains(key) ==> final(text_cache).panels()[key]
                    == old(text_cache).panels()[key],
            image_cache::pruned(
                *old(image_cache),
                *final(image_cache),
                pass.desired_images@,
                now,
            ),
    {
        let wanted_text = &pass.desired_text;
        let keep_text = |key: &TextKey| -> (kept: bool)
            ensures
                kept == lists_panel(wanted_text@, key@),
            { has_panel(wanted_text, key) };
        text_cache.retain(keep_text);
        proof {
            assert forall|key: text_raster::TextKeyView| #[trigger]
                text_cache.panels().dom().contains(key) <==> old(text_cache).panels().dom().contains(
                    key,
                ) && lists_panel(pass.desired_text@, key) by {
                assert(keyed_map::retained_at(
                    old(text_cache).panels(),
                    text_cache.panels(),
                    keep_text,
                    key,
                ));
            }
            assert forall|key: text_raster::TextKeyView| #[trigger]
                text_cache.panels().dom().contains(key) implies text_cache.panels()[key] == old(text_cache).panels()[key] by {
                assert(keyed_map::retained_at(
                    old(text_cache).panels(),
                    text_cache.panels(),
                    keep_text,
                    key,
                ));
            }
        }
        image_cache.prune(&pass.desired_images, now);
        let ghost before = *self;
        let ids = self.textures.keys();
        proof {
            self.textures.lemma_order();
        }
        let mut i: usize = 0;
        while i < ids.len()
            invariant
                i <= ids@.len(),
                self.wf(),
                pass.wf(),
                before == *old(self),
                ids@ == before.textures.order(),
                ids@.no_duplicates(),
                forall|k: int|
                    0 <= k < ids@.len() ==> before.textures@.dom().contains(#[trigger] ids@[k]),
                retired@ == old(retired)@ + stale_static_textures(
                    before.textures@,
                    pass.desired@,
                    ids@.take(i as int),
                ),
                forall|id: u128|
                    !ids@.take(i as int).contains(id) ==> #[trigger] same_at(before, *self, id),
                forall|k: int|
                    0 <= k < i ==> #[trigger] finished_at(before, *self, pass.desired@, ids@[k]),
            decreases ids@.len() - i,
        {
            let id: u128 = ids[i];
            let ghost prior = *self;
            let ghost done = ids@.take(i as int);
            let ghost next = ids@.take(i + 1);
            proof {
                assert(next.drop_last() =~= done);
                assert(next[i as int] == id);
                assert(!done.contains(id)) by {
                    if done.contains(id) {
                        let j = done.index_of(id);
                        assert(ids@[j] == ids@[i as int]);
                    }
                }
                assert(same_at(before, prior, id));
                assert(before.textures@.dom().contains(ids@[i as int]));
            }
            if !pass.desired.contains(id) {
                match self.textures.remove(id) {
                    Some(cached) => {
                        retired.push(cached.texture);
                    },
                    None => {},
                }
                self.failures.remove(id);
            }
            proof {
                assert(retired@ =~= old(retired)@ + stale_static_textures(
                    before.textures@,
                    pass.desired@,
                    next,
                ));
                assert forall|k: u128| !next.contains(k) implies #[trigger] same_at(
                    before,
                    *self,
                    k,
                ) by {
                    assert(!done.contains(k)) by {
                        if done.contains(k) {
                            let j = done.index_of(k);
                            assert(next[j] == k);
                        }
                    }
                    assert(same_at(before, prior, k));
                }
                assert forall|k: int| 0 <= k < i + 1 implies #[trigger] finished_at(
                    before,
                    *self,
                    pass.desired@,
                    ids@[k],
                ) by {
                    if k < i {
                        assert(finished_at(before, prior, pass.desired@, ids@[k]));
                        assert(ids@[k] != ids@[i as int]);
                    }
                }
            }
            i += 1;
        }
        assert(ids@.take(i as int) =~= ids@);
        proof {
            assert forall|id: u128| #[trigger] finished_at(before, *self, pass.desired@, id) by {
                if before.textures@.dom().contains(id) {
                    assert(before.textures.order().contains(id));
                    let k = ids@.index_of(id);
                    assert(finished_at(before, *self, pass.desired@, ids@[k]));
                } else {
                    assert(!ids@.contains(id));
                    assert(same_at(before, *self, id));
                }
            }
        }
    }
}

/// After a complete pass a texture is kept only for a source that a visible item of
/// the active scene shows.
pub proof fn law_only_visible_sources_keep_textures<T>(
    project: Project,
    pass: StaticPass,
    before: StaticTextures<T>,
    after: StaticTextures<T>,
    id: u128,
)
    requires
        pass.is_complete(project),
        finished_at(before, after, pass.desired@, id),
        after.textures@.dom().contains(id),
    ensures
        project::shown_in(project::active_items(project), id),
        before.textures@.dom().contains(id),
        after.textures@[id] == before.textures@[id],
{
    let items = project::active_items(project);
    assert(items.take(pass.position as int) =~= items);
    assert(pass.desired@.contains(id));
    let i = choose|i: int|
        0 <= i < items.len() && (#[trigger] items[i]).source_id == id && wish(
            project.sources@,
            items[i],
        ) is Some;
    assert(items[i].visible);
}

/// An image source keeps its texture exactly where the texture was made of the file that
/// is there, in the state that it is in; a file that cannot be had costs it the texture,
/// and any other file or state is uploaded.
pub proof fn law_image_texture_follows_its_file<T>(
    textures: StaticTextures<T>,
    cache: ImageCache,
    id: u128,
    file: ImageFile,
    contents: Result<&Vec<u8>, String>,
    now: u64,
    reason: String,
)
    ensures
        image_wish(textures, cache, id, Err(reason), contents, now) == PictureWish::Drop(reason@),
        ({
            let offered = cache.offers(
                file.path@,
                file.fingerprint,
                image_cache::contents_view(contents),
                now,
            );
            let same = textures.textures@.dom().contains(id) && (
            textures.textures@[id].identity matches StaticIdentity::Image { path, fingerprint }
                && path@ == file.path@ && fingerprint == file.fingerprint);
            let wanted = image_wish(textures, cache, id, Ok(file), contents, now);
            &&& wanted is Drop <==> !offered
            &&& wanted is Keep <==> offered && same
            &&& wanted is Upload <==> offered && !same
        }),
{
}

/// A text source keeps its texture exactly where that shows the panel that is wanted;
/// another panel is uploaded, from the cache where that has it, unless it cannot be laid
/// out or is too large.
pub proof fn law_text_texture_follows_its_panel<T>(
    textures: StaticTextures<T>,
    cache: TextCache,
    id: u128,
    key: text_raster::TextKeyView,
    glyphs: Result<Vec<PlacedGlyph>, RasterError>,
)
    ensures
        ({
            let same = textures.textures@.dom().contains(id) && (
            textures.textures@[id].identity matches StaticIdentity::Text(shown) && shown@ == key);
            let cached = cache.panels().dom().contains(key);
            let wanted = text_wish(textures, cache, id, key, glyphs);
            &&& wanted is Keep <==> same
            &&& !same && cached ==> wanted is Upload
            &&& !same && !cached && glyphs is Err ==> wanted == PictureWish::Drop(
                text_raster::error_message(glyphs->Err_0),
            )
            &&& wanted is Upload && !cached ==> glyphs is Ok
        }),
{
}

/// A failure is told under its source with its reason, unless it is the one that stands;
/// a source that shows what it should is told as available only where a failure stood.
pub proof fn law_changed_fortune_is_told(
    failures: Map<u128, String>,
    id: u128,
    reason: Seq<char>,
)
    ensures
        failures.dom().contains(id) && failures[id]@ == reason ==> failure_events(
            failures,
            id,
            reason,
        ).len() == 0,
        !failures.dom().contains(id) || failures[id]@ != reason ==> failure_events(
            failures,
            id,
            reason,
        ) == seq![engine_event::EventView::SourceUnavailable { source_id: id, reason }],
        failures.dom().contains(id) ==> unchanged_events(failures, id) == seq![
            engine_event::EventView::SourceAvailable { source_id: id },
        ],
        !failures.dom().contains(id) ==> unchanged_events(failures, id).len() == 0,
{
}

/// A picture that could not be had costs its source the texture and no other source
/// anything; one that shows what it should loses only its failure.
pub proof fn law_other_sources_are_untouched<T>(
    before: StaticTextures<T>,
    after: StaticTextures<T>,
    id: u128,
    reason: Seq<char>,
    other: u128,
)
    requires
        other != id,
    ensures
        dropped(before, after, id, reason) ==> {
            &&& !after.textures@.dom().contains(id)
            &&& after.failures@.dom().contains(id) && after.failures@[id]@ == reason
            &&& after.textures@.dom().contains(other) == before.textures@.dom().contains(other)
            &&& before.textures@.dom().contains(other) ==> after.textures@[other]
                == before.textures@[other]
            &&& after.failures@.dom().contains(other) == before.failures@.dom().contains(other)
        },
        kept(before, after, id) ==> {
            &&& after.textures@ == before.textures@
            &&& !after.failures@.dom().contains(id)
            &&& after.failures@.dom().contains(other) == before.failures@.dom().contains(other)
        },
{
}

/// Noting an image adds its path behind those before it and changes nothing else that the
/// pass has seen.
pub proof fn law_noted_image_comes_last(before: StaticPass, after: StaticPass, path: Seq<u8>, i: int)
    requires
        noted(before, after, path),
        0 <= i < before.desired_images@.len(),
    ensures
        after.position == before.position && after.desired == before.desired && after.desired_text
            == before.desired_text,
        after.desired_images@[i] == before.desired_images@[i],
        after.desired_images@[before.desired_images@.len() as int]@ == path,
        after.desired_images@.len() == before.desired_images@.len() + 1,
{
    assert(after.desired_images@.drop_last()[i] == before.desired_images@[i]);
}

/// A pass leaves the textures that some visible item wants, and retires the others.
pub proof fn law_wanted_textures_stay<T>(
    before: StaticTextures<T>,
    after: StaticTextures<T>,
    desired: Set<u128>,
    id: u128,
)
    requires
        finished_at(before, after, desired, id),
        before.textures@.dom().contains(id),
    ensures
        desired.contains(id) ==> after.textures@.dom().contains(id) && after.textures@[id]
            == before.textures@[id],
        !desired.contains(id) ==> !after.textures@.dom().contains(id)
            && !after.failures@.dom().contains(id),
{
}

/// What is retired is what no visible item wants: each such texture, and no other.
pub proof fn law_unwanted_textures_retire<T>(
    table: Map<u128, CachedStaticTexture<T>>,
    desired: Set<u128>,
    ids: Seq<u128>,
    i: int,
)
    requires
        0 <= i < ids.len(),
    ensures
        !desired.contains(ids[i]) ==> stale_static_textures(table, desired, ids).contains(
            table[ids[i]].texture,
        ),
        desired.contains(ids[i]) ==> stale_static_textures(table, desired, ids)
            == stale_static_textures(table, desired, ids.remove(i)),
    decreases ids.len(),
{
    let before = stale_static_textures(table, desired, ids.drop_last());
    let all = stale_static_textures(table, desired, ids);
    if i == ids.len() - 1 {
        assert(ids.remove(i) =~= ids.drop_last());
        if !desired.contains(ids[i]) {
            assert(all[all.len() - 1] == table[ids[i]].texture);
        }
    } else {
        law_unwanted_textures_retire(table, desired, ids.drop_last(), i);
        assert(ids.remove(i).drop_last() =~= ids.drop_last().remove(i));
        assert(ids.remove(i).last() == ids.last());
        if !desired.contains(ids[i]) {
            let k = choose|k: int| 0 <= k < before.len() && before[k] == table[ids[i]].texture;
            assert(all[k] == table[ids[i]].texture);
        }
    }
}

/// An uploaded picture is not uploaded again while its source stays the same.
pub proof fn law_same_picture_is_not_uploaded_again<T>(
    before: Map<u128, CachedStaticTexture<T>>,
    after: Map<u128, CachedStaticTexture<T>>,
    id: u128,
    identity: StaticIdentity,
    texture: T,
)
    requires
        after == before.insert(id, CachedStaticTexture { identity, texture }),
    ensures
        match identity {
            StaticIdentity::Image { path, fingerprint } => after.dom().contains(id) && is_image(
                after[id].identity,
                path@,
                fingerprint,
            ),
            StaticIdentity::Text(key) => after.dom().contains(id) && is_panel(
                after[id].identity,
                key@,
            ),
        },
{
}

} // verus!
