//! The parts of a project that the render and capture logic reads.
//!
//! Identifiers are the 128-bit values of the project file's UUIDs. Sizes that
//! the file stores as fractions are held as the whole pixels they round to, and
//! the font size as the bit pattern of its single-precision value.

use vstd::prelude::*;

verus! {

/// Horizontal alignment of a text source.
#[derive(Clone, Copy, Debug, PartialEq, Eq, Structural)]
pub enum TextAlign {
    Left,
    Center,
    Right,
}

/// A text panel.
#[derive(Clone, Debug)]
pub struct TextSource {
    pub id: u128,
    pub name: String,
    pub text: String,
    pub font_family: String,
    pub font_size_bits: u32,
    pub font_weight: u16,
    pub color: String,
    pub background_color: String,
    pub align: TextAlign,
}

/// A media file with its playback options.
#[derive(Clone, Debug)]
pub struct MediaSource {
    pub id: u128,
    pub name: String,
    pub path: String,
    pub looped: bool,
    pub continue_when_hidden: bool,
    pub restart_on_show: bool,
}

/// One source of a project.
#[derive(Clone, Debug)]
pub enum Source {
    Window { id: u128, name: String, process_path: String, window_title: String },
    Display { id: u128, name: String, adapter_luid: String, output_id: u32 },
    Image { id: u128, name: String, path: String },
    Text(TextSource),
    Media(MediaSource),
    ApplicationAudio { id: u128, name: String },
}

/// One placed source of a scene.
///
/// `panel_width` and `panel_height` are the item's size rounded to whole pixels,
/// at least one each.
#[derive(Clone, Copy, Debug, PartialEq, Eq, Structural)]
pub struct SceneItem {
    pub source_id: u128,
    pub visible: bool,
    pub panel_width: u32,
    pub panel_height: u32,
}

/// An ordered list of placed sources.
#[derive(Clone, Debug)]
pub struct Scene {
    pub id: u128,
    pub items: Vec<SceneItem>,
}

/// Size, rate and background of the program output.
#[derive(Clone, Debug)]
pub struct OutputConfig {
    pub width: u32,
    pub height: u32,
    pub fps: u32,
    pub background: String,
}

/// A project snapshot.
#[derive(Clone, Debug)]
pub struct Project {
    pub active_scene_id: u128,
    pub scenes: Vec<Scene>,
    pub sources: Vec<Source>,
    pub output: OutputConfig,
}

/// The id of a source.
pub open spec fn id_of(source: Source) -> u128 {
    match source {
        Source::Window { id, .. } => id,
        Source::Display { id, .. } => id,
        Source::Image { id, .. } => id,
        Source::Text(text) => text.id,
        Source::Media(media) => media.id,
        Source::ApplicationAudio { id, .. } => id,
    }
}

/// The name that the user gave a source.
pub open spec fn name_of(source: Source) -> Seq<char> {
    match source {
        Source::Window { name, .. } => name@,
        Source::Display { name, .. } => name@,
        Source::Image { name, .. } => name@,
        Source::Text(text) => text.name@,
        Source::Media(media) => media.name@,
        Source::ApplicationAudio { name, .. } => name@,
    }
}

/// `i` is the first position of `sources` that holds `id`.
pub open spec fn is_first_source(sources: Seq<Source>, id: u128, i: int) -> bool {
    &&& 0 <= i < sources.len()
    &&& id_of(sources[i]) == id
    &&& forall|j: int| 0 <= j < i ==> id_of(#[trigger] sources[j]) != id
}

/// Whether any source has the id.
pub open spec fn has_source(sources: Seq<Source>, id: u128) -> bool {
    exists|i: int| 0 <= i < sources.len() && id_of(#[trigger] sources[i]) == id
}

/// The first source with the id.
pub open spec fn source_of(sources: Seq<Source>, id: u128) -> Option<Source>
    decreases sources.len(),
{
    if sources.len() == 0 {
        None
    } else {
        match source_of(sources.drop_last(), id) {
            Some(source) => Some(source),
            None => if id_of(sources.last()) == id {
                Some(sources.last())
            } else {
                None
            },
        }
    }
}

/// The source found under an id has it.
pub proof fn lemma_source_has_its_id(sources: Seq<Source>, id: u128)
    ensures
        source_of(sources, id) matches Some(source) ==> id_of(source) == id,
    decreases sources.len(),
{
    if sources.len() > 0 {
        lemma_source_has_its_id(sources.drop_last(), id);
    }
}

proof fn lemma_no_source(sources: Seq<Source>, id: u128)
    requires
        forall|j: int| 0 <= j < sources.len() ==> id_of(#[trigger] sources[j]) != id,
    ensures
        source_of(sources, id) is None,
    decreases sources.len(),
{
    if sources.len() > 0 {
        lemma_no_source(sources.drop_last(), id);
    }
}

proof fn lemma_first_source(sources: Seq<Source>, id: u128, i: int)
    requires
        is_first_source(sources, id, i),
    ensures
        source_of(sources, id) == Some(sources[i]),
    decreases sources.len(),
{
    let before = sources.drop_last();
    if i < before.len() {
        assert(is_first_source(before, id, i));
        lemma_first_source(before, id, i);
    } else {
        lemma_no_source(before, id);
    }
}

/// An id stands for the first source that has it: later sources with the same id are
/// never found.
pub proof fn law_first_source_counts(sources: Seq<Source>, id: u128, i: int)
    requires
        0 <= i < sources.len(),
        id_of(sources[i]) == id,
        forall|j: int| 0 <= j < i ==> id_of(#[trigger] sources[j]) != id,
    ensures
        source_of(sources, id) == Some(sources[i]),
{
    lemma_first_source(sources, id, i);
}

/// An id that no source has stands for nothing.
pub proof fn law_no_source_of_an_unknown_id(sources: Seq<Source>, id: u128)
    requires
        forall|j: int| 0 <= j < sources.len() ==> id_of(#[trigger] sources[j]) != id,
    ensures
        source_of(sources, id) is None,
{
    lemma_no_source(sources, id);
}

/// `i` is the position of the active scene: the first whose id is the active id.
pub open spec fn is_active_scene(project: Project, i: int) -> bool {
    &&& 0 <= i < project.scenes@.len()
    &&& project.scenes@[i].id == project.active_scene_id
    &&& forall|j: int| 0 <= j < i ==> (#[trigger] project.scenes@[j]).id != project.active_scene_id
}

/// Whether the project has an active scene at all.
pub open spec fn has_active_scene(project: Project) -> bool {
    exists|i: int|
        0 <= i < project.scenes@.len() && (#[trigger] project.scenes@[i]).id
            == project.active_scene_id
}

/// The items of the active scene; none where the project has no active scene.
pub open spec fn active_items(project: Project) -> Seq<SceneItem> {
    if has_active_scene(project) {
        project.scenes@[choose|i: int| is_active_scene(project, i)].items@
    } else {
        Seq::empty()
    }
}

/// Whether one of `items` shows the source.
pub open spec fn shown_in(items: Seq<SceneItem>, id: u128) -> bool {
    exists|i: int|
        0 <= i < items.len() && (#[trigger] items[i]).source_id == id && items[i].visible
}

impl Source {
    /// The id of this source.
    pub fn id(&self) -> (r: u128)
        ensures
            r == id_of(*self),
    {
        match self {
            Source::Window { id, .. } => *id,
            Source::Display { id, .. } => *id,
            Source::Image { id, .. } => *id,
            Source::Text(text) => text.id,
            Source::Media(media) => media.id,
            Source::ApplicationAudio { id, .. } => *id,
        }
    }
}

/// The name that the user gave a source.
pub fn source_name(source: &Source) -> (r: &str)
    ensures
        r@ == name_of(*source),
{
    match source {
        Source::Window { name, .. } => name.as_str(),
        Source::Display { name, .. } => name.as_str(),
        Source::Image { name, .. } => name.as_str(),
        Source::Text(text) => text.name.as_str(),
        Source::Media(media) => media.name.as_str(),
        Source::ApplicationAudio { name, .. } => name.as_str(),
    }
}

/// Position of the first source with the id.
pub fn find_source(sources: &Vec<Source>, id: u128) -> (r: Option<usize>)
    ensures
        match r {
            Some(i) => {
                &&& is_first_source(sources@, id, i as int)
                &&& source_of(sources@, id) == Some(sources@[i as int])
            },
            None => !has_source(sources@, id) && source_of(sources@, id) is None,
        },
{
    let mut i: usize = 0;
    while i < sources.len()
        invariant
            i <= sources@.len(),
            forall|j: int| 0 <= j < i ==> id_of(#[trigger] sources@[j]) != id,
        decreases sources@.len() - i,
    {
        if sources[i].id() == id {
            proof {
                lemma_first_source(sources@, id, i as int);
            }
            return Some(i);
        }
        i += 1;
    }
    proof {
        lemma_no_source(sources@, id);
    }
    None
}

/// Two first positions are the same position.
pub proof fn lemma_active_scene_unique(project: Project, i: int)
    requires
        is_active_scene(project, i),
    ensures
        has_active_scene(project),
        active_items(project) == project.scenes@[i].items@,
{
    let c = choose|j: int| is_active_scene(project, j);
    assert(is_active_scene(project, c));
    assert(project.scenes@[i].id == project.active_scene_id);
    assert(c == i) by {
        if c < i {
            assert(project.scenes@[c].id != project.active_scene_id);
        } else if i < c {
            assert(project.scenes@[i].id != project.active_scene_id);
        }
    }
}

/// The items that count are those of the first scene with the active id; without such
/// a scene there are none.
pub proof fn law_active_items_are_of_the_active_scene(project: Project, i: int)
    requires
        0 <= i < project.scenes@.len(),
        forall|j: int| 0 <= j < i ==> (#[trigger] project.scenes@[j]).id != project.active_scene_id,
    ensures
        project.scenes@[i].id == project.active_scene_id ==> active_items(project)
            == project.scenes@[i].items@,
        i == project.scenes@.len() - 1 && project.scenes@[i].id != project.active_scene_id
            ==> active_items(project).len() == 0,
{
    if project.scenes@[i].id == project.active_scene_id {
        lemma_active_scene_unique(project, i);
    }
}

/// A source is shown exactly where some item of it is visible.
pub proof fn law_shown_means_some_visible_item(items: Seq<SceneItem>, id: u128, i: int)
    requires
        0 <= i < items.len(),
        items[i].source_id == id,
    ensures
        items[i].visible ==> shown_in(items, id),
        !items[i].visible && (forall|j: int|
            0 <= j < items.len() && j != i ==> (#[trigger] items[j]).source_id != id) ==> !shown_in(
            items,
            id,
        ),
{
}

/// Position of the active scene.
pub fn active_scene(project: &Project) -> (r: Option<usize>)
    ensures
        match r {
            Some(i) => {
                &&& is_active_scene(*project, i as int)
                &&& has_active_scene(*project)
                &&& active_items(*project) == project.scenes@[i as int].items@
            },
            None => !has_active_scene(*project) && active_items(*project).len() == 0,
        },
{
    let mut i: usize = 0;
    while i < project.scenes.len()
        invariant
            i <= project.scenes@.len(),
            forall|j: int|
                0 <= j < i ==> (#[trigger] project.scenes@[j]).id != project.active_scene_id,
        decreases project.scenes@.len() - i,
    {
        if project.scenes[i].id == project.active_scene_id {
            proof {
                lemma_active_scene_unique(*project, i as int);
            }
            return Some(i);
        }
        i += 1;
    }
    None
}

/// Whether the active scene shows the source.
pub fn is_shown(project: &Project, id: u128) -> (r: bool)
    ensures
        r == shown_in(active_items(*project), id),
{
    match active_scene(project) {
        None => false,
        Some(s) => {
            let items = &project.scenes[s].items;
            let mut i: usize = 0;
            while i < items.len()
                invariant
                    i <= items@.len(),
                    items@ == active_items(*project),
                    forall|j: int|
                        0 <= j < i ==> !((#[trigger] items@[j]).source_id == id
                            && items@[j].visible),
                decreases items@.len() - i,
            {
                if items[i].source_id == id && items[i].visible {
                    return true;
                }
                i += 1;
            }
            false
        },
    }
}

} // verus!
