//! What the Direct3D compositor keeps between frames: bitmaps over source
//! textures, text formats, brushes and encoded texts.

use vstd::prelude::*;
use vstd::string::*;

use crate::keyed_map::{KeyedMap, MapKey};
use crate::project::TextAlign;
use crate::text::same_text;
use crate::windows_video;
use crate::windows_video::utf16;

verus! {

/// So many source bitmaps are kept.
pub const SOURCE_BITMAP_CACHE_CAPACITY: usize = 128;

/// A bitmap with the tick of its last use.
pub struct CachedBitmap<B> {
    pub last_use: u64,
    pub bitmap: B,
}

/// Bitmaps over source textures, by the address of the texture. The least
/// recently used one gives way to a new one.
pub struct BitmapCache<B> {
    entries: KeyedMap<usize, CachedBitmap<B>>,
    tick: u64,
}

/// `key` is the entry that has not been used for the longest time.
pub open spec fn is_least_recent<B>(entries: Map<usize, CachedBitmap<B>>, key: usize) -> bool {
    &&& entries.dom().contains(key)
    &&& forall|k: usize|
        entries.dom().contains(k) ==> entries[key].last_use <= (#[trigger] entries[k]).last_use
}

/// Whether no two entries were used at the same tick.
pub open spec fn distinct_uses<B>(entries: Map<usize, CachedBitmap<B>>) -> bool {
    forall|a: usize, b: usize|
        entries.dom().contains(a) && entries.dom().contains(b) && a != b ==> (
        #[trigger] entries[a]).last_use != (#[trigger] entries[b]).last_use
}

/// The entries after room was made for one more.
pub open spec fn with_room<B>(entries: Map<usize, CachedBitmap<B>>) -> Map<
    usize,
    CachedBitmap<B>,
> {
    if entries.dom().len() >= SOURCE_BITMAP_CACHE_CAPACITY {
        entries.remove(choose|k: usize| is_least_recent(entries, k))
    } else {
        entries
    }
}

impl<B> View for BitmapCache<B> {
    type V = Map<usize, CachedBitmap<B>>;

    closed spec fn view(&self) -> Map<usize, CachedBitmap<B>> {
        self.entries@
    }
}

impl<B> BitmapCache<B> {
    /// The number of searches so far.
    pub closed spec fn searches(self) -> u64 {
        self.tick
    }

    /// At most as many entries as there is room for; uses lie in the past and are
    /// told apart by their ticks.
    pub closed spec fn wf(self) -> bool {
        &&& self.entries.wf()
        &&& self.entries.order().len() <= SOURCE_BITMAP_CACHE_CAPACITY
        &&& distinct_uses(self.entries@)
        &&& forall|k: usize|
            self.entries@.dom().contains(k) ==> (#[trigger] self.entries@[k]).last_use <= self.tick
    }

    /// The last search missed: there is room, and its tick is nobody's last use.
    pub open spec fn awaits_store(self) -> bool {
        &&& self@.dom().len() < SOURCE_BITMAP_CACHE_CAPACITY
        &&& forall|k: usize|
            self@.dom().contains(k) ==> (#[trigger] self@[k]).last_use < self.searches()
    }

    /// An empty cache.
    pub fn new() -> (r: Self)
        ensures
            r.wf(),
            r@ == Map::<usize, CachedBitmap<B>>::empty(),
            r.searches() == 0,
    {
        BitmapCache { entries: KeyedMap::new(), tick: 0 }
    }

    fn least_recent(&self) -> (r: usize)
        requires
            self.wf(),
            self.entries.order().len() > 0,
        ensures
            is_least_recent(self.entries@, r),
    {
        proof {
            self.entries.lemma_order();
        }
        let mut best: usize = 0;
        let mut i: usize = 1;
        let total: usize = self.entries.len();
        while i < total
            invariant
                self.wf(),
                total == self.entries.order().len(),
                best < i <= total,
                forall|j: int|
                    0 <= j < i ==> self.entries@[self.entries.order()[best as int]].last_use <= (
                    #[trigger] self.entries@[self.entries.order()[j]]).last_use,
            decreases total - i,
        {
            if self.entries.value_at(i).last_use < self.entries.value_at(best).last_use {
                best = i;
            }
            i += 1;
        }
        let key: usize = *self.entries.key_at(best);
        assert forall|k: usize| self.entries@.dom().contains(k) implies self.entries@[key].last_use
            <= (#[trigger] self.entries@[k]).last_use by {
            let j = self.entries.order().index_of(k);
            assert(self.entries.order()[j] == k);
        }
        key
    }

    /// Looks for the bitmap over a texture. A hit counts as a use; a miss makes
    /// room for the bitmap that will be stored.
    pub fn search(&mut self, texture: usize) -> (r: bool)
        requires
            old(self).wf(),
            old(self).searches() < u64::MAX,
        ensures
            final(self).wf(),
            final(self).searches() == old(self).searches() + 1,
            r == old(self)@.dom().contains(texture),
            final(self)@ == (if r {
                old(self)@.insert(
                    texture,
                    CachedBitmap {
                        last_use: final(self).searches(),
                        bitmap: old(self)@[texture].bitmap,
                    },
                )
            } else {
                with_room(old(self)@)
            }),
            !r ==> final(self).awaits_store(),
    {
        proof {
            self.entries.lemma_order();
            self.entries.lemma_size();
        }
        self.tick = self.tick + 1;
        let tick: u64 = self.tick;
        match self.entries.get_mut(&texture) {
            Some(entry) => {
                entry.last_use = tick;
                return true;
            },
            None => {},
        }
        if self.entries.len() >= SOURCE_BITMAP_CACHE_CAPACITY {
            let oldest: usize = self.least_recent();
            proof {
                let chosen = choose|k: usize| is_least_recent(self.entries@, k);
                assert(is_least_recent(self.entries@, chosen));
                assert(self.entries@[chosen].last_use == self.entries@[oldest].last_use);
                assert(chosen == oldest);
            }
            self.entries.remove(&oldest);
            proof {
                self.entries.lemma_size();
            }
        }
        false
    }

    /// The bitmap over a texture.
    pub fn bitmap(&self, texture: usize) -> (r: Option<&B>)
        requires
            self.wf(),
        ensures
            match r {
                Some(bitmap) => self@.dom().contains(texture) && *bitmap == self@[texture].bitmap,
                None => !self@.dom().contains(texture),
            },
    {
        match self.entries.get(&texture) {
            Some(entry) => Some(&entry.bitmap),
            None => None,
        }
    }

    /// Keeps the bitmap that was made after a miss.
    pub fn store(&mut self, texture: usize, bitmap: B)
        requires
            old(self).wf(),
            !old(self)@.dom().contains(texture),
            old(self).awaits_store(),
        ensures
            final(self).wf(),
            final(self).searches() == old(self).searches(),
            final(self)@ == old(self)@.insert(
                texture,
                CachedBitmap { last_use: old(self).searches(), bitmap },
            ),
    {
        proof {
            self.entries.lemma_size();
        }
        let last_use: u64 = self.tick;
        self.entries.insert(texture, CachedBitmap { last_use, bitmap });
    }
}

/// Nothing gives way as long as there are fewer than 128 bitmaps; then one does, and it
/// is one that was used no later than any other.
pub proof fn law_full_cache_makes_room<B>(entries: Map<usize, CachedBitmap<B>>, gone: usize, other: usize)
    requires
        entries.dom().finite(),
        entries.dom().contains(gone),
    ensures
        entries.dom().len() < 128 ==> with_room(entries) == entries,
        entries.dom().len() >= 128 ==> with_room(entries).dom().len() == entries.dom().len() - 1,
        !with_room(entries).dom().contains(gone) && entries.dom().contains(other)
            ==> entries[gone].last_use <= entries[other].last_use,
        with_room(entries).dom().contains(other) ==> entries.dom().contains(other)
            && with_room(entries)[other] == entries[other],
{
    lemma_least_recent_exists(entries, entries.dom());
    let chosen = choose|k: usize| is_least_recent(entries, k);
    assert(is_least_recent(entries, chosen));
}

/// A full cache gives up one bitmap, and never one that was used after another
/// that stays.
pub proof fn law_least_recent_gives_way<B>(
    entries: Map<usize, CachedBitmap<B>>,
    older: usize,
    newer: usize,
)
    requires
        entries.dom().finite(),
        distinct_uses(entries),
        entries.dom().contains(older),
        entries.dom().contains(newer),
        entries[older].last_use < entries[newer].last_use,
    ensures
        with_room(entries).dom().contains(newer),
        entries.dom().len() >= SOURCE_BITMAP_CACHE_CAPACITY ==> with_room(entries).dom().len()
            == entries.dom().len() - 1,
{
    lemma_least_recent_exists(entries, entries.dom());
    let chosen = choose|k: usize| is_least_recent(entries, k);
    assert(is_least_recent(entries, chosen));
}

proof fn lemma_least_recent_exists<B>(entries: Map<usize, CachedBitmap<B>>, keys: Set<usize>)
    requires
        keys.finite(),
        keys.len() > 0,
        keys.subset_of(entries.dom()),
    ensures
        exists|k: usize|
            keys.contains(k) && forall|j: usize|
                keys.contains(j) ==> entries[k].last_use <= (#[trigger] entries[j]).last_use,
        keys == entries.dom() ==> exists|k: usize| is_least_recent(entries, k),
    decreases keys.len(),
{
    let some = keys.choose();
    let rest = keys.remove(some);
    if rest.len() > 0 {
        lemma_least_recent_exists(entries, rest);
        let k = choose|k: usize|
            rest.contains(k) && forall|j: usize|
                rest.contains(j) ==> entries[k].last_use <= (#[trigger] entries[j]).last_use;
        let best = if entries[some].last_use < entries[k].last_use {
            some
        } else {
            k
        };
        assert(keys.contains(best));
        assert forall|j: usize| keys.contains(j) implies entries[best].last_use <= (
        #[trigger] entries[j]).last_use by {
            if j != some {
                assert(rest.contains(j));
            }
        }
        if keys == entries.dom() {
            assert(is_least_recent(entries, best));
        }
    } else {
        assert forall|j: usize| keys.contains(j) implies j == some by {
            if j != some {
                assert(rest.contains(j));
            }
        }
        assert(keys.contains(some));
        if keys == entries.dom() {
            assert(is_least_recent(entries, some));
        }
    }
}

/// One step of the hash: the byte is mixed in, then the product is taken modulo
/// 2^64.
pub open spec fn fnv1a_step(hash: u64, byte: u8) -> u64 {
    ((hash ^ (byte as u64)) * 0x100_0000_01b3 % 0x1_0000_0000_0000_0000) as u64
}

/// The 64-bit FNV-1a hash of bytes.
pub open spec fn fnv1a(bytes: Seq<u8>) -> u64
    decreases bytes.len(),
{
    if bytes.len() == 0 {
        0xcbf2_9ce4_8422_2325
    } else {
        fnv1a_step(fnv1a(bytes.drop_last()), bytes.last())
    }
}

/// The 64-bit FNV-1a hash of a text's UTF-8 bytes.
pub fn fnv1a_utf8(value: &str) -> (r: u64)
    ensures
        r == fnv1a(value.spec_bytes()),
{
    let bytes = value.as_bytes();
    let ghost all = value.spec_bytes();
    let mut hash: u64 = 0xcbf2_9ce4_8422_2325;
    let mut i: usize = 0;
    while i < bytes.len()
        invariant
            i <= bytes@.len(),
            bytes@ == all,
            hash == fnv1a(all.take(i as int)),
        decreases bytes@.len() - i,
    {
        assert(all.take(i + 1).drop_last() =~= all.take(i as int));
        let mixed: u64 = hash ^ (bytes[i] as u64);
        hash = mixed.wrapping_mul(0x100_0000_01b3);
        i += 1;
    }
    assert(all.take(i as int) =~= all);
    hash
}

/// What a text format is filed under: the hash of the family, the bit pattern of
/// the size, the weight and the alignment.
#[derive(Clone, Copy, Debug, PartialEq, Eq, Structural)]
pub struct FormatKey {
    pub family_hash: u64,
    pub size_bits: u32,
    pub weight: u16,
    pub align: TextAlign,
}

impl View for FormatKey {
    type V = FormatKey;

    open spec fn view(&self) -> FormatKey {
        *self
    }
}

impl MapKey for FormatKey {
    fn same_key(&self, other: &Self) -> (r: bool) {
        *self == *other
    }
}

/// A text format with the family that it was made for.
pub struct CachedFormat<F> {
    pub family: String,
    pub format: F,
}

/// Text formats. The stored family tells a hit from a hash collision.
pub struct TextFormatCache<F> {
    entries: KeyedMap<FormatKey, CachedFormat<F>>,
}

/// The key of a format.
pub open spec fn format_key(
    family: Seq<char>,
    size_bits: u32,
    weight: u16,
    align: TextAlign,
) -> FormatKey {
    FormatKey {
        family_hash: fnv1a(vstd::utf8::encode_utf8(family)),
        size_bits,
        weight,
        align,
    }
}

/// Whether a format of exactly this description is kept.
pub open spec fn has_format<F>(
    entries: Map<FormatKey, CachedFormat<F>>,
    family: Seq<char>,
    size_bits: u32,
    weight: u16,
    align: TextAlign,
) -> bool {
    let key = format_key(family, size_bits, weight, align);
    entries.dom().contains(key) && entries[key].family@ == family
}

impl<F> View for TextFormatCache<F> {
    type V = Map<FormatKey, CachedFormat<F>>;

    closed spec fn view(&self) -> Map<FormatKey, CachedFormat<F>> {
        self.entries@
    }
}

impl<F> TextFormatCache<F> {
    /// Each key is listed once, and each format stands under the key of its family.
    pub closed spec fn wf(self) -> bool {
        &&& self.entries.wf()
        &&& forall|k: FormatKey|
            self.entries@.dom().contains(k) ==> k.family_hash == fnv1a(
                vstd::utf8::encode_utf8((#[trigger] self.entries@[k]).family@),
            )
    }

    /// An empty cache.
    pub fn new() -> (r: Self)
        ensures
            r.wf(),
            r@ == Map::<FormatKey, CachedFormat<F>>::empty(),
    {
        TextFormatCache { entries: KeyedMap::new() }
    }

    /// The kept format of this description.
    pub fn find(&self, family: &str, size_bits: u32, weight: u16, align: TextAlign) -> (r: Option<
        &F,
    >)
        requires
            self.wf(),
        ensures
            match r {
                Some(format) => {
                    &&& has_format(self@, family@, size_bits, weight, align)
                    &&& *format == self@[format_key(family@, size_bits, weight, align)].format
                },
                None => !has_format(self@, family@, size_bits, weight, align),
            },
    {
        let key = FormatKey { family_hash: fnv1a_utf8(family), size_bits, weight, align };
        match self.entries.get(&key) {
            Some(cached) => {
                if same_text(cached.family.as_str(), family) {
                    Some(&cached.format)
                } else {
                    None
                }
            },
            None => None,
        }
    }

    /// Keeps a format; one of another family with the same hash is replaced.
    pub fn store(&mut self, family: &str, size_bits: u32, weight: u16, align: TextAlign, format: F)
        requires
            old(self).wf(),
        ensures
            final(self).wf(),
            has_format(final(self)@, family@, size_bits, weight, align),
            ({
                let key = format_key(family@, size_bits, weight, align);
                &&& final(self)@.dom() == old(self)@.dom().insert(key)
                &&& final(self)@[key].format == format
                &&& forall|k: FormatKey|
                    k != key && old(self)@.dom().contains(k) ==> #[trigger] final(self)@[k]
                        == old(self)@[k]
            }),
    {
        let key = FormatKey { family_hash: fnv1a_utf8(family), size_bits, weight, align };
        self.entries.insert(key, CachedFormat { family: family.to_owned(), format });
        assert(self@.dom() =~= old(self)@.dom().insert(key));
    }
}

/// The weight that DirectWrite accepts: between 1 and 999.
pub open spec fn clamped_weight(weight: u16) -> int {
    if weight < 1 {
        1
    } else if weight > 999 {
        999
    } else {
        weight as int
    }
}

/// The weight that DirectWrite is asked for.
pub fn format_weight(weight: u16) -> (r: i32)
    ensures
        r == clamped_weight(weight),
{
    if weight < 1 {
        1
    } else if weight > 999 {
        999
    } else {
        weight as i32
    }
}

/// Encoded texts. Only the texts of the last frame are kept.
pub struct TextBuffers {
    entries: KeyedMap<String, Vec<u16>>,
    drawn: KeyedMap<String, ()>,
}

impl TextBuffers {
    /// Each text is listed once, holds its own encoding, and what was drawn in this
    /// frame is kept.
    pub closed spec fn wf(self) -> bool {
        &&& self.entries.wf()
        &&& self.drawn.wf()
        &&& forall|t: Seq<char>|
            self.entries@.dom().contains(t) ==> (#[trigger] self.entries@[t])@
                == windows_video::utf16_of(t)
        &&& forall|t: Seq<char>|
            self.drawn@.dom().contains(t) ==> #[trigger] self.entries@.dom().contains(t)
    }

    /// The texts whose encodings are kept.
    pub closed spec fn texts(self) -> Set<Seq<char>> {
        self.entries@.dom()
    }

    /// The texts that were drawn in this frame.
    pub closed spec fn drawn_texts(self) -> Set<Seq<char>> {
        self.drawn@.dom()
    }

    /// Nothing is kept.
    pub fn new() -> (r: Self)
        ensures
            r.wf(),
            r.texts() == Set::<Seq<char>>::empty(),
            r.drawn_texts() == Set::<Seq<char>>::empty(),
    {
        let r = TextBuffers { entries: KeyedMap::new(), drawn: KeyedMap::new() };
        assert(r.texts() =~= Set::empty());
        assert(r.drawn_texts() =~= Set::empty());
        r
    }

    /// Begins a frame: nothing was drawn in it yet, whatever an earlier frame that
    /// did not come to its end had drawn.
    pub fn begin_frame(&mut self)
        requires
            old(self).wf(),
        ensures
            final(self).wf(),
            final(self).texts() == old(self).texts(),
            final(self).drawn_texts() == Set::<Seq<char>>::empty(),
    {
        self.drawn.clear();
        assert(self.drawn_texts() =~= Set::empty());
    }

    /// Notes that a text is drawn in this frame and encodes it if it was not yet.
    pub fn note(&mut self, value: &str)
        requires
            old(self).wf(),
        ensures
            final(self).wf(),
            final(self).texts() == old(self).texts().insert(value@),
            final(self).drawn_texts() == old(self).drawn_texts().insert(value@),
    {
        self.drawn.insert(value.to_owned(), ());
        if !self.entries.contains(&value.to_owned()) {
            self.entries.insert(value.to_owned(), utf16(value));
        }
        assert(self.texts() =~= old(self).texts().insert(value@));
        assert(self.drawn_texts() =~= old(self).drawn_texts().insert(value@));
    }

    /// The encoding of a kept text.
    pub fn buffer(&self, value: &str) -> (r: Option<&Vec<u16>>)
        requires
            self.wf(),
        ensures
            match r {
                Some(buffer) => {
                    &&& self.texts().contains(value@)
                    &&& buffer@ == windows_video::utf16_of(value@)
                },
                None => !self.texts().contains(value@),
            },
    {
        self.entries.get(&value.to_owned())
    }

    /// Ends the frame: the encodings of texts that were not drawn are dropped.
    pub fn end_frame(&mut self)
        requires
            old(self).wf(),
        ensures
            final(self).wf(),
            final(self).texts() == old(self).drawn_texts(),
            final(self).drawn_texts() == Set::<Seq<char>>::empty(),
    {
        let ghost before = self.entries@;
        let drawn = &self.drawn;
        let keep = |key: &String| -> (r: bool)
            ensures
                r == drawn@.dom().contains(key@),
            { drawn.contains(key) };
        self.entries.retain(&keep);
        proof {
            assert forall|t: Seq<char>| #![trigger self.entries@.dom().contains(t)] {
                &&& self.entries@.dom().contains(t) <==> old(self).drawn@.dom().contains(t)
                &&& self.entries@.dom().contains(t) ==> self.entries@[t] == before[t]
            } by {
                assert(crate::keyed_map::retained_at::<String, Vec<u16>, _>(
                    before,
                    self.entries@,
                    keep,
                    t,
                ));
            }
            assert(self.texts() =~= old(self).drawn_texts());
        }
        self.drawn.clear();
        assert(self.drawn_texts() =~= Set::empty());
    }
}

/// The texts after each of `drawn` was noted.
pub open spec fn with_texts(texts: Set<Seq<char>>, drawn: Seq<Seq<char>>) -> Set<Seq<char>>
    decreases drawn.len(),
{
    if drawn.len() == 0 {
        texts
    } else {
        with_texts(texts, drawn.drop_last()).insert(drawn.last())
    }
}

/// The buffers never outgrow the current frame: after a frame that began, noted its
/// texts and ended, exactly those texts are kept, whatever an earlier frame left
/// behind.
pub proof fn law_buffers_are_of_the_last_frame(
    begun: TextBuffers,
    noted: TextBuffers,
    ended: TextBuffers,
    drawn: Seq<Seq<char>>,
    text: Seq<char>,
)
    requires
        begun.drawn_texts() == Set::<Seq<char>>::empty(),
        noted.drawn_texts() == with_texts(begun.drawn_texts(), drawn),
        ended.texts() == noted.drawn_texts(),
    ensures
        ended.texts().contains(text) <==> drawn.contains(text),
{
    lemma_with_texts(drawn, text);
}

proof fn lemma_with_texts(drawn: Seq<Seq<char>>, text: Seq<char>)
    ensures
        with_texts(Set::<Seq<char>>::empty(), drawn).contains(text) <==> drawn.contains(text),
    decreases drawn.len(),
{
    if drawn.len() > 0 {
        let init = drawn.drop_last();
        lemma_with_texts(init, text);
        if init.contains(text) {
            assert(drawn[init.index_of(text)] == text);
        }
        if drawn.contains(text) && text != drawn.last() {
            assert(init[drawn.index_of(text)] == text);
        }
        assert(drawn[drawn.len() - 1] == drawn.last());
    }
}

/// The solid brushes of a compositor, by the text of their colour.
pub struct BrushCache<R> {
    entries: KeyedMap<String, R>,
}

impl<R> View for BrushCache<R> {
    type V = Map<Seq<char>, R>;

    closed spec fn view(&self) -> Map<Seq<char>, R> {
        self.entries@
    }
}

impl<R> BrushCache<R> {
    /// Each colour is listed once.
    pub closed spec fn wf(self) -> bool {
        self.entries.wf()
    }

    /// No brushes yet.
    pub fn new() -> (r: Self)
        ensures
            r.wf(),
            r@ == Map::<Seq<char>, R>::empty(),
    {
        BrushCache { entries: KeyedMap::new() }
    }

    /// The brush of a colour.
    pub fn find(&self, color: &str) -> (r: Option<&R>)
        requires
            self.wf(),
        ensures
            match r {
                Some(brush) => self@.dom().contains(color@) && *brush == self@[color@],
                None => !self@.dom().contains(color@),
            },
    {
        self.entries.get(&color.to_owned())
    }

    /// Keeps the brush of a colour.
    pub fn store(&mut self, color: &str, brush: R)
        requires
            old(self).wf(),
        ensures
            final(self).wf(),
            final(self)@ == old(self)@.insert(color@, brush),
    {
        self.entries.insert(color.to_owned(), brush);
    }
}

/// What a compositor keeps between frames.
pub struct D3d11Compositor<B, F, R> {
    pub source_bitmaps: BitmapCache<B>,
    pub text_formats: TextFormatCache<F>,
    pub brushes: BrushCache<R>,
    pub text_buffers: TextBuffers,
}

impl<B, F, R> D3d11Compositor<B, F, R> {
    /// The caches are in order.
    pub open spec fn wf(self) -> bool {
        &&& self.source_bitmaps.wf()
        &&& self.text_formats.wf()
        &&& self.brushes.wf()
        &&& self.text_buffers.wf()
    }

    /// The empty caches of a new compositor.
    pub fn new() -> (r: Self)
        ensures
            r.wf(),
            r.source_bitmaps@ == Map::<usize, CachedBitmap<B>>::empty(),
            r.source_bitmaps.searches() == 0,
            r.text_formats@ == Map::<FormatKey, CachedFormat<F>>::empty(),
            r.brushes@ == Map::<Seq<char>, R>::empty(),
            r.text_buffers.texts() == Set::<Seq<char>>::empty(),
            r.text_buffers.drawn_texts() == Set::<Seq<char>>::empty(),
    {
        D3d11Compositor {
            source_bitmaps: BitmapCache::new(),
            text_formats: TextFormatCache::new(),
            brushes: BrushCache::new(),
            text_buffers: TextBuffers::new(),
        }
    }
}

/// Formats are told apart by family, size, weight and alignment: one that was stored for
/// other values is not found.
pub proof fn law_format_is_found_by_all_its_values<F>(
    entries: Map<FormatKey, CachedFormat<F>>,
    family: Seq<char>,
    size_bits: u32,
    weight: u16,
    align: TextAlign,
    stored: CachedFormat<F>,
    other_size: u32,
    other_weight: u16,
    other_align: TextAlign,
)
    requires
        stored.family@ == family,
        entries == Map::<FormatKey, CachedFormat<F>>::empty().insert(
            format_key(family, size_bits, weight, align),
            stored,
        ),
    ensures
        has_format(entries, family, size_bits, weight, align),
        has_format(entries, family, other_size, other_weight, other_align) ==> other_size
            == size_bits && other_weight == weight && other_align == align,
{
}

/// A weight is held between 1 and 999, and taken as given in between.
pub proof fn law_weight_is_held_in_bounds(weight: u16)
    ensures
        1 <= clamped_weight(weight) <= 999,
        1 <= weight <= 999 ==> clamped_weight(weight) == weight,
        weight > 999 ==> clamped_weight(weight) == 999,
{
}

/// Drawing adds the texts that were drawn and takes none away.
pub proof fn law_drawn_texts_are_added(texts: Set<Seq<char>>, drawn: Seq<Seq<char>>, text: Seq<char>)
    ensures
        with_texts(texts, drawn).contains(text) <==> texts.contains(text) || drawn.contains(text),
    decreases drawn.len(),
{
    if drawn.len() > 0 {
        law_drawn_texts_are_added(texts, drawn.drop_last(), text);
        if drawn.contains(text) {
            let k = choose|k: int| 0 <= k < drawn.len() && drawn[k] == text;
            if k < drawn.len() - 1 {
                assert(drawn.drop_last()[k] == text);
            }
        }
        if drawn.drop_last().contains(text) {
            let k = choose|k: int| 0 <= k < drawn.drop_last().len() && drawn.drop_last()[k] == text;
            assert(drawn[k] == text);
        }
    }
}

/// A hash collision never hands out the format of another family: a family whose
/// hash another one shares is not found until its own format is stored.
pub proof fn law_collision_is_a_miss<F>(
    entries: Map<FormatKey, CachedFormat<F>>,
    stored: Seq<char>,
    asked: Seq<char>,
    size_bits: u32,
    weight: u16,
    align: TextAlign,
)
    requires
        has_format(entries, stored, size_bits, weight, align),
        stored != asked,
        format_key(stored, size_bits, weight, align) == format_key(
            asked,
            size_bits,
            weight,
            align,
        ),
    ensures
        !has_format(entries, asked, size_bits, weight, align),
{
}

} // verus!
