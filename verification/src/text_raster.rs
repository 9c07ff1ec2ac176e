//! Text panels: colours, fonts and the blending of glyphs into a bitmap with
//! straight alpha.
//!
//! Laying text out and rasterizing glyphs works in fractions of pixels and is
//! done by the caller, which hands over each glyph with its place in whole pixels
//! and its coverage.

use vstd::prelude::*;
use vstd::string::*;

use crate::font_names;
use crate::font_names::name_is_sound;
use crate::keyed_map;
use crate::keyed_map::{KeyedMap, MapKey};
use crate::project::TextAlign;
use crate::text;
use crate::text::{characters, decimal, joined, same_text};

verus! {

/// Horizontal alignment of a panel's text.
#[derive(Clone, Copy, Debug, Hash, PartialEq, Eq, Structural)]
pub enum TextAlignKey {
    Left,
    Center,
    Right,
}

/// The alignment of a text source as a key.
pub open spec fn align_key(align: TextAlign) -> TextAlignKey {
    match align {
        TextAlign::Left => TextAlignKey::Left,
        TextAlign::Center => TextAlignKey::Center,
        TextAlign::Right => TextAlignKey::Right,
    }
}

impl From<TextAlign> for TextAlignKey {
    fn from(value: TextAlign) -> (r: Self) {
        match value {
            TextAlign::Left => TextAlignKey::Left,
            TextAlign::Center => TextAlignKey::Center,
            TextAlign::Right => TextAlignKey::Right,
        }
    }
}

impl vstd::std_specs::convert::FromSpecImpl<TextAlign> for TextAlignKey {
    open spec fn obeys_from_spec() -> bool {
        true
    }

    open spec fn from_spec(value: TextAlign) -> TextAlignKey {
        align_key(value)
    }
}

/// Everything that a panel's bitmap depends on. `size_bits` is the bit pattern of
/// the font size in pixels (single precision).
#[derive(Clone, Debug)]
pub struct TextKey {
    pub text: String,
    pub family: String,
    pub size_bits: u32,
    pub weight: u16,
    pub color: [u8; 4],
    pub background: [u8; 4],
    pub align: TextAlignKey,
    pub width: u32,
    pub height: u32,
}

/// What a text key stands for.
#[verifier::ext_equal]
pub struct TextKeyView {
    pub text: Seq<char>,
    pub family: Seq<char>,
    pub size_bits: u32,
    pub weight: u16,
    pub color: Seq<u8>,
    pub background: Seq<u8>,
    pub align: TextAlignKey,
    pub width: u32,
    pub height: u32,
}

impl View for TextKey {
    type V = TextKeyView;

    open spec fn view(&self) -> TextKeyView {
        TextKeyView {
            text: self.text@,
            family: self.family@,
            size_bits: self.size_bits,
            weight: self.weight,
            color: self.color@,
            background: self.background@,
            align: self.align,
            width: self.width,
            height: self.height,
        }
    }
}

fn same_color(a: &[u8; 4], b: &[u8; 4]) -> (r: bool)
    ensures
        r == (a@ == b@),
{
    let r = a[0] == b[0] && a[1] == b[1] && a[2] == b[2] && a[3] == b[3];
    proof {
        if r {
            assert(a@ =~= b@);
        }
    }
    r
}

impl TextKey {
    /// Whether two keys stand for the same bitmap.
    pub fn matches(&self, other: &TextKey) -> (r: bool)
        ensures
            r == (self@ == other@),
    {
        let r = self.size_bits == other.size_bits && self.weight == other.weight && self.align
            == other.align && self.width == other.width && self.height == other.height
            && same_color(&self.color, &other.color) && same_color(
            &self.background,
            &other.background,
        ) && same_text(self.text.as_str(), other.text.as_str()) && same_text(
            self.family.as_str(),
            other.family.as_str(),
        );
        r
    }

    /// A key that stands for the same bitmap.
    pub fn copy(&self) -> (r: TextKey)
        ensures
            r@ == self@,
    {
        TextKey {
            text: self.text.clone(),
            family: self.family.clone(),
            size_bits: self.size_bits,
            weight: self.weight,
            color: self.color,
            background: self.background,
            align: self.align,
            width: self.width,
            height: self.height,
        }
    }
}

impl MapKey for TextKey {
    fn same_key(&self, other: &Self) -> (r: bool) {
        self.matches(other)
    }
}

// ---------------------------------------------------------------------------
// Colours
// ---------------------------------------------------------------------------

/// The value of a hexadecimal digit.
pub open spec fn hex_value(c: char) -> Option<int> {
    if '0' <= c <= '9' {
        Some(c as int - '0' as int)
    } else if 'a' <= c <= 'f' {
        Some(c as int - 'a' as int + 10)
    } else if 'A' <= c <= 'F' {
        Some(c as int - 'A' as int + 10)
    } else {
        None
    }
}

/// Whether every character is a hexadecimal digit.
pub open spec fn all_hex(s: Seq<char>) -> bool {
    forall|i: int| 0 <= i < s.len() ==> hex_value(#[trigger] s[i]) is Some
}

/// Two hexadecimal digits as a byte.
pub open spec fn hex_byte(s: Seq<char>, at: int) -> u8 {
    (hex_value(s[at])->0 * 16 + hex_value(s[at + 1])->0) as u8
}

/// The colour that a text denotes: `#rrggbb` or `#rrggbbaa`, else opaque white.
pub open spec fn color_of(s: Seq<char>) -> Seq<u8> {
    if (s.len() == 7 || s.len() == 9) && s[0] == '#' && all_hex(s.skip(1)) {
        seq![
            hex_byte(s, 1),
            hex_byte(s, 3),
            hex_byte(s, 5),
            if s.len() == 9 {
                hex_byte(s, 7)
            } else {
                255
            },
        ]
    } else {
        seq![255u8, 255u8, 255u8, 255u8]
    }
}

/// The sixteen digits count from 0 to 15, in either case, and no other character is a
/// digit.
pub proof fn law_digits_count_up(c: char)
    ensures
        hex_value('0') == Some(0int),
        hex_value('9') == Some(9int),
        hex_value('a') == Some(10int) && hex_value('A') == Some(10int),
        hex_value('f') == Some(15int) && hex_value('F') == Some(15int),
        'a' <= c <= 'f' ==> hex_value(c) == hex_value((c as int - 32) as char),
        hex_value(c) is Some <==> '0' <= c <= '9' || 'a' <= c <= 'f' || 'A' <= c <= 'F',
        hex_value(c) is Some ==> 0 <= hex_value(c)->0 < 16,
        c != '9' && c != 'f' && c != 'F' && hex_value(c) is Some ==> hex_value((c as int + 1) as char)
            == Some(hex_value(c)->0 + 1),
{
}

/// A colour text gives its channels in the order red, green, blue and opacity, two
/// digits each with the higher one first; without the last two it is opaque, as if they
/// were both the highest digit.
pub proof fn law_colour_text_gives_its_channels(s: Seq<char>)
    requires
        s.len() == 7 || s.len() == 9,
        s[0] == '#',
        forall|i: int| 1 <= i < s.len() ==> hex_value(#[trigger] s[i]) is Some,
    ensures
        color_of(s).len() == 4,
        color_of(s)[0] == 16 * hex_value(s[1])->0 + hex_value(s[2])->0,
        color_of(s)[1] == 16 * hex_value(s[3])->0 + hex_value(s[4])->0,
        color_of(s)[2] == 16 * hex_value(s[5])->0 + hex_value(s[6])->0,
        s.len() == 9 ==> color_of(s)[3] == 16 * hex_value(s[7])->0 + hex_value(s[8])->0,
        s.len() == 7 ==> color_of(s)[3] == 255,
        s.len() == 7 ==> color_of(s) == color_of(s.push('f').push('F')),
{
    let rest = s.skip(1);
    assert forall|i: int| 0 <= i < rest.len() implies hex_value(#[trigger] rest[i]) is Some by {
        assert(rest[i] == s[i + 1]);
    }
    if s.len() == 7 {
        let long = s.push('f').push('F');
        let tail = long.skip(1);
        assert forall|i: int| 0 <= i < tail.len() implies hex_value(#[trigger] tail[i]) is Some by {
            assert(tail[i] == long[i + 1]);
            if i < 6 {
                assert(tail[i] == s[i + 1]);
            }
        }
        assert(color_of(s) =~= color_of(long));
    }
}

/// Anything else is opaque white: a text of another length, one without the sign in
/// front, and one with a character that is no digit.
pub proof fn law_other_texts_are_white(s: Seq<char>, i: int)
    requires
        s.len() != 7 && s.len() != 9 || s[0] != '#' || (1 <= i < s.len() && hex_value(s[i]) is None),
    ensures
        color_of(s) == seq![255u8, 255u8, 255u8, 255u8],
{
    if (s.len() == 7 || s.len() == 9) && s[0] == '#' {
        assert(s.skip(1)[i - 1] == s[i]);
    }
}

fn nibble(c: char) -> (r: Option<u8>)
    ensures
        match r {
            Some(v) => hex_value(c) == Some(v as int) && v < 16,
            None => hex_value(c) is None,
        },
{
    if '0' <= c && c <= '9' {
        Some(c as u8 - '0' as u8)
    } else if 'a' <= c && c <= 'f' {
        Some(c as u8 - 'a' as u8 + 10)
    } else if 'A' <= c && c <= 'F' {
        Some(c as u8 - 'A' as u8 + 10)
    } else {
        None
    }
}

pub(crate) fn channel(chars: &Vec<char>, at: usize) -> (r: Option<u8>)
    requires
        at + 1 < chars@.len(),
    ensures
        match r {
            Some(v) => {
                &&& hex_value(chars@[at as int]) is Some
                &&& hex_value(chars@[at + 1]) is Some
                &&& v == hex_byte(chars@, at as int)
            },
            None => hex_value(chars@[at as int]) is None || hex_value(chars@[at + 1]) is None,
        },
{
    let total: usize = chars.len();
    assert(at + 1 < total);
    match (nibble(chars[at]), nibble(chars[at + 1])) {
        (Some(high), Some(low)) => Some(high * 16 + low),
        _ => None,
    }
}

/// Reads a colour.
pub fn parse_color(value: &str) -> (r: [u8; 4])
    ensures
        r@ == color_of(value@),
{
    let chars = characters(value);
    let fallback: [u8; 4] = [255, 255, 255, 255];
    let ghost s = value@;
    if (chars.len() != 7 && chars.len() != 9) || chars[0] != '#' {
        assert(fallback@ =~= color_of(s));
        return fallback;
    }
    let alpha = if chars.len() == 9 {
        channel(&chars, 7)
    } else {
        Some(255)
    };
    match (channel(&chars, 1), channel(&chars, 3), channel(&chars, 5), alpha) {
        (Some(r), Some(g), Some(b), Some(a)) => {
            let color: [u8; 4] = [r, g, b, a];
            proof {
                assert forall|i: int| 0 <= i < s.skip(1).len() implies hex_value(
                    #[trigger] s.skip(1)[i],
                ) is Some by {
                    assert(s.skip(1)[i] == s[i + 1]);
                }
                assert(color@ =~= color_of(s));
            }
            color
        },
        _ => {
            proof {
                assert(!all_hex(s.skip(1))) by {
                    if all_hex(s.skip(1)) {
                        assert(s.skip(1)[0] == s[1] && s.skip(1)[1] == s[2]);
                        assert(s.skip(1)[2] == s[3] && s.skip(1)[3] == s[4]);
                        assert(s.skip(1)[4] == s[5] && s.skip(1)[5] == s[6]);
                        if s.len() == 9 {
                            assert(s.skip(1)[6] == s[7] && s.skip(1)[7] == s[8]);
                        }
                    }
                }
                assert(fallback@ =~= color_of(s));
            }
            fallback
        },
    }
}

/// The background of the program output: `None` where the text does not begin
/// with `#`, so that the renderer's own dark tone applies.
pub fn background_color(value: &str) -> (r: Option<[u8; 4]>)
    ensures
        match r {
            Some(color) => value@.len() > 0 && value@[0] == '#' && color@ == color_of(value@),
            None => value@.len() == 0 || value@[0] != '#',
        },
{
    let chars = characters(value);
    if chars.len() > 0 && chars[0] == '#' {
        Some(parse_color(value))
    } else {
        None
    }
}

// ---------------------------------------------------------------------------
// Fonts
// ---------------------------------------------------------------------------

/// A font database.
#[verifier::external_type_specification]
#[verifier::external_body]
pub struct ExDatabase(fontdb::Database);

/// The id of a face in a font database.
#[verifier::external_type_specification]
#[verifier::external_body]
pub struct ExId(fontdb::ID);

/// A parsed font.
#[verifier::external_type_specification]
#[verifier::external_body]
pub struct ExFont(fontdue::Font);

/// The face that a database finds for a family name and a weight.
pub uninterp spec fn face_for(db: fontdb::Database, family: Seq<char>, weight: u16) -> Option<
    fontdb::ID,
>;

/// What parsing a face yields: the font, or the text of an error.
pub uninterp spec fn parsed_font(data: Seq<u8>, face_index: u32) -> Result<
    fontdue::Font,
    Seq<char>,
>;

/// Calls `fontdb::Database::query` for an upright face of the family, with the
/// database's sans-serif family as second choice. The contract claims that the
/// answer depends on the database, the family and the weight alone.
#[verifier::external_body]
fn query_face(db: &fontdb::Database, family: &str, weight: u16) -> (r: Option<fontdb::ID>)
    ensures
        r == face_for(*db, family@, weight),
{
    let families = [fontdb::Family::Name(family), fontdb::Family::SansSerif];
    db.query(
        &fontdb::Query {
            families: &families,
            weight: fontdb::Weight(weight),
            style: fontdb::Style::Normal,
            ..fontdb::Query::default()
        },
    )
}

/// Compares two `fontdb::ID` values with their `==`. The contract claims that it
/// holds for equal ids only.
#[verifier::external_body]
fn same_face(a: &fontdb::ID, b: &fontdb::ID) -> (r: bool)
    ensures
        r == (*a == *b),
{
    *a == *b
}

/// Calls `fontdue::Font::from_bytes` with the face index as collection index and
/// default settings otherwise, and prints an error as its `Debug` does. The parser
/// decodes the full name of the face without checking it, so the name must decode. The
/// contract claims that the outcome, the printed error with it, depends on the bytes
/// and the index alone. How the font lays out its lookup tables in memory is not part
/// of the claim: nothing here observes it. Nor are assertions that the parser makes in
/// builds with debug assertions only.
#[verifier::external_body]
fn parse_font(data: Vec<u8>, face_index: u32) -> (r: Result<fontdue::Font, String>)
    requires
        font_names::name_decodes(data@, face_index),
    ensures
        parsed_font(data@, face_index) == (match r {
            Ok(font) => Ok::<fontdue::Font, Seq<char>>(font),
            Err(text) => Err::<fontdue::Font, Seq<char>>(text@),
        }),
{
    let settings = fontdue::FontSettings {
        collection_index: face_index,
        ..fontdue::FontSettings::default()
    };
    fontdue::Font::from_bytes(data, settings).map_err(|error| format!("{error:?}"))
}

/// What is told of a font whose full name does not decode.
pub open spec fn unreadable_name() -> Seq<char> {
    "\"The full name of the font cannot be decoded.\""@
}

/// Why a panel has no bitmap.
#[derive(Debug)]
pub enum RasterError {
    /// No face of the family and no sans-serif face is installed.
    FamilyUnavailable(String),
    /// The data of the face could not be read.
    FontDataUnavailable,
    /// The face could not be parsed; the text is the parser's, in quotes.
    FontParse(String),
    /// The bitmap's size in bytes does not fit this platform.
    TooLarge { width: u32, height: u32 },
}

/// What is told about a panel without a bitmap.
pub open spec fn error_message(error: RasterError) -> Seq<char> {
    match error {
        RasterError::FamilyUnavailable(family) => "font family '"@ + family@
            + "' is unavailable"@,
        RasterError::FontDataUnavailable => "font data unavailable"@,
        RasterError::FontParse(detail) => "font parse failed: "@ + detail@,
        RasterError::TooLarge { width, height } => "text raster "@ + text::decimal_digits(
            width as nat,
        ) + "x"@ + text::decimal_digits(height as nat) + " exceeds size limits"@,
    }
}

impl RasterError {
    /// What is told about a panel without a bitmap.
    pub fn message(&self) -> (r: String)
        ensures
            r@ == error_message(*self),
    {
        match self {
            RasterError::FamilyUnavailable(family) => {
                let mut r = joined("font family '", family.as_str());
                r.append("' is unavailable");
                r
            },
            RasterError::FontDataUnavailable => "font data unavailable".to_owned(),
            RasterError::FontParse(detail) => joined("font parse failed: ", detail.as_str()),
            RasterError::TooLarge { width, height } => {
                let w = decimal(*width as u64);
                let h = decimal(*height as u64);
                let mut r = joined("text raster ", w.as_str());
                r.append("x");
                r.append(h.as_str());
                r.append(" exceeds size limits");
                r
            },
        }
    }
}

/// A font weight within the range that font files use.
pub open spec fn usable_weight(weight: u16) -> u16 {
    if weight < 1 {
        1
    } else if weight > 1000 {
        1000
    } else {
        weight
    }
}

/// The face of a panel's text.
pub fn select_face(db: &fontdb::Database, key: &TextKey) -> (r: Result<fontdb::ID, RasterError>)
    ensures
        match r {
            Ok(id) => face_for(*db, key.family@, usable_weight(key.weight)) == Some(id),
            Err(error) => {
                &&& face_for(*db, key.family@, usable_weight(key.weight)) is None
                &&& error matches RasterError::FamilyUnavailable(family) && family@ == key.family@
            },
        },
{
    let weight: u16 = if key.weight < 1 {
        1
    } else if key.weight > 1000 {
        1000
    } else {
        key.weight
    };
    match query_face(db, key.family.as_str(), weight) {
        Some(id) => Ok(id),
        None => Err(RasterError::FamilyUnavailable(key.family.clone())),
    }
}

/// A face id as a key.
pub struct FaceKey {
    pub id: fontdb::ID,
}

impl View for FaceKey {
    type V = fontdb::ID;

    open spec fn view(&self) -> fontdb::ID {
        self.id
    }
}

impl MapKey for FaceKey {
    fn same_key(&self, other: &Self) -> (r: bool) {
        same_face(&self.id, &other.id)
    }
}

/// The bytes of a font file and the index of a face in it.
pub struct FaceData {
    pub bytes: Vec<u8>,
    pub face_index: u32,
}

/// What the data of a face is.
pub open spec fn face_view(data: Option<FaceData>) -> Option<(Seq<u8>, u32)> {
    match data {
        Some(face) => Some((face.bytes@, face.face_index)),
        None => None,
    }
}

/// The font of a face, or what is told where there is none: one that was parsed before,
/// or what parsing its data yields.
pub open spec fn font_of(
    parsed: Map<fontdb::ID, fontdue::Font>,
    id: fontdb::ID,
    data: Option<(Seq<u8>, u32)>,
) -> Result<fontdue::Font, Seq<char>> {
    if parsed.dom().contains(id) {
        Ok(parsed[id])
    } else {
        match data {
            None => Err("font data unavailable"@),
            Some((bytes, index)) => if !font_names::name_decodes(bytes, index) {
                Err("font parse failed: "@ + unreadable_name())
            } else {
                match parsed_font(bytes, index) {
                    Ok(font) => Ok(font),
                    Err(text) => Err("font parse failed: "@ + text),
                }
            },
        }
    }
}

/// The cache after the font of a face was asked for: a font that was found or parsed is
/// kept, and the database stays.
pub open spec fn loaded(
    before: FontCache,
    after: FontCache,
    id: fontdb::ID,
    data: Option<(Seq<u8>, u32)>,
) -> bool {
    &&& after.faces() == before.faces()
    &&& after.parsed() == (match font_of(before.parsed(), id, data) {
        Ok(font) => before.parsed().insert(id, font),
        Err(_) => before.parsed(),
    })
}

/// Parsed fonts of the faces of one database: parsing reads a whole file and is done
/// once per face. Face ids mean something within their database only, so a cache has
/// its own.
pub struct FontCache {
    faces: fontdb::Database,
    fonts: KeyedMap<FaceKey, fontdue::Font>,
}

impl FontCache {
    /// The database whose faces are parsed.
    pub closed spec fn faces(self) -> fontdb::Database {
        self.faces
    }

    /// The parsed fonts.
    pub closed spec fn parsed(self) -> Map<fontdb::ID, fontdue::Font> {
        self.fonts@
    }

    /// Each face is parsed once.
    pub closed spec fn wf(self) -> bool {
        self.fonts.wf()
    }

    /// No parsed fonts of a database yet.
    pub fn new(faces: fontdb::Database) -> (r: Self)
        ensures
            r.wf(),
            r.faces() == faces,
            r.parsed() == Map::<fontdb::ID, fontdue::Font>::empty(),
    {
        FontCache { faces, fonts: KeyedMap::new() }
    }

    /// The database whose faces are parsed.
    pub fn database(&self) -> (r: &fontdb::Database)
        ensures
            *r == self.faces(),
    {
        &self.faces
    }

    /// Whether [`FontCache::load_font`] needs the data of the face.
    pub fn needs_data(&self, id: fontdb::ID) -> (r: bool)
        requires
            self.wf(),
        ensures
            r == !self.parsed().dom().contains(id),
    {
        !self.fonts.contains(&FaceKey { id })
    }

    /// The font of a face, parsed from `data` if it was not parsed before. `None`
    /// means that the data could not be read.
    pub fn load_font(&mut self, id: fontdb::ID, data: Option<FaceData>) -> (r: Result<
        &fontdue::Font,
        RasterError,
    >)
        requires
            old(self).wf(),
        ensures
            final(self).wf(),
            loaded(*old(self), *final(self), id, face_view(data)),
            match r {
                Ok(font) => font_of(old(self).parsed(), id, face_view(data)) == Ok::<
                    fontdue::Font,
                    Seq<char>,
                >(*font),
                Err(error) => {
                    &&& font_of(old(self).parsed(), id, face_view(data)) == Err::<
                        fontdue::Font,
                        Seq<char>,
                    >(error_message(error))
                    &&& if data is Some {
                        error is FontParse
                    } else {
                        error is FontDataUnavailable
                    }
                },
            },
    {
        if !self.fonts.contains(&FaceKey { id }) {
            match data {
                None => {
                    return Err(RasterError::FontDataUnavailable);
                },
                Some(face) => {
                    if !name_is_sound(&face.bytes, face.face_index) {
                        return Err(
                            RasterError::FontParse(
                                "\"The full name of the font cannot be decoded.\"".to_owned(),
                            ),
                        );
                    }
                    match parse_font(face.bytes, face.face_index) {
                        Ok(font) => {
                            self.fonts.insert(FaceKey { id }, font);
                        },
                        Err(detail) => {
                            return Err(RasterError::FontParse(detail));
                        },
                    }
                },
            }
        }
        assert(self.parsed() =~= (match font_of(old(self).parsed(), id, face_view(data)) {
            Ok(font) => old(self).parsed().insert(id, font),
            Err(_) => old(self).parsed(),
        }));
        match self.fonts.get(&FaceKey { id }) {
            Some(font) => Ok(font),
            None => Err(RasterError::FontDataUnavailable),
        }
    }
}

/// Whether the data of a face is there and parses to the font.
pub open spec fn yields(data: Option<(Seq<u8>, u32)>, font: fontdue::Font) -> bool {
    match data {
        Some((bytes, index)) => font_names::name_decodes(bytes, index) && parsed_font(bytes, index)
            == Ok::<fontdue::Font, Seq<char>>(font),
        None => false,
    }
}

/// Whether every parsed font is what its face's data yields.
pub open spec fn holds_faces(
    cache: FontCache,
    data: spec_fn(fontdb::ID) -> Option<(Seq<u8>, u32)>,
) -> bool {
    forall|id: fontdb::ID| #[trigger]
        cache.parsed().dom().contains(id) ==> yields(data(id), cache.parsed()[id])
}

/// A face that was parsed is used again, whatever data come with it; one that was not
/// needs data that hold a readable name and that the parser accepts.
pub proof fn law_face_is_parsed_once(
    parsed: Map<fontdb::ID, fontdue::Font>,
    id: fontdb::ID,
    data: Option<(Seq<u8>, u32)>,
)
    ensures
        parsed.dom().contains(id) ==> font_of(parsed, id, data) == Ok::<fontdue::Font, Seq<char>>(
            parsed[id],
        ),
        !parsed.dom().contains(id) && data is None ==> font_of(parsed, id, data) is Err,
        !parsed.dom().contains(id) ==> (font_of(parsed, id, data) matches Ok(font) ==> yields(
            data,
            font,
        )),
        !parsed.dom().contains(id) ==> forall|font: fontdue::Font| #[trigger]
            yields(data, font) ==> font_of(parsed, id, data) == Ok::<fontdue::Font, Seq<char>>(font),
{
}

/// A warm cache changes no face: whatever was parsed before, the font of a face is the
/// one that an empty cache gives, and the cache stays true to its database. `data` is
/// what the cache's database holds under each id, and `given` what was handed over,
/// which matters only where the face was not parsed yet.
pub proof fn law_warm_cache_changes_no_face(
    data: spec_fn(fontdb::ID) -> Option<(Seq<u8>, u32)>,
    before: FontCache,
    after: FontCache,
    id: fontdb::ID,
    given: Option<(Seq<u8>, u32)>,
)
    requires
        holds_faces(before, data),
        before.parsed().dom().contains(id) || given == data(id),
        loaded(before, after, id, given),
    ensures
        font_of(before.parsed(), id, given) == font_of(
            Map::<fontdb::ID, fontdue::Font>::empty(),
            id,
            data(id),
        ),
        holds_faces(after, data),
        after.faces() == before.faces(),
{
    assert forall|other: fontdb::ID| #[trigger]
        after.parsed().dom().contains(other) implies yields(
        data(other),
        after.parsed()[other],
    ) by {
        assert(before.parsed().dom().contains(other) || other == id);
    }
}

/// The bit pattern of the font size that is used: between 1 and 4096 pixels;
/// negative sizes and values that are no number count as 1.
pub open spec fn usable_size_bits(bits: u32) -> u32 {
    if bits > 0x7f80_0000 || bits < 0x3f80_0000 {
        0x3f80_0000
    } else if bits > 0x4580_0000 {
        0x4580_0000
    } else {
        bits
    }
}

/// The bit pattern of the font size that is used.
pub fn pixel_size_bits(bits: u32) -> (r: u32)
    ensures
        r == usable_size_bits(bits),
        0x3f80_0000 <= r <= 0x4580_0000,
{
    if bits > 0x7f80_0000 || bits < 0x3f80_0000 {
        0x3f80_0000
    } else if bits > 0x4580_0000 {
        0x4580_0000
    } else {
        bits
    }
}

// ---------------------------------------------------------------------------
// Blending
// ---------------------------------------------------------------------------

/// A pixel with straight alpha.
#[derive(Clone, Copy, Debug, PartialEq, Eq, Structural)]
pub struct Pixel {
    pub r: u8,
    pub g: u8,
    pub b: u8,
    pub a: u8,
}

/// A glyph in place: its top left corner in the panel, its size, and how much of
/// each of its pixels it covers, row by row.
#[derive(Clone, Debug)]
pub struct PlacedGlyph {
    pub control: bool,
    pub x: i32,
    pub y: i32,
    pub width: u32,
    pub height: u32,
    pub coverage: Vec<u8>,
}

impl PlacedGlyph {
    /// There is one coverage value per pixel.
    pub open spec fn wf(self) -> bool {
        self.coverage@.len() == self.width * self.height
    }
}

/// Alpha that a glyph pixel contributes.
pub open spec fn source_alpha(color: Pixel, coverage: u8) -> int {
    (coverage * color.a) as int / 255
}

/// Alpha of a pixel after a glyph pixel was laid over it.
pub open spec fn output_alpha(under: Pixel, color: Pixel, coverage: u8) -> int {
    source_alpha(color, coverage) + (under.a * (255 - source_alpha(color, coverage))) / 255
}

/// One colour channel after a glyph pixel was laid over it.
pub open spec fn output_channel(under: Pixel, color: Pixel, coverage: u8, u: u8, c: u8) -> int {
    let alpha = source_alpha(color, coverage);
    let out = output_alpha(under, color, coverage);
    let premultiplied = (c * alpha) / 255 + (u * under.a * (255 - alpha)) / 65025;
    if out == 0 {
        0
    } else if premultiplied * 255 / out <= 255 {
        premultiplied * 255 / out
    } else {
        255
    }
}

/// A pixel after a glyph pixel of the given colour was laid over it.
pub open spec fn blended(under: Pixel, color: Pixel, coverage: u8) -> Pixel {
    Pixel {
        r: output_channel(under, color, coverage, under.r, color.r) as u8,
        g: output_channel(under, color, coverage, under.g, color.g) as u8,
        b: output_channel(under, color, coverage, under.b, color.b) as u8,
        a: output_alpha(under, color, coverage) as u8,
    }
}

proof fn lemma_alpha_bounds(under: Pixel, color: Pixel, coverage: u8)
    ensures
        0 <= source_alpha(color, coverage) <= 255,
        0 <= output_alpha(under, color, coverage) <= 255,
{
    let s = source_alpha(color, coverage);
    assert(0 <= coverage * color.a <= 65025) by (nonlinear_arith)
        requires
            0 <= coverage <= 255,
            0 <= color.a <= 255,
    ;
    assert(0 <= s <= 255);
    assert(0 <= under.a * (255 - s) <= 255 * (255 - s)) by (nonlinear_arith)
        requires
            0 <= under.a <= 255,
            0 <= s <= 255,
    ;
}

fn mix(under: u8, color: u8, alpha: u32, under_alpha: u32, inverse: u32, out: u32) -> (r: u8)
    requires
        alpha <= 255,
        under_alpha <= 255,
        inverse == 255 - alpha,
        out <= 255,
    ensures
        r == ({
            let premultiplied = (color * alpha) / 255 + (under * under_alpha * (255 - alpha))
                / 65025;
            if out == 0 {
                0
            } else if premultiplied * 255 / out as int <= 255 {
                premultiplied * 255 / out as int
            } else {
                255
            }
        }),
{
    assert(0 <= color * alpha <= 65025) by (nonlinear_arith)
        requires
            0 <= color <= 255,
            0 <= alpha <= 255,
    ;
    assert(0 <= under * under_alpha <= 65025) by (nonlinear_arith)
        requires
            0 <= under <= 255,
            0 <= under_alpha <= 255,
    ;
    assert(0 <= (under * under_alpha) * inverse <= 65025 * 255) by (nonlinear_arith)
        requires
            0 <= under * under_alpha <= 65025,
            0 <= inverse <= 255,
    ;
    let premultiplied: u32 = color as u32 * alpha / 255 + under as u32 * under_alpha * inverse
        / 65025;
    if out == 0 {
        return 0;
    }
    let value: u32 = premultiplied * 255 / out;
    if value <= 255 {
        value as u8
    } else {
        255
    }
}

/// Lays a glyph pixel over a pixel.
pub fn blend(under: Pixel, color: Pixel, coverage: u8) -> (r: Pixel)
    ensures
        r == blended(under, color, coverage),
{
    proof {
        lemma_alpha_bounds(under, color, coverage);
    }
    assert(0 <= coverage * color.a <= 65025) by (nonlinear_arith)
        requires
            0 <= coverage <= 255,
            0 <= color.a <= 255,
    ;
    let alpha: u32 = coverage as u32 * color.a as u32 / 255;
    let inverse: u32 = 255 - alpha;
    let under_alpha: u32 = under.a as u32;
    assert(0 <= under_alpha * inverse <= 65025) by (nonlinear_arith)
        requires
            0 <= under_alpha <= 255,
            0 <= inverse <= 255,
    ;
    let out: u32 = alpha + under_alpha * inverse / 255;
    Pixel {
        r: mix(under.r, color.r, alpha, under_alpha, inverse, out),
        g: mix(under.g, color.g, alpha, under_alpha, inverse, out),
        b: mix(under.b, color.b, alpha, under_alpha, inverse, out),
        a: out as u8,
    }
}

/// An opaque glyph pixel replaces what is under it.
pub proof fn law_opaque_glyph_replaces(under: Pixel, color: Pixel)
    requires
        color.a == 255,
    ensures
        blended(under, color, 255) == color,
{
    assert(source_alpha(color, 255) == 255);
    assert(under.a * (255 - 255) == 0);
    assert(under.r * under.a * (255 - 255) == 0) by (nonlinear_arith);
    assert(under.g * under.a * (255 - 255) == 0) by (nonlinear_arith);
    assert(under.b * under.a * (255 - 255) == 0) by (nonlinear_arith);
}

/// A glyph pixel that covers nothing leaves an opaque pixel as it is.
pub proof fn law_uncovered_pixel_stays(under: Pixel, color: Pixel)
    requires
        under.a == 255,
    ensures
        blended(under, color, 0) == under,
{
    assert(source_alpha(color, 0) == 0) by {
        assert(0 * color.a == 0) by (nonlinear_arith);
    }
    assert(output_alpha(under, color, 0) == 255);
    assert(color.r * 0 == 0 && color.g * 0 == 0 && color.b * 0 == 0);
    assert(under.r * under.a * 255 == under.r * 65025) by (nonlinear_arith)
        requires
            under.a == 255,
    ;
    assert(under.g * under.a * 255 == under.g * 65025) by (nonlinear_arith)
        requires
            under.a == 255,
    ;
    assert(under.b * under.a * 255 == under.b * 65025) by (nonlinear_arith)
        requires
            under.a == 255,
    ;
}

/// One channel over an opaque pixel: `alpha` of 255 parts of the colour and the rest
/// of what is under it, each part rounded down.
proof fn lemma_channel_over_opaque(under: Pixel, color: Pixel, coverage: u8, u: u8, c: u8)
    requires
        under.a == 255,
    ensures
        0 <= source_alpha(color, coverage) <= 255,
        output_alpha(under, color, coverage) == 255,
        output_channel(under, color, coverage, u, c) == (c * source_alpha(color, coverage)) / 255
            + (u * (255 - source_alpha(color, coverage))) / 255,
        0 <= output_channel(under, color, coverage, u, c) <= 255,
{
    lemma_alpha_bounds(under, color, coverage);
    let s = source_alpha(color, coverage);
    assert(under.a * (255 - s) == 255 * (255 - s));
    assert(u * under.a * (255 - s) == 255 * (u * (255 - s))) by (nonlinear_arith)
        requires
            under.a == 255,
    ;
    let mixed = u * (255 - s);
    assert(0 <= mixed <= 255 * (255 - s)) by (nonlinear_arith)
        requires
            mixed == u * (255 - s),
            0 <= u <= 255,
            0 <= s <= 255,
    ;
    let own = c * s;
    assert(0 <= own <= 255 * s) by (nonlinear_arith)
        requires
            own == c * s,
            0 <= c <= 255,
            0 <= s <= 255,
    ;
    assert((255 * mixed) / 65025 == mixed / 255);
    let sum = own / 255 + mixed / 255;
    assert(0 <= sum <= 255);
    assert(sum * 255 / 255 == sum);
}

/// A colour without opacity paints nothing: over an opaque pixel it leaves the pixel
/// as it is, however much of the pixel a glyph covers.
pub proof fn law_transparent_colour_paints_nothing(under: Pixel, color: Pixel, coverage: u8)
    requires
        under.a == 255,
        color.a == 0,
    ensures
        blended(under, color, coverage) == under,
{
    assert(coverage * color.a == 0) by (nonlinear_arith)
        requires
            color.a == 0,
    ;
    let s = source_alpha(color, coverage);
    assert(s == 0);
    assert(color.r * s == 0 && color.g * s == 0 && color.b * s == 0) by (nonlinear_arith)
        requires
            s == 0,
    ;
    lemma_channel_over_opaque(under, color, coverage, under.r, color.r);
    lemma_channel_over_opaque(under, color, coverage, under.g, color.g);
    lemma_channel_over_opaque(under, color, coverage, under.b, color.b);
}

/// Coverage and opacity count alike: a pixel that a glyph covers by one amount with a
/// colour of another opacity becomes what it would become with the two exchanged.
pub proof fn law_coverage_and_opacity_count_alike(under: Pixel, color: Pixel, coverage: u8)
    ensures
        blended(under, color, coverage) == blended(
            under,
            Pixel { a: coverage, ..color },
            color.a,
        ),
{
    assert(coverage * color.a == color.a * coverage) by (nonlinear_arith);
}

/// Covering a pixel in part is covering it whole with a colour of less opacity: of the
/// opacity that is left, 255 parts make up at most the product of coverage and opacity,
/// and one part more would exceed it.
pub proof fn law_partial_coverage_is_less_opacity(
    under: Pixel,
    color: Pixel,
    coverage: u8,
    left: u8,
)
    requires
        255 * left <= coverage * color.a < 255 * left + 255,
    ensures
        blended(under, color, coverage) == blended(under, Pixel { a: left, ..color }, 255),
{
    assert((coverage * color.a) as int / 255 == left);
    assert((255 * left) as int / 255 == left);
}

/// The amounts of a colour add up: channel times opacity of a fully covered pixel is
/// that of the colour plus what it lets through of the pixel's, less at most what
/// rounding takes.
pub proof fn law_colour_amounts_add_up(under: Pixel, color: Pixel)
    ensures
        ({
            let r = blended(under, color, 255);
            &&& amounts_add_up(r.r, r.a, color.r, under.r, color.a, under.a)
            &&& amounts_add_up(r.g, r.a, color.g, under.g, color.a, under.a)
            &&& amounts_add_up(r.b, r.a, color.b, under.b, color.a, under.a)
        }),
{
    lemma_amount(under, color, under.r, color.r);
    lemma_amount(under, color, under.g, color.g);
    lemma_amount(under, color, under.b, color.b);
}

/// Whether the channel `r` at opacity `ra` holds the amount of `c` at `ca` over `u` at
/// `ua`, in 65025ths of a level, less at most three levels.
pub open spec fn amounts_add_up(r: u8, ra: u8, c: u8, u: u8, ca: u8, ua: u8) -> bool {
    let exact = 255 * (c * ca) + u * ua * (255 - ca);
    255 * (r * ra) <= exact && exact < 255 * (r * ra) + 255 * ra + 130050
}

proof fn lemma_amount(under: Pixel, color: Pixel, u: u8, c: u8)
    ensures
        0 <= output_channel(under, color, 255, u, c) <= 255,
        0 <= output_alpha(under, color, 255) <= 255,
        amounts_add_up(
            output_channel(under, color, 255, u, c) as u8,
            output_alpha(under, color, 255) as u8,
            c,
            u,
            color.a,
            under.a,
        ),
{
    lemma_alpha_bounds(under, color, 255);
    assert((255 * color.a) as int / 255 == color.a);
    let s = color.a as int;
    let out = output_alpha(under, color, 255);
    let own = c * s;
    let let_through = under.a * (255 - s);
    let others = u * under.a * (255 - s);
    assert(0 <= own <= 255 * s) by (nonlinear_arith)
        requires
            own == c * s,
            0 <= c <= 255,
            0 <= s,
    ;
    assert(0 <= let_through) by (nonlinear_arith)
        requires
            let_through == under.a * (255 - s),
            0 <= under.a,
            s <= 255,
    ;
    assert(others == u * let_through) by (nonlinear_arith)
        requires
            others == u * under.a * (255 - s),
            let_through == under.a * (255 - s),
    ;
    assert(0 <= others <= 255 * let_through) by (nonlinear_arith)
        requires
            others == u * let_through,
            0 <= u <= 255,
            0 <= let_through,
    ;
    let premultiplied = own / 255 + others / 65025;
    assert(0 <= premultiplied <= out);
    assert(255 * own + others - 130050 < 65025 * premultiplied <= 255 * own + others);
    if out == 0 {
        assert(output_channel(under, color, 255, u, c) == 0);
        assert(premultiplied == 0);
    } else {
        let v = premultiplied * 255 / out;
        assert(out * v <= 255 * premultiplied < out * v + out) by (nonlinear_arith)
            requires
                v == premultiplied * 255 / out,
                out > 0,
        ;
        assert(0 <= v <= 255) by (nonlinear_arith)
            requires
                v == premultiplied * 255 / out,
                out > 0,
                0 <= premultiplied <= out,
        ;
        assert(output_channel(under, color, 255, u, c) == v);
        assert(v * out == out * v) by (nonlinear_arith);
    }
}

/// Whether `value` lies between `from` and `to` at the fraction `part` of 65025, give or
/// take less than three levels.
pub open spec fn lies_between(value: u8, from: u8, to: u8, part: int) -> bool {
    let exact = to * part + from * (65025 - part);
    &&& 65025 * value <= exact + 3 * 65025
    &&& exact < 65025 * value + 3 * 65025
}

/// Over an opaque pixel the result is opaque, and each channel lies between the pixel
/// and the colour, at the fraction that coverage and opacity together make: their
/// product of 255 times 255. A fully covered pixel lies at the fraction of the colour's
/// opacity alone.
pub proof fn law_glyph_mixes_by_coverage_and_opacity(under: Pixel, color: Pixel, coverage: u8)
    requires
        under.a == 255,
    ensures
        ({
            let r = blended(under, color, coverage);
            let part = coverage * color.a;
            &&& r.a == 255
            &&& lies_between(r.r, under.r, color.r, part)
            &&& lies_between(r.g, under.g, color.g, part)
            &&& lies_between(r.b, under.b, color.b, part)
        }),
{
    lemma_channel_mix(under, color, coverage, under.r, color.r);
    lemma_channel_mix(under, color, coverage, under.g, color.g);
    lemma_channel_mix(under, color, coverage, under.b, color.b);
}

proof fn lemma_channel_mix(under: Pixel, color: Pixel, coverage: u8, u: u8, c: u8)
    requires
        under.a == 255,
    ensures
        output_alpha(under, color, coverage) == 255,
        0 <= output_channel(under, color, coverage, u, c) <= 255,
        lies_between(
            output_channel(under, color, coverage, u, c) as u8,
            u,
            c,
            coverage * color.a,
        ),
{
    lemma_channel_over_opaque(under, color, coverage, u, c);
    let part = coverage * color.a;
    assert(0 <= part <= 65025) by (nonlinear_arith)
        requires
            part == coverage * color.a,
            0 <= coverage <= 255,
            0 <= color.a <= 255,
    ;
    let s = source_alpha(color, coverage);
    let rest = part - 255 * s;
    assert(0 <= rest < 255);
    let v = output_channel(under, color, coverage, u, c);
    let own = c * s;
    let mixed = u * (255 - s);
    assert(own - 255 < 255 * (own / 255) <= own);
    assert(mixed - 255 < 255 * (mixed / 255) <= mixed);
    assert(own + mixed - 510 < 255 * v <= own + mixed);
    // The exact mix differs from 255 * (own + mixed) by what rounding the opacity lost.
    let exact = c * part + u * (65025 - part);
    assert(exact == 255 * (own + mixed) + (c - u) * rest) by (nonlinear_arith)
        requires
            exact == c * part + u * (65025 - part),
            part == 255 * s + rest,
            own == c * s,
            mixed == u * (255 - s),
    ;
    assert(-65025 < (c - u) * rest < 65025) by (nonlinear_arith)
        requires
            0 <= rest < 255,
            0 <= c <= 255,
            0 <= u <= 255,
    ;
}

/// The opacity of the result grows from that of what is under it towards full, by the
/// opacity of the colour: what a fully covered pixel lacks of full opacity is what the
/// pixel lacked, reduced in the proportion in which the colour lets it through, within
/// one level. A fully opaque colour or pixel gives a fully opaque result.
pub proof fn law_opacities_add_up(under: Pixel, color: Pixel)
    ensures
        ({
            let r = blended(under, color, 255);
            let missing = (255 - under.a) * (255 - color.a);
            &&& 0 <= 255 * (255 - r.a) - missing < 255
            &&& r.a >= color.a
            &&& under.a == 255 ==> r.a == 255
        }),
{
    lemma_alpha_bounds(under, color, 255);
    assert((255 * color.a) as int / 255 == color.a);
    let s = color.a as int;
    let let_through = under.a * (255 - s);
    assert((255 - under.a) * (255 - s) == 65025 - 255 * s - let_through) by (nonlinear_arith)
        requires
            let_through == under.a * (255 - s),
    ;
    assert(0 <= let_through) by (nonlinear_arith)
        requires
            let_through == under.a * (255 - s),
            0 <= s <= 255,
            0 <= under.a,
    ;
}

/// Over nothing a glyph shows its own colour: with no opacity under it, a fully covered
/// pixel has the colour's opacity, and each channel is at most the colour's and below it
/// by no more than rounding at that opacity costs.
pub proof fn law_glyph_over_nothing_is_its_colour(under: Pixel, color: Pixel)
    requires
        under.a == 0,
        color.a > 0,
    ensures
        ({
            let r = blended(under, color, 255);
            &&& r.a == color.a
            &&& r.r <= color.r && (color.r - r.r) * color.a <= 255 + color.a
            &&& r.g <= color.g && (color.g - r.g) * color.a <= 255 + color.a
            &&& r.b <= color.b && (color.b - r.b) * color.a <= 255 + color.a
        }),
{
    lemma_channel_over_nothing(under, color, under.r, color.r);
    lemma_channel_over_nothing(under, color, under.g, color.g);
    lemma_channel_over_nothing(under, color, under.b, color.b);
}

proof fn lemma_channel_over_nothing(under: Pixel, color: Pixel, u: u8, c: u8)
    requires
        under.a == 0,
        color.a > 0,
    ensures
        output_alpha(under, color, 255) == color.a,
        ({
            let v = output_channel(under, color, 255, u, c);
            0 <= v <= c && (c - v) * color.a <= 255 + color.a
        }),
{
    assert((255 * color.a) as int / 255 == color.a);
    let s = color.a as int;
    assert(under.a * (255 - s) == 0) by (nonlinear_arith)
        requires
            under.a == 0,
    ;
    assert(u * under.a * (255 - s) == 0) by (nonlinear_arith)
        requires
            under.a == 0,
    ;
    let own = c * s;
    assert(0 <= own) by (nonlinear_arith)
        requires
            own == c * s,
            0 <= c,
            0 <= s,
    ;
    let premultiplied = own / 255;
    let v = premultiplied * 255 / s;
    assert(own - 255 < 255 * premultiplied <= own);
    assert(s * v <= 255 * premultiplied < s * v + s) by (nonlinear_arith)
        requires
            v == premultiplied * 255 / s,
            s > 0,
    ;
    assert(v <= c) by (nonlinear_arith)
        requires
            s * v <= own,
            own == c * s,
            s > 0,
    ;
    assert(0 <= v) by (nonlinear_arith)
        requires
            v == premultiplied * 255 / s,
            premultiplied >= 0,
            s > 0,
    ;
    assert((c - v) * s <= 255 + s) by (nonlinear_arith)
        requires
            own == c * s,
            own - 255 < 255 * premultiplied,
            255 * premultiplied < s * v + s,
    ;
}

// ---------------------------------------------------------------------------
// The bitmap
// ---------------------------------------------------------------------------

/// Whether a glyph covers a pixel of the panel at all: it is drawn, and the pixel
/// lies within it. Panels wider or higher than the largest signed coordinate
/// show no glyphs.
pub open spec fn covers(glyph: PlacedGlyph, width: int, height: int, x: int, y: int) -> bool {
    &&& !glyph.control
    &&& width <= i32::MAX
    &&& height <= i32::MAX
    &&& 0 <= x - glyph.x < glyph.width
    &&& 0 <= y - glyph.y < glyph.height
}

/// A pixel of the panel after the glyphs were laid over its background in order.
pub open spec fn composed(
    glyphs: Seq<PlacedGlyph>,
    color: Pixel,
    background: Pixel,
    width: int,
    height: int,
    x: int,
    y: int,
) -> Pixel
    decreases glyphs.len(),
{
    if glyphs.len() == 0 {
        background
    } else {
        let under = composed(glyphs.drop_last(), color, background, width, height, x, y);
        let glyph = glyphs.last();
        if covers(glyph, width, height, x, y) {
            blended(under, color, glyph.coverage@[(y - glyph.y) * glyph.width + (x - glyph.x)])
        } else {
            under
        }
    }
}

/// A pixel that lies in the box of no glyph has the colour of the background, and
/// control characters draw nothing.
pub proof fn law_pixel_without_glyph_is_background(
    glyphs: Seq<PlacedGlyph>,
    color: Pixel,
    background: Pixel,
    width: int,
    height: int,
    x: int,
    y: int,
)
    requires
        forall|i: int|
            0 <= i < glyphs.len() ==> (#[trigger] glyphs[i]).control || x < glyphs[i].x || x
                >= glyphs[i].x + glyphs[i].width || y < glyphs[i].y || y >= glyphs[i].y
                + glyphs[i].height,
    ensures
        composed(glyphs, color, background, width, height, x, y) == background,
    decreases glyphs.len(),
{
    if glyphs.len() > 0 {
        assert(glyphs.last() == glyphs[glyphs.len() - 1]);
        assert forall|i: int| 0 <= i < glyphs.drop_last().len() implies (
        #[trigger] glyphs.drop_last()[i]) == glyphs[i] by {}
        law_pixel_without_glyph_is_background(
            glyphs.drop_last(),
            color,
            background,
            width,
            height,
            x,
            y,
        );
    }
}

/// Glyphs lie on top of one another in their order. What the last one adds to a pixel in
/// its box is its colour, by the coverage that its bitmap has there, row by row from
/// the top; everywhere else it changes nothing.
pub proof fn law_last_glyph_lies_on_top(
    glyphs: Seq<PlacedGlyph>,
    glyph: PlacedGlyph,
    color: Pixel,
    background: Pixel,
    width: int,
    height: int,
    row: int,
    column: int,
    x: int,
    y: int,
)
    requires
        0 < width <= i32::MAX,
        0 < height <= i32::MAX,
        0 <= row < glyph.height,
        0 <= column < glyph.width,
    ensures
        !glyph.control ==> composed(
            glyphs.push(glyph),
            color,
            background,
            width,
            height,
            glyph.x + column,
            glyph.y + row,
        ) == blended(
            composed(
                glyphs,
                color,
                background,
                width,
                height,
                glyph.x + column,
                glyph.y + row,
            ),
            color,
            glyph.coverage@[row * glyph.width + column],
        ),
        glyph.control || x < glyph.x || x >= glyph.x + glyph.width || y < glyph.y || y >= glyph.y
            + glyph.height ==> composed(
            glyphs.push(glyph),
            color,
            background,
            width,
            height,
            x,
            y,
        ) == composed(glyphs, color, background, width, height, x, y),
{
    assert(glyphs.push(glyph).drop_last() =~= glyphs);
}

proof fn lemma_cell_bounds(width: int, height: int, x: int, y: int)
    requires
        0 <= x < width,
        0 <= y < height,
    ensures
        0 <= y * width + x < width * height,
{
    assert(y * width + x < width * height) by (nonlinear_arith)
        requires
            0 <= x < width,
            0 <= y < height,
    ;
    assert(0 <= y * width) by (nonlinear_arith)
        requires
            0 <= y,
            0 < width,
    ;
}

proof fn lemma_cells_differ(width: int, x1: int, y1: int, x2: int, y2: int)
    requires
        0 <= x1 < width,
        0 <= x2 < width,
        y1 * width + x1 == y2 * width + x2,
    ensures
        x1 == x2,
        y1 == y2,
{
    assert(y1 == y2) by (nonlinear_arith)
        requires
            0 <= x1 < width,
            0 <= x2 < width,
            y1 * width + x1 == y2 * width + x2,
    ;
}

spec fn cell_done(glyph: PlacedGlyph, row: int, column: int, x: int, y: int) -> bool {
    y - glyph.y < row || (y - glyph.y == row && x - glyph.x < column)
}

/// The canvas shows `glyphs` everywhere, and `glyph` on top in the rows and
/// columns that are done.
spec fn canvas_shows(
    canvas: Seq<Pixel>,
    glyphs: Seq<PlacedGlyph>,
    glyph: PlacedGlyph,
    row: int,
    column: int,
    color: Pixel,
    background: Pixel,
    width: int,
    height: int,
) -> bool {
    &&& canvas.len() == width * height
    &&& forall|x: int, y: int|
        0 <= x < width && 0 <= y < height ==> #[trigger] canvas[y * width + x] == (if cell_done(
            glyph,
            row,
            column,
            x,
            y,
        ) {
            composed(glyphs.push(glyph), color, background, width, height, x, y)
        } else {
            composed(glyphs, color, background, width, height, x, y)
        })
}

fn draw_row(
    canvas: &mut Vec<Pixel>,
    glyph: &PlacedGlyph,
    row: u32,
    color: Pixel,
    background: Pixel,
    width: usize,
    height: usize,
    Ghost(glyphs): Ghost<Seq<PlacedGlyph>>,
)
    requires
        glyph.wf(),
        !glyph.control,
        row < glyph.height,
        width <= i32::MAX,
        height <= i32::MAX,
        canvas_shows(
            old(canvas)@,
            glyphs,
            *glyph,
            row as int,
            0,
            color,
            background,
            width as int,
            height as int,
        ),
    ensures
        canvas_shows(
            final(canvas)@,
            glyphs,
            *glyph,
            row + 1,
            0,
            color,
            background,
            width as int,
            height as int,
        ),
{
    let w: i64 = width as i64;
    let h: i64 = height as i64;
    let py: i64 = glyph.y as i64 + row as i64;
    let total: usize = canvas.len();
    let cells: usize = glyph.coverage.len();
    let mut column: u32 = 0;
    while column < glyph.width
        invariant
            column <= glyph.width,
            glyph.wf(),
            !glyph.control,
            row < glyph.height,
            width <= i32::MAX,
            height <= i32::MAX,
            w == width,
            h == height,
            py == glyph.y + row,
            total == canvas@.len(),
            cells == glyph.coverage@.len(),
            canvas_shows(
                canvas@,
                glyphs,
                *glyph,
                row as int,
                column as int,
                color,
                background,
                width as int,
                height as int,
            ),
        decreases glyph.width - column,
    {
        let px: i64 = glyph.x as i64 + column as i64;
        let ghost prior = canvas@;
        let ghost all = glyphs.push(*glyph);
        proof {
            assert(all.drop_last() =~= glyphs);
            assert(all.last() == *glyph);
            lemma_cell_bounds(
                glyph.width as int,
                glyph.height as int,
                column as int,
                row as int,
            );
        }
        if 0 <= px && px < w && 0 <= py && py < h {
            proof {
                lemma_cell_bounds(w as int, h as int, px as int, py as int);
                assert(row * glyph.width <= row * glyph.width + column);
            }
            let cell: usize = row as usize * glyph.width as usize + column as usize;
            let at: usize = py as usize * width + px as usize;
            let coverage: u8 = glyph.coverage[cell];
            let over = blend(canvas[at], color, coverage);
            canvas.set(at, over);
            proof {
                assert(prior[py * w + px] == composed(
                    glyphs,
                    color,
                    background,
                    w as int,
                    h as int,
                    px as int,
                    py as int,
                ));
                assert(covers(*glyph, w as int, h as int, px as int, py as int));
            }
        }
        proof {
            let next = column + 1;
            assert forall|x: int, y: int| 0 <= x < w && 0 <= y < h implies #[trigger] canvas@[y * w
                + x] == (if cell_done(*glyph, row as int, next, x, y) {
                composed(all, color, background, w as int, h as int, x, y)
            } else {
                composed(glyphs, color, background, w as int, h as int, x, y)
            }) by {
                lemma_cell_bounds(w as int, h as int, x, y);
                if x == px && y == py {
                } else {
                    if 0 <= px && px < w && 0 <= py && py < h {
                        if y * w + x == py * w + px {
                            lemma_cells_differ(w as int, x, y, px as int, py as int);
                        }
                    }
                    assert(canvas@[y * w + x] == prior[y * w + x]);
                    assert(cell_done(*glyph, row as int, next, x, y) == cell_done(
                        *glyph,
                        row as int,
                        column as int,
                        x,
                        y,
                    ));
                }
            }
        }
        column += 1;
    }
    proof {
        let all = glyphs.push(*glyph);
        assert(all.drop_last() =~= glyphs);
        assert(all.last() == *glyph);
        assert forall|x: int, y: int| 0 <= x < w && 0 <= y < h implies #[trigger] canvas@[y * w + x]
            == (if cell_done(*glyph, row + 1, 0, x, y) {
            composed(all, color, background, w as int, h as int, x, y)
        } else {
            composed(glyphs, color, background, w as int, h as int, x, y)
        }) by {
            if y - glyph.y == row {
                // Right of the last column the glyph covers nothing.
                if x - glyph.x >= glyph.width {
                    assert(!covers(*glyph, w as int, h as int, x, y));
                }
            } else if y - glyph.y == row + 1 && x - glyph.x < 0 {
                assert(!covers(*glyph, w as int, h as int, x, y));
            }
        }
    }
}

/// The bitmap's sides: a collapsed panel counts as one pixel.
pub open spec fn panel_side(side: u32) -> u32 {
    if side == 0 {
        1
    } else {
        side
    }
}

/// A panel has at least one pixel each way, and is otherwise as large as asked for.
pub proof fn law_panel_is_never_empty(side: u32)
    ensures
        panel_side(side) >= 1,
        side >= 1 ==> panel_side(side) == side,
        panel_side(0) == 1,
{
}

/// A weight is held between 1 and 1000, and a size between one pixel and 4096 (the bit
/// patterns 0x3f800000 and 0x45800000); within these bounds both are taken as given.
/// Where the size is no number or negative, it is one pixel.
pub proof fn law_font_is_held_in_bounds(weight: u16, bits: u32)
    ensures
        1 <= usable_weight(weight) <= 1000,
        1 <= weight <= 1000 ==> usable_weight(weight) == weight,
        weight > 1000 ==> usable_weight(weight) == 1000,
        0x3f80_0000 <= bits <= 0x4580_0000 ==> usable_size_bits(bits) == bits,
        0x4580_0000 <= bits <= 0x7f80_0000 ==> usable_size_bits(bits) == 0x4580_0000,
        bits <= 0x3f80_0000 || bits > 0x7f80_0000 ==> usable_size_bits(bits) == 0x3f80_0000,
{
}

/// The bitmap's sides in pixels and its size in bytes, if that fits.
pub fn canvas_size(key: &TextKey) -> (r: Result<(usize, usize, usize), RasterError>)
    ensures
        match r {
            Ok((width, height, bytes)) => {
                &&& width == panel_side(key.width)
                &&& height == panel_side(key.height)
                &&& bytes == width * height * 4
            },
            Err(error) => {
                &&& panel_side(key.width) * panel_side(key.height) * 4 > usize::MAX
                &&& error == (RasterError::TooLarge { width: key.width, height: key.height })
            },
        },
{
    let width: usize = if key.width == 0 {
        1
    } else {
        key.width as usize
    };
    let height: usize = if key.height == 0 {
        1
    } else {
        key.height as usize
    };
    match width.checked_mul(height) {
        Some(pixels) => match pixels.checked_mul(4) {
            Some(bytes) => Ok((width, height, bytes)),
            None => Err(RasterError::TooLarge { width: key.width, height: key.height }),
        },
        None => {
            proof {
                assert(width * height * 4 >= width * height) by (nonlinear_arith)
                    requires
                        width * height >= 0,
                ;
            }
            Err(RasterError::TooLarge { width: key.width, height: key.height })
        },
    }
}

/// A rasterized panel.
#[derive(Clone, Debug)]
pub struct RasterizedText {
    pub width: u32,
    pub height: u32,
    pub rgba8: Vec<u8>,
}

/// The pixel at a place of a bitmap.
pub open spec fn pixel_at(rgba8: Seq<u8>, width: int, x: int, y: int) -> Pixel {
    let at = (y * width + x) * 4;
    Pixel { r: rgba8[at], g: rgba8[at + 1], b: rgba8[at + 2], a: rgba8[at + 3] }
}

/// A colour as a pixel.
pub open spec fn pixel_of(color: Seq<u8>) -> Pixel {
    Pixel { r: color[0], g: color[1], b: color[2], a: color[3] }
}

/// Whether a bitmap shows the glyphs of a panel.
pub open spec fn shows_panel(raster: RasterizedText, key: TextKeyView, glyphs: Seq<PlacedGlyph>) -> bool {
    let w = panel_side(key.width) as int;
    let h = panel_side(key.height) as int;
    &&& raster.width == w
    &&& raster.height == h
    &&& raster.rgba8@.len() == w * h * 4
    &&& forall|x: int, y: int|
        0 <= x < w && 0 <= y < h ==> #[trigger] pixel_at(raster.rgba8@, w, x, y) == composed(
            glyphs,
            pixel_of(key.color),
            pixel_of(key.background),
            w,
            h,
            x,
            y,
        )
}

/// The bitmap has the panel's size and holds four bytes for each pixel, row by row, in
/// the order in which a colour has its channels: without glyphs every pixel is the
/// background, and a pixel that an opaque glyph covers last is the text's colour.
pub proof fn law_bitmap_holds_the_colours(
    raster: RasterizedText,
    key: TextKeyView,
    glyphs: Seq<PlacedGlyph>,
    x: int,
    y: int,
    channel: int,
)
    requires
        shows_panel(raster, key, glyphs),
        key.color.len() == 4,
        key.background.len() == 4,
        0 <= x < raster.width,
        0 <= y < raster.height,
        0 <= channel < 4,
    ensures
        key.width > 0 ==> raster.width == key.width,
        key.height > 0 ==> raster.height == key.height,
        raster.rgba8@.len() == raster.width * raster.height * 4,
        glyphs.len() == 0 ==> raster.rgba8@[(y * raster.width + x) * 4 + channel]
            == key.background[channel],
        glyphs.len() > 0 && key.color[3] == 255 && raster.width <= i32::MAX && raster.height
            <= i32::MAX && ({
            let glyph = glyphs.last();
            &&& !glyph.control
            &&& 0 <= x - glyph.x < glyph.width
            &&& 0 <= y - glyph.y < glyph.height
            &&& glyph.coverage@[(y - glyph.y) * glyph.width + (x - glyph.x)] == 255
        }) ==> raster.rgba8@[(y * raster.width + x) * 4 + channel] == key.color[channel],
{
    let w = raster.width as int;
    let h = raster.height as int;
    let color = pixel_of(key.color);
    let background = pixel_of(key.background);
    let shown = pixel_at(raster.rgba8@, w, x, y);
    assert(shown == composed(glyphs, color, background, w, h, x, y));
    if glyphs.len() > 0 && key.color[3] == 255 {
        law_opaque_glyph_replaces(
            composed(glyphs.drop_last(), color, background, w, h, x, y),
            color,
        );
    }
}

/// Lays the glyphs of a panel over its background.
#[verifier::rlimit(30)]
pub fn rasterize(key: &TextKey, glyphs: &Vec<PlacedGlyph>) -> (r: Result<
    RasterizedText,
    RasterError,
>)
    requires
        forall|i: int| 0 <= i < glyphs@.len() ==> (#[trigger] glyphs@[i]).wf(),
    ensures
        match r {
            Ok(raster) => {
                &&& panel_side(key.width) * panel_side(key.height) * 4 <= usize::MAX
                &&& shows_panel(raster, key@, glyphs@)
            },
            Err(error) => {
                &&& panel_side(key.width) * panel_side(key.height) * 4 > usize::MAX
                &&& error == (RasterError::TooLarge { width: key.width, height: key.height })
            },
        },
{
    let (width, height, bytes) = match canvas_size(key) {
        Ok(size) => size,
        Err(error) => {
            return Err(error);
        },
    };
    let color = Pixel { r: key.color[0], g: key.color[1], b: key.color[2], a: key.color[3] };
    let background = Pixel {
        r: key.background[0],
        g: key.background[1],
        b: key.background[2],
        a: key.background[3],
    };
    let ghost w = width as int;
    let ghost h = height as int;
    assert(w * h <= w * h * 4) by (nonlinear_arith)
        requires
            w >= 0,
            h >= 0,
    ;
    let pixels: usize = width * height;
    let mut canvas: Vec<Pixel> = Vec::new();
    while canvas.len() < pixels
        invariant
            canvas@.len() <= pixels,
            forall|i: int| 0 <= i < canvas@.len() ==> canvas@[i] == background,
        decreases pixels - canvas@.len(),
    {
        canvas.push(background);
    }
    if width <= i32::MAX as usize && height <= i32::MAX as usize {
        let mut n: usize = 0;
        proof {
            assert(glyphs@.take(0) =~= Seq::<PlacedGlyph>::empty());
            assert forall|x: int, y: int| 0 <= x < w && 0 <= y < h implies #[trigger] canvas@[y * w
                + x] == composed(glyphs@.take(0), color, background, w, h, x, y) by {
                lemma_cell_bounds(w, h, x, y);
            }
        }
        while n < glyphs.len()
            invariant
                n <= glyphs@.len(),
                w == width,
                h == height,
                width <= i32::MAX,
                height <= i32::MAX,
                canvas@.len() == w * h,
                forall|i: int| 0 <= i < glyphs@.len() ==> (#[trigger] glyphs@[i]).wf(),
                forall|x: int, y: int|
                    0 <= x < w && 0 <= y < h ==> #[trigger] canvas@[y * w + x] == composed(
                        glyphs@.take(n as int),
                        color,
                        background,
                        w,
                        h,
                        x,
                        y,
                    ),
            decreases glyphs@.len() - n,
        {
            let glyph = &glyphs[n];
            let ghost before = glyphs@.take(n as int);
            proof {
                assert(glyphs@.take(n + 1) =~= before.push(*glyph));
                assert(before.push(*glyph).drop_last() =~= before);
                assert(before.push(*glyph).last() == *glyph);
            }
            if !glyph.control {
                proof {
                    assert forall|x: int, y: int|
                        0 <= x < w && 0 <= y < h implies #[trigger] canvas@[y * w + x] == (
                    if cell_done(*glyph, 0, 0, x, y) {
                        composed(before.push(*glyph), color, background, w, h, x, y)
                    } else {
                        composed(before, color, background, w, h, x, y)
                    }) by {
                        if cell_done(*glyph, 0, 0, x, y) {
                            assert(!covers(*glyph, w, h, x, y));
                        }
                    }
                }
                let mut row: u32 = 0;
                while row < glyph.height
                    invariant
                        row <= glyph.height,
                        glyph.wf(),
                        !glyph.control,
                        w == width,
                        h == height,
                        width <= i32::MAX,
                        height <= i32::MAX,
                        canvas_shows(
                            canvas@,
                            before,
                            *glyph,
                            row as int,
                            0,
                            color,
                            background,
                            w,
                            h,
                        ),
                    decreases glyph.height - row,
                {
                    draw_row(
                        &mut canvas,
                        glyph,
                        row,
                        color,
                        background,
                        width,
                        height,
                        Ghost(before),
                    );
                    row += 1;
                }
                proof {
                    assert forall|x: int, y: int|
                        0 <= x < w && 0 <= y < h implies #[trigger] canvas@[y * w + x] == composed(
                        before.push(*glyph),
                        color,
                        background,
                        w,
                        h,
                        x,
                        y,
                    ) by {
                        if !cell_done(*glyph, glyph.height as int, 0, x, y) {
                            assert(!covers(*glyph, w, h, x, y));
                        }
                    }
                }
            } else {
                proof {
                    assert forall|x: int, y: int|
                        0 <= x < w && 0 <= y < h implies #[trigger] canvas@[y * w + x] == composed(
                        before.push(*glyph),
                        color,
                        background,
                        w,
                        h,
                        x,
                        y,
                    ) by {
                        assert(!covers(*glyph, w, h, x, y));
                    }
                }
            }
            n += 1;
        }
        assert(glyphs@.take(n as int) =~= glyphs@);
    } else {
        proof {
            assert forall|x: int, y: int| 0 <= x < w && 0 <= y < h implies #[trigger] canvas@[y * w
                + x] == composed(glyphs@, color, background, w, h, x, y) by {
                lemma_cell_bounds(w, h, x, y);
                lemma_huge_panel_is_plain(glyphs@, color, background, w, h, x, y);
            }
        }
    }
    let mut rgba8: Vec<u8> = Vec::new();
    let mut i: usize = 0;
    while i < pixels
        invariant
            i <= pixels,
            pixels == canvas@.len(),
            pixels * 4 <= usize::MAX,
            rgba8@.len() == i * 4,
            forall|k: int|
                #![trigger canvas@[k]]
                0 <= k < i ==> {
                    &&& rgba8@[k * 4] == canvas@[k].r
                    &&& rgba8@[k * 4 + 1] == canvas@[k].g
                    &&& rgba8@[k * 4 + 2] == canvas@[k].b
                    &&& rgba8@[k * 4 + 3] == canvas@[k].a
                },
        decreases pixels - i,
    {
        let pixel = canvas[i];
        rgba8.push(pixel.r);
        rgba8.push(pixel.g);
        rgba8.push(pixel.b);
        rgba8.push(pixel.a);
        i += 1;
    }
    let raster = RasterizedText { width: width as u32, height: height as u32, rgba8 };
    proof {
        assert forall|x: int, y: int| 0 <= x < w && 0 <= y < h implies #[trigger] pixel_at(
            raster.rgba8@,
            w,
            x,
            y,
        ) == composed(
            glyphs@,
            pixel_of(key@.color),
            pixel_of(key@.background),
            w,
            h,
            x,
            y,
        ) by {
            lemma_cell_bounds(w, h, x, y);
            let k = y * w + x;
            assert(canvas@[k] == composed(glyphs@, color, background, w, h, x, y));
        }
    }
    Ok(raster)
}

proof fn lemma_huge_panel_is_plain(
    glyphs: Seq<PlacedGlyph>,
    color: Pixel,
    background: Pixel,
    w: int,
    h: int,
    x: int,
    y: int,
)
    requires
        w > i32::MAX || h > i32::MAX,
    ensures
        composed(glyphs, color, background, w, h, x, y) == background,
    decreases glyphs.len(),
{
    if glyphs.len() > 0 {
        lemma_huge_panel_is_plain(glyphs.drop_last(), color, background, w, h, x, y);
    }
}

// ---------------------------------------------------------------------------
// The cache
// ---------------------------------------------------------------------------

/// Rasterized panels.
pub struct TextCache {
    entries: KeyedMap<TextKey, RasterizedText>,
}

impl Default for TextCache {
    fn default() -> (r: Self)
        ensures
            r.wf(),
            r.panels() == Map::<TextKeyView, RasterizedText>::empty(),
    {
        TextCache::new()
    }
}

impl TextCache {
    /// The cached panels.
    pub closed spec fn panels(self) -> Map<TextKeyView, RasterizedText> {
        self.entries@
    }

    /// Each panel is cached once.
    pub closed spec fn wf(self) -> bool {
        self.entries.wf()
    }

    /// An empty cache.
    pub fn new() -> (r: Self)
        ensures
            r.wf(),
            r.panels() == Map::<TextKeyView, RasterizedText>::empty(),
    {
        TextCache { entries: KeyedMap::new() }
    }

    /// Whether [`TextCache::rasterize`] needs the glyphs of the panel.
    pub fn needs_glyphs(&self, key: &TextKey) -> (r: bool)
        requires
            self.wf(),
        ensures
            r == !self.panels().dom().contains(key@),
    {
        !self.entries.contains(key)
    }

    /// The bitmap of a panel, put together from `glyphs` if it is not cached. An
    /// error in place of the glyphs is handed on.
    pub fn rasterize(&mut self, key: TextKey, glyphs: Result<Vec<PlacedGlyph>, RasterError>) -> (r:
        Result<&RasterizedText, RasterError>)
        requires
            old(self).wf(),
            glyphs matches Ok(list) ==> forall|i: int|
                0 <= i < list@.len() ==> (#[trigger] list@[i]).wf(),
        ensures
            final(self).wf(),
            if old(self).panels().dom().contains(key@) {
                &&& r == Ok::<&RasterizedText, RasterError>(&old(self).panels()[key@])
                &&& final(self).panels() == old(self).panels()
            } else {
                match glyphs {
                    Err(error) => {
                        &&& r == Err::<&RasterizedText, RasterError>(error)
                        &&& final(self).panels() == old(self).panels()
                    },
                    Ok(list) => if panel_side(key.width) * panel_side(key.height) * 4 > usize::MAX {
                        &&& r == Err::<&RasterizedText, RasterError>(
                            RasterError::TooLarge { width: key.width, height: key.height },
                        )
                        &&& final(self).panels() == old(self).panels()
                    } else {
                        &&& r is Ok
                        &&& shows_panel(*r->Ok_0, key@, list@)
                        &&& final(self).panels() == old(self).panels().insert(key@, *r->Ok_0)
                    },
                }
            },
    {
        if !self.entries.contains(&key) {
            let list = match glyphs {
                Ok(list) => list,
                Err(error) => {
                    return Err(error);
                },
            };
            match rasterize(&key, &list) {
                Ok(value) => {
                    self.entries.insert(key.copy(), value);
                },
                Err(error) => {
                    return Err(error);
                },
            }
        }
        match self.entries.get(&key) {
            Some(raster) => Ok(raster),
            None => Err(RasterError::FontDataUnavailable),
        }
    }

    /// Keeps the panels whose key the predicate accepts.
    pub fn retain<P: Fn(&TextKey) -> bool>(&mut self, keep: P)
        requires
            old(self).wf(),
            forall|k: TextKey| #[trigger] keep.requires((&k,)),
        ensures
            final(self).wf(),
            forall|key: TextKeyView| #[trigger]
                keyed_map::retained_at::<TextKey, RasterizedText, P>(
                    old(self).panels(),
                    final(self).panels(),
                    keep,
                    key,
                ),
    {
        self.entries.retain(&keep);
    }

    /// Forgets every panel.
    pub fn clear(&mut self)
        requires
            old(self).wf(),
        ensures
            final(self).wf(),
            final(self).panels() == Map::<TextKeyView, RasterizedText>::empty(),
    {
        self.entries.clear();
    }

    /// How many panels are cached.
    pub fn len(&self) -> (r: usize)
        requires
            self.wf(),
        ensures
            r == self.panels().dom().len(),
    {
        proof {
            self.entries.lemma_order();
            let order = self.entries.order();
            order.unique_seq_to_set();
            assert(order.to_set() =~= self.entries@.dom());
        }
        self.entries.len()
    }
}

/// Whether every cached bitmap shows its panel with the panel's glyphs.
pub open spec fn holds_panels(
    cache: TextCache,
    glyphs: spec_fn(TextKeyView) -> Seq<PlacedGlyph>,
) -> bool {
    forall|key: TextKeyView| #[trigger]
        cache.panels().dom().contains(key) ==> shows_panel(cache.panels()[key], key, glyphs(key))
}

/// A warm cache changes no bitmap: it shows the panel with the glyphs that the panel
/// has, whether it was cached or put together now. `given` are the glyphs that were
/// handed over, which matter only where the panel was not cached.
pub proof fn law_warm_cache_changes_no_raster(
    glyphs: spec_fn(TextKeyView) -> Seq<PlacedGlyph>,
    before: TextCache,
    after: TextCache,
    key: TextKeyView,
    given: Seq<PlacedGlyph>,
    raster: RasterizedText,
)
    requires
        holds_panels(before, glyphs),
        before.panels().dom().contains(key) || given == glyphs(key),
        if before.panels().dom().contains(key) {
            raster == before.panels()[key] && after.panels() == before.panels()
        } else {
            shows_panel(raster, key, given) && after.panels() == before.panels().insert(key, raster)
        },
    ensures
        shows_panel(raster, key, glyphs(key)),
        holds_panels(after, glyphs),
{
    assert forall|other: TextKeyView| #[trigger]
        after.panels().dom().contains(other) implies shows_panel(
        after.panels()[other],
        other,
        glyphs(other),
    ) by {
        assert(before.panels().dom().contains(other) || other == key);
    }
}

} // verus!
