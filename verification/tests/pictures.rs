use std::io::Cursor;

use hooviestar::font_names::name_is_sound;
use hooviestar::image_cache::{
    check_size, decode, file_format, rgba_byte_len, DecodedImage, ImageCache, ImageCacheError,
    DECODE_RETRY_COOLDOWN_NS, MAX_IMAGE_BYTES, MAX_IMAGE_CACHE_BYTES,
};
use hooviestar::project::TextAlign;
use hooviestar::text_raster::{
    background_color, blend, canvas_size, parse_color, pixel_size_bits, rasterize, select_face,
    FaceData, FontCache, Pixel, PlacedGlyph, RasterError, TextAlignKey, TextCache, TextKey,
};

fn picture(width: u32, height: u32, pixel: [u8; 4]) -> Vec<u8> {
    let image = image::RgbaImage::from_pixel(width, height, image::Rgba(pixel));
    let mut bytes = Vec::new();
    image::DynamicImage::ImageRgba8(image)
        .write_to(&mut Cursor::new(&mut bytes), image::ImageFormat::Png)
        .unwrap();
    bytes
}

fn image_of(path: &str, (width, height): (u32, u32), fingerprint: (u128, u64)) -> DecodedImage {
    DecodedImage {
        path: path.as_bytes().to_vec(),
        width,
        height,
        rgba8: vec![7; width as usize * height as usize * 4],
        fingerprint,
    }
}

fn key_for(text: &str) -> TextKey {
    TextKey {
        text: text.to_string(),
        family: "Adwaita Sans".into(),
        size_bits: 24.0f32.to_bits(),
        weight: 400,
        color: [255, 255, 255, 255],
        background: [0, 0, 0, 255],
        align: TextAlignKey::Left,
        width: 320,
        height: 96,
    }
}

fn push16(bytes: &mut Vec<u8>, value: u16) {
    bytes.extend_from_slice(&value.to_be_bytes());
}

fn push32(bytes: &mut Vec<u8>, value: u32) {
    bytes.extend_from_slice(&value.to_be_bytes());
}

/// A font file with a name, one empty glyph and nothing else.
fn font_file(family: &str) -> Vec<u8> {
    let full: Vec<u8> = family.encode_utf16().flat_map(u16::to_be_bytes).collect();
    font_with_full_name(family, &full)
}

fn font_with_full_name(family: &str, full: &[u8]) -> Vec<u8> {
    let mut head = Vec::new();
    push32(&mut head, 0x0001_0000);
    push32(&mut head, 0x0001_0000);
    push32(&mut head, 0);
    push32(&mut head, 0x5f0f_3cf5);
    push16(&mut head, 0);
    push16(&mut head, 1000);
    head.extend_from_slice(&[0; 16]);
    for value in [0u16, 0, 1000, 1000, 0, 8, 2, 0, 0] {
        push16(&mut head, value);
    }
    let mut hhea = Vec::new();
    push32(&mut hhea, 0x0001_0000);
    for value in [800u16, 0xff38, 0, 500, 0, 0, 500, 1, 0, 0, 0, 0, 0, 0, 0, 1] {
        push16(&mut hhea, value);
    }
    let mut maxp = Vec::new();
    push32(&mut maxp, 0x0000_5000);
    push16(&mut maxp, 1);
    let mut storage = Vec::new();
    let mut records = Vec::new();
    let short = family.replace(' ', "");
    let encode = |text: &str| text.encode_utf16().flat_map(u16::to_be_bytes).collect::<Vec<u8>>();
    for (name_id, encoded) in [(1u16, encode(family)), (4, full.to_vec()), (6, encode(&short))] {
        for field in [3u16, 1, 0x0409, name_id, encoded.len() as u16, storage.len() as u16] {
            push16(&mut records, field);
        }
        storage.extend_from_slice(&encoded);
    }
    let mut name = Vec::new();
    push16(&mut name, 0);
    push16(&mut name, 3);
    push16(&mut name, 6 + records.len() as u16);
    name.extend_from_slice(&records);
    name.extend_from_slice(&storage);

    let tables = [
        (*b"head", head),
        (*b"hhea", hhea),
        (*b"maxp", maxp),
        (*b"name", name),
    ];
    let mut file = Vec::new();
    push32(&mut file, 0x0001_0000);
    for value in [tables.len() as u16, 64, 2, 0] {
        push16(&mut file, value);
    }
    let mut offset = 12 + 16 * tables.len();
    for (tag, table) in &tables {
        file.extend_from_slice(tag);
        push32(&mut file, 0);
        push32(&mut file, offset as u32);
        push32(&mut file, table.len() as u32);
        offset += (table.len() + 3) / 4 * 4;
    }
    for (_, table) in &tables {
        file.extend_from_slice(table);
        while file.len() % 4 != 0 {
            file.push(0);
        }
    }
    file
}

#[test]
fn rgba_size_limit_rejects_oversized_decodes_before_conversion() {
    assert_eq!(rgba_byte_len(1, 1).unwrap(), 4);
    assert_eq!(rgba_byte_len(4096, 4096).unwrap(), MAX_IMAGE_BYTES);
    assert!(rgba_byte_len(4097, 4096).is_err());
    assert!(rgba_byte_len(u32::MAX, u32::MAX).is_err());
}

#[test]
fn size_check_tells_empty_from_oversized_images() {
    assert!(matches!(check_size(0, 5), Err(ImageCacheError::ZeroDimensions)));
    assert!(matches!(check_size(5, 0), Err(ImageCacheError::ZeroDimensions)));
    let error = check_size(8192, 8192).unwrap_err();
    assert_eq!(error.message("a.png"), "decoded image 8192x8192 exceeds 64 MiB limit");
}

#[test]
fn image_is_decoded_to_its_pixels() {
    let bytes = picture(2, 3, [1, 2, 3, 200]);
    let decoded = decode(b"a.png".to_vec(), (1, 2), &bytes).unwrap();
    assert_eq!((decoded.width, decoded.height), (2, 3));
    assert_eq!(decoded.rgba8, [1, 2, 3, 200].repeat(6));
    assert_eq!(decoded.path, b"a.png".to_vec());
    assert_eq!(decoded.fingerprint, (1, 2));
}

#[test]
fn image_wider_than_the_limit_is_refused_by_the_decoder() {
    let bytes = picture(8193, 1, [0, 0, 0, 255]);
    assert!(matches!(
        decode(b"wide.png".to_vec(), (1, 2), &bytes),
        Err(ImageCacheError::Undecodable(_))
    ));
}

#[test]
fn undecodable_file_is_tried_again_after_the_cooldown_or_a_change() {
    let mut cache = ImageCache::new();
    let path = b"broken.png".to_vec();
    let garbage = b"no image".to_vec();
    assert!(cache.needs_contents(&path, (1, 1), 0));
    assert!(matches!(
        cache.get_or_decode(path.clone(), (1, 1), Ok(&garbage), 0),
        Err(ImageCacheError::Undecodable(_))
    ));
    assert!(!cache.needs_contents(&path, (1, 1), 1));
    assert!(matches!(
        cache.get_or_decode(path.clone(), (1, 1), Ok(&garbage), 1),
        Err(ImageCacheError::CoolingDown)
    ));
    assert!(cache.needs_contents(&path, (1, 2), 1));
    assert!(cache.needs_contents(&path, (1, 1), DECODE_RETRY_COOLDOWN_NS));
    let good = picture(1, 1, [9, 9, 9, 255]);
    assert!(cache.get_or_decode(path.clone(), (1, 2), Ok(&good), 1).is_ok());
    assert!(!cache.needs_contents(&path, (1, 2), 1));
}

#[test]
fn unreadable_file_says_why_and_then_cools_down() {
    let mut cache = ImageCache::new();
    let error = cache
        .get_or_decode(b"gone.png".to_vec(), (1, 1), Err("no such file".to_owned()), 0)
        .unwrap_err();
    assert_eq!(error.message("gone.png"), "no such file");
    let error = cache
        .get_or_decode(b"gone.png".to_vec(), (1, 1), Err("no such file".to_owned()), 1)
        .unwrap_err();
    assert_eq!(
        error.message("gone.png"),
        "image decode recently failed, retry after cooldown: gone.png"
    );
}

#[test]
fn image_budget_drops_the_oldest_images() {
    let mut cache = ImageCache::new();
    let half = (4096, 4096);
    assert_eq!(4096 * 4096 * 4 * 2, MAX_IMAGE_CACHE_BYTES);
    cache.insert_bounded(b"a".to_vec(), image_of("a", half, (1, 1))).unwrap();
    cache.insert_bounded(b"b".to_vec(), image_of("b", half, (1, 1))).unwrap();
    assert!(!cache.needs_contents(&b"a".to_vec(), (1, 1), 0));
    cache.insert_bounded(b"c".to_vec(), image_of("c", (1, 1), (1, 1))).unwrap();
    assert!(cache.needs_contents(&b"a".to_vec(), (1, 1), 0));
    assert!(!cache.needs_contents(&b"b".to_vec(), (1, 1), 0));
    assert!(!cache.needs_contents(&b"c".to_vec(), (1, 1), 0));
    let error = cache
        .insert_bounded(b"d".to_vec(), image_of("d", (4096, 4097), (1, 1)))
        .unwrap_err();
    assert_eq!(error.message("d"), "decoded image exceeds 64 MiB");
}

#[test]
fn images_are_removed_retained_and_cleared() {
    let mut cache = ImageCache::default();
    for name in ["a", "b", "c"] {
        cache
            .insert_bounded(name.as_bytes().to_vec(), image_of(name, (1, 1), (1, 1)))
            .unwrap();
    }
    cache.remove(&b"a".to_vec());
    assert!(cache.needs_contents(&b"a".to_vec(), (1, 1), 0));
    cache.retain(|path: &Vec<u8>| path.as_slice() == b"c");
    assert!(cache.needs_contents(&b"b".to_vec(), (1, 1), 0));
    assert!(!cache.needs_contents(&b"c".to_vec(), (1, 1), 0));
    cache.clear();
    assert!(cache.needs_contents(&b"c".to_vec(), (1, 1), 0));
}

#[test]
fn parse_color_rejects_multibyte_input_without_panicking() {
    assert_eq!(parse_color("#aéabc"), [255, 255, 255, 255]);
    assert_eq!(parse_color("#aéabcde"), [255, 255, 255, 255]);
}

#[test]
fn parse_color_still_parses_ascii_hex() {
    assert_eq!(parse_color("#ff8000"), [255, 128, 0, 255]);
    assert_eq!(parse_color("#FF800080"), [255, 128, 0, 128]);
    assert_eq!(parse_color("nope"), [255, 255, 255, 255]);
    assert_eq!(parse_color("#zzzzzz"), [255, 255, 255, 255]);
}

#[test]
fn parse_color_wrong_length_hex_returns_fallback() {
    const FALLBACK: [u8; 4] = [255, 255, 255, 255];
    assert_eq!(parse_color("#fff"), FALLBACK);
    assert_eq!(parse_color("#12345"), FALLBACK);
    assert_eq!(parse_color("#112233445"), FALLBACK);
}

#[test]
fn background_colour_begins_with_a_hash() {
    assert_eq!(background_color("#102030"), Some([16, 32, 48, 255]));
    assert_eq!(background_color("#nope"), Some([255, 255, 255, 255]));
    assert_eq!(background_color("102030"), None);
    assert_eq!(background_color(""), None);
}

#[test]
fn rasterize_rejects_oversized_canvas_instead_of_overflowing() {
    let mut cache = TextCache::default();
    let key = TextKey {
        text: "overflow".into(),
        family: "Adwaita Sans".into(),
        size_bits: 32.0f32.to_bits(),
        weight: 400,
        color: [255, 255, 255, 255],
        background: [0, 0, 0, 255],
        align: TextAlignKey::Left,
        width: u32::MAX,
        height: u32::MAX,
    };
    let error = canvas_size(&key).unwrap_err();
    assert_eq!(
        error.message(),
        "text raster 4294967295x4294967295 exceeds size limits"
    );
    assert!(cache.rasterize(key, Ok(Vec::new())).is_err());
}

#[test]
fn text_cache_inserts_on_miss_reuses_entry_and_supports_retain_clear() {
    let key = key_for("cache probe");
    let mut cache = TextCache::default();
    let first = cache
        .rasterize(key.copy(), Ok(Vec::new()))
        .expect("miss rasterizes and inserts");
    assert_eq!(first.width, 320);
    assert_eq!(first.height, 96);
    assert_eq!(first.rgba8.len(), 320 * 96 * 4);
    let dot = PlacedGlyph {
        control: false,
        x: 0,
        y: 0,
        width: 1,
        height: 1,
        coverage: vec![255],
    };
    let again = cache
        .rasterize(key.copy(), Ok(vec![dot]))
        .expect("hit returns stored entry");
    assert_eq!(again.rgba8[..4], [0, 0, 0, 255]);
    let probe = key.copy();
    cache.retain(|kept: &TextKey| kept.text != probe.text);
    assert_eq!(cache.len(), 0);
    cache
        .rasterize(key.copy(), Ok(Vec::new()))
        .expect("reinsert after retain");
    assert_eq!(cache.len(), 1);
    cache.clear();
    assert_eq!(cache.len(), 0);
}

#[test]
fn text_error_is_handed_on_and_not_cached() {
    let mut cache = TextCache::new();
    let key = key_for("error");
    assert!(cache.needs_glyphs(&key));
    let error = cache
        .rasterize(key.copy(), Err(RasterError::FontDataUnavailable))
        .unwrap_err();
    assert_eq!(error.message(), "font data unavailable");
    assert!(cache.needs_glyphs(&key));
}

#[test]
fn glyphs_are_blended_clipped_and_skipped() {
    let mut key = key_for("x");
    key.width = 2;
    key.height = 1;
    key.color = [200, 100, 50, 255];
    let opaque = PlacedGlyph {
        control: false,
        x: 1,
        y: 0,
        width: 2,
        height: 1,
        coverage: vec![255, 255],
    };
    let control = PlacedGlyph {
        control: true,
        x: 0,
        y: 0,
        width: 1,
        height: 1,
        coverage: vec![255],
    };
    let raster = rasterize(&key, &vec![opaque, control]).unwrap();
    assert_eq!(raster.rgba8, vec![0, 0, 0, 255, 200, 100, 50, 255]);
}

#[test]
fn blending_weighs_by_coverage() {
    let under = Pixel { r: 0, g: 0, b: 0, a: 255 };
    let color = Pixel { r: 255, g: 255, b: 255, a: 255 };
    assert_eq!(blend(under, color, 128), Pixel { r: 128, g: 128, b: 128, a: 255 });
    assert_eq!(blend(under, color, 0), under);
    assert_eq!(blend(under, color, 255), color);
    let clear = Pixel { r: 10, g: 20, b: 30, a: 0 };
    assert_eq!(blend(clear, color, 0).a, 0);
}

#[test]
fn font_size_stays_between_1_and_4096() {
    assert_eq!(pixel_size_bits(24.0f32.to_bits()), 24.0f32.to_bits());
    assert_eq!(pixel_size_bits(0.5f32.to_bits()), 1.0f32.to_bits());
    assert_eq!(pixel_size_bits(9000.0f32.to_bits()), 4096.0f32.to_bits());
    assert_eq!(pixel_size_bits(f32::NAN.to_bits()), 1.0f32.to_bits());
    assert_eq!(pixel_size_bits((-3.0f32).to_bits()), 1.0f32.to_bits());
    assert_eq!(pixel_size_bits(f32::INFINITY.to_bits()), 4096.0f32.to_bits());
}

#[test]
fn alignment_key_follows_the_project() {
    assert_eq!(TextAlignKey::from(TextAlign::Left), TextAlignKey::Left);
    assert_eq!(TextAlignKey::from(TextAlign::Center), TextAlignKey::Center);
    assert_eq!(TextAlignKey::from(TextAlign::Right), TextAlignKey::Right);
}

#[test]
fn text_keys_differ_in_every_field() {
    let key = key_for("same");
    assert!(key.matches(&key.copy()));
    let mut other = key.copy();
    other.color = [1, 2, 3, 4];
    assert!(!key.matches(&other));
    let mut other = key.copy();
    other.height = 97;
    assert!(!key.matches(&other));
    let mut other = key.copy();
    other.align = TextAlignKey::Right;
    assert!(!key.matches(&other));
}

#[test]
fn missing_family_is_named() {
    let db = fontdb::Database::new();
    let error = select_face(&db, &key_for("x")).unwrap_err();
    assert_eq!(error.message(), "font family 'Adwaita Sans' is unavailable");
}

#[test]
fn face_is_found_by_family_and_parsed_once() {
    let mut db = fontdb::Database::new();
    db.load_font_data(font_file("Other Sans"));
    db.load_font_data(font_file("Adwaita Sans"));
    let id = select_face(&db, &key_for("x")).unwrap();
    assert_eq!(db.face(id).unwrap().families[0].0, "Adwaita Sans");
    let mut key = key_for("x");
    key.family = "Other Sans".into();
    let other = select_face(&db, &key).unwrap();
    assert!(other != id);
    let mut fonts = FontCache::new(db);
    assert_eq!(select_face(fonts.database(), &key_for("x")).unwrap(), id);
    assert!(fonts.needs_data(id));
    let data = FaceData { bytes: font_file("Adwaita Sans"), face_index: 0 };
    assert_eq!(fonts.load_font(id, Some(data)).unwrap().glyph_count(), 1);
    assert!(!fonts.needs_data(id));
    assert!(fonts.load_font(id, None).is_ok());
    assert!(matches!(
        fonts.load_font(other, None),
        Err(RasterError::FontDataUnavailable)
    ));
}

#[test]
fn broken_font_file_is_refused() {
    let mut db = fontdb::Database::new();
    db.load_font_data(font_file("Adwaita Sans"));
    let id = select_face(&db, &key_for("x")).unwrap();
    let mut fonts = FontCache::new(db);
    let broken = FaceData { bytes: vec![1, 2, 3], face_index: 0 };
    let error = fonts.load_font(id, Some(broken)).unwrap_err();
    assert_eq!(
        error.message(),
        "font parse failed: \"Face data must start with 0x00010000, 0x74727565, 0x4F54544F or \
         0x74746366.\""
    );
    assert!(fonts.needs_data(id));
}

#[test]
fn unknown_extension_is_named() {
    let garbage = b"no image".to_vec();
    let refusal = |path: &[u8]| decode(path.to_vec(), (0, 0), &garbage).unwrap_err().message("x");
    assert_eq!(
        refusal(b"dir.d/note.xyz"),
        "The file extension `.\"xyz\"` was not recognized as an image format"
    );
    let unknown = "The image format could not be determined";
    assert_eq!(refusal(b"note"), unknown);
    assert_eq!(refusal(b"note."), unknown);
    assert_eq!(refusal(b".png"), unknown);
}

#[test]
fn evicted_image_leaves_its_failure_known() {
    let mut cache = ImageCache::new();
    let half = (4096, 4096);
    cache.insert_bounded(b"a".to_vec(), image_of("a", half, (1, 1))).unwrap();
    cache.insert_bounded(b"b".to_vec(), image_of("b", half, (1, 1))).unwrap();
    let garbage = b"no image".to_vec();
    assert!(cache.get_or_decode(b"a".to_vec(), (2, 2), Ok(&garbage), 0).is_err());
    cache.insert_bounded(b"c".to_vec(), image_of("c", (1, 1), (1, 1))).unwrap();
    assert!(cache.needs_contents(&b"a".to_vec(), (1, 1), 1));
    assert!(!cache.needs_contents(&b"a".to_vec(), (2, 2), 1));
}

#[test]
fn two_databases_do_not_share_their_fonts() {
    let mut first = fontdb::Database::new();
    first.load_font_data(font_file("Adwaita Sans"));
    let mut second = fontdb::Database::new();
    second.load_font_data(font_file("Other Sans"));
    let mut key = key_for("x");
    key.family = "Other Sans".into();
    let id = select_face(&first, &key_for("x")).unwrap();
    let other = select_face(&second, &key).unwrap();
    assert_eq!(id, other);
    let mut warm = FontCache::new(first);
    let data = FaceData { bytes: font_file("Adwaita Sans"), face_index: 0 };
    assert!(warm.load_font(id, Some(data)).is_ok());
    let mut fonts = FontCache::new(second);
    assert!(fonts.needs_data(other));
    assert_eq!(fonts.database().face(other).unwrap().families[0].0, "Other Sans");
}

#[test]
fn same_family_second_text_skips_font_reparse() {
    let mut db = fontdb::Database::new();
    db.load_font_data(font_file("Adwaita Sans"));
    let mut fonts = FontCache::new(db);
    let id = select_face(fonts.database(), &key_for("first sample")).expect("face id");
    assert!(fonts.needs_data(id));
    let data = FaceData { bytes: font_file("Adwaita Sans"), face_index: 0 };
    assert_eq!(fonts.load_font(id, Some(data)).expect("first parse").name(), Some("Adwaita Sans"));
    let second_id = select_face(fonts.database(), &key_for("second sample")).expect("face id");
    assert_eq!(id, second_id);
    assert!(!fonts.needs_data(second_id));
    let unused = FaceData { bytes: vec![1, 2, 3], face_index: 0 };
    let second = fonts.load_font(second_id, Some(unused)).expect("cached reuse");
    assert_eq!(second.name(), Some("Adwaita Sans"));
}

#[test]
fn font_with_an_undecodable_name_is_refused() {
    let load = |full: &[u8]| {
        let mut db = fontdb::Database::new();
        db.load_font_data(font_file("Adwaita Sans"));
        let id = select_face(&db, &key_for("x")).unwrap();
        let bytes = font_with_full_name("Adwaita Sans", full);
        let sound = name_is_sound(&bytes, 0);
        let mut fonts = FontCache::new(db);
        let loaded = fonts.load_font(id, Some(FaceData { bytes, face_index: 0 }));
        let name = loaded.map(|font| font.name().map(str::to_owned)).map_err(|e| e.message());
        assert_eq!(sound, name.is_ok());
        name
    };
    let refused = "font parse failed: \"The full name of the font cannot be decoded.\"";
    assert_eq!(load(&[0, 65]).unwrap().as_deref(), Some("A"));
    assert_eq!(load(&[]).unwrap().as_deref(), Some(""));
    assert_eq!(load(&[0xd8, 0x3d, 0xde, 0x00]).unwrap().as_deref(), Some("\u{1f600}"));
    assert_eq!(load(&[0, 65, 0]).unwrap_err(), refused);
    assert_eq!(load(&[0xd8, 0x3d]).unwrap_err(), refused);
    assert_eq!(load(&[0xd8, 0x3d, 0, 65]).unwrap_err(), refused);
    assert_eq!(load(&[0xdc, 0x00, 0xdc, 0x00]).unwrap_err(), refused);
    let odd = font_with_full_name("Adwaita Sans", &[0, 65, 0]);
    assert!(name_is_sound(&odd, 1));
    assert!(name_is_sound(&odd[..40].to_vec(), 0));
    assert!(name_is_sound(&Vec::new(), 0));
    let mut collection = Vec::new();
    for value in [0x7474_6366u32, 0x0001_0000, 2, 20, 20] {
        push32(&mut collection, value);
    }
    let mut shifted = odd.clone();
    for record in 0..4 {
        let at = 12 + 16 * record + 8;
        let offset = u32::from_be_bytes(shifted[at..at + 4].try_into().unwrap()) + 20;
        shifted[at..at + 4].copy_from_slice(&offset.to_be_bytes());
    }
    collection.extend_from_slice(&shifted);
    assert!(!name_is_sound(&collection, 1));
    assert!(name_is_sound(&collection, 2));
}

#[test]
fn first_bytes_go_before_the_extension() {
    let png = picture(1, 1, [0, 0, 0, 255]);
    let text = b"no image".to_vec();
    let format = |path: &str, data: &Vec<u8>| file_format(&path.as_bytes().to_vec(), data);
    assert_eq!(format("a.gif", &png).unwrap(), image::ImageFormat::Png);
    assert_eq!(format("a.GIF", &text).unwrap(), image::ImageFormat::Gif);
    assert!(format("a.xyz", &text).is_err());
    assert_eq!(
        file_format(&vec![b'a', b'.', 0xff], &text).unwrap_err(),
        "The image format could not be determined"
    );
}
