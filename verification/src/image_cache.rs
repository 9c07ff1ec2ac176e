//! CPU-side cache of decoded image files.
//!
//! Paths are the bytes of canonical file names; a fingerprint is the modification
//! time in nanoseconds and the length of a file. Reading files is left to the
//! caller: [`ImageCache::needs_contents`] tells when the contents are needed.

use vstd::prelude::*;
use vstd::string::*;
use vstd::utf8::*;

use crate::keyed_map;
use crate::keyed_map::KeyedMap;
use crate::portal_captures;
use crate::portal_captures::elapsed_ns;
use crate::text;
use crate::text::{decimal, joined};

verus! {

/// A decoded image.
#[derive(Debug)]
pub struct DecodedImage {
    pub path: Vec<u8>,
    pub width: u32,
    pub height: u32,
    pub rgba8: Vec<u8>,
    pub fingerprint: (u128, u64),
}

/// A file that could not be decoded, and when that was tried.
#[derive(Clone, Copy, Debug)]
pub struct FailedDecode {
    pub fingerprint: (u128, u64),
    pub attempted: u64,
}

/// A file that could not be decoded is tried again after this many nanoseconds,
/// or at once when the file changes.
pub const DECODE_RETRY_COOLDOWN_NS: u64 = 5_000_000_000;

/// No decoded image is larger than this.
pub const MAX_IMAGE_BYTES: usize = 67_108_864;

/// All cached images together are no larger than this.
pub const MAX_IMAGE_CACHE_BYTES: usize = 134_217_728;

/// No image side is longer than this.
pub const MAX_IMAGE_SIDE: u32 = 8192;

/// Why an image is not available.
#[derive(Debug)]
pub enum ImageCacheError {
    /// The file failed recently and has not changed since.
    CoolingDown,
    /// The file could not be read; the text says why.
    Unreadable(String),
    /// The contents are no image that can be decoded; the text is the decoder's.
    Undecodable(String),
    /// The image has no pixels.
    ZeroDimensions,
    /// The image needs more than 64 MiB.
    TooLarge { width: u32, height: u32 },
    /// The decoded pixels take more than 64 MiB.
    TooManyBytes,
}

/// What is told about a file that failed recently.
pub open spec fn cooldown_text(shown: Seq<char>) -> Seq<char> {
    "image decode recently failed, retry after cooldown: "@ + shown
}

/// What is told about an image of the given size that is too large.
pub open spec fn too_large_text(width: u32, height: u32) -> Seq<char> {
    "decoded image "@ + text::decimal_digits(width as nat) + "x"@ + text::decimal_digits(
        height as nat,
    ) + " exceeds 64 MiB limit"@
}

impl ImageCacheError {
    /// What is told about a file whose image is not available.
    pub fn message(&self, path: &str) -> (r: String)
        ensures
            r@ == match *self {
                ImageCacheError::CoolingDown => cooldown_text(path@),
                ImageCacheError::Unreadable(detail) => detail@,
                ImageCacheError::Undecodable(detail) => detail@,
                ImageCacheError::ZeroDimensions => "image has zero dimensions"@,
                ImageCacheError::TooLarge { width, height } => too_large_text(width, height),
                ImageCacheError::TooManyBytes => "decoded image exceeds 64 MiB"@,
            },
    {
        match self {
            ImageCacheError::CoolingDown => joined(
                "image decode recently failed, retry after cooldown: ",
                path,
            ),
            ImageCacheError::Unreadable(detail) => detail.clone(),
            ImageCacheError::Undecodable(detail) => detail.clone(),
            ImageCacheError::ZeroDimensions => "image has zero dimensions".to_owned(),
            ImageCacheError::TooLarge { width, height } => {
                let w = decimal(*width as u64);
                let h = decimal(*height as u64);
                let mut r = joined("decoded image ", w.as_str());
                r.append("x");
                r.append(h.as_str());
                r.append(" exceeds 64 MiB limit");
                r
            },
            ImageCacheError::TooManyBytes => "decoded image exceeds 64 MiB".to_owned(),
        }
    }
}

/// Bytes of an RGBA image of the given size, if it is small enough.
pub fn rgba_byte_len(width: u32, height: u32) -> (r: Result<usize, ImageCacheError>)
    ensures
        match r {
            Ok(bytes) => bytes == width * height * 4 && bytes <= MAX_IMAGE_BYTES,
            Err(error) => width * height * 4 > MAX_IMAGE_BYTES && error
                == (ImageCacheError::TooLarge { width, height }),
        },
{
    assert(width as u64 * height as u64 <= 0xffff_fffe_0000_0001) by (nonlinear_arith)
        requires
            width as u64 <= 0xffff_ffff,
            height as u64 <= 0xffff_ffff,
    ;
    let pixels: u64 = width as u64 * height as u64;
    if pixels <= 16_777_216 {
        Ok((pixels * 4) as usize)
    } else {
        Err(ImageCacheError::TooLarge { width, height })
    }
}

// ---------------------------------------------------------------------------
// The image decoder
// ---------------------------------------------------------------------------

/// The decoder's error type.
#[verifier::external_type_specification]
#[verifier::external_body]
pub struct ExImageError(image::ImageError);

/// The decoder's image type.
#[verifier::external_type_specification]
#[verifier::external_body]
pub struct ExDynamicImage(image::DynamicImage);

/// The decoder's type of image formats.
#[verifier::external_type_specification]
#[verifier::external_body]
pub struct ExImageFormat(image::ImageFormat);

/// The format that the first bytes of a file show.
pub uninterp spec fn guessed_format(data: Seq<u8>) -> Option<image::ImageFormat>;

/// The format of files with an extension.
pub uninterp spec fn extension_format(extension: Seq<char>) -> Option<image::ImageFormat>;

/// What is told of an extension that is not that of an image.
pub uninterp spec fn unrecognized_text(extension: Seq<char>) -> Seq<char>;

/// What decoding yields: width, height and RGBA pixels, or the text of an error.
pub uninterp spec fn decoded_image(
    data: Seq<u8>,
    format: image::ImageFormat,
    max_width: u32,
    max_height: u32,
    max_alloc: u64,
) -> Result<(u32, u32, Seq<u8>), Seq<char>>;

/// Width and height of an image.
pub uninterp spec fn image_size(image: image::DynamicImage) -> (u32, u32);

/// The pixels of an image as RGBA bytes.
pub uninterp spec fn image_pixels(image: image::DynamicImage) -> Seq<u8>;

/// The text of an error.
pub uninterp spec fn error_text(error: image::ImageError) -> Seq<char>;

/// Calls `std::str::from_utf8`. The contract claims that bytes in UTF-8, and no others,
/// give the text that they encode.
#[verifier::external_body]
fn utf8_text(bytes: &Vec<u8>) -> (r: Option<String>)
    ensures
        match r {
            Some(text) => valid_utf8(bytes@) && text@ == decode_utf8(bytes@),
            None => !valid_utf8(bytes@),
        },
{
    std::str::from_utf8(bytes).ok().map(|text| text.to_string())
}

/// Calls `image::guess_format`. The contract claims that the format depends on the
/// bytes alone.
#[verifier::external_body]
fn guess_format(data: &Vec<u8>) -> (r: Option<image::ImageFormat>)
    ensures
        r == guessed_format(data@),
{
    image::guess_format(data).ok()
}

/// Calls `image::ImageFormat::from_extension`. The contract claims that the format
/// depends on the extension alone.
#[verifier::external_body]
fn format_of_extension(extension: &str) -> (r: Option<image::ImageFormat>)
    ensures
        r == extension_format(extension@),
{
    image::ImageFormat::from_extension(extension)
}

/// Prints, with its `Display`, the `image::ImageError` for an extension that is not
/// that of an image. The contract claims that the text depends on the extension alone.
#[verifier::external_body]
fn unrecognized_extension(extension: &str) -> (r: String)
    ensures
        r@ == unrecognized_text(extension@),
{
    let hint = image::error::ImageFormatHint::PathExtension(extension.into());
    image::ImageError::Unsupported(hint.into()).to_string()
}

/// Calls `image::ImageReader::with_format` on the bytes of a file, `limits` with the
/// limits given, and `decode`.
///
/// The contract claims that the outcome depends on these arguments alone (the
/// process registers no decoding hooks), that a decoded image keeps the two side
/// limits, which the crate documents as strict, and that converting it to RGBA
/// yields four bytes per pixel.
#[verifier::external_body]
fn decode_image(
    data: &Vec<u8>,
    format: image::ImageFormat,
    max_width: u32,
    max_height: u32,
    max_alloc: u64,
) -> (r: Result<image::DynamicImage, image::ImageError>)
    ensures
        match r {
            Ok(image) => {
                &&& decoded_image(data@, format, max_width, max_height, max_alloc) == Ok::<
                    (u32, u32, Seq<u8>),
                    Seq<char>,
                >((image_size(image).0, image_size(image).1, image_pixels(image)))
                &&& image_size(image).0 <= max_width
                &&& image_size(image).1 <= max_height
                &&& image_pixels(image).len() == image_size(image).0 * image_size(image).1 * 4
            },
            Err(error) => decoded_image(data@, format, max_width, max_height, max_alloc) == Err::<
                (u32, u32, Seq<u8>),
                Seq<char>,
            >(error_text(error)),
        },
{
    let mut limits = image::Limits::default();
    limits.max_image_width = Some(max_width);
    limits.max_image_height = Some(max_height);
    limits.max_alloc = Some(max_alloc);
    let mut reader = image::ImageReader::with_format(std::io::Cursor::new(data), format);
    reader.limits(limits);
    reader.decode()
}

/// Calls `image::DynamicImage::width` and `height`. The contract claims that they
/// are the image's size.
#[verifier::external_body]
fn image_dimensions(image: &image::DynamicImage) -> (r: (u32, u32))
    ensures
        r == image_size(*image),
{
    (image.width(), image.height())
}

/// Calls `image::DynamicImage::to_rgba8` and takes the bytes out. The contract
/// claims that they are the image's pixels.
#[verifier::external_body]
fn rgba_bytes(image: &image::DynamicImage) -> (r: Vec<u8>)
    ensures
        r@ == image_pixels(*image),
{
    image.to_rgba8().into_raw()
}

/// Formats an `image::ImageError` with its `Display`. The contract claims that the
/// text is the error's text.
#[verifier::external_body]
fn image_error_text(error: &image::ImageError) -> (r: String)
    ensures
        r@ == error_text(*error),
{
    error.to_string()
}

/// What optional bytes are.
pub open spec fn bytes_view(bytes: Option<Vec<u8>>) -> Option<Seq<u8>> {
    match bytes {
        Some(bytes) => Some(bytes@),
        None => None,
    }
}

/// The last position of a byte; -1 where there is none.
pub open spec fn last_position(bytes: Seq<u8>, wanted: u8) -> int
    decreases bytes.len(),
{
    if bytes.len() == 0 || bytes.last() == wanted {
        bytes.len() - 1
    } else {
        last_position(bytes.drop_last(), wanted)
    }
}

/// The slash between the parts of a path.
pub const SLASH: u8 = 0x2f;

/// The dot before an extension.
pub const DOT: u8 = 0x2e;

/// The name of a file: what follows the last slash of its path.
pub open spec fn file_name(path: Seq<u8>) -> Seq<u8> {
    path.skip(last_position(path, SLASH) + 1)
}

/// The extension of a file: what follows the last dot of its name, unless that dot
/// begins or ends the name.
pub open spec fn extension_of(path: Seq<u8>) -> Option<Seq<u8>> {
    let name = file_name(path);
    let dot = last_position(name, DOT);
    if dot <= 0 || dot == name.len() - 1 {
        None
    } else {
        Some(name.skip(dot + 1))
    }
}

proof fn lemma_last_position(bytes: Seq<u8>, wanted: u8, i: int)
    requires
        -1 <= i < bytes.len(),
        i >= 0 ==> bytes[i] == wanted,
        forall|j: int| i < j < bytes.len() ==> bytes[j] != wanted,
    ensures
        last_position(bytes, wanted) == i,
    decreases bytes.len(),
{
    if i < bytes.len() - 1 {
        lemma_last_position(bytes.drop_last(), wanted, i);
    }
}

/// The position after the last such byte from `from` on, or `from`.
fn after_last(bytes: &Vec<u8>, wanted: u8, from: usize) -> (r: usize)
    requires
        from <= bytes@.len(),
    ensures
        from <= r <= bytes@.len(),
        r == from + last_position(bytes@.skip(from as int), wanted) + 1,
{
    let mut i: usize = bytes.len();
    while i > from && bytes[i - 1] != wanted
        invariant
            from <= i <= bytes@.len(),
            forall|j: int| i <= j < bytes@.len() ==> bytes@[j] != wanted,
        decreases i,
    {
        i -= 1;
    }
    proof {
        lemma_last_position(bytes@.skip(from as int), wanted, i - from - 1);
    }
    i
}

/// The extension of a file.
fn extension(path: &Vec<u8>) -> (r: Option<Vec<u8>>)
    ensures
        bytes_view(r) == extension_of(path@),
{
    let name: usize = after_last(path, SLASH, 0);
    assert(path@.skip(0) =~= path@);
    let start: usize = after_last(path, DOT, name);
    if start - name <= 1 || start == path.len() {
        return None;
    }
    let mut r: Vec<u8> = Vec::new();
    let mut i: usize = start;
    while i < path.len()
        invariant
            start <= i <= path@.len(),
            r@ =~= path@.subrange(start as int, i as int),
        decreases path@.len() - i,
    {
        r.push(path[i]);
        i += 1;
    }
    assert(r@ =~= file_name(path@).skip(last_position(file_name(path@), DOT) + 1));
    Some(r)
}

/// The extension of a file as text; none where it is not in UTF-8.
pub open spec fn extension_text(path: Seq<u8>) -> Option<Seq<char>> {
    match extension_of(path) {
        Some(bytes) if valid_utf8(bytes) => Some(decode_utf8(bytes)),
        _ => None,
    }
}

/// The format of a file, or what is told where it has none: what the first bytes show
/// goes before what the extension says.
pub open spec fn format_of(path: Seq<u8>, data: Seq<u8>) -> Result<image::ImageFormat, Seq<char>> {
    match guessed_format(data) {
        Some(format) => Ok(format),
        None => match extension_text(path) {
            Some(extension) => match extension_format(extension) {
                Some(format) => Ok(format),
                None => Err(unrecognized_text(extension)),
            },
            None => Err("The image format could not be determined"@),
        },
    }
}

/// The format of a file.
pub fn file_format(path: &Vec<u8>, data: &Vec<u8>) -> (r: Result<image::ImageFormat, String>)
    ensures
        match r {
            Ok(format) => format_of(path@, data@) == Ok::<image::ImageFormat, Seq<char>>(format),
            Err(text) => format_of(path@, data@) == Err::<image::ImageFormat, Seq<char>>(text@),
        },
{
    match guess_format(data) {
        Some(format) => {
            return Ok(format);
        },
        None => {},
    }
    let extension = match extension(path) {
        Some(bytes) => utf8_text(&bytes),
        None => None,
    };
    match extension {
        Some(extension) => match format_of_extension(extension.as_str()) {
            Some(format) => Ok(format),
            None => Err(unrecognized_extension(extension.as_str())),
        },
        None => Err("The image format could not be determined".to_owned()),
    }
}

/// What decoding a file yields under the cache's limits.
pub open spec fn decoded_file(path: Seq<u8>, data: Seq<u8>) -> Result<
    (u32, u32, Seq<u8>),
    Seq<char>,
> {
    match format_of(path, data) {
        Ok(format) => decoded_image(
            data,
            format,
            MAX_IMAGE_SIDE,
            MAX_IMAGE_SIDE,
            MAX_IMAGE_BYTES as u64,
        ),
        Err(text) => Err(text),
    }
}

/// Whether a file is an image that the cache takes.
pub open spec fn is_acceptable(path: Seq<u8>, data: Seq<u8>) -> bool {
    match decoded_file(path, data) {
        Ok((w, h, _)) => w != 0 && h != 0 && w * h * 4 <= MAX_IMAGE_BYTES,
        Err(_) => false,
    }
}

/// Whether an error says why a file is not an image that the cache takes.
pub open spec fn is_refusal(path: Seq<u8>, data: Seq<u8>, error: ImageCacheError) -> bool {
    match decoded_file(path, data) {
        Ok((w, h, _)) => if w == 0 || h == 0 {
            error == ImageCacheError::ZeroDimensions
        } else {
            error == (ImageCacheError::TooLarge { width: w, height: h })
        },
        Err(text) => error matches ImageCacheError::Undecodable(reason) && reason@ == text,
    }
}

/// Whether an image is filed under its own path, has sides within the limit and
/// four bytes per pixel.
pub open spec fn is_sound(path: Seq<u8>, image: DecodedImage) -> bool {
    &&& image.path@ == path
    &&& 1 <= image.width <= MAX_IMAGE_SIDE
    &&& 1 <= image.height <= MAX_IMAGE_SIDE
    &&& image.rgba8@.len() == image.width * image.height * 4
}

/// Checks the size of a decoded image before its pixels are converted.
pub fn check_size(width: u32, height: u32) -> (r: Result<usize, ImageCacheError>)
    ensures
        match r {
            Ok(bytes) => {
                &&& width != 0
                &&& height != 0
                &&& bytes == width * height * 4
                &&& bytes <= MAX_IMAGE_BYTES
            },
            Err(error) => if width == 0 || height == 0 {
                error == ImageCacheError::ZeroDimensions
            } else {
                &&& width * height * 4 > MAX_IMAGE_BYTES
                &&& error == (ImageCacheError::TooLarge { width, height })
            },
        },
{
    if width == 0 || height == 0 {
        return Err(ImageCacheError::ZeroDimensions);
    }
    rgba_byte_len(width, height)
}

/// Decodes the contents of a file.
pub fn decode(path: Vec<u8>, fingerprint: (u128, u64), data: &Vec<u8>) -> (r: Result<
    DecodedImage,
    ImageCacheError,
>)
    ensures
        match r {
            Ok(decoded) => {
                &&& is_acceptable(path@, data@)
                &&& decoded_file(path@, data@) == Ok::<(u32, u32, Seq<u8>), Seq<char>>(
                    (decoded.width, decoded.height, decoded.rgba8@),
                )
                &&& decoded.path == path
                &&& decoded.fingerprint == fingerprint
                &&& is_sound(path@, decoded)
            },
            Err(error) => !is_acceptable(path@, data@) && is_refusal(path@, data@, error),
        },
{
    let format = match file_format(&path, data) {
        Ok(format) => format,
        Err(text) => {
            return Err(ImageCacheError::Undecodable(text));
        },
    };
    match decode_image(data, format, MAX_IMAGE_SIDE, MAX_IMAGE_SIDE, MAX_IMAGE_BYTES as u64) {
        Err(error) => Err(ImageCacheError::Undecodable(image_error_text(&error))),
        Ok(image) => {
            let (width, height) = image_dimensions(&image);
            match check_size(width, height) {
                Err(error) => Err(error),
                Ok(_) => Ok(
                    DecodedImage { path, width, height, rgba8: rgba_bytes(&image), fingerprint },
                ),
            }
        },
    }
}

// ---------------------------------------------------------------------------
// Byte accounting
// ---------------------------------------------------------------------------

/// Bytes of the images of several paths.
pub open spec fn bytes_of(images: Map<Seq<u8>, DecodedImage>, paths: Seq<Seq<u8>>) -> nat
    decreases paths.len(),
{
    if paths.len() == 0 {
        0
    } else {
        bytes_of(images, paths.drop_last()) + images[paths.last()].rgba8@.len()
    }
}

/// How many of the oldest images must go so that the others and the incoming
/// bytes fit.
pub open spec fn evict_count(
    images: Map<Seq<u8>, DecodedImage>,
    others: Seq<Seq<u8>>,
    incoming: nat,
) -> nat
    decreases others.len(),
{
    if others.len() == 0 || bytes_of(images, others) + incoming <= MAX_IMAGE_CACHE_BYTES {
        0
    } else {
        1 + evict_count(images, others.skip(1), incoming)
    }
}

proof fn lemma_bytes_first(images: Map<Seq<u8>, DecodedImage>, paths: Seq<Seq<u8>>)
    requires
        paths.len() > 0,
    ensures
        bytes_of(images, paths) == images[paths[0]].rgba8@.len() + bytes_of(images, paths.skip(1)),
    decreases paths.len(),
{
    if paths.len() == 1 {
        assert(paths.skip(1) =~= Seq::<Seq<u8>>::empty());
        assert(paths.drop_last() =~= Seq::<Seq<u8>>::empty());
    } else {
        lemma_bytes_first(images, paths.drop_last());
        assert(paths.drop_last().skip(1) =~= paths.skip(1).drop_last());
        assert(paths.skip(1).last() == paths.last());
    }
}

proof fn lemma_bytes_same(
    a: Map<Seq<u8>, DecodedImage>,
    b: Map<Seq<u8>, DecodedImage>,
    paths: Seq<Seq<u8>>,
)
    requires
        forall|i: int| 0 <= i < paths.len() ==> a[#[trigger] paths[i]] == b[paths[i]],
    ensures
        bytes_of(a, paths) == bytes_of(b, paths),
    decreases paths.len(),
{
    if paths.len() > 0 {
        assert forall|i: int| 0 <= i < paths.drop_last().len() implies a[#[trigger] paths.drop_last()[i]]
            == b[paths.drop_last()[i]] by {
            assert(paths.drop_last()[i] == paths[i]);
        }
        lemma_bytes_same(a, b, paths.drop_last());
        assert(paths.last() == paths[paths.len() - 1]);
    }
}

proof fn lemma_bytes_without(
    images: Map<Seq<u8>, DecodedImage>,
    paths: Seq<Seq<u8>>,
    path: Seq<u8>,
)
    requires
        paths.no_duplicates(),
    ensures
        bytes_of(images, paths) == bytes_of(images, keyed_map::without(paths, path)) + (
        if paths.contains(path) {
            images[path].rgba8@.len()
        } else {
            0
        }),
    decreases paths.len(),
{
    reveal(Seq::filter);
    if paths.len() > 0 {
        let init = paths.drop_last();
        lemma_bytes_without(images, init, path);
        assert(paths.contains(paths.last())) by {
            assert(paths[paths.len() - 1] == paths.last());
        }
        if paths.last() == path {
            assert(!init.contains(path)) by {
                if init.contains(path) {
                    let i = init.index_of(path);
                    assert(paths[i] == paths[paths.len() - 1]);
                }
            }
        } else {
            let kept = keyed_map::without(init, path);
            assert(kept.push(paths.last()).drop_last() =~= kept);
            assert(init.contains(path) <==> paths.contains(path)) by {
                if paths.contains(path) {
                    let i = paths.index_of(path);
                    assert(init[i] == path);
                }
                if init.contains(path) {
                    let i = init.index_of(path);
                    assert(paths[i] == path);
                }
            }
        }
    }
}

proof fn lemma_without_commutes(paths: Seq<Seq<u8>>, a: Seq<u8>, b: Seq<u8>)
    ensures
        keyed_map::without(keyed_map::without(paths, a), b) == keyed_map::without(
            keyed_map::without(paths, b),
            a,
        ),
    decreases paths.len(),
{
    reveal(Seq::filter);
    if paths.len() > 0 {
        let init = paths.drop_last();
        let x = paths.last();
        lemma_without_commutes(init, a, b);
        let wa = keyed_map::without(init, a);
        let wb = keyed_map::without(init, b);
        assert(wa.push(x).drop_last() =~= wa);
        assert(wb.push(x).drop_last() =~= wb);
    }
}

proof fn lemma_without_members(paths: Seq<Seq<u8>>, path: Seq<u8>)
    requires
        paths.no_duplicates(),
    ensures
        keyed_map::without(paths, path).no_duplicates(),
        forall|k: Seq<u8>| #[trigger]
            keyed_map::without(paths, path).contains(k) <==> paths.contains(k) && k != path,
        keyed_map::without(paths, path).len() <= paths.len(),
    decreases paths.len(),
{
    reveal(Seq::filter);
    if paths.len() > 0 {
        let init = paths.drop_last();
        let x = paths.last();
        lemma_without_members(init, path);
        let kept = keyed_map::without(init, path);
        let all = keyed_map::without(paths, path);
        assert(!init.contains(x)) by {
            if init.contains(x) {
                let i = init.index_of(x);
                assert(paths[i] == paths[paths.len() - 1]);
            }
        }
        assert forall|k: Seq<u8>| #[trigger] all.contains(k) <==> paths.contains(k) && k != path by {
            assert(paths.contains(k) <==> init.contains(k) || k == x) by {
                if init.contains(k) {
                    let i = init.index_of(k);
                    assert(paths[i] == k);
                }
                if paths.contains(k) && k != x {
                    let i = paths.index_of(k);
                    assert(init[i] == k);
                }
                assert(paths[paths.len() - 1] == x);
            }
            if x != path {
                assert(all == kept.push(x));
                assert(all.contains(k) <==> kept.contains(k) || k == x) by {
                    if kept.contains(k) {
                        let i = kept.index_of(k);
                        assert(all[i] == k);
                    }
                    if all.contains(k) && k != x {
                        let i = all.index_of(k);
                        assert(kept[i] == k);
                    }
                    assert(all[kept.len() as int] == x);
                }
            }
        }
        if x != path {
            assert(!kept.contains(x));
        }
    }
}

proof fn lemma_without_first(paths: Seq<Seq<u8>>)
    requires
        paths.no_duplicates(),
        paths.len() > 0,
    ensures
        keyed_map::without(paths, paths[0]) =~= paths.skip(1),
    decreases paths.len(),
{
    reveal(Seq::filter);
    let init = paths.drop_last();
    if paths.len() == 1 {
        assert(init =~= Seq::<Seq<u8>>::empty());
        assert(keyed_map::without(init, paths[0]) =~= Seq::<Seq<u8>>::empty());
        assert(paths.skip(1) =~= Seq::<Seq<u8>>::empty());
    } else {
        lemma_without_first(init);
        assert(init[0] == paths[0]);
        assert(paths.last() != paths[0]);
        assert(paths.skip(1) =~= init.skip(1).push(paths.last()));
    }
}

pub(crate) fn copy_bytes(v: &Vec<u8>) -> (r: Vec<u8>)
    ensures
        r@ == v@,
{
    let r = v.clone();
    assert(r@ =~= v@);
    r
}

/// Whether a list has a path.
pub open spec fn lists_path(list: Seq<Vec<u8>>, path: Seq<u8>) -> bool {
    exists|i: int| 0 <= i < list.len() && (#[trigger] list[i])@ == path
}

fn has_path(list: &Vec<Vec<u8>>, path: &Vec<u8>) -> (r: bool)
    ensures
        r == lists_path(list@, path@),
{
    let mut i: usize = 0;
    while i < list.len()
        invariant
            i <= list@.len(),
            forall|j: int| 0 <= j < i ==> (#[trigger] list@[j])@ != path@,
        decreases list@.len() - i,
    {
        if text::same_bytes(&list[i], path) {
            return true;
        }
        i += 1;
    }
    false
}

// ---------------------------------------------------------------------------
// The cache
// ---------------------------------------------------------------------------

/// Cache of decoded images and of recent failures.
pub struct ImageCache {
    entries: KeyedMap<Vec<u8>, DecodedImage>,
    failures: KeyedMap<Vec<u8>, FailedDecode>,
}

impl Default for ImageCache {
    fn default() -> (r: Self)
        ensures
            r.wf(),
            r.images() == Map::<Seq<u8>, DecodedImage>::empty(),
            r.failed() == Map::<Seq<u8>, FailedDecode>::empty(),
    {
        ImageCache::new()
    }
}

impl ImageCache {
    /// The cached images.
    pub closed spec fn images(self) -> Map<Seq<u8>, DecodedImage> {
        self.entries@
    }

    /// The paths of the cached images, oldest first.
    pub closed spec fn paths(self) -> Seq<Seq<u8>> {
        self.entries.order()
    }

    /// The recent failures.
    pub closed spec fn failed(self) -> Map<Seq<u8>, FailedDecode> {
        self.failures@
    }

    /// Nothing is listed twice, every image is sound and small enough, and all of
    /// them together stay within the budget.
    pub closed spec fn wf(self) -> bool {
        &&& self.entries.wf()
        &&& self.failures.wf()
        &&& forall|path: Seq<u8>| #[trigger]
            self.entries@.dom().contains(path) ==> is_sound(path, self.entries@[path])
                && self.entries@[path].rgba8@.len() <= MAX_IMAGE_BYTES
        &&& bytes_of(self.entries@, self.entries.order()) <= MAX_IMAGE_CACHE_BYTES
    }

    /// The cache never holds more than 128 MiB of pixels. Every image in it is filed
    /// under its own path, has sides of 1 to 8192 pixels and four bytes per pixel, and
    /// no more than 64 MiB.
    pub proof fn law_cached_images_are_sound(self)
        requires
            self.wf(),
        ensures
            bytes_of(self.images(), self.paths()) <= MAX_IMAGE_CACHE_BYTES,
            forall|path: Seq<u8>| #[trigger]
                self.images().dom().contains(path) ==> is_sound(path, self.images()[path])
                    && self.images()[path].rgba8@.len() <= MAX_IMAGE_BYTES,
            self.paths().no_duplicates(),
            forall|path: Seq<u8>|
                self.paths().contains(path) <==> #[trigger] self.images().dom().contains(path),
    {
        self.entries.lemma_order();
    }

    /// An empty cache.
    pub fn new() -> (r: Self)
        ensures
            r.wf(),
            r.images() == Map::<Seq<u8>, DecodedImage>::empty(),
            r.failed() == Map::<Seq<u8>, FailedDecode>::empty(),
            r.paths() == Seq::<Seq<u8>>::empty(),
    {
        ImageCache { entries: KeyedMap::new(), failures: KeyedMap::new() }
    }

    /// Whether the cached image is of this very state of the file.
    pub open spec fn is_current(self, path: Seq<u8>, fingerprint: (u128, u64)) -> bool {
        self.images().dom().contains(path) && self.images()[path].fingerprint == fingerprint
    }

    /// Whether this very state of the file failed recently.
    pub open spec fn is_cooling_down(
        self,
        path: Seq<u8>,
        fingerprint: (u128, u64),
        now: u64,
    ) -> bool {
        &&& self.failed().dom().contains(path)
        &&& self.failed()[path].fingerprint == fingerprint
        &&& cools(self.failed()[path], now)
    }

    /// Whether the contents of the file are needed: its state is neither cached nor
    /// cooling down.
    pub open spec fn wants_contents(
        self,
        path: Seq<u8>,
        fingerprint: (u128, u64),
        now: u64,
    ) -> bool {
        !self.is_current(path, fingerprint) && !self.is_cooling_down(path, fingerprint, now)
    }

    /// Whether the file's image is available, given what the file holds or why it
    /// could not be read.
    pub open spec fn offers(
        self,
        path: Seq<u8>,
        fingerprint: (u128, u64),
        contents: Result<Seq<u8>, Seq<char>>,
        now: u64,
    ) -> bool {
        if self.wants_contents(path, fingerprint, now) {
            contents is Ok && is_acceptable(path, contents->Ok_0)
        } else {
            self.is_current(path, fingerprint)
        }
    }

    /// What is told where the file's image is not available.
    pub open spec fn refusal_text(
        self,
        path: Seq<u8>,
        shown: Seq<char>,
        fingerprint: (u128, u64),
        contents: Result<Seq<u8>, Seq<char>>,
        now: u64,
    ) -> Seq<char> {
        if self.is_cooling_down(path, fingerprint, now) {
            cooldown_text(shown)
        } else {
            match contents {
                Err(reason) => reason,
                Ok(data) => match decoded_file(path, data) {
                    Err(reason) => reason,
                    Ok((w, h, _)) => if w == 0 || h == 0 {
                        "image has zero dimensions"@
                    } else {
                        too_large_text(w, h)
                    },
                },
            }
        }
    }

    fn current(&self, path: &Vec<u8>, fingerprint: (u128, u64)) -> (r: bool)
        requires
            self.wf(),
        ensures
            r == self.is_current(path@, fingerprint),
    {
        match self.entries.get(path) {
            Some(image) => image.fingerprint.0 == fingerprint.0 && image.fingerprint.1
                == fingerprint.1,
            None => false,
        }
    }

    fn cooling_down(&self, path: &Vec<u8>, fingerprint: (u128, u64), now: u64) -> (r: bool)
        requires
            self.wf(),
        ensures
            r == self.is_cooling_down(path@, fingerprint, now),
    {
        match self.failures.get(path) {
            Some(failed) => failed.fingerprint.0 == fingerprint.0 && failed.fingerprint.1
                == fingerprint.1 && elapsed_ns(now, failed.attempted) < DECODE_RETRY_COOLDOWN_NS,
            None => false,
        }
    }

    /// Whether [`ImageCache::get_or_decode`] needs the contents of the file.
    pub fn needs_contents(&self, path: &Vec<u8>, fingerprint: (u128, u64), now: u64) -> (r: bool)
        requires
            self.wf(),
        ensures
            r == self.wants_contents(path@, fingerprint, now),
    {
        !self.current(path, fingerprint) && !self.cooling_down(path, fingerprint, now)
    }

    /// The image of a file, decoded if the cache does not hold it in the file's
    /// current state. `contents` is what the file holds, or why it could not be
    /// read.
    pub fn get_or_decode(
        &mut self,
        path: Vec<u8>,
        fingerprint: (u128, u64),
        contents: Result<&Vec<u8>, String>,
        now: u64,
    ) -> (r: Result<&DecodedImage, ImageCacheError>)
        requires
            old(self).wf(),
        ensures
            final(self).wf(),
            fetched(*old(self), *final(self), path@, fingerprint, contents_view(contents), now),
            match r {
                Ok(image) => {
                    &&& old(self).offers(path@, fingerprint, contents_view(contents), now)
                    &&& final(self).is_current(path@, fingerprint)
                    &&& *image == final(self).images()[path@]
                },
                Err(error) => {
                    &&& !old(self).offers(path@, fingerprint, contents_view(contents), now)
                    &&& if old(self).is_cooling_down(path@, fingerprint, now) {
                        error == ImageCacheError::CoolingDown
                    } else {
                        match contents {
                            Ok(data) => is_refusal(path@, data@, error),
                            Err(reason) => error == ImageCacheError::Unreadable(reason),
                        }
                    }
                },
            },
    {
        if !self.current(&path, fingerprint) {
            if self.cooling_down(&path, fingerprint, now) {
                return Err(ImageCacheError::CoolingDown);
            }
            self.failures.remove(&path);
            let ghost cleared = *self;
            let outcome = match contents {
                Ok(data) => decode(copy_bytes(&path), fingerprint, data),
                Err(reason) => Err(ImageCacheError::Unreadable(reason)),
            };
            match outcome {
                Ok(decoded) => {
                    let inserted = self.insert_bounded(copy_bytes(&path), decoded);
                    proof {
                        assert(inserted is Ok);
                        assert(cleared.images() == old(self).images());
                        assert(cleared.paths() == old(self).paths());
                        assert(stored_at(cleared, *self, path@, decoded.rgba8@.len()));
                        let others = keyed_map::without(old(self).paths(), path@);
                        let gone = others.take(
                            evict_count(old(self).images(), others, decoded.rgba8@.len()) as int,
                        );
                        assert forall|k: Seq<u8>| #[trigger]
                            stays_at(*old(self), *self, path@, gone, k) by {
                            assert(stays_at(cleared, *self, path@, gone, k));
                        }
                    }
                },
                Err(error) => {
                    self.failures.insert(path, FailedDecode { fingerprint, attempted: now });
                    proof {
                        assert(self.failed() =~= old(self).failed().insert(
                            path@,
                            FailedDecode { fingerprint, attempted: now },
                        ));
                    }
                    return Err(error);
                },
            }
        }
        match self.entries.get(&path) {
            Some(image) => Ok(image),
            None => Err(ImageCacheError::TooManyBytes),
        }
    }

    /// Forgets a file.
    pub fn remove(&mut self, path: &Vec<u8>)
        requires
            old(self).wf(),
        ensures
            final(self).wf(),
            final(self).images() == old(self).images().remove(path@),
            final(self).paths() == keyed_map::without(old(self).paths(), path@),
            final(self).failed() == old(self).failed().remove(path@),
    {
        proof {
            self.entries.lemma_order();
            lemma_bytes_without(self.entries@, self.entries.order(), path@);
            lemma_without_members(self.entries.order(), path@);
        }
        self.entries.remove(path);
        self.failures.remove(path);
        proof {
            let kept = self.entries.order();
            assert forall|i: int| 0 <= i < kept.len() implies old(self).entries@[#[trigger] kept[i]]
                == self.entries@[kept[i]] by {
                assert(kept.contains(kept[i]));
            }
            lemma_bytes_same(old(self).entries@, self.entries@, kept);
        }
    }

    /// Forgets every file.
    pub fn clear(&mut self)
        requires
            old(self).wf(),
        ensures
            final(self).wf(),
            final(self).images() == Map::<Seq<u8>, DecodedImage>::empty(),
            final(self).failed() == Map::<Seq<u8>, FailedDecode>::empty(),
            final(self).paths() == Seq::<Seq<u8>>::empty(),
    {
        self.entries.clear();
        self.failures.clear();
    }

    /// Keeps the files whose path the predicate accepts.
    pub fn retain<P: Fn(&Vec<u8>) -> bool>(&mut self, keep: P)
        requires
            old(self).wf(),
            forall|p: Vec<u8>| #[trigger] keep.requires((&p,)),
        ensures
            final(self).wf(),
            forall|path: Seq<u8>| #[trigger]
                keyed_map::retained_at::<Vec<u8>, DecodedImage, P>(
                    old(self).images(),
                    final(self).images(),
                    keep,
                    path,
                ),
            forall|path: Seq<u8>| #[trigger]
                keyed_map::retained_at::<Vec<u8>, FailedDecode, P>(
                    old(self).failed(),
                    final(self).failed(),
                    keep,
                    path,
                ),
            final(self).paths() == old(self).paths().filter(
                |k: Seq<u8>| final(self).images().dom().contains(k),
            ),
    {
        let ghost before = *self;
        self.entries.retain(&keep);
        self.failures.retain(&keep);
        proof {
            assert forall|path: Seq<u8>| #[trigger] self.entries@.dom().contains(path) implies
                is_sound(path, self.entries@[path]) && self.entries@[path].rgba8@.len()
                <= MAX_IMAGE_BYTES by {
                assert(keyed_map::retained_at::<Vec<u8>, DecodedImage, P>(
                    before.entries@,
                    self.entries@,
                    keep,
                    path,
                ));
            }
            let kept = |k: Seq<u8>| self.entries@.dom().contains(k);
            lemma_bytes_filter(before.entries@, before.entries.order(), kept);
            let order = self.entries.order();
            self.entries.lemma_order();
            assert forall|i: int| 0 <= i < order.len() implies before.entries@[#[trigger] order[i]]
                == self.entries@[order[i]] by {
                assert(keyed_map::retained_at::<Vec<u8>, DecodedImage, P>(
                    before.entries@,
                    self.entries@,
                    keep,
                    order[i],
                ));
            }
            lemma_bytes_same(before.entries@, self.entries@, order);
        }
    }

    /// The files that failed recently, whatever their state is now.
    fn cooling_paths(&self, now: u64) -> (r: Vec<Vec<u8>>)
        requires
            self.wf(),
        ensures
            forall|path: Seq<u8>| #[trigger]
                lists_path(r@, path) <==> self.failed().dom().contains(path) && cools(
                    self.failed()[path],
                    now,
                ),
    {
        let mut r: Vec<Vec<u8>> = Vec::new();
        let mut i: usize = 0;
        let ghost order = self.failures.order();
        proof {
            self.failures.lemma_order();
        }
        while i < self.failures.len()
            invariant
                i <= order.len(),
                order == self.failures.order(),
                self.wf(),
                forall|path: Seq<u8>| #[trigger]
                    lists_path(r@, path) <==> exists|j: int|
                        0 <= j < i && (#[trigger] order[j]) == path && cools(
                            self.failures@[path],
                            now,
                        ),
            decreases order.len() - i,
        {
            let ghost before = r@;
            let failed = self.failures.value_at(i);
            if elapsed_ns(now, failed.attempted) < DECODE_RETRY_COOLDOWN_NS {
                r.push(copy_bytes(self.failures.key_at(i)));
            }
            proof {
                assert forall|path: Seq<u8>| #[trigger]
                    lists_path(r@, path) <==> exists|j: int|
                        0 <= j < i + 1 && (#[trigger] order[j]) == path && cools(
                            self.failures@[path],
                            now,
                        ) by {
                    assert(lists_path(before, path) <==> exists|j: int|
                        0 <= j < i && (#[trigger] order[j]) == path && cools(
                            self.failures@[path],
                            now,
                        ));
                    if lists_path(before, path) {
                        let k = choose|k: int| 0 <= k < before.len() && (#[trigger] before[k])@ == path;
                        assert(r@[k]@ == path);
                    }
                    if lists_path(r@, path) && !lists_path(before, path) {
                        let k = choose|k: int| 0 <= k < r@.len() && (#[trigger] r@[k])@ == path;
                        if k < before.len() {
                            assert(before[k]@ == path);
                        }
                        assert(order[i as int] == path);
                    }
                    if order[i as int] == path && cools(self.failures@[path], now) {
                        assert(r@[r@.len() - 1]@ == path);
                    }
                }
            }
            i += 1;
        }
        proof {
            assert forall|path: Seq<u8>| #[trigger]
                lists_path(r@, path) <==> self.failed().dom().contains(path) && cools(
                    self.failed()[path],
                    now,
                ) by {
                if self.failures@.dom().contains(path) {
                    assert(order.contains(path));
                    let j = order.index_of(path);
                    assert(order[j] == path);
                }
                if lists_path(r@, path) {
                    let j = choose|j: int|
                        0 <= j < i && (#[trigger] order[j]) == path && cools(
                            self.failures@[path],
                            now,
                        );
                    assert(order.contains(order[j]));
                }
            }
        }
        r
    }

    /// Forgets the files that are not listed, but not that one of them failed
    /// recently.
    pub fn prune(&mut self, listed: &Vec<Vec<u8>>, now: u64)
        requires
            old(self).wf(),
        ensures
            final(self).wf(),
            pruned(*old(self), *final(self), listed@, now),
            final(self).paths() == old(self).paths().filter(
                |k: Seq<u8>| final(self).images().dom().contains(k),
            ),
    {
        let ghost before = *self;
        let cooling = self.cooling_paths(now);
        let mut failures: KeyedMap<Vec<u8>, FailedDecode> = KeyedMap::new();
        std::mem::swap(&mut failures, &mut self.failures);
        let keep_image = |path: &Vec<u8>| -> (kept: bool)
            ensures
                kept == lists_path(listed@, path@),
            { has_path(listed, path) };
        let keep_failure = |path: &Vec<u8>| -> (kept: bool)
            ensures
                kept == (lists_path(listed@, path@) || lists_path(cooling@, path@)),
            { has_path(listed, path) || has_path(&cooling, path) };
        let ghost unfailed = *self;
        self.retain(keep_image);
        let ghost kept = *self;
        failures.retain(&keep_failure);
        self.failures = failures;
        proof {
            assert forall|path: Seq<u8>| #[trigger] pruned_at(before, *self, listed@, now, path) by {
                assert(keyed_map::retained_at(
                    unfailed.images(),
                    kept.images(),
                    keep_image,
                    path,
                ));
                assert(keyed_map::retained_at(
                    before.failed(),
                    self.failed(),
                    keep_failure,
                    path,
                ));
            }
        }
    }

    /// Stores a decoded image within the budget: the oldest other images make
    /// room for it. What failed recently stays known.
    pub fn insert_bounded(&mut self, path: Vec<u8>, decoded: DecodedImage) -> (r: Result<
        (),
        ImageCacheError,
    >)
        requires
            old(self).wf(),
            is_sound(path@, decoded),
        ensures
            final(self).wf(),
            match r {
                Ok(()) => {
                    &&& decoded.rgba8@.len() <= MAX_IMAGE_BYTES
                    &&& final(self).images().dom().contains(path@)
                    &&& final(self).images()[path@] == decoded
                    &&& final(self).failed() == old(self).failed()
                    &&& stored_at(*old(self), *final(self), path@, decoded.rgba8@.len())
                },
                Err(error) => {
                    &&& decoded.rgba8@.len() > MAX_IMAGE_BYTES
                    &&& error == ImageCacheError::TooManyBytes
                    &&& *final(self) == *old(self)
                },
            },
    {
        let incoming: usize = decoded.rgba8.len();
        if incoming > MAX_IMAGE_BYTES {
            return Err(ImageCacheError::TooManyBytes);
        }
        let ghost before = *self;
        let ghost all = self.entries.order();
        let ghost rest = keyed_map::without(all, path@);
        proof {
            self.entries.lemma_order();
            lemma_without_members(all, path@);
            lemma_bytes_without(self.entries@, all, path@);
        }
        let mut others: Vec<Vec<u8>> = Vec::new();
        let mut used: usize = 0;
        let mut i: usize = 0;
        assert(all.take(0) =~= Seq::<Seq<u8>>::empty());
        proof {
            reveal(Seq::filter);
        }
        while i < self.entries.len()
            invariant
                i <= all.len(),
                *self == before,
                before.wf(),
                all == self.entries.order(),
                all.no_duplicates(),
                bytes_of(self.entries@, rest) <= MAX_IMAGE_CACHE_BYTES,
                rest == keyed_map::without(all, path@),
                others@.map_values(|v: Vec<u8>| v@) =~= keyed_map::without(
                    all.take(i as int),
                    path@,
                ),
                used == bytes_of(self.entries@, keyed_map::without(all.take(i as int), path@)),
                used <= MAX_IMAGE_CACHE_BYTES,
            decreases all.len() - i,
        {
            proof {
                reveal(Seq::filter);
                let next = all.take(i + 1);
                assert(next.drop_last() =~= all.take(i as int));
                assert(next.last() == all[i as int]);
                let kept = keyed_map::without(all.take(i as int), path@);
                assert(kept.push(all[i as int]).drop_last() =~= kept);
                lemma_prefix_bytes(self.entries@, all, path@, i + 1);
            }
            let key = self.entries.key_at(i);
            let same = text::same_bytes(key, &path);
            if !same {
                let size: usize = self.entries.value_at(i).rgba8.len();
                others.push(copy_bytes(key));
                used = used + size;
            }
            i += 1;
        }
        assert(all.take(i as int) =~= all);
        let ghost names = others@.map_values(|v: Vec<u8>| v@);
        assert(names =~= rest);
        let ghost images0 = before.entries@;
        let total: usize = others.len();
        let mut n: usize = 0;
        assert(rest.skip(0) =~= rest);
        while used + incoming > MAX_IMAGE_CACHE_BYTES
            invariant
                n <= others@.len(),
                total == others@.len(),
                before == *old(self),
                before.wf(),
                incoming <= MAX_IMAGE_BYTES,
                images0 == before.entries@,
                all == before.entries.order(),
                all.no_duplicates(),
                rest == keyed_map::without(all, path@),
                rest.no_duplicates(),
                forall|k: Seq<u8>| rest.contains(k) <==> all.contains(k) && k != path@,
                forall|k: Seq<u8>| all.contains(k) <==> #[trigger] images0.dom().contains(k),
                rest == others@.map_values(|v: Vec<u8>| v@),
                used == bytes_of(images0, rest.skip(n as int)),
                used <= MAX_IMAGE_CACHE_BYTES,
                self.entries.wf(),
                self.failures == before.failures,
                keyed_map::without(self.entries.order(), path@) == rest.skip(n as int),
                evict_count(images0, rest, incoming as nat) == n + evict_count(
                    images0,
                    rest.skip(n as int),
                    incoming as nat,
                ),
                forall|k: Seq<u8>| #[trigger] survives(before, *self, rest.take(n as int), k),
            decreases others@.len() - n,
        {
            let ghost left = rest.skip(n as int);
            proof {
                assert(left.len() > 0) by {
                    if left.len() == 0 {
                        assert(bytes_of(images0, left) == 0);
                    }
                }
                assert(left[0] == rest[n as int]);
                assert(left.skip(1) =~= rest.skip(n + 1));
                lemma_bytes_first(images0, left);
                assert(left.no_duplicates()) by {
                    assert forall|a: int, b: int|
                        0 <= a < left.len() && 0 <= b < left.len() && a != b implies left[a]
                        != left[b] by {
                        assert(left[a] == rest[n + a]);
                        assert(left[b] == rest[n + b]);
                    }
                }
                lemma_without_first(left);
                lemma_without_commutes(self.entries.order(), rest[n as int], path@);
                assert(rest.contains(rest[n as int]));
                assert(images0.dom().contains(rest[n as int]));
                assert(survives(before, *self, rest.take(n as int), rest[n as int]));
                assert(!rest.take(n as int).contains(rest[n as int])) by {
                    if rest.take(n as int).contains(rest[n as int]) {
                        let j = rest.take(n as int).index_of(rest[n as int]);
                        assert(rest[j] == rest[n as int]);
                    }
                }
                assert(others@[n as int]@ == rest[n as int]);
            }
            let victim = &others[n];
            let ghost taken = rest.take(n as int);
            let ghost prior = *self;
            match self.entries.remove(victim) {
                Some(entry) => {
                    used = used - entry.rgba8.len();
                },
                None => {},
            }
            proof {
                let more = rest.take(n + 1);
                assert forall|k: Seq<u8>|
                    more.contains(k) <==> (taken.contains(k) || k == rest[n as int]) by {
                    assert(more[n as int] == rest[n as int]);
                    if taken.contains(k) {
                        let j = taken.index_of(k);
                        assert(more[j] == k);
                    }
                    if more.contains(k) && k != rest[n as int] {
                        let j = more.index_of(k);
                        assert(taken[j] == k);
                    }
                }
                assert forall|k: Seq<u8>| #[trigger] survives(before, *self, more, k) by {
                    assert(survives(before, prior, taken, k));
                }
            }
            n += 1;
        }
        let ghost last = *self;
        let ghost gone = rest.take(n as int);
        self.entries.insert(path, decoded);
        proof {
            assert(evict_count(images0, rest.skip(n as int), incoming as nat) == 0);
            let now_order = self.entries.order();
            self.entries.lemma_order();
            last.entries.lemma_order();
            lemma_bytes_without(self.entries@, now_order, path@);
            lemma_without_members(last.entries.order(), path@);
            assert(keyed_map::without(now_order, path@) =~= rest.skip(n as int)) by {
                reveal(Seq::filter);
                if !last.entries@.dom().contains(path@) {
                    assert(now_order.drop_last() =~= last.entries.order());
                }
            }
            let kept = rest.skip(n as int);
            assert forall|j: int| 0 <= j < kept.len() implies images0[#[trigger] kept[j]]
                == self.entries@[kept[j]] by {
                assert(kept[j] == rest[n + j]);
                assert(rest.contains(rest[n + j]));
                assert(!gone.contains(kept[j])) by {
                    if gone.contains(kept[j]) {
                        let m = gone.index_of(kept[j]);
                        assert(rest[m] == rest[n + j]);
                    }
                }
                assert(images0.dom().contains(kept[j]));
                assert(survives(before, last, gone, kept[j]));
                assert(kept[j] != path@);
            }
            lemma_bytes_same(images0, self.entries@, kept);
            assert forall|k: Seq<u8>| #[trigger] self.entries@.dom().contains(k) implies is_sound(
                k,
                self.entries@[k],
            ) && self.entries@[k].rgba8@.len() <= MAX_IMAGE_BYTES by {
                if k != path@ {
                    assert(survives(before, last, gone, k));
                    assert(before.entries@.dom().contains(k));
                }
            }
            assert(!gone.contains(path@)) by {
                if gone.contains(path@) {
                    let m = gone.index_of(path@);
                    assert(rest[m] == path@);
                    assert(rest.contains(path@));
                }
            }
            assert(survives(before, last, gone, path@));
            assert forall|k: Seq<u8>| #[trigger] stays_at(before, *self, path@, gone, k) by {
                assert(survives(before, last, gone, k));
                if gone.contains(k) {
                    let m = gone.index_of(k);
                    assert(rest[m] == k);
                    assert(rest.contains(k));
                }
            }
        }
        Ok(())
    }
}

proof fn lemma_bytes_filter(
    images: Map<Seq<u8>, DecodedImage>,
    paths: Seq<Seq<u8>>,
    kept: spec_fn(Seq<u8>) -> bool,
)
    ensures
        bytes_of(images, paths.filter(kept)) <= bytes_of(images, paths),
    decreases paths.len(),
{
    reveal(Seq::filter);
    if paths.len() > 0 {
        lemma_bytes_filter(images, paths.drop_last(), kept);
        let init = paths.drop_last().filter(kept);
        assert(init.push(paths.last()).drop_last() =~= init);
    }
}

spec fn survives(
    before: ImageCache,
    after: ImageCache,
    gone: Seq<Seq<u8>>,
    k: Seq<u8>,
) -> bool {
    &&& after.entries@.dom().contains(k) <==> before.entries@.dom().contains(k) && !gone.contains(k)
    &&& after.entries@.dom().contains(k) ==> after.entries@[k] == before.entries@[k]
}

proof fn lemma_prefix_bytes(
    images: Map<Seq<u8>, DecodedImage>,
    all: Seq<Seq<u8>>,
    path: Seq<u8>,
    i: int,
)
    requires
        0 <= i <= all.len(),
    ensures
        bytes_of(images, keyed_map::without(all.take(i), path)) <= bytes_of(
            images,
            keyed_map::without(all, path),
        ),
    decreases all.len() - i,
{
    reveal(Seq::filter);
    if i == all.len() {
        assert(all.take(i) =~= all);
    } else {
        lemma_prefix_bytes(images, all, path, i + 1);
        let kept = keyed_map::without(all.take(i), path);
        assert(all.take(i + 1).drop_last() =~= all.take(i));
        assert(kept.push(all[i]).drop_last() =~= kept);
    }
}

/// What the cache says about one path after an image of `path` was stored and the
/// images of `gone` made room.
pub open spec fn stays_at(
    before: ImageCache,
    after: ImageCache,
    path: Seq<u8>,
    gone: Seq<Seq<u8>>,
    k: Seq<u8>,
) -> bool {
    if gone.contains(k) {
        !after.images().dom().contains(k)
    } else if k == path {
        after.images().dom().contains(k)
    } else {
        &&& after.images().dom().contains(k) == before.images().dom().contains(k)
        &&& after.images().dom().contains(k) ==> after.images()[k] == before.images()[k]
    }
}

/// The cache after an image of `path` with so many bytes was stored: the oldest
/// other images, as many as needed and no more, made room, and everything else
/// stayed.
pub open spec fn stored_at(before: ImageCache, after: ImageCache, path: Seq<u8>, bytes: nat) -> bool {
    let others = keyed_map::without(before.paths(), path);
    let gone = others.take(evict_count(before.images(), others, bytes) as int);
    forall|k: Seq<u8>| #[trigger] stays_at(before, after, path, gone, k)
}

/// Whether a failure is so recent that the file, unchanged, is not tried again.
pub open spec fn cools(failure: FailedDecode, now: u64) -> bool {
    portal_captures::elapsed(now, failure.attempted) < DECODE_RETRY_COOLDOWN_NS
}

/// What the cache says about one path after it was pruned: its image stays where it is
/// listed, its failure where it is listed or recent.
pub open spec fn pruned_at(
    before: ImageCache,
    after: ImageCache,
    listed: Seq<Vec<u8>>,
    now: u64,
    path: Seq<u8>,
) -> bool {
    &&& after.images().dom().contains(path) <==> before.images().dom().contains(path)
        && lists_path(listed, path)
    &&& after.images().dom().contains(path) ==> after.images()[path] == before.images()[path]
    &&& after.failed().dom().contains(path) <==> before.failed().dom().contains(path) && (
    lists_path(listed, path) || cools(before.failed()[path], now))
    &&& after.failed().dom().contains(path) ==> after.failed()[path] == before.failed()[path]
}

/// The cache after it was pruned.
pub open spec fn pruned(
    before: ImageCache,
    after: ImageCache,
    listed: Seq<Vec<u8>>,
    now: u64,
) -> bool {
    forall|path: Seq<u8>| #[trigger] pruned_at(before, after, listed, now, path)
}

/// A broken image does not cause a decode per frame: a file that failed less than five
/// seconds ago is not decoded again in its present state, however often the cache was
/// pruned meanwhile and whatever is listed then. `now` is when the cache was pruned and
/// `later` when the file is asked for.
pub proof fn law_failure_outlives_pruning(
    before: ImageCache,
    after: ImageCache,
    listed: Seq<Vec<u8>>,
    path: Seq<u8>,
    fingerprint: (u128, u64),
    now: u64,
    later: u64,
)
    requires
        pruned(before, after, listed, now),
        now <= later,
        before.is_cooling_down(path, fingerprint, later),
    ensures
        after.is_cooling_down(path, fingerprint, later),
        !after.wants_contents(path, fingerprint, later),
{
    assert(pruned_at(before, after, listed, now, path));
}

/// What a file holds, or why it could not be read.
pub open spec fn contents_view(contents: Result<&Vec<u8>, String>) -> Result<Seq<u8>, Seq<char>> {
    match contents {
        Ok(data) => Ok(data@),
        Err(reason) => Err(reason@),
    }
}

/// The cache after the image of a file was asked for: one that is cached or cooling
/// down changes nothing, a decoded one is stored, and a failure is noted.
pub open spec fn fetched(
    before: ImageCache,
    after: ImageCache,
    path: Seq<u8>,
    fingerprint: (u128, u64),
    contents: Result<Seq<u8>, Seq<char>>,
    now: u64,
) -> bool {
    if !before.wants_contents(path, fingerprint, now) {
        after == before
    } else if before.offers(path, fingerprint, contents, now) {
        let image = after.images()[path];
        &&& after.is_current(path, fingerprint)
        &&& decoded_file(path, contents->Ok_0) == Ok::<(u32, u32, Seq<u8>), Seq<char>>(
            (image.width, image.height, image.rgba8@),
        )
        &&& after.failed() == before.failed().remove(path)
        &&& stored_at(before, after, path, image.rgba8@.len())
    } else {
        &&& after.images() == before.images()
        &&& after.paths() == before.paths()
        &&& after.failed() == before.failed().insert(
            path,
            FailedDecode { fingerprint, attempted: now },
        )
    }
}

/// An image that was handed out is of the file's present state, and the unchanged
/// file is not decoded again while its image is cached.
pub proof fn law_unchanged_file_is_decoded_once(
    before: ImageCache,
    after: ImageCache,
    path: Seq<u8>,
    fingerprint: (u128, u64),
    contents: Result<Seq<u8>, Seq<char>>,
    now: u64,
    later: u64,
)
    requires
        fetched(before, after, path, fingerprint, contents, now),
        before.offers(path, fingerprint, contents, now),
    ensures
        after.images()[path].fingerprint == fingerprint,
        !after.wants_contents(path, fingerprint, later),
{
}

/// A file that just failed is not decoded again within five seconds, as long as it
/// does not change.
pub proof fn law_failure_starts_the_cooldown(
    before: ImageCache,
    after: ImageCache,
    path: Seq<u8>,
    fingerprint: (u128, u64),
    contents: Result<Seq<u8>, Seq<char>>,
    now: u64,
    later: u64,
)
    requires
        fetched(before, after, path, fingerprint, contents, now),
        before.wants_contents(path, fingerprint, now),
        !before.offers(path, fingerprint, contents, now),
        portal_captures::elapsed(later, now) < DECODE_RETRY_COOLDOWN_NS,
    ensures
        !after.wants_contents(path, fingerprint, later),
{
}

/// A file that cools down keeps doing so, whatever other files are asked for
/// meanwhile and however often it is asked for itself.
pub proof fn law_failed_file_waits(
    before: ImageCache,
    after: ImageCache,
    failed: Seq<u8>,
    state: (u128, u64),
    path: Seq<u8>,
    fingerprint: (u128, u64),
    contents: Result<Seq<u8>, Seq<char>>,
    now: u64,
    later: u64,
)
    requires
        fetched(before, after, path, fingerprint, contents, now),
        path == failed ==> fingerprint == state && before.is_cooling_down(path, state, now),
        before.is_cooling_down(failed, state, later),
    ensures
        !after.wants_contents(failed, state, later),
{
}

/// A changed file is decoded at once, however recently its earlier state failed.
pub proof fn law_changed_file_retries_at_once(
    cache: ImageCache,
    path: Seq<u8>,
    old_state: (u128, u64),
    new_state: (u128, u64),
    now: u64,
)
    requires
        cache.is_cooling_down(path, old_state, now),
        old_state != new_state,
    ensures
        !cache.is_cooling_down(path, new_state, now),
{
}

/// A path's extension is what stands behind the last dot of its last part. A part
/// without a dot has none, nor has one that begins with its only dot or ends in one.
pub proof fn law_extension_follows_the_last_dot(folder: Seq<u8>, stem: Seq<u8>, extension: Seq<u8>)
    requires
        stem.len() > 0,
        extension.len() > 0,
        forall|i: int| 0 <= i < stem.len() ==> #[trigger] stem[i] != 0x2f,
        forall|i: int|
            0 <= i < extension.len() ==> #[trigger] extension[i] != 0x2f && extension[i] != 0x2e,
    ensures
        extension_of(folder + seq![0x2fu8] + stem + seq![0x2eu8] + extension) == Some(extension),
        extension_of(stem + seq![0x2eu8] + extension) == Some(extension),
        extension_of(folder + seq![0x2fu8] + extension) is None,
        extension_of(folder + seq![0x2fu8] + seq![0x2eu8] + extension) is None,
        extension_of(folder + seq![0x2fu8] + extension + seq![0x2eu8]) is None,
{
    let slash = seq![0x2fu8];
    let dot = seq![0x2eu8];
    let name = stem + dot + extension;
    lemma_last_position(name, DOT, stem.len() as int);
    assert(name.skip(stem.len() as int + 1) =~= extension);
    lemma_last_position(name, SLASH, -1);
    assert(name.skip(0) =~= name);
    let whole = folder + slash + stem + dot + extension;
    lemma_last_position(whole, SLASH, folder.len() as int);
    assert(whole.skip(folder.len() as int + 1) =~= name);
    let plain = folder + slash + extension;
    lemma_last_position(plain, SLASH, folder.len() as int);
    assert(plain.skip(folder.len() as int + 1) =~= extension);
    lemma_last_position(extension, DOT, -1);
    let hidden = dot + extension;
    let hidden_path = folder + slash + dot + extension;
    lemma_last_position(hidden_path, SLASH, folder.len() as int);
    assert(hidden_path.skip(folder.len() as int + 1) =~= hidden);
    lemma_last_position(hidden, DOT, 0);
    let open = extension + dot;
    let open_path = folder + slash + extension + dot;
    lemma_last_position(open_path, SLASH, folder.len() as int);
    assert(open_path.skip(folder.len() as int + 1) =~= open);
    lemma_last_position(open, DOT, extension.len() as int);
}

/// What a file holds says more about its format than its name: only where the contents
/// tell nothing is the extension asked, and a file that neither tells is refused.
pub proof fn law_contents_decide_before_the_name(path: Seq<u8>, data: Seq<u8>)
    ensures
        guessed_format(data) matches Some(format) ==> format_of(path, data) == Ok::<
            image::ImageFormat,
            Seq<char>,
        >(format),
        guessed_format(data) is None && extension_text(path) is Some ==> (format_of(path, data) is Ok
            <==> extension_format(extension_text(path)->0) is Some),
        guessed_format(data) is None && extension_text(path) is Some && format_of(path, data) is Ok
            ==> extension_format(extension_text(path)->0) == Some(format_of(path, data)->Ok_0),
        guessed_format(data) is None && extension_text(path) is None ==> format_of(path, data)
            is Err,
{
}

/// A file is decoded within 8192 pixels each way and 64 MiB, and kept where it has pixels
/// and these take no more than 64 MiB, four bytes each.
pub proof fn law_decoding_is_bounded(path: Seq<u8>, data: Seq<u8>)
    ensures
        format_of(path, data) matches Ok(format) ==> decoded_file(path, data) == decoded_image(
            data,
            format,
            8192,
            8192,
            67_108_864,
        ),
        format_of(path, data) is Err ==> decoded_file(path, data) is Err,
        decoded_file(path, data) is Err ==> !is_acceptable(path, data),
        match decoded_file(path, data) {
            Ok((w, h, _)) => is_acceptable(path, data) <==> w > 0 && h > 0 && 4 * (w * h)
                <= 67_108_864,
            Err(_) => true,
        },
{
    match decoded_file(path, data) {
        Ok((w, h, _)) => {
            assert(w * h * 4 == 4 * (w * h)) by (nonlinear_arith);
        },
        Err(_) => {},
    }
}

/// A file is read exactly where the cache has it not in the state that it is in, and did
/// not fail on that very state within the last five seconds.
pub proof fn law_file_is_read_where_it_is_new(
    cache: ImageCache,
    path: Seq<u8>,
    fingerprint: (u128, u64),
    now: u64,
)
    ensures
        ({
            let held = cache.images().dom().contains(path) && cache.images()[path].fingerprint
                == fingerprint;
            let failed = cache.failed().dom().contains(path) && cache.failed()[path].fingerprint
                == fingerprint && now < cache.failed()[path].attempted + 5_000_000_000;
            &&& cache.wants_contents(path, fingerprint, now) <==> !held && !failed
            &&& cache.is_cooling_down(path, fingerprint, now) <==> failed
        }),
{
}

/// A picture is offered where the cache has the file in its state, or else where the file
/// may be read, was read and holds an acceptable image.
pub proof fn law_picture_is_offered_where_it_can_be_had(
    cache: ImageCache,
    path: Seq<u8>,
    fingerprint: (u128, u64),
    contents: Result<Seq<u8>, Seq<char>>,
    now: u64,
)
    ensures
        cache.images().dom().contains(path) && cache.images()[path].fingerprint == fingerprint
            ==> cache.offers(path, fingerprint, contents, now),
        cache.offers(path, fingerprint, contents, now) && !(cache.images().dom().contains(path)
            && cache.images()[path].fingerprint == fingerprint) ==> contents is Ok
            && is_acceptable(path, contents->Ok_0) && !cache.is_cooling_down(
            path,
            fingerprint,
            now,
        ),
        cache.wants_contents(path, fingerprint, now) && contents is Ok && is_acceptable(
            path,
            contents->Ok_0,
        ) ==> cache.offers(path, fingerprint, contents, now),
{
}

/// The oldest pictures give way until the rest and the new one take no more than 128 MiB
/// together, and no more of them than that needs.
pub proof fn law_oldest_give_way_as_needed(
    images: Map<Seq<u8>, DecodedImage>,
    others: Seq<Seq<u8>>,
    incoming: nat,
)
    ensures
        ({
            let n = evict_count(images, others, incoming) as int;
            &&& 0 <= n <= others.len()
            &&& n == others.len() || bytes_of(images, others.skip(n)) + incoming <= 134_217_728
            &&& n > 0 ==> bytes_of(images, others.skip(n - 1)) + incoming > 134_217_728
        }),
    decreases others.len(),
{
    let n = evict_count(images, others, incoming) as int;
    assert(others.skip(0) =~= others);
    if others.len() > 0 && bytes_of(images, others) + incoming > 134_217_728 {
        let rest = others.skip(1);
        law_oldest_give_way_as_needed(images, rest, incoming);
        assert(rest.skip(n - 1) =~= others.skip(n));
        if n > 1 {
            assert(rest.skip(n - 2) =~= others.skip(n - 1));
        }
    }
}

/// Storing a picture drops the oldest of the others, as many as must give way, and leaves
/// the rest as it was.
pub proof fn law_storing_drops_the_oldest(
    before: ImageCache,
    after: ImageCache,
    path: Seq<u8>,
    bytes: nat,
    i: int,
    k: Seq<u8>,
)
    requires
        stored_at(before, after, path, bytes),
        0 <= i < keyed_map::without(before.paths(), path).len(),
    ensures
        ({
            let others = keyed_map::without(before.paths(), path);
            let n = evict_count(before.images(), others, bytes);
            &&& i < n ==> !after.images().dom().contains(others[i])
            &&& k != path && !others.take(n as int).contains(k) ==> {
                &&& after.images().dom().contains(k) == before.images().dom().contains(k)
                &&& before.images().dom().contains(k) ==> after.images()[k] == before.images()[k]
            }
        }),
{
    let others = keyed_map::without(before.paths(), path);
    let n = evict_count(before.images(), others, bytes) as int;
    law_oldest_give_way_as_needed(before.images(), others, bytes);
    let gone = others.take(n);
    assert(stays_at(before, after, path, gone, others[i]));
    assert(stays_at(before, after, path, gone, k));
    if i < n {
        assert(gone[i] == others[i]);
    }
}

/// Pruning keeps the pictures that are listed as they are, and drops the others; what is
/// known of a failure stays for a listed file, and for any other while it still counts.
pub proof fn law_pruning_keeps_what_is_listed(
    before: ImageCache,
    after: ImageCache,
    listed: Seq<Vec<u8>>,
    now: u64,
    i: int,
    path: Seq<u8>,
)
    requires
        pruned(before, after, listed, now),
        0 <= i < listed.len(),
    ensures
        before.images().dom().contains(listed[i]@) ==> after.images().dom().contains(listed[i]@)
            && after.images()[listed[i]@] == before.images()[listed[i]@],
        before.failed().dom().contains(listed[i]@) ==> after.failed().dom().contains(listed[i]@),
        (forall|j: int| 0 <= j < listed.len() ==> (#[trigger] listed[j])@ != path)
            ==> !after.images().dom().contains(path),
        (forall|j: int| 0 <= j < listed.len() ==> (#[trigger] listed[j])@ != path) ==> (
        after.failed().dom().contains(path) <==> before.failed().dom().contains(path) && now
            < before.failed()[path].attempted + 5_000_000_000),
{
    assert(pruned_at(before, after, listed, now, listed[i]@));
    assert(pruned_at(before, after, listed, now, path));
    assert(lists_path(listed, listed[i]@));
}

/// An image that fits beside the cached ones evicts nothing.
pub proof fn law_no_needless_eviction(cache: ImageCache, path: Seq<u8>, bytes: nat)
    requires
        bytes_of(cache.images(), keyed_map::without(cache.paths(), path)) + bytes
            <= MAX_IMAGE_CACHE_BYTES,
    ensures
        evict_count(cache.images(), keyed_map::without(cache.paths(), path), bytes) == 0,
{
}

} // verus!
