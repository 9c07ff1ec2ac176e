//! Choices that the Vulkan renderer makes from what the driver reports, and the
//! checks that a frame passes before it is imported or uploaded.

use vstd::prelude::*;
use vstd::string::*;

use crate::linux::DRM_FORMAT_MOD_INVALID;
use crate::render_loop::Extent;
use crate::text;
use crate::text::{binary, decimal, hexadecimal, joined, same_bytes};

verus! {

pub const DRM_FORMAT_XRGB8888: u32 = 0x3432_5258;

pub const DRM_FORMAT_ARGB8888: u32 = 0x3432_5241;

pub const DRM_FORMAT_XBGR8888: u32 = 0x3432_4258;

pub const DRM_FORMAT_ABGR8888: u32 = 0x3432_4241;

pub const DRM_FORMAT_NV12: u32 = 0x3231_564e;

// ---------------------------------------------------------------------------
// Device
// ---------------------------------------------------------------------------

/// What a queue family can do.
#[derive(Clone, Copy, Debug, PartialEq, Eq, Structural)]
pub struct QueueFamily {
    pub graphics: bool,
    pub presents_program: bool,
    pub presents_preview: bool,
}

/// A device as the driver describes it. `extensions` is an error where the query
/// failed.
#[derive(Debug)]
pub struct DeviceInfo {
    pub extensions: Result<Vec<Vec<u8>>, String>,
    pub ycbcr_conversion: bool,
    pub families: Vec<QueueFamily>,
}

/// Whether a queue family draws and presents both surfaces.
pub open spec fn serves(family: QueueFamily) -> bool {
    family.graphics && family.presents_program && family.presents_preview
}

/// Whether a name is in a list.
pub open spec fn has_name(names: Seq<Vec<u8>>, name: Seq<u8>) -> bool {
    exists|i: int| 0 <= i < names.len() && (#[trigger] names[i])@ == name
}

/// Whether all required names are in a list.
pub open spec fn has_all_names(names: Seq<Vec<u8>>, required: Seq<Vec<u8>>) -> bool {
    forall|i: int| 0 <= i < required.len() ==> has_name(names, (#[trigger] required[i])@)
}

/// Whether a device with queried extensions can be used.
pub open spec fn is_suitable(device: DeviceInfo, required: Seq<Vec<u8>>) -> bool {
    &&& device.extensions is Ok
    &&& has_all_names(device.extensions->Ok_0@, required)
    &&& device.ycbcr_conversion
    &&& exists|k: int| 0 <= k < device.families@.len() && serves(#[trigger] device.families@[k])
}

/// `k` is the first queue family of the device that serves.
pub open spec fn is_first_family(device: DeviceInfo, k: int) -> bool {
    &&& 0 <= k < device.families@.len()
    &&& serves(device.families@[k])
    &&& forall|j: int| 0 <= j < k ==> !serves(#[trigger] device.families@[j])
}

/// Whether a device was looked at and passed over.
pub open spec fn is_passed_over(device: DeviceInfo, required: Seq<Vec<u8>>) -> bool {
    device.extensions is Ok && !is_suitable(device, required)
}

/// Whether the search ends at a device: all before it were passed over.
pub open spec fn stops_at(devices: Seq<DeviceInfo>, required: Seq<Vec<u8>>, i: int) -> bool {
    &&& 0 <= i < devices.len()
    &&& !is_passed_over(devices[i], required)
    &&& forall|j: int| 0 <= j < i ==> is_passed_over(#[trigger] devices[j], required)
}

/// What is told where no device meets the requirements.
pub open spec fn no_device_text() -> Seq<char> {
    "no Vulkan device supports the required extensions and features and can present both surfaces"@
}

/// What is told where the extensions of a device could not be queried.
pub open spec fn query_error_text(error: Seq<char>) -> Seq<char> {
    "query device extensions: "@ + error
}

/// A device serves only where it knows every required extension, can convert the colours
/// of media frames and has one family of queues that draws and presents to both surfaces.
/// One that lacks any of these does not serve, and one that has them all does.
pub proof fn law_device_needs_everything(device: DeviceInfo, required: Seq<Vec<u8>>, i: int, k: int)
    requires
        device.extensions is Ok,
        0 <= k < device.families@.len(),
    ensures
        0 <= i < required.len() && (forall|j: int|
            0 <= j < device.extensions->Ok_0@.len() ==> (
            #[trigger] device.extensions->Ok_0@[j])@ != required[i]@) ==> !is_suitable(
            device,
            required,
        ),
        !device.ycbcr_conversion ==> !is_suitable(device, required),
        (forall|j: int|
            0 <= j < device.families@.len() ==> !((#[trigger] device.families@[j]).graphics
                && device.families@[j].presents_program && device.families@[j].presents_preview))
            ==> !is_suitable(device, required),
        device.ycbcr_conversion && device.families@[k].graphics
            && device.families@[k].presents_program && device.families@[k].presents_preview && (
        forall|n: int|
            0 <= n < required.len() ==> has_name(
                device.extensions->Ok_0@,
                (#[trigger] required[n])@,
            )) ==> is_suitable(device, required),
{
    if is_suitable(device, required) && 0 <= i < required.len() {
        assert(has_name(device.extensions->Ok_0@, required[i]@));
    }
    if device.families@[k].graphics && device.families@[k].presents_program
        && device.families@[k].presents_preview {
        assert(serves(device.families@[k]));
    }
}

/// The search for a device passes over those that do not serve and stops at the first that
/// does, or at one that does not tell what it knows.
pub proof fn law_search_stops_at_the_first_that_serves(
    devices: Seq<DeviceInfo>,
    required: Seq<Vec<u8>>,
    i: int,
)
    requires
        0 <= i < devices.len(),
    ensures
        stops_at(devices, required, i) <==> (devices[i].extensions is Err || is_suitable(
            devices[i],
            required,
        )) && (forall|j: int|
            0 <= j < i ==> (#[trigger] devices[j]).extensions is Ok && !is_suitable(
                devices[j],
                required,
            )),
{
    if stops_at(devices, required, i) {
        assert forall|j: int| 0 <= j < i implies (#[trigger] devices[j]).extensions is Ok
            && !is_suitable(devices[j], required) by {
            assert(is_passed_over(devices[j], required));
        }
    }
    if forall|j: int|
        0 <= j < i ==> (#[trigger] devices[j]).extensions is Ok && !is_suitable(
            devices[j],
            required,
        ) {
        assert forall|j: int| 0 <= j < i implies is_passed_over(#[trigger] devices[j], required) by {
            assert(devices[j].extensions is Ok);
        }
    }
}

fn name_listed(names: &Vec<Vec<u8>>, name: &Vec<u8>) -> (r: bool)
    ensures
        r == has_name(names@, name@),
{
    let mut i: usize = 0;
    while i < names.len()
        invariant
            i <= names@.len(),
            forall|j: int| 0 <= j < i ==> (#[trigger] names@[j])@ != name@,
        decreases names@.len() - i,
    {
        if same_bytes(&names[i], name) {
            return true;
        }
        i += 1;
    }
    false
}

fn all_names_listed(names: &Vec<Vec<u8>>, required: &Vec<Vec<u8>>) -> (r: bool)
    ensures
        r == has_all_names(names@, required@),
{
    let mut i: usize = 0;
    while i < required.len()
        invariant
            i <= required@.len(),
            forall|j: int| 0 <= j < i ==> has_name(names@, (#[trigger] required@[j])@),
        decreases required@.len() - i,
    {
        if !name_listed(names, &required[i]) {
            assert(!has_name(names@, required@[i as int]@));
            return false;
        }
        i += 1;
    }
    true
}

fn first_family(families: &Vec<QueueFamily>) -> (r: Option<usize>)
    ensures
        match r {
            Some(k) => {
                &&& k < families@.len()
                &&& serves(families@[k as int])
                &&& forall|j: int| 0 <= j < k ==> !serves(#[trigger] families@[j])
            },
            None => forall|j: int| 0 <= j < families@.len() ==> !serves(#[trigger] families@[j]),
        },
{
    let mut k: usize = 0;
    while k < families.len()
        invariant
            k <= families@.len(),
            forall|j: int| 0 <= j < k ==> !serves(#[trigger] families@[j]),
        decreases families@.len() - k,
    {
        let family = families[k];
        if family.graphics && family.presents_program && family.presents_preview {
            return Some(k);
        }
        k += 1;
    }
    None
}

/// The first suitable device and its first queue family that serves. A device whose
/// extensions cannot be queried ends the search.
pub fn choose_device(devices: &Vec<DeviceInfo>, required: &Vec<Vec<u8>>) -> (r: Result<
    (usize, usize),
    String,
>)
    ensures
        match r {
            Ok((i, k)) => {
                &&& stops_at(devices@, required@, i as int)
                &&& is_suitable(devices@[i as int], required@)
                &&& is_first_family(devices@[i as int], k as int)
                &&& devices@[i as int].ycbcr_conversion
                &&& devices@[i as int].families@[k as int].graphics
                &&& devices@[i as int].families@[k as int].presents_program
                &&& devices@[i as int].families@[k as int].presents_preview
            },
            Err(reason) => {
                ||| exists|i: int| #[trigger]
                    stops_at(devices@, required@, i) && devices@[i].extensions is Err && reason@
                        == query_error_text(devices@[i].extensions->Err_0@)
                ||| {
                    &&& forall|j: int|
                        0 <= j < devices@.len() ==> is_passed_over(#[trigger] devices@[j], required@)
                    &&& reason@ == no_device_text()
                }
            },
        },
{
    let mut i: usize = 0;
    while i < devices.len()
        invariant
            i <= devices@.len(),
            forall|j: int| 0 <= j < i ==> is_passed_over(#[trigger] devices@[j], required@),
        decreases devices@.len() - i,
    {
        let device = &devices[i];
        match &device.extensions {
            Err(error) => {
                assert(stops_at(devices@, required@, i as int));
                return Err(joined("query device extensions: ", error.as_str()));
            },
            Ok(extensions) => {
                if all_names_listed(extensions, required) && device.ycbcr_conversion {
                    match first_family(&device.families) {
                        Some(k) => {
                            assert(serves(device.families@[k as int]));
                            return Ok((i, k));
                        },
                        None => {},
                    }
                }
            },
        }
        assert(is_passed_over(devices@[i as int], required@));
        i += 1;
    }
    Err(
        "no Vulkan device supports the required extensions and features and can present both surfaces".to_owned(),
    )
}

// ---------------------------------------------------------------------------
// Swapchain
// ---------------------------------------------------------------------------

/// Position of the first format with the preferred number, else the first format.
pub fn choose_format(formats: &Vec<i32>, preferred: i32) -> (r: Result<usize, String>)
    ensures
        match r {
            Ok(i) => {
                &&& i < formats@.len()
                &&& if formats@.contains(preferred) {
                    formats@[i as int] == preferred && forall|j: int|
                        0 <= j < i ==> formats@[j] != preferred
                } else {
                    i == 0
                }
            },
            Err(reason) => formats@.len() == 0 && reason@ == "surface has no Vulkan formats"@,
        },
{
    let mut i: usize = 0;
    while i < formats.len()
        invariant
            i <= formats@.len(),
            forall|j: int| 0 <= j < i ==> formats@[j] != preferred,
        decreases formats@.len() - i,
    {
        if formats[i] == preferred {
            assert(formats@.contains(preferred));
            return Ok(i);
        }
        i += 1;
    }
    if formats.len() == 0 {
        Err("surface has no Vulkan formats".to_owned())
    } else {
        Ok(0)
    }
}

/// What a surface allows.
#[derive(Clone, Copy, Debug, PartialEq, Eq, Structural)]
pub struct SurfaceLimits {
    pub current: Extent,
    pub min: Extent,
    pub max: Extent,
    pub min_images: u32,
    /// Zero stands for no limit.
    pub max_images: u32,
}

/// `value` brought into the range from `low` to `high`.
pub open spec fn clamped(value: u32, low: u32, high: u32) -> u32 {
    if value < low {
        low
    } else if value > high {
        high
    } else {
        value
    }
}

fn clamp(value: u32, low: u32, high: u32) -> (r: u32)
    requires
        low <= high,
    ensures
        r == clamped(value, low, high),
        low <= r <= high,
{
    if value < low {
        low
    } else if value > high {
        high
    } else {
        value
    }
}

/// The size of a swapchain: the surface's own where it has one, else the wanted
/// size within the surface's limits.
pub fn choose_extent(limits: SurfaceLimits, wanted: Extent) -> (r: Extent)
    requires
        limits.current.width == u32::MAX ==> limits.min.width <= limits.max.width
            && limits.min.height <= limits.max.height,
    ensures
        r == (if limits.current.width != u32::MAX {
            limits.current
        } else {
            Extent {
                width: clamped(wanted.width, limits.min.width, limits.max.width),
                height: clamped(wanted.height, limits.min.height, limits.max.height),
            }
        }),
        limits.current.width == u32::MAX ==> {
            &&& limits.min.width <= r.width <= limits.max.width
            &&& limits.min.height <= r.height <= limits.max.height
            &&& limits.min.width <= wanted.width <= limits.max.width ==> r.width == wanted.width
            &&& limits.min.height <= wanted.height <= limits.max.height ==> r.height
                == wanted.height
            &&& wanted.width > limits.max.width ==> r.width == limits.max.width
            &&& wanted.height > limits.max.height ==> r.height == limits.max.height
        },
{
    if limits.current.width != u32::MAX {
        limits.current
    } else {
        Extent {
            width: clamp(wanted.width, limits.min.width, limits.max.width),
            height: clamp(wanted.height, limits.min.height, limits.max.height),
        }
    }
}

/// How many images a swapchain has: one more than the surface needs, unless that
/// is more than it allows.
pub open spec fn images_of(limits: SurfaceLimits) -> int {
    if limits.min_images == u32::MAX || (limits.max_images != 0 && limits.min_images
        == limits.max_images) {
        limits.min_images as int
    } else {
        limits.min_images + 1
    }
}

/// How many images a swapchain has.
pub fn image_count(limits: SurfaceLimits) -> (r: u32)
    requires
        limits.max_images == 0 || limits.min_images <= limits.max_images,
    ensures
        r == images_of(limits),
{
    let wanted: u32 = limits.min_images.saturating_add(1);
    let high: u32 = if limits.max_images == 0 {
        u32::MAX
    } else {
        limits.max_images
    };
    clamp(wanted, limits.min_images, high)
}

/// A swapchain never has fewer images than its surface needs nor more than it
/// allows.
pub proof fn law_image_count_is_allowed(limits: SurfaceLimits)
    requires
        limits.max_images == 0 || limits.min_images <= limits.max_images,
    ensures
        limits.min_images <= images_of(limits),
        limits.max_images != 0 ==> images_of(limits) <= limits.max_images,
{
}

// ---------------------------------------------------------------------------
// Memory
// ---------------------------------------------------------------------------

/// One image more than the surface needs is asked for, so that drawing need not wait,
/// unless the surface allows no more.
pub proof fn law_one_image_to_spare(limits: SurfaceLimits)
    ensures
        limits.min_images < u32::MAX && (limits.max_images == 0 || limits.max_images
            > limits.min_images) ==> images_of(limits) == limits.min_images + 1,
        limits.max_images == limits.min_images && limits.max_images != 0 ==> images_of(limits)
            == limits.min_images,
{
}

/// Whether a memory type is among the allowed ones.
pub open spec fn is_allowed(bits: u32, index: int) -> bool {
    bits & (1u32 << (index as u32)) != 0
}

/// Whether a memory type has all required properties.
pub open spec fn has_properties(flags: u32, required: u32) -> bool {
    flags & required == required
}

/// `i` is the first allowed memory type with the required properties.
pub open spec fn is_first_type(types: Seq<u32>, bits: u32, required: u32, i: int) -> bool {
    &&& 0 <= i < types.len()
    &&& is_allowed(bits, i) && has_properties(types[i], required)
    &&& forall|j: int|
        0 <= j < i ==> !(is_allowed(bits, j) && has_properties(#[trigger] types[j], required))
}

/// Whether any allowed memory type has the required properties.
pub open spec fn has_type(types: Seq<u32>, bits: u32, required: u32) -> bool {
    exists|i: int|
        0 <= i < types.len() && is_allowed(bits, i) && has_properties(#[trigger] types[i], required)
}

/// What is told where no allowed memory type has the required properties.
pub open spec fn no_memory_text(bits: u32, required: u32) -> Seq<char> {
    "no Vulkan memory type with bits 0b"@ + text::binary_digits(bits as nat) + " satisfying 0x"@
        + text::hex_digits(required as nat)
}

fn first_type(types: &Vec<u32>, bits: u32, required: u32) -> (r: Option<u32>)
    requires
        types@.len() <= 32,
    ensures
        match r {
            Some(i) => is_first_type(types@, bits, required, i as int),
            None => !has_type(types@, bits, required),
        },
{
    let mut i: usize = 0;
    while i < types.len()
        invariant
            i <= types@.len() <= 32,
            forall|j: int|
                0 <= j < i ==> !(is_allowed(bits, j) && has_properties(
                    #[trigger] types@[j],
                    required,
                )),
        decreases types@.len() - i,
    {
        let index: u32 = i as u32;
        if bits & (1u32 << index) != 0 && types[i] & required == required {
            return Some(index);
        }
        i += 1;
    }
    None
}

/// The first allowed memory type with the required properties.
pub fn find_memory_type(types: &Vec<u32>, bits: u32, required: u32) -> (r: Result<u32, String>)
    requires
        types@.len() <= 32,
    ensures
        match r {
            Ok(i) => is_first_type(types@, bits, required, i as int),
            Err(reason) => !has_type(types@, bits, required) && reason@ == no_memory_text(
                bits,
                required,
            ),
        },
        r matches Ok(i) ==> {
            &&& i < types@.len()
            &&& bits & (1u32 << i) != 0
            &&& types@[i as int] & required == required
        },
{
    match first_type(types, bits, required) {
        Some(i) => Ok(i),
        None => {
            let mut reason = joined(
                "no Vulkan memory type with bits 0b",
                binary(bits as u64).as_str(),
            );
            reason.append(" satisfying 0x");
            reason.append(hexadecimal(required as u64).as_str());
            Err(reason)
        },
    }
}

/// The first allowed memory type with the required properties, else the first
/// allowed one. Imported memory works with any allowed type.
pub fn find_memory_type_any(types: &Vec<u32>, bits: u32, required: u32) -> (r: Result<u32, String>)
    requires
        types@.len() <= 32,
    ensures
        match r {
            Ok(i) => if has_type(types@, bits, required) {
                is_first_type(types@, bits, required, i as int)
            } else {
                is_first_type(types@, bits, 0, i as int)
            },
            Err(reason) => {
                &&& !has_type(types@, bits, required)
                &&& !has_type(types@, bits, 0)
                &&& reason@ == "no compatible Vulkan memory type"@
            },
        },
{
    match first_type(types, bits, required) {
        Some(i) => {
            assert(has_properties(types@[i as int], required));
            Ok(i)
        },
        None => match first_type(types, bits, 0) {
            Some(i) => Ok(i),
            None => Err("no compatible Vulkan memory type".to_owned()),
        },
    }
}

/// Imported memory finds a type wherever one is allowed, whatever its properties.
pub proof fn law_any_allowed_type_serves(types: Seq<u32>, bits: u32, i: int)
    requires
        0 <= i < types.len(),
        is_allowed(bits, i),
    ensures
        has_type(types, bits, 0),
{
    let flags = types[i];
    assert(flags & 0 == 0) by (bit_vector);
    assert(has_properties(types[i], 0));
}

// ---------------------------------------------------------------------------
// Imports
// ---------------------------------------------------------------------------

/// A memory type is allowed where the bit of its place is set, and serves where it has
/// every property that is asked for: two properties exactly where it has each.
pub proof fn law_memory_type_has_its_bit_and_properties(
    bits: u32,
    index: u32,
    flags: u32,
    one: u32,
    two: u32,
)
    requires
        index < 32,
    ensures
        is_allowed(bits, index as int) <==> (bits >> index) & 1 == 1,
        has_properties(flags, one | two) <==> has_properties(flags, one) && has_properties(
            flags,
            two,
        ),
        has_properties(flags, 0),
        has_properties(flags, flags),
        one & flags == 0 && one != 0 ==> !has_properties(flags, one),
{
    assert(bits & (1u32 << index) != 0 <==> (bits >> index) & 1 == 1) by (bit_vector)
        requires
            index < 32,
    ;
    assert(index as int as u32 == index);
    assert(flags & (one | two) == (one | two) <==> (flags & one == one && flags & two == two))
        by (bit_vector);
    assert((flags & 0 == 0) && (flags & flags == flags) && (one & flags == 0 && one != 0 ==> flags
        & one != one)) by (bit_vector);
}

/// The byte order of a packed 32-bit image.
#[derive(Clone, Copy, Debug, PartialEq, Eq, Structural)]
pub enum PackedFormat {
    Bgra8,
    Rgba8,
}

/// The image format of a DRM code.
pub open spec fn packed_format(drm: u32) -> Option<PackedFormat> {
    if drm == DRM_FORMAT_XRGB8888 || drm == DRM_FORMAT_ARGB8888 {
        Some(PackedFormat::Bgra8)
    } else if drm == DRM_FORMAT_XBGR8888 || drm == DRM_FORMAT_ABGR8888 {
        Some(PackedFormat::Rgba8)
    } else {
        None
    }
}

/// The four packed formats are known: those that begin with blue in memory and those
/// that begin with red, each with opacity or without.
pub proof fn law_known_formats(drm: u32)
    ensures
        packed_format(0x3432_5258) == Some(PackedFormat::Bgra8),
        packed_format(0x3432_5241) == Some(PackedFormat::Bgra8),
        packed_format(0x3432_4258) == Some(PackedFormat::Rgba8),
        packed_format(0x3432_4241) == Some(PackedFormat::Rgba8),
        drm != 0x3432_5258 && drm != 0x3432_5241 && drm != 0x3432_4258 && drm != 0x3432_4241
            ==> packed_format(drm) is None,
{
}

/// The image format of a DRM code.
pub fn drm_to_vk(format: u32) -> (r: Option<PackedFormat>)
    ensures
        r == packed_format(format),
{
    if format == DRM_FORMAT_XRGB8888 || format == DRM_FORMAT_ARGB8888 {
        Some(PackedFormat::Bgra8)
    } else if format == DRM_FORMAT_XBGR8888 || format == DRM_FORMAT_ABGR8888 {
        Some(PackedFormat::Rgba8)
    } else {
        None
    }
}

/// Where a plane lies in its memory.
#[derive(Clone, Copy, Debug, PartialEq, Eq, Structural)]
pub struct PlaneLayout {
    pub offset: u64,
    pub size: u64,
    pub row_pitch: u64,
}

/// Offset and stride of a plane.
#[derive(Clone, Copy, Debug, PartialEq, Eq, Structural)]
pub struct PlaneInfo {
    pub offset: u32,
    pub stride: u32,
}

/// The layout of a plane with so many rows.
pub open spec fn layout_of(plane: PlaneInfo, rows: int) -> PlaneLayout {
    PlaneLayout {
        offset: plane.offset as u64,
        size: (plane.stride * rows) as u64,
        row_pitch: plane.stride as u64,
    }
}

fn plane_layout(plane: PlaneInfo, rows: u32) -> (r: PlaneLayout)
    ensures
        r == layout_of(plane, rows as int),
{
    assert(plane.stride as u64 * rows as u64 <= 0xffff_fffe_0000_0001) by (nonlinear_arith)
        requires
            plane.stride as u64 <= 0xffff_ffff,
            rows as u64 <= 0xffff_ffff,
    ;
    PlaneLayout {
        offset: plane.offset as u64,
        size: plane.stride as u64 * rows as u64,
        row_pitch: plane.stride as u64,
    }
}

/// How a captured frame is imported. `opaque_alpha` replaces the undefined alpha
/// byte of the formats without alpha.
#[derive(Clone, Copy, Debug, PartialEq, Eq, Structural)]
pub struct ImportPlan {
    pub format: PackedFormat,
    pub opaque_alpha: bool,
    pub layout: PlaneLayout,
}

/// Why a frame cannot be imported.
#[derive(Clone, Copy, Debug, PartialEq, Eq, Structural)]
pub enum ImportError {
    UnsupportedFormat,
    ModifierNotFixated,
    NotOnePlane,
    UnsupportedMediaFormat(u32),
    InvalidMediaModifier,
    NotTwoPlanes(usize),
}

/// What is told about a frame that cannot be imported.
pub open spec fn import_error_text(error: ImportError) -> Seq<char> {
    match error {
        ImportError::UnsupportedFormat => "unsupported DMA-BUF DRM format"@,
        ImportError::ModifierNotFixated => "DMA-BUF modifier was not fixated by PipeWire"@,
        ImportError::NotOnePlane => "packed RGB DMA-BUF must expose exactly one image plane"@,
        ImportError::UnsupportedMediaFormat(drm) => "unsupported media DMA-BUF DRM format: 0x"@
            + text::hex_digits(drm as nat),
        ImportError::InvalidMediaModifier => "media DMA-BUF modifier is invalid"@,
        ImportError::NotTwoPlanes(n) => "NV12 DMA-BUF requires two planes, received "@
            + text::decimal_digits(n as nat),
    }
}

impl ImportError {
    /// What is told about the frame.
    pub fn message(&self) -> (r: String)
        ensures
            r@ == import_error_text(*self),
    {
        match self {
            ImportError::UnsupportedFormat => "unsupported DMA-BUF DRM format".to_owned(),
            ImportError::ModifierNotFixated =>
                "DMA-BUF modifier was not fixated by PipeWire".to_owned(),
            ImportError::NotOnePlane =>
                "packed RGB DMA-BUF must expose exactly one image plane".to_owned(),
            ImportError::UnsupportedMediaFormat(drm) => {
                let digits = hexadecimal(*drm as u64);
                joined("unsupported media DMA-BUF DRM format: 0x", digits.as_str())
            },
            ImportError::InvalidMediaModifier => "media DMA-BUF modifier is invalid".to_owned(),
            ImportError::NotTwoPlanes(n) => {
                let digits = decimal(*n as u64);
                joined("NV12 DMA-BUF requires two planes, received ", digits.as_str())
            },
        }
    }
}

/// How a captured frame is imported: its format is known, its modifier fixed, and
/// it has exactly one plane.
pub fn plan_import(drm_format: u32, modifier: u64, planes: &Vec<PlaneInfo>, height: u32) -> (r:
    Result<ImportPlan, ImportError>)
    ensures
        r == (if packed_format(drm_format) is None {
            Err::<ImportPlan, ImportError>(ImportError::UnsupportedFormat)
        } else if modifier == DRM_FORMAT_MOD_INVALID {
            Err(ImportError::ModifierNotFixated)
        } else if planes@.len() != 1 {
            Err(ImportError::NotOnePlane)
        } else {
            Ok(
                ImportPlan {
                    format: packed_format(drm_format)->0,
                    opaque_alpha: drm_format == DRM_FORMAT_XRGB8888 || drm_format
                        == DRM_FORMAT_XBGR8888,
                    layout: layout_of(planes@[0], height as int),
                },
            )
        }),
        modifier == 0x00ff_ffff_ffff_ffff ==> r is Err,
        r matches Ok(plan) ==> {
            &&& plan.opaque_alpha <==> drm_format == 0x3432_5258 || drm_format == 0x3432_4258
            &&& plan.layout.offset == planes@[0].offset
            &&& plan.layout.row_pitch == planes@[0].stride
            &&& plan.layout.size == planes@[0].stride * height
        },
{
    let format = match drm_to_vk(drm_format) {
        Some(format) => format,
        None => {
            return Err(ImportError::UnsupportedFormat);
        },
    };
    if modifier == DRM_FORMAT_MOD_INVALID {
        return Err(ImportError::ModifierNotFixated);
    }
    if planes.len() != 1 {
        return Err(ImportError::NotOnePlane);
    }
    proof {
        law_planes_take_their_rows(planes@[0], height);
    }
    Ok(
        ImportPlan {
            format,
            opaque_alpha: drm_format == DRM_FORMAT_XRGB8888 || drm_format == DRM_FORMAT_XBGR8888,
            layout: plane_layout(planes[0], height),
        },
    )
}

/// Rows of the chroma plane of an image with so many rows: half, rounded up.
pub open spec fn chroma_rows(height: u32) -> int {
    (height as int + 1) / 2
}

/// The colour plane has half as many rows as the picture, one more where the picture's
/// are odd in number; each plane takes its stride for every row.
pub proof fn law_planes_take_their_rows(plane: PlaneInfo, height: u32)
    ensures
        height <= 2 * chroma_rows(height) <= height + 1,
        layout_of(plane, height as int).size == plane.stride * height,
        layout_of(plane, height as int).offset == plane.offset,
        layout_of(plane, height as int).row_pitch == plane.stride,
{
    assert(0 <= plane.stride * height <= 0xffff_ffff * 0xffff_ffff) by (nonlinear_arith)
        requires
            0 <= plane.stride <= 0xffff_ffff,
            0 <= height <= 0xffff_ffff,
    ;
}

/// Checks the format of a decoded video frame before its planes are looked up.
pub fn check_media_format(drm_format: u32, modifier: u64) -> (r: Result<(), ImportError>)
    ensures
        r == (if drm_format != DRM_FORMAT_NV12 {
            Err::<(), ImportError>(ImportError::UnsupportedMediaFormat(drm_format))
        } else if modifier == DRM_FORMAT_MOD_INVALID {
            Err(ImportError::InvalidMediaModifier)
        } else {
            Ok(())
        }),
{
    if drm_format != DRM_FORMAT_NV12 {
        return Err(ImportError::UnsupportedMediaFormat(drm_format));
    }
    if modifier == DRM_FORMAT_MOD_INVALID {
        return Err(ImportError::InvalidMediaModifier);
    }
    Ok(())
}

/// Where the luma and chroma planes of a decoded video frame lie.
pub fn plan_media_import(planes: &Vec<PlaneInfo>, height: u32) -> (r: Result<
    (PlaneLayout, PlaneLayout),
    ImportError,
>)
    ensures
        r == (if planes@.len() != 2 {
            Err::<(PlaneLayout, PlaneLayout), ImportError>(
                ImportError::NotTwoPlanes(planes@.len() as usize),
            )
        } else {
            Ok(
                (
                    layout_of(planes@[0], height as int),
                    layout_of(planes@[1], chroma_rows(height)),
                ),
            )
        }),
{
    if planes.len() != 2 {
        return Err(ImportError::NotTwoPlanes(planes.len()));
    }
    let rows: u32 = height / 2 + height % 2;
    assert(rows == chroma_rows(height));
    Ok((plane_layout(planes[0], height), plane_layout(planes[1], rows)))
}

// ---------------------------------------------------------------------------
// Uploads
// ---------------------------------------------------------------------------

/// Checks a picture before it is uploaded and returns its size in bytes.
pub fn check_upload(width: u32, height: u32, bytes: usize) -> (r: Result<usize, String>)
    ensures
        match r {
            Ok(size) => {
                &&& width != 0
                &&& height != 0
                &&& bytes == width * height * 4
                &&& size == bytes
            },
            Err(reason) => if width * height * 4 > usize::MAX {
                reason@ == "static texture dimensions overflow"@
            } else {
                &&& width == 0 || height == 0 || bytes != width * height * 4
                &&& reason@ == "static texture has invalid dimensions or byte length"@
            },
        },
{
    let w: usize = width as usize;
    let h: usize = height as usize;
    match w.checked_mul(h) {
        Some(pixels) => match pixels.checked_mul(4) {
            Some(expected) => {
                if width == 0 || height == 0 || bytes != expected {
                    Err("static texture has invalid dimensions or byte length".to_owned())
                } else {
                    Ok(expected)
                }
            },
            None => Err("static texture dimensions overflow".to_owned()),
        },
        None => {
            assert(w * h * 4 >= w * h) by (nonlinear_arith)
                requires
                    w * h >= 0,
            ;
            Err("static texture dimensions overflow".to_owned())
        },
    }
}

} // verus!
