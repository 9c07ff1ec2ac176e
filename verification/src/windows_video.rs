//! Direct3D rendering and Windows capture: what can go wrong, what is created and
//! what is checked before and after each call into the system.
//!
//! System handles are type parameters; nothing here looks inside them.

use vstd::prelude::*;
use vstd::string::*;

use crate::text;
use crate::text::{characters, joined, same_ignoring_case};
use crate::text_raster;
use crate::text_raster::channel;

verus! {

/// `DXGI_FORMAT_R16G16B16A16_FLOAT`.
pub const FLOAT16_FORMAT: u32 = 10;

/// Why a Windows source or device does not work.
#[derive(Debug)]
pub enum WindowsVideoError {
    SourceUnavailable(String),
    DeviceCreation(String),
    InvalidSceneTexture,
    CaptureApi(String),
    SwapChain(String),
    UnsupportedImage(String),
    UnsupportedMedia(String),
}

/// What an error says.
pub enum ErrorView {
    SourceUnavailable(Seq<char>),
    DeviceCreation(Seq<char>),
    InvalidSceneTexture,
    CaptureApi(Seq<char>),
    SwapChain(Seq<char>),
    UnsupportedImage(Seq<char>),
    UnsupportedMedia(Seq<char>),
}

impl View for WindowsVideoError {
    type V = ErrorView;

    open spec fn view(&self) -> ErrorView {
        match *self {
            WindowsVideoError::SourceUnavailable(m) => ErrorView::SourceUnavailable(m@),
            WindowsVideoError::DeviceCreation(m) => ErrorView::DeviceCreation(m@),
            WindowsVideoError::InvalidSceneTexture => ErrorView::InvalidSceneTexture,
            WindowsVideoError::CaptureApi(m) => ErrorView::CaptureApi(m@),
            WindowsVideoError::SwapChain(m) => ErrorView::SwapChain(m@),
            WindowsVideoError::UnsupportedImage(m) => ErrorView::UnsupportedImage(m@),
            WindowsVideoError::UnsupportedMedia(m) => ErrorView::UnsupportedMedia(m@),
        }
    }
}

/// The message of an error.
pub open spec fn message_of(error: ErrorView) -> Seq<char> {
    match error {
        ErrorView::SourceUnavailable(m) => "source unavailable: "@ + m,
        ErrorView::DeviceCreation(m) => "D3D11 device creation failed: "@ + m,
        ErrorView::InvalidSceneTexture => "invalid Float16 scene texture descriptor"@,
        ErrorView::CaptureApi(m) => "Windows Graphics Capture failed: "@ + m,
        ErrorView::SwapChain(m) => "DXGI swapchain failed: "@ + m,
        ErrorView::UnsupportedImage(m) => "unsupported image: "@ + m,
        ErrorView::UnsupportedMedia(m) => "unsupported media: "@ + m,
    }
}

impl WindowsVideoError {
    /// The message of the error.
    pub fn message(&self) -> (r: String)
        ensures
            r@ == message_of(self@),
    {
        match self {
            WindowsVideoError::SourceUnavailable(m) => joined("source unavailable: ", m.as_str()),
            WindowsVideoError::DeviceCreation(m) => joined(
                "D3D11 device creation failed: ",
                m.as_str(),
            ),
            WindowsVideoError::InvalidSceneTexture => {
                "invalid Float16 scene texture descriptor".to_owned()
            },
            WindowsVideoError::CaptureApi(m) => joined(
                "Windows Graphics Capture failed: ",
                m.as_str(),
            ),
            WindowsVideoError::SwapChain(m) => joined("DXGI swapchain failed: ", m.as_str()),
            WindowsVideoError::UnsupportedImage(m) => joined("unsupported image: ", m.as_str()),
            WindowsVideoError::UnsupportedMedia(m) => joined("unsupported media: ", m.as_str()),
        }
    }
}

/// The error of a result, as far as it failed.
pub open spec fn error_view<T>(result: Result<T, WindowsVideoError>) -> Option<ErrorView> {
    match result {
        Ok(_) => None,
        Err(e) => Some(e@),
    }
}

/// How a scene texture is made.
#[derive(Clone, Copy, Debug, PartialEq, Eq, Structural)]
pub struct SceneTextureDescriptor {
    pub width: u32,
    pub height: u32,
    pub format: u32,
    pub render_target: bool,
    pub shader_resource: bool,
}

/// Whether a scene texture can be made: it has an area and holds half-precision
/// colours.
pub open spec fn valid_scene_texture(descriptor: SceneTextureDescriptor) -> bool {
    descriptor.width != 0 && descriptor.height != 0 && descriptor.format == FLOAT16_FORMAT
}

impl SceneTextureDescriptor {
    /// A half-precision texture that can be drawn to and sampled.
    pub fn float16(width: u32, height: u32) -> (r: Self)
        ensures
            r == (SceneTextureDescriptor {
                width,
                height,
                format: FLOAT16_FORMAT,
                render_target: true,
                shader_resource: true,
            }),
    {
        SceneTextureDescriptor {
            width,
            height,
            format: FLOAT16_FORMAT,
            render_target: true,
            shader_resource: true,
        }
    }

    /// Refuses a descriptor without an area or of another format.
    pub fn check(&self) -> (r: Result<(), WindowsVideoError>)
        ensures
            error_view(r) == (if valid_scene_texture(*self) {
                None
            } else {
                Some(ErrorView::InvalidSceneTexture)
            }),
    {
        if self.width == 0 || self.height == 0 || self.format != FLOAT16_FORMAT {
            Err(WindowsVideoError::InvalidSceneTexture)
        } else {
            Ok(())
        }
    }
}

/// Only a texture with pixels and of the half-precision format, which has the number 10,
/// can hold a scene.
pub proof fn law_scene_texture_is_half_precision(descriptor: SceneTextureDescriptor)
    ensures
        descriptor.format != 10 ==> !valid_scene_texture(descriptor),
        descriptor.width == 0 || descriptor.height == 0 ==> !valid_scene_texture(descriptor),
        descriptor.format == 10 && descriptor.width > 0 && descriptor.height > 0
            ==> valid_scene_texture(descriptor),
{
}

/// A half-precision descriptor is valid exactly where the texture has an area.
pub proof fn law_float16_is_valid(width: u32, height: u32)
    ensures
        valid_scene_texture(
            SceneTextureDescriptor {
                width,
                height,
                format: FLOAT16_FORMAT,
                render_target: true,
                shader_resource: true,
            },
        ) <==> width > 0 && height > 0,
{
}

/// A device with its immediate context.
pub struct D3d11Device<D, C> {
    pub device: D,
    pub immediate_context: C,
    pub feature_level: i32,
}

impl<D, C> D3d11Device<D, C> {
    /// What `D3D11CreateDevice` handed out, once `dxgi` has told whether the device
    /// is a DXGI device.
    pub fn from_parts(
        device: Option<D>,
        dxgi: Result<(), String>,
        immediate_context: Option<C>,
        feature_level: i32,
    ) -> (r: Result<Self, WindowsVideoError>)
        ensures
            match r {
                Ok(made) => {
                    &&& device == Some(made.device)
                    &&& dxgi is Ok
                    &&& immediate_context == Some(made.immediate_context)
                    &&& made.feature_level == feature_level
                },
                Err(e) => e@ == ErrorView::DeviceCreation(
                    if device is None {
                        "D3D11 returned no device"@
                    } else if dxgi is Err {
                        dxgi->Err_0@
                    } else {
                        "D3D11 returned no immediate context"@
                    },
                ),
            },
            r is Ok <==> device is Some && dxgi is Ok && immediate_context is Some,
    {
        match (device, dxgi, immediate_context) {
            (None, _, _) => Err(
                WindowsVideoError::DeviceCreation("D3D11 returned no device".to_owned()),
            ),
            (Some(_), Err(reason), _) => Err(WindowsVideoError::DeviceCreation(reason)),
            (Some(_), Ok(()), None) => Err(
                WindowsVideoError::DeviceCreation("D3D11 returned no immediate context".to_owned()),
            ),
            (Some(device), Ok(()), Some(immediate_context)) => Ok(
                D3d11Device { device, immediate_context, feature_level },
            ),
        }
    }
}

/// The row length and the size in bytes of a 32-bit image; none where one of them
/// is beyond 32 bits.
pub fn image_layout(width: u32, height: u32) -> (r: Result<(u32, u32), WindowsVideoError>)
    ensures
        match r {
            Ok((stride, size)) => stride == width * 4 && size == width * 4 * height,
            Err(e) => e@ == ErrorView::UnsupportedImage(
                if width * 4 > u32::MAX {
                    "image stride overflow"@
                } else {
                    "image size overflow"@
                },
            ),
        },
        r is Ok <==> width * 4 <= u32::MAX && width * 4 * height <= u32::MAX,
{
    let stride: u32 = match width.checked_mul(4) {
        Some(stride) => stride,
        None => {
            return Err(WindowsVideoError::UnsupportedImage("image stride overflow".to_owned()));
        },
    };
    match stride.checked_mul(height) {
        Some(size) => Ok((stride, size)),
        None => Err(WindowsVideoError::UnsupportedImage("image size overflow".to_owned())),
    }
}

/// A window's swapchain with its back buffer.
pub struct SwapChainTarget<S, B> {
    pub swap_chain: S,
    pub back_buffer: B,
}

/// A swapchain needs a window.
pub fn check_target_window(hwnd: usize) -> (r: Result<(), WindowsVideoError>)
    ensures
        error_view(r) == (if hwnd == 0 {
            Some(ErrorView::SwapChain("target window handle is null"@))
        } else {
            None
        }),
{
    if hwnd == 0 {
        Err(WindowsVideoError::SwapChain("target window handle is null".to_owned()))
    } else {
        Ok(())
    }
}

/// Rendering needs the program and the preview window.
pub fn check_surfaces(program: usize, preview: usize) -> (r: Result<(), WindowsVideoError>)
    ensures
        error_view(r) == (if program == 0 || preview == 0 {
            Some(
                ErrorView::SwapChain("Programm- und Preview-Fensterhandles sind erforderlich"@),
            )
        } else {
            None
        }),
{
    if program == 0 || preview == 0 {
        Err(
            WindowsVideoError::SwapChain(
                "Programm- und Preview-Fensterhandles sind erforderlich".to_owned(),
            ),
        )
    } else {
        Ok(())
    }
}

/// A captured frame with its texture.
pub struct D3d11CapturedFrame<T, F> {
    pub texture: T,
    pub frame: F,
}

/// A duplicated desktop with the texture that its frames are copied to.
pub struct DisplayCapture<D, T> {
    pub duplication: D,
    pub texture: Option<T>,
}

/// The text of an adapter's identifier: both halves with eight hexadecimal digits.
pub open spec fn luid_text(high: u32, low: u32) -> Seq<char> {
    padded_hex(high) + ":"@ + padded_hex(low)
}

/// A 32-bit number with eight hexadecimal digits.
pub open spec fn padded_hex(n: u32) -> Seq<char> {
    zeros((8 - text::hex_digits(n as nat).len()) as int) + text::hex_digits(n as nat)
}

/// So many zeros.
pub open spec fn zeros(n: int) -> Seq<char> {
    Seq::new(
        if n > 0 {
            n as nat
        } else {
            0
        },
        |i: int| '0',
    )
}

/// An adapter's number is written as two groups of eight digits with a colon between them,
/// the higher half first, filled up with zeros in front.
pub proof fn law_adapter_number_has_two_groups(high: u32, low: u32, i: int)
    ensures
        luid_text(high, low).len() == 17,
        luid_text(high, low)[8] == ':',
        luid_text(high, low).take(8) == padded_hex(high),
        luid_text(high, low).skip(9) == padded_hex(low),
        0 <= i < 8 - text::hex_digits(high as nat).len() ==> padded_hex(high)[i] == '0',
        padded_hex(high).skip(8 - text::hex_digits(high as nat).len()) == text::hex_digits(
            high as nat,
        ),
{
    reveal_strlit(":");
    lemma_eight_digits(high);
    lemma_eight_digits(low);
    assert(luid_text(high, low).take(8) =~= padded_hex(high));
    assert(luid_text(high, low).skip(9) =~= padded_hex(low));
    assert(padded_hex(high).skip(8 - text::hex_digits(high as nat).len()) =~= text::hex_digits(
        high as nat,
    ));
}

proof fn lemma_eight_digits(n: u32)
    ensures
        1 <= text::hex_digits(n as nat).len() <= 8,
        padded_hex(n).len() == 8,
{
    reveal_with_fuel(text::hex_digits, 8);
    let a = n as nat;
    assert(a / 16 / 16 / 16 / 16 / 16 / 16 / 16 < 16);
}

fn eight_hex_digits(n: u32) -> (r: Vec<char>)
    ensures
        r@ == padded_hex(n),
{
    let digits = text::hexadecimal(n as u64);
    let digits = characters(digits.as_str());
    let mut r: Vec<char> = Vec::new();
    let mut i: usize = digits.len();
    while i < 8
        invariant
            digits@.len() <= i,
            digits@.len() >= 8 ==> r@.len() == 0 && i == digits@.len(),
            digits@.len() < 8 ==> i <= 8,
            r@.len() == i - digits@.len(),
            forall|j: int| 0 <= j < r@.len() ==> r@[j] == '0',
        decreases 8 - i,
    {
        r.push('0');
        i += 1;
    }
    let ghost pad = r@;
    let mut k: usize = 0;
    while k < digits.len()
        invariant
            k <= digits@.len(),
            r@ == pad + digits@.take(k as int),
        decreases digits@.len() - k,
    {
        r.push(digits[k]);
        assert(r@ =~= pad + digits@.take(k + 1));
        k += 1;
    }
    assert(r@ =~= padded_hex(n));
    r
}

/// Whether a display hangs on the adapter that renders.
pub fn is_adapter(high: u32, low: u32, adapter_luid: &str) -> (r: bool)
    ensures
        r == text::equal_ignoring_case(luid_text(high, low), adapter_luid@),
{
    let mut own = eight_hex_digits(high);
    own.push(':');
    let tail = eight_hex_digits(low);
    let ghost head = own@;
    let mut k: usize = 0;
    while k < tail.len()
        invariant
            k <= tail@.len(),
            own@ == head + tail@.take(k as int),
        decreases tail@.len() - k,
    {
        own.push(tail[k]);
        assert(own@ =~= head + tail@.take(k + 1));
        k += 1;
    }
    proof {
        reveal_strlit(":");
        assert(own@ =~= luid_text(high, low));
    }
    let wanted = characters(adapter_luid);
    same_ignoring_case(&own, &wanted)
}

impl<D, T> DisplayCapture<D, T> {
    /// Refuses a display of another adapter than the one that renders.
    pub fn check_adapter(high: u32, low: u32, adapter_luid: &str) -> (r: Result<
        (),
        WindowsVideoError,
    >)
        ensures
            error_view(r) == (if text::equal_ignoring_case(luid_text(high, low), adapter_luid@) {
                None
            } else {
                Some(
                    ErrorView::SourceUnavailable(
                        "display is connected to a different graphics adapter"@,
                    ),
                )
            }),
    {
        if is_adapter(high, low, adapter_luid) {
            Ok(())
        } else {
            Err(
                WindowsVideoError::SourceUnavailable(
                    "display is connected to a different graphics adapter".to_owned(),
                ),
            )
        }
    }

    /// A duplication without a frame yet.
    pub fn new(duplication: D) -> (r: Self)
        ensures
            r == (DisplayCapture { duplication, texture: None::<T> }),
    {
        DisplayCapture { duplication, texture: None }
    }

    /// Whether a frame of the given size needs a new texture; `existing` is the
    /// size of the texture, where there is one.
    pub fn needs_texture(existing: Option<(u32, u32)>, width: u32, height: u32) -> (r: bool)
        ensures
            r == (existing != Some((width, height))),
    {
        match existing {
            Some((w, h)) => w != width || h != height,
            None => true,
        }
    }

    /// The result of an acquired frame: a failed copy is reported before a failed
    /// release.
    pub fn acquired(
        copied: Result<(), WindowsVideoError>,
        released: Result<(), WindowsVideoError>,
    ) -> (r: Result<bool, WindowsVideoError>)
        ensures
            match (copied, released) {
                (Ok(()), Ok(())) => r == Ok::<bool, WindowsVideoError>(true),
                (Err(e), _) => r == Err::<bool, WindowsVideoError>(e),
                (Ok(()), Err(e)) => r == Err::<bool, WindowsVideoError>(e),
            },
    {
        match (copied, released) {
            (Ok(()), Ok(())) => Ok(true),
            (Err(e), _) => Err(e),
            (Ok(()), Err(e)) => Err(e),
        }
    }

    /// The newest picture of the display.
    pub fn texture(&self) -> (r: Option<&T>)
        ensures
            match r {
                Some(texture) => self.texture == Some(*texture),
                None => self.texture is None,
            },
    {
        self.texture.as_ref()
    }
}

/// Media Foundation with the device manager that its readers share.
pub struct MediaFoundationContext<M> {
    pub manager: M,
}

/// What is left to do after Media Foundation was started.
#[derive(Clone, Copy, Debug, PartialEq, Eq, Structural)]
pub enum StartupCleanup {
    /// The context keeps the reference that the start took.
    KeepRunning,
    /// The reference is given back.
    Shutdown,
}

impl<M> MediaFoundationContext<M> {
    /// The context over a device manager, where the set-up after the start gave
    /// one. Each failure gives the reference of the start back.
    pub fn from_setup(manager: Result<Option<M>, String>, reset: Result<(), String>) -> (r: (
        Result<Self, WindowsVideoError>,
        StartupCleanup,
    ))
        ensures
            match r.0 {
                Ok(context) => manager == Ok::<Option<M>, String>(Some(context.manager)),
                Err(e) => e@ == ErrorView::UnsupportedMedia(
                    match manager {
                        Err(reason) => reason@,
                        Ok(None) => "Media Foundation returned no DXGI manager"@,
                        Ok(Some(_)) => reset->Err_0@,
                    },
                ),
            },
            r.0 is Ok <==> manager is Ok && manager->Ok_0 is Some && reset is Ok,
            r.1 == (if r.0 is Ok {
                StartupCleanup::KeepRunning
            } else {
                StartupCleanup::Shutdown
            }),
    {
        match (manager, reset) {
            (Err(reason), _) => (
                Err(WindowsVideoError::UnsupportedMedia(reason)),
                StartupCleanup::Shutdown,
            ),
            (Ok(None), _) => (
                Err(
                    WindowsVideoError::UnsupportedMedia(
                        "Media Foundation returned no DXGI manager".to_owned(),
                    ),
                ),
                StartupCleanup::Shutdown,
            ),
            (Ok(Some(_)), Err(reason)) => (
                Err(WindowsVideoError::UnsupportedMedia(reason)),
                StartupCleanup::Shutdown,
            ),
            (Ok(Some(manager)), Ok(())) => (
                Ok(MediaFoundationContext { manager }),
                StartupCleanup::KeepRunning,
            ),
        }
    }
}

/// The bytes of a colour of the form `#rrggbb`, opaque; black for anything else.
pub open spec fn hex_color_of(s: Seq<char>) -> Seq<u8> {
    if s.len() == 7 && s[0] == '#' && text_raster::all_hex(s.skip(1)) {
        seq![
            text_raster::hex_byte(s, 1),
            text_raster::hex_byte(s, 3),
            text_raster::hex_byte(s, 5),
            255,
        ]
    } else {
        seq![0, 0, 0, 255]
    }
}

/// Red, green, blue and opacity of a colour, each out of 255.
pub fn parse_hex_color(value: &str) -> (r: [u8; 4])
    ensures
        r@ == hex_color_of(value@),
{
    let chars = characters(value);
    let black: [u8; 4] = [0, 0, 0, 255];
    let ghost s = value@;
    if chars.len() != 7 || chars[0] != '#' {
        assert(black@ =~= hex_color_of(s));
        return black;
    }
    match (channel(&chars, 1), channel(&chars, 3), channel(&chars, 5)) {
        (Some(r), Some(g), Some(b)) => {
            let color: [u8; 4] = [r, g, b, 255];
            proof {
                assert forall|i: int| 0 <= i < s.skip(1).len() implies text_raster::hex_value(
                    #[trigger] s.skip(1)[i],
                ) is Some by {
                    assert(s.skip(1)[i] == s[i + 1]);
                }
                assert(color@ =~= hex_color_of(s));
            }
            color
        },
        _ => {
            proof {
                if text_raster::all_hex(s.skip(1)) {
                    assert(s.skip(1)[0] == s[1] && s.skip(1)[1] == s[2]);
                    assert(s.skip(1)[2] == s[3] && s.skip(1)[3] == s[4]);
                    assert(s.skip(1)[4] == s[5] && s.skip(1)[5] == s[6]);
                }
                assert(black@ =~= hex_color_of(s));
            }
            black
        },
    }
}

/// A background colour is read as any other without opacity; any other text is black.
pub proof fn law_background_is_read_as_a_colour(s: Seq<char>, i: int)
    ensures
        s.len() == 7 && s[0] == '#' && (forall|j: int|
            1 <= j < 7 ==> text_raster::hex_value(#[trigger] s[j]) is Some) ==> hex_color_of(s)
            == text_raster::color_of(s),
        s.len() != 7 || s[0] != '#' || (1 <= i < s.len() && text_raster::hex_value(s[i]) is None)
            ==> hex_color_of(s) == seq![0u8, 0u8, 0u8, 255u8],
{
    if s.len() == 7 && s[0] == '#' {
        let rest = s.skip(1);
        if 1 <= i < s.len() {
            assert(rest[i - 1] == s[i]);
        }
        assert forall|j: int| 0 <= j < rest.len() implies #[trigger] rest[j] == s[j + 1] by {}
        if forall|j: int| 1 <= j < 7 ==> text_raster::hex_value(#[trigger] s[j]) is Some {
            assert(text_raster::all_hex(rest));
            assert(hex_color_of(s) =~= text_raster::color_of(s));
        }
    }
}

/// The first code unit of a character outside the basic plane.
pub open spec fn high_surrogate(c: char) -> u16 {
    (0xd800 + (c as int - 0x10000) / 0x400) as u16
}

/// The second code unit of a character outside the basic plane.
pub open spec fn low_surrogate(c: char) -> u16 {
    (0xdc00 + (c as int - 0x10000) % 0x400) as u16
}

/// The UTF-16 code units of a text.
pub open spec fn utf16_of(s: Seq<char>) -> Seq<u16>
    decreases s.len(),
{
    if s.len() == 0 {
        Seq::empty()
    } else {
        let c = s.last();
        let before = utf16_of(s.drop_last());
        if (c as int) < 0x10000 {
            before.push(c as u16)
        } else {
            before.push(high_surrogate(c)).push(low_surrogate(c))
        }
    }
}

/// A text is encoded character by character.
pub proof fn law_text_is_encoded_character_by_character(a: Seq<char>, b: Seq<char>)
    ensures
        utf16_of(a + b) == utf16_of(a) + utf16_of(b),
    decreases b.len(),
{
    if b.len() == 0 {
        assert(a + b =~= a);
        assert(utf16_of(a) + utf16_of(b) =~= utf16_of(a));
    } else {
        law_text_is_encoded_character_by_character(a, b.drop_last());
        assert((a + b).drop_last() =~= a + b.drop_last());
        assert((a + b).last() == b.last());
        assert(utf16_of(a + b) =~= utf16_of(a) + utf16_of(b));
    }
}

/// A character below 0x10000 takes one unit, any other two, from which it can be read
/// back.
pub proof fn law_character_can_be_read_back(c: char)
    ensures
        (c as int) < 0x10000 ==> ({
            let units = utf16_of(seq![c]);
            &&& units.len() == 1
            &&& units[0] == c as int
            &&& units[0] < 0xd800 || 0xe000 <= units[0]
        }),
        (c as int) >= 0x10000 ==> ({
            let units = utf16_of(seq![c]);
            &&& units.len() == 2
            &&& 0xd800 <= units[0] < 0xdc00
            &&& 0xdc00 <= units[1] < 0xe000
            &&& 0x10000 + (units[0] - 0xd800) * 0x400 + (units[1] - 0xdc00) == c as int
        }),
{
    let one = seq![c];
    let none = one.drop_last();
    assert(none.len() == 0);
    assert(utf16_of(none) =~= Seq::<u16>::empty());
    assert(one.last() == c);
    if (c as int) < 0x10000 {
        assert(utf16_of(one) =~= seq![c as u16]);
    } else {
        let units = utf16_of(one);
        assert(units =~= seq![high_surrogate(c), low_surrogate(c)]);
        let rest = c as int - 0x10000;
        assert(0 <= rest < 0x100000);
        assert(rest == rest / 0x400 * 0x400 + rest % 0x400);
    }
}

fn code_point(c: char) -> (r: u32)
    ensures
        r == c as int,
        r <= 0x10ffff,
{
    c as u32
}

/// The UTF-16 code units of a text.
pub fn utf16(value: &str) -> (r: Vec<u16>)
    ensures
        r@ == utf16_of(value@),
{
    let chars = characters(value);
    let mut r: Vec<u16> = Vec::new();
    let mut i: usize = 0;
    while i < chars.len()
        invariant
            i <= chars@.len(),
            chars@ == value@,
            r@ == utf16_of(value@.take(i as int)),
        decreases chars@.len() - i,
    {
        let c: u32 = code_point(chars[i]);
        assert(value@.take(i + 1).drop_last() =~= value@.take(i as int));
        assert(value@.take(i + 1).last() == value@[i as int]);
        if c < 0x10000 {
            r.push(c as u16);
        } else {
            let rest: u32 = c - 0x10000;
            r.push((0xd800 + rest / 0x400) as u16);
            r.push((0xdc00 + rest % 0x400) as u16);
        }
        i += 1;
    }
    assert(value@.take(i as int) =~= value@);
    r
}

} // verus!
