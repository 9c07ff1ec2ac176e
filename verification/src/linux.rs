//! Desktop-portal capture and DMA-BUF buffer ownership.
//!
//! A portal node id means something only within its own portal session, so a
//! selection is never stored: sources that were bound to an earlier session wait
//! until a new selection is published.
//!
//! Handles of the platform (portal session, remote descriptor, plane
//! descriptors) are type parameters: this module decides who owns them and when
//! they move, and never looks inside.

use vstd::prelude::*;
use vstd::string::*;

use crate::id_map::IdMap;
use crate::source_id;
use crate::text::joined;

verus! {

/// The modifier value that leaves the choice of a modifier to the producer.
pub const DRM_FORMAT_MOD_INVALID: u64 = 0x00ff_ffff_ffff_ffff;

/// What a portal stream shows.
#[derive(Clone, Copy, Debug, PartialEq, Eq, Structural)]
pub enum PortalSourceType {
    Monitor,
    Window,
    Virtual,
}

/// A stream of a portal selection.
#[derive(Clone, Debug)]
pub struct PortalStreamInfo {
    pub pipewire_node_id: u32,
    pub source_type: Option<PortalSourceType>,
    pub id: Option<String>,
    pub mapping_id: Option<String>,
    pub position: Option<(i32, i32)>,
    pub size: Option<(i32, i32)>,
}

impl PortalStreamInfo {
    /// Whether the stream shows a single window.
    pub fn is_window(&self) -> (r: bool)
        ensures
            r == (self.source_type == Some(PortalSourceType::Window)),
    {
        match self.source_type {
            Some(kind) => kind == PortalSourceType::Window,
            None => false,
        }
    }
}

/// A live portal selection. `session` keeps the portal connection open for as
/// long as the selection lives.
pub struct PortalSelection<P, R> {
    pub binding_id: u128,
    pub session: P,
    pub remote: Option<R>,
    pub streams: Vec<PortalStreamInfo>,
}

/// Hands the current portal selection from the shell to the renderer.
pub struct PipeWirePortalLink<P, R> {
    selection: Option<PortalSelection<P, R>>,
    generation: u64,
}

/// The text by which sources refer to a selection.
pub open spec fn marker_text(binding_id: u128) -> Seq<char> {
    "portal:"@ + source_id::hyphenated(binding_id)
}

impl<P, R> PipeWirePortalLink<P, R> {
    /// The selection that was published last.
    pub closed spec fn current(self) -> Option<PortalSelection<P, R>> {
        self.selection
    }

    /// How many selections were published, modulo 2^64.
    pub closed spec fn published(self) -> u64 {
        self.generation
    }

    /// A link without a selection.
    pub fn new() -> (r: Self)
        ensures
            r.current() is None,
            r.published() == 0,
    {
        PipeWirePortalLink { selection: None, generation: 0 }
    }

    /// Publishes a selection and drops the previous one.
    pub fn publish(&mut self, selection: PortalSelection<P, R>)
        ensures
            final(self).current() == Some(selection),
            final(self).published() == (old(self).published() + 1) % 0x1_0000_0000_0000_0000,
    {
        self.selection = Some(selection);
        self.generation = self.generation.wrapping_add(1);
    }

    /// Changes whenever a selection is published.
    pub fn generation(&self) -> (r: u64)
        ensures
            r == self.published(),
    {
        self.generation
    }

    /// The text by which sources refer to the current selection.
    pub fn binding_marker(&self) -> (r: Option<String>)
        ensures
            match r {
                Some(text) => self.current() is Some && text@ == marker_text(
                    self.current()->0.binding_id,
                ),
                None => self.current() is None,
            },
    {
        match &self.selection {
            Some(selection) => {
                let id = source_id::id_text(selection.binding_id);
                Some(joined("portal:", id.as_str()))
            },
            None => None,
        }
    }

    /// The streams of the current selection.
    pub fn streams(&self) -> (r: Option<&Vec<PortalStreamInfo>>)
        ensures
            match r {
                Some(streams) => self.current() is Some && *streams == self.current()->0.streams,
                None => self.current() is None,
            },
    {
        match &self.selection {
            Some(selection) => Some(&selection.streams),
            None => None,
        }
    }

    /// Moves the remote descriptor of the current selection out. The session
    /// stays in the link.
    pub fn take_remote(&mut self) -> (r: Option<R>)
        ensures
            final(self).published() == old(self).published(),
            (final(self).current(), r) == taken(old(self).current()),
    {
        match &mut self.selection {
            Some(selection) => selection.remote.take(),
            None => None,
        }
    }
}

/// What is left of a selection once its remote was taken, and the remote.
pub open spec fn taken<P, R>(current: Option<PortalSelection<P, R>>) -> (
    Option<PortalSelection<P, R>>,
    Option<R>,
) {
    match current {
        Some(selection) => (
            Some(PortalSelection { remote: None, ..selection }),
            selection.remote,
        ),
        None => (None, None),
    }
}

/// The remote of a published selection is handed out once: the first taker gets it,
/// later ones get nothing, and the selection itself stays open.
pub proof fn law_remote_is_taken_once<P, R>(selection: PortalSelection<P, R>)
    ensures
        ({
            let first = taken(Some(selection));
            &&& first.1 == selection.remote
            &&& taken(first.0).1 is None
            &&& first.0->0.session == selection.session
            &&& first.0->0.streams == selection.streams
        }),
{
}

/// Markers of different selections differ.
pub proof fn law_marker_identifies_selection(a: u128, b: u128)
    requires
        marker_text(a) == marker_text(b),
    ensures
        a == b,
{
    reveal_strlit("portal:");
    let n = "portal:"@.len() as int;
    assert(marker_text(a).skip(n) =~= source_id::hyphenated(a));
    assert(marker_text(b).skip(n) =~= source_id::hyphenated(b));
    source_id::law_text_identifies(a, b);
}

/// Why capturing failed.
#[derive(Debug)]
pub enum LinuxVideoError {
    PortalDenied,
    SourceOffline,
    DmaBufUnavailable,
    InvalidDmaBuf,
    DeviceLost,
    Portal(String),
    PipeWire(String),
}

/// What an error tells the user.
pub open spec fn error_text(error: LinuxVideoError) -> Seq<char> {
    match error {
        LinuxVideoError::PortalDenied => "desktop portal denied capture permission"@,
        LinuxVideoError::SourceOffline => "PipeWire source is offline"@,
        LinuxVideoError::DmaBufUnavailable => "DMA-BUF import is unavailable"@,
        LinuxVideoError::InvalidDmaBuf => "invalid DMA-BUF metadata"@,
        LinuxVideoError::DeviceLost => "Vulkan device lost"@,
        LinuxVideoError::Portal(detail) => "desktop portal failed: "@ + detail@,
        LinuxVideoError::PipeWire(detail) => "PipeWire failed: "@ + detail@,
    }
}

impl LinuxVideoError {
    /// What the error tells the user.
    pub fn message(&self) -> (r: String)
        ensures
            r@ == error_text(*self),
    {
        match self {
            LinuxVideoError::PortalDenied => "desktop portal denied capture permission".to_owned(),
            LinuxVideoError::SourceOffline => "PipeWire source is offline".to_owned(),
            LinuxVideoError::DmaBufUnavailable => "DMA-BUF import is unavailable".to_owned(),
            LinuxVideoError::InvalidDmaBuf => "invalid DMA-BUF metadata".to_owned(),
            LinuxVideoError::DeviceLost => "Vulkan device lost".to_owned(),
            LinuxVideoError::Portal(detail) => joined("desktop portal failed: ", detail.as_str()),
            LinuxVideoError::PipeWire(detail) => joined("PipeWire failed: ", detail.as_str()),
        }
    }
}

/// One plane of a captured frame.
#[derive(Debug)]
pub struct DmaBufPlane<F> {
    pub fd: F,
    pub offset: u32,
    pub stride: u32,
}

/// Where the pixels of a frame are.
#[derive(Debug)]
pub enum FrameMemory<F> {
    DmaBuf { planes: Vec<DmaBufPlane<F>> },
}

/// Address of a PipeWire buffer, carried only so that the buffer can be handed
/// back to the loop that it came from.
#[derive(Clone, Copy, Debug, Hash, PartialEq, Eq, Structural)]
pub struct SendBufferToken(pub usize);

/// One captured frame.
#[derive(Debug)]
pub struct CapturedFrame<F> {
    pub source_id: u128,
    pub sequence: u64,
    pub timestamp_ns: u64,
    pub width: u32,
    pub height: u32,
    pub drm_format: u32,
    pub modifier: u64,
    pub memory: FrameMemory<F>,
    pub buffer_token: SendBufferToken,
}

/// What the capture thread tells the renderer.
#[derive(Debug)]
pub enum FrameMessage<F> {
    Frame(CapturedFrame<F>),
    SourceError { source_id: u128, reason: String },
}

// ---------------------------------------------------------------------------
// Pixel formats
// ---------------------------------------------------------------------------

/// Four bytes as one number, the first byte lowest.
pub open spec fn fourcc_value(a: u8, b: u8, c: u8, d: u8) -> int {
    a + b * 0x100 + c * 0x1_0000 + d * 0x100_0000
}

/// Packs a four-character code.
pub fn fourcc(a: u8, b: u8, c: u8, d: u8) -> (r: u32)
    ensures
        r == fourcc_value(a, b, c, d),
{
    let w: u32 = a as u32;
    let x: u32 = b as u32;
    let y: u32 = c as u32;
    let z: u32 = d as u32;
    assert((w | (x << 8) | (y << 16) | (z << 24)) == w + x * 0x100 + y * 0x1_0000 + z * 0x100_0000)
        by (bit_vector)
        requires
            w < 0x100,
            x < 0x100,
            y < 0x100,
            z < 0x100,
    ;
    w | (x << 8) | (y << 16) | (z << 24)
}

/// Different codes pack to different numbers.
pub proof fn law_fourcc_identifies(a: u8, b: u8, c: u8, d: u8, e: u8, f: u8, g: u8, h: u8)
    requires
        fourcc_value(a, b, c, d) == fourcc_value(e, f, g, h),
    ensures
        a == e && b == f && c == g && d == h,
{
}

/// The first character of a format code is its lowest byte, the last its highest.
pub proof fn law_fourcc_starts_at_the_lowest_byte(a: u8, b: u8, c: u8, d: u8)
    ensures
        fourcc_value(a, b, c, d) % 0x100 == a,
        fourcc_value(a, b, c, d) / 0x100 % 0x100 == b,
        fourcc_value(a, b, c, d) / 0x1_0000 % 0x100 == c,
        fourcc_value(a, b, c, d) / 0x100_0000 == d,
{
}

/// The 32-bit RGB format without alpha.
pub fn drm_xrgb8888() -> (r: u32)
    ensures
        r == 0x3432_5258,
{
    fourcc('X' as u8, 'R' as u8, '2' as u8, '4' as u8)
}

/// The PipeWire numbers of the video formats that carry a fixed DRM code.
#[derive(Clone, Copy, Debug)]
pub struct SpaFormats {
    pub rgba: u32,
    pub bgra: u32,
    pub rgbx: u32,
}

/// The DRM code of a PipeWire video format; every other format counts as XRGB.
pub fn spa_format_to_drm(value: u32, formats: SpaFormats) -> (r: u32)
    ensures
        r == (if value == formats.rgba {
            0x3432_4241u32
        } else if value == formats.bgra {
            0x3432_5241u32
        } else if value == formats.rgbx {
            0x3432_4258u32
        } else {
            0x3432_5258u32
        }),
{
    if value == formats.rgba {
        fourcc('A' as u8, 'B' as u8, '2' as u8, '4' as u8)
    } else if value == formats.bgra {
        fourcc('A' as u8, 'R' as u8, '2' as u8, '4' as u8)
    } else if value == formats.rgbx {
        fourcc('X' as u8, 'B' as u8, '2' as u8, '4' as u8)
    } else {
        drm_xrgb8888()
    }
}

// ---------------------------------------------------------------------------
// Buffer negotiation
// ---------------------------------------------------------------------------

/// The buffer layout that a stream asks PipeWire for.
#[derive(Clone, Copy, Debug, PartialEq, Eq, Structural)]
pub struct BufferRequest {
    pub default_buffers: i32,
    pub min_buffers: i32,
    pub max_buffers: i32,
    pub blocks: i32,
    pub size: i32,
    pub stride: i32,
}

/// The buffer layout for frames of the given size, or why there is none.
pub fn dma_buf_params(width: u32, height: u32) -> (r: Result<BufferRequest, String>)
    ensures
        match r {
            Ok(request) => {
                &&& width * height * 4 <= i32::MAX
                &&& width * 4 <= i32::MAX
                &&& request == BufferRequest {
                    default_buffers: 4,
                    min_buffers: 2,
                    max_buffers: 8,
                    blocks: 1,
                    size: (width * height * 4) as i32,
                    stride: (width * 4) as i32,
                }
            },
            Err(reason) => if width * height * 4 > i32::MAX {
                reason@ == "PipeWire-Videopuffer ist zu groß"@
            } else {
                width * 4 > i32::MAX && reason@ == "PipeWire-Videostride ist zu groß"@
            },
        },
{
    assert(width as u64 * height as u64 <= 0xffff_fffe_0000_0001) by (nonlinear_arith)
        requires
            width as u64 <= 0xffff_ffff,
            height as u64 <= 0xffff_ffff,
    ;
    let pixels: u64 = width as u64 * height as u64;
    if pixels > 0x1fff_ffff {
        return Err("PipeWire-Videopuffer ist zu groß".to_owned());
    }
    if width > 0x1fff_ffff {
        return Err("PipeWire-Videostride ist zu groß".to_owned());
    }
    Ok(
        BufferRequest {
            default_buffers: 4,
            min_buffers: 2,
            max_buffers: 8,
            blocks: 1,
            size: (pixels * 4) as i32,
            stride: (width * 4) as i32,
        },
    )
}

/// The kinds of memory that a stream takes, as a set of bits: DMA-BUF alone. `dma_buf`
/// is the number of that kind.
pub fn dma_buf_data_types(dma_buf: u32) -> (r: i32)
    requires
        dma_buf < 32,
    ensures
        r == 1i32 << dma_buf,
{
    1i32 << dma_buf
}

/// A pixel layout that a capture stream understands.
#[derive(Clone, Copy, Debug, PartialEq, Eq, Structural)]
pub enum PixelLayout {
    Bgrx,
    Rgbx,
    Rgba,
    Bgra,
}

/// The pixel layouts that a capture stream offers, the preferred one first.
pub fn offered_layouts() -> (r: [PixelLayout; 4])
    ensures
        r@ == seq![PixelLayout::Bgrx, PixelLayout::Rgbx, PixelLayout::Rgba, PixelLayout::Bgra],
{
    let r: [PixelLayout; 4] = [
        PixelLayout::Bgrx,
        PixelLayout::Rgbx,
        PixelLayout::Rgba,
        PixelLayout::Bgra,
    ];
    assert(r@ =~= seq![
        PixelLayout::Bgrx,
        PixelLayout::Rgbx,
        PixelLayout::Rgba,
        PixelLayout::Bgra,
    ]);
    r
}

/// The sizes and rates that a capture stream offers to its producer.
#[derive(Clone, Copy, Debug)]
pub struct FormatOffer {
    pub default_size: (u32, u32),
    pub min_size: (u32, u32),
    pub max_size: (u32, u32),
    pub default_rate: (u32, u32),
    pub min_rate: (u32, u32),
    pub max_rate: (u32, u32),
    pub modifier: u64,
}

/// The sizes and rates of every capture stream.
pub fn format_offer() -> (r: FormatOffer)
    ensures
        r == (FormatOffer {
            default_size: (1920, 1080),
            min_size: (1, 1),
            max_size: (8192, 8192),
            default_rate: (60, 1),
            min_rate: (1, 1),
            max_rate: (120, 1),
            modifier: DRM_FORMAT_MOD_INVALID,
        }),
{
    FormatOffer {
        default_size: (1920, 1080),
        min_size: (1, 1),
        max_size: (8192, 8192),
        default_rate: (60, 1),
        min_rate: (1, 1),
        max_rate: (120, 1),
        modifier: DRM_FORMAT_MOD_INVALID,
    }
}

/// The name under which a source's stream appears in the PipeWire graph.
pub fn stream_name(id: u128) -> (r: String)
    ensures
        r@ == "hooviestar-portal-"@ + source_id::hyphenated(id),
{
    let text = source_id::id_text(id);
    joined("hooviestar-portal-", text.as_str())
}

// ---------------------------------------------------------------------------
// Frame extraction
// ---------------------------------------------------------------------------

/// One data block of a PipeWire buffer.
#[derive(Clone, Copy, Debug, PartialEq, Eq, Structural)]
pub struct SpaData {
    pub has_chunk: bool,
    pub is_dma_buf: bool,
    pub chunk_offset: u32,
    pub chunk_stride: i32,
    pub fd: i64,
}

/// A data block that becomes a plane.
#[derive(Clone, Copy, Debug, PartialEq, Eq, Structural)]
pub struct PlanePlan {
    pub fd: i64,
    pub offset: u32,
    pub stride: u32,
}

/// Whether a block carries DMA-BUF pixels.
pub open spec fn carries_plane(data: SpaData) -> bool {
    data.has_chunk && data.is_dma_buf
}

/// Whether a block that carries pixels can be used.
pub open spec fn usable_plane(data: SpaData) -> bool {
    data.chunk_stride > 0 && data.fd >= 0
}

/// The plane of a usable block.
pub open spec fn plane_of(data: SpaData) -> PlanePlan {
    PlanePlan { fd: data.fd, offset: data.chunk_offset, stride: data.chunk_stride as u32 }
}

/// The planes of the blocks that carry pixels, in order.
pub open spec fn planes_of(datas: Seq<SpaData>) -> Seq<PlanePlan> {
    datas.filter(|d: SpaData| carries_plane(d)).map_values(|d: SpaData| plane_of(d))
}

/// Whether a buffer's blocks make a frame: at least one carries pixels, and
/// every one that does is usable.
pub open spec fn blocks_make_frame(datas: Seq<SpaData>) -> bool {
    &&& datas.filter(|d: SpaData| carries_plane(d)).len() > 0
    &&& forall|i: int|
        0 <= i < datas.len() && carries_plane(#[trigger] datas[i]) ==> usable_plane(datas[i])
}

/// Each block that brings a chunk of shared memory adds one plane behind those before
/// it, with its descriptor, offset and stride; any other block adds none.
pub proof fn law_each_shared_block_is_a_plane(datas: Seq<SpaData>, data: SpaData)
    ensures
        planes_of(Seq::empty()) == Seq::<PlanePlan>::empty(),
        data.has_chunk && data.is_dma_buf ==> planes_of(datas.push(data)) == planes_of(datas).push(
            PlanePlan {
                fd: data.fd,
                offset: data.chunk_offset,
                stride: data.chunk_stride as u32,
            },
        ),
        !data.has_chunk || !data.is_dma_buf ==> planes_of(datas.push(data)) == planes_of(datas),
{
    reveal(Seq::filter);
    assert(datas.push(data).drop_last() =~= datas);
    assert(planes_of(Seq::empty()) =~= Seq::<PlanePlan>::empty());
    if data.has_chunk && data.is_dma_buf {
        assert(planes_of(datas.push(data)) =~= planes_of(datas).push(plane_of(data)));
    }
}

/// One plane without a stride or a descriptor spoils the frame, and so does the lack of
/// any plane.
pub proof fn law_frame_needs_usable_planes(datas: Seq<SpaData>, i: int)
    requires
        0 <= i < datas.len(),
    ensures
        datas[i].has_chunk && datas[i].is_dma_buf && (datas[i].chunk_stride <= 0 || datas[i].fd < 0)
            ==> !blocks_make_frame(datas),
        datas[i].has_chunk && datas[i].is_dma_buf && (forall|j: int|
            0 <= j < datas.len() && (#[trigger] datas[j]).has_chunk && datas[j].is_dma_buf
                ==> datas[j].chunk_stride > 0 && datas[j].fd >= 0) ==> blocks_make_frame(datas),
        (forall|j: int|
            0 <= j < datas.len() ==> !(#[trigger] datas[j]).has_chunk || !datas[j].is_dma_buf)
            ==> !blocks_make_frame(datas),
{
    let kept = datas.filter(|d: SpaData| carries_plane(d));
    broadcast use vstd::seq_lib::group_filter_ensures;

    if datas[i].has_chunk && datas[i].is_dma_buf {
        assert(carries_plane(datas[i]));
        assert(kept.contains(datas[i]));
    }
    if forall|j: int|
        0 <= j < datas.len() ==> !(#[trigger] datas[j]).has_chunk || !datas[j].is_dma_buf {
        lemma_no_plane(datas);
    }
}

proof fn lemma_no_plane(datas: Seq<SpaData>)
    requires
        forall|j: int|
            0 <= j < datas.len() ==> !(#[trigger] datas[j]).has_chunk || !datas[j].is_dma_buf,
    ensures
        datas.filter(|d: SpaData| carries_plane(d)).len() == 0,
    decreases datas.len(),
{
    reveal(Seq::filter);
    if datas.len() > 0 {
        assert(!carries_plane(datas[datas.len() - 1]));
        assert forall|j: int| 0 <= j < datas.drop_last().len() implies !(
        #[trigger] datas.drop_last()[j]).has_chunk || !datas.drop_last()[j].is_dma_buf by {
            assert(datas.drop_last()[j] == datas[j]);
        }
        lemma_no_plane(datas.drop_last());
    }
}

/// The planes of a buffer, if it makes a frame.
fn plan_planes(datas: &Vec<SpaData>) -> (r: Option<Vec<PlanePlan>>)
    ensures
        match r {
            Some(planes) => blocks_make_frame(datas@) && planes@ == planes_of(datas@),
            None => !blocks_make_frame(datas@),
        },
{
    let mut planes: Vec<PlanePlan> = Vec::new();
    let mut i: usize = 0;
    let ghost carries = |d: SpaData| carries_plane(d);
    proof {
        reveal(Seq::filter);
        assert(datas@.take(0) =~= Seq::<SpaData>::empty());
        assert(planes_of(datas@.take(0)) =~= Seq::<PlanePlan>::empty());
    }
    while i < datas.len()
        invariant
            i <= datas@.len(),
            carries == (|d: SpaData| carries_plane(d)),
            planes@ == planes_of(datas@.take(i as int)),
            forall|j: int|
                0 <= j < i && carries_plane(#[trigger] datas@[j]) ==> usable_plane(datas@[j]),
        decreases datas@.len() - i,
    {
        let data = datas[i];
        proof {
            reveal(Seq::filter);
            let next = datas@.take(i + 1);
            assert(next.drop_last() =~= datas@.take(i as int));
            assert(next.last() == data);
            if carries_plane(data) {
                assert(planes_of(next) =~= planes_of(datas@.take(i as int)).push(plane_of(data)));
            }
        }
        if data.has_chunk && data.is_dma_buf {
            if data.chunk_stride <= 0 || data.fd < 0 {
                return None;
            }
            planes.push(
                PlanePlan {
                    fd: data.fd,
                    offset: data.chunk_offset,
                    stride: data.chunk_stride as u32,
                },
            );
        }
        i += 1;
    }
    assert(datas@.take(i as int) =~= datas@);
    if planes.len() == 0 {
        None
    } else {
        Some(planes)
    }
}

// ---------------------------------------------------------------------------
// One capture stream
// ---------------------------------------------------------------------------

/// A negotiated video format.
#[derive(Clone, Copy, Debug)]
pub struct NegotiatedFormat {
    pub width: u32,
    pub height: u32,
    pub spa_format: u32,
    pub modifier: u64,
}

/// What a stream answers to a format announcement.
#[derive(Debug)]
pub enum FormatAnswer {
    /// Ask for buffers of this layout.
    Request(BufferRequest),
    /// Report the source as failed.
    Report(String),
}

/// State of one capture stream: its format, the frame counter and the buffers
/// that the renderer still holds.
pub struct StreamData {
    source_id: u128,
    width: u32,
    height: u32,
    drm_format: u32,
    modifier: u64,
    sequence: u64,
    pending: Vec<usize>,
}

/// At most this many buffers of a stream are with the renderer.
pub const MAX_PENDING_BUFFERS: usize = 2;

fn pending_position(pending: &Vec<usize>, token: usize) -> (r: Option<usize>)
    ensures
        match r {
            Some(i) => i < pending@.len() && pending@[i as int] == token,
            None => !pending@.contains(token),
        },
{
    let mut i: usize = 0;
    while i < pending.len()
        invariant
            i <= pending@.len(),
            forall|j: int| 0 <= j < i ==> pending@[j] != token,
        decreases pending@.len() - i,
    {
        if pending[i] == token {
            return Some(i);
        }
        i += 1;
    }
    None
}

impl StreamData {
    /// The source that the stream belongs to.
    pub closed spec fn source(self) -> u128 {
        self.source_id
    }

    /// Width, height, DRM code and modifier of the negotiated format.
    pub closed spec fn format(self) -> (u32, u32, u32, u64) {
        (self.width, self.height, self.drm_format, self.modifier)
    }

    /// The number of the next frame.
    pub closed spec fn next_sequence(self) -> u64 {
        self.sequence
    }

    /// The buffers that the renderer holds.
    pub closed spec fn held(self) -> Set<usize> {
        self.pending@.to_set()
    }

    /// A stream before its format is known: no frame was delivered, no buffer is out.
    pub open spec fn is_fresh(self, source_id: u128) -> bool {
        &&& self.source() == source_id
        &&& self.format() == (0u32, 0u32, 0x3432_5258u32, DRM_FORMAT_MOD_INVALID)
        &&& self.next_sequence() == 0
        &&& self.held() == Set::<usize>::empty()
    }

    /// No buffer is counted twice, and never more than two are out.
    pub closed spec fn wf(self) -> bool {
        &&& self.pending@.no_duplicates()
        &&& self.pending@.len() <= MAX_PENDING_BUFFERS
    }

    /// At most two buffers of a stream are with the renderer.
    pub proof fn law_at_most_two_held(self)
        requires
            self.wf(),
        ensures
            self.held().finite(),
            self.held().len() <= 2,
    {
        self.pending@.unique_seq_to_set();
    }

    /// A stream before its format is known.
    pub fn new(source_id: u128) -> (r: Self)
        ensures
            r.wf(),
            r.is_fresh(source_id),
    {
        let r = StreamData {
            source_id,
            width: 0,
            height: 0,
            drm_format: drm_xrgb8888(),
            modifier: DRM_FORMAT_MOD_INVALID,
            sequence: 0,
            pending: Vec::new(),
        };
        assert(r.held() =~= Set::<usize>::empty());
        r
    }

    /// The stream failed: every buffer is considered returned.
    pub fn on_stream_error(&mut self)
        requires
            old(self).wf(),
        ensures
            final(self).wf(),
            final(self).held() == Set::<usize>::empty(),
            final(self).source() == old(self).source(),
            final(self).format() == old(self).format(),
            final(self).next_sequence() == old(self).next_sequence(),
    {
        self.pending.clear();
        assert(self.held() =~= Set::<usize>::empty());
    }

    /// A format was announced; `None` is one that could not be read.
    pub fn on_format(
        &mut self,
        announced: Option<NegotiatedFormat>,
        formats: SpaFormats,
    ) -> (r: FormatAnswer)
        requires
            old(self).wf(),
        ensures
            final(self).wf(),
            final(self).held() == old(self).held(),
            final(self).source() == old(self).source(),
            final(self).next_sequence() == old(self).next_sequence(),
            match announced {
                None => {
                    &&& final(self).format() == old(self).format()
                    &&& r matches FormatAnswer::Report(reason)
                        && reason@ == "PipeWire-Videoformat konnte nicht ausgehandelt werden"@
                },
                Some(f) => {
                    &&& final(self).format().0 == f.width
                    &&& final(self).format().1 == f.height
                    &&& final(self).format().2 == (if f.spa_format == formats.rgba {
                        0x3432_4241u32
                    } else if f.spa_format == formats.bgra {
                        0x3432_5241u32
                    } else if f.spa_format == formats.rgbx {
                        0x3432_4258u32
                    } else {
                        0x3432_5258u32
                    })
                    &&& final(self).format().3 == f.modifier
                    &&& match r {
                        FormatAnswer::Request(request) => {
                            &&& f.width * f.height * 4 <= i32::MAX
                            &&& f.width * 4 <= i32::MAX
                            &&& request == BufferRequest {
                                default_buffers: 4,
                                min_buffers: 2,
                                max_buffers: 8,
                                blocks: 1,
                                size: (f.width * f.height * 4) as i32,
                                stride: (f.width * 4) as i32,
                            }
                        },
                        FormatAnswer::Report(reason) => if f.width * f.height * 4 > i32::MAX {
                            reason@ == "PipeWire-Videopuffer ist zu groß"@
                        } else {
                            f.width * 4 > i32::MAX && reason@
                                == "PipeWire-Videostride ist zu groß"@
                        },
                    }
                },
            },
    {
        match announced {
            None => FormatAnswer::Report(
                "PipeWire-Videoformat konnte nicht ausgehandelt werden".to_owned(),
            ),
            Some(f) => {
                self.width = f.width;
                self.height = f.height;
                self.drm_format = spa_format_to_drm(f.spa_format, formats);
                self.modifier = f.modifier;
                match dma_buf_params(f.width, f.height) {
                    Ok(request) => FormatAnswer::Request(request),
                    Err(reason) => FormatAnswer::Report(reason),
                }
            },
        }
    }

    /// Whether another buffer may be taken from PipeWire.
    pub fn may_dequeue(&self) -> (r: bool)
        requires
            self.wf(),
        ensures
            r == (self.held().len() < 2),
    {
        proof {
            self.pending@.unique_seq_to_set();
        }
        self.pending.len() < MAX_PENDING_BUFFERS
    }

    /// The planes of a dequeued buffer whose descriptors are to be duplicated,
    /// or `None` where the buffer makes no frame.
    pub fn planes_to_duplicate(&self, datas: Option<&Vec<SpaData>>) -> (r: Option<Vec<PlanePlan>>)
        ensures
            match r {
                Some(planes) => {
                    &&& datas is Some
                    &&& self.format().0 != 0
                    &&& self.format().1 != 0
                    &&& blocks_make_frame(datas->0@)
                    &&& planes@ == planes_of(datas->0@)
                },
                None => datas is None || self.format().0 == 0 || self.format().1 == 0
                    || !blocks_make_frame(datas->0@),
            },
    {
        match datas {
            None => None,
            Some(datas) => {
                if self.width == 0 || self.height == 0 {
                    return None;
                }
                plan_planes(datas)
            },
        }
    }

    /// Turns duplicated planes into the next frame and counts its buffer as held.
    pub fn deliver<F>(
        &mut self,
        planes: Vec<DmaBufPlane<F>>,
        token: SendBufferToken,
        timestamp_ns: u64,
    ) -> (r: CapturedFrame<F>)
        requires
            old(self).wf(),
            old(self).held().len() < 2,
        ensures
            final(self).wf(),
            final(self).held() == old(self).held().insert(token.0),
            final(self).source() == old(self).source(),
            final(self).format() == old(self).format(),
            final(self).next_sequence() == (old(self).next_sequence() + 1)
                % 0x1_0000_0000_0000_0000,
            r.source_id == old(self).source(),
            r.sequence == old(self).next_sequence(),
            r.timestamp_ns == timestamp_ns,
            (r.width, r.height, r.drm_format, r.modifier) == old(self).format(),
            r.memory == (FrameMemory::DmaBuf { planes }),
            r.buffer_token == token,
    {
        proof {
            self.pending@.unique_seq_to_set();
        }
        let sequence: u64 = self.sequence;
        self.sequence = self.sequence.wrapping_add(1);
        match pending_position(&self.pending, token.0) {
            Some(i) => {
                assert(self.pending@.contains(token.0));
                assert(self.held() =~= old(self).held().insert(token.0));
            },
            None => {
                let ghost before = self.pending@;
                self.pending.push(token.0);
                proof {
                    assert(before.push(token.0).to_set() =~= before.to_set().insert(token.0)) by {
                        assert forall|x: usize|
                            before.push(token.0).contains(x) <==> (before.contains(x) || x
                                == token.0) by {
                            if before.contains(x) {
                                let i = before.index_of(x);
                                assert(before.push(token.0)[i] == x);
                            }
                            assert(before.push(token.0)[before.len() as int] == token.0);
                        }
                    }
                }
            },
        }
        CapturedFrame {
            source_id: self.source_id,
            sequence,
            timestamp_ns,
            width: self.width,
            height: self.height,
            drm_format: self.drm_format,
            modifier: self.modifier,
            memory: FrameMemory::DmaBuf { planes },
            buffer_token: token,
        }
    }

    /// Takes a buffer out of the held set; true where it was held, so that it is
    /// to be queued again. Used for returned buffers, for frames that nobody
    /// received and for buffers that PipeWire withdraws.
    pub fn release(&mut self, token: SendBufferToken) -> (r: bool)
        requires
            old(self).wf(),
        ensures
            final(self).wf(),
            final(self).held() == old(self).held().remove(token.0),
            final(self).source() == old(self).source(),
            final(self).format() == old(self).format(),
            final(self).next_sequence() == old(self).next_sequence(),
            r == old(self).held().contains(token.0),
    {
        let ghost before = self.pending@;
        match pending_position(&self.pending, token.0) {
            Some(i) => {
                let gone: usize = self.pending.remove(i);
                proof {
                    let after = self.pending@;
                    assert(after =~= before.remove(i as int));
                    assert forall|x: usize|
                        after.contains(x) <==> (before.contains(x) && x != token.0) by {
                        if after.contains(x) {
                            let j = after.index_of(x);
                            let k = if j < i { j } else { j + 1 };
                            assert(before[k] == x);
                            assert(before[i as int] == token.0);
                        }
                        if before.contains(x) && x != token.0 {
                            let j = before.index_of(x);
                            let k = if j < i { j } else { j - 1 };
                            assert(after[k] == x);
                        }
                    }
                    assert(after.to_set() =~= before.to_set().remove(token.0));
                    assert(before.contains(token.0));
                }
                true
            },
            None => {
                assert(before.to_set().remove(token.0) =~= before.to_set());
                false
            },
        }
    }
}

/// A returned buffer is queued again once: a second return of the same buffer
/// finds it no longer held.
pub proof fn law_no_double_return(before: StreamData, after: StreamData, token: SendBufferToken)
    requires
        after.held() == before.held().remove(token.0),
    ensures
        !after.held().contains(token.0),
{
}

// ---------------------------------------------------------------------------
// The capture thread
// ---------------------------------------------------------------------------

/// What the capture thread does for a start command.
#[derive(Clone, Copy, Debug, PartialEq, Eq, Structural)]
pub enum StartStep {
    /// Connect to the portal remote that came with the command, then ask again.
    Connect,
    /// The stream already runs.
    Nothing,
    /// There is no connection: report the source.
    ReportOffline,
    /// Create the stream.
    Create,
}

/// State of the capture thread.
pub struct CaptureThread {
    connected: bool,
    streams: IdMap<StreamData>,
}

impl CaptureThread {
    /// Whether a portal connection exists.
    pub closed spec fn is_connected(self) -> bool {
        self.connected
    }

    /// The running streams.
    pub closed spec fn running(self) -> Map<u128, StreamData> {
        self.streams@
    }

    /// Every stream is listed once and is itself well-formed.
    pub closed spec fn wf(self) -> bool {
        &&& self.streams.wf()
        &&& forall|id: u128| #[trigger]
            self.streams@.dom().contains(id) ==> self.streams@[id].wf()
    }

    /// A thread without a connection.
    pub fn new() -> (r: Self)
        ensures
            r.wf(),
            !r.is_connected(),
            r.running() == Map::<u128, StreamData>::empty(),
    {
        CaptureThread { connected: false, streams: IdMap::new() }
    }

    /// Decides on a start command. `remote` tells whether a portal remote came
    /// with it; one that arrives while a connection exists is dropped.
    pub fn begin_start(&self, source_id: u128, remote: bool) -> (r: StartStep)
        requires
            self.wf(),
        ensures
            r == (if remote && !self.is_connected() {
                StartStep::Connect
            } else if self.running().dom().contains(source_id) {
                StartStep::Nothing
            } else if !self.is_connected() {
                StartStep::ReportOffline
            } else {
                StartStep::Create
            }),
    {
        if remote && !self.connected {
            StartStep::Connect
        } else if self.streams.contains(source_id) {
            StartStep::Nothing
        } else if !self.connected {
            StartStep::ReportOffline
        } else {
            StartStep::Create
        }
    }

    /// The portal connection was made.
    pub fn on_connected(&mut self)
        requires
            old(self).wf(),
        ensures
            final(self).wf(),
            final(self).is_connected(),
            final(self).running() == old(self).running(),
    {
        self.connected = true;
    }

    /// The stream of a source was created.
    pub fn on_created(&mut self, source_id: u128)
        requires
            old(self).wf(),
        ensures
            final(self).wf(),
            final(self).is_connected() == old(self).is_connected(),
            final(self).running().dom() == old(self).running().dom().insert(source_id),
            final(self).running()[source_id].is_fresh(source_id),
            forall|id: u128|
                id != source_id && #[trigger] old(self).running().dom().contains(id)
                    ==> final(self).running()[id] == old(self).running()[id],
    {
        self.streams.insert(source_id, StreamData::new(source_id));
    }

    /// The running stream of a source, for what PipeWire tells about it.
    pub fn stream_mut(&mut self, source_id: u128) -> (r: Option<&mut StreamData>)
        requires
            old(self).wf(),
        ensures
            final(self).is_connected() == old(self).is_connected(),
            match r {
                Some(stream) => {
                    &&& old(self).running().dom().contains(source_id)
                    &&& *stream == old(self).running()[source_id]
                    &&& stream.wf()
                    &&& final(self).running() == old(self).running().insert(
                        source_id,
                        *final(stream),
                    )
                    &&& final(stream).wf() ==> final(self).wf()
                },
                None => {
                    &&& !old(self).running().dom().contains(source_id)
                    &&& final(self).running() == old(self).running()
                    &&& final(self).wf()
                },
            },
    {
        self.streams.get_mut(source_id)
    }

    /// A stop command: forgets the stream.
    pub fn stop(&mut self, source_id: u128)
        requires
            old(self).wf(),
        ensures
            final(self).wf(),
            final(self).is_connected() == old(self).is_connected(),
            final(self).running() == old(self).running().remove(source_id),
    {
        self.streams.remove(source_id);
    }

    /// A return command; true where the buffer is to be queued again.
    pub fn return_buffer(&mut self, source_id: u128, token: SendBufferToken) -> (r: bool)
        requires
            old(self).wf(),
        ensures
            final(self).wf(),
            final(self).is_connected() == old(self).is_connected(),
            final(self).running().dom() == old(self).running().dom(),
            r == (old(self).running().dom().contains(source_id)
                && old(self).running()[source_id].held().contains(token.0)),
            old(self).running().dom().contains(source_id) ==> {
                let before = old(self).running()[source_id];
                let after = final(self).running()[source_id];
                &&& after.held() == before.held().remove(token.0)
                &&& after.source() == before.source()
                &&& after.format() == before.format()
                &&& after.next_sequence() == before.next_sequence()
            },
            forall|id: u128|
                id != source_id && #[trigger] old(self).running().dom().contains(id)
                    ==> final(self).running()[id] == old(self).running()[id],
    {
        match self.streams.get_mut(source_id) {
            Some(stream) => stream.release(token),
            None => false,
        }
    }

    /// A shutdown command: forgets every stream and the connection.
    pub fn shutdown(&mut self)
        requires
            old(self).wf(),
        ensures
            final(self).wf(),
            !final(self).is_connected(),
            final(self).running() == Map::<u128, StreamData>::empty(),
    {
        self.streams.clear();
        self.connected = false;
    }
}

/// The report of a source whose portal connection could not be made.
pub fn connection_failed(detail: &str) -> (r: String)
    ensures
        r@ == "PipeWire-Portalverbindung fehlgeschlagen: "@ + detail@,
{
    joined("PipeWire-Portalverbindung fehlgeschlagen: ", detail)
}

/// The report of a source that has no portal connection.
pub fn connection_missing() -> (r: String)
    ensures
        r@ == "PipeWire-Portalverbindung nicht verfügbar"@,
{
    "PipeWire-Portalverbindung nicht verfügbar".to_owned()
}

/// The report of a source whose buffer layout PipeWire refused.
pub fn negotiation_failed(detail: &str) -> (r: String)
    ensures
        r@ == "PipeWire-DMA-BUF-Aushandlung: "@ + detail@,
{
    joined("PipeWire-DMA-BUF-Aushandlung: ", detail)
}

} // verus!
