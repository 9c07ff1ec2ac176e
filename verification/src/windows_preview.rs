//! The native preview of the Windows studio and the transparent overlay above it,
//! which draws the selection and takes the pointer.
//!
//! Positions of the pointer are the caller's (`P`); nothing here computes with
//! them.

use vstd::prelude::*;
use vstd::string::*;

use crate::keyed_map::KeyedMap;
use crate::platform_windows;
use crate::platform_windows::{saturated, Rect};
use crate::render_loop;
use crate::render_loop::{surface_side, NativeSurfaceKind, NativeSurfaces};
use crate::shell::SourceEnumeration;
use crate::text::joined;

verus! {

/// The first size of the preview.
pub const PREVIEW_INITIAL_WIDTH: u32 = 16;

/// The first size of the preview.
pub const PREVIEW_INITIAL_HEIGHT: u32 = 9;

// ---------------------------------------------------------------------------
// Messages
// ---------------------------------------------------------------------------

/// The number that 16 bits stand for in two's complement.
pub open spec fn signed16(bits: int) -> int {
    if bits < 0x8000 {
        bits
    } else {
        bits - 0x10000
    }
}

/// The 16 bits of a message parameter above `shift`.
pub open spec fn word(value: isize, shift: u32) -> int {
    (((value as u32) >> (shift % 32)) % 0x10000) as int
}

/// The signed 16-bit number in a message parameter above `shift`.
pub fn signed_word(value: isize, shift: u32) -> (r: i32)
    ensures
        r == signed16(word(value, shift)),
{
    let bits: u32 = value as u32;
    let moved: u32 = bits >> (shift % 32);
    let low: u32 = moved % 0x10000;
    if low < 0x8000 {
        low as i32
    } else {
        low as i32 - 0x10000
    }
}

/// Both coordinates of a message come back as they were packed.
pub proof fn law_packed_coordinates_come_back(x: i16, y: i16, value: isize)
    requires
        value as u32 == ((y as u16) as u32) * 0x10000 + (x as u16) as u32,
    ensures
        signed16(word(value, 0)) == x,
        signed16(word(value, 16)) == y,
{
    let bits: u32 = value as u32;
    let low: u16 = x as u16;
    let high: u16 = y as u16;
    assert(bits >> 0 == bits) by (bit_vector);
    assert(bits >> 16 == bits / 0x10000) by (bit_vector);
    assert(x == signed16(low as int)) by {
        assert((x as u16) < 0x8000 ==> (x as u16) == x) by (bit_vector);
        assert((x as u16) >= 0x8000 ==> (x as u16) - 0x10000 == x) by (bit_vector);
    }
    assert(y == signed16(high as int)) by {
        assert((y as u16) < 0x8000 ==> (y as u16) == y) by (bit_vector);
        assert((y as u16) >= 0x8000 ==> (y as u16) - 0x10000 == y) by (bit_vector);
    }
}

/// The colour value of Win32: red in the lowest byte.
pub fn rgb(red: u8, green: u8, blue: u8) -> (r: u32)
    ensures
        r == red + green * 0x100 + blue * 0x1_0000,
{
    let r: u32 = red as u32;
    let g: u32 = green as u32;
    let b: u32 = blue as u32;
    let value: u32 = r | (g << 8) | (b << 16);
    assert(value == r + g * 0x100 + b * 0x1_0000) by (bit_vector)
        requires
            r < 256,
            g < 256,
            b < 256,
            value == r | (g << 8) | (b << 16),
    ;
    value
}

/// Which keys are held during a pointer event.
#[derive(Clone, Copy, Debug, PartialEq, Eq, Structural)]
pub struct PointerKeys {
    pub shift_key: bool,
    pub alt_key: bool,
    pub ctrl_key: bool,
}

/// Which keys are held: by the flags of the message, or by the state of the key,
/// which is negative while it is down.
pub fn pointer_keys(shift_flag: bool, ctrl_flag: bool, shift: i16, alt: i16, ctrl: i16) -> (r:
    PointerKeys)
    ensures
        r == (PointerKeys {
            shift_key: shift_flag || shift < 0,
            alt_key: alt < 0,
            ctrl_key: ctrl_flag || ctrl < 0,
        }),
{
    PointerKeys {
        shift_key: shift_flag || shift < 0,
        alt_key: alt < 0,
        ctrl_key: ctrl_flag || ctrl < 0,
    }
}

/// What happens to the pointer over the overlay.
#[derive(Clone, Copy, Debug, PartialEq, Eq, Structural)]
pub enum PointerPhase {
    Down,
    Move,
    Up,
    Cancel,
}

/// A message to the overlay; positions are those of the pointer.
#[derive(Clone, Copy, Debug)]
pub enum OverlayMessage<P> {
    HitTest,
    MouseActivate,
    EraseBackground,
    Paint,
    Size,
    ButtonDown(P),
    MouseMove(P),
    ButtonUp(P),
    CancelMode,
    CaptureChanged,
    Destroyed,
    Other,
}

/// What the overlay does, in order.
#[derive(Clone, Copy, Debug)]
pub enum OverlayAction<P> {
    /// The window needs no more painting.
    Validate,
    /// The overlay is drawn anew.
    Redraw,
    /// The pointer is captured.
    Capture,
    /// The capture of the pointer ends.
    Release,
    /// The capture of the pointer ends where the overlay has it.
    ReleaseOwn,
    /// The studio is told.
    Emit { phase: PointerPhase, position: P },
    /// The system handles the message.
    Default,
    /// The window forgets its state.
    Forget,
}

/// The answer to a message; none where the system answers.
pub open spec fn answer<P>(o: Overlay<P>, message: OverlayMessage<P>) -> Option<isize> {
    match message {
        OverlayMessage::HitTest => Some(
            if o.model_visible && o.native_visible {
                1
            } else {
                0
            },
        ),
        OverlayMessage::MouseActivate => Some(1),
        OverlayMessage::EraseBackground => Some(1),
        OverlayMessage::Destroyed => None,
        OverlayMessage::Other => None,
        _ => Some(0),
    }
}

/// The overlay of a preview.
pub struct Overlay<P> {
    pub model_visible: bool,
    pub native_visible: bool,
    pub pointer: Option<P>,
}

/// What ends a running drag.
pub open spec fn cancel_actions<P>(pointer: Option<P>) -> Seq<OverlayAction<P>> {
    match pointer {
        Some(position) => seq![
            OverlayAction::Emit { phase: PointerPhase::Cancel, position },
            OverlayAction::ReleaseOwn,
        ],
        None => Seq::empty(),
    }
}

/// What the overlay does with a message.
pub open spec fn actions_of<P>(pointer: Option<P>, message: OverlayMessage<P>) -> Seq<
    OverlayAction<P>,
> {
    match message {
        OverlayMessage::Paint => seq![OverlayAction::Validate, OverlayAction::Redraw],
        OverlayMessage::Size => seq![OverlayAction::Redraw],
        OverlayMessage::ButtonDown(position) => seq![
            OverlayAction::Capture,
            OverlayAction::Emit { phase: PointerPhase::Down, position },
        ],
        OverlayMessage::MouseMove(position) => if pointer is Some {
            seq![OverlayAction::Emit { phase: PointerPhase::Move, position }]
        } else {
            Seq::empty()
        },
        OverlayMessage::ButtonUp(position) => if pointer is Some {
            seq![
                OverlayAction::Emit { phase: PointerPhase::Up, position },
                OverlayAction::Release,
            ]
        } else {
            Seq::empty()
        },
        OverlayMessage::CancelMode => cancel_actions(pointer),
        OverlayMessage::CaptureChanged => cancel_actions(pointer),
        OverlayMessage::Destroyed => cancel_actions(pointer) + seq![
            OverlayAction::Default,
            OverlayAction::Forget,
        ],
        OverlayMessage::Other => seq![OverlayAction::Default],
        _ => Seq::empty(),
    }
}

/// The dragging pointer after a message.
pub open spec fn pointer_after<P>(pointer: Option<P>, message: OverlayMessage<P>) -> Option<P> {
    match message {
        OverlayMessage::ButtonDown(position) => Some(position),
        OverlayMessage::MouseMove(position) => if pointer is Some {
            Some(position)
        } else {
            None
        },
        OverlayMessage::ButtonUp(_) => None,
        OverlayMessage::CancelMode => None,
        OverlayMessage::CaptureChanged => None,
        OverlayMessage::Destroyed => None,
        _ => pointer,
    }
}

/// What a window without state does with a message.
#[derive(Clone, Copy, Debug, PartialEq, Eq, Structural)]
pub enum Attachment {
    /// It takes the state that it was created with and answers 1.
    Attach,
    /// It was created without a state and answers 0, which ends its creation.
    Refuse,
    /// The system handles the message.
    Default,
}

/// What a window without state does with a message.
pub fn attach(is_creation: bool, has_parameters: bool) -> (r: Attachment)
    ensures
        r == (if !is_creation {
            Attachment::Default
        } else if has_parameters {
            Attachment::Attach
        } else {
            Attachment::Refuse
        }),
{
    if !is_creation {
        Attachment::Default
    } else if has_parameters {
        Attachment::Attach
    } else {
        Attachment::Refuse
    }
}

impl<P: Copy> Overlay<P> {
    /// A visible overlay that nobody drags on.
    pub fn new() -> (r: Self)
        ensures
            r == (Overlay { model_visible: true, native_visible: true, pointer: None::<P> }),
    {
        Overlay { model_visible: true, native_visible: true, pointer: None }
    }

    /// Ends a running drag.
    pub fn pointer_cancel(&mut self) -> (r: Option<P>)
        ensures
            r == old(self).pointer,
            *final(self) == (Overlay { pointer: None::<P>, ..*old(self) }),
    {
        self.pointer.take()
    }

    /// Ends a running drag and tells what is done about it.
    pub fn cancel_pointer_capture(&mut self, actions: &mut Vec<OverlayAction<P>>)
        ensures
            *final(self) == (Overlay { pointer: None::<P>, ..*old(self) }),
            final(actions)@ == old(actions)@ + cancel_actions(old(self).pointer),
    {
        match self.pointer_cancel() {
            Some(position) => {
                actions.push(OverlayAction::Emit { phase: PointerPhase::Cancel, position });
                actions.push(OverlayAction::ReleaseOwn);
            },
            None => {},
        }
        assert(actions@ =~= old(actions)@ + cancel_actions(old(self).pointer));
    }

    /// Takes a message and gives the answer, where the overlay has one.
    pub fn on_message(&mut self, message: OverlayMessage<P>, actions: &mut Vec<OverlayAction<P>>) ->
        (r: Option<isize>)
        ensures
            r == answer(*old(self), message),
            *final(self) == (Overlay {
                pointer: pointer_after(old(self).pointer, message),
                ..*old(self)
            }),
            final(actions)@ == old(actions)@ + actions_of(old(self).pointer, message),
    {
        let ghost goal = actions@ + actions_of(self.pointer, message);
        let dragging = self.pointer.is_some();
        let answer: Option<isize> = match message {
            OverlayMessage::HitTest => {
                if self.model_visible && self.native_visible {
                    Some(1)
                } else {
                    Some(0)
                }
            },
            OverlayMessage::MouseActivate => Some(1),
            OverlayMessage::EraseBackground => Some(1),
            OverlayMessage::Paint => {
                actions.push(OverlayAction::Validate);
                actions.push(OverlayAction::Redraw);
                Some(0)
            },
            OverlayMessage::Size => {
                actions.push(OverlayAction::Redraw);
                Some(0)
            },
            OverlayMessage::ButtonDown(position) => {
                self.pointer = Some(position);
                actions.push(OverlayAction::Capture);
                actions.push(OverlayAction::Emit { phase: PointerPhase::Down, position });
                Some(0)
            },
            OverlayMessage::MouseMove(position) => {
                if dragging {
                    self.pointer = Some(position);
                    actions.push(OverlayAction::Emit { phase: PointerPhase::Move, position });
                }
                Some(0)
            },
            OverlayMessage::ButtonUp(position) => {
                if dragging {
                    self.pointer = None;
                    actions.push(OverlayAction::Emit { phase: PointerPhase::Up, position });
                    actions.push(OverlayAction::Release);
                }
                Some(0)
            },
            OverlayMessage::CancelMode => {
                self.cancel_pointer_capture(actions);
                Some(0)
            },
            OverlayMessage::CaptureChanged => {
                self.cancel_pointer_capture(actions);
                Some(0)
            },
            OverlayMessage::Destroyed => {
                self.cancel_pointer_capture(actions);
                actions.push(OverlayAction::Default);
                actions.push(OverlayAction::Forget);
                None
            },
            OverlayMessage::Other => {
                actions.push(OverlayAction::Default);
                None
            },
        };
        assert(actions@ =~= goal);
        answer
    }
}

/// A drag is told from the press to the release: the press captures the pointer and is
/// told; each move in between is told; the release is told and ends the capture; and a
/// drag that is broken off is told as such, where the pointer was last. Without a press
/// nothing is told.
pub proof fn law_drag_is_told_from_press_to_release<P>(pointer: Option<P>, position: P)
    ensures
        actions_of(pointer, OverlayMessage::ButtonDown(position)) == seq![
            OverlayAction::Capture,
            OverlayAction::Emit { phase: PointerPhase::Down, position },
        ],
        pointer_after(pointer, OverlayMessage::ButtonDown(position)) == Some(position),
        pointer is Some ==> {
            &&& actions_of(pointer, OverlayMessage::MouseMove(position)) == seq![
                OverlayAction::Emit { phase: PointerPhase::Move, position },
            ]
            &&& pointer_after(pointer, OverlayMessage::MouseMove(position)) == Some(position)
            &&& actions_of(pointer, OverlayMessage::ButtonUp(position)) == seq![
                OverlayAction::Emit { phase: PointerPhase::Up, position },
                OverlayAction::Release,
            ]
            &&& actions_of(pointer, OverlayMessage::<P>::CancelMode)[0] == OverlayAction::Emit {
                phase: PointerPhase::Cancel,
                position: pointer->0,
            }
            &&& actions_of(pointer, OverlayMessage::<P>::CaptureChanged)[0] == OverlayAction::Emit {
                phase: PointerPhase::Cancel,
                position: pointer->0,
            }
            &&& actions_of(pointer, OverlayMessage::<P>::Destroyed)[0] == OverlayAction::Emit {
                phase: PointerPhase::Cancel,
                position: pointer->0,
            }
        },
        pointer is None ==> {
            &&& actions_of(pointer, OverlayMessage::MouseMove(position)).len() == 0
            &&& pointer_after(pointer, OverlayMessage::MouseMove(position)) is None
            &&& actions_of(pointer, OverlayMessage::ButtonUp(position)).len() == 0
            &&& actions_of(pointer, OverlayMessage::<P>::CancelMode).len() == 0
        },
        pointer_after(pointer, OverlayMessage::ButtonUp(position)) is None,
        pointer_after(pointer, OverlayMessage::<P>::Paint) == pointer,
        pointer_after(pointer, OverlayMessage::<P>::HitTest) == pointer,
        pointer_after(pointer, OverlayMessage::<P>::Other) == pointer,
{
}

/// The overlay takes the pointer exactly while the studio shows it and its window is on
/// the screen; it never takes the focus, and leaves its background alone.
pub proof fn law_shown_overlay_takes_the_pointer<P>(overlay: Overlay<P>)
    ensures
        answer(overlay, OverlayMessage::<P>::HitTest) == Some(1isize) <==> overlay.model_visible
            && overlay.native_visible,
        answer(overlay, OverlayMessage::<P>::HitTest) == Some(0isize) <==> !overlay.model_visible
            || !overlay.native_visible,
        answer(overlay, OverlayMessage::<P>::MouseActivate) == Some(1isize),
        answer(overlay, OverlayMessage::<P>::EraseBackground) == Some(1isize),
        answer(overlay, OverlayMessage::<P>::Other) is None,
        answer(overlay, OverlayMessage::<P>::Destroyed) is None,
{
}

/// A drag that began ends exactly once: after the button was released, the drag was
/// cancelled or the window destroyed, nothing more is told until the next press.
pub proof fn law_drag_ends_once<P>(pointer: Option<P>, end: OverlayMessage<P>, position: P)
    requires
        end is ButtonUp || end is CancelMode || end is CaptureChanged || end is Destroyed,
    ensures
        ({
            let after = pointer_after(pointer, end);
            &&& after is None
            &&& actions_of(after, OverlayMessage::MouseMove(position)).len() == 0
            &&& actions_of(after, OverlayMessage::ButtonUp(position)).len() == 0
            &&& actions_of(after, OverlayMessage::<P>::CaptureChanged).len() == 0
        }),
{
}

// ---------------------------------------------------------------------------
// Drawing
// ---------------------------------------------------------------------------

/// A side of the overlay's client area: at least one pixel.
pub open spec fn side(low: i32, high: i32) -> int {
    let n = platform_windows::clamped(high - low);
    if n < 1 {
        1
    } else {
        n
    }
}

/// Width and height of the overlay's client area, at least one pixel each.
pub fn client_size(client: Rect) -> (r: (i32, i32))
    ensures
        r.0 == side(client.left, client.right),
        r.1 == side(client.top, client.bottom),
{
    let width: i32 = saturated(client.right as i64 - client.left as i64);
    let height: i32 = saturated(client.bottom as i64 - client.top as i64);
    (
        if width < 1 {
            1
        } else {
            width
        },
        if height < 1 {
            1
        } else {
            height
        },
    )
}

/// How a selection is drawn.
#[derive(Clone, Copy, Debug, PartialEq, Eq, Structural)]
pub struct SelectionStyle {
    pub line: u32,
    pub handle: u32,
    pub dashed: bool,
}

/// How a selection is drawn: a locked one dashed and amber, another one solid and
/// violet.
pub fn selection_style(locked: bool) -> (r: SelectionStyle)
    ensures
        r == (if locked {
            SelectionStyle { line: 0x2e_b2ff, handle: 0x14_486f, dashed: true }
        } else {
            SelectionStyle { line: 0xff_767f, handle: 0x5c_1d23, dashed: false }
        }),
{
    if locked {
        SelectionStyle { line: rgb(255, 178, 46), handle: rgb(111, 72, 20), dashed: true }
    } else {
        SelectionStyle { line: rgb(127, 118, 255), handle: rgb(35, 29, 92), dashed: false }
    }
}

/// The square around a corner or an edge of the selection.
pub fn handle_rect(x: i32, y: i32) -> (r: Rect)
    ensures
        r.left == platform_windows::clamped(x - 4),
        r.top == platform_windows::clamped(y - 4),
        r.right == platform_windows::clamped(x + 4),
        r.bottom == platform_windows::clamped(y + 4),
{
    Rect {
        left: saturated(x as i64 - 4),
        top: saturated(y as i64 - 4),
        right: saturated(x as i64 + 4),
        bottom: saturated(y as i64 + 4),
    }
}

/// A drawn pixel becomes opaque; an empty one stays almost transparent, so that the
/// pointer still hits it.
pub open spec fn finished_pixel(pixel: u32) -> int {
    if pixel as int % 0x100_0000 == 0 {
        0x100_0000
    } else {
        0xff00_0000 + pixel as int % 0x100_0000
    }
}

fn finish_pixel(pixel: u32) -> (r: u32)
    ensures
        r == finished_pixel(pixel),
{
    let color: u32 = pixel & 0x00ff_ffff;
    assert(color == pixel % 0x100_0000) by (bit_vector)
        requires
            color == pixel & 0x00ff_ffff,
    ;
    if color == 0 {
        0x0100_0000
    } else {
        let opaque: u32 = color | 0xff00_0000;
        assert(opaque == 0xff00_0000 + color) by (bit_vector)
            requires
                color < 0x100_0000,
                opaque == color | 0xff00_0000,
        ;
        opaque
    }
}

/// Gives the drawn pixels of the overlay their opacity.
pub fn finish_overlay(pixels: &mut Vec<u32>)
    ensures
        final(pixels)@.len() == old(pixels)@.len(),
        forall|i: int|
            0 <= i < old(pixels)@.len() ==> #[trigger] final(pixels)@[i] == finished_pixel(
                old(pixels)@[i],
            ),
{
    let ghost before = pixels@;
    let mut i: usize = 0;
    while i < pixels.len()
        invariant
            i <= pixels@.len(),
            pixels@.len() == before.len(),
            forall|j: int| 0 <= j < i ==> #[trigger] pixels@[j] == finished_pixel(before[j]),
            forall|j: int| i <= j < before.len() ==> #[trigger] pixels@[j] == before[j],
        decreases pixels@.len() - i,
    {
        let pixel: u32 = finish_pixel(pixels[i]);
        pixels.set(i, pixel);
        i += 1;
    }
}

/// A drawn pixel keeps its colour and becomes opaque; an empty one becomes all but
/// transparent, so that the pointer still meets it.
pub proof fn law_drawn_pixels_keep_their_colour(pixel: u32)
    ensures
        pixel as int % 0x100_0000 != 0 ==> finished_pixel(pixel) % 0x100_0000 == pixel as int
            % 0x100_0000 && finished_pixel(pixel) / 0x100_0000 == 255,
        pixel as int % 0x100_0000 == 0 ==> finished_pixel(pixel) % 0x100_0000 == 0
            && finished_pixel(pixel) / 0x100_0000 == 1,
{
}

/// A side is the distance of its ends, and at least one pixel.
pub proof fn law_side_is_the_distance(low: i32, high: i32)
    ensures
        side(low, high) >= 1,
        1 <= high - low <= i32::MAX ==> side(low, high) == high - low,
        high <= low ==> side(low, high) == 1,
{
}

/// Every pixel of the overlay takes the pointer: none is wholly transparent.
pub proof fn law_overlay_takes_the_pointer(pixel: u32)
    ensures
        finished_pixel(pixel) >= 0x100_0000,
        finished_pixel(pixel) <= u32::MAX,
{
}

// ---------------------------------------------------------------------------
// Windows of the preview
// ---------------------------------------------------------------------------

/// The step of making a preview that failed.
#[derive(Clone, Copy, Debug, PartialEq, Eq, Structural)]
pub enum PreviewStage {
    Preview,
    Overlay,
    Place,
    Draw,
}

/// A window of the preview.
#[derive(Clone, Copy, Debug, PartialEq, Eq, Structural)]
pub enum PreviewWindow {
    Overlay,
    Preview,
}

/// What is destroyed when making a preview fails: what was made, newest first.
pub fn creation_rollback(stage: PreviewStage) -> (r: Vec<PreviewWindow>)
    ensures
        r@ == (match stage {
            PreviewStage::Preview => Seq::empty(),
            PreviewStage::Overlay => seq![PreviewWindow::Preview],
            PreviewStage::Place => seq![PreviewWindow::Overlay, PreviewWindow::Preview],
            PreviewStage::Draw => seq![PreviewWindow::Overlay, PreviewWindow::Preview],
        }),
{
    let mut r: Vec<PreviewWindow> = Vec::new();
    match stage {
        PreviewStage::Preview => {},
        PreviewStage::Overlay => {
            r.push(PreviewWindow::Preview);
        },
        PreviewStage::Place => {
            r.push(PreviewWindow::Overlay);
            r.push(PreviewWindow::Preview);
        },
        PreviewStage::Draw => {
            r.push(PreviewWindow::Overlay);
            r.push(PreviewWindow::Preview);
        },
    }
    assert(r@ =~= (match stage {
        PreviewStage::Preview => Seq::empty(),
        PreviewStage::Overlay => seq![PreviewWindow::Preview],
        PreviewStage::Place => seq![PreviewWindow::Overlay, PreviewWindow::Preview],
        PreviewStage::Draw => seq![PreviewWindow::Overlay, PreviewWindow::Preview],
    }));
    r
}

/// What is reported when making a preview fails.
pub fn creation_error(stage: PreviewStage, error: &str) -> (r: String)
    ensures
        r@ == (match stage {
            PreviewStage::Preview => "Native D3D11-Preview konnte nicht erstellt werden: "@
                + error@,
            PreviewStage::Overlay => {
                "Transparentes Preview-Overlay konnte nicht erstellt werden: "@ + error@
            },
            PreviewStage::Place => {
                "Preview-Overlay konnte nicht über der D3D11-Fläche platziert werden: "@ + error@
            },
            PreviewStage::Draw => error@,
        }),
{
    match stage {
        PreviewStage::Preview => joined(
            "Native D3D11-Preview konnte nicht erstellt werden: ",
            error,
        ),
        PreviewStage::Overlay => joined(
            "Transparentes Preview-Overlay konnte nicht erstellt werden: ",
            error,
        ),
        PreviewStage::Place => joined(
            "Preview-Overlay konnte nicht über der D3D11-Fläche platziert werden: ",
            error,
        ),
        PreviewStage::Draw => error.to_owned(),
    }
}

/// The surfaces of a new preview.
pub fn initial_surfaces(
    studio: usize,
    program: usize,
    preview: usize,
    program_width: u32,
    program_height: u32,
) -> (r: NativeSurfaces)
    ensures
        r == (NativeSurfaces {
            kind: NativeSurfaceKind::Win32,
            studio,
            display: 0,
            program,
            preview,
            program_width: render_loop::at_least_one(program_width),
            program_height: render_loop::at_least_one(program_height),
            preview_width: PREVIEW_INITIAL_WIDTH,
            preview_height: PREVIEW_INITIAL_HEIGHT,
        }),
{
    NativeSurfaces {
        kind: NativeSurfaceKind::Win32,
        studio,
        display: 0,
        program,
        preview,
        program_width: surface_side(program_width),
        program_height: surface_side(program_height),
        preview_width: PREVIEW_INITIAL_WIDTH,
        preview_height: PREVIEW_INITIAL_HEIGHT,
    }
}

/// The windows of a preview; 0 stands for one that was destroyed.
#[derive(Clone, Copy, Debug, PartialEq, Eq, Structural)]
pub struct NativePreview {
    pub hwnd: usize,
    pub overlay: usize,
}

/// What is reported when windows could not be destroyed.
pub open spec fn destroy_errors(
    overlay: Option<Seq<char>>,
    preview: Option<Seq<char>>,
) -> Option<Seq<char>> {
    match (overlay, preview) {
        (None, None) => None,
        (Some(o), None) => Some("Preview-Overlay: "@ + o),
        (None, Some(p)) => Some("D3D11-Preview: "@ + p),
        (Some(o), Some(p)) => Some("Preview-Overlay: "@ + o + "; "@ + "D3D11-Preview: "@ + p),
    }
}

/// The text of a failure, where there was one.
pub open spec fn failure_text(result: Option<String>) -> Option<Seq<char>> {
    match result {
        Some(error) => Some(error@),
        None => None,
    }
}

impl NativePreview {
    /// The window that the engine renders to.
    pub fn native_handle(&self) -> (r: usize)
        ensures
            r == self.hwnd,
    {
        self.hwnd
    }

    /// Which windows are to be destroyed: the overlay before the preview.
    pub fn to_destroy(&self) -> (r: (Option<usize>, Option<usize>))
        ensures
            r == (if self.hwnd == 0 {
                (None, None)
            } else {
                (
                    if self.overlay != 0 {
                        Some(self.overlay)
                    } else {
                        None
                    },
                    Some(self.hwnd),
                )
            }),
    {
        if self.hwnd == 0 {
            return (None, None);
        }
        let overlay = if self.overlay != 0 {
            Some(self.overlay)
        } else {
            None
        };
        (overlay, Some(self.hwnd))
    }

    /// Takes the failures of destroying the windows. A window that is gone is not
    /// destroyed again.
    pub fn on_destroyed(&mut self, overlay: Option<String>, preview: Option<String>) -> (r: Result<
        (),
        String,
    >)
        requires
            old(self).overlay == 0 ==> overlay is None,
            old(self).hwnd != 0,
        ensures
            final(self).overlay == (if overlay is Some {
                old(self).overlay
            } else {
                0
            }),
            final(self).hwnd == (if preview is Some {
                old(self).hwnd
            } else {
                0
            }),
            match r {
                Ok(()) => destroy_errors(failure_text(overlay), failure_text(preview)) is None,
                Err(message) => destroy_errors(failure_text(overlay), failure_text(preview))
                    == Some(message@),
            },
    {
        if overlay.is_none() {
            self.overlay = 0;
        }
        if preview.is_none() {
            self.hwnd = 0;
        }
        match (overlay, preview) {
            (None, None) => Ok(()),
            (Some(o), None) => Err(joined("Preview-Overlay: ", o.as_str())),
            (None, Some(p)) => Err(joined("D3D11-Preview: ", p.as_str())),
            (Some(o), Some(p)) => {
                let head = joined("Preview-Overlay: ", o.as_str());
                let head = joined(head.as_str(), "; ");
                let head = joined(head.as_str(), "D3D11-Preview: ");
                Err(joined(head.as_str(), p.as_str()))
            },
        }
    }
}

/// The overlays of the previews, by the preview's window.
pub struct PreviewRegistry<P> {
    entries: KeyedMap<usize, PreviewEntry<P>>,
}

/// A registered preview.
pub struct PreviewEntry<P> {
    pub window: usize,
    pub overlay: Overlay<P>,
}

impl<P> View for PreviewRegistry<P> {
    type V = Map<usize, PreviewEntry<P>>;

    closed spec fn view(&self) -> Map<usize, PreviewEntry<P>> {
        self.entries@
    }
}

/// The answer when a preview is not registered.
pub open spec fn no_overlay() -> Seq<char> {
    "Native Preview-Overlay ist nicht verfügbar"@
}

/// Which windows are shown.
#[derive(Clone, Copy, Debug, PartialEq, Eq, Structural)]
pub struct Visibility {
    pub preview: bool,
    pub overlay: bool,
}

/// A preview that begins to be shown or hidden: it takes no pointer, and hidden, a
/// running drag ends.
pub open spec fn begun<P>(before: PreviewEntry<P>, visible: bool) -> PreviewEntry<P> {
    PreviewEntry {
        overlay: Overlay {
            model_visible: before.overlay.model_visible,
            native_visible: false,
            pointer: if visible {
                before.overlay.pointer
            } else {
                None
            },
        },
        ..before
    }
}

impl<P: Copy> PreviewRegistry<P> {
    /// Each preview is listed once.
    pub closed spec fn wf(self) -> bool {
        self.entries.wf()
    }

    /// No previews.
    pub fn new() -> (r: Self)
        ensures
            r.wf(),
            r@ == Map::<usize, PreviewEntry<P>>::empty(),
    {
        PreviewRegistry { entries: KeyedMap::new() }
    }

    /// Registers a preview with the overlay that took the messages of its window until
    /// now.
    pub fn register(&mut self, preview: NativePreview, overlay: Overlay<P>)
        requires
            old(self).wf(),
        ensures
            final(self).wf(),
            final(self)@ == old(self)@.insert(
                preview.hwnd,
                PreviewEntry { window: preview.overlay, overlay },
            ),
    {
        self.entries.insert(preview.hwnd, PreviewEntry { window: preview.overlay, overlay });
    }

    /// Forgets a preview and gives what was registered: its overlay takes the last
    /// messages of its window.
    pub fn unregister(&mut self, hwnd: usize) -> (r: Option<PreviewEntry<P>>)
        requires
            old(self).wf(),
        ensures
            final(self).wf(),
            final(self)@ == old(self)@.remove(hwnd),
            r == (if old(self)@.dom().contains(hwnd) {
                Some(old(self)@[hwnd])
            } else {
                None
            }),
    {
        self.entries.remove(&hwnd)
    }

    /// The windows that are moved together: the preview, then its overlay.
    pub fn set_preview_bounds(&self, hwnd: usize, width: i32, height: i32) -> (r: Result<
        (usize, usize),
        String,
    >)
        requires
            self.wf(),
        ensures
            if width <= 0 || height <= 0 {
                r is Err && r->Err_0@ == "Vorschauabmessungen müssen positiv sein"@
            } else if self@.dom().contains(hwnd) {
                r == Ok::<(usize, usize), String>((hwnd, self@[hwnd].window))
            } else {
                r is Err && r->Err_0@ == no_overlay()
            },
    {
        if width <= 0 || height <= 0 {
            return Err("Vorschauabmessungen müssen positiv sein".to_owned());
        }
        match self.entries.get(&hwnd) {
            Some(entry) => Ok((hwnd, entry.window)),
            None => Err("Native Preview-Overlay ist nicht verfügbar".to_owned()),
        }
    }

    /// Hands a message of a preview's overlay window to its overlay, whose state the
    /// other calls change. None where the preview is not registered.
    pub fn on_message(
        &mut self,
        hwnd: usize,
        message: OverlayMessage<P>,
        actions: &mut Vec<OverlayAction<P>>,
    ) -> (r: Option<Option<isize>>)
        requires
            old(self).wf(),
        ensures
            final(self).wf(),
            if old(self)@.dom().contains(hwnd) {
                let before = old(self)@[hwnd];
                &&& r == Some(answer(before.overlay, message))
                &&& final(self)@ == old(self)@.insert(
                    hwnd,
                    PreviewEntry {
                        overlay: Overlay {
                            pointer: pointer_after(before.overlay.pointer, message),
                            ..before.overlay
                        },
                        ..before
                    },
                )
                &&& final(actions)@ == old(actions)@ + actions_of(before.overlay.pointer, message)
            } else {
                &&& r is None
                &&& final(self)@ == old(self)@
                &&& final(actions)@ == old(actions)@
            },
    {
        match self.entries.get_mut(&hwnd) {
            Some(entry) => Some(entry.overlay.on_message(message, actions)),
            None => None,
        }
    }

    /// Shows or hides the selection. Hidden, a running drag ends. Gives whether the
    /// overlay's window is shown.
    pub fn set_preview_overlay(
        &mut self,
        hwnd: usize,
        visible: bool,
        actions: &mut Vec<OverlayAction<P>>,
    ) -> (r: Result<bool, String>)
        requires
            old(self).wf(),
        ensures
            final(self).wf(),
            if old(self)@.dom().contains(hwnd) {
                let before = old(self)@[hwnd];
                &&& r == Ok::<bool, String>(visible && before.overlay.native_visible)
                &&& final(self)@ == old(self)@.insert(
                    hwnd,
                    PreviewEntry {
                        overlay: Overlay {
                            model_visible: visible,
                            native_visible: before.overlay.native_visible,
                            pointer: if visible {
                                before.overlay.pointer
                            } else {
                                None
                            },
                        },
                        ..before
                    },
                )
                &&& final(actions)@ == old(actions)@ + (if visible {
                    Seq::empty()
                } else {
                    cancel_actions(before.overlay.pointer)
                })
            } else {
                &&& r is Err && r->Err_0@ == no_overlay()
                &&& final(self)@ == old(self)@
                &&& final(actions)@ == old(actions)@
            },
    {
        assert(actions@ =~= actions@ + Seq::<OverlayAction<P>>::empty());
        match self.entries.get_mut(&hwnd) {
            Some(entry) => {
                if !visible {
                    entry.overlay.cancel_pointer_capture(actions);
                }
                entry.overlay.model_visible = visible;
                Ok(visible && entry.overlay.native_visible)
            },
            None => Err("Native Preview-Overlay ist nicht verfügbar".to_owned()),
        }
    }

    /// Begins to show or hide a preview: until its windows have changed it takes no
    /// pointer, and a hidden one ends a running drag. Gives which windows are shown.
    pub fn begin_set_visible(
        &mut self,
        hwnd: usize,
        visible: bool,
        actions: &mut Vec<OverlayAction<P>>,
    ) -> (r: Result<Visibility, String>)
        requires
            old(self).wf(),
        ensures
            final(self).wf(),
            if old(self)@.dom().contains(hwnd) {
                let before = old(self)@[hwnd];
                &&& r == Ok::<Visibility, String>(
                    Visibility {
                        preview: visible,
                        overlay: visible && before.overlay.model_visible,
                    },
                )
                &&& final(self)@ == old(self)@.insert(hwnd, begun(before, visible))
                &&& final(actions)@ == old(actions)@ + (if visible {
                    Seq::empty()
                } else {
                    cancel_actions(before.overlay.pointer)
                })
            } else {
                &&& r is Err && r->Err_0@ == no_overlay()
                &&& final(self)@ == old(self)@
                &&& final(actions)@ == old(actions)@
            },
    {
        assert(actions@ =~= actions@ + Seq::<OverlayAction<P>>::empty());
        match self.entries.get_mut(&hwnd) {
            Some(entry) => {
                if !visible {
                    entry.overlay.cancel_pointer_capture(actions);
                }
                entry.overlay.native_visible = false;
                Ok(Visibility { preview: visible, overlay: visible && entry.overlay.model_visible })
            },
            None => Err("Native Preview-Overlay ist nicht verfügbar".to_owned()),
        }
    }

    /// The windows have changed: a shown preview takes the pointer again.
    pub fn finish_set_visible(&mut self, hwnd: usize, visible: bool)
        requires
            old(self).wf(),
        ensures
            final(self).wf(),
            final(self)@ == (if visible && old(self)@.dom().contains(hwnd) {
                let before = old(self)@[hwnd];
                old(self)@.insert(
                    hwnd,
                    PreviewEntry {
                        overlay: Overlay { native_visible: true, ..before.overlay },
                        ..before
                    },
                )
            } else {
                old(self)@
            }),
    {
        if !visible {
            return;
        }
        match self.entries.get_mut(&hwnd) {
            Some(entry) => {
                entry.overlay.native_visible = true;
            },
            None => {},
        }
    }
}

/// A preview whose windows are hidden, or could not be shown, takes no pointer.
pub proof fn law_hidden_preview_takes_no_pointer<P>(overlay: Overlay<P>)
    ensures
        answer(
            Overlay { native_visible: false, ..overlay },
            OverlayMessage::<P>::HitTest,
        ) == Some(0isize),
        answer(Overlay { model_visible: false, ..overlay }, OverlayMessage::<P>::HitTest) == Some(
            0isize,
        ),
{
}

/// The overlay's window and the calls that show and hide it share one state: from the
/// moment a preview begins to be shown or hidden until its windows have changed, a hit
/// test of its overlay answers 0, and a hidden preview has no drag left that a later
/// message could end.
pub proof fn law_changing_preview_takes_no_pointer<P: Copy>(
    before: Map<usize, PreviewEntry<P>>,
    after: Map<usize, PreviewEntry<P>>,
    hwnd: usize,
    visible: bool,
)
    requires
        before.dom().contains(hwnd),
        after == before.insert(hwnd, begun(before[hwnd], visible)),
    ensures
        answer(after[hwnd].overlay, OverlayMessage::<P>::HitTest) == Some(0isize),
        !visible ==> actions_of(after[hwnd].overlay.pointer, OverlayMessage::<P>::CancelMode)
            == Seq::<OverlayAction<P>>::empty(),
        !visible ==> actions_of(after[hwnd].overlay.pointer, OverlayMessage::<P>::CaptureChanged)
            == Seq::<OverlayAction<P>>::empty(),
{
}

/// A drag that a window message began is ended by hiding the selection: the press is
/// noted on the overlay that is hidden, so hiding it tells the end of the drag.
pub proof fn law_hiding_ends_a_pressed_drag<P: Copy>(overlay: Overlay<P>, position: P)
    ensures
        cancel_actions(pointer_after(overlay.pointer, OverlayMessage::ButtonDown(position)))
            == seq![
            OverlayAction::Emit { phase: PointerPhase::Cancel, position },
            OverlayAction::ReleaseOwn,
        ],
{
}

/// What an attempt to move or show a window of the preview failed at.
#[derive(Clone, Copy, Debug, PartialEq, Eq, Structural)]
pub enum PreviewFailure {
    MovePreview,
    MoveOverlay,
    ShowPreview,
    ShowOverlay,
}

/// What is reported when a window of the preview could not be moved or shown.
pub fn preview_failure(failure: PreviewFailure, error: &str) -> (r: String)
    ensures
        r@ == (match failure {
            PreviewFailure::MovePreview => "D3D11-Preview konnte nicht positioniert werden: "@,
            PreviewFailure::MoveOverlay => {
                "Preview-Overlay konnte nicht über der D3D11-Fläche positioniert werden: "@
            },
            PreviewFailure::ShowPreview => {
                "D3D11-Preview-Sichtbarkeit konnte nicht geändert werden: "@
            },
            PreviewFailure::ShowOverlay => {
                "Preview-Overlay-Sichtbarkeit konnte nicht geändert werden: "@
            },
        }) + error@,
{
    match failure {
        PreviewFailure::MovePreview => joined(
            "D3D11-Preview konnte nicht positioniert werden: ",
            error,
        ),
        PreviewFailure::MoveOverlay => joined(
            "Preview-Overlay konnte nicht über der D3D11-Fläche positioniert werden: ",
            error,
        ),
        PreviewFailure::ShowPreview => joined(
            "D3D11-Preview-Sichtbarkeit konnte nicht geändert werden: ",
            error,
        ),
        PreviewFailure::ShowOverlay => joined(
            "Preview-Overlay-Sichtbarkeit konnte nicht geändert werden: ",
            error,
        ),
    }
}

/// What was listed: windows, displays and the programs that play audio, or why these
/// could not be listed.
pub struct ListedSources<C> {
    pub windows: Vec<C>,
    pub displays: Vec<C>,
    pub audio: Result<Vec<C>, String>,
}

/// The sources that a user can add: windows, displays and, where they could be
/// listed, the programs that play audio. `task` is the outcome of the task that listed
/// them. No portal is asked.
pub fn enumerate_sources<C>(task: Result<Result<ListedSources<C>, String>, String>) -> (r: Result<
    SourceEnumeration<C>,
    String,
>)
    ensures
        match (task, r) {
            (Err(error), Err(message)) => message@ == "Quellenauflösung fehlgeschlagen: "@ + error@,
            (Ok(Err(error)), Err(message)) => message == error,
            (Ok(Ok(listed)), Ok(found)) => {
                &&& !found.portal_selection_required
                &&& match listed.audio {
                    Ok(audio) => {
                        &&& found.candidates@ == listed.windows@ + listed.displays@ + audio@
                        &&& found.message is None
                    },
                    Err(error) => {
                        &&& found.candidates@ == listed.windows@ + listed.displays@
                        &&& found.message is Some
                        &&& found.message->0@ == "Anwendungs-Audio nicht verfügbar: "@ + error@
                    },
                }
            },
            _ => false,
        },
{
    let listed = match task {
        Err(error) => {
            return Err(joined("Quellenauflösung fehlgeschlagen: ", error.as_str()));
        },
        Ok(Err(error)) => {
            return Err(error);
        },
        Ok(Ok(listed)) => listed,
    };
    let mut candidates = listed.windows;
    let mut displays = listed.displays;
    candidates.append(&mut displays);
    let message = match listed.audio {
        Ok(audio) => {
            let mut audio = audio;
            candidates.append(&mut audio);
            None
        },
        Err(error) => Some(joined("Anwendungs-Audio nicht verfügbar: ", error.as_str())),
    };
    Ok(SourceEnumeration { candidates, portal_selection_required: false, message })
}

/// There is no desktop portal to select sources in.
pub fn select_portal_sources<C>() -> (r: Result<SourceEnumeration<C>, String>)
    ensures
        r is Err,
        r->Err_0@ == "Desktop-Portal-Auswahl ist nur unter Linux verfügbar"@,
{
    Err("Desktop-Portal-Auswahl ist nur unter Linux verfügbar".to_owned())
}

} // verus!
