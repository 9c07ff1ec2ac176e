//! Windows desktop integration: where the program window lives.
//!
//! The program window stays mapped so that it can be captured. It lives outside the
//! virtual desktop and is covered by the studio while a picker shows it.

use vstd::prelude::*;
use vstd::string::*;

use crate::platform_linux::GraphicsRestart;
use crate::text;
use crate::text::{decimal, joined};

verus! {

// ---------------------------------------------------------------------------
// Geometry
// ---------------------------------------------------------------------------

/// A rectangle; `right` and `bottom` lie just outside.
#[derive(Clone, Copy, Debug, PartialEq, Eq, Structural)]
pub struct Rect {
    pub left: i32,
    pub top: i32,
    pub right: i32,
    pub bottom: i32,
}

/// Whether two rectangles have a point in common.
pub open spec fn intersect(a: Rect, b: Rect) -> bool {
    exists|x: int, y: int| #[trigger] holds(a, x, y) && holds(b, x, y)
}

/// Whether a point lies in a rectangle.
pub open spec fn holds(r: Rect, x: int, y: int) -> bool {
    r.left <= x < r.right && r.top <= y < r.bottom
}

/// Whether a rectangle has an area.
pub open spec fn has_area(r: Rect) -> bool {
    r.left < r.right && r.top < r.bottom
}

/// Whether two rectangles overlap by their edges.
pub fn rectangles_intersect(left: Rect, right: Rect) -> (r: bool)
    ensures
        r == (left.left < right.right && left.right > right.left && left.top < right.bottom
            && left.bottom > right.top),
        has_area(left) && has_area(right) ==> r == intersect(left, right),
{
    let r = left.left < right.right && left.right > right.left && left.top < right.bottom
        && left.bottom > right.top;
    proof {
        if has_area(left) && has_area(right) {
            if r {
                let x = if left.left > right.left {
                    left.left as int
                } else {
                    right.left as int
                };
                let y = if left.top > right.top {
                    left.top as int
                } else {
                    right.top as int
                };
                assert(holds(left, x, y) && holds(right, x, y));
            }
        }
    }
    r
}

/// Whether one rectangle lies within another.
pub open spec fn contains(outer: Rect, inner: Rect) -> bool {
    &&& outer.left <= inner.left
    &&& outer.top <= inner.top
    &&& outer.right >= inner.right
    &&& outer.bottom >= inner.bottom
}

/// Whether one rectangle lies within another.
pub fn rectangles_contain(outer: Rect, inner: Rect) -> (r: bool)
    ensures
        r == contains(outer, inner),
{
    outer.left <= inner.left && outer.top <= inner.top && outer.right >= inner.right
        && outer.bottom >= inner.bottom
}

/// A covered window shows nothing: every point of the inner rectangle lies in the
/// outer one.
pub proof fn law_contained_window_is_covered(outer: Rect, inner: Rect, x: int, y: int)
    requires
        contains(outer, inner),
        holds(inner, x, y),
    ensures
        holds(outer, x, y),
{
}

/// Rectangles that only touch do not overlap, nor does an empty one with any; of two with
/// area that do overlap neither lies to one side of the other.
pub proof fn law_touching_rectangles_do_not_overlap(a: Rect, b: Rect)
    ensures
        intersect(a, b) == intersect(b, a),
        a.right <= b.left ==> !intersect(a, b),
        a.bottom <= b.top ==> !intersect(a, b),
        !has_area(a) ==> !intersect(a, b),
        has_area(a) && has_area(b) && a.left < b.right && b.left < a.right && a.top < b.bottom
            && b.top < a.bottom ==> intersect(a, b),
        has_area(a) ==> intersect(a, a),
{
    if intersect(a, b) {
        let (x, y) = choose|x: int, y: int| #[trigger] holds(a, x, y) && holds(b, x, y);
        assert(holds(b, x, y) && holds(a, x, y));
    }
    if intersect(b, a) {
        let (x, y) = choose|x: int, y: int| #[trigger] holds(b, x, y) && holds(a, x, y);
        assert(holds(a, x, y) && holds(b, x, y));
    }
    let x = if a.left > b.left {
        a.left as int
    } else {
        b.left as int
    };
    let y = if a.top > b.top {
        a.top as int
    } else {
        b.top as int
    };
    if has_area(a) && has_area(b) && a.left < b.right && b.left < a.right && a.top < b.bottom
        && b.top < a.bottom {
        assert(holds(a, x, y) && holds(b, x, y));
    }
    if has_area(a) {
        assert(holds(a, a.left as int, a.top as int));
    }
}

/// Decimal notation of a whole number.
pub open spec fn signed_digits(n: int) -> Seq<char> {
    if n < 0 {
        "-"@ + text::decimal_digits((-n) as nat)
    } else {
        text::decimal_digits(n as nat)
    }
}

fn signed_decimal(n: i32) -> (r: String)
    ensures
        r@ == signed_digits(n as int),
{
    let wide: i64 = n as i64;
    if wide < 0 {
        let digits = decimal((-wide) as u64);
        joined("-", digits.as_str())
    } else {
        decimal(wide as u64)
    }
}

/// A rectangle as text.
pub open spec fn rect_text(r: Rect) -> Seq<char> {
    "RECT { left: "@ + signed_digits(r.left as int) + ", top: "@ + signed_digits(r.top as int)
        + ", right: "@ + signed_digits(r.right as int) + ", bottom: "@ + signed_digits(
        r.bottom as int,
    ) + " }"@
}

fn append_rect(text: &mut String, rect: Rect)
    ensures
        final(text)@ == old(text)@ + rect_text(rect),
{
    text.append("RECT { left: ");
    text.append(signed_decimal(rect.left).as_str());
    text.append(", top: ");
    text.append(signed_decimal(rect.top).as_str());
    text.append(", right: ");
    text.append(signed_decimal(rect.right).as_str());
    text.append(", bottom: ");
    text.append(signed_decimal(rect.bottom).as_str());
    text.append(" }");
    assert(text@ =~= old(text)@ + rect_text(rect));
}

/// A message about two rectangles.
pub open spec fn pair_text(
    head: Seq<char>,
    program: Rect,
    label: Seq<char>,
    other: Rect,
) -> Seq<char> {
    head + ": program="@ + rect_text(program) + ", "@ + label + "="@ + rect_text(other)
}

fn pair_message(head: &str, program: Rect, label: &str, other: Rect) -> (r: String)
    ensures
        r@ == pair_text(head@, program, label@, other),
{
    let mut text = joined(head, ": program=");
    append_rect(&mut text, program);
    text.append(", ");
    text.append(label);
    text.append("=");
    append_rect(&mut text, other);
    text
}

/// A window position is at least so far from the desktop.
pub const MARGIN: i32 = 128;

/// Where the program window is placed: left of every monitor, else right of them;
/// none where neither can be expressed.
pub open spec fn offscreen_x(virtual_left: i32, virtual_width: i32, program_width: i32) -> Option<
    int,
> {
    let left = virtual_left - program_width;
    if i32::MIN <= left <= i32::MAX && i32::MIN <= left - MARGIN {
        Some(left - MARGIN)
    } else if virtual_left + virtual_width + MARGIN <= i32::MAX {
        Some(virtual_left + virtual_width + MARGIN)
    } else {
        None
    }
}

/// Why the program window cannot be placed.
pub open spec fn beyond_coordinates() -> Seq<char> {
    "Virtueller Desktop überschreitet Win32-Koordinaten"@
}

/// Places the program window wholly outside every monitor of the virtual desktop.
pub fn offscreen_program_position(
    virtual_left: i32,
    virtual_top: i32,
    virtual_width: i32,
    program_width: i32,
) -> (r: Result<(i32, i32), String>)
    ensures
        ({
            let right = virtual_left + virtual_width;
            let x = offscreen_x(virtual_left, virtual_width, program_width);
            if right < i32::MIN || right > i32::MAX {
                r is Err && r->Err_0@ == beyond_coordinates()
            } else {
                match x {
                    Some(x) => r is Ok && r->Ok_0.0 == x && r->Ok_0.1 == virtual_top,
                    None => {
                        &&& r is Err
                        &&& r->Err_0@
                            == "Program-Ausgabe kann nicht sicher offscreen platziert werden"@
                    },
                }
            }
        }),
{
    let virtual_right: i32 = match virtual_left.checked_add(virtual_width) {
        Some(right) => right,
        None => {
            return Err("Virtueller Desktop überschreitet Win32-Koordinaten".to_owned());
        },
    };
    match virtual_left.checked_sub(program_width) {
        Some(value) => match value.checked_sub(MARGIN) {
            Some(x) => {
                return Ok((x, virtual_top));
            },
            None => {},
        },
        None => {},
    }
    match virtual_right.checked_add(MARGIN) {
        Some(x) => Ok((x, virtual_top)),
        None => Err("Program-Ausgabe kann nicht sicher offscreen platziert werden".to_owned()),
    }
}

/// The program window stands at least 128 pixels beside the desktop: to its left where
/// the coordinates reach that far, else to its right.
pub proof fn law_program_keeps_its_distance(
    virtual_left: i32,
    virtual_width: i32,
    program_width: i32,
)
    requires
        program_width > 0,
        virtual_width > 0,
    ensures
        virtual_left - program_width - 128 >= i32::MIN ==> ({
            let x = offscreen_x(virtual_left, virtual_width, program_width);
            x is Some && x->0 + program_width + 128 == virtual_left
        }),
        virtual_left - program_width - 128 < i32::MIN && virtual_left + virtual_width + 128
            <= i32::MAX ==> ({
            let x = offscreen_x(virtual_left, virtual_width, program_width);
            x is Some && x->0 == virtual_left + virtual_width + 128
        }),
{
}

/// A placed program window lies beside the desktop with a margin: no point of it is
/// on any monitor.
pub proof fn law_program_is_off_the_desktop(
    virtual_left: i32,
    virtual_width: i32,
    program_width: i32,
    px: int,
)
    requires
        program_width > 0,
        virtual_width > 0,
        offscreen_x(virtual_left, virtual_width, program_width) is Some,
        ({
            let x = offscreen_x(virtual_left, virtual_width, program_width)->0;
            x <= px < x + program_width
        }),
    ensures
        px < virtual_left - 128 || px >= virtual_left + virtual_width + 128,
        !(virtual_left <= px < virtual_left + virtual_width),
{
}

/// The area that all monitors span.
#[derive(Clone, Copy, Debug, PartialEq, Eq, Structural)]
pub struct VirtualDesktop {
    pub left: i32,
    pub top: i32,
    pub width: i32,
    pub height: i32,
}

/// Where a window goes.
#[derive(Clone, Copy, Debug, PartialEq, Eq, Structural)]
pub struct Placement {
    pub x: i32,
    pub y: i32,
    pub width: i32,
    pub height: i32,
}

/// Where the program window goes when the studio starts, and the desktop that it
/// must not touch.
pub fn plan_show_program(desktop: VirtualDesktop, width: u32, height: u32) -> (r: Result<
    (Placement, Rect),
    String,
>)
    ensures
        ({
            let right = desktop.left + desktop.width;
            let bottom = desktop.top + desktop.height;
            if desktop.width <= 0 || desktop.height <= 0 {
                r is Err && r->Err_0@ == "Windows meldet keinen virtuellen Desktop"@
            } else if right > i32::MAX || bottom > i32::MAX {
                r is Err && r->Err_0@ == beyond_coordinates()
            } else if width > i32::MAX {
                r is Err && r->Err_0@ == "Programmbreite ist zu groß"@
            } else if height > i32::MAX {
                r is Err && r->Err_0@ == "Programmhöhe ist zu groß"@
            } else {
                match offscreen_x(desktop.left, desktop.width, width as i32) {
                    Some(x) => r == Ok::<(Placement, Rect), String>(
                        (
                            Placement {
                                x: x as i32,
                                y: desktop.top,
                                width: width as i32,
                                height: height as i32,
                            },
                            Rect {
                                left: desktop.left,
                                top: desktop.top,
                                right: right as i32,
                                bottom: bottom as i32,
                            },
                        ),
                    ),
                    None => {
                        &&& r is Err
                        &&& r->Err_0@
                            == "Program-Ausgabe kann nicht sicher offscreen platziert werden"@
                    },
                }
            }
        }),
{
    if desktop.width <= 0 || desktop.height <= 0 {
        return Err("Windows meldet keinen virtuellen Desktop".to_owned());
    }
    let (right, bottom): (i32, i32) = match (
        desktop.left.checked_add(desktop.width),
        desktop.top.checked_add(desktop.height),
    ) {
        (Some(right), Some(bottom)) => (right, bottom),
        _ => {
            return Err("Virtueller Desktop überschreitet Win32-Koordinaten".to_owned());
        },
    };
    if width > 0x7fff_ffff {
        return Err("Programmbreite ist zu groß".to_owned());
    }
    if height > 0x7fff_ffff {
        return Err("Programmhöhe ist zu groß".to_owned());
    }
    let (x, y): (i32, i32) = match offscreen_program_position(
        desktop.left,
        desktop.top,
        desktop.width,
        width as i32,
    ) {
        Ok(position) => position,
        Err(message) => {
            return Err(message);
        },
    };
    Ok(
        (
            Placement { x, y, width: width as i32, height: height as i32 },
            Rect { left: desktop.left, top: desktop.top, right, bottom },
        ),
    )
}

/// Checks that the program window is mapped and off the desktop; `program` is its
/// rectangle, where it could be read.
pub fn assert_mapped_offscreen(
    visible: bool,
    minimized: bool,
    program: Result<Rect, String>,
    desktop: Rect,
) -> (r: Result<(), String>)
    ensures
        if !visible {
            r is Err && r->Err_0@ == "Program-Ausgabe ist nicht für Capture-APIs gemappt"@
        } else if minimized {
            r is Err && r->Err_0@ == "Program-Ausgabe wurde unerwartet minimiert"@
        } else {
            match program {
                Err(error) => {
                    &&& r is Err
                    &&& r->Err_0@ == "Program-Position konnte nicht geprüft werden: "@ + error@
                },
                Ok(program) => if program.left < desktop.right && program.right > desktop.left
                    && program.top < desktop.bottom && program.bottom > desktop.top {
                    &&& r is Err
                    &&& r->Err_0@ == pair_text(
                        "Program-Ausgabe schneidet sichtbaren Desktop"@,
                        program,
                        "desktop"@,
                        desktop,
                    )
                } else {
                    r is Ok
                },
            }
        },
{
    if !visible {
        return Err("Program-Ausgabe ist nicht für Capture-APIs gemappt".to_owned());
    }
    if minimized {
        return Err("Program-Ausgabe wurde unerwartet minimiert".to_owned());
    }
    match program {
        Err(error) => Err(
            joined("Program-Position konnte nicht geprüft werden: ", error.as_str()),
        ),
        Ok(program) => {
            if rectangles_intersect(program, desktop) {
                return Err(
                    pair_message(
                        "Program-Ausgabe schneidet sichtbaren Desktop",
                        program,
                        "desktop",
                        desktop,
                    ),
                );
            }
            Ok(())
        },
    }
}

/// The nearest number that a coordinate can express.
pub open spec fn clamped(n: int) -> int {
    if n > i32::MAX {
        i32::MAX as int
    } else if n < i32::MIN {
        i32::MIN as int
    } else {
        n
    }
}

pub(crate) fn saturated(n: i64) -> (r: i32)
    ensures
        r == clamped(n as int),
{
    if n > 0x7fff_ffff {
        0x7fff_ffff
    } else if n < -0x8000_0000 {
        -0x8000_0000
    } else {
        n as i32
    }
}

/// Where the program window goes behind the studio: its own size, at the studio's
/// corner.
pub open spec fn staged(program: Rect, cover: Rect) -> Rect {
    Rect {
        left: cover.left,
        top: cover.top,
        right: clamped(cover.left + clamped(program.right - program.left)) as i32,
        bottom: clamped(cover.top + clamped(program.bottom - program.top)) as i32,
    }
}

/// Plans to put the program window behind the studio for a picker. The studio must
/// cover it wholly and be visible itself.
pub fn stage_program_for_picker(
    program: Rect,
    cover: Rect,
    cover_visible: bool,
    cover_minimized: bool,
) -> (r: Result<Placement, String>)
    ensures
        ({
            let width = clamped(program.right - program.left);
            let height = clamped(program.bottom - program.top);
            if width <= 0 || height <= 0 || !contains(cover, staged(program, cover)) {
                &&& r is Err
                &&& r->Err_0@ == pair_text(
                    "Studio deckt Program für sichere Auswahl nicht vollständig ab"@,
                    program,
                    "studio"@,
                    cover,
                )
            } else if !cover_visible || cover_minimized {
                r is Err && r->Err_0@ == "Studio muss sichtbar und maximiert bleiben"@
            } else {
                r == Ok::<Placement, String>(
                    Placement {
                        x: cover.left,
                        y: cover.top,
                        width: width as i32,
                        height: height as i32,
                    },
                )
            }
        }),
{
    let width: i32 = saturated(program.right as i64 - program.left as i64);
    let height: i32 = saturated(program.bottom as i64 - program.top as i64);
    let target = Rect {
        left: cover.left,
        top: cover.top,
        right: saturated(cover.left as i64 + width as i64),
        bottom: saturated(cover.top as i64 + height as i64),
    };
    if width <= 0 || height <= 0 || !rectangles_contain(cover, target) {
        return Err(
            pair_message(
                "Studio deckt Program für sichere Auswahl nicht vollständig ab",
                program,
                "studio",
                cover,
            ),
        );
    }
    if !cover_visible || cover_minimized {
        return Err("Studio muss sichtbar und maximiert bleiben".to_owned());
    }
    Ok(Placement { x: target.left, y: target.top, width, height })
}

/// A staged window has its corner where the covering window has its own, and keeps its
/// size as far as the coordinates go.
pub proof fn law_staged_window_keeps_its_size(program: Rect, cover: Rect)
    ensures
        staged(program, cover).left == cover.left,
        staged(program, cover).top == cover.top,
        0 <= program.right - program.left <= i32::MAX && cover.left + (program.right - program.left)
            <= i32::MAX ==> staged(program, cover).right - staged(program, cover).left
            == program.right - program.left,
        0 <= program.bottom - program.top <= i32::MAX && cover.top + (program.bottom - program.top)
            <= i32::MAX ==> staged(program, cover).bottom - staged(program, cover).top
            == program.bottom - program.top,
{
}

/// What is known of a window on the desktop.
pub struct WindowState {
    pub visible: bool,
    pub minimized: bool,
    pub rectangle: Result<Rect, String>,
}

/// Checks that the studio still covers the program window and lies above it.
pub fn assert_program_picker_covered(
    program: &WindowState,
    cover: &WindowState,
    cover_is_above: bool,
) -> (r: Result<(), String>)
    ensures
        if !program.visible || program.minimized {
            r is Err && r->Err_0@ == "Program ist nicht capture-fähig gemappt"@
        } else if !cover.visible || cover.minimized {
            r is Err && r->Err_0@ == "Studio-Cover ist nicht mehr sichtbar"@
        } else {
            match (program.rectangle, cover.rectangle) {
                (Err(error), _) => {
                    &&& r is Err
                    &&& r->Err_0@ == "Program-Geometrie konnte nicht geprüft werden: "@ + error@
                },
                (Ok(_), Err(error)) => {
                    &&& r is Err
                    &&& r->Err_0@ == "Studio-Geometrie konnte nicht geprüft werden: "@ + error@
                },
                (Ok(inner), Ok(outer)) => if !contains(outer, inner) {
                    &&& r is Err
                    &&& r->Err_0@ == pair_text(
                        "Studio deckt Program nicht mehr vollständig ab"@,
                        inner,
                        "studio"@,
                        outer,
                    )
                } else if !cover_is_above {
                    r is Err && r->Err_0@ == "Studio-Cover liegt nicht mehr über Program"@
                } else {
                    r is Ok
                },
            }
        },
{
    if !program.visible || program.minimized {
        return Err("Program ist nicht capture-fähig gemappt".to_owned());
    }
    if !cover.visible || cover.minimized {
        return Err("Studio-Cover ist nicht mehr sichtbar".to_owned());
    }
    match (&program.rectangle, &cover.rectangle) {
        (Err(error), _) => Err(
            joined("Program-Geometrie konnte nicht geprüft werden: ", error.as_str()),
        ),
        (Ok(_), Err(error)) => Err(
            joined("Studio-Geometrie konnte nicht geprüft werden: ", error.as_str()),
        ),
        (Ok(inner), Ok(outer)) => {
            if !rectangles_contain(*outer, *inner) {
                return Err(
                    pair_message(
                        "Studio deckt Program nicht mehr vollständig ab",
                        *inner,
                        "studio",
                        *outer,
                    ),
                );
            }
            if !cover_is_above {
                return Err("Studio-Cover liegt nicht mehr über Program".to_owned());
            }
            Ok(())
        },
    }
}

/// Plans to put the program window off the desktop again, and the desktop that it
/// must not touch.
pub fn restore_program_offscreen(program: Rect, desktop: VirtualDesktop) -> (r: Result<
    (Placement, Rect),
    String,
>)
    ensures
        ({
            let width = clamped(program.right - program.left);
            let height = clamped(program.bottom - program.top);
            let right = desktop.left + desktop.width;
            if width <= 0 || height <= 0 || desktop.width <= 0 || desktop.height <= 0 {
                r is Err && r->Err_0@ == "Ungültige Geometrie beim Offscreen-Wiederherstellen"@
            } else if right > i32::MAX {
                r is Err && r->Err_0@ == beyond_coordinates()
            } else {
                match offscreen_x(desktop.left, desktop.width, width as i32) {
                    Some(x) => r == Ok::<(Placement, Rect), String>(
                        (
                            Placement {
                                x: x as i32,
                                y: desktop.top,
                                width: width as i32,
                                height: height as i32,
                            },
                            Rect {
                                left: desktop.left,
                                top: desktop.top,
                                right: right as i32,
                                bottom: clamped(desktop.top + desktop.height) as i32,
                            },
                        ),
                    ),
                    None => {
                        &&& r is Err
                        &&& r->Err_0@
                            == "Program-Ausgabe kann nicht sicher offscreen platziert werden"@
                    },
                }
            }
        }),
{
    let width: i32 = saturated(program.right as i64 - program.left as i64);
    let height: i32 = saturated(program.bottom as i64 - program.top as i64);
    if width <= 0 || height <= 0 || desktop.width <= 0 || desktop.height <= 0 {
        return Err("Ungültige Geometrie beim Offscreen-Wiederherstellen".to_owned());
    }
    let (x, y): (i32, i32) = match offscreen_program_position(
        desktop.left,
        desktop.top,
        desktop.width,
        width,
    ) {
        Ok(position) => position,
        Err(message) => {
            return Err(message);
        },
    };
    Ok(
        (
            Placement { x, y, width, height },
            Rect {
                left: desktop.left,
                top: desktop.top,
                right: saturated(desktop.left as i64 + desktop.width as i64),
                bottom: saturated(desktop.top as i64 + desktop.height as i64),
            },
        ),
    )
}

/// So many windows are looked at above a window.
pub const MAX_WINDOWS_ABOVE: usize = 4096;

/// Whether a window is among the ones that lie above another, nearest first.
pub fn window_is_above(above: &Vec<usize>, upper: usize) -> (r: bool)
    ensures
        r == exists|i: int|
            0 <= i < above@.len() && i < MAX_WINDOWS_ABOVE && #[trigger] above@[i] == upper,
{
    let mut i: usize = 0;
    while i < above.len() && i < MAX_WINDOWS_ABOVE
        invariant
            i <= above@.len(),
            i <= MAX_WINDOWS_ABOVE,
            forall|j: int| 0 <= j < i ==> #[trigger] above@[j] != upper,
        decreases above@.len() - i,
    {
        if above[i] == upper {
            return true;
        }
        i += 1;
    }
    false
}

/// The program window needs no preparation of the desktop.
pub struct OutputVisibility;

/// Windows needs no restart for its graphics.
pub fn configure_graphics_backend() -> (r: Option<GraphicsRestart>)
    ensures
        r is None,
{
    None
}

impl OutputVisibility {
    /// Nothing has to be prepared.
    pub fn prepare() -> (r: Result<Self, String>)
        ensures
            r is Ok,
    {
        Ok(OutputVisibility)
    }

    /// The program window is built hidden and shown once it is in place.
    pub fn initially_visible(&self) -> (r: bool)
        ensures
            !r,
    {
        false
    }

    /// Nothing has to be undone.
    pub fn cleanup(self) -> (r: Option<String>)
        ensures
            r is None,
    {
        None
    }
}

} // verus!
