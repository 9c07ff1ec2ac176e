//! Linux desktop integration: where the output windows live and which sources the
//! desktop portal offers.
//!
//! The output windows stay mapped so that they can be captured, but are kept off
//! the physical desktop: on a special workspace of Hyprland, elsewhere outside the
//! visible area.

use vstd::prelude::*;
use vstd::string::*;

use crate::linux;
use crate::linux::{PipeWirePortalLink, PortalSelection, PortalStreamInfo};
use crate::portal_captures;
use crate::project::Source;
use crate::render_loop;
use crate::render_loop::{surface_side, NativeSurfaceKind, NativeSurfaces};
use crate::shell::SourceEnumeration;
use crate::source_id;
use crate::text;
use crate::text::{characters, decimal, joined, same_ignoring_case, same_text};

verus! {

// ---------------------------------------------------------------------------
// Desktop
// ---------------------------------------------------------------------------

/// Whether a character separates the names of desktops.
pub open spec fn separates(c: char) -> bool {
    c == ':' || c == ';'
}

/// Whether the part of a list between two positions is a whole entry.
pub open spec fn is_entry(s: Seq<char>, from: int, to: int) -> bool {
    &&& 0 <= from <= to <= s.len()
    &&& from == 0 || separates(s[from - 1])
    &&& to == s.len() || separates(s[to])
    &&& forall|i: int| from <= i < to ==> !separates(#[trigger] s[i])
}

/// Whether a list of desktops names Hyprland, in any case of its letters.
pub open spec fn names_hyprland(s: Seq<char>) -> bool {
    exists|from: int, to: int| #[trigger]
        is_entry(s, from, to) && text::equal_ignoring_case(s.subrange(from, to), "hyprland"@)
}

fn part(s: &Vec<char>, from: usize, to: usize) -> (r: Vec<char>)
    requires
        from <= to <= s@.len(),
    ensures
        r@ == s@.subrange(from as int, to as int),
{
    let mut r: Vec<char> = Vec::new();
    let mut i: usize = from;
    while i < to
        invariant
            from <= i <= to <= s@.len(),
            r@ == s@.subrange(from as int, i as int),
        decreases to - i,
    {
        r.push(s[i]);
        assert(r@ =~= s@.subrange(from as int, i + 1));
        i += 1;
    }
    r
}

fn lists_hyprland(list: &Vec<char>) -> (r: bool)
    ensures
        r == names_hyprland(list@),
{
    let name = characters("hyprland");
    let total: usize = list.len();
    let ghost s = list@;
    let mut from: usize = 0;
    let mut i: usize = 0;
    while i < total
        invariant
            s == list@,
            name@ == "hyprland"@,
            total == s.len(),
            from <= i <= total,
            from == 0 || separates(s[from - 1]),
            forall|k: int| from <= k < i ==> !separates(#[trigger] s[k]),
            forall|a: int, b: int| #[trigger]
                is_entry(s, a, b) && b < i ==> !text::equal_ignoring_case(
                    s.subrange(a, b),
                    name@,
                ),
        decreases total - i,
    {
        if list[i] == ':' || list[i] == ';' {
            let entry = part(list, from, i);
            if same_ignoring_case(&entry, &name) {
                assert(is_entry(s, from as int, i as int));
                return true;
            }
            proof {
                lemma_entry_begin(s, from as int, i as int);
            }
            from = i + 1;
        }
        proof {
            assert forall|a: int, b: int| #[trigger] is_entry(s, a, b) && b < i + 1 implies
                !text::equal_ignoring_case(s.subrange(a, b), name@) by {
                if b == i {
                    assert(separates(s[b]));
                }
            }
        }
        i += 1;
    }
    let entry = part(list, from, total);
    let last = same_ignoring_case(&entry, &name);
    proof {
        assert(is_entry(s, from as int, total as int));
        lemma_entry_begin(s, from as int, total as int);
        if !last {
            assert forall|a: int, b: int| #[trigger] is_entry(s, a, b) implies
                !text::equal_ignoring_case(s.subrange(a, b), name@) by {
                if b < total {
                } else {
                    assert(a == from);
                }
            }
        }
    }
    last
}

proof fn lemma_entry_begin(s: Seq<char>, from: int, to: int)
    requires
        is_entry(s, from, to),
    ensures
        forall|a: int| #[trigger] is_entry(s, a, to) ==> a == from,
{
    assert forall|a: int| #[trigger] is_entry(s, a, to) implies a == from by {
        if a < from {
            assert(separates(s[from - 1]));
        } else if a > from {
            assert(separates(s[a - 1]));
        }
    }
}

/// Whether the session runs under Hyprland: its signature is set and the list of
/// desktops names it.
pub fn is_hyprland(has_signature: bool, desktop: Option<&str>) -> (r: bool)
    ensures
        r == (has_signature && desktop is Some && names_hyprland(desktop->0@)),
{
    match desktop {
        Some(desktop) => {
            let list = characters(desktop);
            has_signature && lists_hyprland(&list)
        },
        None => false,
    }
}

/// What the environment says about graphics.
#[derive(Clone, Copy, Debug, PartialEq, Eq, Structural)]
pub struct GraphicsEnvironment {
    /// The session runs under Hyprland.
    pub hyprland: bool,
    /// `GDK_BACKEND` is `x11`.
    pub gdk_backend_is_x11: bool,
    /// `WEBKIT_DISABLE_DMABUF_RENDERER` is set.
    pub webkit_fallback_set: bool,
    /// The studio has restarted itself already.
    pub ready: bool,
}

/// What the studio sets before it restarts itself.
#[derive(Clone, Copy, Debug, PartialEq, Eq, Structural)]
pub struct GraphicsRestart {
    pub set_x11_backend: bool,
    pub set_webkit_fallback: bool,
}

/// How the studio restarts itself for its graphics; none where it can go on.
pub open spec fn graphics_restart(env: GraphicsEnvironment) -> Option<GraphicsRestart> {
    if !env.hyprland || env.ready || (env.gdk_backend_is_x11 && env.webkit_fallback_set) {
        None
    } else {
        Some(
            GraphicsRestart {
                set_x11_backend: !env.gdk_backend_is_x11,
                set_webkit_fallback: !env.webkit_fallback_set,
            },
        )
    }
}

/// How the studio restarts itself for its graphics. Under Hyprland it presents
/// through XWayland and needs its settings in place before its libraries load.
pub fn configure_graphics_backend(env: GraphicsEnvironment) -> (r: Option<GraphicsRestart>)
    ensures
        r == graphics_restart(env),
{
    if !env.hyprland {
        return None;
    }
    let needs_x11 = !env.gdk_backend_is_x11;
    let needs_fallback = !env.webkit_fallback_set;
    if (!needs_x11 && !needs_fallback) || env.ready {
        return None;
    }
    Some(GraphicsRestart { set_x11_backend: needs_x11, set_webkit_fallback: needs_fallback })
}

/// The studio restarts itself only under Hyprland and only where a setting is missing,
/// and then it sets what is missing and nothing else.
pub proof fn law_restart_sets_what_is_missing(env: GraphicsEnvironment)
    ensures
        graphics_restart(env) is Some <==> env.hyprland && !env.ready && (!env.gdk_backend_is_x11
            || !env.webkit_fallback_set),
        graphics_restart(env) matches Some(restart) ==> (restart.set_x11_backend
            <==> !env.gdk_backend_is_x11) && (restart.set_webkit_fallback
            <==> !env.webkit_fallback_set),
{
}

/// The name of the desktop counts in any case, alone or as one entry of a list that
/// colons or semicolons divide.
pub proof fn law_desktop_is_found_in_a_list(s: Seq<char>, rest: Seq<char>, divider: char)
    requires
        divider == ':' || divider == ';',
    ensures
        (forall|i: int| 0 <= i < s.len() ==> #[trigger] s[i] != ':' && s[i] != ';') ==> (
        names_hyprland(s) <==> text::equal_ignoring_case(s, "hyprland"@)),
        names_hyprland(s) ==> names_hyprland(s + seq![divider] + rest),
        names_hyprland(rest) ==> names_hyprland(s + seq![divider] + rest),
{
    let all = s + seq![divider] + rest;
    if forall|i: int| 0 <= i < s.len() ==> #[trigger] s[i] != ':' && s[i] != ';' {
        assert(is_entry(s, 0, s.len() as int));
        assert(s.subrange(0, s.len() as int) =~= s);
        if names_hyprland(s) {
            let (from, to) = choose|from: int, to: int| #[trigger]
                is_entry(s, from, to) && text::equal_ignoring_case(
                    s.subrange(from, to),
                    "hyprland"@,
                );
            assert(from == 0 || separates(s[from - 1]));
            assert(to == s.len() || separates(s[to]));
        }
    }
    if names_hyprland(s) {
        let (from, to) = choose|from: int, to: int| #[trigger]
            is_entry(s, from, to) && text::equal_ignoring_case(s.subrange(from, to), "hyprland"@);
        assert(all.subrange(from, to) =~= s.subrange(from, to));
        assert forall|i: int| from <= i < to implies !separates(#[trigger] all[i]) by {
            assert(all[i] == s[i]);
        }
        assert(is_entry(all, from, to));
    }
    if names_hyprland(rest) {
        let (from, to) = choose|from: int, to: int| #[trigger]
            is_entry(rest, from, to) && text::equal_ignoring_case(
                rest.subrange(from, to),
                "hyprland"@,
            );
        let skip = s.len() as int + 1;
        assert(all.subrange(from + skip, to + skip) =~= rest.subrange(from, to));
        assert forall|i: int| from + skip <= i < to + skip implies !separates(#[trigger] all[i]) by {
            assert(all[i] == rest[i - skip]);
        }
        assert(is_entry(all, from + skip, to + skip));
    }
}

/// The studio restarts itself at most once.
pub proof fn law_restart_happens_once(env: GraphicsEnvironment)
    ensures
        graphics_restart(GraphicsEnvironment { ready: true, ..env }) is None,
{
}

// ---------------------------------------------------------------------------
// Hyprland
// ---------------------------------------------------------------------------

/// Whether a character is white space.
pub open spec fn is_white(c: char) -> bool {
    let n = c as int;
    ||| 0x9 <= n <= 0xd
    ||| n == 0x20
    ||| n == 0x85
    ||| n == 0xa0
    ||| n == 0x1680
    ||| 0x2000 <= n <= 0x200a
    ||| n == 0x2028
    ||| n == 0x2029
    ||| n == 0x202f
    ||| n == 0x205f
    ||| n == 0x3000
}

fn white(c: char) -> (r: bool)
    ensures
        r == is_white(c),
{
    let n: u32 = c as u32;
    (0x9 <= n && n <= 0xd) || n == 0x20 || n == 0x85 || n == 0xa0 || n == 0x1680 || (0x2000 <= n
        && n <= 0x200a) || n == 0x2028 || n == 0x2029 || n == 0x202f || n == 0x205f || n == 0x3000
}

/// A text without white space at its ends.
pub open spec fn trimmed(s: Seq<char>) -> Seq<char>
    decreases s.len(),
{
    if s.len() > 0 && is_white(s[0]) {
        trimmed(s.drop_first())
    } else if s.len() > 0 && is_white(s.last()) {
        trimmed(s.drop_last())
    } else {
        s
    }
}

fn trim(value: &str) -> (r: &str)
    ensures
        r@ == trimmed(value@),
{
    let all = characters(value);
    let ghost s = value@;
    let total: usize = all.len();
    let mut from: usize = 0;
    assert(s.subrange(0, s.len() as int) =~= s);
    while from < total && white(all[from])
        invariant
            from <= total,
            all@ == s,
            total == s.len(),
            trimmed(s.subrange(from as int, total as int)) == trimmed(s),
        decreases total - from,
    {
        proof {
            let rest = s.subrange(from as int, total as int);
            assert(rest[0] == s[from as int]);
            assert(rest.drop_first() =~= s.subrange(from + 1, total as int));
        }
        from += 1;
    }
    let mut to: usize = total;
    while to > from && white(all[to - 1])
        invariant
            from <= to <= total,
            all@ == s,
            total == s.len(),
            from < to ==> !is_white(s[from as int]),
            trimmed(s.subrange(from as int, to as int)) == trimmed(s),
        decreases to,
    {
        proof {
            let rest = s.subrange(from as int, to as int);
            assert(rest[0] == s[from as int]);
            assert(rest.last() == s[to - 1]);
            assert(rest.drop_last() =~= s.subrange(from as int, to - 1));
        }
        to -= 1;
    }
    proof {
        let rest = s.subrange(from as int, to as int);
        if from < to {
            assert(rest[0] == s[from as int]);
            assert(rest.last() == s[to - 1]);
        }
        assert(trimmed(rest) == rest);
    }
    value.substring_char(from, to)
}

/// What `hyprctl` reported: it must succeed and answer `ok`. Otherwise its error
/// output, or else its output, says why.
pub fn hyprctl_result(success: bool, stdout: &str, stderr: &str) -> (r: Result<(), String>)
    ensures
        match r {
            Ok(()) => success && trimmed(stdout@) == "ok"@,
            Err(message) => {
                &&& !(success && trimmed(stdout@) == "ok"@)
                &&& message@
                    == "Hyprland konnte die virtuelle Discord-Ausgabe nicht einrichten: "@ + (
                if trimmed(stderr@).len() == 0 {
                    trimmed(stdout@)
                } else {
                    trimmed(stderr@)
                })
            },
        },
{
    let out = trim(stdout);
    if success && same_text(out, "ok") {
        return Ok(());
    }
    let err = trim(stderr);
    let detail = if err.unicode_len() == 0 {
        out
    } else {
        err
    };
    Err(joined("Hyprland konnte die virtuelle Discord-Ausgabe nicht einrichten: ", detail))
}

/// Trimming takes white space from both ends and nothing else: what it leaves neither
/// begins nor ends with any, more of it around a text changes nothing, and a text without
/// any at its ends is left as it is.
pub proof fn law_trimming_takes_only_the_ends(s: Seq<char>, white: char)
    requires
        is_white(white),
    ensures
        trimmed(seq![white] + s) == trimmed(s),
        trimmed(s.push(white)) == trimmed(s),
        trimmed(s).len() > 0 ==> !is_white(trimmed(s)[0]) && !is_white(trimmed(s).last()),
        s.len() > 0 && !is_white(s[0]) && !is_white(s.last()) ==> trimmed(s) == s,
    decreases s.len(),
{
    let before = seq![white] + s;
    assert(before.drop_first() =~= s);
    assert(before[0] == white);
    let after = s.push(white);
    if s.len() == 0 {
        assert(after.drop_first() =~= s);
    } else if is_white(s[0]) {
        law_trimming_takes_only_the_ends(s.drop_first(), white);
        assert(after.drop_first() =~= s.drop_first().push(white));
    } else {
        assert(after[0] == s[0]);
        assert(after.drop_last() =~= s);
        if is_white(s.last()) {
            law_trimming_takes_only_the_ends(s.drop_last(), white);
        }
    }
}

/// The line that switches a rule off where it exists.
pub open spec fn disable_line(rule: Seq<char>) -> Seq<char> {
    "if _G."@ + rule + " ~= nil then _G."@ + rule + ":set_enabled(false) end\n"@
}

/// The lines of a window rule: the window floats on the silent special workspace,
/// takes no focus and goes on rendering unseen.
pub open spec fn window_rule(
    rule: Seq<char>,
    name: Seq<char>,
    title: Seq<char>,
    size: Seq<char>,
) -> Seq<char> {
    "_G."@ + rule + " = hl.window_rule({\n  name = \""@ + name + "\",\n  match = { "@
        + "title = \"^"@ + title + "$\""@ + " },\n  "@
        + "workspace = \"special:hooviestar-output silent\""@ + ",\n  float = true,\n  size = \""@
        + size + "\",\n  "@ + "no_initial_focus = true"@ + ",\n  no_anim = true,\n  "@
        + "render_unfocused = true"@ + "\n})\n"@
}

/// The lines that switch a rule off and forget it.
pub open spec fn cleanup_lines(rule: Seq<char>) -> Seq<char> {
    "if _G."@ + rule + " ~= nil then\n  _G."@ + rule + ":set_enabled(false)\n  _G."@ + rule
        + " = nil\nend\n"@
}

/// The name of the rule for the program window.
pub open spec fn program_rule() -> Seq<char> {
    "__hooviestar_program_rule"@
}

/// The name of the rule for the preview window.
pub open spec fn preview_rule() -> Seq<char> {
    "__hooviestar_preview_rule"@
}

/// The program that sets both rules up, after switching earlier ones off.
pub open spec fn rule_source() -> Seq<char> {
    "\n"@ + disable_line(program_rule()) + disable_line(preview_rule()) + window_rule(
        program_rule(),
        "hooviestar-program-output"@,
        "Hooviestar – Program"@,
        "1280 720"@,
    ) + window_rule(
        preview_rule(),
        "hooviestar-native-preview"@,
        "Hooviestar – Preview"@,
        "960 540"@,
    )
}

/// The program that takes both rules down.
pub open spec fn cleanup_source() -> Seq<char> {
    "\n"@ + cleanup_lines(program_rule()) + cleanup_lines(preview_rule())
}

fn append_disable_line(source: &mut String, rule: &str)
    ensures
        final(source)@ == old(source)@ + disable_line(rule@),
{
    source.append("if _G.");
    source.append(rule);
    source.append(" ~= nil then _G.");
    source.append(rule);
    source.append(":set_enabled(false) end\n");
    assert(source@ =~= old(source)@ + disable_line(rule@));
}

fn append_window_rule(source: &mut String, rule: &str, name: &str, title: &str, size: &str)
    ensures
        final(source)@ == old(source)@ + window_rule(rule@, name@, title@, size@),
{
    source.append("_G.");
    source.append(rule);
    source.append(" = hl.window_rule({\n  name = \"");
    source.append(name);
    source.append("\",\n  match = { ");
    source.append("title = \"^");
    source.append(title);
    source.append("$\"");
    source.append(" },\n  ");
    source.append("workspace = \"special:hooviestar-output silent\"");
    source.append(",\n  float = true,\n  size = \"");
    source.append(size);
    source.append("\",\n  ");
    source.append("no_initial_focus = true");
    source.append(",\n  no_anim = true,\n  ");
    source.append("render_unfocused = true");
    source.append("\n})\n");
    assert(source@ =~= old(source)@ + window_rule(rule@, name@, title@, size@));
}

fn append_cleanup_lines(source: &mut String, rule: &str)
    ensures
        final(source)@ == old(source)@ + cleanup_lines(rule@),
{
    source.append("if _G.");
    source.append(rule);
    source.append(" ~= nil then\n  _G.");
    source.append(rule);
    source.append(":set_enabled(false)\n  _G.");
    source.append(rule);
    source.append(" = nil\nend\n");
    assert(source@ =~= old(source)@ + cleanup_lines(rule@));
}

/// The program that sets both window rules up.
pub fn hyprland_rule_source() -> (r: String)
    ensures
        r@ == rule_source(),
{
    let mut source = "\n".to_owned();
    append_disable_line(&mut source, "__hooviestar_program_rule");
    append_disable_line(&mut source, "__hooviestar_preview_rule");
    append_window_rule(
        &mut source,
        "__hooviestar_program_rule",
        "hooviestar-program-output",
        "Hooviestar – Program",
        "1280 720",
    );
    append_window_rule(
        &mut source,
        "__hooviestar_preview_rule",
        "hooviestar-native-preview",
        "Hooviestar – Preview",
        "960 540",
    );
    source
}

/// The program that takes both window rules down.
pub fn hyprland_cleanup_source() -> (r: String)
    ensures
        r@ == cleanup_source(),
{
    let mut source = "\n".to_owned();
    append_cleanup_lines(&mut source, "__hooviestar_program_rule");
    append_cleanup_lines(&mut source, "__hooviestar_preview_rule");
    source
}

proof fn lemma_occurs_between(before: Seq<char>, needle: Seq<char>, after: Seq<char>)
    ensures
        text::occurs(before + needle + after, needle),
{
    let hay = before + needle + after;
    assert(hay.subrange(before.len() as int, (before.len() + needle.len()) as int) =~= needle);
    assert(text::occurs_at(hay, needle, before.len() as int));
}

/// Every window rule keeps its window on the silent special workspace, without
/// focus and rendering, whatever the window is called.
pub proof fn law_rules_keep_windows_off_the_desktop(
    rule: Seq<char>,
    name: Seq<char>,
    title: Seq<char>,
    size: Seq<char>,
)
    ensures
        text::occurs(
            window_rule(rule, name, title, size),
            "workspace = \"special:hooviestar-output silent\""@,
        ),
        text::occurs(window_rule(rule, name, title, size), "no_initial_focus = true"@),
        text::occurs(window_rule(rule, name, title, size), "render_unfocused = true"@),
{
    let all = window_rule(rule, name, title, size);
    let head = "_G."@ + rule + " = hl.window_rule({\n  name = \""@ + name + "\",\n  match = { "@
        + "title = \"^"@ + title + "$\""@ + " },\n  "@;
    let place = "workspace = \"special:hooviestar-output silent\""@;
    let sized = ",\n  float = true,\n  size = \""@ + size + "\",\n  "@;
    let focus = "no_initial_focus = true"@;
    let still = ",\n  no_anim = true,\n  "@;
    let render = "render_unfocused = true"@;
    let end = "\n})\n"@;
    lemma_occurs_between(head, place, sized + focus + still + render + end);
    assert(all =~= head + place + (sized + focus + still + render + end));
    lemma_occurs_between(head + place + sized, focus, still + render + end);
    assert(all =~= (head + place + sized) + focus + (still + render + end));
    lemma_occurs_between(head + place + sized + focus + still, render, end);
    assert(all =~= (head + place + sized + focus + still) + render + end);
}

// ---------------------------------------------------------------------------
// Output windows
// ---------------------------------------------------------------------------

/// How output windows are kept off the desktop.
#[derive(Clone, Copy, Debug, PartialEq, Eq, Structural)]
pub enum VisibilityMode {
    HyprlandSpecialWorkspace,
    OffscreenX11,
}

/// Keeps the output windows mapped but off the physical desktop.
pub struct OutputVisibility {
    pub mode: VisibilityMode,
    pub cleaned: bool,
}

/// A coordinate left of and above every X11 desktop.
pub const OFFSCREEN: i32 = -32768;

/// How an output window is shown.
#[derive(Clone, Copy, Debug, PartialEq, Eq, Structural)]
pub enum ShowStep {
    /// It is mapped already, on the special workspace.
    Nothing,
    /// It is moved to this position and then shown.
    PlaceAndShow { x: i32, y: i32 },
}

impl OutputVisibility {
    /// Prepares the desktop; `rules` is the result of setting the Hyprland rules
    /// up, where the session runs under Hyprland.
    pub fn prepare(hyprland: bool, rules: Result<(), String>) -> (r: Result<Self, String>)
        ensures
            match r {
                Ok(visibility) => {
                    &&& !visibility.cleaned
                    &&& visibility.mode == (if hyprland {
                        VisibilityMode::HyprlandSpecialWorkspace
                    } else {
                        VisibilityMode::OffscreenX11
                    })
                },
                Err(message) => rules == Err::<(), String>(message),
            },
            r is Err <==> hyprland && rules is Err,
    {
        if hyprland {
            return match rules {
                Ok(()) => Ok(
                    OutputVisibility {
                        mode: VisibilityMode::HyprlandSpecialWorkspace,
                        cleaned: false,
                    },
                ),
                Err(message) => Err(message),
            };
        }
        Ok(OutputVisibility { mode: VisibilityMode::OffscreenX11, cleaned: false })
    }

    /// Whether output windows are built visible. Under Hyprland they must be, for
    /// their surfaces to exist; the rules take effect when they are mapped.
    pub fn initially_visible(&self) -> (r: bool)
        ensures
            r == (self.mode == VisibilityMode::HyprlandSpecialWorkspace),
    {
        self.mode == VisibilityMode::HyprlandSpecialWorkspace
    }

    /// How an output window is shown; elsewhere than under Hyprland it must be an
    /// X11 window.
    pub fn show(&self, is_xlib: bool) -> (r: Result<ShowStep, String>)
        ensures
            match self.mode {
                VisibilityMode::HyprlandSpecialWorkspace => r == Ok::<ShowStep, String>(
                    ShowStep::Nothing,
                ),
                VisibilityMode::OffscreenX11 => if is_xlib {
                    r == Ok::<ShowStep, String>(
                        ShowStep::PlaceAndShow { x: OFFSCREEN, y: OFFSCREEN },
                    )
                } else {
                    &&& r is Err
                    &&& r->Err_0@
                        == "Unsichtbare Discord-App-Ausgabe wird unter Wayland derzeit nur mit Hyprland unterstützt"@
                },
            },
    {
        match self.mode {
            VisibilityMode::HyprlandSpecialWorkspace => Ok(ShowStep::Nothing),
            VisibilityMode::OffscreenX11 => {
                if is_xlib {
                    Ok(ShowStep::PlaceAndShow { x: OFFSCREEN, y: OFFSCREEN })
                } else {
                    Err(
                        "Unsichtbare Discord-App-Ausgabe wird unter Wayland derzeit nur mit Hyprland unterstützt".to_owned(),
                    )
                }
            },
        }
    }

    /// The program that undoes the preparation, where there is anything to undo.
    pub fn cleanup(&mut self) -> (r: Option<String>)
        ensures
            final(self).cleaned,
            final(self).mode == old(self).mode,
            match r {
                Some(source) => {
                    &&& !old(self).cleaned
                    &&& old(self).mode == VisibilityMode::HyprlandSpecialWorkspace
                    &&& source@ == cleanup_source()
                },
                None => old(self).cleaned || old(self).mode == VisibilityMode::OffscreenX11,
            },
    {
        let due = !self.cleaned && self.mode == VisibilityMode::HyprlandSpecialWorkspace;
        self.cleaned = true;
        if due {
            Some(hyprland_cleanup_source())
        } else {
            None
        }
    }
}

/// What is reported when an output window could not be placed or shown.
pub fn show_failure(title: &str, placed: bool, error: &str) -> (r: String)
    ensures
        r@ == title@ + (if placed {
            " konnte nicht gestartet werden: "@
        } else {
            " konnte nicht offscreen platziert werden: "@
        }) + error@,
{
    let head = if placed {
        joined(title, " konnte nicht gestartet werden: ")
    } else {
        joined(title, " konnte nicht offscreen platziert werden: ")
    };
    joined(head.as_str(), error)
}

/// A window or display handle of the windowing system. X11 windows are numbers,
/// other handles addresses.
#[derive(Clone, Copy, Debug, PartialEq, Eq, Structural)]
pub enum RawHandle {
    XlibWindow(u64),
    XlibDisplay(Option<usize>),
    WaylandSurface(usize),
    WaylandDisplay(usize),
    Other,
}

/// The first handle that is too wide for an address; X11 only.
pub open spec fn too_wide(studio: u64, program: u64, preview: u64) -> Option<Seq<char>> {
    if studio > usize::MAX {
        Some("Xlib studio handle exceeds pointer width"@)
    } else if program > usize::MAX {
        Some("Xlib program handle exceeds pointer width"@)
    } else if preview > usize::MAX {
        Some("Xlib preview handle exceeds pointer width"@)
    } else {
        None
    }
}

/// The sizes of the output windows.
#[derive(Clone, Copy, Debug, PartialEq, Eq, Structural)]
pub struct OutputSizes {
    pub program_width: u32,
    pub program_height: u32,
    pub preview_width: u32,
    pub preview_height: u32,
}

/// Surfaces over the given handles.
pub open spec fn surfaces_over(
    kind: NativeSurfaceKind,
    display: usize,
    studio: usize,
    program: usize,
    preview: usize,
    sizes: OutputSizes,
) -> NativeSurfaces {
    NativeSurfaces {
        kind,
        studio,
        display,
        program,
        preview,
        program_width: render_loop::at_least_one(sizes.program_width),
        program_height: render_loop::at_least_one(sizes.program_height),
        preview_width: render_loop::at_least_one(sizes.preview_width),
        preview_height: render_loop::at_least_one(sizes.preview_height),
    }
}

fn make_surfaces(
    kind: NativeSurfaceKind,
    display: usize,
    studio: usize,
    program: usize,
    preview: usize,
    sizes: OutputSizes,
) -> (r: NativeSurfaces)
    ensures
        r == surfaces_over(kind, display, studio, program, preview, sizes),
{
    NativeSurfaces {
        kind,
        studio,
        display,
        program,
        preview,
        program_width: surface_side(sizes.program_width),
        program_height: surface_side(sizes.program_height),
        preview_width: surface_side(sizes.preview_width),
        preview_height: surface_side(sizes.preview_height),
    }
}

/// The surfaces that the engine renders to: all handles are of X11 or all of
/// Wayland.
pub fn native_surfaces(
    display: RawHandle,
    studio: RawHandle,
    program: RawHandle,
    preview: RawHandle,
    sizes: OutputSizes,
) -> (r: Result<NativeSurfaces, String>)
    ensures
        match (display, studio, program, preview) {
            (
                RawHandle::XlibDisplay(d),
                RawHandle::XlibWindow(s),
                RawHandle::XlibWindow(p),
                RawHandle::XlibWindow(q),
            ) => match (too_wide(s, p, q), d) {
                (Some(message), _) => r is Err && r->Err_0@ == message,
                (None, None) => r is Err && r->Err_0@ == "Xlib display handle is null"@,
                (None, Some(d)) => r == Ok::<NativeSurfaces, String>(
                    surfaces_over(
                        NativeSurfaceKind::Xlib,
                        d,
                        s as usize,
                        p as usize,
                        q as usize,
                        sizes,
                    ),
                ),
            },
            (
                RawHandle::WaylandDisplay(d),
                RawHandle::WaylandSurface(s),
                RawHandle::WaylandSurface(p),
                RawHandle::WaylandSurface(q),
            ) => r == Ok::<NativeSurfaces, String>(
                surfaces_over(NativeSurfaceKind::Wayland, d, s, p, q, sizes),
            ),
            _ => r is Err && r->Err_0@ == "unsupported Linux native surface combination"@,
        },
{
    match (display, studio, program, preview) {
        (
            RawHandle::XlibDisplay(d),
            RawHandle::XlibWindow(s),
            RawHandle::XlibWindow(p),
            RawHandle::XlibWindow(q),
        ) => {
            let widest: u64 = usize::MAX as u64;
            if s > widest {
                return Err("Xlib studio handle exceeds pointer width".to_owned());
            }
            if p > widest {
                return Err("Xlib program handle exceeds pointer width".to_owned());
            }
            if q > widest {
                return Err("Xlib preview handle exceeds pointer width".to_owned());
            }
            match d {
                Some(d) => Ok(
                    make_surfaces(
                        NativeSurfaceKind::Xlib,
                        d,
                        s as usize,
                        p as usize,
                        q as usize,
                        sizes,
                    ),
                ),
                None => Err("Xlib display handle is null".to_owned()),
            }
        },
        (
            RawHandle::WaylandDisplay(d),
            RawHandle::WaylandSurface(s),
            RawHandle::WaylandSurface(p),
            RawHandle::WaylandSurface(q),
        ) => Ok(make_surfaces(NativeSurfaceKind::Wayland, d, s, p, q, sizes)),
        _ => Err("unsupported Linux native surface combination".to_owned()),
    }
}

/// Linux has a preview window of its own that is not moved.
pub fn set_preview_bounds(_pointer: usize, _x: i32, _y: i32, _width: i32, _height: i32) -> (r:
    Result<(), String>)
    ensures
        r is Err,
        r->Err_0@ == "Linux verwendet ein separates natives Preview-Fenster"@,
{
    Err("Linux verwendet ein separates natives Preview-Fenster".to_owned())
}

/// Linux has a preview window of its own that stays as it is.
pub fn set_preview_visible(_pointer: usize, _visible: bool) -> (r: Result<(), String>)
    ensures
        r == Ok::<(), String>(()),
{
    Ok(())
}

// ---------------------------------------------------------------------------
// Sources
// ---------------------------------------------------------------------------

/// Each surface keeps its own handle and its own size, and is never empty.
pub proof fn law_surfaces_keep_their_places(
    kind: NativeSurfaceKind,
    display: usize,
    studio: usize,
    program: usize,
    preview: usize,
    sizes: OutputSizes,
)
    ensures
        ({
            let surfaces = surfaces_over(kind, display, studio, program, preview, sizes);
            &&& surfaces.kind == kind
            &&& surfaces.display == display
            &&& surfaces.studio == studio
            &&& surfaces.program == program
            &&& surfaces.preview == preview
            &&& sizes.program_width > 0 ==> surfaces.program_width == sizes.program_width
            &&& sizes.program_height > 0 ==> surfaces.program_height == sizes.program_height
            &&& sizes.preview_width > 0 ==> surfaces.preview_width == sizes.preview_width
            &&& sizes.preview_height > 0 ==> surfaces.preview_height == sizes.preview_height
            &&& surfaces.program_width > 0 && surfaces.program_height > 0
            &&& surfaces.preview_width > 0 && surfaces.preview_height > 0
        }),
{
}

/// A handle that a pointer cannot hold is refused, the studio's before the program's
/// before the preview's; others are not.
pub proof fn law_wide_handles_are_refused(studio: u64, program: u64, preview: u64)
    ensures
        too_wide(studio, program, preview) is None <==> studio <= usize::MAX && program
            <= usize::MAX && preview <= usize::MAX,
{
}

/// The note beside a list of sources; `failure` says why audio sources are missing.
pub open spec fn enumeration_note(failure: Option<Seq<char>>) -> Seq<char> {
    match failure {
        None => "Fenster und Monitore werden über das Desktop-Portal ausgewählt."@,
        Some(error) => "PipeWire-Audio nicht verfügbar: "@ + error
            + ". Fenster und Monitore werden über das Desktop-Portal ausgewählt."@,
    }
}

/// The note beside a list of sources.
pub fn enumeration_message(failure: Option<&str>) -> (r: String)
    ensures
        r@ == enumeration_note(
            match failure {
                None => None,
                Some(error) => Some(error@),
            },
        ),
{
    match failure {
        None => "Fenster und Monitore werden über das Desktop-Portal ausgewählt.".to_owned(),
        Some(error) => {
            let head = joined("PipeWire-Audio nicht verfügbar: ", error);
            joined(
                head.as_str(),
                ". Fenster und Monitore werden über das Desktop-Portal ausgewählt.",
            )
        },
    }
}

/// The sources that need no portal: those of audio, given the outcome of the task that
/// listed them. Windows and monitors are selected in the portal.
pub fn enumerate_sources<C>(audio: Result<Result<Vec<C>, String>, String>) -> (r: Result<
    SourceEnumeration<C>,
    String,
>)
    ensures
        match (audio, r) {
            (Err(error), Err(message)) => message@ == "enumerate_sources task failed: "@ + error@,
            (Ok(listed), Ok(found)) => {
                &&& found.portal_selection_required
                &&& found.message is Some
                &&& match listed {
                    Ok(candidates) => {
                        &&& found.candidates == candidates
                        &&& found.message->0@ == enumeration_note(None)
                    },
                    Err(error) => {
                        &&& found.candidates@ == Seq::<C>::empty()
                        &&& found.message->0@ == enumeration_note(Some(error@))
                    },
                }
            },
            _ => false,
        },
{
    match audio {
        Err(error) => Err(joined("enumerate_sources task failed: ", error.as_str())),
        Ok(Ok(candidates)) => Ok(
            SourceEnumeration {
                candidates,
                portal_selection_required: true,
                message: Some(enumeration_message(None)),
            },
        ),
        Ok(Err(error)) => Ok(
            SourceEnumeration {
                candidates: Vec::new(),
                portal_selection_required: true,
                message: Some(enumeration_message(Some(error.as_str()))),
            },
        ),
    }
}

/// Whether there is a renderer that portal selections go to.
pub struct PortalResources {
    pub linked: bool,
}

impl PortalResources {
    /// There is no renderer yet.
    pub fn new() -> (r: Self)
        ensures
            !r.linked,
    {
        PortalResources { linked: false }
    }

    /// The renderer is there.
    pub fn set_link(&mut self)
        ensures
            final(self).linked,
    {
        self.linked = true;
    }

    /// The renderer is gone.
    pub fn clear(&mut self)
        ensures
            !final(self).linked,
    {
        self.linked = false;
    }

    /// Takes what the user selected in the portal, or why nothing was: the selection is
    /// handed to the renderer through `link`, and its streams are listed. Without a
    /// renderer the selection is refused.
    pub fn on_selected<P, R>(
        &self,
        selection: Result<PortalSelection<P, R>, String>,
        link: &mut PipeWirePortalLink<P, R>,
    ) -> (r: Result<SourceEnumeration<SourceCandidate>, String>)
        ensures
            match selection {
                Err(error) => {
                    &&& r == Err::<SourceEnumeration<SourceCandidate>, String>(error)
                    &&& *final(link) == *old(link)
                },
                Ok(selection) => if self.linked {
                    &&& r is Ok
                    &&& candidates_view(r->Ok_0.candidates@) == Seq::new(
                        selection.streams@.len(),
                        |i: int| candidate_of(selection.binding_id, selection.streams@[i], i),
                    )
                    &&& !r->Ok_0.portal_selection_required
                    &&& r->Ok_0.message is None
                    &&& final(link).current() == Some(selection)
                    &&& final(link).published() == (old(link).published() + 1)
                        % 0x1_0000_0000_0000_0000
                } else {
                    &&& r is Err
                    &&& r->Err_0@ == "Linux-Renderer ist noch nicht initialisiert"@
                    &&& *final(link) == *old(link)
                },
            },
    {
        match selection {
            Err(error) => Err(error),
            Ok(selection) => {
                let candidates = portal_candidates(&selection);
                if !self.linked {
                    return Err("Linux-Renderer ist noch nicht initialisiert".to_owned());
                }
                link.publish(selection);
                Ok(
                    SourceEnumeration {
                        candidates,
                        portal_selection_required: false,
                        message: None,
                    },
                )
            },
        }
    }
}

/// A source that the user can add.
#[derive(Debug)]
pub enum SourceCandidate {
    Window { runtime_id: String, name: String, process_path: String, window_title: String },
    Display { runtime_id: String, name: String, adapter_luid: String, output_id: u32 },
}

/// What a candidate says.
pub enum CandidateView {
    Window {
        runtime_id: Seq<char>,
        name: Seq<char>,
        process_path: Seq<char>,
        window_title: Seq<char>,
    },
    Display { runtime_id: Seq<char>, name: Seq<char>, adapter_luid: Seq<char>, output_id: u32 },
}

impl View for SourceCandidate {
    type V = CandidateView;

    open spec fn view(&self) -> CandidateView {
        match *self {
            SourceCandidate::Window { runtime_id, name, process_path, window_title } => {
                CandidateView::Window {
                    runtime_id: runtime_id@,
                    name: name@,
                    process_path: process_path@,
                    window_title: window_title@,
                }
            },
            SourceCandidate::Display { runtime_id, name, adapter_luid, output_id } => {
                CandidateView::Display {
                    runtime_id: runtime_id@,
                    name: name@,
                    adapter_luid: adapter_luid@,
                    output_id,
                }
            },
        }
    }
}

/// The name of a stream: what the portal calls it, else its number in the list.
pub open spec fn stream_title(stream: PortalStreamInfo, index: int) -> Seq<char> {
    match (stream.id, stream.mapping_id) {
        (Some(id), _) => id@,
        (None, Some(mapping)) => mapping@,
        (None, None) => "Portal-Quelle "@ + text::decimal_digits((index + 1) as nat),
    }
}

/// The candidate of a stream. It names the selection and the node, which is how the
/// renderer finds the stream again; after a restart there is a new selection.
pub open spec fn candidate_of(binding_id: u128, stream: PortalStreamInfo, index: int) ->
    CandidateView {
    let node = text::decimal_digits(stream.pipewire_node_id as nat);
    if stream.source_type == Some(linux::PortalSourceType::Window) {
        CandidateView::Window {
            runtime_id: "portal:window:"@ + node,
            name: stream_title(stream, index),
            process_path: linux::marker_text(binding_id),
            window_title: node,
        }
    } else {
        CandidateView::Display {
            runtime_id: "portal:display:"@ + node,
            name: stream_title(stream, index),
            adapter_luid: linux::marker_text(binding_id),
            output_id: stream.pipewire_node_id,
        }
    }
}

/// A stream goes by its own id, else by that of its mapping, else by its number, counted
/// from one. A window stream is offered as a window, any other as a display, under the
/// selection's marker and with the stream's node.
pub proof fn law_stream_is_offered_by_its_kind(
    binding_id: u128,
    stream: PortalStreamInfo,
    index: int,
)
    ensures
        stream.id matches Some(id) ==> stream_title(stream, index) == id@,
        stream.id is None ==> (stream.mapping_id matches Some(mapping) ==> stream_title(
            stream,
            index,
        ) == mapping@),
        stream.id is None && stream.mapping_id is None ==> stream_title(stream, index)
            == "Portal-Quelle "@ + text::decimal_digits((index + 1) as nat),
        match candidate_of(binding_id, stream, index) {
            CandidateView::Window { name, process_path, window_title, .. } => {
                &&& stream.source_type == Some(linux::PortalSourceType::Window)
                &&& name == stream_title(stream, index)
                &&& process_path == linux::marker_text(binding_id)
                &&& text::parsed_u32(window_title) == Some(stream.pipewire_node_id)
            },
            CandidateView::Display { name, adapter_luid, output_id, .. } => {
                &&& stream.source_type != Some(linux::PortalSourceType::Window)
                &&& name == stream_title(stream, index)
                &&& adapter_luid == linux::marker_text(binding_id)
                &&& output_id == stream.pipewire_node_id
            },
        },
{
    text::law_decimal_round_trip(stream.pipewire_node_id);
}

/// What a list of candidates says.
pub open spec fn candidates_view(candidates: Seq<SourceCandidate>) -> Seq<CandidateView> {
    candidates.map_values(|c: SourceCandidate| c@)
}

/// The candidates of a portal selection, one for each stream.
pub fn portal_candidates<P, R>(selection: &PortalSelection<P, R>) -> (r: Vec<SourceCandidate>)
    ensures
        candidates_view(r@) == Seq::new(
            selection.streams@.len(),
            |i: int| candidate_of(selection.binding_id, selection.streams@[i], i),
        ),
{
    let id = source_id::id_text(selection.binding_id);
    let marker = joined("portal:", id.as_str());
    let total: usize = selection.streams.len();
    let mut r: Vec<SourceCandidate> = Vec::new();
    let mut i: usize = 0;
    while i < total
        invariant
            total == selection.streams@.len(),
            i <= total,
            marker@ == linux::marker_text(selection.binding_id),
            candidates_view(r@) == Seq::new(
                i as nat,
                |k: int| candidate_of(selection.binding_id, selection.streams@[k], k),
            ),
        decreases total - i,
    {
        let stream = &selection.streams[i];
        let node = decimal(stream.pipewire_node_id as u64);
        let name = match (&stream.id, &stream.mapping_id) {
            (Some(id), _) => id.clone(),
            (None, Some(mapping)) => mapping.clone(),
            (None, None) => {
                let number = decimal(i as u64 + 1);
                joined("Portal-Quelle ", number.as_str())
            },
        };
        let candidate = if stream.is_window() {
            SourceCandidate::Window {
                runtime_id: joined("portal:window:", node.as_str()),
                name,
                process_path: marker.clone(),
                window_title: node,
            }
        } else {
            SourceCandidate::Display {
                runtime_id: joined("portal:display:", node.as_str()),
                name,
                adapter_luid: marker.clone(),
                output_id: stream.pipewire_node_id,
            }
        };
        let ghost before = r@;
        r.push(candidate);
        proof {
            assert(candidate@ == candidate_of(
                selection.binding_id,
                selection.streams@[i as int],
                i as int,
            ));
            assert(candidates_view(r@) =~= candidates_view(before).push(candidate@));
            assert(candidates_view(r@) =~= Seq::new(
                (i + 1) as nat,
                |k: int| candidate_of(selection.binding_id, selection.streams@[k], k),
            ));
        }
        i += 1;
    }
    r
}

/// Whether a source was made from a candidate.
pub open spec fn made_from(source: Source, candidate: CandidateView) -> bool {
    match (source, candidate) {
        (
            Source::Window { process_path, window_title, .. },
            CandidateView::Window { process_path: p, window_title: t, .. },
        ) => process_path@ == p && window_title@ == t,
        (
            Source::Display { adapter_luid, output_id, .. },
            CandidateView::Display { adapter_luid: a, output_id: o, .. },
        ) => adapter_luid@ == a && output_id == o,
        _ => false,
    }
}

/// A source that was made from a stream of a selection is captured from that
/// stream's node as long as the selection is current, and from no node under
/// another selection.
pub proof fn law_candidate_finds_its_stream(
    binding_id: u128,
    current: u128,
    streams: Seq<PortalStreamInfo>,
    index: int,
    source: Source,
)
    requires
        0 <= index < streams.len(),
        made_from(source, candidate_of(binding_id, streams[index], index)),
    ensures
        portal_captures::wanted_node(source, Some(linux::marker_text(current)), streams) == (
        if current == binding_id {
            Some(streams[index].pipewire_node_id)
        } else {
            None
        }),
{
    text::law_decimal_round_trip(streams[index].pipewire_node_id);
    if linux::marker_text(current) == linux::marker_text(binding_id) {
        linux::law_marker_identifies_selection(current, binding_id);
    }
}

} // verus!
