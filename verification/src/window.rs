//! Where the window sits on the screen: its place on the monitor, its place above the taskbar,
//! its style and its opacity.
//!
//! The system calls are the caller's. The functions here take what a call returned and say what
//! to call next, with which numbers.

use vstd::math::abs;
use vstd::prelude::*;

use crate::text::{parse_number, number_value, trim, trimmed, utf16, wide};

verus! {

/// `SetWindowPos`: place the window above all that are not topmost.
pub const HWND_TOPMOST: isize = -1;

/// `SetWindowPos`: keep the size.
pub const SWP_NOSIZE: u32 = 0x1;

/// `SetWindowPos`: keep the position.
pub const SWP_NOMOVE: u32 = 0x2;

/// `SetWindowPos`: do not activate the window.
pub const SWP_NOACTIVATE: u32 = 0x10;

/// `GetWindowLongPtrW`: the index of the extended style.
pub const GWL_EXSTYLE: i32 = -20;

/// Extended style: the window is topmost.
pub const WS_EX_TOPMOST: isize = 0x8;

/// Extended style: the window is layered.
pub const WS_EX_LAYERED: isize = 0x0008_0000;

/// `DwmSetWindowAttribute`: how the corners are drawn.
pub const DWMWA_WINDOW_CORNER_PREFERENCE: u32 = 33;

/// `DwmSetWindowAttribute`: the colour of the border.
pub const DWMWA_BORDER_COLOR: u32 = 34;

/// Round corners.
pub const DWMWCP_ROUND: u32 = 2;

/// No border.
pub const DWMWA_COLOR_NONE: u32 = 0xFFFF_FFFE;

/// How often to check that no taskbar has been raised above the widget, in milliseconds.
pub const CHECK_MS: u32 = 500;

/// The opacity where none is set, in percent.
pub const DEFAULT_OPACITY_PERCENT: u32 = 85;

/// A rectangle on the screen, in pixels.
#[derive(Clone, Copy, Debug, PartialEq, Eq, Structural)]
pub struct Rect {
    pub left: i32,
    pub top: i32,
    pub right: i32,
    pub bottom: i32,
}

/// What the system says of the window when it is to be settled.
#[derive(Clone, Copy, Debug, PartialEq, Eq, Structural)]
pub enum WindowProbe {
    /// The platform gives no handle to the window.
    NoHandle,
    /// The window is not shown yet.
    Hidden,
    /// The window is shown, but its place or its monitor cannot be read.
    Unplaced,
    /// The window is shown at `window`, on the monitor whose work area is `work`.
    Placed { window: Rect, work: Rect },
}

/// A call of `SetWindowPos` with the topmost level and no size.
#[derive(Clone, Copy, Debug, PartialEq, Eq, Structural)]
pub struct Placement {
    pub x: i32,
    pub y: i32,
    pub flags: u32,
}

/// What becomes of a window that is to be settled.
#[derive(Clone, Copy, Debug, PartialEq, Eq, Structural)]
pub struct Settling {
    /// The window needs no further settling.
    pub settled: bool,
    pub place: Option<Placement>,
}

impl Rect {
    pub open spec fn width(self) -> int {
        self.right - self.left
    }

    pub open spec fn height(self) -> int {
        self.bottom - self.top
    }

    /// True when this rectangle lies within another.
    pub open spec fn within(self, area: Rect) -> bool {
        &&& area.left <= self.left
        &&& self.right <= area.right
        &&& area.top <= self.top
        &&& self.bottom <= area.bottom
    }
}

/// The coordinate nearest to `at` that keeps `extent` pixels between `low` and `high`; `low` where
/// they do not fit.
pub open spec fn pulled(at: int, extent: int, low: int, high: int) -> int {
    let upper = if at <= high - extent {
        at
    } else {
        high - extent
    };
    if upper >= low {
        upper
    } else {
        low
    }
}

/// True when the system's coordinates can be subtracted from each other.
pub open spec fn in_range(window: Rect, work: Rect) -> bool {
    &&& i32::MIN <= window.width() <= i32::MAX
    &&& i32::MIN <= window.height() <= i32::MAX
    &&& i32::MIN <= work.right - window.width() <= i32::MAX
    &&& i32::MIN <= work.bottom - window.height() <= i32::MAX
}

/// The window, raised to the top and pulled onto the work area if it is not there.
pub open spec fn placement(window: Rect, work: Rect) -> Placement {
    let x = pulled(window.left as int, window.width(), work.left as int, work.right as int);
    let y = pulled(window.top as int, window.height(), work.top as int, work.bottom as int);
    Placement {
        x: x as i32,
        y: y as i32,
        flags: if x == window.left && y == window.top {
            0x13
        } else {
            0x11
        },
    }
}

/// What settling does for each answer of the system.
pub open spec fn settling(probe: WindowProbe) -> Settling {
    match probe {
        WindowProbe::NoHandle => Settling { settled: true, place: None },
        WindowProbe::Hidden => Settling { settled: false, place: None },
        WindowProbe::Unplaced => Settling {
            settled: true,
            place: Some(Placement { x: 0, y: 0, flags: 0x13 }),
        },
        WindowProbe::Placed { window, work } => Settling {
            settled: true,
            place: Some(placement(window, work)),
        },
    }
}

fn pull(at: i32, extent: i32, low: i32, high: i32) -> (to: i32)
    requires
        i32::MIN <= high - extent <= i32::MAX,
    ensures
        to == pulled(at as int, extent as int, low as int, high as int),
{
    let limit: i32 = high - extent;
    let upper: i32 = if at <= limit {
        at
    } else {
        limit
    };
    if upper >= low {
        upper
    } else {
        low
    }
}

/// Runs when the window is first visible and after each self-resize. Pulls the window fully onto
/// the nearest monitor's work area, since the saved position can point at a monitor that is no
/// longer there, and raises it to the top. A window that is not shown yet is not settled.
pub fn settle_window(probe: WindowProbe) -> (s: Settling)
    requires
        probe matches WindowProbe::Placed { window, work } ==> in_range(window, work),
    ensures
        s == settling(probe),
{
    proof {
        assert(0x1u32 | 0x10u32 == 0x11u32) by (bit_vector);
        assert(0x11u32 | 0x2u32 == 0x13u32) by (bit_vector);
    }
    let mut flags: u32 = SWP_NOSIZE | SWP_NOACTIVATE;
    match probe {
        WindowProbe::NoHandle => Settling { settled: true, place: None },
        WindowProbe::Hidden => Settling { settled: false, place: None },
        WindowProbe::Unplaced => {
            flags = flags | SWP_NOMOVE;
            Settling { settled: true, place: Some(Placement { x: 0, y: 0, flags }) }
        },
        WindowProbe::Placed { window, work } => {
            let x: i32 = pull(window.left, window.right - window.left, work.left, work.right);
            let y: i32 = pull(window.top, window.bottom - window.top, work.top, work.bottom);
            if x == window.left && y == window.top {
                flags = flags | SWP_NOMOVE;
            }
            Settling { settled: true, place: Some(Placement { x, y, flags }) }
        },
    }
}

/// The rectangle that a window covers once it has been placed.
pub open spec fn placed(window: Rect, work: Rect) -> Rect {
    let p = placement(window, work);
    Rect {
        left: p.x,
        top: p.y,
        right: (p.x + window.width()) as i32,
        bottom: (p.y + window.height()) as i32,
    }
}

proof fn lemma_flag_bits()
    by (bit_vector)
    ensures
        0x13u32 & 0x2u32 != 0,
        0x13u32 & 0x1u32 != 0,
        0x13u32 & 0x10u32 != 0,
        0x13u32 & !0x13u32 == 0,
        0x11u32 & 0x2u32 == 0,
        0x11u32 & 0x1u32 != 0,
        0x11u32 & 0x10u32 != 0,
        0x11u32 & !0x13u32 == 0,
{
}

/// Where a window is once it has been placed: the system ignores the coordinates of a placement
/// that keeps the position (flag 2).
pub open spec fn ends_at(window: Rect, p: Placement) -> (int, int) {
    if p.flags & 0x2 != 0 {
        (window.left as int, window.top as int)
    } else {
        (p.x as int, p.y as int)
    }
}

/// Wherever a shown window was, it ends up fully on the work area if it fits, in each direction at
/// the spot nearest to where it was, and at the area's upper left edge if it does not fit.
pub proof fn law_shown_window_ends_on_screen(window: Rect, work: Rect, x: int, y: int)
    requires
        in_range(window, work),
    ensures
        settling(WindowProbe::Placed { window, work }).place matches Some(p) && {
            let (left, top) = ends_at(window, p);
            &&& window.width() <= work.width() ==> {
                &&& work.left <= left && left + window.width() <= work.right
                &&& work.left <= x && x + window.width() <= work.right ==> abs(left - window.left)
                    <= abs(x - window.left)
            }
            &&& window.height() <= work.height() ==> {
                &&& work.top <= top && top + window.height() <= work.bottom
                &&& work.top <= y && y + window.height() <= work.bottom ==> abs(top - window.top)
                    <= abs(y - window.top)
            }
            &&& window.width() > work.width() ==> left == work.left
            &&& window.height() > work.height() ==> top == work.top
        },
{
    lemma_flag_bits();
}

/// A placement keeps the position (flag 2) if and only if both of its coordinates are the
/// window's own.
pub proof fn law_position_is_kept_iff_unchanged(window: Rect, work: Rect)
    requires
        in_range(window, work),
    ensures
        settling(WindowProbe::Placed { window, work }).place matches Some(p) && (p.flags & 0x2 != 0
            <==> p.x == window.left && p.y == window.top),
{
    lemma_flag_bits();
}

/// Whatever the system says, a window is tried again only while it is hidden, and raised exactly
/// if it is shown. Raising it never changes its size (flag 1) and never activates it (flag 16); and
/// a window whose place is not known keeps its position (flag 2).
pub proof fn law_every_shown_window_is_raised(probe: WindowProbe)
    ensures
        settling(probe).settled <==> probe != WindowProbe::Hidden,
        settling(probe).place is Some <==> probe is Unplaced || probe is Placed,
        settling(probe).place matches Some(p) ==> {
            &&& p.flags & 0x1 != 0
            &&& p.flags & 0x10 != 0
            &&& p.flags & !0x13u32 == 0
            &&& probe is Unplaced ==> p.flags & 0x2 != 0
        },
{
    lemma_flag_bits();
}

/// A settled window is on the screen: one that fits the work area ends up fully within it, keeps
/// its size, and no closer position within the area exists.
pub proof fn law_settled_on_screen(window: Rect, work: Rect, other: Rect)
    requires
        0 <= window.width() <= work.width(),
        0 <= window.height() <= work.height(),
        other.within(work),
        other.width() == window.width(),
        other.height() == window.height(),
    ensures
        placed(window, work).within(work),
        placed(window, work).width() == window.width(),
        placed(window, work).height() == window.height(),
        ({
            let dx = placement(window, work).x - window.left;
            let ox = other.left - window.left;
            -ox <= dx <= ox || ox <= dx <= -ox
        }),
        ({
            let dy = placement(window, work).y - window.top;
            let oy = other.top - window.top;
            -oy <= dy <= oy || oy <= dy <= -oy
        }),
{
}

/// A window that already lies within the work area is raised where it is: its position is not
/// touched.
pub proof fn law_settled_stays(window: Rect, work: Rect)
    requires
        window.within(work),
    ensures
        placement(window, work) == (Placement { x: window.left, y: window.top, flags: 0x13 }),
{
}

/// A window larger than the work area keeps its upper left corner in view.
pub proof fn law_oversized_shows_its_corner(window: Rect, work: Rect)
    requires
        in_range(window, work),
    ensures
        window.width() >= work.width() ==> placement(window, work).x == work.left,
        window.height() >= work.height() ==> placement(window, work).y == work.top,
{
}

/// Settling a settled window again does not move it.
pub proof fn law_settling_is_idempotent(window: Rect, work: Rect)
    requires
        in_range(window, work),
        i32::MIN <= placement(window, work).x + window.width() <= i32::MAX,
        i32::MIN <= placement(window, work).y + window.height() <= i32::MAX,
    ensures
        placement(placed(window, work), work) == (Placement {
            x: placement(window, work).x,
            y: placement(window, work).y,
            flags: 0x13,
        }),
{
}

/// What is done to the window on every frame.
#[derive(Debug)]
pub struct Chrome {
    /// The flags of the `SetWindowPos` that puts the window back on top, if that is needed.
    pub raise: Option<u32>,
    /// The window attributes to set, each with its value.
    pub attributes: Vec<(u32, u32)>,
}

/// The flags that raise a window and change nothing else.
pub fn raise_flags() -> (flags: u32)
    ensures
        flags == 0x13,
{
    proof {
        assert(0x2u32 | 0x1u32 | 0x10u32 == 0x13u32) by (bit_vector);
    }
    SWP_NOMOVE | SWP_NOSIZE | SWP_NOACTIVATE
}

/// The flags of the `SetWindowPos` that puts a window back on top, if its extended style lacks the
/// topmost bit.
pub open spec fn chrome_raise(ex_style: isize) -> Option<u32> {
    if ex_style & WS_EX_TOPMOST == 0 {
        Some(0x13u32)
    } else {
        None
    }
}

/// The attributes of the window: round corners, no border.
pub open spec fn chrome_attributes() -> Seq<(u32, u32)> {
    seq![(33u32, 2u32), (34u32, 0xFFFF_FFFEu32)]
}

/// Rounds the corners and drops the border, so that the frameless window looks like a floating
/// card; puts the window back on top if something has dropped its topmost style.
pub fn apply_windows_chrome(ex_style: isize) -> (c: Chrome)
    ensures
        c.raise == chrome_raise(ex_style),
        c.attributes@ == chrome_attributes(),
{
    let raise = if ex_style & WS_EX_TOPMOST == 0 {
        Some(raise_flags())
    } else {
        None
    };
    let attributes = vec![
        (DWMWA_WINDOW_CORNER_PREFERENCE, DWMWCP_ROUND),
        (DWMWA_BORDER_COLOR, DWMWA_COLOR_NONE),
    ];
    assert(attributes@ =~= chrome_attributes());
    Chrome { raise, attributes }
}

/// A window is raised by its chrome if and only if it is not topmost (bit 3 of its style), whatever
/// else its style holds; one that has been raised is then left alone. Raising it changes neither its
/// position nor its size, and does not activate it.
pub proof fn law_chrome_restores_topmost(ex_style: isize)
    ensures
        chrome_raise(ex_style) is None <==> (ex_style >> 3usize) & 1 == 1,
        chrome_raise(ex_style | 0x8) is None,
        chrome_raise(ex_style) matches Some(flags) ==> flags & 0x2 != 0 && flags & 0x1 != 0 && flags
            & 0x10 != 0 && flags & !0x13u32 == 0,
{
    lemma_flag_bits();
    assert((ex_style & 0x8isize != 0) <==> (ex_style >> 3usize) & 1isize == 1isize)
        by (bit_vector);
    assert((ex_style | 0x8isize) & 0x8isize != 0) by (bit_vector);
}

/// The chrome sets the corners (attribute 33) to round (2) and the border (attribute 34) to none,
/// and no other attribute.
pub proof fn law_chrome_attributes(attribute: u32, value: u32)
    ensures
        chrome_attributes().contains((attribute, value)) <==> (attribute == 33 && value == 2) || (
        attribute == 34 && value == 0xFFFF_FFFE),
        chrome_attributes().no_duplicates(),
{
    let all = chrome_attributes();
    assert(all[0] == (33u32, 2u32));
    assert(all[1] == (34u32, 0xFFFF_FFFEu32));
}

/// The opacity that a setting asks for, in percent: 85 where it names no number, and never
/// outside 20 to 100.
pub open spec fn opacity_percent(setting: Option<Seq<char>>) -> int {
    let asked: int = match setting {
        Some(s) => match number_value(trimmed(s)) {
            Some(n) => if n <= u32::MAX {
                n as int
            } else {
                85
            },
            None => 85,
        },
        None => 85,
    };
    if asked < 20 {
        20
    } else if asked > 100 {
        100
    } else {
        asked
    }
}

/// The alpha of the whole window at an opacity in percent. A window of full opacity has none.
pub open spec fn alpha_at(percent: int) -> Option<u8> {
    if percent >= 100 {
        None
    } else {
        Some((percent * 255 / 100) as u8)
    }
}

/// The alpha of the whole window, from a setting.
pub fn window_alpha(setting: Option<&str>) -> (alpha: Option<u8>)
    ensures
        alpha == alpha_at(
            opacity_percent(
                match setting {
                    Some(s) => Some(s@),
                    None => None,
                },
            ),
        ),
{
    let asked: u32 = match setting {
        Some(s) => match parse_number(trim(s), u32::MAX as u64) {
            Some(n) => n as u32,
            None => DEFAULT_OPACITY_PERCENT,
        },
        None => DEFAULT_OPACITY_PERCENT,
    };
    let percent: u32 = if asked < 20 {
        20
    } else if asked > 100 {
        100
    } else {
        asked
    };
    if percent >= 100 {
        return None;
    }
    Some((percent * 255 / 100) as u8)
}

/// The extended style and the alpha that dim a window.
#[derive(Clone, Copy, Debug, PartialEq, Eq, Structural)]
pub struct Layering {
    pub ex_style: isize,
    pub alpha: u8,
}

/// What dims a window: nothing where it has no alpha or is layered already.
pub open spec fn layered(alpha: Option<u8>, ex_style: isize) -> Option<Layering> {
    match alpha {
        Some(alpha) => if ex_style & WS_EX_LAYERED == 0 {
            Some(Layering { ex_style: ex_style | WS_EX_LAYERED, alpha })
        } else {
            None
        },
        None => None,
    }
}

/// What dims a window at a setting.
pub open spec fn dimmed(setting: Option<Seq<char>>, ex_style: isize) -> Option<Layering> {
    layered(alpha_at(opacity_percent(setting)), ex_style)
}

/// Dims the whole card through a layered window: what to set, unless the window is to be of full
/// opacity or is layered already.
pub fn set_opacity(setting: Option<&str>, ex_style: isize) -> (layering: Option<Layering>)
    ensures
        ({
            let setting = match setting {
                Some(s) => Some(s@),
                None => None,
            };
            layering == dimmed(setting, ex_style)
        }),
{
    match window_alpha(setting) {
        Some(alpha) => if ex_style & WS_EX_LAYERED == 0 {
            Some(Layering { ex_style: ex_style | WS_EX_LAYERED, alpha })
        } else {
            None
        },
        None => None,
    }
}

/// The card never disappears: its alpha is at least a fifth of 255, and grows with the percentage.
pub proof fn law_opacity_bounds(setting: Option<Seq<char>>, other: Option<Seq<char>>)
    ensures
        20 <= opacity_percent(setting) <= 100,
        alpha_at(opacity_percent(setting)) matches Some(a) ==> 51 <= a < 255,
        opacity_percent(setting) <= opacity_percent(other) && alpha_at(
            opacity_percent(other),
        ) is Some ==> alpha_at(opacity_percent(setting)) is Some && alpha_at(
            opacity_percent(setting),
        )->0 <= alpha_at(opacity_percent(other))->0,
{
}

/// A percentage from 20 to 100 is taken as it is set.
pub proof fn law_opacity_setting_is_honoured(s: Seq<char>, n: nat)
    requires
        20 <= n <= 100,
        trimmed(s) == crate::text::decimal_text(n),
    ensures
        opacity_percent(Some(s)) == n,
        opacity_percent(None) == 85,
{
    crate::text::law_decimal_reads_back(n, s);
}

/// A setting that names a number is taken at the nearest percentage from 20 to 100; one that names
/// none, or one that no `u32` holds, counts as not set.
pub proof fn law_opacity_is_clamped(s: Seq<char>, other: int)
    requires
        20 <= other <= 100,
    ensures
        20 <= opacity_percent(Some(s)) <= 100,
        match number_value(trimmed(s)) {
            Some(n) => if n <= 0xFFFF_FFFF {
                abs(opacity_percent(Some(s)) - n) <= abs(other - n)
            } else {
                opacity_percent(Some(s)) == opacity_percent(None)
            },
            None => opacity_percent(Some(s)) == opacity_percent(None),
        },
        opacity_percent(None) == 85,
{
}

/// The alpha is the share of 255 that the percentage is, rounded down; from full opacity on there
/// is none.
pub proof fn law_alpha_is_the_share(percent: int)
    requires
        0 <= percent,
    ensures
        alpha_at(percent) is None <==> percent >= 100,
        alpha_at(percent) matches Some(a) ==> 100 * a <= 255 * percent < 100 * (a + 1),
{
}

/// A window is dimmed if and only if it has an alpha and is not layered (bit 19 of its style). It
/// then gets that alpha, and the layered bit is all that its style gains.
pub proof fn law_dimming_adds_one_bit(alpha: Option<u8>, ex_style: isize)
    ensures
        layered(alpha, ex_style) is Some <==> alpha is Some && (ex_style >> 19usize) & 1 == 0,
        layered(alpha, ex_style) matches Some(l) ==> {
            &&& Some(l.alpha) == alpha
            &&& l.ex_style ^ ex_style == 1isize << 19usize
            &&& layered(alpha, l.ex_style) is None
        },
{
    assert((ex_style & 0x8_0000isize == 0) <==> (ex_style >> 19usize) & 1isize == 0isize)
        by (bit_vector);
    assert((ex_style | 0x8_0000isize) & 0x8_0000isize != 0) by (bit_vector);
    assert(ex_style & 0x8_0000isize == 0 ==> (ex_style | 0x8_0000isize) ^ ex_style == 1isize
        << 19usize) by (bit_vector);
}

/// A setting dims a window that is not layered (bit 19) to its share of 255, if and only if it is below
/// full opacity.
pub proof fn law_setting_dims_the_window(setting: Option<Seq<char>>, ex_style: isize)
    ensures
        dimmed(setting, ex_style) is Some <==> opacity_percent(setting) < 100 && (ex_style
            >> 19usize) & 1 == 0,
        dimmed(setting, ex_style) matches Some(l) ==> {
            &&& 100 * l.alpha <= 255 * opacity_percent(setting) < 100 * (l.alpha + 1)
            &&& l.ex_style ^ ex_style == 1isize << 19usize
        },
{
    let percent = opacity_percent(setting);
    law_alpha_is_the_share(percent);
    law_dimming_adds_one_bit(alpha_at(percent), ex_style);
}

/// A layered window is left alone from then on.
pub proof fn law_opacity_is_set_once(ex_style: isize)
    requires
        ex_style & WS_EX_LAYERED == 0,
    ensures
        (ex_style | WS_EX_LAYERED) & WS_EX_LAYERED != 0,
{
    assert((ex_style | 0x0008_0000isize) & 0x0008_0000isize != 0) by (bit_vector);
}

/// The class name of the primary monitor's taskbar, and that of the ones on other monitors.
pub open spec fn taskbar_class(class: Seq<u16>) -> bool {
    class == utf16("Shell_TrayWnd"@) || class == utf16("Shell_SecondaryTrayWnd"@)
}

/// True when the units spell a text of plain characters, one unit for each.
pub open spec fn spells(units: Seq<u16>, s: Seq<char>) -> bool {
    &&& units.len() == s.len()
    &&& forall|i: int| 0 <= i < s.len() ==> #[trigger] units[i] == s[i] as u32
}

/// The taskbars are the windows of two classes, by their whole names, unit for unit.
pub proof fn law_taskbar_classes(class: Seq<u16>)
    ensures
        taskbar_class(class) <==> spells(class, "Shell_TrayWnd"@) || spells(
            class,
            "Shell_SecondaryTrayWnd"@,
        ),
{
    reveal_strlit("Shell_TrayWnd");
    reveal_strlit("Shell_SecondaryTrayWnd");
    crate::text::law_wide_of_plain_text("Shell_TrayWnd"@);
    crate::text::law_wide_of_plain_text("Shell_SecondaryTrayWnd"@);
    if spells(class, "Shell_TrayWnd"@) {
        assert(class =~= utf16("Shell_TrayWnd"@));
    }
    if spells(class, "Shell_SecondaryTrayWnd"@) {
        assert(class =~= utf16("Shell_SecondaryTrayWnd"@));
    }
}

fn same_units(units: &[u16], len: usize, text: &str) -> (yes: bool)
    requires
        len <= units@.len(),
    ensures
        yes == (units@.take(len as int) == utf16(text@)),
{
    let other = wide(text);
    if other.len() - 1 != len {
        assert(units@.take(len as int).len() != utf16(text@).len());
        return false;
    }
    for i in 0..len
        invariant
            len <= units@.len(),
            other@ == utf16(text@).push(0),
            utf16(text@).len() == len,
            forall|j: int| 0 <= j < i ==> units@[j] == #[trigger] other@[j],
    {
        if units[i] != other[i] {
            assert(units@.take(len as int)[i as int] != utf16(text@)[i as int]);
            return false;
        }
    }
    assert(units@.take(len as int) =~= utf16(text@)) by {
        assert forall|j: int| 0 <= j < len implies units@[j] == utf16(text@)[j] by {
            assert(units@[j] == other@[j]);
        }
    }
    true
}

/// Tells whether a window is a taskbar, from the buffer that its class name was read into and the
/// length that the system returned.
pub fn is_taskbar(buffer: &[u16], len: i32) -> (yes: bool)
    requires
        len <= buffer@.len(),
    ensures
        yes == taskbar_class(
            buffer@.take(
                if len > 0 {
                    len as int
                } else {
                    0
                },
            ),
        ),
{
    let n: usize = if len > 0 {
        len as usize
    } else {
        0
    };
    same_units(buffer, n, "Shell_TrayWnd") || same_units(buffer, n, "Shell_SecondaryTrayWnd")
}

/// A class name as the system returned it: the buffer and the length.
#[derive(Clone, Copy, Debug)]
pub struct ClassName<'a> {
    pub buffer: &'a [u16],
    pub len: i32,
}

impl<'a> ClassName<'a> {
    /// True when the length lies within the buffer.
    pub open spec fn valid(self) -> bool {
        self.len <= self.buffer@.len()
    }

    /// The class name itself.
    pub open spec fn units(self) -> Seq<u16> {
        self.buffer@.take(
            if self.len > 0 {
                self.len as int
            } else {
                0
            },
        )
    }
}

/// What happens to the widget in the stack of windows.
#[derive(Clone, Copy, Debug)]
pub enum StackEvent<'a> {
    /// The widget was settled; `previous` is the handle of the widget until then, or zero.
    Settled { previous: isize },
    /// The timer walks up the stack from the widget and has come to this window; `None` at the
    /// top of the stack.
    Above(Option<ClassName<'a>>),
    /// A window has come to the foreground.
    Foreground(ClassName<'a>),
}

/// What to do about it.
#[derive(Clone, Copy, Debug, PartialEq, Eq, Structural)]
pub enum StackAction {
    Nothing,
    /// Install the timer and the foreground hook.
    Install,
    /// Look at the next window up the stack.
    LookFurther,
    /// Raise the widget to the top.
    Raise,
}

/// What is done when the walk up the stack comes to a window of the given class, or to its top.
pub open spec fn walk_action(above: Option<Seq<u16>>) -> StackAction {
    match above {
        None => StackAction::Nothing,
        Some(class) => if taskbar_class(class) {
            StackAction::Raise
        } else {
            StackAction::LookFurther
        },
    }
}

/// What is done about an event in the stack of windows.
pub open spec fn stack_action(event: StackEvent) -> StackAction {
    match event {
        StackEvent::Settled { previous } => if previous == 0 {
            StackAction::Install
        } else {
            StackAction::Nothing
        },
        StackEvent::Above(None) => walk_action(None),
        StackEvent::Above(Some(class)) => walk_action(Some(class.units())),
        StackEvent::Foreground(class) => if taskbar_class(class.units()) {
            StackAction::Raise
        } else {
            StackAction::Nothing
        },
    }
}

/// The taskbar is topmost too, and whenever it is activated it rises above every other topmost
/// window, hiding a widget that sits on it. It also raises itself in other ways, so a timer walks
/// the few windows above the widget and raises it again if a taskbar is among them; a foreground
/// hook does the same at once. Only the first call installs the two.
pub fn watch_taskbar(event: StackEvent) -> (action: StackAction)
    requires
        match event {
            StackEvent::Settled { .. } => true,
            StackEvent::Above(None) => true,
            StackEvent::Above(Some(class)) => class.valid(),
            StackEvent::Foreground(class) => class.valid(),
        },
    ensures
        action == stack_action(event),
{
    match event {
        StackEvent::Settled { previous } => if previous == 0 {
            StackAction::Install
        } else {
            StackAction::Nothing
        },
        StackEvent::Above(above) => match above {
            None => StackAction::Nothing,
            Some(class) => if is_taskbar(class.buffer, class.len) {
                StackAction::Raise
            } else {
                StackAction::LookFurther
            },
        },
        StackEvent::Foreground(class) => if is_taskbar(class.buffer, class.len) {
            StackAction::Raise
        } else {
            StackAction::Nothing
        },
    }
}

/// The class name of a window is as many units of the buffer as the system said, from its start;
/// none where it said none or failed.
pub proof fn law_class_name_is_read_from_the_buffer(class: ClassName, i: int)
    requires
        class.valid(),
    ensures
        class.len <= 0 ==> class.units().len() == 0,
        class.len >= 0 ==> class.units().len() == class.len,
        0 <= i < class.len ==> class.units()[i] == class.buffer@[i],
{
}

/// The widget is raised if and only if a taskbar has come to the foreground or has been found above
/// it; the walk goes on past every other window and ends at the top of the stack. The timer and the
/// hook are installed if and only if the widget had no handle before, so once.
pub proof fn law_watch_answers_taskbars(event: StackEvent)
    ensures
        stack_action(event) == StackAction::Raise <==> {
            ||| event matches StackEvent::Above(Some(class)) && taskbar_class(class.units())
            ||| event matches StackEvent::Foreground(class) && taskbar_class(class.units())
        },
        stack_action(event) == StackAction::LookFurther <==> (event matches StackEvent::Above(
            Some(class),
        ) && !taskbar_class(class.units())),
        stack_action(event) == StackAction::Install <==> (event matches StackEvent::Settled {
            previous,
        } && previous == 0),
{
}

/// What the timer comes to when it walks up from the widget through windows of the given classes.
pub open spec fn walk(above: Seq<Seq<u16>>) -> StackAction
    decreases above.len(),
{
    if above.len() == 0 {
        walk_action(None)
    } else if walk_action(Some(above[0])) == StackAction::LookFurther {
        walk(above.drop_first())
    } else {
        walk_action(Some(above[0]))
    }
}

/// The timer raises the widget exactly when a taskbar is somewhere above it, and does nothing
/// otherwise.
pub proof fn law_taskbar_never_stays_above(above: Seq<Seq<u16>>)
    ensures
        walk(above) == if exists|i: int|
            0 <= i < above.len() && taskbar_class(#[trigger] above[i]) {
            StackAction::Raise
        } else {
            StackAction::Nothing
        },
    decreases above.len(),
{
    if above.len() > 0 {
        let rest = above.drop_first();
        law_taskbar_never_stays_above(rest);
        if taskbar_class(above[0]) {
        } else if exists|i: int| 0 <= i < above.len() && taskbar_class(#[trigger] above[i]) {
            let i = choose|i: int| 0 <= i < above.len() && taskbar_class(#[trigger] above[i]);
            assert(rest[i - 1] == above[i]);
        } else {
            assert forall|i: int| 0 <= i < rest.len() implies !taskbar_class(
                #[trigger] rest[i],
            ) by {
                assert(rest[i] == above[i + 1]);
            }
        }
    }
}

} // verus!
