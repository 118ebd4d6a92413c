use usage_widget::text::wide;
use usage_widget::window::{
    apply_windows_chrome, is_taskbar, raise_flags, set_opacity, settle_window, watch_taskbar, window_alpha, ClassName,
    Layering, Placement, Rect, Settling, StackAction, StackEvent, WindowProbe,
};

fn rect(left: i32, top: i32, right: i32, bottom: i32) -> Rect {
    Rect { left, top, right, bottom }
}

fn place(window: Rect, work: Rect) -> Placement {
    let s = settle_window(WindowProbe::Placed { window, work });
    assert!(s.settled);
    s.place.unwrap()
}

const WORK: Rect = Rect { left: 0, top: 0, right: 1920, bottom: 1040 };

fn class(name: &str) -> Vec<u16> {
    let mut units = wide(name);
    units.resize(32, 0);
    units
}

#[test]
fn settling_without_a_window() {
    assert_eq!(settle_window(WindowProbe::NoHandle), Settling { settled: true, place: None });
    assert_eq!(settle_window(WindowProbe::Hidden), Settling { settled: false, place: None });
    let unplaced = Some(Placement { x: 0, y: 0, flags: 0x13 });
    assert_eq!(settle_window(WindowProbe::Unplaced), Settling { settled: true, place: unplaced });
}

#[test]
fn window_on_screen_is_only_raised() {
    assert_eq!(place(rect(100, 50, 350, 230), WORK), Placement { x: 100, y: 50, flags: 0x13 });
    assert_eq!(place(rect(1670, 860, 1920, 1040), WORK), Placement { x: 1670, y: 860, flags: 0x13 });
}

#[test]
fn window_off_screen_is_pulled_on() {
    assert_eq!(place(rect(3000, 2000, 3250, 2180), WORK), Placement { x: 1670, y: 860, flags: 0x11 });
    assert_eq!(place(rect(-500, -1, -250, 179), WORK), Placement { x: 0, y: 0, flags: 0x11 });
    assert_eq!(place(rect(100, 1000, 350, 1180), WORK), Placement { x: 100, y: 860, flags: 0x11 });
}

#[test]
fn window_larger_than_the_screen_shows_its_corner() {
    assert_eq!(place(rect(10, 10, 2010, 1210), WORK), Placement { x: 0, y: 0, flags: 0x11 });
}

#[test]
fn second_monitor_to_the_left() {
    let left = rect(-1280, 0, 0, 984);
    assert_eq!(place(rect(-100, 900, 150, 1080), left), Placement { x: -250, y: 804, flags: 0x11 });
}

#[test]
fn settling_again_moves_nothing() {
    let p = place(rect(3000, 2000, 3250, 2180), WORK);
    let again = place(rect(p.x, p.y, p.x + 250, p.y + 180), WORK);
    assert_eq!(again, Placement { x: p.x, y: p.y, flags: 0x13 });
    let p = place(rect(3000, 2000, 2990, 1995), WORK);
    let again = place(rect(p.x, p.y, p.x - 10, p.y - 5), WORK);
    assert_eq!(again, Placement { x: p.x, y: p.y, flags: 0x13 });
}

#[test]
fn chrome_on_every_frame() {
    let lost = apply_windows_chrome(0x0008_0000);
    assert_eq!(lost.raise, Some(0x13));
    assert_eq!(lost.attributes, vec![(33, 2), (34, 0xFFFF_FFFE)]);
    let kept = apply_windows_chrome(0x0008_0008);
    assert_eq!(kept.raise, None);
    assert_eq!(kept.attributes, vec![(33, 2), (34, 0xFFFF_FFFE)]);
    assert_eq!(raise_flags(), 0x13);
}

#[test]
fn opacity_settings() {
    assert_eq!(window_alpha(None), Some(216));
    assert_eq!(window_alpha(Some("85")), Some(216));
    assert_eq!(window_alpha(Some(" 50\n")), Some(127));
    assert_eq!(window_alpha(Some("5")), Some(51));
    assert_eq!(window_alpha(Some("20")), Some(51));
    assert_eq!(window_alpha(Some("99")), Some(252));
    assert_eq!(window_alpha(Some("100")), None);
    assert_eq!(window_alpha(Some("4294967295")), None);
    assert_eq!(window_alpha(Some("4294967296")), Some(216));
    assert_eq!(window_alpha(Some("dim")), Some(216));
    assert_eq!(window_alpha(Some("-1")), Some(216));
}

#[test]
fn layered_once() {
    assert_eq!(set_opacity(None, 0x8), Some(Layering { ex_style: 0x0008_0008, alpha: 216 }));
    assert_eq!(set_opacity(Some("50"), 0x8), Some(Layering { ex_style: 0x0008_0008, alpha: 127 }));
    assert_eq!(set_opacity(None, 0x0008_0008), None);
    assert_eq!(set_opacity(Some("100"), 0x8), None);
    let layering = set_opacity(None, 0).unwrap();
    assert_eq!(set_opacity(None, layering.ex_style), None);
}

#[test]
fn taskbars_by_class() {
    assert!(is_taskbar(&class("Shell_TrayWnd"), 13));
    assert!(is_taskbar(&class("Shell_SecondaryTrayWnd"), 22));
    assert!(!is_taskbar(&class("Shell_TrayWnd"), 12));
    assert!(!is_taskbar(&class("Shell_TrayWnd"), 14));
    assert!(!is_taskbar(&class("Shell_TrayWnd"), 0));
    assert!(!is_taskbar(&class("Shell_TrayWnd"), -1));
    assert!(!is_taskbar(&class("shell_traywnd"), 13));
    assert!(!is_taskbar(&class("Chrome_WidgetWin_1"), 18));
}

#[test]
fn taskbars_as_std_decodes_them() {
    for name in ["Shell_TrayWnd", "Shell_SecondaryTrayWnd", "Shell_TrayWn", "Shell\u{FFFD}TrayWnd", ""] {
        let units = class(name);
        for len in 0..=32usize {
            let text = String::from_utf16_lossy(&units[..len]);
            let expected = text == "Shell_TrayWnd" || text == "Shell_SecondaryTrayWnd";
            assert_eq!(is_taskbar(&units, len as i32), expected);
        }
    }
    let mut broken = class("Shell_TrayWnd");
    broken[5] = 0xD800;
    assert!(!is_taskbar(&broken, 13));
}

#[test]
fn hook_is_installed_once() {
    assert_eq!(watch_taskbar(StackEvent::Settled { previous: 0 }), StackAction::Install);
    assert_eq!(watch_taskbar(StackEvent::Settled { previous: 42 }), StackAction::Nothing);
}

#[test]
fn foreground_taskbar_raises() {
    let bar = class("Shell_TrayWnd");
    let other = class("Notepad");
    let event = StackEvent::Foreground(ClassName { buffer: &bar, len: 13 });
    assert_eq!(watch_taskbar(event), StackAction::Raise);
    let event = StackEvent::Foreground(ClassName { buffer: &other, len: 7 });
    assert_eq!(watch_taskbar(event), StackAction::Nothing);
}

fn walk(names: &[&str]) -> StackAction {
    for name in names {
        let buffer = class(name);
        let len = name.len() as i32;
        let action = watch_taskbar(StackEvent::Above(Some(ClassName { buffer: &buffer, len })));
        if action != StackAction::LookFurther {
            return action;
        }
    }
    watch_taskbar(StackEvent::Above(None))
}

#[test]
fn walk_finds_a_taskbar_above() {
    assert_eq!(walk(&[]), StackAction::Nothing);
    assert_eq!(walk(&["Notepad", "Button"]), StackAction::Nothing);
    assert_eq!(walk(&["Notepad", "Shell_SecondaryTrayWnd", "Button"]), StackAction::Raise);
    assert_eq!(walk(&["Shell_TrayWnd"]), StackAction::Raise);
}
