use usage_widget::double::Double;
use usage_widget::menu::{
    egui_action, egui_menu, minimize_label, native_action, native_menu, sizes, EguiEntry, MenuAction, NativeEntry,
};
use usage_widget::providers::{Names, Provider};

fn distances(zoom: f32) -> Vec<Double> {
    [0.25f32, 0.5, 0.67, 0.75, 1.0, 1.25, 1.5, 2.0]
        .iter()
        .map(|z| Double { bits: f64::from((zoom - z).abs()).to_bits() })
        .collect()
}

fn names() -> Names {
    Names { copilot: "First".to_string(), claude: "Second".to_string(), codex: "Third".to_string() }
}

fn native(e: &NativeEntry) -> (u32, usize, String) {
    match e {
        NativeEntry::Item { flags, id, text } => (*flags, *id, text.clone()),
        NativeEntry::Sizes { flags, text } => (*flags, usize::MAX, text.clone()),
    }
}

fn item(flags: u32, id: usize, text: &str) -> (u32, usize, String) {
    (flags, id, text.to_string())
}

#[test]
fn labels_of_the_view() {
    assert_eq!(minimize_label(true), "Maximize");
    assert_eq!(minimize_label(false), "Minimize");
}

#[test]
fn native_menu_entries() {
    let menu = native_menu(&names(), &distances(1.0), 5, false);
    let entries: Vec<(u32, usize, String)> = menu.entries.iter().map(native).collect();
    assert_eq!(
        entries,
        vec![
            item(0, 1, "Refresh now"),
            item(0, 3, "Minimize"),
            item(0x800, 0, ""),
            item(0, 10, "Open First usage"),
            item(0, 11, "Open Second usage"),
            item(0, 12, "Open Third usage"),
            item(0x800, 0, ""),
            item(0x10, usize::MAX, "Size"),
            item(0x800, 0, ""),
            item(1, 0, "Refreshes every 5 min"),
            item(0, 2, "Quit"),
        ]
    );
}

#[test]
fn native_size_menu() {
    let menu = native_menu(&names(), &distances(0.669), 15, true);
    let entries: Vec<(u32, usize, String)> = menu.sizes.iter().map(native).collect();
    assert_eq!(
        entries,
        vec![
            item(0, 100, "25%"),
            item(0, 101, "50%"),
            item(8, 102, "67%"),
            item(0, 103, "75%"),
            item(0, 104, "100%"),
            item(0, 105, "125%"),
            item(0, 106, "150%"),
            item(0, 107, "200%"),
        ]
    );
    assert_eq!(native(&menu.entries[1]), item(0, 3, "Maximize"));
    assert_eq!(native(&menu.entries[9]), item(1, 0, "Refreshes every 15 min"));
}

#[test]
fn no_size_is_checked_between_two() {
    let menu = native_menu(&names(), &distances(1.1), 5, false);
    assert!(menu.sizes.iter().all(|e| native(e).0 == 0));
    let drawn = egui_menu(&names(), &distances(1.1), 5, false);
    assert!(drawn.sizes.iter().all(|r| !r.selected));
}

#[test]
fn native_choices() {
    assert_eq!(native_action(0), None);
    assert_eq!(native_action(1), Some(MenuAction::Refresh));
    assert_eq!(native_action(2), Some(MenuAction::Quit));
    assert_eq!(native_action(3), Some(MenuAction::ToggleMinimized));
    assert_eq!(native_action(4), None);
    assert_eq!(native_action(9), None);
    assert_eq!(native_action(10), Some(MenuAction::Open(Provider::Copilot)));
    assert_eq!(native_action(11), Some(MenuAction::Open(Provider::Claude)));
    assert_eq!(native_action(12), Some(MenuAction::Open(Provider::Codex)));
    assert_eq!(native_action(13), None);
    assert_eq!(native_action(99), None);
    assert_eq!(native_action(100), Some(MenuAction::Size(25)));
    assert_eq!(native_action(102), Some(MenuAction::Size(67)));
    assert_eq!(native_action(107), Some(MenuAction::Size(200)));
    assert_eq!(native_action(108), None);
    assert_eq!(native_action(usize::MAX), None);
}

#[test]
fn numbers_name_one_action_each() {
    let actions: Vec<MenuAction> = (0..200).filter_map(native_action).collect();
    assert_eq!(actions.len(), 14);
    for (i, a) in actions.iter().enumerate() {
        assert!(!actions[..i].contains(a));
    }
}

#[test]
fn drawn_menu_offers_the_same() {
    for minimized in [false, true] {
        let n = native_menu(&names(), &distances(1.5), 7, minimized);
        let e = egui_menu(&names(), &distances(1.5), 7, minimized);
        assert_eq!(n.entries.len(), e.entries.len());
        for (a, b) in n.entries.iter().zip(e.entries.iter()) {
            let (flags, id, label) = native(a);
            match b {
                EguiEntry::Button { text, action } => {
                    assert_eq!(flags, 0);
                    assert_eq!(label, *text);
                    assert_eq!(native_action(id), Some(*action));
                }
                EguiEntry::Separator => assert_eq!(flags, 0x800),
                EguiEntry::Sizes { text } => assert_eq!((flags, label), (0x10, text.clone())),
                EguiEntry::Note { text } => {
                    assert_eq!(text, "refreshes every 7 min");
                    assert_eq!(flags, 1);
                }
            }
        }
        for (a, r) in n.sizes.iter().zip(e.sizes.iter()) {
            let (flags, id, label) = native(a);
            assert_eq!(label, r.text);
            assert_eq!(flags == 8, r.selected);
            assert_eq!(native_action(id), Some(r.action));
        }
        assert!(e.sizes[6].selected);
    }
}

#[test]
fn size_presets_grow() {
    let list = sizes();
    assert_eq!(list, vec![25, 50, 67, 75, 100, 125, 150, 200]);
    for (percent, z) in list.iter().zip([0.25f32, 0.5, 0.67, 0.75, 1.0, 1.25, 1.5, 2.0]) {
        assert_eq!(*percent as f32 / 100.0, z);
    }
}

#[test]
fn last_click_wins() {
    assert_eq!(egui_action(&vec![]), None);
    assert_eq!(egui_action(&vec![MenuAction::Quit]), Some(MenuAction::Quit));
    assert_eq!(egui_action(&vec![MenuAction::Quit, MenuAction::Refresh]), Some(MenuAction::Refresh));
}

#[test]
fn at_most_one_size_is_marked() {
    for i in 0..230 {
        let menu = egui_menu(&names(), &distances(i as f32 * 0.01), 5, false);
        assert!(menu.sizes.iter().filter(|r| r.selected).count() <= 1);
    }
    let menu = egui_menu(&names(), &distances(0.75), 5, false);
    assert_eq!(menu.sizes.iter().filter(|r| r.selected).count(), 1);
}

#[test]
fn sizes_lie_two_hundredths_apart() {
    for i in 0..230 {
        let from: Vec<f64> = distances(i as f32 * 0.01).iter().map(|d| f64::from_bits(d.bits)).collect();
        for (j, a) in from.iter().enumerate() {
            for b in &from[j + 1..] {
                assert!(a + b >= 2.0 * f64::from(0.01f32));
            }
        }
    }
}
