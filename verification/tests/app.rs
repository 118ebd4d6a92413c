use usage_widget::app::{App, FrameInput, FrameOutcome, Layout, Request, Update};
use usage_widget::double::Double;
use usage_widget::menu::MenuAction;
use usage_widget::providers::{Meter, Provider, Unit};

fn d(x: f64) -> Double {
    Double { bits: x.to_bits() }
}

fn meter(used: f64, total: f64, unit: Unit) -> Meter {
    Meter { label: None, used: d(used), total: d(total), percent: d(100.0 * used / total), unit }
}

fn good(provider: Provider, meters: Vec<Meter>, at: i64) -> Update {
    Update { provider, result: Ok(meters), at }
}

fn bad(provider: Provider, error: &str, at: i64) -> Update {
    Update { provider, result: Err(error.to_string()), at }
}

fn frame(size_change: f64, refresh_clicked: bool, action: Option<MenuAction>) -> FrameInput {
    FrameInput { size_change: d(size_change), refresh_clicked, action }
}

fn loaded() -> App {
    let mut app = App::new(5, None);
    app.drain(vec![
        good(Provider::Copilot, vec![meter(1.0, 2.0, Unit::Dollars)], 10),
        good(Provider::Claude, vec![], 11),
        good(Provider::Codex, vec![], 12),
    ]);
    app
}

#[test]
fn new_awaits_everything() {
    let app = App::new(5, None);
    for p in Provider::all() {
        let slot = app.slots.get(p);
        assert!(slot.loading);
        assert!(slot.meters.is_none() && slot.error.is_none() && slot.updated.is_none());
    }
    assert_eq!(app.interval_secs, 300);
    assert_eq!(app.refresh_mins(), 5);
    assert!(app.needs_settling());
    assert!(!app.minimized);
    assert_eq!(app.last_updated(), None);
    assert!(app.total().is_none());
}

#[test]
fn reopens_as_it_was_left() {
    let mut app = App::new(1, Some(false));
    app.ui(frame(0.0, false, Some(MenuAction::ToggleMinimized)));
    assert!(app.save());
    assert!(App::new(1, Some(app.save())).minimized);
    assert!(!App::new(1, Some(false)).minimized);
}

#[test]
fn answers_fill_their_slot_only() {
    let mut app = App::new(5, None);
    app.drain(vec![good(Provider::Claude, vec![meter(3.0, 4.0, Unit::Percent)], 100)]);
    let claude = app.slots.get(Provider::Claude);
    assert!(!claude.loading);
    assert_eq!(claude.updated, Some(100));
    assert_eq!(claude.meters.as_ref().unwrap().len(), 1);
    assert!(claude.error.is_none());
    assert!(app.slots.get(Provider::Copilot).loading);
    assert!(app.slots.get(Provider::Codex).updated.is_none());
}

#[test]
fn failure_keeps_the_meters() {
    let mut app = loaded();
    app.drain(vec![bad(Provider::Copilot, "offline", 20)]);
    let slot = app.slots.get(Provider::Copilot);
    assert_eq!(slot.meters.as_ref().unwrap().len(), 1);
    assert_eq!(slot.error.as_deref(), Some("offline"));
    assert_eq!(slot.updated, Some(20));
    app.drain(vec![good(Provider::Copilot, vec![], 30)]);
    let slot = app.slots.get(Provider::Copilot);
    assert_eq!(slot.meters.as_ref().unwrap().len(), 0);
    assert!(slot.error.is_none());
}

#[test]
fn last_answer_wins() {
    let mut app = App::new(5, None);
    app.drain(vec![
        bad(Provider::Codex, "first", 1),
        good(Provider::Codex, vec![meter(1.0, 2.0, Unit::Percent)], 2),
        bad(Provider::Codex, "third", 3),
    ]);
    let slot = app.slots.get(Provider::Codex);
    assert_eq!(slot.error.as_deref(), Some("third"));
    assert_eq!(slot.updated, Some(3));
    assert!(slot.meters.is_some());
}

#[test]
fn lots_of_answers_compose() {
    let mut once = App::new(5, None);
    once.drain(vec![bad(Provider::Codex, "a", 1), bad(Provider::Claude, "b", 2)]);
    let mut twice = App::new(5, None);
    twice.drain(vec![bad(Provider::Codex, "a", 1)]);
    twice.drain(vec![bad(Provider::Claude, "b", 2)]);
    let mut swapped = App::new(5, None);
    swapped.drain(vec![bad(Provider::Claude, "b", 2), bad(Provider::Codex, "a", 1)]);
    assert_eq!(format!("{once:?}"), format!("{twice:?}"));
    assert_eq!(format!("{once:?}"), format!("{swapped:?}"));
}

#[test]
fn refresh_marks_and_forgets_nothing() {
    let mut app = loaded();
    app.refresh_now();
    for p in Provider::all() {
        assert!(app.slots.get(p).loading);
        assert!(app.slots.get(p).meters.is_some());
    }
    assert_eq!(app.last_updated(), Some(12));
}

#[test]
fn refresh_ends_with_the_answers() {
    let mut app = loaded();
    app.refresh_now();
    app.drain(vec![
        bad(Provider::Codex, "x", 40),
        good(Provider::Claude, vec![], 41),
        bad(Provider::Copilot, "y", 42),
    ]);
    for p in Provider::all() {
        assert!(!app.slots.get(p).loading);
    }
}

#[test]
fn last_updated_is_the_latest() {
    let mut app = App::new(5, None);
    app.drain(vec![bad(Provider::Claude, "x", 7)]);
    assert_eq!(app.last_updated(), Some(7));
    app.drain(vec![good(Provider::Codex, vec![], -3)]);
    assert_eq!(app.last_updated(), Some(7));
    app.drain(vec![good(Provider::Copilot, vec![], 9)]);
    assert_eq!(app.last_updated(), Some(9));
}

#[test]
fn total_adds_dollars_across_services() {
    let mut app = App::new(5, None);
    app.drain(vec![
        good(Provider::Codex, vec![meter(20.0, 500.0, Unit::Dollars)], 1),
        good(
            Provider::Copilot,
            vec![meter(30.0, 100.0, Unit::Percent), meter(0.5, 500.0, Unit::Dollars)],
            1,
        ),
        bad(Provider::Claude, "x", 1),
    ]);
    let amounts = app.total().unwrap();
    assert_eq!(amounts, vec![(d(0.5), d(500.0)), (d(20.0), d(500.0))]);
    let used: f64 = amounts.iter().map(|a| f64::from_bits(a.0.bits)).sum();
    assert_eq!(used, 20.5);
}

#[test]
fn no_total_without_dollars() {
    let mut app = App::new(5, None);
    app.drain(vec![good(Provider::Claude, vec![meter(30.0, 100.0, Unit::Percent)], 1)]);
    assert!(app.total().is_none());
}

#[test]
fn settling_until_done() {
    let mut app = App::new(5, None);
    assert!(app.settle(false));
    assert!(app.needs_settling());
    assert!(!app.settle(true));
    assert!(!app.needs_settling());
}

#[test]
fn resize_unsettles() {
    let mut app = App::new(5, None);
    app.settle(true);
    assert!(!app.ui(frame(1.5, false, None)).resize);
    assert!(!app.needs_settling());
    assert!(app.ui(frame(1.6, false, None)).resize);
    assert!(app.needs_settling());
    app.settle(true);
    assert!(!app.ui(frame(f64::NAN, false, None)).resize);
}

#[test]
fn choices_become_requests() {
    let mut app = loaded();
    let quiet = FrameOutcome { resize: false, request: None, refresh: false };
    assert_eq!(app.ui(frame(0.0, false, None)), quiet);
    assert_eq!(
        app.ui(frame(0.0, false, Some(MenuAction::Open(Provider::Codex)))).request,
        Some(Request::OpenPage(Provider::Codex))
    );
    assert_eq!(app.ui(frame(0.0, false, Some(MenuAction::Size(67)))).request, Some(Request::Zoom(67)));
    assert_eq!(app.ui(frame(0.0, false, Some(MenuAction::Quit))).request, Some(Request::Close));
    assert!(!app.slots.get(Provider::Codex).loading);
}

#[test]
fn refresh_from_button_or_menu() {
    let mut app = loaded();
    assert!(app.ui(frame(0.0, true, None)).refresh);
    assert!(app.slots.get(Provider::Claude).loading);
    let mut app = loaded();
    let outcome = app.ui(frame(0.0, false, Some(MenuAction::Refresh)));
    assert!(outcome.refresh && outcome.request.is_none());
    assert!(app.slots.get(Provider::Claude).loading);
}

#[test]
fn view_toggles_back() {
    let mut app = loaded();
    app.ui(frame(0.0, false, Some(MenuAction::ToggleMinimized)));
    assert!(app.minimized);
    assert_eq!(app.layout(), Layout { margin_x: 10, margin_y: 6, fixed_width: None });
    app.ui(frame(0.0, false, Some(MenuAction::ToggleMinimized)));
    assert!(!app.minimized);
    assert_eq!(app.layout(), Layout { margin_x: 12, margin_y: 12, fixed_width: Some(250) });
}
