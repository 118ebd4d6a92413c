use usage_widget::app::{App, Slot, Update};
use usage_widget::card::{
    amounts, bar_filled, compact_row, dollars_text, money, provider_block, updated_text, Amounts, Figure, Label, Row,
    Tone,
};
use usage_widget::double::Double;
use usage_widget::palette::{err, level_color, logo_color, muted, text, Rgba};
use usage_widget::providers::{Meter, Names, Provider, Unit};

fn d(x: f64) -> Double {
    Double { bits: x.to_bits() }
}

fn meter(label: Option<&str>, total: f64, percent: f64, unit: Unit) -> Meter {
    Meter { label: label.map(|s| s.to_string()), used: d(1.0), total: d(total), percent: d(percent), unit }
}

fn slot(meters: Option<Vec<Meter>>, error: Option<&str>) -> Slot {
    Slot { meters, error: error.map(|s| s.to_string()), updated: None, loading: false }
}

fn names() -> Names {
    Names { copilot: "First".to_string(), claude: "Second".to_string(), codex: "Third".to_string() }
}

fn lines(slot: &Slot) -> Vec<String> {
    provider_block(Provider::Codex, "Third", slot)
        .rows
        .iter()
        .map(|r| match r {
            Row::Figures { meter } => format!("figures {meter}"),
            Row::Bar { meter, color } => format!("bar {meter} {}", color.r),
            Row::Note { text, tone, .. } => format!("{tone:?} {text}"),
        })
        .collect()
}

#[test]
fn amounts_of_a_meter() {
    let color = level_color(d(52.0));
    assert_eq!(amounts(&meter(None, 1000.0, 52.0, Unit::Dollars)), Amounts::Limited { color, summary: true });
    assert_eq!(amounts(&meter(None, 100.0, 52.0, Unit::Percent)), Amounts::Limited { color, summary: false });
    assert_eq!(amounts(&meter(None, 0.0, 52.0, Unit::Dollars)), Amounts::Unlimited);
    assert_eq!(amounts(&meter(None, f64::NAN, 52.0, Unit::Dollars)), Amounts::Unlimited);
}

fn shown(labels: Vec<Label>) -> Vec<(String, Rgba, bool)> {
    labels.into_iter().map(|l| (l.text, l.color, l.strong)).collect()
}

#[test]
fn amounts_stand_before_the_percentage() {
    let a = amounts(&meter(None, 1000.0, 52.0, Unit::Dollars));
    assert_eq!(
        shown(a.labels("52%", &money(52354), &money(100000))),
        vec![
            ("$523.54 / $1,000".to_string(), text(), false),
            ("52%".to_string(), level_color(d(52.0)), true),
        ]
    );
    let a = amounts(&meter(None, 100.0, 90.0, Unit::Percent));
    assert_eq!(shown(a.labels("90%", "90", "100")), vec![("90%".to_string(), level_color(d(90.0)), true)]);
    let a = amounts(&meter(None, 0.0, 0.0, Unit::Dollars));
    assert_eq!(shown(a.labels("0%", "1", "0")), vec![("unlimited".to_string(), muted(), false)]);
}

#[test]
fn word_and_colour_of_amounts() {
    let limited = amounts(&meter(None, 1000.0, 52.0, Unit::Dollars));
    assert_eq!((limited.word(), limited.color()), (None, text()));
    assert_eq!((Amounts::Unlimited.word(), Amounts::Unlimited.color()), (Some("unlimited"), muted()));
    assert_ne!(text(), muted());
}

fn notes(slot: &Slot) -> Vec<(String, Rgba)> {
    provider_block(Provider::Codex, "Third", slot)
        .rows
        .into_iter()
        .filter_map(|r| match r {
            Row::Note { text, color, .. } => Some((text, color)),
            _ => None,
        })
        .collect()
}

#[test]
fn colours_of_notes() {
    assert_eq!(notes(&slot(None, Some("offline"))), vec![("offline".to_string(), err())]);
    assert_eq!(notes(&slot(None, None)), vec![("loading…".to_string(), muted())]);
    let stale = slot(Some(vec![meter(None, 10.0, 90.0, Unit::Dollars)]), Some("offline"));
    assert_eq!(notes(&stale), vec![("stale: offline".to_string(), err())]);
    assert_eq!(Tone::Error.color(), err());
    assert_eq!(Tone::Stale.color(), err());
    assert_eq!(Tone::Waiting.color(), muted());
    assert_ne!(err(), muted());
}

#[test]
fn bars_fill_above_zero() {
    assert!(bar_filled(d(0.001)));
    assert!(!bar_filled(d(0.0)));
    assert!(!bar_filled(d(-0.5)));
}

#[test]
fn single_meter_stands_beside_the_name() {
    let s = slot(Some(vec![meter(None, 10.0, 90.0, Unit::Dollars)]), None);
    let b = provider_block(Provider::Claude, "Second", &s);
    assert!(b.figures && !b.spinner);
    assert_eq!(b.name, "Second");
    assert_eq!(b.logo, logo_color(Provider::Claude));
    assert_eq!(lines(&s), vec!["bar 0 230"]);
    let unlimited = slot(Some(vec![meter(None, 0.0, 90.0, Unit::Dollars)]), None);
    assert!(lines(&unlimited).is_empty());
}

#[test]
fn labelled_meters_get_lines() {
    let s = slot(
        Some(vec![
            meter(Some("5-hour"), 100.0, 10.0, Unit::Percent),
            meter(Some("7-day"), 0.0, 0.0, Unit::Percent),
            meter(None, 500.0, 70.0, Unit::Dollars),
        ]),
        None,
    );
    assert!(!provider_block(Provider::Claude, "Second", &s).figures);
    assert_eq!(lines(&s), vec!["figures 0", "bar 0 82", "figures 1", "figures 2", "bar 2 232"]);
    let one = slot(Some(vec![meter(Some("weekly"), 100.0, 10.0, Unit::Percent)]), None);
    assert_eq!(lines(&one), vec!["figures 0", "bar 0 82"]);
}

#[test]
fn error_without_meters() {
    assert_eq!(lines(&slot(None, Some("no token"))), vec!["Error no token"]);
}

#[test]
fn loading_without_anything() {
    let mut s = slot(None, None);
    s.loading = true;
    assert_eq!(lines(&s), vec!["Waiting loading…"]);
    assert!(provider_block(Provider::Codex, "Third", &s).spinner);
}

#[test]
fn stale_meters_stay_in_view() {
    let s = slot(Some(vec![meter(None, 10.0, 20.0, Unit::Dollars)]), Some("offline"));
    assert_eq!(lines(&s), vec!["bar 0 82", "Stale stale: offline"]);
    let none = slot(Some(vec![]), Some("offline"));
    assert_eq!(lines(&none), vec!["Stale stale: offline"]);
}

#[test]
fn compact_line_of_a_fresh_widget() {
    let app = App::new(5, None);
    let cells = compact_row(&app.slots, &names());
    let names: Vec<&str> = cells.iter().map(|c| c.name).collect();
    assert_eq!(names, vec!["COP", "CLD", "CDX"]);
    let gaps: Vec<bool> = cells.iter().map(|c| c.gap).collect();
    assert_eq!(gaps, vec![false, true, true]);
    for c in &cells {
        assert_eq!(c.figure, Figure::Pending);
        assert_eq!(c.figure.mark(), Some("…"));
        assert_eq!(c.color, muted());
        assert!(c.hover.is_none());
    }
    assert_eq!(cells[1].logo, logo_color(Provider::Claude));
}

#[test]
fn compact_line_shows_the_most_used_meter() {
    let mut app = App::new(5, None);
    app.drain(vec![
        Update {
            provider: Provider::Claude,
            result: Ok(vec![
                meter(Some("5-hour"), 100.0, 17.0, Unit::Percent),
                meter(Some("7-day"), 100.0, 83.0, Unit::Percent),
                meter(None, 0.0, 99.0, Unit::Dollars),
                meter(None, 100.0, f64::NAN, Unit::Dollars),
            ]),
            at: 1,
        },
        Update { provider: Provider::Codex, result: Err("expired".to_string()), at: 2 },
    ]);
    let cells = compact_row(&app.slots, &names());
    assert_eq!(cells[1].figure, Figure::Percent(d(83.0)));
    assert_eq!(cells[1].figure.mark(), None);
    assert_eq!(cells[1].color, level_color(d(83.0)));
    assert_eq!(cells[2].figure, Figure::Failed);
    assert_eq!(cells[2].figure.mark(), Some("!"));
    assert_eq!(cells[2].color, err());
    assert_eq!(cells[2].hover.as_deref(), Some("Third: expired"));
}

#[test]
fn compact_line_keeps_the_figure_after_a_failure() {
    let mut app = App::new(5, None);
    app.drain(vec![
        Update { provider: Provider::Copilot, result: Ok(vec![meter(None, 9.0, 87.0, Unit::Dollars)]), at: 1 },
        Update { provider: Provider::Copilot, result: Err("offline".to_string()), at: 2 },
    ]);
    let cells = compact_row(&app.slots, &names());
    assert_eq!(cells[0].figure, Figure::Percent(d(87.0)));
    assert_eq!(cells[0].hover.as_deref(), Some("First: offline"));
}

#[test]
fn footer_texts() {
    assert_eq!(updated_text(None), "fetching…");
    assert_eq!(updated_text(Some("3 min ago")), "updated 3 min ago");
    assert_eq!(dollars_text("523.54", "1,000"), "$523.54 / $1,000");
}

#[test]
fn money_amounts() {
    assert_eq!(dollars_text(&money(52354), &money(100000)), "$523.54 / $1,000");
    assert_eq!(money(0), "0");
    assert_eq!(money(5), "0.05");
    assert_eq!(money(50), "0.50");
    assert_eq!(money(99999), "999.99");
    assert_eq!(money(100000001), "1,000,000.01");
    assert_eq!(money(100500000), "1,005,000");
    assert_eq!(money(u64::MAX), "184,467,440,737,095,516.15");
}

#[test]
fn names_by_service() {
    assert_eq!(names().get(Provider::Copilot), "First");
    assert_eq!(names().get(Provider::Claude), "Second");
    assert_eq!(names().get(Provider::Codex), "Third");
}
