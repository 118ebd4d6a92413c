//! What the two views show: the full card, block by block, and the compact line.

use vstd::prelude::*;

use crate::app::{slot_meters, Slot, Slots};
use crate::double::Double;
use crate::palette::{
    err, err_color, level, level_color, logo_color, logo_tint, muted, muted_color, text,
    text_color, Rgba,
};
use crate::providers::{all_providers, Meter, Names, Provider, Unit};
use crate::text::{
    all_digits, decimal, decimal_text, digit, digit_char, digits_value, is_digit,
};

verus! {

/// The figures of a meter, at the right end of its line.
#[derive(Clone, Copy, Debug, PartialEq, Eq, Structural)]
pub enum Amounts {
    /// The percentage in the colour of its level, and before it the amounts if `summary`.
    Limited { color: Rgba, summary: bool },
    /// The word "unlimited".
    Unlimited,
}

/// The figures of a meter: one that counts in percent has no other amounts to show.
pub open spec fn meter_amounts(m: Meter) -> Amounts {
    if m.limited() {
        Amounts::Limited { color: level(m.percent), summary: m.unit != Unit::Percent }
    } else {
        Amounts::Unlimited
    }
}

/// The figures of a meter.
pub fn amounts(m: &Meter) -> (a: Amounts)
    ensures
        a == meter_amounts(*m),
{
    if m.is_limited() {
        Amounts::Limited { color: level_color(m.percent), summary: m.unit != Unit::Percent }
    } else {
        Amounts::Unlimited
    }
}

/// A piece of text in a colour.
#[derive(Debug)]
pub struct Label {
    pub text: String,
    pub color: Rgba,
    /// The text is set in bold.
    pub strong: bool,
}

/// A piece of text in a colour, by its contents.
pub struct LabelView {
    pub text: Seq<char>,
    pub color: Rgba,
    pub strong: bool,
}

impl View for Label {
    type V = LabelView;

    open spec fn view(&self) -> LabelView {
        LabelView { text: self.text@, color: self.color, strong: self.strong }
    }
}

/// Pieces of text, by their contents.
pub open spec fn label_views(labels: Seq<Label>) -> Seq<LabelView> {
    labels.map_values(|l: Label| l@)
}

/// Two amounts of dollars: the one used, of the one that may be.
pub open spec fn dollars(used: Seq<char>, total: Seq<char>) -> Seq<char> {
    "$"@ + used + " / $"@ + total
}

/// The figures of a meter from left to right, with the percentage and the amounts as texts: the
/// amounts if there are any to show, then the percentage, or else the word "unlimited".
pub open spec fn amount_labels(
    a: Amounts,
    percent: Seq<char>,
    used: Seq<char>,
    total: Seq<char>,
) -> Seq<LabelView> {
    match a {
        Amounts::Limited { color, summary } => {
            let figure = LabelView { text: percent, color, strong: true };
            if summary {
                seq![
                    LabelView { text: dollars(used, total), color: text_color(), strong: false },
                    figure,
                ]
            } else {
                seq![figure]
            }
        },
        Amounts::Unlimited => seq![
            LabelView { text: "unlimited"@, color: muted_color(), strong: false },
        ],
    }
}

impl Amounts {
    /// The word that stands in place of figures where there is no limit.
    pub fn word(self) -> (s: Option<&'static str>)
        ensures
            match self {
                Amounts::Limited { .. } => s is None,
                Amounts::Unlimited => s matches Some(w) && w@ == "unlimited"@,
            },
    {
        match self {
            Amounts::Limited { .. } => None,
            Amounts::Unlimited => Some("unlimited"),
        }
    }

    /// The colour of that word, or else of the amounts before the percentage.
    pub fn color(self) -> (c: Rgba)
        ensures
            c == (match self {
                Amounts::Limited { .. } => text_color(),
                Amounts::Unlimited => muted_color(),
            }),
    {
        match self {
            Amounts::Limited { .. } => text(),
            Amounts::Unlimited => muted(),
        }
    }

    /// The figures from left to right, with the percentage and the amounts as texts.
    pub fn labels(self, percent: &str, used: &str, total: &str) -> (labels: Vec<Label>)
        ensures
            label_views(labels@) == amount_labels(self, percent@, used@, total@),
    {
        let mut labels: Vec<Label> = Vec::new();
        match self {
            Amounts::Limited { color, summary } => {
                if summary {
                    let text = dollars_text(used, total);
                    labels.push(Label { text, color: self.color(), strong: false });
                }
                labels.push(Label { text: percent.to_owned(), color, strong: true });
            },
            Amounts::Unlimited => {
                if let Some(word) = self.word() {
                    let text = word.to_owned();
                    labels.push(Label { text, color: self.color(), strong: false });
                }
            },
        }
        assert(label_views(labels@) =~= amount_labels(self, percent@, used@, total@));
        labels
    }
}

/// A meter shows no figures but the word for no limit if and only if its total is not above zero (the
/// pattern 0). Every other meter shows its percentage in the colour of its level, whatever the level,
/// and its amounts if and only if it does not count in percent.
pub proof fn law_figures_follow_the_allowance(m: Meter)
    ensures
        meter_amounts(m) is Unlimited <==> !(Double { bits: 0 }).below(m.total),
        meter_amounts(m) matches Amounts::Limited { color, summary } ==> {
            &&& color == level(m.percent)
            &&& summary <==> m.unit != Unit::Percent
        },
{
    crate::providers::law_limited_above_zero(m);
}

/// What a meter shows, as labels: without an allowance the one word, in muted gray; else the
/// percentage at the right end, bold and in the colour of its level, and left of it, unless the meter
/// counts in percent, what is used of what may be, in the colour of text.
pub proof fn law_figures_as_labels(
    m: Meter,
    percent: Seq<char>,
    used: Seq<char>,
    total: Seq<char>,
)
    ensures
        ({
            let labels = amount_labels(meter_amounts(m), percent, used, total);
            if !(Double { bits: 0 }).below(m.total) {
                &&& labels.len() == 1
                &&& labels[0].text == "unlimited"@
                &&& labels[0].color == (Rgba { r: 135, g: 135, b: 135, a: 255 })
                &&& !labels[0].strong
            } else {
                &&& labels.len() == if m.unit == Unit::Percent {
                    1int
                } else {
                    2
                }
                &&& labels.last().text == percent
                &&& labels.last().color == level(m.percent)
                &&& labels.last().strong
                &&& m.unit != Unit::Percent ==> {
                    let text = labels[0].text;
                    &&& text.len() == 5 + used.len() + total.len()
                    &&& text[0] == '$'
                    &&& text.subrange(1, 1 + used.len() as int) == used
                    &&& text.subrange(1 + used.len() as int, 5 + used.len() as int) == " / $"@
                    &&& text.subrange(5 + used.len() as int, text.len() as int) == total
                    &&& labels[0].color == (Rgba { r: 232, g: 232, b: 232, a: 255 })
                    &&& !labels[0].strong
                }
            }
        }),
{
    law_figures_follow_the_allowance(m);
    reveal_strlit("$");
    reveal_strlit(" / $");
    let text = dollars(used, total);
    assert(text.subrange(1, 1 + used.len() as int) =~= used);
    assert(text.subrange(1 + used.len() as int, 5 + used.len() as int) =~= " / $"@);
    assert(text.subrange(5 + used.len() as int, text.len() as int) =~= total);
}

/// True of a fraction of which a bar shows anything.
pub open spec fn visible(fraction: Double) -> bool {
    !fraction.nan() && fraction.units() > 0
}

/// A bar is filled if and only if its fraction is above zero (the pattern 0).
pub proof fn law_bar_is_filled_above_zero(fraction: Double)
    ensures
        visible(fraction) <==> (Double { bits: 0 }).below(fraction),
{
    assert((Double { bits: 0 }).units() == 0);
}

/// Tells whether any of a bar is filled, from the fraction that is used.
pub fn bar_filled(fraction: Double) -> (yes: bool)
    ensures
        yes == visible(fraction),
{
    fraction.is_positive()
}

/// How a line of text is set.
#[derive(Clone, Copy, Debug, PartialEq, Eq, Structural)]
pub enum Tone {
    /// An error in place of meters.
    Error,
    /// The error under meters that are out of date.
    Stale,
    /// A hint that meters are still to come.
    Waiting,
}

impl Tone {
    /// The colour of the line.
    pub open spec fn tint(self) -> Rgba {
        match self {
            Tone::Error | Tone::Stale => err_color(),
            Tone::Waiting => muted_color(),
        }
    }

    /// The colour of the line.
    pub fn color(self) -> (c: Rgba)
        ensures
            c == self.tint(),
    {
        match self {
            Tone::Error | Tone::Stale => err(),
            Tone::Waiting => muted(),
        }
    }
}

/// A line of a service's block, below its name.
#[derive(Debug)]
pub enum Row {
    /// The label and the figures of a meter, by its index.
    Figures { meter: usize },
    /// The bar of a meter, by its index.
    Bar { meter: usize, color: Rgba },
    Note { text: String, tone: Tone, color: Rgba },
}

/// A line of a service's block, by its contents.
pub enum RowView {
    Figures { meter: usize },
    Bar { meter: usize, color: Rgba },
    Note { text: Seq<char>, tone: Tone, color: Rgba },
}

impl View for Row {
    type V = RowView;

    open spec fn view(&self) -> RowView {
        match self {
            Row::Figures { meter } => RowView::Figures { meter: *meter },
            Row::Bar { meter, color } => RowView::Bar { meter: *meter, color: *color },
            Row::Note { text, tone, color } => RowView::Note {
                text: text@,
                tone: *tone,
                color: *color,
            },
        }
    }
}

/// Lines of a block, by their contents.
pub open spec fn row_views(rows: Seq<Row>) -> Seq<RowView> {
    rows.map_values(|r: Row| r@)
}

/// A service's block on the full card. Its first line shows the logo, then the name.
#[derive(Debug)]
pub struct Block<'a> {
    pub logo: Rgba,
    pub name: &'a str,
    /// A spinner follows the name.
    pub spinner: bool,
    /// The figures of the only meter stand on the first line.
    pub figures: bool,
    pub rows: Vec<Row>,
}

/// True of a service with a single meter that needs no label.
pub open spec fn single_meter(slot: Slot) -> bool {
    slot.meters matches Some(m) && m@.len() == 1 && m@[0].label is None
}

/// The bar of a meter, if it has an allowance.
pub open spec fn bar_rows(m: Meter, index: int) -> Seq<RowView> {
    if m.limited() {
        seq![RowView::Bar { meter: index as usize, color: level(m.percent) }]
    } else {
        seq![]
    }
}

/// The lines of a list of meters: the figures of each, then its bar.
pub open spec fn meter_rows(meters: Seq<Meter>) -> Seq<RowView>
    decreases meters.len(),
{
    if meters.len() == 0 {
        seq![]
    } else {
        let i = meters.len() - 1;
        meter_rows(meters.drop_last()).push(RowView::Figures { meter: i as usize }) + bar_rows(
            meters.last(),
            i,
        )
    }
}

/// A line of text.
pub open spec fn note(text: Seq<char>, tone: Tone) -> RowView {
    RowView::Note { text, tone, color: tone.tint() }
}

/// The lines of a block below the name: the meters, or else the error, or else a hint that they
/// are loading; and under meters the error that keeps them from being up to date.
pub open spec fn block_rows(slot: Slot) -> Seq<RowView> {
    let body = match slot.meters {
        Some(m) => if single_meter(slot) {
            bar_rows(m@[0], 0)
        } else {
            meter_rows(m@)
        },
        None => match slot.error {
            Some(e) => seq![note(e@, Tone::Error)],
            None => seq![note("loading…"@, Tone::Waiting)],
        },
    };
    match slot.error {
        Some(e) => if slot.meters is Some {
            body.push(note("stale: "@ + e@, Tone::Stale))
        } else {
            body
        },
        None => body,
    }
}

/// True of the block of a service.
pub open spec fn shows_block(b: Block, p: Provider, name: &str, slot: Slot) -> bool {
    &&& b.logo == logo_tint(p)
    &&& b.name == name
    &&& b.spinner == slot.loading
    &&& b.figures == single_meter(slot)
    &&& row_views(b.rows@) == block_rows(slot)
}

/// The first line of a block bears the service's logo and the name that it is given; a spinner turns
/// on it if and only if an answer is awaited, whatever is known, and figures stand on it if and only
/// if there is one meter, without a label. The lines below are as many as are listed.
pub proof fn law_first_line_of_a_block(b: Block, p: Provider, name: &str, slot: Slot)
    requires
        shows_block(b, p, name, slot),
    ensures
        b.logo == logo_tint(p),
        b.name@ == name@,
        b.spinner <==> slot.loading,
        b.figures <==> slot_meters(slot).len() == 1 && slot_meters(slot)[0].label is None,
        b.rows@.len() == block_rows(slot).len(),
        forall|k: int| 0 <= k < b.rows@.len() ==> (#[trigger] b.rows@[k])@ == block_rows(slot)[k],
{
    let views = row_views(b.rows@);
    assert(views.len() == b.rows@.len());
    assert(forall|k: int| 0 <= k < b.rows@.len() ==> (#[trigger] b.rows@[k])@ == views[k]);
}

fn add_row(rows: &mut Vec<Row>, r: Row)
    ensures
        row_views(final(rows)@) == row_views(old(rows)@).push(r@),
{
    rows.push(r);
    assert(row_views(rows@) =~= row_views(old(rows)@).push(r@));
}

fn add_note(rows: &mut Vec<Row>, text: String, tone: Tone)
    ensures
        row_views(final(rows)@) == row_views(old(rows)@).push(note(text@, tone)),
{
    add_row(rows, Row::Note { text, tone, color: tone.color() });
}

fn add_bar(rows: &mut Vec<Row>, m: &Meter, index: usize)
    ensures
        row_views(final(rows)@) == row_views(old(rows)@) + bar_rows(*m, index as int),
{
    if m.is_limited() {
        add_row(rows, Row::Bar { meter: index, color: level_color(m.percent) });
    }
    assert(row_views(rows@) =~= row_views(old(rows)@) + bar_rows(*m, index as int));
}

/// A service's block on the full card, under the service's name.
pub fn provider_block<'a>(p: Provider, name: &'a str, slot: &Slot) -> (b: Block<'a>)
    ensures
        shows_block(b, p, name, *slot),
{
    let mut rows: Vec<Row> = Vec::new();
    let mut figures = false;
    assert(row_views(rows@) =~= seq![]);
    match &slot.meters {
        Some(meters) => {
            if meters.len() == 1 && meters[0].label.is_none() {
                figures = true;
                add_bar(&mut rows, &meters[0], 0);
                assert(row_views(rows@) =~= bar_rows(meters@[0], 0));
            } else {
                assert(meters@.take(0) =~= seq![]);
                for i in 0..meters.len()
                    invariant
                        row_views(rows@) == meter_rows(meters@.take(i as int)),
                {
                    assert(meters@.take(i + 1).drop_last() =~= meters@.take(i as int));
                    add_row(&mut rows, Row::Figures { meter: i });
                    add_bar(&mut rows, &meters[i], i);
                }
                assert(meters@.take(meters@.len() as int) =~= meters@);
            }
            if let Some(e) = &slot.error {
                let text = "stale: ".to_owned().concat(e.as_str());
                add_note(&mut rows, text, Tone::Stale);
            }
        },
        None => {
            match &slot.error {
                Some(e) => {
                    add_note(&mut rows, e.clone(), Tone::Error);
                },
                None => {
                    let text = "loading…".to_owned();
                    add_note(&mut rows, text, Tone::Waiting);
                },
            }
            assert(row_views(rows@) =~= block_rows(*slot));
        },
    }
    Block { logo: logo_color(p), name, spinner: slot.loading, figures, rows }
}

/// The figure of a service on the compact line.
#[derive(Clone, Copy, Debug, PartialEq, Eq, Structural)]
pub enum Figure {
    /// A percentage.
    Percent(Double),
    /// A mark for an error.
    Failed,
    /// A mark for figures that are still to come.
    Pending,
}

impl Figure {
    /// The mark that stands in place of a percentage.
    pub fn mark(self) -> (s: Option<&'static str>)
        ensures
            match self {
                Figure::Percent(_) => s is None,
                Figure::Failed => s matches Some(m) && m@ == "!"@,
                Figure::Pending => s matches Some(m) && m@ == "…"@,
            },
    {
        match self {
            Figure::Percent(_) => None,
            Figure::Failed => Some("!"),
            Figure::Pending => Some("…"),
        }
    }
}

/// A service on the compact line: its logo, its short name and one figure.
#[derive(Debug)]
pub struct Cell {
    /// A gap separates the service from the one before.
    pub gap: bool,
    pub logo: Rgba,
    pub name: &'static str,
    pub figure: Figure,
    pub color: Rgba,
    /// What is shown when the pointer rests on the figure.
    pub hover: Option<String>,
}

/// True of the greatest percentage among the meters with an allowance; one that is no number
/// counts only where there is none that is.
pub open spec fn most_used(meters: Seq<Meter>, percent: Double) -> bool {
    &&& exists|i: int|
        0 <= i < meters.len() && (#[trigger] meters[i]).limited() && meters[i].percent == percent
    &&& forall|i: int|
        0 <= i < meters.len() && (#[trigger] meters[i]).limited() && !meters[i].percent.nan() ==> {
            &&& !percent.nan()
            &&& meters[i].percent.units() <= percent.units()
        }
}

/// The most-used percentage is one value, whichever meter it is read from.
pub proof fn law_most_used_is_one_value(meters: Seq<Meter>, a: Double, b: Double)
    requires
        most_used(meters, a),
        most_used(meters, b),
    ensures
        a.nan() <==> b.nan(),
        !a.nan() ==> a.units() == b.units(),
        !none_limited(meters),
{
}

/// True when no meter has an allowance.
pub open spec fn none_limited(meters: Seq<Meter>) -> bool {
    forall|i: int| 0 <= i < meters.len() ==> !(#[trigger] meters[i]).limited()
}

/// The most-used meter is the one that matters where space is tight.
fn most_used_percent(slot: &Slot) -> (percent: Option<Double>)
    ensures
        match percent {
            Some(d) => most_used(slot_meters(*slot), d),
            None => none_limited(slot_meters(*slot)),
        },
{
    let mut best: Option<Double> = None;
    match &slot.meters {
        Some(meters) => {
            assert(meters@.take(0) =~= seq![]);
            for i in 0..meters.len()
                invariant
                    match best {
                        Some(d) => most_used(meters@.take(i as int), d),
                        None => none_limited(meters@.take(i as int)),
                    },
            {
                let ghost seen = meters@.take(i as int);
                let ghost now = meters@.take(i + 1);
                let m = &meters[i];
                assert(now[i as int] == *m);
                assert(forall|k: int| 0 <= k < i ==> #[trigger] now[k] == seen[k]);
                if m.is_limited() {
                    let before = best;
                    let d = match best {
                        Some(b) => b.max(m.percent),
                        None => m.percent,
                    };
                    best = Some(d);
                    proof {
                        if before is Some && d == before->0 {
                            let k = choose|k: int|
                                0 <= k < seen.len() && (#[trigger] seen[k]).limited()
                                    && seen[k].percent == d;
                            assert(now[k] == seen[k]);
                        }
                        assert(most_used(now, d));
                    }
                } else {
                    proof {
                        if let Some(b) = best {
                            let k = choose|k: int|
                                0 <= k < seen.len() && (#[trigger] seen[k]).limited()
                                    && seen[k].percent == b;
                            assert(now[k] == seen[k]);
                            assert(most_used(now, b));
                        }
                    }
                }
            }
            assert(meters@.take(meters@.len() as int) =~= meters@);
        },
        None => {},
    }
    best
}

/// True of the cell of a service: its most-used meter, or else a mark in its place.
pub open spec fn shows(c: Cell, p: Provider, name: Seq<char>, slot: Slot, index: int) -> bool {
    &&& c.gap == (index > 0)
    &&& c.logo == logo_tint(p)
    &&& c.name@ == p.short_text()
    &&& match c.figure {
        Figure::Percent(percent) => {
            &&& most_used(slot_meters(slot), percent)
            &&& c.color == level(percent)
        },
        Figure::Failed => {
            &&& none_limited(slot_meters(slot))
            &&& slot.error is Some
            &&& c.color == err_color()
        },
        Figure::Pending => {
            &&& none_limited(slot_meters(slot))
            &&& slot.error is None
            &&& c.color == muted_color()
        },
    }
    &&& match (c.hover, slot.error) {
        (Some(h), Some(e)) => h@ == name + ": "@ + e@,
        (None, None) => true,
        _ => false,
    }
}

fn cell(p: Provider, name: &str, slot: &Slot, index: usize) -> (c: Cell)
    ensures
        shows(c, p, name@, *slot, index as int),
{
    let (figure, color) = match most_used_percent(slot) {
        Some(d) => (Figure::Percent(d), level_color(d)),
        None => if slot.error.is_some() {
            (Figure::Failed, err())
        } else {
            (Figure::Pending, muted())
        },
    };
    let hover = match &slot.error {
        Some(e) => Some(name.to_owned().concat(": ").concat(e.as_str())),
        None => None,
    };
    Cell { gap: index > 0, logo: logo_color(p), name: p.short_name(), figure, color, hover }
}

/// True of the compact line: a cell for each service, in order.
pub open spec fn compact_line(cells: Seq<Cell>, slots: Slots, names: Names) -> bool {
    &&& cells.len() == all_providers().len()
    &&& forall|i: int|
        0 <= i < cells.len() ==> shows(
            #[trigger] cells[i],
            all_providers()[i],
            names.of(all_providers()[i]),
            slots.of(all_providers()[i]),
            i,
        )
}

/// Each service has one cell on the compact line, the three in a fixed order. It shows what that
/// service's own meters and errors are: a percentage if and only if some meter has an allowance, and
/// then that of such a meter, with none of them above it; else a mark, for an error if there is one.
pub proof fn law_compact_line_shows_the_most_used(
    cells: Seq<Cell>,
    slots: Slots,
    names: Names,
    p: Provider,
    i: int,
)
    requires
        compact_line(cells, slots, names),
        0 <= i < slot_meters(slots.of(p)).len(),
    ensures
        ({
            let at: int = match p {
                Provider::Copilot => 0,
                Provider::Claude => 1,
                Provider::Codex => 2,
            };
            let meters = slot_meters(slots.of(p));
            let figure = cells[at].figure;
            &&& cells.len() == 3
            &&& meters[i].limited() ==> figure is Percent
            &&& figure matches Figure::Percent(percent) ==> {
                &&& exists|k: int|
                    0 <= k < meters.len() && (#[trigger] meters[k]).limited() && meters[k].percent
                        == percent
                &&& meters[i].limited() ==> !percent.below(meters[i].percent)
                &&& meters[i].limited() && percent.nan() ==> meters[i].percent.nan()
                &&& cells[at].color == level(percent)
            }
        }),
{
    assert(all_providers()[0] == Provider::Copilot);
    assert(all_providers()[1] == Provider::Claude);
    assert(all_providers()[2] == Provider::Codex);
}

/// A cell of the compact line bears the logo and the letters of its service, with a gap before each
/// but the first. Where there is no percentage it is marked as failed if there is an error, in the
/// colour of errors, and else as pending, in muted gray. Whatever the figure, the error is shown
/// under the pointer, after the service's name, if and only if there is one.
pub proof fn law_compact_cell_tells_its_service(
    cells: Seq<Cell>,
    slots: Slots,
    names: Names,
    p: Provider,
)
    requires
        compact_line(cells, slots, names),
    ensures
        ({
            let at: int = match p {
                Provider::Copilot => 0,
                Provider::Claude => 1,
                Provider::Codex => 2,
            };
            let cell = cells[at];
            let slot = slots.of(p);
            &&& cell.name@ == p.short_text()
            &&& cell.logo == logo_tint(p)
            &&& cell.gap <==> at > 0
            &&& slot_meters(slot).len() == 0 ==> !(cell.figure is Percent)
            &&& !(cell.figure is Percent) ==> {
                &&& cell.figure is Failed <==> slot.error is Some
                &&& cell.figure is Pending <==> slot.error is None
                &&& slot.error is Some ==> cell.color == (Rgba { r: 235, g: 110, b: 110, a: 255 })
                &&& slot.error is None ==> cell.color == (Rgba { r: 135, g: 135, b: 135, a: 255 })
            }
            &&& cell.hover is Some <==> slot.error is Some
            &&& slot.error is Some ==> cell.hover->0@ == names.of(p) + ": "@ + slot.error->0@
        }),
{
    assert(all_providers()[0] == Provider::Copilot);
    assert(all_providers()[1] == Provider::Claude);
    assert(all_providers()[2] == Provider::Codex);
}

/// The compact line: each service with its logo, its short name and its most-used meter.
pub fn compact_row(slots: &Slots, names: &Names) -> (cells: Vec<Cell>)
    ensures
        compact_line(cells@, *slots, *names),
{
    let all = Provider::all();
    let mut cells: Vec<Cell> = Vec::new();
    for i in 0..all.len()
        invariant
            all@ == all_providers(),
            cells@.len() == i,
            forall|k: int|
                0 <= k < i ==> shows(
                    #[trigger] cells@[k],
                    all_providers()[k],
                    names.of(all_providers()[k]),
                    slots.of(all_providers()[k]),
                    k,
                ),
    {
        let p = all[i];
        cells.push(cell(p, names.get(p), slots.get(p), i));
    }
    cells
}

/// When the last answer came, as text.
pub open spec fn updated(ago: Option<Seq<char>>) -> Seq<char> {
    match ago {
        Some(a) => "updated "@ + a,
        None => "fetching…"@,
    }
}

/// The foot of the card says how long ago the last answer came, in the words that it is given, and
/// else that answers are being fetched; the two cannot be confused.
pub proof fn law_foot_tells_the_time(ago: Seq<char>)
    ensures
        updated(Some(ago)).len() == 8 + ago.len(),
        updated(Some(ago)).take(8) == "updated "@,
        updated(Some(ago)).skip(8) == ago,
        updated(None) == "fetching…"@,
        updated(None) != updated(Some(ago)),
{
    reveal_strlit("updated ");
    reveal_strlit("fetching…");
    let text = updated(Some(ago));
    assert(text.take(8) =~= "updated "@);
    assert(text.skip(8) =~= ago);
    assert(text[0] == 'u');
    assert("fetching…"@[0] == 'f');
}

/// When the last answer came, at the foot of the card; `ago` is how long that is past.
pub fn updated_text(ago: Option<&str>) -> (text: String)
    ensures
        text@ == updated(
            match ago {
                Some(a) => Some(a@),
                None => None,
            },
        ),
{
    match ago {
        Some(a) => "updated ".to_owned().concat(a),
        None => "fetching…".to_owned(),
    }
}

/// Two amounts of dollars, as text.
pub fn dollars_text(used: &str, total: &str) -> (text: String)
    ensures
        text@ == dollars(used@, total@),
{
    "$".to_owned().concat(used).concat(" / $").concat(total)
}

/// The last digits of a number: as many as asked for.
pub open spec fn padded(n: nat, digits: nat) -> Seq<char>
    decreases digits,
{
    if digits == 0 {
        seq![]
    } else {
        padded(n / 10, (digits - 1) as nat).push(digit_char((n % 10) as int))
    }
}

/// A number with a comma before every three digits.
pub open spec fn grouped(n: nat) -> Seq<char>
    decreases n,
{
    if n < 1000 {
        decimal_text(n)
    } else {
        grouped(n / 1000) + ","@ + padded(n % 1000, 3)
    }
}

/// An amount of cents in dollars, without the cents where they are zero.
pub open spec fn money_text(cents: nat) -> Seq<char> {
    if cents % 100 == 0 {
        grouped(cents / 100)
    } else {
        grouped(cents / 100) + "."@ + padded(cents % 100, 2)
    }
}

fn pad(n: u64, digits: usize) -> (s: String)
    ensures
        s@ == padded(n as nat, digits as nat),
    decreases digits,
{
    if digits == 0 {
        let s = String::new();
        assert(s@ =~= padded(n as nat, 0));
        s
    } else {
        let s = pad(n / 10, digits - 1).concat(digit(n % 10));
        assert(s@ =~= padded(n as nat, digits as nat));
        s
    }
}

fn group(n: u64) -> (s: String)
    ensures
        s@ == grouped(n as nat),
    decreases n,
{
    if n < 1000 {
        decimal(n)
    } else {
        group(n / 1000).concat(",").concat(pad(n % 1000, 3).as_str())
    }
}

/// An amount of cents in dollars: "523.54", or "1,000" where there are no cents.
pub fn money(cents: u64) -> (s: String)
    ensures
        s@ == money_text(cents as nat),
{
    let whole = group(cents / 100);
    if cents % 100 == 0 {
        whole
    } else {
        whole.concat(".").concat(pad(cents % 100, 2).as_str())
    }
}

/// The number that the digits of a text spell, whatever stands between them.
pub open spec fn spelled(s: Seq<char>) -> nat
    decreases s.len(),
{
    if s.len() == 0 {
        0
    } else if '0' <= s.last() <= '9' {
        (spelled(s.drop_last()) * 10 + (s.last() as u32 - 0x30)) as nat
    } else {
        spelled(s.drop_last())
    }
}

proof fn lemma_digits_spell(s: Seq<char>)
    requires
        all_digits(s),
    ensures
        spelled(s) == digits_value(s),
    decreases s.len(),
{
    if s.len() > 0 {
        lemma_digits_spell(s.drop_last());
        assert(is_digit(s[s.len() - 1]));
    }
}

proof fn lemma_spelled_push(s: Seq<char>, n: int)
    requires
        0 <= n < 10,
    ensures
        spelled(s.push(digit_char(n))) == spelled(s) * 10 + n,
        spelled(s.push(',')) == spelled(s),
        spelled(s.push('.')) == spelled(s),
        '0' <= digit_char(n) <= '9',
{
    assert(s.push(digit_char(n)).drop_last() =~= s);
    assert(s.push(',').drop_last() =~= s);
    assert(s.push('.').drop_last() =~= s);
}

proof fn lemma_grouped(n: nat)
    ensures
        ({
            let g = grouped(n);
            &&& g.len() > 0
            &&& spelled(g) == n
            &&& '0' <= g[0] <= '9'
            &&& g[0] == '0' ==> n == 0
            &&& forall|k: int|
                0 <= k < g.len() ==> if k % 4 == 3 {
                    #[trigger] g[g.len() - 1 - k] == ','
                } else {
                    '0' <= g[g.len() - 1 - k] <= '9'
                }
        }),
    decreases n,
{
    let g = grouped(n);
    if n < 1000 {
        crate::text::law_decimal_has_no_leading_zero(n);
        lemma_digits_spell(decimal_text(n));
        assert(vstd::arithmetic::power::pow(10, 3) == 1000) by {
            reveal_with_fuel(vstd::arithmetic::power::pow, 4);
        }
        crate::text::law_decimal_length(n, 3);
        assert forall|k: int| 0 <= k < g.len() implies if k % 4 == 3 {
            #[trigger] g[g.len() - 1 - k] == ','
        } else {
            '0' <= g[g.len() - 1 - k] <= '9'
        } by {
            assert(is_digit(g[g.len() - 1 - k]));
        }
        assert(is_digit(g[0]));
    } else {
        let h = grouped(n / 1000);
        let r = n % 1000;
        lemma_grouped(n / 1000);
        reveal_strlit(",");
        reveal_with_fuel(padded, 4);
        let c2 = digit_char((r / 10 / 10 % 10) as int);
        let c1 = digit_char((r / 10 % 10) as int);
        let c0 = digit_char((r % 10) as int);
        assert(padded(r, 3) =~= seq![c2, c1, c0]);
        assert(g =~= h.push(',').push(c2).push(c1).push(c0));
        lemma_spelled_push(h, 0);
        lemma_spelled_push(h.push(','), (r / 10 / 10 % 10) as int);
        lemma_spelled_push(h.push(',').push(c2), (r / 10 % 10) as int);
        lemma_spelled_push(h.push(',').push(c2).push(c1), (r % 10) as int);
        assert(g[0] == h[0]);
        assert forall|k: int| 0 <= k < g.len() implies if k % 4 == 3 {
            #[trigger] g[g.len() - 1 - k] == ','
        } else {
            '0' <= g[g.len() - 1 - k] <= '9'
        } by {
            if k >= 4 {
                assert(g[g.len() - 1 - k] == h[h.len() - 1 - (k - 4)]);
                assert((k - 4) % 4 == k % 4);
            }
        }
    }
}

/// An amount of money reads back. Its digits spell the dollars where there are no cents, and all the
/// cents where there are; then a point stands before the last two. In the dollars a comma stands
/// after every three digits from the right and nowhere else, and they start with no zero but where
/// there are none.
pub proof fn law_money_reads_back(cents: nat, k: int)
    ensures
        ({
            let text = money_text(cents);
            let whole: int = if cents % 100 == 0 {
                text.len() as int
            } else {
                text.len() - 3
            };
            &&& 0 < whole
            &&& spelled(text) == if cents % 100 == 0 {
                cents / 100
            } else {
                cents
            }
            &&& cents % 100 != 0 ==> {
                &&& text[whole] == '.'
                &&& '0' <= text[whole + 1] <= '9'
                &&& '0' <= text[whole + 2] <= '9'
            }
            &&& 0 <= k < whole ==> if k % 4 == 3 {
                text[whole - 1 - k] == ','
            } else {
                '0' <= text[whole - 1 - k] <= '9'
            }
            &&& text[0] == '0' ==> cents < 100
        }),
{
    let text = money_text(cents);
    let g = grouped(cents / 100);
    let r = cents % 100;
    lemma_grouped(cents / 100);
    if r != 0 {
        reveal_strlit(".");
        reveal_with_fuel(padded, 3);
        let c1 = digit_char((r / 10 % 10) as int);
        let c0 = digit_char((r % 10) as int);
        assert(padded(r, 2) =~= seq![c1, c0]);
        assert(text =~= g.push('.').push(c1).push(c0));
        lemma_spelled_push(g, 0);
        lemma_spelled_push(g.push('.'), (r / 10 % 10) as int);
        lemma_spelled_push(g.push('.').push(c1), (r % 10) as int);
        assert(text[0] == g[0]);
        if 0 <= k < g.len() {
            assert(text[g.len() - 1 - k] == g[g.len() - 1 - k]);
        }
    } else if 0 <= k < g.len() {
        assert(text[g.len() - 1 - k] == g[g.len() - 1 - k]);
    }
}

/// A failed refresh leaves the block as it was and adds a line that says so: meters that are out
/// of date stay in view, marked as stale.
pub proof fn law_failure_marks_meters_stale(slot: Slot, error: String, at: i64)
    requires
        slot.meters is Some,
        slot.error is None,
    ensures
        block_rows(slot.after(Err(error), at)) == block_rows(slot).push(
            note("stale: "@ + error@, Tone::Stale),
        ),
{
}

/// A service that has never answered well shows its error alone, and a good answer removes it.
pub proof fn law_error_gives_way(slot: Slot, error: String, meters: Vec<Meter>, at: i64, later: i64)
    requires
        slot.meters is None,
    ensures
        block_rows(slot.after(Err(error), at)) == seq![note(error@, Tone::Error)],
        forall|i: int|
            0 <= i < block_rows(slot.after(Err(error), at).after(Ok(meters), later)).len() ==> !(
            #[trigger] block_rows(slot.after(Err(error), at).after(Ok(meters), later))[i] is Note),
{
    let after = slot.after(Err(error), at).after(Ok(meters), later);
    lemma_no_notes(meters@);
    assert(block_rows(slot.after(Err(error), at)) =~= seq![note(error@, Tone::Error)]);
}

proof fn lemma_no_notes(meters: Seq<Meter>)
    ensures
        forall|i: int|
            0 <= i < meter_rows(meters).len() ==> !(#[trigger] meter_rows(meters)[i] is Note),
    decreases meters.len(),
{
    if meters.len() > 0 {
        lemma_no_notes(meters.drop_last());
        let before = meter_rows(meters.drop_last());
        assert forall|i: int| 0 <= i < meter_rows(meters).len() implies !(
        #[trigger] meter_rows(meters)[i] is Note) by {
            if i < before.len() {
                assert(meter_rows(meters)[i] == before[i]);
            }
        }
    }
}

/// Every meter of a list is shown: its figures, and a bar exactly if it has an allowance, in the
/// colour of its level.
pub proof fn law_every_meter_is_shown(meters: Seq<Meter>, i: int)
    requires
        0 <= i < meters.len() <= usize::MAX,
    ensures
        meter_rows(meters).contains(RowView::Figures { meter: i as usize }),
        (exists|color: Rgba|
            meter_rows(meters).contains(#[trigger] bar(i as usize, color))) <==> meters[i].limited(),
        meters[i].limited() ==> meter_rows(meters).contains(
            bar(i as usize, level(meters[i].percent)),
        ),
    decreases meters.len(),
{
    let rest = meters.drop_last();
    let before = meter_rows(rest);
    let all = meter_rows(meters);
    let last = meters.len() - 1;
    lemma_row_indices(rest);
    assert(forall|k: int| 0 <= k < before.len() ==> #[trigger] all[k] == before[k]);
    assert(all[before.len() as int] == RowView::Figures { meter: last as usize });
    if i < last {
        law_every_meter_is_shown(rest, i);
        let figures = RowView::Figures { meter: i as usize };
        let k = choose|k: int| 0 <= k < before.len() && before[k] == figures;
        assert(all[k] == figures);
        assert(rest[i] == meters[i]);
        if meters[i].limited() {
            let b = bar(i as usize, level(meters[i].percent));
            let j = choose|j: int| 0 <= j < before.len() && before[j] == b;
            assert(all[j] == b);
        }
        assert forall|color: Rgba| all.contains(
            #[trigger] bar(i as usize, color),
        ) implies before.contains(bar(i as usize, color)) by {
            let j = choose|j: int| 0 <= j < all.len() && all[j] == bar(i as usize, color);
            assert(j < before.len());
            assert(before[j] == bar(i as usize, color));
        }
    } else {
        if meters[i].limited() {
            assert(all[(before.len() + 1) as int] == bar(i as usize, level(meters[i].percent)));
        } else {
            assert forall|color: Rgba| !all.contains(#[trigger] bar(i as usize, color)) by {
                if all.contains(bar(i as usize, color)) {
                    let j = choose|j: int| 0 <= j < all.len() && all[j] == bar(i as usize, color);
                    assert(j < before.len());
                    assert(before[j] == bar(i as usize, color));
                }
            }
        }
    }
}

/// The line at which a meter starts: below one line for each meter before it, and one more for each
/// of those with an allowance.
pub open spec fn line_of(meters: Seq<Meter>, i: int) -> int
    decreases i,
{
    if i <= 0 {
        0
    } else {
        line_of(meters, i - 1) + if meters[i - 1].limited() {
            2int
        } else {
            1
        }
    }
}

proof fn lemma_lines_grow(meters: Seq<Meter>, i: int, j: int)
    requires
        0 <= i < j,
    ensures
        0 <= line_of(meters, i) < line_of(meters, j),
        0 <= i < meters.len() && meters[i].limited() ==> line_of(meters, i) + 1 < line_of(meters, j),
    decreases j,
{
    if i < j - 1 {
        lemma_lines_grow(meters, i, j - 1);
    } else if i > 0 {
        lemma_lines_grow(meters, 0, i);
    }
}

proof fn lemma_lines_of_prefix(meters: Seq<Meter>, i: int)
    requires
        0 <= i < meters.len(),
    ensures
        line_of(meters.drop_last(), i) == line_of(meters, i),
    decreases i,
{
    if i > 0 {
        lemma_lines_of_prefix(meters, i - 1);
    }
}

/// True when the line shows the bar of a meter.
pub open spec fn is_bar_of(row: RowView, i: int) -> bool {
    row matches RowView::Bar { meter, .. } && meter == i
}

proof fn lemma_lines(meters: Seq<Meter>, i: int, k: int)
    requires
        0 <= i < meters.len() <= usize::MAX,
    ensures
        ({
            let rows = meter_rows(meters);
            let at = line_of(meters, i);
            &&& rows.len() == line_of(meters, meters.len() as int)
            &&& rows[at] == RowView::Figures { meter: i as usize }
            &&& meters[i].limited() ==> rows[at + 1] == RowView::Bar {
                meter: i as usize,
                color: level(meters[i].percent),
            }
            &&& 0 <= k < rows.len() ==> {
                &&& rows[k] == RowView::Figures { meter: i as usize } ==> k == at
                &&& is_bar_of(rows[k], i) ==> meters[i].limited() && k == at + 1
            }
        }),
    decreases meters.len(),
{
    let rest = meters.drop_last();
    let last = meters.len() - 1;
    let before = meter_rows(rest);
    let rows = meter_rows(meters);
    lemma_row_indices(rest);
    lemma_lines_of_prefix(meters, last);
    if rest.len() > 0 {
        lemma_lines(rest, 0, 0);
    }
    assert(before.len() == line_of(meters, last));
    assert(forall|j: int| 0 <= j < before.len() ==> #[trigger] rows[j] == before[j]);
    assert(rows[before.len() as int] == RowView::Figures { meter: last as usize });
    if i < last {
        lemma_lines(rest, i, k);
        lemma_lines_of_prefix(meters, i);
        lemma_lines_grow(meters, i, last);
        assert(rest[i] == meters[i]);
    }
}

/// On the block of a service whose meters do not stand beside its name, every meter has its line, in
/// the order of the meters: its figures once, and right below them, if and only if it has an
/// allowance, its bar, in the colour of its level. There are no lines but these and that of an
/// error.
pub proof fn law_block_shows_every_meter(slot: Slot, meters: Vec<Meter>, i: int, j: int, k: int)
    requires
        slot.meters == Some(meters),
        !(meters@.len() == 1 && meters@[0].label is None),
        0 <= i < j <= meters@.len(),
        0 <= k < block_rows(slot).len(),
    ensures
        ({
            let rows = block_rows(slot);
            let at = line_of(meters@, i);
            &&& 0 <= at < line_of(meters@, j) <= rows.len()
            &&& rows.len() == line_of(meters@, meters@.len() as int) + if slot.error is Some {
                1int
            } else {
                0
            }
            &&& rows[k] == RowView::Figures { meter: i as usize } <==> k == at
            &&& is_bar_of(rows[k], i) <==> meters@[i].limited() && k == at + 1
            &&& meters@[i].limited() ==> rows[at + 1] == RowView::Bar {
                meter: i as usize,
                color: level(meters@[i].percent),
            }
        }),
{
    assert(meters@.len() == meters.len());
    lemma_lines(meters@, i, k);
    lemma_lines_grow(meters@, i, j);
    lemma_lines_grow(meters@, i, meters@.len() as int);
    if j < meters@.len() {
        lemma_lines_grow(meters@, j, meters@.len() as int);
    }
    let body = meter_rows(meters@);
    assert(forall|n: int| 0 <= n < body.len() ==> #[trigger] block_rows(slot)[n] == body[n]);
}

/// A service's only meter stands beside the name if it has no label. Its block then has the bar,
/// again if and only if there is an allowance, and below that only the line of an error.
pub proof fn law_single_meter_has_its_bar(slot: Slot, meters: Vec<Meter>)
    requires
        slot.meters == Some(meters),
        meters@.len() == 1,
        meters@[0].label is None,
    ensures
        ({
            let rows = block_rows(slot);
            let bars: int = if meters@[0].limited() {
                1
            } else {
                0
            };
            &&& single_meter(slot)
            &&& rows.len() == bars + if slot.error is Some {
                1int
            } else {
                0
            }
            &&& meters@[0].limited() ==> rows[0] == RowView::Bar {
                meter: 0,
                color: level(meters@[0].percent),
            }
        }),
{
}

/// The figures of every meter are shown in one place: on a line of their own, or beside the name; and
/// beside the name only where there is one meter and no label to show.
pub proof fn law_figures_stand_in_one_place(slot: Slot, meters: Vec<Meter>, i: int)
    requires
        slot.meters == Some(meters),
        0 <= i < meters@.len(),
    ensures
        single_meter(slot) <==> !block_rows(slot).contains(RowView::Figures { meter: i as usize }),
        single_meter(slot) <==> meters@.len() == 1 && meters@[0].label is None,
{
    if single_meter(slot) {
        law_single_meter_has_its_bar(slot, meters);
    } else {
        assert(meters@.len() == meters.len());
        lemma_lines_grow(meters@, i, meters@.len() as int);
        lemma_lines(meters@, i, 0);
        law_block_shows_every_meter(slot, meters, i, i + 1, line_of(meters@, i));
    }
}

/// A service without meters shows one line: its error, in the colour of errors, or, where there is
/// none, that it is loading, in muted gray.
pub proof fn law_block_without_meters(slot: Slot)
    requires
        slot.meters is None,
    ensures
        !single_meter(slot),
        block_rows(slot).len() == 1,
        block_rows(slot)[0] == match slot.error {
            Some(e) => RowView::Note {
                text: e@,
                tone: Tone::Error,
                color: Rgba { r: 235, g: 110, b: 110, a: 255 },
            },
            None => RowView::Note {
                text: "loading…"@,
                tone: Tone::Waiting,
                color: Rgba { r: 135, g: 135, b: 135, a: 255 },
            },
        },
{
}

/// Below meters there is a line of text if and only if there is an error: the last line, which calls
/// the meters stale and names the error, in the colour of errors.
pub proof fn law_block_with_meters_notes_the_error(slot: Slot, k: int)
    requires
        slot.meters is Some,
        0 <= k < block_rows(slot).len(),
    ensures
        block_rows(slot)[k] is Note <==> slot.error is Some && k == block_rows(slot).len() - 1,
        slot.error matches Some(e) ==> block_rows(slot).last() == (RowView::Note {
            text: "stale: "@ + e@,
            tone: Tone::Stale,
            color: Rgba { r: 235, g: 110, b: 110, a: 255 },
        }),
{
    let meters = slot_meters(slot);
    lemma_no_notes(meters);
    if !single_meter(slot) {
        let body = meter_rows(meters);
        assert(forall|n: int| 0 <= n < body.len() ==> #[trigger] block_rows(slot)[n] == body[n]);
    }
}

/// The bar of a meter.
pub open spec fn bar(meter: usize, color: Rgba) -> RowView {
    RowView::Bar { meter, color }
}

proof fn lemma_row_indices(meters: Seq<Meter>)
    requires
        meters.len() <= usize::MAX,
    ensures
        forall|k: int|
            0 <= k < meter_rows(meters).len() ==> match #[trigger] meter_rows(meters)[k] {
                RowView::Figures { meter } => meter < meters.len(),
                RowView::Bar { meter, .. } => meter < meters.len(),
                RowView::Note { .. } => true,
            },
    decreases meters.len(),
{
    if meters.len() > 0 {
        let before = meter_rows(meters.drop_last());
        lemma_row_indices(meters.drop_last());
        assert forall|k: int| 0 <= k < meter_rows(meters).len() implies match
            #[trigger] meter_rows(meters)[k] {
            RowView::Figures { meter } => meter < meters.len(),
            RowView::Bar { meter, .. } => meter < meters.len(),
            RowView::Note { .. } => true,
        } by {
            if k < before.len() {
                assert(meter_rows(meters)[k] == before[k]);
            }
        }
    }
}

} // verus!
