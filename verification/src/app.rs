//! The state of the widget, and how it changes: the usage that arrives, the frames that are drawn
//! and the choices that are made.

use vstd::prelude::*;

use crate::double::{whole_units, Double, ONE_AND_A_HALF};
use crate::menu::MenuAction;
use crate::providers::{all_providers, Meter, Provider, Unit};
use crate::window::{settling, WindowProbe};

verus! {

/// The width of the full card.
pub const WIDTH: u32 = 250;

/// The margin of the full card, on every side.
pub const MARGIN: i8 = 12;

/// The margins of the compact line, left and right.
pub const MINI_MARGIN_X: i8 = 10;

/// The margins of the compact line, above and below.
pub const MINI_MARGIN_Y: i8 = 6;

/// How long the window may go without being drawn anew, in seconds.
pub const REPAINT_SECS: u64 = 30;

/// A service's answer.
#[derive(Debug)]
pub struct Update {
    pub provider: Provider,
    pub result: Result<Vec<Meter>, String>,
    /// When it came, in seconds of Unix time.
    pub at: i64,
}

/// What is known of a service.
#[derive(Debug)]
pub struct Slot {
    /// The last meters that arrived.
    pub meters: Option<Vec<Meter>>,
    /// The error of the last answer, if it was one.
    pub error: Option<String>,
    /// When the last answer came.
    pub updated: Option<i64>,
    /// An answer is awaited.
    pub loading: bool,
}

/// One slot for each service.
#[derive(Debug)]
pub struct Slots {
    pub copilot: Slot,
    pub claude: Slot,
    pub codex: Slot,
}

/// The state of the widget.
#[derive(Debug)]
pub struct App {
    pub slots: Slots,
    /// The time between two refreshes, in seconds.
    pub interval_secs: u64,
    /// False until the window has been placed on screen and made topmost.
    pub settled: bool,
    /// The compact single-line view. Persisted, so that the widget reopens the way it was left.
    pub minimized: bool,
}

impl Slot {
    /// The slot after an answer: the answer is no longer awaited, meters replace what was known,
    /// and an error leaves the last meters in place.
    pub open spec fn after(self, result: Result<Vec<Meter>, String>, at: i64) -> Slot {
        match result {
            Ok(meters) => Slot {
                meters: Some(meters),
                error: None,
                updated: Some(at),
                loading: false,
            },
            Err(error) => Slot {
                meters: self.meters,
                error: Some(error),
                updated: Some(at),
                loading: false,
            },
        }
    }

    /// The slot while an answer is awaited.
    pub open spec fn awaiting(self) -> Slot {
        Slot { loading: true, ..self }
    }

    fn waiting() -> (slot: Slot)
        ensures
            slot == (Slot { meters: None, error: None, updated: None, loading: true }),
    {
        Slot { meters: None, error: None, updated: None, loading: true }
    }

    fn take_answer(&mut self, result: Result<Vec<Meter>, String>, at: i64)
        ensures
            *final(self) == old(self).after(result, at),
    {
        self.loading = false;
        self.updated = Some(at);
        match result {
            Ok(meters) => {
                self.meters = Some(meters);
                self.error = None;
            },
            Err(error) => {
                self.error = Some(error);
            },
        }
    }
}

impl Slots {
    /// The slot of a service.
    pub open spec fn of(self, p: Provider) -> Slot {
        match p {
            Provider::Copilot => self.copilot,
            Provider::Claude => self.claude,
            Provider::Codex => self.codex,
        }
    }

    /// The slots after an answer.
    pub open spec fn after(self, u: Update) -> Slots {
        let slot = self.of(u.provider).after(u.result, u.at);
        match u.provider {
            Provider::Copilot => Slots { copilot: slot, ..self },
            Provider::Claude => Slots { claude: slot, ..self },
            Provider::Codex => Slots { codex: slot, ..self },
        }
    }

    /// The slots after a number of answers, in the order in which they came.
    pub open spec fn after_all(self, updates: Seq<Update>) -> Slots
        decreases updates.len(),
    {
        if updates.len() == 0 {
            self
        } else {
            self.after_all(updates.drop_last()).after(updates.last())
        }
    }

    /// The slots while an answer of every service is awaited.
    pub open spec fn awaiting(self) -> Slots {
        Slots {
            copilot: self.copilot.awaiting(),
            claude: self.claude.awaiting(),
            codex: self.codex.awaiting(),
        }
    }

    /// The slot of a service.
    pub fn get(&self, p: Provider) -> (slot: &Slot)
        ensures
            *slot == self.of(p),
    {
        match p {
            Provider::Copilot => &self.copilot,
            Provider::Claude => &self.claude,
            Provider::Codex => &self.codex,
        }
    }
}

fn later(a: Option<i64>, b: Option<i64>) -> (m: Option<i64>)
    ensures
        m == a || m == b,
        a matches Some(t) ==> m matches Some(s) && t <= s,
        b matches Some(t) ==> m matches Some(s) && t <= s,
{
    match (a, b) {
        (Some(x), Some(y)) => if x < y {
            b
        } else {
            a
        },
        (None, _) => b,
        (_, None) => a,
    }
}

/// True of the time at which the last answer of any service came, if one has.
pub open spec fn latest(slots: Slots, t: Option<i64>) -> bool {
    &&& t is None <==> forall|p: Provider| (#[trigger] slots.of(p)).updated is None
    &&& t is Some ==> exists|p: Provider| (#[trigger] slots.of(p)).updated == t
    &&& forall|p: Provider|
        (#[trigger] slots.of(p)).updated matches Some(s) ==> t is Some && s <= t->0
}

/// What a frame of the window has brought.
#[derive(Clone, Copy, Debug)]
pub struct FrameInput {
    /// By how much the size that the content wants differs from the window's, in the dimension
    /// in which it differs more.
    pub size_change: Double,
    /// The refresh button was clicked.
    pub refresh_clicked: bool,
    /// The choice that was made from the menu.
    pub action: Option<MenuAction>,
}

/// What the window is asked for after a choice.
#[derive(Clone, Copy, Debug, PartialEq, Eq, Structural)]
pub enum Request {
    /// Open the usage page of a service in the browser.
    OpenPage(Provider),
    /// Scale the widget, in percent of its size.
    Zoom(u32),
    Close,
}

/// What is to be done after a frame.
#[derive(Clone, Copy, Debug, PartialEq, Eq, Structural)]
pub struct FrameOutcome {
    /// Give the window the size that the content wants.
    pub resize: bool,
    pub request: Option<Request>,
    /// Ask the services again.
    pub refresh: bool,
}

/// How the content sits in the window.
#[derive(Clone, Copy, Debug, PartialEq, Eq, Structural)]
pub struct Layout {
    /// The margins left and right, and those above and below.
    pub margin_x: i8,
    pub margin_y: i8,
    /// The width of the window, where it does not follow the content.
    pub fixed_width: Option<u32>,
}

/// How the content of a view sits in the window.
pub open spec fn view_layout(minimized: bool) -> Layout {
    if minimized {
        Layout { margin_x: 10, margin_y: 6, fixed_width: None }
    } else {
        Layout { margin_x: 12, margin_y: 12, fixed_width: Some(250) }
    }
}

/// The view that a widget opens in, from what the last run saved: the full card where that was
/// nothing.
pub open spec fn restored_view(saved: Option<bool>) -> bool {
    match saved {
        Some(minimized) => minimized,
        None => false,
    }
}

/// A number of minutes, in seconds.
pub open spec fn interval(mins: int) -> int {
    60 * mins
}

/// A number of seconds, in minutes.
pub open spec fn interval_minutes(secs: int) -> int {
    secs / 60
}

/// True of a change of size that the window follows: by more than one and a half.
pub open spec fn noticeable(change: Double) -> bool {
    !change.nan() && 2 * change.units() > whole_units(3)
}

/// What is to be done after a frame.
pub open spec fn frame_outcome(input: FrameInput) -> FrameOutcome {
    FrameOutcome {
        resize: noticeable(input.size_change),
        request: match input.action {
            Some(MenuAction::Open(p)) => Some(Request::OpenPage(p)),
            Some(MenuAction::Size(percent)) => Some(Request::Zoom(percent)),
            Some(MenuAction::Quit) => Some(Request::Close),
            _ => None,
        },
        refresh: input.refresh_clicked || input.action == Some(MenuAction::Refresh),
    }
}

/// The used and total amounts of the meters that count in dollars, in order.
pub open spec fn dollar_amounts(meters: Seq<Meter>) -> Seq<(Double, Double)> {
    meters.filter(|m: Meter| m.unit == Unit::Dollars).map_values(
        |m: Meter| (m.used, m.total),
    )
}

proof fn lemma_dollars_push(meters: Seq<Meter>, m: Meter)
    ensures
        dollar_amounts(meters.push(m)) == if m.unit == Unit::Dollars {
            dollar_amounts(meters).push((m.used, m.total))
        } else {
            dollar_amounts(meters)
        },
{
    reveal(Seq::filter);
    assert(meters.push(m).drop_last() =~= meters);
    assert(dollar_amounts(meters.push(m)) =~= if m.unit == Unit::Dollars {
        dollar_amounts(meters).push((m.used, m.total))
    } else {
        dollar_amounts(meters)
    });
}

/// The meters of a slot, none where nothing has arrived.
pub open spec fn slot_meters(slot: Slot) -> Seq<Meter> {
    match slot.meters {
        Some(meters) => meters@,
        None => seq![],
    }
}

/// The amounts that the total of all services adds up.
pub open spec fn total_amounts(slots: Slots) -> Seq<(Double, Double)> {
    dollar_amounts(slot_meters(slots.of(all_providers()[0]))) + dollar_amounts(
        slot_meters(slots.of(all_providers()[1])),
    ) + dollar_amounts(slot_meters(slots.of(all_providers()[2])))
}

/// What the footer adds up, if there is anything to add.
pub open spec fn footer(slots: Slots) -> Option<Seq<(Double, Double)>> {
    if total_amounts(slots).len() > 0 {
        Some(total_amounts(slots))
    } else {
        None
    }
}

fn add_dollars(amounts: &mut Vec<(Double, Double)>, slot: &Slot)
    ensures
        final(amounts)@ == old(amounts)@ + dollar_amounts(slot_meters(*slot)),
{
    match &slot.meters {
        Some(meters) => {
            let ghost before = amounts@;
            assert(meters@.take(0) =~= seq![]);
            proof {
                reveal(Seq::filter);
                assert(before + dollar_amounts(seq![]) =~= before);
            }
            for i in 0..meters.len()
                invariant
                    amounts@ == before + dollar_amounts(meters@.take(i as int)),
            {
                let m = &meters[i];
                proof {
                    assert(meters@.take(i + 1) =~= meters@.take(i as int).push(*m));
                    lemma_dollars_push(meters@.take(i as int), *m);
                }
                if m.unit == Unit::Dollars {
                    amounts.push((m.used, m.total));
                }
                assert(amounts@ =~= before + dollar_amounts(meters@.take(i + 1)));
            }
            assert(meters@.take(meters@.len() as int) =~= meters@);
        },
        None => {
            proof {
                reveal(Seq::filter);
            }
            assert(amounts@ =~= old(amounts)@ + dollar_amounts(slot_meters(*slot)));
        },
    }
}

/// The state of a widget that has just been opened.
pub open spec fn opened(refresh_mins: u64, saved: Option<bool>) -> App {
    let slot = Slot { meters: None, error: None, updated: None, loading: true };
    App {
        slots: Slots { copilot: slot, claude: slot, codex: slot },
        interval_secs: interval(refresh_mins as int) as u64,
        settled: false,
        minimized: restored_view(saved),
    }
}

impl App {
    /// The state while an answer of every service is awaited.
    pub open spec fn awaiting(self) -> App {
        App { slots: self.slots.awaiting(), ..self }
    }

    /// The state after a number of answers, in the order in which they came.
    pub open spec fn drained(self, updates: Seq<Update>) -> App {
        App { slots: self.slots.after_all(updates), ..self }
    }

    /// The state once settling the window has come to an outcome.
    pub open spec fn after_settling(self, settled: bool) -> App {
        App { settled, ..self }
    }

    /// True while the window is still to be settled.
    pub open spec fn unsettled(self) -> bool {
        !self.settled
    }

    /// What is saved of the state.
    pub open spec fn saved(self) -> bool {
        self.minimized
    }

    /// A widget that awaits its first answers. `minimized` is what the last run saved, if
    /// anything.
    pub fn new(refresh_mins: u64, minimized: Option<bool>) -> (app: App)
        requires
            interval(refresh_mins as int) <= u64::MAX,
        ensures
            forall|p: Provider|
                #[trigger] app.slots.of(p) == (Slot {
                    meters: None,
                    error: None,
                    updated: None,
                    loading: true,
                }),
            app.interval_secs == interval(refresh_mins as int),
            !app.settled,
            app.minimized == restored_view(minimized),
            app == opened(refresh_mins, minimized),
    {
        App {
            slots: Slots {
                copilot: Slot::waiting(),
                claude: Slot::waiting(),
                codex: Slot::waiting(),
            },
            interval_secs: 60 * refresh_mins,
            settled: false,
            minimized: match minimized {
                Some(m) => m,
                None => false,
            },
        }
    }

    /// Awaits an answer of every service. The request itself is the caller's to send.
    pub fn refresh_now(&mut self)
        ensures
            *final(self) == old(self).awaiting(),
    {
        self.slots.copilot.loading = true;
        self.slots.claude.loading = true;
        self.slots.codex.loading = true;
    }

    /// Takes in the answers that have come, oldest first.
    pub fn drain(&mut self, updates: Vec<Update>)
        ensures
            *final(self) == old(self).drained(updates@),
    {
        let ghost all = updates@;
        let ghost start = *self;
        let mut rest = updates;
        let ghost mut done: int = 0;
        assert(all.take(0) =~= seq![]);
        assert(all.skip(0) =~= all);
        while rest.len() > 0
            invariant
                0 <= done <= all.len(),
                rest@ == all.skip(done),
                *self == (App { slots: start.slots.after_all(all.take(done)), ..start }),
            decreases rest@.len(),
        {
            let u = rest.remove(0);
            proof {
                assert(u == all[done]);
                assert(all.take(done + 1).drop_last() =~= all.take(done));
                assert(rest@ =~= all.skip(done + 1));
                done = done + 1;
            }
            match u.provider {
                Provider::Copilot => {
                    self.slots.copilot.take_answer(u.result, u.at);
                },
                Provider::Claude => {
                    self.slots.claude.take_answer(u.result, u.at);
                },
                Provider::Codex => {
                    self.slots.codex.take_answer(u.result, u.at);
                },
            }
        }
        assert(all.take(done) =~= all);
    }

    /// When the last answer of any service came.
    pub fn last_updated(&self) -> (t: Option<i64>)
        ensures
            latest(self.slots, t),
    {
        let t = later(
            later(self.slots.copilot.updated, self.slots.claude.updated),
            self.slots.codex.updated,
        );
        assert(self.slots.of(Provider::Copilot) == self.slots.copilot);
        assert(self.slots.of(Provider::Claude) == self.slots.claude);
        assert(self.slots.of(Provider::Codex) == self.slots.codex);
        t
    }

    /// What the footer adds up: the amounts of every meter that counts in dollars, across the
    /// services; nothing where there is no such meter.
    pub fn total(&self) -> (amounts: Option<Vec<(Double, Double)>>)
        ensures
            match amounts {
                Some(list) => list@ == total_amounts(self.slots) && list@.len() > 0,
                None => total_amounts(self.slots).len() == 0,
            },
            (match amounts {
                Some(list) => Some(list@),
                None => None,
            }) == footer(self.slots),
    {
        let mut list: Vec<(Double, Double)> = Vec::new();
        add_dollars(&mut list, &self.slots.copilot);
        add_dollars(&mut list, &self.slots.claude);
        add_dollars(&mut list, &self.slots.codex);
        assert(list@ =~= total_amounts(self.slots));
        if list.len() > 0 {
            Some(list)
        } else {
            None
        }
    }

    /// Tells whether the window is still to be settled.
    pub fn needs_settling(&self) -> (yes: bool)
        ensures
            yes == self.unsettled(),
    {
        !self.settled
    }

    /// Notes the outcome of settling the window. A window that is not settled yet is tried again
    /// on the next frame, which is then wanted at once.
    pub fn settle(&mut self, settled: bool) -> (repaint: bool)
        ensures
            *final(self) == old(self).after_settling(settled),
            repaint == final(self).unsettled(),
    {
        self.settled = settled;
        !self.settled
    }

    /// How the content of the current view sits in the window. The compact line sizes the window
    /// to its content; the full card has a fixed width.
    pub fn layout(&self) -> (l: Layout)
        ensures
            l == view_layout(self.minimized),
    {
        if self.minimized {
            Layout { margin_x: MINI_MARGIN_X, margin_y: MINI_MARGIN_Y, fixed_width: None }
        } else {
            Layout { margin_x: MARGIN, margin_y: MARGIN, fixed_width: Some(WIDTH) }
        }
    }

    /// The state after a frame.
    pub open spec fn after_frame(self, input: FrameInput) -> App {
        App {
            slots: if frame_outcome(input).refresh {
                self.slots.awaiting()
            } else {
                self.slots
            },
            interval_secs: self.interval_secs,
            settled: self.settled && !noticeable(input.size_change),
            minimized: if input.action == Some(MenuAction::ToggleMinimized) {
                !self.minimized
            } else {
                self.minimized
            },
        }
    }

    /// Takes in what a frame has brought. The card grows downwards as data arrives, or on zoom,
    /// which can push it past the screen edge: a window that changes its size is settled anew.
    pub fn ui(&mut self, input: FrameInput) -> (outcome: FrameOutcome)
        ensures
            outcome == frame_outcome(input),
            *final(self) == old(self).after_frame(input),
    {
        proof {
            crate::double::law_thresholds();
        }
        let resize = (Double { bits: ONE_AND_A_HALF }).less_than(input.size_change);
        if resize {
            self.settled = false;
        }
        let mut refresh = input.refresh_clicked;
        let mut request: Option<Request> = None;
        match input.action {
            Some(MenuAction::Refresh) => {
                refresh = true;
            },
            Some(MenuAction::ToggleMinimized) => {
                self.minimized = !self.minimized;
            },
            Some(MenuAction::Open(p)) => {
                request = Some(Request::OpenPage(p));
            },
            Some(MenuAction::Size(percent)) => {
                request = Some(Request::Zoom(percent));
            },
            Some(MenuAction::Quit) => {
                request = Some(Request::Close);
            },
            None => {},
        }
        if refresh {
            self.refresh_now();
        }
        FrameOutcome { resize, request, refresh }
    }

    /// What is saved when the widget closes.
    pub fn save(&self) -> (minimized: bool)
        ensures
            minimized == self.saved(),
    {
        self.minimized
    }

    /// The time between two refreshes, in minutes.
    pub fn refresh_mins(&self) -> (mins: u64)
        ensures
            mins == interval_minutes(self.interval_secs as int),
    {
        self.interval_secs / 60
    }
}

/// An answer of one service leaves the others as they were.
pub proof fn law_answers_stay_apart(slots: Slots, u: Update, p: Provider)
    requires
        p != u.provider,
    ensures
        slots.after(u).of(p) == slots.of(p),
        slots.after(u).of(u.provider) == slots.of(u.provider).after(u.result, u.at),
{
}

/// Answers of different services can arrive in either order.
pub proof fn law_answers_commute(slots: Slots, a: Update, b: Update)
    requires
        a.provider != b.provider,
    ensures
        slots.after(a).after(b) == slots.after(b).after(a),
{
}

/// Taking in answers in two lots is the same as taking them in at once.
pub proof fn law_drains_compose(slots: Slots, first: Seq<Update>, second: Seq<Update>)
    ensures
        slots.after_all(first + second) == slots.after_all(first).after_all(second),
    decreases second.len(),
{
    if second.len() == 0 {
        assert(first + second =~= first);
    } else {
        assert((first + second).drop_last() =~= first + second.drop_last());
        law_drains_compose(slots, first, second.drop_last());
    }
}

/// A failed refresh loses nothing: the meters of the last good answer stay until the next one.
pub proof fn law_failure_keeps_meters(slots: Slots, updates: Seq<Update>, p: Provider)
    requires
        forall|i: int|
            0 <= i < updates.len() && (#[trigger] updates[i]).provider == p
                ==> updates[i].result is Err,
    ensures
        slots.after_all(updates).of(p).meters == slots.of(p).meters,
    decreases updates.len(),
{
    if updates.len() > 0 {
        let rest = updates.drop_last();
        assert forall|i: int| 0 <= i < rest.len() && (#[trigger] rest[i]).provider
            == p implies rest[i].result is Err by {
            assert(rest[i] == updates[i]);
        }
        law_failure_keeps_meters(slots, rest, p);
        assert(updates[updates.len() - 1] == updates.last());
    }
}

/// The last answer of a service decides: after a good one its meters are shown and no error,
/// after a bad one its error; either way nothing is awaited and the time is that of the answer.
pub proof fn law_last_answer_decides(slots: Slots, updates: Seq<Update>, last: int)
    requires
        0 <= last < updates.len(),
        forall|i: int|
            last < i < updates.len() ==> (#[trigger] updates[i]).provider != updates[last].provider,
    ensures
        ({
            let u = updates[last];
            let slot = slots.after_all(updates).of(u.provider);
            &&& !slot.loading
            &&& slot.updated == Some(u.at)
            &&& u.result matches Ok(m) ==> slot.meters == Some(m) && slot.error is None
            &&& u.result matches Err(e) ==> slot.error == Some(e)
        }),
    decreases updates.len(),
{
    let rest = updates.drop_last();
    if last < updates.len() - 1 {
        assert forall|i: int| last < i < rest.len() implies (#[trigger] rest[i]).provider
            != rest[last].provider by {
            assert(rest[i] == updates[i]);
        }
        law_last_answer_decides(slots, rest, last);
        assert(updates[updates.len() - 1] == updates.last());
        assert(rest[last] == updates[last]);
    }
}

/// True when an answer of the service is among these.
pub open spec fn answered(updates: Seq<Update>, p: Provider) -> bool {
    exists|i: int| 0 <= i < updates.len() && (#[trigger] updates[i]).provider == p
}

/// A refresh that every service has answered is over: nothing is awaited any more.
pub proof fn law_refresh_ends(slots: Slots, updates: Seq<Update>)
    requires
        forall|p: Provider| #[trigger] answered(updates, p),
    ensures
        forall|p: Provider| !(#[trigger] slots.after_all(updates).of(p)).loading,
{
    assert forall|p: Provider| !(#[trigger] slots.after_all(updates).of(p)).loading by {
        assert(answered(updates, p));
        let i = choose|i: int| 0 <= i < updates.len() && (#[trigger] updates[i]).provider == p;
        lemma_answered(slots, updates, i);
    }
}

proof fn lemma_answered(slots: Slots, updates: Seq<Update>, i: int)
    requires
        0 <= i < updates.len(),
    ensures
        !slots.after_all(updates).of(updates[i].provider).loading,
    decreases updates.len(),
{
    if i < updates.len() - 1 {
        lemma_answered(slots, updates.drop_last(), i);
    }
}

/// Asking for a refresh forgets nothing: it only marks the answers as awaited.
pub proof fn law_refresh_forgets_nothing(slots: Slots, p: Provider)
    ensures
        slots.awaiting().of(p).loading,
        slots.awaiting().of(p).meters == slots.of(p).meters,
        slots.awaiting().of(p).error == slots.of(p).error,
        slots.awaiting().of(p).updated == slots.of(p).updated,
{
}

/// True of the amounts of a meter that counts in dollars.
pub open spec fn dollars_of(slot: Slot, i: int, amount: (Double, Double)) -> bool {
    let meters = slot_meters(slot);
    0 <= i < meters.len() && meters[i].unit == Unit::Dollars && amount == (
        meters[i].used,
        meters[i].total,
    )
}

proof fn lemma_slot_dollars(slot: Slot, amount: (Double, Double))
    ensures
        dollar_amounts(slot_meters(slot)).contains(amount) <==> exists|i: int|
            dollars_of(slot, i, amount),
{
    let meters = slot_meters(slot);
    let counts = |m: Meter| m.unit == Unit::Dollars;
    let kept = meters.filter(counts);
    let amounts = dollar_amounts(meters);
    if amounts.contains(amount) {
        let k = choose|k: int| 0 <= k < amounts.len() && amounts[k] == amount;
        let m = kept[k];
        meters.lemma_filter_pred(counts, k);
        assert(kept.contains(m));
        meters.lemma_filter_contains_rev(counts, m);
        let i = choose|i: int| 0 <= i < meters.len() && meters[i] == m;
        assert(dollars_of(slot, i, amount));
    }
    if exists|i: int| dollars_of(slot, i, amount) {
        let i = choose|i: int| dollars_of(slot, i, amount);
        meters.lemma_filter_contains(counts, i);
        let k = choose|k: int| 0 <= k < kept.len() && kept[k] == meters[i];
        assert(amounts[k] == amount);
    }
}

/// The footer sums all three: the amounts of every dollar meter of every service are in the
/// total, and nothing else is.
pub proof fn law_total_is_complete(slots: Slots, amount: (Double, Double))
    ensures
        total_amounts(slots).contains(amount) <==> exists|p: Provider, i: int|
            #[trigger] dollars_of(slots.of(p), i, amount),
{
    let a = dollar_amounts(slot_meters(slots.of(Provider::Copilot)));
    let b = dollar_amounts(slot_meters(slots.of(Provider::Claude)));
    let c = dollar_amounts(slot_meters(slots.of(Provider::Codex)));
    let all = total_amounts(slots);
    assert(all =~= a + b + c);
    lemma_slot_dollars(slots.of(Provider::Copilot), amount);
    lemma_slot_dollars(slots.of(Provider::Claude), amount);
    lemma_slot_dollars(slots.of(Provider::Codex), amount);
    if all.contains(amount) {
        let k = choose|k: int| 0 <= k < all.len() && all[k] == amount;
        if k < a.len() {
            assert(a[k] == amount);
        } else if k < a.len() + b.len() {
            assert(b[k - a.len()] == amount);
        } else {
            assert(c[k - a.len() - b.len()] == amount);
        }
    }
    if a.contains(amount) {
        let k = choose|k: int| 0 <= k < a.len() && a[k] == amount;
        assert(all[k] == amount);
    }
    if b.contains(amount) {
        let k = choose|k: int| 0 <= k < b.len() && b[k] == amount;
        assert(all[a.len() + k] == amount);
    }
    if c.contains(amount) {
        let k = choose|k: int| 0 <= k < c.len() && c[k] == amount;
        assert(all[a.len() + b.len() + k] == amount);
    }
}

/// How many of the meters count in dollars.
pub open spec fn dollar_meters(meters: Seq<Meter>) -> nat
    decreases meters.len(),
{
    if meters.len() == 0 {
        0
    } else {
        dollar_meters(meters.drop_last()) + if meters.last().unit == Unit::Dollars {
            1nat
        } else {
            0nat
        }
    }
}

/// How many of the meters count in dollars with these amounts.
pub open spec fn dollar_meters_of(meters: Seq<Meter>, amount: (Double, Double)) -> nat
    decreases meters.len(),
{
    if meters.len() == 0 {
        0
    } else {
        let m = meters.last();
        dollar_meters_of(meters.drop_last(), amount) + if m.unit == Unit::Dollars && m.used
            == amount.0 && m.total == amount.1 {
            1nat
        } else {
            0nat
        }
    }
}

proof fn lemma_dollars_counted(meters: Seq<Meter>, amount: (Double, Double))
    ensures
        dollar_amounts(meters).len() == dollar_meters(meters),
        dollar_amounts(meters).to_multiset().count(amount) == dollar_meters_of(meters, amount),
    decreases meters.len(),
{
    if meters.len() == 0 {
        reveal(Seq::filter);
        assert(dollar_amounts(meters) =~= seq![]);
        dollar_amounts(meters).to_multiset_ensures();
    } else {
        let rest = meters.drop_last();
        let m = meters.last();
        lemma_dollars_counted(rest, amount);
        assert(meters =~= rest.push(m));
        lemma_dollars_push(rest, m);
        dollar_amounts(rest).to_multiset_ensures();
    }
}

/// The meters of a slot are those that last arrived, and none before.
pub proof fn law_meters_of_a_slot(slot: Slot)
    ensures
        slot.meters matches Some(meters) ==> slot_meters(slot) == meters@,
        slot.meters is None ==> slot_meters(slot).len() == 0,
{
}

/// The total counts every dollar meter of each of the three services exactly once, and nothing else:
/// amounts occur in it as often as there are dollar meters with them, and it has as many entries as
/// there are dollar meters.
pub proof fn law_total_counts_each_meter_once(slots: Slots, amount: (Double, Double))
    ensures
        total_amounts(slots).to_multiset().count(amount) == dollar_meters_of(
            slot_meters(slots.copilot),
            amount,
        ) + dollar_meters_of(slot_meters(slots.claude), amount) + dollar_meters_of(
            slot_meters(slots.codex),
            amount,
        ),
        total_amounts(slots).len() == dollar_meters(slot_meters(slots.copilot)) + dollar_meters(
            slot_meters(slots.claude),
        ) + dollar_meters(slot_meters(slots.codex)),
{
    let a = dollar_amounts(slot_meters(slots.copilot));
    let b = dollar_amounts(slot_meters(slots.claude));
    let c = dollar_amounts(slot_meters(slots.codex));
    lemma_dollars_counted(slot_meters(slots.copilot), amount);
    lemma_dollars_counted(slot_meters(slots.claude), amount);
    lemma_dollars_counted(slot_meters(slots.codex), amount);
    assert(total_amounts(slots) =~= a + b + c);
    vstd::seq_lib::lemma_multiset_commutative(a, b);
    vstd::seq_lib::lemma_multiset_commutative(a + b, c);
}

/// There is a total if and only if some service has a dollar meter, however many there are; and then
/// it is of all of them.
pub proof fn law_total_is_shown_if_any(slots: Slots)
    ensures
        footer(slots) is None <==> dollar_meters(slot_meters(slots.copilot)) == 0 && dollar_meters(
            slot_meters(slots.claude),
        ) == 0 && dollar_meters(slot_meters(slots.codex)) == 0,
        footer(slots) matches Some(list) ==> list.to_multiset() == total_amounts(
            slots,
        ).to_multiset(),
{
    law_total_counts_each_meter_once(slots, (Double { bits: 0 }, Double { bits: 0 }));
}

/// One more meter of a service adds its amounts to the total, once, if it counts in dollars, and
/// changes nothing otherwise.
pub proof fn law_total_grows_by_the_meter(
    slots: Slots,
    p: Provider,
    before: Vec<Meter>,
    after: Vec<Meter>,
    m: Meter,
    at: i64,
)
    requires
        after@ == before@.push(m),
    ensures
        ({
            let one = Update { provider: p, result: Ok(before), at };
            let other = Update { provider: p, result: Ok(after), at };
            let total = total_amounts(slots.after(one)).to_multiset();
            let grown = total_amounts(slots.after(other)).to_multiset();
            grown == if m.unit == Unit::Dollars {
                total.insert((m.used, m.total))
            } else {
                total
            }
        }),
{
    let one = slots.after(Update { provider: p, result: Ok(before), at });
    let other = slots.after(Update { provider: p, result: Ok(after), at });
    let total = total_amounts(one).to_multiset();
    let grown = total_amounts(other).to_multiset();
    let expected = if m.unit == Unit::Dollars {
        total.insert((m.used, m.total))
    } else {
        total
    };
    assert(after@.drop_last() =~= before@);
    assert forall|amount: (Double, Double)| grown.count(amount) == expected.count(amount) by {
        law_total_counts_each_meter_once(one, amount);
        law_total_counts_each_meter_once(other, amount);
        assert(dollar_meters_of(after@, amount) == dollar_meters_of(before@, amount) + if m.unit
            == Unit::Dollars && (m.used, m.total) == amount {
            1nat
        } else {
            0nat
        });
    }
    assert(grown =~= expected);
}

/// The widget reopens in the view that it was left in, and the first time as the full card.
pub proof fn law_view_survives(app: App)
    ensures
        restored_view(Some(app.minimized)) == app.minimized,
        restored_view(Some(app.saved())) == app.minimized,
        !restored_view(None),
{
}

/// The menu shows the interval that was set.
pub proof fn law_interval_is_shown(mins: int)
    ensures
        interval_minutes(interval(mins)) == mins,
{
}

/// Every minute of the interval is sixty seconds.
pub proof fn law_minutes_have_sixty_seconds(mins: int, secs: int)
    requires
        0 <= secs < 60,
    ensures
        interval(mins + 1) == interval(mins) + 60,
        interval(0) == 0,
        interval_minutes(interval(mins) + secs) == mins,
{
}

/// A widget opens knowing nothing and awaiting every service, with a window that is still to be
/// settled. It keeps the interval that it was given, and opens in the view that was saved.
pub proof fn law_widget_opens_waiting(refresh_mins: u64, saved: Option<bool>, p: Provider)
    requires
        60 * refresh_mins <= u64::MAX,
    ensures
        ({
            let app = opened(refresh_mins, saved);
            &&& app.slots.of(p).loading
            &&& app.slots.of(p).meters is None
            &&& app.slots.of(p).error is None
            &&& app.slots.of(p).updated is None
            &&& !app.settled
            &&& app.interval_secs == 60 * refresh_mins
            &&& interval_minutes(app.interval_secs as int) == refresh_mins
            &&& app.minimized <==> saved == Some(true)
        }),
{
}

/// The slot of a service is the one that bears its name.
pub proof fn law_slots_by_service(slots: Slots)
    ensures
        slots.of(Provider::Copilot) == slots.copilot,
        slots.of(Provider::Claude) == slots.claude,
        slots.of(Provider::Codex) == slots.codex,
{
}

/// A service that has not answered is as it was, whatever the others have answered; and answers
/// touch nothing but the slots.
pub proof fn law_silent_service_is_unchanged(app: App, updates: Seq<Update>, p: Provider)
    requires
        forall|i: int| 0 <= i < updates.len() ==> (#[trigger] updates[i]).provider != p,
    ensures
        app.drained(updates).slots.of(p) == app.slots.of(p),
        app.drained(updates).interval_secs == app.interval_secs,
        app.drained(updates).settled == app.settled,
        app.drained(updates).minimized == app.minimized,
    decreases updates.len(),
{
    if updates.len() > 0 {
        let rest = updates.drop_last();
        assert forall|i: int| 0 <= i < rest.len() implies (#[trigger] rest[i]).provider != p by {
            assert(rest[i] == updates[i]);
        }
        law_silent_service_is_unchanged(app, rest, p);
        assert(updates[updates.len() - 1] == updates.last());
    }
}

/// One answer is all that its service needs: the slot holds its time and no longer waits; a good one
/// replaces meters and error, and a bad one replaces the error alone.
pub proof fn law_answer_is_taken_in(app: App, u: Update)
    ensures
        ({
            let before = app.slots.of(u.provider);
            let slot = app.drained(seq![u]).slots.of(u.provider);
            &&& !slot.loading
            &&& slot.updated == Some(u.at)
            &&& slot.meters == if u.result is Ok {
                Some(u.result->Ok_0)
            } else {
                before.meters
            }
            &&& slot.error == if u.result is Ok {
                None
            } else {
                Some(u.result->Err_0)
            }
        }),
{
    assert(seq![u].drop_last() =~= seq![]);
    assert(app.slots.after_all(seq![u].drop_last()) == app.slots);
}

/// The last answer is the latest of the three services': none of theirs is later, and where none has
/// answered there is none.
pub proof fn law_latest_of_all_three(slots: Slots, t: Option<i64>)
    requires
        latest(slots, t),
    ensures
        t == slots.copilot.updated || t == slots.claude.updated || t == slots.codex.updated,
        slots.copilot.updated matches Some(s) ==> t is Some && s <= t->0,
        slots.claude.updated matches Some(s) ==> t is Some && s <= t->0,
        slots.codex.updated matches Some(s) ==> t is Some && s <= t->0,
{
    assert(slots.of(Provider::Copilot) == slots.copilot);
    assert(slots.of(Provider::Claude) == slots.claude);
    assert(slots.of(Provider::Codex) == slots.codex);
}

/// A choice is carried out as it was made: the page of the chosen service opens, the chosen size is
/// set, Quit closes; and no page opens, no size is set and nothing closes without its choice. The
/// services are asked again if and only if the button or the menu says so.
pub proof fn law_choice_is_carried_out(input: FrameInput, p: Provider, percent: u32)
    ensures
        ({
            let outcome = frame_outcome(input);
            &&& outcome.request == Some(Request::OpenPage(p)) <==> input.action == Some(
                MenuAction::Open(p),
            )
            &&& outcome.request == Some(Request::Zoom(percent)) <==> input.action == Some(
                MenuAction::Size(percent),
            )
            &&& outcome.request == Some(Request::Close) <==> input.action == Some(MenuAction::Quit)
            &&& outcome.refresh <==> input.refresh_clicked || input.action == Some(
                MenuAction::Refresh,
            )
        }),
{
}

/// The window follows its content if and only if the size is off by more than one and a half (by the
/// pattern of that double); what is no number moves nothing.
pub proof fn law_window_follows_content(input: FrameInput)
    ensures
        frame_outcome(input).resize <==> (Double { bits: 0x3FF8_0000_0000_0000 }).below(
            input.size_change,
        ),
{
    crate::double::law_thresholds();
}

/// A frame changes the view if and only if that was chosen, unsettles the window if and only if it
/// resizes it, and makes every service awaited if and only if it refreshes. It changes nothing else.
pub proof fn law_frame_changes_what_was_asked(app: App, input: FrameInput, p: Provider)
    ensures
        ({
            let after = app.after_frame(input);
            let outcome = frame_outcome(input);
            &&& after.minimized != app.minimized <==> input.action == Some(
                MenuAction::ToggleMinimized,
            )
            &&& after.settled <==> app.settled && !outcome.resize
            &&& after.interval_secs == app.interval_secs
            &&& after.slots.of(p).loading <==> app.slots.of(p).loading || outcome.refresh
            &&& after.slots.of(p).meters == app.slots.of(p).meters
            &&& after.slots.of(p).error == app.slots.of(p).error
            &&& after.slots.of(p).updated == app.slots.of(p).updated
        }),
{
}

/// Asking the services again marks each as awaited and changes nothing else.
pub proof fn law_refresh_changes_only_the_wait(app: App, p: Provider)
    ensures
        app.awaiting().slots.of(p).loading,
        app.awaiting().slots.of(p).meters == app.slots.of(p).meters,
        app.awaiting().slots.of(p).error == app.slots.of(p).error,
        app.awaiting().slots.of(p).updated == app.slots.of(p).updated,
        app.awaiting().interval_secs == app.interval_secs,
        app.awaiting().settled == app.settled,
        app.awaiting().minimized == app.minimized,
{
}

/// A window is tried again exactly while it is hidden, and settling it changes nothing else.
pub proof fn law_settling_is_retried(app: App, probe: WindowProbe)
    ensures
        ({
            let after = app.after_settling(settling(probe).settled);
            &&& after.unsettled() <==> probe == WindowProbe::Hidden
            &&& after.settled <==> probe != WindowProbe::Hidden
            &&& after.slots == app.slots
            &&& after.interval_secs == app.interval_secs
            &&& after.minimized == app.minimized
        }),
{
}

/// The full card has a fixed width and the same margin all round; the compact line is as wide as its
/// content, and its margins are smaller in both directions.
pub proof fn law_views_have_their_layouts()
    ensures
        view_layout(false).fixed_width == Some(250u32),
        view_layout(false).margin_x == view_layout(false).margin_y == 12,
        view_layout(true).fixed_width is None,
        0 < view_layout(true).margin_x < view_layout(false).margin_x,
        0 < view_layout(true).margin_y < view_layout(false).margin_y,
        view_layout(true).margin_x == 10,
        view_layout(true).margin_y == 6,
{
}

/// Choosing the view twice gives back the first one.
pub proof fn law_view_toggles(app: App, a: FrameInput, b: FrameInput)
    requires
        a.action == Some(MenuAction::ToggleMinimized),
        b.action == Some(MenuAction::ToggleMinimized),
    ensures
        app.after_frame(a).minimized != app.minimized,
        app.after_frame(a).after_frame(b).minimized == app.minimized,
{
}

/// A window that is settled stays so until it changes its size, and is settled anew after that.
pub proof fn law_resize_unsettles(app: App, input: FrameInput)
    ensures
        app.after_frame(input).settled <==> app.settled && !frame_outcome(input).resize,
{
}

/// Every choice but those of the refresh and of the view leaves the state as it is.
pub proof fn law_requests_change_nothing(app: App, input: FrameInput)
    requires
        frame_outcome(input).request is Some,
        !frame_outcome(input).resize,
        !input.refresh_clicked,
    ensures
        app.after_frame(input) == app,
{
}

} // verus!
