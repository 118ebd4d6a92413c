//! The right-click menu: what it lists, and what a choice from it means.
//!
//! Windows shows a native popup menu, whose entries carry a number each; elsewhere the same
//! choices are buttons.

use vstd::prelude::*;

use crate::double::{Double, HUNDREDTH};
use crate::providers::{all_providers, Names, Provider};
use crate::text::{decimal, decimal_text, is_digit, number_value, unsigned_part};

verus! {

/// What a choice from the menu does.
#[derive(Clone, Copy, Debug, PartialEq, Eq, Structural)]
pub enum MenuAction {
    Refresh,
    ToggleMinimized,
    Open(Provider),
    /// Scale the widget, in percent of its size.
    Size(u32),
    Quit,
}

/// Menu flag: an entry with a text.
pub const MF_STRING: u32 = 0x0;

/// Menu flag: the entry cannot be chosen.
pub const MF_GRAYED: u32 = 0x1;

/// Menu flag: the entry has a check mark.
pub const MF_CHECKED: u32 = 0x8;

/// Menu flag: the entry opens a menu.
pub const MF_POPUP: u32 = 0x10;

/// Menu flag: a line between entries.
pub const MF_SEPARATOR: u32 = 0x800;

/// The number of the entry that refreshes.
pub const ID_REFRESH: usize = 1;

/// The number of the entry that quits.
pub const ID_QUIT: usize = 2;

/// The number of the entry that changes the view.
pub const ID_MINIMIZE: usize = 3;

/// The number of the first entry that opens a usage page.
pub const ID_OPEN: usize = 10;

/// The number of the first entry of the size menu.
pub const ID_SIZE: usize = 100;

/// The sizes to choose from, in percent. They apply on top of the monitor's display scaling.
pub open spec fn size_presets() -> Seq<u32> {
    seq![25, 50, 67, 75, 100, 125, 150, 200]
}

/// The sizes to choose from, in percent.
pub fn sizes() -> (list: Vec<u32>)
    ensures
        list@ == size_presets(),
{
    let list: Vec<u32> = vec![25, 50, 67, 75, 100, 125, 150, 200];
    assert(list@ =~= size_presets());
    list
}

/// The label of the entry that changes the view.
pub open spec fn minimize_text(minimized: bool) -> Seq<char> {
    if minimized {
        "Maximize"@
    } else {
        "Minimize"@
    }
}

/// The label of the entry that changes the view.
pub fn minimize_label(minimized: bool) -> (label: &'static str)
    ensures
        label@ == minimize_text(minimized),
{
    if minimized {
        "Maximize"
    } else {
        "Minimize"
    }
}

/// The label of a service's usage page.
pub open spec fn open_text(name: Seq<char>) -> Seq<char> {
    "Open "@ + name + " usage"@
}

fn open_label(name: &str) -> (label: String)
    ensures
        label@ == open_text(name@),
{
    "Open ".to_owned().concat(name).concat(" usage")
}

/// A size as a label.
pub open spec fn percent_text(percent: u32) -> Seq<char> {
    decimal_text(percent as nat) + "%"@
}

fn percent_label(percent: u32) -> (label: String)
    ensures
        label@ == percent_text(percent),
{
    decimal(percent as u64).concat("%")
}

/// True of the size that is in use: its distance from the zoom factor is below a hundredth.
pub open spec fn in_use(distance: Double) -> bool {
    distance.below(Double { bits: HUNDREDTH })
}

/// An entry of the native menu.
#[derive(Debug)]
pub enum NativeEntry {
    /// An entry, or a separator, with its flags, its number and its text.
    Item { flags: u32, id: usize, text: String },
    /// The entry that opens the size menu; its number is the handle of that menu.
    Sizes { flags: u32, text: String },
}

/// An entry of the native menu, by its contents.
pub enum NativeEntryView {
    Item { flags: u32, id: usize, text: Seq<char> },
    Sizes { flags: u32, text: Seq<char> },
}

impl View for NativeEntry {
    type V = NativeEntryView;

    open spec fn view(&self) -> NativeEntryView {
        match self {
            NativeEntry::Item { flags, id, text } => NativeEntryView::Item {
                flags: *flags,
                id: *id,
                text: text@,
            },
            NativeEntry::Sizes { flags, text } => NativeEntryView::Sizes {
                flags: *flags,
                text: text@,
            },
        }
    }
}

/// Entries of the native menu, by their contents.
pub open spec fn native_views(entries: Seq<NativeEntry>) -> Seq<NativeEntryView> {
    entries.map_values(|e: NativeEntry| e@)
}

/// The native menu and its size menu.
#[derive(Debug)]
pub struct NativeMenu {
    pub entries: Vec<NativeEntry>,
    pub sizes: Vec<NativeEntry>,
}

/// An entry with a text.
pub open spec fn native_item(flags: u32, id: usize, text: Seq<char>) -> NativeEntryView {
    NativeEntryView::Item { flags, id, text }
}

/// A line between entries.
pub open spec fn native_separator() -> NativeEntryView {
    native_item(0x800, 0, ""@)
}

/// The entries of the native menu, from the top.
pub open spec fn native_entries(names: Names, refresh_mins: u64, minimized: bool) -> Seq<
    NativeEntryView,
> {
    seq![
        native_item(0x0, 1, "Refresh now"@),
        native_item(0x0, 3, minimize_text(minimized)),
        native_separator(),
        native_item(0x0, 10, open_text(names.of(all_providers()[0]))),
        native_item(0x0, 11, open_text(names.of(all_providers()[1]))),
        native_item(0x0, 12, open_text(names.of(all_providers()[2]))),
        native_separator(),
        NativeEntryView::Sizes { flags: 0x10, text: "Size"@ },
        native_separator(),
        native_item(
            0x1,
            0,
            "Refreshes every "@ + decimal_text(refresh_mins as nat) + " min"@,
        ),
        native_item(0x0, 2, "Quit"@),
    ]
}

/// The entries of the native size menu: a check mark stands at the size in use.
pub open spec fn native_sizes(distances: Seq<Double>) -> Seq<NativeEntryView> {
    Seq::new(
        size_presets().len(),
        |i: int|
            native_item(
                if in_use(distances[i]) {
                    0x8
                } else {
                    0x0
                },
                (100 + i) as usize,
                percent_text(size_presets()[i]),
            ),
    )
}

fn append(entries: &mut Vec<NativeEntry>, flags: u32, id: usize, text: &str)
    ensures
        native_views(final(entries)@) == native_views(old(entries)@).push(
            native_item(flags, id, text@),
        ),
{
    entries.push(NativeEntry::Item { flags, id, text: text.to_owned() });
    assert(native_views(entries@) =~= native_views(old(entries)@).push(
        native_item(flags, id, text@),
    ));
}

/// The right-click menu as a native popup, which is not clipped to the window. `distances` are
/// the distances of the zoom factor from each size.
pub fn native_menu(
    names: &Names,
    distances: &Vec<Double>,
    refresh_mins: u64,
    minimized: bool,
) -> (menu: NativeMenu)
    requires
        distances@.len() == size_presets().len(),
    ensures
        native_views(menu.entries@) == native_entries(*names, refresh_mins, minimized),
        native_views(menu.sizes@) == native_sizes(distances@),
{
    let note = "Refreshes every ".to_owned().concat(decimal(refresh_mins).as_str()).concat(" min");
    proof {
        assert(0x0u32 | 0x1u32 == 0x1u32) by (bit_vector);
        assert(0x0u32 | 0x8u32 == 0x8u32) by (bit_vector);
        assert(0x0u32 | 0x0u32 == 0x0u32) by (bit_vector);
    }
    let ghost all_entries = native_entries(*names, refresh_mins, minimized);
    let mut entries: Vec<NativeEntry> = Vec::new();
    append(&mut entries, MF_STRING, ID_REFRESH, "Refresh now");
    append(&mut entries, MF_STRING, ID_MINIMIZE, minimize_label(minimized));
    append(&mut entries, MF_SEPARATOR, 0, "");
    assert(native_views(entries@) =~= all_entries.take(3));
    let all = Provider::all();
    for i in 0..all.len()
        invariant
            all@ == all_providers(),
            all_entries == native_entries(*names, refresh_mins, minimized),
            native_views(entries@) == all_entries.take(3 + i),
    {
        append(&mut entries, MF_STRING, ID_OPEN + i, open_label(names.get(all[i])).as_str());
        assert(i == 0 || i == 1 || i == 2);
        assert(all_entries[3 + i] == native_item(
            0x0,
            (10 + i) as usize,
            open_text(names.of(all_providers()[i as int])),
        ));
        assert(native_views(entries@) =~= all_entries.take(3 + i + 1));
    }
    append(&mut entries, MF_SEPARATOR, 0, "");
    let presets = self::sizes();
    let mut sizes: Vec<NativeEntry> = Vec::new();
    assert(native_views(sizes@) =~= native_sizes(distances@).take(0));
    for i in 0..presets.len()
        invariant
            presets@ == size_presets(),
            distances@.len() == size_presets().len(),
            native_views(sizes@) == native_sizes(distances@).take(i as int),
            0x0u32 | 0x8u32 == 0x8u32,
            0x0u32 | 0x0u32 == 0x0u32,
    {
        let checked: u32 = if distances[i].less_than(Double { bits: HUNDREDTH }) {
            MF_CHECKED
        } else {
            0
        };
        append(&mut sizes, MF_STRING | checked, ID_SIZE + i, percent_label(presets[i]).as_str());
        assert(native_views(sizes@) =~= native_sizes(distances@).take(i + 1));
    }
    assert(native_sizes(distances@).take(presets@.len() as int) =~= native_sizes(distances@));
    let ghost before = native_views(entries@);
    entries.push(NativeEntry::Sizes { flags: MF_POPUP, text: "Size".to_owned() });
    assert(native_views(entries@) =~= before.push(all_entries[7]));
    append(&mut entries, MF_SEPARATOR, 0, "");
    append(&mut entries, MF_STRING | MF_GRAYED, 0, note.as_str());
    append(&mut entries, MF_STRING, ID_QUIT, "Quit");
    assert(native_views(entries@) =~= all_entries);
    NativeMenu { entries, sizes }
}

/// What the number of a native entry means; zero is what the system returns when the menu is
/// dismissed.
pub open spec fn id_action(id: int) -> Option<MenuAction> {
    if id == 1 {
        Some(MenuAction::Refresh)
    } else if id == 3 {
        Some(MenuAction::ToggleMinimized)
    } else if id == 2 {
        Some(MenuAction::Quit)
    } else if 10 <= id < 10 + all_providers().len() {
        Some(MenuAction::Open(all_providers()[id - 10]))
    } else if 100 <= id < 100 + size_presets().len() {
        Some(MenuAction::Size(size_presets()[id - 100]))
    } else {
        None
    }
}

/// The action that was chosen from the native menu.
pub fn native_action(id: usize) -> (action: Option<MenuAction>)
    ensures
        action == id_action(id as int),
{
    let all = Provider::all();
    let presets = self::sizes();
    if id == ID_REFRESH {
        Some(MenuAction::Refresh)
    } else if id == ID_MINIMIZE {
        Some(MenuAction::ToggleMinimized)
    } else if id == ID_QUIT {
        Some(MenuAction::Quit)
    } else if ID_OPEN <= id && id < ID_OPEN + all.len() {
        Some(MenuAction::Open(all[id - ID_OPEN]))
    } else if ID_SIZE <= id && id < ID_SIZE + presets.len() {
        Some(MenuAction::Size(presets[id - ID_SIZE]))
    } else {
        None
    }
}

/// An entry of the menu that is drawn in the window.
#[derive(Debug)]
pub enum EguiEntry {
    Button { text: String, action: MenuAction },
    Separator,
    /// The menu of sizes.
    Sizes { text: String },
    /// A line of text.
    Note { text: String },
}

/// An entry of the drawn menu, by its contents.
pub enum EguiEntryView {
    Button { text: Seq<char>, action: MenuAction },
    Separator,
    Sizes { text: Seq<char> },
    Note { text: Seq<char> },
}

impl View for EguiEntry {
    type V = EguiEntryView;

    open spec fn view(&self) -> EguiEntryView {
        match self {
            EguiEntry::Button { text, action } => EguiEntryView::Button {
                text: text@,
                action: *action,
            },
            EguiEntry::Separator => EguiEntryView::Separator,
            EguiEntry::Sizes { text } => EguiEntryView::Sizes { text: text@ },
            EguiEntry::Note { text } => EguiEntryView::Note { text: text@ },
        }
    }
}

/// A size in the drawn menu.
#[derive(Debug)]
pub struct Radio {
    pub text: String,
    pub selected: bool,
    pub action: MenuAction,
}

/// A size in the drawn menu, by its contents.
pub struct RadioView {
    pub text: Seq<char>,
    pub selected: bool,
    pub action: MenuAction,
}

impl View for Radio {
    type V = RadioView;

    open spec fn view(&self) -> RadioView {
        RadioView { text: self.text@, selected: self.selected, action: self.action }
    }
}

/// Entries of the drawn menu, by their contents.
pub open spec fn egui_views(entries: Seq<EguiEntry>) -> Seq<EguiEntryView> {
    entries.map_values(|e: EguiEntry| e@)
}

/// Sizes of the drawn menu, by their contents.
pub open spec fn radio_views(sizes: Seq<Radio>) -> Seq<RadioView> {
    sizes.map_values(|r: Radio| r@)
}

/// The drawn menu and its sizes.
#[derive(Debug)]
pub struct EguiMenu {
    pub entries: Vec<EguiEntry>,
    pub sizes: Vec<Radio>,
}

/// A button of the drawn menu.
pub open spec fn egui_button(text: Seq<char>, action: MenuAction) -> EguiEntryView {
    EguiEntryView::Button { text, action }
}

/// The entries of the drawn menu, from the top.
pub open spec fn egui_entries(names: Names, refresh_mins: u64, minimized: bool) -> Seq<
    EguiEntryView,
> {
    seq![
        egui_button("Refresh now"@, MenuAction::Refresh),
        egui_button(minimize_text(minimized), MenuAction::ToggleMinimized),
        EguiEntryView::Separator,
        egui_button(open_text(names.of(all_providers()[0])), MenuAction::Open(all_providers()[0])),
        egui_button(open_text(names.of(all_providers()[1])), MenuAction::Open(all_providers()[1])),
        egui_button(open_text(names.of(all_providers()[2])), MenuAction::Open(all_providers()[2])),
        EguiEntryView::Separator,
        EguiEntryView::Sizes { text: "Size"@ },
        EguiEntryView::Separator,
        EguiEntryView::Note {
            text: "refreshes every "@ + decimal_text(refresh_mins as nat) + " min"@,
        },
        egui_button("Quit"@, MenuAction::Quit),
    ]
}

/// The sizes of the drawn menu: the one in use is selected.
pub open spec fn egui_sizes(distances: Seq<Double>) -> Seq<RadioView> {
    Seq::new(
        size_presets().len(),
        |i: int|
            RadioView {
                text: percent_text(size_presets()[i]),
                selected: in_use(distances[i]),
                action: MenuAction::Size(size_presets()[i]),
            },
    )
}

fn append_entry(entries: &mut Vec<EguiEntry>, e: EguiEntry)
    ensures
        egui_views(final(entries)@) == egui_views(old(entries)@).push(e@),
{
    entries.push(e);
    assert(egui_views(entries@) =~= egui_views(old(entries)@).push(e@));
}

fn append_radio(sizes: &mut Vec<Radio>, r: Radio)
    ensures
        radio_views(final(sizes)@) == radio_views(old(sizes)@).push(r@),
{
    sizes.push(r);
    assert(radio_views(sizes@) =~= radio_views(old(sizes)@).push(r@));
}

fn button(text: &str, action: MenuAction) -> (e: EguiEntry)
    ensures
        e@ == egui_button(text@, action),
{
    EguiEntry::Button { text: text.to_owned(), action }
}

/// The right-click menu where there is no native one. `distances` are the distances of the zoom
/// factor from each size.
pub fn egui_menu(
    names: &Names,
    distances: &Vec<Double>,
    refresh_mins: u64,
    minimized: bool,
) -> (menu: EguiMenu)
    requires
        distances@.len() == size_presets().len(),
    ensures
        egui_views(menu.entries@) == egui_entries(*names, refresh_mins, minimized),
        radio_views(menu.sizes@) == egui_sizes(distances@),
{
    let ghost all_entries = egui_entries(*names, refresh_mins, minimized);
    let mut entries: Vec<EguiEntry> = Vec::new();
    append_entry(&mut entries, button("Refresh now", MenuAction::Refresh));
    append_entry(&mut entries, button(minimize_label(minimized), MenuAction::ToggleMinimized));
    append_entry(&mut entries, EguiEntry::Separator);
    assert(egui_views(entries@) =~= all_entries.take(3));
    let all = Provider::all();
    for i in 0..all.len()
        invariant
            all@ == all_providers(),
            all_entries == egui_entries(*names, refresh_mins, minimized),
            egui_views(entries@) == all_entries.take(3 + i),
    {
        let p = all[i];
        append_entry(&mut entries, button(open_label(names.get(p)).as_str(), MenuAction::Open(p)));
        assert(i == 0 || i == 1 || i == 2);
        assert(all_entries[3 + i] == egui_button(open_text(names.of(p)), MenuAction::Open(p)));
        assert(egui_views(entries@) =~= all_entries.take(3 + i + 1));
    }
    append_entry(&mut entries, EguiEntry::Separator);
    let presets = self::sizes();
    let mut sizes: Vec<Radio> = Vec::new();
    assert(radio_views(sizes@) =~= egui_sizes(distances@).take(0));
    for i in 0..presets.len()
        invariant
            presets@ == size_presets(),
            distances@.len() == size_presets().len(),
            radio_views(sizes@) == egui_sizes(distances@).take(i as int),
    {
        let text = percent_label(presets[i]);
        let selected = distances[i].less_than(Double { bits: HUNDREDTH });
        append_radio(&mut sizes, Radio { text, selected, action: MenuAction::Size(presets[i]) });
        assert(radio_views(sizes@) =~= egui_sizes(distances@).take(i + 1));
    }
    assert(egui_sizes(distances@).take(presets@.len() as int) =~= egui_sizes(distances@));
    let note = "refreshes every ".to_owned().concat(decimal(refresh_mins).as_str()).concat(" min");
    append_entry(&mut entries, EguiEntry::Sizes { text: "Size".to_owned() });
    append_entry(&mut entries, EguiEntry::Separator);
    append_entry(&mut entries, EguiEntry::Note { text: note });
    append_entry(&mut entries, button("Quit", MenuAction::Quit));
    assert(egui_views(entries@) =~= all_entries);
    EguiMenu { entries, sizes }
}

/// The choice that counts among those clicked.
pub open spec fn chosen(clicked: Seq<MenuAction>) -> Option<MenuAction> {
    if clicked.len() == 0 {
        None
    } else {
        Some(clicked.last())
    }
}

/// A click counts over all that came before it, and without a click nothing is chosen.
pub proof fn law_last_click_counts(clicked: Seq<MenuAction>, action: MenuAction)
    ensures
        chosen(clicked.push(action)) == Some(action),
        chosen(seq![]) is None,
{
}

/// The action of a frame in which these choices of the drawn menu were clicked: the last one.
pub fn egui_action(clicked: &Vec<MenuAction>) -> (action: Option<MenuAction>)
    ensures
        action == chosen(clicked@),
{
    if clicked.len() == 0 {
        None
    } else {
        Some(clicked[clicked.len() - 1])
    }
}

/// True of an entry of the native menu that can be chosen.
pub open spec fn choosable(e: NativeEntryView) -> bool {
    e matches NativeEntryView::Item { flags, .. } && (flags == 0x0 || flags == 0x8)
}

/// No two numbers of the native menu mean the same action.
pub proof fn law_numbers_name_one_action(a: int, b: int)
    requires
        id_action(a) is Some,
        id_action(a) == id_action(b),
    ensures
        a == b,
{
}

/// Every service's page and every size can be chosen, and so can the rest of the actions.
pub proof fn law_every_action_has_a_number(p: Provider, size: int)
    requires
        0 <= size < size_presets().len(),
    ensures
        exists|id: int| id_action(id) == Some(MenuAction::Open(p)),
        exists|id: int| id_action(id) == Some(MenuAction::Size(size_presets()[size])),
        exists|id: int| id_action(id) == Some(MenuAction::Refresh),
        exists|id: int| id_action(id) == Some(MenuAction::ToggleMinimized),
        exists|id: int| id_action(id) == Some(MenuAction::Quit),
{
    assert(all_providers()[0] == Provider::Copilot);
    assert(all_providers()[1] == Provider::Claude);
    assert(all_providers()[2] == Provider::Codex);
    assert(id_action(10) == Some(MenuAction::Open(Provider::Copilot)));
    assert(id_action(11) == Some(MenuAction::Open(Provider::Claude)));
    assert(id_action(12) == Some(MenuAction::Open(Provider::Codex)));
    assert(id_action(100 + size) == Some(MenuAction::Size(size_presets()[size])));
    assert(id_action(1) == Some(MenuAction::Refresh));
    assert(id_action(2) == Some(MenuAction::Quit));
    assert(id_action(3) == Some(MenuAction::ToggleMinimized));
}

/// What the menu calls an action other than a size.
pub open spec fn action_text(names: Names, minimized: bool, action: MenuAction) -> Seq<char> {
    match action {
        MenuAction::Refresh => "Refresh now"@,
        MenuAction::ToggleMinimized => if minimized {
            "Maximize"@
        } else {
            "Minimize"@
        },
        MenuAction::Open(p) => "Open "@ + names.of(p) + " usage"@,
        MenuAction::Size(_) => ""@,
        MenuAction::Quit => "Quit"@,
    }
}

/// True of an entry of the native menu that can be chosen for this action.
pub open spec fn native_offers(e: NativeEntryView, action: MenuAction) -> bool {
    &&& choosable(e)
    &&& e matches NativeEntryView::Item { id, .. } && id_action(id as int) == Some(action)
}

/// True of an entry of the drawn menu that stands for this action.
pub open spec fn egui_offers(e: EguiEntryView, action: MenuAction) -> bool {
    e matches EguiEntryView::Button { action: a, .. } && a == action
}

/// Whatever an entry does, it says so: it bears the name of its action, and a page that of its
/// service. No entry of the main menu sets a size.
pub proof fn law_entries_say_what_they_do(
    names: Names,
    refresh_mins: u64,
    minimized: bool,
    i: int,
    action: MenuAction,
)
    requires
        0 <= i < native_entries(names, refresh_mins, minimized).len(),
    ensures
        native_offers(native_entries(names, refresh_mins, minimized)[i], action) ==> {
            &&& native_entries(names, refresh_mins, minimized)[i]->Item_text == action_text(
                names,
                minimized,
                action,
            )
            &&& !(action is Size)
        },
        egui_offers(egui_entries(names, refresh_mins, minimized)[i], action) ==> {
            &&& egui_entries(names, refresh_mins, minimized)[i]->Button_text == action_text(
                names,
                minimized,
                action,
            )
            &&& !(action is Size)
        },
{
    law_menus_agree(names, refresh_mins, minimized, i);
    assert(i == 0 || i == 1 || i == 2 || i == 3 || i == 4 || i == 5 || i == 6 || i == 7 || i == 8
        || i == 9 || i == 10);
}

/// The place of an action in the main menu, from the top: refresh, view, the pages of the services in
/// their order between two lines, and Quit at the bottom.
pub open spec fn action_place(action: MenuAction) -> int {
    match action {
        MenuAction::Refresh => 0,
        MenuAction::ToggleMinimized => 1,
        MenuAction::Open(p) => 3 + all_providers().index_of(p),
        MenuAction::Size(_) => -1,
        MenuAction::Quit => 10,
    }
}

/// Both menus offer every action other than a size, each in one place.
pub proof fn law_every_action_has_one_place(
    names: Names,
    refresh_mins: u64,
    minimized: bool,
    i: int,
    action: MenuAction,
)
    requires
        0 <= i < native_entries(names, refresh_mins, minimized).len(),
        !(action is Size),
    ensures
        egui_offers(egui_entries(names, refresh_mins, minimized)[i], action) <==> i == action_place(
            action,
        ),
        native_offers(native_entries(names, refresh_mins, minimized)[i], action) <==> i
            == action_place(action),
{
    crate::providers::law_services_are_listed_once(Provider::Claude);
    assert(all_providers()[1] == Provider::Claude);
    law_menus_agree(names, refresh_mins, minimized, i);
    assert(i == 0 || i == 1 || i == 2 || i == 3 || i == 4 || i == 5 || i == 6 || i == 7 || i == 8
        || i == 9 || i == 10);
}

/// What no choice stands for is in its place too: lines below the view and around the sizes, the
/// sizes below the pages, and the interval, in minutes, which cannot be chosen, above Quit.
pub proof fn law_menu_tells_the_interval(names: Names, refresh_mins: u64, minimized: bool, i: int)
    requires
        0 <= i < native_entries(names, refresh_mins, minimized).len(),
    ensures
        ({
            let native = native_entries(names, refresh_mins, minimized);
            let drawn = egui_entries(names, refresh_mins, minimized);
            &&& native.len() == 11
            &&& drawn.len() == 11
            &&& drawn[i] is Separator <==> i == 2 || i == 6 || i == 8
            &&& drawn[i] is Separator <==> (native[i] matches NativeEntryView::Item {
                flags,
                ..
            } && flags == 0x800)
            &&& drawn[7] == (EguiEntryView::Sizes { text: "Size"@ })
            &&& native[7] == (NativeEntryView::Sizes { flags: 0x10, text: "Size"@ })
            &&& drawn[9] == (EguiEntryView::Note {
                text: "refreshes every "@ + decimal_text(refresh_mins as nat) + " min"@,
            })
            &&& native[9] matches NativeEntryView::Item { flags, id, text } && {
                &&& flags == 0x1
                &&& id_action(id as int) is None
                &&& text == "Refreshes every "@ + decimal_text(refresh_mins as nat) + " min"@
            }
        }),
{
    assert(i == 0 || i == 1 || i == 2 || i == 3 || i == 4 || i == 5 || i == 6 || i == 7 || i == 8
        || i == 9 || i == 10);
}

/// A number means something if and only if an entry of the native menu or of its size menu that can
/// be chosen has it. So a menu that is dismissed, which the system tells by a zero, does nothing.
pub proof fn law_only_entries_have_numbers(
    id: usize,
    names: Names,
    refresh_mins: u64,
    minimized: bool,
    distances: Seq<Double>,
)
    ensures
        id_action(id as int) is Some <==> {
            ||| exists|i: int|
                0 <= i < 11 && choosable(
                    #[trigger] native_entries(names, refresh_mins, minimized)[i],
                ) && native_entries(names, refresh_mins, minimized)[i]->Item_id == id
            ||| exists|i: int|
                0 <= i < 8 && #[trigger] native_sizes(distances)[i]->Item_id == id
        },
        id_action(0) is None,
{
    let native = native_entries(names, refresh_mins, minimized);
    let sizes = native_sizes(distances);
    assert(choosable(native[0]) && native[0]->Item_id == 1);
    assert(choosable(native[1]) && native[1]->Item_id == 3);
    assert(choosable(native[3]) && native[3]->Item_id == 10);
    assert(choosable(native[4]) && native[4]->Item_id == 11);
    assert(choosable(native[5]) && native[5]->Item_id == 12);
    assert(choosable(native[10]) && native[10]->Item_id == 2);
    assert(!choosable(native[2]) && !choosable(native[6]) && !choosable(native[7]) && !choosable(
        native[8],
    ) && !choosable(native[9]));
    assert(forall|i: int| 0 <= i < 8 ==> #[trigger] sizes[i]->Item_id == 100 + i);
    if 100 <= id < 108 {
        assert(sizes[id - 100]->Item_id == id);
    }
}

/// Each size is offered under its own number of percent, sets that size, and is marked if and only if
/// the zoom factor is less than a hundredth away from it (by the pattern of that number).
pub proof fn law_sizes_say_what_they_set(distances: Seq<Double>, i: int)
    requires
        0 <= i < 8,
    ensures
        egui_sizes(distances).len() == 8,
        native_sizes(distances).len() == 8,
        egui_sizes(distances)[i].action matches MenuAction::Size(percent) && {
            let text = egui_sizes(distances)[i].text;
            &&& percent == size_presets()[i]
            &&& text.last() == '%'
            &&& number_value(text.drop_last()) == Some(percent as nat)
        },
        egui_sizes(distances)[i].selected <==> distances[i].below(
            Double { bits: 0x3F84_7AE1_4000_0000 },
        ),
{
    let percent = size_presets()[i];
    reveal_strlit("%");
    assert(percent_text(percent).drop_last() =~= decimal_text(percent as nat));
    crate::text::law_decimal_has_no_leading_zero(percent as nat);
    let text = decimal_text(percent as nat);
    assert(is_digit(text[0]));
    assert(unsigned_part(text) == text);
}

/// Both menus offer the same choices in the same places: an entry can be chosen in the one where
/// it is a button in the other, under the same text, and its number means the button's action.
pub proof fn law_menus_agree(names: Names, refresh_mins: u64, minimized: bool, i: int)
    requires
        0 <= i < native_entries(names, refresh_mins, minimized).len(),
    ensures
        ({
            let native = native_entries(names, refresh_mins, minimized);
            let drawn = egui_entries(names, refresh_mins, minimized);
            &&& native.len() == drawn.len()
            &&& choosable(native[i]) <==> drawn[i] is Button
            &&& drawn[i] matches EguiEntryView::Button { text, action } ==> {
                &&& native[i] matches NativeEntryView::Item { id, text: native_text, .. }
                &&& native_text == text
                &&& id_action(id as int) == Some(action)
            }
        }),
{
    assert(i == 0 || i == 1 || i == 2 || i == 3 || i == 4 || i == 5 || i == 6 || i == 7 || i == 8
        || i == 9 || i == 10);
}

/// Both size menus list the same sizes, mark the same ones as in use, and mean the same by them.
pub proof fn law_size_menus_agree(distances: Seq<Double>, i: int)
    requires
        0 <= i < size_presets().len(),
    ensures
        native_sizes(distances)[i] matches NativeEntryView::Item { flags, id, text } && {
            let radio = egui_sizes(distances)[i];
            &&& text == radio.text
            &&& (flags == 0x8 <==> radio.selected)
            &&& (flags == 0x0 <==> !radio.selected)
            &&& id_action(id as int) == Some(radio.action)
        },
{
    assert(native_sizes(distances)[i] is Item);
}

/// At most one size is marked as in use, as long as the sizes lie so far apart that the distances
/// of a zoom factor from two of them add up to two hundredths or more.
pub proof fn law_one_size_in_use(distances: Seq<Double>, i: int, j: int)
    requires
        0 <= i < j < distances.len(),
        distances[i].units() + distances[j].units() >= 2 * (Double { bits: HUNDREDTH }).units(),
    ensures
        !(in_use(distances[i]) && in_use(distances[j])),
{
}

/// The sizes grow from a quarter to twice the size.
pub proof fn law_size_range(i: int, j: int)
    requires
        0 <= i < j < size_presets().len(),
    ensures
        25 <= size_presets()[i] < size_presets()[j] <= 200,
        size_presets()[0] == 25,
        size_presets().last() == 200,
        size_presets().contains(100),
{
    assert(size_presets()[4] == 100);
}

} // verus!
