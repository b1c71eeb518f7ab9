//! The dashboard: the list of Macs, the gallery of shared windows, the settings, and
//! what their controls do. The window and its controls belong to the caller, who
//! tells of events and performs the effects that come back, in order.
//!
//! Lengths are device-independent pixels, 96 to the inch. Times are nanoseconds on
//! the client's monotonic clock.

use vstd::prelude::*;
use std::collections::VecDeque;

use crate::connections::any_leads_there;
use crate::connections::connection_notes;
use crate::connections::leads_there;
use crate::connections::Connection;
use crate::connections::ConnectionNote;
use crate::text::lowercase;
use crate::text::owned;
use crate::text::parts_notes;
use crate::text::to_lower;
use crate::win::gallery::accessible_title;
use crate::win::gallery::card_notes;
use crate::win::gallery::spoken_title;
use crate::win::gallery::Card;
use crate::win::gallery::CardNote;
use crate::win::gallery::CARD_BASE;
use crate::win::gallery::CARD_COUNT;
use crate::win::input::quotient;
use crate::win::search::found_in;
use crate::win::search::index_notes;
use crate::win::search::matching;

verus! {

// The controls.
pub const CONNECT: usize = 1;

pub const NAV_CONNECTIONS: usize = 10;

pub const NAV_APPS: usize = 11;

pub const NAV_SETTINGS: usize = 13;

pub const SEARCH: usize = 30;

pub const SORT: usize = 31;

pub const GRID: usize = 32;

pub const LIST: usize = 33;

pub const PREVIOUS: usize = 40;

pub const NEXT: usize = 41;

pub const HOST: usize = 50;

pub const CONTROL: usize = 51;

pub const VIDEO: usize = 52;

pub const MANUAL: usize = 53;

pub const UPDATE: usize = 54;

pub const REFRESH: usize = 55;

pub const FORGET: usize = 56;

pub const ADD_MAC: usize = 57;

pub const MINIMIZE: usize = 60;

pub const MAXIMIZE: usize = 61;

pub const CLOSE: usize = 62;

pub const CARD_MENU_BASE: usize = 2000;

pub const MAC_BASE: usize = 3000;

/// The width of the navigation at the left.
pub const SIDEBAR: i32 = 236;

/// Notifications of controls: a click, and a change of a text.
pub const CLICKED: usize = 0;

pub const CHANGED: usize = 0x0300;

/// The time between two scans.
pub const SCAN_PAUSE: u64 = 8_000_000_000;

/// Previews are refreshed no more often than this.
pub const PREVIEW_PAUSE: u64 = 250_000_000;

/// The largest extent of the client area that can be laid out.
pub const MAX_EXTENT: i32 = 2_147_000_000;

/// What the user asked for.
#[derive(Debug)]
pub enum Action {
    Connect(Connection),
    Disconnect,
    OpenWindow(u64),
    HideWindow(u64),
}

/// What an [`Action`] says.
pub enum ActionNote {
    Connect(ConnectionNote),
    Disconnect,
    OpenWindow(u64),
    HideWindow(u64),
}

/// A command of the window's own menu.
#[derive(Debug, Clone, Copy, PartialEq, Eq, Structural)]
pub enum SystemCommand {
    Minimize,
    Maximize,
    Restore,
    Close,
}

/// What the caller has to do.
#[derive(Debug)]
pub enum Effect {
    /// Show a control at a place, or hide it.
    Place { id: usize, x: i32, y: i32, w: i32, h: i32, visible: bool },
    SetText { id: usize, text: String },
    Enable { id: usize, on: bool },
    /// Put a control above its siblings.
    Raise { id: usize },
    /// Draw the window again.
    Invalidate,
    /// Scan the network, away from this thread.
    StartScan,
    /// Write the saved connections, and report a failure.
    Save,
    /// Write the saved connections, and report how it went.
    SaveForgotten,
    Focus { id: usize },
    OpenCardMenu { slot: usize },
    OpenSortMenu,
    System { command: SystemCommand },
    /// Start the updater, and report how it went.
    CheckForUpdates,
    /// Press the manual connection's button.
    PressManual,
}

/// What an [`Effect`] says.
pub enum EffectNote {
    Place { id: usize, x: int, y: int, w: int, h: int, visible: bool },
    SetText { id: usize, text: Seq<char> },
    Enable { id: usize, on: bool },
    Raise { id: usize },
    Invalidate,
    StartScan,
    Save,
    SaveForgotten,
    Focus { id: usize },
    OpenCardMenu { slot: usize },
    OpenSortMenu,
    System { command: SystemCommand },
    CheckForUpdates,
    PressManual,
}

pub struct Dashboard {
    pub extent: Option<(i32, i32)>,
    pub actions: VecDeque<Action>,
    pub saved: Vec<Connection>,
    pub nearby: Vec<Connection>,
    pub rows: Vec<Connection>,
    pub selected_device: usize,
    pub scanning: bool,
    pub next_scan: u64,
    pub active: bool,
    pub connected: bool,
    pub status: String,
    pub discovery: String,
    pub cards: Vec<Card>,
    pub visible: Vec<usize>,
    pub page: usize,
    pub page_size: usize,
    pub query: String,
    pub view: usize,
    pub list: bool,
    pub sort_name: bool,
    pub previewed_at: Option<u64>,
}

/// What a [`Dashboard`] holds.
pub struct DashboardNote {
    /// The client area, once there is a window.
    pub extent: Option<(int, int)>,
    /// What the user asked for and nobody has taken yet.
    pub actions: Seq<ActionNote>,
    pub saved: Seq<ConnectionNote>,
    pub nearby: Seq<ConnectionNote>,
    pub rows: Seq<ConnectionNote>,
    pub selected_device: int,
    pub scanning: bool,
    pub next_scan: u64,
    pub active: bool,
    pub connected: bool,
    pub status: Seq<char>,
    pub discovery: Seq<char>,
    pub cards: Seq<CardNote>,
    /// Which cards or rows are on this page.
    pub visible: Seq<int>,
    pub page: int,
    pub page_size: int,
    pub query: Seq<char>,
    /// Which of the three views is shown, by its navigation control.
    pub view: usize,
    pub list: bool,
    pub sort_name: bool,
    pub previewed_at: Option<u64>,
}

impl Action {
    pub open spec fn view(&self) -> ActionNote {
        match self {
            Action::Connect(c) => ActionNote::Connect(c@),
            Action::Disconnect => ActionNote::Disconnect,
            Action::OpenWindow(id) => ActionNote::OpenWindow(*id),
            Action::HideWindow(id) => ActionNote::HideWindow(*id),
        }
    }
}

impl Effect {
    pub open spec fn view(&self) -> EffectNote {
        match self {
            Effect::Place { id, x, y, w, h, visible } => EffectNote::Place {
                id: *id,
                x: *x as int,
                y: *y as int,
                w: *w as int,
                h: *h as int,
                visible: *visible,
            },
            Effect::SetText { id, text } => EffectNote::SetText { id: *id, text: text@ },
            Effect::Enable { id, on } => EffectNote::Enable { id: *id, on: *on },
            Effect::Raise { id } => EffectNote::Raise { id: *id },
            Effect::Invalidate => EffectNote::Invalidate,
            Effect::StartScan => EffectNote::StartScan,
            Effect::Save => EffectNote::Save,
            Effect::SaveForgotten => EffectNote::SaveForgotten,
            Effect::Focus { id } => EffectNote::Focus { id: *id },
            Effect::OpenCardMenu { slot } => EffectNote::OpenCardMenu { slot: *slot },
            Effect::OpenSortMenu => EffectNote::OpenSortMenu,
            Effect::System { command } => EffectNote::System { command: *command },
            Effect::CheckForUpdates => EffectNote::CheckForUpdates,
            Effect::PressManual => EffectNote::PressManual,
        }
    }
}

pub open spec fn action_notes(actions: Seq<Action>) -> Seq<ActionNote> {
    Seq::new(actions.len(), |i: int| actions[i]@)
}

pub open spec fn effect_notes(effects: Seq<Effect>) -> Seq<EffectNote> {
    Seq::new(effects.len(), |i: int| effects[i]@)
}

// ---------------------------------------------------------------------------
// Pages
// ---------------------------------------------------------------------------

/// The titles of the cards, as they are searched and sorted.
pub open spec fn search_keys(cards: Seq<CardNote>) -> Seq<Seq<char>> {
    Seq::new(cards.len(), |i: int| lowercase(cards[i].window.title))
}

/// The numbers below `n`.
pub open spec fn first_numbers(n: int) -> Seq<int> {
    Seq::new(n as nat, |i: int| i)
}

/// The last page of `len` items.
pub open spec fn last_page(len: int, page_size: int) -> int {
    if len == 0 {
        0
    } else {
        (len - 1) / page_size
    }
}

/// The items of a page.
pub open spec fn page_of(items: Seq<int>, page: int, page_size: int) -> Seq<int> {
    let from = page * page_size;
    let to = if from + page_size > items.len() {
        items.len() as int
    } else {
        from + page_size
    };
    items.subrange(from, to)
}

/// `n` kept between `low` and `high`.
pub open spec fn between(n: int, low: int, high: int) -> int {
    if n < low {
        low
    } else if n > high {
        high
    } else {
        n
    }
}

impl DashboardNote {
    /// The cards that are shown for the query.
    pub open spec fn matches(self) -> Seq<int> {
        found_in(search_keys(self.cards), self.query, self.sort_name)
    }

    /// The Mac that is selected.
    pub open spec fn selected(self) -> Option<ConnectionNote> {
        if 0 <= self.selected_device < self.rows.len() {
            Some(self.rows[self.selected_device])
        } else {
            None
        }
    }

    /// What the pages of this view are made of.
    pub open spec fn items(self) -> Seq<int> {
        if self.view == NAV_CONNECTIONS {
            first_numbers(self.rows.len() as int)
        } else {
            self.matches()
        }
    }

    /// How many columns of cards fit.
    pub open spec fn columns(self, w: int) -> int {
        between(quotient(w - SIDEBAR - 30, 274), 1, 4)
    }

    /// How many items fit on a page.
    pub open spec fn page_room(self, w: int, h: int) -> int {
        if self.view == NAV_CONNECTIONS {
            between(quotient(h - 410, 88), 1, CARD_COUNT as int)
        } else if self.list {
            between(quotient(h - 422, 84), 1, 12)
        } else {
            let room = self.columns(w) * between(quotient(h - 348 - 62, 204), 1, 3);
            if room > CARD_COUNT {
                CARD_COUNT as int
            } else {
                room
            }
        }
    }

    /// The dashboard once its page fits the client area.
    pub open spec fn laid_out(self) -> DashboardNote {
        match self.extent {
            None => self,
            Some((w, h)) => {
                let page_size = self.page_room(w, h);
                let items = self.items();
                let last = last_page(items.len() as int, page_size);
                let page = if self.page > last {
                    last
                } else {
                    self.page
                };
                DashboardNote {
                    page_size,
                    page,
                    visible: page_of(items, page, page_size),
                    ..self
                }
            },
        }
    }
}

// ---------------------------------------------------------------------------
// The layout
// ---------------------------------------------------------------------------

pub open spec fn place_note(id: usize, x: int, y: int, w: int, h: int, visible: bool) -> EffectNote {
    EffectNote::Place { id, x, y, w, h, visible }
}

/// A control that is not shown.
pub open spec fn hidden(id: usize) -> EffectNote {
    place_note(id, 0, 0, 1, 1, false)
}

pub open spec fn lesser(a: int, b: int) -> int {
    if a <= b {
        a
    } else {
        b
    }
}

impl DashboardNote {
    /// The width of a card in a grid.
    pub open spec fn card_width(self, w: int) -> int {
        let cols = self.columns(w);
        quotient(w - SIDEBAR - 18 - (cols - 1) * 16, cols)
    }

    /// Whether the slot shows a card.
    pub open spec fn shows_card(self, slot: int) -> bool {
        self.view == NAV_APPS && slot < self.visible.len()
    }

    /// Whether the slot shows a Mac.
    pub open spec fn shows_mac(self, slot: int) -> bool {
        self.view == NAV_CONNECTIONS && slot < self.visible.len()
    }

    /// The card of a slot.
    pub open spec fn card_effects(self, w: int, slot: int) -> Seq<EffectNote> {
        let id = (CARD_BASE + slot) as usize;
        let cols = self.columns(w);
        let cw = self.card_width(w);
        if self.shows_card(slot) {
            seq![
                EffectNote::SetText { id, text: spoken_title(self.cards[self.visible[slot]]) },
                if self.list {
                    place_note(id, SIDEBAR + 2, 348 + slot * 84, w - SIDEBAR - 18, 72, true)
                } else {
                    place_note(
                        id,
                        SIDEBAR + 2 + slot % cols * (cw + 16),
                        348 + slot / cols * 204,
                        cw,
                        188,
                        true,
                    )
                },
            ]
        } else {
            seq![hidden(id)]
        }
    }

    /// The options button of a slot's card, above the card.
    pub open spec fn menu_effects(self, w: int, slot: int) -> Seq<EffectNote> {
        let id = (CARD_MENU_BASE + slot) as usize;
        let cols = self.columns(w);
        let cw = self.card_width(w);
        if self.shows_card(slot) {
            seq![
                EffectNote::SetText {
                    id,
                    text: "Options for "@ + self.cards[self.visible[slot]].window.title,
                },
                EffectNote::Raise { id },
                if self.list {
                    place_note(id, w - 65, 365 + slot * 84, 34, 32, true)
                } else {
                    place_note(
                        id,
                        SIDEBAR + 2 + slot % cols * (cw + 16) + cw - 44,
                        348 + slot / cols * 204 + 148,
                        32,
                        30,
                        true,
                    )
                },
            ]
        } else {
            seq![hidden(id)]
        }
    }

    /// The Mac of a slot.
    pub open spec fn mac_effects(self, w: int, slot: int) -> Seq<EffectNote> {
        let id = (MAC_BASE + slot) as usize;
        if self.shows_mac(slot) {
            let row = self.rows[self.visible[slot]];
            seq![
                EffectNote::SetText { id, text: "Select "@ + row.name + " ("@ + row.host + ")"@ },
                place_note(id, 246, 348 + slot * 88, w - 274, 76, true),
                EffectNote::Enable { id, on: !self.active },
            ]
        } else {
            seq![hidden(id)]
        }
    }

    pub open spec fn all_cards(self, w: int, count: int) -> Seq<EffectNote>
        decreases count,
    {
        if count <= 0 {
            Seq::empty()
        } else {
            self.all_cards(w, count - 1) + self.card_effects(w, count - 1)
        }
    }

    pub open spec fn all_menus(self, w: int, count: int) -> Seq<EffectNote>
        decreases count,
    {
        if count <= 0 {
            Seq::empty()
        } else {
            self.all_menus(w, count - 1) + self.menu_effects(w, count - 1)
        }
    }

    pub open spec fn all_macs(self, w: int, count: int) -> Seq<EffectNote>
        decreases count,
    {
        if count <= 0 {
            Seq::empty()
        } else {
            self.all_macs(w, count - 1) + self.mac_effects(w, count - 1)
        }
    }

    /// Whether the selected Mac is a saved one.
    pub open spec fn can_forget(self) -> bool {
        self.selected() matches Some(c) && leads_there(self.saved, c)
    }

    /// The navigation, the window buttons, and the controls above the page.
    pub open spec fn top_effects(self, w: int, h: int) -> Seq<EffectNote> {
        let gallery = self.view == NAV_APPS;
        let macs = self.view == NAV_CONNECTIONS;
        seq![
            place_note(NAV_APPS, 10, 112, 210, 50, true),
            place_note(NAV_CONNECTIONS, 10, 164, 210, 50, true),
            place_note(NAV_SETTINGS, 10, h - 114, 210, 50, true),
            place_note(MINIMIZE, w - 140, 0, 46, 32, true),
            place_note(MAXIMIZE, w - 94, 0, 46, 32, true),
            place_note(CLOSE, w - 48, 0, 46, 32, true),
            place_note(CONNECT, w - 216, 94, 174, 48, true),
            place_note(SEARCH, 280, 299, lesser(w - 590, 440), 27, gallery),
            place_note(SORT, w - 280, 294, 164, 36, gallery),
            place_note(GRID, w - 104, 294, 36, 36, gallery),
            place_note(LIST, w - 62, 294, 36, 36, gallery),
            EffectNote::SetText {
                id: SORT,
                text: if self.sort_name {
                    "Sort: Name"@
                } else {
                    "Sort: Host order"@
                },
            },
            place_note(ADD_MAC, w - 366, 226, 154, 40, macs),
            place_note(REFRESH, w - 198, 226, 172, 40, macs),
            place_note(FORGET, w - 216, 292, 190, 36, macs),
            EffectNote::Enable { id: FORGET, on: self.can_forget() && !self.active },
            EffectNote::Enable { id: REFRESH, on: !self.scanning },
        ]
    }

    /// The page buttons and the settings.
    pub open spec fn bottom_effects(self, w: int, h: int) -> Seq<EffectNote> {
        let len = self.items().len() as int;
        let paged = self.view == NAV_APPS || self.view == NAV_CONNECTIONS;
        let pages = paged && len > self.page_size;
        let settings = self.view == NAV_SETTINGS;
        seq![
            place_note(PREVIOUS, w - 240, h - 52, 98, 32, pages),
            place_note(NEXT, w - 132, h - 52, 98, 32, pages),
            EffectNote::Enable { id: PREVIOUS, on: self.page > 0 },
            EffectNote::Enable { id: NEXT, on: self.page < last_page(len, self.page_size) },
            place_note(HOST, 268, 402, 470, 36, settings),
            place_note(CONTROL, 268, 496, 210, 36, settings),
            place_note(VIDEO, 500, 496, 238, 36, settings),
            place_note(MANUAL, 268, 560, 210, 44, settings),
            place_note(UPDATE, 800, 380, 220, 40, settings),
            EffectNote::Enable { id: CONNECT, on: self.active || self.rows.len() > 0 },
            EffectNote::Enable { id: MANUAL, on: !self.active },
            EffectNote::Invalidate,
        ]
    }

    /// What has to be done once the dashboard has been laid out.
    pub open spec fn layout_effects(self) -> Seq<EffectNote> {
        match self.extent {
            None => Seq::empty(),
            Some((w, h)) => self.top_effects(w, h) + self.all_cards(w, CARD_COUNT as int)
                + self.all_menus(w, CARD_COUNT as int) + self.all_macs(w, CARD_COUNT as int)
                + self.bottom_effects(w, h),
        }
    }

    /// Whether the dashboard can be laid out.
    pub open spec fn ready(self) -> bool {
        &&& self.page_size >= 1
        &&& 0 <= self.page
        &&& self.extent is None ==> self.visible.len() == 0
        &&& self.extent matches Some((w, h)) ==> 0 <= w <= MAX_EXTENT && 0 <= h <= MAX_EXTENT
    }

    /// Whether every item on the page is there.
    pub open spec fn sound(self) -> bool {
        &&& self.ready()
        &&& forall|i: int|
            0 <= i < self.visible.len() ==> 0 <= #[trigger] self.visible[i] < if self.view
                == NAV_CONNECTIONS {
                self.rows.len() as int
            } else {
                self.cards.len() as int
            }
    }
}

// ---------------------------------------------------------------------------
// Building effects
// ---------------------------------------------------------------------------

pub(crate) fn push_effect(out: &mut Vec<Effect>, effect: Effect)
    ensures
        effect_notes(final(out)@) == effect_notes(old(out)@).push(effect@),
{
    out.push(effect);
    proof {
        assert(effect_notes(out@) =~= effect_notes(old(out)@).push(effect@));
    }
}

fn place(out: &mut Vec<Effect>, id: usize, x: i32, y: i32, w: i32, h: i32, visible: bool)
    ensures
        effect_notes(final(out)@) == effect_notes(old(out)@).push(
            place_note(id, x as int, y as int, w as int, h as int, visible),
        ),
{
    push_effect(out, Effect::Place { id, x, y, w, h, visible });
}

fn set_text(out: &mut Vec<Effect>, id: usize, text: String)
    ensures
        effect_notes(final(out)@) == effect_notes(old(out)@).push(
            EffectNote::SetText { id, text: text@ },
        ),
{
    push_effect(out, Effect::SetText { id, text });
}

fn enable(out: &mut Vec<Effect>, id: usize, on: bool)
    ensures
        effect_notes(final(out)@) == effect_notes(old(out)@).push(EffectNote::Enable { id, on }),
{
    push_effect(out, Effect::Enable { id, on });
}

pub(crate) fn append_effects(out: &mut Vec<Effect>, more: Vec<Effect>)
    ensures
        effect_notes(final(out)@) == effect_notes(old(out)@) + effect_notes(more@),
{
    let mut more = more;
    let ghost added = more@;
    out.append(&mut more);
    proof {
        assert(effect_notes(out@) =~= effect_notes(old(out)@) + effect_notes(added));
    }
}

/// `a / b`, rounded towards zero.
fn divide(a: i32, b: i32) -> (result: i32)
    requires
        b > 0,
        a > i32::MIN,
    ensures
        result == quotient(a as int, b as int),
        a >= 0 ==> 0 <= result <= a,
        a < 0 ==> a <= result <= 0,
{
    if a < 0 {
        proof {
            lemma_quotient_bound(-(a as int), b as int);
        }
        0 - (0 - a) / b
    } else {
        proof {
            lemma_quotient_bound(a as int, b as int);
        }
        a / b
    }
}

proof fn lemma_quotient_bound(a: int, b: int)
    requires
        a >= 0,
        b > 0,
    ensures
        0 <= a / b <= a,
{
    assert(0 <= a / b <= a) by (nonlinear_arith)
        requires
            a >= 0,
            b > 0,
    ;
}

fn keep_between(n: i32, low: i32, high: i32) -> (result: i32)
    ensures
        result == between(n as int, low as int, high as int),
{
    if n < low {
        low
    } else if n > high {
        high
    } else {
        n
    }
}

fn card_columns(w: i32) -> (cols: i32)
    requires
        0 <= w <= MAX_EXTENT,
    ensures
        cols == between(quotient(w - SIDEBAR - 30, 274), 1, 4),
        1 <= cols <= 4,
{
    keep_between(divide(w - SIDEBAR - 30, 274), 1, 4)
}

// ---------------------------------------------------------------------------
// The dashboard itself
// ---------------------------------------------------------------------------

impl Dashboard {
    pub open spec fn view(&self) -> DashboardNote {
        DashboardNote {
            extent: match self.extent {
                Some((w, h)) => Some((w as int, h as int)),
                None => None,
            },
            actions: action_notes(self.actions@),
            saved: connection_notes(self.saved@),
            nearby: connection_notes(self.nearby@),
            rows: connection_notes(self.rows@),
            selected_device: self.selected_device as int,
            scanning: self.scanning,
            next_scan: self.next_scan,
            active: self.active,
            connected: self.connected,
            status: self.status@,
            discovery: self.discovery@,
            cards: card_notes(self.cards@),
            visible: index_notes(self.visible@),
            page: self.page as int,
            page_size: self.page_size as int,
            query: self.query@,
            view: self.view,
            list: self.list,
            sort_name: self.sort_name,
            previewed_at: self.previewed_at,
        }
    }

    pub open spec fn wf(&self) -> bool {
        self@.sound()
    }

    /// The titles of the cards, as they are searched and sorted.
    fn keys(&self) -> (keys: Vec<String>)
        ensures
            parts_notes(keys@) == search_keys(self@.cards),
    {
        let ghost all = search_keys(self@.cards);
        let mut keys: Vec<String> = Vec::new();
        let mut i: usize = 0;
        proof {
            assert(parts_notes(keys@) =~= all.take(0));
        }
        while i < self.cards.len()
            invariant
                i <= self.cards@.len(),
                all == search_keys(self@.cards),
                parts_notes(keys@) == all.take(i as int),
            decreases self.cards@.len() - i,
        {
            let ghost before = parts_notes(keys@);
            keys.push(to_lower(self.cards[i].window.title.as_str()));
            proof {
                assert(self@.cards[i as int] == self.cards@[i as int]@);
                assert(parts_notes(keys@) =~= before.push(all[i as int]));
                assert(all.take(i + 1) =~= all.take(i as int).push(all[i as int]));
            }
            i += 1;
        }
        proof {
            assert(all.take(i as int) =~= all);
        }
        keys
    }

    /// The cards that are shown for the query.
    pub fn matches(&self) -> (found: Vec<usize>)
        ensures
            index_notes(found@) == self@.matches(),
            forall|k: int| 0 <= k < found@.len() ==> #[trigger] found@[k] < self.cards@.len(),
    {
        let keys = self.keys();
        proof {
            assert(parts_notes(keys@).len() == keys@.len());
        }
        matching(&keys, self.query.as_str(), self.sort_name)
    }

    /// The Mac that is selected.
    pub fn selected(&self) -> (selected: Option<Connection>)
        ensures
            match selected {
                Some(c) => self@.selected() == Some(c@),
                None => self@.selected() is None,
            },
    {
        if self.selected_device < self.rows.len() {
            Some(self.rows[self.selected_device].clone())
        } else {
            None
        }
    }

    fn items(&self) -> (items: Vec<usize>)
        ensures
            index_notes(items@) == self@.items(),
            forall|k: int|
                0 <= k < items@.len() ==> (#[trigger] items@[k] as int) < if self@.view
                    == NAV_CONNECTIONS {
                    self@.rows.len() as int
                } else {
                    self@.cards.len() as int
                },
    {
        if self.view == NAV_CONNECTIONS {
            let mut items: Vec<usize> = Vec::new();
            let mut i: usize = 0;
            while i < self.rows.len()
                invariant
                    i <= self.rows@.len(),
                    items@.len() == i,
                    forall|k: int| 0 <= k < i ==> #[trigger] items@[k] == k,
                decreases self.rows@.len() - i,
            {
                items.push(i);
                i += 1;
            }
            proof {
                assert(index_notes(items@) =~= first_numbers(self@.rows.len() as int));
            }
            items
        } else {
            self.matches()
        }
    }

    fn page_room(&self, w: i32, h: i32) -> (room: usize)
        requires
            0 <= w <= MAX_EXTENT,
            0 <= h <= MAX_EXTENT,
        ensures
            room == self@.page_room(w as int, h as int),
            1 <= room <= CARD_COUNT,
    {
        if self.view == NAV_CONNECTIONS {
            keep_between(divide(h - 410, 88), 1, 12) as usize
        } else if self.list {
            keep_between(divide(h - 422, 84), 1, 12) as usize
        } else {
            let cols: i32 = card_columns(w);
            let rows: i32 = keep_between(divide(h - 348 - 62, 204), 1, 3);
            proof {
                assert(1 <= cols * rows <= 12) by (nonlinear_arith)
                    requires
                        1 <= cols <= 4,
                        1 <= rows <= 3,
                ;
            }
            (cols * rows) as usize
        }
    }

    /// Fit the page into the client area.
    fn turn_page(&mut self, w: i32, h: i32) -> (count: usize)
        requires
            old(self)@.ready(),
            old(self)@.extent == Some((w as int, h as int)),
        ensures
            final(self).wf(),
            final(self)@ == old(self)@.laid_out(),
            count == old(self)@.items().len(),
    {
        let items = self.items();
        let page_size: usize = self.page_room(w, h);
        let last: usize = if items.len() == 0 {
            0
        } else {
            (items.len() - 1) / page_size
        };
        let page: usize = if self.page > last {
            last
        } else {
            self.page
        };
        let ghost all = index_notes(items@);
        proof {
            lemma_page_start(items@.len() as int, page as int, page_size as int);
        }
        let from: usize = page * page_size;
        let to: usize = if items.len() - from < page_size {
            items.len()
        } else {
            from + page_size
        };
        let mut visible: Vec<usize> = Vec::new();
        let mut i: usize = from;
        proof {
            assert(index_notes(visible@) =~= all.subrange(from as int, from as int));
        }
        while i < to
            invariant
                from <= i <= to <= items@.len(),
                all == index_notes(items@),
                index_notes(visible@) == all.subrange(from as int, i as int),
            decreases to - i,
        {
            let ghost before = index_notes(visible@);
            visible.push(items[i]);
            proof {
                assert(index_notes(visible@) =~= before.push(all[i as int]));
                assert(all.subrange(from as int, i + 1) =~= all.subrange(
                    from as int,
                    i as int,
                ).push(all[i as int]));
            }
            i += 1;
        }
        self.page_size = page_size;
        self.page = page;
        self.visible = visible;
        proof {
            assert forall|k: int| 0 <= k < self@.visible.len() implies 0
                <= #[trigger] self@.visible[k] < if self@.view == NAV_CONNECTIONS {
                self@.rows.len() as int
            } else {
                self@.cards.len() as int
            } by {
                assert(self@.visible[k] == all[from + k]);
                assert(items@[from + k] as int == all[from + k]);
            }
        }
        items.len()
    }
}

proof fn lemma_page_start(len: int, page: int, page_size: int)
    requires
        len >= 0,
        page_size >= 1,
        0 <= page <= last_page(len, page_size),
    ensures
        0 <= page * page_size <= len,
{
    if len == 0 {
        assert(page * page_size == 0) by (nonlinear_arith)
            requires
                page == 0,
        ;
    } else {
        assert(0 <= page * page_size <= len - 1) by (nonlinear_arith)
            requires
                0 <= page <= (len - 1) / page_size,
                page_size >= 1,
                len >= 1,
        ;
    }
}

/// Where a column of cards starts, counted from the first, can be computed.
proof fn lemma_column(w: int, cols: int, s: int)
    requires
        0 <= w <= MAX_EXTENT,
        1 <= cols <= 4,
        0 <= s < cols,
    ensures
        ({
            let cw = quotient(w - SIDEBAR - 18 - (cols - 1) * 16, cols);
            &&& -302 <= cw <= w
            &&& -2000 <= s * (cw + 16) <= w + 100
        }),
{
    let n = w - SIDEBAR - 18 - (cols - 1) * 16;
    let cw = quotient(n, cols);
    if n >= 0 {
        lemma_quotient_bound(n, cols);
        assert(cw * cols <= n) by (nonlinear_arith)
            requires
                cw == n / cols,
                cols >= 1,
        ;
        assert(0 <= s * (cw + 16) <= cw * cols + 16 * cols) by (nonlinear_arith)
            requires
                0 <= s < cols,
                cw >= 0,
        ;
    } else {
        lemma_quotient_bound(-n, cols);
        assert(-3 * 302 <= s * (cw + 16) <= 3 * 16) by (nonlinear_arith)
            requires
                0 <= s <= 3,
                -302 <= cw <= 0,
        ;
    }
}

impl Dashboard {
    fn can_forget(&self) -> (can: bool)
        ensures
            can == self@.can_forget(),
    {
        if self.selected_device < self.rows.len() {
            let c = &self.rows[self.selected_device];
            any_leads_there(&self.saved, c)
        } else {
            false
        }
    }

    fn layout_top(&self, out: &mut Vec<Effect>, w: i32, h: i32)
        requires
            0 <= w <= MAX_EXTENT,
            0 <= h <= MAX_EXTENT,
        ensures
            effect_notes(final(out)@) == effect_notes(old(out)@) + self@.top_effects(
                w as int,
                h as int,
            ),
    {
        let gallery = self.view == NAV_APPS;
        let macs = self.view == NAV_CONNECTIONS;
        place(out, NAV_APPS, 10, 112, 210, 50, true);
        place(out, NAV_CONNECTIONS, 10, 164, 210, 50, true);
        place(out, NAV_SETTINGS, 10, h - 114, 210, 50, true);
        place(out, MINIMIZE, w - 140, 0, 46, 32, true);
        place(out, MAXIMIZE, w - 94, 0, 46, 32, true);
        place(out, CLOSE, w - 48, 0, 46, 32, true);
        place(out, CONNECT, w - 216, 94, 174, 48, true);
        let search: i32 = if w - 590 <= 440 {
            w - 590
        } else {
            440
        };
        place(out, SEARCH, 280, 299, search, 27, gallery);
        place(out, SORT, w - 280, 294, 164, 36, gallery);
        place(out, GRID, w - 104, 294, 36, 36, gallery);
        place(out, LIST, w - 62, 294, 36, 36, gallery);
        let sort = if self.sort_name {
            "Sort: Name"
        } else {
            "Sort: Host order"
        };
        set_text(out, SORT, owned(sort));
        place(out, ADD_MAC, w - 366, 226, 154, 40, macs);
        place(out, REFRESH, w - 198, 226, 172, 40, macs);
        place(out, FORGET, w - 216, 292, 190, 36, macs);
        enable(out, FORGET, self.can_forget() && !self.active);
        enable(out, REFRESH, !self.scanning);
        proof {
            assert(effect_notes(out@) =~= effect_notes(old(out)@) + self@.top_effects(
                w as int,
                h as int,
            ));
        }
    }

    fn layout_card(&self, out: &mut Vec<Effect>, w: i32, slot: usize)
        requires
            self.wf(),
            0 <= w <= MAX_EXTENT,
            slot < CARD_COUNT,
        ensures
            effect_notes(final(out)@) == effect_notes(old(out)@) + self@.card_effects(
                w as int,
                slot as int,
            ),
    {
        let id: usize = CARD_BASE + slot;
        if self.view == NAV_APPS && slot < self.visible.len() {
            proof {
                assert(0 <= self@.visible[slot as int] < self@.cards.len());
            }
            let index: usize = self.visible[slot];
            set_text(out, id, accessible_title(&self.cards[index]));
            let n: i32 = slot as i32;
            if self.list {
                place(out, id, SIDEBAR + 2, 348 + n * 84, w - SIDEBAR - 18, 72, true);
            } else {
                let cols: i32 = card_columns(w);
                proof {
                    lemma_column(w as int, cols as int, slot as int % cols as int);
                }
                let cw: i32 = divide(w - SIDEBAR - 18 - (cols - 1) * 16, cols);
                let x: i32 = SIDEBAR + 2 + n % cols * (cw + 16);
                proof {
                    lemma_quotient_bound(slot as int, cols as int);
                }
                place(out, id, x, 348 + n / cols * 204, cw, 188, true);
            }
        } else {
            place(out, id, 0, 0, 1, 1, false);
        }
        proof {
            assert(effect_notes(out@) =~= effect_notes(old(out)@) + self@.card_effects(
                w as int,
                slot as int,
            ));
        }
    }

    fn layout_menu(&self, out: &mut Vec<Effect>, w: i32, slot: usize)
        requires
            self.wf(),
            0 <= w <= MAX_EXTENT,
            slot < CARD_COUNT,
        ensures
            effect_notes(final(out)@) == effect_notes(old(out)@) + self@.menu_effects(
                w as int,
                slot as int,
            ),
    {
        let id: usize = CARD_MENU_BASE + slot;
        if self.view == NAV_APPS && slot < self.visible.len() {
            proof {
                assert(0 <= self@.visible[slot as int] < self@.cards.len());
            }
            let index: usize = self.visible[slot];
            let text = String::from_str("Options for ").concat(
                self.cards[index].window.title.as_str(),
            );
            set_text(out, id, text);
            push_effect(out, Effect::Raise { id });
            let n: i32 = slot as i32;
            if self.list {
                place(out, id, w - 65, 365 + n * 84, 34, 32, true);
            } else {
                let cols: i32 = card_columns(w);
                proof {
                    lemma_column(w as int, cols as int, slot as int % cols as int);
                    lemma_column(w as int, cols as int, 0);
                    lemma_right_edge(w as int, cols as int, slot as int % cols as int);
                }
                let cw: i32 = divide(w - SIDEBAR - 18 - (cols - 1) * 16, cols);
                let x: i32 = SIDEBAR + 2 + n % cols * (cw + 16) + cw - 44;
                proof {
                    lemma_quotient_bound(slot as int, cols as int);
                }
                place(out, id, x, 348 + n / cols * 204 + 148, 32, 30, true);
            }
        } else {
            place(out, id, 0, 0, 1, 1, false);
        }
        proof {
            assert(effect_notes(out@) =~= effect_notes(old(out)@) + self@.menu_effects(
                w as int,
                slot as int,
            ));
        }
    }

    fn layout_mac(&self, out: &mut Vec<Effect>, w: i32, slot: usize)
        requires
            self.wf(),
            0 <= w <= MAX_EXTENT,
            slot < CARD_COUNT,
        ensures
            effect_notes(final(out)@) == effect_notes(old(out)@) + self@.mac_effects(
                w as int,
                slot as int,
            ),
    {
        let id: usize = MAC_BASE + slot;
        if self.view == NAV_CONNECTIONS && slot < self.visible.len() {
            proof {
                assert(0 <= self@.visible[slot as int] < self@.rows.len());
            }
            let row = &self.rows[self.visible[slot]];
            let text = String::from_str("Select ").concat(row.name.as_str()).concat(" (").concat(
                row.host.as_str(),
            ).concat(")");
            set_text(out, id, text);
            place(out, id, 246, 348 + slot as i32 * 88, w - 274, 76, true);
            enable(out, id, !self.active);
        } else {
            place(out, id, 0, 0, 1, 1, false);
        }
        proof {
            assert(effect_notes(out@) =~= effect_notes(old(out)@) + self@.mac_effects(
                w as int,
                slot as int,
            ));
        }
    }

    fn layout_slots(&self, out: &mut Vec<Effect>, w: i32)
        requires
            self.wf(),
            0 <= w <= MAX_EXTENT,
        ensures
            effect_notes(final(out)@) == effect_notes(old(out)@) + self@.all_cards(
                w as int,
                CARD_COUNT as int,
            ) + self@.all_menus(w as int, CARD_COUNT as int) + self@.all_macs(
                w as int,
                CARD_COUNT as int,
            ),
    {
        let ghost start = effect_notes(out@);
        let mut slot: usize = 0;
        proof {
            assert(start + self@.all_cards(w as int, 0) =~= start);
        }
        while slot < CARD_COUNT
            invariant
                slot <= CARD_COUNT,
                self.wf(),
                0 <= w <= MAX_EXTENT,
                effect_notes(out@) == start + self@.all_cards(w as int, slot as int),
            decreases CARD_COUNT - slot,
        {
            self.layout_card(out, w, slot);
            proof {
                assert(effect_notes(out@) =~= start + self@.all_cards(w as int, slot + 1));
            }
            slot += 1;
        }
        let ghost cards = effect_notes(out@);
        slot = 0;
        proof {
            assert(cards + self@.all_menus(w as int, 0) =~= cards);
        }
        while slot < CARD_COUNT
            invariant
                slot <= CARD_COUNT,
                self.wf(),
                0 <= w <= MAX_EXTENT,
                effect_notes(out@) == cards + self@.all_menus(w as int, slot as int),
            decreases CARD_COUNT - slot,
        {
            self.layout_menu(out, w, slot);
            proof {
                assert(effect_notes(out@) =~= cards + self@.all_menus(w as int, slot + 1));
            }
            slot += 1;
        }
        let ghost menus = effect_notes(out@);
        slot = 0;
        proof {
            assert(menus + self@.all_macs(w as int, 0) =~= menus);
        }
        while slot < CARD_COUNT
            invariant
                slot <= CARD_COUNT,
                self.wf(),
                0 <= w <= MAX_EXTENT,
                effect_notes(out@) == menus + self@.all_macs(w as int, slot as int),
            decreases CARD_COUNT - slot,
        {
            self.layout_mac(out, w, slot);
            proof {
                assert(effect_notes(out@) =~= menus + self@.all_macs(w as int, slot + 1));
            }
            slot += 1;
        }
    }

    fn layout_bottom(&self, out: &mut Vec<Effect>, w: i32, h: i32, count: usize)
        requires
            self.wf(),
            0 <= w <= MAX_EXTENT,
            0 <= h <= MAX_EXTENT,
            count == self@.items().len(),
        ensures
            effect_notes(final(out)@) == effect_notes(old(out)@) + self@.bottom_effects(
                w as int,
                h as int,
            ),
    {
        let paged = self.view == NAV_APPS || self.view == NAV_CONNECTIONS;
        let pages = paged && count > self.page_size;
        let settings = self.view == NAV_SETTINGS;
        let last: usize = if count == 0 {
            0
        } else {
            (count - 1) / self.page_size
        };
        place(out, PREVIOUS, w - 240, h - 52, 98, 32, pages);
        place(out, NEXT, w - 132, h - 52, 98, 32, pages);
        enable(out, PREVIOUS, self.page > 0);
        enable(out, NEXT, self.page < last);
        place(out, HOST, 268, 402, 470, 36, settings);
        place(out, CONTROL, 268, 496, 210, 36, settings);
        place(out, VIDEO, 500, 496, 238, 36, settings);
        place(out, MANUAL, 268, 560, 210, 44, settings);
        place(out, UPDATE, 800, 380, 220, 40, settings);
        enable(out, CONNECT, self.active || self.rows.len() > 0);
        enable(out, MANUAL, !self.active);
        push_effect(out, Effect::Invalidate);
        proof {
            assert(effect_notes(out@) =~= effect_notes(old(out)@) + self@.bottom_effects(
                w as int,
                h as int,
            ));
        }
    }

    /// Fit the page into the client area and place every control.
    pub fn layout(&mut self) -> (effects: Vec<Effect>)
        requires
            old(self)@.ready(),
        ensures
            final(self).wf(),
            final(self)@ == old(self)@.laid_out(),
            effect_notes(effects@) == old(self)@.laid_out().layout_effects(),
    {
        let mut out: Vec<Effect> = Vec::new();
        proof {
            assert(effect_notes(out@) =~= Seq::<EffectNote>::empty());
        }
        match self.extent {
            None => out,
            Some((w, h)) => {
                let ghost before = self@;
                let count: usize = self.turn_page(w, h);
                proof {
                    assert(self@.items() == before.items());
                }
                self.layout_top(&mut out, w, h);
                self.layout_slots(&mut out, w);
                self.layout_bottom(&mut out, w, h, count);
                proof {
                    assert(effect_notes(out@) =~= self@.layout_effects());
                }
                out
            },
        }
    }
}

/// The right edge of a card can be computed.
proof fn lemma_right_edge(w: int, cols: int, s: int)
    requires
        0 <= w <= MAX_EXTENT,
        1 <= cols <= 4,
        0 <= s < cols,
    ensures
        ({
            let cw = quotient(w - SIDEBAR - 18 - (cols - 1) * 16, cols);
            s * (cw + 16) + cw <= w + 100
        }),
{
    let n = w - SIDEBAR - 18 - (cols - 1) * 16;
    let cw = quotient(n, cols);
    lemma_column(w, cols, s);
    if n >= 0 {
        lemma_quotient_bound(n, cols);
        assert(cw * cols <= n) by (nonlinear_arith)
            requires
                cw == n / cols,
                cols >= 1,
        ;
        assert(s * (cw + 16) + cw <= cw * cols + 16 * cols) by (nonlinear_arith)
            requires
                0 <= s < cols,
                cw >= 0,
        ;
    } else {
        assert(s * (cw + 16) + cw <= 3 * 16) by (nonlinear_arith)
            requires
                0 <= s <= 3,
                -302 <= cw <= 0,
        ;
    }
}

} // verus!
