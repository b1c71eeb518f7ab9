//! What happens on the dashboard: its controls, its menus, scans that finish, and
//! what the application reports.

use vstd::prelude::*;
use std::collections::VecDeque;

use crate::connections::available;
use crate::connections::connection_notes;
use crate::connections::manual_note;
use crate::connections::others;
use crate::connections::remember;
use crate::connections::remembered;
use crate::connections::without_repeats;
use crate::connections::Connection;
use crate::connections::ConnectionNote;
use crate::model::Window;
use crate::model::WindowNote;
use crate::text::decimal;
use crate::text::lowercase;
use crate::text::owned;
use crate::text::same_text;
use crate::text::to_lower;
use crate::text::unsigned_to_text;
use crate::wire::control::Size;
use crate::win::dashboard::append_effects;
use crate::win::dashboard::effect_notes;
use crate::win::dashboard::push_effect;
use crate::win::dashboard::Action;
use crate::win::dashboard::ActionNote;
use crate::win::dashboard::Dashboard;
use crate::win::dashboard::DashboardNote;
use crate::win::dashboard::Effect;
use crate::win::dashboard::EffectNote;
use crate::win::dashboard::SystemCommand;
use crate::win::dashboard::ADD_MAC;
use crate::win::dashboard::CARD_MENU_BASE;
use crate::win::dashboard::CHANGED;
use crate::win::dashboard::CLICKED;
use crate::win::dashboard::CLOSE;
use crate::win::dashboard::CONNECT;
use crate::win::dashboard::FORGET;
use crate::win::dashboard::GRID;
use crate::win::dashboard::HOST;
use crate::win::dashboard::LIST;
use crate::win::dashboard::MAC_BASE;
use crate::win::dashboard::MANUAL;
use crate::win::dashboard::MAXIMIZE;
use crate::win::dashboard::MAX_EXTENT;
use crate::win::dashboard::MINIMIZE;
use crate::win::dashboard::NAV_APPS;
use crate::win::dashboard::NAV_CONNECTIONS;
use crate::win::dashboard::NAV_SETTINGS;
use crate::win::dashboard::NEXT;
use crate::win::dashboard::PREVIEW_PAUSE;
use crate::win::dashboard::PREVIOUS;
use crate::win::dashboard::REFRESH;
use crate::win::dashboard::SCAN_PAUSE;
use crate::win::dashboard::SEARCH;
use crate::win::dashboard::SORT;
use crate::win::dashboard::UPDATE;
use crate::win::gallery::card_notes;
use crate::win::gallery::no_size;
use crate::win::gallery::Card;
use crate::win::gallery::CardNote;
use crate::win::gallery::CARD_BASE;
use crate::win::gallery::CARD_COUNT;
use crate::win::gallery::PREVIEW_HEIGHT;
use crate::win::gallery::PREVIEW_WIDTH;

verus! {

/// What stands in the dashboard's text fields.
#[derive(Debug)]
pub struct Typed {
    pub search: String,
    pub host: String,
    pub control: String,
    pub video: String,
}

/// What a [`Typed`] holds.
pub struct TypedNote {
    pub search: Seq<char>,
    pub host: Seq<char>,
    pub control: Seq<char>,
    pub video: Seq<char>,
}

impl Typed {
    pub open spec fn view(&self) -> TypedNote {
        TypedNote {
            search: self.search@,
            host: self.host@,
            control: self.control@,
            video: self.video@,
        }
    }
}

/// Where the keyboard focus is.
#[derive(Debug, Clone, Copy, PartialEq, Eq, Structural)]
pub enum KeyFocus {
    Search,
    /// One of the manual connection's fields.
    Manual,
    Elsewhere,
}

/// A dashboard and what has to be done.
pub type Stepped = (DashboardNote, Seq<EffectNote>);

/// The first row from `i` on that leads where `c` leads, or the number of rows.
pub open spec fn same_row(rows: Seq<ConnectionNote>, c: ConnectionNote, i: int) -> int
    decreases rows.len() - i,
{
    if 0 <= i < rows.len() && !rows[i].same_place(c) {
        same_row(rows, c, i + 1)
    } else {
        i
    }
}

/// The first card from `i` on with this id, or the number of cards.
pub open spec fn card_with_id(cards: Seq<CardNote>, id: u64, i: int) -> int
    decreases cards.len() - i,
{
    if 0 <= i < cards.len() && cards[i].window.id != id {
        card_with_id(cards, id, i + 1)
    } else {
        i
    }
}

/// A shared window joins the cards. It takes over the thumbnail of its earlier card,
/// if that still shows the same part of the display.
pub open spec fn with_window(
    old: Seq<CardNote>,
    cards: Seq<CardNote>,
    window: WindowNote,
    opened: bool,
) -> (Seq<CardNote>, Seq<CardNote>) {
    let i = card_with_id(old, window.id, 0);
    if i < old.len() {
        let card = if old[i].window.source != window.source {
            CardNote { window, opened, pixels: Seq::empty(), size: no_size() }
        } else {
            CardNote { window, opened, ..old[i] }
        };
        (old.remove(i), cards.push(card))
    } else {
        (old, cards.push(CardNote { window, opened, pixels: Seq::empty(), size: no_size() }))
    }
}

/// The earlier cards that are left over, and the cards of the shared windows.
pub open spec fn with_windows(old: Seq<CardNote>, windows: Seq<(WindowNote, bool)>) -> (
    Seq<CardNote>,
    Seq<CardNote>,
)
    decreases windows.len(),
{
    if windows.len() == 0 {
        (old, Seq::empty())
    } else {
        let (rest, cards) = with_windows(old, windows.drop_last());
        with_window(rest, cards, windows.last().0, windows.last().1)
    }
}

pub open spec fn shared_notes(windows: Seq<(Window, bool)>) -> Seq<(WindowNote, bool)> {
    Seq::new(windows.len(), |i: int| (windows[i].0@, windows[i].1))
}

/// What is said of the Macs that a scan found.
pub open spec fn found_text(count: nat) -> Seq<char> {
    if count == 0 {
        "No nearby Macs. Start sharing in Transom Host."@
    } else {
        decimal(count) + (if count == 1 {
            " Mac available nearby"@
        } else {
            " Macs available nearby"@
        })
    }
}

impl DashboardNote {
    /// Lay the dashboard out.
    pub open spec fn relaid(self) -> Stepped {
        (self.laid_out(), self.laid_out().layout_effects())
    }

    /// The same, with more to be done behind it.
    pub open spec fn relaid_then(self, more: Seq<EffectNote>) -> Stepped {
        (self.laid_out(), self.laid_out().layout_effects() + more)
    }

    /// Something is asked for.
    pub open spec fn asked(self, action: ActionNote) -> DashboardNote {
        DashboardNote { actions: self.actions.push(action), ..self }
    }

    /// The list of Macs once discovery or the saved list changed. The selection
    /// stays where it was, if that is still there.
    pub open spec fn with_rows(self) -> DashboardNote {
        let rows = without_repeats(self.nearby + self.saved);
        DashboardNote {
            rows,
            selected_device: match self.selected() {
                Some(c) => {
                    let i = same_row(rows, c, 0);
                    if i < rows.len() {
                        i
                    } else {
                        0
                    }
                },
                None => 0,
            },
            ..self
        }
    }

    /// A scan begins.
    pub open spec fn scan_started(self) -> Stepped {
        (DashboardNote { scanning: true, ..self }).relaid_then(seq![EffectNote::StartScan])
    }

    /// A scan ends.
    pub open spec fn scan_ended(
        self,
        result: Result<Seq<ConnectionNote>, Seq<char>>,
        now: u64,
    ) -> Stepped {
        let idle = DashboardNote { scanning: false, ..self };
        let next_scan = pause_end(now);
        match result {
            Ok(found) => {
                let (shown, effects) = (DashboardNote {
                    nearby: found,
                    discovery: found_text(found.len()),
                    ..idle
                }).with_rows().relaid();
                let (last, more) = (DashboardNote { next_scan, ..shown }).relaid();
                (last, effects + more)
            },
            Err(e) => (DashboardNote {
                discovery: "Discovery unavailable: "@ + e,
                next_scan,
                ..idle
            }).relaid(),
        }
    }

    /// One turn: a scan may have ended, and the next may be due.
    pub open spec fn ticked(
        self,
        result: Option<Result<Seq<ConnectionNote>, Seq<char>>>,
        now: u64,
    ) -> Stepped {
        let (d, effects) = match result {
            Some(result) => self.scan_ended(result, now),
            None => (self, Seq::empty()),
        };
        if !d.scanning && now >= d.next_scan {
            let (last, more) = d.scan_started();
            (last, effects + more)
        } else {
            (d, effects)
        }
    }

    /// The oldest of the things asked for is taken.
    pub open spec fn action_taken(self) -> DashboardNote {
        if self.actions.len() == 0 {
            self
        } else {
            DashboardNote { actions: self.actions.skip(1), ..self }
        }
    }

    /// A page is opened from its start.
    pub open spec fn opened(self, view: usize) -> DashboardNote {
        DashboardNote { view, page: 0, ..self }
    }

    /// What a click on a control does.
    pub open spec fn clicked(self, id: usize, typed: TypedNote, zoomed: bool) -> Stepped {
        if id == CONNECT {
            if self.active {
                (self.asked(ActionNote::Disconnect), Seq::empty())
            } else {
                match self.selected() {
                    Some(c) => (self.asked(ActionNote::Connect(c)), Seq::empty()),
                    None => (self, Seq::empty()),
                }
            }
        } else if id == NAV_CONNECTIONS || id == NAV_APPS || id == NAV_SETTINGS {
            self.opened(id).relaid()
        } else if id == ADD_MAC {
            self.opened(NAV_SETTINGS).relaid_then(seq![EffectNote::Focus { id: HOST }])
        } else if id == FORGET && !self.active {
            match self.selected() {
                Some(c) => (
                    DashboardNote { saved: others(self.saved, c), ..self },
                    seq![EffectNote::SaveForgotten],
                ),
                None => (self, Seq::empty()),
            }
        } else if id == SORT {
            (self, seq![EffectNote::OpenSortMenu])
        } else if id == GRID || id == LIST {
            (DashboardNote { list: id == LIST, page: 0, ..self }).relaid()
        } else if id == PREVIOUS {
            (DashboardNote {
                page: if self.page == 0 {
                    0
                } else {
                    self.page - 1
                },
                ..self
            }).relaid()
        } else if id == NEXT {
            (DashboardNote {
                page: if self.page < usize::MAX {
                    self.page + 1
                } else {
                    self.page
                },
                ..self
            }).relaid()
        } else if id == MANUAL && !self.active {
            match manual_note(typed.host, typed.control, typed.video) {
                Ok(c) => (self.asked(ActionNote::Connect(c)), Seq::empty()),
                Err(e) => (DashboardNote { status: e, ..self }, seq![EffectNote::Invalidate]),
            }
        } else if id == REFRESH {
            if self.scanning {
                (self, Seq::empty())
            } else {
                self.scan_started()
            }
        } else if id == UPDATE {
            (self, seq![EffectNote::CheckForUpdates])
        } else if id == MINIMIZE {
            (self, seq![EffectNote::System { command: SystemCommand::Minimize }])
        } else if id == MAXIMIZE {
            (
                self,
                seq![
                    EffectNote::System {
                        command: if zoomed {
                            SystemCommand::Restore
                        } else {
                            SystemCommand::Maximize
                        },
                    },
                ],
            )
        } else if id == CLOSE {
            (self, seq![EffectNote::System { command: SystemCommand::Close }])
        } else {
            (self, Seq::empty())
        }
    }

    /// A query, in lower case, is searched for.
    pub open spec fn searched(self, query: Seq<char>) -> Stepped {
        (DashboardNote { query, page: 0, ..self }).relaid()
    }

    /// What a notification of a control does.
    pub open spec fn commanded(
        self,
        id: usize,
        notice: usize,
        typed: TypedNote,
        zoomed: bool,
    ) -> Stepped {
        if CARD_BASE <= id < CARD_BASE + CARD_COUNT && notice == CLICKED {
            let slot = id - CARD_BASE;
            if slot < self.visible.len() && self.visible[slot] < self.cards.len() {
                (
                    self.asked(ActionNote::OpenWindow(self.cards[self.visible[slot]].window.id)),
                    Seq::empty(),
                )
            } else {
                (self, Seq::empty())
            }
        } else if CARD_MENU_BASE <= id < CARD_MENU_BASE + CARD_COUNT && notice == CLICKED {
            (self, seq![EffectNote::OpenCardMenu { slot: (id - CARD_MENU_BASE) as usize }])
        } else if MAC_BASE <= id < MAC_BASE + CARD_COUNT && notice == CLICKED && !self.active {
            let slot = id - MAC_BASE;
            if slot < self.visible.len() {
                (DashboardNote { selected_device: self.visible[slot], ..self }).relaid()
            } else {
                (self, Seq::empty())
            }
        } else if id == SEARCH && notice == CHANGED {
            self.searched(lowercase(typed.search))
        } else if notice == CLICKED {
            self.clicked(id, typed, zoomed)
        } else {
            (self, Seq::empty())
        }
    }

    /// What the return key does, and whether it is used up.
    pub open spec fn return_pressed(self, focus: KeyFocus) -> (DashboardNote, Seq<EffectNote>, bool) {
        match focus {
            KeyFocus::Search => (
                if self.matches().len() == 1 {
                    self.asked(ActionNote::OpenWindow(self.cards[self.matches()[0]].window.id))
                } else {
                    self
                },
                Seq::empty(),
                true,
            ),
            KeyFocus::Manual => (
                self,
                if self.active {
                    Seq::empty()
                } else {
                    seq![EffectNote::PressManual]
                },
                true,
            ),
            KeyFocus::Elsewhere => (self, Seq::empty(), false),
        }
    }

    /// The window of a slot's card, and whether it is open on this PC.
    pub open spec fn card_in(self, slot: int) -> Option<(u64, bool)> {
        if 0 <= slot < self.visible.len() && self.visible[slot] < self.cards.len() {
            let card = self.cards[self.visible[slot]];
            Some((card.window.id, card.opened))
        } else {
            None
        }
    }
}

/// When the next scan is due.
pub open spec fn pause_end(now: u64) -> u64 {
    if now + SCAN_PAUSE > u64::MAX {
        u64::MAX
    } else {
        (now + SCAN_PAUSE) as u64
    }
}

fn no_effects() -> (effects: Vec<Effect>)
    ensures
        effect_notes(effects@) == Seq::<EffectNote>::empty(),
{
    let effects: Vec<Effect> = Vec::new();
    proof {
        assert(effect_notes(effects@) =~= Seq::<EffectNote>::empty());
    }
    effects
}

fn one_effect(effect: Effect) -> (effects: Vec<Effect>)
    ensures
        effect_notes(effects@) == seq![effect@],
{
    let mut effects = no_effects();
    push_effect(&mut effects, effect);
    proof {
        assert(effect_notes(effects@) =~= seq![effect@]);
    }
    effects
}

fn find_row(rows: &Vec<Connection>, c: &Connection) -> (index: usize)
    ensures
        index == same_row(connection_notes(rows@), c@, 0),
        index <= rows@.len(),
{
    let ghost all = connection_notes(rows@);
    let mut i: usize = 0;
    while i < rows.len() && !rows[i].same_destination(c)
        invariant
            i <= rows@.len(),
            all == connection_notes(rows@),
            same_row(all, c@, 0) == same_row(all, c@, i as int),
        decreases rows@.len() - i,
    {
        i += 1;
    }
    i
}

fn find_card(cards: &Vec<Card>, id: u64) -> (index: usize)
    ensures
        index == card_with_id(card_notes(cards@), id, 0),
        index <= cards@.len(),
{
    let ghost all = card_notes(cards@);
    let mut i: usize = 0;
    while i < cards.len() && cards[i].window.id != id
        invariant
            i <= cards@.len(),
            all == card_notes(cards@),
            card_with_id(all, id, 0) == card_with_id(all, id, i as int),
        decreases cards@.len() - i,
    {
        i += 1;
    }
    i
}

/// Let a shared window join the cards.
fn join_card(old_cards: &mut Vec<Card>, cards: &mut Vec<Card>, window: Window, opened: bool)
    ensures
        (card_notes(final(old_cards)@), card_notes(final(cards)@)) == with_window(
            card_notes(old(old_cards)@),
            card_notes(old(cards)@),
            window@,
            opened,
        ),
{
    let ghost before = card_notes(old_cards@);
    let ghost so_far = card_notes(cards@);
    let i: usize = find_card(old_cards, window.id);
    if i < old_cards.len() {
        let mut card = old_cards.remove(i);
        proof {
            assert(card_notes(old_cards@) =~= before.remove(i as int));
            assert(card@ == before[i as int]);
        }
        if card.window.source != window.source {
            card.pixels = Vec::new();
            card.size = Size { w: 0, h: 0 };
        }
        card.window = window;
        card.opened = opened;
        let ghost note = card@;
        proof {
            if before[i as int].window.source != window@.source {
                assert(note.pixels =~= Seq::<u8>::empty());
            }
        }
        cards.push(card);
        proof {
            assert(card_notes(cards@) =~= so_far.push(note));
        }
    } else {
        let card = Card::new(window, opened);
        let ghost note = card@;
        cards.push(card);
        proof {
            assert(card_notes(cards@) =~= so_far.push(note));
        }
    }
}

pub open spec fn scan_note(result: Option<Result<Vec<Connection>, String>>) -> Option<
    Result<Seq<ConnectionNote>, Seq<char>>,
> {
    match result {
        Some(Ok(found)) => Some(Ok(connection_notes(found@))),
        Some(Err(e)) => Some(Err(e@)),
        None => None,
    }
}

impl Dashboard {
    /// A dashboard without a window yet: the saved Macs, or why they could not be
    /// loaded.
    pub fn new(loaded: Result<Vec<Connection>, String>, now: u64) -> (dashboard: Self)
        ensures
            dashboard.wf(),
            dashboard@ == (DashboardNote {
                extent: None,
                actions: Seq::empty(),
                saved: match loaded {
                    Ok(saved) => connection_notes(saved@),
                    Err(e) => Seq::empty(),
                },
                nearby: Seq::empty(),
                rows: Seq::empty(),
                selected_device: 0,
                scanning: false,
                next_scan: now,
                active: false,
                connected: false,
                status: match loaded {
                    Ok(saved) => "Choose a Mac to get started."@,
                    Err(e) => "Could not load saved Macs: "@ + e@,
                },
                discovery: "Looking for nearby Macs…"@,
                cards: Seq::empty(),
                visible: Seq::empty(),
                page: 0,
                page_size: 8,
                query: Seq::empty(),
                view: NAV_APPS,
                list: false,
                sort_name: true,
                previewed_at: None,
            }),
    {
        let (saved, status) = match loaded {
            Ok(saved) => (saved, owned("Choose a Mac to get started.")),
            Err(e) => (
                Vec::new(),
                String::from_str("Could not load saved Macs: ").concat(e.as_str()),
            ),
        };
        let dashboard = Dashboard {
            extent: None,
            actions: VecDeque::new(),
            saved,
            nearby: Vec::new(),
            rows: Vec::new(),
            selected_device: 0,
            scanning: false,
            next_scan: now,
            active: false,
            connected: false,
            status,
            discovery: owned("Looking for nearby Macs…"),
            cards: Vec::new(),
            visible: Vec::new(),
            page: 0,
            page_size: 8,
            query: String::new(),
            view: NAV_APPS,
            list: false,
            sort_name: true,
            previewed_at: None,
        };
        proof {
            let d = dashboard@;
            assert(d.actions =~= Seq::<ActionNote>::empty());
            assert(d.nearby =~= Seq::<ConnectionNote>::empty());
            assert(d.rows =~= Seq::<ConnectionNote>::empty());
            assert(d.cards =~= Seq::<CardNote>::empty());
            assert(d.visible =~= Seq::<int>::empty());
            if loaded is Err {
                assert(d.saved =~= Seq::<ConnectionNote>::empty());
            }
        }
        dashboard
    }

    /// The client area has a new size.
    pub fn resize(&mut self, w: i32, h: i32) -> (effects: Vec<Effect>)
        requires
            old(self)@.ready(),
            0 <= w <= MAX_EXTENT,
            0 <= h <= MAX_EXTENT,
        ensures
            final(self).wf(),
            (final(self)@, effect_notes(effects@)) == (DashboardNote {
                extent: Some((w as int, h as int)),
                ..old(self)@
            }).relaid(),
    {
        self.extent = Some((w, h));
        self.layout()
    }

    /// Rebuild the list of Macs.
    pub fn rebuild_rows(&mut self) -> (effects: Vec<Effect>)
        requires
            old(self)@.ready(),
        ensures
            final(self).wf(),
            (final(self)@, effect_notes(effects@)) == old(self)@.with_rows().relaid(),
    {
        let selected = self.selected();
        self.rows = available(self.nearby.as_slice(), self.saved.as_slice());
        self.selected_device = match selected {
            Some(c) => {
                let i: usize = find_row(&self.rows, &c);
                if i < self.rows.len() {
                    i
                } else {
                    0
                }
            },
            None => 0,
        };
        self.layout()
    }

    fn start_scan(&mut self) -> (effects: Vec<Effect>)
        requires
            old(self)@.ready(),
        ensures
            final(self).wf(),
            (final(self)@, effect_notes(effects@)) == old(self)@.scan_started(),
    {
        self.scanning = true;
        let mut effects = self.layout();
        let ghost laid = effect_notes(effects@);
        push_effect(&mut effects, Effect::StartScan);
        proof {
            assert(effect_notes(effects@) =~= laid + seq![EffectNote::StartScan]);
        }
        effects
    }

    fn end_scan(&mut self, result: Result<Vec<Connection>, String>, now: u64) -> (effects: Vec<
        Effect,
    >)
        requires
            old(self)@.ready(),
        ensures
            final(self).wf(),
            (final(self)@, effect_notes(effects@)) == old(self)@.scan_ended(
                match result {
                    Ok(found) => Ok(connection_notes(found@)),
                    Err(e) => Err(e@),
                },
                now,
            ),
    {
        self.scanning = false;
        let next_scan: u64 = if now > u64::MAX - SCAN_PAUSE {
            u64::MAX
        } else {
            now + SCAN_PAUSE
        };
        match result {
            Ok(found) => {
                self.nearby = found;
                let count: usize = self.nearby.len();
                self.discovery = if count == 0 {
                    owned("No nearby Macs. Start sharing in Transom Host.")
                } else {
                    unsigned_to_text(count as u64).concat(
                        if count == 1 {
                            " Mac available nearby"
                        } else {
                            " Macs available nearby"
                        },
                    )
                };
                let mut effects = self.rebuild_rows();
                self.next_scan = next_scan;
                let more = self.layout();
                append_effects(&mut effects, more);
                effects
            },
            Err(e) => {
                self.discovery = String::from_str("Discovery unavailable: ").concat(e.as_str());
                self.next_scan = next_scan;
                self.layout()
            },
        }
    }

    /// One turn of the application: a scan may have ended, and the next may be due.
    /// The oldest of the things that the user asked for comes back.
    pub fn tick(&mut self, result: Option<Result<Vec<Connection>, String>>, now: u64) -> (outcome: (
        Vec<Effect>,
        Option<Action>,
    ))
        requires
            old(self).wf(),
        ensures
            final(self).wf(),
            ({
                let (d, effects) = old(self)@.ticked(scan_note(result), now);
                &&& effect_notes(outcome.0@) == effects
                &&& final(self)@ == d.action_taken()
                &&& match outcome.1 {
                    Some(action) => d.actions.len() > 0 && action@ == d.actions[0],
                    None => d.actions.len() == 0,
                }
            }),
    {
        let mut effects = match result {
            Some(result) => self.end_scan(result, now),
            None => no_effects(),
        };
        if !self.scanning && now >= self.next_scan {
            let more = self.start_scan();
            append_effects(&mut effects, more);
        }
        let ghost before = self@.actions;
        let action = self.actions.pop_front();
        proof {
            if before.len() > 0 {
                assert(self@.actions =~= before.skip(1));
            } else {
                assert(self@.actions =~= before);
            }
        }
        (effects, action)
    }

    /// Show what the connection is about.
    pub fn set_status(&mut self, text: &str, active: bool) -> (effects: Vec<Effect>)
        requires
            old(self).wf(),
        ensures
            final(self).wf(),
            (final(self)@, effect_notes(effects@)) == if old(self)@.status != text@ || old(
                self,
            )@.active != active {
                let d = DashboardNote { status: text@, active, ..old(self)@ };
                (
                    d.laid_out(),
                    seq![
                        EffectNote::SetText {
                            id: CONNECT,
                            text: if active {
                                "Disconnect"@
                            } else {
                                "Connect"@
                            },
                        },
                    ] + d.laid_out().layout_effects(),
                )
            } else {
                (old(self)@, Seq::empty())
            },
    {
        if same_text(self.status.as_str(), text) && self.active == active {
            return no_effects();
        }
        self.status = owned(text);
        self.active = active;
        let label = if active {
            "Disconnect"
        } else {
            "Connect"
        };
        let mut effects = one_effect(Effect::SetText { id: CONNECT, text: owned(label) });
        let more = self.layout();
        append_effects(&mut effects, more);
        effects
    }

    /// A session opened or ended. A new one shows its windows.
    pub fn set_connected(&mut self, connected: bool) -> (effects: Vec<Effect>)
        requires
            old(self).wf(),
        ensures
            final(self).wf(),
            (final(self)@, effect_notes(effects@)) == (if connected && !old(self)@.connected {
                DashboardNote { connected, ..old(self)@.opened(NAV_APPS) }
            } else {
                DashboardNote { connected, ..old(self)@ }
            }).relaid(),
    {
        if connected && !self.connected {
            self.view = NAV_APPS;
            self.page = 0;
        }
        self.connected = connected;
        self.layout()
    }

    /// Remember a Mac that was connected to, and select it.
    pub fn remember(&mut self, c: Connection) -> (effects: Vec<Effect>)
        requires
            old(self).wf(),
        ensures
            final(self).wf(),
            ({
                let (d, effects_note) = (DashboardNote {
                    saved: remembered(old(self)@.saved, c@),
                    ..old(self)@
                }).with_rows().relaid();
                let i = same_row(d.rows, c@, 0);
                &&& effect_notes(effects@) == seq![EffectNote::Save] + effects_note + seq![
                    EffectNote::Invalidate,
                ]
                &&& final(self)@ == if i < d.rows.len() {
                    DashboardNote { selected_device: i, ..d }
                } else {
                    d
                }
            }),
    {
        remember(&mut self.saved, c.clone());
        let mut effects = one_effect(Effect::Save);
        let more = self.rebuild_rows();
        append_effects(&mut effects, more);
        let i: usize = find_row(&self.rows, &c);
        if i < self.rows.len() {
            self.selected_device = i;
        }
        let ghost so_far = effect_notes(effects@);
        push_effect(&mut effects, Effect::Invalidate);
        proof {
            assert(effect_notes(effects@) =~= so_far + seq![EffectNote::Invalidate]);
        }
        effects
    }

    /// A remembered Mac could not be saved.
    pub fn save_failed(&mut self, error: &str)
        ensures
            final(self)@ == (DashboardNote {
                discovery: "Connected, but could not save this Mac: "@ + error@,
                ..old(self)@
            }),
    {
        self.discovery = String::from_str("Connected, but could not save this Mac: ").concat(error);
    }

    /// The saved list was written without the forgotten Mac, or could not be.
    pub fn forgot(&mut self, error: Option<&str>) -> (effects: Vec<Effect>)
        requires
            old(self).wf(),
        ensures
            final(self).wf(),
            (final(self)@, effect_notes(effects@)) == (DashboardNote {
                status: match error {
                    Some(e) => "Could not save connections: "@ + e@,
                    None => "Saved connection removed. Nearby Macs remain discoverable."@,
                },
                ..old(self)@
            }).with_rows().relaid(),
    {
        self.status = match error {
            Some(e) => String::from_str("Could not save connections: ").concat(e),
            None => owned("Saved connection removed. Nearby Macs remain discoverable."),
        };
        self.rebuild_rows()
    }

    /// The updater was started, or could not be.
    pub fn update_started(&mut self, error: Option<&str>) -> (effects: Vec<Effect>)
        requires
            old(self).wf(),
        ensures
            final(self).wf(),
            final(self)@ == (DashboardNote {
                status: match error {
                    Some(e) => e@,
                    None => "Checking for updates…"@,
                },
                ..old(self)@
            }),
            effect_notes(effects@) == seq![EffectNote::Invalidate],
    {
        self.status = match error {
            Some(e) => owned(e),
            None => owned("Checking for updates…"),
        };
        one_effect(Effect::Invalidate)
    }

    /// The shared windows, and which of them are open on this PC.
    pub fn set_windows(&mut self, windows: Vec<(Window, bool)>) -> (effects: Vec<Effect>)
        requires
            old(self).wf(),
        ensures
            final(self).wf(),
            (final(self)@, effect_notes(effects@)) == (DashboardNote {
                cards: with_windows(old(self)@.cards, shared_notes(windows@)).1,
                ..old(self)@
            }).relaid(),
    {
        let mut old_cards: Vec<Card> = Vec::new();
        old_cards.append(&mut self.cards);
        let ghost start = card_notes(old_cards@);
        let mut cards: Vec<Card> = Vec::new();
        let ghost items = windows@;
        let ghost notes = shared_notes(items);
        proof {
            assert(start =~= old(self)@.cards);
            assert(notes.take(0) =~= Seq::<(WindowNote, bool)>::empty());
            assert(card_notes(cards@) =~= Seq::<CardNote>::empty());
        }
        for shared in it: windows.into_iter()
            invariant
                it.seq() == items,
                notes == shared_notes(items),
                (card_notes(old_cards@), card_notes(cards@)) == with_windows(
                    start,
                    notes.take(it.index() as int),
                ),
        {
            let (window, opened) = shared;
            proof {
                assert(notes.take(it.index() + 1).drop_last() =~= notes.take(it.index() as int));
                assert(notes.take(it.index() + 1).last() == (window@, opened));
            }
            join_card(&mut old_cards, &mut cards, window, opened);
        }
        proof {
            assert(notes.take(items.len() as int) =~= notes);
        }
        self.cards = cards;
        self.layout()
    }

    /// Whether the thumbnails should be refreshed; `shown` tells whether the
    /// dashboard is on the screen.
    pub fn previews_due(&self, now: u64, shown: bool) -> (due: bool)
        ensures
            due == (self@.view == NAV_APPS && self@.cards.len() > 0 && shown
                && match self@.previewed_at {
                Some(then) => now - then >= PREVIEW_PAUSE,
                None => true,
            }),
    {
        let rested = match self.previewed_at {
            Some(then) => now >= then && now - then >= PREVIEW_PAUSE,
            None => true,
        };
        self.view == NAV_APPS && self.cards.len() > 0 && shown && rested
    }

    /// Refresh the thumbnails from a decoded frame; `thumbs` gives the size of each
    /// card's thumbnail.
    pub fn update_previews(
        &mut self,
        nv12: &[u8],
        stride: usize,
        display: Size,
        thumbs: &Vec<Size>,
        now: u64,
    ) -> (effects: Vec<Effect>)
        requires
            old(self).wf(),
            thumbs@.len() == old(self)@.cards.len(),
            forall|i: int|
                0 <= i < thumbs@.len() ==> 1 <= (#[trigger] thumbs@[i]).w <= PREVIEW_WIDTH && 1
                    <= thumbs@[i].h <= PREVIEW_HEIGHT,
        ensures
            final(self).wf(),
            final(self)@ == (DashboardNote {
                cards: Seq::new(
                    old(self)@.cards.len(),
                    |i: int|
                        old(self)@.cards[i].previewed_nv12(
                            nv12@,
                            stride as int,
                            display,
                            thumbs@[i],
                        ),
                ),
                previewed_at: Some(now),
                ..old(self)@
            }),
            effect_notes(effects@) == seq![EffectNote::Invalidate],
    {
        let ghost before = self@.cards;
        self.previewed_at = Some(now);
        let mut i: usize = 0;
        while i < self.cards.len()
            invariant
                i <= self.cards@.len(),
                self.cards@.len() == before.len() == thumbs@.len(),
                forall|k: int|
                    0 <= k < thumbs@.len() ==> 1 <= (#[trigger] thumbs@[k]).w <= PREVIEW_WIDTH && 1
                        <= thumbs@[k].h <= PREVIEW_HEIGHT,
                forall|k: int|
                    0 <= k < before.len() ==> (#[trigger] self.cards@[k])@ == if k < i {
                        before[k].previewed_nv12(nv12@, stride as int, display, thumbs@[k])
                    } else {
                        before[k]
                    },
                self@ == (DashboardNote {
                    cards: self@.cards,
                    previewed_at: Some(now),
                    ..old(self)@
                }),
            decreases self.cards@.len() - i,
        {
            self.cards[i].update_preview_nv12(nv12, stride, display, thumbs[i]);
            i += 1;
        }
        proof {
            assert(self@.cards =~= Seq::new(
                before.len(),
                |k: int| before[k].previewed_nv12(nv12@, stride as int, display, thumbs@[k]),
            ));
        }
        one_effect(Effect::Invalidate)
    }

    /// The return key was pressed: whether it is used up. In the search field it
    /// opens the only result, and never disconnects.
    pub fn dialog_message(&mut self, focus: KeyFocus) -> (outcome: (Vec<Effect>, bool))
        requires
            old(self).wf(),
        ensures
            final(self).wf(),
            (final(self)@, effect_notes(outcome.0@), outcome.1) == old(self)@.return_pressed(
                focus,
            ),
    {
        match focus {
            KeyFocus::Search => {
                let matches = self.matches();
                proof {
                    if matches@.len() == 1 {
                        assert(self@.matches()[0] == matches@[0]);
                        assert(matches@[0] < self.cards@.len());
                    }
                }
                if matches.len() == 1 {
                    let id: u64 = self.cards[matches[0]].window.id;
                    self.ask(Action::OpenWindow(id));
                }
                (no_effects(), true)
            },
            KeyFocus::Manual => {
                if self.active {
                    (no_effects(), true)
                } else {
                    (one_effect(Effect::PressManual), true)
                }
            },
            KeyFocus::Elsewhere => (no_effects(), false),
        }
    }

    fn ask(&mut self, action: Action)
        ensures
            final(self)@ == old(self)@.asked(action@),
    {
        let ghost note = action@;
        self.actions.push_back(action);
        proof {
            assert(self@.actions =~= old(self)@.actions.push(note));
        }
    }

    /// A control told of a click or a change.
    pub fn command(&mut self, id: usize, notice: usize, typed: &Typed, zoomed: bool) -> (effects:
        Vec<Effect>)
        requires
            old(self).wf(),
        ensures
            final(self).wf(),
            (final(self)@, effect_notes(effects@)) == old(self)@.commanded(
                id,
                notice,
                typed@,
                zoomed,
            ),
    {
        if CARD_BASE <= id && id < CARD_BASE + CARD_COUNT && notice == CLICKED {
            let slot: usize = id - CARD_BASE;
            proof {
                if slot < self.visible@.len() {
                    assert(self@.visible[slot as int] == self.visible@[slot as int]);
                }
            }
            if slot < self.visible.len() && self.visible[slot] < self.cards.len() {
                let window: u64 = self.cards[self.visible[slot]].window.id;
                self.ask(Action::OpenWindow(window));
            }
            no_effects()
        } else if CARD_MENU_BASE <= id && id < CARD_MENU_BASE + CARD_COUNT && notice == CLICKED {
            one_effect(Effect::OpenCardMenu { slot: id - CARD_MENU_BASE })
        } else if MAC_BASE <= id && id < MAC_BASE + CARD_COUNT && notice == CLICKED
            && !self.active {
            let slot: usize = id - MAC_BASE;
            if slot < self.visible.len() {
                self.selected_device = self.visible[slot];
                self.layout()
            } else {
                no_effects()
            }
        } else if id == SEARCH && notice == CHANGED {
            self.search(to_lower(typed.search.as_str()))
        } else if notice == CLICKED {
            self.click(id, typed, zoomed)
        } else {
            no_effects()
        }
    }

    fn click(&mut self, id: usize, typed: &Typed, zoomed: bool) -> (effects: Vec<Effect>)
        requires
            old(self).wf(),
        ensures
            final(self).wf(),
            (final(self)@, effect_notes(effects@)) == old(self)@.clicked(id, typed@, zoomed),
    {
        if id == CONNECT {
            if self.active {
                self.ask(Action::Disconnect);
            } else {
                match self.selected() {
                    Some(c) => self.ask(Action::Connect(c)),
                    None => {},
                }
            }
            no_effects()
        } else if id == NAV_CONNECTIONS || id == NAV_APPS || id == NAV_SETTINGS {
            self.view = id;
            self.page = 0;
            self.layout()
        } else if id == ADD_MAC {
            self.view = NAV_SETTINGS;
            self.page = 0;
            let mut effects = self.layout();
            let ghost laid = effect_notes(effects@);
            push_effect(&mut effects, Effect::Focus { id: HOST });
            proof {
                assert(effect_notes(effects@) =~= laid + seq![EffectNote::Focus { id: HOST }]);
            }
            effects
        } else if id == FORGET && !self.active {
            match self.selected() {
                Some(c) => {
                    self.drop_saved(&c);
                    one_effect(Effect::SaveForgotten)
                },
                None => no_effects(),
            }
        } else if id == SORT {
            one_effect(Effect::OpenSortMenu)
        } else if id == GRID || id == LIST {
            self.list = id == LIST;
            self.page = 0;
            self.layout()
        } else if id == PREVIOUS {
            if self.page > 0 {
                self.page = self.page - 1;
            }
            self.layout()
        } else if id == NEXT {
            if self.page < usize::MAX {
                self.page = self.page + 1;
            }
            self.layout()
        } else if id == MANUAL && !self.active {
            match Connection::manual(
                typed.host.as_str(),
                typed.control.as_str(),
                typed.video.as_str(),
            ) {
                Ok(c) => {
                    self.ask(Action::Connect(c));
                    no_effects()
                },
                Err(e) => {
                    let ghost message = e@;
                    self.status = e;
                    proof {
                        assert(self@ == (DashboardNote { status: message, ..old(self)@ }));
                    }
                    one_effect(Effect::Invalidate)
                },
            }
        } else if id == REFRESH {
            if self.scanning {
                no_effects()
            } else {
                self.start_scan()
            }
        } else if id == UPDATE {
            one_effect(Effect::CheckForUpdates)
        } else if id == MINIMIZE {
            one_effect(Effect::System { command: SystemCommand::Minimize })
        } else if id == MAXIMIZE {
            let command = if zoomed {
                SystemCommand::Restore
            } else {
                SystemCommand::Maximize
            };
            one_effect(Effect::System { command })
        } else if id == CLOSE {
            one_effect(Effect::System { command: SystemCommand::Close })
        } else {
            no_effects()
        }
    }

    /// Drop every saved connection that leads where `c` leads.
    fn drop_saved(&mut self, c: &Connection)
        ensures
            final(self)@ == (DashboardNote { saved: others(old(self)@.saved, c@), ..old(self)@ }),
    {
        let ghost all = self@.saved;
        let mut i: usize = 0;
        let ghost mut seen: int = 0;
        proof {
            assert(all.take(0) =~= Seq::<ConnectionNote>::empty());
            assert(Seq::<ConnectionNote>::empty() + all.skip(0) =~= all);
        }
        while i < self.saved.len()
            invariant
                0 <= seen <= all.len(),
                i == others(all.take(seen), c@).len(),
                connection_notes(self.saved@) == others(all.take(seen), c@) + all.skip(seen),
                self@ == (DashboardNote { saved: self@.saved, ..old(self)@ }),
            decreases self.saved@.len() - i,
        {
            let ghost kept = others(all.take(seen), c@);
            proof {
                assert(connection_notes(self.saved@)[i as int] == all[seen]);
                assert(all.take(seen + 1).drop_last() =~= all.take(seen));
            }
            if self.saved[i].same_destination(c) {
                let ghost notes = connection_notes(self.saved@);
                self.saved.remove(i);
                proof {
                    assert(connection_notes(self.saved@) =~= notes.remove(i as int));
                    assert(connection_notes(self.saved@) =~= kept + all.skip(seen + 1));
                }
            } else {
                proof {
                    assert(kept + all.skip(seen) =~= kept.push(all[seen]) + all.skip(seen + 1));
                }
                i += 1;
            }
            proof {
                seen = seen + 1;
            }
        }
        proof {
            assert(all.skip(seen).len() == 0);
            assert(all.take(seen) =~= all);
            assert(connection_notes(self.saved@) =~= others(all, c@));
        }
    }

    /// Show the windows whose titles hold a query, which is in lower case.
    pub fn search(&mut self, query: String) -> (effects: Vec<Effect>)
        requires
            old(self).wf(),
        ensures
            final(self).wf(),
            (final(self)@, effect_notes(effects@)) == old(self)@.searched(query@),
    {
        self.query = query;
        self.page = 0;
        self.layout()
    }

    /// The window of a slot's card, and whether it is open on this PC.
    pub fn card_menu(&self, slot: usize) -> (card: Option<(u64, bool)>)
        requires
            self.wf(),
        ensures
            card == self@.card_in(slot as int),
    {
        proof {
            if slot < self.visible@.len() {
                assert(self@.visible[slot as int] == self.visible@[slot as int]);
            }
        }
        if slot < self.visible.len() && self.visible[slot] < self.cards.len() {
            let card = &self.cards[self.visible[slot]];
            Some((card.window.id, card.opened))
        } else {
            None
        }
    }

    /// What was chosen from a card's menu: the first entry opens the window, the
    /// second hides it.
    pub fn card_menu_chosen(&mut self, window: u64, choice: i32)
        requires
            old(self).wf(),
        ensures
            final(self).wf(),
            final(self)@ == if choice == 1 {
                old(self)@.asked(ActionNote::OpenWindow(window))
            } else if choice == 2 {
                old(self)@.asked(ActionNote::HideWindow(window))
            } else {
                old(self)@
            },
    {
        if choice == 1 {
            self.ask(Action::OpenWindow(window));
        } else if choice == 2 {
            self.ask(Action::HideWindow(window));
        }
    }

    /// What was chosen from the sort menu: the first entry sorts by name.
    pub fn sort_menu_chosen(&mut self, choice: i32) -> (effects: Vec<Effect>)
        requires
            old(self).wf(),
        ensures
            final(self).wf(),
            (final(self)@, effect_notes(effects@)) == if choice != 0 {
                (DashboardNote { sort_name: choice == 1, page: 0, ..old(self)@ }).relaid()
            } else {
                (old(self)@, Seq::empty())
            },
    {
        if choice == 0 {
            return no_effects();
        }
        self.sort_name = choice == 1;
        self.page = 0;
        self.layout()
    }
}

} // verus!
