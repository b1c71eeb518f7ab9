//! What the dashboard's controls promise, control by control. The controls and their
//! notifications are named here by their numbers.

use vstd::prelude::*;

use crate::connections::leads_there;
use crate::connections::manual_note;
use crate::connections::ConnectionNote;
use crate::endpoint_laws::law_others_lead_elsewhere;
use crate::model::WindowNote;
use crate::text::decimal;
use crate::text::lowercase;
use crate::win::commands::card_with_id;
use crate::win::commands::with_window;
use crate::win::commands::with_windows;
use crate::win::commands::KeyFocus;
use crate::win::commands::TypedNote;
use crate::win::dashboard::ActionNote;
use crate::win::dashboard::DashboardNote;
use crate::win::dashboard::EffectNote;
use crate::win::dashboard::SystemCommand;
use crate::win::gallery::CardNote;

verus! {

// --- buttons ---------------------------------------------------------------

/// The button for the connection (1) asks to connect to the selected Mac, and in a
/// session to disconnect. Nothing else changes.
pub proof fn law_the_connect_button(d: DashboardNote, typed: TypedNote, zoomed: bool)
    ensures
        ({
            let (after, effects) = d.commanded(1, 0, typed, zoomed);
            &&& effects.len() == 0
            &&& after == (DashboardNote { actions: after.actions, ..d })
            &&& d.active ==> after.actions == d.actions.push(ActionNote::Disconnect)
            &&& !d.active && 0 <= d.selected_device < d.rows.len() ==> after.actions
                == d.actions.push(ActionNote::Connect(d.rows[d.selected_device]))
            &&& !d.active && !(0 <= d.selected_device < d.rows.len()) ==> after == d
        }),
{
}

/// The navigation (10, 11 and 13) opens its own view at its first page.
pub proof fn law_the_navigation(d: DashboardNote, id: usize, typed: TypedNote, zoomed: bool)
    requires
        id == 10 || id == 11 || id == 13,
    ensures
        ({
            let (after, effects) = d.commanded(id, 0, typed, zoomed);
            &&& after == (DashboardNote { view: id, page: 0, ..d }).laid_out()
            &&& after.view == id
            &&& effects == after.layout_effects()
        }),
{
}

/// The button that adds a Mac (57) opens the settings (13) and puts the focus into the
/// field of the host (50).
pub proof fn law_adding_a_mac(d: DashboardNote, typed: TypedNote, zoomed: bool)
    ensures
        ({
            let (after, effects) = d.commanded(57, 0, typed, zoomed);
            &&& after.view == 13
            &&& effects.last() == (EffectNote::Focus { id: 50 })
            &&& after.actions == d.actions
        }),
{
}

/// Forgetting (56) takes out of the saved connections exactly those that lead where the
/// selected Mac does, and saves what is left. In a session it does nothing.
pub proof fn law_forgetting_a_mac(d: DashboardNote, typed: TypedNote, zoomed: bool)
    ensures
        ({
            let (after, effects) = d.commanded(56, 0, typed, zoomed);
            &&& d.active || d.selected() is None ==> after == d && effects.len() == 0
            &&& !d.active ==> (d.selected() matches Some(c) ==> {
                &&& after.saved == d.saved.filter(|other: ConnectionNote| !other.same_place(c))
                &&& after == (DashboardNote { saved: after.saved, ..d })
                &&& effects == seq![EffectNote::SaveForgotten]
            })
        }),
{
    if let Some(c) = d.selected() {
        law_others_lead_elsewhere(d.saved, c);
    }
}

/// The grid (32) and the list (33) are shown from their first page.
pub proof fn law_grid_and_list(d: DashboardNote, typed: TypedNote, zoomed: bool)
    ensures
        d.commanded(32, 0, typed, zoomed).0 == (DashboardNote {
            list: false,
            page: 0,
            ..d
        }).laid_out(),
        d.commanded(33, 0, typed, zoomed).0 == (DashboardNote {
            list: true,
            page: 0,
            ..d
        }).laid_out(),
{
}

/// Whether there is a further page.
pub open spec fn has_next(d: DashboardNote) -> bool {
    (d.page + 1) * d.page_size < d.items().len()
}

/// The buttons for the pages (40 and 41) show the page before and the next, where there is
/// one, and stay where they are otherwise. After one and the other the page is the same.
pub proof fn law_turning_pages(d: DashboardNote, typed: TypedNote, zoomed: bool)
    requires
        d.ready(),
        d.extent is Some,
        d.laid_out() == d,
        d.page < usize::MAX,
    ensures
        ({
            let next = d.commanded(41, 0, typed, zoomed).0;
            let back = d.commanded(40, 0, typed, zoomed).0;
            &&& next.page == if has_next(d) {
                d.page + 1
            } else {
                d.page
            }
            &&& back.page == if d.page > 0 {
                d.page - 1
            } else {
                0
            }
            &&& has_next(d) ==> next.commanded(40, 0, typed, zoomed).0.page == d.page
            &&& d.page > 0 ==> back.commanded(41, 0, typed, zoomed).0.page == d.page
        }),
{
    let (w, h) = d.extent->0;
    let size = d.page_size;
    let len = d.items().len() as int;
    crate::win::dashboard_laws::law_pages_fit_the_slots(d);
    assert(size == d.page_room(w, h));
    if len > 0 {
        assert((d.page + 1) * size < len <==> d.page + 1 <= (len - 1) / size) by (nonlinear_arith)
            requires
                size >= 1,
                len >= 1,
                d.page >= 0,
        ;
    } else {
        assert((d.page + 1) * size >= 0) by (nonlinear_arith)
            requires
                size >= 1,
                d.page >= 0,
        ;
    }
    let next = d.commanded(41, 0, typed, zoomed).0;
    let back = d.commanded(40, 0, typed, zoomed).0;
    assert(next.items() == d.items());
    assert(back.items() == d.items());
}

/// The manual connection (53) is asked for if it is sound; what is wrong with it is shown
/// otherwise. In a session the button does nothing.
pub proof fn law_the_manual_connection(d: DashboardNote, typed: TypedNote, zoomed: bool)
    ensures
        ({
            let (after, effects) = d.commanded(53, 0, typed, zoomed);
            let made = manual_note(typed.host, typed.control, typed.video);
            &&& d.active ==> after == d && effects.len() == 0
            &&& !d.active ==> (made matches Ok(c) ==> after == (DashboardNote {
                actions: d.actions.push(ActionNote::Connect(c)),
                ..d
            }) && effects.len() == 0)
            &&& !d.active ==> (made matches Err(e) ==> after == (DashboardNote {
                status: e,
                ..d
            }) && effects == seq![EffectNote::Invalidate])
        }),
{
}

/// Refreshing (55) starts a scan, unless one is under way.
pub proof fn law_refreshing(d: DashboardNote, typed: TypedNote, zoomed: bool)
    ensures
        ({
            let (after, effects) = d.commanded(55, 0, typed, zoomed);
            &&& d.scanning ==> after == d && effects.len() == 0
            &&& !d.scanning ==> after.scanning && effects.last() == EffectNote::StartScan
        }),
{
}

/// The buttons of the frame do what they say: 60 minimizes, 61 maximizes or restores, 62
/// closes. The menu of orders is opened by 31, and updates are looked for by 54.
pub proof fn law_the_buttons_of_the_frame(d: DashboardNote, typed: TypedNote)
    ensures
        forall|zoomed: bool|
            #![auto]
            d.commanded(60, 0, typed, zoomed) == (
                d,
                seq![EffectNote::System { command: SystemCommand::Minimize }],
            ),
        d.commanded(61, 0, typed, false) == (
            d,
            seq![EffectNote::System { command: SystemCommand::Maximize }],
        ),
        d.commanded(61, 0, typed, true) == (
            d,
            seq![EffectNote::System { command: SystemCommand::Restore }],
        ),
        forall|zoomed: bool|
            #![auto]
            d.commanded(62, 0, typed, zoomed) == (
                d,
                seq![EffectNote::System { command: SystemCommand::Close }],
            ),
        forall|zoomed: bool|
            #![auto]
            d.commanded(31, 0, typed, zoomed) == (d, seq![EffectNote::OpenSortMenu]),
        forall|zoomed: bool|
            #![auto]
            d.commanded(54, 0, typed, zoomed) == (d, seq![EffectNote::CheckForUpdates]),
{
}

/// A card asks to open the window that it shows, its menu button opens its own menu, and a
/// Mac is selected by its row, but not in a session.
pub proof fn law_slots_stand_for_what_they_show(
    d: DashboardNote,
    slot: usize,
    typed: TypedNote,
    zoomed: bool,
)
    requires
        slot < 12,
        d.sound(),
    ensures
        d.view != 10 && slot < d.visible.len() ==> d.commanded(
            (1000 + slot) as usize,
            0,
            typed,
            zoomed,
        ) == (
            DashboardNote {
                actions: d.actions.push(
                    ActionNote::OpenWindow(d.cards[d.visible[slot as int]].window.id),
                ),
                ..d
            },
            Seq::<EffectNote>::empty(),
        ),
        d.commanded((2000 + slot) as usize, 0, typed, zoomed) == (
            d,
            seq![EffectNote::OpenCardMenu { slot }],
        ),
        d.view == 10 && !d.active && slot < d.visible.len() ==> d.commanded(
            (3000 + slot) as usize,
            0,
            typed,
            zoomed,
        ).0.selected() == Some(d.rows[d.visible[slot as int]]),
        d.active ==> d.commanded((3000 + slot) as usize, 0, typed, zoomed).0 == d,
        slot >= d.visible.len() ==> d.commanded((1000 + slot) as usize, 0, typed, zoomed).0 == d,
{
    assert(0 <= slot < d.visible.len() ==> 0 <= d.visible[slot as int]);
}

/// A text in the search field (30, notified by 0x300) is searched for in lower case, from
/// the first page on.
pub proof fn law_typing_searches(d: DashboardNote, typed: TypedNote, zoomed: bool)
    ensures
        ({
            let (after, effects) = d.commanded(30, 0x300, typed, zoomed);
            &&& after == (DashboardNote { query: lowercase(typed.search), page: 0, ..d }).laid_out()
            &&& effects == after.layout_effects()
        }),
{
}

/// Notifications other than a click do nothing, but for the search field's.
pub proof fn law_other_notices_do_nothing(
    d: DashboardNote,
    id: usize,
    notice: usize,
    typed: TypedNote,
    zoomed: bool,
)
    requires
        notice != 0,
        id != 30 || notice != 0x300,
    ensures
        d.commanded(id, notice, typed, zoomed) == (d, Seq::<EffectNote>::empty()),
{
}

/// The return key in the search field opens the window of the only match; among the
/// fields of the manual connection it presses their button, unless there is a session.
pub proof fn law_the_return_key(d: DashboardNote)
    ensures
        ({
            let (after, effects, used) = d.return_pressed(KeyFocus::Search);
            &&& used
            &&& effects.len() == 0
            &&& d.matches().len() == 1 ==> after.actions == d.actions.push(
                ActionNote::OpenWindow(d.cards[d.matches()[0]].window.id),
            )
            &&& d.matches().len() != 1 ==> after == d
        }),
        ({
            let (after, effects, used) = d.return_pressed(KeyFocus::Manual);
            &&& used
            &&& after == d
            &&& d.active ==> effects.len() == 0
            &&& !d.active ==> effects == seq![EffectNote::PressManual]
        }),
        !d.return_pressed(KeyFocus::Elsewhere).2,
        d.return_pressed(KeyFocus::Elsewhere).0 == d,
{
}

/// What was asked for is taken in the order in which it was asked for.
pub proof fn law_actions_are_taken_in_order(d: DashboardNote, action: ActionNote)
    ensures
        d.actions.len() == 0 ==> d.asked(action).actions[0] == action,
        d.actions.len() > 0 ==> d.asked(action).actions[0] == d.actions[0],
        d.asked(action).actions.last() == action,
        d.asked(action).action_taken().actions == if d.actions.len() == 0 {
            Seq::empty()
        } else {
            d.action_taken().actions.push(action)
        },
{
    assert(d.asked(action).action_taken().actions =~= if d.actions.len() == 0 {
        Seq::<ActionNote>::empty()
    } else {
        d.action_taken().actions.push(action)
    });
}

// --- scans -----------------------------------------------------------------

/// A scan that ends shows what it found, before the saved Macs, and the next one starts
/// eight seconds later.
pub proof fn law_scans_show_what_they_found(
    d: DashboardNote,
    found: Seq<ConnectionNote>,
    now: u64,
    i: int,
)
    requires
        now + 8_000_000_000 <= u64::MAX,
    ensures
        ({
            let after = d.scan_ended(Ok(found), now).0;
            &&& !after.scanning
            &&& after.nearby == found
            &&& after.saved == d.saved
            &&& after.next_scan == now + 8_000_000_000
            &&& 0 <= i < found.len() ==> leads_there(after.rows, found[i])
            &&& 0 <= i < d.saved.len() ==> leads_there(after.rows, d.saved[i])
            &&& after.discovery == if found.len() == 0 {
                "No nearby Macs. Start sharing in Transom Host."@
            } else if found.len() == 1 {
                decimal(1) + " Mac available nearby"@
            } else {
                decimal(found.len()) + " Macs available nearby"@
            }
        }),
{
    crate::connections_laws::law_rows_are_distinct_and_complete(found + d.saved);
    if 0 <= i < found.len() {
        assert((found + d.saved)[i] == found[i]);
    }
    if 0 <= i < d.saved.len() {
        assert((found + d.saved)[found.len() + i] == d.saved[i]);
    }
}

/// A scan starts when it is due, and only one at a time.
pub proof fn law_scans_start_when_due(d: DashboardNote, now: u64)
    ensures
        d.scanning || now < d.next_scan ==> d.ticked(None, now) == (d, Seq::<EffectNote>::empty()),
        !d.scanning && now >= d.next_scan ==> d.ticked(None, now).0.scanning && d.ticked(
            None,
            now,
        ).1.last() == EffectNote::StartScan,
{
}

/// A scan that failed says why and keeps the rows.
pub proof fn law_failed_scans_say_why(d: DashboardNote, e: Seq<char>, now: u64)
    requires
        now + 8_000_000_000 <= u64::MAX,
    ensures
        ({
            let after = d.scan_ended(Err(e), now).0;
            &&& !after.scanning
            &&& after.discovery == "Discovery unavailable: "@ + e
            &&& after.rows == d.rows
            &&& after.nearby == d.nearby
            &&& after.next_scan == now + 8_000_000_000
        }),
{
}

// --- cards -----------------------------------------------------------------

proof fn lemma_card_place(cards: Seq<CardNote>, id: u64, i: int)
    requires
        0 <= i <= cards.len(),
    ensures
        i <= card_with_id(cards, id, i) <= cards.len(),
        card_with_id(cards, id, i) < cards.len() ==> cards[card_with_id(cards, id, i)].window.id
            == id,
        forall|k: int|
            i <= k < card_with_id(cards, id, i) ==> (#[trigger] cards[k]).window.id != id,
    decreases cards.len() - i,
{
    if i < cards.len() && cards[i].window.id != id {
        lemma_card_place(cards, id, i + 1);
    }
}

/// Whether one of the cards shows a part of the display for a window.
pub open spec fn shows(cards: Seq<CardNote>, window: WindowNote, k: int) -> bool {
    0 <= k < cards.len() && cards[k].window.id == window.id && cards[k].window.source
        == window.source
}

proof fn lemma_cards(old: Seq<CardNote>, windows: Seq<(WindowNote, bool)>, i: int, k: int)
    requires
        forall|a: int, b: int|
            0 <= a < b < windows.len() ==> (#[trigger] windows[a]).0.id != (
            #[trigger] windows[b]).0.id,
        forall|a: int, b: int|
            0 <= a < b < old.len() ==> (#[trigger] old[a]).window.id != (
            #[trigger] old[b]).window.id,
    ensures
        ({
            let (rest, cards) = with_windows(old, windows);
            &&& cards.len() == windows.len()
            &&& 0 <= i < windows.len() ==> {
                &&& cards[i].window == windows[i].0
                &&& cards[i].opened == windows[i].1
                &&& shows(old, windows[i].0, k) ==> cards[i].pixels == old[k].pixels
                    && cards[i].size == old[k].size
                &&& (forall|j: int| !shows(old, windows[i].0, j)) ==> cards[i].pixels.len() == 0
                    && cards[i].size.w == 0 && cards[i].size.h == 0
            }
            &&& forall|a: int, b: int|
                0 <= a < b < rest.len() ==> (#[trigger] rest[a]).window.id != (
                #[trigger] rest[b]).window.id
            &&& forall|card: CardNote| #[trigger]
                rest.contains(card) <==> old.contains(card) && !(exists|j: int|
                    0 <= j < windows.len() && (#[trigger] windows[j]).0.id == card.window.id)
        }),
    decreases windows.len(),
{
    if windows.len() > 0 {
        let front = windows.drop_last();
        let (window, opened) = windows.last();
        let n = windows.len() - 1;
        assert forall|a: int, b: int| 0 <= a < b < front.len() implies (#[trigger] front[a]).0.id
            != (#[trigger] front[b]).0.id by {
            assert(windows[a].0.id != windows[b].0.id);
        }
        lemma_cards(old, front, i, k);
        let (rest, cards) = with_windows(old, front);
        let (left, all) = with_window(rest, cards, window, opened);
        let p = card_with_id(rest, window.id, 0);
        lemma_card_place(rest, window.id, 0);
        assert(!(exists|j: int| 0 <= j < front.len() && (#[trigger] front[j]).0.id == window.id)) by {
            if exists|j: int| 0 <= j < front.len() && (#[trigger] front[j]).0.id == window.id {
                let j = choose|j: int|
                    0 <= j < front.len() && (#[trigger] front[j]).0.id == window.id;
                assert(windows[j].0.id != windows[n].0.id);
            }
        }
        if i == n {
            assert(windows[i] == windows.last());
            if shows(old, window, k) {
                assert(old.contains(old[k]));
                assert(rest.contains(old[k]));
                let q = choose|q: int| 0 <= q < rest.len() && rest[q] == old[k];
                assert(p <= q);
                if p < q {
                    assert(rest[p].window.id != rest[q].window.id);
                }
            }
            if p < rest.len() && rest[p].window.source == window.source {
                assert(rest.contains(rest[p]));
                assert(old.contains(rest[p]));
                let q = choose|q: int| 0 <= q < old.len() && old[q] == rest[p];
                assert(shows(old, window, q));
            }
        } else if 0 <= i < n {
            assert(windows[i] == front[i]);
        }
        assert forall|a: int, b: int| 0 <= a < b < left.len() implies (#[trigger] left[a]).window.id
            != (#[trigger] left[b]).window.id by {
            if p < rest.len() {
                let c = if a < p {
                    a
                } else {
                    a + 1
                };
                let e = if b < p {
                    b
                } else {
                    b + 1
                };
                assert(rest[c].window.id != rest[e].window.id);
            } else {
                assert(rest[a].window.id != rest[b].window.id);
            }
        }
        assert forall|card: CardNote| #[trigger] left.contains(card) <==> old.contains(card) && !(
        exists|j: int| 0 <= j < windows.len() && (#[trigger] windows[j]).0.id == card.window.id) by {
            let here = exists|j: int|
                0 <= j < windows.len() && (#[trigger] windows[j]).0.id == card.window.id;
            let before = exists|j: int|
                0 <= j < front.len() && (#[trigger] front[j]).0.id == card.window.id;
            assert(here <==> before || card.window.id == window.id) by {
                if before {
                    let j = choose|j: int|
                        0 <= j < front.len() && (#[trigger] front[j]).0.id == card.window.id;
                    assert(windows[j].0.id == card.window.id);
                }
                if card.window.id == window.id {
                    assert(windows[n].0.id == card.window.id);
                }
                if here {
                    let j = choose|j: int|
                        0 <= j < windows.len() && (#[trigger] windows[j]).0.id == card.window.id;
                    if j < n {
                        assert(front[j].0.id == card.window.id);
                    }
                }
            }
            assert(rest.contains(card) <==> old.contains(card) && !before);
            if left.contains(card) {
                let a = choose|a: int| 0 <= a < left.len() && left[a] == card;
                if p < rest.len() {
                    let c = if a < p {
                        a
                    } else {
                        a + 1
                    };
                    assert(rest[c] == card);
                    if c < p {
                        assert(rest[c].window.id != rest[p].window.id);
                    } else {
                        assert(rest[p].window.id != rest[c].window.id);
                    }
                } else {
                    assert(rest[a] == card);
                }
            }
            if rest.contains(card) && card.window.id != window.id {
                let a = choose|a: int| 0 <= a < rest.len() && rest[a] == card;
                if p < rest.len() {
                    let c = if a < p {
                        a
                    } else {
                        a - 1
                    };
                    assert(left[c] == card);
                } else {
                    assert(left[a] == card);
                }
            }
        }
    }
}

/// There is one card for each shared window, in order, which tells its window and whether
/// it is open. A card keeps the thumbnail of its window as long as the window shows the
/// same part of the display, and has none otherwise.
pub proof fn law_cards_show_the_shared_windows(
    old: Seq<CardNote>,
    windows: Seq<(WindowNote, bool)>,
    i: int,
    k: int,
)
    requires
        forall|a: int, b: int|
            0 <= a < b < windows.len() ==> (#[trigger] windows[a]).0.id != (
            #[trigger] windows[b]).0.id,
        forall|a: int, b: int|
            0 <= a < b < old.len() ==> (#[trigger] old[a]).window.id != (
            #[trigger] old[b]).window.id,
        0 <= i < windows.len(),
    ensures
        ({
            let cards = with_windows(old, windows).1;
            &&& cards.len() == windows.len()
            &&& cards[i].window == windows[i].0
            &&& cards[i].opened == windows[i].1
            &&& shows(old, windows[i].0, k) ==> cards[i].pixels == old[k].pixels && cards[i].size
                == old[k].size
            &&& (forall|j: int| !shows(old, windows[i].0, j)) ==> cards[i].pixels.len() == 0
                && cards[i].size.w == 0 && cards[i].size.h == 0
        }),
{
    lemma_cards(old, windows, i, k);
}

} // verus!
