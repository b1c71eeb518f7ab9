//! What the dashboard promises: pages that hold every item once, and a layout that
//! never shows what is not there.

use vstd::prelude::*;

use crate::connections::without_repeats;
use crate::connections::ConnectionNote;
use crate::text::holds_text;
use crate::text::lowercase;
use crate::win::commands::same_row;
use crate::win::commands::KeyFocus;
use crate::win::commands::TypedNote;
use crate::win::dashboard::last_page;
use crate::win::dashboard::page_of;
use crate::win::dashboard::search_keys;
use crate::win::dashboard::ActionNote;
use crate::win::dashboard::DashboardNote;
use crate::win::dashboard::CONNECT;
use crate::win::gallery::CARD_COUNT;
use crate::win::search::law_search_finds_exactly_the_matches;

verus! {

/// A search shows exactly the cards whose title holds the query, however they are
/// sorted.
pub proof fn law_search_shows_exactly_the_matches(d: DashboardNote, i: int)
    requires
        0 <= i < d.cards.len(),
    ensures
        d.matches().contains(i) <==> holds_text(lowercase(d.cards[i].window.title), d.query),
{
    law_search_finds_exactly_the_matches(search_keys(d.cards), d.query, d.sort_name, i);
}

/// Every item of the view stands on one of its pages, and turning the pages shows
/// them in order.
pub proof fn law_pages_cover_every_item(items: Seq<int>, page_size: int, k: int)
    requires
        page_size >= 1,
        0 <= k < items.len(),
    ensures
        ({
            let page = k / page_size;
            &&& 0 <= page <= last_page(items.len() as int, page_size)
            &&& page * page_size <= k < page * page_size + page_size
            &&& page_of(items, page, page_size)[k - page * page_size] == items[k]
        }),
{
    let len = items.len() as int;
    let page = k / page_size;
    assert(page * page_size <= k < page * page_size + page_size && 0 <= page) by (nonlinear_arith)
        requires
            page == k / page_size,
            page_size >= 1,
            k >= 0,
    ;
    assert(k / page_size <= (len - 1) / page_size) by (nonlinear_arith)
        requires
            k <= len - 1,
            page_size >= 1,
    ;
    assert(0 <= page * page_size) by (nonlinear_arith)
        requires
            page >= 0,
            page_size >= 1,
    ;
}

/// A page holds at least one item where the view has any, and never more than there
/// are slots.
pub proof fn law_pages_fit_the_slots(d: DashboardNote)
    requires
        d.ready(),
        d.extent is Some,
    ensures
        1 <= d.laid_out().page_size <= CARD_COUNT,
        d.laid_out().visible.len() <= d.laid_out().page_size,
        d.items().len() > 0 ==> d.laid_out().visible.len() > 0,
        0 <= d.laid_out().page <= last_page(d.items().len() as int, d.laid_out().page_size),
{
    let (w, h) = d.extent->0;
    let size = d.page_room(w, h);
    let cols = d.columns(w);
    assert(1 <= size <= CARD_COUNT) by {
        let rows = crate::win::dashboard::between(
            crate::win::input::quotient(h - 348 - 62, 204),
            1,
            3,
        );
        assert(1 <= cols * rows) by (nonlinear_arith)
            requires
                cols >= 1,
                rows >= 1,
        ;
    }
    let len = d.items().len() as int;
    let page = d.laid_out().page;
    if len > 0 {
        assert(0 <= page * size <= len - 1) by (nonlinear_arith)
            requires
                0 <= page <= (len - 1) / size,
                size >= 1,
                len >= 1,
        ;
    } else {
        assert(page * size == 0) by (nonlinear_arith)
            requires
                page == 0,
        ;
    }
}

/// While a session is active, the connect button only ever disconnects, whatever is
/// selected.
pub proof fn law_active_sessions_only_disconnect(d: DashboardNote, typed: TypedNote, zoomed: bool)
    requires
        d.active,
    ensures
        d.clicked(CONNECT, typed, zoomed).0.actions == d.actions.push(ActionNote::Disconnect),
{
}

proof fn lemma_same_row(rows: Seq<ConnectionNote>, c: ConnectionNote, i: int)
    requires
        0 <= i <= rows.len(),
    ensures
        i <= same_row(rows, c, i) <= rows.len(),
        same_row(rows, c, i) < rows.len() ==> rows[same_row(rows, c, i)].same_place(c),
    decreases rows.len() - i,
{
    if i < rows.len() && !rows[i].same_place(c) {
        lemma_same_row(rows, c, i + 1);
    }
}

/// The selection follows its Mac when the list changes: where the new list still
/// leads there, that row is selected.
pub proof fn law_selection_follows_its_mac(d: DashboardNote)
    requires
        d.selected() is Some,
        same_row(without_repeats(d.nearby + d.saved), d.selected()->0, 0) < without_repeats(
            d.nearby + d.saved,
        ).len(),
    ensures
        d.with_rows().selected() matches Some(c) && c.same_place(d.selected()->0),
{
    lemma_same_row(without_repeats(d.nearby + d.saved), d.selected()->0, 0);
}

/// The return key in the search field opens the only result or does nothing: it never
/// ends a session.
pub proof fn law_return_in_search_never_disconnects(d: DashboardNote)
    ensures
        ({
            let (e, effects, handled) = d.return_pressed(KeyFocus::Search);
            &&& handled
            &&& effects.len() == 0
            &&& e.actions == d.actions || (e.actions.len() == d.actions.len() + 1
                && e.actions.drop_last() == d.actions && e.actions.last() is OpenWindow)
        }),
{
    let (e, effects, handled) = d.return_pressed(KeyFocus::Search);
    if e.actions != d.actions {
        assert(e.actions.drop_last() =~= d.actions);
    }
}

} // verus!
