//! What can be read and reached on the dashboard. The controls are named here by their
//! numbers.

use vstd::prelude::*;

use crate::connections::leads_there;
use crate::text::decimal;
use crate::text::trimmed;
use crate::win::controls::card_pieces;
use crate::win::controls::ControlLook;
use crate::win::dashboard::DashboardNote;
use crate::win::dashboard::EffectNote;
use crate::win::gallery::spoken_title;
use crate::win::gallery::CardNote;
use crate::win::scene::PieceNote;
use crate::win::scene::Shape;
use crate::win::shell::backdrop;
use crate::win::shell::opened_count;

verus! {

// --- what can be read ------------------------------------------------------

/// Whether a drawing says a text.
pub open spec fn says(pieces: Seq<PieceNote>, text: Seq<char>) -> bool {
    exists|i: int|
        0 <= i < pieces.len() && (#[trigger] pieces[i] matches PieceNote::Text {
            text: said,
            area,
            size,
            bold,
            color,
            centered,
        } && said == text)
}

/// Whether a drawing holds the thumbnail of its card.
pub open spec fn holds_thumbnail(pieces: Seq<PieceNote>) -> bool {
    exists|i: int|
        0 <= i < pieces.len() && (#[trigger] pieces[i] matches PieceNote::Shape(shape)
            && shape is Thumbnail)
}

/// Whether a drawing holds a dot.
pub open spec fn holds_dot(pieces: Seq<PieceNote>) -> bool {
    exists|i: int|
        0 <= i < pieces.len() && (#[trigger] pieces[i] matches PieceNote::Shape(shape)
            && shape is Dot)
}

proof fn lemma_says(front: Seq<PieceNote>, back: Seq<PieceNote>, text: Seq<char>)
    ensures
        says(front, text) || says(back, text) ==> says(front + back, text),
{
    let all = front + back;
    if says(front, text) {
        let i = choose|i: int|
            0 <= i < front.len() && (#[trigger] front[i] matches PieceNote::Text {
                text: said,
                area,
                size,
                bold,
                color,
                centered,
            } && said == text);
        assert(all[i] == front[i]);
    }
    if says(back, text) {
        let i = choose|i: int|
            0 <= i < back.len() && (#[trigger] back[i] matches PieceNote::Text {
                text: said,
                area,
                size,
                bold,
                color,
                centered,
            } && said == text);
        assert(all[front.len() + i] == back[i]);
    }
}

proof fn lemma_shell_says(
    d: DashboardNote,
    shortcut: Seq<char>,
    version: Seq<char>,
    text: Seq<char>,
)
    ensures
        says(d.device_pieces(), text) || says(d.view_pieces(version), text) || says(
            d.shortcut_pieces(shortcut),
            text,
        ) || text == d.status ==> says(d.shell(shortcut, version), text),
{
    let a = backdrop();
    let b = d.shortcut_pieces(shortcut);
    let c = d.device_pieces();
    let e = d.view_pieces(version);
    let all = d.shell(shortcut, version);
    let last = all.skip(all.len() - 1);
    assert(all =~= a + b + c + e + last);
    lemma_says(a, b, text);
    lemma_says(a + b, c, text);
    lemma_says(a + b + c, e, text);
    lemma_says(a + b + c + e, last, text);
    if text == d.status {
        assert(last[0] matches PieceNote::Text { text: said, area, size, bold, color, centered }
            && said == d.status);
    }
}

/// The dashboard always says its status, and of the selected Mac its name, its host and
/// how it is doing.
pub proof fn law_the_selected_mac_is_shown(
    d: DashboardNote,
    shortcut: Seq<char>,
    version: Seq<char>,
)
    ensures
        says(d.shell(shortcut, version), d.status),
        d.selected() matches Some(c) ==> {
            &&& says(d.shell(shortcut, version), c.name)
            &&& says(d.shell(shortcut, version), c.host)
            &&& says(
                d.shell(shortcut, version),
                if d.connected {
                    "Connected"@
                } else if d.active {
                    "Connecting…"@
                } else if leads_there(d.nearby, c) {
                    "Available nearby"@
                } else {
                    "Saved Mac"@
                },
            )
        },
        d.selected() is None ==> says(d.shell(shortcut, version), "No Mac selected"@),
        d.active ==> says(d.shell(shortcut, version), shortcut),
{
    let p = d.device_pieces();
    assert(p[1] matches PieceNote::Text { text, area, size, bold, color, centered } && text
        == d.device_name());
    assert(p[3] matches PieceNote::Text { text, area, size, bold, color, centered } && text
        == d.device_label());
    assert(p[4] matches PieceNote::Text { text, area, size, bold, color, centered } && text
        == d.device_host());
    lemma_shell_says(d, shortcut, version, d.status);
    lemma_shell_says(d, shortcut, version, d.device_name());
    lemma_shell_says(d, shortcut, version, d.device_label());
    lemma_shell_says(d, shortcut, version, d.device_host());
    lemma_shell_says(d, shortcut, version, shortcut);
    if d.active {
        assert(d.shortcut_pieces(shortcut)[0] matches PieceNote::Text {
            text,
            area,
            size,
            bold,
            color,
            centered,
        } && text == shortcut);
    }
}

/// The cards that are open are counted one by one.
pub proof fn law_open_cards_are_counted(cards: Seq<CardNote>)
    ensures
        opened_count(cards) == cards.filter(|card: CardNote| card.opened).len(),
    decreases cards.len(),
{
    reveal(Seq::filter);
    if cards.len() > 0 {
        law_open_cards_are_counted(cards.drop_last());
    }
}

/// The view of the windows (11) says in a session how many there are and how many of them
/// are open; where none is shown it says why.
pub proof fn law_the_windows_are_counted(d: DashboardNote, shortcut: Seq<char>, version: Seq<char>)
    requires
        d.view == 11,
    ensures
        d.connected ==> says(
            d.shell(shortcut, version),
            decimal(d.cards.len()) + " windows · "@ + decimal(
                d.cards.filter(|card: CardNote| card.opened).len(),
            ) + " open on this PC"@,
        ),
        d.visible.len() == 0 && d.query.len() > 0 ==> says(
            d.shell(shortcut, version),
            "No matching windows"@,
        ),
        d.visible.len() == 0 && d.query.len() == 0 && d.connected ==> says(
            d.shell(shortcut, version),
            "No shared windows"@,
        ),
        d.visible.len() == 0 && d.query.len() == 0 && !d.connected ==> says(
            d.shell(shortcut, version),
            "Connect to a Mac"@,
        ),
{
    let p = d.view_pieces(version);
    law_open_cards_are_counted(d.cards);
    assert(p[1] matches PieceNote::Text { text, area, size, bold, color, centered } && text
        == d.gallery_detail());
    lemma_shell_says(d, shortcut, version, d.gallery_detail());
    if d.visible.len() == 0 {
        assert(p[6] matches PieceNote::Text { text, area, size, bold, color, centered } && text
            == d.gallery_hint().0);
        lemma_shell_says(d, shortcut, version, d.gallery_hint().0);
    }
}

/// The view of the Macs (10) says what the last scan found, or that one is under way.
pub proof fn law_scans_are_shown(d: DashboardNote, shortcut: Seq<char>, version: Seq<char>)
    requires
        d.view == 10,
    ensures
        says(
            d.shell(shortcut, version),
            if d.scanning {
                "Looking for nearby Macs…"@
            } else {
                d.discovery
            },
        ),
        d.rows.len() == 0 ==> says(d.shell(shortcut, version), "No Macs found"@),
{
    let p = d.view_pieces(version);
    let text = if d.scanning {
        "Looking for nearby Macs…"@
    } else {
        d.discovery
    };
    assert(p[2] matches PieceNote::Text { text: said, area, size, bold, color, centered } && said
        == text);
    lemma_shell_says(d, shortcut, version, text);
    if d.rows.len() == 0 {
        assert(p[3] matches PieceNote::Text { text: said, area, size, bold, color, centered }
            && said == "No Macs found"@);
        lemma_shell_says(d, shortcut, version, "No Macs found"@);
    }
}

/// The settings say which version this is.
pub proof fn law_the_version_is_shown(d: DashboardNote, shortcut: Seq<char>, version: Seq<char>)
    requires
        d.view == 13,
    ensures
        says(d.shell(shortcut, version), "Transom "@ + version),
{
    let p = d.view_pieces(version);
    assert(p[8] matches PieceNote::Text { text, area, size, bold, color, centered } && text
        == "Transom "@ + version);
    lemma_shell_says(d, shortcut, version, "Transom "@ + version);
}

/// A card says the title of its window, holds its thumbnail if there is one, and has a dot
/// if the window is open on this PC.
pub proof fn law_cards_tell_of_their_window(card: CardNote, lit: bool, list: bool)
    ensures
        says(
            card_pieces(card, lit, list),
            if trimmed(card.window.title).len() > 0 {
                card.window.title
            } else {
                "Untitled window"@
            },
        ),
        list ==> says(
            card_pieces(card, lit, list),
            if card.opened {
                "Open on this PC"@
            } else {
                "Available to open"@
            },
        ),
        holds_thumbnail(card_pieces(card, lit, list)) <==> card.size.w > 0 && card.pixels.len() > 0,
        holds_dot(card_pieces(card, lit, list)) <==> card.opened,
{
    let p = card_pieces(card, lit, list);
    let title = crate::win::controls::shown_title(card.window.title);
    let at = if list {
        4int
    } else {
        5
    };
    assert(p[at] matches PieceNote::Text { text, area, size, bold, color, centered } && text
        == title);
    if list {
        assert(p[5] is Text);
    }
    if card.size.w > 0 && card.pixels.len() > 0 {
        assert(p[3] matches PieceNote::Shape(shape) && shape is Thumbnail);
    }
    if card.opened {
        assert(p[6] matches PieceNote::Shape(shape) && shape is Dot);
    }
}

/// A screen reader says of a card what a click on it does, and its title.
pub proof fn law_cards_are_spoken_of(card: CardNote)
    ensures
        spoken_title(card) == (if card.opened {
            "Show window: "@
        } else {
            "Open window: "@
        }) + card.window.title,
{
    reveal_strlit("Show window");
    reveal_strlit("Open window");
    reveal_strlit(": ");
    reveal_strlit("Show window: ");
    reveal_strlit("Open window: ");
    assert("Show window"@ + ": "@ =~= "Show window: "@);
    assert("Open window"@ + ": "@ =~= "Open window: "@);
}

/// A row says the name of its Mac, where it is reached, and how it is doing.
pub proof fn law_rows_tell_of_their_mac(d: DashboardNote, i: int)
    requires
        0 <= i < d.rows.len(),
    ensures
        ({
            let c = d.rows[i];
            let p = d.row_pieces(i);
            &&& says(p, c.name)
            &&& says(
                p,
                c.host + "  ·  "@ + decimal(c.control_port as nat) + " / "@ + (
                if c.video_port is Some {
                    decimal(c.video_port->0 as nat)
                } else {
                    "no video"@
                }),
            )
            &&& says(
                p,
                if i != d.selected_device {
                    if leads_there(d.nearby, c) {
                        "Nearby"@
                    } else {
                        "Saved"@
                    }
                } else if d.connected {
                    "Connected"@
                } else if d.active {
                    "Connecting…"@
                } else {
                    "Selected"@
                },
            )
        }),
{
    let c = d.rows[i];
    let p = d.row_pieces(i);
    assert(p[3] matches PieceNote::Text { text, area, size, bold, color, centered } && text
        == c.name);
    assert(p[4] matches PieceNote::Text { text, area, size, bold, color, centered } && text
        == crate::win::controls::endpoint_text(c));
    assert(p[5] matches PieceNote::Text { text, area, size, bold, color, centered } && text
        == d.row_status(i));
}

/// A slot shows the card or the Mac that it stands for.
pub proof fn law_slots_show_what_they_stand_for(
    d: DashboardNote,
    slot: usize,
    look: ControlLook,
    label: Seq<char>,
)
    requires
        slot < 12,
        slot < d.visible.len(),
        0 <= d.visible[slot as int],
    ensures
        d.visible[slot as int] < d.rows.len() ==> says(
            d.control_pieces((3000 + slot) as usize, look, label),
            d.rows[d.visible[slot as int]].name,
        ),
        d.visible[slot as int] < d.cards.len() && trimmed(
            d.cards[d.visible[slot as int]].window.title,
        ).len() > 0 ==> says(
            d.control_pieces((1000 + slot) as usize, look, label),
            d.cards[d.visible[slot as int]].window.title,
        ),
{
    let k = d.visible[slot as int];
    if k < d.rows.len() {
        let id = (3000 + slot) as usize;
        law_rows_tell_of_their_mac(d, k);
        lemma_control_says(d, id, look, label, d.rows[k].name);
    }
    if k < d.cards.len() && trimmed(d.cards[k].window.title).len() > 0 {
        let id = (1000 + slot) as usize;
        law_cards_tell_of_their_window(
            d.cards[k],
            look.focused || look.pressed || look.hovered,
            d.list,
        );
        lemma_control_says(d, id, look, label, d.cards[k].window.title);
    }
}

proof fn lemma_control_says(
    d: DashboardNote,
    id: usize,
    look: ControlLook,
    label: Seq<char>,
    text: Seq<char>,
)
    requires
        says(d.body_pieces(id, look, label), text),
    ensures
        says(d.control_pieces(id, look, label), text),
{
    let all = d.control_pieces(id, look, label);
    let body = d.body_pieces(id, look, label);
    let n = if look.hovered && !look.disabled {
        1int
    } else {
        0
    };
    let front = all.take(n);
    let back = all.skip(n + body.len());
    assert(all =~= front + body + back);
    lemma_says(front, body, text);
    lemma_says(front + body, back, text);
}

// --- what can be reached ---------------------------------------------------

/// A control that cannot do anything is disabled: going back (40) on the first page, going
/// on (41) where there is no further page, refreshing (55) during a scan, forgetting (56)
/// what is not saved or in use, connecting (1) to nothing, and connecting by hand (53) in
/// a session.
pub proof fn law_buttons_are_enabled_where_they_work(d: DashboardNote)
    requires
        d.extent is Some,
        d.ready(),
    ensures
        ({
            let effects = d.layout_effects();
            let more = d.items().len() > 0 && (d.page + 1) * d.page_size < d.items().len();
            &&& effects.contains(EffectNote::Enable { id: 40, on: d.page > 0 })
            &&& effects.contains(EffectNote::Enable { id: 41, on: more })
            &&& effects.contains(EffectNote::Enable { id: 55, on: !d.scanning })
            &&& effects.contains(
                EffectNote::Enable {
                    id: 56,
                    on: !d.active && (d.selected() matches Some(c) && leads_there(d.saved, c)),
                },
            )
            &&& effects.contains(
                EffectNote::Enable { id: 1, on: d.active || d.rows.len() > 0 },
            )
            &&& effects.contains(EffectNote::Enable { id: 53, on: !d.active })
        }),
{
    let (w, h) = d.extent->0;
    let effects = d.layout_effects();
    let top = d.top_effects(w, h);
    let bottom = d.bottom_effects(w, h);
    let n = effects.len() - bottom.len();
    let size = d.page_size;
    let len = d.items().len() as int;
    if len > 0 {
        assert((d.page + 1) * size < len <==> d.page < (len - 1) / size) by (nonlinear_arith)
            requires
                size >= 1,
                len >= 1,
                d.page >= 0,
        ;
    }
    assert(effects[15] == top[15]);
    assert(effects[16] == top[16]);
    assert(effects[n + 2] == bottom[2]);
    assert(effects[n + 3] == bottom[3]);
    assert(effects[n + 9] == bottom[9]);
    assert(effects[n + 10] == bottom[10]);
}

/// Whether two places have no point in common.
pub open spec fn apart(a: EffectNote, b: EffectNote) -> bool {
    a matches EffectNote::Place { id, x, y, w, h, visible } && (b matches EffectNote::Place {
        id: bid,
        x: bx,
        y: by,
        w: bw,
        h: bh,
        visible: bv,
    } && (x + w <= bx || bx + bw <= x || y + h <= by || by + bh <= y))
}

/// Cards in a list stand below one another, and none covers another. Each says what a
/// screen reader says of its card.
pub proof fn law_listed_cards_do_not_overlap(d: DashboardNote, w: int, a: int, b: int)
    requires
        d.view == 11,
        d.list,
        0 <= a < b < d.visible.len(),
        b < 12,
    ensures
        d.card_effects(w, a).len() == 2,
        apart(d.card_effects(w, a)[1], d.card_effects(w, b)[1]),
        d.card_effects(w, a)[0] == (EffectNote::SetText {
            id: (1000 + a) as usize,
            text: spoken_title(d.cards[d.visible[a]]),
        }),
{
}

/// Cards in a grid stand side by side and row below row, and none covers another.
pub proof fn law_cards_in_a_grid_do_not_overlap(d: DashboardNote, w: int, a: int, b: int)
    requires
        d.view == 11,
        !d.list,
        0 <= a < b < d.visible.len(),
        b < 12,
        w >= 300,
    ensures
        d.card_effects(w, a).len() == 2,
        apart(d.card_effects(w, a)[1], d.card_effects(w, b)[1]),
        d.card_effects(w, a)[0] == (EffectNote::SetText {
            id: (1000 + a) as usize,
            text: spoken_title(d.cards[d.visible[a]]),
        }),
{
    let cols = d.columns(w);
    let cw = d.card_width(w);
    assert(1 <= cols <= 4);
    assert(cw >= 0) by {
        let room = w - 236 - 18 - (cols - 1) * 16;
        assert(cols == 1 || 274 * cols <= w - 266);
        assert(room >= 0);
        assert(room / cols >= 0) by (nonlinear_arith)
            requires
                room >= 0,
                cols >= 1,
        ;
    }
    let ca = a % cols;
    let cb = b % cols;
    let ra = a / cols;
    let rb = b / cols;
    assert(ra <= rb && 0 <= ca && 0 <= cb && (ra == rb ==> ca < cb)) by (nonlinear_arith)
        requires
            0 <= a < b,
            cols >= 1,
            ca == a % cols,
            cb == b % cols,
            ra == a / cols,
            rb == b / cols,
    ;
    if ra == rb {
        assert(ca * (cw + 16) + cw <= cb * (cw + 16)) by (nonlinear_arith)
            requires
                ca + 1 <= cb,
                cw >= 0,
        ;
    }
}

/// The Macs stand below one another, and none covers another. Each can be selected, but
/// not in a session.
pub proof fn law_macs_do_not_overlap(d: DashboardNote, w: int, a: int, b: int)
    requires
        d.view == 10,
        0 <= a < b < d.visible.len(),
        b < 12,
    ensures
        apart(d.mac_effects(w, a)[1], d.mac_effects(w, b)[1]),
        d.mac_effects(w, a)[0] == (EffectNote::SetText {
            id: (3000 + a) as usize,
            text: "Select "@ + d.rows[d.visible[a]].name + " ("@ + d.rows[d.visible[a]].host
                + ")"@,
        }),
        d.mac_effects(w, a)[2] == (EffectNote::Enable { id: (3000 + a) as usize, on: !d.active }),
{
}

/// Slots that show nothing are hidden.
pub proof fn law_empty_slots_are_hidden(d: DashboardNote, w: int, slot: int)
    requires
        0 <= slot < 12,
    ensures
        d.view != 11 || slot >= d.visible.len() ==> d.card_effects(w, slot).len() == 1 && (
        d.card_effects(w, slot)[0] matches EffectNote::Place { id, x, y, w: pw, h, visible } && id
            == 1000 + slot && !visible),
        d.view != 11 || slot >= d.visible.len() ==> d.menu_effects(w, slot).len() == 1 && (
        d.menu_effects(w, slot)[0] matches EffectNote::Place { id, x, y, w: pw, h, visible } && id
            == 2000 + slot && !visible),
        d.view != 10 || slot >= d.visible.len() ==> d.mac_effects(w, slot).len() == 1 && (
        d.mac_effects(w, slot)[0] matches EffectNote::Place { id, x, y, w: pw, h, visible } && id
            == 3000 + slot && !visible),
{
}

/// The buttons of the frame stand side by side at the right end of its top: minimizing
/// (60), maximizing (61), closing (62). Each view shows its own controls.
pub proof fn law_every_view_has_its_controls(d: DashboardNote, w: int, h: int, i: int)
    ensures
        ({
            let top = d.top_effects(w, h);
            let bottom = d.bottom_effects(w, h);
            &&& top[3] matches EffectNote::Place { id, x, y, w: pw, h: ph, visible } && id == 60
                && visible && (top[4] matches EffectNote::Place {
                id: id2,
                x: x2,
                y: y2,
                w: w2,
                h: h2,
                visible: v2,
            } && id2 == 61 && v2 && x + pw == x2 && (top[5] matches EffectNote::Place {
                id: id3,
                x: x3,
                y: y3,
                w: w3,
                h: h3,
                visible: v3,
            } && id3 == 62 && v3 && x2 + w2 == x3 && w - 2 == x3 + w3))
            &&& 7 <= i <= 10 ==> (top[i] matches EffectNote::Place {
                id,
                x,
                y,
                w: pw,
                h: ph,
                visible,
            } && 30 <= id <= 33 && visible == (d.view == 11))
            &&& 12 <= i <= 14 ==> (top[i] matches EffectNote::Place {
                id,
                x,
                y,
                w: pw,
                h: ph,
                visible,
            } && 55 <= id <= 57 && visible == (d.view == 10))
            &&& 4 <= i <= 8 ==> (bottom[i] matches EffectNote::Place {
                id,
                x,
                y,
                w: pw,
                h: ph,
                visible,
            } && 50 <= id <= 54 && visible == (d.view == 13))
            &&& 0 <= i <= 1 ==> (bottom[i] matches EffectNote::Place {
                id,
                x,
                y,
                w: pw,
                h: ph,
                visible,
            } && id == 40 + i && visible == ((d.view == 10 || d.view == 11) && d.items().len()
                > d.page_size))
            &&& top[11] == (EffectNote::SetText {
                id: 31,
                text: if d.sort_name {
                    "Sort: Name"@
                } else {
                    "Sort: Host order"@
                },
            })
        }),
{
}

} // verus!
