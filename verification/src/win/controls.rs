//! What the dashboard's controls look like. Each drawing is relative to its control.

use vstd::prelude::*;

use crate::connections::any_leads_there;
use crate::connections::leads_there;
use crate::connections::Connection;
use crate::connections::ConnectionNote;
use crate::text::decimal;
use crate::text::owned;
use crate::text::trim;
use crate::text::trimmed;
use crate::text::unsigned_to_text;
use crate::win::dashboard::Dashboard;
use crate::win::dashboard::DashboardNote;
use crate::win::dashboard::CARD_MENU_BASE;
use crate::win::dashboard::CLOSE;
use crate::win::dashboard::CONNECT;
use crate::win::dashboard::GRID;
use crate::win::dashboard::LIST;
use crate::win::dashboard::MAC_BASE;
use crate::win::dashboard::MANUAL;
use crate::win::dashboard::MAXIMIZE;
use crate::win::dashboard::MINIMIZE;
use crate::win::dashboard::NAV_APPS;
use crate::win::dashboard::NAV_CONNECTIONS;
use crate::win::dashboard::NAV_SETTINGS;
use crate::win::dashboard::SORT;
use crate::win::gallery::Card;
use crate::win::gallery::CardNote;
use crate::win::gallery::CARD_BASE;
use crate::win::gallery::CARD_COUNT;
use crate::win::scene::across;
use crate::win::scene::area;
use crate::win::scene::centered;
use crate::win::scene::down;
use crate::win::scene::draw;
use crate::win::scene::heading;
use crate::win::scene::inset;
use crate::win::scene::piece_notes;
use crate::win::scene::plain;
use crate::win::scene::px;
use crate::win::scene::write_centered;
use crate::win::scene::write_heading;
use crate::win::scene::write_plain;
use crate::win::scene::Area;
use crate::win::scene::Piece;
use crate::win::scene::PieceNote;
use crate::win::scene::Shape;
use crate::win::scene::BLUE;
use crate::win::scene::GREEN;
use crate::win::scene::LINE;
use crate::win::scene::MUTED;
use crate::win::scene::TEXT;
use crate::win::shell::at;
use crate::win::shell::reaching;

verus! {

/// The state of a control.
#[derive(Debug, Clone, Copy, PartialEq, Eq, Structural)]
pub struct ControlLook {
    pub focused: bool,
    pub pressed: bool,
    pub disabled: bool,
    pub hovered: bool,
}

/// The whole control.
#[verifier::allow_in_spec]
pub fn whole() -> Area
    returns
        area(px(0), px(0), across(0), down(0)),
{
    area(px(0), px(0), across(0), down(0))
}

#[verifier::allow_in_spec]
pub fn icon(glyph: char, area: Area, size: u32, color: u32) -> Shape
    returns
        (Shape::Icon { glyph, area, size, color }),
{
    Shape::Icon { glyph, area, size, color }
}

#[verifier::allow_in_spec]
pub fn fill(area: Area, radius: u32, color: u32, alpha: u32) -> Shape
    returns
        (Shape::Fill { area, radius, color, alpha }),
{
    Shape::Fill { area, radius, color, alpha }
}

#[verifier::allow_in_spec]
pub fn stroke(area: Area, radius: u32, color: u32, alpha: u32, width: u32) -> Shape
    returns
        (Shape::Stroke { area, radius, color, alpha, width }),
{
    Shape::Stroke { area, radius, color, alpha, width }
}

#[verifier::allow_in_spec]
pub fn gradient(area: Area, radius: u32, top: u32, bottom: u32, alpha: u32) -> Shape
    returns
        (Shape::Gradient { area, radius, top, bottom, alpha }),
{
    Shape::Gradient { area, radius, top, bottom, alpha }
}

/// One of two colours.
#[verifier::allow_in_spec]
pub fn pick(first: bool, a: u32, b: u32) -> u32
    returns
        (if first {
            a
        } else {
            b
        }),
{
    if first {
        a
    } else {
        b
    }
}

// ---------------------------------------------------------------------------
// Cards
// ---------------------------------------------------------------------------

/// The title that a card shows.
pub open spec fn shown_title(title: Seq<char>) -> Seq<char> {
    if trimmed(title).len() == 0 {
        "Untitled window"@
    } else {
        title
    }
}

/// Where a card's thumbnail goes.
#[verifier::allow_in_spec]
pub fn thumbnail_area(list: bool) -> Area
    returns
        (if list {
            area(px(12), px(9), px(92), down(18))
        } else {
            area(px(13), px(12), across(26), down(62))
        }),
{
    if list {
        area(px(12), px(9), px(92), down(18))
    } else {
        area(px(13), px(12), across(26), down(62))
    }
}

/// The text of a card, in a list or in a grid.
pub open spec fn card_text(card: CardNote, list: bool) -> Seq<PieceNote> {
    if list {
        seq![
            heading(shown_title(card.window.title), reaching(122, 10, 175, 27), 14, TEXT),
            plain(
                if card.opened {
                    "Open on this PC"@
                } else {
                    "Available to open"@
                },
                reaching(122, 37, 175, 22),
                12,
                MUTED,
            ),
        ]
    } else {
        seq![
            PieceNote::Shape(icon('\u{E8A7}', area(px(14), down(41), px(30), px(30)), 20, MUTED)),
            heading(
                shown_title(card.window.title),
                area(px(55), down(43), across(103), px(34)),
                14,
                TEXT,
            ),
        ]
    }
}

/// A card.
pub open spec fn card_pieces(card: CardNote, lit: bool, list: bool) -> Seq<PieceNote> {
    seq![
        PieceNote::Shape(gradient(inset(1), 110, pick(lit, 0x253B60, 0x222D3C), 0x141E2A, 97)),
        PieceNote::Shape(
            stroke(inset(1), 110, pick(lit, 0x4685FF, 0x344355), 85, pick(lit, 20, 8)),
        ),
        PieceNote::Shape(fill(thumbnail_area(list), 50, 0x080F19, 100)),
        if card.size.w > 0 && card.pixels.len() > 0 {
            PieceNote::Shape(Shape::Thumbnail { area: thumbnail_area(list) })
        } else {
            PieceNote::Shape(icon('\u{E7F4}', thumbnail_area(list), pick(list, 24, 36), 0x59718E))
        },
    ] + card_text(card, list) + (if card.opened {
        seq![PieceNote::Shape(Shape::Dot { x: across(16), y: px(18), radius: 4, color: GREEN })]
    } else {
        Seq::empty()
    })
}

/// A card: its thumbnail or a symbol, its title, and whether it is open.
pub fn draw_glass(card: &Card, lit: bool, list: bool) -> (pieces: Vec<Piece>)
    ensures
        piece_notes(pieces@) == card_pieces(card@, lit, list),
{
    let mut out: Vec<Piece> = Vec::new();
    draw(&mut out, gradient(inset(1), 110, pick(lit, 0x253B60, 0x222D3C), 0x141E2A, 97));
    draw(&mut out, stroke(inset(1), 110, pick(lit, 0x4685FF, 0x344355), 85, pick(lit, 20, 8)));
    draw(&mut out, fill(thumbnail_area(list), 50, 0x080F19, 100));
    if card.size.w > 0 && card.pixels.len() > 0 {
        draw(&mut out, Shape::Thumbnail { area: thumbnail_area(list) });
    } else {
        draw(&mut out, icon('\u{E7F4}', thumbnail_area(list), pick(list, 24, 36), 0x59718E));
    }
    let title = if trim(card.window.title.as_str()).as_str().is_empty() {
        "Untitled window"
    } else {
        card.window.title.as_str()
    };
    if list {
        write_heading(&mut out, title, reaching(122, 10, 175, 27), 14, TEXT);
        let state = if card.opened {
            "Open on this PC"
        } else {
            "Available to open"
        };
        write_plain(&mut out, state, reaching(122, 37, 175, 22), 12, MUTED);
    } else {
        draw(&mut out, icon('\u{E8A7}', area(px(14), down(41), px(30), px(30)), 20, MUTED));
        write_heading(&mut out, title, area(px(55), down(43), across(103), px(34)), 14, TEXT);
    }
    if card.opened {
        draw(&mut out, Shape::Dot { x: across(16), y: px(18), radius: 4, color: GREEN });
    }
    proof {
        assert(piece_notes(out@) =~= card_pieces(card@, lit, list));
    }
    out
}

// ---------------------------------------------------------------------------
// The other controls
// ---------------------------------------------------------------------------

/// Where a Mac is reached.
pub open spec fn endpoint_text(c: ConnectionNote) -> Seq<char> {
    c.host + "  ·  "@ + decimal(c.control_port as nat) + " / "@ + (match c.video_port {
        Some(port) => decimal(port as nat),
        None => "no video"@,
    })
}

pub open spec fn is_card_slot(id: usize) -> bool {
    CARD_BASE <= id < CARD_BASE + CARD_COUNT
}

impl DashboardNote {
    /// What is said of a Mac in the list.
    pub open spec fn row_status(self, i: int) -> Seq<char> {
        let selected = i == self.selected_device;
        if selected && self.connected {
            "Connected"@
        } else if selected && self.active {
            "Connecting…"@
        } else if selected {
            "Selected"@
        } else if leads_there(self.nearby, self.rows[i]) {
            "Nearby"@
        } else {
            "Saved"@
        }
    }

    /// A Mac in the list.
    pub open spec fn row_pieces(self, i: int) -> Seq<PieceNote> {
        let c = self.rows[i];
        let selected = i == self.selected_device;
        seq![
            PieceNote::Shape(fill(inset(1), 100, pick(selected, 0x203858, 0x182333), 85)),
            PieceNote::Shape(stroke(inset(1), 100, pick(selected, 0x558FFF, LINE), 90, 10)),
            PieceNote::Shape(icon('\u{E7F4}', at(18, 18, 40, 40), 25, MUTED)),
            heading(c.name, reaching(78, 10, 270, 29), 16, TEXT),
            plain(endpoint_text(c), reaching(78, 40, 270, 23), 12, MUTED),
            centered(
                self.row_status(i),
                area(across(175), px(20), px(150), px(36)),
                13,
                pick(selected, 0x8BB4FF, MUTED),
            ),
        ]
    }

    /// An entry of the navigation.
    pub open spec fn nav_pieces(self, id: usize) -> Seq<PieceNote> {
        (if self.view == id {
            seq![
                PieceNote::Shape(fill(inset(1), 100, 0x20385C, 90)),
                PieceNote::Shape(
                    fill(area(px(1), px(12), px(3), down(24)), 15, 0x4A86FF, 100),
                ),
            ]
        } else {
            Seq::empty()
        }) + seq![
            PieceNote::Shape(
                icon(
                    if id == NAV_CONNECTIONS {
                        '\u{E977}'
                    } else if id == NAV_APPS {
                        '\u{E8A7}'
                    } else {
                        '\u{E713}'
                    },
                    at(14, 10, 35, 30),
                    21,
                    MUTED,
                ),
            ),
            plain(
                if id == NAV_CONNECTIONS {
                    "Macs"@
                } else if id == NAV_APPS {
                    "Windows"@
                } else {
                    "Settings"@
                },
                reaching(65, 8, 70, 34),
                14,
                TEXT,
            ),
        ]
    }

    /// A button of the window's frame.
    pub open spec fn frame_pieces(self, id: usize, look: ControlLook) -> Seq<PieceNote> {
        (if look.pressed {
            seq![PieceNote::Shape(fill(whole(), 0, pick(id == CLOSE, 0xB92B3C, 0x26374D), 100))]
        } else {
            Seq::empty()
        }) + seq![
            PieceNote::Shape(
                icon(
                    if id == MINIMIZE {
                        '\u{E921}'
                    } else if id == MAXIMIZE {
                        '\u{E922}'
                    } else {
                        '\u{E8BB}'
                    },
                    whole(),
                    11,
                    MUTED,
                ),
            ),
        ]
    }

    /// The face of an ordinary button.
    pub open spec fn face_pieces(self, id: usize, look: ControlLook) -> Seq<PieceNote> {
        let primary = (id == CONNECT || id == MANUAL) && !look.disabled;
        let selected = (id == GRID && !self.list) || (id == LIST && self.list);
        if id == SORT {
            Seq::empty()
        } else {
            seq![
                PieceNote::Shape(
                    gradient(
                        inset(1),
                        90,
                        pick(primary, BLUE, 0x233044),
                        pick(primary, 0x245FF0, 0x182333),
                        100,
                    ),
                ),
                PieceNote::Shape(stroke(inset(1), 90, pick(selected, 0x628BCA, LINE), 80, 8)),
            ]
        }
    }

    /// The label of an ordinary button.
    pub open spec fn label_pieces(self, id: usize, look: ControlLook, label: Seq<char>) -> Seq<
        PieceNote,
    > {
        let color = pick(look.disabled, 0x66748C, TEXT);
        if id == CONNECT {
            seq![
                PieceNote::Shape(
                    icon(
                        if self.active {
                            '\u{E8BB}'
                        } else {
                            '\u{E71B}'
                        },
                        area(px(20), px(10), px(30), down(20)),
                        21,
                        color,
                    ),
                ),
                heading(label, area(px(57), px(5), across(64), down(10)), 14, color),
            ]
        } else if id == GRID {
            seq![PieceNote::Shape(icon('\u{E80A}', whole(), 17, color))]
        } else if id == LIST {
            seq![PieceNote::Shape(icon('\u{E8FD}', whole(), 17, color))]
        } else if id == SORT {
            seq![
                plain(
                    if self.sort_name {
                        "Sort:  Name"@
                    } else {
                        "Sort:  Host order"@
                    },
                    area(px(0), px(0), across(17), down(0)),
                    12,
                    MUTED,
                ),
                PieceNote::Shape(
                    icon('\u{E70D}', area(across(16), px(0), px(16), down(0)), 10, MUTED),
                ),
            ]
        } else {
            seq![centered(label, area(px(7), px(0), across(14), down(0)), 13, color)]
        }
    }

    /// What is particular to a control.
    pub open spec fn body_pieces(self, id: usize, look: ControlLook, label: Seq<char>) -> Seq<
        PieceNote,
    > {
        if is_card_slot(id) {
            let slot = id - CARD_BASE;
            if slot < self.visible.len() && self.visible[slot] < self.cards.len() {
                card_pieces(
                    self.cards[self.visible[slot]],
                    look.focused || look.pressed || look.hovered,
                    self.list,
                )
            } else {
                Seq::empty()
            }
        } else if CARD_MENU_BASE <= id < CARD_MENU_BASE + CARD_COUNT {
            seq![PieceNote::Shape(icon('\u{E712}', whole(), 17, MUTED))]
        } else if MAC_BASE <= id < MAC_BASE + CARD_COUNT {
            let slot = id - MAC_BASE;
            if slot < self.visible.len() && self.visible[slot] < self.rows.len() {
                self.row_pieces(self.visible[slot])
            } else {
                Seq::empty()
            }
        } else if id == NAV_CONNECTIONS || id == NAV_APPS || id == NAV_SETTINGS {
            self.nav_pieces(id)
        } else if id == MINIMIZE || id == MAXIMIZE || id == CLOSE {
            self.frame_pieces(id, look)
        } else {
            self.face_pieces(id, look) + self.label_pieces(id, look, label)
        }
    }

    /// A control: a glow under the pointer, what is particular to it, and a ring
    /// around what has the keyboard focus.
    pub open spec fn control_pieces(self, id: usize, look: ControlLook, label: Seq<char>) -> Seq<
        PieceNote,
    > {
        (if look.hovered && !look.disabled {
            seq![PieceNote::Shape(fill(inset(1), 100, 0x89AEED, 6))]
        } else {
            Seq::empty()
        }) + self.body_pieces(id, look, label) + (if look.focused && !is_card_slot(id) {
            seq![PieceNote::Shape(stroke(inset(2), 80, 0x77AAFF, 100, 13))]
        } else {
            Seq::empty()
        })
    }
}

fn append_pieces(out: &mut Vec<Piece>, more: Vec<Piece>)
    ensures
        piece_notes(final(out)@) == piece_notes(old(out)@) + piece_notes(more@),
{
    let mut more = more;
    let ghost added = more@;
    out.append(&mut more);
    proof {
        assert(piece_notes(out@) =~= piece_notes(old(out)@) + piece_notes(added));
    }
}

fn endpoint(c: &Connection) -> (text: String)
    ensures
        text@ == endpoint_text(c@),
{
    let video = match c.video_port {
        Some(port) => unsigned_to_text(port as u64),
        None => owned("no video"),
    };
    c.host.clone().concat("  ·  ").concat(
        unsigned_to_text(c.control_port as u64).as_str(),
    ).concat(" / ").concat(video.as_str())
}

impl Dashboard {
    fn draw_row(&self, out: &mut Vec<Piece>, i: usize)
        requires
            i < self.rows@.len(),
        ensures
            piece_notes(final(out)@) == piece_notes(old(out)@) + self@.row_pieces(i as int),
    {
        let c = &self.rows[i];
        let selected = i == self.selected_device;
        draw(out, fill(inset(1), 100, pick(selected, 0x203858, 0x182333), 85));
        draw(out, stroke(inset(1), 100, pick(selected, 0x558FFF, LINE), 90, 10));
        draw(out, icon('\u{E7F4}', at(18, 18, 40, 40), 25, MUTED));
        write_heading(out, c.name.as_str(), reaching(78, 10, 270, 29), 16, TEXT);
        write_plain(out, endpoint(c).as_str(), reaching(78, 40, 270, 23), 12, MUTED);
        let status = if selected && self.connected {
            "Connected"
        } else if selected && self.active {
            "Connecting…"
        } else if selected {
            "Selected"
        } else if any_leads_there(&self.nearby, c) {
            "Nearby"
        } else {
            "Saved"
        };
        write_centered(
            out,
            status,
            area(across(175), px(20), px(150), px(36)),
            13,
            pick(selected, 0x8BB4FF, MUTED),
        );
        proof {
            assert(piece_notes(out@) =~= piece_notes(old(out)@) + self@.row_pieces(i as int));
        }
    }

    fn draw_nav(&self, out: &mut Vec<Piece>, id: usize)
        ensures
            piece_notes(final(out)@) == piece_notes(old(out)@) + self@.nav_pieces(id),
    {
        if self.view == id {
            draw(out, fill(inset(1), 100, 0x20385C, 90));
            draw(out, fill(area(px(1), px(12), px(3), down(24)), 15, 0x4A86FF, 100));
        }
        let glyph = if id == NAV_CONNECTIONS {
            '\u{E977}'
        } else if id == NAV_APPS {
            '\u{E8A7}'
        } else {
            '\u{E713}'
        };
        let name = if id == NAV_CONNECTIONS {
            "Macs"
        } else if id == NAV_APPS {
            "Windows"
        } else {
            "Settings"
        };
        draw(out, icon(glyph, at(14, 10, 35, 30), 21, MUTED));
        write_plain(out, name, reaching(65, 8, 70, 34), 14, TEXT);
        proof {
            assert(piece_notes(out@) =~= piece_notes(old(out)@) + self@.nav_pieces(id));
        }
    }

    fn draw_frame_button(&self, out: &mut Vec<Piece>, id: usize, look: ControlLook)
        ensures
            piece_notes(final(out)@) == piece_notes(old(out)@) + self@.frame_pieces(id, look),
    {
        if look.pressed {
            draw(out, fill(whole(), 0, pick(id == CLOSE, 0xB92B3C, 0x26374D), 100));
        }
        let glyph = if id == MINIMIZE {
            '\u{E921}'
        } else if id == MAXIMIZE {
            '\u{E922}'
        } else {
            '\u{E8BB}'
        };
        draw(out, icon(glyph, whole(), 11, MUTED));
        proof {
            assert(piece_notes(out@) =~= piece_notes(old(out)@) + self@.frame_pieces(id, look));
        }
    }

    fn draw_button(&self, out: &mut Vec<Piece>, id: usize, look: ControlLook, label: &str)
        ensures
            piece_notes(final(out)@) == piece_notes(old(out)@) + (self@.face_pieces(id, look)
                + self@.label_pieces(id, look, label@)),
    {
        let primary = (id == CONNECT || id == MANUAL) && !look.disabled;
        let selected = (id == GRID && !self.list) || (id == LIST && self.list);
        if id != SORT {
            draw(
                out,
                gradient(
                    inset(1),
                    90,
                    pick(primary, BLUE, 0x233044),
                    pick(primary, 0x245FF0, 0x182333),
                    100,
                ),
            );
            draw(out, stroke(inset(1), 90, pick(selected, 0x628BCA, LINE), 80, 8));
        }
        let color: u32 = pick(look.disabled, 0x66748C, TEXT);
        if id == CONNECT {
            let glyph = if self.active {
                '\u{E8BB}'
            } else {
                '\u{E71B}'
            };
            draw(out, icon(glyph, area(px(20), px(10), px(30), down(20)), 21, color));
            write_heading(out, label, area(px(57), px(5), across(64), down(10)), 14, color);
        } else if id == GRID {
            draw(out, icon('\u{E80A}', whole(), 17, color));
        } else if id == LIST {
            draw(out, icon('\u{E8FD}', whole(), 17, color));
        } else if id == SORT {
            let text = if self.sort_name {
                "Sort:  Name"
            } else {
                "Sort:  Host order"
            };
            write_plain(out, text, area(px(0), px(0), across(17), down(0)), 12, MUTED);
            draw(out, icon('\u{E70D}', area(across(16), px(0), px(16), down(0)), 10, MUTED));
        } else {
            write_centered(out, label, area(px(7), px(0), across(14), down(0)), 13, color);
        }
        proof {
            assert(piece_notes(out@) =~= piece_notes(old(out)@) + (self@.face_pieces(id, look)
                + self@.label_pieces(id, look, label@)));
        }
    }

    fn draw_body(&self, out: &mut Vec<Piece>, id: usize, look: ControlLook, label: &str)
        requires
            self.wf(),
        ensures
            piece_notes(final(out)@) == piece_notes(old(out)@) + self@.body_pieces(
                id,
                look,
                label@,
            ),
    {
        let ghost before = piece_notes(out@);
        if CARD_BASE <= id && id < CARD_BASE + CARD_COUNT {
            let slot: usize = id - CARD_BASE;
            if slot < self.visible.len() && self.visible[slot] < self.cards.len() {
                let lit = look.focused || look.pressed || look.hovered;
                let card = draw_glass(&self.cards[self.visible[slot]], lit, self.list);
                append_pieces(out, card);
            }
        } else if CARD_MENU_BASE <= id && id < CARD_MENU_BASE + CARD_COUNT {
            draw(out, icon('\u{E712}', whole(), 17, MUTED));
        } else if MAC_BASE <= id && id < MAC_BASE + CARD_COUNT {
            let slot: usize = id - MAC_BASE;
            if slot < self.visible.len() && self.visible[slot] < self.rows.len() {
                self.draw_row(out, self.visible[slot]);
            }
        } else if id == NAV_CONNECTIONS || id == NAV_APPS || id == NAV_SETTINGS {
            self.draw_nav(out, id);
        } else if id == MINIMIZE || id == MAXIMIZE || id == CLOSE {
            self.draw_frame_button(out, id, look);
        } else {
            self.draw_button(out, id, look, label);
        }
        proof {
            assert(piece_notes(out@) =~= before + self@.body_pieces(id, look, label@));
        }
    }

    /// What a control looks like; `label` is the text that it carries.
    pub fn draw_control(&self, id: usize, look: ControlLook, label: &str) -> (pieces: Vec<Piece>)
        requires
            self.wf(),
        ensures
            piece_notes(pieces@) == self@.control_pieces(id, look, label@),
    {
        let mut out: Vec<Piece> = Vec::new();
        if look.hovered && !look.disabled {
            draw(&mut out, fill(inset(1), 100, 0x89AEED, 6));
        }
        self.draw_body(&mut out, id, look, label);
        if look.focused && !(CARD_BASE <= id && id < CARD_BASE + CARD_COUNT) {
            draw(&mut out, stroke(inset(2), 80, 0x77AAFF, 100, 13));
        }
        proof {
            assert(piece_notes(out@) =~= self@.control_pieces(id, look, label@));
        }
        out
    }
}

} // verus!
