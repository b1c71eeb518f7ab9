//! What the dashboard draws behind its controls.

use vstd::prelude::*;

use crate::connections::any_leads_there;
use crate::connections::leads_there;
use crate::text::contains_text;
use crate::text::decimal;
use crate::text::holds_text;
use crate::text::lowercase;
use crate::text::to_lower;
use crate::text::unsigned_to_text;
use crate::win::dashboard::Dashboard;
use crate::win::dashboard::DashboardNote;
use crate::win::dashboard::NAV_APPS;
use crate::win::dashboard::NAV_CONNECTIONS;
use crate::win::dashboard::NAV_SETTINGS;
use crate::win::gallery::card_notes;
use crate::win::gallery::Card;
use crate::win::gallery::CardNote;
use crate::win::scene::across;
use crate::win::scene::across_up_to;
use crate::win::scene::area;
use crate::win::scene::centered;
use crate::win::scene::down;
use crate::win::scene::draw;
use crate::win::scene::heading;
use crate::win::scene::piece_notes;
use crate::win::scene::plain;
use crate::win::scene::px;
use crate::win::scene::write_centered;
use crate::win::scene::write_heading;
use crate::win::scene::write_plain;
use crate::win::scene::Area;
use crate::win::scene::Piece;
use crate::win::scene::PieceNote;
use crate::win::scene::Shape;
use crate::win::scene::GREEN;
use crate::win::scene::LINE;
use crate::win::scene::MUTED;
use crate::win::scene::TEXT;

verus! {

/// A rectangle of given numbers of pixels.
#[verifier::allow_in_spec]
pub fn at(x: i32, y: i32, w: i32, h: i32) -> Area
    returns
        area(px(x), px(y), px(w), px(h)),
{
    area(px(x), px(y), px(w), px(h))
}

/// A rectangle whose width is that of the drawing but for a number of pixels.
#[verifier::allow_in_spec]
pub fn reaching(x: i32, y: i32, w: i32, h: i32) -> Area
    returns
        area(px(x), px(y), across(w), px(h)),
{
    area(px(x), px(y), across(w), px(h))
}

/// The frame around a text field of the settings.
#[verifier::allow_in_spec]
pub fn field_frame(x: i32, y: i32, w: i32) -> Shape
    returns
        (Shape::Stroke { area: at(x, y, w, 48), radius: 80, color: LINE, alpha: 100, width: 10 }),
{
    Shape::Stroke { area: at(x, y, w, 48), radius: 80, color: LINE, alpha: 100, width: 10 }
}

/// The background, the navigation and the panel of the selected Mac.
pub open spec fn backdrop() -> Seq<PieceNote> {
    seq![
        PieceNote::Shape(
            Shape::Glow {
                area: area(px(0), px(0), across(0), down(0)),
                x_percent: 60,
                y: 80,
                rx: 580,
                ry: 390,
                color: 0x204FA9,
                alpha: 12,
            },
        ),
        PieceNote::Shape(
            Shape::Fill {
                area: area(px(0), px(0), px(222), down(0)),
                radius: 0,
                color: 0x0E1929,
                alpha: 24,
            },
        ),
        PieceNote::Shape(
            Shape::Line {
                x1: px(222),
                y1: px(32),
                x2: px(222),
                y2: down(0),
                color: 0x18283B,
                width: 10,
            },
        ),
        PieceNote::Shape(Shape::Logo { x: 26, y: 28 }),
        heading("Transom"@, at(83, 24, 135, 35), 24, TEXT),
        PieceNote::Shape(
            Shape::Gradient {
                area: reaching(236, 48, 260, 148),
                radius: 120,
                top: 0x233044,
                bottom: 0x111C2B,
                alpha: 67,
            },
        ),
        PieceNote::Shape(
            Shape::Stroke {
                area: reaching(236, 48, 260, 148),
                radius: 120,
                color: LINE,
                alpha: 65,
                width: 8,
            },
        ),
    ]
}

/// How many cards are open on this PC.
pub open spec fn opened_count(cards: Seq<CardNote>) -> nat
    decreases cards.len(),
{
    if cards.len() == 0 {
        0
    } else {
        opened_count(cards.drop_last()) + (if cards.last().opened {
            1nat
        } else {
            0nat
        })
    }
}

/// The picture of the Mac with a name, in lower case. Only a name that says so gets the
/// picture of a Mac Studio: the protocol does not tell what the hardware is.
pub open spec fn device_picture(name: Seq<char>) -> Shape {
    if holds_text(name, "studio"@) {
        Shape::Mac { area: at(260, 60, 184, 128) }
    } else {
        Shape::Icon { glyph: '\u{E7F4}', area: at(282, 80, 136, 90), size: 52, color: MUTED }
    }
}

/// The picture of the Mac with a name, in lower case.
pub fn picture_for(name: &str) -> (picture: Shape)
    ensures
        picture == device_picture(name@),
{
    if contains_text(name, "studio") {
        Shape::Mac { area: at(260, 60, 184, 128) }
    } else {
        Shape::Icon { glyph: '\u{E7F4}', area: at(282, 80, 136, 90), size: 52, color: MUTED }
    }
}

impl DashboardNote {
    /// What is said of the selected Mac.
    pub open spec fn device_label(self) -> Seq<char> {
        if self.connected {
            "Connected"@
        } else if self.active {
            "Connecting…"@
        } else if self.selected() matches Some(c) && leads_there(self.nearby, c) {
            "Available nearby"@
        } else if self.selected() is Some {
            "Saved Mac"@
        } else {
            "Select a device in Macs"@
        }
    }

    pub open spec fn device_name(self) -> Seq<char> {
        match self.selected() {
            Some(c) => c.name,
            None => "No Mac selected"@,
        }
    }

    pub open spec fn device_host(self) -> Seq<char> {
        match self.selected() {
            Some(c) => c.host,
            None => ""@,
        }
    }

    /// The way to disconnect, while there is something to disconnect.
    pub open spec fn shortcut_pieces(self, shortcut: Seq<char>) -> Seq<PieceNote> {
        if self.active {
            seq![centered(shortcut, area(across(240), px(149), px(222), px(24)), 11, MUTED)]
        } else {
            Seq::empty()
        }
    }

    /// The selected Mac.
    pub open spec fn device_pieces(self) -> Seq<PieceNote> {
        seq![
            PieceNote::Shape(device_picture(lowercase(self.device_name()))),
            heading(self.device_name(), reaching(474, 72, 720, 36), 24, TEXT),
            PieceNote::Shape(
                Shape::Dot {
                    x: px(479),
                    y: px(125),
                    radius: 4,
                    color: if self.connected {
                        GREEN
                    } else {
                        MUTED
                    },
                },
            ),
            plain(self.device_label(), reaching(492, 110, 740, 28), 13, MUTED),
            plain(self.device_host(), reaching(474, 145, 720, 24), 12, MUTED),
        ]
    }

    /// What is said of the shared windows.
    pub open spec fn gallery_detail(self) -> Seq<char> {
        if self.connected {
            decimal(self.cards.len()) + " windows · "@ + decimal(opened_count(self.cards))
                + " open on this PC"@
        } else {
            "Connect to your Mac to browse its shared windows."@
        }
    }

    /// What is said where no card is shown: a title and a line.
    pub open spec fn gallery_hint(self) -> (Seq<char>, Seq<char>) {
        if self.query.len() > 0 {
            ("No matching windows"@, "Try another window title."@)
        } else if self.connected {
            (
                "No shared windows"@,
                "On your Mac, select apps with open windows in Transom Host."@,
            )
        } else {
            ("Connect to a Mac"@, "Choose a nearby or saved device in Macs, then connect."@)
        }
    }

    pub open spec fn gallery_pieces(self) -> Seq<PieceNote> {
        let search = area(px(246), px(291), across_up_to(556, 474), px(44));
        let top = seq![
            heading("Shared windows"@, at(246, 220, 460, 36), 22, TEXT),
            plain(self.gallery_detail(), reaching(246, 256, 280, 26), 13, MUTED),
            PieceNote::Shape(
                Shape::Fill { area: search, radius: 80, color: 0x111D2C, alpha: 96 },
            ),
            PieceNote::Shape(
                Shape::Stroke { area: search, radius: 80, color: LINE, alpha: 80, width: 8 },
            ),
            PieceNote::Shape(
                Shape::Icon {
                    glyph: '\u{E721}',
                    area: at(252, 300, 24, 24),
                    size: 15,
                    color: MUTED,
                },
            ),
        ];
        if self.visible.len() == 0 {
            top + seq![
                PieceNote::Shape(
                    Shape::Icon {
                        glyph: '\u{E8A7}',
                        area: at(270, 403, 48, 48),
                        size: 28,
                        color: MUTED,
                    },
                ),
                heading(self.gallery_hint().0, reaching(336, 399, 388, 40), 20, TEXT),
                plain(self.gallery_hint().1, reaching(336, 443, 388, 30), 14, MUTED),
            ]
        } else {
            top
        }
    }

    pub open spec fn macs_pieces(self) -> Seq<PieceNote> {
        let top = seq![
            heading("Macs"@, at(246, 220, 430, 36), 22, TEXT),
            plain(
                if self.active {
                    "Disconnect before selecting another Mac."@
                } else {
                    "Select a Mac, then connect. Nearby Macs appear automatically."@
                },
                reaching(246, 265, 500, 28),
                13,
                MUTED,
            ),
            plain(
                if self.scanning {
                    "Looking for nearby Macs…"@
                } else {
                    self.discovery
                },
                reaching(246, 303, 490, 25),
                12,
                MUTED,
            ),
        ];
        if self.rows.len() == 0 {
            top + seq![
                heading("No Macs found"@, reaching(270, 390, 320, 40), 20, TEXT),
                plain(
                    "Start Transom Host on your Mac, or add its hostname manually."@,
                    reaching(270, 436, 320, 30),
                    14,
                    MUTED,
                ),
            ]
        } else {
            top
        }
    }

    pub open spec fn settings_pieces(self, version: Seq<char>) -> Seq<PieceNote> {
        seq![
            heading("Settings"@, at(268, 238, 600, 36), 22, TEXT),
            heading("Manual connection"@, at(268, 300, 600, 30), 16, TEXT),
            plain(
                "Use this when your Mac does not appear in the nearby list."@,
                at(268, 335, 680, 28),
                13,
                MUTED,
            ),
            heading("Mac hostname or IP address"@, at(268, 374, 470, 25), 13, MUTED),
            heading("Control port"@, at(268, 466, 210, 25), 13, MUTED),
            heading("Video port"@, at(500, 466, 238, 25), 13, MUTED),
            plain(
                if self.active {
                    "Disconnect to start a manual connection."@
                } else {
                    "Leave video blank for control only."@
                },
                at(268, 610, 700, 30),
                13,
                MUTED,
            ),
            heading("Updates"@, at(800, 300, 220, 30), 16, TEXT),
            plain("Transom "@ + version, at(800, 335, 220, 28), 13, MUTED),
            PieceNote::Shape(field_frame(262, 396, 482)),
            PieceNote::Shape(field_frame(262, 490, 222)),
            PieceNote::Shape(field_frame(494, 490, 250)),
        ]
    }

    pub open spec fn view_pieces(self, version: Seq<char>) -> Seq<PieceNote> {
        if self.view == NAV_APPS {
            self.gallery_pieces()
        } else if self.view == NAV_CONNECTIONS {
            self.macs_pieces()
        } else {
            self.settings_pieces(version)
        }
    }

    /// Whether the page buttons are shown.
    pub open spec fn has_pages(self) -> bool {
        self.view != NAV_SETTINGS && self.items().len() > self.page_size
    }

    /// The whole drawing.
    pub open spec fn shell(self, shortcut: Seq<char>, version: Seq<char>) -> Seq<PieceNote> {
        backdrop() + self.shortcut_pieces(shortcut) + self.device_pieces() + self.view_pieces(
            version,
        ) + seq![
            plain(
                self.status,
                area(
                    px(246),
                    down(48),
                    across(
                        if self.has_pages() {
                            520
                        } else {
                            280
                        },
                    ),
                    px(28),
                ),
                12,
                MUTED,
            ),
        ]
    }
}

fn count_opened(cards: &Vec<Card>) -> (count: u64)
    ensures
        count == opened_count(card_notes(cards@)),
{
    let ghost all = card_notes(cards@);
    let mut count: u64 = 0;
    let mut i: usize = 0;
    proof {
        assert(all.take(0) =~= Seq::<CardNote>::empty());
    }
    while i < cards.len()
        invariant
            i <= cards@.len(),
            all == card_notes(cards@),
            count == opened_count(all.take(i as int)),
            count <= i,
        decreases cards@.len() - i,
    {
        proof {
            assert(all.take(i + 1).drop_last() =~= all.take(i as int));
        }
        if cards[i].opened {
            count = count + 1;
        }
        i += 1;
    }
    proof {
        assert(all.take(i as int) =~= all);
    }
    count
}

fn draw_backdrop(out: &mut Vec<Piece>)
    ensures
        piece_notes(final(out)@) == piece_notes(old(out)@) + backdrop(),
{
    draw(
        out,
        Shape::Glow {
            area: area(px(0), px(0), across(0), down(0)),
            x_percent: 60,
            y: 80,
            rx: 580,
            ry: 390,
            color: 0x204FA9,
            alpha: 12,
        },
    );
    draw(
        out,
        Shape::Fill {
            area: area(px(0), px(0), px(222), down(0)),
            radius: 0,
            color: 0x0E1929,
            alpha: 24,
        },
    );
    draw(
        out,
        Shape::Line {
            x1: px(222),
            y1: px(32),
            x2: px(222),
            y2: down(0),
            color: 0x18283B,
            width: 10,
        },
    );
    draw(out, Shape::Logo { x: 26, y: 28 });
    write_heading(out, "Transom", at(83, 24, 135, 35), 24, TEXT);
    draw(
        out,
        Shape::Gradient {
            area: reaching(236, 48, 260, 148),
            radius: 120,
            top: 0x233044,
            bottom: 0x111C2B,
            alpha: 67,
        },
    );
    draw(
        out,
        Shape::Stroke {
            area: reaching(236, 48, 260, 148),
            radius: 120,
            color: LINE,
            alpha: 65,
            width: 8,
        },
    );
    proof {
        assert(piece_notes(out@) =~= piece_notes(old(out)@) + backdrop());
    }
}

impl Dashboard {
    fn draw_device(&self, out: &mut Vec<Piece>)
        ensures
            piece_notes(final(out)@) == piece_notes(old(out)@) + self@.device_pieces(),
    {
        let selected = self.selected();
        let (name, host, nearby) = match &selected {
            Some(c) => (c.name.as_str(), c.host.as_str(), any_leads_there(&self.nearby, c)),
            None => ("No Mac selected", "", false),
        };
        draw(out, picture_for(to_lower(name).as_str()));
        write_heading(out, name, reaching(474, 72, 720, 36), 24, TEXT);
        let color: u32 = if self.connected {
            GREEN
        } else {
            MUTED
        };
        draw(out, Shape::Dot { x: px(479), y: px(125), radius: 4, color });
        let label = if self.connected {
            "Connected"
        } else if self.active {
            "Connecting…"
        } else if nearby {
            "Available nearby"
        } else if selected.is_some() {
            "Saved Mac"
        } else {
            "Select a device in Macs"
        };
        write_plain(out, label, reaching(492, 110, 740, 28), 13, MUTED);
        write_plain(out, host, reaching(474, 145, 720, 24), 12, MUTED);
        proof {
            assert(piece_notes(out@) =~= piece_notes(old(out)@) + self@.device_pieces());
        }
    }

    fn draw_gallery(&self, out: &mut Vec<Piece>)
        ensures
            piece_notes(final(out)@) == piece_notes(old(out)@) + self@.gallery_pieces(),
    {
        write_heading(out, "Shared windows", at(246, 220, 460, 36), 22, TEXT);
        let detail = if self.connected {
            unsigned_to_text(self.cards.len() as u64).concat(" windows · ").concat(
                unsigned_to_text(count_opened(&self.cards)).as_str(),
            ).concat(" open on this PC")
        } else {
            String::from_str("Connect to your Mac to browse its shared windows.")
        };
        write_plain(out, detail.as_str(), reaching(246, 256, 280, 26), 13, MUTED);
        let search = area(px(246), px(291), across_up_to(556, 474), px(44));
        draw(out, Shape::Fill { area: search, radius: 80, color: 0x111D2C, alpha: 96 });
        draw(out, Shape::Stroke { area: search, radius: 80, color: LINE, alpha: 80, width: 8 });
        draw(
            out,
            Shape::Icon { glyph: '\u{E721}', area: at(252, 300, 24, 24), size: 15, color: MUTED },
        );
        if self.visible.len() == 0 {
            let (title, line) = if !self.query.as_str().is_empty() {
                ("No matching windows", "Try another window title.")
            } else if self.connected {
                (
                    "No shared windows",
                    "On your Mac, select apps with open windows in Transom Host.",
                )
            } else {
                ("Connect to a Mac", "Choose a nearby or saved device in Macs, then connect.")
            };
            draw(
                out,
                Shape::Icon {
                    glyph: '\u{E8A7}',
                    area: at(270, 403, 48, 48),
                    size: 28,
                    color: MUTED,
                },
            );
            write_heading(out, title, reaching(336, 399, 388, 40), 20, TEXT);
            write_plain(out, line, reaching(336, 443, 388, 30), 14, MUTED);
        }
        proof {
            assert(piece_notes(out@) =~= piece_notes(old(out)@) + self@.gallery_pieces());
        }
    }

    fn draw_macs(&self, out: &mut Vec<Piece>)
        ensures
            piece_notes(final(out)@) == piece_notes(old(out)@) + self@.macs_pieces(),
    {
        write_heading(out, "Macs", at(246, 220, 430, 36), 22, TEXT);
        let advice = if self.active {
            "Disconnect before selecting another Mac."
        } else {
            "Select a Mac, then connect. Nearby Macs appear automatically."
        };
        write_plain(out, advice, reaching(246, 265, 500, 28), 13, MUTED);
        let discovery = if self.scanning {
            "Looking for nearby Macs…"
        } else {
            self.discovery.as_str()
        };
        write_plain(out, discovery, reaching(246, 303, 490, 25), 12, MUTED);
        if self.rows.len() == 0 {
            write_heading(out, "No Macs found", reaching(270, 390, 320, 40), 20, TEXT);
            write_plain(
                out,
                "Start Transom Host on your Mac, or add its hostname manually.",
                reaching(270, 436, 320, 30),
                14,
                MUTED,
            );
        }
        proof {
            assert(piece_notes(out@) =~= piece_notes(old(out)@) + self@.macs_pieces());
        }
    }

    fn draw_settings(&self, out: &mut Vec<Piece>, version: &str)
        ensures
            piece_notes(final(out)@) == piece_notes(old(out)@) + self@.settings_pieces(version@),
    {
        write_heading(out, "Settings", at(268, 238, 600, 36), 22, TEXT);
        write_heading(out, "Manual connection", at(268, 300, 600, 30), 16, TEXT);
        write_plain(
            out,
            "Use this when your Mac does not appear in the nearby list.",
            at(268, 335, 680, 28),
            13,
            MUTED,
        );
        write_heading(out, "Mac hostname or IP address", at(268, 374, 470, 25), 13, MUTED);
        write_heading(out, "Control port", at(268, 466, 210, 25), 13, MUTED);
        write_heading(out, "Video port", at(500, 466, 238, 25), 13, MUTED);
        let advice = if self.active {
            "Disconnect to start a manual connection."
        } else {
            "Leave video blank for control only."
        };
        write_plain(out, advice, at(268, 610, 700, 30), 13, MUTED);
        write_heading(out, "Updates", at(800, 300, 220, 30), 16, TEXT);
        let transom = String::from_str("Transom ").concat(version);
        write_plain(out, transom.as_str(), at(800, 335, 220, 28), 13, MUTED);
        draw(out, field_frame(262, 396, 482));
        draw(out, field_frame(262, 490, 222));
        draw(out, field_frame(494, 490, 250));
        proof {
            assert(piece_notes(out@) =~= piece_notes(old(out)@) + self@.settings_pieces(version@));
        }
    }

    /// What the dashboard draws behind its controls. `shortcut` names the keys that
    /// disconnect, and `version` is the client's.
    pub fn draw_shell(&self, shortcut: &str, version: &str) -> (pieces: Vec<Piece>)
        ensures
            piece_notes(pieces@) == self@.shell(shortcut@, version@),
    {
        let mut out: Vec<Piece> = Vec::new();
        proof {
            assert(piece_notes(out@) =~= Seq::<PieceNote>::empty());
        }
        draw_backdrop(&mut out);
        if self.active {
            write_centered(
                &mut out,
                shortcut,
                area(across(240), px(149), px(222), px(24)),
                11,
                MUTED,
            );
        }
        proof {
            assert(piece_notes(out@) =~= backdrop() + self@.shortcut_pieces(shortcut@));
        }
        self.draw_device(&mut out);
        if self.view == NAV_APPS {
            self.draw_gallery(&mut out);
        } else if self.view == NAV_CONNECTIONS {
            self.draw_macs(&mut out);
        } else {
            self.draw_settings(&mut out, version);
        }
        let count: usize = if self.view == NAV_CONNECTIONS {
            self.rows.len()
        } else {
            self.matches().len()
        };
        let pages = self.view != NAV_SETTINGS && count > self.page_size;
        let margin: i32 = if pages {
            520
        } else {
            280
        };
        write_plain(
            &mut out,
            self.status.as_str(),
            area(px(246), down(48), across(margin), px(28)),
            12,
            MUTED,
        );
        proof {
            assert(piece_notes(out@) =~= self@.shell(shortcut@, version@));
        }
        out
    }
}

} // verus!
