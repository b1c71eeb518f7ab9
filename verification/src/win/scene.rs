//! Drawings as lists of pieces. Lengths are device-independent pixels, relative to
//! the size of what is drawn on; whoever draws turns them into coordinates.

use vstd::prelude::*;

verus! {

pub const INK: u32 = 0x08131F;

pub const BLUE: u32 = 0x2869FF;

pub const TEXT: u32 = 0xF3F6FC;

pub const MUTED: u32 = 0xB8C6DF;

pub const LINE: u32 = 0x344357;

pub const GREEN: u32 = 0x54E577;

/// A length: a number of widths and of heights of what is drawn on, plus and minus
/// some pixels, but no more than a cap.
#[derive(Debug, Clone, Copy, PartialEq, Eq, Structural)]
pub struct Len {
    pub widths: i32,
    pub heights: i32,
    pub plus: i32,
    pub minus: i32,
    pub cap: Option<i32>,
}

/// A rectangle.
#[derive(Debug, Clone, Copy, PartialEq, Eq, Structural)]
pub struct Area {
    pub x: Len,
    pub y: Len,
    pub w: Len,
    pub h: Len,
}

/// A piece of a drawing that is not text. Opacities are percent; radii and widths of
/// lines are tenths of a pixel.
#[derive(Debug, Clone, Copy, PartialEq, Eq, Structural)]
pub enum Shape {
    Fill { area: Area, radius: u32, color: u32, alpha: u32 },
    Stroke { area: Area, radius: u32, color: u32, alpha: u32, width: u32 },
    Gradient { area: Area, radius: u32, top: u32, bottom: u32, alpha: u32 },
    /// A glow around a point, given in percent of the width and in pixels.
    Glow { area: Area, x_percent: u32, y: i32, rx: i32, ry: i32, color: u32, alpha: u32 },
    Line { x1: Len, y1: Len, x2: Len, y2: Len, color: u32, width: u32 },
    Logo { x: i32, y: i32 },
    /// The picture of a Mac Studio.
    Mac { area: Area },
    Dot { x: Len, y: Len, radius: i32, color: u32 },
    Icon { glyph: char, area: Area, size: u32, color: u32 },
    /// The thumbnail of the card that is drawn, as large as fits.
    Thumbnail { area: Area },
}

/// A piece of a drawing.
#[derive(Debug)]
pub enum Piece {
    Shape(Shape),
    Text { text: String, area: Area, size: u32, bold: bool, color: u32, centered: bool },
}

/// What a [`Piece`] is.
pub enum PieceNote {
    Shape(Shape),
    Text { text: Seq<char>, area: Area, size: u32, bold: bool, color: u32, centered: bool },
}

impl Piece {
    pub open spec fn view(&self) -> PieceNote {
        match self {
            Piece::Shape(shape) => PieceNote::Shape(*shape),
            Piece::Text { text, area, size, bold, color, centered } => PieceNote::Text {
                text: text@,
                area: *area,
                size: *size,
                bold: *bold,
                color: *color,
                centered: *centered,
            },
        }
    }
}

pub open spec fn piece_notes(pieces: Seq<Piece>) -> Seq<PieceNote> {
    Seq::new(pieces.len(), |i: int| pieces[i]@)
}

/// A number of pixels.
#[verifier::allow_in_spec]
pub fn px(n: i32) -> Len
    returns
        (Len { widths: 0, heights: 0, plus: n, minus: 0, cap: None }),
{
    Len { widths: 0, heights: 0, plus: n, minus: 0, cap: None }
}

/// The width but for a number of pixels.
#[verifier::allow_in_spec]
pub fn across(n: i32) -> Len
    returns
        (Len { widths: 1, heights: 0, plus: 0, minus: n, cap: None }),
{
    Len { widths: 1, heights: 0, plus: 0, minus: n, cap: None }
}

/// The height but for a number of pixels.
#[verifier::allow_in_spec]
pub fn down(n: i32) -> Len
    returns
        (Len { widths: 0, heights: 1, plus: 0, minus: n, cap: None }),
{
    Len { widths: 0, heights: 1, plus: 0, minus: n, cap: None }
}

/// The width but for a number of pixels, up to a cap.
#[verifier::allow_in_spec]
pub fn across_up_to(n: i32, cap: i32) -> Len
    returns
        (Len { widths: 1, heights: 0, plus: 0, minus: n, cap: Some(cap) }),
{
    Len { widths: 1, heights: 0, plus: 0, minus: n, cap: Some(cap) }
}

/// A rectangle.
#[verifier::allow_in_spec]
pub fn area(x: Len, y: Len, w: Len, h: Len) -> Area
    returns
        (Area { x, y, w, h }),
{
    Area { x, y, w, h }
}

/// Everything that is drawn on, but for a margin.
#[verifier::allow_in_spec]
pub fn inset(margin: i32) -> Area
    requires
        0 <= margin <= 1000,
    returns
        (Area {
            x: px(margin),
            y: px(margin),
            w: across((2 * margin) as i32),
            h: down((2 * margin) as i32),
        }),
{
    Area { x: px(margin), y: px(margin), w: across(2 * margin), h: down(2 * margin) }
}

/// A line of plain text.
pub open spec fn plain(text: Seq<char>, area: Area, size: u32, color: u32) -> PieceNote {
    PieceNote::Text { text, area, size, bold: false, color, centered: false }
}

/// A line of bold text.
pub open spec fn heading(text: Seq<char>, area: Area, size: u32, color: u32) -> PieceNote {
    PieceNote::Text { text, area, size, bold: true, color, centered: false }
}

/// A line of plain text in the middle.
pub open spec fn centered(text: Seq<char>, area: Area, size: u32, color: u32) -> PieceNote {
    PieceNote::Text { text, area, size, bold: false, color, centered: true }
}

/// Add a piece that is not text.
pub fn draw(out: &mut Vec<Piece>, shape: Shape)
    ensures
        piece_notes(final(out)@) == piece_notes(old(out)@).push(PieceNote::Shape(shape)),
{
    out.push(Piece::Shape(shape));
    proof {
        assert(piece_notes(out@) =~= piece_notes(old(out)@).push(PieceNote::Shape(shape)));
    }
}

fn draw_text(
    out: &mut Vec<Piece>,
    text: &str,
    area: Area,
    size: u32,
    bold: bool,
    color: u32,
    centered: bool,
)
    ensures
        piece_notes(final(out)@) == piece_notes(old(out)@).push(
            PieceNote::Text { text: text@, area, size, bold, color, centered },
        ),
{
    out.push(
        Piece::Text { text: crate::text::owned(text), area, size, bold, color, centered },
    );
    proof {
        assert(piece_notes(out@) =~= piece_notes(old(out)@).push(
            PieceNote::Text { text: text@, area, size, bold, color, centered },
        ));
    }
}

/// Add a line of plain text.
pub fn write_plain(out: &mut Vec<Piece>, text: &str, area: Area, size: u32, color: u32)
    ensures
        piece_notes(final(out)@) == piece_notes(old(out)@).push(plain(text@, area, size, color)),
{
    draw_text(out, text, area, size, false, color, false);
}

/// Add a line of bold text.
pub fn write_heading(out: &mut Vec<Piece>, text: &str, area: Area, size: u32, color: u32)
    ensures
        piece_notes(final(out)@) == piece_notes(old(out)@).push(heading(text@, area, size, color)),
{
    draw_text(out, text, area, size, true, color, false);
}

/// Add a line of plain text in the middle.
pub fn write_centered(out: &mut Vec<Piece>, text: &str, area: Area, size: u32, color: u32)
    ensures
        piece_notes(final(out)@) == piece_notes(old(out)@).push(centered(text@, area, size, color)),
{
    draw_text(out, text, area, size, false, color, true);
}

} // verus!
