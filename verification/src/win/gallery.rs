//! Selector thumbnails are UI previews only. Interactive proxy textures never pass
//! through this downsampling path.

use vstd::prelude::*;

use crate::model::Window;
use crate::model::WindowNote;
use crate::wire::control::Rect;
use crate::wire::control::Size;
use crate::win::decode::lemma_row;
use crate::win::decode::nv12_len;
use crate::win::pixels::nv12_pixel;
use crate::win::pixels::nv12_to_bgra_pixel;
use crate::win::pixels::push_pixel;

verus! {

pub const CARD_BASE: usize = 1000;

pub const CARD_COUNT: usize = 12;

/// The largest thumbnail of a card.
pub const PREVIEW_WIDTH: u32 = 480;

pub const PREVIEW_HEIGHT: u32 = 270;

/// One shared window in the selector.
#[derive(Debug)]
pub struct Card {
    pub window: Window,
    pub opened: bool,
    /// The thumbnail, in BGRA rows without padding; empty where there is none.
    pub pixels: Vec<u8>,
    pub size: Size,
}

/// What a [`Card`] holds.
pub struct CardNote {
    pub window: WindowNote,
    pub opened: bool,
    pub pixels: Seq<u8>,
    pub size: Size,
}

pub open spec fn no_size() -> Size {
    Size { w: 0, h: 0 }
}

pub open spec fn card_notes(cards: Seq<Card>) -> Seq<CardNote> {
    Seq::new(cards.len(), |i: int| cards[i]@)
}

/// Whether a window's rect is a part of the display.
pub open spec fn within_display(r: Rect, display: Size) -> bool {
    &&& r.w != 0
    &&& r.h != 0
    &&& r.x + r.w <= display.w
    &&& r.y + r.h <= display.h
}

/// The display position that the `i`-th pixel of a thumbnail is taken from.
pub open spec fn sample_x(r: Rect, w: int, i: int) -> int {
    r.x + (i % w) * r.w / w
}

pub open spec fn sample_y(r: Rect, w: int, h: int, i: int) -> int {
    r.y + (i / w) * r.h / h
}

/// The first `count` pixels of a thumbnail of `w` by `h` pixels, from a BGRA
/// display.
pub open spec fn thumbnail(pixels: Seq<u8>, display: Size, r: Rect, w: int, h: int, count: int) -> Seq<
    u8,
>
    decreases count,
{
    if count <= 0 {
        Seq::empty()
    } else {
        let at = (sample_y(r, w, h, count - 1) * display.w + sample_x(r, w, count - 1)) * 4;
        thumbnail(pixels, display, r, w, h, count - 1) + pixels.subrange(at, at + 4)
    }
}

/// The first `count` pixels of a thumbnail of `w` by `h` pixels, from an NV12
/// display.
pub open spec fn nv12_thumbnail(
    nv12: Seq<u8>,
    stride: int,
    display: Size,
    r: Rect,
    w: int,
    h: int,
    count: int,
) -> Seq<u8>
    decreases count,
{
    if count <= 0 {
        Seq::empty()
    } else {
        nv12_thumbnail(nv12, stride, display, r, w, h, count - 1) + nv12_pixel(
            nv12,
            stride,
            display.h as int,
            sample_x(r, w, count - 1),
            sample_y(r, w, h, count - 1),
        )
    }
}

proof fn lemma_step_within(i: int, n: int, length: int)
    requires
        0 <= i < n,
        0 < length,
    ensures
        0 <= i * length / n < length,
        0 <= i * length,
{
    assert(0 <= i * length < n * length) by (nonlinear_arith)
        requires
            0 <= i < n,
            0 < length,
    ;
    assert(0 <= i * length / n < length) by (nonlinear_arith)
        requires
            0 <= i * length < n * length,
            0 < n,
    ;
}

/// Every sample of a thumbnail lies within the window's own rect.
pub proof fn law_thumbnails_show_only_their_window(r: Rect, display: Size, w: int, h: int, i: int)
    requires
        within_display(r, display),
        w > 0,
        h > 0,
        0 <= i < w * h,
    ensures
        r.x <= sample_x(r, w, i) < r.x + r.w,
        r.y <= sample_y(r, w, h, i) < r.y + r.h,
{
    lemma_row(i, w, h);
    lemma_step_within(i % w, w, r.w as int);
    lemma_step_within(i / w, h, r.h as int);
}

proof fn lemma_product_fits(a: u32, b: u32)
    ensures
        0 <= a * b <= 0xffff_fffe_0000_0001,
{
    assert(0 <= a * b <= 0xffff_ffff * 0xffff_ffff) by (nonlinear_arith)
        requires
            0 <= a <= 0xffff_ffff,
            0 <= b <= 0xffff_ffff,
    ;
}

/// `i * length / n`, where `i < n`.
fn step(i: u32, n: u32, length: u32) -> (offset: u32)
    requires
        i < n,
        0 < length,
    ensures
        offset == i * length / (n as int),
        offset < length,
{
    proof {
        lemma_step_within(i as int, n as int, length as int);
        lemma_product_fits(i, length);
    }
    (i as u64 * length as u64 / n as u64) as u32
}

impl Card {
    pub open spec fn view(&self) -> CardNote {
        CardNote {
            window: self.window@,
            opened: self.opened,
            pixels: self.pixels@,
            size: self.size,
        }
    }

    pub fn new(window: Window, opened: bool) -> (card: Self)
        ensures
            card@ == (CardNote {
                window: window@,
                opened,
                pixels: Seq::empty(),
                size: no_size(),
            }),
    {
        let card = Card { window, opened, pixels: Vec::new(), size: Size { w: 0, h: 0 } };
        proof {
            assert(card@.pixels =~= Seq::<u8>::empty());
        }
        card
    }

    fn clear_preview(&mut self)
        ensures
            final(self)@ == (CardNote {
                pixels: Seq::empty(),
                size: no_size(),
                ..old(self)@
            }),
    {
        self.pixels = Vec::new();
        self.size = Size { w: 0, h: 0 };
        proof {
            assert(self@.pixels =~= Seq::<u8>::empty());
        }
    }

    /// Whether the window's rect is a part of the display.
    fn is_within(&self, display: Size) -> (within: bool)
        ensures
            within == within_display(self@.window.source, display),
    {
        let r = self.window.source;
        r.w != 0 && r.h != 0 && r.x as u64 + r.w as u64 <= display.w as u64 && r.y as u64
            + r.h as u64 <= display.h as u64
    }

    /// Build the thumbnail of `thumb` pixels from a BGRA display.
    pub fn update_preview(&mut self, pixels: &[u8], display: Size, thumb: Size)
        requires
            1 <= thumb.w <= PREVIEW_WIDTH,
            1 <= thumb.h <= PREVIEW_HEIGHT,
        ensures
            final(self)@ == old(self)@.previewed(pixels@, display, thumb),
    {
        proof {
            assert(thumb.w * thumb.h * 4 <= 480 * 270 * 4) by (nonlinear_arith)
                requires
                    0 <= thumb.w <= 480,
                    0 <= thumb.h <= 270,
            ;
        }
        self.update_preview_sized(pixels, display, thumb.w, thumb.h);
    }

    /// Build the thumbnail of `thumb` pixels directly from decoded NV12: only the
    /// few pixels that visible cards need are converted, at the gallery rate.
    pub fn update_preview_nv12(&mut self, nv12: &[u8], stride: usize, display: Size, thumb: Size)
        requires
            1 <= thumb.w <= PREVIEW_WIDTH,
            1 <= thumb.h <= PREVIEW_HEIGHT,
        ensures
            final(self)@ == old(self)@.previewed_nv12(nv12@, stride as int, display, thumb),
    {
        proof {
            assert(thumb.w * thumb.h * 4 <= 480 * 270 * 4) by (nonlinear_arith)
                requires
                    0 <= thumb.w <= 480,
                    0 <= thumb.h <= 270,
            ;
        }
        self.update_preview_nv12_sized(nv12, stride, display, thumb.w, thumb.h);
    }

    /// Build a thumbnail of `w` by `h` pixels from a BGRA display, or none where the
    /// window's rect or the buffer does not fit the display.
    pub fn update_preview_sized(&mut self, pixels: &[u8], display: Size, w: u32, h: u32)
        requires
            1 <= w,
            1 <= h,
            w * h * 4 <= u32::MAX,
        ensures
            final(self)@ == old(self)@.previewed(pixels@, display, (Size { w, h })),
    {
        let r = self.window.source;
        let ghost area = display.w * display.h;
        proof {
            lemma_product_fits(display.w, display.h);
        }
        let needed: u128 = display.w as u128 * display.h as u128 * 4;
        if !self.is_within(display) || (pixels.len() as u128) < needed {
            self.clear_preview();
            return;
        }
        let count: u32 = w * h;
        let mut out: Vec<u8> = Vec::new();
        let mut i: u32 = 0;
        while i < count
            invariant
                i <= count,
                count == w * h,
                1 <= w,
                1 <= h,
                within_display(r, display),
                display.w * display.h * 4 <= pixels@.len(),
                out@ == thumbnail(pixels@, display, r, w as int, h as int, i as int),
            decreases count - i,
        {
            proof {
                lemma_row(i as int, w as int, h as int);
                assert(pixels@.len() == pixels.len());
            }
            let sx: u32 = r.x + step(i % w, w, r.w);
            let sy: u32 = r.y + step(i / w, h, r.h);
            proof {
                assert(sx == sample_x(r, w as int, i as int));
                assert(sy == sample_y(r, w as int, h as int, i as int));
                assert(0 <= sy * display.w && sy * display.w + display.w <= display.w * display.h)
                    by (nonlinear_arith)
                    requires
                        0 <= sy,
                        sy + 1 <= display.h,
                        0 <= display.w,
                ;
            }
            let at: usize = (sy as usize * display.w as usize + sx as usize) * 4;
            let pixel: [u8; 4] = [pixels[at], pixels[at + 1], pixels[at + 2], pixels[at + 3]];
            proof {
                assert(pixel@ =~= pixels@.subrange(at as int, at + 4));
            }
            push_pixel(&mut out, pixel);
            i += 1;
        }
        self.pixels = out;
        self.size = Size { w, h };
    }

    /// Build a thumbnail of `w` by `h` pixels from an NV12 display, or none where
    /// the window's rect or the buffer does not fit the display.
    pub fn update_preview_nv12_sized(
        &mut self,
        nv12: &[u8],
        stride: usize,
        display: Size,
        w: u32,
        h: u32,
    )
        requires
            1 <= w,
            1 <= h,
            w * h * 4 <= u32::MAX,
        ensures
            final(self)@ == old(self)@.previewed_nv12(
                nv12@,
                stride as int,
                display,
                (Size { w, h }),
            ),
    {
        let r = self.window.source;
        if !self.is_within(display) || display.w % 2 != 0 || display.h % 2 != 0 || stride
            < display.w as usize || !fits_nv12(nv12.len(), display.h, stride) {
            self.clear_preview();
            return;
        }
        let count: u32 = w * h;
        let mut out: Vec<u8> = Vec::new();
        let mut i: u32 = 0;
        while i < count
            invariant
                i <= count,
                count == w * h,
                1 <= w,
                1 <= h,
                within_display(r, display),
                display.w % 2 == 0,
                display.h % 2 == 0,
                stride >= display.w,
                nv12_len(display.h as int, stride as int) <= nv12@.len(),
                out@ == nv12_thumbnail(
                    nv12@,
                    stride as int,
                    display,
                    r,
                    w as int,
                    h as int,
                    i as int,
                ),
            decreases count - i,
        {
            proof {
                lemma_row(i as int, w as int, h as int);
                assert(display.h as int / 2 == display.h / 2);
            }
            let sx: u32 = r.x + step(i % w, w, r.w);
            let sy: u32 = r.y + step(i / w, h, r.h);
            proof {
                assert(sx == sample_x(r, w as int, i as int));
                assert(sy == sample_y(r, w as int, h as int, i as int));
            }
            let pixel = nv12_to_bgra_pixel(nv12, stride, display.h, sx, sy);
            push_pixel(&mut out, pixel);
            i += 1;
        }
        self.pixels = out;
        self.size = Size { w, h };
    }
}

impl CardNote {
    /// The card with the thumbnail that a BGRA display gives.
    pub open spec fn previewed(self, pixels: Seq<u8>, display: Size, thumb: Size) -> CardNote {
        let r = self.window.source;
        if !within_display(r, display) || pixels.len() < display.w * display.h * 4 {
            CardNote { pixels: Seq::empty(), size: no_size(), ..self }
        } else {
            CardNote {
                pixels: thumbnail(
                    pixels,
                    display,
                    r,
                    thumb.w as int,
                    thumb.h as int,
                    thumb.w * thumb.h,
                ),
                size: thumb,
                ..self
            }
        }
    }

    /// The card with the thumbnail that an NV12 display gives.
    pub open spec fn previewed_nv12(
        self,
        nv12: Seq<u8>,
        stride: int,
        display: Size,
        thumb: Size,
    ) -> CardNote {
        let r = self.window.source;
        if !within_display(r, display) || display.w % 2 != 0 || display.h % 2 != 0 || stride
            < display.w || nv12.len() < nv12_len(display.h as int, stride) {
            CardNote { pixels: Seq::empty(), size: no_size(), ..self }
        } else {
            CardNote {
                pixels: nv12_thumbnail(
                    nv12,
                    stride,
                    display,
                    r,
                    thumb.w as int,
                    thumb.h as int,
                    thumb.w * thumb.h,
                ),
                size: thumb,
                ..self
            }
        }
    }
}

fn fits_nv12(len: usize, height: u32, stride: usize) -> (fits: bool)
    requires
        height % 2 == 0,
    ensures
        fits == (len >= nv12_len(height as int, stride as int)),
{
    proof {
        assert(0 <= stride * height) by (nonlinear_arith)
            requires
                stride >= 0,
                height >= 0,
        ;
        assert(0 <= stride * (height as int / 2)) by (nonlinear_arith)
            requires
                stride >= 0,
                height >= 0,
        ;
        assert(height as int / 2 == height / 2);
        assert(stride * height <= 0xffff_ffff_ffff_ffff * 0xffff_ffff) by (nonlinear_arith)
            requires
                0 <= stride <= 0xffff_ffff_ffff_ffff,
                0 <= height <= 0xffff_ffff,
        ;
        assert(stride * (height / 2) <= 0xffff_ffff_ffff_ffff * 0xffff_ffff) by (nonlinear_arith)
            requires
                0 <= stride <= 0xffff_ffff_ffff_ffff,
                0 <= height / 2 <= 0xffff_ffff,
        ;
    }
    len as u128 >= stride as u128 * height as u128 + stride as u128 * (height / 2) as u128
}

/// What a screen reader says of a card.
pub open spec fn spoken_title(card: CardNote) -> Seq<char> {
    (if card.opened {
        "Show window"@
    } else {
        "Open window"@
    }) + ": "@ + card.window.title
}

/// What a screen reader says of a card.
pub fn accessible_title(card: &Card) -> (text: String)
    ensures
        text@ == spoken_title(card@),
{
    let action = if card.opened {
        "Show window"
    } else {
        "Open window"
    };
    String::from_str(action).concat(": ").concat(card.window.title.as_str())
}

} // verus!
