//! What pictures promise: samples stand where NV12 puts them, colours are those of
//! BT.709, and a thumbnail shows its window.

use vstd::prelude::*;

use crate::win::decode::frame_pixels;
use crate::win::gallery::law_thumbnails_show_only_their_window;
use crate::win::gallery::nv12_thumbnail;
use crate::win::gallery::sample_x;
use crate::win::gallery::sample_y;
use crate::win::gallery::thumbnail;
use crate::win::gallery::within_display;
use crate::win::gallery::CardNote;
use crate::win::pixels::bgra;
use crate::win::pixels::nv12_pixel;
use crate::wire::control::Rect;
use crate::wire::control::Size;

verus! {

// --- planes ----------------------------------------------------------------

/// Rows of bytes one below the other.
pub open spec fn plane(rows: Seq<Seq<u8>>) -> Seq<u8>
    decreases rows.len(),
{
    if rows.len() == 0 {
        Seq::empty()
    } else {
        plane(rows.drop_last()) + rows.last()
    }
}

/// The chroma samples of a row, in turn: the first U, the first V, the second U, and so
/// on.
pub open spec fn interleaved(us: Seq<u8>, vs: Seq<u8>) -> Seq<u8>
    decreases us.len(),
{
    if us.len() == 0 || vs.len() == 0 {
        Seq::empty()
    } else {
        interleaved(us.drop_last(), vs.drop_last()) + seq![us.last(), vs.last()]
    }
}

/// The samples of a picture of `width` by `height` pixels: a luma sample for each pixel,
/// and a U and a V sample for each block of two by two. Rows may have padding behind
/// them.
pub struct Picture {
    pub luma: Seq<Seq<u8>>,
    pub us: Seq<Seq<u8>>,
    pub vs: Seq<Seq<u8>>,
    /// What stands behind the samples of each luma row, and of each chroma row.
    pub luma_padding: Seq<Seq<u8>>,
    pub chroma_padding: Seq<Seq<u8>>,
}

impl Picture {
    /// Whether the samples are those of a picture of this size, with rows of `stride`
    /// bytes.
    pub open spec fn has_size(self, width: int, height: int, stride: int) -> bool {
        &&& 0 < width <= stride && width % 2 == 0
        &&& 0 < height && height % 2 == 0
        &&& self.luma.len() == height && self.luma_padding.len() == height
        &&& self.us.len() == height / 2 && self.vs.len() == height / 2
        &&& self.chroma_padding.len() == height / 2
        &&& forall|y: int| 0 <= y < height ==> (#[trigger] self.luma[y]).len() == width
        &&& forall|y: int|
            0 <= y < height ==> (#[trigger] self.luma_padding[y]).len() == stride - width
        &&& forall|y: int| 0 <= y < height / 2 ==> (#[trigger] self.us[y]).len() == width / 2
        &&& forall|y: int| 0 <= y < height / 2 ==> (#[trigger] self.vs[y]).len() == width / 2
        &&& forall|y: int|
            0 <= y < height / 2 ==> (#[trigger] self.chroma_padding[y]).len() == stride - width
    }

    pub open spec fn luma_rows(self) -> Seq<Seq<u8>> {
        Seq::new(self.luma.len(), |y: int| self.luma[y] + self.luma_padding[y])
    }

    pub open spec fn chroma_rows(self) -> Seq<Seq<u8>> {
        Seq::new(
            self.us.len(),
            |y: int| interleaved(self.us[y], self.vs[y]) + self.chroma_padding[y],
        )
    }

    /// The picture in NV12: the luma rows, then rows of U and V samples in turn.
    pub open spec fn nv12(self) -> Seq<u8> {
        plane(self.luma_rows()) + plane(self.chroma_rows())
    }
}

proof fn lemma_interleaved(us: Seq<u8>, vs: Seq<u8>, k: int)
    requires
        us.len() == vs.len(),
        0 <= k < us.len(),
    ensures
        interleaved(us, vs).len() == 2 * us.len(),
        interleaved(us, vs)[2 * k] == us[k],
        interleaved(us, vs)[2 * k + 1] == vs[k],
    decreases us.len(),
{
    lemma_interleaved_len(us.drop_last(), vs.drop_last());
    if k < us.len() - 1 {
        lemma_interleaved(us.drop_last(), vs.drop_last(), k);
    }
}

proof fn lemma_interleaved_len(us: Seq<u8>, vs: Seq<u8>)
    requires
        us.len() == vs.len(),
    ensures
        interleaved(us, vs).len() == 2 * us.len(),
    decreases us.len(),
{
    if us.len() > 0 {
        lemma_interleaved_len(us.drop_last(), vs.drop_last());
    }
}

/// Where a byte of a row stands in the plane.
proof fn lemma_plane(rows: Seq<Seq<u8>>, stride: int, y: int, x: int)
    requires
        0 <= x < stride,
        0 <= y < rows.len(),
        forall|k: int| 0 <= k < rows.len() ==> (#[trigger] rows[k]).len() == stride,
    ensures
        plane(rows).len() == rows.len() * stride,
        0 <= y * stride + x < rows.len() * stride,
        plane(rows)[y * stride + x] == rows[y][x],
    decreases rows.len(),
{
    let front = rows.drop_last();
    let n = rows.len() as int;
    assert forall|k: int| 0 <= k < front.len() implies (#[trigger] front[k]).len() == stride by {
        assert(front[k] == rows[k]);
    }
    lemma_plane_len(front, stride);
    assert((n - 1) * stride + stride == n * stride) by (nonlinear_arith);
    assert(rows[n - 1].len() == stride);
    if y < n - 1 {
        lemma_plane(front, stride, y, x);
        assert(front[y] == rows[y]);
    } else {
        assert(plane(rows)[(n - 1) * stride + x] == rows.last()[x]);
        assert(0 <= (n - 1) * stride) by (nonlinear_arith)
            requires
                n >= 1,
                stride > 0,
        ;
    }
}

proof fn lemma_plane_len(rows: Seq<Seq<u8>>, stride: int)
    requires
        forall|k: int| 0 <= k < rows.len() ==> (#[trigger] rows[k]).len() == stride,
    ensures
        plane(rows).len() == rows.len() * stride,
    decreases rows.len(),
{
    let n = rows.len() as int;
    if n > 0 {
        let front = rows.drop_last();
        assert forall|k: int| 0 <= k < front.len() implies (#[trigger] front[k]).len()
            == stride by {
            assert(front[k] == rows[k]);
        }
        lemma_plane_len(front, stride);
        assert((n - 1) * stride + stride == n * stride) by (nonlinear_arith);
        assert(rows[n - 1].len() == stride);
    } else {
        assert(0 * stride == 0) by (nonlinear_arith);
    }
}

/// The pixel of an NV12 picture at a position is made of the luma sample there, and of
/// the U and the V sample of its block of two by two.
pub proof fn law_pixels_are_made_of_their_samples(
    p: Picture,
    width: int,
    height: int,
    stride: int,
    x: int,
    y: int,
)
    requires
        p.has_size(width, height, stride),
        0 <= x < width,
        0 <= y < height,
    ensures
        nv12_pixel(p.nv12(), stride, height, x, y) == bgra(
            p.luma[y][x],
            p.us[y / 2][x / 2],
            p.vs[y / 2][x / 2],
        ),
{
    let luma = p.luma_rows();
    let chroma = p.chroma_rows();
    let all = p.nv12();
    assert forall|k: int| 0 <= k < luma.len() implies (#[trigger] luma[k]).len() == stride by {
        assert(p.luma[k].len() == width && p.luma_padding[k].len() == stride - width);
    }
    assert forall|k: int| 0 <= k < chroma.len() implies (#[trigger] chroma[k]).len() == stride by {
        assert(p.us[k].len() == width / 2 && p.vs[k].len() == width / 2);
        assert(p.chroma_padding[k].len() == stride - width);
        lemma_interleaved_len(p.us[k], p.vs[k]);
    }
    lemma_plane(luma, stride, y, x);
    let row = y / 2;
    let pair = x / 2;
    assert(p.us[row].len() == width / 2 && p.vs[row].len() == width / 2);
    assert(0 <= pair < width / 2);
    lemma_interleaved(p.us[row], p.vs[row], pair);
    lemma_plane(chroma, stride, row, 2 * pair);
    lemma_plane(chroma, stride, row, 2 * pair + 1);
    assert(p.luma[y].len() == width);
    assert(luma[y][x] == p.luma[y][x]);
    assert(height * stride == stride * height) by (nonlinear_arith);
    let c = stride * height + row * stride + pair * 2;
    assert(all[y * stride + x] == luma[y][x]);
    assert(all[c] == plane(chroma)[row * stride + 2 * pair]);
    assert(all[c + 1] == plane(chroma)[row * stride + 2 * pair + 1]);
}

// --- colours ---------------------------------------------------------------

/// A millionth-exact intensity, cut to what a byte can show.
pub open spec fn shown_intensity(millionths: int) -> int {
    if millionths < 0 {
        0
    } else if millionths > 255_000_000 {
        255_000_000
    } else {
        millionths
    }
}

/// Whether a byte is the intensity, to one step.
pub open spec fn shows_intensity(byte: u8, millionths: int) -> bool {
    let exact = shown_intensity(millionths);
    -1_000_000 <= byte as int * 1_000_000 - exact <= 1_000_000
}

/// Colours are those of BT.709 in limited range, to one step of a byte. There a luma of
/// 16 is black and one of 235 white, chroma goes 112 steps either way from 128, and red,
/// green and blue weigh 0.2126, 0.7152 and 0.0722. So luma counts 255/219, V counts
/// 255/112 times (1 - 0.2126) in red, U counts 255/112 times (1 - 0.0722) in blue, and in
/// green they count against it as they weigh. The bytes are blue, green, red, and a
/// pixel is opaque.
pub proof fn law_colours_follow_bt709(luma: u8, u: u8, v: u8)
    ensures
        bgra(luma, u, v).len() == 4,
        ({
            let grey = 1_164_384 * (luma - 16);
            let cb = u - 128;
            let cr = v - 128;
            &&& shows_intensity(bgra(luma, u, v)[0], grey + 2_112_402 * cb)
            &&& shows_intensity(bgra(luma, u, v)[1], grey - 213_249 * cb - 532_909 * cr)
            &&& shows_intensity(bgra(luma, u, v)[2], grey + 1_792_741 * cr)
        }),
        bgra(luma, u, v)[3] == 255,
{
}

/// Without colour a pixel is grey: its three channels are the same, and the brighter the
/// luma, the brighter they are.
pub proof fn law_grey_stays_grey(luma: u8, brighter: u8)
    requires
        luma <= brighter,
    ensures
        bgra(luma, 128, 128)[0] == bgra(luma, 128, 128)[1],
        bgra(luma, 128, 128)[1] == bgra(luma, 128, 128)[2],
        bgra(luma, 128, 128)[0] <= bgra(brighter, 128, 128)[0],
        luma <= 16 ==> bgra(luma, 128, 128)[0] == 0,
        luma >= 235 ==> bgra(luma, 128, 128)[0] == 255,
{
}

// --- frames ----------------------------------------------------------------

proof fn lemma_frame_len(nv12: Seq<u8>, width: int, height: int, stride: int, count: int)
    requires
        0 <= count,
    ensures
        frame_pixels(nv12, width, height, stride, count).len() == 4 * count,
    decreases count,
{
    if count > 0 {
        lemma_frame_len(nv12, width, height, stride, count - 1);
    }
}

proof fn lemma_frame_pixel(
    nv12: Seq<u8>,
    width: int,
    height: int,
    stride: int,
    count: int,
    i: int,
)
    requires
        0 <= i < count,
    ensures
        frame_pixels(nv12, width, height, stride, count).len() == 4 * count,
        frame_pixels(nv12, width, height, stride, count).subrange(4 * i, 4 * i + 4) == nv12_pixel(
            nv12,
            stride,
            height,
            i % width,
            i / width,
        ),
    decreases count,
{
    lemma_frame_len(nv12, width, height, stride, count - 1);
    let all = frame_pixels(nv12, width, height, stride, count);
    let front = frame_pixels(nv12, width, height, stride, count - 1);
    let last = nv12_pixel(nv12, stride, height, (count - 1) % width, (count - 1) / width);
    assert(last.len() == 4);
    if i < count - 1 {
        lemma_frame_pixel(nv12, width, height, stride, count - 1, i);
        assert(all.subrange(4 * i, 4 * i + 4) =~= front.subrange(4 * i, 4 * i + 4));
    } else {
        assert(all.subrange(4 * i, 4 * i + 4) =~= last);
    }
}

proof fn lemma_position(x: int, y: int, width: int, height: int)
    requires
        0 <= x < width,
        0 <= y < height,
    ensures
        0 <= y * width + x < width * height,
        (y * width + x) % width == x,
        (y * width + x) / width == y,
{
    assert(0 <= y * width + x < width * height) by (nonlinear_arith)
        requires
            0 <= x < width,
            0 <= y < height,
    ;
    vstd::arithmetic::div_mod::lemma_fundamental_div_mod_converse(y * width + x, width, y, x);
}

/// A converted picture has four bytes for each pixel, row by row from the top, each row
/// from the left, and each pixel is made of its own samples. Padding does not show.
pub proof fn law_pictures_are_converted_pixel_by_pixel(
    p: Picture,
    width: int,
    height: int,
    stride: int,
    x: int,
    y: int,
)
    requires
        p.has_size(width, height, stride),
        0 <= x < width,
        0 <= y < height,
    ensures
        ({
            let out = frame_pixels(p.nv12(), width, height, stride, width * height);
            let at = 4 * (y * width + x);
            &&& out.len() == 4 * (width * height)
            &&& 0 <= at && at + 4 <= out.len()
            &&& out.subrange(at, at + 4) == bgra(
                p.luma[y][x],
                p.us[y / 2][x / 2],
                p.vs[y / 2][x / 2],
            )
        }),
{
    lemma_position(x, y, width, height);
    lemma_frame_pixel(p.nv12(), width, height, stride, width * height, y * width + x);
    law_pixels_are_made_of_their_samples(p, width, height, stride, x, y);
}

// --- thumbnails ------------------------------------------------------------

proof fn lemma_thumbnails_agree(
    nv12: Seq<u8>,
    stride: int,
    display: Size,
    r: Rect,
    w: int,
    h: int,
    count: int,
)
    requires
        within_display(r, display),
        w > 0,
        h > 0,
        count <= w * h,
    ensures
        nv12_thumbnail(nv12, stride, display, r, w, h, count) == thumbnail(
            frame_pixels(nv12, display.w as int, display.h as int, stride, display.w * display.h),
            display,
            r,
            w,
            h,
            count,
        ),
    decreases count,
{
    if count > 0 {
        lemma_thumbnails_agree(nv12, stride, display, r, w, h, count - 1);
        law_thumbnails_show_only_their_window(r, display, w, h, count - 1);
        let x = sample_x(r, w, count - 1);
        let y = sample_y(r, w, h, count - 1);
        lemma_position(x, y, display.w as int, display.h as int);
        lemma_frame_pixel(
            nv12,
            display.w as int,
            display.h as int,
            stride,
            display.w * display.h,
            y * display.w + x,
        );
        assert((y * display.w + x) * 4 == 4 * (y * display.w + x));
    }
}

/// A thumbnail that is taken from NV12 is the one that is taken from the same picture
/// once it was converted as a whole.
pub proof fn law_both_thumbnails_agree(
    nv12: Seq<u8>,
    stride: int,
    display: Size,
    r: Rect,
    w: int,
    h: int,
)
    requires
        within_display(r, display),
        w > 0,
        h > 0,
    ensures
        nv12_thumbnail(nv12, stride, display, r, w, h, w * h) == thumbnail(
            frame_pixels(nv12, display.w as int, display.h as int, stride, display.w * display.h),
            display,
            r,
            w,
            h,
            w * h,
        ),
{
    lemma_thumbnails_agree(nv12, stride, display, r, w, h, w * h);
}

proof fn lemma_thumbnail_pixel(
    pixels: Seq<u8>,
    display: Size,
    r: Rect,
    w: int,
    h: int,
    count: int,
    i: int,
)
    requires
        within_display(r, display),
        w > 0,
        h > 0,
        0 <= i < count <= w * h,
        pixels.len() >= 4 * (display.w * display.h),
    ensures
        ({
            let all = thumbnail(pixels, display, r, w, h, count);
            let from = 4 * (sample_y(r, w, h, i) * display.w + sample_x(r, w, i));
            &&& all.len() == 4 * count
            &&& 0 <= from && from + 4 <= pixels.len()
            &&& all.subrange(4 * i, 4 * i + 4) == pixels.subrange(from, from + 4)
        }),
    decreases count,
{
    let last = count - 1;
    law_thumbnails_show_only_their_window(r, display, w, h, last);
    lemma_position(
        sample_x(r, w, last),
        sample_y(r, w, h, last),
        display.w as int,
        display.h as int,
    );
    let all = thumbnail(pixels, display, r, w, h, count);
    let front = thumbnail(pixels, display, r, w, h, last);
    if last > 0 {
        let k = if i < last {
            i
        } else {
            0
        };
        lemma_thumbnail_pixel(pixels, display, r, w, h, last, k);
        if i < last {
            assert(all.subrange(4 * i, 4 * i + 4) =~= front.subrange(4 * i, 4 * i + 4));
        }
    } else {
        assert(front =~= Seq::<u8>::empty());
    }
    if i == last {
        let from = 4 * (sample_y(r, w, h, i) * display.w + sample_x(r, w, i));
        assert(all.subrange(4 * i, 4 * i + 4) =~= pixels.subrange(from, from + 4));
    }
}

/// A thumbnail of the window's own size is the window: each of its pixels is the pixel
/// of the display at the same place of the window.
pub proof fn law_full_size_thumbnails_are_the_window(
    pixels: Seq<u8>,
    display: Size,
    r: Rect,
    x: int,
    y: int,
)
    requires
        within_display(r, display),
        0 <= x < r.w,
        0 <= y < r.h,
        pixels.len() >= 4 * (display.w * display.h),
    ensures
        ({
            let all = thumbnail(pixels, display, r, r.w as int, r.h as int, r.w * r.h);
            let at = 4 * (y * r.w + x);
            let from = 4 * ((r.y + y) * display.w + (r.x + x));
            all.subrange(at, at + 4) == pixels.subrange(from, from + 4)
        }),
{
    let w = r.w as int;
    let h = r.h as int;
    let i = y * w + x;
    lemma_position(x, y, w, h);
    lemma_thumbnail_pixel(pixels, display, r, w, h, w * h, i);
    assert(x * w / w == x) by (nonlinear_arith)
        requires
            w > 0,
    ;
    assert(y * h / h == y) by (nonlinear_arith)
        requires
            h > 0,
    ;
}

/// The pixels of a thumbnail keep the order of the display, from the left to the right
/// and from the top to the bottom, beginning at the window's corner.
pub proof fn law_thumbnails_keep_the_order(r: Rect, w: int, h: int, x: int, y: int, x2: int, y2: int)
    requires
        r.w > 0,
        r.h > 0,
        w > 0,
        h > 0,
        0 <= x <= x2 < w,
        0 <= y <= y2 < h,
    ensures
        sample_x(r, w, y * w + x) <= sample_x(r, w, y2 * w + x2),
        sample_y(r, w, h, y * w + x) <= sample_y(r, w, h, y2 * w + x2),
        sample_x(r, w, y * w) == r.x,
        sample_y(r, w, h, x) == r.y,
{
    lemma_position(x, y, w, h);
    lemma_position(x2, y2, w, h);
    lemma_position(0, y, w, h);
    lemma_position(x, 0, w, h);
    lemma_steps_grow(x, x2, r.w as int, w);
    lemma_steps_grow(y, y2, r.h as int, h);
    assert(0 * w == 0) by (nonlinear_arith);
    assert(0 * r.w as int / w == 0) by (nonlinear_arith)
        requires
            w > 0,
    ;
    assert(0 * r.h as int / h == 0) by (nonlinear_arith)
        requires
            h > 0,
    ;
}

proof fn lemma_steps_grow(a: int, b: int, length: int, n: int)
    requires
        0 <= a <= b,
        length > 0,
        n > 0,
    ensures
        a * length / n <= b * length / n,
{
    assert(a * length <= b * length) by (nonlinear_arith)
        requires
            a <= b,
            length > 0,
    ;
    vstd::arithmetic::div_mod::lemma_div_is_ordered(a * length, b * length, n);
}

/// A card gets a thumbnail of the size that was asked for if its window lies on the
/// display and the display is all there, and has none otherwise. It stays the card of its
/// window.
pub proof fn law_previews_come_with_their_display(
    card: CardNote,
    pixels: Seq<u8>,
    display: Size,
    thumb: Size,
    nv12: Seq<u8>,
    stride: int,
)
    requires
        0 < display.w <= stride,
        display.w % 2 == 0,
        display.h % 2 == 0,
    ensures
        ({
            let r = card.window.source;
            let lies_on = r.w > 0 && r.h > 0 && r.x + r.w <= display.w && r.y + r.h <= display.h;
            let after = card.previewed(pixels, display, thumb);
            let other = card.previewed_nv12(nv12, stride, display, thumb);
            &&& after.window == card.window
            &&& after.opened == card.opened
            &&& other.window == card.window
            &&& other.opened == card.opened
            &&& lies_on && pixels.len() >= 4 * (display.w * display.h) ==> after.size == thumb
            &&& !lies_on || pixels.len() < 4 * (display.w * display.h) ==> after.pixels.len() == 0
                && after.size.w == 0 && after.size.h == 0
            &&& lies_on && 2 * nv12.len() >= 3 * (stride * display.h) ==> other.size == thumb
            &&& !lies_on || 2 * nv12.len() < 3 * (stride * display.h) ==> other.pixels.len() == 0
                && other.size.w == 0 && other.size.h == 0
        }),
{
    let half = display.h as int / 2;
    assert(display.w * display.h * 4 == 4 * (display.w * display.h));
    assert(2 * (stride * half) == stride * display.h) by (nonlinear_arith)
        requires
            2 * half == display.h,
    ;
}

} // verus!
