//! The texture that holds the whole decoded display: what it shows before any video
//! arrives, and which frames can be put into it.

use vstd::prelude::*;

verus! {

/// The side of a placeholder square, in pixels.
pub const SQUARE: usize = 32;

pub const LIGHT_SQUARE: u8 = 40;

pub const DARK_SQUARE: u8 = 24;

/// The grey of the placeholder at a pixel: a coarse checkerboard, which is obviously
/// no decoded picture.
pub open spec fn placeholder_grey(x: int, y: int) -> u8 {
    if (x / SQUARE as int + y / SQUARE as int) % 2 == 0 {
        LIGHT_SQUARE
    } else {
        DARK_SQUARE
    }
}

/// The BGRA bytes of the first `count` pixels of the placeholder, row by row.
pub open spec fn placeholder_bytes(width: int, count: int) -> Seq<u8>
    decreases count,
{
    if count <= 0 {
        Seq::empty()
    } else {
        let grey = placeholder_grey((count - 1) % width, (count - 1) / width);
        placeholder_bytes(width, count - 1) + seq![grey, grey, grey, 255u8]
    }
}

/// The BGRA bytes of a texture before any video arrives.
pub fn placeholder(width: u32, height: u32) -> (pixels: Vec<u8>)
    requires
        width * height * 4 <= usize::MAX,
    ensures
        pixels@ == placeholder_bytes(width as int, width * height),
{
    let mut pixels: Vec<u8> = Vec::new();
    let mut y: usize = 0;
    proof {
        assert(0 * width as int == 0) by (nonlinear_arith);
        assert(width * 0 == 0) by (nonlinear_arith);
    }
    while y < height as usize
        invariant
            y <= height,
            pixels@ == placeholder_bytes(width as int, y * width),
        decreases height - y,
    {
        let mut x: usize = 0;
        while x < width as usize
            invariant
                x <= width,
                y < height,
                pixels@ == placeholder_bytes(width as int, y * width + x),
            decreases width - x,
        {
            let grey: u8 = if (x / SQUARE + y / SQUARE) % 2 == 0 {
                LIGHT_SQUARE
            } else {
                DARK_SQUARE
            };
            let ghost before = pixels@;
            pixels.push(grey);
            pixels.push(grey);
            pixels.push(grey);
            pixels.push(255);
            proof {
                assert(pixels@ =~= before + seq![grey, grey, grey, 255u8]);
                assert(0 <= y * width) by (nonlinear_arith);
                vstd::arithmetic::div_mod::lemma_fundamental_div_mod_converse(
                    y * width + x,
                    width as int,
                    y as int,
                    x as int,
                );
            }
            x += 1;
        }
        proof {
            assert(y * width + width == (y + 1) * width) by (nonlinear_arith);
        }
        y += 1;
    }
    proof {
        assert(height * width == width * height) by (nonlinear_arith);
    }
    pixels
}

/// The placeholder has four bytes for each pixel, and each pixel its grey.
pub proof fn law_placeholder_shows_squares(width: int, count: int, n: int)
    requires
        width > 0,
        0 <= n < count,
    ensures
        placeholder_bytes(width, count).len() == 4 * count,
        ({
            let bytes = placeholder_bytes(width, count);
            let grey = placeholder_grey(n % width, n / width);
            &&& bytes[4 * n] == grey
            &&& bytes[4 * n + 1] == grey
            &&& bytes[4 * n + 2] == grey
            &&& bytes[4 * n + 3] == 255
        }),
    decreases count,
{
    lemma_placeholder_len(width, count - 1);
    if n < count - 1 {
        law_placeholder_shows_squares(width, count - 1, n);
    }
}

proof fn lemma_placeholder_len(width: int, count: int)
    requires
        0 <= count,
    ensures
        placeholder_bytes(width, count).len() == 4 * count,
    decreases count,
{
    if count > 0 {
        lemma_placeholder_len(width, count - 1);
    }
}

/// Whether an NV12 buffer covers a texture of a size: a row fits the stride, the
/// stride can be handed to the device, and no row is missing.
pub open spec fn buffer_fits(len: int, stride: int, width: int, height: int) -> bool {
    width <= stride <= u32::MAX && stride * (height * 3 / 2) <= len
}

/// Whether an NV12 buffer can be put into a texture.
pub fn accepts_buffer(len: usize, stride: usize, width: u32, height: u32) -> (fits: bool)
    ensures
        fits == buffer_fits(len as int, stride as int, width as int, height as int),
{
    if stride < width as usize || stride > u32::MAX as usize {
        return false;
    }
    let rows: u64 = height as u64 * 3 / 2;
    match (stride as u64).checked_mul(rows) {
        Some(needed) => len as u64 >= needed,
        None => false,
    }
}

/// Whether a decoder's texture covers a texture of a size: it holds NV12, it is large
/// enough, and it has the subresource.
pub fn accepts_texture(
    is_nv12: bool,
    surface: (u32, u32),
    subresources: u64,
    subresource: u32,
    width: u32,
    height: u32,
) -> (fits: bool)
    ensures
        fits == (is_nv12 && surface.0 >= width && surface.1 >= height && subresource
            < subresources),
{
    is_nv12 && surface.0 >= width && surface.1 >= height && (subresource as u64) < subresources
}

} // verus!
