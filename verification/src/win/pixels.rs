//! BT.709 limited-range NV12 pixels.
//!
//! An NV12 frame is a plane of luma bytes, one per pixel, followed by a plane of
//! chroma pairs, one per two-by-two block. Rows of both planes are `stride` bytes
//! apart.

use vstd::prelude::*;

verus! {

/// A colour channel in 1/256 steps, cut to a byte.
pub open spec fn channel(value: int) -> u8 {
    if value < 0 {
        0
    } else if value / 256 > 255 {
        255
    } else {
        (value / 256) as u8
    }
}

/// The blue, green, red and alpha bytes of a pixel.
pub open spec fn bgra(luma: u8, u: u8, v: u8) -> Seq<u8> {
    let y = luma - 16;
    let cb = u - 128;
    let cr = v - 128;
    seq![
        channel(298 * y + 541 * cb + 128),
        channel(298 * y - 55 * cb - 136 * cr + 128),
        channel(298 * y + 459 * cr + 128),
        255u8,
    ]
}

/// Where the luma byte of a pixel stands.
pub open spec fn luma_at(stride: int, x: int, y: int) -> int {
    y * stride + x
}

/// Where the chroma pair of a pixel stands.
pub open spec fn chroma_at(stride: int, height: int, x: int, y: int) -> int {
    stride * height + y / 2 * stride + x / 2 * 2
}

/// The pixel of an NV12 frame at a position.
pub open spec fn nv12_pixel(nv12: Seq<u8>, stride: int, height: int, x: int, y: int) -> Seq<u8> {
    let c = chroma_at(stride, height, x, y);
    bgra(nv12[luma_at(stride, x, y)], nv12[c], nv12[c + 1])
}

fn cut(value: i32) -> (byte: u8)
    ensures
        byte == channel(value as int),
{
    if value < 0 {
        0
    } else if value / 256 > 255 {
        255
    } else {
        (value / 256) as u8
    }
}

/// The bytes of one pixel.
pub fn bgra_pixel(luma: u8, u: u8, v: u8) -> (pixel: [u8; 4])
    ensures
        pixel@ == bgra(luma, u, v),
{
    let y: i32 = luma as i32 - 16;
    let cb: i32 = u as i32 - 128;
    let cr: i32 = v as i32 - 128;
    let pixel: [u8; 4] = [
        cut(298 * y + 541 * cb + 128),
        cut(298 * y - 55 * cb - 136 * cr + 128),
        cut(298 * y + 459 * cr + 128),
        255,
    ];
    proof {
        assert(pixel@ =~= bgra(luma, u, v));
    }
    pixel
}

/// Every byte that a pixel is made of lies within the two planes.
pub proof fn lemma_pixel_within(stride: int, height: int, x: int, y: int)
    requires
        0 <= x < stride,
        x / 2 * 2 + 1 < stride,
        0 <= y < height,
        height % 2 == 0,
    ensures
        0 <= y * stride,
        0 <= stride * height,
        0 <= y / 2 * stride,
        0 <= luma_at(stride, x, y) < stride * height,
        stride * height <= chroma_at(stride, height, x, y),
        chroma_at(stride, height, x, y) + 1 < stride * height + stride * (height / 2),
        y * stride <= stride * height,
        y / 2 * stride <= stride * (height / 2),
        0 <= stride * (height / 2),
{
    assert(y * stride + stride <= stride * height) by (nonlinear_arith)
        requires
            y + 1 <= height,
            stride > 0,
    ;
    assert(y / 2 * stride + stride <= stride * (height / 2)) by (nonlinear_arith)
        requires
            y / 2 + 1 <= height / 2,
            stride > 0,
    ;
    assert(0 <= y * stride) by (nonlinear_arith)
        requires
            y >= 0,
            stride > 0,
    ;
    assert(0 <= y / 2 * stride) by (nonlinear_arith)
        requires
            y / 2 >= 0,
            stride > 0,
    ;
}

/// The pixel of an NV12 frame at a position.
pub fn nv12_to_bgra_pixel(nv12: &[u8], stride: usize, height: u32, x: u32, y: u32) -> (pixel: [u8;
    4])
    requires
        x < stride,
        x / 2 * 2 + 1 < stride,
        y < height,
        height % 2 == 0,
        stride * height + stride * (height / 2) <= nv12@.len(),
    ensures
        pixel@ == nv12_pixel(nv12@, stride as int, height as int, x as int, y as int),
{
    proof {
        lemma_pixel_within(stride as int, height as int, x as int, y as int);
        assert(nv12@.len() == nv12.len());
        assert(height as int / 2 == height / 2);
        assert(y as int / 2 == y / 2);
        assert(x as int / 2 == x / 2);
    }
    let luma: usize = y as usize * stride + x as usize;
    let chroma: usize = stride * height as usize + (y / 2) as usize * stride + (x / 2) as usize * 2;
    bgra_pixel(nv12[luma], nv12[chroma], nv12[chroma + 1])
}

/// Put the four bytes of a pixel at the end of `out`.
pub fn push_pixel(out: &mut Vec<u8>, pixel: [u8; 4])
    ensures
        final(out)@ == old(out)@ + pixel@,
{
    out.push(pixel[0]);
    out.push(pixel[1]);
    out.push(pixel[2]);
    out.push(pixel[3]);
    proof {
        assert(out@ =~= old(out)@ + pixel@);
    }
}

} // verus!
