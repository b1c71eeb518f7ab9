//! Pure initial proxy-window sizing.
//!
//! Host rectangles are physical pixels. On a Retina host a perfectly ordinary Mac
//! window can therefore be larger than the Windows monitor's work area. An exact 1:1
//! proxy is impossible until the host relayouts that window, so the client chooses a
//! visibly windowed target, asks the host for that size, and uses the host's
//! read-back as truth.

use vstd::prelude::*;

use crate::wire::control::Size;

verus! {

/// When a host window cannot fit at 1:1, keep the initial proxy within this fraction
/// of the monitor work area. The spare border leaves an obvious grab area and avoids
/// making a fitted window indistinguishable from fullscreen.
pub const OVERSIZE_FIT_PERCENT: u64 = 85;

/// A length of at least one pixel.
pub open spec fn at_least_one(n: int) -> int {
    if n < 1 {
        1
    } else {
        n
    }
}

/// The part of a work-area length that a fitted window may take.
pub open spec fn fit_bound(length: int) -> int {
    at_least_one(at_least_one(length) * OVERSIZE_FIT_PERCENT / 100)
}

/// Whether a window fits a work area at 1:1.
pub open spec fn fits(source: Size, work_area: Size) -> bool {
    at_least_one(source.w as int) <= at_least_one(work_area.w as int) && at_least_one(
        source.h as int,
    ) <= at_least_one(work_area.h as int)
}

/// `length * numerator / denominator`, rounded down, at least one.
pub open spec fn scaled(length: int, numerator: int, denominator: int) -> int {
    at_least_one(length * numerator / denominator)
}

/// The initial client size of a proxy.
pub open spec fn fitted(source: Size, work_area: Size) -> (int, int) {
    let w = at_least_one(source.w as int);
    let h = at_least_one(source.h as int);
    let bound_w = fit_bound(work_area.w as int);
    let bound_h = fit_bound(work_area.h as int);
    if fits(source, work_area) {
        (w, h)
    } else if w * bound_h > h * bound_w {
        (bound_w, scaled(h, bound_w, w))
    } else {
        (scaled(w, bound_h, h), bound_h)
    }
}

proof fn lemma_scaled_within(length: int, numerator: int, denominator: int, bound: int)
    requires
        length >= 1,
        numerator >= 1,
        denominator >= 1,
        bound >= 1,
        length * numerator <= bound * denominator,
    ensures
        1 <= scaled(length, numerator, denominator) <= bound,
        length * numerator >= 0,
        length * numerator / denominator <= bound,
{
    assert(length * numerator / denominator <= bound) by (nonlinear_arith)
        requires
            length * numerator <= bound * denominator,
            denominator >= 1,
    ;
    assert(length * numerator >= 0) by (nonlinear_arith)
        requires
            length >= 1,
            numerator >= 1,
    ;
}

fn max_one(n: u32) -> (m: u32)
    ensures
        m == at_least_one(n as int),
{
    if n < 1 {
        1
    } else {
        n
    }
}

fn bound_of(length: u32) -> (bound: u32)
    ensures
        bound == fit_bound(length as int),
{
    let part: u64 = max_one(length) as u64 * OVERSIZE_FIT_PERCENT / 100;
    max_one(part as u32)
}

fn scale(length: u32, numerator: u32, denominator: u32, bound: u32) -> (result: u32)
    requires
        length >= 1,
        numerator >= 1,
        denominator >= 1,
        bound >= 1,
        length * numerator <= bound * denominator,
    ensures
        result == scaled(length as int, numerator as int, denominator as int),
{
    proof {
        lemma_product_fits(length, numerator);
        lemma_scaled_within(length as int, numerator as int, denominator as int, bound as int);
    }
    max_one((length as u64 * numerator as u64 / denominator as u64) as u32)
}

proof fn lemma_product_fits(a: u32, b: u32)
    ensures
        0 <= a * b <= u64::MAX,
{
    assert(0 <= a * b <= 0xffff_ffff * 0xffff_ffff) by (nonlinear_arith)
        requires
            0 <= a <= 0xffff_ffff,
            0 <= b <= 0xffff_ffff,
    ;
}

/// Choose the initial physical client size for a proxy.
///
/// Windows that already fit retain their exact host size. Oversized windows are
/// fitted uniformly into 85% of the work area, preserving aspect ratio. The caller
/// must request a host resize when the returned size differs; scaling is only the
/// short transition before the authoritative host read-back arrives.
pub fn initial_proxy_size(source: Size, work_area: Size) -> (size: Size)
    ensures
        (size.w as int, size.h as int) == fitted(source, work_area),
{
    let w: u32 = max_one(source.w);
    let h: u32 = max_one(source.h);
    if w <= max_one(work_area.w) && h <= max_one(work_area.h) {
        return Size { w, h };
    }
    let bound_w: u32 = bound_of(work_area.w);
    let bound_h: u32 = bound_of(work_area.h);
    proof {
        lemma_product_fits(w, bound_h);
        lemma_product_fits(h, bound_w);
        assert(bound_w * h == h * bound_w) by (nonlinear_arith);
        assert(bound_h * w == w * bound_h) by (nonlinear_arith);
    }
    // Compare aspect ratios without rounding.
    if w as u64 * bound_h as u64 > h as u64 * bound_w as u64 {
        Size { w: bound_w, h: scale(h, bound_w, w, bound_h) }
    } else {
        Size { w: scale(w, bound_h, h, bound_w), h: bound_h }
    }
}

/// The initial size is never empty and always lies within the work area.
pub proof fn law_initial_size_stays_within_work_area(source: Size, work_area: Size)
    ensures
        1 <= fitted(source, work_area).0 <= at_least_one(work_area.w as int),
        1 <= fitted(source, work_area).1 <= at_least_one(work_area.h as int),
{
    let w = at_least_one(source.w as int);
    let h = at_least_one(source.h as int);
    let bound_w = fit_bound(work_area.w as int);
    let bound_h = fit_bound(work_area.h as int);
    if !fits(source, work_area) {
        assert(bound_h * w == w * bound_h) by (nonlinear_arith);
        assert(bound_w * h == h * bound_w) by (nonlinear_arith);
        if w * bound_h > h * bound_w {
            lemma_scaled_within(h, bound_w, w, bound_h);
        } else {
            lemma_scaled_within(w, bound_h, h, bound_w);
        }
    }
}

/// A window that fits keeps its exact size.
pub proof fn law_fitting_window_keeps_its_size(source: Size, work_area: Size)
    requires
        1 <= source.w <= work_area.w,
        1 <= source.h <= work_area.h,
    ensures
        fitted(source, work_area) == (source.w as int, source.h as int),
{
}

/// An oversized window stays within the fitted part of the work area, touches one of
/// its two bounds, and keeps its aspect ratio: one length is exact and the other is
/// the ratio rounded down to a whole pixel, or one pixel.
pub proof fn law_oversized_window_keeps_its_aspect(source: Size, work_area: Size)
    requires
        source.w >= 1,
        source.h >= 1,
        !fits(source, work_area),
    ensures
        ({
            let (w, h) = fitted(source, work_area);
            &&& w <= fit_bound(work_area.w as int)
            &&& h <= fit_bound(work_area.h as int)
            &&& {
                ||| w == fit_bound(work_area.w as int) && (h == 1 || h * source.w <= w * source.h
                    < (h + 1) * source.w)
                ||| h == fit_bound(work_area.h as int) && (w == 1 || w * source.h <= h * source.w
                    < (w + 1) * source.h)
            }
        }),
{
    let w = source.w as int;
    let h = source.h as int;
    let bound_w = fit_bound(work_area.w as int);
    let bound_h = fit_bound(work_area.h as int);
    assert(bound_h * w == w * bound_h) by (nonlinear_arith);
    assert(bound_w * h == h * bound_w) by (nonlinear_arith);
    if w * bound_h > h * bound_w {
        lemma_scaled_within(h, bound_w, w, bound_h);
        let q = h * bound_w / w;
        assert(q * w <= h * bound_w < (q + 1) * w) by (nonlinear_arith)
            requires
                q == h * bound_w / w,
                w >= 1,
        ;
    } else {
        lemma_scaled_within(w, bound_h, h, bound_w);
        let q = w * bound_h / h;
        assert(q * h <= w * bound_h < (q + 1) * h) by (nonlinear_arith)
            requires
                q == w * bound_h / h,
                h >= 1,
        ;
    }
}

} // verus!
