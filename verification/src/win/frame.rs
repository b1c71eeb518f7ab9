//! Native window chrome is outside the exact-pixel streamed client viewport.
//!
//! The chrome's size in both directions, the inset, comes from the system and does
//! not depend on the size of the window.

use vstd::prelude::*;

use crate::wire::control::Size;
use crate::win::messages::HTCAPTION;
use crate::win::messages::HTCLIENT;

verus! {

/// Where a point of the window counts as: with the menu key held, the client area
/// moves the window.
pub fn hit_test(native: u32, menu_key_held: bool) -> (hit: u32)
    ensures
        hit == if native == HTCLIENT && menu_key_held {
            HTCAPTION
        } else {
            native
        },
{
    if native == HTCLIENT && menu_key_held {
        HTCAPTION
    } else {
        native
    }
}

/// The outer size of a window whose client area has a size.
pub fn outer_size(w: u32, h: u32, inset: (i32, i32)) -> (outer: (i32, i32))
    requires
        i32::MIN <= w + inset.0 <= i32::MAX,
        i32::MIN <= h + inset.1 <= i32::MAX,
    ensures
        outer.0 == w + inset.0,
        outer.1 == h + inset.1,
{
    ((w as i64 + inset.0 as i64) as i32, (h as i64 + inset.1 as i64) as i32)
}

/// A client length that is left of an outer length, at least one pixel.
pub open spec fn inner_length(outer: int, inset: int) -> int {
    if outer - inset < 1 {
        1
    } else {
        outer - inset
    }
}

fn inner(outer: u32, inset: i32) -> (length: u32)
    requires
        outer - inset <= u32::MAX,
    ensures
        length == inner_length(outer as int, inset as int),
{
    let length: i64 = outer as i64 - inset as i64;
    if length < 1 {
        1
    } else {
        length as u32
    }
}

/// The client size of a window with an outer size.
pub fn client_size(w: u32, h: u32, inset: (i32, i32)) -> (size: Size)
    requires
        w - inset.0 <= u32::MAX,
        h - inset.1 <= u32::MAX,
    ensures
        size.w == inner_length(w as int, inset.0 as int),
        size.h == inner_length(h as int, inset.1 as int),
{
    Size { w: inner(w, inset.0), h: inner(h, inset.1) }
}

/// The client size of an outer size is the size that the outer size was made for,
/// whatever the chrome.
pub proof fn law_chrome_is_excluded(w: int, h: int, inset_w: int, inset_h: int)
    requires
        w >= 1,
        h >= 1,
    ensures
        inner_length(w + inset_w, inset_w) == w,
        inner_length(h + inset_h, inset_h) == h,
{
}

} // verus!
