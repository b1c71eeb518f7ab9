//! What small decisions about native windows and video promise of their results. The
//! messages and parts of the system are named here by their numbers.

use vstd::prelude::*;

use crate::wire::control::has_frame;
use crate::wire::control::Size;
use crate::wire::control::WindowKind;
use crate::wire::speaks;
use crate::win::chrome::opening_bounds;
use crate::win::chrome::track_limits;
use crate::win::chrome::unscale;
use crate::win::chrome::within_work_area;
use crate::win::chrome::Bounds;
use crate::win::chrome::TrackLimits;
use crate::win::decode::pack_size;
use crate::win::decode::sample_time;
use crate::win::frame::client_size;
use crate::win::frame::hit_test;
use crate::win::frame::outer_size;
use crate::win::input::is_disconnect_message;
use crate::win::texture::accepts_buffer;
use crate::win::texture::accepts_texture;
use crate::win::texture::placeholder_grey;

verus! {

/// With the menu key held the client area (1) counts as the caption (2), by which the
/// window is moved; everything else counts as what it is.
pub proof fn law_the_menu_key_moves_the_window(native: u32, held: bool, hit: u32)
    requires
        call_ensures(hit_test, (native, held), hit),
    ensures
        native == 1 && held ==> hit == 2,
        native != 1 || !held ==> hit == native,
{
}

/// A window that is made for a client size has that client size.
pub proof fn law_outer_sizes_fit_their_client(
    w: u32,
    h: u32,
    inset: (i32, i32),
    outer: (i32, i32),
    size: Size,
)
    requires
        w >= 1,
        h >= 1,
        outer.0 >= 0,
        outer.1 >= 0,
        call_ensures(outer_size, (w, h, inset), outer),
        call_ensures(client_size, (outer.0 as u32, outer.1 as u32, inset), size),
    ensures
        size.w == w,
        size.h == h,
        outer.0 - w == inset.0,
        outer.1 - h == inset.1,
{
}

/// The dashboard opens within its work area, 32 pixels from the corner and at least as far
/// from the other edges, and no larger than 1464 by 934 device-independent pixels.
pub proof fn law_the_dashboard_opens_on_its_monitor(
    work: Bounds,
    dpi: u32,
    bounds: (i32, i32, i32, i32),
)
    requires
        call_ensures(opening_bounds, (work, dpi), bounds),
        dpi == 96,
    ensures
        bounds.0 - work.left == 32,
        bounds.1 - work.top == 32,
        bounds.0 + bounds.2 <= work.right - 32,
        bounds.1 + bounds.3 <= work.bottom - 32,
        bounds.2 <= 1464,
        bounds.3 <= 934,
        bounds.2 == 1464 || bounds.0 + bounds.2 == work.right - 32,
        bounds.3 == 934 || bounds.1 + bounds.3 == work.bottom - 32,
{
}

/// What is left of a rectangle within a work area holds exactly the points that both hold.
pub proof fn law_rectangles_are_cut_to_the_work_area(
    r: Bounds,
    work: Bounds,
    cut: Bounds,
    x: int,
    y: int,
)
    requires
        call_ensures(within_work_area, (r, work), cut),
    ensures
        (cut.left <= x < cut.right && cut.top <= y < cut.bottom) <==> (r.left <= x < r.right
            && r.top <= y < r.bottom && work.left <= x < work.right && work.top <= y
            < work.bottom),
{
}

/// A dashboard that fills its monitor covers the work area, as seen from the monitor's
/// corner, and is never dragged smaller than 1100 by 720 device-independent pixels.
pub proof fn law_full_dashboards_cover_the_work_area(
    monitor: Bounds,
    work: Bounds,
    dpi: u32,
    limits: TrackLimits,
)
    requires
        call_ensures(track_limits, (monitor, work, dpi), limits),
    ensures
        monitor.left + limits.full_position.0 == work.left,
        monitor.top + limits.full_position.1 == work.top,
        monitor.left + limits.full_position.0 + limits.full_size.0 == work.right,
        monitor.top + limits.full_position.1 + limits.full_size.1 == work.bottom,
        dpi == 96 ==> limits.least == (1100i32, 720i32),
        dpi == 192 ==> limits.least == (2200i32, 1440i32),
{
}

/// Physical pixels are as many device-independent ones at 96 dots to the inch, and half as
/// many at 192.
pub proof fn law_pixels_are_unscaled(px: i32, dpi: u32, n: i32)
    requires
        call_ensures(unscale, (px, dpi), n),
    ensures
        dpi == 96 ==> n == px,
        dpi == 192 ==> n == px as int / 2,
        px >= 0 && dpi > 0 ==> n * dpi <= px * 96 < (n + 1) * dpi,
{
    if dpi == 96 {
        assert(px * 96 / (dpi as int) == px) by (nonlinear_arith)
            requires
                dpi == 96,
        ;
    }
    if dpi == 192 {
        assert(px * 96 / (dpi as int) == px as int / 2) by (nonlinear_arith)
            requires
                dpi == 192,
        ;
    }
    if px >= 0 && dpi > 0 {
        assert(n * dpi <= px * 96 < (n + 1) * dpi) by (nonlinear_arith)
            requires
                n == px * 96 / (dpi as int),
                dpi > 0,
        ;
    }
}

/// A size and its parts determine each other.
pub proof fn law_packed_sizes_are_unpacked(width: u32, height: u32, packed: u64)
    requires
        call_ensures(pack_size, (width, height), packed),
    ensures
        packed as int / 0x1_0000_0000 == width,
        packed as int % 0x1_0000_0000 == height,
{
}

/// Times are ten times as many as microseconds, and later ones are never earlier.
pub proof fn law_sample_times_keep_their_order(a: u64, b: u64, at: i64, bt: i64)
    requires
        call_ensures(sample_time, (a,), at),
        call_ensures(sample_time, (b,), bt),
        a <= b,
    ensures
        at <= bt,
        b <= 900_000_000_000_000_000 ==> bt - at == 10 * (b - a),
{
}

/// The shortcut that ends a session is D (0x44) with the control key and the menu key,
/// going down by either of its messages (0x100, 0x104).
pub proof fn law_the_shortcut_ends_the_session(
    msg: u32,
    key: usize,
    control: bool,
    menu: bool,
    ends: bool,
)
    requires
        call_ensures(is_disconnect_message, (msg, key, control, menu), ends),
    ensures
        ends <==> control && menu && key == 0x44 && (msg == 0x0100 || msg == 0x0104),
{
}

/// A host is understood if it speaks version 1, and only normal windows have a frame.
pub proof fn law_hosts_and_kinds(protocol: u32, understood: bool, kind: WindowKind, framed: bool)
    requires
        call_ensures(speaks, (protocol,), understood),
        call_ensures(has_frame, (kind,), framed),
    ensures
        understood <==> protocol == 1,
        framed <==> !(kind is Menu || kind is Sheet || kind is Popover),
{
}

/// A buffer fits a texture if its rows are long enough and it holds one and a half times
/// as many rows as the picture is high.
pub proof fn law_buffers_that_fit(len: usize, stride: usize, width: u32, height: u32, fits: bool)
    requires
        call_ensures(accepts_buffer, (len, stride, width, height), fits),
        stride <= 0x1_0000,
        height <= 0x1_0000,
        height % 2 == 0,
    ensures
        fits <==> stride >= width && 2 * len >= 3 * (stride * height),
{
    let rows = height as int * 3 / 2;
    assert(2 * rows == 3 * height);
    assert(2 * (stride * rows) == 3 * (stride * height)) by (nonlinear_arith)
        requires
            2 * rows == 3 * height,
    ;
}

/// A decoder's texture is used only if it holds the whole picture, in the right format,
/// in a part that it has.
pub proof fn law_textures_that_fit(
    is_nv12: bool,
    surface: (u32, u32),
    subresources: u64,
    subresource: u32,
    width: u32,
    height: u32,
    fits: bool,
)
    requires
        call_ensures(
            accepts_texture,
            (is_nv12, surface, subresources, subresource, width, height),
            fits,
        ),
    ensures
        !is_nv12 ==> !fits,
        surface.0 < width ==> !fits,
        surface.1 < height ==> !fits,
        subresource >= subresources ==> !fits,
        is_nv12 && width <= surface.0 && height <= surface.1 && subresource < subresources ==> fits,
{
}

/// The placeholder is made of squares of two greys that alternate in both directions, 32
/// pixels wide and high.
pub proof fn law_placeholders_alternate(x: int, y: int)
    requires
        0 <= x,
        0 <= y,
    ensures
        placeholder_grey(x + 32, y) != placeholder_grey(x, y),
        placeholder_grey(x, y + 32) != placeholder_grey(x, y),
        placeholder_grey(x + 32, y + 32) == placeholder_grey(x, y),
        x % 32 != 31 ==> placeholder_grey(x + 1, y) == placeholder_grey(x, y),
        y % 32 != 31 ==> placeholder_grey(x, y + 1) == placeholder_grey(x, y),
{
    lemma_squares(x);
    lemma_squares(y);
    let a = x / 32;
    let b = y / 32;
    lemma_alternates(a, b);
}

proof fn lemma_squares(x: int)
    requires
        0 <= x,
    ensures
        (x + 32) / 32 == x / 32 + 1,
        x % 32 != 31 ==> (x + 1) / 32 == x / 32,
{
}

proof fn lemma_alternates(a: int, b: int)
    ensures
        (a + 1 + b) % 2 != (a + b) % 2,
        (a + (b + 1)) % 2 != (a + b) % 2,
        (a + 1 + (b + 1)) % 2 == (a + b) % 2,
{
}

} // verus!
