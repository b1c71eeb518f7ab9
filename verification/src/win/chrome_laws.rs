//! What the frames of windows promise, by place. The parts of a frame are named here by
//! the numbers that the system gives them.

use vstd::prelude::*;

use crate::wire::control::Rect;
use crate::win::button::button_does;
use crate::win::button::ButtonStep;
use crate::win::chrome::frame_part;
use crate::win::chrome::scaled;
use crate::win::cursor::asks_for_text;
use crate::win::cursor::holds_point;
use crate::win::cursor::Hint;

verus! {

/// The edges of a frame are six device-independent pixels wide: at 96 dots to the inch
/// the physical ones, at 192 twice as many, and never less than at a lower density.
pub proof fn law_scaling_follows_the_density(n: int, dpi: int, more: int)
    requires
        0 <= n,
        0 <= dpi <= more,
    ensures
        scaled(n, 96) == n,
        scaled(n, 192) == 2 * n,
        scaled(n, dpi) <= scaled(n, more),
        96 * scaled(n, dpi) <= n * dpi < 96 * scaled(n, dpi) + 96,
{
    assert(0 <= n * dpi <= n * more) by (nonlinear_arith)
        requires
            0 <= n,
            0 <= dpi <= more,
    ;
    assert(n * 96 / 96 == n);
    assert(n * 192 / 96 == 2 * n);
    assert(n * dpi / 96 <= n * more / 96);
}

/// A window is sized at the edge or corner where it is grabbed: parts 10 to 17 are the
/// left and right edges, the top with its corners, and the bottom with its corners. The
/// parts hold for a window that is at least as large as its edges, at a point within it.
pub proof fn law_edges_size_the_window(x: int, y: int, w: int, h: int, dpi: int)
    requires
        0 <= x < w,
        0 <= y < h,
        0 <= dpi,
        2 * (6 * dpi / 96) <= w,
        2 * (6 * dpi / 96) <= h,
    ensures
        ({
            let edge = 6 * dpi / 96;
            let left = x < edge;
            let right = w - x <= edge;
            let top = y < edge;
            let bottom = h - y <= edge;
            let part = frame_part(x, y, w, h, dpi, false);
            &&& left && !top && !bottom <==> part == 10
            &&& right && !top && !bottom <==> part == 11
            &&& top && !left && !right <==> part == 12
            &&& top && left <==> part == 13
            &&& top && right <==> part == 14
            &&& bottom && !left && !right <==> part == 15
            &&& bottom && left <==> part == 16
            &&& bottom && right <==> part == 17
        }),
{
}

/// Inside the edges, or anywhere in a window that fills the screen, the top strip of 32
/// device-independent pixels moves the window (part 2), but for the last 144 of it, where
/// the buttons are. The rest is the client's (part 1).
pub proof fn law_the_top_strip_moves_the_window(
    x: int,
    y: int,
    w: int,
    h: int,
    dpi: int,
    zoomed: bool,
)
    requires
        0 <= dpi,
        zoomed || (6 * dpi / 96 <= x < w - 6 * dpi / 96 && 6 * dpi / 96 <= y < h - 6 * dpi / 96),
    ensures
        frame_part(x, y, w, h, dpi, zoomed) == if y < 32 * dpi / 96 && w - x > 144 * dpi / 96 {
            2u32
        } else {
            1u32
        },
{
}

/// A button notices the pointer once when it comes and once when it leaves. It is painted
/// by message 0xF, never erased (0x14), let go of when it goes (0x82), and drawn again
/// when it gets or loses the focus (7, 8), is enabled (0xA), or is pressed or restyled
/// (0xF3, 0xF4). Nothing else concerns it.
pub proof fn law_buttons_follow_the_pointer(msg: u32, hovered: bool)
    ensures
        button_does(msg, hovered) == ButtonStep::Enter <==> msg == 0x0200 && !hovered,
        button_does(msg, hovered) == ButtonStep::Leave <==> msg == 0x02A3,
        button_does(msg, hovered) == ButtonStep::Paint <==> msg == 0x000F,
        button_does(msg, hovered) == ButtonStep::Keep <==> msg == 0x0014,
        button_does(msg, hovered) == ButtonStep::Release <==> msg == 0x0082,
        button_does(msg, hovered) == ButtonStep::Redraw <==> msg == 0x0007 || msg == 0x0008 || msg
            == 0x000A || msg == 0x00F3 || msg == 0x00F4,
{
}

/// A rect holds its own corner and not the far one, and a point next to it in neither
/// direction; a hint counts there for 600 milliseconds, and only if it is of text.
pub proof fn law_hints_cover_their_field(hint: Hint, x: int, y: int, now: u64)
    requires
        hint.rect.x + hint.rect.w <= u32::MAX,
        hint.rect.y + hint.rect.h <= u32::MAX,
    ensures
        asks_for_text(hint, x, y, now) <==> hint.text && now < hint.received + 600_000_000
            && hint.rect.x <= x && x - hint.rect.x < hint.rect.w && hint.rect.y <= y && y
            - hint.rect.y < hint.rect.h,
{
}

/// Moving a rect and a point together changes nothing about whether it holds the point.
pub proof fn law_fields_move_with_their_points(rect: Rect, dx: u32, dy: u32, x: int, y: int)
    requires
        rect.x + rect.w + dx <= u32::MAX,
        rect.y + rect.h + dy <= u32::MAX,
    ensures
        holds_point(rect, x, y) == holds_point(
            Rect { x: (rect.x + dx) as u32, y: (rect.y + dy) as u32, w: rect.w, h: rect.h },
            x + dx,
            y + dy,
        ),
{
}

} // verus!
