//! What forwarding input promises, message by message. The messages are named here by
//! the numbers that the system gives them.

use vstd::prelude::*;

use crate::wire::input::InputEvent;
use crate::wire::input::MouseButton;
use crate::win::input::event_for_message;
use crate::win::input::message_event;

verus! {

/// Whether a message parameter carries the pointer at a place of the client area: the
/// horizontal coordinate in its low sixteen bits, the vertical one in the next sixteen,
/// both signed. Whatever stands above does not count.
pub open spec fn carries_pointer(lparam: isize, x: int, y: int) -> bool {
    &&& -0x8000 <= x < 0x8000
    &&& -0x8000 <= y < 0x8000
    &&& (lparam - x) % 0x1_0000 == 0
    &&& ((lparam - lparam as int % 0x1_0000) / 0x1_0000 - y) % 0x1_0000 == 0
}

/// Whether a message parameter carries a turn of the wheel: in the sixteen bits above its
/// low sixteen, signed.
pub open spec fn carries_turn(wparam: usize, delta: int) -> bool {
    &&& -0x8000 <= delta < 0x8000
    &&& ((wparam - wparam as int % 0x1_0000) / 0x1_0000 - delta) % 0x1_0000 == 0
}

/// A coordinate as it goes over the wire: what lies left of the client area or above it
/// counts as its edge.
pub open spec fn on_wire(v: int) -> u32 {
    if v >= 0 {
        v as u32
    } else {
        0
    }
}

proof fn lemma_words(v: int, low: int, high: int)
    requires
        -0x8000 <= low < 0x8000,
        -0x8000 <= high < 0x8000,
        (v - low) % 0x1_0000 == 0,
        ((v - v % 0x1_0000) / 0x1_0000 - high) % 0x1_0000 == 0,
    ensures
        crate::win::input::low_word(v) == low,
        crate::win::input::high_word(v) == high,
{
    assert((v - v % 0x1_0000) / 0x1_0000 == v / 0x1_0000);
}

/// A moving pointer is forwarded at its place (message 0x200).
pub proof fn law_moves_are_forwarded(
    wparam: usize,
    lparam: isize,
    client: (i32, i32),
    x: int,
    y: int,
)
    requires
        carries_pointer(lparam, x, y),
    ensures
        message_event(0x0200, wparam, lparam, client) == Some(
            InputEvent::MouseMove { x: on_wire(x), y: on_wire(y) },
        ),
{
    lemma_words(lparam as int, x, y);
}

/// A mouse button that goes down or up is forwarded as that button, down or up, at its
/// place: the left button by messages 0x201 and 0x202, the right one by 0x204 and 0x205,
/// the middle one by 0x207 and 0x208.
pub proof fn law_buttons_are_forwarded_as_themselves(
    wparam: usize,
    lparam: isize,
    client: (i32, i32),
    x: int,
    y: int,
)
    requires
        carries_pointer(lparam, x, y),
    ensures
        message_event(0x0201, wparam, lparam, client) == Some(
            InputEvent::MouseDown { x: on_wire(x), y: on_wire(y), button: MouseButton::Left },
        ),
        message_event(0x0202, wparam, lparam, client) == Some(
            InputEvent::MouseUp { x: on_wire(x), y: on_wire(y), button: MouseButton::Left },
        ),
        message_event(0x0204, wparam, lparam, client) == Some(
            InputEvent::MouseDown { x: on_wire(x), y: on_wire(y), button: MouseButton::Right },
        ),
        message_event(0x0205, wparam, lparam, client) == Some(
            InputEvent::MouseUp { x: on_wire(x), y: on_wire(y), button: MouseButton::Right },
        ),
        message_event(0x0207, wparam, lparam, client) == Some(
            InputEvent::MouseDown { x: on_wire(x), y: on_wire(y), button: MouseButton::Middle },
        ),
        message_event(0x0208, wparam, lparam, client) == Some(
            InputEvent::MouseUp { x: on_wire(x), y: on_wire(y), button: MouseButton::Middle },
        ),
{
    lemma_words(lparam as int, x, y);
}

/// Whether a message tells of the pointer or of one of its buttons.
pub open spec fn tells_of_pointer(msg: u32) -> bool {
    ||| msg == 0x0200
    ||| msg == 0x0201
    ||| msg == 0x0202
    ||| msg == 0x0204
    ||| msg == 0x0205
    ||| msg == 0x0207
    ||| msg == 0x0208
}

/// Two different messages of the pointer never give the same event, and neither do two
/// different places of the client area.
pub proof fn law_pointer_messages_are_told_apart(
    a: u32,
    b: u32,
    wparam: usize,
    at: isize,
    to: isize,
    client: (i32, i32),
)
    requires
        tells_of_pointer(a),
        tells_of_pointer(b),
        0 <= at < 0x8000_0000,
        0 <= to < 0x8000_0000,
        at as int % 0x1_0000 < 0x8000,
        to as int % 0x1_0000 < 0x8000,
    ensures
        message_event(a, wparam, at, client) is Some,
        message_event(a, wparam, at, client) == message_event(b, wparam, to, client) ==> a == b
            && at == to,
{
}

/// A whole number of notches of the wheel is that many lines, up or down by message
/// 0x20A, right or left by message 0x20E, at the pointer. Less than a notch is nothing,
/// and a turn that is no whole number of notches counts its whole ones.
pub proof fn law_wheels_scroll_by_notches(
    wparam: usize,
    lparam: isize,
    client: (i32, i32),
    notches: int,
    rest: int,
)
    requires
        -120 < rest < 120,
        notches > 0 ==> rest >= 0,
        notches < 0 ==> rest <= 0,
        carries_turn(wparam, 120 * notches + rest),
    ensures
        message_event(0x020A, wparam, lparam, client) == if notches == 0 {
            None
        } else {
            Some(
                InputEvent::Scroll {
                    x: on_wire(client.0 as int),
                    y: on_wire(client.1 as int),
                    dx: 0,
                    dy: notches as i32,
                },
            )
        },
        message_event(0x020E, wparam, lparam, client) == if notches == 0 {
            None
        } else {
            Some(
                InputEvent::Scroll {
                    x: on_wire(client.0 as int),
                    y: on_wire(client.1 as int),
                    dx: notches as i32,
                    dy: 0,
                },
            )
        },
{
    let delta = 120 * notches + rest;
    let v = wparam as int;
    assert((v - v % 0x1_0000) / 0x1_0000 == v / 0x1_0000);
    assert(crate::win::input::high_word(v) == delta);
    if delta < 0 {
        assert((-delta) / 120 == -notches);
    } else {
        assert(delta / 120 == notches);
    }
}

/// A key that goes down (messages 0x100, and 0x104 with the menu key) or up (0x101 and
/// 0x105) is forwarded under its own code, the low byte of the parameter.
pub proof fn law_keys_are_forwarded_as_themselves(
    wparam: usize,
    lparam: isize,
    client: (i32, i32),
    vk: u32,
)
    requires
        vk < 256,
        (wparam - vk) % 256 == 0,
    ensures
        message_event(0x0100, wparam, lparam, client) == Some(InputEvent::KeyDown { vk }),
        message_event(0x0104, wparam, lparam, client) == Some(InputEvent::KeyDown { vk }),
        message_event(0x0101, wparam, lparam, client) == Some(InputEvent::KeyUp { vk }),
        message_event(0x0105, wparam, lparam, client) == Some(InputEvent::KeyUp { vk }),
{
}

/// No other message is forwarded.
pub proof fn law_nothing_else_is_forwarded(
    msg: u32,
    wparam: usize,
    lparam: isize,
    client: (i32, i32),
)
    requires
        !tells_of_pointer(msg),
        msg != 0x020A,
        msg != 0x020E,
        msg != 0x0100,
        msg != 0x0101,
        msg != 0x0104,
        msg != 0x0105,
    ensures
        message_event(msg, wparam, lparam, client) is None,
{
}

/// What is forwarded of a button is that button and no other, whatever else the message
/// carries: the left one goes down by 0x201 and up by 0x202, the right one by 0x204 and
/// 0x205, the middle one by 0x207 and 0x208.
pub proof fn law_forwarded_buttons_are_themselves(
    msg: u32,
    wparam: usize,
    lparam: isize,
    client: (i32, i32),
    event: Option<InputEvent>,
    x: int,
    y: int,
)
    requires
        carries_pointer(lparam, x, y),
        call_ensures(event_for_message, (msg, wparam, lparam, client), event),
    ensures
        (event matches Some(InputEvent::MouseDown { x: ex, y: ey, button }) ==> ex == on_wire(x)
            && ey == on_wire(y) && (button == MouseButton::Left <==> msg == 0x0201) && (button
            == MouseButton::Right <==> msg == 0x0204) && (button == MouseButton::Middle <==> msg
            == 0x0207)),
        (event matches Some(InputEvent::MouseUp { x: ex, y: ey, button }) ==> ex == on_wire(x)
            && ey == on_wire(y) && (button == MouseButton::Left <==> msg == 0x0202) && (button
            == MouseButton::Right <==> msg == 0x0205) && (button == MouseButton::Middle <==> msg
            == 0x0208)),
        msg == 0x0201 || msg == 0x0204 || msg == 0x0207 ==> event matches Some(
            InputEvent::MouseDown { .. },
        ),
        msg == 0x0202 || msg == 0x0205 || msg == 0x0208 ==> event matches Some(
            InputEvent::MouseUp { .. },
        ),
{
    lemma_words(lparam as int, x, y);
}

} // verus!
