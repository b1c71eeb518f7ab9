//! Window input messages as protocol input events.
//!
//! The client sends client-space physical pixels and raw virtual-key codes and
//! nothing else, so this is a faithful transcription of what the system reports: no
//! coordinate math beyond client-relative, no key remapping, no synthesized repeats.

use vstd::prelude::*;

use crate::wire::input::InputEvent;
use crate::wire::input::MouseButton;
use crate::win::messages::WHEEL_DELTA;
use crate::win::messages::WM_KEYDOWN;
use crate::win::messages::WM_KEYUP;
use crate::win::messages::WM_LBUTTONDOWN;
use crate::win::messages::WM_LBUTTONUP;
use crate::win::messages::WM_MBUTTONDOWN;
use crate::win::messages::WM_MBUTTONUP;
use crate::win::messages::WM_MOUSEHWHEEL;
use crate::win::messages::WM_MOUSEMOVE;
use crate::win::messages::WM_MOUSEWHEEL;
use crate::win::messages::WM_RBUTTONDOWN;
use crate::win::messages::WM_RBUTTONUP;
use crate::win::messages::WM_SYSKEYDOWN;
use crate::win::messages::WM_SYSKEYUP;

verus! {

/// The key of the shortcut that ends a session.
pub const DISCONNECT_KEY: usize = 0x44;

/// A 16-bit word as a signed number.
pub open spec fn signed_word(word: int) -> int {
    if word >= 0x8000 {
        word - 0x1_0000
    } else {
        word
    }
}

/// The low word of a message parameter, as a signed pixel value: mouse coordinates
/// can be negative when the pointer is captured off-window.
pub open spec fn low_word(v: int) -> int {
    signed_word(v % 0x1_0000)
}

/// The next word of a message parameter, as a signed pixel value.
pub open spec fn high_word(v: int) -> int {
    signed_word(v / 0x1_0000 % 0x1_0000)
}

/// A coordinate of the client area: what lies left of it or above it counts as its
/// edge.
pub open spec fn clamped(v: int) -> u32 {
    if v < 0 {
        0
    } else {
        v as u32
    }
}

/// The quotient of two numbers, rounded towards zero.
pub open spec fn quotient(a: int, b: int) -> int {
    if a < 0 {
        -((-a) / b)
    } else {
        a / b
    }
}

/// The event of a mouse button.
pub open spec fn button_event(lparam: isize, button: MouseButton, down: bool) -> InputEvent {
    let x = clamped(low_word(lparam as int));
    let y = clamped(high_word(lparam as int));
    if down {
        InputEvent::MouseDown { x, y, button }
    } else {
        InputEvent::MouseUp { x, y, button }
    }
}

/// The event of a wheel: signed line steps, none for less than a notch.
pub open spec fn wheel_event(wparam: usize, client: (i32, i32), horizontal: bool) -> Option<
    InputEvent,
> {
    let steps = quotient(high_word(wparam as int), WHEEL_DELTA as int);
    let x = clamped(client.0 as int);
    let y = clamped(client.1 as int);
    if steps == 0 {
        None
    } else if horizontal {
        Some(InputEvent::Scroll { x, y, dx: steps as i32, dy: 0 })
    } else {
        Some(InputEvent::Scroll { x, y, dx: 0, dy: steps as i32 })
    }
}

/// The event of a window message, if it is an input message that is forwarded.
pub open spec fn message_event(msg: u32, wparam: usize, lparam: isize, client: (i32, i32)) -> Option<
    InputEvent,
> {
    if msg == WM_MOUSEMOVE {
        Some(
            InputEvent::MouseMove {
                x: clamped(low_word(lparam as int)),
                y: clamped(high_word(lparam as int)),
            },
        )
    } else if msg == WM_LBUTTONDOWN {
        Some(button_event(lparam, MouseButton::Left, true))
    } else if msg == WM_LBUTTONUP {
        Some(button_event(lparam, MouseButton::Left, false))
    } else if msg == WM_RBUTTONDOWN {
        Some(button_event(lparam, MouseButton::Right, true))
    } else if msg == WM_RBUTTONUP {
        Some(button_event(lparam, MouseButton::Right, false))
    } else if msg == WM_MBUTTONDOWN {
        Some(button_event(lparam, MouseButton::Middle, true))
    } else if msg == WM_MBUTTONUP {
        Some(button_event(lparam, MouseButton::Middle, false))
    } else if msg == WM_MOUSEWHEEL {
        wheel_event(wparam, client, false)
    } else if msg == WM_MOUSEHWHEEL {
        wheel_event(wparam, client, true)
    } else if msg == WM_KEYDOWN || msg == WM_SYSKEYDOWN {
        Some(InputEvent::KeyDown { vk: (wparam % 256) as u32 })
    } else if msg == WM_KEYUP || msg == WM_SYSKEYUP {
        Some(InputEvent::KeyUp { vk: (wparam % 256) as u32 })
    } else {
        None
    }
}

fn word_signed(word: i64) -> (value: i32)
    requires
        0 <= word < 0x1_0000,
    ensures
        value == signed_word(word as int),
{
    if word >= 0x8000 {
        (word - 0x1_0000) as i32
    } else {
        word as i32
    }
}

/// The low word, signed.
pub fn loword_signed(v: isize) -> (value: i32)
    ensures
        value == low_word(v as int),
{
    let n: i64 = v as i64;
    let word: i64 = n & 0xFFFF;
    proof {
        assert(n & 0xFFFF == n % 0x1_0000) by (bit_vector);
    }
    word_signed(word)
}

/// The next word, signed.
pub fn hiword_signed(v: isize) -> (value: i32)
    ensures
        value == high_word(v as int),
{
    let n: i64 = v as i64;
    let shifted: i64 = n >> 16;
    let word: i64 = shifted & 0xFFFF;
    proof {
        assert(n >> 16 == n / 0x1_0000) by (bit_vector);
        assert(shifted & 0xFFFF == shifted % 0x1_0000) by (bit_vector);
    }
    word_signed(word)
}

/// Clamp a possibly negative client coordinate into what the wire uses.
pub fn clamp_cs(v: i32) -> (clamped_value: u32)
    ensures
        clamped_value == clamped(v as int),
{
    if v < 0 {
        0
    } else {
        v as u32
    }
}

fn mouse(lparam: isize, button: MouseButton, down: bool) -> (event: InputEvent)
    ensures
        event == button_event(lparam, button, down),
{
    let x: u32 = clamp_cs(loword_signed(lparam));
    let y: u32 = clamp_cs(hiword_signed(lparam));
    if down {
        InputEvent::MouseDown { x, y, button }
    } else {
        InputEvent::MouseUp { x, y, button }
    }
}

/// Wheel events carry a signed delta in the high word of `wparam`, in multiples of
/// [`WHEEL_DELTA`], and a position that the caller has made client-relative.
fn wheel(wparam: usize, client: (i32, i32), horizontal: bool) -> (event: Option<InputEvent>)
    ensures
        event == wheel_event(wparam, client, horizontal),
{
    let delta: i32 = word_signed((wparam / 0x1_0000 % 0x1_0000) as i64);
    let steps: i32 = if delta < 0 {
        0 - (0 - delta) / WHEEL_DELTA
    } else {
        delta / WHEEL_DELTA
    };
    if steps == 0 {
        // A high-resolution wheel that has not turned a notch: nothing to send yet.
        return None;
    }
    let x: u32 = clamp_cs(client.0);
    let y: u32 = clamp_cs(client.1);
    if horizontal {
        Some(InputEvent::Scroll { x, y, dx: steps, dy: 0 })
    } else {
        Some(InputEvent::Scroll { x, y, dx: 0, dy: steps })
    }
}

/// Translate one window message into an input event, or `None` if it is not an input
/// message that is forwarded. `client` is the client-relative position of a wheel
/// message, whose own position is on the screen.
pub fn event_for_message(msg: u32, wparam: usize, lparam: isize, client: (i32, i32)) -> (event:
    Option<InputEvent>)
    ensures
        event == message_event(msg, wparam, lparam, client),
{
    if msg == WM_MOUSEMOVE {
        Some(
            InputEvent::MouseMove {
                x: clamp_cs(loword_signed(lparam)),
                y: clamp_cs(hiword_signed(lparam)),
            },
        )
    } else if msg == WM_LBUTTONDOWN {
        Some(mouse(lparam, MouseButton::Left, true))
    } else if msg == WM_LBUTTONUP {
        Some(mouse(lparam, MouseButton::Left, false))
    } else if msg == WM_RBUTTONDOWN {
        Some(mouse(lparam, MouseButton::Right, true))
    } else if msg == WM_RBUTTONUP {
        Some(mouse(lparam, MouseButton::Right, false))
    } else if msg == WM_MBUTTONDOWN {
        Some(mouse(lparam, MouseButton::Middle, true))
    } else if msg == WM_MBUTTONUP {
        Some(mouse(lparam, MouseButton::Middle, false))
    } else if msg == WM_MOUSEWHEEL {
        wheel(wparam, client, false)
    } else if msg == WM_MOUSEHWHEEL {
        wheel(wparam, client, true)
    } else if msg == WM_KEYDOWN || msg == WM_SYSKEYDOWN {
        Some(InputEvent::KeyDown { vk: (wparam % 256) as u32 })
    } else if msg == WM_KEYUP || msg == WM_SYSKEYUP {
        Some(InputEvent::KeyUp { vk: (wparam % 256) as u32 })
    } else {
        None
    }
}

/// Whether a message is the shortcut that ends a session from anywhere: the D key goes
/// down while the control key and the menu key are held.
pub fn is_disconnect_message(msg: u32, key: usize, control_held: bool, menu_held: bool) -> (ends:
    bool)
    ensures
        ends == ((msg == WM_KEYDOWN || msg == WM_SYSKEYDOWN) && key == DISCONNECT_KEY
            && control_held && menu_held),
{
    (msg == WM_KEYDOWN || msg == WM_SYSKEYDOWN) && key == DISCONNECT_KEY && control_held
        && menu_held
}

/// Whatever the system reports, coordinates on the wire are never negative, and a
/// wheel event always carries at least one step.
pub proof fn law_forwarded_steps_are_whole(wparam: usize, client: (i32, i32), horizontal: bool)
    ensures
        wheel_event(wparam, client, horizontal) matches Some(event) ==> {
            &&& event matches InputEvent::Scroll { x, y, dx, dy }
            &&& dx == 0 <==> !horizontal
            &&& dy == 0 <==> horizontal
        },
{
    let steps = quotient(high_word(wparam as int), WHEEL_DELTA as int);
    assert(-32768 <= high_word(wparam as int) < 32768);
    assert(-32768 <= steps < 32768);
}

} // verus!
