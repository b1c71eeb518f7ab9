//! Input events the client posts at a proxy window.
//!
//! Coordinates are window-local physical pixels: origin at the proxy window's
//! top-left, Y down. Keys are Windows virtual-key codes, never macOS keycodes; the
//! host maps them and tracks modifier state.

use vstd::prelude::*;

use crate::text::decimal_int;
use crate::wire::json::members_view;
use crate::wire::json::Json;
use crate::wire::json::Value;

verus! {

#[derive(Debug, Clone, Copy, PartialEq, Eq, Structural)]
pub enum MouseButton {
    Left,
    Right,
    Middle,
}

impl MouseButton {
    /// The button's name on the wire.
    pub open spec fn name(self) -> Seq<char> {
        match self {
            MouseButton::Left => "left"@,
            MouseButton::Right => "right"@,
            MouseButton::Middle => "middle"@,
        }
    }

    pub fn wire(self) -> (name: &'static str)
        ensures
            name@ == self.name(),
    {
        match self {
            MouseButton::Left => "left",
            MouseButton::Right => "right",
            MouseButton::Middle => "middle",
        }
    }
}

/// One input event, in Client Space physical pixels / Windows VK codes.
#[derive(Debug, Clone, Copy, PartialEq, Eq, Structural)]
pub enum InputEvent {
    MouseDown { x: u32, y: u32, button: MouseButton },
    MouseUp { x: u32, y: u32, button: MouseButton },
    MouseMove { x: u32, y: u32 },
    /// Signed line deltas; positive `dy` scrolls content up (a wheel roll away).
    Scroll { x: u32, y: u32, dx: i32, dy: i32 },
    KeyDown { vk: u32 },
    KeyUp { vk: u32 },
}

/// A whole number in JSON.
pub open spec fn number_json(n: int) -> Json {
    Json::Num(decimal_int(n))
}

impl InputEvent {
    /// The `event` object that the host expects: a `"kind"` discriminator plus the
    /// event's own fields.
    pub open spec fn json(self) -> Json {
        match self {
            InputEvent::MouseDown { x, y, button } => Json::Object(
                seq![
                    ("kind"@, Json::Str("mouseDown"@)),
                    ("x"@, number_json(x as int)),
                    ("y"@, number_json(y as int)),
                    ("button"@, Json::Str(button.name())),
                ],
            ),
            InputEvent::MouseUp { x, y, button } => Json::Object(
                seq![
                    ("kind"@, Json::Str("mouseUp"@)),
                    ("x"@, number_json(x as int)),
                    ("y"@, number_json(y as int)),
                    ("button"@, Json::Str(button.name())),
                ],
            ),
            InputEvent::MouseMove { x, y } => Json::Object(
                seq![
                    ("kind"@, Json::Str("mouseMove"@)),
                    ("x"@, number_json(x as int)),
                    ("y"@, number_json(y as int)),
                ],
            ),
            InputEvent::Scroll { x, y, dx, dy } => Json::Object(
                seq![
                    ("kind"@, Json::Str("scroll"@)),
                    ("x"@, number_json(x as int)),
                    ("y"@, number_json(y as int)),
                    ("dx"@, number_json(dx as int)),
                    ("dy"@, number_json(dy as int)),
                ],
            ),
            InputEvent::KeyDown { vk } => Json::Object(
                seq![("kind"@, Json::Str("keyDown"@)), ("vk"@, number_json(vk as int))],
            ),
            InputEvent::KeyUp { vk } => Json::Object(
                seq![("kind"@, Json::Str("keyUp"@)), ("vk"@, number_json(vk as int))],
            ),
        }
    }

    /// Build the nested `event` object.
    pub fn to_value(self) -> (value: Value)
        ensures
            value@ == self.json(),
    {
        match self {
            InputEvent::MouseDown { x, y, button } => {
                let fields = vec![
                    ("kind", Value::str("mouseDown")),
                    ("x", Value::uint(x as u64)),
                    ("y", Value::uint(y as u64)),
                    ("button", Value::str(button.wire())),
                ];
                proof {
                    assert(members_view(fields@) =~= self.json()->Object_0);
                }
                Value::object(fields)
            },
            InputEvent::MouseUp { x, y, button } => {
                let fields = vec![
                    ("kind", Value::str("mouseUp")),
                    ("x", Value::uint(x as u64)),
                    ("y", Value::uint(y as u64)),
                    ("button", Value::str(button.wire())),
                ];
                proof {
                    assert(members_view(fields@) =~= self.json()->Object_0);
                }
                Value::object(fields)
            },
            InputEvent::MouseMove { x, y } => {
                let fields = vec![
                    ("kind", Value::str("mouseMove")),
                    ("x", Value::uint(x as u64)),
                    ("y", Value::uint(y as u64)),
                ];
                proof {
                    assert(members_view(fields@) =~= self.json()->Object_0);
                }
                Value::object(fields)
            },
            InputEvent::Scroll { x, y, dx, dy } => {
                let fields = vec![
                    ("kind", Value::str("scroll")),
                    ("x", Value::uint(x as u64)),
                    ("y", Value::uint(y as u64)),
                    ("dx", Value::signed(dx as i64)),
                    ("dy", Value::signed(dy as i64)),
                ];
                proof {
                    assert(members_view(fields@) =~= self.json()->Object_0);
                }
                Value::object(fields)
            },
            InputEvent::KeyDown { vk } => {
                let fields = vec![
                    ("kind", Value::str("keyDown")),
                    ("vk", Value::uint(vk as u64)),
                ];
                proof {
                    assert(members_view(fields@) =~= self.json()->Object_0);
                }
                Value::object(fields)
            },
            InputEvent::KeyUp { vk } => {
                let fields = vec![
                    ("kind", Value::str("keyUp")),
                    ("vk", Value::uint(vk as u64)),
                ];
                proof {
                    assert(members_view(fields@) =~= self.json()->Object_0);
                }
                Value::object(fields)
            },
        }
    }
}

} // verus!
