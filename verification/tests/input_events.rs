use transom_client::wire::input::InputEvent;
use transom_client::wire::input::MouseButton;

#[test]
fn mouse_down_matches_protocol_example() {
    let ev = InputEvent::MouseDown {
        x: 400,
        y: 300,
        button: MouseButton::Left,
    };
    assert_eq!(
        ev.to_value().to_json(),
        r#"{"kind":"mouseDown","x":400,"y":300,"button":"left"}"#
    );
}

#[test]
fn scroll_keeps_signed_deltas() {
    let ev = InputEvent::Scroll {
        x: 10,
        y: 20,
        dx: -3,
        dy: 5,
    };
    assert_eq!(
        ev.to_value().to_json(),
        r#"{"kind":"scroll","x":10,"y":20,"dx":-3,"dy":5}"#
    );
}

#[test]
fn key_events_carry_raw_vk() {
    assert_eq!(
        InputEvent::KeyDown { vk: 0x41 }.to_value().to_json(),
        r#"{"kind":"keyDown","vk":65}"#
    );
    assert_eq!(
        InputEvent::KeyUp { vk: 0x11 }.to_value().to_json(),
        r#"{"kind":"keyUp","vk":17}"#
    );
}
