use transom_client::wire::control::ClientMessage;
use transom_client::wire::control::DecodeError;
use transom_client::wire::control::Rect;
use transom_client::wire::control::ResizePhase;
use transom_client::wire::control::ServerMessage;
use transom_client::wire::control::Size;
use transom_client::wire::control::WindowKind;
use transom_client::wire::input::InputEvent;
use transom_client::wire::input::MouseButton;

#[test]
fn decodes_hello() {
    let msg = ServerMessage::decode(
        br#"{"type":"hello","protocol":1,"vdsSize":{"w":5120,"h":2880}}"#,
    )
    .unwrap();
    assert_eq!(
        msg,
        ServerMessage::Hello {
            protocol: 1,
            vds: Size { w: 5120, h: 2880 }
        }
    );
}

#[test]
fn decodes_window_moved_from_protocol_example() {
    let msg = ServerMessage::decode(
        br#"{"type":"windowMoved","id":1,"rect":{"x":2300,"y":500,"w":1312,"h":844}}"#,
    )
    .unwrap();
    assert_eq!(
        msg,
        ServerMessage::WindowMoved {
            id: 1,
            rect: Rect {
                x: 2300,
                y: 500,
                w: 1312,
                h: 844
            }
        }
    );
}

#[test]
fn decodes_window_created_with_kind_and_unicode_title() {
    let msg = ServerMessage::decode(
        r#"{"type":"windowCreated","id":42,"rect":{"x":0,"y":0,"w":800,"h":600},"title":"café — Xcode","kind":"normal"}"#
            .as_bytes(),
    )
    .unwrap();
    match msg {
        ServerMessage::WindowCreated {
            id, title, kind, ..
        } => {
            assert_eq!(id, 42);
            assert_eq!(title, "café — Xcode");
            assert_eq!(kind, WindowKind::Normal);
        }
        other => panic!("wrong variant: {other:?}"),
    }
}

#[test]
fn unknown_kind_falls_back_to_normal() {
    let msg = ServerMessage::decode(
        br#"{"type":"windowCreated","id":1,"rect":{"x":0,"y":0,"w":1,"h":1},"title":"","kind":"future"}"#,
    )
    .unwrap();
    assert!(matches!(
        msg,
        ServerMessage::WindowCreated {
            kind: WindowKind::Normal,
            ..
        }
    ));
}

#[test]
fn decodes_tile_layout() {
    let msg = ServerMessage::decode(
        br#"{"type":"tileLayout","windows":[{"id":1,"rect":{"x":0,"y":0,"w":100,"h":100}},{"id":2,"rect":{"x":110,"y":0,"w":100,"h":100}}],"displaySize":{"w":5120,"h":2880}}"#,
    )
    .unwrap();
    match msg {
        ServerMessage::TileLayout { windows, display } => {
            assert_eq!(windows.len(), 2);
            assert_eq!(windows[1].id, 2);
            assert_eq!(windows[1].rect.x, 110);
            assert_eq!(display, Size { w: 5120, h: 2880 });
        }
        other => panic!("wrong variant: {other:?}"),
    }
}

#[test]
fn unknown_type_is_a_shape_error_not_a_panic() {
    let err = ServerMessage::decode(br#"{"type":"somethingNew","id":1}"#).unwrap_err();
    assert!(matches!(err, DecodeError::Shape(_)));
}

#[test]
fn missing_field_is_a_shape_error() {
    let err = ServerMessage::decode(br#"{"type":"windowMoved","id":1}"#).unwrap_err();
    assert!(matches!(err, DecodeError::Shape(_)));
}

#[test]
fn encodes_request_resize() {
    let json = ClientMessage::RequestResize {
        id: 3,
        size: Size { w: 2560, h: 1440 },
        phase: ResizePhase::End,
    }
    .to_value()
    .to_json();
    assert_eq!(
        json,
        r#"{"type":"requestResize","id":3,"size":{"w":2560,"h":1440},"phase":"end"}"#
    );
}

#[test]
fn encodes_input_matching_protocol_example() {
    let json = ClientMessage::Input {
        id: 7,
        event: InputEvent::MouseDown {
            x: 400,
            y: 300,
            button: MouseButton::Left,
        },
        ts: 12897,
    }
    .to_value()
    .to_json();
    assert_eq!(
        json,
        r#"{"type":"input","id":7,"event":{"kind":"mouseDown","x":400,"y":300,"button":"left"},"ts":12897}"#
    );
}

#[test]
fn encodes_focus_and_close() {
    assert_eq!(
        ClientMessage::RequestFocus { id: 9 }.to_value().to_json(),
        r#"{"type":"requestFocus","id":9}"#
    );
    assert_eq!(
        ClientMessage::RequestClose { id: 9 }.to_value().to_json(),
        r#"{"type":"requestClose","id":9}"#
    );
}
