use transom_client::bytes::append_bytes;
use transom_client::bytes::be_u16;
use transom_client::bytes::be_u32;
use transom_client::bytes::be_u64;
use transom_client::hevc::HevcConfig;
use transom_client::wire::base64::decode;
use transom_client::wire::control::ClientMessage;
use transom_client::wire::control::DecodeError;
use transom_client::wire::control::ResizePhase;
use transom_client::wire::control::ServerMessage;
use transom_client::wire::control::Size;
use transom_client::wire::control::WindowKind;
use transom_client::wire::frame::frame;
use transom_client::wire::frame::FrameError;
use transom_client::wire::frame::FrameReader;
use transom_client::wire::frame::DEFAULT_MAX_FRAME_LEN;
use transom_client::wire::input::InputEvent;
use transom_client::wire::input::MouseButton;
use transom_client::wire::json::JsonError;
use transom_client::wire::json::Value;
use transom_client::wire::video::VideoDecodeError;
use transom_client::wire::video::VideoMessage;

fn fault(text: &str) -> (String, usize) {
    let JsonError { message, at } = Value::parse(text).unwrap_err();
    (message, at)
}

fn said(message: &str, at: usize) -> (String, usize) {
    (message.to_string(), at)
}

#[test]
fn json_faults_tell_what_and_where() {
    assert_eq!(fault(""), said("expected a JSON value", 0));
    assert_eq!(fault("  x"), said("expected a JSON value", 2));
    assert_eq!(fault("1 2"), said("trailing characters after JSON value", 2));
    assert_eq!(fault("tru"), said("expected `true`", 0));
    assert_eq!(fault("fals3"), said("expected `false`", 0));
    assert_eq!(fault("nul"), said("expected `null`", 0));
    assert_eq!(fault("[1"), said("expected `,` or `]` in array", 2));
    assert_eq!(fault("{1"), said("expected string key in object", 1));
    assert_eq!(fault("{\"a\" 1"), said("expected `:` after object key", 5));
    assert_eq!(fault("{\"a\":1"), said("expected `,` or `}` in object", 6));
}

#[test]
fn json_string_faults_count_bytes() {
    assert_eq!(fault("\"é"), said("unterminated string", 3));
    assert_eq!(fault("\"é\n\""), said("control character in string", 3));
    assert_eq!(fault("\"\\"), said("unterminated escape", 2));
    assert_eq!(fault("\"\\x\""), said("invalid escape", 3));
    assert_eq!(fault("\"\\u12"), said("truncated \\u escape", 3));
    assert_eq!(fault("\"\\u12g4\""), said("invalid hex digit in \\u escape", 3));
    assert_eq!(fault("\"\\ud83dx\""), said("unpaired high surrogate", 7));
    assert_eq!(fault("\"\\ud83d\\n\""), said("unpaired high surrogate", 8));
    assert_eq!(fault("\"\\ud83d\\u0041\""), said("invalid low surrogate", 13));
    assert_eq!(fault("\"\\ude00\""), said("unexpected low surrogate", 7));
}

#[test]
fn json_error_describes_itself() {
    let error = Value::parse("[").unwrap_err();
    assert_eq!(error.describe(), "JSON error at byte 1: expected a JSON value");
}

#[test]
fn json_escapes_read_as_characters() {
    let v = Value::parse("\"\\u00e9\\ud83d\\ude00\\u0000\\b\\f\\r\"").unwrap();
    assert_eq!(v.as_str(), Some("é😀\u{0}\u{8}\u{c}\r"));
}

#[test]
fn json_control_characters_are_escaped() {
    assert_eq!(
        Value::str("\u{1}\u{1f}\u{8}\u{c}\t\r\\é").to_json(),
        "\"\\u0001\\u001f\\b\\f\\t\\r\\\\é\""
    );
}

#[test]
fn json_numbers_keep_their_text() {
    for text in ["0", "-0", "007", "1.5e+3", "-", "1.", "2E-7"] {
        let v = Value::parse(text).unwrap();
        assert_eq!(v, Value::Num(text.to_string()));
        assert_eq!(v.to_json(), text);
    }
    assert_eq!(Value::parse("007").unwrap().as_u32(), Some(7));
    assert_eq!(Value::parse("4294967296").unwrap().as_u32(), None);
    assert_eq!(Value::parse("18446744073709551616").unwrap().as_u64(), None);
    assert_eq!(Value::parse("-2147483648").unwrap().as_i32(), Some(i32::MIN));
    assert_eq!(Value::parse("-2147483649").unwrap().as_i32(), None);
    assert_eq!(Value::parse("-1").unwrap().as_u64(), None);
    assert_eq!(Value::parse("1.5").unwrap().as_u64(), None);
}

#[test]
fn json_accessors_fit_only_their_kind() {
    let v = Value::parse("{\"a\":[true,false,null],\"a\":2}").unwrap();
    assert_eq!(v.as_str(), None);
    assert_eq!(v.as_u64(), None);
    assert!(v.as_array().is_none());
    assert!(v.get("b").is_none());
    // The first of two equal keys counts.
    let items = v.get("a").and_then(Value::as_array).unwrap();
    assert_eq!(items, [Value::Bool(true), Value::Bool(false), Value::Null]);
    assert!(items[0].get("a").is_none());
    assert_eq!(v.to_json(), "{\"a\":[true,false,null],\"a\":2}");
}

#[test]
fn json_written_values_read_back() {
    let v = Value::object(vec![
        ("quote\"", Value::str("a\\b\u{7}\u{1f600}")),
        ("n", Value::signed(-12)),
        ("list", Value::Array(vec![Value::Null, Value::uint(u64::MAX)])),
        ("empty", Value::Object(vec![])),
    ]);
    assert_eq!(Value::parse(&v.to_json()).unwrap(), v);
    assert_eq!(v.clone(), v);
}

#[test]
fn frames_survive_every_split() {
    let mut stream = frame(b"hello");
    stream.extend_from_slice(&frame(b""));
    stream.extend_from_slice(&frame(b"world"));
    for split in 0..=stream.len() {
        let mut reader = FrameReader::default();
        let mut seen = Vec::new();
        for part in [&stream[..split], &stream[split..]] {
            reader.push(part);
            while let Some(payload) = reader.next_frame().unwrap() {
                seen.push(payload);
            }
        }
        assert_eq!(seen, [b"hello".to_vec(), vec![], b"world".to_vec()]);
    }
}

#[test]
fn frame_limit_is_inclusive() {
    assert_eq!(DEFAULT_MAX_FRAME_LEN, 64 * 1024 * 1024);
    let mut reader = FrameReader::new(3);
    reader.push(&frame(b"abc"));
    reader.push(&frame(b"abcd"));
    assert_eq!(reader.next_frame(), Ok(Some(b"abc".to_vec())));
    let error = reader.next_frame().unwrap_err();
    assert_eq!(error, FrameError::TooLarge { claimed: 4, max: 3 });
    assert_eq!(error.describe(), "frame length 4 exceeds maximum 3");
    // The reader stays where it is.
    assert_eq!(reader.next_frame().unwrap_err(), error);
}

#[test]
fn big_endian_numbers_read_back() {
    let mut bytes = vec![9u8];
    append_bytes(&mut bytes, &0x0102u16.to_be_bytes());
    append_bytes(&mut bytes, &0x0304_0506u32.to_be_bytes());
    append_bytes(&mut bytes, &0x0708_090a_0b0c_0d0eu64.to_be_bytes());
    assert_eq!(be_u16(&bytes, 1), 0x0102);
    assert_eq!(be_u32(&bytes, 3), 0x0304_0506);
    assert_eq!(be_u64(&bytes, 7), 0x0708_090a_0b0c_0d0e);
}

#[test]
fn base64_texts_stand_for_different_bytes() {
    assert_eq!(decode("AAAA").unwrap(), [0, 0, 0]);
    assert_eq!(decode("////").unwrap(), [255, 255, 255]);
    assert_eq!(decode("+/8=").unwrap(), [0xfb, 0xff]);
    assert_eq!(decode("Zg="), None);
    assert_eq!(decode("Z==="), None);
    assert_eq!(decode("Zg==Zm9v"), None);
    assert_eq!(decode(&"A".repeat(172_000)).unwrap().len(), 129_000);
}

#[test]
fn video_payloads_read_back() {
    let mut payload = vec![2u8];
    payload.extend_from_slice(&7u64.to_be_bytes());
    payload.extend_from_slice(&u64::MAX.to_be_bytes());
    payload.push(0xfe);
    payload.push(42);
    assert_eq!(
        VideoMessage::decode(&payload).unwrap(),
        VideoMessage::Frame {
            seq: 7,
            pts_micros: u64::MAX,
            keyframe: false,
            data: vec![42]
        }
    );
    payload[17] = 0xff;
    assert!(matches!(
        VideoMessage::decode(&payload).unwrap(),
        VideoMessage::Frame { keyframe: true, .. }
    ));
    assert_eq!(
        VideoMessage::decode(&payload[..17]),
        Err(VideoDecodeError::TruncatedFrame(17))
    );
    assert_eq!(
        VideoMessage::decode(&[1]).unwrap(),
        VideoMessage::Config { hvcc: vec![] }
    );
}

#[test]
fn client_messages_differ_on_the_wire() {
    let size = Size { w: 1, h: 2 };
    let event = InputEvent::MouseMove { x: 3, y: 4 };
    let messages = [
        ClientMessage::RequestResize { id: 1, size, phase: ResizePhase::Begin },
        ClientMessage::RequestResize { id: 1, size, phase: ResizePhase::Live },
        ClientMessage::RequestResize { id: 1, size, phase: ResizePhase::End },
        ClientMessage::RequestFocus { id: 1 },
        ClientMessage::RequestClose { id: 1 },
        ClientMessage::Input { id: 1, event, ts: 5 },
        ClientMessage::Input { id: 1, event, ts: 6 },
    ];
    for a in 0..messages.len() {
        let payload = messages[a].encode();
        let text = String::from_utf8(payload.clone()).unwrap();
        assert_eq!(Value::parse(&text).unwrap(), messages[a].to_value());
        for b in 0..a {
            assert_ne!(payload, messages[b].encode());
        }
    }
}

#[test]
fn input_events_name_their_kind() {
    let texts = [
        (
            InputEvent::MouseUp { x: 1, y: 2, button: MouseButton::Right },
            "{\"kind\":\"mouseUp\",\"x\":1,\"y\":2,\"button\":\"right\"}",
        ),
        (
            InputEvent::MouseDown { x: 1, y: 2, button: MouseButton::Middle },
            "{\"kind\":\"mouseDown\",\"x\":1,\"y\":2,\"button\":\"middle\"}",
        ),
        (
            InputEvent::MouseMove { x: 7, y: 8 },
            "{\"kind\":\"mouseMove\",\"x\":7,\"y\":8}",
        ),
    ];
    for (event, text) in texts {
        assert_eq!(event.to_value().to_json(), text);
    }
}

fn refusal(text: &str) -> String {
    ServerMessage::decode(text.as_bytes()).unwrap_err().describe()
}

#[test]
fn malformed_messages_tell_what_is_missing() {
    assert_eq!(refusal("{}"), "malformed control message: missing field `type`");
    assert_eq!(
        refusal("{\"type\":1}"),
        "malformed control message: `type` is not a string"
    );
    assert_eq!(
        refusal("{\"type\":\"new\"}"),
        "malformed control message: unknown control message type `new`"
    );
    assert_eq!(
        refusal("{\"type\":\"hello\",\"protocol\":-1}"),
        "malformed control message: field `protocol` is not a u32"
    );
    assert_eq!(
        refusal("{\"type\":\"windowFocused\",\"id\":\"1\"}"),
        "malformed control message: field `id` is not a u64"
    );
    assert_eq!(
        refusal("{\"type\":\"windowTitle\",\"id\":1,\"title\":2}"),
        "malformed control message: field `title` is not a string"
    );
    assert_eq!(
        refusal("{\"type\":\"tileLayout\",\"windows\":{}}"),
        "malformed control message: `windows` is not an array"
    );
    assert_eq!(
        ServerMessage::decode(&[0xff]).unwrap_err().describe(),
        "malformed control message: payload is not UTF-8"
    );
    assert_eq!(refusal("{"), "JSON error at byte 1: expected string key in object");
    assert!(matches!(
        ServerMessage::decode(b"{").unwrap_err(),
        DecodeError::Json(_)
    ));
}

#[test]
fn every_server_message_is_understood() {
    assert_eq!(
        ServerMessage::decode(b"{\"type\":\"windowDestroyed\",\"id\":4}").unwrap(),
        ServerMessage::WindowDestroyed { id: 4 }
    );
    assert_eq!(
        ServerMessage::decode(b"{\"type\":\"windowTitle\",\"id\":4,\"title\":\"t\"}").unwrap(),
        ServerMessage::WindowTitle { id: 4, title: "t".into() }
    );
    assert_eq!(
        ServerMessage::decode(b"{\"type\":\"error\",\"code\":3,\"message\":\"m\"}").unwrap(),
        ServerMessage::Error { code: 3, message: "m".into() }
    );
    let kinds = [
        ("sheet", WindowKind::Sheet),
        ("popover", WindowKind::Popover),
        ("menu", WindowKind::Menu),
        ("normal", WindowKind::Normal),
    ];
    for (word, expected) in kinds {
        let text = format!(
            "{{\"type\":\"windowCreated\",\"id\":1,\"rect\":{{\"x\":0,\"y\":0,\"w\":1,\"h\":1}},\"title\":\"\",\"kind\":\"{word}\"}}"
        );
        match ServerMessage::decode(text.as_bytes()).unwrap() {
            ServerMessage::WindowCreated { kind, .. } => assert_eq!(kind, expected, "{word}"),
            other => panic!("wrong variant: {other:?}"),
        }
    }
}

fn record(length_size: u8) -> Vec<u8> {
    let mut bytes = vec![0u8; 23];
    bytes[0] = 1;
    bytes[1] = 0x42;
    bytes[16] = 0xfe;
    bytes[17] = 0xfa;
    bytes[21] = length_size - 1;
    bytes[22] = 3;
    for kind in 32..=34u8 {
        bytes.extend_from_slice(&[kind, 0, 1, 0, 3, kind << 1, 1, 0xaa]);
    }
    bytes
}

#[test]
fn hevc_faults_have_names() {
    assert_eq!(
        HevcConfig::parse(&[0; 23]).unwrap_err(),
        "Invalid HEVC configuration record"
    );
    assert_eq!(
        HevcConfig::parse(&record(3)).unwrap_err(),
        "Reserved HEVC NAL length size"
    );
    let mut bytes = record(4);
    bytes[28] = 0;
    assert_eq!(
        HevcConfig::parse(&bytes).unwrap_err(),
        "Invalid HEVC parameter-set NAL"
    );
    let mut bytes = record(4);
    bytes.push(0);
    assert_eq!(
        HevcConfig::parse(&bytes).unwrap_err(),
        "HEVC configuration must contain VPS, SPS, and PPS"
    );
    let config = HevcConfig::parse(&record(4)).unwrap();
    assert_eq!((config.profile, config.chroma, config.bit_depth), (2, 2, 10));
    assert_eq!(config.annex_b(&[], false).unwrap_err(), "Empty HEVC access unit");
    assert_eq!(
        config.annex_b(&[0, 0, 0, 1, 9], false).unwrap_err(),
        "Empty or truncated HEVC NAL unit"
    );
    assert_eq!(
        config.annex_b(&[0, 0, 0, 3, 9], false).unwrap_err(),
        "Truncated HEVC packet"
    );
}

#[test]
fn hevc_units_are_reframed_one_by_one() {
    let config = HevcConfig::parse(&record(2)).unwrap();
    let unit = [0, 2, 5, 6, 0, 3, 7, 8, 9];
    assert_eq!(
        config.annex_b(&unit, false).unwrap(),
        [0, 0, 0, 1, 5, 6, 0, 0, 0, 1, 7, 8, 9]
    );
}

#[test]
fn json_is_written_without_white_space() {
    let spaced = " { \"a b\\\"\" : [ 1 , -2.5e+3 ,\n null ] ,\t\"\" : { } } ";
    let v = Value::parse(spaced).unwrap();
    assert_eq!(v.to_json(), "{\"a b\\\"\":[1,-2.5e+3,null],\"\":{}}");
}
