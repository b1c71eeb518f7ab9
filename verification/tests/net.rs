use transom_client::net::send_message;
use transom_client::net::EndError;
use transom_client::net::FramedReceiver;
use transom_client::net::RecvError;
use transom_client::wire::control::ClientMessage;
use transom_client::wire::control::ResizePhase;
use transom_client::wire::control::ServerMessage;
use transom_client::wire::control::Size;
use transom_client::wire::frame::frame;
use transom_client::wire::frame::FrameError;
use transom_client::wire::speaks;

#[test]
fn receiver_reassembles_framed_messages() {
    // Two framed control messages back to back in one buffer.
    let mut stream = Vec::new();
    stream.extend_from_slice(&frame(
        br#"{"type":"hello","protocol":1,"vdsSize":{"w":100,"h":100}}"#,
    ));
    stream.extend_from_slice(&frame(br#"{"type":"windowFocused","id":3}"#));

    let mut rx = FramedReceiver::new();
    assert!(rx.read(&stream));
    let first = ServerMessage::decode(&rx.recv().unwrap().unwrap()).unwrap();
    assert_eq!(
        first,
        ServerMessage::Hello {
            protocol: 1,
            vds: Size { w: 100, h: 100 }
        }
    );
    let second = ServerMessage::decode(&rx.recv().unwrap().unwrap()).unwrap();
    assert_eq!(second, ServerMessage::WindowFocused { id: 3 });
    assert!(!rx.read(&[]));
    assert!(rx.recv().unwrap().is_none()); // clean end of stream
}

#[test]
fn send_message_frames_with_length_prefix() {
    let mut out = Vec::new();
    send_message(
        &mut out,
        &ClientMessage::RequestResize {
            id: 1,
            size: Size { w: 640, h: 480 },
            phase: ResizePhase::End,
        },
    );
    // 4-byte BE length prefix, then the JSON body.
    let len = u32::from_be_bytes([out[0], out[1], out[2], out[3]]) as usize;
    assert_eq!(len, out.len() - 4);
    let body = std::str::from_utf8(&out[4..]).unwrap();
    assert!(body.starts_with(r#"{"type":"requestResize""#));
}

#[test]
fn an_end_inside_a_frame_is_unexpected() {
    let mut rx = FramedReceiver::new();
    assert!(rx.read(&[0, 0, 0, 5, b'h']));
    // More may still come.
    assert_eq!(rx.recv(), Ok(None));
    assert!(!rx.read(&[]));
    assert_eq!(rx.finish(), Err(EndError { left: 5 }));
    assert_eq!(rx.recv(), Err(RecvError::UnexpectedEnd(EndError { left: 5 })));
    assert_eq!(
        rx.finish().unwrap_err().describe(),
        "the stream ended inside a frame, after 5 bytes of it"
    );
}

#[test]
fn every_cut_is_told_from_a_clean_end() {
    let mut stream = frame(b"one");
    stream.extend_from_slice(&frame(b""));
    for cut in 0..=stream.len() {
        let mut rx = FramedReceiver::new();
        rx.read(&stream[..cut]);
        while let Ok(Some(_)) = rx.recv() {}
        assert!(!rx.read(&[]));
        let clean = cut == 0 || cut == 7 || cut == 11;
        assert_eq!(rx.finish().is_ok(), clean, "{cut}");
        assert_eq!(rx.recv() == Ok(None), clean, "{cut}");
    }
}

#[test]
fn an_oversized_frame_stops_the_receiver() {
    let mut rx = FramedReceiver::new();
    rx.read(&[0xff, 0xff, 0xff, 0xff]);
    let max = 64 * 1024 * 1024;
    let error = FrameError::TooLarge { claimed: 0xffff_ffff, max };
    assert_eq!(rx.recv(), Err(RecvError::Frame(error)));
}

#[test]
fn only_the_own_protocol_is_spoken() {
    assert!(speaks(1));
    assert!(!speaks(0));
    assert!(!speaks(2));
}

#[test]
fn payloads_come_in_order_whatever_the_pieces() {
    let payloads: [&[u8]; 4] = [b"one", b"", b"a longer message", b"x"];
    let mut stream = Vec::new();
    for payload in payloads {
        stream.extend_from_slice(&frame(payload));
    }
    for size in 1..=stream.len() {
        let mut rx = FramedReceiver::new();
        let mut pieces = stream.chunks(size);
        let mut seen = Vec::new();
        loop {
            match rx.recv().unwrap() {
                Some(payload) => seen.push(payload),
                None => match pieces.next() {
                    Some(piece) => assert!(rx.read(piece)),
                    None => break,
                },
            }
        }
        assert!(!rx.read(&[]));
        assert_eq!(rx.recv(), Ok(None));
        assert_eq!(seen, payloads, "{size}");
    }
}
