use transom_client::wire::frame::frame;
use transom_client::wire::frame::FrameError;
use transom_client::wire::frame::FrameReader;

#[test]
fn frames_and_reassembles_one_message() {
    let framed = frame(b"hello");
    assert_eq!(&framed[..4], &[0, 0, 0, 5]);
    let mut r = FrameReader::default();
    r.push(&framed);
    assert_eq!(r.next_frame().unwrap(), Some(b"hello".to_vec()));
    assert_eq!(r.next_frame().unwrap(), None);
}

#[test]
fn reassembles_across_arbitrary_chunk_boundaries() {
    let mut stream = Vec::new();
    stream.extend_from_slice(&frame(b"one"));
    stream.extend_from_slice(&frame(b"two"));
    stream.extend_from_slice(&frame(b"three"));

    let mut r = FrameReader::default();
    let mut out = Vec::new();
    // Feed one byte at a time — the worst case for a length-prefix reader.
    for b in &stream {
        r.push(&[*b]);
        while let Some(f) = r.next_frame().unwrap() {
            out.push(String::from_utf8(f).unwrap());
        }
    }
    assert_eq!(out, vec!["one", "two", "three"]);
}

#[test]
fn handles_multiple_frames_in_one_chunk() {
    let mut stream = Vec::new();
    stream.extend_from_slice(&frame(b"a"));
    stream.extend_from_slice(&frame(b"bb"));
    let mut r = FrameReader::default();
    r.push(&stream);
    assert_eq!(r.next_frame().unwrap(), Some(b"a".to_vec()));
    assert_eq!(r.next_frame().unwrap(), Some(b"bb".to_vec()));
    assert_eq!(r.next_frame().unwrap(), None);
}

#[test]
fn empty_payload_is_a_valid_frame() {
    let mut r = FrameReader::default();
    r.push(&frame(b""));
    assert_eq!(r.next_frame().unwrap(), Some(Vec::new()));
}

#[test]
fn rejects_oversized_length() {
    let mut r = FrameReader::new(8);
    r.push(&[0x00, 0x00, 0x00, 0x10]); // claims 16 bytes, max is 8
    assert_eq!(
        r.next_frame(),
        Err(FrameError::TooLarge {
            claimed: 16,
            max: 8
        })
    );
}

#[test]
fn compacts_without_losing_frames() {
    // Push far more than the 64 KiB compaction threshold to exercise the drain.
    let mut r = FrameReader::default();
    let big = frame(&vec![7u8; 100 * 1024]);
    r.push(&big);
    assert_eq!(r.next_frame().unwrap().unwrap().len(), 100 * 1024);
    // Buffer should have been compacted back to empty.
    r.push(&frame(b"after"));
    assert_eq!(r.next_frame().unwrap(), Some(b"after".to_vec()));
}

#[test]
fn each_message_comes_with_its_last_byte() {
    let mut stream = frame(b"ab");
    stream.extend_from_slice(&frame(b""));
    stream.extend_from_slice(&frame(b"c"));
    let mut r = FrameReader::new(2);
    let mut ends = Vec::new();
    for (at, b) in stream.iter().enumerate() {
        r.push(&[*b]);
        while let Some(payload) = r.next_frame().unwrap() {
            ends.push((at + 1, payload));
        }
        assert_eq!(r.next_frame().unwrap(), None);
    }
    assert_eq!(ends, [(6, b"ab".to_vec()), (10, vec![]), (15, b"c".to_vec())]);
}
