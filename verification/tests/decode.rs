use transom_client::win::decode::nv12_to_bgra;
use transom_client::win::decode::EncodedFrame;
use transom_client::win::decode::PendingInput;
use transom_client::win::decode::MAX_PENDING_FRAMES;

#[test]
fn nv12_handles_padding_and_rejects_short_or_odd_frames() {
    let packed = [16, 235, 16, 235, 128, 128];
    let padded = [16, 235, 99, 99, 16, 235, 99, 99, 128, 128, 99, 99];
    let expected = vec![
        0, 0, 0, 255, 255, 255, 255, 255, 0, 0, 0, 255, 255, 255, 255, 255,
    ];
    assert_eq!(nv12_to_bgra(&packed, 2, 2, 2), Some(expected.clone()));
    assert_eq!(nv12_to_bgra(&padded, 2, 2, 4), Some(expected));
    assert!(nv12_to_bgra(&packed[..5], 2, 2, 2).is_none());
    assert!(nv12_to_bgra(&packed, 1, 2, 2).is_none());
}
fn encoded(n: u64, keyframe: bool) -> EncodedFrame {
    EncodedFrame {
        data: vec![n as u8],
        keyframe,
        pts_micros: n,
        reset: false,
    }
}
#[test]
fn compressed_frames_keep_order_and_recover_at_keyframe_after_overflow() {
    let mut queue = PendingInput::awaiting();
    queue.push(encoded(0, false));
    assert!(queue.pop().is_none());
    queue.push(encoded(1, true));
    queue.push(encoded(2, false));
    assert!(queue.pop().unwrap().reset);
    assert_eq!(queue.pop().unwrap().pts_micros, 2);
    for n in 0..=MAX_PENDING_FRAMES {
        queue.push(encoded(n as u64, false));
    }
    assert!(queue.pop().is_none());
    queue.push(encoded(10, false));
    assert!(queue.pop().is_none());
    queue.push(encoded(11, true));
    assert!(queue.pop().unwrap().reset);
}
