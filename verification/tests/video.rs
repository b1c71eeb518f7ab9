use transom_client::wire::video::VideoDecodeError;
use transom_client::wire::video::VideoMessage;

/// A frame payload as the host lays it out.
fn host_encode_frame(seq: u64, pts: u64, keyframe: bool, data: &[u8]) -> Vec<u8> {
    let mut out = vec![0x02];
    out.extend_from_slice(&seq.to_be_bytes());
    out.extend_from_slice(&pts.to_be_bytes());
    out.push(if keyframe { 1 } else { 0 });
    out.extend_from_slice(data);
    out
}

#[test]
fn decodes_config() {
    let mut payload = vec![0x01];
    payload.extend_from_slice(&[0xDE, 0xAD, 0xBE, 0xEF]);
    assert_eq!(
        VideoMessage::decode(&payload).unwrap(),
        VideoMessage::Config {
            hvcc: vec![0xDE, 0xAD, 0xBE, 0xEF]
        }
    );
}

#[test]
fn decodes_keyframe() {
    let payload = host_encode_frame(1, 16_000, true, &[1, 2, 3]);
    assert_eq!(
        VideoMessage::decode(&payload).unwrap(),
        VideoMessage::Frame {
            seq: 1,
            pts_micros: 16_000,
            keyframe: true,
            data: vec![1, 2, 3],
        }
    );
}

#[test]
fn decodes_non_keyframe() {
    let payload = host_encode_frame(9_000_000_000, 33_000, false, &[]);
    match VideoMessage::decode(&payload).unwrap() {
        VideoMessage::Frame {
            seq,
            pts_micros,
            keyframe,
            data,
        } => {
            assert_eq!(seq, 9_000_000_000);
            assert_eq!(pts_micros, 33_000);
            assert!(!keyframe);
            assert!(data.is_empty());
        }
        other => panic!("wrong variant: {other:?}"),
    }
}

#[test]
fn rejects_short_frame() {
    // Tag + only 4 bytes: well under the 18-byte header.
    assert_eq!(
        VideoMessage::decode(&[0x02, 0, 0, 0, 0]),
        Err(VideoDecodeError::TruncatedFrame(5))
    );
}

#[test]
fn rejects_unknown_tag_and_empty() {
    assert_eq!(
        VideoMessage::decode(&[0x09]),
        Err(VideoDecodeError::UnknownTag(0x09))
    );
    assert_eq!(VideoMessage::decode(&[]), Err(VideoDecodeError::Empty));
}
