//! The video channel payload format. Binary, length-prefixed like the control
//! channel, but the payload is not JSON: a leading type byte distinguishes the HEVC
//! parameter sets from an access unit.

use vstd::prelude::*;

use crate::bytes::be_u64;
use crate::bytes::big_endian;
use crate::bytes::copy_range;
use crate::text::decimal;
use crate::text::unsigned_to_text;
use crate::wire::json::hex_char;
use crate::wire::json::hex_digit_char;

verus! {

/// One decoded video-channel message.
#[derive(Debug, Clone, PartialEq, Eq)]
pub enum VideoMessage {
    /// `0x01`: the HEVC `hvcC` configuration record (VPS/SPS/PPS). Sent before the
    /// first frame and again after a reconnect; an `hvc1` stream carries no inline
    /// parameter sets, so the decoder needs this first.
    Config { hvcc: Vec<u8> },
    /// `0x02`: one access unit: monotonic `seq`, host-clock `pts_micros`, a keyframe
    /// flag, and the raw HEVC bytes.
    Frame { seq: u64, pts_micros: u64, keyframe: bool, data: Vec<u8> },
}

#[derive(Debug, Clone, Copy, PartialEq, Eq, Structural)]
pub enum VideoDecodeError {
    Empty,
    UnknownTag(u8),
    /// A `frame` payload was shorter than its fixed header.
    TruncatedFrame(usize),
}

/// What a [`VideoMessage`] holds.
pub enum VideoUnit {
    Config { hvcc: Seq<u8> },
    Frame { seq: nat, pts_micros: nat, keyframe: bool, data: Seq<u8> },
}

/// The tag of a configuration record.
pub const CONFIG_TAG: u8 = 1;

/// The tag of an access unit.
pub const FRAME_TAG: u8 = 2;

/// The fixed header of a frame: tag(1) + seq(8) + pts(8) + flags(1).
pub const FRAME_HEADER_LEN: usize = 1 + 8 + 8 + 1;

impl VideoMessage {
    pub open spec fn view(&self) -> VideoUnit {
        match self {
            VideoMessage::Config { hvcc } => VideoUnit::Config { hvcc: hvcc@ },
            VideoMessage::Frame { seq, pts_micros, keyframe, data } => VideoUnit::Frame {
                seq: *seq as nat,
                pts_micros: *pts_micros as nat,
                keyframe: *keyframe,
                data: data@,
            },
        }
    }
}

impl VideoDecodeError {
    /// The error in words.
    pub fn describe(&self) -> (text: String)
        ensures
            text@ == match self {
                VideoDecodeError::Empty => "empty video payload"@,
                VideoDecodeError::UnknownTag(tag) => "unknown video tag 0x"@ + seq![
                    hex_char((tag / 16) as nat),
                    hex_char((tag % 16) as nat),
                ],
                VideoDecodeError::TruncatedFrame(n) => "truncated frame payload ("@ + decimal(
                    *n as nat,
                ) + " bytes, need >= 18)"@,
            },
    {
        match self {
            VideoDecodeError::Empty => String::from_str("empty video payload"),
            VideoDecodeError::UnknownTag(tag) => {
                let mut text = String::from_str("unknown video tag 0x");
                text.push(hex_digit_char((*tag / 16) as u32));
                text.push(hex_digit_char((*tag % 16) as u32));
                proof {
                    assert(text@ =~= "unknown video tag 0x"@ + seq![
                        hex_char((tag / 16) as nat),
                        hex_char((tag % 16) as nat),
                    ]);
                }
                text
            },
            VideoDecodeError::TruncatedFrame(n) => String::from_str(
                "truncated frame payload (",
            ).concat(unsigned_to_text(*n as u64).as_str()).concat(" bytes, need >= 18)"),
        }
    }
}

/// The message that a de-framed payload holds.
pub open spec fn video_unit(payload: Seq<u8>) -> Result<VideoUnit, VideoDecodeError> {
    if payload.len() == 0 {
        Err(VideoDecodeError::Empty)
    } else if payload[0] == CONFIG_TAG {
        Ok(VideoUnit::Config { hvcc: payload.skip(1) })
    } else if payload[0] == FRAME_TAG {
        if payload.len() < FRAME_HEADER_LEN {
            Err(VideoDecodeError::TruncatedFrame(payload.len() as usize))
        } else {
            Ok(
                VideoUnit::Frame {
                    seq: big_endian(payload.subrange(1, 9)),
                    pts_micros: big_endian(payload.subrange(9, 17)),
                    keyframe: payload[17] % 2 == 1,
                    data: payload.skip(FRAME_HEADER_LEN as int),
                },
            )
        }
    } else {
        Err(VideoDecodeError::UnknownTag(payload[0]))
    }
}

impl VideoMessage {
    /// Decode one de-framed video-channel payload.
    pub fn decode(payload: &[u8]) -> (result: Result<VideoMessage, VideoDecodeError>)
        ensures
            match result {
                Ok(message) => video_unit(payload@) == Ok::<VideoUnit, VideoDecodeError>(message@),
                Err(error) => video_unit(payload@) == Err::<VideoUnit, VideoDecodeError>(error),
            },
    {
        if payload.len() == 0 {
            return Err(VideoDecodeError::Empty);
        }
        let tag: u8 = payload[0];
        if tag == CONFIG_TAG {
            let hvcc = copy_range(payload, 1, payload.len());
            proof {
                assert(hvcc@ =~= payload@.skip(1));
            }
            Ok(VideoMessage::Config { hvcc })
        } else if tag == FRAME_TAG {
            if payload.len() < FRAME_HEADER_LEN {
                return Err(VideoDecodeError::TruncatedFrame(payload.len()));
            }
            let data = copy_range(payload, FRAME_HEADER_LEN, payload.len());
            let flags: u8 = payload[17];
            proof {
                assert(data@ =~= payload@.skip(FRAME_HEADER_LEN as int));
            }
            Ok(
                VideoMessage::Frame {
                    seq: be_u64(payload, 1),
                    pts_micros: be_u64(payload, 9),
                    keyframe: flags % 2 == 1,
                    data,
                },
            )
        } else {
            Err(VideoDecodeError::UnknownTag(tag))
        }
    }
}

/// The payload of an access unit, where `seq` and `pts` are eight big-endian bytes
/// each.
pub open spec fn frame_payload(
    seq: Seq<u8>,
    pts: Seq<u8>,
    keyframe: bool,
    data: Seq<u8>,
) -> Seq<u8> {
    seq![FRAME_TAG] + seq + pts + seq![
        if keyframe {
            1u8
        } else {
            0u8
        },
    ] + data
}

/// An access unit reads back as what it was made of.
pub proof fn law_frames_read_back(seq: Seq<u8>, pts: Seq<u8>, keyframe: bool, data: Seq<u8>)
    requires
        seq.len() == 8,
        pts.len() == 8,
    ensures
        video_unit(frame_payload(seq, pts, keyframe, data)) == Ok::<VideoUnit, VideoDecodeError>(
            VideoUnit::Frame {
                seq: big_endian(seq),
                pts_micros: big_endian(pts),
                keyframe,
                data,
            },
        ),
{
    let payload = frame_payload(seq, pts, keyframe, data);
    assert(payload.subrange(1, 9) =~= seq);
    assert(payload.subrange(9, 17) =~= pts);
    assert(payload.skip(18) =~= data);
}

/// A configuration record reads back as its `hvcC` bytes.
pub proof fn law_configs_read_back(hvcc: Seq<u8>)
    ensures
        video_unit(seq![CONFIG_TAG] + hvcc) == Ok::<VideoUnit, VideoDecodeError>(
            VideoUnit::Config { hvcc },
        ),
{
    assert((seq![CONFIG_TAG] + hvcc).skip(1) =~= hvcc);
}

} // verus!
