//! The Transom wire protocol, client side.
//!
//! The wire is the one part of the client that must agree byte for byte with the
//! host, so it is kept free of any platform dependency.

use vstd::prelude::*;

pub mod base64;
pub mod base64_laws;
pub mod control;
pub mod control_laws;
pub mod frame;
pub mod frame_laws;
pub mod input;
pub mod json;
pub mod json_laws;
pub mod json_text_laws;
pub mod message_laws;
pub mod video;

verus! {

/// The protocol version this client speaks, checked against the host's `hello`.
pub const PROTOCOL_VERSION: u32 = 1;

/// Whether a host that says this number in its `hello` can be talked to.
pub fn speaks(protocol: u32) -> (understood: bool)
    ensures
        understood == (protocol == PROTOCOL_VERSION),
{
    protocol == PROTOCOL_VERSION
}

/// Default TCP ports. These are defaults, not wire constants; the host can be told
/// to use others, and the control default collides with macOS AirPlay Receiver, so
/// it is frequently overridden.
pub const DEFAULT_CONTROL_PORT: u16 = 7000;

pub const DEFAULT_VIDEO_PORT: u16 = 7001;

} // verus!
