//! Length-prefix framing: every message on both channels is a 4-byte big-endian
//! unsigned length followed by that many payload bytes.
//!
//! The same reassembly serves the control channel (JSON payloads) and the video
//! channel (binary payloads).

use vstd::prelude::*;

use crate::bytes::append_bytes;
use crate::bytes::be_u32;
use crate::bytes::big_endian;
use crate::bytes::big_endian_bytes;
use crate::bytes::copy_range;
use crate::bytes::law_big_endian_reads_back;
use crate::text::decimal;
use crate::text::unsigned_to_text;

verus! {

/// The default cap on a single frame's claimed length: anything larger is rejected
/// so a corrupt or hostile prefix cannot make the reader buffer unbounded memory.
/// 64 MiB matches the host.
pub const DEFAULT_MAX_FRAME_LEN: usize = 64 * 1024 * 1024;

/// The consumed prefix of a reader's buffer is reclaimed only from this size on.
pub const COMPACT_THRESHOLD: usize = 64 * 1024;

#[derive(Debug, Clone, Copy, PartialEq, Eq, Structural)]
pub enum FrameError {
    /// A length prefix exceeded the configured maximum.
    TooLarge { claimed: usize, max: usize },
}

impl FrameError {
    /// The error in words.
    pub fn describe(&self) -> (text: String)
        ensures
            self matches FrameError::TooLarge { claimed, max } && text@ == "frame length "@
                + decimal(claimed as nat) + " exceeds maximum "@ + decimal(max as nat),
    {
        match self {
            FrameError::TooLarge { claimed, max } => {
                String::from_str("frame length ").concat(
                    unsigned_to_text(*claimed as u64).as_str(),
                ).concat(" exceeds maximum ").concat(unsigned_to_text(*max as u64).as_str())
            },
        }
    }
}

/// What the bytes received so far amount to.
pub enum Step {
    /// The next frame is not complete yet.
    Incomplete,
    /// The next length prefix claims more than the maximum.
    Oversized { claimed: nat },
    /// A whole frame: its payload, and the bytes behind it.
    Complete { payload: Seq<u8>, rest: Seq<u8> },
}

/// One framed message: the payload's length (its low 32 bits) in four big-endian
/// bytes, then the payload.
pub open spec fn framed(payload: Seq<u8>) -> Seq<u8> {
    big_endian_bytes(payload.len() % 0x1_0000_0000) + payload
}

/// Take the next frame off `pending`, where frames above `max` bytes are refused.
pub open spec fn next_step(pending: Seq<u8>, max: nat) -> Step {
    if pending.len() < 4 {
        Step::Incomplete
    } else {
        let claimed = big_endian(pending.take(4));
        if claimed > max {
            Step::Oversized { claimed }
        } else if pending.len() < 4 + claimed {
            Step::Incomplete
        } else {
            Step::Complete {
                payload: pending.subrange(4, 4 + claimed as int),
                rest: pending.skip(4 + claimed as int),
            }
        }
    }
}

/// The payloads of all the whole frames at the front of `pending`.
pub open spec fn frames_in(pending: Seq<u8>, max: nat) -> Seq<Seq<u8>>
    decreases pending.len(),
{
    match next_step(pending, max) {
        Step::Complete { payload, rest } => if rest.len() < pending.len() {
            seq![payload] + frames_in(rest, max)
        } else {
            seq![]
        },
        _ => seq![],
    }
}

/// What is left of `pending` once all the whole frames at its front are taken.
pub open spec fn rest_after_frames(pending: Seq<u8>, max: nat) -> Seq<u8>
    decreases pending.len(),
{
    match next_step(pending, max) {
        Step::Complete { payload, rest } => if rest.len() < pending.len() {
            rest_after_frames(rest, max)
        } else {
            pending
        },
        _ => pending,
    }
}

/// The stream of several framed messages.
pub open spec fn framed_all(payloads: Seq<Seq<u8>>) -> Seq<u8>
    decreases payloads.len(),
{
    if payloads.len() == 0 {
        seq![]
    } else {
        framed(payloads[0]) + framed_all(payloads.skip(1))
    }
}

/// Reassembles whole frames from a byte stream that arrives in arbitrary chunks.
pub struct FrameReader {
    buf: Vec<u8>,
    /// Read cursor into `buf`. It advances instead of draining the front on every
    /// frame, and the buffer is compacted only when the cursor grows large, so a
    /// busy video stream does not pay a move of the whole buffer per frame.
    start: usize,
    max_frame_len: usize,
}

impl Default for FrameReader {
    fn default() -> (reader: Self)
        ensures
            reader.wf(),
            reader.pending() == Seq::<u8>::empty(),
            reader.max_len() == DEFAULT_MAX_FRAME_LEN,
    {
        Self::new(DEFAULT_MAX_FRAME_LEN)
    }
}

impl FrameReader {
    pub closed spec fn wf(self) -> bool {
        self.start <= self.buf@.len()
    }

    /// The bytes received and not yet handed out.
    pub closed spec fn pending(self) -> Seq<u8> {
        self.buf@.skip(self.start as int)
    }

    /// The largest frame that is accepted.
    pub closed spec fn max_len(self) -> nat {
        self.max_frame_len as nat
    }

    /// The bytes handed out whose memory is still held.
    pub closed spec fn consumed(self) -> nat {
        self.start as nat
    }

    pub fn new(max_frame_len: usize) -> (reader: Self)
        ensures
            reader.wf(),
            reader.pending() == Seq::<u8>::empty(),
            reader.max_len() == max_frame_len,
            reader.consumed() == 0,
    {
        let reader = FrameReader { buf: Vec::new(), start: 0, max_frame_len };
        proof {
            assert(reader.pending() =~= Seq::<u8>::empty());
        }
        reader
    }

    /// Feed freshly read bytes.
    pub fn push(&mut self, data: &[u8])
        requires
            old(self).wf(),
        ensures
            final(self).wf(),
            final(self).pending() == old(self).pending() + data@,
            final(self).max_len() == old(self).max_len(),
            final(self).consumed() == old(self).consumed(),
    {
        append_bytes(&mut self.buf, data);
        proof {
            assert(self.pending() =~= old(self).pending() + data@);
        }
    }

    /// Pop the next complete frame's payload, or `None` if not enough bytes have
    /// arrived yet. Call in a loop after each `push` until it returns `None`.
    pub fn next_frame(&mut self) -> (result: Result<Option<Vec<u8>>, FrameError>)
        requires
            old(self).wf(),
        ensures
            final(self).wf(),
            final(self).max_len() == old(self).max_len(),
            match next_step(old(self).pending(), old(self).max_len()) {
                Step::Incomplete => {
                    &&& result == Ok::<Option<Vec<u8>>, FrameError>(None)
                    &&& final(self).pending() == old(self).pending()
                },
                Step::Oversized { claimed } => {
                    &&& result == Err::<Option<Vec<u8>>, FrameError>(
                        FrameError::TooLarge {
                            claimed: claimed as usize,
                            max: old(self).max_len() as usize,
                        },
                    )
                    &&& final(self).pending() == old(self).pending()
                },
                Step::Complete { payload, rest } => {
                    &&& result matches Ok(Some(bytes)) && bytes@ == payload
                    &&& final(self).pending() == rest
                },
            },
            result is Ok ==> final(self).compacted() || final(self).consumed() == old(
                self,
            ).consumed() == 0,
    {
        let available: usize = self.buf.len() - self.start;
        let ghost pending = self.pending();
        if available < 4 {
            self.compact_if_needed();
            return Ok(None);
        }
        let len: usize = be_u32(self.buf.as_slice(), self.start) as usize;
        proof {
            assert(pending.take(4) =~= self.buf@.subrange(self.start as int, self.start + 4));
        }
        if len > self.max_frame_len {
            return Err(FrameError::TooLarge { claimed: len, max: self.max_frame_len });
        }
        if available - 4 < len {
            self.compact_if_needed();
            return Ok(None);
        }
        let payload = copy_range(self.buf.as_slice(), self.start + 4, self.start + 4 + len);
        proof {
            assert(payload@ =~= pending.subrange(4, 4 + len as int));
        }
        self.start = self.start + (4 + len);
        proof {
            assert(self.pending() =~= pending.skip(4 + len as int));
        }
        self.compact_if_needed();
        Ok(Some(payload))
    }

    /// How many bytes were received and not yet handed out.
    pub fn pending_len(&self) -> (len: usize)
        requires
            self.wf(),
        ensures
            len == self.pending().len(),
    {
        self.buf.len() - self.start
    }

    /// No more than the threshold of consumed bytes is held, unless more bytes than
    /// that are still pending.
    pub open spec fn compacted(self) -> bool {
        self.consumed() < COMPACT_THRESHOLD || self.consumed() < self.pending().len()
    }

    /// Reclaim consumed prefix bytes once they dominate the buffer, keeping memory
    /// bounded without a per-frame move: when the consumed region is both large and
    /// at least half of the buffer.
    fn compact_if_needed(&mut self)
        requires
            old(self).wf(),
        ensures
            final(self).wf(),
            final(self).compacted(),
            final(self).pending() == old(self).pending(),
            final(self).max_len() == old(self).max_len(),
            final(self).consumed() == 0 || final(self).consumed() == old(self).consumed(),
    {
        if self.start == 0 {
            return;
        }
        if self.start >= COMPACT_THRESHOLD && self.start >= self.buf.len() - self.start {
            let rest = self.buf.split_off(self.start);
            self.buf = rest;
            self.start = 0;
            proof {
                assert(self.pending() =~= old(self).pending());
            }
        }
    }
}

/// Prefix a payload with its 4-byte big-endian length, producing one framed message
/// ready to write to a socket. A length of 2^32 or more does not fit the prefix,
/// which then holds its low 32 bits.
pub fn frame(payload: &[u8]) -> (message: Vec<u8>)
    ensures
        message@ == framed(payload@),
{
    let len: u64 = payload.len() as u64 % 0x1_0000_0000;
    let mut out: Vec<u8> = Vec::new();
    out.push((len / 0x100_0000 % 0x100) as u8);
    out.push((len / 0x1_0000 % 0x100) as u8);
    out.push((len / 0x100 % 0x100) as u8);
    out.push((len % 0x100) as u8);
    append_bytes(&mut out, payload);
    proof {
        assert(out@ =~= framed(payload@));
    }
    out
}

/// Reading gives back what was framed, and leaves what follows it.
pub proof fn law_framed_payload_reads_back(payload: Seq<u8>, rest: Seq<u8>, max: nat)
    requires
        payload.len() <= max,
        payload.len() < 0x1_0000_0000,
    ensures
        next_step(framed(payload) + rest, max) == (Step::Complete { payload, rest }),
{
    let all = framed(payload) + rest;
    law_big_endian_reads_back(payload.len());
    assert(all.take(4) =~= big_endian_bytes(payload.len()));
    assert(all.subrange(4, 4 + payload.len() as int) =~= payload);
    assert(all.skip(4 + payload.len() as int) =~= rest);
}

/// A stream of framed messages reads back as those messages, in order, with nothing
/// left over.
pub proof fn law_stream_reads_back(payloads: Seq<Seq<u8>>, max: nat)
    requires
        forall|i: int|
            0 <= i < payloads.len() ==> (#[trigger] payloads[i]).len() <= max
                && payloads[i].len() < 0x1_0000_0000,
    ensures
        frames_in(framed_all(payloads), max) == payloads,
        rest_after_frames(framed_all(payloads), max) == Seq::<u8>::empty(),
    decreases payloads.len(),
{
    if payloads.len() > 0 {
        let tail = payloads.skip(1);
        assert forall|i: int| 0 <= i < tail.len() implies (#[trigger] tail[i]).len() <= max
            && tail[i].len() < 0x1_0000_0000 by {
            assert(tail[i] == payloads[i + 1]);
        }
        law_stream_reads_back(tail, max);
        law_framed_payload_reads_back(payloads[0], framed_all(tail), max);
        assert(seq![payloads[0]] + tail =~= payloads);
    } else {
        assert(payloads =~= Seq::<Seq<u8>>::empty());
    }
}

/// More bytes never change what the bytes already received decided.
pub proof fn law_more_bytes_keep_the_next_frame(pending: Seq<u8>, more: Seq<u8>, max: nat)
    ensures
        match next_step(pending, max) {
            Step::Incomplete => true,
            Step::Oversized { claimed } => next_step(pending + more, max) == (Step::Oversized {
                claimed,
            }),
            Step::Complete { payload, rest } => next_step(pending + more, max) == (Step::Complete {
                payload,
                rest: rest + more,
            }),
        },
{
    let all = pending + more;
    if pending.len() >= 4 {
        assert(all.take(4) =~= pending.take(4));
        let claimed = big_endian(pending.take(4));
        if claimed <= max && pending.len() >= 4 + claimed {
            assert(all.subrange(4, 4 + claimed as int) =~= pending.subrange(4, 4 + claimed as int));
            assert(all.skip(4 + claimed as int) =~= pending.skip(4 + claimed as int) + more);
        }
    }
}

/// How a stream is cut into chunks does not matter: reading all frames after the
/// first chunk and then after the second gives the frames of the whole stream.
pub proof fn law_chunk_boundaries_do_not_matter(first: Seq<u8>, second: Seq<u8>, max: nat)
    ensures
        frames_in(first + second, max) == frames_in(first, max) + frames_in(
            rest_after_frames(first, max) + second,
            max,
        ),
        rest_after_frames(first + second, max) == rest_after_frames(
            rest_after_frames(first, max) + second,
            max,
        ),
    decreases first.len(),
{
    match next_step(first, max) {
        Step::Complete { payload, rest } => {
            law_more_bytes_keep_the_next_frame(first, second, max);
            law_chunk_boundaries_do_not_matter(rest, second, max);
            assert(frames_in(first + second, max) == seq![payload] + frames_in(rest + second, max));
            assert(frames_in(first, max) == seq![payload] + frames_in(rest, max));
            assert(seq![payload] + (frames_in(rest, max) + frames_in(
                rest_after_frames(rest, max) + second,
                max,
            )) =~= (seq![payload] + frames_in(rest, max)) + frames_in(
                rest_after_frames(rest, max) + second,
                max,
            ));
        },
        _ => {
            assert(frames_in(first, max) =~= Seq::<Seq<u8>>::empty());
            assert(Seq::<Seq<u8>>::empty() + frames_in(first + second, max) =~= frames_in(
                first + second,
                max,
            ));
        },
    }
}

/// Where a stream is cut inside a frame, the frames before it are read, and what came
/// of the cut one is left over: a cut never looks like a frame boundary.
pub proof fn law_cut_frames_are_left_over(
    payloads: Seq<Seq<u8>>,
    last: Seq<u8>,
    cut: int,
    max: nat,
)
    requires
        forall|i: int|
            0 <= i < payloads.len() ==> (#[trigger] payloads[i]).len() <= max
                && payloads[i].len() < 0x1_0000_0000,
        last.len() <= max,
        last.len() < 0x1_0000_0000,
        0 <= cut < framed(last).len(),
    ensures
        frames_in(framed_all(payloads) + framed(last).take(cut), max) == payloads,
        rest_after_frames(framed_all(payloads) + framed(last).take(cut), max) == framed(last).take(
            cut,
        ),
{
    let part = framed(last).take(cut);
    law_stream_reads_back(payloads, max);
    law_chunk_boundaries_do_not_matter(framed_all(payloads), part, max);
    assert(Seq::<u8>::empty() + part =~= part);
    if cut >= 4 {
        law_big_endian_reads_back(last.len());
        assert(part.take(4) =~= big_endian_bytes(last.len()));
    }
    assert(next_step(part, max) is Incomplete);
    assert(payloads + Seq::<Seq<u8>>::empty() =~= payloads);
}

} // verus!
