//! The decoder's input queue and the checks around it. The wire's samples are
//! converted to Annex B elsewhere; the transform that decodes them belongs to the
//! caller.

use vstd::prelude::*;
use std::collections::VecDeque;

use crate::hevc::HevcConfig;
use crate::text::decimal;
use crate::text::owned;
use crate::text::unsigned_to_text;
use crate::win::pixels::nv12_pixel;
use crate::win::pixels::nv12_to_bgra_pixel;
use crate::win::pixels::push_pixel;

verus! {

/// Three access units is enough to absorb a short decoder hiccup without turning the
/// queue into visible latency. On overflow the dependency chain is discarded and the
/// host is asked for a fresh keyframe.
pub const MAX_PENDING_FRAMES: usize = 3;

pub const MAX_PENDING_BYTES: usize = 16 * 1024 * 1024;

/// A decoded frame, in the format that the decoder produces.
#[derive(Debug)]
pub struct DecodedFrame {
    pub nv12: Vec<u8>,
    pub stride: usize,
}

/// One compressed access unit.
#[derive(Debug)]
pub struct EncodedFrame {
    pub data: Vec<u8>,
    pub keyframe: bool,
    pub pts_micros: u64,
    /// Decoding starts afresh with this frame.
    pub reset: bool,
}

/// The access units that wait for the decoder.
pub struct PendingInput {
    frames: VecDeque<EncodedFrame>,
    bytes: usize,
    awaiting_keyframe: bool,
    stopped: bool,
}

/// What an [`EncodedFrame`] holds.
pub struct FrameNote {
    pub data: Seq<u8>,
    pub keyframe: bool,
    pub pts_micros: u64,
    pub reset: bool,
}

/// What a [`PendingInput`] holds.
pub struct QueueNote {
    pub frames: Seq<FrameNote>,
    pub awaiting_keyframe: bool,
    pub stopped: bool,
}

impl EncodedFrame {
    pub open spec fn view(&self) -> FrameNote {
        FrameNote {
            data: self.data@,
            keyframe: self.keyframe,
            pts_micros: self.pts_micros,
            reset: self.reset,
        }
    }
}

pub open spec fn frame_notes(frames: Seq<EncodedFrame>) -> Seq<FrameNote> {
    Seq::new(frames.len(), |i: int| frames[i]@)
}

/// The bytes of several access units.
pub open spec fn bytes_of(frames: Seq<FrameNote>) -> nat
    decreases frames.len(),
{
    if frames.len() == 0 {
        0
    } else {
        bytes_of(frames.drop_last()) + frames.last().data.len()
    }
}

impl QueueNote {
    /// Whether one more frame would be too much.
    pub open spec fn overflows(self, frame: FrameNote) -> bool {
        self.frames.len() >= MAX_PENDING_FRAMES || bytes_of(self.frames) + frame.data.len()
            > MAX_PENDING_BYTES
    }

    /// The queue once a frame came in.
    pub open spec fn pushed(self, frame: FrameNote) -> QueueNote {
        if self.stopped {
            self
        } else {
            let kept = if self.overflows(frame) {
                QueueNote { frames: Seq::empty(), awaiting_keyframe: true, ..self }
            } else {
                self
            };
            if frame.data.len() > MAX_PENDING_BYTES {
                QueueNote { awaiting_keyframe: true, ..kept }
            } else if kept.awaiting_keyframe {
                if frame.keyframe {
                    QueueNote {
                        frames: kept.frames.push(FrameNote { reset: true, ..frame }),
                        awaiting_keyframe: false,
                        ..kept
                    }
                } else {
                    kept
                }
            } else {
                QueueNote { frames: kept.frames.push(frame), ..kept }
            }
        }
    }

    /// The bounds on the queue. While a keyframe is awaited nothing waits.
    pub open spec fn sound(self) -> bool {
        &&& self.frames.len() <= MAX_PENDING_FRAMES
        &&& bytes_of(self.frames) <= MAX_PENDING_BYTES
        &&& self.awaiting_keyframe ==> self.frames.len() == 0
    }
}

proof fn lemma_bytes_push(frames: Seq<FrameNote>, frame: FrameNote)
    ensures
        bytes_of(frames.push(frame)) == bytes_of(frames) + frame.data.len(),
{
    assert(frames.push(frame).drop_last() =~= frames);
}

proof fn lemma_bytes_pop(frames: Seq<FrameNote>)
    requires
        frames.len() > 0,
    ensures
        bytes_of(frames) == frames[0].data.len() + bytes_of(frames.skip(1)),
    decreases frames.len(),
{
    if frames.len() == 1 {
        assert(frames.drop_last() =~= Seq::<FrameNote>::empty());
        assert(frames.skip(1) =~= Seq::<FrameNote>::empty());
        assert(bytes_of(frames.drop_last()) == 0);
    } else {
        lemma_bytes_pop(frames.drop_last());
        assert(frames.drop_last().skip(1) =~= frames.skip(1).drop_last());
    }
}

/// Whatever comes in, the queue stays within its bounds.
pub proof fn law_queue_stays_bounded(q: QueueNote, frame: FrameNote)
    requires
        q.sound(),
    ensures
        q.pushed(frame).sound(),
{
    lemma_bytes_push(q.frames, frame);
    lemma_bytes_push(q.frames, FrameNote { reset: true, ..frame });
    lemma_bytes_push(Seq::<FrameNote>::empty(), FrameNote { reset: true, ..frame });
    assert(bytes_of(Seq::<FrameNote>::empty()) == 0);
}

/// After an overflow, and at the start, decoding resumes at a keyframe and nowhere
/// else: the first frame to wait again is a keyframe that is marked as a new start.
pub proof fn law_recovery_starts_at_a_keyframe(q: QueueNote, frame: FrameNote)
    requires
        q.sound(),
        q.awaiting_keyframe,
        q.pushed(frame).frames.len() > 0,
    ensures
        q.pushed(frame).frames.len() == 1,
        q.pushed(frame).frames[0].keyframe,
        q.pushed(frame).frames[0].reset,
        q.pushed(frame).frames[0].data == frame.data,
{
}

/// Without an overflow, what waits keeps its order, and the new frame comes last.
pub proof fn law_queue_keeps_order(q: QueueNote, frame: FrameNote)
    requires
        q.sound(),
        !q.stopped,
        !q.awaiting_keyframe,
        !q.overflows(frame),
    ensures
        q.pushed(frame).frames == q.frames.push(frame),
{
}

impl Default for PendingInput {
    fn default() -> (queue: Self)
        ensures
            queue.wf(),
            queue@ == (QueueNote {
                frames: Seq::empty(),
                awaiting_keyframe: false,
                stopped: false,
            }),
    {
        let queue = PendingInput {
            frames: VecDeque::new(),
            bytes: 0,
            awaiting_keyframe: false,
            stopped: false,
        };
        proof {
            assert(queue@.frames =~= Seq::<FrameNote>::empty());
        }
        queue
    }
}

impl PendingInput {
    pub closed spec fn view(&self) -> QueueNote {
        QueueNote {
            frames: frame_notes(self.frames@),
            awaiting_keyframe: self.awaiting_keyframe,
            stopped: self.stopped,
        }
    }

    pub closed spec fn wf(&self) -> bool {
        self@.sound() && self.bytes == bytes_of(self@.frames)
    }

    /// The bounds hold of every queue.
    pub proof fn law_every_queue_is_bounded(&self)
        requires
            self.wf(),
        ensures
            self@.sound(),
    {
    }

    /// An empty queue that waits for its first keyframe.
    pub fn awaiting() -> (queue: Self)
        ensures
            queue.wf(),
            queue@ == (QueueNote {
                frames: Seq::empty(),
                awaiting_keyframe: true,
                stopped: false,
            }),
    {
        let queue = PendingInput {
            frames: VecDeque::new(),
            bytes: 0,
            awaiting_keyframe: true,
            stopped: false,
        };
        proof {
            assert(queue@.frames =~= Seq::<FrameNote>::empty());
        }
        queue
    }

    /// Queue one compressed access unit. Returns true when the dependency chain was
    /// discarded and the caller should request a new keyframe.
    pub fn push(&mut self, frame: EncodedFrame) -> (request_keyframe: bool)
        requires
            old(self).wf(),
        ensures
            final(self).wf(),
            final(self)@ == old(self)@.pushed(frame@),
            request_keyframe == (!old(self)@.stopped && old(self)@.overflows(frame@)),
    {
        let ghost before = self@;
        let ghost note = frame@;
        proof {
            law_queue_stays_bounded(before, note);
        }
        if self.stopped {
            return false;
        }
        let mut frame = frame;
        let mut request_keyframe = false;
        if self.frames.len() >= MAX_PENDING_FRAMES || frame.data.len() > MAX_PENDING_BYTES
            - self.bytes {
            self.frames.clear();
            self.bytes = 0;
            self.awaiting_keyframe = true;
            request_keyframe = true;
            proof {
                assert(self@.frames =~= Seq::<FrameNote>::empty());
            }
        }
        if frame.data.len() > MAX_PENDING_BYTES {
            self.awaiting_keyframe = true;
            return request_keyframe;
        }
        if self.awaiting_keyframe {
            if !frame.keyframe {
                return request_keyframe;
            }
            frame.reset = true;
            self.awaiting_keyframe = false;
        }
        let ghost kept = self@.frames;
        let ghost last = frame@;
        self.bytes = self.bytes + frame.data.len();
        self.frames.push_back(frame);
        proof {
            assert(self@.frames =~= kept.push(last));
            lemma_bytes_push(kept, last);
        }
        request_keyframe
    }

    /// The frame that has waited longest.
    pub fn pop(&mut self) -> (frame: Option<EncodedFrame>)
        requires
            old(self).wf(),
        ensures
            final(self).wf(),
            match frame {
                Some(frame) => {
                    &&& old(self)@.frames.len() > 0
                    &&& frame@ == old(self)@.frames[0]
                    &&& final(self)@ == (QueueNote {
                        frames: old(self)@.frames.skip(1),
                        ..old(self)@
                    })
                },
                None => old(self)@.frames.len() == 0 && final(self)@ == old(self)@,
            },
    {
        let ghost before = self@.frames;
        match self.frames.pop_front() {
            Some(frame) => {
                proof {
                    lemma_bytes_pop(before);
                    assert(self@.frames =~= before.skip(1));
                    assert(frame@ == before[0]);
                }
                self.bytes = self.bytes - frame.data.len();
                Some(frame)
            },
            None => {
                proof {
                    assert(self@.frames =~= before);
                }
                None
            },
        }
    }

    pub fn is_empty(&self) -> (empty: bool)
        ensures
            empty == (self@.frames.len() == 0),
    {
        self.frames.len() == 0
    }

    pub fn is_stopped(&self) -> (stopped: bool)
        ensures
            stopped == self@.stopped,
    {
        self.stopped
    }

    /// Take nothing in any more, and drop what waits.
    pub fn stop(&mut self)
        requires
            old(self).wf(),
        ensures
            final(self).wf(),
            final(self)@ == (QueueNote {
                frames: Seq::empty(),
                stopped: true,
                ..old(self)@
            }),
    {
        self.stopped = true;
        self.frames.clear();
        self.bytes = 0;
        proof {
            assert(self@.frames =~= Seq::<FrameNote>::empty());
        }
    }
}

// ---------------------------------------------------------------------------
// The worker
// ---------------------------------------------------------------------------

/// What the worker does with the next frame.
#[derive(Debug, Clone, Copy, PartialEq, Eq, Structural)]
pub enum WorkerStep {
    /// The frame depends on one that was lost.
    Skip,
    /// Decode it, after the decoder has been flushed where that is needed.
    Decode { flush: bool },
}

/// The worker's memory from one frame to the next.
pub struct WorkerState {
    recover: bool,
    decoded: u64,
}

impl WorkerState {
    /// Whether a decode failed and no keyframe has come since.
    pub closed spec fn recovering(self) -> bool {
        self.recover
    }

    /// How many frames have been decoded.
    pub closed spec fn decoded(self) -> nat {
        self.decoded as nat
    }

    pub fn new() -> (worker: Self)
        ensures
            !worker.recovering(),
            worker.decoded() == 0,
    {
        WorkerState { recover: false, decoded: 0 }
    }

    /// What to do with the next frame.
    pub fn next(&mut self, frame: &EncodedFrame) -> (step: WorkerStep)
        ensures
            step == if old(self).recovering() && !frame.keyframe {
                WorkerStep::Skip
            } else {
                WorkerStep::Decode { flush: frame.reset || old(self).recovering() }
            },
            final(self).recovering() == (old(self).recovering() && !frame.keyframe),
            final(self).decoded() == old(self).decoded(),
    {
        if self.recover && !frame.keyframe {
            return WorkerStep::Skip;
        }
        let flush = frame.reset || self.recover;
        self.recover = false;
        WorkerStep::Decode { flush }
    }

    /// A picture came out: whether it is the first.
    pub fn succeeded(&mut self) -> (first: bool)
        ensures
            final(self).recovering() == old(self).recovering(),
            final(self).decoded() == if old(self).decoded() < u64::MAX {
                old(self).decoded() + 1
            } else {
                old(self).decoded()
            },
            first == (old(self).decoded() == 0),
    {
        let first = self.decoded == 0;
        if self.decoded < u64::MAX {
            self.decoded = self.decoded + 1;
        }
        first
    }

    /// A decode failed: only a keyframe helps now, and the host is to be asked for
    /// one.
    pub fn failed(&mut self)
        ensures
            final(self).recovering(),
            final(self).decoded() == old(self).decoded(),
    {
        self.recover = true;
    }
}

// ---------------------------------------------------------------------------
// Checks
// ---------------------------------------------------------------------------

/// What is wrong with the picture format of a stream, if anything.
pub open spec fn format_fault(chroma: u8, bit_depth: u8) -> Option<Seq<char>> {
    if chroma != 1 || bit_depth != 8 {
        Some(
            "Host sent HEVC chroma "@ + decimal(chroma as nat) + " / "@ + decimal(bit_depth as nat)
                + "-bit. Select 4:2:0 8-bit in Mac Video settings and restart sharing."@,
        )
    } else {
        None
    }
}

/// Whether the decoder can take a stream: 4:2:0 with 8 bits.
pub fn check_format(config: &HevcConfig) -> (result: Result<(), String>)
    ensures
        match result {
            Ok(()) => format_fault(config.chroma, config.bit_depth) is None,
            Err(e) => format_fault(config.chroma, config.bit_depth) == Some(e@),
        },
{
    if config.chroma != 1 || config.bit_depth != 8 {
        return Err(
            String::from_str("Host sent HEVC chroma ").concat(
                unsigned_to_text(config.chroma as u64).as_str(),
            ).concat(" / ").concat(unsigned_to_text(config.bit_depth as u64).as_str()).concat(
                "-bit. Select 4:2:0 8-bit in Mac Video settings and restart sharing.",
            ),
        );
    }
    Ok(())
}

/// A frame size in one number: the width in the high half.
pub fn pack_size(width: u32, height: u32) -> (packed: u64)
    ensures
        packed == width * 0x1_0000_0000 + height,
{
    width as u64 * 0x1_0000_0000 + height as u64
}

/// A sample's time in steps of 100 ns, as large as it can be held.
pub fn sample_time(pts_micros: u64) -> (time: i64)
    ensures
        time == if pts_micros * 10 > i64::MAX {
            i64::MAX as int
        } else {
            pts_micros * 10
        },
{
    if pts_micros > 922_337_203_685_477_580 {
        i64::MAX
    } else {
        (pts_micros * 10) as i64
    }
}

/// The bytes that an NV12 frame takes: the luma plane and the chroma plane.
pub open spec fn nv12_len(height: int, stride: int) -> int {
    stride * height + stride * (height / 2)
}

/// What is wrong with an NV12 frame, if anything.
pub open spec fn nv12_fault(len: int, width: int, height: int, stride: int) -> Option<Seq<char>> {
    if nv12_len(height, stride) > usize::MAX {
        Some("Invalid NV12 output dimensions"@)
    } else if width == 0 || height == 0 || width % 2 != 0 || height % 2 != 0 || stride < width {
        Some("Invalid NV12 output dimensions or stride"@)
    } else if len < nv12_len(height, stride) {
        Some("Invalid NV12 output buffer size"@)
    } else {
        None
    }
}

proof fn lemma_nv12_len(height: int, stride: int)
    requires
        0 <= height,
        0 <= stride,
    ensures
        0 <= stride * height,
        0 <= stride * (height / 2),
{
    assert(0 <= stride * height) by (nonlinear_arith)
        requires
            0 <= height,
            0 <= stride,
    ;
    assert(0 <= stride * (height / 2)) by (nonlinear_arith)
        requires
            0 <= height / 2,
            0 <= stride,
    ;
}

/// The bytes that an NV12 frame takes, if they can be counted.
fn nv12_needed(height: u32, stride: usize) -> (needed: Option<usize>)
    ensures
        match needed {
            Some(n) => n == nv12_len(height as int, stride as int),
            None => nv12_len(height as int, stride as int) > usize::MAX,
        },
{
    proof {
        lemma_nv12_len(height as int, stride as int);
        assert(height as int / 2 == height / 2);
    }
    let luma: usize = stride.checked_mul(height as usize)?;
    let chroma: usize = stride.checked_mul((height / 2) as usize)?;
    luma.checked_add(chroma)
}

/// Take a decoded frame over, once its size has been checked.
pub fn validate_nv12(nv12: Vec<u8>, width: u32, height: u32, stride: usize) -> (result: Result<
    DecodedFrame,
    String,
>)
    ensures
        match result {
            Ok(frame) => {
                &&& nv12_fault(nv12@.len() as int, width as int, height as int, stride as int)
                    is None
                &&& frame.nv12@ == nv12@
                &&& frame.stride == stride
            },
            Err(e) => nv12_fault(nv12@.len() as int, width as int, height as int, stride as int)
                == Some(e@),
        },
{
    let needed: usize = match nv12_needed(height, stride) {
        Some(needed) => needed,
        None => {
            return Err(owned("Invalid NV12 output dimensions"));
        },
    };
    if width == 0 || height == 0 || width % 2 != 0 || height % 2 != 0 || stride < width as usize {
        return Err(owned("Invalid NV12 output dimensions or stride"));
    }
    if nv12.len() < needed {
        return Err(owned("Invalid NV12 output buffer size"));
    }
    Ok(DecodedFrame { nv12, stride })
}

/// The BGRA bytes of the first `count` pixels of a frame, row by row.
pub open spec fn frame_pixels(
    nv12: Seq<u8>,
    width: int,
    height: int,
    stride: int,
    count: int,
) -> Seq<u8>
    decreases count,
{
    if count <= 0 {
        Seq::empty()
    } else {
        frame_pixels(nv12, width, height, stride, count - 1) + nv12_pixel(
            nv12,
            stride,
            height,
            (count - 1) % width,
            (count - 1) / width,
        )
    }
}

/// BT.709 limited-range NV12 as BGRA, respecting padded rows without resizing.
pub fn nv12_to_bgra(nv12: &[u8], width: u32, height: u32, stride: usize) -> (pixels: Option<
    Vec<u8>,
>)
    ensures
        match pixels {
            Some(pixels) => {
                &&& nv12_fault(nv12@.len() as int, width as int, height as int, stride as int)
                    is None
                &&& pixels@ == frame_pixels(
                    nv12@,
                    width as int,
                    height as int,
                    stride as int,
                    width * height,
                )
            },
            None => nv12_fault(nv12@.len() as int, width as int, height as int, stride as int)
                is Some || width * height * 4 > usize::MAX,
        },
{
    if width == 0 || height == 0 || width % 2 != 0 || height % 2 != 0 || stride < width as usize {
        return None;
    }
    let needed: usize = nv12_needed(height, stride)?;
    if nv12.len() < needed {
        return None;
    }
    let ghost area = width * height;
    proof {
        lemma_nv12_len(height as int, stride as int);
        assert(width * height <= stride * height) by (nonlinear_arith)
            requires
                width <= stride,
                height >= 0,
        ;
        assert(0 <= width * height) by (nonlinear_arith);
    }
    let count: usize = width as usize * height as usize;
    if count > usize::MAX / 4 {
        return None;
    }
    let mut out: Vec<u8> = Vec::new();
    let mut i: usize = 0;
    while i < count
        invariant
            i <= count,
            count == width * height,
            width > 0,
            width % 2 == 0,
            height % 2 == 0,
            stride >= width,
            nv12_len(height as int, stride as int) <= nv12@.len(),
            out@ == frame_pixels(
                nv12@,
                width as int,
                height as int,
                stride as int,
                i as int,
            ),
        decreases count - i,
    {
        let x: u32 = (i % width as usize) as u32;
        proof {
            lemma_row(i as int, width as int, height as int);
            assert(height as int / 2 == height / 2);
        }
        let y: u32 = (i / width as usize) as u32;
        let pixel = nv12_to_bgra_pixel(nv12, stride, height, x, y);
        push_pixel(&mut out, pixel);
        i += 1;
    }
    Some(out)
}

/// The row of the `i`-th pixel lies within the frame.
pub proof fn lemma_row(i: int, width: int, height: int)
    requires
        0 <= i < width * height,
        width > 0,
    ensures
        0 <= i / width < height,
        0 <= i % width < width,
{
    assert(0 <= i / width < height && 0 <= i % width < width) by (nonlinear_arith)
        requires
            0 <= i < width * height,
            width > 0,
    ;
}

} // verus!
