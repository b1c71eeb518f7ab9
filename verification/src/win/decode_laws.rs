//! What the frames that wait for the decoder promise, and which streams it takes.

use vstd::prelude::*;

use crate::win::decode::bytes_of;
use crate::win::decode::format_fault;
use crate::win::decode::nv12_fault;
use crate::win::decode::FrameNote;
use crate::win::decode::QueueNote;

verus! {

/// Whether a frame finds room: fewer than three wait, and with it at most sixteen
/// mebibytes do.
pub open spec fn has_room(q: QueueNote, frame: FrameNote) -> bool {
    q.frames.len() < 3 && bytes_of(q.frames) + frame.data.len() <= 16_777_216
}

/// The bytes that wait are those of all frames.
pub proof fn law_bytes_add_up(frames: Seq<FrameNote>, more: Seq<FrameNote>, frame: FrameNote)
    ensures
        bytes_of(seq![frame]) == frame.data.len(),
        bytes_of(frames + more) == bytes_of(frames) + bytes_of(more),
    decreases more.len(),
{
    assert(seq![frame].drop_last() =~= Seq::<FrameNote>::empty());
    assert(bytes_of(Seq::<FrameNote>::empty()) == 0);
    if more.len() == 0 {
        assert(frames + more =~= frames);
    } else {
        law_bytes_add_up(frames, more.drop_last(), frame);
        assert((frames + more).drop_last() =~= frames + more.drop_last());
    }
}

/// A frame that finds room waits behind the others as it came.
pub proof fn law_frames_wait_as_they_came(q: QueueNote, frame: FrameNote)
    requires
        !q.stopped,
        !q.awaiting_keyframe,
        has_room(q, frame),
    ensures
        q.pushed(frame) == (QueueNote { frames: q.frames + seq![frame], ..q }),
{
    assert(q.frames.push(frame) =~= q.frames + seq![frame]);
}

/// Until a keyframe comes nothing waits. The keyframe then waits alone, marked as a new
/// start, with its data and its time.
pub proof fn law_only_keyframes_start_again(q: QueueNote, frame: FrameNote)
    requires
        q.sound(),
        !q.stopped,
        q.awaiting_keyframe,
    ensures
        frame.keyframe && frame.data.len() <= 16_777_216 ==> {
            let after = q.pushed(frame);
            &&& !after.awaiting_keyframe
            &&& after.frames == seq![FrameNote { reset: true, ..frame }]
        },
        !frame.keyframe || frame.data.len() > 16_777_216 ==> q.pushed(frame) == q,
{
    assert(q.frames =~= Seq::<FrameNote>::empty());
    assert(bytes_of(q.frames) == 0);
    assert(q.frames.push(FrameNote { reset: true, ..frame }) =~= seq![
        FrameNote { reset: true, ..frame },
    ]);
}

/// A frame that finds no room drops all that wait. A keyframe starts again at once;
/// after any other frame a keyframe is awaited.
pub proof fn law_full_queues_are_dropped(q: QueueNote, frame: FrameNote)
    requires
        q.sound(),
        !q.stopped,
        !has_room(q, frame),
    ensures
        ({
            let after = q.pushed(frame);
            if frame.keyframe && frame.data.len() <= 16_777_216 {
                !after.awaiting_keyframe && after.frames == seq![FrameNote { reset: true, ..frame }]
            } else {
                after.awaiting_keyframe && after.frames.len() == 0
            }
        }),
{
    let none = Seq::<FrameNote>::empty();
    assert(none.push(FrameNote { reset: true, ..frame }) =~= seq![
        FrameNote { reset: true, ..frame },
    ]);
}

/// A queue that was stopped takes nothing more.
pub proof fn law_stopped_queues_take_nothing(q: QueueNote, frame: FrameNote)
    requires
        q.stopped,
    ensures
        q.pushed(frame) == q,
{
}

/// The decoder takes 4:2:0 with eight bits, and nothing else.
pub proof fn law_formats_that_decode(chroma: u8, bit_depth: u8)
    ensures
        format_fault(chroma, bit_depth) is None <==> chroma == 1 && bit_depth == 8,
{
}

/// A frame is sound if it has an even size, rows at least as long as it is wide, and as
/// many bytes as one and a half times its rows need.
pub proof fn law_sound_frames(len: int, width: int, height: int, stride: int)
    requires
        0 < width,
        0 < height,
        0 < stride,
        stride * height + stride * (height / 2) <= usize::MAX,
    ensures
        nv12_fault(len, width, height, stride) is None <==> width % 2 == 0 && height % 2 == 0
            && stride >= width && 2 * len >= 3 * (stride * height),
{
    if height % 2 == 0 {
        assert(2 * (stride * (height / 2)) == stride * height) by (nonlinear_arith)
            requires
                height % 2 == 0,
        ;
    }
}

} // verus!
