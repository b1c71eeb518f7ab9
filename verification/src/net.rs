//! Framed messages over a byte stream. The stream itself belongs to the caller: it
//! reads chunks and hands them in, and writes out what is handed to it.

use vstd::prelude::*;

use crate::bytes::append_bytes;
use crate::bytes::lemma_big_endian_unfold;
use crate::text::decimal;
use crate::text::unsigned_to_text;
use crate::wire::control::ClientMessage;
use crate::wire::frame::frame;
use crate::wire::frame::framed;
use crate::wire::frame::framed_all;
use crate::wire::frame::law_framed_payload_reads_back;
use crate::wire::frame::law_more_bytes_keep_the_next_frame;
use crate::wire::frame::next_step;
use crate::wire::frame::FrameError;
use crate::wire::frame::FrameReader;
use crate::wire::frame::Step;
use crate::wire::frame::DEFAULT_MAX_FRAME_LEN;
use crate::wire::frame_laws::fit;
use crate::wire::frame_laws::lemma_cut_is_incomplete;
use crate::wire::frame_laws::lemma_fit_tail;

verus! {

/// How many bytes a caller should read from its stream at a time.
pub const READ_CHUNK_LEN: usize = 64 * 1024;

/// The stream ended inside a frame: the peer died in the middle of a message.
#[derive(Debug, Clone, Copy, PartialEq, Eq, Structural)]
pub struct EndError {
    /// How many bytes of the frame had come.
    pub left: usize,
}

/// Why there is no next frame.
#[derive(Debug, Clone, Copy, PartialEq, Eq, Structural)]
pub enum RecvError {
    Frame(FrameError),
    UnexpectedEnd(EndError),
}

impl EndError {
    /// The error in words.
    pub fn describe(&self) -> (text: String)
        ensures
            text@ == "the stream ended inside a frame, after "@ + decimal(self.left as nat)
                + " bytes of it"@,
    {
        String::from_str("the stream ended inside a frame, after ").concat(
            unsigned_to_text(self.left as u64).as_str(),
        ).concat(" bytes of it")
    }
}

/// What [`FramedReceiver::recv`] says.
pub enum ReceiveNote {
    Payload(Seq<u8>),
    /// Nothing yet, or nothing more.
    Nothing,
    TooLarge { claimed: nat },
    /// The stream ended inside a frame, after `left` bytes of it.
    Cut { left: nat },
}

/// What a receiver says about its pending bytes, and which of them it keeps.
pub open spec fn received(pending: Seq<u8>, ended: bool) -> (ReceiveNote, Seq<u8>) {
    match next_step(pending, DEFAULT_MAX_FRAME_LEN as nat) {
        Step::Complete { payload, rest } => (ReceiveNote::Payload(payload), rest),
        Step::Oversized { claimed } => (ReceiveNote::TooLarge { claimed }, pending),
        Step::Incomplete => if ended && pending.len() > 0 {
            (ReceiveNote::Cut { left: pending.len() }, pending)
        } else {
            (ReceiveNote::Nothing, pending)
        },
    }
}

pub open spec fn receive_note(result: Result<Option<Vec<u8>>, RecvError>) -> ReceiveNote {
    match result {
        Ok(Some(payload)) => ReceiveNote::Payload(payload@),
        Ok(None) => ReceiveNote::Nothing,
        Err(RecvError::Frame(FrameError::TooLarge { claimed, max })) => ReceiveNote::TooLarge {
            claimed: claimed as nat,
        },
        Err(RecvError::UnexpectedEnd(e)) => ReceiveNote::Cut { left: e.left as nat },
    }
}

/// Takes length-prefixed frames off a stream of chunks. Callers loop on `recv`, and
/// read a chunk whenever it has nothing more.
pub struct FramedReceiver {
    frames: FrameReader,
    ended: bool,
}

impl FramedReceiver {
    pub closed spec fn wf(self) -> bool {
        self.frames.wf() && self.frames.max_len() == DEFAULT_MAX_FRAME_LEN
    }

    /// The bytes received and not yet handed out.
    pub closed spec fn pending(self) -> Seq<u8> {
        self.frames.pending()
    }

    /// Whether the last read met the end of the stream.
    pub closed spec fn ended(self) -> bool {
        self.ended
    }

    pub fn new() -> (receiver: Self)
        ensures
            receiver.wf(),
            receiver.pending() == Seq::<u8>::empty(),
            !receiver.ended(),
    {
        FramedReceiver { frames: FrameReader::default(), ended: false }
    }

    /// The next whole frame's payload that is already buffered. `None` means that more
    /// bytes have to be read from the stream first, or that the stream has ended on a
    /// frame boundary; an end inside a frame is an error.
    pub fn recv(&mut self) -> (result: Result<Option<Vec<u8>>, RecvError>)
        requires
            old(self).wf(),
        ensures
            final(self).wf(),
            final(self).ended() == old(self).ended(),
            (receive_note(result), final(self).pending()) == received(
                old(self).pending(),
                old(self).ended(),
            ),
            match next_step(old(self).pending(), DEFAULT_MAX_FRAME_LEN as nat) {
                Step::Incomplete => {
                    &&& final(self).pending() == old(self).pending()
                    &&& result == if old(self).ended() && old(self).pending().len() > 0 {
                        Err::<Option<Vec<u8>>, RecvError>(
                            RecvError::UnexpectedEnd(
                                EndError { left: old(self).pending().len() as usize },
                            ),
                        )
                    } else {
                        Ok::<Option<Vec<u8>>, RecvError>(None)
                    }
                },
                Step::Oversized { claimed } => {
                    &&& result == Err::<Option<Vec<u8>>, RecvError>(
                        RecvError::Frame(
                            FrameError::TooLarge {
                                claimed: claimed as usize,
                                max: DEFAULT_MAX_FRAME_LEN,
                            },
                        ),
                    )
                    &&& final(self).pending() == old(self).pending()
                },
                Step::Complete { payload, rest } => {
                    &&& result matches Ok(Some(bytes)) && bytes@ == payload
                    &&& final(self).pending() == rest
                },
            },
    {
        proof {
            if self.pending().len() >= 4 {
                lemma_big_endian_unfold(self.pending().take(4));
            }
        }
        match self.frames.next_frame() {
            Ok(Some(payload)) => Ok(Some(payload)),
            Ok(None) => {
                if self.ended {
                    match self.finish() {
                        Ok(()) => Ok(None),
                        Err(e) => Err(RecvError::UnexpectedEnd(e)),
                    }
                } else {
                    Ok(None)
                }
            },
            Err(e) => Err(RecvError::Frame(e)),
        }
    }

    /// Take in what one read of the stream gave. An empty chunk is the end of the
    /// stream, reported by `false`.
    pub fn read(&mut self, chunk: &[u8]) -> (open: bool)
        requires
            old(self).wf(),
        ensures
            final(self).wf(),
            open == (chunk@.len() > 0),
            final(self).ended() == !open,
            final(self).pending() == old(self).pending() + chunk@,
    {
        self.frames.push(chunk);
        self.ended = chunk.len() == 0;
        chunk.len() > 0
    }

    /// Whether the stream may end here, once `recv` has nothing more: on a frame
    /// boundary.
    pub fn finish(&self) -> (result: Result<(), EndError>)
        requires
            self.wf(),
        ensures
            result is Ok <==> self.pending().len() == 0,
            result matches Err(e) ==> e.left == self.pending().len(),
    {
        let left: usize = self.frames.pending_len();
        if left == 0 {
            Ok(())
        } else {
            Err(EndError { left })
        }
    }
}

/// Frame one message to the host and put it at the end of `out`, which the caller
/// writes to the stream and flushes.
pub fn send_message(out: &mut Vec<u8>, msg: &ClientMessage)
    ensures
        final(out)@ == old(out)@ + framed(msg.payload()),
{
    let payload = msg.encode();
    let message = frame(payload.as_slice());
    append_bytes(out, message.as_slice());
}

// ---------------------------------------------------------------------------
// Runs of calls
// ---------------------------------------------------------------------------

/// What a caller gets that asks for the next frame, and reads on for as long as there is
/// nothing: from the pieces that its stream still hands out, and then from the end of
/// the stream. With it, the bytes and the pieces that are left.
pub open spec fn awaited(pending: Seq<u8>, pieces: Seq<Seq<u8>>) -> (
    ReceiveNote,
    Seq<u8>,
    Seq<Seq<u8>>,
)
    decreases pieces.len(),
{
    let (note, rest) = received(pending, false);
    if !(note is Nothing) {
        (note, rest, pieces)
    } else if pieces.len() > 0 {
        awaited(pending + pieces[0], pieces.skip(1))
    } else {
        let (last, left) = received(pending, true);
        (last, left, pieces)
    }
}

/// What a caller gets with each of `count` such calls.
pub open spec fn awaited_all(pending: Seq<u8>, pieces: Seq<Seq<u8>>, count: nat) -> Seq<ReceiveNote>
    decreases count,
{
    if count == 0 {
        Seq::empty()
    } else {
        let (note, rest, left) = awaited(pending, pieces);
        seq![note] + awaited_all(rest, left, (count - 1) as nat)
    }
}

/// The bytes of a stream whose pieces come one after the other.
pub open spec fn piece_bytes(pieces: Seq<Seq<u8>>) -> Seq<u8>
    decreases pieces.len(),
{
    if pieces.len() == 0 {
        Seq::empty()
    } else {
        pieces[0] + piece_bytes(pieces.skip(1))
    }
}

/// A read hands out at least one byte, or the stream has ended.
pub open spec fn none_empty(pieces: Seq<Seq<u8>>) -> bool {
    forall|i: int| 0 <= i < pieces.len() ==> (#[trigger] pieces[i]).len() > 0
}

proof fn lemma_none_empty_behind(pieces: Seq<Seq<u8>>)
    requires
        none_empty(pieces),
        pieces.len() > 0,
    ensures
        none_empty(pieces.skip(1)),
{
    assert forall|i: int| 0 <= i < pieces.skip(1).len() implies (#[trigger] pieces.skip(1)[i]).len()
        > 0 by {
        assert(pieces.skip(1)[i] == pieces[i + 1]);
    }
}

/// The next payload of a stream is awaited, however its bytes are cut into pieces.
proof fn lemma_awaits_the_next(
    pending: Seq<u8>,
    pieces: Seq<Seq<u8>>,
    payload: Seq<u8>,
    behind: Seq<u8>,
)
    requires
        payload.len() <= DEFAULT_MAX_FRAME_LEN,
        none_empty(pieces),
        pending + piece_bytes(pieces) == framed(payload) + behind,
    ensures
        ({
            let (note, rest, left) = awaited(pending, pieces);
            &&& note == ReceiveNote::Payload(payload)
            &&& none_empty(left)
            &&& rest + piece_bytes(left) == behind
        }),
    decreases pieces.len(),
{
    let max = DEFAULT_MAX_FRAME_LEN as nat;
    law_framed_payload_reads_back(payload, behind, max);
    law_more_bytes_keep_the_next_frame(pending, piece_bytes(pieces), max);
    if next_step(pending, max) is Incomplete {
        if pieces.len() == 0 {
            assert(pending + piece_bytes(pieces) =~= pending);
        } else {
            assert((pending + pieces[0]) + piece_bytes(pieces.skip(1)) =~= pending + piece_bytes(
                pieces,
            ));
            lemma_none_empty_behind(pieces);
            lemma_awaits_the_next(pending + pieces[0], pieces.skip(1), payload, behind);
        }
    }
}

/// At the end, what is left of a frame is told.
proof fn lemma_awaits_the_end(
    pending: Seq<u8>,
    pieces: Seq<Seq<u8>>,
    last: Seq<u8>,
    cut: int,
)
    requires
        last.len() <= DEFAULT_MAX_FRAME_LEN,
        0 <= cut < framed(last).len(),
        pending + piece_bytes(pieces) == framed(last).take(cut),
    ensures
        awaited(pending, pieces).0 == if cut == 0 {
            ReceiveNote::Nothing
        } else {
            ReceiveNote::Cut { left: cut as nat }
        },
    decreases pieces.len(),
{
    let max = DEFAULT_MAX_FRAME_LEN as nat;
    let n = pending.len() as int;
    assert((pending + piece_bytes(pieces)).len() == cut);
    assert(pending =~= (pending + piece_bytes(pieces)).take(n));
    assert(pending =~= framed(last).take(n));
    lemma_cut_is_incomplete(last, n, max);
    if pieces.len() == 0 {
        assert(pending + piece_bytes(pieces) =~= pending);
    } else {
        assert((pending + pieces[0]) + piece_bytes(pieces.skip(1)) =~= pending + piece_bytes(
            pieces,
        ));
        lemma_awaits_the_end(pending + pieces[0], pieces.skip(1), last, cut);
    }
}

proof fn lemma_awaits_all(
    pending: Seq<u8>,
    pieces: Seq<Seq<u8>>,
    payloads: Seq<Seq<u8>>,
    last: Seq<u8>,
    cut: int,
)
    requires
        fit(payloads, DEFAULT_MAX_FRAME_LEN as nat),
        none_empty(pieces),
        last.len() <= DEFAULT_MAX_FRAME_LEN,
        0 <= cut < framed(last).len(),
        pending + piece_bytes(pieces) == framed_all(payloads) + framed(last).take(cut),
    ensures
        awaited_all(pending, pieces, payloads.len() + 1) == Seq::new(
            payloads.len(),
            |i: int| ReceiveNote::Payload(payloads[i]),
        ).push(
            if cut == 0 {
                ReceiveNote::Nothing
            } else {
                ReceiveNote::Cut { left: cut as nat }
            },
        ),
    decreases payloads.len(),
{
    let end = if cut == 0 {
        ReceiveNote::Nothing
    } else {
        ReceiveNote::Cut { left: cut as nat }
    };
    let expected = Seq::new(payloads.len(), |i: int| ReceiveNote::Payload(payloads[i])).push(end);
    let (note, rest, left) = awaited(pending, pieces);
    if payloads.len() == 0 {
        assert(framed_all(payloads) + framed(last).take(cut) =~= framed(last).take(cut));
        lemma_awaits_the_end(pending, pieces, last, cut);
        assert(awaited_all(rest, left, 0) =~= Seq::<ReceiveNote>::empty());
        assert(awaited_all(pending, pieces, 1) =~= expected);
    } else {
        let tail = payloads.skip(1);
        let behind = framed_all(tail) + framed(last).take(cut);
        assert(framed_all(payloads) + framed(last).take(cut) =~= framed(payloads[0]) + behind);
        lemma_awaits_the_next(pending, pieces, payloads[0], behind);
        lemma_fit_tail(payloads, DEFAULT_MAX_FRAME_LEN as nat);
        lemma_awaits_all(rest, left, tail, last, cut);
        assert(awaited_all(pending, pieces, payloads.len() + 1) =~= expected) by {
            assert forall|i: int| 0 <= i < tail.len() implies #[trigger] tail[i] == payloads[i
                + 1] by {}
        }
    }
}

/// Whatever the sizes of the pieces that a stream of framed messages arrives in, the
/// first calls give its payloads in order, one each, and the next one gives nothing: the
/// stream has ended on a frame boundary.
pub proof fn law_receiver_reads_back(pieces: Seq<Seq<u8>>, payloads: Seq<Seq<u8>>)
    requires
        forall|i: int| 0 <= i < payloads.len() ==> (#[trigger] payloads[i]).len()
            <= DEFAULT_MAX_FRAME_LEN,
        none_empty(pieces),
        piece_bytes(pieces) == framed_all(payloads),
    ensures
        awaited_all(Seq::empty(), pieces, payloads.len() + 1) == Seq::new(
            payloads.len(),
            |i: int| ReceiveNote::Payload(payloads[i]),
        ).push(ReceiveNote::Nothing),
{
    let none = Seq::<u8>::empty();
    assert(none + piece_bytes(pieces) =~= framed_all(payloads) + framed(none).take(0));
    lemma_awaits_all(none, pieces, payloads, none, 0);
}

/// Where the peer dies inside a frame, the calls give the payloads before it, and the
/// next one tells how much of the frame had come: never the end of a stream.
pub proof fn law_receiver_notices_cut_frames(
    pieces: Seq<Seq<u8>>,
    payloads: Seq<Seq<u8>>,
    last: Seq<u8>,
    cut: int,
)
    requires
        forall|i: int| 0 <= i < payloads.len() ==> (#[trigger] payloads[i]).len()
            <= DEFAULT_MAX_FRAME_LEN,
        last.len() <= DEFAULT_MAX_FRAME_LEN,
        0 < cut < framed(last).len(),
        none_empty(pieces),
        piece_bytes(pieces) == framed_all(payloads) + framed(last).take(cut),
    ensures
        awaited_all(Seq::empty(), pieces, payloads.len() + 1) == Seq::new(
            payloads.len(),
            |i: int| ReceiveNote::Payload(payloads[i]),
        ).push(ReceiveNote::Cut { left: cut as nat }),
{
    let none = Seq::<u8>::empty();
    assert(none + piece_bytes(pieces) =~= piece_bytes(pieces));
    lemma_awaits_all(none, pieces, payloads, last, cut);
}

} // verus!
