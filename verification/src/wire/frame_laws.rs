//! What a reader hands out over a whole run of calls.

use vstd::prelude::*;

use crate::bytes::big_endian_bytes;
use crate::bytes::law_big_endian_reads_back;
use crate::wire::frame::framed;
use crate::wire::frame::framed_all;
use crate::wire::frame::frames_in;
use crate::wire::frame::law_chunk_boundaries_do_not_matter;
use crate::wire::frame::law_framed_payload_reads_back;
use crate::wire::frame::next_step;
use crate::wire::frame::rest_after_frames;
use crate::wire::frame::Step;

verus! {

/// Whether payloads can be framed and read by a reader with this maximum.
pub open spec fn fit(payloads: Seq<Seq<u8>>, max: nat) -> bool {
    forall|i: int|
        0 <= i < payloads.len() ==> (#[trigger] payloads[i]).len() <= max && payloads[i].len()
            < 0x1_0000_0000
}

/// Pieces of bytes one after the other.
pub open spec fn joined_pieces(pieces: Seq<Seq<u8>>) -> Seq<u8>
    decreases pieces.len(),
{
    if pieces.len() == 0 {
        Seq::empty()
    } else {
        joined_pieces(pieces.drop_last()) + pieces.last()
    }
}

/// The pending bytes after `calls` calls for the next frame.
pub open spec fn pending_after(pending: Seq<u8>, calls: nat, max: nat) -> Seq<u8>
    decreases calls,
{
    if calls == 0 {
        pending
    } else {
        let before = pending_after(pending, (calls - 1) as nat, max);
        match next_step(before, max) {
            Step::Complete { payload, rest } => rest,
            _ => before,
        }
    }
}

/// What one call for the next frame after another hands out: the whole frames that are
/// pending, one with each call, and then nothing more.
pub proof fn law_calls_hand_out_the_frames(pending: Seq<u8>, max: nat, k: nat)
    ensures
        k < frames_in(pending, max).len() ==> next_step(pending_after(pending, k, max), max)
            == (Step::Complete {
            payload: frames_in(pending, max)[k as int],
            rest: pending_after(pending, k + 1, max),
        }),
        k >= frames_in(pending, max).len() ==> pending_after(pending, k, max) == rest_after_frames(
            pending,
            max,
        ) && !(next_step(pending_after(pending, k, max), max) is Complete),
    decreases k + pending.len(),
{
    match next_step(pending, max) {
        Step::Complete { payload, rest } => {
            if k > 0 {
                lemma_one_call_earlier(pending, rest, (k - 1) as nat, max);
                lemma_one_call_earlier(pending, rest, k, max);
                law_calls_hand_out_the_frames(rest, max, (k - 1) as nat);
            } else {
                assert(pending_after(pending, 0, max) == pending);
                assert(pending_after(pending, 1, max) == rest);
            }
        },
        _ => {
            lemma_calls_without_a_frame(pending, k, max);
        },
    }
}

proof fn lemma_one_call_earlier(pending: Seq<u8>, rest: Seq<u8>, calls: nat, max: nat)
    requires
        next_step(pending, max) matches Step::Complete { payload, rest: behind } && behind == rest,
    ensures
        pending_after(pending, calls + 1, max) == pending_after(rest, calls, max),
    decreases calls,
{
    if calls > 0 {
        lemma_one_call_earlier(pending, rest, (calls - 1) as nat, max);
    } else {
        assert(pending_after(pending, 0, max) == pending);
    }
}

proof fn lemma_calls_without_a_frame(pending: Seq<u8>, calls: nat, max: nat)
    requires
        !(next_step(pending, max) is Complete),
    ensures
        pending_after(pending, calls, max) == pending,
    decreases calls,
{
    if calls > 0 {
        lemma_calls_without_a_frame(pending, (calls - 1) as nat, max);
    }
}

/// A reader with `pending` bytes is fed one piece after the other, and after each of
/// them asked for frames until it has no more: the payloads that come of each piece, and
/// the bytes that are left.
pub open spec fn fed(pending: Seq<u8>, pieces: Seq<Seq<u8>>, max: nat) -> (
    Seq<Seq<Seq<u8>>>,
    Seq<u8>,
)
    decreases pieces.len(),
{
    if pieces.len() == 0 {
        (Seq::empty(), pending)
    } else {
        let (before, left) = fed(pending, pieces.drop_last(), max);
        let now = left + pieces.last();
        (before.push(frames_in(now, max)), rest_after_frames(now, max))
    }
}

/// The payloads of all the pieces, in order.
pub open spec fn all_payloads(parts: Seq<Seq<Seq<u8>>>) -> Seq<Seq<u8>>
    decreases parts.len(),
{
    if parts.len() == 0 {
        Seq::empty()
    } else {
        all_payloads(parts.drop_last()) + parts.last()
    }
}

/// How many whole framed messages the first `n` bytes of a stream hold.
pub open spec fn whole_frames(payloads: Seq<Seq<u8>>, n: int) -> int
    decreases payloads.len(),
{
    if payloads.len() == 0 || n < framed(payloads[0]).len() {
        0
    } else {
        1 + whole_frames(payloads.skip(1), n - framed(payloads[0]).len())
    }
}

/// Feeding pieces gives what reading all of their bytes at once gives.
proof fn lemma_fed_is_read(pieces: Seq<Seq<u8>>, max: nat)
    ensures
        all_payloads(fed(Seq::empty(), pieces, max).0) == frames_in(joined_pieces(pieces), max),
        fed(Seq::empty(), pieces, max).1 == rest_after_frames(joined_pieces(pieces), max),
    decreases pieces.len(),
{
    let (parts, left) = fed(Seq::empty(), pieces, max);
    if pieces.len() > 0 {
        let front = pieces.drop_last();
        lemma_fed_is_read(front, max);
        let before = fed(Seq::empty(), front, max).0;
        assert(parts.drop_last() =~= before);
        law_chunk_boundaries_do_not_matter(joined_pieces(front), pieces.last(), max);
    } else {
        assert(next_step(Seq::<u8>::empty(), max) is Incomplete);
        assert(all_payloads(parts) =~= frames_in(Seq::<u8>::empty(), max));
    }
}

/// The beginning of a frame is no frame yet.
pub proof fn lemma_cut_is_incomplete(payload: Seq<u8>, n: int, max: nat)
    requires
        payload.len() <= max,
        payload.len() < 0x1_0000_0000,
        0 <= n < framed(payload).len(),
    ensures
        next_step(framed(payload).take(n), max) is Incomplete,
{
    let part = framed(payload).take(n);
    if n >= 4 {
        law_big_endian_reads_back(payload.len());
        assert(part.take(4) =~= big_endian_bytes(payload.len()));
    }
}

pub proof fn lemma_fit_tail(payloads: Seq<Seq<u8>>, max: nat)
    requires
        fit(payloads, max),
        payloads.len() > 0,
    ensures
        fit(payloads.skip(1), max),
{
    let tail = payloads.skip(1);
    assert forall|i: int| 0 <= i < tail.len() implies (#[trigger] tail[i]).len() <= max
        && tail[i].len() < 0x1_0000_0000 by {
        assert(tail[i] == payloads[i + 1]);
    }
}

/// Reading the beginning of a stream gives the messages that are whole in it.
proof fn lemma_beginning_reads(payloads: Seq<Seq<u8>>, n: int, max: nat)
    requires
        fit(payloads, max),
        0 <= n <= framed_all(payloads).len(),
    ensures
        ({
            let stream = framed_all(payloads);
            let w = whole_frames(payloads, n);
            let done = framed_all(payloads.take(w)).len() as int;
            &&& 0 <= w <= payloads.len()
            &&& done <= n
            &&& w < payloads.len() ==> n < framed_all(payloads.take(w + 1)).len()
            &&& frames_in(stream.take(n), max) == payloads.take(w)
            &&& rest_after_frames(stream.take(n), max) == stream.subrange(done, n)
            &&& next_step(stream.subrange(done, n), max) is Incomplete
        }),
    decreases payloads.len(),
{
    let stream = framed_all(payloads);
    let w = whole_frames(payloads, n);
    if payloads.len() == 0 {
        assert(stream.take(n) =~= Seq::<u8>::empty());
        assert(payloads.take(0) =~= payloads);
        assert(stream.subrange(0, n) =~= Seq::<u8>::empty());
        assert(frames_in(stream.take(n), max) =~= payloads.take(0));
    } else {
        let first = framed(payloads[0]);
        let tail = payloads.skip(1);
        lemma_fit_tail(payloads, max);
        if n < first.len() {
            assert(stream.take(n) =~= first.take(n));
            lemma_cut_is_incomplete(payloads[0], n, max);
            assert(payloads.take(0) =~= Seq::<Seq<u8>>::empty());
            assert(framed_all(payloads.take(0)) =~= Seq::<u8>::empty());
            assert(stream.subrange(0, n) =~= first.take(n));
            lemma_first_taken(payloads, 1);
            assert(tail.take(0) =~= Seq::<Seq<u8>>::empty());
            assert(frames_in(stream.take(n), max) =~= payloads.take(0));
        } else {
            let m = n - first.len();
            lemma_beginning_reads(tail, m, max);
            let v = whole_frames(tail, m);
            let rest = framed_all(tail).take(m);
            assert(stream.take(n) =~= first + rest);
            law_framed_payload_reads_back(payloads[0], rest, max);
            lemma_first_taken(payloads, w);
            if w < payloads.len() {
                lemma_first_taken(payloads, w + 1);
            }
            assert(payloads.take(w) =~= seq![payloads[0]] + tail.take(v));
            let done = framed_all(payloads.take(w)).len() as int;
            let before = framed_all(tail.take(v)).len() as int;
            assert(stream.subrange(done, n) =~= framed_all(tail).subrange(before, m));
        }
    }
}

proof fn lemma_first_taken(payloads: Seq<Seq<u8>>, w: int)
    requires
        1 <= w <= payloads.len(),
    ensures
        framed_all(payloads.take(w)) == framed(payloads[0]) + framed_all(
            payloads.skip(1).take(w - 1),
        ),
{
    assert(payloads.take(w).skip(1) =~= payloads.skip(1).take(w - 1));
}

/// However a stream of framed messages is cut into pieces, feeding them one by one and
/// taking frames after each of them until there are no more hands out the messages in
/// order, each once, and each with the piece that brings its last byte, neither before
/// nor later. What is left is the beginning of the next frame, no byte of it lost, and
/// asking once more gives nothing.
///
/// The pieces are those of the first `n` bytes: so it is after any number of pieces.
pub proof fn law_pieces_read_back(
    payloads: Seq<Seq<u8>>,
    pieces: Seq<Seq<u8>>,
    n: int,
    max: nat,
)
    requires
        fit(payloads, max),
        0 <= n <= framed_all(payloads).len(),
        joined_pieces(pieces) == framed_all(payloads).take(n),
    ensures
        ({
            let (parts, left) = fed(Seq::empty(), pieces, max);
            let w = whole_frames(payloads, n);
            let done = framed_all(payloads.take(w)).len() as int;
            &&& 0 <= w <= payloads.len()
            &&& done <= n
            &&& w < payloads.len() ==> n < framed_all(payloads.take(w + 1)).len()
            &&& all_payloads(parts) == payloads.take(w)
            &&& left == framed_all(payloads).subrange(done, n)
            &&& next_step(left, max) is Incomplete
        }),
{
    lemma_fed_is_read(pieces, max);
    lemma_beginning_reads(payloads, n, max);
}

/// What the first pieces bring does not depend on those behind them.
proof fn lemma_first_pieces(pieces: Seq<Seq<u8>>, j: int, max: nat)
    requires
        0 <= j <= pieces.len(),
    ensures
        fed(Seq::empty(), pieces, max).0.len() == pieces.len(),
        fed(Seq::empty(), pieces.take(j), max).0 == fed(Seq::empty(), pieces, max).0.take(j),
    decreases pieces.len(),
{
    let parts = fed(Seq::empty(), pieces, max).0;
    if pieces.len() == 0 {
        assert(pieces.take(j) =~= pieces);
        assert(parts.take(j) =~= parts);
    } else {
        let front = pieces.drop_last();
        let before = fed(Seq::empty(), front, max).0;
        if j == pieces.len() {
            lemma_first_pieces(front, front.len() as int, max);
            assert(pieces.take(j) =~= pieces);
            assert(parts.take(j) =~= parts);
        } else {
            lemma_first_pieces(front, j, max);
            assert(pieces.take(j) =~= front.take(j));
            assert(parts.take(j) =~= before.take(j));
        }
    }
}

proof fn lemma_first_pieces_begin(pieces: Seq<Seq<u8>>, j: int)
    requires
        0 <= j <= pieces.len(),
    ensures
        joined_pieces(pieces.take(j)).len() <= joined_pieces(pieces).len(),
        joined_pieces(pieces.take(j)) == joined_pieces(pieces).take(
            joined_pieces(pieces.take(j)).len() as int,
        ),
    decreases pieces.len(),
{
    if j == pieces.len() {
        assert(pieces.take(j) =~= pieces);
        assert(joined_pieces(pieces).take(joined_pieces(pieces).len() as int) =~= joined_pieces(
            pieces,
        ));
    } else {
        let front = pieces.drop_last();
        lemma_first_pieces_begin(front, j);
        assert(pieces.take(j) =~= front.take(j));
        let n = joined_pieces(pieces.take(j)).len() as int;
        assert(joined_pieces(pieces).take(n) =~= joined_pieces(front).take(n));
    }
}

/// Each piece of a stream of framed messages brings exactly the messages whose last
/// byte it holds.
pub proof fn law_each_piece_brings_its_messages(
    payloads: Seq<Seq<u8>>,
    pieces: Seq<Seq<u8>>,
    j: int,
    max: nat,
)
    requires
        fit(payloads, max),
        joined_pieces(pieces) == framed_all(payloads),
        0 <= j < pieces.len(),
    ensures
        ({
            let before = whole_frames(payloads, joined_pieces(pieces.take(j)).len() as int);
            let after = whole_frames(payloads, joined_pieces(pieces.take(j + 1)).len() as int);
            &&& 0 <= before <= after <= payloads.len()
            &&& fed(Seq::empty(), pieces, max).0[j] == payloads.subrange(before, after)
        }),
{
    let parts = fed(Seq::empty(), pieces, max).0;
    let m = joined_pieces(pieces.take(j)).len() as int;
    let n = joined_pieces(pieces.take(j + 1)).len() as int;
    lemma_first_pieces(pieces, j, max);
    lemma_first_pieces(pieces, j + 1, max);
    lemma_first_pieces_begin(pieces, j);
    lemma_first_pieces_begin(pieces, j + 1);
    law_pieces_read_back(payloads, pieces.take(j), m, max);
    law_pieces_read_back(payloads, pieces.take(j + 1), n, max);
    let before = whole_frames(payloads, m);
    let after = whole_frames(payloads, n);
    let upto = parts.take(j + 1);
    assert(upto.drop_last() =~= parts.take(j));
    assert(payloads.take(after) == payloads.take(before) + parts[j]);
    assert(payloads.take(after).len() == before + parts[j].len());
    assert forall|k: int| 0 <= k < parts[j].len() implies #[trigger] parts[j][k] == payloads[before
        + k] by {
        assert(payloads.take(after)[before + k] == parts[j][k]);
    }
    assert(parts[j] =~= payloads.subrange(before, after));
}

/// Once all pieces of a stream have been fed, all its messages have been handed out, and
/// nothing is left.
pub proof fn law_all_pieces_read_back(payloads: Seq<Seq<u8>>, pieces: Seq<Seq<u8>>, max: nat)
    requires
        fit(payloads, max),
        joined_pieces(pieces) == framed_all(payloads),
    ensures
        all_payloads(fed(Seq::empty(), pieces, max).0) == payloads,
        fed(Seq::empty(), pieces, max).1 == Seq::<u8>::empty(),
{
    lemma_fed_is_read(pieces, max);
    crate::wire::frame::law_stream_reads_back(payloads, max);
}

} // verus!
