//! What reading replies promises: bounded names, nothing read from a truncated
//! reply, and queries whose names read back.

use vstd::prelude::*;
use vstd::utf8::decode_utf8;
use vstd::utf8::encode_utf8;
use vstd::utf8::encode_utf8_decode_utf8;
use vstd::utf8::encode_utf8_valid_utf8;

use crate::bytes::big_endian;
use crate::discovery::full_name_at;
use crate::discovery::labels_bytes;
use crate::discovery::name_at;
use crate::discovery::packet_in;
use crate::discovery::query_bytes;
use crate::discovery::query_header;
use crate::discovery::questions_end;
use crate::discovery::record_at;
use crate::discovery::records_at;
use crate::discovery::records_in;
use crate::discovery::HEADER_LEN;
use crate::discovery::NAME_MAX_LEN;
use crate::discovery::NAME_STEPS;
use crate::text::byte_len;
use crate::text::joined;
use crate::text::law_split_parts_join_back;
use crate::text::lemma_byte_len_concat;
use crate::text::lemma_byte_len_is_encoded_len;
use crate::text::split_text;

verus! {

// --- truncation ------------------------------------------------------------

/// What is read of the first `n` bytes is read of all of them, and lies within the
/// first `n`.
proof fn lemma_name_of_prefix(data: Seq<u8>, n: int, pos: int, size: nat, left: nat)
    requires
        0 <= pos,
        0 <= n <= data.len(),
    ensures
        name_at(data.take(n), pos, size, left) matches Some(found) ==> name_at(
            data,
            pos,
            size,
            left,
        ) == Some(found) && pos < found.1 <= n,
    decreases left,
{
    let front = data.take(n);
    if left > 0 && pos < n {
        let b = data[pos] as int;
        assert(front[pos] == data[pos]);
        if b >= 192 {
            if pos + 1 < n {
                assert(front[pos + 1] == data[pos + 1]);
                lemma_name_of_prefix(
                    data,
                    n,
                    b % 64 * 256 + data[pos + 1],
                    size,
                    (left - 1) as nat,
                );
            }
        } else if b > 0 && b <= 63 && pos + 1 + b <= n {
            assert(front.subrange(pos + 1, pos + 1 + b) =~= data.subrange(pos + 1, pos + 1 + b));
            lemma_name_of_prefix(data, n, pos + 1 + b, (size + b + 1) as nat, (left - 1) as nat);
        }
    }
}

proof fn lemma_record_of_prefix(data: Seq<u8>, n: int, pos: int)
    requires
        0 <= pos,
        0 <= n <= data.len(),
    ensures
        record_at(data.take(n), pos) matches Some(found) ==> record_at(data, pos) == Some(found)
            && pos <= found.1 <= n,
{
    let front = data.take(n);
    lemma_name_of_prefix(data, n, pos, 0, NAME_STEPS as nat);
    if let Some((owner, p)) = full_name_at(front, pos) {
        if p + 10 <= n {
            assert(front.subrange(p, p + 2) =~= data.subrange(p, p + 2));
            assert(front.subrange(p + 2, p + 4) =~= data.subrange(p + 2, p + 4));
            assert(front.subrange(p + 4, p + 8) =~= data.subrange(p + 4, p + 8));
            assert(front.subrange(p + 8, p + 10) =~= data.subrange(p + 8, p + 10));
            let len = big_endian(data.subrange(p + 8, p + 10));
            let start = p + 10;
            let end = start + len;
            if end <= n {
                lemma_name_of_prefix(data, n, start, 0, NAME_STEPS as nat);
                lemma_name_of_prefix(data, n, start + 6, 0, NAME_STEPS as nat);
                assert(front.subrange(start, end) =~= data.subrange(start, end));
                if len >= 7 {
                    assert(front.subrange(start + 4, start + 6) =~= data.subrange(
                        start + 4,
                        start + 6,
                    ));
                }
            }
        }
    }
}

proof fn lemma_records_of_prefix(data: Seq<u8>, n: int, pos: int, count: nat)
    requires
        0 <= pos <= n,
        n <= data.len(),
    ensures
        records_at(data.take(n), pos, count) matches Some(found) ==> records_at(data, pos, count)
            == Some(found) && pos <= found.1 <= n,
    decreases count,
{
    if count > 0 {
        lemma_record_of_prefix(data, n, pos);
        if let Some((record, next)) = record_at(data.take(n), pos) {
            lemma_records_of_prefix(data, n, next, (count - 1) as nat);
        }
    }
}

proof fn lemma_questions_of_prefix(data: Seq<u8>, n: int, pos: int, count: nat)
    requires
        0 <= pos <= n,
        n <= data.len(),
    ensures
        questions_end(data.take(n), pos, count) matches Some(found) ==> questions_end(
            data,
            pos,
            count,
        ) == Some(found) && pos <= found <= n,
    decreases count,
{
    if count > 0 {
        lemma_name_of_prefix(data, n, pos, 0, NAME_STEPS as nat);
        if let Some((name, p)) = full_name_at(data.take(n), pos) {
            if p + 4 <= n {
                lemma_questions_of_prefix(data, n, p + 4, (count - 1) as nat);
            }
        }
    }
}

proof fn lemma_packet_of_prefix(data: Seq<u8>, n: int)
    requires
        0 <= n <= data.len(),
    ensures
        packet_in(data.take(n)) matches Some(found) ==> packet_in(data) == Some(found) && found.1
            <= n,
{
    let front = data.take(n);
    if n >= HEADER_LEN {
        assert(front.subrange(0, 2) =~= data.subrange(0, 2));
        assert(front.subrange(2, 4) =~= data.subrange(2, 4));
        assert(front.subrange(4, 6) =~= data.subrange(4, 6));
        assert(front.subrange(6, 8) =~= data.subrange(6, 8));
        assert(front.subrange(8, 10) =~= data.subrange(8, 10));
        assert(front.subrange(10, 12) =~= data.subrange(10, 12));
        let questions = big_endian(data.subrange(4, 6));
        let count = big_endian(data.subrange(6, 8)) + big_endian(data.subrange(8, 10)) + big_endian(
            data.subrange(10, 12),
        );
        lemma_questions_of_prefix(data, n, HEADER_LEN as int, questions);
        if let Some(pos) = questions_end(front, HEADER_LEN as int, questions) {
            lemma_records_of_prefix(data, n, pos, count);
        }
    }
}

/// A reply that is cut short before the end of its records is rejected.
pub proof fn law_truncated_replies_are_rejected(data: Seq<u8>, n: int)
    requires
        packet_in(data) is Some,
        0 <= n < (packet_in(data)->0).1,
        n <= data.len(),
    ensures
        records_in(data.take(n)) is None,
{
    lemma_packet_of_prefix(data, n);
}

/// Bytes behind the records of a reply change nothing.
pub proof fn law_trailing_bytes_change_nothing(data: Seq<u8>, more: Seq<u8>)
    ensures
        records_in(data) matches Some(records) ==> records_in(data + more) == Some(records),
{
    lemma_packet_of_prefix(data + more, data.len() as int);
    assert((data + more).take(data.len() as int) =~= data);
}

// --- names -----------------------------------------------------------------

pub proof fn lemma_joined_from_front(labels: Seq<Seq<char>>, c: char)
    requires
        labels.len() >= 2,
    ensures
        joined(labels, c) == labels[0] + seq![c] + joined(labels.skip(1), c),
    decreases labels.len(),
{
    if labels.len() == 2 {
        assert(labels.drop_last() =~= seq![labels[0]]);
        assert(labels.skip(1) =~= seq![labels[1]]);
        assert(joined(labels.drop_last(), c) == labels[0]);
        assert(joined(labels.skip(1), c) == labels[1]);
    } else {
        lemma_joined_from_front(labels.drop_last(), c);
        assert(labels.drop_last().skip(1) =~= labels.skip(1).drop_last());
        assert(labels.skip(1).last() == labels.last());
        assert(joined(labels, c) =~= labels[0] + seq![c] + joined(labels.skip(1), c));
    }
}

proof fn lemma_names_are_bounded(data: Seq<u8>, pos: int, size: nat, left: nat)
    requires
        0 <= pos,
        size <= NAME_MAX_LEN,
    ensures
        name_at(data, pos, size, left) matches Some((labels, end)) ==> byte_len(
            joined(labels, '.'),
        ) + size <= NAME_MAX_LEN,
    decreases left,
{
    if left > 0 && pos < data.len() {
        let b = data[pos] as int;
        if b == 0 {
            assert(joined(Seq::<Seq<char>>::empty(), '.') =~= Seq::<char>::empty());
            assert(byte_len(Seq::<char>::empty()) == 0);
        } else if b >= 192 {
            if pos + 1 < data.len() {
                lemma_names_are_bounded(
                    data,
                    b % 64 * 256 + data[pos + 1],
                    size,
                    (left - 1) as nat,
                );
            }
        } else if b <= 63 && size + b + 1 <= NAME_MAX_LEN && pos + 1 + b <= data.len() {
            lemma_names_are_bounded(data, pos + 1 + b, (size + b + 1) as nat, (left - 1) as nat);
            if let Some((labels, end)) = name_at(data, pos, size, left) {
                let bytes = data.subrange(pos + 1, pos + 1 + b);
                let label = decode_utf8(bytes);
                vstd::utf8::decode_utf8_encode_utf8(bytes);
                lemma_byte_len_is_encoded_len(label);
                let rest = labels.skip(1);
                assert(labels[0] == label);
                let found = (name_at(
                    data,
                    pos + 1 + b,
                    (size + b + 1) as nat,
                    (left - 1) as nat,
                )->0).0;
                assert(rest =~= found);
                if labels.len() == 1 {
                    assert(joined(labels, '.') == label);
                } else {
                    lemma_joined_from_front(labels, '.');
                    lemma_byte_len_concat(label, seq!['.']);
                    lemma_byte_len_concat(label + seq!['.'], joined(rest, '.'));
                    assert(seq!['.'].drop_last() =~= Seq::<char>::empty());
                    assert(byte_len(seq!['.'].drop_last()) == 0);
                    assert(byte_len(seq!['.']) == 1);
                }
            }
        }
    }
}

/// However its pointers lead, no name is longer than the budget.
pub proof fn law_names_are_bounded(data: Seq<u8>, pos: int)
    requires
        0 <= pos,
    ensures
        full_name_at(data, pos) matches Some((name, end)) ==> byte_len(name) <= NAME_MAX_LEN,
{
    lemma_names_are_bounded(data, pos, 0, NAME_STEPS as nat);
}

/// A pointer to itself is no name.
pub proof fn law_cycles_are_rejected(data: Seq<u8>, pos: int, left: nat, size: nat)
    requires
        0 <= pos,
        pos + 1 < data.len(),
        data[pos] >= 192,
        data[pos] as int % 64 * 256 + data[pos + 1] == pos,
    ensures
        name_at(data, pos, size, left) is None,
    decreases left,
{
    if left > 0 {
        law_cycles_are_rejected(data, pos, (left - 1) as nat, size);
    }
}

// --- queries ---------------------------------------------------------------

proof fn lemma_labels_from_front(labels: Seq<Seq<char>>)
    requires
        labels.len() > 0,
    ensures
        labels_bytes(labels) == seq![(encode_utf8(labels[0]).len() % 256) as u8] + encode_utf8(
            labels[0],
        ) + labels_bytes(labels.skip(1)),
    decreases labels.len(),
{
    let first = encode_utf8(labels[0]);
    let header = seq![(first.len() % 256) as u8];
    if labels.len() == 1 {
        assert(labels.drop_last() =~= Seq::<Seq<char>>::empty());
        assert(labels.skip(1) =~= Seq::<Seq<char>>::empty());
        assert(labels_bytes(labels.drop_last()) =~= Seq::<u8>::empty());
        assert(labels_bytes(labels) =~= header + first + labels_bytes(labels.skip(1)));
    } else {
        lemma_labels_from_front(labels.drop_last());
        assert(labels.drop_last().skip(1) =~= labels.skip(1).drop_last());
        assert(labels.skip(1).last() == labels.last());
        assert(labels_bytes(labels) =~= header + first + labels_bytes(labels.skip(1)));
    }
}

/// Labels that a name can be made of.
pub open spec fn are_labels(labels: Seq<Seq<char>>) -> bool {
    forall|i: int|
        0 <= i < labels.len() ==> 1 <= encode_utf8(#[trigger] labels[i]).len() <= 63
            && !labels[i].contains('.')
}

proof fn lemma_labels_read_back(
    labels: Seq<Seq<char>>,
    data: Seq<u8>,
    pos: int,
    size: nat,
    left: nat,
)
    requires
        are_labels(labels),
        0 <= pos,
        pos + labels_bytes(labels).len() < data.len(),
        data.subrange(pos, pos + labels_bytes(labels).len()) == labels_bytes(labels),
        data[pos + labels_bytes(labels).len()] == 0,
        size + labels_bytes(labels).len() <= NAME_MAX_LEN,
        labels.len() < left,
    ensures
        name_at(data, pos, size, left) == Some((labels, pos + labels_bytes(labels).len() + 1)),
    decreases labels.len(),
{
    let all = labels_bytes(labels);
    if labels.len() == 0 {
        assert(labels =~= Seq::<Seq<char>>::empty());
    } else {
        lemma_labels_from_front(labels);
        let first = encode_utf8(labels[0]);
        let rest = labels.skip(1);
        let n = first.len() as int;
        assert(1 <= n <= 63);
        assert(data.subrange(pos, pos + all.len())[0] == data[pos]);
        assert(data[pos] == n);
        assert(data.subrange(pos + 1, pos + 1 + n) =~= first) by {
            assert forall|k: int| 0 <= k < n implies data.subrange(pos + 1, pos + 1 + n)[k]
                == first[k] by {
                assert(data.subrange(pos, pos + all.len())[k + 1] == all[k + 1]);
            }
        }
        encode_utf8_valid_utf8(labels[0]);
        encode_utf8_decode_utf8(labels[0]);
        let more = labels_bytes(rest);
        assert(data.subrange(pos + 1 + n, pos + 1 + n + more.len()) =~= more) by {
            assert forall|k: int| 0 <= k < more.len() implies data.subrange(
                pos + 1 + n,
                pos + 1 + n + more.len(),
            )[k] == more[k] by {
                assert(data.subrange(pos, pos + all.len())[k + 1 + n] == all[k + 1 + n]);
            }
        }
        assert forall|i: int| 0 <= i < rest.len() implies 1 <= encode_utf8(
            #[trigger] rest[i],
        ).len() <= 63 && !rest[i].contains('.') by {
            assert(rest[i] == labels[i + 1]);
        }
        lemma_labels_read_back(rest, data, pos + 1 + n, (size + n + 1) as nat, (left - 1) as nat);
        assert(seq![labels[0]] + rest =~= labels);
    }
}

/// The name in a query reads back as the name that was asked for, for every name
/// that DNS can carry.
pub proof fn law_query_names_read_back(name: Seq<char>, kind: u16)
    requires
        ({
            let labels = split_text(name, '.');
            &&& forall|i: int|
                0 <= i < labels.len() ==> 1 <= encode_utf8(#[trigger] labels[i]).len() <= 63
            &&& labels_bytes(labels).len() <= NAME_MAX_LEN
            &&& labels.len() < NAME_STEPS
        }),
    ensures
        full_name_at(query_bytes(name, kind), HEADER_LEN as int) == Some(
            (name, query_bytes(name, kind).len() - 4),
        ),
{
    let labels = split_text(name, '.');
    let data = query_bytes(name, kind);
    let bytes = labels_bytes(labels);
    law_split_parts_join_back(name, '.');
    assert(query_header().len() == 12);
    assert(data.subrange(12, 12 + bytes.len() as int) =~= bytes);
    assert(data[12 + bytes.len() as int] == 0);
    lemma_labels_read_back(labels, data, 12, 0, NAME_STEPS as nat);
}

} // verus!
