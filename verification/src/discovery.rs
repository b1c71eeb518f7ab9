//! Bounded, one-shot DNS-SD discovery. Ephemeral UDP ports request unicast replies:
//! no Bonjour installation and no bind to the mDNS port.
//!
//! The sockets belong to the caller. This module makes the queries, reads the
//! replies, and keeps what was found.

use vstd::prelude::*;
use vstd::slice::slice_subrange;
use vstd::utf8::decode_utf8;
use vstd::utf8::encode_utf8;
use vstd::utf8::encode_utf8_decode_utf8;
use vstd::utf8::valid_utf8;

use crate::bytes::append_bytes;
use crate::bytes::be_u16;
use crate::bytes::be_u32;
use crate::bytes::big_endian;
use crate::connections::fields_notes;
use crate::text::chars_of;
use crate::text::join_parts;
use crate::text::joined;
use crate::text::owned;
use crate::text::parts_notes;
use crate::text::split_parts;
use crate::text::split_text;
use crate::text::text_of;
use crate::text::utf8_text;

verus! {

/// The service that hosts announce.
pub const SERVICE: &'static str = "_transom._tcp.local";

/// The id of our queries, which replies repeat.
pub const QUERY_ID: u16 = 0x5452;

/// The port that replies come from.
pub const MDNS_PORT: u16 = 5353;

/// DNS record types.
pub const TYPE_PTR: u16 = 12;

pub const TYPE_TXT: u16 = 16;

pub const TYPE_SRV: u16 = 33;

/// The DNS header before the questions.
pub const HEADER_LEN: usize = 12;

/// How many labels and pointers a name may be made of.
pub const NAME_STEPS: u32 = 128;

/// The longest name, in bytes with the length bytes of its labels.
pub const NAME_MAX_LEN: usize = 255;

/// How many instances are asked about, and how many services are kept.
pub const MAX_FOUND: usize = 128;

/// Times of a scan, in milliseconds.
pub const RETRY_AFTER_MS: u64 = 900;

pub const SCAN_MS: u64 = 2000;

/// How many datagrams are taken from a socket at a time.
pub const RECEIVE_BATCH: usize = 64;

// ---------------------------------------------------------------------------
// Queries
// ---------------------------------------------------------------------------

/// The labels of a name on the wire: each behind the low byte of its length.
pub open spec fn labels_bytes(labels: Seq<Seq<char>>) -> Seq<u8>
    decreases labels.len(),
{
    if labels.len() == 0 {
        Seq::empty()
    } else {
        let label = encode_utf8(labels.last());
        labels_bytes(labels.drop_last()) + seq![(label.len() % 256) as u8] + label
    }
}

/// The two big-endian bytes of a 16-bit number.
pub open spec fn u16_bytes(n: u16) -> Seq<u8> {
    seq![(n / 256) as u8, (n % 256) as u8]
}

/// The header of a query with one question.
pub open spec fn query_header() -> Seq<u8> {
    seq![0x54u8, 0x52u8, 0u8, 0u8, 0u8, 1u8, 0u8, 0u8, 0u8, 0u8, 0u8, 0u8]
}

/// The datagram that asks for the records of type `kind` of `name`.
pub open spec fn query_bytes(name: Seq<char>, kind: u16) -> Seq<u8> {
    query_header() + labels_bytes(split_text(name, '.')) + seq![0u8] + u16_bytes(kind) + u16_bytes(
        1,
    )
}

/// The datagram that asks for the records of type `kind` of `name`.
pub fn query(name: &str, kind: u16) -> (datagram: Vec<u8>)
    ensures
        datagram@ == query_bytes(name@, kind),
{
    let mut out: Vec<u8> = vec![0x54, 0x52, 0, 0, 0, 1, 0, 0, 0, 0, 0, 0];
    let labels = split_parts(name, '.');
    let ghost all = split_text(name@, '.');
    let mut i: usize = 0;
    proof {
        assert(all.take(0) =~= Seq::<Seq<char>>::empty());
        assert(out@ =~= query_header() + labels_bytes(all.take(0)));
    }
    while i < labels.len()
        invariant
            i <= labels@.len(),
            all == parts_notes(labels@),
            out@ == query_header() + labels_bytes(all.take(i as int)),
        decreases labels@.len() - i,
    {
        let ghost before = out@;
        let label = labels[i].as_str().as_bytes();
        out.push((label.len() % 256) as u8);
        append_bytes(&mut out, label);
        proof {
            assert(all.take(i + 1).drop_last() =~= all.take(i as int));
            assert(label@ == encode_utf8(all[i as int]));
            assert(out@ =~= before + (seq![(label@.len() % 256) as u8] + label@));
            assert(out@ =~= query_header() + labels_bytes(all.take(i + 1)));
        }
        i += 1;
    }
    proof {
        assert(all.take(i as int) =~= all);
    }
    out.push(0);
    out.push((kind / 256) as u8);
    out.push((kind % 256) as u8);
    out.push(0);
    out.push(1);
    proof {
        assert(out@ =~= query_bytes(name@, kind));
    }
    out
}

// ---------------------------------------------------------------------------
// Names
// ---------------------------------------------------------------------------

/// The labels of the name at `pos`, and the position behind it: labels that end in
/// a zero byte, or in a pointer to where the name goes on. `left` labels and
/// pointers may be taken, and `size` bytes of the name have been.
pub open spec fn name_at(data: Seq<u8>, pos: int, size: nat, left: nat) -> Option<
    (Seq<Seq<char>>, int),
>
    decreases left,
{
    if left == 0 || pos >= data.len() {
        None
    } else {
        let n = data[pos] as int;
        if n == 0 {
            Some((Seq::empty(), pos + 1))
        } else if n >= 192 {
            if pos + 1 >= data.len() {
                None
            } else {
                match name_at(data, n % 64 * 256 + data[pos + 1], size, (left - 1) as nat) {
                    Some((labels, end)) => Some((labels, pos + 2)),
                    None => None,
                }
            }
        } else if n > 63 || size + n + 1 > NAME_MAX_LEN || pos + 1 + n > data.len() {
            None
        } else {
            let label = data.subrange(pos + 1, pos + 1 + n);
            if !valid_utf8(label) || decode_utf8(label).contains('.') {
                None
            } else {
                match name_at(data, pos + 1 + n, (size + n + 1) as nat, (left - 1) as nat) {
                    Some((labels, end)) => Some((seq![decode_utf8(label)] + labels, end)),
                    None => None,
                }
            }
        }
    }
}

/// The name at `pos`, its labels joined with dots, and the position behind it.
pub open spec fn full_name_at(data: Seq<u8>, pos: int) -> Option<(Seq<char>, int)> {
    match name_at(data, pos, 0, NAME_STEPS as nat) {
        Some((labels, end)) => Some((joined(labels, '.'), end)),
        None => None,
    }
}

fn has_dot(label: &str) -> (found: bool)
    ensures
        found == label@.contains('.'),
{
    let chars = chars_of(label);
    let mut i: usize = 0;
    while i < chars.len()
        invariant
            i <= chars@.len(),
            chars@ == label@,
            forall|k: int| 0 <= k < i ==> label@[k] != '.',
        decreases chars@.len() - i,
    {
        if chars[i] == '.' {
            return true;
        }
        i += 1;
    }
    false
}

/// What is left of reading a name, once `labels` are read and `end` is set by the
/// first pointer.
spec fn name_goes_on(
    labels: Seq<Seq<char>>,
    end: Option<int>,
    rest: Option<(Seq<Seq<char>>, int)>,
) -> Option<(Seq<Seq<char>>, int)> {
    match rest {
        Some((more, behind)) => Some(
            (
                labels + more,
                match end {
                    Some(end) => end,
                    None => behind,
                },
            ),
        ),
        None => None,
    }
}

/// Read the name at `cursor` and move behind it. Compression pointers are followed
/// with a strict budget of steps and bytes.
pub fn name(data: &[u8], cursor: &mut usize) -> (result: Option<String>)
    ensures
        match result {
            Some(name) => full_name_at(data@, *old(cursor) as int) == Some(
                (name@, *final(cursor) as int),
            ) && *final(cursor) <= data@.len(),
            None => full_name_at(data@, *old(cursor) as int) is None && *final(cursor) == *old(
                cursor,
            ),
        },
{
    let mut pos: usize = *cursor;
    let mut end: Option<usize> = None;
    let mut labels: Vec<String> = Vec::new();
    let mut size: usize = 0;
    let mut step: u32 = 0;
    let ghost whole = name_at(data@, pos as int, 0, NAME_STEPS as nat);
    proof {
        assert(parts_notes(labels@) =~= Seq::<Seq<char>>::empty());
        if let Some((found, behind)) = whole {
            assert(Seq::<Seq<char>>::empty() + found =~= found);
        }
    }
    while step < NAME_STEPS
        invariant
            step <= NAME_STEPS,
            size <= NAME_MAX_LEN,
            *cursor == *old(cursor),
            whole == name_at(data@, *old(cursor) as int, 0, NAME_STEPS as nat),
            end matches Some(e) ==> e <= data@.len(),
            whole == name_goes_on(
                parts_notes(labels@),
                match end {
                    Some(e) => Some(e as int),
                    None => None,
                },
                name_at(data@, pos as int, size as nat, (NAME_STEPS - step) as nat),
            ),
        decreases NAME_STEPS - step,
    {
        if pos >= data.len() {
            return None;
        }
        let n: usize = data[pos] as usize;
        let ghost so_far = parts_notes(labels@);
        if n == 0 {
            *cursor = match end {
                Some(e) => e,
                None => pos + 1,
            };
            proof {
                assert(so_far + Seq::<Seq<char>>::empty() =~= so_far);
            }
            return Some(join_parts(&labels, '.'));
        }
        if n >= 192 {
            if data.len() - pos < 2 {
                return None;
            }
            let next: usize = n % 64 * 256 + data[pos + 1] as usize;
            if end.is_none() {
                end = Some(pos + 2);
            }
            pos = next;
        } else {
            if n > 63 {
                return None;
            }
            if size + n + 1 > NAME_MAX_LEN {
                return None;
            }
            if data.len() - pos - 1 < n {
                return None;
            }
            let label = match utf8_text(slice_subrange(data, pos + 1, pos + 1 + n)) {
                Some(label) => label,
                None => {
                    return None;
                },
            };
            proof {
                encode_utf8_decode_utf8(label@);
            }
            if has_dot(label) {
                return None;
            }
            labels.push(owned(label));
            proof {
                assert(parts_notes(labels@) =~= so_far.push(label@));
                let rest = name_at(
                    data@,
                    pos + 1 + n,
                    (size + n + 1) as nat,
                    (NAME_STEPS - step - 1) as nat,
                );
                if let Some((more, behind)) = rest {
                    assert(so_far + (seq![label@] + more) =~= so_far.push(label@) + more);
                }
            }
            size = size + n + 1;
            pos = pos + 1 + n;
        }
        step += 1;
    }
    None
}

// ---------------------------------------------------------------------------
// Records
// ---------------------------------------------------------------------------

/// One record of a reply.
#[derive(Debug)]
pub struct Record {
    pub name: String,
    pub kind: u16,
    pub ttl: u32,
    pub target: Option<String>,
    pub port: Option<u16>,
    pub txt: Option<Vec<(String, String)>>,
}

/// What a [`Record`] holds.
pub struct RecordNote {
    pub name: Seq<char>,
    pub kind: u16,
    pub ttl: nat,
    pub target: Option<Seq<char>>,
    pub port: Option<u16>,
    pub txt: Option<Seq<(Seq<char>, Seq<char>)>>,
}

impl Record {
    pub open spec fn view(&self) -> RecordNote {
        RecordNote {
            name: self.name@,
            kind: self.kind,
            ttl: self.ttl as nat,
            target: match self.target {
                Some(target) => Some(target@),
                None => None,
            },
            port: self.port,
            txt: match self.txt {
                Some(txt) => Some(fields_notes(txt@)),
                None => None,
            },
        }
    }
}

pub open spec fn record_notes(records: Seq<Record>) -> Seq<RecordNote> {
    Seq::new(records.len(), |i: int| records[i]@)
}

/// The big-endian 16-bit number at `pos`, if it lies within the data.
pub open spec fn u16_in(data: Seq<u8>, pos: int) -> Option<nat> {
    if 0 <= pos && pos + 2 <= data.len() {
        Some(big_endian(data.subrange(pos, pos + 2)))
    } else {
        None
    }
}

/// The first index from `i` on that holds `c`, or the length.
pub open spec fn find_from(text: Seq<char>, c: char, i: int) -> int
    decreases text.len() - i,
{
    if 0 <= i < text.len() && text[i] != c {
        find_from(text, c, i + 1)
    } else {
        i
    }
}

/// A text cut at its first equals sign, if it has one.
pub open spec fn pair_in(text: Seq<char>) -> Option<(Seq<char>, Seq<char>)> {
    let i = find_from(text, '=', 0);
    if i < text.len() {
        Some((text.take(i), text.skip(i + 1)))
    } else {
        None
    }
}

/// The fields of a text record: strings behind their length bytes. Those with an
/// equals sign are fields.
pub open spec fn txt_in(data: Seq<u8>) -> Option<Seq<(Seq<char>, Seq<char>)>>
    decreases data.len(),
{
    if data.len() == 0 {
        Some(Seq::empty())
    } else {
        let n = data[0] as int;
        if 1 + n > data.len() || !valid_utf8(data.subrange(1, 1 + n)) {
            None
        } else {
            match txt_in(data.skip(1 + n)) {
                None => None,
                Some(more) => match pair_in(decode_utf8(data.subrange(1, 1 + n))) {
                    Some(pair) => Some(seq![pair] + more),
                    None => Some(more),
                },
            }
        }
    }
}

/// The name at `pos`, which must not reach behind `end`.
pub open spec fn name_within(data: Seq<u8>, pos: int, end: int) -> Option<Seq<char>> {
    match full_name_at(data, pos) {
        Some((name, behind)) => if behind <= end {
            Some(name)
        } else {
            None
        },
        None => None,
    }
}

/// The record whose owner's name ends at `p`, and the position behind it. A record
/// of another class than the internet's is passed over.
pub open spec fn record_body_at(data: Seq<u8>, owner: Seq<char>, p: int) -> Option<
    (Option<RecordNote>, int),
> {
    if p + 10 > data.len() {
        None
    } else {
        let kind = big_endian(data.subrange(p, p + 2)) as u16;
        let class = big_endian(data.subrange(p + 2, p + 4));
        let ttl = big_endian(data.subrange(p + 4, p + 8));
        let len = big_endian(data.subrange(p + 8, p + 10));
        let start = p + 10;
        let end = start + len;
        let plain = RecordNote { name: owner, kind, ttl, target: None, port: None, txt: None };
        if end > data.len() {
            None
        } else if class % 0x8000 != 1 {
            Some((None, end))
        } else if kind == TYPE_PTR {
            match name_within(data, start, end) {
                Some(target) => Some((Some(RecordNote { target: Some(target), ..plain }), end)),
                None => None,
            }
        } else if kind == TYPE_SRV && len >= 7 {
            match name_within(data, start + 6, end) {
                Some(target) => Some(
                    (
                        Some(
                            RecordNote {
                                port: Some(
                                    big_endian(data.subrange(start + 4, start + 6)) as u16,
                                ),
                                ..plain
                            },
                        ),
                        end,
                    ),
                ),
                None => None,
            }
        } else if kind == TYPE_TXT {
            match txt_in(data.subrange(start, end)) {
                Some(fields) => Some((Some(RecordNote { txt: Some(fields), ..plain }), end)),
                None => None,
            }
        } else {
            Some((Some(plain), end))
        }
    }
}

/// The record at `pos`, and the position behind it.
pub open spec fn record_at(data: Seq<u8>, pos: int) -> Option<(Option<RecordNote>, int)> {
    match full_name_at(data, pos) {
        Some((owner, p)) => record_body_at(data, owner, p),
        None => None,
    }
}

/// `count` records from `pos` on, and the position behind them.
pub open spec fn records_at(data: Seq<u8>, pos: int, count: nat) -> Option<(Seq<RecordNote>, int)>
    decreases count,
{
    if count == 0 {
        Some((Seq::empty(), pos))
    } else {
        match record_at(data, pos) {
            None => None,
            Some((record, next)) => match records_at(data, next, (count - 1) as nat) {
                None => None,
                Some((more, end)) => match record {
                    Some(record) => Some((seq![record] + more, end)),
                    None => Some((more, end)),
                },
            },
        }
    }
}

/// The position behind `count` questions from `pos` on.
pub open spec fn questions_end(data: Seq<u8>, pos: int, count: nat) -> Option<int>
    decreases count,
{
    if count == 0 {
        Some(pos)
    } else {
        match full_name_at(data, pos) {
            Some((name, p)) => if p + 4 <= data.len() {
                questions_end(data, p + 4, (count - 1) as nat)
            } else {
                None
            },
            None => None,
        }
    }
}

/// The records of a reply to one of our queries, and the position behind them: the
/// id is ours, it is a response without an error, and it is not too large.
pub open spec fn packet_in(data: Seq<u8>) -> Option<(Seq<RecordNote>, int)> {
    if data.len() < HEADER_LEN {
        None
    } else {
        let flags = big_endian(data.subrange(2, 4));
        let questions = big_endian(data.subrange(4, 6));
        let count = big_endian(data.subrange(6, 8)) + big_endian(data.subrange(8, 10)) + big_endian(
            data.subrange(10, 12),
        );
        if big_endian(data.subrange(0, 2)) != QUERY_ID || flags < 0x8000 || flags % 16 != 0
            || questions > 64 || count > 256 {
            None
        } else {
            match questions_end(data, HEADER_LEN as int, questions) {
                Some(pos) => records_at(data, pos, count),
                None => None,
            }
        }
    }
}

/// The records of a reply.
pub open spec fn records_in(data: Seq<u8>) -> Option<Seq<RecordNote>> {
    match packet_in(data) {
        Some((records, end)) => Some(records),
        None => None,
    }
}

/// The big-endian 16-bit number at `p`, if it lies within the data.
pub fn u16_at(b: &[u8], p: usize) -> (n: Option<u16>)
    ensures
        match n {
            Some(n) => u16_in(b@, p as int) == Some(n as nat),
            None => u16_in(b@, p as int) is None,
        },
{
    if b.len() < 2 || p > b.len() - 2 {
        None
    } else {
        Some(be_u16(b, p))
    }
}

fn pair_of(text: &str) -> (pair: Option<(String, String)>)
    ensures
        match pair {
            Some((key, value)) => pair_in(text@) == Some((key@, value@)),
            None => pair_in(text@) is None,
        },
{
    let chars = chars_of(text);
    let mut i: usize = 0;
    while i < chars.len() && chars[i] != '='
        invariant
            i <= chars@.len(),
            chars@ == text@,
            find_from(text@, '=', 0) == find_from(text@, '=', i as int),
        decreases chars@.len() - i,
    {
        i += 1;
    }
    if i < chars.len() {
        proof {
            assert(text@.subrange(0, i as int) =~= text@.take(i as int));
            assert(text@.subrange(i + 1, chars@.len() as int) =~= text@.skip(i + 1));
        }
        Some((text_of(&chars, 0, i), text_of(&chars, i + 1, chars.len())))
    } else {
        None
    }
}

/// `fields` put before the fields that follow.
spec fn fields_go_on(
    fields: Seq<(Seq<char>, Seq<char>)>,
    rest: Option<Seq<(Seq<char>, Seq<char>)>>,
) -> Option<Seq<(Seq<char>, Seq<char>)>> {
    match rest {
        Some(more) => Some(fields + more),
        None => None,
    }
}

fn txt_fields(data: &[u8]) -> (fields: Option<Vec<(String, String)>>)
    ensures
        match fields {
            Some(fields) => txt_in(data@) == Some(fields_notes(fields@)),
            None => txt_in(data@) is None,
        },
{
    let mut fields: Vec<(String, String)> = Vec::new();
    let mut p: usize = 0;
    proof {
        assert(data@.skip(0) =~= data@);
        assert(fields_notes(fields@) =~= Seq::<(Seq<char>, Seq<char>)>::empty());
        if let Some(all) = txt_in(data@) {
            assert(Seq::<(Seq<char>, Seq<char>)>::empty() + all =~= all);
        }
    }
    while p < data.len()
        invariant
            p <= data@.len(),
            txt_in(data@) == fields_go_on(fields_notes(fields@), txt_in(data@.skip(p as int))),
        decreases data@.len() - p,
    {
        let n: usize = data[p] as usize;
        let ghost rest = data@.skip(p as int);
        let ghost so_far = fields_notes(fields@);
        if data.len() - p - 1 < n {
            return None;
        }
        proof {
            assert(rest.subrange(1, 1 + n) =~= data@.subrange(p + 1, p + 1 + n));
            assert(rest.skip(1 + n) =~= data@.skip(p + 1 + n));
        }
        let text = match utf8_text(slice_subrange(data, p + 1, p + 1 + n)) {
            Some(text) => text,
            None => {
                return None;
            },
        };
        proof {
            encode_utf8_decode_utf8(text@);
        }
        match pair_of(text) {
            Some(pair) => {
                let ghost note = (pair.0@, pair.1@);
                fields.push(pair);
                proof {
                    assert(fields_notes(fields@) =~= so_far.push(note));
                    if let Some(more) = txt_in(rest.skip(1 + n)) {
                        assert(so_far + (seq![note] + more) =~= so_far.push(note) + more);
                    }
                }
            },
            None => {},
        }
        p = p + 1 + n;
    }
    proof {
        assert(data@.skip(p as int) =~= Seq::<u8>::empty());
        assert(fields_notes(fields@) + Seq::<(Seq<char>, Seq<char>)>::empty() =~= fields_notes(
            fields@,
        ));
    }
    Some(fields)
}

fn name_up_to(data: &[u8], at: usize, end: usize) -> (result: Option<String>)
    ensures
        match result {
            Some(name) => name_within(data@, at as int, end as int) == Some(name@),
            None => name_within(data@, at as int, end as int) is None,
        },
{
    let mut p: usize = at;
    match name(data, &mut p) {
        Some(found) => if p <= end {
            Some(found)
        } else {
            None
        },
        None => None,
    }
}

/// Read the record at `pos` and move behind it; `None` inside is a record that is
/// passed over.
fn record(b: &[u8], pos: &mut usize) -> (result: Option<Option<Record>>)
    ensures
        match result {
            Some(Some(record)) => record_at(b@, *old(pos) as int) == Some(
                (Some(record@), *final(pos) as int),
            ),
            Some(None) => record_at(b@, *old(pos) as int) == Some(
                (None::<RecordNote>, *final(pos) as int),
            ),
            None => record_at(b@, *old(pos) as int) is None,
        },
{
    let owner = name(b, pos)?;
    let p: usize = *pos;
    if b.len() - p < 10 {
        return None;
    }
    let kind: u16 = be_u16(b, p);
    let class: u16 = be_u16(b, p + 2);
    let ttl: u32 = be_u32(b, p + 4);
    let len: usize = be_u16(b, p + 8) as usize;
    let start: usize = p + 10;
    if b.len() - start < len {
        return None;
    }
    let end: usize = start + len;
    *pos = end;
    if class % 0x8000 != 1 {
        return Some(None);
    }
    if kind == TYPE_PTR {
        let target = name_up_to(b, start, end)?;
        Some(
            Some(
                Record { name: owner, kind, ttl, target: Some(target), port: None, txt: None },
            ),
        )
    } else if kind == TYPE_SRV && len >= 7 {
        let port: u16 = be_u16(b, start + 4);
        let target = name_up_to(b, start + 6, end)?;
        Some(
            Some(Record { name: owner, kind, ttl, target: None, port: Some(port), txt: None }),
        )
    } else if kind == TYPE_TXT {
        let fields = txt_fields(slice_subrange(b, start, end))?;
        Some(
            Some(Record { name: owner, kind, ttl, target: None, port: None, txt: Some(fields) }),
        )
    } else {
        Some(Some(Record { name: owner, kind, ttl, target: None, port: None, txt: None }))
    }
}

/// `records` put before the records that follow.
spec fn records_go_on(records: Seq<RecordNote>, rest: Option<(Seq<RecordNote>, int)>) -> Option<
    (Seq<RecordNote>, int),
> {
    match rest {
        Some((more, end)) => Some((records + more, end)),
        None => None,
    }
}

/// The records of a reply to one of our queries.
pub fn records(b: &[u8]) -> (result: Option<Vec<Record>>)
    ensures
        match result {
            Some(records) => records_in(b@) == Some(record_notes(records@)),
            None => records_in(b@) is None,
        },
{
    if b.len() < HEADER_LEN {
        return None;
    }
    let flags: u16 = be_u16(b, 2);
    if be_u16(b, 0) != QUERY_ID || flags < 0x8000 || flags % 16 != 0 {
        return None;
    }
    let questions: usize = be_u16(b, 4) as usize;
    let count: usize = be_u16(b, 6) as usize + be_u16(b, 8) as usize + be_u16(b, 10) as usize;
    if questions > 64 || count > 256 {
        return None;
    }
    let mut pos: usize = HEADER_LEN;
    let mut i: usize = 0;
    while i < questions
        invariant
            i <= questions,
            questions_end(b@, HEADER_LEN as int, questions as nat) == questions_end(
                b@,
                pos as int,
                (questions - i) as nat,
            ),
            packet_in(b@) == match questions_end(b@, HEADER_LEN as int, questions as nat) {
                Some(pos) => records_at(b@, pos, count as nat),
                None => None,
            },
        decreases questions - i,
    {
        if name(b, &mut pos).is_none() {
            return None;
        }
        if b.len() - pos < 4 {
            return None;
        }
        pos = pos + 4;
        i += 1;
    }
    let mut out: Vec<Record> = Vec::new();
    let mut k: usize = 0;
    proof {
        assert(record_notes(out@) =~= Seq::<RecordNote>::empty());
        if let Some((all, end)) = packet_in(b@) {
            assert(Seq::<RecordNote>::empty() + all =~= all);
        }
    }
    while k < count
        invariant
            k <= count,
            packet_in(b@) == records_go_on(
                record_notes(out@),
                records_at(b@, pos as int, (count - k) as nat),
            ),
        decreases count - k,
    {
        let ghost so_far = record_notes(out@);
        match record(b, &mut pos) {
            None => {
                return None;
            },
            Some(None) => {},
            Some(Some(found)) => {
                let ghost note = found@;
                out.push(found);
                proof {
                    assert(record_notes(out@) =~= so_far.push(note));
                    if let Some((more, end)) = records_at(
                        b@,
                        pos as int,
                        (count - k - 1) as nat,
                    ) {
                        assert(so_far + (seq![note] + more) =~= so_far.push(note) + more);
                    }
                }
            },
        }
        k += 1;
    }
    proof {
        assert(record_notes(out@) + Seq::<RecordNote>::empty() =~= record_notes(out@));
    }
    Some(out)
}

} // verus!
