//! What reading a reply promises, said of replies that are put together part by part:
//! a header, questions, and the records of three sections.

use vstd::prelude::*;
use vstd::utf8::encode_utf8;
use vstd::utf8::encode_utf8_decode_utf8;
use vstd::utf8::encode_utf8_valid_utf8;

use crate::bytes::big_endian;
use crate::bytes::lemma_big_endian_unfold;
use crate::discovery::find_from;
use crate::discovery::full_name_at;
use crate::discovery::labels_bytes;
use crate::discovery::name_at;
use crate::discovery::packet_in;
use crate::discovery::pair_in;
use crate::discovery::query_bytes;
use crate::discovery::questions_end;
use crate::discovery::record_at;
use crate::discovery::record_notes;
use crate::discovery::records;
use crate::discovery::records_at;
use crate::discovery::records_in;
use crate::discovery::txt_in;
use crate::discovery::Record;
use crate::discovery::RecordNote;
use crate::discovery_laws::lemma_joined_from_front;
use crate::options_laws::law_texts_are_cut_at_separators;
use crate::text::joined;
use crate::text::split_text;

verus! {

// --- bytes in their places -------------------------------------------------

/// Whether some bytes stand in the data at a position.
pub open spec fn stands_at(data: Seq<u8>, pos: int, bytes: Seq<u8>) -> bool {
    &&& 0 <= pos
    &&& pos + bytes.len() <= data.len()
    &&& forall|k: int| 0 <= k < bytes.len() ==> data[pos + k] == #[trigger] bytes[k]
}

proof fn lemma_stand_apart(data: Seq<u8>, pos: int, front: Seq<u8>, back: Seq<u8>)
    requires
        stands_at(data, pos, front + back),
    ensures
        stands_at(data, pos, front),
        stands_at(data, pos + front.len(), back),
{
    let all = front + back;
    assert forall|k: int| 0 <= k < front.len() implies data[pos + k] == #[trigger] front[k] by {
        assert(all[k] == front[k]);
    }
    assert forall|k: int| 0 <= k < back.len() implies data[pos + front.len() + k]
        == #[trigger] back[k] by {
        assert(all[front.len() + k] == back[k]);
    }
}

proof fn lemma_stands_as_range(data: Seq<u8>, pos: int, bytes: Seq<u8>)
    requires
        stands_at(data, pos, bytes),
    ensures
        data.subrange(pos, pos + bytes.len()) == bytes,
{
    assert(data.subrange(pos, pos + bytes.len()) =~= bytes);
}

/// A number as two bytes, the high one first.
pub open spec fn two_bytes(n: u16) -> Seq<u8> {
    seq![(n / 0x100) as u8, (n % 0x100) as u8]
}

/// A number as four bytes, the high ones first.
pub open spec fn four_bytes(n: u32) -> Seq<u8> {
    seq![
        (n / 0x100_0000) as u8,
        (n / 0x1_0000 % 0x100) as u8,
        (n / 0x100 % 0x100) as u8,
        (n % 0x100) as u8,
    ]
}

proof fn lemma_two_bytes(data: Seq<u8>, pos: int, n: u16)
    requires
        stands_at(data, pos, two_bytes(n)),
    ensures
        big_endian(data.subrange(pos, pos + 2)) == n,
{
    lemma_stands_as_range(data, pos, two_bytes(n));
    lemma_big_endian_unfold(two_bytes(n));
}

proof fn lemma_four_bytes(data: Seq<u8>, pos: int, n: u32)
    requires
        stands_at(data, pos, four_bytes(n)),
    ensures
        big_endian(data.subrange(pos, pos + 4)) == n,
{
    lemma_stands_as_range(data, pos, four_bytes(n));
    lemma_big_endian_unfold(four_bytes(n));
}

// --- names -----------------------------------------------------------------

/// Labels one after another, each behind its length.
pub open spec fn plain_labels(labels: Seq<Seq<char>>) -> Seq<u8>
    decreases labels.len(),
{
    if labels.len() == 0 {
        Seq::empty()
    } else {
        seq![encode_utf8(labels[0]).len() as u8] + encode_utf8(labels[0]) + plain_labels(
            labels.skip(1),
        )
    }
}

/// Labels with dots between them.
pub open spec fn dotted(labels: Seq<Seq<char>>) -> Seq<char>
    decreases labels.len(),
{
    if labels.len() == 0 {
        Seq::empty()
    } else if labels.len() == 1 {
        labels[0]
    } else {
        labels[0] + seq!['.'] + dotted(labels.skip(1))
    }
}

/// Whether each label has one to 63 bytes and no dot.
pub open spec fn are_plain(labels: Seq<Seq<char>>) -> bool {
    forall|i: int|
        0 <= i < labels.len() ==> 1 <= encode_utf8(#[trigger] labels[i]).len() <= 63
            && !labels[i].contains('.')
}

/// A name in a reply: labels that end in a zero byte, or labels that go on in a name
/// elsewhere in the reply.
pub enum NamePlan {
    Whole { labels: Seq<Seq<char>> },
    Shared { labels: Seq<Seq<char>>, at: int, rest: Seq<Seq<char>> },
}

impl NamePlan {
    /// The bytes of the name where it stands.
    pub open spec fn bytes(self) -> Seq<u8> {
        match self {
            NamePlan::Whole { labels } => plain_labels(labels) + seq![0u8],
            NamePlan::Shared { labels, at, rest } => plain_labels(labels) + seq![
                (192 + at / 256) as u8,
                (at % 256) as u8,
            ],
        }
    }

    /// All labels of the name.
    pub open spec fn labels(self) -> Seq<Seq<char>> {
        match self {
            NamePlan::Whole { labels } => labels,
            NamePlan::Shared { labels, at, rest } => labels + rest,
        }
    }

    /// Whether the name can be told in the data: its labels are sound, it is not too
    /// long, and where it goes on the rest of it stands, behind the header.
    pub open spec fn is_told(self, data: Seq<u8>) -> bool {
        &&& are_plain(self.labels())
        &&& plain_labels(self.labels()).len() <= 255
        &&& self matches NamePlan::Shared { labels, at, rest } ==> {
            &&& 12 <= at < 0x4000
            &&& labels.len() + rest.len() < 127
            &&& stands_at(data, at, plain_labels(rest) + seq![0u8])
        }
    }
}

proof fn lemma_dotted(labels: Seq<Seq<char>>)
    ensures
        dotted(labels) == joined(labels, '.'),
    decreases labels.len(),
{
    if labels.len() >= 2 {
        lemma_joined_from_front(labels, '.');
        lemma_dotted(labels.skip(1));
    }
}

proof fn lemma_plain_skip(labels: Seq<Seq<char>>)
    requires
        are_plain(labels),
        labels.len() > 0,
    ensures
        are_plain(labels.skip(1)),
{
    let rest = labels.skip(1);
    assert forall|i: int| 0 <= i < rest.len() implies 1 <= encode_utf8(#[trigger] rest[i]).len()
        <= 63 && !rest[i].contains('.') by {
        assert(rest[i] == labels[i + 1]);
    }
}

proof fn lemma_plain_count(labels: Seq<Seq<char>>)
    requires
        are_plain(labels),
    ensures
        2 * labels.len() <= plain_labels(labels).len(),
    decreases labels.len(),
{
    if labels.len() > 0 {
        lemma_plain_skip(labels);
        lemma_plain_count(labels.skip(1));
        assert(encode_utf8(labels[0]).len() >= 1);
    }
}

proof fn lemma_plain_concat(labels: Seq<Seq<char>>, rest: Seq<Seq<char>>)
    ensures
        plain_labels(labels + rest) == plain_labels(labels) + plain_labels(rest),
    decreases labels.len(),
{
    if labels.len() == 0 {
        assert(labels + rest =~= rest);
        assert(plain_labels(labels) + plain_labels(rest) =~= plain_labels(rest));
    } else {
        lemma_plain_concat(labels.skip(1), rest);
        assert((labels + rest).skip(1) =~= labels.skip(1) + rest);
        assert(plain_labels(labels + rest) =~= plain_labels(labels) + plain_labels(rest));
    }
}

/// Labels are read one by one, and then what follows them.
proof fn lemma_labels_go_on(
    data: Seq<u8>,
    pos: int,
    labels: Seq<Seq<char>>,
    size: nat,
    left: nat,
    tail: Seq<Seq<char>>,
    end: int,
)
    requires
        are_plain(labels),
        stands_at(data, pos, plain_labels(labels)),
        size + plain_labels(labels).len() <= 255,
        labels.len() <= left,
        name_at(
            data,
            pos + plain_labels(labels).len(),
            size + plain_labels(labels).len(),
            (left - labels.len()) as nat,
        ) == Some((tail, end)),
    ensures
        name_at(data, pos, size, left) == Some((labels + tail, end)),
    decreases labels.len(),
{
    if labels.len() == 0 {
        assert(labels + tail =~= tail);
    } else {
        let first = encode_utf8(labels[0]);
        let n = first.len() as int;
        let more = labels.skip(1);
        let header = seq![n as u8];
        assert(1 <= n <= 63);
        lemma_stand_apart(data, pos, header + first, plain_labels(more));
        lemma_stand_apart(data, pos, header, first);
        assert(data[pos + 0] == header[0]);
        assert(data[pos] == n);
        lemma_stands_as_range(data, pos + 1, first);
        encode_utf8_valid_utf8(labels[0]);
        encode_utf8_decode_utf8(labels[0]);
        lemma_plain_skip(labels);
        assert(!labels[0].contains('.'));
        lemma_labels_go_on(
            data,
            pos + 1 + n,
            more,
            (size + n + 1) as nat,
            (left - 1) as nat,
            tail,
            end,
        );
        assert(seq![labels[0]] + (more + tail) =~= labels + tail);
    }
}

/// A name in a reply reads as its labels with dots between them, and reading goes on
/// behind the name where it stands, wherever the rest of it is.
pub proof fn law_names_are_read(data: Seq<u8>, pos: int, name: NamePlan)
    requires
        name.is_told(data),
        stands_at(data, pos, name.bytes()),
    ensures
        full_name_at(data, pos) == Some((dotted(name.labels()), pos + name.bytes().len())),
{
    lemma_dotted(name.labels());
    lemma_plain_count(name.labels());
    match name {
        NamePlan::Whole { labels } => {
            let none = Seq::<Seq<char>>::empty();
            let p = pos + plain_labels(labels).len();
            lemma_stand_apart(data, pos, plain_labels(labels), seq![0u8]);
            assert(data[p + 0] == seq![0u8][0]);
            lemma_labels_go_on(data, pos, labels, 0, 128, none, p + 1);
            assert(labels + none =~= labels);
        },
        NamePlan::Shared { labels, at, rest } => {
            let none = Seq::<Seq<char>>::empty();
            let len = plain_labels(labels).len();
            let p = pos + len;
            let q = at + plain_labels(rest).len();
            let pointer = seq![(192 + at / 256) as u8, (at % 256) as u8];
            lemma_plain_concat(labels, rest);
            assert(are_plain(labels)) by {
                assert forall|i: int| 0 <= i < labels.len() implies 1 <= encode_utf8(
                    #[trigger] labels[i],
                ).len() <= 63 && !labels[i].contains('.') by {
                    assert((labels + rest)[i] == labels[i]);
                }
            }
            assert(are_plain(rest)) by {
                assert forall|i: int| 0 <= i < rest.len() implies 1 <= encode_utf8(
                    #[trigger] rest[i],
                ).len() <= 63 && !rest[i].contains('.') by {
                    assert((labels + rest)[labels.len() + i] == rest[i]);
                }
            }
            lemma_stand_apart(data, at, plain_labels(rest), seq![0u8]);
            assert(data[q + 0] == seq![0u8][0]);
            let left = (127 - labels.len()) as nat;
            lemma_labels_go_on(data, at, rest, len, left, none, q + 1);
            assert(rest + none =~= rest);
            lemma_stand_apart(data, pos, plain_labels(labels), pointer);
            assert(data[p + 0] == pointer[0]);
            assert(data[p + 1] == pointer[1]);
            assert(data[p] as int % 64 * 256 + data[p + 1] == at);
            assert(name_at(data, p, len, (left + 1) as nat) == Some((rest, p + 2)));
            lemma_labels_go_on(data, pos, labels, 0, 128, rest, p + 2);
        },
    }
}

// --- text records ----------------------------------------------------------

/// A string of a text record.
pub enum Piece {
    Field { key: Seq<char>, value: Seq<char> },
    Bare { text: Seq<char> },
}

impl Piece {
    pub open spec fn text(self) -> Seq<char> {
        match self {
            Piece::Field { key, value } => key + seq!['='] + value,
            Piece::Bare { text } => text,
        }
    }

    /// Whether the string fits behind a length byte, and is cut where it says.
    pub open spec fn is_sound(self) -> bool {
        &&& encode_utf8(self.text()).len() <= 255
        &&& match self {
            Piece::Field { key, value } => !key.contains('='),
            Piece::Bare { text } => !text.contains('='),
        }
    }
}

/// The data of a text record.
pub open spec fn pieces_bytes(pieces: Seq<Piece>) -> Seq<u8>
    decreases pieces.len(),
{
    if pieces.len() == 0 {
        Seq::empty()
    } else {
        let text = encode_utf8(pieces[0].text());
        seq![text.len() as u8] + text + pieces_bytes(pieces.skip(1))
    }
}

/// The fields of a text record, in order.
pub open spec fn pieces_fields(pieces: Seq<Piece>) -> Seq<(Seq<char>, Seq<char>)>
    decreases pieces.len(),
{
    if pieces.len() == 0 {
        Seq::empty()
    } else {
        match pieces[0] {
            Piece::Field { key, value } => seq![(key, value)] + pieces_fields(pieces.skip(1)),
            Piece::Bare { text } => pieces_fields(pieces.skip(1)),
        }
    }
}

proof fn lemma_found(text: Seq<char>, from: int, at: int)
    requires
        0 <= from <= at <= text.len(),
        forall|k: int| from <= k < at ==> text[k] != '=',
        at < text.len() ==> text[at] == '=',
    ensures
        find_from(text, '=', from) == at,
    decreases at - from,
{
    if from < at {
        lemma_found(text, from + 1, at);
    }
}

proof fn lemma_piece(piece: Piece)
    requires
        piece.is_sound(),
    ensures
        pair_in(piece.text()) == match piece {
            Piece::Field { key, value } => Some((key, value)),
            Piece::Bare { text } => None,
        },
{
    let text = piece.text();
    match piece {
        Piece::Field { key, value } => {
            let n = key.len() as int;
            assert forall|k: int| 0 <= k < n implies text[k] != '=' by {
                assert(key.contains(key[k]));
            }
            assert(text[n] == '=');
            lemma_found(text, 0, n);
            assert(text.take(n) =~= key);
            assert(text.skip(n + 1) =~= value);
        },
        Piece::Bare { text: all } => {
            assert forall|k: int| 0 <= k < all.len() implies all[k] != '=' by {
                assert(all.contains(all[k]));
            }
            lemma_found(all, 0, all.len() as int);
        },
    }
}

/// A text record gives the strings that have an equals sign, cut at the first, in order.
pub proof fn law_text_records_give_their_fields(pieces: Seq<Piece>)
    requires
        forall|i: int| 0 <= i < pieces.len() ==> (#[trigger] pieces[i]).is_sound(),
    ensures
        txt_in(pieces_bytes(pieces)) == Some(pieces_fields(pieces)),
    decreases pieces.len(),
{
    if pieces.len() > 0 {
        let data = pieces_bytes(pieces);
        let text = pieces[0].text();
        let bytes = encode_utf8(text);
        let n = bytes.len() as int;
        let more = pieces.skip(1);
        assert(pieces[0].is_sound());
        assert forall|i: int| 0 <= i < more.len() implies (#[trigger] more[i]).is_sound() by {
            assert(more[i] == pieces[i + 1]);
        }
        law_text_records_give_their_fields(more);
        lemma_piece(pieces[0]);
        encode_utf8_valid_utf8(text);
        encode_utf8_decode_utf8(text);
        assert(data[0] == n);
        assert(data.subrange(1, 1 + n) =~= bytes);
        assert(data.skip(1 + n) =~= pieces_bytes(more));
    }
}

// --- records ---------------------------------------------------------------

/// What a record holds.
pub enum DataPlan {
    /// Type 12: a name.
    Pointer { target: NamePlan },
    /// Type 33: priority and weight, a port, a name.
    Service { ranks: (u16, u16), port: u16, target: NamePlan },
    /// Type 16: strings.
    Text { pieces: Seq<Piece> },
    /// Any other type, or a service record that is too short for a name.
    Other { kind: u16, bytes: Seq<u8> },
}

/// A record of a reply.
pub struct RecordPlan {
    pub owner: NamePlan,
    pub class: u16,
    pub ttl: u32,
    pub held: DataPlan,
}

impl DataPlan {
    pub open spec fn kind(self) -> u16 {
        match self {
            DataPlan::Pointer { target } => 12,
            DataPlan::Service { ranks, port, target } => 33,
            DataPlan::Text { pieces } => 16,
            DataPlan::Other { kind, bytes } => kind,
        }
    }

    pub open spec fn bytes(self) -> Seq<u8> {
        match self {
            DataPlan::Pointer { target } => target.bytes(),
            DataPlan::Service { ranks, port, target } => two_bytes(ranks.0) + two_bytes(ranks.1)
                + two_bytes(port) + target.bytes(),
            DataPlan::Text { pieces } => pieces_bytes(pieces),
            DataPlan::Other { kind, bytes } => bytes,
        }
    }

    pub open spec fn is_told(self, data: Seq<u8>) -> bool {
        &&& self.bytes().len() < 0x1_0000
        &&& match self {
            DataPlan::Pointer { target } => target.is_told(data),
            DataPlan::Service { ranks, port, target } => target.is_told(data),
            DataPlan::Text { pieces } => forall|i: int|
                0 <= i < pieces.len() ==> (#[trigger] pieces[i]).is_sound(),
            DataPlan::Other { kind, bytes } => kind != 12 && kind != 16 && (kind != 33 || bytes.len()
                < 7),
        }
    }
}

impl RecordPlan {
    pub open spec fn bytes(self) -> Seq<u8> {
        self.owner.bytes() + (two_bytes(self.held.kind()) + (two_bytes(self.class) + (four_bytes(
            self.ttl,
        ) + (two_bytes(self.held.bytes().len() as u16) + self.held.bytes()))))
    }

    pub open spec fn is_told(self, data: Seq<u8>) -> bool {
        &&& self.owner.is_told(data)
        &&& self.held.is_told(data)
    }

    /// Whether the record is of the internet's class: one, with or without the mark that
    /// asks to forget what was known.
    pub open spec fn is_ours(self) -> bool {
        self.class == 1 || self.class == 0x8001
    }

    pub open spec fn record(self) -> RecordNote {
        RecordNote {
            name: dotted(self.owner.labels()),
            kind: self.held.kind(),
            ttl: self.ttl as nat,
            target: match self.held {
                DataPlan::Pointer { target } => Some(dotted(target.labels())),
                _ => None,
            },
            port: match self.held {
                DataPlan::Service { ranks, port, target } => Some(port),
                _ => None,
            },
            txt: match self.held {
                DataPlan::Text { pieces } => Some(pieces_fields(pieces)),
                _ => None,
            },
        }
    }
}

proof fn lemma_record(data: Seq<u8>, pos: int, plan: RecordPlan)
    requires
        plan.is_told(data),
        stands_at(data, pos, plan.bytes()),
    ensures
        record_at(data, pos) == Some(
            (
                if plan.is_ours() {
                    Some(plan.record())
                } else {
                    None
                },
                pos + plan.bytes().len(),
            ),
        ),
{
    let held = plan.held.bytes();
    let size = two_bytes(held.len() as u16);
    let ttl = four_bytes(plan.ttl);
    let class = two_bytes(plan.class);
    let kind = two_bytes(plan.held.kind());
    let p = pos + plan.owner.bytes().len();
    lemma_stand_apart(
        data,
        pos,
        plan.owner.bytes(),
        kind + (class + (ttl + (size + held))),
    );
    lemma_stand_apart(data, p, kind, class + (ttl + (size + held)));
    lemma_stand_apart(data, p + 2, class, ttl + (size + held));
    lemma_stand_apart(data, p + 4, ttl, size + held);
    lemma_stand_apart(data, p + 8, size, held);
    law_names_are_read(data, pos, plan.owner);
    lemma_two_bytes(data, p, plan.held.kind());
    lemma_two_bytes(data, p + 2, plan.class);
    lemma_four_bytes(data, p + 4, plan.ttl);
    lemma_two_bytes(data, p + 8, held.len() as u16);
    let start = p + 10;
    assert(plan.bytes().len() == plan.owner.bytes().len() + 10 + held.len());
    lemma_stands_as_range(data, start, held);
    match plan.held {
        DataPlan::Pointer { target } => {
            law_names_are_read(data, start, target);
        },
        DataPlan::Service { ranks, port, target } => {
            let front = two_bytes(ranks.0) + two_bytes(ranks.1);
            lemma_stand_apart(data, start, front + two_bytes(port), target.bytes());
            lemma_stand_apart(data, start, front, two_bytes(port));
            lemma_two_bytes(data, start + 4, port);
            law_names_are_read(data, start + 6, target);
            assert(target.bytes().len() >= 1);
        },
        DataPlan::Text { pieces } => {
            law_text_records_give_their_fields(pieces);
        },
        DataPlan::Other { kind, bytes } => {},
    }
}

/// Records one after another.
pub open spec fn plans_bytes(plans: Seq<RecordPlan>) -> Seq<u8>
    decreases plans.len(),
{
    if plans.len() == 0 {
        Seq::empty()
    } else {
        plans[0].bytes() + plans_bytes(plans.skip(1))
    }
}

/// The records that are ours, in order.
pub open spec fn plans_records(plans: Seq<RecordPlan>) -> Seq<RecordNote>
    decreases plans.len(),
{
    if plans.len() == 0 {
        Seq::empty()
    } else if plans[0].is_ours() {
        seq![plans[0].record()] + plans_records(plans.skip(1))
    } else {
        plans_records(plans.skip(1))
    }
}

pub open spec fn are_told(plans: Seq<RecordPlan>, data: Seq<u8>) -> bool {
    forall|i: int| 0 <= i < plans.len() ==> (#[trigger] plans[i]).is_told(data)
}

proof fn lemma_plans_concat(front: Seq<RecordPlan>, back: Seq<RecordPlan>)
    ensures
        plans_bytes(front + back) == plans_bytes(front) + plans_bytes(back),
        plans_records(front + back) == plans_records(front) + plans_records(back),
    decreases front.len(),
{
    if front.len() == 0 {
        assert(front + back =~= back);
        assert(plans_bytes(front) + plans_bytes(back) =~= plans_bytes(back));
        assert(plans_records(front) + plans_records(back) =~= plans_records(back));
    } else {
        lemma_plans_concat(front.skip(1), back);
        assert((front + back).skip(1) =~= front.skip(1) + back);
        assert(plans_bytes(front + back) =~= plans_bytes(front) + plans_bytes(back));
        assert(plans_records(front + back) =~= plans_records(front) + plans_records(back));
    }
}

proof fn lemma_plans(data: Seq<u8>, pos: int, plans: Seq<RecordPlan>)
    requires
        are_told(plans, data),
        stands_at(data, pos, plans_bytes(plans)),
    ensures
        records_at(data, pos, plans.len()) == Some(
            (plans_records(plans), pos + plans_bytes(plans).len()),
        ),
    decreases plans.len(),
{
    if plans.len() > 0 {
        let rest = plans.skip(1);
        assert(plans[0].is_told(data));
        assert forall|i: int| 0 <= i < rest.len() implies (#[trigger] rest[i]).is_told(data) by {
            assert(rest[i] == plans[i + 1]);
        }
        lemma_stand_apart(data, pos, plans[0].bytes(), plans_bytes(rest));
        lemma_record(data, pos, plans[0]);
        lemma_plans(data, pos + plans[0].bytes().len(), rest);
    }
}

// --- replies ---------------------------------------------------------------

/// A question: a name, a type and a class.
pub struct QuestionPlan {
    pub name: NamePlan,
    pub kind: u16,
    pub class: u16,
}

impl QuestionPlan {
    pub open spec fn bytes(self) -> Seq<u8> {
        self.name.bytes() + (two_bytes(self.kind) + two_bytes(self.class))
    }
}

/// Questions one after another.
pub open spec fn questions_bytes(questions: Seq<QuestionPlan>) -> Seq<u8>
    decreases questions.len(),
{
    if questions.len() == 0 {
        Seq::empty()
    } else {
        questions[0].bytes() + questions_bytes(questions.skip(1))
    }
}

/// A reply: its flags, its questions, and the records of its three sections.
pub struct ReplyPlan {
    pub flags: (u8, u8),
    pub questions: Seq<QuestionPlan>,
    pub answers: Seq<RecordPlan>,
    pub authorities: Seq<RecordPlan>,
    pub additionals: Seq<RecordPlan>,
}

impl ReplyPlan {
    /// The header: the id 0x5452, the flags, and how many there are of each.
    pub open spec fn header(self) -> Seq<u8> {
        seq![0x54u8, 0x52u8, self.flags.0, self.flags.1] + two_bytes(self.questions.len() as u16)
            + two_bytes(self.answers.len() as u16) + two_bytes(self.authorities.len() as u16)
            + two_bytes(self.additionals.len() as u16)
    }

    /// Everything behind the header.
    pub open spec fn body(self) -> Seq<u8> {
        questions_bytes(self.questions) + (plans_bytes(self.answers) + plans_bytes(
            self.authorities,
        ) + plans_bytes(self.additionals))
    }

    pub open spec fn bytes(self) -> Seq<u8> {
        self.header() + self.body()
    }

    /// Whether the reply is a response without an error, is not too large, and its names
    /// can be told.
    pub open spec fn is_sound(self) -> bool {
        &&& self.flags.0 >= 0x80
        &&& self.flags.1 % 16 == 0
        &&& self.questions.len() <= 64
        &&& self.answers.len() + self.authorities.len() + self.additionals.len() <= 256
        &&& forall|i: int|
            0 <= i < self.questions.len() ==> (#[trigger] self.questions[i]).name.is_told(
                self.bytes(),
            )
        &&& are_told(self.answers, self.bytes())
        &&& are_told(self.authorities, self.bytes())
        &&& are_told(self.additionals, self.bytes())
    }
}

proof fn lemma_questions(data: Seq<u8>, pos: int, questions: Seq<QuestionPlan>)
    requires
        forall|i: int|
            0 <= i < questions.len() ==> (#[trigger] questions[i]).name.is_told(data),
        stands_at(data, pos, questions_bytes(questions)),
    ensures
        questions_end(data, pos, questions.len()) == Some(pos + questions_bytes(questions).len()),
    decreases questions.len(),
{
    if questions.len() > 0 {
        let first = questions[0];
        let rest = questions.skip(1);
        assert(first.name.is_told(data));
        assert forall|i: int| 0 <= i < rest.len() implies (#[trigger] rest[i]).name.is_told(
            data,
        ) by {
            assert(rest[i] == questions[i + 1]);
        }
        lemma_stand_apart(data, pos, first.bytes(), questions_bytes(rest));
        lemma_stand_apart(
            data,
            pos,
            first.name.bytes(),
            two_bytes(first.kind) + two_bytes(first.class),
        );
        law_names_are_read(data, pos, first.name);
        lemma_questions(data, pos + first.bytes().len(), rest);
    }
}

/// The body of a reply is its questions and then the records of all its sections.
proof fn lemma_body(reply: ReplyPlan)
    ensures
        ({
            let all = reply.answers + reply.authorities + reply.additionals;
            &&& reply.header().len() == 12
            &&& reply.bytes().skip(12) == reply.body()
            &&& reply.body() == questions_bytes(reply.questions) + plans_bytes(all)
            &&& plans_records(all) == plans_records(reply.answers) + plans_records(
                reply.authorities,
            ) + plans_records(reply.additionals)
        }),
{
    lemma_plans_concat(reply.answers, reply.authorities);
    lemma_plans_concat(reply.answers + reply.authorities, reply.additionals);
    assert(reply.header().len() == 12);
    assert(reply.bytes().skip(12) =~= reply.body());
}

proof fn lemma_all_told(reply: ReplyPlan, data: Seq<u8>)
    requires
        are_told(reply.answers, data),
        are_told(reply.authorities, data),
        are_told(reply.additionals, data),
    ensures
        are_told(reply.answers + reply.authorities + reply.additionals, data),
{
    let all = reply.answers + reply.authorities + reply.additionals;
    assert forall|i: int| 0 <= i < all.len() implies (#[trigger] all[i]).is_told(data) by {
        let a = reply.answers.len();
        let b = reply.authorities.len();
        if i < a {
            assert(all[i] == reply.answers[i]);
        } else if i < a + b {
            assert(all[i] == reply.authorities[i - a]);
        } else {
            assert(all[i] == reply.additionals[i - a - b]);
        }
    }
}

proof fn lemma_header(head: Seq<u8>, body: Seq<u8>, counts: (u16, u16, u16, u16))
    requires
        head.len() == 4,
    ensures
        ({
            let data = head + two_bytes(counts.0) + two_bytes(counts.1) + two_bytes(counts.2)
                + two_bytes(counts.3) + body;
            &&& big_endian(data.subrange(0, 2)) == 256 * head[0] + head[1]
            &&& big_endian(data.subrange(2, 4)) == 256 * head[2] + head[3]
            &&& big_endian(data.subrange(4, 6)) == counts.0
            &&& big_endian(data.subrange(6, 8)) == counts.1
            &&& big_endian(data.subrange(8, 10)) == counts.2
            &&& big_endian(data.subrange(10, 12)) == counts.3
        }),
{
    let data = head + two_bytes(counts.0) + two_bytes(counts.1) + two_bytes(counts.2) + two_bytes(
        counts.3,
    ) + body;
    assert(data.subrange(0, 2) =~= seq![head[0], head[1]]);
    assert(data.subrange(2, 4) =~= seq![head[2], head[3]]);
    assert(data.subrange(4, 6) =~= two_bytes(counts.0));
    assert(data.subrange(6, 8) =~= two_bytes(counts.1));
    assert(data.subrange(8, 10) =~= two_bytes(counts.2));
    assert(data.subrange(10, 12) =~= two_bytes(counts.3));
    lemma_big_endian_unfold(data.subrange(0, 2));
    lemma_big_endian_unfold(data.subrange(2, 4));
    lemma_big_endian_unfold(two_bytes(counts.0));
    lemma_big_endian_unfold(two_bytes(counts.1));
    lemma_big_endian_unfold(two_bytes(counts.2));
    lemma_big_endian_unfold(two_bytes(counts.3));
}

/// What stands behind the header is read to its end.
proof fn lemma_behind_header(reply: ReplyPlan)
    requires
        reply.is_sound(),
    ensures
        ({
            let data = reply.bytes();
            let all = reply.answers + reply.authorities + reply.additionals;
            let pos = 12 + questions_bytes(reply.questions).len() as int;
            &&& questions_end(data, 12, reply.questions.len()) == Some(pos)
            &&& records_at(data, pos, all.len()) == Some(
                (plans_records(all), pos + plans_bytes(all).len()),
            )
        }),
{
    let data = reply.bytes();
    let all = reply.answers + reply.authorities + reply.additionals;
    let body = questions_bytes(reply.questions) + plans_bytes(all);
    let pos = 12 + questions_bytes(reply.questions).len() as int;
    lemma_body(reply);
    assert(stands_at(data, 12, body)) by {
        assert forall|k: int| 0 <= k < body.len() implies data[12 + k] == #[trigger] body[k] by {
            assert(data.skip(12)[k] == body[k]);
        }
    }
    lemma_stand_apart(data, 12, questions_bytes(reply.questions), plans_bytes(all));
    lemma_questions(data, 12, reply.questions);
    lemma_all_told(reply, data);
    lemma_plans(data, pos, all);
}

proof fn lemma_packet(data: Seq<u8>, flags: (u8, u8), counts: (u16, u16, u16, u16), pos: int)
    requires
        data.len() >= 12,
        big_endian(data.subrange(0, 2)) == 0x5452,
        big_endian(data.subrange(2, 4)) == 256 * flags.0 + flags.1,
        big_endian(data.subrange(4, 6)) == counts.0,
        big_endian(data.subrange(6, 8)) == counts.1,
        big_endian(data.subrange(8, 10)) == counts.2,
        big_endian(data.subrange(10, 12)) == counts.3,
        flags.0 >= 0x80,
        flags.1 % 16 == 0,
        counts.0 <= 64,
        counts.1 + counts.2 + counts.3 <= 256,
        questions_end(data, 12, counts.0 as nat) == Some(pos),
    ensures
        packet_in(data) == records_at(data, pos, (counts.1 + counts.2 + counts.3) as nat),
{
}

/// A reply gives the records of all three of its sections in order: those of the
/// answers, of the authorities and of the additional section. Records of another class
/// are passed over.
pub proof fn law_replies_give_all_their_records(reply: ReplyPlan)
    requires
        reply.is_sound(),
    ensures
        records_in(reply.bytes()) == Some(
            plans_records(reply.answers) + plans_records(reply.authorities) + plans_records(
                reply.additionals,
            ),
        ),
{
    let head = seq![0x54u8, 0x52u8, reply.flags.0, reply.flags.1];
    let counts = (
        reply.questions.len() as u16,
        reply.answers.len() as u16,
        reply.authorities.len() as u16,
        reply.additionals.len() as u16,
    );
    let pos = 12 + questions_bytes(reply.questions).len() as int;
    lemma_body(reply);
    lemma_behind_header(reply);
    lemma_header(head, reply.body(), counts);
    lemma_packet(reply.bytes(), reply.flags, counts, pos);
}

/// In which of its sections a record stands changes nothing: two replies with the same
/// questions and the same records in the same order, however they are shared out, have
/// the same bytes behind their headers and give the same records.
pub proof fn law_sections_do_not_matter(a: ReplyPlan, b: ReplyPlan)
    requires
        a.is_sound(),
        b.is_sound(),
        a.questions == b.questions,
        a.answers + a.authorities + a.additionals == b.answers + b.authorities + b.additionals,
    ensures
        a.bytes().skip(12) == b.bytes().skip(12),
        records_in(a.bytes()) == records_in(b.bytes()),
        records_in(a.bytes()) is Some,
{
    law_replies_give_all_their_records(a);
    law_replies_give_all_their_records(b);
    lemma_body(a);
    lemma_body(b);
}

/// What is no reply to one of our queries gives nothing: another id, a query, an error,
/// more than 64 questions, or more than 256 records in all.
pub proof fn law_other_datagrams_are_refused(data: Seq<u8>)
    requires
        data.len() < 12 || data[0] != 0x54 || data[1] != 0x52 || data[2] < 0x80 || data[3] % 16
            != 0 || 256 * data[4] + data[5] > 64 || 256 * (data[6] + data[8] + data[10]) + data[7]
            + data[9] + data[11] > 256,
    ensures
        records_in(data) is None,
{
    if data.len() >= 12 {
        lemma_big_endian_unfold(data.subrange(0, 2));
        lemma_big_endian_unfold(data.subrange(2, 4));
        lemma_big_endian_unfold(data.subrange(4, 6));
        lemma_big_endian_unfold(data.subrange(6, 8));
        lemma_big_endian_unfold(data.subrange(8, 10));
        lemma_big_endian_unfold(data.subrange(10, 12));
    }
}

/// Whoever reads such a reply gets the records of all three sections, and whoever reads
/// what is no reply gets nothing.
pub proof fn law_reading_gives_all_records(
    reply: ReplyPlan,
    datagram: &[u8],
    result: Option<Vec<Record>>,
)
    requires
        call_ensures(records, (datagram,), result),
    ensures
        reply.is_sound() && datagram@ == reply.bytes() ==> (result matches Some(found)
            && record_notes(found@) == plans_records(reply.answers) + plans_records(
            reply.authorities,
        ) + plans_records(reply.additionals)),
        datagram@.len() < 12 || datagram@[0] != 0x54 || datagram@[1] != 0x52 || datagram@[2] < 0x80
            ==> result is None,
{
    if reply.is_sound() {
        law_replies_give_all_their_records(reply);
    }
    if datagram@.len() < 12 || datagram@[0] != 0x54 || datagram@[1] != 0x52 || datagram@[2]
        < 0x80 {
        law_other_datagrams_are_refused(datagram@);
    }
}

// --- queries ---------------------------------------------------------------

proof fn lemma_dotted_is_cut(labels: Seq<Seq<char>>)
    requires
        are_plain(labels),
        labels.len() > 0,
    ensures
        split_text(joined(labels, '.'), '.') == labels,
    decreases labels.len(),
{
    let last = labels.last();
    assert(!labels[labels.len() - 1].contains('.'));
    if labels.len() == 1 {
        law_texts_are_cut_at_separators(last, last, '.');
        assert(labels =~= seq![last]);
    } else {
        let front = labels.drop_last();
        assert forall|i: int| 0 <= i < front.len() implies 1 <= encode_utf8(
            #[trigger] front[i],
        ).len() <= 63 && !front[i].contains('.') by {
            assert(front[i] == labels[i]);
        }
        lemma_dotted_is_cut(front);
        law_texts_are_cut_at_separators(joined(front, '.'), last, '.');
        assert(front.push(last) =~= labels);
    }
}

proof fn lemma_labels_stand_plain(labels: Seq<Seq<char>>)
    requires
        are_plain(labels),
    ensures
        labels_bytes(labels) == plain_labels(labels),
    decreases labels.len(),
{
    if labels.len() > 0 {
        let front = labels.drop_last();
        let last = labels.last();
        let n = encode_utf8(last).len();
        assert(1 <= encode_utf8(labels[labels.len() - 1]).len() <= 63);
        assert forall|i: int| 0 <= i < front.len() implies 1 <= encode_utf8(
            #[trigger] front[i],
        ).len() <= 63 && !front[i].contains('.') by {
            assert(front[i] == labels[i]);
        }
        lemma_labels_stand_plain(front);
        lemma_plain_concat(front, seq![last]);
        assert(front + seq![last] =~= labels);
        reveal_with_fuel(plain_labels, 2);
        assert(seq![last].skip(1) =~= Seq::<Seq<char>>::empty());
        assert(plain_labels(seq![last]) =~= seq![n as u8] + encode_utf8(last));
        assert(labels_bytes(labels) =~= plain_labels(front) + plain_labels(seq![last]));
    }
}

/// A query is a header with our id and one question, which asks for the records of a type
/// that a name has, in the internet's class.
pub proof fn law_queries_ask_for_their_name(labels: Seq<Seq<char>>, kind: u16)
    requires
        are_plain(labels),
        labels.len() > 0,
    ensures
        query_bytes(dotted(labels), kind) == seq![
            0x54u8, 0x52u8, 0u8, 0u8, 0u8, 1u8, 0u8, 0u8, 0u8, 0u8, 0u8, 0u8,
        ] + (QuestionPlan { name: NamePlan::Whole { labels }, kind, class: 1 }).bytes(),
{
    lemma_dotted(labels);
    lemma_dotted_is_cut(labels);
    lemma_labels_stand_plain(labels);
    assert(query_bytes(dotted(labels), kind) =~= seq![
        0x54u8, 0x52u8, 0u8, 0u8, 0u8, 1u8, 0u8, 0u8, 0u8, 0u8, 0u8, 0u8,
    ] + (QuestionPlan { name: NamePlan::Whole { labels }, kind, class: 1 }).bytes());
}

} // verus!
