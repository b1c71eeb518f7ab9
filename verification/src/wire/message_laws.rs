//! What the wire promises, byte by byte and field by field: whoever reads what the client
//! writes gets what was meant, and the other way round.

use vstd::prelude::*;

use crate::bytes::big_endian;
use crate::bytes::lemma_big_endian_unfold;
use crate::text::decimal;
use crate::text::decimal_int;
use crate::text::law_decimal_int_reads_back;
use crate::text::law_decimal_reads_back;
use crate::wire::control::note_in;
use crate::wire::control::ClientMessage;
use crate::wire::control::Problem;
use crate::wire::control::ResizePhase;
use crate::wire::control::ServerNote;
use crate::wire::control::Size;
use crate::wire::control::WindowKind;
use crate::wire::frame::framed;
use crate::wire::frame::next_step;
use crate::wire::frame::Step;
use crate::wire::input::InputEvent;
use crate::wire::input::MouseButton;
use crate::wire::json::lookup;
use crate::wire::json::Json;
use crate::wire::video::video_unit;
use crate::wire::video::VideoDecodeError;
use crate::wire::video::VideoUnit;

verus! {

// --- numbers ---------------------------------------------------------------

/// Bytes count from the high one to the low one.
pub proof fn law_bytes_count_from_the_high_one(b: Seq<u8>)
    ensures
        b.len() == 2 ==> big_endian(b) == 256 * b[0] + b[1],
        b.len() == 4 ==> big_endian(b) == 0x100_0000 * b[0] + 0x1_0000 * b[1] + 0x100 * b[2] + b[3],
        b.len() == 8 ==> big_endian(b) == 0x1_0000_0000 * (0x100_0000 * b[0] + 0x1_0000 * b[1]
            + 0x100 * b[2] + b[3]) + (0x100_0000 * b[4] + 0x1_0000 * b[5] + 0x100 * b[6] + b[7]),
{
    lemma_big_endian_unfold(b);
    if b.len() == 8 {
        lemma_big_endian_unfold(b.take(4));
        lemma_big_endian_unfold(b.skip(4));
    }
}

// --- client messages -------------------------------------------------------

/// A whole number that a host reads from a member of an object.
pub open spec fn reads_unsigned(v: Json, key: Seq<char>, n: nat) -> bool {
    v.field(key) matches Some(found) && found.unsigned(n) == Some(n)
}

pub open spec fn reads_signed(v: Json, key: Seq<char>, n: int) -> bool {
    v.field(key) matches Some(found) && found.signed(n, n) == Some(n)
}

pub open spec fn reads_text(v: Json, key: Seq<char>, text: Seq<char>) -> bool {
    v.field(key) == Some(Json::Str(text))
}

pub open spec fn reads_place(v: Json, x: u32, y: u32) -> bool {
    reads_unsigned(v, "x"@, x as nat) && reads_unsigned(v, "y"@, y as nat)
}

pub open spec fn reads_button(v: Json, button: MouseButton) -> bool {
    reads_text(
        v,
        "button"@,
        match button {
            MouseButton::Left => "left"@,
            MouseButton::Right => "right"@,
            MouseButton::Middle => "middle"@,
        },
    )
}

pub proof fn lemma_lookup(fields: Seq<(Seq<char>, Json)>, i: int)
    requires
        0 <= i < fields.len(),
        forall|k: int| 0 <= k < i ==> (#[trigger] fields[k]).0 != fields[i].0,
    ensures
        lookup(fields, fields[i].0) == Some(fields[i].1),
    decreases fields.len(),
{
    if i > 0 {
        let rest = fields.skip(1);
        assert(fields[0].0 != fields[i].0);
        assert(rest[i - 1] == fields[i]);
        assert forall|k: int| 0 <= k < i - 1 implies (#[trigger] rest[k]).0 != rest[i - 1].0 by {
            assert(rest[k] == fields[k + 1]);
        }
        lemma_lookup(rest, i - 1);
    }
}

proof fn lemma_event_keys()
    ensures
        "kind"@.len() == 4,
        "x"@.len() == 1 && "x"@[0] == 'x',
        "y"@.len() == 1 && "y"@[0] == 'y',
        "w"@.len() == 1 && "w"@[0] == 'w',
        "h"@.len() == 1 && "h"@[0] == 'h',
        "dx"@.len() == 2 && "dx"@[1] == 'x',
        "dy"@.len() == 2 && "dy"@[1] == 'y',
        "vk"@.len() == 2 && "vk"@[1] == 'k',
        "button"@.len() == 6,
        "type"@.len() == 4,
        "id"@.len() == 2 && "id"@[0] == 'i',
        "ts"@.len() == 2 && "ts"@[0] == 't',
        "size"@.len() == 4 && "size"@[0] == 's',
        "type"@[0] == 't',
        "phase"@.len() == 5 && "phase"@[0] == 'p',
        "event"@.len() == 5 && "event"@[0] == 'e',
{
    reveal_strlit("kind");
    reveal_strlit("x");
    reveal_strlit("y");
    reveal_strlit("w");
    reveal_strlit("h");
    reveal_strlit("dx");
    reveal_strlit("dy");
    reveal_strlit("vk");
    reveal_strlit("button");
    reveal_strlit("type");
    reveal_strlit("id");
    reveal_strlit("ts");
    reveal_strlit("size");
    reveal_strlit("phase");
    reveal_strlit("event");
}

proof fn lemma_number(n: int)
    ensures
        n >= 0 ==> Json::Num(decimal_int(n)).unsigned(n as nat) == Some(n as nat),
        Json::Num(decimal_int(n)).signed(n, n) == Some(n),
{
    law_decimal_int_reads_back(n, n, n);
    if n >= 0 {
        law_decimal_reads_back(n as nat, n as nat);
        assert(decimal_int(n) == decimal(n as nat));
    }
}

/// A host that reads an input event finds its kind, its place, its button, its lines or
/// its key under their names.
pub proof fn law_hosts_read_input_events(event: InputEvent)
    ensures
        ({
            let v = event.json();
            match event {
                InputEvent::MouseDown { x, y, button } => reads_text(v, "kind"@, "mouseDown"@)
                    && reads_place(v, x, y) && reads_button(v, button),
                InputEvent::MouseUp { x, y, button } => reads_text(v, "kind"@, "mouseUp"@)
                    && reads_place(v, x, y) && reads_button(v, button),
                InputEvent::MouseMove { x, y } => reads_text(v, "kind"@, "mouseMove"@)
                    && reads_place(v, x, y),
                InputEvent::Scroll { x, y, dx, dy } => reads_text(v, "kind"@, "scroll"@)
                    && reads_place(v, x, y) && reads_signed(v, "dx"@, dx as int) && reads_signed(
                    v,
                    "dy"@,
                    dy as int,
                ),
                InputEvent::KeyDown { vk } => reads_text(v, "kind"@, "keyDown"@) && reads_unsigned(
                    v,
                    "vk"@,
                    vk as nat,
                ),
                InputEvent::KeyUp { vk } => reads_text(v, "kind"@, "keyUp"@) && reads_unsigned(
                    v,
                    "vk"@,
                    vk as nat,
                ),
            }
        }),
{
    let fields = event.json()->Object_0;
    lemma_event_keys();
    lemma_lookup(fields, 0);
    lemma_lookup(fields, 1);
    match event {
        InputEvent::MouseDown { x, y, button } => {
            lemma_lookup(fields, 2);
            lemma_lookup(fields, 3);
            lemma_number(x as int);
            lemma_number(y as int);
        },
        InputEvent::MouseUp { x, y, button } => {
            lemma_lookup(fields, 2);
            lemma_lookup(fields, 3);
            lemma_number(x as int);
            lemma_number(y as int);
        },
        InputEvent::MouseMove { x, y } => {
            lemma_lookup(fields, 2);
            lemma_number(x as int);
            lemma_number(y as int);
        },
        InputEvent::Scroll { x, y, dx, dy } => {
            lemma_lookup(fields, 2);
            lemma_lookup(fields, 3);
            lemma_lookup(fields, 4);
            lemma_number(x as int);
            lemma_number(y as int);
            lemma_number(dx as int);
            lemma_number(dy as int);
        },
        InputEvent::KeyDown { vk } => {
            lemma_number(vk as int);
        },
        InputEvent::KeyUp { vk } => {
            lemma_number(vk as int);
        },
    }
}

pub open spec fn reads_size(v: Json, size: Size) -> bool {
    v.field("size"@) matches Some(s) && reads_unsigned(s, "w"@, size.w as nat) && reads_unsigned(
        s,
        "h"@,
        size.h as nat,
    )
}

/// A host that reads a message finds its type, the window that it is for, and what it
/// asks for under their names.
pub proof fn law_hosts_read_client_messages(message: ClientMessage)
    ensures
        ({
            let v = message.json();
            match message {
                ClientMessage::RequestResize { id, size, phase } => reads_text(
                    v,
                    "type"@,
                    "requestResize"@,
                ) && reads_unsigned(v, "id"@, id as nat) && reads_size(v, size) && reads_text(
                    v,
                    "phase"@,
                    match phase {
                        ResizePhase::Begin => "begin"@,
                        ResizePhase::Live => "live"@,
                        ResizePhase::End => "end"@,
                    },
                ),
                ClientMessage::RequestFocus { id } => reads_text(v, "type"@, "requestFocus"@)
                    && reads_unsigned(v, "id"@, id as nat),
                ClientMessage::RequestClose { id } => reads_text(v, "type"@, "requestClose"@)
                    && reads_unsigned(v, "id"@, id as nat),
                ClientMessage::Input { id, event, ts } => reads_text(v, "type"@, "input"@)
                    && reads_unsigned(v, "id"@, id as nat) && reads_unsigned(v, "ts"@, ts as nat)
                    && v.field("event"@) == Some(event.json()),
            }
        }),
{
    let fields = message.json()->Object_0;
    lemma_event_keys();
    lemma_lookup(fields, 0);
    lemma_lookup(fields, 1);
    match message {
        ClientMessage::RequestResize { id, size, phase } => {
            lemma_lookup(fields, 2);
            lemma_lookup(fields, 3);
            lemma_number(id as int);
            lemma_number(size.w as int);
            lemma_number(size.h as int);
            let inner = (fields[2].1)->Object_0;
            lemma_lookup(inner, 0);
            lemma_lookup(inner, 1);
        },
        ClientMessage::RequestFocus { id } => {
            lemma_number(id as int);
        },
        ClientMessage::RequestClose { id } => {
            lemma_number(id as int);
        },
        ClientMessage::Input { id, event, ts } => {
            lemma_lookup(fields, 2);
            lemma_lookup(fields, 3);
            lemma_number(id as int);
            lemma_number(ts as int);
        },
    }
}

// --- server messages -------------------------------------------------------

/// Only the members that a message declares count: neither their order nor what else
/// there is changes anything.
pub proof fn law_other_members_do_not_matter(a: Json, b: Json)
    requires
        forall|key: Seq<char>| #[trigger] a.field(key) == b.field(key),
    ensures
        note_in(a) == note_in(b),
{
}

/// Whether a message of a type declares a member.
pub open spec fn declares(name: Seq<char>, key: Seq<char>) -> bool {
    ||| name == "hello"@ && (key == "protocol"@ || key == "vdsSize"@)
    ||| name == "windowCreated"@ && (key == "id"@ || key == "rect"@ || key == "title"@ || key
        == "kind"@)
    ||| name == "windowMoved"@ && (key == "id"@ || key == "rect"@)
    ||| name == "windowDestroyed"@ && key == "id"@
    ||| name == "windowTitle"@ && (key == "id"@ || key == "title"@)
    ||| name == "windowFocused"@ && key == "id"@
    ||| name == "tileLayout"@ && (key == "windows"@ || key == "displaySize"@)
    ||| name == "error"@ && (key == "code"@ || key == "message"@)
}

proof fn lemma_types_differ()
    ensures
        "hello"@.len() == 5 && "hello"@[0] == 'h',
        "error"@.len() == 5 && "error"@[0] == 'e',
        "windowCreated"@.len() == 13 && "windowCreated"@[6] == 'C',
        "windowFocused"@.len() == 13 && "windowFocused"@[6] == 'F',
        "windowMoved"@.len() == 11 && "windowMoved"@[6] == 'M',
        "windowTitle"@.len() == 11 && "windowTitle"@[6] == 'T',
        "windowDestroyed"@.len() == 15,
        "tileLayout"@.len() == 10,
{
    reveal_strlit("hello");
    reveal_strlit("error");
    reveal_strlit("windowCreated");
    reveal_strlit("windowFocused");
    reveal_strlit("windowMoved");
    reveal_strlit("windowTitle");
    reveal_strlit("windowDestroyed");
    reveal_strlit("tileLayout");
}

/// A message that lacks a member that its type declares is refused, and so is one without
/// a type.
pub proof fn law_messages_must_be_whole(v: Json, name: Seq<char>, key: Seq<char>)
    requires
        v.field("type"@) is None || (v.field("type"@) == Some(Json::Str(name)) && declares(name, key)
            && v.field(key) is None),
    ensures
        note_in(v) is Err,
{
    lemma_types_differ();
}

/// A message of no known type is refused by name.
pub proof fn law_unknown_messages_are_refused(v: Json, name: Seq<char>)
    requires
        v.field("type"@) == Some(Json::Str(name)),
        forall|key: Seq<char>| !declares(name, key),
    ensures
        note_in(v) == Err::<ServerNote, Problem>(
            Problem::Shape("unknown control message type `"@ + name + "`"@),
        ),
{
    assert(!declares(name, "protocol"@));
    assert(!declares(name, "id"@));
    assert(!declares(name, "windows"@));
    assert(!declares(name, "code"@));
}

/// Menus, sheets and popovers are told apart by their names; every other name is that of
/// a normal window.
pub proof fn law_kinds_have_names(name: Seq<char>)
    ensures
        WindowKind::named(name) == WindowKind::Menu <==> name == "menu"@,
        WindowKind::named(name) == WindowKind::Sheet <==> name == "sheet"@,
        WindowKind::named(name) == WindowKind::Popover <==> name == "popover"@,
{
    reveal_strlit("menu");
    reveal_strlit("sheet");
    reveal_strlit("popover");
    assert("menu"@.len() == 4 && "sheet"@.len() == 5 && "popover"@.len() == 7);
    if name =~= "sheet"@ {
        assert(name == "sheet"@);
    }
    if name =~= "popover"@ {
        assert(name == "popover"@);
    }
}

// --- frames on the wire ----------------------------------------------------

/// The length before a payload, in four bytes, the high one first.
pub open spec fn length_prefix(n: nat) -> Seq<u8> {
    seq![
        (n / 0x100_0000) as u8,
        (n / 0x1_0000 % 0x100) as u8,
        (n / 0x100 % 0x100) as u8,
        (n % 0x100) as u8,
    ]
}

/// A payload goes over the wire behind its length. What stands there is taken off as it
/// was put on, what follows stays, nothing comes of less, and one that is too long is
/// refused.
pub proof fn law_payloads_stand_behind_their_length(
    payload: Seq<u8>,
    more: Seq<u8>,
    max: nat,
    cut: int,
)
    requires
        payload.len() < 0x1_0000_0000,
        0 <= cut < payload.len() + 4,
    ensures
        framed(payload) == length_prefix(payload.len()) + payload,
        payload.len() <= max ==> next_step(length_prefix(payload.len()) + payload + more, max)
            == (Step::Complete { payload, rest: more }),
        payload.len() <= max ==> next_step(
            (length_prefix(payload.len()) + payload).take(cut),
            max,
        ) == Step::Incomplete,
        payload.len() > max ==> next_step(length_prefix(payload.len()) + payload + more, max)
            == (Step::Oversized { claimed: payload.len() }),
{
    let n = payload.len();
    let prefix = length_prefix(n);
    let all = prefix + payload + more;
    let part = (prefix + payload).take(cut);
    assert(framed(payload) =~= prefix + payload);
    assert(all.take(4) =~= prefix);
    lemma_big_endian_unfold(prefix);
    assert(all.subrange(4, 4 + n as int) =~= payload);
    assert(all.skip(4 + n as int) =~= more);
    if cut >= 4 {
        assert(part.take(4) =~= prefix);
    }
}

/// Video is told apart by its first byte. A 1 is followed by a configuration. A 2 is
/// followed by a number and a time of eight bytes each, the flags, of which the lowest
/// marks a keyframe, and the frame.
pub proof fn law_video_is_what_was_sent(
    number: Seq<u8>,
    time: Seq<u8>,
    flags: u8,
    data: Seq<u8>,
)
    requires
        number.len() == 8,
        time.len() == 8,
    ensures
        video_unit(seq![1u8] + data) == Ok::<VideoUnit, VideoDecodeError>(
            VideoUnit::Config { hvcc: data },
        ),
        video_unit(seq![2u8] + number + time + seq![flags] + data) == Ok::<
            VideoUnit,
            VideoDecodeError,
        >(
            VideoUnit::Frame {
                seq: big_endian(number),
                pts_micros: big_endian(time),
                keyframe: flags % 2 == 1,
                data,
            },
        ),
{
    let payload = seq![2u8] + number + time + seq![flags] + data;
    assert(payload.subrange(1, 9) =~= number);
    assert(payload.subrange(9, 17) =~= time);
    assert(payload[17] == flags);
    assert(payload.skip(18) =~= data);
    assert((seq![1u8] + data).skip(1) =~= data);
}

/// Video without a first byte, with another one, or without a whole header is refused,
/// each for its own reason.
pub proof fn law_other_video_is_refused(payload: Seq<u8>)
    requires
        payload.len() <= usize::MAX,
    ensures
        payload.len() == 0 ==> video_unit(payload) == Err::<VideoUnit, VideoDecodeError>(
            VideoDecodeError::Empty,
        ),
        payload.len() > 0 && payload[0] != 1 && payload[0] != 2 ==> video_unit(payload) == Err::<
            VideoUnit,
            VideoDecodeError,
        >(VideoDecodeError::UnknownTag(payload[0])),
        0 < payload.len() < 18 && payload[0] == 2 ==> video_unit(payload) == Err::<
            VideoUnit,
            VideoDecodeError,
        >(VideoDecodeError::TruncatedFrame(payload.len() as usize)),
{
}

} // verus!
