//! What naming a Mac promises: texts that a user types, advertisements of hosts, and
//! which addresses count as local.

use vstd::prelude::*;

use crate::address::dotted_text;
use crate::address::is_local_address;
use crate::address::law_dotted_text_is_unique;
use crate::connections::advertised;
use crate::connections::field_value;
use crate::connections::is_shown_name;
use crate::connections::manual_note;
use crate::connections::others;
use crate::connections::port_in;
use crate::connections::row_note;
use crate::connections::ConnectionNote;
use crate::text::byte_len;
use crate::text::decimal;
use crate::text::is_control_char;
use crate::text::is_digit;
use crate::text::is_white;
use crate::text::law_decimal_reads_back;
use crate::text::lemma_decimal_is_digits;
use crate::text::lowercase;
use crate::text::same_ignoring_case;
use crate::text::strip_back;
use crate::text::trim_back;
use crate::text::trim_front;
use crate::text::trimmed;
use crate::wire::json::Json;
use crate::wire::message_laws::lemma_lookup;

verus! {

// --- white space -----------------------------------------------------------

/// Whether a text is nothing but white space.
pub open spec fn is_blank(text: Seq<char>) -> bool {
    forall|i: int| 0 <= i < text.len() ==> is_white(#[trigger] text[i])
}

/// Whether a text neither starts nor ends in white space.
pub open spec fn is_tight(text: Seq<char>) -> bool {
    text.len() > 0 ==> !is_white(text[0]) && !is_white(text.last())
}

proof fn lemma_trim_front(before: Seq<char>, text: Seq<char>)
    requires
        is_blank(before),
        text.len() > 0 ==> !is_white(text[0]),
    ensures
        trim_front(before + text) == text,
    decreases before.len(),
{
    let all = before + text;
    if before.len() == 0 {
        assert(all =~= text);
    } else {
        let rest = before.skip(1);
        assert(is_white(before[0]));
        assert(is_blank(rest)) by {
            assert forall|i: int| 0 <= i < rest.len() implies is_white(#[trigger] rest[i]) by {
                assert(is_white(before[i + 1]));
            }
        }
        lemma_trim_front(rest, text);
        assert(all.skip(1) =~= rest + text);
    }
}

proof fn lemma_trim_back(text: Seq<char>, behind: Seq<char>)
    requires
        is_blank(behind),
        text.len() > 0 ==> !is_white(text.last()),
    ensures
        trim_back(text + behind) == text,
    decreases behind.len(),
{
    let all = text + behind;
    if behind.len() == 0 {
        assert(all =~= text);
    } else {
        let rest = behind.drop_last();
        assert(is_white(behind.last())) by {
            assert(is_white(behind[behind.len() - 1]));
        }
        assert(is_blank(rest)) by {
            assert forall|i: int| 0 <= i < rest.len() implies is_white(#[trigger] rest[i]) by {
                assert(is_white(behind[i]));
            }
        }
        lemma_trim_back(text, rest);
        assert(all.drop_last() =~= text + rest);
    }
}

/// White space around a text is trimmed, all of it and nothing else.
pub proof fn law_white_space_around_is_trimmed(
    before: Seq<char>,
    text: Seq<char>,
    behind: Seq<char>,
)
    requires
        is_blank(before),
        is_blank(behind),
        is_tight(text),
    ensures
        trimmed(before + text + behind) == text,
        is_white(' '),
        is_white('\t'),
        is_white('\n'),
        is_white('\r'),
{
    if text.len() == 0 {
        let all = before + text + behind;
        assert(is_blank(all)) by {
            assert forall|i: int| 0 <= i < all.len() implies is_white(#[trigger] all[i]) by {
                if i < before.len() {
                    assert(is_white(before[i]));
                } else {
                    assert(is_white(behind[i - before.len()]));
                }
            }
        }
        assert(all =~= all + text);
        lemma_trim_front(all, text);
    } else {
        assert(before + text + behind =~= before + (text + behind));
        lemma_trim_front(before, text + behind);
        lemma_trim_back(text, behind);
    }
}

proof fn lemma_strip(host: Seq<char>, dots: Seq<char>)
    requires
        host.len() > 0 ==> host.last() != '.',
        forall|i: int| 0 <= i < dots.len() ==> #[trigger] dots[i] == '.',
    ensures
        strip_back(host + dots, '.') == host,
    decreases dots.len(),
{
    if dots.len() == 0 {
        assert(host + dots =~= host);
    } else {
        assert(dots[dots.len() - 1] == '.');
        assert((host + dots).drop_last() =~= host + dots.drop_last());
        lemma_strip(host, dots.drop_last());
    }
}

// --- connections by hand ---------------------------------------------------

proof fn lemma_decimal_is_tight(n: nat)
    ensures
        is_tight(decimal(n)),
        decimal(n).len() > 0,
{
    lemma_decimal_is_digits(n);
    assert(is_digit(decimal(n)[0]));
    assert(is_digit(decimal(n)[decimal(n).len() - 1]));
}

/// A port is the number that a text spells, with white space around it, from 1 to 65535.
pub proof fn law_ports_are_what_was_typed(before: Seq<char>, n: nat, behind: Seq<char>)
    requires
        is_blank(before),
        is_blank(behind),
    ensures
        port_in(before + decimal(n) + behind) == if 1 <= n <= 65535 {
            Some(n as u16)
        } else {
            None
        },
{
    lemma_decimal_is_tight(n);
    law_white_space_around_is_trimmed(before, decimal(n), behind);
    lemma_decimal_is_digits(n);
    assert(is_digit(decimal(n)[0]));
    if n <= 65535 {
        law_decimal_reads_back(n, 65535);
    }
}

/// Whether a text can be the name of a host.
pub open spec fn names_a_host(host: Seq<char>) -> bool {
    &&& 0 < host.len()
    &&& byte_len(host) <= 253
    &&& host.last() != '.'
    &&& forall|i: int|
        0 <= i < host.len() ==> !is_white(#[trigger] host[i]) && host[i] != '/' && host[i] != '\\'
            && host[i] != '\0'
}

/// A host that is typed with white space around it and dots behind it, a control port
/// and a video port make a connection to that host at those ports, which is named after
/// the host and known by host and control port. The two ports must differ, and none may
/// be zero.
pub proof fn law_typed_connections_are_made(
    host: Seq<char>,
    around: (Seq<char>, Seq<char>),
    dots: Seq<char>,
    control: u16,
    video: u16,
)
    requires
        names_a_host(host),
        is_blank(around.0),
        is_blank(around.1),
        forall|i: int| 0 <= i < dots.len() ==> #[trigger] dots[i] == '.',
    ensures
        ({
            let text = around.0 + (host + dots) + around.1;
            let made = manual_note(text, decimal(control as nat), decimal(video as nat));
            if control == 0 || video == 0 || control == video {
                made is Err
            } else {
                made matches Ok(c) && {
                    &&& c.host == host
                    &&& c.name == host
                    &&& c.control_port == control
                    &&& c.video_port == Some(video)
                    &&& c.id == "manual:"@ + lowercase(host) + ":"@ + decimal(control as nat)
                }
            }
        }),
{
    let none = Seq::<char>::empty();
    let named = host + dots;
    assert(is_tight(named)) by {
        assert(named[0] == host[0]);
        assert(!is_white(host[0]));
        if dots.len() > 0 {
            assert(named.last() == dots[dots.len() - 1]);
        } else {
            assert(named.last() == host[host.len() - 1]);
        }
    }
    law_white_space_around_is_trimmed(around.0, named, around.1);
    lemma_strip(host, dots);
    lemma_decimal_is_tight(video as nat);
    law_ports_are_what_was_typed(none, control as nat, none);
    law_ports_are_what_was_typed(none, video as nat, none);
    law_white_space_around_is_trimmed(none, decimal(video as nat), none);
    assert(none + decimal(control as nat) + none =~= decimal(control as nat));
    assert(none + decimal(video as nat) + none =~= decimal(video as nat));
}

/// Without a video port the connection is made without video.
pub proof fn law_blank_video_ports_mean_no_video(host: Seq<char>, control: u16, blank: Seq<char>)
    requires
        names_a_host(host),
        is_blank(blank),
        control != 0,
    ensures
        manual_note(host, decimal(control as nat), blank) matches Ok(c) && c.host == host
            && c.control_port == control && c.video_port is None,
{
    let none = Seq::<char>::empty();
    assert(is_tight(host)) by {
        assert(!is_white(host[0]));
        assert(!is_white(host[host.len() - 1]));
    }
    law_white_space_around_is_trimmed(none, host, none);
    law_white_space_around_is_trimmed(blank, none, none);
    lemma_strip(host, none);
    law_ports_are_what_was_typed(none, control as nat, none);
    assert(none + decimal(control as nat) + none =~= decimal(control as nat));
    assert(none + host + none =~= host);
    assert(host + none =~= host);
    assert(blank + none + none =~= blank);
}

/// A text that cannot name a host makes no connection, whatever its ports.
pub proof fn law_other_texts_name_no_host(
    text: Seq<char>,
    control: Seq<char>,
    video: Seq<char>,
    i: int,
)
    requires
        is_tight(text),
        text.len() == 0 || (0 <= i < text.len() && text.last() != '.' && (is_white(text[i])
            || text[i] == '/' || text[i] == '\\' || text[i] == '\0')),
    ensures
        manual_note(text, control, video) is Err,
{
    let none = Seq::<char>::empty();
    law_white_space_around_is_trimmed(none, text, none);
    assert(none + text + none =~= text);
    lemma_strip(text, none);
    assert(text + none =~= text);
}

// --- advertisements --------------------------------------------------------

/// Whether the first field of a name has a value.
pub open spec fn is_told(
    fields: Seq<(Seq<char>, Seq<char>)>,
    name: Seq<char>,
    value: Seq<char>,
) -> bool {
    exists|i: int| 0 <= i < fields.len() && tells_at(fields, name, value, i)
}

pub open spec fn tells_at(
    fields: Seq<(Seq<char>, Seq<char>)>,
    name: Seq<char>,
    value: Seq<char>,
    i: int,
) -> bool {
    &&& fields[i] == (name, value)
    &&& forall|k: int| 0 <= k < i ==> (#[trigger] fields[k]).0 != name
}

proof fn lemma_told(
    fields: Seq<(Seq<char>, Seq<char>)>,
    name: Seq<char>,
    value: Seq<char>,
    i: int,
)
    requires
        0 <= i < fields.len(),
        tells_at(fields, name, value, i),
    ensures
        field_value(fields, name) == Some(value),
    decreases fields.len(),
{
    if i > 0 {
        let rest = fields.skip(1);
        assert(fields[0].0 != name);
        assert(tells_at(rest, name, value, i - 1)) by {
            assert(rest[i - 1] == fields[i]);
            assert forall|k: int| 0 <= k < i - 1 implies (#[trigger] rest[k]).0 != name by {
                assert(rest[k] == fields[k + 1]);
            }
        }
        lemma_told(rest, name, value, i - 1);
    }
}

proof fn lemma_untold(fields: Seq<(Seq<char>, Seq<char>)>, name: Seq<char>)
    requires
        forall|i: int| 0 <= i < fields.len() ==> (#[trigger] fields[i]).0 != name,
    ensures
        field_value(fields, name) is None,
    decreases fields.len(),
{
    if fields.len() > 0 {
        let rest = fields.skip(1);
        assert(fields[0].0 != name);
        assert forall|k: int| 0 <= k < rest.len() implies (#[trigger] rest[k]).0 != name by {
            assert(rest[k] == fields[k + 1]);
        }
        lemma_untold(rest, name);
    }
}

proof fn lemma_first_told(
    fields: Seq<(Seq<char>, Seq<char>)>,
    name: Seq<char>,
    value: Seq<char>,
)
    requires
        is_told(fields, name, value),
    ensures
        field_value(fields, name) == Some(value),
{
    let i = choose|i: int| 0 <= i < fields.len() && tells_at(fields, name, value, i);
    lemma_told(fields, name, value, i);
}

/// Whether a character is no control character.
pub open spec fn can_be_shown(c: char) -> bool {
    c as u32 >= 0x20 && !(0x7F <= c as u32 <= 0x9F)
}

proof fn lemma_shown(c: char)
    ensures
        can_be_shown(c) <==> !is_control_char(c),
{
}

/// A host whose fields tell version 1, a local address, an id, a name and a video port is
/// advertised as just that, whatever the order of its fields and whatever else they tell.
/// The video port is another than the control port, and `0` means no video.
pub proof fn law_advertisements_are_what_was_told(
    control_port: u16,
    fields: Seq<(Seq<char>, Seq<char>)>,
    host: Seq<char>,
    id: Seq<char>,
    name: Seq<char>,
    video: u16,
)
    requires
        is_told(fields, "v"@, "1"@),
        is_told(fields, "addr"@, host),
        is_told(fields, "id"@, id),
        is_told(fields, "name"@, name),
        is_told(fields, "video"@, decimal(video as nat)),
        is_local_address(host),
        control_port != 0,
        control_port != video,
        0 < id.len(),
        byte_len(id) <= 128,
        0 < name.len(),
        is_tight(name),
        forall|i: int| 0 <= i < name.len() ==> can_be_shown(#[trigger] name[i]),
    ensures
        advertised(control_port, fields) matches Some(c) && {
            &&& c.host == host
            &&& c.id == id
            &&& c.name == name
            &&& c.control_port == control_port
            &&& c.video_port == if video == 0 {
                None
            } else {
                Some(video)
            }
        },
{
    let none = Seq::<char>::empty();
    lemma_first_told(fields, "v"@, "1"@);
    lemma_first_told(fields, "addr"@, host);
    lemma_first_told(fields, "id"@, id);
    lemma_first_told(fields, "name"@, name);
    lemma_first_told(fields, "video"@, decimal(video as nat));
    law_white_space_around_is_trimmed(none, name, none);
    assert(none + name + none =~= name);
    law_ports_are_what_was_typed(none, video as nat, none);
    assert(none + decimal(video as nat) + none =~= decimal(video as nat));
    reveal_strlit("0");
    assert(decimal(0) =~= "0"@);
    lemma_decimal_is_digits(0);
    lemma_decimal_is_digits(video as nat);
    assert forall|i: int| 0 <= i < name.len() implies !is_control_char(#[trigger] name[i]) by {
        lemma_shown(name[i]);
    }
    assert(is_shown_name(name));
}

/// A host that leaves one of the fields out, or is of another version, or at an address
/// that is not local, or without an id, or with one port for both, is not advertised.
pub proof fn law_poor_advertisements_are_ignored(
    control_port: u16,
    fields: Seq<(Seq<char>, Seq<char>)>,
    name: Seq<char>,
    value: Seq<char>,
)
    requires
        ({
            ||| {
                &&& name == "v"@ || name == "addr"@ || name == "id"@ || name == "name"@ || name
                    == "video"@
                &&& forall|i: int| 0 <= i < fields.len() ==> (#[trigger] fields[i]).0 != name
            }
            ||| is_told(fields, "v"@, value) && value != "1"@
            ||| is_told(fields, "addr"@, value) && !is_local_address(value)
            ||| is_told(fields, "id"@, value) && value.len() == 0
            ||| is_told(fields, "video"@, decimal(control_port as nat))
            ||| control_port == 0
        }),
    ensures
        advertised(control_port, fields) is None,
{
    if forall|i: int| 0 <= i < fields.len() ==> (#[trigger] fields[i]).0 != name {
        lemma_untold(fields, name);
    }
    if is_told(fields, "v"@, value) {
        lemma_first_told(fields, "v"@, value);
    }
    if is_told(fields, "addr"@, value) {
        lemma_first_told(fields, "addr"@, value);
    }
    if is_told(fields, "id"@, value) {
        lemma_first_told(fields, "id"@, value);
    }
    if is_told(fields, "video"@, decimal(control_port as nat)) && control_port != 0 {
        let none = Seq::<char>::empty();
        lemma_first_told(fields, "video"@, decimal(control_port as nat));
        law_ports_are_what_was_typed(none, control_port as nat, none);
        assert(none + decimal(control_port as nat) + none =~= decimal(control_port as nat));
        reveal_strlit("0");
        lemma_decimal_is_digits(control_port as nat);
        lemma_decimal_is_digits(0);
        assert(decimal(0) =~= "0"@);
    }
}

/// The local addresses are those of the private nets 10.0.0.0/8, 172.16.0.0/12 and
/// 192.168.0.0/16, and the link-local ones of 169.254.0.0/16.
pub proof fn law_local_addresses(a: nat, b: nat, c: nat, d: nat)
    requires
        a <= 255,
        b <= 255,
        c <= 255,
        d <= 255,
    ensures
        is_local_address(
            decimal(a) + seq!['.'] + decimal(b) + seq!['.'] + decimal(c) + seq!['.'] + decimal(d),
        ) <==> a == 10 || a == 172 && b / 16 == 1 || a == 192 && b == 168 || a == 169 && b == 254,
{
    let text = dotted_text(a, b, c, d);
    if is_local_address(text) {
        let (p, q, r, s) = choose|p: nat, q: nat, r: nat, s: nat|
            p <= 255 && q <= 255 && r <= 255 && s <= 255 && crate::address::is_local_net(p, q)
                && text == #[trigger] dotted_text(p, q, r, s);
        law_dotted_text_is_unique(a, b, c, d, p, q, r, s);
    }
}

// --- the same place --------------------------------------------------------

/// Upper-case letters of a text in lower case, and the other way round, name the same
/// host; any other change does not.
pub proof fn law_case_does_not_matter(a: Seq<char>, b: Seq<char>)
    ensures
        same_ignoring_case(a, b) <==> a.len() == b.len() && forall|i: int|
            0 <= i < a.len() ==> #[trigger] a[i] == b[i] || (0x41 <= a[i] as u32 <= 0x5A && b[i]
                as u32 == a[i] as u32 + 0x20) || (0x41 <= b[i] as u32 <= 0x5A && a[i] as u32
                == b[i] as u32 + 0x20),
{
    if same_ignoring_case(a, b) {
        assert forall|i: int| 0 <= i < a.len() implies #[trigger] a[i] == b[i] || (0x41 <= a[i] as u32
            <= 0x5A && b[i] as u32 == a[i] as u32 + 0x20) || (0x41 <= b[i] as u32 <= 0x5A
            && a[i] as u32 == b[i] as u32 + 0x20) by {
            lemma_lower(a[i], b[i]);
        }
    }
    if a.len() == b.len() && forall|i: int|
        0 <= i < a.len() ==> #[trigger] a[i] == b[i] || (0x41 <= a[i] as u32 <= 0x5A && b[i] as u32
            == a[i] as u32 + 0x20) || (0x41 <= b[i] as u32 <= 0x5A && a[i] as u32 == b[i] as u32
            + 0x20) {
        assert forall|i: int| 0 <= i < a.len() implies crate::text::ascii_lower(#[trigger] a[i])
            == crate::text::ascii_lower(b[i]) by {
            lemma_lower(a[i], b[i]);
        }
    }
}

proof fn lemma_lower(x: char, y: char)
    ensures
        crate::text::ascii_lower(x) == crate::text::ascii_lower(y) <==> x == y || (0x41 <= x as u32
            <= 0x5A && y as u32 == x as u32 + 0x20) || (0x41 <= y as u32 <= 0x5A && x as u32
            == y as u32 + 0x20),
{
}

/// Two connections lead to the same place if they have the same id, or the same host and
/// the same two ports. Their names do not matter, and neither does which is first.
pub proof fn law_same_places(a: ConnectionNote, b: ConnectionNote)
    ensures
        a.same_place(b) == b.same_place(a),
        a.same_place(a),
        a.id == b.id ==> a.same_place(b),
        a.id != b.id ==> (a.same_place(b) <==> same_ignoring_case(a.host, b.host) && a.control_port
            == b.control_port && a.video_port == b.video_port),
{
    law_case_does_not_matter(a.host, b.host);
    law_case_does_not_matter(b.host, a.host);
}

/// The others of a list are those that lead elsewhere, in order.
pub proof fn law_others_lead_elsewhere(saved: Seq<ConnectionNote>, c: ConnectionNote)
    ensures
        others(saved, c) == saved.filter(|other: ConnectionNote| !other.same_place(c)),
    decreases saved.len(),
{
    reveal(Seq::filter);
    if saved.len() > 0 {
        law_others_lead_elsewhere(saved.drop_last(), c);
    }
}

// --- the file of saved connections -----------------------------------------

/// The number of a port as JSON, or null where there is none.
pub open spec fn port_json(port: Option<u16>) -> Json {
    match port {
        Some(port) => Json::Num(decimal(port as nat)),
        None => Json::Null,
    }
}

/// A saved connection stands in the file under the names of its parts.
pub proof fn law_saved_connections_have_names(c: ConnectionNote)
    ensures
        ({
            let v = c.saved_json();
            &&& v.field("id"@) == Some(Json::Str(c.id))
            &&& v.field("name"@) == Some(Json::Str(c.name))
            &&& v.field("host"@) == Some(Json::Str(c.host))
            &&& v.field("control"@) == Some(port_json(Some(c.control_port)))
            &&& v.field("video"@) == Some(port_json(c.video_port))
        }),
{
    let fields = c.saved_json()->Object_0;
    reveal_strlit("id");
    reveal_strlit("name");
    reveal_strlit("host");
    reveal_strlit("control");
    reveal_strlit("video");
    assert("id"@.len() == 2 && "name"@.len() == 4 && "host"@.len() == 4 && "control"@.len() == 7
        && "video"@.len() == 5 && "name"@[0] == 'n' && "host"@[0] == 'h');
    lemma_lookup(fields, 0);
    lemma_lookup(fields, 1);
    lemma_lookup(fields, 2);
    lemma_lookup(fields, 3);
    lemma_lookup(fields, 4);
}

/// A row of the file is the connection of its parts, under whatever else it holds: its id
/// and its name as they stand there, its host and its two ports.
pub proof fn law_rows_are_read_by_name(
    v: Json,
    id: Seq<char>,
    name: Seq<char>,
    host: Seq<char>,
    control: u16,
    video: Option<u16>,
)
    requires
        v.field("id"@) == Some(Json::Str(id)),
        v.field("name"@) == Some(Json::Str(name)),
        v.field("host"@) == Some(Json::Str(host)),
        v.field("control"@) == Some(port_json(Some(control))),
        v.field("video"@) == Some(port_json(video)),
        names_a_host(host),
        control != 0,
        video != Some(0u16),
        video != Some(control),
    ensures
        row_note(v) == Some(
            ConnectionNote { id, name, host, control_port: control, video_port: video },
        ),
{
    let none = Seq::<char>::empty();
    law_decimal_reads_back(control as nat, u64::MAX as nat);
    match video {
        Some(port) => {
            law_decimal_reads_back(port as nat, u64::MAX as nat);
            law_typed_connections_are_made(host, (none, none), none, control, port);
            assert(none + (host + none) + none =~= host);
        },
        None => {
            law_blank_video_ports_mean_no_video(host, control, none);
        },
    }
}

} // verus!
