//! What the lists of connections promise: nothing listed twice, and a saved list
//! that loads back.

use vstd::prelude::*;

use crate::address::dotted_text;
use crate::address::is_local_address;
use crate::connections::advertised;
use crate::connections::bad_host_char;
use crate::connections::file_json;
use crate::connections::host_in;
use crate::connections::is_host;
use crate::connections::leads_there;
use crate::connections::loaded;
use crate::connections::manual_note;
use crate::connections::others;
use crate::connections::port_in;
use crate::connections::remembered;
use crate::connections::row_note;
use crate::connections::row_notes;
use crate::connections::without_repeats;
use crate::connections::ConnectionNote;
use crate::connections::MAX_FILE_LEN;
use crate::connections::MAX_SAVED;
use crate::text::byte_len;
use crate::text::decimal;
use crate::text::is_digit;
use crate::text::law_decimal_reads_back;
use crate::text::lemma_decimal_is_digits;
use crate::text::lemma_trimmed_stays;
use crate::text::strip_back;
use crate::text::trimmed;
use crate::wire::input::number_json;
use crate::wire::json::json_text;
use crate::wire::json::lookup;
use crate::wire::json::Json;
use crate::wire::json_laws::law_written_values_read_back;
use crate::wire::json_laws::lemma_decimal_is_number;
use crate::wire::json_laws::numbers_are_sound;

verus! {

// --- remembering -----------------------------------------------------------

proof fn lemma_others(saved: Seq<ConnectionNote>, c: ConnectionNote)
    ensures
        others(saved, c).len() <= saved.len(),
        forall|i: int|
            0 <= i < others(saved, c).len() ==> !(#[trigger] others(saved, c)[i]).same_place(c)
                && saved.contains(others(saved, c)[i]),
        forall|i: int|
            0 <= i < saved.len() && !(#[trigger] saved[i]).same_place(c) ==> others(
                saved,
                c,
            ).contains(saved[i]),
    decreases saved.len(),
{
    if saved.len() > 0 {
        let front = saved.drop_last();
        lemma_others(front, c);
        let before = others(front, c);
        let all = others(saved, c);
        assert forall|i: int| 0 <= i < all.len() implies !(#[trigger] all[i]).same_place(c)
            && saved.contains(all[i]) by {
            if i < before.len() {
                assert(before[i] == all[i]);
                let k = choose|k: int| 0 <= k < front.len() && front[k] == before[i];
                assert(saved[k] == all[i]);
            } else {
                assert(saved[saved.len() - 1] == all[i]);
            }
        }
        assert forall|i: int|
            0 <= i < saved.len() && !(#[trigger] saved[i]).same_place(c) implies all.contains(
            saved[i],
        ) by {
            if i < front.len() {
                assert(front[i] == saved[i]);
                let k = choose|k: int| 0 <= k < before.len() && before[k] == front[i];
                assert(all[k] == saved[i]);
            } else {
                assert(all[all.len() - 1] == saved[i]);
            }
        }
    }
}

/// A remembered connection comes first, nothing else in the list leads where it
/// leads, everything else was saved before, and the list stays short.
pub proof fn law_remembered_comes_first(saved: Seq<ConnectionNote>, c: ConnectionNote)
    ensures
        remembered(saved, c).len() <= MAX_SAVED,
        remembered(saved, c).len() > 0,
        remembered(saved, c)[0] == c,
        forall|i: int|
            1 <= i < remembered(saved, c).len() ==> !(#[trigger] remembered(saved, c)[i]).same_place(
                c,
            ) && saved.contains(remembered(saved, c)[i]),
{
    lemma_others(saved, c);
    let list = seq![c] + others(saved, c);
    assert forall|i: int| 1 <= i < remembered(saved, c).len() implies !(
    #[trigger] remembered(saved, c)[i]).same_place(c) && saved.contains(
        remembered(saved, c)[i],
    ) by {
        assert(remembered(saved, c)[i] == list[i]);
        assert(list[i] == others(saved, c)[i - 1]);
    }
}

/// Where nothing leads where `c` leads, all are others.
proof fn lemma_all_others(list: Seq<ConnectionNote>, c: ConnectionNote)
    requires
        forall|i: int| 0 <= i < list.len() ==> !(#[trigger] list[i]).same_place(c),
    ensures
        others(list, c) == list,
    decreases list.len(),
{
    if list.len() > 0 {
        let front = list.drop_last();
        assert forall|i: int| 0 <= i < front.len() implies !(#[trigger] front[i]).same_place(c) by {
            assert(front[i] == list[i]);
        }
        lemma_all_others(front, c);
        assert(list[list.len() - 1] == list.last());
        assert(front.push(list.last()) =~= list);
    } else {
        assert(others(list, c) =~= list);
    }
}

/// In front of the others, `c` itself is no other.
proof fn lemma_itself_is_no_other(rest: Seq<ConnectionNote>, c: ConnectionNote)
    ensures
        others(seq![c] + rest, c) == others(rest, c),
    decreases rest.len(),
{
    let list = seq![c] + rest;
    if rest.len() > 0 {
        lemma_itself_is_no_other(rest.drop_last(), c);
        assert(list.drop_last() =~= seq![c] + rest.drop_last());
        assert(list.last() == rest.last());
    } else {
        assert(rest =~= Seq::<ConnectionNote>::empty());
        assert(list.drop_last() =~= rest);
        assert(list.last() == c);
        assert(others(rest, c) =~= rest);
    }
}

/// Remembering a connection twice is remembering it once.
pub proof fn law_remembering_again_changes_nothing(saved: Seq<ConnectionNote>, c: ConnectionNote)
    ensures
        remembered(remembered(saved, c), c) == remembered(saved, c),
{
    let once = remembered(saved, c);
    law_remembered_comes_first(saved, c);
    let rest = once.skip(1);
    assert(once =~= seq![c] + rest);
    assert forall|i: int| 0 <= i < rest.len() implies !(#[trigger] rest[i]).same_place(c) by {
        assert(rest[i] == once[i + 1]);
    }
    lemma_itself_is_no_other(rest, c);
    lemma_all_others(rest, c);
}

/// Nothing that leads elsewhere is forgotten while the list has room for it.
pub proof fn law_remembering_keeps_the_others(
    saved: Seq<ConnectionNote>,
    c: ConnectionNote,
    kept: ConnectionNote,
)
    requires
        saved.len() < MAX_SAVED,
        saved.contains(kept),
        !kept.same_place(c),
    ensures
        remembered(saved, c).contains(kept),
{
    lemma_others(saved, c);
    let k = choose|k: int| 0 <= k < saved.len() && saved[k] == kept;
    assert(others(saved, c).contains(saved[k]));
    let m = choose|m: int| 0 <= m < others(saved, c).len() && others(saved, c)[m] == kept;
    assert(remembered(saved, c)[m + 1] == kept);
}

// --- listing ---------------------------------------------------------------

/// No row leads where an earlier row leads.
pub open spec fn rows_are_distinct(rows: Seq<ConnectionNote>) -> bool {
    forall|i: int, j: int|
        0 <= i < j < rows.len() ==> !(#[trigger] rows[i]).same_place(#[trigger] rows[j])
}

/// The rows are distinct, every row was listed, and everything listed has a row that
/// leads there.
pub proof fn law_rows_are_distinct_and_complete(list: Seq<ConnectionNote>)
    ensures
        rows_are_distinct(without_repeats(list)),
        forall|i: int|
            0 <= i < without_repeats(list).len() ==> list.contains(
                #[trigger] without_repeats(list)[i],
            ),
        forall|i: int|
            0 <= i < list.len() ==> leads_there(without_repeats(list), #[trigger] list[i]),
    decreases list.len(),
{
    if list.len() > 0 {
        let front = list.drop_last();
        law_rows_are_distinct_and_complete(front);
        let before = without_repeats(front);
        let rows = without_repeats(list);
        let last = list.last();
        assert forall|i: int, j: int| 0 <= i < j < rows.len() implies !(
        #[trigger] rows[i]).same_place(#[trigger] rows[j]) by {
            assert(rows[i] == before[i]);
            if j < before.len() {
                assert(rows[j] == before[j]);
            } else {
                assert(!leads_there(before, last));
            }
        }
        assert forall|i: int| 0 <= i < rows.len() implies list.contains(#[trigger] rows[i]) by {
            if i < before.len() {
                assert(rows[i] == before[i]);
                let k = choose|k: int| 0 <= k < front.len() && front[k] == before[i];
                assert(list[k] == rows[i]);
            } else {
                assert(list[list.len() - 1] == rows[i]);
            }
        }
        assert forall|i: int| 0 <= i < list.len() implies leads_there(rows, #[trigger] list[i]) by {
            if i < front.len() {
                assert(front[i] == list[i]);
                let k = choose|k: int|
                    0 <= k < before.len() && (#[trigger] before[k]).same_place(front[i]);
                assert(rows[k] == before[k]);
            } else if leads_there(before, last) {
                let k = choose|k: int|
                    0 <= k < before.len() && (#[trigger] before[k]).same_place(last);
                assert(rows[k] == before[k]);
            } else {
                assert(rows[rows.len() - 1] == last);
            }
        }
    }
}

/// What was found nearby comes first, whatever is saved: discovery supplies the
/// current name and address, and saved endpoints only fill the gaps.
pub proof fn law_nearby_comes_first(nearby: Seq<ConnectionNote>, saved: Seq<ConnectionNote>)
    ensures
        without_repeats(nearby).is_prefix_of(without_repeats(nearby + saved)),
    decreases saved.len(),
{
    if saved.len() == 0 {
        assert(nearby + saved =~= nearby);
    } else {
        law_nearby_comes_first(nearby, saved.drop_last());
        assert((nearby + saved).drop_last() =~= nearby + saved.drop_last());
    }
}

// --- sound connections -----------------------------------------------------

/// A connection that can be written down and typed in again.
pub open spec fn is_sound(c: ConnectionNote) -> bool {
    &&& is_host(c.host)
    &&& c.host.last() != '.'
    &&& c.control_port != 0
    &&& c.video_port != Some(0u16)
    &&& c.video_port != Some(c.control_port)
}

proof fn lemma_strip_back(text: Seq<char>, c: char)
    ensures
        strip_back(text, c).len() > 0 ==> strip_back(text, c).last() != c,
    decreases text.len(),
{
    if text.len() > 0 && text.last() == c {
        lemma_strip_back(text.drop_last(), c);
    }
}

proof fn lemma_sound_host_stays(host: Seq<char>)
    requires
        is_host(host),
        host.last() != '.',
    ensures
        host_in(host) == host,
{
    assert(!bad_host_char(host[0]));
    assert(!bad_host_char(host[host.len() - 1]));
    lemma_trimmed_stays(host);
}

proof fn lemma_port_reads_back(port: u16)
    requires
        port != 0,
    ensures
        port_in(decimal(port as nat)) == Some(port),
        trimmed(decimal(port as nat)).len() > 0,
{
    lemma_decimal_is_digits(port as nat);
    let text = decimal(port as nat);
    assert(is_digit(text[0]));
    assert(is_digit(text[text.len() - 1]));
    lemma_trimmed_stays(text);
    law_decimal_reads_back(port as nat, 65535);
}

/// A connection that was typed in is sound.
pub proof fn law_manual_connections_are_sound(
    host: Seq<char>,
    control: Seq<char>,
    video: Seq<char>,
)
    ensures
        manual_note(host, control, video) matches Ok(c) ==> is_sound(c),
{
    lemma_strip_back(trimmed(host), '.');
}

proof fn lemma_ascii_byte_len(text: Seq<char>)
    requires
        forall|i: int| 0 <= i < text.len() ==> (#[trigger] text[i]) as u32 <= 0x7f,
    ensures
        byte_len(text) == text.len(),
    decreases text.len(),
{
    if text.len() > 0 {
        let front = text.drop_last();
        assert forall|i: int| 0 <= i < front.len() implies (#[trigger] front[i]) as u32 <= 0x7f by {
            assert(front[i] == text[i]);
        }
        lemma_ascii_byte_len(front);
        assert(text[text.len() - 1] as u32 <= 0x7f);
    }
}

proof fn lemma_octet_len(n: nat)
    requires
        n <= 255,
    ensures
        decimal(n).len() <= 3,
{
    reveal_with_fuel(decimal, 4);
}

proof fn lemma_dotted_text_is_host(a: nat, b: nat, c: nat, d: nat)
    requires
        a <= 255,
        b <= 255,
        c <= 255,
        d <= 255,
    ensures
        is_host(dotted_text(a, b, c, d)),
        dotted_text(a, b, c, d).last() != '.',
{
    let text = dotted_text(a, b, c, d);
    lemma_decimal_is_digits(a);
    lemma_decimal_is_digits(b);
    lemma_decimal_is_digits(c);
    lemma_decimal_is_digits(d);
    lemma_octet_len(a);
    lemma_octet_len(b);
    lemma_octet_len(c);
    lemma_octet_len(d);
    let i = decimal(a).len() as int;
    let j = i + 1 + decimal(b).len();
    let k = j + 1 + decimal(c).len();
    assert forall|m: int| 0 <= m < text.len() implies is_digit(#[trigger] text[m]) || text[m]
        == '.' by {
        if m < i {
            assert(text[m] == decimal(a)[m]);
        } else if i < m < j {
            assert(text[m] == decimal(b)[m - i - 1]);
        } else if j < m < k {
            assert(text[m] == decimal(c)[m - j - 1]);
        } else if k < m {
            assert(text[m] == decimal(d)[m - k - 1]);
        }
    }
    assert(text.last() == decimal(d)[decimal(d).len() - 1]);
    assert(is_digit(decimal(d)[decimal(d).len() - 1]));
    lemma_ascii_byte_len(text);
}

/// A connection that a service advertised is sound.
pub proof fn law_advertised_connections_are_sound(
    control_port: u16,
    fields: Seq<(Seq<char>, Seq<char>)>,
)
    ensures
        advertised(control_port, fields) matches Some(c) ==> is_sound(c) && is_local_address(
            c.host,
        ),
{
    if let Some(c) = advertised(control_port, fields) {
        let (p, q, r, s) = choose|p: nat, q: nat, r: nat, s: nat|
            p <= 255 && q <= 255 && r <= 255 && s <= 255 && crate::address::is_local_net(p, q)
                && c.host == #[trigger] dotted_text(p, q, r, s);
        lemma_dotted_text_is_host(p, q, r, s);
    }
}

// --- the connections file --------------------------------------------------

proof fn lemma_keys_differ()
    ensures
        "id"@ != "name"@ && "id"@ != "host"@ && "id"@ != "control"@ && "id"@ != "video"@,
        "name"@ != "host"@ && "name"@ != "control"@ && "name"@ != "video"@,
        "host"@ != "control"@ && "host"@ != "video"@ && "control"@ != "video"@,
{
    reveal_strlit("id");
    reveal_strlit("name");
    reveal_strlit("host");
    reveal_strlit("control");
    reveal_strlit("video");
    assert("id"@.len() == 2);
    assert("name"@.len() == 4);
    assert("host"@.len() == 4);
    assert("control"@.len() == 7);
    assert("video"@.len() == 5);
    assert("name"@[0] == 'n');
    assert("host"@[0] == 'h');
}

proof fn lemma_lookup_at(fields: Seq<(Seq<char>, Json)>, key: Seq<char>, k: int)
    requires
        0 <= k < fields.len(),
        fields[k].0 == key,
        forall|i: int| 0 <= i < k ==> (#[trigger] fields[i]).0 != key,
    ensures
        lookup(fields, key) == Some(fields[k].1),
    decreases k,
{
    if k > 0 {
        assert(fields[0].0 != key);
        let rest = fields.skip(1);
        assert forall|i: int| 0 <= i < k - 1 implies (#[trigger] rest[i]).0 != key by {
            assert(rest[i] == fields[i + 1]);
        }
        lemma_lookup_at(rest, key, k - 1);
    }
}

proof fn lemma_number_reads_back(n: nat)
    requires
        n <= u64::MAX,
    ensures
        number_json(n as int).unsigned(u64::MAX as nat) == Some(n),
{
    law_decimal_reads_back(n, u64::MAX as nat);
}

proof fn lemma_row_reads_back(c: ConnectionNote)
    requires
        is_sound(c),
    ensures
        row_note(c.saved_json()) == Some(c),
{
    lemma_keys_differ();
    let fields = c.saved_json()->Object_0;
    lemma_lookup_at(fields, "id"@, 0);
    lemma_lookup_at(fields, "name"@, 1);
    lemma_lookup_at(fields, "host"@, 2);
    lemma_lookup_at(fields, "control"@, 3);
    lemma_lookup_at(fields, "video"@, 4);
    lemma_number_reads_back(c.control_port as nat);
    lemma_port_reads_back(c.control_port);
    lemma_sound_host_stays(c.host);
    match c.video_port {
        Some(port) => {
            lemma_number_reads_back(port as nat);
            lemma_port_reads_back(port);
        },
        None => {
            lemma_trimmed_stays(Seq::<char>::empty());
        },
    }
}

proof fn lemma_rows_read_back(saved: Seq<ConnectionNote>, rows: Seq<Json>)
    requires
        forall|i: int| 0 <= i < saved.len() ==> is_sound(#[trigger] saved[i]),
        rows.len() == saved.len(),
        forall|i: int| 0 <= i < saved.len() ==> #[trigger] rows[i] == saved[i].saved_json(),
    ensures
        row_notes(rows) == saved,
    decreases saved.len(),
{
    if saved.len() > 0 {
        let front = saved.drop_last();
        assert forall|i: int| 0 <= i < front.len() implies is_sound(#[trigger] front[i]) by {
            assert(front[i] == saved[i]);
        }
        lemma_rows_read_back(front, rows.drop_last());
        assert(is_sound(saved[saved.len() - 1]));
        assert(rows[saved.len() - 1] == saved[saved.len() - 1].saved_json());
        lemma_row_reads_back(saved.last());
        assert(front.push(saved.last()) =~= saved);
    } else {
        assert(row_notes(rows) =~= saved);
    }
}

proof fn lemma_saved_json_is_sound(c: ConnectionNote)
    ensures
        numbers_are_sound(c.saved_json()),
{
    let fields = c.saved_json()->Object_0;
    lemma_decimal_is_number(c.control_port as int);
    if let Some(port) = c.video_port {
        lemma_decimal_is_number(port as int);
    }
    assert forall|i: int| 0 <= i < fields.len() implies numbers_are_sound(
        (#[trigger] fields[i]).1,
    ) by {
        if i == 3 {
            assert(numbers_are_sound(number_json(c.control_port as int)));
        } else if i == 4 {
            assert(fields[i].1 == match c.video_port {
                Some(port) => number_json(port as int),
                None => Json::Null,
            });
        }
    }
}

/// A saved list of sound connections loads back as it was saved, as long as it keeps
/// to the limits on its length and on the size of the file.
pub proof fn law_saved_connections_load_back(saved: Seq<ConnectionNote>)
    requires
        saved.len() <= MAX_SAVED,
        forall|i: int| 0 <= i < saved.len() ==> is_sound(#[trigger] saved[i]),
        byte_len(json_text(file_json(saved))) <= MAX_FILE_LEN,
    ensures
        loaded(json_text(file_json(saved))) == Ok::<Seq<ConnectionNote>, Seq<char>>(saved),
{
    let rows = file_json(saved)->Array_0;
    assert forall|i: int| 0 <= i < rows.len() implies numbers_are_sound(#[trigger] rows[i]) by {
        lemma_saved_json_is_sound(saved[i]);
    }
    law_written_values_read_back(file_json(saved));
    lemma_rows_read_back(saved, rows);
}

} // verus!
