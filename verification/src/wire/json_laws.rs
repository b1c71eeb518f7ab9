//! What reading and writing JSON promise together: a written value reads back.

use vstd::prelude::*;

use crate::text::decimal;
use crate::text::decimal_int;
use crate::text::is_digit;
use crate::text::is_white;
use crate::text::lemma_byte_len_at_least;
use crate::text::lemma_decimal_is_digits;
use crate::wire::json::char_at;
use crate::wire::json::document;
use crate::wire::json::elements_at;
use crate::wire::json::escape_at;
use crate::wire::json::escaped;
use crate::wire::json::escaped_body;
use crate::wire::json::escaped_char;
use crate::wire::json::fields_text;
use crate::wire::json::hex4_at;
use crate::wire::json::hex_char;
use crate::wire::json::hex_value;
use crate::wire::json::is_space;
use crate::wire::json::items_text;
use crate::wire::json::json_text;
use crate::wire::json::lemma_skip_digits;
use crate::wire::json::lemma_skip_spaces;
use crate::wire::json::members_at;
use crate::wire::json::number_end;
use crate::wire::json::prepend;
use crate::wire::json::skip_digits;
use crate::wire::json::skip_spaces;
use crate::wire::json::string_at;
use crate::wire::json::value_at;
use crate::wire::json::word_at;
use crate::wire::json::Fault;
use crate::wire::json::Json;

verus! {

/// Whether `text` is a whole JSON number.
pub open spec fn is_number(text: Seq<char>) -> bool {
    &&& text.len() > 0
    &&& text[0] == '-' || is_digit(text[0])
    &&& number_end(text, 0) == text.len()
}

/// Whether every number in a value is spelled as JSON spells numbers.
pub open spec fn numbers_are_sound(value: Json) -> bool
    decreases value,
{
    match value {
        Json::Num(text) => is_number(text),
        Json::Array(items) => forall|i: int|
            0 <= i < items.len() ==> numbers_are_sound(#[trigger] items[i]),
        Json::Object(fields) => forall|i: int|
            0 <= i < fields.len() ==> numbers_are_sound((#[trigger] fields[i]).1),
        _ => true,
    }
}

/// `part` stands in `text` at index `i`.
pub open spec fn occurs(text: Seq<char>, i: int, part: Seq<char>) -> bool {
    &&& 0 <= i
    &&& i + part.len() <= text.len()
    &&& forall|k: int| 0 <= k < part.len() ==> text[i + k] == #[trigger] part[k]
}

/// Nothing at `i` can belong to a value that ends there.
pub open spec fn ends_value(text: Seq<char>, i: int) -> bool {
    ||| i == text.len()
    ||| 0 <= i < text.len() && (text[i] == ',' || text[i] == ']' || text[i] == '}' || is_space(
        text[i],
    ))
}

pub proof fn lemma_occurs_concat(text: Seq<char>, i: int, a: Seq<char>, b: Seq<char>)
    requires
        occurs(text, i, a + b),
    ensures
        occurs(text, i, a),
        occurs(text, i + a.len(), b),
{
    assert forall|k: int| 0 <= k < a.len() implies text[i + k] == #[trigger] a[k] by {
        assert((a + b)[k] == a[k]);
    }
    assert forall|k: int| 0 <= k < b.len() implies text[i + a.len() + k] == #[trigger] b[k] by {
        assert((a + b)[a.len() + k] == b[k]);
    }
}

// --- numbers ---------------------------------------------------------------

proof fn lemma_digits_occur(text: Seq<char>, i: int, part: Seq<char>, k: int)
    requires
        occurs(text, i, part),
        ends_value(text, i + part.len()),
        0 <= k <= part.len(),
    ensures
        skip_digits(text, i + k) == i + skip_digits(part, k),
    decreases part.len() - k,
{
    if k < part.len() && is_digit(part[k]) {
        lemma_digits_occur(text, i, part, k + 1);
    }
}

pub proof fn lemma_number_occurs(text: Seq<char>, i: int, part: Seq<char>)
    requires
        occurs(text, i, part),
        ends_value(text, i + part.len()),
        is_number(part),
    ensures
        number_end(text, i) == i + part.len(),
{
    let sign = if char_at(part, 0) == Some('-') {
        1int
    } else {
        0int
    };
    lemma_digits_occur(text, i, part, sign);
    lemma_skip_digits(part, sign);
    let whole = skip_digits(part, sign);
    if whole < part.len() {
        lemma_digits_occur(text, i, part, whole + 1);
        lemma_skip_digits(part, whole + 1);
    }
    let fraction = if char_at(part, whole) == Some('.') {
        skip_digits(part, whole + 1)
    } else {
        whole
    };
    if fraction < part.len() {
        lemma_digits_occur(text, i, part, fraction + 1);
        if fraction + 1 < part.len() {
            lemma_digits_occur(text, i, part, fraction + 2);
        }
    }
}

proof fn lemma_digits_cut(text: Seq<char>, i: int, end: int, k: int)
    requires
        0 <= i <= k <= end <= text.len(),
        skip_digits(text, k) <= end,
    ensures
        skip_digits(text.subrange(i, end), k - i) == skip_digits(text, k) - i,
    decreases end - k,
{
    lemma_skip_digits(text, k + 1);
    if k < end && is_digit(text[k]) {
        lemma_digits_cut(text, i, end, k + 1);
    }
}

proof fn lemma_number_cut(text: Seq<char>, i: int)
    requires
        0 <= i < text.len(),
        text[i] == '-' || is_digit(text[i]),
    ensures
        i < number_end(text, i) <= text.len(),
        is_number(text.subrange(i, number_end(text, i))),
{
    let sign = if char_at(text, i) == Some('-') {
        i + 1
    } else {
        i
    };
    lemma_skip_digits(text, sign);
    let whole = skip_digits(text, sign);
    lemma_skip_digits(text, whole + 1);
    let fraction = if char_at(text, whole) == Some('.') {
        skip_digits(text, whole + 1)
    } else {
        whole
    };
    lemma_skip_digits(text, fraction + 1);
    lemma_skip_digits(text, fraction + 2);
    lemma_skip_digits(text, i + 1);
    let end = number_end(text, i);
    let part = text.subrange(i, end);
    lemma_digits_cut(text, i, end, sign);
    if char_at(text, whole) == Some('.') {
        lemma_digits_cut(text, i, end, whole + 1);
    }
    if char_at(text, fraction) == Some('e') || char_at(text, fraction) == Some('E') {
        if char_at(text, fraction + 1) == Some('+') || char_at(text, fraction + 1) == Some('-') {
            lemma_digits_cut(text, i, end, fraction + 2);
        } else {
            lemma_digits_cut(text, i, end, fraction + 1);
        }
    }
}

proof fn lemma_all_digits_skip(text: Seq<char>, i: int)
    requires
        0 <= i <= text.len(),
        forall|k: int| i <= k < text.len() ==> is_digit(#[trigger] text[k]),
    ensures
        skip_digits(text, i) == text.len(),
    decreases text.len() - i,
{
    if i < text.len() {
        lemma_all_digits_skip(text, i + 1);
    }
}

/// The decimal text of a whole number is a JSON number.
pub proof fn lemma_decimal_is_number(n: int)
    ensures
        is_number(decimal_int(n)),
        n >= 0 ==> is_number(decimal(n as nat)),
{
    if n < 0 {
        let digits = decimal((-n) as nat);
        lemma_decimal_is_digits((-n) as nat);
        assert forall|k: int| 1 <= k < decimal_int(n).len() implies is_digit(
            #[trigger] decimal_int(n)[k],
        ) by {
            assert(decimal_int(n)[k] == digits[k - 1]);
        }
        lemma_all_digits_skip(decimal_int(n), 1);
    } else {
        lemma_decimal_is_digits(n as nat);
        lemma_all_digits_skip(decimal(n as nat), 0);
        assert(is_digit(decimal(n as nat)[0]));
    }
}

// --- strings ---------------------------------------------------------------

proof fn lemma_body_from_front(s: Seq<char>)
    requires
        s.len() > 0,
    ensures
        escaped_body(s) == escaped_char(s[0]) + escaped_body(s.skip(1)),
    decreases s.len(),
{
    if s.len() == 1 {
        assert(s.drop_last() =~= Seq::<char>::empty());
        assert(s.skip(1) =~= Seq::<char>::empty());
        assert(escaped_body(s.drop_last()) =~= Seq::<char>::empty());
        assert(escaped_body(s) =~= escaped_char(s[0]) + escaped_body(s.skip(1)));
    } else {
        lemma_body_from_front(s.drop_last());
        assert(s.drop_last().skip(1) =~= s.skip(1).drop_last());
        assert(escaped_body(s) =~= escaped_char(s[0]) + escaped_body(s.skip(1)));
    }
}

/// A written character reads back.
proof fn lemma_escaped_char_reads_back(c: char, text: Seq<char>, i: int)
    requires
        occurs(text, i, escaped_char(c)),
    ensures
        string_at(text, i) == prepend(seq![c], string_at(text, i + escaped_char(c).len())),
{
    let part = escaped_char(c);
    assert(text[i + 0] == part[0]);
    if part.len() >= 2 {
        assert(text[i + 1] == part[1]);
        if part.len() == 6 {
            assert(text[i + 2] == part[2]);
            assert(text[i + 3] == part[3]);
            assert(text[i + 4] == part[4]);
            assert(text[i + 5] == part[5]);
            lemma_byte_len_at_least(text.skip(i + 2));
            let n = c as u32;
            assert(hex_value(hex_char((n / 16) as nat)) == Some((n / 16) as nat));
            assert(hex_value(hex_char((n % 16) as nat)) == Some((n % 16) as nat));
            assert(hex4_at(text, i + 2) == Ok::<(nat, int), Fault>((n as nat, i + 6)));
        }
        assert(escape_at(text, i + 1) == Ok::<(char, int), Fault>((c, i + part.len())));
    }
}

/// A written string reads back.
proof fn lemma_string_reads_back(s: Seq<char>, text: Seq<char>, i: int)
    requires
        occurs(text, i, escaped_body(s) + seq!['"']),
    ensures
        string_at(text, i) == Ok::<(Seq<char>, int), Fault>((s, i + escaped_body(s).len() + 1)),
    decreases s.len(),
{
    if s.len() == 0 {
        lemma_occurs_concat(text, i, escaped_body(s), seq!['"']);
        assert(text[i + 0] == seq!['"'][0]);
        assert(s =~= Seq::<char>::empty());
    } else {
        lemma_body_from_front(s);
        let first = escaped_char(s[0]);
        let rest = escaped_body(s.skip(1));
        assert(escaped_body(s) + seq!['"'] =~= first + (rest + seq!['"']));
        lemma_occurs_concat(text, i, first, rest + seq!['"']);
        lemma_escaped_char_reads_back(s[0], text, i);
        lemma_string_reads_back(s.skip(1), text, i + first.len());
        assert(seq![s[0]] + s.skip(1) =~= s);
    }
}

// --- values ----------------------------------------------------------------

proof fn lemma_text_starts_a_value(value: Json)
    requires
        numbers_are_sound(value),
    ensures
        json_text(value).len() > 0,
        !is_space(json_text(value)[0]),
        json_text(value)[0] != ']',
        json_text(value)[0] != '}',
{
    reveal_strlit("null");
    reveal_strlit("true");
    reveal_strlit("false");
}

proof fn lemma_items_from_front(items: Seq<Json>)
    requires
        items.len() >= 2,
    ensures
        items_text(items) == json_text(items[0]) + seq![','] + items_text(items.skip(1)),
    decreases items.len(),
{
    if items.len() == 2 {
        assert(items.drop_last() =~= seq![items[0]]);
        assert(items.skip(1) =~= seq![items[1]]);
        assert(items_text(items.drop_last()) == json_text(items[0]));
        assert(items_text(items.skip(1)) == json_text(items[1]));
    } else {
        lemma_items_from_front(items.drop_last());
        assert(items.drop_last().skip(1) =~= items.skip(1).drop_last());
        assert(items.skip(1).last() == items.last());
        assert(items_text(items) =~= json_text(items[0]) + seq![','] + items_text(items.skip(1)));
    }
}

spec fn member_text(field: (Seq<char>, Json)) -> Seq<char> {
    escaped(field.0) + seq![':'] + json_text(field.1)
}

proof fn lemma_fields_from_front(fields: Seq<(Seq<char>, Json)>)
    requires
        fields.len() >= 2,
    ensures
        fields_text(fields) == member_text(fields[0]) + seq![','] + fields_text(fields.skip(1)),
    decreases fields.len(),
{
    if fields.len() == 2 {
        assert(fields.drop_last() =~= seq![fields[0]]);
        assert(fields.skip(1) =~= seq![fields[1]]);
        assert(fields_text(fields.drop_last()) == member_text(fields[0]));
        assert(fields_text(fields.skip(1)) == member_text(fields[1]));
        assert(fields_text(fields) =~= member_text(fields[0]) + seq![','] + fields_text(
            fields.skip(1),
        ));
    } else {
        lemma_fields_from_front(fields.drop_last());
        assert(fields.drop_last().skip(1) =~= fields.skip(1).drop_last());
        assert(fields.skip(1).last() == fields.last());
        assert(fields_text(fields) =~= member_text(fields[0]) + seq![','] + fields_text(
            fields.skip(1),
        ));
    }
}

pub proof fn lemma_word_reads_back(text: Seq<char>, i: int, word: Seq<char>, value: Json)
    requires
        occurs(text, i, word),
    ensures
        word_at(text, i, word, value) == Ok::<(Json, int), Fault>((value, i + word.len())),
{
    assert forall|k: int| 0 <= k < word.len() implies text.subrange(i, i + word.len())[k]
        == #[trigger] word[k] by {
        assert(text[i + k] == word[k]);
    }
    assert(text.subrange(i, i + word.len()) =~= word);
}

/// A written value reads back where nothing follows it but the end of the text or
/// the end of an enclosing array or object.
proof fn lemma_value_reads_back(value: Json, text: Seq<char>, i: int)
    requires
        numbers_are_sound(value),
        occurs(text, i, json_text(value)),
        ends_value(text, i + json_text(value).len()),
    ensures
        value_at(text, i) == Ok::<(Json, int), Fault>((value, i + json_text(value).len())),
    decreases value, 0int,
{
    reveal_strlit("null");
    reveal_strlit("true");
    reveal_strlit("false");
    let whole = json_text(value);
    lemma_text_starts_a_value(value);
    assert(text[i + 0] == whole[0]);
    match value {
        Json::Null => {
            lemma_word_reads_back(text, i, "null"@, value);
        },
        Json::Bool(b) => {
            if b {
                lemma_word_reads_back(text, i, "true"@, value);
            } else {
                lemma_word_reads_back(text, i, "false"@, value);
            }
        },
        Json::Num(part) => {
            lemma_number_occurs(text, i, part);
            assert forall|k: int| 0 <= k < part.len() implies text.subrange(i, i + part.len())[k]
                == #[trigger] part[k] by {
                assert(text[i + k] == part[k]);
            }
            assert(text.subrange(i, i + part.len()) =~= part);
        },
        Json::Str(s) => {
            let inner = escaped_body(s) + seq!['"'];
            assert(whole =~= seq!['"'] + inner);
            lemma_occurs_concat(text, i, seq!['"'], inner);
            lemma_string_reads_back(s, text, i + 1);
        },
        Json::Array(items) => {
            let inner = items_text(items) + seq![']'];
            assert(whole =~= seq!['['] + inner);
            lemma_occurs_concat(text, i, seq!['['], inner);
            if items.len() == 0 {
                assert(text[i + 1 + 0] == inner[0]);
                assert(items =~= Seq::<Json>::empty());
            } else {
                lemma_items_read_back(items, text, i + 1);
            }
        },
        Json::Object(fields) => {
            let inner = fields_text(fields) + seq!['}'];
            assert(whole =~= seq!['{'] + inner);
            lemma_occurs_concat(text, i, seq!['{'], inner);
            if fields.len() == 0 {
                assert(text[i + 1 + 0] == inner[0]);
                assert(fields =~= Seq::<(Seq<char>, Json)>::empty());
            } else {
                lemma_fields_read_back(fields, text, i + 1);
            }
        },
    }
}

proof fn lemma_items_read_back(items: Seq<Json>, text: Seq<char>, i: int)
    requires
        items.len() > 0,
        forall|k: int| 0 <= k < items.len() ==> numbers_are_sound(#[trigger] items[k]),
        occurs(text, i, items_text(items) + seq![']']),
    ensures
        elements_at(text, i) == Ok::<(Seq<Json>, int), Fault>(
            (items, i + items_text(items).len() + 1),
        ),
        skip_spaces(text, i) == i,
        char_at(text, i) != Some(']'),
    decreases items, 1int,
{
    let first = json_text(items[0]);
    let end = i + first.len();
    lemma_text_starts_a_value(items[0]);
    assert(decreases_to!(items => items[0]));
    if items.len() == 1 {
        lemma_occurs_concat(text, i, first, seq![']']);
        assert(text[i + 0] == first[0]);
        assert(text[end + 0] == seq![']'][0]);
        lemma_value_reads_back(items[0], text, i);
        assert(items =~= seq![items[0]]);
    } else {
        lemma_items_from_front(items);
        let rest = items.skip(1);
        let tail = items_text(rest) + seq![']'];
        assert(items_text(items) + seq![']'] =~= first + (seq![','] + tail));
        lemma_occurs_concat(text, i, first, seq![','] + tail);
        lemma_occurs_concat(text, end, seq![','], tail);
        assert(text[i + 0] == first[0]);
        assert(text[end + 0] == seq![','][0]);
        lemma_value_reads_back(items[0], text, i);
        assert forall|k: int| 0 <= k < rest.len() implies numbers_are_sound(
            #[trigger] rest[k],
        ) by {
            assert(rest[k] == items[k + 1]);
        }
        assert(decreases_to!(items => rest));
        lemma_items_read_back(rest, text, end + 1);
        assert(seq![items[0]] + rest =~= items);
    }
}

/// What reading members does where a member stands at `i`, its colon at `colon`
/// and its end at `end`.
proof fn lemma_member_step(
    text: Seq<char>,
    i: int,
    colon: int,
    end: int,
    key: Seq<char>,
    value: Json,
)
    requires
        0 <= i < colon < end < text.len(),
        text[i] == '"',
        text[colon] == ':',
        text[end] == ',' || text[end] == '}',
        colon + 1 < end && !is_space(text[colon + 1]),
        string_at(text, i + 1) == Ok::<(Seq<char>, int), Fault>((key, colon)),
        value_at(text, colon + 1) == Ok::<(Json, int), Fault>((value, end)),
    ensures
        text[end] == ',' ==> members_at(text, i) == prepend(
            seq![(key, value)],
            members_at(text, end + 1),
        ),
        text[end] == '}' ==> members_at(text, i) == Ok::<(Seq<(Seq<char>, Json)>, int), Fault>(
            (seq![(key, value)], end + 1),
        ),
{
    assert(skip_spaces(text, i) == i);
    assert(skip_spaces(text, colon) == colon);
    assert(skip_spaces(text, colon + 1) == colon + 1);
    assert(skip_spaces(text, end) == end);
}

/// Where a written member stands at `i` with `tail` behind it, its parts stand.
proof fn lemma_member_occurs(
    field: (Seq<char>, Json),
    tail: Seq<char>,
    text: Seq<char>,
    i: int,
)
    requires
        tail.len() > 0,
        numbers_are_sound(field.1),
        occurs(text, i, member_text(field) + tail),
    ensures
        ({
            let colon = i + 2 + escaped_body(field.0).len();
            let end = colon + 1 + json_text(field.1).len();
            &&& end == i + member_text(field).len()
            &&& 0 <= i < colon < colon + 1 < end < text.len()
            &&& text[i] == '"'
            &&& text[colon] == ':'
            &&& text[end] == tail[0]
            &&& !is_space(text[colon + 1])
            &&& string_at(text, i + 1) == Ok::<(Seq<char>, int), Fault>((field.0, colon))
            &&& occurs(text, colon + 1, json_text(field.1))
            &&& occurs(text, end, tail)
        }),
{
    let quoted = escaped_body(field.0) + seq!['"'];
    let first = json_text(field.1);
    let colon = i + 1 + quoted.len();
    let end = colon + 1 + first.len();
    assert(member_text(field) + tail =~= seq!['"'] + (quoted + (seq![':'] + (first + tail))));
    lemma_occurs_concat(text, i, seq!['"'], quoted + (seq![':'] + (first + tail)));
    lemma_occurs_concat(text, i + 1, quoted, seq![':'] + (first + tail));
    lemma_occurs_concat(text, colon, seq![':'], first + tail);
    lemma_occurs_concat(text, colon + 1, first, tail);
    assert(text[i + 0] == seq!['"'][0]);
    assert(text[colon + 0] == seq![':'][0]);
    assert(text[end + 0] == tail[0]);
    lemma_text_starts_a_value(field.1);
    assert(text[colon + 1 + 0] == first[0]);
    lemma_string_reads_back(field.0, text, i + 1);
}

proof fn lemma_fields_read_back(fields: Seq<(Seq<char>, Json)>, text: Seq<char>, i: int)
    requires
        fields.len() > 0,
        forall|k: int| 0 <= k < fields.len() ==> numbers_are_sound((#[trigger] fields[k]).1),
        occurs(text, i, fields_text(fields) + seq!['}']),
    ensures
        members_at(text, i) == Ok::<(Seq<(Seq<char>, Json)>, int), Fault>(
            (fields, i + fields_text(fields).len() + 1),
        ),
        skip_spaces(text, i) == i,
        char_at(text, i) != Some('}'),
    decreases fields, 1int,
{
    let field = fields[0];
    let rest = fields.skip(1);
    let tail = if fields.len() == 1 {
        seq!['}']
    } else {
        seq![','] + (fields_text(rest) + seq!['}'])
    };
    if fields.len() == 1 {
        assert(fields_text(fields) == member_text(field));
    } else {
        lemma_fields_from_front(fields);
        assert(fields_text(fields) + seq!['}'] =~= member_text(field) + tail);
    }
    lemma_member_occurs(field, tail, text, i);
    let colon = i + 2 + escaped_body(field.0).len();
    let end = colon + 1 + json_text(field.1).len();
    assert(decreases_to!(fields => fields[0]));
    assert(decreases_to!(fields[0] => fields[0].1));
    lemma_value_reads_back(field.1, text, colon + 1);
    lemma_member_step(text, i, colon, end, field.0, field.1);
    if fields.len() == 1 {
        assert(fields =~= seq![fields[0]]);
    } else {
        lemma_occurs_concat(text, end, seq![','], fields_text(rest) + seq!['}']);
        assert forall|k: int| 0 <= k < rest.len() implies numbers_are_sound(
            (#[trigger] rest[k]).1,
        ) by {
            assert(rest[k] == fields[k + 1]);
        }
        assert(decreases_to!(fields => rest));
        lemma_fields_read_back(rest, text, end + 1);
        assert(seq![fields[0]] + rest =~= fields);
    }
}

/// Every written value reads back as itself, as long as its numbers are JSON
/// numbers.
pub proof fn law_written_values_read_back(value: Json)
    requires
        numbers_are_sound(value),
    ensures
        document(json_text(value)) == Ok::<Json, Fault>(value),
{
    let text = json_text(value);
    lemma_text_starts_a_value(value);
    assert(occurs(text, 0, text));
    lemma_value_reads_back(value, text, 0);
    assert(skip_spaces(text, 0) == 0);
    assert(skip_spaces(text, text.len() as int) == text.len());
}

// --- parsed values ---------------------------------------------------------

proof fn lemma_parsed_numbers_are_sound(text: Seq<char>, i: int)
    requires
        0 <= i <= text.len(),
    ensures
        value_at(text, i) matches Ok((value, k)) ==> numbers_are_sound(value),
    decreases text.len() - i, 0int,
{
    if i < text.len() {
        let c = text[i];
        if c == '[' {
            lemma_parsed_items_are_sound(text, i + 1);
        } else if c == '{' {
            lemma_parsed_fields_are_sound(text, i + 1);
        } else if c == '-' || is_digit(c) {
            lemma_number_cut(text, i);
        }
    }
}

proof fn lemma_parsed_items_are_sound(text: Seq<char>, i: int)
    requires
        0 <= i <= text.len(),
    ensures
        elements_at(text, i) matches Ok((items, k)) ==> forall|m: int|
            0 <= m < items.len() ==> numbers_are_sound(#[trigger] items[m]),
    decreases text.len() - i, 1int,
{
    lemma_skip_spaces(text, i);
    let j = skip_spaces(text, i);
    lemma_parsed_numbers_are_sound(text, j);
    if let Ok((item, k)) = value_at(text, j) {
        if j < k && k <= text.len() {
            lemma_skip_spaces(text, k);
            let m = skip_spaces(text, k);
            if char_at(text, m) == Some(',') {
                lemma_parsed_items_are_sound(text, m + 1);
                if let Ok((rest, end)) = elements_at(text, m + 1) {
                    let items = seq![item] + rest;
                    assert forall|n: int| 0 <= n < items.len() implies numbers_are_sound(
                        #[trigger] items[n],
                    ) by {
                        if n > 0 {
                            assert(items[n] == rest[n - 1]);
                        }
                    }
                }
            }
        }
    }
}

proof fn lemma_parsed_fields_are_sound(text: Seq<char>, i: int)
    requires
        0 <= i <= text.len(),
    ensures
        members_at(text, i) matches Ok((fields, k)) ==> forall|m: int|
            0 <= m < fields.len() ==> numbers_are_sound((#[trigger] fields[m]).1),
    decreases text.len() - i, 1int,
{
    lemma_skip_spaces(text, i);
    let j = skip_spaces(text, i);
    if let Ok((key, k)) = string_at(text, j + 1) {
        if j < k && k <= text.len() {
            lemma_skip_spaces(text, k);
            let m = skip_spaces(text, k);
            lemma_skip_spaces(text, m + 1);
            let n = skip_spaces(text, m + 1);
            if n <= text.len() {
                lemma_parsed_numbers_are_sound(text, n);
                if let Ok((value, p)) = value_at(text, n) {
                    if n < p && p <= text.len() {
                        lemma_skip_spaces(text, p);
                        let q = skip_spaces(text, p);
                        if char_at(text, q) == Some(',') {
                            lemma_parsed_fields_are_sound(text, q + 1);
                            if let Ok((rest, end)) = members_at(text, q + 1) {
                                let fields = seq![(key, value)] + rest;
                                assert forall|r: int| 0 <= r < fields.len() implies
                                    numbers_are_sound((#[trigger] fields[r]).1) by {
                                    if r > 0 {
                                        assert(fields[r] == rest[r - 1]);
                                    }
                                }
                            }
                        }
                    }
                }
            }
        }
    }
}

/// What was read from any document reads back from what is written for it.
pub proof fn law_read_values_read_back(text: Seq<char>)
    ensures
        document(text) matches Ok(value) ==> document(json_text(value)) == Ok::<Json, Fault>(value),
{
    lemma_skip_spaces(text, 0);
    lemma_parsed_numbers_are_sound(text, skip_spaces(text, 0));
    if let Ok(value) = document(text) {
        law_written_values_read_back(value);
    }
}

// --- compact text ----------------------------------------------------------

/// Where in a JSON text a character stands.
pub enum Place {
    Outside,
    /// Within a string.
    Inside,
    /// Behind a backslash within a string.
    Escaped,
}

/// Where the text behind a character stands; nowhere, if the character is white space
/// outside a string.
pub open spec fn place_after(place: Place, c: char) -> Option<Place> {
    match place {
        Place::Outside => if c == '"' {
            Some(Place::Inside)
        } else if is_white(c) {
            None
        } else {
            Some(Place::Outside)
        },
        Place::Inside => if c == '"' {
            Some(Place::Outside)
        } else if c == '\\' {
            Some(Place::Escaped)
        } else {
            Some(Place::Inside)
        },
        Place::Escaped => Some(Place::Inside),
    }
}

/// Where the text behind `text` stands; nowhere, if there is white space outside the
/// strings.
pub open spec fn place_behind(text: Seq<char>, place: Place) -> Option<Place>
    decreases text.len(),
{
    if text.len() == 0 {
        Some(place)
    } else {
        match place_behind(text.drop_last(), place) {
            Some(before) => place_after(before, text.last()),
            None => None,
        }
    }
}

/// Whether a text has no white space but within its strings, all of which end.
pub open spec fn is_compact(text: Seq<char>) -> bool {
    place_behind(text, Place::Outside) == Some(Place::Outside)
}

proof fn lemma_place_concat(a: Seq<char>, b: Seq<char>, place: Place)
    ensures
        place_behind(a + b, place) == match place_behind(a, place) {
            Some(middle) => place_behind(b, middle),
            None => None,
        },
    decreases b.len(),
{
    if b.len() > 0 {
        lemma_place_concat(a, b.drop_last(), place);
        assert((a + b).drop_last() =~= a + b.drop_last());
        assert((a + b).last() == b.last());
    } else {
        assert(a + b =~= a);
    }
}

proof fn lemma_compact_concat(a: Seq<char>, b: Seq<char>)
    requires
        is_compact(a),
        is_compact(b),
    ensures
        is_compact(a + b),
{
    lemma_place_concat(a, b, Place::Outside);
}

/// A text without quotes and white space is compact.
proof fn lemma_plain_is_compact(text: Seq<char>)
    requires
        forall|i: int| 0 <= i < text.len() ==> #[trigger] text[i] != '"' && !is_white(text[i]),
    ensures
        is_compact(text),
    decreases text.len(),
{
    if text.len() > 0 {
        let front = text.drop_last();
        assert forall|i: int| 0 <= i < front.len() implies #[trigger] front[i] != '"' && !is_white(
            front[i],
        ) by {
            assert(front[i] == text[i]);
        }
        lemma_plain_is_compact(front);
        assert(text[text.len() - 1] == text.last());
    }
}

proof fn lemma_one(place: Place, c: char)
    ensures
        place_behind(seq![c], place) == place_after(place, c),
{
    assert(seq![c].drop_last() =~= Seq::<char>::empty());
    assert(place_behind(Seq::<char>::empty(), place) == Some(place));
}

/// An escaped character stays within its string.
proof fn lemma_escaped_stays_inside(c: char)
    ensures
        place_behind(escaped_char(c), Place::Inside) == Some(Place::Inside),
{
    let text = escaped_char(c);
    if text.len() == 1 {
        lemma_one(Place::Inside, c);
        assert(text =~= seq![c]);
    } else if text.len() == 2 {
        lemma_one(Place::Inside, '\\');
        lemma_one(Place::Escaped, text[1]);
        lemma_place_concat(seq!['\\'], seq![text[1]], Place::Inside);
        assert(text =~= seq!['\\'] + seq![text[1]]);
    } else {
        let high = hex_char((c as u32 / 16) as nat);
        let low = hex_char((c as u32 % 16) as nat);
        lemma_one(Place::Inside, '\\');
        lemma_one(Place::Escaped, 'u');
        lemma_one(Place::Inside, '0');
        lemma_one(Place::Inside, high);
        lemma_one(Place::Inside, low);
        let one = seq!['\\'];
        lemma_place_concat(one, seq!['u'], Place::Inside);
        let two = one + seq!['u'];
        lemma_place_concat(two, seq!['0'], Place::Inside);
        let three = two + seq!['0'];
        lemma_place_concat(three, seq!['0'], Place::Inside);
        let four = three + seq!['0'];
        lemma_place_concat(four, seq![high], Place::Inside);
        let five = four + seq![high];
        lemma_place_concat(five, seq![low], Place::Inside);
        assert(text =~= five + seq![low]);
    }
}

proof fn lemma_body_stays_inside(s: Seq<char>)
    ensures
        place_behind(escaped_body(s), Place::Inside) == Some(Place::Inside),
    decreases s.len(),
{
    if s.len() > 0 {
        lemma_body_stays_inside(s.drop_last());
        lemma_escaped_stays_inside(s.last());
        lemma_place_concat(escaped_body(s.drop_last()), escaped_char(s.last()), Place::Inside);
    } else {
        assert(escaped_body(s) =~= Seq::<char>::empty());
    }
}

proof fn lemma_string_is_compact(s: Seq<char>)
    ensures
        is_compact(escaped(s)),
{
    lemma_one(Place::Outside, '"');
    lemma_one(Place::Inside, '"');
    lemma_body_stays_inside(s);
    lemma_place_concat(seq!['"'], escaped_body(s), Place::Outside);
    lemma_place_concat(seq!['"'] + escaped_body(s), seq!['"'], Place::Outside);
}

/// The characters of a run of digits are digits.
proof fn lemma_digits_between(text: Seq<char>, i: int)
    requires
        0 <= i <= text.len(),
    ensures
        i <= skip_digits(text, i) <= text.len(),
        forall|k: int| i <= k < skip_digits(text, i) ==> is_digit(#[trigger] text[k]),
    decreases text.len() - i,
{
    if i < text.len() && is_digit(text[i]) {
        lemma_digits_between(text, i + 1);
    }
}

/// A character that a number may hold.
spec fn in_number(c: char) -> bool {
    is_digit(c) || c == '-' || c == '+' || c == '.' || c == 'e' || c == 'E'
}

proof fn lemma_number_is_compact(text: Seq<char>)
    requires
        is_number(text),
    ensures
        is_compact(text),
{
    let start: int = if text[0] == '-' {
        1
    } else {
        0
    };
    lemma_digits_between(text, start);
    let whole = skip_digits(text, start);
    let fraction = if char_at(text, whole) == Some('.') {
        lemma_digits_between(text, whole + 1);
        skip_digits(text, whole + 1)
    } else {
        whole
    };
    if char_at(text, fraction) == Some('e') || char_at(text, fraction) == Some('E') {
        let sign = fraction + 1;
        let digits = if char_at(text, sign) == Some('+') || char_at(text, sign) == Some('-') {
            sign + 1
        } else {
            sign
        };
        lemma_digits_between(text, digits);
    }
    assert forall|k: int| 0 <= k < text.len() implies #[trigger] in_number(text[k]) by {}
    assert forall|k: int| 0 <= k < text.len() implies #[trigger] text[k] != '"' && !is_white(
        text[k],
    ) by {
        assert(in_number(text[k]));
    }
    lemma_plain_is_compact(text);
}

proof fn lemma_word_is_compact()
    ensures
        is_compact("null"@),
        is_compact("true"@),
        is_compact("false"@),
{
    reveal_strlit("null");
    reveal_strlit("true");
    reveal_strlit("false");
    lemma_plain_is_compact("null"@);
    lemma_plain_is_compact("true"@);
    lemma_plain_is_compact("false"@);
}

proof fn lemma_mark_is_compact(c: char)
    requires
        c == '[' || c == ']' || c == '{' || c == '}' || c == ',' || c == ':',
    ensures
        is_compact(seq![c]),
{
    lemma_one(Place::Outside, c);
}

proof fn lemma_items_are_compact(items: Seq<Json>)
    requires
        forall|k: int| 0 <= k < items.len() ==> numbers_are_sound(#[trigger] items[k]),
    ensures
        is_compact(items_text(items)),
    decreases items, 1int,
{
    if items.len() == 0 {
        assert(items_text(items) =~= Seq::<char>::empty());
    } else if items.len() == 1 {
        assert(decreases_to!(items => items[0]));
        law_written_text_is_compact(items[0]);
    } else {
        let front = items.drop_last();
        let last = items[items.len() - 1];
        assert forall|k: int| 0 <= k < front.len() implies numbers_are_sound(
            #[trigger] front[k],
        ) by {
            assert(front[k] == items[k]);
        }
        assert(decreases_to!(items => front));
        lemma_items_are_compact(front);
        assert(decreases_to!(items => items[items.len() - 1]));
        law_written_text_is_compact(last);
        lemma_mark_is_compact(',');
        lemma_compact_concat(items_text(front), seq![',']);
        lemma_compact_concat(items_text(front) + seq![','], json_text(last));
    }
}

proof fn lemma_member_is_compact(key: Seq<char>, text: Seq<char>)
    requires
        is_compact(text),
    ensures
        is_compact(escaped(key) + seq![':'] + text),
{
    lemma_string_is_compact(key);
    lemma_mark_is_compact(':');
    lemma_compact_concat(escaped(key), seq![':']);
    lemma_compact_concat(escaped(key) + seq![':'], text);
}

proof fn lemma_fields_are_compact(fields: Seq<(Seq<char>, Json)>)
    requires
        forall|k: int| 0 <= k < fields.len() ==> numbers_are_sound((#[trigger] fields[k]).1),
    ensures
        is_compact(fields_text(fields)),
    decreases fields, 1int,
{
    if fields.len() == 0 {
        assert(fields_text(fields) =~= Seq::<char>::empty());
    } else {
        let at = fields.len() - 1;
        let last = fields[at];
        assert(decreases_to!(fields => fields[at]));
        assert(decreases_to!(fields[at] => fields[at].1));
        law_written_text_is_compact(last.1);
        let member = escaped(last.0) + seq![':'] + json_text(last.1);
        lemma_member_is_compact(last.0, json_text(last.1));
        if fields.len() > 1 {
            let front = fields.drop_last();
            assert forall|k: int| 0 <= k < front.len() implies numbers_are_sound(
                (#[trigger] front[k]).1,
            ) by {
                assert(front[k] == fields[k]);
            }
            assert(decreases_to!(fields => front));
            lemma_fields_are_compact(front);
            lemma_mark_is_compact(',');
            lemma_compact_concat(fields_text(front), seq![',']);
            lemma_compact_concat(fields_text(front) + seq![','], member);
            assert(fields_text(fields) =~= fields_text(front) + seq![','] + member);
        }
    }
}

/// What is written for a value has no white space outside its strings, as long as its
/// numbers are JSON numbers.
pub proof fn law_written_text_is_compact(value: Json)
    requires
        numbers_are_sound(value),
    ensures
        is_compact(json_text(value)),
    decreases value, 2int,
{
    match value {
        Json::Null => {
            lemma_word_is_compact();
        },
        Json::Bool(b) => {
            lemma_word_is_compact();
        },
        Json::Num(text) => {
            lemma_number_is_compact(text);
        },
        Json::Str(s) => {
            lemma_string_is_compact(s);
        },
        Json::Array(items) => {
            lemma_items_are_compact(items);
            lemma_mark_is_compact('[');
            lemma_mark_is_compact(']');
            lemma_compact_concat(seq!['['], items_text(items));
            lemma_compact_concat(seq!['['] + items_text(items), seq![']']);
        },
        Json::Object(fields) => {
            lemma_fields_are_compact(fields);
            lemma_mark_is_compact('{');
            lemma_mark_is_compact('}');
            lemma_compact_concat(seq!['{'], fields_text(fields));
            lemma_compact_concat(seq!['{'] + fields_text(fields), seq!['}']);
        },
    }
}

/// What is written for a value that was read is compact, however spaced out the text
/// was that it was read from.
pub proof fn law_read_values_are_written_compactly(text: Seq<char>)
    ensures
        document(text) matches Ok(value) ==> is_compact(json_text(value)),
{
    lemma_skip_spaces(text, 0);
    lemma_parsed_numbers_are_sound(text, skip_spaces(text, 0));
    if let Ok(value) = document(text) {
        law_written_text_is_compact(value);
    }
}

/// Numbers that are built from integers are JSON numbers.
pub proof fn law_built_numbers_are_sound(n: int)
    ensures
        numbers_are_sound(Json::Num(decimal_int(n))),
{
    lemma_decimal_is_number(n);
}

} // verus!
