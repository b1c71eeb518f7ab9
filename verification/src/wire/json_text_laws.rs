//! What reading JSON promises, said of texts that are put together part by part: white
//! space wherever it may stand, numbers, and strings with every kind of escape.

use vstd::prelude::*;

use crate::text::is_digit;
use crate::text::lemma_byte_len_at_least;
use crate::wire::json::char_at;
use crate::wire::json::document;
use crate::wire::json::elements_at;
use crate::wire::json::escape_at;
use crate::wire::json::hex4_at;
use crate::wire::json::hex_value;
use crate::wire::json::is_space;
use crate::wire::json::members_at;
use crate::wire::json::number_end;
use crate::wire::json::prepend;
use crate::wire::json::simple_escape;
use crate::wire::json::skip_digits;
use crate::wire::json::skip_spaces;
use crate::wire::json::string_at;
use crate::wire::json::value_at;
use crate::wire::json::Fault;
use crate::wire::json::Json;
use crate::wire::json_laws::ends_value;
use crate::wire::json_laws::is_number;
use crate::wire::json_laws::lemma_number_occurs;
use crate::wire::json_laws::lemma_occurs_concat;
use crate::wire::json_laws::lemma_word_reads_back;
use crate::wire::json_laws::occurs;

verus! {

// --- white space -----------------------------------------------------------

/// Whether a text is nothing but spaces, tabs and ends of lines.
pub open spec fn is_blank(text: Seq<char>) -> bool {
    forall|k: int|
        0 <= k < text.len() ==> #[trigger] text[k] == '\u{20}' || text[k] == '\u{9}' || text[k]
            == '\u{A}' || text[k] == '\u{D}'
}

/// Blanks are skipped up to what is none.
proof fn lemma_blank_is_skipped(text: Seq<char>, i: int, blank: Seq<char>)
    requires
        is_blank(blank),
        occurs(text, i, blank),
        i + blank.len() < text.len() ==> !is_space(text[i + blank.len()]),
    ensures
        skip_spaces(text, i) == i + blank.len(),
    decreases blank.len(),
{
    if blank.len() > 0 {
        let rest = blank.skip(1);
        assert(text[i + 0] == blank[0]);
        assert(seq![blank[0]] + rest =~= blank);
        lemma_occurs_concat(text, i, seq![blank[0]], rest);
        assert(is_blank(rest)) by {
            assert forall|k: int| 0 <= k < rest.len() implies #[trigger] rest[k] == '\u{20}'
                || rest[k] == '\u{9}' || rest[k] == '\u{A}' || rest[k] == '\u{D}' by {
                assert(rest[k] == blank[k + 1]);
            }
        }
        lemma_blank_is_skipped(text, i + 1, rest);
    }
}

proof fn lemma_blank_then(text: Seq<char>, i: int, blank: Seq<char>)
    requires
        is_blank(blank),
        occurs(text, i, blank),
        blank.len() > 0,
    ensures
        is_space(text[i]),
{
    assert(text[i + 0] == blank[0]);
}

// --- strings ---------------------------------------------------------------

/// The number of a hexadecimal digit, of either case.
pub open spec fn digit16(c: char) -> nat {
    let n = c as u32;
    if 0x30 <= n <= 0x39 {
        (n - 0x30) as nat
    } else if 0x61 <= n <= 0x66 {
        (n - 0x57) as nat
    } else if 0x41 <= n <= 0x46 {
        (n - 0x37) as nat
    } else {
        16
    }
}

/// Four hexadecimal digits.
pub struct Hex4 {
    pub a: char,
    pub b: char,
    pub c: char,
    pub d: char,
}

impl Hex4 {
    pub open spec fn text(self) -> Seq<char> {
        seq![self.a, self.b, self.c, self.d]
    }

    pub open spec fn value(self) -> nat {
        4096 * digit16(self.a) + 256 * digit16(self.b) + 16 * digit16(self.c) + digit16(self.d)
    }

    pub open spec fn is_sound(self) -> bool {
        digit16(self.a) < 16 && digit16(self.b) < 16 && digit16(self.c) < 16 && digit16(self.d) < 16
    }
}

/// A character of a string, as it is written.
pub enum CharPlan {
    /// As itself.
    Plain { c: char },
    /// Behind a backslash.
    Marked { letter: char },
    /// By its number.
    Number { hex: Hex4 },
    /// By the two halves of its number.
    Halves { high: Hex4, low: Hex4 },
}

impl CharPlan {
    pub open spec fn text(self) -> Seq<char> {
        match self {
            CharPlan::Plain { c } => seq![c],
            CharPlan::Marked { letter } => seq!['\\', letter],
            CharPlan::Number { hex } => seq!['\\', 'u'] + hex.text(),
            CharPlan::Halves { high, low } => seq!['\\', 'u'] + high.text() + seq!['\\', 'u']
                + low.text(),
        }
    }

    pub open spec fn is_sound(self) -> bool {
        match self {
            CharPlan::Plain { c } => c as u32 >= 0x20 && c != '"' && c != '\\',
            CharPlan::Marked { letter } => letter == '"' || letter == '\\' || letter == '/'
                || letter == 'b' || letter == 'f' || letter == 'n' || letter == 'r' || letter
                == 't',
            CharPlan::Number { hex } => hex.is_sound() && !(0xD800 <= hex.value() < 0xE000),
            CharPlan::Halves { high, low } => {
                &&& high.is_sound()
                &&& low.is_sound()
                &&& 0xD800 <= high.value() < 0xDC00
                &&& 0xDC00 <= low.value() < 0xE000
            },
        }
    }

    /// The character that is meant.
    pub open spec fn meant(self) -> char {
        match self {
            CharPlan::Plain { c } => c,
            CharPlan::Marked { letter } => if letter == 'b' {
                '\u{8}'
            } else if letter == 'f' {
                '\u{C}'
            } else if letter == 'n' {
                '\u{A}'
            } else if letter == 'r' {
                '\u{D}'
            } else if letter == 't' {
                '\u{9}'
            } else {
                letter
            },
            CharPlan::Number { hex } => hex.value() as char,
            CharPlan::Halves { high, low } => (0x10000 + 0x400 * (high.value() - 0xD800) + (
            low.value() - 0xDC00)) as char,
        }
    }
}

proof fn lemma_hex_digit(c: char)
    ensures
        digit16(c) < 16 ==> hex_value(c) == Some(digit16(c)),
{
}

proof fn lemma_hex4(text: Seq<char>, i: int, hex: Hex4)
    requires
        hex.is_sound(),
        occurs(text, i, hex.text()),
    ensures
        hex4_at(text, i) == Ok::<(nat, int), Fault>((hex.value(), i + 4)),
{
    lemma_byte_len_at_least(text.skip(i));
    lemma_hex_digit(hex.a);
    lemma_hex_digit(hex.b);
    lemma_hex_digit(hex.c);
    lemma_hex_digit(hex.d);
    assert(text[i + 0] == hex.text()[0]);
    assert(text[i + 1] == hex.text()[1]);
    assert(text[i + 2] == hex.text()[2]);
    assert(text[i + 3] == hex.text()[3]);
}

proof fn lemma_marked(text: Seq<char>, i: int, letter: char)
    requires
        (CharPlan::Marked { letter }).is_sound(),
        occurs(text, i, seq!['\\', letter]),
    ensures
        escape_at(text, i + 1) == Ok::<(char, int), Fault>(
            ((CharPlan::Marked { letter }).meant(), i + 2),
        ),
{
    assert(text[i + 1] == seq!['\\', letter][1]);
    assert(simple_escape(letter) == Some((CharPlan::Marked { letter }).meant()));
}

proof fn lemma_numbered(text: Seq<char>, i: int, hex: Hex4)
    requires
        (CharPlan::Number { hex }).is_sound(),
        occurs(text, i, seq!['\\', 'u'] + hex.text()),
    ensures
        escape_at(text, i + 1) == Ok::<(char, int), Fault>((hex.value() as char, i + 6)),
{
    let mark = seq!['\\', 'u'];
    lemma_occurs_concat(text, i, mark, hex.text());
    assert(text[i + 1] == mark[1]);
    lemma_hex4(text, i + 2, hex);
    assert(simple_escape('u') is None);
}

proof fn lemma_halves(text: Seq<char>, i: int, high: Hex4, low: Hex4)
    requires
        (CharPlan::Halves { high, low }).is_sound(),
        occurs(text, i, (CharPlan::Halves { high, low }).text()),
    ensures
        escape_at(text, i + 1) == Ok::<(char, int), Fault>(
            ((CharPlan::Halves { high, low }).meant(), i + 12),
        ),
{
    let mark = seq!['\\', 'u'];
    let all = (CharPlan::Halves { high, low }).text();
    assert(all =~= mark + (high.text() + (mark + low.text())));
    lemma_occurs_concat(text, i, mark, high.text() + (mark + low.text()));
    lemma_occurs_concat(text, i + 2, high.text(), mark + low.text());
    lemma_occurs_concat(text, i + 6, mark, low.text());
    assert(text[i + 1] == mark[1]);
    assert(text[i + 6 + 0] == mark[0]);
    assert(text[i + 6 + 1] == mark[1]);
    lemma_hex4(text, i + 2, high);
    lemma_hex4(text, i + 8, low);
    assert(simple_escape('u') is None);
    assert((high.value() - 0xD800) * 0x400 == 0x400 * (high.value() - 0xD800));
}

proof fn lemma_escape_step(text: Seq<char>, i: int, c: char, j: int)
    requires
        0 <= i < j <= text.len(),
        text[i] == '\\',
        escape_at(text, i + 1) == Ok::<(char, int), Fault>((c, j)),
    ensures
        string_at(text, i) == prepend(seq![c], string_at(text, j)),
{
}

proof fn lemma_char(text: Seq<char>, i: int, plan: CharPlan)
    requires
        plan.is_sound(),
        occurs(text, i, plan.text()),
    ensures
        string_at(text, i) == prepend(
            seq![plan.meant()],
            string_at(text, i + plan.text().len()),
        ),
{
    let all = plan.text();
    assert(text[i + 0] == all[0]);
    match plan {
        CharPlan::Plain { c } => {},
        CharPlan::Marked { letter } => {
            lemma_marked(text, i, letter);
            lemma_escape_step(text, i, plan.meant(), i + 2);
        },
        CharPlan::Number { hex } => {
            lemma_numbered(text, i, hex);
            lemma_escape_step(text, i, plan.meant(), i + 6);
        },
        CharPlan::Halves { high, low } => {
            lemma_halves(text, i, high, low);
            lemma_escape_step(text, i, plan.meant(), i + 12);
        },
    }
}

/// The characters of a string, as they are written.
pub open spec fn chars_text(chars: Seq<CharPlan>) -> Seq<char>
    decreases chars.len(),
{
    if chars.len() == 0 {
        Seq::empty()
    } else {
        chars[0].text() + chars_text(chars.skip(1))
    }
}

/// The characters that are meant.
pub open spec fn chars_meant(chars: Seq<CharPlan>) -> Seq<char> {
    Seq::new(chars.len(), |k: int| chars[k].meant())
}

pub open spec fn chars_are_sound(chars: Seq<CharPlan>) -> bool {
    forall|k: int| 0 <= k < chars.len() ==> (#[trigger] chars[k]).is_sound()
}

/// A string reads as the characters that are meant, however each of them is written.
pub proof fn law_strings_mean_their_characters(text: Seq<char>, i: int, chars: Seq<CharPlan>)
    requires
        chars_are_sound(chars),
        occurs(text, i, chars_text(chars) + seq!['"']),
    ensures
        string_at(text, i) == Ok::<(Seq<char>, int), Fault>(
            (chars_meant(chars), i + chars_text(chars).len() + 1),
        ),
    decreases chars.len(),
{
    if chars.len() == 0 {
        let all = chars_text(chars) + seq!['"'];
        assert(text[i + 0] == all[0]);
        assert(chars_meant(chars) =~= Seq::<char>::empty());
    } else {
        let rest = chars.skip(1);
        let tail = chars_text(rest) + seq!['"'];
        assert(chars[0].is_sound());
        assert forall|k: int| 0 <= k < rest.len() implies (#[trigger] rest[k]).is_sound() by {
            assert(rest[k] == chars[k + 1]);
        }
        assert(chars_text(chars) + seq!['"'] =~= chars[0].text() + tail);
        lemma_occurs_concat(text, i, chars[0].text(), tail);
        lemma_char(text, i, chars[0]);
        law_strings_mean_their_characters(text, i + chars[0].text().len(), rest);
        assert(seq![chars[0].meant()] + chars_meant(rest) =~= chars_meant(chars));
    }
}

// --- numbers ---------------------------------------------------------------

/// A number: its sign, its digits, and the digits of its fraction and its exponent, if it
/// has them.
pub struct NumberPlan {
    pub minus: bool,
    pub whole: Seq<char>,
    pub fraction: Option<Seq<char>>,
    pub exponent: Option<(char, Option<char>, Seq<char>)>,
}

pub open spec fn are_digits(text: Seq<char>) -> bool {
    &&& text.len() > 0
    &&& forall|k: int| 0 <= k < text.len() ==> '0' <= #[trigger] text[k] <= '9'
}

impl NumberPlan {
    pub open spec fn sign_text(self) -> Seq<char> {
        if self.minus {
            seq!['-']
        } else {
            Seq::empty()
        }
    }

    pub open spec fn fraction_text(self) -> Seq<char> {
        match self.fraction {
            Some(digits) => seq!['.'] + digits,
            None => Seq::empty(),
        }
    }

    pub open spec fn exponent_text(self) -> Seq<char> {
        match self.exponent {
            Some((e, sign, digits)) => seq![e] + (match sign {
                Some(sign) => seq![sign],
                None => Seq::empty(),
            }) + digits,
            None => Seq::empty(),
        }
    }

    pub open spec fn text(self) -> Seq<char> {
        self.sign_text() + self.whole + self.fraction_text() + self.exponent_text()
    }

    pub open spec fn is_sound(self) -> bool {
        &&& are_digits(self.whole)
        &&& self.fraction matches Some(digits) ==> are_digits(digits)
        &&& self.exponent matches Some((e, sign, digits)) ==> (e == 'e' || e == 'E') && (
        sign matches Some(sign) ==> sign == '+' || sign == '-') && are_digits(digits)
    }
}

proof fn lemma_digits_are_skipped(text: Seq<char>, i: int, digits: Seq<char>)
    requires
        are_digits(digits),
        occurs(text, i, digits),
        i + digits.len() < text.len() ==> !is_digit(text[i + digits.len()]),
    ensures
        skip_digits(text, i) == i + digits.len(),
    decreases digits.len(),
{
    let rest = digits.skip(1);
    assert(text[i + 0] == digits[0]);
    assert('0' <= digits[0] <= '9');
    if rest.len() > 0 {
        assert(seq![digits[0]] + rest =~= digits);
        lemma_occurs_concat(text, i, seq![digits[0]], rest);
        assert forall|k: int| 0 <= k < rest.len() implies '0' <= #[trigger] rest[k] <= '9' by {
            assert(rest[k] == digits[k + 1]);
        }
        lemma_digits_are_skipped(text, i + 1, rest);
    } else {
        assert(skip_digits(text, i + 1) == i + 1);
    }
}

proof fn lemma_number(plan: NumberPlan)
    requires
        plan.is_sound(),
    ensures
        is_number(plan.text()),
{
    let text = plan.text();
    let sign = plan.sign_text();
    let fraction = plan.fraction_text();
    let exponent = plan.exponent_text();
    let a = sign.len() as int;
    let b = a + plan.whole.len();
    let c = b + fraction.len();
    assert(plan.whole[0] == plan.whole[0] && '0' <= plan.whole[0] <= '9');
    assert(occurs(text, 0, text));
    lemma_occurs_concat(text, 0, sign + plan.whole + fraction, exponent);
    lemma_occurs_concat(text, 0, sign + plan.whole, fraction);
    lemma_occurs_concat(text, 0, sign, plan.whole);
    assert(text[a + 0] == plan.whole[0]);
    if exponent.len() > 0 {
        assert(text[c + 0] == exponent[0]);
    }
    if fraction.len() > 0 {
        assert(text[b + 0] == fraction[0]);
    }
    if plan.minus {
        assert(text[0int + 0] == sign[0]);
    }
    lemma_digits_are_skipped(text, a, plan.whole);
    if let Some(digits) = plan.fraction {
        lemma_occurs_concat(text, b, seq!['.'], digits);
        lemma_digits_are_skipped(text, b + 1, digits);
    }
    if let Some((e, mark, digits)) = plan.exponent {
        let between = match mark {
            Some(mark) => seq![mark],
            None => Seq::empty(),
        };
        lemma_occurs_concat(text, c, seq![e] + between, digits);
        lemma_occurs_concat(text, c, seq![e], between);
        if let Some(mark) = mark {
            assert(text[c + 1 + 0] == between[0]);
        }
        assert('0' <= digits[0] <= '9');
        assert(text[c + 1 + between.len() + 0] == digits[0]);
        lemma_digits_are_skipped(text, c + 1 + between.len() as int, digits);
    }
    assert(number_end(text, 0) == text.len());
}

// --- values ----------------------------------------------------------------

/// A JSON text: a value, with white space wherever it may stand within it.
pub enum TextPlan {
    Null,
    True,
    False,
    Number { number: NumberPlan },
    Str { chars: Seq<CharPlan> },
    /// Items, each with the white space before and behind it; without any, there may be
    /// white space between the brackets.
    List { items: Seq<(Seq<char>, TextPlan, Seq<char>)>, blank: Seq<char> },
    /// Members: white space, the name, white space, a colon, white space, the value, white
    /// space.
    Record { members: Seq<MemberPlan>, blank: Seq<char> },
}

/// A member of an object.
pub struct MemberPlan {
    pub before: Seq<char>,
    pub name: Seq<CharPlan>,
    pub behind_name: Seq<char>,
    pub before_value: Seq<char>,
    pub value: TextPlan,
    pub behind: Seq<char>,
}

/// The text.
pub open spec fn plan_text(plan: TextPlan) -> Seq<char>
    decreases plan,
{
    match plan {
        TextPlan::Null => "null"@,
        TextPlan::True => "true"@,
        TextPlan::False => "false"@,
        TextPlan::Number { number } => number.text(),
        TextPlan::Str { chars } => seq!['"'] + (chars_text(chars) + seq!['"']),
        TextPlan::List { items, blank } => if items.len() == 0 {
            seq!['['] + (blank + seq![']'])
        } else {
            seq!['['] + list_text(items)
        },
        TextPlan::Record { members, blank } => if members.len() == 0 {
            seq!['{'] + (blank + seq!['}'])
        } else {
            seq!['{'] + record_text(members)
        },
    }
}

/// Items with commas between them, through the closing bracket.
pub open spec fn list_text(items: Seq<(Seq<char>, TextPlan, Seq<char>)>) -> Seq<char>
    decreases items,
{
    if items.len() == 0 {
        Seq::empty()
    } else {
        items[0].0 + (plan_text(items[0].1) + (items[0].2 + (if items.len() == 1 {
            seq![']']
        } else {
            seq![','] + list_text(items.skip(1))
        })))
    }
}

/// Members with commas between them, through the closing brace.
pub open spec fn record_text(members: Seq<MemberPlan>) -> Seq<char>
    decreases members,
{
    if members.len() == 0 {
        Seq::empty()
    } else {
        let m = members[0];
        m.before + (seq!['"'] + ((chars_text(m.name) + seq!['"']) + (m.behind_name + (seq![':'] + (
        m.before_value + (plan_text(members[0].value) + (m.behind + (if members.len() == 1 {
            seq!['}']
        } else {
            seq![','] + record_text(members.skip(1))
        }))))))))
    }
}

/// The value that is meant.
pub open spec fn plan_value(plan: TextPlan) -> Json
    decreases plan,
{
    match plan {
        TextPlan::Null => Json::Null,
        TextPlan::True => Json::Bool(true),
        TextPlan::False => Json::Bool(false),
        TextPlan::Number { number } => Json::Num(number.text()),
        TextPlan::Str { chars } => Json::Str(chars_meant(chars)),
        TextPlan::List { items, blank } => Json::Array(list_values(items)),
        TextPlan::Record { members, blank } => Json::Object(record_fields(members)),
    }
}

pub open spec fn list_values(items: Seq<(Seq<char>, TextPlan, Seq<char>)>) -> Seq<Json>
    decreases items,
{
    if items.len() == 0 {
        Seq::empty()
    } else {
        seq![plan_value(items[0].1)] + list_values(items.skip(1))
    }
}

pub open spec fn record_fields(members: Seq<MemberPlan>) -> Seq<(Seq<char>, Json)>
    decreases members,
{
    if members.len() == 0 {
        Seq::empty()
    } else {
        seq![(chars_meant(members[0].name), plan_value(members[0].value))] + record_fields(
            members.skip(1),
        )
    }
}

/// Whether all its parts are sound.
pub open spec fn is_sound_plan(plan: TextPlan) -> bool
    decreases plan,
{
    match plan {
        TextPlan::Number { number } => number.is_sound(),
        TextPlan::Str { chars } => chars_are_sound(chars),
        TextPlan::List { items, blank } => is_blank(blank) && is_sound_list(items),
        TextPlan::Record { members, blank } => is_blank(blank) && is_sound_record(members),
        _ => true,
    }
}

pub open spec fn is_sound_list(items: Seq<(Seq<char>, TextPlan, Seq<char>)>) -> bool
    decreases items,
{
    items.len() > 0 ==> {
        &&& is_blank(items[0].0)
        &&& is_sound_plan(items[0].1)
        &&& is_blank(items[0].2)
        &&& is_sound_list(items.skip(1))
    }
}

pub open spec fn is_sound_record(members: Seq<MemberPlan>) -> bool
    decreases members,
{
    members.len() > 0 ==> {
        &&& is_blank(members[0].before)
        &&& chars_are_sound(members[0].name)
        &&& is_blank(members[0].behind_name)
        &&& is_blank(members[0].before_value)
        &&& is_sound_plan(members[0].value)
        &&& is_blank(members[0].behind)
        &&& is_sound_record(members.skip(1))
    }
}

proof fn lemma_starts(plan: TextPlan)
    requires
        is_sound_plan(plan),
    ensures
        plan_text(plan).len() > 0,
        !is_space(plan_text(plan)[0]),
        plan_text(plan)[0] != ']',
        plan_text(plan)[0] != '}',
        plan is Number ==> plan_text(plan)[0] == '-' || is_digit(plan_text(plan)[0]),
{
    reveal_strlit("null");
    reveal_strlit("true");
    reveal_strlit("false");
    if let TextPlan::Number { number } = plan {
        lemma_number(number);
    }
}

proof fn lemma_plan(plan: TextPlan, text: Seq<char>, i: int)
    requires
        is_sound_plan(plan),
        occurs(text, i, plan_text(plan)),
        ends_value(text, i + plan_text(plan).len()),
    ensures
        value_at(text, i) == Ok::<(Json, int), Fault>(
            (plan_value(plan), i + plan_text(plan).len()),
        ),
    decreases plan, 0int,
{
    let whole = plan_text(plan);
    reveal_strlit("null");
    reveal_strlit("true");
    reveal_strlit("false");
    lemma_starts(plan);
    assert(text[i + 0] == whole[0]);
    match plan {
        TextPlan::Null => {
            lemma_word_reads_back(text, i, "null"@, Json::Null);
        },
        TextPlan::True => {
            lemma_word_reads_back(text, i, "true"@, Json::Bool(true));
        },
        TextPlan::False => {
            lemma_word_reads_back(text, i, "false"@, Json::Bool(false));
        },
        TextPlan::Number { number } => {
            lemma_number(number);
            lemma_number_occurs(text, i, whole);
            assert(text.subrange(i, i + whole.len()) =~= whole) by {
                assert forall|k: int| 0 <= k < whole.len() implies text.subrange(
                    i,
                    i + whole.len(),
                )[k] == #[trigger] whole[k] by {
                    assert(text[i + k] == whole[k]);
                }
            }
        },
        TextPlan::Str { chars } => {
            lemma_occurs_concat(text, i, seq!['"'], chars_text(chars) + seq!['"']);
            law_strings_mean_their_characters(text, i + 1, chars);
        },
        TextPlan::List { items, blank } => {
            if items.len() == 0 {
                lemma_occurs_concat(text, i, seq!['['], blank + seq![']']);
                lemma_occurs_concat(text, i + 1, blank, seq![']']);
                assert(text[i + 1 + blank.len() + 0] == seq![']'][0]);
                lemma_blank_is_skipped(text, i + 1, blank);
            } else {
                lemma_occurs_concat(text, i, seq!['['], list_text(items));
                assert(decreases_to!(plan => items));
                lemma_list(items, text, i + 1);
            }
        },
        TextPlan::Record { members, blank } => {
            if members.len() == 0 {
                lemma_occurs_concat(text, i, seq!['{'], blank + seq!['}']);
                lemma_occurs_concat(text, i + 1, blank, seq!['}']);
                assert(text[i + 1 + blank.len() + 0] == seq!['}'][0]);
                lemma_blank_is_skipped(text, i + 1, blank);
            } else {
                lemma_occurs_concat(text, i, seq!['{'], record_text(members));
                assert(decreases_to!(plan => members));
                lemma_record(members, text, i + 1);
            }
        },
    }
}

/// What reading items does where an item stands from `j` to `k` and its end at `m`.
proof fn lemma_item_step(text: Seq<char>, i: int, j: int, k: int, m: int, item: Json)
    requires
        0 <= i <= j < k <= m < text.len(),
        skip_spaces(text, i) == j,
        value_at(text, j) == Ok::<(Json, int), Fault>((item, k)),
        skip_spaces(text, k) == m,
        text[m] == ',' || text[m] == ']',
    ensures
        text[m] == ',' ==> elements_at(text, i) == prepend(seq![item], elements_at(text, m + 1)),
        text[m] == ']' ==> elements_at(text, i) == Ok::<(Seq<Json>, int), Fault>(
            (seq![item], m + 1),
        ),
{
}

/// What reading members does where a name stands at `j` and ends at `k`, its colon stands
/// at `c`, its value from `n` to `p`, and its end at `q`.
proof fn lemma_member_step(
    text: Seq<char>,
    i: int,
    j: int,
    k: int,
    c: int,
    n: int,
    p: int,
    q: int,
    name: Seq<char>,
    value: Json,
)
    requires
        0 <= i <= j < k <= c < n < p <= q < text.len(),
        skip_spaces(text, i) == j,
        text[j] == '"',
        string_at(text, j + 1) == Ok::<(Seq<char>, int), Fault>((name, k)),
        skip_spaces(text, k) == c,
        text[c] == ':',
        skip_spaces(text, c + 1) == n,
        value_at(text, n) == Ok::<(Json, int), Fault>((value, p)),
        skip_spaces(text, p) == q,
        text[q] == ',' || text[q] == '}',
    ensures
        text[q] == ',' ==> members_at(text, i) == prepend(
            seq![(name, value)],
            members_at(text, q + 1),
        ),
        text[q] == '}' ==> members_at(text, i) == Ok::<(Seq<(Seq<char>, Json)>, int), Fault>(
            (seq![(name, value)], q + 1),
        ),
{
}

/// Where the parts of an item stand.
proof fn lemma_item_parts(
    text: Seq<char>,
    i: int,
    before: Seq<char>,
    first: Seq<char>,
    behind: Seq<char>,
    end: Seq<char>,
)
    requires
        occurs(text, i, before + (first + (behind + end))),
        is_blank(before),
        is_blank(behind),
        first.len() > 0,
        end.len() > 0,
        !is_space(first[0]),
        end[0] == ',' || end[0] == ']' || end[0] == '}',
    ensures
        ({
            let j = i + before.len();
            let k = j + first.len();
            let m = k + behind.len();
            &&& occurs(text, j, first)
            &&& occurs(text, m, end)
            &&& text[j] == first[0]
            &&& text[m] == end[0]
            &&& m < text.len()
            &&& skip_spaces(text, i) == j
            &&& skip_spaces(text, k) == m
            &&& ends_value(text, k)
        }),
{
    let j = i + before.len();
    let k = j + first.len();
    let m = k + behind.len();
    lemma_occurs_concat(text, i, before, first + (behind + end));
    lemma_occurs_concat(text, j, first, behind + end);
    lemma_occurs_concat(text, k, behind, end);
    assert(text[j + 0] == first[0]);
    assert(text[m + 0] == end[0]);
    lemma_blank_is_skipped(text, i, before);
    lemma_blank_is_skipped(text, k, behind);
    if behind.len() > 0 {
        lemma_blank_then(text, k, behind);
    }
}

#[verifier::rlimit(40)]
proof fn lemma_list(items: Seq<(Seq<char>, TextPlan, Seq<char>)>, text: Seq<char>, i: int)
    requires
        items.len() > 0,
        is_sound_list(items),
        occurs(text, i, list_text(items)),
    ensures
        elements_at(text, i) == Ok::<(Seq<Json>, int), Fault>(
            (list_values(items), i + list_text(items).len()),
        ),
        char_at(text, skip_spaces(text, i)) != Some(']'),
    decreases items, 1int,
{
    let (before, value, behind) = items[0];
    let rest = items.skip(1);
    let end = if items.len() == 1 {
        seq![']']
    } else {
        seq![','] + list_text(rest)
    };
    let first = plan_text(value);
    let j = i + before.len();
    let k = j + first.len();
    let m = k + behind.len();
    assert(list_text(items) == before + (first + (behind + end)));
    lemma_starts(value);
    lemma_item_parts(text, i, before, first, behind, end);
    assert(decreases_to!(items => items[0]));
    assert(decreases_to!(items[0] => items[0].1));
    lemma_plan(value, text, j);
    lemma_item_step(text, i, j, k, m, plan_value(value));
    if items.len() > 1 {
        lemma_occurs_concat(text, m, seq![','], list_text(rest));
        assert(decreases_to!(items => rest));
        lemma_list(rest, text, m + 1);
        assert(list_values(items) == seq![plan_value(value)] + list_values(rest));
    } else {
        assert(list_values(rest) =~= Seq::<Json>::empty());
        assert(list_values(items) =~= seq![plan_value(value)]);
    }
}

/// Where the parts of a member stand up to its value.
proof fn lemma_name_parts(
    text: Seq<char>,
    i: int,
    before: Seq<char>,
    name: Seq<char>,
    behind: Seq<char>,
    tail: Seq<char>,
)
    requires
        occurs(text, i, before + (seq!['"'] + (name + (behind + (seq![':'] + tail))))),
        is_blank(before),
        is_blank(behind),
    ensures
        ({
            let j = i + before.len();
            let k = j + 1 + name.len();
            let c = k + behind.len();
            &&& text[j] == '"'
            &&& occurs(text, j + 1, name)
            &&& text[c] == ':'
            &&& occurs(text, c + 1, tail)
            &&& skip_spaces(text, i) == j
            &&& skip_spaces(text, k) == c
            &&& c < text.len()
        }),
{
    let t2 = seq![':'] + tail;
    let t0 = name + (behind + t2);
    let j = i + before.len();
    let k = j + 1 + name.len();
    let c = k + behind.len();
    lemma_occurs_concat(text, i, before, seq!['"'] + t0);
    lemma_occurs_concat(text, j, seq!['"'], t0);
    lemma_occurs_concat(text, j + 1, name, behind + t2);
    lemma_occurs_concat(text, k, behind, t2);
    lemma_occurs_concat(text, c, seq![':'], tail);
    assert(text[j + 0] == seq!['"'][0]);
    assert(text[c + 0] == seq![':'][0]);
    lemma_blank_is_skipped(text, i, before);
    lemma_blank_is_skipped(text, k, behind);
}

#[verifier::rlimit(40)]
proof fn lemma_record(members: Seq<MemberPlan>, text: Seq<char>, i: int)
    requires
        members.len() > 0,
        is_sound_record(members),
        occurs(text, i, record_text(members)),
    ensures
        members_at(text, i) == Ok::<(Seq<(Seq<char>, Json)>, int), Fault>(
            (record_fields(members), i + record_text(members).len()),
        ),
        char_at(text, skip_spaces(text, i)) != Some('}'),
    decreases members, 1int,
{
    let m = members[0];
    let rest = members.skip(1);
    let end = if members.len() == 1 {
        seq!['}']
    } else {
        seq![','] + record_text(rest)
    };
    let name = chars_text(m.name) + seq!['"'];
    let value = plan_text(m.value);
    let t3 = m.before_value + (value + (m.behind + end));
    let t2 = seq![':'] + t3;
    let t0 = name + (m.behind_name + t2);
    let j = i + m.before.len();
    let k = j + 1 + name.len();
    let c = k + m.behind_name.len();
    let n = c + 1 + m.before_value.len();
    let p = n + value.len();
    let q = p + m.behind.len();
    assert(record_text(members) == m.before + (seq!['"'] + t0));
    lemma_starts(m.value);
    lemma_name_parts(text, i, m.before, name, m.behind_name, t3);
    lemma_item_parts(text, c + 1, m.before_value, value, m.behind, end);
    law_strings_mean_their_characters(text, j + 1, m.name);
    assert(decreases_to!(members => members[0]));
    assert(decreases_to!(members[0] => members[0].value));
    lemma_plan(m.value, text, n);
    lemma_member_step(
        text,
        i,
        j,
        k,
        c,
        n,
        p,
        q,
        chars_meant(m.name),
        plan_value(m.value),
    );
    if members.len() > 1 {
        lemma_occurs_concat(text, q, seq![','], record_text(rest));
        assert(decreases_to!(members => rest));
        lemma_record(rest, text, q + 1);
    } else {
        assert(record_fields(rest) =~= Seq::<(Seq<char>, Json)>::empty());
        assert(record_fields(members) =~= seq![(chars_meant(m.name), plan_value(m.value))]);
    }
}

/// A JSON text reads as the value that is meant, wherever there is white space, however
/// its characters are escaped, and whatever white space stands around it.
pub proof fn law_texts_mean_their_values(before: Seq<char>, plan: TextPlan, behind: Seq<char>)
    requires
        is_blank(before),
        is_blank(behind),
        is_sound_plan(plan),
    ensures
        document(before + plan_text(plan) + behind) == Ok::<Json, Fault>(plan_value(plan)),
{
    let text = before + plan_text(plan) + behind;
    let i = before.len() as int;
    let k = i + plan_text(plan).len();
    lemma_starts(plan);
    assert(occurs(text, 0, text));
    lemma_occurs_concat(text, 0, before + plan_text(plan), behind);
    lemma_occurs_concat(text, 0, before, plan_text(plan));
    assert(text[i + 0] == plan_text(plan)[0]);
    lemma_blank_is_skipped(text, 0, before);
    lemma_blank_is_skipped(text, k, behind);
    if behind.len() > 0 {
        lemma_blank_then(text, k, behind);
    }
    lemma_plan(plan, text, i);
}

/// Anything but white space behind a value makes the text no JSON.
pub proof fn law_trailing_text_is_refused(
    before: Seq<char>,
    plan: TextPlan,
    behind: Seq<char>,
    more: Seq<char>,
)
    requires
        is_blank(before),
        is_blank(behind),
        behind.len() > 0,
        is_sound_plan(plan),
        more.len() > 0,
        !is_space(more[0]),
    ensures
        document(before + plan_text(plan) + behind + more) is Err,
{
    let text = before + plan_text(plan) + behind + more;
    let i = before.len() as int;
    let k = i + plan_text(plan).len();
    lemma_starts(plan);
    assert(occurs(text, 0, text));
    lemma_occurs_concat(text, 0, before + plan_text(plan) + behind, more);
    lemma_occurs_concat(text, 0, before + plan_text(plan), behind);
    lemma_occurs_concat(text, 0, before, plan_text(plan));
    assert(text[i + 0] == plan_text(plan)[0]);
    assert(text[k + behind.len() + 0] == more[0]);
    lemma_blank_is_skipped(text, 0, before);
    lemma_blank_is_skipped(text, k, behind);
    lemma_blank_then(text, k, behind);
    lemma_plan(plan, text, i);
}

} // verus!
