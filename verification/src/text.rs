//! Text helpers shared by the wire, the saved-connection list and the command
//! line: characters and byte lengths, decimal numbers, trimming, and comparison.

use vstd::prelude::*;
use vstd::utf8::*;

verus! {

/// `String::push` adds one character at the end of the string.
pub assume_specification[ String::push ](text: &mut String, c: char)
    ensures
        final(text)@ == old(text)@.push(c),
;

/// `char::from_u32` succeeds exactly on the Unicode scalar values, and gives the
/// character with that number.
pub assume_specification[ char::from_u32 ](number: u32) -> (c: Option<char>)
    ensures
        c is Some <==> is_scalar(number),
        c matches Some(found) ==> found as u32 == number,
;

/// `std::str::from_utf8` accepts exactly the well-formed UTF-8 byte strings, and
/// gives the text that they encode.
#[verifier::external_body]
pub(crate) fn utf8_text(bytes: &[u8]) -> (text: Option<&str>)
    ensures
        text is Some <==> valid_utf8(bytes@),
        text matches Some(found) ==> encode_utf8(found@) == bytes@,
{
    std::str::from_utf8(bytes).ok()
}

/// The lower-case form of a text, by the Unicode rules that `str::to_lowercase`
/// applies.
pub uninterp spec fn lowercase(text: Seq<char>) -> Seq<char>;

/// `str::to_lowercase`: the result depends on the text alone.
#[verifier::external_body]
pub(crate) fn to_lower(text: &str) -> (lower: String)
    ensures
        lower@ == lowercase(text@),
{
    text.to_lowercase()
}

/// The number of bytes of `c` in UTF-8.
pub open spec fn char_width(c: char) -> nat {
    if c as u32 <= 0x7f {
        1
    } else if c as u32 <= 0x7ff {
        2
    } else if c as u32 <= 0xffff {
        3
    } else {
        4
    }
}

/// The number of bytes of a text in UTF-8.
pub open spec fn byte_len(text: Seq<char>) -> nat
    decreases text.len(),
{
    if text.len() == 0 {
        0
    } else {
        byte_len(text.drop_last()) + char_width(text.last())
    }
}

pub proof fn lemma_byte_len_concat(a: Seq<char>, b: Seq<char>)
    ensures
        byte_len(a + b) == byte_len(a) + byte_len(b),
    decreases b.len(),
{
    if b.len() == 0 {
        assert(a + b =~= a);
    } else {
        assert((a + b).drop_last() =~= a + b.drop_last());
        assert((a + b).last() == b.last());
        lemma_byte_len_concat(a, b.drop_last());
    }
}

pub proof fn lemma_byte_len_prefix(text: Seq<char>, i: int)
    requires
        0 <= i < text.len(),
    ensures
        byte_len(text.take(i + 1)) == byte_len(text.take(i)) + char_width(text[i]),
{
    assert(text.take(i + 1).drop_last() =~= text.take(i));
}

pub proof fn lemma_byte_len_split(text: Seq<char>, i: int)
    requires
        0 <= i <= text.len(),
    ensures
        byte_len(text) == byte_len(text.take(i)) + byte_len(text.skip(i)),
{
    lemma_byte_len_concat(text.take(i), text.skip(i));
    assert(text.take(i) + text.skip(i) =~= text);
}

pub proof fn lemma_byte_len_at_least(text: Seq<char>)
    ensures
        byte_len(text) >= text.len(),
    decreases text.len(),
{
    if text.len() > 0 {
        lemma_byte_len_at_least(text.drop_last());
    }
}

/// The UTF-8 encoding of a text has `byte_len` bytes.
pub proof fn lemma_byte_len_is_encoded_len(text: Seq<char>)
    ensures
        encode_utf8(text).len() == byte_len(text),
    decreases text.len(),
{
    broadcast use char_is_scalar;

    if text.len() > 0 {
        let rest = text.drop_first();
        lemma_byte_len_is_encoded_len(rest);
        lemma_byte_len_concat(seq![text[0]], rest);
        assert(seq![text[0]] + rest =~= text);
        let first: char = text[0];
        assert(seq![first].drop_last() =~= Seq::<char>::empty());
        assert(byte_len(seq![first].drop_last()) == 0);
        assert(seq![first].last() == first);
        assert(byte_len(seq![first]) == char_width(first));
        char_is_scalar(first);
        assert(encode_utf8(text) =~= encode_scalar(first as u32) + encode_utf8(rest));
    } else {
        assert(encode_utf8(text) =~= Seq::<u8>::empty());
    }
}

/// The bytes of two texts are equal exactly when the texts are.
pub proof fn lemma_bytes_decide(a: Seq<char>, b: Seq<char>)
    ensures
        encode_utf8(a) == encode_utf8(b) <==> a == b,
{
    encode_utf8_decode_utf8(a);
    encode_utf8_decode_utf8(b);
}

/// The characters of `text`.
pub fn chars_of(text: &str) -> (chars: Vec<char>)
    ensures
        chars@ == text@,
{
    let mut chars: Vec<char> = Vec::new();
    for c in it: text.chars()
        invariant
            it.seq() == text@,
            chars@ == text@.take(it.index() as int),
    {
        proof {
            assert(text@.take(it.index() + 1) =~= text@.take(it.index() as int).push(c));
        }
        chars.push(c);
    }
    proof {
        assert(text@.take(text@.len() as int) =~= text@);
    }
    chars
}

/// The text made of `chars[from..to]`.
pub fn text_of(chars: &Vec<char>, from: usize, to: usize) -> (text: String)
    requires
        from <= to <= chars@.len(),
    ensures
        text@ == chars@.subrange(from as int, to as int),
{
    let mut text = String::new();
    let mut i: usize = from;
    proof {
        assert(chars@.subrange(from as int, from as int) =~= Seq::<char>::empty());
    }
    while i < to
        invariant
            from <= i <= to <= chars@.len(),
            text@ == chars@.subrange(from as int, i as int),
        decreases to - i,
    {
        text.push(chars[i]);
        proof {
            assert(chars@.subrange(from as int, i + 1) =~= chars@.subrange(
                from as int,
                i as int,
            ).push(chars@[i as int]));
        }
        i += 1;
    }
    text
}

/// Whether two texts are the same.
pub fn same_text(a: &str, b: &str) -> (same: bool)
    ensures
        same == (a@ == b@),
{
    let x = a.as_bytes();
    let y = b.as_bytes();
    proof {
        lemma_bytes_decide(a@, b@);
    }
    if x.len() != y.len() {
        return false;
    }
    let mut i: usize = 0;
    while i < x.len()
        invariant
            i <= x@.len(),
            x@.len() == y@.len(),
            x@ == encode_utf8(a@),
            y@ == encode_utf8(b@),
            encode_utf8(a@) == encode_utf8(b@) <==> a@ == b@,
            x@.take(i as int) == y@.take(i as int),
        decreases x@.len() - i,
    {
        if x[i] != y[i] {
            return false;
        }
        proof {
            assert(x@.take(i + 1) =~= x@.take(i as int).push(x@[i as int]));
            assert(y@.take(i + 1) =~= y@.take(i as int).push(y@[i as int]));
        }
        i += 1;
    }
    proof {
        assert(x@.take(i as int) =~= x@);
        assert(y@.take(i as int) =~= y@);
    }
    true
}

/// A copy of `text` as an owned string.
pub fn owned(text: &str) -> (copy: String)
    ensures
        copy@ == text@,
{
    text.to_string()
}

// ---------------------------------------------------------------------------
// Decimal numbers
// ---------------------------------------------------------------------------

pub open spec fn is_digit(c: char) -> bool {
    '0' <= c <= '9'
}

pub open spec fn digit_value(c: char) -> nat {
    (c as u32 - '0' as u32) as nat
}

/// The character of a one-digit number.
pub open spec fn digit_char(n: nat) -> char {
    (n + '0' as u32) as char
}

pub open spec fn all_digits(text: Seq<char>) -> bool {
    forall|i: int| 0 <= i < text.len() ==> is_digit(#[trigger] text[i])
}

/// The number that a text of decimal digits stands for.
pub open spec fn decimal_value(text: Seq<char>) -> nat
    decreases text.len(),
{
    if text.len() == 0 {
        0
    } else {
        10 * decimal_value(text.drop_last()) + digit_value(text.last())
    }
}

/// The shortest decimal text of `n`.
pub open spec fn decimal(n: nat) -> Seq<char>
    decreases n,
{
    if n < 10 {
        seq![digit_char(n)]
    } else {
        decimal(n / 10).push(digit_char(n % 10))
    }
}

/// The decimal text of a signed number.
pub open spec fn decimal_int(n: int) -> Seq<char> {
    if n < 0 {
        seq!['-'] + decimal((-n) as nat)
    } else {
        decimal(n as nat)
    }
}

/// Whether `text` spells a whole number from 0 to `max`: decimal digits, at least
/// one, behind an optional plus sign.
pub open spec fn unsigned_text(text: Seq<char>, max: nat) -> Option<nat> {
    let digits = if text.len() > 0 && text[0] == '+' {
        text.skip(1)
    } else {
        text
    };
    if digits.len() > 0 && all_digits(digits) && decimal_value(digits) <= max {
        Some(decimal_value(digits))
    } else {
        None
    }
}

/// Whether `text` spells a whole number from `min` to `max`: decimal digits, at
/// least one, behind an optional sign.
pub open spec fn signed_text(text: Seq<char>, min: int, max: int) -> Option<int> {
    if text.len() > 0 && text[0] == '-' {
        let digits = text.skip(1);
        if digits.len() > 0 && all_digits(digits) && min <= -decimal_value(digits) {
            Some(-(decimal_value(digits) as int))
        } else {
            None
        }
    } else if max < 0 {
        None
    } else {
        match unsigned_text(text, max as nat) {
            Some(n) => Some(n as int),
            None => None,
        }
    }
}

pub proof fn lemma_decimal_is_digits(n: nat)
    ensures
        decimal(n).len() > 0,
        all_digits(decimal(n)),
        decimal_value(decimal(n)) == n,
    decreases n,
{
    if n < 10 {
        assert(decimal(n).drop_last() =~= Seq::<char>::empty());
        assert(decimal_value(decimal(n).drop_last()) == 0);
    } else {
        lemma_decimal_is_digits(n / 10);
        assert(decimal(n).drop_last() =~= decimal(n / 10));
    }
}

/// A number's decimal text reads back as the number.
pub proof fn law_decimal_reads_back(n: nat, max: nat)
    requires
        n <= max,
    ensures
        unsigned_text(decimal(n), max) == Some(n),
{
    lemma_decimal_is_digits(n);
    assert(is_digit(decimal(n)[0]));
}

/// A signed number's decimal text reads back as the number.
pub proof fn law_decimal_int_reads_back(n: int, min: int, max: int)
    requires
        min <= n <= max,
    ensures
        signed_text(decimal_int(n), min, max) == Some(n),
{
    if n < 0 {
        lemma_decimal_is_digits((-n) as nat);
        assert(decimal_int(n).skip(1) =~= decimal((-n) as nat));
    } else {
        lemma_decimal_is_digits(n as nat);
        assert(is_digit(decimal(n as nat)[0]));
        law_decimal_reads_back(n as nat, max as nat);
    }
}

pub proof fn lemma_decimal_value_grows(text: Seq<char>, i: int)
    requires
        0 <= i <= text.len(),
    ensures
        decimal_value(text.take(i)) <= decimal_value(text),
    decreases text.len(),
{
    if i == text.len() {
        assert(text.take(i) =~= text);
    } else {
        lemma_decimal_value_grows(text.drop_last(), i);
        assert(text.drop_last().take(i) =~= text.take(i));
    }
}

/// The value of the decimal digits `chars[from..]`, if there is at least one, there
/// is nothing else, and the value is at most `max`.
fn read_digits(chars: &Vec<char>, from: usize, max: u64) -> (value: Option<u64>)
    requires
        from <= chars@.len(),
    ensures
        ({
            let digits = chars@.skip(from as int);
            value == (if digits.len() > 0 && all_digits(digits) && decimal_value(digits) <= max {
                Some(decimal_value(digits) as u64)
            } else {
                None
            })
        }),
{
    let ghost digits = chars@.skip(from as int);
    if from == chars.len() {
        return None;
    }
    let mut value: u64 = 0;
    let mut i: usize = from;
    proof {
        assert(digits.take(0) =~= Seq::<char>::empty());
    }
    while i < chars.len()
        invariant
            from <= i <= chars@.len(),
            from < chars@.len(),
            digits == chars@.skip(from as int),
            all_digits(digits.take(i - from)),
            value == decimal_value(digits.take(i - from)),
            value <= max,
        decreases chars@.len() - i,
    {
        let c = chars[i];
        proof {
            assert(digits[i - from] == c);
        }
        if c < '0' || '9' < c {
            return None;
        }
        let d: u64 = c as u64 - '0' as u64;
        proof {
            assert(digits.take(i - from + 1).drop_last() =~= digits.take(i - from));
            lemma_decimal_value_grows(digits, i - from + 1);
        }
        if d > max || value > (max - d) / 10 {
            return None;
        }
        value = 10 * value + d;
        proof {
            assert forall|k: int| 0 <= k < i - from + 1 implies is_digit(
                #[trigger] digits.take(i - from + 1)[k],
            ) by {
                if k < i - from {
                    assert(digits.take(i - from)[k] == digits.take(i - from + 1)[k]);
                }
            }
        }
        i += 1;
    }
    proof {
        assert(digits.take(i - from) =~= digits);
    }
    Some(value)
}

/// Read a whole number from 0 to `max`.
pub fn parse_unsigned(text: &str, max: u64) -> (value: Option<u64>)
    ensures
        value == (match unsigned_text(text@, max as nat) {
            Some(n) => Some(n as u64),
            None => None,
        }),
{
    let chars = chars_of(text);
    if chars.len() > 0 && chars[0] == '+' {
        read_digits(&chars, 1, max)
    } else {
        proof {
            assert(text@.skip(0) =~= text@);
        }
        read_digits(&chars, 0, max)
    }
}

/// Read a whole number of the `i32` range.
pub fn parse_i32(text: &str) -> (value: Option<i32>)
    ensures
        value == (match signed_text(text@, i32::MIN as int, i32::MAX as int) {
            Some(n) => Some(n as i32),
            None => None,
        }),
{
    let chars = chars_of(text);
    if chars.len() > 0 && chars[0] == '-' {
        match read_digits(&chars, 1, 0x8000_0000) {
            Some(n) => Some((0 - n as i64) as i32),
            None => None,
        }
    } else {
        match parse_unsigned(text, 0x7fff_ffff) {
            Some(n) => Some(n as i32),
            None => None,
        }
    }
}

fn push_digits(text: &mut String, n: u64)
    ensures
        final(text)@ == old(text)@ + decimal(n as nat),
    decreases n,
{
    if n >= 10 {
        push_digits(text, n / 10);
    }
    let d: u32 = (n % 10) as u32;
    proof {
        assert(is_scalar((d + 0x30) as u32));
        assert(('0' as u32) == 0x30);
    }
    let c = match char::from_u32(d + 0x30) {
        Some(c) => c,
        None => '0',
    };
    text.push(c);
    proof {
        char_u32_cast(c, (d + 0x30) as u32);
        assert(c == digit_char((n % 10) as nat));
        if n >= 10 {
            assert(text@ =~= old(text)@ + decimal(n as nat));
        } else {
            assert(text@ =~= old(text)@ + seq![c]);
        }
    }
}

/// The decimal text of `n`.
pub fn unsigned_to_text(n: u64) -> (text: String)
    ensures
        text@ == decimal(n as nat),
{
    let mut text = String::new();
    push_digits(&mut text, n);
    proof {
        assert(text@ =~= decimal(n as nat));
    }
    text
}

/// The decimal text of a signed number.
pub fn signed_to_text(n: i64) -> (text: String)
    ensures
        text@ == decimal_int(n as int),
{
    let mut text = String::new();
    if n < 0 {
        text.push('-');
        let magnitude: u64 = if n == i64::MIN {
            0x8000_0000_0000_0000
        } else {
            (0 - n) as u64
        };
        push_digits(&mut text, magnitude);
        proof {
            assert(text@ =~= decimal_int(n as int));
        }
    } else {
        push_digits(&mut text, n as u64);
        proof {
            assert(text@ =~= decimal_int(n as int));
        }
    }
    text
}

// ---------------------------------------------------------------------------
// White space, case, and pieces of text
// ---------------------------------------------------------------------------

/// The characters with the Unicode property White_Space.
pub open spec fn is_white(c: char) -> bool {
    let n = c as u32;
    ||| 9 <= n <= 13
    ||| n == 0x20
    ||| n == 0x85
    ||| n == 0xA0
    ||| n == 0x1680
    ||| 0x2000 <= n <= 0x200A
    ||| n == 0x2028
    ||| n == 0x2029
    ||| n == 0x202F
    ||| n == 0x205F
    ||| n == 0x3000
}

/// The characters of the Unicode category Cc.
pub open spec fn is_control_char(c: char) -> bool {
    c as u32 <= 0x1F || 0x7F <= c as u32 <= 0x9F
}

pub fn is_white_space(c: char) -> (white: bool)
    ensures
        white == is_white(c),
{
    let n: u32 = c as u32;
    (9 <= n && n <= 13) || n == 0x20 || n == 0x85 || n == 0xA0 || n == 0x1680 || (0x2000 <= n && n
        <= 0x200A) || n == 0x2028 || n == 0x2029 || n == 0x202F || n == 0x205F || n == 0x3000
}

/// `text` without the white space at its front.
pub open spec fn trim_front(text: Seq<char>) -> Seq<char>
    decreases text.len(),
{
    if text.len() > 0 && is_white(text[0]) {
        trim_front(text.skip(1))
    } else {
        text
    }
}

/// `text` without the white space at its end.
pub open spec fn trim_back(text: Seq<char>) -> Seq<char>
    decreases text.len(),
{
    if text.len() > 0 && is_white(text.last()) {
        trim_back(text.drop_last())
    } else {
        text
    }
}

/// `text` without the white space at both ends.
pub open spec fn trimmed(text: Seq<char>) -> Seq<char> {
    trim_back(trim_front(text))
}

/// `text` without the characters `c` at its end.
pub open spec fn strip_back(text: Seq<char>, c: char) -> Seq<char>
    decreases text.len(),
{
    if text.len() > 0 && text.last() == c {
        strip_back(text.drop_last(), c)
    } else {
        text
    }
}

/// A text with no white space at either end is trimmed already.
pub proof fn lemma_trimmed_stays(text: Seq<char>)
    requires
        text.len() > 0 ==> !is_white(text[0]) && !is_white(text.last()),
    ensures
        trimmed(text) == text,
{
}

proof fn lemma_trim_front_from(text: Seq<char>, i: int)
    requires
        0 <= i < text.len(),
        is_white(text[i]),
    ensures
        trim_front(text.skip(i)) == trim_front(text.skip(i + 1)),
{
    assert(text.skip(i).skip(1) =~= text.skip(i + 1));
}

/// `text` without the white space at both ends.
pub fn trim(text: &str) -> (result: String)
    ensures
        result@ == trimmed(text@),
{
    let chars = chars_of(text);
    let mut from: usize = 0;
    proof {
        assert(text@.skip(0) =~= text@);
    }
    while from < chars.len() && is_white_space(chars[from])
        invariant
            from <= chars@.len(),
            chars@ == text@,
            trim_front(text@.skip(from as int)) == trim_front(text@),
        decreases chars@.len() - from,
    {
        proof {
            lemma_trim_front_from(text@, from as int);
        }
        from += 1;
    }
    let ghost rest = text@.skip(from as int);
    proof {
        assert(trim_front(text@) == rest);
        assert(text@.subrange(from as int, chars@.len() as int) =~= rest);
    }
    let mut to: usize = chars.len();
    while from < to && is_white_space(chars[to - 1])
        invariant
            from <= to <= chars@.len(),
            chars@ == text@,
            rest == text@.skip(from as int),
            trim_back(text@.subrange(from as int, to as int)) == trim_back(rest),
        decreases to - from,
    {
        proof {
            assert(text@.subrange(from as int, to as int).drop_last() =~= text@.subrange(
                from as int,
                to - 1,
            ));
        }
        to -= 1;
    }
    text_of(&chars, from, to)
}

/// `text` without the characters `c` at its end.
pub fn trim_end_char(text: &str, c: char) -> (result: String)
    ensures
        result@ == strip_back(text@, c),
{
    let chars = chars_of(text);
    let mut to: usize = chars.len();
    proof {
        assert(text@.subrange(0, chars@.len() as int) =~= text@);
    }
    while 0 < to && chars[to - 1] == c
        invariant
            to <= chars@.len(),
            chars@ == text@,
            strip_back(text@.subrange(0, to as int), c) == strip_back(text@, c),
        decreases to,
    {
        proof {
            assert(text@.subrange(0, to as int).drop_last() =~= text@.subrange(0, to - 1));
        }
        to -= 1;
    }
    text_of(&chars, 0, to)
}

/// The ASCII lower-case form of a character.
pub open spec fn ascii_lower(c: char) -> char {
    if 'A' <= c <= 'Z' {
        (c as u32 + 32) as char
    } else {
        c
    }
}

/// Whether two texts are equal up to the case of ASCII letters.
pub open spec fn same_ignoring_case(a: Seq<char>, b: Seq<char>) -> bool {
    &&& a.len() == b.len()
    &&& forall|i: int| 0 <= i < a.len() ==> ascii_lower(#[trigger] a[i]) == ascii_lower(b[i])
}

fn lower_number(c: char) -> (n: u32)
    ensures
        n == ascii_lower(c) as u32,
{
    if 'A' <= c && c <= 'Z' {
        c as u32 + 32
    } else {
        c as u32
    }
}

/// Whether two texts are equal up to the case of ASCII letters.
pub fn eq_ignore_ascii_case(a: &str, b: &str) -> (same: bool)
    ensures
        same == same_ignoring_case(a@, b@),
{
    let x = chars_of(a);
    let y = chars_of(b);
    if x.len() != y.len() {
        return false;
    }
    let mut i: usize = 0;
    while i < x.len()
        invariant
            i <= x@.len(),
            x@.len() == y@.len(),
            x@ == a@,
            y@ == b@,
            forall|k: int| 0 <= k < i ==> ascii_lower(#[trigger] a@[k]) == ascii_lower(b@[k]),
        decreases x@.len() - i,
    {
        if lower_number(x[i]) != lower_number(y[i]) {
            proof {
                assert(ascii_lower(a@[i as int]) != ascii_lower(b@[i as int]));
            }
            return false;
        }
        proof {
            vstd::utf8::char_u32_cast(ascii_lower(x@[i as int]), ascii_lower(x@[i as int]) as u32);
            vstd::utf8::char_u32_cast(ascii_lower(y@[i as int]), ascii_lower(y@[i as int]) as u32);
        }
        i += 1;
    }
    true
}

/// The length of `text` in bytes.
pub fn text_byte_len(text: &str) -> (len: usize)
    ensures
        len == byte_len(text@),
{
    proof {
        lemma_byte_len_is_encoded_len(text@);
    }
    text.as_bytes().len()
}

// ---------------------------------------------------------------------------
// Splitting and joining
// ---------------------------------------------------------------------------

pub open spec fn parts_notes(parts: Seq<String>) -> Seq<Seq<char>> {
    Seq::new(parts.len(), |i: int| parts[i]@)
}

/// The parts of `text` between the characters `c`, at least one.
pub open spec fn split_text(text: Seq<char>, c: char) -> Seq<Seq<char>>
    decreases text.len(),
{
    if text.len() == 0 {
        seq![Seq::empty()]
    } else {
        let parts = split_text(text.drop_last(), c);
        if text.last() == c {
            parts.push(Seq::empty())
        } else {
            parts.drop_last().push(parts.last().push(text.last()))
        }
    }
}

/// The parts with a character `c` between them.
pub open spec fn joined(parts: Seq<Seq<char>>, c: char) -> Seq<char>
    decreases parts.len(),
{
    if parts.len() == 0 {
        Seq::empty()
    } else if parts.len() == 1 {
        parts[0]
    } else {
        joined(parts.drop_last(), c) + seq![c] + parts.last()
    }
}

pub proof fn lemma_split_is_not_empty(text: Seq<char>, c: char)
    ensures
        split_text(text, c).len() > 0,
    decreases text.len(),
{
    if text.len() > 0 {
        lemma_split_is_not_empty(text.drop_last(), c);
    }
}

/// Joining the parts gives back the text that was split, and no part holds the
/// separator.
pub proof fn law_split_parts_join_back(text: Seq<char>, c: char)
    ensures
        joined(split_text(text, c), c) == text,
        forall|i: int|
            0 <= i < split_text(text, c).len() ==> !(#[trigger] split_text(text, c)[i]).contains(c),
    decreases text.len(),
{
    if text.len() == 0 {
        assert(joined(split_text(text, c), c) =~= text);
    } else {
        let front = text.drop_last();
        law_split_parts_join_back(front, c);
        lemma_split_is_not_empty(front, c);
        let before = split_text(front, c);
        let parts = split_text(text, c);
        if text.last() == c {
            assert(parts.drop_last() =~= before);
            assert(joined(parts, c) =~= text);
        } else {
            let last = before.last();
            assert(parts.drop_last() =~= before.drop_last());
            if before.len() == 1 {
                assert(joined(before, c) == last);
                assert(joined(parts, c) =~= last.push(text.last()));
            } else {
                assert(joined(parts, c) =~= joined(before, c).push(text.last()));
            }
            assert(joined(parts, c) =~= text);
            assert(!before[before.len() - 1].contains(c));
            assert forall|i: int| 0 <= i < parts.len() implies !(#[trigger] parts[i]).contains(
                c,
            ) by {
                if i < before.len() - 1 {
                    assert(parts[i] == before[i]);
                } else {
                    let part = parts[i];
                    assert forall|k: int| 0 <= k < part.len() implies part[k] != c by {
                        if k < last.len() {
                            assert(part[k] == last[k]);
                        }
                    }
                }
            }
        }
    }
}

/// The parts of `text` between the characters `c`.
pub fn split_parts(text: &str, c: char) -> (parts: Vec<String>)
    ensures
        parts_notes(parts@) == split_text(text@, c),
{
    let chars = chars_of(text);
    let mut done: Vec<String> = Vec::new();
    let mut part = String::new();
    let mut i: usize = 0;
    proof {
        assert(text@.take(0) =~= Seq::<char>::empty());
        assert(parts_notes(done@).push(part@) =~= split_text(text@.take(0), c));
    }
    while i < chars.len()
        invariant
            i <= chars@.len(),
            chars@ == text@,
            parts_notes(done@).push(part@) == split_text(text@.take(i as int), c),
        decreases chars@.len() - i,
    {
        let ghost before = parts_notes(done@);
        let ghost last = part@;
        proof {
            assert(text@.take(i + 1).drop_last() =~= text@.take(i as int));
            assert(before.push(last).drop_last() =~= before);
        }
        if chars[i] == c {
            done.push(part);
            part = String::new();
            proof {
                assert(parts_notes(done@) =~= before.push(last));
                assert(part@ =~= Seq::<char>::empty());
            }
        } else {
            part.push(chars[i]);
        }
        i += 1;
    }
    proof {
        assert(text@.take(i as int) =~= text@);
    }
    let ghost before = parts_notes(done@);
    let ghost last = part@;
    done.push(part);
    proof {
        assert(parts_notes(done@) =~= before.push(last));
    }
    done
}

/// The parts with a character `c` between them.
pub fn join_parts(parts: &Vec<String>, c: char) -> (text: String)
    ensures
        text@ == joined(parts_notes(parts@), c),
{
    let ghost all = parts_notes(parts@);
    let mut text = String::new();
    let mut i: usize = 0;
    proof {
        assert(all.take(0) =~= Seq::<Seq<char>>::empty());
        assert(joined(all.take(0), c) =~= Seq::<char>::empty());
    }
    while i < parts.len()
        invariant
            i <= parts@.len(),
            all == parts_notes(parts@),
            text@ == joined(all.take(i as int), c),
        decreases parts@.len() - i,
    {
        let ghost before = text@;
        if i > 0 {
            text.push(c);
        }
        text.append(parts[i].as_str());
        proof {
            assert(all.take(i + 1).drop_last() =~= all.take(i as int));
            assert(all.take(i + 1).last() == all[i as int]);
            if i == 0 {
                assert(before =~= Seq::<char>::empty());
                assert(text@ =~= all[0]);
            } else {
                assert(text@ =~= before + seq![c] + all[i as int]);
            }
        }
        i += 1;
    }
    proof {
        assert(all.take(i as int) =~= all);
    }
    text
}

/// Whether `part` stands somewhere in `text`.
pub open spec fn holds_text(text: Seq<char>, part: Seq<char>) -> bool {
    exists|i: int|
        0 <= i && i + part.len() <= text.len() && #[trigger] text.subrange(i, i + part.len())
            == part
}

fn stands_at(text: &Vec<char>, i: usize, part: &Vec<char>) -> (found: bool)
    requires
        i + part@.len() <= text@.len(),
    ensures
        found == (text@.subrange(i as int, i + part@.len()) == part@),
{
    let ghost piece = text@.subrange(i as int, i + part@.len());
    let mut k: usize = 0;
    proof {
        assert(text@.len() == text.len());
    }
    while k < part.len()
        invariant
            k <= part@.len(),
            i + part@.len() <= text@.len() <= usize::MAX,
            piece == text@.subrange(i as int, i + part@.len()),
            forall|m: int| 0 <= m < k ==> piece[m] == #[trigger] part@[m],
        decreases part@.len() - k,
    {
        if text[i + k] != part[k] {
            proof {
                assert(piece[k as int] != part@[k as int]);
            }
            return false;
        }
        k += 1;
    }
    proof {
        assert(piece =~= part@);
    }
    true
}

/// Whether `part` stands somewhere in `text`.
pub fn contains_text(text: &str, part: &str) -> (found: bool)
    ensures
        found == holds_text(text@, part@),
{
    let whole = chars_of(text);
    let piece = chars_of(part);
    if piece.len() > whole.len() {
        return false;
    }
    let last: usize = whole.len() - piece.len();
    let mut i: usize = 0;
    loop
        invariant
            i <= last,
            whole@ == text@,
            piece@ == part@,
            last + piece@.len() == whole@.len(),
            forall|k: int|
                0 <= k < i ==> #[trigger] text@.subrange(k, k + part@.len()) != part@,
        decreases last - i,
    {
        if stands_at(&whole, i, &piece) {
            return true;
        }
        if i == last {
            return false;
        }
        i += 1;
    }
}

/// Whether a text begins with another.
pub open spec fn begins_with(text: Seq<char>, start: Seq<char>) -> bool {
    start.len() <= text.len() && text.take(start.len() as int) == start
}

/// Whether a text begins with another.
pub fn starts_with(text: &str, start: &str) -> (yes: bool)
    ensures
        yes == begins_with(text@, start@),
{
    let chars = chars_of(text);
    let wanted = chars_of(start);
    if wanted.len() > chars.len() {
        return false;
    }
    let mut i: usize = 0;
    while i < wanted.len()
        invariant
            i <= wanted@.len() <= chars@.len(),
            chars@ == text@,
            wanted@ == start@,
            forall|k: int| 0 <= k < i ==> chars@[k] == wanted@[k],
        decreases wanted@.len() - i,
    {
        if chars[i] != wanted[i] {
            proof {
                assert(text@.take(start@.len() as int)[i as int] != start@[i as int]);
            }
            return false;
        }
        i += 1;
    }
    proof {
        assert(text@.take(start@.len() as int) =~= start@);
    }
    true
}

} // verus!
