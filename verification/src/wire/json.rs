//! A small JSON reader and writer, scoped to what the control channel needs.
//!
//! Full string escapes with `\uXXXX` surrogate pairs are read, and numbers are kept
//! as their exact source text, so a `u64` window id never passes through a
//! floating-point number.

use vstd::prelude::*;

use crate::text::byte_len;
use crate::text::chars_of;
use crate::text::decimal;
use crate::text::decimal_int;
use crate::text::is_digit;
use crate::text::lemma_byte_len_at_least;
use crate::text::lemma_byte_len_is_encoded_len;
use crate::text::lemma_byte_len_prefix;
use crate::text::lemma_byte_len_split;
use crate::text::owned;
use crate::text::parse_i32;
use crate::text::parse_unsigned;
use crate::text::same_text;
use crate::text::signed_text;
use crate::text::signed_to_text;
use crate::text::text_of;
use crate::text::unsigned_text;
use crate::text::unsigned_to_text;

verus! {

/// A JSON value, as mathematics: what a [`Value`] holds.
pub enum Json {
    Null,
    Bool(bool),
    Num(Seq<char>),
    Str(Seq<char>),
    Array(Seq<Json>),
    Object(Seq<(Seq<char>, Json)>),
}

/// A parsed JSON value. Objects keep insertion order (a `Vec` of pairs) because the
/// messages are small and order sometimes aids debugging; lookups are linear.
#[derive(Debug, PartialEq)]
pub enum Value {
    Null,
    Bool(bool),
    /// The number's exact source text, converted to a concrete integer type only at
    /// the field accessor. Keeps `u64` ids exact.
    Num(String),
    Str(String),
    Array(Vec<Value>),
    Object(Vec<(String, Value)>),
}

#[derive(Debug, Clone, PartialEq, Eq)]
pub struct JsonError {
    pub message: String,
    /// The byte offset in the input.
    pub at: usize,
}

/// What a [`JsonError`] says.
pub struct Fault {
    pub message: Seq<char>,
    pub at: int,
}

/// What reading one piece of a text gives: the piece and the index of the first
/// character behind it, or what is wrong.
pub type Parsed<T> = Result<(T, int), Fault>;

impl Value {
    pub open spec fn view(&self) -> Json
        decreases self,
    {
        match self {
            Value::Null => Json::Null,
            Value::Bool(b) => Json::Bool(*b),
            Value::Num(text) => Json::Num(text@),
            Value::Str(text) => Json::Str(text@),
            Value::Array(items) => Json::Array(
                Seq::new(
                    items@.len(),
                    |i: int|
                        if 0 <= i < items@.len() {
                            items@[i].view()
                        } else {
                            Json::Null
                        },
                ),
            ),
            Value::Object(fields) => Json::Object(
                Seq::new(
                    fields@.len(),
                    |i: int|
                        if 0 <= i < fields@.len() {
                            (fields@[i].0@, fields@[i].1.view())
                        } else {
                            (Seq::empty(), Json::Null)
                        },
                ),
            ),
        }
    }
}

impl JsonError {
    pub open spec fn view(&self) -> Fault {
        Fault { message: self.message@, at: self.at as int }
    }

    /// The error in words.
    pub fn describe(&self) -> (text: String)
        ensures
            text@ == "JSON error at byte "@ + decimal(self.at as nat) + ": "@ + self.message@,
    {
        String::from_str("JSON error at byte ").concat(
            unsigned_to_text(self.at as u64).as_str(),
        ).concat(": ").concat(self.message.as_str())
    }
}

// ---------------------------------------------------------------------------
// The grammar
// ---------------------------------------------------------------------------

/// The character at `i`, if there is one.
pub open spec fn char_at(text: Seq<char>, i: int) -> Option<char> {
    if 0 <= i < text.len() {
        Some(text[i])
    } else {
        None
    }
}

pub open spec fn is_space(c: char) -> bool {
    c == ' ' || c == '\t' || c == '\n' || c == '\r'
}

/// The first index from `i` on that holds no JSON white space.
pub open spec fn skip_spaces(text: Seq<char>, i: int) -> int
    decreases text.len() - i,
{
    if 0 <= i < text.len() && is_space(text[i]) {
        skip_spaces(text, i + 1)
    } else {
        i
    }
}

/// The first index from `i` on that holds no decimal digit.
pub open spec fn skip_digits(text: Seq<char>, i: int) -> int
    decreases text.len() - i,
{
    if 0 <= i < text.len() && is_digit(text[i]) {
        skip_digits(text, i + 1)
    } else {
        i
    }
}

/// `message` about the character at index `i`; the position is given in bytes.
pub open spec fn fault(text: Seq<char>, i: int, message: Seq<char>) -> Fault {
    Fault { message, at: byte_len(text.take(i)) as int }
}

/// The index behind the number that starts at `i`: an optional minus sign, digits,
/// an optional fraction, an optional exponent. A well-formed number is never cut
/// short, although the protocol only sends integers.
pub open spec fn number_end(text: Seq<char>, i: int) -> int {
    let whole = skip_digits(
        text,
        if char_at(text, i) == Some('-') {
            i + 1
        } else {
            i
        },
    );
    let fraction = if char_at(text, whole) == Some('.') {
        skip_digits(text, whole + 1)
    } else {
        whole
    };
    if char_at(text, fraction) == Some('e') || char_at(text, fraction) == Some('E') {
        let sign = fraction + 1;
        skip_digits(
            text,
            if char_at(text, sign) == Some('+') || char_at(text, sign) == Some('-') {
                sign + 1
            } else {
                sign
            },
        )
    } else {
        fraction
    }
}

pub open spec fn hex_value(c: char) -> Option<nat> {
    if '0' <= c <= '9' {
        Some((c as u32 - '0' as u32) as nat)
    } else if 'a' <= c <= 'f' {
        Some((c as u32 - 'a' as u32 + 10) as nat)
    } else if 'A' <= c <= 'F' {
        Some((c as u32 - 'A' as u32 + 10) as nat)
    } else {
        None
    }
}

/// The four hexadecimal digits at `i`.
pub open spec fn hex4_at(text: Seq<char>, i: int) -> Parsed<nat> {
    if byte_len(text.skip(i)) < 4 {
        Err(fault(text, i, "truncated \\u escape"@))
    } else if i + 4 <= text.len() && hex_value(text[i]) is Some && hex_value(text[i + 1]) is Some
        && hex_value(text[i + 2]) is Some && hex_value(text[i + 3]) is Some {
        Ok(
            (
                (4096 * hex_value(text[i])->0 + 256 * hex_value(text[i + 1])->0 + 16 * hex_value(
                    text[i + 2],
                )->0 + hex_value(text[i + 3])->0) as nat,
                i + 4,
            ),
        )
    } else {
        Err(fault(text, i, "invalid hex digit in \\u escape"@))
    }
}

/// The character that a `\u` escape stands for, where `i` is behind the `u`: a code
/// unit outside the surrogates, or a high surrogate followed by an escaped low one.
pub open spec fn unicode_escape_at(text: Seq<char>, i: int) -> Parsed<char> {
    match hex4_at(text, i) {
        Err(f) => Err(f),
        Ok((unit, j)) => if 0xD800 <= unit <= 0xDBFF {
            if char_at(text, j) != Some('\\') {
                Err(fault(text, j, "unpaired high surrogate"@))
            } else if char_at(text, j + 1) != Some('u') {
                Err(fault(text, j + 1, "unpaired high surrogate"@))
            } else {
                match hex4_at(text, j + 2) {
                    Err(f) => Err(f),
                    Ok((low, k)) => if 0xDC00 <= low <= 0xDFFF {
                        Ok(((0x10000 + (unit - 0xD800) * 0x400 + (low - 0xDC00)) as char, k))
                    } else {
                        Err(fault(text, k, "invalid low surrogate"@))
                    },
                }
            }
        } else if 0xDC00 <= unit <= 0xDFFF {
            Err(fault(text, j, "unexpected low surrogate"@))
        } else {
            Ok((unit as char, j))
        },
    }
}

/// The character that a one-letter escape stands for.
pub open spec fn simple_escape(c: char) -> Option<char> {
    if c == '"' || c == '\\' || c == '/' {
        Some(c)
    } else if c == 'b' {
        Some('\u{08}')
    } else if c == 'f' {
        Some('\u{0C}')
    } else if c == 'n' {
        Some('\n')
    } else if c == 'r' {
        Some('\r')
    } else if c == 't' {
        Some('\t')
    } else {
        None
    }
}

/// The character that an escape stands for, where `i` is behind the backslash.
pub open spec fn escape_at(text: Seq<char>, i: int) -> Parsed<char> {
    match char_at(text, i) {
        None => Err(fault(text, i, "unterminated escape"@)),
        Some(c) => match simple_escape(c) {
            Some(plain) => Ok((plain, i + 1)),
            None => if c == 'u' {
                unicode_escape_at(text, i + 1)
            } else {
                Err(
                    Fault {
                        message: "invalid escape"@,
                        at: byte_len(text.take(i)) as int + 1,
                    },
                )
            },
        },
    }
}

/// `first` put before the text that was read.
pub open spec fn prepend<T>(first: Seq<T>, parsed: Parsed<Seq<T>>) -> Parsed<Seq<T>> {
    match parsed {
        Ok((rest, end)) => Ok((first + rest, end)),
        Err(f) => Err(f),
    }
}

/// The contents of a string, where `i` is behind the opening quote.
pub open spec fn string_at(text: Seq<char>, i: int) -> Parsed<Seq<char>>
    decreases text.len() - i,
{
    match char_at(text, i) {
        None => Err(fault(text, i, "unterminated string"@)),
        Some(c) => if c == '"' {
            Ok((seq![], i + 1))
        } else if c == '\\' {
            match escape_at(text, i + 1) {
                Err(f) => Err(f),
                Ok((plain, j)) => if j > i && j <= text.len() {
                    prepend(seq![plain], string_at(text, j))
                } else {
                    Err(fault(text, i, seq![]))
                },
            }
        } else if c as u32 <= 0x1f {
            Err(fault(text, i, "control character in string"@))
        } else {
            prepend(seq![c], string_at(text, i + 1))
        },
    }
}

/// One of the three words, standing for `value`.
pub open spec fn word_at(text: Seq<char>, i: int, word: Seq<char>, value: Json) -> Parsed<Json> {
    if i + word.len() <= text.len() && text.subrange(i, i + word.len()) == word {
        Ok((value, i + word.len()))
    } else {
        Err(fault(text, i, "expected `"@ + word + "`"@))
    }
}

/// The value at `i`, with no white space before it.
pub open spec fn value_at(text: Seq<char>, i: int) -> Parsed<Json>
    decreases text.len() - i, 0int,
{
    match char_at(text, i) {
        None => Err(fault(text, i, "expected a JSON value"@)),
        Some(c) => if c == '{' {
            proof {
                lemma_skip_spaces(text, i + 1);
            }
            let j = skip_spaces(text, i + 1);
            if char_at(text, j) == Some('}') {
                Ok((Json::Object(seq![]), j + 1))
            } else {
                match members_at(text, i + 1) {
                    Ok((fields, k)) => Ok((Json::Object(fields), k)),
                    Err(f) => Err(f),
                }
            }
        } else if c == '[' {
            let j = skip_spaces(text, i + 1);
            if char_at(text, j) == Some(']') {
                Ok((Json::Array(seq![]), j + 1))
            } else {
                match elements_at(text, i + 1) {
                    Ok((items, k)) => Ok((Json::Array(items), k)),
                    Err(f) => Err(f),
                }
            }
        } else if c == '"' {
            match string_at(text, i + 1) {
                Ok((s, k)) => Ok((Json::Str(s), k)),
                Err(f) => Err(f),
            }
        } else if c == 't' {
            word_at(text, i, "true"@, Json::Bool(true))
        } else if c == 'f' {
            word_at(text, i, "false"@, Json::Bool(false))
        } else if c == 'n' {
            word_at(text, i, "null"@, Json::Null)
        } else if c == '-' || is_digit(c) {
            let end = number_end(text, i);
            Ok((Json::Num(text.subrange(i, end)), end))
        } else {
            Err(fault(text, i, "expected a JSON value"@))
        },
    }
}

/// The items of an array from `i` on, through the closing bracket.
pub open spec fn elements_at(text: Seq<char>, i: int) -> Parsed<Seq<Json>>
    decreases text.len() - i, 1int,
{
    proof {
        lemma_skip_spaces(text, i);
    }
    let j = skip_spaces(text, i);
    match value_at(text, j) {
        Err(f) => Err(f),
        Ok((item, k)) => if k > j && k <= text.len() {
            proof {
                lemma_skip_spaces(text, k);
            }
            let m = skip_spaces(text, k);
            if char_at(text, m) == Some(',') {
                prepend(seq![item], elements_at(text, m + 1))
            } else if char_at(text, m) == Some(']') {
                Ok((seq![item], m + 1))
            } else {
                Err(fault(text, m, "expected `,` or `]` in array"@))
            }
        } else {
            Err(fault(text, j, seq![]))
        },
    }
}

/// The members of an object from `i` on, through the closing brace.
pub open spec fn members_at(text: Seq<char>, i: int) -> Parsed<Seq<(Seq<char>, Json)>>
    decreases text.len() - i, 1int,
{
    proof {
        lemma_skip_spaces(text, i);
    }
    let j = skip_spaces(text, i);
    if char_at(text, j) != Some('"') {
        Err(fault(text, j, "expected string key in object"@))
    } else {
        match string_at(text, j + 1) {
            Err(f) => Err(f),
            Ok((key, k)) => if k > j && k <= text.len() {
                proof {
                    lemma_skip_spaces(text, k);
                }
                let m = skip_spaces(text, k);
                if char_at(text, m) != Some(':') {
                    Err(fault(text, m, "expected `:` after object key"@))
                } else {
                    proof {
                        lemma_skip_spaces(text, m + 1);
                    }
                    let n = skip_spaces(text, m + 1);
                    match value_at(text, n) {
                        Err(f) => Err(f),
                        Ok((value, p)) => if p > n && p <= text.len() {
                            proof {
                                lemma_skip_spaces(text, p);
                            }
                            let q = skip_spaces(text, p);
                            if char_at(text, q) == Some(',') {
                                prepend(seq![(key, value)], members_at(text, q + 1))
                            } else if char_at(text, q) == Some('}') {
                                Ok((seq![(key, value)], q + 1))
                            } else {
                                Err(fault(text, q, "expected `,` or `}` in object"@))
                            }
                        } else {
                            Err(fault(text, n, seq![]))
                        },
                    }
                }
            } else {
                Err(fault(text, j, seq![]))
            },
        }
    }
}

/// The value of a whole document: one value, with white space around it.
pub open spec fn document(text: Seq<char>) -> Result<Json, Fault> {
    match value_at(text, skip_spaces(text, 0)) {
        Err(f) => Err(f),
        Ok((value, k)) => {
            let end = skip_spaces(text, k);
            if end == text.len() {
                Ok(value)
            } else {
                Err(fault(text, end, "trailing characters after JSON value"@))
            }
        },
    }
}

pub proof fn lemma_skip_spaces(text: Seq<char>, i: int)
    ensures
        i <= skip_spaces(text, i),
        i <= text.len() ==> skip_spaces(text, i) <= text.len(),
        0 <= skip_spaces(text, i) < text.len() ==> !is_space(text[skip_spaces(text, i)]),
    decreases text.len() - i,
{
    if 0 <= i < text.len() && is_space(text[i]) {
        lemma_skip_spaces(text, i + 1);
    }
}

pub proof fn lemma_skip_digits(text: Seq<char>, i: int)
    ensures
        i <= skip_digits(text, i),
        i <= text.len() ==> skip_digits(text, i) <= text.len(),
    decreases text.len() - i,
{
    if 0 <= i < text.len() && is_digit(text[i]) {
        lemma_skip_digits(text, i + 1);
    }
}

// ---------------------------------------------------------------------------
// The reader
// ---------------------------------------------------------------------------

/// A cursor over the characters of a document.
struct Parser {
    chars: Vec<char>,
    /// The index of the next character.
    next: usize,
    /// The byte offset of the next character.
    at: usize,
    /// The length of the document in bytes.
    total: usize,
}

impl Parser {
    spec fn wf(self) -> bool {
        &&& self.next <= self.chars@.len()
        &&& self.at == byte_len(self.chars@.take(self.next as int))
        &&& self.total == byte_len(self.chars@)
    }

    /// The cursor `later` has read on in the text of `self`.
    spec fn leads_to(self, later: Self) -> bool {
        &&& later.wf()
        &&& later.chars@ == self.chars@
        &&& later.next >= self.next
    }

    fn err(&self, message: &str) -> (error: JsonError)
        requires
            self.wf(),
        ensures
            error@ == fault(self.chars@, self.next as int, message@),
    {
        JsonError { message: owned(message), at: self.at }
    }

    fn peek(&self) -> (c: Option<char>)
        requires
            self.wf(),
        ensures
            c == char_at(self.chars@, self.next as int),
    {
        if self.next < self.chars.len() {
            Some(self.chars[self.next])
        } else {
            None
        }
    }

    /// Whether the next character is `c`.
    fn sees(&self, c: char) -> (seen: bool)
        requires
            self.wf(),
        ensures
            seen == (char_at(self.chars@, self.next as int) == Some(c)),
    {
        self.next < self.chars.len() && self.chars[self.next] == c
    }

    /// Step over the next character.
    fn advance(&mut self)
        requires
            old(self).wf(),
            old(self).next < old(self).chars@.len(),
        ensures
            old(self).leads_to(*final(self)),
            final(self).next == old(self).next + 1,
    {
        let c = self.chars[self.next];
        let width: usize = if c as u32 <= 0x7f {
            1
        } else if c as u32 <= 0x7ff {
            2
        } else if c as u32 <= 0xffff {
            3
        } else {
            4
        };
        proof {
            lemma_byte_len_prefix(self.chars@, self.next as int);
            lemma_byte_len_split(self.chars@, self.next + 1);
            assert(self.chars@.len() == self.chars.len());
        }
        self.at = self.at + width;
        self.next = self.next + 1;
    }

    fn skip_ws(&mut self)
        requires
            old(self).wf(),
        ensures
            old(self).leads_to(*final(self)),
            final(self).next == skip_spaces(old(self).chars@, old(self).next as int),
    {
        while self.next < self.chars.len()
            invariant
                old(self).leads_to(*self),
                skip_spaces(self.chars@, self.next as int) == skip_spaces(
                    old(self).chars@,
                    old(self).next as int,
                ),
            ensures
                skip_spaces(self.chars@, self.next as int) == self.next,
            decreases self.chars@.len() - self.next,
        {
            let c = self.chars[self.next];
            if c == ' ' || c == '\t' || c == '\n' || c == '\r' {
                self.advance();
            } else {
                break;
            }
        }
    }

    fn skip_number_digits(&mut self)
        requires
            old(self).wf(),
        ensures
            old(self).leads_to(*final(self)),
            final(self).next == skip_digits(old(self).chars@, old(self).next as int),
    {
        while self.next < self.chars.len()
            invariant
                old(self).leads_to(*self),
                skip_digits(self.chars@, self.next as int) == skip_digits(
                    old(self).chars@,
                    old(self).next as int,
                ),
            ensures
                skip_digits(self.chars@, self.next as int) == self.next,
            decreases self.chars@.len() - self.next,
        {
            let c = self.chars[self.next];
            if '0' <= c && c <= '9' {
                self.advance();
            } else {
                break;
            }
        }
    }

    fn parse_value(&mut self) -> (result: Result<Value, JsonError>)
        requires
            old(self).wf(),
        ensures
            old(self).leads_to(*final(self)),
            match result {
                Ok(value) => {
                    &&& value_at(old(self).chars@, old(self).next as int) == Ok::<(Json, int), Fault>(
                        (value@, final(self).next as int),
                    )
                    &&& final(self).next > old(self).next
                },
                Err(error) => value_at(old(self).chars@, old(self).next as int) == Err::<
                    (Json, int),
                    Fault,
                >(error@),
            },
        decreases old(self).chars@.len() - old(self).next, 0int,
    {
        proof {
            reveal_strlit("true");
            reveal_strlit("false");
            reveal_strlit("null");
        }
        match self.peek() {
            None => Err(self.err("expected a JSON value")),
            Some(c) => if c == '{' {
                self.parse_object()
            } else if c == '[' {
                self.parse_array()
            } else if c == '"' {
                match self.parse_string() {
                    Ok(s) => Ok(Value::Str(s)),
                    Err(e) => Err(e),
                }
            } else if c == 't' {
                self.parse_lit("true", Value::Bool(true))
            } else if c == 'f' {
                self.parse_lit("false", Value::Bool(false))
            } else if c == 'n' {
                self.parse_lit("null", Value::Null)
            } else if c == '-' || ('0' <= c && c <= '9') {
                Ok(self.parse_number())
            } else {
                Err(self.err("expected a JSON value"))
            },
        }
    }

    fn parse_lit(&mut self, lit: &str, value: Value) -> (result: Result<Value, JsonError>)
        requires
            old(self).wf(),
            lit@.len() > 0,
        ensures
            old(self).leads_to(*final(self)),
            match result {
                Ok(v) => {
                    &&& word_at(old(self).chars@, old(self).next as int, lit@, value@) == Ok::<
                        (Json, int),
                        Fault,
                    >((v@, final(self).next as int))
                    &&& final(self).next > old(self).next
                },
                Err(error) => word_at(old(self).chars@, old(self).next as int, lit@, value@)
                    == Err::<(Json, int), Fault>(error@),
            },
    {
        let ghost text = self.chars@;
        let ghost start = self.next as int;
        let word = chars_of(lit);
        let mut k: usize = 0;
        let begun_at: usize = self.at;
        while k < word.len()
            invariant
                old(self).leads_to(*self),
                text == old(self).chars@,
                start == old(self).next,
                word@ == lit@,
                k <= word@.len(),
                self.next == start + k,
                begun_at == old(self).at,
                old(self).wf(),
                text.subrange(start, start + k) == lit@.take(k as int),
            decreases word@.len() - k,
        {
            if !self.sees(word[k]) {
                proof {
                    if start + lit@.len() <= text.len() && text.subrange(start, start + lit@.len())
                        == lit@ {
                        assert(text.subrange(start, start + lit@.len())[k as int] == text[start
                            + k]);
                    }
                }
                return Err(
                    JsonError {
                        message: String::from_str("expected `").concat(lit).concat("`"),
                        at: begun_at,
                    },
                );
            }
            self.advance();
            proof {
                assert(text.subrange(start, start + k + 1) =~= text.subrange(start, start + k).push(
                    text[start + k],
                ));
                assert(lit@.take(k + 1) =~= lit@.take(k as int).push(lit@[k as int]));
            }
            k += 1;
        }
        proof {
            assert(lit@.take(k as int) =~= lit@);
        }
        Ok(value)
    }

    fn parse_number(&mut self) -> (value: Value)
        requires
            old(self).wf(),
            old(self).next < old(self).chars@.len(),
            ({
                let c = old(self).chars@[old(self).next as int];
                c == '-' || is_digit(c)
            }),
        ensures
            old(self).leads_to(*final(self)),
            final(self).next > old(self).next,
            final(self).next == number_end(old(self).chars@, old(self).next as int),
            value@ == Json::Num(
                old(self).chars@.subrange(old(self).next as int, final(self).next as int),
            ),
    {
        let start: usize = self.next;
        if self.sees('-') {
            self.advance();
        }
        self.skip_number_digits();
        if self.sees('.') {
            self.advance();
            self.skip_number_digits();
        }
        if self.sees('e') || self.sees('E') {
            self.advance();
            if self.sees('+') || self.sees('-') {
                self.advance();
            }
            self.skip_number_digits();
        }
        proof {
            lemma_skip_digits(self.chars@, start + 1);
        }
        Value::Num(text_of(&self.chars, start, self.next))
    }

    fn parse_string(&mut self) -> (result: Result<String, JsonError>)
        requires
            old(self).wf(),
            char_at(old(self).chars@, old(self).next as int) == Some('"'),
        ensures
            old(self).leads_to(*final(self)),
            match result {
                Ok(s) => {
                    &&& string_at(old(self).chars@, old(self).next + 1) == Ok::<
                        (Seq<char>, int),
                        Fault,
                    >((s@, final(self).next as int))
                    &&& final(self).next > old(self).next + 1
                },
                Err(error) => string_at(old(self).chars@, old(self).next + 1) == Err::<
                    (Seq<char>, int),
                    Fault,
                >(error@),
            },
    {
        let ghost text = self.chars@;
        let ghost start = self.next + 1;
        self.advance();
        let mut out = String::new();
        proof {
            lemma_prepend_nothing(string_at(text, start));
        }
        loop
            invariant
                old(self).leads_to(*self),
                text == old(self).chars@,
                start == old(self).next + 1,
                self.next >= start,
                string_at(text, start) == prepend(out@, string_at(text, self.next as int)),
            decreases text.len() - self.next,
        {
            let ghost here = self.next as int;
            let ghost read = out@;
            let c = match self.peek() {
                None => {
                    return Err(self.err("unterminated string"));
                },
                Some(c) => c,
            };
            if c == '"' {
                self.advance();
                proof {
                    assert(read + Seq::<char>::empty() =~= read);
                }
                return Ok(out);
            }
            if c == '\\' {
                self.advance();
                match self.parse_escape() {
                    Ok(plain) => {
                        out.push(plain);
                        proof {
                            lemma_prepend_twice(
                                read,
                                seq![plain],
                                string_at(text, self.next as int),
                            );
                            assert(read + seq![plain] =~= out@);
                        }
                    },
                    Err(e) => {
                        return Err(e);
                    },
                }
            } else if c as u32 <= 0x1f {
                // A raw control character is invalid in a JSON string.
                return Err(self.err("control character in string"));
            } else {
                self.advance();
                out.push(c);
                proof {
                    lemma_prepend_twice(read, seq![c], string_at(text, self.next as int));
                    assert(read + seq![c] =~= out@);
                }
            }
        }
    }

    /// Read one escape sequence whose backslash has been consumed.
    fn parse_escape(&mut self) -> (result: Result<char, JsonError>)
        requires
            old(self).wf(),
        ensures
            old(self).leads_to(*final(self)),
            match result {
                Ok(c) => {
                    &&& escape_at(old(self).chars@, old(self).next as int) == Ok::<
                        (char, int),
                        Fault,
                    >((c, final(self).next as int))
                    &&& final(self).next > old(self).next
                },
                Err(error) => escape_at(old(self).chars@, old(self).next as int) == Err::<
                    (char, int),
                    Fault,
                >(error@),
            },
    {
        let c = match self.peek() {
            None => {
                return Err(self.err("unterminated escape"));
            },
            Some(c) => c,
        };
        if c == '"' || c == '\\' || c == '/' {
            self.advance();
            Ok(c)
        } else if c == 'b' {
            self.advance();
            Ok('\u{08}')
        } else if c == 'f' {
            self.advance();
            Ok('\u{0C}')
        } else if c == 'n' {
            self.advance();
            Ok('\n')
        } else if c == 'r' {
            self.advance();
            Ok('\r')
        } else if c == 't' {
            self.advance();
            Ok('\t')
        } else if c == 'u' {
            self.advance();
            self.parse_unicode_escape()
        } else {
            proof {
                lemma_byte_len_prefix(self.chars@, self.next as int);
                lemma_byte_len_split(self.chars@, self.next + 1);
            }
            Err(JsonError { message: owned("invalid escape"), at: self.at + 1 })
        }
    }

    fn parse_unicode_escape(&mut self) -> (result: Result<char, JsonError>)
        requires
            old(self).wf(),
        ensures
            old(self).leads_to(*final(self)),
            match result {
                Ok(c) => unicode_escape_at(old(self).chars@, old(self).next as int) == Ok::<
                    (char, int),
                    Fault,
                >((c, final(self).next as int)),
                Err(error) => unicode_escape_at(old(self).chars@, old(self).next as int) == Err::<
                    (char, int),
                    Fault,
                >(error@),
            },
    {
        let unit: u32 = match self.parse_hex4() {
            Ok(unit) => unit,
            Err(e) => {
                return Err(e);
            },
        };
        if 0xD800 <= unit && unit <= 0xDBFF {
            // A high surrogate must be followed by a low one.
            if !self.sees('\\') {
                return Err(self.err("unpaired high surrogate"));
            }
            self.advance();
            if !self.sees('u') {
                return Err(self.err("unpaired high surrogate"));
            }
            self.advance();
            let low: u32 = match self.parse_hex4() {
                Ok(low) => low,
                Err(e) => {
                    return Err(e);
                },
            };
            if !(0xDC00 <= low && low <= 0xDFFF) {
                return Err(self.err("invalid low surrogate"));
            }
            let number: u32 = 0x10000 + (unit - 0xD800) * 0x400 + (low - 0xDC00);
            match char::from_u32(number) {
                Some(c) => {
                    proof {
                        vstd::utf8::char_u32_cast(c, number);
                    }
                    Ok(c)
                },
                None => Err(self.err("invalid surrogate pair")),
            }
        } else if 0xDC00 <= unit && unit <= 0xDFFF {
            Err(self.err("unexpected low surrogate"))
        } else {
            match char::from_u32(unit) {
                Some(c) => {
                    proof {
                        vstd::utf8::char_u32_cast(c, unit);
                    }
                    Ok(c)
                },
                None => Err(self.err("invalid \\u escape")),
            }
        }
    }

    fn parse_hex4(&mut self) -> (result: Result<u32, JsonError>)
        requires
            old(self).wf(),
        ensures
            old(self).leads_to(*final(self)),
            match result {
                Ok(n) => {
                    &&& hex4_at(old(self).chars@, old(self).next as int) == Ok::<(nat, int), Fault>(
                        (n as nat, final(self).next as int),
                    )
                    &&& n <= 0xffff
                },
                Err(error) => hex4_at(old(self).chars@, old(self).next as int) == Err::<
                    (nat, int),
                    Fault,
                >(error@),
            },
    {
        let ghost text = self.chars@;
        let ghost start = self.next as int;
        proof {
            lemma_byte_len_split(text, start);
            lemma_byte_len_at_least(text.skip(start));
        }
        if self.total - self.at < 4 {
            return Err(self.err("truncated \\u escape"));
        }
        let mut value: u32 = 0;
        let mut k: usize = 0;
        let begun_at: usize = self.at;
        while k < 4
            invariant
                old(self).leads_to(*self),
                text == old(self).chars@,
                start == old(self).next,
                begun_at == old(self).at,
                old(self).wf(),
                byte_len(text.skip(start)) >= 4,
                k <= 4,
                self.next == start + k,
                forall|m: int| 0 <= m < k ==> hex_value(#[trigger] text[start + m]) is Some,
                k == 0 ==> value == 0,
                k == 1 ==> value == hex_value(text[start])->0,
                k == 2 ==> value == 16 * hex_value(text[start])->0 + hex_value(text[start + 1])->0,
                k == 3 ==> value == 256 * hex_value(text[start])->0 + 16 * hex_value(
                    text[start + 1],
                )->0 + hex_value(text[start + 2])->0,
                k == 4 ==> value == 4096 * hex_value(text[start])->0 + 256 * hex_value(
                    text[start + 1],
                )->0 + 16 * hex_value(text[start + 2])->0 + hex_value(text[start + 3])->0,
                value <= (if k == 0 {
                    0
                } else if k == 1 {
                    0xfint
                } else if k == 2 {
                    0xffint
                } else if k == 3 {
                    0xfffint
                } else {
                    0xffffint
                }),
            decreases 4 - k,
        {
            let digit: Option<u32> = match self.peek() {
                None => None,
                Some(c) => hex_digit(c),
            };
            match digit {
                None => {
                    proof {
                        if self.next < text.len() {
                            assert(hex_value(text[start + k]) is None);
                        }
                    }
                    return Err(
                        JsonError {
                            message: owned("invalid hex digit in \\u escape"),
                            at: begun_at,
                        },
                    );
                },
                Some(d) => {
                    value = value * 16 + d;
                },
            }
            self.advance();
            k += 1;
        }
        proof {
            assert(hex_value(text[start + 0]) is Some);
            assert(hex_value(text[start + 1]) is Some);
            assert(hex_value(text[start + 2]) is Some);
            assert(hex_value(text[start + 3]) is Some);
        }
        Ok(value)
    }

    fn parse_array(&mut self) -> (result: Result<Value, JsonError>)
        requires
            old(self).wf(),
            char_at(old(self).chars@, old(self).next as int) == Some('['),
        ensures
            old(self).leads_to(*final(self)),
            match result {
                Ok(value) => {
                    &&& value_at(old(self).chars@, old(self).next as int) == Ok::<(Json, int), Fault>(
                        (value@, final(self).next as int),
                    )
                    &&& final(self).next > old(self).next
                },
                Err(error) => value_at(old(self).chars@, old(self).next as int) == Err::<
                    (Json, int),
                    Fault,
                >(error@),
            },
        decreases old(self).chars@.len() - old(self).next - 1, 1int,
    {
        let ghost text = self.chars@;
        let ghost start = self.next + 1;
        self.advance();
        let mut items: Vec<Value> = Vec::new();
        self.skip_ws();
        if self.sees(']') {
            self.advance();
            let value = Value::Array(items);
            proof {
                assert(value@->Array_0 =~= Seq::<Json>::empty());
            }
            return Ok(value);
        }
        proof {
            lemma_skip_spaces(text, start);
            assert(elements_at(text, start) == elements_at(text, self.next as int));
            lemma_prepend_nothing(elements_at(text, start));
            assert(values_view(items@) =~= Seq::<Json>::empty());
        }
        loop
            invariant
                old(self).leads_to(*self),
                text == old(self).chars@,
                start == old(self).next + 1,
                self.next >= start,
                char_at(text, start - 1) == Some('['),
                char_at(text, skip_spaces(text, start)) != Some(']'),
                elements_at(text, start) == prepend(
                    values_view(items@),
                    elements_at(text, self.next as int),
                ),
            decreases text.len() - self.next,
        {
            let ghost here = self.next as int;
            let ghost read = items@;
            self.skip_ws();
            proof {
                lemma_skip_spaces(text, here);
            }
            let item = match self.parse_value() {
                Ok(item) => item,
                Err(e) => {
                    return Err(e);
                },
            };
            items.push(item);
            proof {
                assert(values_view(items@) =~= values_view(read) + seq![item@]);
            }
            self.skip_ws();
            if self.sees(',') {
                self.advance();
                proof {
                    lemma_prepend_twice(
                        values_view(read),
                        seq![item@],
                        elements_at(text, self.next as int),
                    );
                }
            } else if self.sees(']') {
                self.advance();
                let value = Value::Array(items);
                proof {
                    assert(value@->Array_0 =~= values_view(items@));
                }
                return Ok(value);
            } else {
                return Err(self.err("expected `,` or `]` in array"));
            }
        }
    }

    fn parse_object(&mut self) -> (result: Result<Value, JsonError>)
        requires
            old(self).wf(),
            char_at(old(self).chars@, old(self).next as int) == Some('{'),
        ensures
            old(self).leads_to(*final(self)),
            match result {
                Ok(value) => {
                    &&& value_at(old(self).chars@, old(self).next as int) == Ok::<(Json, int), Fault>(
                        (value@, final(self).next as int),
                    )
                    &&& final(self).next > old(self).next
                },
                Err(error) => value_at(old(self).chars@, old(self).next as int) == Err::<
                    (Json, int),
                    Fault,
                >(error@),
            },
        decreases old(self).chars@.len() - old(self).next - 1, 1int,
    {
        let ghost text = self.chars@;
        let ghost start = self.next + 1;
        self.advance();
        let mut fields: Vec<(String, Value)> = Vec::new();
        self.skip_ws();
        if self.sees('}') {
            self.advance();
            let value = Value::Object(fields);
            proof {
                assert(value@->Object_0 =~= Seq::<(Seq<char>, Json)>::empty());
            }
            return Ok(value);
        }
        proof {
            lemma_skip_spaces(text, start);
            assert(members_at(text, start) == members_at(text, self.next as int));
            lemma_prepend_nothing(members_at(text, start));
            assert(fields_view(fields@) =~= Seq::<(Seq<char>, Json)>::empty());
        }
        loop
            invariant
                old(self).leads_to(*self),
                text == old(self).chars@,
                start == old(self).next + 1,
                self.next >= start,
                char_at(text, start - 1) == Some('{'),
                char_at(text, skip_spaces(text, start)) != Some('}'),
                members_at(text, start) == prepend(
                    fields_view(fields@),
                    members_at(text, self.next as int),
                ),
            decreases text.len() - self.next,
        {
            let ghost here = self.next as int;
            let ghost read = fields@;
            proof {
                lemma_skip_spaces(text, here);
            }
            self.skip_ws();
            if !self.sees('"') {
                return Err(self.err("expected string key in object"));
            }
            let key = match self.parse_string() {
                Ok(key) => key,
                Err(e) => {
                    return Err(e);
                },
            };
            self.skip_ws();
            if !self.sees(':') {
                return Err(self.err("expected `:` after object key"));
            }
            self.advance();
            self.skip_ws();
            let value = match self.parse_value() {
                Ok(value) => value,
                Err(e) => {
                    return Err(e);
                },
            };
            fields.push((key, value));
            proof {
                assert(fields_view(fields@) =~= fields_view(read) + seq![(key@, value@)]);
            }
            self.skip_ws();
            if self.sees(',') {
                self.advance();
                proof {
                    lemma_prepend_twice(
                        fields_view(read),
                        seq![(key@, value@)],
                        members_at(text, self.next as int),
                    );
                }
            } else if self.sees('}') {
                self.advance();
                let value = Value::Object(fields);
                proof {
                    assert(value@->Object_0 =~= fields_view(fields@));
                }
                return Ok(value);
            } else {
                return Err(self.err("expected `,` or `}` in object"));
            }
        }
    }
}

/// What the items of an array hold.
pub open spec fn values_view(items: Seq<Value>) -> Seq<Json> {
    Seq::new(items.len(), |i: int| items[i]@)
}

/// What the members of an object hold.
pub open spec fn fields_view(fields: Seq<(String, Value)>) -> Seq<(Seq<char>, Json)> {
    Seq::new(fields.len(), |i: int| (fields[i].0@, fields[i].1@))
}

impl Value {
    /// Parse a whole JSON document. Trailing whitespace is allowed; trailing
    /// non-whitespace is an error.
    pub fn parse(input: &str) -> (result: Result<Value, JsonError>)
        ensures
            match result {
                Ok(value) => document(input@) == Ok::<Json, Fault>(value@),
                Err(error) => document(input@) == Err::<Json, Fault>(error@),
            },
    {
        let chars = chars_of(input);
        proof {
            lemma_byte_len_is_encoded_len(input@);
            assert(byte_len(input@.take(0)) == 0);
        }
        let mut p = Parser { chars, next: 0, at: 0, total: input.as_bytes().len() };
        p.skip_ws();
        let value = match p.parse_value() {
            Ok(value) => value,
            Err(e) => {
                return Err(e);
            },
        };
        p.skip_ws();
        if p.next != p.chars.len() {
            return Err(p.err("trailing characters after JSON value"));
        }
        Ok(value)
    }
}

fn hex_digit(c: char) -> (digit: Option<u32>)
    ensures
        match digit {
            Some(d) => hex_value(c) == Some(d as nat) && d < 16,
            None => hex_value(c) is None,
        },
{
    if '0' <= c && c <= '9' {
        Some(c as u32 - '0' as u32)
    } else if 'a' <= c && c <= 'f' {
        Some(c as u32 - 'a' as u32 + 10)
    } else if 'A' <= c && c <= 'F' {
        Some(c as u32 - 'A' as u32 + 10)
    } else {
        None
    }
}

proof fn lemma_prepend_nothing<T>(parsed: Parsed<Seq<T>>)
    ensures
        prepend(Seq::<T>::empty(), parsed) == parsed,
{
    match parsed {
        Ok((rest, end)) => {
            assert(Seq::<T>::empty() + rest =~= rest);
        },
        Err(f) => {},
    }
}

proof fn lemma_prepend_twice<T>(a: Seq<T>, b: Seq<T>, parsed: Parsed<Seq<T>>)
    ensures
        prepend(a, prepend(b, parsed)) == prepend(a + b, parsed),
{
    match parsed {
        Ok((rest, end)) => {
            assert(a + (b + rest) =~= (a + b) + rest);
        },
        Err(f) => {},
    }
}

// ---------------------------------------------------------------------------
// The writer
// ---------------------------------------------------------------------------

/// The lower-case hexadecimal digit of `n`.
pub open spec fn hex_char(n: nat) -> char {
    if n < 10 {
        ('0' as u32 + n) as char
    } else {
        ('a' as u32 + n - 10) as char
    }
}

/// How a character is written inside a string.
pub open spec fn escaped_char(c: char) -> Seq<char> {
    if c == '"' {
        seq!['\\', '"']
    } else if c == '\\' {
        seq!['\\', '\\']
    } else if c == '\n' {
        seq!['\\', 'n']
    } else if c == '\r' {
        seq!['\\', 'r']
    } else if c == '\t' {
        seq!['\\', 't']
    } else if c == '\u{08}' {
        seq!['\\', 'b']
    } else if c == '\u{0C}' {
        seq!['\\', 'f']
    } else if c as u32 <= 0x1f {
        seq![
            '\\',
            'u',
            '0',
            '0',
            hex_char((c as u32 / 16) as nat),
            hex_char((c as u32 % 16) as nat),
        ]
    } else {
        seq![c]
    }
}

/// The characters of a string, as they are written between the quotes.
pub open spec fn escaped_body(s: Seq<char>) -> Seq<char>
    decreases s.len(),
{
    if s.len() == 0 {
        seq![]
    } else {
        escaped_body(s.drop_last()) + escaped_char(s.last())
    }
}

/// A string as it is written.
pub open spec fn escaped(s: Seq<char>) -> Seq<char> {
    seq!['"'] + escaped_body(s) + seq!['"']
}

/// The compact text of a value: no insignificant white space.
pub open spec fn json_text(value: Json) -> Seq<char>
    decreases value,
{
    match value {
        Json::Null => "null"@,
        Json::Bool(b) => if b {
            "true"@
        } else {
            "false"@
        },
        Json::Num(text) => text,
        Json::Str(s) => escaped(s),
        Json::Array(items) => seq!['['] + items_text(items) + seq![']'],
        Json::Object(fields) => seq!['{'] + fields_text(fields) + seq!['}'],
    }
}

/// The items of an array, with commas between them.
pub open spec fn items_text(items: Seq<Json>) -> Seq<char>
    decreases items,
{
    if items.len() == 0 {
        seq![]
    } else if items.len() == 1 {
        json_text(items[0])
    } else {
        items_text(items.drop_last()) + seq![','] + json_text(items.last())
    }
}

/// The members of an object, with commas between them.
pub open spec fn fields_text(fields: Seq<(Seq<char>, Json)>) -> Seq<char>
    decreases fields,
{
    if fields.len() == 0 {
        seq![]
    } else if fields.len() == 1 {
        escaped(fields[0].0) + seq![':'] + json_text(fields[0].1)
    } else {
        fields_text(fields.drop_last()) + seq![','] + escaped(fields.last().0) + seq![':']
            + json_text(fields.last().1)
    }
}

impl Clone for Value {
    fn clone(&self) -> (copy: Self)
        ensures
            copy@ == self@,
        decreases self,
    {
        match self {
            Value::Null => Value::Null,
            Value::Bool(b) => Value::Bool(*b),
            Value::Num(text) => Value::Num(text.clone()),
            Value::Str(text) => Value::Str(text.clone()),
            Value::Array(items) => {
                let mut copies: Vec<Value> = Vec::new();
                let mut i: usize = 0;
                while i < items.len()
                    invariant
                        i <= items@.len(),
                        *self == Value::Array(*items),
                        copies@.len() == i,
                        forall|k: int| 0 <= k < i ==> (#[trigger] copies@[k])@ == items@[k]@,
                    decreases items@.len() - i,
                {
                    proof {
                        assert(decreases_to!(*self => self->Array_0));
                        assert(decreases_to!(*items => items@));
                        assert(decreases_to!(items@ => items@[i as int]));
                    }
                    copies.push(items[i].clone());
                    i += 1;
                }
                let copy = Value::Array(copies);
                proof {
                    assert(copy@->Array_0 =~= values_view(copies@));
                    assert(self@->Array_0 =~= values_view(items@));
                    assert(values_view(copies@) =~= values_view(items@));
                }
                copy
            },
            Value::Object(fields) => {
                let mut copies: Vec<(String, Value)> = Vec::new();
                let mut i: usize = 0;
                while i < fields.len()
                    invariant
                        i <= fields@.len(),
                        *self == Value::Object(*fields),
                        copies@.len() == i,
                        forall|k: int|
                            0 <= k < i ==> (#[trigger] copies@[k]).0@ == fields@[k].0@
                                && copies@[k].1@ == fields@[k].1@,
                    decreases fields@.len() - i,
                {
                    proof {
                        assert(decreases_to!(*self => self->Object_0));
                        assert(decreases_to!(*fields => fields@));
                        assert(decreases_to!(fields@ => fields@[i as int]));
                        assert(decreases_to!(fields@[i as int] => fields@[i as int].1));
                    }
                    copies.push((fields[i].0.clone(), fields[i].1.clone()));
                    i += 1;
                }
                let copy = Value::Object(copies);
                proof {
                    assert(copy@->Object_0 =~= fields_view(copies@));
                    assert(self@->Object_0 =~= fields_view(fields@));
                    assert(fields_view(copies@) =~= fields_view(fields@));
                }
                copy
            },
        }
    }
}

impl Value {
    /// Serialize to compact JSON (no insignificant whitespace).
    pub fn to_json(&self) -> (text: String)
        ensures
            text@ == json_text(self@),
    {
        let mut out = String::new();
        self.write(&mut out);
        proof {
            assert(out@ =~= json_text(self@));
        }
        out
    }

    fn write(&self, out: &mut String)
        ensures
            final(out)@ == old(out)@ + json_text(self@),
        decreases self,
    {
        let ghost before = out@;
        match self {
            Value::Null => {
                out.append("null");
            },
            Value::Bool(b) => {
                if *b {
                    out.append("true");
                } else {
                    out.append("false");
                }
            },
            Value::Num(text) => {
                out.append(text.as_str());
            },
            Value::Str(s) => {
                write_escaped(s.as_str(), out);
            },
            Value::Array(items) => {
                let ghost all = values_view(items@);
                out.push('[');
                let mut i: usize = 0;
                proof {
                    assert(all.take(0) =~= Seq::<Json>::empty());
                    assert(items_text(all.take(0)) =~= Seq::<char>::empty());
                    assert(out@ =~= before + seq!['['] + items_text(all.take(0)));
                }
                while i < items.len()
                    invariant
                        i <= items@.len(),
                        all == values_view(items@),
                        *self == Value::Array(*items),
                        out@ == before + seq!['['] + items_text(all.take(i as int)),
                    decreases items@.len() - i,
                {
                    if i > 0 {
                        out.push(',');
                    }
                    proof {
                        assert(decreases_to!(*self => self->Array_0));
                        assert(decreases_to!(*items => items@));
                        assert(decreases_to!(items@ => items@[i as int]));
                    }
                    items[i].write(out);
                    proof {
                        assert(all.take(i + 1).drop_last() =~= all.take(i as int));
                        assert(all.take(i + 1).last() == items@[i as int]@);
                        if i == 0 {
                            assert(all.take(i as int) =~= Seq::<Json>::empty());
                            assert(items_text(all.take(i as int)) =~= Seq::<char>::empty());
                        }
                        assert(out@ =~= before + seq!['['] + items_text(all.take(i + 1)));
                    }
                    i += 1;
                }
                out.push(']');
                proof {
                    assert(all.take(i as int) =~= all);
                    assert(self@->Array_0 =~= all);
                    assert(out@ =~= before + json_text(self@));
                }
            },
            Value::Object(fields) => {
                let ghost all = fields_view(fields@);
                out.push('{');
                let mut i: usize = 0;
                proof {
                    assert(all.take(0) =~= Seq::<(Seq<char>, Json)>::empty());
                    assert(fields_text(all.take(0)) =~= Seq::<char>::empty());
                    assert(out@ =~= before + seq!['{'] + fields_text(all.take(0)));
                }
                while i < fields.len()
                    invariant
                        i <= fields@.len(),
                        all == fields_view(fields@),
                        *self == Value::Object(*fields),
                        out@ == before + seq!['{'] + fields_text(all.take(i as int)),
                    decreases fields@.len() - i,
                {
                    if i > 0 {
                        out.push(',');
                    }
                    write_escaped(fields[i].0.as_str(), out);
                    out.push(':');
                    proof {
                        assert(decreases_to!(*self => self->Object_0));
                        assert(decreases_to!(*fields => fields@));
                        assert(decreases_to!(fields@ => fields@[i as int]));
                        assert(decreases_to!(fields@[i as int] => fields@[i as int].1));
                    }
                    fields[i].1.write(out);
                    proof {
                        assert(all.take(i + 1).drop_last() =~= all.take(i as int));
                        assert(all.take(i + 1).last() == (
                            fields@[i as int].0@,
                            fields@[i as int].1@,
                        ));
                        if i == 0 {
                            assert(all.take(i as int) =~= Seq::<(Seq<char>, Json)>::empty());
                            assert(fields_text(all.take(i as int)) =~= Seq::<char>::empty());
                        }
                        assert(out@ =~= before + seq!['{'] + fields_text(all.take(i + 1)));
                    }
                    i += 1;
                }
                out.push('}');
                proof {
                    assert(all.take(i as int) =~= all);
                    assert(self@->Object_0 =~= all);
                    assert(out@ =~= before + json_text(self@));
                }
            },
        }
    }
}

pub fn hex_digit_char(n: u32) -> (c: char)
    requires
        n < 16,
    ensures
        c == hex_char(n as nat),
{
    let number: u32 = if n < 10 {
        0x30 + n
    } else {
        0x61 + (n - 10)
    };
    proof {
        assert('0' as u32 == 0x30 && 'a' as u32 == 0x61);
        assert(vstd::utf8::is_scalar(number));
    }
    match char::from_u32(number) {
        Some(c) => {
            proof {
                vstd::utf8::char_u32_cast(c, number);
            }
            c
        },
        None => '0',
    }
}

fn write_escaped(s: &str, out: &mut String)
    ensures
        final(out)@ == old(out)@ + escaped(s@),
{
    let ghost before = out@;
    let chars = chars_of(s);
    out.push('"');
    let mut i: usize = 0;
    proof {
        assert(escaped_body(s@.take(0)) =~= Seq::<char>::empty());
        assert(out@ =~= before + seq!['"'] + escaped_body(s@.take(0)));
    }
    while i < chars.len()
        invariant
            i <= chars@.len(),
            chars@ == s@,
            out@ == before + seq!['"'] + escaped_body(s@.take(i as int)),
        decreases chars@.len() - i,
    {
        let c = chars[i];
        let ghost so_far = out@;
        if c == '"' {
            out.push('\\');
            out.push('"');
        } else if c == '\\' {
            out.push('\\');
            out.push('\\');
        } else if c == '\n' {
            out.push('\\');
            out.push('n');
        } else if c == '\r' {
            out.push('\\');
            out.push('r');
        } else if c == '\t' {
            out.push('\\');
            out.push('t');
        } else if c == '\u{08}' {
            out.push('\\');
            out.push('b');
        } else if c == '\u{0C}' {
            out.push('\\');
            out.push('f');
        } else if c as u32 <= 0x1f {
            out.push('\\');
            out.push('u');
            out.push('0');
            out.push('0');
            out.push(hex_digit_char(c as u32 / 16));
            out.push(hex_digit_char(c as u32 % 16));
        } else {
            out.push(c);
        }
        proof {
            assert(out@ =~= so_far + escaped_char(c));
            assert(s@.take(i + 1).drop_last() =~= s@.take(i as int));
            assert(out@ =~= before + seq!['"'] + escaped_body(s@.take(i + 1)));
        }
        i += 1;
    }
    out.push('"');
    proof {
        assert(s@.take(i as int) =~= s@);
        assert(out@ =~= before + escaped(s@));
    }
}

// ---------------------------------------------------------------------------
// Typed access
// ---------------------------------------------------------------------------

/// The value of the first member named `key`.
pub open spec fn lookup(fields: Seq<(Seq<char>, Json)>, key: Seq<char>) -> Option<Json>
    decreases fields.len(),
{
    if fields.len() == 0 {
        None
    } else if fields[0].0 == key {
        Some(fields[0].1)
    } else {
        lookup(fields.skip(1), key)
    }
}

impl Json {
    /// The member named `key`, where this is an object that has one.
    pub open spec fn field(self, key: Seq<char>) -> Option<Json> {
        match self {
            Json::Object(fields) => lookup(fields, key),
            _ => None,
        }
    }

    /// This as a whole number from 0 to `max`.
    pub open spec fn unsigned(self, max: nat) -> Option<nat> {
        match self {
            Json::Num(text) => unsigned_text(text, max),
            _ => None,
        }
    }

    /// This as a whole number from `min` to `max`.
    pub open spec fn signed(self, min: int, max: int) -> Option<int> {
        match self {
            Json::Num(text) => signed_text(text, min, max),
            _ => None,
        }
    }

    /// This as a string.
    pub open spec fn string(self) -> Option<Seq<char>> {
        match self {
            Json::Str(s) => Some(s),
            _ => None,
        }
    }
}

impl Value {
    /// Look up a key in an object, or `None` if this isn't an object / no key.
    pub fn get(&self, key: &str) -> (found: Option<&Value>)
        ensures
            match found {
                Some(value) => self@.field(key@) == Some(value@),
                None => self@.field(key@) is None,
            },
    {
        match self {
            Value::Object(fields) => {
                let ghost all = fields_view(fields@);
                proof {
                    assert(self@->Object_0 =~= all);
                    assert(all.skip(0) =~= all);
                }
                let mut i: usize = 0;
                while i < fields.len()
                    invariant
                        i <= fields@.len(),
                        all == fields_view(fields@),
                        self@.field(key@) == lookup(all, key@),
                        lookup(all.skip(i as int), key@) == lookup(all, key@),
                    decreases fields@.len() - i,
                {
                    proof {
                        assert(all.skip(i as int).skip(1) =~= all.skip(i + 1));
                        assert(all.skip(i as int)[0] == all[i as int]);
                    }
                    if same_text(fields[i].0.as_str(), key) {
                        return Some(&fields[i].1);
                    }
                    i += 1;
                }
                None
            },
            _ => None,
        }
    }

    pub fn as_str(&self) -> (s: Option<&str>)
        ensures
            match s {
                Some(s) => self@ == Json::Str(s@),
                None => !(self@ is Str),
            },
    {
        match self {
            Value::Str(s) => Some(s.as_str()),
            _ => None,
        }
    }

    pub fn as_array(&self) -> (items: Option<&[Value]>)
        ensures
            match items {
                Some(items) => self@ == Json::Array(values_view(items@)),
                None => !(self@ is Array),
            },
    {
        match self {
            Value::Array(items) => {
                proof {
                    assert(self@->Array_0 =~= values_view(items@));
                }
                Some(items.as_slice())
            },
            _ => None,
        }
    }

    pub fn as_u64(&self) -> (n: Option<u64>)
        ensures
            match n {
                Some(n) => self@.unsigned(u64::MAX as nat) == Some(n as nat),
                None => self@.unsigned(u64::MAX as nat) is None,
            },
    {
        match self {
            Value::Num(text) => parse_unsigned(text.as_str(), u64::MAX),
            _ => None,
        }
    }

    pub fn as_u32(&self) -> (n: Option<u32>)
        ensures
            match n {
                Some(n) => self@.unsigned(u32::MAX as nat) == Some(n as nat),
                None => self@.unsigned(u32::MAX as nat) is None,
            },
    {
        match self {
            Value::Num(text) => match parse_unsigned(text.as_str(), u32::MAX as u64) {
                Some(n) => Some(n as u32),
                None => None,
            },
            _ => None,
        }
    }

    pub fn as_i32(&self) -> (n: Option<i32>)
        ensures
            match n {
                Some(n) => self@.signed(i32::MIN as int, i32::MAX as int) == Some(n as int),
                None => self@.signed(i32::MIN as int, i32::MAX as int) is None,
            },
    {
        match self {
            Value::Num(text) => parse_i32(text.as_str()),
            _ => None,
        }
    }
}

/// Small builder helpers so message encoders read declaratively.
impl Value {
    pub fn str(s: &str) -> (value: Value)
        ensures
            value@ == Json::Str(s@),
    {
        Value::Str(owned(s))
    }

    pub fn uint(n: u64) -> (value: Value)
        ensures
            value@ == Json::Num(decimal(n as nat)),
    {
        Value::Num(unsigned_to_text(n))
    }

    pub fn signed(n: i64) -> (value: Value)
        ensures
            value@ == Json::Num(decimal_int(n as int)),
    {
        Value::Num(signed_to_text(n))
    }

    pub fn object(fields: Vec<(&str, Value)>) -> (value: Value)
        ensures
            value@ == Json::Object(members_view(fields@)),
    {
        let ghost all = members_view(fields@);
        let mut out: Vec<(String, Value)> = Vec::new();
        let ghost items = fields@;
        for field in it: fields.into_iter()
            invariant
                it.seq() == items,
                all == members_view(items),
                fields_view(out@) == all.take(it.index() as int),
        {
            let (key, value) = field;
            let ghost before = out@;
            out.push((owned(key), value));
            proof {
                assert(field == items[it.index() as int]);
                assert(fields_view(out@) =~= fields_view(before).push((key@, value@)));
                assert(fields_view(out@) =~= all.take(it.index() + 1));
            }
        }
        let value = Value::Object(out);
        proof {
            assert(all.take(items.len() as int) =~= all);
            assert(value@->Object_0 =~= fields_view(out@));
            assert(value@->Object_0 =~= all);
        }
        value
    }
}

/// What a list of named values holds.
pub open spec fn members_view(fields: Seq<(&str, Value)>) -> Seq<(Seq<char>, Json)> {
    Seq::new(fields.len(), |i: int| (fields[i].0@, fields[i].1@))
}

} // verus!
