//! IPv4 addresses in dotted form, and which of them lie on the local network.

use vstd::prelude::*;

use crate::text::all_digits;
use crate::text::chars_of;
use crate::text::decimal;
use crate::text::decimal_value;
use crate::text::digit_char;
use crate::text::digit_value;
use crate::text::is_digit;
use crate::text::lemma_decimal_is_digits;
use crate::wire::json::char_at;
use crate::wire::json::lemma_skip_digits;
use crate::wire::json::skip_digits;

verus! {

/// The dotted text of an address.
pub open spec fn dotted_text(a: nat, b: nat, c: nat, d: nat) -> Seq<char> {
    decimal(a) + seq!['.'] + decimal(b) + seq!['.'] + decimal(c) + seq!['.'] + decimal(d)
}

/// Private (10/8, 172.16/12, 192.168/16) or link-local (169.254/16), by the first
/// two octets.
pub open spec fn is_local_net(a: nat, b: nat) -> bool {
    ||| a == 10
    ||| a == 172 && 16 <= b <= 31
    ||| a == 192 && b == 168
    ||| a == 169 && b == 254
}

/// Whether `text` is the dotted text of an address on the local network.
pub open spec fn is_local_address(text: Seq<char>) -> bool {
    exists|a: nat, b: nat, c: nat, d: nat|
        a <= 255 && b <= 255 && c <= 255 && d <= 255 && is_local_net(a, b) && text
            == #[trigger] dotted_text(a, b, c, d)
}

/// The octet at `i`: up to three digits, without a leading zero, at most 255.
spec fn octet_at(text: Seq<char>, i: int) -> Option<(nat, int)> {
    let end = skip_digits(text, i);
    let digits = text.subrange(i, end);
    if i < end <= i + 3 && (end == i + 1 || text[i] != '0') && decimal_value(digits) <= 255 {
        Some((decimal_value(digits), end))
    } else {
        None
    }
}

/// An octet at `i`, and a dot behind it.
spec fn octet_dot_at(text: Seq<char>, i: int) -> Option<(nat, int)> {
    match octet_at(text, i) {
        Some((n, end)) => if char_at(text, end) == Some('.') {
            Some((n, end + 1))
        } else {
            None
        },
        None => None,
    }
}

spec fn octets_of(text: Seq<char>) -> Option<(nat, nat, nat, nat)> {
    match octet_dot_at(text, 0) {
        None => None,
        Some((a, i)) => match octet_dot_at(text, i) {
            None => None,
            Some((b, j)) => match octet_dot_at(text, j) {
                None => None,
                Some((c, k)) => match octet_at(text, k) {
                    None => None,
                    Some((d, end)) => if end == text.len() {
                        Some((a, b, c, d))
                    } else {
                        None
                    },
                },
            },
        },
    }
}

proof fn lemma_leading_digit_counts(text: Seq<char>)
    requires
        text.len() > 0,
        all_digits(text),
        text[0] != '0',
    ensures
        decimal_value(text) >= 1,
    decreases text.len(),
{
    assert(is_digit(text[0]));
    if text.len() == 1 {
        assert(decimal_value(text.drop_last()) == 0);
    } else {
        let front = text.drop_last();
        assert forall|i: int| 0 <= i < front.len() implies is_digit(#[trigger] front[i]) by {
            assert(front[i] == text[i]);
        }
        lemma_leading_digit_counts(front);
    }
}

/// Digits without a leading zero are the decimal text of their value.
proof fn lemma_canonical(text: Seq<char>)
    requires
        text.len() > 0,
        all_digits(text),
        text.len() == 1 || text[0] != '0',
    ensures
        decimal(decimal_value(text)) == text,
    decreases text.len(),
{
    let last: char = text.last();
    assert(is_digit(text[text.len() - 1]));
    vstd::utf8::char_u32_cast(last, last as u32);
    assert(digit_char(digit_value(last)) == last);
    let front = text.drop_last();
    if text.len() == 1 {
        assert(decimal_value(front) == 0);
        assert(decimal(decimal_value(text)) =~= text);
    } else {
        assert forall|i: int| 0 <= i < front.len() implies is_digit(#[trigger] front[i]) by {
            assert(front[i] == text[i]);
        }
        lemma_leading_digit_counts(front);
        lemma_canonical(front);
        assert(decimal(decimal_value(text)) =~= text);
    }
}

proof fn lemma_octet_text(n: nat)
    requires
        n <= 255,
    ensures
        1 <= decimal(n).len() <= 3,
        decimal(n).len() == 1 || decimal(n)[0] != '0',
{
    reveal_with_fuel(decimal, 4);
}

proof fn lemma_digit_run(text: Seq<char>, i: int, end: int)
    requires
        0 <= i <= end <= text.len(),
        forall|k: int| i <= k < end ==> is_digit(#[trigger] text[k]),
        end == text.len() || !is_digit(text[end]),
    ensures
        skip_digits(text, i) == end,
    decreases end - i,
{
    if i < end {
        lemma_digit_run(text, i + 1, end);
    }
}

proof fn lemma_skipped_are_digits(text: Seq<char>, i: int)
    requires
        0 <= i <= text.len(),
    ensures
        i <= skip_digits(text, i) <= text.len(),
        all_digits(text.subrange(i, skip_digits(text, i))),
    decreases text.len() - i,
{
    lemma_skip_digits(text, i);
    if i < text.len() && is_digit(text[i]) {
        lemma_skipped_are_digits(text, i + 1);
        let run = text.subrange(i, skip_digits(text, i));
        let rest = text.subrange(i + 1, skip_digits(text, i + 1));
        assert forall|k: int| 0 <= k < run.len() implies is_digit(#[trigger] run[k]) by {
            if k > 0 {
                assert(run[k] == rest[k - 1]);
            }
        }
    }
}

/// The octet that stands at `i` is read, where no digit follows it.
proof fn lemma_octet_reads_back(text: Seq<char>, i: int, n: nat)
    requires
        n <= 255,
        0 <= i,
        i + decimal(n).len() <= text.len(),
        text.subrange(i, i + decimal(n).len()) == decimal(n),
        i + decimal(n).len() == text.len() || !is_digit(text[i + decimal(n).len()]),
    ensures
        octet_at(text, i) == Some((n, i + decimal(n).len())),
{
    let part = decimal(n);
    lemma_decimal_is_digits(n);
    lemma_octet_text(n);
    assert forall|k: int| i <= k < i + part.len() implies is_digit(#[trigger] text[k]) by {
        assert(text.subrange(i, i + part.len())[k - i] == text[k]);
        assert(is_digit(part[k - i]));
    }
    lemma_digit_run(text, i, i + part.len());
    assert(text[i] == part[0]);
}

/// Reading the octets is the inverse of writing them.
proof fn lemma_octets_are_the_text(text: Seq<char>)
    ensures
        octets_of(text) matches Some((a, b, c, d)) ==> {
            &&& a <= 255 && b <= 255 && c <= 255 && d <= 255
            &&& text == dotted_text(a, b, c, d)
        },
{
    if octets_of(text) is Some {
        let (a, i) = octet_dot_at(text, 0)->0;
        lemma_skipped_are_digits(text, 0);
        lemma_canonical(text.subrange(0, i - 1));
        let (b, j) = octet_dot_at(text, i)->0;
        lemma_skipped_are_digits(text, i);
        lemma_canonical(text.subrange(i, j - 1));
        let (c, k) = octet_dot_at(text, j)->0;
        lemma_skipped_are_digits(text, j);
        lemma_canonical(text.subrange(j, k - 1));
        let (d, end) = octet_at(text, k)->0;
        lemma_skipped_are_digits(text, k);
        lemma_canonical(text.subrange(k, end));
        assert(text =~= text.subrange(0, i - 1) + seq!['.'] + text.subrange(i, j - 1) + seq!['.']
            + text.subrange(j, k - 1) + seq!['.'] + text.subrange(k, end));
    }
}

proof fn lemma_text_gives_its_octets(a: nat, b: nat, c: nat, d: nat)
    requires
        a <= 255,
        b <= 255,
        c <= 255,
        d <= 255,
    ensures
        octets_of(dotted_text(a, b, c, d)) == Some((a, b, c, d)),
{
    let text = dotted_text(a, b, c, d);
    let i = decimal(a).len() + 1;
    let j = i + decimal(b).len() + 1;
    let k = j + decimal(c).len() + 1;
    assert(text.subrange(0, i - 1) =~= decimal(a));
    assert(text[i - 1] == '.');
    assert(text.subrange(i as int, j - 1) =~= decimal(b));
    assert(text[j - 1] == '.');
    assert(text.subrange(j as int, k - 1) =~= decimal(c));
    assert(text[k - 1] == '.');
    assert(text.subrange(k as int, text.len() as int) =~= decimal(d));
    lemma_octet_reads_back(text, 0, a);
    lemma_octet_reads_back(text, i as int, b);
    lemma_octet_reads_back(text, j as int, c);
    lemma_octet_reads_back(text, k as int, d);
}

/// An address has one dotted text, and a dotted text one address.
pub proof fn law_dotted_text_is_unique(
    a: nat,
    b: nat,
    c: nat,
    d: nat,
    p: nat,
    q: nat,
    r: nat,
    s: nat,
)
    requires
        a <= 255 && b <= 255 && c <= 255 && d <= 255,
        p <= 255 && q <= 255 && r <= 255 && s <= 255,
        dotted_text(a, b, c, d) == dotted_text(p, q, r, s),
    ensures
        a == p && b == q && c == r && d == s,
{
    lemma_text_gives_its_octets(a, b, c, d);
    lemma_text_gives_its_octets(p, q, r, s);
}

fn read_octet(chars: &Vec<char>, at: usize) -> (octet: Option<(u32, usize)>)
    requires
        at <= chars@.len(),
    ensures
        match octet {
            Some((n, end)) => octet_at(chars@, at as int) == Some((n as nat, end as int)) && n
                <= 255 && at < end <= chars@.len(),
            None => octet_at(chars@, at as int) is None,
        },
{
    let mut end: usize = at;
    let mut value: u32 = 0;
    proof {
        assert(chars@.subrange(at as int, at as int) =~= Seq::<char>::empty());
    }
    while end < chars.len() && '0' <= chars[end] && chars[end] <= '9'
        invariant
            at <= end <= chars@.len(),
            end <= at + 3,
            skip_digits(chars@, at as int) == skip_digits(chars@, end as int),
            value == decimal_value(chars@.subrange(at as int, end as int)),
            end == at ==> value == 0,
            end == at + 1 ==> value <= 9,
            end == at + 2 ==> value <= 99,
            end == at + 3 ==> value <= 999,
        decreases chars@.len() - end,
    {
        proof {
            lemma_skip_digits(chars@, end + 1);
        }
        if end - at == 3 {
            return None;
        }
        proof {
            assert(chars@.subrange(at as int, end + 1).drop_last() =~= chars@.subrange(
                at as int,
                end as int,
            ));
        }
        value = 10 * value + (chars[end] as u32 - '0' as u32);
        end += 1;
    }
    if end == at || (end > at + 1 && chars[at] == '0') || value > 255 {
        None
    } else {
        Some((value, end))
    }
}

fn read_octet_dot(chars: &Vec<char>, at: usize) -> (octet: Option<(u32, usize)>)
    requires
        at <= chars@.len(),
    ensures
        match octet {
            Some((n, next)) => octet_dot_at(chars@, at as int) == Some((n as nat, next as int))
                && n <= 255 && at < next <= chars@.len(),
            None => octet_dot_at(chars@, at as int) is None,
        },
{
    match read_octet(chars, at) {
        Some((n, end)) => if end < chars.len() && chars[end] == '.' {
            Some((n, end + 1))
        } else {
            None
        },
        None => None,
    }
}

fn read_octets(chars: &Vec<char>) -> (octets: Option<(u32, u32, u32, u32)>)
    ensures
        match octets {
            Some((a, b, c, d)) => octets_of(chars@) == Some(
                (a as nat, b as nat, c as nat, d as nat),
            ),
            None => octets_of(chars@) is None,
        },
{
    let (a, i) = read_octet_dot(chars, 0)?;
    let (b, j) = read_octet_dot(chars, i)?;
    let (c, k) = read_octet_dot(chars, j)?;
    let (d, end) = read_octet(chars, k)?;
    if end == chars.len() {
        Some((a, b, c, d))
    } else {
        None
    }
}

/// Whether `text` is the dotted text of an address on the local network.
pub fn on_local_network(text: &str) -> (local: bool)
    ensures
        local == is_local_address(text@),
{
    let chars = chars_of(text);
    let octets = read_octets(&chars);
    proof {
        lemma_octets_are_the_text(text@);
        assert forall|p: nat, q: nat, r: nat, s: nat|
            p <= 255 && q <= 255 && r <= 255 && s <= 255 && text@ == #[trigger] dotted_text(
                p,
                q,
                r,
                s,
            ) implies octets_of(text@) == Some((p, q, r, s)) by {
            lemma_text_gives_its_octets(p, q, r, s);
        }
    }
    match octets {
        Some((a, b, c, d)) => {
            proof {
                assert(text@ == dotted_text(a as nat, b as nat, c as nat, d as nat));
            }
            is_local(a, b)
        },
        None => false,
    }
}

/// Whether the first two octets are those of a private or link-local address.
pub fn is_local(a: u32, b: u32) -> (local: bool)
    ensures
        local == is_local_net(a as nat, b as nat),
{
    a == 10 || (a == 172 && 16 <= b && b <= 31) || (a == 192 && b == 168) || (a == 169 && b == 254)
}

} // verus!
