//! Bounded standard base64 for catalogue JPEGs.

use vstd::prelude::*;
use vstd::utf8::encode_utf8;

verus! {

/// The longest text that is decoded, in bytes.
pub const MAX_TEXT_LEN: usize = 172_000;

/// The padding byte, `=`.
pub const PAD: u8 = 61;

/// The alphabet: `A`-`Z`, `a`-`z`, `0`-`9`, `+`, `/`.
pub open spec fn letter(n: int) -> u8 {
    if n < 26 {
        (65 + n) as u8
    } else if n < 52 {
        (97 + n - 26) as u8
    } else if n < 62 {
        (48 + n - 52) as u8
    } else if n == 62 {
        43
    } else {
        47
    }
}

/// The standard base64 text of `data`, padded, with no spare bits set.
pub open spec fn base64_of(data: Seq<u8>) -> Seq<u8>
    decreases data.len(),
{
    if data.len() == 0 {
        seq![]
    } else if data.len() == 1 {
        seq![letter(data[0] as int / 4), letter(data[0] as int % 4 * 16), PAD, PAD]
    } else if data.len() == 2 {
        seq![
            letter(data[0] as int / 4),
            letter(data[0] as int % 4 * 16 + data[1] as int / 16),
            letter(data[1] as int % 16 * 4),
            PAD,
        ]
    } else {
        seq![
            letter(data[0] as int / 4),
            letter(data[0] as int % 4 * 16 + data[1] as int / 16),
            letter(data[1] as int % 16 * 4 + data[2] as int / 64),
            letter(data[2] as int % 64),
        ] + base64_of(data.skip(3))
    }
}

/// The number that a letter of the alphabet stands for.
pub open spec fn letter_value(b: u8) -> Option<int> {
    if 65 <= b <= 90 {
        Some(b - 65)
    } else if 97 <= b <= 122 {
        Some(b - 97 + 26)
    } else if 48 <= b <= 57 {
        Some(b - 48 + 52)
    } else if b == 43 {
        Some(62int)
    } else if b == 47 {
        Some(63int)
    } else {
        None
    }
}

/// Read a base64 text group by group.
spec fn read(text: Seq<u8>) -> Option<Seq<u8>>
    decreases text.len(),
{
    if text.len() == 0 {
        Some(seq![])
    } else if text.len() < 4 {
        None
    } else {
        match (letter_value(text[0]), letter_value(text[1])) {
            (Some(a), Some(b)) => {
                let first = (4 * a + b / 16) as u8;
                if text[2] == PAD {
                    if text[3] == PAD && b % 16 == 0 && text.len() == 4 {
                        Some(seq![first])
                    } else {
                        None
                    }
                } else {
                    match letter_value(text[2]) {
                        None => None,
                        Some(c) => {
                            let second = (b % 16 * 16 + c / 4) as u8;
                            if text[3] == PAD {
                                if c % 4 == 0 && text.len() == 4 {
                                    Some(seq![first, second])
                                } else {
                                    None
                                }
                            } else {
                                match (letter_value(text[3]), read(text.skip(4))) {
                                    (Some(d), Some(rest)) => Some(
                                        seq![first, second, (c % 4 * 64 + d) as u8] + rest,
                                    ),
                                    _ => None,
                                }
                            }
                        },
                    }
                }
            },
            _ => None,
        }
    }
}

proof fn lemma_letters(n: int)
    requires
        0 <= n < 64,
    ensures
        letter_value(letter(n)) == Some(n),
        letter(n) != PAD,
{
}

proof fn lemma_letter_values(b: u8)
    ensures
        letter_value(b) matches Some(n) ==> 0 <= n < 64 && letter(n) == b,
{
}

/// Whatever is read is the text of what it gives.
proof fn lemma_read_is_encoded(text: Seq<u8>)
    ensures
        read(text) matches Some(data) ==> base64_of(data) == text,
    decreases text.len(),
{
    if text.len() == 0 {
        assert(base64_of(Seq::<u8>::empty()) =~= text);
    } else if text.len() >= 4 && read(text) is Some {
        let data = read(text)->0;
        lemma_letter_values(text[0]);
        lemma_letter_values(text[1]);
        lemma_letter_values(text[2]);
        lemma_letter_values(text[3]);
        let a = letter_value(text[0])->0;
        let b = letter_value(text[1])->0;
        assert(data[0] as int == 4 * a + b / 16);
        if text[2] == PAD {
            assert(base64_of(data) =~= text);
        } else {
            let c = letter_value(text[2])->0;
            assert(data[1] as int == b % 16 * 16 + c / 4);
            if text[3] == PAD {
                assert(base64_of(data) =~= text);
            } else {
                let d = letter_value(text[3])->0;
                let rest = read(text.skip(4))->0;
                assert(data[2] as int == c % 4 * 64 + d);
                assert(data.skip(3) =~= rest);
                lemma_read_is_encoded(text.skip(4));
                assert(base64_of(data) =~= text);
            }
        }
    }
}

/// The text of any data reads back.
proof fn lemma_encoded_is_read(data: Seq<u8>)
    ensures
        read(base64_of(data)) == Some(data),
        base64_of(data).len() % 4 == 0,
    decreases data.len(),
{
    let text = base64_of(data);
    if data.len() == 0 {
        assert(data =~= Seq::<u8>::empty());
    } else {
        let x = data[0] as int;
        lemma_letters(x / 4);
        if data.len() == 1 {
            lemma_letters(x % 4 * 16);
            assert(seq![data[0]] =~= data);
        } else {
            let y = data[1] as int;
            lemma_letters(x % 4 * 16 + y / 16);
            if data.len() == 2 {
                lemma_letters(y % 16 * 4);
                assert(seq![data[0], data[1]] =~= data);
            } else {
                let z = data[2] as int;
                lemma_letters(y % 16 * 4 + z / 64);
                lemma_letters(z % 64);
                lemma_encoded_is_read(data.skip(3));
                assert(text.skip(4) =~= base64_of(data.skip(3)));
                assert(seq![data[0], data[1], data[2]] + data.skip(3) =~= data);
            }
        }
    }
}

proof fn lemma_read_needs_whole_groups(text: Seq<u8>)
    ensures
        text.len() % 4 != 0 ==> read(text) is None,
    decreases text.len(),
{
    if text.len() >= 4 {
        lemma_read_needs_whole_groups(text.skip(4));
    }
}

/// Two different byte strings have different base64 texts.
pub proof fn law_base64_is_injective(a: Seq<u8>, b: Seq<u8>)
    ensures
        base64_of(a) == base64_of(b) <==> a == b,
{
    lemma_encoded_is_read(a);
    lemma_encoded_is_read(b);
}

fn digit(b: u8) -> (value: Option<u8>)
    ensures
        match value {
            Some(n) => letter_value(b) == Some(n as int) && n < 64,
            None => letter_value(b) is None,
        },
{
    if 65 <= b && b <= 90 {
        Some(b - 65)
    } else if 97 <= b && b <= 122 {
        Some(b - 97 + 26)
    } else if 48 <= b && b <= 57 {
        Some(b - 48 + 52)
    } else if b == 43 {
        Some(62)
    } else if b == 47 {
        Some(63)
    } else {
        None
    }
}

/// `first` put before what was read.
spec fn with_prefix(first: Seq<u8>, rest: Option<Seq<u8>>) -> Option<Seq<u8>> {
    match rest {
        Some(rest) => Some(first + rest),
        None => None,
    }
}

fn decode_groups(text: &[u8]) -> (data: Option<Vec<u8>>)
    requires
        text@.len() % 4 == 0,
    ensures
        match data {
            Some(data) => read(text@) == Some(data@),
            None => read(text@) is None,
        },
{
    let mut out: Vec<u8> = Vec::new();
    let mut i: usize = 0;
    proof {
        assert(text@.skip(0) =~= text@);
        if read(text@) is Some {
            assert(Seq::<u8>::empty() + read(text@)->0 =~= read(text@)->0);
        }
    }
    while i < text.len()
        invariant
            i <= text@.len(),
            i % 4 == 0,
            text@.len() % 4 == 0,
            read(text@) == with_prefix(out@, read(text@.skip(i as int))),
        decreases text@.len() - i,
    {
        let ghost rest = text@.skip(i as int);
        let ghost before = out@;
        proof {
            assert(rest[0] == text@[i as int]);
            assert(rest[1] == text@[i + 1]);
            assert(rest[2] == text@[i + 2]);
            assert(rest[3] == text@[i + 3]);
            assert(rest.skip(4) =~= text@.skip(i + 4));
        }
        let a: u8 = match digit(text[i]) {
            Some(a) => a,
            None => {
                return None;
            },
        };
        let b: u8 = match digit(text[i + 1]) {
            Some(b) => b,
            None => {
                return None;
            },
        };
        let last: bool = text.len() - i == 4;
        out.push(4 * a + b / 16);
        if text[i + 2] == PAD {
            if text[i + 3] != PAD || b % 16 != 0 || !last {
                return None;
            }
            proof {
                assert(out@ =~= before + seq![(4 * a + b / 16) as u8]);
                assert(text@.skip(i + 4) =~= Seq::<u8>::empty());
                assert(out@ + Seq::<u8>::empty() =~= out@);
            }
        } else {
            let c: u8 = match digit(text[i + 2]) {
                Some(c) => c,
                None => {
                    return None;
                },
            };
            out.push(b % 16 * 16 + c / 4);
            if text[i + 3] == PAD {
                if c % 4 != 0 || !last {
                    return None;
                }
                proof {
                    assert(out@ =~= before + seq![
                        (4 * a + b / 16) as u8,
                        (b % 16 * 16 + c / 4) as u8,
                    ]);
                    assert(text@.skip(i + 4) =~= Seq::<u8>::empty());
                    assert(out@ + Seq::<u8>::empty() =~= out@);
                }
            } else {
                let d: u8 = match digit(text[i + 3]) {
                    Some(d) => d,
                    None => {
                        return None;
                    },
                };
                out.push(c % 4 * 64 + d);
                proof {
                    let group = seq![
                        (4 * a + b / 16) as u8,
                        (b % 16 * 16 + c / 4) as u8,
                        (c % 4 * 64 + d) as u8,
                    ];
                    assert(out@ =~= before + group);
                    if read(rest.skip(4)) is Some {
                        let tail = read(rest.skip(4))->0;
                        assert(before + (group + tail) =~= out@ + tail);
                    }
                }
            }
        }
        i += 4;
    }
    proof {
        assert(text@.skip(i as int) =~= Seq::<u8>::empty());
        assert(out@ + Seq::<u8>::empty() =~= out@);
    }
    Some(out)
}

/// Decode a standard base64 text of at most [`MAX_TEXT_LEN`] bytes. Only the exact
/// text of some data is accepted: padding in its place, no spare bits set, nothing
/// behind the padding.
pub fn decode(input: &str) -> (data: Option<Vec<u8>>)
    ensures
        match data {
            Some(data) => encode_utf8(input@).len() <= MAX_TEXT_LEN && encode_utf8(input@)
                == base64_of(data@),
            None => encode_utf8(input@).len() > MAX_TEXT_LEN || forall|any: Seq<u8>|
                #[trigger] base64_of(any) != encode_utf8(input@),
        },
{
    let text = input.as_bytes();
    proof {
        lemma_read_needs_whole_groups(text@);
        lemma_read_is_encoded(text@);
        assert forall|any: Seq<u8>| read(text@) is None implies #[trigger] base64_of(any)
            != text@ by {
            lemma_encoded_is_read(any);
        }
    }
    if text.len() > MAX_TEXT_LEN || text.len() % 4 != 0 {
        return None;
    }
    decode_groups(text)
}

} // verus!
