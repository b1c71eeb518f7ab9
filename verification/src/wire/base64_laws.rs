//! What base64 promises, bit by bit.

use vstd::prelude::*;

use crate::wire::base64::base64_of;

verus! {

/// The six bits that a letter stands for: `A` to `Z`, `a` to `z`, `0` to `9`, plus and
/// slash, in this order. Padding stands for none.
pub open spec fn six_bits(b: u8) -> int {
    let c = b as char;
    if 'A' <= c <= 'Z' {
        b - 'A' as u8
    } else if 'a' <= c <= 'z' {
        26 + (b - 'a' as u8)
    } else if '0' <= c <= '9' {
        52 + (b - '0' as u8)
    } else if c == '+' {
        62
    } else if c == '/' {
        63
    } else {
        -1
    }
}

/// Every three bytes are four letters with the same 24 bits, in order.
pub proof fn law_letters_carry_the_bits(data: Seq<u8>, i: int)
    requires
        0 <= i,
        3 * i + 2 < data.len(),
    ensures
        ({
            let text = base64_of(data);
            &&& 4 * i + 3 < text.len()
            &&& 0 <= six_bits(text[4 * i]) && 0 <= six_bits(text[4 * i + 1]) && 0 <= six_bits(
                text[4 * i + 2],
            ) && 0 <= six_bits(text[4 * i + 3])
            &&& 0x4_0000 * six_bits(text[4 * i]) + 0x1000 * six_bits(text[4 * i + 1]) + 0x40
                * six_bits(text[4 * i + 2]) + six_bits(text[4 * i + 3]) == 0x1_0000 * data[3 * i]
                + 0x100 * data[3 * i + 1] + data[3 * i + 2]
        }),
    decreases data.len(),
{
    let text = base64_of(data);
    let rest = base64_of(data.skip(3));
    if i > 0 {
        law_letters_carry_the_bits(data.skip(3), i - 1);
        assert(text[4 * i] == rest[4 * (i - 1)]);
        assert(text[4 * i + 1] == rest[4 * (i - 1) + 1]);
        assert(text[4 * i + 2] == rest[4 * (i - 1) + 2]);
        assert(text[4 * i + 3] == rest[4 * (i - 1) + 3]);
    }
}

/// What is left over, one byte or two, is two letters or three and padding up to four,
/// and the bits that no byte fills are zero.
pub proof fn law_the_end_is_padded(data: Seq<u8>)
    ensures
        ({
            let text = base64_of(data);
            let n = data.len() as int / 3;
            let pad = 61u8;
            &&& data.len() % 3 == 0 ==> text.len() == 4 * n
            &&& data.len() % 3 == 1 ==> text.len() == 4 * n + 4 && text[4 * n + 2] == pad
                && text[4 * n + 3] == pad && 64 * six_bits(text[4 * n]) + six_bits(text[4 * n + 1])
                == 16 * data[3 * n]
            &&& data.len() % 3 == 2 ==> text.len() == 4 * n + 4 && text[4 * n + 3] == pad && 0x1000
                * six_bits(text[4 * n]) + 0x40 * six_bits(text[4 * n + 1]) + six_bits(
                text[4 * n + 2],
            ) == 4 * (0x100 * data[3 * n] + data[3 * n + 1])
        }),
    decreases data.len(),
{
    let text = base64_of(data);
    if data.len() >= 3 {
        let rest = base64_of(data.skip(3));
        let n = data.len() as int / 3;
        law_the_end_is_padded(data.skip(3));
        if data.len() % 3 != 0 {
            assert(text[4 * n] == rest[4 * (n - 1)]);
            assert(text[4 * n + 1] == rest[4 * (n - 1) + 1]);
            assert(text[4 * n + 2] == rest[4 * (n - 1) + 2]);
            assert(text[4 * n + 3] == rest[4 * (n - 1) + 3]);
        }
    }
}

} // verus!
