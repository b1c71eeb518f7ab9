//! Byte-level helpers: big-endian integers and ranges of byte slices.

use vstd::prelude::*;
use vstd::slice::slice_subrange;
use vstd::slice::slice_to_vec;

verus! {

/// The number whose big-endian bytes are `bytes`.
pub open spec fn big_endian(bytes: Seq<u8>) -> nat
    decreases bytes.len(),
{
    if bytes.len() == 0 {
        0
    } else {
        256 * big_endian(bytes.drop_last()) + bytes.last() as nat
    }
}

/// The four big-endian bytes of a 32-bit number.
pub open spec fn big_endian_bytes(n: nat) -> Seq<u8> {
    seq![
        (n / 0x100_0000 % 0x100) as u8,
        (n / 0x1_0000 % 0x100) as u8,
        (n / 0x100 % 0x100) as u8,
        (n % 0x100) as u8,
    ]
}

pub proof fn lemma_big_endian_unfold(bytes: Seq<u8>)
    ensures
        bytes.len() == 2 ==> big_endian(bytes) == 256 * bytes[0] + bytes[1],
        bytes.len() == 4 ==> big_endian(bytes) == 0x100_0000 * bytes[0] + 0x1_0000 * bytes[1]
            + 0x100 * bytes[2] + bytes[3],
        bytes.len() == 8 ==> big_endian(bytes) == 0x1_0000_0000 * big_endian(bytes.take(4))
            + big_endian(bytes.skip(4)),
{
    reveal_with_fuel(big_endian, 9);
    if bytes.len() == 2 {
        assert(bytes.drop_last().last() == bytes[0]);
    }
    if bytes.len() == 4 {
        assert(bytes.drop_last().last() == bytes[2]);
        assert(bytes.drop_last().drop_last().last() == bytes[1]);
        assert(bytes.drop_last().drop_last().drop_last().last() == bytes[0]);
    }
    if bytes.len() == 8 {
        let high = bytes.take(4);
        let low = bytes.skip(4);
        let b7 = bytes.drop_last();
        let b6 = b7.drop_last();
        let b5 = b6.drop_last();
        let b4 = b5.drop_last();
        assert(b4 =~= high);
        assert(big_endian(low) == 0x100_0000 * low[0] + 0x1_0000 * low[1] + 0x100 * low[2]
            + low[3]) by {
            assert(low.drop_last().last() == low[2]);
            assert(low.drop_last().drop_last().last() == low[1]);
            assert(low.drop_last().drop_last().drop_last().last() == low[0]);
        }
        assert(big_endian(bytes) == 256 * big_endian(b7) + bytes[7]);
        assert(big_endian(b7) == 256 * big_endian(b6) + bytes[6]);
        assert(big_endian(b6) == 256 * big_endian(b5) + bytes[5]);
        assert(big_endian(b5) == 256 * big_endian(b4) + bytes[4]);
    }
}

/// The big-endian bytes of a 32-bit number read back as that number.
pub proof fn law_big_endian_reads_back(n: nat)
    requires
        n < 0x1_0000_0000,
    ensures
        big_endian(big_endian_bytes(n)) == n,
{
    lemma_big_endian_unfold(big_endian_bytes(n));
}

/// The big-endian 16-bit number at `at`.
pub fn be_u16(bytes: &[u8], at: usize) -> (n: u16)
    requires
        at + 2 <= bytes@.len(),
    ensures
        n == big_endian(bytes@.subrange(at as int, at + 2)),
{
    proof {
        lemma_big_endian_unfold(bytes@.subrange(at as int, at + 2));
    }
    256 * bytes[at] as u16 + bytes[at + 1] as u16
}

/// The big-endian 32-bit number at `at`.
pub fn be_u32(bytes: &[u8], at: usize) -> (n: u32)
    requires
        at + 4 <= bytes@.len(),
    ensures
        n == big_endian(bytes@.subrange(at as int, at + 4)),
{
    proof {
        lemma_big_endian_unfold(bytes@.subrange(at as int, at + 4));
    }
    0x100_0000 * bytes[at] as u32 + 0x1_0000 * bytes[at + 1] as u32 + 0x100 * bytes[at + 2] as u32
        + bytes[at + 3] as u32
}

/// The big-endian 64-bit number at `at`.
pub fn be_u64(bytes: &[u8], at: usize) -> (n: u64)
    requires
        at + 8 <= bytes@.len(),
    ensures
        n == big_endian(bytes@.subrange(at as int, at + 8)),
{
    proof {
        let all = bytes@.subrange(at as int, at + 8);
        lemma_big_endian_unfold(all);
        assert(all.take(4) =~= bytes@.subrange(at as int, at + 4));
        assert(all.skip(4) =~= bytes@.subrange(at + 4, at + 8));
        assert(bytes@.len() == bytes.len());
    }
    0x1_0000_0000 * be_u32(bytes, at) as u64 + be_u32(bytes, at + 4) as u64
}

/// Append `more` to `out`.
pub fn append_bytes(out: &mut Vec<u8>, more: &[u8])
    ensures
        final(out)@ == old(out)@ + more@,
{
    out.extend_from_slice(more);
    proof {
        assert(out@ =~= old(out)@ + more@);
    }
}

/// A copy of `bytes[from..to]`.
pub fn copy_range(bytes: &[u8], from: usize, to: usize) -> (copy: Vec<u8>)
    requires
        from <= to <= bytes@.len(),
    ensures
        copy@ == bytes@.subrange(from as int, to as int),
{
    slice_to_vec(slice_subrange(bytes, from, to))
}

} // verus!
