//! What HEVC conversion promises of streams that are built unit by unit. Start codes and
//! lengths are written out here as bytes.

use vstd::prelude::*;

use crate::bytes::big_endian;
use crate::hevc::annexed;
use crate::hevc::config_in;
use crate::hevc::read_array;
use crate::hevc::read_arrays;
use crate::hevc::read_nal;
use crate::hevc::read_nals;
use crate::hevc::start_code;
use crate::hevc::units_in;
use crate::hevc::ConfigNote;
use crate::hevc::Reading;
use crate::hevc::HVCC_MAX_LEN;

verus! {

/// NAL units as a decoder takes them: each behind the bytes 0, 0, 0, 1.
pub open spec fn annex_b_stream(units: Seq<Seq<u8>>) -> Seq<u8>
    decreases units.len(),
{
    if units.len() == 0 {
        Seq::empty()
    } else {
        annex_b_stream(units.drop_last()) + seq![0u8, 0u8, 0u8, 1u8] + units.last()
    }
}

/// The big-endian bytes of a length that takes `size` bytes.
pub open spec fn length_bytes(n: nat, size: nat) -> Seq<u8>
    decreases size,
{
    if size == 0 {
        Seq::empty()
    } else {
        length_bytes(n / 256, (size - 1) as nat).push((n % 256) as u8)
    }
}

/// The largest length that takes `size` bytes, and one more.
pub open spec fn length_limit(size: nat) -> nat
    decreases size,
{
    if size == 0 {
        1
    } else {
        256 * length_limit((size - 1) as nat)
    }
}

/// NAL units as they come over the wire: each behind its length.
pub open spec fn length_prefixed(units: Seq<Seq<u8>>, size: nat) -> Seq<u8>
    decreases units.len(),
{
    if units.len() == 0 {
        Seq::empty()
    } else {
        length_bytes(units[0].len(), size) + units[0] + length_prefixed(units.skip(1), size)
    }
}

/// Whether every unit has a header and a length that can be written.
pub open spec fn are_units(units: Seq<Seq<u8>>, size: nat) -> bool {
    forall|i: int| 0 <= i < units.len() ==> 2 <= (#[trigger] units[i]).len() < length_limit(size)
}

/// One array of a record: the byte in front of it, whose low six bits are the type of
/// its units, and the units.
pub struct NalArray {
    pub lead: u8,
    pub units: Seq<Seq<u8>>,
}

/// An array as a record holds it: the byte in front, the number of units in two bytes,
/// and the units behind two-byte lengths.
pub open spec fn array_bytes(a: NalArray) -> Seq<u8> {
    seq![a.lead] + length_bytes(a.units.len(), 2) + length_prefixed(a.units, 2)
}

pub open spec fn arrays_bytes(arrays: Seq<NalArray>) -> Seq<u8>
    decreases arrays.len(),
{
    if arrays.len() == 0 {
        Seq::empty()
    } else {
        array_bytes(arrays[0]) + arrays_bytes(arrays.skip(1))
    }
}

/// Whether an array can be written, and its units are of its type: bits one to six of
/// their first byte.
pub open spec fn is_array(a: NalArray) -> bool {
    &&& a.units.len() < 0x1_0000
    &&& are_units(a.units, 2)
    &&& forall|i: int|
        0 <= i < a.units.len() ==> (#[trigger] a.units[i])[0] as int % 128 / 2 == a.lead as int % 64
}

pub open spec fn are_arrays(arrays: Seq<NalArray>) -> bool {
    forall|i: int| 0 <= i < arrays.len() ==> is_array(#[trigger] arrays[i])
}

/// Whether units of a type are VPS, SPS or PPS.
pub open spec fn holds_parameter_sets(a: NalArray) -> bool {
    a.lead as int % 64 == 32 || a.lead as int % 64 == 33 || a.lead as int % 64 == 34
}

/// The VPS, SPS and PPS units of the arrays, in order.
pub open spec fn parameter_units(arrays: Seq<NalArray>) -> Seq<Seq<u8>>
    decreases arrays.len(),
{
    if arrays.len() == 0 {
        Seq::empty()
    } else {
        (if holds_parameter_sets(arrays[0]) {
            arrays[0].units
        } else {
            Seq::empty()
        }) + parameter_units(arrays.skip(1))
    }
}

/// Whether some array has a unit of a type.
pub open spec fn has_type(arrays: Seq<NalArray>, kind: int) -> bool {
    exists|i: int|
        0 <= i < arrays.len() && (#[trigger] arrays[i]).lead as int % 64 == kind
            && arrays[i].units.len() > 0
}

/// Whether a fixed part of 23 bytes says this: the version, the profile in the low five
/// bits of the second byte, the chroma format in the low two bits of byte 16, the bit
/// depth less eight in the low three bits of byte 17, the size of lengths less one in the
/// low two bits of byte 21, and the number of arrays in the last byte.
pub open spec fn header_says(
    header: Seq<u8>,
    profile: int,
    chroma: int,
    bit_depth: int,
    length_size: int,
    arrays: int,
) -> bool {
    &&& header.len() == 23
    &&& header[0] == 1
    &&& 0 <= profile < 32 && (header[1] as int - profile) % 32 == 0
    &&& 0 <= chroma < 4 && (header[16] as int - chroma) % 4 == 0
    &&& 8 <= bit_depth < 16 && (header[17] as int - (bit_depth - 8)) % 8 == 0
    &&& length_size == 1 || length_size == 2 || length_size == 4
    &&& (header[21] as int - (length_size - 1)) % 4 == 0
    &&& header[22] == arrays
}

// --- bytes -----------------------------------------------------------------

proof fn lemma_length_bytes(n: nat, size: nat)
    requires
        n < length_limit(size),
    ensures
        length_bytes(n, size).len() == size,
        big_endian(length_bytes(n, size)) == n,
    decreases size,
{
    if size > 0 {
        lemma_length_bytes(n / 256, (size - 1) as nat);
        let front = length_bytes(n / 256, (size - 1) as nat);
        assert(length_bytes(n, size).drop_last() =~= front);
    } else {
        assert(length_bytes(n, size) =~= Seq::<u8>::empty());
    }
}

proof fn lemma_limits()
    ensures
        length_limit(1) == 0x100,
        length_limit(2) == 0x1_0000,
        length_limit(4) == 0x1_0000_0000,
{
    reveal_with_fuel(length_limit, 5);
}

/// A stream of start codes and units can be taken apart in front as well.
proof fn lemma_stream_from_front(units: Seq<Seq<u8>>)
    requires
        units.len() > 0,
    ensures
        annex_b_stream(units) == seq![0u8, 0u8, 0u8, 1u8] + units[0] + annex_b_stream(
            units.skip(1),
        ),
    decreases units.len(),
{
    let code = seq![0u8, 0u8, 0u8, 1u8];
    if units.len() == 1 {
        assert(units.drop_last() =~= Seq::<Seq<u8>>::empty());
        assert(units.skip(1) =~= Seq::<Seq<u8>>::empty());
        assert(annex_b_stream(units) =~= code + units[0] + annex_b_stream(units.skip(1)));
    } else {
        lemma_stream_from_front(units.drop_last());
        assert(units.drop_last().skip(1) =~= units.skip(1).drop_last());
        assert(units.skip(1).last() == units.last());
        assert(annex_b_stream(units) =~= code + units[0] + annex_b_stream(units.skip(1)));
    }
}

proof fn lemma_stream_concat(a: Seq<Seq<u8>>, b: Seq<Seq<u8>>)
    ensures
        annex_b_stream(a + b) == annex_b_stream(a) + annex_b_stream(b),
    decreases b.len(),
{
    if b.len() == 0 {
        assert(a + b =~= a);
        assert(annex_b_stream(a) + annex_b_stream(b) =~= annex_b_stream(a));
    } else {
        lemma_stream_concat(a, b.drop_last());
        assert((a + b).drop_last() =~= a + b.drop_last());
        assert((a + b).last() == b.last());
        assert(annex_b_stream(a + b) =~= annex_b_stream(a) + annex_b_stream(b));
    }
}

proof fn lemma_units_behind(units: Seq<Seq<u8>>, size: nat)
    requires
        are_units(units, size),
        units.len() > 0,
    ensures
        are_units(units.skip(1), size),
{
    assert forall|i: int| 0 <= i < units.skip(1).len() implies 2 <= (
    #[trigger] units.skip(1)[i]).len() < length_limit(size) by {
        assert(units.skip(1)[i] == units[i + 1]);
    }
}

// --- access units ----------------------------------------------------------

proof fn lemma_units_read(units: Seq<Seq<u8>>, size: nat)
    requires
        are_units(units, size),
        size > 0,
    ensures
        units_in(length_prefixed(units, size), size) == Ok::<Seq<u8>, Seq<char>>(
            annex_b_stream(units),
        ),
    decreases units.len(),
{
    let data = length_prefixed(units, size);
    if units.len() == 0 {
        assert(data =~= Seq::<u8>::empty());
        assert(annex_b_stream(units) =~= Seq::<u8>::empty());
    } else {
        let unit = units[0];
        let more = length_prefixed(units.skip(1), size);
        lemma_length_bytes(unit.len(), size);
        lemma_units_behind(units, size);
        lemma_units_read(units.skip(1), size);
        assert(data.take(size as int) =~= length_bytes(unit.len(), size));
        let behind = data.skip(size as int);
        assert(behind =~= unit + more);
        assert(behind.take(unit.len() as int) =~= unit);
        assert(behind.skip(unit.len() as int) =~= more);
        lemma_stream_from_front(units);
        assert(start_code() =~= seq![0u8, 0u8, 0u8, 1u8]);
    }
}

/// An access unit of NAL units behind lengths of one, two or four bytes comes out as the
/// same units in order, each behind the bytes 0, 0, 0, 1, and a keyframe with the
/// parameter sets in front of them.
pub proof fn law_access_units_become_annex_b(
    parameter_sets: Seq<u8>,
    units: Seq<Seq<u8>>,
    size: nat,
    keyframe: bool,
)
    requires
        size == 1 || size == 2 || size == 4,
        units.len() > 0,
        are_units(units, size),
    ensures
        annexed(parameter_sets, size, length_prefixed(units, size), keyframe) == Ok::<
            Seq<u8>,
            Seq<char>,
        >(
            if keyframe {
                parameter_sets + annex_b_stream(units)
            } else {
                annex_b_stream(units)
            },
        ),
{
    lemma_units_read(units, size);
    lemma_length_bytes(units[0].len(), size);
    assert(length_prefixed(units, size).len() > 0);
}

/// The lengths do not matter: the same units behind lengths of another size come out the
/// same.
pub proof fn law_length_sizes_do_not_matter(
    parameter_sets: Seq<u8>,
    units: Seq<Seq<u8>>,
    size: nat,
    other: nat,
    keyframe: bool,
)
    requires
        size == 1 || size == 2 || size == 4,
        other == 1 || other == 2 || other == 4,
        units.len() > 0,
        are_units(units, size),
        are_units(units, other),
    ensures
        annexed(parameter_sets, size, length_prefixed(units, size), keyframe) == annexed(
            parameter_sets,
            other,
            length_prefixed(units, other),
            keyframe,
        ),
{
    law_access_units_become_annex_b(parameter_sets, units, size, keyframe);
    law_access_units_become_annex_b(parameter_sets, units, other, keyframe);
}

// --- records ---------------------------------------------------------------

/// What reading units of one type makes of a reading.
spec fn with_units(r: Reading, rest: Seq<u8>, units: Seq<Seq<u8>>, kind: int) -> Reading {
    let found = units.len() > 0;
    Reading {
        rest,
        sets: if kind == 32 || kind == 33 || kind == 34 {
            r.sets + annex_b_stream(units)
        } else {
            r.sets
        },
        vps: r.vps || (found && kind == 32),
        sps: r.sps || (found && kind == 33),
        pps: r.pps || (found && kind == 34),
    }
}

proof fn lemma_nals_read(r: Reading, rest: Seq<u8>, units: Seq<Seq<u8>>, kind: u8)
    requires
        r.rest == length_prefixed(units, 2) + rest,
        are_units(units, 2),
        kind < 64,
        forall|i: int|
            0 <= i < units.len() ==> (#[trigger] units[i])[0] as int % 128 / 2 == kind as int,
    ensures
        read_nals(r, kind, units.len()) == Ok::<Reading, Seq<char>>(
            with_units(r, rest, units, kind as int),
        ),
    decreases units.len(),
{
    if units.len() == 0 {
        assert(r.rest =~= rest);
        assert(r.sets + annex_b_stream(units) =~= r.sets);
    } else {
        let unit = units[0];
        let tail = units.skip(1);
        let more = length_prefixed(tail, 2) + rest;
        lemma_length_bytes(unit.len(), 2);
        lemma_units_behind(units, 2);
        assert(r.rest.take(2) =~= length_bytes(unit.len(), 2));
        let behind = r.rest.skip(2);
        assert(behind =~= unit + more);
        assert(behind.take(unit.len() as int) =~= unit);
        assert(behind.skip(unit.len() as int) =~= more);
        assert(unit[0] / 2 % 64 == kind) by {
            assert(unit[0] as int % 128 / 2 == kind as int);
        }
        let next = read_nal(r, kind)->Ok_0;
        assert(next.rest == more);
        assert forall|i: int| 0 <= i < tail.len() implies (#[trigger] tail[i])[0] as int % 128 / 2
            == kind as int by {
            assert(tail[i] == units[i + 1]);
        }
        lemma_nals_read(next, rest, tail, kind);
        lemma_stream_from_front(units);
        let code = seq![0u8, 0u8, 0u8, 1u8];
        assert(start_code() =~= code);
        assert(r.sets + start_code() + unit + annex_b_stream(tail) =~= r.sets + (code + unit
            + annex_b_stream(tail)));
    }
}

proof fn lemma_arrays_behind(arrays: Seq<NalArray>)
    requires
        are_arrays(arrays),
        arrays.len() > 0,
    ensures
        are_arrays(arrays.skip(1)),
{
    assert forall|i: int| 0 <= i < arrays.skip(1).len() implies is_array(
        #[trigger] arrays.skip(1)[i],
    ) by {
        assert(arrays.skip(1)[i] == arrays[i + 1]);
    }
}

proof fn lemma_type_from_front(arrays: Seq<NalArray>, kind: int)
    requires
        arrays.len() > 0,
    ensures
        has_type(arrays, kind) <==> (has_type(arrays.skip(1), kind) || (arrays[0].lead as int % 64
            == kind && arrays[0].units.len() > 0)),
{
    let tail = arrays.skip(1);
    if has_type(arrays, kind) {
        let i = choose|i: int|
            0 <= i < arrays.len() && (#[trigger] arrays[i]).lead as int % 64 == kind
                && arrays[i].units.len() > 0;
        if i > 0 {
            assert(tail[i - 1] == arrays[i]);
        }
    }
    if has_type(tail, kind) {
        let i = choose|i: int|
            0 <= i < tail.len() && (#[trigger] tail[i]).lead as int % 64 == kind
                && tail[i].units.len() > 0;
        assert(arrays[i + 1] == tail[i]);
    }
}

proof fn lemma_arrays_read(r: Reading, rest: Seq<u8>, arrays: Seq<NalArray>)
    requires
        r.rest == arrays_bytes(arrays) + rest,
        are_arrays(arrays),
    ensures
        read_arrays(r, arrays.len()) == Ok::<Reading, Seq<char>>(
            Reading {
                rest,
                sets: r.sets + annex_b_stream(parameter_units(arrays)),
                vps: r.vps || has_type(arrays, 32),
                sps: r.sps || has_type(arrays, 33),
                pps: r.pps || has_type(arrays, 34),
            },
        ),
    decreases arrays.len(),
{
    if arrays.len() == 0 {
        assert(r.rest =~= rest);
        assert(parameter_units(arrays) =~= Seq::<Seq<u8>>::empty());
        assert(r.sets + annex_b_stream(parameter_units(arrays)) =~= r.sets);
    } else {
        let a = arrays[0];
        let tail = arrays.skip(1);
        let more = arrays_bytes(tail) + rest;
        lemma_limits();
        lemma_length_bytes(a.units.len(), 2);
        assert(r.rest =~= seq![a.lead] + length_bytes(a.units.len(), 2) + (length_prefixed(
            a.units,
            2,
        ) + more));
        assert(r.rest[0] == a.lead);
        assert(r.rest.subrange(1, 3) =~= length_bytes(a.units.len(), 2));
        let inner = Reading { rest: r.rest.skip(3), ..r };
        assert(inner.rest =~= length_prefixed(a.units, 2) + more);
        let kind = (a.lead % 64) as u8;
        assert(is_array(arrays[0]));
        lemma_nals_read(inner, more, a.units, kind);
        let next = with_units(inner, more, a.units, kind as int);
        assert(read_array(r) == Ok::<Reading, Seq<char>>(next));
        lemma_arrays_behind(arrays);
        lemma_arrays_read(next, rest, tail);
        lemma_type_from_front(arrays, 32);
        lemma_type_from_front(arrays, 33);
        lemma_type_from_front(arrays, 34);
        let own = if holds_parameter_sets(a) {
            a.units
        } else {
            Seq::empty()
        };
        lemma_stream_concat(own, parameter_units(tail));
        assert(annex_b_stream(Seq::<Seq<u8>>::empty()) =~= Seq::<u8>::empty());
        assert(next.sets =~= r.sets + annex_b_stream(own));
        assert(next.sets + annex_b_stream(parameter_units(tail)) =~= r.sets + annex_b_stream(
            parameter_units(arrays),
        ));
    }
}

/// A record that is built of its fixed part and arrays of NAL units is read: the fields
/// are those of the fixed part, and the parameter sets are the VPS, SPS and PPS units of
/// the arrays, in order, each behind the bytes 0, 0, 0, 1. A record in which one of the
/// three is missing is refused.
pub proof fn law_records_give_their_parameter_sets(
    header: Seq<u8>,
    arrays: Seq<NalArray>,
    profile: int,
    chroma: int,
    bit_depth: int,
    length_size: int,
)
    requires
        header_says(header, profile, chroma, bit_depth, length_size, arrays.len() as int),
        are_arrays(arrays),
        23 + arrays_bytes(arrays).len() <= 1024 * 1024,
    ensures
        has_type(arrays, 32) && has_type(arrays, 33) && has_type(arrays, 34) ==> config_in(
            header + arrays_bytes(arrays),
        ) == Ok::<ConfigNote, Seq<char>>(
            ConfigNote {
                length_size: length_size as nat,
                profile: profile as nat,
                chroma: chroma as nat,
                bit_depth: bit_depth as nat,
                parameter_sets: annex_b_stream(parameter_units(arrays)),
            },
        ),
        !(has_type(arrays, 32) && has_type(arrays, 33) && has_type(arrays, 34)) ==> config_in(
            header + arrays_bytes(arrays),
        ) is Err,
{
    let hvcc = header + arrays_bytes(arrays);
    let start = Reading {
        rest: hvcc.skip(23),
        sets: Seq::empty(),
        vps: false,
        sps: false,
        pps: false,
    };
    assert(hvcc.skip(23) =~= arrays_bytes(arrays) + Seq::<u8>::empty());
    lemma_arrays_read(start, Seq::empty(), arrays);
    assert(Seq::<u8>::empty() + annex_b_stream(parameter_units(arrays)) =~= annex_b_stream(
        parameter_units(arrays),
    ));
    assert(hvcc[0] == header[0] && hvcc[1] == header[1] && hvcc[16] == header[16] && hvcc[17]
        == header[17] && hvcc[21] == header[21] && hvcc[22] == header[22]);
    assert(HVCC_MAX_LEN == 1024 * 1024);
}

/// The parameter sets of a record are what its units would come out as in an access
/// unit, behind lengths of four bytes.
pub proof fn law_parameter_sets_are_annex_b(
    header: Seq<u8>,
    arrays: Seq<NalArray>,
    profile: int,
    chroma: int,
    bit_depth: int,
    length_size: int,
)
    requires
        header_says(header, profile, chroma, bit_depth, length_size, arrays.len() as int),
        are_arrays(arrays),
        23 + arrays_bytes(arrays).len() <= 1024 * 1024,
        has_type(arrays, 32) && has_type(arrays, 33) && has_type(arrays, 34),
    ensures
        config_in(header + arrays_bytes(arrays)) matches Ok(config) && units_in(
            length_prefixed(parameter_units(arrays), 4),
            4,
        ) == Ok::<Seq<u8>, Seq<char>>(config.parameter_sets),
{
    law_records_give_their_parameter_sets(header, arrays, profile, chroma, bit_depth, length_size);
    lemma_parameter_units(arrays);
    lemma_units_read(parameter_units(arrays), 4);
}

proof fn lemma_parameter_units(arrays: Seq<NalArray>)
    requires
        are_arrays(arrays),
    ensures
        are_units(parameter_units(arrays), 4),
    decreases arrays.len(),
{
    lemma_limits();
    if arrays.len() > 0 {
        lemma_arrays_behind(arrays);
        lemma_parameter_units(arrays.skip(1));
        assert(is_array(arrays[0]));
        let own = if holds_parameter_sets(arrays[0]) {
            arrays[0].units
        } else {
            Seq::empty()
        };
        let all = parameter_units(arrays);
        assert forall|i: int| 0 <= i < all.len() implies 2 <= (#[trigger] all[i]).len()
            < length_limit(4) by {
            if i < own.len() {
                assert(all[i] == arrays[0].units[i]);
            } else {
                assert(all[i] == parameter_units(arrays.skip(1))[i - own.len()]);
            }
        }
    }
}

// --- cut records -----------------------------------------------------------

spec fn longer(r: Reading, more: Seq<u8>) -> Reading {
    Reading { rest: r.rest + more, ..r }
}

proof fn lemma_nal_longer(r: Reading, more: Seq<u8>, kind: u8)
    ensures
        read_nal(r, kind) matches Ok(next) ==> read_nal(longer(r, more), kind) == Ok::<
            Reading,
            Seq<char>,
        >(longer(next, more)),
{
    if read_nal(r, kind) is Ok {
        let all = r.rest + more;
        assert(all.take(2) =~= r.rest.take(2));
        let size = big_endian(r.rest.take(2)) as int;
        let behind = r.rest.skip(2);
        assert(all.skip(2) =~= behind + more);
        assert((behind + more).take(size) =~= behind.take(size));
        assert((behind + more).skip(size) =~= behind.skip(size) + more);
    }
}

proof fn lemma_nals_longer(r: Reading, more: Seq<u8>, kind: u8, count: nat)
    ensures
        read_nals(r, kind, count) matches Ok(next) ==> read_nals(longer(r, more), kind, count)
            == Ok::<Reading, Seq<char>>(longer(next, more)),
    decreases count,
{
    if count > 0 {
        lemma_nal_longer(r, more, kind);
        if let Ok(next) = read_nal(r, kind) {
            lemma_nals_longer(next, more, kind, (count - 1) as nat);
        }
    }
}

proof fn lemma_arrays_longer(r: Reading, more: Seq<u8>, count: nat)
    ensures
        read_arrays(r, count) matches Ok(next) ==> read_arrays(longer(r, more), count) == Ok::<
            Reading,
            Seq<char>,
        >(longer(next, more)),
    decreases count,
{
    if count > 0 {
        if r.rest.len() >= 3 {
            let all = r.rest + more;
            assert(all[0] == r.rest[0]);
            assert(all.subrange(1, 3) =~= r.rest.subrange(1, 3));
            assert(all.skip(3) =~= r.rest.skip(3) + more);
            lemma_nals_longer(
                Reading { rest: r.rest.skip(3), ..r },
                more,
                (r.rest[0] % 64) as u8,
                big_endian(r.rest.subrange(1, 3)),
            );
        }
        if let Ok(next) = read_array(r) {
            lemma_arrays_longer(next, more, (count - 1) as nat);
        }
    }
}

/// A record that is cut short anywhere, or has bytes behind its end, is refused.
pub proof fn law_cut_records_are_refused(hvcc: Seq<u8>, more: Seq<u8>)
    requires
        more.len() > 0,
    ensures
        config_in(hvcc + more) is Ok ==> config_in(hvcc) is Err,
        config_in(hvcc) is Ok ==> config_in(hvcc + more) is Err,
{
    let all = hvcc + more;
    if config_in(hvcc) is Ok {
        let start = Reading {
            rest: hvcc.skip(23),
            sets: Seq::empty(),
            vps: false,
            sps: false,
            pps: false,
        };
        assert(all[0] == hvcc[0] && all[21] == hvcc[21] && all[22] == hvcc[22]);
        assert(all.skip(23) =~= hvcc.skip(23) + more);
        lemma_arrays_longer(start, more, hvcc[22] as nat);
    }
}

} // verus!
