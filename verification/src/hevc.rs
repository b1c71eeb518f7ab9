//! The wire uses VideoToolbox's hvcC and length-prefixed NAL units. Media Foundation
//! requires Annex B start codes, with inline VPS/SPS/PPS.

use vstd::prelude::*;
use vstd::slice::slice_subrange;

use crate::bytes::append_bytes;
use crate::bytes::be_u16;
use crate::bytes::big_endian;
use crate::text::owned;

verus! {

/// The fixed part of an hvcC record.
pub const HVCC_HEADER_LEN: usize = 23;

/// The longest hvcC record that is accepted.
pub const HVCC_MAX_LEN: usize = 1024 * 1024;

/// The NAL unit types of the three parameter sets.
pub const NAL_VPS: u8 = 32;

pub const NAL_SPS: u8 = 33;

pub const NAL_PPS: u8 = 34;

#[derive(Debug)]
pub struct HevcConfig {
    /// How many bytes hold the length of a NAL unit: 1, 2 or 4.
    pub length_size: usize,
    pub profile: u32,
    pub chroma: u8,
    pub bit_depth: u8,
    /// The parameter sets, each behind a start code.
    pub parameter_sets: Vec<u8>,
}

/// What a [`HevcConfig`] holds.
pub struct ConfigNote {
    pub length_size: nat,
    pub profile: nat,
    pub chroma: nat,
    pub bit_depth: nat,
    pub parameter_sets: Seq<u8>,
}

/// What has been read of a record's NAL arrays, and what is left of them.
pub struct Reading {
    pub rest: Seq<u8>,
    pub sets: Seq<u8>,
    pub vps: bool,
    pub sps: bool,
    pub pps: bool,
}

/// The Annex B start code.
pub open spec fn start_code() -> Seq<u8> {
    seq![0u8, 0u8, 0u8, 1u8]
}

/// One NAL unit of a record's array for units of type `kind`: a two-byte length and
/// the unit. Parameter sets are kept, behind a start code.
pub open spec fn read_nal(r: Reading, kind: u8) -> Result<Reading, Seq<char>> {
    if r.rest.len() < 2 {
        Err("Truncated HEVC packet"@)
    } else {
        let size = big_endian(r.rest.take(2));
        let behind = r.rest.skip(2);
        if size > behind.len() {
            Err("Truncated HEVC packet"@)
        } else {
            let nal = behind.take(size as int);
            if nal.len() < 2 || nal[0] / 2 % 64 != kind {
                Err("Invalid HEVC parameter-set NAL"@)
            } else {
                let keep = NAL_VPS <= kind <= NAL_PPS;
                Ok(
                    Reading {
                        rest: behind.skip(size as int),
                        sets: if keep {
                            r.sets + start_code() + nal
                        } else {
                            r.sets
                        },
                        vps: r.vps || kind == NAL_VPS,
                        sps: r.sps || kind == NAL_SPS,
                        pps: r.pps || kind == NAL_PPS,
                    },
                )
            }
        }
    }
}

/// `count` NAL units of one array.
pub open spec fn read_nals(r: Reading, kind: u8, count: nat) -> Result<Reading, Seq<char>>
    decreases count,
{
    if count == 0 {
        Ok(r)
    } else {
        match read_nal(r, kind) {
            Err(e) => Err(e),
            Ok(next) => read_nals(next, kind, (count - 1) as nat),
        }
    }
}

/// One array: its NAL unit type, the number of its units, and the units.
pub open spec fn read_array(r: Reading) -> Result<Reading, Seq<char>> {
    if r.rest.len() < 3 {
        Err("Truncated HEVC packet"@)
    } else {
        read_nals(
            Reading { rest: r.rest.skip(3), ..r },
            (r.rest[0] % 64) as u8,
            big_endian(r.rest.subrange(1, 3)),
        )
    }
}

/// `count` arrays.
pub open spec fn read_arrays(r: Reading, count: nat) -> Result<Reading, Seq<char>>
    decreases count,
{
    if count == 0 {
        Ok(r)
    } else {
        match read_array(r) {
            Err(e) => Err(e),
            Ok(next) => read_arrays(next, (count - 1) as nat),
        }
    }
}

/// What an hvcC record says, or what is wrong with it.
pub open spec fn config_in(hvcc: Seq<u8>) -> Result<ConfigNote, Seq<char>> {
    if hvcc.len() < HVCC_HEADER_LEN || hvcc.len() > HVCC_MAX_LEN || hvcc[0] != 1 {
        Err("Invalid HEVC configuration record"@)
    } else if hvcc[21] % 4 == 2 {
        Err("Reserved HEVC NAL length size"@)
    } else {
        let start = Reading {
            rest: hvcc.skip(HVCC_HEADER_LEN as int),
            sets: Seq::empty(),
            vps: false,
            sps: false,
            pps: false,
        };
        match read_arrays(start, hvcc[22] as nat) {
            Err(e) => Err(e),
            Ok(end) => if end.rest.len() > 0 || !end.vps || !end.sps || !end.pps {
                Err("HEVC configuration must contain VPS, SPS, and PPS"@)
            } else {
                Ok(
                    ConfigNote {
                        length_size: (hvcc[21] % 4 + 1) as nat,
                        profile: (hvcc[1] % 32) as nat,
                        chroma: (hvcc[16] % 4) as nat,
                        bit_depth: (hvcc[17] % 8 + 8) as nat,
                        parameter_sets: end.sets,
                    },
                )
            },
        }
    }
}

/// The length-prefixed NAL units of an access unit, each behind a start code.
pub open spec fn units_in(data: Seq<u8>, length_size: nat) -> Result<Seq<u8>, Seq<char>>
    decreases data.len(),
{
    if data.len() == 0 {
        Ok(Seq::empty())
    } else if data.len() < length_size {
        Err("Truncated HEVC packet"@)
    } else {
        let size = big_endian(data.take(length_size as int));
        let behind = data.skip(length_size as int);
        if size > behind.len() {
            Err("Truncated HEVC packet"@)
        } else if size < 2 {
            Err("Empty or truncated HEVC NAL unit"@)
        } else {
            match units_in(behind.skip(size as int), length_size) {
                Err(e) => Err(e),
                Ok(more) => Ok(start_code() + behind.take(size as int) + more),
            }
        }
    }
}

/// An access unit in Annex B form; a keyframe carries the parameter sets in front.
pub open spec fn annexed(
    parameter_sets: Seq<u8>,
    length_size: nat,
    access_unit: Seq<u8>,
    keyframe: bool,
) -> Result<Seq<u8>, Seq<char>> {
    if access_unit.len() == 0 {
        Err("Empty HEVC access unit"@)
    } else {
        match units_in(access_unit, length_size) {
            Err(e) => Err(e),
            Ok(units) => Ok(
                if keyframe {
                    parameter_sets + units
                } else {
                    units
                },
            ),
        }
    }
}

/// The next `size` bytes of `data` from `pos` on, which moves behind them.
fn take<'a>(data: &'a [u8], pos: &mut usize, size: usize) -> (result: Result<&'a [u8], String>)
    requires
        *old(pos) <= data@.len(),
    ensures
        match result {
            Ok(head) => {
                &&& size <= data@.len() - *old(pos)
                &&& head@ == data@.subrange(*old(pos) as int, *old(pos) + size)
                &&& *final(pos) == *old(pos) + size
            },
            Err(e) => {
                &&& size > data@.len() - *old(pos)
                &&& e@ == "Truncated HEVC packet"@
            },
        },
{
    if size > data.len() - *pos {
        return Err(owned("Truncated HEVC packet"));
    }
    let head = slice_subrange(data, *pos, *pos + size);
    *pos = *pos + size;
    Ok(head)
}

/// The big-endian number of up to four bytes.
fn short_number(bytes: &[u8]) -> (n: usize)
    requires
        bytes@.len() <= 4,
    ensures
        n == big_endian(bytes@),
{
    let mut n: u32 = 0;
    let mut i: usize = 0;
    proof {
        assert(bytes@.take(0) =~= Seq::<u8>::empty());
    }
    while i < bytes.len()
        invariant
            i <= bytes@.len() <= 4,
            n == big_endian(bytes@.take(i as int)),
            i == 0 ==> n < 1,
            i == 1 ==> n < 0x100,
            i == 2 ==> n < 0x1_0000,
            i == 3 ==> n < 0x100_0000,
        decreases bytes@.len() - i,
    {
        proof {
            assert(bytes@.take(i + 1).drop_last() =~= bytes@.take(i as int));
        }
        n = n * 256 + bytes[i] as u32;
        i += 1;
    }
    proof {
        assert(bytes@.take(i as int) =~= bytes@);
    }
    n as usize
}

/// The parameter sets found while a record is read.
struct Found {
    sets: Vec<u8>,
    vps: bool,
    sps: bool,
    pps: bool,
}

impl Found {
    /// This, with `rest` still to read.
    spec fn reading(self, rest: Seq<u8>) -> Reading {
        Reading { rest, sets: self.sets@, vps: self.vps, sps: self.sps, pps: self.pps }
    }
}

fn push_start_code(out: &mut Vec<u8>)
    ensures
        final(out)@ == old(out)@ + start_code(),
{
    out.push(0);
    out.push(0);
    out.push(0);
    out.push(1);
    proof {
        assert(out@ =~= old(out)@ + start_code());
    }
}

fn parse_nal(data: &[u8], pos: &mut usize, found: &mut Found, kind: u8) -> (result: Result<
    (),
    String,
>)
    requires
        *old(pos) <= data@.len(),
    ensures
        match result {
            Ok(()) => {
                &&& *old(pos) <= *final(pos) <= data@.len()
                &&& read_nal(old(found).reading(data@.skip(*old(pos) as int)), kind) == Ok::<
                    Reading,
                    Seq<char>,
                >(final(found).reading(data@.skip(*final(pos) as int)))
            },
            Err(e) => read_nal(old(found).reading(data@.skip(*old(pos) as int)), kind) == Err::<
                Reading,
                Seq<char>,
            >(e@),
        },
{
    let ghost rest = data@.skip(*pos as int);
    let size = take(data, pos, 2)?;
    proof {
        assert(size@ =~= rest.take(2));
        assert(data@.skip(*pos as int) =~= rest.skip(2));
    }
    let size: usize = short_number(size);
    let ghost behind = data@.skip(*pos as int);
    let nal = take(data, pos, size)?;
    proof {
        assert(nal@ =~= behind.take(size as int));
        assert(data@.skip(*pos as int) =~= behind.skip(size as int));
    }
    if nal.len() < 2 || nal[0] / 2 % 64 != kind {
        return Err(owned("Invalid HEVC parameter-set NAL"));
    }
    if NAL_VPS <= kind && kind <= NAL_PPS {
        if kind == NAL_VPS {
            found.vps = true;
        } else if kind == NAL_SPS {
            found.sps = true;
        } else {
            found.pps = true;
        }
        push_start_code(&mut found.sets);
        append_bytes(&mut found.sets, nal);
    }
    Ok(())
}

fn parse_array(data: &[u8], pos: &mut usize, found: &mut Found) -> (result: Result<(), String>)
    requires
        *old(pos) <= data@.len(),
    ensures
        match result {
            Ok(()) => {
                &&& *old(pos) <= *final(pos) <= data@.len()
                &&& read_array(old(found).reading(data@.skip(*old(pos) as int))) == Ok::<
                    Reading,
                    Seq<char>,
                >(final(found).reading(data@.skip(*final(pos) as int)))
            },
            Err(e) => read_array(old(found).reading(data@.skip(*old(pos) as int))) == Err::<
                Reading,
                Seq<char>,
            >(e@),
        },
{
    let ghost rest = data@.skip(*pos as int);
    let ghost start = found.reading(rest);
    let header = take(data, pos, 3)?;
    let kind: u8 = header[0] % 64;
    let count: u16 = be_u16(header, 1);
    proof {
        assert(header@.subrange(1, 3) =~= rest.subrange(1, 3));
        assert(header@[0] == rest[0]);
        assert(data@.skip(*pos as int) =~= rest.skip(3));
    }
    let mut i: u16 = 0;
    while i < count
        invariant
            i <= count,
            *old(pos) <= *pos <= data@.len(),
            read_array(start) == read_nals(
                found.reading(data@.skip(*pos as int)),
                kind,
                (count - i) as nat,
            ),
            start == old(found).reading(data@.skip(*old(pos) as int)),
        decreases count - i,
    {
        parse_nal(data, pos, found, kind)?;
        i += 1;
    }
    Ok(())
}

impl HevcConfig {
    pub open spec fn view(&self) -> ConfigNote {
        ConfigNote {
            length_size: self.length_size as nat,
            profile: self.profile as nat,
            chroma: self.chroma as nat,
            bit_depth: self.bit_depth as nat,
            parameter_sets: self.parameter_sets@,
        }
    }

    /// The length of a NAL unit takes 1, 2 or 4 bytes.
    pub open spec fn wf(&self) -> bool {
        self.length_size == 1 || self.length_size == 2 || self.length_size == 4
    }

    /// Read an hvcC record.
    pub fn parse(hvcc: &[u8]) -> (result: Result<Self, String>)
        ensures
            match result {
                Ok(config) => {
                    &&& config.wf()
                    &&& config_in(hvcc@) == Ok::<ConfigNote, Seq<char>>(config@)
                },
                Err(e) => config_in(hvcc@) == Err::<ConfigNote, Seq<char>>(e@),
            },
    {
        if hvcc.len() < HVCC_HEADER_LEN || hvcc.len() > HVCC_MAX_LEN || hvcc[0] != 1 {
            return Err(owned("Invalid HEVC configuration record"));
        }
        let length_size: usize = (hvcc[21] % 4 + 1) as usize;
        if length_size == 3 {
            return Err(owned("Reserved HEVC NAL length size"));
        }
        let mut pos: usize = HVCC_HEADER_LEN;
        let mut found = Found { sets: Vec::new(), vps: false, sps: false, pps: false };
        let count: u8 = hvcc[22];
        let ghost start = found.reading(hvcc@.skip(pos as int));
        let mut i: u8 = 0;
        proof {
            assert(found.sets@ =~= Seq::<u8>::empty());
        }
        while i < count
            invariant
                i <= count,
                pos <= hvcc@.len(),
                HVCC_HEADER_LEN <= hvcc@.len() <= HVCC_MAX_LEN,
                hvcc@[0] == 1,
                hvcc@[21] % 4 != 2,
                count == hvcc@[22],
                start == (Reading {
                    rest: hvcc@.skip(HVCC_HEADER_LEN as int),
                    sets: Seq::empty(),
                    vps: false,
                    sps: false,
                    pps: false,
                }),
                read_arrays(start, count as nat) == read_arrays(
                    found.reading(hvcc@.skip(pos as int)),
                    (count - i) as nat,
                ),
            decreases count - i,
        {
            parse_array(hvcc, &mut pos, &mut found)?;
            i += 1;
        }
        if pos != hvcc.len() || !found.vps || !found.sps || !found.pps {
            return Err(owned("HEVC configuration must contain VPS, SPS, and PPS"));
        }
        Ok(
            HevcConfig {
                length_size,
                profile: (hvcc[1] % 32) as u32,
                chroma: hvcc[16] % 4,
                bit_depth: hvcc[17] % 8 + 8,
                parameter_sets: found.sets,
            },
        )
    }

    /// Convert one access unit to Annex B form.
    pub fn annex_b(&self, access_unit: &[u8], keyframe: bool) -> (result: Result<Vec<u8>, String>)
        requires
            self.wf(),
        ensures
            match result {
                Ok(output) => annexed(
                    self.parameter_sets@,
                    self.length_size as nat,
                    access_unit@,
                    keyframe,
                ) == Ok::<Seq<u8>, Seq<char>>(output@),
                Err(e) => annexed(
                    self.parameter_sets@,
                    self.length_size as nat,
                    access_unit@,
                    keyframe,
                ) == Err::<Seq<u8>, Seq<char>>(e@),
            },
    {
        if access_unit.len() == 0 {
            return Err(owned("Empty HEVC access unit"));
        }
        let mut output: Vec<u8> = Vec::new();
        if keyframe {
            append_bytes(&mut output, self.parameter_sets.as_slice());
        }
        let ghost front = if keyframe {
            self.parameter_sets@
        } else {
            Seq::empty()
        };
        let ghost whole = units_in(access_unit@, self.length_size as nat);
        let mut pos: usize = 0;
        proof {
            assert(output@ =~= front);
            assert(access_unit@.skip(0) =~= access_unit@);
            if whole is Ok {
                assert(front + whole->Ok_0 =~= annexed(
                    self.parameter_sets@,
                    self.length_size as nat,
                    access_unit@,
                    keyframe,
                )->Ok_0);
            }
        }
        while pos < access_unit.len()
            invariant
                pos <= access_unit@.len(),
                access_unit@.len() > 0,
                self.wf(),
                whole == units_in(access_unit@, self.length_size as nat),
                whole is Ok ==> annexed(
                    self.parameter_sets@,
                    self.length_size as nat,
                    access_unit@,
                    keyframe,
                ) == Ok::<Seq<u8>, Seq<char>>(front + whole->Ok_0),
                match units_in(access_unit@.skip(pos as int), self.length_size as nat) {
                    Err(e) => whole == Err::<Seq<u8>, Seq<char>>(e),
                    Ok(more) => whole is Ok && front + whole->Ok_0 == output@ + more,
                },
            decreases access_unit@.len() - pos,
        {
            let ghost rest = access_unit@.skip(pos as int);
            let ghost so_far = output@;
            let length = take(access_unit, &mut pos, self.length_size)?;
            proof {
                assert(length@ =~= rest.take(self.length_size as int));
                assert(access_unit@.skip(pos as int) =~= rest.skip(self.length_size as int));
            }
            let size: usize = short_number(length);
            let ghost behind = access_unit@.skip(pos as int);
            let nal = take(access_unit, &mut pos, size)?;
            proof {
                assert(nal@ =~= behind.take(size as int));
                assert(access_unit@.skip(pos as int) =~= behind.skip(size as int));
            }
            if nal.len() < 2 {
                return Err(owned("Empty or truncated HEVC NAL unit"));
            }
            push_start_code(&mut output);
            append_bytes(&mut output, nal);
            proof {
                let more = units_in(behind.skip(size as int), self.length_size as nat);
                if more is Ok {
                    assert(so_far + (start_code() + nal@ + more->Ok_0) =~= output@ + more->Ok_0);
                }
            }
        }
        proof {
            assert(access_unit@.skip(pos as int) =~= Seq::<u8>::empty());
            assert(output@ + Seq::<u8>::empty() =~= output@);
        }
        Ok(output)
    }
}

/// A keyframe is the parameter sets followed by the same access unit as a delta.
pub proof fn law_keyframe_carries_parameter_sets(
    parameter_sets: Seq<u8>,
    length_size: nat,
    access_unit: Seq<u8>,
)
    ensures
        match annexed(parameter_sets, length_size, access_unit, false) {
            Ok(delta) => annexed(parameter_sets, length_size, access_unit, true) == Ok::<
                Seq<u8>,
                Seq<char>,
            >(parameter_sets + delta),
            Err(e) => annexed(parameter_sets, length_size, access_unit, true) == Err::<
                Seq<u8>,
                Seq<char>,
            >(e),
        },
{
}

/// A NAL unit behind its length comes out behind a start code, whatever follows it.
pub proof fn law_units_are_reframed(length: Seq<u8>, nal: Seq<u8>, more: Seq<u8>)
    requires
        length.len() > 0,
        nal.len() >= 2,
        big_endian(length) == nal.len(),
    ensures
        match units_in(more, length.len()) {
            Ok(rest) => units_in(length + nal + more, length.len()) == Ok::<Seq<u8>, Seq<char>>(
                start_code() + nal + rest,
            ),
            Err(e) => units_in(length + nal + more, length.len()) == Err::<Seq<u8>, Seq<char>>(e),
        },
{
    let data = length + nal + more;
    assert(data.take(length.len() as int) =~= length);
    let behind = data.skip(length.len() as int);
    assert(behind =~= nal + more);
    assert(behind.take(nal.len() as int) =~= nal);
    assert(behind.skip(nal.len() as int) =~= more);
}

} // verus!
