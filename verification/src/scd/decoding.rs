//! Parsing of the sound container: endianness detection, the file header,
//! the entry table, each entry's header and aux-chunk chain, and the
//! per-codec dispatch.

use super::SCDEntryData;
use super::SCDHeader;
use super::entry::{SCDCodec, SCDEntryHeader, SCDEntryNone};
use super::entry_msadpcm::{SCDEntryMSADPCM, msadpcm_ok, wave_envelope};
use super::entry_ogg::{SCDEntryOgg, ogg_ok, ogg_stream};
use crate::FFXIVError;
use crate::binary::{
    be_u16, be_u32, be_u64, le_u16, le_u32, le_u64, read_u16_be, read_u16_le, read_u32_be,
    read_u32_le, read_u64_be, read_u64_le,
};
use vstd::prelude::*;
use vstd::string::StringExecFns;

verus! {

/// A structural failure while decoding a sound container, as the error
/// taxonomy wraps it.
pub open spec fn is_scd_err(e: FFXIVError) -> bool {
    e matches FFXIVError::DecodingSCD(_)
}

fn scd_err() -> (r: FFXIVError)
    ensures
        is_scd_err(r),
{
    FFXIVError::DecodingSCD(
        Box::new(FFXIVError::Custom(String::from_str("malformed sound data"))),
    )
}

/// The 16-bit value at `off` in the container's endianness.
pub open spec fn sp_i16(b: Seq<u8>, off: int, le: bool) -> i16 {
    if le {
        le_u16(b, off) as i16
    } else {
        be_u16(b, off) as i16
    }
}

/// The 32-bit value at `off` in the container's endianness.
pub open spec fn sp_i32(b: Seq<u8>, off: int, le: bool) -> i32 {
    if le {
        le_u32(b, off) as i32
    } else {
        be_u32(b, off) as i32
    }
}

/// The 64-bit value at `off` in the container's endianness.
pub open spec fn sp_i64(b: Seq<u8>, off: int, le: bool) -> i64 {
    if le {
        le_u64(b, off) as i64
    } else {
        be_u64(b, off) as i64
    }
}

/// Checks that `size` bytes at `offset` lie inside the buffer.
pub fn check_len(offset: &usize, buffer: &[u8], size: usize) -> (r: Result<(), FFXIVError>)
    ensures
        match r {
            Ok(u) => offset + size <= buffer@.len(),
            Err(e) => offset + size > buffer@.len() && is_scd_err(e),
        },
{
    proof {
        vstd::slice::axiom_spec_len(buffer);
    }
    if *offset as u128 + size as u128 > buffer.len() as u128 {
        Err(scd_err())
    } else {
        Ok(())
    }
}

/// Reads the 16-bit value at `offset` in the given endianness.
pub fn read_i16(offset: &usize, buffer: &[u8], little_end: &bool) -> (r: Result<i16, FFXIVError>)
    ensures
        match r {
            Ok(v) => offset + 2 <= buffer@.len() && v == sp_i16(
                buffer@,
                *offset as int,
                *little_end,
            ),
            Err(e) => offset + 2 > buffer@.len() && is_scd_err(e),
        },
{
    match check_len(offset, buffer, 2) {
        Ok(u) => {},
        Err(e) => { return Err(e) },
    }
    if *little_end {
        Ok(read_u16_le(buffer, *offset) as i16)
    } else {
        Ok(read_u16_be(buffer, *offset) as i16)
    }
}

/// Reads the 32-bit value at `offset` in the given endianness.
pub fn read_i32(offset: &usize, buffer: &[u8], little_end: &bool) -> (r: Result<i32, FFXIVError>)
    ensures
        match r {
            Ok(v) => offset + 4 <= buffer@.len() && v == sp_i32(
                buffer@,
                *offset as int,
                *little_end,
            ),
            Err(e) => offset + 4 > buffer@.len() && is_scd_err(e),
        },
{
    match check_len(offset, buffer, 4) {
        Ok(u) => {},
        Err(e) => { return Err(e) },
    }
    if *little_end {
        Ok(read_u32_le(buffer, *offset) as i32)
    } else {
        Ok(read_u32_be(buffer, *offset) as i32)
    }
}

/// Reads the 64-bit value at `offset` in the given endianness.
pub fn read_i64(offset: &usize, buffer: &[u8], little_end: &bool) -> (r: Result<i64, FFXIVError>)
    ensures
        match r {
            Ok(v) => offset + 8 <= buffer@.len() && v == sp_i64(
                buffer@,
                *offset as int,
                *little_end,
            ),
            Err(e) => offset + 8 > buffer@.len() && is_scd_err(e),
        },
{
    match check_len(offset, buffer, 8) {
        Ok(u) => {},
        Err(e) => { return Err(e) },
    }
    if *little_end {
        Ok(read_u64_le(buffer, *offset) as i64)
    } else {
        Ok(read_u64_be(buffer, *offset) as i64)
    }
}

/// The endianness a container's version word at offset 8 names: the byte
/// order under which it reads as 2 or 3, big-endian tried first.
pub open spec fn spec_endianness(b: Seq<u8>) -> Option<bool> {
    if b.len() < 12 {
        Option::None
    } else if be_u32(b, 8) == 2 || be_u32(b, 8) == 3 {
        Option::Some(false)
    } else if le_u32(b, 8) == 2 || le_u32(b, 8) == 3 {
        Option::Some(true)
    } else {
        Option::None
    }
}

/// Decides the container's endianness from its version word.
pub fn decode_little_endianness(buffer: &[u8]) -> (r: Result<bool, FFXIVError>)
    ensures
        match r {
            Ok(le) => spec_endianness(buffer@) == Option::Some(le),
            Err(e) => spec_endianness(buffer@) is None && is_scd_err(e),
        },
{
    proof {
        vstd::slice::axiom_spec_len(buffer);
    }
    if buffer.len() < 12 {
        return Err(scd_err());
    }
    let ver_big = read_u32_be(buffer, 8);
    let ver_little = read_u32_le(buffer, 8);
    if ver_big == 2 || ver_big == 3 {
        Ok(false)
    } else if ver_little == 2 || ver_little == 3 {
        Ok(true)
    } else {
        Err(scd_err())
    }
}

/// Where a container's own header starts: the 16-bit size at offset 0x0E.
pub open spec fn scd_fhs(b: Seq<u8>, le: bool) -> int {
    sp_i16(b, 0xe, le) as int
}

/// Whether the container header can be read: the size field itself, then
/// nine fields ending 0x1C past the header start.
pub open spec fn scd_header_ok(b: Seq<u8>, le: bool) -> bool {
    &&& b.len() >= 0x10
    &&& scd_fhs(b, le) >= 0
    &&& scd_fhs(b, le) + 0x1c <= b.len()
}

/// The container header's nine fields.
pub open spec fn spec_scd_header(b: Seq<u8>, le: bool) -> SCDHeader {
    let f = scd_fhs(b, le);
    SCDHeader {
        unknown_1_count: sp_i16(b, f, le),
        unknown_2_count: sp_i16(b, f + 0x2, le),
        entry_count: sp_i16(b, f + 0x4, le),
        unknown_1: sp_i16(b, f + 0x6, le),
        unknown_1_offset: sp_i32(b, f + 0x8, le),
        entry_table_offset: sp_i32(b, f + 0xc, le),
        unknown_2_offset: sp_i32(b, f + 0x10, le),
        unknown_2: sp_i32(b, f + 0x14, le),
        unknown_offset_1: sp_i32(b, f + 0x18, le),
    }
}

/// Decodes the container header at the offset its size field names.
pub fn decode_scd_header(buffer: &[u8], little_end: &bool) -> (r: Result<SCDHeader, FFXIVError>)
    ensures
        match r {
            Ok(h) => scd_header_ok(buffer@, *little_end) && h == spec_scd_header(
                buffer@,
                *little_end,
            ),
            Err(e) => !scd_header_ok(buffer@, *little_end) && is_scd_err(e),
        },
{
    proof {
        vstd::slice::axiom_spec_len(buffer);
    }
    let fhs_raw = match read_i16(&0xe, buffer, little_end) {
        Ok(v) => v,
        Err(e) => { return Err(e) },
    };
    if fhs_raw < 0 {
        return Err(scd_err());
    }
    let f = fhs_raw as usize;
    if f as u128 + 0x1c > buffer.len() as u128 {
        return Err(scd_err());
    }
    let unknown_1_count = match read_i16(&f, buffer, little_end) {
        Ok(v) => v,
        Err(e) => { return Err(e) },
    };
    let unknown_2_count = match read_i16(&(f + 0x2), buffer, little_end) {
        Ok(v) => v,
        Err(e) => { return Err(e) },
    };
    let entry_count = match read_i16(&(f + 0x4), buffer, little_end) {
        Ok(v) => v,
        Err(e) => { return Err(e) },
    };
    let unknown_1 = match read_i16(&(f + 0x6), buffer, little_end) {
        Ok(v) => v,
        Err(e) => { return Err(e) },
    };
    let unknown_1_offset = match read_i32(&(f + 0x8), buffer, little_end) {
        Ok(v) => v,
        Err(e) => { return Err(e) },
    };
    let entry_table_offset = match read_i32(&(f + 0xc), buffer, little_end) {
        Ok(v) => v,
        Err(e) => { return Err(e) },
    };
    let unknown_2_offset = match read_i32(&(f + 0x10), buffer, little_end) {
        Ok(v) => v,
        Err(e) => { return Err(e) },
    };
    let unknown_2 = match read_i32(&(f + 0x14), buffer, little_end) {
        Ok(v) => v,
        Err(e) => { return Err(e) },
    };
    let unknown_offset_1 = match read_i32(&(f + 0x18), buffer, little_end) {
        Ok(v) => v,
        Err(e) => { return Err(e) },
    };
    Ok(
        SCDHeader {
            unknown_1_count,
            unknown_2_count,
            entry_count,
            unknown_1,
            unknown_1_offset,
            entry_table_offset,
            unknown_2_offset,
            unknown_2,
            unknown_offset_1,
        },
    )
}

/// The codec an entry header's codec word names; `None` for an unknown
/// word.
pub open spec fn codec_of(v: i32) -> Option<SCDCodec> {
    if v == 0x0 {
        Option::Some(SCDCodec::NoCodec)
    } else if v == 0x6 {
        Option::Some(SCDCodec::OGG)
    } else if v == 0xC {
        Option::Some(SCDCodec::MSADPCM)
    } else {
        Option::None
    }
}

/// Whether an entry's 32-byte header can be read at `off` and its codec
/// word is known.
pub open spec fn entry_header_ok(b: Seq<u8>, le: bool, off: int) -> bool {
    &&& 0 <= off
    &&& off + 0x20 <= b.len()
    &&& codec_of(sp_i32(b, off + 0xc, le)) is Some
}

/// The nine fields of an entry's header at `off`.
pub open spec fn spec_entry_header(b: Seq<u8>, le: bool, off: int) -> SCDEntryHeader {
    SCDEntryHeader {
        data_size: sp_i32(b, off, le),
        channel_count: sp_i32(b, off + 0x4, le),
        frequency: sp_i32(b, off + 0x8, le),
        codec: codec_of(sp_i32(b, off + 0xc, le))->Some_0,
        loop_start: sp_i32(b, off + 0x10, le),
        loop_end: sp_i32(b, off + 0x14, le),
        samples_offset: sp_i32(b, off + 0x18, le),
        aux_chunk_count: sp_i16(b, off + 0x1c, le),
        unknown_1: sp_i16(b, off + 0x1e, le),
    }
}

/// Decodes one entry's 32-byte header.
fn decode_entry_header(offset: &usize, buffer: &[u8], little_end: &bool) -> (r: Result<
    SCDEntryHeader,
    FFXIVError,
>)
    ensures
        match r {
            Ok(h) => entry_header_ok(buffer@, *little_end, *offset as int) && h
                == spec_entry_header(buffer@, *little_end, *offset as int),
            Err(e) => !entry_header_ok(buffer@, *little_end, *offset as int) && is_scd_err(e),
        },
{
    proof {
        vstd::slice::axiom_spec_len(buffer);
    }
    if *offset as u128 + 0x20 > buffer.len() as u128 {
        return Err(scd_err());
    }
    let off = *offset;
    let codec_word = match read_i32(&(off + 0xc), buffer, little_end) {
        Ok(v) => v,
        Err(e) => { return Err(e) },
    };
    let codec = if codec_word == 0x0 {
        SCDCodec::NoCodec
    } else if codec_word == 0x6 {
        SCDCodec::OGG
    } else if codec_word == 0xC {
        SCDCodec::MSADPCM
    } else {
        return Err(scd_err());
    };
    let data_size = match read_i32(&off, buffer, little_end) {
        Ok(v) => v,
        Err(e) => { return Err(e) },
    };
    let channel_count = match read_i32(&(off + 0x4), buffer, little_end) {
        Ok(v) => v,
        Err(e) => { return Err(e) },
    };
    let frequency = match read_i32(&(off + 0x8), buffer, little_end) {
        Ok(v) => v,
        Err(e) => { return Err(e) },
    };
    let loop_start = match read_i32(&(off + 0x10), buffer, little_end) {
        Ok(v) => v,
        Err(e) => { return Err(e) },
    };
    let loop_end = match read_i32(&(off + 0x14), buffer, little_end) {
        Ok(v) => v,
        Err(e) => { return Err(e) },
    };
    let samples_offset = match read_i32(&(off + 0x18), buffer, little_end) {
        Ok(v) => v,
        Err(e) => { return Err(e) },
    };
    let aux_chunk_count = match read_i16(&(off + 0x1c), buffer, little_end) {
        Ok(v) => v,
        Err(e) => { return Err(e) },
    };
    let unknown_1 = match read_i16(&(off + 0x1e), buffer, little_end) {
        Ok(v) => v,
        Err(e) => { return Err(e) },
    };
    Ok(
        SCDEntryHeader {
            data_size,
            channel_count,
            frequency,
            codec,
            loop_start,
            loop_end,
            samples_offset,
            aux_chunk_count,
            unknown_1,
        },
    )
}

/// Whether an entry's regions suit its codec: empty entries need nothing,
/// the others need their stream (and, for MS-ADPCM, the format block)
/// inside the buffer.
pub open spec fn spec_entry_ok(b: Seq<u8>, h: SCDEntryHeader, co: u32, doff: u32) -> bool {
    if h.data_size == 0 || h.codec is NoCodec {
        true
    } else if h.codec is OGG {
        ogg_ok(b, h, co)
    } else {
        msadpcm_ok(b, h, co, doff)
    }
}

/// What one decoded entry holds for each codec: nothing for empty entries,
/// the framed stream for OGG, the RIFF/WAVE envelope for MS-ADPCM.
pub open spec fn entry_data_matches(
    b: Seq<u8>,
    h: SCDEntryHeader,
    co: u32,
    doff: u32,
    e: SCDEntryData,
) -> bool {
    if h.data_size == 0 || h.codec is NoCodec {
        e matches SCDEntryData::Empty(x) && x.wf()
    } else if h.codec is OGG {
        e matches SCDEntryData::Ogg(x) && x.header == h && x.decoded@ == ogg_stream(b, h, co)
    } else {
        e matches SCDEntryData::Adpcm(x) && x.header == h && x.decoded@ == wave_envelope(
            b,
            h,
            co,
            doff,
        )
    }
}

/// Decodes one entry by its codec.
fn decode_entry(
    buffer: &[u8],
    entry_header: SCDEntryHeader,
    entry_chunk_offset: &u32,
    entry_data_offset: &u32,
    little_end: &bool,
) -> (r: Result<SCDEntryData, FFXIVError>)
    ensures
        match r {
            Ok(e) => spec_entry_ok(buffer@, entry_header, *entry_chunk_offset, *entry_data_offset)
                && entry_data_matches(
                buffer@,
                entry_header,
                *entry_chunk_offset,
                *entry_data_offset,
                e,
            ),
            Err(x) => !spec_entry_ok(
                buffer@,
                entry_header,
                *entry_chunk_offset,
                *entry_data_offset,
            ) && is_scd_err(x),
        },
{
    if entry_header.data_size == 0 {
        return Ok(SCDEntryData::Empty(SCDEntryNone::empty()));
    }
    match entry_header.codec {
        SCDCodec::NoCodec => Ok(SCDEntryData::Empty(SCDEntryNone::empty())),
        SCDCodec::OGG => {
            match SCDEntryOgg::build(buffer, entry_header, *entry_chunk_offset) {
                Ok(e) => Ok(SCDEntryData::Ogg(e)),
                Err(x) => Err(x),
            }
        },
        SCDCodec::MSADPCM => {
            match SCDEntryMSADPCM::build(
                buffer,
                entry_header,
                *entry_chunk_offset,
                *entry_data_offset,
            ) {
                Ok(e) => Ok(SCDEntryData::Adpcm(e)),
                Err(x) => Err(x),
            }
        },
    }
}

/// The data offset after skipping `j` aux chunks from `off`: each chunk's
/// 4-byte length is read 4 bytes into the chunk and advances the offset.
pub open spec fn aux_skip(b: Seq<u8>, le: bool, off: int, j: nat) -> int
    decreases j,
{
    if j == 0 {
        off
    } else {
        let p = aux_skip(b, le, off, (j - 1) as nat);
        p + sp_i32(b, p + 4, le)
    }
}

/// Whether every one of the `j` aux-chunk length reads stays inside the
/// buffer with a non-negative length.
pub open spec fn aux_ok(b: Seq<u8>, le: bool, off: int, j: nat) -> bool
    decreases j,
{
    if j == 0 {
        true
    } else {
        let p = aux_skip(b, le, off, (j - 1) as nat);
        aux_ok(b, le, off, (j - 1) as nat) && 0 <= p && p + 8 <= b.len() && sp_i32(b, p + 4, le)
            >= 0
    }
}

/// The aux-chunk count an entry header states, clamped below at zero.
pub open spec fn aux_n(h: SCDEntryHeader) -> nat {
    if h.aux_chunk_count >= 0 {
        h.aux_chunk_count as nat
    } else {
        0
    }
}

/// Whether entry `i` of the table can be fully resolved: its table slot,
/// its header, its aux-chunk chain and its codec's regions.
pub open spec fn entry_i_ok(b: Seq<u8>, le: bool, hdr: SCDHeader, i: int) -> bool {
    let eto = hdr.entry_table_offset as int;
    let ho = sp_i32(b, eto + 4 * i, le) as int;
    let eh = spec_entry_header(b, le, ho);
    let co = ho + 32;
    let doff = aux_skip(b, le, co, aux_n(eh));
    &&& 0 <= eto
    &&& eto + 4 * i + 4 <= b.len()
    &&& 0 <= ho
    &&& entry_header_ok(b, le, ho)
    &&& aux_ok(b, le, co, aux_n(eh))
    &&& doff <= u32::MAX
    &&& spec_entry_ok(b, eh, co as u32, doff as u32)
}

/// What entry `i` of the table decodes to.
pub open spec fn entry_i_data(b: Seq<u8>, le: bool, hdr: SCDHeader, i: int, e: SCDEntryData) -> bool {
    let eto = hdr.entry_table_offset as int;
    let ho = sp_i32(b, eto + 4 * i, le) as int;
    let eh = spec_entry_header(b, le, ho);
    let co = ho + 32;
    let doff = aux_skip(b, le, co, aux_n(eh));
    entry_data_matches(b, eh, co as u32, doff as u32, e)
}

/// Resolves entry `i` of the table: its slot, its header, its aux-chunk
/// chain, then its codec's decode.
#[verifier::rlimit(100)]
fn resolve_entry(buffer: &[u8], scd_header: &SCDHeader, little_end: &bool, i: usize) -> (r: Result<
    SCDEntryData,
    FFXIVError,
>)
    ensures
        match r {
            Ok(e) => entry_i_ok(buffer@, *little_end, *scd_header, i as int) && entry_i_data(
                buffer@,
                *little_end,
                *scd_header,
                i as int,
                e,
            ),
            Err(x) => !entry_i_ok(buffer@, *little_end, *scd_header, i as int) && is_scd_err(x),
        },
{
    proof {
        vstd::slice::axiom_spec_len(buffer);
    }
    let n = buffer.len();
    if scd_header.entry_table_offset < 0 {
        return Err(scd_err());
    }
    let slot128: u128 = scd_header.entry_table_offset as u128 + 4u128 * (i as u128);
    if slot128 + 4 > n as u128 {
        return Err(scd_err());
    }
    let slot = slot128 as usize;
    let ho_raw = match read_i32(&slot, buffer, little_end) {
        Ok(v) => v,
        Err(e) => { return Err(e) },
    };
    if ho_raw < 0 {
        return Err(scd_err());
    }
    let ho = ho_raw as usize;
    let eh = match decode_entry_header(&ho, buffer, little_end) {
        Ok(h) => h,
        Err(e) => {
            assert(!entry_i_ok(buffer@, *little_end, *scd_header, i as int));
            return Err(e);
        },
    };
    let co64: u64 = ho as u64 + 32;
    let mut doff128: u128 = co64 as u128;
    let aux_count: usize = if eh.aux_chunk_count >= 0 {
        eh.aux_chunk_count as usize
    } else {
        0
    };
    let mut j: usize = 0;
    while j < aux_count
        invariant
            j <= aux_count,
            n == buffer@.len(),
            scd_header.entry_table_offset >= 0,
            scd_header.entry_table_offset + 4 * (i as int) + 4 <= n,
            sp_i32(buffer@, scd_header.entry_table_offset + 4 * (i as int), *little_end) >= 0,
            ho as int == sp_i32(
                buffer@,
                scd_header.entry_table_offset + 4 * (i as int),
                *little_end,
            ) as int,
            entry_header_ok(buffer@, *little_end, ho as int),
            eh == spec_entry_header(buffer@, *little_end, ho as int),
            aux_count == aux_n(eh),
            co64 == ho + 32,
            ho + 0x20 <= n,
            doff128 == aux_skip(buffer@, *little_end, co64 as int, j as nat),
            aux_ok(buffer@, *little_end, co64 as int, j as nat),
            doff128 <= n as u128 + 0x80000000u128,
        decreases aux_count - j,
    {
        if doff128 + 8 > n as u128 {
            assert(!aux_ok(buffer@, *little_end, co64 as int, (j + 1) as nat));
            proof {
                lemma_aux_ok_prefix(buffer@, *little_end, co64 as int, (j + 1) as nat, aux_n(eh));
            }
            return Err(scd_err());
        }
        let p = doff128 as usize;
        let val = match read_i32(&(p + 4), buffer, little_end) {
            Ok(v) => v,
            Err(e) => { return Err(e) },
        };
        if val < 0 {
            assert(!aux_ok(buffer@, *little_end, co64 as int, (j + 1) as nat));
            proof {
                lemma_aux_ok_prefix(buffer@, *little_end, co64 as int, (j + 1) as nat, aux_n(eh));
            }
            return Err(scd_err());
        }
        proof {
            assert(aux_skip(buffer@, *little_end, co64 as int, (j + 1) as nat) == doff128 + sp_i32(
                buffer@,
                doff128 as int + 4,
                *little_end,
            ));
            assert(aux_ok(buffer@, *little_end, co64 as int, (j + 1) as nat));
        }
        doff128 = doff128 + val as u128;
        j = j + 1;
    }
    if doff128 > 0xFFFFFFFFu128 {
        return Err(scd_err());
    }
    let co = co64 as u32;
    let doff = doff128 as u32;
    let e = match decode_entry(buffer, eh, &co, &doff, little_end) {
        Ok(e) => e,
        Err(x) => {
            assert(!entry_i_ok(buffer@, *little_end, *scd_header, i as int));
            return Err(x);
        },
    };
    proof {
        assert(entry_i_ok(buffer@, *little_end, *scd_header, i as int));
        assert(entry_i_data(buffer@, *little_end, *scd_header, i as int, e));
    }
    Ok(e)
}

/// Decodes every entry of the table, in table order.
#[verifier::rlimit(100)]
#[verifier::spinoff_prover]
pub fn decode_scd_entries(buffer: &[u8], scd_header: &SCDHeader, little_end: &bool) -> (r: Result<
    Vec<SCDEntryData>,
    FFXIVError,
>)
    ensures
        match r {
            Ok(v) => {
                &&& scd_header.entry_count >= 0
                &&& v@.len() == scd_header.entry_count
                &&& forall|i: int|
                    0 <= i < scd_header.entry_count ==> #[trigger] entry_i_ok(
                        buffer@,
                        *little_end,
                        *scd_header,
                        i,
                    ) && entry_i_data(buffer@, *little_end, *scd_header, i, v@[i])
            },
            Err(e) => (scd_header.entry_count < 0 || exists|i: int|
                0 <= i < scd_header.entry_count && !(#[trigger] entry_i_ok(
                    buffer@,
                    *little_end,
                    *scd_header,
                    i,
                ))) && is_scd_err(e),
        },
{
    if scd_header.entry_count < 0 {
        return Err(scd_err());
    }
    let count = scd_header.entry_count as usize;
    let mut entries: Vec<SCDEntryData> = Vec::new();
    let mut i: usize = 0;
    while i < count
        invariant
            i <= count,
            count == scd_header.entry_count,
            entries@.len() == i,
            forall|x: int|
                0 <= x < i ==> #[trigger] entry_i_ok(buffer@, *little_end, *scd_header, x)
                    && entry_i_data(buffer@, *little_end, *scd_header, x, entries@[x]),
        decreases count - i,
    {
        let e = match resolve_entry(buffer, scd_header, little_end, i) {
            Ok(e) => e,
            Err(x) => { return Err(x) },
        };
        entries.push(e);
        i = i + 1;
    }
    proof {
        assert(scd_header.entry_count >= 0);
        assert(entries@.len() == scd_header.entry_count);
        assert(forall|x: int|
            0 <= x < scd_header.entry_count ==> #[trigger] entry_i_ok(
                buffer@,
                *little_end,
                *scd_header,
                x,
            ) && entry_i_data(buffer@, *little_end, *scd_header, x, entries@[x]));
    }
    Ok(entries)
}

/// Whether a whole container decodes: its endianness is decidable, its
/// header lies inside it, its entry count is non-negative, and every entry
/// can be fully resolved.
pub open spec fn scd_decode_ok(b: Seq<u8>) -> bool {
    match spec_endianness(b) {
        Option::Some(le) => {
            &&& scd_header_ok(b, le)
            &&& spec_scd_header(b, le).entry_count >= 0
            &&& forall|i: int|
                0 <= i < spec_scd_header(b, le).entry_count ==> #[trigger] entry_i_ok(
                    b,
                    le,
                    spec_scd_header(b, le),
                    i,
                )
        },
        Option::None => false,
    }
}

proof fn lemma_aux_ok_prefix(b: Seq<u8>, le: bool, off: int, j: nat, m: nat)
    requires
        j <= m,
        !aux_ok(b, le, off, j),
    ensures
        !aux_ok(b, le, off, m),
    decreases m,
{
    if j < m {
        if aux_ok(b, le, off, m) {
            lemma_aux_ok_mono(b, le, off, j, m);
        }
    }
}

proof fn lemma_aux_ok_mono(b: Seq<u8>, le: bool, off: int, j: nat, m: nat)
    requires
        j <= m,
        aux_ok(b, le, off, m),
    ensures
        aux_ok(b, le, off, j),
    decreases m,
{
    if j < m {
        lemma_aux_ok_mono(b, le, off, j, (m - 1) as nat);
    }
}

} // verus!
