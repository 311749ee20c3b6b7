//! The MS-ADPCM sound entry: its payload is wrapped into a standard
//! RIFF/WAVE container, ready for an ADPCM decoder.

use super::entry::{SCDEntry, SCDEntryHeader};
use crate::FFXIVError;
use crate::binary::copy_range;
use vstd::bytes::{spec_u32_to_le_bytes, u32_to_le_bytes};
use vstd::prelude::*;
use vstd::string::StringExecFns;

verus! {

/// Whether an MS-ADPCM entry's regions lie inside the container: the
/// 16-byte format block at the data offset, and the sample data at the
/// chunks offset plus the samples offset.
pub open spec fn msadpcm_ok(
    b: Seq<u8>,
    h: SCDEntryHeader,
    chunks_offset: u32,
    data_offset: u32,
) -> bool {
    &&& 0 <= h.data_size <= i32::MAX - 0x24
    &&& data_offset + 0x10 <= b.len()
    &&& 0 <= chunks_offset + h.samples_offset
    &&& chunks_offset + h.samples_offset + h.data_size <= b.len()
}

/// The RIFF/WAVE envelope an MS-ADPCM entry decodes to: `RIFF`, the chunk
/// size, `WAVEfmt `, the 16-byte format block copied from the container,
/// then `data` and the sample bytes.
pub open spec fn wave_envelope(
    b: Seq<u8>,
    h: SCDEntryHeader,
    chunks_offset: u32,
    data_offset: u32,
) -> Seq<u8> {
    let start = chunks_offset + h.samples_offset;
    seq![0x52u8, 0x49u8, 0x46u8, 0x46u8] + spec_u32_to_le_bytes((0x24 + h.data_size) as u32)
        + seq![0x57u8, 0x41u8, 0x56u8, 0x45u8, 0x66u8, 0x6du8, 0x74u8, 0x20u8]
        + spec_u32_to_le_bytes(0x10u32) + b.subrange(data_offset as int, data_offset + 0x10)
        + seq![0x64u8, 0x61u8, 0x74u8, 0x61u8] + spec_u32_to_le_bytes(h.data_size as u32)
        + b.subrange(start, start + h.data_size)
}

/// An MS-ADPCM sound entry: its header and its RIFF/WAVE payload.
pub struct SCDEntryMSADPCM {
    pub header: SCDEntryHeader,
    pub decoded: Vec<u8>,
}

impl SCDEntryMSADPCM {
    /// Builds the RIFF/WAVE envelope around the entry's format block and
    /// sample bytes.
    pub fn build(
        buffer: &[u8],
        header: SCDEntryHeader,
        chunks_offset: u32,
        data_offset: u32,
    ) -> (r: Result<SCDEntryMSADPCM, FFXIVError>)
        ensures
            match r {
                Ok(e) => msadpcm_ok(buffer@, header, chunks_offset, data_offset) && e.header
                    == header && e.decoded@ == wave_envelope(
                    buffer@,
                    header,
                    chunks_offset,
                    data_offset,
                ),
                Err(x) => !msadpcm_ok(buffer@, header, chunks_offset, data_offset) && x matches
                    FFXIVError::DecodingSCD(_),
            },
    {
        proof {
            vstd::slice::axiom_spec_len(buffer);
        }
        let n = buffer.len();
        if header.data_size < 0 || header.data_size > i32::MAX - 0x24 {
            return Err(scd_entry_err());
        }
        if data_offset as u128 + 0x10 > n as u128 {
            return Err(scd_entry_err());
        }
        let start64: i64 = chunks_offset as i64 + header.samples_offset as i64;
        if start64 < 0 || start64 as u64 + header.data_size as u64 > n as u64 {
            return Err(scd_entry_err());
        }
        let start = start64 as usize;
        let ds = header.data_size as usize;
        let mut v: Vec<u8> = Vec::new();
        v.push(0x52);
        v.push(0x49);
        v.push(0x46);
        v.push(0x46);
        let mut t = u32_to_le_bytes((0x24 + header.data_size) as u32);
        v.append(&mut t);
        v.push(0x57);
        v.push(0x41);
        v.push(0x56);
        v.push(0x45);
        v.push(0x66);
        v.push(0x6d);
        v.push(0x74);
        v.push(0x20);
        let mut t2 = u32_to_le_bytes(0x10);
        v.append(&mut t2);
        let mut fmt_block = copy_range(buffer, data_offset as usize, data_offset as usize + 0x10);
        v.append(&mut fmt_block);
        v.push(0x64);
        v.push(0x61);
        v.push(0x74);
        v.push(0x61);
        let mut t3 = u32_to_le_bytes(header.data_size as u32);
        v.append(&mut t3);
        let mut samples = copy_range(buffer, start, start + ds);
        v.append(&mut samples);
        proof {
            assert(v@ =~= wave_envelope(buffer@, header, chunks_offset, data_offset));
        }
        Ok(SCDEntryMSADPCM { header, decoded: v })
    }
}

fn scd_entry_err() -> (r: FFXIVError)
    ensures
        r matches FFXIVError::DecodingSCD(_),
{
    FFXIVError::DecodingSCD(
        Box::new(FFXIVError::Custom(String::from_str("sound entry out of bounds"))),
    )
}

impl SCDEntry for SCDEntryMSADPCM {
    fn create(
        buffer: &[u8],
        header: SCDEntryHeader,
        chunks_offset: &u32,
        data_offset: &u32,
        little_end: &bool,
    ) -> Result<SCDEntryMSADPCM, FFXIVError> {
        SCDEntryMSADPCM::build(buffer, header, *chunks_offset, *data_offset)
    }

    fn decoded(&self) -> &Vec<u8> {
        &self.decoded
    }

    fn header(&self) -> &SCDEntryHeader {
        &self.header
    }
}

} // verus!
