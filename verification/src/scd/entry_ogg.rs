//! The Vorbis-stream sound entry: the container framing is resolved here
//! and the embedded stream's bytes are delivered as they stand, ready for
//! a Vorbis decoder.

use super::entry::{SCDEntry, SCDEntryHeader};
use crate::FFXIVError;
use crate::binary::copy_range;
use vstd::prelude::*;
use vstd::string::StringExecFns;

verus! {

/// Whether an OGG entry's stream lies inside the container: `data_size`
/// bytes at the chunks offset plus the samples offset.
pub open spec fn ogg_ok(b: Seq<u8>, h: SCDEntryHeader, chunks_offset: u32) -> bool {
    &&& 0 <= h.data_size
    &&& 0 <= chunks_offset + h.samples_offset
    &&& chunks_offset + h.samples_offset + h.data_size <= b.len()
}

/// The embedded stream bytes an OGG entry delivers.
pub open spec fn ogg_stream(b: Seq<u8>, h: SCDEntryHeader, chunks_offset: u32) -> Seq<u8> {
    let start = chunks_offset + h.samples_offset;
    b.subrange(start, start + h.data_size)
}

/// A Vorbis-stream sound entry: its header and the framed stream bytes.
pub struct SCDEntryOgg {
    pub header: SCDEntryHeader,
    pub decoded: Vec<u8>,
}

impl SCDEntryOgg {
    /// Extracts the embedded stream's bytes.
    pub fn build(buffer: &[u8], header: SCDEntryHeader, chunks_offset: u32) -> (r: Result<
        SCDEntryOgg,
        FFXIVError,
    >)
        ensures
            match r {
                Ok(e) => ogg_ok(buffer@, header, chunks_offset) && e.header == header
                    && e.decoded@ == ogg_stream(buffer@, header, chunks_offset),
                Err(x) => !ogg_ok(buffer@, header, chunks_offset) && x matches
                    FFXIVError::DecodingSCD(_),
            },
    {
        proof {
            vstd::slice::axiom_spec_len(buffer);
        }
        let n = buffer.len();
        if header.data_size < 0 {
            return Err(ogg_err());
        }
        let start64: i64 = chunks_offset as i64 + header.samples_offset as i64;
        if start64 < 0 || start64 as u64 + header.data_size as u64 > n as u64 {
            return Err(ogg_err());
        }
        let start = start64 as usize;
        let decoded = copy_range(buffer, start, start + header.data_size as usize);
        Ok(SCDEntryOgg { header, decoded })
    }
}

fn ogg_err() -> (r: FFXIVError)
    ensures
        r matches FFXIVError::DecodingSCD(_),
{
    FFXIVError::DecodingSCD(
        Box::new(FFXIVError::Custom(String::from_str("sound entry out of bounds"))),
    )
}

impl SCDEntry for SCDEntryOgg {
    fn create(
        buffer: &[u8],
        header: SCDEntryHeader,
        chunks_offset: &u32,
        data_offset: &u32,
        little_end: &bool,
    ) -> Result<SCDEntryOgg, FFXIVError> {
        SCDEntryOgg::build(buffer, header, *chunks_offset)
    }

    fn decoded(&self) -> &Vec<u8> {
        &self.decoded
    }

    fn header(&self) -> &SCDEntryHeader {
        &self.header
    }
}

} // verus!
