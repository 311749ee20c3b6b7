//! Sound-container entries: the per-entry header, the codec selector, and
//! the entry for codec-less (empty) data.

use crate::FFXIVError;
use vstd::prelude::*;

verus! {

/// The codec one sound entry is stored with.
#[derive(Clone, Copy, Debug, PartialEq, Eq, Structural)]
pub enum SCDCodec {
    NoCodec,
    OGG,
    MSADPCM,
}

/// The 32-byte header of one sound entry.
#[derive(Clone, Copy, Debug, PartialEq, Eq, Structural)]
pub struct SCDEntryHeader {
    pub data_size: i32,
    pub channel_count: i32,
    pub frequency: i32,
    pub codec: SCDCodec,
    pub loop_start: i32,
    pub loop_end: i32,
    pub samples_offset: i32,
    pub aux_chunk_count: i16,
    pub unknown_1: i16,
}

/// The all-zero header an empty entry carries.
pub open spec fn empty_entry_header() -> SCDEntryHeader {
    SCDEntryHeader {
        data_size: 0,
        channel_count: 0,
        frequency: 0,
        codec: SCDCodec::NoCodec,
        loop_start: 0,
        loop_end: 0,
        samples_offset: 0,
        aux_chunk_count: 0,
        unknown_1: 0,
    }
}

/// One decoded sound entry: its header and its ready-to-consume payload.
pub trait SCDEntry: Sized {
    /// Decodes one entry from the container's bytes.
    fn create(
        buffer: &[u8],
        header: SCDEntryHeader,
        chunks_offset: &u32,
        data_offset: &u32,
        little_end: &bool,
    ) -> Result<Self, FFXIVError>;

    /// The entry's decoded payload bytes.
    fn decoded(&self) -> &Vec<u8>;

    /// The entry's header.
    fn header(&self) -> &SCDEntryHeader;
}

/// The entry used for codec-less or empty data: no payload at all.
pub struct SCDEntryNone {
    pub header: SCDEntryHeader,
    pub decoded: Vec<u8>,
}

impl SCDEntryNone {
    /// Whether this entry is in its only valid state: empty, zeroed header.
    pub open spec fn wf(&self) -> bool {
        self.header == empty_entry_header() && self.decoded@ == Seq::<u8>::empty()
    }

    /// An empty entry with a zeroed header.
    pub fn empty() -> (r: SCDEntryNone)
        ensures
            r.wf(),
    {
        SCDEntryNone {
            header: SCDEntryHeader {
                data_size: 0,
                channel_count: 0,
                frequency: 0,
                codec: SCDCodec::NoCodec,
                loop_start: 0,
                loop_end: 0,
                samples_offset: 0,
                aux_chunk_count: 0,
                unknown_1: 0,
            },
            decoded: Vec::new(),
        }
    }

}

impl SCDEntry for SCDEntryNone {
    fn create(
        buffer: &[u8],
        header: SCDEntryHeader,
        chunks_offset: &u32,
        data_offset: &u32,
        little_end: &bool,
    ) -> Result<SCDEntryNone, FFXIVError> {
        Ok(SCDEntryNone::empty())
    }

    fn decoded(&self) -> &Vec<u8> {
        &self.decoded
    }

    fn header(&self) -> &SCDEntryHeader {
        &self.header
    }
}

} // verus!
