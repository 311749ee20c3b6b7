//! The sound container: a header, an entry table, and one decoded payload
//! per entry, each ready for its codec.

pub mod decoding;
pub mod entry;
pub mod entry_msadpcm;
pub mod entry_ogg;

use self::decoding::{
    decode_little_endianness, decode_scd_entries, decode_scd_header, entry_i_data, entry_i_ok,
    is_scd_err, scd_decode_ok, scd_header_ok, spec_endianness, spec_scd_header,
};
use self::entry::SCDEntryNone;
use self::entry_msadpcm::SCDEntryMSADPCM;
use self::entry_ogg::SCDEntryOgg;
use crate::FFXIVError;
use vstd::prelude::*;

verus! {

/// The container header: entry count and table offset, with the fields the
/// format leaves unexplained carried through as read.
#[derive(Clone, Copy, Debug, PartialEq, Eq, Structural)]
pub struct SCDHeader {
    pub unknown_1_count: i16,
    pub unknown_2_count: i16,
    pub entry_count: i16,
    pub unknown_1: i16,
    pub unknown_1_offset: i32,
    pub entry_table_offset: i32,
    pub unknown_2_offset: i32,
    pub unknown_2: i32,
    pub unknown_offset_1: i32,
}

/// One decoded entry, by codec.
pub enum SCDEntryData {
    Empty(SCDEntryNone),
    Ogg(SCDEntryOgg),
    Adpcm(SCDEntryMSADPCM),
}

/// A decoded sound container: its header and its entries in table order.
pub struct SCDFile {
    pub entries: Vec<SCDEntryData>,
    pub header: SCDHeader,
}

impl SCDFile {
    /// Decodes a whole container: endianness, header, then every entry.
    pub fn decode(data: Vec<u8>) -> (r: Result<SCDFile, FFXIVError>)
        ensures
            match r {
                Ok(f) => scd_decode_ok(data@) && (spec_endianness(data@) matches Option::Some(le)
                    && {
                    &&& scd_header_ok(data@, le)
                    &&& f.header == spec_scd_header(data@, le)
                    &&& f.header.entry_count >= 0
                    &&& f.entries@.len() == f.header.entry_count
                    &&& forall|i: int|
                        0 <= i < f.header.entry_count ==> #[trigger] entry_i_ok(
                            data@,
                            le,
                            f.header,
                            i,
                        ) && entry_i_data(data@, le, f.header, i, f.entries@[i])
                }),
                Err(e) => is_scd_err(e) && !scd_decode_ok(data@),
            },
    {
        let little_endian = match decode_little_endianness(data.as_slice()) {
            Ok(le) => le,
            Err(e) => { return Err(e) },
        };
        let header = match decode_scd_header(data.as_slice(), &little_endian) {
            Ok(h) => h,
            Err(e) => { return Err(e) },
        };
        let entries = match decode_scd_entries(data.as_slice(), &header, &little_endian) {
            Ok(v) => v,
            Err(e) => { return Err(e) },
        };
        Ok(SCDFile { entries, header })
    }
}

} // verus!
