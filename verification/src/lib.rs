//! Reader for the packaged data archives of a large role-playing game:
//! path hashing, pack-index parsing, DAT block decompression, tabular
//! sheet decoding and sound-container decoding, all over plain byte buffers.

use vstd::prelude::*;

pub mod binary;
pub mod expack;
pub mod hash;
pub mod index;
pub mod io;
pub mod scd;
pub mod sheet;

pub use expack::{ExFileIdentifier, FileType, GameExpansion};

verus! {

/// The error taxonomy shared by the whole crate.
#[derive(Debug)]
pub enum FFXIVError {
    /// The resolved path is absent from the index.
    FileNotFound,
    /// I/O or structural failure while parsing an index file.
    ReadingIndex(Box<FFXIVError>),
    /// I/O, block or size failure while parsing a dat file.
    ReadingDat(Box<FFXIVError>),
    /// Structural failure in sheet header/page parsing or a cell read.
    DecodingEXD(Box<FFXIVError>),
    /// Structural failure while parsing a sound container.
    DecodingSCD(Box<FFXIVError>),
    /// A required fixed magic number did not match.
    MagicMissing,
    /// The first path component is not a recognised category.
    UnknownFileType(String),
    /// The second path component is not a recognised expansion.
    UnknownExpansion(String),
    /// The path has too few components to be classified.
    CorruptFileName(String),
    /// The requested sheet language is not among the available ones.
    InvalidLanguage(sheet::ex::SheetLanguage, Vec<sheet::ex::SheetLanguage>),
    /// Arbitrary contextual failure.
    Custom(String),
}

/// Access to a pack tree: the root directory all index and dat paths are
/// derived from.
pub struct FFXIV {
    pub path: String,
}

impl FFXIV {
    /// An archive rooted at the given pack directory.
    pub fn new(path: &String) -> (r: FFXIV)
        ensures
            r.path@ == path@,
    {
        FFXIV { path: path.clone() }
    }

    /// Classifies a logical path within this archive.
    pub fn get_exfile(&self, expath: &String) -> (r: Result<ExFileIdentifier, FFXIVError>)
        ensures
            match r {
                Ok(ex) => expack::spec_identify(expath@) == Option::Some(
                    (ex.file_type, ex.expansion, ex.number),
                ) && ex.exfile@ == expath@,
                Err(e) => expack::spec_identify(expath@) is None,
            },
    {
        ExFileIdentifier::new(expath)
    }

    /// Looks the identified file up in a pre-loaded index and reassembles
    /// its bytes from the named dat file's contents.  A path absent from
    /// the index is `FileNotFound`; the caller supplies the bytes of the
    /// dat file the found entry names.
    pub fn get_raw_data_with_index(
        &self,
        exfile: &ExFileIdentifier,
        provided_index: &index::Index,
        dat_bytes: &[u8],
    ) -> (r: Result<Vec<u8>, FFXIVError>)
        ensures
            ({
                let hashes = hash::path_hash_of(vstd::utf8::encode_utf8(exfile.exfile@));
                let entry = provided_index.spec_get_file(hashes.0, hashes.1);
                match r {
                    Ok(v) => entry matches Option::Some(f) && {
                        let off = f.data_offset as int;
                        &&& io::dat_read_ok(dat_bytes@, off)
                        &&& v@ == io::io_dat::spec_blocks_out(
                            dat_bytes@,
                            off + binary::le_u32(dat_bytes@, off),
                            io::io_dat::spec_block_table(
                                dat_bytes@,
                                off,
                                binary::le_u32(dat_bytes@, off + 20) as nat,
                            ),
                        )
                        &&& v@.len() == binary::le_u32(dat_bytes@, off + 8)
                    },
                    Err(e) => match e {
                        FFXIVError::FileNotFound => entry is None,
                        _ => (entry matches Option::Some(f) && !io::dat_read_ok(
                            dat_bytes@,
                            f.data_offset as int,
                        )) && (io::io_dat::is_dat_err(e) || e matches FFXIVError::MagicMissing),
                    },
                }
            }),
    {
        let phash = exfile.get_sqpack_hashcode();
        match provided_index.get_file(phash.folder_hash, phash.file_hash) {
            Option::Some(index_file) => io::read_data_file(dat_bytes, index_file),
            Option::None => Err(FFXIVError::FileNotFound),
        }
    }
}

} // verus!
