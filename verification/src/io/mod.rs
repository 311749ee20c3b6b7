//! Whole-file parsing: an index file into an [`crate::index::Index`], and a
//! dat file's entry at a given offset into its reassembled raw bytes.

pub mod io_dat;
pub mod io_index;

use crate::FFXIVError;
use crate::binary::{le_u32, le_u64, read_u64_le};
use crate::index;
use vstd::prelude::*;
use vstd::string::StringExecFns;

use self::io_index::{
    dirs_consistent, dirs_in_bounds, files_consistent, folders_match, spec_dirs, spec_file_at,
    spec_files_map, spec_folder_model,
};

verus! {

/// The eight-byte magic every pack file begins with, `SqPack\0\0`, read
/// little-endian.
pub const SQPACK_MAGIC: u64 = 0x00006B6361507153;

/// The header length an index file states at offset 0x0C.
pub open spec fn spec_hlen(b: Seq<u8>) -> int {
    le_u32(b, 0xc) as int
}

/// Where the folder table sits and how many records it holds, per the index
/// header.
pub open spec fn spec_folders_off(b: Seq<u8>) -> int {
    le_u32(b, spec_hlen(b) + 0xE4) as int
}

/// The folder count the index header states.
pub open spec fn spec_folders_count(b: Seq<u8>) -> nat {
    (le_u32(b, spec_hlen(b) + 0xE8) / 0x10) as nat
}

/// Whether a byte buffer is a structurally sound index file: magic present,
/// header fields in bounds, every folder and file record inside it, and
/// every file record naming its own folder's hash.
pub open spec fn spec_index_ok(b: Seq<u8>) -> bool {
    &&& b.len() >= 0x10
    &&& le_u64(b, 0) == SQPACK_MAGIC
    &&& spec_hlen(b) + 0xEC <= b.len()
    &&& dirs_in_bounds(b, spec_folders_off(b), spec_folders_count(b))
    &&& dirs_consistent(b, spec_folders_off(b), spec_folders_count(b))
}

proof fn lemma_files_map_wf(b: Seq<u8>, off0: int, n: nat)
    ensures
        forall|k: u32| #[trigger]
            spec_files_map(b, off0, n).contains_key(k) ==> spec_files_map(b, off0, n)[k].file_hash
                == k,
    decreases n,
{
    if n > 0 {
        lemma_files_map_wf(b, off0, (n - 1) as nat);
        let prev = spec_files_map(b, off0, (n - 1) as nat);
        let f = spec_file_at(b, off0 + 16 * (n - 1));
        assert(spec_files_map(b, off0, n) == prev.insert(f.file_hash, f));
        assert forall|k: u32| #[trigger]
            spec_files_map(b, off0, n).contains_key(k) implies spec_files_map(b, off0, n)[k]
            .file_hash == k by {
            if k != f.file_hash {
                assert(prev.contains_key(k));
            }
        }
    }
}

proof fn lemma_dirs_wf(b: Seq<u8>, off0: int, n: nat)
    ensures
        forall|h: u32| #[trigger]
            spec_dirs(b, off0, n).contains_key(h) ==> spec_dirs(b, off0, n)[h].0 == h && (
            forall|k: u32| #[trigger]
                spec_dirs(b, off0, n)[h].1.contains_key(k) ==> spec_dirs(b, off0, n)[h].1[k]
                    .file_hash == k),
    decreases n,
{
    if n > 0 {
        lemma_dirs_wf(b, off0, (n - 1) as nat);
        let off = off0 + 16 * (n - 1);
        lemma_files_map_wf(b, le_u32(b, off + 4) as int, (le_u32(b, off + 8) / 0x10) as nat);
        let prev = spec_dirs(b, off0, (n - 1) as nat);
        let m = spec_folder_model(b, off);
        assert(spec_dirs(b, off0, n) == prev.insert(m.0, m));
        assert forall|h: u32| #[trigger]
            spec_dirs(b, off0, n).contains_key(h) implies spec_dirs(b, off0, n)[h].0 == h && (
        forall|k: u32| #[trigger]
            spec_dirs(b, off0, n)[h].1.contains_key(k) ==> spec_dirs(b, off0, n)[h].1[k].file_hash
                == k) by {
            if h != m.0 {
                assert(prev.contains_key(h));
                assert(spec_dirs(b, off0, n)[h] == prev[h]);
            } else {
                assert(spec_dirs(b, off0, n)[h] == m);
            }
        }
    }
}

proof fn lemma_files_map_consistent(b: Seq<u8>, off0: int, n: nat, fh: u32)
    requires
        files_consistent(b, off0, n, fh),
    ensures
        forall|k: u32| #[trigger]
            spec_files_map(b, off0, n).contains_key(k) ==> spec_files_map(b, off0, n)[k]
                .folder_hash == fh,
    decreases n,
{
    if n > 0 {
        lemma_files_map_consistent(b, off0, (n - 1) as nat, fh);
        let prev = spec_files_map(b, off0, (n - 1) as nat);
        let f = spec_file_at(b, off0 + 16 * (n - 1));
        assert(le_u32(b, off0 + 16 * (n - 1) + 4) == fh);
        assert(spec_files_map(b, off0, n) == prev.insert(f.file_hash, f));
        assert forall|k: u32| #[trigger]
            spec_files_map(b, off0, n).contains_key(k) implies spec_files_map(b, off0, n)[k]
            .folder_hash == fh by {
            if k != f.file_hash {
                assert(prev.contains_key(k));
            }
        }
    }
}

proof fn lemma_dirs_consistent(b: Seq<u8>, off0: int, n: nat)
    requires
        dirs_consistent(b, off0, n),
    ensures
        forall|h: u32| #[trigger]
            spec_dirs(b, off0, n).contains_key(h) ==> forall|k: u32| #[trigger]
                spec_dirs(b, off0, n)[h].1.contains_key(k) ==> spec_dirs(b, off0, n)[h].1[k]
                    .folder_hash == spec_dirs(b, off0, n)[h].0,
    decreases n,
{
    if n > 0 {
        assert(dirs_consistent(b, off0, (n - 1) as nat)) by {
            assert(forall|i: int|
                0 <= i < n - 1 ==> #[trigger] files_consistent(
                    b,
                    le_u32(b, off0 + 16 * i + 4) as int,
                    (le_u32(b, off0 + 16 * i + 8) / 0x10) as nat,
                    le_u32(b, off0 + 16 * i),
                ));
        }
        lemma_dirs_consistent(b, off0, (n - 1) as nat);
        let off = off0 + 16 * (n - 1);
        assert(files_consistent(
            b,
            le_u32(b, off + 4) as int,
            (le_u32(b, off + 8) / 0x10) as nat,
            le_u32(b, off),
        ));
        lemma_files_map_consistent(
            b,
            le_u32(b, off + 4) as int,
            (le_u32(b, off + 8) / 0x10) as nat,
            le_u32(b, off),
        );
        let prev = spec_dirs(b, off0, (n - 1) as nat);
        let m = spec_folder_model(b, off);
        assert(spec_dirs(b, off0, n) == prev.insert(m.0, m));
        assert forall|h: u32| #[trigger]
            spec_dirs(b, off0, n).contains_key(h) implies forall|k: u32| #[trigger]
            spec_dirs(b, off0, n)[h].1.contains_key(k) ==> spec_dirs(b, off0, n)[h].1[k]
                .folder_hash == spec_dirs(b, off0, n)[h].0 by {
            if h != m.0 {
                assert(prev.contains_key(h));
                assert(spec_dirs(b, off0, n)[h] == prev[h]);
            } else {
                assert(spec_dirs(b, off0, n)[h] == m);
            }
        }
    }
}

/// Parses a whole index file: magic, header, folder table, file tables.
pub fn read_index_file(b: &[u8]) -> (r: Result<index::Index, FFXIVError>)
    ensures
        match r {
            Ok(ind) => spec_index_ok(b@) && folders_match(
                ind.folders(),
                spec_dirs(b@, spec_folders_off(b@), spec_folders_count(b@)),
            ) && ind.wf() && ind.consistent(),
            Err(e) => !spec_index_ok(b@) && match e {
                FFXIVError::MagicMissing => b@.len() >= 8 && le_u64(b@, 0) != SQPACK_MAGIC,
                FFXIVError::ReadingIndex(_) => b@.len() < 8 || le_u64(b@, 0) == SQPACK_MAGIC,
                _ => false,
            },
        },
{
    proof {
        vstd::slice::axiom_spec_len(b);
    }
    if b.len() < 8 {
        return Err(
            FFXIVError::ReadingIndex(
                Box::new(FFXIVError::Custom(String::from_str("index file too short"))),
            ),
        );
    }
    if read_u64_le(b, 0) != SQPACK_MAGIC {
        return Err(FFXIVError::MagicMissing);
    }
    let h_len = match io_index::header_length(b) {
        Ok(h) => h,
        Err(e) => { return Err(e) },
    };
    let info = match io_index::read_index_info(b, h_len) {
        Ok(i) => i,
        Err(e) => { return Err(e) },
    };
    let sub_folders = match io_index::read_directories(b, &info) {
        Ok(m) => m,
        Err(e) => { return Err(e) },
    };
    let ind = index::Index::new(sub_folders);
    proof {
        lemma_dirs_wf(b@, spec_folders_off(b@), spec_folders_count(b@));
        lemma_dirs_consistent(b@, spec_folders_off(b@), spec_folders_count(b@));
    }
    Ok(ind)
}

/// Whether the dat entry at `off` reads in full: its header is whole and
/// binary, its block table lies inside the buffer, every block is whole and
/// decodable, and the reassembled bytes are exactly as many as the header's
/// uncompressed size.
pub open spec fn dat_read_ok(b: Seq<u8>, off: int) -> bool {
    &&& off + 24 <= b.len()
    &&& le_u32(b, off + 4) == 2
    &&& off + 24 + 8 * (le_u32(b, off + 20) as int) <= b.len()
    &&& io_dat::blocks_decode(
        b,
        off + le_u32(b, off),
        io_dat::spec_block_table(b, off, le_u32(b, off + 20) as nat),
    )
    &&& io_dat::spec_blocks_out(
        b,
        off + le_u32(b, off),
        io_dat::spec_block_table(b, off, le_u32(b, off + 20) as nat),
    ).len() == le_u32(b, off + 8)
}

/// Reads and reassembles the dat entry an index file entry points to: entry
/// header, block table, then every block, decompressed where marked.  The
/// result carries exactly as many bytes as the entry header's uncompressed
/// size — any mismatch is an error.
pub fn read_data_file(b: &[u8], file_index: &index::File) -> (r: Result<Vec<u8>, FFXIVError>)
    ensures
        match r {
            Ok(v) => {
                let off = file_index.data_offset as int;
                &&& dat_read_ok(b@, off)
                &&& v@ == io_dat::spec_blocks_out(
                    b@,
                    off + le_u32(b@, off),
                    io_dat::spec_block_table(b@, off, le_u32(b@, off + 20) as nat),
                )
                &&& v@.len() == le_u32(b@, off + 8)
            },
            Err(e) => (io_dat::is_dat_err(e) || e matches FFXIVError::MagicMissing)
                && !dat_read_ok(b@, file_index.data_offset as int),
        },
{
    let data_offset = file_index.data_offset as usize;
    let dat_info = match io_dat::read_data_header(b, data_offset) {
        Ok(di) => di,
        Err(e) => { return Err(e) },
    };
    let block_table = match io_dat::read_block_table(b, data_offset, &dat_info) {
        Ok(t) => t,
        Err(e) => { return Err(e) },
    };
    io_dat::read_and_decompress(b, &dat_info, data_offset, &block_table)
}

} // verus!
