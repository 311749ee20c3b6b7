//! Parsing of index files from their raw bytes: the header, the folder
//! table, and each folder's file table.  All fields are little-endian.

use crate::FFXIVError;
use crate::binary::{le_u32, read_u32_le};
use crate::index;
use std::collections::HashMap;
use vstd::prelude::*;
use vstd::string::StringExecFns;

verus! {

/// Where the two record tables of an index sit, and how many records each
/// holds.
pub struct IndexInfo {
    pub files_offset: u32,
    pub folders_offset: u32,
    pub files_count: u32,
    pub folders_count: u32,
}

/// A structural failure while reading an index, as the error taxonomy wraps
/// it.
pub open spec fn is_index_err(e: FFXIVError) -> bool {
    e matches FFXIVError::ReadingIndex(_)
}

fn index_err() -> (r: FFXIVError)
    ensures
        is_index_err(r),
{
    FFXIVError::ReadingIndex(
        Box::new(FFXIVError::Custom(String::from_str("index data out of bounds"))),
    )
}

/// The file entry a 16-byte index record at `off` describes: its two hashes
/// and the packed dat-number/offset field, unpacked.
pub open spec fn spec_file_at(b: Seq<u8>, off: int) -> index::File {
    index::File {
        file_hash: le_u32(b, off),
        folder_hash: le_u32(b, off + 4),
        data_offset: (le_u32(b, off + 8) & 0xFFFFFFF8u32) << 3u32,
        dat_file: ((le_u32(b, off + 8) & 0x7u32) >> 1u32) as u8,
    }
}

/// The file map built from `n` 16-byte records starting at `off0`, later
/// records overriding earlier ones of equal hash.
pub open spec fn spec_files_map(b: Seq<u8>, off0: int, n: nat) -> Map<u32, index::File>
    decreases n,
{
    if n == 0 {
        Map::empty()
    } else {
        spec_files_map(b, off0, (n - 1) as nat).insert(
            spec_file_at(b, off0 + 16 * (n - 1)).file_hash,
            spec_file_at(b, off0 + 16 * (n - 1)),
        )
    }
}

/// Whether the 16-byte record `i` of a table at `off0` lies inside the
/// buffer (the last 4 bytes of a record are never read).
pub open spec fn rec_in(b: Seq<u8>, off0: int, i: int) -> bool {
    off0 + 16 * i + 12 <= b.len()
}

/// Whether `n` 16-byte records starting at `off0` lie inside the buffer.
pub open spec fn files_in_bounds(b: Seq<u8>, off0: int, n: nat) -> bool {
    forall|i: int| 0 <= i < n ==> #[trigger] rec_in(b, off0, i)
}

/// Reads the `u32` at offset 0x0C: the length of the index header.
pub fn header_length(b: &[u8]) -> (r: Result<u32, FFXIVError>)
    ensures
        match r {
            Ok(h) => b@.len() >= 0x10 && h == le_u32(b@, 0xc),
            Err(e) => b@.len() < 0x10 && is_index_err(e),
        },
{
    if b.len() < 0x10 {
        return Err(index_err());
    }
    Ok(read_u32_le(b, 0xc))
}

/// Reads the table locations at `header_offset + 0x08` (files) and
/// `header_offset + 0xE4` (folders); each count is its byte length over 16.
pub fn read_index_info(b: &[u8], header_offset: u32) -> (r: Result<IndexInfo, FFXIVError>)
    ensures
        match r {
            Ok(info) => header_offset + 0xEC <= b@.len() && info.files_offset == le_u32(
                b@,
                header_offset + 0x08,
            ) && info.files_count == le_u32(b@, header_offset + 0x0C) / 0x10
                && info.folders_offset == le_u32(b@, header_offset + 0xE4) && info.folders_count
                == le_u32(b@, header_offset + 0xE8) / 0x10,
            Err(e) => header_offset + 0xEC > b@.len() && is_index_err(e),
        },
{
    proof {
        vstd::slice::axiom_spec_len(b);
    }
    if (b.len() as u64) < header_offset as u64 + 0xEC {
        return Err(index_err());
    }
    let ho = header_offset as usize;
    let f_offset = read_u32_le(b, ho + 0x08);
    let f_len = read_u32_le(b, ho + 0x0C);
    let d_offset = read_u32_le(b, ho + 0xE4);
    let d_len = read_u32_le(b, ho + 0xE8);
    Ok(
        IndexInfo {
            files_offset: f_offset,
            folders_offset: d_offset,
            files_count: f_len / 0x10,
            folders_count: d_len / 0x10,
        },
    )
}

/// Reads one 16-byte file record: file hash, folder hash, and the packed
/// field whose low bits name the dat file and whose high bits, shifted back,
/// give the byte offset inside it.
pub fn read_file(b: &[u8], offset: usize) -> (r: Result<index::File, FFXIVError>)
    ensures
        match r {
            Ok(f) => offset + 12 <= b@.len() && f == spec_file_at(b@, offset as int),
            Err(e) => offset + 12 > b@.len() && is_index_err(e),
        },
{
    proof {
        vstd::slice::axiom_spec_len(b);
    }
    if b.len() < 12 || offset > b.len() - 12 {
        return Err(index_err());
    }
    let file_hash = read_u32_le(b, offset);
    let folder_hash = read_u32_le(b, offset + 4);
    let packed = read_u32_le(b, offset + 8);
    let dat_file = ((packed & 0x7) >> 1) as u8;
    let data_offset = (packed & 0xfffffff8) << 3;
    Ok(index::File { file_hash, folder_hash, data_offset, dat_file })
}

/// Reads one 16-byte folder record and the whole file table it points to;
/// a file record naming a folder hash other than this folder's is rejected.
pub fn read_folder(b: &[u8], offset: usize) -> (r: Result<index::Folder, FFXIVError>)
    ensures
        match r {
            Ok(f) => {
                let files_off = le_u32(b@, offset + 4) as int;
                let count = (le_u32(b@, offset + 8) / 0x10) as nat;
                &&& offset + 12 <= b@.len()
                &&& files_in_bounds(b@, files_off, count)
                &&& files_consistent(b@, files_off, count, le_u32(b@, offset as int))
                &&& f.folder_hash == le_u32(b@, offset as int)
                &&& f.files() == spec_files_map(b@, files_off, count)
            },
            Err(e) => (offset + 12 > b@.len() || !files_in_bounds(
                b@,
                le_u32(b@, offset + 4) as int,
                (le_u32(b@, offset + 8) / 0x10) as nat,
            ) || !files_consistent(
                b@,
                le_u32(b@, offset + 4) as int,
                (le_u32(b@, offset + 8) / 0x10) as nat,
                le_u32(b@, offset as int),
            )) && is_index_err(e),
        },
{
    proof {
        vstd::slice::axiom_spec_len(b);
    }
    if b.len() < 12 || offset > b.len() - 12 {
        return Err(index_err());
    }
    let folder_hash = read_u32_le(b, offset);
    let files_offset = read_u32_le(b, offset + 4);
    let files_len = read_u32_le(b, offset + 8);
    let files_count = files_len / 0x10;
    let mut files: HashMap<u32, index::File> = HashMap::new();
    let mut i: u32 = 0;
    while i < files_count
        invariant
            i <= files_count,
            b@.len() <= u64::MAX,
            offset + 12 <= b@.len(),
            folder_hash == le_u32(b@, offset as int),
            files_offset == le_u32(b@, offset + 4),
            files_count == le_u32(b@, offset + 8) / 0x10,
            files@ =~= spec_files_map(b@, files_offset as int, i as nat),
            files_in_bounds(b@, files_offset as int, i as nat),
            files_consistent(b@, files_offset as int, i as nat, folder_hash),
        decreases files_count - i,
    {
        let off64 = files_offset as u64 + 16u64 * (i as u64);
        if off64 > u64::MAX - 12 || off64 + 12 > b.len() as u64 {
            proof {
                let fo = le_u32(b@, offset + 4) as int;
                let cnt = (le_u32(b@, offset + 8) / 0x10) as nat;
                assert(fo == files_offset as int);
                assert(cnt == files_count as nat);
                assert((i as int) < cnt);
                assert(!rec_in(b@, fo, i as int));
                assert(!files_in_bounds(b@, fo, cnt));
            }
            return Err(index_err());
        }
        let file = match read_file(b, off64 as usize) {
            Ok(f) => f,
            Err(e) => { return Err(e) },
        };
        if file.folder_hash != folder_hash {
            proof {
                assert(le_u32(b@, files_offset as int + 16 * (i as int) + 4) != le_u32(
                    b@,
                    offset as int,
                ));
                assert(!files_consistent(
                    b@,
                    le_u32(b@, offset + 4) as int,
                    (le_u32(b@, offset + 8) / 0x10) as nat,
                    le_u32(b@, offset as int),
                ));
            }
            return Err(index_err());
        }
        files.insert(file.file_hash, file);
        proof {
            assert(le_u32(b@, files_offset as int + 16 * (i as int) + 4) == folder_hash);
            assert(files@ =~= spec_files_map(b@, files_offset as int, (i + 1) as nat));
        }
        i = i + 1;
    }
    Ok(index::Folder::new(folder_hash, files))
}

/// What one folder record models: its hash and its file map.
pub open spec fn spec_folder_model(b: Seq<u8>, off: int) -> (u32, Map<u32, index::File>) {
    (
        le_u32(b, off),
        spec_files_map(b, le_u32(b, off + 4) as int, (le_u32(b, off + 8) / 0x10) as nat),
    )
}

/// The folder map built from `n` 16-byte folder records starting at `off0`.
pub open spec fn spec_dirs(b: Seq<u8>, off0: int, n: nat) -> Map<u32, (u32, Map<u32, index::File>)>
    decreases n,
{
    if n == 0 {
        Map::empty()
    } else {
        spec_dirs(b, off0, (n - 1) as nat).insert(
            spec_folder_model(b, off0 + 16 * (n - 1)).0,
            spec_folder_model(b, off0 + 16 * (n - 1)),
        )
    }
}

/// Whether folder record `i` of the folder table at `off0`, and the file
/// table it points to, lie inside the buffer.
pub open spec fn dir_rec_in(b: Seq<u8>, off0: int, i: int) -> bool {
    rec_in(b, off0, i) && files_in_bounds(
        b,
        le_u32(b, off0 + 16 * i + 4) as int,
        (le_u32(b, off0 + 16 * i + 8) / 0x10) as nat,
    )
}

/// Whether every folder record and every file table it points to lies
/// inside the buffer.
pub open spec fn dirs_in_bounds(b: Seq<u8>, off0: int, n: nat) -> bool {
    forall|i: int| 0 <= i < n ==> #[trigger] dir_rec_in(b, off0, i)
}

/// Whether every one of `n` file records at `off0` names `fh` as its
/// folder hash.
pub open spec fn files_consistent(b: Seq<u8>, off0: int, n: nat, fh: u32) -> bool {
    forall|i: int| 0 <= i < n ==> #[trigger] le_u32(b, off0 + 16 * i + 4) == fh
}

/// Whether every folder record's file table names that folder's own hash
/// in each of its records.
pub open spec fn dirs_consistent(b: Seq<u8>, off0: int, n: nat) -> bool {
    forall|i: int|
        0 <= i < n ==> #[trigger] files_consistent(
            b,
            le_u32(b, off0 + 16 * i + 4) as int,
            (le_u32(b, off0 + 16 * i + 8) / 0x10) as nat,
            le_u32(b, off0 + 16 * i),
        )
}

/// Whether an exec folder map realises a folder model map.
pub open spec fn folders_match(
    m: Map<u32, index::Folder>,
    d: Map<u32, (u32, Map<u32, index::File>)>,
) -> bool {
    &&& m.dom() == d.dom()
    &&& forall|h: u32| #[trigger]
        m.contains_key(h) ==> m[h].folder_hash == d[h].0 && m[h].files() == d[h].1
}

/// Reads the whole folder table described by `info`.
pub fn read_directories(b: &[u8], info: &IndexInfo) -> (r: Result<
    HashMap<u32, index::Folder>,
    FFXIVError,
>)
    ensures
        match r {
            Ok(m) => dirs_in_bounds(b@, info.folders_offset as int, info.folders_count as nat)
                && dirs_consistent(b@, info.folders_offset as int, info.folders_count as nat)
                && folders_match(
                m@,
                spec_dirs(b@, info.folders_offset as int, info.folders_count as nat),
            ),
            Err(e) => !(dirs_in_bounds(b@, info.folders_offset as int, info.folders_count as nat)
                && dirs_consistent(
                b@,
                info.folders_offset as int,
                info.folders_count as nat,
            )) && is_index_err(e),
        },
{
    proof {
        vstd::slice::axiom_spec_len(b);
    }
    let mut folders: HashMap<u32, index::Folder> = HashMap::new();
    let mut i: u32 = 0;
    while i < info.folders_count
        invariant
            i <= info.folders_count,
            b@.len() <= u64::MAX,
            folders_match(folders@, spec_dirs(b@, info.folders_offset as int, i as nat)),
            forall|j: int| 0 <= j < i ==> #[trigger] dir_rec_in(b@, info.folders_offset as int, j),
            dirs_consistent(b@, info.folders_offset as int, i as nat),
        decreases info.folders_count - i,
    {
        let ghost fo = info.folders_offset as int;
        let ghost n = info.folders_count as nat;
        let off64 = info.folders_offset as u64 + 16u64 * (i as u64);
        if off64 > u64::MAX - 12 || off64 + 12 > b.len() as u64 {
            assert(!rec_in(b@, info.folders_offset as int, i as int));
            assert(!dir_rec_in(b@, info.folders_offset as int, i as int));
            return Err(index_err());
        }
        let folder = match read_folder(b, off64 as usize) {
            Ok(f) => f,
            Err(e) => {
                proof {
                    assert(off64 as int == fo + 16 * (i as int));
                    assert(!(dirs_in_bounds(b@, fo, n) && dirs_consistent(b@, fo, n))) by {
                        if dirs_in_bounds(b@, fo, n) && dirs_consistent(b@, fo, n) {
                            assert(dir_rec_in(b@, fo, i as int));
                            assert(files_consistent(
                                b@,
                                le_u32(b@, fo + 16 * (i as int) + 4) as int,
                                (le_u32(b@, fo + 16 * (i as int) + 8) / 0x10) as nat,
                                le_u32(b@, fo + 16 * (i as int)),
                            ));
                        }
                    }
                }
                return Err(index_err());
            },
        };
        folders.insert(folder.folder_hash, folder);
        proof {
            assert(off64 as int == fo + 16 * (i as int));
            assert(files_consistent(
                b@,
                le_u32(b@, fo + 16 * (i as int) + 4) as int,
                (le_u32(b@, fo + 16 * (i as int) + 8) / 0x10) as nat,
                le_u32(b@, fo + 16 * (i as int)),
            ));
            let ghost d1 = spec_dirs(b@, info.folders_offset as int, (i + 1) as nat);
            assert(folders@.dom() =~= d1.dom());
        }
        i = i + 1;
    }
    Ok(folders)
}

} // verus!
