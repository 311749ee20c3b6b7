//! Parsing of a dat-file entry: its header, its block table, and each
//! block's payload, decompressed where the block is marked compressed.

use crate::FFXIVError;
use crate::binary::{le_u16, le_u32, read_u16_le, read_u32_le};
use std::io::Write;
use vstd::prelude::*;
use vstd::slice::slice_to_vec;
use vstd::string::StringExecFns;

verus! {

/// The content kind of a dat entry; only binary entries are decoded here.
#[derive(Clone, Copy, Debug, PartialEq, Eq, Structural)]
pub enum ContentType {
    Binary,
}

impl ContentType {
    /// The kind a header's content-type field names.  Only the binary kind
    /// is in scope, so every other value is rejected before this point.
    pub fn from(t: u32) -> (r: ContentType)
        requires
            t == 2,
        ensures
            r == ContentType::Binary,
    {
        ContentType::Binary
    }
}

/// The six-word header of a dat entry.
pub struct DataInfo {
    pub header_length: u32,
    pub content_type: ContentType,
    pub uncompressed_size: u32,
    pub block_buffer_size: u32,
    pub num_blocks: u32,
}

/// One block-table record: where the block sits relative to the entry's
/// data, how many bytes it occupies, and how many it decompresses to.
#[derive(Clone, Copy, Debug, PartialEq, Eq, Structural)]
pub struct BlockTableEntry {
    pub offset: u32,
    pub block_size: u16,
    pub decompressed_size: u16,
}

/// A structural failure while reading a dat entry, as the error taxonomy
/// wraps it.
pub open spec fn is_dat_err(e: FFXIVError) -> bool {
    e matches FFXIVError::ReadingDat(_)
}

fn dat_err() -> (r: FFXIVError)
    ensures
        is_dat_err(r),
{
    FFXIVError::ReadingDat(
        Box::new(FFXIVError::Custom(String::from_str("dat data out of bounds"))),
    )
}

/// Reads the six little-endian words of the entry header at `data_offset`;
/// a content type other than 2 (binary) is rejected.
pub fn read_data_header(b: &[u8], data_offset: usize) -> (r: Result<DataInfo, FFXIVError>)
    ensures
        match r {
            Ok(di) => {
                &&& data_offset + 24 <= b@.len()
                &&& le_u32(b@, data_offset + 4) == 2
                &&& di.header_length == le_u32(b@, data_offset as int)
                &&& di.content_type == ContentType::Binary
                &&& di.uncompressed_size == le_u32(b@, data_offset + 8)
                &&& di.block_buffer_size == le_u32(b@, data_offset + 16)
                &&& di.num_blocks == le_u32(b@, data_offset + 20)
            },
            Err(e) => (data_offset + 24 > b@.len() || le_u32(b@, data_offset + 4) != 2)
                && is_dat_err(e),
        },
{
    proof {
        vstd::slice::axiom_spec_len(b);
    }
    if b.len() < 24 || data_offset > b.len() - 24 {
        return Err(dat_err());
    }
    let hlen = read_u32_le(b, data_offset);
    let type_word = read_u32_le(b, data_offset + 4);
    if type_word != 2 {
        return Err(
            FFXIVError::ReadingDat(
                Box::new(FFXIVError::Custom(String::from_str("content type not binary"))),
            ),
        );
    }
    let cont_type = ContentType::from(type_word);
    let un_size = read_u32_le(b, data_offset + 8);
    let block_buf_size = read_u32_le(b, data_offset + 16);
    let block_count = read_u32_le(b, data_offset + 20);
    Ok(
        DataInfo {
            header_length: hlen,
            content_type: cont_type,
            uncompressed_size: un_size,
            block_buffer_size: block_buf_size,
            num_blocks: block_count,
        },
    )
}

/// The block-table record at offset `off`.
pub open spec fn spec_block_entry(b: Seq<u8>, off: int) -> BlockTableEntry {
    BlockTableEntry {
        offset: le_u32(b, off),
        block_size: le_u16(b, off + 4),
        decompressed_size: le_u16(b, off + 6),
    }
}

/// The whole block table of an entry at `data_offset`: `n` 8-byte records
/// starting 24 bytes after the entry header.
pub open spec fn spec_block_table(b: Seq<u8>, data_offset: int, n: nat) -> Seq<BlockTableEntry> {
    Seq::new(n, |i: int| spec_block_entry(b, data_offset + 24 + 8 * i))
}

/// Reads the block table that follows the entry header.
pub fn read_block_table(b: &[u8], data_offset: usize, info: &DataInfo) -> (r: Result<
    Vec<BlockTableEntry>,
    FFXIVError,
>)
    ensures
        match r {
            Ok(v) => data_offset + 24 + 8 * (info.num_blocks as int) <= b@.len() && v@
                == spec_block_table(b@, data_offset as int, info.num_blocks as nat),
            Err(e) => data_offset + 24 + 8 * (info.num_blocks as int) > b@.len() && is_dat_err(e),
        },
{
    proof {
        vstd::slice::axiom_spec_len(b);
    }
    if data_offset as u128 + 24u128 + 8u128 * (info.num_blocks as u128) > b.len() as u128 {
        return Err(dat_err());
    }
    let mut blocktable: Vec<BlockTableEntry> = Vec::new();
    let mut i: u32 = 0;
    while i < info.num_blocks
        invariant
            i <= info.num_blocks,
            b@.len() <= usize::MAX,
            data_offset + 24 + 8 * (info.num_blocks as int) <= b@.len(),
            blocktable@ =~= spec_block_table(b@, data_offset as int, i as nat),
        decreases info.num_blocks - i,
    {
        let off = data_offset + 24 + 8 * (i as usize);
        blocktable.push(
            BlockTableEntry {
                offset: read_u32_le(b, off),
                block_size: read_u16_le(b, off + 4),
                decompressed_size: read_u16_le(b, off + 6),
            },
        );
        proof {
            assert(blocktable@ =~= spec_block_table(b@, data_offset as int, (i + 1) as nat));
        }
        i = i + 1;
    }
    Ok(blocktable)
}

/// What raw-DEFLATE decoding yields on a compressed byte sequence; the
/// decoding is a function of those bytes alone.
pub uninterp spec fn inflate_of(data: Seq<u8>) -> Seq<u8>;

/// Whether a byte sequence is a raw-DEFLATE stream the decoder accepts;
/// like the decoded bytes, acceptance is a function of those bytes alone.
pub uninterp spec fn inflate_ok(data: Seq<u8>) -> bool;

/// Relies on flate2's `write::DeflateDecoder` (raw DEFLATE, no zlib or gzip
/// envelope): fed a whole compressed stream, it yields the decoded bytes on
/// exactly the streams it accepts and an error on the rest; both the
/// decoded bytes and acceptance depend on the input bytes alone.
#[verifier::external_body]
pub fn decompress(compressed: &Vec<u8>, size: u32) -> (r: Result<Vec<u8>, FFXIVError>)
    ensures
        match r {
            Ok(v) => inflate_ok(compressed@) && v@ == inflate_of(compressed@),
            Err(e) => !inflate_ok(compressed@) && is_dat_err(e),
        },
{
    let mut z = flate2::write::DeflateDecoder::new(Vec::with_capacity(size as usize));
    if z.write_all(&compressed[..]).is_err() {
        return Err(FFXIVError::ReadingDat(Box::new(FFXIVError::Custom(String::from(
            "deflate stream failed to decode",
        )))));
    }
    match z.finish() {
        Ok(v) => Ok(v),
        Err(_) => Err(FFXIVError::ReadingDat(Box::new(FFXIVError::Custom(String::from(
            "deflate stream failed to finish",
        ))))),
    }
}

/// Whether a block at `offset` with the given size lies inside the buffer,
/// has its magic word, and a size that covers its own 16-byte header.
pub open spec fn block_ok(b: Seq<u8>, offset: int, block_size: u16) -> bool {
    &&& offset + 16 <= b.len()
    &&& le_u32(b, offset) == 0x10
    &&& block_size >= 16
    &&& offset + block_size <= b.len()
}

/// The payload bytes of a block: everything after its 16-byte header.
pub open spec fn block_payload(b: Seq<u8>, offset: int, block_size: u16) -> Seq<u8> {
    b.subrange(offset + 16, offset + block_size)
}

/// Whether a block is stored compressed: its compressed-length word is
/// below the 32000 sentinel.
pub open spec fn block_compressed(b: Seq<u8>, offset: int) -> bool {
    le_u32(b, offset + 8) < 32000
}

/// Reads one block's header and payload; says whether it is compressed.
pub fn read_compressed_block(b: &[u8], offset: usize, block_size: u16) -> (r: Result<
    (Vec<u8>, bool),
    FFXIVError,
>)
    ensures
        match r {
            Ok((v, comp)) => block_ok(b@, offset as int, block_size) && v@ == block_payload(
                b@,
                offset as int,
                block_size,
            ) && comp == block_compressed(b@, offset as int),
            Err(e) => {
                &&& !block_ok(b@, offset as int, block_size)
                &&& (is_dat_err(e) || e matches FFXIVError::MagicMissing)
                &&& (e matches FFXIVError::MagicMissing) <==> (offset + 16 <= b@.len() && le_u32(
                    b@,
                    offset as int,
                ) != 0x10)
            },
        },
{
    proof {
        vstd::slice::axiom_spec_len(b);
    }
    if b.len() < 16 || offset > b.len() - 16 {
        return Err(dat_err());
    }
    if read_u32_le(b, offset) != 0x10 {
        return Err(FFXIVError::MagicMissing);
    }
    if block_size < 16 || block_size as usize > b.len() - offset {
        return Err(dat_err());
    }
    let compressed_length = read_u32_le(b, offset + 8);
    let is_compressed = compressed_length < 32000;
    let data = slice_to_vec(&b[offset + 16..offset + block_size as usize]);
    Ok((data, is_compressed))
}

/// Whether one block can be read and decoded: it is whole inside the
/// buffer and, where stored compressed, its payload is a stream the
/// decoder accepts.
pub open spec fn block_decodes(b: Seq<u8>, base: int, e: BlockTableEntry) -> bool {
    &&& block_ok(b, base + e.offset, e.block_size)
    &&& block_compressed(b, base + e.offset) ==> inflate_ok(
        block_payload(b, base + e.offset, e.block_size),
    )
}

/// Whether every block of a table can be read and decoded.
pub open spec fn blocks_decode(b: Seq<u8>, base: int, table: Seq<BlockTableEntry>) -> bool {
    forall|i: int| 0 <= i < table.len() ==> #[trigger] block_decodes(b, base, table[i])
}

/// What one block contributes to the reassembled entry: its payload as
/// stored, or that payload run through raw DEFLATE.
pub open spec fn spec_block_out(b: Seq<u8>, base: int, e: BlockTableEntry) -> Seq<u8> {
    let off = base + e.offset;
    if block_compressed(b, off) {
        inflate_of(block_payload(b, off, e.block_size))
    } else {
        block_payload(b, off, e.block_size)
    }
}

/// The concatenation of every block's contribution, in table order.
pub open spec fn spec_blocks_out(b: Seq<u8>, base: int, table: Seq<BlockTableEntry>) -> Seq<u8>
    decreases table.len(),
{
    if table.len() == 0 {
        Seq::empty()
    } else {
        spec_blocks_out(b, base, table.drop_last()) + spec_block_out(b, base, table.last())
    }
}

/// Reads every block of the table, decompressing the compressed ones, and
/// checks that the reassembled bytes are exactly as many as the entry
/// header promised.
pub fn read_and_decompress(
    b: &[u8],
    info: &DataInfo,
    data_offset: usize,
    block_table: &Vec<BlockTableEntry>,
) -> (r: Result<Vec<u8>, FFXIVError>)
    ensures
        match r {
            Ok(v) => {
                &&& blocks_decode(b@, data_offset + info.header_length, block_table@)
                &&& v@ == spec_blocks_out(
                    b@,
                    data_offset + info.header_length,
                    block_table@,
                )
                &&& v@.len() == info.uncompressed_size
            },
            Err(e) => (is_dat_err(e) || e matches FFXIVError::MagicMissing) && !(blocks_decode(
                b@,
                data_offset + info.header_length,
                block_table@,
            ) && spec_blocks_out(b@, data_offset + info.header_length, block_table@).len()
                == info.uncompressed_size),
        },
{
    proof {
        vstd::slice::axiom_spec_len(b);
    }
    let ghost base = data_offset + info.header_length;
    let mut file_data: Vec<u8> = Vec::new();
    let mut i: usize = 0;
    while i < block_table.len()
        invariant
            i <= block_table@.len(),
            b@.len() <= usize::MAX,
            data_offset + info.header_length == base,
            file_data@ =~= spec_blocks_out(b@, base, block_table@.take(i as int)),
            forall|x: int| 0 <= x < i ==> #[trigger] block_decodes(b@, base, block_table@[x]),
        decreases block_table@.len() - i,
    {
        let entry = block_table[i];
        let off128 = data_offset as u128 + info.header_length as u128 + entry.offset as u128;
        if off128 > b.len() as u128 {
            proof {
                assert(!block_decodes(b@, base, block_table@[i as int]));
                assert(!blocks_decode(b@, base, block_table@));
            }
            return Err(dat_err());
        }
        let block_offset = off128 as usize;
        let (payload, is_compressed) = match read_compressed_block(b, block_offset, entry.block_size) {
            Ok(p) => p,
            Err(e) => {
                proof {
                    assert(!block_decodes(b@, base, block_table@[i as int]));
                    assert(!blocks_decode(b@, base, block_table@));
                }
                return Err(e);
            },
        };
        let mut piece: Vec<u8> = if is_compressed {
            match decompress(&payload, entry.decompressed_size as u32) {
                Ok(v) => v,
                Err(e) => {
                    proof {
                        assert(!block_decodes(b@, base, block_table@[i as int]));
                        assert(!blocks_decode(b@, base, block_table@));
                    }
                    return Err(e);
                },
            }
        } else {
            payload
        };
        proof {
            assert(block_decodes(b@, base, block_table@[i as int]));
        }
        file_data.append(&mut piece);
        proof {
            assert(block_table@.take(i + 1).drop_last() =~= block_table@.take(i as int));
            assert(block_table@.take(i + 1).last() == block_table@[i as int]);
            assert(file_data@ =~= spec_blocks_out(b@, base, block_table@.take(i + 1)));
        }
        i = i + 1;
    }
    proof {
        assert(block_table@.take(block_table@.len() as int) =~= block_table@);
    }
    if file_data.len() as u64 != info.uncompressed_size as u64 {
        return Err(
            FFXIVError::ReadingDat(
                Box::new(
                    FFXIVError::Custom(
                        String::from_str("reassembled size differs from entry header"),
                    ),
                ),
            ),
        );
    }
    Ok(file_data)
}

} // verus!
