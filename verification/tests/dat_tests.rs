use ffxiv_pack::FFXIVError;
use ffxiv_pack::index::File;
use ffxiv_pack::io::{read_data_file, read_index_file};
use std::io::Write;

fn put_u32_le(b: &mut Vec<u8>, off: usize, x: u32) {
    b[off..off + 4].copy_from_slice(&x.to_le_bytes());
}

fn put_u16_le(b: &mut Vec<u8>, off: usize, x: u16) {
    b[off..off + 2].copy_from_slice(&x.to_le_bytes());
}

fn deflate(plain: &[u8]) -> Vec<u8> {
    let mut e =
        flate2::write::DeflateEncoder::new(Vec::new(), flate2::Compression::default());
    e.write_all(plain).unwrap();
    e.finish().unwrap()
}

/// One dat entry at offset 0 with a single block holding `payload`;
/// `compressed_length` below 32000 marks the block compressed.
fn make_dat(payload: &[u8], compressed_length: u32, uncompressed_size: u32) -> Vec<u8> {
    let mut b = vec![0u8; 48 + payload.len()];
    put_u32_le(&mut b, 0, 32); // header length
    put_u32_le(&mut b, 4, 2); // content type: binary
    put_u32_le(&mut b, 8, uncompressed_size);
    put_u32_le(&mut b, 16, 0x4000); // block buffer size
    put_u32_le(&mut b, 20, 1); // block count
    // block table entry
    put_u32_le(&mut b, 24, 0);
    put_u16_le(&mut b, 28, (16 + payload.len()) as u16);
    put_u16_le(&mut b, 30, uncompressed_size as u16);
    // block at 32
    put_u32_le(&mut b, 32, 0x10);
    put_u32_le(&mut b, 36, 0);
    put_u32_le(&mut b, 40, compressed_length);
    put_u32_le(&mut b, 44, uncompressed_size);
    b[48..].copy_from_slice(payload);
    b
}

fn entry_at_zero() -> File {
    File { folder_hash: 0, file_hash: 0, data_offset: 0, dat_file: 0 }
}

#[test]
fn test_dat_compressed_block_round_trip() {
    let plain = b"the quick brown fox jumps over the lazy dog, twice over the lazy dog";
    let packed = deflate(plain);
    let b = make_dat(&packed, packed.len() as u32, plain.len() as u32);
    let out = read_data_file(&b, &entry_at_zero()).unwrap();
    assert_eq!(out, plain);
}

#[test]
fn test_dat_stored_block() {
    let plain = b"stored bytes, no compression";
    let b = make_dat(plain, 32000, plain.len() as u32);
    let out = read_data_file(&b, &entry_at_zero()).unwrap();
    assert_eq!(out, plain);
}

#[test]
fn test_dat_size_mismatch_is_fatal() {
    let plain = b"stored bytes, no compression";
    let mut b = make_dat(plain, 32000, plain.len() as u32);
    // entry header promises one byte more than the blocks produce
    put_u32_le(&mut b, 8, plain.len() as u32 + 1);
    let r = read_data_file(&b, &entry_at_zero());
    assert!(matches!(r, Err(FFXIVError::ReadingDat(_))));
}

#[test]
fn test_dat_rejects_non_binary_content() {
    let plain = b"x";
    let mut b = make_dat(plain, 32000, 1);
    put_u32_le(&mut b, 4, 4); // texture content type
    let r = read_data_file(&b, &entry_at_zero());
    assert!(matches!(r, Err(FFXIVError::ReadingDat(_))));
}

#[test]
fn test_dat_block_magic_missing() {
    let plain = b"x";
    let mut b = make_dat(plain, 32000, 1);
    put_u32_le(&mut b, 32, 0x11);
    let r = read_data_file(&b, &entry_at_zero());
    assert!(matches!(r, Err(FFXIVError::MagicMissing)));
}

#[test]
fn test_dat_bad_deflate_stream_is_error() {
    // compressed_length below the sentinel marks the block compressed, but
    // the payload is not a DEFLATE stream
    let junk = [0xFFu8, 0xFF, 0xFF, 0xFF, 0xFF, 0xFF, 0xFF, 0xFF];
    let b = make_dat(&junk, junk.len() as u32, 4);
    let r = read_data_file(&b, &entry_at_zero());
    assert!(matches!(r, Err(FFXIVError::ReadingDat(_))));
}

#[test]
fn test_lookup_and_read_through_facade() {
    // an index whose single entry points at offset 0 of dat 0, and a dat
    // buffer with one stored block
    let mut ib = vec![0u8; 0x130];
    ib[0..8].copy_from_slice(&[0x53, 0x71, 0x50, 0x61, 0x63, 0x6B, 0x00, 0x00]);
    put_u32_le(&mut ib, 0x0C, 0x10);
    put_u32_le(&mut ib, 0xF4, 0x100);
    put_u32_le(&mut ib, 0xF8, 0x10);
    put_u32_le(&mut ib, 0x100, 0x0AF269D6);
    put_u32_le(&mut ib, 0x104, 0x110);
    put_u32_le(&mut ib, 0x108, 0x10);
    put_u32_le(&mut ib, 0x110, 0xE3B71579);
    put_u32_le(&mut ib, 0x114, 0x0AF269D6);
    put_u32_le(&mut ib, 0x118, 0);
    let ind = read_index_file(&ib).unwrap();

    let plain = b"pack contents";
    let dat = make_dat(plain, 32000, plain.len() as u32);

    let f = ffxiv_pack::FFXIV::new(&String::from("root"));
    let ex = f.get_exfile(&String::from("music/ffxiv/bgm_system_title.scd")).unwrap();
    let out = f.get_raw_data_with_index(&ex, &ind, &dat).unwrap();
    assert_eq!(out, plain);

    let missing = f.get_exfile(&String::from("music/ffxiv/not_there.scd")).unwrap();
    let r = f.get_raw_data_with_index(&missing, &ind, &dat);
    assert!(matches!(r, Err(FFXIVError::FileNotFound)));
}
