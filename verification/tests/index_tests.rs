use ffxiv_pack::FFXIVError;
use ffxiv_pack::io::read_index_file;

fn put_u32_le(b: &mut Vec<u8>, off: usize, x: u32) {
    b[off..off + 4].copy_from_slice(&x.to_le_bytes());
}

fn sample_index_bytes() -> Vec<u8> {
    let mut b = vec![0u8; 0x130];
    // the SqPack magic, two NULs included
    b[0..8].copy_from_slice(&[0x53, 0x71, 0x50, 0x61, 0x63, 0x6B, 0x00, 0x00]);
    // header length
    put_u32_le(&mut b, 0x0C, 0x10);
    // files table info at header + 0x08
    put_u32_le(&mut b, 0x18, 0x110);
    put_u32_le(&mut b, 0x1C, 0x20);
    // folders table info at header + 0xE4
    put_u32_le(&mut b, 0xF4, 0x100);
    put_u32_le(&mut b, 0xF8, 0x10);
    // one folder record
    put_u32_le(&mut b, 0x100, 0x0AF269D6);
    put_u32_le(&mut b, 0x104, 0x110);
    put_u32_le(&mut b, 0x108, 0x20);
    // two file records
    put_u32_le(&mut b, 0x110, 0xE3B71579);
    put_u32_le(&mut b, 0x114, 0x0AF269D6);
    put_u32_le(&mut b, 0x118, 0x82); // dat 1, offset 0x400
    put_u32_le(&mut b, 0x120, 0x1111_2222);
    put_u32_le(&mut b, 0x124, 0x0AF269D6);
    put_u32_le(&mut b, 0x128, 0x100); // dat 0, offset 0x800
    b
}

#[test]
fn test_index_parse_and_lookup() {
    let b = sample_index_bytes();
    let ind = read_index_file(&b).unwrap();
    let f = ind.get_file(0x0AF269D6, 0xE3B71579).unwrap();
    assert_eq!(f.file_hash, 0xE3B71579);
    assert_eq!(f.folder_hash, 0x0AF269D6);
    assert_eq!(f.dat_file, 1);
    assert_eq!(f.data_offset, 0x400);
    let g = ind.get_file(0x0AF269D6, 0x1111_2222).unwrap();
    assert_eq!(g.dat_file, 0);
    assert_eq!(g.data_offset, 0x800);
}

#[test]
fn test_index_lookup_misses() {
    let b = sample_index_bytes();
    let ind = read_index_file(&b).unwrap();
    assert!(ind.get_file(0x0AF269D6, 0xDEADBEEF).is_none());
    assert!(ind.get_file(0x12345678, 0xE3B71579).is_none());
    assert!(ind.get_folder(0x12345678).is_none());
    assert!(ind.get_folder(0x0AF269D6).is_some());
}

#[test]
fn test_index_magic_missing() {
    let mut b = sample_index_bytes();
    b[0] = 0x54;
    let r = read_index_file(&b);
    assert!(matches!(r, Err(FFXIVError::MagicMissing)));
}

#[test]
fn test_index_too_short() {
    let b = vec![0u8; 4];
    let r = read_index_file(&b);
    assert!(matches!(r, Err(FFXIVError::ReadingIndex(_))));
}

#[test]
fn test_index_folder_table_out_of_bounds() {
    let mut b = sample_index_bytes();
    // point the folder table past the end of the buffer
    put_u32_le(&mut b, 0xF4, 0x10000);
    let r = read_index_file(&b);
    assert!(matches!(r, Err(FFXIVError::ReadingIndex(_))));
}

#[test]
fn test_index_rejects_mismatched_folder_hash_in_file_record() {
    let mut b = sample_index_bytes();
    // the second file record names a folder hash other than its folder's
    put_u32_le(&mut b, 0x124, 0x0AF269D7);
    let r = read_index_file(&b);
    assert!(matches!(r, Err(FFXIVError::ReadingIndex(_))));
}
