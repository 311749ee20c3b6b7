use ffxiv_pack::FFXIVError;
use ffxiv_pack::scd::decoding::{read_i16, read_i32, read_i64};
use ffxiv_pack::scd::entry::{SCDCodec, SCDEntry, SCDEntryNone};
use ffxiv_pack::scd::{SCDEntryData, SCDFile};

fn put_u32_le(b: &mut Vec<u8>, off: usize, x: u32) {
    b[off..off + 4].copy_from_slice(&x.to_le_bytes());
}

fn put_u16_le(b: &mut Vec<u8>, off: usize, x: u16) {
    b[off..off + 2].copy_from_slice(&x.to_le_bytes());
}

/// A little-endian container with one MS-ADPCM entry: a 16-byte format
/// block at the chunks offset, four sample bytes 0x10 past it.
fn sample_scd() -> Vec<u8> {
    let mut b = vec![0u8; 0x90];
    put_u32_le(&mut b, 8, 3); // version: little-endian
    put_u16_le(&mut b, 0x0E, 0x20); // header start
    // header at 0x20
    put_u16_le(&mut b, 0x24, 1); // entry count
    put_u32_le(&mut b, 0x2C, 0x40); // entry table offset
    // entry table
    put_u32_le(&mut b, 0x40, 0x50);
    // entry header at 0x50
    put_u32_le(&mut b, 0x50, 4); // data size
    put_u32_le(&mut b, 0x54, 2); // channels
    put_u32_le(&mut b, 0x58, 44100); // frequency
    put_u32_le(&mut b, 0x5C, 0x0C); // codec: MS-ADPCM
    put_u32_le(&mut b, 0x68, 0x10); // samples offset
    put_u16_le(&mut b, 0x6C, 0); // aux chunk count
    // format block at the chunks offset 0x70
    for i in 0..16 {
        b[0x70 + i] = i as u8 + 1;
    }
    // sample bytes at 0x80
    b[0x80..0x84].copy_from_slice(&[0xAA, 0xBB, 0xCC, 0xDD]);
    b
}

#[test]
fn test_scd_msadpcm_wave_envelope() {
    let b = sample_scd();
    let decoded = SCDFile::decode(b.clone()).unwrap();
    assert_eq!(decoded.header.entry_count, 1);
    assert_eq!(decoded.entries.len(), 1);
    let entry = match &decoded.entries[0] {
        SCDEntryData::Adpcm(e) => e,
        _ => panic!("expected an MS-ADPCM entry"),
    };
    assert_eq!(entry.header.frequency, 44100);
    let mut expected = Vec::new();
    expected.extend_from_slice(b"RIFF");
    expected.extend_from_slice(&0x28u32.to_le_bytes());
    expected.extend_from_slice(b"WAVEfmt ");
    expected.extend_from_slice(&0x10u32.to_le_bytes());
    expected.extend_from_slice(&b[0x70..0x80]);
    expected.extend_from_slice(b"data");
    expected.extend_from_slice(&4u32.to_le_bytes());
    expected.extend_from_slice(&[0xAA, 0xBB, 0xCC, 0xDD]);
    assert_eq!(entry.decoded, expected);
}

#[test]
fn test_scd_empty_entry() {
    let mut b = sample_scd();
    put_u32_le(&mut b, 0x50, 0); // data size zero
    let decoded = SCDFile::decode(b).unwrap();
    match &decoded.entries[0] {
        SCDEntryData::Empty(e) => assert!(e.decoded.is_empty()),
        _ => panic!("expected an empty entry"),
    }
}

#[test]
fn test_scd_ogg_entry_delivers_framed_bytes() {
    let mut b = sample_scd();
    put_u32_le(&mut b, 0x5C, 0x6); // codec: OGG
    let decoded = SCDFile::decode(b).unwrap();
    match &decoded.entries[0] {
        SCDEntryData::Ogg(e) => assert_eq!(e.decoded, vec![0xAA, 0xBB, 0xCC, 0xDD]),
        _ => panic!("expected an OGG entry"),
    }
}

#[test]
fn test_scd_unknown_codec_is_fatal() {
    let mut b = sample_scd();
    put_u32_le(&mut b, 0x5C, 0x7);
    let r = SCDFile::decode(b);
    assert!(matches!(r, Err(FFXIVError::DecodingSCD(_))));
}

#[test]
fn test_scd_undecidable_endianness_is_fatal() {
    let mut b = sample_scd();
    put_u32_le(&mut b, 8, 7);
    let r = SCDFile::decode(b);
    assert!(matches!(r, Err(FFXIVError::DecodingSCD(_))));
}

#[test]
fn test_scd_big_endian_header() {
    // the same layout written big-endian end to end
    let mut b = vec![0u8; 0x90];
    b[8..12].copy_from_slice(&2u32.to_be_bytes());
    b[0x0E..0x10].copy_from_slice(&0x20u16.to_be_bytes());
    b[0x24..0x26].copy_from_slice(&1u16.to_be_bytes());
    b[0x2C..0x30].copy_from_slice(&0x40u32.to_be_bytes());
    b[0x40..0x44].copy_from_slice(&0x50u32.to_be_bytes());
    b[0x50..0x54].copy_from_slice(&0u32.to_be_bytes()); // empty entry
    b[0x5C..0x60].copy_from_slice(&0u32.to_be_bytes());
    let decoded = SCDFile::decode(b).unwrap();
    assert_eq!(decoded.header.entry_count, 1);
    assert!(matches!(&decoded.entries[0], SCDEntryData::Empty(_)));
}

#[test]
fn test_scd_entry_out_of_bounds_is_fatal() {
    let mut b = sample_scd();
    put_u32_le(&mut b, 0x50, 0x4000); // data size far past the buffer
    let r = SCDFile::decode(b);
    assert!(matches!(r, Err(FFXIVError::DecodingSCD(_))));
}

#[test]
fn test_endian_selected_reads() {
    let b = [0xFEu8, 0xFF, 0x80, 0x00, 0x00, 0x00, 0x00, 0x01];
    assert_eq!(read_i16(&0, &b, &true).unwrap(), -2);
    assert_eq!(read_i16(&0, &b, &false).unwrap(), -257);
    assert_eq!(read_i32(&0, &b, &false).unwrap(), -16809984);
    assert_eq!(read_i64(&0, &b, &false).unwrap(), -72198331526283263);
    assert!(read_i32(&6, &b, &true).is_err());
}

#[test]
fn test_empty_entry_has_zeroed_header() {
    let e = SCDEntryNone::empty();
    assert!(e.decoded().is_empty());
    assert_eq!(e.header().codec, SCDCodec::NoCodec);
    assert_eq!(e.header().data_size, 0);
}
