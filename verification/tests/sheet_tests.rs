use ffxiv_pack::FFXIVError;
use ffxiv_pack::sheet::BitFlags;
use ffxiv_pack::sheet::{SheetError, SheetErrorType};
use ffxiv_pack::sheet::SheetRow;
use ffxiv_pack::sheet::decoding::{
    decode_sheet, decode_sheet_from_bytes, decode_sheet_info, sheet_header_path, sheet_page_path,
};
use ffxiv_pack::sheet::ex::{BasicInfo, SheetDataType, SheetInfo, SheetLanguage, SheetPage,
    StringInfo};
use std::rc::Rc;

fn put_u16_be(b: &mut Vec<u8>, off: usize, x: u16) {
    b[off..off + 2].copy_from_slice(&x.to_be_bytes());
}

fn put_u32_be(b: &mut Vec<u8>, off: usize, x: u32) {
    b[off..off + 4].copy_from_slice(&x.to_be_bytes());
}

/// A header with seven columns, one page of 594 rows, 594 entries, and
/// the suffix-less language.
fn sample_header() -> Vec<u8> {
    let mut b = vec![0u8; 0x46];
    b[0..0x18].copy_from_slice(&[
        0x45, 0x58, 0x48, 0x46, 0x00, 0x03, 0x00, 0x0C, 0x00, 0x07, 0x00, 0x01, 0x00, 0x01,
        0x00, 0x00, 0x00, 0x01, 0x00, 0x00, 0x00, 0x00, 0x02, 0x52,
    ]);
    // seven columns: six booleans, then an unsigned byte at pointer 9
    for i in 0..6 {
        put_u16_be(&mut b, 0x20 + 4 * i, 0x1);
        put_u16_be(&mut b, 0x20 + 4 * i + 2, i as u16);
    }
    put_u16_be(&mut b, 0x20 + 4 * 6, 0x3);
    put_u16_be(&mut b, 0x20 + 4 * 6 + 2, 0x9);
    // one page
    put_u32_be(&mut b, 0x3C, 0);
    put_u32_be(&mut b, 0x40, 594);
    // one language, little-endian by the format's convention
    b[0x44] = 0x00;
    b[0x45] = 0x00;
    b
}

#[test]
fn test_sheet_header_decode_counts() {
    let info = decode_sheet_info(&sample_header()).unwrap();
    assert_eq!(info.num_entries, 594);
    assert_eq!(info.pages.len(), 1);
    assert_eq!(info.pages[0].page_size, 594);
    assert_eq!(info.languages, vec![SheetLanguage::NoLanguage]);
    assert_eq!(info.data_types.len(), 7);
    match info.data_types[6] {
        SheetDataType::UByte(d) => assert_eq!(d.pointer, 0x9),
        _ => panic!("incorrect data type"),
    }
}

#[test]
fn test_sheet_header_magic_missing() {
    let mut b = sample_header();
    b[0] = 0x45;
    b[1] = 0x00;
    let r = decode_sheet_info(&b);
    assert!(
        matches!(r, Err(FFXIVError::DecodingEXD(inner)) if matches!(*inner, FFXIVError::MagicMissing))
    );
}

#[test]
fn test_sheet_header_unknown_column_kind() {
    let mut b = sample_header();
    put_u16_be(&mut b, 0x20, 0x15);
    let r = decode_sheet_info(&b);
    assert!(matches!(r, Err(FFXIVError::DecodingEXD(_))));
}

fn one_uint_column_info(pages: Vec<SheetPage>) -> SheetInfo {
    SheetInfo {
        data_types: vec![SheetDataType::UInt(BasicInfo { pointer: 0 })],
        pages,
        languages: vec![SheetLanguage::NoLanguage],
        num_entries: 2,
    }
}

/// One page holding rows 1 and 2, each a single big-endian `u32` cell.
fn sample_page(second_index: u32) -> Vec<u8> {
    let mut p = vec![0u8; 0x44];
    put_u32_be(&mut p, 0, 0x45584446);
    put_u32_be(&mut p, 8, 16); // offset table: two slots
    put_u32_be(&mut p, 12, 20); // data region size
    put_u32_be(&mut p, 0x20, 1);
    put_u32_be(&mut p, 0x24, 0x30);
    put_u32_be(&mut p, 0x28, second_index);
    put_u32_be(&mut p, 0x2C, 0x3A);
    // row at 0x30: size 4, 2-byte prelude, then the cell
    put_u32_be(&mut p, 0x30, 4);
    put_u32_be(&mut p, 0x36, 0xDEADBEEF);
    // row at 0x3A: size 4, 2-byte prelude, then the cell
    put_u32_be(&mut p, 0x3A, 4);
    put_u32_be(&mut p, 0x40, 0x01020304);
    p
}

#[test]
fn test_sheet_rows_decode_in_order() {
    let info = one_uint_column_info(vec![SheetPage { page_entry: 0, page_size: 2 }]);
    let sheet = decode_sheet_from_bytes(&info, &vec![sample_page(2)]).unwrap();
    assert_eq!(sheet.row_count(), 2);
    assert_eq!(sheet.column_count, 1);
    let r1 = sheet.get_row(1).unwrap();
    assert_eq!(r1.read_cell_data::<u32>(0), Ok(0xDEADBEEF));
    let r2 = sheet.get_row(2).unwrap();
    assert_eq!(r2.read_cell_data::<u32>(0), Ok(0x01020304));
    let (k0, _) = sheet.row_at(0).unwrap();
    let (k1, _) = sheet.row_at(1).unwrap();
    assert_eq!((*k0, *k1), (1, 2));
    assert!(sheet.get_row(3).is_none());
}

#[test]
fn test_sheet_duplicate_row_is_fatal() {
    let info = one_uint_column_info(vec![SheetPage { page_entry: 0, page_size: 2 }]);
    let r = decode_sheet_from_bytes(&info, &vec![sample_page(1)]);
    assert!(matches!(r, Err(FFXIVError::DecodingEXD(_))));
}

#[test]
fn test_sheet_page_magic_missing() {
    let info = one_uint_column_info(vec![SheetPage { page_entry: 0, page_size: 2 }]);
    let mut p = sample_page(2);
    p[0] = 0;
    let r = decode_sheet_from_bytes(&info, &vec![p]);
    assert!(
        matches!(r, Err(FFXIVError::DecodingEXD(inner)) if matches!(*inner, FFXIVError::MagicMissing))
    );
}

#[test]
fn test_sheet_header_short_input_is_not_magic_missing() {
    let b = vec![0u8; 4];
    let r = decode_sheet_info(&b);
    assert!(
        matches!(r, Err(FFXIVError::DecodingEXD(inner)) if !matches!(*inner, FFXIVError::MagicMissing))
    );
}

#[test]
fn test_decode_sheet_invalid_language() {
    let info = one_uint_column_info(vec![SheetPage { page_entry: 0, page_size: 2 }]);
    let r = decode_sheet(&info, SheetLanguage::German, &vec![sample_page(2)]);
    match r {
        Err(FFXIVError::InvalidLanguage(l, avail)) => {
            assert_eq!(l, SheetLanguage::German);
            assert_eq!(avail, vec![SheetLanguage::NoLanguage]);
        },
        _ => panic!("expected an invalid-language error"),
    }
}

#[test]
fn test_decode_sheet_accepts_listed_language() {
    let info = one_uint_column_info(vec![SheetPage { page_entry: 0, page_size: 2 }]);
    let sheet = decode_sheet(&info, SheetLanguage::NoLanguage, &vec![sample_page(2)]).unwrap();
    assert_eq!(sheet.row_count(), 2);
}

fn zero_row(types: Vec<SheetDataType>) -> SheetRow {
    SheetRow { by: vec![0u8; 16], types: Rc::new(types) }
}

#[test]
fn test_zero_bytes_read_zero_for_all_integer_types() {
    let row = zero_row(vec![
        SheetDataType::UInt(BasicInfo { pointer: 0 }),
        SheetDataType::Int(BasicInfo { pointer: 2 }),
        SheetDataType::UShort(BasicInfo { pointer: 4 }),
        SheetDataType::Short(BasicInfo { pointer: 6 }),
        SheetDataType::UByte(BasicInfo { pointer: 8 }),
        SheetDataType::Byte(BasicInfo { pointer: 9 }),
    ]);
    assert_eq!(row.read_cell_data::<u32>(0), Ok(0));
    assert_eq!(row.read_cell_data::<i32>(1), Ok(0));
    assert_eq!(row.read_cell_data::<u16>(2), Ok(0));
    assert_eq!(row.read_cell_data::<i16>(3), Ok(0));
    assert_eq!(row.read_cell_data::<u8>(4), Ok(0));
    assert_eq!(row.read_cell_data::<i8>(5), Ok(0));
}

#[test]
fn test_cell_reader_values_and_errors() {
    let mut by = vec![0u8; 12];
    by[0] = 0x12;
    by[1] = 0x34;
    by[2] = 0x05;
    by[3] = 0b0000_0100;
    let row = SheetRow {
        by,
        types: Rc::new(vec![
            SheetDataType::UShort(BasicInfo { pointer: 0 }),
            SheetDataType::Bool(BasicInfo { pointer: 2 }),
            SheetDataType::BitFlags(ffxiv_pack::sheet::ex::BitFlagsInfo { pointer: 3, bit: 2 }),
        ]),
    };
    assert_eq!(row.read_cell_data::<u16>(0), Ok(0x1234));
    assert_eq!(row.read_cell_data::<bool>(1), Ok(true));
    let flags: BitFlags = row.read_cell_data(2).unwrap();
    assert!(flags.get_bool(2));
    assert!(!flags.get_bool(0));
    // a mismatched type is incompatible
    assert_eq!(
        row.read_cell_data::<u32>(0),
        Err(SheetError { error_type: SheetErrorType::Incompatible })
    );
    // an index past the columns is out of bounds
    assert_eq!(
        row.read_cell_data::<u8>(5),
        Err(SheetError { error_type: SheetErrorType::CellOutOfBounds })
    );
}

#[test]
fn test_string_cell() {
    // fixed area of 4 bytes (the pool offset), then the pool itself
    let mut by = vec![0u8; 4];
    by.extend_from_slice(b"hi\0rest");
    let row = SheetRow {
        by,
        types: Rc::new(vec![SheetDataType::Str(StringInfo { strings_offset: 4, pointer: 0 })]),
    };
    assert_eq!(row.read_cell_data::<String>(0), Ok(String::from("hi")));
}

#[test]
fn test_string_cell_without_terminator_runs_to_end() {
    let mut by = vec![0u8; 4];
    by.extend_from_slice(b"tail");
    let row = SheetRow {
        by,
        types: Rc::new(vec![SheetDataType::Str(StringInfo { strings_offset: 4, pointer: 0 })]),
    };
    assert_eq!(row.read_cell_data::<String>(0), Ok(String::from("tail")));
}

#[test]
fn test_string_cell_invalid_utf8() {
    let mut by = vec![0u8; 4];
    by.extend_from_slice(&[0xFF, 0xFE, 0x01]);
    let row = SheetRow {
        by,
        types: Rc::new(vec![SheetDataType::Str(StringInfo { strings_offset: 4, pointer: 0 })]),
    };
    assert_eq!(
        row.read_cell_data::<String>(0),
        Err(SheetError { error_type: SheetErrorType::StringProcessing })
    );
}

#[test]
fn test_float_bits() {
    let mut by = vec![0u8; 4];
    // 1.0f32 big-endian
    by[0] = 0x3F;
    by[1] = 0x80;
    let row = SheetRow {
        by,
        types: Rc::new(vec![SheetDataType::Float(BasicInfo { pointer: 0 })]),
    };
    let bits = row.read_float_bits(0).unwrap();
    assert_eq!(f32::from_bits(bits), 1.0f32);
}

#[test]
fn test_column_headers() {
    assert_eq!(SheetDataType::UInt(BasicInfo { pointer: 0 }).get_header(), "uint32");
    assert_eq!(SheetDataType::Str(StringInfo { strings_offset: 0, pointer: 0 }).get_header(),
        "string");
    assert_eq!(
        SheetDataType::BitFlags(ffxiv_pack::sheet::ex::BitFlagsInfo { pointer: 0, bit: 5 })
            .get_header(),
        "bitflags[5]"
    );
}

#[test]
fn test_sheet_paths() {
    assert_eq!(sheet_header_path(&String::from("item")), "exd/item.exh");
    assert_eq!(
        sheet_page_path(&String::from("item"), 0, &SheetLanguage::NoLanguage),
        "exd/item_0.exd"
    );
    assert_eq!(
        sheet_page_path(&String::from("item"), 1700, &SheetLanguage::English),
        "exd/item_1700_en.exd"
    );
    assert_eq!(SheetLanguage::German.get_language_code(), Some(String::from("de")));
    assert_eq!(SheetLanguage::NoLanguage.get_language_code(), None);
}
