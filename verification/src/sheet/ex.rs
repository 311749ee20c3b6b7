//! The data model a sheet header describes: column descriptors, pages and
//! languages.

use vstd::prelude::*;
use vstd::string::StringExecFns;

verus! {

/// The languages a sheet may carry, in on-disk code order.
#[derive(Clone, Copy, Debug, PartialEq, Eq, Structural)]
pub enum SheetLanguage {
    NoLanguage,
    Japanese,
    English,
    German,
    French,
    ChineseS,
    ChineseT,
    Korean,
}

/// The short name a language contributes to a page's file name; `None` has
/// no suffix at all.
pub open spec fn language_code_str(l: SheetLanguage) -> Option<Seq<char>> {
    match l {
        SheetLanguage::NoLanguage => Option::None,
        SheetLanguage::Japanese => Option::Some("ja"@),
        SheetLanguage::English => Option::Some("en"@),
        SheetLanguage::German => Option::Some("de"@),
        SheetLanguage::French => Option::Some("fr"@),
        SheetLanguage::ChineseS => Option::Some("chs"@),
        SheetLanguage::ChineseT => Option::Some("cht"@),
        SheetLanguage::Korean => Option::Some("ko"@),
    }
}

/// A plain column: where its fixed-width value sits inside a row.
#[derive(Clone, Copy, Debug, PartialEq, Eq, Structural)]
pub struct BasicInfo {
    pub pointer: u16,
}

/// A string column: where its pool offset sits, and where the row's string
/// pool begins (the row's fixed-width area size).
#[derive(Clone, Copy, Debug, PartialEq, Eq, Structural)]
pub struct StringInfo {
    pub strings_offset: u32,
    pub pointer: u16,
}

/// A bit-flag column: where its byte sits and which bit it exposes.
#[derive(Clone, Copy, Debug, PartialEq, Eq, Structural)]
pub struct BitFlagsInfo {
    pub pointer: u16,
    pub bit: u8,
}

/// A column descriptor: the column's kind and where to read it.
#[derive(Clone, Copy, Debug, PartialEq, Eq, Structural)]
pub enum SheetDataType {
    Str(StringInfo),
    Bool(BasicInfo),
    Byte(BasicInfo),
    UByte(BasicInfo),
    Short(BasicInfo),
    UShort(BasicInfo),
    Int(BasicInfo),
    UInt(BasicInfo),
    Float(BasicInfo),
    PackedInts(BasicInfo),
    BitFlags(BitFlagsInfo),
}

/// The short type tag each column kind contributes to a CSV header.
pub open spec fn header_str(t: SheetDataType) -> Seq<char> {
    match t {
        SheetDataType::Str(_) => "string"@,
        SheetDataType::Bool(_) => "bool"@,
        SheetDataType::Byte(_) => "int8"@,
        SheetDataType::UByte(_) => "uint8"@,
        SheetDataType::Short(_) => "int16"@,
        SheetDataType::UShort(_) => "uint16"@,
        SheetDataType::Int(_) => "int32"@,
        SheetDataType::UInt(_) => "uint32"@,
        SheetDataType::Float(_) => "float"@,
        SheetDataType::PackedInts(_) => "packed"@,
        SheetDataType::BitFlags(info) => "bitflags["@ + crate::expack::dec_str(info.bit as nat)
            + "]"@,
    }
}

impl SheetDataType {
    /// The column's CSV header tag.
    pub fn get_header(&self) -> (r: String)
        ensures
            r@ == header_str(*self),
    {
        match self {
            SheetDataType::Str(_) => String::from_str("string"),
            SheetDataType::Bool(_) => String::from_str("bool"),
            SheetDataType::Byte(_) => String::from_str("int8"),
            SheetDataType::UByte(_) => String::from_str("uint8"),
            SheetDataType::Short(_) => String::from_str("int16"),
            SheetDataType::UShort(_) => String::from_str("uint16"),
            SheetDataType::Int(_) => String::from_str("int32"),
            SheetDataType::UInt(_) => String::from_str("uint32"),
            SheetDataType::Float(_) => String::from_str("float"),
            SheetDataType::PackedInts(_) => String::from_str("packed"),
            SheetDataType::BitFlags(info) => {
                let mut s = String::from_str("bitflags[");
                s.append(crate::expack::dec_string(info.bit).as_str());
                s.append("]");
                s
            },
        }
    }
}

/// One page of a sheet: its first row index and its row count.
#[derive(Clone, Copy, Debug, PartialEq, Eq, Structural)]
pub struct SheetPage {
    pub page_entry: u32,
    pub page_size: u32,
}

/// Everything a sheet header describes: the columns, the pages, the
/// languages, and the total entry count.
pub struct SheetInfo {
    pub data_types: Vec<SheetDataType>,
    pub pages: Vec<SheetPage>,
    pub languages: Vec<SheetLanguage>,
    pub num_entries: u32,
}

impl SheetLanguage {
    /// The language's file-name suffix, or `None` for the suffix-less language.
    pub fn get_language_code(&self) -> (r: Option<String>)
        ensures
            match r {
                Option::Some(s) => language_code_str(*self) == Option::Some(s@),
                Option::None => language_code_str(*self) is None,
            },
    {
        match self {
            SheetLanguage::NoLanguage => Option::None,
            SheetLanguage::Japanese => Option::Some(String::from_str("ja")),
            SheetLanguage::English => Option::Some(String::from_str("en")),
            SheetLanguage::German => Option::Some(String::from_str("de")),
            SheetLanguage::French => Option::Some(String::from_str("fr")),
            SheetLanguage::ChineseS => Option::Some(String::from_str("chs")),
            SheetLanguage::ChineseT => Option::Some(String::from_str("cht")),
            SheetLanguage::Korean => Option::Some(String::from_str("ko")),
        }
    }
}

} // verus!
