//! The typed cell readers: one [`FromSheet`] implementation per requested
//! type, each validating the column descriptor and reading big-endian from
//! the row's bytes.

use super::ex::{SheetDataType, StringInfo};
use super::{FromSheet, SheetError, SheetErrorType, SheetRow, rc_deref};
use crate::binary::{be_u16, be_u32, read_u16_be, read_u32_be};
use vstd::prelude::*;
use vstd::utf8::{decode_utf8, valid_utf8};

verus! {

/// The byte of a bit-flag cell; each of its bits is a boolean.
#[derive(Clone, Copy, Debug, PartialEq, Eq, Structural)]
pub struct BitFlags {
    pub data: u8,
}

impl BitFlags {
    /// The boolean at one bit position.
    pub fn get_bool(&self, bit: u8) -> (r: bool)
        requires
            bit < 8,
        ensures
            r == (((self.data >> bit) & 0x1u8) == 0x1u8),
    {
        ((self.data >> bit) & 0x1) == 0x1
    }
}

/// The error a cell read yields before any value is produced: an index past
/// the columns or a read past the row is out of bounds, a column of another
/// kind is incompatible.
pub open spec fn basic_err(
    types: Seq<SheetDataType>,
    by: Seq<u8>,
    cell: int,
    width: int,
    wanted: spec_fn(SheetDataType) -> Option<u16>,
) -> Option<SheetError> {
    if !(0 <= cell < types.len()) {
        Option::Some(SheetError { error_type: SheetErrorType::CellOutOfBounds })
    } else {
        match wanted(types[cell]) {
            Option::Some(ptr) => if ptr + width <= by.len() {
                Option::None
            } else {
                Option::Some(SheetError { error_type: SheetErrorType::CellOutOfBounds })
            },
            Option::None => Option::Some(SheetError { error_type: SheetErrorType::Incompatible }),
        }
    }
}

/// The pointer of a cell's column when the column has the wanted kind.
pub open spec fn uint_ptr(t: SheetDataType) -> Option<u16> {
    match t {
        SheetDataType::UInt(info) => Option::Some(info.pointer),
        _ => Option::None,
    }
}

impl FromSheet for u32 {
    open spec fn cell_ok_spec(b: &SheetRow, cell: int, v: &u32) -> bool {
        &&& 0 <= cell < b.types@.len()
        &&& uint_ptr(b.types@[cell]) matches Option::Some(ptr) && *v == be_u32(
            b.by@,
            ptr as int,
        )
    }

    open spec fn cell_err_spec(b: &SheetRow, cell: int) -> Option<SheetError> {
        basic_err(b.types@, b.by@, cell, 4, |t: SheetDataType| uint_ptr(t))
    }

    fn from_ex_data(b: &SheetRow, cell: usize) -> (r: Result<u32, SheetError>) {
        let types = rc_deref(&b.types);
        if cell >= types.len() {
            return Err(SheetError { error_type: SheetErrorType::CellOutOfBounds });
        }
        match types[cell] {
            SheetDataType::UInt(info) => {
                if info.pointer as usize + 4 <= b.by.len() {
                    Ok(read_u32_be(b.by.as_slice(), info.pointer as usize))
                } else {
                    Err(SheetError { error_type: SheetErrorType::CellOutOfBounds })
                }
            },
            _ => Err(SheetError { error_type: SheetErrorType::Incompatible }),
        }
    }
}

/// The pointer of a cell's column when it is a signed 32-bit column.
pub open spec fn int_ptr(t: SheetDataType) -> Option<u16> {
    match t {
        SheetDataType::Int(info) => Option::Some(info.pointer),
        _ => Option::None,
    }
}

impl FromSheet for i32 {
    open spec fn cell_ok_spec(b: &SheetRow, cell: int, v: &i32) -> bool {
        &&& 0 <= cell < b.types@.len()
        &&& int_ptr(b.types@[cell]) matches Option::Some(ptr) && *v == be_u32(
            b.by@,
            ptr as int,
        ) as i32
    }

    open spec fn cell_err_spec(b: &SheetRow, cell: int) -> Option<SheetError> {
        basic_err(b.types@, b.by@, cell, 4, |t: SheetDataType| int_ptr(t))
    }

    fn from_ex_data(b: &SheetRow, cell: usize) -> (r: Result<i32, SheetError>) {
        let types = rc_deref(&b.types);
        if cell >= types.len() {
            return Err(SheetError { error_type: SheetErrorType::CellOutOfBounds });
        }
        match types[cell] {
            SheetDataType::Int(info) => {
                if info.pointer as usize + 4 <= b.by.len() {
                    Ok(read_u32_be(b.by.as_slice(), info.pointer as usize) as i32)
                } else {
                    Err(SheetError { error_type: SheetErrorType::CellOutOfBounds })
                }
            },
            _ => Err(SheetError { error_type: SheetErrorType::Incompatible }),
        }
    }
}

/// The pointer of a cell's column when it is an unsigned 16-bit column.
pub open spec fn ushort_ptr(t: SheetDataType) -> Option<u16> {
    match t {
        SheetDataType::UShort(info) => Option::Some(info.pointer),
        _ => Option::None,
    }
}

impl FromSheet for u16 {
    open spec fn cell_ok_spec(b: &SheetRow, cell: int, v: &u16) -> bool {
        &&& 0 <= cell < b.types@.len()
        &&& ushort_ptr(b.types@[cell]) matches Option::Some(ptr) && *v == be_u16(
            b.by@,
            ptr as int,
        )
    }

    open spec fn cell_err_spec(b: &SheetRow, cell: int) -> Option<SheetError> {
        basic_err(b.types@, b.by@, cell, 2, |t: SheetDataType| ushort_ptr(t))
    }

    fn from_ex_data(b: &SheetRow, cell: usize) -> (r: Result<u16, SheetError>) {
        let types = rc_deref(&b.types);
        if cell >= types.len() {
            return Err(SheetError { error_type: SheetErrorType::CellOutOfBounds });
        }
        match types[cell] {
            SheetDataType::UShort(info) => {
                if info.pointer as usize + 2 <= b.by.len() {
                    Ok(read_u16_be(b.by.as_slice(), info.pointer as usize))
                } else {
                    Err(SheetError { error_type: SheetErrorType::CellOutOfBounds })
                }
            },
            _ => Err(SheetError { error_type: SheetErrorType::Incompatible }),
        }
    }
}

/// The pointer of a cell's column when it is a signed 16-bit column.
pub open spec fn short_ptr(t: SheetDataType) -> Option<u16> {
    match t {
        SheetDataType::Short(info) => Option::Some(info.pointer),
        _ => Option::None,
    }
}

impl FromSheet for i16 {
    open spec fn cell_ok_spec(b: &SheetRow, cell: int, v: &i16) -> bool {
        &&& 0 <= cell < b.types@.len()
        &&& short_ptr(b.types@[cell]) matches Option::Some(ptr) && *v == be_u16(
            b.by@,
            ptr as int,
        ) as i16
    }

    open spec fn cell_err_spec(b: &SheetRow, cell: int) -> Option<SheetError> {
        basic_err(b.types@, b.by@, cell, 2, |t: SheetDataType| short_ptr(t))
    }

    fn from_ex_data(b: &SheetRow, cell: usize) -> (r: Result<i16, SheetError>) {
        let types = rc_deref(&b.types);
        if cell >= types.len() {
            return Err(SheetError { error_type: SheetErrorType::CellOutOfBounds });
        }
        match types[cell] {
            SheetDataType::Short(info) => {
                if info.pointer as usize + 2 <= b.by.len() {
                    Ok(read_u16_be(b.by.as_slice(), info.pointer as usize) as i16)
                } else {
                    Err(SheetError { error_type: SheetErrorType::CellOutOfBounds })
                }
            },
            _ => Err(SheetError { error_type: SheetErrorType::Incompatible }),
        }
    }
}

/// The pointer of a cell's column when it is an unsigned byte column.
pub open spec fn ubyte_ptr(t: SheetDataType) -> Option<u16> {
    match t {
        SheetDataType::UByte(info) => Option::Some(info.pointer),
        _ => Option::None,
    }
}

impl FromSheet for u8 {
    open spec fn cell_ok_spec(b: &SheetRow, cell: int, v: &u8) -> bool {
        &&& 0 <= cell < b.types@.len()
        &&& ubyte_ptr(b.types@[cell]) matches Option::Some(ptr) && *v == b.by@[ptr as int]
    }

    open spec fn cell_err_spec(b: &SheetRow, cell: int) -> Option<SheetError> {
        basic_err(b.types@, b.by@, cell, 1, |t: SheetDataType| ubyte_ptr(t))
    }

    fn from_ex_data(b: &SheetRow, cell: usize) -> (r: Result<u8, SheetError>) {
        let types = rc_deref(&b.types);
        if cell >= types.len() {
            return Err(SheetError { error_type: SheetErrorType::CellOutOfBounds });
        }
        match types[cell] {
            SheetDataType::UByte(info) => {
                if (info.pointer as usize) < b.by.len() {
                    Ok(b.by[info.pointer as usize])
                } else {
                    Err(SheetError { error_type: SheetErrorType::CellOutOfBounds })
                }
            },
            _ => Err(SheetError { error_type: SheetErrorType::Incompatible }),
        }
    }
}

/// The pointer of a cell's column when it is a signed byte column.
pub open spec fn byte_ptr(t: SheetDataType) -> Option<u16> {
    match t {
        SheetDataType::Byte(info) => Option::Some(info.pointer),
        _ => Option::None,
    }
}

impl FromSheet for i8 {
    open spec fn cell_ok_spec(b: &SheetRow, cell: int, v: &i8) -> bool {
        &&& 0 <= cell < b.types@.len()
        &&& byte_ptr(b.types@[cell]) matches Option::Some(ptr) && *v == b.by@[ptr as int] as i8
    }

    open spec fn cell_err_spec(b: &SheetRow, cell: int) -> Option<SheetError> {
        basic_err(b.types@, b.by@, cell, 1, |t: SheetDataType| byte_ptr(t))
    }

    fn from_ex_data(b: &SheetRow, cell: usize) -> (r: Result<i8, SheetError>) {
        let types = rc_deref(&b.types);
        if cell >= types.len() {
            return Err(SheetError { error_type: SheetErrorType::CellOutOfBounds });
        }
        match types[cell] {
            SheetDataType::Byte(info) => {
                if (info.pointer as usize) < b.by.len() {
                    Ok(b.by[info.pointer as usize] as i8)
                } else {
                    Err(SheetError { error_type: SheetErrorType::CellOutOfBounds })
                }
            },
            _ => Err(SheetError { error_type: SheetErrorType::Incompatible }),
        }
    }
}

/// The pointer of a cell's column when it is a boolean column.
pub open spec fn bool_ptr(t: SheetDataType) -> Option<u16> {
    match t {
        SheetDataType::Bool(info) => Option::Some(info.pointer),
        _ => Option::None,
    }
}

impl FromSheet for bool {
    open spec fn cell_ok_spec(b: &SheetRow, cell: int, v: &bool) -> bool {
        &&& 0 <= cell < b.types@.len()
        &&& bool_ptr(b.types@[cell]) matches Option::Some(ptr) && *v == (b.by@[ptr as int]
            != 0x00u8)
    }

    open spec fn cell_err_spec(b: &SheetRow, cell: int) -> Option<SheetError> {
        basic_err(b.types@, b.by@, cell, 1, |t: SheetDataType| bool_ptr(t))
    }

    fn from_ex_data(b: &SheetRow, cell: usize) -> (r: Result<bool, SheetError>) {
        let types = rc_deref(&b.types);
        if cell >= types.len() {
            return Err(SheetError { error_type: SheetErrorType::CellOutOfBounds });
        }
        match types[cell] {
            SheetDataType::Bool(info) => {
                if (info.pointer as usize) < b.by.len() {
                    Ok(b.by[info.pointer as usize] != 0x00)
                } else {
                    Err(SheetError { error_type: SheetErrorType::CellOutOfBounds })
                }
            },
            _ => Err(SheetError { error_type: SheetErrorType::Incompatible }),
        }
    }
}

/// The pointer of a cell's column when it is a bit-flag column.
pub open spec fn bitflags_ptr(t: SheetDataType) -> Option<u16> {
    match t {
        SheetDataType::BitFlags(info) => Option::Some(info.pointer),
        _ => Option::None,
    }
}

impl FromSheet for BitFlags {
    open spec fn cell_ok_spec(b: &SheetRow, cell: int, v: &BitFlags) -> bool {
        &&& 0 <= cell < b.types@.len()
        &&& bitflags_ptr(b.types@[cell]) matches Option::Some(ptr) && v.data == b.by@[ptr as int]
    }

    open spec fn cell_err_spec(b: &SheetRow, cell: int) -> Option<SheetError> {
        basic_err(b.types@, b.by@, cell, 1, |t: SheetDataType| bitflags_ptr(t))
    }

    fn from_ex_data(b: &SheetRow, cell: usize) -> (r: Result<BitFlags, SheetError>) {
        let types = rc_deref(&b.types);
        if cell >= types.len() {
            return Err(SheetError { error_type: SheetErrorType::CellOutOfBounds });
        }
        match types[cell] {
            SheetDataType::BitFlags(info) => {
                if (info.pointer as usize) < b.by.len() {
                    Ok(BitFlags { data: b.by[info.pointer as usize] })
                } else {
                    Err(SheetError { error_type: SheetErrorType::CellOutOfBounds })
                }
            },
            _ => Err(SheetError { error_type: SheetErrorType::Incompatible }),
        }
    }
}

/// The pointer of a cell's column when it is a float column.
pub open spec fn float_ptr(t: SheetDataType) -> Option<u16> {
    match t {
        SheetDataType::Float(info) => Option::Some(info.pointer),
        _ => Option::None,
    }
}

impl SheetRow {
    /// Reads a float cell's big-endian bit pattern; turning those 32 bits
    /// into a floating-point value is left to the caller.
    pub fn read_float_bits(&self, cell: usize) -> (r: Result<u32, SheetError>)
        ensures
            match r {
                Ok(v) => basic_err(self.types@, self.by@, cell as int, 4, |t: SheetDataType|
                    float_ptr(t)) is None && (float_ptr(self.types@[cell as int]) matches
                    Option::Some(ptr) && v == be_u32(self.by@, ptr as int)),
                Err(e) => basic_err(self.types@, self.by@, cell as int, 4, |t: SheetDataType|
                    float_ptr(t)) == Option::Some(e),
            },
    {
        let types = rc_deref(&self.types);
        if cell >= types.len() {
            return Err(SheetError { error_type: SheetErrorType::CellOutOfBounds });
        }
        match types[cell] {
            SheetDataType::Float(info) => {
                if info.pointer as usize + 4 <= self.by.len() {
                    Ok(read_u32_be(self.by.as_slice(), info.pointer as usize))
                } else {
                    Err(SheetError { error_type: SheetErrorType::CellOutOfBounds })
                }
            },
            _ => Err(SheetError { error_type: SheetErrorType::Incompatible }),
        }
    }
}

/// First index at or after `from` holding a zero byte, or the length.
pub open spec fn first_zero(s: Seq<u8>, from: int) -> int
    decreases s.len() - from,
{
    if from >= s.len() {
        s.len() as int
    } else if s[from] == 0u8 {
        from
    } else {
        first_zero(s, from + 1)
    }
}

proof fn lemma_first_zero_is(s: Seq<u8>, from: int, p: int)
    requires
        from <= p <= s.len(),
        forall|j: int| from <= j < p ==> s[j] != 0u8,
        p == s.len() || s[p] == 0u8,
    ensures
        first_zero(s, from) == p,
    decreases p - from,
{
    if from < p {
        lemma_first_zero_is(s, from + 1, p);
    }
}

/// Where a string cell's bytes sit: from the pool offset the cell points at
/// up to the first zero byte (or the end of the row).
pub open spec fn string_cell_start(by: Seq<u8>, info: StringInfo) -> int {
    info.strings_offset + be_u32(by, info.pointer as int)
}

/// The bytes of a string cell.
pub open spec fn string_cell_bytes(by: Seq<u8>, info: StringInfo) -> Seq<u8> {
    by.subrange(string_cell_start(by, info), first_zero(by, string_cell_start(by, info)))
}

/// The error a string cell read yields, if any: the pointer or the pool
/// offset past the row is out of bounds, bytes that are not UTF-8 fail
/// string processing.
pub open spec fn string_err(types: Seq<SheetDataType>, by: Seq<u8>, cell: int) -> Option<
    SheetError,
> {
    if !(0 <= cell < types.len()) {
        Option::Some(SheetError { error_type: SheetErrorType::CellOutOfBounds })
    } else {
        match types[cell] {
            SheetDataType::Str(info) => if info.pointer + 4 <= by.len() && string_cell_start(
                by,
                info,
            ) <= by.len() {
                if valid_utf8(string_cell_bytes(by, info)) {
                    Option::None
                } else {
                    Option::Some(SheetError { error_type: SheetErrorType::StringProcessing })
                }
            } else {
                Option::Some(SheetError { error_type: SheetErrorType::CellOutOfBounds })
            },
            _ => Option::Some(SheetError { error_type: SheetErrorType::Incompatible }),
        }
    }
}

/// Relies on `String::from_utf8`: the bytes decoded as UTF-8 when they are
/// valid UTF-8, an error otherwise.
#[verifier::external_body]
fn utf8_string(bytes: Vec<u8>) -> (r: Option<String>)
    ensures
        match r {
            Option::Some(s) => valid_utf8(bytes@) && s@ == decode_utf8(bytes@),
            Option::None => !valid_utf8(bytes@),
        },
{
    String::from_utf8(bytes).ok()
}

impl FromSheet for String {
    open spec fn cell_ok_spec(b: &SheetRow, cell: int, v: &String) -> bool {
        &&& 0 <= cell < b.types@.len()
        &&& b.types@[cell] matches SheetDataType::Str(info) && v@ == decode_utf8(
            string_cell_bytes(b.by@, info),
        )
    }

    open spec fn cell_err_spec(b: &SheetRow, cell: int) -> Option<SheetError> {
        string_err(b.types@, b.by@, cell)
    }

    fn from_ex_data(b: &SheetRow, cell: usize) -> (r: Result<String, SheetError>) {
        let types = rc_deref(&b.types);
        if cell >= types.len() {
            return Err(SheetError { error_type: SheetErrorType::CellOutOfBounds });
        }
        match types[cell] {
            SheetDataType::Str(info) => {
                let n = b.by.len();
                if info.pointer as usize + 4 > n {
                    return Err(SheetError { error_type: SheetErrorType::CellOutOfBounds });
                }
                let sptr = read_u32_be(b.by.as_slice(), info.pointer as usize);
                if info.strings_offset as u64 + sptr as u64 > n as u64 {
                    return Err(SheetError { error_type: SheetErrorType::CellOutOfBounds });
                }
                let start = (info.strings_offset as u64 + sptr as u64) as usize;
                let mut end: usize = start;
                while end < n && b.by[end] != 0
                    invariant
                        start <= end <= n == b.by@.len(),
                        forall|j: int| start <= j < end ==> b.by@[j] != 0u8,
                    decreases n - end,
                {
                    end = end + 1;
                }
                proof {
                    lemma_first_zero_is(b.by@, start as int, end as int);
                }
                let mut seg: Vec<u8> = Vec::new();
                let mut i: usize = start;
                while i < end
                    invariant
                        start <= i <= end <= b.by@.len(),
                        seg@ =~= b.by@.subrange(start as int, i as int),
                    decreases end - i,
                {
                    seg.push(b.by[i]);
                    proof {
                        assert(seg@ =~= b.by@.subrange(start as int, i + 1));
                    }
                    i = i + 1;
                }
                proof {
                    assert(seg@ =~= string_cell_bytes(b.by@, info));
                }
                match utf8_string(seg) {
                    Option::Some(s) => Ok(s),
                    Option::None => Err(
                        SheetError { error_type: SheetErrorType::StringProcessing },
                    ),
                }
            },
            _ => Err(SheetError { error_type: SheetErrorType::Incompatible }),
        }
    }
}

} // verus!
