//! Parsing of sheet headers and sheet pages.  Header and page bodies are
//! big-endian; the header's language table alone is little-endian, a
//! deliberate on-disk convention of the format.

use super::Sheet;
use super::SheetRow;
use super::ex::{
    BasicInfo, BitFlagsInfo, SheetDataType, SheetInfo, SheetLanguage, SheetPage, StringInfo,
    language_code_str,
};
use super::{distinct_row_keys, rc_clone, rows_contains_key, rows_insert, rows_new, rows_of};
use crate::FFXIVError;
use crate::binary::{be_u16, be_u32, copy_range, le_u16, read_u16_be, read_u16_le, read_u32_be};
use std::rc::Rc;
use vstd::prelude::*;
use vstd::string::StringExecFns;

verus! {

/// The magic of a sheet header file: ASCII `EXHF`, big-endian.
pub const EXHF_MAGIC: u32 = 0x45584846;

/// The magic of a sheet page file: ASCII `EXDF`, big-endian.
pub const EXDF_MAGIC: u32 = 0x45584446;

/// A structural failure while decoding a sheet, as the error taxonomy wraps
/// it.
pub open spec fn is_exd_err(e: FFXIVError) -> bool {
    e matches FFXIVError::DecodingEXD(_)
}

/// A sheet-decoding failure carrying the missing-magic error inside: the
/// kind a magic mismatch yields.
pub open spec fn is_exd_magic_err(e: FFXIVError) -> bool {
    e matches FFXIVError::DecodingEXD(inner) && *inner matches FFXIVError::MagicMissing
}

fn exd_err() -> (r: FFXIVError)
    ensures
        is_exd_err(r),
        !is_exd_magic_err(r),
{
    FFXIVError::DecodingEXD(
        Box::new(FFXIVError::Custom(String::from_str("malformed sheet data"))),
    )
}

fn exd_magic_err() -> (r: FFXIVError)
    ensures
        is_exd_err(r),
        is_exd_magic_err(r),
{
    FFXIVError::DecodingEXD(Box::new(FFXIVError::MagicMissing))
}

/// The column descriptor a `(kind, pointer)` record describes, given the
/// row's fixed-width area size; `None` for an unknown kind.
pub open spec fn spec_data_type(kind: u16, ptr: u16, ds_size: u16) -> Option<SheetDataType> {
    if kind == 0x0 {
        Option::Some(
            SheetDataType::Str(StringInfo { pointer: ptr, strings_offset: ds_size as u32 }),
        )
    } else if kind == 0x1 {
        Option::Some(SheetDataType::Bool(BasicInfo { pointer: ptr }))
    } else if kind == 0x2 {
        Option::Some(SheetDataType::Byte(BasicInfo { pointer: ptr }))
    } else if kind == 0x3 {
        Option::Some(SheetDataType::UByte(BasicInfo { pointer: ptr }))
    } else if kind == 0x4 {
        Option::Some(SheetDataType::Short(BasicInfo { pointer: ptr }))
    } else if kind == 0x5 {
        Option::Some(SheetDataType::UShort(BasicInfo { pointer: ptr }))
    } else if kind == 0x6 {
        Option::Some(SheetDataType::Int(BasicInfo { pointer: ptr }))
    } else if kind == 0x7 {
        Option::Some(SheetDataType::UInt(BasicInfo { pointer: ptr }))
    } else if kind == 0x9 {
        Option::Some(SheetDataType::Float(BasicInfo { pointer: ptr }))
    } else if kind == 0xb {
        Option::Some(SheetDataType::PackedInts(BasicInfo { pointer: ptr }))
    } else if 0x19 <= kind && kind < 0x21 {
        Option::Some(
            SheetDataType::BitFlags(BitFlagsInfo { pointer: ptr, bit: (kind - 0x19) as u8 }),
        )
    } else {
        Option::None
    }
}

/// The language a header code names; `None` for an unknown code.
pub open spec fn spec_lang(code: u16) -> Option<SheetLanguage> {
    if code == 0x0 {
        Option::Some(SheetLanguage::NoLanguage)
    } else if code == 0x1 {
        Option::Some(SheetLanguage::Japanese)
    } else if code == 0x2 {
        Option::Some(SheetLanguage::English)
    } else if code == 0x3 {
        Option::Some(SheetLanguage::German)
    } else if code == 0x4 {
        Option::Some(SheetLanguage::French)
    } else if code == 0x5 {
        Option::Some(SheetLanguage::ChineseS)
    } else if code == 0x6 {
        Option::Some(SheetLanguage::ChineseT)
    } else if code == 0x7 {
        Option::Some(SheetLanguage::Korean)
    } else {
        Option::None
    }
}

/// The column count a sheet header states.
pub open spec fn exh_num_types(b: Seq<u8>) -> u16 {
    be_u16(b, 0x8)
}

/// The page count a sheet header states.
pub open spec fn exh_num_pages(b: Seq<u8>) -> u16 {
    be_u16(b, 0xa)
}

/// The language count a sheet header states.
pub open spec fn exh_num_langs(b: Seq<u8>) -> u16 {
    be_u16(b, 0xc)
}

/// The bytes a sheet header must hold: its fixed part and its three tables.
pub open spec fn exh_required_len(b: Seq<u8>) -> int {
    0x20 + 4 * exh_num_types(b) + 8 * exh_num_pages(b) + 2 * exh_num_langs(b)
}

/// The column descriptor at position `i` of the header's column table.
pub open spec fn exh_col(b: Seq<u8>, i: int) -> Option<SheetDataType> {
    spec_data_type(be_u16(b, 0x20 + 4 * i), be_u16(b, 0x20 + 4 * i + 2), be_u16(b, 0x6))
}

/// The page descriptor at position `j` of the header's page table.
pub open spec fn exh_page(b: Seq<u8>, j: int) -> SheetPage {
    let start = 0x20 + 4 * exh_num_types(b);
    SheetPage {
        page_entry: be_u32(b, start + 8 * j),
        page_size: be_u32(b, start + 8 * j + 4),
    }
}

/// The language code at position `k` of the header's language table, which
/// alone is little-endian.
pub open spec fn exh_lang_code(b: Seq<u8>, k: int) -> u16 {
    le_u16(b, 0x20 + 4 * exh_num_types(b) + 8 * exh_num_pages(b) + 2 * k)
}

/// Whether a byte buffer is a sound sheet header: magic, enough bytes for
/// all three tables, every column kind known, every language code known.
pub open spec fn exh_ok(b: Seq<u8>) -> bool {
    &&& b.len() >= 0x18
    &&& be_u32(b, 0) == EXHF_MAGIC
    &&& b.len() >= exh_required_len(b)
    &&& forall|i: int| 0 <= i < exh_num_types(b) ==> (#[trigger] exh_col(b, i)) is Some
    &&& forall|k: int| 0 <= k < exh_num_langs(b) ==> spec_lang(#[trigger] exh_lang_code(b, k)) is Some
}

/// The column descriptor a `(kind, pointer)` record names, or a decode
/// error for an unknown kind.
fn decode_data_type(exh_data_type: (u16, u16), ds_size: &u16) -> (r: Result<
    SheetDataType,
    FFXIVError,
>)
    ensures
        match r {
            Ok(t) => spec_data_type(exh_data_type.0, exh_data_type.1, *ds_size)
                == Option::Some(t),
            Err(e) => spec_data_type(exh_data_type.0, exh_data_type.1, *ds_size) is None
                && is_exd_err(e) && !is_exd_magic_err(e),
        },
{
    let kind = exh_data_type.0;
    let ptr = exh_data_type.1;
    if kind == 0x0 {
        Ok(SheetDataType::Str(StringInfo { pointer: ptr, strings_offset: *ds_size as u32 }))
    } else if kind == 0x1 {
        Ok(SheetDataType::Bool(BasicInfo { pointer: ptr }))
    } else if kind == 0x2 {
        Ok(SheetDataType::Byte(BasicInfo { pointer: ptr }))
    } else if kind == 0x3 {
        Ok(SheetDataType::UByte(BasicInfo { pointer: ptr }))
    } else if kind == 0x4 {
        Ok(SheetDataType::Short(BasicInfo { pointer: ptr }))
    } else if kind == 0x5 {
        Ok(SheetDataType::UShort(BasicInfo { pointer: ptr }))
    } else if kind == 0x6 {
        Ok(SheetDataType::Int(BasicInfo { pointer: ptr }))
    } else if kind == 0x7 {
        Ok(SheetDataType::UInt(BasicInfo { pointer: ptr }))
    } else if kind == 0x9 {
        Ok(SheetDataType::Float(BasicInfo { pointer: ptr }))
    } else if kind == 0xb {
        Ok(SheetDataType::PackedInts(BasicInfo { pointer: ptr }))
    } else if 0x19 <= kind && kind < 0x21 {
        Ok(SheetDataType::BitFlags(BitFlagsInfo { pointer: ptr, bit: (kind - 0x19) as u8 }))
    } else {
        let kind_err = FFXIVError::DecodingEXD(
            Box::new(FFXIVError::Custom(String::from_str("unknown column kind"))),
        );
        assert(!is_exd_magic_err(kind_err));
        Err(kind_err)
    }
}

/// Decodes a sheet header: magic, counts, column table, page table and the
/// little-endian language table.
pub fn decode_sheet_info(exh: &Vec<u8>) -> (r: Result<SheetInfo, FFXIVError>)
    ensures
        match r {
            Ok(info) => {
                let b = exh@;
                &&& exh_ok(b)
                &&& info.num_entries == be_u32(b, 0x14)
                &&& info.data_types@ == Seq::new(
                    exh_num_types(b) as nat,
                    |i: int| exh_col(b, i)->Some_0,
                )
                &&& info.pages@ == Seq::new(exh_num_pages(b) as nat, |j: int| exh_page(b, j))
                &&& info.languages@ == Seq::new(
                    exh_num_langs(b) as nat,
                    |k: int| spec_lang(exh_lang_code(b, k))->Some_0,
                )
            },
            Err(e) => !exh_ok(exh@) && is_exd_err(e) && (is_exd_magic_err(e) <==> (exh@.len()
                >= 0x18 && be_u32(exh@, 0) != EXHF_MAGIC)),
        },
{
    let b = exh.as_slice();
    let n = exh.len();
    if n < 0x18 {
        return Err(exd_err());
    }
    if read_u32_be(b, 0) != EXHF_MAGIC {
        return Err(exd_magic_err());
    }
    let data_set_size = read_u16_be(b, 0x6);
    let num_types = read_u16_be(b, 0x8);
    let num_pages = read_u16_be(b, 0xa);
    let num_langs = read_u16_be(b, 0xc);
    let num_entries = read_u32_be(b, 0x14);
    let required: usize = 0x20 + 4 * (num_types as usize) + 8 * (num_pages as usize) + 2 * (
    num_langs as usize);
    if n < required {
        return Err(exd_err());
    }
    // column table
    let mut data_types: Vec<SheetDataType> = Vec::new();
    let mut i: usize = 0;
    while i < num_types as usize
        invariant
            b@ == exh@,
            exh@.len() >= 0x18,
            be_u32(exh@, 0) == EXHF_MAGIC,
            i <= exh_num_types(exh@),
            exh@.len() >= exh_required_len(exh@),
            num_types == exh_num_types(exh@),
            data_set_size == be_u16(exh@, 0x6),
            forall|x: int| 0 <= x < i ==> (#[trigger] exh_col(exh@, x)) is Some,
            data_types@ =~= Seq::new(i as nat, |x: int| exh_col(exh@, x)->Some_0),
        decreases num_types as usize - i,
    {
        let kind = read_u16_be(b, 0x20 + 4 * i);
        let ptr = read_u16_be(b, 0x20 + 4 * i + 2);
        let t = match decode_data_type((kind, ptr), &data_set_size) {
            Ok(t) => t,
            Err(e) => {
                assert(exh_col(exh@, i as int) is None);
                return Err(e);
            },
        };
        data_types.push(t);
        proof {
            assert(data_types@ =~= Seq::new((i + 1) as nat, |x: int| exh_col(exh@, x)->Some_0));
        }
        i = i + 1;
    }
    // page table
    let page_start: usize = 0x20 + 4 * (num_types as usize);
    let mut pages: Vec<SheetPage> = Vec::new();
    let mut j: usize = 0;
    while j < num_pages as usize
        invariant
            b@ == exh@,
            exh@.len() >= 0x18,
            be_u32(exh@, 0) == EXHF_MAGIC,
            j <= exh_num_pages(exh@),
            exh@.len() >= exh_required_len(exh@),
            num_types == exh_num_types(exh@),
            num_pages == exh_num_pages(exh@),
            page_start == 0x20 + 4 * (exh_num_types(exh@) as int),
            pages@ =~= Seq::new(j as nat, |x: int| exh_page(exh@, x)),
        decreases num_pages as usize - j,
    {
        let page_entry = read_u32_be(b, page_start + 8 * j);
        let page_size = read_u32_be(b, page_start + 8 * j + 4);
        pages.push(SheetPage { page_entry, page_size });
        proof {
            assert(pages@ =~= Seq::new((j + 1) as nat, |x: int| exh_page(exh@, x)));
        }
        j = j + 1;
    }
    // language table, little-endian by convention
    let lang_start: usize = page_start + 8 * (num_pages as usize);
    let mut languages: Vec<SheetLanguage> = Vec::new();
    let mut k: usize = 0;
    while k < num_langs as usize
        invariant
            b@ == exh@,
            exh@.len() >= 0x18,
            be_u32(exh@, 0) == EXHF_MAGIC,
            k <= exh_num_langs(exh@),
            exh@.len() >= exh_required_len(exh@),
            num_types == exh_num_types(exh@),
            num_pages == exh_num_pages(exh@),
            num_langs == exh_num_langs(exh@),
            lang_start == 0x20 + 4 * (exh_num_types(exh@) as int) + 8 * (exh_num_pages(
                exh@,
            ) as int),
            forall|x: int| 0 <= x < k ==> spec_lang(#[trigger] exh_lang_code(exh@, x)) is Some,
            languages@ =~= Seq::new(k as nat, |x: int| spec_lang(exh_lang_code(exh@, x))->Some_0),
        decreases num_langs as usize - k,
    {
        let code = read_u16_le(b, lang_start + 2 * k);
        let lang = if code == 0x0 {
            SheetLanguage::NoLanguage
        } else if code == 0x1 {
            SheetLanguage::Japanese
        } else if code == 0x2 {
            SheetLanguage::English
        } else if code == 0x3 {
            SheetLanguage::German
        } else if code == 0x4 {
            SheetLanguage::French
        } else if code == 0x5 {
            SheetLanguage::ChineseS
        } else if code == 0x6 {
            SheetLanguage::ChineseT
        } else if code == 0x7 {
            SheetLanguage::Korean
        } else {
            assert(spec_lang(exh_lang_code(exh@, k as int)) is None);
            let lang_err = FFXIVError::DecodingEXD(
                Box::new(FFXIVError::Custom(String::from_str("unknown language code"))),
            );
            assert(!is_exd_magic_err(lang_err));
            return Err(lang_err);
        };
        languages.push(lang);
        proof {
            assert(languages@ =~= Seq::new(
                (k + 1) as nat,
                |x: int| spec_lang(exh_lang_code(exh@, x))->Some_0,
            ));
        }
        k = k + 1;
    }
    Ok(SheetInfo { data_types, pages, languages, num_entries })
}

/// Whether a byte buffer is a structurally sound sheet page: magic present
/// and the stated offset table and data region inside it.
pub open spec fn page_ok(p: Seq<u8>) -> bool {
    &&& p.len() >= 0x20
    &&& be_u32(p, 0) == EXDF_MAGIC
    &&& 0x20 + be_u32(p, 0x8) + be_u32(p, 0xc) <= p.len()
}

/// Where a page's row-offset table ends.
pub open spec fn page_table_end(p: Seq<u8>) -> int {
    0x20 + be_u32(p, 0x8)
}

/// The `(row index, row offset)` pairs read from a page's offset table,
/// starting at slot `k`: reading stops once the table is exhausted or right
/// after a row index at or past `bound` has been taken.
pub open spec fn page_pairs_from(p: Seq<u8>, bound: int, k: int) -> Seq<(u32, u32)>
    decreases page_table_end(p) - 8 * k,
{
    if 0x20 + 8 * k >= page_table_end(p) {
        Seq::empty()
    } else {
        let ri = be_u32(p, 0x20 + 8 * k);
        let ro = be_u32(p, 0x20 + 8 * k + 4);
        if ri >= bound {
            seq![(ri, ro)]
        } else {
            seq![(ri, ro)] + page_pairs_from(p, bound, k + 1)
        }
    }
}

/// All pairs a page contributes, bounded by the page's last row index.
pub open spec fn page_pairs(p: Seq<u8>, page: SheetPage) -> Seq<(u32, u32)> {
    page_pairs_from(p, page.page_entry + page.page_size, 0)
}

/// The content bytes of the row stored at offset `ro`: a 4-byte size, a
/// 2-byte prelude that is skipped, then that many bytes.
pub open spec fn row_bytes(p: Seq<u8>, ro: u32) -> Seq<u8> {
    p.subrange(ro + 6, ro + 6 + be_u32(p, ro as int))
}

/// The `(row index, row content)` entries one page contributes, in table
/// order.
pub open spec fn page_rows(p: Seq<u8>, page: SheetPage) -> Seq<(u32, Seq<u8>)> {
    page_pairs(p, page).map_values(|pr: (u32, u32)| (pr.0, row_bytes(p, pr.1)))
}

/// The entries of the first `n` pages, concatenated in page order.
pub open spec fn sheet_rows_model(pages: Seq<SheetPage>, exd: Seq<Seq<u8>>, n: nat) -> Seq<
    (u32, Seq<u8>),
>
    decreases n,
{
    if n == 0 {
        Seq::empty()
    } else {
        sheet_rows_model(pages, exd, (n - 1) as nat) + page_rows(exd[n - 1], pages[n - 1])
    }
}

/// Whether an exec row sequence realises a model: same length, same row
/// indices in the same order, same bytes, and every row sharing `types`.
pub open spec fn rows_realise(
    rs: Seq<(usize, SheetRow)>,
    model: Seq<(u32, Seq<u8>)>,
    types: Seq<SheetDataType>,
) -> bool {
    &&& rs.len() == model.len()
    &&& forall|i: int|
        0 <= i < rs.len() ==> (#[trigger] rs[i]).0 == (#[trigger] model[i]).0 as usize && rs[i].1.by@
            == model[i].1 && rs[i].1.types@ == types
}

/// The byte sequences a vector of byte vectors holds.
pub open spec fn views_of(exd: Seq<Vec<u8>>) -> Seq<Seq<u8>> {
    exd.map_values(|v: Vec<u8>| v@)
}

/// Whether pair `x` of a page can be fully read: its offset-table slot and
/// the row it points at lie inside the page.
pub open spec fn pair_regions_ok(p: Seq<u8>, pg: SheetPage, x: int) -> bool {
    &&& 0x20 + 8 * x + 8 <= p.len()
    &&& (page_pairs(p, pg)[x]).1 + 4 <= p.len()
    &&& (page_pairs(p, pg)[x]).1 + 6 + be_u32(p, (page_pairs(p, pg)[x]).1 as int) <= p.len()
}

/// Whether one page can be fully decoded: it is structurally sound and
/// every pair its stop rule reads can be fully read.
pub open spec fn page_all_ok(p: Seq<u8>, pg: SheetPage) -> bool {
    &&& page_ok(p)
    &&& forall|x: int| 0 <= x < page_pairs(p, pg).len() ==> #[trigger] pair_regions_ok(p, pg, x)
}

/// Whether every page of a sheet can be fully decoded.
pub open spec fn sheet_pages_ok(pages: Seq<SheetPage>, exd: Seq<Seq<u8>>) -> bool {
    forall|i: int| 0 <= i < pages.len() ==> #[trigger] page_all_ok(exd[i], pages[i])
}

/// Whether a model's row indices are pairwise distinct.
pub open spec fn model_keys_distinct(m: Seq<(u32, Seq<u8>)>) -> bool {
    forall|i: int, j: int| 0 <= i < j < m.len() ==> (#[trigger] m[i]).0 != (#[trigger] m[j]).0
}

/// Whether a sheet decodes in full: every page whole, and no row index
/// repeated anywhere.
pub open spec fn sheet_decode_ok(pages: Seq<SheetPage>, exd: Seq<Seq<u8>>) -> bool {
    &&& sheet_pages_ok(pages, exd)
    &&& model_keys_distinct(sheet_rows_model(pages, exd, pages.len()))
}

proof fn lemma_model_prefix(pages: Seq<SheetPage>, exd: Seq<Seq<u8>>, m: nat, n: nat)
    requires
        m <= n,
    ensures
        sheet_rows_model(pages, exd, m).len() <= sheet_rows_model(pages, exd, n).len(),
        forall|t: int|
            0 <= t < sheet_rows_model(pages, exd, m).len() ==> #[trigger] sheet_rows_model(
                pages,
                exd,
                n,
            )[t] == sheet_rows_model(pages, exd, m)[t],
    decreases n,
{
    if m < n {
        lemma_model_prefix(pages, exd, m, (n - 1) as nat);
    }
}

proof fn lemma_model_slice(pages: Seq<SheetPage>, exd: Seq<Seq<u8>>, n: nat, i: int)
    requires
        0 <= i < n,
    ensures
        sheet_rows_model(pages, exd, i as nat).len() + page_rows(exd[i], pages[i]).len()
            <= sheet_rows_model(pages, exd, n).len(),
        sheet_rows_model(pages, exd, n).subrange(
            sheet_rows_model(pages, exd, i as nat).len() as int,
            (sheet_rows_model(pages, exd, i as nat).len() + page_rows(exd[i], pages[i]).len())
                as int,
        ) == page_rows(exd[i], pages[i]),
    decreases n,
{
    let off = sheet_rows_model(pages, exd, i as nat).len() as int;
    let pr = page_rows(exd[i], pages[i]);
    if i == n - 1 {
        assert(sheet_rows_model(pages, exd, n) == sheet_rows_model(pages, exd, (n - 1) as nat)
            + page_rows(exd[n - 1], pages[n - 1]));
        assert(i as nat == (n - 1) as nat);
        assert(sheet_rows_model(pages, exd, n).subrange(off, off + pr.len()) =~= pr);
    } else {
        lemma_model_slice(pages, exd, (n - 1) as nat, i);
        lemma_model_prefix(pages, exd, (n - 1) as nat, n);
        assert(sheet_rows_model(pages, exd, n).subrange(off, off + pr.len())
            =~= sheet_rows_model(pages, exd, (n - 1) as nat).subrange(off, off + pr.len()));
    }
}

/// Whether the page decoder, walking pages in order, reaches page `i`
/// whole — every earlier page fully decodable and no duplicate row index
/// so far — and stops there on a magic mismatch in a long-enough page.
pub open spec fn magic_failure_at(pages: Seq<SheetPage>, exd: Seq<Seq<u8>>, i: int) -> bool {
    &&& 0 <= i < pages.len()
    &&& forall|x: int| 0 <= x < i ==> #[trigger] page_all_ok(exd[x], pages[x])
    &&& model_keys_distinct(sheet_rows_model(pages, exd, i as nat))
    &&& exd[i].len() >= 0x20
    &&& be_u32(exd[i], 0) != EXDF_MAGIC
}

proof fn lemma_no_magic_failure(pages: Seq<SheetPage>, exd: Seq<Seq<u8>>, p: int)
    requires
        0 <= p < pages.len(),
        forall|x: int| 0 <= x < p ==> #[trigger] page_all_ok(exd[x], pages[x]),
        !page_all_ok(exd[p], pages[p]),
        !(exd[p].len() >= 0x20 && be_u32(exd[p], 0) != EXDF_MAGIC),
    ensures
        forall|i: int| !(#[trigger] magic_failure_at(pages, exd, i)),
{
    assert forall|i: int| !(#[trigger] magic_failure_at(pages, exd, i)) by {
        if magic_failure_at(pages, exd, i) {
            if i < p {
                assert(page_all_ok(exd[i], pages[i]));
            } else if i == p {
            } else {
                assert(page_all_ok(exd[p], pages[p]));
            }
        }
    }
}

proof fn lemma_no_magic_failure_when_dup(
    pages: Seq<SheetPage>,
    exd: Seq<Seq<u8>>,
    p: int,
    t1: int,
    t2: int,
)
    requires
        0 <= p < pages.len(),
        forall|x: int| 0 <= x < p ==> #[trigger] page_all_ok(exd[x], pages[x]),
        page_ok(exd[p]),
        0 <= t1 < t2 < sheet_rows_model(pages, exd, (p + 1) as nat).len(),
        (sheet_rows_model(pages, exd, (p + 1) as nat)[t1]).0 == (sheet_rows_model(
            pages,
            exd,
            (p + 1) as nat,
        )[t2]).0,
    ensures
        forall|i: int| !(#[trigger] magic_failure_at(pages, exd, i)),
        !model_keys_distinct(sheet_rows_model(pages, exd, pages.len())),
{
    lemma_model_prefix(pages, exd, (p + 1) as nat, pages.len());
    assert(!model_keys_distinct(sheet_rows_model(pages, exd, pages.len()))) by {
        if model_keys_distinct(sheet_rows_model(pages, exd, pages.len())) {
            assert((sheet_rows_model(pages, exd, pages.len())[t1]).0 != (sheet_rows_model(
                pages,
                exd,
                pages.len(),
            )[t2]).0);
        }
    }
    assert forall|i: int| !(#[trigger] magic_failure_at(pages, exd, i)) by {
        if magic_failure_at(pages, exd, i) {
            if i < p {
                assert(page_all_ok(exd[i], pages[i]));
            } else if i == p {
            } else {
                lemma_model_prefix(pages, exd, (p + 1) as nat, i as nat);
                assert(sheet_rows_model(pages, exd, i as nat)[t1] == sheet_rows_model(
                    pages,
                    exd,
                    (p + 1) as nat,
                )[t1]);
                assert(sheet_rows_model(pages, exd, i as nat)[t2] == sheet_rows_model(
                    pages,
                    exd,
                    (p + 1) as nat,
                )[t2]);
                assert((sheet_rows_model(pages, exd, i as nat)[t1]).0 != (sheet_rows_model(
                    pages,
                    exd,
                    i as nat,
                )[t2]).0);
            }
        }
    }
}

fn pairs_contains(pairs: &Vec<(u32, u32)>, key: u32) -> (r: bool)
    ensures
        r == exists|i: int| 0 <= i < pairs@.len() && (#[trigger] pairs@[i]).0 == key,
{
    let mut i: usize = 0;
    while i < pairs.len()
        invariant
            i <= pairs@.len(),
            forall|j: int| 0 <= j < i ==> (#[trigger] pairs@[j]).0 != key,
        decreases pairs@.len() - i,
    {
        if pairs[i].0 == key {
            return true;
        }
        i = i + 1;
    }
    false
}

/// Decodes every page of a sheet into one ordered row map, rejecting any
/// row index that appears twice, within a page or across pages.
pub fn decode_sheet_from_bytes(exh: &SheetInfo, exd: &Vec<Vec<u8>>) -> (r: Result<
    Sheet,
    FFXIVError,
>)
    requires
        exd@.len() == exh.pages@.len(),
        exh.data_types@.len() <= 0xFFFFFFFF,
    ensures
        match r {
            Ok(sheet) => {
                &&& sheet.types@ == exh.data_types@
                &&& sheet.column_count == exh.data_types@.len()
                &&& rows_realise(
                    rows_of(sheet.rows),
                    sheet_rows_model(exh.pages@, views_of(exd@), exh.pages@.len()),
                    exh.data_types@,
                )
                &&& sheet.wf()
                &&& sheet_decode_ok(exh.pages@, views_of(exd@))
            },
            Err(e) => {
                &&& is_exd_err(e)
                &&& !sheet_decode_ok(exh.pages@, views_of(exd@))
                &&& (is_exd_magic_err(e) <==> exists|i: int|
                    magic_failure_at(exh.pages@, views_of(exd@), i))
            },
        },
{
    let mut tv: Vec<SheetDataType> = Vec::new();
    let mut ti: usize = 0;
    while ti < exh.data_types.len()
        invariant
            ti <= exh.data_types@.len(),
            tv@ =~= exh.data_types@.subrange(0, ti as int),
        decreases exh.data_types@.len() - ti,
    {
        tv.push(exh.data_types[ti]);
        proof {
            assert(tv@ =~= exh.data_types@.subrange(0, ti + 1));
        }
        ti = ti + 1;
    }
    proof {
        assert(tv@ =~= exh.data_types@);
    }
    let types: Rc<Vec<SheetDataType>> = Rc::new(tv);
    let column_count = exh.data_types.len() as u32;
    let mut rows = rows_new();
    let mut page_index: usize = 0;
    while page_index < exh.pages.len()
        invariant
            exd@.len() == exh.pages@.len(),
            page_index <= exh.pages@.len(),
            types@ == exh.data_types@,
            distinct_row_keys(rows_of(rows)),
            rows_realise(
                rows_of(rows),
                sheet_rows_model(exh.pages@, views_of(exd@), page_index as nat),
                exh.data_types@,
            ),
            forall|i: int|
                0 <= i < page_index ==> #[trigger] page_all_ok(
                    views_of(exd@)[i],
                    exh.pages@[i],
                ),
        decreases exh.pages@.len() - page_index,
    {
        let pg = exh.pages[page_index];
        let pexd = &exd[page_index];
        proof {
            assert(pexd@ == views_of(exd@)[page_index as int]);
            assert(pg == exh.pages@[page_index as int]);
        }
        let n = pexd.len();
        if n < 0x20 {
            proof {
                assert(!page_all_ok(pexd@, pg));
                assert(!sheet_pages_ok(exh.pages@, views_of(exd@)));
                lemma_no_magic_failure(exh.pages@, views_of(exd@), page_index as int);
            }
            return Err(exd_err());
        }
        if read_u32_be(pexd.as_slice(), 0) != EXDF_MAGIC {
            proof {
                assert(!page_all_ok(pexd@, pg));
                assert(!sheet_pages_ok(exh.pages@, views_of(exd@)));
                let rs = rows_of(rows);
                let m0 = sheet_rows_model(exh.pages@, views_of(exd@), page_index as nat);
                assert forall|a: int, c: int| 0 <= a < c < m0.len() implies (#[trigger] m0[a]).0
                    != (#[trigger] m0[c]).0 by {
                    assert(rs[a].0 == m0[a].0 as usize);
                    assert(rs[c].0 == m0[c].0 as usize);
                    assert(rs[a].0 != rs[c].0);
                }
                assert(magic_failure_at(exh.pages@, views_of(exd@), page_index as int));
            }
            return Err(exd_magic_err());
        }
        let offset_size = read_u32_be(pexd.as_slice(), 0x8);
        let data_size = read_u32_be(pexd.as_slice(), 0xc);
        if 0x20u64 + offset_size as u64 + data_size as u64 > n as u64 {
            proof {
                assert(!page_all_ok(pexd@, pg));
                assert(!sheet_pages_ok(exh.pages@, views_of(exd@)));
                lemma_no_magic_failure(exh.pages@, views_of(exd@), page_index as int);
            }
            return Err(exd_err());
        }
        assert(page_ok(pexd@));
        let ghost bound_int: int = pg.page_entry + pg.page_size;
        let ghost wp = page_pairs_from(pexd@, bound_int, 0);
        let bound64: u64 = pg.page_entry as u64 + pg.page_size as u64;
        let te64: u64 = 0x20u64 + offset_size as u64;
        let mut pairs: Vec<(u32, u32)> = Vec::new();
        let mut k: usize = 0;
        let mut stop = false;
        while !stop
            invariant
                page_ok(pexd@),
                n == pexd@.len(),
                exd@.len() == exh.pages@.len(),
                page_index < exh.pages@.len(),
                pexd@ == views_of(exd@)[page_index as int],
                pg == exh.pages@[page_index as int],
                forall|x: int|
                    0 <= x < page_index ==> #[trigger] page_all_ok(
                        views_of(exd@)[x],
                        exh.pages@[x],
                    ),
                te64 == page_table_end(pexd@),
                bound64 == bound_int,
                wp == page_pairs_from(pexd@, bound_int, 0),
                wp == page_pairs(pexd@, pg),
                !stop ==> wp =~= pairs@ + page_pairs_from(pexd@, bound_int, k as int),
                !stop ==> 0x20 + 8 * (k as int) <= page_table_end(pexd@) + 8,
                !stop ==> pairs@.len() == k,
                stop ==> wp =~= pairs@,
                forall|x: int|
                    0 <= x < pairs@.len() ==> (#[trigger] pairs@[x]) == pairs@[x] && 0x20 + 8 * x
                        + 8 <= n,
                forall|a: int, c: int|
                    0 <= a < c < pairs@.len() ==> (#[trigger] pairs@[a]).0 != (
                    #[trigger] pairs@[c]).0,
            decreases (if stop {
                0int
            } else {
                page_table_end(pexd@) - 8 * (k as int) + 0x40
            }),
        {
            let slot64: u64 = 0x20u64 + 8u64 * (k as u64);
            if slot64 >= te64 {
                proof {
                    assert(page_pairs_from(pexd@, bound_int, k as int) =~= Seq::empty());
                }
                stop = true;
            } else {
                let slot = slot64 as usize;
                if slot64 + 8u64 > n as u64 {
                    proof {
                        assert(page_pairs_from(pexd@, bound_int, k as int).len() >= 1);
                        assert(wp.len() > k as int);
                        assert(!pair_regions_ok(pexd@, pg, k as int));
                        assert(!page_all_ok(pexd@, pg)) by {
                            if page_all_ok(pexd@, pg) {
                                assert(pair_regions_ok(pexd@, pg, k as int));
                            }
                        }
                        assert(!sheet_pages_ok(exh.pages@, views_of(exd@)));
                        lemma_no_magic_failure(exh.pages@, views_of(exd@), page_index as int);
                    }
                    return Err(exd_err());
                }
                let ri = read_u32_be(pexd.as_slice(), slot);
                let ro = read_u32_be(pexd.as_slice(), slot + 4);
                if pairs_contains(&pairs, ri) {
                    proof {
                        let x = choose|x: int|
                            0 <= x < pairs@.len() && (#[trigger] pairs@[x]).0 == ri;
                        assert(page_pairs_from(pexd@, bound_int, k as int)[0] == (ri, ro));
                        assert(wp[k as int] == (ri, ro));
                        assert(wp[x] == pairs@[x]);
                        assert(page_rows(pexd@, pg).len() == wp.len());
                        assert(page_rows(pexd@, pg)[x].0 == ri);
                        assert(page_rows(pexd@, pg)[k as int].0 == ri);
                        lemma_model_slice(
                            exh.pages@,
                            views_of(exd@),
                            (page_index + 1) as nat,
                            page_index as int,
                        );
                        let off = sheet_rows_model(
                            exh.pages@,
                            views_of(exd@),
                            page_index as nat,
                        ).len() as int;
                        let pr_len = page_rows(pexd@, pg).len() as int;
                        let m1 = sheet_rows_model(
                            exh.pages@,
                            views_of(exd@),
                            (page_index + 1) as nat,
                        );
                        assert(m1.subrange(off, off + pr_len) == page_rows(pexd@, pg));
                        assert(m1[off + x] == m1.subrange(off, off + pr_len)[x]);
                        assert(m1[off + (k as int)] == m1.subrange(off, off + pr_len)[k as int]);
                        assert((m1[off + x]).0 == ri);
                        assert((m1[off + (k as int)]).0 == ri);
                        lemma_no_magic_failure_when_dup(
                            exh.pages@,
                            views_of(exd@),
                            page_index as int,
                            off + x,
                            off + (k as int),
                        );
                    }
                    return Err(exd_err());
                }
                pairs.push((ri, ro));
                proof {
                    assert(ri == be_u32(pexd@, 0x20 + 8 * (k as int)));
                    assert(ro == be_u32(pexd@, 0x20 + 8 * (k as int) + 4));
                    if ri as int >= bound_int {
                        assert(page_pairs_from(pexd@, bound_int, k as int) =~= seq![(ri, ro)]);
                        assert(wp =~= pairs@);
                    } else {
                        assert(page_pairs_from(pexd@, bound_int, k as int) =~= seq![(ri, ro)]
                            + page_pairs_from(pexd@, bound_int, k + 1));
                        assert(wp =~= pairs@ + page_pairs_from(pexd@, bound_int, k + 1));
                    }
                }
                if ri as u64 >= bound64 {
                    stop = true;
                } else {
                    k = k + 1;
                }
            }
        }
        let ghost base_model = sheet_rows_model(exh.pages@, views_of(exd@), page_index as nat);
        let mut j: usize = 0;
        while j < pairs.len()
            invariant
                page_ok(pexd@),
                n == pexd@.len(),
                exd@.len() == exh.pages@.len(),
                page_index < exh.pages@.len(),
                pexd@ == views_of(exd@)[page_index as int],
                pg == exh.pages@[page_index as int],
                types@ == exh.data_types@,
                j <= pairs@.len(),
                pairs@ == page_pairs(pexd@, pg),
                base_model == sheet_rows_model(exh.pages@, views_of(exd@), page_index as nat),
                forall|x: int|
                    0 <= x < page_index ==> #[trigger] page_all_ok(
                        views_of(exd@)[x],
                        exh.pages@[x],
                    ),
                forall|x: int|
                    0 <= x < j ==> (#[trigger] pairs@[x]).1 + 4 <= n && pairs@[x].1 + 6 + be_u32(
                        pexd@,
                        pairs@[x].1 as int,
                    ) <= n,
                distinct_row_keys(rows_of(rows)),
                rows_realise(
                    rows_of(rows),
                    base_model + page_pairs(pexd@, pg).take(j as int).map_values(
                        |pr: (u32, u32)| (pr.0, row_bytes(pexd@, pr.1)),
                    ),
                    exh.data_types@,
                ),
            decreases pairs@.len() - j,
        {
            let (ri, ro) = pairs[j];
            if rows_contains_key(&rows, &(ri as usize)) {
                proof {
                    let rs = rows_of(rows);
                    let t = choose|t: int| 0 <= t < rs.len() && (#[trigger] rs[t]).0 == (
                    ri as usize);
                    let f2 = |pr: (u32, u32)| (pr.0, row_bytes(pexd@, pr.1));
                    let msf = base_model + page_pairs(pexd@, pg).take(j as int).map_values(f2);
                    assert(rs.len() == msf.len());
                    assert(rs[t].0 == (msf[t]).0 as usize);
                    assert((msf[t]).0 == ri);
                    let p1 = (page_index + 1) as nat;
                    lemma_model_slice(exh.pages@, views_of(exd@), p1, page_index as int);
                    lemma_model_prefix(exh.pages@, views_of(exd@), page_index as nat, p1);
                    let off = base_model.len() as int;
                    let pr_len = page_rows(pexd@, pg).len() as int;
                    let m1 = sheet_rows_model(exh.pages@, views_of(exd@), p1);
                    assert(m1.subrange(off, off + pr_len) == page_rows(pexd@, pg));
                    assert forall|u: int| 0 <= u < msf.len() implies m1[u] == msf[u] by {
                        if u < off {
                            assert(msf[u] == base_model[u]);
                            assert(m1[u] == base_model[u]);
                        } else {
                            let xx = u - off;
                            assert(msf[u] == page_pairs(pexd@, pg).take(j as int).map_values(
                                f2,
                            )[xx]);
                            assert(page_pairs(pexd@, pg).take(j as int)[xx] == page_pairs(
                                pexd@,
                                pg,
                            )[xx]);
                            assert(msf[u] == page_rows(pexd@, pg)[xx]);
                            assert(m1[off + xx] == m1.subrange(off, off + pr_len)[xx]);
                        }
                    }
                    assert(page_pairs(pexd@, pg)[j as int] == (ri, ro));
                    assert(page_rows(pexd@, pg)[j as int].0 == ri);
                    assert(m1[off + (j as int)] == m1.subrange(off, off + pr_len)[j as int]);
                    assert((m1[off + (j as int)]).0 == ri);
                    assert(t < off + (j as int));
                    assert((m1[t]).0 == ri);
                    lemma_no_magic_failure_when_dup(
                        exh.pages@,
                        views_of(exd@),
                        page_index as int,
                        t,
                        off + (j as int),
                    );
                }
                return Err(exd_err());
            }
            let ro64 = ro as u64;
            if ro64 + 4u64 > n as u64 {
                proof {
                    assert(page_pairs(pexd@, pg)[j as int] == (ri, ro));
                    assert(!pair_regions_ok(pexd@, pg, j as int));
                    assert(!page_all_ok(pexd@, pg)) by {
                        if page_all_ok(pexd@, pg) {
                            assert(pair_regions_ok(pexd@, pg, j as int));
                        }
                    }
                    assert(!sheet_pages_ok(exh.pages@, views_of(exd@)));
                    lemma_no_magic_failure(exh.pages@, views_of(exd@), page_index as int);
                }
                return Err(exd_err());
            }
            let row_size = read_u32_be(pexd.as_slice(), ro as usize);
            if ro64 + 6u64 + row_size as u64 > n as u64 {
                proof {
                    assert(page_pairs(pexd@, pg)[j as int] == (ri, ro));
                    assert(!pair_regions_ok(pexd@, pg, j as int));
                    assert(!page_all_ok(pexd@, pg)) by {
                        if page_all_ok(pexd@, pg) {
                            assert(pair_regions_ok(pexd@, pg, j as int));
                        }
                    }
                    assert(!sheet_pages_ok(exh.pages@, views_of(exd@)));
                    lemma_no_magic_failure(exh.pages@, views_of(exd@), page_index as int);
                }
                return Err(exd_err());
            }
            let by = copy_range(pexd.as_slice(), ro as usize + 6, ro as usize + 6
                + row_size as usize);
            let row = SheetRow { by, types: rc_clone(&types) };
            proof {
                assert(row.by@ =~= row_bytes(pexd@, ro));
            }
            let ghost rs0 = rows_of(rows);
            rows_insert(&mut rows, ri as usize, row);
            proof {
                let f = |pr: (u32, u32)| (pr.0, row_bytes(pexd@, pr.1));
                assert(page_pairs(pexd@, pg)[j as int] == (ri, ro));
                assert(page_pairs(pexd@, pg).take(j + 1).map_values(f) =~= page_pairs(
                    pexd@,
                    pg,
                ).take(j as int).map_values(f).push(f((ri, ro))));
                let model0 = base_model + page_pairs(pexd@, pg).take(j as int).map_values(f);
                let model1 = base_model + page_pairs(pexd@, pg).take(j + 1).map_values(f);
                assert(model1 =~= model0.push((ri, row_bytes(pexd@, ro))));
                let rs1 = rows_of(rows);
                assert(rs1 == rs0.push((ri as usize, row)));
                assert forall|i: int| 0 <= i < rs1.len() implies (#[trigger] rs1[i]).0 == (
                #[trigger] model1[i]).0 as usize && rs1[i].1.by@ == model1[i].1 && rs1[i].1.types@
                    == exh.data_types@ by {
                    if i < rs1.len() - 1 {
                        assert(rs1[i] == rs0[i]);
                        assert(model1[i] == model0[i]);
                    } else {
                        assert(rs1[i] == (ri as usize, row));
                        assert(model1[i] == (ri, row_bytes(pexd@, ro)));
                    }
                }
            }
            j = j + 1;
        }
        proof {
            let f = |pr: (u32, u32)| (pr.0, row_bytes(pexd@, pr.1));
            assert(page_pairs(pexd@, pg).take(pairs@.len() as int) =~= page_pairs(pexd@, pg));
            assert(base_model + page_pairs(pexd@, pg).map_values(f) =~= sheet_rows_model(
                exh.pages@,
                views_of(exd@),
                (page_index + 1) as nat,
            ));
            assert forall|x: int| 0 <= x < page_pairs(pexd@, pg).len() implies
                #[trigger] pair_regions_ok(pexd@, pg, x) by {
                assert(page_pairs(pexd@, pg)[x] == pairs@[x]);
            }
            assert(page_all_ok(pexd@, pg));
            assert(pexd@ == views_of(exd@)[page_index as int]);
            assert(pg == exh.pages@[page_index as int]);
            assert(page_all_ok(views_of(exd@)[page_index as int], exh.pages@[page_index as int]));
        }
        page_index = page_index + 1;
    }
    proof {
        assert(sheet_pages_ok(exh.pages@, views_of(exd@)));
        let m_full = sheet_rows_model(exh.pages@, views_of(exd@), exh.pages@.len());
        let rs = rows_of(rows);
        assert forall|a: int, c: int| 0 <= a < c < m_full.len() implies (#[trigger] m_full[a]).0
            != (#[trigger] m_full[c]).0 by {
            assert(rs[a].0 == m_full[a].0 as usize);
            assert(rs[c].0 == m_full[c].0 as usize);
            assert(rs[a].0 != rs[c].0);
        }
        assert(model_keys_distinct(m_full));
        assert(sheet_decode_ok(exh.pages@, views_of(exd@)));
    }
    Ok(Sheet { rows, types, column_count })
}

/// Validates the requested language against a header, then decodes the
/// pages; a language the header does not list is rejected with the list of
/// those it does.
pub fn decode_sheet(exh: &SheetInfo, language: SheetLanguage, exd: &Vec<Vec<u8>>) -> (r: Result<
    Sheet,
    FFXIVError,
>)
    requires
        exd@.len() == exh.pages@.len(),
        exh.data_types@.len() <= 0xFFFFFFFF,
    ensures
        match r {
            Ok(sheet) => {
                &&& exh.languages@.contains(language)
                &&& sheet.types@ == exh.data_types@
                &&& sheet.column_count == exh.data_types@.len()
                &&& rows_realise(
                    rows_of(sheet.rows),
                    sheet_rows_model(exh.pages@, views_of(exd@), exh.pages@.len()),
                    exh.data_types@,
                )
                &&& sheet.wf()
                &&& sheet_decode_ok(exh.pages@, views_of(exd@))
            },
            Err(e) => match e {
                FFXIVError::InvalidLanguage(l, av) => !exh.languages@.contains(language) && l
                    == language && av@ == exh.languages@,
                FFXIVError::DecodingEXD(_) => exh.languages@.contains(language)
                    && !sheet_decode_ok(exh.pages@, views_of(exd@)) && (is_exd_magic_err(e)
                    <==> exists|i: int| magic_failure_at(exh.pages@, views_of(exd@), i)),
                _ => false,
            },
        },
{
    let mut found = false;
    let mut li: usize = 0;
    while li < exh.languages.len()
        invariant
            li <= exh.languages@.len(),
            found == exists|x: int| 0 <= x < li && exh.languages@[x] == language,
        decreases exh.languages@.len() - li,
    {
        if exh.languages[li] == language {
            found = true;
        }
        li = li + 1;
    }
    if !found {
        let mut av: Vec<SheetLanguage> = Vec::new();
        let mut ai: usize = 0;
        while ai < exh.languages.len()
            invariant
                ai <= exh.languages@.len(),
                av@ =~= exh.languages@.subrange(0, ai as int),
            decreases exh.languages@.len() - ai,
        {
            av.push(exh.languages[ai]);
            proof {
                assert(av@ =~= exh.languages@.subrange(0, ai + 1));
            }
            ai = ai + 1;
        }
        proof {
            assert(av@ =~= exh.languages@);
        }
        return Err(FFXIVError::InvalidLanguage(language, av));
    }
    decode_sheet_from_bytes(exh, exd)
}

/// The path of a sheet's header file: `exd/<name>.exh`.
pub fn sheet_header_path(exd_name: &String) -> (r: String)
    ensures
        r@ == "exd/"@ + exd_name@ + ".exh"@,
{
    let mut s = String::from_str("exd/");
    s.append(exd_name.as_str());
    s.append(".exh");
    s
}

/// The path of one sheet page: `exd/<name>_<start row>.exd`, with the
/// language's code appended before the extension for any language but the
/// suffix-less one.
pub fn sheet_page_path(exd_name: &String, page_entry: u32, language: &SheetLanguage) -> (r: String)
    ensures
        match language_code_str(*language) {
            Option::None => r@ == "exd/"@ + exd_name@ + "_"@ + crate::expack::dec_str(
                page_entry as nat,
            ) + ".exd"@,
            Option::Some(code) => r@ == "exd/"@ + exd_name@ + "_"@ + crate::expack::dec_str(
                page_entry as nat,
            ) + "_"@ + code + ".exd"@,
        },
{
    let mut s = String::from_str("exd/");
    s.append(exd_name.as_str());
    s.append("_");
    s.append(crate::expack::dec_string_u32(page_entry).as_str());
    match language.get_language_code() {
        Option::Some(code) => {
            s.append("_");
            s.append(code.as_str());
        },
        Option::None => {},
    }
    s.append(".exd");
    s
}

} // verus!
