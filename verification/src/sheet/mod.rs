//! Decoded sheets: an insertion-ordered row map, the shared column
//! descriptors, and the typed cell readers over each row's bytes.

pub mod decoding;
pub mod ex;
mod row_reader;

pub use self::row_reader::BitFlags;

use self::ex::SheetDataType;
use indexmap::IndexMap;
use std::rc::Rc;
use vstd::prelude::*;

verus! {

/// The insertion-ordered map of an outside crate that holds the rows; its
/// contents are named by [`rows_of`].
#[verifier::external_type_specification]
#[verifier::external_body]
#[verifier::reject_recursive_types(K)]
#[verifier::reject_recursive_types(V)]
#[verifier::reject_recursive_types(S)]
pub struct ExIndexMap<K, V, S>(IndexMap<K, V, S>);

/// One decoded row: its raw bytes (fixed-width area then string pool) and
/// the column descriptors it shares with every other row of its sheet.
pub struct SheetRow {
    pub by: Vec<u8>,
    pub types: Rc<Vec<SheetDataType>>,
}

/// What a row map holds: its entries as pairs, in insertion order.
pub uninterp spec fn rows_of(m: IndexMap<usize, SheetRow>) -> Seq<(usize, SheetRow)>;

/// Whether some entry of the row map bears the key.
pub open spec fn rows_contain(m: IndexMap<usize, SheetRow>, k: usize) -> bool {
    exists|i: int| 0 <= i < rows_of(m).len() && rows_of(m)[i].0 == k
}

/// Relies on indexmap's `IndexMap::new`: a new map holds no entries.
#[verifier::external_body]
pub(crate) fn rows_new() -> (r: IndexMap<usize, SheetRow>)
    ensures
        rows_of(r) == Seq::<(usize, SheetRow)>::empty(),
{
    IndexMap::new()
}

/// Relies on indexmap's `IndexMap::len`: the number of entries.
#[verifier::external_body]
pub(crate) fn rows_len(m: &IndexMap<usize, SheetRow>) -> (r: usize)
    ensures
        r == rows_of(*m).len(),
{
    m.len()
}

/// Relies on indexmap's `IndexMap::contains_key`: whether an entry bears
/// the key.
#[verifier::external_body]
pub(crate) fn rows_contains_key(m: &IndexMap<usize, SheetRow>, k: &usize) -> (r: bool)
    ensures
        r == rows_contain(*m, *k),
{
    m.contains_key(k)
}

/// Relies on indexmap's `IndexMap::insert`: a key not yet present is
/// appended last in iteration order.
#[verifier::external_body]
pub(crate) fn rows_insert(m: &mut IndexMap<usize, SheetRow>, k: usize, v: SheetRow)
    requires
        !rows_contain(*old(m), k),
    ensures
        rows_of(*final(m)) == rows_of(*old(m)).push((k, v)),
{
    m.insert(k, v);
}

/// Relies on indexmap's `IndexMap::get`: the value of the entry bearing the
/// key, or nothing.
#[verifier::external_body]
pub(crate) fn rows_get<'a>(m: &'a IndexMap<usize, SheetRow>, k: &usize) -> (r: Option<
    &'a SheetRow,
>)
    ensures
        match r {
            Option::Some(v) => exists|i: int|
                0 <= i < rows_of(*m).len() && rows_of(*m)[i] == (*k, *v),
            Option::None => !rows_contain(*m, *k),
        },
{
    m.get(k)
}

/// Relies on indexmap's `IndexMap::get_index`: the entry at one position in
/// iteration order.
#[verifier::external_body]
pub(crate) fn rows_get_index<'a>(m: &'a IndexMap<usize, SheetRow>, i: usize) -> (r: Option<
    (&'a usize, &'a SheetRow),
>)
    ensures
        match r {
            Option::Some(kv) => i < rows_of(*m).len() && rows_of(*m)[i as int] == (
                *kv.0,
                *kv.1,
            ),
            Option::None => i >= rows_of(*m).len(),
        },
{
    m.get_index(i)
}

/// Relies on `Rc::clone`: the clone is a handle to the very same value.
#[verifier::external_body]
pub(crate) fn rc_clone<T>(rc: &Rc<T>) -> (r: Rc<T>)
    ensures
        r == *rc,
{
    Rc::clone(rc)
}

/// Relies on `Rc`'s deref: a shared reference to the held value.
#[verifier::external_body]
pub(crate) fn rc_deref<'a, T>(rc: &'a Rc<T>) -> (r: &'a T)
    ensures
        *r == *rc,
{
    &**rc
}

/// Whether a sequence of row entries has pairwise distinct row indices.
pub open spec fn distinct_row_keys(s: Seq<(usize, SheetRow)>) -> bool {
    forall|i: int, j: int| 0 <= i < j < s.len() ==> (#[trigger] s[i]).0 != (#[trigger] s[j]).0
}

/// A decoded sheet: its rows in page order then on-disk order, the shared
/// column descriptors, and the column count.
pub struct Sheet {
    pub rows: IndexMap<usize, SheetRow>,
    pub types: Rc<Vec<SheetDataType>>,
    pub column_count: u32,
}

impl Sheet {
    /// Row indices are pairwise distinct across all pages.
    pub open spec fn wf(&self) -> bool {
        distinct_row_keys(rows_of(self.rows))
    }

    /// The number of rows.
    pub fn row_count(&self) -> (r: usize)
        ensures
            r == rows_of(self.rows).len(),
    {
        rows_len(&self.rows)
    }

    /// The row stored under a row index, if any.
    pub fn get_row(&self, row_index: usize) -> (r: Option<&SheetRow>)
        ensures
            match r {
                Option::Some(v) => exists|i: int|
                    0 <= i < rows_of(self.rows).len() && rows_of(self.rows)[i] == (row_index, *v),
                Option::None => !rows_contain(self.rows, row_index),
            },
    {
        rows_get(&self.rows, &row_index)
    }

    /// The row at one position in iteration order, with its index.
    pub fn row_at(&self, i: usize) -> (r: Option<(&usize, &SheetRow)>)
        ensures
            match r {
                Option::Some(kv) => i < rows_of(self.rows).len() && rows_of(self.rows)[i as int]
                    == (*kv.0, *kv.1),
                Option::None => i >= rows_of(self.rows).len(),
            },
    {
        rows_get_index(&self.rows, i)
    }
}

/// What can go wrong reading one cell.
#[derive(Clone, Copy, Debug, PartialEq, Eq, Structural)]
pub enum SheetErrorType {
    Incompatible,
    CellOutOfBounds,
    StringProcessing,
}

/// A cell-reading failure; one failing cell does not invalidate its sheet.
#[derive(Clone, Copy, Debug, PartialEq, Eq, Structural)]
pub struct SheetError {
    pub error_type: SheetErrorType,
}

/// A type a cell can be read as.  Each implementor states, as two spec
/// functions, exactly which value a `(row, cell)` pair yields and exactly
/// which error, when one does.
pub trait FromSheet: Sized {
    /// Whether `v` is the value this type's reader yields at `(b, cell)`.
    spec fn cell_ok_spec(b: &SheetRow, cell: int, v: &Self) -> bool;

    /// The error this type's reader yields at `(b, cell)`, if any.
    spec fn cell_err_spec(b: &SheetRow, cell: int) -> Option<SheetError>;

    /// Reads the cell: the stated error when there is one, else the stated
    /// value.
    fn from_ex_data(b: &SheetRow, cell: usize) -> (r: Result<Self, SheetError>)
        ensures
            match r {
                Ok(v) => Self::cell_err_spec(b, cell as int) is None && Self::cell_ok_spec(
                    b,
                    cell as int,
                    &v,
                ),
                Err(e) => Self::cell_err_spec(b, cell as int) == Option::Some(e),
            },
    ;
}

impl SheetRow {
    /// Reads the cell at `cell` as the requested type.
    pub fn read_cell_data<T: FromSheet>(&self, cell: usize) -> (r: Result<T, SheetError>)
        ensures
            match r {
                Ok(v) => T::cell_err_spec(self, cell as int) is None && T::cell_ok_spec(
                    self,
                    cell as int,
                    &v,
                ),
                Err(e) => T::cell_err_spec(self, cell as int) == Option::Some(e),
            },
    {
        T::from_ex_data(self, cell)
    }
}

} // verus!
