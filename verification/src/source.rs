use vstd::prelude::*;

use crate::cell::{CellData, CellValue};
use crate::errors::LoadError;
use crate::table::{cell_views, Table};

verus! {

/// Mathematical model of one native column value, mirroring `CellData`
/// with one extra case for a native type that has no cell mapping.
#[verifier::ext_equal]
pub enum SourceData {
    Integer(int),
    Real(Seq<char>),
    Text(Seq<char>),
    Blob(Seq<u8>),
    Null,
    Unsupported,
}

/// One native value delivered by the relational source for one column of
/// one result row. `Unsupported` stands for any native type outside the
/// mapped ones. A floating column arrives as its decimal rendering,
/// produced at the boundary: the verified core holds no floats.
#[derive(Debug, Clone, PartialEq, Eq)]
pub enum SourceValue {
    Integer(i64),
    Real(String),
    Text(String),
    Blob(Vec<u8>),
    Null,
    Unsupported,
}

impl View for SourceValue {
    type V = SourceData;

    open spec fn view(&self) -> SourceData {
        match self {
            SourceValue::Integer(i) => SourceData::Integer(*i as int),
            SourceValue::Real(t) => SourceData::Real(t@),
            SourceValue::Text(t) => SourceData::Text(t@),
            SourceValue::Blob(b) => SourceData::Blob(b@),
            SourceValue::Null => SourceData::Null,
            SourceValue::Unsupported => SourceData::Unsupported,
        }
    }
}

/// Whether the native value has a cell mapping at all.
pub open spec fn supported(v: SourceData) -> bool {
    !(v is Unsupported)
}

/// The cell a supported native value maps to: integer to Integer, floating
/// to Real, text to Text, binary to Blob, absent to Null.
pub open spec fn spec_map_cell(v: SourceData) -> CellData {
    match v {
        SourceData::Integer(i) => CellData::Integer(i),
        SourceData::Real(t) => CellData::Real(t),
        SourceData::Text(t) => CellData::Text(t),
        SourceData::Blob(b) => CellData::Blob(b),
        SourceData::Null => CellData::Null,
        SourceData::Unsupported => arbitrary(),
    }
}

/// The model of one source row.
pub open spec fn cell_src_views(r: Seq<SourceValue>) -> Seq<SourceData> {
    r.map_values(|v: SourceValue| v@)
}

/// The model of a whole result set.
pub open spec fn src_views(rows: Seq<Vec<SourceValue>>) -> Seq<Seq<SourceData>> {
    rows.map_values(|r: Vec<SourceValue>| cell_src_views(r@))
}

/// Whether every value of the row has a cell mapping.
pub open spec fn row_supported(r: Seq<SourceData>) -> bool {
    forall|j: int| 0 <= j < r.len() ==> supported(#[trigger] r[j])
}

/// Whether every value of the whole result set has a cell mapping.
pub open spec fn all_supported(rows: Seq<Seq<SourceData>>) -> bool {
    forall|i: int| 0 <= i < rows.len() ==> row_supported(#[trigger] rows[i])
}

/// One mapped row.
pub open spec fn spec_map_row(r: Seq<SourceData>) -> Seq<CellData> {
    r.map_values(|v: SourceData| spec_map_cell(v))
}

/// The whole mapped result set, row by row, column by column.
pub open spec fn spec_map_rows(rows: Seq<Seq<SourceData>>) -> Seq<Seq<CellData>> {
    rows.map_values(|r: Seq<SourceData>| spec_map_row(r))
}

fn copy_bytes(b: &Vec<u8>) -> (r: Vec<u8>)
    ensures
        r@ == b@,
{
    let mut r: Vec<u8> = Vec::new();
    let n = b.len();
    let mut k: usize = 0;
    while k < n
        invariant
            k <= n,
            n == b@.len(),
            r@ == b@.subrange(0, k as int),
        decreases n - k,
    {
        r.push(b[k]);
        proof {
            assert(r@ =~= b@.subrange(0, k + 1 as int));
        }
        k += 1;
    }
    proof {
        assert(r@ =~= b@);
    }
    r
}

/// Maps one native value into its cell, or reports that its native type
/// has no mapping.
pub fn map_cell(v: &SourceValue) -> (r: Result<CellValue, LoadError>)
    ensures
        supported(v@) ==> r is Ok && r->Ok_0@ == spec_map_cell(v@),
        !supported(v@) ==> r == Err::<CellValue, LoadError>(LoadError::UnsupportedType),
{
    match v {
        SourceValue::Integer(i) => Ok(CellValue::Integer(*i)),
        SourceValue::Real(t) => Ok(CellValue::Real(t.clone())),
        SourceValue::Text(t) => Ok(CellValue::Text(t.clone())),
        SourceValue::Blob(b) => Ok(CellValue::Blob(copy_bytes(b))),
        SourceValue::Null => Ok(CellValue::Null),
        SourceValue::Unsupported => Err(LoadError::UnsupportedType),
    }
}

/// Maps a full result set into a table, or fails with `UnsupportedType`
/// if any value anywhere in it has no cell mapping. All or nothing: on
/// failure no table is produced at all.
pub fn load_rows(rows: &Vec<Vec<SourceValue>>) -> (r: Result<Table, LoadError>)
    ensures
        all_supported(src_views(rows@)) ==> r is Ok && r->Ok_0@ == spec_map_rows(
            src_views(rows@),
        ),
        !all_supported(src_views(rows@)) ==> r == Err::<Table, LoadError>(
            LoadError::UnsupportedType,
        ),
{
    let mut out: Vec<Vec<CellValue>> = Vec::new();
    let n = rows.len();
    let mut i: usize = 0;
    while i < n
        invariant
            i <= n,
            n == rows@.len(),
            out@.len() == i,
            forall|q: int| 0 <= q < i ==> row_supported(#[trigger] src_views(rows@)[q]),
            forall|q: int|
                0 <= q < i ==> cell_views(#[trigger] out@[q]@) == spec_map_row(
                    cell_src_views(rows@[q]@),
                ),
        decreases n - i,
    {
        let row = &rows[i];
        let mut cells: Vec<CellValue> = Vec::new();
        let m = row.len();
        let mut j: usize = 0;
        while j < m
            invariant
                j <= m,
                i < n,
                n == rows@.len(),
                m == row@.len(),
                row@ == rows@[i as int]@,
                cells@.len() == j,
                forall|q: int| 0 <= q < j ==> supported(#[trigger] cell_src_views(row@)[q]),
                forall|q: int|
                    0 <= q < j ==> cell_views(cells@)[q] == spec_map_row(cell_src_views(row@))[q],
            decreases m - j,
        {
            match map_cell(&row[j]) {
                Ok(c) => {
                    let ghost pre = cells@;
                    cells.push(c);
                    proof {
                        assert(cell_src_views(row@)[j as int] == row@[j as int]@);
                        assert(cell_views(cells@) =~~= cell_views(pre).push(c@));
                    }
                },
                Err(e) => {
                    proof {
                        assert(cell_src_views(row@)[j as int] == row@[j as int]@);
                        assert(!row_supported(cell_src_views(row@)));
                        assert(src_views(rows@)[i as int] == cell_src_views(rows@[i as int]@));
                        assert(!all_supported(src_views(rows@)));
                    }
                    return Err(e);
                },
            }
            j += 1;
        }
        out.push(cells);
        proof {
            assert(src_views(rows@)[i as int] == cell_src_views(rows@[i as int]@));
            assert(row_supported(src_views(rows@)[i as int]));
            assert(cell_views(cells@) =~= spec_map_row(cell_src_views(row@)));
        }
        i += 1;
    }
    let t = Table::from_rows(out);
    proof {
        assert(all_supported(src_views(rows@)));
        assert(t@ =~~= spec_map_rows(src_views(rows@)));
    }
    Ok(t)
}

/// What the excluded relational driver reports for one executed query:
/// why it failed, or else the full result set, row by row in result
/// order, every column value already in its native form.
#[derive(Debug)]
pub enum QueryOutcome {
    /// The source could not be reached or opened.
    ConnectionFailed,
    /// The statement was invalid or its execution reported an error.
    QueryFailed,
    /// The query ran to completion and returned these rows.
    Rows(Vec<Vec<SourceValue>>),
}

} // verus!
