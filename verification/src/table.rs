use vstd::prelude::*;

use crate::cell::{CellData, CellValue};
use crate::errors::TableError;

verus! {

/// The model of one row: the cells it holds, in order.
pub open spec fn cell_views(cells: Seq<CellValue>) -> Seq<CellData> {
    cells.map_values(|c: CellValue| c@)
}

/// The model of a sequence of rows.
pub open spec fn row_views(rows: Seq<Vec<CellValue>>) -> Seq<Seq<CellData>> {
    rows.map_values(|r: Vec<CellValue>| cell_views(r@))
}

/// An ordered sequence of rows, each an ordered sequence of cells.
///
/// Rows need not be rectangular: a ragged table is tolerated, and an
/// out-of-range column on a short row is a reportable condition at access
/// time, not a fault of the load. The table is created empty or by a
/// loader, and replaced wholesale; cells are never edited in place.
pub struct Table {
    rows: Vec<Vec<CellValue>>,
}

impl View for Table {
    type V = Seq<Seq<CellData>>;

    closed spec fn view(&self) -> Seq<Seq<CellData>> {
        row_views(self.rows@)
    }
}

impl Table {
    /// An empty table: no rows at all.
    pub fn new() -> (t: Table)
        ensures
            t@ == Seq::<Seq<CellData>>::empty(),
    {
        let t = Table { rows: Vec::new() };
        proof {
            assert(t@ =~= Seq::<Seq<CellData>>::empty());
        }
        t
    }

    /// Wraps loaded rows as a table, exactly as given.
    pub fn from_rows(rows: Vec<Vec<CellValue>>) -> (t: Table)
        ensures
            t@ == row_views(rows@),
    {
        Table { rows }
    }

    /// How many rows the table currently holds.
    pub fn row_count(&self) -> (n: usize)
        ensures
            n == self@.len(),
    {
        self.rows.len()
    }

    /// How many cells the given row holds; rows may differ in width.
    pub fn column_count(&self, row: usize) -> (r: Result<usize, TableError>)
        ensures
            row < self@.len() ==> r is Ok && r->Ok_0 == self@[row as int].len(),
            row >= self@.len() ==> r == Err::<usize, TableError>(TableError::IndexOutOfRange),
    {
        if row < self.rows.len() {
            Ok(self.rows[row].len())
        } else {
            Err(TableError::IndexOutOfRange)
        }
    }

    /// The cell at the given position. The column bound depends on the row:
    /// on a ragged table a column index valid for one row may be out of
    /// range for a shorter one.
    pub fn cell(&self, row: usize, col: usize) -> (r: Result<&CellValue, TableError>)
        ensures
            row < self@.len() && col < self@[row as int].len() ==> r is Ok && r->Ok_0@
                == self@[row as int][col as int],
            !(row < self@.len() && col < self@[row as int].len()) ==> r == Err::<
                &CellValue,
                TableError,
            >(TableError::IndexOutOfRange),
    {
        if row < self.rows.len() {
            let cells = &self.rows[row];
            if col < cells.len() {
                Ok(&cells[col])
            } else {
                Err(TableError::IndexOutOfRange)
            }
        } else {
            Err(TableError::IndexOutOfRange)
        }
    }

    /// Swaps the held data atomically: after the call the table holds
    /// exactly the new rows, and no reader ever observes a mixture of old
    /// and new.
    pub fn replace(&mut self, new_rows: Vec<Vec<CellValue>>)
        ensures
            final(self)@ == row_views(new_rows@),
    {
        self.rows = new_rows;
    }
}

} // verus!
