use vstd::prelude::*;

use crate::cell::{CellData, CellValue};
use crate::errors::{LoadError, TableError};
use crate::loader;
use crate::loader::spec_load_text;
use crate::source;
use crate::source::{all_supported, spec_map_rows, src_views, QueryOutcome};
use crate::table::Table;
use crate::view_state::{spec_logical_to_physical, spec_toggle_selection, ViewState};

verus! {

/// One viewing session: the table now loaded and the view state over it.
///
/// The session keeps the two consistent: every selected index is a row of
/// the held table, and every load that replaces the table also resets the
/// selection, so the renderer can read either at any interaction step. The
/// whole load pipeline of one step runs to completion inside one call, so
/// a reader sees the fully old or the fully new table, never a mixture.
pub struct Session {
    table: Table,
    view: ViewState,
}

impl Session {
    /// The rows now held, in the order they were loaded.
    pub closed spec fn rows(self) -> Seq<Seq<CellData>> {
        self.table@
    }

    /// The selected physical rows.
    pub closed spec fn sel(self) -> Set<int> {
        self.view.sel()
    }

    /// The sort direction: `false` is forward, `true` is reversed.
    pub closed spec fn spec_reversed(self) -> bool {
        self.view.spec_reversed()
    }

    /// Internal consistency: the selection holds no index twice and every
    /// selected index is a row of the held table.
    pub closed spec fn wf(self) -> bool {
        self.view.wf() && self.view.valid_for(self.rows().len() as int)
    }

    /// A fresh session: empty table, forward order, nothing selected.
    pub fn new() -> (s: Session)
        ensures
            s.wf(),
            s.rows() == Seq::<Seq<CellData>>::empty(),
            s.sel() == Set::<int>::empty(),
            !s.spec_reversed(),
    {
        Session { table: Table::new(), view: ViewState::new() }
    }

    /// A session rebuilt at startup from persisted view state. The table
    /// is never persisted, so it starts empty; with no rows to refer to,
    /// no persisted selection index survives the validity rule, and only
    /// the sort direction carries over.
    pub fn restore(reversed: bool, persisted: &Vec<usize>) -> (s: Session)
        ensures
            s.wf(),
            s.rows() == Seq::<Seq<CellData>>::empty(),
            s.sel() == Set::<int>::empty(),
            s.spec_reversed() == reversed,
    {
        let view = ViewState::restore(reversed, persisted, 0);
        let s = Session { table: Table::new(), view };
        proof {
            assert forall|p: int| !s.sel().contains(p) by {
                if s.sel().contains(p) {
                    assert(0 <= p < 0);
                }
            }
            assert(s.sel() =~= Set::<int>::empty());
        }
        s
    }

    /// Loads dropped text wholesale: the parsed table replaces the old one
    /// and the selection is cleared, since indices into the old data mean
    /// nothing against the new. The sort direction is kept. Never fails.
    pub fn load_text(&mut self, raw: &str)
        ensures
            final(self).wf(),
            final(self).rows() == spec_load_text(raw@),
            final(self).sel() == Set::<int>::empty(),
            final(self).spec_reversed() == old(self).spec_reversed(),
    {
        let t = loader::load_text(raw);
        self.table = t;
        let n = self.table.row_count();
        self.view.on_table_replaced(n);
    }

    /// Applies one executed query: a failure is surfaced and the held
    /// table stays untouched, with the selection as it was; a fully mapped
    /// result set replaces the table and clears the selection. The sort
    /// direction is kept either way.
    pub fn load_query(&mut self, outcome: QueryOutcome) -> (r: Result<(), LoadError>)
        requires
            old(self).wf(),
        ensures
            final(self).wf(),
            final(self).spec_reversed() == old(self).spec_reversed(),
            outcome is ConnectionFailed ==> r == Err::<(), LoadError>(LoadError::ConnectionFailed)
                && *final(self) == *old(self),
            outcome is QueryFailed ==> r == Err::<(), LoadError>(LoadError::QueryFailed)
                && *final(self) == *old(self),
            outcome matches QueryOutcome::Rows(rows) ==> ((all_supported(src_views(rows@))
                ==> r is Ok && final(self).rows() == spec_map_rows(src_views(rows@))
                && final(self).sel() == Set::<int>::empty()) && (!all_supported(src_views(rows@))
                ==> r == Err::<(), LoadError>(LoadError::UnsupportedType) && *final(self) == *old(
                self,
            ))),
    {
        match outcome {
            QueryOutcome::ConnectionFailed => Err(LoadError::ConnectionFailed),
            QueryOutcome::QueryFailed => Err(LoadError::QueryFailed),
            QueryOutcome::Rows(rows) => {
                match source::load_rows(&rows) {
                    Ok(t) => {
                        self.table = t;
                        let n = self.table.row_count();
                        self.view.on_table_replaced(n);
                        Ok(())
                    },
                    Err(e) => Err(e),
                }
            },
        }
    }

    /// Flips the sort direction; the table and the selection stay as they
    /// were, since selection indices are physical.
    pub fn toggle_sort(&mut self)
        ensures
            final(self).wf() == old(self).wf(),
            final(self).rows() == old(self).rows(),
            final(self).sel() == old(self).sel(),
            final(self).spec_reversed() == !old(self).spec_reversed(),
    {
        self.view.toggle_sort();
    }

    /// Selects the physical row if it is unselected, and unselects it
    /// otherwise; rejects an index that is not a row of the held table.
    pub fn toggle_row_selection(&mut self, physical: usize) -> (r: Result<(), TableError>)
        requires
            old(self).wf(),
        ensures
            final(self).wf(),
            final(self).rows() == old(self).rows(),
            final(self).spec_reversed() == old(self).spec_reversed(),
            physical >= old(self).rows().len() ==> r == Err::<(), TableError>(
                TableError::IndexOutOfRange,
            ) && final(self).sel() == old(self).sel(),
            physical < old(self).rows().len() ==> r is Ok && final(self).sel()
                == spec_toggle_selection(old(self).sel(), physical as int),
    {
        let n = self.table.row_count();
        self.view.toggle_row_selection(physical, n)
    }

    /// Whether the physical row is selected. Total: an index past the
    /// table simply reads as unselected.
    pub fn is_selected(&self, physical: usize) -> (r: bool)
        ensures
            r == self.sel().contains(physical as int),
    {
        self.view.is_selected(physical)
    }

    /// Maps a displayed row position to its physical index, per the
    /// current sort direction; rejects a position past the table.
    pub fn logical_to_physical(&self, logical: usize) -> (r: Result<usize, TableError>)
        ensures
            logical < self.rows().len() ==> r is Ok && r->Ok_0 == spec_logical_to_physical(
                self.spec_reversed(),
                self.rows().len() as int,
                logical as int,
            ),
            logical >= self.rows().len() ==> r == Err::<usize, TableError>(
                TableError::IndexOutOfRange,
            ),
    {
        let n = self.table.row_count();
        self.view.logical_to_physical(logical, n)
    }

    /// How many rows the held table has.
    pub fn row_count(&self) -> (n: usize)
        ensures
            n == self.rows().len(),
    {
        self.table.row_count()
    }

    /// How many cells the given row holds; rows may differ in width.
    pub fn column_count(&self, row: usize) -> (r: Result<usize, TableError>)
        ensures
            row < self.rows().len() ==> r is Ok && r->Ok_0 == self.rows()[row as int].len(),
            row >= self.rows().len() ==> r == Err::<usize, TableError>(TableError::IndexOutOfRange),
    {
        self.table.column_count(row)
    }

    /// The cell at the given physical position; the column bound depends
    /// on the row, since the table may be ragged.
    pub fn cell(&self, row: usize, col: usize) -> (r: Result<&CellValue, TableError>)
        ensures
            row < self.rows().len() && col < self.rows()[row as int].len() ==> r is Ok
                && r->Ok_0@ == self.rows()[row as int][col as int],
            !(row < self.rows().len() && col < self.rows()[row as int].len()) ==> r == Err::<
                &CellValue,
                TableError,
            >(TableError::IndexOutOfRange),
    {
        self.table.cell(row, col)
    }

    /// The sort direction, for the renderer's sort indicator and for the
    /// persistence boundary.
    pub fn reversed(&self) -> (r: bool)
        ensures
            r == self.spec_reversed(),
    {
        self.view.reversed()
    }

    /// Whether nothing is selected.
    pub fn selection_is_empty(&self) -> (r: bool)
        ensures
            r == (self.sel() == Set::<int>::empty()),
    {
        self.view.selection_is_empty()
    }

    /// The selected physical rows, one index each, for the persistence
    /// boundary. The order carries no meaning.
    pub fn selected_rows(&self) -> (r: Vec<usize>)
        requires
            self.wf(),
        ensures
            r@.no_duplicates(),
            crate::view_state::index_set(r@) == self.sel(),
    {
        self.view.selected_rows()
    }
}

} // verus!
