use vstd::prelude::*;

verus! {

/// A row or column index that is not valid for the table it was used on.
///
/// Index errors are a defect of the caller's view state, never of the data:
/// read paths that exist purely for display absorb them instead (see
/// `ViewState::is_selected`).
#[derive(Debug, Clone, Copy, PartialEq, Eq, Structural)]
pub enum TableError {
    IndexOutOfRange,
}

/// Why a load did not produce a table. On any of these the previously held
/// table stays untouched.
#[derive(Debug, Clone, Copy, PartialEq, Eq, Structural)]
pub enum LoadError {
    /// The relational source could not be reached or opened.
    ConnectionFailed,
    /// The statement was invalid or its execution reported an error.
    QueryFailed,
    /// A column's native type has no `CellValue` mapping.
    UnsupportedType,
    /// The raw bytes of a dropped file were not valid text. The decoding
    /// itself happens outside the core, which takes decoded text; the
    /// variant exists so that the boundary can surface such a failure in
    /// the load taxonomy.
    DecodeError,
}

} // verus!
