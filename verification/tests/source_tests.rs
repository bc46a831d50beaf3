use tabview::cell::{format_cell, CellValue};
use tabview::errors::LoadError;
use tabview::session::Session;
use tabview::source::{load_rows, map_cell, QueryOutcome, SourceValue};

#[test]
fn null_and_blob_columns_map_to_their_cells() {
    let rows = vec![vec![SourceValue::Null, SourceValue::Blob(vec![1, 2, 3])]];
    let t = load_rows(&rows).unwrap();
    assert_eq!(t.cell(0, 0), Ok(&CellValue::Null));
    assert_eq!(t.cell(0, 1), Ok(&CellValue::Blob(vec![1, 2, 3])));
    assert_eq!(format_cell(t.cell(0, 0).unwrap()), String::from("NULL"));
    assert_eq!(format_cell(t.cell(0, 1).unwrap()), String::from("BLOB"));
}

#[test]
fn typed_columns_map_like_to_like() {
    let row = vec![
        SourceValue::Integer(-12),
        SourceValue::Real(String::from("2.5")),
        SourceValue::Text(String::from("name")),
    ];
    let t = load_rows(&vec![row]).unwrap();
    assert_eq!(t.cell(0, 0), Ok(&CellValue::Integer(-12)));
    assert_eq!(t.cell(0, 1), Ok(&CellValue::Real(String::from("2.5"))));
    assert_eq!(t.cell(0, 2), Ok(&CellValue::Text(String::from("name"))));
}

#[test]
fn one_unsupported_value_fails_the_whole_load() {
    let rows = vec![
        vec![SourceValue::Integer(1)],
        vec![SourceValue::Unsupported],
    ];
    assert_eq!(load_rows(&rows).err(), Some(LoadError::UnsupportedType));
}

#[test]
fn an_unsupported_value_maps_to_its_error() {
    assert_eq!(map_cell(&SourceValue::Unsupported), Err(LoadError::UnsupportedType));
    assert_eq!(map_cell(&SourceValue::Integer(9)), Ok(CellValue::Integer(9)));
}

#[test]
fn empty_result_set_is_an_empty_table() {
    let t = load_rows(&Vec::new()).unwrap();
    assert_eq!(t.row_count(), 0);
}

#[test]
fn a_failed_query_reports_its_reason() {
    let mut s = Session::new();
    s.load_text("kept\trow");
    assert_eq!(s.load_query(QueryOutcome::ConnectionFailed), Err(LoadError::ConnectionFailed));
    assert_eq!(s.load_query(QueryOutcome::QueryFailed), Err(LoadError::QueryFailed));
    let bad = QueryOutcome::Rows(vec![vec![SourceValue::Unsupported]]);
    assert_eq!(s.load_query(bad), Err(LoadError::UnsupportedType));
    // On every failure the previously held table stays untouched.
    assert_eq!(s.row_count(), 1);
    assert_eq!(s.cell(0, 0), Ok(&CellValue::Text(String::from("kept"))));
}

#[test]
fn a_successful_query_replaces_the_table() {
    let mut s = Session::new();
    s.load_text("old");
    let rows = QueryOutcome::Rows(vec![
        vec![SourceValue::Integer(1), SourceValue::Null],
        vec![SourceValue::Integer(2), SourceValue::Text(String::from("x"))],
    ]);
    assert_eq!(s.load_query(rows), Ok(()));
    assert_eq!(s.row_count(), 2);
    assert_eq!(s.cell(0, 1), Ok(&CellValue::Null));
    assert_eq!(s.cell(1, 1), Ok(&CellValue::Text(String::from("x"))));
}
