use tabview::cell::CellValue;
use tabview::errors::TableError;
use tabview::loader::load_text;

#[test]
fn round_trip_two_rows() {
    let t = load_text("1\tfoo\tbar\n2\tbaz\tqux\n");
    assert_eq!(t.row_count(), 2);
    assert_eq!(t.cell(0, 0), Ok(&CellValue::Text(String::from("1"))));
    assert_eq!(t.cell(0, 1), Ok(&CellValue::Text(String::from("foo"))));
    assert_eq!(t.cell(0, 2), Ok(&CellValue::Text(String::from("bar"))));
    assert_eq!(t.cell(1, 0), Ok(&CellValue::Text(String::from("2"))));
    assert_eq!(t.cell(1, 2), Ok(&CellValue::Text(String::from("qux"))));
}

#[test]
fn empty_input_yields_no_rows() {
    let t = load_text("");
    assert_eq!(t.row_count(), 0);
}

#[test]
fn ragged_input_keeps_short_row() {
    let t = load_text("a\tb\n c");
    assert_eq!(t.row_count(), 2);
    assert_eq!(t.column_count(0), Ok(2));
    assert_eq!(t.column_count(1), Ok(1));
    assert_eq!(t.cell(1, 0), Ok(&CellValue::Text(String::from(" c"))));
    assert_eq!(t.cell(1, 1), Err(TableError::IndexOutOfRange));
}

#[test]
fn trailing_terminator_adds_no_row() {
    let with = load_text("a\nb\n");
    let without = load_text("a\nb");
    assert_eq!(with.row_count(), 2);
    assert_eq!(without.row_count(), 2);
}

#[test]
fn lone_newline_is_one_empty_line() {
    let t = load_text("\n");
    assert_eq!(t.row_count(), 1);
    assert_eq!(t.column_count(0), Ok(1));
    assert_eq!(t.cell(0, 0), Ok(&CellValue::Text(String::from(""))));
}

#[test]
fn blank_line_in_the_middle_is_kept() {
    let t = load_text("a\n\nb");
    assert_eq!(t.row_count(), 3);
    assert_eq!(t.cell(1, 0), Ok(&CellValue::Text(String::from(""))));
}

#[test]
fn carriage_return_before_newline_is_dropped() {
    let t = load_text("a\r\nb\r\n");
    assert_eq!(t.row_count(), 2);
    assert_eq!(t.cell(0, 0), Ok(&CellValue::Text(String::from("a"))));
    assert_eq!(t.cell(1, 0), Ok(&CellValue::Text(String::from("b"))));
}

#[test]
fn final_carriage_return_without_newline_is_kept() {
    let t = load_text("a\r");
    assert_eq!(t.row_count(), 1);
    assert_eq!(t.cell(0, 0), Ok(&CellValue::Text(String::from("a\r"))));
}

#[test]
fn adjacent_tabs_make_an_empty_field() {
    let t = load_text("a\t\tb");
    assert_eq!(t.column_count(0), Ok(3));
    assert_eq!(t.cell(0, 1), Ok(&CellValue::Text(String::from(""))));
}

#[test]
fn numeric_looking_fields_stay_text() {
    let t = load_text("12\t-3");
    assert_eq!(t.cell(0, 0), Ok(&CellValue::Text(String::from("12"))));
    assert_eq!(t.cell(0, 1), Ok(&CellValue::Text(String::from("-3"))));
}

#[test]
fn row_index_past_table_is_rejected() {
    let t = load_text("a");
    assert_eq!(t.column_count(1), Err(TableError::IndexOutOfRange));
    assert_eq!(t.cell(1, 0), Err(TableError::IndexOutOfRange));
}
