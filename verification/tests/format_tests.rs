use tabview::cell::{format_cell, format_i64, CellValue};

#[test]
fn integers_render_in_decimal() {
    assert_eq!(format_i64(0), String::from("0"));
    assert_eq!(format_i64(7), String::from("7"));
    assert_eq!(format_i64(42), String::from("42"));
    assert_eq!(format_i64(-1), String::from("-1"));
    assert_eq!(format_i64(-9070), String::from("-9070"));
    assert_eq!(format_i64(i64::MAX), String::from("9223372036854775807"));
    assert_eq!(format_i64(i64::MIN), String::from("-9223372036854775808"));
}

#[test]
fn integer_cell_renders_in_decimal() {
    assert_eq!(format_cell(&CellValue::Integer(1001)), String::from("1001"));
    assert_eq!(format_cell(&CellValue::Integer(-5)), String::from("-5"));
}

#[test]
fn real_cell_renders_its_decimal_text() {
    assert_eq!(format_cell(&CellValue::Real(String::from("3.25"))), String::from("3.25"));
}

#[test]
fn text_cell_renders_verbatim() {
    assert_eq!(format_cell(&CellValue::Text(String::from("12"))), String::from("12"));
    assert_eq!(format_cell(&CellValue::Text(String::from(""))), String::from(""));
}

#[test]
fn blob_cell_renders_the_sentinel_never_bytes() {
    let shown = format_cell(&CellValue::Blob(vec![65, 66, 67]));
    assert_eq!(shown, String::from("BLOB"));
    assert_ne!(shown, String::from("ABC"));
}

#[test]
fn null_cell_renders_the_sentinel() {
    assert_eq!(format_cell(&CellValue::Null), String::from("NULL"));
}
