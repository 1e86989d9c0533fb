//! The exact text of each record kind, including the escaping of sheet
//! names and cell values.

use calajson::records::{Cell, Json, Meta, Row, Sheet};

#[test]
fn meta_line_is_exact() {
    let m = Meta { version: 0 };
    assert_eq!(m.to_json(), "{\"type\":\"meta\",\"version\":0}");
}

#[test]
fn meta_line_other_version() {
    let m = Meta { version: 42 };
    assert_eq!(m.to_json(), "{\"type\":\"meta\",\"version\":42}");
}

#[test]
fn sheet_line_is_exact() {
    let s = Sheet::new(3, "Sheet 1");
    assert_eq!(s.to_json(), "{\"type\":\"sheet\",\"idx\":3,\"name\":\"Sheet 1\"}");
}

#[test]
fn sheet_empty_name() {
    let s = Sheet::new(0, "");
    assert_eq!(s.to_json(), "{\"type\":\"sheet\",\"idx\":0,\"name\":\"\"}");
}

#[test]
fn sheet_name_escapes() {
    let s = Sheet::new(0, "a\"b\\c\nd\te\u{8}f\u{c}g\rh\u{1}i");
    assert_eq!(
        s.to_json(),
        "{\"type\":\"sheet\",\"idx\":0,\"name\":\"a\\\"b\\\\c\\nd\\te\\bf\\fg\\rh\\u0001i\"}"
    );
}

#[test]
fn sheet_name_control_chars_two_hex_digits() {
    let s = Sheet::new(0, "\u{0}\u{b}\u{e}\u{1f}");
    assert_eq!(
        s.to_json(),
        "{\"type\":\"sheet\",\"idx\":0,\"name\":\"\\u0000\\u000b\\u000e\\u001f\"}"
    );
}

#[test]
fn sheet_name_unicode_untouched() {
    let s = Sheet::new(7, "Übersicht π");
    assert_eq!(s.to_json(), "{\"type\":\"sheet\",\"idx\":7,\"name\":\"Übersicht π\"}");
}

#[test]
fn sheet_large_index() {
    let s = Sheet::new(u32::MAX, "x");
    assert_eq!(s.to_json(), "{\"type\":\"sheet\",\"idx\":4294967295,\"name\":\"x\"}");
}

#[test]
fn row_line_is_exact() {
    let sheet = Sheet::new(0, "Sheet 1");
    let cells = vec![
        Cell::Value(String::from("a")),
        Cell::Empty,
        Cell::Value(String::from("75.99")),
    ];
    let row = Row::new(1, &sheet, &cells);
    assert_eq!(
        row.to_json(),
        "{\"type\":\"row\",\"idx\":1,\"sheet\":0,\"data\":[\"a\",null,\"75.99\"]}"
    );
}

#[test]
fn row_empty_data() {
    let sheet = Sheet::new(2, "s");
    let cells: Vec<Cell> = Vec::new();
    let row = Row::new(0, &sheet, &cells);
    assert_eq!(row.to_json(), "{\"type\":\"row\",\"idx\":0,\"sheet\":2,\"data\":[]}");
}

#[test]
fn row_single_empty_cell() {
    let sheet = Sheet::new(0, "s");
    let cells = vec![Cell::Empty];
    let row = Row::new(0, &sheet, &cells);
    assert_eq!(row.to_json(), "{\"type\":\"row\",\"idx\":0,\"sheet\":0,\"data\":[null]}");
}

#[test]
fn row_cell_value_escapes() {
    let sheet = Sheet::new(0, "s");
    let cells = vec![Cell::Value(String::from("he said \"hi\"\n"))];
    let row = Row::new(0, &sheet, &cells);
    assert_eq!(
        row.to_json(),
        "{\"type\":\"row\",\"idx\":0,\"sheet\":0,\"data\":[\"he said \\\"hi\\\"\\n\"]}"
    );
}

#[test]
fn row_references_sheet_by_index_only() {
    let sheet = Sheet::new(9, "name does not appear in rows");
    let cells = vec![Cell::Value(String::from("v"))];
    let row = Row::new(4, &sheet, &cells);
    assert_eq!(row.to_json(), "{\"type\":\"row\",\"idx\":4,\"sheet\":9,\"data\":[\"v\"]}");
}
