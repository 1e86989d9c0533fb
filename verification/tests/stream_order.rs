//! The whole stream: meta first, sheets in order, each sheet's rows
//! directly after it with indices restarting at zero, and the same output
//! for the same input.

use calajson::records::Cell;
use calajson::stream::{dump_lines, sheet_lines, SheetData};

fn v(s: &str) -> Cell {
    Cell::Value(String::from(s))
}

fn example_workbook() -> Vec<SheetData> {
    vec![
        SheetData {
            name: String::from("Sheet 1"),
            rows: vec![
                vec![v("Part Number"), v("Description"), v("Price")],
                vec![v("1328B"), v("Frob"), v("75.99")],
            ],
        },
        SheetData {
            name: String::from("Totals"),
            rows: vec![vec![v("sum"), Cell::Empty]],
        },
    ]
}

#[test]
fn end_to_end_single_sheet() {
    let wb = vec![SheetData {
        name: String::from("Sheet 1"),
        rows: vec![
            vec![v("Part Number"), v("Description"), v("Price")],
            vec![v("1328B"), v("Frob"), v("75.99")],
        ],
    }];
    let lines = dump_lines(&wb);
    assert_eq!(
        lines,
        vec![
            String::from("{\"type\":\"meta\",\"version\":0}"),
            String::from("{\"type\":\"sheet\",\"idx\":0,\"name\":\"Sheet 1\"}"),
            String::from(
                "{\"type\":\"row\",\"idx\":0,\"sheet\":0,\"data\":[\"Part Number\",\"Description\",\"Price\"]}"
            ),
            String::from(
                "{\"type\":\"row\",\"idx\":1,\"sheet\":0,\"data\":[\"1328B\",\"Frob\",\"75.99\"]}"
            ),
        ]
    );
}

#[test]
fn empty_workbook_gives_only_meta() {
    let wb: Vec<SheetData> = Vec::new();
    let lines = dump_lines(&wb);
    assert_eq!(lines, vec![String::from("{\"type\":\"meta\",\"version\":0}")]);
}

#[test]
fn sheet_with_no_rows() {
    let wb = vec![SheetData { name: String::from("Empty"), rows: Vec::new() }];
    let lines = dump_lines(&wb);
    assert_eq!(
        lines,
        vec![
            String::from("{\"type\":\"meta\",\"version\":0}"),
            String::from("{\"type\":\"sheet\",\"idx\":0,\"name\":\"Empty\"}"),
        ]
    );
}

#[test]
fn multi_sheet_order_and_indices() {
    let lines = dump_lines(&example_workbook());
    assert_eq!(
        lines,
        vec![
            String::from("{\"type\":\"meta\",\"version\":0}"),
            String::from("{\"type\":\"sheet\",\"idx\":0,\"name\":\"Sheet 1\"}"),
            String::from(
                "{\"type\":\"row\",\"idx\":0,\"sheet\":0,\"data\":[\"Part Number\",\"Description\",\"Price\"]}"
            ),
            String::from(
                "{\"type\":\"row\",\"idx\":1,\"sheet\":0,\"data\":[\"1328B\",\"Frob\",\"75.99\"]}"
            ),
            String::from("{\"type\":\"sheet\",\"idx\":1,\"name\":\"Totals\"}"),
            String::from("{\"type\":\"row\",\"idx\":0,\"sheet\":1,\"data\":[\"sum\",null]}"),
        ]
    );
}

#[test]
fn row_indices_are_independent_per_sheet() {
    // The second sheet's rows start again at idx 0 even though the first
    // sheet has more rows.
    let lines = dump_lines(&example_workbook());
    assert!(lines[5].contains("\"idx\":0,\"sheet\":1"));
    assert!(lines[3].contains("\"idx\":1,\"sheet\":0"));
}

#[test]
fn exactly_one_meta_and_it_is_first() {
    let lines = dump_lines(&example_workbook());
    assert!(lines[0].starts_with("{\"type\":\"meta\""));
    for line in lines.iter().skip(1) {
        assert!(!line.starts_with("{\"type\":\"meta\""));
    }
}

#[test]
fn same_input_same_output() {
    let first = dump_lines(&example_workbook());
    let second = dump_lines(&example_workbook());
    assert_eq!(first, second);
}

#[test]
fn sheet_lines_matches_dump_block() {
    let wb = example_workbook();
    let all = dump_lines(&wb);
    let block0 = sheet_lines(0, &wb[0]);
    let block1 = sheet_lines(1, &wb[1]);
    assert_eq!(&all[1..4], &block0[..]);
    assert_eq!(&all[4..6], &block1[..]);
}
