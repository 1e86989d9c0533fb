//! calajson converts a workbook (an ordered list of named sheets, each a grid
//! of cell values) into a stream of newline-delimited JSON records: one meta
//! record, one record per sheet, and one record per row.
//!
//! The exact text of every record, and the order of the records in the
//! stream, are specified by spec functions and proved of the executable
//! encoders.

pub mod json;
pub mod records;
pub mod stream;
pub mod laws;
