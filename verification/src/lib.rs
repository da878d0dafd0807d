//! Turns the rows of a spreadsheet sheet into a JSON value tree: one object
//! per data row, keyed by a normalised header row, or one array per row.

pub mod cell;
pub mod json;
pub mod keys;
pub mod convert;
pub mod laws;
