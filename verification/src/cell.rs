//! Cell values as the converter reads them.

use vstd::prelude::*;
use crate::json::{number_value, JsonNumber};

verus! {

/// One typed cell of a sheet.
#[derive(Debug, Clone, PartialEq, Eq)]
pub enum CellValue {
    Int(i64),
    /// A floating-point cell: its JSON number, which is absent where the cell
    /// holds NaN or an infinity, and the text that the cell renders to.
    Float(Option<serde_json::Number>, String),
    Text(String),
    Bool(bool),
    Empty,
    /// A cell of any other workbook-native kind (a date, a duration, an
    /// error), by the text that it renders to.
    Other(String),
}

/// The mathematical value of a [`CellValue`].
pub enum CellModel {
    Int(i64),
    Float(Option<JsonNumber>, Seq<char>),
    Text(Seq<char>),
    Bool(bool),
    Empty,
    Other(Seq<char>),
}

impl View for CellValue {
    type V = CellModel;

    open spec fn view(&self) -> CellModel {
        match *self {
            CellValue::Int(i) => CellModel::Int(i),
            CellValue::Float(Some(n), text) => CellModel::Float(Some(number_value(n)), text@),
            CellValue::Float(None, text) => CellModel::Float(None, text@),
            CellValue::Text(s) => CellModel::Text(s@),
            CellValue::Bool(b) => CellModel::Bool(b),
            CellValue::Empty => CellModel::Empty,
            CellValue::Other(s) => CellModel::Other(s@),
        }
    }
}

/// The cells of a row, each by its view.
pub open spec fn row_model(row: Seq<CellValue>) -> Seq<CellModel> {
    row.map_values(|c: CellValue| c@)
}

/// The rows of a sheet, each by its model.
pub open spec fn sheet_model(rows: Seq<Vec<CellValue>>) -> Seq<Seq<CellModel>> {
    rows.map_values(|r: Vec<CellValue>| row_model(r@))
}

} // verus!
