//! The row converter: cells to JSON values, rows to arrays or objects, and a
//! sheet to the sequence of its converted rows.

use vstd::prelude::*;
use crate::cell::{row_model, sheet_model, CellModel, CellValue};
use crate::json::{
    json_array, json_bool, json_entries, json_int, json_null, json_number, json_object,
    json_string, json_tree, map_insert, map_new, trees_of, JsonNumber, JsonTree,
};
use crate::keys::{get_object_keys, header_keys, key_texts};

verus! {

/// The shape of the output: one object per data row, or one array per row.
#[derive(Debug, Clone, Copy, PartialEq, Eq)]
pub enum Format {
    Object,
    List,
}

/// Why a sheet could not be converted.
#[derive(Debug, Clone, Copy, PartialEq, Eq)]
pub enum ConvertError {
    /// Object mode found no row at the header's index.
    HeaderRowMissing,
    /// A floating-point cell holds NaN or an infinity, which no JSON number
    /// can stand for.
    NonFiniteFloat,
}

/// The JSON tree of a cell; none for a floating-point cell that is not
/// finite.
pub open spec fn cell_json(c: CellModel) -> Option<JsonTree> {
    match c {
        CellModel::Int(i) => Some(JsonTree::Number(JsonNumber::Int(i as int))),
        CellModel::Float(Some(n), _) => Some(JsonTree::Number(n)),
        CellModel::Float(None, _) => None,
        CellModel::Text(s) => Some(JsonTree::Text(s)),
        CellModel::Bool(b) => Some(JsonTree::Bool(b)),
        CellModel::Empty => Some(JsonTree::Null),
        CellModel::Other(text) => Some(JsonTree::Text(text)),
    }
}

/// Whether each of the first `n` cells of a row has a JSON tree.
pub open spec fn row_convertible(row: Seq<CellModel>, n: nat) -> bool {
    forall|j: int| 0 <= j < n && j < row.len() ==> (#[trigger] cell_json(row[j])) is Some
}

/// The array that a row converts to: every cell, in order.
pub open spec fn array_of(row: Seq<CellModel>) -> JsonTree {
    JsonTree::Array(row.map_values(|c: CellModel| cell_json(c).unwrap()))
}

/// How many cells of a row are paired with a key: the shorter of the two
/// lengths.
pub open spec fn pairs(keys: Seq<Seq<char>>, row: Seq<CellModel>) -> nat {
    if keys.len() <= row.len() {
        keys.len()
    } else {
        row.len()
    }
}

/// The entries made of the first `n` keys and cells, taken in order, so
/// that a later equal key replaces the earlier entry.
pub open spec fn object_entries(keys: Seq<Seq<char>>, row: Seq<CellModel>, n: nat) -> Map<
    Seq<char>,
    JsonTree,
>
    decreases n,
{
    if n == 0 {
        Map::empty()
    } else {
        object_entries(keys, row, (n - 1) as nat).insert(
            keys[n - 1],
            cell_json(row[n - 1]).unwrap(),
        )
    }
}

/// The object that a row converts to under the given keys.
pub open spec fn object_of(keys: Seq<Seq<char>>, row: Seq<CellModel>) -> JsonTree {
    JsonTree::Object(object_entries(keys, row, pairs(keys, row)))
}

/// The rows of a sheet from index `from` on; none where the sheet is
/// shorter.
pub open spec fn kept_rows(sheet: Seq<Seq<CellModel>>, from: nat) -> Seq<Seq<CellModel>> {
    if from <= sheet.len() {
        sheet.subrange(from as int, sheet.len() as int)
    } else {
        Seq::empty()
    }
}

/// What list mode makes of a sheet: one array for each row from index
/// `skip` on, unless one of their cells has no JSON tree.
pub open spec fn lists_of(sheet: Seq<Seq<CellModel>>, skip: nat) -> Result<
    Seq<JsonTree>,
    ConvertError,
> {
    let rows = kept_rows(sheet, skip);
    if forall|i: int| 0 <= i < rows.len() ==> row_convertible(#[trigger] rows[i], rows[i].len()) {
        Ok(rows.map_values(|r: Seq<CellModel>| array_of(r)))
    } else {
        Err(ConvertError::NonFiniteFloat)
    }
}

/// What object mode makes of a sheet: the row at index `skip` gives the
/// keys, and each row after it one object, unless the header row is missing
/// or a cell that is paired with a key has no JSON tree.
pub open spec fn objects_of(sheet: Seq<Seq<CellModel>>, skip: nat) -> Result<
    Seq<JsonTree>,
    ConvertError,
> {
    if sheet.len() <= skip {
        Err(ConvertError::HeaderRowMissing)
    } else {
        let keys = header_keys(sheet[skip as int]);
        let rows = kept_rows(sheet, skip + 1);
        if forall|i: int|
            0 <= i < rows.len() ==> row_convertible(#[trigger] rows[i], pairs(keys, rows[i])) {
            Ok(rows.map_values(|r: Seq<CellModel>| object_of(keys, r)))
        } else {
            Err(ConvertError::NonFiniteFloat)
        }
    }
}

/// What the converter makes of a sheet in the given format.
pub open spec fn converted(sheet: Seq<Seq<CellModel>>, format: Format, skip: nat) -> Result<
    Seq<JsonTree>,
    ConvertError,
> {
    match format {
        Format::Object => objects_of(sheet, skip),
        Format::List => lists_of(sheet, skip),
    }
}

/// Whether an outcome is the expected one: the same error, or values whose
/// trees are the expected trees.
pub open spec fn agrees(
    r: Result<Vec<serde_json::Value>, ConvertError>,
    expected: Result<Seq<JsonTree>, ConvertError>,
) -> bool {
    match r {
        Ok(out) => expected == Ok::<Seq<JsonTree>, ConvertError>(trees_of(out@)),
        Err(e) => expected == Err::<Seq<JsonTree>, ConvertError>(e),
    }
}

impl Default for Format {
    /// Object mode is the format used where none is chosen.
    fn default() -> (format: Format)
        ensures
            format == Format::Object,
    {
        Format::Object
    }
}

impl Format {
    /// The lower-case name of the format.
    pub fn name(&self) -> (s: String)
        ensures
            s@ == (match *self {
                Format::Object => "object"@,
                Format::List => "list"@,
            }),
    {
        match self {
            Format::Object => "object".to_owned(),
            Format::List => "list".to_owned(),
        }
    }
}

/// Converts one cell to its JSON value. Fails on a floating-point cell that
/// is not finite, and on no other.
pub fn convert_values(value: &CellValue) -> (r: Result<serde_json::Value, ConvertError>)
    ensures
        match r {
            Ok(v) => cell_json(value@) == Some(json_tree(v)),
            Err(e) => cell_json(value@) is None && e == ConvertError::NonFiniteFloat,
        },
{
    match value {
        CellValue::Int(i) => Ok(json_int(*i)),
        CellValue::Float(Some(n), _) => Ok(json_number(n)),
        CellValue::Float(None, _) => Err(ConvertError::NonFiniteFloat),
        CellValue::Text(s) => Ok(json_string(s.clone())),
        CellValue::Bool(b) => Ok(json_bool(*b)),
        CellValue::Empty => Ok(json_null()),
        CellValue::Other(text) => Ok(json_string(text.clone())),
    }
}

/// Converts a row to a JSON array of all its cells, in order.
pub fn row_to_array(row: &Vec<CellValue>) -> (r: Result<serde_json::Value, ConvertError>)
    ensures
        match r {
            Ok(v) => row_convertible(row_model(row@), row@.len()) && json_tree(v) == array_of(
                row_model(row@),
            ),
            Err(e) => !row_convertible(row_model(row@), row@.len()) && e
                == ConvertError::NonFiniteFloat,
        },
{
    let ghost cells = row_model(row@);
    let mut items: Vec<serde_json::Value> = Vec::new();
    let mut j: usize = 0;
    while j < row.len()
        invariant
            j <= row.len(),
            cells == row_model(row@),
            items@.len() == j,
            forall|k: int| 0 <= k < j ==> cell_json(#[trigger] cells[k]) == Some(json_tree(items@[k])),
        decreases row.len() - j,
    {
        match convert_values(&row[j]) {
            Ok(v) => {
                items.push(v);
            },
            Err(e) => {
                assert(cell_json(cells[j as int]) is None);
                return Err(e);
            },
        }
        j += 1;
    }
    assert(trees_of(items@) =~= cells.map_values(|c: CellModel| cell_json(c).unwrap()));
    Ok(json_array(items))
}

/// Converts a row to a JSON object: the cells are paired with the keys by
/// position, up to the shorter of the two, and inserted in order. Cells
/// beyond the last key are not looked at.
pub fn row_to_object(keys: &Vec<String>, row: &Vec<CellValue>) -> (r: Result<
    serde_json::Value,
    ConvertError,
>)
    ensures
        match r {
            Ok(v) => row_convertible(row_model(row@), pairs(key_texts(keys@), row_model(row@)))
                && json_tree(v) == object_of(key_texts(keys@), row_model(row@)),
            Err(e) => !row_convertible(row_model(row@), pairs(key_texts(keys@), row_model(row@)))
                && e == ConvertError::NonFiniteFloat,
        },
{
    let ghost cells = row_model(row@);
    let ghost names = key_texts(keys@);
    let n: usize = if keys.len() <= row.len() {
        keys.len()
    } else {
        row.len()
    };
    let mut entries = map_new();
    let mut j: usize = 0;
    while j < n
        invariant
            j <= n,
            n == pairs(names, cells),
            n <= keys.len(),
            n <= row.len(),
            cells == row_model(row@),
            names == key_texts(keys@),
            json_entries(entries) == object_entries(names, cells, j as nat),
            forall|k: int| 0 <= k < j ==> (#[trigger] cell_json(cells[k])) is Some,
        decreases n - j,
    {
        match convert_values(&row[j]) {
            Ok(v) => {
                map_insert(&mut entries, keys[j].clone(), v);
            },
            Err(e) => {
                assert(cell_json(cells[j as int]) is None);
                return Err(e);
            },
        }
        j += 1;
    }
    Ok(json_object(entries))
}

/// List mode: one array for each row from index `skip` on, in the rows'
/// order. A `skip` at or beyond the end gives no arrays.
pub fn to_lists(rows: &Vec<Vec<CellValue>>, skip: usize) -> (r: Result<
    Vec<serde_json::Value>,
    ConvertError,
>)
    ensures
        agrees(r, lists_of(sheet_model(rows@), skip as nat)),
        r matches Ok(out) ==> out@.len() == if rows@.len() >= skip {
            rows@.len() - skip
        } else {
            0
        },
        r matches Ok(out) ==> forall|k: int|
            0 <= k < out@.len() ==> json_tree(#[trigger] out@[k]) == array_of(
                row_model(rows@[skip + k]@),
            ),
{
    let ghost sheet = sheet_model(rows@);
    let ghost kept = kept_rows(sheet, skip as nat);
    let mut out: Vec<serde_json::Value> = Vec::new();
    if rows.len() <= skip {
        assert(trees_of(out@) =~= kept.map_values(|r: Seq<CellModel>| array_of(r)));
        return Ok(out);
    }
    let mut i: usize = skip;
    while i < rows.len()
        invariant
            skip <= i <= rows.len(),
            sheet == sheet_model(rows@),
            kept == kept_rows(sheet, skip as nat),
            out@.len() == i - skip,
            forall|k: int|
                0 <= k < i - skip ==> row_convertible(#[trigger] kept[k], kept[k].len())
                    && json_tree(out@[k]) == array_of(kept[k]),
        decreases rows.len() - i,
    {
        assert(kept[i - skip] == row_model(rows@[i as int]@));
        match row_to_array(&rows[i]) {
            Ok(v) => {
                out.push(v);
            },
            Err(e) => {
                return Err(e);
            },
        }
        i += 1;
    }
    assert(trees_of(out@) =~= kept.map_values(|r: Seq<CellModel>| array_of(r)));
    assert forall|k: int| 0 <= k < out@.len() implies json_tree(#[trigger] out@[k]) == array_of(
        row_model(rows@[skip + k]@),
    ) by {
        assert(kept[k] == row_model(rows@[skip + k]@));
    }
    Ok(out)
}

/// Object mode: the row at index `skip` gives the keys, once, and each row
/// after it gives one object, in the rows' order. Fails where the sheet has
/// no row at index `skip`.
pub fn to_objects(rows: &Vec<Vec<CellValue>>, skip: usize) -> (r: Result<
    Vec<serde_json::Value>,
    ConvertError,
>)
    ensures
        agrees(r, objects_of(sheet_model(rows@), skip as nat)),
        rows@.len() <= skip <==> r == Err::<Vec<serde_json::Value>, ConvertError>(
            ConvertError::HeaderRowMissing,
        ),
        r matches Ok(out) ==> out@.len() == rows@.len() - skip - 1,
        r matches Ok(out) ==> forall|k: int|
            0 <= k < out@.len() ==> json_tree(#[trigger] out@[k]) == object_of(
                header_keys(row_model(rows@[skip as int]@)),
                row_model(rows@[skip + 1 + k]@),
            ),
{
    if rows.len() <= skip {
        return Err(ConvertError::HeaderRowMissing);
    }
    let ghost sheet = sheet_model(rows@);
    let ghost kept = kept_rows(sheet, (skip + 1) as nat);
    let keys = get_object_keys(&rows[skip]);
    let ghost names = key_texts(keys@);
    let mut out: Vec<serde_json::Value> = Vec::new();
    let mut i: usize = skip + 1;
    while i < rows.len()
        invariant
            skip + 1 <= i <= rows.len(),
            sheet == sheet_model(rows@),
            kept == kept_rows(sheet, (skip + 1) as nat),
            names == key_texts(keys@),
            names == header_keys(sheet[skip as int]),
            out@.len() == i - skip - 1,
            forall|k: int|
                0 <= k < i - skip - 1 ==> row_convertible(
                    #[trigger] kept[k],
                    pairs(names, kept[k]),
                ) && json_tree(out@[k]) == object_of(names, kept[k]),
        decreases rows.len() - i,
    {
        assert(kept[i - skip - 1] == row_model(rows@[i as int]@));
        match row_to_object(&keys, &rows[i]) {
            Ok(v) => {
                out.push(v);
            },
            Err(e) => {
                return Err(e);
            },
        }
        i += 1;
    }
    assert(trees_of(out@) =~= kept.map_values(|r: Seq<CellModel>| object_of(names, r)));
    assert forall|k: int| 0 <= k < out@.len() implies json_tree(#[trigger] out@[k]) == object_of(
        header_keys(row_model(rows@[skip as int]@)),
        row_model(rows@[skip + 1 + k]@),
    ) by {
        assert(kept[k] == row_model(rows@[skip + 1 + k]@));
    }
    Ok(out)
}

/// Converts a sheet in the given format. `skip` is the index of the header
/// row in object mode and of the first row kept in list mode.
pub fn convert_sheet(rows: &Vec<Vec<CellValue>>, format: Format, skip: usize) -> (r: Result<
    Vec<serde_json::Value>,
    ConvertError,
>)
    ensures
        agrees(r, converted(sheet_model(rows@), format, skip as nat)),
        format == Format::Object && rows@.len() <= skip ==> r == Err::<
            Vec<serde_json::Value>,
            ConvertError,
        >(ConvertError::HeaderRowMissing),
{
    match format {
        Format::Object => to_objects(rows, skip),
        Format::List => to_lists(rows, skip),
    }
}

} // verus!
