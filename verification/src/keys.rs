//! The text of a cell, and the object keys derived from a header row.

use vstd::prelude::*;
use crate::cell::{row_model, CellModel, CellValue};

verus! {

/// The lower-case form that `str::to_lowercase` gives a text.
pub uninterp spec fn lowercase_of(s: Seq<char>) -> Seq<char>;

/// `Display` of `calamine::DataType` on an integer cell: the text is the
/// integer in decimal, with a minus sign before a negative one.
#[verifier::external_body]
fn int_text(i: i64) -> (s: String)
    ensures
        s@ == int_rendering(i as int),
{
    calamine::DataType::Int(i).to_string()
}

/// `Display` of `calamine::DataType` on a boolean cell: the text is `true`
/// or `false`.
#[verifier::external_body]
fn bool_text(b: bool) -> (s: String)
    ensures
        s@ == bool_rendering(b),
{
    calamine::DataType::Bool(b).to_string()
}

/// `str::to_lowercase`: the text is a function of the input alone.
#[verifier::external_body]
fn lowercase(s: &str) -> (r: String)
    ensures
        r@ == lowercase_of(s@),
{
    s.to_lowercase()
}

/// The decimal digits of a natural number, without leading zeros.
pub open spec fn decimal_digits(n: nat) -> Seq<char>
    decreases n,
{
    if n < 10 {
        seq![((48 + n) as u8) as char]
    } else {
        decimal_digits(n / 10).push(((48 + n % 10) as u8) as char)
    }
}

/// The text of an integer cell.
pub open spec fn int_rendering(i: int) -> Seq<char> {
    if i < 0 {
        seq!['-'] + decimal_digits((-i) as nat)
    } else {
        decimal_digits(i as nat)
    }
}

/// The text of a boolean cell.
pub open spec fn bool_rendering(b: bool) -> Seq<char> {
    if b {
        "true"@
    } else {
        "false"@
    }
}

/// The text that a cell renders to.
pub open spec fn text_of(c: CellModel) -> Seq<char> {
    match c {
        CellModel::Int(i) => int_rendering(i as int),
        CellModel::Float(_, text) => text,
        CellModel::Text(s) => s,
        CellModel::Bool(b) => bool_rendering(b),
        CellModel::Empty => Seq::empty(),
        CellModel::Other(text) => text,
    }
}

/// A text with each space replaced by an underscore.
pub open spec fn underscore_spaces(s: Seq<char>) -> Seq<char> {
    s.map_values(
        |c: char|
            if c == ' ' {
                '_'
            } else {
                c
            },
    )
}

/// A text with its periods left out.
pub open spec fn without_periods(s: Seq<char>) -> Seq<char>
    decreases s.len(),
{
    if s.len() == 0 {
        Seq::empty()
    } else if s.last() == '.' {
        without_periods(s.drop_last())
    } else {
        without_periods(s.drop_last()).push(s.last())
    }
}

/// A header text with its spaces replaced by underscores and its periods
/// left out.
pub open spec fn stripped(text: Seq<char>) -> Seq<char> {
    without_periods(underscore_spaces(text))
}

/// The object key that a header text stands for: spaces become
/// underscores, periods go, and what is left is lower-cased.
pub open spec fn key_of(text: Seq<char>) -> Seq<char> {
    lowercase_of(stripped(text))
}

/// The object keys of a header row, one per cell, in order.
pub open spec fn header_keys(header: Seq<CellModel>) -> Seq<Seq<char>> {
    header.map_values(|c: CellModel| key_of(text_of(c)))
}

/// The views of a sequence of strings.
pub open spec fn key_texts(keys: Seq<String>) -> Seq<Seq<char>> {
    keys.map_values(|k: String| k@)
}

/// Renders a cell to text.
pub fn cell_text(cell: &CellValue) -> (s: String)
    ensures
        s@ == text_of(cell@),
{
    match cell {
        CellValue::Int(i) => int_text(*i),
        CellValue::Float(_, text) => text.clone(),
        CellValue::Text(t) => t.clone(),
        CellValue::Bool(b) => bool_text(*b),
        CellValue::Empty => String::new(),
        CellValue::Other(text) => text.clone(),
    }
}

/// Replaces each space by an underscore.
pub fn replace_spaces(s: &str) -> (out: String)
    ensures
        out@ == underscore_spaces(s@),
{
    let n: usize = s.unicode_len();
    let mut out = String::new();
    let mut i: usize = 0;
    while i < n
        invariant
            n == s@.len(),
            i <= n,
            out@ == underscore_spaces(s@.take(i as int)),
        decreases n - i,
    {
        let c = s.get_char(i);
        if c == ' ' {
            proof {
                reveal_strlit("_");
            }
            out.append("_");
        } else {
            out.append(s.substring_char(i, i + 1));
        }
        assert(out@ =~= underscore_spaces(s@.take(i + 1)));
        i += 1;
    }
    assert(s@.take(n as int) =~= s@);
    out
}

/// Removes every period.
pub fn remove_periods(s: &str) -> (out: String)
    ensures
        out@ == without_periods(s@),
{
    let n: usize = s.unicode_len();
    let mut out = String::new();
    let mut i: usize = 0;
    while i < n
        invariant
            n == s@.len(),
            i <= n,
            out@ == without_periods(s@.take(i as int)),
        decreases n - i,
    {
        let c = s.get_char(i);
        assert(s@.take(i + 1).drop_last() =~= s@.take(i as int));
        if c != '.' {
            out.append(s.substring_char(i, i + 1));
            assert(out@ =~= without_periods(s@.take(i as int)).push(c));
        }
        i += 1;
    }
    assert(s@.take(n as int) =~= s@);
    out
}

/// Derives the object key of one header text.
pub fn normalize_key(text: &str) -> (key: String)
    ensures
        key@ == key_of(text@),
{
    let spaced = replace_spaces(text);
    let stripped = remove_periods(spaced.as_str());
    lowercase(stripped.as_str())
}

/// Derives the object keys of a header row: one key per cell, in the cells'
/// order. Keys that come out equal are all kept.
pub fn get_object_keys(header: &Vec<CellValue>) -> (keys: Vec<String>)
    ensures
        key_texts(keys@) == header_keys(row_model(header@)),
        keys@.len() == header@.len(),
        forall|i: int|
            0 <= i < keys@.len() ==> (#[trigger] keys@[i])@ == key_of(text_of(header@[i]@)),
{
    let mut keys: Vec<String> = Vec::new();
    let mut i: usize = 0;
    while i < header.len()
        invariant
            i <= header.len(),
            keys@.len() == i,
            forall|j: int| 0 <= j < i ==> (#[trigger] keys@[j])@ == key_of(text_of(header@[j]@)),
        decreases header.len() - i,
    {
        let text = cell_text(&header[i]);
        let key = normalize_key(text.as_str());
        keys.push(key);
        i += 1;
    }
    assert(key_texts(keys@) =~= header_keys(row_model(header@)));
    keys
}

} // verus!
