//! JSON values of `serde_json`, and what the converter claims of them.

use vstd::prelude::*;

verus! {

/// `serde_json::Value`, carried as an opaque value: what it holds is
/// spoken of through [`json_tree`].
#[verifier::external_type_specification]
#[verifier::external_body]
pub struct ExValue(serde_json::Value);

/// `serde_json::Number`, carried as an opaque value: what it holds is
/// spoken of through [`number_value`].
#[verifier::external_type_specification]
#[verifier::external_body]
pub struct ExNumber(serde_json::Number);

/// `serde_json::Map`, carried as an opaque value: what it holds is spoken
/// of through [`json_entries`].
#[verifier::external_type_specification]
#[verifier::external_body]
#[verifier::reject_recursive_types(K)]
#[verifier::reject_recursive_types(V)]
pub struct ExMap<K, V>(serde_json::Map<K, V>);

/// A JSON number: an exact integer, or a finite floating-point number given
/// by the 64 bits of its binary64 encoding.
pub enum JsonNumber {
    Int(int),
    Float(u64),
}

/// A JSON document as a mathematical tree. An object is a map: it holds one
/// value per key and has no order.
pub enum JsonTree {
    Null,
    Bool(bool),
    Number(JsonNumber),
    Text(Seq<char>),
    Array(Seq<JsonTree>),
    Object(Map<Seq<char>, JsonTree>),
}

/// The number that a `serde_json::Number` holds.
pub uninterp spec fn number_value(n: serde_json::Number) -> JsonNumber;

/// The tree that a `serde_json::Value` holds.
pub uninterp spec fn json_tree(v: serde_json::Value) -> JsonTree;

/// The entries that a `serde_json::Map` holds.
pub uninterp spec fn json_entries(m: serde_json::Map<String, serde_json::Value>) -> Map<
    Seq<char>,
    JsonTree,
>;

/// The trees of a sequence of values, in order.
pub open spec fn trees_of(values: Seq<serde_json::Value>) -> Seq<JsonTree> {
    values.map_values(|v: serde_json::Value| json_tree(v))
}

/// The entries of an object without keys.
pub open spec fn no_entries() -> Map<Seq<char>, JsonTree> {
    Map::empty()
}

/// `serde_json::Value::Null`: the value is JSON `null`.
#[verifier::external_body]
pub(crate) fn json_null() -> (v: serde_json::Value)
    ensures
        json_tree(v) == JsonTree::Null,
{
    serde_json::Value::Null
}

/// `serde_json::Value::Bool`: the value is the given boolean.
#[verifier::external_body]
pub(crate) fn json_bool(b: bool) -> (v: serde_json::Value)
    ensures
        json_tree(v) == JsonTree::Bool(b),
{
    serde_json::Value::Bool(b)
}

/// `serde_json::Number::from` on an `i64`: the value is a JSON number that
/// holds exactly that integer.
#[verifier::external_body]
pub(crate) fn json_int(i: i64) -> (v: serde_json::Value)
    ensures
        json_tree(v) == JsonTree::Number(JsonNumber::Int(i as int)),
{
    serde_json::Value::Number(serde_json::Number::from(i))
}

/// `serde_json::Value::Number` on a copy of the given number: the value is
/// that number.
#[verifier::external_body]
pub(crate) fn json_number(n: &serde_json::Number) -> (v: serde_json::Value)
    ensures
        json_tree(v) == JsonTree::Number(number_value(*n)),
{
    serde_json::Value::Number(n.clone())
}

/// `serde_json::Value::String`: the value is the given text.
#[verifier::external_body]
pub(crate) fn json_string(s: String) -> (v: serde_json::Value)
    ensures
        json_tree(v) == JsonTree::Text(s@),
{
    serde_json::Value::String(s)
}

/// `serde_json::Value::Array`: the value is the array of the given values,
/// in their order.
#[verifier::external_body]
pub(crate) fn json_array(items: Vec<serde_json::Value>) -> (v: serde_json::Value)
    ensures
        json_tree(v) == JsonTree::Array(trees_of(items@)),
{
    serde_json::Value::Array(items)
}

/// `serde_json::Value::Object`: the value is the object with the map's
/// entries.
#[verifier::external_body]
pub(crate) fn json_object(m: serde_json::Map<String, serde_json::Value>) -> (v: serde_json::Value)
    ensures
        json_tree(v) == JsonTree::Object(json_entries(m)),
{
    serde_json::Value::Object(m)
}

/// `serde_json::Map::new`: a map without entries.
#[verifier::external_body]
pub(crate) fn map_new() -> (m: serde_json::Map<String, serde_json::Value>)
    ensures
        json_entries(m) == no_entries(),
{
    serde_json::Map::new()
}

/// `serde_json::Map::insert`: the key now maps to the value, whether or not
/// it was present before; every other entry stays.
#[verifier::external_body]
pub(crate) fn map_insert(
    m: &mut serde_json::Map<String, serde_json::Value>,
    k: String,
    v: serde_json::Value,
)
    ensures
        json_entries(*final(m)) == json_entries(*old(m)).insert(k@, json_tree(v)),
{
    m.insert(k, v);
}

} // verus!
