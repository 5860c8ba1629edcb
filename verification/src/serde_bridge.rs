//! What the library takes on trust about `serde_json`.

use vstd::prelude::*;
use vstd::string::*;
use crate::digits::signed_decimal;
use crate::json::JsonTree;

verus! {

/// A JSON number of `serde_json`.
#[verifier::external_type_specification]
#[verifier::external_body]
pub struct ExNumber(serde_json::Number);

/// A JSON value of `serde_json`.
#[verifier::external_type_specification]
#[verifier::external_body]
pub struct ExValue(serde_json::Value);

/// A JSON object of `serde_json`.
#[verifier::external_type_specification]
#[verifier::external_body]
#[verifier::reject_recursive_types(K)]
#[verifier::reject_recursive_types(V)]
pub struct ExMap<K, V>(serde_json::Map<K, V>);

/// The JSON text of a number: what `serde_json` writes for it.
pub uninterp spec fn number_text(number: serde_json::Number) -> Seq<char>;

/// What a `serde_json::Value` holds.
pub uninterp spec fn value_tree(value: serde_json::Value) -> JsonTree;

/// What a `serde_json::Map` holds.
pub uninterp spec fn map_entries(
    map: serde_json::Map<String, serde_json::Value>,
) -> Map<Seq<char>, JsonTree>;

/// The compact JSON text of a value. With the default features of `serde_json` an
/// object is written in the order of its keys, so the text depends on the value alone.
pub uninterp spec fn json_text(tree: JsonTree) -> Seq<char>;

/// The value that a JSON text writes, if `serde_json` takes it for JSON.
pub uninterp spec fn parsed_json(bytes: Seq<u8>) -> Option<JsonTree>;

/// One level of a `serde_json::Value`.
pub enum ValueParts {
    Null,
    Bool(bool),
    Number(serde_json::Number),
    Text(String),
    Array(Vec<serde_json::Value>),
    Object(serde_json::Map<String, serde_json::Value>),
}

/// What a list of values holds.
pub open spec fn value_trees(values: Seq<serde_json::Value>) -> Seq<JsonTree> {
    values.map_values(|value: serde_json::Value| value_tree(value))
}

/// An object without entries.
pub open spec fn no_entries() -> Map<Seq<char>, JsonTree> {
    Map::empty()
}

/// The map that a list of entries makes, later entries in place of earlier ones.
pub open spec fn value_entries(entries: Seq<(String, serde_json::Value)>) -> Map<
    Seq<char>,
    JsonTree,
>
    decreases entries.len(),
{
    if entries.len() == 0 {
        Map::empty()
    } else {
        value_entries(entries.drop_last()).insert(entries.last().0@, value_tree(entries.last().1))
    }
}

/// No key occurs twice.
pub open spec fn distinct_keys(entries: Seq<(String, serde_json::Value)>) -> bool {
    forall|i: int, j: int|
        0 <= i < j < entries.len() ==> (#[trigger] entries[i]).0@ != (#[trigger] entries[j]).0@
}

impl ValueParts {
    /// What the value made of these parts holds.
    pub open spec fn tree(self) -> JsonTree {
        match self {
            ValueParts::Null => JsonTree::Null,
            ValueParts::Bool(b) => JsonTree::Bool(b),
            ValueParts::Number(n) => JsonTree::Number(number_text(n)),
            ValueParts::Text(s) => JsonTree::Text(s@),
            ValueParts::Array(values) => JsonTree::Array(value_trees(values@)),
            ValueParts::Object(map) => JsonTree::Object(map_entries(map)),
        }
    }
}

/// `serde_json::Map::new` makes an object without entries.
#[verifier::external_body]
pub(crate) fn new_map() -> (map: serde_json::Map<String, serde_json::Value>)
    ensures
        map_entries(map) == no_entries(),
{
    serde_json::Map::new()
}

/// `serde_json::Map::insert` puts the value under the key, in place of the one that was
/// there, and leaves the other entries as they are.
#[verifier::external_body]
pub(crate) fn map_insert(
    map: &mut serde_json::Map<String, serde_json::Value>,
    key: String,
    value: serde_json::Value,
)
    ensures
        map_entries(*final(map)) == map_entries(*old(map)).insert(key@, value_tree(value)),
{
    map.insert(key, value);
}

/// `serde_json::Map::into_iter` gives the entries of an object, each key once.
#[verifier::external_body]
pub(crate) fn map_into_entries(map: serde_json::Map<String, serde_json::Value>) -> (entries: Vec<
    (String, serde_json::Value),
>)
    ensures
        value_entries(entries@) == map_entries(map),
        distinct_keys(entries@),
{
    map.into_iter().collect()
}

/// Makes a `serde_json::Value` by its constructors: it holds what the parts say.
#[verifier::external_body]
pub(crate) fn value_from_parts(parts: ValueParts) -> (value: serde_json::Value)
    ensures
        value_tree(value) == parts.tree(),
{
    match parts {
        ValueParts::Null => serde_json::Value::Null,
        ValueParts::Bool(b) => serde_json::Value::Bool(b),
        ValueParts::Number(n) => serde_json::Value::Number(n),
        ValueParts::Text(s) => serde_json::Value::String(s),
        ValueParts::Array(values) => serde_json::Value::Array(values),
        ValueParts::Object(map) => serde_json::Value::Object(map),
    }
}

/// Takes a `serde_json::Value` apart, one level deep: the parts say what it holds.
#[verifier::external_body]
pub(crate) fn value_into_parts(value: serde_json::Value) -> (parts: ValueParts)
    ensures
        parts.tree() == value_tree(value),
{
    match value {
        serde_json::Value::Null => ValueParts::Null,
        serde_json::Value::Bool(b) => ValueParts::Bool(b),
        serde_json::Value::Number(n) => ValueParts::Number(n),
        serde_json::Value::String(s) => ValueParts::Text(s),
        serde_json::Value::Array(values) => ValueParts::Array(values),
        serde_json::Value::Object(map) => ValueParts::Object(map),
    }
}

/// `serde_json::Number::clone` gives a number with the same JSON text.
pub assume_specification[ <serde_json::Number as Clone>::clone ](
    number: &serde_json::Number,
) -> (r: serde_json::Number)
    ensures
        number_text(r) == number_text(*number),
;

/// `serde_json::Number::from` makes a number of an integer; its JSON text is the
/// integer in decimal.
#[verifier::external_body]
pub(crate) fn number_from_i64(n: i64) -> (number: serde_json::Number)
    ensures
        number_text(number) == signed_decimal(n as int),
{
    serde_json::Number::from(n)
}

/// `serde_json::Value`'s `to_string` writes the value as compact JSON text. The text
/// depends on what the value holds alone; that of a number is the number's own.
#[verifier::external_body]
pub(crate) fn value_text(value: &serde_json::Value) -> (text: String)
    ensures
        text@ == json_text(value_tree(*value)),
        value_tree(*value) matches JsonTree::Number(number) ==> text@ == number,
{
    value.to_string()
}

/// `serde_json::from_slice` reads a JSON text, and fails on what it does not take for
/// one. What it reads depends on the bytes alone.
#[verifier::external_body]
pub(crate) fn value_from_slice(bytes: &[u8]) -> (value: Option<serde_json::Value>)
    ensures
        parsed_json(bytes@) == match value {
            Some(v) => Some(value_tree(v)),
            None => None,
        },
{
    serde_json::from_slice(bytes).ok()
}

} // verus!
