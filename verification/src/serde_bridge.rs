//! The JSON crate's values, numbers, maps and text, as the library uses them.

use crate::json::JsonView;
use serde_json::{Number, Value};
use vstd::prelude::*;

verus! {

/// A JSON number of `serde_json`.
#[verifier::external_type_specification]
#[verifier::external_body]
pub struct ExNumber(serde_json::Number);

/// A JSON value of `serde_json`.
#[verifier::external_type_specification]
#[verifier::external_body]
pub struct ExValue(serde_json::Value);

/// The error of `serde_json`.
#[verifier::external_type_specification]
#[verifier::external_body]
pub struct ExJsonError(serde_json::Error);

/// The map of `serde_json`.
#[verifier::external_type_specification]
#[verifier::external_body]
#[verifier::reject_recursive_types(K)]
#[verifier::reject_recursive_types(V)]
pub struct ExJsonMap<K, V>(serde_json::Map<K, V>);

/// The document that a value of the JSON crate holds.
pub uninterp spec fn json_of(value: serde_json::Value) -> JsonView;

/// The names and documents that a map of the JSON crate holds.
pub uninterp spec fn map_contents(
    map: serde_json::Map<String, serde_json::Value>,
) -> Map<Seq<char>, JsonView>;

/// What `Number::as_u64` gives.
pub uninterp spec fn number_u64(number: serde_json::Number) -> Option<u64>;

/// What `Number::as_i64` gives.
pub uninterp spec fn number_i64(number: serde_json::Number) -> Option<i64>;

/// What `serde_json::from_slice` reads from a text: the document, or the
/// message of the error.
pub uninterp spec fn parsed_json(text: Seq<u8>) -> Result<JsonView, Seq<char>>;

/// The message of an error of the JSON crate.
pub uninterp spec fn json_error_message(error: serde_json::Error) -> Seq<char>;

/// The text that `serde_json::to_vec` writes for a document.
pub uninterp spec fn json_text(json: JsonView) -> Seq<u8>;

/// One level of a value of the JSON crate.
pub enum ValueNode {
    Null,
    Bool(bool),
    Number(serde_json::Number),
    Text(String),
    Items(Vec<serde_json::Value>),
    Fields(serde_json::Map<String, serde_json::Value>),
}

/// The document that a number is: a 64-bit integer by its value, any other
/// number as it stands.
pub open spec fn number_view(number: serde_json::Number) -> JsonView {
    match number_u64(number) {
        Some(n) => JsonView::Int(n as int),
        None => match number_i64(number) {
            Some(n) => JsonView::Int(n as int),
            None => JsonView::Real(number),
        },
    }
}

/// The documents of a list of values.
pub open spec fn values_view(values: Seq<serde_json::Value>) -> Seq<JsonView> {
    values.map_values(|value: serde_json::Value| json_of(value))
}

/// The object that the first `n` entries make; of two entries with one name
/// the later counts.
pub open spec fn entries_map(
    entries: Seq<(String, serde_json::Value)>,
    n: nat,
) -> Map<Seq<char>, JsonView>
    decreases n,
{
    if n == 0 || n > entries.len() {
        Map::empty()
    } else {
        entries_map(entries, (n - 1) as nat).insert(entries[n - 1].0@, json_of(entries[n - 1].1))
    }
}

/// The object without a name.
pub open spec fn no_fields() -> Map<Seq<char>, JsonView> {
    Map::empty()
}

/// The document that one level of a value stands for.
pub open spec fn node_view(node: ValueNode) -> JsonView {
    match node {
        ValueNode::Null => JsonView::Null,
        ValueNode::Bool(flag) => JsonView::Bool(flag),
        ValueNode::Number(number) => number_view(number),
        ValueNode::Text(text) => JsonView::Text(text@),
        ValueNode::Items(values) => JsonView::Items(values_view(values@)),
        ValueNode::Fields(map) => JsonView::Fields(map_contents(map)),
    }
}

/// A document whose text reads back as the document: no number in it but
/// 64-bit integers, and arrays and objects nested at most `depth` deep.
pub open spec fn reads_back(json: JsonView, depth: nat) -> bool
    decreases depth,
{
    match json {
        JsonView::Real(_) => false,
        JsonView::Items(items) => depth > 0 && forall|i: int|
            0 <= i < items.len() ==> reads_back(#[trigger] items[i], (depth - 1) as nat),
        JsonView::Fields(fields) => depth > 0 && forall|name: Seq<char>|
            fields.dom().contains(name) ==> reads_back(
                #[trigger] fields[name],
                (depth - 1) as nat,
            ),
        _ => true,
    }
}

/// A text that reads as a document.
pub open spec fn reads_as(text: Seq<u8>, json: JsonView) -> bool {
    parsed_json(text) == Ok::<JsonView, Seq<char>>(json)
}

/// The text `{}`.
pub open spec fn is_empty_object(text: Seq<u8>) -> bool {
    text.len() == 2 && text[0] == 0x7b && text[1] == 0x7d
}

/// Calls `serde_json::from_slice` for a value. The outcome depends on the
/// bytes alone; `{}` is the object without a name.
#[verifier::external_body]
pub(crate) fn parse_value(bytes: &[u8]) -> (parsed: Result<Value, serde_json::Error>)
    ensures
        match parsed {
            Ok(value) => parsed_json(bytes@) == Ok::<JsonView, Seq<char>>(json_of(value)),
            Err(error) => parsed_json(bytes@) == Err::<JsonView, Seq<char>>(
                json_error_message(error),
            ),
        },
        is_empty_object(bytes@) ==> parsed is Ok && json_of(parsed->Ok_0) == JsonView::Fields(
            no_fields(),
        ),
{
    serde_json::from_slice::<Value>(bytes)
}

/// Renders an error of the JSON crate through its `Display`.
#[verifier::external_body]
pub(crate) fn json_error_text(error: &serde_json::Error) -> (text: String)
    ensures
        text@ == json_error_message(*error),
{
    error.to_string()
}

/// Calls `serde_json::to_vec` on a value. A value always has a text: its maps
/// have string keys, and a vector takes every write. `serde_json::from_slice`
/// reads the text back as the value where it is nested at most 127 deep, the
/// crate's limit; a number with a fraction can lose its last digit on the way,
/// so nothing is said of those.
#[verifier::external_body]
pub(crate) fn value_bytes(value: &Value) -> (written: Result<Vec<u8>, serde_json::Error>)
    ensures
        written is Ok,
        written->Ok_0@ == json_text(json_of(*value)),
        reads_back(json_of(*value), 127) ==> reads_as(written->Ok_0@, json_of(*value)),
{
    serde_json::to_vec(value)
}

/// Takes a value apart by its variant, one level deep.
#[verifier::external_body]
pub(crate) fn open_value(value: Value) -> (node: ValueNode)
    ensures
        json_of(value) == node_view(node),
{
    match value {
        Value::Null => ValueNode::Null,
        Value::Bool(flag) => ValueNode::Bool(flag),
        Value::Number(number) => ValueNode::Number(number),
        Value::String(text) => ValueNode::Text(text),
        Value::Array(items) => ValueNode::Items(items),
        Value::Object(map) => ValueNode::Fields(map),
    }
}

/// Puts a value together from one level.
#[verifier::external_body]
pub(crate) fn seal_value(node: ValueNode) -> (value: Value)
    ensures
        json_of(value) == node_view(node),
{
    match node {
        ValueNode::Null => Value::Null,
        ValueNode::Bool(flag) => Value::Bool(flag),
        ValueNode::Number(number) => Value::Number(number),
        ValueNode::Text(text) => Value::String(text),
        ValueNode::Items(items) => Value::Array(items),
        ValueNode::Fields(map) => Value::Object(map),
    }
}

/// Calls `Map::new`: a map with no entry.
#[verifier::external_body]
pub(crate) fn map_new() -> (map: serde_json::Map<String, Value>)
    ensures
        map_contents(map) == no_fields(),
{
    serde_json::Map::new()
}

/// Calls `Map::insert`: a name that is there already gets the new value.
#[verifier::external_body]
pub(crate) fn map_insert(map: &mut serde_json::Map<String, Value>, name: String, value: Value)
    ensures
        map_contents(*final(map)) == map_contents(*old(map)).insert(name@, json_of(value)),
{
    map.insert(name, value);
}

/// Hands out the entries of a map through its `IntoIterator`: each name once.
#[verifier::external_body]
pub(crate) fn map_entries(map: serde_json::Map<String, Value>) -> (entries: Vec<(String, Value)>)
    ensures
        entries_map(entries@, entries@.len()) == map_contents(map),
        forall|i: int, j: int|
            0 <= i < j < entries@.len() ==> #[trigger] entries@[i].0@ != #[trigger] entries@[j].0@,
{
    map.into_iter().collect()
}

/// `Number::as_u64`, by its name.
pub assume_specification[ serde_json::Number::as_u64 ](number: &serde_json::Number) -> (n: Option<u64>)
    ensures
        n == number_u64(*number),
;

/// `Number::as_i64`, by its name.
pub assume_specification[ serde_json::Number::as_i64 ](number: &serde_json::Number) -> (n: Option<i64>)
    ensures
        n == number_i64(*number),
;

/// `Number::from` on an unsigned integer: a number with that value.
#[verifier::external_body]
pub(crate) fn number_from_u64(n: u64) -> (number: Number)
    ensures
        number_view(number) == JsonView::Int(n as int),
{
    Number::from(n)
}

/// `Number::from` on a signed integer: a number with that value.
#[verifier::external_body]
pub(crate) fn number_from_i64(n: i64) -> (number: Number)
    ensures
        number_view(number) == JsonView::Int(n as int),
{
    Number::from(n)
}

/// The derived `Clone` of a number copies it.
pub assume_specification[ <serde_json::Number as Clone>::clone ](number: &serde_json::Number) -> (copy: serde_json::Number)
    ensures
        copy == *number,
;

/// One level of a value is a document of its own kind: flags and texts with
/// their values, an array with the documents of its values in order, an object
/// with what its map holds.
pub proof fn law_level_is_its_document(node: ValueNode)
    ensures
        node is Null ==> node_view(node) is Null,
        node matches ValueNode::Bool(flag) ==> node_view(node) == JsonView::Bool(flag),
        node matches ValueNode::Text(text) ==> node_view(node) == JsonView::Text(text@),
        node matches ValueNode::Items(values) ==> node_view(node) is Items && node_view(
            node,
        )->Items_0.len() == values@.len() && forall|i: int|
            0 <= i < values@.len() ==> #[trigger] node_view(node)->Items_0[i] == json_of(
                values@[i],
            ),
        node matches ValueNode::Fields(map) ==> node_view(node) == JsonView::Fields(
            map_contents(map),
        ),
{
}

/// Whatever holds no number but 64-bit integers reads back: a flag, an integer
/// and a text at any depth, and an array or an object one level above what is
/// in it.
pub proof fn law_integers_and_texts_read_back(json: JsonView, depth: nat)
    ensures
        json is Null || json is Bool || json is Int || json is Text ==> reads_back(json, depth),
        json matches JsonView::Items(items) ==> ((forall|i: int|
            0 <= i < items.len() ==> reads_back(#[trigger] items[i], depth)) ==> reads_back(
            json,
            depth + 1,
        )),
        json matches JsonView::Fields(fields) ==> ((forall|name: Seq<char>|
            fields.dom().contains(name) ==> reads_back(#[trigger] fields[name], depth))
            ==> reads_back(json, depth + 1)),
{
}

} // verus!
