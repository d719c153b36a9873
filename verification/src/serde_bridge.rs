use vstd::prelude::*;

use crate::json::{no_fields, Fields, JsonTree};
use crate::text::is_space;

verus! {

#[verifier::external_type_specification]
#[verifier::external_body]
pub struct ExNumber(serde_json::Number);

#[verifier::external_type_specification]
#[verifier::external_body]
pub struct ExValue(serde_json::Value);

#[verifier::external_type_specification]
#[verifier::external_body]
#[verifier::reject_recursive_types(K)]
#[verifier::reject_recursive_types(V)]
pub struct ExMap<K, V>(serde_json::Map<K, V>);

/// What a `serde_json::Value` holds.
pub uninterp spec fn value_tree(value: serde_json::Value) -> JsonTree;

/// What a `serde_json::Map` holds.
pub uninterp spec fn map_fields(map: serde_json::Map<String, serde_json::Value>) -> Fields;

/// What `serde_json::from_str` reads from a text, where it reads anything.
pub uninterp spec fn parsed_text(text: Seq<char>) -> Option<JsonTree>;

/// What `serde_json::from_slice` reads from bytes, where it reads anything.
pub uninterp spec fn parsed_bytes(bytes: Seq<u8>) -> Option<JsonTree>;

/// The text that `serde_json::Value::to_string` writes for a value.
pub uninterp spec fn printed(tree: JsonTree) -> Seq<char>;

/// The variants of a `serde_json::Value`, laid open.
pub(crate) enum ValueShape {
    Null,
    Bool(bool),
    Number(serde_json::Number),
    Text(String),
    List(Vec<serde_json::Value>),
    Object(serde_json::Map<String, serde_json::Value>),
}

/// What the items of a list of values hold.
pub open spec fn value_list(values: Seq<serde_json::Value>) -> Seq<JsonTree> {
    values.map_values(|value: serde_json::Value| value_tree(value))
}

/// What a run of keys with their values makes, a later entry in place of an earlier one.
pub open spec fn value_entries(entries: Seq<(String, serde_json::Value)>) -> Fields
    decreases entries.len(),
{
    if entries.len() == 0 {
        Map::empty()
    } else {
        value_entries(entries.drop_last()).insert(
            entries.last().0@,
            value_tree(entries.last().1),
        )
    }
}

/// What a value of this shape holds.
pub(crate) open spec fn shape_tree(shape: ValueShape) -> JsonTree {
    match shape {
        ValueShape::Null => JsonTree::Null,
        ValueShape::Bool(value) => JsonTree::Bool(value),
        ValueShape::Number(number) => JsonTree::Number(number),
        ValueShape::Text(text) => JsonTree::Text(text@),
        ValueShape::List(items) => JsonTree::List(value_list(items@)),
        ValueShape::Object(map) => JsonTree::Object(map_fields(map)),
    }
}

/// Takes a `serde_json::Value` apart into its variant and what that carries.
#[verifier::external_body]
pub(crate) fn open_value(value: serde_json::Value) -> (shape: ValueShape)
    ensures
        shape_tree(shape) == value_tree(value),
{
    match value {
        serde_json::Value::Null => ValueShape::Null,
        serde_json::Value::Bool(value) => ValueShape::Bool(value),
        serde_json::Value::Number(number) => ValueShape::Number(number),
        serde_json::Value::String(text) => ValueShape::Text(text),
        serde_json::Value::Array(items) => ValueShape::List(items),
        serde_json::Value::Object(map) => ValueShape::Object(map),
    }
}

/// Puts a variant of `serde_json::Value` and what it carries together.
#[verifier::external_body]
pub(crate) fn close_value(shape: ValueShape) -> (value: serde_json::Value)
    ensures
        value_tree(value) == shape_tree(shape),
{
    match shape {
        ValueShape::Null => serde_json::Value::Null,
        ValueShape::Bool(value) => serde_json::Value::Bool(value),
        ValueShape::Number(number) => serde_json::Value::Number(number),
        ValueShape::Text(text) => serde_json::Value::String(text),
        ValueShape::List(items) => serde_json::Value::Array(items),
        ValueShape::Object(map) => serde_json::Value::Object(map),
    }
}

/// Wraps `serde_json::Map::new`: the map is empty.
#[verifier::external_body]
pub(crate) fn empty_map() -> (map: serde_json::Map<String, serde_json::Value>)
    ensures
        map_fields(map) == no_fields(),
{
    serde_json::Map::new()
}

/// Wraps `serde_json::Map::insert`: the value stands under the key, in place of what was there.
#[verifier::external_body]
pub(crate) fn map_insert(
    map: &mut serde_json::Map<String, serde_json::Value>,
    key: String,
    value: serde_json::Value,
)
    ensures
        map_fields(*final(map)) == map_fields(*old(map)).insert(key@, value_tree(value)),
{
    map.insert(key, value);
}

/// Wraps `serde_json::Map::into_iter`: each key once, with its value.
#[verifier::external_body]
pub(crate) fn map_entries(map: serde_json::Map<String, serde_json::Value>) -> (entries: Vec<
    (String, serde_json::Value),
>)
    ensures
        value_entries(entries@) == map_fields(map),
        forall|i: int, j: int|
            0 <= i < j < entries@.len() ==> (#[trigger] entries@[i]).0@ != (
            #[trigger] entries@[j]).0@,
{
    map.into_iter().collect()
}

/// Wraps `serde_json::from_str` at `serde_json::Value`.
#[verifier::external_body]
pub(crate) fn parse_value(text: &str) -> (value: Option<serde_json::Value>)
    ensures
        value is Some == parsed_text(text@) is Some,
        value matches Some(value) ==> Some(value_tree(value)) == parsed_text(text@),
{
    serde_json::from_str(text).ok()
}

/// Wraps `serde_json::from_slice` at `serde_json::Value`.
#[verifier::external_body]
pub(crate) fn parse_value_bytes(bytes: &[u8]) -> (value: Option<serde_json::Value>)
    ensures
        value is Some == parsed_bytes(bytes@) is Some,
        value matches Some(value) ==> Some(value_tree(value)) == parsed_bytes(bytes@),
{
    serde_json::from_slice(bytes).ok()
}

/// Whether a text is one line without white space around it and without control characters.
pub open spec fn is_compact(text: Seq<char>) -> bool {
    &&& text.len() > 0
    &&& !is_space(text[0])
    &&& !is_space(text.last())
    &&& forall|i: int| 0 <= i < text.len() ==> (#[trigger] text[i]) as int >= 0x20
}

/// Whether `serde_json` may take the key of an object for a mark of its own. An object that begins
/// with such a key is read as what the text under it spells, and not as an object.
pub open spec fn is_reserved_key(key: Seq<char>) -> bool {
    key == "$serde_json::private::RawValue"@ || key == "$serde_json::private::Number"@
}

/// Whether a value holds no numbers and no reserved keys, and is nested no deeper than a bound.
pub open spec fn plain_within(tree: JsonTree, depth: nat) -> bool
    decreases depth,
{
    match tree {
        JsonTree::Number(_) => false,
        JsonTree::List(items) => depth > 0 && forall|i: int|
            0 <= i < items.len() ==> plain_within(#[trigger] items[i], (depth - 1) as nat),
        JsonTree::Object(fields) => depth > 0 && forall|key: Seq<char>| #[trigger]
            fields.dom().contains(key) ==> !is_reserved_key(key) && plain_within(
                fields[key],
                (depth - 1) as nat,
            ),
        _ => true,
    }
}

/// A key is not reserved where it is as short as the keys of the public API.
pub proof fn lemma_short_keys(key: Seq<char>)
    requires
        key.len() < 28,
    ensures
        !is_reserved_key(key),
{
    reveal_strlit("$serde_json::private::RawValue");
    reveal_strlit("$serde_json::private::Number");
}

/// Wraps `serde_json::Value::to_string`. The text is a function of the value. It is the compact
/// form: it holds no control characters, which strings write as escapes, and no white space
/// outside of strings. `serde_json::from_str` reads the value back from it; that is claimed only
/// of values without numbers, as some numbers with a fraction may change in their last digit, only
/// of values without a key that it takes for a mark of its own, and only of values that are nested
/// far less deep than it reads.
#[verifier::external_body]
pub(crate) fn print_value(value: &serde_json::Value) -> (text: String)
    ensures
        text@ == printed(value_tree(*value)),
        is_compact(text@),
        plain_within(value_tree(*value), 64) ==> parsed_text(text@) == Some(value_tree(*value)),
{
    value.to_string()
}

/// The integer that `serde_json::Number::as_i64` reads from a number.
pub uninterp spec fn signed_reading(number: serde_json::Number) -> Option<i64>;

/// The number that `serde_json::Number::from` makes of a signed integer.
pub uninterp spec fn number_of_signed(value: i64) -> serde_json::Number;

/// The number that `serde_json::Number::from` makes of an unsigned integer.
pub uninterp spec fn number_of_unsigned(value: u64) -> serde_json::Number;

/// Wraps `serde_json::Number::clone`: the copy is the same number.
#[verifier::external_body]
pub(crate) fn copy_number(number: &serde_json::Number) -> (copy: serde_json::Number)
    ensures
        copy == *number,
{
    number.clone()
}

/// Wraps `serde_json::Number::as_i64`: the integer, where the number is whole and fits.
#[verifier::external_body]
pub(crate) fn number_as_i64(number: &serde_json::Number) -> (value: Option<i64>)
    ensures
        value == signed_reading(*number),
{
    number.as_i64()
}

/// Wraps `serde_json::Number::from` at `i64`: the number reads back as the integer.
#[verifier::external_body]
pub(crate) fn signed_number(value: i64) -> (number: serde_json::Number)
    ensures
        number == number_of_signed(value),
        signed_reading(number) == Some(value),
{
    serde_json::Number::from(value)
}

/// Wraps `serde_json::Number::from` at `u64`: the number reads back as the integer
/// where a signed one can hold it.
#[verifier::external_body]
pub(crate) fn unsigned_number(value: u64) -> (number: serde_json::Number)
    ensures
        number == number_of_unsigned(value),
        signed_reading(number) == (if value <= i64::MAX { Some(value as i64) } else { None }),
{
    serde_json::Number::from(value)
}

} // verus!
