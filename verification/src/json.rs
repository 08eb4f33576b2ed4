//! JSON values, as the Cast protocol carries them.
//!
//! The values themselves are `serde_json`'s. What each of them holds is its
//! [`json_tree`]; the functions here that touch a value are those of
//! `serde_json`, each with what it does to that tree.
use serde_json::Value;
use vstd::prelude::*;

verus! {

#[verifier::external_type_specification]
#[verifier::external_body]
pub struct ExValue(serde_json::Value);

/// What a JSON value holds.
pub ghost enum JsonTree {
    Null,
    Bool(bool),
    /// A number kept as a whole one.
    Number(int),
    /// Any other number (written with a fraction or an exponent, or too large), as
    /// the bits of an IEEE 754 double.
    Real(u64),
    Text(Seq<char>),
    Array(Seq<JsonTree>),
    Object(Map<Seq<char>, JsonTree>),
}

/// What a value of `serde_json` holds.
pub uninterp spec fn json_tree(value: Value) -> JsonTree;

/// What `serde_json` reads from a text: `None` where it is no JSON.
pub uninterp spec fn json_read(text: Seq<char>) -> Option<JsonTree>;

/// How `serde_json` writes a value.
pub uninterp spec fn json_text(tree: JsonTree) -> Seq<char>;

/// The member of an object under a key.
pub open spec fn member(tree: JsonTree, key: Seq<char>) -> Option<JsonTree> {
    match tree {
        JsonTree::Object(members) => if members.contains_key(key) {
            Some(members[key])
        } else {
            None
        },
        _ => None,
    }
}

/// The member under a key, where it is a text.
pub open spec fn text_member(tree: JsonTree, key: Seq<char>) -> Option<Seq<char>> {
    match member(tree, key) {
        Some(JsonTree::Text(text)) => Some(text),
        _ => None,
    }
}

/// The member under a key, where it is a whole number within `low..=high`.
pub open spec fn number_member(tree: JsonTree, key: Seq<char>, low: int, high: int) -> Option<int> {
    match member(tree, key) {
        Some(JsonTree::Number(n)) => if low <= n <= high {
            Some(n)
        } else {
            None
        },
        _ => None,
    }
}

/// `Value::get` with a key: the member of that name, of an object that has one.
#[verifier::external_body]
pub(crate) fn get<'a>(value: &'a Value, key: &str) -> (res: Option<&'a Value>)
    ensures
        match res {
            Some(found) => member(json_tree(*value), key@) == Some(json_tree(*found)),
            None => member(json_tree(*value), key@) is None,
        },
{
    value.get(key)
}

/// `Value::as_str`: the text of a value that is one.
#[verifier::external_body]
pub(crate) fn as_str(value: &Value) -> (res: Option<&str>)
    ensures
        match res {
            Some(text) => json_tree(*value) == JsonTree::Text(text@),
            None => !(json_tree(*value) is Text),
        },
{
    value.as_str()
}

/// `Value::as_i64`: the number of a value that is a whole one within `i64`.
#[verifier::external_body]
pub(crate) fn as_i64(value: &Value) -> (res: Option<i64>)
    ensures
        res == (match json_tree(*value) {
            JsonTree::Number(n) => if i64::MIN <= n <= i64::MAX {
                Some(n as i64)
            } else {
                None
            },
            _ => None,
        }),
{
    value.as_i64()
}

/// `Value::as_u64`: the number of a value that is a whole one within `u64`.
#[verifier::external_body]
pub(crate) fn as_u64(value: &Value) -> (res: Option<u64>)
    ensures
        res == (match json_tree(*value) {
            JsonTree::Number(n) => if 0 <= n <= u64::MAX {
                Some(n as u64)
            } else {
                None
            },
            _ => None,
        }),
{
    value.as_u64()
}

/// The double that `serde_json` gives for a whole number, as its bits.
pub uninterp spec fn nearest_double(n: int) -> u64;

/// The number of a value that is one, as the bits of a double.
pub open spec fn double_of(tree: JsonTree) -> Option<u64> {
    match tree {
        JsonTree::Number(n) => Some(nearest_double(n)),
        JsonTree::Real(bits) => Some(bits),
        _ => None,
    }
}

/// `Value::as_f64`, as bits: the number of a value that is one. That of a whole
/// number is the nearest double; which that is, is left unsaid.
#[verifier::external_body]
pub(crate) fn as_double(value: &Value) -> (res: Option<u64>)
    ensures
        res == (match json_tree(*value) {
            JsonTree::Number(n) => Some(nearest_double(n)),
            JsonTree::Real(bits) => Some(bits),
            _ => None,
        }),
{
    value.as_f64().map(|number| number.to_bits())
}

/// What the values of a list hold.
pub open spec fn trees(values: Seq<Value>) -> Seq<JsonTree> {
    Seq::new(values.len(), |i: int| json_tree(values[i]))
}

/// `Value::as_array`: the items of a value that is an array.
#[verifier::external_body]
pub(crate) fn as_array(value: &Value) -> (res: Option<&Vec<Value>>)
    ensures
        match res {
            Some(items) => json_tree(*value) == JsonTree::Array(trees(items@)),
            None => !(json_tree(*value) is Array),
        },
{
    value.as_array()
}

/// `serde_json::from_str`, which reads one JSON value from a text.
#[verifier::external_body]
pub(crate) fn read(text: &str) -> (res: Option<Value>)
    ensures
        match res {
            Some(value) => json_read(text@) == Some(json_tree(value)),
            None => json_read(text@) is None,
        },
{
    serde_json::from_str(text).ok()
}

/// `Value::to_string`, which writes a value as compact JSON. The text depends
/// on what the value holds alone: the members of an object are in the order of
/// their keys.
#[verifier::external_body]
pub(crate) fn write(value: &Value) -> (res: String)
    ensures
        res@ == json_text(json_tree(*value)),
{
    value.to_string()
}

/// `Value::String`: a text as a value.
#[verifier::external_body]
pub(crate) fn text(content: &str) -> (res: Value)
    ensures
        json_tree(res) == JsonTree::Text(content@),
{
    Value::String(content.to_string())
}

/// `Value::from` an `i64`.
#[verifier::external_body]
pub(crate) fn number(n: i64) -> (res: Value)
    ensures
        json_tree(res) == JsonTree::Number(n as int),
{
    Value::from(n)
}

/// `Value::Bool`.
#[verifier::external_body]
pub(crate) fn boolean(b: bool) -> (res: Value)
    ensures
        json_tree(res) == JsonTree::Bool(b),
{
    Value::Bool(b)
}

/// `Value::Null`.
#[verifier::external_body]
pub(crate) fn null() -> (res: Value)
    ensures
        json_tree(res) == JsonTree::Null,
{
    Value::Null
}

/// `Value::Array`: some values as an array.
#[verifier::external_body]
pub(crate) fn array(items: Vec<Value>) -> (res: Value)
    ensures
        json_tree(res) == JsonTree::Array(trees(items@)),
{
    Value::Array(items)
}

/// `Value::Object` of an empty `serde_json::Map`.
#[verifier::external_body]
pub(crate) fn object() -> (res: Value)
    ensures
        json_tree(res) == JsonTree::Object(Map::empty()),
{
    Value::Object(serde_json::Map::new())
}

/// The members of an object; none where the value is null.
pub open spec fn members(tree: JsonTree) -> Map<Seq<char>, JsonTree> {
    match tree {
        JsonTree::Object(members) => members,
        _ => Map::empty(),
    }
}

/// Whether members can be put into a value: an object, or null, which becomes
/// one.
pub open spec fn takes_members(tree: JsonTree) -> bool {
    tree is Object || tree is Null
}

/// Assignment to an object's member by key, through `IndexMut` of `Value`: the
/// member is added, or replaced where there is one. Null becomes an object.
#[verifier::external_body]
pub(crate) fn put(value: &mut Value, key: &str, item: Value)
    requires
        takes_members(json_tree(*old(value))),
    ensures
        json_tree(*final(value)) == JsonTree::Object(
            members(json_tree(*old(value))).insert(key@, json_tree(item)),
        ),
{
    value[key] = item;
}

/// The member under a key, where it is a text.
pub(crate) fn get_text<'a>(value: &'a Value, key: &str) -> (res: Option<&'a str>)
    ensures
        match res {
            Some(text) => text_member(json_tree(*value), key@) == Some(text@),
            None => text_member(json_tree(*value), key@) is None,
        },
{
    match get(value, key) {
        Some(found) => as_str(found),
        None => None,
    }
}

/// An object without members.
pub open spec fn no_members() -> Map<Seq<char>, JsonTree> {
    Map::empty()
}

/// Adds a text under a key.
pub(crate) fn put_text(value: &mut Value, key: &str, item: &str)
    requires
        takes_members(json_tree(*old(value))),
    ensures
        json_tree(*final(value)) == JsonTree::Object(
            members(json_tree(*old(value))).insert(key@, JsonTree::Text(item@)),
        ),
{
    put(value, key, text(item));
}

/// Adds a whole number under a key.
pub(crate) fn put_number(value: &mut Value, key: &str, n: i64)
    requires
        takes_members(json_tree(*old(value))),
    ensures
        json_tree(*final(value)) == JsonTree::Object(
            members(json_tree(*old(value))).insert(key@, JsonTree::Number(n as int)),
        ),
{
    put(value, key, number(n));
}

/// Adds a truth value under a key.
pub(crate) fn put_bool(value: &mut Value, key: &str, b: bool)
    requires
        takes_members(json_tree(*old(value))),
    ensures
        json_tree(*final(value)) == JsonTree::Object(
            members(json_tree(*old(value))).insert(key@, JsonTree::Bool(b)),
        ),
{
    put(value, key, boolean(b));
}

/// A whole number is read where it lies within its bounds, the bounds among them,
/// and nothing else is read as one.
pub proof fn a_number_is_read_within_its_bounds(
    tree: JsonTree,
    key: Seq<char>,
    n: int,
    low: int,
    high: int,
)
    requires
        low <= high,
    ensures
        member(tree, key) == Some(JsonTree::Number(n)) ==> {
            &&& number_member(tree, key, n, n) == Some(n)
            &&& number_member(tree, key, low, high) is Some <==> low <= n && n <= high
            &&& number_member(tree, key, n + 1, n + 1) is None
        },
        number_member(tree, key, low, high) matches Some(m) ==> member(tree, key) == Some(
            JsonTree::Number(m),
        ),
{
}

} // verus!
