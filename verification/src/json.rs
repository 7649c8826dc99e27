//! JSON documents, read and built as `serde_json::Value`s.

use serde_json::Value;
use vstd::prelude::*;

use crate::text;

verus! {

/// The contents of a JSON document.
pub enum Json {
    /// `null`.
    Null,
    /// `true` or `false`.
    Bool(bool),
    /// A number that is held as an integer.
    Int(int),
    /// Any other number, by the bits of its floating-point form.
    Real(u64),
    /// A string.
    Text(Seq<char>),
    /// An array.
    List(Seq<Json>),
    /// An object.
    Object(Map<Seq<char>, Json>),
}

/// A JSON document of `serde_json`, opaque to proofs but for [`contents`].
#[verifier::external_type_specification]
#[verifier::external_body]
pub struct ExValue(serde_json::Value);

/// What a `serde_json::Value` holds.
pub uninterp spec fn contents(v: serde_json::Value) -> Json;

/// What a row of documents holds.
pub open spec fn all_contents(items: Seq<Value>) -> Seq<Json> {
    items.map_values(|x: Value| contents(x))
}

/// The member `key` of an object; nothing for any other document.
pub open spec fn member(v: Json, key: Seq<char>) -> Option<Json> {
    match v {
        Json::Object(m) => if m.dom().contains(key) {
            Some(m[key])
        } else {
            None
        },
        _ => None,
    }
}

/// The text of a string; nothing for any other document.
pub open spec fn text_of(v: Json) -> Option<Seq<char>> {
    match v {
        Json::Text(s) => Some(s),
        _ => None,
    }
}

/// The integer that a number holds, where it lies between `min` and `max`.
pub open spec fn int_of(v: Json, min: int, max: int) -> Option<int> {
    match v {
        Json::Int(n) => if min <= n <= max {
            Some(n)
        } else {
            None
        },
        _ => None,
    }
}

/// What `serde_json::from_str` makes of a text: a document, or its complaint.
pub uninterp spec fn json_of(text: Seq<char>) -> Result<Json, Seq<char>>;

/// What the document of a result holds, or the complaint.
pub open spec fn contents_or(res: Result<Value, String>) -> Result<Json, Seq<char>> {
    match res {
        Ok(v) => Ok(contents(v)),
        Err(e) => Err(e@),
    }
}

/// `serde_json::from_str` into a `Value`: the document that the text holds, or
/// the complaint, each a function of the text alone.
#[verifier::external_body]
pub(crate) fn parse(text: &str) -> (res: Result<Value, String>)
    ensures
        contents_or(res) == json_of(text@),
{
    serde_json::from_str::<Value>(text).map_err(|e| e.to_string())
}

/// `Value::get` with a string: the member of that name, if the document is an
/// object that has it.
#[verifier::external_body]
pub(crate) fn get<'a>(v: &'a Value, key: &str) -> (res: Option<&'a Value>)
    ensures
        match res {
            Some(x) => member(contents(*v), key@) == Some(contents(*x)),
            None => member(contents(*v), key@) is None,
        },
{
    v.get(key)
}

/// `Value::as_str`: the text of a string.
pub assume_specification[ Value::as_str ](v: &Value) -> (res: Option<&str>)
    ensures
        match res {
            Some(s) => text_of(contents(*v)) == Some(s@),
            None => text_of(contents(*v)) is None,
        },
;

/// `Value::as_i64`: the integer of a number that holds one in the range of
/// `i64`.
pub assume_specification[ Value::as_i64 ](v: &Value) -> (res: Option<i64>)
    ensures
        match res {
            Some(n) => int_of(contents(*v), i64::MIN as int, i64::MAX as int) == Some(n as int),
            None => int_of(contents(*v), i64::MIN as int, i64::MAX as int) is None,
        },
;

/// `Value::as_u64`: the integer of a number that holds one in the range of
/// `u64`.
pub assume_specification[ Value::as_u64 ](v: &Value) -> (res: Option<u64>)
    ensures
        match res {
            Some(n) => int_of(contents(*v), 0, u64::MAX as int) == Some(n as int),
            None => int_of(contents(*v), 0, u64::MAX as int) is None,
        },
;

/// `Value::as_bool`: the truth value of a boolean.
pub assume_specification[ Value::as_bool ](v: &Value) -> (res: Option<bool>)
    ensures
        match res {
            Some(b) => contents(*v) == Json::Bool(b),
            None => !(contents(*v) is Bool),
        },
;

/// `Value::as_array`: the items of an array, in order.
pub assume_specification[ Value::as_array ](v: &Value) -> (res: Option<&Vec<Value>>)
    ensures
        match res {
            Some(items) => contents(*v) == Json::List(all_contents(items@)),
            None => !(contents(*v) is List),
        },
;

/// Whether the pairs are the members of an object, each of them once.
pub open spec fn lists_members(pairs: Seq<(&String, &Value)>, m: Map<Seq<char>, Json>) -> bool {
    &&& forall|i: int, j: int|
        0 <= i < j < pairs.len() ==> (#[trigger] pairs[i]).0@ != (#[trigger] pairs[j]).0@
    &&& forall|i: int|
        0 <= i < pairs.len() ==> m.dom().contains((#[trigger] pairs[i]).0@)
            && m[pairs[i].0@] == contents(*pairs[i].1)
    &&& forall|k: Seq<char>| #[trigger]
        m.dom().contains(k) ==> exists|i: int|
            0 <= i < pairs.len() && (#[trigger] pairs[i]).0@ == k
}

/// `Value::as_object` and `Map::iter`: every member of an object with its name,
/// once; nothing for any other document. The order is left unsaid.
#[verifier::external_body]
pub(crate) fn members<'a>(v: &'a Value) -> (res: Vec<(&'a String, &'a Value)>)
    ensures
        match contents(*v) {
            Json::Object(m) => lists_members(res@, m),
            _ => res@.len() == 0,
        },
{
    v.as_object().map(|m| m.iter().collect()).unwrap_or_default()
}

/// `Value::clone`: a document with the same contents.
pub assume_specification[ <Value as Clone>::clone ](v: &Value) -> (res: Value)
    ensures
        contents(res) == contents(*v),
;

/// What `serde_json` writes for a number that is not held as an integer.
pub uninterp spec fn real_text(bits: u64) -> Seq<char>;

/// The text of a number; nothing for any other document.
pub open spec fn number_text_of(v: Json) -> Option<Seq<char>> {
    match v {
        Json::Int(n) => Some(text::signed_decimal(n)),
        Json::Real(bits) => Some(real_text(bits)),
        _ => None,
    }
}

/// `Value::as_number` and `Number::to_string`: the text of a number. An integer
/// is written in decimal digits; any other number's text is a function of its
/// floating-point form.
#[verifier::external_body]
pub(crate) fn number_text(v: &Value) -> (res: Option<String>)
    ensures
        match contents(*v) {
            Json::Int(n) => res is Some && res->0@ == text::signed_decimal(n),
            Json::Real(bits) => res is Some && res->0@ == real_text(bits),
            _ => res is None,
        },
{
    v.as_number().map(|n| n.to_string())
}

/// `Value::Null`: the document `null`.
#[verifier::external_body]
pub(crate) fn null() -> (res: Value)
    ensures
        contents(res) == Json::Null,
{
    Value::Null
}

/// `Value::String`: the document that holds a text.
#[verifier::external_body]
pub(crate) fn text(s: String) -> (res: Value)
    ensures
        contents(res) == Json::Text(s@),
{
    Value::String(s)
}

/// `Value::from` of an integer: the document that holds that number.
#[verifier::external_body]
pub(crate) fn number(n: u64) -> (res: Value)
    ensures
        contents(res) == Json::Int(n as int),
{
    Value::from(n)
}

/// `Value::Array`: the document that holds a row of documents.
#[verifier::external_body]
pub(crate) fn list(items: Vec<Value>) -> (res: Value)
    ensures
        contents(res) == Json::List(all_contents(items@)),
{
    Value::Array(items)
}

/// The map that a row of pairs describes; a later pair of a name wins.
pub open spec fn object_of(pairs: Seq<(String, Value)>) -> Map<Seq<char>, Json>
    decreases pairs.len(),
{
    if pairs.len() == 0 {
        Map::empty()
    } else {
        object_of(pairs.drop_last()).insert(pairs.last().0@, contents(pairs.last().1))
    }
}

/// `serde_json::Map::from_iter` as a document: the object with these members.
#[verifier::external_body]
pub(crate) fn object(pairs: Vec<(String, Value)>) -> (res: Value)
    ensures
        contents(res) == Json::Object(object_of(pairs@)),
{
    Value::Object(serde_json::Map::from_iter(pairs))
}

/// What `serde_json::to_vec` makes of a document.
pub uninterp spec fn json_bytes(v: Json) -> Result<Seq<u8>, Seq<char>>;

/// The bytes of a result, or the complaint.
pub open spec fn bytes_or(res: Result<Vec<u8>, String>) -> Result<Seq<u8>, Seq<char>> {
    match res {
        Ok(b) => Ok(b@),
        Err(e) => Err(e@),
    }
}

/// `serde_json::to_vec`: the document as bytes, or the complaint, each a
/// function of what the document holds.
#[verifier::external_body]
pub(crate) fn to_bytes(v: &Value) -> (res: Result<Vec<u8>, String>)
    ensures
        bytes_or(res) == json_bytes(contents(*v)),
{
    serde_json::to_vec(v).map_err(|e| e.to_string())
}

/// The text of the member `key` of an object, where that is a string.
pub open spec fn cell_of(v: Json, key: Seq<char>) -> Option<Seq<char>> {
    match member(v, key) {
        Some(x) => text_of(x),
        None => None,
    }
}

/// The text of the member `key` of an object, where that is a string.
pub fn cell<'a>(v: &'a Value, key: &str) -> (res: Option<&'a str>)
    ensures
        match res {
            Some(s) => cell_of(contents(*v), key@) == Some(s@),
            None => cell_of(contents(*v), key@) is None,
        },
{
    match get(v, key) {
        Some(x) => x.as_str(),
        None => None,
    }
}

/// The text in the column `key`, where a column is named.
pub open spec fn opt_cell_of(v: Json, key: Option<Seq<char>>) -> Option<Seq<char>> {
    match key {
        Some(k) => cell_of(v, k),
        None => None,
    }
}

/// The text in the column `key`, where a column is named.
pub fn opt_cell<'a>(v: &'a Value, key: &Option<String>) -> (res: Option<&'a str>)
    ensures
        match res {
            Some(s) => opt_cell_of(contents(*v), key.deep_view()) == Some(s@),
            None => opt_cell_of(contents(*v), key.deep_view()) is None,
        },
{
    match key {
        Some(k) => cell(v, k.as_str()),
        None => None,
    }
}

/// An owned copy of the text in the column `key`, where a column is named.
pub fn opt_text(v: &Value, key: &Option<String>) -> (res: Option<String>)
    ensures
        res.deep_view() == opt_cell_of(contents(*v), key.deep_view()),
{
    match opt_cell(v, key) {
        Some(s) => Some(s.to_owned()),
        None => None,
    }
}

// ---------------------------------------------------------------------------
// Laws
// ---------------------------------------------------------------------------

/// A cell is the text of a member that is a string; a document that is no object,
/// a member that is not there and one of another kind have none.
pub proof fn cells_are_texts_of_members(v: Json, key: Seq<char>, s: Seq<char>)
    ensures
        cell_of(v, key) == Some(s) <==> (v matches Json::Object(m) && m.dom().contains(key)
            && m[key] == Json::Text(s)),
        opt_cell_of(v, Some(key)) == cell_of(v, key),
        opt_cell_of(v, None) is None,
        member(v, key) is Some <==> (v matches Json::Object(m) && m.dom().contains(key)),
{
}

} // verus!
