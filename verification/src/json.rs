//! JSON values of `serde_json`, as the library reads and builds them.

use crate::text::dec;
use vstd::prelude::*;

verus! {

/// A value of `serde_json`, opaque here: [`json_value`] is what it stands for.
#[verifier::external_type_specification]
#[verifier::external_body]
pub struct ExValue(serde_json::Value);

/// What a JSON value is.
pub ghost enum JsonValue {
    Null,
    Bool(bool),
    /// A number that is a `u64` or an `i64`.
    Int(int),
    /// Any other number, as it is displayed.
    Decimal(Seq<char>),
    Str(Seq<char>),
    Array(Seq<JsonValue>),
    Object(Map<Seq<char>, JsonValue>),
}

/// The value that a `serde_json::Value` holds.
pub uninterp spec fn json_value(v: serde_json::Value) -> JsonValue;

/// What `serde_json::from_str` makes of a text: a value, or an error in words.
pub uninterp spec fn parsed_json(text: Seq<char>) -> Result<JsonValue, Seq<char>>;

/// The compact text that `serde_json` writes for a value.
pub uninterp spec fn json_text(v: JsonValue) -> Seq<char>;

/// The member `key` of an object.
pub open spec fn member_of(v: JsonValue, key: Seq<char>) -> Option<JsonValue> {
    match v {
        JsonValue::Object(members) => if members.dom().contains(key) {
            Some(members[key])
        } else {
            None
        },
        _ => None,
    }
}

pub open spec fn bool_of(v: JsonValue) -> Option<bool> {
    match v {
        JsonValue::Bool(b) => Some(b),
        _ => None,
    }
}

pub open spec fn str_of(v: JsonValue) -> Option<Seq<char>> {
    match v {
        JsonValue::Str(s) => Some(s),
        _ => None,
    }
}

pub open spec fn u64_of(v: JsonValue) -> Option<u64> {
    match v {
        JsonValue::Int(n) => if 0 <= n <= u64::MAX {
            Some(n as u64)
        } else {
            None
        },
        _ => None,
    }
}

pub open spec fn i64_of(v: JsonValue) -> Option<i64> {
    match v {
        JsonValue::Int(n) => if i64::MIN <= n <= i64::MAX {
            Some(n as i64)
        } else {
            None
        },
        _ => None,
    }
}

pub open spec fn array_of(v: JsonValue) -> Option<Seq<JsonValue>> {
    match v {
        JsonValue::Array(items) => Some(items),
        _ => None,
    }
}

/// A number as it is displayed.
pub open spec fn number_text_of(v: JsonValue) -> Option<Seq<char>> {
    match v {
        JsonValue::Int(n) => Some(dec(n)),
        JsonValue::Decimal(text) => Some(text),
        _ => None,
    }
}

/// The member `key`, where it is a boolean.
pub open spec fn bool_member(v: JsonValue, key: Seq<char>) -> Option<bool> {
    match member_of(v, key) {
        Some(m) => bool_of(m),
        None => None,
    }
}

pub open spec fn str_member(v: JsonValue, key: Seq<char>) -> Option<Seq<char>> {
    match member_of(v, key) {
        Some(m) => str_of(m),
        None => None,
    }
}

pub open spec fn u64_member(v: JsonValue, key: Seq<char>) -> Option<u64> {
    match member_of(v, key) {
        Some(m) => u64_of(m),
        None => None,
    }
}

pub open spec fn i64_member(v: JsonValue, key: Seq<char>) -> Option<i64> {
    match member_of(v, key) {
        Some(m) => i64_of(m),
        None => None,
    }
}

pub open spec fn str_view(s: Option<&str>) -> Option<Seq<char>> {
    match s {
        Some(s) => Some(s@),
        None => None,
    }
}

/// `serde_json::from_str` into a value: what it makes of the text, and the
/// displayed error where it makes nothing of it.
#[verifier::external_body]
pub(crate) fn parse_value(text: &str) -> (result: Result<serde_json::Value, String>)
    ensures
        match result {
            Ok(v) => parsed_json(text@) == Ok::<JsonValue, Seq<char>>(json_value(v)),
            Err(e) => parsed_json(text@) == Err::<JsonValue, Seq<char>>(e@),
        },
{
    serde_json::from_str(text).map_err(|e| e.to_string())
}

/// `Value::to_string` writes the compact text of the value.
#[verifier::external_body]
pub(crate) fn value_text(v: &serde_json::Value) -> (text: String)
    ensures
        text@ == json_text(json_value(*v)),
{
    v.to_string()
}

/// `Value::as_bool` gives a boolean and nothing for other values.
pub assume_specification[ serde_json::Value::as_bool ](v: &serde_json::Value) -> (b: Option<bool>)
    ensures
        b == bool_of(json_value(*v)),
;

/// `Value::as_str` gives a string and nothing for other values.
pub assume_specification[ serde_json::Value::as_str ](v: &serde_json::Value) -> (s: Option<&str>)
    ensures
        str_view(s) == str_of(json_value(*v)),
;

/// `Value::as_u64` gives an integer in the range of `u64` and nothing for other values.
pub assume_specification[ serde_json::Value::as_u64 ](v: &serde_json::Value) -> (n: Option<u64>)
    ensures
        n == u64_of(json_value(*v)),
;

/// `Value::as_i64` gives an integer in the range of `i64` and nothing for other values.
pub assume_specification[ serde_json::Value::as_i64 ](v: &serde_json::Value) -> (n: Option<i64>)
    ensures
        n == i64_of(json_value(*v)),
;

/// The values that a vector of `serde_json::Value` holds.
pub open spec fn json_values(items: Seq<serde_json::Value>) -> Seq<JsonValue> {
    items.map_values(|v: serde_json::Value| json_value(v))
}

/// `Value::as_array` gives the items of an array and nothing for other values.
pub assume_specification[ serde_json::Value::as_array ](v: &serde_json::Value) -> (items: Option<
    &Vec<serde_json::Value>,
>)
    ensures
        match items {
            Some(items) => array_of(json_value(*v)) == Some(json_values(items@)),
            None => array_of(json_value(*v)) is None,
        },
;

/// `Value::get` with a string gives the member of an object and nothing for other values.
#[verifier::external_body]
pub(crate) fn member<'a>(v: &'a serde_json::Value, key: &str) -> (m: Option<&'a serde_json::Value>)
    ensures
        match m {
            Some(m) => member_of(json_value(*v), key@) == Some(json_value(*m)),
            None => member_of(json_value(*v), key@) is None,
        },
{
    v.get(key)
}

/// `Value::as_number` with `Number::to_string` displays a number and nothing else.
#[verifier::external_body]
pub(crate) fn number_text(v: &serde_json::Value) -> (text: Option<String>)
    ensures
        match text {
            Some(t) => number_text_of(json_value(*v)) == Some(t@),
            None => number_text_of(json_value(*v)) is None,
        },
{
    v.as_number().map(|n| n.to_string())
}

/// `Value::clone` gives a value that holds the same.
pub assume_specification[ <serde_json::Value as Clone>::clone ](v: &serde_json::Value) -> (c:
    serde_json::Value)
    ensures
        json_value(c) == json_value(*v),
;

/// `Value::Null`.
#[verifier::external_body]
pub(crate) fn null_value() -> (v: serde_json::Value)
    ensures
        json_value(v) == JsonValue::Null,
{
    serde_json::Value::Null
}

/// `Value::from` a boolean.
#[verifier::external_body]
pub(crate) fn bool_value(b: bool) -> (v: serde_json::Value)
    ensures
        json_value(v) == JsonValue::Bool(b),
{
    serde_json::Value::from(b)
}

/// `Value::from` an integer.
#[verifier::external_body]
pub(crate) fn int_value(n: i64) -> (v: serde_json::Value)
    ensures
        json_value(v) == JsonValue::Int(n as int),
{
    serde_json::Value::from(n)
}

/// `Value::from` an unsigned integer.
#[verifier::external_body]
pub(crate) fn unsigned_value(n: u64) -> (v: serde_json::Value)
    ensures
        json_value(v) == JsonValue::Int(n as int),
{
    serde_json::Value::from(n)
}

/// `Value::from` a string.
#[verifier::external_body]
pub(crate) fn str_value(s: &str) -> (v: serde_json::Value)
    ensures
        json_value(v) == JsonValue::Str(s@),
{
    serde_json::Value::from(s)
}

/// `Value::Array` of the given items.
#[verifier::external_body]
pub(crate) fn array_value(items: Vec<serde_json::Value>) -> (v: serde_json::Value)
    ensures
        json_value(v) == JsonValue::Array(json_values(items@)),
{
    serde_json::Value::Array(items)
}

/// The members of an object; null counts as an object without members.
pub open spec fn members_of(v: JsonValue) -> Map<Seq<char>, JsonValue> {
    match v {
        JsonValue::Object(members) => members,
        _ => Map::empty(),
    }
}

/// Assigning to `value[key]` sets a member of an object, and makes an object of
/// null; it panics on other values.
#[verifier::external_body]
pub(crate) fn set_member(v: &mut serde_json::Value, key: &str, m: serde_json::Value)
    requires
        json_value(*old(v)) is Object || json_value(*old(v)) is Null,
    ensures
        json_value(*final(v)) == JsonValue::Object(
            members_of(json_value(*old(v))).insert(key@, json_value(m)),
        ),
{
    v[key] = m;
}

/// `Value::is_object` tells objects from other values.
pub assume_specification[ serde_json::Value::is_object ](v: &serde_json::Value) -> (yes: bool)
    ensures
        yes == (json_value(*v) is Object),
;

/// `Value::is_null` tells null from other values.
pub assume_specification[ serde_json::Value::is_null ](v: &serde_json::Value) -> (yes: bool)
    ensures
        yes == (json_value(*v) is Null),
;

/// Whether a value can be given members.
pub(crate) fn takes_members(v: &serde_json::Value) -> (yes: bool)
    ensures
        yes == (json_value(*v) is Object || json_value(*v) is Null),
{
    v.is_object() || v.is_null()
}

pub open spec fn opt_str(s: Option<Seq<char>>) -> JsonValue {
    match s {
        Some(s) => JsonValue::Str(s),
        None => JsonValue::Null,
    }
}

/// A string, or null.
pub(crate) fn opt_str_value(s: Option<&str>) -> (v: serde_json::Value)
    ensures
        json_value(v) == opt_str(str_view(s)),
{
    match s {
        Some(s) => str_value(s),
        None => null_value(),
    }
}

/// Three integers.
pub open spec fn ints3(x: int, y: int, z: int) -> JsonValue {
    JsonValue::Array(seq![JsonValue::Int(x), JsonValue::Int(y), JsonValue::Int(z)])
}

pub(crate) fn ints3_value(x: i64, y: i64, z: i64) -> (v: serde_json::Value)
    ensures
        json_value(v) == ints3(x as int, y as int, z as int),
{
    let mut items: Vec<serde_json::Value> = Vec::new();
    items.push(int_value(x));
    items.push(int_value(y));
    items.push(int_value(z));
    assert(json_values(items@) =~= seq![
        JsonValue::Int(x as int),
        JsonValue::Int(y as int),
        JsonValue::Int(z as int),
    ]);
    array_value(items)
}

/// A number that fits into 16 bits.
pub open spec fn u16_of(n: Option<u64>) -> Option<u16> {
    match n {
        Some(n) => if n <= u16::MAX {
            Some(n as u16)
        } else {
            None
        },
        None => None,
    }
}

pub(crate) fn bool_member_is_true(v: &serde_json::Value, key: &str) -> (yes: bool)
    ensures
        yes == (bool_member(json_value(*v), key@) == Some(true)),
{
    match member(v, key) {
        Some(m) => match m.as_bool() {
            Some(b) => b,
            None => false,
        },
        None => false,
    }
}

pub(crate) fn get_str<'a>(v: &'a serde_json::Value, key: &str) -> (s: Option<&'a str>)
    ensures
        str_view(s) == str_member(json_value(*v), key@),
{
    member(v, key)?.as_str()
}

pub(crate) fn str_member_is(v: &serde_json::Value, key: &str, expected: &str) -> (yes: bool)
    ensures
        yes == (str_member(json_value(*v), key@) == Some(expected@)),
{
    match get_str(v, key) {
        Some(s) => s.to_owned() == expected.to_owned(),
        None => false,
    }
}

pub(crate) fn get_u16(v: &serde_json::Value, key: &str) -> (n: Option<u16>)
    ensures
        n == u16_of(u64_member(json_value(*v), key@)),
{
    let n: u64 = member(v, key)?.as_u64()?;
    if n <= u16::MAX as u64 {
        Some(n as u16)
    } else {
        None
    }
}

} // verus!
