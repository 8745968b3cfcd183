//! JSON values, as `serde_json` holds, reads and writes them.
use serde_json::Value;
use vstd::prelude::*;

use crate::lines;
use crate::text;

verus! {

/// `serde_json::Value`. What a value holds is said by [`json_of`].
#[verifier::external_type_specification]
#[verifier::external_body]
pub struct ExValue(serde_json::Value);

/// `serde_json::Map`. What an object's members are is said by [`members_of`].
#[verifier::external_type_specification]
#[verifier::external_body]
#[verifier::reject_recursive_types(K)]
#[verifier::reject_recursive_types(V)]
pub struct ExMap<K, V>(serde_json::Map<K, V>);

/// `serde_json::Error`. Nothing is said of what it holds.
#[verifier::external_type_specification]
#[verifier::external_body]
pub struct ExJsonError(serde_json::Error);

/// A JSON value. A number is given by the text it is printed as.
#[verifier::ext_equal]
pub enum Json {
    Null,
    Bool(bool),
    Number(Seq<char>),
    Text(Seq<char>),
    Array(Seq<Json>),
    Object(Map<Seq<char>, Json>),
}

impl Json {
    /// The member `key` of an object; anything else has no members.
    pub open spec fn member(self, key: Seq<char>) -> Option<Json> {
        match self {
            Json::Object(members) => if members.contains_key(key) {
                Some(members[key])
            } else {
                None
            },
            _ => None,
        }
    }
}

/// What a value holds.
pub uninterp spec fn json_of(value: serde_json::Value) -> Json;

/// What the members of an object hold.
pub uninterp spec fn members_of(members: serde_json::Map<String, Value>) -> Map<Seq<char>, Json>;

/// The compact text of a value.
pub uninterp spec fn compact_form(value: Json) -> Seq<char>;

/// The indented text of a value.
pub uninterp spec fn pretty_form(value: Json) -> Seq<char>;

/// The value that a text reads as, or nothing where it is no JSON.
pub uninterp spec fn parsed(text: Seq<char>) -> Option<Json>;

/// What a list of values holds.
pub open spec fn jsons(values: Seq<Value>) -> Seq<Json> {
    values.map_values(|v: Value| json_of(v))
}

/// Whether no key stands twice in a list of keys and values.
pub open spec fn distinct(members: Seq<(String, Value)>) -> bool {
    forall|i: int, j: int|
        0 <= i < j < members.len() ==> (#[trigger] members[i]).0@ != (#[trigger] members[j]).0@
}

/// The members that a list of keys and values gives.
pub open spec fn collected(members: Seq<(String, Value)>) -> Map<Seq<char>, Json>
    decreases members.len(),
{
    if members.len() == 0 {
        Map::empty()
    } else {
        collected(members.drop_last()).insert(members.last().0@, json_of(members.last().1))
    }
}

/// `Value::get` with a string: the member of an object under that key, and nothing for any other
/// value.
#[verifier::external_body]
pub(crate) fn member<'a>(value: &'a Value, key: &str) -> (r: Option<&'a Value>)
    ensures
        r is Some <==> json_of(*value).member(key@) is Some,
        r is Some ==> json_of(*r->0) == json_of(*value).member(key@)->0,
{
    value.get(key)
}

/// `Value::as_str`: the text of a string, and nothing for any other value.
#[verifier::external_body]
pub(crate) fn as_text(value: &Value) -> (r: Option<&str>)
    ensures
        match json_of(*value) {
            Json::Text(s) => r is Some && r->0@ == s,
            _ => r is None,
        },
{
    value.as_str()
}

/// `Value::as_i64`: the value of an integer that fits, and nothing for any other value.
#[verifier::external_body]
pub(crate) fn as_integer(value: &Value) -> (r: Option<i64>)
    ensures
        match r {
            Some(n) => json_of(*value) == Json::Number(text::integer(n as int)),
            None => forall|n: i64| json_of(*value) != Json::Number(text::integer(n as int)),
        },
{
    value.as_i64()
}

/// `Value::is_null`.
#[verifier::external_body]
pub(crate) fn is_null(value: &Value) -> (r: bool)
    ensures
        r == (json_of(*value) is Null),
{
    value.is_null()
}

/// `Value::as_array`: the elements of an array, and nothing for any other value.
#[verifier::external_body]
pub(crate) fn as_array(value: &Value) -> (r: Option<&Vec<Value>>)
    ensures
        match json_of(*value) {
            Json::Array(items) => r is Some && jsons(r->0@) == items,
            _ => r is None,
        },
{
    value.as_array()
}

/// `Value::as_object`: the members of an object, and nothing for any other value.
#[verifier::external_body]
pub(crate) fn as_object(value: &Value) -> (r: Option<&serde_json::Map<String, Value>>)
    ensures
        match json_of(*value) {
            Json::Object(members) => r is Some && members_of(*r->0) == members,
            _ => r is None,
        },
{
    value.as_object()
}

/// `Map::keys`: every key once, in no order that is stated.
#[verifier::external_body]
pub(crate) fn keys(members: &serde_json::Map<String, Value>) -> (r: Vec<String>)
    ensures
        text::views(r@).no_duplicates(),
        text::views(r@).to_set() == members_of(*members).dom(),
{
    members.keys().cloned().collect()
}

/// Whether every number in a value is an integer of at most 64 bits, and its arrays and objects
/// are nested at most `depth` deep.
pub open spec fn plain(value: Json, depth: nat) -> bool
    decreases value,
{
    match value {
        Json::Number(n) => exists|i: int|
            i64::MIN <= i <= u64::MAX && n == #[trigger] text::integer(i),
        Json::Array(items) => depth > 0 && forall|i: int|
            0 <= i < items.len() ==> plain(#[trigger] items[i], (depth - 1) as nat),
        Json::Object(members) => depth > 0 && forall|key: Seq<char>| #[trigger]
            members.contains_key(key) ==> plain(members[key], (depth - 1) as nat),
        _ => true,
    }
}

/// What holds of the compact text of a value: it neither begins nor ends with white space, line
/// breaks in strings are written as escapes, so that it holds none, and it reads as the value,
/// where the value has no floats and is not nested more deeply than the parser allows.
pub open spec fn faithful(value: Json, text: Seq<char>) -> bool {
    &&& text.len() > 0
    &&& !lines::white_space(text[0])
    &&& !lines::white_space(text.last())
    &&& !text.contains('\n')
    &&& plain(value, 127) ==> parsed(text) == Some(value)
}

/// `<Value as Display>::fmt`, called by `to_string`: the compact text. For null, booleans and
/// numbers it is stated; how strings, arrays and objects are written is left unsaid.
#[verifier::external_body]
pub(crate) fn display(value: &Value) -> (r: String)
    ensures
        r@ == compact_form(json_of(*value)),
        match json_of(*value) {
            Json::Null => r@ == "null"@,
            Json::Bool(b) => r@ == if b {
                "true"@
            } else {
                "false"@
            },
            Json::Number(n) => r@ == n,
            _ => true,
        },
{
    value.to_string()
}

/// `serde_json::to_string` of a value: the compact text, which can always be written.
#[verifier::external_body]
pub(crate) fn to_compact(value: &Value) -> (r: Result<String, serde_json::Error>)
    ensures
        r is Ok,
        r->Ok_0@ == compact_form(json_of(*value)),
        faithful(json_of(*value), r->Ok_0@),
{
    serde_json::to_string(value)
}

/// `serde_json::to_vec` of a value: the compact text in UTF-8, which can always be written.
#[verifier::external_body]
pub(crate) fn to_bytes(value: &Value) -> (r: Result<Vec<u8>, serde_json::Error>)
    ensures
        r is Ok,
        r->Ok_0@ == vstd::utf8::encode_utf8(compact_form(json_of(*value))),
        faithful(json_of(*value), vstd::utf8::decode_utf8(r->Ok_0@)),
        !r->Ok_0@.contains(10u8),
{
    serde_json::to_vec(value)
}

/// `serde_json::to_string_pretty` of a value: the indented text, which can always be written.
#[verifier::external_body]
pub(crate) fn to_pretty(value: &Value) -> (r: Result<String, serde_json::Error>)
    ensures
        r is Ok,
        r->Ok_0@ == pretty_form(json_of(*value)),
{
    serde_json::to_string_pretty(value)
}

/// `serde_json::from_str` into a value.
#[verifier::external_body]
pub(crate) fn parse(text: &str) -> (r: Result<Value, serde_json::Error>)
    ensures
        match parsed(text@) {
            Some(value) => r is Ok && json_of(r->Ok_0) == value,
            None => r is Err,
        },
{
    serde_json::from_str::<Value>(text)
}

/// `Value::from` of a string: a JSON string.
#[verifier::external_body]
pub(crate) fn text_value(s: String) -> (r: Value)
    ensures
        json_of(r) == Json::Text(s@),
{
    Value::from(s)
}

/// `Value::from` of an integer: a JSON number, which prints in decimal.
#[verifier::external_body]
pub(crate) fn number_value(n: i64) -> (r: Value)
    ensures
        json_of(r) == Json::Number(text::integer(n as int)),
{
    Value::from(n)
}

/// `Value::from` of the unit: null.
#[verifier::external_body]
pub(crate) fn null_value() -> (r: Value)
    ensures
        json_of(r) == Json::Null,
{
    Value::from(())
}

/// `Value::from_iter` of keys and values: an object with these members. Which value stays where a
/// key stands twice is left unsaid, so the keys have to differ.
#[verifier::external_body]
pub(crate) fn object_value(members: Vec<(String, Value)>) -> (r: Value)
    requires
        distinct(members@),
    ensures
        json_of(r) == Json::Object(collected(members@)),
{
    Value::from_iter(members)
}

/// `<Value as PartialEq>::eq`. Stated where the second value is an integer: then it is equal to
/// itself only. Two floats that print differently can be equal (the two zeros), so nothing more
/// is stated.
#[verifier::external_body]
pub(crate) fn equal(a: &Value, b: &Value) -> (r: bool)
    ensures
        (exists|n: int| json_of(*b) == Json::Number(text::integer(n))) ==> r == (json_of(*a)
            == json_of(*b)),
{
    a == b
}

/// `<Value as Clone>::clone`: the copy holds what the value holds.
pub assume_specification[ <serde_json::Value as Clone>::clone ](
    value: &serde_json::Value,
) -> (r: serde_json::Value)
    ensures
        json_of(r) == json_of(*value),
;

} // verus!
