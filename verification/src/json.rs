//! A mathematical model of JSON documents and the operations of `serde_json`
//! through which the library reads them.

use serde_json::Value;
use vstd::prelude::*;
use vstd::string::*;

verus! {

/// What a JSON document holds.
pub enum JsonValue {
    Null,
    Bool(bool),
    /// A number; `integer` is its value when it is written as an integer that
    /// fits in 64 bits (signed or unsigned), and `None` for every other number.
    Number { integer: Option<int> },
    String(Seq<char>),
    Array(Seq<JsonValue>),
    Object(Map<Seq<char>, JsonValue>),
}

impl JsonValue {
    /// The member of a JSON object under `name`.
    pub open spec fn member(self, name: Seq<char>) -> Option<JsonValue> {
        match self {
            JsonValue::Object(members) => if members.contains_key(name) {
                Some(members[name])
            } else {
                None
            },
            _ => None,
        }
    }

    /// The text of a JSON string.
    pub open spec fn text(self) -> Option<Seq<char>> {
        match self {
            JsonValue::String(s) => Some(s),
            _ => None,
        }
    }

    /// The value of a JSON boolean.
    pub open spec fn boolean(self) -> Option<bool> {
        match self {
            JsonValue::Bool(b) => Some(b),
            _ => None,
        }
    }

    /// The value of a JSON number that is an integer of at most 64 bits
    /// with a sign.
    pub open spec fn integer(self) -> Option<i64> {
        match self {
            JsonValue::Number { integer: Some(n) } => if i64::MIN <= n <= i64::MAX {
                Some(n as i64)
            } else {
                None
            },
            _ => None,
        }
    }

    /// The value of the boolean member under `name`.
    pub open spec fn member_boolean(self, name: Seq<char>) -> Option<bool> {
        match self.member(name) {
            Some(m) => m.boolean(),
            None => None,
        }
    }

    /// The value of the integer member under `name`.
    pub open spec fn member_integer(self, name: Seq<char>) -> Option<i64> {
        match self.member(name) {
            Some(m) => m.integer(),
            None => None,
        }
    }

    /// The text of the string member under `name`.
    pub open spec fn member_text(self, name: Seq<char>) -> Option<Seq<char>> {
        match self.member(name) {
            Some(m) => m.text(),
            None => None,
        }
    }
}

/// `serde_json::Value`: a JSON document in memory. The library looks into
/// one only through the operations below.
#[verifier::external_type_specification]
#[verifier::external_body]
pub struct ExValue(Value);

/// The document that `serde_json` reads from `body`, or `None` where it
/// rejects the bytes.
pub uninterp spec fn json_of_bytes(body: Seq<u8>) -> Option<JsonValue>;

/// What a `serde_json::Value` holds.
pub uninterp spec fn value_model(v: Value) -> JsonValue;

/// `serde_json::from_slice` into a `Value`: the result holds the document
/// that the bytes denote, and is `None` exactly where `serde_json` rejects
/// them.
#[verifier::external_body]
pub(crate) fn parse_value(body: &[u8]) -> (res: Option<Value>)
    ensures
        res matches Some(v) ==> json_of_bytes(body@) == Some(value_model(v)),
        res is None ==> json_of_bytes(body@) is None,
{
    serde_json::from_slice::<Value>(body).ok()
}

/// `Value::is_null`: true exactly for the JSON `null`.
pub assume_specification[ Value::is_null ](v: &Value) -> (r: bool)
    ensures
        r == (value_model(*v) is Null),
;

/// `Value::as_str`: the text of a JSON string, `None` for anything else.
pub assume_specification<'a>[ Value::as_str ](v: &'a Value) -> (r: Option<&'a str>)
    ensures
        match value_model(*v).text() {
            Some(s) => r matches Some(t) && t@ == s,
            None => r is None,
        },
;

/// `Value::as_bool`: the value of a JSON boolean, `None` for anything else.
pub assume_specification[ Value::as_bool ](v: &Value) -> (r: Option<bool>)
    ensures
        r == value_model(*v).boolean(),
;

/// `Value::as_i64`: the value of a JSON number that is an integer within
/// the range of `i64`, `None` for anything else.
pub assume_specification[ Value::as_i64 ](v: &Value) -> (r: Option<i64>)
    ensures
        r == value_model(*v).integer(),
;

/// `Value::clone`: the copy holds the same document.
pub assume_specification[ <Value as Clone>::clone ](v: &Value) -> (r: Value)
    ensures
        value_model(r) == value_model(*v),
;

/// `Value::get` with a string index: the member of a JSON object under
/// `name`, `None` where there is no such member or `v` is no object.
#[verifier::external_body]
pub(crate) fn member<'a>(v: &'a Value, name: &str) -> (r: Option<&'a Value>)
    ensures
        match value_model(*v).member(name@) {
            Some(found) => r matches Some(m) && value_model(*m) == found,
            None => r is None,
        },
{
    v.get(name)
}

/// `Value::as_object` and `Map::keys`: the names of a JSON object's members,
/// each once, `None` where `v` is no object.
#[verifier::external_body]
pub(crate) fn member_names(v: &Value) -> (r: Option<Vec<String>>)
    ensures
        match value_model(*v) {
            JsonValue::Object(members) => r matches Some(names)
                && names@.map_values(|s: String| s@).no_duplicates()
                && names@.map_values(|s: String| s@).to_set() == members.dom(),
            _ => r is None,
        },
{
    v.as_object().map(|m| m.keys().cloned().collect())
}

/// The text of the string member of `v` under `name`.
pub fn text_member(v: &Value, name: &str) -> (r: Option<String>)
    ensures
        match value_model(*v).member_text(name@) {
            Some(s) => r matches Some(t) && t@ == s,
            None => r is None,
        },
{
    match member(v, name) {
        Some(m) => match m.as_str() {
            Some(t) => Some(String::from_str(t)),
            None => None,
        },
        None => None,
    }
}

} // verus!
