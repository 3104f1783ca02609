//! JSON documents, as `serde_json` holds them.
//!
//! Request and response bodies stay `serde_json::Value`s. What such a value
//! holds is its [`JsonView`], named by [`json_of`]; the declarations below say
//! what the `serde_json` calls of this crate read from it and write to it.

use crate::text;
use serde_json::Value;
use vstd::prelude::*;
use vstd::string::*;

verus! {

#[verifier::external_type_specification]
#[verifier::external_body]
pub struct ExValue(serde_json::Value);

#[verifier::external_type_specification]
#[verifier::external_body]
#[verifier::reject_recursive_types(K)]
#[verifier::reject_recursive_types(V)]
pub struct ExFields<K, V>(serde_json::Map<K, V>);

/// A JSON document.
pub enum JsonView {
    /// `null`.
    Null,
    /// `true` or `false`.
    Bool(bool),
    /// An integer from zero to `u64::MAX`.
    Unsigned(nat),
    /// A negative integer.
    Negative(int),
    /// Any other number, by the bits of its floating-point representation.
    Fraction(u64),
    /// A string.
    Text(Seq<char>),
    /// An array.
    Array(Seq<JsonView>),
    /// An object, from member names to members.
    Object(Map<Seq<char>, JsonView>),
}

impl JsonView {
    /// The member called `key`, if this is an object that has one.
    pub open spec fn member(self, key: Seq<char>) -> Option<JsonView> {
        match self {
            JsonView::Object(m) => if m.contains_key(key) {
                Some(m[key])
            } else {
                None
            },
            _ => None,
        }
    }

    /// The characters of this document, if it is a string.
    pub open spec fn text(self) -> Option<Seq<char>> {
        match self {
            JsonView::Text(s) => Some(s),
            _ => None,
        }
    }

    /// The value of this document, if it is an integer that is not negative.
    pub open spec fn unsigned(self) -> Option<nat> {
        match self {
            JsonView::Unsigned(n) => Some(n),
            _ => None,
        }
    }

    /// The items of this document, if it is an array.
    pub open spec fn items(self) -> Option<Seq<JsonView>> {
        match self {
            JsonView::Array(s) => Some(s),
            _ => None,
        }
    }

    /// The string that the member called `key` holds.
    pub open spec fn text_member(self, key: Seq<char>) -> Option<Seq<char>> {
        match self.member(key) {
            Some(v) => v.text(),
            None => None,
        }
    }

    /// The integer that the member called `key` holds, or zero.
    pub open spec fn unsigned_member(self, key: Seq<char>) -> nat {
        match self.member(key) {
            Some(v) => match v.unsigned() {
                Some(n) => n,
                None => 0,
            },
            None => 0,
        }
    }
}

/// The document that `value` holds.
pub uninterp spec fn json_of(value: Value) -> JsonView;

/// The members that `fields` holds.
pub uninterp spec fn fields_of(fields: serde_json::Map<String, Value>) -> Map<Seq<char>, JsonView>;

/// The members of an empty object.
pub open spec fn no_members() -> Map<Seq<char>, JsonView> {
    Map::empty()
}

/// The documents that `values` hold.
pub open spec fn jsons_of(values: Seq<Value>) -> Seq<JsonView> {
    Seq::new(values.len(), |i: int| json_of(values[i]))
}

/// `serde_json::Value::as_str`: the characters of a string, and nothing of any
/// other document.
pub assume_specification[ serde_json::Value::as_str ](value: &Value) -> (res: Option<&str>)
    ensures
        match json_of(*value).text() {
            Some(s) => res is Some && res->0@ == s,
            None => res is None,
        },
;

/// `serde_json::Value::as_u64`: the value of an integer that is not negative,
/// and nothing of any other document.
pub assume_specification[ serde_json::Value::as_u64 ](value: &Value) -> (res: Option<u64>)
    ensures
        match json_of(*value).unsigned() {
            Some(n) => res is Some && res->0 == n,
            None => res is None,
        },
;

/// `serde_json::Value::as_array`: the items of an array, in order, and nothing
/// of any other document.
pub assume_specification[ serde_json::Value::as_array ](value: &Value) -> (res: Option<&Vec<Value>>)
    ensures
        match json_of(*value).items() {
            Some(s) => res is Some && jsons_of(res->0@) == s,
            None => res is None,
        },
;

/// `serde_json::Value::as_object_mut`: the members of an object, to be changed
/// in place. Any other document has none, and stays as it is.
pub assume_specification[ serde_json::Value::as_object_mut ](value: &mut Value) -> (res: Option<
    &mut serde_json::Map<String, Value>,
>)
    ensures
        match json_of(*old(value)) {
            JsonView::Object(m) => {
                &&& res is Some
                &&& fields_of(*(res->0)) == m
                &&& json_of(*final(value)) == JsonView::Object(fields_of(*final(res->0)))
            },
            _ => res is None && *final(value) == *old(value),
        },
;

/// `serde_json::Map::new`: no members.
pub assume_specification[ serde_json::Map::<String, Value>::new ]() -> (res: serde_json::Map<
    String,
    Value,
>)
    ensures
        fields_of(res) == no_members(),
;

/// `serde_json::Map::insert`: the member called `k` becomes `v`, and the others
/// stay. What the member was before is handed back.
pub assume_specification[ serde_json::Map::<String, Value>::insert ](
    fields: &mut serde_json::Map<String, Value>,
    k: String,
    v: Value,
) -> (res: Option<Value>)
    ensures
        fields_of(*final(fields)) == fields_of(*old(fields)).insert(k@, json_of(v)),
        res is Some <==> fields_of(*old(fields)).contains_key(k@),
        res is Some ==> json_of(res->0) == fields_of(*old(fields))[k@],
;

/// `serde_json::Value::get` with a string: the member of that name, if `value`
/// is an object that has one.
#[verifier::external_body]
pub(crate) fn member<'a>(value: &'a Value, key: &str) -> (res: Option<&'a Value>)
    ensures
        match json_of(*value).member(key@) {
            Some(v) => res is Some && json_of(*(res->0)) == v,
            None => res is None,
        },
{
    value.get(key)
}

/// `serde_json::Value::Null`.
#[verifier::external_body]
pub(crate) fn null_value() -> (res: Value)
    ensures
        json_of(res) == JsonView::Null,
{
    Value::Null
}

/// `serde_json::Value::Bool`: the boolean `b`.
#[verifier::external_body]
pub(crate) fn bool_value(b: bool) -> (res: Value)
    ensures
        json_of(res) == JsonView::Bool(b),
{
    Value::Bool(b)
}

/// `serde_json::Value::from` with a `u64`: the number `n`.
#[verifier::external_body]
pub(crate) fn unsigned_value(n: u64) -> (res: Value)
    ensures
        json_of(res) == JsonView::Unsigned(n as nat),
{
    Value::from(n)
}

/// `serde_json::Value::String`: the string `s`.
#[verifier::external_body]
pub(crate) fn text_value(s: String) -> (res: Value)
    ensures
        json_of(res) == JsonView::Text(s@),
{
    Value::String(s)
}

/// `serde_json::Value::Array`: the array of `values`, in order.
#[verifier::external_body]
pub(crate) fn array_value(values: Vec<Value>) -> (res: Value)
    ensures
        json_of(res) == JsonView::Array(jsons_of(values@)),
{
    Value::Array(values)
}

/// `serde_json::Value::Object`: the object with the members `fields`.
#[verifier::external_body]
pub(crate) fn object_value(fields: serde_json::Map<String, Value>) -> (res: Value)
    ensures
        json_of(res) == JsonView::Object(fields_of(fields)),
{
    Value::Object(fields)
}

/// The string that the member of `value` called `key` holds.
pub(crate) fn text_member(value: &Value, key: &str) -> (res: Option<String>)
    ensures
        text::string_of(res) == json_of(*value).text_member(key@),
{
    match member(value, key) {
        Some(v) => match v.as_str() {
            Some(s) => Some(s.to_owned()),
            None => None,
        },
        None => None,
    }
}

/// The integer that the member of `value` called `key` holds, or zero.
pub(crate) fn unsigned_member(value: &Value, key: &str) -> (res: u64)
    ensures
        res == json_of(*value).unsigned_member(key@),
{
    match member(value, key) {
        Some(v) => match v.as_u64() {
            Some(n) => n,
            None => 0,
        },
        None => 0,
    }
}

/// A string, or `null` where there is none.
pub open spec fn text_or_null(text: Option<Seq<char>>) -> JsonView {
    match text {
        Some(s) => JsonView::Text(s),
        None => JsonView::Null,
    }
}

pub(crate) fn optional_text(text: Option<String>) -> (res: Value)
    ensures
        json_of(res) == text_or_null(text::string_of(text)),
{
    match text {
        Some(s) => text_value(s),
        None => null_value(),
    }
}

/// A number, or `null` where there is none.
pub open spec fn unsigned_or_null(n: Option<u64>) -> JsonView {
    match n {
        Some(n) => JsonView::Unsigned(n as nat),
        None => JsonView::Null,
    }
}

pub(crate) fn optional_unsigned(n: Option<u64>) -> (res: Value)
    ensures
        json_of(res) == unsigned_or_null(n),
{
    match n {
        Some(n) => unsigned_value(n),
        None => null_value(),
    }
}

/// The members of an object are read as they are, each under its name: a string
/// as its characters, a number that is not negative as its value, and nothing
/// where the member is missing or of another kind.
pub proof fn law_members_are_read_as_they_are(m: Map<Seq<char>, JsonView>, key: Seq<char>)
    ensures
        m.contains_key(key) ==> JsonView::Object(m).member(key) == Some(m[key]),
        !m.contains_key(key) ==> JsonView::Object(m).member(key) is None,
        m.contains_key(key) ==> match m[key] {
            JsonView::Text(s) => {
                &&& JsonView::Object(m).text_member(key) == Some(s)
                &&& JsonView::Object(m).unsigned_member(key) == 0
            },
            JsonView::Unsigned(n) => {
                &&& JsonView::Object(m).text_member(key) is None
                &&& JsonView::Object(m).unsigned_member(key) == n
            },
            _ => {
                &&& JsonView::Object(m).text_member(key) is None
                &&& JsonView::Object(m).unsigned_member(key) == 0
            },
        },
        !m.contains_key(key) ==> {
            &&& JsonView::Object(m).text_member(key) is None
            &&& JsonView::Object(m).unsigned_member(key) == 0
        },
{
}

/// Nothing but an object has members.
pub proof fn law_only_objects_have_members(doc: JsonView, key: Seq<char>)
    requires
        !(doc is Object),
    ensures
        doc.member(key) is None,
        doc.text_member(key) is None,
        doc.unsigned_member(key) == 0,
{
}

} // verus!
