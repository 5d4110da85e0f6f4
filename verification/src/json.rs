//! JSON documents, as `serde_json` holds them.
//!
//! `Json` is the mathematical model of a document. Every operation on a
//! `serde_json::Value` goes through one of the functions below, whose contracts
//! speak of the document that the value stands for.

use vstd::prelude::*;

verus! {

/// A JSON document.
///
/// A number is an `Integer` where `serde_json` holds it as an integer, and a
/// `Float`, given by its IEEE 754 bits, where it holds it in double precision.
#[verifier::ext_equal]
pub enum Json {
    Null,
    Bool(bool),
    Integer(int),
    Float(u64),
    Text(Seq<char>),
    Array(Seq<Json>),
    Object(Map<Seq<char>, Json>),
}

impl Json {
    /// The member named `key`; `Null` where this is no object or has no such
    /// member.
    pub open spec fn member(self, key: Seq<char>) -> Json {
        match self {
            Json::Object(members) => if members.dom().contains(key) {
                members[key]
            } else {
                Json::Null
            },
            _ => Json::Null,
        }
    }

    /// The element at `index`; `Null` where this is no array or has no such
    /// element.
    pub open spec fn element(self, index: int) -> Json {
        match self {
            Json::Array(items) => if 0 <= index < items.len() {
                items[index]
            } else {
                Json::Null
            },
            _ => Json::Null,
        }
    }

    /// The text of a string document.
    pub open spec fn text(self) -> Option<Seq<char>> {
        match self {
            Json::Text(s) => Some(s),
            _ => None,
        }
    }
}

#[verifier::external_type_specification]
#[verifier::external_body]
pub struct ExValue(serde_json::Value);

/// The document that a `serde_json::Value` holds.
pub uninterp spec fn document(value: serde_json::Value) -> Json;

/// The document that `serde_json` reads out of a text, or `None` where the text
/// is not a JSON document it accepts.
pub uninterp spec fn parsed(text: Seq<char>) -> Option<Json>;

/// A text of one digit, a point and one digit.
pub open spec fn is_short_decimal(text: Seq<char>) -> bool {
    &&& text.len() == 3
    &&& '0' <= text[0] <= '9'
    &&& text[1] == '.'
    &&& '0' <= text[2] <= '9'
}

/// Calls `serde_json::from_str`. The outcome is a function of the text. A
/// decimal of the plainest form is always accepted, as a number in double
/// precision.
#[verifier::external_body]
pub(crate) fn parse(text: &str) -> (value: Option<serde_json::Value>)
    ensures
        match value {
            Some(v) => parsed(text@) == Some(document(v)),
            None => parsed(text@) is None,
        },
        is_short_decimal(text@) ==> value is Some && document(value->0) is Float,
{
    serde_json::from_str::<serde_json::Value>(text).ok()
}

/// Calls `Index<&str>` of `serde_json::Value`, which gives the member of that
/// name, and null where there is none.
#[verifier::external_body]
pub(crate) fn member<'a>(value: &'a serde_json::Value, key: &str) -> (found: &'a serde_json::Value)
    ensures
        document(*found) == document(*value).member(key@),
{
    &value[key]
}

/// Calls `Index<usize>` of `serde_json::Value`, which gives the element at that
/// position, and null where there is none.
#[verifier::external_body]
pub(crate) fn element(value: &serde_json::Value, index: usize) -> (found: &serde_json::Value)
    ensures
        document(*found) == document(*value).element(index as int),
{
    &value[index]
}

/// Calls `serde_json::Value::as_str`, which gives the text of a string value.
#[verifier::external_body]
pub(crate) fn as_text(value: &serde_json::Value) -> (text: Option<&str>)
    ensures
        match text {
            Some(s) => document(*value).text() == Some(s@),
            None => document(*value).text() is None,
        },
{
    value.as_str()
}

/// Calls `From<&str>` of `serde_json::Value`: a string value.
#[verifier::external_body]
pub(crate) fn from_text(text: &str) -> (value: serde_json::Value)
    ensures
        document(value) == Json::Text(text@),
{
    serde_json::Value::from(text)
}

/// Calls `From<bool>` of `serde_json::Value`: a boolean value.
#[verifier::external_body]
pub(crate) fn from_bool(b: bool) -> (value: serde_json::Value)
    ensures
        document(value) == Json::Bool(b),
{
    serde_json::Value::from(b)
}

/// Calls `From<u32>` of `serde_json::Value`: an integer value.
#[verifier::external_body]
pub(crate) fn from_u32(n: u32) -> (value: serde_json::Value)
    ensures
        document(value) == Json::Integer(n as int),
{
    serde_json::Value::from(n)
}

/// Calls `From<Vec<Value>>` of `serde_json::Value`: an array of those values, in
/// their order.
#[verifier::external_body]
pub(crate) fn from_items(items: Vec<serde_json::Value>) -> (value: serde_json::Value)
    ensures
        document(value) == Json::Array(items@.map_values(|v: serde_json::Value| document(v))),
{
    serde_json::Value::from(items)
}

/// The object with these members; of two members with one name the later
/// stays.
pub open spec fn object_of(members: Seq<(Seq<char>, Json)>) -> Map<Seq<char>, Json>
    decreases members.len(),
{
    if members.len() == 0 {
        Map::empty()
    } else {
        object_of(members.drop_last()).insert(members.last().0, members.last().1)
    }
}

/// Calls `FromIterator<(&str, Value)>` of `serde_json::Value`: an object with
/// those members, of which a later one takes the place of an earlier one with
/// its name.
#[verifier::external_body]
pub(crate) fn from_members(members: Vec<(&str, serde_json::Value)>) -> (value: serde_json::Value)
    ensures
        document(value) == Json::Object(
            object_of(members@.map_values(|m: (&str, serde_json::Value)| (m.0@, document(m.1)))),
        ),
{
    serde_json::Value::from_iter(members)
}

} // verus!
