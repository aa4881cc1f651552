//! JSON documents, as `serde_json` holds them.
//!
//! A `serde_json::Value` is opaque to the verifier. `json_view` names the
//! document that a value holds, as a value of the model `Json`; the contracts
//! of the accessors below say over that model what each of them returns, and
//! the rest of the library reasons about documents through them alone.

use vstd::prelude::*;

verus! {

#[verifier::external_type_specification]
#[verifier::external_body]
pub struct ExJsonValue(serde_json::Value);

#[verifier::external_type_specification]
#[verifier::external_body]
pub struct ExJsonError(serde_json::Error);

/// A JSON number: an integer, or a real number by its IEEE 754 bits.
pub enum JsonNumber {
    Integer(int),
    Real(u64),
}

/// A JSON document.
pub enum Json {
    Null,
    Bool(bool),
    Number(JsonNumber),
    Text(Seq<char>),
    Array(Seq<Json>),
    Object(Map<Seq<char>, Json>),
}

impl Json {
    /// What stands under `key`: the member of an object, and `null` where
    /// there is no such member or no object.
    pub open spec fn member(self, key: Seq<char>) -> Json {
        match self {
            Json::Object(members) => if members.contains_key(key) {
                members[key]
            } else {
                Json::Null
            },
            _ => Json::Null,
        }
    }

    /// What stands at `index`: the element of an array, and `null` where
    /// there is no such element or no array.
    pub open spec fn element(self, index: int) -> Json {
        match self {
            Json::Array(items) => if 0 <= index < items.len() {
                items[index]
            } else {
                Json::Null
            },
            _ => Json::Null,
        }
    }

    /// The elements of an array.
    pub open spec fn items(self) -> Option<Seq<Json>> {
        match self {
            Json::Array(items) => Some(items),
            _ => None,
        }
    }

    /// The value of an integer that an `i64` holds.
    pub open spec fn integer(self) -> Option<i64> {
        match self {
            Json::Number(JsonNumber::Integer(n)) => if i64::MIN <= n <= i64::MAX {
                Some(n as i64)
            } else {
                None
            },
            _ => None,
        }
    }

    /// The characters of a string.
    pub open spec fn text(self) -> Option<Seq<char>> {
        match self {
            Json::Text(text) => Some(text),
            _ => None,
        }
    }
}

/// The document that a `serde_json::Value` holds.
pub uninterp spec fn json_view(value: serde_json::Value) -> Json;

/// The document that a text denotes, where the text is JSON.
pub uninterp spec fn json_document(text: Seq<char>) -> Option<Json>;

/// The documents that some values hold, in their order.
pub open spec fn json_views(values: Seq<serde_json::Value>) -> Seq<Json> {
    Seq::new(values.len(), |i: int| json_view(values[i]))
}

/// `serde_json::from_str`, read as a `Value`. Trusted: the outcome depends on
/// the text alone; `json_document` names the document, and an error stands
/// for a text that denotes none.
#[verifier::external_body]
pub(crate) fn parse_document(text: &str) -> (r: Result<serde_json::Value, serde_json::Error>)
    ensures
        match r {
            Ok(value) => json_document(text@) == Some(json_view(value)),
            Err(_) => json_document(text@) is None,
        },
{
    serde_json::from_str(text)
}

/// `value[key]`, the `Index<&str>` of `serde_json::Value`. Trusted: it lends
/// the member of an object under `key`, and a `null` where `value` is no
/// object or has no such member.
#[verifier::external_body]
pub(crate) fn member<'a>(value: &'a serde_json::Value, key: &str) -> (r: &'a serde_json::Value)
    ensures
        json_view(*r) == json_view(*value).member(key@),
{
    &value[key]
}

/// `value[index]`, the `Index<usize>` of `serde_json::Value`. Trusted: it
/// lends the element of an array at `index`, and a `null` where `value` is no
/// array or is shorter.
#[verifier::external_body]
pub(crate) fn element<'a>(value: &'a serde_json::Value, index: usize) -> (r: &'a serde_json::Value)
    ensures
        json_view(*r) == json_view(*value).element(index as int),
{
    &value[index]
}

/// `Value::as_array`. Trusted: it lends the elements of an array, and
/// nothing of any other document.
pub assume_specification<'a>[ serde_json::Value::as_array ](value: &'a serde_json::Value) -> (r:
    Option<&'a Vec<serde_json::Value>>)
    ensures
        match r {
            Some(items) => json_view(*value).items() == Some(json_views(items@)),
            None => json_view(*value).items() is None,
        },
;

/// `Value::as_i64`. Trusted: it gives the value of an integer that an `i64`
/// holds, and nothing of any other document.
pub assume_specification[ serde_json::Value::as_i64 ](value: &serde_json::Value) -> (r: Option<i64>)
    ensures
        r == json_view(*value).integer(),
;

/// `Value::as_str`. Trusted: it lends the characters of a string, and
/// nothing of any other document.
pub assume_specification<'a>[ serde_json::Value::as_str ](value: &'a serde_json::Value) -> (r:
    Option<&'a str>)
    ensures
        match r {
            Some(text) => json_view(*value).text() == Some(text@),
            None => json_view(*value).text() is None,
        },
;

/// `Clone` of `serde_json::Value`. Trusted: the copy is the same value.
pub assume_specification[ <serde_json::Value as Clone>::clone ](value: &serde_json::Value) -> (r:
    serde_json::Value)
    ensures
        r == *value,
;

} // verus!
