//! JSON values as the library sees them, and the two crossings to and from
//! bytes, which serde_json performs.
use vstd::prelude::*;

verus! {

#[verifier::external_type_specification]
#[verifier::external_body]
pub struct ExJsonError(serde_json::Error);

#[verifier::external_type_specification]
#[verifier::external_body]
pub struct ExValue(serde_json::Value);

/// A JSON number: an integer where it fits in 64 bits, else the text that
/// serde_json prints for it.
#[derive(Debug, Clone)]
pub enum JsonNumber {
    Int(i64),
    UInt(u64),
    Text(String),
}

/// A JSON document. An object's members stand in a sequence; in one read by
/// serde_json the names are unique and sorted.
#[derive(Debug)]
pub enum JsonValue {
    Null,
    Bool(bool),
    Number(JsonNumber),
    Str(String),
    Array(Vec<JsonValue>),
    Object(Vec<(String, JsonValue)>),
}

/// What serde_json reads from a byte string: `None` where the bytes are not one
/// JSON document.
pub uninterp spec fn parsed_json(b: Seq<u8>) -> Option<JsonValue>;

/// The bytes serde_json prints for a value.
pub uninterp spec fn printed_json(v: JsonValue) -> Seq<u8>;

/// Relies on serde_json::from_slice::<serde_json::Value>: it parses one JSON
/// document, or fails.
#[verifier::external_body]
pub(crate) fn parse_json(b: &[u8]) -> (r: Result<JsonValue, serde_json::Error>)
    ensures
        parsed_json(b@) == match r {
            Ok(v) => Some(v),
            Err(_) => None::<JsonValue>,
        },
{
    serde_json::from_slice::<serde_json::Value>(b).map(from_serde)
}

/// Relies on serde_json::to_vec on a serde_json::Value, which cannot fail on a
/// value whose keys are strings.
#[verifier::external_body]
pub(crate) fn print_json(v: &JsonValue) -> (r: Vec<u8>)
    ensures
        r@ == printed_json(*v),
{
    serde_json::to_vec(&to_serde(v)).unwrap_or_default()
}

/// Turns a serde_json value into the library's own, one node for one node.
#[verifier::external_body]
fn from_serde(v: serde_json::Value) -> JsonValue {
    match v {
        serde_json::Value::Null => JsonValue::Null,
        serde_json::Value::Bool(b) => JsonValue::Bool(b),
        serde_json::Value::Number(n) => JsonValue::Number(match (n.as_i64(), n.as_u64()) {
            (Some(i), _) => JsonNumber::Int(i),
            (None, Some(u)) => JsonNumber::UInt(u),
            (None, None) => JsonNumber::Text(n.to_string()),
        }),
        serde_json::Value::String(s) => JsonValue::Str(s),
        serde_json::Value::Array(a) => JsonValue::Array(a.into_iter().map(from_serde).collect()),
        serde_json::Value::Object(o) => JsonValue::Object(
            o.into_iter().map(|(k, x)| (k, from_serde(x))).collect(),
        ),
    }
}

/// Turns the library's value into a serde_json value, one node for one node.
#[verifier::external_body]
fn to_serde(v: &JsonValue) -> serde_json::Value {
    match v {
        JsonValue::Null => serde_json::Value::Null,
        JsonValue::Bool(b) => (*b).into(),
        JsonValue::Number(JsonNumber::Int(i)) => (*i).into(),
        JsonValue::Number(JsonNumber::UInt(u)) => (*u).into(),
        JsonValue::Number(JsonNumber::Text(t)) => t.parse().map_or(serde_json::Value::Null, serde_json::Value::Number),
        JsonValue::Str(s) => s.clone().into(),
        JsonValue::Array(a) => serde_json::Value::Array(a.iter().map(to_serde).collect()),
        JsonValue::Object(o) => serde_json::Value::Object(
            o.iter().map(|(k, x)| (k.clone(), to_serde(x))).collect(),
        ),
    }
}

/// The value of the last member named `key`, if any.
pub open spec fn member_spec(members: Seq<(String, JsonValue)>, key: Seq<char>) -> Option<JsonValue>
    decreases members.len(),
{
    if members.len() == 0 {
        None
    } else if members.last().0@ == key {
        Some(members.last().1)
    } else {
        member_spec(members.drop_last(), key)
    }
}

} // verus!
