//! The relay's contact with JSON text, through serde_json, and with raw bytes.
//!
//! A JSON object is modelled by its fields: each key maps to the compact JSON
//! text of its value. The functions here are trusted; what they state is
//! what serde_json and std document of the calls they make.
use vstd::prelude::*;
use serde_json::{Map as JsonMap, Value};

verus! {

#[verifier::external_type_specification]
#[verifier::external_body]
pub struct ExJsonValue(serde_json::Value);

#[verifier::external_type_specification]
#[verifier::external_body]
#[verifier::reject_recursive_types(K)]
#[verifier::reject_recursive_types(V)]
pub struct ExJsonMap<K, V>(serde_json::Map<K, V>);

/// The bytes `b` decoded as UTF-8, or `None` where they are not valid UTF-8.
pub uninterp spec fn utf8_text(b: Seq<u8>) -> Option<Seq<char>>;

/// `s` without its leading and trailing white space.
pub uninterp spec fn trim_of(s: Seq<char>) -> Seq<char>;

/// The fields of the JSON object that `s` holds, each key mapped to the
/// compact text of its value; `None` where `s` is not JSON or not an object.
pub uninterp spec fn parsed_fields(s: Seq<char>) -> Option<Map<Seq<char>, Seq<char>>>;

/// The fields that a JSON object map holds, each key mapped to the compact
/// text of its value.
pub uninterp spec fn fields_of(m: serde_json::Map<String, serde_json::Value>) -> Map<Seq<char>, Seq<char>>;

/// The compact JSON text of the string value `s` (quoted and escaped).
pub uninterp spec fn string_text(s: Seq<char>) -> Seq<char>;

/// The compact JSON text of an object with the fields `f`.
pub uninterp spec fn object_text(f: Map<Seq<char>, Seq<char>>) -> Seq<char>;

/// Relies on `std::str::from_utf8`: the bytes as text where they are valid UTF-8.
#[verifier::external_body]
pub(crate) fn decode_utf8(b: &[u8]) -> (r: Option<&str>)
    ensures
        match r {
            Some(t) => utf8_text(b@) == Some(t@),
            None => utf8_text(b@) is None,
        },
{
    std::str::from_utf8(b).ok()
}

/// Relies on `str::trim`: the text without leading and trailing white space.
#[verifier::external_body]
pub(crate) fn trim(s: &str) -> (r: &str)
    ensures
        r@ == trim_of(s@),
{
    s.trim()
}

/// Relies on `serde_json::from_str::<Value>`: parses `text`, and keeps the
/// result where it is an object.
#[verifier::external_body]
pub(crate) fn parse_object(text: &str) -> (r: Option<JsonMap<String, Value>>)
    ensures
        match r {
            Some(m) => parsed_fields(text@) == Some(fields_of(m)),
            None => parsed_fields(text@) is None,
        },
{
    match serde_json::from_str::<Value>(text) {
        Ok(Value::Object(m)) => Some(m),
        _ => None,
    }
}

/// Relies on `serde_json::Map::insert`: `key` now holds the string `value`,
/// whether or not it was present; the other fields stay.
#[verifier::external_body]
pub(crate) fn insert_string(m: &mut JsonMap<String, Value>, key: String, value: String)
    ensures
        fields_of(*final(m)) == fields_of(*old(m)).insert(key@, string_text(value@)),
{
    m.insert(key, Value::String(value));
}

/// Relies on `serde_json::Map::get`: the field `key` where it holds a string.
/// Distinct strings have distinct JSON texts.
#[verifier::external_body]
pub(crate) fn string_field(m: &JsonMap<String, Value>, key: &str) -> (r: Option<String>)
    ensures
        match r {
            Some(v) => {
                &&& fields_of(*m).contains_key(key@)
                &&& fields_of(*m)[key@] == string_text(v@)
                &&& forall|t: Seq<char>| #[trigger] string_text(t) == string_text(v@) ==> t == v@
            },
            None => !fields_of(*m).contains_key(key@) || forall|t: Seq<char>|
                #[trigger] string_text(t) != fields_of(*m)[key@],
        },
{
    match m.get(key) {
        Some(Value::String(s)) => Some(s.clone()),
        _ => None,
    }
}

/// Relies on `Value::to_string` of `Value::Object`: the compact JSON text of the object.
#[verifier::external_body]
pub(crate) fn render_object(m: JsonMap<String, Value>) -> (r: String)
    ensures
        r@ == object_text(fields_of(m)),
{
    Value::Object(m).to_string()
}

} // verus!
