//! JSON documents as the browser protocols exchange them, and the reading
//! of their fields.
//!
//! Parsing and writing JSON text is left to `serde_json`; what the launcher
//! reads out of a document, and what it puts into one, is verified here.
use vstd::prelude::*;
use crate::text::str_equal;
use serde_json::Value;

verus! {

#[verifier::external_type_specification]
#[verifier::external_body]
pub struct ExSerdeJsonNumber(serde_json::Number);

#[verifier::external_type_specification]
#[verifier::external_body]
pub struct ExSerdeJsonValue(serde_json::Value);

/// A JSON number: an integer that fits `u64`, a negative integer that fits
/// `i64`, or any other number, carried as `serde_json` holds it.
pub enum JsonNumber {
    Unsigned(u64),
    Negative(i64),
    Fractional(serde_json::Number),
}

/// A JSON document; an object keeps its members in order.
pub enum JsonValue {
    Null,
    Bool(bool),
    Number(JsonNumber),
    Str(String),
    Array(Vec<JsonValue>),
    Object(Vec<(String, JsonValue)>),
}

/// What `serde_json::from_str` makes of a text: the document, or the message
/// of its error.
pub uninterp spec fn serde_json_parse(text: Seq<char>) -> Result<JsonValue, Seq<char>>;

/// The compact text that `serde_json` writes for a document.
pub uninterp spec fn serde_json_text(value: JsonValue) -> Seq<char>;

/// Parses `text` with `serde_json::from_str` into a `serde_json::Value` and
/// carries the result over member by member; an error comes back as its
/// message (`Display`). The contract claims only that the outcome is
/// determined by the text.
#[verifier::external_body]
pub(crate) fn parse_json(text: &str) -> (res: Result<JsonValue, String>)
    ensures
        serde_json_parse(text@) == match res {
            Ok(v) => Ok::<JsonValue, Seq<char>>(v),
            Err(e) => Err::<JsonValue, Seq<char>>(e@),
        },
{
    match serde_json::from_str::<Value>(text) {
        Ok(v) => Ok(json_from_serde(v)),
        Err(e) => Err(e.to_string()),
    }
}

/// Carries a `serde_json::Value` over into a `JsonValue`, variant by variant
/// (a number by whether `serde_json` holds it as a `u64`, an `i64` or a
/// float). Part of `parse_json`; it states nothing.
#[verifier::external_body]
fn json_from_serde(v: Value) -> JsonValue {
    match v {
        Value::Null => JsonValue::Null,
        Value::Bool(b) => JsonValue::Bool(b),
        Value::Number(n) => JsonValue::Number(match (n.as_u64(), n.as_i64()) {
            (Some(u), _) => JsonNumber::Unsigned(u),
            (None, Some(i)) => JsonNumber::Negative(i),
            (None, None) => JsonNumber::Fractional(n),
        }),
        Value::String(s) => JsonValue::Str(s),
        Value::Array(a) => JsonValue::Array(a.into_iter().map(json_from_serde).collect()),
        Value::Object(m) => JsonValue::Object(m.into_iter().map(|(k, x)| (k, json_from_serde(x))).collect()),
    }
}

/// Writes `v` with `serde_json` (`Value::to_string`, compact form) after
/// carrying it over into a `serde_json::Value`. The contract claims only that
/// the text is determined by the document.
#[verifier::external_body]
pub(crate) fn json_text(v: &JsonValue) -> (res: String)
    ensures
        res@ == serde_json_text(*v),
{
    json_to_serde(v).to_string()
}

/// Carries a `JsonValue` over into a `serde_json::Value`, variant by variant.
/// Part of `json_text`; it states nothing.
#[verifier::external_body]
fn json_to_serde(v: &JsonValue) -> Value {
    match v {
        JsonValue::Null => Value::Null,
        JsonValue::Bool(b) => Value::Bool(*b),
        JsonValue::Number(JsonNumber::Unsigned(u)) => Value::from(*u),
        JsonValue::Number(JsonNumber::Negative(i)) => Value::from(*i),
        JsonValue::Number(JsonNumber::Fractional(n)) => Value::Number(n.clone()),
        JsonValue::Str(s) => Value::String(s.clone()),
        JsonValue::Array(a) => Value::Array(a.iter().map(json_to_serde).collect()),
        JsonValue::Object(m) => Value::Object(m.iter().map(|(k, x)| (k.clone(), json_to_serde(x))).collect()),
    }
}

// ---------------------------------------------------------------------------
// Reading documents
// ---------------------------------------------------------------------------

/// The value of the first member named `key` among `members`.
pub open spec fn lookup(members: Seq<(String, JsonValue)>, key: Seq<char>) -> Option<JsonValue>
    decreases members.len(),
{
    if members.len() == 0 {
        None
    } else if members[0].0@ == key {
        Some(members[0].1)
    } else {
        lookup(members.drop_first(), key)
    }
}

/// The member `key` of an object (`Value::get`); nothing for anything else.
pub open spec fn get_spec(v: JsonValue, key: Seq<char>) -> Option<JsonValue> {
    match v {
        JsonValue::Object(m) => lookup(m@, key),
        _ => None,
    }
}

/// The member `key` of an object, `null` when there is none (`value[key]`).
pub open spec fn index_spec(v: JsonValue, key: Seq<char>) -> JsonValue {
    match get_spec(v, key) {
        Some(x) => x,
        None => JsonValue::Null,
    }
}

/// The characters of a string (`Value::as_str`).
pub open spec fn as_str_spec(v: JsonValue) -> Option<Seq<char>> {
    match v {
        JsonValue::Str(s) => Some(s@),
        _ => None,
    }
}

/// The elements of an array (`Value::as_array`).
pub open spec fn as_array_spec(v: JsonValue) -> Option<Seq<JsonValue>> {
    match v {
        JsonValue::Array(a) => Some(a@),
        _ => None,
    }
}

/// A number that is a non-negative integer fitting `u64` (`Value::as_u64`).
pub open spec fn as_u64_spec(v: JsonValue) -> Option<u64> {
    match v {
        JsonValue::Number(JsonNumber::Unsigned(u)) => Some(u),
        JsonValue::Number(JsonNumber::Negative(i)) => if i >= 0 {
            Some(i as u64)
        } else {
            None
        },
        _ => None,
    }
}

/// The characters of the string member `key`, or nothing
/// (`value[key].as_str().unwrap_or("")`).
pub open spec fn str_member(v: JsonValue, key: Seq<char>) -> Seq<char> {
    match as_str_spec(index_spec(v, key)) {
        Some(s) => s,
        None => Seq::<char>::empty(),
    }
}

/// The elements of the array member `key`, or none.
pub open spec fn array_member(v: JsonValue, key: Seq<char>) -> Seq<JsonValue> {
    match as_array_spec(index_spec(v, key)) {
        Some(a) => a,
        None => Seq::<JsonValue>::empty(),
    }
}

/// The member `key` of `v` (`Value::get`).
pub fn get<'a>(v: &'a JsonValue, key: &str) -> (res: Option<&'a JsonValue>)
    ensures
        res matches Some(x) ==> get_spec(*v, key@) == Some(*x),
        res is None ==> get_spec(*v, key@) is None,
{
    match v {
        JsonValue::Object(m) => {
            let mut i: usize = 0;
            proof {
                assert(m@.skip(0) =~= m@);
            }
            while i < m.len()
                invariant
                    i <= m@.len(),
                    get_spec(*v, key@) == lookup(m@, key@),
                    lookup(m@, key@) == lookup(m@.skip(i as int), key@),
                decreases m@.len() - i,
            {
                proof {
                    assert(m@.skip(i as int).drop_first() =~= m@.skip(i + 1));
                    assert(m@.skip(i as int)[0] == m@[i as int]);
                }
                if str_equal(m[i].0.as_str(), key) {
                    return Some(&m[i].1);
                }
                i += 1;
            }
            None
        },
        _ => None,
    }
}

/// The string in `v`, if it is one (`Value::as_str`).
pub fn as_str(v: &JsonValue) -> (res: Option<&String>)
    ensures
        res matches Some(s) ==> as_str_spec(*v) == Some(s@),
        res is None ==> as_str_spec(*v) is None,
{
    match v {
        JsonValue::Str(s) => Some(s),
        _ => None,
    }
}

/// The elements of `v`, if it is an array (`Value::as_array`).
pub fn as_array(v: &JsonValue) -> (res: Option<&Vec<JsonValue>>)
    ensures
        res matches Some(a) ==> as_array_spec(*v) == Some(a@),
        res is None ==> as_array_spec(*v) is None,
{
    match v {
        JsonValue::Array(a) => Some(a),
        _ => None,
    }
}

/// The number in `v`, if it is a non-negative integer fitting `u64`
/// (`Value::as_u64`).
pub fn as_u64(v: &JsonValue) -> (res: Option<u64>)
    ensures
        res == as_u64_spec(*v),
{
    match v {
        JsonValue::Number(JsonNumber::Unsigned(u)) => Some(*u),
        JsonValue::Number(JsonNumber::Negative(i)) => {
            if *i >= 0 {
                Some(*i as u64)
            } else {
                None
            }
        },
        _ => None,
    }
}

/// The characters of the string member `key` of `v`, empty when there is
/// none.
pub fn str_member_of(v: &JsonValue, key: &str) -> (res: String)
    ensures
        res@ == str_member(*v, key@),
{
    match get(v, key) {
        Some(x) => match as_str(x) {
            Some(s) => s.clone(),
            None => String::new(),
        },
        None => String::new(),
    }
}

// ---------------------------------------------------------------------------
// Requests
// ---------------------------------------------------------------------------

/// `v` is a request with the number 1 for the protocol method `method`,
/// written `{"id": 1, "method": method, "params": ...}`.
pub open spec fn is_request(v: JsonValue, method: Seq<char>) -> bool {
    match v {
        JsonValue::Object(m) => {
            &&& m@.len() == 3
            &&& m@[0].0@ == "id"@
            &&& m@[0].1 == JsonValue::Number(JsonNumber::Unsigned(1))
            &&& m@[1].0@ == "method"@
            &&& as_str_spec(m@[1].1) == Some(method)
            &&& m@[2].0@ == "params"@
        },
        _ => false,
    }
}

/// The parameters of a request.
pub open spec fn request_params(v: JsonValue) -> JsonValue {
    match v {
        JsonValue::Object(m) => m@[2].1,
        _ => JsonValue::Null,
    }
}

/// `v` is an object without members.
pub open spec fn is_empty_object(v: JsonValue) -> bool {
    match v {
        JsonValue::Object(m) => m@.len() == 0,
        _ => false,
    }
}

/// `v` answers the request with the number `id`: its member `id` is that
/// number (`v.get("id").and_then(|i| i.as_u64()) == Some(id)`).
pub open spec fn answers(v: JsonValue, id: u64) -> bool {
    match get_spec(v, "id"@) {
        Some(x) => as_u64_spec(x) == Some(id),
        None => false,
    }
}

/// A request carries the number its reply is recognised by: read as a
/// reply, a request answers the number 1.
pub proof fn lemma_request_answers_first(v: JsonValue, method: Seq<char>)
    requires
        is_request(v, method),
    ensures
        answers(v, 1),
{
    reveal_strlit("id");
    if let JsonValue::Object(m) = v {
        assert(lookup(m@, "id"@) == Some(m@[0].1));
    }
}

/// The request with the number 1 for `method` with the parameters `params`.
pub fn request(method: &str, params: JsonValue) -> (res: JsonValue)
    ensures
        is_request(res, method@),
        request_params(res) == params,
{
    let mut m: Vec<(String, JsonValue)> = Vec::new();
    m.push((String::from_str("id"), JsonValue::Number(JsonNumber::Unsigned(1))));
    m.push((String::from_str("method"), JsonValue::Str(String::from_str(method))));
    m.push((String::from_str("params"), params));
    JsonValue::Object(m)
}

/// An object without members.
pub fn empty_object() -> (res: JsonValue)
    ensures
        is_empty_object(res),
{
    JsonValue::Object(Vec::new())
}

/// Whether `v` answers the request with the number `id`.
pub fn answers_exec(v: &JsonValue, id: u64) -> (res: bool)
    ensures
        res == answers(*v, id),
{
    match get(v, "id") {
        Some(x) => match as_u64(x) {
            Some(n) => n == id,
            None => false,
        },
        None => false,
    }
}

/// The text of a request as it goes over the wire.
pub fn request_text(v: &JsonValue) -> (res: String)
    ensures
        res@ == serde_json_text(*v),
{
    json_text(v)
}

/// Whether `text` is a reply to the request with the number 1: it parses and
/// its member `id` is 1.
pub fn is_reply_to_first(text: &str) -> (res: bool)
    ensures
        res == (serde_json_parse(text@) matches Ok(v) && answers(v, 1)),
{
    match parse_json(text) {
        Ok(v) => answers_exec(&v, 1),
        Err(_) => false,
    }
}

} // verus!
