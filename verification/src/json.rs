use vstd::prelude::*;

verus! {

/// The mathematical shape of a parsed JSON document. A number is either
/// stored by the parser as an exact integer (`Int`) or as something else
/// (`NonIntNum`, e.g. a fractional number).
pub ghost enum JsonData {
    Null,
    Bool(bool),
    Int(int),
    NonIntNum,
    Str(Seq<char>),
    Arr(Seq<JsonData>),
    Obj(Map<Seq<char>, JsonData>),
}

#[verifier::external_type_specification]
#[verifier::external_body]
pub struct ExValue(serde_json::Value);

#[verifier::external_type_specification]
#[verifier::external_body]
pub struct ExError(serde_json::Error);

/// What a `serde_json::Value` holds.
pub uninterp spec fn json_model(v: serde_json::Value) -> JsonData;

/// What `serde_json::from_slice::<serde_json::Value>` returns on a given
/// byte string: `None` when the bytes are not a valid JSON document. The
/// result is a function of the bytes alone.
pub uninterp spec fn json_parsed(s: Seq<u8>) -> Option<JsonData>;

/// Relies on serde_json::from_slice::<Value>: parses a byte string as one
/// JSON document, deterministically in the bytes.
#[verifier::external_body]
pub fn parse_json(body: &[u8]) -> (r: Result<serde_json::Value, serde_json::Error>)
    ensures
        r matches Ok(v) ==> json_parsed(body@) == Some(json_model(v)),
        r matches Err(_) ==> json_parsed(body@) is None,
{
    serde_json::from_slice(body)
}

/// Relies on serde_json::Value::get with a string index: for an object, the
/// member named `key` when there is one; `None` otherwise.
#[verifier::external_body]
pub fn json_get<'a>(v: &'a serde_json::Value, key: &str) -> (r: Option<
    &'a serde_json::Value,
>)
    ensures
        match json_model(*v) {
            JsonData::Obj(m) => {
                &&& m.contains_key(key@) ==> (r matches Some(u) && json_model(*u) == m[key@])
                &&& !m.contains_key(key@) ==> r is None
            },
            _ => r is None,
        },
{
    v.get(key)
}

/// Relies on serde_json::Value::is_null.
#[verifier::external_body]
pub fn json_is_null(v: &serde_json::Value) -> (r: bool)
    ensures
        r <==> json_model(*v) is Null,
{
    v.is_null()
}

/// Relies on serde_json::Value::is_object.
#[verifier::external_body]
pub fn json_is_object(v: &serde_json::Value) -> (r: bool)
    ensures
        r <==> json_model(*v) is Obj,
{
    v.is_object()
}

/// Relies on serde_json::Value::as_i64: the value of a number that the
/// parser stored as an integer, when it fits in an i64.
#[verifier::external_body]
pub fn json_as_i64(v: &serde_json::Value) -> (r: Option<i64>)
    ensures
        match json_model(*v) {
            JsonData::Int(n) => {
                if i64::MIN <= n <= i64::MAX {
                    r == Some(n as i64)
                } else {
                    r is None
                }
            },
            _ => r is None,
        },
{
    v.as_i64()
}

/// Relies on serde_json::Value::as_str.
#[verifier::external_body]
pub fn json_as_str<'a>(v: &'a serde_json::Value) -> (r: Option<&'a str>)
    ensures
        match json_model(*v) {
            JsonData::Str(t) => r matches Some(s) && s@ == t,
            _ => r is None,
        },
{
    v.as_str()
}

/// Relies on serde_json::Value::as_bool.
#[verifier::external_body]
pub fn json_as_bool(v: &serde_json::Value) -> (r: Option<bool>)
    ensures
        match json_model(*v) {
            JsonData::Bool(b) => r == Some(b),
            _ => r is None,
        },
{
    v.as_bool()
}

/// Relies on serde_json::Value::as_array.
#[verifier::external_body]
pub fn json_as_array<'a>(v: &'a serde_json::Value) -> (r: Option<&'a Vec<serde_json::Value>>)
    ensures
        match json_model(*v) {
            JsonData::Arr(elts) => r matches Some(a) && a@.len() == elts.len() && (forall|i: int|
                0 <= i < elts.len() ==> json_model(a@[i]) == elts[i]),
            _ => r is None,
        },
{
    v.as_array()
}

} // verus!
