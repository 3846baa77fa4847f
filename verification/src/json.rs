//! The boundary to the `serde_json` and `uuid` crates. JSON payloads are
//! carried through the library as opaque `serde_json::Value`s; everything the
//! library reads of a value, or builds into one, goes through the trusted
//! items here. Their contracts speak over named spec functions of the value's
//! contents, which the rest of the crate is verified against.
use vstd::prelude::*;

verus! {

#[verifier::external_type_specification]
#[verifier::external_body]
pub struct ExValue(serde_json::Value);

#[verifier::external_type_specification]
#[verifier::external_body]
#[verifier::reject_recursive_types(K)]
#[verifier::reject_recursive_types(V)]
pub struct ExJsonMap<K, V>(serde_json::Map<K, V>);

#[verifier::external_type_specification]
#[verifier::external_body]
pub struct ExJsonError(serde_json::Error);

/// The fields of a JSON value, if it is an object.
pub uninterp spec fn obj_fields(v: serde_json::Value) -> Option<
    Map<Seq<char>, serde_json::Value>,
>;

/// The elements of a JSON value, if it is an array.
pub uninterp spec fn arr_elems(v: serde_json::Value) -> Option<Seq<serde_json::Value>>;

/// The characters of a JSON value, if it is a string.
pub uninterp spec fn str_val(v: serde_json::Value) -> Option<Seq<char>>;

/// The integer a JSON value holds, if it is a number representable as `i64`.
pub uninterp spec fn int_val(v: serde_json::Value) -> Option<int>;

/// What a `serde_json::Map` holds.
pub uninterp spec fn map_entries(m: serde_json::Map<String, serde_json::Value>) -> Map<
    Seq<char>,
    serde_json::Value,
>;

/// The bytes `serde_json` writes for a value; a function of the value alone.
pub uninterp spec fn ser_of(v: serde_json::Value) -> Seq<u8>;

/// The value `serde_json` reads from a byte string, if it is valid JSON;
/// a function of the bytes alone.
pub uninterp spec fn parse_of(b: Seq<u8>) -> Option<serde_json::Value>;

/// Relies on `serde_json::Value::is_object`: true exactly of JSON objects.
#[verifier::external_body]
pub(crate) fn value_is_object(v: &serde_json::Value) -> (r: bool)
    ensures
        r == (obj_fields(*v) is Some),
{
    v.is_object()
}

/// Relies on `serde_json::Value::get` with a string index: on an object, the
/// field under that key; `None` on other values and absent keys.
#[verifier::external_body]
pub(crate) fn value_get<'a>(v: &'a serde_json::Value, key: &str) -> (r: Option<
    &'a serde_json::Value,
>)
    ensures
        match obj_fields(*v) {
            Some(f) => match r {
                Some(x) => f.contains_key(key@) && *x == f[key@],
                None => !f.contains_key(key@),
            },
            None => r is None,
        },
{
    v.get(key)
}

/// Relies on `serde_json::Value::as_str`: the characters of a JSON string.
#[verifier::external_body]
pub(crate) fn value_as_str<'a>(v: &'a serde_json::Value) -> (r: Option<&'a str>)
    ensures
        match r {
            Some(s) => str_val(*v) == Some(s@),
            None => str_val(*v) is None,
        },
{
    v.as_str()
}

/// Relies on `serde_json::Value::as_array`: the elements of a JSON array.
#[verifier::external_body]
pub(crate) fn value_as_array<'a>(v: &'a serde_json::Value) -> (r: Option<
    &'a Vec<serde_json::Value>,
>)
    ensures
        match r {
            Some(a) => arr_elems(*v) == Some(a@),
            None => arr_elems(*v) is None,
        },
{
    v.as_array()
}

/// Relies on `serde_json::Value::as_i64`: the number a JSON value holds, when
/// it is an integer in `i64` range.
#[verifier::external_body]
pub(crate) fn value_as_i64(v: &serde_json::Value) -> (r: Option<i64>)
    ensures
        match r {
            Some(i) => int_val(*v) == Some(i as int),
            None => int_val(*v) is None,
        },
{
    v.as_i64()
}

/// Relies on `serde_json::Value::clone`: a deep copy is the same value.
pub assume_specification[ <serde_json::Value as Clone>::clone ](v: &serde_json::Value) -> (r:
    serde_json::Value)
    ensures
        r == *v,
;

/// Relies on `serde_json::Map::new`: a fresh map holds nothing.
#[verifier::external_body]
pub(crate) fn new_object_map() -> (r: serde_json::Map<String, serde_json::Value>)
    ensures
        forall|k: Seq<char>| !map_entries(r).contains_key(k),
{
    serde_json::Map::new()
}

/// Relies on `serde_json::Map::insert`: the map then binds the key to the
/// value, every other binding unchanged.
#[verifier::external_body]
pub(crate) fn map_insert(
    m: &mut serde_json::Map<String, serde_json::Value>,
    k: String,
    v: serde_json::Value,
)
    ensures
        map_entries(*final(m)) == map_entries(*old(m)).insert(k@, v),
{
    m.insert(k, v);
}

/// Relies on the `serde_json::Value::String` constructor.
#[verifier::external_body]
pub(crate) fn make_string_value(s: String) -> (r: serde_json::Value)
    ensures
        str_val(r) == Some(s@),
{
    serde_json::Value::String(s)
}

/// Relies on the `serde_json::Value::Object` constructor.
#[verifier::external_body]
pub(crate) fn make_object_value(m: serde_json::Map<String, serde_json::Value>) -> (r:
    serde_json::Value)
    ensures
        obj_fields(r) == Some(map_entries(m)),
{
    serde_json::Value::Object(m)
}

/// Relies on `serde_json::to_vec`: the serialized bytes of a value, a
/// function of the value alone. Serializing a `Value` cannot fail: every
/// JSON map it may hold is keyed by strings.
#[verifier::external_body]
pub(crate) fn value_to_bytes(v: &serde_json::Value) -> (r: Vec<u8>)
    ensures
        r@ == ser_of(*v),
{
    match serde_json::to_vec(v) {
        Ok(b) => b,
        Err(_) => Vec::new(),
    }
}

/// Relies on `serde_json::from_slice`: the value a byte string parses to, a
/// function of the bytes alone; an error exactly when they are not JSON.
#[verifier::external_body]
pub(crate) fn parse_value(b: &[u8]) -> (r: Result<serde_json::Value, serde_json::Error>)
    ensures
        match r {
            Ok(v) => parse_of(b@) == Some(v),
            Err(_) => parse_of(b@) is None,
        },
{
    serde_json::from_slice(b)
}

/// Relies on `uuid::Uuid::new_v4`: a freshly drawn random id, rendered in
/// its hyphenated form. Nothing can be promised of a random value.
#[verifier::external_body]
pub(crate) fn fresh_request_id() -> String {
    uuid::Uuid::new_v4().to_string()
}

} // verus!
