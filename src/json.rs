//! The JSON values that records are made of, as serde_json gives them, and
//! what the library relies on of serde_json.
use vstd::prelude::*;

verus! {

#[verifier::external_type_specification]
#[verifier::external_body]
pub struct ExValue(serde_json::Value);

#[verifier::external_type_specification]
#[verifier::external_body]
#[verifier::reject_recursive_types(K)]
#[verifier::reject_recursive_types(V)]
pub struct ExJsonMap<K, V>(serde_json::Map<K, V>);

#[verifier::external_type_specification]
#[verifier::external_body]
pub struct ExJsonError(serde_json::Error);

/// An object's members: the keys and the value under each.
pub type JsonMap = serde_json::Map<String, serde_json::Value>;

/// The members of a JSON value that is an object; `None` for any other value.
pub uninterp spec fn object_entries(v: serde_json::Value) -> Option<Map<Seq<char>, serde_json::Value>>;

/// What a serde_json map holds: each key with its value.
pub uninterp spec fn map_entries(m: JsonMap) -> Map<Seq<char>, serde_json::Value>;

/// The values that a byte stream of whitespace-separated JSON texts decodes to,
/// in order; `None` where some text in it is malformed.
pub uninterp spec fn decoded_records(b: Seq<u8>) -> Option<Seq<serde_json::Value>>;

/// The compact JSON text of a value, `None` where it cannot be encoded.
pub uninterp spec fn encoded_value(v: serde_json::Value) -> Option<Seq<u8>>;

/// Relies on `serde_json::Value::as_object`: the map of an object, nothing otherwise.
#[verifier::external_body]
pub(crate) fn value_as_object(v: &serde_json::Value) -> (r: Option<&JsonMap>)
    ensures
        r is Some <==> object_entries(*v) is Some,
        r matches Some(m) ==> object_entries(*v) == Some(map_entries(*m)),
{
    v.as_object()
}

/// Relies on the `serde_json::Value::Object` variant: the map of an object
/// value is taken out of it; any other value comes back unchanged.
#[verifier::external_body]
pub(crate) fn into_object(v: serde_json::Value) -> (r: Result<JsonMap, serde_json::Value>)
    ensures
        r matches Ok(m) ==> object_entries(v) == Some(map_entries(m)),
        r matches Err(w) ==> w == v && object_entries(v) is None,
{
    match v {
        serde_json::Value::Object(m) => Ok(m),
        other => Err(other),
    }
}

/// Relies on the `Value::Object` variant: an object value with the map's members.
#[verifier::external_body]
pub(crate) fn from_object(m: JsonMap) -> (r: serde_json::Value)
    ensures
        object_entries(r) == Some(map_entries(m)),
{
    serde_json::Value::Object(m)
}

/// Relies on `serde_json::Map::get`: the value under the key, if there is one.
#[verifier::external_body]
pub(crate) fn map_get<'a>(m: &'a JsonMap, k: &str) -> (r: Option<&'a serde_json::Value>)
    ensures
        r is Some <==> map_entries(*m).contains_key(k@),
        r matches Some(x) ==> *x == map_entries(*m)[k@],
{
    m.get(k)
}

/// Relies on `serde_json::Map::remove`: takes out the key and hands back its value.
#[verifier::external_body]
pub(crate) fn map_remove(m: &mut JsonMap, k: &str) -> (r: Option<serde_json::Value>)
    ensures
        map_entries(*final(m)) == map_entries(*old(m)).remove(k@),
        r is Some <==> map_entries(*old(m)).contains_key(k@),
        r matches Some(x) ==> x == map_entries(*old(m))[k@],
{
    m.remove(k)
}

/// Relies on `serde_json::Map::insert`: the key now holds the value; the
/// value it held before, if any, is dropped.
#[verifier::external_body]
pub(crate) fn map_insert(m: &mut JsonMap, k: String, v: serde_json::Value)
    ensures
        map_entries(*final(m)) == map_entries(*old(m)).insert(k@, v),
{
    m.insert(k, v);
}

/// Relies on serde_json's `StreamDeserializer` over a byte slice, collected:
/// every value of the stream in order, or the first error met.
#[verifier::external_body]
pub(crate) fn decode_records(b: &[u8]) -> (r: Result<Vec<serde_json::Value>, serde_json::Error>)
    ensures
        r matches Ok(vs) ==> decoded_records(b@) == Some(vs@),
        r is Err ==> decoded_records(b@) is None,
{
    serde_json::Deserializer::from_slice(b).into_iter::<serde_json::Value>().collect()
}

/// Relies on `serde_json::to_vec`: the compact JSON text of the value, or an error.
#[verifier::external_body]
pub(crate) fn encode_value(v: &serde_json::Value) -> (r: Result<Vec<u8>, serde_json::Error>)
    ensures
        r matches Ok(b) ==> encoded_value(*v) == Some(b@),
        r is Err <==> encoded_value(*v) is None,
{
    serde_json::to_vec(v)
}

} // verus!
