//! The JSON values of `serde_json` that tool definitions carry, and the
//! few constructors the library builds them with.
use vstd::prelude::*;
use serde_json::Value;

verus! {

/// `serde_json::Value`, carried as an opaque value.
#[verifier::external_type_specification]
#[verifier::external_body]
pub struct ExJsonValue(Value);

/// `serde_json::Map`, whose entries `json_entries` names.
#[verifier::external_type_specification]
#[verifier::external_body]
#[verifier::reject_recursive_types(K)]
#[verifier::reject_recursive_types(V)]
pub struct ExJsonMap<K, V>(serde_json::Map<K, V>);

/// The map of a JSON object.
pub type JsonMap = serde_json::Map<String, Value>;

/// The entries of a JSON object's map, by key.
pub uninterp spec fn json_entries(m: JsonMap) -> Map<Seq<char>, Value>;

/// The JSON string with the given text.
pub uninterp spec fn json_text(s: Seq<char>) -> Value;

/// The JSON object with the given entries.
pub uninterp spec fn json_object(entries: Map<Seq<char>, Value>) -> Value;

/// `serde_json::Map::new`: a map with no entries.
#[verifier::external_body]
pub(crate) fn json_map_new() -> (m: JsonMap)
    ensures
        json_entries(m).dom() == Set::<Seq<char>>::empty(),
{
    serde_json::Map::new()
}

/// `serde_json::Map::insert`: the entry for `k` becomes `v`; the value it
/// had before, if any, is returned.
#[verifier::external_body]
pub(crate) fn json_map_insert(m: &mut JsonMap, k: String, v: Value) -> (r:
    Option<Value>)
    ensures
        json_entries(*final(m)) == json_entries(*old(m)).insert(k@, v),
        r is Some <==> json_entries(*old(m)).dom().contains(k@),
        r is Some ==> r->0 == json_entries(*old(m))[k@],
{
    m.insert(k, v)
}

/// `Value::String`: the JSON string with the text of `s`.
#[verifier::external_body]
pub(crate) fn json_string(s: String) -> (v: Value)
    ensures
        v == json_text(s@),
{
    Value::String(s)
}

/// `Value::Object`: the JSON object with the entries of `m`.
#[verifier::external_body]
pub(crate) fn json_object_of(m: JsonMap) -> (v: Value)
    ensures
        v == json_object(json_entries(m)),
{
    Value::Object(m)
}

/// `Clone` of `Value`: an equal value.
pub assume_specification[ <serde_json::Value as std::clone::Clone>::clone ](v: &Value) -> (r: Value)
    ensures
        r == *v,
;

} // verus!
