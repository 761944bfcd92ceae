//! JSON objects of token claims, built and read through `serde_json`.
use vstd::prelude::*;

use crate::text::strs;

verus! {

#[verifier::external_type_specification]
#[verifier::external_body]
#[verifier::reject_recursive_types(K)]
#[verifier::reject_recursive_types(V)]
pub struct ExJsonMap<K, V>(serde_json::Map<K, V>);

#[verifier::external_type_specification]
#[verifier::external_body]
pub struct ExJsonValue(serde_json::Value);

/// A JSON object.
pub type JsonObject = serde_json::Map<String, serde_json::Value>;

/// A claim value, as the token rules read it.
pub enum ClaimValue {
    /// A JSON string.
    Text(Seq<char>),
    /// A JSON number that fits an `i64`.
    Integer(i64),
    /// A JSON array; each element is its text when it is a string.
    List(Seq<Option<Seq<char>>>),
    /// Any other JSON value.
    Other,
}

/// What a `serde_json` object holds, claim by claim.
pub uninterp spec fn json_claims(m: JsonObject) -> Map<Seq<char>, ClaimValue>;

/// The text of claim `k`, when it is a string.
pub open spec fn text_claim(c: Map<Seq<char>, ClaimValue>, k: Seq<char>) -> Option<Seq<char>> {
    if c.contains_key(k) {
        match c[k] {
            ClaimValue::Text(s) => Some(s),
            _ => None,
        }
    } else {
        None
    }
}

/// The number of claim `k`, when it is an integer that fits an `i64`.
pub open spec fn int_claim(c: Map<Seq<char>, ClaimValue>, k: Seq<char>) -> Option<i64> {
    if c.contains_key(k) {
        match c[k] {
            ClaimValue::Integer(n) => Some(n),
            _ => None,
        }
    } else {
        None
    }
}

/// The elements of claim `k`, when it is an array.
pub open spec fn list_claim(c: Map<Seq<char>, ClaimValue>, k: Seq<char>) -> Option<Seq<Option<Seq<char>>>> {
    if c.contains_key(k) {
        match c[k] {
            ClaimValue::List(items) => Some(items),
            _ => None,
        }
    } else {
        None
    }
}

/// Each string, as an array element that is a string.
pub open spec fn some_texts(v: Seq<Seq<char>>) -> Seq<Option<Seq<char>>> {
    v.map_values(|s: Seq<char>| Some(s))
}

/// The strings of claim `k`, when it is an array of strings only.
pub open spec fn text_list_claim(c: Map<Seq<char>, ClaimValue>, k: Seq<char>) -> Option<Seq<Seq<char>>> {
    match list_claim(c, k) {
        Some(items) => if forall|i: int| 0 <= i < items.len() ==> (#[trigger] items[i]) is Some {
            Some(items.map_values(|x: Option<Seq<char>>| x->0))
        } else {
            None
        },
        None => None,
    }
}

/// The claims of an empty object.
pub open spec fn no_claims() -> Map<Seq<char>, ClaimValue> {
    Map::empty()
}

/// A new empty object.
///
/// Calls `serde_json::Map::new`; the contract states that the object is empty.
#[verifier::external_body]
pub(crate) fn json_object() -> (r: JsonObject)
    ensures
        json_claims(r) == no_claims(),
{
    serde_json::Map::new()
}

/// Stores a string under `k`.
///
/// Calls `serde_json::Map::insert` with a `Value::String`; the contract states that
/// `k` now holds that string and that every other key is unchanged.
#[verifier::external_body]
pub(crate) fn json_put_text(m: &mut JsonObject, k: &str, v: &str)
    ensures
        json_claims(*final(m)) == json_claims(*old(m)).insert(k@, ClaimValue::Text(v@)),
{
    m.insert(k.to_string(), serde_json::Value::String(v.to_string()));
}

/// Stores a number under `k`.
///
/// Calls `serde_json::Map::insert` with `Value::from(v)`; the contract states that
/// `k` now holds that number and that every other key is unchanged.
#[verifier::external_body]
pub(crate) fn json_put_int(m: &mut JsonObject, k: &str, v: i64)
    ensures
        json_claims(*final(m)) == json_claims(*old(m)).insert(k@, ClaimValue::Integer(v)),
{
    m.insert(k.to_string(), serde_json::Value::from(v));
}

/// Stores an array of strings under `k`.
///
/// Calls `serde_json::Map::insert` with a `Value::Array` of `Value::String`s; the
/// contract states that `k` now holds those strings, in order, and that every other
/// key is unchanged.
#[verifier::external_body]
pub(crate) fn json_put_text_list(m: &mut JsonObject, k: &str, v: &Vec<String>)
    ensures
        json_claims(*final(m)) == json_claims(*old(m)).insert(k@, ClaimValue::List(some_texts(strs(v@)))),
{
    m.insert(k.to_string(), serde_json::Value::Array(v.iter().map(|s| serde_json::Value::String(s.clone())).collect()));
}

/// The string under `k`.
///
/// Calls `serde_json::Map::get`; the contract states that a string comes back
/// exactly when `k` holds one.
#[verifier::external_body]
pub(crate) fn json_get_text(m: &JsonObject, k: &str) -> (r: Option<String>)
    ensures
        match r {
            Some(s) => text_claim(json_claims(*m), k@) == Some(s@),
            None => text_claim(json_claims(*m), k@) is None,
        },
{
    match m.get(k) {
        Some(serde_json::Value::String(s)) => Some(s.clone()),
        _ => None,
    }
}

/// The number under `k`, when it fits an `i64`.
///
/// Calls `serde_json::Map::get` and `Value::as_i64`; the contract states that a
/// number comes back exactly when `k` holds one that fits an `i64`.
#[verifier::external_body]
pub(crate) fn json_get_int(m: &JsonObject, k: &str) -> (r: Option<i64>)
    ensures
        r == int_claim(json_claims(*m), k@),
{
    match m.get(k) {
        Some(v) => v.as_i64(),
        None => None,
    }
}

/// The length of the array under `k`.
///
/// Calls `serde_json::Map::get` and reads the `Value::Array`; the contract states
/// that a length comes back exactly when `k` holds an array.
#[verifier::external_body]
pub(crate) fn json_list_len(m: &JsonObject, k: &str) -> (r: Option<usize>)
    ensures
        match r {
            Some(n) => list_claim(json_claims(*m), k@) matches Some(items) && items.len() == n,
            None => list_claim(json_claims(*m), k@) is None,
        },
{
    match m.get(k) {
        Some(serde_json::Value::Array(items)) => Some(items.len()),
        _ => None,
    }
}

/// Element `i` of the array under `k`, when it is a string.
///
/// Calls `serde_json::Map::get` and reads element `i` of the `Value::Array`; the
/// contract states that a string comes back exactly when that element is one.
#[verifier::external_body]
pub(crate) fn json_list_text(m: &JsonObject, k: &str, i: usize) -> (r: Option<String>)
    requires
        list_claim(json_claims(*m), k@) matches Some(items) && i < items.len(),
    ensures
        match r {
            Some(s) => list_claim(json_claims(*m), k@)->0[i as int] == Some(s@),
            None => list_claim(json_claims(*m), k@)->0[i as int] is None,
        },
{
    match m.get(k) {
        Some(serde_json::Value::Array(items)) => match &items[i] {
            serde_json::Value::String(s) => Some(s.clone()),
            _ => None,
        },
        _ => None,
    }
}

/// The strings of the array under `k`, when it is an array of strings only.
pub fn json_get_text_list(m: &JsonObject, k: &str) -> (r: Option<Vec<String>>)
    ensures
        match r {
            Some(v) => text_list_claim(json_claims(*m), k@) == Some(strs(v@)),
            None => text_list_claim(json_claims(*m), k@) is None,
        },
{
    match json_list_len(m, k) {
        Some(n) => {
            let ghost items = list_claim(json_claims(*m), k@)->0;
            let mut out: Vec<String> = Vec::new();
            let mut i: usize = 0;
            while i < n
                invariant
                    list_claim(json_claims(*m), k@) == Some(items),
                    items.len() == n,
                    i <= n,
                    out@.len() == i,
                    forall|j: int| 0 <= j < i ==> items[j] == Some(#[trigger] out@[j]@),
                decreases n - i,
            {
                match json_list_text(m, k, i) {
                    Some(s) => {
                        out.push(s);
                    },
                    None => {
                        assert(!(items[i as int] is Some));
                        return None;
                    },
                }
                i = i + 1;
            }
            assert forall|j: int| 0 <= j < items.len() implies (#[trigger] items[j]) is Some by {
                assert(items[j] == Some(out@[j]@));
            }
            assert(items.map_values(|x: Option<Seq<char>>| x->0) =~= strs(out@));
            Some(out)
        },
        None => None,
    }
}

} // verus!
