//! JSON text codec for the store.
//!
//! The store keeps every value as the text of its JSON encoding and keeps the
//! whole backing file as the text of one JSON object.  All encoding and
//! decoding is done by serde_json; the spec functions below name the results
//! of those calls, and the trusted wrappers state what serde_json's source
//! shows about them.
//!
//! The crate turns serde_json's `float_roundtrip` feature on.  The stability
//! of value texts stated here rests on it for numbers that parse as `f64`:
//! the feature's documented guarantee is that parsing and re-encoding such a
//! number reproduces it exactly, where the default parser is best-effort
//! and may return a neighbouring value.

use vstd::prelude::*;

verus! {

/// The JSON encoding of a string value, in serde_json's compact form
/// (the result of `serde_json::to_string` on a string slice).
pub uninterp spec fn json_of_string(s: Seq<char>) -> Seq<char>;

/// What `serde_json::from_str::<String>` returns on a text: the decoded
/// string when the text is a JSON string, nothing otherwise.
pub uninterp spec fn decoded_string(t: Seq<char>) -> Option<Seq<char>>;

/// The JSON encoding of a 64-bit integer value, in serde_json's compact form
/// (the result of `serde_json::to_string` on an `i64`).
pub uninterp spec fn json_of_i64(n: int) -> Seq<char>;

/// What `serde_json::from_str::<i64>` returns on a text: the decoded integer
/// when the text is a JSON number in range, nothing otherwise.
pub uninterp spec fn decoded_i64(t: Seq<char>) -> Option<int>;

/// Holds of a text that is exactly serde_json's compact encoding of the JSON
/// value it denotes, so that parsing it and encoding the parse again gives
/// the text back unchanged.  For texts denoting an `f64` this rests on the
/// `float_roundtrip` feature, which makes the parse return exactly the value
/// the text encodes.
pub uninterp spec fn canonical_text(t: Seq<char>) -> bool;

/// The pretty-printed text of the JSON object whose entries are the given
/// map, each value given by its canonical encoding (the result of
/// `serde_json::to_string_pretty`; serde_json writes object keys in sorted
/// order, so the text is a function of the map alone).
pub uninterp spec fn text_of_store(m: Map<Seq<char>, Seq<char>>) -> Seq<char>;

/// What parsing a text as a JSON object gives: the entries with every value
/// put back into its canonical encoding, or nothing when the text is not a
/// JSON object.
pub uninterp spec fn store_of_text(t: Seq<char>) -> Option<Map<Seq<char>, Seq<char>>>;

/// The text of the empty JSON object, the content of a store that holds
/// no keys yet.
pub open spec fn empty_object_text() -> Seq<char> {
    seq!['{', '}']
}

/// The entries of an association list, later pairs overriding earlier ones
/// with the same key, as serde_json's object type does.
pub open spec fn map_of_pairs(ps: Seq<(String, String)>) -> Map<Seq<char>, Seq<char>>
    decreases ps.len(),
{
    if ps.len() == 0 {
        Map::empty()
    } else {
        map_of_pairs(ps.drop_last()).insert(ps.last().0@, ps.last().1@)
    }
}

/// Relies on `serde_json::to_string` on a string slice: it returns the JSON
/// string for it, which is canonical, decodes back to the same string, and is
/// not a JSON number.  Serializing a string slice cannot fail.
#[verifier::external_body]
pub(crate) fn encode_string(s: &str) -> (r: String)
    ensures
        r@ == json_of_string(s@),
        canonical_text(r@),
        decoded_string(r@) == Some(s@),
        decoded_i64(r@) is None,
{
    serde_json::to_string(s).expect("serializing a string slice cannot fail")
}

/// Relies on `serde_json::from_str::<String>`: it returns the decoded string
/// exactly when the text is a JSON string.
#[verifier::external_body]
pub(crate) fn decode_string(t: &str) -> (r: Option<String>)
    ensures
        match r {
            Some(s) => decoded_string(t@) == Some(s@),
            None => decoded_string(t@) is None,
        },
{
    serde_json::from_str(t).ok()
}

/// Relies on `serde_json::to_string` on an `i64`: it returns the JSON number
/// for it, which is canonical, decodes back to the same integer, and is not a
/// JSON string.  Serializing an integer cannot fail.
#[verifier::external_body]
pub(crate) fn encode_i64(n: i64) -> (r: String)
    ensures
        r@ == json_of_i64(n as int),
        canonical_text(r@),
        decoded_i64(r@) == Some(n as int),
        decoded_string(r@) is None,
{
    serde_json::to_string(&n).expect("serializing an integer cannot fail")
}

/// Relies on `serde_json::from_str::<i64>`: it returns the decoded integer
/// exactly when the text is a JSON number that fits in an `i64`.
#[verifier::external_body]
pub(crate) fn decode_i64(t: &str) -> (r: Option<i64>)
    ensures
        match r {
            Some(n) => decoded_i64(t@) == Some(n as int),
            None => decoded_i64(t@) is None,
        },
{
    serde_json::from_str(t).ok()
}

/// Relies on `serde_json::from_str::<serde_json::Map<String, serde_json::Value>>`
/// and `serde_json::to_string` on each value: the text parses exactly when it
/// is one JSON object, and each value comes back as its canonical encoding,
/// under its key, keys distinct and in sorted order.  Canonicity of the
/// returned value texts rests on `float_roundtrip` where a value is an `f64`.
#[verifier::external_body]
pub(crate) fn parse_store_text(t: &str) -> (r: Option<Vec<(String, String)>>)
    ensures
        r is None ==> store_of_text(t@) is None,
        r is None ==> t@ != empty_object_text(),
        r matches Some(ps) ==> store_of_text(t@) == Some(map_of_pairs(ps@)),
        r matches Some(ps) ==> (forall|i: int, j: int|
            0 <= i < j < ps@.len() ==> (#[trigger] ps@[i]).0@ != (#[trigger] ps@[j]).0@),
        r matches Some(ps) ==> (forall|i: int|
            0 <= i < ps@.len() ==> canonical_text((#[trigger] ps@[i]).1@)),
        r matches Some(ps) ==> (t@ == empty_object_text() ==> ps@.len() == 0),
{
    let obj: serde_json::Map<String, serde_json::Value> = match serde_json::from_str(t) {
        Ok(m) => m,
        Err(_) => return None,
    };
    let mut out: Vec<(String, String)> = Vec::new();
    for (k, v) in obj {
        match serde_json::to_string(&v) {
            Ok(vt) => out.push((k, vt)),
            Err(_) => return None,
        }
    }
    Some(out)
}

/// Relies on `serde_json::to_string_pretty` on the JSON object rebuilt from
/// the entries with `serde_json::from_str`: when every value text is
/// canonical, the rebuild succeeds and the pretty-printed object text parses
/// back to exactly these entries (for `f64` values again by
/// `float_roundtrip`).
#[verifier::external_body]
pub(crate) fn store_text_of_pairs(ps: &Vec<(String, String)>) -> (r: Option<String>)
    ensures
        r is None ==> !(forall|i: int| 0 <= i < ps@.len() ==> canonical_text(
            (#[trigger] ps@[i]).1@,
        )),
        r matches Some(t) ==> ((forall|i: int|
            0 <= i < ps@.len() ==> canonical_text((#[trigger] ps@[i]).1@)) ==> t@ == text_of_store(
            map_of_pairs(ps@),
        ) && store_of_text(t@) == Some(map_of_pairs(ps@))),
{
    let mut obj = serde_json::Map::new();
    for i in 0..ps.len() {
        match serde_json::from_str::<serde_json::Value>(&ps[i].1) {
            Ok(v) => obj.insert(ps[i].0.clone(), v),
            Err(_) => return None,
        };
    }
    serde_json::to_string_pretty(&serde_json::Value::Object(obj)).ok()
}

} // verus!
