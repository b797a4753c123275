//! The library's own JSON tree, and the trusted boundary to the
//! `serde_json` parser.
//!
//! Parsing stays with `serde_json`; everything after it — walking the
//! document, checking its shape, normalizing its quirks — is verified
//! code over the plain [`Json`] tree below. Object entries keep the
//! order the parser hands them out in (sorted by key), and both
//! trusted steps are deterministic functions of their input, which the
//! two uninterpreted names state.

use vstd::prelude::*;

verus! {

/// A JSON document as plain data.
///
/// Numbers are kept as `i64`; a number outside that range (or one with
/// a fractional part) becomes [`Json::OtherNumber`], which no schema
/// field of this crate accepts.
#[derive(Debug)]
pub enum Json {
    Null,
    Bool(bool),
    Num(i64),
    OtherNumber,
    Str(String),
    Arr(Vec<Json>),
    Obj(Vec<(String, Json)>),
}

#[verifier::external_type_specification]
#[verifier::external_body]
pub struct ExValue(serde_json::Value);

/// The parse of a byte sequence: `None` when the bytes are not valid
/// JSON. `serde_json::from_slice` is deterministic, so the parse is a
/// function of the bytes alone.
pub uninterp spec fn value_of(b: Seq<u8>) -> Option<serde_json::Value>;

/// The plain tree held by a parsed document. The conversion reads the
/// document's public variants only, so it is a function of the parsed
/// value alone.
pub uninterp spec fn json_of(v: serde_json::Value) -> Json;

/// Relies on `serde_json::from_slice::<Value>`: parses the bytes, or
/// reports `None` when they are not a JSON document.
#[verifier::external_body]
pub(crate) fn parse_value(b: &[u8]) -> (r: Option<serde_json::Value>)
    ensures
        r == value_of(b@),
{
    serde_json::from_slice::<serde_json::Value>(b).ok()
}

/// Relies on `serde_json::Value`'s public variants and
/// `serde_json::Number::as_i64`: converts the parsed document to the
/// plain tree, one variant per arm, keeping object entries in the
/// order `serde_json::Map::iter` yields them (sorted by key).
#[verifier::external_body]
pub(crate) fn to_json(v: &serde_json::Value) -> (r: Json)
    ensures
        r == json_of(*v),
{
    match v {
        serde_json::Value::Null => Json::Null,
        serde_json::Value::Bool(b) => Json::Bool(*b),
        serde_json::Value::Number(n) => match n.as_i64() {
            Some(i) => Json::Num(i),
            None => Json::OtherNumber,
        },
        serde_json::Value::String(s) => Json::Str(s.clone()),
        serde_json::Value::Array(a) => Json::Arr(a.iter().map(to_json).collect()),
        serde_json::Value::Object(m) => Json::Obj(
            m.iter().map(|(k, x)| (k.clone(), to_json(x))).collect(),
        ),
    }
}

/// The first entry of `es` whose key reads `key`, if any.
pub open spec fn spec_obj_get(es: Seq<(String, Json)>, key: Seq<char>) -> Option<Json>
    decreases es.len(),
{
    if es.len() == 0 {
        None
    } else if es[0].0@ == key {
        Some(es[0].1)
    } else {
        spec_obj_get(es.drop_first(), key)
    }
}

/// The field `key` of `j`, when `j` is an object that has it.
pub open spec fn spec_field(j: Json, key: Seq<char>) -> Option<Json> {
    match j {
        Json::Obj(es) => spec_obj_get(es@, key),
        _ => None,
    }
}

proof fn lemma_obj_get_skip(es: Seq<(String, Json)>, key: Seq<char>, i: int)
    requires
        0 <= i <= es.len(),
        forall|j: int| 0 <= j < i ==> (#[trigger] es[j]).0@ != key,
    ensures
        spec_obj_get(es, key) == spec_obj_get(es.skip(i), key),
    decreases i,
{
    if i > 0 {
        lemma_obj_get_skip(es.drop_first(), key, i - 1);
        assert(es.drop_first().skip(i - 1) =~= es.skip(i));
    } else {
        assert(es.skip(0) =~= es);
    }
}

/// Looks a key up among an object's entries.
pub(crate) fn obj_get<'a>(es: &'a Vec<(String, Json)>, key: &str) -> (r: Option<&'a Json>)
    ensures
        match r {
            Some(x) => spec_obj_get(es@, key@) == Some(*x),
            None => spec_obj_get(es@, key@) is None,
        },
{
    let mut i: usize = 0;
    while i < es.len()
        invariant
            0 <= i <= es@.len(),
            forall|j: int| 0 <= j < i ==> (#[trigger] es@[j]).0@ != key@,
        decreases es@.len() - i,
    {
        if crate::util::str_eq(es[i].0.as_str(), key) {
            proof {
                lemma_obj_get_skip(es@, key@, i as int);
                assert(es@.skip(i as int)[0] == es@[i as int]);
            }
            return Some(&es[i].1);
        }
        i = i + 1;
    }
    proof {
        lemma_obj_get_skip(es@, key@, es@.len() as int);
    }
    None
}

} // verus!
