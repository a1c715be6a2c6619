//! The trusted boundary to the JSON text parser.
//!
//! Reading a JSON document out of raw bytes is delegated to `serde_json`;
//! everything after the parse — discrimination, dispatch, binding — is
//! verified against the returned `Json` value. `json_of` names the document
//! that `serde_json` reads from a given byte sequence; nothing else is
//! assumed about the text grammar.

use vstd::prelude::*;

use crate::json::Json;
use crate::json::JsonV;
use crate::text::nums_wf;

verus! {

#[verifier::external_type_specification]
#[verifier::external_body]
pub struct ExValue(serde_json::Value);

/// The document a `serde_json::Value` represents: `Null`, `Bool` and
/// `String` map to their like-named shapes, an integer number (stored by
/// `serde_json` as a `u64` or `i64`) to `Int`, any other number to `Num`
/// carrying its decimal text, and arrays and maps to `Arr` and `Obj` with
/// the entries in iteration order.
pub uninterp spec fn vmodel(v: serde_json::Value) -> JsonV;

/// The document `serde_json::from_slice` parses from `b`, if any.
pub uninterp spec fn json_of(b: Seq<u8>) -> Option<JsonV>;

/// Relies on `serde_json::from_slice::<serde_json::Value>`: returns the
/// parsed document exactly when `b` is well-formed JSON, and the parser's
/// error text otherwise. Number tokens carried over from `serde_json` are
/// rendered by `ryu`/`itoa` from digits, sign, point and exponent
/// characters only, so they are well formed in the sense of `num_ok`.
#[verifier::external_body]
fn bytes_to_value(b: &[u8]) -> (r: Result<serde_json::Value, String>)
    ensures
        r matches Ok(v) ==> json_of(b@) == Some(vmodel(v)) && nums_wf(vmodel(v)),
        r is Ok <==> json_of(b@) is Some,
{
    serde_json::from_slice::<serde_json::Value>(b).map_err(|e| e.to_string())
}

/// Relies on the public variants of `serde_json::Value` (and on
/// `serde_json::Number::as_i128` and its `Display`): each variant is moved,
/// one for one, into the library's own document type.
#[verifier::external_body]
fn value_to_json(v: serde_json::Value) -> (r: Json)
    ensures
        r@ == vmodel(v),
{
    match v {
        serde_json::Value::Null => Json::Null,
        serde_json::Value::Bool(b) => Json::Bool(b),
        serde_json::Value::Number(n) => match n.as_i128() {
            Some(i) => Json::Int(i),
            None => Json::Num(n.to_string()),
        },
        serde_json::Value::String(s) => Json::Str(s),
        serde_json::Value::Array(a) => Json::Arr(a.into_iter().map(value_to_json).collect()),
        serde_json::Value::Object(o) => Json::Obj(
            o.into_iter().map(|(k, w)| (k, value_to_json(w))).collect(),
        ),
    }
}

/// Parses a JSON document from raw bytes.
///
/// On failure the parser's own error text is returned, for the peer's
/// `invalid_json` report.
pub fn parse_json(b: &[u8]) -> (r: Result<Json, String>)
    ensures
        r matches Ok(j) ==> json_of(b@) == Some(j@) && nums_wf(j@),
        r is Ok <==> json_of(b@) is Some,
{
    match bytes_to_value(b) {
        Ok(v) => Ok(value_to_json(v)),
        Err(e) => Err(e),
    }
}

} // verus!
