//! Reading and writing JSON text. Parsing and compact serialization are
//! done by serde_json behind two trusted wrappers; everything built on top
//! of them — in particular the compact-or-passthrough normalizer applied to
//! function-call arguments and provider output — is verified against the
//! names given to their results here.
use vstd::prelude::*;

use crate::json::Json;
use crate::json::JsonV;
use crate::text::lemma_trim_idempotent;
use crate::text::spec_trim;
use crate::text::trim_str;

verus! {

#[verifier::external_type_specification]
#[verifier::external_body]
pub struct ExValue(serde_json::Value);

/// The document that JSON parsing reads out of a string: `Some` exactly when
/// the string is one well-formed JSON document, `None` otherwise.
pub uninterp spec fn json_of(s: Seq<char>) -> Option<JsonV>;

/// The compact text that JSON serialization writes for a document.
pub uninterp spec fn compact_text(j: JsonV) -> Seq<char>;

/// A document that parsing can produce: one whose numbers carry canonical
/// text and whose objects carry each key once, in sorted order.
pub open spec fn canonical(j: JsonV) -> bool {
    exists|s: Seq<char>| json_of(s) == Some(j)
}

/// Conversion half of [`parse_json`]: rebuilds a parsed `serde_json::Value`
/// as a [`Json`], variant by variant, keeping each number's canonical text.
#[verifier::external_body]
fn value_to_json(v: &serde_json::Value) -> Json {
    match v {
        serde_json::Value::Null => Json::Null,
        serde_json::Value::Bool(b) => Json::Bool(*b),
        serde_json::Value::Number(n) => Json::Num(n.to_string()),
        serde_json::Value::String(s) => Json::Text(s.clone()),
        serde_json::Value::Array(a) => Json::Arr(a.iter().map(value_to_json).collect()),
        serde_json::Value::Object(m) => Json::Obj(
            m.iter().map(|e| (e.0.clone(), value_to_json(e.1))).collect(),
        ),
    }
}

/// Conversion half of [`to_compact_text`]: rebuilds a [`Json`] as a
/// `serde_json::Value`. A number whose text does not read back as a number
/// — a value no parse ever produces — becomes `Null` rather than a panic.
#[verifier::external_body]
fn json_to_value(j: &Json) -> serde_json::Value {
    match j {
        Json::Null => serde_json::Value::Null,
        Json::Bool(b) => serde_json::Value::Bool(*b),
        Json::Num(s) => match s.parse::<serde_json::Number>() {
            Ok(n) => serde_json::Value::Number(n),
            Err(_) => serde_json::Value::Null,
        },
        Json::Text(s) => serde_json::Value::String(s.clone()),
        Json::Arr(v) => serde_json::Value::Array(v.iter().map(json_to_value).collect()),
        Json::Obj(v) => serde_json::Value::Object(
            v.iter().map(|e| (e.0.clone(), json_to_value(&e.1))).collect(),
        ),
    }
}

/// Relies on `serde_json::from_str::<Value>`: returns the one document the
/// string holds, or nothing when the string is not well-formed JSON. This
/// crate builds serde_json with its `float_roundtrip` feature, so a number
/// is parsed to the floating-point value nearest its text.
#[verifier::external_body]
pub fn parse_json(s: &str) -> (r: Option<Json>)
    ensures
        r is Some <==> json_of(s@) is Some,
        r matches Some(j) ==> Some(j@) == json_of(s@),
{
    serde_json::from_str::<serde_json::Value>(s).ok().map(|v| value_to_json(&v))
}

/// Relies on `serde_json::to_string`: writes one compact JSON document with
/// no surrounding whitespace. Parsing that text back recovers the same
/// document whenever the document could have come from the parser at all:
/// such a document carries each number as the canonical text the parser's
/// shortest round-tripping formatter prints — text that correctly-rounded
/// parsing (the `float_roundtrip` feature, which this crate enables) reads
/// back to the very same value — and each object's keys once, in the
/// sorted order the parser's map keeps them in, so serializing loses
/// nothing that parsing would read differently.
#[verifier::external_body]
pub fn to_compact_text(j: &Json) -> (r: String)
    ensures
        r@ == compact_text(j@),
        spec_trim(r@) == r@,
        canonical(j@) ==> json_of(r@) == Some(j@),
{
    serde_json::to_string(&json_to_value(j)).unwrap_or_else(|_| String::new())
}

/// The compact-or-passthrough normal form of a piece of text: the compact
/// serialization of the one JSON document it holds, or, when it holds none,
/// the text itself with surrounding whitespace removed.
pub open spec fn spec_normalize(s: Seq<char>) -> Seq<char> {
    let t = spec_trim(s);
    match json_of(t) {
        Some(j) => compact_text(j),
        None => t,
    }
}

/// Trim the text, and re-serialize it compactly when it parses as JSON;
/// hand the trimmed text back unchanged when it does not. Never fails.
///
/// The second clause states that normalization is idempotent: running the
/// result through again changes nothing.
pub fn try_compact_json(maybe_json: &str) -> (r: String)
    ensures
        r@ == spec_normalize(maybe_json@),
        spec_normalize(r@) == r@,
{
    let trimmed = trim_str(maybe_json);
    let parsed = parse_json(trimmed.as_str());
    match parsed {
        Some(j) => {
            let out = to_compact_text(&j);
            proof {
                let t = spec_trim(maybe_json@);
                assert(canonical(j@)) by {
                    assert(json_of(t) == Some(j@));
                }
                assert(spec_normalize(out@) == out@) by {
                    assert(spec_trim(out@) == out@);
                }
            }
            out
        },
        None => {
            proof {
                lemma_trim_idempotent(maybe_json@);
            }
            trimmed
        },
    }
}

} // verus!
