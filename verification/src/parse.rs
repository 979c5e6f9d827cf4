//! Parsing wire text into the document model.
//!
//! Parsing is the one place the codec leans on an outside crate: the text is
//! handed to serde_json and the parsed tree is moved, variant by variant,
//! into the crate's own value type.  What a given text parses to is named by
//! [`parsed_json`] and depends on the text alone.

use vstd::prelude::*;
use crate::value::Json;

verus! {

#[verifier::external_type_specification]
#[verifier::external_body]
pub struct ExSerdeValue(serde_json::Value);

#[verifier::external_type_specification]
#[verifier::external_body]
pub struct ExSerdeNumber(serde_json::Number);

/// What a text parses to, if anything.  serde_json decides; the outcome is a
/// function of the text alone.
pub uninterp spec fn parsed_json(s: Seq<char>) -> Option<Json>;

/// Relies on serde_json::Number::as_u64 and as_i64: a non-negative integer
/// reads as `U64`, a negative one as `I64`; a number that is neither has no
/// place in the crate's model and is refused.
#[verifier::external_body]
fn number_value(n: serde_json::Number) -> (r: Option<crate::value::JsonValue>) {
    if let Some(u) = n.as_u64() {
        Some(crate::value::JsonValue::U64(u))
    } else if let Some(i) = n.as_i64() {
        Some(crate::value::JsonValue::I64(i))
    } else {
        None
    }
}

/// Relies on serde_json::Value: each variant moves into the matching variant
/// of the crate's own value type, members in the order serde_json holds them.
#[verifier::external_body]
fn tree_value(v: serde_json::Value) -> (r: Option<crate::value::JsonValue>) {
    Some(match v {
        serde_json::Value::Null => crate::value::JsonValue::Null,
        serde_json::Value::Bool(b) => crate::value::JsonValue::Bool(b),
        serde_json::Value::Number(n) => return number_value(n),
        serde_json::Value::String(s) => crate::value::JsonValue::Str(s),
        serde_json::Value::Array(a) => crate::value::JsonValue::Array(
            a.into_iter().map(tree_value).collect::<Option<Vec<_>>>()?,
        ),
        serde_json::Value::Object(m) => crate::value::JsonValue::Object(
            m.into_iter().map(|(k, w)| Some((k, tree_value(w)?))).collect::<Option<Vec<_>>>()?,
        ),
    })
}

/// Relies on serde_json::from_str: whether a text parses, and to what
/// document, depends on the text alone.
#[verifier::external_body]
pub(crate) fn parse_text(s: &str) -> (r: Option<crate::value::JsonValue>)
    ensures
        match r {
            Some(v) => parsed_json(s@) == Some(v@),
            None => parsed_json(s@) is None,
        },
{
    match serde_json::from_str::<serde_json::Value>(s) {
        Ok(v) => tree_value(v),
        Err(_) => None,
    }
}

} // verus!
