use crate::json::{JsonNumber, JsonValue};
use vstd::prelude::*;

verus! {

/// serde_json's number type. The library carries it opaquely: it never reads
/// the numeric value of a floating-point number, it only passes it through.
#[verifier::external_type_specification]
#[verifier::external_body]
pub struct ExNumber(serde_json::Number);

/// serde_json's JSON value type, used only on the way into serde's
/// deserializers.
#[verifier::external_type_specification]
#[verifier::external_body]
pub struct ExSerdeValue(serde_json::Value);

/// serde_json's error type; the library reports it as a plain message.
#[verifier::external_type_specification]
#[verifier::external_body]
pub struct ExSerdeError(serde_json::Error);

/// Relies on serde_json::Number's derived Clone, which copies the plain
/// integer-or-float payload unchanged.
pub assume_specification[ <serde_json::Number as Clone>::clone ](
    n: &serde_json::Number,
) -> (r: serde_json::Number)
    ensures
        r == *n,
;

/// Relies on serde_json::from_value, which hands the JSON value to the target
/// type's structured deserializer. The target type decides success, so
/// nothing is promised of the outcome.
pub assume_specification<T>[ serde_json::from_value::<T> ](
    value: serde_json::Value,
) -> Result<T, serde_json::Error> where T: serde::de::DeserializeOwned;

/// Relies on serde_json::Value's constructors: rebuilds the canonical JSON
/// tree as a serde_json::Value, variant for variant, elements in order.
/// Nothing is claimed of the result; it only feeds serde_json::from_value.
#[verifier::external_body]
pub(crate) fn to_serde_value(j: &JsonValue) -> serde_json::Value {
    match j {
        JsonValue::Null => serde_json::Value::Null,
        JsonValue::Boolean(b) => serde_json::Value::Bool(*b),
        JsonValue::Number(JsonNumber::Int(n)) => serde_json::Value::from(*n),
        JsonValue::Number(JsonNumber::Float(x)) => serde_json::Value::Number(x.clone()),
        JsonValue::String(s) => serde_json::Value::String(s.clone()),
        JsonValue::Array(items) => serde_json::Value::Array(
            items.iter().map(to_serde_value).collect(),
        ),
        JsonValue::Object(pairs) => serde_json::Value::Object(
            pairs.iter().map(|(k, v)| (k.clone(), to_serde_value(v))).collect(),
        ),
    }
}

/// Relies on serde_json::Error's Display impl for a diagnostic message that
/// names the place and reason of a mismatch.
#[verifier::external_body]
pub(crate) fn decode_error_message(e: &serde_json::Error) -> String {
    format!("{}", e)
}

} // verus!
