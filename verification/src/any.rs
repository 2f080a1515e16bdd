use crate::convert::{convert, convertible, json_of, ConversionError};
use crate::json::JsonValue;
use crate::serde_support::{decode_error_message, to_serde_value};
use crate::value::{GqlValue, ValueModel};
use vstd::prelude::*;

verus! {

/// An opaque wrapper carrying one query-language value across a system
/// boundary for later, strongly typed decoding.
///
/// The wrapper accepts any value without validation; validation is deferred
/// to the decode step. Two wrappers are structurally equal exactly when their
/// wrapped values are, so the variable/enum distinctions that JSON cannot
/// express still count in comparisons.
#[derive(Debug, PartialEq)]
pub struct Any(pub GqlValue);

/// How decoding a wrapped value can fail: the wrapped value holds an
/// integer outside the signed 64-bit range, or the JSON form does not match
/// the shape the target type expects, reported with the deserializer's
/// diagnostic message.
#[derive(Debug, PartialEq)]
pub enum DecodeError {
    OutOfRange,
    Deserialize(String),
}

impl View for Any {
    type V = ValueModel;

    open spec fn view(&self) -> ValueModel {
        self.0@
    }
}

/// A type with a defined conversion into the query-language value model,
/// for ergonomic wrapper construction.
pub trait IntoValue: Sized {
    /// The value that `into_value` returns.
    spec fn as_value(&self) -> GqlValue;

    /// Converts into a query-language value.
    fn into_value(self) -> (r: GqlValue)
        ensures
            r == self.as_value(),
    ;
}

impl IntoValue for GqlValue {
    open spec fn as_value(&self) -> GqlValue {
        *self
    }

    fn into_value(self) -> (r: GqlValue) {
        self
    }
}

impl IntoValue for bool {
    open spec fn as_value(&self) -> GqlValue {
        GqlValue::Boolean(*self)
    }

    fn into_value(self) -> (r: GqlValue) {
        GqlValue::Boolean(self)
    }
}

impl IntoValue for i64 {
    open spec fn as_value(&self) -> GqlValue {
        GqlValue::Int(*self as i128)
    }

    fn into_value(self) -> (r: GqlValue) {
        GqlValue::Int(self as i128)
    }
}

impl IntoValue for String {
    open spec fn as_value(&self) -> GqlValue {
        GqlValue::String(*self)
    }

    fn into_value(self) -> (r: GqlValue) {
        GqlValue::String(self)
    }
}

impl<T: IntoValue> From<T> for Any {
    fn from(t: T) -> (r: Any) {
        Any(t.into_value())
    }
}

impl<T: IntoValue> vstd::std_specs::convert::FromSpecImpl<T> for Any {
    open spec fn obeys_from_spec() -> bool {
        true
    }

    open spec fn from_spec(t: T) -> Any {
        Any(t.as_value())
    }
}

impl Clone for Any {
    /// Cloning is deep: the clone has the same model as the original.
    fn clone(&self) -> (r: Self)
        ensures
            r@ == self@,
    {
        Any(self.0.clone())
    }
}

impl Any {
    /// Wraps a value. Always succeeds: any value is accepted as valid.
    pub fn wrap(v: GqlValue) -> (r: Any)
        ensures
            r == Any(v),
    {
        Any(v)
    }

    /// The name under which this scalar is registered.
    pub fn scalar_name() -> (r: &'static str)
        ensures
            r@ == "_Any"@,
    {
        "_Any"
    }

    /// The description under which this scalar is registered.
    pub fn description() -> (r: Option<&'static str>)
        ensures
            (r matches Some(d)
                && d@ == "The `_Any` scalar is used to pass representations of entities from external services into the root `_entities` field for execution."@),
    {
        Some("The `_Any` scalar is used to pass representations of entities from external services into the root `_entities` field for execution.")
    }

    /// Parses a value into a wrapper. Never fails: any value is accepted.
    pub fn parse(value: &GqlValue) -> (r: Option<Any>)
        ensures
            (r matches Some(a) && a@ == value@),
    {
        Some(Any(value.clone()))
    }

    /// Whether a value may be wrapped: every value may.
    pub fn is_valid(_value: &GqlValue) -> (r: bool)
        ensures
            r,
    {
        true
    }

    /// The canonical JSON form of the wrapped value. Succeeds exactly when
    /// every integer in the value fits in the signed 64-bit range.
    pub fn to_json(&self) -> (r: Result<JsonValue, ConversionError>)
        ensures
            r is Ok <==> convertible(self@),
            r is Ok ==> r->Ok_0@ == json_of(self@),
            r is Err ==> r->Err_0 == ConversionError::OutOfRange,
    {
        convert(&self.0)
    }

    /// Decodes the wrapped value into a target type: converts it to its
    /// canonical JSON form, then deserializes by serde_json. An out-of-range
    /// integer in the wrapped value is reported as `OutOfRange`, exactly as
    /// in `to_json`; a shape mismatch with the target type is reported as
    /// `Deserialize` with the deserializer's message.
    pub fn parse_value<T: serde::de::DeserializeOwned>(&self) -> (r: Result<T, DecodeError>)
        ensures
            (r matches Err(e) && e == DecodeError::OutOfRange) <==> !convertible(self@),
    {
        match self.to_json() {
            Ok(j) => match serde_json::from_value::<T>(to_serde_value(&j)) {
                Ok(t) => Ok(t),
                Err(e) => Err(DecodeError::Deserialize(decode_error_message(&e))),
            },
            Err(_) => Err(DecodeError::OutOfRange),
        }
    }
}

/// Structural-equality law for the wrapper: wrappers of structurally equal
/// values — for example, a value and any clone of it — are structurally
/// equal, compared on the pre-conversion model.
pub proof fn lemma_wrap_structural(v: GqlValue, c: GqlValue)
    requires
        c@ == v@,
    ensures
        Any(c)@ == Any(v)@,
{
}

} // verus!
