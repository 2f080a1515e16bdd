use gql_any::{
    convert, json_to_value, Any, ConversionError, DecodeError, GqlValue, JsonNumber, JsonValue,
};
use std::collections::HashMap;

fn num(f: f64) -> serde_json::Number {
    serde_json::Number::from_f64(f).unwrap()
}

#[test]
fn test_conversion_ok() {
    let value = GqlValue::List(vec![
        GqlValue::Int(1),
        GqlValue::Float(num(2.0)),
        GqlValue::Null,
    ]);
    let expected = Any(value.clone());
    let output: Any = value.into();
    assert_eq!(output, expected);
}

#[test]
fn list_converts_elementwise_in_order() {
    let v = GqlValue::List(vec![
        GqlValue::Int(1),
        GqlValue::Float(num(2.0)),
        GqlValue::Null,
    ]);
    let j = convert(&v).unwrap();
    let expected = JsonValue::Array(vec![
        JsonValue::Number(JsonNumber::Int(1)),
        JsonValue::Number(JsonNumber::Float(num(2.0))),
        JsonValue::Null,
    ]);
    assert_eq!(j, expected);
}

#[test]
fn object_keeps_key_order() {
    let v = GqlValue::Object(vec![
        ("a".to_string(), GqlValue::Int(1)),
        ("b".to_string(), GqlValue::String("x".to_string())),
    ]);
    let j = convert(&v).unwrap();
    let expected = JsonValue::Object(vec![
        ("a".to_string(), JsonValue::Number(JsonNumber::Int(1))),
        ("b".to_string(), JsonValue::String("x".to_string())),
    ]);
    assert_eq!(j, expected);
}

#[test]
fn variable_degrades_to_string() {
    let v = GqlValue::Variable("id".to_string());
    assert_eq!(convert(&v).unwrap(), JsonValue::String("id".to_string()));
}

#[test]
fn enum_name_degrades_to_string() {
    let v = GqlValue::Enum("RED".to_string());
    assert_eq!(convert(&v).unwrap(), JsonValue::String("RED".to_string()));
}

#[test]
fn scalars_convert_to_themselves() {
    assert_eq!(convert(&GqlValue::Null).unwrap(), JsonValue::Null);
    assert_eq!(
        convert(&GqlValue::Boolean(true)).unwrap(),
        JsonValue::Boolean(true)
    );
    assert_eq!(
        convert(&GqlValue::Int(-7)).unwrap(),
        JsonValue::Number(JsonNumber::Int(-7))
    );
    assert_eq!(
        convert(&GqlValue::String("hi".to_string())).unwrap(),
        JsonValue::String("hi".to_string())
    );
    assert_eq!(
        convert(&GqlValue::Float(num(0.5))).unwrap(),
        JsonValue::Number(JsonNumber::Float(num(0.5)))
    );
}

#[test]
fn empty_list_and_object_convert() {
    assert_eq!(
        convert(&GqlValue::List(vec![])).unwrap(),
        JsonValue::Array(vec![])
    );
    assert_eq!(
        convert(&GqlValue::Object(vec![])).unwrap(),
        JsonValue::Object(vec![])
    );
}

#[test]
fn out_of_range_int_is_rejected() {
    let too_big = GqlValue::Int(i64::MAX as i128 + 1);
    assert_eq!(convert(&too_big), Err(ConversionError::OutOfRange));
    let too_small = GqlValue::Int(i64::MIN as i128 - 1);
    assert_eq!(convert(&too_small), Err(ConversionError::OutOfRange));
    let boundary = GqlValue::Int(i64::MAX as i128);
    assert_eq!(
        convert(&boundary).unwrap(),
        JsonValue::Number(JsonNumber::Int(i64::MAX))
    );
}

#[test]
fn nested_out_of_range_int_is_rejected() {
    let v = GqlValue::List(vec![GqlValue::Object(vec![(
        "n".to_string(),
        GqlValue::Int(u64::MAX as i128),
    )])]);
    assert_eq!(convert(&v), Err(ConversionError::OutOfRange));
}

#[test]
fn round_trip_restores_faithful_values() {
    let v = GqlValue::Object(vec![
        ("a".to_string(), GqlValue::Int(1)),
        (
            "b".to_string(),
            GqlValue::List(vec![
                GqlValue::Boolean(false),
                GqlValue::Float(num(3.25)),
                GqlValue::Null,
            ]),
        ),
        ("c".to_string(), GqlValue::String("x".to_string())),
    ]);
    let j = convert(&v).unwrap();
    assert_eq!(json_to_value(&j), v);
}

#[test]
fn round_trip_loses_variable_tag() {
    let v = GqlValue::Variable("id".to_string());
    let j = convert(&v).unwrap();
    assert_eq!(json_to_value(&j), GqlValue::String("id".to_string()));
}

#[test]
fn wrap_equals_wrap_of_clone() {
    let v = GqlValue::Object(vec![
        ("k".to_string(), GqlValue::Enum("E".to_string())),
        ("l".to_string(), GqlValue::List(vec![GqlValue::Int(9)])),
    ]);
    let c = v.clone();
    assert_eq!(Any::wrap(v), Any::wrap(c));
}

#[test]
fn wrappers_of_different_values_differ() {
    let a = Any::wrap(GqlValue::Variable("id".to_string()));
    let b = Any::wrap(GqlValue::String("id".to_string()));
    assert_ne!(a, b);
}

#[test]
fn scalar_name_and_description() {
    assert_eq!(Any::scalar_name(), "_Any");
    let d = Any::description().unwrap();
    assert!(d.contains("_entities"));
}

#[test]
fn parse_accepts_any_value() {
    let v = GqlValue::Enum("E".to_string());
    assert!(Any::is_valid(&v));
    let parsed = Any::parse(&v).unwrap();
    assert_eq!(parsed, Any(v));
}

#[test]
fn to_json_of_wrapper_matches_convert() {
    let v = GqlValue::List(vec![GqlValue::Int(5)]);
    let w = Any::wrap(v.clone());
    assert_eq!(w.to_json().unwrap(), convert(&v).unwrap());
}

#[test]
fn decode_into_matching_type_succeeds() {
    let v = GqlValue::Object(vec![
        ("a".to_string(), GqlValue::Int(1)),
        ("b".to_string(), GqlValue::Int(2)),
    ]);
    let w = Any::wrap(v);
    let m: HashMap<String, i64> = w.parse_value().unwrap();
    assert_eq!(m.len(), 2);
    assert_eq!(m["a"], 1);
    assert_eq!(m["b"], 2);
}

#[test]
fn decode_list_into_vec() {
    let w = Any::wrap(GqlValue::List(vec![
        GqlValue::Int(1),
        GqlValue::Int(2),
        GqlValue::Int(3),
    ]));
    let v: Vec<i64> = w.parse_value().unwrap();
    assert_eq!(v, vec![1, 2, 3]);
}

#[test]
fn decode_float_through_serde() {
    let w = Any::wrap(GqlValue::Float(num(2.5)));
    let f: f64 = w.parse_value().unwrap();
    assert_eq!(f, 2.5);
}

#[test]
fn decode_into_mismatched_type_fails() {
    let w = Any::wrap(GqlValue::List(vec![GqlValue::Int(1)]));
    let r: Result<i64, DecodeError> = w.parse_value();
    match r {
        Err(DecodeError::Deserialize(msg)) => assert!(!msg.is_empty()),
        other => panic!("expected a deserialize error, got {:?}", other),
    }
}

#[test]
fn decode_out_of_range_reports_out_of_range() {
    let w = Any::wrap(GqlValue::Int(1 + i64::MAX as i128));
    let r: Result<i64, DecodeError> = w.parse_value();
    assert_eq!(r, Err(DecodeError::OutOfRange));
}

#[test]
fn wrapper_construction_from_scalars() {
    assert_eq!(Any::from(true), Any(GqlValue::Boolean(true)));
    assert_eq!(Any::from(42i64), Any(GqlValue::Int(42)));
    assert_eq!(
        Any::from("s".to_string()),
        Any(GqlValue::String("s".to_string()))
    );
}
