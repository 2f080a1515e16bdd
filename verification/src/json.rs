use vstd::prelude::*;

verus! {

/// A JSON number: a signed 64-bit integer, or a floating-point number carried
/// opaquely as serde_json's number type.
#[derive(Debug, PartialEq)]
pub enum JsonNumber {
    Int(i64),
    Float(serde_json::Number),
}

/// A canonical JSON value. Arrays and objects keep their elements in order;
/// an object is a sequence of key/value pairs, exactly as they were inserted.
#[derive(Debug, PartialEq)]
pub enum JsonValue {
    Null,
    Boolean(bool),
    Number(JsonNumber),
    String(String),
    Array(Vec<JsonValue>),
    Object(Vec<(String, JsonValue)>),
}

/// The mathematical model of a JSON value.
pub enum JsonModel {
    Null,
    Boolean(bool),
    Int(int),
    Float(serde_json::Number),
    Str(Seq<char>),
    Array(Seq<JsonModel>),
    Object(Seq<(Seq<char>, JsonModel)>),
}

/// The model of a JSON value.
pub open spec fn json_model(j: JsonValue) -> JsonModel
    decreases j,
{
    match j {
        JsonValue::Null => JsonModel::Null,
        JsonValue::Boolean(b) => JsonModel::Boolean(b),
        JsonValue::Number(JsonNumber::Int(n)) => JsonModel::Int(n as int),
        JsonValue::Number(JsonNumber::Float(x)) => JsonModel::Float(x),
        JsonValue::String(s) => JsonModel::Str(s@),
        JsonValue::Array(items) => JsonModel::Array(json_models(items@)),
        JsonValue::Object(pairs) => JsonModel::Object(json_entry_models(pairs@)),
    }
}

/// The models of a sequence of JSON values, in order.
pub open spec fn json_models(s: Seq<JsonValue>) -> Seq<JsonModel>
    decreases s,
{
    if s.len() == 0 {
        Seq::empty()
    } else {
        seq![json_model(s.first())] + json_models(s.drop_first())
    }
}

/// The models of a sequence of key/value pairs, in order.
pub open spec fn json_entry_models(s: Seq<(String, JsonValue)>) -> Seq<(Seq<char>, JsonModel)>
    decreases s,
{
    if s.len() == 0 {
        Seq::empty()
    } else {
        seq![(s.first().0@, json_model(s.first().1))] + json_entry_models(s.drop_first())
    }
}

/// `json_models` maps `json_model` over the sequence, element by element.
pub proof fn lemma_json_models_index(s: Seq<JsonValue>)
    ensures
        json_models(s).len() == s.len(),
        forall|i: int| 0 <= i < s.len() ==> json_models(s)[i] == json_model(s[i]),
    decreases s.len(),
{
    if s.len() > 0 {
        lemma_json_models_index(s.drop_first());
    }
}

/// `json_entry_models` keeps every key and models every value, in order.
pub proof fn lemma_json_entry_models_index(s: Seq<(String, JsonValue)>)
    ensures
        json_entry_models(s).len() == s.len(),
        forall|i: int| 0 <= i < s.len() ==> json_entry_models(s)[i]
            == (s[i].0@, json_model(s[i].1)),
    decreases s.len(),
{
    if s.len() > 0 {
        lemma_json_entry_models_index(s.drop_first());
    }
}

impl View for JsonValue {
    type V = JsonModel;

    open spec fn view(&self) -> JsonModel {
        json_model(*self)
    }
}

} // verus!
