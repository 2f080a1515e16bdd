use crate::json::{
    json_entry_models, json_model, json_models, lemma_json_entry_models_index,
    lemma_json_models_index, JsonModel, JsonNumber, JsonValue,
};
use crate::value::{
    entry_models, lemma_entry_models_index, lemma_value_models_index, value_model, value_models,
    GqlValue, ValueModel,
};
use vstd::prelude::*;

verus! {

/// The one way a conversion to JSON can fail: an integer outside the signed
/// 64-bit range has no JSON number to go to.
#[derive(Debug, Clone, Copy, PartialEq, Eq, Structural)]
pub enum ConversionError {
    OutOfRange,
}

/// Whether a mathematical integer fits in the signed 64-bit range.
pub open spec fn int_in_i64_range(n: int) -> bool {
    i64::MIN <= n <= i64::MAX
}

/// Whether a value converts to JSON: every integer in it, however deeply
/// nested, fits in the signed 64-bit range.
pub open spec fn convertible(v: ValueModel) -> bool
    decreases v,
{
    match v {
        ValueModel::Int(n) => int_in_i64_range(n),
        ValueModel::List(s) => all_convertible(s),
        ValueModel::Object(s) => all_entries_convertible(s),
        _ => true,
    }
}

/// Whether every value of a sequence converts to JSON.
pub open spec fn all_convertible(s: Seq<ValueModel>) -> bool
    decreases s,
{
    s.len() == 0 || (convertible(s.first()) && all_convertible(s.drop_first()))
}

/// Whether every value of a sequence of key/value pairs converts to JSON.
pub open spec fn all_entries_convertible(s: Seq<(Seq<char>, ValueModel)>) -> bool
    decreases s,
{
    s.len() == 0 || (convertible(s.first().1) && all_entries_convertible(s.drop_first()))
}

/// `all_convertible` is elementwise convertibility.
pub proof fn lemma_all_convertible(s: Seq<ValueModel>)
    ensures
        all_convertible(s) <==> (forall|i: int| 0 <= i < s.len() ==> convertible(s[i])),
    decreases s.len(),
{
    if s.len() > 0 {
        lemma_all_convertible(s.drop_first());
        assert(forall|i: int| 1 <= i < s.len() ==> s.drop_first()[i - 1] == s[i]);
    }
}

/// `all_entries_convertible` is elementwise convertibility of the values.
pub proof fn lemma_all_entries_convertible(s: Seq<(Seq<char>, ValueModel)>)
    ensures
        all_entries_convertible(s) <==> (forall|i: int|
            0 <= i < s.len() ==> convertible(s[i].1)),
    decreases s.len(),
{
    if s.len() > 0 {
        lemma_all_entries_convertible(s.drop_first());
        assert(forall|i: int| 1 <= i < s.len() ==> s.drop_first()[i - 1] == s[i]);
    }
}

/// The JSON form of a value: null, booleans, numbers and strings map to
/// themselves, a variable or an enum name degrades to a string carrying the
/// name, and lists and objects map elementwise, in order. On an out-of-range
/// integer the result is not reachable by `convert`, which rejects it.
pub open spec fn json_of(v: ValueModel) -> JsonModel
    decreases v,
{
    match v {
        ValueModel::Null => JsonModel::Null,
        ValueModel::Variable(name) => JsonModel::Str(name),
        ValueModel::Int(n) => JsonModel::Int(n),
        ValueModel::Float(x) => JsonModel::Float(x),
        ValueModel::Str(s) => JsonModel::Str(s),
        ValueModel::Boolean(b) => JsonModel::Boolean(b),
        ValueModel::Enum(name) => JsonModel::Str(name),
        ValueModel::List(s) => JsonModel::Array(json_of_seq(s)),
        ValueModel::Object(s) => JsonModel::Object(json_of_entries(s)),
    }
}

/// The JSON forms of a sequence of values, in order.
pub open spec fn json_of_seq(s: Seq<ValueModel>) -> Seq<JsonModel>
    decreases s,
{
    if s.len() == 0 {
        Seq::empty()
    } else {
        seq![json_of(s.first())] + json_of_seq(s.drop_first())
    }
}

/// The JSON forms of a sequence of key/value pairs: keys kept, values
/// converted, order kept.
pub open spec fn json_of_entries(s: Seq<(Seq<char>, ValueModel)>) -> Seq<(Seq<char>, JsonModel)>
    decreases s,
{
    if s.len() == 0 {
        Seq::empty()
    } else {
        seq![(s.first().0, json_of(s.first().1))] + json_of_entries(s.drop_first())
    }
}

/// `json_of_seq` maps `json_of` over the sequence, element by element.
pub proof fn lemma_json_of_seq_index(s: Seq<ValueModel>)
    ensures
        json_of_seq(s).len() == s.len(),
        forall|i: int| 0 <= i < s.len() ==> json_of_seq(s)[i] == json_of(s[i]),
    decreases s.len(),
{
    if s.len() > 0 {
        lemma_json_of_seq_index(s.drop_first());
    }
}

/// `json_of_entries` keeps every key and converts every value, in order.
pub proof fn lemma_json_of_entries_index(s: Seq<(Seq<char>, ValueModel)>)
    ensures
        json_of_entries(s).len() == s.len(),
        forall|i: int| 0 <= i < s.len() ==> json_of_entries(s)[i]
            == (s[i].0, json_of(s[i].1)),
    decreases s.len(),
{
    if s.len() > 0 {
        lemma_json_of_entries_index(s.drop_first());
    }
}

/// The value a JSON form reads back as: the inverse of `json_of` on values
/// that JSON can represent faithfully.
pub open spec fn value_of(j: JsonModel) -> ValueModel
    decreases j,
{
    match j {
        JsonModel::Null => ValueModel::Null,
        JsonModel::Boolean(b) => ValueModel::Boolean(b),
        JsonModel::Int(n) => ValueModel::Int(n),
        JsonModel::Float(x) => ValueModel::Float(x),
        JsonModel::Str(s) => ValueModel::Str(s),
        JsonModel::Array(s) => ValueModel::List(values_of_seq(s)),
        JsonModel::Object(s) => ValueModel::Object(values_of_entries(s)),
    }
}

/// The values a sequence of JSON forms reads back as, in order.
pub open spec fn values_of_seq(s: Seq<JsonModel>) -> Seq<ValueModel>
    decreases s,
{
    if s.len() == 0 {
        Seq::empty()
    } else {
        seq![value_of(s.first())] + values_of_seq(s.drop_first())
    }
}

/// The key/value pairs a sequence of JSON entries reads back as, in order.
pub open spec fn values_of_entries(s: Seq<(Seq<char>, JsonModel)>) -> Seq<
    (Seq<char>, ValueModel),
>
    decreases s,
{
    if s.len() == 0 {
        Seq::empty()
    } else {
        seq![(s.first().0, value_of(s.first().1))] + values_of_entries(s.drop_first())
    }
}

/// `values_of_seq` maps `value_of` over the sequence, element by element.
pub proof fn lemma_values_of_seq_index(s: Seq<JsonModel>)
    ensures
        values_of_seq(s).len() == s.len(),
        forall|i: int| 0 <= i < s.len() ==> values_of_seq(s)[i] == value_of(s[i]),
    decreases s.len(),
{
    if s.len() > 0 {
        lemma_values_of_seq_index(s.drop_first());
    }
}

/// `values_of_entries` keeps every key and reads back every value, in order.
pub proof fn lemma_values_of_entries_index(s: Seq<(Seq<char>, JsonModel)>)
    ensures
        values_of_entries(s).len() == s.len(),
        forall|i: int| 0 <= i < s.len() ==> values_of_entries(s)[i]
            == (s[i].0, value_of(s[i].1)),
    decreases s.len(),
{
    if s.len() > 0 {
        lemma_values_of_entries_index(s.drop_first());
    }
}

/// Converts a query-language value to its canonical JSON form.
///
/// Succeeds exactly on convertible values, that is, values whose integers all
/// fit in the signed 64-bit range; the result is then `json_of` the value's
/// model. The only error is `OutOfRange`.
pub fn convert(v: &GqlValue) -> (r: Result<JsonValue, ConversionError>)
    ensures
        r is Ok <==> convertible(v@),
        r is Ok ==> r->Ok_0@ == json_of(v@),
        r is Err ==> r->Err_0 == ConversionError::OutOfRange,
    decreases *v,
{
    match v {
        GqlValue::Null => Ok(JsonValue::Null),
        GqlValue::Variable(name) => Ok(JsonValue::String(name.clone())),
        GqlValue::Int(n) => {
            if *n >= i64::MIN as i128 && *n <= i64::MAX as i128 {
                Ok(JsonValue::Number(JsonNumber::Int(*n as i64)))
            } else {
                Err(ConversionError::OutOfRange)
            }
        }
        GqlValue::Float(x) => Ok(JsonValue::Number(JsonNumber::Float(x.clone()))),
        GqlValue::String(s) => Ok(JsonValue::String(s.clone())),
        GqlValue::Boolean(b) => Ok(JsonValue::Boolean(*b)),
        GqlValue::Enum(name) => Ok(JsonValue::String(name.clone())),
        GqlValue::List(items) => {
            let mut out: Vec<JsonValue> = Vec::new();
            let mut i: usize = 0;
            while i < items.len()
                invariant
                    *v == GqlValue::List(*items),
                    i <= items.len(),
                    out.len() == i,
                    forall|k: int| 0 <= k < i ==> convertible(#[trigger] value_model(items@[k])),
                    forall|k: int| 0 <= k < i ==> json_model(#[trigger] out@[k])
                        == json_of(value_model(items@[k])),
                decreases items.len() - i,
            {
                proof {
                    assert(decreases_to!(*v => v->List_0@));
                    assert(decreases_to!(*v => items@[i as int]));
                }
                match convert(&items[i]) {
                    Ok(j) => out.push(j),
                    Err(e) => {
                        proof {
                            lemma_value_models_index(items@);
                            lemma_all_convertible(value_models(items@));
                            assert(!convertible(value_models(items@)[i as int]));
                        }
                        return Err(e);
                    }
                }
                i = i + 1;
            }
            proof {
                lemma_value_models_index(items@);
                lemma_all_convertible(value_models(items@));
                assert forall|k: int| 0 <= k < value_models(items@).len()
                    implies convertible(#[trigger] value_models(items@)[k]) by {
                    assert(value_models(items@)[k] == value_model(items@[k]));
                    assert(convertible(value_model(items@[k])));
                }
                lemma_json_models_index(out@);
                lemma_json_of_seq_index(value_models(items@));
                assert forall|k: int| 0 <= k < out@.len() implies json_models(out@)[k]
                    == json_of_seq(value_models(items@))[k] by {
                    assert(value_models(items@)[k] == value_model(items@[k]));
                    assert(json_models(out@)[k] == json_model(out@[k]));
                }
                assert(json_models(out@) =~= json_of_seq(value_models(items@)));
            }
            Ok(JsonValue::Array(out))
        }
        GqlValue::Object(pairs) => {
            let mut out: Vec<(String, JsonValue)> = Vec::new();
            let mut i: usize = 0;
            while i < pairs.len()
                invariant
                    *v == GqlValue::Object(*pairs),
                    i <= pairs.len(),
                    out.len() == i,
                    forall|k: int| 0 <= k < i ==> convertible(#[trigger] value_model(pairs@[k].1)),
                    forall|k: int| 0 <= k < i ==> (#[trigger] out@[k]).0@ == pairs@[k].0@
                        && json_model(out@[k].1) == json_of(value_model(pairs@[k].1)),
                decreases pairs.len() - i,
            {
                proof {
                    assert(decreases_to!(*v => v->Object_0@));
                    assert(decreases_to!(*v => pairs@[i as int]));
                    assert(decreases_to!(pairs@[i as int] => pairs@[i as int].1));
                }
                let pair = &pairs[i];
                match convert(&pair.1) {
                    Ok(j) => out.push((pair.0.clone(), j)),
                    Err(e) => {
                        proof {
                            lemma_entry_models_index(pairs@);
                            lemma_all_entries_convertible(entry_models(pairs@));
                            assert(!convertible(entry_models(pairs@)[i as int].1));
                        }
                        return Err(e);
                    }
                }
                i = i + 1;
            }
            proof {
                lemma_entry_models_index(pairs@);
                lemma_all_entries_convertible(entry_models(pairs@));
                assert forall|k: int| 0 <= k < entry_models(pairs@).len()
                    implies convertible(#[trigger] entry_models(pairs@)[k].1) by {
                    assert(entry_models(pairs@)[k] == (pairs@[k].0@, value_model(pairs@[k].1)));
                    assert(convertible(value_model(pairs@[k].1)));
                }
                lemma_json_entry_models_index(out@);
                lemma_json_of_entries_index(entry_models(pairs@));
                assert forall|k: int| 0 <= k < out@.len() implies json_entry_models(out@)[k]
                    == json_of_entries(entry_models(pairs@))[k] by {
                    assert(entry_models(pairs@)[k] == (pairs@[k].0@, value_model(pairs@[k].1)));
                    assert(json_entry_models(out@)[k] == (out@[k].0@, json_model(out@[k].1)));
                }
                assert(json_entry_models(out@) =~= json_of_entries(entry_models(pairs@)));
            }
            Ok(JsonValue::Object(out))
        }
    }
}

/// Reads a canonical JSON value back as a query-language value: the inverse
/// direction of `convert`. Total: every JSON value reads back.
pub fn json_to_value(j: &JsonValue) -> (r: GqlValue)
    ensures
        r@ == value_of(j@),
    decreases *j,
{
    match j {
        JsonValue::Null => GqlValue::Null,
        JsonValue::Boolean(b) => GqlValue::Boolean(*b),
        JsonValue::Number(JsonNumber::Int(n)) => GqlValue::Int(*n as i128),
        JsonValue::Number(JsonNumber::Float(x)) => GqlValue::Float(x.clone()),
        JsonValue::String(s) => GqlValue::String(s.clone()),
        JsonValue::Array(items) => {
            let mut out: Vec<GqlValue> = Vec::new();
            let mut i: usize = 0;
            while i < items.len()
                invariant
                    *j == JsonValue::Array(*items),
                    i <= items.len(),
                    out.len() == i,
                    forall|k: int| 0 <= k < i ==> value_model(#[trigger] out@[k])
                        == value_of(json_model(items@[k])),
                decreases items.len() - i,
            {
                proof {
                    assert(decreases_to!(*j => j->Array_0@));
                    assert(decreases_to!(*j => items@[i as int]));
                }
                out.push(json_to_value(&items[i]));
                i = i + 1;
            }
            proof {
                lemma_json_models_index(items@);
                lemma_value_models_index(out@);
                lemma_values_of_seq_index(json_models(items@));
                assert forall|k: int| 0 <= k < out@.len() implies value_models(out@)[k]
                    == values_of_seq(json_models(items@))[k] by {
                    assert(json_models(items@)[k] == json_model(items@[k]));
                    assert(value_models(out@)[k] == value_model(out@[k]));
                }
                assert(value_models(out@) =~= values_of_seq(json_models(items@)));
            }
            GqlValue::List(out)
        }
        JsonValue::Object(pairs) => {
            let mut out: Vec<(String, GqlValue)> = Vec::new();
            let mut i: usize = 0;
            while i < pairs.len()
                invariant
                    *j == JsonValue::Object(*pairs),
                    i <= pairs.len(),
                    out.len() == i,
                    forall|k: int| 0 <= k < i ==> (#[trigger] out@[k]).0@ == pairs@[k].0@
                        && value_model(out@[k].1) == value_of(json_model(pairs@[k].1)),
                decreases pairs.len() - i,
            {
                proof {
                    assert(decreases_to!(*j => j->Object_0@));
                    assert(decreases_to!(*j => pairs@[i as int]));
                    assert(decreases_to!(pairs@[i as int] => pairs@[i as int].1));
                }
                let pair = &pairs[i];
                out.push((pair.0.clone(), json_to_value(&pair.1)));
                i = i + 1;
            }
            proof {
                lemma_json_entry_models_index(pairs@);
                lemma_entry_models_index(out@);
                lemma_values_of_entries_index(json_entry_models(pairs@));
                assert forall|k: int| 0 <= k < out@.len() implies entry_models(out@)[k]
                    == values_of_entries(json_entry_models(pairs@))[k] by {
                    assert(json_entry_models(pairs@)[k] == (pairs@[k].0@, json_model(pairs@[k].1)));
                    assert(entry_models(out@)[k] == (out@[k].0@, value_model(out@[k].1)));
                }
                assert(entry_models(out@) =~= values_of_entries(json_entry_models(pairs@)));
            }
            GqlValue::Object(out)
        }
    }
}

/// Whether JSON represents a value faithfully: no variable and no enum name
/// anywhere in it (both degrade to strings), and every integer in the signed
/// 64-bit range.
pub open spec fn json_faithful(v: ValueModel) -> bool
    decreases v,
{
    match v {
        ValueModel::Variable(_) => false,
        ValueModel::Enum(_) => false,
        ValueModel::Int(n) => int_in_i64_range(n),
        ValueModel::List(s) => all_faithful(s),
        ValueModel::Object(s) => all_entries_faithful(s),
        _ => true,
    }
}

/// Whether JSON represents every value of a sequence faithfully.
pub open spec fn all_faithful(s: Seq<ValueModel>) -> bool
    decreases s,
{
    s.len() == 0 || (json_faithful(s.first()) && all_faithful(s.drop_first()))
}

/// Whether JSON represents every value of a sequence of pairs faithfully.
pub open spec fn all_entries_faithful(s: Seq<(Seq<char>, ValueModel)>) -> bool
    decreases s,
{
    s.len() == 0 || (json_faithful(s.first().1) && all_entries_faithful(s.drop_first()))
}

/// `all_faithful` is elementwise faithfulness.
pub proof fn lemma_all_faithful(s: Seq<ValueModel>)
    ensures
        all_faithful(s) <==> (forall|i: int| 0 <= i < s.len() ==> json_faithful(s[i])),
    decreases s.len(),
{
    if s.len() > 0 {
        lemma_all_faithful(s.drop_first());
        assert(forall|i: int| 1 <= i < s.len() ==> s.drop_first()[i - 1] == s[i]);
    }
}

/// `all_entries_faithful` is elementwise faithfulness of the values.
pub proof fn lemma_all_entries_faithful(s: Seq<(Seq<char>, ValueModel)>)
    ensures
        all_entries_faithful(s) <==> (forall|i: int|
            0 <= i < s.len() ==> json_faithful(s[i].1)),
    decreases s.len(),
{
    if s.len() > 0 {
        lemma_all_entries_faithful(s.drop_first());
        assert(forall|i: int| 1 <= i < s.len() ==> s.drop_first()[i - 1] == s[i]);
    }
}

/// Round-trip law: a value that JSON represents faithfully converts, and
/// reading its JSON form back restores it exactly.
pub proof fn lemma_round_trip(v: ValueModel)
    requires
        json_faithful(v),
    ensures
        convertible(v),
        value_of(json_of(v)) == v,
    decreases v,
{
    match v {
        ValueModel::List(s) => {
            lemma_all_faithful(s);
            assert forall|i: int| 0 <= i < s.len() implies convertible(#[trigger] s[i])
                && value_of(json_of(s[i])) == s[i] by {
                assert(decreases_to!(v => v->List_0));
                assert(decreases_to!(v => s[i]));
                lemma_round_trip(s[i]);
            }
            lemma_all_convertible(s);
            lemma_json_of_seq_index(s);
            lemma_values_of_seq_index(json_of_seq(s));
            assert forall|i: int| 0 <= i < s.len() implies values_of_seq(json_of_seq(s))[i]
                == s[i] by {
                assert(json_of_seq(s)[i] == json_of(s[i]));
            }
            assert(values_of_seq(json_of_seq(s)) =~= s);
        }
        ValueModel::Object(s) => {
            lemma_all_entries_faithful(s);
            assert forall|i: int| 0 <= i < s.len() implies convertible(#[trigger] s[i].1)
                && value_of(json_of(s[i].1)) == s[i].1 by {
                assert(decreases_to!(v => v->Object_0));
                assert(decreases_to!(v => s[i]));
                assert(decreases_to!(s[i] => s[i].1));
                lemma_round_trip(s[i].1);
            }
            lemma_all_entries_convertible(s);
            lemma_json_of_entries_index(s);
            lemma_values_of_entries_index(json_of_entries(s));
            assert forall|i: int| 0 <= i < s.len() implies values_of_entries(
                json_of_entries(s),
            )[i] == s[i] by {
                assert(json_of_entries(s)[i] == (s[i].0, json_of(s[i].1)));
            }
            assert(values_of_entries(json_of_entries(s)) =~= s);
        }
        _ => {}
    }
}

/// Order law for lists: a list converts to an array of the same length whose
/// element at each position is the conversion of the element at that position.
pub proof fn lemma_list_order(s: Seq<ValueModel>)
    ensures
        json_of(ValueModel::List(s)) is Array,
        json_of(ValueModel::List(s))->Array_0.len() == s.len(),
        forall|i: int| 0 <= i < s.len() ==> json_of(ValueModel::List(s))->Array_0[i]
            == json_of(s[i]),
{
    lemma_json_of_seq_index(s);
}

/// Order law for objects: an object converts to an object of the same length
/// that has, at each position, the same key and the conversion of the value
/// that stood at that position.
pub proof fn lemma_object_order(s: Seq<(Seq<char>, ValueModel)>)
    ensures
        json_of(ValueModel::Object(s)) is Object,
        json_of(ValueModel::Object(s))->Object_0.len() == s.len(),
        forall|i: int| 0 <= i < s.len() ==> json_of(ValueModel::Object(s))->Object_0[i]
            == (s[i].0, json_of(s[i].1)),
{
    lemma_json_of_entries_index(s);
}

} // verus!
