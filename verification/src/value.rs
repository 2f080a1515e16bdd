use vstd::prelude::*;

verus! {

/// A query-language value: the tagged union produced by the upstream parser.
///
/// `Variable` and `Enum` are the two variants with no JSON counterpart; the
/// converter degrades both to JSON strings carrying their name. `Int` holds a
/// wide integer so that out-of-range inputs can be represented and rejected
/// during conversion instead of being truncated. `Float` carries serde_json's
/// number type opaquely: the library never inspects a floating-point value,
/// it only passes it through. `Object` keeps its key/value pairs in insertion
/// order.
#[derive(Debug, PartialEq)]
pub enum GqlValue {
    Null,
    Variable(String),
    Int(i128),
    Float(serde_json::Number),
    String(String),
    Boolean(bool),
    Enum(String),
    List(Vec<GqlValue>),
    Object(Vec<(String, GqlValue)>),
}

/// The mathematical model of a query-language value: text as sequences of
/// characters, integers as unbounded integers, lists and objects as sequences.
pub enum ValueModel {
    Null,
    Variable(Seq<char>),
    Int(int),
    Float(serde_json::Number),
    Str(Seq<char>),
    Boolean(bool),
    Enum(Seq<char>),
    List(Seq<ValueModel>),
    Object(Seq<(Seq<char>, ValueModel)>),
}

/// The model of a value.
pub open spec fn value_model(v: GqlValue) -> ValueModel
    decreases v,
{
    match v {
        GqlValue::Null => ValueModel::Null,
        GqlValue::Variable(name) => ValueModel::Variable(name@),
        GqlValue::Int(n) => ValueModel::Int(n as int),
        GqlValue::Float(x) => ValueModel::Float(x),
        GqlValue::String(s) => ValueModel::Str(s@),
        GqlValue::Boolean(b) => ValueModel::Boolean(b),
        GqlValue::Enum(name) => ValueModel::Enum(name@),
        GqlValue::List(items) => ValueModel::List(value_models(items@)),
        GqlValue::Object(pairs) => ValueModel::Object(entry_models(pairs@)),
    }
}

/// The models of a sequence of values, in order.
pub open spec fn value_models(s: Seq<GqlValue>) -> Seq<ValueModel>
    decreases s,
{
    if s.len() == 0 {
        Seq::empty()
    } else {
        seq![value_model(s.first())] + value_models(s.drop_first())
    }
}

/// The models of a sequence of key/value pairs, in order.
pub open spec fn entry_models(s: Seq<(String, GqlValue)>) -> Seq<(Seq<char>, ValueModel)>
    decreases s,
{
    if s.len() == 0 {
        Seq::empty()
    } else {
        seq![(s.first().0@, value_model(s.first().1))] + entry_models(s.drop_first())
    }
}

/// `value_models` maps `value_model` over the sequence, element by element.
pub proof fn lemma_value_models_index(s: Seq<GqlValue>)
    ensures
        value_models(s).len() == s.len(),
        forall|i: int| 0 <= i < s.len() ==> value_models(s)[i] == value_model(s[i]),
    decreases s.len(),
{
    if s.len() > 0 {
        lemma_value_models_index(s.drop_first());
    }
}

/// `entry_models` keeps every key and models every value, in order.
pub proof fn lemma_entry_models_index(s: Seq<(String, GqlValue)>)
    ensures
        entry_models(s).len() == s.len(),
        forall|i: int| 0 <= i < s.len() ==> entry_models(s)[i]
            == (s[i].0@, value_model(s[i].1)),
    decreases s.len(),
{
    if s.len() > 0 {
        lemma_entry_models_index(s.drop_first());
    }
}

impl View for GqlValue {
    type V = ValueModel;

    open spec fn view(&self) -> ValueModel {
        value_model(*self)
    }
}

impl Clone for GqlValue {
    /// Cloning is deep: the clone has the same model as the original.
    fn clone(&self) -> (r: Self)
        ensures
            r@ == self@,
        decreases *self,
    {
        match self {
            GqlValue::Null => GqlValue::Null,
            GqlValue::Variable(name) => GqlValue::Variable(name.clone()),
            GqlValue::Int(n) => GqlValue::Int(*n),
            GqlValue::Float(x) => GqlValue::Float(x.clone()),
            GqlValue::String(s) => GqlValue::String(s.clone()),
            GqlValue::Boolean(b) => GqlValue::Boolean(*b),
            GqlValue::Enum(name) => GqlValue::Enum(name.clone()),
            GqlValue::List(items) => {
                let mut out: Vec<GqlValue> = Vec::new();
                let mut i: usize = 0;
                while i < items.len()
                    invariant
                        *self == GqlValue::List(*items),
                        i <= items.len(),
                        out.len() == i,
                        forall|k: int| 0 <= k < i ==> value_model(out@[k])
                            == value_model(items@[k]),
                    decreases items.len() - i,
                {
                    proof {
                        assert(decreases_to!(*self => self->List_0@));
                        assert(decreases_to!(*self => items@[i as int]));
                    }
                    out.push(items[i].clone());
                    i = i + 1;
                }
                proof {
                    lemma_value_models_index(out@);
                    lemma_value_models_index(items@);
                    assert(value_models(out@) =~= value_models(items@));
                }
                GqlValue::List(out)
            }
            GqlValue::Object(pairs) => {
                let mut out: Vec<(String, GqlValue)> = Vec::new();
                let mut i: usize = 0;
                while i < pairs.len()
                    invariant
                        *self == GqlValue::Object(*pairs),
                        i <= pairs.len(),
                        out.len() == i,
                        forall|k: int| 0 <= k < i ==> out@[k].0@ == pairs@[k].0@
                            && value_model(out@[k].1) == value_model(pairs@[k].1),
                    decreases pairs.len() - i,
                {
                    proof {
                        assert(decreases_to!(*self => self->Object_0@));
                        assert(decreases_to!(*self => pairs@[i as int]));
                        assert(decreases_to!(pairs@[i as int] => pairs@[i as int].1));
                    }
                    let pair = &pairs[i];
                    out.push((pair.0.clone(), pair.1.clone()));
                    i = i + 1;
                }
                proof {
                    lemma_entry_models_index(out@);
                    lemma_entry_models_index(pairs@);
                    assert(entry_models(out@) =~= entry_models(pairs@));
                }
                GqlValue::Object(out)
            }
        }
    }
}

} // verus!
