use vstd::prelude::*;

verus! {

/// A JSON value tree: null, boolean, integer number, text, an ordered array
/// of values, or an object held as an ordered list of key/value entries.
///
/// Objects produced by the builders in this crate keep the insertion order of
/// their keys and hold at most one entry per key.
#[derive(Debug, PartialEq, Eq)]
pub enum Value {
    Null,
    Bool(bool),
    Number(i64),
    Text(String),
    Array(Vec<Value>),
    Object(Vec<(String, Value)>),
}

/// Failure of the value-conversion layer: a caller-supplied datum has no
/// representation as a `Value`.
#[derive(Debug, Clone, Copy, PartialEq, Eq, Structural)]
pub enum BuildError {
    /// A numeric input lies outside the range a `Value::Number` can hold.
    UnrepresentableNumber,
}

impl BuildError {
    /// A human-readable description of the failure.
    pub fn message(&self) -> (r: &'static str)
        ensures
            r@ =~= "a value could not be represented as a JSON value"@,
    {
        "a value could not be represented as a JSON value"
    }
}

/// Types every instance of which converts to a JSON `Value`.
pub trait ToValue: Sized {
    /// The `Value` this datum denotes.
    spec fn to_value_spec(&self) -> Value;

    /// Convert into a `Value`; total, never fails.
    fn to_value(self) -> (v: Value)
        ensures
            v == self.to_value_spec(),
    ;
}

impl ToValue for bool {
    open spec fn to_value_spec(&self) -> Value {
        Value::Bool(*self)
    }

    fn to_value(self) -> (v: Value) {
        Value::Bool(self)
    }
}

impl ToValue for i64 {
    open spec fn to_value_spec(&self) -> Value {
        Value::Number(*self)
    }

    fn to_value(self) -> (v: Value) {
        Value::Number(self)
    }
}

impl ToValue for String {
    open spec fn to_value_spec(&self) -> Value {
        Value::Text(*self)
    }

    fn to_value(self) -> (v: Value) {
        Value::Text(self)
    }
}

impl ToValue for Value {
    open spec fn to_value_spec(&self) -> Value {
        *self
    }

    fn to_value(self) -> (v: Value) {
        self
    }
}

/// Types whose conversion to a JSON `Value` can fail.
pub trait TryToValue: Sized {
    /// The `Value` this datum denotes, or `None` when it has no representation.
    spec fn try_to_value_spec(&self) -> Option<Value>;

    /// Attempt the conversion; fails exactly when the datum is unrepresentable.
    fn try_to_value(self) -> (r: Result<Value, BuildError>)
        ensures
            match r {
                Ok(v) => self.try_to_value_spec() == Some(v),
                Err(e) => self.try_to_value_spec() is None && e
                    == BuildError::UnrepresentableNumber,
            },
    ;
}

impl TryToValue for u64 {
    open spec fn try_to_value_spec(&self) -> Option<Value> {
        if *self <= i64::MAX {
            Some(Value::Number(*self as i64))
        } else {
            None
        }
    }

    fn try_to_value(self) -> (r: Result<Value, BuildError>) {
        if self <= i64::MAX as u64 {
            Ok(Value::Number(self as i64))
        } else {
            Err(BuildError::UnrepresentableNumber)
        }
    }
}

/// The mathematical shape of a `Value`: text instead of heap strings,
/// unbounded integers, and sequences instead of vectors. Contracts that
/// cannot pin a heap value exactly speak of this view instead.
pub enum ValueModel {
    Null,
    Bool(bool),
    Number(int),
    Text(Seq<char>),
    Array(Seq<ValueModel>),
    Object(Seq<(Seq<char>, ValueModel)>),
}

/// The view of a value tree: every string replaced by its text.
pub open spec fn model(v: Value) -> ValueModel
    decreases v,
{
    match v {
        Value::Null => ValueModel::Null,
        Value::Bool(b) => ValueModel::Bool(b),
        Value::Number(n) => ValueModel::Number(n as int),
        Value::Text(s) => ValueModel::Text(s@),
        Value::Array(items) => ValueModel::Array(model_seq(items@)),
        Value::Object(entries) => ValueModel::Object(model_entries(entries@)),
    }
}

/// The views of a sequence of values, in order.
pub open spec fn model_seq(s: Seq<Value>) -> Seq<ValueModel>
    decreases s,
{
    if s.len() == 0 {
        Seq::empty()
    } else {
        seq![model(s[0])] + model_seq(s.drop_first())
    }
}

/// The views of a sequence of key/value entries, in order.
pub open spec fn model_entries(s: Seq<(String, Value)>) -> Seq<(Seq<char>, ValueModel)>
    decreases s,
{
    if s.len() == 0 {
        Seq::empty()
    } else {
        seq![(s[0].0@, model(s[0].1))] + model_entries(s.drop_first())
    }
}

/// Appending a value appends its view.
pub proof fn lemma_model_seq_push(s: Seq<Value>, v: Value)
    ensures
        model_seq(s.push(v)) =~= model_seq(s).push(model(v)),
    decreases s.len(),
{
    reveal_with_fuel(model_seq, 3);
    if s.len() == 0 {
        assert(s.push(v)[0] == v);
        assert(s.push(v).drop_first() =~= Seq::<Value>::empty());
    } else {
        assert(s.push(v)[0] == s[0]);
        assert(s.push(v).drop_first() =~= s.drop_first().push(v));
        lemma_model_seq_push(s.drop_first(), v);
    }
}

/// Appending an entry appends its view.
pub proof fn lemma_model_entries_push(s: Seq<(String, Value)>, e: (String, Value))
    ensures
        model_entries(s.push(e)) =~= model_entries(s).push((e.0@, model(e.1))),
    decreases s.len(),
{
    reveal_with_fuel(model_entries, 3);
    if s.len() == 0 {
        assert(s.push(e)[0] == e);
        assert(s.push(e).drop_first() =~= Seq::<(String, Value)>::empty());
    } else {
        assert(s.push(e)[0] == s[0]);
        assert(s.push(e).drop_first() =~= s.drop_first().push(e));
        lemma_model_entries_push(s.drop_first(), e);
    }
}

impl View for Value {
    type V = ValueModel;

    open spec fn view(&self) -> ValueModel {
        model(*self)
    }
}

/// Nesting depth of a value tree: scalars sit at depth zero, and each
/// array or object level adds one.
pub open spec fn depth(v: Value) -> nat
    decreases v,
{
    match v {
        Value::Array(items) => 1 + items_depth(items@),
        Value::Object(entries) => 1 + entries_depth(entries@),
        _ => 0,
    }
}

/// Largest nesting depth among the values of a sequence.
pub open spec fn items_depth(s: Seq<Value>) -> nat
    decreases s,
{
    if s.len() == 0 {
        0
    } else {
        let d0 = depth(s[0]);
        let dr = items_depth(s.drop_first());
        if d0 >= dr {
            d0
        } else {
            dr
        }
    }
}

/// Largest nesting depth among the values of a key/value entry sequence.
pub open spec fn entries_depth(s: Seq<(String, Value)>) -> nat
    decreases s,
{
    if s.len() == 0 {
        0
    } else {
        let d0 = depth(s[0].1);
        let dr = entries_depth(s.drop_first());
        if d0 >= dr {
            d0
        } else {
            dr
        }
    }
}

} // verus!
