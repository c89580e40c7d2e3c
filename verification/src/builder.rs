use vstd::prelude::*;

use crate::entries::keys_distinct;
use crate::entries::lemma_upsert_absent;
use crate::entries::lemma_upsert_found;
use crate::entries::upsert;
use crate::value::BuildError;
use crate::value::ToValue;
use crate::value::TryToValue;
use crate::value::Value;

verus! {

/// True when `v` is an object value whose entry list views to `es`.
pub open spec fn is_object_with(v: Value, es: Seq<(String, Value)>) -> bool {
    match v {
        Value::Object(m) => m@ == es,
        _ => false,
    }
}

/// True when `v` is an array value whose element list views to `items`.
pub open spec fn is_array_with(v: Value, items: Seq<Value>) -> bool {
    match v {
        Value::Array(a) => a@ == items,
        _ => false,
    }
}

/// True when `out` is an object that one run of `configure` over a fresh
/// object scope, with `item` in view, can leave behind.
pub open spec fn built_object<T, F: Fn(&T, ObjectBuilder) -> ObjectBuilder>(
    configure: F,
    item: T,
    out: Value,
) -> bool {
    exists|b0: ObjectBuilder, b1: ObjectBuilder|
        {
            &&& b0.is_empty()
            &&& #[trigger] call_ensures(configure, (&item, b0), b1)
            &&& is_object_with(out, b1.entries())
        }
}

/// Accumulates key/value entries of a JSON object under construction.
///
/// Keys stay in insertion order and are unique: writing a key again replaces
/// the value in place. A conversion failure inside the builder is remembered
/// and surfaces as an error when the builder is finalized.
pub struct ObjectBuilder {
    entries: Vec<(String, Value)>,
    fail: bool,
}

/// Accumulates the elements of a JSON array under construction, in push
/// order. A conversion failure inside the builder is remembered and surfaces
/// as an error when the builder is finalized.
pub struct ArrayBuilder {
    items: Vec<Value>,
    fail: bool,
}

/// The position of the first entry of `entries` whose key has the text of
/// `key`, if any.
fn find_key(entries: &Vec<(String, Value)>, key: &String) -> (r: Option<usize>)
    ensures
        match r {
            Some(i) => i < entries@.len() && entries@[i as int].0@ == key@ && (forall|j: int|
                0 <= j < i ==> entries@[j].0@ != key@),
            None => forall|j: int| 0 <= j < entries@.len() ==> entries@[j].0@ != key@,
        },
{
    let n = entries.len();
    let mut i: usize = 0;
    while i < n
        invariant
            n == entries@.len(),
            i <= n,
            forall|j: int| 0 <= j < i ==> entries@[j].0@ != key@,
        decreases n - i,
    {
        if entries[i].0 == *key {
            return Some(i);
        }
        i += 1;
    }
    None
}

impl ObjectBuilder {
    /// The accumulated entries, oldest first.
    pub closed spec fn entries(self) -> Seq<(String, Value)> {
        self.entries@
    }

    /// Whether a conversion failure has been recorded.
    pub closed spec fn failed(self) -> bool {
        self.fail
    }

    /// A builder holding no entries and no recorded failure.
    pub open spec fn is_empty(self) -> bool {
        self.entries().len() == 0 && !self.failed()
    }

    #[verifier::type_invariant]
    closed spec fn inv(self) -> bool {
        keys_distinct(self.entries@)
    }

    /// A fresh builder with no entries.
    pub fn new() -> (r: ObjectBuilder)
        ensures
            r.is_empty(),
    {
        ObjectBuilder { entries: Vec::new(), fail: false }
    }

    /// Store `v` under `key`: the first entry with the same key text is
    /// replaced in place; otherwise the entry is appended.
    fn set_value(&mut self, key: String, v: Value)
        ensures
            final(self).entries() == upsert(old(self).entries(), key, v),
            final(self).failed() == old(self).failed(),
    {
        proof {
            use_type_invariant(&*self);
        }
        let mut entries: Vec<(String, Value)> = Vec::new();
        core::mem::swap(&mut entries, &mut self.entries);
        let ghost s0 = entries@;
        match find_key(&entries, &key) {
            Some(i) => {
                entries[i] = (key, v);
                proof {
                    lemma_upsert_found(s0, i as int, key, v);
                    assert(entries@ =~= s0.update(i as int, (key, v)));
                }
            },
            None => {
                entries.push((key, v));
                proof {
                    lemma_upsert_absent(s0, key, v);
                    assert(entries@ =~= s0.push((key, v)));
                }
            },
        }
        self.entries = entries;
    }

    /// Insert `value` under `key`; the conversion is total, so this cannot
    /// fail. Writing a key twice keeps the last value (and the key's first
    /// position).
    pub fn set<V: ToValue>(&mut self, key: String, value: V)
        ensures
            final(self).entries() == upsert(old(self).entries(), key, value.to_value_spec()),
            final(self).failed() == old(self).failed(),
    {
        let v = value.to_value();
        self.set_value(key, v);
    }

    /// Attempt to insert `value` under `key`. When the conversion fails, the
    /// entries are left untouched and the failure is recorded instead.
    pub fn try_set<V: TryToValue>(&mut self, key: String, value: V)
        ensures
            match value.try_to_value_spec() {
                Some(v) => final(self).entries() == upsert(old(self).entries(), key, v)
                    && final(self).failed() == old(self).failed(),
                None => final(self).entries() == old(self).entries() && final(self).failed(),
            },
    {
        match value.try_to_value() {
            Ok(v) => self.set_value(key, v),
            Err(_) => {
                proof {
                    use_type_invariant(&*self);
                }
                self.fail = true;
            },
        }
    }

    /// Build a nested object with `configure` and store it under `key`. A
    /// failure recorded in the nested builder is carried over into this one.
    pub fn object<F: FnOnce(ObjectBuilder) -> ObjectBuilder>(&mut self, key: String, configure: F)
        requires
            forall|b: ObjectBuilder| b.is_empty() ==> #[trigger] call_requires(configure, (b,)),
        ensures
            exists|b0: ObjectBuilder, b1: ObjectBuilder|
                {
                    &&& b0.is_empty()
                    &&& #[trigger] call_ensures(configure, (b0,), b1)
                    &&& exists|v: Value|
                        is_object_with(v, b1.entries()) && final(self).entries() == upsert(
                            old(self).entries(),
                            key,
                            v,
                        )
                    &&& final(self).failed() == (old(self).failed() || b1.failed())
                },
    {
        let b0 = ObjectBuilder::new();
        let ghost g0 = b0;
        let b1 = configure(b0);
        let ghost g1 = b1;
        let ObjectBuilder { entries, fail } = b1;
        let ghost gv = Value::Object(entries);
        if fail {
            proof {
                use_type_invariant(&*self);
            }
            self.fail = true;
        }
        self.set_value(key, Value::Object(entries));
        proof {
            assert(g0.is_empty() && call_ensures(configure, (g0,), g1));
            assert(is_object_with(gv, g1.entries()));
            assert(self.entries() == upsert(old(self).entries(), key, gv));
        }
    }

    /// Build a nested array with `configure` and store it under `key`. A
    /// failure recorded in the nested builder is carried over into this one.
    pub fn array<F: FnOnce(ArrayBuilder) -> ArrayBuilder>(&mut self, key: String, configure: F)
        requires
            forall|b: ArrayBuilder| b.is_empty() ==> #[trigger] call_requires(configure, (b,)),
        ensures
            exists|b0: ArrayBuilder, b1: ArrayBuilder|
                {
                    &&& b0.is_empty()
                    &&& #[trigger] call_ensures(configure, (b0,), b1)
                    &&& exists|v: Value|
                        is_array_with(v, b1.items()) && final(self).entries() == upsert(
                            old(self).entries(),
                            key,
                            v,
                        )
                    &&& final(self).failed() == (old(self).failed() || b1.failed())
                },
    {
        let b0 = ArrayBuilder::new();
        let ghost g0 = b0;
        let b1 = configure(b0);
        let ghost g1 = b1;
        let ArrayBuilder { items, fail } = b1;
        let ghost gv = Value::Array(items);
        if fail {
            proof {
                use_type_invariant(&*self);
            }
            self.fail = true;
        }
        self.set_value(key, Value::Array(items));
        proof {
            assert(g0.is_empty() && call_ensures(configure, (g0,), g1));
            assert(is_array_with(gv, g1.items()));
            assert(self.entries() == upsert(old(self).entries(), key, gv));
        }
    }

    /// Finalize the builder: the completed object value, unless a conversion
    /// failure was recorded, in which case the error surfaces and no value is
    /// produced.
    pub fn unwrap(self) -> (r: Result<Value, BuildError>)
        ensures
            self.failed() ==> r == Err::<Value, BuildError>(BuildError::UnrepresentableNumber),
            !self.failed() ==> r is Ok && is_object_with(r->Ok_0, self.entries())
                && keys_distinct(self.entries()),
    {
        proof {
            use_type_invariant(&self);
        }
        if self.fail {
            Err(BuildError::UnrepresentableNumber)
        } else {
            Ok(Value::Object(self.entries))
        }
    }
}

impl ArrayBuilder {
    /// The accumulated elements, in push order.
    pub closed spec fn items(self) -> Seq<Value> {
        self.items@
    }

    /// Whether a conversion failure has been recorded.
    pub closed spec fn failed(self) -> bool {
        self.fail
    }

    /// A builder holding no elements and no recorded failure.
    pub open spec fn is_empty(self) -> bool {
        self.items().len() == 0 && !self.failed()
    }

    /// A fresh builder with no elements.
    pub fn new() -> (r: ArrayBuilder)
        ensures
            r.is_empty(),
    {
        ArrayBuilder { items: Vec::new(), fail: false }
    }

    /// Append a ready value; elements keep their push order.
    pub fn push_json(&mut self, value: Value)
        ensures
            final(self).items() == old(self).items().push(value),
            final(self).failed() == old(self).failed(),
    {
        self.items.push(value);
    }

    /// Append `value`; the conversion is total, so this cannot fail.
    pub fn push<V: ToValue>(&mut self, value: V)
        ensures
            final(self).items() == old(self).items().push(value.to_value_spec()),
            final(self).failed() == old(self).failed(),
    {
        let v = value.to_value();
        self.push_json(v);
    }

    /// Attempt to append `value`. When the conversion fails, the elements are
    /// left untouched and the failure is recorded instead.
    pub fn try_push<V: TryToValue>(&mut self, value: V)
        ensures
            match value.try_to_value_spec() {
                Some(v) => final(self).items() == old(self).items().push(v)
                    && final(self).failed() == old(self).failed(),
                None => final(self).items() == old(self).items() && final(self).failed(),
            },
    {
        match value.try_to_value() {
            Ok(v) => self.push_json(v),
            Err(_) => {
                self.fail = true;
            },
        }
    }

    /// Build a nested array with `configure` and append it. A failure
    /// recorded in the nested builder is carried over into this one.
    pub fn array<F: FnOnce(ArrayBuilder) -> ArrayBuilder>(&mut self, configure: F)
        requires
            forall|b: ArrayBuilder| b.is_empty() ==> #[trigger] call_requires(configure, (b,)),
        ensures
            exists|b0: ArrayBuilder, b1: ArrayBuilder|
                {
                    &&& b0.is_empty()
                    &&& #[trigger] call_ensures(configure, (b0,), b1)
                    &&& exists|v: Value|
                        is_array_with(v, b1.items()) && final(self).items()
                            == old(self).items().push(v)
                    &&& final(self).failed() == (old(self).failed() || b1.failed())
                },
    {
        let b0 = ArrayBuilder::new();
        let ghost g0 = b0;
        let b1 = configure(b0);
        let ghost g1 = b1;
        let ArrayBuilder { items, fail } = b1;
        let ghost gv = Value::Array(items);
        if fail {
            self.fail = true;
        }
        self.push_json(Value::Array(items));
        proof {
            assert(g0.is_empty() && call_ensures(configure, (g0,), g1));
            assert(is_array_with(gv, g1.items()));
            assert(self.items() == old(self).items().push(gv));
        }
    }

    /// Build a nested object with `configure` and append it. A failure
    /// recorded in the nested builder is carried over into this one.
    pub fn object<F: FnOnce(ObjectBuilder) -> ObjectBuilder>(&mut self, configure: F)
        requires
            forall|b: ObjectBuilder| b.is_empty() ==> #[trigger] call_requires(configure, (b,)),
        ensures
            exists|b0: ObjectBuilder, b1: ObjectBuilder|
                {
                    &&& b0.is_empty()
                    &&& #[trigger] call_ensures(configure, (b0,), b1)
                    &&& exists|v: Value|
                        is_object_with(v, b1.entries()) && final(self).items()
                            == old(self).items().push(v)
                    &&& final(self).failed() == (old(self).failed() || b1.failed())
                },
    {
        let b0 = ObjectBuilder::new();
        let ghost g0 = b0;
        let b1 = configure(b0);
        let ghost g1 = b1;
        let ObjectBuilder { entries, fail } = b1;
        let ghost gv = Value::Object(entries);
        if fail {
            self.fail = true;
        }
        self.push_json(Value::Object(entries));
        proof {
            assert(g0.is_empty() && call_ensures(configure, (g0,), g1));
            assert(is_object_with(gv, g1.entries()));
            assert(self.items() == old(self).items().push(gv));
        }
    }

    /// Append one object per item of `source`, in order: each item gets a
    /// fresh object scope that `configure` populates with that item in view,
    /// and the finished object is appended. An empty `source` appends
    /// nothing and is no error. A failure recorded in any nested builder is
    /// carried over into this one, and without one the failure state is left
    /// as it was.
    pub fn objects<T, F: Fn(&T, ObjectBuilder) -> ObjectBuilder>(
        &mut self,
        source: &Vec<T>,
        configure: F,
    )
        requires
            forall|i: int, b: ObjectBuilder|
                0 <= i < source.len() && b.is_empty() ==> #[trigger] call_requires(
                    configure,
                    (&source[i], b),
                ),
        ensures
            old(self).failed() ==> final(self).failed(),
            final(self).failed() ==> old(self).failed() || exists|
                i: int,
                b0: ObjectBuilder,
                b1: ObjectBuilder,
            |
                0 <= i < source.len() && b0.is_empty() && #[trigger] call_ensures(
                    configure,
                    (&source[i], b0),
                    b1,
                ) && b1.failed(),
            ((forall|i: int, b0: ObjectBuilder, b1: ObjectBuilder|
                0 <= i < source.len() && b0.is_empty() && #[trigger] call_ensures(
                    configure,
                    (&source[i], b0),
                    b1,
                ) ==> !b1.failed()) && !old(self).failed()) ==> !final(self).failed(),
            exists|ap: Seq<Value>|
                {
                    &&& ap.len() == source.len()
                    &&& final(self).items() == old(self).items() + ap
                    &&& forall|i: int|
                        0 <= i < ap.len() ==> built_object(configure, source[i], #[trigger] ap[i])
                },
    {
        let ghost prev = *self;
        let ghost mut ap: Seq<Value> = Seq::empty();
        let n = source.len();
        let mut idx: usize = 0;
        proof {
            assert(self.items@ =~= prev.items@ + ap);
        }
        while idx < n
            invariant
                n == source.len(),
                idx <= n,
                ap.len() == idx,
                self.items@ == prev.items@ + ap,
                forall|i: int|
                    0 <= i < ap.len() ==> built_object(configure, source[i], #[trigger] ap[i]),
                prev.fail ==> self.fail,
                self.fail ==> prev.fail || exists|
                    i: int,
                    b0: ObjectBuilder,
                    b1: ObjectBuilder,
                |
                    0 <= i < n && b0.is_empty() && #[trigger] call_ensures(
                        configure,
                        (&source[i], b0),
                        b1,
                    ) && b1.failed(),
                ((forall|i: int, b0: ObjectBuilder, b1: ObjectBuilder|
                    0 <= i < n && b0.is_empty() && #[trigger] call_ensures(
                        configure,
                        (&source[i], b0),
                        b1,
                    ) ==> !b1.failed()) && !prev.fail) ==> !self.fail,
                forall|i: int, b: ObjectBuilder|
                    0 <= i < n && b.is_empty() ==> #[trigger] call_requires(
                        configure,
                        (&source[i], b),
                    ),
            decreases n - idx,
        {
            let b0 = ObjectBuilder::new();
            let ghost g0 = b0;
            let b1 = configure(&source[idx], b0);
            let ghost g1 = b1;
            let ObjectBuilder { entries, fail } = b1;
            let ghost gv = Value::Object(entries);
            if fail {
                self.fail = true;
            }
            self.items.push(Value::Object(entries));
            proof {
                assert(g0.is_empty() && call_ensures(configure, (&source[idx as int], g0), g1));
                assert(is_object_with(gv, g1.entries()));
                assert(built_object(configure, source[idx as int], gv));
                ap = ap.push(gv);
                assert(self.items@ =~= prev.items@ + ap);
            }
            idx += 1;
        }
    }

    /// Finalize the builder: the completed array value, unless a conversion
    /// failure was recorded, in which case the error surfaces and no value is
    /// produced.
    pub fn unwrap(self) -> (r: Result<Value, BuildError>)
        ensures
            self.failed() ==> r == Err::<Value, BuildError>(BuildError::UnrepresentableNumber),
            !self.failed() ==> r is Ok && is_array_with(r->Ok_0, self.items()),
    {
        if self.fail {
            Err(BuildError::UnrepresentableNumber)
        } else {
            Ok(Value::Array(self.items))
        }
    }
}

/// Open a fresh object scope, run `configure` in it once, and finalize the
/// result. The call fails exactly when a conversion inside `configure`
/// failed, and then yields no value at all.
pub fn object<F: FnOnce(ObjectBuilder) -> ObjectBuilder>(configure: F) -> (r: Result<
    Value,
    BuildError,
>)
    requires
        forall|b: ObjectBuilder| b.is_empty() ==> #[trigger] call_requires(configure, (b,)),
    ensures
        exists|b0: ObjectBuilder, b1: ObjectBuilder|
            {
                &&& b0.is_empty()
                &&& #[trigger] call_ensures(configure, (b0,), b1)
                &&& b1.failed() ==> r == Err::<Value, BuildError>(
                    BuildError::UnrepresentableNumber,
                )
                &&& !b1.failed() ==> r is Ok && is_object_with(r->Ok_0, b1.entries())
                    && keys_distinct(b1.entries())
            },
{
    let b0 = ObjectBuilder::new();
    let ghost g0 = b0;
    let b1 = configure(b0);
    let ghost g1 = b1;
    let r = b1.unwrap();
    proof {
        assert(g0.is_empty() && call_ensures(configure, (g0,), g1));
    }
    r
}

/// Open a fresh array scope, run `configure` in it once, and finalize the
/// result. The call fails exactly when a conversion inside `configure`
/// failed, and then yields no value at all.
pub fn array<F: FnOnce(ArrayBuilder) -> ArrayBuilder>(configure: F) -> (r: Result<
    Value,
    BuildError,
>)
    requires
        forall|b: ArrayBuilder| b.is_empty() ==> #[trigger] call_requires(configure, (b,)),
    ensures
        exists|b0: ArrayBuilder, b1: ArrayBuilder|
            {
                &&& b0.is_empty()
                &&& #[trigger] call_ensures(configure, (b0,), b1)
                &&& b1.failed() ==> r == Err::<Value, BuildError>(
                    BuildError::UnrepresentableNumber,
                )
                &&& !b1.failed() ==> r is Ok && is_array_with(r->Ok_0, b1.items())
            },
{
    let b0 = ArrayBuilder::new();
    let ghost g0 = b0;
    let b1 = configure(b0);
    let ghost g1 = b1;
    let r = b1.unwrap();
    proof {
        assert(g0.is_empty() && call_ensures(configure, (g0,), g1));
    }
    r
}

} // verus!
