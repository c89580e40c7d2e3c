use vstd::prelude::*;

use crate::value::Value;

verus! {

/// True when no two entries of `s` share a key, keys compared by their text.
pub open spec fn keys_distinct(s: Seq<(String, Value)>) -> bool {
    forall|i: int, j: int| 0 <= i < j < s.len() ==> s[i].0@ != s[j].0@
}

/// The value stored in `s` under the key text `k`, if any; the first match wins.
pub open spec fn lookup(s: Seq<(String, Value)>, k: Seq<char>) -> Option<Value>
    decreases s.len(),
{
    if s.len() == 0 {
        None
    } else if s[0].0@ == k {
        Some(s[0].1)
    } else {
        lookup(s.drop_first(), k)
    }
}

/// How many entries of `s` carry the key text `k`.
pub open spec fn count_key(s: Seq<(String, Value)>, k: Seq<char>) -> nat
    decreases s.len(),
{
    if s.len() == 0 {
        0
    } else {
        (if s[0].0@ == k {
            1nat
        } else {
            0nat
        }) + count_key(s.drop_first(), k)
    }
}

/// `s` with `v` stored under `key`: the first entry whose key has the same
/// text is replaced in place, keeping its position; when no entry matches,
/// a new entry is appended at the end.
pub open spec fn upsert(s: Seq<(String, Value)>, key: String, v: Value) -> Seq<(String, Value)>
    decreases s.len(),
{
    if s.len() == 0 {
        seq![(key, v)]
    } else if s[0].0@ == key@ {
        seq![(key, v)] + s.drop_first()
    } else {
        seq![s[0]] + upsert(s.drop_first(), key, v)
    }
}

/// When the first matching key stands at position `i`, `upsert` replaces
/// exactly that entry.
pub proof fn lemma_upsert_found(s: Seq<(String, Value)>, i: int, key: String, v: Value)
    requires
        0 <= i < s.len(),
        s[i].0@ == key@,
        forall|j: int| 0 <= j < i ==> s[j].0@ != key@,
    ensures
        upsert(s, key, v) =~= s.update(i, (key, v)),
    decreases i,
{
    if i == 0 {
        assert(upsert(s, key, v) =~= seq![(key, v)] + s.drop_first());
    } else {
        lemma_upsert_found(s.drop_first(), i - 1, key, v);
        assert(upsert(s, key, v) =~= seq![s[0]] + s.drop_first().update(i - 1, (key, v)));
    }
}

/// When no key of `s` matches, `upsert` appends the new entry.
pub proof fn lemma_upsert_absent(s: Seq<(String, Value)>, key: String, v: Value)
    requires
        forall|j: int| 0 <= j < s.len() ==> s[j].0@ != key@,
    ensures
        upsert(s, key, v) =~= s.push((key, v)),
    decreases s.len(),
{
    if s.len() > 0 {
        lemma_upsert_absent(s.drop_first(), key, v);
    }
}

/// Looking a key up after an `upsert` finds the new value under the written
/// key and leaves every other key unchanged.
pub proof fn lemma_lookup_upsert(s: Seq<(String, Value)>, key: String, v: Value, k: Seq<char>)
    ensures
        lookup(upsert(s, key, v), k) == (if k == key@ {
            Some(v)
        } else {
            lookup(s, k)
        }),
    decreases s.len(),
{
    reveal_with_fuel(lookup, 3);
    reveal_with_fuel(upsert, 3);
    if s.len() == 0 {
        let c = seq![(key, v)];
        assert(c[0] == (key, v));
        assert(c.drop_first() =~= Seq::<(String, Value)>::empty());
    } else if s[0].0@ == key@ {
        let c = seq![(key, v)] + s.drop_first();
        assert(c[0] == (key, v));
        assert(c.drop_first() =~= s.drop_first());
    } else {
        lemma_lookup_upsert(s.drop_first(), key, v, k);
        let c = seq![s[0]] + upsert(s.drop_first(), key, v);
        assert(c[0] == s[0]);
        assert(c.drop_first() =~= upsert(s.drop_first(), key, v));
    }
}

/// `upsert` keeps the count of every other key and leaves at least one and at
/// most the old number of entries under the written key.
pub proof fn lemma_count_key_upsert(s: Seq<(String, Value)>, key: String, v: Value, k: Seq<char>)
    ensures
        k == key@ ==> count_key(upsert(s, key, v), k) == (if count_key(s, k) == 0 {
            1nat
        } else {
            count_key(s, k)
        }),
        k != key@ ==> count_key(upsert(s, key, v), k) == count_key(s, k),
    decreases s.len(),
{
    reveal_with_fuel(count_key, 3);
    reveal_with_fuel(upsert, 3);
    if s.len() == 0 {
        assert(upsert(s, key, v) =~= seq![(key, v)]);
        assert(seq![(key, v)][0] == (key, v));
        assert(seq![(key, v)].drop_first() =~= Seq::<(String, Value)>::empty());
    } else if s[0].0@ == key@ {
        let c = seq![(key, v)] + s.drop_first();
        assert(c[0] == (key, v));
        assert(c.drop_first() =~= s.drop_first());
    } else {
        lemma_count_key_upsert(s.drop_first(), key, v, k);
        let c = seq![s[0]] + upsert(s.drop_first(), key, v);
        assert(c[0] == s[0]);
        assert(c.drop_first() =~= upsert(s.drop_first(), key, v));
    }
}

/// A key text that matches no entry of `s` has count zero.
pub proof fn lemma_count_key_zero(s: Seq<(String, Value)>, k: Seq<char>)
    requires
        forall|j: int| 0 <= j < s.len() ==> s[j].0@ != k,
    ensures
        count_key(s, k) == 0,
    decreases s.len(),
{
    if s.len() > 0 {
        lemma_count_key_zero(s.drop_first(), k);
    }
}

/// Under distinct keys, no key text is carried by more than one entry.
pub proof fn lemma_distinct_count_le_one(s: Seq<(String, Value)>, k: Seq<char>)
    requires
        keys_distinct(s),
    ensures
        count_key(s, k) <= 1,
    decreases s.len(),
{
    if s.len() > 0 {
        assert(keys_distinct(s.drop_first())) by {
            assert(forall|i: int, j: int|
                0 <= i < j < s.drop_first().len() ==> s.drop_first()[i] == s[i + 1]
                    && s.drop_first()[j] == s[j + 1]);
        }
        if s[0].0@ == k {
            lemma_count_key_zero(s.drop_first(), k);
        } else {
            lemma_distinct_count_le_one(s.drop_first(), k);
        }
    }
}

} // verus!
