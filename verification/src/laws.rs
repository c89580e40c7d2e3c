use vstd::prelude::*;

use crate::builder::is_object_with;
use crate::builder::ObjectBuilder;
use crate::entries::count_key;
use crate::entries::keys_distinct;
use crate::entries::lemma_count_key_upsert;
use crate::entries::lemma_distinct_count_le_one;
use crate::entries::lemma_lookup_upsert;
use crate::entries::lookup;
use crate::entries::upsert;
use crate::value::depth;
use crate::value::entries_depth;
use crate::value::model_entries;
use crate::value::Value;
use crate::value::ValueModel;

verus! {

broadcast use vstd::string::group_string_axioms;

/// Last write wins: storing under a key and then storing again under a key
/// of the same text leaves the second value there, and exactly one entry
/// carries that key.
pub proof fn lemma_last_write_wins(
    s: Seq<(String, Value)>,
    k1: String,
    v1: Value,
    k2: String,
    v2: Value,
)
    requires
        keys_distinct(s),
        k1@ == k2@,
    ensures
        lookup(upsert(upsert(s, k1, v1), k2, v2), k2@) == Some(v2),
        count_key(upsert(upsert(s, k1, v1), k2, v2), k2@) == 1,
{
    lemma_lookup_upsert(upsert(s, k1, v1), k2, v2, k2@);
    lemma_distinct_count_le_one(s, k2@);
    lemma_count_key_upsert(s, k1, v1, k2@);
    lemma_count_key_upsert(upsert(s, k1, v1), k2, v2, k2@);
}

/// The chain value with `d` levels of nesting: null at depth zero, and
/// above it one object per level whose sole entry `nested` holds the level
/// below.
pub open spec fn nested_chain_model(d: nat) -> ValueModel
    decreases d,
{
    if d == 0 {
        ValueModel::Null
    } else {
        ValueModel::Object(seq![("nested"@, nested_chain_model((d - 1) as nat))])
    }
}

/// Nesting fidelity: a configuration that recursively opens one object
/// scope per level, `d` levels deep, produces exactly the chain value of
/// depth `d` — each level holds precisely its one entry, and the tree's
/// nesting depth is exactly `d`.
pub fn build_nested(d: u64) -> (r: Value)
    ensures
        r@ == nested_chain_model(d as nat),
        depth(r) == d as nat,
    decreases d,
{
    if d == 0 {
        Value::Null
    } else {
        let inner = build_nested(d - 1);
        let ghost ginner = inner;
        let mut b = ObjectBuilder::new();
        let key = "nested".to_string();
        let ghost gkey = key;
        b.set(key, inner);
        match b.unwrap() {
            Ok(v) => {
                proof {
                    reveal_with_fuel(crate::entries::upsert, 2);
                    reveal_with_fuel(crate::value::model_entries, 2);
                    reveal_with_fuel(crate::value::entries_depth, 2);
                    let es = b.entries();
                    assert(es =~= seq![(gkey, ginner)]) by {
                        assert(upsert(Seq::<(String, Value)>::empty(), gkey, ginner) =~= seq![
                            (gkey, ginner),
                        ]);
                    }
                    assert(is_object_with(v, es));
                    let m = v->Object_0;
                    assert(m@ == es);
                    assert(m@.drop_first() =~= Seq::<(String, Value)>::empty());
                    assert(model_entries(m@) =~= seq![("nested"@, ginner@)]);
                    assert(v@ == ValueModel::Object(seq![("nested"@, ginner@)]));
                    assert(entries_depth(m@) == depth(ginner));
                }
                v
            },
            Err(_) => vstd::pervasive::unreached(),
        }
    }
}

} // verus!
