use vstd::prelude::*;

use vstd::string::StringExecFns;

use crate::value::model_entries;
use crate::value::model_seq;
use crate::value::Value;
use crate::value::ValueModel;

verus! {

broadcast use vstd::string::group_string_axioms;

/// The character of the decimal digit `d`.
pub open spec fn digit_char(d: nat) -> char {
    if d == 0 {
        '0'
    } else if d == 1 {
        '1'
    } else if d == 2 {
        '2'
    } else if d == 3 {
        '3'
    } else if d == 4 {
        '4'
    } else if d == 5 {
        '5'
    } else if d == 6 {
        '6'
    } else if d == 7 {
        '7'
    } else if d == 8 {
        '8'
    } else {
        '9'
    }
}

/// The decimal text of `n`: no sign, no leading zeroes, and the single
/// digit `0` for zero.
pub open spec fn dec_rep(n: nat) -> Seq<char>
    decreases n,
{
    if n < 10 {
        seq![digit_char(n)]
    } else {
        dec_rep(n / 10).push(digit_char(n % 10))
    }
}

/// Relies on `ToString` for `usize`, which the standard library documents to
/// format the number in decimal, without sign or leading zeroes.
#[verifier::external_body]
fn decimal_string(n: usize) -> (s: String)
    ensures
        s@ == dec_rep(n as nat),
{
    n.to_string()
}

/// The text `prefix_<n>` for the given prefix and counter.
fn counted_text(prefix: &str, n: usize) -> (s: String)
    ensures
        s@ == prefix@ + dec_rep(n as nat),
{
    let mut s = prefix.to_string();
    let d = decimal_string(n);
    s.append(d.as_str());
    s
}

/// The draw that `generate_random_number` makes: the byte after `index`
/// reduced below `upper_bound`, or zero when the data is exhausted.
pub open spec fn random_number_spec(data: Seq<u8>, index: nat, upper_bound: nat) -> nat
    recommends
        upper_bound > 0,
{
    if index + 1 < data.len() {
        (data[index as int + 1] as nat) % upper_bound
    } else {
        0
    }
}

/// Draw a pseudo-random number below `upper_bound` from the byte stream:
/// advance the cursor by one and reduce the byte there, falling back to zero
/// past the end of the data.
pub fn generate_random_number(data: &[u8], index: &mut usize, upper_bound: usize) -> (r: usize)
    requires
        upper_bound > 0,
        *old(index) < usize::MAX,
    ensures
        *final(index) == *old(index) + 1,
        r == random_number_spec(data@, *old(index) as nat, upper_bound as nat),
        r < upper_bound,
{
    *index += 1;
    if *index < data.len() {
        (data[*index] as usize) % upper_bound
    } else {
        0
    }
}

/// What `extract_value` decodes at `index`: the value's view and the new
/// cursor. Past the end of the data the cursor stands still and the value is
/// null; otherwise the byte at `index` picks one of seven shapes and the
/// cursor advances by one.
pub open spec fn extract_value_model(data: Seq<u8>, index: nat) -> (ValueModel, nat) {
    if index >= data.len() {
        (ValueModel::Null, index)
    } else {
        let choice = data[index as int] % 7;
        let ni = index + 1;
        let j = ni % data.len();
        let m = if choice == 0 {
            ValueModel::Null
        } else if choice == 1 {
            ValueModel::Bool(data[j as int] % 2 == 0)
        } else if choice == 2 {
            ValueModel::Number(data[j as int] as int)
        } else if choice == 3 {
            ValueModel::Text("string_"@ + dec_rep(ni))
        } else if choice == 4 {
            ValueModel::Array(seq![ValueModel::Text("array_value_"@ + dec_rep(ni))])
        } else if choice == 5 {
            ValueModel::Object(Seq::empty())
        } else {
            ValueModel::Array(Seq::empty())
        };
        (m, ni)
    }
}

/// Decode one value from the byte stream at the cursor, advancing it as
/// `extract_value_model` says.
pub fn extract_value(data: &[u8], index: &mut usize) -> (r: Value)
    requires
        *old(index) < usize::MAX,
    ensures
        r@ == extract_value_model(data@, *old(index) as nat).0,
        *final(index) == extract_value_model(data@, *old(index) as nat).1,
{
    if *index >= data.len() {
        return Value::Null;
    }
    let choice = data[*index] % 7;
    *index += 1;
    let j = *index % data.len();
    if choice == 0 {
        Value::Null
    } else if choice == 1 {
        Value::Bool(data[j] % 2 == 0)
    } else if choice == 2 {
        Value::Number(data[j] as i64)
    } else if choice == 3 {
        Value::Text(counted_text("string_", *index))
    } else if choice == 4 {
        let mut items: Vec<Value> = Vec::new();
        items.push(Value::Text(counted_text("array_value_", *index)));
        let r = Value::Array(items);
        proof {
            reveal_with_fuel(crate::value::model_seq, 2);
            let s = items@;
            assert(s.drop_first() =~= Seq::<Value>::empty());
            assert(model_seq(s) =~= seq![ValueModel::Text("array_value_"@ + dec_rep(*index as nat))]);
        }
        r
    } else if choice == 5 {
        let entries: Vec<(String, Value)> = Vec::new();
        Value::Object(entries)
    } else {
        let items: Vec<Value> = Vec::new();
        Value::Array(items)
    }
}

/// What `fuzz_deeply_nested_object` decodes at `index` with `depth` levels
/// to spare: the object's view and the new cursor. At depth zero or past the
/// end of the data the value is null and the cursor stands still.
pub open spec fn nested_object_model(data: Seq<u8>, index: nat, depth: nat) -> (ValueModel, nat)
    decreases depth, 1nat, 0nat,
{
    if depth == 0 || index >= data.len() {
        (ValueModel::Null, index)
    } else {
        let r = object_items_model(data, index + 1, depth, random_number_spec(data, index, 5));
        (ValueModel::Object(r.0), r.1)
    }
}

/// The next `cnt` entries of a nested object: each takes its key from the
/// cursor, then draws whether to nest one level deeper or to decode a plain
/// value.
pub open spec fn object_items_model(data: Seq<u8>, index: nat, depth: nat, cnt: nat) -> (Seq<
    (Seq<char>, ValueModel),
>, nat)
    decreases depth, 0nat, cnt,
{
    if cnt == 0 {
        (Seq::empty(), index)
    } else {
        let key = "key_"@ + dec_rep(index);
        let sub = if depth >= 1 && random_number_spec(data, index, 10) % 2 == 0 {
            nested_object_model(data, index + 1, (depth - 1) as nat)
        } else {
            extract_value_model(data, index + 1)
        };
        let rest = object_items_model(data, sub.1, depth, (cnt - 1) as nat);
        (seq![(key, sub.0)] + rest.0, rest.1)
    }
}

/// What `fuzz_deeply_nested_array` decodes at `index` with `depth` levels to
/// spare: the array's view and the new cursor. At depth zero or past the end
/// of the data the array is empty and the cursor stands still.
pub open spec fn nested_array_model(data: Seq<u8>, index: nat, depth: nat) -> (ValueModel, nat)
    decreases depth, 1nat, 0nat,
{
    if depth == 0 || index >= data.len() {
        (ValueModel::Array(Seq::empty()), index)
    } else {
        let r = array_items_model(data, index + 1, depth, random_number_spec(data, index, 5));
        (ValueModel::Array(r.0), r.1)
    }
}

/// The next `cnt` elements of a nested array: each draws whether to nest one
/// level deeper or to decode a plain value.
pub open spec fn array_items_model(data: Seq<u8>, index: nat, depth: nat, cnt: nat) -> (Seq<
    ValueModel,
>, nat)
    decreases depth, 0nat, cnt,
{
    if cnt == 0 {
        (Seq::empty(), index)
    } else {
        let sub = if depth >= 1 && random_number_spec(data, index, 10) % 2 == 0 {
            nested_array_model(data, index + 1, (depth - 1) as nat)
        } else {
            extract_value_model(data, index + 1)
        };
        let rest = array_items_model(data, sub.1, depth, (cnt - 1) as nat);
        (seq![sub.0] + rest.0, rest.1)
    }
}

/// Decode a nested object of up to `depth` levels from the byte stream,
/// advancing the cursor as `nested_object_model` says. The cursor must have
/// room to advance that far.
pub fn fuzz_deeply_nested_object(data: &[u8], index: &mut usize, depth: usize) -> (r: Value)
    requires
        nested_object_model(data@, *old(index) as nat, depth as nat).1 <= usize::MAX,
    ensures
        r@ == nested_object_model(data@, *old(index) as nat, depth as nat).0,
        *final(index) == nested_object_model(data@, *old(index) as nat, depth as nat).1,
    decreases depth,
{
    if depth == 0 || *index >= data.len() {
        return Value::Null;
    }
    let ghost i0 = *index as nat;
    let ghost cnt0 = random_number_spec(data@, i0, 5);
    let ghost full = object_items_model(data@, i0 + 1, depth as nat, cnt0);
    proof {
        lemma_object_items_monotone(data@, i0 + 1, depth as nat, cnt0);
        lemma_object_items_len(data@, i0 + 1, depth as nat, cnt0);
    }
    let cnt = generate_random_number(data, index, 5);
    let mut entries: Vec<(String, Value)> = Vec::new();
    let mut k: usize = 0;
    while k < cnt
        invariant
            depth >= 1,
            k <= cnt,
            cnt == cnt0,
            full == object_items_model(data@, i0 + 1, depth as nat, cnt0),
            full.1 <= usize::MAX,
            full.0.len() == cnt0,
            object_items_model(data@, *index as nat, depth as nat, (cnt - k) as nat) == (
                full.0.skip(k as int),
                full.1,
            ),
            model_entries(entries@) =~= full.0.take(k as int),
            entries@.len() == k,
        decreases cnt - k,
    {
        let ghost ic = *index as nat;
        let ghost rem = (cnt - k) as nat;
        let ghost sub = if depth as nat >= 1 && random_number_spec(data@, ic, 10) % 2 == 0 {
            nested_object_model(data@, ic + 1, (depth - 1) as nat)
        } else {
            extract_value_model(data@, ic + 1)
        };
        proof {
            if depth as nat >= 1 && random_number_spec(data@, ic, 10) % 2 == 0 {
                lemma_nested_object_monotone(data@, ic + 1, (depth - 1) as nat);
            } else {
                lemma_extract_value_monotone(data@, ic + 1);
            }
            lemma_object_items_monotone(data@, sub.1, depth as nat, (rem - 1) as nat);
            assert(ic + 1 <= sub.1 <= full.1);
        }
        let key = counted_text("key_", *index);
        let draw = generate_random_number(data, index, 10);
        let val = if draw % 2 == 0 {
            fuzz_deeply_nested_object(data, index, depth - 1)
        } else {
            extract_value(data, index)
        };
        proof {
            assert(val@ == sub.0 && *index as nat == sub.1);
            crate::value::lemma_model_entries_push(entries@, (key, val));
        }
        entries.push((key, val));
        k += 1;
        proof {
            let pre = full.0.skip(k - 1);
            let rest = object_items_model(data@, sub.1, depth as nat, (rem - 1) as nat);
            assert(object_items_model(data@, ic, depth as nat, rem) == (
                seq![(("key_"@ + dec_rep(ic)), sub.0)] + rest.0,
                rest.1,
            ));
            assert(pre == seq![(("key_"@ + dec_rep(ic)), sub.0)] + rest.0);
            assert(rest.0 =~= pre.drop_first());
            assert(pre.drop_first() =~= full.0.skip(k as int));
            assert(pre[0] == full.0[k - 1]);
            assert(full.0.take(k as int) =~= full.0.take(k - 1).push(full.0[k - 1]));
            assert(model_entries(entries@) =~= full.0.take(k as int));
        }
    }
    let r = Value::Object(entries);
    proof {
        assert(object_items_model(data@, *index as nat, depth as nat, 0) == (
            Seq::<(Seq<char>, ValueModel)>::empty(),
            *index as nat,
        ));
        assert(full.0.skip(cnt as int) =~= Seq::<(Seq<char>, ValueModel)>::empty());
        assert(full.0.len() == cnt);
        assert(full.0.take(cnt as int) =~= full.0);
    }
    r
}

/// Decode a nested array of up to `depth` levels from the byte stream,
/// advancing the cursor as `nested_array_model` says. The cursor must have
/// room to advance that far.
pub fn fuzz_deeply_nested_array(data: &[u8], index: &mut usize, depth: usize) -> (r: Value)
    requires
        nested_array_model(data@, *old(index) as nat, depth as nat).1 <= usize::MAX,
    ensures
        r@ == nested_array_model(data@, *old(index) as nat, depth as nat).0,
        *final(index) == nested_array_model(data@, *old(index) as nat, depth as nat).1,
    decreases depth,
{
    if depth == 0 || *index >= data.len() {
        let items: Vec<Value> = Vec::new();
        return Value::Array(items);
    }
    let ghost i0 = *index as nat;
    let ghost cnt0 = random_number_spec(data@, i0, 5);
    let ghost full = array_items_model(data@, i0 + 1, depth as nat, cnt0);
    proof {
        lemma_array_items_monotone(data@, i0 + 1, depth as nat, cnt0);
        lemma_array_items_len(data@, i0 + 1, depth as nat, cnt0);
    }
    let cnt = generate_random_number(data, index, 5);
    let mut items: Vec<Value> = Vec::new();
    let mut k: usize = 0;
    while k < cnt
        invariant
            depth >= 1,
            k <= cnt,
            cnt == cnt0,
            full == array_items_model(data@, i0 + 1, depth as nat, cnt0),
            full.1 <= usize::MAX,
            full.0.len() == cnt0,
            array_items_model(data@, *index as nat, depth as nat, (cnt - k) as nat) == (
                full.0.skip(k as int),
                full.1,
            ),
            model_seq(items@) =~= full.0.take(k as int),
            items@.len() == k,
        decreases cnt - k,
    {
        let ghost ic = *index as nat;
        let ghost rem = (cnt - k) as nat;
        let ghost sub = if depth as nat >= 1 && random_number_spec(data@, ic, 10) % 2 == 0 {
            nested_array_model(data@, ic + 1, (depth - 1) as nat)
        } else {
            extract_value_model(data@, ic + 1)
        };
        proof {
            if depth as nat >= 1 && random_number_spec(data@, ic, 10) % 2 == 0 {
                lemma_nested_array_monotone(data@, ic + 1, (depth - 1) as nat);
            } else {
                lemma_extract_value_monotone(data@, ic + 1);
            }
            lemma_array_items_monotone(data@, sub.1, depth as nat, (rem - 1) as nat);
            assert(ic + 1 <= sub.1 <= full.1);
        }
        let draw = generate_random_number(data, index, 10);
        let val = if draw % 2 == 0 {
            fuzz_deeply_nested_array(data, index, depth - 1)
        } else {
            extract_value(data, index)
        };
        proof {
            assert(val@ == sub.0 && *index as nat == sub.1);
            crate::value::lemma_model_seq_push(items@, val);
        }
        items.push(val);
        k += 1;
        proof {
            let pre = full.0.skip(k - 1);
            let rest = array_items_model(data@, sub.1, depth as nat, (rem - 1) as nat);
            assert(array_items_model(data@, ic, depth as nat, rem) == (
                seq![sub.0] + rest.0,
                rest.1,
            ));
            assert(pre == seq![sub.0] + rest.0);
            assert(rest.0 =~= pre.drop_first());
            assert(pre.drop_first() =~= full.0.skip(k as int));
            assert(pre[0] == full.0[k - 1]);
            assert(full.0.take(k as int) =~= full.0.take(k - 1).push(full.0[k - 1]));
            assert(model_seq(items@) =~= full.0.take(k as int));
        }
    }
    let r = Value::Array(items);
    proof {
        assert(array_items_model(data@, *index as nat, depth as nat, 0) == (
            Seq::<ValueModel>::empty(),
            *index as nat,
        ));
        assert(full.0.skip(cnt as int) =~= Seq::<ValueModel>::empty());
        assert(full.0.len() == cnt);
        assert(full.0.take(cnt as int) =~= full.0);
    }
    r
}

/// A run of `cnt` nested-object entries has exactly `cnt` entries.
pub proof fn lemma_object_items_len(data: Seq<u8>, index: nat, depth: nat, cnt: nat)
    ensures
        object_items_model(data, index, depth, cnt).0.len() == cnt,
    decreases cnt,
{
    if cnt > 0 {
        let sub = if depth >= 1 && random_number_spec(data, index, 10) % 2 == 0 {
            nested_object_model(data, index + 1, (depth - 1) as nat)
        } else {
            extract_value_model(data, index + 1)
        };
        lemma_object_items_len(data, sub.1, depth, (cnt - 1) as nat);
    }
}

/// A run of `cnt` nested-array elements has exactly `cnt` elements.
pub proof fn lemma_array_items_len(data: Seq<u8>, index: nat, depth: nat, cnt: nat)
    ensures
        array_items_model(data, index, depth, cnt).0.len() == cnt,
    decreases cnt,
{
    if cnt > 0 {
        let sub = if depth >= 1 && random_number_spec(data, index, 10) % 2 == 0 {
            nested_array_model(data, index + 1, (depth - 1) as nat)
        } else {
            extract_value_model(data, index + 1)
        };
        lemma_array_items_len(data, sub.1, depth, (cnt - 1) as nat);
    }
}

/// Decoding a plain value never moves the cursor back, and by at most one.
pub proof fn lemma_extract_value_monotone(data: Seq<u8>, index: nat)
    ensures
        index <= extract_value_model(data, index).1 <= index + 1,
{
}

/// Decoding a nested object never moves the cursor back.
pub proof fn lemma_nested_object_monotone(data: Seq<u8>, index: nat, depth: nat)
    ensures
        index <= nested_object_model(data, index, depth).1,
    decreases depth, 1nat, 0nat,
{
    if !(depth == 0 || index >= data.len()) {
        lemma_object_items_monotone(data, index + 1, depth, random_number_spec(data, index, 5));
    }
}

/// Decoding a run of nested-object entries never moves the cursor back.
pub proof fn lemma_object_items_monotone(data: Seq<u8>, index: nat, depth: nat, cnt: nat)
    ensures
        index <= object_items_model(data, index, depth, cnt).1,
    decreases depth, 0nat, cnt,
{
    if cnt > 0 {
        let sub = if depth >= 1 && random_number_spec(data, index, 10) % 2 == 0 {
            nested_object_model(data, index + 1, (depth - 1) as nat)
        } else {
            extract_value_model(data, index + 1)
        };
        if depth >= 1 && random_number_spec(data, index, 10) % 2 == 0 {
            lemma_nested_object_monotone(data, index + 1, (depth - 1) as nat);
        } else {
            lemma_extract_value_monotone(data, index + 1);
        }
        lemma_object_items_monotone(data, sub.1, depth, (cnt - 1) as nat);
    }
}

/// Decoding a nested array never moves the cursor back.
pub proof fn lemma_nested_array_monotone(data: Seq<u8>, index: nat, depth: nat)
    ensures
        index <= nested_array_model(data, index, depth).1,
    decreases depth, 1nat, 0nat,
{
    if !(depth == 0 || index >= data.len()) {
        lemma_array_items_monotone(data, index + 1, depth, random_number_spec(data, index, 5));
    }
}

/// Decoding a run of nested-array elements never moves the cursor back.
pub proof fn lemma_array_items_monotone(data: Seq<u8>, index: nat, depth: nat, cnt: nat)
    ensures
        index <= array_items_model(data, index, depth, cnt).1,
    decreases depth, 0nat, cnt,
{
    if cnt > 0 {
        let sub = if depth >= 1 && random_number_spec(data, index, 10) % 2 == 0 {
            nested_array_model(data, index + 1, (depth - 1) as nat)
        } else {
            extract_value_model(data, index + 1)
        };
        if depth >= 1 && random_number_spec(data, index, 10) % 2 == 0 {
            lemma_nested_array_monotone(data, index + 1, (depth - 1) as nat);
        } else {
            lemma_extract_value_monotone(data, index + 1);
        }
        lemma_array_items_monotone(data, sub.1, depth, (cnt - 1) as nat);
    }
}

} // verus!
