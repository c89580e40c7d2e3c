use json_dsl::array;
use json_dsl::object;
use json_dsl::ArrayBuilder;
use json_dsl::BuildError;
use json_dsl::ObjectBuilder;
use json_dsl::TryToValue;
use json_dsl::Value;

fn text(s: &str) -> Value {
    Value::Text(s.to_string())
}

#[test]
fn object_two_fields() {
    let r = object(|j: ObjectBuilder| {
        let mut j = j;
        j.set("a".to_string(), 1i64);
        j.set("b".to_string(), "x".to_string());
        j
    });
    let expected = Value::Object(vec![
        ("a".to_string(), Value::Number(1)),
        ("b".to_string(), text("x")),
    ]);
    assert_eq!(r, Ok(expected));
}

#[test]
fn object_duplicate_key_keeps_last_value() {
    let r = object(|j: ObjectBuilder| {
        let mut j = j;
        j.set("k".to_string(), "v1".to_string());
        j.set("k".to_string(), "v2".to_string());
        j
    });
    let expected = Value::Object(vec![("k".to_string(), text("v2"))]);
    assert_eq!(r, Ok(expected));
}

#[test]
fn array_preserves_push_order() {
    let r = array(|a: ArrayBuilder| {
        let mut a = a;
        a.push(1i64);
        a.push(2i64);
        a.push(3i64);
        a
    });
    let expected = Value::Array(vec![
        Value::Number(1),
        Value::Number(2),
        Value::Number(3),
    ]);
    assert_eq!(r, Ok(expected));
}

#[test]
fn array_push_json_and_mixed_values() {
    let r = array(|a: ArrayBuilder| {
        let mut a = a;
        a.push(true);
        a.push_json(Value::Null);
        a.push("s".to_string());
        a
    });
    let expected = Value::Array(vec![Value::Bool(true), Value::Null, text("s")]);
    assert_eq!(r, Ok(expected));
}

struct Item {
    name: String,
}

#[test]
fn array_objects_maps_each_item() {
    let items = vec![Item { name: "x".to_string() }];
    let r = array(|a: ArrayBuilder| {
        let mut a = a;
        a.objects(&items, |it: &Item, j: ObjectBuilder| {
            let mut j = j;
            j.set("name".to_string(), it.name.clone());
            j
        });
        a
    });
    let expected = Value::Array(vec![Value::Object(vec![("name".to_string(), text("x"))])]);
    assert_eq!(r, Ok(expected));
}

#[test]
fn array_objects_empty_source_gives_empty_array() {
    let items: Vec<Item> = Vec::new();
    let r = array(|a: ArrayBuilder| {
        let mut a = a;
        a.objects(&items, |it: &Item, j: ObjectBuilder| {
            let mut j = j;
            j.set("name".to_string(), it.name.clone());
            j
        });
        a
    });
    assert_eq!(r, Ok(Value::Array(Vec::new())));
}

#[test]
fn nested_object_scope() {
    let r = object(|j: ObjectBuilder| {
        let mut j = j;
        j.object("nested".to_string(), |j2: ObjectBuilder| {
            let mut j2 = j2;
            j2.set("inner".to_string(), true);
            j2
        });
        j
    });
    let expected = Value::Object(vec![(
        "nested".to_string(),
        Value::Object(vec![("inner".to_string(), Value::Bool(true))]),
    )]);
    assert_eq!(r, Ok(expected));
}

#[test]
fn nested_array_scope_under_object() {
    let r = object(|j: ObjectBuilder| {
        let mut j = j;
        j.array("xs".to_string(), |a: ArrayBuilder| {
            let mut a = a;
            a.push(7i64);
            a
        });
        j
    });
    let expected = Value::Object(vec![(
        "xs".to_string(),
        Value::Array(vec![Value::Number(7)]),
    )]);
    assert_eq!(r, Ok(expected));
}

#[test]
fn nested_scopes_inside_array() {
    let r = array(|a: ArrayBuilder| {
        let mut a = a;
        a.array(|inner: ArrayBuilder| {
            let mut inner = inner;
            inner.push(1i64);
            inner
        });
        a.object(|o: ObjectBuilder| {
            let mut o = o;
            o.set("z".to_string(), 2i64);
            o
        });
        a
    });
    let expected = Value::Array(vec![
        Value::Array(vec![Value::Number(1)]),
        Value::Object(vec![("z".to_string(), Value::Number(2))]),
    ]);
    assert_eq!(r, Ok(expected));
}

#[test]
fn empty_scopes_finalize_to_empty_values() {
    assert_eq!(object(|j: ObjectBuilder| j), Ok(Value::Object(Vec::new())));
    assert_eq!(array(|a: ArrayBuilder| a), Ok(Value::Array(Vec::new())));
}

#[test]
fn u64_conversion_succeeds_in_range() {
    assert_eq!((5u64).try_to_value(), Ok(Value::Number(5)));
    let r = object(|j: ObjectBuilder| {
        let mut j = j;
        j.try_set("n".to_string(), 5u64);
        j
    });
    let expected = Value::Object(vec![("n".to_string(), Value::Number(5))]);
    assert_eq!(r, Ok(expected));
}

#[test]
fn failed_conversion_yields_error_and_no_value() {
    assert_eq!(
        u64::MAX.try_to_value(),
        Err(BuildError::UnrepresentableNumber)
    );
    let r = object(|j: ObjectBuilder| {
        let mut j = j;
        j.set("ok".to_string(), 1i64);
        j.try_set("bad".to_string(), u64::MAX);
        j
    });
    assert_eq!(r, Err(BuildError::UnrepresentableNumber));
}

#[test]
fn failed_conversion_in_nested_scope_propagates() {
    let r = object(|j: ObjectBuilder| {
        let mut j = j;
        j.object("inner".to_string(), |j2: ObjectBuilder| {
            let mut j2 = j2;
            j2.try_set("bad".to_string(), u64::MAX);
            j2
        });
        j
    });
    assert_eq!(r, Err(BuildError::UnrepresentableNumber));

    let r2 = array(|a: ArrayBuilder| {
        let mut a = a;
        a.try_push(u64::MAX);
        a
    });
    assert_eq!(r2, Err(BuildError::UnrepresentableNumber));
}

#[test]
fn overwrite_keeps_first_position_of_key() {
    let r = object(|j: ObjectBuilder| {
        let mut j = j;
        j.set("k".to_string(), "v1".to_string());
        j.set("a".to_string(), 1i64);
        j.set("k".to_string(), "v2".to_string());
        j
    });
    let expected = Value::Object(vec![
        ("k".to_string(), text("v2")),
        ("a".to_string(), Value::Number(1)),
    ]);
    assert_eq!(r, Ok(expected));
}

#[test]
fn deep_nesting_chain() {
    let mut expected = Value::Null;
    for _ in 0..40 {
        expected = Value::Object(vec![("nested".to_string(), expected)]);
    }
    assert_eq!(json_dsl::build_nested(40), expected);
}

#[test]
fn build_error_message_is_descriptive() {
    assert_eq!(
        BuildError::UnrepresentableNumber.message(),
        "a value could not be represented as a JSON value"
    );
}

#[test]
fn build_nested_chain() {
    assert_eq!(json_dsl::build_nested(0), Value::Null);
    let expected = Value::Object(vec![(
        "nested".to_string(),
        Value::Object(vec![("nested".to_string(), Value::Null)]),
    )]);
    assert_eq!(json_dsl::build_nested(2), expected);
}
