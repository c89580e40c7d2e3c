use json_dsl::decode::fuzz_deeply_nested_array;
use json_dsl::decode::fuzz_deeply_nested_object;
use json_dsl::extract_value;
use json_dsl::generate_random_number;
use json_dsl::Value;

fn text(s: &str) -> Value {
    Value::Text(s.to_string())
}

#[test]
fn random_number_reads_next_byte() {
    let data = [9u8, 13, 7];
    let mut index = 0usize;
    let r = generate_random_number(&data, &mut index, 5);
    assert_eq!(index, 1);
    assert_eq!(r, 13 % 5);
}

#[test]
fn random_number_past_end_is_zero() {
    let data = [9u8];
    let mut index = 0usize;
    let r = generate_random_number(&data, &mut index, 5);
    assert_eq!(index, 1);
    assert_eq!(r, 0);
}

#[test]
fn extract_value_past_end_is_null() {
    let data = [1u8];
    let mut index = 5usize;
    assert_eq!(extract_value(&data, &mut index), Value::Null);
    assert_eq!(index, 5);
}

#[test]
fn extract_value_null_choice() {
    let data = [0u8, 0];
    let mut index = 0usize;
    assert_eq!(extract_value(&data, &mut index), Value::Null);
    assert_eq!(index, 1);
}

#[test]
fn extract_value_bool_choice() {
    let data = [1u8, 7];
    let mut index = 0usize;
    assert_eq!(extract_value(&data, &mut index), Value::Bool(false));
    assert_eq!(index, 1);
}

#[test]
fn extract_value_number_choice() {
    let data = [2u8, 42];
    let mut index = 0usize;
    assert_eq!(extract_value(&data, &mut index), Value::Number(42));
    assert_eq!(index, 1);
}

#[test]
fn extract_value_string_choice() {
    let data = [3u8, 0];
    let mut index = 0usize;
    assert_eq!(extract_value(&data, &mut index), text("string_1"));
    assert_eq!(index, 1);
}

#[test]
fn extract_value_singleton_array_choice() {
    let data = [4u8, 0];
    let mut index = 0usize;
    assert_eq!(
        extract_value(&data, &mut index),
        Value::Array(vec![text("array_value_1")])
    );
    assert_eq!(index, 1);
}

#[test]
fn extract_value_empty_object_and_array_choices() {
    let data = [5u8, 0];
    let mut index = 0usize;
    assert_eq!(extract_value(&data, &mut index), Value::Object(Vec::new()));

    let data2 = [6u8, 0];
    let mut index2 = 0usize;
    assert_eq!(extract_value(&data2, &mut index2), Value::Array(Vec::new()));
}

#[test]
fn nested_object_base_cases() {
    let data = [0u8, 1, 9, 3];
    let mut index = 0usize;
    assert_eq!(fuzz_deeply_nested_object(&data, &mut index, 0), Value::Null);
    assert_eq!(index, 0);
    let mut past = 10usize;
    assert_eq!(fuzz_deeply_nested_object(&data, &mut past, 5), Value::Null);
    assert_eq!(past, 10);
}

#[test]
fn nested_object_one_entry() {
    let data = [0u8, 1, 9, 3];
    let mut index = 0usize;
    let r = fuzz_deeply_nested_object(&data, &mut index, 5);
    let expected = Value::Object(vec![("key_1".to_string(), Value::Number(3))]);
    assert_eq!(r, expected);
    assert_eq!(index, 3);
}

#[test]
fn nested_array_base_cases() {
    let data = [0u8, 1, 9, 3];
    let mut index = 0usize;
    assert_eq!(
        fuzz_deeply_nested_array(&data, &mut index, 0),
        Value::Array(Vec::new())
    );
    assert_eq!(index, 0);
}

#[test]
fn nested_array_one_element() {
    let data = [0u8, 1, 9, 3];
    let mut index = 0usize;
    let r = fuzz_deeply_nested_array(&data, &mut index, 5);
    assert_eq!(r, Value::Array(vec![Value::Number(3)]));
    assert_eq!(index, 3);
}
