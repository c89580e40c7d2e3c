use json_dsl::generate_fuzz_objects;
use json_dsl::Category;
use json_dsl::Fuzz;
use json_dsl::FuzzSerializer;
use json_dsl::Serializer;
use json_dsl::Value;

fn text(s: &str) -> Value {
    Value::Text(s.to_string())
}

#[test]
fn serialize_with_root_wraps_object() {
    let fuzz = Fuzz { name: "FuzzOne".to_string(), category: Category::Alpha };
    let s = FuzzSerializer { fuzz: &fuzz };
    let r = s.serialize(true);
    let inner = Value::Object(vec![
        ("name".to_string(), text("FuzzOne")),
        ("category".to_string(), text("Alpha")),
    ]);
    let expected = Value::Object(vec![("fuzz_object".to_string(), inner)]);
    assert_eq!(r, Ok(expected));
}

#[test]
fn serialize_without_root_is_bare() {
    let fuzz = Fuzz { name: "FuzzTwo".to_string(), category: Category::Beta };
    let s = FuzzSerializer { fuzz: &fuzz };
    let r = s.serialize(false);
    let expected = Value::Object(vec![
        ("name".to_string(), text("FuzzTwo")),
        ("category".to_string(), text("Beta")),
    ]);
    assert_eq!(r, Ok(expected));
}

#[test]
fn root_key_is_fixed() {
    let fuzz = Fuzz { name: "n".to_string(), category: Category::Gamma };
    let s = FuzzSerializer { fuzz: &fuzz };
    assert_eq!(s.root(), Some("fuzz_object"));
}

#[test]
fn sample_records_are_eight_in_order() {
    let list = generate_fuzz_objects();
    assert_eq!(list.len(), 8);
    assert_eq!(list[0].name, "FuzzOne");
    assert!(matches!(list[0].category, Category::Alpha));
    assert_eq!(list[3].name, "FuzzFour");
    assert!(matches!(list[3].category, Category::Delta));
    assert_eq!(list[7].name, "FuzzEight");
    assert!(matches!(list[7].category, Category::Delta));
}

#[test]
fn category_names() {
    assert_eq!(Category::Alpha.name(), "Alpha");
    assert_eq!(Category::Beta.name(), "Beta");
    assert_eq!(Category::Gamma.name(), "Gamma");
    assert_eq!(Category::Delta.name(), "Delta");
}

#[test]
fn batch_of_serialized_records() {
    let list = generate_fuzz_objects();
    let r = json_dsl::array(|a: json_dsl::ArrayBuilder| {
        let mut a = a;
        a.objects(&list, |fuzz: &Fuzz, j: json_dsl::ObjectBuilder| {
            let mut j = j;
            j.set("fuzz_key".to_string(), fuzz.name.clone());
            j.set("fuzz_category".to_string(), fuzz.category.name().to_string());
            j
        });
        a
    });
    let v = r.expect("batch construction succeeds");
    match v {
        Value::Array(items) => {
            assert_eq!(items.len(), 8);
            let first = Value::Object(vec![
                ("fuzz_key".to_string(), text("FuzzOne")),
                ("fuzz_category".to_string(), text("Alpha")),
            ]);
            assert_eq!(items[0], first);
        },
        other => panic!("expected an array, got {:?}", other),
    }
}
