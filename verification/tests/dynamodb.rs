use serde_json::Value;
use vapor::dynamodb::{
    attribute_value_to_json, is_encodable, parse_i64, table_not_found, AttributeValue, JsonValue,
};
use vapor::error::VaporError;

/// Renders a library JSON value as a `serde_json::Value`, number text as a
/// floating-point number when it reads as a finite `f64` (the rendering
/// the clients apply; it holds floats, so it is not part of the library).
fn to_serde(j: JsonValue) -> Value {
    match j {
        JsonValue::Null => Value::Null,
        JsonValue::Bool(b) => Value::Bool(b),
        JsonValue::Int(i) => Value::Number(i.into()),
        JsonValue::NumberText(t) => match t.parse::<f64>() {
            Ok(f) => match serde_json::Number::from_f64(f) {
                Some(n) => Value::Number(n),
                None => Value::String(t),
            },
            Err(_) => Value::String(t),
        },
        JsonValue::String(s) => Value::String(s),
        JsonValue::Array(items) => Value::Array(items.into_iter().map(to_serde).collect()),
        JsonValue::Object(fields) => {
            let mut map = serde_json::Map::new();
            for (k, v) in fields {
                map.insert(k, to_serde(v));
            }
            Value::Object(map)
        }
    }
}

fn convert(av: &AttributeValue) -> Value {
    to_serde(attribute_value_to_json(av))
}

fn strings(items: &[&str]) -> Value {
    Value::Array(items.iter().map(|s| Value::String(s.to_string())).collect())
}

#[test]
fn attribute_value_to_json_converts_string() {
    assert_eq!(
        convert(&AttributeValue::S("hello".to_string())),
        Value::String("hello".to_string())
    );
}

#[test]
fn attribute_value_to_json_converts_integer_number() {
    assert_eq!(convert(&AttributeValue::N("42".to_string())), Value::from(42));
}

#[test]
fn attribute_value_to_json_converts_float_number() {
    assert!(matches!(
        attribute_value_to_json(&AttributeValue::N("3.5".to_string())),
        JsonValue::NumberText(ref t) if t == "3.5"
    ));
    assert_eq!(convert(&AttributeValue::N("3.5".to_string())), Value::from(3.5));
}

#[test]
fn attribute_value_to_json_falls_back_to_string_for_unparseable_number() {
    assert!(matches!(
        attribute_value_to_json(&AttributeValue::N("not-a-number".to_string())),
        JsonValue::NumberText(ref t) if t == "not-a-number"
    ));
    assert_eq!(
        convert(&AttributeValue::N("not-a-number".to_string())),
        Value::String("not-a-number".to_string())
    );
}

#[test]
fn attribute_value_to_json_converts_bool_and_null() {
    assert_eq!(convert(&AttributeValue::Bool(true)), Value::Bool(true));
    assert_eq!(convert(&AttributeValue::Null(true)), Value::Null);
}

#[test]
fn attribute_value_to_json_base64_encodes_binary() {
    let av = AttributeValue::B(b"hi".to_vec());
    assert_eq!(convert(&av), Value::String("aGk=".to_string()));
}

#[test]
fn attribute_value_to_json_converts_string_and_number_sets() {
    let ss = AttributeValue::Ss(vec!["a".to_string(), "b".to_string()]);
    assert_eq!(convert(&ss), strings(&["a", "b"]));

    let ns = AttributeValue::Ns(vec!["1".to_string(), "2".to_string()]);
    assert_eq!(convert(&ns), strings(&["1", "2"]));
}

#[test]
fn attribute_value_to_json_base64_encodes_binary_set() {
    let bs = AttributeValue::Bs(vec![b"hi".to_vec()]);
    assert_eq!(convert(&bs), strings(&["aGk="]));
}

#[test]
fn attribute_value_to_json_converts_list_recursively() {
    let list = AttributeValue::L(vec![
        AttributeValue::S("a".to_string()),
        AttributeValue::N("1".to_string()),
    ]);
    assert_eq!(
        convert(&list),
        Value::Array(vec![Value::String("a".to_string()), Value::from(1)])
    );
}

#[test]
fn attribute_value_to_json_converts_map_recursively() {
    let av = AttributeValue::M(vec![("k".to_string(), AttributeValue::S("v".to_string()))]);
    let mut expected = serde_json::Map::new();
    expected.insert("k".to_string(), Value::String("v".to_string()));
    assert_eq!(convert(&av), Value::Object(expected));
}

#[test]
fn integer_text_becomes_int_and_other_text_stays_text() {
    match attribute_value_to_json(&AttributeValue::N("-9223372036854775808".to_string())) {
        JsonValue::Int(i) => assert_eq!(i, i64::MIN),
        other => panic!("expected an integer, got {other:?}"),
    }
    match attribute_value_to_json(&AttributeValue::N("9223372036854775808".to_string())) {
        JsonValue::NumberText(t) => assert_eq!(t, "9223372036854775808"),
        other => panic!("expected number text, got {other:?}"),
    }
    match attribute_value_to_json(&AttributeValue::N("1e3".to_string())) {
        JsonValue::NumberText(t) => assert_eq!(t, "1e3"),
        other => panic!("expected number text, got {other:?}"),
    }
}

#[test]
fn unknown_variant_becomes_null() {
    assert_eq!(convert(&AttributeValue::Unknown), Value::Null);
}

#[test]
fn nested_map_keeps_keys_and_converts_values() {
    let av = AttributeValue::M(vec![
        ("n".to_string(), AttributeValue::N("7".to_string())),
        (
            "l".to_string(),
            AttributeValue::L(vec![AttributeValue::B(b"ab".to_vec()), AttributeValue::Bool(false)]),
        ),
    ]);
    match attribute_value_to_json(&av) {
        JsonValue::Object(fields) => {
            assert_eq!(fields.len(), 2);
            assert_eq!(fields[0].0, "n");
            assert!(matches!(fields[0].1, JsonValue::Int(7)));
            assert_eq!(fields[1].0, "l");
            match &fields[1].1 {
                JsonValue::Array(items) => {
                    assert!(matches!(&items[0], JsonValue::String(s) if s == "YWI="));
                    assert!(matches!(items[1], JsonValue::Bool(false)));
                }
                other => panic!("expected an array, got {other:?}"),
            }
        }
        other => panic!("expected an object, got {other:?}"),
    }
}

#[test]
fn parse_i64_agrees_with_std_parse() {
    let cases = [
        "0", "42", "-42", "+42", "007", "-0", "9223372036854775807", "-9223372036854775808",
        "9223372036854775808", "-9223372036854775809", "", "-", "+", "4 2", " 42", "42 ", "1.0",
        "abc", "--1", "+-1", "99999999999999999999999999999", "١٢",
    ];
    for c in cases {
        assert_eq!(parse_i64(c), c.parse::<i64>().ok(), "input {c:?}");
    }
}

#[test]
fn describe_table_errors_name_the_missing_table() {
    match table_not_found("ghost-table") {
        VaporError::AwsSdk { code, message } => {
            assert_eq!(code, None);
            assert_eq!(message, "Table 'ghost-table' not found");
        }
    }
}

#[test]
fn encodable_values_and_distinct_keys() {
    assert!(is_encodable(&AttributeValue::B(vec![1, 2, 3])));
    assert!(is_encodable(&AttributeValue::M(vec![(
        "k".to_string(),
        AttributeValue::Bs(vec![vec![0u8], vec![]])
    )])));
    match attribute_value_to_json(&AttributeValue::M(vec![
        ("a".to_string(), AttributeValue::Bool(true)),
        ("b".to_string(), AttributeValue::Null(true)),
    ])) {
        JsonValue::Object(fields) => {
            let keys: Vec<&str> = fields.iter().map(|(k, _)| k.as_str()).collect();
            assert_eq!(keys, vec!["a", "b"]);
        }
        other => panic!("expected an object, got {other:?}"),
    }
}
