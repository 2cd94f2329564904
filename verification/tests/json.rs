use easyeda2altium::json::{get, numeric_source, safe_bool, safe_string, JsonNumber, JsonValue, NumericSource};
use easyeda2altium::Error;

fn num(text: &str, as_i64: Option<i64>) -> JsonValue {
    JsonValue::Number(JsonNumber { text: text.to_string(), as_i64 })
}

#[test]
fn member_lookup() {
    let v = JsonValue::Object(vec![
        ("a".to_string(), num("1", Some(1))),
        ("b".to_string(), JsonValue::Bool(true)),
    ]);
    assert_eq!(get(&v, "b"), Some(&JsonValue::Bool(true)));
    assert_eq!(get(&v, "c"), None);
    assert_eq!(get(&JsonValue::Array(vec![]), "a"), None);
}

#[test]
fn string_forms() {
    assert_eq!(safe_string(&num("2.5", None)), "2.5");
    assert_eq!(safe_string(&JsonValue::Bool(false)), "false");
    assert_eq!(safe_string(&JsonValue::Bool(true)), "true");
    assert_eq!(safe_string(&JsonValue::Null), "");
    assert_eq!(safe_string(&JsonValue::Array(vec![])), "");
}

#[test]
fn truth_values() {
    assert!(safe_bool(&num("2", Some(2))));
    assert!(!safe_bool(&num("0", Some(0))));
    assert!(!safe_bool(&num("1.5", None)));
    assert!(safe_bool(&JsonValue::Bool(true)));
    assert!(safe_bool(&JsonValue::String("SHOW".to_string())));
    assert!(!safe_bool(&JsonValue::String(" yes".to_string())));
    assert!(!safe_bool(&JsonValue::Null));
}

#[test]
fn numeric_sources() {
    assert_eq!(numeric_source(Some(&num("3.5", None))), NumericSource::Number("3.5".to_string()));
    assert_eq!(numeric_source(Some(&JsonValue::String(" 7 ".to_string()))), NumericSource::Text(" 7 ".to_string()));
    assert_eq!(numeric_source(Some(&JsonValue::Bool(true))), NumericSource::Bool(true));
    assert_eq!(numeric_source(Some(&JsonValue::Null)), NumericSource::Absent);
    assert_eq!(numeric_source(None), NumericSource::Absent);
}

#[test]
fn error_texts() {
    assert_eq!(Error::Parse("missing dataStr".to_string()).message(), "EasyEDA shape parse: missing dataStr");
    assert_eq!(Error::Convert("x".to_string()).message(), "conversion: x");
    assert_eq!(Error::Api("y".to_string()).message(), "EasyEDA API: y");
    assert_eq!(Error::InvalidArg("z".to_string()).message(), "invalid argument: z");
    assert_eq!(Error::AlreadyExists("p".to_string()).message(), "output file already exists: p (use --overwrite)");
}
