use easyeda2altium::convert::normalize_pad_number;
use easyeda2altium::json::{safe_bool, JsonValue};
use easyeda2altium::meta::sanitize_component_name;

fn s(v: &str) -> JsonValue {
    JsonValue::String(v.to_string())
}

#[test]
fn pad_number_normalize() {
    assert_eq!(normalize_pad_number("A(1)"), "1");
    assert_eq!(normalize_pad_number("3"), "3");
    assert_eq!(normalize_pad_number("VCC"), "VCC");
}

#[test]
fn sanitize_strips_packaging_suffix() {
    assert_eq!(sanitize_component_name("ATmega328P (TQFP)"), "ATmega328P");
    assert_eq!(sanitize_component_name("BC547[CutTape]"), "BC547");
    assert_eq!(sanitize_component_name("LM358"), "LM358");
}

#[test]
fn safe_bool_strings() {
    assert!(safe_bool(&s("true")));
    assert!(safe_bool(&s("Y")));
    assert!(!safe_bool(&s("false")));
    assert!(!safe_bool(&s("")));
}

#[test]
fn pad_number_normalization_is_idempotent() {
    for n in ["A(1)", "(a(b))", "x)y(z", "((x))", "3", "B(12)C"] {
        let once = normalize_pad_number(n);
        assert_eq!(normalize_pad_number(&once), once);
    }
    assert_eq!(normalize_pad_number("x)y(z"), "x)y(z");
    assert_eq!(normalize_pad_number("(a(b))"), "a(b");
}

#[test]
fn sanitized_names_are_bracket_free_and_stable() {
    for n in ["ATmega328P (TQFP)", "  BC547 [Cut]", "(x)", "LM358 ", "a[b(c"] {
        let once = sanitize_component_name(n);
        assert!(!once.contains('(') && !once.contains('['));
        assert_eq!(sanitize_component_name(&once), once);
    }
    assert_eq!(sanitize_component_name("a[b(c"), "a");
}
