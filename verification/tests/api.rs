use easyeda2altium::api::{cache_file_name, cad_data_url, extract_result, obj_url, step_url};
use easyeda2altium::json::{JsonNumber, JsonValue};
use easyeda2altium::Error;

fn obj(members: Vec<(&str, JsonValue)>) -> JsonValue {
    JsonValue::Object(members.into_iter().map(|(k, v)| (k.to_string(), v)).collect())
}

#[test]
fn urls() {
    assert_eq!(cad_data_url("C2040"), "https://easyeda.com/api/products/C2040/components");
    assert_eq!(step_url("abc"), "https://modules.easyeda.com/qAxj6KHrDKw4blvCG8QJPs7Y/abc");
    assert_eq!(obj_url("abc"), "https://modules.easyeda.com/3dmodel/abc");
}

#[test]
fn cache_names() {
    assert_eq!(cache_file_name("C2040", "json"), "C2040.json");
    assert_eq!(cache_file_name("a/b\\c", "step"), "a_b_c.step");
    assert_eq!(cache_file_name("", "obj"), ".obj");
}

#[test]
fn api_envelope() {
    let ok = obj(vec![("success", JsonValue::Bool(true)), ("result", JsonValue::String("r".into()))]);
    assert_eq!(extract_result(ok, "").unwrap(), JsonValue::String("r".into()));
    let no_flag = obj(vec![("result", JsonValue::Null)]);
    assert_eq!(extract_result(no_flag, "").unwrap(), JsonValue::Null);
    let refused = obj(vec![
        ("success", JsonValue::Bool(false)),
        ("message", JsonValue::String("nope".into())),
        ("result", JsonValue::Null),
    ]);
    assert_eq!(
        extract_result(refused, "\"nope\"").unwrap_err(),
        Error::Api("API returned success=false: \"nope\"".to_string())
    );
    assert_eq!(
        extract_result(obj(vec![("success", JsonValue::Bool(true))]), "").unwrap_err(),
        Error::Api("missing 'result' in API response".to_string())
    );
    // Without a `message` member the refusal quotes nothing.
    let bare = obj(vec![("success", JsonValue::Bool(false))]);
    assert_eq!(
        extract_result(bare, "null").unwrap_err(),
        Error::Api("API returned success=false: ".to_string())
    );
    let not_object = JsonValue::Number(JsonNumber { text: "1".into(), as_i64: Some(1) });
    assert_eq!(
        extract_result(not_object, "").unwrap_err().message(),
        "EasyEDA API: missing 'result' in API response"
    );
}
