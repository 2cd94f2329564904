use easyeda2altium::json::{JsonNumber, JsonValue};
use easyeda2altium::meta::{
    builtin_parameters, canvas_origin_fields, datasheet_url, default_unique_id, design_item_id,
    designator_prefix, footprint_is_smd, model_already_attached, model_file_name, pick_str,
    symbol_description, symbol_parameters, tags_to_string, footprint_parameters, svgnode_model,
};
use easyeda2altium::json::NumericSource;
use easyeda2altium::types::EeFootprintInfo;
use easyeda2altium::types::EeSymbolInfo;

fn info(description: &str, manufacturer: &str, mpn: &str) -> EeSymbolInfo {
    EeSymbolInfo {
        name: "RP2040".to_string(),
        lcsc_id: "C2040".to_string(),
        description: description.to_string(),
        manufacturer: manufacturer.to_string(),
        mpn: mpn.to_string(),
        ..Default::default()
    }
}

#[test]
fn descriptions() {
    assert_eq!(symbol_description(&info("MCU", "RPi", "RP2040")).as_deref(), Some("MCU"));
    assert_eq!(symbol_description(&info("", "RPi", "RP2040")).as_deref(), Some("RPi RP2040"));
    assert_eq!(symbol_description(&info("", "", "RP2040")).as_deref(), Some("RP2040"));
    assert_eq!(symbol_description(&info("", "RPi", "")), None);
    assert_eq!(designator_prefix("U?"), "U");
    assert_eq!(designator_prefix("??"), "");
    assert_eq!(design_item_id(&info("", "", "")), "RP2040-C2040");
}

#[test]
fn parameters() {
    let mut i = info("", "RPi", "RP2040");
    i.keywords = "MCU".to_string();
    let p = builtin_parameters(&i);
    assert_eq!(
        p,
        vec![
            ("Manufacturer".to_string(), "RPi".to_string()),
            ("MPN".to_string(), "RP2040".to_string()),
            ("LCSC Part".to_string(), "C2040".to_string()),
            ("Keywords".to_string(), "MCU".to_string()),
        ]
    );
    let all = symbol_parameters(&i, &vec![("Tol".to_string(), "1%".to_string())]);
    assert_eq!(all.len(), 5);
    assert_eq!(all[4], ("Tol".to_string(), "1%".to_string()));
}

#[test]
fn json_helpers() {
    let c_para = JsonValue::Object(vec![
        ("Manufacturer".to_string(), JsonValue::String(String::new())),
        ("BOM_Manufacturer".to_string(), JsonValue::Number(JsonNumber { text: "7".to_string(), as_i64: Some(7) })),
    ]);
    assert_eq!(pick_str(&c_para, &["Manufacturer", "BOM_Manufacturer"]), "7");
    assert_eq!(pick_str(&c_para, &["Other"]), "");
    let tags = JsonValue::Array(vec![JsonValue::String("a".into()), JsonValue::Null, JsonValue::String("b c".into())]);
    assert_eq!(tags_to_string(Some(&tags)), "a b c");
    assert_eq!(tags_to_string(Some(&JsonValue::String("x".into()))), "");
    assert_eq!(tags_to_string(None), "");
}

#[test]
fn footprint_helpers() {
    assert_eq!(datasheet_url("http://u", "C1"), "http://u");
    assert_eq!(datasheet_url("", "C1"), "https://www.lcsc.com/datasheet/C1.pdf");
    assert_eq!(datasheet_url("", ""), "");
    assert!(footprint_is_smd("SmT", false, "-TH_"));
    assert!(!footprint_is_smd("THT", true, ""));
    assert!(footprint_is_smd("", true, "QFN"));
    assert!(!footprint_is_smd("", true, "DIP-TH_8"));
    assert_eq!(canvas_origin_fields("a~b"), None);
    assert_eq!(model_file_name("body", "u1"), "body.step");
    assert_eq!(model_file_name("", "u1"), "u1.step");
    assert!(model_already_attached(&vec!["a".to_string(), "u1".to_string()], "u1"));
    assert!(!model_already_attached(&vec![], "u1"));
    assert_eq!(default_unique_id(""), "AAAAAAAA");
    assert_eq!(default_unique_id("XY"), "XY");
}

#[test]
fn footprint_parameters_in_order() {
    let info = EeFootprintInfo {
        name: "QFN-56".to_string(),
        lcsc_id: "C2040".to_string(),
        manufacturer: String::new(),
        mpn: "RP2040".to_string(),
        ..Default::default()
    };
    assert_eq!(
        footprint_parameters(&info),
        vec![
            ("LCSC Part".to_string(), "C2040".to_string()),
            ("MPN".to_string(), "RP2040".to_string()),
        ]
    );
    assert!(footprint_parameters(&EeFootprintInfo::default()).is_empty());
}

fn attrs_node(members: Vec<(&str, JsonValue)>) -> JsonValue {
    JsonValue::Object(vec![(
        "attrs".to_string(),
        JsonValue::Object(members.into_iter().map(|(k, v)| (k.to_string(), v)).collect()),
    )])
}

#[test]
fn svgnode_model_fields() {
    let node = attrs_node(vec![
        ("uuid", JsonValue::String("u1".into())),
        ("title", JsonValue::String("QFN-56".into())),
        ("c_origin", JsonValue::String("4000.5, 3000".into())),
        ("c_rotation", JsonValue::String("0,0, 90".into())),
        ("z", JsonValue::Number(JsonNumber { text: "-1.5".into(), as_i64: None })),
    ]);
    let m = svgnode_model(&node).unwrap();
    assert_eq!(m.uuid, "u1");
    assert_eq!(m.name, "QFN-56");
    assert_eq!(m.origin, vec!["4000.5".to_string(), "3000".to_string()]);
    assert_eq!(m.rotation, vec!["0".to_string(), "0".to_string(), "90".to_string()]);
    assert_eq!(m.z, NumericSource::Number("-1.5".to_string()));

    let untitled = svgnode_model(&attrs_node(vec![("uuid", JsonValue::String("u2".into()))])).unwrap();
    assert_eq!(untitled.name, "");
    assert_eq!(untitled.origin, vec!["".to_string()]);
    assert_eq!(untitled.z, NumericSource::Absent);
}

#[test]
fn svgnode_without_model() {
    assert!(svgnode_model(&JsonValue::Null).is_none());
    assert!(svgnode_model(&JsonValue::Object(vec![])).is_none());
    assert!(svgnode_model(&attrs_node(vec![("title", JsonValue::String("x".into()))])).is_none());
    assert!(svgnode_model(&attrs_node(vec![("uuid", JsonValue::String(String::new()))])).is_none());
}
