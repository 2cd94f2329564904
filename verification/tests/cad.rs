use easyeda2altium::cad::{parse_footprint, parse_symbol};
use easyeda2altium::json::{JsonNumber, JsonValue, NumericSource};
use easyeda2altium::shape::{FootprintShape, SymbolShape};
use easyeda2altium::Error;

fn s(v: &str) -> JsonValue {
    JsonValue::String(v.to_string())
}

fn num(v: &str) -> JsonValue {
    JsonValue::Number(JsonNumber { text: v.to_string(), as_i64: v.parse().ok() })
}

fn obj(members: Vec<(&str, JsonValue)>) -> JsonValue {
    JsonValue::Object(members.into_iter().map(|(k, v)| (k.to_string(), v)).collect())
}

fn symbol_record() -> JsonValue {
    obj(vec![
        ("description", s("RP2040 microcontroller")),
        ("lcsc", obj(vec![("number", s("C2040")), ("url", s(""))])),
        (
            "dataStr",
            obj(vec![
                (
                    "head",
                    obj(vec![
                        ("x", num("400")),
                        ("y", num("300")),
                        (
                            "c_para",
                            obj(vec![
                                ("name", s("RP2040 (QFN-56)")),
                                ("pre", s("U?")),
                                ("package", s("LQFN-56")),
                                ("Manufacturer", s("")),
                                ("BOM_Manufacturer", s("Raspberry Pi")),
                                ("BOM_Manufacturer Part", s("RP2040")),
                            ]),
                        ),
                    ]),
                ),
                ("BBox", obj(vec![("x", num("390")), ("y", s("290")), ("width", num("20"))])),
                ("tags", JsonValue::Array(vec![s("MCU"), num("1"), s("ARM")])),
                ("shape", JsonValue::Array(vec![s("R~1~2~~~3~4~#000~1~0~none~id"), JsonValue::Null, s("ZZ~1")])),
            ]),
        ),
    ])
}

#[test]
fn symbol_record_is_read() {
    let sym = parse_symbol(&symbol_record()).unwrap();
    assert_eq!(sym.info.name, "RP2040");
    assert_eq!(sym.info.prefix, "U?");
    assert_eq!(sym.info.package, "LQFN-56");
    assert_eq!(sym.info.manufacturer, "Raspberry Pi");
    assert_eq!(sym.info.mpn, "RP2040");
    assert_eq!(sym.info.lcsc_id, "C2040");
    assert_eq!(sym.info.datasheet, "https://www.lcsc.com/datasheet/C2040.pdf");
    assert_eq!(sym.info.keywords, "MCU ARM");
    assert_eq!(sym.info.description, "RP2040 microcontroller");
    assert!(matches!(sym.geometry.bbox_x, NumericSource::Number(ref t) if t == "390"));
    assert!(matches!(sym.geometry.bbox_y, NumericSource::Text(ref t) if t == "290"));
    assert!(matches!(sym.geometry.bbox_height, NumericSource::Absent));
    assert!(matches!(sym.geometry.head_x, NumericSource::Number(ref t) if t == "400"));
    assert_eq!(sym.geometry.shapes.len(), 2);
    assert!(matches!(sym.geometry.shapes[0], SymbolShape::Rectangle { .. }));
    assert!(matches!(sym.geometry.shapes[1], SymbolShape::Ignored));
    assert!(sym.sub_symbols.is_empty());
}

#[test]
fn symbol_record_errors() {
    assert_eq!(parse_symbol(&obj(vec![])).unwrap_err(), Error::Parse("missing dataStr".to_string()));
    assert_eq!(
        parse_symbol(&obj(vec![("dataStr", obj(vec![]))])).unwrap_err(),
        Error::Parse("missing dataStr.head".to_string())
    );
    let mut rec = symbol_record();
    if let JsonValue::Object(m) = &mut rec {
        m.push((
            "subparts".to_string(),
            JsonValue::Array(vec![
                obj(vec![("dataStr", obj(vec![("head", obj(vec![]))]))]),
                obj(vec![("dataStr", obj(vec![]))]),
            ]),
        ));
    }
    assert_eq!(parse_symbol(&rec).unwrap_err(), Error::Parse("subpart missing dataStr.head".to_string()));
}

#[test]
fn symbol_subparts_become_units() {
    let mut rec = symbol_record();
    if let JsonValue::Object(m) = &mut rec {
        m.push((
            "subparts".to_string(),
            JsonValue::Array(vec![obj(vec![(
                "dataStr",
                obj(vec![("head", obj(vec![("c_para", obj(vec![("name", s("Unit B[x]"))]))]))]),
            )])]),
        ));
    }
    let sym = parse_symbol(&rec).unwrap();
    assert_eq!(sym.sub_symbols.len(), 1);
    assert_eq!(sym.sub_symbols[0].info.name, "Unit B");
    assert_eq!(sym.sub_symbols[0].info.lcsc_id, "C2040");
    assert_eq!(sym.sub_symbols[0].info.description, "RP2040 microcontroller");
}

fn footprint_record(assembly: Option<&str>, smt: bool, title: &str) -> JsonValue {
    let mut members = vec![
        ("lcsc", obj(vec![("number", num("2040"))])),
        ("SMT", JsonValue::Bool(smt)),
        (
            "packageDetail",
            obj(vec![
                ("title", s(title)),
                (
                    "dataStr",
                    obj(vec![
                        (
                            "head",
                            obj(vec![
                                ("x", num("4000")),
                                ("y", num("3000")),
                                ("c_para", obj(vec![("package", s("QFN-56")), ("3DModel", s("uuid-1"))])),
                            ]),
                        ),
                        ("canvas", s("CA~1~2~3~4~5~6~7~8~9~10~11~12~13~14~15~4001~3002~18")),
                        ("shape", JsonValue::Array(vec![s("HOLE~1~2~3~id"), s("VIA~1")])),
                    ]),
                ),
            ]),
        ),
    ];
    if let Some(a) = assembly {
        members.push(("customData", obj(vec![("jlcPara", obj(vec![("assemblyProcess", s(a))]))])));
    }
    obj(members)
}

#[test]
fn footprint_record_is_read() {
    let fp = parse_footprint(&footprint_record(None, true, "QFN-56_L7.0")).unwrap();
    assert_eq!(fp.info.name, "QFN-56");
    assert_eq!(fp.info.fp_type, "smd");
    assert_eq!(fp.info.model_3d_uuid, "uuid-1");
    assert_eq!(fp.info.lcsc_id, "2040");
    assert_eq!(fp.info.description, "");
    assert_eq!(fp.geometry.canvas_origin, Some(("4001".to_string(), "3002".to_string())));
    assert!(matches!(fp.geometry.head_y, NumericSource::Number(ref t) if t == "3000"));
    assert_eq!(fp.geometry.shapes.len(), 2);
    assert!(matches!(fp.geometry.shapes[0], FootprintShape::Hole { .. }));
    assert!(matches!(fp.geometry.shapes[1], FootprintShape::Ignored));
}

#[test]
fn footprint_type_rules() {
    assert_eq!(parse_footprint(&footprint_record(None, true, "DIP-8-TH_x")).unwrap().info.fp_type, "tht");
    assert_eq!(parse_footprint(&footprint_record(None, false, "QFN")).unwrap().info.fp_type, "tht");
    assert_eq!(parse_footprint(&footprint_record(Some("smt"), false, "DIP-8-TH_x")).unwrap().info.fp_type, "smd");
    assert_eq!(parse_footprint(&footprint_record(Some("THT"), true, "QFN")).unwrap().info.fp_type, "tht");
}

#[test]
fn footprint_record_errors() {
    assert_eq!(parse_footprint(&obj(vec![])).unwrap_err(), Error::Parse("missing packageDetail".to_string()));
    assert_eq!(
        parse_footprint(&obj(vec![("packageDetail", obj(vec![]))])).unwrap_err(),
        Error::Parse("missing packageDetail.dataStr".to_string())
    );
    assert_eq!(
        parse_footprint(&obj(vec![("packageDetail", obj(vec![("dataStr", num("1"))]))])).unwrap_err(),
        Error::Parse("missing packageDetail.dataStr.head".to_string())
    );
}
