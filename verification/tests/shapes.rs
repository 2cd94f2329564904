use easyeda2altium::shape::{parse_b, parse_footprint_shape, parse_pin, parse_symbol_shape, FootprintShape, SymbolShape};

const PIN: &str = "P~show~0~1~400~300~180~gge5~0^^400~300^^M 400 300 h 20~#880000^^1~423.7~304~0~GPIO0~start~~~#0000FF^^1~414~299~0~1~end~~~#0000FF^^0~417~300^^0~M 420 297 L 423 300 L 420 303";

#[test]
fn pin_fields() {
    let p = parse_pin(PIN).unwrap();
    assert!(p.is_displayed);
    assert_eq!(p.pin_type, "0");
    assert_eq!(p.pos_x, "400");
    assert_eq!(p.pos_y, "300");
    assert_eq!(p.rotation, "180");
    assert_eq!(p.designator, "1");
    assert_eq!(p.name, "GPIO0");
    assert_eq!(p.path.as_deref(), Some("M 400 300 h 20"));
    assert!(!p.is_inverted);
    assert!(!p.is_clock);
}

#[test]
fn pin_markers_and_short_pins() {
    let p = parse_pin("P~0~3~1~5~6~90~id^^d^^M 0 0 v 10^^1~0~0~0~CLK^^1~0~0~0~7^^1^^1").unwrap();
    assert!(!p.is_displayed);
    assert_eq!(p.designator, "7");
    assert!(p.is_inverted && p.is_clock);
    let q = parse_pin("P~show~1~1~5~6~90").unwrap();
    assert_eq!(q.path, None);
    assert_eq!(q.name, "");
    assert_eq!(q.designator, "");
    assert!(parse_pin("P~show~1~1~5~6").is_none());
}

#[test]
fn symbol_shape_dispatch() {
    match parse_symbol_shape("R~10~20~~~30~40~#000~1~0~none~id~0") {
        SymbolShape::Rectangle { pos_x, pos_y, width, height, fill } => {
            assert_eq!((pos_x.as_str(), pos_y.as_str(), width.as_str(), height.as_str()), ("10", "20", "30", "40"));
            assert!(!fill);
        }
        other => panic!("unexpected {:?}", other),
    }
    match parse_symbol_shape("C~1~2~3~#000~1~0~#FF0000~id") {
        SymbolShape::Circle { radius, fill, .. } => {
            assert_eq!(radius, "3");
            assert!(fill);
        }
        other => panic!("unexpected {:?}", other),
    }
    match parse_symbol_shape("PG~0 0 5 5 5 0~#000~1~0~none~id") {
        SymbolShape::Polyline { points, fill } => {
            assert_eq!(points, "0 0 5 5 5 0");
            assert!(fill);
        }
        other => panic!("unexpected {:?}", other),
    }
    match parse_symbol_shape("PL~0 0 5 5~#000~1~0~None~id") {
        SymbolShape::Polyline { fill, .. } => assert!(!fill),
        other => panic!("unexpected {:?}", other),
    }
    match parse_symbol_shape("A~M 0 0 A 5 5 0 0 1 10 0~~#000") {
        SymbolShape::Arc(a) => assert_eq!(a.raw_path, "M 0 0 A 5 5 0 0 1 10 0"),
        other => panic!("unexpected {:?}", other),
    }
    match parse_symbol_shape("T~L~5~6~0~#000~Arial~9ptpt~~~start~comment~Hello~1") {
        SymbolShape::Text { pos_x, text, font_size, .. } => {
            assert_eq!(pos_x, "5");
            assert_eq!(text, "Hello");
            assert_eq!(font_size, "9");
        }
        other => panic!("unexpected {:?}", other),
    }
    assert!(matches!(parse_symbol_shape("T~L~5~6~0~#000~Arial~9pt~~~start~comment~~1"), SymbolShape::Ignored));
    assert!(matches!(parse_symbol_shape("PT~x"), SymbolShape::Ignored));
    assert!(matches!(parse_symbol_shape("R~1~2"), SymbolShape::Ignored));
    assert!(matches!(parse_symbol_shape(""), SymbolShape::Ignored));
}

#[test]
fn footprint_pad_fields() {
    match parse_footprint_shape("PAD~RECT~4000~3000~6~3~1~GND~A(1)~0~3994 2998 4006 2998~90~gge1~0~~N") {
        FootprintShape::Pad(p) => {
            assert_eq!(p.shape, "RECT");
            assert_eq!(p.layer, "1");
            assert_eq!(p.number, "A(1)");
            assert_eq!(p.hole_radius.as_deref(), Some("0"));
            assert_eq!(p.points, "3994 2998 4006 2998");
            assert_eq!(p.rotation.as_deref(), Some("90"));
            assert_eq!(p.hole_length.as_deref(), Some("0"));
            assert!(!p.is_plated);
        }
        other => panic!("unexpected {:?}", other),
    }
    match parse_footprint_shape("PAD~OVAL~1~2~3~4~11") {
        FootprintShape::Pad(p) => {
            assert_eq!(p.number, "");
            assert_eq!(p.hole_radius, None);
            assert!(p.is_plated);
        }
        other => panic!("unexpected {:?}", other),
    }
    assert!(matches!(parse_footprint_shape("PAD~OVAL~1~2~3~4"), FootprintShape::Ignored));
}

#[test]
fn footprint_shape_dispatch() {
    assert!(matches!(parse_footprint_shape("TRACK~1~3~~10 10 20 10~id"),
        FootprintShape::Track { ref points, .. } if points == "10 10 20 10"));
    assert!(matches!(parse_footprint_shape("HOLE~1~2~3~id"), FootprintShape::Hole { ref radius, .. } if radius == "3"));
    assert!(matches!(parse_footprint_shape("VIA~1~2~3~net~0.5~id"), FootprintShape::Via { ref drill_radius, .. } if drill_radius == "0.5"));
    assert!(matches!(parse_footprint_shape("CIRCLE~1~2~3~0.5~3~id"), FootprintShape::Circle { ref layer, .. } if layer == "3"));
    assert!(matches!(parse_footprint_shape("ARC~1~3~~M 0 0 A 1 1 0 0 1 2 0~id"), FootprintShape::Arc { ref raw_path, .. } if raw_path == "M 0 0 A 1 1 0 0 1 2 0"));
    assert!(matches!(parse_footprint_shape("RECT~1~2~3~4~3~id~0~0.6"), FootprintShape::Rect { ref stroke_width, .. } if stroke_width == "0.6"));
    assert!(matches!(parse_footprint_shape("SOLIDREGION~99~~M 0 0 L 1 0 L 1 1 Z~npth~id"), FootprintShape::SolidRegion { ref region_type, .. } if region_type == "npth"));
    assert!(matches!(parse_footprint_shape("SVGNODE~{\"a\":1}"), FootprintShape::SvgNode(ref j) if j == "{\"a\":1}"));
    assert!(matches!(parse_footprint_shape("SVGNODE"), FootprintShape::Ignored));
    assert!(matches!(parse_footprint_shape("pad~RECT~1~2~3~4~1"), FootprintShape::Ignored));
    match parse_footprint_shape("TEXT~P~1~2~0.5~90~0~3~~4.5pt~U1~0~id") {
        FootprintShape::Text(t) => {
            assert_eq!(t.kind, "P");
            assert_eq!(t.layer, "3");
            assert_eq!(t.font_size, "4.5");
            assert_eq!(t.text, "U1");
            assert!(!t.is_displayed);
        }
        other => panic!("unexpected {:?}", other),
    }
    match parse_footprint_shape("TEXT~N~1~2~0.5~90~0~3~~4~Name") {
        FootprintShape::Text(t) => assert!(t.is_displayed),
        other => panic!("unexpected {:?}", other),
    }
}

#[test]
fn flag_words() {
    for w in ["true", " TRUE ", "1", "yes", "On", "show", "y", "T"] {
        assert!(parse_b(Some(w)), "{}", w);
    }
    for w in ["false", "0", "", "no", "shown", "2"] {
        assert!(!parse_b(Some(w)), "{}", w);
    }
    assert!(!parse_b(None));
}
