use easyeda2altium::convert::{
    body_rectangle, component_bbox_outline, ee_layer_allowed_for_solid_region, ee_layer_to_altium,
    ee_orientation, ee_pin_electrical, pad_shape, pin_style, pins_bbox, solid_region_accepted,
    text_font_id, text_roles, PadShape, PinElectricalType, PinOrientation,
};
use easyeda2altium::types::{EeFootprintSolidRegion, EePinElectrical};

#[test]
fn layer_map() {
    let pairs = [(1, 1), (2, 32), (3, 33), (4, 34), (5, 35), (6, 36), (7, 37), (8, 38), (10, 56), (11, 74), (12, 57), (13, 69), (14, 70), (15, 71), (99, 57), (9, 57), (-1, 57)];
    for (ee, altium) in pairs {
        assert_eq!(ee_layer_to_altium(ee), altium);
    }
    for l in [3, 4, 13, 14, 99] {
        assert!(ee_layer_allowed_for_solid_region(l));
    }
    for l in [1, 2, 5, 12, 100] {
        assert!(!ee_layer_allowed_for_solid_region(l));
    }
}

#[test]
fn solid_regions() {
    let r = |t: &str, l: i32| EeFootprintSolidRegion { layer_id: l, raw_path: String::new(), region_type: t.to_string() };
    assert!(solid_region_accepted(&r("solid", 3)));
    assert!(solid_region_accepted(&r("npth", 99)));
    assert!(!solid_region_accepted(&r("cutout", 3)));
    assert!(!solid_region_accepted(&r("solid", 1)));
}

#[test]
fn pad_shapes_and_text_roles() {
    assert_eq!(pad_shape("ELLIPSE"), PadShape::Round);
    assert_eq!(pad_shape("oval"), PadShape::Round);
    assert_eq!(pad_shape("RECT"), PadShape::Rectangular);
    assert_eq!(pad_shape("POLYGON"), PadShape::Rectangular);
    assert_eq!(pad_shape("weird"), PadShape::Rectangular);
    assert_eq!(text_roles("P"), (true, false));
    assert_eq!(text_roles("N"), (false, true));
    assert_eq!(text_roles("PN"), (false, false));
}

#[test]
fn pins() {
    assert_eq!(ee_pin_electrical(EePinElectrical::from_int(3)), PinElectricalType::InputOutput);
    assert_eq!(ee_pin_electrical(EePinElectrical::from_int(0)), PinElectricalType::Passive);
    assert_eq!(EePinElectrical::from_int(4), EePinElectrical::Power);
    assert_eq!(EePinElectrical::from_int(9), EePinElectrical::Unspecified);
    assert_eq!(ee_orientation(0), PinOrientation::Right);
    assert_eq!(ee_orientation(90), PinOrientation::Up);
    assert_eq!(ee_orientation(180), PinOrientation::Left);
    assert_eq!(ee_orientation(270), PinOrientation::Down);
    assert_eq!(ee_orientation(-90), PinOrientation::Down);
    assert_eq!(ee_orientation(450), PinOrientation::Up);
    assert_eq!(ee_orientation(45), PinOrientation::Right);
    assert_eq!(text_font_id(true), 2);
    assert_eq!(text_font_id(false), 1);
    let st = pin_style("VCC", "", false, true, true, true);
    assert_eq!(st.name.as_deref(), Some("VCC"));
    assert_eq!(st.designator, None);
    assert!(st.show_name && !st.show_designator && st.is_hidden);
    assert_eq!((st.symbol_inner_edge, st.symbol_outer_edge), (3, 1));
    assert_eq!((st.font_mode, st.custom_font_id), (2, 2));
    let plain = pin_style("", "1", true, false, false, false);
    assert_eq!((plain.font_mode, plain.custom_font_id, plain.symbol_inner_edge), (0, 0, 0));
}

#[test]
fn boxes() {
    assert_eq!(pins_bbox(&vec![]), None);
    assert_eq!(pins_bbox(&vec![(5, -2), (-3, 7), (1, 1)]), Some((-3, -2, 5, 7)));
    assert_eq!(
        component_bbox_outline(&vec![], 500),
        vec![(-500, -500), (500, -500), (500, 500), (-500, 500)]
    );
    assert_eq!(
        component_bbox_outline(&vec![(1, 2), (3, -4)], 500),
        vec![(1, -4), (3, -4), (3, 2), (1, 2)]
    );
    assert_eq!(
        component_bbox_outline(&vec![(i32::MAX, 2)], 7),
        vec![(-7, -7), (7, -7), (7, 7), (-7, 7)]
    );
    assert_eq!(body_rectangle(10, 0, 0, 5, None), ((0, 0), (10, 5)));
    assert_eq!(body_rectangle(0, 0, 10, 5, Some((-2, 1, 4, 9))), ((-2, 0), (10, 9)));
}
