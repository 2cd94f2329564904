use easyeda2altium::strip::{strip_chinese_footprint, strip_chinese_symbol, strip_chinese_symbol_info, strip_cjk};
use easyeda2altium::types::{EeFootprint, EeFootprintInfo, EeSymbol, EeSymbolInfo};

#[test]
fn strip_cjk_doc_examples() {
    assert_eq!(strip_cjk("Raspberry Pi(树莓派)"), "Raspberry Pi");
    assert_eq!(strip_cjk("树莓派 RP2040"), "RP2040");
    assert_eq!(strip_cjk("Foo (bar)"), "Foo (bar)");
}

#[test]
fn strip_cjk_parens_and_runs() {
    // Only ASCII parentheses go with a run; full-width ones stay.
    assert_eq!(strip_cjk("RP2040（树莓派）"), "RP2040（）");
    assert_eq!(strip_cjk("A 中 B"), "A B");
    assert_eq!(strip_cjk("  a\t\n b  "), "a b");
    assert_eq!(strip_cjk(""), "");
    assert_eq!(strip_cjk("中文"), "");
    // The `(` before a run goes with it, whatever follows the run.
    assert_eq!(strip_cjk("X(中a)"), "Xa)");
    // Each parenthesis is optional: an unclosed one goes too.
    assert_eq!(strip_cjk("Pi(树莓派"), "Pi");
    assert_eq!(strip_cjk("X(中"), "X");
    assert_eq!(strip_cjk("中) y"), "y");
    // A parenthesis away from any run stays.
    assert_eq!(strip_cjk("( 中 )"), "( )");
    // Extension A ideograph.
    assert_eq!(strip_cjk("\u{3400}ok"), "ok");
}

#[test]
fn strip_cjk_is_idempotent_on_examples() {
    for s in ["Raspberry Pi(树莓派)", "  a  中 b ", "x（中）y", "(中) (a)"] {
        let once = strip_cjk(s);
        assert_eq!(strip_cjk(&once), once);
    }
}

fn info(name: &str) -> EeSymbolInfo {
    EeSymbolInfo {
        name: name.to_string(),
        prefix: "U?".to_string(),
        package: "QFN-56(7x7)".to_string(),
        manufacturer: "树莓派(Raspberry Pi)".to_string(),
        mpn: "RP2040".to_string(),
        datasheet: "https://x/中".to_string(),
        lcsc_id: "C2040".to_string(),
        keywords: "MCU 微控制器".to_string(),
        description: "微控制器 MCU".to_string(),
    }
}

#[test]
fn strip_chinese_symbol_touches_visible_fields_of_every_unit() {
    let mut sym = EeSymbol {
        info: info("RP2040(树莓派)"),
        geometry: 7u32,
        sub_symbols: vec![EeSymbol { info: info("单元B"), geometry: 8u32, sub_symbols: vec![] }],
    };
    strip_chinese_symbol(&mut sym);
    assert_eq!(sym.info.name, "RP2040");
    assert_eq!(sym.info.manufacturer, "(Raspberry Pi)");
    assert_eq!(sym.info.keywords, "MCU");
    assert_eq!(sym.info.description, "MCU");
    assert_eq!(sym.info.package, "QFN-56(7x7)");
    assert_eq!(sym.info.prefix, "U?");
    assert_eq!(sym.info.datasheet, "https://x/中");
    assert_eq!(sym.geometry, 7);
    assert_eq!(sym.sub_symbols.len(), 1);
    assert_eq!(sym.sub_symbols[0].info.name, "B");
    assert_eq!(sym.sub_symbols[0].geometry, 8);
}

#[test]
fn strip_chinese_footprint_keeps_type_and_ids() {
    let mut fp = EeFootprint {
        info: EeFootprintInfo {
            name: "QFN-56 封装".to_string(),
            fp_type: "smd".to_string(),
            model_3d_uuid: "abc".to_string(),
            manufacturer: "树莓派".to_string(),
            mpn: "RP2040".to_string(),
            lcsc_id: "C2040".to_string(),
            description: "描述".to_string(),
        },
        geometry: (),
    };
    strip_chinese_footprint(&mut fp);
    assert_eq!(fp.info.name, "QFN-56");
    assert_eq!(fp.info.manufacturer, "");
    assert_eq!(fp.info.description, "");
    assert_eq!(fp.info.fp_type, "smd");
    assert_eq!(fp.info.model_3d_uuid, "abc");
}

#[test]
fn stripping_a_description_twice_changes_nothing() {
    let mut i = info("RP2040(树莓派)  双核");
    strip_chinese_symbol_info(&mut i);
    let first = (i.name.clone(), i.manufacturer.clone(), i.keywords.clone(), i.description.clone());
    strip_chinese_symbol_info(&mut i);
    assert_eq!((i.name.clone(), i.manufacturer.clone(), i.keywords.clone(), i.description.clone()), first);
    assert_eq!(i.name, "RP2040");
}

#[test]
fn strip_cjk_without_ideographs_joins_words() {
    for s in ["  Foo \t(bar)\n baz ", "a,b  c", "\u{3000}x\u{00A0}y\u{2028}", "", "   "] {
        let words: Vec<&str> = s.split_whitespace().collect();
        assert_eq!(strip_cjk(s), words.join(" "));
    }
}
