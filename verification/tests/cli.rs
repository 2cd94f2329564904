use easyeda2altium::cli::{ensure_overwrite_ok, footprint_model_action, library_paths, Args, ModelAction};
use easyeda2altium::Error;

fn args(ids: &[&str], fields: &[&str]) -> Args {
    Args {
        lcsc_id: ids.iter().map(|s| s.to_string()).collect(),
        symbol: false,
        footprint: false,
        three_d: false,
        full: false,
        output: None,
        overwrite: false,
        use_cache: false,
        custom_field: fields.iter().map(|s| s.to_string()).collect(),
        strip_chinese: false,
        font: None,
    }
}

#[test]
fn validate_accepts_c_ids() {
    assert_eq!(args(&["C2040", "C25744"], &[]).validate(), Ok(()));
    assert_eq!(args(&[], &[]).validate(), Ok(()));
}

#[test]
fn validate_names_first_bad_id() {
    let e = args(&["C1", "X2", "Y3"], &[]).validate().unwrap_err();
    assert_eq!(e, Error::InvalidArg("lcsc_id 'X2' must start with 'C'".to_string()));
    assert_eq!(e.message(), "invalid argument: lcsc_id 'X2' must start with 'C'");
    assert!(args(&[""], &[]).validate().is_err());
}

#[test]
fn custom_fields_are_split_and_trimmed() {
    let out = args(&[], &["Manufacturer:TI", " Tolerance : 1% ", "Url:http://x"])
        .parsed_custom_fields()
        .unwrap();
    assert_eq!(
        out,
        vec![
            ("Manufacturer".to_string(), "TI".to_string()),
            ("Tolerance".to_string(), "1%".to_string()),
            ("Url".to_string(), "http://x".to_string()),
        ]
    );
}

#[test]
fn custom_field_errors() {
    assert_eq!(
        args(&[], &["a:b", "nocolon"]).parsed_custom_fields().unwrap_err(),
        Error::InvalidArg("custom-field 'nocolon' missing ':'".to_string())
    );
    assert_eq!(
        args(&[], &["  :v"]).parsed_custom_fields().unwrap_err(),
        Error::InvalidArg("custom-field '  :v' has empty key".to_string())
    );
    assert_eq!(args(&[], &["k:"]).parsed_custom_fields().unwrap(), vec![("k".to_string(), String::new())]);
}

#[test]
fn output_selection_rules() {
    let mut a = args(&["C1"], &[]);
    assert_eq!(
        a.output_selection().unwrap_err(),
        Error::InvalidArg("specify at least one of --symbol / --footprint / --3d / --full".to_string())
    );
    a.full = true;
    let sel = a.output_selection().unwrap();
    assert!(sel.symbol && sel.footprint && sel.three_d);
    a.full = false;
    a.footprint = true;
    let sel = a.output_selection().unwrap();
    assert!(!sel.symbol && sel.footprint && !sel.three_d);
}

#[test]
fn overwrite_rule() {
    assert_eq!(ensure_overwrite_ok(false, false, "/tmp/x.SchLib"), Ok(()));
    assert_eq!(ensure_overwrite_ok(true, true, "/tmp/x.SchLib"), Ok(()));
    let e = ensure_overwrite_ok(true, false, "/tmp/x.SchLib").unwrap_err();
    assert_eq!(e.message(), "output file already exists: /tmp/x.SchLib (use --overwrite)");
}

#[test]
fn model_actions() {
    assert_eq!(footprint_model_action(false, Some("u")), ModelAction::DropModel);
    assert_eq!(footprint_model_action(true, Some("u")), ModelAction::FetchStep);
    assert_eq!(footprint_model_action(true, Some("")), ModelAction::KeepModel);
    assert_eq!(footprint_model_action(true, None), ModelAction::KeepModel);
}

#[test]
fn output_basename_gets_both_extensions() {
    assert_eq!(
        library_paths("/tmp/rp2040"),
        ("/tmp/rp2040.SchLib".to_string(), "/tmp/rp2040.PcbLib".to_string())
    );
    // The basename keeps a dot of its own.
    assert_eq!(
        library_paths("/tmp/my.lib"),
        ("/tmp/my.lib.SchLib".to_string(), "/tmp/my.lib.PcbLib".to_string())
    );
}
