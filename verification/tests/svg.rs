use easyeda2altium::svg::{svg_path_steps, PathStep};
use easyeda2altium::text::is_whitespace;

fn pt(x: &str, y: &str) -> PathStep {
    PathStep::Point(x.to_string(), y.to_string())
}

#[test]
fn path_commands_and_separators() {
    let steps = svg_path_steps("M 0,0 L 10 0 H 20 V 5 Z").unwrap();
    assert_eq!(
        steps,
        vec![
            pt("0", "0"),
            pt("10", "0"),
            PathStep::Horizontal("20".to_string()),
            PathStep::Vertical("5".to_string()),
            PathStep::Close,
        ]
    );
}

#[test]
fn path_bare_numbers_repeat_the_command() {
    let steps = svg_path_steps("M 1 2 3 4 L5,6 7 8").unwrap();
    // `L5,6` is a command token: only its first letter counts.
    assert_eq!(steps, vec![pt("1", "2"), pt("3", "4"), pt("6", "7")]);
}

#[test]
fn path_arc_takes_its_end_point() {
    let steps = svg_path_steps("M 0 0 A 5 5 0 0 1 10 0").unwrap();
    assert_eq!(steps, vec![pt("0", "0"), pt("10", "0")]);
}

#[test]
fn path_short_command_ends_it() {
    assert_eq!(svg_path_steps("M 0 0 L 1").unwrap(), vec![pt("0", "0")]);
    assert_eq!(svg_path_steps("A 1 2 3 4 5 6").unwrap(), vec![]);
    assert_eq!(svg_path_steps("").unwrap(), vec![]);
    assert_eq!(svg_path_steps(" , ").unwrap(), vec![]);
}

#[test]
fn path_unknown_tokens_are_skipped() {
    // Numbers before any command, and unknown commands with the token after them.
    assert_eq!(svg_path_steps("7 M 1 1").unwrap(), vec![pt("1", "1")]);
    assert_eq!(svg_path_steps("C 1 M 2 2").unwrap(), vec![pt("2", "2")]);
    assert_eq!(svg_path_steps("M 0 0 z").unwrap(), vec![pt("0", "0"), PathStep::Close]);
}

#[test]
fn path_number_after_close_never_ends() {
    assert!(svg_path_steps("M 0 0 Z 5").is_none());
    assert!(svg_path_steps("M 0 0 z,1 2").is_none());
}

#[test]
fn white_space_matches_std() {
    for u in 0u32..0x3100 {
        if let Some(c) = char::from_u32(u) {
            assert_eq!(is_whitespace(c), c.is_whitespace(), "U+{:04X}", u);
        }
    }
    for c in ['\u{FEFF}', '\u{200B}', '\u{FF08}', 'a', '中'] {
        assert_eq!(is_whitespace(c), c.is_whitespace());
    }
}
