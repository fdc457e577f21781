use codepop::shortcut::{
    key_to_code, parse_shortcut, shortcut_from_pieces, shortcut_or_error, Key, Modifiers, Shortcut,
};

fn mods(super_key: bool, shift: bool, alt: bool, control: bool) -> Option<Modifiers> {
    Some(Modifiers { super_key, shift, alt, control })
}

#[test]
fn default_shortcut_parses() {
    assert_eq!(
        parse_shortcut("cmd+shift+e"),
        Some(Shortcut { mods: mods(true, true, false, false), key: Key::KeyE })
    );
}

#[test]
fn names_and_spacing() {
    assert_eq!(
        parse_shortcut(" Ctrl + Option + 5 "),
        Some(Shortcut { mods: mods(false, false, true, true), key: Key::Digit5 })
    );
    assert_eq!(
        parse_shortcut("META+WIN+Space"),
        Some(Shortcut { mods: mods(true, false, false, false), key: Key::Space })
    );
    assert_eq!(
        parse_shortcut("control+return"),
        Some(Shortcut { mods: mods(false, false, false, true), key: Key::Enter })
    );
    assert_eq!(
        parse_shortcut("alt+\u{3000}enter\t"),
        Some(Shortcut { mods: mods(false, false, true, false), key: Key::Enter })
    );
}

#[test]
fn key_alone_has_no_modifiers() {
    assert_eq!(parse_shortcut("z"), Some(Shortcut { mods: None, key: Key::KeyZ }));
}

#[test]
fn missing_or_unknown_key() {
    assert_eq!(parse_shortcut("cmd+shift"), None);
    assert_eq!(parse_shortcut(""), None);
    assert_eq!(parse_shortcut("cmd+f1"), None);
    assert_eq!(parse_shortcut("cmd+e+bogus"), None);
    assert_eq!(parse_shortcut("cmd+bogus+e"), Some(Shortcut { mods: mods(true, false, false, false), key: Key::KeyE }));
}

#[test]
fn key_names() {
    assert_eq!(key_to_code("a"), Some(Key::KeyA));
    assert_eq!(key_to_code("0"), Some(Key::Digit0));
    assert_eq!(key_to_code("9"), Some(Key::Digit9));
    assert_eq!(key_to_code("enter"), Some(Key::Enter));
    assert_eq!(key_to_code("A"), None);
    assert_eq!(key_to_code("esc"), None);
}

#[test]
fn pieces_read_in_order() {
    let toks: Vec<String> = vec!["shift".to_string(), "x".to_string(), "y".to_string()];
    assert_eq!(
        shortcut_from_pieces(&toks),
        Some(Shortcut { mods: mods(false, true, false, false), key: Key::KeyY })
    );
}

#[test]
fn malformed_shortcut_message() {
    assert_eq!(shortcut_or_error("cmd+"), Err("단축키 형식 오류: cmd+".to_string()));
    assert!(shortcut_or_error("cmd+k").is_ok());
}

#[test]
fn modifier_order_does_not_matter() {
    assert_eq!(parse_shortcut("shift+cmd+e"), parse_shortcut("cmd+shift+e"));
    assert_eq!(parse_shortcut("alt+ctrl+shift+1"), parse_shortcut("shift+alt+ctrl+1"));
}

#[test]
fn key_may_stand_anywhere() {
    let expected = Some(Shortcut { mods: mods(true, true, false, false), key: Key::KeyE });
    assert_eq!(parse_shortcut("e+cmd+shift"), expected);
    assert_eq!(parse_shortcut("shift+e+cmd"), expected);
}
