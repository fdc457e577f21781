use codepop::selection::{copied_selection, copy_done, hotkey_outcome, HotkeyOutcome};

fn rejected(o: HotkeyOutcome) -> String {
    match o {
        HotkeyOutcome::Reject(m) => m,
        _ => panic!("expected a rejection"),
    }
}

#[test]
fn selection_length_bounds() {
    let four = "abcd".to_string();
    let five = "abcde".to_string();
    assert_eq!(rejected(hotkey_outcome(true, Some(four), "en")), "No text selected, or too short");
    assert!(matches!(hotkey_outcome(true, Some(five), "en"), HotkeyOutcome::Analyze(t) if t == "abcde"));
    let max = "가".repeat(20000);
    assert!(matches!(hotkey_outcome(true, Some(max.clone()), "ko"), HotkeyOutcome::Analyze(t) if t == max));
    let over = "a".repeat(20001);
    assert_eq!(rejected(hotkey_outcome(true, Some(over.clone()), "en")), "Selection too long (over 20,000 chars)");
    assert_eq!(rejected(hotkey_outcome(true, Some(over), "ko")), "선택이 너무 김 (20000자 초과)");
}

#[test]
fn characters_not_bytes_are_counted() {
    assert!(matches!(hotkey_outcome(true, Some("한글코드다".to_string()), "en"), HotkeyOutcome::Analyze(_)));
    assert!(matches!(hotkey_outcome(true, Some("한글코드".to_string()), "en"), HotkeyOutcome::Reject(_)));
}

#[test]
fn nothing_selected() {
    assert_eq!(rejected(hotkey_outcome(true, None, "ko")), "선택된 텍스트가 없거나 너무 짧음");
}

#[test]
fn permission_comes_first() {
    match hotkey_outcome(false, Some("abcdef".to_string()), "en") {
        HotkeyOutcome::NeedPermission(m) => assert!(m.starts_with("Accessibility permission is required.")),
        _ => panic!("expected a permission request"),
    }
}

#[test]
fn copy_detection() {
    assert!(!copy_done(10, 11));
    assert!(copy_done(10, 12));
    assert!(!copy_done(isize::MAX, isize::MAX));
    assert_eq!(copied_selection(3, 5, Some("code".to_string())), Some("code".to_string()));
    assert_eq!(copied_selection(3, 4, Some("code".to_string())), None);
    assert_eq!(copied_selection(3, 5, Some(String::new())), None);
    assert_eq!(copied_selection(3, 5, None), None);
}
