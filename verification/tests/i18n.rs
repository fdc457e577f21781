use codepop::i18n::{t, toggle_lang};

#[test]
fn english_only_for_en() {
    assert_eq!(t("en", "가", "a"), "a");
    assert_eq!(t("ko", "가", "a"), "가");
    assert_eq!(t("EN", "가", "a"), "가");
    assert_eq!(t("", "가", "a"), "가");
}

#[test]
fn toggling_language() {
    assert_eq!(toggle_lang("en"), "ko");
    assert_eq!(toggle_lang("ko"), "en");
    assert_eq!(toggle_lang("fr"), "en");
    assert_eq!(toggle_lang(&toggle_lang("ko")), "ko");
    assert_eq!(toggle_lang(&toggle_lang("en")), "en");
}
