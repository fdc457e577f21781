use codepop::config::{
    codepop_dir, codepop_dir_in, config_missing_message, config_parse_error_message, config_path,
    config_path_in, lang_for_locale, needs_onboarding, startup_shortcut, system_default_lang,
    Config, DEFAULT_MODEL, DEFAULT_SHORTCUT,
};

fn cfg(key: &str, model: Option<&str>, language: Option<&str>, shortcut: Option<&str>) -> Config {
    Config {
        api_key: key.to_string(),
        model: model.map(|s| s.to_string()),
        language: language.map(|s| s.to_string()),
        shortcut: shortcut.map(|s| s.to_string()),
    }
}

#[test]
fn model_defaults() {
    assert_eq!(DEFAULT_MODEL, "gemini-2.5-flash-lite");
    assert_eq!(cfg("k", None, None, None).model(), "gemini-2.5-flash-lite");
    assert_eq!(cfg("k", Some(""), None, None).model(), "gemini-2.5-flash-lite");
    assert_eq!(cfg("k", Some("gemini-2.5-pro"), None, None).model(), "gemini-2.5-pro");
}

#[test]
fn shortcut_defaults() {
    assert_eq!(DEFAULT_SHORTCUT, "cmd+shift+e");
    assert_eq!(cfg("k", None, None, None).shortcut(), "cmd+shift+e");
    assert_eq!(cfg("k", None, None, Some("")).shortcut(), "cmd+shift+e");
    assert_eq!(cfg("k", None, None, Some("ctrl+k")).shortcut(), "ctrl+k");
}

#[test]
fn language_from_settings() {
    assert_eq!(cfg("", None, Some("en"), None).lang(), "en");
    assert_eq!(cfg("", None, Some("ko"), None).lang(), "ko");
    assert_eq!(cfg("", None, Some("en"), None).lang_for(Some("ko-KR")), "en");
    assert_eq!(cfg("", None, Some("ko"), None).lang_for(Some("en-US")), "ko");
}

#[test]
fn language_from_locale() {
    assert_eq!(cfg("", None, None, None).lang_for(Some("ko-KR")), "ko");
    assert_eq!(cfg("", None, Some("fr"), None).lang_for(Some("KO")), "ko");
    assert_eq!(cfg("", None, Some("EN"), None).lang_for(Some("en-US")), "en");
    assert_eq!(cfg("", None, None, None).lang_for(None), "en");
    assert_eq!(lang_for_locale(Some("Ko_kr")), "ko");
    assert_eq!(lang_for_locale(Some("k")), "en");
    assert_eq!(lang_for_locale(Some("ja-JP")), "en");
    let sys = system_default_lang();
    assert!(sys == "ko" || sys == "en");
    let l = cfg("", None, None, None).lang();
    assert_eq!(l, sys);
}

#[test]
fn settings_paths() {
    assert_eq!(codepop_dir_in(b"/Users/me"), b"/Users/me/.codepop".to_vec());
    assert_eq!(codepop_dir_in(b"/Users/me/"), b"/Users/me/.codepop".to_vec());
    assert_eq!(config_path_in(b"/Users/me"), b"/Users/me/.codepop/config.json".to_vec());
    let home = dirs::home_dir().unwrap_or_default().into_os_string().into_encoded_bytes();
    assert_eq!(codepop_dir(), codepop_dir_in(&home));
    assert_eq!(config_path(), config_path_in(&home));
}

#[test]
fn settings_messages() {
    assert_eq!(config_missing_message("/a/config.json"), "/a/config.json 없음");
    assert_eq!(config_parse_error_message(), "config.json 파싱 실패");
}

#[test]
fn start_up_choices() {
    assert!(needs_onboarding(None));
    assert!(needs_onboarding(Some(&cfg("", None, None, None))));
    assert!(!needs_onboarding(Some(&cfg("key", None, None, None))));
    assert_eq!(startup_shortcut(None), "cmd+shift+e");
    assert_eq!(startup_shortcut(Some(&cfg("", None, None, Some("alt+1")))), "alt+1");
    assert_eq!(startup_shortcut(Some(&cfg("", None, None, None))), "cmd+shift+e");
}
