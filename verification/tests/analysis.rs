use codepop::analysis::{analysis_step, analysis_step_for, current_lang, Action, Event, Phase};
use codepop::cache::{hash_text, CacheEntry};
use codepop::config::Config;

fn cfg(key: &str, language: Option<&str>) -> Config {
    Config {
        api_key: key.to_string(),
        model: None,
        language: language.map(|s| s.to_string()),
        shortcut: None,
    }
}

#[test]
fn unreadable_settings_end_in_korean() {
    let (p, a) = analysis_step_for(Phase::Start, "code!", true, Event::ConfigLoaded(Err("no file".to_string())), None);
    assert!(matches!(p, Phase::Done));
    assert_eq!(a.len(), 1);
    assert!(matches!(&a[0], Action::EmitError { error, lang } if error == "no file" && lang == "ko"));
}

#[test]
fn missing_key_stops_after_spinner() {
    let (p, a) = analysis_step_for(Phase::Start, "code!", true, Event::ConfigLoaded(Ok(cfg("", Some("en")))), None);
    assert!(matches!(p, Phase::Done));
    assert_eq!(a.len(), 2);
    assert!(matches!(&a[0], Action::EmitLoading { lang } if lang == "en"));
    assert!(matches!(&a[1], Action::EmitError { error, lang }
        if error == "No API key. Open the menu bar ✦ → Settings to add your key." && lang == "en"));
}

#[test]
fn cache_hit_is_shown_without_the_model() {
    let text = "fn main() {}";
    let (p, a) = analysis_step_for(Phase::Start, text, true, Event::ConfigLoaded(Ok(cfg("k", None))), Some("ko-KR"));
    let h = hash_text(text, "ko");
    assert!(matches!(&a[1], Action::LookupCache { hash } if *hash == h));
    assert!(matches!(&p, Phase::AwaitCache { hash, lang } if *hash == h && lang == "ko"));
    let entry = CacheEntry { explanation: "cached".to_string(), code: text.to_string(), ts: 0 };
    let (p2, a2) = analysis_step_for(p, text, true, Event::CacheRead(Some(entry)), Some("ko-KR"));
    assert!(matches!(p2, Phase::Done));
    assert_eq!(a2.len(), 2);
    assert!(matches!(&a2[0], Action::TouchCache { hash } if *hash == h));
    assert!(matches!(&a2[1], Action::EmitRender { explanation, from_cache: true, lang } if explanation == "cached" && lang == "ko"));
}

#[test]
fn cache_miss_asks_and_stores() {
    let text = "let x = 1;";
    let (p, _) = analysis_step_for(Phase::Start, text, true, Event::ConfigLoaded(Ok(cfg("k", Some("en")))), None);
    let (p2, a2) = analysis_step_for(p, text, true, Event::CacheRead(None), None);
    assert!(matches!(&a2[0], Action::CallModel { lang } if lang == "en"));
    let (p3, a3) = analysis_step_for(p2, text, true, Event::ModelReplied(Ok("answer".to_string())), None);
    assert!(matches!(p3, Phase::Done));
    let h = hash_text(text, "en");
    assert!(matches!(&a3[0], Action::StoreCache { hash, entry }
        if *hash == h && entry.explanation == "answer" && entry.code == text && entry.ts == 0));
    assert!(matches!(&a3[1], Action::EmitRender { explanation, from_cache: false, lang } if explanation == "answer" && lang == "en"));
}

#[test]
fn retry_skips_the_cache() {
    let (p, a) = analysis_step_for(Phase::Start, "abcdef", false, Event::ConfigLoaded(Ok(cfg("k", Some("ko")))), None);
    assert_eq!(a.len(), 2);
    assert!(matches!(&a[1], Action::CallModel { lang } if lang == "ko"));
    assert!(matches!(p, Phase::AwaitModel { .. }));
    let (p2, a2) = analysis_step_for(p, "abcdef", false, Event::ModelReplied(Err("API error 400".to_string())), None);
    assert!(matches!(p2, Phase::Done));
    assert!(matches!(&a2[0], Action::EmitError { error, lang } if error == "API error 400" && lang == "ko"));
}

#[test]
fn language_from_system_when_unset() {
    let (_, a) = analysis_step(Phase::Start, "abcdef", true, Event::ConfigLoaded(Ok(cfg("k", None))));
    assert!(matches!(&a[0], Action::EmitLoading { lang } if lang == "ko" || lang == "en"));
}

#[test]
fn language_without_settings() {
    assert_eq!(current_lang(None), "ko");
    assert_eq!(current_lang(Some(&cfg("", Some("en")))), "en");
}
