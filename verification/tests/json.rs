use codepop::config::{settings_document, with_language};
use codepop::gemini::request_body;
use codepop::json::{as_str, first, get, get_opt, with_member, Json};

fn s(x: &str) -> Json {
    Json::Str(x.to_string())
}

fn members(j: &Json) -> Vec<(String, String)> {
    match j {
        Json::Object(f) => f
            .iter()
            .map(|(k, v)| (k.clone(), match v { Json::Str(t) => t.clone(), _ => "?".to_string() }))
            .collect(),
        _ => panic!("expected an object"),
    }
}

fn pairs(v: &[(&str, &str)]) -> Vec<(String, String)> {
    v.iter().map(|(a, b)| (a.to_string(), b.to_string())).collect()
}

#[test]
fn settings_file_content() {
    let doc = settings_document("K", "gemini-2.5-pro", "en", "cmd+shift+e");
    assert_eq!(
        members(&doc),
        pairs(&[("apiKey", "K"), ("model", "gemini-2.5-pro"), ("language", "en"), ("shortcut", "cmd+shift+e")])
    );
}

#[test]
fn language_save_keeps_other_settings() {
    let doc = Json::Object(vec![
        ("apiKey".to_string(), s("K")),
        ("language".to_string(), s("ko")),
        ("model".to_string(), s("m")),
    ]);
    let out = with_language(doc, "en");
    assert_eq!(members(&out), pairs(&[("apiKey", "K"), ("model", "m"), ("language", "en")]));
    assert_eq!(as_str(get(&out, "language")), Some("en"));
    assert_eq!(as_str(get(&out, "apiKey")), Some("K"));
}

#[test]
fn language_save_adds_missing_member() {
    let out = with_language(Json::Object(vec![("apiKey".to_string(), s("K"))]), "ko");
    assert_eq!(members(&out), pairs(&[("apiKey", "K"), ("language", "ko")]));
}

#[test]
fn language_save_leaves_non_objects() {
    assert!(matches!(with_language(Json::Null, "en"), Json::Null));
    assert!(matches!(with_member(Json::Array(vec![]), "k", s("v")), Json::Array(v) if v.is_empty()));
}

#[test]
fn lookups() {
    let doc = Json::Object(vec![
        ("a".to_string(), Json::Array(vec![s("x"), s("y")])),
        ("b".to_string(), Json::Object(vec![("c".to_string(), s("deep"))])),
    ]);
    assert_eq!(as_str(first(get(&doc, "a"))), Some("x"));
    assert_eq!(as_str(get_opt(get(&doc, "b"), "c")), Some("deep"));
    assert!(get(&doc, "z").is_none());
    assert!(get_opt(None, "c").is_none());
    assert!(as_str(get(&doc, "a")).is_none());
    assert!(first(get(&doc, "b")).is_none());
}

#[test]
fn request_body_shape() {
    let body = request_body("PROMPT");
    let contents = first(get(&body, "contents"));
    let part = first(get_opt(contents, "parts"));
    assert_eq!(as_str(get_opt(part, "text")), Some("PROMPT"));
    let gen = get(&body, "generationConfig");
    assert!(matches!(get_opt(gen, "temperature"), Some(Json::Number(t)) if t == "0.2"));
    assert!(matches!(get_opt(gen, "maxOutputTokens"), Some(Json::Number(n)) if n == "2500"));
}
