use codepop::gemini::{
    build_prompt, interpret_body, interpret_reply, network_error_message, reason_localized,
    request_url, status_step, timeout_message, with_line_numbers, StatusStep, PROMPT_HEAD_EN,
    PROMPT_HEAD_KO, PROMPT_TAIL,
};
use codepop::json::Json;

#[test]
fn line_numbers_prefix() {
    assert_eq!(with_line_numbers("a\nb"), "L1: a\nL2: b");
}

#[test]
fn line_numbers_single() {
    assert_eq!(with_line_numbers("x"), "L1: x");
}

#[test]
fn line_numbers_empty_and_trailing_newline() {
    assert_eq!(with_line_numbers(""), "L1: ");
    assert_eq!(with_line_numbers("a\n"), "L1: a\nL2: ");
    assert_eq!(with_line_numbers("\n\n"), "L1: \nL2: \nL3: ");
}

#[test]
fn line_numbers_keep_each_line() {
    let code: String = (0..12).map(|i| format!("line {i}")).collect::<Vec<_>>().join("\n");
    let out = with_line_numbers(&code);
    let lines: Vec<&str> = out.split('\n').collect();
    assert_eq!(lines.len(), 12);
    assert_eq!(lines[0], "L1: line 0");
    assert_eq!(lines[9], "L10: line 9");
    assert_eq!(lines[11], "L12: line 11");
}

#[test]
fn line_numbers_non_ascii() {
    assert_eq!(with_line_numbers("한글\n✦"), "L1: 한글\nL2: ✦");
}

#[test]
fn reasons_in_words() {
    assert_eq!(reason_localized("en", "SAFETY"), "Blocked by the safety filter");
    assert_eq!(reason_localized("ko", "SAFETY"), "안전성 필터에 차단됨");
    assert_eq!(reason_localized("en", "MAX_TOKENS"), "Response truncated (too long)");
    assert_eq!(reason_localized("xx", "RECITATION"), "저작권 우려로 차단됨");
    assert_eq!(reason_localized("en", "BLOCKED_REASON_UNSPECIFIED"), "Blocked");
    assert_eq!(reason_localized("en", "SPII"), "SPII");
}

#[test]
fn prompt_wraps_numbered_code() {
    let p = build_prompt("L1: x", "en");
    assert!(p.starts_with("Explain the following code in English."));
    assert_eq!(p, format!("{}L1: x{}", PROMPT_HEAD_EN, PROMPT_TAIL));
    assert!(p.ends_with("<code_to_analyze>\nL1: x\n</code_to_analyze>"));
    let k = build_prompt("L1: y", "ko");
    assert!(k.starts_with("다음 코드를 한국어로 설명해줘."));
    assert_eq!(k, format!("{}L1: y{}", PROMPT_HEAD_KO, PROMPT_TAIL));
}

#[test]
fn request_address() {
    assert_eq!(
        request_url("gemini-2.5-flash-lite", "KEY"),
        "https://generativelanguage.googleapis.com/v1beta/models/gemini-2.5-flash-lite:generateContent?key=KEY"
    );
}

#[test]
fn timeout_and_network_messages() {
    assert_eq!(timeout_message("en"), "Response timeout (30s)");
    assert_eq!(timeout_message("ko"), "응답 타임아웃 (30초)");
    assert_eq!(network_error_message("en", "refused"), "Network error: refused");
    assert_eq!(network_error_message("ko", "refused"), "네트워크 오류: refused");
}

fn fail(s: StatusStep) -> String {
    match s {
        StatusStep::Fail(m) => m,
        _ => panic!("expected a failure"),
    }
}

#[test]
fn status_ok_reads_body() {
    assert!(matches!(status_step(1, 200, "en"), StatusStep::ReadBody));
    assert!(matches!(status_step(3, 200, "ko"), StatusStep::ReadBody));
}

#[test]
fn rate_limit_retried_once() {
    assert!(matches!(
        status_step(1, 429, "en"),
        StatusStep::Retry { delay_secs: 5, next_attempt: 2 }
    ));
    assert_eq!(
        fail(status_step(2, 429, "en")),
        "Free quota exceeded — 15/min, 1500/day.\nWait a moment and try 🔄 Retry."
    );
    assert!(fail(status_step(2, 429, "ko")).starts_with("무료 한도 초과"));
}

#[test]
fn server_errors_retried_three_times() {
    assert!(matches!(status_step(1, 503, "en"), StatusStep::Retry { delay_secs: 1, next_attempt: 2 }));
    assert!(matches!(status_step(2, 500, "en"), StatusStep::Retry { delay_secs: 2, next_attempt: 3 }));
    assert!(matches!(status_step(3, 504, "en"), StatusStep::Retry { delay_secs: 4, next_attempt: 4 }));
    assert_eq!(fail(status_step(4, 502, "en")), "API error 502 (retried 3)");
    assert_eq!(fail(status_step(4, 502, "ko")), "API 오류 502 (재시도 3회)");
}

#[test]
fn other_statuses_fail_at_once() {
    assert_eq!(fail(status_step(1, 400, "en")), "API error 400");
    assert_eq!(fail(status_step(1, 501, "ko")), "API 오류 501");
    assert_eq!(fail(status_step(2, 403, "en")), "API error 403 (retried 1)");
}

fn s(x: &str) -> Json {
    Json::Str(x.to_string())
}

fn obj(fields: Vec<(&str, Json)>) -> Json {
    Json::Object(fields.into_iter().map(|(k, v)| (k.to_string(), v)).collect())
}

fn reply(finish: Option<&str>, text: Option<&str>) -> Json {
    let mut cand = Vec::new();
    if let Some(f) = finish {
        cand.push(("finishReason", s(f)));
    }
    if let Some(t) = text {
        cand.push(("content", obj(vec![("parts", Json::Array(vec![obj(vec![("text", s(t))])]))])));
    }
    obj(vec![("candidates", Json::Array(vec![obj(cand)]))])
}

#[test]
fn reply_text_is_the_explanation() {
    assert_eq!(interpret_reply(&reply(Some("STOP"), Some("## ok")), "en"), Ok("## ok".to_string()));
    assert_eq!(interpret_reply(&reply(None, Some("hi")), "ko"), Ok("hi".to_string()));
}

#[test]
fn truncated_reply_gets_a_note() {
    assert_eq!(
        interpret_reply(&reply(Some("MAX_TOKENS"), Some("part")), "en"),
        Ok("part\n\n> ⚠️ **Response was truncated.** Shorten the code or increase `maxOutputTokens`.".to_string())
    );
    assert_eq!(
        interpret_reply(&reply(Some("MAX_TOKENS"), Some("part")), "ko"),
        Ok("part\n\n> ⚠️ **응답이 잘렸습니다.** 코드를 줄이거나 `maxOutputTokens` 를 늘려보세요.".to_string())
    );
}

#[test]
fn blocked_prompt_is_an_error() {
    let data = obj(vec![
        ("promptFeedback", obj(vec![("blockReason", s("SAFETY"))])),
        ("candidates", Json::Array(vec![])),
    ]);
    assert_eq!(interpret_reply(&data, "en"), Err("Blocked — Blocked by the safety filter".to_string()));
    assert_eq!(interpret_reply(&data, "ko"), Err("차단됨 — 안전성 필터에 차단됨".to_string()));
}

#[test]
fn missing_candidates_is_an_error() {
    assert_eq!(interpret_reply(&obj(vec![]), "en"), Err("Empty response".to_string()));
    assert_eq!(
        interpret_reply(&obj(vec![("candidates", Json::Array(vec![]))]), "ko"),
        Err("응답이 비어있음".to_string())
    );
    assert_eq!(interpret_reply(&Json::Array(vec![]), "en"), Err("Empty response".to_string()));
}

#[test]
fn bad_finish_reason_is_an_error() {
    assert_eq!(
        interpret_reply(&reply(Some("RECITATION"), Some("x")), "en"),
        Err("Blocked over recitation/copyright".to_string())
    );
    assert_eq!(interpret_reply(&reply(Some("WEIRD"), Some("x")), "en"), Err("WEIRD".to_string()));
}

#[test]
fn empty_text_is_an_error() {
    assert_eq!(interpret_reply(&reply(Some("STOP"), Some("")), "en"), Err("Empty response".to_string()));
    assert_eq!(interpret_reply(&reply(Some("STOP"), None), "ko"), Err("빈 응답".to_string()));
}

#[test]
fn unparsable_body_is_an_error() {
    assert_eq!(interpret_body(None, "en"), Err("Failed to parse response".to_string()));
    assert_eq!(interpret_body(None, "ko"), Err("응답 파싱 실패".to_string()));
    assert_eq!(interpret_body(Some(&reply(Some("STOP"), Some("a"))), "en"), Ok("a".to_string()));
}

#[test]
fn server_failure_then_rate_limit_ends_the_call() {
    let first = status_step(1, 503, "en");
    let next = match first {
        StatusStep::Retry { delay_secs: 1, next_attempt } => next_attempt,
        _ => panic!("expected a retry"),
    };
    assert_eq!(
        fail(status_step(next, 429, "en")),
        "Free quota exceeded — 15/min, 1500/day.\nWait a moment and try 🔄 Retry."
    );
}

#[test]
fn longest_wait_is_eleven_seconds() {
    let mut attempt = 1;
    let mut waited = 0;
    let mut sent = 0;
    for status in [429u16, 500, 500, 500, 500] {
        sent += 1;
        match status_step(attempt, status, "en") {
            StatusStep::Retry { delay_secs, next_attempt } => {
                waited += delay_secs;
                attempt = next_attempt;
            }
            _ => break,
        }
    }
    assert_eq!((sent, waited), (4, 11));
}
