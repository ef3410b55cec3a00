use inline_translator::provider::{
    build_translation_result, check_status, decode_provider_content, extract_json_candidate,
    has_completions_path, require_content, system_prompt, user_prompt, TranslationError,
};
use inline_translator::{LanguageCode, ProviderTranslationPayload, TranslationRequest};

fn payload_from_json(candidate: &str) -> Option<ProviderTranslationPayload> {
    let value: serde_json::Value = serde_json::from_str(candidate).ok()?;
    let translation = value.get("t").or_else(|| value.get("translation"))?.as_str()?.to_string();
    let romanized = value
        .get("r")
        .or_else(|| value.get("romanized"))
        .and_then(|r| r.as_str())
        .map(|r| r.to_string());
    Some(ProviderTranslationPayload { translation, alternatives: None, romanized })
}

#[test]
fn prompt_names_codes_and_text() {
    let request = TranslationRequest {
        text: "hi | there".to_string(),
        source_lang: LanguageCode::En,
        target_lang: LanguageCode::Zh,
    };
    assert_eq!(user_prompt(&request), "src=en;tgt=zh;text=hi | there");
    assert!(system_prompt().contains("No commentary."));
}

#[test]
fn completions_path_is_recognised() {
    assert!(has_completions_path("/v1/chat/completions"));
    assert!(!has_completions_path("/v1/"));
    assert!(!has_completions_path("/completions"));
    assert!(!has_completions_path(""));
}

#[test]
fn success_statuses_pass() {
    assert!(check_status(200, String::new()).is_ok());
    assert!(check_status(299, String::new()).is_ok());
}

#[test]
fn failure_status_carries_code_and_body() {
    match check_status(404, "nope".to_string()) {
        Err(TranslationError::Status { status, body }) => {
            assert_eq!(status, 404);
            assert_eq!(body, "nope");
        }
        other => panic!("unexpected {:?}", other),
    }
    assert!(check_status(199, String::new()).is_err());
    assert!(check_status(500, String::new()).is_err());
}

#[test]
fn missing_content_is_an_error() {
    assert!(matches!(require_content(None), Err(TranslationError::MissingContent)));
    assert_eq!(require_content(Some("x".to_string())).unwrap(), "x");
}

#[test]
fn fenced_json_is_decoded() {
    let content = "Sure! ```json\n{\"t\":\"你好\",\"r\":\"nǐ hǎo\"}\n```";
    let candidate = extract_json_candidate(content);
    assert_eq!(candidate, "{\"t\":\"你好\",\"r\":\"nǐ hǎo\"}");
    let decoded = decode_provider_content(content, payload_from_json(candidate));
    assert!(!decoded.used_fallback);
    let result = build_translation_result(decoded.payload, 12);
    assert_eq!(result.primary_text, "你好");
    assert_eq!(result.romanized_text, Some("nǐ hǎo".to_string()));
    assert_eq!(result.provider_latency_ms, 12);
}

#[test]
fn prose_falls_back_to_raw_text() {
    let content = "I cannot translate that.";
    let candidate = extract_json_candidate(content);
    assert_eq!(candidate, content);
    let decoded = decode_provider_content(content, payload_from_json(candidate));
    assert!(decoded.used_fallback);
    let result = build_translation_result(decoded.payload, 0);
    assert_eq!(result.primary_text, "I cannot translate that.");
    assert_eq!(result.romanized_text, None);
}

#[test]
fn fallback_trims_content() {
    let decoded = decode_provider_content("  raw answer \n", None);
    assert_eq!(decoded.payload.translation, "raw answer");
    assert!(decoded.payload.alternatives.is_none());
    assert!(decoded.payload.romanized.is_none());
}

#[test]
fn braces_out_of_order_keep_whole_content() {
    assert_eq!(extract_json_candidate("}a{"), "}a{");
    assert_eq!(extract_json_candidate("x {a"), "x {a");
    assert_eq!(extract_json_candidate("a {b} c}"), "{b} c}");
}

#[test]
fn alternatives_are_always_dropped() {
    let payload = ProviderTranslationPayload {
        translation: "x".to_string(),
        alternatives: Some(vec!["y".to_string(), "z".to_string()]),
        romanized: Some("   ".to_string()),
    };
    let result = build_translation_result(payload, 5);
    assert!(result.alternate_texts.is_empty());
    assert_eq!(result.romanized_text, None);
}
