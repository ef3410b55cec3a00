use inline_translator::articles::{
    build_error_article, build_help_article, build_translation_articles, header_line,
};
use inline_translator::{LanguageCode, ParsedInlineQuery, TranslationResult};

fn query() -> ParsedInlineQuery {
    ParsedInlineQuery {
        text: "hello|world".to_string(),
        source_lang: LanguageCode::En,
        target_lang: LanguageCode::Zh,
    }
}

#[test]
fn header_names_direction() {
    assert_eq!(header_line(LanguageCode::Zh, LanguageCode::En), "🌐 ZH → EN");
}

#[test]
fn primary_article_only() {
    let result = TranslationResult {
        primary_text: "你好 | 世界".to_string(),
        alternate_texts: vec![],
        romanized_text: None,
        provider_latency_ms: 1,
    };
    let articles = build_translation_articles(&query(), &result);
    assert_eq!(articles.len(), 1);
    assert_eq!(articles[0].title, "🌐 EN → ZH · Primary");
    assert_eq!(articles[0].content, "🌐 EN → ZH\n你好\n世界");
    assert_eq!(articles[0].description, "你好 世界");
    assert_eq!(articles[0].id.len(), 36);
}

#[test]
fn all_three_articles() {
    let result = TranslationResult {
        primary_text: "p".to_string(),
        alternate_texts: vec!["a|b".to_string(), "c".to_string(), "d".to_string(), "e".to_string()],
        romanized_text: Some("nǐ | hǎo".to_string()),
        provider_latency_ms: 1,
    };
    let articles = build_translation_articles(&query(), &result);
    assert_eq!(articles.len(), 3);
    assert_eq!(articles[1].title, "🌐 EN → ZH · Romanized");
    assert_eq!(articles[1].content, "🌐 EN → ZH\nnǐ\nhǎo");
    assert_eq!(articles[2].title, "🌐 EN → ZH · Alternatives");
    assert_eq!(articles[2].content, "🌐 EN → ZH\n• a\nb\n• c\n• d");
    assert_eq!(articles[2].description, "a b");
    assert_ne!(articles[0].id, articles[1].id);
}

#[test]
fn help_article_names_defaults() {
    let help = build_help_article(LanguageCode::En, LanguageCode::Zh);
    assert_eq!(help.title, "How to translate");
    assert!(help.content.ends_with("Defaults to en→zh when not detectable."));
    assert!(help.content.starts_with("Type something after the bot handle. Use \"|\""));
    assert_eq!(help.description, "Prefix with en>zh or zh>en, and use | to split sentences.");
}

#[test]
fn error_article_carries_message() {
    let err = build_error_article("timeout");
    assert_eq!(err.title, "Translation failed");
    assert_eq!(err.content, "⚠️ Translation failed: timeout");
    assert_eq!(err.description, "timeout");
}
