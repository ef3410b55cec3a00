use inline_translator::interpret::{
    auto_detect_direction, choose_direction, match_direction_prefix, parse_inline_query,
};
use inline_translator::text::{format_segments_for_display, normalize_segments, truncate};
use inline_translator::LanguageCode;

#[test]
fn language_code_parses_without_regard_to_case() {
    assert_eq!(LanguageCode::from_code("en"), Some(LanguageCode::En));
    assert_eq!(LanguageCode::from_code("EN"), Some(LanguageCode::En));
    assert_eq!(LanguageCode::from_code("zH"), Some(LanguageCode::Zh));
    assert_eq!(LanguageCode::from_code("fr"), None);
    assert_eq!(LanguageCode::from_code("eng"), None);
    assert_eq!(LanguageCode::from_code(""), None);
    let parsed: Result<LanguageCode, ()> = "Zh".parse();
    assert_eq!(parsed, Ok(LanguageCode::Zh));
    let bad: Result<LanguageCode, ()> = "de".parse();
    assert_eq!(bad, Err(()));
}

#[test]
fn language_code_renders_lowercase() {
    assert_eq!(LanguageCode::En.as_code(), "en");
    assert_eq!(LanguageCode::Zh.to_code_string(), "zh");
    assert_eq!(LanguageCode::Zh.as_upper_code(), "ZH");
}

#[test]
fn normalize_drops_blank_segments_and_trims() {
    assert_eq!(normalize_segments(" a | | b |c "), "a|b|c");
    assert_eq!(normalize_segments("  "), "");
    assert_eq!(normalize_segments("one"), "one");
}

#[test]
fn normalize_is_idempotent_on_normal_text() {
    let once = normalize_segments("topic | detail two|x");
    assert_eq!(once, "topic|detail two|x");
    assert_eq!(normalize_segments(&once), once);
}

#[test]
fn display_puts_segments_on_lines() {
    assert_eq!(format_segments_for_display("a | b ||c"), "a\nb\nc");
}

#[test]
fn truncate_makes_one_line() {
    assert_eq!(truncate("  hello\nworld\t ", 80), "hello world");
}

#[test]
fn truncate_cuts_long_lines_with_ellipsis() {
    let long = "a".repeat(100);
    let cut = truncate(&long, 80);
    assert_eq!(cut.chars().count(), 80);
    assert_eq!(cut, format!("{}…", "a".repeat(79)));
    let exact = "b".repeat(80);
    assert_eq!(truncate(&exact, 80), exact);
}

#[test]
fn explicit_prefix_sets_direction() {
    let q = parse_inline_query("en>zh: hello", LanguageCode::Zh, LanguageCode::En).unwrap();
    assert_eq!(q.text, "hello");
    assert_eq!(q.source_lang, LanguageCode::En);
    assert_eq!(q.target_lang, LanguageCode::Zh);
}

#[test]
fn explicit_prefix_ignores_case_and_spacing() {
    let q = parse_inline_query("  ZH -> En 你好 ", LanguageCode::En, LanguageCode::Zh).unwrap();
    assert_eq!(q.text, "你好");
    assert_eq!(q.source_lang, LanguageCode::Zh);
    assert_eq!(q.target_lang, LanguageCode::En);
    let q = parse_inline_query("En -> zh: x | y", LanguageCode::Zh, LanguageCode::En).unwrap();
    assert_eq!(q.text, "x|y");
    assert_eq!(q.source_lang, LanguageCode::En);
    assert_eq!(q.target_lang, LanguageCode::Zh);
}

#[test]
fn explicit_prefix_overrides_script() {
    let q = parse_inline_query("en>zh 开会", LanguageCode::En, LanguageCode::Zh).unwrap();
    assert_eq!(q.source_lang, LanguageCode::En);
    assert_eq!(q.target_lang, LanguageCode::Zh);
    assert_eq!(q.text, "开会");
}

#[test]
fn prefix_alone_is_no_query() {
    assert!(parse_inline_query("en>zh:", LanguageCode::En, LanguageCode::Zh).is_none());
}

#[test]
fn prefix_match_reports_its_end() {
    assert_eq!(
        match_direction_prefix("en > zh : rest"),
        Some((LanguageCode::En, LanguageCode::Zh, 9))
    );
    assert_eq!(match_direction_prefix("en = zh rest"), None);
    assert_eq!(match_direction_prefix("fr>zh rest"), None);
}

#[test]
fn chinese_text_goes_to_english() {
    let q = parse_inline_query("开会推迟到几点?", LanguageCode::En, LanguageCode::Zh).unwrap();
    assert_eq!(q.source_lang, LanguageCode::Zh);
    assert_eq!(q.target_lang, LanguageCode::En);
    assert_eq!(q.text, "开会推迟到几点?");
}

#[test]
fn english_text_goes_to_chinese() {
    let q = parse_inline_query("hello world", LanguageCode::Zh, LanguageCode::En).unwrap();
    assert_eq!(q.source_lang, LanguageCode::En);
    assert_eq!(q.target_lang, LanguageCode::Zh);
    assert_eq!(q.text, "hello world");
}

#[test]
fn delimiters_only_is_no_query() {
    assert!(parse_inline_query(" | | ", LanguageCode::En, LanguageCode::Zh).is_none());
    assert!(parse_inline_query("   ", LanguageCode::En, LanguageCode::Zh).is_none());
    assert!(parse_inline_query("", LanguageCode::En, LanguageCode::Zh).is_none());
}

#[test]
fn long_text_is_cut_to_2048_characters() {
    let long = "a".repeat(3000);
    let q = parse_inline_query(&long, LanguageCode::En, LanguageCode::Zh).unwrap();
    assert_eq!(q.text.chars().count(), 2048);
    let wide = "你".repeat(3000);
    let q = parse_inline_query(&wide, LanguageCode::En, LanguageCode::Zh).unwrap();
    assert_eq!(q.text.chars().count(), 2048);
    assert_eq!(q.text, "你".repeat(2048));
}

#[test]
fn choose_direction_follows_its_order() {
    let zh_en = (LanguageCode::Zh, LanguageCode::En);
    let en_zh = (LanguageCode::En, LanguageCode::Zh);
    assert_eq!(choose_direction("こんにちは", None, LanguageCode::En, LanguageCode::Zh), zh_en);
    assert_eq!(choose_direction("ab", Some("cmn".to_string()), LanguageCode::En, LanguageCode::Zh), zh_en);
    assert_eq!(choose_direction("123", Some("eng".to_string()), LanguageCode::Zh, LanguageCode::En), en_zh);
    assert_eq!(choose_direction("bonjour", Some("fra".to_string()), LanguageCode::Zh, LanguageCode::En), en_zh);
    assert_eq!(choose_direction("123 !", Some("fra".to_string()), LanguageCode::Zh, LanguageCode::En), zh_en);
    assert_eq!(choose_direction("123 !", None, LanguageCode::En, LanguageCode::Zh), en_zh);
    assert_eq!(choose_direction("Привет", None, LanguageCode::Zh, LanguageCode::En), zh_en);
}

#[test]
fn detector_reads_english() {
    assert_eq!(
        auto_detect_direction(
            "There is no reason not to learn a new language today.",
            LanguageCode::Zh,
            LanguageCode::En
        ),
        (LanguageCode::En, LanguageCode::Zh)
    );
}

#[test]
fn detector_reads_mandarin_radicals() {
    // Kangxi radicals lie outside the ideograph blocks that the script check covers,
    // so only the detector can tell the direction here.
    assert_eq!(
        auto_detect_direction("⼈⼤⼝⼭⽔", LanguageCode::En, LanguageCode::Zh),
        (LanguageCode::Zh, LanguageCode::En)
    );
    let q = parse_inline_query("⼈⼤⼝⼭⽔", LanguageCode::En, LanguageCode::Zh).unwrap();
    assert_eq!(q.source_lang, LanguageCode::Zh);
}
