//! The values that flow through the pipeline.
use vstd::prelude::*;

verus! {

/// One of the two languages the relay translates between.
#[derive(Debug, Clone, Copy, PartialEq, Eq, Structural)]
pub enum LanguageCode {
    En,
    Zh,
}

/// The lower-case two-letter code of a language.
pub open spec fn code_of(l: LanguageCode) -> Seq<char> {
    match l {
        LanguageCode::En => "en"@,
        LanguageCode::Zh => "zh"@,
    }
}

/// The upper-case two-letter code of a language.
pub open spec fn upper_code_of(l: LanguageCode) -> Seq<char> {
    match l {
        LanguageCode::En => "EN"@,
        LanguageCode::Zh => "ZH"@,
    }
}

/// Whether `c` is the letter `lower` in either case (`lower` is an ASCII
/// lower-case letter).
pub open spec fn letter_is(c: char, lower: char) -> bool {
    c as u32 == lower as u32 || (c as u32) + 32 == lower as u32
}

/// The language named by the two characters of `s` starting at `i`, in any case.
pub open spec fn code_at(s: Seq<char>, i: int) -> Option<LanguageCode> {
    if 0 <= i && i + 2 <= s.len() && letter_is(s[i], 'e') && letter_is(s[i + 1], 'n') {
        Some(LanguageCode::En)
    } else if 0 <= i && i + 2 <= s.len() && letter_is(s[i], 'z') && letter_is(s[i + 1], 'h') {
        Some(LanguageCode::Zh)
    } else {
        None
    }
}

/// The language that a whole string names, compared without regard to case.
pub open spec fn parse_code(s: Seq<char>) -> Option<LanguageCode> {
    if s.len() == 2 {
        code_at(s, 0)
    } else {
        None
    }
}

/// Whether `c` is the ASCII letter `lower` in either case.
pub fn char_is_letter(c: char, lower: char) -> (r: bool)
    requires
        'a' <= lower <= 'z',
    ensures
        r == letter_is(c, lower),
{
    let v = c as u32 as u64;
    v == lower as u32 as u64 || v + 32 == lower as u32 as u64
}

/// The language named by the two characters of `s` starting at `i`.
pub fn language_at(s: &str, i: usize) -> (r: Option<LanguageCode>)
    ensures
        r == code_at(s@, i as int),
{
    let n = s.unicode_len();
    if i > n || n - i < 2 {
        return None;
    }
    let c0 = s.get_char(i);
    let c1 = s.get_char(i + 1);
    if char_is_letter(c0, 'e') && char_is_letter(c1, 'n') {
        Some(LanguageCode::En)
    } else if char_is_letter(c0, 'z') && char_is_letter(c1, 'h') {
        Some(LanguageCode::Zh)
    } else {
        None
    }
}

impl LanguageCode {
    /// Parses a two-letter code without regard to case.
    pub fn from_code(s: &str) -> (r: Option<LanguageCode>)
        ensures
            r == parse_code(s@),
    {
        if s.unicode_len() == 2 {
            language_at(s, 0)
        } else {
            None
        }
    }

    /// The lower-case code, as the language is written in prompts and settings.
    pub fn as_code(&self) -> (r: &'static str)
        ensures
            r@ == code_of(*self),
    {
        match self {
            LanguageCode::En => "en",
            LanguageCode::Zh => "zh",
        }
    }

    /// The upper-case code, as the language is written in headers.
    pub fn as_upper_code(&self) -> (r: &'static str)
        ensures
            r@ == upper_code_of(*self),
    {
        match self {
            LanguageCode::En => "EN",
            LanguageCode::Zh => "ZH",
        }
    }

    /// The lower-case code as an owned string.
    pub fn to_code_string(&self) -> (r: String)
        ensures
            r@ == code_of(*self),
    {
        String::from_str(self.as_code())
    }
}

impl std::str::FromStr for LanguageCode {
    type Err = ();

    fn from_str(s: &str) -> Result<LanguageCode, ()> {
        match LanguageCode::from_code(s) {
            Some(l) => Ok(l),
            None => Err(()),
        }
    }
}

/// The text of an optional string.
pub open spec fn opt_string_view(o: Option<String>) -> Option<Seq<char>> {
    match o {
        Some(s) => Some(s@),
        None => None,
    }
}

/// The input of the translation client.
#[derive(Debug, Clone)]
pub struct TranslationRequest {
    pub text: String,
    pub source_lang: LanguageCode,
    pub target_lang: LanguageCode,
}

/// A query that the interpreter recognised: normalised text and a direction.
#[derive(Debug, Clone)]
pub struct ParsedInlineQuery {
    pub text: String,
    pub source_lang: LanguageCode,
    pub target_lang: LanguageCode,
}

impl ParsedInlineQuery {
    /// The request that asks for this query's translation.
    pub fn to_request(&self) -> (r: TranslationRequest)
        ensures
            r.text@ == self.text@,
            r.source_lang == self.source_lang,
            r.target_lang == self.target_lang,
    {
        TranslationRequest {
            text: self.text.clone(),
            source_lang: self.source_lang,
            target_lang: self.target_lang,
        }
    }
}

/// A finished translation.
#[derive(Debug, Clone)]
pub struct TranslationResult {
    pub primary_text: String,
    pub alternate_texts: Vec<String>,
    pub romanized_text: Option<String>,
    pub provider_latency_ms: u128,
}

/// What the provider's reply held, once decoded.
#[derive(Debug, Clone)]
pub struct ProviderTranslationPayload {
    pub translation: String,
    pub alternatives: Option<Vec<String>>,
    pub romanized: Option<String>,
}

/// The settings the relay runs with.
#[derive(Debug, Clone)]
pub struct Config {
    pub bot_token: String,
    pub translation_api_url: String,
    pub translation_api_key: String,
    pub translation_model: String,
    pub default_source_lang: LanguageCode,
    pub default_target_lang: LanguageCode,
    pub http_timeout_ms: u64,
}

} // verus!
