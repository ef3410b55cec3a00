//! The decisions of the translation client: the prompt it sends, how it judges
//! the provider's status, and how it decodes the content of a reply.
use crate::text::{trim, trimmed};
use crate::types::{
    code_of, opt_string_view, LanguageCode, ProviderTranslationPayload, TranslationRequest, TranslationResult,
};
use vstd::prelude::*;

verus! {

/// Why a translation call failed.
#[derive(Debug, Clone)]
pub enum TranslationError {
    /// The exchange did not complete: connection failure or timeout.
    Network { message: String },
    /// The provider answered with a status outside 200..=299.
    Status { status: u16, body: String },
    /// The provider's reply was not the JSON envelope expected.
    InvalidEnvelope { message: String },
    /// The envelope held no `choices[0].message.content` string.
    MissingContent,
}

/// The content decoded from a reply, and whether it came from the structured
/// payload or from the raw text.
#[derive(Debug, Clone)]
pub struct DecodedContent {
    pub payload: ProviderTranslationPayload,
    pub used_fallback: bool,
}

/// The path suffix of the chat-completion endpoint.
pub open spec fn completions_suffix() -> Seq<char> {
    "/chat/completions"@
}

/// The user message of a request: `src=<code>;tgt=<code>;text=<text>`.
pub open spec fn prompt_of(text: Seq<char>, src: LanguageCode, tgt: LanguageCode) -> Seq<char> {
    "src="@ + code_of(src) + ";tgt="@ + code_of(tgt) + ";text="@ + text
}

pub open spec fn is_first(s: Seq<char>, c: char, a: int) -> bool {
    0 <= a < s.len() && s[a] == c && forall|k: int| 0 <= k < a ==> s[k] != c
}

pub open spec fn is_last(s: Seq<char>, c: char, b: int) -> bool {
    0 <= b < s.len() && s[b] == c && forall|k: int| b < k < s.len() ==> s[k] != c
}

/// The part of a reply's content that should hold the JSON object: from the
/// first `{` to the last `}`, or the whole content where there is no such pair.
pub open spec fn json_candidate(s: Seq<char>) -> Seq<char> {
    if (exists|a: int| is_first(s, '{', a)) && (exists|b: int| is_last(s, '}', b)) {
        let a = choose|a: int| is_first(s, '{', a);
        let b = choose|b: int| is_last(s, '}', b);
        if a <= b {
            s.subrange(a, b + 1)
        } else {
            s
        }
    } else {
        s
    }
}

/// The romanisation kept in a result: the decoded one where it is not blank.
pub open spec fn kept_romanization(r: Option<String>) -> Option<Seq<char>> {
    match r {
        Some(s) => if trim(s@).len() > 0 {
            Some(s@)
        } else {
            None
        },
        None => None,
    }
}

/// The instruction that tells the provider what to return.
pub fn system_prompt() -> (r: &'static str)
    ensures
        r@ == "Translate src->tgt. JSON: {\"t\":\"translation\",\"r\":\"romanized_if_zh\"}. No alternatives. No commentary."@,
{
    "Translate src->tgt. JSON: {\"t\":\"translation\",\"r\":\"romanized_if_zh\"}. No alternatives. No commentary."
}

/// The user message that asks for `request`'s translation.
pub fn user_prompt(request: &TranslationRequest) -> (r: String)
    ensures
        r@ == prompt_of(request.text@, request.source_lang, request.target_lang),
{
    let mut out = String::from_str("src=");
    out.append(request.source_lang.as_code());
    out.append(";tgt=");
    out.append(request.target_lang.as_code());
    out.append(";text=");
    out.append(request.text.as_str());
    out
}

/// Whether an endpoint path already ends with `/chat/completions`; where it does
/// not, the client appends `chat/completions` to the configured URL.
pub fn has_completions_path(path: &str) -> (r: bool)
    ensures
        r == (path@.len() >= completions_suffix().len() && path@.subrange(
            path@.len() - completions_suffix().len(),
            path@.len() as int,
        ) == completions_suffix()),
{
    let suffix = "/chat/completions";
    let n = path.unicode_len();
    let m = suffix.unicode_len();
    if n < m {
        return false;
    }
    let tail = path.substring_char(n - m, n);
    let a = String::from_str(tail);
    let b = String::from_str(suffix);
    a == b
}

/// Judges the provider's HTTP status: success for 200..=299, else an error that
/// carries the status and the body.
pub fn check_status(status: u16, body: String) -> (r: Result<(), TranslationError>)
    ensures
        200 <= status <= 299 <==> r is Ok,
        r is Err ==> (match r {
            Err(TranslationError::Status { status: s, body: b }) => s == status && b@ == body@,
            _ => false,
        }),
{
    if 200 <= status && status <= 299 {
        Ok(())
    } else {
        Err(TranslationError::Status { status, body })
    }
}

/// The content string of a reply's envelope, or `MissingContent` where it has none.
pub fn require_content(content: Option<String>) -> (r: Result<String, TranslationError>)
    ensures
        match content {
            Some(c) => r is Ok && r->Ok_0@ == c@,
            None => r matches Err(TranslationError::MissingContent),
        },
{
    match content {
        Some(c) => Ok(c),
        None => Err(TranslationError::MissingContent),
    }
}

/// The part of `content` that should hold the JSON object.
pub fn extract_json_candidate(content: &str) -> (r: &str)
    ensures
        r@ == json_candidate(content@),
{
    let n = content.unicode_len();
    let mut a: usize = 0;
    while a < n && content.get_char(a) != '{'
        invariant
            a <= n,
            n == content@.len(),
            forall|k: int| 0 <= k < a ==> content@[k] != '{',
        decreases n - a,
    {
        a = a + 1;
    }
    if a == n {
        assert(!exists|x: int| is_first(content@, '{', x));
        return content;
    }
    assert(is_first(content@, '{', a as int));
    let mut b: usize = n;
    while b > 0 && content.get_char(b - 1) != '}'
        invariant
            b <= n,
            n == content@.len(),
            forall|k: int| b <= k < n ==> content@[k] != '}',
        decreases b,
    {
        b = b - 1;
    }
    if b == 0 {
        assert(!exists|x: int| is_last(content@, '}', x));
        return content;
    }
    assert(is_last(content@, '}', b - 1));
    let ghost ca = choose|x: int| is_first(content@, '{', x);
    let ghost cb = choose|x: int| is_last(content@, '}', x);
    assert(ca == a);
    assert(cb == b - 1);
    if a < b {
        content.substring_char(a, b)
    } else {
        content
    }
}

/// Decodes a reply's content given what the structured decode of its JSON
/// candidate gave: that payload where it succeeded, else the whole content,
/// trimmed, as the translation, with no alternatives and no romanisation.
pub fn decode_provider_content(content: &str, parsed: Option<ProviderTranslationPayload>) -> (r:
    DecodedContent)
    ensures
        match parsed {
            Some(p) => !r.used_fallback && r.payload == p,
            None => r.used_fallback && r.payload.translation@ == trim(content@)
                && r.payload.alternatives is None && r.payload.romanized is None,
        },
{
    match parsed {
        Some(p) => DecodedContent { payload: p, used_fallback: false },
        None => DecodedContent {
            payload: ProviderTranslationPayload {
                translation: String::from_str(trimmed(content)),
                alternatives: None,
                romanized: None,
            },
            used_fallback: true,
        },
    }
}

/// The result of a call from its decoded payload: the translation, no
/// alternatives whatever the payload held, and the romanisation where it is not blank.
pub fn build_translation_result(payload: ProviderTranslationPayload, latency_ms: u128) -> (r:
    TranslationResult)
    ensures
        r.primary_text@ == payload.translation@,
        r.alternate_texts@.len() == 0,
        opt_string_view(r.romanized_text) == kept_romanization(payload.romanized),
        r.provider_latency_ms == latency_ms,
{
    let romanized_text = match payload.romanized {
        Some(s) => {
            if trimmed(s.as_str()).unicode_len() > 0 {
                Some(s)
            } else {
                None
            }
        },
        None => None,
    };
    TranslationResult {
        primary_text: payload.translation,
        alternate_texts: Vec::new(),
        romanized_text,
        provider_latency_ms: latency_ms,
    }
}

} // verus!
