//! Reading a raw query: an explicit direction prefix, or a direction guessed
//! from the script and the detected language, and the normalised text.
use crate::text::{
    is_whitespace_char, is_ws, lemma_blank_normalizes_to_empty, lemma_trim_shape,
    normalize_segments, normalized, take_chars, trim, trimmed, SEGMENT_DELIMITER,
};
use crate::types::{code_at, language_at, opt_string_view, LanguageCode, ParsedInlineQuery};
use vstd::prelude::*;

verus! {

/// Queries are cut to this many characters before their segments are normalised.
pub const MAX_TEXT_LENGTH: usize = 2048;

/// The first index at or after `i` that does not hold whitespace.
pub open spec fn skip_ws(t: Seq<char>, i: int) -> int
    decreases t.len() - i,
{
    if 0 <= i < t.len() && is_ws(t[i]) {
        skip_ws(t, i + 1)
    } else {
        i
    }
}

/// Where an arrow (`>` or `->`) that starts at `i` ends.
pub open spec fn arrow_end(t: Seq<char>, i: int) -> Option<int> {
    if 0 <= i < t.len() && t[i] == '>' {
        Some(i + 1)
    } else if 0 <= i && i + 1 < t.len() && t[i] == '-' && t[i + 1] == '>' {
        Some(i + 2)
    } else {
        None
    }
}

/// The direction prefix at the start of `t`: a code, an arrow, a code and an
/// optional colon, with any whitespace between them and after the second code;
/// codes in any case. Gives the source, the target and where the prefix ends.
pub open spec fn direction_prefix(t: Seq<char>) -> Option<(LanguageCode, LanguageCode, int)> {
    match code_at(t, 0) {
        None => None,
        Some(src) => match arrow_end(t, skip_ws(t, 2)) {
            None => None,
            Some(p) => {
                let q = skip_ws(t, p);
                match code_at(t, q) {
                    None => None,
                    Some(tgt) => {
                        let e = skip_ws(t, q + 2);
                        let end = if e < t.len() && t[e] == ':' {
                            e + 1
                        } else {
                            e
                        };
                        Some((src, tgt, end))
                    },
                }
            },
        },
    }
}

/// Ideographs and CJK symbols and punctuation, kana included.
pub open spec fn is_cjk(c: char) -> bool {
    let v = c as u32;
    (0x3000 <= v <= 0x30ff) || (0x3400 <= v <= 0x4dbf) || (0x4e00 <= v <= 0x9fff) || (0xf900
        <= v <= 0xfaff)
}

pub open spec fn is_latin_letter(c: char) -> bool {
    ('a' <= c <= 'z') || ('A' <= c <= 'Z')
}

pub open spec fn has_cjk(t: Seq<char>) -> bool {
    exists|i: int| 0 <= i < t.len() && is_cjk(#[trigger] t[i])
}

pub open spec fn has_latin(t: Seq<char>) -> bool {
    exists|i: int| 0 <= i < t.len() && is_latin_letter(#[trigger] t[i])
}

/// The three-letter ISO 639-3 code of the language that the statistical
/// detector finds in a text, if it finds one.
pub uninterp spec fn detected_code(text: Seq<char>) -> Option<Seq<char>>;

/// The direction guessed for `t` given what the detector found in it: Chinese
/// script first, then the detected language, then Latin letters, then the defaults.
pub open spec fn direction_for(
    t: Seq<char>,
    detected: Option<Seq<char>>,
    default_source: LanguageCode,
    default_target: LanguageCode,
) -> (LanguageCode, LanguageCode) {
    if has_cjk(t) {
        (LanguageCode::Zh, LanguageCode::En)
    } else if detected == Some("eng"@) {
        (LanguageCode::En, LanguageCode::Zh)
    } else if detected == Some("cmn"@) {
        (LanguageCode::Zh, LanguageCode::En)
    } else if has_latin(t) {
        (LanguageCode::En, LanguageCode::Zh)
    } else {
        (default_source, default_target)
    }
}

/// What a raw query means: its normalised text, source and target, or nothing
/// where it holds no text.
pub open spec fn interpret(
    raw: Seq<char>,
    default_source: LanguageCode,
    default_target: LanguageCode,
) -> Option<(Seq<char>, LanguageCode, LanguageCode)> {
    let t = trim(raw);
    if t.len() == 0 {
        None
    } else {
        let (src, tgt, portion) = match direction_prefix(t) {
            Some(m) => (m.0, m.1, trim(t.subrange(m.2, t.len() as int))),
            None => {
                let d = direction_for(t, detected_code(t), default_source, default_target);
                (d.0, d.1, t)
            },
        };
        let text = normalized(take_chars(portion, MAX_TEXT_LENGTH as nat));
        if text.len() == 0 {
            None
        } else {
            Some((text, src, tgt))
        }
    }
}

pub open spec fn query_view(q: Option<ParsedInlineQuery>) -> Option<
    (Seq<char>, LanguageCode, LanguageCode),
> {
    match q {
        Some(p) => Some((p.text@, p.source_lang, p.target_lang)),
        None => None,
    }
}

/// Relies on `whatlang::detect` and `Lang::code`: the ISO 639-3 code of the
/// language detected in `text`. The detector keeps no state between calls and
/// sorts its trigram counts before use, so the result depends on the text alone.
#[verifier::external_body]
fn detect_language(text: &str) -> (r: Option<String>)
    ensures
        opt_string_view(r) == detected_code(text@),
{
    whatlang::detect(text).map(|info| info.lang().code().to_string())
}

fn skip_whitespace(t: &str, i: usize) -> (r: usize)
    requires
        i <= t@.len(),
    ensures
        r as int == skip_ws(t@, i as int),
        i <= r <= t@.len(),
{
    let n = t.unicode_len();
    let mut j = i;
    while j < n && is_whitespace_char(t.get_char(j))
        invariant
            i <= j <= n,
            n == t@.len(),
            skip_ws(t@, i as int) == skip_ws(t@, j as int),
        decreases n - j,
    {
        j = j + 1;
    }
    j
}

/// The direction prefix at the start of `t`, as `direction_prefix` describes it.
pub fn match_direction_prefix(t: &str) -> (r: Option<(LanguageCode, LanguageCode, usize)>)
    ensures
        match r {
            Some(m) => direction_prefix(t@) == Some((m.0, m.1, m.2 as int)) && m.2 <= t@.len(),
            None => direction_prefix(t@) is None,
        },
{
    let n = t.unicode_len();
    let src = match language_at(t, 0) {
        Some(l) => l,
        None => return None,
    };
    let a = skip_whitespace(t, 2);
    let p = if a < n && t.get_char(a) == '>' {
        a + 1
    } else if a < n && a + 1 < n && t.get_char(a) == '-' && t.get_char(a + 1) == '>' {
        a + 2
    } else {
        return None;
    };
    let q = skip_whitespace(t, p);
    let tgt = match language_at(t, q) {
        Some(l) => l,
        None => return None,
    };
    let e = skip_whitespace(t, q + 2);
    let end = if e < n && t.get_char(e) == ':' {
        e + 1
    } else {
        e
    };
    Some((src, tgt, end))
}

/// Whether `t` holds a character of Chinese script when
/// `cjk`, else an ASCII letter.
fn contains_class(t: &str, cjk: bool) -> (r: bool)
    ensures
        r == (if cjk {
            has_cjk(t@)
        } else {
            has_latin(t@)
        }),
{
    let n = t.unicode_len();
    let mut i: usize = 0;
    while i < n
        invariant
            i <= n,
            n == t@.len(),
            forall|k: int|
                0 <= k < i ==> !(if cjk {
                    is_cjk(#[trigger] t@[k])
                } else {
                    is_latin_letter(t@[k])
                }),
        decreases n - i,
    {
        let c = t.get_char(i);
        let v = c as u32;
        let hit = if cjk {
            (0x3000 <= v && v <= 0x30ff) || (0x3400 <= v && v <= 0x4dbf) || (0x4e00 <= v && v
                <= 0x9fff) || (0xf900 <= v && v <= 0xfaff)
        } else {
            ('a' <= c && c <= 'z') || ('A' <= c && c <= 'Z')
        };
        if hit {
            assert(t@[i as int] == c);
            return true;
        }
        i = i + 1;
    }
    false
}

/// The direction for a query without a prefix, given what the detector found
/// in it (`detected`: a three-letter language code).
pub fn choose_direction(
    text: &str,
    detected: Option<String>,
    default_source: LanguageCode,
    default_target: LanguageCode,
) -> (r: (LanguageCode, LanguageCode))
    ensures
        r == direction_for(text@, opt_string_view(detected), default_source, default_target),
{
    if contains_class(text, true) {
        return (LanguageCode::Zh, LanguageCode::En);
    }
    if let Some(code) = detected {
        let eng = String::from_str("eng");
        let cmn = String::from_str("cmn");
        if code == eng {
            return (LanguageCode::En, LanguageCode::Zh);
        }
        if code == cmn {
            return (LanguageCode::Zh, LanguageCode::En);
        }
    }
    if contains_class(text, false) {
        return (LanguageCode::En, LanguageCode::Zh);
    }
    (default_source, default_target)
}

/// The direction for a query without a prefix, using the statistical detector.
pub fn auto_detect_direction(
    text: &str,
    default_source: LanguageCode,
    default_target: LanguageCode,
) -> (r: (LanguageCode, LanguageCode))
    ensures
        r == direction_for(text@, detected_code(text@), default_source, default_target),
{
    let detected = detect_language(text);
    choose_direction(text, detected, default_source, default_target)
}

/// Reads a raw query: its direction (from a prefix, or guessed) and its
/// normalised text; nothing where no text is left.
pub fn parse_inline_query(
    raw_query: &str,
    default_source: LanguageCode,
    default_target: LanguageCode,
) -> (r: Option<ParsedInlineQuery>)
    ensures
        query_view(r) == interpret(raw_query@, default_source, default_target),
{
    let t = trimmed(raw_query);
    let n = t.unicode_len();
    if n == 0 {
        return None;
    }
    let (source_lang, target_lang, portion) = match match_direction_prefix(t) {
        Some((src, tgt, end)) => (src, tgt, trimmed(t.substring_char(end, n))),
        None => {
            let (src, tgt) = auto_detect_direction(t, default_source, default_target);
            (src, tgt, t)
        },
    };
    let len = portion.unicode_len();
    let keep = if len <= MAX_TEXT_LENGTH {
        len
    } else {
        MAX_TEXT_LENGTH
    };
    let cut = portion.substring_char(0, keep);
    assert(cut@ =~= take_chars(portion@, MAX_TEXT_LENGTH as nat));
    let text = normalize_segments(cut);
    if text.unicode_len() == 0 {
        None
    } else {
        Some(ParsedInlineQuery { text, source_lang, target_lang })
    }
}

/// A query that starts with a direction prefix is read in that direction,
/// whatever the defaults, and its text is what follows the prefix, never the
/// prefix itself.
pub proof fn lemma_explicit_direction(
    raw: Seq<char>,
    default_source: LanguageCode,
    default_target: LanguageCode,
    other_source: LanguageCode,
    other_target: LanguageCode,
    src: LanguageCode,
    tgt: LanguageCode,
    end: int,
)
    requires
        direction_prefix(trim(raw)) == Some((src, tgt, end)),
    ensures
        ({
            let t = trim(raw);
            let text = normalized(take_chars(trim(t.subrange(end, t.len() as int)), MAX_TEXT_LENGTH as nat));
            interpret(raw, default_source, default_target) == if text.len() == 0 {
                None
            } else {
                Some((text, src, tgt))
            }
        }),
        interpret(raw, default_source, default_target) == interpret(raw, other_source, other_target),
{
}

/// Two characters that are equal once ASCII capitals are made lower case.
pub open spec fn same_ignoring_case(a: char, b: char) -> bool {
    a == b || (65 <= a as u32 <= 90 && (a as u32) + 32 == b as u32) || (65 <= b as u32 <= 90
        && (b as u32) + 32 == a as u32)
}

proof fn lemma_skip_ws_case(t: Seq<char>, u: Seq<char>, i: int)
    requires
        t.len() == u.len(),
        forall|k: int| 0 <= k < t.len() ==> #[trigger] same_ignoring_case(t[k], u[k]),
    ensures
        skip_ws(t, i) == skip_ws(u, i),
        skip_ws(t, i) >= i,
    decreases t.len() - i,
{
    if 0 <= i < t.len() {
        assert(same_ignoring_case(t[i], u[i]));
        assert(is_ws(t[i]) == is_ws(u[i]));
        if is_ws(t[i]) {
            lemma_skip_ws_case(t, u, i + 1);
        }
    }
}

/// The direction prefix does not depend on the case in which its codes are written.
pub proof fn lemma_prefix_ignores_case(t: Seq<char>, u: Seq<char>)
    requires
        t.len() == u.len(),
        forall|k: int| 0 <= k < t.len() ==> #[trigger] same_ignoring_case(t[k], u[k]),
    ensures
        direction_prefix(t) == direction_prefix(u),
{
    assert forall|i: int| #[trigger] code_at(t, i) == code_at(u, i) by {
        if 0 <= i && i + 2 <= t.len() {
            assert(same_ignoring_case(t[i], u[i]));
            assert(same_ignoring_case(t[i + 1], u[i + 1]));
        }
    }
    lemma_skip_ws_case(t, u, 2);
    let a = skip_ws(t, 2);
    if 0 <= a < t.len() {
        assert(same_ignoring_case(t[a], u[a]));
    }
    if 0 <= a && a + 1 < t.len() {
        assert(same_ignoring_case(t[a + 1], u[a + 1]));
    }
    assert(arrow_end(t, a) == arrow_end(u, a));
    if let Some(p) = arrow_end(t, a) {
        lemma_skip_ws_case(t, u, p);
        let q = skip_ws(t, p);
        lemma_skip_ws_case(t, u, q + 2);
        let e = skip_ws(t, q + 2);
        if 0 <= e < t.len() {
            assert(same_ignoring_case(t[e], u[e]));
            assert((t[e] == ':') == (u[e] == ':'));
        }
    }
}

/// A query made of whitespace and segment delimiters only is no query.
pub proof fn lemma_blank_query(
    raw: Seq<char>,
    default_source: LanguageCode,
    default_target: LanguageCode,
)
    requires
        forall|k: int| 0 <= k < raw.len() ==> is_ws(#[trigger] raw[k]) || raw[k] == SEGMENT_DELIMITER,
    ensures
        interpret(raw, default_source, default_target) is None,
{
    let t = trim(raw);
    lemma_trim_shape(raw);
    assert forall|k: int| 0 <= k < t.len() implies is_ws(#[trigger] t[k]) || t[k] == SEGMENT_DELIMITER by {
        let m = choose|m: int| 0 <= m < raw.len() && t[k] == raw[m];
        assert(is_ws(raw[m]) || raw[m] == SEGMENT_DELIMITER);
    }
    if t.len() > 0 {
        assert(is_ws(t[0]) || t[0] == SEGMENT_DELIMITER);
        assert(code_at(t, 0) is None);
        let c = take_chars(t, MAX_TEXT_LENGTH as nat);
        assert forall|k: int| 0 <= k < c.len() implies is_ws(#[trigger] c[k]) || c[k] == SEGMENT_DELIMITER by {
            assert(c[k] == t[k]);
        }
        lemma_blank_normalizes_to_empty(c);
    }
}

} // verus!
