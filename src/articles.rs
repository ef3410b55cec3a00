//! The entries shown to a user: a translation's candidates, the help entry and
//! the error entry.
use crate::text::{
    format_segments_for_display, lemma_join_push, segments_joined, shortened, truncate, join,
};
use crate::types::{code_of, opt_string_view, upper_code_of, LanguageCode, ParsedInlineQuery, TranslationResult};
use vstd::prelude::*;

verus! {

/// Descriptions are cut to this many characters.
pub const DESCRIPTION_LENGTH: usize = 80;

/// At most this many alternatives are listed.
pub const MAX_ALTERNATIVES: usize = 3;

/// One display candidate: a fresh identifier, a title, the message it sends and
/// a one-line description.
#[derive(Debug, Clone)]
pub struct Article {
    pub id: String,
    pub title: String,
    pub content: String,
    pub description: String,
}

/// What an article shows: title, content and description.
pub open spec fn article_view(a: Article) -> (Seq<char>, Seq<char>, Seq<char>) {
    (a.title@, a.content@, a.description@)
}

/// The header line of a direction, such as `🌐 EN → ZH`.
pub open spec fn header_of(src: LanguageCode, tgt: LanguageCode) -> Seq<char> {
    "🌐 "@ + upper_code_of(src) + " → "@ + upper_code_of(tgt)
}

/// The segments of a text, one per line.
pub open spec fn display_of(s: Seq<char>) -> Seq<char> {
    segments_joined(s, '\n')
}

/// The article whose body is `body` under the header, titled after its kind.
pub open spec fn entry_of(header: Seq<char>, kind: Seq<char>, body: Seq<char>, described: Seq<
    char,
>) -> (Seq<char>, Seq<char>, Seq<char>) {
    (
        header + " · "@ + kind,
        header + "\n"@ + body,
        shortened(described, DESCRIPTION_LENGTH as nat),
    )
}

/// The bullet lines of the listed alternatives.
pub open spec fn bullets(samples: Seq<Seq<char>>) -> Seq<char> {
    join(samples.map_values(|x: Seq<char>| "• "@ + x), '\n')
}

/// The alternatives that are listed, each shown one segment per line.
pub open spec fn alternative_samples(alts: Seq<String>) -> Seq<Seq<char>> {
    let n = if alts.len() < MAX_ALTERNATIVES {
        alts.len()
    } else {
        MAX_ALTERNATIVES as nat
    };
    Seq::new(n, |i: int| display_of(alts[i]@))
}

/// The candidates for a translation: the primary text, then the romanisation
/// where there is one, then the alternatives where there are any.
pub open spec fn translation_articles(
    src: LanguageCode,
    tgt: LanguageCode,
    primary: Seq<char>,
    romanized: Option<Seq<char>>,
    alts: Seq<String>,
) -> Seq<(Seq<char>, Seq<char>, Seq<char>)> {
    let h = header_of(src, tgt);
    let p = display_of(primary);
    let first = seq![entry_of(h, "Primary"@, p, p)];
    let with_rom = match romanized {
        Some(r) => first.push(entry_of(h, "Romanized"@, display_of(r), display_of(r))),
        None => first,
    };
    if alts.len() > 0 {
        let samples = alternative_samples(alts);
        with_rom.push(entry_of(h, "Alternatives"@, bullets(samples), samples[0]))
    } else {
        with_rom
    }
}

/// Relies on `uuid::Uuid::new_v4` and its `Display`: a fresh random identifier.
#[verifier::external_body]
fn new_article_id() -> (r: String) {
    uuid::Uuid::new_v4().to_string()
}

/// The header line of a query's direction.
pub fn header_line(src: LanguageCode, tgt: LanguageCode) -> (r: String)
    ensures
        r@ == header_of(src, tgt),
{
    let mut h = String::from_str("🌐 ");
    h.append(src.as_upper_code());
    h.append(" → ");
    h.append(tgt.as_upper_code());
    h
}

fn entry(header: &String, kind: &str, body: &String, described: &String) -> (r: Article)
    ensures
        article_view(r) == entry_of(header@, kind@, body@, described@),
{
    let mut title = header.clone();
    title.append(" · ");
    title.append(kind);
    let mut content = header.clone();
    content.append("\n");
    content.append(body.as_str());
    let description = truncate(described.as_str(), DESCRIPTION_LENGTH);
    Article { id: new_article_id(), title, content, description }
}

/// The bullet lines of `samples`.
fn bullet_lines(samples: &Vec<String>) -> (r: String)
    ensures
        r@ == bullets(samples@.map_values(|s: String| s@)),
{
    let ghost views = samples@.map_values(|s: String| s@);
    let ghost marked = views.map_values(|x: Seq<char>| "• "@ + x);
    let mut out = String::new();
    let mut i: usize = 0;
    while i < samples.len()
        invariant
            i <= samples.len(),
            views == samples@.map_values(|s: String| s@),
            marked == views.map_values(|x: Seq<char>| "• "@ + x),
            out@ == join(marked.take(i as int), '\n'),
        decreases samples.len() - i,
    {
        proof {
            lemma_join_push(marked.take(i as int), marked[i as int], '\n');
            assert(marked.take(i + 1) =~= marked.take(i as int).push(marked[i as int]));
            reveal_strlit("\n");
        }
        if i > 0 {
            out.append("\n");
        }
        out.append("• ");
        out.append(samples[i].as_str());
        i = i + 1;
    }
    assert(marked.take(samples.len() as int) =~= marked);
    out
}

/// The display candidates for a translation of `parsed`.
pub fn build_translation_articles(parsed: &ParsedInlineQuery, translation: &TranslationResult) -> (r:
    Vec<Article>)
    ensures
        r@.map_values(|a: Article| article_view(a)) == translation_articles(
            parsed.source_lang,
            parsed.target_lang,
            translation.primary_text@,
            opt_string_view(translation.romanized_text),
            translation.alternate_texts@,
        ),
{
    let header = header_line(parsed.source_lang, parsed.target_lang);
    let primary_display = format_segments_for_display(translation.primary_text.as_str());
    let mut results: Vec<Article> = Vec::new();
    results.push(entry(&header, "Primary", &primary_display, &primary_display));
    match &translation.romanized_text {
        Some(romanized) => {
            let shown = format_segments_for_display(romanized.as_str());
            results.push(entry(&header, "Romanized", &shown, &shown));
        },
        None => {},
    }
    let n = translation.alternate_texts.len();
    if n > 0 {
        let count = if n < MAX_ALTERNATIVES {
            n
        } else {
            MAX_ALTERNATIVES
        };
        let mut samples: Vec<String> = Vec::new();
        let mut i: usize = 0;
        while i < count
            invariant
                i <= count <= n,
                n == translation.alternate_texts@.len(),
                count == (if n < MAX_ALTERNATIVES {
                    n
                } else {
                    MAX_ALTERNATIVES
                }),
                samples@.len() == i,
                forall|k: int|
                    0 <= k < i ==> #[trigger] samples@[k]@ == display_of(
                        translation.alternate_texts@[k]@,
                    ),
            decreases count - i,
        {
            samples.push(format_segments_for_display(translation.alternate_texts[i].as_str()));
            i = i + 1;
        }
        let ghost want = alternative_samples(translation.alternate_texts@);
        assert(samples@.map_values(|s: String| s@) =~= want);
        let body = bullet_lines(&samples);
        let first = samples[0].clone();
        results.push(entry(&header, "Alternatives", &body, &first));
    }
    let ghost want = translation_articles(
        parsed.source_lang,
        parsed.target_lang,
        translation.primary_text@,
        opt_string_view(translation.romanized_text),
        translation.alternate_texts@,
    );
    assert(results@.map_values(|a: Article| article_view(a)) =~= want);
    results
}

/// The help text, naming the segment separator and the default direction.
pub open spec fn help_message(src: LanguageCode, tgt: LanguageCode) -> Seq<char> {
    "Type something after the bot handle. Use \"|\" to separate segments when you want grouped translations (topic | detail).\nExamples:\n• @yourbot en>zh: sustainability roadmap | 2025 goals\n• @yourbot zh>en: 开会推迟到几点?\nDefaults to "@
        + code_of(src) + "→"@ + code_of(tgt) + " when not detectable."@
}

/// The entry shown when a query holds nothing to translate.
pub fn build_help_article(default_source: LanguageCode, default_target: LanguageCode) -> (r:
    Article)
    ensures
        r.title@ == "How to translate"@,
        r.content@ == help_message(default_source, default_target),
        r.description@ == "Prefix with en>zh or zh>en, and use | to split sentences."@,
{
    let mut message = String::from_str(
        "Type something after the bot handle. Use \"|\" to separate segments when you want grouped translations (topic | detail).\nExamples:\n• @yourbot en>zh: sustainability roadmap | 2025 goals\n• @yourbot zh>en: 开会推迟到几点?\nDefaults to ",
    );
    message.append(default_source.as_code());
    message.append("→");
    message.append(default_target.as_code());
    message.append(" when not detectable.");
    Article {
        id: new_article_id(),
        title: String::from_str("How to translate"),
        content: message,
        description: String::from_str("Prefix with en>zh or zh>en, and use | to split sentences."),
    }
}

/// The entry shown when a translation failed, with the failure's message.
pub fn build_error_article(message: &str) -> (r: Article)
    ensures
        r.title@ == "Translation failed"@,
        r.content@ == "⚠️ Translation failed: "@ + message@,
        r.description@ == message@,
{
    let mut content = String::from_str("⚠️ Translation failed: ");
    content.append(message);
    Article {
        id: new_article_id(),
        title: String::from_str("Translation failed"),
        content,
        description: String::from_str(message),
    }
}

} // verus!
