//! A translation relay's core: reading a query's direction and text, and
//! turning a provider's reply into a translation result.
pub mod text;
pub mod types;
pub mod interpret;
pub mod provider;
pub mod articles;

pub use types::{
    Config, LanguageCode, ParsedInlineQuery, ProviderTranslationPayload, TranslationRequest,
    TranslationResult,
};
