//! Values that pass between the translation pipeline and its providers.

use vstd::prelude::*;

use crate::book::output::{OutputConfig, StructuredChapter};
use crate::glossary::GlossaryTerm;

verus! {

/// Token counts that a provider reports for one or more calls.
#[derive(Debug, Clone, Copy, Default, PartialEq, Eq)]
pub struct TranslationUsage {
    pub input_tokens: u64,
    pub output_tokens: u64,
    pub total_tokens: u64,
    pub cached_input_tokens: u64,
    pub cache_creation_input_tokens: u64,
}

/// No count of `a + b` overflows.
pub open spec fn usage_sum_fits(a: TranslationUsage, b: TranslationUsage) -> bool {
    &&& a.input_tokens + b.input_tokens <= u64::MAX
    &&& a.output_tokens + b.output_tokens <= u64::MAX
    &&& a.total_tokens + b.total_tokens <= u64::MAX
    &&& a.cached_input_tokens + b.cached_input_tokens <= u64::MAX
    &&& a.cache_creation_input_tokens + b.cache_creation_input_tokens <= u64::MAX
}

/// `a` and `b` added count by count.
pub open spec fn usage_plus(a: TranslationUsage, b: TranslationUsage) -> TranslationUsage {
    TranslationUsage {
        input_tokens: (a.input_tokens + b.input_tokens) as u64,
        output_tokens: (a.output_tokens + b.output_tokens) as u64,
        total_tokens: (a.total_tokens + b.total_tokens) as u64,
        cached_input_tokens: (a.cached_input_tokens + b.cached_input_tokens) as u64,
        cache_creation_input_tokens: (a.cache_creation_input_tokens + b.cache_creation_input_tokens) as u64,
    }
}

impl TranslationUsage {
    /// Usage with every count zero.
    pub open spec fn zero_spec() -> Self {
        TranslationUsage {
            input_tokens: 0,
            output_tokens: 0,
            total_tokens: 0,
            cached_input_tokens: 0,
            cache_creation_input_tokens: 0,
        }
    }

    /// Whether adding `other` overflows no count.
    pub fn fits_with(&self, other: Self) -> (r: bool)
        ensures
            r == usage_sum_fits(*self, other),
    {
        self.input_tokens <= u64::MAX - other.input_tokens
            && self.output_tokens <= u64::MAX - other.output_tokens
            && self.total_tokens <= u64::MAX - other.total_tokens
            && self.cached_input_tokens <= u64::MAX - other.cached_input_tokens
            && self.cache_creation_input_tokens <= u64::MAX - other.cache_creation_input_tokens
    }

    /// Usage with every count zero.
    pub fn zero() -> (r: Self)
        ensures
            r == Self::zero_spec(),
    {
        TranslationUsage {
            input_tokens: 0,
            output_tokens: 0,
            total_tokens: 0,
            cached_input_tokens: 0,
            cache_creation_input_tokens: 0,
        }
    }

    /// Adds `other`'s counts to these, count by count.
    pub fn add_assign(&mut self, other: Self)
        requires
            usage_sum_fits(*old(self), other),
        ensures
            final(self).input_tokens == old(self).input_tokens + other.input_tokens,
            final(self).output_tokens == old(self).output_tokens + other.output_tokens,
            final(self).total_tokens == old(self).total_tokens + other.total_tokens,
            final(self).cached_input_tokens == old(self).cached_input_tokens + other.cached_input_tokens,
            final(self).cache_creation_input_tokens == old(self).cache_creation_input_tokens
                + other.cache_creation_input_tokens,
    {
        self.input_tokens = self.input_tokens + other.input_tokens;
        self.output_tokens = self.output_tokens + other.output_tokens;
        self.total_tokens = self.total_tokens + other.total_tokens;
        self.cached_input_tokens = self.cached_input_tokens + other.cached_input_tokens;
        self.cache_creation_input_tokens = self.cache_creation_input_tokens
            + other.cache_creation_input_tokens;
    }
}

/// A provider's translation of a chapter, with the usage it reported.
pub struct ProviderTranslationResult {
    pub response: AcceptedTranslation,
    pub usage: TranslationUsage,
}

/// A structured chapter a provider returned, with the usage it reported.
pub struct ProviderTextResult {
    pub chapter: StructuredChapter,
    pub usage: TranslationUsage,
}

/// Glossary terms a provider extracted, with the usage it reported.
pub struct ProviderGlossaryResult {
    pub new_glossary_terms: Vec<GlossaryTerm>,
    pub usage: TranslationUsage,
}

/// An accepted translation, the glossary terms found with it, and why
/// extraction failed, if it did.
pub struct AcceptedTranslation {
    pub chapter: StructuredChapter,
    pub new_glossary_terms: Vec<GlossaryTerm>,
    pub glossary_extraction_error: Option<String>,
}

/// A request to translate a chapter.
pub struct TranslationRequest {
    pub chapter_markdown: String,
    pub glossary_terms: Vec<GlossaryTerm>,
    pub style_guide: Option<String>,
    pub output_config: OutputConfig,
}

/// A request to repair a translation that failed validation.
pub struct RepairRequest {
    pub chapter_markdown: String,
    pub glossary_terms: Vec<GlossaryTerm>,
    pub style_guide: Option<String>,
    pub failed_translation: String,
    pub validation_errors: Vec<String>,
    pub output_config: OutputConfig,
}

/// A request to extract new glossary terms from an accepted translation.
pub struct GlossaryExtractionRequest {
    pub chapter_markdown: String,
    pub translated_markdown: String,
    pub existing_glossary_terms: Vec<GlossaryTerm>,
}

} // verus!
