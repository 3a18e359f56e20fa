//! What every provider shares: the preambles of its structured calls, the
//! shapes of the replies it parses, and how a reply becomes a result.

use vstd::prelude::*;

use crate::book::output::{normalized_optional, opt_seq, StructuredChapter};
use crate::glossary::GlossaryTerm;
use crate::text::trim;
use crate::translate::prompt::{
    build_glossary_section, build_repair_prompt, build_style_section, glossary_section, repair_prompt,
    style_section,
};
use crate::translate::types::{ProviderGlossaryResult, ProviderTextResult, RepairRequest, TranslationUsage};

verus! {

/// How many times a structured extraction is retried.
pub const EXTRACTOR_RETRIES: u64 = 1;

/// The preamble of translation and repair calls.
pub const TRANSLATION_PREAMBLE: &'static str =
    "You are a professional translator. Always return valid JSON matching the expected schema.";

/// The preamble of glossary extraction calls.
pub const GLOSSARY_PREAMBLE: &'static str =
    "You extract glossary terms. Always return valid JSON matching the expected schema.";

/// The reply of a translation or repair call.
#[derive(Debug, Clone)]
pub struct TranslationOnlyResponse {
    pub chapter_number: Option<String>,
    pub chapter_title: Option<String>,
    pub content: String,
}

/// The reply of a glossary extraction call.
#[derive(Debug, Clone)]
pub struct GlossaryExtractionResponse {
    pub new_glossary_terms: Vec<GlossaryTerm>,
}

/// The result of a translation or repair reply: the chapter it holds,
/// normalized, and the usage reported with it.
pub fn text_result(response: TranslationOnlyResponse, usage: TranslationUsage) -> (r: ProviderTextResult)
    ensures
        opt_seq(r.chapter.chapter_number) == normalized_optional(response.chapter_number),
        opt_seq(r.chapter.chapter_title) == normalized_optional(response.chapter_title),
        r.chapter.content@ == trim(response.content@),
        r.usage == usage,
{
    let chapter = StructuredChapter {
        chapter_number: response.chapter_number,
        chapter_title: response.chapter_title,
        content: response.content,
    };
    ProviderTextResult { chapter: chapter.normalized(), usage }
}

/// The result of a glossary extraction reply: its terms as given, and the
/// usage reported with it.
pub fn glossary_result(response: GlossaryExtractionResponse, usage: TranslationUsage) -> (r:
    ProviderGlossaryResult)
    ensures
        r.new_glossary_terms@ == response.new_glossary_terms@,
        r.usage == usage,
{
    ProviderGlossaryResult { new_glossary_terms: response.new_glossary_terms, usage }
}

/// The prompt of a repair call: the repair request with the glossary and
/// style sections built from the request itself.
pub fn repair_request_prompt(req: &RepairRequest) -> (r: String)
    ensures
        r@ == repair_prompt(*req, glossary_section(req.glossary_terms@), style_section(req.style_guide)),
{
    let glossary = build_glossary_section(req.glossary_terms.as_slice());
    let style = build_style_section(&req.style_guide);
    build_repair_prompt(req, glossary.as_str(), style.as_str())
}

} // verus!
