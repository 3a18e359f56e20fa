//! The prompts sent to providers: translation, repair and glossary
//! extraction.

use vstd::prelude::*;

use crate::book::output::OutputConfig;
use crate::glossary::GlossaryTerm;
use crate::text::{join, join_strings, lit, trim, trim_str};
use crate::translate::types::{GlossaryExtractionRequest, RepairRequest, TranslationRequest};

verus! {

/// The instructions every translation prompt starts from.
pub const BASE_PROMPT: &'static str = "You are an expert translator working on a serialized web novel. Your task is to translate a chapter from its original language (likely Korean or Chinese) into high-quality English prose.\n\n**Tone and Style Requirements:**\n\n1.  **Atmosphere:** Accurately capture the tone and atmosphere of the original text. If the source is serious and dramatic, the translation must be serious and dramatic. If it's lighthearted, keep it lighthearted.\n2.  **Dialogue:** Dialogue must be natural, dynamic, and appropriate for each character's personality and social standing. Avoid stiff, robotic, or overly literal translations. Characters should sound like real people.\n3.  **Pacing and Flow:** The narrative should flow smoothly. Pay attention to the rhythm of sentences and paragraphs. Do not break the pacing with awkward phrasing.\n4.  **Nuance:** Be sensitive to cultural nuances. If a direct translation doesn't convey the meaning in English, adapt it to a functional equivalent that captures the intent while maintaining the story's context.\n5.  **Readability:** The final text must be immersive and enjoyable for a native English speaker. Avoid transliteration (e.g., writing Korean words in English letters) unless it is a specific name or a sound effect.\n\n**Primary Goal:**\nProduce a translation that is both accurate to the source and captivating to read, ensuring the reader experiences the story as the author intended.";

/// The formatting rules a repair prompt restates.
pub const FORMATTING_REQUIREMENTS: &'static str = "**Formatting Requirements: [IMPORTANT]**\n\n  * The translated prose must remain proper Markdown.\n  * Preserve the original paragraph structure and line breaks. Do **not** merge paragraphs into a single block of text.\n  * Maintain proper spacing between paragraphs.\n  * Keep dialogue formatting intact (e.g., use of quotation marks and new lines for each speaker).";

pub const STYLE_0: &'static str = "\n\n**Style Guide:**\n\nFollow these additional style and tone instructions carefully:\n\n";

pub const STYLE_1: &'static str = "\n";

pub const TRANSLATION_0: &'static str = "**Project Overview & Core Task:**\n\n";

pub const TRANSLATION_1: &'static str = "\n";

pub const TRANSLATION_2: &'static str = "\n";

pub const TRANSLATION_3: &'static str = "\n**Glossary Requirements:**\n\nAdhere strictly to the established glossary below for consistency.\n\n**Established Glossary:**\n";

pub const TRANSLATION_4: &'static str = "\n\nDo not return glossary metadata or new glossary terms in this response. Glossary extraction is handled separately after the translation is accepted.\n\n**Text to Translate:**\n";

pub const TRANSLATION_5: &'static str = "\n\nReturn your response as a JSON object with exactly these fields:\n- \"chapter_number\": string or null\n- \"chapter_title\": string or null\n- \"content\": string containing the translated markdown body without the top heading";

pub const REPAIR_0: &'static str = "**Project Overview & Core Task:**\n\n";

pub const REPAIR_1: &'static str = "\n";

pub const REPAIR_2: &'static str = "\n";

pub const REPAIR_3: &'static str = "\n**Glossary Requirements:**\n\nAdhere strictly to the established glossary below for consistency.\n\n**Established Glossary:**\n";

pub const REPAIR_4: &'static str = "\n\n**REPAIR REQUEST:**\n\nYour previous translation had the following validation errors:\n";

pub const REPAIR_5: &'static str = "\n\n**Original text to translate:**\n";

pub const REPAIR_6: &'static str = "\n\n**Your previous (failed) translation:**\n";

pub const REPAIR_7: &'static str = "\n\nPlease fix the issues above and provide a corrected translation. Do not invent glossary entries or return any glossary metadata. Pay special attention to the validation errors listed.\n\n";

pub const REPAIR_8: &'static str = "\n\nReturn your response as a JSON object with exactly these fields:\n- \"chapter_number\": string or null\n- \"chapter_title\": string or null\n- \"content\": string containing the translated markdown body without the top heading";

pub const OUTPUT_0: &'static str = "**Structured Output Requirements: [IMPORTANT]**\n\nReturn semantic chapter fields, not final rendered markdown.\n\n- `chapter_number`: ";

pub const OUTPUT_1: &'static str = "";

pub const OUTPUT_2: &'static str = "\n- `chapter_title`: ";

pub const OUTPUT_3: &'static str = "";

pub const OUTPUT_4: &'static str = "\n- `content`: ";

pub const OUTPUT_5: &'static str = "";

pub const OUTPUT_6: &'static str = "\n\nThe final markdown will be rendered locally using this template:\n\n```text\n";

pub const OUTPUT_7: &'static str = "\n```\n\n`content` must contain only the main chapter body. Do not include the top heading inside `content`.";

pub const EXTRACTION_0: &'static str = "You are reviewing an accepted chapter translation for glossary extraction.\n\nIdentify only *new*, absolutely essential glossary terms that should be added for future chapters. Be **extremely** selective. A term should only be added if it meets **all** of the following criteria:\n\n1.  Has a specific non-English name requiring consistent translation.\n2.  Will definitely appear again (main characters/major locations only).\n3.  Would cause significant reader confusion if translated inconsistently.\n\nWhen in doubt, **do not** add the term. Format every extracted term with \"term\", \"og_term\", and \"definition\" fields. The \"og_term\" field should contain the original language term when known.\n\n**Existing glossary terms:**\n";

pub const EXTRACTION_1: &'static str = "\n\nDo not return terms that are already present in the existing glossary. If a term appears in the existing glossary, omit it even if it appears in this chapter.\n\n**Original source chapter:**\n";

pub const EXTRACTION_2: &'static str = "\n\n**Accepted translation:**\n";

pub const EXTRACTION_3: &'static str = "\n\nReturn your response as a JSON object with exactly one field:\n- \"new_glossary_terms\": array of glossary term objects";

/// The style section: the trimmed guide under its heading, or nothing when
/// there is no guide or it is blank.
pub open spec fn style_section(g: Option<String>) -> Seq<char> {
    match g {
        Some(s) => if trim(s@).len() > 0 {
            STYLE_0@ + trim(s@) + STYLE_1@
        } else {
            Seq::empty()
        },
        None => Seq::empty(),
    }
}

/// Builds the style section of a prompt.
pub fn build_style_section(style_guide: &Option<String>) -> (r: String)
    ensures
        r@ == style_section(*style_guide),
{
    match style_guide {
        Some(guide) => {
            let t = trim_str(guide.as_str());
            if t.as_str().is_empty() {
                String::new()
            } else {
                let mut r = lit(STYLE_0);
                r.append(t.as_str());
                r.append(STYLE_1);
                r
            }
        },
        None => String::new(),
    }
}

/// A glossary line: `term [original]: definition`, or `term: definition`.
pub open spec fn glossary_line(t: GlossaryTerm) -> Seq<char> {
    match t.og_term {
        Some(o) => t.term@ + " ["@ + o@ + "]: "@ + t.definition@,
        None => t.term@ + ": "@ + t.definition@,
    }
}

/// The glossary lines of some terms.
pub open spec fn glossary_lines(terms: Seq<GlossaryTerm>) -> Seq<Seq<char>> {
    terms.map_values(|t: GlossaryTerm| glossary_line(t))
}

/// The existing-term lines of some terms.
pub open spec fn existing_key_lines(terms: Seq<GlossaryTerm>) -> Seq<Seq<char>> {
    terms.map_values(|t: GlossaryTerm| existing_key_line(t))
}

/// The lines of an error list.
pub open spec fn error_lines(errors: Seq<String>) -> Seq<Seq<char>> {
    errors.map_values(|e: String| "- "@ + e@)
}

/// The glossary section: one line per term, or a note that there are none.
pub open spec fn glossary_section(terms: Seq<GlossaryTerm>) -> Seq<char> {
    if terms.len() == 0 {
        "(No glossary terms available)"@
    } else {
        join(glossary_lines(terms), "\n"@)
    }
}

/// The glossary section of some terms is one line per term, in order,
/// joined by newlines: each line begins with its term and ends with its
/// definition, and a term without an original gives exactly
/// `term: definition`.
pub proof fn law_glossary_section_lines(terms: Seq<GlossaryTerm>)
    requires
        terms.len() > 0,
    ensures
        glossary_section(terms) == join(glossary_lines(terms), "\n"@),
        glossary_lines(terms).len() == terms.len(),
        forall|i: int|
            0 <= i < terms.len() ==> {
                let line = #[trigger] glossary_lines(terms)[i];
                let t = terms[i];
                &&& line.len() >= t.term@.len() + t.definition@.len()
                &&& line.take(t.term@.len() as int) == t.term@
                &&& line.skip(line.len() - t.definition@.len()) == t.definition@
                &&& t.og_term is None ==> line == t.term@ + ": "@ + t.definition@
            },
{
    assert forall|i: int| 0 <= i < terms.len() implies {
        let line = #[trigger] glossary_lines(terms)[i];
        let t = terms[i];
        &&& line.len() >= t.term@.len() + t.definition@.len()
        &&& line.take(t.term@.len() as int) == t.term@
        &&& line.skip(line.len() - t.definition@.len()) == t.definition@
        &&& t.og_term is None ==> line == t.term@ + ": "@ + t.definition@
    } by {
        let line = glossary_lines(terms)[i];
        let t = terms[i];
        assert(line == glossary_line(t));
        match t.og_term {
            Some(o) => {
                let mid = " ["@ + o@ + "]: "@;
                assert(line =~= t.term@ + (mid + t.definition@));
                assert(line.take(t.term@.len() as int) =~= t.term@);
                assert(line.skip(line.len() - t.definition@.len()) =~= t.definition@);
            },
            None => {
                assert(line =~= t.term@ + (": "@ + t.definition@));
                assert(line.take(t.term@.len() as int) =~= t.term@);
                assert(line.skip(line.len() - t.definition@.len()) =~= t.definition@);
            },
        }
    }
}

/// Builds the glossary section of a prompt.
pub fn build_glossary_section(terms: &[GlossaryTerm]) -> (r: String)
    ensures
        r@ == glossary_section(terms@),
{
    if terms.len() == 0 {
        return lit("(No glossary terms available)");
    }
    let mut lines: Vec<String> = Vec::new();
    let mut i: usize = 0;
    while i < terms.len()
        invariant
            i <= terms.len(),
            lines@.len() == i,
            crate::text::views(lines@) == glossary_lines(terms@.take(i as int)),
        decreases terms.len() - i,
    {
        let t = &terms[i];
        let mut line = t.term.clone();
        match &t.og_term {
            Some(o) => {
                line.append(" [");
                line.append(o.as_str());
                line.append("]: ");
            },
            None => {
                line.append(": ");
            },
        }
        line.append(t.definition.as_str());
        assert(line@ == glossary_line(terms@[i as int]));
        proof {
            crate::text::lemma_views_push(lines@, line);
            assert(terms@.take(i + 1) =~= terms@.take(i as int).push(terms@[i as int]));
            assert(glossary_lines(terms@.take(i + 1)) =~= glossary_lines(terms@.take(i as int)).push(glossary_line(terms@[i as int])));
        }
        lines.push(line);
        i = i + 1;
        assert(crate::text::views(lines@) =~= glossary_lines(terms@.take(i as int)));
    }
    assert(terms@.take(terms.len() as int) =~= terms@);
    join_strings(&lines, "\n")
}

/// A line of the existing-terms list: `term [original]`, or `term`.
pub open spec fn existing_key_line(t: GlossaryTerm) -> Seq<char> {
    match t.og_term {
        Some(o) => t.term@ + " ["@ + o@ + "]"@,
        None => t.term@,
    }
}

/// The existing-terms section of an extraction prompt.
pub open spec fn existing_keys_section(terms: Seq<GlossaryTerm>) -> Seq<char> {
    if terms.len() == 0 {
        "(No existing glossary terms)"@
    } else {
        join(existing_key_lines(terms), "\n"@)
    }
}

/// Builds the existing-terms section of an extraction prompt.
pub fn build_existing_glossary_keys_section(terms: &[GlossaryTerm]) -> (r: String)
    ensures
        r@ == existing_keys_section(terms@),
{
    if terms.len() == 0 {
        return lit("(No existing glossary terms)");
    }
    let mut lines: Vec<String> = Vec::new();
    let mut i: usize = 0;
    while i < terms.len()
        invariant
            i <= terms.len(),
            lines@.len() == i,
            crate::text::views(lines@) == existing_key_lines(terms@.take(i as int)),
        decreases terms.len() - i,
    {
        let t = &terms[i];
        let mut line = t.term.clone();
        match &t.og_term {
            Some(o) => {
                line.append(" [");
                line.append(o.as_str());
                line.append("]");
            },
            None => {},
        }
        assert(line@ == existing_key_line(terms@[i as int]));
        proof {
            crate::text::lemma_views_push(lines@, line);
            assert(terms@.take(i + 1) =~= terms@.take(i as int).push(terms@[i as int]));
            assert(existing_key_lines(terms@.take(i + 1)) =~= existing_key_lines(terms@.take(i as int)).push(existing_key_line(terms@[i as int])));
        }
        lines.push(line);
        i = i + 1;
        assert(crate::text::views(lines@) =~= existing_key_lines(terms@.take(i as int)));
    }
    assert(terms@.take(terms.len() as int) =~= terms@);
    join_strings(&lines, "\n")
}

/// The marker of a field's requirement.
pub open spec fn required_suffix(required: bool) -> Seq<char> {
    if required {
        " (required)"@
    } else {
        " (optional)"@
    }
}

fn required_suffix_exec(required: bool) -> (r: &'static str)
    ensures
        r@ == required_suffix(required),
{
    if required {
        " (required)"
    } else {
        " (optional)"
    }
}

/// A field description, or its default.
pub open spec fn description_or(d: Option<String>, default: Seq<char>) -> Seq<char> {
    match d {
        Some(s) => s@,
        None => default,
    }
}

/// The structured-output section: each field's description and
/// requirement, and the template the chapter is rendered with.
pub open spec fn output_section(c: OutputConfig) -> Seq<char> {
    OUTPUT_0@ + description_or(c.fields.chapter_number.description, "Chapter number when one is present"@)
        + OUTPUT_1@ + required_suffix(c.fields.chapter_number.required) + OUTPUT_2@ + description_or(
        c.fields.chapter_title.description,
        "Chapter title when one is present"@,
    ) + OUTPUT_3@ + required_suffix(c.fields.chapter_title.required) + OUTPUT_4@ + description_or(
        c.fields.content.description,
        "Main translated chapter body in markdown, excluding the top heading"@,
    ) + OUTPUT_5@ + required_suffix(c.fields.content.required) + OUTPUT_6@ + c.render.template@ + OUTPUT_7@
}

fn description_or_exec(d: &Option<String>, default: &str) -> (r: String)
    ensures
        r@ == description_or(*d, default@),
{
    match d {
        Some(s) => s.clone(),
        None => lit(default),
    }
}

/// Builds the structured-output section of a prompt.
pub fn build_output_section(config: &OutputConfig) -> (r: String)
    ensures
        r@ == output_section(*config),
{
    let mut r = lit(OUTPUT_0);
    let a = description_or_exec(&config.fields.chapter_number.description, "Chapter number when one is present");
    r.append(a.as_str());
    r.append(OUTPUT_1);
    r.append(required_suffix_exec(config.fields.chapter_number.required));
    r.append(OUTPUT_2);
    let b = description_or_exec(&config.fields.chapter_title.description, "Chapter title when one is present");
    r.append(b.as_str());
    r.append(OUTPUT_3);
    r.append(required_suffix_exec(config.fields.chapter_title.required));
    r.append(OUTPUT_4);
    let c = description_or_exec(
        &config.fields.content.description,
        "Main translated chapter body in markdown, excluding the top heading",
    );
    r.append(c.as_str());
    r.append(OUTPUT_5);
    r.append(required_suffix_exec(config.fields.content.required));
    r.append(OUTPUT_6);
    r.append(config.render.template.as_str());
    r.append(OUTPUT_7);
    r
}

/// The translation prompt for a request.
pub open spec fn translation_prompt(req: TranslationRequest) -> Seq<char> {
    TRANSLATION_0@ + BASE_PROMPT@ + TRANSLATION_1@ + style_section(req.style_guide) + TRANSLATION_2@
        + output_section(req.output_config) + TRANSLATION_3@ + glossary_section(req.glossary_terms@)
        + TRANSLATION_4@ + req.chapter_markdown@ + TRANSLATION_5@
}

/// Builds the full translation prompt for a chapter.
pub fn build_translation_prompt(req: &TranslationRequest) -> (r: String)
    ensures
        r@ == translation_prompt(*req),
{
    let glossary = build_glossary_section(req.glossary_terms.as_slice());
    let style = build_style_section(&req.style_guide);
    let output = build_output_section(&req.output_config);
    let mut r = lit(TRANSLATION_0);
    r.append(BASE_PROMPT);
    r.append(TRANSLATION_1);
    r.append(style.as_str());
    r.append(TRANSLATION_2);
    r.append(output.as_str());
    r.append(TRANSLATION_3);
    r.append(glossary.as_str());
    r.append(TRANSLATION_4);
    r.append(req.chapter_markdown.as_str());
    r.append(TRANSLATION_5);
    r
}

/// The list of validation errors, one `- error` line each.
pub open spec fn error_list(errors: Seq<String>) -> Seq<char> {
    join(error_lines(errors), "\n"@)
}

/// The repair prompt for a request, with its glossary and style sections.
pub open spec fn repair_prompt(req: RepairRequest, glossary: Seq<char>, style: Seq<char>) -> Seq<char> {
    REPAIR_0@ + BASE_PROMPT@ + REPAIR_1@ + style + REPAIR_2@ + output_section(req.output_config) + REPAIR_3@
        + glossary + REPAIR_4@ + error_list(req.validation_errors@) + REPAIR_5@ + req.chapter_markdown@
        + REPAIR_6@ + req.failed_translation@ + REPAIR_7@ + FORMATTING_REQUIREMENTS@ + REPAIR_8@
}

/// Builds the prompt that asks for a failed translation to be repaired.
pub fn build_repair_prompt(req: &RepairRequest, glossary_section: &str, style_section: &str) -> (r: String)
    ensures
        r@ == repair_prompt(*req, glossary_section@, style_section@),
{
    let mut lines: Vec<String> = Vec::new();
    let mut i: usize = 0;
    let errors = &req.validation_errors;
    while i < errors.len()
        invariant
            i <= errors.len(),
            lines@.len() == i,
            crate::text::views(lines@) == error_lines(errors@.take(i as int)),
        decreases errors.len() - i,
    {
        let mut line = lit("- ");
        line.append(errors[i].as_str());
        assert(line@ == "- "@ + errors@[i as int]@);
        proof {
            crate::text::lemma_views_push(lines@, line);
            assert(errors@.take(i + 1) =~= errors@.take(i as int).push(errors@[i as int]));
            assert(error_lines(errors@.take(i + 1)) =~= error_lines(errors@.take(i as int)).push("- "@ + errors@[i as int]@));
        }
        lines.push(line);
        i = i + 1;
        assert(crate::text::views(lines@) =~= error_lines(errors@.take(i as int)));
    }
    assert(errors@.take(errors.len() as int) =~= errors@);
    let errors_list = join_strings(&lines, "\n");
    let output = build_output_section(&req.output_config);
    let mut r = lit(REPAIR_0);
    r.append(BASE_PROMPT);
    r.append(REPAIR_1);
    r.append(style_section);
    r.append(REPAIR_2);
    r.append(output.as_str());
    r.append(REPAIR_3);
    r.append(glossary_section);
    r.append(REPAIR_4);
    r.append(errors_list.as_str());
    r.append(REPAIR_5);
    r.append(req.chapter_markdown.as_str());
    r.append(REPAIR_6);
    r.append(req.failed_translation.as_str());
    r.append(REPAIR_7);
    r.append(FORMATTING_REQUIREMENTS);
    r.append(REPAIR_8);
    r
}

/// The glossary extraction prompt for a request.
pub open spec fn extraction_prompt(req: GlossaryExtractionRequest) -> Seq<char> {
    EXTRACTION_0@ + existing_keys_section(req.existing_glossary_terms@) + EXTRACTION_1@ + req.chapter_markdown@
        + EXTRACTION_2@ + req.translated_markdown@ + EXTRACTION_3@
}

/// Builds the prompt that asks for new glossary terms in an accepted
/// translation.
pub fn build_glossary_extraction_prompt(req: &GlossaryExtractionRequest) -> (r: String)
    ensures
        r@ == extraction_prompt(*req),
{
    let section = build_existing_glossary_keys_section(req.existing_glossary_terms.as_slice());
    let mut r = lit(EXTRACTION_0);
    r.append(section.as_str());
    r.append(EXTRACTION_1);
    r.append(req.chapter_markdown.as_str());
    r.append(EXTRACTION_2);
    r.append(req.translated_markdown.as_str());
    r.append(EXTRACTION_3);
    r
}

} // verus!
