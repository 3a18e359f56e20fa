//! A book's configuration file and what initialising a book reports.

use vstd::prelude::*;

use crate::book::output::{default_template, OutputConfig};
use crate::text::lit;

verus! {

/// What initialising a book created, kept or imported.
#[derive(Debug, Clone)]
pub struct InitReport {
    pub book_dir: String,
    pub created_dirs: Vec<String>,
    pub created_files: Vec<String>,
    pub skipped_files: Vec<String>,
    pub imported_glossary: Option<String>,
}

/// A book's `config.json`.
#[derive(Debug)]
pub struct BookConfig {
    pub profile: Option<String>,
    pub repair_profile: Option<String>,
    pub glossary_profile: Option<String>,
    pub raw_dir: String,
    pub out_dir: String,
    pub glossary_path: String,
    pub style_path: String,
    pub glossary_injection: String,
    pub output: OutputConfig,
}

/// The injection setting a book gets when its file names none.
pub fn default_glossary_injection() -> (r: String)
    ensures
        r@ == "smart"@,
{
    lit("smart")
}

/// The settings of a new book, profile aside.
pub open spec fn default_settings(c: BookConfig) -> bool {
    &&& c.repair_profile.is_none()
    &&& c.glossary_profile.is_none()
    &&& c.raw_dir@ == "raw"@
    &&& c.out_dir@ == "tl"@
    &&& c.glossary_path@ == "glossary.json"@
    &&& c.style_path@ == "style.md"@
    &&& c.glossary_injection@ == "smart"@
    &&& c.output.render.template@ == default_template()
    &&& !c.output.fields.chapter_number.required
    &&& !c.output.fields.chapter_title.required
    &&& c.output.fields.content.required
}

impl Default for BookConfig {
    fn default() -> (r: Self)
        ensures
            r.profile.is_some() && r.profile.unwrap()@ == "default"@,
            default_settings(r),
    {
        BookConfig {
            profile: Some(lit("default")),
            repair_profile: None,
            glossary_profile: None,
            raw_dir: lit("raw"),
            out_dir: lit("tl"),
            glossary_path: lit("glossary.json"),
            style_path: lit("style.md"),
            glossary_injection: default_glossary_injection(),
            output: OutputConfig::default(),
        }
    }
}

impl BookConfig {
    /// The settings of a new book that uses `profile`.
    pub fn with_profile(profile: &str) -> (r: Self)
        ensures
            r.profile.is_some() && r.profile.unwrap()@ == profile@,
            default_settings(r),
    {
        let mut config = BookConfig::default();
        config.profile = Some(lit(profile));
        config
    }
}

/// The style guide a new book starts with.
pub const STYLE_TEMPLATE: &'static str = "# Style Guide

## Translation Guidelines
- Maintain the tone and atmosphere of the original text
- Keep dialogue natural and character-appropriate
- Preserve pacing and narrative flow
- Respect cultural context while ensuring readability
- Avoid transliteration unless specifically appropriate

## Formatting
- Use proper markdown
- Preserve paragraph structure
- Maintain dialogue formatting
";

} // verus!
