//! The structured form of a translated chapter, which fields it must have,
//! and how it is rendered as markdown.

use vstd::prelude::*;

use crate::text::{lit, replace_all, replace_str, trim, trim_start, trim_str};

verus! {

/// Whether a field must be present, and how it is described to the model.
#[derive(Debug, PartialEq, Eq)]
pub struct OutputFieldConfig {
    pub required: bool,
    pub description: Option<String>,
}

impl Default for OutputFieldConfig {
    fn default() -> (r: Self)
        ensures
            !r.required,
            r.description.is_none(),
    {
        default_optional_field()
    }
}

impl Clone for OutputFieldConfig {
    fn clone(&self) -> (r: Self)
        ensures
            r == *self,
    {
        OutputFieldConfig { required: self.required, description: crate::glossary::copy_opt(&self.description) }
    }
}

/// An optional field without a description.
pub fn default_optional_field() -> (r: OutputFieldConfig)
    ensures
        !r.required,
        r.description.is_none(),
{
    OutputFieldConfig { required: false, description: None }
}

/// The content field: required, with its description.
pub fn default_required_content_field() -> (r: OutputFieldConfig)
    ensures
        r.required,
        r.description.is_some(),
        r.description.unwrap()@ == "Main translated chapter body in markdown, excluding the top heading"@,
{
    OutputFieldConfig {
        required: true,
        description: Some(lit("Main translated chapter body in markdown, excluding the top heading")),
    }
}

/// The three fields of a structured chapter.
#[derive(Debug, PartialEq, Eq)]
pub struct OutputFieldsConfig {
    pub chapter_number: OutputFieldConfig,
    pub chapter_title: OutputFieldConfig,
    pub content: OutputFieldConfig,
}

impl Default for OutputFieldsConfig {
    fn default() -> (r: Self)
        ensures
            !r.chapter_number.required,
            r.chapter_number.description.is_some(),
            r.chapter_number.description.unwrap()@ == "Chapter number when one is present"@,
            !r.chapter_title.required,
            r.chapter_title.description.is_none(),
            r.content.required,
    {
        OutputFieldsConfig {
            chapter_number: OutputFieldConfig {
                required: false,
                description: Some(lit("Chapter number when one is present")),
            },
            chapter_title: default_optional_field(),
            content: default_required_content_field(),
        }
    }
}

/// The markdown template a chapter is rendered with.
#[derive(Debug, PartialEq, Eq)]
pub struct OutputRenderConfig {
    pub template: String,
}

/// The default template: the heading as a level-one title, then the body.
pub open spec fn default_template() -> Seq<char> {
    "# {heading}\n\n{content}"@
}

impl Default for OutputRenderConfig {
    fn default() -> (r: Self)
        ensures
            r.template@ == default_template(),
    {
        OutputRenderConfig { template: lit("# {heading}\n\n{content}") }
    }
}

/// How translated chapters are requested and rendered.
#[derive(Debug, PartialEq, Eq)]
pub struct OutputConfig {
    pub fields: OutputFieldsConfig,
    pub render: OutputRenderConfig,
}

impl Default for OutputConfig {
    fn default() -> (r: Self)
        ensures
            !r.fields.chapter_number.required,
            !r.fields.chapter_title.required,
            r.fields.content.required,
            r.render.template@ == default_template(),
    {
        OutputConfig { fields: OutputFieldsConfig::default(), render: OutputRenderConfig::default() }
    }
}

impl Clone for OutputConfig {
    fn clone(&self) -> (r: Self)
        ensures
            r == *self,
    {
        OutputConfig {
            fields: OutputFieldsConfig {
                chapter_number: self.fields.chapter_number.clone(),
                chapter_title: self.fields.chapter_title.clone(),
                content: self.fields.content.clone(),
            },
            render: OutputRenderConfig { template: self.render.template.clone() },
        }
    }
}

/// A translated chapter as the model returns it.
#[derive(Debug, Default, PartialEq, Eq)]
pub struct StructuredChapter {
    pub chapter_number: Option<String>,
    pub chapter_title: Option<String>,
    pub content: String,
}

/// An optional text, trimmed, and dropped when blank.
pub open spec fn normalized_optional(v: Option<String>) -> Option<Seq<char>> {
    match v {
        Some(s) => if trim(s@).len() == 0 {
            None
        } else {
            Some(trim(s@))
        },
        None => None,
    }
}

/// Normalizing an optional text that is already normalized changes
/// nothing.
proof fn lemma_normalized_optional_again(v: Option<String>, w: Option<String>)
    requires
        opt_seq(w) == normalized_optional(v),
    ensures
        normalized_optional(w) == opt_seq(w),
{
    if let Some(s) = v {
        crate::text::lemma_trim_idempotent(s@);
    }
}

/// The view of an optional string.
pub open spec fn opt_seq(v: Option<String>) -> Option<Seq<char>> {
    match v {
        Some(s) => Some(s@),
        None => None,
    }
}

/// `n` is `c` normalized: number and title trimmed and dropped when blank,
/// content trimmed.
pub open spec fn normalized_from(n: StructuredChapter, c: StructuredChapter) -> bool {
    &&& opt_seq(n.chapter_number) == normalized_optional(c.chapter_number)
    &&& opt_seq(n.chapter_title) == normalized_optional(c.chapter_title)
    &&& n.content@ == trim(c.content@)
}

/// Normalizing a normalized chapter gives the same chapter again.
pub proof fn law_normalized_idempotent(c: StructuredChapter, n: StructuredChapter, m: StructuredChapter)
    requires
        normalized_from(n, c),
        normalized_from(m, n),
    ensures
        opt_seq(m.chapter_number) == opt_seq(n.chapter_number),
        opt_seq(m.chapter_title) == opt_seq(n.chapter_title),
        m.content@ == n.content@,
{
    lemma_normalized_optional_again(c.chapter_number, n.chapter_number);
    lemma_normalized_optional_again(c.chapter_title, n.chapter_title);
    crate::text::lemma_trim_idempotent(c.content@);
}

/// A chapter's heading: `Chapter N: Title`, `Chapter N`, the title alone,
/// or none.
pub open spec fn heading_of(c: StructuredChapter) -> Option<Seq<char>> {
    match (c.chapter_number, c.chapter_title) {
        (Some(n), Some(t)) => Some("Chapter "@ + n@ + ": "@ + t@),
        (Some(n), None) => Some("Chapter "@ + n@),
        (None, Some(t)) => Some(t@),
        (None, None) => None,
    }
}

fn normalize_optional(value: Option<String>) -> (r: Option<String>)
    ensures
        opt_seq(r) == normalized_optional(value),
{
    match value {
        Some(v) => {
            let t = trim_str(v.as_str());
            if t.as_str().is_empty() {
                None
            } else {
                Some(t)
            }
        },
        None => None,
    }
}

impl StructuredChapter {
    /// The chapter with its number and title trimmed (and dropped when
    /// blank) and its content trimmed.
    pub fn normalized(self) -> (r: Self)
        ensures
            normalized_from(r, self),
    {
        StructuredChapter {
            chapter_number: normalize_optional(self.chapter_number),
            chapter_title: normalize_optional(self.chapter_title),
            content: trim_str(self.content.as_str()),
        }
    }

    /// The chapter's heading, if it has a number or a title.
    pub fn heading(&self) -> (r: Option<String>)
        ensures
            opt_seq(r) == heading_of(*self),
    {
        match (&self.chapter_number, &self.chapter_title) {
            (Some(number), Some(title)) => {
                let mut h = lit("Chapter ");
                h.append(number.as_str());
                h.append(": ");
                h.append(title.as_str());
                Some(h)
            },
            (Some(number), None) => {
                let mut h = lit("Chapter ");
                h.append(number.as_str());
                Some(h)
            },
            (None, Some(title)) => Some(title.clone()),
            (None, None) => None,
        }
    }
}

/// The errors for required fields that a chapter lacks, in field order.
pub open spec fn structured_chapter_errors(c: StructuredChapter, config: OutputConfig) -> Seq<Seq<char>> {
    (if config.fields.chapter_number.required && c.chapter_number.is_none() {
        seq!["Missing required field: chapter_number"@]
    } else {
        Seq::empty()
    }) + (if config.fields.chapter_title.required && c.chapter_title.is_none() {
        seq!["Missing required field: chapter_title"@]
    } else {
        Seq::empty()
    }) + (if config.fields.content.required && trim(c.content@).len() == 0 {
        seq!["Missing required field: content"@]
    } else {
        Seq::empty()
    })
}

/// Checks that a chapter has the fields the configuration requires.
pub fn validate_structured_chapter(chapter: &StructuredChapter, config: &OutputConfig) -> (r: Vec<String>)
    ensures
        crate::text::views(r@) == structured_chapter_errors(*chapter, *config),
{
    let mut errors: Vec<String> = Vec::new();
    if config.fields.chapter_number.required && chapter.chapter_number.is_none() {
        errors.push(lit("Missing required field: chapter_number"));
    }
    let ghost a = crate::text::views(errors@);
    if config.fields.chapter_title.required && chapter.chapter_title.is_none() {
        errors.push(lit("Missing required field: chapter_title"));
    }
    let ghost b = crate::text::views(errors@);
    assert(b =~= a + (if config.fields.chapter_title.required && chapter.chapter_title.is_none() {
        seq!["Missing required field: chapter_title"@]
    } else {
        Seq::empty()
    }));
    if config.fields.content.required && crate::text::is_blank(chapter.content.as_str()) {
        errors.push(lit("Missing required field: content"));
    }
    assert(crate::text::views(errors@) =~= structured_chapter_errors(*chapter, *config));
    errors
}

/// The markdown a chapter renders to: the template with `{heading}`,
/// `{chapter_number}`, `{chapter_title}` and `{content}` filled in, in that
/// order, then trimmed.
pub open spec fn rendered(c: StructuredChapter, template: Seq<char>) -> Seq<char> {
    let heading = match heading_of(c) {
        Some(h) => h,
        None => Seq::empty(),
    };
    let number = match c.chapter_number {
        Some(n) => n@,
        None => Seq::empty(),
    };
    let title = match c.chapter_title {
        Some(t) => t@,
        None => Seq::empty(),
    };
    trim(
        replace_all(
            replace_all(
                replace_all(replace_all(template, "{heading}"@, heading), "{chapter_number}"@, number),
                "{chapter_title}"@,
                title,
            ),
            "{content}"@,
            c.content@,
        ),
    )
}

/// Renders a chapter with the configured template.
pub fn render_chapter_markdown(chapter: &StructuredChapter, config: &OutputConfig) -> (r: String)
    ensures
        r@ == rendered(*chapter, config.render.template@),
{
    let heading = match chapter.heading() {
        Some(h) => h,
        None => String::new(),
    };
    let number = match &chapter.chapter_number {
        Some(n) => n.clone(),
        None => String::new(),
    };
    let title = match &chapter.chapter_title {
        Some(t) => t.clone(),
        None => String::new(),
    };
    proof {
        reveal_strlit("{heading}");
        reveal_strlit("{chapter_number}");
        reveal_strlit("{chapter_title}");
        reveal_strlit("{content}");
    }
    let a = replace_str(config.render.template.as_str(), "{heading}", heading.as_str());
    let b = replace_str(a.as_str(), "{chapter_number}", number.as_str());
    let c = replace_str(b.as_str(), "{chapter_title}", title.as_str());
    let d = replace_str(c.as_str(), "{content}", chapter.content.as_str());
    trim_str(d.as_str())
}

/// Whether rendered chapters start with a markdown heading: the template,
/// after leading whitespace, starts with `#`.
pub fn render_requires_heading(config: &OutputConfig) -> (r: bool)
    ensures
        r == (trim_start(config.render.template@).len() > 0 && trim_start(config.render.template@)[0] == '#'),
{
    let v = crate::text::chars_of(config.render.template.as_str());
    let (a, _) = crate::text::trim_bounds(&v);
    a < v.len() && v[a] == '#'
}

} // verus!
