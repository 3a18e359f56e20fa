//! The decisions of translating one chapter: which profiles run, whether a
//! chapter is skipped, how a reply is checked and repaired, how retries
//! back off, and what state a chapter records.

use vstd::prelude::*;

use crate::book::init::BookConfig;
use crate::book::output::{render_chapter_markdown, render_requires_heading, rendered, structured_chapter_errors, validate_structured_chapter, OutputConfig, StructuredChapter};
use crate::config::{opt_view, validate_profile, GlobalConfig};
use crate::error::Error;
use crate::glossary::{glossary_term_key, glossary_term_prompt_fingerprint, merge_terms, new_terms, keys_of, prompt_fingerprint, term_key, GlossaryTerm, InjectionMode, SelectionResult};
use crate::state::{ChapterGlossaryTerm, ChapterGlossaryUsage, ChapterState, ChapterStatus};
use crate::text::{join, join_strings, lit, usize_to_string, decimal, views};
use crate::translate::types::TranslationUsage;
use crate::validate::{translation_errors, validate_translation, ValidationOptions};

verus! {

/// The profiles of the three tasks of a run.
pub struct TranslateProfiles<'a> {
    pub translation_name: &'a str,
    pub repair_name: &'a str,
    pub glossary_name: &'a str,
}

/// The view of an optional string, as a slice view.
pub open spec fn opt_string(o: Option<String>) -> Option<Seq<char>> {
    crate::config::opt_string_view(o)
}

/// The first present of two options.
pub open spec fn or_else(a: Option<Seq<char>>, b: Option<Seq<char>>) -> Option<Seq<char>> {
    if a.is_some() {
        a
    } else {
        b
    }
}

/// The profile of the translation task: the command line's, else the
/// book's (when not empty), else the default.
pub open spec fn translation_profile(global: GlobalConfig, book_profile: Option<Seq<char>>, profile: Option<Seq<char>>) -> Option<Seq<char>> {
    if profile.is_some() {
        profile
    } else {
        match book_profile {
            Some(b) if b.len() > 0 => Some(b),
            _ => opt_string(global.default_profile),
        }
    }
}

fn first_of<'a>(a: Option<&'a str>, b: &'a Option<String>) -> (r: Option<&'a str>)
    ensures
        opt_view(r) == or_else(opt_view(a), opt_string(*b)),
{
    match a {
        Some(x) => Some(x),
        None => match b {
            Some(s) => Some(s.as_str()),
            None => None,
        },
    }
}

/// The profiles a run uses: the translation profile, and for repair and
/// glossary extraction the command line's, else the book's, else the
/// translation profile. `None` when no translation profile can be found.
pub fn resolve_translate_profiles<'a>(
    global_config: &'a GlobalConfig,
    book_config: &'a BookConfig,
    profile: Option<&'a str>,
    repair_profile: Option<&'a str>,
    glossary_profile: Option<&'a str>,
) -> (r: Option<TranslateProfiles<'a>>)
    ensures
        ({
            let t = translation_profile(*global_config, opt_string(book_config.profile), opt_view(profile));
            &&& r.is_some() <==> t.is_some()
            &&& r.is_some() ==> {
                let p = r.unwrap();
                &&& p.translation_name@ == t.unwrap()
                &&& p.repair_name@ == or_else(or_else(opt_view(repair_profile), opt_string(book_config.repair_profile)), t).unwrap()
                &&& p.glossary_name@ == or_else(or_else(opt_view(glossary_profile), opt_string(book_config.glossary_profile)), t).unwrap()
            }
        }),
{
    let book_profile: Option<&str> = match &book_config.profile {
        Some(s) => Some(s.as_str()),
        None => None,
    };
    let translation_name = match profile {
        Some(p) => p,
        None => match global_config.effective_profile_name(book_profile) {
            Some(p) => p,
            None => return None,
        },
    };
    let repair_name = match first_of(repair_profile, &book_config.repair_profile) {
        Some(p) => p,
        None => translation_name,
    };
    let glossary_name = match first_of(glossary_profile, &book_config.glossary_profile) {
        Some(p) => p,
        None => translation_name,
    };
    Some(TranslateProfiles { translation_name, repair_name, glossary_name })
}

/// Whether profile `name` is valid.
pub open spec fn profile_valid(config: GlobalConfig, name: Seq<char>) -> bool {
    crate::config::profile_errors(config, name).len() == 0 && crate::config::profile::provider_and_key_exist(config, name)
}

/// The message of an invalid task profile.
pub open spec fn invalid_profile_message(label: Seq<char>) -> Seq<char> {
    "Cannot translate with invalid "@ + label + " profile"@
}

fn invalid_profile_error(label: &str) -> (r: Error)
    ensures
        r matches Error::Validation { message } && message@ == invalid_profile_message(label@),
{
    let mut m = lit("Cannot translate with invalid ");
    m.append(label);
    m.append(" profile");
    Error::Validation { message: m }
}

/// Checks the three task profiles in order (translation, repair,
/// glossary); the first invalid one fails the run.
pub fn validate_translate_profiles(config: &GlobalConfig, profiles: &TranslateProfiles<'_>) -> (r: Result<(), Error>)
    ensures
        r is Ok <==> (profile_valid(*config, profiles.translation_name@) && profile_valid(*config, profiles.repair_name@)
            && profile_valid(*config, profiles.glossary_name@)),
        r matches Err(e) ==> e matches Error::Validation { message } && (
            (!profile_valid(*config, profiles.translation_name@) && message@ == invalid_profile_message("translation"@))
            || (profile_valid(*config, profiles.translation_name@) && !profile_valid(*config, profiles.repair_name@)
                && message@ == invalid_profile_message("repair"@))
            || (profile_valid(*config, profiles.translation_name@) && profile_valid(*config, profiles.repair_name@)
                && message@ == invalid_profile_message("glossary"@))),
{
    let v = validate_profile(config, profiles.translation_name);
    if !v.is_valid() {
        return Err(invalid_profile_error("translation"));
    }
    let v = validate_profile(config, profiles.repair_name);
    if !v.is_valid() {
        return Err(invalid_profile_error("repair"));
    }
    let v = validate_profile(config, profiles.glossary_name);
    if !v.is_valid() {
        return Err(invalid_profile_error("glossary"));
    }
    Ok(())
}

/// The outcome of one chapter, with the state to record for it.
pub struct ChapterResult {
    pub translated: bool,
    pub failed: bool,
    pub skipped: bool,
    pub new_terms_added: usize,
    pub usage: Option<TranslationUsage>,
    pub chapter_state: ChapterState,
    pub glossary_extraction_error: Option<String>,
}

impl ChapterResult {
    /// A result whose chapter state is attempted now.
    pub fn new(
        chapter_path: &str,
        status: ChapterStatus,
        translated: bool,
        failed: bool,
        skipped: bool,
        new_terms_added: usize,
        usage: Option<TranslationUsage>,
        error: Option<String>,
        duration_ms: Option<u64>,
        translation_usage: Option<TranslationUsage>,
        glossary_usage: Option<ChapterGlossaryUsage>,
        exported_terms: Vec<ChapterGlossaryTerm>,
        source_text_hash: Option<String>,
        glossary_extraction_error: Option<String>,
    ) -> (r: Self)
        ensures
            r.translated == translated && r.failed == failed && r.skipped == skipped,
            r.new_terms_added == new_terms_added,
            r.usage == usage,
            r.glossary_extraction_error == glossary_extraction_error,
            r.chapter_state.chapter_path@ == chapter_path@,
            r.chapter_state.status == status,
            r.chapter_state.error == error,
            r.chapter_state.translation_time_ms == duration_ms,
            r.chapter_state.translation_usage == translation_usage,
            r.chapter_state.glossary_usage == glossary_usage,
            r.chapter_state.exported_terms == exported_terms,
            r.chapter_state.source_text_hash == source_text_hash,
    {
        ChapterResult {
            translated,
            failed,
            skipped,
            new_terms_added,
            usage,
            chapter_state: ChapterState::new(
                lit(chapter_path),
                status,
                error,
                duration_ms,
                translation_usage,
                glossary_usage,
                exported_terms,
                source_text_hash,
            ),
            glossary_extraction_error,
        }
    }
}

/// What a chapter keeps from its previous state when it is skipped or
/// fails.
pub struct PreviousChapterArtifacts {
    pub translation_usage: Option<TranslationUsage>,
    pub glossary_usage: Option<ChapterGlossaryUsage>,
    pub exported_terms: Vec<ChapterGlossaryTerm>,
}

impl Default for PreviousChapterArtifacts {
    fn default() -> (r: Self)
        ensures
            r.translation_usage.is_none(),
            r.glossary_usage.is_none(),
            r.exported_terms@.len() == 0,
    {
        PreviousChapterArtifacts { translation_usage: None, glossary_usage: None, exported_terms: Vec::new() }
    }
}

fn copy_usage_record(u: &ChapterGlossaryUsage) -> (r: ChapterGlossaryUsage)
    ensures
        r.injection_mode == u.injection_mode,
        r.used_fallback_to_full == u.used_fallback_to_full,
        r.terms@ == u.terms@,
{
    ChapterGlossaryUsage {
        injection_mode: u.injection_mode,
        used_fallback_to_full: u.used_fallback_to_full,
        terms: crate::state::copy_chapter_terms(&u.terms),
    }
}

/// The usage, glossary usage and exported terms of the previous state
/// (none when there is no previous state).
pub fn previous_chapter_artifacts(previous_chapter_state: Option<&ChapterState>) -> (r: PreviousChapterArtifacts)
    ensures
        match previous_chapter_state {
            Some(s) => {
                &&& r.translation_usage == s.translation_usage
                &&& r.glossary_usage.is_some() == s.glossary_usage.is_some()
                &&& s.glossary_usage.is_some() ==> r.glossary_usage.unwrap().injection_mode == s.glossary_usage.unwrap().injection_mode
                    && r.glossary_usage.unwrap().used_fallback_to_full == s.glossary_usage.unwrap().used_fallback_to_full
                    && r.glossary_usage.unwrap().terms@ == s.glossary_usage.unwrap().terms@
                &&& r.exported_terms@ == s.exported_terms@
            },
            None => r.translation_usage.is_none() && r.glossary_usage.is_none() && r.exported_terms@.len() == 0,
        },
{
    match previous_chapter_state {
        Some(s) => PreviousChapterArtifacts {
            translation_usage: s.translation_usage,
            glossary_usage: match &s.glossary_usage {
                Some(u) => Some(copy_usage_record(u)),
                None => None,
            },
            exported_terms: crate::state::copy_chapter_terms(&s.exported_terms),
        },
        None => PreviousChapterArtifacts::default(),
    }
}

/// The result of a skipped chapter: it keeps its previous artifacts.
pub fn build_skipped_chapter_result(
    chapter_path: &str,
    message: Option<String>,
    duration_ms: Option<u64>,
    previous_artifacts: PreviousChapterArtifacts,
    source_text_hash: Option<String>,
) -> (r: ChapterResult)
    ensures
        r.skipped && !r.translated && !r.failed,
        r.new_terms_added == 0,
        r.usage.is_none(),
        r.glossary_extraction_error.is_none(),
        r.chapter_state.chapter_path@ == chapter_path@,
        r.chapter_state.status == ChapterStatus::Skipped,
        r.chapter_state.error == message,
        r.chapter_state.translation_time_ms == duration_ms,
        r.chapter_state.translation_usage == previous_artifacts.translation_usage,
        r.chapter_state.glossary_usage == previous_artifacts.glossary_usage,
        r.chapter_state.exported_terms == previous_artifacts.exported_terms,
        r.chapter_state.source_text_hash == source_text_hash,
{
    ChapterResult::new(
        chapter_path,
        ChapterStatus::Skipped,
        false,
        false,
        true,
        0,
        None,
        message,
        duration_ms,
        previous_artifacts.translation_usage,
        previous_artifacts.glossary_usage,
        previous_artifacts.exported_terms,
        source_text_hash,
        None,
    )
}

/// The result of a translated chapter.
pub fn build_success_chapter_result(
    chapter_path: &str,
    duration_ms: u64,
    usage: TranslationUsage,
    glossary_usage: ChapterGlossaryUsage,
    exported_terms: Vec<ChapterGlossaryTerm>,
    source_text_hash: String,
    new_terms_added: usize,
    glossary_extraction_error: Option<String>,
) -> (r: ChapterResult)
    ensures
        r.translated && !r.failed && !r.skipped,
        r.new_terms_added == new_terms_added,
        r.usage == Some(usage),
        r.glossary_extraction_error == glossary_extraction_error,
        r.chapter_state.chapter_path@ == chapter_path@,
        r.chapter_state.status == ChapterStatus::Success,
        r.chapter_state.error.is_none(),
        r.chapter_state.translation_time_ms == Some(duration_ms),
        r.chapter_state.translation_usage == Some(usage),
        r.chapter_state.glossary_usage == Some(glossary_usage),
        r.chapter_state.exported_terms == exported_terms,
        r.chapter_state.source_text_hash == Some(source_text_hash),
{
    ChapterResult::new(
        chapter_path,
        ChapterStatus::Success,
        true,
        false,
        false,
        new_terms_added,
        Some(usage),
        None,
        Some(duration_ms),
        Some(usage),
        Some(glossary_usage),
        exported_terms,
        Some(source_text_hash),
        glossary_extraction_error,
    )
}

/// The result of a chapter that failed: it records the usage spent and
/// keeps its previous glossary artifacts.
pub fn build_failed_chapter_result(
    chapter_path: &str,
    error_msg: String,
    duration_ms: u64,
    usage: Option<TranslationUsage>,
    previous_artifacts: PreviousChapterArtifacts,
    source_text_hash: Option<String>,
) -> (r: ChapterResult)
    ensures
        r.failed && !r.translated && !r.skipped,
        r.new_terms_added == 0,
        r.usage == usage,
        r.glossary_extraction_error.is_none(),
        r.chapter_state.chapter_path@ == chapter_path@,
        r.chapter_state.status == ChapterStatus::Failed,
        r.chapter_state.error == Some(error_msg),
        r.chapter_state.translation_time_ms == Some(duration_ms),
        r.chapter_state.translation_usage == usage,
        r.chapter_state.glossary_usage == previous_artifacts.glossary_usage,
        r.chapter_state.exported_terms == previous_artifacts.exported_terms,
        r.chapter_state.source_text_hash == source_text_hash,
{
    ChapterResult::new(
        chapter_path,
        ChapterStatus::Failed,
        false,
        true,
        false,
        0,
        usage,
        Some(error_msg),
        Some(duration_ms),
        usage,
        previous_artifacts.glossary_usage,
        previous_artifacts.exported_terms,
        source_text_hash,
        None,
    )
}

/// Whether recording a skipped chapter needs its text: only during a
/// chapter rerun when the previous state has no source hash.
pub fn skipped_chapter_needs_text(previous_chapter_state: Option<&ChapterState>, rerun_chapters_enabled: bool) -> (r:
    bool)
    ensures
        r == (rerun_chapters_enabled && match previous_chapter_state {
            Some(s) => s.source_text_hash.is_none(),
            None => true,
        }),
{
    rerun_chapters_enabled && match previous_chapter_state {
        Some(s) => s.source_text_hash.is_none(),
        None => true,
    }
}

/// The source hash recorded for a skipped chapter: the previous one; and
/// during a chapter rerun, when there was none, the hash of the current
/// text.
pub fn skipped_chapter_source_hash(
    chapter_text: &str,
    previous_chapter_state: Option<&ChapterState>,
    rerun_chapters_enabled: bool,
) -> (r: Option<String>)
    ensures
        ({
            let prev = match previous_chapter_state {
                Some(s) => opt_string(s.source_text_hash),
                None => None,
            };
            &&& !rerun_chapters_enabled ==> opt_string(r) == prev
            &&& rerun_chapters_enabled && prev.is_some() ==> opt_string(r) == prev
            &&& rerun_chapters_enabled && prev.is_none() ==> opt_string(r) == Some(
                crate::state::source_hash_of(chapter_text@),
            )
        }),
{
    let prev = match previous_chapter_state {
        Some(s) => crate::glossary::copy_opt(&s.source_text_hash),
        None => None,
    };
    if !rerun_chapters_enabled {
        return prev;
    }
    match prev {
        Some(h) => Some(h),
        None => Some(crate::state::normalized_source_text_hash(chapter_text)),
    }
}

/// The source hash recorded for a failed chapter: the previous one, else
/// the current one.
pub fn failed_chapter_source_hash(previous_chapter_state: Option<&ChapterState>, current_source_hash: &str) -> (r:
    Option<String>)
    ensures
        r.is_some(),
        ({
            let prev = match previous_chapter_state {
                Some(s) => opt_string(s.source_text_hash),
                None => None,
            };
            opt_string(r) == if prev.is_some() {
                prev
            } else {
                Some(current_source_hash@)
            }
        }),
{
    match previous_chapter_state {
        Some(s) => match &s.source_text_hash {
            Some(h) => return Some(h.clone()),
            None => {},
        },
        None => {},
    }
    Some(lit(current_source_hash))
}

/// How many times a translation request is tried.
pub const MAX_API_RETRIES: u32 = 3;

/// The pause, in seconds, after failed attempt `attempt`: `2^attempt`.
pub fn retry_delay_secs(attempt: u32) -> (r: u64)
    requires
        attempt < 64,
    ensures
        r == vstd::arithmetic::power2::pow2(attempt as nat),
{
    let mut r: u64 = 1;
    let mut i: u32 = 0;
    proof {
        vstd::arithmetic::power2::lemma2_to64();
    }
    while i < attempt
        invariant
            i <= attempt < 64,
            r == vstd::arithmetic::power2::pow2(i as nat),
        decreases attempt - i,
    {
        proof {
            vstd::arithmetic::power2::lemma_pow2_unfold((i + 1) as nat);
            vstd::arithmetic::power2::lemma_pow2_strictly_increases((i + 1) as nat, 64);
            vstd::arithmetic::power2::lemma2_to64();
        }
        r = r * 2;
        i = i + 1;
    }
    r
}

/// What to do after a failed request attempt.
#[derive(Debug, Clone, Copy, PartialEq, Eq, Structural)]
pub enum RetryStep {
    /// Wait this many seconds, then try again.
    RetryAfter(u64),
    /// Give up.
    GiveUp,
}

/// After failed attempt `attempt` (counted from 1): retry after
/// `2^attempt` seconds while attempts remain, else give up.
pub fn next_retry_step(attempt: u32) -> (r: RetryStep)
    requires
        1 <= attempt <= MAX_API_RETRIES,
    ensures
        attempt < MAX_API_RETRIES ==> r == RetryStep::RetryAfter(vstd::arithmetic::power2::pow2(attempt as nat) as u64),
        attempt == MAX_API_RETRIES ==> r == RetryStep::GiveUp,
{
    if attempt < MAX_API_RETRIES {
        RetryStep::RetryAfter(retry_delay_secs(attempt))
    } else {
        RetryStep::GiveUp
    }
}

/// A repair is tried only when the first request succeeded.
pub fn should_attempt_repair(api_attempt: u32) -> (r: bool)
    ensures
        r == (api_attempt == 1),
{
    api_attempt == 1
}

/// Whether a chapter is skipped without reading it: its output exists,
/// overwriting is off, and nothing forces a rerun.
pub fn skip_existing_output(overwrite: bool, output_exists: bool, has_rerun_decision: bool) -> (r: bool)
    ensures
        r == (!overwrite && output_exists && !has_rerun_decision),
{
    !overwrite && output_exists && !has_rerun_decision
}

/// The errors found in a reply: its missing required fields, then the
/// problems of its rendered markdown.
pub open spec fn reply_errors(c: StructuredChapter, config: OutputConfig) -> Seq<Seq<char>> {
    let t = config.render.template@;
    let heading = crate::text::trim_start(t).len() > 0 && crate::text::trim_start(t)[0] == '#';
    structured_chapter_errors(c, config) + translation_errors(rendered(c, t), heading)
}

/// Renders a reply and checks it: the rendered markdown and its errors.
pub fn check_reply(chapter: &StructuredChapter, config: &OutputConfig) -> (r: (String, Vec<String>))
    ensures
        r.0@ == rendered(*chapter, config.render.template@),
        views(r.1@) == reply_errors(*chapter, *config),
{
    let options = ValidationOptions { require_heading: render_requires_heading(config) };
    let rendered_text = render_chapter_markdown(chapter, config);
    let mut errors = validate_structured_chapter(chapter, config);
    let found = validate_translation(rendered_text.as_str(), options).errors();
    let ghost before = views(errors@);
    let mut i: usize = 0;
    while i < found.len()
        invariant
            i <= found.len(),
            views(errors@) == before + views(found@).take(i as int),
        decreases found.len() - i,
    {
        proof {
            crate::text::lemma_views_push(errors@, found@[i as int]);
            assert(views(found@).take(i + 1) =~= views(found@).take(i as int).push(found@[i as int]@));
        }
        errors.push(found[i].clone());
        i = i + 1;
    }
    assert(views(found@).take(found.len() as int) =~= views(found@));
    (rendered_text, errors)
}

/// The error of a reply that failed validation.
pub open spec fn validation_failed_message(errors: Seq<Seq<char>>) -> Seq<char> {
    "Validation failed: "@ + join(errors, ", "@)
}

/// The error of a repair that failed validation.
pub open spec fn repair_failed_message(errors: Seq<Seq<char>>) -> Seq<char> {
    "Repair failed validation: "@ + join(errors, ", "@)
}

/// Formats the error of a reply that failed validation.
pub fn validation_failure_message(errors: &Vec<String>) -> (r: String)
    ensures
        r@ == validation_failed_message(views(errors@)),
{
    let mut r = lit("Validation failed: ");
    let j = join_strings(errors, ", ");
    r.append(j.as_str());
    r
}

/// Formats the error of a repair that failed validation.
pub fn repair_failure_message(errors: &Vec<String>) -> (r: String)
    ensures
        r@ == repair_failed_message(views(errors@)),
{
    let mut r = lit("Repair failed validation: ");
    let j = join_strings(errors, ", ");
    r.append(j.as_str());
    r
}

/// What follows a reply to a translation or repair request.
pub enum ReplyStep {
    /// The reply passed validation; its rendered markdown is accepted.
    Accept(String),
    /// The reply failed validation and goes to repair: its rendered markdown
    /// and its errors.
    Repair(String, Vec<String>),
    /// The chapter fails: the reply's errors and the message recorded.
    Fail(Vec<String>, String),
}

/// Checks a translation reply: accepted when it is valid; else repaired
/// when the first request succeeded (`api_attempt` 1); else failed with the
/// validation message.
pub fn after_translation_reply(chapter: &StructuredChapter, config: &OutputConfig, api_attempt: u32) -> (r: ReplyStep)
    ensures
        ({
            let errors = reply_errors(*chapter, *config);
            let text = rendered(*chapter, config.render.template@);
            match r {
                ReplyStep::Accept(m) => errors.len() == 0 && m@ == text,
                ReplyStep::Repair(m, e) => errors.len() > 0 && api_attempt == 1 && m@ == text && views(e@) == errors,
                ReplyStep::Fail(e, msg) => errors.len() > 0 && api_attempt != 1 && views(e@) == errors && msg@
                    == validation_failed_message(errors),
            }
        }),
{
    let (text, errors) = check_reply(chapter, config);
    if errors.len() == 0 {
        return ReplyStep::Accept(text);
    }
    if should_attempt_repair(api_attempt) {
        ReplyStep::Repair(text, errors)
    } else {
        let msg = validation_failure_message(&errors);
        ReplyStep::Fail(errors, msg)
    }
}

/// Checks a repair reply: accepted when it is valid, else failed with the
/// repair message. A repaired reply is never repaired again.
pub fn after_repair_reply(chapter: &StructuredChapter, config: &OutputConfig) -> (r: ReplyStep)
    ensures
        ({
            let errors = reply_errors(*chapter, *config);
            let text = rendered(*chapter, config.render.template@);
            match r {
                ReplyStep::Accept(m) => errors.len() == 0 && m@ == text,
                ReplyStep::Repair(_, _) => false,
                ReplyStep::Fail(e, msg) => errors.len() > 0 && views(e@) == errors && msg@ == repair_failed_message(
                    errors,
                ),
            }
        }),
{
    let (text, errors) = check_reply(chapter, config);
    if errors.len() == 0 {
        return ReplyStep::Accept(text);
    }
    let msg = repair_failure_message(&errors);
    ReplyStep::Fail(errors, msg)
}

/// `singular` for one, `plural` otherwise.
pub fn pluralize<'a>(count: usize, singular: &'a str, plural: &'a str) -> (r: &'a str)
    ensures
        r == if count == 1 {
            singular
        } else {
            plural
        },
{
    if count == 1 {
        singular
    } else {
        plural
    }
}

/// The verbose line about a chapter's glossary selection.
pub open spec fn glossary_info_text(selected: usize, total: usize, fallback: bool, mode: InjectionMode) -> Seq<char> {
    match mode {
        InjectionMode::Smart => if fallback {
            "smart fallback to full, "@ + decimal(selected as nat) + "/"@ + decimal(total as nat) + " terms"@
        } else {
            "smart selection, "@ + decimal(selected as nat) + "/"@ + decimal(total as nat) + " terms"@
        },
        InjectionMode::Full => "full, "@ + decimal(total as nat) + " terms"@,
    }
}

/// Describes a chapter's glossary selection.
pub fn glossary_info_line(selection: &SelectionResult, injection_mode: InjectionMode) -> (r: String)
    ensures
        r@ == glossary_info_text(selection.selected_count, selection.total_count, selection.used_fallback_to_full, injection_mode),
{
    match injection_mode {
        InjectionMode::Smart => {
            let mut r = if selection.used_fallback_to_full {
                lit("smart fallback to full, ")
            } else {
                lit("smart selection, ")
            };
            let a = usize_to_string(selection.selected_count);
            r.append(a.as_str());
            r.append("/");
            let b = usize_to_string(selection.total_count);
            r.append(b.as_str());
            r.append(" terms");
            r
        },
        InjectionMode::Full => {
            let mut r = lit("full, ");
            let b = usize_to_string(selection.total_count);
            r.append(b.as_str());
            r.append(" terms");
            r
        },
    }
}

/// Merges the terms an extraction found into the glossary.
///
/// Returns how many were added, each added term's key and fingerprint (in
/// order), and whether the glossary changed and must be saved.
pub fn merge_new_glossary_terms(glossary: &mut Vec<GlossaryTerm>, new_terms: Vec<GlossaryTerm>) -> (r: (
    usize,
    Vec<ChapterGlossaryTerm>,
    bool,
))
    ensures
        new_terms@.len() == 0 ==> r.0 == 0 && r.1@.len() == 0 && !r.2 && final(glossary)@ == old(glossary)@,
        new_terms@.len() > 0 ==> {
            let added = crate::glossary::new_terms(keys_of(old(glossary)@), new_terms@);
            &&& final(glossary)@ == crate::glossary::dedupe_spec(old(glossary)@ + added)
            &&& r.0 == added.len()
            &&& r.2 == (added.len() > 0)
            &&& r.1@.len() == added.len()
            &&& forall|i: int|
                0 <= i < added.len() ==> (#[trigger] r.1@[i]).key@ == term_key(added[i])
                    && r.1@[i].fingerprint@ == prompt_fingerprint(added[i])
        },
{
    if new_terms.len() == 0 {
        return (0, Vec::new(), false);
    }
    let mut existing: Vec<GlossaryTerm> = Vec::new();
    std::mem::swap(&mut existing, glossary);
    let (merged, added, _dupes, added_terms) = merge_terms(existing, new_terms);
    *glossary = merged;
    let mut exported: Vec<ChapterGlossaryTerm> = Vec::new();
    let mut i: usize = 0;
    while i < added_terms.len()
        invariant
            i <= added_terms.len(),
            exported@.len() == i,
            forall|j: int|
                0 <= j < i ==> (#[trigger] exported@[j]).key@ == term_key(added_terms@[j])
                    && exported@[j].fingerprint@ == prompt_fingerprint(added_terms@[j]),
        decreases added_terms.len() - i,
    {
        let t = &added_terms[i];
        exported.push(ChapterGlossaryTerm { key: glossary_term_key(t), fingerprint: glossary_term_prompt_fingerprint(t) });
        i = i + 1;
    }
    (added, exported, added > 0)
}

/// The paths of the chapter being translated.
pub struct ChapterPaths<'a> {
    pub raw_path: &'a str,
    pub out_path: &'a str,
    pub chapter_path: &'a str,
}

impl<'a> ChapterPaths<'a> {
    pub fn new(raw_path: &'a str, out_path: &'a str, chapter_path: &'a str) -> (r: Self)
        ensures
            r.raw_path == raw_path && r.out_path == out_path && r.chapter_path == chapter_path,
    {
        ChapterPaths { raw_path, out_path, chapter_path }
    }
}

/// What every chapter of a run shares: the translators, the style guide,
/// the output configuration, the injection mode and the book's paths.
pub struct ChapterContext<'a, T> {
    pub translators: &'a T,
    pub style_guide: &'a Option<String>,
    pub output_config: &'a OutputConfig,
    pub injection_mode: InjectionMode,
    pub glossary_path: &'a str,
    pub book_dir: &'a str,
}

impl<'a, T> ChapterContext<'a, T> {
    pub fn new(
        translators: &'a T,
        style_guide: &'a Option<String>,
        output_config: &'a OutputConfig,
        injection_mode: InjectionMode,
        glossary_path: &'a str,
        book_dir: &'a str,
    ) -> (r: Self)
        ensures
            r.translators == translators && r.style_guide == style_guide && r.output_config == output_config
                && r.injection_mode == injection_mode && r.glossary_path == glossary_path && r.book_dir == book_dir,
    {
        ChapterContext { translators, style_guide, output_config, injection_mode, glossary_path, book_dir }
    }
}

} // verus!
