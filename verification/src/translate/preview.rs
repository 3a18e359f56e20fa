//! The dry-run preview: what a run would do with each chapter, and why.

use vstd::prelude::*;

use crate::text::{lit, trim};
use crate::translate::cmd::TranslateOptions;
use crate::translate::rerun::types::RerunDecision;

verus! {

/// The reason given for an empty chapter.
pub const EMPTY_CHAPTER_SKIP_REASON: &'static str = "Chapter is empty";

/// The reason given for an existing output that nothing forces to rerun.
pub const OUTPUT_EXISTS_SKIP_REASON: &'static str = "Output exists and no rerun reason matched";

/// The reason given for a chapter without output.
pub const OUTPUT_MISSING_REASON: &'static str = "No output exists yet";

/// What a run does with a chapter.
#[derive(Debug, Clone, Copy, PartialEq, Eq, Structural)]
pub enum PreviewAction {
    Translate,
    Rerun,
    Skip,
}

/// A chapter's planned action and its reason.
#[derive(Debug, PartialEq, Eq)]
pub struct ChapterPreview {
    pub chapter_path: String,
    pub action: PreviewAction,
    pub reason: String,
    pub approximate: bool,
}

/// Counts of planned actions and their reasons.
#[derive(Debug, Default, Clone, Copy, PartialEq, Eq, Structural)]
pub struct PreviewSummary {
    pub translate: usize,
    pub rerun: usize,
    pub skip: usize,
    pub approximate_reruns: usize,
    pub exact_reruns: usize,
    pub empty_skips: usize,
    pub output_exists_skips: usize,
    pub output_missing: usize,
}

/// The planned action, reason and approximation flag for a chapter: empty
/// chapters are skipped; with overwrite, existing outputs are rerun and
/// missing ones translated; else a rerun decision reruns; a missing output
/// is translated; anything else is skipped.
pub open spec fn planned(
    text: Seq<char>,
    output_exists: bool,
    overwrite: bool,
    decision: Option<RerunDecision>,
) -> (PreviewAction, Seq<char>, bool) {
    if trim(text).len() == 0 {
        (PreviewAction::Skip, EMPTY_CHAPTER_SKIP_REASON@, false)
    } else if overwrite {
        if output_exists {
            (PreviewAction::Rerun, "Overwrite requested"@, false)
        } else {
            (PreviewAction::Translate, OUTPUT_MISSING_REASON@, false)
        }
    } else if decision.is_some() {
        (PreviewAction::Rerun, decision.unwrap().reason@, decision.unwrap().is_approximate)
    } else if !output_exists {
        (PreviewAction::Translate, OUTPUT_MISSING_REASON@, false)
    } else {
        (PreviewAction::Skip, OUTPUT_EXISTS_SKIP_REASON@, false)
    }
}

/// The preview of one chapter, from its text.
pub fn preview_for_chapter(
    chapter_text: &str,
    chapter_path: String,
    output_exists: bool,
    options: &TranslateOptions,
    rerun_decision: Option<&RerunDecision>,
) -> (r: ChapterPreview)
    ensures
        r.chapter_path == chapter_path,
        ({
            let p = planned(
                chapter_text@,
                output_exists,
                options.overwrite,
                match rerun_decision {
                    Some(d) => Some(*d),
                    None => None,
                },
            );
            r.action == p.0 && r.reason@ == p.1 && r.approximate == p.2
        }),
{
    if crate::text::is_blank(chapter_text) {
        return ChapterPreview {
            chapter_path,
            action: PreviewAction::Skip,
            reason: lit(EMPTY_CHAPTER_SKIP_REASON),
            approximate: false,
        };
    }
    if options.overwrite {
        if output_exists {
            return ChapterPreview {
                chapter_path,
                action: PreviewAction::Rerun,
                reason: lit("Overwrite requested"),
                approximate: false,
            };
        } else {
            return ChapterPreview {
                chapter_path,
                action: PreviewAction::Translate,
                reason: lit(OUTPUT_MISSING_REASON),
                approximate: false,
            };
        }
    }
    match rerun_decision {
        Some(d) => {
            return ChapterPreview {
                chapter_path,
                action: PreviewAction::Rerun,
                reason: d.reason.clone(),
                approximate: d.is_approximate,
            };
        },
        None => {},
    }
    if !output_exists {
        return ChapterPreview {
            chapter_path,
            action: PreviewAction::Translate,
            reason: lit(OUTPUT_MISSING_REASON),
            approximate: false,
        };
    }
    ChapterPreview {
        chapter_path,
        action: PreviewAction::Skip,
        reason: lit(OUTPUT_EXISTS_SKIP_REASON),
        approximate: false,
    }
}

/// The name of an action.
pub open spec fn action_name(a: PreviewAction) -> Seq<char> {
    match a {
        PreviewAction::Translate => "Translate"@,
        PreviewAction::Rerun => "Rerun"@,
        PreviewAction::Skip => "Skip"@,
    }
}

/// The line a preview prints for a chapter.
pub open spec fn display_line(p: ChapterPreview) -> Seq<char> {
    if p.action == PreviewAction::Skip && p.reason@ == EMPTY_CHAPTER_SKIP_REASON@ {
        action_name(p.action) + " "@ + p.chapter_path@ + ": chapter is empty"@
    } else {
        action_name(p.action) + " "@ + p.chapter_path@
    }
}

/// Formats a chapter's preview line.
pub fn preview_display_line(preview: &ChapterPreview) -> (r: String)
    ensures
        r@ == display_line(*preview),
{
    let mut r = match preview.action {
        PreviewAction::Translate => lit("Translate"),
        PreviewAction::Rerun => lit("Rerun"),
        PreviewAction::Skip => lit("Skip"),
    };
    r.append(" ");
    r.append(preview.chapter_path.as_str());
    if preview.action == PreviewAction::Skip && crate::strmap::str_eq(preview.reason.as_str(), EMPTY_CHAPTER_SKIP_REASON) {
        r.append(": chapter is empty");
    }
    r
}

/// How many previews satisfy `f`.
pub open spec fn count_where(ps: Seq<ChapterPreview>, f: spec_fn(ChapterPreview) -> bool) -> nat
    decreases ps.len(),
{
    if ps.len() == 0 {
        0
    } else {
        count_where(ps.drop_last(), f) + if f(ps.last()) {
            1nat
        } else {
            0nat
        }
    }
}

pub proof fn lemma_count_where_bound(ps: Seq<ChapterPreview>, f: spec_fn(ChapterPreview) -> bool)
    ensures
        count_where(ps, f) <= ps.len(),
    decreases ps.len(),
{
    if ps.len() > 0 {
        lemma_count_where_bound(ps.drop_last(), f);
    }
}

/// Counts the planned actions by kind and reason.
pub fn summarize_previews(previews: &[ChapterPreview]) -> (r: PreviewSummary)
    ensures
        r.translate == count_where(previews@, |p: ChapterPreview| p.action == PreviewAction::Translate),
        r.rerun == count_where(previews@, |p: ChapterPreview| p.action == PreviewAction::Rerun),
        r.skip == count_where(previews@, |p: ChapterPreview| p.action == PreviewAction::Skip),
        r.output_missing == count_where(
            previews@,
            |p: ChapterPreview| p.action == PreviewAction::Translate && p.reason@ == OUTPUT_MISSING_REASON@,
        ),
        r.approximate_reruns == count_where(previews@, |p: ChapterPreview| p.action == PreviewAction::Rerun && p.approximate),
        r.exact_reruns == count_where(previews@, |p: ChapterPreview| p.action == PreviewAction::Rerun && !p.approximate),
        r.empty_skips == count_where(
            previews@,
            |p: ChapterPreview| p.action == PreviewAction::Skip && p.reason@ == EMPTY_CHAPTER_SKIP_REASON@,
        ),
        r.output_exists_skips == count_where(
            previews@,
            |p: ChapterPreview| p.action == PreviewAction::Skip && p.reason@ == OUTPUT_EXISTS_SKIP_REASON@,
        ),
        r.translate + r.rerun + r.skip == previews@.len(),
        r.approximate_reruns + r.exact_reruns == r.rerun,
{
    let ghost ps = previews@;
    let ghost f_t = |p: ChapterPreview| p.action == PreviewAction::Translate;
    let ghost f_r = |p: ChapterPreview| p.action == PreviewAction::Rerun;
    let ghost f_s = |p: ChapterPreview| p.action == PreviewAction::Skip;
    let ghost f_om = |p: ChapterPreview| p.action == PreviewAction::Translate && p.reason@ == OUTPUT_MISSING_REASON@;
    let ghost f_ar = |p: ChapterPreview| p.action == PreviewAction::Rerun && p.approximate;
    let ghost f_er = |p: ChapterPreview| p.action == PreviewAction::Rerun && !p.approximate;
    let ghost f_es = |p: ChapterPreview| p.action == PreviewAction::Skip && p.reason@ == EMPTY_CHAPTER_SKIP_REASON@;
    let ghost f_os = |p: ChapterPreview| p.action == PreviewAction::Skip && p.reason@ == OUTPUT_EXISTS_SKIP_REASON@;
    let mut s = PreviewSummary {
        translate: 0,
        rerun: 0,
        skip: 0,
        approximate_reruns: 0,
        exact_reruns: 0,
        empty_skips: 0,
        output_exists_skips: 0,
        output_missing: 0,
    };
    let mut i: usize = 0;
    while i < previews.len()
        invariant
            i <= previews.len(),
            ps == previews@,
            s.translate == count_where(ps.take(i as int), f_t),
            s.rerun == count_where(ps.take(i as int), f_r),
            s.skip == count_where(ps.take(i as int), f_s),
            s.output_missing == count_where(ps.take(i as int), f_om),
            s.approximate_reruns == count_where(ps.take(i as int), f_ar),
            s.exact_reruns == count_where(ps.take(i as int), f_er),
            s.empty_skips == count_where(ps.take(i as int), f_es),
            s.output_exists_skips == count_where(ps.take(i as int), f_os),
            s.translate + s.rerun + s.skip == i,
            s.approximate_reruns + s.exact_reruns == s.rerun,
            s.output_missing <= i,
            s.approximate_reruns <= i,
            s.exact_reruns <= i,
            s.empty_skips <= i,
            s.output_exists_skips <= i,
            f_t == (|p: ChapterPreview| p.action == PreviewAction::Translate),
            f_r == (|p: ChapterPreview| p.action == PreviewAction::Rerun),
            f_s == (|p: ChapterPreview| p.action == PreviewAction::Skip),
            f_om == (|p: ChapterPreview| p.action == PreviewAction::Translate && p.reason@ == OUTPUT_MISSING_REASON@),
            f_ar == (|p: ChapterPreview| p.action == PreviewAction::Rerun && p.approximate),
            f_er == (|p: ChapterPreview| p.action == PreviewAction::Rerun && !p.approximate),
            f_es == (|p: ChapterPreview| p.action == PreviewAction::Skip && p.reason@ == EMPTY_CHAPTER_SKIP_REASON@),
            f_os == (|p: ChapterPreview| p.action == PreviewAction::Skip && p.reason@ == OUTPUT_EXISTS_SKIP_REASON@),
        decreases previews.len() - i,
    {
        let p = &previews[i];
        proof {
            assert(ps.take(i + 1).drop_last() =~= ps.take(i as int));
            assert(ps.take(i + 1).last() == *p);
        }
        match p.action {
            PreviewAction::Translate => {
                s.translate = s.translate + 1;
                if crate::strmap::str_eq(p.reason.as_str(), OUTPUT_MISSING_REASON) {
                    s.output_missing = s.output_missing + 1;
                }
            },
            PreviewAction::Rerun => {
                s.rerun = s.rerun + 1;
                if p.approximate {
                    s.approximate_reruns = s.approximate_reruns + 1;
                } else {
                    s.exact_reruns = s.exact_reruns + 1;
                }
            },
            PreviewAction::Skip => {
                s.skip = s.skip + 1;
                if crate::strmap::str_eq(p.reason.as_str(), EMPTY_CHAPTER_SKIP_REASON) {
                    s.empty_skips = s.empty_skips + 1;
                }
                if crate::strmap::str_eq(p.reason.as_str(), OUTPUT_EXISTS_SKIP_REASON) {
                    s.output_exists_skips = s.output_exists_skips + 1;
                }
            },
        }
        i = i + 1;
    }
    assert(ps.take(previews.len() as int) =~= ps);
    s
}

} // verus!
