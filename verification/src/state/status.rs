//! The summary of how chapters record their glossary use, shown by `cipher status`.

use vstd::prelude::*;

use crate::glossary::InjectionMode;
use crate::state::ChapterState;
use crate::strmap::StrMap;

verus! {

/// How the recorded chapters record their glossary use and source hash.
#[derive(Debug, Default, Clone, Copy, PartialEq, Eq, Structural)]
pub struct TrackingSummary {
    pub smart_selection: usize,
    pub fallback_to_full: usize,
    pub legacy_full_selection: usize,
    pub approximate_legacy_fallback: usize,
    pub exported_terms_recorded: usize,
    pub source_hash_recorded: usize,
    pub missing_source_hash: usize,
}

/// How many of `states` satisfy `f`.
pub open spec fn count_states(states: Seq<ChapterState>, f: spec_fn(ChapterState) -> bool) -> nat
    decreases states.len(),
{
    if states.len() == 0 {
        0
    } else {
        count_states(states.drop_last(), f) + if f(states.last()) {
            1nat
        } else {
            0nat
        }
    }
}

/// A chapter recorded smart selection without fallback.
pub open spec fn smart_recorded(s: ChapterState) -> bool {
    s.glossary_usage.is_some() && s.glossary_usage.unwrap().injection_mode == InjectionMode::Smart
        && !s.glossary_usage.unwrap().used_fallback_to_full
}

/// A chapter recorded smart selection that fell back to the full glossary.
pub open spec fn fallback_recorded(s: ChapterState) -> bool {
    s.glossary_usage.is_some() && s.glossary_usage.unwrap().injection_mode == InjectionMode::Smart
        && s.glossary_usage.unwrap().used_fallback_to_full
}

/// A chapter recorded legacy full selection.
pub open spec fn full_recorded(s: ChapterState) -> bool {
    s.glossary_usage.is_some() && s.glossary_usage.unwrap().injection_mode == InjectionMode::Full
}

/// Chapters that recorded smart selection without fallback.
pub open spec fn smart_pred() -> spec_fn(ChapterState) -> bool {
    |s: ChapterState| smart_recorded(s)
}

/// Chapters that recorded a fallback to the full glossary.
pub open spec fn fallback_pred() -> spec_fn(ChapterState) -> bool {
    |s: ChapterState| fallback_recorded(s)
}

/// Chapters that recorded legacy full selection.
pub open spec fn full_pred() -> spec_fn(ChapterState) -> bool {
    |s: ChapterState| full_recorded(s)
}

/// Chapters without recorded glossary usage.
pub open spec fn no_usage_pred() -> spec_fn(ChapterState) -> bool {
    |s: ChapterState| s.glossary_usage.is_none()
}

/// Chapters with recorded glossary usage.
pub open spec fn usage_pred() -> spec_fn(ChapterState) -> bool {
    |s: ChapterState| s.glossary_usage.is_some()
}

/// Chapters with a recorded source hash.
pub open spec fn hash_pred() -> spec_fn(ChapterState) -> bool {
    |s: ChapterState| s.source_text_hash.is_some()
}

/// Chapters without a recorded source hash.
pub open spec fn no_hash_pred() -> spec_fn(ChapterState) -> bool {
    |s: ChapterState| s.source_text_hash.is_none()
}

/// Counts how the chapters record their glossary use and source hash.
pub fn summarize_tracking(chapters: &StrMap<ChapterState>) -> (r: TrackingSummary)
    ensures
        r.smart_selection == count_states(chapters.values(), smart_pred()),
        r.fallback_to_full == count_states(chapters.values(), fallback_pred()),
        r.legacy_full_selection == count_states(chapters.values(), full_pred()),
        r.approximate_legacy_fallback == count_states(chapters.values(), no_usage_pred()),
        r.exported_terms_recorded == count_states(chapters.values(), usage_pred()),
        r.source_hash_recorded == count_states(chapters.values(), hash_pred()),
        r.missing_source_hash == count_states(chapters.values(), no_hash_pred()),
        r.smart_selection + r.fallback_to_full + r.legacy_full_selection + r.approximate_legacy_fallback
            == chapters.values().len(),
        r.exported_terms_recorded + r.approximate_legacy_fallback == chapters.values().len(),
        r.source_hash_recorded + r.missing_source_hash == chapters.values().len(),
{
    let ghost vs = chapters.values();
    let mut r = TrackingSummary {
        smart_selection: 0,
        fallback_to_full: 0,
        legacy_full_selection: 0,
        approximate_legacy_fallback: 0,
        exported_terms_recorded: 0,
        source_hash_recorded: 0,
        missing_source_hash: 0,
    };
    let n = chapters.len();
    let mut i: usize = 0;
    while i < n
        invariant
            n == vs.len(),
            n == chapters.keys().len(),
            vs == chapters.values(),
            i <= n,
            r.smart_selection == count_states(vs.take(i as int), smart_pred()),
            r.fallback_to_full == count_states(vs.take(i as int), fallback_pred()),
            r.legacy_full_selection == count_states(vs.take(i as int), full_pred()),
            r.approximate_legacy_fallback == count_states(vs.take(i as int), no_usage_pred()),
            r.exported_terms_recorded == count_states(vs.take(i as int), usage_pred()),
            r.source_hash_recorded == count_states(vs.take(i as int), hash_pred()),
            r.missing_source_hash == count_states(vs.take(i as int), no_hash_pred()),
            r.smart_selection + r.fallback_to_full + r.legacy_full_selection
                + r.approximate_legacy_fallback == i,
            r.exported_terms_recorded + r.approximate_legacy_fallback == i,
            r.source_hash_recorded + r.missing_source_hash == i,
        decreases n - i,
    {
        let (_, chapter) = chapters.entry_at(i);
        proof {
            assert(vs.take(i + 1).drop_last() =~= vs.take(i as int));
            assert(vs.take(i + 1).last() == *chapter);
        }
        if chapter.source_text_hash.is_some() {
            r.source_hash_recorded = r.source_hash_recorded + 1;
        } else {
            r.missing_source_hash = r.missing_source_hash + 1;
        }
        match &chapter.glossary_usage {
            Some(usage) => {
                r.exported_terms_recorded = r.exported_terms_recorded + 1;
                match usage.injection_mode {
                    InjectionMode::Smart => {
                        if !usage.used_fallback_to_full {
                            r.smart_selection = r.smart_selection + 1;
                        } else {
                            r.fallback_to_full = r.fallback_to_full + 1;
                        }
                    },
                    InjectionMode::Full => {
                        r.legacy_full_selection = r.legacy_full_selection + 1;
                    },
                }
            },
            None => {
                r.approximate_legacy_fallback = r.approximate_legacy_fallback + 1;
            },
        }
        i = i + 1;
    }
    assert(vs.take(n as int) =~= vs);
    r
}


/// How the status shows a failed chapter: its name, and its error cut to
/// 60 characters when there is one.
pub open spec fn failed_line_of(filename: Seq<char>, error: Option<String>) -> Seq<char> {
    match error {
        Some(e) => filename + ": "@ + crate::text::preview_of(e@, 60),
        None => filename,
    }
}

/// The status line of a failed chapter.
pub fn failed_chapter_line(filename: &str, error: &Option<String>) -> (r: String)
    ensures
        r@ == failed_line_of(filename@, *error),
{
    let mut r = crate::text::lit(filename);
    match error {
        Some(e) => {
            r.append(": ");
            let p = crate::text::preview(e.as_str(), 60);
            r.append(p.as_str());
        },
        None => {},
    }
    r
}

} // verus!
