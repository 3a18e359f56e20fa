//! The plans and outcomes of rerun decisions.

use vstd::prelude::*;

use crate::strmap::StrMap;

verus! {

/// Why a chapter is translated again, and whether the reason was only
/// estimated.
pub struct RerunDecision {
    pub reason: String,
    pub is_approximate: bool,
}

impl Clone for RerunDecision {
    fn clone(&self) -> (r: Self)
        ensures
            r == *self,
    {
        RerunDecision { reason: self.reason.clone(), is_approximate: self.is_approximate }
    }
}

/// The chapters a glossary change forces to be translated again.
pub struct GlossaryRerunPlan {
    pub forced_chapters: StrMap<RerunDecision>,
    pub warnings: Vec<String>,
    pub changed_term_count: usize,
    pub approximate_smart_checks: usize,
}

impl Default for GlossaryRerunPlan {
    fn default() -> (r: Self)
        ensures
            r.forced_chapters.keys().len() == 0,
            r.warnings@.len() == 0,
            r.changed_term_count == 0,
            r.approximate_smart_checks == 0,
    {
        GlossaryRerunPlan {
            forced_chapters: StrMap::new(),
            warnings: Vec::new(),
            changed_term_count: 0,
            approximate_smart_checks: 0,
        }
    }
}

impl GlossaryRerunPlan {
    /// The decision for a chapter, if the plan forces it.
    pub fn decision_for(&self, filename: &str) -> (r: Option<&RerunDecision>)
        ensures
            match r {
                Some(d) => self.forced_chapters.map().contains_key(filename@)
                    && self.forced_chapters.map()[filename@] == *d,
                None => !self.forced_chapters.map().contains_key(filename@),
            },
    {
        self.forced_chapters.get(filename)
    }
}

/// The chapters whose changed source forces them to be translated again.
pub struct SourceRerunPlan {
    pub forced_chapters: StrMap<RerunDecision>,
    pub untracked_chapters: usize,
}

impl Default for SourceRerunPlan {
    fn default() -> (r: Self)
        ensures
            r.forced_chapters.keys().len() == 0,
            r.untracked_chapters == 0,
    {
        SourceRerunPlan { forced_chapters: StrMap::new(), untracked_chapters: 0 }
    }
}

impl SourceRerunPlan {
    /// The decision for a chapter, if the plan forces it.
    pub fn decision_for(&self, filename: &str) -> (r: Option<&RerunDecision>)
        ensures
            match r {
                Some(d) => self.forced_chapters.map().contains_key(filename@)
                    && self.forced_chapters.map()[filename@] == *d,
                None => !self.forced_chapters.map().contains_key(filename@),
            },
    {
        self.forced_chapters.get(filename)
    }
}

/// What happens to the glossary baseline at the end of a run.
#[derive(Debug, Clone, Copy, PartialEq, Eq, Structural)]
pub enum BaselineAction {
    KeepExisting,
    InitializeFromRunStart,
    CommitRunEnd,
}

/// The baseline decision and how many chapters are still stale.
#[derive(Debug, Clone, Copy, PartialEq, Eq, Structural)]
pub struct GlossaryBaselineOutcome {
    pub action: BaselineAction,
    pub remaining_forced_chapters: usize,
}

/// What migrating legacy full-glossary tracking rewrote.
#[derive(Debug, Clone, Copy, PartialEq, Eq, Structural)]
pub struct LegacyTrackingMigration {
    pub migrated_chapters: usize,
    pub migrated_glossary_baseline: bool,
}

impl Default for LegacyTrackingMigration {
    fn default() -> (r: Self)
        ensures
            r.migrated_chapters == 0,
            !r.migrated_glossary_baseline,
    {
        LegacyTrackingMigration { migrated_chapters: 0, migrated_glossary_baseline: false }
    }
}

/// A chapter as the rerun decisions see it: its state key, whether its
/// translation exists, and its source text.
pub struct ChapterSource {
    pub chapter_path: String,
    pub has_output: bool,
    pub text: String,
}

} // verus!
