//! The options of a translation run and the decisions made from them.

use vstd::prelude::*;

use crate::text::{decimal, lit, u64_to_string};
use crate::translate::orchestrate::ChapterResult;
use crate::translate::types::{usage_plus, usage_sum_fits, TranslationUsage};
use crate::RerunMode;

verus! {

/// The options of `cipher translate`.
pub struct TranslateOptions {
    pub profile: Option<String>,
    pub repair_profile: Option<String>,
    pub glossary_profile: Option<String>,
    pub overwrite: bool,
    pub fail_fast: bool,
    pub rerun: Option<RerunMode>,
    pub dry_run: bool,
}

impl TranslateOptions {
    /// Whether the run reruns chapters that glossary changes affect.
    pub fn rerun_glossary_enabled(&self) -> (r: bool)
        ensures
            r == (self.rerun == Some(RerunMode::All) || self.rerun == Some(RerunMode::Glossary)),
    {
        match self.rerun {
            Some(RerunMode::All) => true,
            Some(RerunMode::Glossary) => true,
            _ => false,
        }
    }

    /// Whether the run reruns chapters whose source changed.
    pub fn rerun_chapters_enabled(&self) -> (r: bool)
        ensures
            r == (self.rerun == Some(RerunMode::All) || self.rerun == Some(RerunMode::Source)),
    {
        match self.rerun {
            Some(RerunMode::All) => true,
            Some(RerunMode::Source) => true,
            _ => false,
        }
    }
}

/// A duration in milliseconds as whole seconds: `Ns`, or `MmSSs` from a
/// minute on.
pub open spec fn time_text(ms: u64) -> Seq<char> {
    let s = ms / 1000;
    if s >= 60 {
        decimal((s / 60) as nat) + "m"@ + (if s % 60 < 10 {
            "0"@
        } else {
            Seq::empty()
        }) + decimal((s % 60) as nat) + "s"@
    } else {
        decimal(s as nat) + "s"@
    }
}

/// Formats a duration for the chapter lines.
pub fn fmt_time(ms: u64) -> (r: String)
    ensures
        r@ == time_text(ms),
{
    let total_s = ms / 1000;
    if total_s >= 60 {
        let mut r = u64_to_string(total_s / 60);
        r.append("m");
        if total_s % 60 < 10 {
            r.append("0");
        }
        let secs = u64_to_string(total_s % 60);
        r.append(secs.as_str());
        r.append("s");
        r
    } else {
        let mut r = u64_to_string(total_s);
        r.append("s");
        r
    }
}

/// The exit status of a finished run: 2 when a chapter failed, else 0.
pub fn run_exit_code(failed: usize) -> (r: i32)
    ensures
        r == (if failed > 0 {
            2i32
        } else {
            0i32
        }),
{
    if failed > 0 {
        2
    } else {
        0
    }
}

/// How many of the chapters whose outputs exist or not are missing one.
pub open spec fn count_missing(output_exists: Seq<bool>) -> nat
    decreases output_exists.len(),
{
    if output_exists.len() == 0 {
        0
    } else {
        count_missing(output_exists.drop_last()) + if output_exists.last() {
            0nat
        } else {
            1nat
        }
    }
}

/// How many chapters the run announces it translates: all of them with
/// `overwrite`, else those without an output.
pub fn chapters_to_process(overwrite: bool, output_exists: &[bool]) -> (r: usize)
    ensures
        r == if overwrite {
            output_exists@.len()
        } else {
            count_missing(output_exists@)
        },
{
    if overwrite {
        return output_exists.len();
    }
    let mut n: usize = 0;
    let mut i: usize = 0;
    while i < output_exists.len()
        invariant
            i <= output_exists.len(),
            n == count_missing(output_exists@.take(i as int)),
            n <= i,
        decreases output_exists.len() - i,
    {
        proof {
            assert(output_exists@.take(i + 1).drop_last() =~= output_exists@.take(i as int));
        }
        if !output_exists[i] {
            n = n + 1;
        }
        i = i + 1;
    }
    assert(output_exists@.take(output_exists.len() as int) =~= output_exists@);
    n
}

/// The running totals of a translation run.
pub struct RunTally {
    pub translated: usize,
    pub skipped: usize,
    pub failed: usize,
    pub new_glossary_terms: usize,
    pub usage: TranslationUsage,
}

/// What the chapter loop does after it has recorded a chapter.
#[derive(Debug, Clone, Copy, PartialEq, Eq, Structural)]
pub struct AfterChapter {
    /// The glossary rerun plan is rebuilt for the chapters left.
    pub replan_glossary: bool,
    /// The loop stops: the chapter failed and the run fails fast.
    pub stop: bool,
}

/// No total overflows when `result` is recorded in `t`.
pub open spec fn tally_fits(t: RunTally, result: ChapterResult) -> bool {
    &&& result.translated ==> t.translated < usize::MAX
    &&& result.skipped ==> t.skipped < usize::MAX
    &&& result.failed ==> t.failed < usize::MAX
    &&& t.new_glossary_terms + result.new_terms_added <= usize::MAX
    &&& result.usage.is_some() ==> usage_sum_fits(t.usage, result.usage.unwrap())
}

/// One for a set flag, else zero.
pub open spec fn one_if(b: bool) -> int {
    if b {
        1
    } else {
        0
    }
}

impl RunTally {
    /// Totals before the first chapter: all zero.
    pub fn new() -> (r: Self)
        ensures
            r.translated == 0 && r.skipped == 0 && r.failed == 0 && r.new_glossary_terms == 0,
            r.usage == TranslationUsage::zero_spec(),
    {
        RunTally { translated: 0, skipped: 0, failed: 0, new_glossary_terms: 0, usage: TranslationUsage::zero() }
    }

    /// Whether `result` can be recorded without a total overflowing.
    pub fn fits(&self, result: &ChapterResult) -> (r: bool)
        ensures
            r == tally_fits(*self, *result),
    {
        if result.translated && self.translated == usize::MAX {
            return false;
        }
        if result.skipped && self.skipped == usize::MAX {
            return false;
        }
        if result.failed && self.failed == usize::MAX {
            return false;
        }
        if result.new_terms_added > usize::MAX - self.new_glossary_terms {
            return false;
        }
        match result.usage {
            Some(u) => self.usage.fits_with(u),
            None => true,
        }
    }

    /// Counts a chapter's outcome, adds its usage and new terms, and says
    /// whether the glossary plan is rebuilt for the `chapters_left` still to
    /// come and whether the loop stops.
    pub fn record(&mut self, result: &ChapterResult, rerun_glossary: bool, chapters_left: usize, fail_fast: bool) -> (r:
        AfterChapter)
        requires
            tally_fits(*old(self), *result),
        ensures
            final(self).translated == old(self).translated + one_if(result.translated),
            final(self).skipped == old(self).skipped + one_if(result.skipped),
            final(self).failed == old(self).failed + one_if(result.failed),
            final(self).new_glossary_terms == old(self).new_glossary_terms + result.new_terms_added,
            final(self).usage == match result.usage {
                Some(u) => usage_plus(old(self).usage, u),
                None => old(self).usage,
            },
            r.replan_glossary == (result.new_terms_added > 0 && rerun_glossary && chapters_left > 0),
            r.stop == (result.failed && fail_fast),
    {
        if result.translated {
            self.translated = self.translated + 1;
        }
        if result.skipped {
            self.skipped = self.skipped + 1;
        }
        if result.failed {
            self.failed = self.failed + 1;
        }
        if let Some(u) = result.usage {
            self.usage.add_assign(u);
        }
        self.new_glossary_terms = self.new_glossary_terms + result.new_terms_added;
        AfterChapter {
            replan_glossary: result.new_terms_added > 0 && rerun_glossary && chapters_left > 0,
            stop: result.failed && fail_fast,
        }
    }
}

} // verus!
