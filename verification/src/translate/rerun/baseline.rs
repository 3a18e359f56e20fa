//! When the glossary baseline moves at the end of a run, and the rewriting
//! of legacy full-glossary tracking.

use vstd::prelude::*;

use crate::glossary::{select_terms_for_text, selection_fallback, selection_terms, GlossaryTerm, InjectionMode};
use crate::state::{ChapterGlossaryUsage, ChapterState, GlossaryState};
use crate::strmap::StrMap;
use crate::text::{lemma_views_push, trim, views};
use crate::translate::rerun::decisions::changed_since;
use crate::translate::rerun::glossary::{
    build_chapter_glossary_usage, build_glossary_state, changed_prompt_relevant_keys, is_state_of,
    count_chapters_still_stale_for_current_glossary, fingerprints_by_key, key_changed,
    lemma_fingerprints_by_key, lemma_represents_equal, lemma_usage_view_of_selection, stale_count,
    state_fingerprints, terms_by_key, usage_fingerprint_map, usage_view,
};
use crate::translate::rerun::types::{BaselineAction, ChapterSource, GlossaryBaselineOutcome, LegacyTrackingMigration};

verus! {

/// The baseline of the current glossary has the fingerprints of the
/// glossary by key.
proof fn lemma_built_state_fingerprints(s: GlossaryState, g: Seq<GlossaryTerm>)
    requires
        forall|k: Seq<char>| #[trigger] s.terms.map().contains_key(k) <==> terms_by_key(g).contains_key(k),
        forall|k: Seq<char>| s.terms.map().contains_key(k) ==> crate::translate::rerun::glossary::records_term(#[trigger] s.terms.map()[k], terms_by_key(g)[k]),
    ensures
        state_fingerprints(s.terms.map()) == fingerprints_by_key(g),
{
    lemma_fingerprints_by_key(g);
    let cur = state_fingerprints(s.terms.map());
    let fk = fingerprints_by_key(g);
    let tk = terms_by_key(g);
    assert forall|k: Seq<char>| #[trigger] cur.dom().contains(k) == fk.dom().contains(k) by {
        assert(s.terms.map().contains_key(k) == tk.contains_key(k));
        assert(fk.contains_key(k) == tk.contains_key(k));
    }
    assert forall|k: Seq<char>| cur.contains_key(k) implies #[trigger] cur[k] == fk[k] by {
        assert(tk.contains_key(k));
        assert(fk.contains_key(k));
    }
    assert(cur.dom() =~= fk.dom());
    assert(cur =~= fk);
}

/// The baseline decision at the end of a run.
pub open spec fn baseline_outcome(
    rerun_glossary_enabled: bool,
    previous: Option<GlossaryState>,
    chapters: Seq<ChapterSource>,
    states: Map<Seq<char>, ChapterState>,
    g: Seq<GlossaryTerm>,
    mode: InjectionMode,
    failed: usize,
) -> (BaselineAction, nat) {
    if failed > 0 {
        (BaselineAction::KeepExisting, 0)
    } else if previous.is_none() {
        (BaselineAction::InitializeFromRunStart, 0)
    } else if !rerun_glossary_enabled {
        (BaselineAction::KeepExisting, 0)
    } else if previous.unwrap().injection_mode == mode && changed_since(previous, g).len() == 0 {
        (BaselineAction::KeepExisting, 0)
    } else {
        let remaining = stale_count(chapters, states, g, mode);
        if remaining == 0 {
            (BaselineAction::CommitRunEnd, 0)
        } else {
            (BaselineAction::KeepExisting, remaining)
        }
    }
}

/// Decides whether the glossary baseline moves at the end of a run.
///
/// With no baseline yet, the run-start glossary becomes it
/// (`InitializeFromRunStart`, which the caller saves). In a glossary rerun
/// that leaves no translated chapter stale, the current glossary becomes
/// it (`CommitRunEnd`, returned to be saved). Otherwise it stays, and the
/// number of still stale chapters is given.
pub fn finalize_glossary_baseline(
    rerun_glossary_enabled: bool,
    previous_glossary_state: Option<&GlossaryState>,
    chapters: &[ChapterSource],
    chapter_states: &StrMap<ChapterState>,
    glossary: &[GlossaryTerm],
    injection_mode: InjectionMode,
    failed: usize,
) -> (r: (GlossaryBaselineOutcome, Option<GlossaryState>))
    ensures
        ({
            let prev = match previous_glossary_state {
                Some(p) => Some(*p),
                None => None,
            };
            let o = baseline_outcome(rerun_glossary_enabled, prev, chapters@, chapter_states.map(), glossary@, injection_mode, failed);
            &&& r.0.action == o.0
            &&& r.0.remaining_forced_chapters == o.1
            &&& r.1.is_some() <==> o.0 == BaselineAction::CommitRunEnd
            &&& r.1.is_some() ==> is_state_of(r.1.unwrap(), glossary@, injection_mode)
                && state_fingerprints(r.1.unwrap().terms.map()) == fingerprints_by_key(glossary@)
        }),
{
    if failed > 0 {
        return (GlossaryBaselineOutcome { action: BaselineAction::KeepExisting, remaining_forced_chapters: 0 }, None);
    }
    let previous = match previous_glossary_state {
        None => {
            return (
                GlossaryBaselineOutcome { action: BaselineAction::InitializeFromRunStart, remaining_forced_chapters: 0 },
                None,
            );
        },
        Some(p) => p,
    };
    if !rerun_glossary_enabled {
        return (GlossaryBaselineOutcome { action: BaselineAction::KeepExisting, remaining_forced_chapters: 0 }, None);
    }
    let current = build_glossary_state(glossary, injection_mode);
    let changed = changed_prompt_relevant_keys(&previous.terms, &current.terms);
    proof {
        lemma_built_state_fingerprints(current, glossary@);
        use_type_invariant(&changed);
        changed.lemma_is_sorted_set(|k: Seq<char>| key_changed(state_fingerprints(previous.terms.map()), fingerprints_by_key(glossary@), k));
    }
    if previous.injection_mode == current.injection_mode && changed.is_empty() {
        return (GlossaryBaselineOutcome { action: BaselineAction::KeepExisting, remaining_forced_chapters: 0 }, None);
    }
    let remaining = count_chapters_still_stale_for_current_glossary(chapters, chapter_states, glossary, injection_mode);
    if remaining == 0 {
        (GlossaryBaselineOutcome { action: BaselineAction::CommitRunEnd, remaining_forced_chapters: 0 }, Some(current))
    } else {
        (GlossaryBaselineOutcome { action: BaselineAction::KeepExisting, remaining_forced_chapters: remaining }, None)
    }
}

/// Whether legacy full-glossary usage can be rewritten as smart fallback
/// usage: the text is not blank, smart selection falls back to the full
/// glossary, and the recorded terms are exactly those the full glossary
/// gives.
pub open spec fn migratable(text: Seq<char>, state: ChapterState, g: Seq<GlossaryTerm>) -> bool {
    match state.glossary_usage {
        None => false,
        Some(u) => {
            &&& u.injection_mode == InjectionMode::Full
            &&& trim(text).len() > 0
            &&& selection_fallback(g, text, InjectionMode::Smart)
            &&& usage_view(u.terms@) == fingerprints_by_key(selection_terms(g, text, InjectionMode::Smart))
        },
    }
}

/// The smart-fallback usage that replaces a chapter's legacy full usage,
/// when the two record the same terms.
pub fn migrated_legacy_full_usage(
    chapter_text: &str,
    chapter_state: &ChapterState,
    current_glossary: &[GlossaryTerm],
) -> (r: Option<ChapterGlossaryUsage>)
    ensures
        r.is_some() <==> migratable(chapter_text@, *chapter_state, current_glossary@),
        r.is_some() ==> {
            let u = r.unwrap();
            &&& u.injection_mode == InjectionMode::Smart
            &&& u.used_fallback_to_full
            &&& usage_view(u.terms@) == fingerprints_by_key(selection_terms(current_glossary@, chapter_text@, InjectionMode::Smart))
        },
{
    let usage = match &chapter_state.glossary_usage {
        Some(u) => u,
        None => return None,
    };
    match usage.injection_mode {
        InjectionMode::Smart => return None,
        InjectionMode::Full => {},
    }
    if crate::text::is_blank(chapter_text) {
        return None;
    }
    let selection = select_terms_for_text(current_glossary, chapter_text, InjectionMode::Smart);
    if !selection.used_fallback_to_full {
        return None;
    }
    let migrated = build_chapter_glossary_usage(&selection, InjectionMode::Smart);
    proof {
        lemma_usage_view_of_selection(migrated.terms@, selection.terms@);
    }
    let recorded = usage_fingerprint_map(usage);
    let migrated_map = usage_fingerprint_map(&migrated);
    let same = crate::strmap::str_maps_equal(&recorded, &migrated_map);
    proof {
        lemma_represents_equal(recorded.map(), migrated_map.map(), usage_view(usage.terms@), usage_view(migrated.terms@));
    }
    if !same {
        return None;
    }
    Some(migrated)
}

/// `new` is `old` with its legacy full usage rewritten as smart fallback
/// usage recording the same terms.
pub open spec fn is_migration_of(new: ChapterState, old: ChapterState) -> bool {
    &&& old.glossary_usage.is_some()
    &&& old.glossary_usage.unwrap().injection_mode == InjectionMode::Full
    &&& new.glossary_usage.is_some()
    &&& new.glossary_usage.unwrap().injection_mode == InjectionMode::Smart
    &&& new.glossary_usage.unwrap().used_fallback_to_full
    &&& usage_view(new.glossary_usage.unwrap().terms@) == usage_view(old.glossary_usage.unwrap().terms@)
    &&& crate::state::same_except_usage(new, old)
}

/// Chapter `c` is translated, stands at path `k`, and its text lets the
/// usage recorded in `s` be migrated.
pub open spec fn migrates_via(c: ChapterSource, k: Seq<char>, s: ChapterState, g: Seq<GlossaryTerm>) -> bool {
    c.has_output && c.chapter_path@ == k && migratable(c.text@, s, g)
}

/// Some chapter of the list migrates the state `s` recorded at path `k`.
pub open spec fn migrates_within(chapters: Seq<ChapterSource>, k: Seq<char>, s: ChapterState, g: Seq<GlossaryTerm>) -> bool {
    exists|j: int| 0 <= j < chapters.len() && #[trigger] migrates_via(chapters[j], k, s, g)
}

/// Whether the glossary baseline migrates from full to smart tracking.
pub open spec fn baseline_migrates(
    previous: Option<GlossaryState>,
    action: BaselineAction,
    chapters: Seq<ChapterSource>,
    states: Map<Seq<char>, ChapterState>,
    g: Seq<GlossaryTerm>,
    failed: usize,
) -> bool {
    &&& failed == 0
    &&& previous.is_some()
    &&& previous.unwrap().injection_mode == InjectionMode::Full
    &&& all_output_recorded(chapters, states)
    &&& (action == BaselineAction::CommitRunEnd
        || (action == BaselineAction::KeepExisting && changed_since(previous, g).len() == 0))
}

/// Every chapter with a translation has a state that records its usage.
pub open spec fn all_output_recorded(chapters: Seq<ChapterSource>, states: Map<Seq<char>, ChapterState>) -> bool
    decreases chapters.len(),
{
    if chapters.len() == 0 {
        true
    } else {
        let c = chapters.last();
        &&& all_output_recorded(chapters.drop_last(), states)
        &&& (c.has_output ==> states.contains_key(c.chapter_path@) && states[c.chapter_path@].glossary_usage.is_some())
    }
}

/// Growing the chapter list by one chapter adds that chapter's
/// migration to those already found.
proof fn lemma_migrates_within_step(chapters: Seq<ChapterSource>, i: int, k: Seq<char>, s: ChapterState, g: Seq<GlossaryTerm>)
    requires
        0 <= i < chapters.len(),
    ensures
        migrates_within(chapters.take(i + 1), k, s, g) <==> migrates_within(chapters.take(i), k, s, g)
            || migrates_via(chapters[i], k, s, g),
{
    let a = chapters.take(i + 1);
    let b = chapters.take(i);
    if migrates_within(a, k, s, g) {
        let j = choose|j: int| 0 <= j < a.len() && #[trigger] migrates_via(a[j], k, s, g);
        if j < i {
            assert(b[j] == a[j]);
        } else {
            assert(a[j] == chapters[i]);
        }
    }
    if migrates_within(b, k, s, g) {
        let j = choose|j: int| 0 <= j < b.len() && #[trigger] migrates_via(b[j], k, s, g);
        assert(a[j] == b[j]);
    }
    if migrates_via(chapters[i], k, s, g) {
        assert(a[i] == chapters[i]);
    }
}

/// Rewrites legacy full-glossary tracking as smart fallback tracking where
/// that records the same thing, after a run without failures.
///
/// Returns what was migrated, the chapter paths whose states changed (for
/// the caller to save), and the glossary baseline to save, if it migrates:
/// when the old baseline was full, every translated chapter records its
/// usage, and the baseline either moved to the current glossary this run
/// or the current glossary has the same fingerprints, in which case the old
/// terms are kept under smart injection.
pub fn migrate_legacy_full_tracking(
    previous_glossary_state: Option<&GlossaryState>,
    baseline_outcome: GlossaryBaselineOutcome,
    chapters: &[ChapterSource],
    chapter_states: &mut StrMap<ChapterState>,
    glossary: &[GlossaryTerm],
    injection_mode: InjectionMode,
    failed: usize,
) -> (r: (LegacyTrackingMigration, Vec<String>, Option<GlossaryState>))
    ensures
        r.0.migrated_chapters == r.1@.len(),
        r.0.migrated_glossary_baseline <==> r.2.is_some(),
        failed > 0 ==> r.0.migrated_chapters == 0 && !r.0.migrated_glossary_baseline && final(chapter_states).map()
            == old(chapter_states).map(),
        forall|k: Seq<char>| #[trigger] final(chapter_states).map().contains_key(k) <==> old(chapter_states).map().contains_key(k),
        forall|k: Seq<char>| #[trigger] old(chapter_states).map().contains_key(k) ==> {
            let o = old(chapter_states).map()[k];
            if failed == 0 && migrates_within(chapters@, k, o, glossary@) {
                is_migration_of(final(chapter_states).map()[k], o)
            } else {
                final(chapter_states).map()[k] == o
            }
        },
        views(r.1@).no_duplicates(),
        forall|k: Seq<char>| #[trigger] views(r.1@).contains(k) <==> {
            &&& failed == 0
            &&& old(chapter_states).map().contains_key(k)
            &&& migrates_within(chapters@, k, old(chapter_states).map()[k], glossary@)
        },
        r.2.is_some() <==> baseline_migrates(
            match previous_glossary_state {
                Some(p) => Some(*p),
                None => None,
            },
            baseline_outcome.action,
            chapters@,
            old(chapter_states).map(),
            glossary@,
            failed,
        ),
        r.2.is_some() && baseline_outcome.action == BaselineAction::CommitRunEnd ==> is_state_of(
            r.2.unwrap(),
            glossary@,
            injection_mode,
        ) && state_fingerprints(r.2.unwrap().terms.map()) == fingerprints_by_key(glossary@),
        r.2.is_some() && baseline_outcome.action != BaselineAction::CommitRunEnd ==> r.2.unwrap().injection_mode
            == InjectionMode::Smart && r.2.unwrap().terms.keys() == previous_glossary_state.unwrap().terms.keys()
            && changed_since(Some(*previous_glossary_state.unwrap()), glossary@).len() == 0,
{
    let mut migration = LegacyTrackingMigration::default();
    let mut paths: Vec<String> = Vec::new();
    if failed > 0 {
        return (migration, paths, None);
    }
    let ghost old_states = chapter_states.map();
    let mut all_recorded = true;
    let mut i: usize = 0;
    while i < chapters.len()
        invariant
            i <= chapters.len(),
            failed == 0,
            migration.migrated_chapters == paths@.len(),
            migration.migrated_chapters <= i,
            !migration.migrated_glossary_baseline,
            forall|k: Seq<char>| #[trigger] chapter_states.map().contains_key(k) <==> old_states.contains_key(k),
            forall|k: Seq<char>| #[trigger] old_states.contains_key(k) ==> {
                let o = old_states[k];
                if migrates_within(chapters@.take(i as int), k, o, glossary@) {
                    is_migration_of(chapter_states.map()[k], o)
                } else {
                    chapter_states.map()[k] == o
                }
            },
            views(paths@).no_duplicates(),
            forall|k: Seq<char>| #[trigger] views(paths@).contains(k) <==> {
                &&& old_states.contains_key(k)
                &&& migrates_within(chapters@.take(i as int), k, old_states[k], glossary@)
            },
            all_recorded == all_output_recorded(chapters@.take(i as int), old_states),
        decreases chapters.len() - i,
    {
        let ch = &chapters[i];
        proof {
            assert(chapters@.take(i + 1)[i as int] == *ch);
        }
        let ghost before = chapter_states.map();
        let ghost before_paths = paths@;
        let ghost key = ch.chapter_path@;
        let ghost newly = old_states.contains_key(key) && migrates_via(*ch, key, old_states[key], glossary@)
            && !migrates_within(chapters@.take(i as int), key, old_states[key], glossary@);
        let ghost mut did = false;
        let ghost mut migrated_ghost = old_states[key];
        if ch.has_output {
            let found = chapter_states.get(ch.chapter_path.as_str());
            match found {
                None => {
                    all_recorded = false;
                },
                Some(state) => {
                    proof {
                        assert(old_states.contains_key(key));
                        assert(state.glossary_usage.is_some() == old_states[key].glossary_usage.is_some());
                    }
                    match &state.glossary_usage {
                        None => {
                            all_recorded = false;
                        },
                        Some(usage) => {
                            let is_full = match usage.injection_mode {
                                InjectionMode::Full => true,
                                InjectionMode::Smart => false,
                            };
                            if is_full {
                                proof {
                                    assert(*state == old_states[key]);
                                }
                                match migrated_legacy_full_usage(ch.text.as_str(), state, glossary) {
                                    None => {},
                                    Some(u) => {
                                        let migrated = state.with_glossary_usage(Some(u));
                                        proof {
                                            did = true;
                                            migrated_ghost = migrated;
                                            assert(is_migration_of(migrated, old_states[key]));
                                        }
                                        chapter_states.insert(ch.chapter_path.clone(), migrated);
                                        paths.push(ch.chapter_path.clone());
                                        migration.migrated_chapters = migration.migrated_chapters + 1;
                                    },
                                }
                            }
                        },
                    }
                },
            }
        }
        proof {
            assert(did == newly);
            assert(did ==> chapter_states.map() == before.insert(key, migrated_ghost)
                && is_migration_of(migrated_ghost, old_states[key]) && paths@ == before_paths.push(ch.chapter_path));
            assert(!did ==> chapter_states.map() == before && paths@ == before_paths);
            assert forall|k: Seq<char>| #[trigger] old_states.contains_key(k) implies {
                let o = old_states[k];
                if migrates_within(chapters@.take(i + 1), k, o, glossary@) {
                    is_migration_of(chapter_states.map()[k], o)
                } else {
                    chapter_states.map()[k] == o
                }
            } by {
                lemma_migrates_within_step(chapters@, i as int, k, old_states[k], glossary@);
            }
            if did {
                lemma_views_push(before_paths, ch.chapter_path);
                let vs = views(before_paths);
                assert(!vs.contains(key));
                assert forall|a: int, b: int| 0 <= a < vs.push(key).len() && 0 <= b < vs.push(key).len() && a != b
                    implies #[trigger] vs.push(key)[a] != #[trigger] vs.push(key)[b] by {
                    if a < vs.len() && b < vs.len() {
                        assert(vs[a] != vs[b]);
                    } else if a < vs.len() {
                        assert(vs.contains(vs[a]));
                    } else {
                        assert(vs.contains(vs[b]));
                    }
                }
            }
            assert forall|k: Seq<char>| #[trigger] views(paths@).contains(k) <==> {
                &&& old_states.contains_key(k)
                &&& migrates_within(chapters@.take(i + 1), k, old_states[k], glossary@)
            } by {
                if old_states.contains_key(k) {
                    lemma_migrates_within_step(chapters@, i as int, k, old_states[k], glossary@);
                }
                if did {
                    assert(views(paths@) == views(before_paths).push(key));
                    if views(before_paths).contains(k) {
                        let q = choose|q: int| 0 <= q < views(before_paths).len() && views(before_paths)[q] == k;
                        assert(views(paths@)[q] == k);
                    }
                    if k == key {
                        assert(views(paths@)[views(before_paths).len() as int] == k);
                    }
                    if views(paths@).contains(k) && k != key {
                        let q = choose|q: int| 0 <= q < views(paths@).len() && views(paths@)[q] == k;
                        assert(views(before_paths)[q] == k);
                    }
                }
            }
            assert(chapters@.take(i + 1).drop_last() =~= chapters@.take(i as int));
            assert(chapters@.take(i + 1).last() == *ch);
        }
        i = i + 1;
    }
    assert(chapters@.take(chapters.len() as int) =~= chapters@);
    let previous = match previous_glossary_state {
        None => return (migration, paths, None),
        Some(p) => p,
    };
    let previous_full = match previous.injection_mode {
        InjectionMode::Full => true,
        InjectionMode::Smart => false,
    };
    if !previous_full || !all_recorded {
        return (migration, paths, None);
    }
    let current = build_glossary_state(glossary, injection_mode);
    proof {
        lemma_built_state_fingerprints(current, glossary@);
    }
    let migrated_state = match baseline_outcome.action {
        BaselineAction::CommitRunEnd => Some(current),
        BaselineAction::KeepExisting => {
            let changed = changed_prompt_relevant_keys(&previous.terms, &current.terms);
            proof {
                use_type_invariant(&changed);
                changed.lemma_is_sorted_set(|k: Seq<char>| key_changed(state_fingerprints(previous.terms.map()), fingerprints_by_key(glossary@), k));
            }
            if changed.is_empty() {
                let terms = previous.terms.clone_map();
                let s = GlossaryState::new(InjectionMode::Smart, terms);
                Some(s)
            } else {
                None
            }
        },
        BaselineAction::InitializeFromRunStart => None,
    };
    if migrated_state.is_some() {
        migration.migrated_glossary_baseline = true;
    }
    (migration, paths, migrated_state)
}

} // verus!
