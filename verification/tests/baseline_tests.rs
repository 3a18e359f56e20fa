use cipher::glossary::{select_terms_for_text, GlossaryTerm, InjectionMode};
use cipher::state::{normalized_source_text_hash, ChapterState, ChapterStatus, GlossaryState};
use cipher::strmap::StrMap;
use cipher::translate::rerun::baseline::{finalize_glossary_baseline, migrate_legacy_full_tracking};
use cipher::translate::rerun::glossary::{build_chapter_glossary_usage, build_glossary_state};
use cipher::translate::rerun::types::{
    BaselineAction, ChapterSource, GlossaryBaselineOutcome, LegacyTrackingMigration,
};
use cipher::translate::test_helpers::{glossary_term, smart_glossary, smart_text};

fn legacy_state(path: &str, glossary: &[GlossaryTerm], text: &str) -> ChapterState {
    let selection = select_terms_for_text(glossary, text, InjectionMode::Full);
    ChapterState::new(
        path.to_string(),
        ChapterStatus::Success,
        None,
        Some(100),
        None,
        Some(build_chapter_glossary_usage(&selection, InjectionMode::Full)),
        vec![],
        Some(normalized_source_text_hash(text)),
    )
}

fn source(path: &str, has_output: bool, text: &str) -> ChapterSource {
    ChapterSource { chapter_path: path.to_string(), has_output, text: text.to_string() }
}

fn fingerprints(state: &GlossaryState) -> Vec<(String, String)> {
    let mut out = Vec::new();
    for i in 0..state.terms.len() {
        let (k, t) = state.terms.entry_at(i);
        out.push((k.clone(), t.fingerprint.clone()));
    }
    out
}

#[test]
fn migrate_rewrites_equivalent_fallback_state_in_memory() {
    let glossary = vec![glossary_term("Hero", Some("hero"), "Definition")];
    let previous = build_glossary_state(&glossary, InjectionMode::Full);
    let mut states = StrMap::new();
    states.insert("chapter1.md".to_string(), legacy_state("chapter1.md", &glossary, "hero appears here"));
    let chapters = vec![source("chapter1.md", true, "hero appears here")];

    let (migration, paths, baseline) = migrate_legacy_full_tracking(
        Some(&previous),
        GlossaryBaselineOutcome { action: BaselineAction::KeepExisting, remaining_forced_chapters: 0 },
        &chapters,
        &mut states,
        &glossary,
        InjectionMode::Smart,
        0,
    );

    assert_eq!(migration, LegacyTrackingMigration { migrated_chapters: 1, migrated_glossary_baseline: true });
    assert_eq!(paths, vec!["chapter1.md".to_string()]);
    let usage = states.get("chapter1.md").unwrap().glossary_usage.as_ref().unwrap();
    assert_eq!(usage.injection_mode, InjectionMode::Smart);
    assert!(usage.used_fallback_to_full);
    let baseline = baseline.unwrap();
    assert_eq!(baseline.injection_mode, InjectionMode::Smart);
    assert_eq!(fingerprints(&baseline), fingerprints(&previous));
}

#[test]
fn migrate_skips_non_fallback_legacy_chapter_in_memory() {
    let glossary = smart_glossary("Hero definition");
    let previous = build_glossary_state(&glossary, InjectionMode::Full);
    let mut states = StrMap::new();
    states.insert("chapter1.md".to_string(), legacy_state("chapter1.md", &glossary, smart_text()));
    let chapters = vec![source("chapter1.md", true, smart_text())];

    let (migration, paths, baseline) = migrate_legacy_full_tracking(
        Some(&previous),
        GlossaryBaselineOutcome { action: BaselineAction::KeepExisting, remaining_forced_chapters: 0 },
        &chapters,
        &mut states,
        &glossary,
        InjectionMode::Smart,
        0,
    );

    assert_eq!(migration.migrated_chapters, 0);
    assert!(paths.is_empty());
    let usage = states.get("chapter1.md").unwrap().glossary_usage.as_ref().unwrap();
    assert_eq!(usage.injection_mode, InjectionMode::Full);
    // Every translated chapter records its usage and the glossary is unchanged,
    // so the baseline itself still moves to smart tracking.
    assert!(migration.migrated_glossary_baseline);
    assert_eq!(baseline.unwrap().injection_mode, InjectionMode::Smart);
}

#[test]
fn migrate_does_nothing_after_failures() {
    let glossary = vec![glossary_term("Hero", Some("hero"), "Definition")];
    let previous = build_glossary_state(&glossary, InjectionMode::Full);
    let mut states = StrMap::new();
    states.insert("chapter1.md".to_string(), legacy_state("chapter1.md", &glossary, "hero appears here"));
    let chapters = vec![source("chapter1.md", true, "hero appears here")];

    let (migration, paths, baseline) = migrate_legacy_full_tracking(
        Some(&previous),
        GlossaryBaselineOutcome { action: BaselineAction::KeepExisting, remaining_forced_chapters: 0 },
        &chapters,
        &mut states,
        &glossary,
        InjectionMode::Smart,
        1,
    );

    assert_eq!(migration, LegacyTrackingMigration { migrated_chapters: 0, migrated_glossary_baseline: false });
    assert!(paths.is_empty());
    assert!(baseline.is_none());
    let usage = states.get("chapter1.md").unwrap().glossary_usage.as_ref().unwrap();
    assert_eq!(usage.injection_mode, InjectionMode::Full);
}

#[test]
fn migrate_keeps_baseline_when_a_translated_chapter_is_untracked() {
    let glossary = vec![glossary_term("Hero", Some("hero"), "Definition")];
    let previous = build_glossary_state(&glossary, InjectionMode::Full);
    let mut states = StrMap::new();
    states.insert("chapter1.md".to_string(), legacy_state("chapter1.md", &glossary, "hero appears here"));
    let chapters = vec![
        source("chapter1.md", true, "hero appears here"),
        source("chapter2.md", true, "no state for this one"),
    ];

    let (migration, paths, baseline) = migrate_legacy_full_tracking(
        Some(&previous),
        GlossaryBaselineOutcome { action: BaselineAction::KeepExisting, remaining_forced_chapters: 0 },
        &chapters,
        &mut states,
        &glossary,
        InjectionMode::Smart,
        0,
    );

    assert_eq!(migration, LegacyTrackingMigration { migrated_chapters: 1, migrated_glossary_baseline: false });
    assert_eq!(paths, vec!["chapter1.md".to_string()]);
    assert!(baseline.is_none());
}

#[test]
fn finalize_initializes_without_baseline() {
    let glossary = vec![glossary_term("Hero", Some("hero"), "Definition")];
    let states: StrMap<ChapterState> = StrMap::new();
    let (outcome, commit) =
        finalize_glossary_baseline(true, None, &[], &states, &glossary, InjectionMode::Smart, 0);
    assert_eq!(outcome.action, BaselineAction::InitializeFromRunStart);
    assert_eq!(outcome.remaining_forced_chapters, 0);
    assert!(commit.is_none());
}

#[test]
fn finalize_keeps_baseline_after_failures() {
    let glossary = vec![glossary_term("Hero", Some("hero"), "Definition")];
    let previous = build_glossary_state(&glossary, InjectionMode::Smart);
    let states: StrMap<ChapterState> = StrMap::new();
    let (outcome, commit) =
        finalize_glossary_baseline(true, Some(&previous), &[], &states, &glossary, InjectionMode::Smart, 2);
    assert_eq!(outcome.action, BaselineAction::KeepExisting);
    assert!(commit.is_none());
}

#[test]
fn finalize_commits_changed_glossary_when_nothing_is_stale() {
    let old_glossary = vec![glossary_term("Hero", Some("hero"), "Old definition")];
    let new_glossary = vec![glossary_term("Hero", Some("hero"), "New definition")];
    let previous = build_glossary_state(&old_glossary, InjectionMode::Smart);
    let states: StrMap<ChapterState> = StrMap::new();
    let (outcome, commit) = finalize_glossary_baseline(
        true,
        Some(&previous),
        &[],
        &states,
        &new_glossary,
        InjectionMode::Smart,
        0,
    );
    assert_eq!(outcome.action, BaselineAction::CommitRunEnd);
    let commit = commit.unwrap();
    assert_eq!(fingerprints(&commit), fingerprints(&build_glossary_state(&new_glossary, InjectionMode::Smart)));
    assert_ne!(fingerprints(&commit), fingerprints(&previous));
}

#[test]
fn finalize_keeps_changed_glossary_while_a_chapter_is_stale() {
    let old_glossary = vec![glossary_term("Hero", Some("hero"), "Old definition")];
    let new_glossary = vec![glossary_term("Hero", Some("hero"), "New definition")];
    let previous = build_glossary_state(&old_glossary, InjectionMode::Smart);
    let text = "the hero walks";
    let selection = select_terms_for_text(&old_glossary, text, InjectionMode::Smart);
    let mut states = StrMap::new();
    states.insert(
        "chapter1.md".to_string(),
        ChapterState::new(
            "chapter1.md".to_string(),
            ChapterStatus::Success,
            None,
            Some(100),
            None,
            Some(build_chapter_glossary_usage(&selection, InjectionMode::Smart)),
            vec![],
            Some(normalized_source_text_hash(text)),
        ),
    );
    let chapters = vec![source("chapter1.md", true, text)];
    let (outcome, commit) = finalize_glossary_baseline(
        true,
        Some(&previous),
        &chapters,
        &states,
        &new_glossary,
        InjectionMode::Smart,
        0,
    );
    assert_eq!(outcome.action, BaselineAction::KeepExisting);
    assert_eq!(outcome.remaining_forced_chapters, 1);
    assert!(commit.is_none());
}
