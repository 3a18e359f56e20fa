use cipher::glossary::{
    glossary_term_key, glossary_term_prompt_fingerprint, select_terms_for_text, GlossaryTerm,
    InjectionMode,
};
use cipher::state::{
    normalized_source_text_hash, ChapterGlossaryTerm, ChapterGlossaryUsage, ChapterState,
    ChapterStatus, GlossaryState, GlossaryStateTerm,
};
use cipher::strmap::StrMap;
use cipher::translate::rerun::decisions::{chapter_translation_injection_mode, combine_rerun_decisions};
use cipher::translate::rerun::glossary::{
    build_chapter_glossary_usage, build_glossary_state, chapter_matches_current_glossary,
    changed_prompt_relevant_keys, changed_selected_term_keys, current_expected_glossary_usage,
    glossary_terms_from_state, selection_fingerprints, usage_fingerprint_map,
};
use cipher::translate::rerun::types::RerunDecision;
use cipher::translate::test_helpers::{glossary_term, smart_glossary, smart_text};

fn test_term(key: &str, term: &str, definition: &str) -> GlossaryTerm {
    GlossaryTerm {
        term: term.to_string(),
        og_term: Some(key.to_string()),
        definition: definition.to_string(),
        notes: None,
    }
}

fn usage_term(key: &str, fingerprint: &str) -> ChapterGlossaryTerm {
    ChapterGlossaryTerm {
        key: key.to_string(),
        fingerprint: fingerprint.to_string(),
    }
}

#[test]
fn selection_fingerprints_empty() {
    assert!(selection_fingerprints(&[]).is_empty());
}

#[test]
fn selection_fingerprints_maps_keys() {
    let terms = vec![
        test_term("hero", "Hero", "A hero"),
        test_term("city", "City", "A city"),
    ];
    let result = selection_fingerprints(&terms);
    let key0 = glossary_term_key(&terms[0]);
    let key1 = glossary_term_key(&terms[1]);
    assert_eq!(
        result.get(&key0).unwrap(),
        &glossary_term_prompt_fingerprint(&terms[0])
    );
    assert_eq!(
        result.get(&key1).unwrap(),
        &glossary_term_prompt_fingerprint(&terms[1])
    );
    assert_eq!(result.len(), 2);
}

#[test]
fn usage_fingerprint_map_empty() {
    let usage = ChapterGlossaryUsage {
        injection_mode: InjectionMode::Smart,
        used_fallback_to_full: false,
        terms: vec![],
    };
    assert!(usage_fingerprint_map(&usage).is_empty());
}

#[test]
fn usage_fingerprint_map_maps_terms() {
    let usage = ChapterGlossaryUsage {
        injection_mode: InjectionMode::Smart,
        used_fallback_to_full: false,
        terms: vec![usage_term("hero", "fp1"), usage_term("city", "fp2")],
    };
    let result = usage_fingerprint_map(&usage);
    assert_eq!(result.get("hero").unwrap(), "fp1");
    assert_eq!(result.get("city").unwrap(), "fp2");
    assert_eq!(result.len(), 2);
}

#[test]
fn glossary_terms_from_state_converts_state_terms() {
    let mut state_terms = StrMap::new();
    state_terms.insert(
        "hero".to_string(),
        GlossaryStateTerm {
            term: "Hero".to_string(),
            og_term: Some("hero".to_string()),
            definition: "def".to_string(),
            fingerprint: "fp".to_string(),
        },
    );
    let state = GlossaryState::new(InjectionMode::Smart, state_terms);
    let result = glossary_terms_from_state(&state);
    assert_eq!(result.len(), 1);
    assert_eq!(result[0].term, "Hero");
    assert_eq!(result[0].og_term, Some("hero".to_string()));
    assert_eq!(result[0].definition, "def");
    assert!(result[0].notes.is_none());
}

#[test]
fn changed_prompt_relevant_keys_detects_changes() {
    let mut prev = StrMap::new();
    let mut curr = StrMap::new();
    prev.insert(
        "a".to_string(),
        GlossaryStateTerm {
            term: "A".into(),
            og_term: None,
            definition: "d1".into(),
            fingerprint: "fp1".into(),
        },
    );
    curr.insert(
        "a".to_string(),
        GlossaryStateTerm {
            term: "A".into(),
            og_term: None,
            definition: "d1".into(),
            fingerprint: "fp2".into(),
        },
    );
    curr.insert(
        "b".to_string(),
        GlossaryStateTerm {
            term: "B".into(),
            og_term: None,
            definition: "d2".into(),
            fingerprint: "fp3".into(),
        },
    );
    let changed = changed_prompt_relevant_keys(&prev, &curr);
    assert!(changed.contains("a"), "fingerprint changed");
    assert!(changed.contains("b"), "new key added");
    assert_eq!(changed.len(), 2);
}

#[test]
fn changed_selected_term_keys_detects_changes() {
    let mut prev = StrMap::new();
    let mut curr = StrMap::new();
    prev.insert("hero".to_string(), "fp1".to_string());
    curr.insert("hero".to_string(), "fp2".to_string());
    curr.insert("city".to_string(), "fp3".to_string());
    let changed = changed_selected_term_keys(&prev, &curr);
    assert!(changed.contains("hero"), "fingerprint changed");
    assert!(changed.contains("city"), "new key added");
    assert_eq!(changed.len(), 2);
}

#[test]
fn changed_selected_term_keys_detects_removed_keys_only_once() {
    let mut prev = StrMap::new();
    let mut curr = StrMap::new();
    prev.insert("hero".to_string(), "fp1".to_string());
    prev.insert("city".to_string(), "fp2".to_string());
    curr.insert("hero".to_string(), "fp1".to_string());
    let changed = changed_selected_term_keys(&prev, &curr);
    assert!(changed.contains("city"));
    assert!(!changed.contains("hero"));
    assert_eq!(changed.len(), 1);
    assert!(changed_selected_term_keys(&curr, &curr).is_empty());
}

#[test]
fn current_expected_glossary_usage_returns_none_for_empty_file() {
    let result = current_expected_glossary_usage("  \n  ", &[], InjectionMode::Smart);
    assert!(result.is_none());
}

#[test]
fn current_expected_glossary_usage_computes_usage() {
    let glossary = vec![test_term("hero", "Hero", "definition")];
    let result =
        current_expected_glossary_usage("勇者が登場", &glossary, InjectionMode::Smart).unwrap();
    assert_eq!(result.injection_mode, InjectionMode::Smart);
    assert!(!result.terms.is_empty());
}

#[test]
fn chapter_matches_glossary_when_usage_is_none() {
    let state = ChapterState::new(
        "ch.md".to_string(),
        ChapterStatus::Success,
        None,
        None,
        None,
        None,
        vec![],
        None,
    );
    assert!(!chapter_matches_current_glossary(
        "勇者が登場",
        &state,
        &[test_term("hero", "Hero", "definition")],
        InjectionMode::Smart
    ));
}

#[test]
fn chapter_matches_glossary_after_recording_its_usage() {
    let glossary = smart_glossary("Hero definition");
    let selection = select_terms_for_text(&glossary, smart_text(), InjectionMode::Smart);
    let usage = build_chapter_glossary_usage(&selection, InjectionMode::Smart);
    let state = ChapterState::new(
        "ch.md".to_string(),
        ChapterStatus::Success,
        None,
        None,
        None,
        Some(usage),
        vec![],
        None,
    );
    assert!(chapter_matches_current_glossary(
        smart_text(),
        &state,
        &glossary,
        InjectionMode::Smart
    ));
    let changed = smart_glossary("Changed hero definition");
    assert!(!chapter_matches_current_glossary(
        smart_text(),
        &state,
        &changed,
        InjectionMode::Smart
    ));
}

#[test]
fn build_glossary_state_records_each_key() {
    let glossary = vec![
        glossary_term("Hero", Some("hero"), "Old definition"),
        glossary_term("City", None, "A city"),
    ];
    let state = build_glossary_state(&glossary, InjectionMode::Full);
    assert_eq!(state.injection_mode, InjectionMode::Full);
    assert_eq!(state.terms.len(), 2);
    let hero = state.terms.get("hero").unwrap();
    assert_eq!(hero.definition, "Old definition");
    assert_eq!(hero.fingerprint, glossary_term_prompt_fingerprint(&glossary[0]));
    assert!(state.terms.get("city").is_some());
}

#[test]
fn decisions_test_combine_rerun_decisions_merges_source_and_glossary_reasons() {
    let glossary_decision = RerunDecision {
        reason: "Full glossary changed: hero".to_string(),
        is_approximate: false,
    };
    let source_decision = RerunDecision {
        reason: "Chapter source changed".to_string(),
        is_approximate: false,
    };

    let decision =
        combine_rerun_decisions(Some(&glossary_decision), Some(&source_decision)).unwrap();
    assert_eq!(
        decision.reason,
        "Full glossary changed: hero; Chapter source changed"
    );
}

#[test]
fn combine_rerun_decisions_keeps_single_decision_and_approximation() {
    let glossary_decision = RerunDecision {
        reason: "Glossary selection changed (approx): hero".to_string(),
        is_approximate: true,
    };
    let only = combine_rerun_decisions(Some(&glossary_decision), None).unwrap();
    assert_eq!(only.reason, "Glossary selection changed (approx): hero");
    assert!(only.is_approximate);
    assert!(combine_rerun_decisions(None, None).is_none());
}

#[test]
fn decisions_test_build_chapter_glossary_usage_records_smart_fallback_canonically() {
    let glossary = smart_glossary("Hero definition");
    let selection = select_terms_for_text(&glossary, "勇者", InjectionMode::Smart);

    assert!(selection.used_fallback_to_full);

    let usage = build_chapter_glossary_usage(&selection, InjectionMode::Smart);

    assert_eq!(usage.injection_mode, InjectionMode::Smart);
    assert!(usage.used_fallback_to_full);
    assert_eq!(usage.terms.len(), glossary.len());
}

#[test]
fn rerun_test_build_chapter_glossary_usage_records_smart_fallback_canonically() {
    let glossary = smart_glossary("Hero definition");
    let selection = select_terms_for_text(&glossary, "勇者", InjectionMode::Smart);

    assert!(selection.used_fallback_to_full);

    let usage = build_chapter_glossary_usage(&selection, InjectionMode::Smart);

    assert_eq!(usage.injection_mode, InjectionMode::Smart);
    assert!(usage.used_fallback_to_full);
    assert_eq!(usage.terms.len(), glossary.len());
}

#[test]
fn source_hash_helper_distinguishes_texts() {
    assert_ne!(
        normalized_source_text_hash("old source text"),
        normalized_source_text_hash("new source text")
    );
}

#[test]
fn test_chapter_translation_injection_mode_keeps_smart_on_full_rerun_reason() {
    let rerun_decision = RerunDecision {
        reason: "Full glossary changed: hero".to_string(),
        is_approximate: false,
    };
    assert_eq!(
        chapter_translation_injection_mode(InjectionMode::Smart, Some(&rerun_decision)),
        InjectionMode::Smart
    );
}
