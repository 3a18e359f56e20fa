use cipher::state::{ChapterState, ChapterStatus};
use cipher::translate::cmd::{chapters_to_process, AfterChapter, RunTally};
use cipher::book::output::{OutputConfig, StructuredChapter};
use cipher::translate::orchestrate::{
    after_repair_reply, after_translation_reply, skipped_chapter_needs_text, ChapterResult, ReplyStep,
};
use cipher::translate::TranslationUsage;

fn usage(total: u64) -> TranslationUsage {
    TranslationUsage {
        input_tokens: total / 2,
        output_tokens: total - total / 2,
        total_tokens: total,
        cached_input_tokens: 0,
        cache_creation_input_tokens: 0,
    }
}

fn result(translated: bool, failed: bool, skipped: bool, new_terms: usize, tokens: Option<u64>) -> ChapterResult {
    ChapterResult::new(
        "001.md",
        if failed { ChapterStatus::Failed } else { ChapterStatus::Success },
        translated,
        failed,
        skipped,
        new_terms,
        tokens.map(usage),
        None,
        None,
        None,
        None,
        vec![],
        None,
        None,
    )
}

#[test]
fn chapters_to_process_counts_missing_outputs() {
    assert_eq!(chapters_to_process(false, &[true, false, false, true]), 2);
    assert_eq!(chapters_to_process(false, &[true, true]), 0);
    assert_eq!(chapters_to_process(false, &[]), 0);
}

#[test]
fn chapters_to_process_counts_all_with_overwrite() {
    assert_eq!(chapters_to_process(true, &[true, false, true]), 3);
}

#[test]
fn tally_starts_at_zero() {
    let t = RunTally::new();
    assert_eq!((t.translated, t.skipped, t.failed, t.new_glossary_terms), (0, 0, 0, 0));
    assert_eq!(t.usage, TranslationUsage::zero());
}

#[test]
fn tally_counts_outcomes_terms_and_usage() {
    let mut t = RunTally::new();
    let a = result(true, false, false, 2, Some(100));
    assert!(t.fits(&a));
    let next = t.record(&a, true, 3, false);
    assert_eq!(next, AfterChapter { replan_glossary: true, stop: false });
    let b = result(false, false, true, 0, None);
    let next = t.record(&b, true, 2, false);
    assert_eq!(next, AfterChapter { replan_glossary: false, stop: false });
    let c = result(true, false, false, 1, Some(50));
    t.record(&c, true, 1, false);
    assert_eq!((t.translated, t.skipped, t.failed, t.new_glossary_terms), (2, 1, 0, 3));
    assert_eq!(t.usage.total_tokens, 150);
    assert_eq!(t.usage.input_tokens, 75);
}

#[test]
fn tally_does_not_replan_without_rerun_or_chapters_left() {
    let mut t = RunTally::new();
    let a = result(true, false, false, 2, None);
    assert!(!t.record(&a, false, 3, false).replan_glossary);
    assert!(!t.record(&a, true, 0, false).replan_glossary);
}

#[test]
fn tally_stops_on_failure_only_when_failing_fast() {
    let mut t = RunTally::new();
    let f = result(false, true, false, 0, None);
    assert!(!t.record(&f, false, 2, false).stop);
    assert!(t.record(&f, false, 1, true).stop);
    assert_eq!(t.failed, 2);
}

#[test]
fn tally_refuses_usage_that_overflows() {
    let mut t = RunTally::new();
    let big = result(true, false, false, 0, Some(u64::MAX));
    assert!(t.fits(&big));
    t.record(&big, false, 0, false);
    let more = result(true, false, false, 0, Some(2));
    assert!(!t.fits(&more));
}

#[test]
fn skipped_chapter_needs_text_only_for_unhashed_source_reruns() {
    let hashed = ChapterState::new(
        "001.md".to_string(),
        ChapterStatus::Success,
        None,
        None,
        None,
        None,
        vec![],
        Some("abc".to_string()),
    );
    let unhashed = ChapterState::new(
        "001.md".to_string(),
        ChapterStatus::Success,
        None,
        None,
        None,
        None,
        vec![],
        None,
    );
    assert!(skipped_chapter_needs_text(None, true));
    assert!(skipped_chapter_needs_text(Some(&unhashed), true));
    assert!(!skipped_chapter_needs_text(Some(&hashed), true));
    assert!(!skipped_chapter_needs_text(None, false));
    assert!(!skipped_chapter_needs_text(Some(&unhashed), false));
}

fn good_chapter() -> StructuredChapter {
    StructuredChapter {
        chapter_number: Some("12".to_string()),
        chapter_title: Some("A New Dawn".to_string()),
        content: "Body text".to_string(),
    }
}

fn empty_chapter() -> StructuredChapter {
    StructuredChapter { chapter_number: None, chapter_title: None, content: "".to_string() }
}

#[test]
fn valid_translation_reply_is_accepted() {
    match after_translation_reply(&good_chapter(), &OutputConfig::default(), 3) {
        ReplyStep::Accept(text) => assert_eq!(text, "# Chapter 12: A New Dawn\n\nBody text"),
        _ => panic!("expected the reply to be accepted"),
    }
}

#[test]
fn invalid_first_reply_goes_to_repair() {
    match after_translation_reply(&empty_chapter(), &OutputConfig::default(), 1) {
        ReplyStep::Repair(_, errors) => assert!(!errors.is_empty()),
        _ => panic!("expected a repair"),
    }
}

#[test]
fn invalid_retried_reply_fails_without_repair() {
    match after_translation_reply(&empty_chapter(), &OutputConfig::default(), 2) {
        ReplyStep::Fail(errors, message) => {
            assert!(!errors.is_empty());
            assert_eq!(message, format!("Validation failed: {}", errors.join(", ")));
        }
        _ => panic!("expected a failure"),
    }
}

#[test]
fn repair_reply_is_accepted_or_fails() {
    assert!(matches!(after_repair_reply(&good_chapter(), &OutputConfig::default()), ReplyStep::Accept(_)));
    match after_repair_reply(&empty_chapter(), &OutputConfig::default()) {
        ReplyStep::Fail(errors, message) => {
            assert_eq!(message, format!("Repair failed validation: {}", errors.join(", ")));
        }
        _ => panic!("expected a failure"),
    }
}
