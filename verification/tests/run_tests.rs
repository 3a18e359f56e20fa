use cipher::state::status::failed_chapter_line;
use cipher::text::preview;
use cipher::glossary::InjectionMode;
use cipher::state::status::{summarize_tracking, TrackingSummary};
use cipher::state::{
    failed_chapters, normalize_chapter_path, normalize_source_text,
    normalized_source_text_hash, summarize_chapters, ChapterGlossaryTerm,
    ChapterGlossaryUsage, ChapterState, ChapterStatus,
};
use cipher::strmap::StrMap;
use cipher::translate::cmd::{fmt_time, run_exit_code, TranslateOptions};
use cipher::translate::preview::{
    summarize_previews, ChapterPreview, PreviewAction, EMPTY_CHAPTER_SKIP_REASON,
    OUTPUT_EXISTS_SKIP_REASON,
};
use cipher::translate::test_helpers::translate_options;
use cipher::RerunMode;

fn rerun_opts(rerun: Option<RerunMode>) -> TranslateOptions {
    translate_options(rerun)
}

#[test]
fn rerun_glossary_enabled_for_all() {
    assert!(rerun_opts(Some(RerunMode::All)).rerun_glossary_enabled());
}

#[test]
fn rerun_glossary_enabled_for_glossary() {
    assert!(rerun_opts(Some(RerunMode::Glossary)).rerun_glossary_enabled());
}

#[test]
fn rerun_glossary_disabled_for_source() {
    assert!(!rerun_opts(Some(RerunMode::Source)).rerun_glossary_enabled());
}

#[test]
fn rerun_glossary_disabled_for_none() {
    assert!(!rerun_opts(None).rerun_glossary_enabled());
}

#[test]
fn rerun_chapters_enabled_for_all() {
    assert!(rerun_opts(Some(RerunMode::All)).rerun_chapters_enabled());
}

#[test]
fn rerun_chapters_enabled_for_source() {
    assert!(rerun_opts(Some(RerunMode::Source)).rerun_chapters_enabled());
}

#[test]
fn rerun_chapters_disabled_for_glossary() {
    assert!(!rerun_opts(Some(RerunMode::Glossary)).rerun_chapters_enabled());
}

#[test]
fn rerun_chapters_disabled_for_none() {
    assert!(!rerun_opts(None).rerun_chapters_enabled());
}

#[test]
fn test_translate_options_rerun_enables_both_rerun_modes() {
    let options = translate_options(Some(RerunMode::All));

    assert!(options.rerun_glossary_enabled());
    assert!(options.rerun_chapters_enabled());
}

#[test]
fn run_exit_code_reflects_failures() {
    assert_eq!(run_exit_code(1), 2);
    assert_eq!(run_exit_code(0), 0);
}

#[test]
fn fmt_time_formats_minutes_and_seconds() {
    assert_eq!(fmt_time(0), "0s");
    assert_eq!(fmt_time(59_999), "59s");
    assert_eq!(fmt_time(61_000), "1m01s");
    assert_eq!(fmt_time(3_725_000), "62m05s");
}

#[test]
fn rerun_mode_display() {
    assert_eq!(RerunMode::All.to_string(), "all");
    assert_eq!(RerunMode::Glossary.to_string(), "glossary");
    assert_eq!(RerunMode::Source.to_string(), "source");
}

#[test]
fn test_summarize_previews_counts_categories() {
    let previews = vec![
        ChapterPreview {
            chapter_path: "chapter1.md".to_string(),
            action: PreviewAction::Translate,
            reason: "No output exists yet".to_string(),
            approximate: false,
        },
        ChapterPreview {
            chapter_path: "chapter2.md".to_string(),
            action: PreviewAction::Rerun,
            reason: "Chapter source changed".to_string(),
            approximate: false,
        },
        ChapterPreview {
            chapter_path: "chapter3.md".to_string(),
            action: PreviewAction::Rerun,
            reason: "Glossary selection changed (approx): hero".to_string(),
            approximate: true,
        },
        ChapterPreview {
            chapter_path: "chapter4.md".to_string(),
            action: PreviewAction::Skip,
            reason: OUTPUT_EXISTS_SKIP_REASON.to_string(),
            approximate: false,
        },
        ChapterPreview {
            chapter_path: "chapter5.md".to_string(),
            action: PreviewAction::Skip,
            reason: EMPTY_CHAPTER_SKIP_REASON.to_string(),
            approximate: false,
        },
    ];

    let summary = summarize_previews(&previews);

    assert_eq!(summary.translate, 1);
    assert_eq!(summary.rerun, 2);
    assert_eq!(summary.skip, 2);
    assert_eq!(summary.output_missing, 1);
    assert_eq!(summary.exact_reruns, 1);
    assert_eq!(summary.approximate_reruns, 1);
    assert_eq!(summary.output_exists_skips, 1);
    assert_eq!(summary.empty_skips, 1);
}

#[test]
fn test_normalize_chapter_path() {
    assert_eq!(normalize_chapter_path("part1/ch01.md"), "part1/ch01.md");
    assert_eq!(normalize_chapter_path("./ch01.md"), "ch01.md");
}

#[test]
fn normalize_chapter_path_drops_empty_and_dot_segments() {
    assert_eq!(normalize_chapter_path("a//b/./c.md"), "a/b/c.md");
    assert_eq!(normalize_chapter_path("/abs/ch.md"), "abs/ch.md");
}

#[test]
fn test_normalized_source_text_hash_normalizes_line_endings() {
    let lf = "# Chapter 1\n\nLine 1\nLine 2\n";
    let crlf = "# Chapter 1\r\n\r\nLine 1\r\nLine 2\r\n";

    assert_eq!(
        normalized_source_text_hash(lf),
        normalized_source_text_hash(crlf)
    );
}

#[test]
fn test_normalized_source_text_hash_ignores_trailing_newlines_only() {
    let without_trailing_newline = "# Chapter 1\n\nLine 1";
    let with_trailing_newlines = "# Chapter 1\n\nLine 1\n\n";

    assert_eq!(
        normalized_source_text_hash(without_trailing_newline),
        normalized_source_text_hash(with_trailing_newlines)
    );
}

#[test]
fn normalized_source_text_hash_is_sha256_hex() {
    assert_eq!(normalize_source_text("a\r\nb\n\n"), "a\nb");
    assert_eq!(
        normalized_source_text_hash(""),
        "e3b0c44298fc1c149afbf4c8996fb92427ae41e4649b934ca495991b7852b855"
    );
    assert_eq!(
        normalized_source_text_hash("abc\n"),
        "ba7816bf8f01cfea414140de5dae2223b00361a396177a9cb410ff61f20015ad"
    );
}

fn sample_glossary_usage() -> ChapterGlossaryUsage {
    ChapterGlossaryUsage {
        injection_mode: InjectionMode::Smart,
        used_fallback_to_full: false,
        terms: vec![ChapterGlossaryTerm {
            key: "hero".into(),
            fingerprint: "fp-1".into(),
        }],
    }
}

fn sample_chapter_state(chapter_path: &str, status: ChapterStatus) -> ChapterState {
    ChapterState::new(
        chapter_path.to_string(),
        status,
        None,
        Some(1234),
        None,
        Some(sample_glossary_usage()),
        vec![],
        Some("hash-1".into()),
    )
}

fn chapters_of(states: Vec<ChapterState>) -> StrMap<ChapterState> {
    let mut map = StrMap::new();
    for s in states {
        map.insert(s.chapter_path.clone(), s);
    }
    map
}

#[test]
fn test_summarize_chapters() {
    let chapters = chapters_of(vec![
        sample_chapter_state("ch01.md", ChapterStatus::Success),
        sample_chapter_state("ch02.md", ChapterStatus::Failed),
        sample_chapter_state("ch03.md", ChapterStatus::Skipped),
        sample_chapter_state("ch04.md", ChapterStatus::Pending),
    ]);

    let summary = summarize_chapters(&chapters);
    assert_eq!(summary.total, 4);
    assert_eq!(summary.success, 1);
    assert_eq!(summary.failed, 1);
    assert_eq!(summary.skipped, 1);
    assert_eq!(summary.pending, 1);
}

#[test]
fn test_failed_chapters() {
    let chapters = chapters_of(vec![
        sample_chapter_state("ch01.md", ChapterStatus::Success),
        sample_chapter_state("ch02.md", ChapterStatus::Failed),
    ]);

    let failed = failed_chapters(&chapters);
    assert_eq!(failed.len(), 1);
    assert_eq!(failed[0].0.as_str(), "ch02.md");
}

fn bare_chapter_state(path: &str) -> ChapterState {
    ChapterState {
        chapter_path: path.to_string(),
        status: ChapterStatus::Success,
        error: None,
        translation_time_ms: None,
        last_attempted: None,
        translation_usage: None,
        glossary_usage: None,
        exported_terms: vec![],
        source_text_hash: None,
    }
}

#[test]
fn test_summarize_tracking_categorizes_recorded_and_legacy_chapters() {
    let mut smart = bare_chapter_state("001.md");
    smart.glossary_usage = Some(ChapterGlossaryUsage {
        injection_mode: InjectionMode::Smart,
        used_fallback_to_full: false,
        terms: vec![ChapterGlossaryTerm {
            key: "hero".into(),
            fingerprint: "fp-1".into(),
        }],
    });
    smart.source_text_hash = Some("hash-1".into());

    let mut full = bare_chapter_state("002.md");
    full.glossary_usage = Some(ChapterGlossaryUsage {
        injection_mode: InjectionMode::Full,
        used_fallback_to_full: false,
        terms: vec![],
    });
    full.source_text_hash = Some("hash-2".into());

    let mut fallback = bare_chapter_state("003.md");
    fallback.glossary_usage = Some(ChapterGlossaryUsage {
        injection_mode: InjectionMode::Smart,
        used_fallback_to_full: true,
        terms: vec![],
    });
    fallback.source_text_hash = Some("hash-3".into());

    let legacy = bare_chapter_state("004.md");

    let chapters = chapters_of(vec![smart, full, fallback, legacy]);

    assert_eq!(
        summarize_tracking(&chapters),
        TrackingSummary {
            smart_selection: 1,
            fallback_to_full: 1,
            legacy_full_selection: 1,
            approximate_legacy_fallback: 1,
            exported_terms_recorded: 3,
            source_hash_recorded: 3,
            missing_source_hash: 1,
        }
    );
}

#[test]
fn test_summarize_tracking_handles_empty_state_set() {
    let chapters = StrMap::new();
    assert_eq!(summarize_tracking(&chapters), TrackingSummary::default());
}

#[test]
fn failed_chapter_line_previews_errors() {
    assert_eq!(failed_chapter_line("ch02.md", &None), "ch02.md");
    assert_eq!(
        failed_chapter_line("ch02.md", &Some("timeout".into())),
        "ch02.md: timeout"
    );
    let long = "é".repeat(70);
    assert_eq!(preview(&long, 60), format!("{}...", "é".repeat(60)));
    assert_eq!(preview("short", 60), "short");
}

#[test]
fn failed_list_has_as_many_entries_as_the_failed_count() {
    let chapters = chapters_of(vec![
        sample_chapter_state("ch03.md", ChapterStatus::Failed),
        sample_chapter_state("ch01.md", ChapterStatus::Failed),
        sample_chapter_state("ch02.md", ChapterStatus::Success),
        sample_chapter_state("ch04.md", ChapterStatus::Failed),
    ]);
    let failed = failed_chapters(&chapters);
    assert_eq!(failed.len(), summarize_chapters(&chapters).failed);
    let paths: Vec<&str> = failed.iter().map(|(k, _)| k.as_str()).collect();
    assert_eq!(paths, vec!["ch01.md", "ch03.md", "ch04.md"]);
}

#[test]
fn run_metadata_timestamps_are_rfc3339() {
    let mut meta = cipher::state::RunMetadata::new("p".into(), "openai".into(), "m".into(), None);
    assert_eq!(meta.started_at, meta.updated_at);
    let t = meta.started_at.as_bytes();
    assert_eq!(t[4], b'-');
    assert_eq!(t[10], b'T');
    assert!(meta.started_at.len() >= 25);
    meta.mark_finished();
    assert_eq!(meta.finished_at.as_deref(), Some(meta.updated_at.as_str()));
    assert_eq!(meta.updated_at.as_bytes()[10], b'T');
}
