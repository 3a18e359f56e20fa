use cipher::book::init::BookConfig;
use cipher::book::output::OutputConfig;
use cipher::config::{ApiKey, GlobalConfig, ProfileConfig, ProviderConfig, ProviderKind};
use cipher::glossary::GlossaryTerm;
use cipher::state::{normalized_source_text_hash, ChapterState, ChapterStatus};
use cipher::translate::orchestrate::{
    build_failed_chapter_result, failed_chapter_source_hash, resolve_translate_profiles,
    retry_delay_secs, skipped_chapter_source_hash, PreviousChapterArtifacts,
};
use cipher::translate::prompt::{
    build_glossary_extraction_prompt, build_repair_prompt, build_translation_prompt,
};
use cipher::translate::providers::{build_provider, format_http_status, HttpErrorMessages};
use cipher::translate::types::{GlossaryExtractionRequest, RepairRequest, TranslationRequest};
use cipher::translate::TranslationUsage;

// -- prompts --

fn translation_request(chapter_markdown: &str, glossary_terms: Vec<GlossaryTerm>) -> TranslationRequest {
    TranslationRequest {
        chapter_markdown: chapter_markdown.to_string(),
        glossary_terms,
        style_guide: None,
        output_config: OutputConfig::default(),
    }
}

#[test]
fn test_build_translation_prompt_includes_base() {
    let req = translation_request("# Chapter 1\n\nHello", Vec::new());
    let prompt = build_translation_prompt(&req);
    assert!(prompt.contains("expert translator"));
    assert!(prompt.contains("Chapter 1"));
    assert!(prompt.contains("chapter_number"));
    assert!(!prompt.contains("new_glossary_terms"));
    assert!(!prompt.contains("Following the translation"));
    assert!(prompt.contains("Glossary extraction is handled separately"));
}

#[test]
fn test_build_translation_prompt_with_glossary() {
    let terms = vec![GlossaryTerm {
        term: "Magic".to_string(),
        og_term: Some("마법".to_string()),
        definition: "Supernatural power".to_string(),
        notes: None,
    }];
    let req = translation_request("Text", terms);
    let prompt = build_translation_prompt(&req);
    assert!(prompt.contains("Magic [마법]: Supernatural power"));
}

#[test]
fn test_build_translation_prompt_without_glossary() {
    let req = translation_request("Text", Vec::new());
    let prompt = build_translation_prompt(&req);
    assert!(prompt.contains("(No glossary terms available)"));
}

#[test]
fn build_translation_prompt_includes_style_guide() {
    let mut req = translation_request("Text", Vec::new());
    req.style_guide = Some("  Keep it formal.  ".to_string());
    let prompt = build_translation_prompt(&req);
    assert!(prompt.contains("Keep it formal."));
    assert!(!prompt.contains("  Keep it formal.  "));
}

#[test]
fn test_build_repair_prompt_includes_errors() {
    let req = RepairRequest {
        chapter_markdown: "Original text".to_string(),
        glossary_terms: Vec::new(),
        style_guide: None,
        failed_translation: "Bad translation".to_string(),
        validation_errors: vec![
            "Missing chapter heading".to_string(),
            "Unbalanced code fences".to_string(),
        ],
        output_config: OutputConfig::default(),
    };
    let prompt = build_repair_prompt(&req, "(No glossary terms available)", "");

    assert!(prompt.contains("REPAIR REQUEST"));
    assert!(prompt.contains("Missing chapter heading"));
    assert!(prompt.contains("Unbalanced code fences"));
    assert!(prompt.contains("Original text"));
    assert!(prompt.contains("Bad translation"));
    assert!(!prompt.contains("new_glossary_terms"));
}

#[test]
fn test_build_glossary_extraction_prompt_requests_terms_only() {
    let req = GlossaryExtractionRequest {
        chapter_markdown: "Source".to_string(),
        translated_markdown: "# Chapter 1\n\nTranslated".to_string(),
        existing_glossary_terms: vec![GlossaryTerm {
            term: "Magic".to_string(),
            og_term: Some("마법".to_string()),
            definition: "Supernatural power".to_string(),
            notes: None,
        }],
    };
    let prompt = build_glossary_extraction_prompt(&req);
    assert!(prompt.contains("Accepted translation"));
    assert!(prompt.contains("Magic [마법]"));
    assert!(prompt.contains("Do not return terms that are already present"));
    assert!(prompt.contains("new_glossary_terms"));
    assert!(!prompt.contains("\"translation\":"));
}

// -- providers --

fn config_with_profile() -> GlobalConfig {
    let mut config = GlobalConfig::default();
    config.providers.insert(
        "gemini".to_string(),
        ProviderConfig {
            kind: ProviderKind::Gemini,
            keys: vec![ApiKey {
                value: "test-key".to_string(),
                name: Some("default".to_string()),
            }],
            base_url: None,
        },
    );
    config.profiles.insert(
        "valid".to_string(),
        ProfileConfig {
            provider: "gemini".to_string(),
            model: "gemini-2.5-flash".to_string(),
            key: Some("default".to_string()),
        },
    );
    config
}

fn assert_provider_error(config: &GlobalConfig, name: &str, expected: &str) {
    match build_provider(config, name) {
        Err(e) => {
            let msg = e.to_string();
            assert!(msg.contains(expected), "expected '{expected}' in '{msg}'");
        }
        Ok(_) => panic!("expected error for profile '{name}'"),
    }
}

#[test]
fn build_provider_profile_not_found() {
    assert_provider_error(&GlobalConfig::default(), "nonexistent", "not found");
}

#[test]
fn build_provider_provider_not_found() {
    let mut config = config_with_profile();
    config.profiles.insert(
        "bad".to_string(),
        ProfileConfig {
            provider: "nonexistent".to_string(),
            model: "m".to_string(),
            key: None,
        },
    );
    assert_provider_error(&config, "bad", "not found");
}

#[test]
fn build_provider_missing_api_key_label() {
    let mut config = config_with_profile();
    config.profiles.insert(
        "nokey".to_string(),
        ProfileConfig {
            provider: "gemini".to_string(),
            model: "m".to_string(),
            key: Some("nonexistent-label".to_string()),
        },
    );
    assert_provider_error(&config, "nokey", "No API key");
}

#[test]
fn build_provider_no_api_key_at_all() {
    let mut config = config_with_profile();
    config.providers.insert(
        "empty-provider".to_string(),
        ProviderConfig {
            kind: ProviderKind::Gemini,
            keys: vec![],
            base_url: None,
        },
    );
    config.profiles.insert(
        "empty-key".to_string(),
        ProfileConfig {
            provider: "empty-provider".to_string(),
            model: "m".to_string(),
            key: None,
        },
    );
    assert_provider_error(&config, "empty-key", "No API key");
}

#[test]
fn build_provider_resolves_valid_profile() {
    let config = config_with_profile();
    let spec = build_provider(&config, "valid").ok().unwrap();
    assert_eq!(spec.kind, ProviderKind::Gemini);
    assert_eq!(spec.params.api_key, "test-key");
    assert_eq!(spec.params.model, "gemini-2.5-flash");
    assert_eq!(spec.base_url, None);
}

#[test]
fn build_provider_requires_base_url_for_openai_compatible() {
    let mut config = config_with_profile();
    config.providers.insert(
        "local".to_string(),
        ProviderConfig {
            kind: ProviderKind::OpenaiCompatible,
            keys: vec![ApiKey { value: "k".into(), name: None }],
            base_url: None,
        },
    );
    config.profiles.insert(
        "local-profile".to_string(),
        ProfileConfig {
            provider: "local".to_string(),
            model: "m".to_string(),
            key: None,
        },
    );
    assert_provider_error(&config, "local-profile", "requires base_url");
}

#[test]
fn format_http_status_messages() {
    let msgs = HttpErrorMessages {
        not_found: "check the model",
        unauthorized: "check the key",
        rate_limited: "slow down",
        server_error: "try later",
    };
    assert_eq!(
        format_http_status(404, &msgs).as_deref(),
        Some("HTTP 404: Not Found - check the model")
    );
    assert_eq!(
        format_http_status(403, &msgs).as_deref(),
        Some("HTTP 401/403: Unauthorized - check the key")
    );
    assert_eq!(format_http_status(418, &msgs), None);
}

// -- orchestration --

fn profile_options(
    profile: Option<&str>,
    repair_profile: Option<&str>,
    glossary_profile: Option<&str>,
) -> (Option<String>, Option<String>, Option<String>) {
    (
        profile.map(str::to_string),
        repair_profile.map(str::to_string),
        glossary_profile.map(str::to_string),
    )
}

fn previous_chapter_state_with_hash(source_text_hash: Option<&str>) -> ChapterState {
    ChapterState::new(
        "chapter1.md".to_string(),
        ChapterStatus::Success,
        None,
        Some(100),
        None,
        None,
        vec![],
        source_text_hash.map(str::to_string),
    )
}

#[test]
fn test_resolve_translate_profiles_defaults_to_translation_profile() {
    let config = GlobalConfig {
        default_profile: Some("default".to_string()),
        ..GlobalConfig::default()
    };
    let book_config = BookConfig::default();
    let (profile, repair, glossary) = profile_options(None, None, None);

    let profiles = resolve_translate_profiles(
        &config,
        &book_config,
        profile.as_deref(),
        repair.as_deref(),
        glossary.as_deref(),
    )
    .unwrap();

    assert_eq!(profiles.translation_name, "default");
    assert_eq!(profiles.repair_name, "default");
    assert_eq!(profiles.glossary_name, "default");
}

#[test]
fn test_resolve_translate_profiles_uses_task_overrides() {
    let config = GlobalConfig::default();
    let mut book_config = BookConfig::with_profile("book");
    book_config.repair_profile = Some("book-repair".to_string());
    book_config.glossary_profile = Some("book-glossary".to_string());
    let (profile, repair, glossary) =
        profile_options(Some("cli"), Some("cli-repair"), Some("cli-glossary"));

    let profiles = resolve_translate_profiles(
        &config,
        &book_config,
        profile.as_deref(),
        repair.as_deref(),
        glossary.as_deref(),
    )
    .unwrap();

    assert_eq!(profiles.translation_name, "cli");
    assert_eq!(profiles.repair_name, "cli-repair");
    assert_eq!(profiles.glossary_name, "cli-glossary");
}

#[test]
fn resolve_translate_profiles_uses_book_settings_then_default() {
    let config = GlobalConfig {
        default_profile: Some("global".to_string()),
        ..GlobalConfig::default()
    };
    let mut book_config = BookConfig::with_profile("");
    book_config.repair_profile = Some("book-repair".to_string());
    let profiles = resolve_translate_profiles(&config, &book_config, None, None, None).unwrap();
    assert_eq!(profiles.translation_name, "global");
    assert_eq!(profiles.repair_name, "book-repair");
    assert_eq!(profiles.glossary_name, "global");

    let mut no_profile = BookConfig::default();
    no_profile.profile = None;
    assert!(resolve_translate_profiles(&GlobalConfig::default(), &no_profile, None, None, None).is_none());
}

#[test]
fn test_skipped_chapter_source_hash_backfills_legacy_hash_during_rerun() {
    let chapter_text = "# Chapter 1\n\nSource text\n";
    let previous_chapter_state = previous_chapter_state_with_hash(None);

    let source_text_hash =
        skipped_chapter_source_hash(chapter_text, Some(&previous_chapter_state), true);

    assert_eq!(
        source_text_hash,
        Some(normalized_source_text_hash(chapter_text))
    );
}

#[test]
fn test_skipped_chapter_source_hash_keeps_legacy_hash_unrecorded_without_rerun_flag() {
    let previous_chapter_state = previous_chapter_state_with_hash(None);

    let source_text_hash = skipped_chapter_source_hash(
        "# Chapter 1\n\nSource text\n",
        Some(&previous_chapter_state),
        false,
    );

    assert_eq!(source_text_hash, None);
}

#[test]
fn test_retry_delay_secs_backs_off_exponentially() {
    assert_eq!(retry_delay_secs(1), 2);
    assert_eq!(retry_delay_secs(2), 4);
    assert_eq!(retry_delay_secs(3), 8);
}

#[test]
fn test_failed_chapter_source_hash_preserves_previous_hash() {
    let previous_hash = normalized_source_text_hash("old source text");
    let previous_chapter_state = previous_chapter_state_with_hash(Some(&previous_hash));

    let source_text_hash =
        failed_chapter_source_hash(Some(&previous_chapter_state), "new-source-hash");

    assert_eq!(source_text_hash, Some(previous_hash));
}

#[test]
fn test_failed_chapter_source_hash_uses_current_hash_when_untracked() {
    let previous_chapter_state = previous_chapter_state_with_hash(None);

    let source_text_hash =
        failed_chapter_source_hash(Some(&previous_chapter_state), "new-source-hash");

    assert_eq!(source_text_hash, Some("new-source-hash".to_string()));
}

#[test]
fn test_failed_chapter_result_preserves_usage() {
    let usage = TranslationUsage {
        input_tokens: 10,
        output_tokens: 20,
        total_tokens: 30,
        cached_input_tokens: 4,
        cache_creation_input_tokens: 5,
    };

    let result = build_failed_chapter_result(
        "chapter1.md",
        "Validation failed".to_string(),
        100,
        Some(usage.clone()),
        PreviousChapterArtifacts::default(),
        Some("source-hash".to_string()),
    );

    assert_eq!(result.usage, Some(usage.clone()));
    assert_eq!(result.chapter_state.translation_usage, Some(usage));
}

// -- shared provider plumbing --

use cipher::translate::providers::shared::{
    glossary_result, repair_request_prompt, text_result, GlossaryExtractionResponse,
    TranslationOnlyResponse,
};

#[test]
fn text_result_normalizes_the_reply() {
    let usage = TranslationUsage {
        input_tokens: 1,
        output_tokens: 2,
        total_tokens: 3,
        cached_input_tokens: 0,
        cache_creation_input_tokens: 0,
    };
    let r = text_result(
        TranslationOnlyResponse {
            chapter_number: Some(" 7 ".into()),
            chapter_title: Some("  ".into()),
            content: "\n Body \n".into(),
        },
        usage,
    );
    assert_eq!(r.chapter.chapter_number.as_deref(), Some("7"));
    assert_eq!(r.chapter.chapter_title, None);
    assert_eq!(r.chapter.content, "Body");
    assert_eq!(r.usage, usage);

    let g = glossary_result(
        GlossaryExtractionResponse {
            new_glossary_terms: vec![GlossaryTerm {
                term: "Magic".into(),
                og_term: None,
                definition: "d".into(),
                notes: None,
            }],
        },
        usage,
    );
    assert_eq!(g.new_glossary_terms.len(), 1);
    assert_eq!(g.new_glossary_terms[0].term, "Magic");
}

#[test]
fn repair_request_prompt_builds_its_own_sections() {
    let req = RepairRequest {
        chapter_markdown: "Original text".to_string(),
        glossary_terms: vec![GlossaryTerm {
            term: "Magic".to_string(),
            og_term: Some("마법".to_string()),
            definition: "Supernatural power".to_string(),
            notes: None,
        }],
        style_guide: Some("Formal tone".to_string()),
        failed_translation: "Bad translation".to_string(),
        validation_errors: vec!["Missing chapter heading".to_string()],
        output_config: OutputConfig::default(),
    };
    let prompt = repair_request_prompt(&req);
    assert!(prompt.contains("Magic [마법]: Supernatural power"));
    assert!(prompt.contains("Formal tone"));
    assert!(prompt.contains("Missing chapter heading"));
}
