use cipher::config::profile::{
    create_profile, generate_unique_key_label, run_global_doctor, set_default_profile,
    test_profile,
};
use cipher::config::{
    validate_profile, ApiKey, GlobalConfig, ProfileConfig, ProviderConfig, ProviderKind,
};
use cipher::strmap::StrMap;

fn base_config() -> GlobalConfig {
    GlobalConfig {
        default_profile: None,
        providers: StrMap::new(),
        profiles: StrMap::new(),
    }
}

fn empty_config() -> GlobalConfig {
    base_config()
}

#[test]
fn test_validate_profile_accepts_gemini_without_base_url() {
    let mut config = base_config();
    config.providers.insert(
        "gemini".to_string(),
        ProviderConfig {
            kind: ProviderKind::Gemini,
            keys: vec![ApiKey {
                value: "test-key".to_string(),
                name: Some("default".to_string()),
            }],
            base_url: None,
        },
    );
    config.profiles.insert(
        "gemini-profile".to_string(),
        ProfileConfig {
            provider: "gemini".to_string(),
            model: "gemini-2.5-flash".to_string(),
            key: Some("default".to_string()),
        },
    );

    let validation = validate_profile(&config, "gemini-profile");

    assert!(validation.is_valid(), "expected Gemini profile to be valid");
    assert!(validation.errors.is_empty());
}

#[test]
fn effective_profile_name_prefers_book_profile() {
    let config = base_config();
    assert_eq!(
        config.effective_profile_name(Some("book-profile")),
        Some("book-profile")
    );
}

#[test]
fn effective_profile_name_falls_back_to_default() {
    let mut config = base_config();
    config.default_profile = Some("default-profile".to_string());
    assert_eq!(config.effective_profile_name(None), Some("default-profile"));
}

#[test]
fn effective_profile_name_filters_empty_book_profile() {
    let mut config = base_config();
    config.default_profile = Some("default-profile".to_string());
    assert_eq!(
        config.effective_profile_name(Some("")),
        Some("default-profile")
    );
}

#[test]
fn effective_profile_name_returns_none_when_no_profile_available() {
    let config = base_config();
    assert_eq!(config.effective_profile_name(None), None);
}

#[test]
fn validate_profile_reports_missing_profile_provider_and_key() {
    let mut config = base_config();
    let missing = validate_profile(&config, "nope");
    assert!(!missing.is_valid());
    assert_eq!(missing.errors, vec!["Profile 'nope' not found".to_string()]);

    config.profiles.insert(
        "p".to_string(),
        ProfileConfig {
            provider: "custom".to_string(),
            model: "m".to_string(),
            key: Some("work".to_string()),
        },
    );
    let v = validate_profile(&config, "p");
    assert!(v.profile_exists);
    assert!(!v.provider_exists);
    assert_eq!(
        v.errors,
        vec![
            "Provider 'custom' not found".to_string(),
            "No API key labeled 'work' configured for provider 'custom'".to_string(),
        ]
    );

    config.providers.insert(
        "custom".to_string(),
        ProviderConfig {
            kind: ProviderKind::OpenaiCompatible,
            keys: vec![],
            base_url: None,
        },
    );
    let v = validate_profile(&config, "p");
    assert_eq!(
        v.errors,
        vec![
            "OpenAI-compatible provider 'custom' requires base_url".to_string(),
            "No API key labeled 'work' configured for provider 'custom'".to_string(),
        ]
    );
}

#[test]
fn provider_key_lookup_by_label_and_default() {
    let mut config = base_config();
    config.providers.insert(
        "gemini".to_string(),
        ProviderConfig {
            kind: ProviderKind::Gemini,
            keys: vec![
                ApiKey { value: "first".into(), name: None },
                ApiKey { value: "second".into(), name: Some("work".into()) },
            ],
            base_url: None,
        },
    );
    assert_eq!(config.get_provider_key_by_label("gemini", None), Some("first"));
    assert_eq!(config.get_provider_key_by_label("gemini", Some("work")), Some("second"));
    assert_eq!(config.get_provider_key_by_label("gemini", Some("home")), None);
    assert_eq!(config.get_provider_key_by_label("openai", None), None);
}

#[test]
fn provider_kind_slugs_round_trip() {
    for kind in [ProviderKind::Gemini, ProviderKind::Openai, ProviderKind::Cohere] {
        assert_eq!(ProviderKind::from_slug(kind.slug()), Some(kind));
    }
    assert_eq!(ProviderKind::OpenaiCompatible.slug(), "openai");
    assert_eq!(ProviderKind::OpenaiCompatible.to_string(), "OpenAI-compatible");
    assert_eq!(ProviderKind::from_slug("nope"), None);
}

// -- generate_unique_key_label --

#[test]
fn key_label_no_existing() {
    assert_eq!(generate_unique_key_label(&[]), "key-1");
}

#[test]
fn key_label_skips_existing_labels() {
    let keys = vec![
        ApiKey {
            value: "v1".into(),
            name: Some("key-1".into()),
        },
        ApiKey {
            value: "v2".into(),
            name: Some("key-2".into()),
        },
    ];
    assert_eq!(generate_unique_key_label(&keys), "key-3");
}

#[test]
fn key_label_ignores_unnamed_keys() {
    let keys = vec![ApiKey {
        value: "v1".into(),
        name: None,
    }];
    assert_eq!(generate_unique_key_label(&keys), "key-1");
}

#[test]
fn key_label_fills_gap() {
    let keys = vec![ApiKey {
        value: "v1".into(),
        name: Some("key-1".into()),
    }];
    assert_eq!(generate_unique_key_label(&keys), "key-2");
}

// -- create_profile non-interactive error paths --

#[test]
fn create_noninteractive_requires_name() {
    let mut cfg = empty_config();
    let err = create_profile(
        &mut cfg,
        None,
        Some("gemini".to_string()),
        None,
        None,
        None,
        None,
    )
    .unwrap_err()
    .to_string();
    assert!(err.contains("--name is required"), "got: {err}");
}

#[test]
fn create_noninteractive_requires_provider() {
    let mut cfg = empty_config();
    let err = create_profile(&mut cfg, Some("p".into()), None, None, None, None, None)
        .unwrap_err()
        .to_string();
    assert!(err.contains("--provider is required"), "got: {err}");
}

#[test]
fn create_noninteractive_rejects_empty_name() {
    let mut cfg = empty_config();
    let err = create_profile(
        &mut cfg,
        Some("".into()),
        Some("gemini".to_string()),
        None,
        None,
        None,
        None,
    )
    .unwrap_err()
    .to_string();
    assert!(err.contains("cannot be empty"), "got: {err}");
}

#[test]
fn create_noninteractive_rejects_empty_provider() {
    let mut cfg = empty_config();
    let err = create_profile(
        &mut cfg,
        Some("p".into()),
        Some("".into()),
        None,
        None,
        None,
        None,
    )
    .unwrap_err()
    .to_string();
    assert!(err.contains("cannot be empty"), "got: {err}");
}

#[test]
fn create_noninteractive_requires_api_key_file() {
    let mut cfg = empty_config();
    let err = create_profile(
        &mut cfg,
        Some("p".into()),
        Some("gemini".into()),
        None,
        None,
        None,
        None,
    )
    .unwrap_err()
    .to_string();
    assert!(err.contains("--api-key-file is required"), "got: {err}");
}

#[test]
fn create_noninteractive_rejects_unknown_provider() {
    let mut cfg = empty_config();
    let err = create_profile(
        &mut cfg,
        Some("p".into()),
        Some("custom".into()),
        None,
        None,
        Some(Ok(String::new())),
        None,
    )
    .unwrap_err()
    .to_string();
    assert!(err.contains("not found"), "got: {err}");
}

#[test]
fn create_noninteractive_adds_builtin_provider_key_and_default() {
    let mut cfg = empty_config();
    create_profile(
        &mut cfg,
        Some("p".into()),
        Some("gemini".into()),
        Some("gemini-2.5-flash".into()),
        None,
        Some(Ok("  secret \n".into())),
        None,
    )
    .unwrap();
    assert_eq!(cfg.default_profile.as_deref(), Some("p"));
    let provider = cfg.providers.get("gemini").unwrap();
    assert_eq!(provider.keys.len(), 1);
    assert_eq!(provider.keys[0].value, "secret");
    assert_eq!(provider.keys[0].name.as_deref(), Some("key-1"));
    let profile = cfg.profiles.get("p").unwrap();
    assert_eq!(profile.provider, "gemini");
    assert_eq!(profile.model, "gemini-2.5-flash");
    assert_eq!(profile.key.as_deref(), Some("key-1"));
    assert!(validate_profile(&cfg, "p").is_valid());
}

#[test]
fn set_default_profile_not_found_errors_without_saving() {
    let mut cfg = empty_config();
    let err = set_default_profile(&mut cfg, "nope")
        .unwrap_err()
        .to_string();
    assert!(err.contains("not found"), "got: {err}");
    assert!(cfg.default_profile.is_none());
}

#[test]
fn test_profile_nonexistent_does_not_panic() {
    let mut cfg = empty_config();
    cfg.providers.insert(
        "gemini".into(),
        ProviderConfig {
            kind: ProviderKind::Gemini,
            keys: vec![ApiKey {
                value: "k".into(),
                name: Some("key-1".into()),
            }],
            base_url: None,
        },
    );
    cfg.profiles.insert(
        "my-profile".into(),
        ProfileConfig {
            provider: "gemini".into(),
            model: "m".into(),
            key: Some("key-1".into()),
        },
    );
    let v = test_profile(&cfg, "my-profile");
    assert!(v.is_valid());
}

#[test]
fn run_global_doctor_empty_does_not_panic() {
    let report = run_global_doctor(&empty_config());
    assert_eq!(report.providers, 0);
    assert_eq!(report.profiles, 0);
    assert!(report.profile_validity.is_empty());
}

// -- interactive set-up decisions --

use cipher::config::choices::{
    apply_default_profile_choice, check_key_label, check_provider_name, chosen_provider,
    create_builtin_provider, key_menu_items, model_or_default, provider_menu_items,
    KeyLabelAnswer,
};

#[test]
fn provider_menu_lists_providers_in_name_order_then_create() {
    let mut cfg = empty_config();
    cfg.providers.insert(
        "openai".into(),
        ProviderConfig { kind: ProviderKind::Openai, keys: vec![], base_url: None },
    );
    cfg.providers.insert(
        "local".into(),
        ProviderConfig {
            kind: ProviderKind::OpenaiCompatible,
            keys: vec![],
            base_url: Some("http://localhost:8080/v1".into()),
        },
    );
    assert_eq!(
        provider_menu_items(&cfg),
        vec![
            "local (OpenAI-compatible, http://localhost:8080/v1)".to_string(),
            "openai (OpenAI)".to_string(),
            "Create new provider".to_string(),
        ]
    );
    assert_eq!(chosen_provider(&cfg, 1).as_deref(), Some("openai"));
    assert_eq!(chosen_provider(&cfg, 2), None);
}

#[test]
fn key_menu_names_unlabelled_keys_by_position() {
    let keys = vec![
        ApiKey { value: "a".into(), name: Some("work".into()) },
        ApiKey { value: "b".into(), name: None },
    ];
    assert_eq!(
        key_menu_items(&keys),
        vec!["work".to_string(), "(unnamed) # 2".to_string(), "Add new API key".to_string()]
    );
}

#[test]
fn provider_and_label_answers_are_checked() {
    assert_eq!(check_provider_name("  local-llm "), Ok("local-llm".to_string()));
    assert_eq!(
        check_provider_name("   "),
        Err("Provider name cannot be empty. Please try again.".to_string())
    );
    assert_eq!(
        check_provider_name("my llm"),
        Err("Provider name cannot contain spaces. Please try again.".to_string())
    );
    let keys = vec![ApiKey { value: "a".into(), name: Some("work".into()) }];
    assert!(matches!(check_key_label(&keys, " home ", false), KeyLabelAnswer::Label(l) if l == "home"));
    assert!(matches!(check_key_label(&keys, "work", false), KeyLabelAnswer::AskAgain(_)));
    assert!(matches!(check_key_label(&keys, "", false), KeyLabelAnswer::NoLabel));
    assert!(matches!(check_key_label(&keys, "", true), KeyLabelAnswer::AskAgain(_)));
    assert_eq!(model_or_default("  "), "gpt-4o-mini");
    assert_eq!(model_or_default(" gpt-4.1 "), "gpt-4.1");
}

#[test]
fn builtin_provider_is_added_once_and_default_set_when_unset() {
    let mut cfg = empty_config();
    assert_eq!(create_builtin_provider(&mut cfg, "gemini", ProviderKind::Gemini), "gemini");
    cfg.providers.insert(
        "gemini".into(),
        ProviderConfig {
            kind: ProviderKind::Gemini,
            keys: vec![ApiKey { value: "k".into(), name: None }],
            base_url: None,
        },
    );
    create_builtin_provider(&mut cfg, "gemini", ProviderKind::Gemini);
    assert_eq!(cfg.providers.get("gemini").unwrap().keys.len(), 1);

    assert!(apply_default_profile_choice(&mut cfg, "first", false));
    assert_eq!(cfg.default_profile.as_deref(), Some("first"));
    assert!(!apply_default_profile_choice(&mut cfg, "second", false));
    assert_eq!(cfg.default_profile.as_deref(), Some("first"));
    assert!(apply_default_profile_choice(&mut cfg, "second", true));
    assert_eq!(cfg.default_profile.as_deref(), Some("second"));
}
