use cipher::book::chapters::{chapter_le_exec, file_stem, is_markdown_file, order_chapter_files};
use cipher::book::init::{default_glossary_injection, BookConfig, STYLE_TEMPLATE};
use cipher::book::output::{
    render_chapter_markdown, render_requires_heading, validate_structured_chapter,
    OutputConfig, StructuredChapter,
};
use cipher::book::paths::{
    chapter_output_path, chapter_state_key, extract_number, join_path, BookExists,
    BookLayout, BookPaths,
};

#[test]
fn test_book_config_default() {
    let config = BookConfig::default();
    assert_eq!(config.raw_dir, "raw");
    assert_eq!(config.out_dir, "tl");
    assert_eq!(config.glossary_path, "glossary.json");
    assert_eq!(config.style_path, "style.md");
    assert_eq!(config.glossary_injection, "smart");
    assert_eq!(config.profile, Some("default".to_string()));
}

#[test]
fn test_book_config_with_profile() {
    let config = BookConfig::with_profile("default");
    assert_eq!(config.profile, Some("default".to_string()));
}

#[test]
fn book_config_with_profile_keeps_other_defaults() {
    let config = BookConfig::with_profile("work");
    assert_eq!(config.profile.as_deref(), Some("work"));
    assert_eq!(config.repair_profile, None);
    assert_eq!(config.glossary_profile, None);
    assert_eq!(config.out_dir, "tl");
    assert_eq!(default_glossary_injection(), "smart");
    assert!(STYLE_TEMPLATE.starts_with("# Style Guide\n"));
}

#[test]
fn test_structured_chapter_heading() {
    let chapter = StructuredChapter {
        chapter_number: Some("12".to_string()),
        chapter_title: Some("A New Dawn".to_string()),
        content: "Body".to_string(),
    };

    assert_eq!(chapter.heading().as_deref(), Some("Chapter 12: A New Dawn"));
}

#[test]
fn structured_chapter_heading_variants() {
    let number_only = StructuredChapter {
        chapter_number: Some(" 3 ".to_string()),
        chapter_title: Some("   ".to_string()),
        content: "x".to_string(),
    };
    assert_eq!(number_only.heading().as_deref(), Some("Chapter  3 :    "));
    assert_eq!(number_only.normalized().heading().as_deref(), Some("Chapter 3"));
    let title_only = StructuredChapter {
        chapter_number: None,
        chapter_title: Some("Prologue".to_string()),
        content: "x".to_string(),
    };
    assert_eq!(title_only.heading().as_deref(), Some("Prologue"));
    let neither = StructuredChapter {
        chapter_number: None,
        chapter_title: None,
        content: "x".to_string(),
    };
    assert_eq!(neither.heading(), None);
}

#[test]
fn test_render_default_template() {
    let chapter = StructuredChapter {
        chapter_number: Some("12".to_string()),
        chapter_title: Some("A New Dawn".to_string()),
        content: "Body".to_string(),
    };

    let rendered = render_chapter_markdown(&chapter, &OutputConfig::default());
    assert_eq!(rendered, "# Chapter 12: A New Dawn\n\nBody");
    assert!(render_requires_heading(&OutputConfig::default()));
}

#[test]
fn test_validate_required_fields() {
    let chapter = StructuredChapter {
        chapter_number: None,
        chapter_title: None,
        content: "".to_string(),
    };
    let mut config = OutputConfig::default();
    config.fields.chapter_number.required = true;

    let errors = validate_structured_chapter(&chapter, &config);

    assert!(errors.iter().any(|e| e.contains("chapter_number")));
    assert!(errors.iter().any(|e| e.contains("content")));
}

#[test]
fn test_extract_number() {
    assert_eq!(extract_number("chapter01"), Some(1));
    assert_eq!(extract_number("chapter1"), Some(1));
    assert_eq!(extract_number("chapter10"), Some(10));
    assert_eq!(extract_number("01-chapter"), Some(1));
    assert_eq!(extract_number("no-number"), None);
    assert_eq!(extract_number(""), None);
}

#[test]
fn chapter_state_key_returns_normalized_relative_path() {
    let raw = "/book/raw";
    let file = "/book/raw/01-intro.md";
    let key = chapter_state_key(raw, file).unwrap();
    assert_eq!(key, "01-intro.md");
}

#[test]
fn chapter_state_key_rejects_files_outside_raw_dir() {
    assert!(chapter_state_key("/book/raw", "/elsewhere/01.md").is_err());
    assert_eq!(
        chapter_state_key("/book/raw", "/book/raw/part1/./02.md").unwrap(),
        "part1/02.md"
    );
}

#[test]
fn chapter_output_path_joins_filename_with_out_dir() {
    let out = "/book/tl";
    let file = "/book/raw/01-intro.md";
    let path = chapter_output_path(out, file).unwrap();
    assert_eq!(path, "/book/tl/01-intro.md");
}

#[test]
fn test_extract_number_multiple_groups() {
    assert_eq!(extract_number("ch3_part2"), Some(3));
    assert_eq!(extract_number("v2_chapter10"), Some(2));
}

#[test]
fn book_paths_and_layout() {
    let paths = BookPaths::resolve("/book");
    assert_eq!(paths.raw_dir, "/book/raw");
    assert_eq!(paths.out_dir, "/book/tl");
    assert_eq!(paths.legacy_out_dir, "/book/translated");
    assert_eq!(paths.glossary_json, "/book/glossary.json");
    assert_eq!(paths.state_dir, "/book/.cipher");
    assert_eq!(join_path("/book/", "raw"), "/book/raw");
    assert_eq!(paths.effective_out_dir(false, true), "/book/translated");
    assert_eq!(paths.effective_out_dir(true, true), "/book/tl");
    assert!(paths.is_using_legacy_out(false, true));
    assert!(!paths.is_using_legacy_out(false, false));
}

#[test]
fn book_layout_valid_when_root_and_raw_exist() {
    let exists = BookExists {
        root_dir: true,
        config_toml: false,
        raw_dir: true,
        out_dir: false,
        legacy_out_dir: true,
        glossary_json: false,
        style_md: false,
        state_dir: false,
    };
    let layout = BookLayout::discover("/book", exists);
    assert!(layout.is_valid_book());
    assert!(layout.is_using_legacy_out());
    assert_eq!(layout.effective_out_dir(), "/book/translated");
}

#[test]
fn order_chapter_files_filters_markdown_and_sorts_by_number_then_name() {
    let names: Vec<String> = [
        "chapter10.md",
        "notes.txt",
        "chapter2.md",
        "appendix.md",
        ".md",
        "chapter01.md",
        "afterword.md",
        "cover.png",
    ]
    .iter()
    .map(|s| s.to_string())
    .collect();
    let ordered = order_chapter_files(names);
    assert_eq!(
        ordered,
        vec!["chapter01.md", "chapter2.md", "chapter10.md", "afterword.md", "appendix.md"]
    );
    assert!(is_markdown_file("a.b.md"));
    assert!(!is_markdown_file(".md"));
    assert!(!is_markdown_file("md"));
    assert!(!is_markdown_file("a.mdx"));
    assert_eq!(file_stem("a.b.md"), "a.b");
    assert_eq!(file_stem(".hidden"), ".hidden");
    assert!(chapter_le_exec("v2_chapter10.md", "ch3_part2.md"));
    assert!(!chapter_le_exec("intro.md", "01.md"));
}

#[test]
fn order_chapter_files_keeps_listing_order_for_equal_numbers() {
    let a = order_chapter_files(vec!["01.md".to_string(), "2.md".to_string(), "1.md".to_string()]);
    assert_eq!(a, vec!["01.md".to_string(), "1.md".to_string(), "2.md".to_string()]);
    let b = order_chapter_files(vec!["1.md".to_string(), "2.md".to_string(), "01.md".to_string()]);
    assert_eq!(b, vec!["1.md".to_string(), "01.md".to_string(), "2.md".to_string()]);
}

#[test]
fn normalizing_a_chapter_twice_changes_nothing() {
    let c = StructuredChapter {
        chapter_number: Some("  7 ".to_string()),
        chapter_title: Some("   ".to_string()),
        content: "\n  Body \n".to_string(),
    };
    let once = c.normalized();
    assert_eq!(once.chapter_number.as_deref(), Some("7"));
    assert_eq!(once.chapter_title, None);
    assert_eq!(once.content, "Body");
    let twice = StructuredChapter {
        chapter_number: once.chapter_number.clone(),
        chapter_title: once.chapter_title.clone(),
        content: once.content.clone(),
    }
    .normalized();
    assert_eq!(twice, once);
}

#[test]
fn chapter_state_key_compares_path_components() {
    assert_eq!(chapter_state_key("/book//raw", "/book/raw/x.md").unwrap(), "x.md");
    assert_eq!(chapter_state_key("/book/./raw/", "/book/raw//x.md").unwrap(), "x.md");
    assert_eq!(chapter_state_key("raw", "./raw/a/b.md").unwrap_err().code(), "E007");
    assert_eq!(chapter_state_key("./raw", "./raw/a/b.md").unwrap(), "a/b.md");
    assert!(chapter_state_key("/book/ra", "/book/raw/x.md").is_err());
    assert_eq!(chapter_state_key("", "a/b.md").unwrap(), "a/b.md");
}

#[test]
fn chapter_output_path_uses_the_last_component() {
    assert_eq!(chapter_output_path("/tl", "a/b/.").unwrap(), "/tl/b");
    assert_eq!(chapter_output_path("/tl/", "a//b.md/").unwrap(), "/tl/b.md");
    assert!(chapter_output_path("/tl", "a/..").is_err());
    assert!(chapter_output_path("/tl", "/").is_err());
    assert!(chapter_output_path("/tl", "./").is_err());
}
