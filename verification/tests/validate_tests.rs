use cipher::validate::{
    has_balanced_code_fences, is_pattern_in_json_context, is_valid_chapter_heading,
    looks_like_json_object, validate_translation, ValidationOptions,
};


#[test]
fn test_valid_chapter_headings() {
    assert!(is_valid_chapter_heading("# Chapter 1"));
    assert!(is_valid_chapter_heading("# Chapter 1: The Beginning"));
    assert!(is_valid_chapter_heading("# Prologue"));
    assert!(is_valid_chapter_heading("# Epilogue"));
    assert!(is_valid_chapter_heading("# Chapter One"));
    assert!(is_valid_chapter_heading("# Title Here"));
}

#[test]
fn test_invalid_chapter_headings() {
    assert!(!is_valid_chapter_heading("#"));
    assert!(!is_valid_chapter_heading("# "));
    assert!(!is_valid_chapter_heading("Some text"));
    assert!(!is_valid_chapter_heading("## Heading 2"));
}

#[test]
fn test_balanced_fences() {
    assert!(has_balanced_code_fences("```rust\ncode\n```"));
    assert!(has_balanced_code_fences("No code fences"));
    assert!(!has_balanced_code_fences("```rust\ncode"));
    assert!(has_balanced_code_fences("```\n```\n```\n```"));
}

#[test]
fn test_json_leakage_detection() {
    let result =
        validate_translation("{\"translation\": \"text\"}", ValidationOptions::default());
    assert!(!result.is_valid());
    assert!(result.errors().iter().any(|e| e.contains("raw JSON")));

    let result = validate_translation(
        "# Prologue\n\n{\n\"type\": \"string\"\n}",
        ValidationOptions::default(),
    );
    assert!(!result.is_valid());
    assert!(result.errors().iter().any(|e| e.contains("Schema pattern")));

    let result = validate_translation(
        "# Chapter\n\nThe character said \"type\": in dialogue.",
        ValidationOptions::default(),
    );
    assert!(result.is_valid());

    let result = validate_translation(
        "# Chapter 1\n\n\"new_glossary_terms\": []",
        ValidationOptions::default(),
    );
    assert!(!result.is_valid());
    assert!(
        result
            .errors()
            .iter()
            .any(|e| e.contains("Response schema leaked"))
    );

    let result = validate_translation(
        "# Prologue\n\nNormal text without JSON.",
        ValidationOptions::default(),
    );
    assert!(result.is_valid());
}

#[test]
fn test_valid_translation_passes() {
    let text = "# Chapter 1\n\nThis is a valid translation.";
    assert!(validate_translation(text, ValidationOptions::default()).is_valid());
}

#[test]
fn test_prologue_epilogue_passes() {
    assert!(
        validate_translation("# Prologue\n\nSome text", ValidationOptions::default())
            .is_valid()
    );
    assert!(
        validate_translation("# Epilogue\n\nSome text", ValidationOptions::default())
            .is_valid()
    );
}

#[test]
fn test_is_pattern_in_json_context_at_start() {
    assert!(is_pattern_in_json_context("\"type\":", "\"type\":"));
}

#[test]
fn test_is_pattern_in_json_context_after_brace() {
    assert!(is_pattern_in_json_context(
        "{\"type\": \"string\"}",
        "\"type\":"
    ));
}

#[test]
fn test_is_pattern_in_json_context_after_comma() {
    assert!(is_pattern_in_json_context(
        "{\"a\": 1, \"type\": \"string\"}",
        "\"type\":"
    ));
}

#[test]
fn test_is_pattern_in_json_context_after_newline() {
    assert!(is_pattern_in_json_context(
        "{\n\"type\": \"string\"}",
        "\"type\":"
    ));
}

#[test]
fn test_is_pattern_in_json_context_in_prose_not_detected() {
    // Pattern appears in normal prose context (after a letter)
    assert!(!is_pattern_in_json_context(
        "The character said \"type\": something",
        "\"type\":"
    ));
}

#[test]
fn test_is_pattern_in_json_context_checks_all_occurrences() {
    // First occurrence is in prose, second is in JSON context
    assert!(is_pattern_in_json_context(
        "He said \"type\": foo, then\n\"type\": \"string\"",
        "\"type\":"
    ));
}

#[test]
fn test_is_pattern_not_found() {
    assert!(!is_pattern_in_json_context("no match here", "\"type\":"));
}

#[test]
fn test_looks_like_json_object_valid() {
    assert!(looks_like_json_object("{\"key\": \"value\"}"));
    assert!(looks_like_json_object(
        "  { \"a\": 1, \"b\": { \"c\": 2 } }  "
    ));
}

#[test]
fn test_looks_like_json_object_invalid() {
    assert!(!looks_like_json_object("not json"));
    assert!(!looks_like_json_object("{no colon here}"));
    assert!(!looks_like_json_object("[\"array\"]"));
}

#[test]
fn test_empty_translation() {
    let result = validate_translation("", ValidationOptions::default());
    assert!(!result.is_valid());
    assert!(result.errors().iter().any(|e| e.contains("empty")));
}

#[test]
fn test_missing_heading() {
    let result = validate_translation(
        "Just some text without heading.",
        ValidationOptions::default(),
    );
    assert!(!result.is_valid());
    assert!(result.errors().iter().any(|e| e.contains("heading")));
}

#[test]
fn test_unbalanced_code_fences() {
    let result = validate_translation(
        "# Chapter 1\n\n```rust\nlet x = 1;",
        ValidationOptions::default(),
    );
    assert!(!result.is_valid());
    assert!(result.errors().iter().any(|e| e.contains("code fences")));
}

#[test]
fn test_heading_optional() {
    let result = validate_translation(
        "Just some text without heading.",
        ValidationOptions {
            require_heading: false,
        },
    );
    assert!(result.is_valid());
}

#[test]
fn empty_pattern_is_in_json_context() {
    assert!(is_pattern_in_json_context("plain prose", ""));
    assert!(is_pattern_in_json_context("", ""));
}

#[test]
fn replace_str_follows_str_replace() {
    assert_eq!(cipher::text::replace_str("a{x}b{x}", "{x}", "-"), "a{x}b{x}".replace("{x}", "-"));
    assert_eq!(cipher::text::replace_str("abc", "", "r"), "abc".replace("", "r"));
    assert_eq!(cipher::text::replace_str("", "", "r"), "r");
    assert_eq!(cipher::text::replace_str("aaa", "aa", "b"), "ba");
}
