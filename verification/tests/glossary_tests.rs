use cipher::glossary::glossary_entry_line;
use cipher::glossary::closest_match::ClosestMatch;
use cipher::glossary::{
    book_config_injection_mode, book_config_injection_warning, dedupe_terms,
    glossary_term_key, glossary_term_prompt_fingerprint, merge_terms, normalize_key,
    select_terms_for_text, GlossaryTerm, InjectionMode,
};

fn term(t: &str, og: Option<&str>, d: &str) -> GlossaryTerm {
    GlossaryTerm {
        term: t.to_string(),
        og_term: og.map(|s| s.to_string()),
        definition: d.to_string(),
        notes: None,
    }
}

#[test]
fn test_normalize_key() {
    assert_eq!(normalize_key("  Hello   World  "), "hello world");
    assert_eq!(normalize_key("test"), "test");
}

#[test]
fn test_dedupe_preserves_order() {
    let mut terms = vec![
        term("Apple", None, "A fruit"),
        term("apple", None, "Another fruit"),
        term("Banana", Some("香蕉"), "Yellow fruit"),
        term("Apple", Some("苹果"), "Different key"),
    ];

    dedupe_terms(&mut terms);
    assert_eq!(terms.len(), 3);
    assert_eq!(terms[0].term, "Apple");
    assert_eq!(terms[0].og_term, None);
    assert_eq!(terms[1].term, "Banana");
    assert_eq!(terms[2].og_term.as_deref(), Some("苹果"));
}

#[test]
fn test_select_terms_full_when_no_og_term() {
    let terms = vec![term("Apple", None, "A fruit"), term("Banana", None, "A fruit")];
    let result = select_terms_for_text(&terms, "Any text", InjectionMode::Smart);
    assert_eq!(result.terms.len(), terms.len());
    assert!(result.used_fallback_to_full);
}

#[test]
fn test_select_terms_fallback_to_full_when_too_few_matches() {
    let terms = vec![
        term("Starship", Some("星空舰"), "Ship"),
        term("River", Some("山河图"), "River"),
        term("Lotus", Some("红莲花"), "Lotus"),
        term("Blade", Some("青锋剑"), "Blade"),
        term("Gate", Some("玉门关"), "Gate"),
        term("Shadow", Some("孤城影"), "Shadow"),
    ];
    let text = "星空舰 与 山河图";
    let result = select_terms_for_text(&terms, text, InjectionMode::Smart);
    assert_eq!(result.terms.len(), terms.len());
    assert!(result.used_fallback_to_full);
}

#[test]
fn test_select_terms_smart_subset_and_include_empty_og() {
    let terms = vec![
        term("Starship", Some("星空舰"), "Ship"),
        term("River", Some("山河图"), "River"),
        term("Lotus", Some("红莲花"), "Lotus"),
        term("Blade", Some("青锋剑"), "Blade"),
        term("Gate", Some("玉门关"), "Gate"),
        term("Shadow", Some("孤城影"), "Shadow"),
        term("Always", None, "Always include"),
    ];
    let text = "星空舰 山河图 红莲花 青锋剑 玉门关";
    let result = select_terms_for_text(&terms, text, InjectionMode::Smart);
    assert_eq!(result.terms.len(), 6);
    assert!(result.terms.iter().any(|t| t.term == "Always"));
    assert!(!result.terms.iter().any(|t| t.term == "Shadow"));
    assert!(!result.used_fallback_to_full);
}

#[test]
fn test_merge_terms_adds_new() {
    let existing = vec![term("Apple", Some("苹果"), "A fruit")];
    let incoming = vec![term("Banana", Some("香蕉"), "Yellow fruit")];

    let (merged, added, skipped, _) = merge_terms(existing, incoming);
    assert_eq!(added, 1);
    assert_eq!(skipped, 0);
    assert_eq!(merged.len(), 2);
}

#[test]
fn test_merge_terms_skips_duplicates() {
    let existing = vec![term("Apple", Some("苹果"), "A fruit")];
    let incoming = vec![term("Apple", Some("苹果"), "Same fruit")];

    let (merged, added, skipped, _) = merge_terms(existing, incoming);
    assert_eq!(added, 0);
    assert_eq!(skipped, 1);
    assert_eq!(merged.len(), 1);
}

#[test]
fn test_merge_terms_mixed() {
    let existing = vec![
        term("Apple", Some("苹果"), "A fruit"),
        term("Cherry", Some("樱桃"), "Red fruit"),
    ];
    let incoming = vec![
        term("Apple", Some("苹果"), "Dup"),
        term("Banana", Some("香蕉"), "New"),
        term("Date", Some("枣"), "Also new"),
    ];

    let (merged, added, skipped, _) = merge_terms(existing, incoming);
    assert_eq!(added, 2);
    assert_eq!(skipped, 1);
    assert_eq!(merged.len(), 4);
}

#[test]
fn test_merge_terms_empty_incoming() {
    let existing = vec![term("Apple", Some("苹果"), "A fruit")];
    let (merged, added, skipped, _) = merge_terms(existing, vec![]);
    assert_eq!(added, 0);
    assert_eq!(skipped, 0);
    assert_eq!(merged.len(), 1);
}

#[test]
fn test_merge_terms_returns_added_terms() {
    let existing = vec![term("Apple", Some("苹果"), "A fruit")];
    let incoming = vec![
        term("Apple", Some("苹果"), "Dup"),
        term("Banana", Some("香蕉"), "Yellow fruit"),
    ];

    let (_, added, skipped, added_terms) = merge_terms(existing, incoming);
    assert_eq!(added, 1);
    assert_eq!(skipped, 1);
    assert_eq!(added_terms.len(), 1);
    assert_eq!(added_terms[0].term, "Banana");
}

#[test]
fn test_merge_terms_skips_duplicate_entries_within_incoming_batch() {
    let existing = vec![term("Apple", Some("苹果"), "A fruit")];
    let incoming = vec![
        term("Banana", Some("香蕉"), "Yellow fruit"),
        term("Banana", Some("香蕉"), "Yellow fruit duplicate"),
        term("Cherry", Some("樱桃"), "Red fruit"),
    ];

    let (merged, added, skipped, added_terms) = merge_terms(existing, incoming);
    assert_eq!(added, 2);
    assert_eq!(skipped, 1);
    assert_eq!(merged.len(), 3);
    assert_eq!(added_terms.len(), 2);
    assert_eq!(added_terms[0].term, "Banana");
    assert_eq!(added_terms[1].term, "Cherry");
}

#[test]
fn test_injection_mode_from_str() {
    assert!(matches!("full".parse::<InjectionMode>().unwrap(), InjectionMode::Full));
    assert!(matches!("smart".parse::<InjectionMode>().unwrap(), InjectionMode::Smart));
    assert!(matches!("SMART".parse::<InjectionMode>().unwrap(), InjectionMode::Smart));
    assert!(matches!("Full".parse::<InjectionMode>().unwrap(), InjectionMode::Full));
    assert!(matches!("unknown".parse::<InjectionMode>().unwrap(), InjectionMode::Smart));
    assert!(matches!("".parse::<InjectionMode>().unwrap(), InjectionMode::Smart));
}

#[test]
fn test_injection_mode_parse_trait() {
    let mode: InjectionMode = "full".parse().unwrap();
    assert!(matches!(mode, InjectionMode::Full));
    let mode: InjectionMode = "smart".parse().unwrap();
    assert!(matches!(mode, InjectionMode::Smart));
}

#[test]
fn test_book_config_injection_mode_demotes_full_to_smart() {
    assert!(matches!(book_config_injection_mode("full"), InjectionMode::Smart));
    assert!(matches!(book_config_injection_mode("Full"), InjectionMode::Smart));
    assert!(matches!(book_config_injection_mode("smart"), InjectionMode::Smart));
    assert!(matches!(book_config_injection_mode("unknown"), InjectionMode::Smart));
}

#[test]
fn test_prompt_fingerprint_ignores_notes() {
    let mut first = term("Hero", Some("勇者"), "Main hero");
    first.notes = Some("first note".into());

    let mut second = term("Hero", Some("勇者"), "Main hero");
    second.notes = Some("second note".into());

    assert_eq!(
        glossary_term_prompt_fingerprint(&first),
        glossary_term_prompt_fingerprint(&second)
    );
}

#[test]
fn prompt_fingerprint_is_compact_json() {
    let t = term("Hero", Some("勇者"), "Main \"hero\"");
    assert_eq!(
        glossary_term_prompt_fingerprint(&t),
        "{\"term\":\"Hero\",\"og_term\":\"勇者\",\"definition\":\"Main \\\"hero\\\"\"}"
    );
    let plain = term("Hero", None, "Main");
    assert_eq!(
        glossary_term_prompt_fingerprint(&plain),
        "{\"term\":\"Hero\",\"definition\":\"Main\"}"
    );
}

#[test]
fn term_key_prefers_original_and_normalizes() {
    assert_eq!(glossary_term_key(&term("Apple", Some("  Big\tAPPLE "), "x")), "big apple");
    assert_eq!(glossary_term_key(&term("Red  Apple", None, "x")), "red apple");
}

#[test]
fn book_config_injection_warnings() {
    assert_eq!(book_config_injection_warning(" smart "), None);
    assert_eq!(book_config_injection_warning(""), None);
    assert!(book_config_injection_warning("FULL").unwrap().contains("deprecated"));
    assert_eq!(
        book_config_injection_warning("weird").unwrap(),
        "Unknown glossary_injection 'weird', using 'smart'."
    );
}

#[test]
fn merge_is_idempotent_on_its_result() {
    let existing = vec![term("Apple", Some("苹果"), "A fruit")];
    let incoming = vec![term("Banana", Some("香蕉"), "Yellow"), term("Cherry", None, "Red")];
    let (merged, _, _, _) = merge_terms(existing, incoming.clone());
    let (again, added, skipped, _) = merge_terms(merged.clone(), incoming);
    assert_eq!(added, 0);
    assert_eq!(skipped, 2);
    assert_eq!(again.len(), merged.len());
}

#[test]
fn test_basic_matching() {
    let terms = vec!["hello", "world", "help"];
    let matcher = ClosestMatch::new(&terms, &[2, 3, 4]);

    assert_eq!(matcher.closest("hello"), Some("hello"));
    assert_eq!(matcher.closest("helo"), Some("hello"));
    assert_eq!(matcher.closest("wrld"), Some("world"));
}

#[test]
fn test_chinese_matching() {
    let terms = vec!["星空舰", "山河图", "红莲花"];
    let matcher = ClosestMatch::new(&terms, &[2, 3, 4]);

    assert_eq!(matcher.closest("星空舰"), Some("星空舰"));
    assert_eq!(matcher.closest("星空"), Some("星空舰"));
    assert_eq!(matcher.closest("山河"), Some("山河图"));
}

#[test]
fn test_empty_matcher() {
    let matcher = ClosestMatch::new(&[], &[2, 3, 4]);
    assert_eq!(matcher.closest("test"), None);
}

#[test]
fn test_no_match_returns_none() {
    let terms = vec!["abc", "def"];
    let matcher = ClosestMatch::new(&terms, &[2, 3, 4]);

    assert_eq!(matcher.closest("xyz"), None);
}

#[test]
fn test_case_insensitive() {
    let terms = vec!["Hello", "World"];
    let matcher = ClosestMatch::new(&terms, &[2, 3, 4]);

    assert_eq!(matcher.closest("hello"), Some("Hello"));
    assert_eq!(matcher.closest("WORLD"), Some("World"));
}

#[test]
fn merging_twice_adds_nothing_and_keeps_keys_unique() {
    let existing = vec![term("Apple", None, "A fruit"), term("Pear", None, "Another")];
    let incoming = vec![
        term("apple", None, "dup"),
        term("Plum", Some("李子"), "New"),
        term("Plum", Some("李子"), "New again"),
    ];
    let (merged, added, skipped, new) = merge_terms(existing, incoming);
    assert_eq!(added, 1);
    assert_eq!(skipped, 2);
    assert_eq!(new.len(), 1);
    let again = vec![
        term("apple", None, "dup"),
        term("Plum", Some("李子"), "New"),
        term("Plum", Some("李子"), "New again"),
    ];
    let (merged_again, added_again, skipped_again, _) = merge_terms(merged.clone(), again);
    assert_eq!(added_again, 0);
    assert_eq!(skipped_again, 3);
    let keys: Vec<String> = merged_again.iter().map(glossary_term_key).collect();
    assert_eq!(keys, vec!["apple", "pear", "李子"]);
    let mut deduped = merged.clone();
    dedupe_terms(&mut deduped);
    assert_eq!(deduped.len(), merged.len());
}

#[test]
fn glossary_entry_line_truncates_long_definitions() {
    let long = "x".repeat(61);
    let t = term("Hero", Some("勇者"), &long);
    assert_eq!(glossary_entry_line(&t), format!("Hero [勇者]: {}...", "x".repeat(60)));
    let short = term("City", None, "A city");
    assert_eq!(glossary_entry_line(&short), "City: A city");
}

#[test]
fn prompt_fingerprint_escapes_quotes_backslashes_and_controls() {
    let t = term("Say \"hi\"\\", Some("勇者"), "line\nnext\ttab\u{1}\u{7f}");
    assert_eq!(
        glossary_term_prompt_fingerprint(&t),
        "{\"term\":\"Say \\\"hi\\\"\\\\\",\"og_term\":\"勇者\",\"definition\":\"line\\nnext\\ttab\\u0001\u{7f}\"}"
    );
}
