use cipher::import::{
    chapter_file_name, chapter_markdown, import_chapter_files, is_empty_chapter,
    markdown_to_keep, strip_html_tags,
};

#[test]
fn strip_html_tags_drops_markup() {
    assert_eq!(strip_html_tags("<p>Hello <b>world</b></p>"), "Hello world");
    assert_eq!(strip_html_tags("a < b > c"), "a  c");
}

#[test]
fn empty_chapter_detection_counts_visible_bytes() {
    assert!(is_empty_chapter("<html><body><br/><p>  short  </p></body></html>"));
    let long = format!("<p>{}</p>", "x".repeat(50));
    assert!(!is_empty_chapter(&long));
    let spaced = format!("<p>{}</p>", "x ".repeat(49));
    assert!(is_empty_chapter(&spaced));
    // 17 three-byte characters are 51 bytes of visible text.
    let cjk = format!("<p>{}</p>", "勇".repeat(17));
    assert!(!is_empty_chapter(&cjk));
}

#[test]
fn chapter_files_are_zero_padded() {
    assert_eq!(chapter_file_name(1), "001.md");
    assert_eq!(chapter_file_name(42), "042.md");
    assert_eq!(chapter_file_name(123), "123.md");
    assert_eq!(chapter_file_name(1234), "1234.md");
}

#[test]
fn markdown_to_keep_trims_and_drops_blank() {
    assert_eq!(markdown_to_keep("\n  # Title\n\nBody  \n").as_deref(), Some("# Title\n\nBody"));
    assert_eq!(markdown_to_keep(" \n "), None);
}

#[test]
fn chapter_markdown_converts_html() {
    let body = "a".repeat(60);
    let html = format!("<h1>Chapter One</h1><p>{body}</p>");
    let md = chapter_markdown(&html).unwrap().unwrap();
    assert!(md.starts_with("# Chapter One"), "got: {md}");
    assert!(md.contains(&body));
    assert!(!md.contains("<p>"));
    assert_eq!(chapter_markdown("<p>tiny</p>").unwrap(), None);
}

#[test]
fn import_numbers_only_kept_chapters() {
    let body = "b".repeat(60);
    let htmls = vec![
        "<p>cover</p>".to_string(),
        format!("<h1>One</h1><p>{body}</p>"),
        format!("<h1>Two</h1><p>{body}</p>"),
    ];
    let files = import_chapter_files(&htmls).unwrap();
    assert_eq!(files.len(), 2);
    assert_eq!(files[0].0, "001.md");
    assert_eq!(files[1].0, "002.md");
    assert!(files[0].1.starts_with("# One"));
    assert!(files[1].1.starts_with("# Two"));
}
