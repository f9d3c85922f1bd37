use linkman::excerpt::{
    cleanup_for_ingest, excerpt, excerpt_of, take_chars, Cleanup, Preset, EXCERPT_CHARS,
};

#[test]
fn excerpt_holds_the_text_of_the_page_without_its_markup() {
    let page = "<html><body><h1>Hello World</h1><p>Some <b>bold</b> text.</p></body></html>";
    let text = excerpt(page).expect("a plain page converts");
    assert!(text.contains("Hello World"));
    assert!(text.contains("text."));
    assert!(!text.contains("<h1>"));
    assert!(!text.contains("<p>"));
    assert_ne!(text, page);
}

#[test]
fn excerpt_of_a_long_page_has_3500_characters() {
    let body = "\u{e9}".repeat(5000);
    let page = format!("<html><body><p>{}</p></body></html>", body);
    let text = excerpt(&page).expect("a plain page converts");
    assert_eq!(text.chars().count(), 3500);
    assert_eq!(text.len(), 7000);
    assert!(text.chars().all(|c| c == '\u{e9}'));
}

#[test]
fn take_chars_counts_characters_not_bytes() {
    assert_eq!(take_chars("h\u{e9}llo w\u{f6}rld", 4), "h\u{e9}ll");
    assert_eq!(take_chars("\u{1f600}\u{1f601}\u{1f602}", 2), "\u{1f600}\u{1f601}");
    assert_eq!(take_chars("short", 3500), "short");
    assert_eq!(take_chars("abc", 3), "abc");
    assert_eq!(take_chars("abc", 0), "");
    assert_eq!(take_chars("", 5), "");
}

#[test]
fn excerpt_of_content_is_cut_at_the_limit() {
    assert_eq!(EXCERPT_CHARS, 3500);
    let long = "\u{4e2d}".repeat(3501);
    let cut = excerpt_of(Some(long));
    assert_eq!(cut.chars().count(), 3500);
    assert!(cut.chars().all(|c| c == '\u{4e2d}'));
    let exact = "x".repeat(3500);
    assert_eq!(excerpt_of(Some(exact.clone())), exact);
    assert_eq!(excerpt_of(None), "");
}

#[test]
fn ingestion_cleans_aggressively() {
    assert_eq!(
        cleanup_for_ingest(),
        Cleanup { enabled: true, preset: Preset::Aggressive, remove_navigation: true, remove_forms: true }
    );
}
