use linkman::text::{
    char_is_space, chars_of, contains_ignore_case, split_on, split_once_trimmed, split_trimmed,
    string_of, strip, trim,
};

#[test]
fn trim_removes_white_space_at_both_ends_only() {
    assert_eq!(trim("  a b \t\n"), "a b");
    assert_eq!(trim("\u{3000}x\u{a0}"), "x");
    assert_eq!(trim("   "), "");
    assert_eq!(trim(""), "");
    assert_eq!(trim("plain"), "plain");
}

#[test]
fn trim_agrees_with_the_standard_library() {
    for sample in [" x ", "\u{2003}y\u{2028}", "\u{200b}z", "a\u{85}", "\u{1680}b\u{205f}"] {
        assert_eq!(trim(sample), sample.trim());
    }
}

#[test]
fn white_space_is_told_from_other_characters() {
    for c in ['\t', '\n', '\u{b}', '\u{c}', '\r', ' ', '\u{85}', '\u{a0}', '\u{2000}', '\u{200a}'] {
        assert!(char_is_space(c));
    }
    for c in ['a', '0', '\u{200b}', '\u{8}', '\u{e}', '_'] {
        assert!(!char_is_space(c));
    }
}

#[test]
fn split_cuts_at_every_separator() {
    assert_eq!(split_on("a,b,,c", ','), vec!["a", "b", "", "c"]);
    assert_eq!(split_on("", ','), vec![""]);
    assert_eq!(split_on(",", ','), vec!["", ""]);
    assert_eq!(split_on("no separator", ','), vec!["no separator"]);
}

#[test]
fn split_trimmed_trims_each_piece() {
    assert_eq!(split_trimmed(" a , b,, c ", ','), vec!["a", "b", "", "c"]);
}

#[test]
fn split_once_cuts_at_the_first_separator() {
    assert_eq!(
        split_once_trimmed(" Name : a:b ", ':'),
        Some(("Name".to_string(), "a:b".to_string()))
    );
    assert_eq!(split_once_trimmed("no colon", ':'), None);
    assert_eq!(split_once_trimmed(":", ':'), Some((String::new(), String::new())));
}

#[test]
fn strip_takes_a_prefix_away() {
    assert_eq!(strip("Bearer abc", "Bearer "), Some("abc".to_string()));
    assert_eq!(strip("Bearer ", "Bearer "), Some(String::new()));
    assert_eq!(strip("bearer abc", "Bearer "), None);
    assert_eq!(strip("Bear", "Bearer "), None);
    assert_eq!(strip("anything", ""), Some("anything".to_string()));
}

#[test]
fn search_takes_ascii_letters_of_either_case_as_the_same() {
    assert!(contains_ignore_case("https://Example.COM/Path", "example.com"));
    assert!(contains_ignore_case("rust", "RUST"));
    assert!(contains_ignore_case("anything", ""));
    assert!(contains_ignore_case("", ""));
    assert!(!contains_ignore_case("", "a"));
    assert!(!contains_ignore_case("abc", "abcd"));
    assert!(!contains_ignore_case("abc", "ac"));
    assert!(contains_ignore_case("xxab", "AB"));
}

#[test]
fn search_matches_other_characters_exactly() {
    assert!(contains_ignore_case("caf\u{e9}", "\u{e9}"));
    assert!(!contains_ignore_case("caf\u{e9}", "\u{c9}"));
    assert!(!contains_ignore_case("a[b", "a{b"));
    assert!(!contains_ignore_case("@", "`"));
}

#[test]
fn characters_go_to_a_vector_and_back() {
    let chars = chars_of("h\u{e9}llo");
    assert_eq!(chars, vec!['h', '\u{e9}', 'l', 'l', 'o']);
    assert_eq!(string_of(&chars, 1, 4), "\u{e9}ll");
    assert_eq!(string_of(&chars, 2, 2), "");
}
