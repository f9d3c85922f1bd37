use linkman::tagger::{
    default_model, first_choice, keep_first_tags, parse_tags, system_prompt, tag_request,
    tags_of_document, user_prompt, TagParseFailed,
};
use serde_json::{Number, Value};

fn strings(items: &[&str]) -> Vec<String> {
    items.iter().map(|s| s.to_string()).collect()
}

#[test]
fn reply_with_six_tags_is_taken_whole() {
    let reply = r#"{"tags": ["rust", "verification", "proof", "smt", "logic", "types"]}"#;
    assert_eq!(
        parse_tags(reply),
        Ok(strings(&["rust", "verification", "proof", "smt", "logic", "types"]))
    );
}

#[test]
fn reply_with_ten_tags_keeps_the_first_six() {
    let reply = r#"{"tags": ["a", "b", "c", "d", "e", "f", "g", "h", "i", "j"]}"#;
    assert_eq!(parse_tags(reply), Ok(strings(&["a", "b", "c", "d", "e", "f"])));
}

#[test]
fn reply_with_no_tags_is_an_empty_list() {
    assert_eq!(parse_tags(r#"{"tags": []}"#), Ok(Vec::new()));
}

#[test]
fn tags_are_taken_as_they_are() {
    assert_eq!(
        parse_tags(r#"{"tags": ["Mixed Case", "with-hyphen", ""]}"#),
        Ok(strings(&["Mixed Case", "with-hyphen", ""]))
    );
}

#[test]
fn other_members_of_the_reply_are_passed_over() {
    assert_eq!(
        parse_tags(r#"{"note": 1, "tags": ["x"], "more": {"tags": ["y"]}}"#),
        Ok(strings(&["x"]))
    );
}

#[test]
fn prose_reply_is_a_parse_failure() {
    assert_eq!(parse_tags("Here are your tags: rust, web"), Err(TagParseFailed));
    assert_eq!(parse_tags(""), Err(TagParseFailed));
    assert_eq!(
        parse_tags("```json\n{\"tags\": [\"a\"]}\n```"),
        Err(TagParseFailed)
    );
}

#[test]
fn reply_of_another_shape_is_a_parse_failure() {
    assert_eq!(parse_tags(r#"{"labels": ["a"]}"#), Err(TagParseFailed));
    assert_eq!(parse_tags(r#"{"tags": "a"}"#), Err(TagParseFailed));
    assert_eq!(parse_tags(r#"{"tags": null}"#), Err(TagParseFailed));
    assert_eq!(parse_tags(r#"{"tags": ["a", 2]}"#), Err(TagParseFailed));
    assert_eq!(parse_tags(r#"["a", "b"]"#), Err(TagParseFailed));
    assert_eq!(parse_tags(r#""tags""#), Err(TagParseFailed));
}

#[test]
fn keep_first_tags_leaves_short_lists_alone() {
    assert_eq!(keep_first_tags(strings(&["x", "y"])), strings(&["x", "y"]));
    assert_eq!(keep_first_tags(Vec::new()), Vec::<String>::new());
    assert_eq!(
        keep_first_tags(strings(&["1", "2", "3", "4", "5", "6"])),
        strings(&["1", "2", "3", "4", "5", "6"])
    );
    assert_eq!(
        keep_first_tags(strings(&["1", "2", "3", "4", "5", "6", "7"])),
        strings(&["1", "2", "3", "4", "5", "6"])
    );
}

#[test]
fn user_prompt_frames_address_and_excerpt() {
    assert_eq!(
        user_prompt("https://example.com", "# Title\n\nBody"),
        "URL: https://example.com\n\nCONTENT:\n# Title\n\nBody\n\nJSON Output:"
    );
    assert_eq!(user_prompt("", ""), "URL: \n\nCONTENT:\n\n\nJSON Output:");
}

#[test]
fn system_prompt_states_the_terms() {
    let prompt = system_prompt();
    assert!(prompt.starts_with("Task: Content Tagging."));
    assert!(prompt.contains("- Exactly 6 tags."));
    assert!(prompt.contains("Raw JSON ONLY"));
    assert!(prompt.contains("all lowercase"));
    assert!(prompt.ends_with(r#"- Schema: {"tags": ["word1", "word2", ...]}"#));
    assert_eq!(prompt.lines().count(), 6);
}

#[test]
fn tag_request_asks_for_a_json_object() {
    let request = tag_request(default_model(), "https://example.com", "text");
    assert_eq!(request.model, "google/gemma-3-27b-it-qat-q4_0-gguf");
    assert_eq!(request.system, system_prompt());
    assert_eq!(request.user, user_prompt("https://example.com", "text"));
    assert!(request.json_object);
}

#[test]
fn first_choice_is_the_reply() {
    assert_eq!(first_choice(&vec![Some("one".to_string()), Some("two".to_string())]), "one");
    assert_eq!(first_choice(&vec![None, Some("two".to_string())]), "");
    assert_eq!(first_choice(&Vec::new()), "");
}

#[test]
fn tags_are_read_out_of_a_document() {
    let mut members = serde_json::Map::new();
    members.insert("count".to_string(), Value::Number(Number::from(2)));
    members.insert(
        "tags".to_string(),
        Value::Array(vec![Value::String("a".to_string()), Value::String("b".to_string())]),
    );
    assert_eq!(tags_of_document(&Value::Object(members)), Some(strings(&["a", "b"])));
    let seven: Vec<Value> = (0..7).map(|i| Value::String(format!("t{}", i))).collect();
    let mut members = serde_json::Map::new();
    members.insert("tags".to_string(), Value::Array(seven));
    assert_eq!(tags_of_document(&Value::Object(members)).map(|tags| tags.len()), Some(7));
}

#[test]
fn a_document_of_another_shape_carries_no_tags() {
    assert_eq!(tags_of_document(&Value::Null), None);
    assert_eq!(tags_of_document(&Value::Bool(true)), None);
    assert_eq!(tags_of_document(&Value::String("tags".to_string())), None);
    assert_eq!(tags_of_document(&Value::Array(vec![Value::String("a".to_string())])), None);
    assert_eq!(tags_of_document(&Value::Object(serde_json::Map::new())), None);
    let mut members = serde_json::Map::new();
    members.insert("tags".to_string(), Value::Array(vec![Value::String("a".to_string()), Value::Null]));
    assert_eq!(tags_of_document(&Value::Object(members)), None);
    let mut members = serde_json::Map::new();
    members.insert("Tags".to_string(), Value::Array(Vec::new()));
    assert_eq!(tags_of_document(&Value::Object(members)), None);
}
