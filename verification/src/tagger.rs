//! Tag inference: the request put to the chat model and the reading of its reply.

use vstd::prelude::*;
use vstd::string::*;
use crate::json::{items, json_of, json_parse, jsons_of, member, parse_document, text_of, Json};
use crate::text::texts;

verus! {

/// The most tags a reply may contribute to a bookmark.
pub const MAX_TAGS: usize = 6;

/// What is asked of the chat model for one bookmark.
#[derive(Debug, Clone, PartialEq, Eq)]
pub struct TagRequest {
    /// The identifier of the model that is to answer.
    pub model: String,
    /// The system message: the terms the answer has to meet.
    pub system: String,
    /// The user message: the bookmark's address and excerpt.
    pub user: String,
    /// Whether the answer is asked for as a JSON object.
    pub json_object: bool,
}

/// The text of the system message. Its lines after the first begin with
/// twenty spaces.
pub open spec fn system_text() -> Seq<char> {
    "Task: Content Tagging.\n                    Constraints:\n                    - Exactly 6 tags.\n                    - Format: Raw JSON ONLY. No markdown code blocks. No intro/outro text.\n                    - Tags: Single words only. No hyphens, no spaces, all lowercase.\n                    - Schema: {\"tags\": [\"word1\", \"word2\", ...]}"@
}

/// The text of the user message for an address and an excerpt.
pub open spec fn user_text(url: Seq<char>, excerpt: Seq<char>) -> Seq<char> {
    "URL: "@ + url + "\n\nCONTENT:\n"@ + excerpt + "\n\nJSON Output:"@
}

/// The text of the first choice of a completion; empty where there is no
/// choice or the first has no content.
pub open spec fn first_choice_text(choices: Seq<Option<String>>) -> Seq<char> {
    if choices.len() == 0 {
        Seq::empty()
    } else {
        match choices[0] {
            Some(content) => content@,
            None => Seq::empty(),
        }
    }
}

/// The model that tags bookmarks unless another is configured.
pub fn default_model() -> (model: &'static str)
    ensures
        model@ == "google/gemma-3-27b-it-qat-q4_0-gguf"@,
{
    "google/gemma-3-27b-it-qat-q4_0-gguf"
}

/// The system message: six single-word lowercase tags, as raw JSON of the
/// shape `{"tags": [...]}` and nothing around it.
pub fn system_prompt() -> (prompt: &'static str)
    ensures
        prompt@ == system_text(),
{
    "Task: Content Tagging.\n                    Constraints:\n                    - Exactly 6 tags.\n                    - Format: Raw JSON ONLY. No markdown code blocks. No intro/outro text.\n                    - Tags: Single words only. No hyphens, no spaces, all lowercase.\n                    - Schema: {\"tags\": [\"word1\", \"word2\", ...]}"
}

/// The user message for a bookmark's address and the excerpt of its page.
pub fn user_prompt(url: &str, excerpt: &str) -> (prompt: String)
    ensures
        prompt@ == user_text(url@, excerpt@),
{
    let mut prompt = String::new();
    prompt.append("URL: ");
    prompt.append(url);
    prompt.append("\n\nCONTENT:\n");
    prompt.append(excerpt);
    prompt.append("\n\nJSON Output:");
    assert(prompt@ =~= user_text(url@, excerpt@));
    prompt
}

/// The request that asks `model` to tag the page at `url`.
pub fn tag_request(model: &str, url: &str, excerpt: &str) -> (request: TagRequest)
    ensures
        request.model@ == model@,
        request.system@ == system_text(),
        request.user@ == user_text(url@, excerpt@),
        request.json_object,
{
    TagRequest {
        model: model.to_owned(),
        system: system_prompt().to_owned(),
        user: user_prompt(url, excerpt),
        json_object: true,
    }
}

/// The text of a completion: the content of its first choice, or the empty
/// text where it has none.
pub fn first_choice(choices: &Vec<Option<String>>) -> (content: String)
    ensures
        content@ == first_choice_text(choices@),
{
    if choices.len() == 0 {
        String::new()
    } else {
        match &choices[0] {
            Some(content) => content.clone(),
            None => String::new(),
        }
    }
}

/// The reply of the chat model did not have the shape `{"tags": [string, ...]}`.
#[derive(Debug, Clone, Copy, PartialEq, Eq)]
pub struct TagParseFailed;

/// Whether every element of a JSON array is a string.
pub open spec fn all_text(items: Seq<Json>) -> bool {
    forall|i: int| 0 <= i < items.len() ==> (#[trigger] items[i]) is Text
}

/// The strings of a JSON array whose elements are all strings.
pub open spec fn item_texts(items: Seq<Json>) -> Seq<Seq<char>> {
    Seq::new(items.len(), |i: int| items[i]->Text_0)
}

/// The tag list that a document carries: the document is an object whose
/// member `tags` is an array of strings. `None` for every other document.
/// Other members of the object are passed over.
pub open spec fn document_tags(doc: Json) -> Option<Seq<Seq<char>>> {
    match doc {
        Json::Object(members) => if members.contains_key("tags"@) {
            match members["tags"@] {
                Json::Array(items) => if all_text(items) {
                    Some(item_texts(items))
                } else {
                    None
                },
                _ => None,
            }
        } else {
            None
        },
        _ => None,
    }
}

/// The tag list that a reply carries: the reply is a JSON document that
/// carries one. `None` for every other reply.
pub open spec fn reply_tags(reply: Seq<char>) -> Option<Seq<Seq<char>>> {
    match json_parse(reply) {
        Some(doc) => document_tags(doc),
        None => None,
    }
}

/// The tags that are kept of a list: its first six, in order.
pub open spec fn kept_tags(tags: Seq<Seq<char>>) -> Seq<Seq<char>> {
    if tags.len() <= 6 {
        tags
    } else {
        tags.take(6)
    }
}

/// Keeps the first six tags of a list and drops the rest.
pub fn keep_first_tags(tags: Vec<String>) -> (kept: Vec<String>)
    ensures
        texts(kept@) == kept_tags(texts(tags@)),
        kept@.len() <= MAX_TAGS,
{
    let mut kept = tags;
    kept.truncate(MAX_TAGS);
    assert(texts(kept@) =~= kept_tags(texts(tags@)));
    kept
}

/// Collects the strings of a JSON array, or nothing if some element is no string.
fn collect_texts(list: &Vec<serde_json::Value>) -> (r: Option<Vec<String>>)
    ensures
        match r {
            Some(found) => all_text(jsons_of(list@)) && texts(found@) == item_texts(
                jsons_of(list@),
            ),
            None => !all_text(jsons_of(list@)),
        },
{
    let mut found: Vec<String> = Vec::new();
    let ghost all = jsons_of(list@);
    let mut i: usize = 0;
    while i < list.len()
        invariant
            i <= list.len(),
            found@.len() == i,
            all == jsons_of(list@),
            forall|j: int| 0 <= j < i ==> (#[trigger] all[j]) is Text,
            forall|j: int| 0 <= j < i ==> (#[trigger] found@[j])@ == all[j]->Text_0,
        decreases list.len() - i,
    {
        assert(all[i as int] == json_of(list@[i as int]));
        match text_of(&list[i]) {
            Some(text) => {
                found.push(text.to_owned());
            },
            None => {
                return None;
            },
        }
        i += 1;
    }
    assert(texts(found@) =~= item_texts(all));
    Some(found)
}

/// Reads the tag list out of a JSON document: the strings of the array
/// under `tags`, all of them and in order.
pub fn tags_of_document(doc: &serde_json::Value) -> (r: Option<Vec<String>>)
    ensures
        match document_tags(json_of(*doc)) {
            Some(tags) => r is Some && texts(r.unwrap()@) == tags,
            None => r is None,
        },
{
    match member(doc, "tags") {
        Some(found) => match items(found) {
            Some(list) => collect_texts(list),
            None => None,
        },
        None => None,
    }
}

/// Reads the tags out of the chat model's reply.
///
/// The reply must be a JSON object with a member `tags` that is an array of
/// strings; anything else is a parse failure. Of a longer list the first six
/// tags are kept. The tags themselves are taken as they are.
pub fn parse_tags(reply: &str) -> (r: Result<Vec<String>, TagParseFailed>)
    ensures
        match reply_tags(reply@) {
            Some(tags) => r is Ok && texts(r.unwrap()@) == kept_tags(tags),
            None => r is Err,
        },
        r is Ok ==> r.unwrap()@.len() <= MAX_TAGS,
{
    let doc = match parse_document(reply) {
        Ok(doc) => doc,
        Err(_) => {
            return Err(TagParseFailed);
        },
    };
    match tags_of_document(&doc) {
        Some(found) => Ok(keep_first_tags(found)),
        None => Err(TagParseFailed),
    }
}

} // verus!
