//! Excerpts: a fetched page reduced to markdown and cut to a fixed number of
//! characters.

use vstd::prelude::*;
use vstd::string::*;
use vstd::utf8::{encode_utf8, valid_utf8, encode_utf8_valid_utf8};
use crate::text::opt_text;

verus! {

/// The number of characters an excerpt may have.
pub const EXCERPT_CHARS: usize = 3500;

/// How much of a page the cleanup pass removes before conversion.
#[derive(Debug, Clone, Copy, PartialEq, Eq, Structural)]
pub enum Preset {
    Minimal,
    Standard,
    Aggressive,
}

/// The switches of the cleanup pass that runs before conversion.
#[derive(Debug, Clone, Copy, PartialEq, Eq, Structural)]
pub struct Cleanup {
    pub enabled: bool,
    pub preset: Preset,
    pub remove_navigation: bool,
    pub remove_forms: bool,
}

/// The page could not be converted to text.
#[derive(Debug, Clone, Copy, PartialEq, Eq, Structural)]
pub struct ExcerptFailed;

/// `html_to_markdown_rs::ConversionError`: why a page was not converted.
#[verifier::external_type_specification]
#[verifier::external_body]
pub struct ExConversionError(html_to_markdown_rs::ConversionError);

/// What the markdown converter makes of a page under the given cleanup
/// switches, all its other options at their defaults: `None` where it reports
/// an error, else the content of its result, which may itself be absent.
pub uninterp spec fn converted(html: Seq<char>, cleanup: Cleanup) -> Option<Option<Seq<char>>>;

/// `html_to_markdown_rs::convert` under default options with the four cleanup
/// switches set as given. The contract names the outcome and claims only that
/// it is a function of the page and the switches: the converter's error on
/// one side, the `content` field of its result on the other.
#[verifier::external_body]
fn convert_page(html: &str, cleanup: Cleanup) -> (r: Result<
    Option<String>,
    html_to_markdown_rs::ConversionError,
>)
    ensures
        match r {
            Ok(content) => converted(html@, cleanup) == Some(opt_text(content)),
            Err(_) => converted(html@, cleanup) is None,
        },
{
    let mut options = html_to_markdown_rs::ConversionOptions::default();
    options.preprocessing.enabled = cleanup.enabled;
    options.preprocessing.preset = match cleanup.preset {
        Preset::Minimal => html_to_markdown_rs::PreprocessingPreset::Minimal,
        Preset::Standard => html_to_markdown_rs::PreprocessingPreset::Standard,
        Preset::Aggressive => html_to_markdown_rs::PreprocessingPreset::Aggressive,
    };
    options.preprocessing.remove_navigation = cleanup.remove_navigation;
    options.preprocessing.remove_forms = cleanup.remove_forms;
    html_to_markdown_rs::convert(html, options).map(|done| done.content)
}

/// The cleanup that ingestion asks for: the aggressive preset, with
/// navigation and forms removed.
pub open spec fn ingest_cleanup() -> Cleanup {
    Cleanup { enabled: true, preset: Preset::Aggressive, remove_navigation: true, remove_forms: true }
}

/// The cleanup switches used when a bookmark's page is ingested.
pub fn cleanup_for_ingest() -> (c: Cleanup)
    ensures
        c == ingest_cleanup(),
{
    Cleanup { enabled: true, preset: Preset::Aggressive, remove_navigation: true, remove_forms: true }
}

/// The first `limit` characters of a text, or all of it if it has fewer.
pub open spec fn first_chars(text: Seq<char>, limit: nat) -> Seq<char> {
    if text.len() <= limit {
        text
    } else {
        text.take(limit as int)
    }
}

/// The excerpt of converted content: its first 3,500 characters. Absent
/// content gives the empty excerpt.
pub open spec fn excerpt_text(content: Option<Seq<char>>) -> Seq<char> {
    match content {
        Some(text) => first_chars(text, 3500),
        None => Seq::empty(),
    }
}

/// The excerpt of a page: that of its converted content, if conversion succeeds.
pub open spec fn page_excerpt(html: Seq<char>) -> Option<Seq<char>> {
    match converted(html, ingest_cleanup()) {
        Some(content) => Some(excerpt_text(content)),
        None => None,
    }
}

/// The bytes of two texts put together are the bytes of the first followed
/// by the bytes of the second.
pub proof fn lemma_bytes_of_concat(a: Seq<char>, b: Seq<char>)
    ensures
        encode_utf8(a + b) == encode_utf8(a) + encode_utf8(b),
    decreases a.len(),
{
    if a.len() == 0 {
        assert(a + b =~= b);
        assert(encode_utf8(a) + encode_utf8(b) =~= encode_utf8(b));
    } else {
        assert((a + b).drop_first() =~= a.drop_first() + b);
        assert((a + b)[0] == a[0]);
        lemma_bytes_of_concat(a.drop_first(), b);
        assert(encode_utf8(a + b) =~= encode_utf8(a) + encode_utf8(b));
    }
}

/// A cut text is well-formed UTF-8, and its bytes are the first bytes of
/// the whole text: the cut falls between characters, never inside the bytes
/// of one.
pub proof fn law_cut_keeps_utf8(text: Seq<char>, limit: nat)
    ensures
        valid_utf8(encode_utf8(first_chars(text, limit))),
        encode_utf8(first_chars(text, limit)).len() <= encode_utf8(text).len(),
        encode_utf8(first_chars(text, limit)) == encode_utf8(text).take(
            encode_utf8(first_chars(text, limit)).len() as int,
        ),
{
    let head = first_chars(text, limit);
    let tail = text.skip(head.len() as int);
    encode_utf8_valid_utf8(head);
    assert(head + tail =~= text);
    lemma_bytes_of_concat(head, tail);
    assert((encode_utf8(head) + encode_utf8(tail)).take(encode_utf8(head).len() as int)
        =~= encode_utf8(head));
}

/// Cuts a text to its first `limit` characters. The cut falls between
/// characters, never inside the bytes of one.
pub fn take_chars(text: &str, limit: usize) -> (r: String)
    ensures
        r@ == first_chars(text@, limit as nat),
        r@.len() <= limit,
        valid_utf8(encode_utf8(r@)),
{
    proof {
        law_cut_keeps_utf8(text@, limit as nat);
    }
    let n = text.unicode_len();
    if n <= limit {
        text.to_owned()
    } else {
        text.substring_char(0, limit).to_owned()
    }
}

/// The excerpt of what the converter returned.
pub fn excerpt_of(content: Option<String>) -> (r: String)
    ensures
        r@ == excerpt_text(opt_text(content)),
        r@.len() <= EXCERPT_CHARS,
{
    match content {
        Some(text) => take_chars(text.as_str(), EXCERPT_CHARS),
        None => String::new(),
    }
}

/// Reduces a page to its excerpt: cleanup and conversion to markdown, then
/// the cut to 3,500 characters. Fails exactly when the converter does.
pub fn excerpt(html: &str) -> (r: Result<String, ExcerptFailed>)
    ensures
        match page_excerpt(html@) {
            Some(text) => r is Ok && r.unwrap()@ == text,
            None => r is Err,
        },
        r is Ok ==> r.unwrap()@.len() <= EXCERPT_CHARS,
{
    match convert_page(html, cleanup_for_ingest()) {
        Ok(content) => Ok(excerpt_of(content)),
        Err(_) => Err(ExcerptFailed),
    }
}

} // verus!
