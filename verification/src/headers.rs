//! Header names and values: which texts make one, how a received value
//! reads as text, and the extra headers of the chat endpoint, read from one
//! line of configuration as `Name: Value` pairs separated by commas.

use vstd::prelude::*;
use vstd::string::*;
use vstd::utf8::encode_utf8;
use crate::text::{split, split_on, split_once, split_once_trimmed, texts, trimmed};

verus! {

/// `axum::http::HeaderName`: a header name that has been accepted.
#[verifier::external_type_specification]
#[verifier::external_body]
pub struct ExHeaderName(axum::http::HeaderName);

/// `axum::http::HeaderValue`: a header value that has been accepted.
#[verifier::external_type_specification]
#[verifier::external_body]
pub struct ExHeaderValue(axum::http::HeaderValue);

/// `axum::http::header::InvalidHeaderName`: the error for a text that is no
/// header name.
#[verifier::external_type_specification]
#[verifier::external_body]
pub struct ExInvalidHeaderName(axum::http::header::InvalidHeaderName);

/// `axum::http::header::InvalidHeaderValue`: the error for a text that is no
/// header value.
#[verifier::external_type_specification]
#[verifier::external_body]
pub struct ExInvalidHeaderValue(axum::http::header::InvalidHeaderValue);

/// `axum::http::header::ToStrError`: the error for a header value that is
/// no visible text.
#[verifier::external_type_specification]
#[verifier::external_body]
pub struct ExToStrError(axum::http::header::ToStrError);

/// Whether a byte is a visible ASCII character, a space or a tab.
pub open spec fn visible_byte(b: u8) -> bool {
    (32 <= b && b < 127) || b == 9
}

/// Whether some bytes are all visible ASCII characters, spaces or tabs.
pub open spec fn is_visible(bytes: Seq<u8>) -> bool {
    forall|i: int| 0 <= i < bytes.len() ==> visible_byte(#[trigger] bytes[i])
}

/// `axum::http::HeaderValue::to_str`: the value as text. It succeeds
/// exactly on the values whose bytes are all visible ASCII characters,
/// spaces or tabs, and the text it returns has the bytes of the value.
#[verifier::external_body]
pub(crate) fn value_text<'a>(value: &'a axum::http::HeaderValue) -> (r: Result<
    &'a str,
    axum::http::header::ToStrError,
>)
    ensures
        r is Ok <==> is_visible(value_bytes(*value)),
        r matches Ok(text) ==> text.spec_bytes() == value_bytes(*value),
{
    value.to_str()
}

/// Whether a character may stand in a header name: a letter, a digit, or
/// one of ``! # $ % & ' * + - . ^ _ ` | ~``.
pub open spec fn name_char(c: char) -> bool {
    ||| 'a' <= c && c <= 'z'
    ||| 'A' <= c && c <= 'Z'
    ||| '0' <= c && c <= '9'
    ||| c == '!'
    ||| c == '#'
    ||| c == '$'
    ||| c == '%'
    ||| c == '&'
    ||| c == '\''
    ||| c == '*'
    ||| c == '+'
    ||| c == '-'
    ||| c == '.'
    ||| c == '^'
    ||| c == '_'
    ||| c == '`'
    ||| c == '|'
    ||| c == '~'
}

/// Whether a text is a valid header name: one to 65,535 characters, each
/// of which may stand in a header name.
pub open spec fn is_header_name(text: Seq<char>) -> bool {
    &&& 1 <= text.len() <= 65535
    &&& forall|i: int| 0 <= i < text.len() ==> name_char(#[trigger] text[i])
}

/// The text of a header name.
pub uninterp spec fn name_text(name: axum::http::HeaderName) -> Seq<char>;

/// The bytes of a header value.
pub uninterp spec fn value_bytes(value: axum::http::HeaderValue) -> Seq<u8>;

/// Whether a byte may stand in a header value: a tab, or anything from the
/// space upwards but the delete character.
pub open spec fn value_byte(b: u8) -> bool {
    (b >= 32 && b != 127) || b == 9
}

/// Whether some bytes make a valid header value: each of them may stand in one.
pub open spec fn is_header_value(bytes: Seq<u8>) -> bool {
    forall|i: int| 0 <= i < bytes.len() ==> value_byte(#[trigger] bytes[i])
}

/// A character with the letters `A` to `Z` turned into `a` to `z`.
pub open spec fn lower(c: char) -> char {
    if 'A' <= c && c <= 'Z' {
        ((c as u8 + 32) as u8) as char
    } else {
        c
    }
}

/// A text with its letters `A` to `Z` turned into `a` to `z`.
pub open spec fn lowered(text: Seq<char>) -> Seq<char> {
    Seq::new(text.len(), |i: int| lower(text[i]))
}

/// `axum::http::HeaderName::from_bytes` on the bytes of a text. It succeeds
/// exactly on the texts of one to 65,535 characters that are all letters,
/// digits or one of the fifteen signs of `name_char`, and the name it
/// returns reads as the text in lower case.
#[verifier::external_body]
fn parse_name(text: &str) -> (r: Result<
    axum::http::HeaderName,
    axum::http::header::InvalidHeaderName,
>)
    ensures
        r is Ok <==> is_header_name(text@),
        r matches Ok(name) ==> name_text(name) == lowered(text@),
{
    axum::http::HeaderName::from_bytes(text.as_bytes())
}

/// `axum::http::HeaderValue::from_str`. It succeeds exactly on the texts
/// whose bytes are all tabs or at least 32 and not 127, and the value it
/// returns holds the bytes of the text.
#[verifier::external_body]
fn parse_value(text: &str) -> (r: Result<
    axum::http::HeaderValue,
    axum::http::header::InvalidHeaderValue,
>)
    ensures
        r is Ok <==> is_header_value(text.spec_bytes()),
        r matches Ok(value) ==> value_bytes(value) == text.spec_bytes(),
{
    axum::http::HeaderValue::from_str(text)
}

/// The name and value of each piece that has a colon: what stands before
/// the first colon and what stands after it, both trimmed. Pieces without
/// a colon are passed over.
pub open spec fn pairs_of(pieces: Seq<Seq<char>>) -> Seq<(Seq<char>, Seq<char>)>
    decreases pieces.len(),
{
    if pieces.len() == 0 {
        Seq::empty()
    } else {
        let rest = pairs_of(pieces.drop_last());
        match split_once(pieces.last(), ':') {
            Some((name, value)) => rest.push((trimmed(name), trimmed(value))),
            None => rest,
        }
    }
}

/// The pairs that a line of configuration holds.
pub open spec fn line_pairs(line: Seq<char>) -> Seq<(Seq<char>, Seq<char>)> {
    pairs_of(split(line, ','))
}

/// The headers of the pairs whose name and value are both valid, in order:
/// the name in lower case and the bytes of the value.
pub open spec fn accepted(pairs: Seq<(Seq<char>, Seq<char>)>) -> Seq<(Seq<char>, Seq<u8>)>
    decreases pairs.len(),
{
    if pairs.len() == 0 {
        Seq::empty()
    } else {
        let rest = accepted(pairs.drop_last());
        let (name, value) = pairs.last();
        if is_header_name(name) && is_header_value(encode_utf8(value)) {
            rest.push((lowered(name), encode_utf8(value)))
        } else {
            rest
        }
    }
}

/// The names and values of a list of headers.
pub open spec fn header_texts(headers: Seq<(axum::http::HeaderName, axum::http::HeaderValue)>) -> Seq<
    (Seq<char>, Seq<u8>),
> {
    Seq::new(headers.len(), |i: int| (name_text(headers[i].0), value_bytes(headers[i].1)))
}

/// The texts of a list of pairs.
pub open spec fn pair_texts(pairs: Seq<(String, String)>) -> Seq<(Seq<char>, Seq<char>)> {
    Seq::new(pairs.len(), |i: int| (pairs[i].0@, pairs[i].1@))
}

/// Reads the `Name: Value` pairs of a line: the line is cut at commas, each
/// piece at its first colon, and both sides are trimmed.
pub fn header_pairs(line: &str) -> (pairs: Vec<(String, String)>)
    ensures
        pair_texts(pairs@) == line_pairs(line@),
{
    let pieces = split_on(line, ',');
    let mut pairs: Vec<(String, String)> = Vec::new();
    let ghost all = texts(pieces@);
    let mut i: usize = 0;
    assert(all.take(0) =~= Seq::<Seq<char>>::empty());
    assert(pair_texts(pairs@) =~= Seq::<(Seq<char>, Seq<char>)>::empty());
    while i < pieces.len()
        invariant
            i <= pieces.len(),
            all == texts(pieces@),
            pair_texts(pairs@) == pairs_of(all.take(i as int)),
        decreases pieces.len() - i,
    {
        let ghost before = pair_texts(pairs@);
        proof {
            let upto = all.take(i + 1);
            assert(upto.drop_last() =~= all.take(i as int));
            assert(upto.last() == pieces@[i as int]@);
        }
        match split_once_trimmed(pieces[i].as_str(), ':') {
            Some((name, value)) => {
                pairs.push((name, value));
                assert(pair_texts(pairs@) =~= before.push((name@, value@)));
            },
            None => {},
        }
        i += 1;
    }
    assert(all.take(pieces.len() as int) =~= all);
    pairs
}

/// The headers among a list of pairs: each pair whose name is a valid
/// header name and whose value is a valid header value, in order. The
/// other pairs are passed over.
pub fn valid_headers(pairs: &Vec<(String, String)>) -> (headers: Vec<
    (axum::http::HeaderName, axum::http::HeaderValue),
>)
    ensures
        header_texts(headers@) == accepted(pair_texts(pairs@)),
{
    let mut headers: Vec<(axum::http::HeaderName, axum::http::HeaderValue)> = Vec::new();
    let ghost all = pair_texts(pairs@);
    let mut i: usize = 0;
    assert(all.take(0) =~= Seq::<(Seq<char>, Seq<char>)>::empty());
    assert(header_texts(headers@) =~= Seq::<(Seq<char>, Seq<u8>)>::empty());
    while i < pairs.len()
        invariant
            i <= pairs.len(),
            all == pair_texts(pairs@),
            header_texts(headers@) == accepted(all.take(i as int)),
        decreases pairs.len() - i,
    {
        let ghost before = header_texts(headers@);
        proof {
            let upto = all.take(i + 1);
            assert(upto.drop_last() =~= all.take(i as int));
            assert(upto.last() == (pairs@[i as int].0@, pairs@[i as int].1@));
        }
        let parsed_name = parse_name(pairs[i].0.as_str());
        let parsed_value = parse_value(pairs[i].1.as_str());
        match (parsed_name, parsed_value) {
            (Ok(name), Ok(value)) => {
                headers.push((name, value));
                assert(header_texts(headers@) =~= before.push(
                    (name_text(name), value_bytes(value)),
                ));
            },
            _ => {},
        }
        i += 1;
    }
    assert(all.take(pairs.len() as int) =~= all);
    headers
}

/// The extra headers that a line of configuration asks for.
pub fn extra_headers(line: &str) -> (headers: Vec<
    (axum::http::HeaderName, axum::http::HeaderValue),
>)
    ensures
        header_texts(headers@) == accepted(line_pairs(line@)),
{
    let pairs = header_pairs(line);
    valid_headers(&pairs)
}

} // verus!
