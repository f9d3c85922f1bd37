//! Fetching a bookmark's page: what is asked of the network and how its
//! answer is judged.

use vstd::prelude::*;

verus! {

/// A page request: a GET of `url` that presents `user_agent`.
#[derive(Debug, Clone, PartialEq, Eq)]
pub struct FetchRequest {
    pub url: String,
    pub user_agent: String,
}

/// What came of a page request.
#[derive(Debug, Clone, PartialEq, Eq)]
pub enum FetchReply {
    /// No response arrived.
    Transport,
    /// A response arrived; `body` is absent where it could not be read.
    Response { status: u16, body: Option<String> },
}

/// Why a page could not be had.
#[derive(Debug, Clone, Copy, PartialEq, Eq, Structural)]
pub enum FetchFailed {
    /// The server answered with a status outside 200 to 299.
    Status(u16),
    /// The request or the reading of the body failed on the way.
    Transport,
}

/// Whether a status code reports success: 200 to 299.
pub open spec fn is_success(status: u16) -> bool {
    200 <= status < 300
}

/// The page that a reply carries, or the reason it carries none.
pub open spec fn reply_page(reply: FetchReply) -> Result<Seq<char>, FetchFailed> {
    match reply {
        FetchReply::Transport => Err(FetchFailed::Transport),
        FetchReply::Response { status, body } => if !is_success(status) {
            Err(FetchFailed::Status(status))
        } else {
            match body {
                Some(text) => Ok(text@),
                None => Err(FetchFailed::Transport),
            }
        },
    }
}

/// The text of the fetcher's user agent: a desktop browser's, followed by
/// the token that names this service.
pub open spec fn agent_text() -> Seq<char> {
    "Mozilla/5.0 (Windows NT 10.0; Win64; x64) AppleWebKit/537.36 (KHTML, like Gecko) Chrome/120.0.0.0 Safari/537.36 LinkmanBot/1.0"@
}

/// The user agent that every page request presents.
pub fn user_agent() -> (agent: &'static str)
    ensures
        agent@ == agent_text(),
{
    "Mozilla/5.0 (Windows NT 10.0; Win64; x64) AppleWebKit/537.36 (KHTML, like Gecko) Chrome/120.0.0.0 Safari/537.36 LinkmanBot/1.0"
}

/// The request that fetches `url`.
pub fn fetch_request(url: &str) -> (request: FetchRequest)
    ensures
        request.url@ == url@,
        request.user_agent@ == agent_text(),
{
    FetchRequest { url: url.to_owned(), user_agent: user_agent().to_owned() }
}

/// Tells a successful status from the others.
pub fn status_is_success(status: u16) -> (b: bool)
    ensures
        b == is_success(status),
{
    200 <= status && status < 300
}

/// Judges a reply: the body of a successful response is the page; any other
/// status is a failure that carries the status; a missing response or an
/// unreadable body is a transport failure.
pub fn page_of(reply: FetchReply) -> (r: Result<String, FetchFailed>)
    ensures
        match reply_page(reply) {
            Ok(text) => r is Ok && r.unwrap()@ == text,
            Err(failure) => r == Err::<String, FetchFailed>(failure),
        },
{
    match reply {
        FetchReply::Transport => Err(FetchFailed::Transport),
        FetchReply::Response { status, body } => {
            if !status_is_success(status) {
                Err(FetchFailed::Status(status))
            } else {
                match body {
                    Some(text) => Ok(text),
                    None => Err(FetchFailed::Transport),
                }
            }
        },
    }
}

} // verus!
