//! The ingestion worker: fetch the page, excerpt it, ask for tags, store them.
//!
//! The worker does no I/O. It names the next action; the caller performs it
//! and reports the outcome as an event. A failure at any stage ends the pass
//! before any tags are written.

use vstd::prelude::*;
use crate::excerpt::{excerpt, page_excerpt};
use crate::fetch::{fetch_request, page_of, reply_page, agent_text, FetchFailed, FetchReply, FetchRequest};
use crate::tagger::{
    first_choice, first_choice_text, kept_tags, parse_tags, reply_tags, system_text, tag_request,
    user_text, TagRequest, MAX_TAGS,
};
use crate::text::texts;

verus! {

/// Why a pass ended without writing tags.
#[derive(Debug, Clone, Copy, PartialEq, Eq, Structural)]
pub enum WorkerError {
    /// The page could not be fetched.
    FetchFailed(FetchFailed),
    /// The page could not be converted to an excerpt.
    ExcerptFailed,
    /// The chat model could not be reached or gave no completion.
    TaggerFailed,
    /// The chat model's reply was not the JSON asked for.
    TagParseFailed,
    /// The store did not accept the new tags.
    StoreFailed,
    /// An event arrived that the stage was not waiting for.
    OutOfTurn,
}

/// What a worker is waiting for.
#[derive(Debug, Clone, Copy, PartialEq, Eq, Structural)]
pub enum Stage {
    AwaitingPage,
    AwaitingReply,
    AwaitingStore,
    Finished,
}

/// One pass of ingestion over one bookmark.
#[derive(Debug, Clone, PartialEq, Eq)]
pub struct Worker {
    pub bookmark_id: u128,
    pub url: String,
    pub model: String,
    pub stage: Stage,
}

/// The outcome of the action a worker asked for.
#[derive(Debug, Clone, PartialEq, Eq)]
pub enum Event {
    /// What came of the page request.
    Page(FetchReply),
    /// The choices of the chat completion, each with its content if it has
    /// any; `None` where the request failed.
    Reply(Option<Vec<Option<String>>>),
    /// Whether the store ran the update.
    Stored(bool),
}

/// What a worker asks its caller to do next.
#[derive(Debug, Clone, PartialEq, Eq)]
pub enum Action {
    Fetch(FetchRequest),
    Ask(TagRequest),
    StoreTags { bookmark_id: u128, tags: Vec<String> },
    /// The pass is over and the tags are written.
    Done,
    /// The pass is over and nothing was written.
    Failed(WorkerError),
}

/// The tags that a completion yields, or the error that ends the pass.
pub open spec fn completion_tags(completion: Option<Vec<Option<String>>>) -> Result<
    Seq<Seq<char>>,
    WorkerError,
> {
    match completion {
        None => Err(WorkerError::TaggerFailed),
        Some(choices) => match reply_tags(first_choice_text(choices@)) {
            Some(tags) => Ok(kept_tags(tags)),
            None => Err(WorkerError::TagParseFailed),
        },
    }
}

/// The excerpt that a page reply yields, or the error that ends the pass.
pub open spec fn reply_excerpt(reply: FetchReply) -> Result<Seq<char>, WorkerError> {
    match reply_page(reply) {
        Err(failure) => Err(WorkerError::FetchFailed(failure)),
        Ok(html) => match page_excerpt(html) {
            Some(text) => Ok(text),
            None => Err(WorkerError::ExcerptFailed),
        },
    }
}

/// How a worker answers an event: the worker afterwards and the action it
/// asks for.
pub open spec fn answers(worker: Worker, event: Event, next: Worker, action: Action) -> bool {
    &&& next.bookmark_id == worker.bookmark_id
    &&& next.url@ == worker.url@
    &&& next.model@ == worker.model@
    &&& match (worker.stage, event) {
        (Stage::AwaitingPage, Event::Page(reply)) => match reply_excerpt(reply) {
            Ok(text) => {
                &&& next.stage == Stage::AwaitingReply
                &&& action matches Action::Ask(request)
                &&& request.model@ == worker.model@
                &&& request.system@ == system_text()
                &&& request.user@ == user_text(worker.url@, text)
                &&& request.json_object
            },
            Err(error) => next.stage == Stage::Finished && action == Action::Failed(error),
        },
        (Stage::AwaitingReply, Event::Reply(completion)) => match completion_tags(completion) {
            Ok(tags) => {
                &&& next.stage == Stage::AwaitingStore
                &&& action matches Action::StoreTags { bookmark_id, tags: found }
                &&& bookmark_id == worker.bookmark_id
                &&& texts(found@) == tags
            },
            Err(error) => next.stage == Stage::Finished && action == Action::Failed(error),
        },
        (Stage::AwaitingStore, Event::Stored(done)) => {
            &&& next.stage == Stage::Finished
            &&& action == if done {
                Action::Done
            } else {
                Action::Failed(WorkerError::StoreFailed)
            }
        },
        _ => next.stage == Stage::Finished && action == Action::Failed(WorkerError::OutOfTurn),
    }
}

/// The request for tags that follows a page reply.
pub fn after_page(url: &str, model: &str, reply: FetchReply) -> (r: Result<TagRequest, WorkerError>)
    ensures
        match reply_excerpt(reply) {
            Ok(text) => {
                &&& r matches Ok(request)
                &&& request.model@ == model@
                &&& request.system@ == system_text()
                &&& request.user@ == user_text(url@, text)
                &&& request.json_object
            },
            Err(error) => r == Err::<TagRequest, WorkerError>(error),
        },
{
    let html = match page_of(reply) {
        Ok(html) => html,
        Err(failure) => {
            return Err(WorkerError::FetchFailed(failure));
        },
    };
    match excerpt(html.as_str()) {
        Ok(text) => Ok(tag_request(model, url, text.as_str())),
        Err(_) => Err(WorkerError::ExcerptFailed),
    }
}

/// The tags to store after a completion: those of its first choice, at most six.
pub fn after_reply(completion: Option<Vec<Option<String>>>) -> (r: Result<Vec<String>, WorkerError>)
    ensures
        match completion_tags(completion) {
            Ok(tags) => r is Ok && texts(r.unwrap()@) == tags,
            Err(error) => r == Err::<Vec<String>, WorkerError>(error),
        },
        r is Ok ==> r.unwrap()@.len() <= MAX_TAGS,
{
    let choices = match completion {
        Some(choices) => choices,
        None => {
            return Err(WorkerError::TaggerFailed);
        },
    };
    let content = first_choice(&choices);
    match parse_tags(content.as_str()) {
        Ok(tags) => Ok(tags),
        Err(_) => Err(WorkerError::TagParseFailed),
    }
}

/// How the pass ends once the store has answered.
pub fn after_store(done: bool) -> (r: Result<(), WorkerError>)
    ensures
        r == if done {
            Ok::<(), WorkerError>(())
        } else {
            Err::<(), WorkerError>(WorkerError::StoreFailed)
        },
{
    if done {
        Ok(())
    } else {
        Err(WorkerError::StoreFailed)
    }
}

impl Worker {
    /// Starts a pass over the bookmark `bookmark_id` at `url`: the worker
    /// waits for the page and asks for it to be fetched.
    pub fn begin(bookmark_id: u128, url: String, model: String) -> (r: (Worker, Action))
        ensures
            r.0.bookmark_id == bookmark_id,
            r.0.url@ == url@,
            r.0.model@ == model@,
            r.0.stage == Stage::AwaitingPage,
            r.1 matches Action::Fetch(request) && request.url@ == url@ && request.user_agent@
                == agent_text(),
    {
        let request = fetch_request(url.as_str());
        (Worker { bookmark_id, url, model, stage: Stage::AwaitingPage }, Action::Fetch(request))
    }

    /// Takes the outcome of the last action and names the next one.
    ///
    /// A failure ends the pass with its error and no further action. An event
    /// that the stage was not waiting for ends it as out of turn.
    pub fn advance(self, event: Event) -> (r: (Worker, Action))
        ensures
            answers(self, event, r.0, r.1),
    {
        let Worker { bookmark_id, url, model, stage } = self;
        match (stage, event) {
            (Stage::AwaitingPage, Event::Page(reply)) => {
                match after_page(url.as_str(), model.as_str(), reply) {
                    Ok(request) => (
                        Worker { bookmark_id, url, model, stage: Stage::AwaitingReply },
                        Action::Ask(request),
                    ),
                    Err(error) => (
                        Worker { bookmark_id, url, model, stage: Stage::Finished },
                        Action::Failed(error),
                    ),
                }
            },
            (Stage::AwaitingReply, Event::Reply(completion)) => {
                match after_reply(completion) {
                    Ok(tags) => (
                        Worker { bookmark_id, url, model, stage: Stage::AwaitingStore },
                        Action::StoreTags { bookmark_id, tags },
                    ),
                    Err(error) => (
                        Worker { bookmark_id, url, model, stage: Stage::Finished },
                        Action::Failed(error),
                    ),
                }
            },
            (Stage::AwaitingStore, Event::Stored(done)) => {
                let action = match after_store(done) {
                    Ok(_) => Action::Done,
                    Err(error) => Action::Failed(error),
                };
                (Worker { bookmark_id, url, model, stage: Stage::Finished }, action)
            },
            _ => (
                Worker { bookmark_id, url, model, stage: Stage::Finished },
                Action::Failed(WorkerError::OutOfTurn),
            ),
        }
    }
}

/// Whatever the event, a worker writes at most six tags, and only to its own
/// bookmark; after a failure it writes nothing.
pub proof fn lemma_worker_writes(worker: Worker, event: Event, next: Worker, action: Action)
    requires
        answers(worker, event, next, action),
    ensures
        action matches Action::StoreTags { bookmark_id, tags } ==> bookmark_id == worker.bookmark_id
            && tags@.len() <= 6,
        action is StoreTags ==> worker.stage == Stage::AwaitingReply && event is Reply,
        action is Done ==> worker.stage == Stage::AwaitingStore && event == Event::Stored(true),
        action is Done || action is Failed ==> next.stage == Stage::Finished,
{
    if let Action::StoreTags { bookmark_id, tags } = action {
        assert(texts(tags@).len() == tags@.len());
    }
}

} // verus!
