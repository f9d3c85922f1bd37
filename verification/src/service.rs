//! The service over a store held in memory: each request of the HTTP
//! surface and the worker's pass, from the guard to the answer.

use vstd::prelude::*;
use crate::api::{created, deleted, given_tags, listed, payload_tags, reprocessed, Reply, Status};
use crate::auth::{authenticate, caller, opt_str};
use crate::fetch::FetchReply;
use crate::filter::params_clauses;
use crate::model::{bookmark_views, Bookmark, CreateBookmark, CurrentUser, DeleteParams,
    SearchParams};
use crate::store::{Store, StoreView};
use crate::text::{opt_text, texts};
use crate::worker::{after_page, after_reply, completion_tags, reply_excerpt, WorkerError};
use crate::tagger::default_model;

verus! {

/// Creates the caller's bookmark for an address or updates the one the
/// caller has, and schedules a worker for it.
///
/// A request that does not pass the guard is answered with the guard's
/// status and writes nothing.
pub fn create_bookmark(
    store: &mut Store,
    header: Option<&str>,
    payload: CreateBookmark,
    fresh_id: u128,
    now: i64,
) -> (reply: Reply)
    requires
        old(store)@.wf(),
    ensures
        final(store)@.wf(),
        match caller(old(store)@, opt_str(header)) {
            Err(status) => reply.is_bare(status) && final(store)@ == old(store)@,
            Ok(user) => {
                let (after, stored) = old(store)@.upsert(
                    user.credential_id,
                    payload.url@,
                    opt_text(payload.title),
                    given_tags(payload.tags),
                    fresh_id,
                    now,
                );
                &&& final(store)@ == after
                &&& match stored {
                    Ok(id) => reply.schedules(Status::Created, id, payload.url@),
                    Err(_) => reply.is_bare(Status::InternalServerError),
                }
            },
        },
{
    let user = match authenticate(store, header) {
        Ok(user) => user,
        Err(status) => {
            return Reply { status, job: None };
        },
    };
    let CreateBookmark { url, title, tags } = payload;
    let tags = payload_tags(tags);
    let stored = store.upsert_bookmark(user.credential_id, url.clone(), title, tags, fresh_id, now);
    created(stored, url)
}

/// Lists the caller's bookmarks under the filter of the query, newest first.
pub fn list_bookmarks(store: &Store, header: Option<&str>, params: &SearchParams) -> (r: (
    Status,
    Vec<Bookmark>,
))
    requires
        store@.wf(),
    ensures
        match caller(store@, opt_str(header)) {
            Err(status) => r.0 == status && r.1@.len() == 0,
            Ok(user) => r.0 == Status::Success && bookmark_views(r.1@) == store@.listing(
                user.credential_id,
                params_clauses(params@),
            ),
        },
{
    match authenticate(store, header) {
        Ok(user) => listed(Ok(store.list_bookmarks(user.credential_id, params))),
        Err(status) => (status, Vec::new()),
    }
}

/// Lists all of the caller's bookmarks, newest first.
pub fn sync_bookmarks(store: &Store, header: Option<&str>) -> (r: (Status, Vec<Bookmark>))
    requires
        store@.wf(),
    ensures
        match caller(store@, opt_str(header)) {
            Err(status) => r.0 == status && r.1@.len() == 0,
            Ok(user) => r.0 == Status::Success && bookmark_views(r.1@) == store@.listing(
                user.credential_id,
                Seq::empty(),
            ),
        },
{
    match authenticate(store, header) {
        Ok(user) => listed(Ok(store.sync_bookmarks(user.credential_id))),
        Err(status) => (status, Vec::new()),
    }
}

/// Deletes the caller's bookmark for an address: 204 where there was one,
/// 404 where there was none.
pub fn delete_bookmark(store: &mut Store, header: Option<&str>, params: &DeleteParams) -> (status:
    Status)
    requires
        old(store)@.wf(),
    ensures
        final(store)@.wf(),
        match caller(old(store)@, opt_str(header)) {
            Err(refused) => status == refused && final(store)@ == old(store)@,
            Ok(user) => {
                let (after, removed) = old(store)@.delete(user.credential_id, params.url@);
                &&& final(store)@ == after
                &&& status == if removed == 0 {
                    Status::NotFound
                } else {
                    Status::NoContent
                }
            },
        },
{
    let user = match authenticate(store, header) {
        Ok(user) => user,
        Err(status) => {
            return status;
        },
    };
    let removed = store.delete_by_url(user.credential_id, params.url.as_str());
    deleted(Ok(removed))
}

/// Schedules a new pass of the worker over a bookmark of the caller's: 202
/// and a worker where the caller owns a bookmark with the id, 404 where
/// not. The store is only read.
pub fn reprocess_bookmark(store: &Store, header: Option<&str>, bookmark_id: u128) -> (reply: Reply)
    requires
        store@.wf(),
    ensures
        match caller(store@, opt_str(header)) {
            Err(status) => reply.is_bare(status),
            Ok(user) => match store@.url_of(user.credential_id, bookmark_id) {
                Some(url) => reply.schedules(Status::Accepted, bookmark_id, url),
                None => reply.is_bare(Status::NotFound),
            },
        },
{
    match authenticate(store, header) {
        Ok(user) => reprocessed(bookmark_id, Ok(store.get_url(user.credential_id, bookmark_id))),
        Err(status) => Reply { status, job: None },
    }
}

/// The tags that a pass writes, given what the page request and the chat
/// completion came to, or the error that ends the pass before it writes.
pub open spec fn pass_tags(page: FetchReply, completion: Option<Vec<Option<String>>>) -> Result<
    Seq<Seq<char>>,
    WorkerError,
> {
    match reply_excerpt(page) {
        Ok(_) => completion_tags(completion),
        Err(error) => Err(error),
    }
}

/// Runs one pass of the worker over a bookmark, given what came of the page
/// request and of the chat completion.
///
/// A pass that succeeds leaves the bookmark with the new tags, at most six,
/// in place of the old; a bookmark that is gone by then is no failure. A
/// pass that fails leaves the store as it was.
pub fn process_bookmark_content(
    store: &mut Store,
    bookmark_id: u128,
    url: &str,
    page: FetchReply,
    completion: Option<Vec<Option<String>>>,
) -> (r: Result<(), WorkerError>)
    requires
        old(store)@.wf(),
    ensures
        final(store)@.wf(),
        match pass_tags(page, completion) {
            Ok(tags) => {
                &&& r is Ok
                &&& tags.len() <= 6
                &&& final(store)@ == old(store)@.retag(bookmark_id, tags).0
            },
            Err(error) => r == Err::<(), WorkerError>(error) && final(store)@ == old(store)@,
        },
{
    match after_page(url, default_model(), page) {
        Ok(_) => {},
        Err(error) => {
            return Err(error);
        },
    }
    let tags = match after_reply(completion) {
        Ok(tags) => tags,
        Err(error) => {
            return Err(error);
        },
    };
    assert(texts(tags@).len() == tags@.len());
    store.update_tags(bookmark_id, tags);
    Ok(())
}

/// Against a store in memory the guard turns a request away for one reason
/// only: it presents no secret that the store knows. The status is 401.
pub proof fn law_refusal_is_unauthorized(s: StoreView, header: Option<Seq<char>>)
    requires
        caller(s, header) is Err,
    ensures
        caller(s, header) == Err::<CurrentUser, Status>(Status::Unauthorized),
{
}

} // verus!
