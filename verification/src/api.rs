//! The answers of the HTTP surface: which status each outcome earns and
//! when a worker is scheduled.

use vstd::prelude::*;
use crate::model::{bookmark_views, Bookmark};
use crate::store::StoreFailure;
use crate::text::texts;

verus! {

/// The statuses that the service answers with.
#[derive(Debug, Clone, Copy, PartialEq, Eq, Structural)]
pub enum Status {
    Success,
    Created,
    Accepted,
    NoContent,
    Unauthorized,
    NotFound,
    InternalServerError,
}

/// The number of a status.
pub open spec fn status_code(status: Status) -> u16 {
    match status {
        Status::Success => 200,
        Status::Created => 201,
        Status::Accepted => 202,
        Status::NoContent => 204,
        Status::Unauthorized => 401,
        Status::NotFound => 404,
        Status::InternalServerError => 500,
    }
}

impl Status {
    /// The number of the status on the wire.
    pub fn code(self) -> (n: u16)
        ensures
            n == status_code(self),
    {
        match self {
            Status::Success => 200,
            Status::Created => 201,
            Status::Accepted => 202,
            Status::NoContent => 204,
            Status::Unauthorized => 401,
            Status::NotFound => 404,
            Status::InternalServerError => 500,
        }
    }
}

/// A pass of the ingestion worker that is to be scheduled.
#[derive(Debug, Clone, PartialEq, Eq)]
pub struct Job {
    pub bookmark_id: u128,
    pub url: String,
}

/// The answer to a request that may schedule a worker.
#[derive(Debug, Clone, PartialEq, Eq)]
pub struct Reply {
    pub status: Status,
    pub job: Option<Job>,
}

impl Reply {
    /// Whether the reply has this status and schedules no worker.
    pub open spec fn is_bare(self, status: Status) -> bool {
        self.status == status && self.job is None
    }

    /// Whether the reply has this status and schedules a worker for the
    /// bookmark at the address.
    pub open spec fn schedules(self, status: Status, bookmark_id: u128, url: Seq<char>) -> bool {
        &&& self.status == status
        &&& self.job matches Some(job)
        &&& job.bookmark_id == bookmark_id
        &&& job.url@ == url
    }
}

/// The tags of a create request: those given, or none.
pub open spec fn given_tags(tags: Option<Vec<String>>) -> Seq<Seq<char>> {
    match tags {
        Some(list) => texts(list@),
        None => Seq::empty(),
    }
}

/// The tags that a create request stores: those it gives, or none.
pub fn payload_tags(tags: Option<Vec<String>>) -> (r: Vec<String>)
    ensures
        texts(r@) == given_tags(tags),
{
    match tags {
        Some(list) => list,
        None => {
            let empty: Vec<String> = Vec::new();
            assert(texts(empty@) =~= Seq::<Seq<char>>::empty());
            empty
        },
    }
}

/// Answers a create request once the store has answered: a stored bookmark
/// is answered with 201 and a worker for its id; a failure of the store
/// with 500 and no worker.
pub fn created(stored: Result<u128, StoreFailure>, url: String) -> (reply: Reply)
    ensures
        match stored {
            Ok(id) => reply.schedules(Status::Created, id, url@),
            Err(_) => reply.is_bare(Status::InternalServerError),
        },
{
    match stored {
        Ok(id) => Reply { status: Status::Created, job: Some(Job { bookmark_id: id, url }) },
        Err(_) => Reply { status: Status::InternalServerError, job: None },
    }
}

/// The status of a delete once the store has answered.
pub open spec fn deleted_status(removed: Result<u64, StoreFailure>) -> Status {
    match removed {
        Ok(n) => if n == 0 {
            Status::NotFound
        } else {
            Status::NoContent
        },
        Err(_) => Status::InternalServerError,
    }
}

/// Answers a delete request once the store has answered: 204 where a
/// bookmark was deleted, 404 where there was none, 500 where the store failed.
pub fn deleted(removed: Result<u64, StoreFailure>) -> (status: Status)
    ensures
        status == deleted_status(removed),
{
    match removed {
        Ok(n) => if n == 0 {
            Status::NotFound
        } else {
            Status::NoContent
        },
        Err(_) => Status::InternalServerError,
    }
}

/// Answers a reprocess request once the store has looked for the caller's
/// bookmark: 202 and a worker where the caller owns it, 404 where not, 500
/// where the store failed.
pub fn reprocessed(bookmark_id: u128, found: Result<Option<String>, StoreFailure>) -> (reply: Reply)
    ensures
        match found {
            Ok(Some(url)) => reply.schedules(Status::Accepted, bookmark_id, url@),
            Ok(None) => reply.is_bare(Status::NotFound),
            Err(_) => reply.is_bare(Status::InternalServerError),
        },
{
    match found {
        Ok(Some(url)) => Reply { status: Status::Accepted, job: Some(Job { bookmark_id, url }) },
        Ok(None) => Reply { status: Status::NotFound, job: None },
        Err(_) => Reply { status: Status::InternalServerError, job: None },
    }
}

/// Answers a list or sync request once the store has answered: 200 with the
/// bookmarks as the store gave them, or 500 with none.
pub fn listed(found: Result<Vec<Bookmark>, StoreFailure>) -> (r: (Status, Vec<Bookmark>))
    ensures
        match found {
            Ok(list) => r.0 == Status::Success && bookmark_views(r.1@) == bookmark_views(list@),
            Err(_) => r.0 == Status::InternalServerError && r.1@.len() == 0,
        },
{
    match found {
        Ok(list) => (Status::Success, list),
        Err(_) => (Status::InternalServerError, Vec::new()),
    }
}

} // verus!
