//! The records of the service and their mathematical views.
//!
//! Identifiers are 128-bit numbers. Instants are microseconds since the Unix
//! epoch.

use vstd::prelude::*;
use crate::text::{opt_text, texts};

verus! {

/// A credential: a secret that a client presents and the identity it stands for.
#[derive(Debug, Clone, PartialEq, Eq)]
pub struct Credential {
    pub id: u128,
    pub secret: String,
    pub description: String,
}

/// A credential as a mathematical value.
pub struct CredentialView {
    pub id: u128,
    pub secret: Seq<char>,
    pub description: Seq<char>,
}

impl View for Credential {
    type V = CredentialView;

    open spec fn view(&self) -> CredentialView {
        CredentialView { id: self.id, secret: self.secret@, description: self.description@ }
    }
}

/// A stored bookmark: the bookmark together with the credential that owns it.
#[derive(Debug, Clone, PartialEq, Eq)]
pub struct Row {
    pub id: u128,
    pub url: String,
    pub title: Option<String>,
    pub tags: Vec<String>,
    pub created_at: i64,
    pub owner: u128,
}

/// A stored bookmark as a mathematical value.
pub struct RowView {
    pub id: u128,
    pub url: Seq<char>,
    pub title: Option<Seq<char>>,
    pub tags: Seq<Seq<char>>,
    pub created_at: i64,
    pub owner: u128,
}

impl View for Row {
    type V = RowView;

    open spec fn view(&self) -> RowView {
        RowView {
            id: self.id,
            url: self.url@,
            title: opt_text(self.title),
            tags: texts(self.tags@),
            created_at: self.created_at,
            owner: self.owner,
        }
    }
}

/// A bookmark as a client sees it.
#[derive(Debug, Clone, PartialEq, Eq)]
pub struct Bookmark {
    pub id: u128,
    pub url: String,
    pub title: Option<String>,
    pub tags: Vec<String>,
    pub created_at: i64,
}

/// A bookmark as a mathematical value.
pub struct BookmarkView {
    pub id: u128,
    pub url: Seq<char>,
    pub title: Option<Seq<char>>,
    pub tags: Seq<Seq<char>>,
    pub created_at: i64,
}

impl View for Bookmark {
    type V = BookmarkView;

    open spec fn view(&self) -> BookmarkView {
        BookmarkView {
            id: self.id,
            url: self.url@,
            title: opt_text(self.title),
            tags: texts(self.tags@),
            created_at: self.created_at,
        }
    }
}

impl RowView {
    /// The bookmark that a client sees of this row.
    pub open spec fn bookmark(self) -> BookmarkView {
        BookmarkView {
            id: self.id,
            url: self.url,
            title: self.title,
            tags: self.tags,
            created_at: self.created_at,
        }
    }
}

/// The views of a list of rows, in order.
pub open spec fn row_views(rows: Seq<Row>) -> Seq<RowView> {
    Seq::new(rows.len(), |i: int| rows[i]@)
}

/// The views of a list of credentials, in order.
pub open spec fn credential_views(list: Seq<Credential>) -> Seq<CredentialView> {
    Seq::new(list.len(), |i: int| list[i]@)
}

/// The views of a list of bookmarks, in order.
pub open spec fn bookmark_views(list: Seq<Bookmark>) -> Seq<BookmarkView> {
    Seq::new(list.len(), |i: int| list[i]@)
}

/// The body of a request that creates a bookmark.
#[derive(Debug, Clone, PartialEq, Eq)]
pub struct CreateBookmark {
    pub url: String,
    pub title: Option<String>,
    pub tags: Option<Vec<String>>,
}

/// The query of a request that lists bookmarks. Every field is optional.
#[derive(Debug, Clone, PartialEq, Eq)]
pub struct SearchParams {
    /// Text to find in the address or the title.
    pub q: Option<String>,
    /// Text to find in the title.
    pub title: Option<String>,
    /// Tags that must all be present, separated by commas.
    pub tag: Option<String>,
    /// The earliest creation instant, inclusive.
    pub start_date: Option<i64>,
    /// The latest creation instant, inclusive.
    pub end_date: Option<i64>,
}

/// The query of a list request as a mathematical value.
pub struct SearchParamsView {
    pub q: Option<Seq<char>>,
    pub title: Option<Seq<char>>,
    pub tag: Option<Seq<char>>,
    pub start_date: Option<i64>,
    pub end_date: Option<i64>,
}

impl View for SearchParams {
    type V = SearchParamsView;

    open spec fn view(&self) -> SearchParamsView {
        SearchParamsView {
            q: opt_text(self.q),
            title: opt_text(self.title),
            tag: opt_text(self.tag),
            start_date: self.start_date,
            end_date: self.end_date,
        }
    }
}

impl SearchParams {
    /// The query that asks for nothing in particular.
    pub fn none() -> (params: SearchParams)
        ensures
            params@ == (SearchParamsView {
                q: None,
                title: None,
                tag: None,
                start_date: None,
                end_date: None,
            }),
    {
        SearchParams { q: None, title: None, tag: None, start_date: None, end_date: None }
    }
}

/// The query of a request that deletes a bookmark.
#[derive(Debug, Clone, PartialEq, Eq)]
pub struct DeleteParams {
    pub url: String,
}

/// The identity that a request acts under once its credential is resolved.
#[derive(Debug, Clone, Copy, PartialEq, Eq, Structural)]
pub struct CurrentUser {
    pub credential_id: u128,
}

impl Row {
    /// The bookmark that a client sees of this row.
    pub fn to_bookmark(&self) -> (b: Bookmark)
        ensures
            b@ == self@.bookmark(),
    {
        let tags = copy_texts(&self.tags);
        let title = match &self.title {
            Some(t) => Some(t.clone()),
            None => None,
        };
        Bookmark { id: self.id, url: self.url.clone(), title, tags, created_at: self.created_at }
    }
}

/// A copy of a list of strings.
pub fn copy_texts(list: &Vec<String>) -> (copy: Vec<String>)
    ensures
        texts(copy@) == texts(list@),
{
    let mut copy: Vec<String> = Vec::new();
    let mut i: usize = 0;
    while i < list.len()
        invariant
            i <= list.len(),
            copy@.len() == i,
            forall|j: int| 0 <= j < i ==> (#[trigger] copy@[j])@ == list@[j]@,
        decreases list.len() - i,
    {
        copy.push(list[i].clone());
        i += 1;
    }
    assert(texts(copy@) =~= texts(list@));
    copy
}

} // verus!
