//! The store of credentials and bookmarks, as a value.
//!
//! This is the meaning of the store's operations: what each does to the
//! records and what it returns. Every bookmark belongs to one credential, and
//! a credential has at most one bookmark for an address.

use vstd::prelude::*;
use crate::filter::{clause_views, filter_clauses, filter_holds, filter_matches, params_clauses,
    Clause, ClauseView};
use crate::model::{
    bookmark_views, credential_views, row_views, Bookmark, BookmarkView, Credential,
    CredentialView, Row, RowView, SearchParams,
};
use crate::text::{opt_text, texts};

verus! {

/// Why the store did not do what it was asked.
#[derive(Debug, Clone, Copy, PartialEq, Eq, Structural)]
pub enum StoreFailure {
    /// The store could not be reached or failed while answering.
    Unavailable,
    /// The write would have broken a uniqueness or ownership rule.
    Constraint,
}

/// The credentials and bookmarks that the service holds.
#[derive(Debug, Clone)]
pub struct Store {
    credentials: Vec<Credential>,
    rows: Vec<Row>,
}

/// The store as a mathematical value.
pub struct StoreView {
    pub credentials: Seq<CredentialView>,
    pub rows: Seq<RowView>,
}

impl View for Store {
    type V = StoreView;

    closed spec fn view(&self) -> StoreView {
        StoreView { credentials: credential_views(self.credentials@), rows: row_views(self.rows@) }
    }
}

/// How many bookmarks at the head of a list are at least as new as `at`.
pub open spec fn newer_count(list: Seq<BookmarkView>, at: i64) -> int
    decreases list.len(),
{
    if list.len() > 0 && list[0].created_at >= at {
        1 + newer_count(list.drop_first(), at)
    } else {
        0
    }
}

/// A list with a bookmark put behind those that are at least as new.
pub open spec fn placed(list: Seq<BookmarkView>, b: BookmarkView) -> Seq<BookmarkView> {
    list.insert(newer_count(list, b.created_at), b)
}

/// Whether a row is one that a listing for `owner` under `clauses` shows.
pub open spec fn shown(row: RowView, owner: u128, clauses: Seq<ClauseView>) -> bool {
    row.owner == owner && filter_holds(clauses, row)
}

/// The bookmarks of the rows that belong to `owner` and meet every clause,
/// newest first; among bookmarks of one instant the one stored first comes first.
pub open spec fn selected(rows: Seq<RowView>, owner: u128, clauses: Seq<ClauseView>) -> Seq<
    BookmarkView,
>
    decreases rows.len(),
{
    if rows.len() == 0 {
        Seq::empty()
    } else {
        let rest = selected(rows.drop_last(), owner, clauses);
        if shown(rows.last(), owner, clauses) {
            placed(rest, rows.last().bookmark())
        } else {
            rest
        }
    }
}

/// Whether a list of bookmarks runs from the newest to the oldest.
pub open spec fn newest_first(list: Seq<BookmarkView>) -> bool {
    forall|i: int, j: int| 0 <= i < j < list.len() ==> list[i].created_at >= list[j].created_at
}

impl StoreView {
    /// The store that holds nothing.
    pub open spec fn empty() -> StoreView {
        StoreView { credentials: Seq::empty(), rows: Seq::empty() }
    }

    /// Whether the credential at `k` has the given identity.
    pub open spec fn credential_at(self, k: int, id: u128) -> bool {
        0 <= k < self.credentials.len() && self.credentials[k].id == id
    }

    /// Whether the credential at `k` has the given secret.
    pub open spec fn secret_at(self, k: int, secret: Seq<char>) -> bool {
        0 <= k < self.credentials.len() && self.credentials[k].secret == secret
    }

    /// Whether the row at `i` has the given id.
    pub open spec fn id_at(self, i: int, id: u128) -> bool {
        0 <= i < self.rows.len() && self.rows[i].id == id
    }

    /// Whether the row at `i` is the owner's bookmark for the address.
    pub open spec fn owned_at(self, i: int, owner: u128, url: Seq<char>) -> bool {
        0 <= i < self.rows.len() && self.rows[i].owner == owner && self.rows[i].url == url
    }

    pub open spec fn has_credential(self, id: u128) -> bool {
        exists|k: int| self.credential_at(k, id)
    }

    pub open spec fn has_secret(self, secret: Seq<char>) -> bool {
        exists|k: int| self.secret_at(k, secret)
    }

    pub open spec fn has_id(self, id: u128) -> bool {
        exists|i: int| self.id_at(i, id)
    }

    pub open spec fn has_row(self, owner: u128, url: Seq<char>) -> bool {
        exists|i: int| self.owned_at(i, owner, url)
    }

    /// The rules that every store keeps: identities and secrets of
    /// credentials are unique, ids of bookmarks are unique, a credential has
    /// at most one bookmark for an address, and every bookmark's owner is a
    /// credential of the store.
    pub open spec fn wf(self) -> bool {
        &&& forall|k: int, l: int|
            0 <= k < l < self.credentials.len() ==> (#[trigger] self.credentials[k]).id != (
            #[trigger] self.credentials[l]).id
        &&& forall|k: int, l: int|
            0 <= k < l < self.credentials.len() ==> (#[trigger] self.credentials[k]).secret != (
            #[trigger] self.credentials[l]).secret
        &&& forall|i: int, j: int|
            0 <= i < j < self.rows.len() ==> (#[trigger] self.rows[i]).id != (
            #[trigger] self.rows[j]).id
        &&& forall|i: int, j: int|
            0 <= i < j < self.rows.len() ==> !((#[trigger] self.rows[i]).url == (
            #[trigger] self.rows[j]).url && self.rows[i].owner == self.rows[j].owner)
        &&& forall|i: int|
            0 <= i < self.rows.len() ==> self.has_credential((#[trigger] self.rows[i]).owner)
    }

    /// The identity behind a secret, if the store knows the secret.
    pub open spec fn resolve(self, secret: Seq<char>) -> Option<u128> {
        if self.has_secret(secret) {
            Some(self.credentials[choose|k: int| self.secret_at(k, secret)].id)
        } else {
            None
        }
    }

    /// The store after a credential is added, and whether it was: a
    /// credential whose identity or secret is taken is refused.
    pub open spec fn add_credential(
        self,
        id: u128,
        secret: Seq<char>,
        description: Seq<char>,
    ) -> (StoreView, Result<(), StoreFailure>) {
        if self.has_credential(id) || self.has_secret(secret) {
            (self, Err(StoreFailure::Constraint))
        } else {
            (
                StoreView {
                    credentials: self.credentials.push(CredentialView { id, secret, description }),
                    rows: self.rows,
                },
                Ok(()),
            )
        }
    }

    /// The store after a bookmark is created or updated, and the bookmark's
    /// id. Where the owner has a bookmark for the address, its title and tags
    /// are overwritten and its id and creation instant stay. Otherwise a
    /// bookmark with the fresh id and the instant `now` is added, unless the
    /// owner is unknown or the id is taken.
    pub open spec fn upsert(
        self,
        owner: u128,
        url: Seq<char>,
        title: Option<Seq<char>>,
        tags: Seq<Seq<char>>,
        fresh_id: u128,
        now: i64,
    ) -> (StoreView, Result<u128, StoreFailure>) {
        if self.has_row(owner, url) {
            let i = choose|i: int| self.owned_at(i, owner, url);
            let row = self.rows[i];
            (
                StoreView {
                    credentials: self.credentials,
                    rows: self.rows.update(
                        i,
                        RowView {
                            id: row.id,
                            url: row.url,
                            title,
                            tags,
                            created_at: row.created_at,
                            owner: row.owner,
                        },
                    ),
                },
                Ok(row.id),
            )
        } else if !self.has_credential(owner) || self.has_id(fresh_id) {
            (self, Err(StoreFailure::Constraint))
        } else {
            (
                StoreView {
                    credentials: self.credentials,
                    rows: self.rows.push(
                        RowView { id: fresh_id, url, title, tags, created_at: now, owner },
                    ),
                },
                Ok(fresh_id),
            )
        }
    }

    /// The store after the tags of the bookmark with an id are overwritten,
    /// and the number of bookmarks that changed: one, or none if no bookmark
    /// has the id.
    pub open spec fn retag(self, id: u128, tags: Seq<Seq<char>>) -> (StoreView, nat) {
        if self.has_id(id) {
            let i = choose|i: int| self.id_at(i, id);
            let row = self.rows[i];
            (
                StoreView {
                    credentials: self.credentials,
                    rows: self.rows.update(
                        i,
                        RowView {
                            id: row.id,
                            url: row.url,
                            title: row.title,
                            tags,
                            created_at: row.created_at,
                            owner: row.owner,
                        },
                    ),
                },
                1,
            )
        } else {
            (self, 0)
        }
    }

    /// The store after the owner's bookmark for an address is deleted, and
    /// the number of bookmarks deleted: one, or none if there was none.
    pub open spec fn delete(self, owner: u128, url: Seq<char>) -> (StoreView, nat) {
        if self.has_row(owner, url) {
            let i = choose|i: int| self.owned_at(i, owner, url);
            (StoreView { credentials: self.credentials, rows: self.rows.remove(i) }, 1)
        } else {
            (self, 0)
        }
    }

    /// The address of the bookmark with an id, if the owner has such a bookmark.
    pub open spec fn url_of(self, owner: u128, id: u128) -> Option<Seq<char>> {
        if exists|i: int| self.id_at(i, id) && self.rows[i].owner == owner {
            Some(self.rows[choose|i: int| self.id_at(i, id) && self.rows[i].owner == owner].url)
        } else {
            None
        }
    }

    /// The owner's bookmarks that meet every clause, newest first.
    pub open spec fn listing(self, owner: u128, clauses: Seq<ClauseView>) -> Seq<BookmarkView> {
        selected(self.rows, owner, clauses)
    }
}

/// The count of leading bookmarks at least as new as `at`, from its extent.
pub proof fn lemma_newer_count(list: Seq<BookmarkView>, at: i64, p: int)
    requires
        0 <= p <= list.len(),
        forall|k: int| 0 <= k < p ==> list[k].created_at >= at,
        p < list.len() ==> list[p].created_at < at,
    ensures
        newer_count(list, at) == p,
    decreases p,
{
    if p > 0 {
        let rest = list.drop_first();
        assert forall|k: int| 0 <= k < p - 1 implies rest[k].created_at >= at by {
            assert(rest[k] == list[k + 1]);
        }
        if p < list.len() {
            assert(rest[p - 1] == list[p]);
        }
        lemma_newer_count(rest, at, p - 1);
    }
}

impl Store {
    /// A store that holds nothing.
    pub fn new() -> (store: Store)
        ensures
            store@ == StoreView::empty(),
            store@.wf(),
    {
        let store = Store { credentials: Vec::new(), rows: Vec::new() };
        assert(store@.credentials =~= Seq::<CredentialView>::empty());
        assert(store@.rows =~= Seq::<RowView>::empty());
        store
    }

    /// The number of bookmarks in the store, whoever owns them.
    pub fn len(&self) -> (n: usize)
        ensures
            n == self@.rows.len(),
    {
        self.rows.len()
    }

    fn find_credential(&self, id: u128) -> (r: Option<usize>)
        ensures
            match r {
                Some(k) => self@.credential_at(k as int, id),
                None => !self@.has_credential(id),
            },
    {
        let mut k: usize = 0;
        while k < self.credentials.len()
            invariant
                k <= self.credentials.len(),
                forall|l: int| 0 <= l < k ==> !self@.credential_at(l, id),
            decreases self.credentials.len() - k,
        {
            if self.credentials[k].id == id {
                return Some(k);
            }
            k += 1;
        }
        None
    }

    fn find_secret(&self, secret: &String) -> (r: Option<usize>)
        ensures
            match r {
                Some(k) => self@.secret_at(k as int, secret@),
                None => !self@.has_secret(secret@),
            },
    {
        let mut k: usize = 0;
        while k < self.credentials.len()
            invariant
                k <= self.credentials.len(),
                forall|l: int| 0 <= l < k ==> !self@.secret_at(l, secret@),
            decreases self.credentials.len() - k,
        {
            if self.credentials[k].secret == *secret {
                return Some(k);
            }
            k += 1;
        }
        None
    }

    fn find_id(&self, id: u128) -> (r: Option<usize>)
        ensures
            match r {
                Some(i) => self@.id_at(i as int, id),
                None => !self@.has_id(id),
            },
    {
        let mut i: usize = 0;
        while i < self.rows.len()
            invariant
                i <= self.rows.len(),
                forall|j: int| 0 <= j < i ==> !self@.id_at(j, id),
            decreases self.rows.len() - i,
        {
            if self.rows[i].id == id {
                return Some(i);
            }
            i += 1;
        }
        None
    }

    fn find_row(&self, owner: u128, url: &String) -> (r: Option<usize>)
        ensures
            match r {
                Some(i) => self@.owned_at(i as int, owner, url@),
                None => !self@.has_row(owner, url@),
            },
    {
        let mut i: usize = 0;
        while i < self.rows.len()
            invariant
                i <= self.rows.len(),
                forall|j: int| 0 <= j < i ==> !self@.owned_at(j, owner, url@),
            decreases self.rows.len() - i,
        {
            if self.rows[i].owner == owner && self.rows[i].url == *url {
                return Some(i);
            }
            i += 1;
        }
        None
    }

    /// Adds a credential. A credential whose identity or secret the store
    /// already holds is refused and the store stays as it is.
    pub fn create_credential(&mut self, id: u128, secret: &str, description: &str) -> (r: Result<
        (),
        StoreFailure,
    >)
        requires
            old(self)@.wf(),
        ensures
            final(self)@.wf(),
            (final(self)@, r) == old(self)@.add_credential(id, secret@, description@),
    {
        let secret = secret.to_owned();
        if self.find_credential(id).is_some() || self.find_secret(&secret).is_some() {
            return Err(StoreFailure::Constraint);
        }
        let ghost before = self@;
        self.credentials.push(Credential { id, secret, description: description.to_owned() });
        proof {
            let added = CredentialView { id, secret: secret@, description: description@ };
            assert(self@.credentials =~= before.credentials.push(added));
            assert(self@.rows == before.rows);
            assert forall|k: int, l: int| 0 <= k < l < self@.credentials.len() implies (
            #[trigger] self@.credentials[k]).id != (#[trigger] self@.credentials[l]).id
                && self@.credentials[k].secret != self@.credentials[l].secret by {
                if l == before.credentials.len() {
                    assert(!before.credential_at(k, id));
                    assert(!before.secret_at(k, secret@));
                }
            }
            assert forall|i: int| 0 <= i < self@.rows.len() implies self@.has_credential(
                (#[trigger] self@.rows[i]).owner,
            ) by {
                let k = choose|k: int| before.credential_at(k, before.rows[i].owner);
                assert(self@.credential_at(k, self@.rows[i].owner));
            }
        }
        Ok(())
    }

    /// The identity behind a secret, or `None` for a secret the store does
    /// not know.
    pub fn resolve_credential(&self, secret: &str) -> (r: Option<u128>)
        requires
            self@.wf(),
        ensures
            r == self@.resolve(secret@),
    {
        let secret = secret.to_owned();
        match self.find_secret(&secret) {
            Some(k) => {
                proof {
                    let c = choose|c: int| self@.secret_at(c, secret@);
                    lemma_one_credential_per_secret(self@, c, k as int);
                }
                Some(self.credentials[k].id)
            },
            None => None,
        }
    }

    /// Creates the owner's bookmark for an address, or overwrites the title
    /// and tags of the one the owner has. Returns the bookmark's id, which
    /// stays the same however often the address is submitted again.
    ///
    /// `fresh_id` and `now` are used only if a bookmark is created. The
    /// store refuses to create one for an owner it does not know or under
    /// an id that is taken, and then stays as it is.
    pub fn upsert_bookmark(
        &mut self,
        owner: u128,
        url: String,
        title: Option<String>,
        tags: Vec<String>,
        fresh_id: u128,
        now: i64,
    ) -> (r: Result<u128, StoreFailure>)
        requires
            old(self)@.wf(),
        ensures
            final(self)@.wf(),
            (final(self)@, r) == old(self)@.upsert(
                owner,
                url@,
                opt_text(title),
                texts(tags@),
                fresh_id,
                now,
            ),
    {
        let ghost before = self@;
        match self.find_row(owner, &url) {
            Some(i) => {
                let id = self.rows[i].id;
                let created_at = self.rows[i].created_at;
                let row = Row { id, url, title, tags, created_at, owner };
                self.rows.set(i, row);
                proof {
                    let c = choose|c: int| before.owned_at(c, owner, url@);
                    lemma_one_row_per_address(before, c, i as int);
                    assert(self@.rows =~= before.rows.update(i as int, row@));
                    assert(self@.credentials == before.credentials);
                    lemma_update_keeps_wf(before, i as int, row@);
                }
                Ok(id)
            },
            None => {
                if self.find_credential(owner).is_none() || self.find_id(fresh_id).is_some() {
                    return Err(StoreFailure::Constraint);
                }
                let row = Row { id: fresh_id, url, title, tags, created_at: now, owner };
                self.rows.push(row);
                proof {
                    assert(self@.rows =~= before.rows.push(row@));
                    assert(self@.credentials == before.credentials);
                    lemma_push_keeps_wf(before, row@);
                }
                Ok(fresh_id)
            },
        }
    }

    /// Overwrites the tags of the bookmark with the given id, whoever owns
    /// it, and returns how many bookmarks changed. No bookmark with that id
    /// is no failure: nothing changes and the count is zero.
    pub fn update_tags(&mut self, bookmark_id: u128, tags: Vec<String>) -> (changed: u64)
        requires
            old(self)@.wf(),
        ensures
            final(self)@.wf(),
            (final(self)@, changed as nat) == old(self)@.retag(bookmark_id, texts(tags@)),
    {
        let ghost before = self@;
        match self.find_id(bookmark_id) {
            Some(i) => {
                let old_row = &self.rows[i];
                let title = match &old_row.title {
                    Some(t) => Some(t.clone()),
                    None => None,
                };
                let row = Row {
                    id: old_row.id,
                    url: old_row.url.clone(),
                    title,
                    tags,
                    created_at: old_row.created_at,
                    owner: old_row.owner,
                };
                self.rows.set(i, row);
                proof {
                    let c = choose|c: int| before.id_at(c, bookmark_id);
                    lemma_one_row_per_id(before, c, i as int);
                    assert(self@.rows =~= before.rows.update(i as int, row@));
                    assert(self@.credentials == before.credentials);
                    lemma_update_keeps_wf(before, i as int, row@);
                }
                1
            },
            None => 0,
        }
    }

    /// Deletes the owner's bookmark for an address and returns how many
    /// bookmarks were deleted: one, or none if the owner had none for it.
    pub fn delete_by_url(&mut self, owner: u128, url: &str) -> (deleted: u64)
        requires
            old(self)@.wf(),
        ensures
            final(self)@.wf(),
            (final(self)@, deleted as nat) == old(self)@.delete(owner, url@),
    {
        let ghost before = self@;
        let url = url.to_owned();
        match self.find_row(owner, &url) {
            Some(i) => {
                self.rows.remove(i);
                proof {
                    let c = choose|c: int| before.owned_at(c, owner, url@);
                    lemma_one_row_per_address(before, c, i as int);
                    assert(self@.rows =~= before.rows.remove(i as int));
                    assert(self@.credentials == before.credentials);
                    lemma_remove_keeps_wf(before, i as int);
                }
                1
            },
            None => 0,
        }
    }

    /// The address of the bookmark with the given id if `owner` owns it;
    /// `None` where there is no such bookmark or it belongs to another.
    pub fn get_url(&self, owner: u128, bookmark_id: u128) -> (r: Option<String>)
        requires
            self@.wf(),
        ensures
            opt_text(r) == self@.url_of(owner, bookmark_id),
    {
        match self.find_id(bookmark_id) {
            Some(i) => {
                proof {
                    assert forall|c: int| self@.id_at(c, bookmark_id) implies c == i by {
                        lemma_one_row_per_id(self@, c, i as int);
                    }
                }
                if self.rows[i].owner == owner {
                    assert(self@.id_at(i as int, bookmark_id) && self@.rows[i as int].owner == owner);
                    Some(self.rows[i].url.clone())
                } else {
                    None
                }
            },
            None => None,
        }
    }

    /// The owner's bookmarks that meet every clause, newest first.
    pub fn list_matching(&self, owner: u128, clauses: &Vec<Clause>) -> (out: Vec<Bookmark>)
        ensures
            bookmark_views(out@) == self@.listing(owner, clause_views(clauses@)),
    {
        let mut out: Vec<Bookmark> = Vec::new();
        let ghost all = self@.rows;
        let ghost filter = clause_views(clauses@);
        let mut i: usize = 0;
        assert(all.take(0) =~= Seq::<RowView>::empty());
        assert(bookmark_views(out@) =~= Seq::<BookmarkView>::empty());
        while i < self.rows.len()
            invariant
                i <= self.rows.len(),
                all == self@.rows,
                filter == clause_views(clauses@),
                bookmark_views(out@) == selected(all.take(i as int), owner, filter),
            decreases self.rows.len() - i,
        {
            let row = &self.rows[i];
            proof {
                let upto = all.take(i + 1);
                assert(upto.drop_last() =~= all.take(i as int));
                assert(upto.last() == row@);
            }
            if row.owner == owner && filter_matches(clauses, row) {
                let ghost before = bookmark_views(out@);
                let mut p: usize = 0;
                while p < out.len() && out[p].created_at >= row.created_at
                    invariant
                        p <= out.len(),
                        forall|k: int| 0 <= k < p ==> out@[k].created_at >= row.created_at,
                    decreases out.len() - p,
                {
                    p += 1;
                }
                let b = row.to_bookmark();
                proof {
                    lemma_newer_count(before, row.created_at, p as int);
                }
                out.insert(p, b);
                assert(bookmark_views(out@) =~= before.insert(p as int, b@));
            }
            i += 1;
        }
        assert(all.take(self.rows.len() as int) =~= all);
        out
    }

    /// Answers a list request: the owner's bookmarks under the filter that
    /// the query describes, newest first.
    pub fn list_bookmarks(&self, owner: u128, params: &SearchParams) -> (out: Vec<Bookmark>)
        ensures
            bookmark_views(out@) == self@.listing(owner, params_clauses(params@)),
    {
        let clauses = filter_clauses(params);
        self.list_matching(owner, &clauses)
    }

    /// Answers a sync request: all of the owner's bookmarks, newest first.
    pub fn sync_bookmarks(&self, owner: u128) -> (out: Vec<Bookmark>)
        ensures
            bookmark_views(out@) == self@.listing(owner, Seq::empty()),
    {
        let clauses: Vec<Clause> = Vec::new();
        assert(clause_views(clauses@) =~= Seq::<ClauseView>::empty());
        self.list_matching(owner, &clauses)
    }
}

/// Two credentials of a store with the same secret are one credential.
pub proof fn lemma_one_credential_per_secret(s: StoreView, k: int, l: int)
    requires
        s.wf(),
        0 <= k < s.credentials.len(),
        0 <= l < s.credentials.len(),
        s.credentials[k].secret == s.credentials[l].secret,
    ensures
        k == l,
{
    if k < l {
        assert((#[trigger] s.credentials[k]).secret != (#[trigger] s.credentials[l]).secret);
    }
    if l < k {
        assert((#[trigger] s.credentials[l]).secret != (#[trigger] s.credentials[k]).secret);
    }
}

/// Two rows of a store with the same id are one row.
pub proof fn lemma_one_row_per_id(s: StoreView, i: int, j: int)
    requires
        s.wf(),
        0 <= i < s.rows.len(),
        0 <= j < s.rows.len(),
        s.rows[i].id == s.rows[j].id,
    ensures
        i == j,
{
    if i < j {
        assert((#[trigger] s.rows[i]).id != (#[trigger] s.rows[j]).id);
    }
    if j < i {
        assert((#[trigger] s.rows[j]).id != (#[trigger] s.rows[i]).id);
    }
}

/// Two rows of a store with the same owner and address are one row.
pub proof fn lemma_one_row_per_address(s: StoreView, i: int, j: int)
    requires
        s.wf(),
        0 <= i < s.rows.len(),
        0 <= j < s.rows.len(),
        s.rows[i].owner == s.rows[j].owner,
        s.rows[i].url == s.rows[j].url,
    ensures
        i == j,
{
    if i < j {
        assert(!((#[trigger] s.rows[i]).url == (#[trigger] s.rows[j]).url && s.rows[i].owner
            == s.rows[j].owner));
    }
    if j < i {
        assert(!((#[trigger] s.rows[j]).url == (#[trigger] s.rows[i]).url && s.rows[j].owner
            == s.rows[i].owner));
    }
}

/// Overwriting the title and tags of a row keeps the store's rules.
pub proof fn lemma_update_keeps_wf(s: StoreView, i: int, row: RowView)
    requires
        s.wf(),
        0 <= i < s.rows.len(),
        row.id == s.rows[i].id,
        row.url == s.rows[i].url,
        row.owner == s.rows[i].owner,
    ensures
        (StoreView { credentials: s.credentials, rows: s.rows.update(i, row) }).wf(),
{
    let t = StoreView { credentials: s.credentials, rows: s.rows.update(i, row) };
    assert forall|a: int, b: int| 0 <= a < b < t.rows.len() implies (#[trigger] t.rows[a]).id != (
    #[trigger] t.rows[b]).id && !(t.rows[a].url == t.rows[b].url && t.rows[a].owner
        == t.rows[b].owner) by {
        assert(s.rows[a].id != s.rows[b].id);
        assert(!(s.rows[a].url == s.rows[b].url && s.rows[a].owner == s.rows[b].owner));
    }
    assert forall|a: int| 0 <= a < t.rows.len() implies t.has_credential(
        (#[trigger] t.rows[a]).owner,
    ) by {
        let k = choose|k: int| s.credential_at(k, s.rows[a].owner);
        assert(t.credential_at(k, t.rows[a].owner));
    }
}

/// Adding a row with an unused id, for an address its owner has no bookmark
/// for, under a known owner, keeps the store's rules.
pub proof fn lemma_push_keeps_wf(s: StoreView, row: RowView)
    requires
        s.wf(),
        !s.has_id(row.id),
        !s.has_row(row.owner, row.url),
        s.has_credential(row.owner),
    ensures
        (StoreView { credentials: s.credentials, rows: s.rows.push(row) }).wf(),
{
    let t = StoreView { credentials: s.credentials, rows: s.rows.push(row) };
    assert forall|a: int, b: int| 0 <= a < b < t.rows.len() implies (#[trigger] t.rows[a]).id != (
    #[trigger] t.rows[b]).id && !(t.rows[a].url == t.rows[b].url && t.rows[a].owner
        == t.rows[b].owner) by {
        if b == s.rows.len() {
            assert(!s.id_at(a, row.id));
            assert(!s.owned_at(a, row.owner, row.url));
        } else {
            assert(s.rows[a].id != s.rows[b].id);
            assert(!(s.rows[a].url == s.rows[b].url && s.rows[a].owner == s.rows[b].owner));
        }
    }
    assert forall|a: int| 0 <= a < t.rows.len() implies t.has_credential(
        (#[trigger] t.rows[a]).owner,
    ) by {
        let owner = t.rows[a].owner;
        if a < s.rows.len() {
            assert(s.has_credential(s.rows[a].owner));
        }
        let k = choose|k: int| s.credential_at(k, owner);
        assert(t.credential_at(k, owner));
    }
}

/// Removing a row keeps the store's rules.
pub proof fn lemma_remove_keeps_wf(s: StoreView, i: int)
    requires
        s.wf(),
        0 <= i < s.rows.len(),
    ensures
        (StoreView { credentials: s.credentials, rows: s.rows.remove(i) }).wf(),
{
    let t = StoreView { credentials: s.credentials, rows: s.rows.remove(i) };
    assert forall|a: int, b: int| 0 <= a < b < t.rows.len() implies (#[trigger] t.rows[a]).id != (
    #[trigger] t.rows[b]).id && !(t.rows[a].url == t.rows[b].url && t.rows[a].owner
        == t.rows[b].owner) by {
        let a0 = if a < i { a } else { a + 1 };
        let b0 = if b < i { b } else { b + 1 };
        assert(t.rows[a] == s.rows[a0]);
        assert(t.rows[b] == s.rows[b0]);
        assert(s.rows[a0].id != s.rows[b0].id);
        assert(!(s.rows[a0].url == s.rows[b0].url && s.rows[a0].owner == s.rows[b0].owner));
    }
    assert forall|a: int| 0 <= a < t.rows.len() implies t.has_credential(
        (#[trigger] t.rows[a]).owner,
    ) by {
        let a0 = if a < i { a } else { a + 1 };
        assert(t.rows[a] == s.rows[a0]);
        assert(s.has_credential(s.rows[a0].owner));
        let k = choose|k: int| s.credential_at(k, s.rows[a0].owner);
        assert(t.credential_at(k, t.rows[a].owner));
    }
}

} // verus!
