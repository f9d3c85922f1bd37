//! What holds of the store whatever it contains: listings, isolation between
//! credentials, and the effect of creating, deleting and tagging bookmarks.

use vstd::prelude::*;
use crate::filter::{
    filter_holds, is_blank, lemma_no_text_no_tokens, params_clauses, ClauseView,
};
use crate::model::{BookmarkView, RowView, SearchParamsView};
use crate::store::{
    lemma_one_row_per_address, lemma_one_row_per_id, lemma_push_keeps_wf, lemma_remove_keeps_wf,
    lemma_update_keeps_wf, newer_count, newest_first, placed, selected, shown, StoreView,
};
use crate::text::texts;
use crate::worker::{answers, Action, Event, Worker};

verus! {

/// Whether the row at `i` is shown in a listing as the bookmark `x`.
pub open spec fn shows(
    rows: Seq<RowView>,
    owner: u128,
    clauses: Seq<ClauseView>,
    i: int,
    x: BookmarkView,
) -> bool {
    0 <= i < rows.len() && shown(rows[i], owner, clauses) && rows[i].bookmark() == x
}

/// Whether the ids of a list of rows are all different.
pub open spec fn distinct_ids(rows: Seq<RowView>) -> bool {
    forall|i: int, j: int| 0 <= i < j < rows.len() ==> (#[trigger] rows[i]).id != (
    #[trigger] rows[j]).id
}

/// The bookmarks counted by `newer_count` are at least as new as the
/// instant, and the one after them, if any, is older.
pub proof fn lemma_newer_count_bounds(list: Seq<BookmarkView>, at: i64)
    ensures
        0 <= newer_count(list, at) <= list.len(),
        forall|k: int| 0 <= k < newer_count(list, at) ==> list[k].created_at >= at,
        newer_count(list, at) < list.len() ==> list[newer_count(list, at)].created_at < at,
    decreases list.len(),
{
    if list.len() > 0 && list[0].created_at >= at {
        let rest = list.drop_first();
        lemma_newer_count_bounds(rest, at);
        let p = newer_count(rest, at);
        assert forall|k: int| 0 <= k < p + 1 implies list[k].created_at >= at by {
            if k > 0 {
                assert(rest[k - 1] == list[k]);
            }
        }
        if p + 1 < list.len() {
            assert(rest[p] == list[p + 1]);
        }
    }
}

/// Placing a bookmark keeps a list in order from newest to oldest.
pub proof fn lemma_placed_newest_first(list: Seq<BookmarkView>, b: BookmarkView)
    requires
        newest_first(list),
    ensures
        newest_first(placed(list, b)),
{
    let at = b.created_at;
    let p = newer_count(list, at);
    lemma_newer_count_bounds(list, at);
    list.insert_ensures(p, b);
    let out = placed(list, b);
    assert forall|i: int, j: int| 0 <= i < j < out.len() implies out[i].created_at
        >= out[j].created_at by {
        if j < p {
            assert(out[i] == list[i] && out[j] == list[j]);
        } else if j == p {
            assert(out[i] == list[i] && out[j] == b);
        } else {
            assert(out[(j - 1) + 1] == list[j - 1]);
            if i < p {
                assert(out[i] == list[i]);
            } else if i == p {
                assert(out[i] == b);
                assert(list[p].created_at < at);
            } else {
                assert(out[(i - 1) + 1] == list[i - 1]);
            }
        }
    }
}

/// Placing a bookmark adds it to a list and changes nothing else.
pub proof fn lemma_placed_members(list: Seq<BookmarkView>, b: BookmarkView)
    ensures
        placed(list, b).len() == list.len() + 1,
        forall|x: BookmarkView| #[trigger]
            placed(list, b).contains(x) <==> (list.contains(x) || x == b),
{
    let p = newer_count(list, b.created_at);
    lemma_newer_count_bounds(list, b.created_at);
    list.insert_ensures(p, b);
    let out = placed(list, b);
    assert forall|x: BookmarkView| #[trigger] out.contains(x) <==> (list.contains(x) || x == b) by {
        if out.contains(x) {
            let k = choose|k: int| 0 <= k < out.len() && out[k] == x;
            if k < p {
                assert(list[k] == x);
            } else if k > p {
                assert(out[(k - 1) + 1] == list[k - 1]);
                assert(list[k - 1] == x);
            }
        }
        if list.contains(x) {
            let m = choose|m: int| 0 <= m < list.len() && list[m] == x;
            if m < p {
                assert(out[m] == x);
            } else {
                assert(out[m + 1] == x);
            }
        }
        if x == b {
            assert(out[p] == x);
        }
    }
}

/// A listing holds exactly the bookmarks of the rows that belong to the
/// owner and meet every clause.
pub proof fn lemma_selected_members(rows: Seq<RowView>, owner: u128, clauses: Seq<ClauseView>)
    ensures
        forall|x: BookmarkView| #[trigger]
            selected(rows, owner, clauses).contains(x) <==> exists|i: int|
                shows(rows, owner, clauses, i, x),
        selected(rows, owner, clauses).len() <= rows.len(),
    decreases rows.len(),
{
    let out = selected(rows, owner, clauses);
    if rows.len() == 0 {
        assert forall|x: BookmarkView| #[trigger] out.contains(x) <==> exists|i: int|
            shows(rows, owner, clauses, i, x) by {}
    } else {
        let front = rows.drop_last();
        let rest = selected(front, owner, clauses);
        let last = rows.last();
        lemma_selected_members(front, owner, clauses);
        if shown(last, owner, clauses) {
            lemma_placed_members(rest, last.bookmark());
        }
        assert forall|x: BookmarkView| #[trigger] out.contains(x) <==> exists|i: int|
            shows(rows, owner, clauses, i, x) by {
            if out.contains(x) {
                if rest.contains(x) {
                    let i = choose|i: int| shows(front, owner, clauses, i, x);
                    assert(front[i] == rows[i]);
                    assert(shows(rows, owner, clauses, i, x));
                } else {
                    assert(shows(rows, owner, clauses, rows.len() - 1, x));
                }
            }
            if exists|i: int| shows(rows, owner, clauses, i, x) {
                let i = choose|i: int| shows(rows, owner, clauses, i, x);
                if i < rows.len() - 1 {
                    assert(front[i] == rows[i]);
                    assert(shows(front, owner, clauses, i, x));
                    assert(rest.contains(x));
                }
            }
        }
    }
}

/// A listing runs from the newest bookmark to the oldest.
pub proof fn lemma_selected_newest_first(
    rows: Seq<RowView>,
    owner: u128,
    clauses: Seq<ClauseView>,
)
    ensures
        newest_first(selected(rows, owner, clauses)),
    decreases rows.len(),
{
    if rows.len() > 0 {
        lemma_selected_newest_first(rows.drop_last(), owner, clauses);
        if shown(rows.last(), owner, clauses) {
            lemma_placed_newest_first(
                selected(rows.drop_last(), owner, clauses),
                rows.last().bookmark(),
            );
        }
    }
}

/// A listing of rows with different ids shows no bookmark twice.
pub proof fn lemma_selected_distinct(rows: Seq<RowView>, owner: u128, clauses: Seq<ClauseView>)
    requires
        distinct_ids(rows),
    ensures
        forall|k: int, l: int|
            0 <= k < l < selected(rows, owner, clauses).len() ==> selected(rows, owner, clauses)[k].id
                != selected(rows, owner, clauses)[l].id,
    decreases rows.len(),
{
    if rows.len() > 0 {
        let front = rows.drop_last();
        let rest = selected(front, owner, clauses);
        let last = rows.last();
        assert(distinct_ids(front)) by {
            assert forall|i: int, j: int| 0 <= i < j < front.len() implies (#[trigger] front[i]).id
                != (#[trigger] front[j]).id by {
                assert(rows[i].id != rows[j].id);
            }
        }
        lemma_selected_distinct(front, owner, clauses);
        if shown(last, owner, clauses) {
            let b = last.bookmark();
            let p = newer_count(rest, b.created_at);
            lemma_newer_count_bounds(rest, b.created_at);
            rest.insert_ensures(p, b);
            lemma_selected_members(front, owner, clauses);
            let out = placed(rest, b);
            assert forall|m: int| 0 <= m < rest.len() implies rest[m].id != b.id by {
                assert(rest.contains(rest[m]));
                let i = choose|i: int| shows(front, owner, clauses, i, rest[m]);
                assert(front[i] == rows[i]);
                assert(rows[i].id != rows[rows.len() - 1].id);
            }
            assert forall|k: int, l: int| 0 <= k < l < out.len() implies out[k].id
                != out[l].id by {
                let k0 = if k < p { k } else { k - 1 };
                let l0 = if l < p { l } else { l - 1 };
                if k != p {
                    assert(out[k] == rest[k0]) by {
                        if k > p {
                            assert(out[(k - 1) + 1] == rest[k - 1]);
                        }
                    }
                }
                if l != p {
                    assert(out[l] == rest[l0]) by {
                        if l > p {
                            assert(out[(l - 1) + 1] == rest[l - 1]);
                        }
                    }
                }
            }
        }
    }
}

/// A credential has at most one bookmark for an address: two rows of a
/// store with the same owner and address are one row.
pub proof fn law_one_bookmark_per_address(s: StoreView, i: int, j: int)
    requires
        s.wf(),
        0 <= i < s.rows.len(),
        0 <= j < s.rows.len(),
        s.rows[i].owner == s.rows[j].owner,
        s.rows[i].url == s.rows[j].url,
    ensures
        i == j,
{
    lemma_one_row_per_address(s, i, j);
}

/// Creating or updating a bookmark keeps the store's rules.
pub proof fn lemma_upsert_keeps_wf(
    s: StoreView,
    owner: u128,
    url: Seq<char>,
    title: Option<Seq<char>>,
    tags: Seq<Seq<char>>,
    fresh_id: u128,
    now: i64,
)
    requires
        s.wf(),
    ensures
        s.upsert(owner, url, title, tags, fresh_id, now).0.wf(),
{
    if s.has_row(owner, url) {
        let i = choose|i: int| s.owned_at(i, owner, url);
        let row = s.rows[i];
        lemma_update_keeps_wf(
            s,
            i,
            RowView { id: row.id, url: row.url, title, tags, created_at: row.created_at, owner: row.owner },
        );
    } else if !s.has_credential(owner) || s.has_id(fresh_id) {
    } else {
        lemma_push_keeps_wf(s, RowView { id: fresh_id, url, title, tags, created_at: now, owner });
    }
}

/// After a bookmark is created or updated with success, its owner has a
/// bookmark for the address, and that bookmark has the id returned.
pub proof fn lemma_upsert_stores(
    s: StoreView,
    owner: u128,
    url: Seq<char>,
    title: Option<Seq<char>>,
    tags: Seq<Seq<char>>,
    fresh_id: u128,
    now: i64,
) -> (i: int)
    requires
        s.wf(),
        s.upsert(owner, url, title, tags, fresh_id, now).1 is Ok,
    ensures
        ({
            let (t, r) = s.upsert(owner, url, title, tags, fresh_id, now);
            &&& t.owned_at(i, owner, url)
            &&& r == Ok::<u128, crate::store::StoreFailure>(t.rows[i].id)
            &&& t.rows[i].title == title
            &&& t.rows[i].tags == tags
        }),
{
    if s.has_row(owner, url) {
        choose|i: int| s.owned_at(i, owner, url)
    } else {
        s.rows.len() as int
    }
}

/// Submitting an address a second time under the same credential keeps the
/// bookmark's id and creation instant, overwrites its title and tags, and
/// neither adds nor removes a bookmark.
pub proof fn law_second_create_overwrites(
    s: StoreView,
    owner: u128,
    url: Seq<char>,
    title1: Option<Seq<char>>,
    tags1: Seq<Seq<char>>,
    id1: u128,
    now1: i64,
    title2: Option<Seq<char>>,
    tags2: Seq<Seq<char>>,
    id2: u128,
    now2: i64,
) -> (i: int)
    requires
        s.wf(),
        s.upsert(owner, url, title1, tags1, id1, now1).1 is Ok,
    ensures
        ({
            let (s1, r1) = s.upsert(owner, url, title1, tags1, id1, now1);
            let (s2, r2) = s1.upsert(owner, url, title2, tags2, id2, now2);
            &&& r2 == r1
            &&& s2.wf()
            &&& s2.credentials == s1.credentials
            &&& s2.rows.len() == s1.rows.len()
            &&& s1.owned_at(i, owner, url)
            &&& s2.owned_at(i, owner, url)
            &&& s2.rows[i].id == s1.rows[i].id
            &&& s2.rows[i].created_at == s1.rows[i].created_at
            &&& s2.rows[i].title == title2
            &&& s2.rows[i].tags == tags2
            &&& forall|j: int| 0 <= j < s1.rows.len() && j != i ==> s2.rows[j] == s1.rows[j]
        }),
{
    let (s1, r1) = s.upsert(owner, url, title1, tags1, id1, now1);
    lemma_upsert_keeps_wf(s, owner, url, title1, tags1, id1, now1);
    let i = lemma_upsert_stores(s, owner, url, title1, tags1, id1, now1);
    assert(s1.has_row(owner, url));
    let c = choose|c: int| s1.owned_at(c, owner, url);
    law_one_bookmark_per_address(s1, c, i);
    lemma_upsert_keeps_wf(s1, owner, url, title2, tags2, id2, now2);
    i
}

/// After a bookmark is created and then deleted by its address, the owner
/// has no bookmark for the address, and no listing of the owner shows one.
pub proof fn law_create_delete_list(
    s: StoreView,
    owner: u128,
    url: Seq<char>,
    title: Option<Seq<char>>,
    tags: Seq<Seq<char>>,
    fresh_id: u128,
    now: i64,
    clauses: Seq<ClauseView>,
)
    requires
        s.wf(),
    ensures
        ({
            let (s1, r1) = s.upsert(owner, url, title, tags, fresh_id, now);
            let (s2, deleted) = s1.delete(owner, url);
            &&& s2.wf()
            &&& r1 is Ok ==> deleted == 1
            &&& !s2.has_row(owner, url)
            &&& forall|k: int|
                0 <= k < s2.listing(owner, clauses).len() ==> (#[trigger] s2.listing(
                    owner,
                    clauses,
                )[k]).url != url
        }),
{
    let (s1, r1) = s.upsert(owner, url, title, tags, fresh_id, now);
    lemma_upsert_keeps_wf(s, owner, url, title, tags, fresh_id, now);
    if r1 is Ok {
        let i = lemma_upsert_stores(s, owner, url, title, tags, fresh_id, now);
        assert(s1.has_row(owner, url));
    }
    let (s2, deleted) = s1.delete(owner, url);
    lemma_delete_removes(s1, owner, url);
    lemma_selected_members(s2.rows, owner, clauses);
    let out = s2.listing(owner, clauses);
    assert forall|k: int| 0 <= k < out.len() implies (#[trigger] out[k]).url != url by {
        assert(out.contains(out[k]));
        let i = choose|i: int| shows(s2.rows, owner, clauses, i, out[k]);
        if out[k].url == url {
            assert(s2.owned_at(i, owner, url));
        }
    }
}

/// After a delete by address the owner has no bookmark for the address,
/// and every other bookmark is still there.
pub proof fn lemma_delete_removes(s: StoreView, owner: u128, url: Seq<char>)
    requires
        s.wf(),
    ensures
        s.delete(owner, url).0.wf(),
        !s.delete(owner, url).0.has_row(owner, url),
        forall|i: int|
            0 <= i < s.rows.len() && !s.owned_at(i, owner, url) ==> s.delete(owner, url).0.rows.contains(
                #[trigger] s.rows[i],
            ),
{
    let t = s.delete(owner, url).0;
    if s.has_row(owner, url) {
        let c = choose|c: int| s.owned_at(c, owner, url);
        lemma_remove_keeps_wf(s, c);
        s.rows.remove_ensures(c);
        assert forall|j: int| !t.owned_at(j, owner, url) by {
            if 0 <= j < t.rows.len() {
                let j0 = if j < c { j } else { j + 1 };
                assert(t.rows[j] == s.rows[j0]);
                if t.owned_at(j, owner, url) {
                    law_one_bookmark_per_address(s, c, j0);
                }
            }
        }
        assert forall|i: int| 0 <= i < s.rows.len() && !s.owned_at(i, owner, url) implies t.rows.contains(
            #[trigger] s.rows[i],
        ) by {
            if i < c {
                assert(t.rows[i] == s.rows[i]);
            } else {
                assert(t.rows[i - 1] == s.rows[i]);
            }
        }
    } else {
        assert forall|i: int| 0 <= i < s.rows.len() implies t.rows.contains(#[trigger] s.rows[i]) by {
            assert(t.rows[i] == s.rows[i]);
        }
    }
}

/// A create touches one bookmark at most: every bookmark of another
/// credential, and every bookmark of the same credential for another
/// address, is afterwards what and where it was before.
pub proof fn law_create_touches_one_row(
    s: StoreView,
    owner: u128,
    url: Seq<char>,
    title: Option<Seq<char>>,
    tags: Seq<Seq<char>>,
    fresh_id: u128,
    now: i64,
    i: int,
)
    requires
        s.wf(),
        0 <= i < s.rows.len(),
        !(s.rows[i].owner == owner && s.rows[i].url == url),
    ensures
        s.upsert(owner, url, title, tags, fresh_id, now).0.rows.len() >= s.rows.len(),
        s.upsert(owner, url, title, tags, fresh_id, now).0.rows[i] == s.rows[i],
        s.upsert(owner, url, title, tags, fresh_id, now).0.credentials == s.credentials,
{
    if s.has_row(owner, url) {
        let c = choose|c: int| s.owned_at(c, owner, url);
        assert(c != i);
    }
}

/// Of two overwrites of a bookmark's tags the later wins: the store is as
/// if the earlier had never been.
pub proof fn law_later_tags_win(
    s: StoreView,
    id: u128,
    earlier: Seq<Seq<char>>,
    later: Seq<Seq<char>>,
)
    requires
        s.wf(),
    ensures
        s.retag(id, earlier).0.retag(id, later).0 == s.retag(id, later).0,
        s.retag(id, earlier).1 == s.retag(id, later).1,
        s.retag(id, earlier).0.retag(id, later).1 == s.retag(id, later).1,
{
    if s.has_id(id) {
        let i = choose|i: int| s.id_at(i, id);
        let row = s.rows[i];
        let s1 = s.retag(id, earlier).0;
        lemma_update_keeps_wf(
            s,
            i,
            RowView {
                id: row.id,
                url: row.url,
                title: row.title,
                tags: earlier,
                created_at: row.created_at,
                owner: row.owner,
            },
        );
        assert(s1.id_at(i, id));
        let c = choose|c: int| s1.id_at(c, id);
        lemma_one_row_per_id(s1, c, i);
        assert(s1.retag(id, later).0.rows =~= s.retag(id, later).0.rows);
    } else {
        let s1 = s.retag(id, earlier).0;
        assert(s1 == s);
    }
}

/// A listing shows the caller's own bookmarks and no others: each bookmark
/// in it is that of a row the caller owns and that meets every clause, each
/// such row is shown exactly once, and the newest comes first.
pub proof fn law_listing_is_owned(s: StoreView, owner: u128, clauses: Seq<ClauseView>)
    requires
        s.wf(),
    ensures
        forall|k: int|
            0 <= k < s.listing(owner, clauses).len() ==> exists|i: int|
                0 <= i < s.rows.len() && s.rows[i].owner == owner && filter_holds(clauses, s.rows[i])
                    && s.rows[i].bookmark() == #[trigger] s.listing(owner, clauses)[k],
        forall|i: int|
            0 <= i < s.rows.len() && s.rows[i].owner == owner && filter_holds(clauses, s.rows[i])
                ==> s.listing(owner, clauses).contains((#[trigger] s.rows[i]).bookmark()),
        forall|k: int, l: int|
            0 <= k < l < s.listing(owner, clauses).len() ==> s.listing(owner, clauses)[k].id
                != s.listing(owner, clauses)[l].id,
        newest_first(s.listing(owner, clauses)),
{
    let out = s.listing(owner, clauses);
    lemma_selected_members(s.rows, owner, clauses);
    lemma_selected_newest_first(s.rows, owner, clauses);
    lemma_selected_distinct(s.rows, owner, clauses);
    assert forall|k: int| 0 <= k < out.len() implies exists|i: int|
        0 <= i < s.rows.len() && s.rows[i].owner == owner && filter_holds(clauses, s.rows[i])
            && s.rows[i].bookmark() == #[trigger] out[k] by {
        assert(out.contains(out[k]));
        let i = choose|i: int| shows(s.rows, owner, clauses, i, out[k]);
        assert(0 <= i < s.rows.len() && s.rows[i].owner == owner && filter_holds(clauses, s.rows[i])
            && s.rows[i].bookmark() == out[k]);
    }
    assert forall|i: int|
        0 <= i < s.rows.len() && s.rows[i].owner == owner && filter_holds(
            clauses,
            s.rows[i],
        ) implies out.contains((#[trigger] s.rows[i]).bookmark()) by {
        assert(shows(s.rows, owner, clauses, i, s.rows[i].bookmark()));
    }
}

/// No listing of one credential shows a bookmark of another.
pub proof fn law_listing_hides_foreign_rows(
    s: StoreView,
    caller: u128,
    clauses: Seq<ClauseView>,
    i: int,
)
    requires
        s.wf(),
        0 <= i < s.rows.len(),
        s.rows[i].owner != caller,
    ensures
        forall|k: int|
            0 <= k < s.listing(caller, clauses).len() ==> (#[trigger] s.listing(caller, clauses)[k]).id
                != s.rows[i].id,
{
    let out = s.listing(caller, clauses);
    lemma_selected_members(s.rows, caller, clauses);
    assert forall|k: int| 0 <= k < out.len() implies (#[trigger] out[k]).id != s.rows[i].id by {
        assert(out.contains(out[k]));
        let j = choose|j: int| shows(s.rows, caller, clauses, j, out[k]);
        if out[k].id == s.rows[i].id {
            lemma_one_row_per_id(s, j, i);
        }
    }
}

/// A list request whose fields are all absent or empty is a sync request:
/// both give the same bookmarks in the same order.
pub proof fn law_unfiltered_list_is_sync(s: StoreView, owner: u128, params: SearchParamsView)
    requires
        is_blank(params.q),
        is_blank(params.title),
        is_blank(params.tag),
        params.start_date is None,
        params.end_date is None,
    ensures
        s.listing(owner, params_clauses(params)) == s.listing(owner, Seq::empty()),
{
    if params.tag is Some {
        lemma_no_text_no_tokens(params.tag.unwrap());
    }
    assert(params_clauses(params) =~= Seq::<ClauseView>::empty());
}

/// The address of a bookmark is given to its owner only: for any other
/// caller the bookmark is as good as absent.
pub proof fn law_foreign_bookmark_is_absent(s: StoreView, caller: u128, i: int)
    requires
        s.wf(),
        0 <= i < s.rows.len(),
        s.rows[i].owner != caller,
    ensures
        s.url_of(caller, s.rows[i].id) is None,
{
    let id = s.rows[i].id;
    assert forall|j: int| !(s.id_at(j, id) && s.rows[j].owner == caller) by {
        if s.id_at(j, id) {
            lemma_one_row_per_id(s, j, i);
        }
    }
}

/// The tags that a worker asks to store replace those of its bookmark in
/// one step: afterwards the bookmark has exactly the new tags, at most
/// six, and nothing else in the store has changed.
pub proof fn law_worker_pass_overwrites(
    s: StoreView,
    i: int,
    worker: Worker,
    event: Event,
    next: Worker,
    action: Action,
)
    requires
        s.wf(),
        s.id_at(i, worker.bookmark_id),
        answers(worker, event, next, action),
        action is StoreTags,
    ensures
        ({
            let tags = texts(action->tags@);
            let (t, changed) = s.retag(action->bookmark_id, tags);
            &&& action->bookmark_id == worker.bookmark_id
            &&& changed == 1
            &&& t.wf()
            &&& t.credentials == s.credentials
            &&& t.rows.len() == s.rows.len()
            &&& t.rows[i].tags == tags
            &&& t.rows[i].tags.len() <= 6
            &&& t.rows[i].id == s.rows[i].id
            &&& t.rows[i].url == s.rows[i].url
            &&& t.rows[i].title == s.rows[i].title
            &&& t.rows[i].created_at == s.rows[i].created_at
            &&& t.rows[i].owner == s.rows[i].owner
            &&& forall|j: int| 0 <= j < s.rows.len() && j != i ==> t.rows[j] == s.rows[j]
        }),
{
    let id = worker.bookmark_id;
    assert(s.has_id(id));
    let c = choose|c: int| s.id_at(c, id);
    lemma_one_row_per_id(s, c, i);
    let row = s.rows[i];
    let tags = texts(action->tags@);
    assert(tags.len() == action->tags@.len());
    lemma_update_keeps_wf(
        s,
        i,
        RowView {
            id: row.id,
            url: row.url,
            title: row.title,
            tags,
            created_at: row.created_at,
            owner: row.owner,
        },
    );
}

} // verus!
