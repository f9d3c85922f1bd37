//! The statements sent to the relational store.
//!
//! A statement is a text with numbered placeholders and the values bound to
//! them. Whatever a client supplied travels as a bound value; the text is
//! made of fixed fragments and placeholders only. The statement of a list
//! request is put together by `sqlx`'s query builder, clause by clause.

use vstd::prelude::*;
use vstd::string::*;
use vstd::utf8::encode_utf8;
use crate::filter::{clause_views, filter_clauses, params_clauses, Clause, ClauseView};
use crate::model::SearchParams;
use crate::text::{opt_text, texts};

verus! {

/// A value bound to a placeholder.
#[derive(Debug, Clone, PartialEq, Eq)]
pub enum Bind {
    /// A 128-bit identifier.
    Id(u128),
    /// A text.
    Text(String),
    /// A text that may be absent.
    MaybeText(Option<String>),
    /// A list of texts.
    TextList(Vec<String>),
    /// An instant, in microseconds since the Unix epoch.
    Instant(i64),
}

/// A bound value as a mathematical value.
pub enum BindView {
    Id(u128),
    Text(Seq<char>),
    MaybeText(Option<Seq<char>>),
    TextList(Seq<Seq<char>>),
    Instant(i64),
}

impl View for Bind {
    type V = BindView;

    open spec fn view(&self) -> BindView {
        match self {
            Bind::Id(id) => BindView::Id(*id),
            Bind::Text(t) => BindView::Text(t@),
            Bind::MaybeText(t) => BindView::MaybeText(opt_text(*t)),
            Bind::TextList(list) => BindView::TextList(texts(list@)),
            Bind::Instant(at) => BindView::Instant(*at),
        }
    }
}

/// The views of a list of bound values, in order.
pub open spec fn bind_views(list: Seq<Bind>) -> Seq<BindView> {
    Seq::new(list.len(), |i: int| list[i]@)
}

/// A statement of fixed text: the text and the values bound to its
/// placeholders, the first value to `$1`, the second to `$2`, and so on.
#[derive(Debug, Clone, PartialEq, Eq)]
pub struct Statement {
    pub sql: String,
    pub binds: Vec<Bind>,
}

/// A statement as a mathematical value.
pub struct StatementView {
    pub sql: Seq<char>,
    pub binds: Seq<BindView>,
}

impl View for Statement {
    type V = StatementView;

    open spec fn view(&self) -> StatementView {
        StatementView { sql: self.sql@, binds: bind_views(self.binds@) }
    }
}

/// The character of a decimal digit.
pub open spec fn digit(d: int) -> char {
    if d == 0 {
        '0'
    } else if d == 1 {
        '1'
    } else if d == 2 {
        '2'
    } else if d == 3 {
        '3'
    } else if d == 4 {
        '4'
    } else if d == 5 {
        '5'
    } else if d == 6 {
        '6'
    } else if d == 7 {
        '7'
    } else if d == 8 {
        '8'
    } else {
        '9'
    }
}

/// A number written in decimal, without leading zeros.
pub open spec fn decimal(n: nat) -> Seq<char>
    decreases n,
{
    if n < 10 {
        seq![digit(n as int)]
    } else {
        decimal(n / 10).push(digit((n % 10) as int))
    }
}

/// The placeholder of the `n`-th bound value: a dollar sign and the number.
pub open spec fn placeholder(n: nat) -> Seq<char> {
    seq!['$'] + decimal(n)
}

/// The pattern that finds a text anywhere: the text between two percent signs.
pub open spec fn pattern(value: Seq<char>) -> Seq<char> {
    "%"@ + value + "%"@
}

impl StatementView {
    /// The statement without text or values.
    pub open spec fn empty() -> StatementView {
        StatementView { sql: Seq::empty(), binds: Seq::empty() }
    }

    /// The statement with a fragment of text added.
    pub open spec fn text(self, fragment: Seq<char>) -> StatementView {
        StatementView { sql: self.sql + fragment, binds: self.binds }
    }

    /// The statement with a value bound: the value joins the bound values
    /// and the placeholder with its number joins the text.
    pub open spec fn bind(self, value: BindView) -> StatementView {
        StatementView {
            sql: self.sql + placeholder(self.binds.len() + 1),
            binds: self.binds.push(value),
        }
    }
}

/// The start of every statement that reads bookmarks: the columns of a
/// bookmark and the condition that the owner is the one bound.
pub open spec fn select_owned(owner: u128) -> StatementView {
    StatementView::empty().text(
        "SELECT id, url, title, tags, created_at FROM bookmarks WHERE owner_id = "@,
    ).bind(BindView::Id(owner))
}

/// A statement with the condition of one clause added.
pub open spec fn with_clause(st: StatementView, clause: ClauseView) -> StatementView {
    match clause {
        ClauseView::Query(q) => st.text(" AND (url ILIKE "@).bind(BindView::Text(pattern(q))).text(
            " OR title ILIKE "@,
        ).bind(BindView::Text(pattern(q))).text(") "@),
        ClauseView::Title(t) => st.text(" AND title ILIKE "@).bind(BindView::Text(pattern(t))),
        ClauseView::Tag(t) => st.text(" AND "@).bind(BindView::Text(t)).text(" = ANY(tags) "@),
        ClauseView::Since(at) => st.text(" AND created_at >= "@).bind(BindView::Instant(at)),
        ClauseView::Until(at) => st.text(" AND created_at <= "@).bind(BindView::Instant(at)),
    }
}

/// A statement with the conditions of a list of clauses added, in order.
pub open spec fn with_clauses(st: StatementView, clauses: Seq<ClauseView>) -> StatementView
    decreases clauses.len(),
{
    if clauses.len() == 0 {
        st
    } else {
        with_clause(with_clauses(st, clauses.drop_last()), clauses.last())
    }
}

/// The statement that lists an owner's bookmarks under a filter, newest first.
pub open spec fn list_statement_view(owner: u128, clauses: Seq<ClauseView>) -> StatementView {
    with_clauses(select_owned(owner), clauses).text(" ORDER BY created_at DESC"@)
}

/// The statement that lists all of an owner's bookmarks, newest first.
pub open spec fn sync_statement_view(owner: u128) -> StatementView {
    select_owned(owner).text(" ORDER BY created_at DESC"@)
}

/// The statement that finds the identity behind a secret.
pub open spec fn resolve_statement_view(secret: Seq<char>) -> StatementView {
    StatementView {
        sql: "SELECT id FROM credentials WHERE secret = $1"@,
        binds: seq![BindView::Text(secret)],
    }
}

/// The statement that stores a credential.
pub open spec fn credential_statement_view(
    secret: Seq<char>,
    description: Seq<char>,
) -> StatementView {
    StatementView {
        sql: "INSERT INTO credentials (secret, description) VALUES ($1, $2)"@,
        binds: seq![BindView::Text(secret), BindView::Text(description)],
    }
}

/// The statement that inserts a bookmark, or updates the title and tags of
/// the one its owner already has for the address, and returns its id.
pub open spec fn upsert_statement_view(
    owner: u128,
    url: Seq<char>,
    title: Option<Seq<char>>,
    tags: Seq<Seq<char>>,
) -> StatementView {
    StatementView {
        sql: "INSERT INTO bookmarks (url, title, tags, owner_id) VALUES ($1, $2, $3, $4) ON CONFLICT (url, owner_id) DO UPDATE SET title = EXCLUDED.title, tags = EXCLUDED.tags RETURNING id"@,
        binds: seq![
            BindView::Text(url),
            BindView::MaybeText(title),
            BindView::TextList(tags),
            BindView::Id(owner),
        ],
    }
}

/// The statement that overwrites the tags of the bookmark with an id.
pub open spec fn update_tags_statement_view(bookmark_id: u128, tags: Seq<Seq<char>>) -> StatementView {
    StatementView {
        sql: "UPDATE bookmarks SET tags = $1 WHERE id = $2"@,
        binds: seq![BindView::TextList(tags), BindView::Id(bookmark_id)],
    }
}

/// The statement that deletes an owner's bookmark for an address.
pub open spec fn delete_statement_view(owner: u128, url: Seq<char>) -> StatementView {
    StatementView {
        sql: "DELETE FROM bookmarks WHERE url = $1 AND owner_id = $2"@,
        binds: seq![BindView::Text(url), BindView::Id(owner)],
    }
}

/// The statement that reads the address of an owner's bookmark with an id.
pub open spec fn url_statement_view(owner: u128, bookmark_id: u128) -> StatementView {
    StatementView {
        sql: "SELECT url FROM bookmarks WHERE id = $1 AND owner_id = $2"@,
        binds: seq![BindView::Id(bookmark_id), BindView::Id(owner)],
    }
}

/// The earliest instant that can be bound, in microseconds since the Unix
/// epoch: the first of the year -262143.
pub const EARLIEST_INSTANT: i64 = -8334601228800000000;

/// The latest instant that can be bound, in microseconds since the Unix
/// epoch: the last of the year 262142.
pub const LATEST_INSTANT: i64 = 8210266876799999999;

/// The most bytes a bound text may have.
pub const LONGEST_TEXT: usize = 2147483647;

/// Whether a value can be bound to a list query: an identifier always, a
/// text of at most 2,147,483,647 bytes, and an instant from the earliest to
/// the latest. Texts that may be absent and lists of texts are not bound
/// to list queries.
pub open spec fn bindable(value: BindView) -> bool {
    match value {
        BindView::Id(_) => true,
        BindView::Text(text) => encode_utf8(text).len() <= 2147483647,
        BindView::Instant(at) => -8334601228800000000 <= at <= 8210266876799999999,
        BindView::MaybeText(_) => false,
        BindView::TextList(_) => false,
    }
}

/// Whether the values of a clause can be bound.
pub open spec fn clause_bindable(clause: ClauseView) -> bool {
    match clause {
        ClauseView::Query(q) => bindable(BindView::Text(pattern(q))),
        ClauseView::Title(t) => bindable(BindView::Text(pattern(t))),
        ClauseView::Tag(t) => bindable(BindView::Text(t)),
        ClauseView::Since(at) => bindable(BindView::Instant(at)),
        ClauseView::Until(at) => bindable(BindView::Instant(at)),
    }
}

/// Whether the values of every clause of a filter can be bound.
pub open spec fn clauses_bindable(clauses: Seq<ClauseView>) -> bool {
    forall|i: int| 0 <= i < clauses.len() ==> clause_bindable(#[trigger] clauses[i])
}

/// The query of a list request under construction: `sqlx::QueryBuilder`
/// for Postgres, kept whole. Its field is open so that the caller can
/// build the query from it and run it; what it holds is told by
/// `query_sql` and `query_binds`.
#[verifier::external_body]
pub struct ListQuery {
    pub inner: sqlx::QueryBuilder<'static, sqlx::Postgres>,
}

/// The text that a query builder has been given so far, placeholders included.
pub uninterp spec fn query_sql(query: ListQuery) -> Seq<char>;

/// The values bound to a query builder so far, in order.
pub uninterp spec fn query_binds(query: ListQuery) -> Seq<BindView>;

/// Whether a query builder still takes text and values: it does from its
/// making until a query is built from it.
pub uninterp spec fn query_open(query: ListQuery) -> bool;

impl View for ListQuery {
    type V = StatementView;

    open spec fn view(&self) -> StatementView {
        StatementView { sql: query_sql(*self), binds: query_binds(*self) }
    }
}

/// `sqlx::QueryBuilder::new`: a builder that holds the given text and no
/// values.
#[verifier::external_body]
fn query_new(init: &str) -> (query: ListQuery)
    ensures
        query_sql(query) == init@,
        query_binds(query) == Seq::<BindView>::empty(),
        query_open(query),
{
    ListQuery { inner: sqlx::QueryBuilder::new(init) }
}

/// `sqlx::QueryBuilder::push`: adds the fragment to the end of the text
/// and leaves the values as they are.
#[verifier::external_body]
fn query_push(query: &mut ListQuery, fragment: &str)
    requires
        query_open(*old(query)),
    ensures
        query_sql(*final(query)) == query_sql(*old(query)) + fragment@,
        query_binds(*final(query)) == query_binds(*old(query)),
        query_open(*final(query)),
{
    query.inner.push(fragment);
}

/// `sqlx::QueryBuilder::push_bind`: binds the value and adds its
/// placeholder, a dollar sign and the number of values bound so far, to the
/// end of the text. An identifier is bound as a `uuid::Uuid` and an instant
/// as a `chrono::DateTime<Utc>`. The call fails, and does not return, for
/// a value that cannot be encoded; those are left out.
#[verifier::external_body]
fn query_push_bind(query: &mut ListQuery, value: Bind)
    requires
        query_open(*old(query)),
        bindable(value@),
    ensures
        query_sql(*final(query)) == query_sql(*old(query)) + placeholder(
            query_binds(*old(query)).len() + 1,
        ),
        query_binds(*final(query)) == query_binds(*old(query)).push(value@),
        query_open(*final(query)),
{
    match value {
        Bind::Id(id) => query.inner.push_bind(uuid::Uuid::from_u128(id)),
        Bind::Text(text) => query.inner.push_bind(text),
        Bind::MaybeText(text) => query.inner.push_bind(text),
        Bind::TextList(list) => query.inner.push_bind(list),
        Bind::Instant(at) => query.inner.push_bind(
            chrono::DateTime::<chrono::Utc>::from_timestamp_micros(at).unwrap_or_default(),
        ),
    };
}

/// Wraps a text in percent signs, so that it is found anywhere in a column.
pub fn pattern_of(value: &str) -> (p: String)
    ensures
        p@ == pattern(value@),
{
    let mut p = String::new();
    p.append("%");
    p.append(value);
    p.append("%");
    assert(p@ =~= pattern(value@));
    p
}

/// Whether a text is short enough to be bound.
fn text_fits(text: &str) -> (b: bool)
    ensures
        b == bindable(BindView::Text(text@)),
{
    text.as_bytes().len() <= LONGEST_TEXT
}

/// Whether an instant is one that can be bound.
fn instant_fits(at: i64) -> (b: bool)
    ensures
        b == bindable(BindView::Instant(at)),
{
    EARLIEST_INSTANT <= at && at <= LATEST_INSTANT
}

/// Adds a fragment and the placeholder of a text bound to it.
fn push_text(query: &mut ListQuery, fragment: &str, text: &String)
    requires
        query_open(*old(query)),
        bindable(BindView::Text(text@)),
    ensures
        final(query)@ == old(query)@.text(fragment@).bind(BindView::Text(text@)),
        query_open(*final(query)),
{
    query_push(query, fragment);
    query_push_bind(query, Bind::Text(text.clone()));
}

/// Adds a fragment and the placeholder of an instant bound to it.
fn push_instant(query: &mut ListQuery, fragment: &str, at: i64)
    requires
        query_open(*old(query)),
        bindable(BindView::Instant(at)),
    ensures
        final(query)@ == old(query)@.text(fragment@).bind(BindView::Instant(at)),
        query_open(*final(query)),
{
    query_push(query, fragment);
    query_push_bind(query, Bind::Instant(at));
}

/// Adds the condition of one clause, if its values can be bound; a query
/// whose clause cannot be bound is left as it is.
fn push_clause(query: &mut ListQuery, clause: &Clause) -> (done: bool)
    requires
        query_open(*old(query)),
    ensures
        done == clause_bindable(clause@),
        done ==> final(query)@ == with_clause(old(query)@, clause@),
        !done ==> final(query)@ == old(query)@,
        query_open(*final(query)),
{
    match clause {
        Clause::Query(q) => {
            let like = pattern_of(q.as_str());
            if !text_fits(like.as_str()) {
                return false;
            }
            push_text(query, " AND (url ILIKE ", &like);
            push_text(query, " OR title ILIKE ", &like);
            query_push(query, ") ");
            true
        },
        Clause::Title(t) => {
            let like = pattern_of(t.as_str());
            if !text_fits(like.as_str()) {
                return false;
            }
            push_text(query, " AND title ILIKE ", &like);
            true
        },
        Clause::Tag(t) => {
            if !text_fits(t.as_str()) {
                return false;
            }
            push_text(query, " AND ", t);
            query_push(query, " = ANY(tags) ");
            true
        },
        Clause::Since(at) => {
            if !instant_fits(*at) {
                return false;
            }
            push_instant(query, " AND created_at >= ", *at);
            true
        },
        Clause::Until(at) => {
            if !instant_fits(*at) {
                return false;
            }
            push_instant(query, " AND created_at <= ", *at);
            true
        },
    }
}

/// The start of a query that reads an owner's bookmarks.
fn select_from(owner: u128) -> (query: ListQuery)
    ensures
        query@ == select_owned(owner),
        query_open(query),
{
    let mut query = query_new(
        "SELECT id, url, title, tags, created_at FROM bookmarks WHERE owner_id = ",
    );
    assert(query@.sql =~= StatementView::empty().text(
        "SELECT id, url, title, tags, created_at FROM bookmarks WHERE owner_id = "@,
    ).sql);
    query_push_bind(&mut query, Bind::Id(owner));
    query
}

/// The query that lists an owner's bookmarks that meet every clause,
/// newest first. There is none where a value of some clause cannot be
/// bound: a text too long or an instant too far from the present.
pub fn list_query_for(owner: u128, clauses: &Vec<Clause>) -> (r: Option<ListQuery>)
    ensures
        match r {
            Some(query) => {
                &&& clauses_bindable(clause_views(clauses@))
                &&& query@ == list_statement_view(owner, clause_views(clauses@))
                &&& query_open(query)
            },
            None => !clauses_bindable(clause_views(clauses@)),
        },
{
    let mut query = select_from(owner);
    let ghost all = clause_views(clauses@);
    let mut i: usize = 0;
    assert(all.take(0) =~= Seq::<ClauseView>::empty());
    while i < clauses.len()
        invariant
            i <= clauses.len(),
            all == clause_views(clauses@),
            query_open(query),
            query@ == with_clauses(select_owned(owner), all.take(i as int)),
            forall|j: int| 0 <= j < i ==> clause_bindable(#[trigger] all[j]),
        decreases clauses.len() - i,
    {
        assert(all[i as int] == clauses@[i as int]@);
        if !push_clause(&mut query, &clauses[i]) {
            return None;
        }
        proof {
            let upto = all.take(i + 1);
            assert(upto.drop_last() =~= all.take(i as int));
            assert(upto.last() == clauses@[i as int]@);
        }
        i += 1;
    }
    assert(all.take(clauses.len() as int) =~= all);
    query_push(&mut query, " ORDER BY created_at DESC");
    Some(query)
}

/// The query that answers a list request: the owner's bookmarks under the
/// filter that the request describes, newest first.
pub fn list_query(owner: u128, params: &SearchParams) -> (r: Option<ListQuery>)
    ensures
        match r {
            Some(query) => {
                &&& clauses_bindable(params_clauses(params@))
                &&& query@ == list_statement_view(owner, params_clauses(params@))
                &&& query_open(query)
            },
            None => !clauses_bindable(params_clauses(params@)),
        },
{
    let clauses = filter_clauses(params);
    list_query_for(owner, &clauses)
}

/// The query that answers a sync request: all of the owner's bookmarks,
/// newest first.
pub fn sync_query(owner: u128) -> (query: ListQuery)
    ensures
        query@ == sync_statement_view(owner),
        query_open(query),
{
    let mut query = select_from(owner);
    query_push(&mut query, " ORDER BY created_at DESC");
    query
}

/// The statement that finds the identity behind a secret.
pub fn resolve_statement(secret: &str) -> (st: Statement)
    ensures
        st@ == resolve_statement_view(secret@),
{
    let mut binds: Vec<Bind> = Vec::new();
    binds.push(Bind::Text(secret.to_owned()));
    let st = Statement { sql: "SELECT id FROM credentials WHERE secret = $1".to_owned(), binds };
    assert(st@.binds =~= resolve_statement_view(secret@).binds);
    st
}

/// The statement that stores a credential.
pub fn credential_statement(secret: &str, description: &str) -> (st: Statement)
    ensures
        st@ == credential_statement_view(secret@, description@),
{
    let mut binds: Vec<Bind> = Vec::new();
    binds.push(Bind::Text(secret.to_owned()));
    binds.push(Bind::Text(description.to_owned()));
    let st = Statement {
        sql: "INSERT INTO credentials (secret, description) VALUES ($1, $2)".to_owned(),
        binds,
    };
    assert(st@.binds =~= credential_statement_view(secret@, description@).binds);
    st
}

/// The statement that creates a bookmark or, where its owner already has
/// one for the address, overwrites that one's title and tags.
pub fn upsert_statement(owner: u128, url: String, title: Option<String>, tags: Vec<String>) -> (st:
    Statement)
    ensures
        st@ == upsert_statement_view(owner, url@, opt_text(title), texts(tags@)),
{
    let ghost wanted = upsert_statement_view(owner, url@, opt_text(title), texts(tags@));
    let mut binds: Vec<Bind> = Vec::new();
    binds.push(Bind::Text(url));
    binds.push(Bind::MaybeText(title));
    binds.push(Bind::TextList(tags));
    binds.push(Bind::Id(owner));
    let st = Statement {
        sql: "INSERT INTO bookmarks (url, title, tags, owner_id) VALUES ($1, $2, $3, $4) ON CONFLICT (url, owner_id) DO UPDATE SET title = EXCLUDED.title, tags = EXCLUDED.tags RETURNING id".to_owned(),
        binds,
    };
    assert(st@.binds =~= wanted.binds);
    st
}

/// The statement that overwrites the tags of a bookmark.
pub fn update_tags_statement(bookmark_id: u128, tags: Vec<String>) -> (st: Statement)
    ensures
        st@ == update_tags_statement_view(bookmark_id, texts(tags@)),
{
    let ghost wanted = update_tags_statement_view(bookmark_id, texts(tags@));
    let mut binds: Vec<Bind> = Vec::new();
    binds.push(Bind::TextList(tags));
    binds.push(Bind::Id(bookmark_id));
    let st = Statement { sql: "UPDATE bookmarks SET tags = $1 WHERE id = $2".to_owned(), binds };
    assert(st@.binds =~= wanted.binds);
    st
}

/// The statement that deletes an owner's bookmark for an address.
pub fn delete_statement(owner: u128, url: &str) -> (st: Statement)
    ensures
        st@ == delete_statement_view(owner, url@),
{
    let mut binds: Vec<Bind> = Vec::new();
    binds.push(Bind::Text(url.to_owned()));
    binds.push(Bind::Id(owner));
    let st = Statement {
        sql: "DELETE FROM bookmarks WHERE url = $1 AND owner_id = $2".to_owned(),
        binds,
    };
    assert(st@.binds =~= delete_statement_view(owner, url@).binds);
    st
}

/// The statement that reads the address of an owner's bookmark.
pub fn url_statement(owner: u128, bookmark_id: u128) -> (st: Statement)
    ensures
        st@ == url_statement_view(owner, bookmark_id),
{
    let mut binds: Vec<Bind> = Vec::new();
    binds.push(Bind::Id(bookmark_id));
    binds.push(Bind::Id(owner));
    let st = Statement {
        sql: "SELECT url FROM bookmarks WHERE id = $1 AND owner_id = $2".to_owned(),
        binds,
    };
    assert(st@.binds =~= url_statement_view(owner, bookmark_id).binds);
    st
}

/// Whether two clauses are of the same kind, whatever they carry.
pub open spec fn same_kind(a: ClauseView, b: ClauseView) -> bool {
    match (a, b) {
        (ClauseView::Query(_), ClauseView::Query(_)) => true,
        (ClauseView::Title(_), ClauseView::Title(_)) => true,
        (ClauseView::Tag(_), ClauseView::Tag(_)) => true,
        (ClauseView::Since(_), ClauseView::Since(_)) => true,
        (ClauseView::Until(_), ClauseView::Until(_)) => true,
        _ => false,
    }
}

/// Whether two filters have the same kinds of clauses in the same order.
pub open spec fn same_kinds(a: Seq<ClauseView>, b: Seq<ClauseView>) -> bool {
    a.len() == b.len() && forall|i: int| 0 <= i < a.len() ==> same_kind(#[trigger] a[i], b[i])
}

/// The text of a statement holds nothing of what its clauses carry: filters
/// with the same kinds of clauses give the same text and as many bound values.
pub proof fn lemma_text_free_of_values(
    s1: StatementView,
    s2: StatementView,
    a: Seq<ClauseView>,
    b: Seq<ClauseView>,
)
    requires
        s1.sql == s2.sql,
        s1.binds.len() == s2.binds.len(),
        same_kinds(a, b),
    ensures
        with_clauses(s1, a).sql == with_clauses(s2, b).sql,
        with_clauses(s1, a).binds.len() == with_clauses(s2, b).binds.len(),
    decreases a.len(),
{
    if a.len() > 0 {
        assert(same_kind(a[a.len() - 1], b[a.len() - 1]));
        assert forall|i: int| 0 <= i < a.drop_last().len() implies same_kind(
            #[trigger] a.drop_last()[i],
            b.drop_last()[i],
        ) by {
            assert(same_kind(a[i], b[i]));
        }
        lemma_text_free_of_values(s1, s2, a.drop_last(), b.drop_last());
    }
}

/// The list statements of one owner under two queries with the same kinds of
/// clauses have the same text.
pub proof fn lemma_list_text_free_of_values(owner: u128, a: Seq<ClauseView>, b: Seq<ClauseView>)
    requires
        same_kinds(a, b),
    ensures
        list_statement_view(owner, a).sql == list_statement_view(owner, b).sql,
{
    lemma_text_free_of_values(select_owned(owner), select_owned(owner), a, b);
}

/// A list statement without clauses is the sync statement.
pub proof fn lemma_list_unfiltered_is_sync(owner: u128)
    ensures
        list_statement_view(owner, Seq::empty()) == sync_statement_view(owner),
{
}

} // verus!
