//! The filter of a list request: a conjunction of clauses over a bookmark.

use vstd::prelude::*;
use vstd::string::*;
use crate::model::{Row, RowView, SearchParams, SearchParamsView};
use crate::text::{
    contains_folded, contains_ignore_case, folded, lemma_search_ignores_case, split, split_trimmed,
    texts, trimmed,
};

verus! {

/// One condition on a bookmark.
#[derive(Debug, Clone, PartialEq, Eq)]
pub enum Clause {
    /// The text occurs in the address or in the title, case apart.
    Query(String),
    /// The text occurs in the title, case apart.
    Title(String),
    /// The tag is among the bookmark's tags.
    Tag(String),
    /// The bookmark was created at this instant or later.
    Since(i64),
    /// The bookmark was created at this instant or earlier.
    Until(i64),
}

/// A clause as a mathematical value.
pub enum ClauseView {
    Query(Seq<char>),
    Title(Seq<char>),
    Tag(Seq<char>),
    Since(i64),
    Until(i64),
}

impl View for Clause {
    type V = ClauseView;

    open spec fn view(&self) -> ClauseView {
        match self {
            Clause::Query(q) => ClauseView::Query(q@),
            Clause::Title(t) => ClauseView::Title(t@),
            Clause::Tag(t) => ClauseView::Tag(t@),
            Clause::Since(at) => ClauseView::Since(*at),
            Clause::Until(at) => ClauseView::Until(*at),
        }
    }
}

/// The views of a list of clauses, in order.
pub open spec fn clause_views(list: Seq<Clause>) -> Seq<ClauseView> {
    Seq::new(list.len(), |i: int| list[i]@)
}

/// Whether a bookmark meets a clause. A bookmark without a title meets no
/// clause on its title; the bounds on the creation instant are inclusive.
pub open spec fn clause_holds(clause: ClauseView, row: RowView) -> bool {
    match clause {
        ClauseView::Query(q) => contains_folded(row.url, q) || (row.title matches Some(title)
            && contains_folded(title, q)),
        ClauseView::Title(t) => row.title matches Some(title) && contains_folded(title, t),
        ClauseView::Tag(t) => row.tags.contains(t),
        ClauseView::Since(at) => row.created_at >= at,
        ClauseView::Until(at) => row.created_at <= at,
    }
}

/// Whether a bookmark meets every clause of a filter.
pub open spec fn filter_holds(clauses: Seq<ClauseView>, row: RowView) -> bool {
    forall|i: int| 0 <= i < clauses.len() ==> clause_holds(#[trigger] clauses[i], row)
}

/// The non-empty texts of a list, in order.
pub open spec fn non_empty(pieces: Seq<Seq<char>>) -> Seq<Seq<char>>
    decreases pieces.len(),
{
    if pieces.len() == 0 {
        Seq::empty()
    } else if pieces.last().len() > 0 {
        non_empty(pieces.drop_last()).push(pieces.last())
    } else {
        non_empty(pieces.drop_last())
    }
}

/// The tags that a tag parameter asks for: its pieces between commas,
/// trimmed, the empty ones left out.
pub open spec fn tag_tokens(tag: Seq<char>) -> Seq<Seq<char>> {
    non_empty(split(tag, ',').map_values(|p: Seq<char>| trimmed(p)))
}

/// The clauses of a list of tags: one for each.
pub open spec fn tag_clauses(tags: Seq<Seq<char>>) -> Seq<ClauseView> {
    Seq::new(tags.len(), |i: int| ClauseView::Tag(tags[i]))
}

/// Whether a text field of a query is left out: it is absent or empty.
pub open spec fn is_blank(field: Option<Seq<char>>) -> bool {
    match field {
        Some(text) => text.len() == 0,
        None => true,
    }
}

/// The clause of the text field, if the field is not left out.
pub open spec fn query_clauses(q: Option<Seq<char>>) -> Seq<ClauseView> {
    match q {
        Some(text) => if text.len() > 0 {
            seq![ClauseView::Query(text)]
        } else {
            Seq::empty()
        },
        None => Seq::empty(),
    }
}

/// The clause of the title field, if the field is not left out.
pub open spec fn title_clauses(title: Option<Seq<char>>) -> Seq<ClauseView> {
    match title {
        Some(text) => if text.len() > 0 {
            seq![ClauseView::Title(text)]
        } else {
            Seq::empty()
        },
        None => Seq::empty(),
    }
}

/// The clauses that a query asks for, in the order text, title, tags,
/// earliest, latest. A field that is absent or empty contributes none, and
/// neither does an empty tag.
pub open spec fn params_clauses(params: SearchParamsView) -> Seq<ClauseView> {
    query_clauses(params.q) + title_clauses(params.title) + (match params.tag {
        Some(tag) => tag_clauses(tag_tokens(tag)),
        None => Seq::empty(),
    }) + (match params.start_date {
        Some(at) => seq![ClauseView::Since(at)],
        None => Seq::empty(),
    }) + (match params.end_date {
        Some(at) => seq![ClauseView::Until(at)],
        None => Seq::empty(),
    })
}

/// The tags named by a tag parameter.
pub fn parse_tag_filter(tag: &str) -> (tokens: Vec<String>)
    ensures
        texts(tokens@) == tag_tokens(tag@),
{
    let pieces = split_trimmed(tag, ',');
    let mut tokens: Vec<String> = Vec::new();
    let mut i: usize = 0;
    assert(texts(pieces@).take(0) =~= Seq::<Seq<char>>::empty());
    while i < pieces.len()
        invariant
            i <= pieces.len(),
            texts(tokens@) == non_empty(texts(pieces@).take(i as int)),
        decreases pieces.len() - i,
    {
        let ghost before = texts(tokens@);
        let ghost upto = texts(pieces@).take(i + 1);
        assert(upto.drop_last() =~= texts(pieces@).take(i as int));
        assert(upto.last() == pieces@[i as int]@);
        if !pieces[i].as_str().is_empty() {
            tokens.push(pieces[i].clone());
            assert(texts(tokens@) =~= before.push(pieces@[i as int]@));
        }
        i += 1;
    }
    assert(texts(pieces@).take(pieces.len() as int) =~= texts(pieces@));
    tokens
}

/// The clauses of a query.
pub fn filter_clauses(params: &SearchParams) -> (clauses: Vec<Clause>)
    ensures
        clause_views(clauses@) == params_clauses(params@),
{
    let mut clauses: Vec<Clause> = Vec::new();
    if let Some(q) = &params.q {
        if !q.as_str().is_empty() {
            clauses.push(Clause::Query(q.clone()));
        }
    }
    let ghost first = clause_views(clauses@);
    assert(first =~= query_clauses(params@.q));
    if let Some(t) = &params.title {
        if !t.as_str().is_empty() {
            clauses.push(Clause::Title(t.clone()));
        }
    }
    let ghost second = clause_views(clauses@);
    assert(second =~= first + title_clauses(params@.title));
    if let Some(tag) = &params.tag {
        let tokens = parse_tag_filter(tag.as_str());
        let mut i: usize = 0;
        while i < tokens.len()
            invariant
                i <= tokens.len(),
                clause_views(clauses@) == second + tag_clauses(texts(tokens@)).take(i as int),
            decreases tokens.len() - i,
        {
            let ghost before = clause_views(clauses@);
            let ghost wanted = tag_clauses(texts(tokens@));
            clauses.push(Clause::Tag(tokens[i].clone()));
            assert(clause_views(clauses@) =~= before.push(ClauseView::Tag(tokens@[i as int]@)));
            assert(wanted[i as int] == ClauseView::Tag(tokens@[i as int]@));
            assert(wanted.take(i + 1) =~= wanted.take(i as int).push(wanted[i as int]));
            i += 1;
            assert(clause_views(clauses@) =~= second + wanted.take(i as int));
        }
        assert(tag_clauses(texts(tokens@)).take(tokens.len() as int) =~= tag_clauses(
            texts(tokens@),
        ));
    }
    let ghost third = clause_views(clauses@);
    assert(third =~= second + match params@.tag {
        Some(tag) => tag_clauses(tag_tokens(tag)),
        None => Seq::empty(),
    });
    if let Some(at) = params.start_date {
        clauses.push(Clause::Since(at));
    }
    let ghost fourth = clause_views(clauses@);
    assert(fourth =~= third + match params@.start_date {
        Some(at) => seq![ClauseView::Since(at)],
        None => Seq::empty(),
    });
    if let Some(at) = params.end_date {
        clauses.push(Clause::Until(at));
    }
    assert(clause_views(clauses@) =~= fourth + match params@.end_date {
        Some(at) => seq![ClauseView::Until(at)],
        None => Seq::empty(),
    });
    clauses
}

/// Whether a tag is among a bookmark's tags.
pub fn has_tag(tags: &Vec<String>, tag: &String) -> (b: bool)
    ensures
        b == texts(tags@).contains(tag@),
{
    let mut i: usize = 0;
    while i < tags.len()
        invariant
            i <= tags.len(),
            forall|j: int| 0 <= j < i ==> texts(tags@)[j] != tag@,
        decreases tags.len() - i,
    {
        if tags[i] == *tag {
            assert(texts(tags@)[i as int] == tag@);
            return true;
        }
        i += 1;
    }
    false
}

/// Whether a stored bookmark meets a clause.
pub fn clause_matches(clause: &Clause, row: &Row) -> (b: bool)
    ensures
        b == clause_holds(clause@, row@),
{
    match clause {
        Clause::Query(q) => {
            if contains_ignore_case(row.url.as_str(), q.as_str()) {
                true
            } else {
                match &row.title {
                    Some(title) => contains_ignore_case(title.as_str(), q.as_str()),
                    None => false,
                }
            }
        },
        Clause::Title(t) => match &row.title {
            Some(title) => contains_ignore_case(title.as_str(), t.as_str()),
            None => false,
        },
        Clause::Tag(t) => has_tag(&row.tags, t),
        Clause::Since(at) => row.created_at >= *at,
        Clause::Until(at) => row.created_at <= *at,
    }
}

/// Whether a stored bookmark meets every clause of a filter.
pub fn filter_matches(clauses: &Vec<Clause>, row: &Row) -> (b: bool)
    ensures
        b == filter_holds(clause_views(clauses@), row@),
{
    let mut i: usize = 0;
    while i < clauses.len()
        invariant
            i <= clauses.len(),
            forall|j: int| 0 <= j < i ==> clause_holds(#[trigger] clause_views(clauses@)[j], row@),
        decreases clauses.len() - i,
    {
        if !clause_matches(&clauses[i], row) {
            assert(!clause_holds(clause_views(clauses@)[i as int], row@));
            return false;
        }
        i += 1;
    }
    true
}

/// A filter is the conjunction of its clauses: a bookmark meets two filters
/// put together exactly when it meets each.
pub proof fn lemma_filter_conjunctive(a: Seq<ClauseView>, b: Seq<ClauseView>, row: RowView)
    ensures
        filter_holds(a + b, row) == (filter_holds(a, row) && filter_holds(b, row)),
{
    if filter_holds(a + b, row) {
        assert forall|i: int| 0 <= i < a.len() implies clause_holds(#[trigger] a[i], row) by {
            assert((a + b)[i] == a[i]);
        }
        assert forall|i: int| 0 <= i < b.len() implies clause_holds(#[trigger] b[i], row) by {
            assert((a + b)[a.len() + i] == b[i]);
        }
    }
    if filter_holds(a, row) && filter_holds(b, row) {
        assert forall|i: int| 0 <= i < (a + b).len() implies clause_holds(
            #[trigger] (a + b)[i],
            row,
        ) by {
            if i < a.len() {
                assert((a + b)[i] == a[i]);
            } else {
                assert((a + b)[i] == b[i - a.len()]);
            }
        }
    }
}

/// The text clauses are blind to the case of ASCII letters: two texts that
/// differ in case only select the same bookmarks, and a bookmark is
/// selected whatever the case of its address and title.
pub proof fn lemma_text_clauses_ignore_case(q: Seq<char>, q2: Seq<char>, row: RowView, row2: RowView)
    requires
        folded(q) == folded(q2),
        folded(row.url) == folded(row2.url),
        row.title is Some == row2.title is Some,
        row.title is Some ==> folded(row.title.unwrap()) == folded(row2.title.unwrap()),
    ensures
        clause_holds(ClauseView::Query(q), row) == clause_holds(ClauseView::Query(q2), row2),
        clause_holds(ClauseView::Title(q), row) == clause_holds(ClauseView::Title(q2), row2),
{
    lemma_search_ignores_case(row.url, q, row2.url, q2);
    if row.title is Some {
        lemma_search_ignores_case(row.title.unwrap(), q, row2.title.unwrap(), q2);
    }
}

/// Every bookmark meets the empty filter, and a query whose fields are all
/// absent or empty has no clauses.
pub proof fn lemma_no_fields_no_clauses(params: SearchParamsView, row: RowView)
    requires
        is_blank(params.q),
        is_blank(params.title),
        is_blank(params.tag),
        params.start_date is None,
        params.end_date is None,
    ensures
        params_clauses(params) == Seq::<ClauseView>::empty(),
        filter_holds(params_clauses(params), row),
{
    if params.tag is Some {
        lemma_no_text_no_tokens(params.tag.unwrap());
    }
    assert(params_clauses(params) =~= Seq::<ClauseView>::empty());
}

/// The empty tag field names no tags.
pub proof fn lemma_no_text_no_tokens(tag: Seq<char>)
    requires
        tag.len() == 0,
    ensures
        tag_tokens(tag) == Seq::<Seq<char>>::empty(),
{
    let pieces = split(tag, ',');
    assert(pieces =~= seq![tag]);
    let kept = pieces.map_values(|p: Seq<char>| trimmed(p));
    assert(kept.len() == 1);
    assert(kept[0] == trimmed(tag));
    assert(trimmed(tag).len() == 0);
    assert(kept.drop_last() =~= Seq::<Seq<char>>::empty());
    assert(non_empty(kept.drop_last()) =~= Seq::<Seq<char>>::empty());
}

/// The bounds on the creation instant are inclusive: a bookmark created at
/// the very instant of a bound meets it.
pub proof fn lemma_date_bounds_inclusive(row: RowView, at: i64)
    ensures
        clause_holds(ClauseView::Since(at), row) == (row.created_at >= at),
        clause_holds(ClauseView::Until(at), row) == (row.created_at <= at),
        row.created_at == at ==> clause_holds(ClauseView::Since(at), row) && clause_holds(
            ClauseView::Until(at),
            row,
        ),
{
}

} // verus!
