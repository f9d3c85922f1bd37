use linkman::filter::Clause;
use linkman::model::SearchParams;
use linkman::query::{
    credential_statement, delete_statement, list_query, list_query_for, pattern_of,
    resolve_statement, sync_query, update_tags_statement, upsert_statement, url_statement, Bind,
    ListQuery, EARLIEST_INSTANT, LATEST_INSTANT,
};
use sqlx::{Arguments, Execute};

const SELECT: &str = "SELECT id, url, title, tags, created_at FROM bookmarks WHERE owner_id = $1";

fn text_of(query: &ListQuery) -> String {
    query.inner.sql().to_string()
}

fn values_in(mut query: ListQuery) -> usize {
    let mut built = query.inner.build();
    let values = built.take_arguments().expect("arguments are there");
    values.map(|v| v.len()).unwrap_or(0)
}

#[test]
fn sync_query_binds_the_owner() {
    let query = sync_query(42);
    assert_eq!(text_of(&query), format!("{} ORDER BY created_at DESC", SELECT));
    assert_eq!(values_in(query), 1);
}

#[test]
fn list_query_without_fields_is_the_sync_query() {
    let query = list_query(42, &SearchParams::none()).expect("nothing to bind but the owner");
    assert_eq!(text_of(&query), text_of(&sync_query(42)));
    assert_eq!(values_in(query), 1);
}

#[test]
fn empty_fields_add_nothing_to_the_query() {
    let params = SearchParams {
        q: Some(String::new()),
        title: Some(String::new()),
        tag: Some(" , ".to_string()),
        start_date: None,
        end_date: None,
    };
    let query = list_query(42, &params).expect("nothing to bind but the owner");
    assert_eq!(text_of(&query), text_of(&sync_query(42)));
    assert!(!text_of(&query).contains("ILIKE"));
    assert_eq!(values_in(query), 1);
}

#[test]
fn list_query_binds_every_value() {
    let params = SearchParams {
        q: Some("rust".to_string()),
        title: Some("Book".to_string()),
        tag: Some("a, b".to_string()),
        start_date: Some(10),
        end_date: Some(20),
    };
    let query = list_query(7, &params).expect("every value can be bound");
    assert_eq!(
        text_of(&query),
        format!(
            "{} AND (url ILIKE $2 OR title ILIKE $3)  AND title ILIKE $4 AND $5 = ANY(tags)  AND $6 = ANY(tags)  AND created_at >= $7 AND created_at <= $8 ORDER BY created_at DESC",
            SELECT
        )
    );
    assert_eq!(values_in(query), 8);
}

#[test]
fn text_of_a_query_holds_nothing_a_client_sent() {
    let hostile = "'; DROP TABLE bookmarks; --";
    let params = SearchParams {
        q: Some(hostile.to_string()),
        title: Some(hostile.to_string()),
        tag: Some(hostile.to_string()),
        start_date: None,
        end_date: None,
    };
    let harmless = SearchParams {
        q: Some("a".to_string()),
        title: Some("b".to_string()),
        tag: Some("c".to_string()),
        start_date: None,
        end_date: None,
    };
    let query = list_query(1, &params).expect("every value can be bound");
    assert!(!text_of(&query).contains("DROP"));
    assert_eq!(text_of(&query), text_of(&list_query(2, &harmless).unwrap()));
    assert_eq!(values_in(query), 5);
}

#[test]
fn placeholders_count_past_nine() {
    let clauses: Vec<Clause> = (0..11).map(|i| Clause::Tag(format!("t{}", i))).collect();
    let query = list_query_for(3, &clauses).expect("every value can be bound");
    assert!(text_of(&query).contains(
        " AND $9 = ANY(tags)  AND $10 = ANY(tags)  AND $11 = ANY(tags)  AND $12 = ANY(tags)  ORDER BY"
    ));
    assert_eq!(values_in(query), 12);
}

#[test]
fn each_kind_of_clause_has_its_condition() {
    let one = |clause: Clause| text_of(&list_query_for(1, &vec![clause]).unwrap());
    let end = " ORDER BY created_at DESC";
    assert_eq!(
        one(Clause::Query("x".to_string())),
        format!("{} AND (url ILIKE $2 OR title ILIKE $3) {}", SELECT, end)
    );
    assert_eq!(one(Clause::Title("x".to_string())), format!("{} AND title ILIKE $2{}", SELECT, end));
    assert_eq!(one(Clause::Tag("x".to_string())), format!("{} AND $2 = ANY(tags) {}", SELECT, end));
    assert_eq!(one(Clause::Since(5)), format!("{} AND created_at >= $2{}", SELECT, end));
    assert_eq!(one(Clause::Until(5)), format!("{} AND created_at <= $2{}", SELECT, end));
}

#[test]
fn instants_are_bound_from_the_earliest_to_the_latest() {
    assert!(list_query_for(1, &vec![Clause::Since(EARLIEST_INSTANT)]).is_some());
    assert!(list_query_for(1, &vec![Clause::Until(LATEST_INSTANT)]).is_some());
    assert!(list_query_for(1, &vec![Clause::Since(EARLIEST_INSTANT - 1)]).is_none());
    assert!(list_query_for(1, &vec![Clause::Until(LATEST_INSTANT + 1)]).is_none());
    assert!(list_query_for(1, &vec![Clause::Since(i64::MIN)]).is_none());
    let params = SearchParams { end_date: Some(i64::MAX), ..SearchParams::none() };
    assert!(list_query(1, &params).is_none());
    assert_eq!(
        chrono::DateTime::<chrono::Utc>::MIN_UTC.timestamp_micros(),
        EARLIEST_INSTANT
    );
    assert_eq!(chrono::DateTime::<chrono::Utc>::MAX_UTC.timestamp_micros(), LATEST_INSTANT);
}

#[test]
fn pattern_wraps_in_percent_signs() {
    assert_eq!(pattern_of("rust"), "%rust%");
    assert_eq!(pattern_of(""), "%%");
    assert_eq!(pattern_of("50%"), "%50%%");
}

#[test]
fn upsert_statement_updates_on_conflict() {
    let st = upsert_statement(
        5,
        "https://example.com".to_string(),
        Some("Ex".to_string()),
        vec!["a".to_string()],
    );
    assert_eq!(
        st.sql,
        "INSERT INTO bookmarks (url, title, tags, owner_id) VALUES ($1, $2, $3, $4) ON CONFLICT (url, owner_id) DO UPDATE SET title = EXCLUDED.title, tags = EXCLUDED.tags RETURNING id"
    );
    assert_eq!(
        st.binds,
        vec![
            Bind::Text("https://example.com".to_string()),
            Bind::MaybeText(Some("Ex".to_string())),
            Bind::TextList(vec!["a".to_string()]),
            Bind::Id(5),
        ]
    );
}

#[test]
fn the_other_statements_carry_the_owner() {
    let st = delete_statement(5, "https://x");
    assert_eq!(st.sql, "DELETE FROM bookmarks WHERE url = $1 AND owner_id = $2");
    assert_eq!(st.binds, vec![Bind::Text("https://x".to_string()), Bind::Id(5)]);
    let st = url_statement(5, 77);
    assert_eq!(st.sql, "SELECT url FROM bookmarks WHERE id = $1 AND owner_id = $2");
    assert_eq!(st.binds, vec![Bind::Id(77), Bind::Id(5)]);
}

#[test]
fn statements_without_an_owner() {
    let st = update_tags_statement(77, vec!["x".to_string(), "y".to_string()]);
    assert_eq!(st.sql, "UPDATE bookmarks SET tags = $1 WHERE id = $2");
    assert_eq!(
        st.binds,
        vec![Bind::TextList(vec!["x".to_string(), "y".to_string()]), Bind::Id(77)]
    );
    let st = resolve_statement("s3cret");
    assert_eq!(st.sql, "SELECT id FROM credentials WHERE secret = $1");
    assert_eq!(st.binds, vec![Bind::Text("s3cret".to_string())]);
    let st = credential_statement("s3cret", "laptop");
    assert_eq!(st.sql, "INSERT INTO credentials (secret, description) VALUES ($1, $2)");
    assert_eq!(
        st.binds,
        vec![Bind::Text("s3cret".to_string()), Bind::Text("laptop".to_string())]
    );
}
