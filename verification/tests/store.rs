use linkman::filter::Clause;
use linkman::model::{Bookmark, SearchParams};
use linkman::store::{Store, StoreFailure};

const ALICE: u128 = 1;
const BOB: u128 = 2;

fn store_with_two_credentials() -> Store {
    let mut store = Store::new();
    assert_eq!(store.create_credential(ALICE, "alice-secret", "alice"), Ok(()));
    assert_eq!(store.create_credential(BOB, "bob-secret", "bob"), Ok(()));
    store
}

fn tags(items: &[&str]) -> Vec<String> {
    items.iter().map(|t| t.to_string()).collect()
}

fn add(store: &mut Store, owner: u128, url: &str, id: u128, now: i64) -> u128 {
    store
        .upsert_bookmark(owner, url.to_string(), None, Vec::new(), id, now)
        .expect("the bookmark is stored")
}

#[test]
fn a_new_store_is_empty() {
    let store = Store::new();
    assert_eq!(store.len(), 0);
    assert_eq!(store.resolve_credential("anything"), None);
    assert_eq!(store.sync_bookmarks(ALICE), Vec::<Bookmark>::new());
}

#[test]
fn secrets_resolve_to_their_identities() {
    let store = store_with_two_credentials();
    assert_eq!(store.resolve_credential("alice-secret"), Some(ALICE));
    assert_eq!(store.resolve_credential("bob-secret"), Some(BOB));
    assert_eq!(store.resolve_credential("Alice-secret"), None);
    assert_eq!(store.resolve_credential(""), None);
}

#[test]
fn a_taken_secret_or_identity_is_refused() {
    let mut store = store_with_two_credentials();
    assert_eq!(
        store.create_credential(3, "alice-secret", "again"),
        Err(StoreFailure::Constraint)
    );
    assert_eq!(store.create_credential(ALICE, "fresh", "again"), Err(StoreFailure::Constraint));
    assert_eq!(store.resolve_credential("fresh"), None);
    assert_eq!(store.create_credential(3, "fresh", "carol"), Ok(()));
    assert_eq!(store.resolve_credential("fresh"), Some(3));
}

#[test]
fn upsert_creates_with_the_fresh_id_and_instant() {
    let mut store = store_with_two_credentials();
    let id = store.upsert_bookmark(
        ALICE,
        "https://example.com".to_string(),
        Some("Ex".to_string()),
        tags(&["a"]),
        100,
        1_000,
    );
    assert_eq!(id, Ok(100));
    assert_eq!(
        store.sync_bookmarks(ALICE),
        vec![Bookmark {
            id: 100,
            url: "https://example.com".to_string(),
            title: Some("Ex".to_string()),
            tags: tags(&["a"]),
            created_at: 1_000,
        }]
    );
}

#[test]
fn upsert_again_keeps_id_and_instant_and_overwrites_the_rest() {
    let mut store = store_with_two_credentials();
    let first = store.upsert_bookmark(
        ALICE,
        "https://example.com".to_string(),
        Some("First".to_string()),
        tags(&["a", "b"]),
        100,
        1_000,
    );
    let second = store.upsert_bookmark(
        ALICE,
        "https://example.com".to_string(),
        Some("Second".to_string()),
        tags(&["c"]),
        200,
        11_000_000,
    );
    assert_eq!(first, Ok(100));
    assert_eq!(second, Ok(100));
    assert_eq!(store.len(), 1);
    assert_eq!(
        store.sync_bookmarks(ALICE),
        vec![Bookmark {
            id: 100,
            url: "https://example.com".to_string(),
            title: Some("Second".to_string()),
            tags: tags(&["c"]),
            created_at: 1_000,
        }]
    );
}

#[test]
fn two_credentials_may_hold_the_same_address() {
    let mut store = store_with_two_credentials();
    assert_eq!(add(&mut store, ALICE, "https://x", 100, 1), 100);
    assert_eq!(add(&mut store, BOB, "https://x", 200, 2), 200);
    assert_eq!(store.len(), 2);
    assert_eq!(store.sync_bookmarks(ALICE).len(), 1);
    assert_eq!(store.sync_bookmarks(ALICE)[0].id, 100);
    assert_eq!(store.sync_bookmarks(BOB)[0].id, 200);
}

#[test]
fn upsert_refuses_an_unknown_owner_or_a_taken_id() {
    let mut store = store_with_two_credentials();
    assert_eq!(
        store.upsert_bookmark(77, "https://x".to_string(), None, Vec::new(), 100, 1),
        Err(StoreFailure::Constraint)
    );
    assert_eq!(add(&mut store, ALICE, "https://x", 100, 1), 100);
    assert_eq!(
        store.upsert_bookmark(BOB, "https://y".to_string(), None, Vec::new(), 100, 2),
        Err(StoreFailure::Constraint)
    );
    assert_eq!(store.len(), 1);
}

#[test]
fn listing_runs_from_newest_to_oldest() {
    let mut store = store_with_two_credentials();
    add(&mut store, ALICE, "https://middle", 1, 20);
    add(&mut store, ALICE, "https://oldest", 2, 10);
    add(&mut store, ALICE, "https://newest", 3, 30);
    add(&mut store, ALICE, "https://middle-too", 4, 20);
    add(&mut store, BOB, "https://other", 5, 25);
    let urls: Vec<String> = store.sync_bookmarks(ALICE).into_iter().map(|b| b.url).collect();
    assert_eq!(urls, vec!["https://newest", "https://middle", "https://middle-too", "https://oldest"]);
}

#[test]
fn listing_under_a_filter_shows_what_meets_every_clause() {
    let mut store = store_with_two_credentials();
    store
        .upsert_bookmark(ALICE, "https://one".to_string(), None, tags(&["a", "b"]), 1, 10)
        .unwrap();
    store
        .upsert_bookmark(ALICE, "https://two".to_string(), None, tags(&["a", "c"]), 2, 20)
        .unwrap();
    store
        .upsert_bookmark(ALICE, "https://three".to_string(), None, tags(&["b", "c"]), 3, 30)
        .unwrap();
    let params = SearchParams { tag: Some("a,b".to_string()), ..SearchParams::none() };
    let found = store.list_bookmarks(ALICE, &params);
    assert_eq!(found.len(), 1);
    assert_eq!(found[0].url, "https://one");
    let window = SearchParams { start_date: Some(20), end_date: Some(30), ..SearchParams::none() };
    let ids: Vec<u128> = store.list_bookmarks(ALICE, &window).into_iter().map(|b| b.id).collect();
    assert_eq!(ids, vec![3, 2]);
    let clauses = vec![Clause::Query("T".to_string()), Clause::Tag("c".to_string())];
    let ids: Vec<u128> = store.list_matching(ALICE, &clauses).into_iter().map(|b| b.id).collect();
    assert_eq!(ids, vec![3, 2]);
}

#[test]
fn listing_without_fields_is_sync() {
    let mut store = store_with_two_credentials();
    add(&mut store, ALICE, "https://a", 1, 5);
    add(&mut store, ALICE, "https://b", 2, 6);
    assert_eq!(store.list_bookmarks(ALICE, &SearchParams::none()), store.sync_bookmarks(ALICE));
    assert_eq!(store.list_bookmarks(BOB, &SearchParams::none()), store.sync_bookmarks(BOB));
}

#[test]
fn delete_removes_the_owners_bookmark_only() {
    let mut store = store_with_two_credentials();
    add(&mut store, ALICE, "https://x", 1, 5);
    add(&mut store, BOB, "https://x", 2, 6);
    assert_eq!(store.delete_by_url(ALICE, "https://y"), 0);
    assert_eq!(store.delete_by_url(ALICE, "https://x"), 1);
    assert_eq!(store.delete_by_url(ALICE, "https://x"), 0);
    assert_eq!(store.sync_bookmarks(ALICE), Vec::<Bookmark>::new());
    assert_eq!(store.sync_bookmarks(BOB).len(), 1);
}

#[test]
fn create_then_delete_leaves_no_bookmark_for_the_address() {
    let mut store = store_with_two_credentials();
    add(&mut store, ALICE, "https://keep", 1, 5);
    add(&mut store, ALICE, "https://gone", 2, 6);
    assert_eq!(store.delete_by_url(ALICE, "https://gone"), 1);
    let urls: Vec<String> = store
        .list_bookmarks(ALICE, &SearchParams::none())
        .into_iter()
        .map(|b| b.url)
        .collect();
    assert_eq!(urls, vec!["https://keep"]);
}

#[test]
fn update_tags_overwrites_whoever_owns_the_bookmark() {
    let mut store = store_with_two_credentials();
    store
        .upsert_bookmark(ALICE, "https://x".to_string(), Some("T".to_string()), tags(&["old"]), 1, 5)
        .unwrap();
    add(&mut store, BOB, "https://y", 2, 6);
    assert_eq!(store.update_tags(1, tags(&["new", "tags"])), 1);
    assert_eq!(
        store.sync_bookmarks(ALICE),
        vec![Bookmark {
            id: 1,
            url: "https://x".to_string(),
            title: Some("T".to_string()),
            tags: tags(&["new", "tags"]),
            created_at: 5,
        }]
    );
    assert_eq!(store.sync_bookmarks(BOB)[0].tags, Vec::<String>::new());
    assert_eq!(store.update_tags(99, tags(&["lost"])), 0);
    assert_eq!(store.len(), 2);
}

#[test]
fn the_address_of_a_bookmark_is_given_to_its_owner_only() {
    let mut store = store_with_two_credentials();
    add(&mut store, ALICE, "https://x", 1, 5);
    assert_eq!(store.get_url(ALICE, 1), Some("https://x".to_string()));
    assert_eq!(store.get_url(BOB, 1), None);
    assert_eq!(store.get_url(ALICE, 2), None);
}
