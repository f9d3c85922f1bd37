use linkman::api::{created, deleted, listed, payload_tags, reprocessed, Job, Reply, Status};
use axum::http::HeaderValue;
use linkman::auth::{
    authenticate, authorization_text, bearer_token, guard_begin, guard_finish, guard_open,
    GuardStep, Lookup,
};
use linkman::model::{Bookmark, CurrentUser};
use linkman::store::{Store, StoreFailure};

#[test]
fn statuses_have_their_numbers() {
    assert_eq!(Status::Success.code(), 200);
    assert_eq!(Status::Created.code(), 201);
    assert_eq!(Status::Accepted.code(), 202);
    assert_eq!(Status::NoContent.code(), 204);
    assert_eq!(Status::Unauthorized.code(), 401);
    assert_eq!(Status::NotFound.code(), 404);
    assert_eq!(Status::InternalServerError.code(), 500);
}

#[test]
fn bearer_token_is_what_follows_the_prefix() {
    assert_eq!(bearer_token(Some("Bearer abc def")), Some("abc def".to_string()));
    assert_eq!(bearer_token(Some("Bearer ")), Some(String::new()));
    assert_eq!(bearer_token(Some("Bearer")), None);
    assert_eq!(bearer_token(Some("bearer abc")), None);
    assert_eq!(bearer_token(Some("Token abc")), None);
    assert_eq!(bearer_token(None), None);
}

#[test]
fn guard_opens_by_asking_for_the_secret() {
    assert_eq!(guard_begin(Some("Bearer s3cret")), GuardStep::Resolve("s3cret".to_string()));
    assert_eq!(guard_begin(Some("s3cret")), GuardStep::Reject(Status::Unauthorized));
    assert_eq!(guard_begin(None), GuardStep::Reject(Status::Unauthorized));
}

#[test]
fn guard_closes_on_the_answer_of_the_store() {
    assert_eq!(guard_finish(Lookup::Found(5)), Ok(CurrentUser { credential_id: 5 }));
    assert_eq!(guard_finish(Lookup::Unknown), Err(Status::Unauthorized));
    assert_eq!(guard_finish(Lookup::Failed), Err(Status::InternalServerError));
}

#[test]
fn authenticate_resolves_against_the_store() {
    let mut store = Store::new();
    store.create_credential(5, "s3cret", "laptop").unwrap();
    assert_eq!(authenticate(&store, Some("Bearer s3cret")), Ok(CurrentUser { credential_id: 5 }));
    assert_eq!(authenticate(&store, Some("Bearer S3cret")), Err(Status::Unauthorized));
    assert_eq!(authenticate(&store, Some("s3cret")), Err(Status::Unauthorized));
    assert_eq!(authenticate(&store, None), Err(Status::Unauthorized));
}

#[test]
fn create_is_answered_by_what_the_store_said() {
    assert_eq!(
        created(Ok(9), "https://x".to_string()),
        Reply { status: Status::Created, job: Some(Job { bookmark_id: 9, url: "https://x".to_string() }) }
    );
    assert_eq!(
        created(Err(StoreFailure::Unavailable), "https://x".to_string()),
        Reply { status: Status::InternalServerError, job: None }
    );
    assert_eq!(
        created(Err(StoreFailure::Constraint), "https://x".to_string()),
        Reply { status: Status::InternalServerError, job: None }
    );
}

#[test]
fn delete_is_answered_by_the_number_of_rows() {
    assert_eq!(deleted(Ok(1)), Status::NoContent);
    assert_eq!(deleted(Ok(0)), Status::NotFound);
    assert_eq!(deleted(Ok(3)), Status::NoContent);
    assert_eq!(deleted(Err(StoreFailure::Unavailable)), Status::InternalServerError);
}

#[test]
fn reprocess_is_answered_by_what_was_found() {
    assert_eq!(
        reprocessed(9, Ok(Some("https://x".to_string()))),
        Reply { status: Status::Accepted, job: Some(Job { bookmark_id: 9, url: "https://x".to_string() }) }
    );
    assert_eq!(reprocessed(9, Ok(None)), Reply { status: Status::NotFound, job: None });
    assert_eq!(
        reprocessed(9, Err(StoreFailure::Unavailable)),
        Reply { status: Status::InternalServerError, job: None }
    );
}

#[test]
fn list_is_answered_with_the_rows_or_an_error() {
    let row = Bookmark { id: 1, url: "https://x".to_string(), title: None, tags: Vec::new(), created_at: 5 };
    assert_eq!(listed(Ok(vec![row.clone()])), (Status::Success, vec![row]));
    assert_eq!(listed(Ok(Vec::new())), (Status::Success, Vec::new()));
    assert_eq!(listed(Err(StoreFailure::Unavailable)), (Status::InternalServerError, Vec::new()));
}

#[test]
fn a_create_request_without_tags_stores_none() {
    assert_eq!(payload_tags(None), Vec::<String>::new());
    assert_eq!(payload_tags(Some(vec!["a".to_string()])), vec!["a"]);
    assert_eq!(payload_tags(Some(Vec::new())), Vec::<String>::new());
}

#[test]
fn guard_reads_the_header_as_it_was_received() {
    let plain = HeaderValue::from_static("Bearer s3cret");
    assert_eq!(authorization_text(Some(&plain)), Some("Bearer s3cret"));
    assert_eq!(guard_open(Some(&plain)), GuardStep::Resolve("s3cret".to_string()));
    let with_tab = HeaderValue::from_bytes(b"Bearer a\tb").unwrap();
    assert_eq!(guard_open(Some(&with_tab)), GuardStep::Resolve("a\tb".to_string()));
    let no_prefix = HeaderValue::from_static("s3cret");
    assert_eq!(guard_open(Some(&no_prefix)), GuardStep::Reject(Status::Unauthorized));
    assert_eq!(guard_open(None), GuardStep::Reject(Status::Unauthorized));
}

#[test]
fn a_header_that_is_no_text_counts_as_missing() {
    let opaque = HeaderValue::from_bytes(b"Bearer \xffkey").unwrap();
    assert_eq!(authorization_text(Some(&opaque)), None);
    assert_eq!(guard_open(Some(&opaque)), GuardStep::Reject(Status::Unauthorized));
    let accented = HeaderValue::from_str("Bearer cl\u{e9}").unwrap();
    assert_eq!(authorization_text(Some(&accented)), None);
    assert_eq!(guard_open(Some(&accented)), GuardStep::Reject(Status::Unauthorized));
}
