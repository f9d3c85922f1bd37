use linkman::fetch::{user_agent, FetchFailed, FetchReply};
use linkman::tagger::{default_model, system_prompt};
use linkman::worker::{
    after_page, after_reply, after_store, Action, Event, Stage, Worker, WorkerError,
};

fn page(body: &str) -> FetchReply {
    FetchReply::Response { status: 200, body: Some(body.to_string()) }
}

fn completion(content: &str) -> Option<Vec<Option<String>>> {
    Some(vec![Some(content.to_string())])
}

fn begin() -> Worker {
    let (worker, action) =
        Worker::begin(7, "https://example.com".to_string(), default_model().to_string());
    match action {
        Action::Fetch(request) => {
            assert_eq!(request.url, "https://example.com");
            assert_eq!(request.user_agent, user_agent());
        }
        other => panic!("expected a fetch, got {:?}", other),
    }
    assert_eq!(worker.stage, Stage::AwaitingPage);
    assert_eq!(worker.bookmark_id, 7);
    worker
}

#[test]
fn a_pass_runs_from_fetch_to_done() {
    let worker = begin();
    let (worker, action) = worker.advance(Event::Page(page("<h1>Rust</h1><p>A language.</p>")));
    assert_eq!(worker.stage, Stage::AwaitingReply);
    match action {
        Action::Ask(request) => {
            assert_eq!(request.model, default_model());
            assert_eq!(request.system, system_prompt());
            assert!(request.user.starts_with("URL: https://example.com\n\nCONTENT:\n"));
            assert!(request.user.contains("Rust"));
            assert!(request.user.ends_with("\n\nJSON Output:"));
            assert!(request.json_object);
        }
        other => panic!("expected a question, got {:?}", other),
    }
    let reply = r#"{"tags": ["a", "b", "c", "d", "e", "f", "g"]}"#;
    let (worker, action) = worker.advance(Event::Reply(completion(reply)));
    assert_eq!(worker.stage, Stage::AwaitingStore);
    assert_eq!(
        action,
        Action::StoreTags {
            bookmark_id: 7,
            tags: vec!["a", "b", "c", "d", "e", "f"].into_iter().map(String::from).collect(),
        }
    );
    let (worker, action) = worker.advance(Event::Stored(true));
    assert_eq!(worker.stage, Stage::Finished);
    assert_eq!(action, Action::Done);
}

#[test]
fn a_failed_fetch_ends_the_pass() {
    let (worker, action) =
        begin().advance(Event::Page(FetchReply::Response { status: 503, body: None }));
    assert_eq!(worker.stage, Stage::Finished);
    assert_eq!(action, Action::Failed(WorkerError::FetchFailed(FetchFailed::Status(503))));
    let (worker, action) = begin().advance(Event::Page(FetchReply::Transport));
    assert_eq!(worker.stage, Stage::Finished);
    assert_eq!(action, Action::Failed(WorkerError::FetchFailed(FetchFailed::Transport)));
}

#[test]
fn a_failed_completion_ends_the_pass() {
    let (worker, _) = begin().advance(Event::Page(page("<p>text</p>")));
    let (worker, action) = worker.advance(Event::Reply(None));
    assert_eq!(worker.stage, Stage::Finished);
    assert_eq!(action, Action::Failed(WorkerError::TaggerFailed));
}

#[test]
fn an_unreadable_reply_ends_the_pass() {
    let (worker, _) = begin().advance(Event::Page(page("<p>text</p>")));
    let (worker, action) = worker.advance(Event::Reply(completion("Sure! Here are the tags.")));
    assert_eq!(worker.stage, Stage::Finished);
    assert_eq!(action, Action::Failed(WorkerError::TagParseFailed));
    let (worker, _) = begin().advance(Event::Page(page("<p>text</p>")));
    let (_, action) = worker.advance(Event::Reply(Some(Vec::new())));
    assert_eq!(action, Action::Failed(WorkerError::TagParseFailed));
}

#[test]
fn a_failed_store_ends_the_pass() {
    let (worker, _) = begin().advance(Event::Page(page("<p>text</p>")));
    let (worker, _) = worker.advance(Event::Reply(completion(r#"{"tags": ["a"]}"#)));
    let (worker, action) = worker.advance(Event::Stored(false));
    assert_eq!(worker.stage, Stage::Finished);
    assert_eq!(action, Action::Failed(WorkerError::StoreFailed));
}

#[test]
fn an_event_out_of_turn_ends_the_pass() {
    let (worker, action) = begin().advance(Event::Stored(true));
    assert_eq!(worker.stage, Stage::Finished);
    assert_eq!(action, Action::Failed(WorkerError::OutOfTurn));
    let (worker, action) = worker.advance(Event::Page(page("<p>late</p>")));
    assert_eq!(worker.stage, Stage::Finished);
    assert_eq!(action, Action::Failed(WorkerError::OutOfTurn));
    let (_, action) = begin().advance(Event::Reply(completion(r#"{"tags": []}"#)));
    assert_eq!(action, Action::Failed(WorkerError::OutOfTurn));
}

#[test]
fn the_steps_of_a_pass_stand_alone() {
    let request = after_page("https://a.example", "some-model", page("<p>words</p>"))
        .expect("a plain page gives a request");
    assert_eq!(request.model, "some-model");
    assert!(request.user.contains("words"));
    assert_eq!(
        after_page("https://a.example", "m", FetchReply::Transport),
        Err(WorkerError::FetchFailed(FetchFailed::Transport))
    );
    assert_eq!(
        after_reply(completion(r#"{"tags": ["one", "two"]}"#)),
        Ok(vec!["one".to_string(), "two".to_string()])
    );
    assert_eq!(after_reply(None), Err(WorkerError::TaggerFailed));
    assert_eq!(after_reply(Some(vec![None])), Err(WorkerError::TagParseFailed));
    assert_eq!(after_store(true), Ok(()));
    assert_eq!(after_store(false), Err(WorkerError::StoreFailed));
}
