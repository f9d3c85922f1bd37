use linkman::fetch::{
    fetch_request, page_of, status_is_success, user_agent, FetchFailed, FetchReply,
};

#[test]
fn user_agent_names_a_browser_and_the_bot() {
    assert_eq!(
        user_agent(),
        "Mozilla/5.0 (Windows NT 10.0; Win64; x64) AppleWebKit/537.36 (KHTML, like Gecko) Chrome/120.0.0.0 Safari/537.36 LinkmanBot/1.0"
    );
}

#[test]
fn fetch_request_carries_address_and_agent() {
    let request = fetch_request("https://example.com/a?b=c");
    assert_eq!(request.url, "https://example.com/a?b=c");
    assert_eq!(request.user_agent, user_agent());
}

#[test]
fn success_is_200_to_299() {
    assert!(!status_is_success(199));
    assert!(status_is_success(200));
    assert!(status_is_success(204));
    assert!(status_is_success(299));
    assert!(!status_is_success(300));
    assert!(!status_is_success(404));
    assert!(!status_is_success(0));
}

#[test]
fn page_is_the_body_of_a_successful_response() {
    let reply = FetchReply::Response { status: 200, body: Some("<p>hi</p>".to_string()) };
    assert_eq!(page_of(reply), Ok("<p>hi</p>".to_string()));
}

#[test]
fn other_statuses_fail_with_the_status() {
    let reply = FetchReply::Response { status: 404, body: Some("not found".to_string()) };
    assert_eq!(page_of(reply), Err(FetchFailed::Status(404)));
    let reply = FetchReply::Response { status: 301, body: None };
    assert_eq!(page_of(reply), Err(FetchFailed::Status(301)));
    let reply = FetchReply::Response { status: 500, body: None };
    assert_eq!(page_of(reply), Err(FetchFailed::Status(500)));
}

#[test]
fn missing_response_or_body_is_a_transport_failure() {
    assert_eq!(page_of(FetchReply::Transport), Err(FetchFailed::Transport));
    let reply = FetchReply::Response { status: 200, body: None };
    assert_eq!(page_of(reply), Err(FetchFailed::Transport));
}
