use twitch_api2::client::{receive, EmptyPagePolicy, PageWalk};
use twitch_api2::error::{EncodingError, Error, HttpStatusError, ParseError, StatusKind};
use twitch_api2::games::GetTopGamesRequest;
use twitch_api2::request::{Credential, Request};
use twitch_api2::response::Cursor;
use twitch_api2::scope::Scope;
use twitch_api2::subscriptions::CheckUserSubscriptionRequest;
use twitch_api2::transport::{Header, HttpRequest, HttpResponse, Method, TransportError};
use twitch_api2::types::TwitchCategory;

fn credential(scopes: &[&str]) -> Credential {
    Credential::new("validtoken", "client-1", scopes.iter().map(|s| Scope::new(s)).collect())
}

fn page(ids: &[&str], cursor: Option<&str>) -> HttpResponse {
    let items: Vec<String> = ids
        .iter()
        .map(|id| format!("{{\"id\": \"{}\", \"name\": \"n{}\", \"box_art_url\": \"u{}\"}}", id, id, id))
        .collect();
    let pagination = match cursor {
        Some(c) => format!("{{\"cursor\": \"{}\"}}", c),
        None => "{}".to_string(),
    };
    let body = format!("{{\"data\": [{}], \"pagination\": {}}}", items.join(","), pagination);
    HttpResponse { status: 200, headers: vec![], body: body.into_bytes() }
}

fn ids(items: &[TwitchCategory]) -> Vec<String> {
    items.iter().map(|item| item.id.clone()).collect()
}

fn run(policy: EmptyPagePolicy, pages: Vec<HttpResponse>) -> (Vec<String>, Vec<String>, bool) {
    let credential = credential(&[]);
    let mut walk = PageWalk::new(GetTopGamesRequest::builder().first(2).build(), policy, false);
    let mut sent = Vec::new();
    let mut seen = Vec::new();
    let mut pages = pages.into_iter();
    while let Some(request) = walk.next_request(&credential) {
        sent.push(request.unwrap().uri);
        let items = walk.on_response(Ok(pages.next().unwrap())).unwrap();
        seen.extend(ids(&items));
    }
    (sent, seen, pages.next().is_none())
}

#[test]
fn default_policy_goes_on_once() {
    assert_eq!(EmptyPagePolicy::default(), EmptyPagePolicy::ContinueOnce);
}

#[test]
fn created_request_carries_token_and_client_id() {
    let request = GetTopGamesRequest::builder().first(3).build();
    let created = request.create_request(&credential(&["a:b"])).unwrap();
    assert_eq!(
        created,
        HttpRequest {
            method: Method::Get,
            uri: "https://api.twitch.tv/helix/games/top?first=3".to_string(),
            headers: vec![
                Header { name: "Authorization".to_string(), value: "Bearer validtoken".to_string() },
                Header { name: "Client-Id".to_string(), value: "client-1".to_string() },
            ],
            body: vec![],
        }
    );
    let credential = credential(&["x"]);
    assert_eq!(credential.bearer_token(), "validtoken");
    assert_eq!(credential.client_id(), "client-1");
    assert_eq!(credential.granted_scopes(), &vec![Scope::new("x")]);
}

#[test]
fn missing_scope_is_reported_before_anything_is_sent() {
    let request = CheckUserSubscriptionRequest::builder()
        .broadcaster_id("1234")
        .user_id(vec!["5".to_string(), "6".to_string()])
        .build();
    assert_eq!(
        request.get_uri().unwrap(),
        "https://api.twitch.tv/helix/subscriptions/user?broadcaster_id=1234&user_id=5&user_id=6"
    );
    assert_eq!(request.required_scopes(), vec![Scope::new("user:read:subscriptions")]);
    match request.create_request(&credential(&["bits:read"])) {
        Err(Error::Scope(e)) => assert_eq!(e.missing, vec![Scope::new("user:read:subscriptions")]),
        other => panic!("unexpected: {:?}", other),
    }
    let created = request
        .create_request(&credential(&["bits:read", "user:read:subscriptions"]))
        .unwrap();
    assert_eq!(created.method, Method::Get);
    assert_eq!(created.uri, request.get_uri().unwrap());
}

#[test]
fn scopes_are_checked_before_the_uri_is_rendered() {
    let long = "x".repeat(70000);
    let request = CheckUserSubscriptionRequest::builder().broadcaster_id(&long).build();
    assert_eq!(request.get_uri(), Err(EncodingError::TooLong));
    assert!(matches!(request.create_request(&credential(&[])), Err(Error::Scope(_))));
    assert_eq!(
        request.create_request(&credential(&["user:read:subscriptions"])),
        Err(Error::Encoding(EncodingError::TooLong))
    );
}

#[test]
fn transport_failure_is_handed_on_as_it_came() {
    let failure = TransportError { message: "connection refused".to_string() };
    assert_eq!(
        receive::<TwitchCategory>(Err(failure), false),
        Err(Error::Transport(TransportError { message: "connection refused".to_string() }))
    );
    let response = receive::<TwitchCategory>(Ok(page(&["1"], Some("c"))), true).unwrap();
    assert_eq!(ids(&response.data), vec!["1"]);
    assert_eq!(response.pagination, Some(Cursor::new("c")));
}

#[test]
fn walk_yields_all_pages_in_order_and_stops_after_the_last() {
    for policy in [EmptyPagePolicy::Stop, EmptyPagePolicy::ContinueOnce] {
        let (sent, seen, all_used) = run(
            policy,
            vec![page(&["1", "2"], Some("c1")), page(&["3", "4"], Some("c 2")), page(&["5"], None)],
        );
        assert_eq!(seen, vec!["1", "2", "3", "4", "5"]);
        assert_eq!(
            sent,
            vec![
                "https://api.twitch.tv/helix/games/top?first=2",
                "https://api.twitch.tv/helix/games/top?after=c1&first=2",
                "https://api.twitch.tv/helix/games/top?after=c%202&first=2",
            ]
        );
        assert!(all_used);
    }
}

#[test]
fn walk_over_a_single_page_fetches_once() {
    let (sent, seen, all_used) = run(EmptyPagePolicy::Stop, vec![page(&["1"], None)]);
    assert_eq!(sent.len(), 1);
    assert_eq!(seen, vec!["1"]);
    assert!(all_used);
    let (sent, seen, all_used) = run(EmptyPagePolicy::ContinueOnce, vec![page(&[], None)]);
    assert_eq!(sent.len(), 1);
    assert!(seen.is_empty());
    assert!(all_used);
}

#[test]
fn empty_page_with_cursor_ends_the_walk_under_stop() {
    let (sent, seen, all_used) = run(
        EmptyPagePolicy::Stop,
        vec![page(&["1"], Some("c1")), page(&[], Some("c2")), page(&["3"], None)],
    );
    assert_eq!(sent.len(), 2);
    assert_eq!(seen, vec!["1"]);
    assert!(!all_used);
}

#[test]
fn empty_page_with_cursor_is_passed_once_under_continue_once() {
    let (sent, seen, all_used) = run(
        EmptyPagePolicy::ContinueOnce,
        vec![
            page(&["1"], Some("c1")),
            page(&[], Some("c2")),
            page(&["3"], Some("c3")),
            page(&[], Some("c4")),
            page(&[], Some("c5")),
            page(&["6"], None),
        ],
    );
    assert_eq!(sent.len(), 5);
    assert_eq!(sent[2], "https://api.twitch.tv/helix/games/top?after=c2&first=2");
    assert_eq!(seen, vec!["1", "3"]);
    assert!(!all_used);
}

#[test]
fn first_error_ends_the_walk() {
    let credential = credential(&[]);
    let mut walk = PageWalk::new(
        GetTopGamesRequest::builder().build(),
        EmptyPagePolicy::ContinueOnce,
        false,
    );
    assert!(!walk.is_finished());
    assert!(walk.next_request(&credential).unwrap().is_ok());
    let items = walk.on_response(Ok(page(&["1"], Some("c1")))).unwrap();
    assert_eq!(ids(&items), vec!["1"]);
    assert!(walk.next_request(&credential).unwrap().is_ok());
    let broken = HttpResponse {
        status: 200,
        headers: vec![],
        body: b"{\"data\": [{\"id\": \"2\"}], \"pagination\": {\"cursor\": \"c2\"}}".to_vec(),
    };
    assert_eq!(
        walk.on_response(Ok(broken)),
        Err(Error::Parse(ParseError::Item { index: 0 }))
    );
    assert!(walk.is_finished());
    assert!(walk.next_request(&credential).is_none());
    assert_eq!(walk.on_response(Ok(page(&["9"], None))), Ok(vec![]));
    assert_eq!(walk.into_request().after, Some(Cursor::new("c1")));
}

#[test]
fn status_and_transport_errors_end_the_walk() {
    let credential = credential(&[]);
    let mut walk =
        PageWalk::new(GetTopGamesRequest::builder().build(), EmptyPagePolicy::Stop, true);
    assert!(walk.next_request(&credential).is_some());
    let limited = HttpResponse {
        status: 429,
        headers: vec![Header { name: "retry-after".to_string(), value: "7".to_string() }],
        body: vec![],
    };
    assert_eq!(
        walk.on_response(Ok(limited)),
        Err(Error::HttpStatus(HttpStatusError {
            status: 429,
            kind: StatusKind::RateLimited { retry_after: Some("7".to_string()) },
            body: vec![],
        }))
    );
    assert!(walk.is_finished());

    let mut walk =
        PageWalk::new(GetTopGamesRequest::builder().build(), EmptyPagePolicy::Stop, true);
    assert!(walk.next_request(&credential).is_some());
    assert_eq!(
        walk.on_response(Err(TransportError { message: "timeout".to_string() })),
        Err(Error::Transport(TransportError { message: "timeout".to_string() }))
    );
    assert!(walk.is_finished());
    assert!(walk.next_request(&credential).is_none());
}

#[test]
fn request_that_cannot_be_prepared_ends_the_walk() {
    let long = "c".repeat(70000);
    let request = GetTopGamesRequest::builder().after(Some(Cursor::new(&long))).build();
    let mut walk = PageWalk::new(request, EmptyPagePolicy::Stop, false);
    assert_eq!(
        walk.next_request(&credential(&[])),
        Some(Err(Error::Encoding(EncodingError::TooLong)))
    );
    assert!(walk.is_finished());
    assert_eq!(walk.next_request(&credential(&[])), None);
}
