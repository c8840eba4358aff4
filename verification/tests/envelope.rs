use twitch_api2::error::{Error, HttpStatusError, ParseError, StatusKind};
use twitch_api2::json::{parse_json, Json};
use twitch_api2::response::{
    classify, decode_document, decode_envelope, encode_envelope, parse_response, Cursor, Item,
    Response,
};
use twitch_api2::subscriptions::UserSubscription;
use twitch_api2::transport::{header_value, names_match, Header, HttpResponse};
use twitch_api2::types::{SubscriptionTier, TwitchCategory};

fn header(name: &str, value: &str) -> Header {
    Header { name: name.to_string(), value: value.to_string() }
}

fn answer(status: u16, headers: Vec<Header>, body: &str) -> HttpResponse {
    HttpResponse { status, headers, body: body.as_bytes().to_vec() }
}

fn lower(json: &Json) -> serde_json::Value {
    match json {
        Json::Null => serde_json::Value::Null,
        Json::Bool(b) => serde_json::Value::Bool(*b),
        Json::Number(text) => serde_json::Value::Number(text.parse().unwrap()),
        Json::Text(text) => serde_json::Value::String(text.clone()),
        Json::Array(items) => serde_json::Value::Array(items.iter().map(lower).collect()),
        Json::Object(members) => serde_json::Value::Object(
            members.iter().map(|(key, value)| (key.clone(), lower(value))).collect(),
        ),
    }
}

fn category(id: &str, name: &str, box_art_url: &str) -> TwitchCategory {
    TwitchCategory {
        box_art_url: box_art_url.to_string(),
        id: id.to_string(),
        name: name.to_string(),
    }
}

fn subscription(gifter: Option<(&str, &str)>, tier: SubscriptionTier) -> UserSubscription {
    UserSubscription::new(
        "149747285".to_string(),
        "twitchpresents".to_string(),
        "TwitchPresents".to_string(),
        gifter.is_some(),
        gifter.map(|g| g.0.to_string()),
        gifter.map(|g| g.1.to_string()),
        tier,
    )
}

#[test]
fn parse_json_reads_every_kind_of_value() {
    let body = r#" {"s": "xé\n", "n": 12, "f": 1.5, "b": true, "z": null, "a": [1, "2", []], "o": {}} "#;
    let json = parse_json(body.as_bytes()).unwrap();
    assert_eq!(json.member("s"), Some(&Json::Text("x\u{e9}\n".to_string())));
    assert_eq!(json.member("n"), Some(&Json::Number("12".to_string())));
    assert_eq!(json.member("f"), Some(&Json::Number("1.5".to_string())));
    assert_eq!(json.member("b"), Some(&Json::Bool(true)));
    assert_eq!(json.member("z"), Some(&Json::Null));
    assert_eq!(
        json.member("a"),
        Some(&Json::Array(vec![
            Json::Number("1".to_string()),
            Json::Text("2".to_string()),
            Json::Array(vec![]),
        ]))
    );
    assert_eq!(json.member("o"), Some(&Json::Object(vec![])));
    assert_eq!(json.member("missing"), None);
    assert_eq!(json.present_member("z"), None);
    assert_eq!(json.present_member("b"), Some(&Json::Bool(true)));
}

#[test]
fn parse_json_refuses_what_is_no_document() {
    assert_eq!(parse_json(b""), None);
    assert_eq!(parse_json(b"{"), None);
    assert_eq!(parse_json(b"{} {}"), None);
    assert_eq!(parse_json(b"{\"a\": }"), None);
    assert_eq!(parse_json(b"nul"), None);
    assert_eq!(parse_json(&[0xff, 0xfe]), None);
    assert_eq!(parse_json(b"null"), Some(Json::Null));
    assert_eq!(parse_json(b"\"text\""), Some(Json::Text("text".to_string())));
}

#[test]
fn json_accessors_tell_the_kinds_apart() {
    let number = Json::Number("42".to_string());
    assert_eq!(number.as_u64(), Some(42));
    assert_eq!(number.as_text(), None);
    assert_eq!(number.as_bool(), None);
    assert!(number.as_array().is_none());
    assert_eq!(Json::Number("-1".to_string()).as_u64(), None);
    assert_eq!(Json::Number("1.0".to_string()).as_u64(), None);
    assert_eq!(Json::Text("42".to_string()).as_u64(), None);
    assert_eq!(Json::text("a").as_text(), Some(&"a".to_string()));
    assert_eq!(Json::Bool(false).as_bool(), Some(false));
    let object = Json::object(vec![
        ("k".to_string(), Json::text("first")),
        ("k".to_string(), Json::text("second")),
        ("flag".to_string(), Json::Bool(true)),
        ("none".to_string(), Json::Null),
    ]);
    assert_eq!(object.text_member("k"), Some("first".to_string()));
    assert_eq!(object.text_member("flag"), None);
    assert_eq!(object.bool_member("flag"), Some(true));
    assert_eq!(object.bool_member("k"), None);
    assert_eq!(object.optional_text_member("none"), Some(None));
    assert_eq!(object.optional_text_member("gone"), Some(None));
    assert_eq!(object.optional_text_member("k"), Some(Some("first".to_string())));
    assert_eq!(object.optional_text_member("flag"), None);
    assert!(object.is_object_within(&vec!["none", "flag", "k"]));
    assert!(!object.is_object_within(&vec!["flag", "k"]));
    assert!(!Json::Null.is_object_within(&vec![]));
    assert!(Json::Object(vec![]).is_object_within(&vec![]));
}

#[test]
fn header_names_match_without_regard_to_ascii_case() {
    assert!(names_match("Retry-After", "retry-after"));
    assert!(names_match("RETRY-AFTER", "retry-after"));
    assert!(!names_match("Retry_After", "retry-after"));
    assert!(!names_match("Retry-After ", "retry-after"));
    assert!(!names_match("É", "é"));
    let headers = vec![header("Content-Type", "json"), header("X", "1"), header("x", "2")];
    assert_eq!(header_value(&headers, "x"), Some(&"1".to_string()));
    assert_eq!(header_value(&headers, "content-type"), Some(&"json".to_string()));
    assert_eq!(header_value(&headers, "retry-after"), None);
}

#[test]
fn statuses_are_classified_before_the_body_is_read() {
    assert_eq!(classify(200, &vec![]), None);
    assert_eq!(classify(204, &vec![]), None);
    assert_eq!(classify(299, &vec![]), None);
    assert_eq!(classify(199, &vec![]), Some(StatusKind::Other));
    assert_eq!(classify(300, &vec![]), Some(StatusKind::Other));
    assert_eq!(classify(401, &vec![]), Some(StatusKind::Unauthorized));
    assert_eq!(classify(403, &vec![]), Some(StatusKind::Other));
    assert_eq!(classify(429, &vec![]), Some(StatusKind::RateLimited { retry_after: None }));
    assert_eq!(
        classify(401, &vec![header("Retry-After", "3")]),
        Some(StatusKind::Unauthorized)
    );
}

#[test]
fn rate_limited_response_carries_retry_after() {
    let response = answer(
        429,
        vec![header("content-length", "0"), header("Retry-After", "120")],
        "{\"data\": []}",
    );
    let result = parse_response::<TwitchCategory>(response, false);
    assert_eq!(
        result,
        Err(Error::HttpStatus(HttpStatusError {
            status: 429,
            kind: StatusKind::RateLimited { retry_after: Some("120".to_string()) },
            body: b"{\"data\": []}".to_vec(),
        }))
    );
}

#[test]
fn other_failures_carry_status_and_body() {
    let result = parse_response::<TwitchCategory>(answer(401, vec![], "denied"), false);
    assert_eq!(
        result,
        Err(Error::HttpStatus(HttpStatusError {
            status: 401,
            kind: StatusKind::Unauthorized,
            body: b"denied".to_vec(),
        }))
    );
    let result = parse_response::<TwitchCategory>(answer(503, vec![], "busy"), true);
    assert_eq!(
        result,
        Err(Error::HttpStatus(HttpStatusError {
            status: 503,
            kind: StatusKind::Other,
            body: b"busy".to_vec(),
        }))
    );
}

#[test]
fn envelope_with_items_cursor_and_total_is_decoded_in_order() {
    let body = r#"{"total": 12, "pagination": {"cursor": "abc"},
        "data": [{"id": "1", "name": "A", "box_art_url": "u1", "extra": 1},
                 {"id": "2", "name": "B", "box_art_url": "u2"}],
        "unknown": {}}"#;
    let response = parse_response::<TwitchCategory>(answer(200, vec![], body), false).unwrap();
    assert_eq!(
        response,
        Response {
            data: vec![category("1", "A", "u1"), category("2", "B", "u2")],
            pagination: Some(Cursor::new("abc")),
            total: Some(12),
        }
    );
}

#[test]
fn envelope_without_cursor_or_total_is_decoded() {
    for body in [
        r#"{"data": []}"#,
        r#"{"data": [], "pagination": {}}"#,
        r#"{"data": [], "pagination": null, "total": null}"#,
        r#"{"data": [], "pagination": {"cursor": null}}"#,
    ] {
        let response = parse_response::<TwitchCategory>(answer(200, vec![], body), true).unwrap();
        assert_eq!(response, Response { data: vec![], pagination: None, total: None });
    }
    let response =
        parse_response::<TwitchCategory>(answer(200, vec![], r#"{"data": [], "pagination": {"cursor": ""}}"#), true)
            .unwrap();
    assert_eq!(response.pagination, Some(Cursor::new("")));
}

#[test]
fn body_that_is_no_json_is_a_document_error() {
    for body in ["", "<html>", "{\"data\": [}", "{\"data\": []} trailing"] {
        assert_eq!(
            parse_response::<TwitchCategory>(answer(200, vec![], body), false),
            Err(Error::Parse(ParseError::Document))
        );
    }
    assert_eq!(
        decode_document::<TwitchCategory>(None, false),
        Err(ParseError::Document)
    );
}

#[test]
fn document_that_is_no_envelope_is_an_envelope_error() {
    for body in [
        "[]",
        "null",
        "{}",
        r#"{"data": {}}"#,
        r#"{"data": null}"#,
        r#"{"data": [], "pagination": []}"#,
        r#"{"data": [], "pagination": "abc"}"#,
        r#"{"data": [], "pagination": {"cursor": 5}}"#,
        r#"{"data": [], "total": "12"}"#,
        r#"{"data": [], "total": -1}"#,
        r#"{"data": [], "total": 1.5}"#,
        r#"{"data": [], "total": 18446744073709551616}"#,
    ] {
        assert_eq!(
            parse_response::<TwitchCategory>(answer(200, vec![], body), false),
            Err(Error::Parse(ParseError::Envelope))
        );
    }
}

#[test]
fn item_missing_a_required_field_fails_the_whole_call() {
    let body = r#"{"data": [{"id": "1", "name": "A", "box_art_url": "u1"},
                             {"id": "2", "box_art_url": "u2"},
                             {"id": "3", "name": "C", "box_art_url": "u3"}],
                   "pagination": {"cursor": "abc"}}"#;
    assert_eq!(
        parse_response::<TwitchCategory>(answer(200, vec![], body), false),
        Err(Error::Parse(ParseError::Item { index: 1 }))
    );
    let body = r#"{"data": [{"id": 1, "name": "A", "box_art_url": "u1"}, 7]}"#;
    assert_eq!(
        parse_response::<TwitchCategory>(answer(200, vec![], body), false),
        Err(Error::Parse(ParseError::Item { index: 0 }))
    );
}

#[test]
fn strict_mode_refuses_unknown_members_everywhere() {
    let clean = r#"{"data": [{"id": "1", "name": "A", "box_art_url": "u1"}], "pagination": {"cursor": "c"}, "total": 1}"#;
    assert!(parse_response::<TwitchCategory>(answer(200, vec![], clean), true).is_ok());
    let in_envelope = r#"{"data": [], "points": 3}"#;
    assert!(parse_response::<TwitchCategory>(answer(200, vec![], in_envelope), false).is_ok());
    assert_eq!(
        parse_response::<TwitchCategory>(answer(200, vec![], in_envelope), true),
        Err(Error::Parse(ParseError::Envelope))
    );
    let in_pagination = r#"{"data": [], "pagination": {"cursor": "c", "next": "d"}}"#;
    assert!(parse_response::<TwitchCategory>(answer(200, vec![], in_pagination), false).is_ok());
    assert_eq!(
        parse_response::<TwitchCategory>(answer(200, vec![], in_pagination), true),
        Err(Error::Parse(ParseError::Envelope))
    );
    let in_item = r#"{"data": [{"id": "1", "name": "A", "box_art_url": "u1", "igdb_id": "9"}]}"#;
    assert!(parse_response::<TwitchCategory>(answer(200, vec![], in_item), false).is_ok());
    assert_eq!(
        parse_response::<TwitchCategory>(answer(200, vec![], in_item), true),
        Err(Error::Parse(ParseError::Item { index: 0 }))
    );
}

#[test]
fn user_subscription_is_decoded_with_and_without_gifter() {
    let body = r#"{"data": [
        {"broadcaster_id": "149747285", "broadcaster_name": "TwitchPresents",
         "broadcaster_login": "twitchpresents", "is_gift": false, "tier": "1000"},
        {"broadcaster_id": "149747285", "broadcaster_name": "TwitchPresents",
         "broadcaster_login": "twitchpresents", "is_gift": true, "tier": "Prime",
         "gifter_login": "gifter", "gifter_name": "Gifter"},
        {"broadcaster_id": "149747285", "broadcaster_name": "TwitchPresents",
         "broadcaster_login": "twitchpresents", "is_gift": false, "tier": "4000",
         "gifter_login": null}]}"#;
    let response = parse_response::<UserSubscription>(answer(200, vec![], body), true).unwrap();
    assert_eq!(
        response.data,
        vec![
            subscription(None, SubscriptionTier::Tier1),
            subscription(Some(("gifter", "Gifter")), SubscriptionTier::Prime),
            subscription(None, SubscriptionTier::Other("4000".to_string())),
        ]
    );
    let wrong = r#"{"data": [{"broadcaster_id": "1", "broadcaster_name": "n",
        "broadcaster_login": "l", "is_gift": "no", "tier": "1000"}]}"#;
    assert_eq!(
        parse_response::<UserSubscription>(answer(200, vec![], wrong), false),
        Err(Error::Parse(ParseError::Item { index: 0 }))
    );
}

#[test]
fn subscription_tiers_are_known_by_their_text() {
    assert_eq!(SubscriptionTier::from_text("1000"), SubscriptionTier::Tier1);
    assert_eq!(SubscriptionTier::from_text("2000"), SubscriptionTier::Tier2);
    assert_eq!(SubscriptionTier::from_text("3000"), SubscriptionTier::Tier3);
    assert_eq!(SubscriptionTier::from_text("Prime"), SubscriptionTier::Prime);
    assert_eq!(
        SubscriptionTier::from_text("prime"),
        SubscriptionTier::Other("prime".to_string())
    );
    for text in ["1000", "2000", "3000", "Prime", "", "5000"] {
        assert_eq!(SubscriptionTier::from_text(text).as_str(), text);
    }
}

#[test]
fn encoded_item_decodes_to_itself() {
    for strict in [false, true] {
        for item in [
            subscription(None, SubscriptionTier::Tier2),
            subscription(Some(("g", "G \"quoted\" \\ \u{1}")), SubscriptionTier::Tier3),
            subscription(None, SubscriptionTier::Other("".to_string())),
        ] {
            assert_eq!(UserSubscription::from_json(&item.to_json(), strict), Some(item));
        }
        let game = category("493057", "PLAYERUNKNOWN'S BATTLEGROUNDS", "https://x/{width}x{height}.jpg");
        assert_eq!(TwitchCategory::from_json(&game.to_json(), strict), Some(game));
    }
}

#[test]
fn encoded_envelope_survives_the_wire() {
    let responses = vec![
        Response { data: vec![], pagination: None, total: None },
        Response {
            data: vec![
                subscription(Some(("gifter", "Gifter é")), SubscriptionTier::Prime),
                subscription(None, SubscriptionTier::Tier1),
            ],
            pagination: Some(Cursor::new("eyJiIjpudWxsLCJhIjp7Ik9mZnNldCI6MjB9fQ==")),
            total: Some(u64::MAX),
        },
    ];
    for response in responses {
        let envelope = encode_envelope(&response);
        assert_eq!(decode_envelope::<UserSubscription>(&envelope, true).as_ref(), Ok(&response));
        let body = serde_json::to_vec(&lower(&envelope)).unwrap();
        let reparsed = parse_json(&body).unwrap();
        assert_eq!(decode_envelope::<UserSubscription>(&reparsed, true).as_ref(), Ok(&response));
        let again = parse_response::<UserSubscription>(
            HttpResponse { status: 200, headers: vec![], body },
            true,
        );
        assert_eq!(again, Ok(response));
    }
}
