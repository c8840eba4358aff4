use twitch_api2::decimal::{parse_u64, render_u64};
use twitch_api2::error::EncodingError;
use twitch_api2::query::{encode_component, encode_query, QueryParam, QueryValue};
use twitch_api2::request::{build_uri, MAX_URI_LEN};
use twitch_api2::scope::{check, Scope};
use twitch_api2::text::same_text;

fn repeated(name: &str, values: &[&str]) -> QueryParam {
    QueryParam {
        name: name.to_string(),
        value: QueryValue::Repeated(values.iter().map(|v| v.to_string()).collect()),
    }
}

fn scalar(name: &str, value: Option<&str>) -> QueryParam {
    QueryParam {
        name: name.to_string(),
        value: QueryValue::Absentable(value.map(|v| v.to_string())),
    }
}

fn scopes(names: &[&str]) -> Vec<Scope> {
    names.iter().map(|n| Scope::new(n)).collect()
}

#[test]
fn unreserved_characters_stand_for_themselves() {
    let text = "ABCXYZabcxyz0123456789-._~";
    assert_eq!(encode_component(text), text);
}

#[test]
fn other_characters_are_percent_encoded_in_upper_case() {
    assert_eq!(encode_component("a b"), "a%20b");
    assert_eq!(encode_component("a+b&c=d"), "a%2Bb%26c%3Dd");
    assert_eq!(encode_component("/?#%"), "%2F%3F%23%25");
    assert_eq!(encode_component("*"), "%2A");
    assert_eq!(encode_component("\u{0}\u{7f}"), "%00%7F");
    assert_eq!(encode_component(""), "");
}

#[test]
fn characters_beyond_ascii_are_encoded_byte_by_byte() {
    assert_eq!(encode_component("é"), "%C3%A9");
    assert_eq!(encode_component("日本"), "%E6%97%A5%E6%9C%AC");
    assert_eq!(encode_component("😀"), "%F0%9F%98%80");
}

#[test]
fn no_present_parameter_renders_nothing() {
    assert_eq!(encode_query(&vec![]), "");
    assert_eq!(
        encode_query(&vec![scalar("after", None), repeated("id", &[]), scalar("first", None)]),
        ""
    );
}

#[test]
fn repeated_values_render_one_pair_each() {
    assert_eq!(encode_query(&vec![repeated("key", &["a", "b"])]), "key=a&key=b");
    assert_eq!(
        encode_query(&vec![
            scalar("x", Some("1")),
            repeated("key", &["a", "b"]),
            scalar("y", Some("2")),
        ]),
        "x=1&key=a&key=b&y=2"
    );
    assert_eq!(
        encode_query(&vec![repeated("empty", &[]), repeated("key", &["b", "a", "b"])]),
        "key=b&key=a&key=b"
    );
}

#[test]
fn parameters_keep_their_order_and_absent_ones_are_left_out() {
    assert_eq!(
        encode_query(&vec![
            scalar("b", Some("2")),
            scalar("gone", None),
            scalar("a", Some("1 1")),
            scalar("empty", Some("")),
        ]),
        "b=2&a=1%201&empty="
    );
    assert_eq!(encode_query(&vec![scalar("a key", Some("v"))]), "a%20key=v");
}

#[test]
fn uri_is_base_path_question_mark_and_query() {
    assert_eq!(
        build_uri("games", &vec![repeated("id", &["493057"])]).unwrap(),
        "https://api.twitch.tv/helix/games?id=493057"
    );
    assert_eq!(
        build_uri("games/top", &vec![]).unwrap(),
        "https://api.twitch.tv/helix/games/top?"
    );
}

#[test]
fn uri_at_the_limit_is_rendered_and_one_beyond_is_refused() {
    let fixed = "https://api.twitch.tv/helix/games?id=".len();
    let fits = "x".repeat(MAX_URI_LEN - fixed);
    let uri = build_uri("games", &vec![repeated("id", &[fits.as_str()])]).unwrap();
    assert_eq!(uri.len(), 65534);
    let too_long = "x".repeat(MAX_URI_LEN - fixed + 1);
    assert_eq!(
        build_uri("games", &vec![repeated("id", &[too_long.as_str()])]),
        Err(EncodingError::TooLong)
    );
}

#[test]
fn numbers_render_as_decimal_text() {
    assert_eq!(render_u64(0), "0");
    assert_eq!(render_u64(7), "7");
    assert_eq!(render_u64(10), "10");
    assert_eq!(render_u64(65534), "65534");
    assert_eq!(render_u64(u64::MAX), "18446744073709551615");
}

#[test]
fn digits_parse_to_their_value() {
    assert_eq!(parse_u64("0"), Some(0));
    assert_eq!(parse_u64("007"), Some(7));
    assert_eq!(parse_u64("493057"), Some(493057));
    assert_eq!(parse_u64("18446744073709551615"), Some(u64::MAX));
}

#[test]
fn anything_but_digits_that_fit_parses_to_nothing() {
    assert_eq!(parse_u64(""), None);
    assert_eq!(parse_u64("-1"), None);
    assert_eq!(parse_u64("+1"), None);
    assert_eq!(parse_u64("1.0"), None);
    assert_eq!(parse_u64("1e3"), None);
    assert_eq!(parse_u64(" 1"), None);
    assert_eq!(parse_u64("12a"), None);
    assert_eq!(parse_u64("١٢"), None);
    assert_eq!(parse_u64("18446744073709551616"), None);
    assert_eq!(parse_u64("99999999999999999999999"), None);
}

#[test]
fn rendered_numbers_parse_back() {
    for n in [0u64, 1, 9, 10, 99, 100, 12345, u64::MAX - 1, u64::MAX] {
        assert_eq!(parse_u64(&render_u64(n)), Some(n));
    }
}

#[test]
fn texts_compare_by_their_characters() {
    assert!(same_text("", ""));
    assert!(same_text("cursor", "cursor"));
    assert!(!same_text("cursor", "Cursor"));
    assert!(!same_text("cursor", "cursors"));
    assert!(same_text("é", "é"));
}

#[test]
fn check_passes_when_every_required_scope_is_granted() {
    assert_eq!(check(&scopes(&[]), &scopes(&[])), Ok(()));
    assert_eq!(check(&scopes(&[]), &scopes(&["a"])), Ok(()));
    assert_eq!(check(&scopes(&["a", "b"]), &scopes(&["c", "b", "a"])), Ok(()));
    assert_eq!(check(&scopes(&["a", "a"]), &scopes(&["a"])), Ok(()));
}

#[test]
fn check_names_exactly_the_missing_scopes() {
    let err = check(&scopes(&["a", "b", "c"]), &scopes(&["b"])).unwrap_err();
    assert_eq!(err.missing, scopes(&["a", "c"]));
    let err = check(&scopes(&["user:read:email"]), &scopes(&[])).unwrap_err();
    assert_eq!(err.missing, scopes(&["user:read:email"]));
    let err = check(&scopes(&["x", "y", "x", "z", "y"]), &scopes(&["z"])).unwrap_err();
    assert_eq!(err.missing, scopes(&["x", "y"]));
    let err = check(&scopes(&["A"]), &scopes(&["a"])).unwrap_err();
    assert_eq!(err.missing, scopes(&["A"]));
}

#[test]
fn scope_keeps_its_name() {
    let scope = Scope::new("bits:read");
    assert_eq!(scope.as_str(), "bits:read");
    assert_eq!(scope.duplicate(), scope);
}
