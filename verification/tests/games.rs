use twitch_api2::games::{GetGamesRequest, GetTopGamesRequest};
use twitch_api2::request::{Paginated, Request};
use twitch_api2::response::Cursor;
use twitch_api2::transport::{Header, HttpResponse};

fn plain(response: http::Response<Vec<u8>>) -> HttpResponse {
    let (parts, body) = response.into_parts();
    let headers = parts
        .headers
        .iter()
        .map(|(name, value)| Header {
            name: name.as_str().to_string(),
            value: value.to_str().unwrap().to_string(),
        })
        .collect();
    HttpResponse { status: parts.status.as_u16(), headers, body }
}

#[test]
fn test_request() {
    let req = GetGamesRequest::builder()
        .id(vec!["493057".to_string()])
        .build();

    // From twitch docs
    let data = br#"
{
    "data": [
        {
            "box_art_url": "https://static-cdn.jtvnw.net/ttv-boxart/Fortnite-52x72.jpg",
            "id": "33214",
            "name": "Fortnite"
        },
        {
            "box_art_url": "https://static-cdn.jtvnw.net/ttv-boxart/Fortnite-52x72.jpg",
            "id": "33214",
            "name": "Fortnite"
        }
    ],
    "pagination": {
    "cursor": "eyJiIjpudWxsLCJhIjp7IkN"
  }
}
"#
    .to_vec();

    let http_response = http::Response::builder().body(data).unwrap();

    let uri = req.get_uri().unwrap();
    assert_eq!(
        uri.to_string(),
        "https://api.twitch.tv/helix/games?id=493057"
    );

    let response = req.parse_response(plain(http_response)).unwrap();
    println!("{:?}", response);
    assert_eq!(response.data.len(), 2);
    assert_eq!(response.data[0].id, "33214");
    assert_eq!(response.data[1].name, "Fortnite");
    assert_eq!(
        response.data[0].box_art_url,
        "https://static-cdn.jtvnw.net/ttv-boxart/Fortnite-52x72.jpg"
    );
    assert_eq!(response.pagination, Some(Cursor::new("eyJiIjpudWxsLCJhIjp7IkN")));
    assert_eq!(response.total, None);
}

#[test]
fn games_test_request() {
    let req = GetTopGamesRequest::builder().build();

    // From twitch docs
    let data = br#"
{
    "data": [
      {
        "id": "493057",
        "name": "PLAYERUNKNOWN'S BATTLEGROUNDS",
        "box_art_url": "https://static-cdn.jtvnw.net/ttv-boxart/PLAYERUNKNOWN%27S%20BATTLEGROUNDS-{width}x{height}.jpg"
      },
      {
        "id": "493057",
        "name": "PLAYERUNKNOWN'S BATTLEGROUNDS",
        "box_art_url": "https://static-cdn.jtvnw.net/ttv-boxart/PLAYERUNKNOWN%27S%20BATTLEGROUNDS-{width}x{height}.jpg"
      }
    ],
    "pagination":{"cursor":"eyJiIjpudWxsLCJhIjp7Ik9mZnNldCI6MjB9fQ=="}
}
"#
    .to_vec();

    let http_response = http::Response::builder().body(data).unwrap();

    let uri = req.get_uri().unwrap();
    assert_eq!(uri.to_string(), "https://api.twitch.tv/helix/games/top?");

    let response = req.parse_response(plain(http_response)).unwrap();
    println!("{:?}", response);
    assert_eq!(response.data.len(), 2);
    assert_eq!(response.data[0].name, "PLAYERUNKNOWN'S BATTLEGROUNDS");
    assert_eq!(
        response.pagination,
        Some(Cursor::new("eyJiIjpudWxsLCJhIjp7Ik9mZnNldCI6MjB9fQ=="))
    );
}

#[test]
fn get_games_builder_defaults_are_empty() {
    let req = GetGamesRequest::builder().build();
    assert!(req.id.is_empty());
    assert!(req.name.is_empty());
    assert_eq!(req.get_uri().unwrap(), "https://api.twitch.tv/helix/games?");
}

#[test]
fn get_games_renders_ids_then_names() {
    let req = GetGamesRequest::builder()
        .name(vec!["Fortnite".to_string(), "Rocket League".to_string()])
        .id(vec!["1".to_string(), "2".to_string()])
        .build();
    assert_eq!(
        req.get_uri().unwrap(),
        "https://api.twitch.tv/helix/games?id=1&id=2&name=Fortnite&name=Rocket%20League"
    );
    assert_eq!(req.path(), "games");
    assert!(req.required_scopes().is_empty());
}

#[test]
fn get_top_games_renders_fields_in_declared_order() {
    let req = GetTopGamesRequest::builder()
        .first(100)
        .before(Some(Cursor::new("b==")))
        .after(Some(Cursor::new("a/+")))
        .build();
    assert_eq!(
        req.get_uri().unwrap(),
        "https://api.twitch.tv/helix/games/top?after=a%2F%2B&before=b%3D%3D&first=100"
    );
}

#[test]
fn set_pagination_overwrites_only_the_forward_cursor() {
    let mut req = GetTopGamesRequest::builder()
        .first(5)
        .before(Some(Cursor::new("back")))
        .build();
    req.set_pagination(Some(Cursor::new("next")));
    assert_eq!(req.after, Some(Cursor::new("next")));
    assert_eq!(req.before, Some(Cursor::new("back")));
    assert_eq!(req.first, Some(5));
    assert_eq!(
        req.get_uri().unwrap(),
        "https://api.twitch.tv/helix/games/top?after=next&before=back&first=5"
    );
    req.set_pagination(None);
    assert_eq!(req.after, None);
    assert_eq!(
        req.get_uri().unwrap(),
        "https://api.twitch.tv/helix/games/top?before=back&first=5"
    );
}
