use achvgames_com::steam::api_steampowered_com::i_steam_apps::get_app_list;
use achvgames_com::steam::api_steampowered_com::i_steam_user_stats::get_schema_for_game;
use achvgames_com::steam::api_steampowered_com::{
    reads_body_text, request_outcome, Request, SteamClientError,
};
use achvgames_com::steam::graphql::Query;
use achvgames_com::steam::store::games::GameFilter;
use achvgames_com::steam::{Game, GameWithAchievements};
use achvgames_com::utils::connection::Cursor;
use achvgames_com::utils::filter::StringFilter;

#[test]
fn app_list_uri_carries_the_key() {
    let req = get_app_list::Request { key: "KEY123".to_string() };
    assert_eq!(
        req.uri(),
        "https://api.steampowered.com/ISteamApps/GetAppList/v2/?format=json&key=KEY123"
    );
}

#[test]
fn schema_uri_carries_the_key_and_the_app_id() {
    let req = get_schema_for_game::Request { key: "K".to_string(), app_id: 440 };
    assert_eq!(
        req.uri(),
        "http://api.steampowered.com/ISteamUserStats/GetSchemaForGame/v2/?format=json&key=K&appid=440"
    );
    let negative = get_schema_for_game::Request { key: String::new(), app_id: -12 };
    assert!(negative.uri().ends_with("&key=&appid=-12"));
}

#[test]
fn header_image_url() {
    let game = Game { id: 570, name: "Dota 2".to_string() };
    assert_eq!(
        game.images().header_url,
        "https://cdn.cloudflare.steamstatic.com/steam/apps/570/header.jpg"
    );
    let zero = Game { id: 0, name: String::new() };
    assert_eq!(
        zero.images().header_url,
        "https://cdn.cloudflare.steamstatic.com/steam/apps/0/header.jpg"
    );
}

fn achievement(name: &str, description: Option<&str>) -> get_schema_for_game::ResponseAchievement {
    get_schema_for_game::ResponseAchievement {
        name: name.to_string(),
        description: description.map(|d| d.to_string()),
        icon: format!("{}-on.jpg", name),
        icon_gray: format!("{}-off.jpg", name),
    }
}

#[test]
fn game_from_request_and_response() {
    let req = get_schema_for_game::Request { key: "K".to_string(), app_id: 440 };
    let res = get_schema_for_game::Response {
        game: get_schema_for_game::ResponseGame {
            game_name: "Team Fortress 2".to_string(),
            available_game_stats: get_schema_for_game::ResponseGameStats {
                achievements: vec![achievement("first", Some("do it")), achievement("second", None)],
            },
        },
    };
    let g = GameWithAchievements::from_request_and_response(&req, &res);
    assert_eq!(g.game, Game { id: 440, name: "Team Fortress 2".to_string() });
    assert_eq!(g.achievements.len(), 2);
    assert_eq!(g.achievements[0].name, "first");
    assert_eq!(g.achievements[0].description.as_deref(), Some("do it"));
    assert_eq!(g.achievements[0].icon_locked_url, "first-off.jpg");
    assert_eq!(g.achievements[0].icon_unlocked_url, "first-on.jpg");
    assert_eq!(g.achievements[1].name, "second");
    assert_eq!(g.achievements[1].description, None);
    assert_eq!(g.achievements[1].icon_locked_url, "second-off.jpg");
}

#[test]
fn game_without_achievements() {
    let req = get_schema_for_game::Request { key: "K".to_string(), app_id: 10 };
    let res = get_schema_for_game::Response {
        game: get_schema_for_game::ResponseGame {
            game_name: "Counter-Strike".to_string(),
            available_game_stats: get_schema_for_game::ResponseGameStats { achievements: vec![] },
        },
    };
    let g = GameWithAchievements::from_request_and_response(&req, &res);
    assert_eq!(g.game.id, 10);
    assert!(g.achievements.is_empty());
}

#[test]
fn name_pattern_lowercases_between_percent_signs() {
    let filter = GameFilter { name: Some(StringFilter { contains: Some("PoRtAl".to_string()) }) };
    assert_eq!(GameFilter::name_pattern(Some(filter)).as_deref(), Some("%portal%"));
    let empty = GameFilter { name: Some(StringFilter { contains: Some(String::new()) }) };
    assert_eq!(GameFilter::name_pattern(Some(empty)).as_deref(), Some("%%"));
}

#[test]
fn name_pattern_absent_without_text() {
    assert_eq!(GameFilter::name_pattern(None), None);
    assert_eq!(GameFilter::name_pattern(Some(GameFilter { name: None })), None);
    let no_text = GameFilter { name: Some(StringFilter { contains: None }) };
    assert_eq!(GameFilter::name_pattern(Some(no_text)), None);
}

#[test]
fn request_outcome_by_status() {
    assert_eq!(request_outcome(200, Some(5u8), String::new()).ok(), Some(5));
    assert!(matches!(request_outcome::<u8>(200, None, String::new()), Err(SteamClientError::BadRequest)));
    assert!(matches!(request_outcome(400, Some(5u8), String::new()), Err(SteamClientError::BadRequest)));
    assert!(matches!(request_outcome(403, Some(5u8), String::new()), Err(SteamClientError::Forbidden)));
    assert!(matches!(
        request_outcome(429, Some(5u8), String::new()),
        Err(SteamClientError::TooManyRequests)
    ));
    match request_outcome(500, Some(5u8), "oops".to_string()) {
        Err(SteamClientError::Unknown(status, body)) => {
            assert_eq!(status, 500);
            assert_eq!(body, "oops");
        }
        _ => panic!("expected an unknown status"),
    }
}

#[test]
fn body_text_read_only_for_unexpected_status() {
    assert!(!reads_body_text(200));
    assert!(!reads_body_text(400));
    assert!(!reads_body_text(403));
    assert!(!reads_body_text(429));
    assert!(reads_body_text(404));
    assert!(reads_body_text(503));
}

#[test]
fn games_connection_of_a_full_page() {
    let games: Vec<Game> =
        (1..=3).map(|id| Game { id: id * 10, name: format!("game {}", id) }).collect();
    let connection = Query::games_connection(games.clone(), 3);
    assert_eq!(connection.edges.len(), 3);
    for (edge, game) in connection.edges.iter().zip(games.iter()) {
        assert_eq!(&edge.node, game);
        assert_eq!(edge.cursor.0, Cursor::from_i64(game.id as i64).0);
    }
    assert!(connection.page_info.has_next_page);
    assert!(!connection.page_info.has_previous_page);
    assert_eq!(connection.page_info.start_cursor.unwrap().0, "MTA");
    assert_eq!(connection.page_info.end_cursor.unwrap().0, "MzA");
}

#[test]
fn games_connection_of_a_short_and_an_empty_page() {
    let games = vec![Game { id: 7, name: "seven".to_string() }];
    let connection = Query::games_connection(games, 10);
    assert!(!connection.page_info.has_next_page);
    assert_eq!(connection.page_info.start_cursor.unwrap().try_into_i64(), Some(7));
    assert_eq!(connection.page_info.end_cursor.unwrap().try_into_i64(), Some(7));

    let empty = Query::games_connection(Vec::new(), 10);
    assert!(empty.edges.is_empty());
    assert!(!empty.page_info.has_next_page);
    assert!(empty.page_info.start_cursor.is_none());
    assert!(empty.page_info.end_cursor.is_none());
}
