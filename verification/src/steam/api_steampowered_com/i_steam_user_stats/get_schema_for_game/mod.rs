//! `ISteamUserStats/GetSchemaForGame`: the name and achievements of one game.

use crate::steam::{Game, GameAchievement, GameWithAchievements};
use crate::utils::decimal::{integer_digits, integer_text};
use crate::utils::text::{ascii_text, copy_optional_text, push_ascii};
use vstd::prelude::*;

verus! {

/// The reply: the game.
#[derive(Debug)]
pub struct Response {
    pub game: ResponseGame,
}

/// The game of the reply.
#[derive(Debug)]
pub struct ResponseGame {
    pub game_name: String,
    pub available_game_stats: ResponseGameStats,
}

/// The stats of the game.
#[derive(Debug)]
pub struct ResponseGameStats {
    pub achievements: Vec<ResponseAchievement>,
}

/// One achievement as the reply describes it: `icon` is shown once it is unlocked,
/// `icon_gray` before.
#[derive(Debug)]
pub struct ResponseAchievement {
    pub name: String,
    pub description: Option<String>,
    pub icon: String,
    pub icon_gray: String,
}

/// The request for one app, made with a Web API key.
#[derive(Debug, Clone)]
pub struct Request {
    pub key: String,
    pub app_id: i64,
}

impl Request {
    /// The address this request is sent to.
    pub open spec fn uri_of(key: Seq<char>, app_id: i64) -> Seq<char> {
        "http://api.steampowered.com/ISteamUserStats/GetSchemaForGame/v2/?format=json&key="@ + key
            + "&appid="@ + ascii_text(integer_digits(app_id as int))
    }
}

impl Request {
    /// The address is the GetSchemaForGame endpoint asking for JSON, with the key and then
    /// the app id in decimal as its query parameters.
    pub proof fn law_uri(key: Seq<char>, app_id: i64)
        ensures
            ({
                let uri = Request::uri_of(key, app_id);
                let base = "http://api.steampowered.com/ISteamUserStats/GetSchemaForGame/v2/?format=json&key="@;
                let id = "&appid="@ + ascii_text(integer_digits(app_id as int));
                &&& uri.len() == base.len() + key.len() + id.len()
                &&& uri.subrange(0, base.len() as int) == base
                &&& uri.subrange(base.len() as int, base.len() as int + key.len()) == key
                &&& uri.subrange(base.len() as int + key.len(), uri.len() as int) == id
            }),
    {
        let uri = Request::uri_of(key, app_id);
        let base = "http://api.steampowered.com/ISteamUserStats/GetSchemaForGame/v2/?format=json&key="@;
        let id = "&appid="@ + ascii_text(integer_digits(app_id as int));
        assert(uri =~= base + key + id);
        assert(uri.subrange(0, base.len() as int) =~= base);
        assert(uri.subrange(base.len() as int, base.len() as int + key.len()) =~= key);
        assert(uri.subrange(base.len() as int + key.len(), uri.len() as int) =~= id);
    }
}

impl crate::steam::api_steampowered_com::Request for Request {
    fn uri(&self) -> (r: String)
        ensures
            r@ == Request::uri_of(self.key@, self.app_id),
            r@ == "http://api.steampowered.com/ISteamUserStats/GetSchemaForGame/v2/?format=json&key="@
                + self.key@ + "&appid="@ + ascii_text(integer_digits(self.app_id as int)),
    {
        let digits = integer_text(self.app_id);
        let mut uri = String::new();
        uri.append(
            "http://api.steampowered.com/ISteamUserStats/GetSchemaForGame/v2/?format=json&key=",
        );
        uri.append(self.key.as_str());
        uri.append("&appid=");
        push_ascii(&mut uri, digits.as_slice());
        assert(uri@ =~= Request::uri_of(self.key@, self.app_id));
        uri
    }
}

/// The achievement of the catalogue that the reply's achievement describes.
pub open spec fn achievement_of(a: ResponseAchievement) -> GameAchievement {
    GameAchievement {
        name: a.name,
        description: a.description,
        icon_locked_url: a.icon_gray,
        icon_unlocked_url: a.icon,
    }
}

/// An achievement keeps its name and description; the reply's `icon` is the unlocked
/// icon and its `icongray` the locked one, whether or not it has a description.
pub proof fn law_achievement_fields(a: ResponseAchievement)
    ensures
        achievement_of(a).name == a.name,
        achievement_of(a).description == a.description,
        achievement_of(a).icon_unlocked_url == a.icon,
        achievement_of(a).icon_locked_url == a.icon_gray,
{
}

impl GameWithAchievements {
    /// The game that the request asked for, named and with the achievements of the reply,
    /// in the reply's order.
    pub fn from_request_and_response(req: &Request, res: &Response) -> (r: GameWithAchievements)
        requires
            0 <= req.app_id <= u32::MAX,
        ensures
            r.game.id == req.app_id,
            r.game.name == res.game.game_name,
            r.achievements@ == res.game.available_game_stats.achievements@.map_values(
                |a: ResponseAchievement| achievement_of(a),
            ),
            r.achievements@.len() == res.game.available_game_stats.achievements@.len(),
            forall|i: int|
                0 <= i < r.achievements@.len() ==> {
                    let a = res.game.available_game_stats.achievements@[i];
                    &&& (#[trigger] r.achievements@[i]).name == a.name
                    &&& r.achievements@[i].description == a.description
                    &&& r.achievements@[i].icon_unlocked_url == a.icon
                    &&& r.achievements@[i].icon_locked_url == a.icon_gray
                },
    {
        let source = &res.game.available_game_stats.achievements;
        let len = source.len();
        let mut achievements: Vec<GameAchievement> = Vec::new();
        let mut i: usize = 0;
        while i < len
            invariant
                len == source@.len(),
                i <= len,
                achievements@ == source@.take(i as int).map_values(
                    |a: ResponseAchievement| achievement_of(a),
                ),
            decreases len - i,
        {
            let achv = &source[i];
            let item = GameAchievement {
                name: achv.name.clone(),
                description: copy_optional_text(&achv.description),
                icon_locked_url: achv.icon_gray.clone(),
                icon_unlocked_url: achv.icon.clone(),
            };
            achievements.push(item);
            assert(source@.take(i + 1).map_values(|a: ResponseAchievement| achievement_of(a))
                =~= source@.take(i as int).map_values(|a: ResponseAchievement| achievement_of(a)).push(
                achievement_of(source@[i as int]),
            ));
            i = i + 1;
        }
        assert(source@.take(len as int) =~= source@);
        GameWithAchievements {
            game: Game { id: req.app_id as u32, name: res.game.game_name.clone() },
            achievements,
        }
    }
}

} // verus!
