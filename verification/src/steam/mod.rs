//! Steam games and their achievements.

pub mod api_steampowered_com;
pub mod graphql;
pub mod store;
pub mod worker;

use crate::utils::decimal::{natural_digits, push_natural};
use crate::utils::text::{ascii_text, push_ascii};
use vstd::prelude::*;

verus! {

/// A game of the Steam store, by its app id.
#[derive(Debug, Clone, PartialEq)]
pub struct Game {
    pub id: u32,
    pub name: String,
}

/// An achievement of a game, with the icons shown before and after it is unlocked.
#[derive(Debug, Clone)]
pub struct GameAchievement {
    pub name: String,
    pub description: Option<String>,
    pub icon_locked_url: String,
    pub icon_unlocked_url: String,
}

/// The pictures of a game.
#[derive(Debug, Clone)]
pub struct GameImages {
    pub header_url: String,
}

/// A game together with all its achievements.
#[derive(Debug, Clone)]
pub struct GameWithAchievements {
    pub game: Game,
    pub achievements: Vec<GameAchievement>,
}

impl Game {
    /// The address of the header picture of the game with this id on Steam's CDN.
    pub open spec fn header_url_of(id: u32) -> Seq<char> {
        "https://cdn.cloudflare.steamstatic.com/steam/apps/"@ + ascii_text(natural_digits(id as nat))
            + "/header.jpg"@
    }

    /// Every header address is Steam's CDN folder of the app, then the app id in decimal,
    /// then `/header.jpg`.
    pub proof fn law_header_url(id: u32)
        ensures
            ({
                let url = Game::header_url_of(id);
                let digits = ascii_text(natural_digits(id as nat));
                &&& url.len() == 50 + digits.len() + 11
                &&& url.subrange(0, 50) == "https://cdn.cloudflare.steamstatic.com/steam/apps/"@
                &&& url.subrange(50, 50 + digits.len() as int) == digits
                &&& url.subrange(url.len() - 11, url.len() as int) == "/header.jpg"@
            }),
    {
        reveal_strlit("https://cdn.cloudflare.steamstatic.com/steam/apps/");
        reveal_strlit("/header.jpg");
        let url = Game::header_url_of(id);
        let digits = ascii_text(natural_digits(id as nat));
        assert(url.subrange(0, 50) =~= "https://cdn.cloudflare.steamstatic.com/steam/apps/"@);
        assert(url.subrange(50, 50 + digits.len() as int) =~= digits);
        assert(url.subrange(url.len() - 11, url.len() as int) =~= "/header.jpg"@);
    }

    /// The pictures of this game.
    pub fn images(&self) -> (r: GameImages)
        ensures
            r.header_url@ == Game::header_url_of(self.id),
            r.header_url@ == "https://cdn.cloudflare.steamstatic.com/steam/apps/"@ + ascii_text(
                natural_digits(self.id as nat),
            ) + "/header.jpg"@,
    {
        let mut digits: Vec<u8> = Vec::new();
        push_natural(&mut digits, self.id as u64);
        let mut url = String::new();
        url.append("https://cdn.cloudflare.steamstatic.com/steam/apps/");
        push_ascii(&mut url, digits.as_slice());
        url.append("/header.jpg");
        assert(url@ =~= Game::header_url_of(self.id));
        GameImages { header_url: url }
    }
}

} // verus!
