//! The catalogue's GraphQL queries: how a listing of games becomes a connection.

use crate::steam::Game;
use crate::utils::connection::{Connection, Cursor, Edge, PageInfo};
use vstd::prelude::*;

verus! {

/// The root of the catalogue's queries.
pub struct Query;

impl Query {
    /// The connection that answers a listing of games asked for `first` at a time: one edge
    /// per game, in order, each with the cursor of the game's id. A next page is announced
    /// when the listing is full.
    pub fn games_connection(games: Vec<Game>, first: usize) -> (r: Connection<Game>)
        ensures
            r.edges@.len() == games@.len(),
            forall|i: int|
                0 <= i < games@.len() ==> (#[trigger] r.edges@[i]).node == games@[i]
                    && r.edges@[i].cursor@ == Cursor::text_of(games@[i].id as i64),
            r.page_info.has_next_page == (games@.len() == first),
            !r.page_info.has_previous_page,
            games@.len() == 0 ==> r.page_info.start_cursor is None && r.page_info.end_cursor is None,
            games@.len() > 0 ==> r.page_info.start_cursor is Some && r.page_info.start_cursor->0@
                == Cursor::text_of(games@[0].id as i64) && r.page_info.end_cursor is Some
                && r.page_info.end_cursor->0@ == Cursor::text_of(games@.last().id as i64),
    {
        let len = games.len();
        let mut edges: Vec<Edge<Game>> = Vec::new();
        let mut i: usize = 0;
        while i < len
            invariant
                len == games@.len(),
                i <= len,
                edges@.len() == i,
                forall|t: int|
                    0 <= t < i ==> (#[trigger] edges@[t]).node == games@[t] && edges@[t].cursor@
                        == Cursor::text_of(games@[t].id as i64),
            decreases len - i,
        {
            let game = &games[i];
            let cursor = Cursor::from_i64(game.id as i64);
            let node = Game { id: game.id, name: game.name.clone() };
            edges.push(Edge { node, cursor });
            i = i + 1;
        }
        let start_cursor = if len > 0 {
            Some(Cursor(edges[0].cursor.0.clone()))
        } else {
            None
        };
        let end_cursor = if len > 0 {
            Some(Cursor(edges[len - 1].cursor.0.clone()))
        } else {
            None
        };
        let page_info = PageInfo {
            has_next_page: len == first,
            has_previous_page: false,
            start_cursor,
            end_cursor,
        };
        Connection { edges, page_info }
    }
}

} // verus!
