//! The ids under which factions, maps and modes are stored in the rankings database, and
//! the decisions made while storing a match.

use vstd::prelude::*;

use crate::model::{Factions, Maps, Modes};
use crate::search::{first_index, lemma_first_index_at, lemma_first_index_none};

verus! {

/// A player search that found no stored player gives this id.
pub const PLAYER_NOT_FOUND: i32 = -1;

/// A match is stored only with at least this many players.
pub const MIN_PLAYERS_TO_STORE: usize = 7;

/// The stored id of a faction.
pub open spec fn faction_id(faction: Factions) -> i32 {
    match faction {
        Factions::Alien => 0,
        Factions::Centauri => 1,
        Factions::Sol => 2,
        Factions::Wildlife => 3,
    }
}

/// The stored id of a faction.
pub fn get_faction_id(faction: &Factions) -> (r: i32)
    ensures
        r == faction_id(*faction),
{
    match faction {
        Factions::Alien => 0,
        Factions::Centauri => 1,
        Factions::Sol => 2,
        Factions::Wildlife => 3,
    }
}

/// The stored id of a map; the maps after the first five have none.
pub open spec fn map_id(map: Maps) -> Option<i32> {
    match map {
        Maps::NarakaCity => Some(1),
        Maps::MonumentValley => Some(2),
        Maps::RiftBasin => Some(3),
        Maps::Badlands => Some(4),
        Maps::GreatErg => Some(5),
        _ => None,
    }
}

/// The stored id of a map, if it has one.
pub fn get_map_id(map: Maps) -> (r: Option<i32>)
    ensures
        r == map_id(map),
{
    match map {
        Maps::NarakaCity => Some(1),
        Maps::MonumentValley => Some(2),
        Maps::RiftBasin => Some(3),
        Maps::Badlands => Some(4),
        Maps::GreatErg => Some(5),
        _ => None,
    }
}

/// The stored id of a game mode.
pub open spec fn mode_id(mode: Modes) -> i32 {
    match mode {
        Modes::SolVsAlien => 0,
        Modes::CentauriVsSol => 1,
        Modes::CentauriVsSolVsAlien => 2,
    }
}

/// The stored id of a game mode.
pub fn get_mode_id(mode: Modes) -> (r: i32)
    ensures
        r == mode_id(mode),
{
    match mode {
        Modes::SolVsAlien => 0,
        Modes::CentauriVsSol => 1,
        Modes::CentauriVsSolVsAlien => 2,
    }
}

/// Whether a match with this many players is stored.
pub fn enough_players(count: usize) -> (r: bool)
    ensures
        r == (count >= MIN_PLAYERS_TO_STORE),
{
    count >= MIN_PLAYERS_TO_STORE
}

/// The stored id of a player, given what the search for their Steam id gave and the
/// players stored earlier in this run (Steam id, stored id): the search's result if it
/// found one, else the id stored earlier in the run; `None` if the player must be stored.
pub open spec fn known_player_id(query_output: i32, added: Seq<(i64, i32)>, steam_id: i64) -> Option<i32> {
    if query_output != PLAYER_NOT_FOUND {
        Some(query_output)
    } else {
        let k = first_added(added, steam_id);
        if k >= 0 {
            Some(added[k].1)
        } else {
            None
        }
    }
}

/// Whether a (Steam id, stored id) entry is of `steam_id`, as a property.
pub open spec fn is_added(steam_id: i64) -> spec_fn((i64, i32)) -> bool {
    |e: (i64, i32)| e.0 == steam_id
}

/// The position of the first entry of a Steam id among the players stored in this run,
/// or -1.
pub open spec fn first_added(added: Seq<(i64, i32)>, steam_id: i64) -> int {
    first_index(added, is_added(steam_id))
}

/// The stored id of a player (see `known_player_id`).
pub fn resolve_player_id(query_output: i32, added: &Vec<(i64, i32)>, steam_id: i64) -> (r: Option<i32>)
    ensures
        r == known_player_id(query_output, added@, steam_id),
{
    if query_output != PLAYER_NOT_FOUND {
        return Some(query_output);
    }
    let mut i: usize = 0;
    while i < added.len()
        invariant
            query_output == PLAYER_NOT_FOUND,
            i <= added@.len(),
            forall|j: int| 0 <= j < i ==> (#[trigger] added@[j]).0 != steam_id,
        decreases added@.len() - i,
    {
        if added[i].0 == steam_id {
            proof {
                lemma_first_index_at(added@, is_added(steam_id), i as int);
            }
            return Some(added[i].1);
        }
        i = i + 1;
    }
    proof {
        lemma_first_index_none(added@, is_added(steam_id));
    }
    None
}

/// The place of a commander in the rating of a match: 1 for a win, 2 for a loss.
pub fn win_place(did_win: bool) -> (r: usize)
    ensures
        r == (if did_win { 1usize } else { 2usize }),
{
    if did_win {
        1
    } else {
        2
    }
}

/// The win count a place adds: 1 for first place, 0 otherwise.
pub fn win_increment(place: usize) -> (r: i32)
    ensures
        r == (if place == 1 { 1i32 } else { 0i32 }),
{
    if place == 1 {
        1
    } else {
        0
    }
}

} // verus!
