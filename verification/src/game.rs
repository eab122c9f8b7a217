//! One match: its times, its log lines, its mode, map and winner, and its players.

use vstd::prelude::*;

use crate::model::{faction_from_name, faction_of_name, playing_factions, Factions, Maps, Modes};
use crate::clock::{elapsed, elapsed_seconds};
use crate::player::{fits_duration, fits_i32, Player, PlayerView, MAX_DURATION_SECS};
use crate::roster::{find_player, key_index, roster_view};

verus! {

/// The statistics of one match. Times are instants (see `clock`).
#[derive(Debug)]
pub struct Game {
    pub start_time: i64,
    pub end_time: i64,
    pub current_match: Vec<String>,
    pub match_type: Modes,
    pub map: Maps,
    pub winning_team: Factions,
    pub players: Vec<Player>,
}

/// The texts of a list of lines.
pub open spec fn lines_of(lines: Seq<String>) -> Seq<Seq<char>> {
    lines.map_values(|l: String| l@)
}

impl Game {
    /// The records of the match's players.
    pub open spec fn roster(&self) -> Seq<PlayerView> {
        roster_view(self.players@)
    }

    /// The match's log lines.
    pub open spec fn lines(&self) -> Seq<Seq<char>> {
        lines_of(self.current_match@)
    }
}

impl Default for Game {
    fn default() -> (g: Self)
        ensures
            g.start_time == 0,
            g.end_time == 0,
            g.current_match@.len() == 0,
            g.match_type == Modes::SolVsAlien,
            g.map == Maps::NarakaCity,
            g.winning_team == Factions::Sol,
            g.players@.len() == 0,
    {
        Game {
            start_time: 0,
            end_time: 0,
            current_match: Vec::new(),
            match_type: Modes::SolVsAlien,
            map: Maps::NarakaCity,
            winning_team: Factions::Sol,
            players: Vec::new(),
        }
    }
}

/// A record once the match is over: a player still in the match leaves at its end, and
/// the time since they last entered counts toward their time played.
pub open spec fn closed_out(p: PlayerView, end_time: i64) -> PlayerView {
    if p.is_in_game {
        PlayerView {
            last_left_time: end_time,
            duration_played: (p.duration_played + elapsed(end_time as int, p.last_entered_time as int)) as i64,
            ..p
        }
    } else {
        p
    }
}

/// Closing out the record keeps its time played within what `TimeDelta` holds.
pub open spec fn close_out_fits(p: PlayerView, end_time: i64) -> bool {
    p.is_in_game ==> fits_duration(p.duration_played + elapsed(end_time as int, p.last_entered_time as int))
}

impl Game {
    /// The records of the players that still play at the end of the match are closed out.
    pub fn process_player_durations(&mut self)
        requires
            forall|i: int|
                0 <= i < old(self).roster().len() ==> close_out_fits(
                    #[trigger] old(self).roster()[i],
                    old(self).end_time,
                ),
        ensures
            final(self).roster().len() == old(self).roster().len(),
            forall|i: int|
                0 <= i < old(self).roster().len() ==> #[trigger] final(self).roster()[i]
                    == closed_out(old(self).roster()[i], old(self).end_time),
            final(self).start_time == old(self).start_time,
            final(self).end_time == old(self).end_time,
            final(self).current_match == old(self).current_match,
            final(self).match_type == old(self).match_type,
            final(self).map == old(self).map,
            final(self).winning_team == old(self).winning_team,
    {
        let ghost old_roster = self.roster();
        let n = self.players.len();
        let mut i: usize = 0;
        while i < n
            invariant
                n == self.players@.len(),
                n == old_roster.len(),
                i <= n,
                old_roster == old(self).roster(),
                self.end_time == old(self).end_time,
                forall|j: int| 0 <= j < n ==> close_out_fits(#[trigger] old_roster[j], self.end_time),
                forall|j: int| 0 <= j < i ==> #[trigger] self.roster()[j] == closed_out(old_roster[j], self.end_time),
                forall|j: int| i <= j < n ==> #[trigger] self.roster()[j] == old_roster[j],
                self.start_time == old(self).start_time,
                self.current_match == old(self).current_match,
                self.match_type == old(self).match_type,
                self.map == old(self).map,
                self.winning_team == old(self).winning_team,
            decreases n - i,
        {
            let ghost before = self.roster();
            if self.players[i].is_in_game {
                assert(before[i as int] == old_roster[i as int]);
                let mut p = self.players[i].copy();
                let played = p.duration_played as i128 + elapsed_seconds(self.end_time, p.last_entered_time);
                let entered = p.last_entered_time;
                p.set_presence(true, entered, self.end_time, played as i64);
                self.players.set(i, p);
                assert(self.roster() =~= before.update(i as int, closed_out(old_roster[i as int], self.end_time)));
            }
            i = i + 1;
        }
    }

    /// `process_player_durations` when every record can be closed out; otherwise `false`,
    /// with the match unchanged.
    pub fn try_process_player_durations(&mut self) -> (r: bool)
        ensures
            r == forall|i: int|
                0 <= i < old(self).roster().len() ==> close_out_fits(
                    #[trigger] old(self).roster()[i],
                    old(self).end_time,
                ),
            r ==> final(self).roster().len() == old(self).roster().len(),
            r ==> forall|i: int|
                0 <= i < old(self).roster().len() ==> #[trigger] final(self).roster()[i]
                    == closed_out(old(self).roster()[i], old(self).end_time),
            !r ==> final(self).roster() == old(self).roster(),
            final(self).start_time == old(self).start_time,
            final(self).end_time == old(self).end_time,
            final(self).current_match == old(self).current_match,
            final(self).match_type == old(self).match_type,
            final(self).map == old(self).map,
            final(self).winning_team == old(self).winning_team,
    {
        let n = self.players.len();
        let mut i: usize = 0;
        while i < n
            invariant
                n == self.players@.len(),
                i <= n,
                self == old(self),
                forall|j: int| 0 <= j < i ==> close_out_fits(#[trigger] self.roster()[j], self.end_time),
            decreases n - i,
        {
            let p = &self.players[i];
            if p.is_in_game {
                let played = p.duration_played as i128 + elapsed_seconds(self.end_time, p.last_entered_time);
                if played < -(MAX_DURATION_SECS as i128) || played > MAX_DURATION_SECS as i128 {
                    assert(!close_out_fits(self.roster()[i as int], self.end_time));
                    return false;
                }
            }
            i = i + 1;
        }
        self.process_player_durations();
        true
    }

    /// The players of the match.
    pub fn get_player_vec(&self) -> (r: Vec<&Player>)
        ensures
            r@.len() == self.players@.len(),
            forall|i: int| 0 <= i < r@.len() ==> *r@[i] == self.players@[i],
    {
        let mut r: Vec<&Player> = Vec::new();
        let mut i: usize = 0;
        while i < self.players.len()
            invariant
                i <= self.players@.len(),
                r@.len() == i,
                forall|j: int| 0 <= j < i ==> *r@[j] == self.players@[j],
            decreases self.players@.len() - i,
        {
            r.push(&self.players[i]);
            i = i + 1;
        }
        r
    }

    /// The record of the player `player_id` for `faction`, if there is one.
    pub fn get_player(&self, player_id: i64, faction: Factions) -> (r: Option<&Player>)
        ensures
            key_index(self.roster(), player_id, faction) < 0 ==> r is None,
            key_index(self.roster(), player_id, faction) >= 0 ==> (r matches Some(p) && *p
                == self.players@[key_index(self.roster(), player_id, faction)]),
    {
        proof {
            crate::roster::lemma_key_index(self.roster(), player_id, faction);
        }
        match find_player(&self.players, player_id, faction) {
            Some(k) => Some(&self.players[k]),
            None => None,
        }
    }

    /// The length of the match in seconds.
    pub fn get_match_length(&self) -> (r: i32)
        requires
            fits_i32(elapsed(self.end_time as int, self.start_time as int)),
        ensures
            r == elapsed(self.end_time as int, self.start_time as int),
    {
        elapsed_seconds(self.end_time, self.start_time) as i32
    }

    /// The factions that play a match of this match's mode.
    pub fn _get_playing_factions(&self) -> (r: Vec<Factions>)
        ensures
            r@ == playing_factions(self.match_type),
    {
        let r = match self.match_type {
            Modes::SolVsAlien => vec![Factions::Sol, Factions::Alien],
            Modes::CentauriVsSol => vec![Factions::Centauri, Factions::Sol],
            Modes::CentauriVsSolVsAlien => vec![Factions::Sol, Factions::Alien, Factions::Centauri],
        };
        assert(r@ =~= playing_factions(self.match_type));
        r
    }

    /// The faction that a team name in the log stands for: `Sol`, `Alien` and `Centauri`
    /// by their names, every other name `Wildlife`.
    pub fn get_factions(faction_name: &str) -> (r: Factions)
        ensures
            r == faction_of_name(faction_name@),
    {
        faction_from_name(faction_name)
    }
}

/// Closing out at the match's end leaves the record of a player who is no longer in the
/// match as it is; a player still in it leaves at the end, and the time since their last
/// entry is added to their time played, all else kept.
pub proof fn law_closing_out(p: PlayerView, end_time: i64)
    ensures
        !p.is_in_game ==> closed_out(p, end_time) == p,
        p.is_in_game ==> {
            let q = closed_out(p, end_time);
            &&& q.last_left_time == end_time
            &&& fits_duration(p.duration_played + elapsed(end_time as int, p.last_entered_time as int))
                ==> q.duration_played == p.duration_played + elapsed(end_time as int, p.last_entered_time as int)
            &&& q == PlayerView { last_left_time: q.last_left_time, duration_played: q.duration_played, ..p }
        },
{
}

} // verus!
