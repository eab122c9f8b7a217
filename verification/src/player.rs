//! A player's record for one faction in one match, and how kills, deaths and structure
//! kills change it.

use vstd::prelude::*;

use crate::bindings::{player_summary, summary_text};
use crate::model::{
    structure_points, structure_tier, structure_tier_of, unit_points, unit_points_of, unit_tier,
    unit_tier_of, Factions, TIER_ONE, TIER_TWO,
};

verus! {

/// The name a faction is written with.
pub open spec fn faction_label(f: Factions) -> Seq<char> {
    match f {
        Factions::Sol => "Sol"@,
        Factions::Alien => "Alien"@,
        Factions::Centauri => "Centauri"@,
        Factions::Wildlife => "Wildlife"@,
    }
}

/// Whether `x` is a value of `i32`.
pub open spec fn fits_i32(x: int) -> bool {
    i32::MIN <= x && x <= i32::MAX
}

/// The largest duration, in whole seconds, that chrono's `TimeDelta` holds (its range is
/// that of `i64` milliseconds); a sum of durations outside `-MAX_DURATION_SECS ..=
/// MAX_DURATION_SECS` overflows.
pub const MAX_DURATION_SECS: i64 = 9_223_372_036_854_775;

/// Whether `d` seconds is a duration that `TimeDelta` holds.
pub open spec fn fits_duration(d: int) -> bool {
    -MAX_DURATION_SECS <= d && d <= MAX_DURATION_SECS
}

/// The time recorded as "left" for a player who has not left: later than every instant
/// that a log line gives.
pub const STILL_CONNECTED: i64 = i64::MAX;

/// One player's statistics for one faction of a match. Times are instants (see `clock`);
/// durations are whole seconds.
#[derive(Debug)]
pub struct Player {
    pub player_id: i64,
    pub player_name: String,
    pub faction_type: Factions,
    pub is_commander: bool,
    pub unit_kill: [i32; 3],
    pub total_unit_kills: i32,
    pub structure_kill: [i32; 3],
    pub total_structure_kills: i32,
    pub death: i32,
    pub points: i32,
    pub winner: bool,
    pub is_in_game: bool,
    pub last_entered_time: i64,
    pub last_left_time: i64,
    pub duration_played: i64,
}

/// What a `Player` holds, with the name as its characters.
#[verifier::ext_equal]
pub struct PlayerView {
    pub player_id: i64,
    pub player_name: Seq<char>,
    pub faction_type: Factions,
    pub is_commander: bool,
    pub unit_kill: Seq<i32>,
    pub total_unit_kills: i32,
    pub structure_kill: Seq<i32>,
    pub total_structure_kills: i32,
    pub death: i32,
    pub points: i32,
    pub winner: bool,
    pub is_in_game: bool,
    pub last_entered_time: i64,
    pub last_left_time: i64,
    pub duration_played: i64,
}

impl View for Player {
    type V = PlayerView;

    open spec fn view(&self) -> PlayerView {
        PlayerView {
            player_id: self.player_id,
            player_name: self.player_name@,
            faction_type: self.faction_type,
            is_commander: self.is_commander,
            unit_kill: self.unit_kill@,
            total_unit_kills: self.total_unit_kills,
            structure_kill: self.structure_kill@,
            total_structure_kills: self.total_structure_kills,
            death: self.death,
            points: self.points,
            winner: self.winner,
            is_in_game: self.is_in_game,
            last_entered_time: self.last_entered_time,
            last_left_time: self.last_left_time,
            duration_played: self.duration_played,
        }
    }
}

/// A player who has not scored yet.
pub open spec fn new_player(
    id: i64,
    name: Seq<char>,
    f: Factions,
    entered: i64,
    left: i64,
    in_game: bool,
) -> PlayerView {
    PlayerView {
        player_id: id,
        player_name: name,
        faction_type: f,
        is_commander: false,
        unit_kill: seq![0i32, 0i32, 0i32],
        total_unit_kills: 0,
        structure_kill: seq![0i32, 0i32, 0i32],
        total_structure_kills: 0,
        death: 0,
        points: 0,
        winner: false,
        is_in_game: in_game,
        last_entered_time: entered,
        last_left_time: left,
        duration_played: 0,
    }
}

/// `1` for a kill of an enemy, `-1` for a kill of a unit of the killer's own faction.
pub open spec fn kill_sign(p: PlayerView, enemy_faction: Factions) -> int {
    if enemy_faction != p.faction_type {
        1
    } else {
        -1
    }
}

/// Recording a kill of `unit` keeps every counter within `i32`.
pub open spec fn unit_kill_fits(p: PlayerView, unit: Seq<char>, enemy_faction: Factions) -> bool {
    let e = kill_sign(p, enemy_faction);
    &&& fits_i32(p.total_unit_kills + e)
    &&& match unit_tier(unit) {
        Some(t) => fits_i32(p.unit_kill[t] + e) && fits_i32(p.points + unit_points(unit) * e),
        None => true,
    }
}

/// The record after a kill of `unit`, a unit of `enemy_faction`: the kill counts for the
/// unit's tier, and its points, positively against an enemy and negatively against one's
/// own faction.
pub open spec fn after_unit_kill(p: PlayerView, unit: Seq<char>, enemy_faction: Factions) -> PlayerView {
    let e = kill_sign(p, enemy_faction);
    let p1 = PlayerView { total_unit_kills: (p.total_unit_kills + e) as i32, ..p };
    match unit_tier(unit) {
        Some(t) => PlayerView {
            unit_kill: p1.unit_kill.update(t, (p1.unit_kill[t] + e) as i32),
            points: (p1.points + unit_points(unit) * e) as i32,
            ..p1
        },
        None => p1,
    }
}

/// Recording a death keeps every counter within `i32`.
pub open spec fn death_fits(p: PlayerView, unit: Seq<char>) -> bool {
    fits_i32(p.death + 1) && fits_i32(p.points - unit_points(unit))
}

/// The record after the player's `unit` was killed: one more death, and the unit's points
/// lost.
pub open spec fn after_death(p: PlayerView, unit: Seq<char>) -> PlayerView {
    PlayerView {
        death: (p.death + 1) as i32,
        points: (p.points - unit_points(unit)) as i32,
        ..p
    }
}

/// Recording a structure kill keeps every counter within `i32`.
pub open spec fn structure_kill_fits(p: PlayerView, structure: Seq<char>) -> bool {
    &&& fits_i32(p.total_structure_kills + 1)
    &&& match structure_tier(structure) {
        Some(t) => fits_i32(p.structure_kill[t] + 1) && fits_i32(p.points + structure_points(t)),
        None => true,
    }
}

/// The record after the player destroyed `structure`: one more structure kill, and, for a
/// structure of a tier, one more kill of that tier and its points.
pub open spec fn after_structure_kill(p: PlayerView, structure: Seq<char>) -> PlayerView {
    let p1 = PlayerView { total_structure_kills: (p.total_structure_kills + 1) as i32, ..p };
    match structure_tier(structure) {
        Some(t) => PlayerView {
            structure_kill: p1.structure_kill.update(t, (p1.structure_kill[t] + 1) as i32),
            points: (p1.points + structure_points(t)) as i32,
            ..p1
        },
        None => p1,
    }
}

/// The well-formedness of a record: three counters per tier.
pub open spec fn counters_wf(p: PlayerView) -> bool {
    p.unit_kill.len() == 3 && p.structure_kill.len() == 3
}

/// The record's counters have their three tiers and lie well inside `i32`: any one kill,
/// death or structure kill keeps them within it.
pub open spec fn small_counters(p: PlayerView) -> bool {
    &&& counters_wf(p)
    &&& -1_000_000 < p.total_unit_kills < 1_000_000
    &&& -1_000_000 < p.total_structure_kills < 1_000_000
    &&& -1_000_000 < p.death < 1_000_000
    &&& -1_000_000 < p.points < 1_000_000
    &&& forall|t: int| 0 <= t < 3 ==> -1_000_000 < #[trigger] p.unit_kill[t] < 1_000_000
    &&& forall|t: int| 0 <= t < 3 ==> -1_000_000 < #[trigger] p.structure_kill[t] < 1_000_000
}

impl Player {
    /// A player who has not scored yet.
    pub fn new(
        player_id: i64,
        player_name: String,
        faction_type: Factions,
        last_entered_time: i64,
        last_left_time: i64,
        is_in_game: bool,
    ) -> (r: Self)
        ensures
            r@ == new_player(
                player_id,
                player_name@,
                faction_type,
                last_entered_time,
                last_left_time,
                is_in_game,
            ),
    {
        let r = Player {
            player_id,
            player_name,
            faction_type,
            is_commander: false,
            unit_kill: [0, 0, 0],
            total_unit_kills: 0,
            structure_kill: [0, 0, 0],
            total_structure_kills: 0,
            death: 0,
            points: 0,
            winner: false,
            last_entered_time,
            last_left_time,
            duration_played: 0,
            is_in_game,
        };
        assert(r@ =~= new_player(
            player_id,
            player_name@,
            faction_type,
            last_entered_time,
            last_left_time,
            is_in_game,
        ));
        r
    }

    /// A copy of the record.
    pub fn copy(&self) -> (r: Self)
        ensures
            r@ == self@,
    {
        Player {
            player_id: self.player_id,
            player_name: self.player_name.clone(),
            faction_type: self.faction_type,
            is_commander: self.is_commander,
            unit_kill: self.unit_kill,
            total_unit_kills: self.total_unit_kills,
            structure_kill: self.structure_kill,
            total_structure_kills: self.total_structure_kills,
            death: self.death,
            points: self.points,
            winner: self.winner,
            is_in_game: self.is_in_game,
            last_entered_time: self.last_entered_time,
            last_left_time: self.last_left_time,
            duration_played: self.duration_played,
        }
    }

    /// Whether the player is in the match at the moment (joined and not yet disconnected).
    pub fn is_in_game(&self) -> (r: bool)
        ensures
            r == self@.is_in_game,
    {
        self.is_in_game
    }

    pub(crate) fn set_presence(&mut self, in_game: bool, entered: i64, left: i64, duration: i64)
        ensures
            final(self)@ == (PlayerView {
                is_in_game: in_game,
                last_entered_time: entered,
                last_left_time: left,
                duration_played: duration,
                ..old(self)@
            }),
    {
        self.is_in_game = in_game;
        self.last_entered_time = entered;
        self.last_left_time = left;
        self.duration_played = duration;
    }

    pub fn update_structure_kill(&mut self, structure: &str)
        requires
            structure_kill_fits(old(self)@, structure@),
        ensures
            final(self)@ == after_structure_kill(old(self)@, structure@),
    {
        self.total_structure_kills = self.total_structure_kills + 1;
        match structure_tier_of(structure) {
            Some(t) => {
                self.structure_kill[t] = self.structure_kill[t] + 1;
                if t == TIER_ONE {
                    self.points = self.points + 10;
                } else if t == TIER_TWO {
                    self.points = self.points + 50;
                } else {
                    self.points = self.points + 100;
                }
            },
            None => {},
        }
        assert(self@ =~= after_structure_kill(old(self)@, structure@));
    }

    pub fn update_unit_kill(&mut self, unit: &str, enemy_faction: Factions)
        requires
            unit_kill_fits(old(self)@, unit@, enemy_faction),
        ensures
            final(self)@ == after_unit_kill(old(self)@, unit@, enemy_faction),
    {
        let is_enemy: i32 = if enemy_faction != self.faction_type {
            1
        } else {
            -1
        };
        self.total_unit_kills = self.total_unit_kills + is_enemy;
        match unit_tier_of(unit) {
            Some(t) => {
                self.unit_kill[t] = self.unit_kill[t] + is_enemy;
                let value = unit_points_of(unit);
                assert(value * is_enemy == unit_points(unit@) * kill_sign(old(self)@, enemy_faction));
                self.points = self.points + value * is_enemy;
            },
            None => {},
        }
        assert(self@ =~= after_unit_kill(old(self)@, unit@, enemy_faction));
    }

    pub fn update_death(&mut self, unit: &str)
        requires
            death_fits(old(self)@, unit@),
        ensures
            final(self)@ == after_death(old(self)@, unit@),
    {
        self.death = self.death + 1;
        self.points = self.points - unit_points_of(unit);
        assert(self@ =~= after_death(old(self)@, unit@));
    }

    pub fn set_commander(&mut self)
        ensures
            final(self)@ == (PlayerView { is_commander: true, ..old(self)@ }),
    {
        self.is_commander = true;
        assert(self@ =~= (PlayerView { is_commander: true, ..old(self)@ }));
    }

    /// Whether a kill of `unit` can be recorded without a counter leaving `i32`.
    pub fn can_record_unit_kill(&self, unit: &str, enemy_faction: Factions) -> (r: bool)
        requires
            counters_wf(self@),
        ensures
            r == unit_kill_fits(self@, unit@, enemy_faction),
    {
        let e: i64 = if enemy_faction != self.faction_type {
            1
        } else {
            -1
        };
        let total = self.total_unit_kills as i64 + e;
        if total < i32::MIN as i64 || total > i32::MAX as i64 {
            return false;
        }
        match unit_tier_of(unit) {
            Some(t) => {
                let count = self.unit_kill[t] as i64 + e;
                let points = self.points as i64 + unit_points_of(unit) as i64 * e;
                i32::MIN as i64 <= count && count <= i32::MAX as i64 && i32::MIN as i64 <= points
                    && points <= i32::MAX as i64
            },
            None => true,
        }
    }

    /// Whether a death can be recorded without a counter leaving `i32`.
    pub fn can_record_death(&self, unit: &str) -> (r: bool)
        ensures
            r == death_fits(self@, unit@),
    {
        let deaths = self.death as i64 + 1;
        let points = self.points as i64 - unit_points_of(unit) as i64;
        deaths <= i32::MAX as i64 && i32::MIN as i64 <= points && points <= i32::MAX as i64
    }

    /// Whether a structure kill can be recorded without a counter leaving `i32`.
    pub fn can_record_structure_kill(&self, structure: &str) -> (r: bool)
        requires
            counters_wf(self@),
        ensures
            r == structure_kill_fits(self@, structure@),
    {
        let total = self.total_structure_kills as i64 + 1;
        if total > i32::MAX as i64 {
            return false;
        }
        match structure_tier_of(structure) {
            Some(t) => {
                let count = self.structure_kill[t] as i64 + 1;
                let bonus: i64 = if t == TIER_ONE {
                    10
                } else if t == TIER_TWO {
                    50
                } else {
                    100
                };
                count <= i32::MAX as i64 && self.points as i64 + bonus <= i32::MAX as i64
            },
            None => true,
        }
    }

    /// Whether the player fought on the ground: killed a unit or structure, or died.
    pub fn is_fps(&self) -> (r: bool)
        requires
            fits_i32(self.total_unit_kills + self.total_structure_kills),
            fits_i32(self.total_unit_kills + self.total_structure_kills + self.death),
        ensures
            r == (self.total_unit_kills + self.total_structure_kills + self.death != 0),
    {
        let all_sum = self.total_unit_kills + self.total_structure_kills + self.death;
        all_sum != 0
    }

    /// A summary of the record: name, id, faction, kills by tier, deaths, whether the
    /// player won, fought on the ground and commanded, and points.
    pub fn __str__(&self) -> (r: String)
        requires
            fits_i32(self.total_unit_kills + self.total_structure_kills),
            fits_i32(self.total_unit_kills + self.total_structure_kills + self.death),
        ensures
            r@ == summary_text(
                self.player_name@,
                self.player_id,
                faction_label(self.faction_type),
                self.unit_kill@,
                self.structure_kill@,
                self.death,
                self.winner,
                self.total_unit_kills + self.total_structure_kills + self.death != 0,
                self.is_commander,
                self.points,
            ),
    {
        let faction_type = match self.faction_type {
            Factions::Sol => "Sol",
            Factions::Alien => "Alien",
            Factions::Centauri => "Centauri",
            Factions::Wildlife => "Wildlife",
        };
        let is_infantry = self.is_fps();
        player_summary(
            self.player_name.as_str(),
            self.player_id,
            faction_type,
            &self.unit_kill,
            &self.structure_kill,
            self.death,
            self.winner,
            is_infantry,
            self.is_commander,
            self.points,
        )
    }

    /// Whether the player's faction is the winning team.
    pub fn did_win(&self, winning_team: Factions) -> (r: bool)
        ensures
            r == (winning_team == self.faction_type),
    {
        winning_team == self.faction_type
    }
}


/// A kill of a teammate's unit undoes a kill of the same unit of an enemy: every counter
/// and the points are back where they were.
pub proof fn law_friendly_kill_undoes_enemy_kill(p: PlayerView, unit: Seq<char>, enemy_faction: Factions)
    requires
        counters_wf(p),
        enemy_faction != p.faction_type,
        unit_kill_fits(p, unit, enemy_faction),
        unit_kill_fits(after_unit_kill(p, unit, enemy_faction), unit, p.faction_type),
    ensures
        after_unit_kill(after_unit_kill(p, unit, enemy_faction), unit, p.faction_type) == p,
{
    let p1 = after_unit_kill(p, unit, enemy_faction);
    let p2 = after_unit_kill(p1, unit, p.faction_type);
    assert(kill_sign(p, enemy_faction) == 1);
    assert(p1.faction_type == p.faction_type);
    assert(kill_sign(p1, p.faction_type) == -1);
    assert(p2.total_unit_kills == p.total_unit_kills);
    if let Some(t) = unit_tier(unit) {
        assert(p2.unit_kill =~= p.unit_kill);
        assert(p2.points == p.points);
    } else {
        assert(p2.unit_kill == p.unit_kill);
    }
    assert(p2 =~= p);
}

/// A kill of an enemy's unit moves the unit's points from the victim to the killer: their
/// points together stay the same.
pub proof fn law_enemy_kill_moves_points(killer: PlayerView, victim: PlayerView, unit: Seq<char>)
    requires
        victim.faction_type != killer.faction_type,
        unit_kill_fits(killer, unit, victim.faction_type),
        death_fits(victim, unit),
    ensures
        after_unit_kill(killer, unit, victim.faction_type).points + after_death(victim, unit).points
            == killer.points + victim.points,
{
}

} // verus!
