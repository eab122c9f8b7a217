//! Unit kills, deaths and structure kills, read from the match's log lines.

use vstd::prelude::*;

use crate::bindings::{captures, compile, regex_captures, regex_compiles, Pattern};
use crate::game::Game;
use crate::model::{faction_from_name, faction_of_name, Factions};
use crate::player::{
    after_death, after_structure_kill, kill_sign, small_counters, after_unit_kill, death_fits, new_player,
    structure_kill_fits, unit_kill_fits, Player, PlayerView,
};
use crate::model::{unit_points, unit_tier};
use crate::search::lemma_first_index_at;
use crate::roster::{
    has_key, key_index, keyed, lemma_key_index, lemma_key_index_kept,
    copy_players, lemma_replace_keeps, lemma_run_lines_append, lemma_run_lines_keeps, lemma_run_lines_unfold,
    lemma_step_keeps_trans, lemma_upsert, replace_player, roster_view, run_lines, slot,
    step_keeps, upsert, upsert_player, LineStep,
};
use crate::text::{chars_of, contains_chars, parse_i64, parse_i64_spec, seq_contains};

verus! {

/// A kill line holds this word.
pub const KILLED: &'static str = "killed";

/// A structure kill line holds this text.
pub const STRUCTURE_KILL: &'static str = "\"structure_kill\"";

/// The pattern of a kill line: killer (name, ?, id, team), victim (name, ?, id, team),
/// weapon, damage type and the victim's unit.
pub const KILL_PATTERN: &'static str = r#""(.*?)<(.*?)><(.*?)><(.*?)>" killed "(.*?)<(.*?)><(.*?)><(.*?)>" with "(.*)" \(dmgtype "(.*)"\) \(victim "(.*)"\)"#;

/// The pattern of a structure kill line: player (name, ?, id, team), structure and its team.
pub const STRUCTURE_KILL_PATTERN: &'static str = r#""(.*?)<(.*?)><(.*?)><(.*?)>" triggered "structure_kill" \(structure "(.*)"\) \(struct_team "(.*)"\)"#;

/// The victim's side of a kill: the victim's record, if the victim is a player of a
/// faction, loses the unit.
pub open spec fn victim_step(ps: Seq<PlayerView>, g: Seq<Seq<char>>, start: i64, end: i64) -> Option<Seq<PlayerView>> {
    match parse_i64_spec(g[6]) {
        Some(id) => {
            let f = faction_of_name(g[7]);
            if f == Factions::Wildlife {
                Some(ps)
            } else {
                let ps1 = upsert(ps, new_player(id, g[4], f, start, end, false));
                let k = slot(ps, id, f);
                if death_fits(ps1[k], g[10]) {
                    Some(ps1.update(k, after_death(ps1[k], g[10])))
                } else {
                    None
                }
            }
        },
        None => Some(ps),
    }
}

/// A kill read from its capture groups: the killer's record, if the killer is a player of
/// a faction, counts the kill; then, unless the killer's team is `Wildlife`, the victim's
/// side.
pub open spec fn kill_step(ps: Seq<PlayerView>, g: Seq<Seq<char>>, start: i64, end: i64) -> Option<Seq<PlayerView>> {
    match parse_i64_spec(g[2]) {
        Some(id) => {
            let f = faction_of_name(g[3]);
            if f == Factions::Wildlife {
                Some(ps)
            } else {
                let ef = faction_of_name(g[7]);
                let ps1 = upsert(ps, new_player(id, g[0], f, start, end, false));
                let k = slot(ps, id, f);
                if unit_kill_fits(ps1[k], g[10], ef) {
                    victim_step(ps1.update(k, after_unit_kill(ps1[k], g[10], ef)), g, start, end)
                } else {
                    None
                }
            }
        },
        None => victim_step(ps, g, start, end),
    }
}

/// What one log line does to the records in `process_kills`.
pub open spec fn kill_line_step(ps: Seq<PlayerView>, line: Seq<char>, start: i64, end: i64) -> Option<Seq<PlayerView>> {
    if !seq_contains(line, KILLED@) {
        Some(ps)
    } else {
        match regex_captures(KILL_PATTERN@, line) {
            Some(g) => if g.len() == 11 {
                kill_step(ps, g, start, end)
            } else {
                Some(ps)
            },
            None => Some(ps),
        }
    }
}

/// A structure kill read from its capture groups: the record of the player, if they are a
/// player of a faction, counts the structure.
pub open spec fn structure_kill_step(ps: Seq<PlayerView>, g: Seq<Seq<char>>, start: i64, end: i64) -> Option<Seq<PlayerView>> {
    let f = faction_of_name(g[3]);
    if f == Factions::Wildlife {
        Some(ps)
    } else {
        match parse_i64_spec(g[2]) {
            Some(id) => {
                let ps1 = upsert(ps, new_player(id, g[0], f, start, end, false));
                let k = slot(ps, id, f);
                if structure_kill_fits(ps1[k], g[4]) {
                    Some(ps1.update(k, after_structure_kill(ps1[k], g[4])))
                } else {
                    None
                }
            },
            None => Some(ps),
        }
    }
}

/// What one log line does to the records in `process_structure_kills`.
pub open spec fn structure_line_step(ps: Seq<PlayerView>, line: Seq<char>, start: i64, end: i64) -> Option<Seq<PlayerView>> {
    if !seq_contains(line, STRUCTURE_KILL@) {
        Some(ps)
    } else {
        match regex_captures(STRUCTURE_KILL_PATTERN@, line) {
            Some(g) => if g.len() == 6 {
                structure_kill_step(ps, g, start, end)
            } else {
                Some(ps)
            },
            None => Some(ps),
        }
    }
}

pub open spec fn kill_lines(start: i64, end: i64) -> LineStep {
    |ps: Seq<PlayerView>, line: Seq<char>| kill_line_step(ps, line, start, end)
}

pub open spec fn structure_lines(start: i64, end: i64) -> LineStep {
    |ps: Seq<PlayerView>, line: Seq<char>| structure_line_step(ps, line, start, end)
}

impl Game {
    /// The records after every kill line of the match; `None` where a counter would leave
    /// `i32` or the kill pattern does not compile.
    pub open spec fn kills_result(&self) -> Option<Seq<PlayerView>> {
        if regex_compiles(KILL_PATTERN@) {
            run_lines(kill_lines(self.start_time, self.end_time), self.roster(), self.lines())
        } else {
            None
        }
    }

    /// The records after every structure kill line of the match; `None` where a counter
    /// would leave `i32` or the structure kill pattern does not compile.
    pub open spec fn structure_kills_result(&self) -> Option<Seq<PlayerView>> {
        if regex_compiles(STRUCTURE_KILL_PATTERN@) {
            run_lines(structure_lines(self.start_time, self.end_time), self.roster(), self.lines())
        } else {
            None
        }
    }
}

proof fn lemma_victim_step_keeps(ps: Seq<PlayerView>, g: Seq<Seq<char>>, start: i64, end: i64)
    requires
        g.len() == 11,
    ensures
        victim_step(ps, g, start, end) matches Some(q) ==> step_keeps(ps, q),
{
    if let Some(id) = parse_i64_spec(g[6]) {
        let f = faction_of_name(g[7]);
        if f != Factions::Wildlife {
            let fresh = new_player(id, g[4], f, start, end, false);
            let ps1 = upsert(ps, fresh);
            let k = slot(ps, id, f);
            lemma_upsert(ps, fresh);
            lemma_replace_keeps(ps1, k, after_death(ps1[k], g[10]));
            lemma_step_keeps_trans(ps, ps1, ps1.update(k, after_death(ps1[k], g[10])));
        } else {
            lemma_keeps_refl(ps);
        }
    } else {
        lemma_keeps_refl(ps);
    }
}

proof fn lemma_keeps_refl(ps: Seq<PlayerView>)
    ensures
        step_keeps(ps, ps),
{
}

proof fn lemma_kill_line_keeps(ps: Seq<PlayerView>, line: Seq<char>, start: i64, end: i64)
    ensures
        kill_line_step(ps, line, start, end) matches Some(q) ==> step_keeps(ps, q),
{
    lemma_keeps_refl(ps);
    if seq_contains(line, KILLED@) {
        if let Some(g) = regex_captures(KILL_PATTERN@, line) {
            if g.len() == 11 {
                if let Some(id) = parse_i64_spec(g[2]) {
                    let f = faction_of_name(g[3]);
                    if f != Factions::Wildlife {
                        let ef = faction_of_name(g[7]);
                        let fresh = new_player(id, g[0], f, start, end, false);
                        let ps1 = upsert(ps, fresh);
                        let k = slot(ps, id, f);
                        lemma_upsert(ps, fresh);
                        let ps2 = ps1.update(k, after_unit_kill(ps1[k], g[10], ef));
                        lemma_replace_keeps(ps1, k, after_unit_kill(ps1[k], g[10], ef));
                        lemma_step_keeps_trans(ps, ps1, ps2);
                        lemma_victim_step_keeps(ps2, g, start, end);
                        if let Some(q) = victim_step(ps2, g, start, end) {
                            lemma_step_keeps_trans(ps, ps2, q);
                        }
                    }
                } else {
                    lemma_victim_step_keeps(ps, g, start, end);
                }
            }
        }
    }
}

proof fn lemma_structure_line_keeps(ps: Seq<PlayerView>, line: Seq<char>, start: i64, end: i64)
    ensures
        structure_line_step(ps, line, start, end) matches Some(q) ==> step_keeps(ps, q),
{
    lemma_keeps_refl(ps);
    if seq_contains(line, STRUCTURE_KILL@) {
        if let Some(g) = regex_captures(STRUCTURE_KILL_PATTERN@, line) {
            if g.len() == 6 {
                let f = faction_of_name(g[3]);
                if f != Factions::Wildlife {
                    if let Some(id) = parse_i64_spec(g[2]) {
                        let fresh = new_player(id, g[0], f, start, end, false);
                        let ps1 = upsert(ps, fresh);
                        let k = slot(ps, id, f);
                        lemma_upsert(ps, fresh);
                        lemma_replace_keeps(ps1, k, after_structure_kill(ps1[k], g[4]));
                        lemma_step_keeps_trans(ps, ps1, ps1.update(k, after_structure_kill(ps1[k], g[4])));
                    }
                }
            }
        }
    }
}

/// Processing the kill lines keeps every record already there, in its place, keeps each
/// player and faction to one record, and adds no `Wildlife` record.
pub proof fn law_kills_keep_records(game: Game)
    ensures
        game.kills_result() matches Some(q) ==> step_keeps(game.roster(), q),
{
    let step = kill_lines(game.start_time, game.end_time);
    assert forall|p: Seq<PlayerView>, l: Seq<char>| (#[trigger] step(p, l)) is Some implies step_keeps(
        p,
        step(p, l)->0,
    ) by {
        lemma_kill_line_keeps(p, l, game.start_time, game.end_time);
    }
    lemma_run_lines_keeps(step, game.roster(), game.lines());
}

/// Processing the structure kill lines keeps every record already there, in its place,
/// keeps each player and faction to one record, and adds no `Wildlife` record.
pub proof fn law_structure_kills_keep_records(game: Game)
    ensures
        game.structure_kills_result() matches Some(q) ==> step_keeps(game.roster(), q),
{
    let step = structure_lines(game.start_time, game.end_time);
    assert forall|p: Seq<PlayerView>, l: Seq<char>| (#[trigger] step(p, l)) is Some implies step_keeps(
        p,
        step(p, l)->0,
    ) by {
        lemma_structure_line_keeps(p, l, game.start_time, game.end_time);
    }
    lemma_run_lines_keeps(step, game.roster(), game.lines());
}


/// Kills add up over the lines: processing the kill lines of `whole`, which are those of
/// `first` followed by those of `rest`, gives what processing `first` and then `rest` gives,
/// where `first` starts from `whole`'s records and `rest` from the records that `first`
/// ends with. Where `first` cannot be processed, neither can `whole`.
pub proof fn law_kills_add_up(whole: Game, first: Game, rest: Game)
    requires
        whole.lines() == first.lines() + rest.lines(),
        first.roster() == whole.roster(),
        first.start_time == whole.start_time,
        first.end_time == whole.end_time,
        rest.start_time == whole.start_time,
        rest.end_time == whole.end_time,
    ensures
        first.kills_result() is None ==> whole.kills_result() is None,
        first.kills_result() == Some(rest.roster()) ==> whole.kills_result() == rest.kills_result(),
{
    lemma_run_lines_append(
        kill_lines(whole.start_time, whole.end_time),
        whole.roster(),
        first.lines(),
        rest.lines(),
    );
}

/// Structure kills add up over the lines, as kills do (see `law_kills_add_up`).
pub proof fn law_structure_kills_add_up(whole: Game, first: Game, rest: Game)
    requires
        whole.lines() == first.lines() + rest.lines(),
        first.roster() == whole.roster(),
        first.start_time == whole.start_time,
        first.end_time == whole.end_time,
        rest.start_time == whole.start_time,
        rest.end_time == whole.end_time,
    ensures
        first.structure_kills_result() is None ==> whole.structure_kills_result() is None,
        first.structure_kills_result() == Some(rest.roster()) ==> whole.structure_kills_result()
            == rest.structure_kills_result(),
{
    lemma_run_lines_append(
        structure_lines(whole.start_time, whole.end_time),
        whole.roster(),
        first.lines(),
        rest.lines(),
    );
}

/// Every kill costs its victim a death: on a kill line whose killer is a player of a
/// faction and whose victim is another player of a faction (of the same faction or not), the
/// victim's record (made if they had none) has one death more and the unit's points less
/// than before. Where every record's counters are small, the line is always taken.
pub proof fn law_every_kill_costs_the_victim_a_death(
    ps: Seq<PlayerView>,
    line: Seq<char>,
    start: i64,
    end: i64,
    g: Seq<Seq<char>>,
    killer: i64,
    victim: i64,
)
    requires
        seq_contains(line, KILLED@),
        regex_captures(KILL_PATTERN@, line) == Some(g),
        g.len() == 11,
        parse_i64_spec(g[2]) == Some(killer),
        faction_of_name(g[3]) != Factions::Wildlife,
        parse_i64_spec(g[6]) == Some(victim),
        faction_of_name(g[7]) != Factions::Wildlife,
        !(killer == victim && faction_of_name(g[3]) == faction_of_name(g[7])),
    ensures
        (forall|i: int| 0 <= i < ps.len() ==> small_counters(#[trigger] ps[i])) ==> kill_line_step(
            ps,
            line,
            start,
            end,
        ) is Some,
        kill_line_step(ps, line, start, end) matches Some(q) ==> {
            let vf = faction_of_name(g[7]);
            let b = key_index(ps, victim, vf);
            let k = key_index(q, victim, vf);
            &&& 0 <= k < q.len()
            &&& q[k].death == (if b >= 0 { ps[b].death as int } else { 0 }) + 1
            &&& q[k].points == (if b >= 0 { ps[b].points as int } else { 0 }) - unit_points(g[10])
        },
{
    let kf = faction_of_name(g[3]);
    let vf = faction_of_name(g[7]);
    let unit = g[10];
    let killer_fresh = new_player(killer, g[0], kf, start, end, false);
    let ps1 = upsert(ps, killer_fresh);
    let kk = slot(ps, killer, kf);
    lemma_key_index(ps, killer, kf);
    lemma_key_index(ps, victim, vf);
    lemma_upsert(ps, killer_fresh);
    let b = key_index(ps, victim, vf);
    if b >= 0 {
        assert(has_key(ps[b], victim, vf));
        assert(b != kk);
    }
    if (forall|i: int| 0 <= i < ps.len() ==> small_counters(#[trigger] ps[i])) {
        let p = ps1[kk];
        if kk < ps.len() {
            assert(small_counters(ps[kk]));
        } else {
            assert(p == killer_fresh);
            assert(p.unit_kill =~= seq![0i32, 0i32, 0i32]);
        }
        assert(0 <= unit_points(unit) <= 100);
        let e = kill_sign(p, vf);
        assert(e == 1 || e == -1);
        if let Some(t) = unit_tier(unit) {
            assert(0 <= t < 3);
            assert(-1_000_000 < p.unit_kill[t] < 1_000_000);
            assert(-100 <= unit_points(unit) * e <= 100) by (nonlinear_arith)
                requires
                    0 <= unit_points(unit) <= 100,
                    e == 1 || e == -1,
            ;
        }
        assert(unit_kill_fits(ps1[kk], unit, vf));
    }
    if unit_kill_fits(ps1[kk], unit, vf) {
        let p2 = ps1.update(kk, after_unit_kill(ps1[kk], unit, vf));
        assert forall|i: int| 0 <= i < ps.len() implies has_key(#[trigger] p2[i], victim, vf) == has_key(ps[i], victim, vf) by {
            if i != kk {
                assert(p2[i] == ps[i]);
            }
        }
        lemma_key_index_kept(ps, p2, victim, vf);
        let victim_fresh = new_player(victim, g[4], vf, start, end, false);
        let ps3 = upsert(p2, victim_fresh);
        let kv = slot(p2, victim, vf);
        lemma_key_index(p2, victim, vf);
        lemma_upsert(p2, victim_fresh);
        if b >= 0 {
            assert(ps3[kv] == ps[b]);
        } else {
            assert(ps3[kv] == victim_fresh);
        }
        if (forall|i: int| 0 <= i < ps.len() ==> small_counters(#[trigger] ps[i])) {
            if b >= 0 {
                assert(small_counters(ps[b]));
            }
            assert(death_fits(ps3[kv], unit));
        }
        if death_fits(ps3[kv], unit) {
            let q = ps3.update(kv, after_death(ps3[kv], unit));
            assert(kill_line_step(ps, line, start, end) == Some(q));
            assert forall|j: int| 0 <= j < kv implies !keyed(victim, vf)(#[trigger] q[j]) by {
                assert(q[j] == p2[j]);
            }
            lemma_first_index_at(q, keyed(victim, vf), kv);
        }
    }
}

/// The victim's side of a kill, from the eleven capture groups of a kill line: see
/// `victim_step`. `false`, with the records in an unknown state, where a counter would
/// leave `i32`.
pub fn apply_victim(ps: &mut Vec<Player>, g: &Vec<String>, start: i64, end: i64) -> (ok: bool)
    requires
        g@.len() == 11,
    ensures
        ok == victim_step(roster_view(old(ps)@), g@.map_values(|s: String| s@), start, end) is Some,
        ok ==> roster_view(final(ps)@) == victim_step(
            roster_view(old(ps)@),
            g@.map_values(|s: String| s@),
            start,
            end,
        )->0,
{
    let ghost gv = g@.map_values(|s: String| s@);
    let ghost v0 = roster_view(ps@);
    match parse_i64(g[6].as_str()) {
        Some(id) => {
            let f = faction_from_name(g[7].as_str());
            if f == Factions::Wildlife {
                return true;
            }
            let fresh = Player::new(id, g[4].clone(), f, start, end, false);
            let k = upsert_player(ps, fresh);
            proof {
                lemma_upsert(v0, new_player(id, gv[4], f, start, end, false));
            }
            let mut p = ps[k].copy();
            if !p.can_record_death(g[10].as_str()) {
                return false;
            }
            p.update_death(g[10].as_str());
            replace_player(ps, k, p);
            true
        },
        None => true,
    }
}

fn apply_kill_line(ps: &mut Vec<Player>, re: &Pattern, line: &String, start: i64, end: i64) -> (ok: bool)
    requires
        re.source() == KILL_PATTERN@,
    ensures
        ok == kill_line_step(roster_view(old(ps)@), line@, start, end) is Some,
        ok ==> roster_view(final(ps)@) == kill_line_step(roster_view(old(ps)@), line@, start, end)->0,
{
    let cs = chars_of(line.as_str());
    if !contains_chars(&cs, &chars_of(KILLED)) {
        return true;
    }
    let caps = captures(re, line.as_str());
    match caps {
        None => true,
        Some(g) => {
            if g.len() != 11 {
                return true;
            }
            apply_kill(ps, &g, start, end)
        },
    }
}

/// A kill, from the eleven capture groups of a kill line: see `kill_step`. `false`, with the
/// records in an unknown state, where a counter would leave `i32`.
pub fn apply_kill(ps: &mut Vec<Player>, g: &Vec<String>, start: i64, end: i64) -> (ok: bool)
    requires
        g@.len() == 11,
    ensures
        ok == kill_step(roster_view(old(ps)@), g@.map_values(|s: String| s@), start, end) is Some,
        ok ==> roster_view(final(ps)@) == kill_step(
            roster_view(old(ps)@),
            g@.map_values(|s: String| s@),
            start,
            end,
        )->0,
{
    let ghost gv = g@.map_values(|s: String| s@);
    let ghost v0 = roster_view(ps@);
    match parse_i64(g[2].as_str()) {
        Some(id) => {
            let f = faction_from_name(g[3].as_str());
            if f == Factions::Wildlife {
                return true;
            }
            let ef = faction_from_name(g[7].as_str());
            let fresh = Player::new(id, g[0].clone(), f, start, end, false);
            let k = upsert_player(ps, fresh);
            proof {
                lemma_upsert(v0, new_player(id, gv[0], f, start, end, false));
            }
            let mut p = ps[k].copy();
            if !p.can_record_unit_kill(g[10].as_str(), ef) {
                return false;
            }
            p.update_unit_kill(g[10].as_str(), ef);
            replace_player(ps, k, p);
        },
        None => {},
    }
    apply_victim(ps, g, start, end)
}

fn apply_structure_line(ps: &mut Vec<Player>, re: &Pattern, line: &String, start: i64, end: i64) -> (ok: bool)
    requires
        re.source() == STRUCTURE_KILL_PATTERN@,
    ensures
        ok == structure_line_step(roster_view(old(ps)@), line@, start, end) is Some,
        ok ==> roster_view(final(ps)@) == structure_line_step(
            roster_view(old(ps)@),
            line@,
            start,
            end,
        )->0,
{
    let cs = chars_of(line.as_str());
    if !contains_chars(&cs, &chars_of(STRUCTURE_KILL)) {
        return true;
    }
    let caps = captures(re, line.as_str());
    match caps {
        None => true,
        Some(g) => {
            if g.len() != 6 {
                return true;
            }
            apply_structure_kill(ps, &g, start, end)
        },
    }
}

/// A structure kill, from the six capture groups of a structure kill line: see
/// `structure_kill_step`. `false`, with the records in an unknown state, where a counter
/// would leave `i32`.
pub fn apply_structure_kill(ps: &mut Vec<Player>, g: &Vec<String>, start: i64, end: i64) -> (ok: bool)
    requires
        g@.len() == 6,
    ensures
        ok == structure_kill_step(roster_view(old(ps)@), g@.map_values(|s: String| s@), start, end) is Some,
        ok ==> roster_view(final(ps)@) == structure_kill_step(
            roster_view(old(ps)@),
            g@.map_values(|s: String| s@),
            start,
            end,
        )->0,
{
    let ghost gv = g@.map_values(|s: String| s@);
    let ghost v0 = roster_view(ps@);
    let f = faction_from_name(g[3].as_str());
    if f == Factions::Wildlife {
        return true;
    }
    match parse_i64(g[2].as_str()) {
        Some(id) => {
            let fresh = Player::new(id, g[0].clone(), f, start, end, false);
            let k = upsert_player(ps, fresh);
            proof {
                lemma_upsert(v0, new_player(id, gv[0], f, start, end, false));
            }
            let mut p = ps[k].copy();
            if !p.can_record_structure_kill(g[4].as_str()) {
                return false;
            }
            p.update_structure_kill(g[4].as_str());
            replace_player(ps, k, p);
            true
        },
        None => true,
    }
}

impl Game {
    /// Counts every kill line of the match: the killer's kill of the victim's unit (as an
    /// enemy kill or a kill of a teammate) and the victim's death. Killers and victims
    /// without a record get one. Lines whose killer is of `Wildlife` count for nobody;
    /// victims of `Wildlife` and ids that are no number are passed over.
    pub fn process_kills(&mut self)
        requires
            old(self).kills_result() is Some,
        ensures
            final(self).roster() == old(self).kills_result()->0,
            step_keeps(old(self).roster(), final(self).roster()),
            final(self).current_match == old(self).current_match,
            final(self).start_time == old(self).start_time,
            final(self).end_time == old(self).end_time,
            final(self).match_type == old(self).match_type,
            final(self).map == old(self).map,
            final(self).winning_team == old(self).winning_team,
    {
        proof {
            law_kills_keep_records(*old(self));
        }
        let re = match compile(KILL_PATTERN) {
            Some(re) => re,
            None => return,
        };
        let ghost step = kill_lines(self.start_time, self.end_time);
        let ghost lines = self.lines();
        let n = self.current_match.len();
        let mut i: usize = 0;
        assert(lines.skip(0) =~= lines);
        while i < n
            invariant
                re.source() == KILL_PATTERN@,
                n == self.current_match@.len(),
                i <= n,
                lines == self.lines(),
                step == kill_lines(self.start_time, self.end_time),
                run_lines(step, self.roster(), lines.skip(i as int)) == old(self).kills_result(),
                old(self).kills_result() is Some,
                self.current_match == old(self).current_match,
                self.start_time == old(self).start_time,
                self.end_time == old(self).end_time,
                self.match_type == old(self).match_type,
                self.map == old(self).map,
                self.winning_team == old(self).winning_team,
            decreases n - i,
        {
            proof {
                lemma_run_lines_unfold(step, self.roster(), lines, i as int);
            }
            let start = self.start_time;
            let end = self.end_time;
            let ok = apply_kill_line(&mut self.players, &re, &self.current_match[i], start, end);
            i = i + 1;
        }
        assert(lines.skip(n as int) =~= Seq::<Seq<char>>::empty());
    }

    /// `process_kills` when it can run to the end; otherwise (the pattern does not compile
    /// or a counter would leave `i32`) `false`, with the match unchanged.
    pub fn try_process_kills(&mut self) -> (r: bool)
        ensures
            r == (old(self).kills_result() is Some),
            r ==> final(self).roster() == old(self).kills_result()->0,
            !r ==> final(self).roster() == old(self).roster(),
            final(self).current_match == old(self).current_match,
            final(self).start_time == old(self).start_time,
            final(self).end_time == old(self).end_time,
            final(self).match_type == old(self).match_type,
            final(self).map == old(self).map,
            final(self).winning_team == old(self).winning_team,
    {
        let re = match compile(KILL_PATTERN) {
            Some(re) => re,
            None => return false,
        };
        let ghost step = kill_lines(self.start_time, self.end_time);
        let ghost lines = self.lines();
        let mut scratch = copy_players(&self.players);
        let n = self.current_match.len();
        let mut i: usize = 0;
        assert(lines.skip(0) =~= lines);
        while i < n
            invariant
                re.source() == KILL_PATTERN@,
                n == self.current_match@.len(),
                i <= n,
                lines == self.lines(),
                self == old(self),
                step == kill_lines(self.start_time, self.end_time),
                run_lines(step, roster_view(scratch@), lines.skip(i as int)) == old(self).kills_result(),
            decreases n - i,
        {
            proof {
                lemma_run_lines_unfold(step, roster_view(scratch@), lines, i as int);
            }
            if !apply_kill_line(&mut scratch, &re, &self.current_match[i], self.start_time, self.end_time) {
                return false;
            }
            i = i + 1;
        }
        assert(lines.skip(n as int) =~= Seq::<Seq<char>>::empty());
        self.players = scratch;
        true
    }

    /// Counts every structure kill line of the match for its player, who gets a record if
    /// they have none. Lines of `Wildlife` players and ids that are no number are passed over.
    pub fn process_structure_kills(&mut self)
        requires
            old(self).structure_kills_result() is Some,
        ensures
            final(self).roster() == old(self).structure_kills_result()->0,
            step_keeps(old(self).roster(), final(self).roster()),
            final(self).current_match == old(self).current_match,
            final(self).start_time == old(self).start_time,
            final(self).end_time == old(self).end_time,
            final(self).match_type == old(self).match_type,
            final(self).map == old(self).map,
            final(self).winning_team == old(self).winning_team,
    {
        proof {
            law_structure_kills_keep_records(*old(self));
        }
        let re = match compile(STRUCTURE_KILL_PATTERN) {
            Some(re) => re,
            None => return,
        };
        let ghost step = structure_lines(self.start_time, self.end_time);
        let ghost lines = self.lines();
        let n = self.current_match.len();
        let mut i: usize = 0;
        assert(lines.skip(0) =~= lines);
        while i < n
            invariant
                re.source() == STRUCTURE_KILL_PATTERN@,
                n == self.current_match@.len(),
                i <= n,
                lines == self.lines(),
                step == structure_lines(self.start_time, self.end_time),
                run_lines(step, self.roster(), lines.skip(i as int)) == old(self).structure_kills_result(),
                old(self).structure_kills_result() is Some,
                self.current_match == old(self).current_match,
                self.start_time == old(self).start_time,
                self.end_time == old(self).end_time,
                self.match_type == old(self).match_type,
                self.map == old(self).map,
                self.winning_team == old(self).winning_team,
            decreases n - i,
        {
            proof {
                lemma_run_lines_unfold(step, self.roster(), lines, i as int);
            }
            let start = self.start_time;
            let end = self.end_time;
            let ok = apply_structure_line(&mut self.players, &re, &self.current_match[i], start, end);
            i = i + 1;
        }
        assert(lines.skip(n as int) =~= Seq::<Seq<char>>::empty());
    }

    /// `process_structure_kills` when it can run to the end; otherwise (the pattern does
    /// not compile or a counter would leave `i32`) `false`, with the match unchanged.
    pub fn try_process_structure_kills(&mut self) -> (r: bool)
        ensures
            r == (old(self).structure_kills_result() is Some),
            r ==> final(self).roster() == old(self).structure_kills_result()->0,
            !r ==> final(self).roster() == old(self).roster(),
            final(self).current_match == old(self).current_match,
            final(self).start_time == old(self).start_time,
            final(self).end_time == old(self).end_time,
            final(self).match_type == old(self).match_type,
            final(self).map == old(self).map,
            final(self).winning_team == old(self).winning_team,
    {
        let re = match compile(STRUCTURE_KILL_PATTERN) {
            Some(re) => re,
            None => return false,
        };
        let ghost step = structure_lines(self.start_time, self.end_time);
        let ghost lines = self.lines();
        let mut scratch = copy_players(&self.players);
        let n = self.current_match.len();
        let mut i: usize = 0;
        assert(lines.skip(0) =~= lines);
        while i < n
            invariant
                re.source() == STRUCTURE_KILL_PATTERN@,
                n == self.current_match@.len(),
                i <= n,
                lines == self.lines(),
                self == old(self),
                step == structure_lines(self.start_time, self.end_time),
                run_lines(step, roster_view(scratch@), lines.skip(i as int)) == old(self).structure_kills_result(),
            decreases n - i,
        {
            proof {
                lemma_run_lines_unfold(step, roster_view(scratch@), lines, i as int);
            }
            if !apply_structure_line(&mut scratch, &re, &self.current_match[i], self.start_time, self.end_time) {
                return false;
            }
            i = i + 1;
        }
        assert(lines.skip(n as int) =~= Seq::<Seq<char>>::empty());
        self.players = scratch;
        true
    }
}

} // verus!
