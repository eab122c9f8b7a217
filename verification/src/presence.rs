//! Who joined a team and who disconnected, and for how long each player played.

use vstd::prelude::*;

use crate::bindings::{
    captures, compile, parse_datetime, parsed_datetime, regex_captures, regex_compiles, Pattern,
};
use crate::clock::{elapsed, elapsed_seconds, instant_read, read_instant};
use crate::game::Game;
use crate::model::{faction_from_name, faction_of_name, Factions};
use crate::player::{fits_duration, new_player, Player, PlayerView, MAX_DURATION_SECS, STILL_CONNECTED};
use crate::search::lemma_first_index_at;
use crate::roster::{
    key_index, keyed, lemma_key_index,
    copy_players, lemma_replace_keeps, lemma_run_lines_append, lemma_run_lines_inert, lemma_run_lines_keeps, lemma_run_lines_unfold,
    lemma_step_keeps_trans, lemma_upsert, replace_player, roster_view, run_lines, slot,
    step_keeps, upsert, upsert_player, LineStep,
};
use crate::text::{
    char_window, chars_of, contains_chars, is_chat, parse_i64, parse_i64_spec,
    remove_chat_messages, seq_contains, string_from_chars, trim, trim_chars, window,
};

verus! {

/// A line of a player joining a team holds this text.
pub const JOINED_TEAM: &'static str = "joined team";

/// A line of a player leaving holds this word.
pub const DISCONNECTED: &'static str = "disconnected";

/// The format of the time at the start of a log line.
pub const TIME_FORMAT: &'static str = "%m/%d/%Y - %H:%M:%S";

/// The pattern of a join line: player (name, ?, id, team) and the team joined.
pub const JOIN_PATTERN: &'static str = r#""(.*?)<(.*?)><(.*?)><(.*?)>" joined team "(.*)""#;

/// The pattern of a disconnect line: player (name, ?, id, team).
pub const DISCONNECT_PATTERN: &'static str = r#""(.*?)<(.*?)><(.*?)><(.*?)>" disconnected"#;

/// The instant a log line was written: characters 1 to 23, trimmed, read as a date and
/// time.
pub open spec fn line_time(line: Seq<char>) -> Option<i64> {
    read_instant(parsed_datetime(trim(window(line, 1, 23)), TIME_FORMAT@))
}

/// The instant a log line was written.
pub fn line_time_of(line: &Vec<char>) -> (r: Option<i64>)
    ensures
        r == line_time(line@),
{
    let w = trim_chars(&char_window(line, 1, 23));
    let text = string_from_chars(&w);
    instant_read(parse_datetime(text.as_str(), TIME_FORMAT))
}

/// The records after the player `id` joined team `f` at time `t`: they are in the match,
/// entered at `t` and have not left.
pub open spec fn joined(ps: Seq<PlayerView>, id: i64, name: Seq<char>, f: Factions, t: i64) -> Seq<PlayerView> {
    let ps1 = upsert(ps, new_player(id, name, f, t, STILL_CONNECTED, true));
    let k = slot(ps, id, f);
    ps1.update(k, PlayerView { is_in_game: true, last_entered_time: t, last_left_time: STILL_CONNECTED, ..ps1[k] })
}

/// A player's record after they left at time `t`.
pub open spec fn left_at(p: PlayerView, t: i64) -> PlayerView {
    PlayerView {
        is_in_game: false,
        last_left_time: t,
        duration_played: (p.duration_played + elapsed(t as int, p.last_entered_time as int)) as i64,
        ..p
    }
}

/// A player leaving, read from the four capture groups of a disconnect line and the line's
/// time `time`: a player of a faction leaves the match at that time (with a record made for
/// them, entered at the match's start, if they had none). `None` where the id or the time
/// does not parse, or the time played leaves what `TimeDelta` holds.
pub open spec fn leave_step(ps: Seq<PlayerView>, g: Seq<Seq<char>>, time: Option<i64>, game_start: i64) -> Option<Seq<PlayerView>> {
    let f = faction_of_name(g[3]);
    if f == Factions::Wildlife {
        Some(ps)
    } else {
        match (parse_i64_spec(g[2]), time) {
            (Some(id), Some(t)) => {
                let ps1 = upsert(ps, new_player(id, g[0], f, game_start, t, false));
                let k = slot(ps, id, f);
                if fits_duration(ps1[k].duration_played + elapsed(t as int, ps1[k].last_entered_time as int)) {
                    Some(ps1.update(k, left_at(ps1[k], t)))
                } else {
                    None
                }
            },
            _ => None,
        }
    }
}

/// A player joining, read from the five capture groups of a join line and the line's time
/// `time`: a player who joins a faction's team is in the match from that time on. `None`
/// where the id or the time does not parse.
pub open spec fn join_step(ps: Seq<PlayerView>, g: Seq<Seq<char>>, time: Option<i64>) -> Option<Seq<PlayerView>> {
    let f = faction_of_name(g[4]);
    if f == Factions::Wildlife {
        Some(ps)
    } else {
        match (parse_i64_spec(g[2]), time) {
            (Some(id), Some(t)) => Some(joined(ps, id, g[0], f, t)),
            _ => None,
        }
    }
}

/// The disconnect part of a line: a player of a faction who disconnected leaves the match
/// (with a record made for them, entered at the match's start, if they had none). `None`
/// where the id or the time does not parse, or the time played leaves what `TimeDelta` holds.
pub open spec fn disconnect_step(ps: Seq<PlayerView>, line: Seq<char>, game_start: i64) -> Option<Seq<PlayerView>> {
    match regex_captures(DISCONNECT_PATTERN@, line) {
        Some(g) => if g.len() == 4 {
            leave_step(ps, g, line_time(line), game_start)
        } else {
            Some(ps)
        },
        None => Some(ps),
    }
}

/// What one log line does to the records in `process_all_players`: a chat message, or a
/// line that holds neither `joined team` nor `disconnected`, does nothing; a join of a
/// faction's team (read from the trimmed line) puts the player in the match; then the line
/// is read as a disconnect. A join of `Wildlife` ends the line's processing. `None` where
/// an id or a time does not parse, or a time played leaves what `TimeDelta` holds.
pub open spec fn presence_line_step(ps: Seq<PlayerView>, line: Seq<char>, game_start: i64) -> Option<Seq<PlayerView>> {
    if is_chat(line) || !(seq_contains(line, JOINED_TEAM@) || seq_contains(line, DISCONNECTED@)) {
        Some(ps)
    } else {
        match regex_captures(JOIN_PATTERN@, trim(line)) {
            Some(g) => if g.len() == 5 {
                if faction_of_name(g[4]) == Factions::Wildlife {
                    Some(ps)
                } else {
                    match join_step(ps, g, line_time(line)) {
                        Some(q) => disconnect_step(q, line, game_start),
                        None => None,
                    }
                }
            } else {
                disconnect_step(ps, line, game_start)
            },
            None => disconnect_step(ps, line, game_start),
        }
    }
}

pub open spec fn presence_lines(game_start: i64) -> LineStep {
    |ps: Seq<PlayerView>, line: Seq<char>| presence_line_step(ps, line, game_start)
}

impl Game {
    /// The records after every join and disconnect line of the match; `None` where the
    /// processing would stop or a pattern does not compile.
    pub open spec fn all_players_result(&self) -> Option<Seq<PlayerView>> {
        if regex_compiles(JOIN_PATTERN@) && regex_compiles(DISCONNECT_PATTERN@) {
            run_lines(presence_lines(self.start_time), self.roster(), self.lines())
        } else {
            None
        }
    }
}

proof fn lemma_disconnect_keeps(ps: Seq<PlayerView>, line: Seq<char>, game_start: i64)
    ensures
        disconnect_step(ps, line, game_start) matches Some(q) ==> step_keeps(ps, q),
{
    if let Some(g) = regex_captures(DISCONNECT_PATTERN@, line) {
        if g.len() == 4 {
            let f = faction_of_name(g[3]);
            if f != Factions::Wildlife {
                if let (Some(id), Some(t)) = (parse_i64_spec(g[2]), line_time(line)) {
                    let fresh = new_player(id, g[0], f, game_start, t, false);
                    let ps1 = upsert(ps, fresh);
                    let k = slot(ps, id, f);
                    lemma_upsert(ps, fresh);
                    lemma_replace_keeps(ps1, k, left_at(ps1[k], t));
                    lemma_step_keeps_trans(ps, ps1, ps1.update(k, left_at(ps1[k], t)));
                }
            }
        }
    }
}

proof fn lemma_presence_line_keeps(ps: Seq<PlayerView>, line: Seq<char>, game_start: i64)
    ensures
        presence_line_step(ps, line, game_start) matches Some(q) ==> step_keeps(ps, q),
{
    lemma_disconnect_keeps(ps, line, game_start);
    if !is_chat(line) && (seq_contains(line, JOINED_TEAM@) || seq_contains(line, DISCONNECTED@)) {
        if let Some(g) = regex_captures(JOIN_PATTERN@, trim(line)) {
            if g.len() == 5 {
                let f = faction_of_name(g[4]);
                if f != Factions::Wildlife {
                    if let (Some(id), Some(t)) = (parse_i64_spec(g[2]), line_time(line)) {
                        let fresh = new_player(id, g[0], f, t, STILL_CONNECTED, true);
                        let ps1 = upsert(ps, fresh);
                        let k = slot(ps, id, f);
                        lemma_upsert(ps, fresh);
                        let p = PlayerView {
                            is_in_game: true,
                            last_entered_time: t,
                            last_left_time: STILL_CONNECTED,
                            ..ps1[k]
                        };
                        lemma_replace_keeps(ps1, k, p);
                        let ps2 = joined(ps, id, g[0], f, t);
                        lemma_step_keeps_trans(ps, ps1, ps2);
                        lemma_disconnect_keeps(ps2, line, game_start);
                        if let Some(q) = disconnect_step(ps2, line, game_start) {
                            lemma_step_keeps_trans(ps, ps2, q);
                        }
                    }
                }
            }
        }
    }
}

/// Processing the join and disconnect lines keeps every record already there, in its
/// place, keeps each player and faction to one record, and adds no `Wildlife` record.
pub proof fn law_all_players_keep_records(game: Game)
    ensures
        game.all_players_result() matches Some(q) ==> step_keeps(game.roster(), q),
{
    let step = presence_lines(game.start_time);
    assert forall|p: Seq<PlayerView>, l: Seq<char>| (#[trigger] step(p, l)) is Some implies step_keeps(
        p,
        step(p, l)->0,
    ) by {
        lemma_presence_line_keeps(p, l, game.start_time);
    }
    lemma_run_lines_keeps(step, game.roster(), game.lines());
}

/// Following who joins and leaves adds up over the lines, as kills do (see
/// `law_kills_add_up`).
pub proof fn law_all_players_add_up(whole: Game, first: Game, rest: Game)
    requires
        whole.lines() == first.lines() + rest.lines(),
        first.roster() == whole.roster(),
        first.start_time == whole.start_time,
        rest.start_time == whole.start_time,
    ensures
        first.all_players_result() is None ==> whole.all_players_result() is None,
        first.all_players_result() == Some(rest.roster()) ==> whole.all_players_result()
            == rest.all_players_result(),
{
    lemma_run_lines_append(presence_lines(whole.start_time), whole.roster(), first.lines(), rest.lines());
}

/// Chat messages, put anywhere among a match's lines, change nothing of who joins and
/// leaves: `with_chat`, whose lines are `a`, then the chat messages `chat`, then `b`, gives
/// what `game`, whose lines are `a` then `b`, gives.
pub proof fn law_chat_lines_change_no_players(
    game: Game,
    with_chat: Game,
    a: Seq<Seq<char>>,
    chat: Seq<Seq<char>>,
    b: Seq<Seq<char>>,
)
    requires
        game.lines() == a + b,
        with_chat.lines() == a + chat + b,
        forall|i: int| 0 <= i < chat.len() ==> is_chat(#[trigger] chat[i]),
        with_chat.roster() == game.roster(),
        with_chat.start_time == game.start_time,
    ensures
        with_chat.all_players_result() == game.all_players_result(),
{
    let step = presence_lines(game.start_time);
    assert forall|p: Seq<PlayerView>, i: int| 0 <= i < chat.len() implies #[trigger] step(p, chat[i]) == Some(p) by {
        assert(is_chat(chat[i]));
    }
    lemma_run_lines_inert(step, game.roster(), a, chat, b);
}

/// A disconnect adds to the time played and ends the stay: after a disconnect line of a
/// faction's player (a line that is no chat message and no join), their time played is what
/// it was plus the seconds since they last entered (the match's start for a player without a
/// record), they are out of the match, and they left at the line's time. The line is taken
/// exactly when that sum is a duration that `TimeDelta` holds.
pub proof fn law_disconnect_adds_time_played(
    ps: Seq<PlayerView>,
    line: Seq<char>,
    game_start: i64,
    g: Seq<Seq<char>>,
    id: i64,
    t: i64,
)
    requires
        !is_chat(line),
        seq_contains(line, DISCONNECTED@),
        !(regex_captures(JOIN_PATTERN@, trim(line)) matches Some(j) && j.len() == 5),
        regex_captures(DISCONNECT_PATTERN@, line) == Some(g),
        g.len() == 4,
        faction_of_name(g[3]) != Factions::Wildlife,
        parse_i64_spec(g[2]) == Some(id),
        line_time(line) == Some(t),
    ensures
        ({
            let f = faction_of_name(g[3]);
            let b = key_index(ps, id, f);
            let played = if b >= 0 { ps[b].duration_played as int } else { 0 };
            let entered = if b >= 0 { ps[b].last_entered_time as int } else { game_start as int };
            let total = played + elapsed(t as int, entered);
            &&& (presence_line_step(ps, line, game_start) is Some <==> fits_duration(total))
            &&& (presence_line_step(ps, line, game_start) matches Some(q) ==> {
                let k = key_index(q, id, f);
                &&& 0 <= k < q.len()
                &&& q[k].duration_played == total
                &&& q[k].last_left_time == t
                &&& !q[k].is_in_game
            })
        }),
{
    let f = faction_of_name(g[3]);
    let fresh = new_player(id, g[0], f, game_start, t, false);
    let ps1 = upsert(ps, fresh);
    let k = slot(ps, id, f);
    lemma_key_index(ps, id, f);
    lemma_upsert(ps, fresh);
    if let Some(q) = presence_line_step(ps, line, game_start) {
        assert(q == ps1.update(k, left_at(ps1[k], t)));
        assert forall|j: int| 0 <= j < k implies !keyed(id, f)(#[trigger] q[j]) by {
            assert(q[j] == ps[j]);
        }
        lemma_first_index_at(q, keyed(id, f), k);
    }
}


fn apply_disconnect(
    ps: &mut Vec<Player>,
    re: &Pattern,
    line: &String,
    cs: &Vec<char>,
    game_start: i64,
) -> (ok: bool)
    requires
        cs@ == line@,
        re.source() == DISCONNECT_PATTERN@,
    ensures
        ok == disconnect_step(roster_view(old(ps)@), line@, game_start) is Some,
        ok ==> roster_view(final(ps)@) == disconnect_step(roster_view(old(ps)@), line@, game_start)->0,
{
    let caps = captures(re, line.as_str());
    match caps {
        None => true,
        Some(g) => {
            if g.len() != 4 {
                return true;
            }
            let t = line_time_of(cs);
            apply_leave(ps, &g, t, game_start)
        },
    }
}

/// A player leaving, from the four capture groups of a disconnect line and the line's time:
/// see `leave_step`. `false`, with the records in an unknown state, where that gives `None`.
pub fn apply_leave(ps: &mut Vec<Player>, g: &Vec<String>, time: Option<i64>, game_start: i64) -> (ok: bool)
    requires
        g@.len() == 4,
    ensures
        ok == leave_step(roster_view(old(ps)@), g@.map_values(|s: String| s@), time, game_start) is Some,
        ok ==> roster_view(final(ps)@) == leave_step(
            roster_view(old(ps)@),
            g@.map_values(|s: String| s@),
            time,
            game_start,
        )->0,
{
    let ghost gv = g@.map_values(|s: String| s@);
    let ghost v0 = roster_view(ps@);
    let f = faction_from_name(g[3].as_str());
    if f == Factions::Wildlife {
        return true;
    }
    let id = match parse_i64(g[2].as_str()) {
        Some(id) => id,
        None => return false,
    };
    let t = match time {
        Some(t) => t,
        None => return false,
    };
    let fresh = Player::new(id, g[0].clone(), f, game_start, t, false);
    let k = upsert_player(ps, fresh);
    proof {
        lemma_upsert(v0, new_player(id, gv[0], f, game_start, t, false));
    }
    let mut p = ps[k].copy();
    let played = p.duration_played as i128 + elapsed_seconds(t, p.last_entered_time);
    if played < -(MAX_DURATION_SECS as i128) || played > MAX_DURATION_SECS as i128 {
        return false;
    }
    let entered = p.last_entered_time;
    p.set_presence(false, entered, t, played as i64);
    replace_player(ps, k, p);
    true
}

/// A player joining, from the five capture groups of a join line and the line's time: see
/// `join_step`. `false`, with the records unchanged, where that gives `None`.
pub fn apply_join(ps: &mut Vec<Player>, g: &Vec<String>, time: Option<i64>) -> (ok: bool)
    requires
        g@.len() == 5,
    ensures
        ok == join_step(roster_view(old(ps)@), g@.map_values(|s: String| s@), time) is Some,
        ok ==> roster_view(final(ps)@) == join_step(
            roster_view(old(ps)@),
            g@.map_values(|s: String| s@),
            time,
        )->0,
        !ok ==> final(ps)@ == old(ps)@,
{
    let ghost gv = g@.map_values(|s: String| s@);
    let ghost v0 = roster_view(ps@);
    let f = faction_from_name(g[4].as_str());
    if f == Factions::Wildlife {
        return true;
    }
    let id = match parse_i64(g[2].as_str()) {
        Some(id) => id,
        None => return false,
    };
    let t = match time {
        Some(t) => t,
        None => return false,
    };
    let fresh = Player::new(id, g[0].clone(), f, t, STILL_CONNECTED, true);
    let k = upsert_player(ps, fresh);
    proof {
        lemma_upsert(v0, new_player(id, gv[0], f, t, STILL_CONNECTED, true));
    }
    let mut p = ps[k].copy();
    let played = p.duration_played;
    p.set_presence(true, t, STILL_CONNECTED, played);
    replace_player(ps, k, p);
    assert(roster_view(ps@) =~= joined(v0, id, gv[0], f, t));
    true
}

fn apply_presence_line(
    ps: &mut Vec<Player>,
    join_re: &Pattern,
    disconnect_re: &Pattern,
    line: &String,
    game_start: i64,
) -> (ok: bool)
    requires
        join_re.source() == JOIN_PATTERN@,
        disconnect_re.source() == DISCONNECT_PATTERN@,
    ensures
        ok == presence_line_step(roster_view(old(ps)@), line@, game_start) is Some,
        ok ==> roster_view(final(ps)@) == presence_line_step(roster_view(old(ps)@), line@, game_start)->0,
{
    let cs = chars_of(line.as_str());
    if !remove_chat_messages(line.as_str()) {
        return true;
    }
    if !(contains_chars(&cs, &chars_of(JOINED_TEAM)) || contains_chars(&cs, &chars_of(DISCONNECTED))) {
        return true;
    }
    let trimmed = string_from_chars(&trim_chars(&cs));
    let caps = captures(join_re, trimmed.as_str());
    match caps {
        None => apply_disconnect(ps, disconnect_re, line, &cs, game_start),
        Some(g) => {
            if g.len() != 5 {
                return apply_disconnect(ps, disconnect_re, line, &cs, game_start);
            }
            if faction_from_name(g[4].as_str()) == Factions::Wildlife {
                return true;
            }
            let t = line_time_of(&cs);
            if !apply_join(ps, &g, t) {
                return false;
            }
            apply_disconnect(ps, disconnect_re, line, &cs, game_start)
        },
    }
}

impl Game {
    /// Follows every join and disconnect line of the match (chat messages aside): a player
    /// who joins a faction's team is in the match from the line's time on; a player who
    /// disconnects leaves at the line's time, and the time since they entered counts toward
    /// their time played. Players without a record get one.
    pub fn process_all_players(&mut self)
        requires
            old(self).all_players_result() is Some,
        ensures
            final(self).roster() == old(self).all_players_result()->0,
            step_keeps(old(self).roster(), final(self).roster()),
            final(self).current_match == old(self).current_match,
            final(self).start_time == old(self).start_time,
            final(self).end_time == old(self).end_time,
            final(self).match_type == old(self).match_type,
            final(self).map == old(self).map,
            final(self).winning_team == old(self).winning_team,
    {
        proof {
            law_all_players_keep_records(*old(self));
        }
        let join_re = match compile(JOIN_PATTERN) {
            Some(re) => re,
            None => return,
        };
        let disconnect_re = match compile(DISCONNECT_PATTERN) {
            Some(re) => re,
            None => return,
        };
        let ghost step = presence_lines(self.start_time);
        let ghost lines = self.lines();
        let n = self.current_match.len();
        let mut i: usize = 0;
        assert(lines.skip(0) =~= lines);
        while i < n
            invariant
                join_re.source() == JOIN_PATTERN@,
                disconnect_re.source() == DISCONNECT_PATTERN@,
                n == self.current_match@.len(),
                i <= n,
                lines == self.lines(),
                step == presence_lines(self.start_time),
                run_lines(step, self.roster(), lines.skip(i as int)) == old(self).all_players_result(),
                old(self).all_players_result() is Some,
                self.current_match == old(self).current_match,
                self.start_time == old(self).start_time,
                self.end_time == old(self).end_time,
                self.match_type == old(self).match_type,
                self.map == old(self).map,
                self.winning_team == old(self).winning_team,
            decreases n - i,
        {
            proof {
                lemma_run_lines_unfold(step, self.roster(), lines, i as int);
            }
            let start = self.start_time;
            let ok = apply_presence_line(&mut self.players, &join_re, &disconnect_re, &self.current_match[i], start);
            i = i + 1;
        }
        assert(lines.skip(n as int) =~= Seq::<Seq<char>>::empty());
    }

    /// `process_all_players` when it can run to the end; otherwise (a pattern that does
    /// not compile, an id or a time that does not parse, or a time played out of range)
    /// `false`, with the match unchanged.
    pub fn try_process_all_players(&mut self) -> (r: bool)
        ensures
            r == (old(self).all_players_result() is Some),
            r ==> final(self).roster() == old(self).all_players_result()->0,
            !r ==> final(self).roster() == old(self).roster(),
            final(self).current_match == old(self).current_match,
            final(self).start_time == old(self).start_time,
            final(self).end_time == old(self).end_time,
            final(self).match_type == old(self).match_type,
            final(self).map == old(self).map,
            final(self).winning_team == old(self).winning_team,
    {
        let join_re = match compile(JOIN_PATTERN) {
            Some(re) => re,
            None => return false,
        };
        let disconnect_re = match compile(DISCONNECT_PATTERN) {
            Some(re) => re,
            None => return false,
        };
        let ghost step = presence_lines(self.start_time);
        let ghost lines = self.lines();
        let mut scratch = copy_players(&self.players);
        let n = self.current_match.len();
        let mut i: usize = 0;
        assert(lines.skip(0) =~= lines);
        while i < n
            invariant
                join_re.source() == JOIN_PATTERN@,
                disconnect_re.source() == DISCONNECT_PATTERN@,
                n == self.current_match@.len(),
                i <= n,
                lines == self.lines(),
                self == old(self),
                step == presence_lines(self.start_time),
                run_lines(step, roster_view(scratch@), lines.skip(i as int)) == old(self).all_players_result(),
            decreases n - i,
        {
            proof {
                lemma_run_lines_unfold(step, roster_view(scratch@), lines, i as int);
            }
            if !apply_presence_line(&mut scratch, &join_re, &disconnect_re, &self.current_match[i], self.start_time) {
                return false;
            }
            i = i + 1;
        }
        assert(lines.skip(n as int) =~= Seq::<Seq<char>>::empty());
        self.players = scratch;
        true
    }
}

} // verus!
