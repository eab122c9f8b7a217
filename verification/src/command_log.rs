//! Reading the commanders of a match from its role changes and disconnects.

use vstd::prelude::*;

use crate::bindings::{captures, compile, regex_captures, regex_compiles, Pattern};
use crate::commanders::{
    command_seconds, commander_pairs, commanders_wf, end_commander, law_end_closes_the_command, is_current, longest_commanders, no_commanders,
    start_commander, CommanderDataStructure, CommanderView,
};
use crate::clock::elapsed;
use crate::game::{lines_of, Game};
use crate::model::{faction_from_name, faction_of_name, Factions};
use crate::player::{fits_duration, new_player, Player, PlayerView};
use crate::presence::{line_time, line_time_of, DISCONNECTED, DISCONNECT_PATTERN};
use crate::roster::{
    copy_players, find_player, key_index, lemma_key_index, lemma_replace_keeps,
    lemma_step_keeps_trans, lemma_upsert, replace_player, roster_view, step_keeps, upsert,
    upsert_player,
};
use crate::text::{
    chars_of, contains_chars, is_chat, parse_i64, parse_i64_spec, remove_chat_messages,
    seq_contains, str_eq,
};

verus! {

/// A line of a role change holds this text.
pub const CHANGED_ROLE: &'static str = "changed role";

/// The pattern of a role change line: player (name, ?, id, team) and the new role.
pub const ROLE_PATTERN: &'static str = r#""(.*?)<(.*?)><(.*?)><(.*?)>" changed role to "(.*?)""#;

/// The commanders after a player leaves, read from the four capture groups of a disconnect
/// line and the line's time `time`: a player of a faction who commands it stops commanding
/// at that time. `None` where the id does not parse, or, for a commander, the time does not
/// parse or the time commanded leaves what `TimeDelta` holds.
pub open spec fn commander_leave_step(c: CommanderView, g: Seq<Seq<char>>, time: Option<i64>) -> Option<CommanderView> {
    let f = faction_of_name(g[3]);
    if f == Factions::Wildlife {
        Some(c)
    } else {
        match parse_i64_spec(g[2]) {
            Some(id) => if is_current(c, f, id) {
                match time {
                    Some(t) => end_commander(c, id, f, t),
                    None => None,
                }
            } else {
                Some(c)
            },
            None => None,
        }
    }
}

/// The records and the commanders after a disconnect line: see `commander_leave_step`; the
/// records stay as they are.
pub open spec fn commander_disconnect_step(
    ps: Seq<PlayerView>,
    c: CommanderView,
    line: Seq<char>,
) -> Option<(Seq<PlayerView>, CommanderView)> {
    match regex_captures(DISCONNECT_PATTERN@, line) {
        Some(g) => if g.len() == 4 {
            match commander_leave_step(c, g, line_time(line)) {
                Some(c1) => Some((ps, c1)),
                None => None,
            }
        } else {
            Some((ps, c))
        },
        None => Some((ps, c)),
    }
}

/// The records and the commanders after a role change, read from the five capture groups
/// of a role change line and the line's time `time`: the player, if of a faction, gets a
/// record if they have none; taking the role `Commander` makes them their faction's
/// commander; any other role ends their command if they were their faction's commander.
/// `None` where the time or the id does not parse, or the time commanded leaves what
/// `TimeDelta` holds.
pub open spec fn role_step(
    ps: Seq<PlayerView>,
    c: CommanderView,
    g: Seq<Seq<char>>,
    time: Option<i64>,
    start: i64,
    end: i64,
) -> Option<(Seq<PlayerView>, CommanderView)> {
    match time {
        Some(t) => {
            let f = faction_of_name(g[3]);
            if f == Factions::Wildlife {
                Some((ps, c))
            } else {
                match parse_i64_spec(g[2]) {
                    Some(id) => {
                        let ps1 = upsert(ps, new_player(id, g[0], f, start, end, false));
                        if g[4] == "Commander"@ {
                            Some((ps1, start_commander(c, id, f, t)))
                        } else if is_current(c, f, id) {
                            match end_commander(c, id, f, t) {
                                Some(c1) => Some((ps1, c1)),
                                None => None,
                            }
                        } else {
                            Some((ps1, c))
                        }
                    },
                    None => None,
                }
            }
        },
        None => None,
    }
}

/// The records and the commanders after a role change line: see `role_step`.
pub open spec fn role_change_step(
    ps: Seq<PlayerView>,
    c: CommanderView,
    line: Seq<char>,
    start: i64,
    end: i64,
) -> Option<(Seq<PlayerView>, CommanderView)> {
    match regex_captures(ROLE_PATTERN@, line) {
        Some(g) => if g.len() == 5 {
            role_step(ps, c, g, line_time(line), start, end)
        } else {
            Some((ps, c))
        },
        None => Some((ps, c)),
    }
}

/// What one log line does in `get_commanders`: chat messages and lines with neither a
/// role change nor a disconnect do nothing.
pub open spec fn commander_line_step(
    ps: Seq<PlayerView>,
    c: CommanderView,
    line: Seq<char>,
    start: i64,
    end: i64,
) -> Option<(Seq<PlayerView>, CommanderView)> {
    if is_chat(line) || !(seq_contains(line, CHANGED_ROLE@) || seq_contains(line, DISCONNECTED@)) {
        Some((ps, c))
    } else if seq_contains(line, DISCONNECTED@) {
        commander_disconnect_step(ps, c, line)
    } else {
        role_change_step(ps, c, line, start, end)
    }
}

/// The records and commanders after every line, in order; `None` if a line cannot be taken.
pub open spec fn run_commander_lines(
    ps: Seq<PlayerView>,
    c: CommanderView,
    lines: Seq<Seq<char>>,
    start: i64,
    end: i64,
) -> Option<(Seq<PlayerView>, CommanderView)>
    decreases lines.len(),
{
    if lines.len() == 0 {
        Some((ps, c))
    } else {
        match commander_line_step(ps, c, lines[0], start, end) {
            Some((ps1, c1)) => run_commander_lines(ps1, c1, lines.drop_first(), start, end),
            None => None,
        }
    }
}

/// The commanders after each of `keys` stopped commanding at `t`, in order.
pub open spec fn close_all(c: CommanderView, keys: Seq<(i64, Factions)>, t: i64) -> Option<CommanderView>
    decreases keys.len(),
{
    if keys.len() == 0 {
        Some(c)
    } else {
        match end_commander(c, keys[0].0, keys[0].1, t) {
            Some(c1) => close_all(c1, keys.drop_first(), t),
            None => None,
        }
    }
}

/// The records with each of `pairs` (faction, player) marked as commander, where the
/// player has a record for the faction.
pub open spec fn mark_commanders(ps: Seq<PlayerView>, pairs: Seq<(Factions, i64)>) -> Seq<PlayerView>
    decreases pairs.len(),
{
    if pairs.len() == 0 {
        ps
    } else {
        let k = key_index(ps, pairs[0].1, pairs[0].0);
        let ps1 = if k >= 0 {
            ps.update(k, PlayerView { is_commander: true, ..ps[k] })
        } else {
            ps
        };
        mark_commanders(ps1, pairs.drop_first())
    }
}

/// The (player, faction) keys of the players that command at the moment.
pub open spec fn current_keys(c: CommanderView) -> Seq<(i64, Factions)> {
    c.current.map_values(|e: (i64, Factions, i64)| (e.0, e.1))
}

impl Game {
    /// The commanders of the match's factions after every line, once every player still
    /// commanding at the end stopped at the match's end; `None` where the processing would
    /// stop or a pattern does not compile.
    pub open spec fn commanders_after(&self) -> Option<(Seq<PlayerView>, CommanderView)> {
        if !(regex_compiles(ROLE_PATTERN@) && regex_compiles(DISCONNECT_PATTERN@)) {
            None
        } else {
            match run_commander_lines(self.roster(), no_commanders(), self.lines(), self.start_time, self.end_time) {
                Some((ps, c)) => match close_all(c, current_keys(c), self.end_time) {
                    Some(c2) => Some((ps, c2)),
                    None => None,
                },
                None => None,
            }
        }
    }

    /// The records once the commander of each faction is marked: `None` where the
    /// processing would stop.
    pub open spec fn commanders_result(&self) -> Option<Seq<PlayerView>> {
        match self.commanders_after() {
            Some((ps, c)) => Some(mark_commanders(ps, commander_pairs(longest_commanders(c.time)))),
            None => None,
        }
    }
}

fn apply_commander_line(
    ps: &mut Vec<Player>,
    data: &mut CommanderDataStructure,
    role_re: &Pattern,
    disconnect_re: &Pattern,
    line: &String,
    start: i64,
    end: i64,
) -> (ok: bool)
    requires
        role_re.source() == ROLE_PATTERN@,
        disconnect_re.source() == DISCONNECT_PATTERN@,
    ensures
        ok == commander_line_step(roster_view(old(ps)@), old(data)@, line@, start, end) is Some,
        ok ==> (roster_view(final(ps)@), final(data)@) == commander_line_step(
            roster_view(old(ps)@),
            old(data)@,
            line@,
            start,
            end,
        )->0,
{
    let cs = chars_of(line.as_str());
    if !remove_chat_messages(line.as_str()) {
        return true;
    }
    let is_disconnect = contains_chars(&cs, &chars_of(DISCONNECTED));
    if !(contains_chars(&cs, &chars_of(CHANGED_ROLE)) || is_disconnect) {
        return true;
    }
    if is_disconnect {
        let caps = captures(disconnect_re, line.as_str());
        match caps {
            None => true,
            Some(g) => {
                if g.len() != 4 {
                    return true;
                }
                let t = line_time_of(&cs);
                apply_commander_leave(data, &g, t)
            },
        }
    } else {
        let caps = captures(role_re, line.as_str());
        match caps {
            None => true,
            Some(g) => {
                if g.len() != 5 {
                    return true;
                }
                let t = line_time_of(&cs);
                apply_role_change(ps, data, &g, t, start, end)
            },
        }
    }
}

/// A player leaving, from the four capture groups of a disconnect line and the line's
/// time: see `commander_leave_step`. `false`, with the commanders unchanged, where that
/// gives `None`.
pub fn apply_commander_leave(data: &mut CommanderDataStructure, g: &Vec<String>, time: Option<i64>) -> (ok: bool)
    requires
        g@.len() == 4,
    ensures
        ok == commander_leave_step(old(data)@, g@.map_values(|s: String| s@), time) is Some,
        ok ==> final(data)@ == commander_leave_step(old(data)@, g@.map_values(|s: String| s@), time)->0,
        !ok ==> final(data)@ == old(data)@,
{
    let f = faction_from_name(g[3].as_str());
    if f == Factions::Wildlife {
        return true;
    }
    let id = match parse_i64(g[2].as_str()) {
        Some(id) => id,
        None => return false,
    };
    if data.is_current_commander(f, id) {
        let t = match time {
            Some(t) => t,
            None => return false,
        };
        if !data.can_end_commander(id, f, t) {
            return false;
        }
        data.add_commander_end(id, f, t);
    }
    true
}

/// A role change, from the five capture groups of a role change line and the line's time:
/// see `role_step`. `false`, with the records and the commanders unchanged, where that
/// gives `None`.
pub fn apply_role_change(
    ps: &mut Vec<Player>,
    data: &mut CommanderDataStructure,
    g: &Vec<String>,
    time: Option<i64>,
    start: i64,
    end: i64,
) -> (ok: bool)
    requires
        g@.len() == 5,
    ensures
        ok == role_step(roster_view(old(ps)@), old(data)@, g@.map_values(|s: String| s@), time, start, end) is Some,
        ok ==> (roster_view(final(ps)@), final(data)@) == role_step(
            roster_view(old(ps)@),
            old(data)@,
            g@.map_values(|s: String| s@),
            time,
            start,
            end,
        )->0,
        !ok ==> final(ps)@ == old(ps)@ && final(data)@ == old(data)@,
{
    let t = match time {
        Some(t) => t,
        None => return false,
    };
    let f = faction_from_name(g[3].as_str());
    if f == Factions::Wildlife {
        return true;
    }
    let id = match parse_i64(g[2].as_str()) {
        Some(id) => id,
        None => return false,
    };
    if str_eq(g[4].as_str(), "Commander") {
        let fresh = Player::new(id, g[0].clone(), f, start, end, false);
        upsert_player(ps, fresh);
        data.add_commander_start(id, f, t);
    } else if data.is_current_commander(f, id) {
        if !data.can_end_commander(id, f, t) {
            return false;
        }
        let fresh = Player::new(id, g[0].clone(), f, start, end, false);
        upsert_player(ps, fresh);
        data.add_commander_end(id, f, t);
    } else {
        let fresh = Player::new(id, g[0].clone(), f, start, end, false);
        upsert_player(ps, fresh);
    }
    true
}

fn mark_commanders_exec(ps: &mut Vec<Player>, pairs: &Vec<(Factions, i64)>)
    ensures
        roster_view(final(ps)@) == mark_commanders(roster_view(old(ps)@), pairs@),
{
    let mut i: usize = 0;
    assert(pairs@.skip(0) =~= pairs@);
    while i < pairs.len()
        invariant
            i <= pairs@.len(),
            mark_commanders(roster_view(ps@), pairs@.skip(i as int)) == mark_commanders(
                roster_view(old(ps)@),
                pairs@,
            ),
        decreases pairs@.len() - i,
    {
        let (f, id) = pairs[i];
        proof {
            assert(pairs@.skip(i as int).drop_first() =~= pairs@.skip(i + 1));
            assert(pairs@.skip(i as int)[0] == pairs@[i as int]);
            lemma_key_index(roster_view(ps@), id, f);
        }
        match find_player(ps, id, f) {
            Some(k) => {
                let mut p = ps[k].copy();
                p.set_commander();
                replace_player(ps, k, p);
            },
            None => {},
        }
        i = i + 1;
    }
    assert(pairs@.skip(pairs@.len() as int) =~= Seq::<(Factions, i64)>::empty());
}

fn commanders_in(
    ps: &mut Vec<Player>,
    role_re: &Pattern,
    disconnect_re: &Pattern,
    lines: &Vec<String>,
    start: i64,
    end: i64,
) -> (r: Option<CommanderDataStructure>)
    requires
        role_re.source() == ROLE_PATTERN@,
        disconnect_re.source() == DISCONNECT_PATTERN@,
    ensures
        r is Some == run_commander_lines(roster_view(old(ps)@), no_commanders(), lines_of(lines@), start, end) is Some,
        r matches Some(d) ==> (roster_view(final(ps)@), d@) == run_commander_lines(
            roster_view(old(ps)@),
            no_commanders(),
            lines_of(lines@),
            start,
            end,
        )->0,
{
    let ghost all = lines_of(lines@);
    let mut data = CommanderDataStructure::new();
    let n = lines.len();
    let mut i: usize = 0;
    assert(all.skip(0) =~= all);
    while i < n
        invariant
            role_re.source() == ROLE_PATTERN@,
            disconnect_re.source() == DISCONNECT_PATTERN@,
            n == lines@.len(),
            i <= n,
            all == lines_of(lines@),
            run_commander_lines(roster_view(ps@), data@, all.skip(i as int), start, end)
                == run_commander_lines(roster_view(old(ps)@), no_commanders(), all, start, end),
        decreases n - i,
    {
        proof {
            assert(all.skip(i as int).drop_first() =~= all.skip(i + 1));
            assert(all.skip(i as int)[0] == all[i as int]);
        }
        if !apply_commander_line(ps, &mut data, role_re, disconnect_re, &lines[i], start, end) {
            return None;
        }
        i = i + 1;
    }
    assert(all.skip(n as int) =~= Seq::<Seq<char>>::empty());
    Some(data)
}

fn close_all_exec(data: &mut CommanderDataStructure, t: i64) -> (ok: bool)
    ensures
        ok == close_all(old(data)@, current_keys(old(data)@), t) is Some,
        ok ==> final(data)@ == close_all(old(data)@, current_keys(old(data)@), t)->0,
{
    let keys = data.current_keys();
    let mut i: usize = 0;
    assert(keys@.skip(0) =~= keys@);
    while i < keys.len()
        invariant
            i <= keys@.len(),
            keys@ == current_keys(old(data)@),
            close_all(data@, keys@.skip(i as int), t) == close_all(old(data)@, keys@, t),
        decreases keys@.len() - i,
    {
        let (id, f) = keys[i];
        proof {
            assert(keys@.skip(i as int).drop_first() =~= keys@.skip(i + 1));
            assert(keys@.skip(i as int)[0] == keys@[i as int]);
        }
        if !data.can_end_commander(id, f, t) {
            return false;
        }
        data.add_commander_end(id, f, t);
        i = i + 1;
    }
    assert(keys@.skip(keys@.len() as int) =~= Seq::<(i64, Factions)>::empty());
    true
}

impl Game {
    /// Finds the commander of each faction: role changes to `Commander` start a command,
    /// other role changes and disconnects end it, commands still running end with the
    /// match, and the player who commanded a faction longest is marked its commander.
    /// Players seen changing role get a record if they have none.
    pub fn get_commanders(&mut self)
        requires
            old(self).commanders_result() is Some,
        ensures
            final(self).roster() == old(self).commanders_result()->0,
            step_keeps(old(self).roster(), final(self).roster()),
            final(self).current_match == old(self).current_match,
            final(self).start_time == old(self).start_time,
            final(self).end_time == old(self).end_time,
            final(self).match_type == old(self).match_type,
            final(self).map == old(self).map,
            final(self).winning_team == old(self).winning_team,
    {
        proof {
            law_commanders_keep_records(*old(self));
        }
        let role_re = match compile(ROLE_PATTERN) {
            Some(re) => re,
            None => return,
        };
        let disconnect_re = match compile(DISCONNECT_PATTERN) {
            Some(re) => re,
            None => return,
        };
        let start = self.start_time;
        let end = self.end_time;
        assert(lines_of(self.current_match@) == self.lines());
        let found = commanders_in(&mut self.players, &role_re, &disconnect_re, &self.current_match, start, end);
        match found {
            Some(mut data) => {
                let ok = close_all_exec(&mut data, end);
                let pairs = data.get_all_commander();
                mark_commanders_exec(&mut self.players, &pairs);
            },
            None => {},
        }
    }

    /// `get_commanders` when it can run to the end; otherwise (a pattern that does not
    /// compile, an id or a time that does not parse, or a commander's time out of range)
    /// `false`, with the match unchanged.
    pub fn try_get_commanders(&mut self) -> (r: bool)
        ensures
            r == (old(self).commanders_result() is Some),
            r ==> final(self).roster() == old(self).commanders_result()->0,
            !r ==> final(self).roster() == old(self).roster(),
            final(self).current_match == old(self).current_match,
            final(self).start_time == old(self).start_time,
            final(self).end_time == old(self).end_time,
            final(self).match_type == old(self).match_type,
            final(self).map == old(self).map,
            final(self).winning_team == old(self).winning_team,
    {
        let role_re = match compile(ROLE_PATTERN) {
            Some(re) => re,
            None => return false,
        };
        let disconnect_re = match compile(DISCONNECT_PATTERN) {
            Some(re) => re,
            None => return false,
        };
        let mut scratch = copy_players(&self.players);
        assert(lines_of(self.current_match@) == self.lines());
        let found = commanders_in(
            &mut scratch,
            &role_re,
            &disconnect_re,
            &self.current_match,
            self.start_time,
            self.end_time,
        );
        match found {
            Some(mut data) => {
                if !close_all_exec(&mut data, self.end_time) {
                    return false;
                }
                let pairs = data.get_all_commander();
                mark_commanders_exec(&mut scratch, &pairs);
                self.players = scratch;
                true
            },
            None => false,
        }
    }
}


proof fn lemma_commander_line_keeps(
    ps: Seq<PlayerView>,
    c: CommanderView,
    line: Seq<char>,
    start: i64,
    end: i64,
)
    ensures
        commander_line_step(ps, c, line, start, end) matches Some((q, _)) ==> step_keeps(ps, q),
{
    if let Some(g) = regex_captures(ROLE_PATTERN@, line) {
        if g.len() == 5 {
            if let Some(id) = parse_i64_spec(g[2]) {
                let f = faction_of_name(g[3]);
                lemma_upsert(ps, new_player(id, g[0], f, start, end, false));
            }
        }
    }
}

proof fn lemma_run_commander_keeps(
    ps: Seq<PlayerView>,
    c: CommanderView,
    lines: Seq<Seq<char>>,
    start: i64,
    end: i64,
)
    ensures
        run_commander_lines(ps, c, lines, start, end) matches Some((q, _)) ==> step_keeps(ps, q),
    decreases lines.len(),
{
    if lines.len() > 0 {
        lemma_commander_line_keeps(ps, c, lines[0], start, end);
        if let Some((ps1, c1)) = commander_line_step(ps, c, lines[0], start, end) {
            lemma_run_commander_keeps(ps1, c1, lines.drop_first(), start, end);
            if let Some((q, _)) = run_commander_lines(ps, c, lines, start, end) {
                lemma_step_keeps_trans(ps, ps1, q);
            }
        }
    }
}

proof fn lemma_mark_keeps(ps: Seq<PlayerView>, pairs: Seq<(Factions, i64)>)
    ensures
        step_keeps(ps, mark_commanders(ps, pairs)),
    decreases pairs.len(),
{
    if pairs.len() > 0 {
        let k = key_index(ps, pairs[0].1, pairs[0].0);
        lemma_key_index(ps, pairs[0].1, pairs[0].0);
        let ps1 = if k >= 0 {
            lemma_replace_keeps(ps, k, PlayerView { is_commander: true, ..ps[k] });
            ps.update(k, PlayerView { is_commander: true, ..ps[k] })
        } else {
            ps
        };
        lemma_mark_keeps(ps1, pairs.drop_first());
        lemma_step_keeps_trans(ps, ps1, mark_commanders(ps1, pairs.drop_first()));
    }
}

/// Finding the commanders keeps every record already there, in its place, keeps each
/// player and faction to one record, and adds no `Wildlife` record.
pub proof fn law_commanders_keep_records(game: Game)
    ensures
        game.commanders_result() matches Some(q) ==> step_keeps(game.roster(), q),
{
    lemma_run_commander_keeps(game.roster(), no_commanders(), game.lines(), game.start_time, game.end_time);
    if let Some((ps, c)) = game.commanders_after() {
        lemma_mark_keeps(ps, commander_pairs(longest_commanders(c.time)));
        lemma_step_keeps_trans(game.roster(), ps, game.commanders_result()->0);
    }
}


/// A chat message changes neither who is in the match nor who commands: it is passed over
/// by the join and disconnect processing and by the commander processing.
pub proof fn law_chat_lines_change_nothing(
    ps: Seq<PlayerView>,
    c: CommanderView,
    line: Seq<char>,
    start: i64,
    end: i64,
)
    requires
        is_chat(line),
    ensures
        crate::presence::presence_line_step(ps, line, start) == Some(ps),
        commander_line_step(ps, c, line, start, end) == Some((ps, c)),
{
}

/// A line that `get_commanders` passes over whatever the records and commanders: a chat
/// message, a line with neither a role change nor a disconnect, or one whose player is on
/// no faction's team (for a role change, on a line whose time can be read).
pub open spec fn is_bystander_line(line: Seq<char>) -> bool {
    if is_chat(line) || !(seq_contains(line, CHANGED_ROLE@) || seq_contains(line, DISCONNECTED@)) {
        true
    } else if seq_contains(line, DISCONNECTED@) {
        match regex_captures(DISCONNECT_PATTERN@, line) {
            Some(g) => g.len() == 4 && faction_of_name(g[3]) == Factions::Wildlife,
            None => false,
        }
    } else {
        match regex_captures(ROLE_PATTERN@, line) {
            Some(g) => g.len() == 5 && faction_of_name(g[3]) == Factions::Wildlife && line_time(line) is Some,
            None => false,
        }
    }
}

proof fn lemma_commander_run_append(
    ps: Seq<PlayerView>,
    c: CommanderView,
    a: Seq<Seq<char>>,
    b: Seq<Seq<char>>,
    start: i64,
    end: i64,
)
    ensures
        run_commander_lines(ps, c, a + b, start, end) == (match run_commander_lines(ps, c, a, start, end) {
            Some((p1, c1)) => run_commander_lines(p1, c1, b, start, end),
            None => None,
        }),
    decreases a.len(),
{
    if a.len() == 0 {
        assert(a + b =~= b);
    } else {
        assert((a + b).drop_first() =~= a.drop_first() + b);
        assert((a + b)[0] == a[0]);
        if let Some((p1, c1)) = commander_line_step(ps, c, a[0], start, end) {
            lemma_commander_run_append(p1, c1, a.drop_first(), b, start, end);
        }
    }
}

proof fn lemma_commander_run_bystanders(
    ps: Seq<PlayerView>,
    c: CommanderView,
    extra: Seq<Seq<char>>,
    start: i64,
    end: i64,
)
    requires
        forall|i: int| 0 <= i < extra.len() ==> is_bystander_line(#[trigger] extra[i]),
    ensures
        run_commander_lines(ps, c, extra, start, end) == Some((ps, c)),
    decreases extra.len(),
{
    if extra.len() > 0 {
        assert(is_bystander_line(extra[0]));
        let rest = extra.drop_first();
        assert forall|i: int| 0 <= i < rest.len() implies is_bystander_line(#[trigger] rest[i]) by {
            assert(rest[i] == extra[i + 1]);
        }
        lemma_commander_run_bystanders(ps, c, rest, start, end);
    }
}

/// Chat messages and lines of players on no faction's team, put anywhere among a match's
/// lines, change neither the records nor the commanders that `get_commanders` finds:
/// `with_extra`, whose lines are `a`, then the lines `extra` of that kind, then `b`, gives
/// what `game`, whose lines are `a` then `b`, gives.
pub proof fn law_bystander_lines_change_nothing(
    game: Game,
    with_extra: Game,
    a: Seq<Seq<char>>,
    extra: Seq<Seq<char>>,
    b: Seq<Seq<char>>,
)
    requires
        game.lines() == a + b,
        with_extra.lines() == a + extra + b,
        forall|i: int| 0 <= i < extra.len() ==> is_bystander_line(#[trigger] extra[i]),
        with_extra.roster() == game.roster(),
        with_extra.start_time == game.start_time,
        with_extra.end_time == game.end_time,
    ensures
        with_extra.commanders_after() == game.commanders_after(),
        with_extra.commanders_result() == game.commanders_result(),
{
    let (ps, c, s, e) = (game.roster(), no_commanders(), game.start_time, game.end_time);
    lemma_commander_run_append(ps, c, a + extra, b, s, e);
    lemma_commander_run_append(ps, c, a, extra, s, e);
    lemma_commander_run_append(ps, c, a, b, s, e);
    if let Some((p1, c1)) = run_commander_lines(ps, c, a, s, e) {
        lemma_commander_run_bystanders(p1, c1, extra, s, e);
    }
}

/// A disconnect of a faction's current commander ends their command at the line's time:
/// the line leaves the records as they are and the commanders as `end_commander` leaves
/// them. So where the player has an open command of the faction, since the instant of entry
/// `k`, the line closes it and adds the seconds from that instant to the line's time to their
/// time as commander (and is taken exactly when those are durations `TimeDelta` holds).
pub proof fn law_disconnect_ends_command(
    ps: Seq<PlayerView>,
    c: CommanderView,
    line: Seq<char>,
    start: i64,
    end: i64,
    g: Seq<Seq<char>>,
    id: i64,
    t: i64,
    k: int,
)
    requires
        !is_chat(line),
        seq_contains(line, DISCONNECTED@),
        regex_captures(DISCONNECT_PATTERN@, line) == Some(g),
        g.len() == 4,
        faction_of_name(g[3]) != Factions::Wildlife,
        parse_i64_spec(g[2]) == Some(id),
        line_time(line) == Some(t),
        is_current(c, faction_of_name(g[3]), id),
        commanders_wf(c),
        0 <= k < c.current.len(),
        c.current[k].0 == id,
        c.current[k].1 == faction_of_name(g[3]),
    ensures
        ({
            let f = faction_of_name(g[3]);
            let d = elapsed(t as int, c.current[k].2 as int);
            &&& commander_line_step(ps, c, line, start, end) == (match end_commander(c, id, f, t) {
                Some(c2) => Some((ps, c2)),
                None => None,
            })
            &&& (commander_line_step(ps, c, line, start, end) is Some <==> fits_duration(d) && fits_duration(
                command_seconds(c, id, f) + d,
            ))
            &&& (commander_line_step(ps, c, line, start, end) matches Some((q, c2)) ==> {
                &&& q == ps
                &&& forall|j: int| 0 <= j < c2.current.len() ==> !((#[trigger] c2.current[j]).0 == id && c2.current[j].1 == f)
                &&& command_seconds(c2, id, f) == command_seconds(c, id, f) + d
            })
        }),
{
    law_end_closes_the_command(c, id, faction_of_name(g[3]), t, k);
}

} // verus!
