//! The winner of a match and its game mode, read from its log lines.

use vstd::prelude::*;
use vstd::utf8::encode_utf8;

use crate::bindings::{captures, compile, regex_captures, regex_compiles, Pattern};
use crate::game::Game;
use crate::model::{Factions, Modes};
use crate::text::{
    byte_slice, byte_suffix, chars_of, contains_chars, seq_contains, str_eq, string_from_chars,
    trim, trim_chars,
};

verus! {

/// A line that announces a winner holds this word.
pub const TRIGGERED: &'static str = "triggered";

/// The pattern of a victory line: the winning team.
pub const VICTORY_PATTERN: &'static str = r#"Team "(.*?)" triggered "Victory""#;

/// The pattern of the game mode in a round start line.
pub const GAMETYPE_PATTERN: &'static str = r#"\(gametype "(.*?)"\)"#;

/// The byte at which the game mode starts in a round start line.
pub const MATCH_TYPE_RANGE: usize = 54;

/// The team named by the last victory line of `lines` (a line holding `triggered` that
/// matches the victory pattern), if there is one.
pub open spec fn last_victory(lines: Seq<Seq<char>>) -> Option<Seq<char>>
    decreases lines.len(),
{
    if lines.len() == 0 {
        None
    } else {
        let l = lines.last();
        match regex_captures(VICTORY_PATTERN@, l) {
            Some(g) => if seq_contains(l, TRIGGERED@) && g.len() == 1 {
                Some(g[0])
            } else {
                last_victory(lines.drop_last())
            },
            None => last_victory(lines.drop_last()),
        }
    }
}

/// The winner named `name`; a name of no faction leaves `current` as it is.
pub open spec fn winner_named(name: Seq<char>, current: Factions) -> Factions {
    if name == "Alien"@ {
        Factions::Alien
    } else if name == "Wildlife"@ {
        Factions::Wildlife
    } else if name == "Sol"@ {
        Factions::Sol
    } else if name == "Centauri"@ {
        Factions::Centauri
    } else {
        current
    }
}

/// The game mode named `name`; an unknown name leaves `current` as it is.
pub open spec fn mode_named(name: Seq<char>, current: Modes) -> Modes {
    if name == "HUMANS_VS_ALIENS"@ {
        Modes::SolVsAlien
    } else if name == "HUMANS_VS_HUMANS"@ {
        Modes::CentauriVsSol
    } else if name == "HUMANS_VS_HUMANS_VS_ALIENS"@ {
        Modes::CentauriVsSolVsAlien
    } else {
        current
    }
}

/// The capture groups of the game-mode pattern in the first line, from byte 54 on,
/// trimmed.
pub open spec fn gametype_captures(first_line: Seq<char>) -> Option<Seq<Seq<char>>> {
    regex_captures(
        GAMETYPE_PATTERN@,
        trim(byte_slice(first_line, MATCH_TYPE_RANGE as int, encode_utf8(first_line).len() as int)),
    )
}

/// `get_match_type` reads a game mode: the game-mode pattern compiles, there is a first
/// line, byte 54 of it is a character boundary, and the pattern matches what follows.
pub open spec fn match_type_readable(lines: Seq<Seq<char>>) -> bool {
    &&& regex_compiles(GAMETYPE_PATTERN@)
    &&& lines.len() > 0
    &&& vstd::utf8::is_char_boundary(encode_utf8(lines[0]), MATCH_TYPE_RANGE as int)
    &&& gametype_captures(lines[0]) matches Some(g) && g.len() >= 1
}

impl Game {
    /// Sets the winner from the last victory line of the match; a victory line that names
    /// no faction, or no victory line at all, leaves it as it is.
    pub fn get_winning_team(&mut self)
        requires
            regex_compiles(VICTORY_PATTERN@),
        ensures
            final(self).winning_team == (match last_victory(old(self).lines()) {
                Some(name) => winner_named(name, old(self).winning_team),
                None => old(self).winning_team,
            }),
            final(self).players == old(self).players,
            final(self).current_match == old(self).current_match,
            final(self).start_time == old(self).start_time,
            final(self).end_time == old(self).end_time,
            final(self).match_type == old(self).match_type,
            final(self).map == old(self).map,
    {
        let re = match compile(VICTORY_PATTERN) {
            Some(re) => re,
            None => return,
        };
        let ghost lines = self.lines();
        let mut i: usize = self.current_match.len();
        let triggered = chars_of(TRIGGERED);
        assert(lines.take(i as int) =~= lines);
        while i > 0
            invariant
                i <= lines.len(),
                lines == self.lines(),
                triggered@ == TRIGGERED@,
                re.source() == VICTORY_PATTERN@,
                self == old(self),
                last_victory(lines) == last_victory(lines.take(i as int)),
            decreases i,
        {
            let line = &self.current_match[i - 1];
            proof {
                assert(lines.take(i as int).drop_last() =~= lines.take(i - 1));
                assert(lines.take(i as int).last() == line@);
            }
            if contains_chars(&chars_of(line.as_str()), &triggered) {
                match captures(&re, line.as_str()) {
                    Some(g) => {
                        if g.len() == 1 {
                            self.set_winning_team(g[0].as_str());
                            return;
                        }
                    },
                    None => {},
                }
            }
            i = i - 1;
        }
        assert(lines.take(0) =~= Seq::<Seq<char>>::empty());
    }

    /// Sets the winner from the team name captured in a victory line (see `winner_named`).
    pub fn set_winning_team(&mut self, name: &str)
        ensures
            final(self).winning_team == winner_named(name@, old(self).winning_team),
            final(self).players == old(self).players,
            final(self).current_match == old(self).current_match,
            final(self).start_time == old(self).start_time,
            final(self).end_time == old(self).end_time,
            final(self).match_type == old(self).match_type,
            final(self).map == old(self).map,
    {
        if str_eq(name, "Alien") {
            self.winning_team = Factions::Alien;
        } else if str_eq(name, "Wildlife") {
            self.winning_team = Factions::Wildlife;
        } else if str_eq(name, "Sol") {
            self.winning_team = Factions::Sol;
        } else if str_eq(name, "Centauri") {
            self.winning_team = Factions::Centauri;
        }
    }

    /// `get_winning_team` where the victory pattern compiles; otherwise `false`, with the
    /// match unchanged.
    pub fn try_get_winning_team(&mut self) -> (r: bool)
        ensures
            r == regex_compiles(VICTORY_PATTERN@),
            r ==> final(self).winning_team == (match last_victory(old(self).lines()) {
                Some(name) => winner_named(name, old(self).winning_team),
                None => old(self).winning_team,
            }),
            !r ==> final(self).winning_team == old(self).winning_team,
            final(self).players == old(self).players,
            final(self).current_match == old(self).current_match,
            final(self).start_time == old(self).start_time,
            final(self).end_time == old(self).end_time,
            final(self).match_type == old(self).match_type,
            final(self).map == old(self).map,
    {
        if compile(VICTORY_PATTERN).is_some() {
            self.get_winning_team();
            true
        } else {
            false
        }
    }

    /// Sets the game mode from the round start line (the first line of the match): the
    /// name in `(gametype "...")`, read from byte 54 on.
    pub fn get_match_type(&mut self)
        requires
            match_type_readable(old(self).lines()),
        ensures
            final(self).match_type == mode_named(
                gametype_captures(old(self).lines()[0])->0[0],
                old(self).match_type,
            ),
            final(self).players == old(self).players,
            final(self).current_match == old(self).current_match,
            final(self).start_time == old(self).start_time,
            final(self).end_time == old(self).end_time,
            final(self).winning_team == old(self).winning_team,
            final(self).map == old(self).map,
    {
        match self.read_gametype() {
            Some(name) => self.set_match_type(name.as_str()),
            None => {},
        }
    }

    /// The game-mode name of the round start line, where it can be read.
    fn read_gametype(&self) -> (r: Option<String>)
        ensures
            r is Some == match_type_readable(self.lines()),
            r matches Some(name) ==> name@ == gametype_captures(self.lines()[0])->0[0],
    {
        if self.current_match.len() == 0 {
            return None;
        }
        let first = &self.current_match[0];
        let suffix = match byte_suffix(first.as_str(), MATCH_TYPE_RANGE) {
            Some(s) => s,
            None => return None,
        };
        let text = string_from_chars(&trim_chars(&chars_of(suffix.as_str())));
        let re = match compile(GAMETYPE_PATTERN) {
            Some(re) => re,
            None => return None,
        };
        match captures(&re, text.as_str()) {
            None => None,
            Some(g) => {
                if g.len() < 1 {
                    return None;
                }
                Some(g[0].clone())
            },
        }
    }

    /// Sets the game mode from the name captured in a round start line (see `mode_named`).
    pub fn set_match_type(&mut self, name: &str)
        ensures
            final(self).match_type == mode_named(name@, old(self).match_type),
            final(self).players == old(self).players,
            final(self).current_match == old(self).current_match,
            final(self).start_time == old(self).start_time,
            final(self).end_time == old(self).end_time,
            final(self).winning_team == old(self).winning_team,
            final(self).map == old(self).map,
    {
        if str_eq(name, "HUMANS_VS_ALIENS") {
            self.match_type = Modes::SolVsAlien;
        } else if str_eq(name, "HUMANS_VS_HUMANS") {
            self.match_type = Modes::CentauriVsSol;
        } else if str_eq(name, "HUMANS_VS_HUMANS_VS_ALIENS") {
            self.match_type = Modes::CentauriVsSolVsAlien;
        }
    }

    /// `get_match_type` where a game mode can be read; otherwise `false`, with the match
    /// unchanged.
    pub fn try_get_match_type(&mut self) -> (r: bool)
        ensures
            r == match_type_readable(old(self).lines()),
            r ==> final(self).match_type == mode_named(
                gametype_captures(old(self).lines()[0])->0[0],
                old(self).match_type,
            ),
            !r ==> final(self).match_type == old(self).match_type,
            final(self).players == old(self).players,
            final(self).current_match == old(self).current_match,
            final(self).start_time == old(self).start_time,
            final(self).end_time == old(self).end_time,
            final(self).winning_team == old(self).winning_team,
            final(self).map == old(self).map,
    {
        if self.read_gametype().is_some() {
            self.get_match_type();
            true
        } else {
            false
        }
    }
}

} // verus!
