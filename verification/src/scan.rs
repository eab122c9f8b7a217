//! Finding the last match of the logs and the map it was played on, reading the log lines
//! from the newest to the oldest.

use vstd::prelude::*;

use crate::bindings::{
    captures, compile, parse_datetime, parsed_datetime, regex_captures, regex_compiles, Pattern,
};
use crate::clock::{instant_read, read_instant};
use crate::game::{lines_of, Game};
use crate::model::{map_name, Maps};
use crate::presence::{line_time, line_time_of, TIME_FORMAT};
use crate::text::{
    byte_range, byte_slice, byte_slice_ok, char_window, chars_of, contains_chars, seq_contains,
    str_eq, string_from_chars, trim, trim_chars, window,
};

verus! {

/// The text, at characters 25 to 54, of the line that starts a round.
pub const ROUND_START: &'static str = "World triggered \"Round_Start\"";

/// The text, at characters 25 to 52, of the line that ends a round.
pub const ROUND_END: &'static str = "World triggered \"Round_Win\"";

/// A line that loads a map holds this text.
pub const LOADING_MAP: &'static str = "Loading map";

/// The pattern of a map loading line: the map's name.
pub const MAP_PATTERN: &'static str = r#"Loading map "(.*)""#;

/// What a step of the search for the last match did.
#[derive(Clone, Copy, Debug, PartialEq, Eq, Structural)]
pub enum ScanStep {
    /// The search goes on with the next (older) line.
    Continue,
    /// The match was found: its lines and times are set.
    Done,
    /// A time at a round's start or end cannot be read: the search fails.
    Failed,
}

/// A line that ends a round: characters 25 to 52, trimmed, are `ROUND_END`.
pub open spec fn is_round_end(line: Seq<char>) -> bool {
    trim(window(line, 25, 52)) == ROUND_END@
}

/// A line that starts a round: characters 25 to 54, trimmed, are `ROUND_START`.
pub open spec fn is_round_start(line: Seq<char>) -> bool {
    trim(window(line, 25, 54)) == ROUND_START@
}

/// The instant of a round start line: bytes 1 to 23, trimmed, read as a date and time; `None`
/// where those bytes are no slice of the line or no time.
pub open spec fn round_start_time(line: Seq<char>) -> Option<i64> {
    if byte_slice_ok(line, 1, 23) {
        read_instant(parsed_datetime(trim(byte_slice(line, 1, 23)), TIME_FORMAT@))
    } else {
        None
    }
}

/// Where the search for the last match stands.
#[verifier::ext_equal]
pub struct ScanState {
    /// A round end was seen.
    pub found_end: bool,
    /// The lines seen since the first round end, newest first.
    pub collected: Seq<Seq<char>>,
    pub start_time: i64,
    pub end_time: i64,
    pub current_match: Seq<Seq<char>>,
    pub status: ScanStep,
}

/// The search after one more (older) line. A round end line sets the end time (each one
/// seen does) and starts collecting; once collecting, every line is collected, and a round
/// start line sets the start time and makes the collected lines, oldest first, the match.
pub open spec fn scan_step(s: ScanState, line: Seq<char>) -> ScanState {
    if s.status != ScanStep::Continue {
        s
    } else if is_round_end(line) {
        match line_time(line) {
            Some(t) => ScanState { found_end: true, collected: s.collected.push(line), end_time: t, ..s },
            None => ScanState { status: ScanStep::Failed, ..s },
        }
    } else if s.found_end {
        if is_round_start(line) {
            match round_start_time(line) {
                Some(t) => ScanState {
                    collected: s.collected.push(line),
                    start_time: t,
                    current_match: s.collected.push(line).reverse(),
                    status: ScanStep::Done,
                    ..s
                },
                None => ScanState { status: ScanStep::Failed, ..s },
            }
        } else {
            ScanState { collected: s.collected.push(line), ..s }
        }
    } else {
        s
    }
}

/// The search after the lines, newest first.
pub open spec fn scan_lines(s: ScanState, lines: Seq<Seq<char>>) -> ScanState
    decreases lines.len(),
{
    if lines.len() == 0 {
        s
    } else {
        scan_lines(scan_step(s, lines[0]), lines.drop_first())
    }
}

/// The search state of a match before any line was read.
pub open spec fn scan_start(g: Game) -> ScanState {
    ScanState {
        found_end: false,
        collected: Seq::empty(),
        start_time: g.start_time,
        end_time: g.end_time,
        current_match: g.lines(),
        status: ScanStep::Continue,
    }
}

/// The lines collected by a search that is under way.
pub struct MatchScan {
    found_end: bool,
    collected: Vec<String>,
}

impl MatchScan {
    pub closed spec fn found_end(&self) -> bool {
        self.found_end
    }

    pub closed spec fn collected(&self) -> Seq<Seq<char>> {
        self.collected@.map_values(|l: String| l@)
    }

    /// A search that has read no line.
    pub fn new() -> (r: Self)
        ensures
            !r.found_end(),
            r.collected().len() == 0,
    {
        let r = MatchScan { found_end: false, collected: Vec::new() };
        assert(r.collected() =~= Seq::<Seq<char>>::empty());
        r
    }
}

/// The search state of a match and a search under way.
pub open spec fn scan_state(g: Game, m: MatchScan, status: ScanStep) -> ScanState {
    ScanState {
        found_end: m.found_end(),
        collected: m.collected(),
        start_time: g.start_time,
        end_time: g.end_time,
        current_match: g.lines(),
        status,
    }
}

/// Whether `line` is a round end line.
fn round_end_line(cs: &Vec<char>) -> (r: bool)
    ensures
        r == is_round_end(cs@),
{
    let text = trim_chars(&char_window(cs, 25, 52));
    let marker = chars_of(ROUND_END);
    vec_eq(&text, &marker)
}

/// Whether `line` is a round start line.
fn round_start_line(cs: &Vec<char>) -> (r: bool)
    ensures
        r == is_round_start(cs@),
{
    let text = trim_chars(&char_window(cs, 25, 54));
    let marker = chars_of(ROUND_START);
    vec_eq(&text, &marker)
}

/// Whether two character lists are equal.
fn vec_eq(a: &Vec<char>, b: &Vec<char>) -> (r: bool)
    ensures
        r == (a@ == b@),
{
    if a.len() != b.len() {
        return false;
    }
    let mut i: usize = 0;
    while i < a.len()
        invariant
            a@.len() == b@.len(),
            i <= a@.len(),
            forall|j: int| 0 <= j < i ==> a@[j] == b@[j],
        decreases a@.len() - i,
    {
        if a[i] != b[i] {
            return false;
        }
        i = i + 1;
    }
    assert(a@ =~= b@);
    true
}

/// The time of a round start line.
fn round_start_time_of(line: &str) -> (r: Option<i64>)
    ensures
        r == round_start_time(line@),
{
    match byte_range(line, 1, 23) {
        Some(text) => {
            let t = string_from_chars(&trim_chars(&chars_of(text.as_str())));
            instant_read(parse_datetime(t.as_str(), TIME_FORMAT))
        },
        None => None,
    }
}

/// The lines of `v`, last first.
fn reversed(v: &Vec<String>) -> (r: Vec<String>)
    ensures
        r@.map_values(|l: String| l@) == v@.map_values(|l: String| l@).reverse(),
{
    let ghost orig = v@.map_values(|l: String| l@);
    let mut r: Vec<String> = Vec::new();
    let mut i: usize = v.len();
    while i > 0
        invariant
            i <= v@.len(),
            orig == v@.map_values(|l: String| l@),
            r@.len() == v@.len() - i,
            r@.map_values(|l: String| l@) == orig.reverse().take(r@.len() as int),
        decreases i,
    {
        let l = v[i - 1].clone();
        r.push(l);
        i = i - 1;
        assert(r@.map_values(|l: String| l@) =~= orig.reverse().take(r@.len() as int));
    }
    assert(orig.reverse().take(orig.len() as int) =~= orig.reverse());
    r
}

impl Game {
    /// Takes one more (older) log line into the search for the last match: see `scan_step`.
    pub fn match_scan_step(&mut self, scan: &mut MatchScan, line: String) -> (r: ScanStep)
        ensures
            scan_state(*final(self), *final(scan), r) == scan_step(
                scan_state(*old(self), *old(scan), ScanStep::Continue),
                line@,
            ),
            final(self).players == old(self).players,
            final(self).match_type == old(self).match_type,
            final(self).map == old(self).map,
            final(self).winning_team == old(self).winning_team,
    {
        let cs = chars_of(line.as_str());
        if round_end_line(&cs) {
            match line_time_of(&cs) {
                Some(t) => {
                    self.end_time = t;
                    scan.found_end = true;
                    scan.collected.push(line);
                    assert(scan.collected() =~= old(scan).collected().push(line@));
                    ScanStep::Continue
                },
                None => ScanStep::Failed,
            }
        } else if scan.found_end {
            if round_start_line(&cs) {
                match round_start_time_of(line.as_str()) {
                    Some(t) => {
                        self.start_time = t;
                        scan.collected.push(line);
                        assert(scan.collected() =~= old(scan).collected().push(line@));
                        self.current_match = reversed(&scan.collected);
                        ScanStep::Done
                    },
                    None => ScanStep::Failed,
                }
            } else {
                scan.collected.push(line);
                assert(scan.collected() =~= old(scan).collected().push(line@));
                ScanStep::Continue
            }
        } else {
            ScanStep::Continue
        }
    }
}


impl Game {
    /// Searches the log lines, newest first, for the last match (see `scan_step`): `Done`
    /// with its lines and start and end times set, `Failed` where a round's time cannot be
    /// read, `Continue` where the lines end before a match was found (a round end seen on
    /// the way has set the end time).
    pub fn get_current_match(&mut self, newest_first: &Vec<String>) -> (r: ScanStep)
        ensures
            ({
                let s = scan_lines(scan_start(*old(self)), lines_of(newest_first@));
                &&& r == s.status
                &&& final(self).start_time == s.start_time
                &&& final(self).end_time == s.end_time
                &&& final(self).lines() == s.current_match
            }),
            final(self).players == old(self).players,
            final(self).match_type == old(self).match_type,
            final(self).map == old(self).map,
            final(self).winning_team == old(self).winning_team,
    {
        let ghost lines = lines_of(newest_first@);
        let mut scan = MatchScan::new();
        let mut i: usize = 0;
        assert(scan_state(*self, scan, ScanStep::Continue) =~= scan_start(*old(self)));
        assert(lines.skip(0) =~= lines);
        while i < newest_first.len()
            invariant
                i <= newest_first@.len(),
                lines == lines_of(newest_first@),
                scan_lines(scan_state(*self, scan, ScanStep::Continue), lines.skip(i as int))
                    == scan_lines(scan_start(*old(self)), lines),
                self.players == old(self).players,
                self.match_type == old(self).match_type,
                self.map == old(self).map,
                self.winning_team == old(self).winning_team,
            decreases newest_first@.len() - i,
        {
            proof {
                assert(lines.skip(i as int).drop_first() =~= lines.skip(i + 1));
                assert(lines.skip(i as int)[0] == lines[i as int]);
            }
            let r = self.match_scan_step(&mut scan, newest_first[i].clone());
            if r != ScanStep::Continue {
                proof {
                    lemma_scan_stopped(scan_state(*self, scan, r), lines.skip(i + 1));
                }
                return r;
            }
            i = i + 1;
        }
        assert(lines.skip(i as int) =~= Seq::<Seq<char>>::empty());
        ScanStep::Continue
    }
}

/// A search that has stopped stays where it is.
proof fn lemma_scan_stopped(s: ScanState, lines: Seq<Seq<char>>)
    requires
        s.status != ScanStep::Continue,
    ensures
        scan_lines(s, lines) == s,
    decreases lines.len(),
{
    if lines.len() > 0 {
        lemma_scan_stopped(scan_step(s, lines[0]), lines.drop_first());
    }
}

/// What holds of a search all along: it has collected lines exactly once it saw a round
/// end, and the first line it collected is a round end; once done, the match is its lines.
pub open spec fn scan_inv(s: ScanState) -> bool {
    &&& s.found_end == (s.collected.len() > 0)
    &&& s.collected.len() > 0 ==> is_round_end(s.collected[0])
    &&& s.status == ScanStep::Done ==> s.collected.len() >= 2 && s.current_match
        == s.collected.reverse() && is_round_start(s.collected.last())
}

proof fn lemma_scan_inv(s: ScanState, lines: Seq<Seq<char>>)
    requires
        scan_inv(s),
    ensures
        scan_inv(scan_lines(s, lines)),
    decreases lines.len(),
{
    if lines.len() > 0 {
        let s1 = scan_step(s, lines[0]);
        if s.status == ScanStep::Continue && !is_round_end(lines[0]) && s.found_end {
            assert(s1.collected[0] == s.collected[0]);
        }
        if s.status == ScanStep::Continue && is_round_end(lines[0]) && s.collected.len() > 0 {
            assert(s1.collected[0] == s.collected[0]);
        }
        lemma_scan_inv(s1, lines.drop_first());
    }
}

/// A match that the search finds begins with the line that starts its round and ends
/// with a line that ends a round; every line of it was read.
pub proof fn law_found_match_spans_a_round(g: Game, newest_first: Seq<Seq<char>>)
    requires
        scan_lines(scan_start(g), newest_first).status == ScanStep::Done,
    ensures
        ({
            let m = scan_lines(scan_start(g), newest_first).current_match;
            &&& m.len() >= 2
            &&& is_round_start(m[0])
            &&& is_round_end(m.last())
        }),
{
    lemma_scan_inv(scan_start(g), newest_first);
    let s = scan_lines(scan_start(g), newest_first);
    let m = s.current_match;
    assert(m.len() == s.collected.len());
    assert(m[0] == s.collected.last());
    assert(m.last() == s.collected[0]);
    if s.collected.len() == 1 {
        assert(is_round_start(s.collected[0]) && is_round_end(s.collected[0]));
        assert(ROUND_START@ != ROUND_END@) by {
            reveal_strlit("World triggered \"Round_Start\"");
            reveal_strlit("World triggered \"Round_Win\"");
            assert(ROUND_START@.len() != ROUND_END@.len());
        }
    }
}

/// What a log line says of the map.
#[derive(Clone, Copy, Debug, PartialEq, Eq, Structural)]
pub enum MapLine {
    /// The line loads no map.
    Skip,
    /// The line loads this map.
    Found(Maps),
    /// The line loads a map of no known name.
    Unknown,
}

/// The map of a name, if it is one of the known maps.
pub open spec fn map_named(name: Seq<char>) -> Option<Maps> {
    if name == "NarakaCity"@ {
        Some(Maps::NarakaCity)
    } else if name == "MonumentValley"@ {
        Some(Maps::MonumentValley)
    } else if name == "RiftBasin"@ {
        Some(Maps::RiftBasin)
    } else if name == "Badlands"@ {
        Some(Maps::Badlands)
    } else if name == "GreatErg"@ {
        Some(Maps::GreatErg)
    } else if name == "TheMaw"@ {
        Some(Maps::TheMaw)
    } else if name == "CrimsonPeak"@ {
        Some(Maps::CrimsonPeak)
    } else if name == "NorthPolarCap"@ {
        Some(Maps::NorthPolarCap)
    } else {
        None
    }
}

/// What a log line says of the map: a line holding `Loading map` that matches the map
/// pattern loads the map it names.
pub open spec fn map_line(line: Seq<char>) -> MapLine {
    if !seq_contains(line, LOADING_MAP@) {
        MapLine::Skip
    } else {
        match regex_captures(MAP_PATTERN@, line) {
            Some(g) => if g.len() == 1 {
                match map_named(g[0]) {
                    Some(m) => MapLine::Found(m),
                    None => MapLine::Unknown,
                }
            } else {
                MapLine::Skip
            },
            None => MapLine::Skip,
        }
    }
}

/// The map of a name captured in a map loading line, if it is one of the known maps.
pub fn map_of_name(name: &str) -> (r: Option<Maps>)
    ensures
        r == map_named(name@),
{
    if str_eq(name, "NarakaCity") {
        Some(Maps::NarakaCity)
    } else if str_eq(name, "MonumentValley") {
        Some(Maps::MonumentValley)
    } else if str_eq(name, "RiftBasin") {
        Some(Maps::RiftBasin)
    } else if str_eq(name, "Badlands") {
        Some(Maps::Badlands)
    } else if str_eq(name, "GreatErg") {
        Some(Maps::GreatErg)
    } else if str_eq(name, "TheMaw") {
        Some(Maps::TheMaw)
    } else if str_eq(name, "CrimsonPeak") {
        Some(Maps::CrimsonPeak)
    } else if str_eq(name, "NorthPolarCap") {
        Some(Maps::NorthPolarCap)
    } else {
        None
    }
}

/// The map pattern, compiled; `None` where it does not compile.
pub fn map_pattern() -> (r: Option<Pattern>)
    ensures
        r is Some == regex_compiles(MAP_PATTERN@),
        r matches Some(p) ==> p.source() == MAP_PATTERN@,
{
    compile(MAP_PATTERN)
}

/// What a log line says of the map.
pub fn read_map_line(re: &Pattern, line: &str) -> (r: MapLine)
    requires
        re.source() == MAP_PATTERN@,
    ensures
        r == map_line(line@),
{
    if !contains_chars(&chars_of(line), &chars_of(LOADING_MAP)) {
        return MapLine::Skip;
    }
    match captures(re, line) {
        Some(g) => {
            if g.len() != 1 {
                return MapLine::Skip;
            }
            match map_of_name(g[0].as_str()) {
                Some(m) => MapLine::Found(m),
                None => MapLine::Unknown,
            }
        },
        None => MapLine::Skip,
    }
}

/// The first line, newest first, that loads a map: what it says, or `Skip` if none does.
pub open spec fn newest_map_line(lines: Seq<Seq<char>>) -> MapLine
    decreases lines.len(),
{
    if lines.len() == 0 {
        MapLine::Skip
    } else if map_line(lines[0]) != MapLine::Skip {
        map_line(lines[0])
    } else {
        newest_map_line(lines.drop_first())
    }
}

/// The map of the game after a search's map line `r`: the map it loads, if any.
pub open spec fn map_after(old_map: Maps, r: MapLine) -> Maps {
    match r {
        MapLine::Found(m) => m,
        _ => old_map,
    }
}

impl Game {
    /// One step of the search for the map, on the next line, newest first: a line that
    /// loads a known map sets the match's map. The result says what the line loads; the
    /// search is over at the first result other than `Skip`.
    pub fn take_map_line(&mut self, re: &Pattern, line: &str) -> (r: MapLine)
        requires
            re.source() == MAP_PATTERN@,
        ensures
            r == map_line(line@),
            final(self).map == map_after(old(self).map, r),
            final(self).players == old(self).players,
            final(self).current_match == old(self).current_match,
            final(self).start_time == old(self).start_time,
            final(self).end_time == old(self).end_time,
            final(self).match_type == old(self).match_type,
            final(self).winning_team == old(self).winning_team,
    {
        let r = read_map_line(re, line);
        if let MapLine::Found(m) = r {
            self.map = m;
        }
        r
    }
}

/// The first line, newest first, that loads a map: what it says (`Skip` if none does).
pub fn newest_map(re: &Pattern, newest_first: &Vec<String>) -> (r: MapLine)
    requires
        re.source() == MAP_PATTERN@,
    ensures
        r == newest_map_line(lines_of(newest_first@)),
{
    let ghost lines = lines_of(newest_first@);
    let mut i: usize = 0;
    assert(lines.skip(0) =~= lines);
    while i < newest_first.len()
        invariant
            re.source() == MAP_PATTERN@,
            i <= newest_first@.len(),
            lines == lines_of(newest_first@),
            newest_map_line(lines.skip(i as int)) == newest_map_line(lines),
        decreases newest_first@.len() - i,
    {
        proof {
            assert(lines.skip(i as int).drop_first() =~= lines.skip(i + 1));
            assert(lines.skip(i as int)[0] == lines[i as int]);
        }
        let r = read_map_line(re, newest_first[i].as_str());
        if r != MapLine::Skip {
            return r;
        }
        i = i + 1;
    }
    assert(lines.skip(i as int) =~= Seq::<Seq<char>>::empty());
    MapLine::Skip
}

impl Game {
    /// Sets the map from the newest line that loads one; leaves it as it is where no line
    /// loads a map. The newest such line must name a known map.
    pub fn get_current_map(&mut self, newest_first: &Vec<String>) -> (r: MapLine)
        requires
            regex_compiles(MAP_PATTERN@),
            newest_map_line(lines_of(newest_first@)) != MapLine::Unknown,
        ensures
            r == newest_map_line(lines_of(newest_first@)),
            final(self).map == map_after(old(self).map, r),
            final(self).players == old(self).players,
            final(self).current_match == old(self).current_match,
            final(self).start_time == old(self).start_time,
            final(self).end_time == old(self).end_time,
            final(self).match_type == old(self).match_type,
            final(self).winning_team == old(self).winning_team,
    {
        let re = match map_pattern() {
            Some(re) => re,
            None => return MapLine::Skip,
        };
        let ghost lines = lines_of(newest_first@);
        let mut i: usize = 0;
        assert(lines.skip(0) =~= lines);
        while i < newest_first.len()
            invariant
                re.source() == MAP_PATTERN@,
                i <= newest_first@.len(),
                lines == lines_of(newest_first@),
                newest_map_line(lines.skip(i as int)) == newest_map_line(lines),
                *self == *old(self),
            decreases newest_first@.len() - i,
        {
            proof {
                assert(lines.skip(i as int).drop_first() =~= lines.skip(i + 1));
                assert(lines.skip(i as int)[0] == lines[i as int]);
            }
            let r = self.take_map_line(&re, newest_first[i].as_str());
            if r != MapLine::Skip {
                return r;
            }
            i = i + 1;
        }
        assert(lines.skip(i as int) =~= Seq::<Seq<char>>::empty());
        MapLine::Skip
    }
}

impl Game {
    /// `get_current_map` where the map pattern compiles and the newest line that loads a map
    /// names a known one. Otherwise the match is unchanged, and the result is `None` where
    /// the pattern does not compile, `Some(MapLine::Unknown)` where the map is unknown.
    pub fn try_get_current_map(&mut self, newest_first: &Vec<String>) -> (r: Option<MapLine>)
        ensures
            r is Some == regex_compiles(MAP_PATTERN@),
            r matches Some(m) ==> m == newest_map_line(lines_of(newest_first@)),
            final(self).map == (match r {
                Some(m) => map_after(old(self).map, m),
                None => old(self).map,
            }),
            final(self).players == old(self).players,
            final(self).current_match == old(self).current_match,
            final(self).start_time == old(self).start_time,
            final(self).end_time == old(self).end_time,
            final(self).match_type == old(self).match_type,
            final(self).winning_team == old(self).winning_team,
    {
        let re = match map_pattern() {
            Some(re) => re,
            None => return None,
        };
        let found = newest_map(&re, newest_first);
        if found == MapLine::Unknown {
            return Some(found);
        }
        Some(self.get_current_map(newest_first))
    }
}

/// A map loading line loads the map whose name it gives, and no other: a name stands for
/// a map exactly when it is that map's name.
pub proof fn law_map_is_the_one_named(name: Seq<char>, m: Maps)
    ensures
        map_named(name) == Some(m) <==> name == map_name(m),
{
    reveal_strlit("NarakaCity");
    reveal_strlit("MonumentValley");
    reveal_strlit("RiftBasin");
    reveal_strlit("Badlands");
    reveal_strlit("GreatErg");
    reveal_strlit("TheMaw");
    reveal_strlit("CrimsonPeak");
    reveal_strlit("NorthPolarCap");
    assert("NarakaCity"@.len() == 10);
    assert("MonumentValley"@.len() == 14);
    assert("RiftBasin"@.len() == 9);
    assert("Badlands"@.len() == 8);
    assert("GreatErg"@.len() == 8);
    assert("TheMaw"@.len() == 6);
    assert("CrimsonPeak"@.len() == 11);
    assert("NorthPolarCap"@.len() == 13);
    assert("Badlands"@[0] != "GreatErg"@[0]);
    assert("Badlands"@ != "GreatErg"@);
}

} // verus!
