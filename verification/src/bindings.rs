//! The calls into `regex` and `chrono` that the log processing makes.

use vstd::prelude::*;

use crate::clock::SECS_BOUND;

verus! {

#[verifier::external_type_specification]
#[verifier::external_body]
pub struct ExRegex(regex::Regex);

/// Whether `regex::Regex::new` accepts `pattern`.
pub uninterp spec fn regex_compiles(pattern: Seq<char>) -> bool;

/// The capture groups that `regex` finds for the compiled `pattern` in `haystack`: `None`
/// when it does not match; otherwise the text of each explicit capture group of the
/// leftmost match, in order.
pub uninterp spec fn regex_captures(pattern: Seq<char>, haystack: Seq<char>) -> Option<
    Seq<Seq<char>>,
>;

/// The views of the strings in an optional list of strings.
pub open spec fn strings_view(r: Option<Vec<String>>) -> Option<Seq<Seq<char>>> {
    match r {
        Some(v) => Some(v@.map_values(|s: String| s@)),
        None => None,
    }
}

/// A regular expression compiled from its source text. Only `compile` makes one.
pub struct Pattern {
    source: String,
    regex: regex::Regex,
}

impl Pattern {
    /// The text the expression was compiled from.
    pub closed spec fn source(&self) -> Seq<char> {
        self.source@
    }
}

/// Compiles `pattern` with `regex::Regex::new`. The contract claims that the result is
/// there exactly when the pattern compiles (named `regex_compiles`) and that it keeps the
/// pattern as its source.
#[verifier::external_body]
pub(crate) fn compile(pattern: &str) -> (r: Option<Pattern>)
    ensures
        r is Some == regex_compiles(pattern@),
        r matches Some(p) ==> p.source() == pattern@,
{
    regex::Regex::new(pattern).ok().map(|regex| Pattern { source: pattern.to_string(), regex })
}

/// Runs `Regex::captures` of the compiled pattern on `haystack`. The contract claims only
/// that the result is a function of the pattern's source and the haystack, named
/// `regex_captures`; a group that takes no part in the match is handed back as the empty
/// string. Nothing is stated of which groups a pattern has or what they hold.
#[verifier::external_body]
pub(crate) fn captures(pattern: &Pattern, haystack: &str) -> (r: Option<Vec<String>>)
    ensures
        strings_view(r) == regex_captures(pattern.source(), haystack@),
{
    pattern.regex.captures(haystack).map(|caps| {
        caps.iter().skip(1).map(|m| m.map_or(String::new(), |m| m.as_str().to_string())).collect()
    })
}

/// The time that `chrono::NaiveDateTime::parse_from_str(text, format)` reads, as whole
/// seconds since 1970-01-01 00:00:00 and the nanoseconds past them; `None` when chrono
/// refuses the text.
pub uninterp spec fn parsed_datetime(text: Seq<char>, format: Seq<char>) -> Option<(i64, u32)>;

/// Parses `text` with `chrono::NaiveDateTime::parse_from_str` and hands back the result's
/// `and_utc().timestamp()` and `and_utc().timestamp_subsec_nanos()`. The contract claims
/// that the result is a function of the two texts, named `parsed_datetime`, and that the
/// seconds lie within the range of chrono's dates (years -262143 to 262142), well inside
/// `SECS_BOUND` either way.
#[verifier::external_body]
pub(crate) fn parse_datetime(text: &str, format: &str) -> (r: Option<(i64, u32)>)
    ensures
        r == parsed_datetime(text@, format@),
        r matches Some((secs, _)) ==> -SECS_BOUND < secs < SECS_BOUND,
{
    chrono::NaiveDateTime::parse_from_str(text, format)
        .ok()
        .map(|t| (t.and_utc().timestamp(), t.and_utc().timestamp_subsec_nanos()))
}


/// The decimal digits of `n`, most significant first.
pub open spec fn digits_text(n: nat) -> Seq<char>
    decreases n,
{
    let digit = seq!['0', '1', '2', '3', '4', '5', '6', '7', '8', '9'][(n % 10) as int];
    if n < 10 {
        seq![digit]
    } else {
        digits_text(n / 10).push(digit)
    }
}

/// An integer as `Display` writes it: its decimal digits, after a `-` if it is negative.
pub open spec fn decimal_text(n: int) -> Seq<char> {
    if n < 0 {
        seq!['-'] + digits_text((-n) as nat)
    } else {
        digits_text(n as nat)
    }
}

/// A `bool` as `Display` writes it.
pub open spec fn bool_text(b: bool) -> Seq<char> {
    if b {
        "true"@
    } else {
        "false"@
    }
}

/// Three integers as `Debug` writes an array of them: `[a, b, c]`.
pub open spec fn triple_text(s: Seq<i32>) -> Seq<char> {
    "["@ + decimal_text(s[0] as int) + ", "@ + decimal_text(s[1] as int) + ", "@
        + decimal_text(s[2] as int) + "]"@
}

/// The text of a player's summary, as `player_summary` writes it.
pub open spec fn summary_text(
    name: Seq<char>,
    id: i64,
    faction: Seq<char>,
    unit_kills: Seq<i32>,
    structure_kills: Seq<i32>,
    deaths: i32,
    winner: bool,
    infantry: bool,
    commander: bool,
    points: i32,
) -> Seq<char> {
    "name: "@ + name + ", id: "@ + decimal_text(id as int) + ", faction_type: "@ + faction
        + ", unit_kills: "@ + triple_text(unit_kills) + ",\n                structure_kill: "@
        + triple_text(structure_kills) + ", deaths = "@ + decimal_text(deaths as int)
        + " self.winner = "@ + bool_text(winner) + " is_infantry = "@ + bool_text(infantry)
        + "\n                is_commander = "@ + bool_text(commander) + " points= "@
        + decimal_text(points as int)
}

/// Writes a player's summary with `format!`: the texts as they are, the integers in
/// decimal (`Display`), the two kill counters in `Debug` form (`[a, b, c]`) and the flags
/// as `true` or `false`, between the fixed words of the template (see `summary_text`).
#[verifier::external_body]
pub(crate) fn player_summary(
    name: &str,
    id: i64,
    faction: &str,
    unit_kills: &[i32; 3],
    structure_kills: &[i32; 3],
    deaths: i32,
    winner: bool,
    infantry: bool,
    commander: bool,
    points: i32,
) -> (r: String)
    ensures
        r@ == summary_text(
            name@,
            id,
            faction@,
            unit_kills@,
            structure_kills@,
            deaths,
            winner,
            infantry,
            commander,
            points,
        ),
{
    format!("name: {name}, id: {id}, faction_type: {faction}, unit_kills: {unit_kills:?},
                structure_kill: {structure_kills:?}, deaths = {deaths} self.winner = {winner} is_infantry = {infantry}
                is_commander = {commander} points= {points}")
}

} // verus!
