# parser

Statistics of ranked Silica matches, read from the server's log files.

`src/` is a Verus library. Each function states in its contract what it computes, and
Verus proves it:

- `text`: characters of strings, trimming, substring search, chat-message detection,
  character windows and byte slices of log lines, `i64` parsing.
- `model`: factions, game modes, maps, and the unit and structure tiers scoring goes by.
- `player`: a player's record and how kills, deaths and structure kills change it.
- `clock`: times read from log lines as instants (leap seconds included) and the seconds
  between two of them, as chrono counts them.
- `search`: the position of the first element with a property, shared by the lookups.
- `roster`: the players of a match, one record per player and faction.
- `presence`, `kills`, `command_log`, `commanders`, `outcome`: the match's log lines turned
  into time played, kills, commanders, winner and game mode.
- `scan`: the search, from the newest log line back, for the last match and its map.
- `records`: the ids and decisions used when storing a match.
- `bindings`: the calls into `regex` and `chrono` (and `format!`), whose contracts are
  trusted.

`app/` reads the log files and drives the library (the parser's `main`), stores matches in
PostgreSQL, rates commanders, and publishes the leaderboards (`--leaderboard`).
