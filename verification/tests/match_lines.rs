use chrono::NaiveDateTime;
use parser::clock::elapsed_seconds;
use parser::game::Game;
use parser::model::{Factions, Maps, Modes};
use parser::scan::{MapLine, MatchScan, ScanStep};

fn ts(text: &str) -> i64 {
    let t = NaiveDateTime::parse_from_str(text, "%m/%d/%Y - %H:%M:%S").unwrap().and_utc();
    parser::clock::instant_of(t.timestamp(), t.timestamp_subsec_nanos())
}

fn line(time: &str, rest: &str) -> String {
    format!("L {time}: {rest}")
}

fn game_with(lines: Vec<String>) -> Game {
    Game { current_match: lines, ..Default::default() }
}

#[test]
fn join_and_disconnect_track_time_played() {
    let mut game = game_with(vec![
        line("07/23/2024 - 13:00:00", r#""Ann<1><11><>" joined team "Sol""#),
        line("07/23/2024 - 13:10:00", r#""Ann<1><11><Sol>" disconnected"#),
        line("07/23/2024 - 13:20:00", r#""Ann<1><11><>" joined team "Sol""#),
        line("07/23/2024 - 13:21:00", r#""Bot<2><x><>" joined team "Alien""#),
        line("07/23/2024 - 13:22:00", r#""Cat<3><33><>" joined team "Wildlife""#),
        line("07/23/2024 - 13:23:00", r#""Ann<1><11><Sol>" say "disconnected soon""#),
    ]);
    game.start_time = ts("07/23/2024 - 12:59:00");
    game.end_time = ts("07/23/2024 - 13:50:00");
    assert!(!game.try_process_all_players());
    assert_eq!(game.players.len(), 0);

    game.current_match.remove(3);
    game.process_all_players();
    assert_eq!(game.players.len(), 1);
    let ann = game.get_player(11, Factions::Sol).unwrap();
    assert!(ann.is_in_game());
    assert_eq!(ann.duration_played, 600);
    assert_eq!(ann.last_entered_time, ts("07/23/2024 - 13:20:00"));
    assert!(game.get_player(33, Factions::Wildlife).is_none());

    game.process_player_durations();
    let ann = game.get_player(11, Factions::Sol).unwrap();
    assert_eq!(ann.duration_played, 600 + 30 * 60);
    assert_eq!(ann.last_left_time, game.end_time);
    assert!(game.try_process_player_durations());
}

#[test]
fn disconnect_without_join_counts_from_match_start() {
    let mut game = game_with(vec![line("07/23/2024 - 13:05:00", r#""Dan<4><44><Alien>" disconnected"#)]);
    game.start_time = ts("07/23/2024 - 13:00:00");
    assert!(game.try_process_all_players());
    let dan = game.get_player(44, Factions::Alien).unwrap();
    assert!(!dan.is_in_game());
    assert_eq!(dan.duration_played, 300);
    assert_eq!(dan.player_name, "Dan");
}

#[test]
fn kills_by_ai_count_only_for_the_victim() {
    let mut game = game_with(vec![
        line("07/23/2024 - 13:05:00", r#""AI<1><Bot><Alien>" killed "Eve<5><55><Sol>" with "Claw" (dmgtype "Melee") (victim "Soldier_Heavy")"#),
        line("07/23/2024 - 13:06:00", r#""Eve<5><55><Sol>" killed "Crab<6><Bot><Wildlife>" with "Rifle" (dmgtype "Bullet") (victim "Crab")"#),
        line("07/23/2024 - 13:07:00", r#""Wild<7><77><Wildlife>" killed "Eve<5><55><Sol>" with "Teeth" (dmgtype "Melee") (victim "Crab")"#),
    ]);
    assert!(game.try_process_kills());
    assert_eq!(game.players.len(), 1);
    let eve = game.get_player(55, Factions::Sol).unwrap();
    assert_eq!(eve.death, 1);
    assert_eq!(eve.unit_kill, [1, 0, 0]);
    assert_eq!(eve.points, -1 + 1);
}

#[test]
fn structure_kills_skip_wildlife_and_ai() {
    let mut game = game_with(vec![
        line("07/23/2024 - 13:05:00", r#""Fay<8><88><Centauri>" triggered "structure_kill" (structure "Barracks") (struct_team "Sol")"#),
        line("07/23/2024 - 13:06:00", r#""Bot<9><Bot><Centauri>" triggered "structure_kill" (structure "Barracks") (struct_team "Sol")"#),
        line("07/23/2024 - 13:07:00", r#""Wild<7><77><Wildlife>" triggered "structure_kill" (structure "Nest") (struct_team "Alien")"#),
    ]);
    game.process_structure_kills();
    assert_eq!(game.players.len(), 1);
    let fay = game.get_player(88, Factions::Centauri).unwrap();
    assert_eq!(fay.structure_kill, [0, 1, 0]);
    assert_eq!(fay.points, 50);
}

#[test]
fn longest_commander_is_marked() {
    let mut game = game_with(vec![
        line("07/23/2024 - 13:00:00", r#""Gus<1><1><Sol>" changed role to "Commander""#),
        line("07/23/2024 - 13:10:00", r#""Gus<1><1><Sol>" changed role to "Infantry""#),
        line("07/23/2024 - 13:11:00", r#""Hal<2><2><Sol>" changed role to "Commander""#),
        line("07/23/2024 - 13:15:00", r#""Hal<2><2><Sol>" disconnected"#),
        line("07/23/2024 - 13:20:00", r#""Ida<3><3><Alien>" changed role to "Commander""#),
    ]);
    game.start_time = ts("07/23/2024 - 12:59:00");
    game.end_time = ts("07/23/2024 - 13:21:00");
    assert!(game.try_get_commanders());
    assert!(game.get_player(1, Factions::Sol).unwrap().is_commander);
    assert!(!game.get_player(2, Factions::Sol).unwrap().is_commander);
    assert!(game.get_player(3, Factions::Alien).unwrap().is_commander);
    assert_eq!(game.players.len(), 3);
}

#[test]
fn unreadable_role_change_time_fails() {
    let mut game = game_with(vec![line("99/99/2024 - 13:00:00", r#""Gus<1><1><Sol>" changed role to "Commander""#)]);
    assert!(!game.try_get_commanders());
    assert_eq!(game.players.len(), 0);
}

#[test]
fn match_type_needs_a_readable_first_line() {
    let mut game = game_with(vec![]);
    assert!(!game.try_get_match_type());
    game.current_match = vec!["too short".to_string()];
    assert!(!game.try_get_match_type());
    assert_eq!(game.match_type, Modes::SolVsAlien);
}

#[test]
fn winner_comes_from_the_last_victory_line() {
    let mut game = game_with(vec![
        line("07/23/2024 - 13:00:00", r#"Team "Sol" triggered "Victory""#),
        line("07/23/2024 - 13:01:00", r#"Team "Centauri" triggered "Victory""#),
        line("07/23/2024 - 13:02:00", r#"Team "Sol" triggered "Defeat""#),
    ]);
    game.get_winning_team();
    assert_eq!(game.winning_team, Factions::Centauri);
    game.current_match = vec![line("07/23/2024 - 13:01:00", r#"Team "Nobody" triggered "Victory""#)];
    game.get_winning_team();
    assert_eq!(game.winning_team, Factions::Centauri);
}

fn round_start(time: &str) -> String {
    line(time, r#"World triggered "Round_Start" (gametype "HUMANS_VS_HUMANS")"#)
}

fn round_end(time: &str) -> String {
    line(time, r#"World triggered "Round_Win""#)
}

#[test]
fn the_last_match_is_found_newest_first() {
    let newest_first = vec![
        line("07/23/2024 - 15:00:00", "after the match"),
        round_end("07/23/2024 - 14:19:26"),
        line("07/23/2024 - 14:00:00", "in the match"),
        round_start("07/23/2024 - 13:31:37"),
        round_end("07/23/2024 - 13:00:00"),
    ];
    let mut game = Game::default();
    assert_eq!(game.get_current_match(&newest_first), ScanStep::Done);
    assert_eq!(game.current_match, vec![newest_first[3].clone(), newest_first[2].clone(), newest_first[1].clone()]);
    assert_eq!(game.start_time, ts("07/23/2024 - 13:31:37"));
    assert_eq!(game.end_time, ts("07/23/2024 - 14:19:26"));
    assert_eq!(game.get_match_length(), 47 * 60 + 49);
    assert!(game.try_get_match_type());
    assert_eq!(game.match_type, Modes::CentauriVsSol);
}

#[test]
fn match_search_steps_and_failures() {
    let mut game = Game::default();
    let mut scan = MatchScan::new();
    assert_eq!(game.match_scan_step(&mut scan, round_start("07/23/2024 - 13:00:00")), ScanStep::Continue);
    assert_eq!(game.match_scan_step(&mut scan, round_end("07/23/2024 - 14:00:00")), ScanStep::Continue);
    assert_eq!(game.end_time, ts("07/23/2024 - 14:00:00"));
    assert_eq!(game.match_scan_step(&mut scan, round_start("13/45/2024 - 13:00:00")), ScanStep::Failed);

    let mut other = Game::default();
    assert_eq!(other.get_current_match(&vec![round_end("07/23/2024 - 14:00:00")]), ScanStep::Continue);
    assert_eq!(other.end_time, ts("07/23/2024 - 14:00:00"));
    assert!(other.current_match.is_empty());
}

#[test]
fn the_newest_map_line_decides() {
    let mut game = Game::default();
    let lines = vec![
        line("07/23/2024 - 15:00:00", "nothing"),
        line("07/23/2024 - 14:00:00", r#"Loading map "TheMaw""#),
        line("07/23/2024 - 13:00:00", r#"Loading map "RiftBasin""#),
    ];
    assert_eq!(game.get_current_map(&lines), MapLine::Found(Maps::TheMaw));
    assert_eq!(game.map, Maps::TheMaw);
    let unknown = vec![line("07/23/2024 - 14:00:00", r#"Loading map "Atlantis""#)];
    assert_eq!(game.try_get_current_map(&unknown), Some(MapLine::Unknown));
    assert_eq!(game.map, Maps::TheMaw);
    let re = parser::scan::map_pattern().unwrap();
    assert_eq!(parser::scan::newest_map(&re, &unknown), MapLine::Unknown);
    assert_eq!(game.take_map_line(&re, &lines[2]), MapLine::Found(Maps::RiftBasin));
    assert_eq!(game.map, Maps::RiftBasin);
    assert_eq!(game.take_map_line(&re, &unknown[0]), MapLine::Unknown);
    assert_eq!(game.map, Maps::RiftBasin);
    assert_eq!(game.get_current_map(&vec![]), MapLine::Skip);
}

#[test]
fn patterns_compile_and_guarded_steps_run() {
    assert!(parser::scan::map_pattern().is_some());
    let mut game = game_with(vec![line("07/23/2024 - 13:01:00", r#"Team "Alien" triggered "Victory""#)]);
    assert!(game.try_get_winning_team());
    assert_eq!(game.winning_team, Factions::Alien);
    let lines = vec![line("07/23/2024 - 14:00:00", r#"Loading map "CrimsonPeak""#)];
    assert_eq!(game.try_get_current_map(&lines), Some(MapLine::Found(Maps::CrimsonPeak)));
    assert_eq!(game.map, Maps::CrimsonPeak);
}

fn groups(parts: &[&str]) -> Vec<String> {
    parts.iter().map(|p| p.to_string()).collect()
}

#[test]
fn capture_groups_of_a_kill_count_for_both_sides() {
    let mut ps = Vec::new();
    let g = groups(&["Eve", "5", "55", "Sol", "Zed", "6", "66", "Alien", "Rifle", "Bullet", "Queen"]);
    assert!(parser::kills::apply_kill(&mut ps, &g, 10, 20));
    assert_eq!(ps.len(), 2);
    assert_eq!(ps[0].player_name, "Eve");
    assert_eq!(ps[0].unit_kill, [0, 0, 1]);
    assert_eq!(ps[0].points, 100);
    assert_eq!(ps[1].player_name, "Zed");
    assert_eq!(ps[1].death, 1);
    assert_eq!(ps[1].points, -100);
    assert!(parser::kills::apply_victim(&mut ps, &g, 10, 20));
    assert_eq!(ps[1].death, 2);
    let s = groups(&["Fay", "8", "88", "Centauri", "Barracks", "Sol"]);
    assert!(parser::kills::apply_structure_kill(&mut ps, &s, 10, 20));
    assert_eq!(ps[2].structure_kill, [0, 1, 0]);
}

#[test]
fn capture_groups_of_joins_and_leaves() {
    let mut ps = Vec::new();
    let j = groups(&["Ann", "1", "11", "", "Sol"]);
    assert!(!parser::presence::apply_join(&mut ps, &j, None));
    assert!(ps.is_empty());
    assert!(parser::presence::apply_join(&mut ps, &j, Some(200)));
    assert!(ps[0].is_in_game());
    assert_eq!(ps[0].last_entered_time, 200);
    let l = groups(&["Ann", "1", "11", "Sol"]);
    assert!(parser::presence::apply_leave(&mut ps, &l, Some(320), 0));
    assert!(!ps[0].is_in_game());
    assert_eq!(ps[0].duration_played, 60);
    let w = groups(&["Cat", "3", "33", "", "Wildlife"]);
    assert!(parser::presence::apply_join(&mut ps, &w, Some(100)));
    assert_eq!(ps.len(), 1);
}

#[test]
fn capture_groups_of_role_changes() {
    let mut ps = Vec::new();
    let mut data = parser::commanders::CommanderDataStructure::new();
    let take = groups(&["Gus", "1", "1", "Sol", "Commander"]);
    assert!(!parser::command_log::apply_role_change(&mut ps, &mut data, &take, None, 0, 50));
    assert!(ps.is_empty());
    assert!(parser::command_log::apply_role_change(&mut ps, &mut data, &take, Some(10), 0, 50));
    assert!(data.is_current_commander(Factions::Sol, 1));
    assert_eq!(ps.len(), 1);
    let leave = groups(&["Gus", "1", "1", "Sol"]);
    assert!(!parser::command_log::apply_commander_leave(&mut data, &leave, None));
    assert!(data.is_current_commander(Factions::Sol, 1));
    assert_eq!(data.current_keys(), vec![(1, Factions::Sol)]);
    assert!(parser::command_log::apply_commander_leave(&mut data, &leave, Some(40)));
    assert!(data.current_keys().is_empty());
    assert_eq!(data.get_all_commander(), vec![(Factions::Sol, 1)]);
}

#[test]
fn kills_add_up_over_two_runs() {
    let first = line("07/23/2024 - 13:05:00", r#""Eve<5><55><Sol>" killed "Zed<6><66><Alien>" with "Rifle" (dmgtype "Bullet") (victim "Queen")"#);
    let second = line("07/23/2024 - 13:06:00", r#""Zed<6><66><Alien>" killed "Eve<5><55><Sol>" with "Claw" (dmgtype "Melee") (victim "Goliath")"#);
    let mut whole = game_with(vec![first.clone(), second.clone()]);
    whole.process_kills();
    let mut parts = game_with(vec![first]);
    parts.process_kills();
    parts.current_match = vec![second];
    parts.process_kills();
    assert_eq!(whole.players.len(), parts.players.len());
    for (a, b) in whole.players.iter().zip(parts.players.iter()) {
        assert_eq!(a.player_id, b.player_id);
        assert_eq!(a.points, b.points);
        assert_eq!(a.unit_kill, b.unit_kill);
        assert_eq!(a.death, b.death);
    }
}

#[test]
fn bystander_lines_change_no_commander() {
    let plain = vec![
        line("07/23/2024 - 13:00:00", r#""Gus<1><1><Sol>" changed role to "Commander""#),
        line("07/23/2024 - 13:10:00", r#""Gus<1><1><Sol>" changed role to "Infantry""#),
    ];
    let mut with_extra = plain.clone();
    with_extra.insert(1, line("07/23/2024 - 13:05:00", r#""Gus<1><1><Sol>" say "changed role to Commander""#));
    with_extra.insert(1, line("07/23/2024 - 13:06:00", r#""Bug<9><9><Wildlife>" changed role to "Commander""#));
    with_extra.insert(1, line("07/23/2024 - 13:07:00", r#""Bug<9><9><Wildlife>" disconnected"#));
    let mut a = game_with(plain);
    let mut b = game_with(with_extra);
    assert!(a.try_get_commanders());
    assert!(b.try_get_commanders());
    assert_eq!(a.players.len(), 1);
    assert_eq!(b.players.len(), 1);
    assert!(a.players[0].is_commander && b.players[0].is_commander);
}

#[test]
fn captured_names_set_winner_mode_and_map() {
    let mut game = Game::default();
    game.set_winning_team("Centauri");
    assert_eq!(game.winning_team, Factions::Centauri);
    game.set_winning_team("Nobody");
    assert_eq!(game.winning_team, Factions::Centauri);
    game.set_match_type("HUMANS_VS_HUMANS_VS_ALIENS");
    assert_eq!(game.match_type, Modes::CentauriVsSolVsAlien);
    game.set_match_type("SOMETHING_ELSE");
    assert_eq!(game.match_type, Modes::CentauriVsSolVsAlien);
    assert_eq!(parser::scan::map_of_name("NorthPolarCap"), Some(Maps::NorthPolarCap));
    assert_eq!(parser::scan::map_of_name("Atlantis"), None);
}

#[test]
fn a_leap_second_is_a_second_of_its_own() {
    let before = ts("07/23/2024 - 13:00:59");
    let leap = ts("07/23/2024 - 13:00:60");
    let after = ts("07/23/2024 - 13:01:00");
    assert_ne!(leap, before);
    assert!(before < leap && leap < after);
    assert_eq!(elapsed_seconds(leap, before), 1);
    assert_eq!(elapsed_seconds(after, leap), 1);
    assert_eq!(elapsed_seconds(after, before), 1);
    let later = ts("07/23/2024 - 13:05:00");
    assert_eq!(elapsed_seconds(later, leap), 241);
    let midnight_leap = ts("07/23/2024 - 23:59:60");
    let next_day = ts("07/24/2024 - 00:00:00");
    assert_eq!(elapsed_seconds(next_day, midnight_leap), 0);
}

#[test]
fn time_played_counts_a_leap_second() {
    let mut game = game_with(vec![
        line("07/23/2024 - 13:00:00", r#""Ann<1><11><>" joined team "Sol""#),
        line("07/23/2024 - 13:00:60", r#""Ann<1><11><Sol>" disconnected"#),
    ]);
    game.start_time = ts("07/23/2024 - 12:59:00");
    assert!(game.try_process_all_players());
    let ann = game.get_player(11, Factions::Sol).unwrap();
    assert_eq!(ann.duration_played, 60);
    assert_eq!(ann.last_left_time, ts("07/23/2024 - 13:00:60"));
}

#[test]
fn commander_keys_stay_unique() {
    let mut data = parser::commanders::CommanderDataStructure::new();
    data.add_commander_start(1, Factions::Sol, 10);
    data.add_commander_start(1, Factions::Sol, 20);
    data.add_commander_start(2, Factions::Sol, 30);
    assert_eq!(data.current_keys(), vec![(1, Factions::Sol), (2, Factions::Sol)]);
    assert!(data.is_current_commander(Factions::Sol, 2));
    assert!(!data.is_current_commander(Factions::Sol, 1));
    data.add_commander_end(1, Factions::Sol, 40);
    data.add_commander_end(2, Factions::Sol, 70);
    assert!(data.current_keys().is_empty());
    assert_eq!(data.get_all_commander(), vec![(Factions::Sol, 2)]);
}
