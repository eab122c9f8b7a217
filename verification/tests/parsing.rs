use parser::Game;
use parser::{Factions, Modes};

#[test]
fn check_match_type_parsing() {
    let mut game = Game {
        current_match: vec![
            r#"   L 07/22/2024 - 00:18:48: World triggered "Round_Start" (gametype "HUMANS_VS_ALIENS")    "#
                .to_string(),
        ],
        ..Default::default()
    };
    game.get_match_type();
    assert_eq!(game.match_type, Modes::SolVsAlien);

    game.current_match = vec![
        r#" L 07/22/2024 - 12:18:45: World triggered "Round_Start" (gametype "HUMANS_VS_HUMANS_VS_ALIENS")  "#
            .to_string(),
    ];
    game.get_match_type();
    assert_eq!(game.match_type, Modes::CentauriVsSolVsAlien);

    game.current_match = vec![
        r#" L 07/22/2024 - 12:18:45: World triggered "Round_Start" (gametype "HUMANS_VS_HUMANS")  "#
            .to_string(),
    ];
    game.get_match_type();
    assert_eq!(game.match_type, Modes::CentauriVsSol);
}

#[test]
fn check_winning_team_parsing() {
    let mut game = Game {
        current_match: vec![
            r#" L 07/22/2024 - 23:58:42: Team "Alien" triggered "Victory"   "#.to_string(),
        ],
        ..Default::default()
    };
    game.get_winning_team();
    assert_eq!(game.winning_team, Factions::Alien);
    game.current_match =
        vec![r#" L 07/22/2024 - 23:58:42: Team "Centauri" triggered "Victory"   "#.to_string()];
    game.get_winning_team();
    assert_eq!(game.winning_team, Factions::Centauri);

    game.current_match =
        vec![r#" L 07/22/2024 - 23:58:42: Team "Sol" triggered "Victory"   "#.to_string()];
    game.get_winning_team();
    assert_eq!(game.winning_team, Factions::Sol);
}

#[test]
fn check_abnormal_characters() {
    let mut game = Game {
        current_match: vec![
            r#"L 07/12/2024 - 00:03:57: "ßЉбббппѐѐ<21312><321321312><>" joined team "Alien""#.to_string(),
r#"L 07/12/2024 - 00:09:33: "ßЉбббппѐѐ<21312><321321312><Alien>" triggered "structure_kill" (structure "Node") (struct_team "Alien")"#.to_string(),
r#"L 07/10/2024 - 00:00:57: "ßЉбббппѐѐ<21312><321321312><Alien>" killed "инининин ТУТУХТУХХ<123212><3122211><Sol>" with "Goliath" (dmgtype "Collision") (victim "Soldier_Commando")"#.to_string(),
r#"L 07/10/2024 - 00:00:57: "ßЉбббппѐѐ<21312><321321312><Alien>" killed "инининин ТУХТУХХ<13212><31122211><Alien>" with "Goliath" (dmgtype "Collision") (victim "Goliath")"#.to_string(),
        ],
        ..Default::default()
    };
    game.process_all_players();
    game.process_structure_kills();
    game.process_kills();
    let abnormal_player = game.get_player(321321312_i64, Factions::Alien).unwrap();
    assert_eq!(abnormal_player.faction_type, Factions::Alien);
    assert_eq!(abnormal_player.player_name, "ßЉбббппѐѐ");
    assert_eq!(abnormal_player.structure_kill[0], 1);
    assert_eq!(abnormal_player.unit_kill[1], 1);
    assert_eq!(abnormal_player.unit_kill[2], -1);
    assert_eq!(abnormal_player.points, -30);
}
