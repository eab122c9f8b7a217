use parser::game::Game;
use parser::model::{Factions, Maps, Modes};
use parser::records::{
    enough_players, get_faction_id, get_map_id, get_mode_id, resolve_player_id, win_increment,
    win_place,
};
use parser::text::{_remove_date_data, char_window, parse_i64, remove_chat_messages, str_eq};

#[test]
fn faction_names() {
    assert_eq!(Game::get_factions("Sol"), Factions::Sol);
    assert_eq!(Game::get_factions("Alien"), Factions::Alien);
    assert_eq!(Game::get_factions("Centauri"), Factions::Centauri);
    assert_eq!(Game::get_factions("sol"), Factions::Wildlife);
    assert_eq!(Game::get_factions(""), Factions::Wildlife);
}

#[test]
fn chat_messages_are_recognised_by_whole_words() {
    assert!(!remove_chat_messages(r#"L 07/12/2024 - 00:03:57: "Bob<1><2><Sol>" say "hello""#));
    assert!(!remove_chat_messages("x\tsay_team\ty"));
    assert!(!remove_chat_messages("say"));
    assert!(remove_chat_messages(r#""Bob<1><2><Sol>" joined team "Sayers""#));
    assert!(remove_chat_messages("sayings and essays"));
}

#[test]
fn integer_parsing_follows_std() {
    assert_eq!(parse_i64("42"), Some(42));
    assert_eq!(parse_i64("-7"), Some(-7));
    assert_eq!(parse_i64("+5"), Some(5));
    assert_eq!(parse_i64(""), None);
    assert_eq!(parse_i64("-"), None);
    assert_eq!(parse_i64("+-5"), None);
    assert_eq!(parse_i64(" 1"), None);
    assert_eq!(parse_i64("12a"), None);
    assert_eq!(parse_i64("9223372036854775807"), Some(i64::MAX));
    assert_eq!(parse_i64("9223372036854775808"), None);
    assert_eq!(parse_i64("-9223372036854775808"), Some(i64::MIN));
    assert_eq!(parse_i64("-9223372036854775809"), None);
    for s in ["0", "-0", "007", "123456789", "x", "1e3"] {
        assert_eq!(parse_i64(s), s.parse::<i64>().ok());
    }
}

#[test]
fn char_windows_clip_like_the_byte_lookup() {
    let cs: Vec<char> = "abcdef".chars().collect();
    assert_eq!(char_window(&cs, 1, 3), vec!['b', 'c']);
    assert_eq!(char_window(&cs, 2, 40), vec!['c', 'd', 'e', 'f']);
    assert_eq!(char_window(&cs, 10, 40), cs);
    let wide: Vec<char> = "ßЉбб".chars().collect();
    assert_eq!(char_window(&wide, 1, 3), vec!['Љ', 'б']);
}

#[test]
fn string_equality() {
    assert!(str_eq("ßЉ", "ßЉ"));
    assert!(!str_eq("ßЉ", "ßЉб"));
    assert!(!str_eq("abc", "abd"));
}

#[test]
fn date_removal() {
    assert_eq!(
        _remove_date_data(r#"L 07/12/2024 - 00:03:57: "Bob<1><2><Sol>" say "hi""#),
        r#""Bob<1><2><Sol>" say "hi""#
    );
    assert_eq!(_remove_date_data("short line"), "");
}

#[test]
fn stored_ids() {
    assert_eq!(get_faction_id(&Factions::Alien), 0);
    assert_eq!(get_faction_id(&Factions::Centauri), 1);
    assert_eq!(get_faction_id(&Factions::Sol), 2);
    assert_eq!(get_faction_id(&Factions::Wildlife), 3);
    assert_eq!(get_map_id(Maps::GreatErg), Some(5));
    assert_eq!(get_map_id(Maps::TheMaw), None);
    assert_eq!(get_mode_id(Modes::CentauriVsSolVsAlien), 2);
    assert!(enough_players(7));
    assert!(!enough_players(6));
    assert_eq!(win_place(true), 1);
    assert_eq!(win_place(false), 2);
    assert_eq!(win_increment(1), 1);
    assert_eq!(win_increment(2), 0);
}

#[test]
fn player_ids_resolve_from_search_then_run() {
    let added = vec![(100_i64, 5_i32), (200, 6), (100, 9)];
    assert_eq!(resolve_player_id(42, &added, 100), Some(42));
    assert_eq!(resolve_player_id(-1, &added, 100), Some(5));
    assert_eq!(resolve_player_id(-1, &added, 200), Some(6));
    assert_eq!(resolve_player_id(-1, &added, 300), None);
}
