use parser::model::Factions;
use parser::player::Player;

fn fresh(faction: Factions) -> Player {
    Player::new(7, "Tester".to_string(), faction, 0, 0, false)
}

#[test]
fn friendly_kill_undoes_enemy_kill() {
    let mut p = fresh(Factions::Sol);
    p.update_unit_kill("Goliath", Factions::Alien);
    assert_eq!(p.unit_kill, [0, 0, 1]);
    assert_eq!(p.points, 50);
    p.update_unit_kill("Goliath", Factions::Sol);
    assert_eq!(p.unit_kill, [0, 0, 0]);
    assert_eq!(p.total_unit_kills, 0);
    assert_eq!(p.points, 0);
}

#[test]
fn enemy_kill_moves_points_to_killer() {
    let mut killer = fresh(Factions::Sol);
    let mut victim = Player::new(8, "Victim".to_string(), Factions::Alien, 0, 0, false);
    killer.update_unit_kill("Queen", Factions::Alien);
    victim.update_death("Queen");
    assert_eq!(killer.points, 100);
    assert_eq!(victim.points, -100);
    assert_eq!(killer.points + victim.points, 0);
    assert_eq!(victim.death, 1);
}

#[test]
fn unit_tiers_and_points() {
    let mut p = fresh(Factions::Centauri);
    p.update_unit_kill("Crab", Factions::Alien);
    p.update_unit_kill("Hunter", Factions::Alien);
    p.update_unit_kill("Scorpion", Factions::Alien);
    p.update_unit_kill("NoSuchUnit", Factions::Alien);
    assert_eq!(p.unit_kill, [1, 1, 1]);
    assert_eq!(p.total_unit_kills, 4);
    assert_eq!(p.points, 1 + 10 + 50);
}

#[test]
fn deaths_lose_the_unit_worth() {
    let mut p = fresh(Factions::Sol);
    p.update_death("Soldier_Rifleman");
    p.update_death("HeavyQuad");
    p.update_death("Goliath");
    p.update_death("Unknown");
    assert_eq!(p.death, 4);
    assert_eq!(p.points, -(1 + 10 + 50));
}

#[test]
fn structure_kills_count_by_first_listed_tier() {
    let mut p = fresh(Factions::Alien);
    p.update_structure_kill("Node");
    p.update_structure_kill("GrandSpawningCyst");
    p.update_structure_kill("Headquarters");
    p.update_structure_kill("Rock");
    assert_eq!(p.structure_kill, [1, 1, 1]);
    assert_eq!(p.total_structure_kills, 4);
    assert_eq!(p.points, 10 + 50 + 100);
}

#[test]
fn fps_and_winner() {
    let mut p = fresh(Factions::Sol);
    assert!(!p.is_fps());
    p.update_death("Crab");
    assert!(p.is_fps());
    assert!(p.did_win(Factions::Sol));
    assert!(!p.did_win(Factions::Alien));
    assert!(!p.is_commander);
    p.set_commander();
    assert!(p.is_commander);
}

#[test]
fn summary_text_names_the_player() {
    let p = fresh(Factions::Centauri);
    let s = p.__str__();
    assert!(s.starts_with("name: Tester, id: 7, faction_type: Centauri, unit_kills: [0, 0, 0],"));
    assert!(s.contains("is_commander = false points= 0"));
}

#[test]
fn copy_keeps_every_field() {
    let mut p = fresh(Factions::Sol);
    p.update_unit_kill("Crab", Factions::Alien);
    let q = p.copy();
    assert_eq!(q.player_name, p.player_name);
    assert_eq!(q.points, p.points);
    assert_eq!(q.unit_kill, p.unit_kill);
    assert_eq!(q.is_in_game(), p.is_in_game());
}

#[test]
fn summary_text_is_the_whole_template() {
    let mut p = fresh(Factions::Sol);
    p.update_unit_kill("Goliath", Factions::Sol);
    p.update_death("Queen");
    p.set_commander();
    let expected = "name: Tester, id: 7, faction_type: Sol, unit_kills: [0, 0, -1],\n                structure_kill: [0, 0, 0], deaths = 1 self.winner = false is_infantry = false\n                is_commander = true points= -150";
    assert_eq!(p.__str__(), expected);
}
