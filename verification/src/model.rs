//! Factions, game modes, maps and the unit and structure tiers that scoring goes by.

use vstd::prelude::*;

use crate::text::str_eq;

verus! {

/// A team of a match.
#[derive(Clone, Copy, Debug, PartialEq, Eq, Structural, PartialOrd, Ord, Hash, Default)]
pub enum Factions {
    #[default]
    Sol,
    Centauri,
    Alien,
    Wildlife,
}

/// The teams that play a match.
#[derive(Clone, Copy, Debug, PartialEq, Eq, Structural, Hash, Default)]
pub enum Modes {
    #[default]
    SolVsAlien,
    CentauriVsSol,
    CentauriVsSolVsAlien,
}

/// The map of a match.
#[derive(Clone, Copy, Debug, PartialEq, Eq, Structural, Hash, Default)]
pub enum Maps {
    #[default]
    NarakaCity,
    MonumentValley,
    RiftBasin,
    Badlands,
    GreatErg,
    TheMaw,
    CrimsonPeak,
    NorthPolarCap,
}

/// The name under which the log loads a map: the name of its variant, as `Debug` writes it.
pub open spec fn map_name(m: Maps) -> Seq<char> {
    match m {
        Maps::NarakaCity => "NarakaCity"@,
        Maps::MonumentValley => "MonumentValley"@,
        Maps::RiftBasin => "RiftBasin"@,
        Maps::Badlands => "Badlands"@,
        Maps::GreatErg => "GreatErg"@,
        Maps::TheMaw => "TheMaw"@,
        Maps::CrimsonPeak => "CrimsonPeak"@,
        Maps::NorthPolarCap => "NorthPolarCap"@,
    }
}

/// The faction that a team name in the log stands for; every other name is `Wildlife`.
pub open spec fn faction_of_name(name: Seq<char>) -> Factions {
    if name == "Sol"@ {
        Factions::Sol
    } else if name == "Alien"@ {
        Factions::Alien
    } else if name == "Centauri"@ {
        Factions::Centauri
    } else {
        Factions::Wildlife
    }
}

pub fn faction_from_name(name: &str) -> (r: Factions)
    ensures
        r == faction_of_name(name@),
{
    if str_eq(name, "Sol") {
        Factions::Sol
    } else if str_eq(name, "Alien") {
        Factions::Alien
    } else if str_eq(name, "Centauri") {
        Factions::Centauri
    } else {
        Factions::Wildlife
    }
}

/// The factions that take part in a match of the given mode.
pub open spec fn playing_factions(mode: Modes) -> Seq<Factions> {
    match mode {
        Modes::SolVsAlien => seq![Factions::Sol, Factions::Alien],
        Modes::CentauriVsSol => seq![Factions::Centauri, Factions::Sol],
        Modes::CentauriVsSolVsAlien => seq![Factions::Sol, Factions::Alien, Factions::Centauri],
    }
}

/// Whether a faction can take part in a match of the given mode.
pub open spec fn valid_faction_for(mode: Modes, faction: Factions) -> bool {
    match mode {
        Modes::SolVsAlien => faction != Factions::Centauri,
        Modes::CentauriVsSol => faction != Factions::Alien,
        _ => true,
    }
}

pub fn _is_valid_faction_type(match_type: Modes, faction_type: Factions) -> (r: bool)
    ensures
        r == valid_faction_for(match_type, faction_type),
{
    match match_type {
        Modes::SolVsAlien => faction_type != Factions::Centauri,
        Modes::CentauriVsSol => faction_type != Factions::Alien,
        _ => true,
    }
}

/// The index of the first tier in the kill counters.
pub const TIER_ONE: usize = 0;

/// The index of the second tier in the kill counters.
pub const TIER_TWO: usize = 1;

/// The index of the third tier in the kill counters.
pub const TIER_THREE: usize = 2;

pub open spec fn tier_one_units() -> Seq<Seq<char>> {
    seq![
        "Crab"@, "Crab_Horned"@, "Shocker"@, "Shrimp"@, "Soldier_Rifleman"@,
        "Soldier_Scout"@, "Soldier_Heavy"@, "Soldier_Marksman"@, "LightQuad"@, "Wasp"@,
        "HoverBike"@, "Worm"@, "FlakTruck"@, "Squid"@,
    ]
}

pub open spec fn tier_two_units() -> Seq<Seq<char>> {
    seq![
        "Behemoth"@, "Hunter"@, "LightArmoredCar"@, "ArmedTransport"@, "HeavyArmoredCar"@,
        "TroopTransport"@, "HeavyQuad"@, "RocketLauncher"@, "PulseTank"@, "AirGunship"@,
        "AirFighter"@, "AirDropship"@, "Dragonfly"@, "Firebug"@, "Soldier_Commando"@,
        "GreatWorm"@,
    ]
}

pub open spec fn tier_three_units() -> Seq<Seq<char>> {
    seq![
        "Queen"@, "Scorpion"@, "Goliath"@, "BomberCraft"@, "HeavyHarvester"@, "HoverTank"@,
        "RailgunTank"@, "SiegeTank"@, "AirBomber"@, "Defiler"@, "Colossus"@,
    ]
}

pub open spec fn tier_one_structures() -> Seq<Seq<char>> {
    seq![
        "HiveSpire"@, "LesserSpawningCyst"@, "Node"@, "ThornSpire"@, "Outpost"@,
        "RadarStation"@, "Silo"@,
    ]
}

pub open spec fn tier_two_structures() -> Seq<Seq<char>> {
    seq![
        "BioCache"@, "Barracks"@, "HeavyVehicleFactory"@, "LightVehicleFactory"@,
        "QuantumCortex"@, "GreaterSpawningCyst"@, "Refinery"@, "Bunker"@,
        "ConstructionSite_TurretHeavy"@, "HeavyTurret"@, "Turret"@, "GrandSpawningCyst"@,
        "AntiAirRocketTurret"@,
    ]
}

pub open spec fn tier_three_structures() -> Seq<Seq<char>> {
    seq![
        "ResearchFacility"@, "Nest"@, "UltraHeavyVehicleFactory"@, "Headquarters"@,
        "GrandSpawningCyst"@, "ColossalSpawningCyst"@, "AirFactory"@,
    ]
}

/// The names of one tier as string slices.
fn tier_names(units: bool, tier: usize) -> (r: Vec<&'static str>)
    requires
        tier < 3,
    ensures
        r@.map_values(|s: &str| s@) == (if units {
            if tier == 0 {
                tier_one_units()
            } else if tier == 1 {
                tier_two_units()
            } else {
                tier_three_units()
            }
        } else {
            if tier == 0 {
                tier_one_structures()
            } else if tier == 1 {
                tier_two_structures()
            } else {
                tier_three_structures()
            }
        }),
{
    let r = if units {
        if tier == 0 {
            vec![
                "Crab", "Crab_Horned", "Shocker", "Shrimp", "Soldier_Rifleman",
                "Soldier_Scout", "Soldier_Heavy", "Soldier_Marksman", "LightQuad", "Wasp",
                "HoverBike", "Worm", "FlakTruck", "Squid",
            ]
        } else if tier == 1 {
            vec![
                "Behemoth", "Hunter", "LightArmoredCar", "ArmedTransport", "HeavyArmoredCar",
                "TroopTransport", "HeavyQuad", "RocketLauncher", "PulseTank", "AirGunship",
                "AirFighter", "AirDropship", "Dragonfly", "Firebug", "Soldier_Commando",
                "GreatWorm",
            ]
        } else {
            vec![
                "Queen", "Scorpion", "Goliath", "BomberCraft", "HeavyHarvester", "HoverTank",
                "RailgunTank", "SiegeTank", "AirBomber", "Defiler", "Colossus",
            ]
        }
    } else {
        if tier == 0 {
            vec![
                "HiveSpire", "LesserSpawningCyst", "Node", "ThornSpire", "Outpost",
                "RadarStation", "Silo",
            ]
        } else if tier == 1 {
            vec![
                "BioCache", "Barracks", "HeavyVehicleFactory", "LightVehicleFactory",
                "QuantumCortex", "GreaterSpawningCyst", "Refinery", "Bunker",
                "ConstructionSite_TurretHeavy", "HeavyTurret", "Turret", "GrandSpawningCyst",
                "AntiAirRocketTurret",
            ]
        } else {
            vec![
                "ResearchFacility", "Nest", "UltraHeavyVehicleFactory", "Headquarters",
                "GrandSpawningCyst", "ColossalSpawningCyst", "AirFactory",
            ]
        }
    };
    assert(r@.map_values(|s: &str| s@) =~= (if units {
        if tier == 0 {
            tier_one_units()
        } else if tier == 1 {
            tier_two_units()
        } else {
            tier_three_units()
        }
    } else {
        if tier == 0 {
            tier_one_structures()
        } else if tier == 1 {
            tier_two_structures()
        } else {
            tier_three_structures()
        }
    }));
    r
}

} // verus!

verus! {

/// Whether `names` holds `s`.
fn names_contain(names: &Vec<&'static str>, s: &str) -> (r: bool)
    ensures
        r == names@.map_values(|n: &str| n@).contains(s@),
{
    let ghost views = names@.map_values(|n: &str| n@);
    let mut i: usize = 0;
    while i < names.len()
        invariant
            i <= names@.len(),
            views == names@.map_values(|n: &str| n@),
            forall|j: int| 0 <= j < i ==> views[j] != s@,
        decreases names@.len() - i,
    {
        if str_eq(names[i], s) {
            assert(views[i as int] == s@);
            return true;
        }
        i = i + 1;
    }
    assert(!views.contains(s@));
    false
}

/// The tier of a unit, `None` for a unit that scores nothing.
pub open spec fn unit_tier(unit: Seq<char>) -> Option<int> {
    if tier_one_units().contains(unit) {
        Some(0)
    } else if tier_two_units().contains(unit) {
        Some(1)
    } else if tier_three_units().contains(unit) {
        Some(2)
    } else {
        None
    }
}

/// The tier of a structure, `None` for a structure that scores nothing.
pub open spec fn structure_tier(structure: Seq<char>) -> Option<int> {
    if tier_one_structures().contains(structure) {
        Some(0)
    } else if tier_two_structures().contains(structure) {
        Some(1)
    } else if tier_three_structures().contains(structure) {
        Some(2)
    } else {
        None
    }
}

/// The points that a kill of `unit` is worth (a tier-three unit is worth 50, the Queen 100).
pub open spec fn unit_points(unit: Seq<char>) -> int {
    match unit_tier(unit) {
        Some(t) => if t == 0 {
            1
        } else if t == 1 {
            10
        } else if unit == "Queen"@ {
            100
        } else {
            50
        },
        None => 0,
    }
}

/// The points that destroying a structure of the given tier is worth.
pub open spec fn structure_points(tier: int) -> int {
    if tier == 0 {
        10
    } else if tier == 1 {
        50
    } else {
        100
    }
}

pub fn unit_tier_of(unit: &str) -> (r: Option<usize>)
    ensures
        r matches Some(t) ==> unit_tier(unit@) == Some(t as int),
        r is None ==> unit_tier(unit@) is None,
{
    if names_contain(&tier_names(true, 0), unit) {
        Some(0)
    } else if names_contain(&tier_names(true, 1), unit) {
        Some(1)
    } else if names_contain(&tier_names(true, 2), unit) {
        Some(2)
    } else {
        None
    }
}

pub fn structure_tier_of(structure: &str) -> (r: Option<usize>)
    ensures
        r matches Some(t) ==> structure_tier(structure@) == Some(t as int),
        r is None ==> structure_tier(structure@) is None,
{
    if names_contain(&tier_names(false, 0), structure) {
        Some(0)
    } else if names_contain(&tier_names(false, 1), structure) {
        Some(1)
    } else if names_contain(&tier_names(false, 2), structure) {
        Some(2)
    } else {
        None
    }
}

/// The points that a kill of `unit` is worth.
pub fn unit_points_of(unit: &str) -> (r: i32)
    ensures
        r == unit_points(unit@),
{
    match unit_tier_of(unit) {
        Some(0) => 1,
        Some(1) => 10,
        Some(_) => if str_eq(unit, "Queen") {
            100
        } else {
            50
        },
        None => 0,
    }
}

} // verus!
