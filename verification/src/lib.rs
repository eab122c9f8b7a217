//! Match statistics for ranked Silica servers, computed from the game's log lines.

pub mod clock;
pub mod search;
pub mod text;
pub mod bindings;
pub mod model;
pub mod player;
pub mod roster;
pub mod game;
pub mod kills;
pub mod presence;
pub mod commanders;
pub mod command_log;
pub mod outcome;
pub mod scan;
pub mod records;

pub use game::Game;
pub use model::{Factions, Maps, Modes, TIER_ONE, TIER_THREE, TIER_TWO};
pub use player::Player;
