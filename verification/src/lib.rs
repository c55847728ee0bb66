//! Rules of a small grid-based tactics game: the battle grid and its index of
//! occupants, unit movement and targeting, skills and combat timelines,
//! status effects, equipment, turn phases, enemy planning, the menus (battle,
//! main, joining, battle resolution), animation bookkeeping and sprite sheet
//! layout, map layout, dungeons, interactables and save files.
//!
//! Everything here is plain data and deterministic logic; rendering, input,
//! audio, file storage, floating-point stats and random draws live in the
//! application around this library.
use vstd::prelude::*;

pub mod assoc;
pub mod grid;
pub mod unit;
pub mod unit_stats;
pub mod gameplay_effects;
pub mod animation;
pub mod assets;
pub mod combat;
pub mod battle_phase;
pub mod equipment;
pub mod enemy;
pub mod player;
pub mod menu;
pub mod battle_menu;
pub mod save_game;
pub mod join_game_menu;
pub mod map_generation;
pub mod battle;
pub mod dungeon;
pub mod grid_cursor;
pub mod interactable;
pub mod main_menu;
pub mod args;

verus! {

/// The screen the game is on.
#[derive(Clone, Copy, PartialEq, Eq, Structural, Debug, Hash)]
pub enum GameState {
    Initializing,
    MainMenu,
    JoinGame,
    Battle,
    Dungeon,
    BattleResolution,
}

} // verus!
