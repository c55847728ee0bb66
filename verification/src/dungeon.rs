//! A dungeon as a run of rooms, each a battle on a map of its own.
use vstd::prelude::*;
use crate::save_game::{decimal, decimal_string};

verus! {

/// Where the dungeon stands.
#[derive(Clone, Copy, PartialEq, Eq, Structural, Debug, Hash)]
pub enum DungeonState {
    Initialize,
    LoadRoom,
    InBattle,
    LootRoom,
    UnloadRoom,
}

#[derive(Clone, Copy, PartialEq, Eq, Structural, Debug, Hash)]
pub struct RoomId(pub u32);

#[derive(Clone, Copy, PartialEq, Eq, Structural, Debug)]
pub struct DungeonManager {
    pub current_room: RoomId,
}

/// A way from one room to the next.
#[derive(Clone, Copy, PartialEq, Eq, Structural, Debug)]
pub struct Teleporter {
    pub current_room: RoomId,
    pub next_room: RoomId,
}

/// A dungeon starts in its first room, which is loaded next.
pub fn init_dungeon_manager() -> (r: (DungeonManager, DungeonState))
    ensures
        r == (DungeonManager { current_room: RoomId(0) }, DungeonState::LoadRoom),
{
    (DungeonManager { current_room: RoomId(0) }, DungeonState::LoadRoom)
}

/// The seed a room's map is drawn from: the dungeon's seed followed by the
/// room's number in decimal.
pub fn room_seed(seed: &String, room: RoomId) -> (s: String)
    ensures
        s@ == seed@ + decimal(room.0 as nat),
{
    let digits = decimal_string(room.0);
    seed.clone().concat(digits.as_str())
}

/// Once a room is loaded its battle begins.
pub fn after_room_loaded() -> (s: DungeonState)
    ensures
        s == DungeonState::InBattle,
{
    DungeonState::InBattle
}

} // verus!
