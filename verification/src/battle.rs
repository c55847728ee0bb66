//! The outcome of a battle, the menu shown once it is over, and the demo
//! battle's layout.
use vstd::prelude::*;
use crate::grid::GridPosition;
use crate::player::Player;
use crate::unit::{ObstacleSprite, Unit};
use crate::GameState;

verus! {

#[derive(Clone, Copy, PartialEq, Eq, Structural, Debug)]
pub enum BattleEndCondition {
    Victory,
    Defeat,
}

#[derive(Clone, Copy, PartialEq, Eq, Structural, Debug)]
pub struct BattleResult {
    pub battle_condition: BattleEndCondition,
}

/// Every unit of the list is downed (so also an empty list).
pub open spec fn all_downed(units: Seq<Unit>) -> bool {
    forall|i: int| 0 <= i < units.len() ==> (#[trigger] units[i]).stats.health == 0
}

fn every_unit_downed(units: &Vec<Unit>) -> (b: bool)
    ensures
        b == all_downed(units@),
{
    let mut i: usize = 0;
    while i < units.len()
        invariant
            i <= units@.len(),
            forall|j: int| 0 <= j < i ==> (#[trigger] units@[j]).stats.health == 0,
        decreases units@.len() - i,
    {
        if !units[i].downed() {
            return false;
        }
        i = i + 1;
    }
    true
}

/// Whether the battle is over, the objective being to defeat every enemy:
/// lost once every player unit is downed, else won once every enemy is.
pub fn check_battle_complete(player_units: &Vec<Unit>, enemy_units: &Vec<Unit>) -> (r: Option<BattleEndCondition>)
    ensures
        r == (if all_downed(player_units@) {
            Some(BattleEndCondition::Defeat)
        } else if all_downed(enemy_units@) {
            Some(BattleEndCondition::Victory)
        } else {
            None::<BattleEndCondition>
        }),
{
    if every_unit_downed(player_units) {
        Some(BattleEndCondition::Defeat)
    } else if every_unit_downed(enemy_units) {
        Some(BattleEndCondition::Victory)
    } else {
        None
    }
}

/// The headline of the screen shown after a battle.
pub fn condition_text(condition: BattleEndCondition) -> (s: &'static str)
    ensures
        s@ == (match condition {
            BattleEndCondition::Victory => "Victory"@,
            BattleEndCondition::Defeat => "Defeat"@,
        }),
{
    match condition {
        BattleEndCondition::Victory => "Victory",
        BattleEndCondition::Defeat => "Defeat",
    }
}

#[derive(Clone, Copy, PartialEq, Eq, Structural, Debug)]
pub enum BattleResolutionMenuAction {
    MainMenu,
    Quit,
}

/// The buttons of the screen shown after a battle, top to bottom.
pub fn battle_resolution_menu() -> (r: Vec<(BattleResolutionMenuAction, &'static str)>)
    ensures
        r@.len() == 2,
        r@[0].0 == BattleResolutionMenuAction::MainMenu && r@[0].1@ == "Main Menu"@,
        r@[1].0 == BattleResolutionMenuAction::Quit && r@[1].1@ == "Quit"@,
{
    vec![(BattleResolutionMenuAction::MainMenu, "Main Menu"), (BattleResolutionMenuAction::Quit, "Quit")]
}

/// What choosing a button after a battle does: leave the game, or go to
/// the main menu.
pub fn battle_resolution_choice(action: BattleResolutionMenuAction) -> (r: Option<GameState>)
    ensures
        r == (match action {
            BattleResolutionMenuAction::Quit => None::<GameState>,
            BattleResolutionMenuAction::MainMenu => Some(GameState::MainMenu),
        }),
{
    match action {
        BattleResolutionMenuAction::Quit => None,
        BattleResolutionMenuAction::MainMenu => Some(GameState::MainMenu),
    }
}

/// Downs every unit of the list at once (a debugging aid).
pub fn down_all(units: &mut Vec<Unit>)
    ensures
        final(units)@.len() == old(units)@.len(),
        forall|i: int| 0 <= i < final(units)@.len() ==> (#[trigger] final(units)@[i]).stats.health == 0
            && final(units)@[i].stats.max_health == old(units)@[i].stats.max_health
            && final(units)@[i].team == old(units)@[i].team,
{
    let mut i: usize = 0;
    while i < units.len()
        invariant
            i <= units@.len(),
            units@.len() == old(units)@.len(),
            forall|j: int| 0 <= j < i ==> (#[trigger] units@[j]).stats.health == 0
                && units@[j].stats.max_health == old(units)@[j].stats.max_health
                && units@[j].team == old(units)@[j].team,
            forall|j: int| i <= j < units@.len() ==> #[trigger] units@[j] == old(units)@[j],
        decreases units@.len() - i,
    {
        let mut u = units.remove(i);
        u.stats.health = 0;
        units.insert(i, u);
        i = i + 1;
    }
}

/// Columns of the demo battle's grid.
pub const DEMO_2_GRID_BOUNDS_X: u32 = 12;

/// Rows of the demo battle's grid.
pub const DEMO_2_GRID_BOUNDS_Y: u32 = 7;

/// Who stands where when the demo battle starts.
#[derive(Debug)]
pub struct DemoBattleLayout {
    pub grid_width: u32,
    pub grid_height: u32,
    pub players: Vec<(Player, &'static str, GridPosition)>,
    pub enemies: Vec<(&'static str, GridPosition)>,
    pub obstacles: Vec<(GridPosition, ObstacleSprite)>,
}

/// The demo battle: a 12 by 7 grid, two players on the left edge, three
/// enemies, and rocks and bushes in between.
pub fn demo_battle_layout() -> (d: DemoBattleLayout)
    ensures
        d.grid_width == DEMO_2_GRID_BOUNDS_X,
        d.grid_height == DEMO_2_GRID_BOUNDS_Y,
        d.players@.len() == 2,
        d.players@[0].0 == Player::One && d.players@[0].1@ == "Brond"@ && d.players@[0].2 == (GridPosition { x: 0, y: 1 }),
        d.players@[1].0 == Player::Two && d.players@[1].1@ == "Coral"@ && d.players@[1].2 == (GridPosition { x: 0, y: 5 }),
        d.enemies@.len() == 3,
        d.enemies@[0].1 == (GridPosition { x: 7, y: 3 }) && d.enemies@[0].0@ == "Jimothy Timbers"@,
        d.enemies@[1].1 == (GridPosition { x: 4, y: 2 }) && d.enemies@[1].0@ == "Chaumwer"@,
        d.enemies@[2].1 == (GridPosition { x: 4, y: 4 }) && d.enemies@[2].0@ == "Deege"@,
        d.obstacles@ == seq![
            (GridPosition { x: 2, y: 0 }, ObstacleSprite::Bush),
            (GridPosition { x: 2, y: 6 }, ObstacleSprite::Bush),
            (GridPosition { x: 5, y: 1 }, ObstacleSprite::Rock),
            (GridPosition { x: 7, y: 2 }, ObstacleSprite::Rock),
            (GridPosition { x: 6, y: 5 }, ObstacleSprite::Rock),
            (GridPosition { x: 10, y: 1 }, ObstacleSprite::Rock),
        ],
{
    let obstacles = vec![
        (GridPosition { x: 2, y: 0 }, ObstacleSprite::Bush),
        (GridPosition { x: 2, y: 6 }, ObstacleSprite::Bush),
        (GridPosition { x: 5, y: 1 }, ObstacleSprite::Rock),
        (GridPosition { x: 7, y: 2 }, ObstacleSprite::Rock),
        (GridPosition { x: 6, y: 5 }, ObstacleSprite::Rock),
        (GridPosition { x: 10, y: 1 }, ObstacleSprite::Rock),
    ];
    assert(obstacles@ =~= seq![
        (GridPosition { x: 2, y: 0 }, ObstacleSprite::Bush),
        (GridPosition { x: 2, y: 6 }, ObstacleSprite::Bush),
        (GridPosition { x: 5, y: 1 }, ObstacleSprite::Rock),
        (GridPosition { x: 7, y: 2 }, ObstacleSprite::Rock),
        (GridPosition { x: 6, y: 5 }, ObstacleSprite::Rock),
        (GridPosition { x: 10, y: 1 }, ObstacleSprite::Rock),
    ]);
    DemoBattleLayout {
        grid_width: DEMO_2_GRID_BOUNDS_X,
        grid_height: DEMO_2_GRID_BOUNDS_Y,
        players: vec![
            (Player::One, "Brond", GridPosition { x: 0, y: 1 }),
            (Player::Two, "Coral", GridPosition { x: 0, y: 5 }),
        ],
        enemies: vec![
            ("Jimothy Timbers", GridPosition { x: 7, y: 3 }),
            ("Chaumwer", GridPosition { x: 4, y: 2 }),
            ("Deege", GridPosition { x: 4, y: 4 }),
        ],
        obstacles,
    }
}

} // verus!
