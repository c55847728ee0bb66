//! Players and what their cursor is doing: choosing a unit, choosing where
//! it moves, or choosing whom it strikes.
use vstd::prelude::*;
use crate::assets::UiSound;
use crate::battle_phase::UnitPhaseResources;
use crate::combat::AttackIntent;
use crate::combat::skills::{SkillDB, SkillId};
use crate::grid::{GridManager, GridPosition};
use crate::unit::{
    attack_options_for_skill, attack_options_spec, get_valid_moves_for_unit, in_attack_range, is_destination, move_ok,
    range_fits, AttackOption, MovementRequest, Stats, Unit, UnitExecuteAction, ValidMove, ObstacleType,
};

verus! {

#[derive(Clone, Copy, PartialEq, Eq, Structural, Debug, Hash)]
pub enum Player {
    One,
    Two,
    Three,
    Four,
    PrePlayer,
}

#[derive(Clone, Copy, PartialEq, Eq, Structural, Debug, Hash)]
pub enum PlayerInputAction {
    MoveCursorUp,
    MoveCursorDown,
    MoveCursorLeft,
    MoveCursorRight,
    MoveCursor,
    Select,
    Deselect,
    ZoomIn,
    ZoomOut,
}

/// What a player's cursor is doing.
#[derive(Debug)]
pub enum PlayerCursorState {
    Idle,
    /// Choosing where the unit (from its starting tile) moves, among the moves.
    MovingUnit(u64, GridPosition, Vec<ValidMove>),
    /// Choosing whom the unit strikes with a skill, among the options.
    LookingForTargetWithAttack(u64, Vec<AttackOption>, SkillId),
}

#[derive(Debug)]
pub struct PlayerState {
    pub cursor_state: PlayerCursorState,
}

impl PlayerState {
    pub fn new() -> (s: PlayerState)
        ensures
            s.cursor_state is Idle,
    {
        PlayerState { cursor_state: PlayerCursorState::Idle }
    }
}

/// What a player asks a selected unit to do.
#[derive(Clone, Copy, PartialEq, Eq, Structural, Debug)]
pub enum UnitCommand {
    Move,
    Attack,
    Wait,
    Cancel,
    UseSkill(SkillId),
    ViewMap,
    Interact(u64),
}

#[derive(Clone, Copy, PartialEq, Eq, Structural, Debug)]
pub enum OverlaysType {
    Interact,
    Move,
    Attack,
}

impl OverlaysType {
    /// Index of the overlay tile colour in its sheet.
    pub fn sheet_index(&self) -> (i: usize)
        ensures
            i == (match self {
                OverlaysType::Interact => 2usize,
                OverlaysType::Move => 1usize,
                OverlaysType::Attack => 3usize,
            }),
    {
        match self {
            OverlaysType::Interact => 2,
            OverlaysType::Move => 1,
            OverlaysType::Attack => 3,
        }
    }
}

/// Overlays to draw on tiles, or to take away.
#[derive(Debug)]
pub enum OverlaysAction {
    Spawn { spawn_type: OverlaysType, positions: Vec<GridPosition> },
    Despawn,
}

/// What a unit command leads to besides the cursor state.
#[derive(Debug)]
pub struct CommandOutcome {
    pub overlays: Option<OverlaysAction>,
    pub execute: Option<UnitExecuteAction>,
}

/// The targets of a list of moves, in order.
pub open spec fn move_targets(moves: Seq<ValidMove>) -> Seq<GridPosition> {
    moves.map_values(|m: ValidMove| m.target)
}

fn targets_of(moves: &Vec<ValidMove>) -> (r: Vec<GridPosition>)
    ensures
        r@ == move_targets(moves@),
{
    let mut r: Vec<GridPosition> = Vec::new();
    let mut i: usize = 0;
    while i < moves.len()
        invariant
            i <= moves@.len(),
            r@ == move_targets(moves@.take(i as int)),
        decreases moves@.len() - i,
    {
        r.push(moves[i].target);
        i = i + 1;
        proof {
            assert(r@ =~= move_targets(moves@.take(i as int)));
        }
    }
    assert(moves@.take(moves@.len() as int) =~= moves@);
    r
}

/// Carries out a command given for `unit_entity` (the `unit`, standing at
/// `position` with `resources` left): cancelling returns the cursor to idle;
/// moving finds the unit's moves, shows them and lets the player choose one;
/// using a skill the unit can pay for shows the tiles in range and lets the
/// player choose among the units there (a skill it cannot pay for changes
/// nothing); waiting has the unit wait and returns the cursor to idle; the
/// old attack command does nothing.
pub fn handle_unit_ui_command(
    state: &mut PlayerState,
    gm: &GridManager,
    units: &Vec<(u64, Unit)>,
    skill_db: &SkillDB,
    command: UnitCommand,
    unit_entity: u64,
    unit: &Unit,
    resources: &UnitPhaseResources,
    position: GridPosition,
) -> (out: CommandOutcome)
    requires
        gm.dims_ok(),
        gm.spec_width() <= i32::MAX,
        gm.spec_height() <= i32::MAX,
        position.x < i32::MAX,
        position.y < i32::MAX,
        command is Move ==> resources.movement_points_left_in_phase <= i32::MAX,
        command is Move ==> resources.movement_points_left_in_phase <= unit.stats.movement + 1,
        command matches UnitCommand::UseSkill(id) ==> skill_db.skills().contains_key(id)
            && range_fits(position, skill_db.skills()[id].targeting->TargetInRange_0),
    ensures
        command is Cancel ==> final(state).cursor_state is Idle && out.overlays is None && out.execute is None,
        command is Wait ==> final(state).cursor_state is Idle && out.overlays is None
            && (out.execute matches Some(UnitExecuteAction::Wait)),
        command is Attack || command is ViewMap || command is Interact ==> final(state).cursor_state == old(state).cursor_state
            && out.overlays is None && out.execute is None,
        command is Move ==> out.execute is None && match final(state).cursor_state {
                PlayerCursorState::MovingUnit(e, p, moves) => {
                    &&& e == unit_entity && p == position
                    &&& forall|i: int, j: int| 0 <= i < j < moves@.len() ==> moves@[i].target != moves@[j].target
                    &&& forall|i: int| 0 <= i < moves@.len() ==> move_ok(*gm, units@, unit.team, position,
                        resources.movement_points_left_in_phase as int, unit.stats.movement as int, #[trigger] moves@[i])
                    &&& forall|q: GridPosition| #[trigger] is_destination(*gm, units@, unit.team, position,
                        resources.movement_points_left_in_phase as int, q) ==> exists|i: int| 0 <= i < moves@.len() && moves@[i].target == q
                    &&& match out.overlays {
                        Some(OverlaysAction::Spawn { spawn_type, positions }) => spawn_type == OverlaysType::Move
                            && positions@ == move_targets(moves@),
                        _ => false,
                    }
                },
                _ => false,
            },
        match command {
            UnitCommand::UseSkill(id) => {
                let skill = skill_db.skills()[id];
                if resources.action_points_left_in_phase < skill.cost.ap {
                    final(state).cursor_state == old(state).cursor_state && out.overlays is None && out.execute is None
                } else {
                    out.execute is None && match final(state).cursor_state {
                        PlayerCursorState::LookingForTargetWithAttack(e, options, s) => {
                            &&& e == unit_entity && s == id
                            &&& match out.overlays {
                                Some(OverlaysAction::Spawn { spawn_type, positions }) => {
                                    &&& spawn_type == OverlaysType::Attack
                                    &&& forall|i: int| 0 <= i < positions@.len() ==> in_attack_range(*gm, position,
                                        skill.targeting->TargetInRange_0 as int, #[trigger] positions@[i])
                                    &&& forall|p: GridPosition| in_attack_range(*gm, position, skill.targeting->TargetInRange_0 as int, p)
                                        ==> positions@.contains(p)
                                    &&& forall|i: int, j: int| 0 <= i < j < positions@.len() ==> crate::unit::pos_lex_lt(
                                        #[trigger] positions@[i],
                                        #[trigger] positions@[j],
                                    )
                                    &&& options@ == attack_options_spec(*gm, units@, positions@)
                                },
                                _ => false,
                            }
                        },
                        _ => false,
                    }
                }
            },
            _ => true,
        },
{
    match command {
        UnitCommand::Cancel => {
            state.cursor_state = PlayerCursorState::Idle;
            CommandOutcome { overlays: None, execute: None }
        },
        UnitCommand::Move => {
            let request = MovementRequest {
                origin: position,
                unit: Unit {
                    name: String::new(),
                    stats: Stats::new().with_movement(unit.stats.movement),
                    obstacle: ObstacleType::Neutral,
                    team: unit.team,
                },
                movement_points_available: resources.movement_points_left_in_phase,
            };
            let ghost req = request;
            let moves = get_valid_moves_for_unit(gm, request, units);
            let positions = targets_of(&moves);
            proof {
                assert forall|q: GridPosition| #[trigger] is_destination(*gm, units@, unit.team, position,
                    resources.movement_points_left_in_phase as int, q) implies exists|i: int| 0 <= i < moves@.len() && moves@[i].target == q by {
                    assert(is_destination(*gm, units@, req.unit.team, req.origin, req.movement_points_available as int, q));
                }
            }
            proof {
                assert forall|i: int| 0 <= i < moves@.len() implies move_ok(*gm, units@, unit.team, position,
                    resources.movement_points_left_in_phase as int, unit.stats.movement as int, #[trigger] moves@[i]) by {
                    assert(move_ok(*gm, units@, req.unit.team, req.origin, req.movement_points_available as int,
                        req.unit.stats.movement as int, moves@[i]));
                }
            }
            proof {
                assert(forall|i: int, j: int| 0 <= i < j < moves@.len() ==> moves@[i].target != moves@[j].target);
                assert(positions@ == move_targets(moves@));
            }
            let ghost mv = moves@;
            state.cursor_state = PlayerCursorState::MovingUnit(unit_entity, position, moves);
            assert(state.cursor_state matches PlayerCursorState::MovingUnit(e, p, ms) && ms@ == mv && e == unit_entity && p == position);
            let out = CommandOutcome { overlays: Some(OverlaysAction::Spawn { spawn_type: OverlaysType::Move, positions }), execute: None };
            assert(out.overlays matches Some(OverlaysAction::Spawn { spawn_type, positions: ps }) && ps@ == move_targets(mv));
            out
        },
        UnitCommand::UseSkill(skill_id) => {
            let skill = skill_db.get_skill(&skill_id);
            match attack_options_for_skill(gm, units, &skill.targeting, skill.cost.ap, &position, resources.action_points_left_in_phase) {
                None => CommandOutcome { overlays: None, execute: None },
                Some((options, targets)) => {
                    state.cursor_state = PlayerCursorState::LookingForTargetWithAttack(unit_entity, options, skill_id);
                    CommandOutcome {
                        overlays: Some(OverlaysAction::Spawn { spawn_type: OverlaysType::Attack, positions: targets }),
                        execute: None,
                    }
                },
            }
        },
        UnitCommand::Wait => {
            state.cursor_state = PlayerCursorState::Idle;
            CommandOutcome { overlays: None, execute: Some(UnitExecuteAction::Wait) }
        },
        UnitCommand::Attack | UnitCommand::ViewMap | UnitCommand::Interact(_) => CommandOutcome { overlays: None, execute: None },
    }
}

/// What a cursor action leads to, besides the cursor state.
#[derive(Debug)]
pub struct CursorOutcome {
    /// A unit the player selected (its menu opens).
    pub selected: Option<u64>,
    /// The cursor locks onto the selected unit.
    pub lock_cursor: bool,
    pub sound: Option<UiSound>,
    /// An action a unit (the entity) carries out.
    pub execute: Option<(u64, UnitExecuteAction)>,
    /// The overlays of the player go away.
    pub despawn_overlays: bool,
    /// The player backed out to the unit's menu.
    pub selection_back: bool,
    /// Where the cursor jumps to.
    pub cursor_position: Option<GridPosition>,
}

pub open spec fn first_listed(gm: GridManager, p: GridPosition) -> Option<u64> {
    if gm.cells().contains_key(p) && gm.cells()[p].len() > 0 {
        Some(gm.cells()[p][0])
    } else {
        None
    }
}

fn first_listed_exec(gm: &GridManager, p: &GridPosition) -> (r: Option<u64>)
    ensures
        r == first_listed(*gm, *p),
{
    match gm.get_by_position(p) {
        None => None,
        Some(list) => if list.len() == 0 {
            None
        } else {
            Some(list[0])
        },
    }
}

fn contains_entity(list: &Vec<u64>, e: u64) -> (b: bool)
    ensures
        b == list@.contains(e),
{
    let mut i: usize = 0;
    while i < list.len()
        invariant
            i <= list@.len(),
            forall|j: int| 0 <= j < i ==> list@[j] != e,
        decreases list@.len() - i,
    {
        if list[i] == e {
            proof {
                assert(list@[i as int] == e);
            }
            return true;
        }
        i = i + 1;
    }
    false
}

pub open spec fn quiet(out: CursorOutcome) -> bool {
    out.selected is None && !out.lock_cursor && out.execute is None && !out.despawn_overlays && !out.selection_back
        && out.cursor_position is None
}

/// One frame of a player's cursor over the grid. Idle, a select on a tile
/// whose first listed entity is one of the player's units (`owned`) selects
/// it and locks the cursor. Choosing a move, a select on one of the moves'
/// tiles, where the first listed entity is not a player's unit (`player_units`),
/// moves the unit there and returns to idle; backing out returns to idle,
/// puts the cursor back on the unit's tile and reopens its menu. Choosing a
/// target, a select on an option's tile strikes that unit with the skill
/// and returns to idle; backing out returns to idle and, where the unit is
/// still on the grid, puts the cursor back on it and reopens its menu.
/// Refused selections play the error sound.
pub fn handle_unit_cursor_action(
    state: &mut PlayerState,
    gm: &GridManager,
    select_pressed: bool,
    deselect_pressed: bool,
    cursor: GridPosition,
    owned: &Vec<u64>,
    player_units: &Vec<u64>,
) -> (out: CursorOutcome)
    ensures
        match old(state).cursor_state {
            PlayerCursorState::Idle => final(state).cursor_state is Idle && if select_pressed {
                match first_listed(*gm, cursor) {
                    Some(e) if owned@.contains(e) => out.selected == Some(e) && out.lock_cursor
                        && out.sound == Some(UiSound::OpenMenu) && out.execute is None && !out.despawn_overlays
                        && !out.selection_back && out.cursor_position is None,
                    _ => quiet(out) && out.sound == Some(UiSound::Error),
                }
            } else {
                quiet(out) && out.sound is None
            },
            PlayerCursorState::MovingUnit(unit, origin, moves) => if select_pressed {
                if !(exists|i: int| 0 <= i < moves@.len() && moves@[i].target == cursor) {
                    quiet(out) && out.sound == Some(UiSound::Error) && final(state).cursor_state == old(state).cursor_state
                } else if first_listed(*gm, cursor) matches Some(e) && player_units@.contains(e) {
                    quiet(out) && out.sound == Some(UiSound::Error) && final(state).cursor_state == old(state).cursor_state
                } else {
                    final(state).cursor_state is Idle && out.sound == Some(UiSound::Select) && out.despawn_overlays
                        && out.selected is None && !out.lock_cursor && !out.selection_back && out.cursor_position is None
                        && match out.execute {
                        Some((who, UnitExecuteAction::Move(m))) => who == unit && exists|i: int|
                            0 <= i < moves@.len() && moves@[i].target == cursor && m.target == moves@[i].target
                                && m.path@ == moves@[i].path@ && m.movement_used == moves@[i].movement_used,
                        _ => false,
                    }
                }
            } else if deselect_pressed {
                final(state).cursor_state is Idle && out.despawn_overlays && out.cursor_position == Some(origin)
                    && out.selection_back && out.lock_cursor && out.sound == Some(UiSound::Cancel) && out.selected is None
                    && out.execute is None
            } else {
                quiet(out) && out.sound is None && final(state).cursor_state == old(state).cursor_state
            },
            PlayerCursorState::LookingForTargetWithAttack(unit, options, skill) => if select_pressed {
                if exists|i: int| 0 <= i < options@.len() && options@[i].grid_position == cursor {
                    final(state).cursor_state is Idle && out.sound == Some(UiSound::Select) && out.despawn_overlays
                        && out.selected is None && !out.lock_cursor && !out.selection_back && out.cursor_position is None
                        && match out.execute {
                        Some((who, UnitExecuteAction::Attack(intent))) => who == unit && intent.attacker == unit
                            && intent.skill == skill && exists|i: int|
                            0 <= i < options@.len() && options@[i].grid_position == cursor && intent.defender == options@[i].target
                                && forall|j: int| 0 <= j < i ==> options@[j].grid_position != cursor,
                        _ => false,
                    }
                } else {
                    quiet(out) && out.sound == Some(UiSound::Error) && final(state).cursor_state == old(state).cursor_state
                }
            } else if deselect_pressed {
                final(state).cursor_state is Idle && out.despawn_overlays && out.selected is None && out.execute is None
                    && if gm.positions().contains_key(unit) {
                    out.cursor_position == Some(gm.positions()[unit]) && out.selection_back && out.lock_cursor
                        && out.sound == Some(UiSound::Cancel)
                } else {
                    out.cursor_position is None && !out.selection_back && !out.lock_cursor && out.sound is None
                }
            } else {
                quiet(out) && out.sound is None && final(state).cursor_state == old(state).cursor_state
            },
        },
{
    let mut out = CursorOutcome {
        selected: None,
        lock_cursor: false,
        sound: None,
        execute: None,
        despawn_overlays: false,
        selection_back: false,
        cursor_position: None,
    };
    let mut current = PlayerCursorState::Idle;
    std::mem::swap(&mut current, &mut state.cursor_state);
    match current {
        PlayerCursorState::Idle => {
            if select_pressed {
                match first_listed_exec(gm, &cursor) {
                    Some(e) => {
                        if contains_entity(owned, e) {
                            out.selected = Some(e);
                            out.lock_cursor = true;
                            out.sound = Some(UiSound::OpenMenu);
                        } else {
                            out.sound = Some(UiSound::Error);
                        }
                    },
                    None => {
                        out.sound = Some(UiSound::Error);
                    },
                }
            }
        },
        PlayerCursorState::MovingUnit(unit, origin, moves) => {
            if select_pressed {
                let mut found: Option<usize> = None;
                let mut i: usize = 0;
                while i < moves.len()
                    invariant
                        i <= moves@.len(),
                        found matches Some(k) ==> k < moves@.len() && moves@[k as int].target == cursor,
                        found is None ==> forall|j: int| 0 <= j < i ==> moves@[j].target != cursor,
                    decreases moves@.len() - i,
                {
                    if found.is_none() && moves[i].target == cursor {
                        found = Some(i);
                    }
                    i = i + 1;
                }
                match found {
                    None => {
                        out.sound = Some(UiSound::Error);
                        state.cursor_state = PlayerCursorState::MovingUnit(unit, origin, moves);
                    },
                    Some(k) => {
                        let occupied = match first_listed_exec(gm, &cursor) {
                            Some(e) => contains_entity(player_units, e),
                            None => false,
                        };
                        if occupied {
                            out.sound = Some(UiSound::Error);
                            state.cursor_state = PlayerCursorState::MovingUnit(unit, origin, moves);
                        } else {
                            let m = moves[k].duplicate();
                            out.sound = Some(UiSound::Select);
                            out.execute = Some((unit, UnitExecuteAction::Move(m)));
                            out.despawn_overlays = true;
                        }
                    },
                }
            } else if deselect_pressed {
                out.despawn_overlays = true;
                out.cursor_position = Some(origin);
                out.selection_back = true;
                out.lock_cursor = true;
                out.sound = Some(UiSound::Cancel);
            } else {
                state.cursor_state = PlayerCursorState::MovingUnit(unit, origin, moves);
            }
        },
        PlayerCursorState::LookingForTargetWithAttack(unit, options, skill) => {
            if select_pressed {
                let mut found: Option<usize> = None;
                let mut i: usize = 0;
                while i < options.len()
                    invariant
                        i <= options@.len(),
                        found matches Some(k) ==> k < options@.len() && options@[k as int].grid_position == cursor
                            && forall|j: int| 0 <= j < k ==> options@[j].grid_position != cursor,
                        found is None ==> forall|j: int| 0 <= j < i ==> options@[j].grid_position != cursor,
                    decreases options@.len() - i,
                {
                    if found.is_none() && options[i].grid_position == cursor {
                        found = Some(i);
                    }
                    i = i + 1;
                }
                match found {
                    None => {
                        out.sound = Some(UiSound::Error);
                        state.cursor_state = PlayerCursorState::LookingForTargetWithAttack(unit, options, skill);
                    },
                    Some(k) => {
                        let target = options[k].target;
                        out.execute = Some((unit, UnitExecuteAction::Attack(AttackIntent { attacker: unit, defender: target, skill })));
                        out.sound = Some(UiSound::Select);
                        out.despawn_overlays = true;
                    },
                }
            } else if deselect_pressed {
                out.despawn_overlays = true;
                match gm.get_by_id(&unit) {
                    None => {},
                    Some(unit_pos) => {
                        out.cursor_position = Some(unit_pos);
                        out.selection_back = true;
                        out.lock_cursor = true;
                        out.sound = Some(UiSound::Cancel);
                    },
                }
            } else {
                state.cursor_state = PlayerCursorState::LookingForTargetWithAttack(unit, options, skill);
            }
        },
    }
    out
}

/// Keys of the keyboard the game listens to.
#[derive(Clone, Copy, PartialEq, Eq, Structural, Debug, Hash)]
pub enum Key {
    KeyW,
    KeyS,
    KeyA,
    KeyD,
    Space,
    ShiftLeft,
    KeyQ,
    KeyE,
    ArrowUp,
    ArrowDown,
    ArrowLeft,
    ArrowRight,
    Enter,
    ShiftRight,
}

/// Buttons of a gamepad the game listens to.
#[derive(Clone, Copy, PartialEq, Eq, Structural, Debug, Hash)]
pub enum PadButton {
    DPadUp,
    DPadDown,
    DPadLeft,
    DPadRight,
    South,
    East,
}

/// What triggers an input action.
#[derive(Clone, Copy, PartialEq, Eq, Structural, Debug, Hash)]
pub enum InputBinding {
    Key(Key),
    Pad(PadButton),
    /// The left stick, as a direction.
    LeftStick,
}

/// The first player's keys: WASD, space, left shift, Q and E to zoom.
pub open spec fn first_player_keys() -> Seq<(PlayerInputAction, InputBinding)> {
    seq![(PlayerInputAction::MoveCursorUp, InputBinding::Key(Key::KeyW)), (PlayerInputAction::MoveCursorDown, InputBinding::Key(Key::KeyS)), (PlayerInputAction::MoveCursorLeft, InputBinding::Key(Key::KeyA)), (PlayerInputAction::MoveCursorRight, InputBinding::Key(Key::KeyD)), (PlayerInputAction::Select, InputBinding::Key(Key::Space)), (PlayerInputAction::Deselect, InputBinding::Key(Key::ShiftLeft)), (PlayerInputAction::ZoomIn, InputBinding::Key(Key::KeyQ)), (PlayerInputAction::ZoomOut, InputBinding::Key(Key::KeyE))]
}

/// The other players' keys: the arrows, enter and right shift.
pub open spec fn other_player_keys() -> Seq<(PlayerInputAction, InputBinding)> {
    seq![(PlayerInputAction::MoveCursorUp, InputBinding::Key(Key::ArrowUp)), (PlayerInputAction::MoveCursorDown, InputBinding::Key(Key::ArrowDown)), (PlayerInputAction::MoveCursorLeft, InputBinding::Key(Key::ArrowLeft)), (PlayerInputAction::MoveCursorRight, InputBinding::Key(Key::ArrowRight)), (PlayerInputAction::Select, InputBinding::Key(Key::Enter)), (PlayerInputAction::Deselect, InputBinding::Key(Key::ShiftRight))]
}

/// A gamepad's buttons: the pad, south to select, east to go back, and the
/// left stick to move.
pub open spec fn gamepad_bindings_spec() -> Seq<(PlayerInputAction, InputBinding)> {
    seq![(PlayerInputAction::MoveCursorUp, InputBinding::Pad(PadButton::DPadUp)), (PlayerInputAction::MoveCursorDown, InputBinding::Pad(PadButton::DPadDown)), (PlayerInputAction::MoveCursorLeft, InputBinding::Pad(PadButton::DPadLeft)), (PlayerInputAction::MoveCursorRight, InputBinding::Pad(PadButton::DPadRight)), (PlayerInputAction::Select, InputBinding::Pad(PadButton::South)), (PlayerInputAction::Deselect, InputBinding::Pad(PadButton::East)), (PlayerInputAction::MoveCursor, InputBinding::LeftStick)]
}

fn first_player_keys_exec() -> (r: Vec<(PlayerInputAction, InputBinding)>)
    ensures
        r@ == first_player_keys(),
{
    let r = vec![(PlayerInputAction::MoveCursorUp, InputBinding::Key(Key::KeyW)), (PlayerInputAction::MoveCursorDown, InputBinding::Key(Key::KeyS)), (PlayerInputAction::MoveCursorLeft, InputBinding::Key(Key::KeyA)), (PlayerInputAction::MoveCursorRight, InputBinding::Key(Key::KeyD)), (PlayerInputAction::Select, InputBinding::Key(Key::Space)), (PlayerInputAction::Deselect, InputBinding::Key(Key::ShiftLeft)), (PlayerInputAction::ZoomIn, InputBinding::Key(Key::KeyQ)), (PlayerInputAction::ZoomOut, InputBinding::Key(Key::KeyE))];
    assert(r@ =~= first_player_keys());
    r
}

/// The bindings of a gamepad (the same for every player).
pub fn gamepad_input_map() -> (r: Vec<(PlayerInputAction, InputBinding)>)
    ensures
        r@ == gamepad_bindings_spec(),
{
    let r = vec![(PlayerInputAction::MoveCursorUp, InputBinding::Pad(PadButton::DPadUp)), (PlayerInputAction::MoveCursorDown, InputBinding::Pad(PadButton::DPadDown)), (PlayerInputAction::MoveCursorLeft, InputBinding::Pad(PadButton::DPadLeft)), (PlayerInputAction::MoveCursorRight, InputBinding::Pad(PadButton::DPadRight)), (PlayerInputAction::Select, InputBinding::Pad(PadButton::South)), (PlayerInputAction::Deselect, InputBinding::Pad(PadButton::East)), (PlayerInputAction::MoveCursor, InputBinding::LeftStick)];
    assert(r@ =~= gamepad_bindings_spec());
    r
}

/// The keyboard bindings of a player. The player who navigates the menus
/// before anyone has joined may use the first player's keys or a gamepad.
pub fn keyboard_input_map(player: Player) -> (r: Vec<(PlayerInputAction, InputBinding)>)
    ensures
        r@ == (match player {
            Player::One => first_player_keys(),
            Player::Two | Player::Three | Player::Four => other_player_keys(),
            Player::PrePlayer => first_player_keys() + gamepad_bindings_spec(),
        }),
{
    match player {
        Player::One => first_player_keys_exec(),
        Player::Two | Player::Three | Player::Four => {
            let r = vec![(PlayerInputAction::MoveCursorUp, InputBinding::Key(Key::ArrowUp)), (PlayerInputAction::MoveCursorDown, InputBinding::Key(Key::ArrowDown)), (PlayerInputAction::MoveCursorLeft, InputBinding::Key(Key::ArrowLeft)), (PlayerInputAction::MoveCursorRight, InputBinding::Key(Key::ArrowRight)), (PlayerInputAction::Select, InputBinding::Key(Key::Enter)), (PlayerInputAction::Deselect, InputBinding::Key(Key::ShiftRight))];
            assert(r@ =~= other_player_keys());
            r
        },
        Player::PrePlayer => {
            let mut r = first_player_keys_exec();
            let mut pad = gamepad_input_map();
            r.append(&mut pad);
            r
        },
    }
}

} // verus!
