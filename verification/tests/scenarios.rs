use tactics_core::assets::{default_voice_profile, AudioContext, AudioCue, AudioEventMessage, ImpactInteractionRole, VoiceSound};
use tactics_core::battle_phase::{check_should_advance_phase, init_phase_system, prepare_for_phase, PlayerEnemyPhase, UnitPhaseResources};
use tactics_core::combat::skills::{build_skill_table, SkillDB};
use tactics_core::grid::{get_movement_options, sync_grid_positions_to_manager, GridManager, GridMovement, GridPosition, GridVec};
use tactics_core::player::{handle_unit_cursor_action, handle_unit_ui_command, PlayerCursorState, PlayerState, UnitCommand};
use tactics_core::unit::{ObstacleType, Stats, Team, Unit, UnitExecuteAction};

#[test]
fn test_resolve() {
    let profile = default_voice_profile();
    let lines = profile.resolve(
        &AudioEventMessage { source: 1, cue: AudioCue::Hit, audio_context: AudioContext { skill_id: None } },
        Some(ImpactInteractionRole::Defender),
    );

    assert_eq!(lines, vec![VoiceSound::Ouch]);
}

#[test]
fn test_build_skill_system() {
    build_skill_table().expect("Should be able to build skill table");
}

#[test]
fn test_grid_manager_add_and_move() {
    let mut grid_manager = GridManager::new(10, 10);
    let entity: u64 = 1;
    let initial_position = GridPosition { x: 2, y: 3 };
    let new_position = GridPosition { x: 5, y: 6 };

    grid_manager.add_entity(entity, initial_position);
    assert_eq!(grid_manager.get_by_id(&entity), Some(initial_position));
    assert_eq!(grid_manager.get_by_position(&initial_position).unwrap(), &vec![entity]);

    grid_manager.move_entity_to(entity, new_position).unwrap();
    assert_eq!(grid_manager.get_by_id(&entity), Some(new_position));
    assert_eq!(grid_manager.get_by_position(&initial_position).unwrap().len(), 0);
    assert_eq!(grid_manager.get_by_position(&new_position).unwrap(), &vec![entity]);
}

#[test]
fn test_sync_grid_positions_system() {
    let mut grid_manager = GridManager::new(10, 10);
    let entity: u64 = 1;
    let entity_not_on_grid_init: u64 = 2;
    grid_manager.add_entity(entity, GridPosition { x: 1, y: 1 });

    // Both entities' positions change to (4, 5); the sync brings the index up to date.
    let changed = vec![(entity, GridPosition { x: 4, y: 5 }), (entity_not_on_grid_init, GridPosition { x: 4, y: 5 })];
    let refused = sync_grid_positions_to_manager(&mut grid_manager, &changed);
    assert!(refused.is_empty());

    assert_eq!(grid_manager.get_by_id(&entity), Some(GridPosition { x: 4, y: 5 }));
    assert_eq!(grid_manager.get_by_id(&entity_not_on_grid_init), Some(GridPosition { x: 4, y: 5 }));
}

#[test]
fn test_get_movement_options() {
    let options = get_movement_options(2);
    let expected_options = vec![
        GridVec { x: -2, y: 0 },
        GridVec { x: -1, y: -1 },
        GridVec { x: -1, y: 0 },
        GridVec { x: -1, y: 1 },
        GridVec { x: 0, y: -2 },
        GridVec { x: 0, y: -1 },
        GridVec { x: 0, y: 1 },
        GridVec { x: 0, y: 2 },
        GridVec { x: 1, y: -1 },
        GridVec { x: 1, y: 0 },
        GridVec { x: 1, y: 1 },
        GridVec { x: 2, y: 0 },
    ];

    for option in &expected_options {
        assert!(options.contains(option), "Missing option: {:?}", option);
    }

    assert_eq!(options.len(), expected_options.len(), "Unexpected number of options");
}

#[test]
fn test_movement_system() {
    let mut gm = GridManager::new(6, 6);
    let skill_db = SkillDB::new();
    let unit_entity: u64 = 7;
    let unit = Unit {
        stats: Stats::new().with_movement(2).with_health(5),
        team: Team::player(),
        obstacle: ObstacleType::Filter(vec![Team::player()]),
        name: "Bob".to_string(),
    };
    let mut state = PlayerState::new();

    // The player phase begins and the unit gets its points.
    let (mut phase_manager, message) = init_phase_system();
    let mut resources = vec![UnitPhaseResources::default()];
    assert!(check_should_advance_phase(&mut phase_manager, PlayerEnemyPhase::Player, &vec![(resources[0], false)], false).is_none());
    assert!(prepare_for_phase(&phase_manager, PlayerEnemyPhase::Player, message, &mut resources, &vec![unit.stats.movement]));

    // The unit's position reaches the grid index.
    let refused = sync_grid_positions_to_manager(&mut gm, &vec![(unit_entity, GridPosition { x: 2, y: 2 })]);
    assert!(refused.is_empty());

    // Select pressed with the cursor on the unit.
    let owned = vec![unit_entity];
    let out = handle_unit_cursor_action(&mut state, &gm, true, false, GridPosition { x: 2, y: 2 }, &owned, &owned);
    assert_eq!(out.selected, Some(unit_entity));

    // The player chooses to move.
    let units = vec![(unit_entity, unit.clone())];
    let _ = handle_unit_ui_command(
        &mut state,
        &gm,
        &units,
        &skill_db,
        UnitCommand::Move,
        unit_entity,
        &unit,
        &resources[0],
        GridPosition { x: 2, y: 2 },
    );
    assert!(matches!(state.cursor_state, PlayerCursorState::MovingUnit(..)));

    // The cursor moves to (3, 2) and select is pressed.
    let out = handle_unit_cursor_action(&mut state, &gm, true, false, GridPosition { x: 3, y: 2 }, &owned, &owned);
    let movement = match out.execute {
        Some((who, UnitExecuteAction::Move(m))) => {
            assert_eq!(who, unit_entity);
            m
        }
        other => panic!("expected a move, got {:?}", other),
    };

    let mut grid_movement = GridMovement::new(movement.path.clone());
    let mut points = resources[0].movement_points_left_in_phase;
    let mut position = GridPosition { x: 2, y: 2 };
    while !grid_movement.is_finished() {
        let (p, left, result) = grid_movement.arrive_at_next_waypoint(&mut gm, unit_entity, points);
        assert!(result.is_ok());
        position = p;
        points = left;
    }

    assert_eq!(position, GridPosition { x: 3, y: 2 });
    assert_eq!(gm.get_by_id(&unit_entity), Some(GridPosition { x: 3, y: 2 }));
}
