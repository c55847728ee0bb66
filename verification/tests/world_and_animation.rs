use tactics_core::animation::tinytactics::{
    sheet_order, stacked_offsets, widest,
    calculate_animation_data, spritesheet_coords_to_index, sprite_filename, spritesheet_data_path, spritesheet_path,
    weapon_attack_sprite_filename, weapon_spritesheet_path, Action, Character, WeaponType,
};
use tactics_core::animation::{
    atlas_grid, animated_sprite_atlas_grids, build_animation_db, idle_kind, AnimToPlay, AnimatedSpriteId, AnimationDB,
    AnimationDbError, AnimationKey, AnimationMarker, AnimationPriority, AnimationStartIndexKey, Direction,
    FollowerAnimationKey, RegisteredAnimationId, UnitAnimationDataInner, UnitAnimationKind, UnitAnimationPlayer,
    TT_UNIT_ANIMATED_SPRITE_ID, TT_WEAPON_ANIMATED_SPRITE_ID,
};
use tactics_core::assets::UiSound;
use tactics_core::battle::{
    battle_resolution_choice, battle_resolution_menu, check_battle_complete, condition_text, demo_battle_layout, down_all,
    BattleEndCondition, BattleResolutionMenuAction,
};
use tactics_core::dungeon::{init_dungeon_manager, room_seed, DungeonState, RoomId};
use tactics_core::grid::{GridManager, GridPosition};
use tactics_core::grid_cursor::cursor_step;
use tactics_core::interactable::{
    handle_interaction, interaction_menu_update, interactable_at, Interactable, InteractableKind, InteractionMenuUpdate,
};
use tactics_core::map_generation::{
    bottom_row_positions, build_map_data, eligible_positions, field_positions, left_column_positions, obstacle_from_roll,
    place_obstacles, to_game_space, water_tile, BridgeTileType, GrassTileType, MapLayout, Obstacle,
    TileType, TtIndex, WaterTileType,
};
use tactics_core::unit::jobs::UnitJob;
use tactics_core::battle_phase::UnitPhaseResources;
use tactics_core::unit::{enemy_unit, execute_unit_action, player_unit, ExecutionStart, Team, UnitAction, UnitExecuteAction, ValidMove};
use tactics_core::unit_stats::{xp_for_action, UnitLevelManager};
use tactics_core::GameState;

#[test]
fn battle_is_lost_before_it_is_won() {
    let mut players = vec![player_unit("Brond".to_string(), Team::player())];
    let mut enemies = vec![enemy_unit("Deege".to_string(), Team::enemy())];
    assert_eq!(check_battle_complete(&players, &enemies), None);
    down_all(&mut enemies);
    assert_eq!(check_battle_complete(&players, &enemies), Some(BattleEndCondition::Victory));
    down_all(&mut players);
    // Every player downed is a defeat, even with every enemy downed.
    assert_eq!(check_battle_complete(&players, &enemies), Some(BattleEndCondition::Defeat));
    assert_eq!(players[0].stats.max_health, 13);
    assert_eq!(condition_text(BattleEndCondition::Victory), "Victory");
    assert_eq!(condition_text(BattleEndCondition::Defeat), "Defeat");
}

#[test]
fn battle_resolution_menu_choices() {
    let m = battle_resolution_menu();
    assert_eq!(m, vec![(BattleResolutionMenuAction::MainMenu, "Main Menu"), (BattleResolutionMenuAction::Quit, "Quit")]);
    assert_eq!(battle_resolution_choice(BattleResolutionMenuAction::MainMenu), Some(GameState::MainMenu));
    assert_eq!(battle_resolution_choice(BattleResolutionMenuAction::Quit), None);
}

#[test]
fn demo_battle_layout_places_everyone() {
    let d = demo_battle_layout();
    assert_eq!((d.grid_width, d.grid_height), (12, 7));
    assert_eq!(d.players[0].1, "Brond");
    assert_eq!(d.players[1].2, GridPosition { x: 0, y: 5 });
    assert_eq!(d.enemies.len(), 3);
    assert_eq!(d.obstacles.len(), 6);
}

#[test]
fn unit_templates_have_their_stats() {
    let p = player_unit("P".to_string(), Team::player());
    assert_eq!((p.stats.health, p.stats.strength, p.stats.magic_power, p.stats.defense, p.stats.movement), (13, 2, 1, 1, 4));
    let e = enemy_unit("E".to_string(), Team::enemy());
    assert_eq!((e.stats.health, e.stats.strength, e.stats.defense, e.stats.movement), (10, 0, 1, 3));
}

#[test]
fn dungeon_starts_in_room_zero_and_seeds_rooms() {
    let (manager, next) = init_dungeon_manager();
    assert_eq!(manager.current_room, RoomId(0));
    assert_eq!(next, DungeonState::LoadRoom);
    assert_eq!(room_seed(&"hello world".to_string(), RoomId(12)), "hello world12");
}

#[test]
fn experience_turns_into_levels() {
    let mut m = UnitLevelManager::new();
    assert_eq!(xp_for_action(UnitAction::Attack), 50);
    assert_eq!(xp_for_action(UnitAction::Move), 0);
    assert_eq!(m.accept_experience(50), 0);
    assert_eq!(m.accept_experience(50), 1);
    assert_eq!(m.experience, 0);
    assert_eq!(m.accept_experience(250), 2);
    assert_eq!(m.experience, 50);
    m.level_up();
    assert_eq!(m.current_level, 2);
}

#[test]
fn cursor_moves_clamped_with_sounds() {
    let gm = GridManager::new(4, 4);
    let step = cursor_step(&gm, GridPosition { x: 1, y: 1 }, None, false, true, false, true);
    assert_eq!(step.position, GridPosition { x: 2, y: 2 });
    assert_eq!(step.sound, Some(UiSound::MoveCursor));
    let edge = cursor_step(&gm, GridPosition { x: 0, y: 0 }, None, true, false, false, false);
    assert_eq!(edge.position, GridPosition { x: 0, y: 0 });
    assert_eq!(edge.sound, Some(UiSound::Error));
    let still = cursor_step(&gm, GridPosition { x: 3, y: 3 }, None, false, false, false, false);
    assert_eq!(still.sound, None);
    // The stick's vertical part is inverted: pushing up moves towards row 0.
    let stick = cursor_step(&gm, GridPosition { x: 1, y: 1 }, Some((0, 1)), false, false, false, false);
    assert_eq!(stick.position, GridPosition { x: 1, y: 0 });
}

#[test]
fn interactions_offer_and_disable() {
    let mut items = vec![
        Interactable { entity: 5, kind: InteractableKind::TreasureChest, position: GridPosition { x: 1, y: 1 }, enabled: false },
        Interactable {
            entity: 6,
            kind: InteractableKind::ObtainableItem { item_id: "sword".to_string() },
            position: GridPosition { x: 1, y: 1 },
            enabled: true,
        },
    ];
    assert_eq!(interactable_at(&items, GridPosition { x: 1, y: 1 }), Some(1));
    assert_eq!(items[1].kind.label(), "Pickup Item");
    assert_eq!(items[0].kind.label(), "Open Chest");
    assert_eq!(interaction_menu_update(None, Some(6)), InteractionMenuUpdate::Offer { remove_existing: false, interactable: 6 });
    assert_eq!(interaction_menu_update(Some(6), Some(6)), InteractionMenuUpdate::Keep);
    assert_eq!(interaction_menu_update(Some(5), Some(6)), InteractionMenuUpdate::Offer { remove_existing: true, interactable: 6 });
    assert_eq!(interaction_menu_update(Some(6), None), InteractionMenuUpdate::Withdraw);
    let done = handle_interaction(&mut items, &UnitExecuteAction::Interact { interactable_entity: 6 }, 1);
    assert_eq!(done, Some(UnitAction::Interact));
    assert!(!items[1].enabled);
    assert_eq!(interactable_at(&items, GridPosition { x: 1, y: 1 }), None);
    assert_eq!(handle_interaction(&mut items, &UnitExecuteAction::Wait, 0), None);
}

#[test]
fn tile_indices_follow_the_sheet() {
    assert_eq!(TtIndex::new(3, 6).index(), 38);
    assert_eq!(TileType::Water(WaterTileType::Plain).tile_texture_index(), 33);
    assert_eq!(TileType::Grass(GrassTileType::Grass).tile_texture_index(), 1);
    assert_eq!(TileType::Grass(GrassTileType::DeadGrass).tile_texture_index(), 30);
    assert_eq!(TileType::Bridge(BridgeTileType::Plain(Direction::NE)).tile_texture_index(), 83);
    assert_eq!(water_tile(0, 0, 16, 16), WaterTileType::Corner(Direction::NW));
    assert_eq!(water_tile(16, 16, 16, 16), WaterTileType::Corner(Direction::SE));
    assert_eq!(water_tile(5, 0, 16, 16), WaterTileType::Edge(Direction::SW));
    assert_eq!(water_tile(5, 5, 16, 16), WaterTileType::Plain);
    assert_eq!(to_game_space(GridPosition { x: 5, y: 9 }), GridPosition { x: 7, y: 3 });
}

#[test]
fn map_keeps_starts_clear_and_lays_layers() {
    let layout = MapLayout { bridge_x_1: 4, bridge_x_2: 9 };
    let field = field_positions();
    assert_eq!(field.len(), 169);
    let mut obstacles: Vec<(GridPosition, Obstacle)> = Vec::new();
    let candidates = eligible_positions(&field, &obstacles, &layout);
    // The four start tiles are not candidates (the tiles kept clear at the
    // second bridge lie outside the field).
    assert_eq!(candidates.len(), 169 - 4);
    let starts = layout.player_starts();
    for s in &starts {
        assert!(!candidates.contains(s));
        assert!(layout.is_reserved(*s));
    }
    // Every candidate gets a rock.
    let rolls: Vec<Option<Obstacle>> = candidates.iter().map(|_| Some(obstacle_from_roll(0))).collect();
    place_obstacles(&mut obstacles, &candidates, &rolls);
    assert_eq!(obstacles.len(), 165);
    for s in &starts {
        assert!(!obstacles.iter().any(|(p, _)| p == s));
    }
    // Every tile of the left column already holds a rock, so no tree can go there.
    let left = eligible_positions(&left_column_positions(), &obstacles, &layout);
    assert!(left.is_empty());
    assert_eq!(bottom_row_positions().len(), 13);
    let dead = vec![false; 169];
    let map = build_map_data(&layout, &dead, obstacles);
    assert_eq!(map.tiles.len(), 2);
    assert_eq!(map.tiles[0].1.len(), 17 * 17);
    assert_eq!(map.player_start_locations, starts);
    assert_eq!(obstacle_from_roll(1), Obstacle::Bush);
    // Bridge tiles replace grass on the ground layer.
    let bridge = map.tiles[1].1.iter().find(|(p, _)| *p == GridPosition { x: 4, y: 0 }).map(|t| t.1);
    assert_eq!(bridge, Some(TileType::Bridge(BridgeTileType::Plain(Direction::NE))));
    let grass = map.tiles[1].1.iter().find(|(p, _)| *p == GridPosition { x: 7, y: 7 }).map(|t| t.1);
    assert_eq!(grass, Some(TileType::Grass(GrassTileType::Grass)));
}

fn unit_key(kind: UnitAnimationKind) -> AnimationKey {
    AnimationKey { animated_sprite_id: AnimatedSpriteId(TT_UNIT_ANIMATED_SPRITE_ID), animation_id: kind.registered_id() }
}

#[test]
fn animation_table_holds_the_shipped_animations() {
    let db = build_animation_db().unwrap();
    let attack = db.get_data(&unit_key(UnitAnimationKind::Attack)).unwrap();
    assert_eq!(attack.frame_count, 4);
    assert_eq!(attack.frames_per_second, 8);
    assert_eq!(
        db.get_start_index(&AnimationStartIndexKey { facing_direction: Some(Direction::SE), key: unit_key(UnitAnimationKind::Attack) }),
        Some(20)
    );
    assert_eq!(
        db.get_start_index(&AnimationStartIndexKey { facing_direction: Some(Direction::NW), key: unit_key(UnitAnimationKind::Attack) }),
        None
    );
    let fkey = FollowerAnimationKey {
        follower_id: AnimatedSpriteId(TT_WEAPON_ANIMATED_SPRITE_ID),
        followee_key: unit_key(UnitAnimationKind::Attack),
    };
    assert_eq!(db.get_follower_animation_start_index(&fkey, Some(Direction::SE)), Some(4));
    assert_eq!(db.get_follower_animation_start_index(&fkey, None), None);
}

#[test]
fn registering_twice_is_refused() {
    let mut db = AnimationDB::new();
    let data = || UnitAnimationDataInner { frames_per_second: 1, frame_count: 2, animation_offset_markers: vec![] };
    let key = unit_key(UnitAnimationKind::IdleWalk);
    assert_eq!(db.register_animation(key, data(), &vec![(None, 3)]), Ok(()));
    assert_eq!(db.register_animation(key, data(), &vec![(None, 9)]), Err(AnimationDbError::DataAlreadyExists));
    assert_eq!(db.get_start_index(&AnimationStartIndexKey { facing_direction: None, key }), Some(3));
    let f = FollowerAnimationKey { follower_id: AnimatedSpriteId(2), followee_key: key };
    assert_eq!(db.register_follower(f, key), Ok(()));
    assert_eq!(db.register_follower(f, key), Err(AnimationDbError::FollowerAlreadyExists));
}

#[test]
fn animations_only_yield_to_equal_or_higher_priority() {
    let mut player = UnitAnimationPlayer::new(AnimatedSpriteId(TT_UNIT_ANIMATED_SPRITE_ID));
    let combat = AnimToPlay { id: UnitAnimationKind::Attack.registered_id(), frames_per_second: 8 };
    let idle = AnimToPlay { id: UnitAnimationKind::IdleWalk.registered_id(), frames_per_second: 8 };
    player.play(combat);
    assert_eq!(player.current_priority(), Some(AnimationPriority::Combat));
    player.play(idle);
    assert_eq!(player.current_animation.unwrap().id, combat.id);
    let hurt = AnimToPlay { id: RegisteredAnimationId { id: 9, priority: AnimationPriority::Reaction }, frames_per_second: 4 };
    player.play(hurt);
    assert_eq!(player.current_animation.unwrap().id, combat.id);
}

#[test]
fn frames_advance_raise_markers_and_finish() {
    let db = build_animation_db().unwrap();
    let data = db.get_data(&unit_key(UnitAnimationKind::Attack)).unwrap().clone();
    let mut player = UnitAnimationPlayer::new(AnimatedSpriteId(TT_UNIT_ANIMATED_SPRITE_ID));
    player.play(AnimToPlay { id: UnitAnimationKind::Attack.registered_id(), frames_per_second: 8 });
    assert_eq!(player.sheet_index(20), Some(20));
    assert_eq!(player.advance_frame(&data), None);
    assert_eq!(player.advance_frame(&data).map(|m| m.0), Some(AnimationMarker::HitFrame));
    assert_eq!(player.advance_frame(&data), None);
    assert_eq!(player.sheet_index(20), Some(23));
    assert_eq!(player.advance_frame(&data).map(|m| m.0), Some(AnimationMarker::Complete));
    assert!(player.current_animation.is_none());
}

#[test]
fn idle_animation_follows_health() {
    let db = build_animation_db().unwrap();
    assert_eq!(idle_kind(true, true, false), UnitAnimationKind::IdleDead);
    assert_eq!(idle_kind(false, true, false), UnitAnimationKind::IdleHurt);
    assert_eq!(idle_kind(false, true, true), UnitAnimationKind::IdleWalk);
    let mut player = UnitAnimationPlayer::new(AnimatedSpriteId(TT_UNIT_ANIMATED_SPRITE_ID));
    assert!(player.play_idle(&db, false, true, false));
    assert_eq!(player.current_animation.unwrap().id, UnitAnimationKind::IdleHurt.registered_id());
    let mut unknown = UnitAnimationPlayer::new(AnimatedSpriteId(99));
    assert!(!unknown.play_idle(&db, false, false, false));
    assert!(unknown.current_animation.is_none());
}

#[test]
fn follower_frames_track_the_leader() {
    let db = build_animation_db().unwrap();
    let mut player = UnitAnimationPlayer::new(AnimatedSpriteId(TT_UNIT_ANIMATED_SPRITE_ID));
    assert_eq!(player.follower_sheet_index(&db, AnimatedSpriteId(TT_WEAPON_ANIMATED_SPRITE_ID), Some(Direction::NE)), None);
    player.play(AnimToPlay { id: UnitAnimationKind::Attack.registered_id(), frames_per_second: 8 });
    assert_eq!(player.follower_sheet_index(&db, AnimatedSpriteId(TT_WEAPON_ANIMATED_SPRITE_ID), Some(Direction::SE)), Some(4));
}

#[test]
fn spritesheet_layouts_and_names() {
    assert_eq!(spritesheet_coords_to_index((3, 2)), 11);
    let d = calculate_animation_data(Action::Attack, Direction::NE, 64, 128, 64);
    assert_eq!(d.frame_count, 8);
    assert_eq!(d.frame_indices[0], (0, 2));
    assert_eq!(d.frame_indices[5], (1, 3));
    assert_eq!(
        sprite_filename(Character::Fighter, Action::Walking, Direction::SE),
        "assets/unit_assets/tinytactics_battlekiti_v1_0/20240427fighter-walkingSE.png"
    );
    assert_eq!(spritesheet_data_path(Character::Mage), "unit_assets/spritesheets/mage_animation_data.json");
    assert_eq!(spritesheet_path(Character::Cleric), "unit_assets/spritesheets/cleric_spritesheet.png");
    assert_eq!(
        weapon_attack_sprite_filename(WeaponType::IronAxe, Direction::NW),
        "assets/unit_assets/tinytactics_battlekiti_v1_0/20240429weapons-IronAxeattackNW.png"
    );
    assert_eq!(weapon_spritesheet_path(WeaponType::Scepter), "unit_assets/spritesheets/Scepter_spritesheet.png");
    assert_eq!(WeaponType::variants().len(), 6);
    assert_eq!(atlas_grid(AnimatedSpriteId(2)), Some((48, 48, 4, 2)));
    assert_eq!(atlas_grid(AnimatedSpriteId(42)), None);
    assert_eq!(animated_sprite_atlas_grids().len(), 6);
    assert_eq!(UnitJob::Mage.sprite_ids(true).0 .0, 8);
    assert_eq!(UnitJob::Mage.sprite_ids(false).1, AnimatedSpriteId(TT_UNIT_ANIMATED_SPRITE_ID));
}

#[test]
fn sheets_stack_images_in_a_fixed_order() {
    let order = sheet_order();
    assert_eq!(order.len(), 14);
    assert_eq!(order[0], (Action::Walking, Direction::NE));
    assert_eq!(order[13], (Action::Dead, Direction::SE));
    assert_eq!(stacked_offsets(&vec![32, 64, 32]), vec![0, 32, 96]);
    assert_eq!(widest(&vec![96, 128, 64]), 128);
    assert_eq!(widest(&vec![]), 0);
}

#[test]
fn executing_actions_starts_walks_attacks_and_waits() {
    let mut res = UnitPhaseResources { movement_points_left_in_phase: 2, action_points_left_in_phase: 1, waited: false };
    let path = vec![GridPosition { x: 0, y: 0 }, GridPosition { x: 1, y: 0 }];
    let m = ValidMove { target: GridPosition { x: 1, y: 0 }, path: path.clone(), movement_used: 1 };
    match execute_unit_action(&UnitExecuteAction::Move(m), &mut res) {
        ExecutionStart::Walk(p) => assert_eq!(p, path),
        other => panic!("expected a walk, got {:?}", other),
    }
    assert!(!res.waited);
    assert!(matches!(execute_unit_action(&UnitExecuteAction::Wait, &mut res), ExecutionStart::Done(UnitAction::Wait)));
    assert!(res.waited);
}

#[test]
fn used_assets_cover_sounds_fonts_and_misc() {
    let paths = tactics_core::assets::used_asset_paths();
    assert_eq!(paths.len(), 19);
    assert_eq!(paths[0], tactics_core::assets::FLAME_EXPLOSION_PATH);
    assert_eq!(paths[18], "utility_assets/gradient.png");
    assert_eq!(paths.iter().filter(|p| **p == tactics_core::assets::CLOSE_MENU_PATH).count(), 2);
}
