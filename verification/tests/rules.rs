use tactics_core::battle_phase::{
    advance_after_start_of_phase_effects, banner_next, banner_text, check_should_advance_phase, decrement_turn_count_effects, init_phase_system, needs_poison_damage,
    start_phase, BannerAnimState, PhaseManager, PhaseState, PlayerEnemyPhase, UnitPhaseResources,
};
use tactics_core::combat::skills::{
    build_skill_table, AttackModifier, DamagingSkill, SkillAction, SkillActionType, SkillCategory, SkillCategoryId, SkillDB,
    SkillDbError,
};
use tactics_core::combat::{calculate_damage, resolve_impact};
use tactics_core::enemy::{plan_enemy_action, resolve_enemy_action, Behavior, EnemyAiBehavior, EnemyStep};
use tactics_core::equipment::{build_item_db, equip_item_on_unit, EquippableSlot, UnitEquipment};
use tactics_core::gameplay_effects::{
    ActiveEffects, Effect, EffectData, EffectDuration, EffectMetadata, EffectType, StatusTag,
};
use tactics_core::grid::{GridManager, GridPosition};
use tactics_core::menu::{GameMenuGrid, MenuError, MenuGridPosition};
use tactics_core::unit::{enemy_unit, player_unit, Team, UnitAction, UnitExecuteAction};
use tactics_core::animation::UnitAnimationKind;

fn strike(power: u32) -> Vec<SkillAction> {
    vec![SkillAction {
        base_accuracy_bits: 1.0f32.to_bits(),
        action_type: SkillActionType::DamagingSkill {
            scaled_damage: DamagingSkill {
                power,
                offensive_modifier: AttackModifier::PhysicalAttack,
                defensive_modifier: AttackModifier::PhysicalResistance,
            },
        },
    }]
}

#[test]
fn damage_is_power_plus_strength_minus_defense() {
    let attacker = player_unit("A".to_string(), Team::player());
    let defender = enemy_unit("D".to_string(), Team::enemy());
    // 3 power + 2 strength - 1 defense = 4 damage.
    assert_eq!(calculate_damage(Some(&attacker), &defender, &strike(3)), -4);
    // Without an attacker there is no strength bonus.
    assert_eq!(calculate_damage(None, &defender, &strike(3)), -2);
}

#[test]
fn impact_lowers_health_but_not_below_zero() {
    let attacker = player_unit("A".to_string(), Team::player());
    let mut defender = enemy_unit("D".to_string(), Team::enemy());
    let mut effects = ActiveEffects::new();
    let out = resolve_impact(Some(&attacker), Some(1), &mut defender, 2, &mut effects, &strike(3));
    assert_eq!(out.health_changed, -4);
    assert_eq!(out.reaction, Some(UnitAnimationKind::TakeDamage));
    assert_eq!(defender.stats.health, 6);
    let out = resolve_impact(Some(&attacker), Some(1), &mut defender, 2, &mut effects, &strike(20));
    assert_eq!(out.health_changed, -21);
    assert_eq!(defender.stats.health, 0);
}

fn poison(turns: u8) -> Effect {
    Effect {
        metadata: EffectMetadata { target: 1, source: None },
        data: EffectData { effect_type: EffectType::StatusInfliction(StatusTag::Poisoned), duration: EffectDuration::TurnCount(turns) },
    }
}

#[test]
fn timed_effects_count_down_and_expire() {
    let mut effects = ActiveEffects::new();
    effects.apply_effect(poison(2));
    assert!(effects.has_status(StatusTag::Poisoned));
    assert!(needs_poison_damage(&effects));
    assert!(!effects.has_status(StatusTag::Stunned));
    decrement_turn_count_effects(&mut effects);
    assert!(effects.has_status(StatusTag::Poisoned));
    decrement_turn_count_effects(&mut effects);
    assert!(!effects.has_status(StatusTag::Poisoned));
    assert!(effects.effects.is_empty());
}

#[test]
fn phases_alternate_once_every_unit_is_done() {
    let (mut pm, _) = init_phase_system();
    assert_eq!(start_phase(&mut pm), PlayerEnemyPhase::Player);
    assert_eq!(advance_after_start_of_phase_effects(&mut pm, true), None);
    assert_eq!(advance_after_start_of_phase_effects(&mut pm, false), Some(PlayerEnemyPhase::Player));
    assert_eq!(pm.phase_state, PhaseState::Running);
    let busy = vec![(UnitPhaseResources { movement_points_left_in_phase: 1, action_points_left_in_phase: 0, waited: false }, false)];
    assert!(check_should_advance_phase(&mut pm, PlayerEnemyPhase::Player, &busy, false).is_none());
    let done = vec![(UnitPhaseResources { movement_points_left_in_phase: 1, action_points_left_in_phase: 1, waited: true }, false)];
    assert!(check_should_advance_phase(&mut pm, PlayerEnemyPhase::Player, &done, true).is_none());
    assert!(check_should_advance_phase(&mut pm, PlayerEnemyPhase::Player, &done, false).is_some());
    assert_eq!(pm.current_phase, PlayerEnemyPhase::Enemy);
    assert_eq!(pm.phase_state, PhaseState::Initializing);
    assert_eq!(banner_text(PlayerEnemyPhase::Enemy), "ENEMY PHASE");
    assert_eq!(banner_next(BannerAnimState::Exiting), None);
    let _unused: PhaseManager = pm;
}

#[test]
fn equipping_two_handed_clears_both_hands() {
    let db = build_item_db();
    let axe = db.equippable_items.iter().find(|(_, i)| i.slot == EquippableSlot::Primary).unwrap().1.clone();
    let bow = db.equippable_items.iter().find(|(_, i)| i.slot == EquippableSlot::BothHands).unwrap().1.clone();
    let mut equipment = UnitEquipment::new();
    let mut effects = ActiveEffects::new();
    let removed = equip_item_on_unit(&mut equipment, &mut effects, 1, axe, 10);
    assert!(removed.is_empty());
    assert_eq!(equipment.weapon_data().map(|w| w.range), Some(1));
    let removed = equip_item_on_unit(&mut equipment, &mut effects, 1, bow, 11);
    assert_eq!(removed, vec![10]);
    assert_eq!(equipment.weapon_data().map(|w| w.range), Some(4));
}

#[test]
fn moving_an_untracked_entity_places_it_and_removing_forgets_it() {
    let mut gm = GridManager::new(3, 3);
    assert!(gm.move_entity_to(5, GridPosition { x: 1, y: 1 }).is_ok());
    assert_eq!(gm.get_by_id(&5), Some(GridPosition { x: 1, y: 1 }));
    gm.remove_entity(5);
    assert_eq!(gm.get_by_id(&5), None);
    assert!(gm.get_by_position(&GridPosition { x: 1, y: 1 }).map_or(true, |v| !v.contains(&5)));
}

#[test]
fn registering_a_category_twice_is_refused() {
    let mut db = SkillDB::new();
    assert_eq!(db.register_category(SkillCategoryId(1), SkillCategory { name: "Fire".to_string() }), Ok(()));
    assert_eq!(
        db.register_category(SkillCategoryId(1), SkillCategory { name: "Again".to_string() }),
        Err(SkillDbError::CategoryExists)
    );
    assert!(build_skill_table().is_ok());
}

#[test]
fn adding_a_button_past_the_width_is_refused() {
    let mut grid = GameMenuGrid::new_vertical();
    assert_eq!(grid.add_button_to_column(2, 7), Err(MenuError::ColumnPastWidth));
    assert_eq!(grid.add_button_to_column(1, 7), Ok(MenuGridPosition { x: 1, y: 1 }));
    assert_eq!(grid.push_button_to_stack(8), MenuGridPosition { x: 1, y: 2 });
}

#[test]
fn pacifists_only_wait_and_waiting_ends_the_turn() {
    let gm = GridManager::new(5, 5);
    let enemy = enemy_unit("E".to_string(), Team::enemy());
    let resources = UnitPhaseResources { movement_points_left_in_phase: 3, action_points_left_in_phase: 1, waited: false };
    let mut plan = plan_enemy_action(
        &gm,
        9,
        &enemy,
        &resources,
        &EnemyAiBehavior { behavior: Behavior::Pacifist },
        GridPosition { x: 2, y: 2 },
        &vec![(9, enemy.clone())],
        &vec![(9, enemy.clone(), GridPosition { x: 2, y: 2 })],
    );
    assert!(matches!(plan.pop_front(), Some(UnitExecuteAction::Wait)));
    assert!(plan.pop_front().is_none());
    assert_eq!(resolve_enemy_action(UnitAction::Wait), EnemyStep::EndTurn);
    assert_eq!(resolve_enemy_action(UnitAction::Move), EnemyStep::ContinuePlan);
}

#[test]
fn berserkers_strike_the_closest_unit_they_can_reach() {
    let mut gm = GridManager::new(9, 9);
    let enemy = enemy_unit("E".to_string(), Team::enemy());
    let near = player_unit("Near".to_string(), Team::player());
    let far = player_unit("Far".to_string(), Team::player());
    let enemy_pos = GridPosition { x: 2, y: 2 };
    let far_pos = GridPosition { x: 5, y: 2 };
    let near_pos = GridPosition { x: 2, y: 4 };
    gm.add_entity(9, enemy_pos);
    gm.add_entity(1, far_pos);
    gm.add_entity(2, near_pos);
    let resources = UnitPhaseResources { movement_points_left_in_phase: 2, action_points_left_in_phase: 1, waited: false };
    // Both units can be reached with two steps; the one two tiles away is
    // closer than the one three tiles away, though it is listed last.
    let mut plan = plan_enemy_action(
        &gm,
        9,
        &enemy,
        &resources,
        &EnemyAiBehavior { behavior: Behavior::Berserker },
        enemy_pos,
        &vec![(9, enemy.clone()), (1, far.clone()), (2, near.clone())],
        &vec![(9, enemy.clone(), enemy_pos), (1, far.clone(), far_pos), (2, near.clone(), near_pos)],
    );
    match plan.pop_front() {
        Some(UnitExecuteAction::Move(m)) => {
            let d = m.target.x.abs_diff(near_pos.x) + m.target.y.abs_diff(near_pos.y);
            assert!(d <= 1);
        },
        _ => panic!("expected a move"),
    }
    match plan.pop_front() {
        Some(UnitExecuteAction::Attack(intent)) => {
            assert_eq!(intent.attacker, 9);
            assert_eq!(intent.defender, 2);
        },
        _ => panic!("expected an attack"),
    }
    assert!(matches!(plan.pop_front(), Some(UnitExecuteAction::Wait)));
    assert!(plan.pop_front().is_none());
}
