use tactics_core::animation::{AnimatedSpriteId, AnimationKey, AnimationMarker, AnimationPriority, CombatAnimationId, RegisteredAnimationId};
use tactics_core::assets::SpriteId;
use tactics_core::combat::skills::{
    build_skill_table, AttackModifier, CastingData, SkillActionIndex, SkillActionType, SkillCategoryId, SkillDB, SkillDbError,
    SkillEvent, SkillId, SkillStageAction, FLAME_ACCURACY_BITS, FULL_ACCURACY_BITS,
};
use tactics_core::combat::{AdvanceCheck, AttackExecutionTrigger, CombatStageId, CombatTimeline, StageEntry};
use tactics_core::gameplay_effects::{EffectDuration, EffectType, StatusTag};
use tactics_core::grid::{GridManager, GridPosition};
use tactics_core::menu::{GameMenuGrid, MenuGridPosition};

fn status_of(db: &SkillDB, id: u32) -> (StatusTag, u8) {
    let skill = db.get_skill(&SkillId(id));
    match &skill.actions[1].action_type {
        SkillActionType::ApplyEffects { effects } => {
            assert_eq!(effects.len(), 1);
            let tag = match effects[0].effect_type {
                EffectType::StatusInfliction(t) => t,
                _ => panic!("expected a status"),
            };
            let turns = match effects[0].duration {
                EffectDuration::TurnCount(n) => n,
                _ => panic!("expected a turn count"),
            };
            (tag, turns)
        },
        _ => panic!("expected an effect"),
    }
}

#[test]
fn poison_shot_poisons_and_stun_shot_stuns() {
    let db = build_skill_table().unwrap();
    assert_eq!(status_of(&db, 5), (StatusTag::Poisoned, 3));
    assert_eq!(status_of(&db, 6), (StatusTag::Stunned, 3));
    // Poison Shot lands both actions; Stun Shot only the damage.
    match &db.get_skill(&SkillId(5)).animation_data[1].stage {
        SkillStageAction::Impact(v) => assert_eq!(v, &vec![SkillActionIndex(0), SkillActionIndex(1)]),
        _ => panic!("expected an impact"),
    }
    match &db.get_skill(&SkillId(6)).animation_data[1].stage {
        SkillStageAction::Impact(v) => assert_eq!(v, &vec![SkillActionIndex(0)]),
        _ => panic!("expected an impact"),
    }
}

#[test]
fn flame_is_less_accurate_and_hit_em_twice_strikes_harder_second() {
    let db = build_skill_table().unwrap();
    assert_eq!(db.get_skill(&SkillId(2)).actions[0].base_accuracy_bits, FLAME_ACCURACY_BITS);
    assert_eq!(f32::from_bits(FLAME_ACCURACY_BITS), 0.8f32);
    assert_eq!(f32::from_bits(FULL_ACCURACY_BITS), 1.0f32);
    let twice = db.get_skill(&SkillId(3));
    let powers: Vec<u32> = twice
        .actions
        .iter()
        .map(|a| match &a.action_type {
            SkillActionType::DamagingSkill { scaled_damage } => {
                assert_eq!(scaled_damage.offensive_modifier, AttackModifier::PhysicalAttack);
                scaled_damage.power
            },
            _ => panic!("expected damage"),
        })
        .collect();
    assert_eq!(powers, vec![3, 5]);
    assert_eq!(twice.animation_data.len(), 4);
}

#[test]
fn a_new_skill_in_a_known_category_registers() {
    let mut db = build_skill_table().unwrap();
    let extra = db.get_skill(&SkillId(1)).clone();
    assert_eq!(db.register_skill(SkillCategoryId(4), SkillId(20), extra.clone()), Ok(()));
    assert_eq!(db.get_category_for_skill(&SkillId(20)), &SkillCategoryId(4));
    assert_eq!(db.skills_in_category(&SkillCategoryId(4)), Some(&vec![SkillId(20)]));
    assert_eq!(db.register_skill(SkillCategoryId(4), SkillId(20), extra.clone()), Err(SkillDbError::SkillExists));
    assert_eq!(db.register_skill(SkillCategoryId(40), SkillId(21), extra), Err(SkillDbError::CategoryMissing));
}

#[test]
fn poison_damage_timeline_casts_then_lands_then_resolves() {
    let db = build_skill_table().unwrap();
    let pos = GridPosition { x: 1, y: 2 };
    let mut t = CombatTimeline::build_without_attacker(40, db.get_skill(&SkillId(7)), 41, &pos).unwrap();
    assert_eq!(t.current_stage(), CombatStageId(0));
    assert_eq!(t.check_should_advance(), AdvanceCheck::Advanced(CombatStageId(0)));
    match t.enter_stage(CombatStageId(0)) {
        StageEntry::Cast(p, d) => {
            assert_eq!(p, pos);
            let key = AnimationKey {
                animated_sprite_id: AnimatedSpriteId(5),
                animation_id: RegisteredAnimationId { id: 1, priority: AnimationPriority::Combat },
            };
            assert_eq!(d, CastingData::TileSprite(SpriteId(7), key, tactics_core::combat::skills::SkillAnimationId(1)));
        },
        _ => panic!("expected the cast"),
    }
    assert_eq!(t.check_should_advance(), AdvanceCheck::Waiting);
    let anim = CombatAnimationId::new(40, 1);
    t.clear_condition(AttackExecutionTrigger::AnimationMarker(anim, AnimationMarker::HitFrame));
    assert_eq!(t.check_should_advance(), AdvanceCheck::Advanced(CombatStageId(1)));
    match t.enter_stage(CombatStageId(1)) {
        StageEntry::Impact(att, def, acts) => {
            assert_eq!(att, None);
            assert_eq!(def, 41);
            assert_eq!(acts.len(), 1);
            assert_eq!(acts[0].base_accuracy_bits, FULL_ACCURACY_BITS);
            match &acts[0].action_type {
                SkillActionType::DamagingSkill { scaled_damage } => {
                    assert_eq!(scaled_damage.power, 2);
                    assert_eq!(scaled_damage.offensive_modifier, AttackModifier::Unmodified);
                },
                _ => panic!("expected damage"),
            }
        },
        _ => panic!("expected the impact"),
    }
    assert!(matches!(t.enter_stage(CombatStageId(0)), StageEntry::Stale));
    t.clear_condition(AttackExecutionTrigger::AnimationMarker(anim, AnimationMarker::Complete));
    assert_eq!(t.check_should_advance(), AdvanceCheck::Advanced(CombatStageId(2)));
    assert!(matches!(t.enter_stage(CombatStageId(2)), StageEntry::Resolved));
    // Skills whose stages need an attacker are refused without one.
    assert!(CombatTimeline::build_without_attacker(40, db.get_skill(&SkillId(1)), 41, &pos).is_err());
    let _ = SkillEvent::ProjectileImpact(tactics_core::combat::skills::SkillAnimationId(1));
}

#[test]
fn removing_the_top_button_keeps_the_column_filled() {
    let mut g = GameMenuGrid::new_vertical();
    let a = g.push_button_to_stack(10);
    let b = g.push_button_to_stack(11);
    let c = g.push_button_to_stack(12);
    assert_eq!(c, MenuGridPosition { x: 1, y: 3 });
    g.remove_button(&c).unwrap();
    // Rows 1 and 2 remain, and a new button goes to row 3 again.
    assert_eq!(g.push_button_to_stack(13), MenuGridPosition { x: 1, y: 3 });
    // Removing a lower button leaves a gap; the next push lands on the top
    // row, replacing the button there.
    g.remove_button(&a).unwrap();
    assert_eq!(g.push_button_to_stack(14), MenuGridPosition { x: 1, y: 3 });
    let lit: Vec<u64> = g.highlighted_buttons().iter().map(|(e, _)| *e).collect();
    assert!(lit.contains(&11) && lit.contains(&14) && !lit.contains(&10) && !lit.contains(&13));
    let _ = b;
}

#[test]
fn moves_keep_the_grid_index_consistent() {
    let mut gm = GridManager::new(4, 4);
    gm.add_entity(1, GridPosition { x: 0, y: 0 });
    gm.add_entity(2, GridPosition { x: 0, y: 0 });
    assert_eq!(gm.move_entity_to(1, GridPosition { x: 2, y: 3 }), Ok(()));
    assert_eq!(gm.get_by_id(&1), Some(GridPosition { x: 2, y: 3 }));
    assert_eq!(gm.get_by_position(&GridPosition { x: 0, y: 0 }), Some(&vec![2]));
    assert_eq!(gm.get_by_position(&GridPosition { x: 2, y: 3 }), Some(&vec![1]));
    assert_eq!(gm.move_entity_to(1, GridPosition { x: 0, y: 0 }), Ok(()));
    assert_eq!(gm.get_by_position(&GridPosition { x: 0, y: 0 }), Some(&vec![2, 1]));
    assert_eq!(gm.get_by_position(&GridPosition { x: 2, y: 3 }), Some(&vec![]));
    assert_eq!(gm.get_by_id(&2), Some(GridPosition { x: 0, y: 0 }));
}
