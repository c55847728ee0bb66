use tactics_core::battle_menu::{
    back_target, filtered_skill_menu, select_battle_menu_action, skill_menu, standard_battle_menu, BattleMenuAction,
    BattleMenuSelection, UnitMenuAction,
};
use tactics_core::battle_phase::UnitPhaseResources;
use tactics_core::combat::skills::{build_skill_table, SkillCategoryId, SkillId, UnitSkills, ATTACK_SKILL};
use tactics_core::join_game_menu::{
    color_selector_options, color_selector_text, create_character, focus_text_input, join_menu_entries,
    loadable_save_files, CreateCharacterError, JoinError, JoinMenuEntry, JoinedPlayers, LoadedUnitState,
    PlayerController, ReadyOutcome,
};
use tactics_core::main_menu::{main_menu_choice, main_menu_entries, volume_option_index, volume_options_percent, MainMenuButtonAction, MainMenuOutcome};
use tactics_core::menu::{horizontal_steps, GameMenuGrid, HorizontalSelector, HortDirection, MenuGridPosition, MenuVec};
use tactics_core::player::UnitCommand;
use tactics_core::save_game::{upgrade_save_file_to_latest, SaveFileColor, SaveFileKey, SaveFiles, UnitSave, UnitSaveV1};
use tactics_core::unit::jobs::{job_selector_options, UnitJob};
use tactics_core::GameState;

fn resources(movement: u32, ap: u32) -> UnitPhaseResources {
    UnitPhaseResources { movement_points_left_in_phase: movement, action_points_left_in_phase: ap, waited: false }
}

#[test]
fn standard_menu_lists_move_skills_wait_view_map() {
    let entries = standard_battle_menu();
    let labels: Vec<&str> = entries.iter().map(|e| e.label.as_str()).collect();
    assert_eq!(labels, vec!["Move", "Skills", "Wait", "View Map"]);
    assert_eq!(entries[0].action, BattleMenuAction::Action(UnitMenuAction::Move));
    assert_eq!(entries[3].action, BattleMenuAction::ViewMap);
}

#[test]
fn moving_without_movement_is_refused() {
    let db = build_skill_table().unwrap();
    let skills = UnitSkills { learned_skills: vec![], equipped_skill_categories: vec![] };
    let r = select_battle_menu_action(&BattleMenuAction::Action(UnitMenuAction::Move), &resources(0, 1), &skills, &db);
    assert!(matches!(r, BattleMenuSelection::Refused));
    let r = select_battle_menu_action(&BattleMenuAction::Action(UnitMenuAction::Move), &resources(2, 0), &skills, &db);
    assert!(matches!(r, BattleMenuSelection::Command(UnitCommand::Move)));
}

#[test]
fn using_a_skill_needs_an_action_point() {
    let db = build_skill_table().unwrap();
    let skills = UnitSkills { learned_skills: vec![], equipped_skill_categories: vec![] };
    let act = BattleMenuAction::Action(UnitMenuAction::UseSkill(SkillId(ATTACK_SKILL)));
    assert!(matches!(select_battle_menu_action(&act, &resources(3, 0), &skills, &db), BattleMenuSelection::Refused));
    assert!(matches!(
        select_battle_menu_action(&act, &resources(0, 1), &skills, &db),
        BattleMenuSelection::Command(UnitCommand::UseSkill(SkillId(ATTACK_SKILL)))
    ));
    let wait = BattleMenuAction::Action(UnitMenuAction::Wait);
    assert!(matches!(select_battle_menu_action(&wait, &resources(0, 0), &skills, &db), BattleMenuSelection::Command(UnitCommand::Wait)));
    let interact = BattleMenuAction::Action(UnitMenuAction::Interact(42));
    assert!(matches!(
        select_battle_menu_action(&interact, &resources(0, 0), &skills, &db),
        BattleMenuSelection::Command(UnitCommand::Interact(42))
    ));
    assert!(matches!(select_battle_menu_action(&BattleMenuAction::ViewMap, &resources(0, 0), &skills, &db), BattleMenuSelection::ViewMap));
}

#[test]
fn skill_menu_starts_with_attack_then_categories() {
    let db = build_skill_table().unwrap();
    let cats: Vec<SkillCategoryId> = {
        let mut v = Vec::new();
        for c in 0..10u32 {
            if db.skills_in_category(&SkillCategoryId(c)).is_some() {
                v.push(SkillCategoryId(c));
            }
        }
        v
    };
    assert!(!cats.is_empty());
    let skills = UnitSkills { learned_skills: vec![], equipped_skill_categories: cats.clone() };
    let entries = skill_menu(&skills, &db);
    assert_eq!(entries.len(), cats.len() + 1);
    assert_eq!(entries[0].label, "Attack");
    assert_eq!(entries[0].action, BattleMenuAction::Action(UnitMenuAction::UseSkill(SkillId(ATTACK_SKILL))));
    for (i, c) in cats.iter().enumerate() {
        assert_eq!(entries[i + 1].action, BattleMenuAction::OpenSkillsFilteredByCategoryMenu(*c));
        assert_eq!(entries[i + 1].label, db.get_category(c).name);
    }
}

#[test]
fn filtered_menu_keeps_learned_skills_of_the_category_in_order() {
    let db = build_skill_table().unwrap();
    let mut category = None;
    for c in 0..10u32 {
        if let Some(list) = db.skills_in_category(&SkillCategoryId(c)) {
            if !list.is_empty() {
                category = Some((SkillCategoryId(c), list.clone()));
                break;
            }
        }
    }
    let (cat, list) = category.expect("some category has skills");
    let mut learned = list.clone();
    learned.reverse();
    let skills = UnitSkills { learned_skills: learned.clone(), equipped_skill_categories: vec![] };
    let entries = filtered_skill_menu(&skills, cat, &db);
    assert_eq!(entries.len(), learned.len());
    for (i, s) in learned.iter().enumerate() {
        assert_eq!(entries[i].action, BattleMenuAction::Action(UnitMenuAction::UseSkill(*s)));
        assert_eq!(entries[i].label, db.get_skill(s).name);
    }
}

#[test]
fn back_target_prefers_last_nested_menu() {
    assert_eq!(back_target(&vec![]), None);
    assert_eq!(back_target(&vec![false, false]), Some(0));
    assert_eq!(back_target(&vec![false, true, true, false]), Some(2));
}

#[test]
fn joining_numbers_players_and_caps_at_four() {
    let mut joined = JoinedPlayers::new();
    assert_eq!(joined.join(PlayerController::Keyboard, 100), Ok(1));
    assert_eq!(joined.join(PlayerController::Gamepad(5), 101), Ok(2));
    assert!(joined.controller_joined(PlayerController::Gamepad(5)));
    assert!(!joined.controller_joined(PlayerController::Gamepad(6)));
    assert_eq!(joined.join(PlayerController::Gamepad(6), 102), Ok(3));
    assert_eq!(joined.join(PlayerController::Gamepad(7), 103), Ok(4));
    assert_eq!(joined.join(PlayerController::Gamepad(8), 104), Err(JoinError::MaximumPlayersReached));
    assert_eq!(joined.count(), 4);
    // Player 2 leaves; the next player gets one more than the largest number in use.
    let left = joined.leave(2).expect("player 2 had joined");
    assert_eq!(left.input_entity, 101);
    assert_eq!(joined.join(PlayerController::Gamepad(9), 105), Ok(5));
}

#[test]
fn leaving_right_after_joining_restores_the_players() {
    let mut joined = JoinedPlayers::new();
    joined.join(PlayerController::Keyboard, 10).unwrap();
    let id = joined.join(PlayerController::Gamepad(3), 11).unwrap();
    assert_eq!(joined.count(), 2);
    assert!(joined.leave(id).is_some());
    assert_eq!(joined.count(), 1);
    assert!(joined.controller_joined(PlayerController::Keyboard));
    assert!(!joined.controller_joined(PlayerController::Gamepad(3)));
    assert!(joined.leave(id).is_none());
}

fn save(uid: u32, name: &str, job: UnitJob) -> UnitSaveV1 {
    UnitSaveV1 { save_file_key: SaveFileKey { uid, name: name.to_string(), color: SaveFileColor::Red }, job }
}

#[test]
fn everyone_ready_hands_out_the_characters() {
    let mut joined = JoinedPlayers::new();
    let a = joined.join(PlayerController::Keyboard, 1).unwrap();
    let b = joined.join(PlayerController::Gamepad(2), 2).unwrap();
    assert!(matches!(joined.ready_for_battle(a, save(1, "Ann", UnitJob::Mage)), ReadyOutcome::Waiting));
    assert!(matches!(joined.ready_for_battle(9, save(3, "Nobody", UnitJob::Mage)), ReadyOutcome::UnknownPlayer));
    match joined.ready_for_battle(b, save(2, "Bo", UnitJob::Knight)) {
        ReadyOutcome::AllReady(saves) => {
            assert_eq!(saves.len(), 2);
            assert_eq!(saves[0].0, a);
            assert_eq!(saves[0].1.save_file_key.name, "Ann");
            assert_eq!(saves[1].0, b);
            assert_eq!(saves[1].1.job, UnitJob::Knight);
        }
        other => panic!("expected everyone ready, got {:?}", other),
    }
    // Backing out of ready goes back to the loaded character.
    assert!(joined.unready(a));
    assert!(!joined.unready(a));
    assert!(!joined.all_ready());
}

#[test]
fn save_files_in_use_are_not_offered() {
    let mut joined = JoinedPlayers::new();
    let a = joined.join(PlayerController::Keyboard, 1).unwrap();
    let files = SaveFiles {
        save_file_keys: vec![save(1, "Ann", UnitJob::Mage).save_file_key, save(2, "Bo", UnitJob::Mage).save_file_key],
        cursor: 2,
    };
    assert_eq!(loadable_save_files(&files, &joined).len(), 2);
    assert!(joined.set_unit_state(a, LoadedUnitState::LoadedUnit(save(1, "Ann", UnitJob::Mage))));
    assert!(joined.save_file_in_use(&files.save_file_keys[0]));
    let offered = loadable_save_files(&files, &joined);
    assert_eq!(offered.len(), 1);
    assert_eq!(offered[0].uid, 2);
}

#[test]
fn creating_a_character_checks_the_form_and_hands_out_uids() {
    let mut files = SaveFiles::new();
    let name = "Rook".to_string();
    assert_eq!(create_character(&mut files, &name, None, Some(SaveFileColor::Blue)).unwrap_err(), CreateCharacterError::NoJobSelected);
    assert_eq!(create_character(&mut files, &name, Some(UnitJob::Archer), None).unwrap_err(), CreateCharacterError::NoColorSelected);
    assert_eq!(
        create_character(&mut files, &String::new(), Some(UnitJob::Archer), Some(SaveFileColor::Blue)).unwrap_err(),
        CreateCharacterError::EmptyName
    );
    assert!(files.save_file_keys.is_empty());
    let s = create_character(&mut files, &name, Some(UnitJob::Archer), Some(SaveFileColor::Blue)).unwrap();
    assert_eq!(s.save_file_key.uid, 1);
    assert_eq!(files.cursor, 1);
    assert_eq!(files.save_file_keys.len(), 1);
    assert_eq!(s.save_file_key.pkv_key(), "unit-save-1");
    // The uid wraps around after the largest value.
    files.cursor = u32::MAX;
    let t = create_character(&mut files, &name, Some(UnitJob::Mage), Some(SaveFileColor::Green)).unwrap();
    assert_eq!(t.save_file_key.uid, 0);
}

#[test]
fn pkv_key_is_prefix_and_decimal_uid() {
    let k = SaveFileKey { uid: 4031, name: "x".to_string(), color: SaveFileColor::Green };
    assert_eq!(k.pkv_key(), "unit-save-4031");
    let z = SaveFileKey { uid: 0, name: "x".to_string(), color: SaveFileColor::Green };
    assert_eq!(z.pkv_key(), "unit-save-0");
}

#[test]
fn upgrading_a_first_version_save_keeps_it() {
    let s = save(7, "Vee", UnitJob::Mercenary);
    let up = upgrade_save_file_to_latest(UnitSave::V1(s)).unwrap();
    assert_eq!(up.save_file_key.uid, 7);
    assert_eq!(up.job, UnitJob::Mercenary);
}

#[test]
fn focusing_a_text_field_toggles_it_and_deactivates_others() {
    let r = focus_text_input(&vec![(1, true), (2, false), (3, true)], 1);
    assert_eq!(r, vec![(1, false), (2, true), (3, true)]);
    let r = focus_text_input(&r, 1);
    assert_eq!(r, vec![(1, true), (2, true), (3, true)]);
}

#[test]
fn selector_options_and_texts() {
    assert_eq!(job_selector_options(), vec![UnitJob::Archer, UnitJob::Knight, UnitJob::Mercenary, UnitJob::Mage]);
    assert_eq!(color_selector_options(), vec![SaveFileColor::Red, SaveFileColor::Blue, SaveFileColor::Green]);
    assert_eq!(color_selector_text(SaveFileColor::Blue), "<- Blue ->");
    assert_eq!(SaveFileColor::Red.name(), "Red");
    let entries = join_menu_entries();
    assert_eq!(entries[0], (JoinMenuEntry::NewCharacter, "New Character"));
    assert_eq!(entries[2].1, "(DEV) Delete All Data");
}

#[test]
fn main_menu_buttons_and_choices() {
    let entries = main_menu_entries();
    assert_eq!(entries.iter().map(|e| e.1).collect::<Vec<_>>(), vec!["Play Demo", "Settings", "Quit"]);
    assert_eq!(main_menu_choice(MainMenuButtonAction::PlayDemo), MainMenuOutcome::GoTo(GameState::JoinGame));
    assert_eq!(main_menu_choice(MainMenuButtonAction::Quit), MainMenuOutcome::Exit);
    assert_eq!(main_menu_choice(MainMenuButtonAction::OpenSettings), MainMenuOutcome::OpenSettings);
    assert_eq!(volume_options_percent(), vec![0, 20, 40, 60, 80, 100, 120, 140, 160, 180, 200]);
    assert_eq!(volume_option_index(60), Some(3));
    assert_eq!(volume_option_index(200), Some(10));
    assert_eq!(volume_option_index(50), None);
    assert_eq!(volume_option_index(220), None);
}

#[test]
fn menu_grid_stacks_buttons_and_navigates_with_wrap() {
    let mut grid = GameMenuGrid::new_vertical();
    grid.push_buttons_to_stack(&vec![10, 11, 12]);
    assert_eq!(grid.get_active_menu_option(), Some(10));
    assert!(grid.navigate(MenuVec { x: 0, y: 1 }));
    assert_eq!(grid.get_active_menu_option(), Some(11));
    assert!(!grid.navigate(MenuVec { x: 0, y: 0 }));
    // Up from the first row wraps to the last.
    grid.reset_menu_option();
    assert!(grid.navigate(MenuVec { x: 0, y: -1 }));
    assert_eq!(grid.get_active_menu_option(), Some(12));
    let lit = grid.highlighted_buttons();
    assert_eq!(lit, vec![(10, false), (11, false), (12, true)]);
    // Removing a button shortens its column.
    assert!(grid.remove_button(&MenuGridPosition { x: 1, y: 3 }).is_ok());
    assert_eq!(grid.get_active_menu_option(), None);
}

#[test]
fn selector_steps_wrap_and_round_trip() {
    let mut s = HorizontalSelector::new(&[1u32, 2, 3]);
    assert_eq!(s.get_current(), Some(1));
    s.apply_index(HortDirection::West);
    assert_eq!(s.get_current(), Some(3));
    s.apply_index(HortDirection::East);
    assert_eq!(s.get_current(), Some(1));
    s.apply_index(HortDirection::East);
    s.apply_index(HortDirection::West);
    assert_eq!(s.get_current(), Some(1));
    assert_eq!(horizontal_steps(Some((1, 0)), true, false), vec![HortDirection::East, HortDirection::West]);
    assert_eq!(horizontal_steps(Some((0, 1)), false, true), vec![HortDirection::East]);
    assert_eq!(horizontal_steps(None, false, false), vec![]);
}

#[test]
fn stacking_buttons_leaves_other_columns_alone() {
    let mut grid = GameMenuGrid::new_vertical();
    grid.push_buttons_to_stack(&vec![1, 2]);
    grid.push_buttons_to_stack(&vec![3]);
    assert!(grid.navigate(MenuVec { x: 0, y: 2 }));
    assert_eq!(grid.get_active_menu_option(), Some(3));
    assert!(grid.navigate(MenuVec { x: 0, y: -2 }));
    assert_eq!(grid.get_active_menu_option(), Some(1));
}

#[test]
fn keyboard_and_gamepad_bindings() {
    let one = tactics_core::player::keyboard_input_map(tactics_core::player::Player::One);
    assert_eq!(one.len(), 8);
    assert_eq!(
        one[4],
        (tactics_core::player::PlayerInputAction::Select, tactics_core::player::InputBinding::Key(tactics_core::player::Key::Space))
    );
    let two = tactics_core::player::keyboard_input_map(tactics_core::player::Player::Two);
    assert_eq!(two.len(), 6);
    assert_eq!(
        two[0],
        (tactics_core::player::PlayerInputAction::MoveCursorUp, tactics_core::player::InputBinding::Key(tactics_core::player::Key::ArrowUp))
    );
    let pre = tactics_core::player::keyboard_input_map(tactics_core::player::Player::PrePlayer);
    assert_eq!(pre.len(), 15);
    assert_eq!(pre[14], (tactics_core::player::PlayerInputAction::MoveCursor, tactics_core::player::InputBinding::LeftStick));
    assert_eq!(tactics_core::player::gamepad_input_map().len(), 7);
}

#[test]
fn unit_panel_shows_health_movement_and_action_points() {
    let (hp, mv, ap) = tactics_core::battle_menu::unit_panel_texts(9, 13, &resources(2, 1));
    assert_eq!(hp, "HP: 9 / 13");
    assert_eq!(mv, "Move: 2");
    assert_eq!(ap, "AP: 1");
}
