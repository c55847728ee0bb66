//! The battle menu a player uses to tell a selected unit what to do: a
//! standard menu, a menu of skill categories and a menu of the skills of one
//! category. This module decides what each menu holds and what choosing an
//! entry leads to; drawing the menus is left to the application.
use vstd::prelude::*;
use crate::battle_phase::UnitPhaseResources;
use crate::combat::skills::{attack_skill_id, SkillCategoryId, SkillDB, SkillId, UnitSkills, ATTACK_SKILL};
use crate::player::UnitCommand;
use crate::save_game::{decimal, decimal_string};

verus! {

/// A terminal entry of the battle menu: it becomes a command for the unit.
#[derive(Clone, Copy, PartialEq, Eq, Structural, Debug)]
pub enum UnitMenuAction {
    Move,
    Attack,
    UseSkill(SkillId),
    Wait,
    Interact(u64),
}

/// What an entry of the battle menu does when chosen.
#[derive(Clone, Copy, PartialEq, Eq, Structural, Debug)]
pub enum BattleMenuAction {
    Action(UnitMenuAction),
    OpenSkillMenu,
    OpenSkillsFilteredByCategoryMenu(SkillCategoryId),
    ViewMap,
}

/// An entry of a menu: what it does and the text on its button.
#[derive(Clone, Debug)]
pub struct MenuEntry {
    pub action: BattleMenuAction,
    pub label: String,
}

/// What a list of entries shows: each action with its text.
pub open spec fn entries_view(entries: Seq<MenuEntry>) -> Seq<(BattleMenuAction, Seq<char>)> {
    entries.map_values(|e: MenuEntry| (e.action, e.label@))
}

/// The first menu of a selected unit: move, open the skills, wait, view the
/// map, in this order.
pub fn standard_battle_menu() -> (r: Vec<MenuEntry>)
    ensures
        entries_view(r@) == seq![
            (BattleMenuAction::Action(UnitMenuAction::Move), "Move"@),
            (BattleMenuAction::OpenSkillMenu, "Skills"@),
            (BattleMenuAction::Action(UnitMenuAction::Wait), "Wait"@),
            (BattleMenuAction::ViewMap, "View Map"@),
        ],
{
    let r = vec![
        MenuEntry { action: BattleMenuAction::Action(UnitMenuAction::Move), label: String::from_str("Move") },
        MenuEntry { action: BattleMenuAction::OpenSkillMenu, label: String::from_str("Skills") },
        MenuEntry { action: BattleMenuAction::Action(UnitMenuAction::Wait), label: String::from_str("Wait") },
        MenuEntry { action: BattleMenuAction::ViewMap, label: String::from_str("View Map") },
    ];
    assert(entries_view(r@) =~= seq![
        (BattleMenuAction::Action(UnitMenuAction::Move), "Move"@),
        (BattleMenuAction::OpenSkillMenu, "Skills"@),
        (BattleMenuAction::Action(UnitMenuAction::Wait), "Wait"@),
        (BattleMenuAction::ViewMap, "View Map"@),
    ]);
    r
}

/// The command a terminal entry stands for.
pub open spec fn command_of(action: UnitMenuAction) -> UnitCommand {
    match action {
        UnitMenuAction::Move => UnitCommand::Move,
        UnitMenuAction::Attack => UnitCommand::Attack,
        UnitMenuAction::Wait => UnitCommand::Wait,
        UnitMenuAction::UseSkill(s) => UnitCommand::UseSkill(s),
        UnitMenuAction::Interact(e) => UnitCommand::Interact(e),
    }
}

/// The skill menu: the basic attack first, then one entry per equipped
/// category, named after it.
pub open spec fn skill_menu_spec(categories: Seq<SkillCategoryId>, db: SkillDB) -> Seq<(BattleMenuAction, Seq<char>)> {
    seq![(BattleMenuAction::Action(UnitMenuAction::UseSkill(SkillId(ATTACK_SKILL))), "Attack"@)]
        + categories.map_values(|c: SkillCategoryId| (BattleMenuAction::OpenSkillsFilteredByCategoryMenu(c), db.skill_categories()[c].name@))
}

/// The skills menu of one category: the learned skills of that category, in
/// the order they were learned, each named after the skill.
pub open spec fn filtered_skill_menu_spec(learned: Seq<SkillId>, category: SkillCategoryId, db: SkillDB) -> Seq<(BattleMenuAction, Seq<char>)>
    decreases learned.len(),
{
    if learned.len() == 0 {
        seq![]
    } else {
        let before = filtered_skill_menu_spec(learned.drop_last(), category, db);
        let s = learned.last();
        if db.category_by_skills()[s] == category {
            before.push((BattleMenuAction::Action(UnitMenuAction::UseSkill(s)), db.skills()[s].name@))
        } else {
            before
        }
    }
}

/// The entries of the skill menu of a unit with `skills`.
pub fn skill_menu(skills: &UnitSkills, db: &SkillDB) -> (r: Vec<MenuEntry>)
    requires
        forall|i: int| 0 <= i < skills.equipped_skill_categories@.len()
            ==> db.skill_categories().contains_key(#[trigger] skills.equipped_skill_categories@[i]),
    ensures
        entries_view(r@) == skill_menu_spec(skills.equipped_skill_categories@, *db),
{
    let cats = &skills.equipped_skill_categories;
    let mut r: Vec<MenuEntry> = Vec::new();
    r.push(MenuEntry {
        action: BattleMenuAction::Action(UnitMenuAction::UseSkill(attack_skill_id())),
        label: String::from_str("Attack"),
    });
    let mut i: usize = 0;
    while i < cats.len()
        invariant
            i <= cats@.len(),
            forall|k: int| 0 <= k < cats@.len() ==> db.skill_categories().contains_key(#[trigger] cats@[k]),
            entries_view(r@) == skill_menu_spec(cats@.take(i as int), *db),
        decreases cats@.len() - i,
    {
        let c = cats[i];
        let category = db.get_category(&c);
        let label = category.name.clone();
        assert(label@ == db.skill_categories()[c].name@);
        let ghost before = r@;
        r.push(MenuEntry { action: BattleMenuAction::OpenSkillsFilteredByCategoryMenu(c), label });
        proof {
            assert(cats@.take(i + 1) =~= cats@.take(i as int).push(c));
            assert(entries_view(r@) =~= entries_view(before).push((BattleMenuAction::OpenSkillsFilteredByCategoryMenu(c), label@)));
            assert(entries_view(r@) =~= skill_menu_spec(cats@.take(i + 1), *db));
        }
        i = i + 1;
    }
    assert(cats@.take(cats@.len() as int) =~= cats@);
    r
}

/// The entries of the menu of skills of `category` for a unit with `skills`.
pub fn filtered_skill_menu(skills: &UnitSkills, category: SkillCategoryId, db: &SkillDB) -> (r: Vec<MenuEntry>)
    requires
        forall|i: int| 0 <= i < skills.learned_skills@.len()
            ==> db.category_by_skills().contains_key(#[trigger] skills.learned_skills@[i]),
        forall|i: int| 0 <= i < skills.learned_skills@.len()
            && db.category_by_skills()[skills.learned_skills@[i]] == category
            ==> db.skills().contains_key(#[trigger] skills.learned_skills@[i]),
    ensures
        entries_view(r@) == filtered_skill_menu_spec(skills.learned_skills@, category, *db),
{
    let learned = &skills.learned_skills;
    let mut r: Vec<MenuEntry> = Vec::new();
    let mut i: usize = 0;
    while i < learned.len()
        invariant
            i <= learned@.len(),
            forall|k: int| 0 <= k < learned@.len() ==> db.category_by_skills().contains_key(#[trigger] learned@[k]),
            forall|k: int| 0 <= k < learned@.len() && db.category_by_skills()[learned@[k]] == category
                ==> db.skills().contains_key(#[trigger] learned@[k]),
            entries_view(r@) == filtered_skill_menu_spec(learned@.take(i as int), category, *db),
        decreases learned@.len() - i,
    {
        let s = learned[i];
        proof {
            assert(learned@.take(i + 1).drop_last() =~= learned@.take(i as int));
        }
        if *db.get_category_for_skill(&s) == category {
            let skill = db.get_skill(&s);
            r.push(MenuEntry {
                action: BattleMenuAction::Action(UnitMenuAction::UseSkill(s)),
                label: skill.name.clone(),
            });
            proof {
                assert(entries_view(r@) =~= filtered_skill_menu_spec(learned@.take(i + 1), category, *db));
            }
        }
        i = i + 1;
    }
    assert(learned@.take(learned@.len() as int) =~= learned@);
    r
}

/// What choosing an entry of the battle menu leads to.
#[derive(Clone, Debug)]
pub enum BattleMenuSelection {
    /// The unit cannot do that now; the menu stays as it is.
    Refused,
    /// The command goes to the unit and the menu closes.
    Command(UnitCommand),
    /// The skill menu opens with these entries.
    OpenSkillMenu(Vec<MenuEntry>),
    /// The menu of one category's skills opens with these entries.
    OpenFilteredSkillMenu(Vec<MenuEntry>),
    /// The map viewer opens and the unit is told to show the map.
    ViewMap,
}

/// Chooses `action` in the battle menu of a unit with `resources` left and
/// `skills`: moving needs movement left and using a skill needs an action
/// point left (otherwise the choice is refused); other terminal entries
/// become their command; the two skill menus open with their entries.
pub fn select_battle_menu_action(
    action: &BattleMenuAction,
    resources: &UnitPhaseResources,
    skills: &UnitSkills,
    db: &SkillDB,
) -> (r: BattleMenuSelection)
    requires
        *action is OpenSkillMenu ==> forall|i: int| 0 <= i < skills.equipped_skill_categories@.len()
            ==> db.skill_categories().contains_key(#[trigger] skills.equipped_skill_categories@[i]),
        *action matches BattleMenuAction::OpenSkillsFilteredByCategoryMenu(c) ==> {
            &&& forall|i: int| 0 <= i < skills.learned_skills@.len()
                ==> db.category_by_skills().contains_key(#[trigger] skills.learned_skills@[i])
            &&& forall|i: int| 0 <= i < skills.learned_skills@.len()
                && db.category_by_skills()[skills.learned_skills@[i]] == c
                ==> db.skills().contains_key(#[trigger] skills.learned_skills@[i])
        },
    ensures
        match *action {
            BattleMenuAction::Action(a) => if (a is Move && resources.movement_points_left_in_phase == 0)
                || (a is UseSkill && resources.action_points_left_in_phase == 0) {
                r is Refused
            } else {
                r == BattleMenuSelection::Command(command_of(a))
            },
            BattleMenuAction::OpenSkillMenu => r matches BattleMenuSelection::OpenSkillMenu(entries)
                && entries_view(entries@) == skill_menu_spec(skills.equipped_skill_categories@, *db),
            BattleMenuAction::OpenSkillsFilteredByCategoryMenu(c) => r matches BattleMenuSelection::OpenFilteredSkillMenu(entries)
                && entries_view(entries@) == filtered_skill_menu_spec(skills.learned_skills@, c, *db),
            BattleMenuAction::ViewMap => r is ViewMap,
        },
{
    match action {
        BattleMenuAction::Action(a) => {
            match a {
                UnitMenuAction::Move => {
                    if resources.movement_points_left_in_phase == 0 {
                        return BattleMenuSelection::Refused;
                    }
                    BattleMenuSelection::Command(UnitCommand::Move)
                },
                UnitMenuAction::UseSkill(s) => {
                    if resources.action_points_left_in_phase == 0 {
                        return BattleMenuSelection::Refused;
                    }
                    BattleMenuSelection::Command(UnitCommand::UseSkill(*s))
                },
                UnitMenuAction::Attack => BattleMenuSelection::Command(UnitCommand::Attack),
                UnitMenuAction::Wait => BattleMenuSelection::Command(UnitCommand::Wait),
                UnitMenuAction::Interact(e) => BattleMenuSelection::Command(UnitCommand::Interact(*e)),
            }
        },
        BattleMenuAction::OpenSkillMenu => BattleMenuSelection::OpenSkillMenu(skill_menu(skills, db)),
        BattleMenuAction::OpenSkillsFilteredByCategoryMenu(c) => {
            BattleMenuSelection::OpenFilteredSkillMenu(filtered_skill_menu(skills, *c, db))
        },
        BattleMenuAction::ViewMap => BattleMenuSelection::ViewMap,
    }
}

/// The menu that gets the focus back when a player backs out of a command:
/// the last of the battle menus (given in order, each telling whether it was
/// opened from another one) that was opened from another, else the first.
pub fn back_target(opened_from_another: &Vec<bool>) -> (r: Option<usize>)
    ensures
        opened_from_another@.len() == 0 ==> r is None,
        opened_from_another@.len() > 0 ==> (r matches Some(t) && t < opened_from_another@.len() && (
            if exists|i: int| 0 <= i < opened_from_another@.len() && opened_from_another@[i] {
                opened_from_another@[t as int]
                    && forall|i: int| t < i < opened_from_another@.len() ==> !opened_from_another@[i]
            } else {
                t == 0
            })),
{
    let n = opened_from_another.len();
    if n == 0 {
        return None;
    }
    let mut i: usize = n;
    while i > 0
        invariant
            i <= n,
            n == opened_from_another@.len(),
            forall|k: int| i <= k < n ==> !opened_from_another@[k],
        decreases i,
    {
        i = i - 1;
        if opened_from_another[i] {
            return Some(i);
        }
    }
    Some(0)
}

/// The lines of a player's unit panel: health out of max health, movement
/// left and action points left.
pub fn unit_panel_texts(health: u32, max_health: u32, resources: &UnitPhaseResources) -> (r: (String, String, String))
    ensures
        r.0@ == "HP: "@ + decimal(health as nat) + " / "@ + decimal(max_health as nat),
        r.1@ == "Move: "@ + decimal(resources.movement_points_left_in_phase as nat),
        r.2@ == "AP: "@ + decimal(resources.action_points_left_in_phase as nat),
{
    let hp = String::from_str("HP: ")
        .concat(decimal_string(health).as_str())
        .concat(" / ")
        .concat(decimal_string(max_health).as_str());
    let mv = String::from_str("Move: ").concat(decimal_string(resources.movement_points_left_in_phase).as_str());
    let ap = String::from_str("AP: ").concat(decimal_string(resources.action_points_left_in_phase).as_str());
    (hp, mv, ap)
}

} // verus!
