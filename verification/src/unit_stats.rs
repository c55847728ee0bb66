//! The kinds of stats a unit has, and experience and levels.
use vstd::prelude::*;
use crate::unit::UnitAction;

verus! {

#[derive(Clone, Copy, PartialEq, Eq, Structural, Debug, Hash, PartialOrd, Ord)]
pub enum StatType {
    Health,
    MaxHealth,
    Movement,
    Strength,
    Magic,
    Defense,
    Resistance,
    Speed,
    Skill,
}

/// The stat kinds in declaration order.
pub open spec fn stat_type_variants_spec() -> Seq<StatType> {
    seq![
        StatType::Health,
        StatType::MaxHealth,
        StatType::Movement,
        StatType::Strength,
        StatType::Magic,
        StatType::Defense,
        StatType::Resistance,
        StatType::Speed,
        StatType::Skill,
    ]
}

impl StatType {
    /// Every stat kind, in declaration order.
    pub fn variants() -> (v: Vec<StatType>)
        ensures
            v@ == stat_type_variants_spec(),
    {
        let v = vec![
            StatType::Health,
            StatType::MaxHealth,
            StatType::Movement,
            StatType::Strength,
            StatType::Magic,
            StatType::Defense,
            StatType::Resistance,
            StatType::Speed,
            StatType::Skill,
        ];
        assert(v@ =~= stat_type_variants_spec());
        v
    }

    pub open spec fn abbreviation_spec(self) -> Seq<char> {
        match self {
            StatType::Strength => "STR"@,
            StatType::Magic => "MAG"@,
            StatType::Defense => "DEF"@,
            StatType::Resistance => "RES"@,
            StatType::Speed => "SPD"@,
            StatType::Skill => "SKL"@,
            StatType::MaxHealth => "MAX HP"@,
            StatType::Movement => "MOVE"@,
            StatType::Health => "HP"@,
        }
    }

    /// The short label shown in menus.
    pub fn abbreviation(&self) -> (s: &'static str)
        ensures
            s@ == self.abbreviation_spec(),
    {
        match self {
            StatType::Strength => "STR",
            StatType::Magic => "MAG",
            StatType::Defense => "DEF",
            StatType::Resistance => "RES",
            StatType::Speed => "SPD",
            StatType::Skill => "SKL",
            StatType::MaxHealth => "MAX HP",
            StatType::Movement => "MOVE",
            StatType::Health => "HP",
        }
    }
}

/// Experience a unit gains for finishing an attack.
pub const ACTION_XP: u32 = 50;

/// Experience needed for one level.
pub const XP_PER_LEVEL: u32 = 100;

/// The experience a completed action is worth: attacks earn a flat amount,
/// nothing else earns any.
pub fn xp_for_action(action: UnitAction) -> (xp: u32)
    ensures
        xp == (if action == UnitAction::Attack { ACTION_XP } else { 0 }),
{
    match action {
        UnitAction::Attack => ACTION_XP,
        _ => 0,
    }
}

/// A unit's level and the experience it has towards the next one.
#[derive(Clone, Copy, PartialEq, Eq, Structural, Debug)]
pub struct UnitLevelManager {
    pub current_level: u32,
    pub experience: u32,
}

impl UnitLevelManager {
    /// Level one, no experience.
    pub fn new() -> (m: UnitLevelManager)
        ensures
            m.current_level == 1,
            m.experience == 0,
    {
        UnitLevelManager { current_level: 1, experience: 0 }
    }

    /// Takes in experience: every full hundred is a level up (returned as a
    /// count, one growth each), and the rest is kept towards the next.
    pub fn accept_experience(&mut self, exp: u32) -> (level_ups: u32)
        requires
            old(self).experience + exp <= u32::MAX,
        ensures
            level_ups == (old(self).experience + exp) / 100,
            final(self).experience == (old(self).experience + exp) % 100,
            final(self).current_level == old(self).current_level,
            old(self).experience + exp == 100 * level_ups + final(self).experience,
    {
        let total = self.experience + exp;
        self.experience = total % XP_PER_LEVEL;
        total / XP_PER_LEVEL
    }

    /// A level up has been applied.
    pub fn level_up(&mut self)
        requires
            old(self).current_level < u32::MAX,
        ensures
            final(self).current_level == old(self).current_level + 1,
            final(self).experience == old(self).experience,
    {
        self.current_level = self.current_level + 1;
    }
}

} // verus!
