//! Jobs a unit can be given when a character is created.
use vstd::prelude::*;
use crate::assets::{SpriteId, TinyTacticsSprites};
use crate::combat::skills::{SkillCategoryId, SkillId, UnitSkills};
use crate::animation::{AnimatedSpriteId, TT_UNIT_ANIMATED_SPRITE_ID, UNIT_DEMO_SPRITE_ID};

verus! {

#[derive(Clone, Copy, PartialEq, Eq, Structural, Debug, Hash)]
pub enum UnitJob {
    Knight,
    Mage,
    Archer,
    Mercenary,
}

impl UnitJob {
    pub open spec fn name_spec(self) -> Seq<char> {
        match self {
            UnitJob::Knight => "Knight"@,
            UnitJob::Mage => "Mage"@,
            UnitJob::Archer => "Archer"@,
            UnitJob::Mercenary => "Mercenary"@,
        }
    }

    pub fn name(&self) -> (s: String)
        ensures
            s@ == self.name_spec(),
    {
        match self {
            UnitJob::Knight => "Knight".to_string(),
            UnitJob::Mage => "Mage".to_string(),
            UnitJob::Archer => "Archer".to_string(),
            UnitJob::Mercenary => "Mercenary".to_string(),
        }
    }

    pub fn description(&self) -> (s: String)
        ensures
            s@ == (match self {
                UnitJob::Knight => "Charge your enemies and hold them in place to protect your allies"@,
                UnitJob::Mage => "Channel primal energy to support your allies and devastate your foes"@,
                UnitJob::Archer => "Use your bow to inflict pain and effects upon your enemies from range"@,
                UnitJob::Mercenary => "Hit your enemies hard. Don't worry about \"playing it safe\""@,
            }),
    {
        match self {
            UnitJob::Knight => "Charge your enemies and hold them in place to protect your allies".to_string(),
            UnitJob::Mage => "Channel primal energy to support your allies and devastate your foes".to_string(),
            UnitJob::Archer => "Use your bow to inflict pain and effects upon your enemies from range".to_string(),
            UnitJob::Mercenary => "Hit your enemies hard. Don't worry about \"playing it safe\"".to_string(),
        }
    }

    /// The sprite sheet a unit of this job is drawn with: knights look like
    /// clerics, mages like mages, archers and mercenaries like fighters.
    pub fn base_sprite_id(&self) -> (s: SpriteId)
        ensures
            s.0 == (match self {
                UnitJob::Knight => TinyTacticsSprites::Cleric.id_spec(),
                UnitJob::Mage => TinyTacticsSprites::Mage.id_spec(),
                UnitJob::Archer => TinyTacticsSprites::Fighter.id_spec(),
                UnitJob::Mercenary => TinyTacticsSprites::Fighter.id_spec(),
            }),
    {
        match self {
            UnitJob::Knight => TinyTacticsSprites::Cleric.sprite_id(),
            UnitJob::Mage => TinyTacticsSprites::Mage.sprite_id(),
            UnitJob::Archer => TinyTacticsSprites::Fighter.sprite_id(),
            UnitJob::Mercenary => TinyTacticsSprites::Fighter.sprite_id(),
        }
    }

    /// The skills a unit of this job starts with, and its skill category.
    pub fn base_unit_skills(&self) -> (s: UnitSkills)
        ensures
            s.learned_skills@ == (match self {
                UnitJob::Knight => Seq::<SkillId>::empty(),
                UnitJob::Mage => seq![SkillId(2), SkillId(8)],
                UnitJob::Archer => seq![SkillId(6), SkillId(5)],
                UnitJob::Mercenary => seq![SkillId(3)],
            }),
            s.equipped_skill_categories@ == seq![SkillCategoryId(match self {
                UnitJob::Knight => 4u32,
                UnitJob::Mage => 1u32,
                UnitJob::Archer => 5u32,
                UnitJob::Mercenary => 6u32,
            })],
    {
        let s = match self {
            UnitJob::Knight => UnitSkills { learned_skills: Vec::new(), equipped_skill_categories: vec![SkillCategoryId(4)] },
            UnitJob::Mage => UnitSkills {
                learned_skills: vec![SkillId(2), SkillId(8)],
                equipped_skill_categories: vec![SkillCategoryId(1)],
            },
            UnitJob::Archer => UnitSkills {
                learned_skills: vec![SkillId(6), SkillId(5)],
                equipped_skill_categories: vec![SkillCategoryId(5)],
            },
            UnitJob::Mercenary => UnitSkills { learned_skills: vec![SkillId(3)], equipped_skill_categories: vec![SkillCategoryId(6)] },
        };
        assert(s.learned_skills@ =~= (match self {
            UnitJob::Knight => Seq::<SkillId>::empty(),
            UnitJob::Mage => seq![SkillId(2), SkillId(8)],
            UnitJob::Archer => seq![SkillId(6), SkillId(5)],
            UnitJob::Mercenary => seq![SkillId(3)],
        }));
        assert(s.equipped_skill_categories@ =~= seq![SkillCategoryId(match self {
            UnitJob::Knight => 4u32,
            UnitJob::Mage => 1u32,
            UnitJob::Archer => 5u32,
            UnitJob::Mercenary => 6u32,
        })]);
        s
    }

    /// The demo sprite of the job.
    pub fn demo_sprite_id(&self) -> (s: SpriteId)
        ensures
            s.0 == (match self {
                UnitJob::Knight => 11u32,
                UnitJob::Mage => 8u32,
                UnitJob::Archer => 9u32,
                UnitJob::Mercenary => 10u32,
            }),
    {
        match self {
            UnitJob::Knight => SpriteId(11),
            UnitJob::Mage => SpriteId(8),
            UnitJob::Archer => SpriteId(9),
            UnitJob::Mercenary => SpriteId(10),
        }
    }
}

impl UnitJob {
    /// The sheet and the animated sheet a character of this job is shown
    /// with: the hand-drawn demo portraits, or the animated battle sprites.
    pub fn sprite_ids(&self, use_demo_sprites: bool) -> (r: (SpriteId, AnimatedSpriteId))
        ensures
            use_demo_sprites ==> r.0.0 == (match self {
                UnitJob::Knight => 11u32,
                UnitJob::Mage => 8u32,
                UnitJob::Archer => 9u32,
                UnitJob::Mercenary => 10u32,
            }) && r.1 == AnimatedSpriteId(UNIT_DEMO_SPRITE_ID),
            !use_demo_sprites ==> r.0.0 == (match self {
                UnitJob::Knight => TinyTacticsSprites::Cleric.id_spec(),
                UnitJob::Mage => TinyTacticsSprites::Mage.id_spec(),
                UnitJob::Archer => TinyTacticsSprites::Fighter.id_spec(),
                UnitJob::Mercenary => TinyTacticsSprites::Fighter.id_spec(),
            }) && r.1 == AnimatedSpriteId(TT_UNIT_ANIMATED_SPRITE_ID),
    {
        if use_demo_sprites {
            (self.demo_sprite_id(), AnimatedSpriteId(UNIT_DEMO_SPRITE_ID))
        } else {
            (self.base_sprite_id(), AnimatedSpriteId(TT_UNIT_ANIMATED_SPRITE_ID))
        }
    }
}

/// The jobs offered when creating a character, in the order shown.
pub fn job_selector_options() -> (r: Vec<UnitJob>)
    ensures
        r@ == seq![UnitJob::Archer, UnitJob::Knight, UnitJob::Mercenary, UnitJob::Mage],
{
    let r = vec![UnitJob::Archer, UnitJob::Knight, UnitJob::Mercenary, UnitJob::Mage];
    assert(r@ =~= seq![UnitJob::Archer, UnitJob::Knight, UnitJob::Mercenary, UnitJob::Mage]);
    r
}

} // verus!
