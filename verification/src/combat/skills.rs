//! Skills, their categories, and the table that registers them.
use vstd::prelude::*;
use crate::animation::{FLAME_VFX_ANIMATED_SPRITE_ID, POISON_VFX_ANIMATED_SPRITE_ID, AnimatedSpriteId, AnimationKey, AnimationMarker, AnimationPriority, RegisteredAnimationId, UnitAnimationKind};
use crate::assets::SpriteId;
use crate::assoc::{assoc_map, has_key, keys_unique, lemma_assoc_lookup, lemma_assoc_push, lemma_assoc_update};
use crate::gameplay_effects::{EffectData, EffectDuration, EffectType, StatusTag};

verus! {

#[derive(Clone, Copy, PartialEq, Eq, Structural, Debug, Hash)]
pub struct SkillCategoryId(pub u32);

#[derive(Clone, Copy, PartialEq, Eq, Structural, Debug, Hash)]
pub struct SkillId(pub u32);

/// The id of the basic attack every unit has.
pub const ATTACK_SKILL: u32 = 1;

/// The basic attack.
pub fn attack_skill_id() -> (s: SkillId)
    ensures
        s.0 == ATTACK_SKILL,
{
    SkillId(ATTACK_SKILL)
}

/// The stat a side brings to a skill.
#[derive(Clone, Copy, PartialEq, Eq, Structural, Debug)]
pub enum AttackModifier {
    PhysicalAttack,
    PhysicalResistance,
    FireAttack,
    FireResistance,
    /// No stat takes part.
    Unmodified,
}

/// A part of a skill that deals (or heals) `power` plus the attacker's
/// offensive stat minus the defender's defensive stat.
#[derive(Clone, Copy, PartialEq, Eq, Structural, Debug)]
pub struct DamagingSkill {
    pub power: u32,
    pub offensive_modifier: AttackModifier,
    pub defensive_modifier: AttackModifier,
}

/// Where a skill can be aimed.
#[derive(Clone, Copy, PartialEq, Eq, Structural, Debug)]
pub enum Targeting {
    /// One target within this many tiles (taxicab) of the caster.
    TargetInRange(u32),
}

#[derive(Clone, Copy, PartialEq, Eq, Structural, Debug)]
pub enum TargetType {
    Any,
}

#[derive(Clone, Copy, PartialEq, Eq, Structural, Debug)]
pub struct SkillCost {
    /// Action points the skill costs.
    pub ap: u8,
}

#[derive(Clone, Debug)]
pub enum SkillActionType {
    DamagingSkill { scaled_damage: DamagingSkill },
    HealingSkill { scaled_damage: DamagingSkill },
    ApplyEffects { effects: Vec<EffectData> },
}

/// One effect of a skill. `base_accuracy_bits` holds the IEEE-754 bits of
/// the `f32` accuracy (from 0 to 1); every skill hits for now, so the rules
/// here carry it without reading it.
#[derive(Clone, Debug)]
pub struct SkillAction {
    pub base_accuracy_bits: u32,
    pub action_type: SkillActionType,
}

/// What a skill action does, as a mathematical value.
#[verifier::ext_equal]
pub enum ActionKind {
    Damaging(DamagingSkill),
    Healing(DamagingSkill),
    Effects(Seq<EffectData>),
}

impl SkillActionType {
    pub open spec fn kind(self) -> ActionKind {
        match self {
            SkillActionType::DamagingSkill { scaled_damage } => ActionKind::Damaging(scaled_damage),
            SkillActionType::HealingSkill { scaled_damage } => ActionKind::Healing(scaled_damage),
            SkillActionType::ApplyEffects { effects } => ActionKind::Effects(effects@),
        }
    }
}

impl SkillAction {
    pub open spec fn kind(self) -> ActionKind {
        self.action_type.kind()
    }

    /// The accuracy bits and the kind.
    pub open spec fn model(self) -> (u32, ActionKind) {
        (self.base_accuracy_bits, self.kind())
    }

    /// A copy with the same accuracy and kind.
    pub fn duplicate(&self) -> (r: SkillAction)
        ensures
            r.base_accuracy_bits == self.base_accuracy_bits,
            r.kind() == self.kind(),
    {
        let action_type = match &self.action_type {
            SkillActionType::DamagingSkill { scaled_damage } => SkillActionType::DamagingSkill { scaled_damage: *scaled_damage },
            SkillActionType::HealingSkill { scaled_damage } => SkillActionType::HealingSkill { scaled_damage: *scaled_damage },
            SkillActionType::ApplyEffects { effects } => {
                let mut copy: Vec<EffectData> = Vec::new();
                let mut i: usize = 0;
                while i < effects.len()
                    invariant
                        i <= effects@.len(),
                        copy@ == effects@.take(i as int),
                    decreases effects@.len() - i,
                {
                    copy.push(effects[i]);
                    i = i + 1;
                    proof {
                        assert(copy@ =~= effects@.take(i as int));
                    }
                }
                assert(effects@.take(effects@.len() as int) =~= effects@);
                SkillActionType::ApplyEffects { effects: copy }
            },
        };
        SkillAction { base_accuracy_bits: self.base_accuracy_bits, action_type }
    }
}

/// The kinds of a sequence of actions.
pub open spec fn kinds(actions: Seq<SkillAction>) -> Seq<ActionKind> {
    actions.map_values(|a: SkillAction| a.kind())
}

/// Accuracy bits and kind of each action of a sequence.
pub open spec fn action_models(actions: Seq<SkillAction>) -> Seq<(u32, ActionKind)> {
    actions.map_values(|a: SkillAction| a.model())
}

#[derive(Clone, Copy, PartialEq, Eq, Structural, Debug, Hash)]
pub struct SkillActionIndex(pub usize);

#[derive(Clone, Copy, PartialEq, Eq, Structural, Debug, Hash)]
pub struct SkillAnimationId(pub u32);

#[derive(Clone, Copy, PartialEq, Eq, Structural, Debug)]
pub enum CastingData {
    Projectile(SpriteId, SkillAnimationId),
    TileSprite(SpriteId, AnimationKey, SkillAnimationId),
}

#[derive(Clone, Debug)]
pub enum SkillStageAction {
    /// The caster plays one of its animations.
    UnitAttack(SkillAnimationId, UnitAnimationKind),
    /// A projectile or an effect on the target's tile.
    Cast(CastingData),
    /// The listed actions of the skill land on the target.
    Impact(Vec<SkillActionIndex>),
}

/// What ends a stage.
#[derive(Clone, Copy, PartialEq, Eq, Structural, Debug)]
pub enum SkillEvent {
    AnimationMarker(SkillAnimationId, AnimationMarker),
    ProjectileImpact(SkillAnimationId),
}

#[derive(Clone, Debug)]
pub struct SkillStage {
    pub stage: SkillStageAction,
    pub advancing_event: SkillEvent,
}

#[derive(Clone, Debug)]
pub struct Skill {
    pub name: String,
    pub actions: Vec<SkillAction>,
    pub targeting: Targeting,
    pub animation_data: Vec<SkillStage>,
    pub cost: SkillCost,
}

/// What a stage does, as a value.
#[verifier::ext_equal]
pub enum StageModel {
    UnitAttack(SkillAnimationId, UnitAnimationKind),
    Cast(CastingData),
    Impact(Seq<SkillActionIndex>),
}

/// A skill as a value: its name, the accuracy bits and kind of each action,
/// its range, each stage with the event that ends it, and its cost.
pub struct SkillModel {
    pub name: Seq<char>,
    pub actions: Seq<(u32, ActionKind)>,
    pub targeting: Targeting,
    pub stages: Seq<(StageModel, SkillEvent)>,
    pub cost: SkillCost,
}

impl SkillStage {
    pub open spec fn model(self) -> (StageModel, SkillEvent) {
        (
            match self.stage {
                SkillStageAction::UnitAttack(a, k) => StageModel::UnitAttack(a, k),
                SkillStageAction::Cast(c) => StageModel::Cast(c),
                SkillStageAction::Impact(v) => StageModel::Impact(v@),
            },
            self.advancing_event,
        )
    }
}

impl Skill {
    pub open spec fn model(self) -> SkillModel {
        SkillModel {
            name: self.name@,
            actions: action_models(self.actions@),
            targeting: self.targeting,
            stages: self.animation_data@.map_values(|st: SkillStage| st.model()),
            cost: self.cost,
        }
    }
}

#[derive(Clone, Debug)]
pub struct SkillCategory {
    pub name: String,
}

/// The skills a unit knows (each once) and the categories it has equipped.
#[derive(Clone, Debug)]
pub struct UnitSkills {
    pub learned_skills: Vec<SkillId>,
    pub equipped_skill_categories: Vec<SkillCategoryId>,
}

/// Why registering into the skill table failed.
#[derive(Clone, Copy, PartialEq, Eq, Structural, Debug)]
pub enum SkillDbError {
    CategoryExists,
    SkillExists,
    CategoryMissing,
    ReverseEntryExists,
}

/// Skills by id, the skills of each category in registration order, the
/// category of each skill, and the categories by id.
pub struct SkillDB {
    skills: Vec<(SkillId, Skill)>,
    skills_by_category: Vec<(SkillCategoryId, Vec<SkillId>)>,
    category_by_skills: Vec<(SkillId, SkillCategoryId)>,
    skill_categories: Vec<(SkillCategoryId, SkillCategory)>,
}

fn index_of_skill<V>(v: &Vec<(SkillId, V)>, id: SkillId) -> (r: Option<usize>)
    ensures
        match r {
            Some(i) => i < v@.len() && v@[i as int].0 == id,
            None => !has_key(v@, id),
        },
{
    let mut i: usize = 0;
    while i < v.len()
        invariant
            i <= v@.len(),
            forall|j: int| 0 <= j < i ==> v@[j].0 != id,
        decreases v@.len() - i,
    {
        if v[i].0.0 == id.0 {
            return Some(i);
        }
        i = i + 1;
    }
    None
}

fn index_of_category<V>(v: &Vec<(SkillCategoryId, V)>, id: SkillCategoryId) -> (r: Option<usize>)
    ensures
        match r {
            Some(i) => i < v@.len() && v@[i as int].0 == id,
            None => !has_key(v@, id),
        },
{
    let mut i: usize = 0;
    while i < v.len()
        invariant
            i <= v@.len(),
            forall|j: int| 0 <= j < i ==> v@[j].0 != id,
        decreases v@.len() - i,
    {
        if v[i].0.0 == id.0 {
            return Some(i);
        }
        i = i + 1;
    }
    None
}

/// Sets `k` to `val`; returns whether `k` was there before.
fn insert_by_skill<V>(v: &mut Vec<(SkillId, V)>, k: SkillId, val: V) -> (existed: bool)
    requires
        keys_unique(old(v)@),
    ensures
        keys_unique(final(v)@),
        assoc_map(final(v)@) == assoc_map(old(v)@).insert(k, val),
        existed == has_key(old(v)@, k),
{
    match index_of_skill(v, k) {
        Some(i) => {
            proof {
                lemma_assoc_update(v@, i as int, val);
            }
            v.set(i, (k, val));
            true
        },
        None => {
            proof {
                lemma_assoc_push(v@, k, val);
            }
            v.push((k, val));
            false
        },
    }
}

/// Sets `k` to `val`; returns whether `k` was there before.
fn insert_by_category<V>(v: &mut Vec<(SkillCategoryId, V)>, k: SkillCategoryId, val: V) -> (existed: bool)
    requires
        keys_unique(old(v)@),
    ensures
        keys_unique(final(v)@),
        assoc_map(final(v)@) == assoc_map(old(v)@).insert(k, val),
        existed == has_key(old(v)@, k),
{
    match index_of_category(v, k) {
        Some(i) => {
            proof {
                lemma_assoc_update(v@, i as int, val);
            }
            v.set(i, (k, val));
            true
        },
        None => {
            proof {
                lemma_assoc_push(v@, k, val);
            }
            v.push((k, val));
            false
        },
    }
}

fn copy_ids(ids: &Vec<SkillId>) -> (r: Vec<SkillId>)
    ensures
        r@ == ids@,
{
    let mut r: Vec<SkillId> = Vec::new();
    let mut i: usize = 0;
    while i < ids.len()
        invariant
            i <= ids@.len(),
            r@ == ids@.take(i as int),
        decreases ids@.len() - i,
    {
        r.push(ids[i]);
        i = i + 1;
        proof {
            assert(r@ =~= ids@.take(i as int));
        }
    }
    assert(ids@.take(ids@.len() as int) =~= ids@);
    r
}

impl SkillDB {
    #[verifier::type_invariant]
    spec fn wf(self) -> bool {
        &&& keys_unique(self.skills@)
        &&& keys_unique(self.skills_by_category@)
        &&& keys_unique(self.category_by_skills@)
        &&& keys_unique(self.skill_categories@)
        &&& forall|k: SkillId| #[trigger] assoc_map(self.category_by_skills@).contains_key(k) ==> assoc_map(self.skills@).contains_key(k)
    }

    pub closed spec fn skills(self) -> Map<SkillId, Skill> {
        assoc_map(self.skills@)
    }

    pub closed spec fn skills_by_category(self) -> Map<SkillCategoryId, Seq<SkillId>> {
        Map::new(
            |c: SkillCategoryId| assoc_map(self.skills_by_category@).contains_key(c),
            |c: SkillCategoryId| assoc_map(self.skills_by_category@)[c]@,
        )
    }

    pub closed spec fn category_by_skills(self) -> Map<SkillId, SkillCategoryId> {
        assoc_map(self.category_by_skills@)
    }

    pub closed spec fn skill_categories(self) -> Map<SkillCategoryId, SkillCategory> {
        assoc_map(self.skill_categories@)
    }

    /// An empty table.
    pub fn new() -> (db: SkillDB)
        ensures
            db.skills() == Map::<SkillId, Skill>::empty(),
            db.skills_by_category() == Map::<SkillCategoryId, Seq<SkillId>>::empty(),
            db.category_by_skills() == Map::<SkillId, SkillCategoryId>::empty(),
            db.skill_categories() == Map::<SkillCategoryId, SkillCategory>::empty(),
    {
        let db = SkillDB {
            skills: Vec::new(),
            skills_by_category: Vec::new(),
            category_by_skills: Vec::new(),
            skill_categories: Vec::new(),
        };
        assert(db.skills() =~= Map::<SkillId, Skill>::empty());
        assert(db.skills_by_category() =~= Map::<SkillCategoryId, Seq<SkillId>>::empty());
        assert(db.category_by_skills() =~= Map::<SkillId, SkillCategoryId>::empty());
        assert(db.skill_categories() =~= Map::<SkillCategoryId, SkillCategory>::empty());
        db
    }

    /// The registered skill `skill_id`.
    pub fn get_skill(&self, skill_id: &SkillId) -> (s: &Skill)
        requires
            self.skills().contains_key(*skill_id),
        ensures
            *s == self.skills()[*skill_id],
    {
        proof {
            use_type_invariant(self);
        }
        let i = index_of_skill(&self.skills, *skill_id).unwrap();
        proof {
            lemma_assoc_lookup(self.skills@, i as int);
        }
        &self.skills[i].1
    }

    /// The registered category `category_id`.
    pub fn get_category(&self, category_id: &SkillCategoryId) -> (c: &SkillCategory)
        requires
            self.skill_categories().contains_key(*category_id),
        ensures
            *c == self.skill_categories()[*category_id],
    {
        proof {
            use_type_invariant(self);
        }
        let i = index_of_category(&self.skill_categories, *category_id).unwrap();
        proof {
            lemma_assoc_lookup(self.skill_categories@, i as int);
        }
        &self.skill_categories[i].1
    }

    /// The category the skill `skill_id` was registered in.
    pub fn get_category_for_skill(&self, skill_id: &SkillId) -> (c: &SkillCategoryId)
        requires
            self.category_by_skills().contains_key(*skill_id),
        ensures
            *c == self.category_by_skills()[*skill_id],
    {
        proof {
            use_type_invariant(self);
        }
        let i = index_of_skill(&self.category_by_skills, *skill_id).unwrap();
        proof {
            lemma_assoc_lookup(self.category_by_skills@, i as int);
        }
        &self.category_by_skills[i].1
    }

    /// The skills registered in `category_id`, in registration order.
    pub fn skills_in_category(&self, category_id: &SkillCategoryId) -> (r: Option<&Vec<SkillId>>)
        ensures
            match r {
                Some(v) => self.skills_by_category().contains_key(*category_id) && v@ == self.skills_by_category()[*category_id],
                None => !self.skills_by_category().contains_key(*category_id),
            },
    {
        proof {
            use_type_invariant(self);
        }
        match index_of_category(&self.skills_by_category, *category_id) {
            Some(i) => {
                proof {
                    lemma_assoc_lookup(self.skills_by_category@, i as int);
                }
                Some(&self.skills_by_category[i].1)
            },
            None => None,
        }
    }

    /// Registers a category. The category is stored in any case; where its id
    /// was known already, that is an error. Otherwise it gets an empty list
    /// of skills.
    pub fn register_category(&mut self, skill_category: SkillCategoryId, category: SkillCategory) -> (r: Result<(), SkillDbError>)
        ensures
            final(self).skill_categories() == old(self).skill_categories().insert(skill_category, category),
            final(self).skills() == old(self).skills(),
            final(self).category_by_skills() == old(self).category_by_skills(),
            if old(self).skill_categories().contains_key(skill_category) {
                r == Err::<(), SkillDbError>(SkillDbError::CategoryExists)
                    && final(self).skills_by_category() == old(self).skills_by_category()
            } else {
                final(self).skills_by_category() == old(self).skills_by_category().insert(skill_category, Seq::empty())
                    && r == (if old(self).skills_by_category().contains_key(skill_category) {
                    Err::<(), SkillDbError>(SkillDbError::CategoryExists)
                } else {
                    Ok(())
                })
            },
    {
        proof {
            use_type_invariant(&*self);
        }
        let ghost old_sbc = self.skills_by_category();
        let mut cats: Vec<(SkillCategoryId, SkillCategory)> = Vec::new();
        std::mem::swap(&mut cats, &mut self.skill_categories);
        let existed = insert_by_category(&mut cats, skill_category, category);
        self.skill_categories = cats;
        if existed {
            return Err(SkillDbError::CategoryExists);
        }
        let mut sbc: Vec<(SkillCategoryId, Vec<SkillId>)> = Vec::new();
        std::mem::swap(&mut sbc, &mut self.skills_by_category);
        let existed2 = insert_by_category(&mut sbc, skill_category, Vec::new());
        self.skills_by_category = sbc;
        proof {
            assert(self.skills_by_category() =~= old_sbc.insert(skill_category, Seq::empty()));
        }
        if existed2 {
            return Err(SkillDbError::CategoryExists);
        }
        Ok(())
    }

    /// Registers a skill in a category. The skill is stored in any case; where
    /// its id was known already, that is an error. Else the category must
    /// exist; the skill is appended to its list and recorded as belonging to
    /// it. (An earlier such record would be an error, but every recorded skill
    /// is in the table, so a new skill never has one.)
    pub fn register_skill(&mut self, skill_category: SkillCategoryId, skill_id: SkillId, skill: Skill) -> (r: Result<(), SkillDbError>)
        ensures
            final(self).skills() == old(self).skills().insert(skill_id, skill),
            final(self).skill_categories() == old(self).skill_categories(),
            if old(self).skills().contains_key(skill_id) {
                r == Err::<(), SkillDbError>(SkillDbError::SkillExists)
                    && final(self).skills_by_category() == old(self).skills_by_category()
                    && final(self).category_by_skills() == old(self).category_by_skills()
            } else if !old(self).skills_by_category().contains_key(skill_category) {
                r == Err::<(), SkillDbError>(SkillDbError::CategoryMissing)
                    && final(self).skills_by_category() == old(self).skills_by_category()
                    && final(self).category_by_skills() == old(self).category_by_skills()
            } else {
                final(self).skills_by_category() == old(self).skills_by_category().insert(
                    skill_category,
                    old(self).skills_by_category()[skill_category].push(skill_id),
                )
                    && final(self).category_by_skills() == old(self).category_by_skills().insert(skill_id, skill_category)
                    && r == Ok::<(), SkillDbError>(())
            },
    {
        proof {
            use_type_invariant(&*self);
        }
        let ghost old_sbc = self.skills_by_category();
        let ghost old_cbs = self.category_by_skills();
        let ghost old_skills = self.skills();
        let mut cbs: Vec<(SkillId, SkillCategoryId)> = Vec::new();
        std::mem::swap(&mut cbs, &mut self.category_by_skills);
        let mut skills: Vec<(SkillId, Skill)> = Vec::new();
        std::mem::swap(&mut skills, &mut self.skills);
        let existed = insert_by_skill(&mut skills, skill_id, skill);
        self.skills = skills;
        proof {
            assert(assoc_map(cbs@) == old_cbs);
            assert forall|k: SkillId| #[trigger] assoc_map(cbs@).contains_key(k) implies assoc_map(self.skills@).contains_key(k) by {
                assert(old_skills.contains_key(k));
            }
        }
        if existed {
            self.category_by_skills = cbs;
            return Err(SkillDbError::SkillExists);
        }
        let i = match index_of_category(&self.skills_by_category, skill_category) {
            Some(i) => i,
            None => {
                proof {
                    assert(!old_sbc.contains_key(skill_category));
                }
                self.category_by_skills = cbs;
                return Err(SkillDbError::CategoryMissing);
            },
        };
        proof {
            lemma_assoc_lookup(self.skills_by_category@, i as int);
        }
        let mut list = copy_ids(&self.skills_by_category[i].1);
        list.push(skill_id);
        let mut sbc: Vec<(SkillCategoryId, Vec<SkillId>)> = Vec::new();
        std::mem::swap(&mut sbc, &mut self.skills_by_category);
        proof {
            lemma_assoc_update(sbc@, i as int, list);
        }
        sbc.set(i, (skill_category, list));
        self.skills_by_category = sbc;
        proof {
            assert(self.skills_by_category() =~= old_sbc.insert(skill_category, old_sbc[skill_category].push(skill_id)));
        }
        proof {
            assert(!old_cbs.contains_key(skill_id));
        }
        let existed2 = insert_by_skill(&mut cbs, skill_id, skill_category);
        proof {
            assert forall|k: SkillId| #[trigger] assoc_map(cbs@).contains_key(k) implies assoc_map(self.skills@).contains_key(k) by {
                if k != skill_id {
                    assert(old_cbs.contains_key(k));
                }
            }
        }
        self.category_by_skills = cbs;
        if existed2 {
            return Err(SkillDbError::ReverseEntryExists);
        }
        Ok(())
    }
}

/// IEEE-754 bits of an accuracy of 1.0.
pub const FULL_ACCURACY_BITS: u32 = 0x3F80_0000;

/// IEEE-754 bits of an accuracy of 0.8.
pub const FLAME_ACCURACY_BITS: u32 = 0x3F4C_CCCD;

fn damaging_action(accuracy_bits: u32, power: u32, offensive: AttackModifier, defensive: AttackModifier) -> (a: SkillAction)
    ensures
        a.model() == damaging_model(accuracy_bits, power, offensive, defensive),
{
    SkillAction {
        base_accuracy_bits: accuracy_bits,
        action_type: SkillActionType::DamagingSkill {
            scaled_damage: DamagingSkill { power, offensive_modifier: offensive, defensive_modifier: defensive },
        },
    }
}

fn unit_attack_stage(anim: u32, kind: UnitAnimationKind, marker: AnimationMarker) -> (s: SkillStage)
    ensures
        s.model() == unit_attack_model(anim, kind, marker),
{
    SkillStage {
        stage: SkillStageAction::UnitAttack(SkillAnimationId(anim), kind),
        advancing_event: SkillEvent::AnimationMarker(SkillAnimationId(anim), marker),
    }
}

fn impact_stage(indices: Vec<SkillActionIndex>, event: SkillEvent) -> (s: SkillStage)
    ensures
        s.model() == impact_model(indices@, event),
{
    SkillStage { stage: SkillStageAction::Impact(indices), advancing_event: event }
}

fn projectile_stage() -> (s: SkillStage)
    ensures
        s.model() == projectile_model(),
{
    SkillStage {
        stage: SkillStageAction::Cast(CastingData::Projectile(SpriteId(6), SkillAnimationId(1))),
        advancing_event: SkillEvent::ProjectileImpact(SkillAnimationId(1)),
    }
}

fn tile_sprite_stage(sprite: u32, animated_sprite: u32, anim: u32) -> (s: SkillStage)
    ensures
        s.model() == tile_sprite_model(sprite, animated_sprite, anim),
{
    SkillStage {
        stage: SkillStageAction::Cast(
            CastingData::TileSprite(
                SpriteId(sprite),
                AnimationKey {
                    animated_sprite_id: AnimatedSpriteId(animated_sprite),
                    animation_id: RegisteredAnimationId { id: 1, priority: AnimationPriority::Combat },
                },
                SkillAnimationId(anim),
            ),
        ),
        advancing_event: SkillEvent::AnimationMarker(SkillAnimationId(anim), AnimationMarker::HitFrame),
    }
}

/// The skill lists of the built-in categories.
pub open spec fn built_in_skills_by_category() -> Map<SkillCategoryId, Seq<SkillId>> {
    map![
        SkillCategoryId(0) => seq![SkillId(1)],
        SkillCategoryId(1) => seq![SkillId(2), SkillId(8)],
        SkillCategoryId(2) => Seq::<SkillId>::empty(),
        SkillCategoryId(3) => seq![SkillId(4), SkillId(7)],
        SkillCategoryId(4) => Seq::<SkillId>::empty(),
        SkillCategoryId(5) => seq![SkillId(5), SkillId(6)],
        SkillCategoryId(6) => seq![SkillId(3)],
    ]
}

/// The category of each built-in skill.
pub open spec fn built_in_category_by_skills() -> Map<SkillId, SkillCategoryId> {
    map![
        SkillId(1) => SkillCategoryId(0),
        SkillId(2) => SkillCategoryId(1),
        SkillId(3) => SkillCategoryId(6),
        SkillId(4) => SkillCategoryId(3),
        SkillId(5) => SkillCategoryId(5),
        SkillId(6) => SkillCategoryId(5),
        SkillId(7) => SkillCategoryId(3),
        SkillId(8) => SkillCategoryId(1),
    ]
}

/// A damaging action with the given accuracy bits, power and stats.
pub open spec fn damaging_model(accuracy_bits: u32, power: u32, offensive: AttackModifier, defensive: AttackModifier) -> (u32, ActionKind) {
    (accuracy_bits, ActionKind::Damaging(DamagingSkill { power, offensive_modifier: offensive, defensive_modifier: defensive }))
}

/// A physical strike of `power` that always hits.
pub open spec fn physical_model(power: u32) -> (u32, ActionKind) {
    damaging_model(FULL_ACCURACY_BITS, power, AttackModifier::PhysicalAttack, AttackModifier::PhysicalResistance)
}

/// An action that always lands and inflicts `tag` for three turns.
pub open spec fn status_model(tag: StatusTag) -> (u32, ActionKind) {
    (
        FULL_ACCURACY_BITS,
        ActionKind::Effects(seq![EffectData { effect_type: EffectType::StatusInfliction(tag), duration: EffectDuration::TurnCount(3) }]),
    )
}

/// The caster plays `kind` as skill animation `anim`; the stage ends at
/// `marker` of that animation.
pub open spec fn unit_attack_model(anim: u32, kind: UnitAnimationKind, marker: AnimationMarker) -> (StageModel, SkillEvent) {
    (StageModel::UnitAttack(SkillAnimationId(anim), kind), SkillEvent::AnimationMarker(SkillAnimationId(anim), marker))
}

/// The actions at `indices` land; the stage ends at `event`.
pub open spec fn impact_model(indices: Seq<SkillActionIndex>, event: SkillEvent) -> (StageModel, SkillEvent) {
    (StageModel::Impact(indices), event)
}

/// A projectile (sprite 6) flies as skill animation 1 and ends the stage
/// when it hits.
pub open spec fn projectile_model() -> (StageModel, SkillEvent) {
    (StageModel::Cast(CastingData::Projectile(SpriteId(6), SkillAnimationId(1))), SkillEvent::ProjectileImpact(SkillAnimationId(1)))
}

/// Sprite `sprite` plays the combat animation of `animated_sprite` on the
/// target's tile as skill animation `anim`; the stage ends at its hit frame.
pub open spec fn tile_sprite_model(sprite: u32, animated_sprite: u32, anim: u32) -> (StageModel, SkillEvent) {
    (
        StageModel::Cast(
            CastingData::TileSprite(
                SpriteId(sprite),
                AnimationKey {
                    animated_sprite_id: AnimatedSpriteId(animated_sprite),
                    animation_id: RegisteredAnimationId { id: 1, priority: AnimationPriority::Combat },
                },
                SkillAnimationId(anim),
            ),
        ),
        SkillEvent::AnimationMarker(SkillAnimationId(anim), AnimationMarker::HitFrame),
    )
}

/// Each built-in skill (1 to 8), in full. Every one costs one action point.
pub open spec fn built_in_skill(id: u32) -> SkillModel {
    let one_ap = SkillCost { ap: 1 };
    if id == 1 {
        SkillModel {
            name: "Attack"@,
            actions: seq![physical_model(3)],
            targeting: Targeting::TargetInRange(1),
            stages: seq![
                unit_attack_model(1, UnitAnimationKind::Attack, AnimationMarker::HitFrame),
                impact_model(seq![SkillActionIndex(0)], SkillEvent::AnimationMarker(SkillAnimationId(1), AnimationMarker::Complete)),
            ],
            cost: one_ap,
        }
    } else if id == 2 {
        SkillModel {
            name: "Flame"@,
            actions: seq![damaging_model(FLAME_ACCURACY_BITS, 2, AttackModifier::FireAttack, AttackModifier::FireResistance)],
            targeting: Targeting::TargetInRange(3),
            stages: seq![
                unit_attack_model(1, UnitAnimationKind::Charge, AnimationMarker::Complete),
                unit_attack_model(2, UnitAnimationKind::Release, AnimationMarker::Complete),
                tile_sprite_model(5, FLAME_VFX_ANIMATED_SPRITE_ID, 3),
                impact_model(
                    seq![SkillActionIndex(0), SkillActionIndex(1)],
                    SkillEvent::AnimationMarker(SkillAnimationId(3), AnimationMarker::Complete),
                ),
            ],
            cost: one_ap,
        }
    } else if id == 3 {
        SkillModel {
            name: "Hit em Twice"@,
            actions: seq![physical_model(3), physical_model(5)],
            targeting: Targeting::TargetInRange(1),
            stages: seq![
                unit_attack_model(1, UnitAnimationKind::Attack, AnimationMarker::HitFrame),
                impact_model(seq![SkillActionIndex(0)], SkillEvent::AnimationMarker(SkillAnimationId(1), AnimationMarker::Complete)),
                unit_attack_model(2, UnitAnimationKind::Attack, AnimationMarker::HitFrame),
                impact_model(seq![SkillActionIndex(1)], SkillEvent::AnimationMarker(SkillAnimationId(2), AnimationMarker::Complete)),
            ],
            cost: one_ap,
        }
    } else if id == 4 {
        SkillModel {
            name: "Lob Attack"@,
            actions: seq![physical_model(3)],
            targeting: Targeting::TargetInRange(5),
            stages: seq![projectile_model(), impact_model(seq![SkillActionIndex(0)], SkillEvent::ProjectileImpact(SkillAnimationId(1)))],
            cost: one_ap,
        }
    } else if id == 5 {
        SkillModel {
            name: "Poison Shot"@,
            actions: seq![physical_model(1), status_model(StatusTag::Poisoned)],
            targeting: Targeting::TargetInRange(5),
            stages: seq![
                projectile_model(),
                impact_model(seq![SkillActionIndex(0), SkillActionIndex(1)], SkillEvent::ProjectileImpact(SkillAnimationId(1))),
            ],
            cost: one_ap,
        }
    } else if id == 6 {
        SkillModel {
            name: "Stun Shot"@,
            actions: seq![physical_model(1), status_model(StatusTag::Stunned)],
            targeting: Targeting::TargetInRange(5),
            stages: seq![projectile_model(), impact_model(seq![SkillActionIndex(0)], SkillEvent::ProjectileImpact(SkillAnimationId(1)))],
            cost: one_ap,
        }
    } else if id == 7 {
        SkillModel {
            name: "Take Poison Damage"@,
            actions: seq![damaging_model(FULL_ACCURACY_BITS, 2, AttackModifier::Unmodified, AttackModifier::Unmodified)],
            targeting: Targeting::TargetInRange(0),
            stages: seq![
                tile_sprite_model(7, POISON_VFX_ANIMATED_SPRITE_ID, 1),
                impact_model(seq![SkillActionIndex(0)], SkillEvent::AnimationMarker(SkillAnimationId(1), AnimationMarker::Complete)),
            ],
            cost: one_ap,
        }
    } else {
        SkillModel {
            name: "Heal"@,
            actions: seq![
                (
                    FULL_ACCURACY_BITS,
                    ActionKind::Healing(
                        DamagingSkill { power: 5, offensive_modifier: AttackModifier::Unmodified, defensive_modifier: AttackModifier::Unmodified },
                    ),
                ),
            ],
            targeting: Targeting::TargetInRange(0),
            stages: seq![
                unit_attack_model(1, UnitAnimationKind::Charge, AnimationMarker::Complete),
                unit_attack_model(2, UnitAnimationKind::Release, AnimationMarker::Complete),
                impact_model(seq![SkillActionIndex(0)], SkillEvent::AnimationMarker(SkillAnimationId(2), AnimationMarker::Complete)),
            ],
            cost: one_ap,
        }
    }
}

/// The names of the built-in categories.
pub open spec fn built_in_category_name(id: u32) -> Seq<char> {
    if id == 0 {
        "Base"@
    } else if id == 1 {
        "Primal Arts"@
    } else if id == 2 {
        "Items"@
    } else if id == 3 {
        "Dev Category"@
    } else if id == 4 {
        "Gallantry"@
    } else if id == 5 {
        "Marksmanship"@
    } else {
        "Sword Arts"@
    }
}

/// What `build_skill_table` registers.
pub open spec fn is_built_in_table(db: SkillDB) -> bool {
    &&& db.skills_by_category() == built_in_skills_by_category()
    &&& db.category_by_skills() == built_in_category_by_skills()
    &&& forall|c: SkillCategoryId| #[trigger] db.skill_categories().contains_key(c) <==> c.0 <= 6
    &&& forall|c: SkillCategoryId| c.0 <= 6 ==> (#[trigger] db.skill_categories()[c]).name@ == built_in_category_name(c.0)
    &&& forall|s: SkillId| #[trigger] db.skills().contains_key(s) <==> 1 <= s.0 <= 8
    &&& forall|s: SkillId| 1 <= s.0 <= 8 ==> (#[trigger] db.skills()[s]).model() == built_in_skill(s.0)
}

fn attack_skill() -> (s: Skill)
    ensures
        s.model() == built_in_skill(1),
{
    let s = Skill {
        name: "Attack".to_string(),
        actions: vec![damaging_action(FULL_ACCURACY_BITS, 3, AttackModifier::PhysicalAttack, AttackModifier::PhysicalResistance)],
        targeting: Targeting::TargetInRange(1),
        animation_data: vec![
            unit_attack_stage(1, UnitAnimationKind::Attack, AnimationMarker::HitFrame),
            impact_stage(vec![SkillActionIndex(0)], SkillEvent::AnimationMarker(SkillAnimationId(1), AnimationMarker::Complete)),
        ],
        cost: SkillCost { ap: 1 },
    };
    proof {
        let m = built_in_skill(1);
        assert(s.model().actions =~~= m.actions);
        assert(s.model().stages =~~= m.stages);
    }
    s
}

fn flame_skill() -> (s: Skill)
    ensures
        s.model() == built_in_skill(2),
{
    let s = Skill {
        name: "Flame".to_string(),
        actions: vec![damaging_action(FLAME_ACCURACY_BITS, 2, AttackModifier::FireAttack, AttackModifier::FireResistance)],
        targeting: Targeting::TargetInRange(3),
        animation_data: vec![
            unit_attack_stage(1, UnitAnimationKind::Charge, AnimationMarker::Complete),
            unit_attack_stage(2, UnitAnimationKind::Release, AnimationMarker::Complete),
            tile_sprite_stage(5, FLAME_VFX_ANIMATED_SPRITE_ID, 3),
            impact_stage(
                vec![SkillActionIndex(0), SkillActionIndex(1)],
                SkillEvent::AnimationMarker(SkillAnimationId(3), AnimationMarker::Complete),
            ),
        ],
        cost: SkillCost { ap: 1 },
    };
    proof {
        let m = built_in_skill(2);
        assert(s.model().actions =~~= m.actions);
        assert(s.model().stages =~~= m.stages);
    }
    s
}

fn hit_twice_skill() -> (s: Skill)
    ensures
        s.model() == built_in_skill(3),
{
    let s = Skill {
        name: "Hit em Twice".to_string(),
        actions: vec![
            damaging_action(FULL_ACCURACY_BITS, 3, AttackModifier::PhysicalAttack, AttackModifier::PhysicalResistance),
            damaging_action(FULL_ACCURACY_BITS, 5, AttackModifier::PhysicalAttack, AttackModifier::PhysicalResistance),
        ],
        targeting: Targeting::TargetInRange(1),
        animation_data: vec![
            unit_attack_stage(1, UnitAnimationKind::Attack, AnimationMarker::HitFrame),
            impact_stage(vec![SkillActionIndex(0)], SkillEvent::AnimationMarker(SkillAnimationId(1), AnimationMarker::Complete)),
            unit_attack_stage(2, UnitAnimationKind::Attack, AnimationMarker::HitFrame),
            impact_stage(vec![SkillActionIndex(1)], SkillEvent::AnimationMarker(SkillAnimationId(2), AnimationMarker::Complete)),
        ],
        cost: SkillCost { ap: 1 },
    };
    proof {
        let m = built_in_skill(3);
        assert(s.model().actions =~~= m.actions);
        assert(s.model().stages =~~= m.stages);
    }
    s
}

fn lob_attack_skill() -> (s: Skill)
    ensures
        s.model() == built_in_skill(4),
{
    let s = Skill {
        name: "Lob Attack".to_string(),
        actions: vec![damaging_action(FULL_ACCURACY_BITS, 3, AttackModifier::PhysicalAttack, AttackModifier::PhysicalResistance)],
        targeting: Targeting::TargetInRange(5),
        animation_data: vec![
            projectile_stage(),
            impact_stage(vec![SkillActionIndex(0)], SkillEvent::ProjectileImpact(SkillAnimationId(1))),
        ],
        cost: SkillCost { ap: 1 },
    };
    proof {
        let m = built_in_skill(4);
        assert(s.model().actions =~~= m.actions);
        assert(s.model().stages =~~= m.stages);
    }
    s
}

fn status_shot_skill(stun: bool) -> (s: Skill)
    ensures
        s.model() == built_in_skill(if stun { 6 } else { 5 }),
{
    let tag = if stun {
        crate::gameplay_effects::StatusTag::Stunned
    } else {
        crate::gameplay_effects::StatusTag::Poisoned
    };
    let impact_indices = if stun {
        vec![SkillActionIndex(0)]
    } else {
        vec![SkillActionIndex(0), SkillActionIndex(1)]
    };
    let s = Skill {
        name: if stun {
            "Stun Shot".to_string()
        } else {
            "Poison Shot".to_string()
        },
        actions: vec![
            damaging_action(FULL_ACCURACY_BITS, 1, AttackModifier::PhysicalAttack, AttackModifier::PhysicalResistance),
            SkillAction {
                base_accuracy_bits: FULL_ACCURACY_BITS,
                action_type: SkillActionType::ApplyEffects {
                    effects: vec![
                        EffectData {
                            effect_type: crate::gameplay_effects::EffectType::StatusInfliction(tag),
                            duration: crate::gameplay_effects::EffectDuration::TurnCount(3),
                        },
                    ],
                },
            },
        ],
        targeting: Targeting::TargetInRange(5),
        animation_data: vec![
            projectile_stage(),
            impact_stage(impact_indices, SkillEvent::ProjectileImpact(SkillAnimationId(1))),
        ],
        cost: SkillCost { ap: 1 },
    };
    proof {
        let m = built_in_skill(if stun { 6 } else { 5 });
        assert(s.model().actions =~~= m.actions);
        assert(s.model().stages =~~= m.stages);
    }
    s
}

fn poison_damage_skill() -> (s: Skill)
    ensures
        s.model() == built_in_skill(7),
{
    let s = Skill {
        name: "Take Poison Damage".to_string(),
        actions: vec![damaging_action(FULL_ACCURACY_BITS, 2, AttackModifier::Unmodified, AttackModifier::Unmodified)],
        targeting: Targeting::TargetInRange(0),
        animation_data: vec![
            tile_sprite_stage(7, POISON_VFX_ANIMATED_SPRITE_ID, 1),
            impact_stage(vec![SkillActionIndex(0)], SkillEvent::AnimationMarker(SkillAnimationId(1), AnimationMarker::Complete)),
        ],
        cost: SkillCost { ap: 1 },
    };
    proof {
        let m = built_in_skill(7);
        assert(s.model().actions =~~= m.actions);
        assert(s.model().stages =~~= m.stages);
    }
    s
}

fn heal_skill() -> (s: Skill)
    ensures
        s.model() == built_in_skill(8),
{
    let s = Skill {
        name: "Heal".to_string(),
        actions: vec![
            SkillAction {
                base_accuracy_bits: FULL_ACCURACY_BITS,
                action_type: SkillActionType::HealingSkill {
                    scaled_damage: DamagingSkill { power: 5, offensive_modifier: AttackModifier::Unmodified, defensive_modifier: AttackModifier::Unmodified },
                },
            },
        ],
        targeting: Targeting::TargetInRange(0),
        animation_data: vec![
            unit_attack_stage(1, UnitAnimationKind::Charge, AnimationMarker::Complete),
            unit_attack_stage(2, UnitAnimationKind::Release, AnimationMarker::Complete),
            impact_stage(vec![SkillActionIndex(0)], SkillEvent::AnimationMarker(SkillAnimationId(2), AnimationMarker::Complete)),
        ],
        cost: SkillCost { ap: 1 },
    };
    proof {
        let m = built_in_skill(8);
        assert(s.model().actions =~~= m.actions);
        assert(s.model().stages =~~= m.stages);
    }
    s
}

fn category(name: &str) -> (c: SkillCategory)
    ensures
        c.name@ == name@,
{
    SkillCategory { name: name.to_string() }
}

/// The built-in table: seven categories (0 to 6) and eight skills (1 to 8).
/// Every registration succeeds.
pub fn build_skill_table() -> (r: Result<SkillDB, SkillDbError>)
    ensures
        r matches Ok(db) && is_built_in_table(db),
{
    let mut db = SkillDB::new();
    proof {
        reveal_strlit("Base");
        reveal_strlit("Primal Arts");
        reveal_strlit("Items");
        reveal_strlit("Dev Category");
        reveal_strlit("Gallantry");
        reveal_strlit("Marksmanship");
        reveal_strlit("Sword Arts");
    }
    db.register_category(SkillCategoryId(0), category("Base"))?;
    db.register_skill(SkillCategoryId(0), SkillId(1), attack_skill())?;
    db.register_category(SkillCategoryId(1), category("Primal Arts"))?;
    db.register_category(SkillCategoryId(2), category("Items"))?;
    db.register_category(SkillCategoryId(3), category("Dev Category"))?;
    db.register_category(SkillCategoryId(4), category("Gallantry"))?;
    db.register_category(SkillCategoryId(5), category("Marksmanship"))?;
    db.register_category(SkillCategoryId(6), category("Sword Arts"))?;
    db.register_skill(SkillCategoryId(1), SkillId(2), flame_skill())?;
    db.register_skill(SkillCategoryId(6), SkillId(3), hit_twice_skill())?;
    db.register_skill(SkillCategoryId(3), SkillId(4), lob_attack_skill())?;
    db.register_skill(SkillCategoryId(5), SkillId(5), status_shot_skill(false))?;
    db.register_skill(SkillCategoryId(5), SkillId(6), status_shot_skill(true))?;
    db.register_skill(SkillCategoryId(3), SkillId(7), poison_damage_skill())?;
    db.register_skill(SkillCategoryId(1), SkillId(8), heal_skill())?;
    proof {
        assert(db.skills_by_category() =~~= built_in_skills_by_category());
        assert(db.category_by_skills() =~= built_in_category_by_skills());
    }
    Ok(db)
}

} // verus!
