//! Combat: damage and healing from skills, the staged timeline that an
//! attack plays through, and what an impact does to the defender.
use vstd::prelude::*;
use crate::animation::{AnimationMarker, CombatAnimationId, UnitAnimationKind};
use crate::gameplay_effects::{apply_effect_spec, ActiveEffects, Effect, EffectData, EffectMetadata};
use crate::grid::GridPosition;
use crate::unit::{ElementalType, Stats, Unit};
use self::skills::{ActionKind, AttackModifier, CastingData, DamagingSkill, Skill, SkillAction, SkillActionType, SkillEvent, SkillStageAction, action_models, kinds};

pub mod skills;

verus! {

/// The stat `modifier` reads from `stats`.
pub open spec fn select_stat_spec(modifier: AttackModifier, stats: Stats) -> int {
    match modifier {
        AttackModifier::PhysicalAttack => stats.strength as int,
        AttackModifier::PhysicalResistance => stats.defense as int,
        AttackModifier::FireAttack => stats.magic_power + stats.affinity_spec(ElementalType::Fire),
        AttackModifier::FireResistance => stats.defense + stats.affinity_spec(ElementalType::Fire),
        AttackModifier::Unmodified => 0,
    }
}

/// The stat `modifier` reads: strength, defense, magic power plus fire
/// affinity, defense plus fire affinity, or nothing.
pub fn select_stat(modifier: AttackModifier, stats: &Stats) -> (v: u32)
    requires
        select_stat_spec(modifier, *stats) <= u32::MAX,
    ensures
        v == select_stat_spec(modifier, *stats),
{
    match modifier {
        AttackModifier::PhysicalAttack => stats.strength,
        AttackModifier::PhysicalResistance => stats.defense,
        AttackModifier::FireAttack => stats.magic_power + stats.affinity(ElementalType::Fire),
        AttackModifier::FireResistance => stats.defense + stats.affinity(ElementalType::Fire),
        AttackModifier::Unmodified => 0,
    }
}

/// The attacker's bonus for a part of a skill (none without an attacker).
pub open spec fn bonus_spec(attacker: Option<Stats>, d: DamagingSkill) -> int {
    match attacker {
        Some(s) => select_stat_spec(d.offensive_modifier, s),
        None => 0,
    }
}

/// What one part of a skill deals: power plus bonus minus the defender's stat.
pub open spec fn term_spec(attacker: Option<Stats>, defender: Stats, d: DamagingSkill) -> int {
    d.power + bonus_spec(attacker, d) - select_stat_spec(d.defensive_modifier, defender)
}

/// A part of a skill can be computed in `u32` without wrapping.
pub open spec fn term_fits(attacker: Option<Stats>, defender: Stats, d: DamagingSkill) -> bool {
    &&& bonus_spec(attacker, d) <= u32::MAX
    &&& select_stat_spec(d.defensive_modifier, defender) <= u32::MAX
    &&& d.power + bonus_spec(attacker, d) <= u32::MAX
    &&& select_stat_spec(d.defensive_modifier, defender) <= d.power + bonus_spec(attacker, d)
}

/// Total damage of the damaging actions.
pub open spec fn damage_total(attacker: Option<Stats>, defender: Stats, actions: Seq<ActionKind>) -> int
    decreases actions.len(),
{
    if actions.len() == 0 {
        0
    } else {
        damage_total(attacker, defender, actions.drop_last()) + match actions.last() {
            ActionKind::Damaging(d) => term_spec(attacker, defender, d),
            _ => 0,
        }
    }
}

/// Total healing of the healing actions.
pub open spec fn heal_total(attacker: Option<Stats>, defender: Stats, actions: Seq<ActionKind>) -> int
    decreases actions.len(),
{
    if actions.len() == 0 {
        0
    } else {
        heal_total(attacker, defender, actions.drop_last()) + match actions.last() {
            ActionKind::Healing(d) => term_spec(attacker, defender, d),
            _ => 0,
        }
    }
}

/// Every damaging and healing part can be computed without wrapping, and the
/// totals fit an `i32`.
pub open spec fn damage_fits(attacker: Option<Stats>, defender: Stats, actions: Seq<ActionKind>) -> bool {
    &&& forall|i: int| 0 <= i < actions.len() ==> match #[trigger] actions[i] {
        ActionKind::Damaging(d) => term_fits(attacker, defender, d),
        ActionKind::Healing(d) => term_fits(attacker, defender, d),
        ActionKind::Effects(_) => true,
    }
    &&& damage_total(attacker, defender, actions) <= i32::MAX
    &&& heal_total(attacker, defender, actions) <= i32::MAX
}

proof fn lemma_totals_monotone(attacker: Option<Stats>, defender: Stats, actions: Seq<ActionKind>, n: int)
    requires
        0 <= n <= actions.len(),
        forall|i: int| 0 <= i < actions.len() ==> match #[trigger] actions[i] {
            ActionKind::Damaging(d) => term_fits(attacker, defender, d),
            ActionKind::Healing(d) => term_fits(attacker, defender, d),
            ActionKind::Effects(_) => true,
        },
    ensures
        0 <= damage_total(attacker, defender, actions.take(n)) <= damage_total(attacker, defender, actions),
        0 <= heal_total(attacker, defender, actions.take(n)) <= heal_total(attacker, defender, actions),
    decreases actions.len() - n,
{
    if n < actions.len() {
        lemma_totals_monotone(attacker, defender, actions, n + 1);
        assert(actions.take(n + 1).drop_last() =~= actions.take(n));
        let a = actions[n];
        assert(actions.take(n + 1).last() == a);
        let p = actions.take(n);
        assert forall|i: int| 0 <= i < p.len() implies match #[trigger] p[i] {
            ActionKind::Damaging(d) => term_fits(attacker, defender, d),
            ActionKind::Healing(d) => term_fits(attacker, defender, d),
            ActionKind::Effects(_) => true,
        } by {
            assert(p[i] == actions[i]);
        }
        lemma_totals_nonneg(attacker, defender, p);
        match a {
            ActionKind::Damaging(d) => {
                assert(term_fits(attacker, defender, d));
            },
            ActionKind::Healing(d) => {
                assert(term_fits(attacker, defender, d));
            },
            ActionKind::Effects(_) => {},
        }
    } else {
        assert(actions.take(n) =~= actions);
        lemma_totals_nonneg(attacker, defender, actions);
    }
}

proof fn lemma_totals_nonneg(attacker: Option<Stats>, defender: Stats, actions: Seq<ActionKind>)
    requires
        forall|i: int| 0 <= i < actions.len() ==> match #[trigger] actions[i] {
            ActionKind::Damaging(d) => term_fits(attacker, defender, d),
            ActionKind::Healing(d) => term_fits(attacker, defender, d),
            ActionKind::Effects(_) => true,
        },
    ensures
        0 <= damage_total(attacker, defender, actions),
        0 <= heal_total(attacker, defender, actions),
    decreases actions.len(),
{
    if actions.len() > 0 {
        let p = actions.drop_last();
        assert forall|i: int| 0 <= i < p.len() implies match #[trigger] p[i] {
            ActionKind::Damaging(d) => term_fits(attacker, defender, d),
            ActionKind::Healing(d) => term_fits(attacker, defender, d),
            ActionKind::Effects(_) => true,
        } by {
            assert(p[i] == actions[i]);
        }
        lemma_totals_nonneg(attacker, defender, p);
        let a = actions[actions.len() - 1];
        match a {
            ActionKind::Damaging(d) => {
                assert(term_fits(attacker, defender, d));
            },
            ActionKind::Healing(d) => {
                assert(term_fits(attacker, defender, d));
            },
            ActionKind::Effects(_) => {},
        }
    }
}

/// A skill of one damaging part `d` heals nothing and deals its power plus
/// the attacker's offensive stat minus the defender's defensive stat: a
/// physical part pits strength against defense; a fire part pits magic power
/// plus fire affinity against defense plus fire affinity; an unmodified part
/// reads no stat; without an attacker there is no bonus.
pub proof fn lemma_one_part_damage(attacker: Option<Stats>, defender: Stats, d: DamagingSkill)
    ensures
        heal_total(attacker, defender, seq![ActionKind::Damaging(d)]) == 0,
        attacker is Some && d.offensive_modifier == AttackModifier::PhysicalAttack
            && d.defensive_modifier == AttackModifier::PhysicalResistance ==> damage_total(attacker, defender, seq![ActionKind::Damaging(d)])
            == d.power + attacker->0.strength - defender.defense,
        attacker is Some && d.offensive_modifier == AttackModifier::FireAttack
            && d.defensive_modifier == AttackModifier::FireResistance ==> damage_total(attacker, defender, seq![ActionKind::Damaging(d)])
            == d.power + attacker->0.magic_power + attacker->0.affinity_spec(ElementalType::Fire) - defender.defense - defender.affinity_spec(ElementalType::Fire),
        d.offensive_modifier == AttackModifier::Unmodified && d.defensive_modifier == AttackModifier::Unmodified
            ==> damage_total(attacker, defender, seq![ActionKind::Damaging(d)]) == d.power,
        attacker is None && d.defensive_modifier == AttackModifier::PhysicalResistance
            ==> damage_total(attacker, defender, seq![ActionKind::Damaging(d)]) == d.power - defender.defense,
{
    let s = seq![ActionKind::Damaging(d)];
    assert(s.drop_last() =~= Seq::<ActionKind>::empty());
    assert(s.last() == ActionKind::Damaging(d));
    assert(damage_total(attacker, defender, s.drop_last()) == 0);
    assert(heal_total(attacker, defender, s.drop_last()) == 0);
}

/// A skill of one healing part `d` deals nothing and heals its power plus
/// the healer's offensive stat minus the target's defensive stat; an
/// unmodified part heals exactly its power.
pub proof fn lemma_one_part_healing(attacker: Option<Stats>, defender: Stats, d: DamagingSkill)
    ensures
        damage_total(attacker, defender, seq![ActionKind::Healing(d)]) == 0,
        d.offensive_modifier == AttackModifier::Unmodified && d.defensive_modifier == AttackModifier::Unmodified
            ==> heal_total(attacker, defender, seq![ActionKind::Healing(d)]) == d.power,
        attacker is Some && d.offensive_modifier == AttackModifier::FireAttack
            && d.defensive_modifier == AttackModifier::Unmodified ==> heal_total(attacker, defender, seq![ActionKind::Healing(d)])
            == d.power + attacker->0.magic_power + attacker->0.affinity_spec(ElementalType::Fire),
{
    let s = seq![ActionKind::Healing(d)];
    assert(s.drop_last() =~= Seq::<ActionKind>::empty());
    assert(s.last() == ActionKind::Healing(d));
    assert(damage_total(attacker, defender, s.drop_last()) == 0);
    assert(heal_total(attacker, defender, s.drop_last()) == 0);
}

/// The damage and healing of a skill add up over its parts: those of the
/// first parts plus those of the last.
pub proof fn lemma_totals_add_up(attacker: Option<Stats>, defender: Stats, first: Seq<ActionKind>, last: ActionKind)
    ensures
        damage_total(attacker, defender, first.push(last)) == damage_total(attacker, defender, first) + damage_total(
            attacker,
            defender,
            seq![last],
        ),
        heal_total(attacker, defender, first.push(last)) == heal_total(attacker, defender, first) + heal_total(
            attacker,
            defender,
            seq![last],
        ),
{
    assert(first.push(last).drop_last() =~= first);
    assert(seq![last].drop_last() =~= Seq::<ActionKind>::empty());
    assert(damage_total(attacker, defender, seq![last].drop_last()) == 0);
    assert(heal_total(attacker, defender, seq![last].drop_last()) == 0);
}

fn part_value(attacker: Option<&Unit>, defender: &Unit, d: &DamagingSkill) -> (v: u32)
    requires
        term_fits(
            match attacker {
                Some(u) => Some(u.stats),
                None => None,
            },
            defender.stats,
            *d,
        ),
    ensures
        v == term_spec(
            match attacker {
                Some(u) => Some(u.stats),
                None => None,
            },
            defender.stats,
            *d,
        ),
{
    let bonus_attack = match attacker {
        Some(t) => select_stat(d.offensive_modifier, &t.stats),
        None => 0,
    };
    let defense = select_stat(d.defensive_modifier, &defender.stats);
    d.power + bonus_attack - defense
}

/// Healing minus damage of a skill's actions: each damaging (healing) part
/// deals (heals) its power plus the attacker's offensive stat minus the
/// defender's defensive stat; without an attacker there is no bonus.
pub fn calculate_damage(attacker: Option<&Unit>, defender: &Unit, skill_actions: &Vec<SkillAction>) -> (r: i32)
    requires
        damage_fits(
            match attacker {
                Some(u) => Some(u.stats),
                None => None,
            },
            defender.stats,
            kinds(skill_actions@),
        ),
    ensures
        r == heal_total(
            match attacker {
                Some(u) => Some(u.stats),
                None => None,
            },
            defender.stats,
            kinds(skill_actions@),
        ) - damage_total(
            match attacker {
                Some(u) => Some(u.stats),
                None => None,
            },
            defender.stats,
            kinds(skill_actions@),
        ),
{
    let ghost att = match attacker {
        Some(u) => Some(u.stats),
        None => None,
    };
    let ghost ks = kinds(skill_actions@);
    let mut damage: u32 = 0;
    let mut healing: u32 = 0;
    let mut i: usize = 0;
    while i < skill_actions.len()
        invariant
            i <= skill_actions@.len(),
            ks == kinds(skill_actions@),
            att == match attacker {
                Some(u) => Some(u.stats),
                None => None,
            },
            damage_fits(att, defender.stats, ks),
            damage == damage_total(att, defender.stats, ks.take(i as int)),
        decreases skill_actions@.len() - i,
    {
        proof {
            assert(ks.take(i + 1).drop_last() =~= ks.take(i as int));
            assert(ks[i as int] == skill_actions@[i as int].kind());
            lemma_totals_monotone(att, defender.stats, ks, i + 1);
        }
        if let SkillActionType::DamagingSkill { scaled_damage } = &skill_actions[i].action_type {
            proof {
                assert(ks[i as int] == ActionKind::Damaging(*scaled_damage));
            }
            damage = damage + part_value(attacker, defender, scaled_damage);
        }
        i = i + 1;
    }
    let mut j: usize = 0;
    while j < skill_actions.len()
        invariant
            j <= skill_actions@.len(),
            ks == kinds(skill_actions@),
            att == match attacker {
                Some(u) => Some(u.stats),
                None => None,
            },
            damage_fits(att, defender.stats, ks),
            healing == heal_total(att, defender.stats, ks.take(j as int)),
        decreases skill_actions@.len() - j,
    {
        proof {
            assert(ks.take(j + 1).drop_last() =~= ks.take(j as int));
            assert(ks[j as int] == skill_actions@[j as int].kind());
            lemma_totals_monotone(att, defender.stats, ks, j + 1);
        }
        if let SkillActionType::HealingSkill { scaled_damage } = &skill_actions[j].action_type {
            proof {
                assert(ks[j as int] == ActionKind::Healing(*scaled_damage));
            }
            healing = healing + part_value(attacker, defender, scaled_damage);
        }
        j = j + 1;
    }
    proof {
        assert(ks.take(skill_actions@.len() as int) =~= ks);
    }
    healing as i32 - damage as i32
}

/// Defender health after a change of `change`: damage stops at zero,
/// healing stops at max health.
pub open spec fn health_after(health: int, max_health: int, change: int) -> int {
    if change < 0 {
        if health + change < 0 {
            0
        } else {
            health + change
        }
    } else if change > 0 {
        if health + change > max_health {
            max_health
        } else {
            health + change
        }
    } else {
        health
    }
}

/// A defender's health stays between zero and its maximum: damage lowers it
/// by the damage, stopping at zero; healing raises it by the healing,
/// stopping at the maximum; no change leaves it.
pub proof fn lemma_health_stays_in_bounds(health: int, max_health: int, change: int)
    requires
        0 <= health <= max_health,
    ensures
        0 <= health_after(health, max_health, change) <= max_health,
        change <= 0 ==> health_after(health, max_health, change) == if health + change < 0 {
            0
        } else {
            health + change
        },
        change >= 0 ==> health_after(health, max_health, change) == if health + change > max_health {
            max_health
        } else {
            health + change
        },
{
}

/// `effects` after applying each of `datas` in turn, as caused by `meta`.
pub open spec fn apply_datas(effects: Seq<Effect>, datas: Seq<EffectData>, meta: EffectMetadata) -> Seq<Effect>
    decreases datas.len(),
{
    if datas.len() == 0 {
        effects
    } else {
        apply_effect_spec(apply_datas(effects, datas.drop_last(), meta), Effect { metadata: meta, data: datas.last() })
    }
}

/// `effects` after applying the effects of every effect-applying action in
/// turn.
pub open spec fn apply_action_effects(effects: Seq<Effect>, actions: Seq<ActionKind>, meta: EffectMetadata) -> Seq<Effect>
    decreases actions.len(),
{
    if actions.len() == 0 {
        effects
    } else {
        let prev = apply_action_effects(effects, actions.drop_last(), meta);
        match actions.last() {
            ActionKind::Effects(datas) => apply_datas(prev, datas, meta),
            _ => prev,
        }
    }
}

/// What an impact led to: the health change to announce (zero for none)
/// and the animation the defender reacts with.
#[derive(Clone, Copy, PartialEq, Eq, Structural, Debug)]
pub struct ImpactOutcome {
    pub health_changed: i32,
    pub reaction: Option<UnitAnimationKind>,
}

/// Lands a skill's actions on the defender: its health moves by healing
/// minus damage (not below zero, not above max health), it reacts with a
/// hurt animation to damage and with a release animation to healing, and
/// each effect of the skill is applied to it, caused by the attacker.
pub fn resolve_impact(
    attacker: Option<&Unit>,
    attacker_entity: Option<u64>,
    defender: &mut Unit,
    defender_entity: u64,
    defender_effects: &mut ActiveEffects,
    skill_actions: &Vec<SkillAction>,
) -> (out: ImpactOutcome)
    requires
        damage_fits(
            match attacker {
                Some(u) => Some(u.stats),
                None => None,
            },
            old(defender).stats,
            kinds(skill_actions@),
        ),
        old(defender).stats.health + heal_total(
            match attacker {
                Some(u) => Some(u.stats),
                None => None,
            },
            old(defender).stats,
            kinds(skill_actions@),
        ) <= u32::MAX,
    ensures
        ({
            let att = match attacker {
                Some(u) => Some(u.stats),
                None => None,
            };
            let change = heal_total(att, old(defender).stats, kinds(skill_actions@)) - damage_total(
                att,
                old(defender).stats,
                kinds(skill_actions@),
            );
            &&& out.health_changed == change
            &&& out.reaction == (if change < 0 {
                Some(UnitAnimationKind::TakeDamage)
            } else if change > 0 {
                Some(UnitAnimationKind::Release)
            } else {
                None::<UnitAnimationKind>
            })
            &&& final(defender).stats.health == health_after(
                old(defender).stats.health as int,
                old(defender).stats.max_health as int,
                change,
            )
        }),
        final(defender).stats.max_health == old(defender).stats.max_health,
        final(defender).stats.strength == old(defender).stats.strength,
        final(defender).stats.magic_power == old(defender).stats.magic_power,
        final(defender).stats.defense == old(defender).stats.defense,
        final(defender).stats.movement == old(defender).stats.movement,
        final(defender).stats.elemental_affinities == old(defender).stats.elemental_affinities,
        final(defender).name == old(defender).name,
        final(defender).team == old(defender).team,
        final(defender).obstacle == old(defender).obstacle,
        final(defender_effects).effects@ == apply_action_effects(
            old(defender_effects).effects@,
            kinds(skill_actions@),
            EffectMetadata { target: defender_entity, source: attacker_entity },
        ),
{
    let damage = calculate_damage(attacker, defender, skill_actions);
    proof {
        let att = match attacker {
            Some(u) => Some(u.stats),
            None => None,
        };
        lemma_totals_nonneg(att, defender.stats, kinds(skill_actions@));
    }
    let mut reaction: Option<UnitAnimationKind> = None;
    if damage < 0 {
        let loss: u32 = (-(damage as i64)) as u32;
        defender.stats.health = defender.stats.health.saturating_sub(loss);
        reaction = Some(UnitAnimationKind::TakeDamage);
    }
    if damage > 0 {
        let raised = defender.stats.health + damage as u32;
        defender.stats.health = if defender.stats.max_health < raised {
            defender.stats.max_health
        } else {
            raised
        };
        reaction = Some(UnitAnimationKind::Release);
    }
    let meta = EffectMetadata { target: defender_entity, source: attacker_entity };
    let ghost ks = kinds(skill_actions@);
    let ghost start = defender_effects.effects@;
    let mut i: usize = 0;
    while i < skill_actions.len()
        invariant
            i <= skill_actions@.len(),
            ks == kinds(skill_actions@),
            defender_effects.effects@ == apply_action_effects(start, ks.take(i as int), meta),
        decreases skill_actions@.len() - i,
    {
        proof {
            assert(ks.take(i + 1).drop_last() =~= ks.take(i as int));
            assert(ks[i as int] == skill_actions@[i as int].kind());
        }
        if let SkillActionType::ApplyEffects { effects } = &skill_actions[i].action_type {
            let ghost before = defender_effects.effects@;
            let mut k: usize = 0;
            while k < effects.len()
                invariant
                    k <= effects@.len(),
                    defender_effects.effects@ == apply_datas(before, effects@.take(k as int), meta),
                decreases effects@.len() - k,
            {
                proof {
                    assert(effects@.take(k + 1).drop_last() =~= effects@.take(k as int));
                }
                defender_effects.apply_effect(Effect { metadata: meta, data: effects[k] });
                k = k + 1;
            }
            proof {
                assert(effects@.take(effects@.len() as int) =~= effects@);
            }
        }
        i = i + 1;
    }
    proof {
        assert(ks.take(skill_actions@.len() as int) =~= ks);
    }
    ImpactOutcome { health_changed: damage, reaction }
}

/// An event an attack waits for before it moves on.
#[derive(Clone, Copy, PartialEq, Eq, Structural, Debug)]
pub enum AttackExecutionTrigger {
    AnimationMarker(CombatAnimationId, AnimationMarker),
    ProjectileImpactEvent(CombatAnimationId),
}

#[derive(Clone, Copy, PartialEq, Eq, Structural, Debug, Hash)]
pub struct CombatStageId(pub u32);

/// One stage of an attack.
#[derive(Debug)]
pub enum CombatStage {
    /// The attacker (an entity) plays an animation.
    UnitAttack(u64, CombatAnimationId, UnitAnimationKind),
    /// Something is cast at a tile.
    Cast(GridPosition, CastingData),
    /// Actions land: attacker (if any), defender, actions.
    Impact(Option<u64>, u64, Vec<SkillAction>),
}

/// A request to attack `defender` with `skill`.
#[derive(Clone, Copy, PartialEq, Eq, Structural, Debug)]
pub struct AttackIntent {
    pub attacker: u64,
    pub defender: u64,
    pub skill: self::skills::SkillId,
}

/// The stages of an attack, numbered from 1, with the events each still
/// waits for; stage 0 is the start and waits for nothing.
/// `current_stage` is the stage being played.
pub struct CombatTimeline {
    current_stage: CombatStageId,
    stages: Vec<CombatStage>,
    conditions_to_advance: Vec<Vec<AttackExecutionTrigger>>,
}

/// The trigger a skill event becomes for the attack execution `ae`.
pub open spec fn trigger_for(ae: u64, e: SkillEvent) -> AttackExecutionTrigger {
    match e {
        SkillEvent::AnimationMarker(a, m) => AttackExecutionTrigger::AnimationMarker(
            CombatAnimationId { ae_id: ae, skill_animation_id: a.0 },
            m,
        ),
        SkillEvent::ProjectileImpact(a) => AttackExecutionTrigger::ProjectileImpactEvent(
            CombatAnimationId { ae_id: ae, skill_animation_id: a.0 },
        ),
    }
}

/// The actions at the listed indices, in order; indices past the end are
/// skipped.
pub open spec fn selected_actions<A>(actions: Seq<A>, indices: Seq<self::skills::SkillActionIndex>) -> Seq<A>
    decreases indices.len(),
{
    if indices.len() == 0 {
        Seq::empty()
    } else {
        let prev = selected_actions(actions, indices.drop_last());
        let i = indices.last().0 as int;
        if i < actions.len() {
            prev.push(actions[i])
        } else {
            prev
        }
    }
}

/// `stage` is what the skill stage `ss` becomes in an attack execution `ae`
/// by `attacker` (if any) on `defender` standing at `pos`.
pub open spec fn stage_matches(
    stage: CombatStage,
    ss: self::skills::SkillStage,
    skill_actions: Seq<SkillAction>,
    ae: u64,
    attacker: Option<u64>,
    defender: u64,
    pos: GridPosition,
) -> bool {
    match ss.stage {
        SkillStageAction::UnitAttack(a, kind) => attacker is Some && stage == CombatStage::UnitAttack(
            attacker.unwrap(),
            CombatAnimationId { ae_id: ae, skill_animation_id: a.0 },
            kind,
        ),
        SkillStageAction::Cast(c) => stage == CombatStage::Cast(pos, c),
        SkillStageAction::Impact(indices) => stage matches CombatStage::Impact(att, def, acts) && att == attacker
            && def == defender && action_models(acts@) == selected_actions(action_models(skill_actions), indices@),
    }
}

impl CombatTimeline {
    /// There is one list of conditions per stage, the start included.
    pub closed spec fn wf(self) -> bool {
        &&& self.conditions_to_advance@.len() == self.stages@.len() + 1
        &&& self.conditions_to_advance@.len() <= u32::MAX
    }

    /// The stage being played.
    pub closed spec fn current(self) -> u32 {
        self.current_stage.0
    }

    /// The number of stages after the start.
    pub closed spec fn stage_count(self) -> nat {
        self.stages@.len()
    }

    /// Stage `k`, for `1 <= k <= stage_count()`.
    pub closed spec fn stage(self, k: int) -> CombatStage {
        self.stages@[k - 1]
    }

    /// The events stage `k` still waits for, for `0 <= k <= stage_count()`.
    pub closed spec fn conditions(self, k: int) -> Seq<AttackExecutionTrigger> {
        self.conditions_to_advance@[k]@
    }

    /// The stage being played.
    pub fn current_stage(&self) -> (c: CombatStageId)
        ensures
            c.0 == self.current(),
    {
        self.current_stage
    }

    /// A timeline with only the start stage, which waits for nothing.
    pub fn new() -> (t: CombatTimeline)
        ensures
            t.wf(),
            t.current() == 0,
            t.stage_count() == 0,
            t.conditions(0) == Seq::<AttackExecutionTrigger>::empty(),
    {
        CombatTimeline {
            current_stage: CombatStageId(0),
            stages: Vec::new(),
            conditions_to_advance: vec![Vec::new()],
        }
    }

    /// The events a skill event turns into for the attack execution `ae_entity`.
    pub fn parse_triggers(ae_entity: u64, trigger: &SkillEvent) -> (v: Vec<AttackExecutionTrigger>)
        ensures
            v@ == seq![trigger_for(ae_entity, *trigger)],
    {
        let t = match trigger {
            SkillEvent::AnimationMarker(a, m) => AttackExecutionTrigger::AnimationMarker(CombatAnimationId::new(ae_entity, a.0), *m),
            SkillEvent::ProjectileImpact(a) => AttackExecutionTrigger::ProjectileImpactEvent(CombatAnimationId::new(ae_entity, a.0)),
        };
        let v = vec![t];
        assert(v@ =~= seq![trigger_for(ae_entity, *trigger)]);
        v
    }

    /// The timeline of `skill` used in the attack execution `ae_entity` by
    /// `attacker` (if any) on `defender` at `defender_grid_pos`: one stage per
    /// stage of the skill, each waiting for the skill stage's event. Returns
    /// `None` where a stage needs an attacker and there is none.
    fn build(ae_entity: u64, attacker: Option<u64>, defender: u64, skill: &Skill, defender_grid_pos: &GridPosition) -> (r: Option<CombatTimeline>)
        requires
            skill.animation_data@.len() < u32::MAX,
        ensures
            r is None <==> (attacker is None && exists|i: int| 0 <= i < skill.animation_data@.len()
                && #[trigger] skill.animation_data@[i].stage is UnitAttack),
            r matches Some(t) ==> {
                &&& t.wf()
                &&& t.current() == 0
                &&& t.stage_count() == skill.animation_data@.len()
                &&& t.conditions(0) == Seq::<AttackExecutionTrigger>::empty()
                &&& forall|i: int| 0 <= i < skill.animation_data@.len() ==> t.conditions(i + 1)
                    == seq![trigger_for(ae_entity, (#[trigger] skill.animation_data@[i]).advancing_event)]
                &&& forall|i: int| 0 <= i < skill.animation_data@.len() ==> stage_matches(
                    t.stage(i + 1),
                    #[trigger] skill.animation_data@[i],
                    skill.actions@,
                    ae_entity,
                    attacker,
                    defender,
                    *defender_grid_pos,
                )
            },
    {
        let mut stages: Vec<CombatStage> = Vec::new();
        let mut conditions: Vec<Vec<AttackExecutionTrigger>> = vec![Vec::new()];
        let n = skill.animation_data.len();
        let mut i: usize = 0;
        while i < n
            invariant
                n == skill.animation_data@.len(),
                n < u32::MAX,
                i <= n,
                stages@.len() == i,
                conditions@.len() == i + 1,
                conditions@[0]@ == Seq::<AttackExecutionTrigger>::empty(),
                forall|k: int| 0 <= k < i ==> #[trigger] conditions@[k + 1]@
                    == seq![trigger_for(ae_entity, skill.animation_data@[k].advancing_event)],
                forall|k: int| 0 <= k < i ==> stage_matches(
                    #[trigger] stages@[k],
                    skill.animation_data@[k],
                    skill.actions@,
                    ae_entity,
                    attacker,
                    defender,
                    *defender_grid_pos,
                ),
                attacker is None ==> forall|k: int| 0 <= k < i ==> !(#[trigger] skill.animation_data@[k].stage is UnitAttack),
            decreases n - i,
        {
            let skill_stage = &skill.animation_data[i];
            let stage = match &skill_stage.stage {
                SkillStageAction::UnitAttack(a, kind) => {
                    match attacker {
                        Some(att) => CombatStage::UnitAttack(att, CombatAnimationId::new(ae_entity, a.0), *kind),
                        None => {
                            return None;
                        },
                    }
                },
                SkillStageAction::Cast(c) => CombatStage::Cast(*defender_grid_pos, *c),
                SkillStageAction::Impact(indices) => {
                    let mut actions: Vec<SkillAction> = Vec::new();
                    let mut j: usize = 0;
                    while j < indices.len()
                        invariant
                            j <= indices@.len(),
                            action_models(actions@) == selected_actions(action_models(skill.actions@), indices@.take(j as int)),
                        decreases indices@.len() - j,
                    {
                        proof {
                            assert(indices@.take(j + 1).drop_last() =~= indices@.take(j as int));
                        }
                        let idx = indices[j].0;
                        if idx < skill.actions.len() {
                            let a = skill.actions[idx].duplicate();
                            let ghost before = actions@;
                            actions.push(a);
                            proof {
                                assert(action_models(actions@) =~= action_models(before).push(skill.actions@[idx as int].model()));
                            }
                        }
                        j = j + 1;
                    }
                    proof {
                        assert(indices@.take(indices@.len() as int) =~= indices@);
                    }
                    CombatStage::Impact(attacker, defender, actions)
                },
            };
            let triggers = Self::parse_triggers(ae_entity, &skill_stage.advancing_event);
            let ghost st_before = stages@;
            let ghost co_before = conditions@;
            stages.push(stage);
            conditions.push(triggers);
            proof {
                assert forall|k: int| 0 <= k < i + 1 implies #[trigger] conditions@[k + 1]@
                    == seq![trigger_for(ae_entity, skill.animation_data@[k].advancing_event)] by {
                    if k < i {
                        assert(conditions@[k + 1] == co_before[k + 1]);
                    }
                }
                assert forall|k: int| 0 <= k < i + 1 implies stage_matches(
                    #[trigger] stages@[k],
                    skill.animation_data@[k],
                    skill.actions@,
                    ae_entity,
                    attacker,
                    defender,
                    *defender_grid_pos,
                ) by {
                    if k < i {
                        assert(stages@[k] == st_before[k]);
                    }
                }
            }
            i = i + 1;
        }
        let t = CombatTimeline { current_stage: CombatStageId(0), stages, conditions_to_advance: conditions };
        proof {
            assert forall|k: int| 0 <= k < n implies #[trigger] t.conditions(k + 1)
                == seq![trigger_for(ae_entity, skill.animation_data@[k].advancing_event)] by {
                assert(conditions@[k + 1]@ == seq![trigger_for(ae_entity, skill.animation_data@[k].advancing_event)]);
            }
            assert forall|k: int| 0 <= k < n implies stage_matches(
                #[trigger] t.stage(k + 1),
                skill.animation_data@[k],
                skill.actions@,
                ae_entity,
                attacker,
                defender,
                *defender_grid_pos,
            ) by {
                assert(stage_matches(stages@[k], skill.animation_data@[k], skill.actions@, ae_entity, attacker, defender, *defender_grid_pos));
            }
        }
        Some(t)
    }

    /// The timeline of an attack by `attack_intent`'s attacker with `skill`:
    /// one stage per stage of the skill, each waiting for the skill stage's
    /// event.
    pub fn build_timeline_for_skill(ae_entity: u64, attack_intent: &AttackIntent, skill: &Skill, defender_grid_pos: &GridPosition) -> (t: CombatTimeline)
        requires
            skill.animation_data@.len() < u32::MAX,
        ensures
            t.wf(),
            t.current() == 0,
            t.stage_count() == skill.animation_data@.len(),
            t.conditions(0) == Seq::<AttackExecutionTrigger>::empty(),
            forall|i: int| 0 <= i < skill.animation_data@.len() ==> t.conditions(i + 1)
                == seq![trigger_for(ae_entity, (#[trigger] skill.animation_data@[i]).advancing_event)],
            forall|i: int| 0 <= i < skill.animation_data@.len() ==> stage_matches(
                t.stage(i + 1),
                #[trigger] skill.animation_data@[i],
                skill.actions@,
                ae_entity,
                Some(attack_intent.attacker),
                attack_intent.defender,
                *defender_grid_pos,
            ),
    {
        Self::build(ae_entity, Some(attack_intent.attacker), attack_intent.defender, skill, defender_grid_pos).unwrap()
    }

    /// The timeline of `skill` with no attacker (such as damage from a
    /// status): refused where a stage of the skill is an attacker's animation.
    pub fn build_without_attacker(ae_entity: u64, skill: &Skill, defender_e: u64, defender_grid_pos: &GridPosition) -> (r: Result<CombatTimeline, TimelineError>)
        requires
            skill.animation_data@.len() < u32::MAX,
        ensures
            r is Err <==> exists|i: int| 0 <= i < skill.animation_data@.len() && #[trigger] skill.animation_data@[i].stage is UnitAttack,
            r matches Err(e) ==> e == TimelineError::NeedsAttacker,
            r matches Ok(t) ==> {
                &&& t.wf()
                &&& t.current() == 0
                &&& t.stage_count() == skill.animation_data@.len()
                &&& t.conditions(0) == Seq::<AttackExecutionTrigger>::empty()
                &&& forall|i: int| 0 <= i < skill.animation_data@.len() ==> t.conditions(i + 1)
                    == seq![trigger_for(ae_entity, (#[trigger] skill.animation_data@[i]).advancing_event)]
                &&& forall|i: int| 0 <= i < skill.animation_data@.len() ==> stage_matches(
                    t.stage(i + 1),
                    #[trigger] skill.animation_data@[i],
                    skill.actions@,
                    ae_entity,
                    None,
                    defender_e,
                    *defender_grid_pos,
                )
            },
    {
        match Self::build(ae_entity, None, defender_e, skill, defender_grid_pos) {
            Some(t) => Ok(t),
            None => Err(TimelineError::NeedsAttacker),
        }
    }

    /// The event `trigger` happened: every stage stops waiting for it.
    pub fn clear_condition(&mut self, trigger: AttackExecutionTrigger)
        requires
            old(self).wf(),
        ensures
            final(self).wf(),
            final(self).current() == old(self).current(),
            final(self).stage_count() == old(self).stage_count(),
            forall|k: int| 1 <= k <= old(self).stage_count() ==> #[trigger] final(self).stage(k) == old(self).stage(k),
            forall|k: int| 0 <= k <= old(self).stage_count() ==> #[trigger] final(self).conditions(k)
                == old(self).conditions(k).filter(|t: AttackExecutionTrigger| t != trigger),
    {
        let ghost start = self.conditions_to_advance@;
        let mut conds: Vec<Vec<AttackExecutionTrigger>> = Vec::new();
        std::mem::swap(&mut conds, &mut self.conditions_to_advance);
        let n = conds.len();
        let mut k: usize = 0;
        while k < n
            invariant
                n == start.len(),
                conds@.len() == n,
                k <= n,
                forall|j: int| 0 <= j < k ==> #[trigger] conds@[j]@ == start[j]@.filter(|t: AttackExecutionTrigger| t != trigger),
                forall|j: int| k <= j < n ==> #[trigger] conds@[j] == start[j],
            decreases n - k,
        {
            let mut kept: Vec<AttackExecutionTrigger> = Vec::new();
            let m = conds[k].len();
            let mut j: usize = 0;
            while j < m
                invariant
                    k < conds@.len(),
                    m == conds@[k as int]@.len(),
                    j <= m,
                    kept@ == conds@[k as int]@.take(j as int).filter(|t: AttackExecutionTrigger| t != trigger),
                decreases m - j,
            {
                let x = conds[k][j];
                proof {
                    let s = conds@[k as int]@;
                    assert(s.take(j + 1) =~= s.take(j as int).push(x));
                    s.take(j as int).lemma_filter_push(x, |t: AttackExecutionTrigger| t != trigger);
                }
                if x != trigger {
                    kept.push(x);
                }
                j = j + 1;
            }
            proof {
                assert(conds@[k as int]@.take(m as int) =~= conds@[k as int]@);
            }
            let ghost before = conds@;
            conds.set(k, kept);
            proof {
                assert forall|j: int| 0 <= j < k + 1 implies #[trigger] conds@[j]@ == start[j]@.filter(|t: AttackExecutionTrigger| t != trigger) by {
                    if j < k {
                        assert(conds@[j] == before[j]);
                    }
                }
            }
            k = k + 1;
        }
        self.conditions_to_advance = conds;
    }

    /// Moves on when the current stage waits for nothing more: returns the
    /// stage just completed. Where the current stage is past the last one,
    /// there is nothing to wait for and nothing happens.
    pub fn check_should_advance(&mut self) -> (r: AdvanceCheck)
        requires
            old(self).wf(),
        ensures
            final(self).wf(),
            final(self).stage_count() == old(self).stage_count(),
            forall|k: int| 1 <= k <= old(self).stage_count() ==> #[trigger] final(self).stage(k) == old(self).stage(k),
            forall|k: int| 0 <= k <= old(self).stage_count() ==> #[trigger] final(self).conditions(k) == old(self).conditions(k),
            if old(self).current() > old(self).stage_count() {
                r == AdvanceCheck::NoConditions && final(self).current() == old(self).current()
            } else if old(self).conditions(old(self).current() as int).len() == 0 {
                r == AdvanceCheck::Advanced(CombatStageId(old(self).current()))
                    && final(self).current() == old(self).current() + 1
            } else {
                r == AdvanceCheck::Waiting && final(self).current() == old(self).current()
            },
    {
        let c = self.current_stage.0;
        if (c as usize) < self.conditions_to_advance.len() {
            if self.conditions_to_advance[c as usize].len() == 0 {
                self.current_stage = CombatStageId(c + 1);
                AdvanceCheck::Advanced(CombatStageId(c))
            } else {
                AdvanceCheck::Waiting
            }
        } else {
            AdvanceCheck::NoConditions
        }
    }

    /// What starts once stage `completed` is done: nothing where the message
    /// is stale (it is not the stage just before the current one), else the
    /// current stage, or the end of the attack when there is none.
    pub fn enter_stage(&self, completed: CombatStageId) -> (e: StageEntry)
        requires
            self.wf(),
            self.current() >= 1,
        ensures
            if completed.0 != self.current() - 1 {
                e is Stale
            } else if self.current() <= self.stage_count() {
                match self.stage(self.current() as int) {
                    CombatStage::UnitAttack(a, c, k) => e == StageEntry::PlayUnitAnimation(a, c, k),
                    CombatStage::Cast(p, d) => e == StageEntry::Cast(p, d),
                    CombatStage::Impact(att, def, acts) => e matches StageEntry::Impact(att2, def2, acts2)
                        && att2 == att && def2 == def && action_models(acts2@) == action_models(acts@),
                }
            } else {
                e is Resolved
            },
    {
        if completed.0 != self.current_stage.0 - 1 {
            return StageEntry::Stale;
        }
        let c = self.current_stage.0 as usize;
        if c <= self.stages.len() {
            match &self.stages[c - 1] {
                CombatStage::UnitAttack(a, cid, k) => StageEntry::PlayUnitAnimation(*a, *cid, *k),
                CombatStage::Cast(p, d) => StageEntry::Cast(*p, *d),
                CombatStage::Impact(att, def, acts) => {
                    let mut copy: Vec<SkillAction> = Vec::new();
                    let mut i: usize = 0;
                    while i < acts.len()
                        invariant
                            i <= acts@.len(),
                            action_models(copy@) == action_models(acts@.take(i as int)),
                        decreases acts@.len() - i,
                    {
                        let a = acts[i].duplicate();
                        let ghost before = copy@;
                        copy.push(a);
                        proof {
                            assert(action_models(copy@) =~= action_models(before).push(acts@[i as int].model()));
                            assert(action_models(acts@.take(i + 1)) =~= action_models(acts@.take(i as int)).push(acts@[i as int].model()));
                        }
                        i = i + 1;
                    }
                    proof {
                        assert(acts@.take(acts@.len() as int) =~= acts@);
                    }
                    StageEntry::Impact(*att, *def, copy)
                },
            }
        } else {
            StageEntry::Resolved
        }
    }
}

/// Why a timeline could not be built.
#[derive(Clone, Copy, PartialEq, Eq, Structural, Debug)]
pub enum TimelineError {
    NeedsAttacker,
}

/// The result of checking whether an attack moves on.
#[derive(Clone, Copy, PartialEq, Eq, Structural, Debug)]
pub enum AdvanceCheck {
    /// The stage was complete; the attack moved on from it.
    Advanced(CombatStageId),
    /// The current stage still waits for events.
    Waiting,
    /// The current stage is past the last one.
    NoConditions,
}

/// What starts when a stage completes.
#[derive(Debug)]
pub enum StageEntry {
    /// The completion message does not belong to the stage before the current one.
    Stale,
    PlayUnitAnimation(u64, CombatAnimationId, UnitAnimationKind),
    Cast(GridPosition, CastingData),
    Impact(Option<u64>, u64, Vec<SkillAction>),
    /// All stages are done.
    Resolved,
}

} // verus!
