//! Status effects and stat buffs carried by units.
use vstd::prelude::*;
use crate::unit_stats::StatType;

verus! {

#[derive(Clone, Copy, PartialEq, Eq, Structural, Debug, Hash)]
pub enum StatusTag {
    Poisoned,
    Stunned,
}

#[derive(Clone, Copy, PartialEq, Eq, Structural, Debug)]
pub enum Operator {
    Add,
    Mul,
}

#[derive(Clone, Copy, PartialEq, Eq, Structural, Debug)]
pub enum AttributeType {
    Stat(StatType),
}

#[derive(Clone, Copy, PartialEq, Eq, Structural, Debug)]
pub enum SkillParameter {
    Range,
}

/// A change to one stat. `value_bits` holds the IEEE-754 bits of the `f32`
/// operand; the rules here carry it along without reading it.
#[derive(Clone, Copy, PartialEq, Eq, Structural, Debug)]
pub struct StatModification {
    pub attribute_type: StatType,
    pub operator: Operator,
    pub value_bits: u32,
}

#[derive(Clone, Copy, PartialEq, Eq, Structural, Debug)]
pub enum EffectType {
    StatBuff(StatModification),
    StatusInfliction(StatusTag),
}

#[derive(Clone, Copy, PartialEq, Eq, Structural, Debug)]
pub enum EffectDuration {
    /// Lasts this many turns.
    TurnCount(u8),
    /// Can be used this many times.
    Consumable(u8),
    /// Lasts while its source is in place.
    Permanent,
}

#[derive(Clone, Copy, PartialEq, Eq, Structural, Debug)]
pub struct EffectData {
    pub effect_type: EffectType,
    pub duration: EffectDuration,
}

/// Which entity carries the effect and which one caused it.
#[derive(Clone, Copy, PartialEq, Eq, Structural, Debug)]
pub struct EffectMetadata {
    pub target: u64,
    pub source: Option<u64>,
}

#[derive(Clone, Copy, PartialEq, Eq, Structural, Debug)]
pub struct Effect {
    pub metadata: EffectMetadata,
    pub data: EffectData,
}

/// When a rule applies to a status: to one given status, when every listed
/// status is it, when any listed status is it, or always.
#[derive(Clone, Debug)]
pub enum AppliesTo {
    Specific(StatusTag),
    All(Vec<StatusTag>),
    Any(Vec<StatusTag>),
    Always,
}

impl AppliesTo {
    pub open spec fn applies_spec(self, t: StatusTag) -> bool {
        match self {
            AppliesTo::Specific(check) => check == t,
            AppliesTo::All(items) => forall|i: int| 0 <= i < items@.len() ==> items@[i] == t,
            AppliesTo::Any(items) => exists|i: int| 0 <= i < items@.len() && items@[i] == t,
            AppliesTo::Always => true,
        }
    }

    /// Whether the rule applies to `t`.
    pub fn check_applies(&self, t: &StatusTag) -> (b: bool)
        ensures
            b == self.applies_spec(*t),
    {
        match self {
            AppliesTo::Specific(check) => *check == *t,
            AppliesTo::All(items) => {
                let mut i: usize = 0;
                while i < items.len()
                    invariant
                        i <= items@.len(),
                        *self == AppliesTo::All(*items),
                        forall|j: int| 0 <= j < i ==> items@[j] == *t,
                    decreases items@.len() - i,
                {
                    if items[i] != *t {
                        assert(items@[i as int] != *t);
                        assert(self->All_0 == *items);
                        return false;
                    }
                    i = i + 1;
                }
                true
            },
            AppliesTo::Any(items) => {
                let mut i: usize = 0;
                while i < items.len()
                    invariant
                        i <= items@.len(),
                        *self == AppliesTo::Any(*items),
                        forall|j: int| 0 <= j < i ==> items@[j] != *t,
                    decreases items@.len() - i,
                {
                    if items[i] == *t {
                        assert(items@[i as int] == *t);
                        assert(self->Any_0 == *items);
                        return true;
                    }
                    i = i + 1;
                }
                false
            },
            AppliesTo::Always => true,
        }
    }
}

/// The effects a unit carries, in the order they arrived.
#[derive(Clone, Debug)]
pub struct ActiveEffects {
    pub effects: Vec<Effect>,
}

pub open spec fn is_status(e: Effect, tag: StatusTag) -> bool {
    e.data.effect_type == EffectType::StatusInfliction(tag)
}

/// `effects` with the duration of every effect inflicting `tag` set to `d`.
pub open spec fn refresh_status(effects: Seq<Effect>, tag: StatusTag, d: EffectDuration) -> Seq<Effect> {
    Seq::new(
        effects.len(),
        |i: int|
            if is_status(effects[i], tag) {
                Effect { data: EffectData { duration: d, ..effects[i].data }, ..effects[i] }
            } else {
                effects[i]
            },
    )
}

/// The effects after `apply_effect(effect)`: a buff is appended; a status
/// the unit already has gets the new duration on every effect inflicting it;
/// a new status is appended.
pub open spec fn apply_effect_spec(effects: Seq<Effect>, effect: Effect) -> Seq<Effect> {
    match effect.data.effect_type {
        EffectType::StatBuff(_) => effects.push(effect),
        EffectType::StatusInfliction(tag) => {
            if exists|i: int| 0 <= i < effects.len() && is_status(effects[i], tag) {
                refresh_status(effects, tag, effect.data.duration)
            } else {
                effects.push(effect)
            }
        },
    }
}

/// The statuses inflicted by `effects`, in order, one per effect.
pub open spec fn statuses_spec(effects: Seq<Effect>) -> Seq<StatusTag>
    decreases effects.len(),
{
    if effects.len() == 0 {
        Seq::empty()
    } else {
        let prev = statuses_spec(effects.drop_last());
        match effects.last().data.effect_type {
            EffectType::StatusInfliction(t) => prev.push(t),
            EffectType::StatBuff(_) => prev,
        }
    }
}

/// The stat buffs in `effects`, in order.
pub open spec fn stat_buffs_spec(effects: Seq<Effect>) -> Seq<StatModification>
    decreases effects.len(),
{
    if effects.len() == 0 {
        Seq::empty()
    } else {
        let prev = stat_buffs_spec(effects.drop_last());
        match effects.last().data.effect_type {
            EffectType::StatBuff(m) => prev.push(m),
            EffectType::StatusInfliction(_) => prev,
        }
    }
}

/// `e` inflicts one of `tags`.
pub open spec fn inflicts_any(e: Effect, tags: Seq<StatusTag>) -> bool {
    exists|t: int| 0 <= t < tags.len() && is_status(e, tags[t])
}

pub open spec fn has_status_spec(effects: Seq<Effect>, tag: StatusTag) -> bool {
    exists|i: int| 0 <= i < effects.len() && is_status(effects[i], tag)
}

/// Applying a status leaves the unit with that status, every effect that
/// inflicts it lasting as long as the new one says; the other effects stay
/// as they were, and at most the new effect is added, at the end, only where
/// the unit did not have the status.
pub proof fn lemma_applied_status_has_new_duration(effects: Seq<Effect>, effect: Effect, tag: StatusTag)
    requires
        effect.data.effect_type == EffectType::StatusInfliction(tag),
    ensures
        ({
            let r = apply_effect_spec(effects, effect);
            &&& exists|i: int| 0 <= i < r.len() && #[trigger] is_status(r[i], tag)
            &&& forall|i: int| 0 <= i < r.len() && #[trigger] is_status(r[i], tag) ==> r[i].data.duration == effect.data.duration
            &&& forall|i: int| 0 <= i < effects.len() && !is_status(#[trigger] effects[i], tag) ==> r[i] == effects[i]
            &&& r.len() == effects.len() + (if exists|i: int| 0 <= i < effects.len() && #[trigger] is_status(effects[i], tag) {
                0int
            } else {
                1int
            })
            &&& forall|i: int| 0 <= i < effects.len() && is_status(#[trigger] effects[i], tag) ==> r[i].data.effect_type
                == effects[i].data.effect_type && r[i].metadata == effects[i].metadata
        }),
{
    let r = apply_effect_spec(effects, effect);
    if exists|i: int| 0 <= i < effects.len() && is_status(effects[i], tag) {
        let i = choose|i: int| 0 <= i < effects.len() && is_status(effects[i], tag);
        assert(is_status(r[i], tag));
    } else {
        assert(is_status(r[effects.len() as int], tag));
        assert forall|i: int| 0 <= i < r.len() && #[trigger] is_status(r[i], tag) implies r[i].data.duration
            == effect.data.duration by {
            if i < effects.len() {
                assert(r[i] == effects[i]);
            }
        }
    }
}

/// Applying a stat buff appends it and changes nothing else.
pub proof fn lemma_applied_buff_is_appended(effects: Seq<Effect>, effect: Effect)
    requires
        effect.data.effect_type is StatBuff,
    ensures
        apply_effect_spec(effects, effect).len() == effects.len() + 1,
        apply_effect_spec(effects, effect).last() == effect,
        forall|i: int| 0 <= i < effects.len() ==> #[trigger] apply_effect_spec(effects, effect)[i] == effects[i],
{
}

impl ActiveEffects {
    /// No effects.
    pub fn new() -> (a: ActiveEffects)
        ensures
            a.effects@.len() == 0,
    {
        ActiveEffects { effects: Vec::new() }
    }

    /// Adds `effect`: a stat buff is appended; a status the unit already has
    /// gets the new duration (on every effect inflicting it); a new status
    /// is appended.
    pub fn apply_effect(&mut self, effect: Effect)
        ensures
            final(self).effects@ == apply_effect_spec(old(self).effects@, effect),
    {
        match effect.data.effect_type {
            EffectType::StatBuff(_) => {
                self.effects.push(effect);
            },
            EffectType::StatusInfliction(status_tag) => {
                let ghost start = self.effects@;
                let mut doesnt_already_have_status = true;
                let mut i: usize = 0;
                while i < self.effects.len()
                    invariant
                        i <= self.effects@.len(),
                        self.effects@.len() == start.len(),
                        effect.data.effect_type == EffectType::StatusInfliction(status_tag),
                        forall|j: int| 0 <= j < i ==> #[trigger] self.effects@[j] == refresh_status(start, status_tag, effect.data.duration)[j],
                        forall|j: int| i <= j < start.len() ==> #[trigger] self.effects@[j] == start[j],
                        doesnt_already_have_status <==> !(exists|j: int| 0 <= j < i && is_status(start[j], status_tag)),
                    decreases start.len() - i,
                {
                    let existing = self.effects[i];
                    if let EffectType::StatusInfliction(existing_tag) = existing.data.effect_type {
                        if existing_tag == status_tag {
                            doesnt_already_have_status = false;
                            let updated = Effect {
                                data: EffectData { duration: effect.data.duration, ..existing.data },
                                ..existing
                            };
                            self.effects.set(i, updated);
                        }
                    }
                    i = i + 1;
                }
                if doesnt_already_have_status {
                    proof {
                        assert(self.effects@ =~= start);
                    }
                    self.effects.push(effect);
                } else {
                    proof {
                        assert(self.effects@ =~= refresh_status(start, status_tag, effect.data.duration));
                    }
                }
            },
        }
    }

    /// Whether some effect inflicts `tag`.
    pub fn has_status(&self, tag: StatusTag) -> (b: bool)
        ensures
            b == has_status_spec(self.effects@, tag),
    {
        let mut tags: Vec<StatusTag> = Vec::new();
        tags.push(tag);
        let b = self.has_any_status(tags);
        proof {
            assert(tags@ =~= seq![tag]);
            if b {
                let i = choose|i: int| 0 <= i < self.effects@.len() && #[trigger] inflicts_any(self.effects@[i], tags@);
                assert(is_status(self.effects@[i], tag));
            } else {
                assert forall|i: int| 0 <= i < self.effects@.len() implies !is_status(self.effects@[i], tag) by {
                    if is_status(self.effects@[i], tag) {
                        assert(is_status(self.effects@[i], tags@[0]));
                        assert(inflicts_any(self.effects@[i], tags@));
                    }
                }
            }
        }
        b
    }

    /// Whether some effect inflicts one of `tags`.
    pub fn has_any_status(&self, tags: Vec<StatusTag>) -> (b: bool)
        ensures
            b == exists|i: int| 0 <= i < self.effects@.len() && #[trigger] inflicts_any(self.effects@[i], tags@),
    {
        let mut i: usize = 0;
        while i < self.effects.len()
            invariant
                i <= self.effects@.len(),
                forall|k: int| 0 <= k < i ==> !#[trigger] inflicts_any(self.effects@[k], tags@),
            decreases self.effects@.len() - i,
        {
            if let EffectType::StatusInfliction(found) = self.effects[i].data.effect_type {
                let mut t: usize = 0;
                while t < tags.len()
                    invariant
                        i < self.effects@.len(),
                        self.effects@[i as int].data.effect_type == EffectType::StatusInfliction(found),
                        t <= tags@.len(),
                        forall|u: int| 0 <= u < t ==> tags@[u] != found,
                    decreases tags@.len() - t,
                {
                    if tags[t] == found {
                        proof {
                            assert(is_status(self.effects@[i as int], tags@[t as int]));
                            assert(inflicts_any(self.effects@[i as int], tags@));
                        }
                        return true;
                    }
                    t = t + 1;
                }
            }
            i = i + 1;
        }
        false
    }

    /// Stunned units cannot move.
    pub fn prevent_move(&self) -> (b: bool)
        ensures
            b == has_status_spec(self.effects@, StatusTag::Stunned),
    {
        self.has_status(StatusTag::Stunned)
    }

    /// Stunned units cannot act.
    pub fn prevent_action(&self) -> (b: bool)
        ensures
            b == has_status_spec(self.effects@, StatusTag::Stunned),
    {
        self.has_status(StatusTag::Stunned)
    }

    /// The inflicted statuses, in order.
    pub fn statuses(&self) -> (r: Vec<StatusTag>)
        ensures
            r@ == statuses_spec(self.effects@),
    {
        let mut r: Vec<StatusTag> = Vec::new();
        let mut i: usize = 0;
        while i < self.effects.len()
            invariant
                i <= self.effects@.len(),
                r@ == statuses_spec(self.effects@.take(i as int)),
            decreases self.effects@.len() - i,
        {
            proof {
                assert(self.effects@.take(i + 1).drop_last() =~= self.effects@.take(i as int));
            }
            if let EffectType::StatusInfliction(t) = self.effects[i].data.effect_type {
                r.push(t);
            }
            i = i + 1;
        }
        assert(self.effects@.take(self.effects@.len() as int) =~= self.effects@);
        r
    }

    /// The stat buffs, in order.
    pub fn stat_buffs(&self) -> (r: Vec<StatModification>)
        ensures
            r@ == stat_buffs_spec(self.effects@),
    {
        let mut r: Vec<StatModification> = Vec::new();
        let mut i: usize = 0;
        while i < self.effects.len()
            invariant
                i <= self.effects@.len(),
                r@ == stat_buffs_spec(self.effects@.take(i as int)),
            decreases self.effects@.len() - i,
        {
            proof {
                assert(self.effects@.take(i + 1).drop_last() =~= self.effects@.take(i as int));
            }
            if let EffectType::StatBuff(m) = self.effects[i].data.effect_type {
                r.push(m);
            }
            i = i + 1;
        }
        assert(self.effects@.take(self.effects@.len() as int) =~= self.effects@);
        r
    }
}

} // verus!
