//! Equipment: which item a unit holds in each slot, how equipping an item
//! makes room for it, and the weapon a unit fights with.
use vstd::prelude::*;
use crate::animation::{AnimatedSpriteId, TT_WEAPON_ANIMATED_SPRITE_ID};
use crate::assets::SpriteId;
use crate::assoc::{assoc_map, has_key, keys_unique, lemma_assoc_lookup, lemma_assoc_push, lemma_assoc_remove};
use crate::combat::skills::{SkillId, ATTACK_SKILL};
use crate::gameplay_effects::{ActiveEffects, Effect, EffectData, EffectDuration, EffectMetadata, EffectType, StatModification};

verus! {

/// What a weapon gives its holder: a range and the skill it attacks with.
#[derive(Clone, Copy, PartialEq, Eq, Structural, Debug)]
pub struct WeaponData {
    pub range: u32,
    pub attack_skill: SkillId,
}

#[derive(Clone, Copy, PartialEq, Eq, Structural, Debug, Hash)]
pub enum EquippableSlot {
    BothHands,
    Primary,
    Offhand,
    Head,
    Body,
    Gloves,
    Feet,
}

#[derive(Clone, Copy, PartialEq, Eq, Structural, Debug)]
pub enum WeaponRestrictions {
    OneHanded,
    TwoHanded,
}

#[derive(Clone, Copy, PartialEq, Eq, Structural, Debug, Hash)]
pub struct ItemId(pub u32);

#[derive(Clone, Debug)]
pub struct EquippableItem {
    pub item_name: String,
    /// The slot the item goes in.
    pub slot: EquippableSlot,
    pub modifiers: Vec<StatModification>,
    pub item_id: ItemId,
    pub sprite_id: SpriteId,
    pub animated_sprite_id: AnimatedSpriteId,
    pub weapon_data: Option<WeaponData>,
}

/// The item entity and the item in each occupied slot.
pub struct UnitEquipment {
    equipment_slots: Vec<(EquippableSlot, (u64, EquippableItem))>,
}

/// The slots that equipping into `slot` empties, in the order they are
/// emptied: both hands clear both hands and each hand; a hand clears both
/// hands and itself; any other slot clears itself.
pub open spec fn slots_to_clear(slot: EquippableSlot) -> Seq<EquippableSlot> {
    if slot == EquippableSlot::BothHands {
        seq![EquippableSlot::BothHands, EquippableSlot::Offhand, EquippableSlot::Primary]
    } else if slot == EquippableSlot::Primary || slot == EquippableSlot::Offhand {
        seq![EquippableSlot::BothHands, slot]
    } else {
        seq![slot]
    }
}

/// The item entities of the listed slots that are occupied, in order.
pub open spec fn entities_in(m: Map<EquippableSlot, (u64, EquippableItem)>, slots: Seq<EquippableSlot>) -> Seq<u64>
    decreases slots.len(),
{
    if slots.len() == 0 {
        Seq::empty()
    } else {
        let prev = entities_in(m, slots.drop_last());
        if m.contains_key(slots.last()) {
            prev.push(m[slots.last()].0)
        } else {
            prev
        }
    }
}

/// `m` with the listed slots emptied.
pub open spec fn without_slots(m: Map<EquippableSlot, (u64, EquippableItem)>, slots: Seq<EquippableSlot>) -> Map<EquippableSlot, (u64, EquippableItem)> {
    m.remove_keys(slots.to_set())
}

/// Nothing is held in both hands while a hand holds something.
pub open spec fn hands_consistent(m: Map<EquippableSlot, (u64, EquippableItem)>) -> bool {
    m.contains_key(EquippableSlot::BothHands) ==> !m.contains_key(EquippableSlot::Primary) && !m.contains_key(EquippableSlot::Offhand)
}

impl UnitEquipment {
    #[verifier::type_invariant]
    spec fn wf(self) -> bool {
        keys_unique(self.equipment_slots@)
    }

    /// The occupied slots.
    pub closed spec fn slots(self) -> Map<EquippableSlot, (u64, EquippableItem)> {
        assoc_map(self.equipment_slots@)
    }

    /// Nothing equipped.
    pub fn new() -> (e: UnitEquipment)
        ensures
            e.slots() == Map::<EquippableSlot, (u64, EquippableItem)>::empty(),
    {
        let e = UnitEquipment { equipment_slots: Vec::new() };
        assert(e.slots() =~= Map::<EquippableSlot, (u64, EquippableItem)>::empty());
        e
    }

    fn index_of(&self, slot: EquippableSlot) -> (r: Option<usize>)
        ensures
            match r {
                Some(i) => i < self.equipment_slots@.len() && self.equipment_slots@[i as int].0 == slot,
                None => !has_key(self.equipment_slots@, slot),
            },
    {
        let mut i: usize = 0;
        while i < self.equipment_slots.len()
            invariant
                i <= self.equipment_slots@.len(),
                forall|j: int| 0 <= j < i ==> self.equipment_slots@[j].0 != slot,
            decreases self.equipment_slots@.len() - i,
        {
            if self.equipment_slots[i].0 == slot {
                return Some(i);
            }
            i = i + 1;
        }
        None
    }

    /// Empties `slot`; returns the item entity that was there.
    fn remove_slot(&mut self, slot: EquippableSlot) -> (r: Option<u64>)
        ensures
            final(self).slots() == old(self).slots().remove(slot),
            r == (if old(self).slots().contains_key(slot) {
                Some(old(self).slots()[slot].0)
            } else {
                None::<u64>
            }),
    {
        proof {
            use_type_invariant(&*self);
        }
        match self.index_of(slot) {
            Some(i) => {
                proof {
                    lemma_assoc_lookup(self.equipment_slots@, i as int);
                    lemma_assoc_remove(self.equipment_slots@, i as int);
                }
                let mut v: Vec<(EquippableSlot, (u64, EquippableItem))> = Vec::new();
                std::mem::swap(&mut v, &mut self.equipment_slots);
                let (_, (e, _item)) = v.remove(i);
                self.equipment_slots = v;
                Some(e)
            },
            None => {
                proof {
                    assert(self.slots().remove(slot) =~= self.slots());
                }
                None
            },
        }
    }

    /// Empties the slots that an item for `slot` needs (see `slots_to_clear`)
    /// and returns the item entities taken off, in that order.
    pub fn clear_space_for_slot(&mut self, slot: EquippableSlot) -> (removed: Vec<u64>)
        ensures
            final(self).slots() == without_slots(old(self).slots(), slots_to_clear(slot)),
            removed@ == entities_in(old(self).slots(), slots_to_clear(slot)),
    {
        let ghost m = self.slots();
        let ghost order = slots_to_clear(slot);
        let mut removed: Vec<u64> = Vec::new();
        let slots: Vec<EquippableSlot> = if slot == EquippableSlot::BothHands {
            vec![EquippableSlot::BothHands, EquippableSlot::Offhand, EquippableSlot::Primary]
        } else if slot == EquippableSlot::Primary || slot == EquippableSlot::Offhand {
            vec![EquippableSlot::BothHands, slot]
        } else {
            vec![slot]
        };
        assert(slots@ =~= order);
        let mut i: usize = 0;
        while i < slots.len()
            invariant
                slots@ == order,
                order == slots_to_clear(slot),
                i <= order.len(),
                self.slots() == without_slots(m, order.take(i as int)),
                removed@ == entities_in(m, order.take(i as int)),
            decreases order.len() - i,
        {
            let s = slots[i];
            proof {
                assert(order.take(i + 1).drop_last() =~= order.take(i as int));
                // the slots of a clearing order are distinct
                assert forall|a: int, b: int| 0 <= a < b < order.len() implies order[a] != order[b] by {}
                if order.take(i as int).contains(s) {
                    let k = choose|k: int| 0 <= k < i && order.take(i as int)[k] == s;
                    assert(order[k] == order[i as int]);
                }
                assert(without_slots(m, order.take(i as int)).contains_key(s) == m.contains_key(s));
                if m.contains_key(s) {
                    assert(without_slots(m, order.take(i as int))[s] == m[s]);
                }
                assert(without_slots(m, order.take(i as int)).remove(s) =~= without_slots(m, order.take(i + 1)));
            }
            match self.remove_slot(s) {
                Some(e) => removed.push(e),
                None => {},
            }
            i = i + 1;
        }
        assert(order.take(order.len() as int) =~= order);
        removed
    }

    /// Puts `item` (the entity `item_e`) in its slot after making room for
    /// it; returns the item entities taken off.
    pub fn equip_item(&mut self, item: EquippableItem, item_e: u64) -> (unequipped: Vec<u64>)
        ensures
            final(self).slots() == without_slots(old(self).slots(), slots_to_clear(item.slot)).insert(item.slot, (item_e, item)),
            unequipped@ == entities_in(old(self).slots(), slots_to_clear(item.slot)),
            hands_consistent(old(self).slots()) ==> hands_consistent(final(self).slots()),
    {
        let slot = item.slot;
        let unequipped = self.clear_space_for_slot(slot);
        proof {
            use_type_invariant(&*self);
            assert(slots_to_clear(slot).contains(slot)) by {
                if slot == EquippableSlot::BothHands {
                    assert(slots_to_clear(slot)[0] == slot);
                } else if slot == EquippableSlot::Primary || slot == EquippableSlot::Offhand {
                    assert(slots_to_clear(slot)[1] == slot);
                } else {
                    assert(slots_to_clear(slot)[0] == slot);
                }
            }
        }
        match self.index_of(slot) {
            Some(i) => {
                proof {
                    lemma_assoc_lookup(self.equipment_slots@, i as int);
                    assert(false);
                }
            },
            None => {},
        }
        proof {
            lemma_assoc_push(self.equipment_slots@, slot, (item_e, item));
        }
        let mut v: Vec<(EquippableSlot, (u64, EquippableItem))> = Vec::new();
        std::mem::swap(&mut v, &mut self.equipment_slots);
        v.push((slot, (item_e, item)));
        self.equipment_slots = v;
        proof {
            let order = slots_to_clear(slot);
            if slot == EquippableSlot::BothHands {
                assert(order.contains(EquippableSlot::Primary)) by {
                    assert(order[2] == EquippableSlot::Primary);
                }
                assert(order.contains(EquippableSlot::Offhand)) by {
                    assert(order[1] == EquippableSlot::Offhand);
                }
            } else if slot == EquippableSlot::Primary || slot == EquippableSlot::Offhand {
                assert(order.contains(EquippableSlot::BothHands)) by {
                    assert(order[0] == EquippableSlot::BothHands);
                }
            }
        }
        unequipped
    }

    /// The weapon the unit fights with: that of the item in both hands, else
    /// in the primary hand, else in the off hand, where it is a weapon.
    pub fn weapon_data(&self) -> (w: Option<WeaponData>)
        ensures
            w == weapon_of(self.slots()),
    {
        proof {
            use_type_invariant(self);
        }
        let order = [EquippableSlot::BothHands, EquippableSlot::Primary, EquippableSlot::Offhand];
        let mut k: usize = 0;
        while k < 3
            invariant
                k <= 3,
                order@ == seq![EquippableSlot::BothHands, EquippableSlot::Primary, EquippableSlot::Offhand],
                keys_unique(self.equipment_slots@),
                forall|j: int| 0 <= j < k ==> slot_weapon(self.slots(), #[trigger] order@[j]) is None,
            decreases 3 - k,
        {
            let s = order[k];
            match self.index_of(s) {
                Some(i) => {
                    proof {
                        lemma_assoc_lookup(self.equipment_slots@, i as int);
                    }
                    if let Some(w) = self.equipment_slots[i].1.1.weapon_data {
                        proof {
                            assert(order@[0] == EquippableSlot::BothHands);
                            assert(order@[1] == EquippableSlot::Primary);
                        }
                        return Some(w);
                    }
                },
                None => {},
            }
            k = k + 1;
        }
        proof {
            assert(order@[0] == EquippableSlot::BothHands);
            assert(order@[1] == EquippableSlot::Primary);
            assert(order@[2] == EquippableSlot::Offhand);
        }
        None
    }
}

/// The weapon of the item in `slot`, if the slot holds a weapon.
pub open spec fn slot_weapon(m: Map<EquippableSlot, (u64, EquippableItem)>, slot: EquippableSlot) -> Option<WeaponData> {
    if m.contains_key(slot) {
        m[slot].1.weapon_data
    } else {
        None
    }
}

/// The weapon of both hands, else of the primary hand, else of the off hand.
pub open spec fn weapon_of(m: Map<EquippableSlot, (u64, EquippableItem)>) -> Option<WeaponData> {
    if slot_weapon(m, EquippableSlot::BothHands) is Some {
        slot_weapon(m, EquippableSlot::BothHands)
    } else if slot_weapon(m, EquippableSlot::Primary) is Some {
        slot_weapon(m, EquippableSlot::Primary)
    } else {
        slot_weapon(m, EquippableSlot::Offhand)
    }
}

/// The effects that survive taking off the items `removed`: those not
/// caused by any of them, order kept.
pub open spec fn effects_without_sources(effects: Seq<Effect>, removed: Seq<u64>) -> Seq<Effect>
    decreases effects.len(),
{
    if effects.len() == 0 {
        Seq::empty()
    } else {
        let prev = effects_without_sources(effects.drop_last(), removed);
        let e = effects.last();
        if e.metadata.source matches Some(s) && removed.contains(s) {
            prev
        } else {
            prev.push(e)
        }
    }
}

fn contains_id(ids: &Vec<u64>, x: u64) -> (b: bool)
    ensures
        b == ids@.contains(x),
{
    let mut i: usize = 0;
    while i < ids.len()
        invariant
            i <= ids@.len(),
            forall|j: int| 0 <= j < i ==> ids@[j] != x,
        decreases ids@.len() - i,
    {
        if ids[i] == x {
            proof {
                assert(ids@[i as int] == x);
            }
            return true;
        }
        i = i + 1;
    }
    false
}

/// Takes off what an item for `slot` displaces, and drops the effects those
/// items caused. Returns the item entities taken off (to be despawned).
pub fn unequip_items_on_unit(equipment: &mut UnitEquipment, effects: &mut ActiveEffects, slot: EquippableSlot) -> (removed: Vec<u64>)
    ensures
        final(equipment).slots() == without_slots(old(equipment).slots(), slots_to_clear(slot)),
        removed@ == entities_in(old(equipment).slots(), slots_to_clear(slot)),
        final(effects).effects@ == effects_without_sources(old(effects).effects@, removed@),
{
    let removed = equipment.clear_space_for_slot(slot);
    let ghost start = effects.effects@;
    let mut kept: Vec<Effect> = Vec::new();
    let mut i: usize = 0;
    while i < effects.effects.len()
        invariant
            effects.effects@ == start,
            i <= start.len(),
            kept@ == effects_without_sources(start.take(i as int), removed@),
        decreases start.len() - i,
    {
        proof {
            assert(start.take(i + 1).drop_last() =~= start.take(i as int));
        }
        let e = effects.effects[i];
        let drop = match e.metadata.source {
            Some(s) => contains_id(&removed, s),
            None => false,
        };
        if !drop {
            kept.push(e);
        }
        i = i + 1;
    }
    proof {
        assert(start.take(start.len() as int) =~= start);
    }
    effects.effects = kept;
    removed
}

/// The permanent buffs an item adds to the unit `unit_e`: one per modifier
/// of the item, caused by the item entity `item_e`.
pub open spec fn item_buffs(effects: Seq<Effect>, modifiers: Seq<StatModification>, unit_e: u64, item_e: u64) -> Seq<Effect> {
    effects + modifiers.map_values(|m: StatModification| Effect {
        metadata: EffectMetadata { target: unit_e, source: Some(item_e) },
        data: EffectData { effect_type: EffectType::StatBuff(m), duration: EffectDuration::Permanent },
    })
}

/// Equips `item` (spawned as `item_e`) on the unit `unit_e`: what it
/// displaces is taken off with the effects it caused, each of the item's
/// modifiers becomes a permanent buff from the item, and the item goes in
/// its slot. Returns the item entities taken off.
pub fn equip_item_on_unit(
    unit_equipment: &mut UnitEquipment,
    unit_effects: &mut ActiveEffects,
    unit_e: u64,
    item: EquippableItem,
    item_e: u64,
) -> (removed: Vec<u64>)
    ensures
        final(unit_equipment).slots() == without_slots(old(unit_equipment).slots(), slots_to_clear(item.slot)).insert(item.slot, (item_e, item)),
        removed@ == entities_in(old(unit_equipment).slots(), slots_to_clear(item.slot)),
        final(unit_effects).effects@ == item_buffs(
            effects_without_sources(old(unit_effects).effects@, removed@),
            item.modifiers@,
            unit_e,
            item_e,
        ),
{
    let removed = unequip_items_on_unit(unit_equipment, unit_effects, item.slot);
    let ghost base = unit_effects.effects@;
    let mut i: usize = 0;
    while i < item.modifiers.len()
        invariant
            i <= item.modifiers@.len(),
            unit_effects.effects@ == item_buffs(base, item.modifiers@.take(i as int), unit_e, item_e),
        decreases item.modifiers@.len() - i,
    {
        let m = item.modifiers[i];
        unit_effects.effects.push(
            Effect {
                metadata: EffectMetadata { target: unit_e, source: Some(item_e) },
                data: EffectData { effect_type: EffectType::StatBuff(m), duration: EffectDuration::Permanent },
            },
        );
        i = i + 1;
        proof {
            assert(item_buffs(base, item.modifiers@.take(i as int), unit_e, item_e) =~= unit_effects.effects@);
        }
    }
    proof {
        assert(item.modifiers@.take(item.modifiers@.len() as int) =~= item.modifiers@);
    }
    let slot = item.slot;
    let again = unit_equipment.equip_item(item, item_e);
    proof {
        // the slots were cleared already, so nothing more comes off
        assert forall|k: int| 0 <= k < slots_to_clear(slot).len() implies !(#[trigger] without_slots(old(unit_equipment).slots(), slots_to_clear(slot))).contains_key(slots_to_clear(slot)[k]) by {}
    }
    removed
}

/// The items of the game.
pub struct ItemDB {
    pub equippable_items: Vec<(ItemId, EquippableItem)>,
}

/// The built-in items: an iron axe for the primary hand (range 1, the basic
/// attack) and a bow for both hands (range 4, skill 4).
pub fn build_item_db() -> (db: ItemDB)
    ensures
        db.equippable_items@.len() == 2,
        db.equippable_items@[0].0 == ItemId(1),
        db.equippable_items@[0].1.item_name@ == "Iron Axe"@,
        db.equippable_items@[0].1.item_id == ItemId(1),
        db.equippable_items@[0].1.slot == EquippableSlot::Primary,
        db.equippable_items@[0].1.modifiers@.len() == 0,
        db.equippable_items@[0].1.sprite_id == SpriteId(12),
        db.equippable_items@[0].1.animated_sprite_id == AnimatedSpriteId(TT_WEAPON_ANIMATED_SPRITE_ID),
        db.equippable_items@[0].1.weapon_data == Some(WeaponData { range: 1, attack_skill: SkillId(ATTACK_SKILL) }),
        db.equippable_items@[1].0 == ItemId(2),
        db.equippable_items@[1].1.item_name@ == "Bow"@,
        db.equippable_items@[1].1.item_id == ItemId(2),
        db.equippable_items@[1].1.slot == EquippableSlot::BothHands,
        db.equippable_items@[1].1.modifiers@.len() == 0,
        db.equippable_items@[1].1.sprite_id == SpriteId(12),
        db.equippable_items@[1].1.animated_sprite_id == AnimatedSpriteId(TT_WEAPON_ANIMATED_SPRITE_ID),
        db.equippable_items@[1].1.weapon_data == Some(WeaponData { range: 4, attack_skill: SkillId(4) }),
{
    let axe = EquippableItem {
        item_name: "Iron Axe".to_string(),
        item_id: ItemId(1),
        slot: EquippableSlot::Primary,
        modifiers: Vec::new(),
        sprite_id: SpriteId(12),
        animated_sprite_id: AnimatedSpriteId(TT_WEAPON_ANIMATED_SPRITE_ID),
        weapon_data: Some(WeaponData { range: 1, attack_skill: SkillId(ATTACK_SKILL) }),
    };
    let bow = EquippableItem {
        item_name: "Bow".to_string(),
        item_id: ItemId(2),
        slot: EquippableSlot::BothHands,
        modifiers: Vec::new(),
        sprite_id: SpriteId(12),
        animated_sprite_id: AnimatedSpriteId(TT_WEAPON_ANIMATED_SPRITE_ID),
        weapon_data: Some(WeaponData { range: 4, attack_skill: SkillId(4) }),
    };
    ItemDB { equippable_items: vec![(ItemId(1), axe), (ItemId(2), bow)] }
}

} // verus!
