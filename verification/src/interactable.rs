//! Things on the grid a unit can interact with (a treasure chest, an item
//! to pick up), and the battle menu entry offered while standing on one.
use vstd::prelude::*;
use crate::grid::GridPosition;
use crate::unit::{UnitAction, UnitExecuteAction};

verus! {

/// What an interactable is.
#[derive(Clone, Debug)]
pub enum InteractableKind {
    TreasureChest,
    ObtainableItem { item_id: String },
}

impl InteractableKind {
    /// The text of its entry in the battle menu.
    pub fn label(&self) -> (s: &'static str)
        ensures
            s@ == (match self {
                InteractableKind::TreasureChest => "Open Chest"@,
                InteractableKind::ObtainableItem { .. } => "Pickup Item"@,
            }),
    {
        match self {
            InteractableKind::TreasureChest => "Open Chest",
            InteractableKind::ObtainableItem { .. } => "Pickup Item",
        }
    }
}

/// An interactable on the grid, and whether it can be used now.
#[derive(Clone, Debug)]
pub struct Interactable {
    pub entity: u64,
    pub kind: InteractableKind,
    pub position: GridPosition,
    pub enabled: bool,
}

/// The first usable interactable at `position`, by its index.
pub open spec fn first_usable_at(items: Seq<Interactable>, position: GridPosition, i: int) -> bool {
    &&& 0 <= i < items.len()
    &&& items[i].enabled && items[i].position == position
    &&& forall|j: int| 0 <= j < i ==> !(items[j].enabled && items[j].position == position)
}

/// The first usable interactable standing at `position`.
pub fn interactable_at(items: &Vec<Interactable>, position: GridPosition) -> (r: Option<usize>)
    ensures
        match r {
            Some(i) => first_usable_at(items@, position, i as int),
            None => forall|j: int| 0 <= j < items@.len() ==> !(#[trigger] items@[j].enabled && items@[j].position == position),
        },
{
    let mut i: usize = 0;
    while i < items.len()
        invariant
            i <= items@.len(),
            forall|j: int| 0 <= j < i ==> !(#[trigger] items@[j].enabled && items@[j].position == position),
        decreases items@.len() - i,
    {
        if items[i].enabled && items[i].position == position {
            return Some(i);
        }
        i = i + 1;
    }
    None
}

/// How a player's battle menu changes as the unit moves.
#[derive(Clone, Copy, PartialEq, Eq, Structural, Debug)]
pub enum InteractionMenuUpdate {
    /// The menu stays as it is.
    Keep,
    /// The interaction entry present (if any) goes, and an entry for this
    /// interactable is added.
    Offer { remove_existing: bool, interactable: u64 },
    /// The interaction entry present goes.
    Withdraw,
}

/// The change to a battle menu that offers an interaction with `offered`
/// (if any) when the unit stands on `at_position` (if any): a new
/// interactable replaces the entry, leaving one removes it, and nothing
/// changes otherwise.
pub fn interaction_menu_update(offered: Option<u64>, at_position: Option<u64>) -> (r: InteractionMenuUpdate)
    ensures
        r == (match (offered, at_position) {
            (Some(o), Some(a)) => if o == a {
                InteractionMenuUpdate::Keep
            } else {
                InteractionMenuUpdate::Offer { remove_existing: true, interactable: a }
            },
            (None, Some(a)) => InteractionMenuUpdate::Offer { remove_existing: false, interactable: a },
            (Some(_), None) => InteractionMenuUpdate::Withdraw,
            (None, None) => InteractionMenuUpdate::Keep,
        }),
{
    match at_position {
        Some(a) => match offered {
            Some(o) => {
                if o == a {
                    InteractionMenuUpdate::Keep
                } else {
                    InteractionMenuUpdate::Offer { remove_existing: true, interactable: a }
                }
            },
            None => InteractionMenuUpdate::Offer { remove_existing: false, interactable: a },
        },
        None => match offered {
            Some(_) => InteractionMenuUpdate::Withdraw,
            None => InteractionMenuUpdate::Keep,
        },
    }
}

/// Carries out an interaction a unit was told to make with `items[index]`:
/// the interactable can no longer be used, and the unit's action is done.
/// Returns the action completed, or nothing where the action is no
/// interaction.
pub fn handle_interaction(items: &mut Vec<Interactable>, action: &UnitExecuteAction, index: usize) -> (done: Option<UnitAction>)
    requires
        index < old(items)@.len(),
    ensures
        match *action {
            UnitExecuteAction::Interact { .. } => {
                &&& done == Some(UnitAction::Interact)
                &&& final(items)@.len() == old(items)@.len()
                &&& !final(items)@[index as int].enabled
                &&& final(items)@[index as int].entity == old(items)@[index as int].entity
                &&& final(items)@[index as int].position == old(items)@[index as int].position
                &&& forall|j: int| 0 <= j < final(items)@.len() && j != index ==> final(items)@[j] == old(items)@[j]
            },
            _ => done is None && final(items)@ == old(items)@,
        },
{
    match action {
        UnitExecuteAction::Interact { .. } => {
            let mut item = items.remove(index);
            item.enabled = false;
            items.insert(index, item);
            Some(UnitAction::Interact)
        },
        _ => None,
    }
}

} // verus!
