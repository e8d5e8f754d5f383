//! Putting equipment on and taking it off.

use vstd::prelude::*;
use crate::color::Color;
use crate::game::{Game, GameView};
use crate::object::{EquipmentView, Object, ObjectView, views};
use crate::text::{dequipped_message, dequipped_text, equipped_message, equipped_text, same_text};

verus! {

/// Whether `object` is equipment worn in `slot`.
pub open spec fn worn_in_slot(object: ObjectView, slot: Seq<char>) -> bool {
    match object.equipment {
        Some(e) => e.is_equipped && e.slot == slot,
        None => false,
    }
}

/// Whether `object` is equipment that is worn.
pub open spec fn is_worn(object: ObjectView) -> bool {
    match object.equipment {
        Some(e) => e.is_equipped,
        None => false,
    }
}

/// The index of the first item at or after `from` that is worn in `slot`.
pub open spec fn first_worn(inventory: Seq<ObjectView>, slot: Seq<char>, from: int) -> Option<int>
    decreases inventory.len() - from,
{
    if from >= inventory.len() {
        None
    } else if worn_in_slot(inventory[from], slot) {
        Some(from)
    } else {
        first_worn(inventory, slot, from + 1)
    }
}

/// No two worn items of the inventory share a slot.
pub open spec fn slots_unique(inventory: Seq<ObjectView>) -> bool {
    forall|i: int, j: int|
        0 <= i < j < inventory.len() && is_worn(inventory[i]) && is_worn(inventory[j])
            ==> inventory[i].equipment.unwrap().slot != inventory[j].equipment.unwrap().slot
}

/// `object` with its equipment, if it has any, worn or not as `worn` says.
pub open spec fn with_worn(object: ObjectView, worn: bool) -> ObjectView {
    match object.equipment {
        Some(e) => ObjectView { equipment: Some(EquipmentView { is_equipped: worn, ..e }), ..object },
        None => object,
    }
}

/// The session after the item at `id` is taken off: a worn item is marked
/// as not worn and the fact is logged; anything else leaves the session
/// as it is.
pub open spec fn after_dequip(g: GameView, id: int) -> GameView {
    if is_worn(g.inventory[id]) {
        GameView {
            inventory: g.inventory.update(id, with_worn(g.inventory[id], false)),
            ..g.logged(
                dequipped_text(g.inventory[id].name, g.inventory[id].equipment.unwrap().slot),
                Color::LightYellow,
            )
        }
    } else {
        g
    }
}

/// The slot that the item at `id` goes to; the empty text for an item
/// that is no equipment.
pub open spec fn slot_of(object: ObjectView) -> Seq<char> {
    match object.equipment {
        Some(e) => e.slot,
        None => Seq::empty(),
    }
}

/// The session after the item at `id` is marked as worn and the fact is
/// logged; an item that is no equipment leaves the session as it is.
pub open spec fn after_put_on(g: GameView, id: int) -> GameView {
    match g.inventory[id].equipment {
        Some(e) => GameView {
            inventory: g.inventory.update(id, with_worn(g.inventory[id], true)),
            ..g.logged(equipped_text(g.inventory[id].name, e.slot), Color::LightGreen)
        },
        None => g,
    }
}

/// The session after the item at `id` is put on: whatever was first worn
/// in its slot is taken off before.
pub open spec fn after_equip(g: GameView, id: int) -> GameView {
    let cleared = match first_worn(g.inventory, slot_of(g.inventory[id]), 0) {
        Some(other) => after_dequip(g, other),
        None => g,
    };
    after_put_on(cleared, id)
}

/// The session after the item at `id` changes between worn and not worn.
pub open spec fn after_toggle_equip(g: GameView, id: int) -> GameView {
    if is_worn(g.inventory[id]) {
        after_dequip(g, id)
    } else {
        after_equip(g, id)
    }
}

/// The index of the first item of the inventory that is worn in `slot`.
pub fn get_equipped_in_slot(slot: &str, inventory: &Vec<Object>) -> (found: Option<usize>)
    ensures
        match found {
            Some(i) => first_worn(views(inventory@), slot@, 0) == Some(i as int),
            None => first_worn(views(inventory@), slot@, 0) is None,
        },
{
    let mut i: usize = 0;
    while i < inventory.len()
        invariant
            i <= inventory.len(),
            first_worn(views(inventory@), slot@, 0) == first_worn(views(inventory@), slot@, i as int),
        decreases inventory.len() - i,
    {
        let worn_here = match &inventory[i].equipment {
            Some(e) => e.is_equipped && same_text(e.slot.as_str(), slot),
            None => false,
        };
        assert(worn_here == worn_in_slot(views(inventory@)[i as int], slot@));
        if worn_here {
            return Some(i);
        }
        i = i + 1;
    }
    None
}

/// Takes the item at `inventory_id` off and says so. An item that is not
/// worn is left alone, silently.
pub fn dequip(inventory_id: usize, game: &mut Game)
    requires
        inventory_id < old(game).inventory.len(),
    ensures
        final(game)@ == after_dequip(old(game)@, inventory_id as int),
{
    let worn = match &game.inventory[inventory_id].equipment {
        Some(e) => e.is_equipped,
        None => false,
    };
    if worn {
        let message = match &game.inventory[inventory_id].equipment {
            Some(e) => dequipped_message(game.inventory[inventory_id].name.as_str(), e.slot.as_str()),
            None => String::new(),
        };
        match &mut game.inventory[inventory_id].equipment {
            Some(e) => {
                e.is_equipped = false;
            },
            None => {},
        }
        game.log.add(message, Color::LightYellow);
        assert(game@.inventory =~= after_dequip(old(game)@, inventory_id as int).inventory);
    }
}

/// Puts the item at `inventory_id` on and says so; whatever was worn in
/// its slot is taken off first.
pub fn equip(inventory_id: usize, game: &mut Game)
    requires
        inventory_id < old(game).inventory.len(),
    ensures
        final(game)@ == after_equip(old(game)@, inventory_id as int),
{
    let slot: String = match &game.inventory[inventory_id].equipment {
        Some(e) => e.slot.clone(),
        None => String::new(),
    };
    assert(slot@ == slot_of(game@.inventory[inventory_id as int]));
    match get_equipped_in_slot(slot.as_str(), &game.inventory) {
        Some(old_equipment_id) => {
            proof {
                lemma_first_worn_least(game@.inventory, slot@, 0);
            }
            dequip(old_equipment_id, game);
        },
        None => {},
    }
    let ghost cleared = game@;
    assert(cleared.inventory.len() == old(game)@.inventory.len());
    assert(views(game.inventory@).len() == game.inventory@.len());
    let name_and_slot = match &game.inventory[inventory_id].equipment {
        Some(e) => Some(equipped_message(game.inventory[inventory_id].name.as_str(), e.slot.as_str())),
        None => None,
    };
    match name_and_slot {
        Some(message) => {
            match &mut game.inventory[inventory_id].equipment {
                Some(e) => {
                    e.is_equipped = true;
                },
                None => {},
            }
            game.log.add(message, Color::LightGreen);
            assert(game@.inventory =~= after_put_on(cleared, inventory_id as int).inventory);
        },
        None => {},
    }
}

/// Takes the item at `inventory_id` off if it is worn, and puts it on
/// otherwise.
pub fn toggle_equip(inventory_id: usize, game: &mut Game)
    requires
        inventory_id < old(game).inventory.len(),
    ensures
        final(game)@ == after_toggle_equip(old(game)@, inventory_id as int),
{
    let worn = match &game.inventory[inventory_id].equipment {
        Some(e) => e.is_equipped,
        None => false,
    };
    if worn {
        dequip(inventory_id, game);
    } else {
        equip(inventory_id, game);
    }
}

/// What [`first_worn`] finds is an item worn in the slot, none before it
/// is, and it finds nothing only when no item is.
pub proof fn lemma_first_worn_least(inventory: Seq<ObjectView>, slot: Seq<char>, from: int)
    requires
        0 <= from,
    ensures
        match first_worn(inventory, slot, from) {
            Some(i) => from <= i < inventory.len() && worn_in_slot(inventory[i], slot) && forall|j: int|
                from <= j < i ==> !worn_in_slot(#[trigger] inventory[j], slot),
            None => forall|j: int|
                from <= j < inventory.len() ==> !worn_in_slot(#[trigger] inventory[j], slot),
        },
    decreases inventory.len() - from,
{
    if from < inventory.len() && !worn_in_slot(inventory[from], slot) {
        lemma_first_worn_least(inventory, slot, from + 1);
    }
}

/// Taking an item off keeps worn items in distinct slots.
pub proof fn lemma_dequip_keeps_slots_unique(g: GameView, id: int)
    requires
        0 <= id < g.inventory.len(),
        slots_unique(g.inventory),
    ensures
        slots_unique(after_dequip(g, id).inventory),
        after_dequip(g, id).inventory.len() == g.inventory.len(),
{
}

/// Putting an item on keeps worn items in distinct slots: the item that
/// held the slot is taken off first.
pub proof fn lemma_equip_keeps_slots_unique(g: GameView, id: int)
    requires
        0 <= id < g.inventory.len(),
        slots_unique(g.inventory),
    ensures
        slots_unique(after_equip(g, id).inventory),
        after_equip(g, id).inventory.len() == g.inventory.len(),
{
    let slot = slot_of(g.inventory[id]);
    lemma_first_worn_least(g.inventory, slot, 0);
    let cleared = match first_worn(g.inventory, slot, 0) {
        Some(other) => after_dequip(g, other),
        None => g,
    };
    assert(cleared.inventory.len() == g.inventory.len());
    assert(forall|j: int|
        0 <= j < cleared.inventory.len() ==> !worn_in_slot(#[trigger] cleared.inventory[j], slot)) by {
        assert forall|j: int| 0 <= j < cleared.inventory.len() implies !worn_in_slot(
            #[trigger] cleared.inventory[j],
            slot,
        ) by {
            match first_worn(g.inventory, slot, 0) {
                Some(other) => {
                    if j != other && worn_in_slot(g.inventory[j], slot) {
                        if j < other {
                            assert(!worn_in_slot(g.inventory[j], slot));
                        } else {
                            assert(is_worn(g.inventory[other]) && is_worn(g.inventory[j]));
                        }
                    }
                },
                None => {},
            }
        }
    }
    assert(slots_unique(cleared.inventory));
    let done = after_put_on(cleared, id);
    assert forall|i: int, j: int|
        0 <= i < j < done.inventory.len() && is_worn(done.inventory[i]) && is_worn(
            done.inventory[j],
        ) implies done.inventory[i].equipment.unwrap().slot
        != done.inventory[j].equipment.unwrap().slot by {
        if i == id {
            assert(!worn_in_slot(cleared.inventory[j], slot));
        } else if j == id {
            assert(!worn_in_slot(cleared.inventory[i], slot));
        } else {
            assert(is_worn(cleared.inventory[i]) && is_worn(cleared.inventory[j]));
        }
    }
}

/// One step of handling equipment.
pub enum EquipStep {
    Equip(int),
    Dequip(int),
    Toggle(int),
}

/// The session after one step of handling equipment.
pub open spec fn after_step(g: GameView, step: EquipStep) -> GameView {
    match step {
        EquipStep::Equip(id) => after_equip(g, id),
        EquipStep::Dequip(id) => after_dequip(g, id),
        EquipStep::Toggle(id) => after_toggle_equip(g, id),
    }
}

/// The session after a sequence of steps, carried out in order.
pub open spec fn after_steps(g: GameView, steps: Seq<EquipStep>) -> GameView
    decreases steps.len(),
{
    if steps.len() == 0 {
        g
    } else {
        after_step(after_steps(g, steps.drop_last()), steps.last())
    }
}

/// Whether `step` names an item of an inventory of `len` items.
pub open spec fn step_in_range(step: EquipStep, len: nat) -> bool {
    match step {
        EquipStep::Equip(id) => 0 <= id < len,
        EquipStep::Dequip(id) => 0 <= id < len,
        EquipStep::Toggle(id) => 0 <= id < len,
    }
}

/// After any sequence of putting items on and taking them off, no two
/// worn items of the inventory share a slot, provided none did at the
/// start.
pub proof fn lemma_equipment_steps_keep_slots_unique(g: GameView, steps: Seq<EquipStep>)
    requires
        slots_unique(g.inventory),
        forall|k: int| 0 <= k < steps.len() ==> step_in_range(#[trigger] steps[k], g.inventory.len()),
    ensures
        slots_unique(after_steps(g, steps).inventory),
        after_steps(g, steps).inventory.len() == g.inventory.len(),
    decreases steps.len(),
{
    if steps.len() > 0 {
        lemma_equipment_steps_keep_slots_unique(g, steps.drop_last());
        let before = after_steps(g, steps.drop_last());
        assert(step_in_range(steps[steps.len() - 1], g.inventory.len()));
        match steps.last() {
            EquipStep::Equip(id) => {
                lemma_equip_keeps_slots_unique(before, id);
            },
            EquipStep::Dequip(id) => {
                lemma_dequip_keeps_slots_unique(before, id);
            },
            EquipStep::Toggle(id) => {
                lemma_equip_keeps_slots_unique(before, id);
                lemma_dequip_keeps_slots_unique(before, id);
            },
        }
    }
}

} // verus!
