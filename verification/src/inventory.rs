//! Picking items up, dropping them and using them.

use vstd::prelude::*;
use crate::color::Color;
use crate::config::LIGHTNING_RANGE;
use crate::config::{CONFUSE_RANGE, INVENTORY_CAPACITY, PLAYER};
use crate::equipment::{
    after_dequip,
    after_equip,
    after_toggle_equip,
    dequip,
    equip,
    first_worn,
    get_equipped_in_slot,
    is_worn,
    lemma_dequip_keeps_slots_unique,
    lemma_equip_keeps_slots_unique,
    slots_unique,
    toggle_equip,
    with_worn,
};
use crate::fov::Visibility;
use crate::game::{Game, GameView};
use crate::object::{Item, Object, ObjectView, UseResult, views};
use crate::spells::{
    after_confuse,
    after_fireball,
    after_heal,
    after_lightning,
    can_heal,
    cast_confuse,
    cast_fireball,
    cast_heal,
    cast_lightning,
    cast_nothing,
    closest,
    fireball_fits,
    heal_fits,
    lightning_fits,
};
use crate::text::{
    cannot_be_used_message,
    cannot_be_used_text,
    dropped_message,
    dropped_text,
    inventory_full_message,
    inventory_full_text,
    picked_up_message,
    picked_up_text,
};
use crate::world::{World, world_of};

verus! {

/// The world after the player tries to pick up the object at `id`. With
/// a full inventory the object stays where it is and the player is told
/// so. Otherwise it leaves the level, the last object of the list taking
/// its place, and joins the inventory as an item that is not worn;
/// equipment is then put on at once if nothing is worn in its slot.
pub open spec fn after_pick_up(w: World, id: int) -> World {
    let item = with_worn(w.objects[id], false);
    if w.game.inventory.len() >= INVENTORY_CAPACITY {
        World { game: w.game.logged(inventory_full_text(item.name), Color::Red), ..w }
    } else {
        let held = GameView {
            inventory: w.game.inventory.push(item),
            ..w.game.logged(picked_up_text(item.name), Color::Green)
        };
        World {
            objects: w.objects.update(id, w.objects.last()).drop_last(),
            game: match item.equipment {
                Some(e) => if first_worn(held.inventory, e.slot, 0) is None {
                    after_equip(held, w.game.inventory.len() as int)
                } else {
                    held
                },
                None => held,
            },
        }
    }
}

/// Adds the object at `object_id` to the player's inventory and removes
/// it from the map, if there is room for it.
pub fn pick_item_up(object_id: usize, objects: &mut Vec<Object>, game: &mut Game)
    requires
        object_id < old(objects)@.len(),
    ensures
        world_of(final(objects)@, *final(game)) == after_pick_up(
            world_of(old(objects)@, *old(game)),
            object_id as int,
        ),
{
    assert(views(game.inventory@).len() == game.inventory@.len());
    if game.inventory.len() >= INVENTORY_CAPACITY {
        game.log.add(inventory_full_message(objects[object_id].name.as_str()), Color::Red);
        assert(views(objects@) =~= views(old(objects)@));
    } else {
        let mut item = objects.swap_remove(object_id);
        assert(views(objects@) =~= views(old(objects)@).update(
            object_id as int,
            views(old(objects)@).last(),
        ).drop_last());
        match &mut item.equipment {
            Some(e) => {
                e.is_equipped = false;
            },
            None => {},
        }
        assert(item@ == with_worn(views(old(objects)@)[object_id as int], false));
        game.log.add(picked_up_message(item.name.as_str()), Color::Green);
        let inventory_id = game.inventory.len();
        let equipment_slot = match &item.equipment {
            Some(e) => Some(e.slot.clone()),
            None => None,
        };
        game.inventory.push(item);
        assert(game@.inventory =~= old(game)@.inventory.push(
            with_worn(views(old(objects)@)[object_id as int], false),
        ));
        match equipment_slot {
            Some(equipment_slot) => {
                if get_equipped_in_slot(equipment_slot.as_str(), &game.inventory).is_none() {
                    equip(inventory_id, game);
                }
            },
            None => {},
        }
    }
}

/// The world after the player drops the item at `id` of the inventory:
/// it is taken off if it was worn, and lies where the player stands.
pub open spec fn after_drop(w: World, id: int) -> World {
    let bare = if w.game.inventory[id].equipment is Some {
        after_dequip(w.game, id)
    } else {
        w.game
    };
    let item = ObjectView {
        x: w.objects[PLAYER as int].x,
        y: w.objects[PLAYER as int].y,
        ..bare.inventory[id]
    };
    World {
        objects: w.objects.push(item),
        game: GameView { inventory: bare.inventory.remove(id), ..bare.logged(dropped_text(item.name), Color::Yellow) },
    }
}

/// Drops the item at `inventory_id` where the player stands.
pub fn drop_item(inventory_id: usize, objects: &mut Vec<Object>, game: &mut Game)
    requires
        inventory_id < old(game).inventory@.len(),
        old(objects)@.len() > 0,
    ensures
        world_of(final(objects)@, *final(game)) == after_drop(
            world_of(old(objects)@, *old(game)),
            inventory_id as int,
        ),
{
    assert(views(game.inventory@).len() == game.inventory@.len());
    if game.inventory[inventory_id].equipment.is_some() {
        dequip(inventory_id, game);
    }
    let ghost bare = game@;
    assert(bare.inventory.len() == old(game)@.inventory.len());
    assert(views(game.inventory@).len() == game.inventory@.len());
    let mut item = game.inventory.remove(inventory_id);
    assert(game@.inventory =~= bare.inventory.remove(inventory_id as int));
    let (px, py) = objects[PLAYER].pos();
    item.set_pos(px, py);
    game.log.add(dropped_message(item.name.as_str()), Color::Yellow);
    objects.push(item);
    assert(views(objects@) =~= after_drop(world_of(old(objects)@, *old(game)), inventory_id as int).objects);
}

/// What the player pointed at when asked for a target.
#[derive(Clone, Copy, Debug, PartialEq, Eq, Structural)]
pub enum Target {
    /// No target was asked for, or the player backed out.
    Nowhere,
    /// A tile of the map.
    Tile(i32, i32),
    /// An object of the level, by its index.
    Monster(usize),
}

/// What an item asks the player for before it can be used.
#[derive(Clone, Copy, Debug, PartialEq, Eq, Structural)]
pub enum Targeting {
    /// The item needs no target.
    Unaimed,
    /// The item is aimed at a tile in view, at any distance.
    Tile,
    /// The item is aimed at a monster in view, no further away than
    /// `max_range`.
    Monster { max_range: i32 },
}

/// What the item needs to be aimed at. Equipment is put on or taken off
/// and needs no target, whatever its effect.
pub open spec fn targeting_of(object: ObjectView) -> Targeting {
    match object.item {
        Some(Item::Fireball) => if object.equipment is Some {
            Targeting::Unaimed
        } else {
            Targeting::Tile
        },
        Some(Item::Confuse) => if object.equipment is Some {
            Targeting::Unaimed
        } else {
            Targeting::Monster { max_range: CONFUSE_RANGE }
        },
        _ => Targeting::Unaimed,
    }
}

/// The session after the player is asked to aim the item.
pub open spec fn after_prompt(g: GameView, id: int) -> GameView {
    match targeting_of(g.inventory[id]) {
        Targeting::Unaimed => g,
        Targeting::Tile => g.logged(
            "Left-click a target tile for the fireball, or right-click to cancel."@,
            Color::LightCyan,
        ),
        Targeting::Monster { max_range } => g.logged(
            "Left-click an enemy to confuse it, or right-click to cancel."@,
            Color::LightCyan,
        ),
    }
}

/// Begins the use of the item at `inventory_id`: says what the item has
/// to be aimed at, and asks the player to aim it.
pub fn prompt_for_target(inventory_id: usize, game: &mut Game) -> (targeting: Targeting)
    requires
        inventory_id < old(game).inventory@.len(),
    ensures
        targeting == targeting_of(old(game)@.inventory[inventory_id as int]),
        final(game)@ == after_prompt(old(game)@, inventory_id as int),
{
    assert(views(game.inventory@).len() == game.inventory@.len());
    if game.inventory[inventory_id].equipment.is_some() {
        return Targeting::Unaimed;
    }
    match game.inventory[inventory_id].item {
        Some(Item::Fireball) => {
            game.log.add(
                String::from_str("Left-click a target tile for the fireball, or right-click to cancel."),
                Color::LightCyan,
            );
            Targeting::Tile
        },
        Some(Item::Confuse) => {
            game.log.add(
                String::from_str("Left-click an enemy to confuse it, or right-click to cancel."),
                Color::LightCyan,
            );
            Targeting::Monster { max_range: CONFUSE_RANGE }
        },
        _ => Targeting::Unaimed,
    }
}

/// Whether the effect of `item` comes about with the target given: a
/// potion of healing needs something to heal, a lightning bolt an enemy
/// within reach, a fireball a tile, and a scroll of confusion a monster.
pub open spec fn effect_used(item: Item, w: World, fov: Visibility, target: Target) -> bool {
    match item {
        Item::Heal => can_heal(w),
        Item::Lightning => closest(w.objects, fov, LIGHTNING_RANGE as int) is Some,
        Item::Fireball => target is Tile,
        Item::Confuse => target is Monster,
        Item::Inert => true,
    }
}

/// The world after the effect of `item`, aimed at `target`.
pub open spec fn after_effect(item: Item, w: World, fov: Visibility, target: Target) -> World {
    match item {
        Item::Heal => after_heal(w),
        Item::Lightning => after_lightning(w, fov),
        Item::Fireball => match target {
            Target::Tile(x, y) => after_fireball(w, x as int, y as int),
            _ => w,
        },
        Item::Confuse => match target {
            Target::Monster(id) => after_confuse(w, id as int),
            _ => w,
        },
        Item::Inert => w,
    }
}

/// Whether the effect of `item` can come about: what it touches exists
/// and stays within the range of `i32`.
pub open spec fn effect_fits(item: Item, w: World, fov: Visibility, target: Target) -> bool {
    match item {
        Item::Heal => heal_fits(w),
        Item::Lightning => lightning_fits(w, fov),
        Item::Fireball => match target {
            Target::Tile(x, y) => fireball_fits(w, x as int, y as int),
            _ => true,
        },
        Item::Confuse => match target {
            Target::Monster(id) => id < w.objects.len(),
            _ => true,
        },
        Item::Inert => true,
    }
}

impl Item {
    /// Brings the effect of the item about, aimed at `target`. An item
    /// that needs a target and gets none is not used.
    pub fn use_item(&self, objects: &mut Vec<Object>, game: &mut Game, fov: &Visibility, target: Target) -> (result:
        UseResult)
        requires
            effect_fits(*self, world_of(old(objects)@, *old(game)), *fov, target),
        ensures
            world_of(final(objects)@, *final(game)) == after_effect(
                *self,
                world_of(old(objects)@, *old(game)),
                *fov,
                target,
            ),
            result == if effect_used(*self, world_of(old(objects)@, *old(game)), *fov, target) {
                UseResult::Used
            } else {
                UseResult::Cancelled
            },
    {
        match self {
            Item::Heal => cast_heal(objects, game),
            Item::Lightning => cast_lightning(objects, game, fov),
            Item::Fireball => match target {
                Target::Tile(x, y) => cast_fireball(x, y, objects, game),
                _ => UseResult::Cancelled,
            },
            Item::Confuse => match target {
                Target::Monster(id) => cast_confuse(id, objects, game),
                _ => UseResult::Cancelled,
            },
            Item::Inert => cast_nothing(),
        }
    }
}

/// The world after the item at `id` of the inventory is used, aimed at
/// `target`. Equipment is put on or taken off. Anything else has its
/// effect; an item that was used is gone from the inventory, and of one
/// that was not the player is told. An object that is no item cannot be
/// used, and the player is told so.
pub open spec fn after_use(w: World, id: int, fov: Visibility, target: Target) -> World {
    let object = w.game.inventory[id];
    match object.item {
        Some(item) => if object.equipment is Some {
            World { game: after_toggle_equip(w.game, id), ..w }
        } else {
            let done = after_effect(item, w, fov, target);
            if effect_used(item, w, fov, target) {
                World { game: GameView { inventory: done.game.inventory.remove(id), ..done.game }, ..done }
            } else {
                World { game: done.game.logged("Cancelled"@, Color::White), ..done }
            }
        },
        None => World { game: w.game.logged(cannot_be_used_text(object.name), Color::White), ..w },
    }
}

/// Whether the item at `id` of the inventory can be used.
pub open spec fn use_fits(w: World, id: int, fov: Visibility, target: Target) -> bool {
    &&& 0 <= id < w.game.inventory.len()
    &&& match w.game.inventory[id].item {
        Some(item) => w.game.inventory[id].equipment is None ==> effect_fits(item, w, fov, target),
        None => true,
    }
}

/// Uses the item at `inventory_id`, aimed at `target`.
pub fn use_item(inventory_id: usize, objects: &mut Vec<Object>, game: &mut Game, fov: &Visibility, target: Target)
    requires
        use_fits(world_of(old(objects)@, *old(game)), inventory_id as int, *fov, target),
    ensures
        world_of(final(objects)@, *final(game)) == after_use(
            world_of(old(objects)@, *old(game)),
            inventory_id as int,
            *fov,
            target,
        ),
{
    assert(views(game.inventory@).len() == game.inventory@.len());
    if game.inventory[inventory_id].item.is_some() && game.inventory[inventory_id].equipment.is_some() {
        toggle_equip(inventory_id, game);
        return ;
    }
    match game.inventory[inventory_id].item {
        Some(item) => {
            match item.use_item(objects, game, fov, target) {
                UseResult::Used => {
                    proof {
                        lemma_effect_keeps_inventory(item, world_of(old(objects)@, *old(game)), *fov, target);
                        assert(views(game.inventory@).len() == game.inventory@.len());
                    }
                    let ghost before = game@.inventory;
                    game.inventory.remove(inventory_id);
                    assert(game@.inventory =~= before.remove(inventory_id as int));
                },
                UseResult::Cancelled => {
                    game.log.add(String::from_str("Cancelled"), Color::White);
                },
            }
        },
        None => {
            game.log.add(cannot_be_used_message(game.inventory[inventory_id].name.as_str()), Color::White);
        },
    }
}

/// The effect of an item leaves the inventory as it is.
pub proof fn lemma_effect_keeps_inventory(item: Item, w: World, fov: Visibility, target: Target)
    ensures
        after_effect(item, w, fov, target).game.inventory == w.game.inventory,
{
    match item {
        Item::Fireball => match target {
            Target::Tile(x, y) => {
                crate::spells::lemma_fireball_keeps_inventory(w, x as int, y as int);
            },
            _ => {},
        },
        _ => {},
    }
}

/// Picking up an item keeps worn items in distinct slots: it joins the
/// inventory not worn, and is put on only where nothing is worn in its
/// slot.
pub proof fn lemma_pick_up_keeps_slots_unique(w: World, id: int)
    requires
        0 <= id < w.objects.len(),
        slots_unique(w.game.inventory),
    ensures
        slots_unique(after_pick_up(w, id).game.inventory),
{
    let item = with_worn(w.objects[id], false);
    if w.game.inventory.len() < INVENTORY_CAPACITY {
        let held = GameView {
            inventory: w.game.inventory.push(item),
            ..w.game.logged(picked_up_text(item.name), Color::Green)
        };
        assert forall|i: int, j: int|
            0 <= i < j < held.inventory.len() && is_worn(held.inventory[i]) && is_worn(
                held.inventory[j],
            ) implies held.inventory[i].equipment.unwrap().slot != held.inventory[j].equipment.unwrap().slot by {
            assert(held.inventory[i] == w.game.inventory[i]);
            assert(held.inventory[j] == w.game.inventory[j]);
        }
        lemma_equip_keeps_slots_unique(held, w.game.inventory.len() as int);
    }
}

/// Dropping an item keeps worn items in distinct slots.
pub proof fn lemma_drop_keeps_slots_unique(w: World, id: int)
    requires
        0 <= id < w.game.inventory.len(),
        slots_unique(w.game.inventory),
    ensures
        slots_unique(after_drop(w, id).game.inventory),
{
    let bare = if w.game.inventory[id].equipment is Some {
        after_dequip(w.game, id)
    } else {
        w.game
    };
    lemma_dequip_keeps_slots_unique(w.game, id);
    lemma_removal_keeps_slots_unique(bare.inventory, id);
}

/// Using an item keeps worn items in distinct slots.
pub proof fn lemma_use_keeps_slots_unique(w: World, id: int, fov: Visibility, target: Target)
    requires
        0 <= id < w.game.inventory.len(),
        slots_unique(w.game.inventory),
    ensures
        slots_unique(after_use(w, id, fov, target).game.inventory),
{
    lemma_equip_keeps_slots_unique(w.game, id);
    lemma_dequip_keeps_slots_unique(w.game, id);
    match w.game.inventory[id].item {
        Some(item) => {
            lemma_effect_keeps_inventory(item, w, fov, target);
            lemma_removal_keeps_slots_unique(w.game.inventory, id);
        },
        None => {},
    }
}

proof fn lemma_removal_keeps_slots_unique(inventory: Seq<ObjectView>, id: int)
    requires
        0 <= id < inventory.len(),
        slots_unique(inventory),
    ensures
        slots_unique(inventory.remove(id)),
{
    let rest = inventory.remove(id);
    assert forall|i: int, j: int|
        0 <= i < j < rest.len() && is_worn(rest[i]) && is_worn(rest[j]) implies rest[i].equipment.unwrap().slot
        != rest[j].equipment.unwrap().slot by {
        let a = if i < id {
            i
        } else {
            i + 1
        };
        let b = if j < id {
            j
        } else {
            j + 1
        };
        assert(rest[i] == inventory[a]);
        assert(rest[j] == inventory[b]);
    }
}

} // verus!
