//! What is shown to the player, as far as the world decides it: which
//! objects are drawn and in which order, what the menus list, and which
//! entry a key picks.

use vstd::prelude::*;
use crate::config::PLAYER;
use crate::dungeon::{in_bounds, TileMap};
use crate::equipment::is_worn;
use crate::fov::Visibility;
use crate::game::{fits_i32, full_stat, Game, Stat};
use crate::object::{Object, ObjectView, views};
use crate::progress::level_up_xp;
use crate::text::{
    agility_option_message,
    agility_option_text,
    character_sheet_message,
    character_sheet_text,
    constitution_option_message,
    constitution_option_text,
    strength_option_message,
    strength_option_text,
    worn_item_message,
    worn_item_text,
};

verus! {

/// Whether `object` is drawn: it is in the player's view, or it is one
/// that stays in sight and stands on a tile that was seen before.
pub open spec fn shown(object: ObjectView, map: TileMap, fov: Visibility) -> bool {
    fov.visible(object.x as int, object.y as int) || (object.always_visible && map.tile(
        object.x as int,
        object.y as int,
    ).explored)
}

/// The layer that `object` is drawn in: fighters on top, items below
/// them, everything else at the bottom.
pub open spec fn draw_layer(object: ObjectView) -> int {
    if object.fighter is Some {
        2
    } else if object.item is Some {
        1
    } else {
        0
    }
}

/// The indices among the first `upto` objects that are drawn in `layer`,
/// in order.
pub open spec fn layer_indices(objects: Seq<ObjectView>, layer: int, upto: int) -> Seq<usize>
    decreases upto,
{
    if upto <= 0 {
        Seq::empty()
    } else if draw_layer(objects[upto - 1]) == layer {
        layer_indices(objects, layer, upto - 1).push((upto - 1) as usize)
    } else {
        layer_indices(objects, layer, upto - 1)
    }
}

/// The order in which the objects are drawn: layer by layer from the
/// bottom, and within a layer in the order of the list.
pub open spec fn draw_sequence(objects: Seq<ObjectView>) -> Seq<usize> {
    layer_indices(objects, 0, objects.len() as int) + layer_indices(objects, 1, objects.len() as int)
        + layer_indices(objects, 2, objects.len() as int)
}

impl Object {
    /// Whether the object is drawn: only if it is visible to the player,
    /// or set to stay in sight and on an explored tile.
    pub fn is_shown(&self, map: &TileMap, fov: &Visibility) -> (b: bool)
        requires
            map.wf(),
            self.always_visible && !fov.visible(self.x as int, self.y as int) ==> in_bounds(
                self.x as int,
                self.y as int,
            ),
        ensures
            b == shown(self@, *map, *fov),
    {
        fov.is_in_fov(self.x, self.y) || (self.always_visible && map.tiles[self.x as usize][self.y as usize].explored)
    }

    /// The layer that the object is drawn in.
    pub fn layer(&self) -> (layer: u8)
        ensures
            layer == draw_layer(self@),
    {
        if self.fighter.is_some() {
            2
        } else if self.item.is_some() {
            1
        } else {
            0
        }
    }
}

fn push_layer(objects: &Vec<Object>, layer: u8, order: &mut Vec<usize>)
    ensures
        final(order)@ == old(order)@ + layer_indices(views(objects@), layer as int, objects@.len() as int),
{
    let mut id: usize = 0;
    while id < objects.len()
        invariant
            id <= objects@.len(),
            order@ == old(order)@ + layer_indices(views(objects@), layer as int, id as int),
        decreases objects@.len() - id,
    {
        if objects[id].layer() == layer {
            order.push(id);
        }
        id = id + 1;
        assert(order@ =~= old(order)@ + layer_indices(views(objects@), layer as int, id as int));
    }
}

/// The order in which the objects are drawn, as indices into the list:
/// what is neither fighter nor item first, then the items, then the
/// fighters; within each, in the order of the list.
pub fn draw_order(objects: &Vec<Object>) -> (order: Vec<usize>)
    ensures
        order@ == draw_sequence(views(objects@)),
{
    let mut order: Vec<usize> = Vec::new();
    push_layer(objects, 0, &mut order);
    push_layer(objects, 1, &mut order);
    push_layer(objects, 2, &mut order);
    assert(order@ =~= draw_sequence(views(objects@)));
    order
}

/// The entry of a menu of `count` entries that the character `key`
/// picks: letters stand for the entries in alphabetical order, in either
/// case.
pub open spec fn menu_pick(key: char, count: int) -> Option<usize> {
    let code = key as int;
    let index = if 'a' as int <= code <= 'z' as int {
        code - 'a' as int
    } else if 'A' as int <= code <= 'Z' as int {
        code - 'A' as int
    } else {
        count
    };
    if index < count {
        Some(index as usize)
    } else {
        None
    }
}

/// The entry of a menu of `count` entries that the character `key`
/// picks, if it picks any. A menu has no more entries than there are
/// letters.
pub fn menu_choice(key: char, count: usize) -> (choice: Option<usize>)
    requires
        count <= crate::config::INVENTORY_CAPACITY,
    ensures
        choice == menu_pick(key, count as int),
{
    let code = key as u32;
    let index: u32 = if 'a' as u32 <= code && code <= 'z' as u32 {
        code - 'a' as u32
    } else if 'A' as u32 <= code && code <= 'Z' as u32 {
        code - 'A' as u32
    } else {
        return None;
    };
    if (index as usize) < count {
        Some(index as usize)
    } else {
        None
    }
}

/// How an item is listed in the inventory: by its name, and by its slot
/// too while it is worn.
pub open spec fn item_label(item: ObjectView) -> Seq<char> {
    if is_worn(item) {
        worn_item_text(item.name, item.equipment.unwrap().slot)
    } else {
        item.name
    }
}

/// What the inventory menu lists: a line that says so for an empty
/// inventory, and the items otherwise.
pub open spec fn inventory_lines(inventory: Seq<ObjectView>) -> Seq<Seq<char>> {
    if inventory.len() == 0 {
        seq!["Inventory is empty."@]
    } else {
        Seq::new(inventory.len(), |i: int| item_label(inventory[i]))
    }
}

/// The texts of a list of strings.
pub open spec fn texts(lines: Seq<String>) -> Seq<Seq<char>> {
    Seq::new(lines.len(), |i: int| lines[i]@)
}

/// The entries of the inventory menu.
pub fn inventory_options(game: &Game) -> (options: Vec<String>)
    ensures
        texts(options@) == inventory_lines(game@.inventory),
{
    let mut options: Vec<String> = Vec::new();
    assert(views(game.inventory@).len() == game.inventory@.len());
    if game.inventory.len() == 0 {
        options.push(String::from_str("Inventory is empty."));
        assert(texts(options@) =~= inventory_lines(game@.inventory));
        return options;
    }
    let mut i: usize = 0;
    while i < game.inventory.len()
        invariant
            i <= game.inventory@.len(),
            options@.len() == i,
            forall|j: int| 0 <= j < i ==> (#[trigger] options@[j])@ == item_label(game@.inventory[j]),
        decreases game.inventory@.len() - i,
    {
        let item = &game.inventory[i];
        let text = match &item.equipment {
            Some(equipment) => if equipment.is_equipped {
                worn_item_message(item.name.as_str(), equipment.slot.as_str())
            } else {
                item.name.clone()
            },
            None => item.name.clone(),
        };
        options.push(text);
        i = i + 1;
    }
    assert(texts(options@) =~= inventory_lines(game@.inventory));
    options
}

/// The item that an answer to the inventory menu picks: none from an
/// empty inventory, whatever the answer.
pub fn inventory_choice(game: &Game, answer: Option<usize>) -> (choice: Option<usize>)
    ensures
        choice == if game.inventory@.len() > 0 {
            answer
        } else {
            None
        },
{
    if game.inventory.len() > 0 {
        answer
    } else {
        None
    }
}

/// The names of the first `upto` objects that stand at `(x, y)` in the
/// player's view, in order.
pub open spec fn names_at(objects: Seq<ObjectView>, fov: Visibility, x: int, y: int, upto: int) -> Seq<
    Seq<char>,
>
    decreases upto,
{
    if upto <= 0 {
        Seq::empty()
    } else {
        let earlier = names_at(objects, fov, x, y, upto - 1);
        let object = objects[upto - 1];
        if object.x == x && object.y == y && fov.visible(x, y) {
            earlier.push(object.name)
        } else {
            earlier
        }
    }
}

/// `names` written one after the other, with a comma and a blank between
/// any two.
pub open spec fn comma_list(names: Seq<Seq<char>>) -> Seq<char>
    decreases names.len(),
{
    if names.len() == 0 {
        Seq::empty()
    } else if names.len() == 1 {
        names[0]
    } else {
        comma_list(names.drop_last()) + ", "@ + names.last()
    }
}

/// The names of all objects that stand at `(x, y)` in the player's view,
/// with a comma and a blank between any two.
pub fn get_names_under_mouse(x: i32, y: i32, objects: &Vec<Object>, fov: &Visibility) -> (names: String)
    ensures
        names@ == comma_list(names_at(views(objects@), *fov, x as int, y as int, objects@.len() as int)),
{
    let mut names = String::new();
    let mut first = true;
    let mut id: usize = 0;
    let ghost mut found: Seq<Seq<char>> = Seq::empty();
    while id < objects.len()
        invariant
            id <= objects@.len(),
            found == names_at(views(objects@), *fov, x as int, y as int, id as int),
            names@ == comma_list(found),
            first == (found.len() == 0),
        decreases objects@.len() - id,
    {
        if objects[id].x == x && objects[id].y == y && fov.is_in_fov(objects[id].x, objects[id].y) {
            let ghost longer = found.push(objects@[id as int].name@);
            proof {
                assert(longer.drop_last() =~= found);
                assert(longer.last() == objects@[id as int].name@);
                if found.len() == 0 {
                    assert(longer[0] == objects@[id as int].name@);
                    assert(comma_list(found) =~= Seq::<char>::empty());
                }
            }
            if !first {
                names.append(", ");
            }
            names.append(objects[id].name.as_str());
            first = false;
            proof {
                found = longer;
                assert(names@ =~= comma_list(found));
            }
        }
        id = id + 1;
    }
    names
}

/// What the level-up menu lists: each choice with the statistic as it
/// stands.
pub fn level_up_options(objects: &Vec<Object>, game: &Game) -> (options: Vec<String>)
    requires
        objects@.len() > 0,
        fits_i32(full_stat(views(objects@)[PLAYER as int], game@.inventory, Stat::MaxHp)),
        fits_i32(full_stat(views(objects@)[PLAYER as int], game@.inventory, Stat::Power)),
        fits_i32(full_stat(views(objects@)[PLAYER as int], game@.inventory, Stat::Defense)),
    ensures
        texts(options@) == seq![
            constitution_option_text(full_stat(views(objects@)[PLAYER as int], game@.inventory, Stat::MaxHp)),
            strength_option_text(full_stat(views(objects@)[PLAYER as int], game@.inventory, Stat::Power)),
            agility_option_text(full_stat(views(objects@)[PLAYER as int], game@.inventory, Stat::Defense)),
        ],
{
    let player = &objects[PLAYER];
    let mut options: Vec<String> = Vec::new();
    options.push(constitution_option_message(player.full_max_hp(game)));
    options.push(strength_option_message(player.full_power(game)));
    options.push(agility_option_message(player.full_defense(game)));
    assert(texts(options@) =~= seq![
        constitution_option_text(full_stat(views(objects@)[PLAYER as int], game@.inventory, Stat::MaxHp)),
        strength_option_text(full_stat(views(objects@)[PLAYER as int], game@.inventory, Stat::Power)),
        agility_option_text(full_stat(views(objects@)[PLAYER as int], game@.inventory, Stat::Defense)),
    ]);
    options
}

/// The character's statistics as a text to show; nothing for a player
/// who is no fighter.
pub fn character_sheet(objects: &Vec<Object>, game: &Game) -> (sheet: Option<String>)
    requires
        objects@.len() > 0,
        fits_i32(objects@[PLAYER as int].level * crate::config::LEVEL_UP_FACTOR),
        fits_i32(level_up_xp(objects@[PLAYER as int].level as int)),
        fits_i32(full_stat(views(objects@)[PLAYER as int], game@.inventory, Stat::MaxHp)),
        fits_i32(full_stat(views(objects@)[PLAYER as int], game@.inventory, Stat::Power)),
        fits_i32(full_stat(views(objects@)[PLAYER as int], game@.inventory, Stat::Defense)),
    ensures
        match sheet {
            Some(text) => objects@[PLAYER as int].fighter is Some && text@ == character_sheet_text(
                objects@[PLAYER as int].level as int,
                objects@[PLAYER as int].fighter.unwrap().xp as int,
                level_up_xp(objects@[PLAYER as int].level as int),
                full_stat(views(objects@)[PLAYER as int], game@.inventory, Stat::MaxHp),
                full_stat(views(objects@)[PLAYER as int], game@.inventory, Stat::Power),
                full_stat(views(objects@)[PLAYER as int], game@.inventory, Stat::Defense),
            ),
            None => objects@[PLAYER as int].fighter is None,
        },
{
    let player = &objects[PLAYER];
    let level = player.level;
    let level_up_xp = crate::config::LEVEL_UP_BASE + level * crate::config::LEVEL_UP_FACTOR;
    let power = player.full_power(game);
    let defense = player.full_defense(game);
    let max_hp = player.full_max_hp(game);
    match &player.fighter {
        Some(fighter) => Some(character_sheet_message(level, fighter.xp, level_up_xp, max_hp, power, defense)),
        None => None,
    }
}

} // verus!
