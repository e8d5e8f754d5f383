//! What every step of the game leaves intact: a level in play stays one.

use vstd::prelude::*;
use crate::ai::{after_attack, is_step};
use crate::color::Color;
use crate::combat::{after_damage, game_after_damage};
use crate::command::{
    after_grab,
    Command,
    command_leads,
    command_of,
    first_item_at,
    item_lies_at,
    Key,
    on_stairs,
};
use crate::config::{INVENTORY_CAPACITY, LIGHTNING_RANGE, PLAYER};
use crate::equipment::{after_dequip, after_equip, after_toggle_equip};
use crate::fov::Visibility;
use crate::game::{GameState, GameView};
use crate::inventory::{after_drop, after_effect, after_pick_up, after_use, Target};
use crate::object::{Item, ObjectView};
use crate::progress::{after_level_check, improved, LevelUpChoice};
use crate::session::{lemma_level_in_play, rested};
use crate::spells::{
    after_confuse,
    after_fireball,
    after_heal,
    after_lightning,
    burn_one,
    burned_through,
    closest,
    lemma_closest_is_nearest,
    struck,
};
use crate::text::remains_text;
use crate::turn::{after_player_move, first_fighter_at, lemma_step_keeps};
use crate::world::{is_hero, World};

verus! {

/// What a dead monster leaves behind does not go by the player's name.
pub proof fn lemma_remains_not_player(name: Seq<char>)
    ensures
        remains_text(name) != "player"@,
{
    reveal_strlit("remains of ");
    reveal_strlit("player");
    assert(remains_text(name).len() == 11 + name.len());
}

/// Damage leaves an object where it stands, and neither gives the
/// player's name to anything else nor takes from the player what makes
/// it the player.
pub proof fn lemma_damage_keeps(object: ObjectView, damage: int, state: GameState)
    ensures
        after_damage(object, damage, state).x == object.x,
        after_damage(object, damage, state).y == object.y,
        !object.is_player() ==> !after_damage(object, damage, state).is_player(),
        is_hero(object) ==> is_hero(after_damage(object, damage, state)),
{
    lemma_remains_not_player(object.name);
}

/// Whether `after` differs from `before` in nothing that a level in play
/// rests on: the map and the inventory are the same, as many objects
/// stand where they stood, the player is still the player, and nothing
/// else has taken the player's name.
pub open spec fn same_standing(before: World, after: World) -> bool {
    &&& after.game.map == before.game.map
    &&& after.game.inventory == before.game.inventory
    &&& after.objects.len() == before.objects.len()
    &&& forall|i: int|
        0 <= i < before.objects.len() ==> {
            &&& (#[trigger] after.objects[i]).x == before.objects[i].x
            &&& after.objects[i].y == before.objects[i].y
            &&& !before.objects[i].is_player() ==> !after.objects[i].is_player()
            &&& is_hero(before.objects[i]) ==> is_hero(after.objects[i])
        }
}

/// A level in play stays one through changes that leave its standing.
pub proof fn lemma_same_standing_in_play(before: World, after: World)
    requires
        before.ok(),
        same_standing(before, after),
    ensures
        after.ok(),
{
    assert forall|i: int| 0 <= i < after.objects.len() implies after.game.map.is_floor(
        (#[trigger] after.objects[i]).x as int,
        after.objects[i].y as int,
    ) by {
        assert(before.game.map.is_floor(before.objects[i].x as int, before.objects[i].y as int));
    }
    assert forall|i: int| 0 < i < after.objects.len() implies !(#[trigger] after.objects[i]).is_player() by {
        assert(!before.objects[i].is_player());
    }
}

/// Dealing damage from afar leaves the standing of the world.
pub proof fn lemma_struck_keeps_standing(w: World, id: int, damage: int)
    requires
        w.objects.len() > 0,
        0 <= id < w.objects.len(),
    ensures
        same_standing(w, struck(w, id, damage)),
{
    lemma_damage_keeps(w.objects[id], damage, w.game.state);
}

/// A fireball leaves the standing of the world, however far it has got.
pub proof fn lemma_burn_keeps_standing(w: World, x: int, y: int, upto: int)
    requires
        w.objects.len() > 0,
        0 <= upto <= w.objects.len(),
    ensures
        same_standing(w, burned_through(w, x, y, upto)),
    decreases upto,
{
    if upto > 0 {
        lemma_burn_keeps_standing(w, x, y, upto - 1);
        let before = burned_through(w, x, y, upto - 1);
        let lit = World {
            game: before.game.logged(
                crate::text::burned_text(before.objects[upto - 1].name, crate::config::FIREBALL_DAMAGE as int),
                Color::Orange,
            ),
            ..before
        };
        lemma_struck_keeps_standing(lit, upto - 1, crate::config::FIREBALL_DAMAGE as int);
        let after = burn_one(before, upto - 1, x, y);
        assert forall|i: int| 0 <= i < w.objects.len() implies {
            &&& (#[trigger] after.objects[i]).x == w.objects[i].x
            &&& after.objects[i].y == w.objects[i].y
            &&& !w.objects[i].is_player() ==> !after.objects[i].is_player()
            &&& is_hero(w.objects[i]) ==> is_hero(after.objects[i])
        } by {
            assert(before.objects[i].x == w.objects[i].x);
            assert(lit.objects[i] == before.objects[i]);
        }
    }
}

/// The effect of an item keeps a level in play, so long as a scroll of
/// confusion is read at a monster of the level.
pub proof fn lemma_effect_keeps_play(item: Item, w: World, fov: Visibility, target: Target)
    requires
        w.ok(),
        target matches Target::Monster(id) ==> 0 < id < w.objects.len(),
    ensures
        after_effect(item, w, fov, target).ok(),
{
    match item {
        Item::Heal => {
            lemma_same_standing_in_play(w, after_heal(w));
        },
        Item::Lightning => {
            lemma_closest_is_nearest(w.objects, fov, LIGHTNING_RANGE as int);
            match closest(w.objects, fov, LIGHTNING_RANGE as int) {
                Some(id) => {
                    let lit = World {
                        game: w.game.logged(
                            crate::text::lightning_strike_text(
                                w.objects[id].name,
                                crate::config::LIGHTNING_DAMAGE as int,
                            ),
                            Color::LightBlue,
                        ),
                        ..w
                    };
                    lemma_struck_keeps_standing(lit, id, crate::config::LIGHTNING_DAMAGE as int);
                    lemma_same_standing_in_play(w, after_lightning(w, fov));
                },
                None => {
                    lemma_same_standing_in_play(w, after_lightning(w, fov));
                },
            }
        },
        Item::Fireball => {
            match target {
                Target::Tile(x, y) => {
                    let lit = World {
                        game: w.game.logged(
                            crate::text::fireball_explodes_text(crate::config::FIREBALL_RADIUS as int),
                            Color::Orange,
                        ),
                        ..w
                    };
                    lemma_burn_keeps_standing(lit, x as int, y as int, w.objects.len() as int);
                    lemma_same_standing_in_play(w, after_fireball(w, x as int, y as int));
                },
                _ => {},
            }
        },
        Item::Confuse => {
            match target {
                Target::Monster(id) => {
                    lemma_same_standing_in_play(w, after_confuse(w, id as int));
                },
                _ => {},
            }
        },
        Item::Inert => {},
    }
}

/// Putting equipment on and taking it off gives the player's name to
/// nothing in the inventory.
pub proof fn lemma_equipment_keeps_names(g: GameView, id: int)
    requires
        0 <= id < g.inventory.len(),
        forall|i: int| 0 <= i < g.inventory.len() ==> !(#[trigger] g.inventory[i]).is_player(),
    ensures
        after_dequip(g, id).inventory.len() == g.inventory.len(),
        after_equip(g, id).inventory.len() == g.inventory.len(),
        after_toggle_equip(g, id).inventory.len() == g.inventory.len(),
        after_dequip(g, id).map == g.map,
        after_equip(g, id).map == g.map,
        forall|i: int| 0 <= i < g.inventory.len() ==> !(#[trigger] after_dequip(g, id).inventory[i]).is_player(),
        forall|i: int| 0 <= i < g.inventory.len() ==> !(#[trigger] after_equip(g, id).inventory[i]).is_player(),
        forall|i: int|
            0 <= i < g.inventory.len() ==> !(#[trigger] after_toggle_equip(g, id).inventory[i]).is_player(),
{
    crate::equipment::lemma_first_worn_least(g.inventory, crate::equipment::slot_of(g.inventory[id]), 0);
    let cleared = match crate::equipment::first_worn(g.inventory, crate::equipment::slot_of(g.inventory[id]), 0) {
        Some(other) => after_dequip(g, other),
        None => g,
    };
    assert forall|i: int| 0 <= i < g.inventory.len() implies !(#[trigger] cleared.inventory[i]).is_player() by {
        assert(!g.inventory[i].is_player());
    }
    assert forall|i: int| 0 <= i < g.inventory.len() implies !(#[trigger] after_equip(g, id).inventory[i]).is_player() by {
        assert(!cleared.inventory[i].is_player());
    }
    assert forall|i: int| 0 <= i < g.inventory.len() implies !(#[trigger] after_dequip(g, id).inventory[i]).is_player() by {
        assert(!g.inventory[i].is_player());
    }
}

/// Using an item keeps a level in play, so long as a scroll of confusion
/// is read at a monster of the level.
pub proof fn lemma_use_keeps_play(w: World, id: int, fov: Visibility, target: Target)
    requires
        w.ok(),
        0 <= id < w.game.inventory.len(),
        target matches Target::Monster(m) ==> 0 < m < w.objects.len(),
    ensures
        after_use(w, id, fov, target).ok(),
{
    let object = w.game.inventory[id];
    lemma_equipment_keeps_names(w.game, id);
    match object.item {
        Some(item) => {
            if object.equipment is None {
                lemma_effect_keeps_play(item, w, fov, target);
                crate::inventory::lemma_effect_keeps_inventory(item, w, fov, target);
                let done = after_effect(item, w, fov, target);
                let rest = done.game.inventory.remove(id);
                assert forall|i: int| 0 <= i < rest.len() implies !(#[trigger] rest[i]).is_player() by {
                    if i < id {
                        assert(rest[i] == w.game.inventory[i]);
                    } else {
                        assert(rest[i] == w.game.inventory[i + 1]);
                    }
                }
            }
        },
        None => {},
    }
}

/// Picking up an object other than the player keeps a level in play.
pub proof fn lemma_pick_up_keeps_play(w: World, id: int)
    requires
        w.ok(),
        0 < id < w.objects.len(),
    ensures
        after_pick_up(w, id).ok(),
{
    let item = crate::equipment::with_worn(w.objects[id], false);
    if w.game.inventory.len() < INVENTORY_CAPACITY {
        let held = GameView {
            inventory: w.game.inventory.push(item),
            ..w.game.logged(crate::text::picked_up_text(item.name), Color::Green)
        };
        assert forall|i: int| 0 <= i < held.inventory.len() implies !(#[trigger] held.inventory[i]).is_player() by {
            if i < w.game.inventory.len() {
                assert(held.inventory[i] == w.game.inventory[i]);
            }
        }
        lemma_equipment_keeps_names(held, w.game.inventory.len() as int);
        let rest = w.objects.update(id, w.objects.last()).drop_last();
        assert forall|i: int| 0 <= i < rest.len() implies w.game.map.is_floor(
            (#[trigger] rest[i]).x as int,
            rest[i].y as int,
        ) && (i > 0 ==> !rest[i].is_player()) by {
            if i == id {
                assert(rest[i] == w.objects[w.objects.len() - 1]);
            } else {
                assert(rest[i] == w.objects[i]);
            }
        }
        assert(rest[0] == w.objects[0]);
    }
}

/// Picking up what lies underfoot keeps a level in play.
pub proof fn lemma_grab_keeps_play(w: World)
    requires
        w.ok(),
    ensures
        after_grab(w).ok(),
{
    let player = w.objects[PLAYER as int];
    lemma_first_item(w.objects, player.x as int, player.y as int, 0);
    match first_item_at(w.objects, player.x as int, player.y as int, 0) {
        Some(id) => {
            lemma_pick_up_keeps_play(w, id);
        },
        None => {},
    }
}

proof fn lemma_first_item(objects: Seq<ObjectView>, x: int, y: int, from: int)
    requires
        0 <= from,
    ensures
        match first_item_at(objects, x, y, from) {
            Some(id) => from <= id < objects.len() && item_lies_at(objects[id], x, y),
            None => true,
        },
    decreases objects.len() - from,
{
    if from < objects.len() && !item_lies_at(objects[from], x, y) {
        lemma_first_item(objects, x, y, from + 1);
    }
}

/// Dropping an item keeps a level in play.
pub proof fn lemma_drop_keeps_play(w: World, id: int)
    requires
        w.ok(),
        0 <= id < w.game.inventory.len(),
    ensures
        after_drop(w, id).ok(),
{
    lemma_equipment_keeps_names(w.game, id);
    let bare = if w.game.inventory[id].equipment is Some {
        after_dequip(w.game, id)
    } else {
        w.game
    };
    let after = after_drop(w, id);
    assert(!bare.inventory[id].is_player());
    assert(w.game.map.is_floor(w.objects[PLAYER as int].x as int, w.objects[PLAYER as int].y as int));
    assert forall|i: int| 0 <= i < after.objects.len() implies after.game.map.is_floor(
        (#[trigger] after.objects[i]).x as int,
        after.objects[i].y as int,
    ) && (i > 0 ==> !after.objects[i].is_player()) by {
        if i < w.objects.len() {
            assert(after.objects[i] == w.objects[i]);
        }
    }
    assert(after.objects[0] == w.objects[0]);
    let rest = bare.inventory.remove(id);
    assert forall|i: int| 0 <= i < rest.len() implies !(#[trigger] rest[i]).is_player() by {
        if i < id {
            assert(rest[i] == bare.inventory[i]);
        } else {
            assert(rest[i] == bare.inventory[i + 1]);
        }
    }
}

/// An attack leaves the standing of the world.
pub proof fn lemma_attack_keeps_standing(w: World, attacker: int, target: int)
    requires
        w.objects.len() > 0,
        0 <= attacker < w.objects.len(),
        0 <= target < w.objects.len(),
        attacker != target,
    ensures
        same_standing(w, after_attack(w, attacker, target)),
{
    let damage = crate::combat::attack_damage(w.objects[attacker], w.objects[target], w.game.inventory);
    lemma_damage_keeps(w.objects[target], damage, w.game.state);
    let hit = w.game.logged(
        crate::text::hit_text(w.objects[attacker].name, w.objects[target].name, damage),
        Color::White,
    );
    assert(game_after_damage(hit, w.objects[target], damage).map == w.game.map);
    assert(game_after_damage(hit, w.objects[target], damage).inventory == w.game.inventory);
}

proof fn lemma_first_fighter_found(objects: Seq<ObjectView>, x: int, y: int, from: int)
    requires
        0 <= from,
    ensures
        match first_fighter_at(objects, x, y, from) {
            Some(id) => from <= id < objects.len() && crate::turn::fighter_stands_at(objects[id], x, y),
            None => true,
        },
    decreases objects.len() - from,
{
    if from < objects.len() && !crate::turn::fighter_stands_at(objects[from], x, y) {
        lemma_first_fighter_found(objects, x, y, from + 1);
    }
}

/// A real step of the player, of at most one tile each way, keeps a
/// level in play, whether it ends in a move or in an attack.
pub proof fn lemma_player_move_keeps_play(w: World, dx: int, dy: int)
    requires
        w.ok(),
        is_step(dx, dy),
        dx != 0 || dy != 0,
    ensures
        after_player_move(w, dx, dy).ok(),
{
    let player = w.objects[PLAYER as int];
    assert(w.game.map.is_floor(player.x as int, player.y as int));
    lemma_first_fighter_found(w.objects, player.x + dx, player.y + dy, 0);
    match first_fighter_at(w.objects, player.x + dx, player.y + dy, 0) {
        Some(target) => {
            lemma_attack_keeps_standing(w, PLAYER as int, target);
            lemma_same_standing_in_play(w, after_attack(w, PLAYER as int, target));
        },
        None => {
            lemma_step_keeps(w, PLAYER as int, dx, dy);
            let after = after_player_move(w, dx, dy);
            assert forall|i: int| 0 <= i < after.objects.len() implies after.game.map.is_floor(
                (#[trigger] after.objects[i]).x as int,
                after.objects[i].y as int,
            ) && (i > 0 ==> !after.objects[i].is_player()) by {
                if i != PLAYER {
                    assert(after.objects[i] == w.objects[i]);
                }
            }
        },
    }
}

/// The check for a level-up keeps a level in play, and so does the
/// improvement that the player chooses.
pub proof fn lemma_level_up_keeps_play(w: World, choice: LevelUpChoice)
    requires
        w.ok(),
    ensures
        after_level_check(w).ok(),
        (World {
            objects: w.objects.update(
                PLAYER as int,
                ObjectView {
                    fighter: Some(improved(w.objects[PLAYER as int].fighter.unwrap(), choice)),
                    ..w.objects[PLAYER as int]
                },
            ),
            ..w
        }).ok(),
{
    let player = w.objects[PLAYER as int];
    crate::progress::lemma_levels_logged_keeps(
        w.game,
        player.level as int,
        player.level + crate::progress::levels_owed(player),
    );
    lemma_same_standing_in_play(w, after_level_check(w));
    let improved_world = World {
        objects: w.objects.update(
            PLAYER as int,
            ObjectView {
                fighter: Some(improved(w.objects[PLAYER as int].fighter.unwrap(), choice)),
                ..w.objects[PLAYER as int]
            },
        ),
        ..w
    };
    lemma_same_standing_in_play(w, improved_world);
}

/// Whatever a key stands for, carrying it out keeps a level in play.
pub proof fn lemma_command_keeps_play(before: World, after: World, key: Option<Key>)
    requires
        before.ok(),
        command_leads(before, after, command_of(key, before.game.state)),
    ensures
        after.ok(),
{
    match command_of(key, before.game.state) {
        Command::Move(dx, dy) => {
            lemma_player_move_keeps_play(before, dx as int, dy as int);
        },
        Command::PickUp => {
            lemma_grab_keeps_play(before);
        },
        Command::Descend => {
            if on_stairs(before.objects) {
                lemma_level_in_play(
                    rested(before.objects[PLAYER as int], before.game.inventory),
                    after.objects,
                    after.game,
                    before.game.dungeon_level + 1,
                );
            }
        },
        _ => {},
    }
}

} // verus!
