//! Bounds within which every number of the game stays clear of the ends
//! of `i32`, and the test whether a world keeps to them.

use vstd::prelude::*;
use crate::config::{INVENTORY_CAPACITY, MAP_HEIGHT, MAP_WIDTH, PLAYER};
use crate::dungeon::{Rect, TileMap};
use crate::game::{Game, GameView};
use crate::generate::{generated, level_ok, room_cap};
use crate::object::{DeathCallback, EquipmentView, Fighter, Object, ObjectView, views};
use crate::session::lemma_level_in_play;
use crate::spawn::Spawn;
use crate::world::{is_hero, World, world_of};

verus! {

/// The most that a statistic, a bonus, a level or an amount of
/// experience may be, either side of zero.
pub const STAT_LIMIT: i32 = 1_000_000;

/// The most objects that a level may hold.
pub const OBJECT_LIMIT: usize = 1_000;

/// Whether `n` is no further from zero than the limit.
pub open spec fn within(n: int) -> bool {
    -STAT_LIMIT <= n <= STAT_LIMIT
}

/// Whether the numbers of `fighter` keep to the limit.
pub open spec fn fighter_in_limits(fighter: Fighter) -> bool {
    &&& within(fighter.base_max_hp as int)
    &&& within(fighter.hp as int)
    &&& within(fighter.base_defense as int)
    &&& within(fighter.base_power as int)
    &&& within(fighter.xp as int)
}

/// Whether the bonuses of `equipment` keep to the limit.
pub open spec fn equipment_in_limits(equipment: EquipmentView) -> bool {
    &&& within(equipment.power_bonus as int)
    &&& within(equipment.defense_bonus as int)
    &&& within(equipment.max_hp_bonus as int)
}

/// Whether the numbers of `object` keep to the limit, and its level is
/// none below zero.
pub open spec fn object_in_limits(object: ObjectView) -> bool {
    &&& 0 <= object.level <= STAT_LIMIT
    &&& match object.fighter {
        Some(f) => fighter_in_limits(f),
        None => true,
    }
    &&& match object.equipment {
        Some(e) => equipment_in_limits(e),
        None => true,
    }
}

impl World {
    /// Whether the world is a level in play whose numbers keep to the
    /// limits.
    pub open spec fn in_limits(self) -> bool {
        &&& self.ok()
        &&& self.objects.len() <= OBJECT_LIMIT
        &&& within(self.game.dungeon_level as int)
        &&& forall|i: int| 0 <= i < self.objects.len() ==> object_in_limits(#[trigger] self.objects[i])
        &&& forall|i: int|
            0 <= i < self.game.inventory.len() ==> object_in_limits(#[trigger] self.game.inventory[i])
    }
}

fn number_within(n: i32) -> (b: bool)
    ensures
        b == within(n as int),
{
    -STAT_LIMIT <= n && n <= STAT_LIMIT
}

/// Whether the numbers of the object keep to the limit.
pub fn object_within(object: &Object) -> (b: bool)
    ensures
        b == object_in_limits(object@),
{
    let fighter_ok = match &object.fighter {
        Some(f) => number_within(f.base_max_hp) && number_within(f.hp) && number_within(f.base_defense)
            && number_within(f.base_power) && number_within(f.xp),
        None => true,
    };
    let equipment_ok = match &object.equipment {
        Some(e) => number_within(e.power_bonus) && number_within(e.defense_bonus) && number_within(
            e.max_hp_bonus,
        ),
        None => true,
    };
    0 <= object.level && object.level <= STAT_LIMIT && fighter_ok && equipment_ok
}

fn all_within(objects: &Vec<Object>) -> (b: bool)
    ensures
        b == forall|i: int| 0 <= i < objects@.len() ==> object_in_limits(#[trigger] views(objects@)[i]),
{
    let mut i: usize = 0;
    while i < objects.len()
        invariant
            i <= objects@.len(),
            forall|j: int| 0 <= j < i ==> object_in_limits(#[trigger] views(objects@)[j]),
        decreases objects@.len() - i,
    {
        if !object_within(&objects[i]) {
            assert(!object_in_limits(views(objects@)[i as int]));
            return false;
        }
        i = i + 1;
    }
    true
}

/// Whether the grid has the full width and height of a level.
pub fn map_whole(map: &TileMap) -> (b: bool)
    ensures
        b == map.wf(),
{
    if map.tiles.len() != MAP_WIDTH as usize {
        return false;
    }
    let mut x: usize = 0;
    while x < MAP_WIDTH as usize
        invariant
            x <= MAP_WIDTH,
            map.tiles@.len() == MAP_WIDTH,
            forall|i: int| 0 <= i < x ==> (#[trigger] map.tiles@[i])@.len() == MAP_HEIGHT,
        decreases MAP_WIDTH - x,
    {
        if map.tiles[x].len() != MAP_HEIGHT as usize {
            return false;
        }
        x = x + 1;
    }
    true
}

/// Whether every tile on the rim of the grid is solid.
pub fn map_enclosed(map: &TileMap) -> (b: bool)
    requires
        map.wf(),
    ensures
        b == map.enclosed(),
{
    let mut x: i32 = 0;
    while x < MAP_WIDTH
        invariant
            0 <= x <= MAP_WIDTH,
            map.wf(),
            forall|a: int, b: int|
                0 <= a < x && #[trigger] map.is_floor(a, b) ==> 0 < a < MAP_WIDTH - 1 && 0 < b < MAP_HEIGHT
                    - 1,
        decreases MAP_WIDTH - x,
    {
        let mut y: i32 = 0;
        while y < MAP_HEIGHT
            invariant
                0 <= x < MAP_WIDTH,
                0 <= y <= MAP_HEIGHT,
                map.wf(),
                forall|a: int, b: int|
                    (0 <= a < x || (a == x && 0 <= b < y)) && #[trigger] map.is_floor(a, b) ==> 0 < a
                        < MAP_WIDTH - 1 && 0 < b < MAP_HEIGHT - 1,
            decreases MAP_HEIGHT - y,
        {
            let rim = x == 0 || y == 0 || x == MAP_WIDTH - 1 || y == MAP_HEIGHT - 1;
            if rim && !map.is_blocked_at(x, y) {
                assert(map.is_floor(x as int, y as int));
                return false;
            }
            y = y + 1;
        }
        x = x + 1;
    }
    true
}

/// Whether the tile at `(x, y)` is one of the grid that can be walked on.
pub fn on_floor(map: &TileMap, x: i32, y: i32) -> (b: bool)
    requires
        map.wf(),
    ensures
        b == map.is_floor(x as int, y as int),
{
    0 <= x && x < MAP_WIDTH && 0 <= y && y < MAP_HEIGHT && !map.is_blocked_at(x, y)
}

/// Whether the objects and the session make up a level in play.
pub fn level_in_play(objects: &Vec<Object>, game: &Game) -> (b: bool)
    ensures
        b == world_of(objects@, *game).ok(),
{
    let ghost w = world_of(objects@, *game);
    assert(w.objects.len() == objects@.len());
    assert(w.game.inventory.len() == game.inventory@.len());
    if !map_whole(&game.map) {
        return false;
    }
    if !map_enclosed(&game.map) {
        return false;
    }
    if objects.len() == 0 || game.inventory.len() > INVENTORY_CAPACITY {
        return false;
    }
    let player = &objects[PLAYER];
    let hero = match &player.fighter {
        Some(f) => match f.death {
            Some(DeathCallback::Monster) => false,
            _ => true,
        },
        None => false,
    };
    if !player.is_player() || !hero || player.ai.is_some() || player.item.is_some() {
        return false;
    }
    let mut k: usize = 0;
    while k < game.inventory.len()
        invariant
            k <= game.inventory@.len(),
            w == world_of(objects@, *game),
            forall|j: int| 0 <= j < k ==> !(#[trigger] w.game.inventory[j]).is_player(),
        decreases game.inventory@.len() - k,
    {
        if game.inventory[k].is_player() {
            assert(w.game.inventory[k as int].is_player());
            return false;
        }
        k = k + 1;
    }
    let mut i: usize = 0;
    while i < objects.len()
        invariant
            i <= objects@.len(),
            objects@.len() > 0,
            game.map.wf(),
            w == world_of(objects@, *game),
            forall|j: int| 0 < j < i ==> !(#[trigger] w.objects[j]).is_player(),
            forall|j: int|
                0 <= j < i ==> game.map.is_floor((#[trigger] w.objects[j]).x as int, w.objects[j].y as int),
        decreases objects@.len() - i,
    {
        if i > 0 && objects[i].is_player() {
            assert(w.objects[i as int].is_player());
            return false;
        }
        if !on_floor(&game.map, objects[i].x, objects[i].y) {
            assert(!game.map.is_floor(w.objects[i as int].x as int, w.objects[i as int].y as int));
            return false;
        }
        i = i + 1;
    }
    true
}

/// Whether the objects and the session make up a level in play whose
/// numbers keep to the limits.
pub fn in_limits(objects: &Vec<Object>, game: &Game) -> (b: bool)
    ensures
        b == world_of(objects@, *game).in_limits(),
{
    assert(views(objects@).len() == objects@.len());
    assert(views(game.inventory@).len() == game.inventory@.len());
    level_in_play(objects, game) && objects.len() <= OBJECT_LIMIT && number_within(game.dungeon_level)
        && all_within(objects) && all_within(&game.inventory)
}

/// A level freshly generated around a player whose numbers keep to the
/// limits keeps to the limits, so long as the inventory and the depth
/// do.
pub proof fn lemma_new_level_in_limits(
    player_before: ObjectView,
    objects: Seq<ObjectView>,
    g: GameView,
    level: int,
)
    requires
        generated(player_before, objects, g.map, level),
        is_hero(player_before),
        object_in_limits(player_before),
        within(g.dungeon_level as int),
        g.inventory.len() <= INVENTORY_CAPACITY,
        forall|i: int|
            0 <= i < g.inventory.len() ==> object_in_limits(#[trigger] g.inventory[i]) && !g.inventory[i].is_player(),
    ensures
        (World { objects, game: g }).in_limits(),
{
    lemma_level_in_play(player_before, objects, g, level);
    let rooms = choose|rooms: Seq<Rect>| level_ok(player_before, objects, g.map, rooms, level);
    let dug = objects.drop_last();
    assert(dug.len() <= 1 + rooms.len() * room_cap(level));
    assert(rooms.len() * room_cap(level) <= 30 * 7) by (nonlinear_arith)
        requires
            0 <= rooms.len() <= 30,
            0 <= room_cap(level) <= 7,
    ;
    assert forall|i: int| 0 <= i < objects.len() implies object_in_limits(#[trigger] objects[i]) by {
        if i == 0 {
            assert(objects[0] == dug[0]);
        } else if i < objects.len() - 1 {
            assert(objects[i] == dug[i]);
            let spawn = choose|spawn: Spawn| #[trigger] spawn.likely(level) && dug[i] == spawn.object();
            match spawn {
                Spawn::Monster { kind, x, y } => {},
                Spawn::Item { kind, x, y } => {},
            }
        }
    }
}

} // verus!
