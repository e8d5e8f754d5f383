//! The objects of a level on its map: who stands where, and how they move.

use vstd::prelude::*;
use crate::config::{INVENTORY_CAPACITY, PLAYER};
use crate::dungeon::{in_bounds, TileMap};
use crate::game::{Game, GameView};
use crate::object::{DeathCallback, Object, ObjectView, views};

verus! {

/// The objects of the current level together with the session.
pub struct World {
    pub objects: Seq<ObjectView>,
    pub game: GameView,
}

/// The world that `objects` and `game` make up.
pub open spec fn world_of(objects: Seq<Object>, game: Game) -> World {
    World { objects: views(objects), game: game@ }
}

impl World {
    /// What holds of a level in play: the map is whole and walled in; the
    /// player comes first and is the only object by that name, on the
    /// level and in the inventory; every object stands on a walkable
    /// tile; and the inventory holds no more than it can.
    pub open spec fn ok(self) -> bool {
        &&& self.game.map.wf()
        &&& self.game.map.enclosed()
        &&& self.objects.len() > 0
        &&& is_hero(self.objects[PLAYER as int])
        &&& forall|i: int| 0 < i < self.objects.len() ==> !(#[trigger] self.objects[i]).is_player()
        &&& forall|i: int|
            0 <= i < self.objects.len() ==> self.game.map.is_floor(
                (#[trigger] self.objects[i]).x as int,
                self.objects[i].y as int,
            )
        &&& self.game.inventory.len() <= INVENTORY_CAPACITY
        &&& forall|i: int|
            0 <= i < self.game.inventory.len() ==> !(#[trigger] self.game.inventory[i]).is_player()
    }
}

/// Whether `player` can stand for the player in a level: it goes by the
/// player's name, fights, does not die a monster's death, has no
/// behaviour of its own, and is no item.
pub open spec fn is_hero(player: ObjectView) -> bool {
    &&& player.is_player()
    &&& player.fighter is Some
    &&& player.fighter.unwrap().death != Some(DeathCallback::Monster)
    &&& player.ai is None
    &&& player.item is None
}

/// Whether `object` stands at `(x, y)` and stops others from entering.
pub open spec fn blocks_at(object: ObjectView, x: int, y: int) -> bool {
    object.blocks && object.x == x && object.y == y
}

/// Whether `(x, y)` cannot be entered: the tile is solid, or an object
/// that blocks stands there.
pub open spec fn blocked_at(x: int, y: int, map: TileMap, objects: Seq<ObjectView>) -> bool {
    map.tile(x, y).blocked || exists|i: int| 0 <= i < objects.len() && blocks_at(#[trigger] objects[i], x, y)
}

/// `object` moved by `(dx, dy)`.
pub open spec fn shifted(object: ObjectView, dx: int, dy: int) -> ObjectView {
    ObjectView { x: (object.x + dx) as i32, y: (object.y + dy) as i32, ..object }
}

/// The objects after the one at `id` tries to move by `(dx, dy)`: it moves
/// if nothing blocks the way, and stays where it is otherwise.
pub open spec fn moved_by(objects: Seq<ObjectView>, map: TileMap, id: int, dx: int, dy: int) -> Seq<ObjectView> {
    if blocked_at(objects[id].x + dx, objects[id].y + dy, map, objects) {
        objects
    } else {
        objects.update(id, shifted(objects[id], dx, dy))
    }
}

/// One part of the unit step along `(d, other)`: the vector is scaled to
/// length one and each part rounded to the nearest whole number. A part
/// rounds away from zero exactly when it is at least half the length of
/// the vector, that is when four times its square is at least the
/// squared length.
pub open spec fn unit_step(d: int, other: int) -> int {
    if d != 0 && 4 * (d * d) >= d * d + other * other {
        if d > 0 {
            1
        } else {
            -1
        }
    } else {
        0
    }
}

/// The objects after the one at `id` tries to take one step towards
/// `(target_x, target_y)`.
pub open spec fn moved_towards(
    objects: Seq<ObjectView>,
    map: TileMap,
    id: int,
    target_x: int,
    target_y: int,
) -> Seq<ObjectView> {
    let dx = target_x - objects[id].x;
    let dy = target_y - objects[id].y;
    moved_by(objects, map, id, unit_step(dx, dy), unit_step(dy, dx))
}

/// Mutably borrows two separate elements of the given slice.
pub fn mut_two<T>(first_index: usize, second_index: usize, items: &mut [T]) -> (pair: (&mut T, &mut T))
    requires
        first_index != second_index,
        first_index < old(items)@.len(),
        second_index < old(items)@.len(),
    ensures
        *pair.0 == old(items)@[first_index as int],
        *pair.1 == old(items)@[second_index as int],
        final(items)@ == old(items)@.update(first_index as int, *final(pair.0)).update(
            second_index as int,
            *final(pair.1),
        ),
{
    let split_at_index = if first_index < second_index {
        second_index
    } else {
        first_index
    };
    let (first_slice, second_slice) = items.split_at_mut(split_at_index);
    if first_index < second_index {
        (&mut first_slice[first_index], &mut second_slice[0])
    } else {
        (&mut second_slice[0], &mut first_slice[second_index])
    }
}

/// Whether `(x, y)` cannot be entered: the tile is solid, or an object
/// that blocks stands there.
pub fn is_blocked(x: i32, y: i32, map: &TileMap, objects: &Vec<Object>) -> (b: bool)
    requires
        map.wf(),
        in_bounds(x as int, y as int),
    ensures
        b == blocked_at(x as int, y as int, *map, views(objects@)),
{
    if map.is_blocked_at(x, y) {
        return true;
    }
    let mut i: usize = 0;
    while i < objects.len()
        invariant
            i <= objects.len(),
            forall|j: int| 0 <= j < i ==> !blocks_at(#[trigger] views(objects@)[j], x as int, y as int),
        decreases objects.len() - i,
    {
        if objects[i].blocks && objects[i].x == x && objects[i].y == y {
            assert(blocks_at(views(objects@)[i as int], x as int, y as int));
            return true;
        }
        i = i + 1;
    }
    false
}

/// Moves the object at `id` by the given amount, if the destination is
/// not blocked.
pub fn move_by(id: usize, dx: i32, dy: i32, objects: &mut Vec<Object>, game: &Game)
    requires
        id < old(objects)@.len(),
        game.map.wf(),
        in_bounds(old(objects)@[id as int].x + dx, old(objects)@[id as int].y + dy),
    ensures
        views(final(objects)@) == moved_by(views(old(objects)@), game.map, id as int, dx as int, dy as int),
{
    let (x, y) = objects[id].pos();
    if !is_blocked(x + dx, y + dy, &game.map, objects) {
        objects[id].set_pos(x + dx, y + dy);
        assert(views(objects@) =~= moved_by(views(old(objects)@), game.map, id as int, dx as int, dy as int));
    }
}

fn step_part(d: i64, other: i64) -> (s: i32)
    requires
        -0x1_0000_0000 < d < 0x1_0000_0000,
        -0x1_0000_0000 < other < 0x1_0000_0000,
    ensures
        s == unit_step(d as int, other as int),
{
    assert(0 <= d * d <= 0x1_0000_0000 * 0x1_0000_0000) by (nonlinear_arith)
        requires
            -0x1_0000_0000 < d < 0x1_0000_0000,
    ;
    assert(0 <= other * other <= 0x1_0000_0000 * 0x1_0000_0000) by (nonlinear_arith)
        requires
            -0x1_0000_0000 < other < 0x1_0000_0000,
    ;
    let d_wide: i128 = d as i128;
    let other_wide: i128 = other as i128;
    let d_squared: i128 = d_wide * d_wide;
    let other_squared: i128 = other_wide * other_wide;
    if d != 0 && 4 * d_squared >= d_squared + other_squared {
        if d > 0 {
            1
        } else {
            -1
        }
    } else {
        0
    }
}

/// Moves the object at `id` one step towards `(target_x, target_y)`, if
/// the destination is not blocked.
pub fn move_towards(id: usize, target_x: i32, target_y: i32, objects: &mut Vec<Object>, game: &Game)
    requires
        id < old(objects)@.len(),
        game.map.wf(),
        in_bounds(
            old(objects)@[id as int].x + unit_step(
                target_x - old(objects)@[id as int].x,
                target_y - old(objects)@[id as int].y,
            ),
            old(objects)@[id as int].y + unit_step(
                target_y - old(objects)@[id as int].y,
                target_x - old(objects)@[id as int].x,
            ),
        ),
    ensures
        views(final(objects)@) == moved_towards(
            views(old(objects)@),
            game.map,
            id as int,
            target_x as int,
            target_y as int,
        ),
{
    let (ox, oy) = objects[id].pos();
    let dx: i64 = target_x as i64 - ox as i64;
    let dy: i64 = target_y as i64 - oy as i64;
    let step_x = step_part(dx, dy);
    let step_y = step_part(dy, dx);
    move_by(id, step_x, step_y, objects, game);
}

} // verus!
