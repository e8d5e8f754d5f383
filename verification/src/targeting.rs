//! Aiming an item: what each look at the pointer decides.

use vstd::prelude::*;
use crate::config::PLAYER;
use crate::fov::Visibility;
use crate::object::{distance_squared, Object, ObjectView, views};

verus! {

/// Where the pointer is and which of its buttons went down, as of the
/// latest look.
#[derive(Clone, Copy, Debug, PartialEq, Eq, Structural)]
pub struct Pointer {
    pub cx: i32,
    pub cy: i32,
    pub lbutton_pressed: bool,
    pub rbutton_pressed: bool,
}

/// What one look at the pointer decides while a tile is being chosen.
#[derive(Clone, Copy, Debug, PartialEq, Eq, Structural)]
pub enum TileChoice {
    Chosen(i32, i32),
    Cancelled,
    Waiting,
}

/// What one look at the pointer decides while a monster is being chosen.
#[derive(Clone, Copy, Debug, PartialEq, Eq, Structural)]
pub enum MonsterChoice {
    Chosen(usize),
    Cancelled,
    Waiting,
}

/// Whether `(x, y)` is no further from the player than `max_range`, where
/// there is such a limit.
pub open spec fn in_range(objects: Seq<ObjectView>, x: int, y: int, max_range: Option<i32>) -> bool {
    match max_range {
        Some(range) => range >= 0 && distance_squared(
            objects[PLAYER as int].x as int,
            objects[PLAYER as int].y as int,
            x,
            y,
        ) <= range * range,
        None => true,
    }
}

/// What one look at the pointer decides: a left click on a tile in view
/// and in range chooses the tile; failing that, a right click or the
/// escape key cancels; anything else leaves the choice open.
pub open spec fn tile_choice(
    pointer: Pointer,
    escape: bool,
    objects: Seq<ObjectView>,
    fov: Visibility,
    max_range: Option<i32>,
) -> TileChoice {
    if pointer.lbutton_pressed && fov.visible(pointer.cx as int, pointer.cy as int) && in_range(
        objects,
        pointer.cx as int,
        pointer.cy as int,
        max_range,
    ) {
        TileChoice::Chosen(pointer.cx, pointer.cy)
    } else if pointer.rbutton_pressed || escape {
        TileChoice::Cancelled
    } else {
        TileChoice::Waiting
    }
}

/// Whether the object at `id` is a monster standing at `(x, y)`: a
/// fighter other than the player.
pub open spec fn monster_stands_at(objects: Seq<ObjectView>, id: int, x: int, y: int) -> bool {
    objects[id].x == x && objects[id].y == y && objects[id].fighter is Some && id != PLAYER
}

/// The first monster at or after `from` that stands at `(x, y)`.
pub open spec fn first_monster_at(objects: Seq<ObjectView>, x: int, y: int, from: int) -> Option<int>
    decreases objects.len() - from,
{
    if from >= objects.len() {
        None
    } else if monster_stands_at(objects, from, x, y) {
        Some(from)
    } else {
        first_monster_at(objects, x, y, from + 1)
    }
}

/// What one look at the pointer decides while a monster is being chosen:
/// a tile that is chosen counts only if a monster stands on it, and the
/// first such monster is chosen.
pub open spec fn monster_choice(
    pointer: Pointer,
    escape: bool,
    objects: Seq<ObjectView>,
    fov: Visibility,
    max_range: Option<i32>,
) -> MonsterChoice {
    match tile_choice(pointer, escape, objects, fov, max_range) {
        TileChoice::Chosen(x, y) => match first_monster_at(objects, x as int, y as int, 0) {
            Some(id) => MonsterChoice::Chosen(id as usize),
            None => MonsterChoice::Waiting,
        },
        TileChoice::Cancelled => MonsterChoice::Cancelled,
        TileChoice::Waiting => MonsterChoice::Waiting,
    }
}

/// Decides, from one look at the pointer, whether a tile was chosen: one
/// that was left-clicked in the player's view, and in range where a
/// range is given. A right click or the escape key cancels.
pub fn target_tile(
    pointer: Pointer,
    escape: bool,
    objects: &Vec<Object>,
    fov: &Visibility,
    max_range: Option<i32>,
) -> (choice: TileChoice)
    requires
        max_range is Some ==> objects@.len() > 0,
    ensures
        choice == tile_choice(pointer, escape, views(objects@), *fov, max_range),
{
    let (x, y) = (pointer.cx, pointer.cy);
    let in_fov = fov.is_in_fov(x, y);
    let within = match max_range {
        Some(range) => {
            if range >= 0 {
                let reach: u128 = range as u128;
                assert(reach * reach == range * range && reach * reach <= 0x8000_0000 * 0x8000_0000)
                    by (nonlinear_arith)
                    requires
                        reach == range,
                        0 <= reach <= 0x8000_0000,
                ;
                objects[PLAYER].distance(x, y) <= reach * reach
            } else {
                false
            }
        },
        None => true,
    };
    if pointer.lbutton_pressed && in_fov && within {
        TileChoice::Chosen(x, y)
    } else if pointer.rbutton_pressed || escape {
        TileChoice::Cancelled
    } else {
        TileChoice::Waiting
    }
}

/// The first monster that stands at `(x, y)`.
pub fn monster_at(x: i32, y: i32, objects: &Vec<Object>) -> (found: Option<usize>)
    ensures
        match found {
            Some(id) => first_monster_at(views(objects@), x as int, y as int, 0) == Some(id as int),
            None => first_monster_at(views(objects@), x as int, y as int, 0) is None,
        },
{
    let mut id: usize = 0;
    while id < objects.len()
        invariant
            id <= objects@.len(),
            first_monster_at(views(objects@), x as int, y as int, 0) == first_monster_at(
                views(objects@),
                x as int,
                y as int,
                id as int,
            ),
        decreases objects@.len() - id,
    {
        if objects[id].x == x && objects[id].y == y && objects[id].fighter.is_some() && id != PLAYER {
            return Some(id);
        }
        id = id + 1;
    }
    None
}

/// Decides, from one look at the pointer, whether a monster was chosen:
/// the first one on a tile that was left-clicked in the player's view,
/// and in range where a range is given. A right click or the escape key
/// cancels.
pub fn target_monster(
    pointer: Pointer,
    escape: bool,
    objects: &Vec<Object>,
    fov: &Visibility,
    max_range: Option<i32>,
) -> (choice: MonsterChoice)
    requires
        max_range is Some ==> objects@.len() > 0,
    ensures
        choice == monster_choice(pointer, escape, views(objects@), *fov, max_range),
        choice matches MonsterChoice::Chosen(id) ==> id < objects@.len(),
{
    match target_tile(pointer, escape, objects, fov, max_range) {
        TileChoice::Chosen(x, y) => match monster_at(x, y, objects) {
            Some(id) => {
                proof {
                    lemma_first_monster_in_range(views(objects@), x as int, y as int, 0);
                }
                MonsterChoice::Chosen(id)
            },
            None => MonsterChoice::Waiting,
        },
        TileChoice::Cancelled => MonsterChoice::Cancelled,
        TileChoice::Waiting => MonsterChoice::Waiting,
    }
}

/// The monster that the search finds is an object of the level that
/// stands on the tile, and no monster before it does.
pub proof fn lemma_first_monster_in_range(objects: Seq<ObjectView>, x: int, y: int, from: int)
    requires
        0 <= from,
    ensures
        match first_monster_at(objects, x, y, from) {
            Some(id) => from <= id < objects.len() && monster_stands_at(objects, id, x, y) && forall|j: int|
                from <= j < id ==> !monster_stands_at(objects, j, x, y),
            None => forall|j: int| from <= j < objects.len() ==> !monster_stands_at(objects, j, x, y),
        },
    decreases objects.len() - from,
{
    if from < objects.len() && !monster_stands_at(objects, from, x, y) {
        lemma_first_monster_in_range(objects, x, y, from + 1);
    }
}

} // verus!
