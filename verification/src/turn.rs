//! One turn of the game: what the player does, and what the monsters do
//! in answer.

use vstd::prelude::*;
use crate::ai::{after_attack, ai_take_turn, is_step, turn_fits, turn_leads, turn_of, with_ai};
use crate::combat::attack_fits;
use crate::config::PLAYER;
use crate::dungeon::in_bounds;
use crate::fov::Visibility;
use crate::game::{base_stat, fits_i32, full_stat, Game, GameView, Stat};
use crate::object::{Object, ObjectView, views};
use crate::world::{move_by, moved_by, mut_two, unit_step, World, world_of};

verus! {

/// Whether `object` is a fighter standing at `(x, y)`.
pub open spec fn fighter_stands_at(object: ObjectView, x: int, y: int) -> bool {
    object.fighter is Some && object.x == x && object.y == y
}

/// The first fighter at or after `from` that stands at `(x, y)`.
pub open spec fn first_fighter_at(objects: Seq<ObjectView>, x: int, y: int, from: int) -> Option<int>
    decreases objects.len() - from,
{
    if from >= objects.len() {
        None
    } else if fighter_stands_at(objects[from], x, y) {
        Some(from)
    } else {
        first_fighter_at(objects, x, y, from + 1)
    }
}

/// The world after the player tries to step by `(dx, dy)`: the first
/// fighter that stands in the way is attacked; with none in the way the
/// player moves, unless the way is blocked, and the field of view is to
/// be computed afresh.
pub open spec fn after_player_move(w: World, dx: int, dy: int) -> World {
    let player = w.objects[PLAYER as int];
    match first_fighter_at(w.objects, player.x + dx, player.y + dy, 0) {
        Some(target) => after_attack(w, PLAYER as int, target),
        None => World {
            objects: moved_by(w.objects, w.game.map, PLAYER as int, dx, dy),
            game: GameView { fov_recompute: true, ..w.game },
        },
    }
}

/// Whether the player can try to step by `(dx, dy)`: the step is a real
/// one, so that the player is not in its own way, it stays on the grid,
/// and an attack stays within the range of `i32`.
pub open spec fn player_move_fits(w: World, dx: int, dy: int) -> bool {
    let player = w.objects[PLAYER as int];
    &&& w.objects.len() > 0
    &&& w.game.map.wf()
    &&& fits_i32(player.x + dx)
    &&& fits_i32(player.y + dy)
    &&& match first_fighter_at(w.objects, player.x + dx, player.y + dy, 0) {
        Some(target) => target != PLAYER && attack_fits(player, w.objects[target], w.game),
        None => in_bounds(player.x + dx, player.y + dy),
    }
}

/// The first fighter that stands at `(x, y)`.
pub fn fighter_at(x: i32, y: i32, objects: &Vec<Object>) -> (found: Option<usize>)
    ensures
        match found {
            Some(id) => first_fighter_at(views(objects@), x as int, y as int, 0) == Some(id as int) && id
                < objects@.len(),
            None => first_fighter_at(views(objects@), x as int, y as int, 0) is None,
        },
{
    let mut id: usize = 0;
    while id < objects.len()
        invariant
            id <= objects@.len(),
            first_fighter_at(views(objects@), x as int, y as int, 0) == first_fighter_at(
                views(objects@),
                x as int,
                y as int,
                id as int,
            ),
        decreases objects@.len() - id,
    {
        if objects[id].fighter.is_some() && objects[id].x == x && objects[id].y == y {
            return Some(id);
        }
        id = id + 1;
    }
    None
}

/// Moves the player by `(dx, dy)`, or attacks the fighter that stands in
/// the way.
pub fn player_move_or_attack(dx: i32, dy: i32, objects: &mut Vec<Object>, game: &mut Game)
    requires
        player_move_fits(world_of(old(objects)@, *old(game)), dx as int, dy as int),
    ensures
        world_of(final(objects)@, *final(game)) == after_player_move(
            world_of(old(objects)@, *old(game)),
            dx as int,
            dy as int,
        ),
{
    assert(views(objects@).len() == objects@.len());
    let x = objects[PLAYER].x + dx;
    let y = objects[PLAYER].y + dy;
    let target_id = fighter_at(x, y, objects);
    match target_id {
        Some(target_id) => {
            let (player, target) = mut_two(PLAYER, target_id, objects.as_mut_slice());
            player.attack(target, game);
            assert(views(objects@) =~= after_attack(
                world_of(old(objects)@, *old(game)),
                PLAYER as int,
                target_id as int,
            ).objects);
        },
        None => {
            move_by(PLAYER, dx, dy, objects, game);
            game.fov_recompute = true;
        },
    }
}

/// Whether the monsters can take their turns, whatever they do: the
/// level is one in play, and whichever monster attacks the player, the
/// damage is within the range of `i32`.
pub open spec fn round_fits(w: World) -> bool {
    &&& w.ok()
    &&& fits_i32(full_stat(w.objects[PLAYER as int], w.game.inventory, Stat::Defense))
    &&& forall|i: int|
        0 < i < w.objects.len() ==> fits_i32(
            base_stat(#[trigger] w.objects[i], Stat::Power) - full_stat(
                w.objects[PLAYER as int],
                w.game.inventory,
                Stat::Defense,
            ),
        )
}

/// Whether the turn numbered `k` of the round that `trace` records is
/// the turn of the object whose turn it is: the last object comes first.
pub open spec fn round_step(trace: Seq<World>, k: int, fov: Visibility) -> bool {
    turn_leads(trace[k], trace[k + 1], trace.len() - 2 - k, fov)
}

/// Whether `trace` records a round of turns that leads from `start` to
/// `end`: every object takes its turn once, the last object first, and a
/// confused monster's step is any of at most one tile each way.
pub open spec fn is_round(trace: Seq<World>, start: World, end: World, fov: Visibility) -> bool {
    &&& trace.len() == start.objects.len() + 1
    &&& trace[0] == start
    &&& trace.last() == end
    &&& forall|k: int| 0 <= k < start.objects.len() ==> #[trigger] round_step(trace, k, fov)
}

/// What a step does to the objects: the one that steps ends on a walkable
/// tile, and nothing else about any object changes.
pub proof fn lemma_step_keeps(w: World, id: int, dx: int, dy: int)
    requires
        w.game.map.wf(),
        w.game.map.enclosed(),
        0 <= id < w.objects.len(),
        is_step(dx, dy),
        w.game.map.is_floor(w.objects[id].x as int, w.objects[id].y as int),
    ensures
        moved_by(w.objects, w.game.map, id, dx, dy).len() == w.objects.len(),
        forall|i: int|
            0 <= i < w.objects.len() ==> (#[trigger] moved_by(w.objects, w.game.map, id, dx, dy)[i]) == (
            ObjectView {
                x: moved_by(w.objects, w.game.map, id, dx, dy)[i].x,
                y: moved_by(w.objects, w.game.map, id, dx, dy)[i].y,
                ..w.objects[i]
            }),
        forall|i: int|
            0 <= i < w.objects.len() && i != id ==> (#[trigger] moved_by(w.objects, w.game.map, id, dx, dy)[i])
                == w.objects[i],
        w.game.map.is_floor(
            moved_by(w.objects, w.game.map, id, dx, dy)[id].x as int,
            moved_by(w.objects, w.game.map, id, dx, dy)[id].y as int,
        ),
{
}

/// What a monster's attack on the player does to the objects: the
/// monster stays as it was, and the player keeps its name, its place, its
/// base statistics and its standing as a fighter without behaviour.
pub proof fn lemma_monster_attack_keeps(w: World, id: int)
    requires
        w.objects.len() > 0,
        0 < id < w.objects.len(),
        !w.objects[id].is_player(),
        w.objects[PLAYER as int].fighter is Some,
        w.objects[PLAYER as int].fighter.unwrap().death != Some(crate::object::DeathCallback::Monster),
    ensures
        after_attack(w, id, PLAYER as int).objects.len() == w.objects.len(),
        after_attack(w, id, PLAYER as int).game.map == w.game.map,
        after_attack(w, id, PLAYER as int).game.inventory == w.game.inventory,
        forall|i: int|
            0 < i < w.objects.len() ==> (#[trigger] after_attack(w, id, PLAYER as int).objects[i]) == w.objects[i],
        ({
            let before = w.objects[PLAYER as int];
            let after = after_attack(w, id, PLAYER as int).objects[PLAYER as int];
            &&& after.name == before.name
            &&& after.x == before.x
            &&& after.y == before.y
            &&& after.ai == before.ai
            &&& after.fighter is Some
            &&& after.fighter.unwrap().death == before.fighter.unwrap().death
            &&& after.fighter.unwrap().base_defense == before.fighter.unwrap().base_defense
            &&& after.fighter.unwrap().base_power == before.fighter.unwrap().base_power
        }),
{
}

/// In a level in play where the monsters' attacks fit, every object can
/// take its turn, and the turn leaves such a level behind.
pub proof fn lemma_turn_keeps_round(w: World, id: int, fov: Visibility, dx: int, dy: int)
    requires
        round_fits(w),
        0 <= id < w.objects.len(),
        is_step(dx, dy),
    ensures
        turn_fits(w, id, fov),
        round_fits(turn_of(w, id, fov, dx, dy)),
        turn_of(w, id, fov, dx, dy).objects.len() == w.objects.len(),
{
    let after = turn_of(w, id, fov, dx, dy);
    match w.objects[id].ai {
        Some(ai) => {
            assert(id != PLAYER);
            let idle = World { objects: w.objects.update(id, with_ai(w.objects[id], None)), ..w };
            let monster = idle.objects[id];
            let player = idle.objects[PLAYER as int];
            assert(player == w.objects[PLAYER as int]);
            assert(w.game.map.is_floor(w.objects[id].x as int, w.objects[id].y as int));
            assert(!w.objects[id].is_player());
            assert(!monster.is_player());
            assert(full_stat(monster, w.game.inventory, Stat::Power) == base_stat(w.objects[id], Stat::Power));
            let done = crate::ai::acted(idle, id, ai, fov, dx, dy);
            let sx = unit_step(player.x - monster.x, player.y - monster.y);
            let sy = unit_step(player.y - monster.y, player.x - monster.x);
            lemma_step_keeps(idle, id, dx, dy);
            lemma_step_keeps(idle, id, sx, sy);
            lemma_monster_attack_keeps(idle, id);
            assert(done.game.map == w.game.map);
            assert(done.game.inventory == w.game.inventory);
            assert(done.objects.len() == w.objects.len());
            assert forall|i: int| 0 <= i < done.objects.len() implies {
                &&& (#[trigger] done.objects[i]).name == idle.objects[i].name
                &&& base_stat(done.objects[i], Stat::Power) == base_stat(idle.objects[i], Stat::Power)
                &&& base_stat(done.objects[i], Stat::Defense) == base_stat(idle.objects[i], Stat::Defense)
                &&& done.objects[i].fighter is Some == idle.objects[i].fighter is Some
                &&& done.objects[i].ai == idle.objects[i].ai
                &&& w.game.map.is_floor(done.objects[i].x as int, done.objects[i].y as int)
                &&& i == PLAYER ==> done.objects[i].fighter.unwrap().death == idle.objects[i].fighter.unwrap().death
            } by {
                assert(w.game.map.is_floor(w.objects[i].x as int, w.objects[i].y as int));
                assert(idle.objects[i].x == w.objects[i].x && idle.objects[i].y == w.objects[i].y);
            }
            assert(after.objects.len() == w.objects.len());
            assert forall|i: int| 0 <= i < after.objects.len() implies {
                &&& (#[trigger] after.objects[i]).name == w.objects[i].name
                &&& base_stat(after.objects[i], Stat::Power) == base_stat(w.objects[i], Stat::Power)
                &&& base_stat(after.objects[i], Stat::Defense) == base_stat(w.objects[i], Stat::Defense)
                &&& after.objects[i].fighter is Some == w.objects[i].fighter is Some
                &&& w.game.map.is_floor(after.objects[i].x as int, after.objects[i].y as int)
            } by {
                assert(done.objects[i].name == idle.objects[i].name);
            }
            assert(after.objects[PLAYER as int].ai is None) by {
                assert(done.objects[PLAYER as int].ai == idle.objects[PLAYER as int].ai);
            }
            assert(after.objects[PLAYER as int].fighter.unwrap().death != Some(
                crate::object::DeathCallback::Monster,
            )) by {
                assert(done.objects[PLAYER as int].fighter.unwrap().death == idle.objects[PLAYER as int].fighter.unwrap().death);
            }
        },
        None => {},
    }
}

/// Lets every object of the level take its turn, the last one first.
pub fn monsters_take_turns(objects: &mut Vec<Object>, game: &mut Game, fov: &Visibility)
    requires
        round_fits(world_of(old(objects)@, *old(game))),
    ensures
        exists|trace: Seq<World>| #[trigger]
            is_round(trace, world_of(old(objects)@, *old(game)), world_of(final(objects)@, *final(game)), *fov),
        round_fits(world_of(final(objects)@, *final(game))),
{
    let ghost start = world_of(objects@, *game);
    let ghost mut trace: Seq<World> = seq![start];
    assert(views(objects@).len() == objects@.len());
    let count = objects.len();
    let mut id: usize = count;
    while id > 0
        invariant
            id <= count,
            count == start.objects.len(),
            objects@.len() == count,
            round_fits(world_of(objects@, *game)),
            trace.len() == count - id + 1,
            trace[0] == start,
            trace.last() == world_of(objects@, *game),
            forall|k: int|
                0 <= k < count - id ==> turn_leads(#[trigger] trace[k], trace[k + 1], count - 1 - k, *fov),
        decreases id,
    {
        id = id - 1;
        let ghost before = world_of(objects@, *game);
        proof {
            assert(views(objects@).len() == objects@.len());
            lemma_turn_keeps_round(before, id as int, *fov, 0, 0);
        }
        ai_take_turn(id, objects, game, fov);
        proof {
            let now = world_of(objects@, *game);
            let (dx, dy) = choose|dx: int, dy: int|
                is_step(dx, dy) && now == #[trigger] turn_of(before, id as int, *fov, dx, dy);
            lemma_turn_keeps_round(before, id as int, *fov, dx, dy);
            assert(turn_leads(before, now, id as int, *fov));
            assert(views(objects@).len() == objects@.len());
            let longer = trace.push(now);
            assert forall|k: int| 0 <= k < count - id implies turn_leads(
                #[trigger] longer[k],
                longer[k + 1],
                count - 1 - k,
                *fov,
            ) by {
                if k < count - id - 1 {
                    assert(longer[k] == trace[k]);
                    assert(longer[k + 1] == trace[k + 1]);
                    assert(turn_leads(trace[k], trace[k + 1], count - 1 - k, *fov));
                } else {
                    assert(longer[k] == before);
                    assert(longer[k + 1] == now);
                }
            }
            trace = longer;
        }
    }
    proof {
        let end = world_of(objects@, *game);
        assert forall|k: int| 0 <= k < start.objects.len() implies #[trigger] round_step(trace, k, *fov) by {
            assert(turn_leads(trace[k], trace[k + 1], count - 1 - k, *fov));
        }
        assert(is_round(trace, start, end, *fov));
    }
}

} // verus!
