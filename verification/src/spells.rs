//! What the scrolls and potions do.

use vstd::prelude::*;
use crate::color::Color;
use crate::combat::{
    after_damage,
    damage_fits,
    game_after_damage,
    with_xp_gain,
    xp_from,
    xp_gain_fits,
};
use crate::config::{
    CONFUSE_NUM_TURNS,
    FIREBALL_DAMAGE,
    FIREBALL_RADIUS,
    HEAL_AMOUNT,
    LIGHTNING_DAMAGE,
    LIGHTNING_RANGE,
    PLAYER,
};
use crate::fov::Visibility;
use crate::game::{fits_i32, full_stat, Game, Stat};
use crate::object::{Ai, distance_squared, Fighter, Object, ObjectView, UseResult, views};
use crate::text::{
    burned_message,
    burned_text,
    confused_message,
    confused_text,
    fireball_explodes_message,
    fireball_explodes_text,
    lightning_strike_message,
    lightning_strike_text,
};
use crate::world::{World, world_of};

verus! {

/// `fighter` healed by `amount`, up to its own maximum.
pub open spec fn healed(fighter: Fighter, amount: int) -> Fighter {
    Fighter {
        hp: if fighter.hp + amount > fighter.base_max_hp {
            fighter.base_max_hp
        } else {
            (fighter.hp + amount) as i32
        },
        ..fighter
    }
}

/// Whether the healing potion has anything to do: the player is a fighter
/// whose hit points differ from the effective maximum.
pub open spec fn can_heal(w: World) -> bool {
    match w.objects[PLAYER as int].fighter {
        Some(f) => f.hp != full_stat(w.objects[PLAYER as int], w.game.inventory, Stat::MaxHp),
        None => false,
    }
}

/// The world after a healing potion is drunk.
pub open spec fn after_heal(w: World) -> World {
    let player = w.objects[PLAYER as int];
    match player.fighter {
        Some(f) => if can_heal(w) {
            World {
                objects: w.objects.update(
                    PLAYER as int,
                    ObjectView { fighter: Some(healed(f, HEAL_AMOUNT as int)), ..player },
                ),
                game: w.game.logged("Your wounds start to feel better!"@, Color::LightViolet),
            }
        } else {
            World { game: w.game.logged("You are already at full health."@, Color::Red), ..w }
        },
        None => w,
    }
}

/// Whether a healing potion can be drunk within the range of `i32`.
pub open spec fn heal_fits(w: World) -> bool {
    &&& w.objects.len() > 0
    &&& fits_i32(full_stat(w.objects[PLAYER as int], w.game.inventory, Stat::MaxHp))
    &&& match w.objects[PLAYER as int].fighter {
        Some(f) => fits_i32(f.hp + HEAL_AMOUNT),
        None => true,
    }
}

/// Heals the player, unless the hit points are at the effective maximum
/// already.
pub fn cast_heal(objects: &mut Vec<Object>, game: &mut Game) -> (result: UseResult)
    requires
        heal_fits(world_of(old(objects)@, *old(game))),
    ensures
        world_of(final(objects)@, *final(game)) == after_heal(world_of(old(objects)@, *old(game))),
        result == if can_heal(world_of(old(objects)@, *old(game))) {
            UseResult::Used
        } else {
            UseResult::Cancelled
        },
{
    assert(views(objects@).len() == objects@.len());
    let max_hp = objects[PLAYER].full_max_hp(game);
    let hp = match &objects[PLAYER].fighter {
        Some(f) => Some(f.hp),
        None => None,
    };
    match hp {
        Some(hp) => {
            if hp == max_hp {
                game.log.add(String::from_str("You are already at full health."), Color::Red);
                assert(views(objects@) =~= views(old(objects)@));
                UseResult::Cancelled
            } else {
                game.log.add(String::from_str("Your wounds start to feel better!"), Color::LightViolet);
                match &mut objects[PLAYER].fighter {
                    Some(fighter) => {
                        fighter.heal(HEAL_AMOUNT);
                    },
                    None => {},
                }
                assert(views(objects@) =~= after_heal(world_of(old(objects)@, *old(game))).objects);
                UseResult::Used
            }
        },
        None => {
            assert(views(objects@) =~= views(old(objects)@));
            UseResult::Cancelled
        },
    }
}

/// Whether the object at `id` can be struck from afar: it is not the
/// player, it is a fighter, and it is in view.
pub open spec fn is_target(objects: Seq<ObjectView>, fov: Visibility, id: int) -> bool {
    id != PLAYER && objects[id].fighter is Some && fov.visible(objects[id].x as int, objects[id].y as int)
}

/// The square of the distance from the player to the object at `id`.
pub open spec fn player_distance(objects: Seq<ObjectView>, id: int) -> int {
    distance_squared(
        objects[PLAYER as int].x as int,
        objects[PLAYER as int].y as int,
        objects[id].x as int,
        objects[id].y as int,
    )
}

/// The nearest target among the objects from `from` on that is nearer
/// than `best`, whose squared distance is `best_distance`; `best` if there
/// is none. Of targets equally near the first one counts.
pub open spec fn closest_scan(
    objects: Seq<ObjectView>,
    fov: Visibility,
    best: Option<int>,
    best_distance: int,
    from: int,
) -> Option<int>
    decreases objects.len() - from,
{
    if from >= objects.len() {
        best
    } else if is_target(objects, fov, from) && player_distance(objects, from) < best_distance {
        closest_scan(objects, fov, Some(from), player_distance(objects, from), from + 1)
    } else {
        closest_scan(objects, fov, best, best_distance, from + 1)
    }
}

/// The nearest target no further from the player than `max_range`; none
/// for a range below zero.
pub open spec fn closest(objects: Seq<ObjectView>, fov: Visibility, max_range: int) -> Option<int> {
    if max_range < 0 {
        None
    } else {
        closest_scan(objects, fov, None, max_range * max_range + 1, 0)
    }
}

/// Finds the closest enemy in the player's view, no further away than
/// `max_range`.
pub fn closest_monster(max_range: i32, objects: &Vec<Object>, fov: &Visibility) -> (found: Option<usize>)
    ensures
        match found {
            Some(id) => closest(views(objects@), *fov, max_range as int) == Some(id as int),
            None => closest(views(objects@), *fov, max_range as int) is None,
        },
{
    if max_range < 0 {
        return None;
    }
    let reach: u128 = max_range as u128;
    assert(reach * reach == max_range * max_range && reach * reach <= 0x8000_0000 * 0x8000_0000)
        by (nonlinear_arith)
        requires
            reach == max_range,
            0 <= reach <= 0x8000_0000,
    ;
    let mut closest_enemy: Option<usize> = None;
    let mut closest_dist: u128 = reach * reach + 1;
    let mut id: usize = 0;
    let ghost mut best: Option<int> = None;
    while id < objects.len()
        invariant
            id <= objects@.len(),
            match closest_enemy {
                Some(i) => best == Some(i as int),
                None => best is None,
            },
            closest(views(objects@), *fov, max_range as int) == closest_scan(
                views(objects@),
                *fov,
                best,
                closest_dist as int,
                id as int,
            ),
        decreases objects@.len() - id,
    {
        if id != PLAYER && objects[id].fighter.is_some() && fov.is_in_fov(objects[id].x, objects[id].y) {
            let dist = objects[PLAYER].distance_to(&objects[id]);
            if dist < closest_dist {
                closest_enemy = Some(id);
                closest_dist = dist;
                proof {
                    best = Some(id as int);
                }
            }
        }
        id = id + 1;
    }
    closest_enemy
}

proof fn lemma_closest_scan(
    objects: Seq<ObjectView>,
    fov: Visibility,
    best: Option<int>,
    best_distance: int,
    from: int,
    limit: int,
)
    requires
        0 <= from <= objects.len(),
        match best {
            Some(b) => 0 <= b < from && is_target(objects, fov, b) && player_distance(objects, b) == best_distance
                && best_distance < limit && forall|j: int|
                0 <= j < b && is_target(objects, fov, j) ==> player_distance(objects, j) > best_distance,
            None => best_distance == limit,
        },
        forall|j: int|
            0 <= j < from && is_target(objects, fov, j) ==> player_distance(objects, j) >= best_distance,
    ensures
        nearest_within(objects, fov, closest_scan(objects, fov, best, best_distance, from), limit - 1),
    decreases objects.len() - from,
{
    if from < objects.len() {
        if is_target(objects, fov, from) && player_distance(objects, from) < best_distance {
            lemma_closest_scan(objects, fov, Some(from), player_distance(objects, from), from + 1, limit);
        } else {
            lemma_closest_scan(objects, fov, best, best_distance, from + 1, limit);
        }
    }
}

/// Whether `found` is the answer to the search for the nearest target
/// whose squared distance is at most `reach`: such a target, than which
/// none is nearer and before which none is as near; or nothing where no
/// target is that near.
pub open spec fn nearest_within(objects: Seq<ObjectView>, fov: Visibility, found: Option<int>, reach: int) -> bool {
    match found {
        Some(id) => {
            &&& 0 <= id < objects.len()
            &&& is_target(objects, fov, id)
            &&& player_distance(objects, id) <= reach
            &&& forall|j: int|
                0 <= j < objects.len() && is_target(objects, fov, j) ==> player_distance(objects, j)
                    >= player_distance(objects, id)
            &&& forall|j: int|
                0 <= j < id && is_target(objects, fov, j) ==> player_distance(objects, j) > player_distance(
                    objects,
                    id,
                )
        },
        None => forall|j: int|
            0 <= j < objects.len() && is_target(objects, fov, j) ==> player_distance(objects, j) > reach,
    }
}

/// The search picks the nearest target within the range, the first of
/// those equally near, and finds nothing only where no target is within
/// the range.
pub proof fn lemma_closest_is_nearest(objects: Seq<ObjectView>, fov: Visibility, max_range: int)
    requires
        max_range >= 0,
    ensures
        nearest_within(objects, fov, closest(objects, fov, max_range), max_range * max_range),
{
    lemma_closest_scan(objects, fov, None, max_range * max_range + 1, 0, max_range * max_range + 1);
}

/// The world after the object at `id` is dealt `damage` from afar: the
/// player takes the experience of what dies, unless it is the player who
/// is hit.
pub open spec fn struck(w: World, id: int, damage: int) -> World {
    let target = w.objects[id];
    let harmed = w.objects.update(id, after_damage(target, damage, w.game.state));
    World {
        objects: match xp_from(target, damage, w.game.state) {
            Some(xp) => if id != PLAYER {
                harmed.update(PLAYER as int, with_xp_gain(harmed[PLAYER as int], xp as int))
            } else {
                harmed
            },
            None => harmed,
        },
        game: game_after_damage(w.game, target, damage),
    }
}

/// Whether the object at `id` can be dealt `damage` from afar within the
/// range of `i32`.
pub open spec fn strike_fits(w: World, id: int, damage: int) -> bool {
    &&& 0 <= id < w.objects.len()
    &&& w.objects.len() > 0
    &&& damage_fits(w.objects[id], damage, w.game.state)
    &&& match xp_from(w.objects[id], damage, w.game.state) {
        Some(xp) => id != PLAYER ==> xp_gain_fits(w.objects[PLAYER as int], xp as int),
        None => true,
    }
}

fn strike(id: usize, damage: i32, objects: &mut Vec<Object>, game: &mut Game)
    requires
        strike_fits(world_of(old(objects)@, *old(game)), id as int, damage as int),
    ensures
        world_of(final(objects)@, *final(game)) == struck(
            world_of(old(objects)@, *old(game)),
            id as int,
            damage as int,
        ),
{
    assert(views(objects@).len() == objects@.len());
    let ghost start = views(objects@);
    let award = objects[id].take_damage(damage, game);
    let ghost harmed = views(objects@);
    assert(harmed =~= start.update(
        id as int,
        after_damage(start[id as int], damage as int, old(game).state),
    ));
    match award {
        Some(xp) => {
            if id != PLAYER {
                match &mut objects[PLAYER].fighter {
                    Some(f) => {
                        f.xp = f.xp + xp;
                    },
                    None => {},
                }
                assert(views(objects@) =~= harmed.update(
                    PLAYER as int,
                    with_xp_gain(harmed[PLAYER as int], xp as int),
                ));
            }
        },
        None => {},
    }
}

/// The world after a scroll of lightning bolt is read: the nearest
/// target within reach is struck, whatever its defense.
pub open spec fn after_lightning(w: World, fov: Visibility) -> World {
    match closest(w.objects, fov, LIGHTNING_RANGE as int) {
        Some(id) => struck(
            World {
                game: w.game.logged(
                    lightning_strike_text(w.objects[id].name, LIGHTNING_DAMAGE as int),
                    Color::LightBlue,
                ),
                ..w
            },
            id,
            LIGHTNING_DAMAGE as int,
        ),
        None => World { game: w.game.logged("No enemy is close enough to strike."@, Color::Red), ..w },
    }
}

/// Whether a scroll of lightning bolt can be read within the range of
/// `i32`.
pub open spec fn lightning_fits(w: World, fov: Visibility) -> bool {
    &&& w.objects.len() > 0
    &&& match closest(w.objects, fov, LIGHTNING_RANGE as int) {
        Some(id) => strike_fits(w, id, LIGHTNING_DAMAGE as int),
        None => true,
    }
}

/// Finds the closest enemy within reach and damages it.
pub fn cast_lightning(objects: &mut Vec<Object>, game: &mut Game, fov: &Visibility) -> (result: UseResult)
    requires
        lightning_fits(world_of(old(objects)@, *old(game)), *fov),
    ensures
        world_of(final(objects)@, *final(game)) == after_lightning(world_of(old(objects)@, *old(game)), *fov),
        result == if closest(views(old(objects)@), *fov, LIGHTNING_RANGE as int) is Some {
            UseResult::Used
        } else {
            UseResult::Cancelled
        },
{
    assert(views(objects@).len() == objects@.len());
    let monster_id = closest_monster(LIGHTNING_RANGE, objects, fov);
    match monster_id {
        Some(monster_id) => {
            proof {
                lemma_closest_is_nearest(views(objects@), *fov, LIGHTNING_RANGE as int);
            }
            game.log.add(
                lightning_strike_message(objects[monster_id].name.as_str(), LIGHTNING_DAMAGE),
                Color::LightBlue,
            );
            strike(monster_id, LIGHTNING_DAMAGE, objects, game);
            UseResult::Used
        },
        None => {
            game.log.add(String::from_str("No enemy is close enough to strike."), Color::Red);
            assert(views(objects@) =~= views(old(objects)@));
            UseResult::Cancelled
        },
    }
}

/// Whether `object` is caught by a fireball that goes off at `(x, y)`: it
/// is a fighter no further away than the radius.
pub open spec fn in_blast(object: ObjectView, x: int, y: int) -> bool {
    object.fighter is Some && distance_squared(object.x as int, object.y as int, x, y) <= FIREBALL_RADIUS
        * FIREBALL_RADIUS
}

/// The world after the fireball has reached the object at `id`.
pub open spec fn burn_one(w: World, id: int, x: int, y: int) -> World {
    if in_blast(w.objects[id], x, y) {
        struck(
            World {
                game: w.game.logged(burned_text(w.objects[id].name, FIREBALL_DAMAGE as int), Color::Orange),
                ..w
            },
            id,
            FIREBALL_DAMAGE as int,
        )
    } else {
        w
    }
}

/// The world after the fireball has reached the first `upto` objects, in
/// order.
pub open spec fn burned_through(w: World, x: int, y: int, upto: int) -> World
    decreases upto,
{
    if upto <= 0 {
        w
    } else {
        burn_one(burned_through(w, x, y, upto - 1), upto - 1, x, y)
    }
}

/// Whether the fireball can reach the object at `id` within the range of
/// `i32`.
pub open spec fn burn_one_fits(w: World, id: int, x: int, y: int) -> bool {
    in_blast(w.objects[id], x, y) ==> strike_fits(w, id, FIREBALL_DAMAGE as int)
}

/// Whether the fireball can reach the first `upto` objects within the
/// range of `i32`.
pub open spec fn burn_fits_through(w: World, x: int, y: int, upto: int) -> bool
    decreases upto,
{
    if upto <= 0 {
        true
    } else {
        burn_fits_through(w, x, y, upto - 1) && burn_one_fits(burned_through(w, x, y, upto - 1), upto - 1, x, y)
    }
}

/// The world after a fireball goes off at `(x, y)`: every fighter within
/// the radius is burned, the player included.
pub open spec fn after_fireball(w: World, x: int, y: int) -> World {
    burned_through(
        World { game: w.game.logged(fireball_explodes_text(FIREBALL_RADIUS as int), Color::Orange), ..w },
        x,
        y,
        w.objects.len() as int,
    )
}

/// Whether a fireball can go off at `(x, y)` within the range of `i32`.
pub open spec fn fireball_fits(w: World, x: int, y: int) -> bool {
    burn_fits_through(w, x, y, w.objects.len() as int)
}

proof fn lemma_burn_fits_earlier(w: World, x: int, y: int, upto: int, earlier: int)
    requires
        burn_fits_through(w, x, y, upto),
        0 <= earlier <= upto,
    ensures
        burn_fits_through(w, x, y, earlier),
    decreases upto,
{
    if earlier < upto {
        lemma_burn_fits_earlier(w, x, y, upto - 1, earlier);
    }
}

proof fn lemma_burned_keeps_count(w: World, x: int, y: int, upto: int)
    requires
        0 <= upto <= w.objects.len(),
    ensures
        burned_through(w, x, y, upto).objects.len() == w.objects.len(),
    decreases upto,
{
    if upto > 0 {
        lemma_burned_keeps_count(w, x, y, upto - 1);
    }
}

proof fn lemma_burn_ignores_log(w: World, text: Seq<char>, color: Color, x: int, y: int, upto: int)
    ensures
        burn_fits_through(World { game: w.game.logged(text, color), ..w }, x, y, upto) == burn_fits_through(
            w,
            x,
            y,
            upto,
        ),
        burned_through(World { game: w.game.logged(text, color), ..w }, x, y, upto).objects == burned_through(
            w,
            x,
            y,
            upto,
        ).objects,
        burned_through(World { game: w.game.logged(text, color), ..w }, x, y, upto).game.state
            == burned_through(w, x, y, upto).game.state,
    decreases upto,
{
    if upto > 0 {
        lemma_burn_ignores_log(w, text, color, x, y, upto - 1);
    }
}

proof fn lemma_burn_keeps_inventory(w: World, x: int, y: int, upto: int)
    ensures
        burned_through(w, x, y, upto).game.inventory == w.game.inventory,
    decreases upto,
{
    if upto > 0 {
        lemma_burn_keeps_inventory(w, x, y, upto - 1);
    }
}

/// A fireball leaves the inventory as it is.
pub proof fn lemma_fireball_keeps_inventory(w: World, x: int, y: int)
    ensures
        after_fireball(w, x, y).game.inventory == w.game.inventory,
{
    lemma_burn_keeps_inventory(
        World { game: w.game.logged(fireball_explodes_text(FIREBALL_RADIUS as int), Color::Orange), ..w },
        x,
        y,
        w.objects.len() as int,
    );
}

/// Sets a fireball off at `(x, y)`, burning every fighter within the
/// radius, the player included. The player takes the experience of what
/// dies.
pub fn cast_fireball(x: i32, y: i32, objects: &mut Vec<Object>, game: &mut Game) -> (result: UseResult)
    requires
        fireball_fits(world_of(old(objects)@, *old(game)), x as int, y as int),
    ensures
        world_of(final(objects)@, *final(game)) == after_fireball(
            world_of(old(objects)@, *old(game)),
            x as int,
            y as int,
        ),
        result == UseResult::Used,
{
    let ghost start = world_of(objects@, *game);
    game.log.add(fireball_explodes_message(FIREBALL_RADIUS), Color::Orange);
    let ghost lit = world_of(objects@, *game);
    proof {
        assert(lit == (World {
            game: start.game.logged(fireball_explodes_text(FIREBALL_RADIUS as int), Color::Orange),
            ..start
        }));
        lemma_burn_ignores_log(
            start,
            fireball_explodes_text(FIREBALL_RADIUS as int),
            Color::Orange,
            x as int,
            y as int,
            start.objects.len() as int,
        );
    }
    let count = objects.len();
    let reach: u128 = (FIREBALL_RADIUS * FIREBALL_RADIUS) as u128;
    let mut id: usize = 0;
    while id < count
        invariant
            id <= count,
            reach == FIREBALL_RADIUS * FIREBALL_RADIUS,
            count == lit.objects.len(),
            objects@.len() == count,
            burn_fits_through(lit, x as int, y as int, count as int),
            world_of(objects@, *game) == burned_through(lit, x as int, y as int, id as int),
        decreases count - id,
    {
        proof {
            lemma_burn_fits_earlier(lit, x as int, y as int, count as int, id + 1);
        }
        let ghost now = world_of(objects@, *game);
        assert(burn_one_fits(now, id as int, x as int, y as int));
        if objects[id].distance(x, y) <= reach && objects[id].fighter.is_some() {
            game.log.add(burned_message(objects[id].name.as_str(), FIREBALL_DAMAGE), Color::Orange);
            strike(id, FIREBALL_DAMAGE, objects, game);
        }
        proof {
            lemma_burned_keeps_count(lit, x as int, y as int, id + 1);
            assert(views(objects@).len() == objects@.len());
        }
        id = id + 1;
    }
    UseResult::Used
}

/// The behaviour put in a box, to be remembered.
pub open spec fn boxed(ai: Option<Ai>) -> Option<Box<Ai>> {
    match ai {
        Some(ai) => Some(Box::new(ai)),
        None => None,
    }
}

/// The world after the monster at `id` is confused: it remembers the
/// behaviour it had and stumbles about for a fixed number of turns.
pub open spec fn after_confuse(w: World, id: int) -> World {
    World {
        objects: w.objects.update(
            id,
            ObjectView {
                ai: Some(Ai::Confused { previous_ai: boxed(w.objects[id].ai), num_turns: CONFUSE_NUM_TURNS }),
                ..w.objects[id]
            },
        ),
        game: w.game.logged(confused_text(w.objects[id].name), Color::Green),
    }
}

/// Confuses the monster at `monster_id`: its behaviour is replaced by a
/// confused one, which restores the old behaviour after some turns.
pub fn cast_confuse(monster_id: usize, objects: &mut Vec<Object>, game: &mut Game) -> (result: UseResult)
    requires
        monster_id < old(objects)@.len(),
    ensures
        world_of(final(objects)@, *final(game)) == after_confuse(
            world_of(old(objects)@, *old(game)),
            monster_id as int,
        ),
        result == UseResult::Used,
{
    let old_ai = objects[monster_id].ai.take();
    let confuse_ai = Ai::Confused {
        previous_ai: match old_ai {
            Some(ai) => Some(Box::new(ai)),
            None => None,
        },
        num_turns: CONFUSE_NUM_TURNS,
    };
    objects[monster_id].ai = Some(confuse_ai);
    game.log.add(confused_message(objects[monster_id].name.as_str()), Color::Green);
    assert(views(objects@) =~= after_confuse(world_of(old(objects)@, *old(game)), monster_id as int).objects);
    UseResult::Used
}

/// The effect of an item that has none of its own: it counts as used.
pub fn cast_nothing() -> (result: UseResult)
    ensures
        result == UseResult::Used,
{
    UseResult::Used
}

} // verus!
