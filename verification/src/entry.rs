//! Entry points that test for themselves whether the world keeps to the
//! limits, and leave it alone where it does not.

use vstd::prelude::*;
use crate::ai::is_step;
use crate::combat::{attack_damage, attack_fits};
use crate::command::{
    action_of,
    Command,
    command_fits,
    command_leads,
    command_of,
    handle_keys,
    Key,
    monsters_due,
    PlayerAction,
};
use crate::config::{LIGHTNING_RANGE, PLAYER};
use crate::fov::Visibility;
use crate::game::{
    base_stat,
    bonus,
    bonus_sum,
    fits_i32,
    full_stat,
    Game,
    GameState,
    Stat,
    worn_items,
};
use crate::inventory::{after_drop, after_use, drop_item, Target, use_fits, use_item};
use crate::limits::{in_limits, object_in_limits, STAT_LIMIT, within};
use crate::object::{Item, Object, ObjectView, views};
use crate::progress::{
    after_level_check,
    apply_level_up,
    check_level_up,
    improved,
    improvement_fits,
    level_check_fits,
    level_up_xp,
    levels_owed,
    LevelUpChoice,
    settle_fits,
};
use crate::session::descent_fits;
use crate::spells::{
    burn_fits_through,
    burn_one,
    burn_one_fits,
    burned_through,
    closest,
    fireball_fits,
    lemma_closest_is_nearest,
};
use crate::turn::{
    fighter_stands_at,
    first_fighter_at,
    is_round,
    monsters_take_turns,
    player_move_fits,
    round_fits,
};
use crate::world::{World, world_of};

verus! {

/// The bonuses of what is worn add up to no more than the limit for
/// each item of the inventory.
pub proof fn lemma_worn_bonus_bounded(inventory: Seq<ObjectView>, stat: Stat)
    requires
        forall|i: int| 0 <= i < inventory.len() ==> object_in_limits(#[trigger] inventory[i]),
    ensures
        -STAT_LIMIT * inventory.len() <= bonus_sum(worn_items(inventory), stat) <= STAT_LIMIT * inventory.len(),
    decreases inventory.len(),
{
    if inventory.len() > 0 {
        let earlier = inventory.drop_last();
        assert forall|i: int| 0 <= i < earlier.len() implies object_in_limits(#[trigger] earlier[i]) by {
            assert(earlier[i] == inventory[i]);
        }
        lemma_worn_bonus_bounded(earlier, stat);
        let rest = worn_items(earlier);
        assert(object_in_limits(inventory[inventory.len() - 1]));
        match inventory.last().equipment {
            Some(e) => {
                if e.is_equipped {
                    assert(rest.push(e).drop_last() =~= rest);
                    assert(within(bonus(e, stat)));
                }
            },
            None => {},
        }
    }
}

/// Within the limits every effective statistic is far from the ends of
/// `i32`.
pub proof fn lemma_full_stat_bounded(w: World, object: ObjectView, stat: Stat)
    requires
        w.in_limits(),
        object_in_limits(object),
    ensures
        -27 * STAT_LIMIT <= full_stat(object, w.game.inventory, stat) <= 27 * STAT_LIMIT,
        !object.is_player() ==> -STAT_LIMIT <= full_stat(object, w.game.inventory, stat) <= STAT_LIMIT,
{
    lemma_worn_bonus_bounded(w.game.inventory, stat);
    assert(bonus_sum(Seq::<crate::object::EquipmentView>::empty(), stat) == 0);
    assert(STAT_LIMIT * w.game.inventory.len() <= 26 * STAT_LIMIT) by (nonlinear_arith)
        requires
            w.game.inventory.len() <= 26,
    ;
}

/// Within the limits any object can attack any other.
pub proof fn lemma_attack_fits(w: World, attacker: int, target: int)
    requires
        w.in_limits(),
        0 <= attacker < w.objects.len(),
        0 <= target < w.objects.len(),
    ensures
        attack_fits(w.objects[attacker], w.objects[target], w.game),
{
    lemma_full_stat_bounded(w, w.objects[attacker], Stat::Power);
    lemma_full_stat_bounded(w, w.objects[target], Stat::Defense);
    let damage = attack_damage(w.objects[attacker], w.objects[target], w.game.inventory);
    if w.objects[attacker].is_player() {
        assert(attacker == PLAYER);
    }
}

/// Within the limits the monsters can take their turns.
pub proof fn lemma_round_fits(w: World)
    requires
        w.in_limits(),
    ensures
        round_fits(w),
{
    lemma_full_stat_bounded(w, w.objects[PLAYER as int], Stat::Defense);
    assert forall|i: int| 0 < i < w.objects.len() implies fits_i32(
        base_stat(#[trigger] w.objects[i], Stat::Power) - full_stat(
            w.objects[PLAYER as int],
            w.game.inventory,
            Stat::Defense,
        ),
    ) by {
        assert(object_in_limits(w.objects[i]));
    }
}

proof fn lemma_first_fighter(objects: Seq<ObjectView>, x: int, y: int, from: int)
    requires
        0 <= from,
    ensures
        match first_fighter_at(objects, x, y, from) {
            Some(id) => from <= id < objects.len() && fighter_stands_at(objects[id], x, y),
            None => true,
        },
    decreases objects.len() - from,
{
    if from < objects.len() && !fighter_stands_at(objects[from], x, y) {
        lemma_first_fighter(objects, x, y, from + 1);
    }
}

/// Within the limits the player can try any real step of at most one
/// tile each way.
pub proof fn lemma_player_move_fits(w: World, dx: int, dy: int)
    requires
        w.in_limits(),
        is_step(dx, dy),
        dx != 0 || dy != 0,
    ensures
        player_move_fits(w, dx, dy),
{
    let player = w.objects[PLAYER as int];
    assert(w.game.map.is_floor(player.x as int, player.y as int));
    lemma_first_fighter(w.objects, player.x + dx, player.y + dy, 0);
    match first_fighter_at(w.objects, player.x + dx, player.y + dy, 0) {
        Some(target) => {
            lemma_attack_fits(w, PLAYER as int, target);
        },
        None => {},
    }
}

/// Within the limits every command that a key stands for can be carried
/// out.
pub proof fn lemma_command_fits(w: World, key: Option<Key>)
    requires
        w.in_limits(),
    ensures
        command_fits(w, command_of(key, w.game.state)),
{
    match command_of(key, w.game.state) {
        Command::Move(dx, dy) => {
            lemma_player_move_fits(w, dx as int, dy as int);
        },
        Command::Descend => {
            lemma_descent_fits(w);
        },
        _ => {},
    }
}

/// Within the limits the player can go down to the next level.
pub proof fn lemma_descent_fits(w: World)
    requires
        w.in_limits(),
    ensures
        descent_fits(w),
{
    lemma_full_stat_bounded(w, w.objects[PLAYER as int], Stat::MaxHp);
    assert(object_in_limits(w.objects[PLAYER as int]));
}

/// Within the limits the check for a level-up can be made, and the
/// player can be improved as chosen.
pub proof fn lemma_level_up_fits(w: World, choice: LevelUpChoice)
    requires
        w.in_limits(),
    ensures
        level_check_fits(w),
        improvement_fits(w.objects[PLAYER as int].fighter.unwrap(), choice),
{
    assert(object_in_limits(w.objects[PLAYER as int]));
    lemma_settle_fits(
        w.objects[PLAYER as int].level as int,
        w.objects[PLAYER as int].fighter.unwrap().xp as int,
    );
}

/// From a level at or above zero, with experience within the limit,
/// every level that the experience pays for can be taken within the
/// range of `i32`.
pub proof fn lemma_settle_fits(level: int, xp: int)
    requires
        0 <= level,
        -STAT_LIMIT <= xp,
        200 * level + xp <= 201 * STAT_LIMIT,
    ensures
        settle_fits(level, xp),
    decreases xp,
{
    if xp >= level_up_xp(level) {
        lemma_settle_fits(level + 1, xp - level_up_xp(level));
    }
}

/// What a fireball has done to the world by the time it has reached the
/// first `upto` objects: the objects yet to come are as they were, and
/// the player is a fighter whose experience has grown by no more than
/// the limit for each object reached.
pub open spec fn part_burned(w: World, after: World, upto: int) -> bool {
    &&& after.objects.len() == w.objects.len()
    &&& after.game.inventory == w.game.inventory
    &&& forall|i: int| upto <= i < w.objects.len() && 0 < i ==> #[trigger] after.objects[i] == w.objects[i]
    &&& upto == 0 ==> after.objects[PLAYER as int] == w.objects[PLAYER as int]
    &&& match after.objects[PLAYER as int].fighter {
        Some(f) => -STAT_LIMIT * (upto + 1) <= f.xp <= STAT_LIMIT * (upto + 1),
        None => false,
    }
}

proof fn lemma_fireball_progress(w: World, x: int, y: int, upto: int)
    requires
        w.in_limits(),
        0 <= upto <= w.objects.len(),
    ensures
        part_burned(w, burned_through(w, x, y, upto), upto),
        burn_fits_through(w, x, y, upto),
    decreases upto,
{
    assert(object_in_limits(w.objects[PLAYER as int]));
    if upto > 0 {
        lemma_fireball_progress(w, x, y, upto - 1);
        let before = burned_through(w, x, y, upto - 1);
        let id = upto - 1;
        let after = burn_one(before, id, x, y);
        assert(after == burned_through(w, x, y, upto));
        assert(before.objects[id] == w.objects[id]);
        assert(object_in_limits(w.objects[id]));
        assert(STAT_LIMIT * (upto - 1 + 1) + STAT_LIMIT == STAT_LIMIT * (upto + 1)) by (nonlinear_arith);
        assert(STAT_LIMIT * (upto + 1) <= STAT_LIMIT * 1001) by (nonlinear_arith)
            requires
                upto <= 1000,
        ;
        assert(burn_one_fits(before, id, x, y));
        assert(part_burned(w, after, upto)) by {
            assert forall|i: int| upto <= i < w.objects.len() && 0 < i implies #[trigger] after.objects[i]
                == w.objects[i] by {
                assert(before.objects[i] == w.objects[i]);
            }
        }
    }
}

/// Within the limits a fireball can go off anywhere.
pub proof fn lemma_fireball_fits(w: World, x: int, y: int)
    requires
        w.in_limits(),
    ensures
        fireball_fits(w, x, y),
{
    lemma_fireball_progress(w, x, y, w.objects.len() as int);
}

/// Whether `target` names something that is there.
pub open spec fn target_exists(w: World, target: Target) -> bool {
    match target {
        Target::Monster(id) => id < w.objects.len(),
        _ => true,
    }
}

/// Within the limits any item of the inventory can be used on any target
/// that is there.
pub proof fn lemma_use_fits(w: World, id: int, fov: Visibility, target: Target)
    requires
        w.in_limits(),
        0 <= id < w.game.inventory.len(),
        target_exists(w, target),
    ensures
        use_fits(w, id, fov, target),
{
    assert(object_in_limits(w.objects[PLAYER as int]));
    lemma_full_stat_bounded(w, w.objects[PLAYER as int], Stat::MaxHp);
    match w.game.inventory[id].item {
        Some(Item::Lightning) => {
            lemma_closest_is_nearest(w.objects, fov, LIGHTNING_RANGE as int);
            match closest(w.objects, fov, LIGHTNING_RANGE as int) {
                Some(monster) => {
                    assert(object_in_limits(w.objects[monster]));
                },
                None => {},
            }
        },
        Some(Item::Fireball) => {
            match target {
                Target::Tile(x, y) => {
                    lemma_fireball_fits(w, x as int, y as int);
                },
                _ => {},
            }
        },
        _ => {},
    }
}

/// Handles a key, if the world keeps to the limits; leaves everything as
/// it is, and returns nothing, if it does not.
pub fn try_handle_keys(key: Option<Key>, objects: &mut Vec<Object>, game: &mut Game) -> (handled: Option<
    (PlayerAction, Command),
>)
    ensures
        match handled {
            Some((action, command)) => {
                &&& world_of(old(objects)@, *old(game)).in_limits()
                &&& command == command_of(key, old(game).state)
                &&& action == action_of(command)
                &&& command_leads(
                    world_of(old(objects)@, *old(game)),
                    world_of(final(objects)@, *final(game)),
                    command,
                )
            },
            None => {
                &&& !world_of(old(objects)@, *old(game)).in_limits()
                &&& *final(objects) == *old(objects)
                &&& *final(game) == *old(game)
            },
        },
{
    if !in_limits(objects, game) {
        return None;
    }
    proof {
        lemma_command_fits(world_of(objects@, *game), key);
    }
    Some(handle_keys(key, objects, game))
}

/// Lets the monsters take their turns, if the world keeps to the limits;
/// leaves everything as it is, and says so, if it does not.
pub fn try_monsters_take_turns(objects: &mut Vec<Object>, game: &mut Game, fov: &Visibility) -> (done: bool)
    ensures
        done == world_of(old(objects)@, *old(game)).in_limits(),
        done ==> exists|trace: Seq<World>| #[trigger]
            is_round(trace, world_of(old(objects)@, *old(game)), world_of(final(objects)@, *final(game)), *fov),
        !done ==> *final(objects) == *old(objects) && *final(game) == *old(game),
{
    if !in_limits(objects, game) {
        return false;
    }
    proof {
        lemma_round_fits(world_of(objects@, *game));
    }
    monsters_take_turns(objects, game, fov);
    true
}

/// Ends the turn. Where the monsters are not due, nothing happens.
/// Where they are, they take their turns if the world keeps to the
/// limits; if it does not, everything is left as it is and nothing is
/// returned.
pub fn try_finish_turn(action: PlayerAction, objects: &mut Vec<Object>, game: &mut Game, fov: &Visibility) -> (ran:
    Option<bool>)
    ensures
        ran == if !monsters_due(old(game).state, action) {
            Some(false)
        } else if world_of(old(objects)@, *old(game)).in_limits() {
            Some(true)
        } else {
            None
        },
        ran == Some(true) ==> exists|trace: Seq<World>| #[trigger]
            is_round(trace, world_of(old(objects)@, *old(game)), world_of(final(objects)@, *final(game)), *fov),
        ran != Some(true) ==> *final(objects) == *old(objects) && *final(game) == *old(game),
{
    if game.state == GameState::Playing && action == PlayerAction::TookTurn {
        if try_monsters_take_turns(objects, game, fov) {
            Some(true)
        } else {
            None
        }
    } else {
        Some(false)
    }
}

/// Whether the target named is there.
pub fn target_in_range(target: Target, objects: &Vec<Object>) -> (b: bool)
    ensures
        b == match target {
            Target::Monster(id) => id < objects@.len(),
            _ => true,
        },
{
    match target {
        Target::Monster(id) => id < objects.len(),
        _ => true,
    }
}

/// Uses the item at `inventory_id`, if the world keeps to the limits and
/// both the item and the target are there; leaves everything as it is,
/// and says so, if not.
pub fn try_use_item(
    inventory_id: usize,
    objects: &mut Vec<Object>,
    game: &mut Game,
    fov: &Visibility,
    target: Target,
) -> (done: bool)
    ensures
        done == (world_of(old(objects)@, *old(game)).in_limits() && inventory_id < old(game).inventory@.len()
            && target_exists(world_of(old(objects)@, *old(game)), target)),
        done ==> world_of(final(objects)@, *final(game)) == after_use(
            world_of(old(objects)@, *old(game)),
            inventory_id as int,
            *fov,
            target,
        ),
        !done ==> *final(objects) == *old(objects) && *final(game) == *old(game),
{
    assert(views(objects@).len() == objects@.len());
    assert(views(game.inventory@).len() == game.inventory@.len());
    if !in_limits(objects, game) || inventory_id >= game.inventory.len() || !target_in_range(target, objects) {
        return false;
    }
    proof {
        lemma_use_fits(world_of(objects@, *game), inventory_id as int, *fov, target);
    }
    use_item(inventory_id, objects, game, fov, target);
    true
}

/// Drops the item at `inventory_id`, if there is such an item and a
/// player to drop it; leaves everything as it is, and says so, if not.
pub fn try_drop_item(inventory_id: usize, objects: &mut Vec<Object>, game: &mut Game) -> (done: bool)
    ensures
        done == (inventory_id < old(game).inventory@.len() && old(objects)@.len() > 0),
        done ==> world_of(final(objects)@, *final(game)) == after_drop(
            world_of(old(objects)@, *old(game)),
            inventory_id as int,
        ),
        !done ==> *final(objects) == *old(objects) && *final(game) == *old(game),
{
    if inventory_id >= game.inventory.len() || objects.len() == 0 {
        return false;
    }
    drop_item(inventory_id, objects, game);
    true
}

/// Makes the check for a level-up, if the world keeps to the limits,
/// and returns the number of choices owed; leaves everything as it is,
/// and returns nothing, if it does not.
pub fn try_check_level_up(objects: &mut Vec<Object>, game: &mut Game) -> (owed: Option<u32>)
    ensures
        match owed {
            Some(owed) => {
                &&& world_of(old(objects)@, *old(game)).in_limits()
                &&& owed == levels_owed(views(old(objects)@)[PLAYER as int])
                &&& world_of(final(objects)@, *final(game)) == after_level_check(
                    world_of(old(objects)@, *old(game)),
                )
            },
            None => {
                &&& !world_of(old(objects)@, *old(game)).in_limits()
                &&& *final(objects) == *old(objects)
                &&& *final(game) == *old(game)
            },
        },
{
    if !in_limits(objects, game) {
        return None;
    }
    proof {
        lemma_level_up_fits(world_of(objects@, *game), LevelUpChoice::Strength);
    }
    Some(check_level_up(objects, game))
}

/// Improves the player as chosen, if the world keeps to the limits;
/// leaves everything as it is, and says so, if it does not.
pub fn try_apply_level_up(choice: LevelUpChoice, objects: &mut Vec<Object>, game: &Game) -> (done: bool)
    ensures
        done == world_of(old(objects)@, *game).in_limits(),
        done ==> views(final(objects)@) == views(old(objects)@).update(
            PLAYER as int,
            ObjectView {
                fighter: Some(improved(old(objects)@[PLAYER as int].fighter.unwrap(), choice)),
                ..views(old(objects)@)[PLAYER as int]
            },
        ),
        !done ==> *final(objects) == *old(objects),
{
    if !in_limits(objects, game) {
        return false;
    }
    proof {
        lemma_level_up_fits(world_of(objects@, *game), choice);
        assert(views(objects@).len() == objects@.len());
    }
    apply_level_up(choice, objects);
    true
}

} // verus!
