//! Monster behaviour: what a monster does on its turn.

use vstd::prelude::*;
use crate::color::Color;
use crate::combat::{attack_fits, attacker_after, game_after_attack, target_after};
use crate::config::PLAYER;
use crate::dungeon::in_bounds;
use crate::fov::Visibility;
use crate::game::Game;
use crate::object::{Ai, distance_squared, Object, ObjectView, views};
use crate::random::range;
use crate::text::{no_longer_confused_message, no_longer_confused_text};
use crate::world::{
    move_by,
    move_towards,
    moved_by,
    moved_towards,
    mut_two,
    unit_step,
    World,
    world_of,
};

verus! {

/// The behaviour kept in a box, taken out of it.
pub open spec fn unboxed(previous: Option<Box<Ai>>) -> Option<Ai> {
    match previous {
        Some(inner) => Some(*inner),
        None => None,
    }
}

impl Ai {
    /// Whether a monster with this behaviour stumbles about on its turn:
    /// it is confused and has turns of confusion left.
    pub open spec fn stumbles(self) -> bool {
        match self {
            Ai::Basic => false,
            Ai::Confused { previous_ai, num_turns } => num_turns > 0,
        }
    }

    /// This behaviour as the turn leaves it: a turn of confusion is used
    /// up, and at the end of the confusion the remembered behaviour is
    /// handed out.
    pub open spec fn kept(self) -> Ai {
        match self {
            Ai::Basic => Ai::Basic,
            Ai::Confused { previous_ai, num_turns } => if num_turns > 0 {
                Ai::Confused { previous_ai, num_turns: (num_turns - 1) as i32 }
            } else {
                Ai::Confused { previous_ai: None, num_turns }
            },
        }
    }

    /// The behaviour that the turn hands out to replace this one: the
    /// remembered one, at the end of the confusion.
    pub open spec fn released(self) -> Option<Ai> {
        match self {
            Ai::Basic => None,
            Ai::Confused { previous_ai, num_turns } => if num_turns > 0 {
                None
            } else {
                unboxed(previous_ai)
            },
        }
    }

    /// The behaviour of the monster after its turn.
    pub open spec fn next(self) -> Ai {
        match self.released() {
            Some(ai) => ai,
            None => self.kept(),
        }
    }
}

/// The world after the object at `attacker` attacks the one at `target`.
pub open spec fn after_attack(w: World, attacker: int, target: int) -> World {
    World {
        objects: w.objects.update(
            attacker,
            attacker_after(w.objects[attacker], w.objects[target], w.game),
        ).update(target, target_after(w.objects[attacker], w.objects[target], w.game)),
        game: game_after_attack(w.game, w.objects[attacker], w.objects[target]),
    }
}

/// Whether the player is a fighter with hit points left.
pub open spec fn player_alive(w: World) -> bool {
    match w.objects[PLAYER as int].fighter {
        Some(f) => f.hp > 0,
        None => false,
    }
}

/// The world after the turn of a monster with the basic behaviour. A
/// monster out of the player's view does nothing. One in view that is two
/// tiles or more away steps towards the player; one that is closer
/// attacks, so long as the player is alive.
pub open spec fn basic_turn(w: World, id: int, fov: Visibility) -> World {
    let monster = w.objects[id];
    let player = w.objects[PLAYER as int];
    if !fov.visible(monster.x as int, monster.y as int) {
        w
    } else if distance_squared(monster.x as int, monster.y as int, player.x as int, player.y as int) >= 4 {
        World {
            objects: moved_towards(w.objects, w.game.map, id, player.x as int, player.y as int),
            ..w
        }
    } else if player_alive(w) {
        after_attack(w, id, PLAYER as int)
    } else {
        w
    }
}

/// The world after the turn of a confused monster whose random step is
/// `(dx, dy)`: it takes the step while turns of confusion are left, and
/// is said to be confused no longer once they are used up.
pub open spec fn confused_turn(w: World, id: int, ai: Ai, dx: int, dy: int) -> World {
    if ai.stumbles() {
        World { objects: moved_by(w.objects, w.game.map, id, dx, dy), ..w }
    } else {
        World { game: w.game.logged(no_longer_confused_text(w.objects[id].name), Color::Red), ..w }
    }
}

/// The world after a monster with behaviour `ai` has acted.
pub open spec fn acted(w: World, id: int, ai: Ai, fov: Visibility, dx: int, dy: int) -> World {
    match ai {
        Ai::Basic => basic_turn(w, id, fov),
        Ai::Confused { previous_ai, num_turns } => confused_turn(w, id, ai, dx, dy),
    }
}

/// `object` with its behaviour replaced.
pub open spec fn with_ai(object: ObjectView, ai: Option<Ai>) -> ObjectView {
    ObjectView { ai, ..object }
}

/// The world after the turn of the object at `id`, where a confused
/// monster's random step is `(dx, dy)`. An object without behaviour does
/// nothing. Any other acts with its behaviour set aside, and has the
/// behaviour that follows when the turn is over.
pub open spec fn turn_of(w: World, id: int, fov: Visibility, dx: int, dy: int) -> World {
    match w.objects[id].ai {
        Some(ai) => {
            let idle = World { objects: w.objects.update(id, with_ai(w.objects[id], None)), ..w };
            let done = acted(idle, id, ai, fov, dx, dy);
            World { objects: done.objects.update(id, with_ai(done.objects[id], Some(ai.next()))), ..done }
        },
        None => w,
    }
}

/// Whether a step of at most one tile each way stays on the grid from
/// where `object` stands.
pub open spec fn has_room(object: ObjectView) -> bool {
    in_bounds(object.x - 1, object.y - 1) && in_bounds(object.x + 1, object.y + 1)
}

/// Whether a monster with the basic behaviour can take its turn: it is
/// not the player, a step towards the player stays on the grid, and an
/// attack on the player stays within the range of `i32`.
pub open spec fn basic_turn_fits(w: World, id: int, fov: Visibility) -> bool {
    let monster = w.objects[id];
    let player = w.objects[PLAYER as int];
    &&& w.game.map.wf()
    &&& 0 <= id < w.objects.len()
    &&& id != PLAYER
    &&& fov.visible(monster.x as int, monster.y as int) ==> if distance_squared(
        monster.x as int,
        monster.y as int,
        player.x as int,
        player.y as int,
    ) >= 4 {
        in_bounds(
            monster.x + unit_step(player.x - monster.x, player.y - monster.y),
            monster.y + unit_step(player.y - monster.y, player.x - monster.x),
        )
    } else {
        player_alive(w) ==> attack_fits(monster, player, w.game)
    }
}

/// Whether a confused monster can take its turn: wherever its random step
/// leads, it stays on the grid.
pub open spec fn confused_turn_fits(w: World, id: int, ai: Ai) -> bool {
    &&& w.game.map.wf()
    &&& 0 <= id < w.objects.len()
    &&& ai.stumbles() ==> has_room(w.objects[id])
}

/// Whether a monster with behaviour `ai` can act.
pub open spec fn act_fits(w: World, id: int, ai: Ai, fov: Visibility) -> bool {
    match ai {
        Ai::Basic => basic_turn_fits(w, id, fov),
        Ai::Confused { previous_ai, num_turns } => confused_turn_fits(w, id, ai),
    }
}

/// Whether the object at `id` can take its turn.
pub open spec fn turn_fits(w: World, id: int, fov: Visibility) -> bool {
    &&& 0 <= id < w.objects.len()
    &&& match w.objects[id].ai {
        Some(ai) => act_fits(
            World { objects: w.objects.update(id, with_ai(w.objects[id], None)), ..w },
            id,
            ai,
            fov,
        ),
        None => true,
    }
}

/// Whether `(dx, dy)` is a step of at most one tile each way.
pub open spec fn is_step(dx: int, dy: int) -> bool {
    -1 <= dx <= 1 && -1 <= dy <= 1
}

/// Whether the turn of the object at `id` can lead from `before` to
/// `after`: it does for some random step of at most one tile each way.
pub open spec fn turn_leads(before: World, after: World, id: int, fov: Visibility) -> bool {
    exists|dx: int, dy: int| is_step(dx, dy) && after == #[trigger] turn_of(before, id, fov, dx, dy)
}

impl Ai {
    /// The turn of a monster with the basic behaviour.
    pub fn monster_basic_ai(monster_id: usize, objects: &mut Vec<Object>, game: &mut Game, fov: &Visibility)
        requires
            0 < old(objects)@.len(),
            basic_turn_fits(world_of(old(objects)@, *old(game)), monster_id as int, *fov),
        ensures
            world_of(final(objects)@, *final(game)) == basic_turn(
                world_of(old(objects)@, *old(game)),
                monster_id as int,
                *fov,
            ),
    {
        let (monster_x, monster_y) = objects[monster_id].pos();
        if fov.is_in_fov(monster_x, monster_y) {
            let distance = objects[monster_id].distance_to(&objects[PLAYER]);
            if distance >= 4 {
                let (player_x, player_y) = objects[PLAYER].pos();
                move_towards(monster_id, player_x, player_y, objects, game);
            } else {
                let alive = match &objects[PLAYER].fighter {
                    Some(f) => f.hp > 0,
                    None => false,
                };
                if alive {
                    let (monster, player) = mut_two(monster_id, PLAYER, objects.as_mut_slice());
                    monster.attack(player, game);
                    assert(views(objects@) =~= after_attack(
                        world_of(old(objects)@, *old(game)),
                        monster_id as int,
                        PLAYER as int,
                    ).objects);
                }
            }
        }
    }

    /// The turn of a confused monster whose random step is `(dx, dy)`.
    /// While turns of confusion are left the monster takes the step and
    /// uses one up. After that it is said to be confused no longer, and
    /// the remembered behaviour is handed out, once.
    pub fn confused_step(
        &mut self,
        monster_id: usize,
        dx: i32,
        dy: i32,
        objects: &mut Vec<Object>,
        game: &mut Game,
    ) -> (restored: Option<Ai>)
        requires
            *old(self) is Confused,
            confused_turn_fits(world_of(old(objects)@, *old(game)), monster_id as int, *old(self)),
            is_step(dx as int, dy as int),
        ensures
            world_of(final(objects)@, *final(game)) == confused_turn(
                world_of(old(objects)@, *old(game)),
                monster_id as int,
                *old(self),
                dx as int,
                dy as int,
            ),
            *final(self) == old(self).kept(),
            restored == old(self).released(),
    {
        match self {
            Ai::Confused { previous_ai, num_turns } => {
                if *num_turns > 0 {
                    move_by(monster_id, dx, dy, objects, game);
                    *num_turns = *num_turns - 1;
                    None
                } else {
                    game.log.add(no_longer_confused_message(objects[monster_id].name.as_str()), Color::Red);
                    match previous_ai.take() {
                        Some(inner) => Some(*inner),
                        None => None,
                    }
                }
            },
            Ai::Basic => None,
        }
    }

    /// The turn of a confused monster: a random step of at most one tile
    /// each way while turns of confusion are left, and the end of the
    /// confusion after that.
    pub fn monster_confused_ai(&mut self, monster_id: usize, objects: &mut Vec<Object>, game: &mut Game) -> (restored:
        Option<Ai>)
        requires
            *old(self) is Confused,
            confused_turn_fits(world_of(old(objects)@, *old(game)), monster_id as int, *old(self)),
        ensures
            exists|dx: int, dy: int|
                is_step(dx, dy) && world_of(final(objects)@, *final(game)) == #[trigger] confused_turn(
                    world_of(old(objects)@, *old(game)),
                    monster_id as int,
                    *old(self),
                    dx,
                    dy,
                ),
            *final(self) == old(self).kept(),
            restored == old(self).released(),
    {
        let stumbling = match self {
            Ai::Confused { previous_ai, num_turns } => *num_turns > 0,
            Ai::Basic => false,
        };
        let (dx, dy) = if stumbling {
            let dx = range(-1, 1);
            let dy = range(-1, 1);
            (dx, dy)
        } else {
            (0, 0)
        };
        let restored = self.confused_step(monster_id, dx, dy, objects, game);
        assert(is_step(dx as int, dy as int) && world_of(objects@, *game) == confused_turn(
            world_of(old(objects)@, *old(game)),
            monster_id as int,
            *old(self),
            dx as int,
            dy as int,
        ));
        restored
    }

    /// The turn of a monster with this behaviour. Returns the behaviour
    /// that replaces this one, if any does.
    pub fn take_turn(
        &mut self,
        monster_id: usize,
        objects: &mut Vec<Object>,
        game: &mut Game,
        fov: &Visibility,
    ) -> (restored: Option<Ai>)
        requires
            0 < old(objects)@.len(),
            act_fits(world_of(old(objects)@, *old(game)), monster_id as int, *old(self), *fov),
        ensures
            exists|dx: int, dy: int|
                is_step(dx, dy) && world_of(final(objects)@, *final(game)) == #[trigger] acted(
                    world_of(old(objects)@, *old(game)),
                    monster_id as int,
                    *old(self),
                    *fov,
                    dx,
                    dy,
                ),
            *final(self) == old(self).kept(),
            restored == old(self).released(),
    {
        let basic = match self {
            Ai::Basic => true,
            Ai::Confused { previous_ai, num_turns } => false,
        };
        if basic {
            Ai::monster_basic_ai(monster_id, objects, game, fov);
            assert(is_step(0, 0) && world_of(objects@, *game) == acted(
                world_of(old(objects)@, *old(game)),
                monster_id as int,
                *old(self),
                *fov,
                0,
                0,
            ));
            None
        } else {
            let restored = self.monster_confused_ai(monster_id, objects, game);
            let ghost (dx, dy) = choose|dx: int, dy: int|
                is_step(dx, dy) && world_of(objects@, *game) == #[trigger] confused_turn(
                    world_of(old(objects)@, *old(game)),
                    monster_id as int,
                    *old(self),
                    dx,
                    dy,
                );
            assert(is_step(dx, dy) && world_of(objects@, *game) == acted(
                world_of(old(objects)@, *old(game)),
                monster_id as int,
                *old(self),
                *fov,
                dx,
                dy,
            ));
            restored
        }
    }
}

/// The turn of the object at `monster_id`: an object with a behaviour
/// acts on it, any other does nothing.
pub fn ai_take_turn(monster_id: usize, objects: &mut Vec<Object>, game: &mut Game, fov: &Visibility)
    requires
        turn_fits(world_of(old(objects)@, *old(game)), monster_id as int, *fov),
    ensures
        exists|dx: int, dy: int|
            is_step(dx, dy) && world_of(final(objects)@, *final(game)) == #[trigger] turn_of(
                world_of(old(objects)@, *old(game)),
                monster_id as int,
                *fov,
                dx,
                dy,
            ),
{
    let ai = objects[monster_id].ai.take();
    match ai {
        Some(mut old_ai) => {
            let ghost start = world_of(old(objects)@, *old(game));
            let ghost idle = world_of(objects@, *game);
            assert(idle.objects =~= start.objects.update(
                monster_id as int,
                with_ai(start.objects[monster_id as int], None),
            ));
            let ghost first_ai = old_ai;
            let new_ai = old_ai.take_turn(monster_id, objects, game, fov);
            let ghost done = world_of(objects@, *game);
            let ghost (dx, dy) = choose|dx: int, dy: int|
                is_step(dx, dy) && done == #[trigger] acted(idle, monster_id as int, first_ai, *fov, dx, dy);
            assert(done.objects.len() == idle.objects.len()) by {
                lemma_acted_keeps_count(idle, monster_id as int, first_ai, *fov, dx, dy);
            }
            assert(views(objects@).len() == objects@.len());
            objects[monster_id].ai = match new_ai {
                Some(ai) => Some(ai),
                None => Some(old_ai),
            };
            assert(views(objects@) =~= done.objects.update(
                monster_id as int,
                with_ai(done.objects[monster_id as int], Some(first_ai.next())),
            ));
            assert(is_step(dx, dy) && world_of(objects@, *game) == turn_of(start, monster_id as int, *fov, dx, dy));
        },
        None => {
            assert(views(objects@) =~= views(old(objects)@));
            assert(is_step(0, 0) && world_of(objects@, *game) == turn_of(
                world_of(old(objects)@, *old(game)),
                monster_id as int,
                *fov,
                0,
                0,
            ));
        },
    }
}

/// Acting changes no object's place in the list.
pub proof fn lemma_acted_keeps_count(w: World, id: int, ai: Ai, fov: Visibility, dx: int, dy: int)
    requires
        0 <= id < w.objects.len(),
        0 < w.objects.len(),
    ensures
        acted(w, id, ai, fov, dx, dy).objects.len() == w.objects.len(),
{
}

/// The behaviour of a monster after `turns` turns of its own.
pub open spec fn after_turns(ai: Ai, turns: nat) -> Ai
    decreases turns,
{
    if turns == 0 {
        ai
    } else {
        after_turns(ai, (turns - 1) as nat).next()
    }
}

/// How many of the first `turns` turns are random steps.
pub open spec fn stumbles_in(ai: Ai, turns: nat) -> nat
    decreases turns,
{
    if turns == 0 {
        0
    } else {
        let before = stumbles_in(ai, (turns - 1) as nat);
        if after_turns(ai, (turns - 1) as nat).stumbles() {
            before + 1
        } else {
            before
        }
    }
}

/// How many of the first `turns` turns hand a remembered behaviour out.
pub open spec fn releases_in(ai: Ai, turns: nat) -> nat
    decreases turns,
{
    if turns == 0 {
        0
    } else {
        let before = releases_in(ai, (turns - 1) as nat);
        if after_turns(ai, (turns - 1) as nat).released() is Some {
            before + 1
        } else {
            before
        }
    }
}

/// While the confusion lasts, each turn is a random step that uses one
/// turn of confusion up, and the remembered behaviour stays put.
pub proof fn lemma_confusion_counts_down(previous: Box<Ai>, num_turns: i32, turns: nat)
    requires
        0 <= turns <= num_turns,
    ensures
        after_turns(Ai::Confused { previous_ai: Some(previous), num_turns }, turns) == (Ai::Confused {
            previous_ai: Some(previous),
            num_turns: (num_turns - turns) as i32,
        }),
        stumbles_in(Ai::Confused { previous_ai: Some(previous), num_turns }, turns) == turns,
        releases_in(Ai::Confused { previous_ai: Some(previous), num_turns }, turns) == 0,
    decreases turns,
{
    if turns > 0 {
        lemma_confusion_counts_down(previous, num_turns, (turns - 1) as nat);
    }
}

/// A monster confused for `num_turns` turns takes exactly that many
/// random steps, then returns to the behaviour it had before, and that
/// behaviour is handed out exactly once.
pub proof fn lemma_confusion_runs_its_course(previous: Box<Ai>, num_turns: i32)
    requires
        0 <= num_turns,
    ensures
        stumbles_in(
            Ai::Confused { previous_ai: Some(previous), num_turns },
            (num_turns + 1) as nat,
        ) == num_turns,
        releases_in(Ai::Confused { previous_ai: Some(previous), num_turns }, (num_turns + 1) as nat)
            == 1,
        after_turns(Ai::Confused { previous_ai: Some(previous), num_turns }, (num_turns + 1) as nat)
            == *previous,
{
    lemma_confusion_counts_down(previous, num_turns, num_turns as nat);
}

} // verus!
