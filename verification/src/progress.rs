//! Experience and levels.

use vstd::prelude::*;
use crate::color::Color;
use crate::config::{LEVEL_UP_BASE, LEVEL_UP_FACTOR, PLAYER};
use crate::game::{fits_i32, Game, GameView};
use crate::object::{Fighter, Object, ObjectView, views};
use crate::text::{level_reached_message, level_reached_text};
use crate::world::{World, world_of};

verus! {

/// The experience that takes the player from `level` to the next.
pub open spec fn level_up_xp(level: int) -> int {
    LEVEL_UP_BASE + level * LEVEL_UP_FACTOR
}

/// The level and the experience left once every level that the
/// experience pays for has been taken, one after the other: a level is
/// taken for as long as the experience is at or above what the next
/// level takes, and what it takes is spent.
pub open spec fn settled(level: int, xp: int) -> (int, int)
    decreases
            (if level < -1 {
                -1 - level
            } else {
                0
            }),
            xp,
{
    if xp >= level_up_xp(level) {
        settled(level + 1, xp - level_up_xp(level))
    } else {
        (level, xp)
    }
}

/// Whether the levels can be taken within the range of `i32`: at each
/// level on the way, what the level takes, the level that follows and
/// the experience left are in range.
pub open spec fn settle_fits(level: int, xp: int) -> bool
    decreases
            (if level < -1 {
                -1 - level
            } else {
                0
            }),
            xp,
{
    &&& fits_i32(level * LEVEL_UP_FACTOR)
    &&& fits_i32(level_up_xp(level))
    &&& xp >= level_up_xp(level) ==> {
        &&& fits_i32(level + 1)
        &&& fits_i32(xp - level_up_xp(level))
        &&& settle_fits(level + 1, xp - level_up_xp(level))
    }
}

/// The session after the levels above `from`, up to `to`, are announced
/// in order, one message for each.
pub open spec fn levels_logged(g: GameView, from: int, to: int) -> GameView
    decreases to - from,
{
    if to <= from {
        g
    } else {
        levels_logged(g, from, to - 1).logged(level_reached_text(to), Color::Yellow)
    }
}

/// The player once every level that the experience pays for is taken:
/// the experience that the levels took is spent, what is over is kept.
pub open spec fn leveled_up(player: ObjectView) -> ObjectView {
    match player.fighter {
        Some(f) => ObjectView {
            level: settled(player.level as int, f.xp as int).0 as i32,
            fighter: Some(Fighter { xp: settled(player.level as int, f.xp as int).1 as i32, ..f }),
            ..player
        },
        None => player,
    }
}

/// The number of levels that the player's experience pays for, each of
/// which owes the player a choice of what to improve.
pub open spec fn levels_owed(player: ObjectView) -> int {
    match player.fighter {
        Some(f) => settled(player.level as int, f.xp as int).0 - player.level,
        None => 0,
    }
}

/// The world after the check for a level-up: the player has taken every
/// level that the experience pays for, and each is announced.
pub open spec fn after_level_check(w: World) -> World {
    let player = w.objects[PLAYER as int];
    World {
        objects: w.objects.update(PLAYER as int, leveled_up(player)),
        game: levels_logged(w.game, player.level as int, player.level + levels_owed(player)),
    }
}

/// Whether the check for a level-up can be made: the player is a
/// fighter, and the numbers stay within the range of `i32`.
pub open spec fn level_check_fits(w: World) -> bool {
    &&& w.objects.len() > 0
    &&& w.objects[PLAYER as int].fighter is Some
    &&& settle_fits(
        w.objects[PLAYER as int].level as int,
        w.objects[PLAYER as int].fighter.unwrap().xp as int,
    )
}

/// Sees whether the player's experience is enough for the next level,
/// and takes levels for as long as it is: each level spends what it
/// takes and is announced. Returns the number of levels taken, for each
/// of which the player is owed a choice of what to improve.
pub fn check_level_up(objects: &mut Vec<Object>, game: &mut Game) -> (owed: u32)
    requires
        level_check_fits(world_of(old(objects)@, *old(game))),
    ensures
        world_of(final(objects)@, *final(game)) == after_level_check(world_of(old(objects)@, *old(game))),
        owed == levels_owed(views(old(objects)@)[PLAYER as int]),
{
    assert(views(objects@).len() == objects@.len());
    let ghost player = views(objects@)[PLAYER as int];
    let first_level = objects[PLAYER].level;
    let mut level = first_level;
    let mut xp = match &objects[PLAYER].fighter {
        Some(f) => f.xp,
        None => 0,
    };
    let ghost first_xp = xp;
    let mut owed: u32 = 0;
    while xp >= LEVEL_UP_BASE + level * LEVEL_UP_FACTOR
        invariant
            settle_fits(level as int, xp as int),
            settled(level as int, xp as int) == settled(first_level as int, first_xp as int),
            first_level <= level,
            owed == level - first_level,
            game@ == levels_logged(old(game)@, first_level as int, level as int),
        decreases
                (if level < -1 {
                    -1 - level
                } else {
                    0
                }),
                xp,
    {
        xp = xp - (LEVEL_UP_BASE + level * LEVEL_UP_FACTOR);
        level = level + 1;
        owed = owed + 1;
        game.log.add(level_reached_message(level), Color::Yellow);
    }
    objects[PLAYER].level = level;
    match &mut objects[PLAYER].fighter {
        Some(f) => {
            f.xp = xp;
        },
        None => {},
    }
    assert(views(objects@) =~= views(old(objects)@).update(PLAYER as int, leveled_up(player)));
    owed
}

/// What the player may improve on reaching a level.
#[derive(Clone, Copy, Debug, PartialEq, Eq, Structural)]
pub enum LevelUpChoice {
    /// Twenty more hit points, at once and at most.
    Constitution,
    /// One more point of power.
    Strength,
    /// One more point of defense.
    Agility,
}

/// The choice that an answer to the level-up menu stands for; none for
/// an answer that is no choice, after which the player is asked again.
pub open spec fn choice_at(answer: Option<usize>) -> Option<LevelUpChoice> {
    match answer {
        Some(i) => if i == 0 {
            Some(LevelUpChoice::Constitution)
        } else if i == 1 {
            Some(LevelUpChoice::Strength)
        } else if i == 2 {
            Some(LevelUpChoice::Agility)
        } else {
            None
        },
        None => None,
    }
}

/// The choice that an answer to the level-up menu stands for.
pub fn level_up_choice(answer: Option<usize>) -> (choice: Option<LevelUpChoice>)
    ensures
        choice == choice_at(answer),
{
    match answer {
        Some(0) => Some(LevelUpChoice::Constitution),
        Some(1) => Some(LevelUpChoice::Strength),
        Some(2) => Some(LevelUpChoice::Agility),
        _ => None,
    }
}

/// `fighter` improved as chosen. More constitution heals by as much as
/// it adds.
pub open spec fn improved(fighter: Fighter, choice: LevelUpChoice) -> Fighter {
    match choice {
        LevelUpChoice::Constitution => Fighter {
            base_max_hp: (fighter.base_max_hp + 20) as i32,
            hp: (fighter.hp + 20) as i32,
            ..fighter
        },
        LevelUpChoice::Strength => Fighter { base_power: (fighter.base_power + 1) as i32, ..fighter },
        LevelUpChoice::Agility => Fighter { base_defense: (fighter.base_defense + 1) as i32, ..fighter },
    }
}

/// Whether `fighter` can be improved as chosen within the range of `i32`.
pub open spec fn improvement_fits(fighter: Fighter, choice: LevelUpChoice) -> bool {
    match choice {
        LevelUpChoice::Constitution => fits_i32(fighter.base_max_hp + 20) && fits_i32(fighter.hp + 20),
        LevelUpChoice::Strength => fits_i32(fighter.base_power + 1),
        LevelUpChoice::Agility => fits_i32(fighter.base_defense + 1),
    }
}

/// Improves the player as chosen on reaching a level.
pub fn apply_level_up(choice: LevelUpChoice, objects: &mut Vec<Object>)
    requires
        old(objects)@.len() > 0,
        old(objects)@[PLAYER as int].fighter is Some,
        improvement_fits(old(objects)@[PLAYER as int].fighter.unwrap(), choice),
    ensures
        views(final(objects)@) == views(old(objects)@).update(
            PLAYER as int,
            ObjectView {
                fighter: Some(improved(old(objects)@[PLAYER as int].fighter.unwrap(), choice)),
                ..views(old(objects)@)[PLAYER as int]
            },
        ),
{
    match &mut objects[PLAYER].fighter {
        Some(fighter) => {
            match choice {
                LevelUpChoice::Constitution => {
                    fighter.base_max_hp = fighter.base_max_hp + 20;
                    fighter.hp = fighter.hp + 20;
                },
                LevelUpChoice::Strength => {
                    fighter.base_power = fighter.base_power + 1;
                },
                LevelUpChoice::Agility => {
                    fighter.base_defense = fighter.base_defense + 1;
                },
            }
        },
        None => {},
    }
    assert(views(objects@) =~= views(old(objects)@).update(
        PLAYER as int,
        ObjectView {
            fighter: Some(improved(old(objects)@[PLAYER as int].fighter.unwrap(), choice)),
            ..views(old(objects)@)[PLAYER as int]
        },
    ));
}

/// The experience that the levels from `from` up to, not including,
/// `to` take together.
pub open spec fn xp_between(from: int, to: int) -> int
    decreases to - from,
{
    if to <= from {
        0
    } else {
        xp_between(from, to - 1) + level_up_xp(to - 1)
    }
}

proof fn lemma_xp_between_first(from: int, to: int)
    requires
        from < to,
    ensures
        xp_between(from, to) == level_up_xp(from) + xp_between(from + 1, to),
    decreases to - from,
{
    if from + 1 < to {
        lemma_xp_between_first(from, to - 1);
    } else {
        assert(xp_between(from, from) == 0);
        assert(xp_between(from + 1, from + 1) == 0);
    }
}

/// Taking levels one after the other, for as long as the experience
/// pays for the next, ends at the highest level that the experience pays
/// for: the levels taken cost exactly what was spent, what is left does
/// not pay for another, and every level on the way was paid for.
pub proof fn lemma_settled_is_highest(level: int, xp: int)
    requires
        level >= 0,
    ensures
        settled(level, xp).0 >= level,
        xp == xp_between(level, settled(level, xp).0) + settled(level, xp).1,
        settled(level, xp).1 < level_up_xp(settled(level, xp).0),
        forall|reached: int|
            level < reached <= settled(level, xp).0 ==> xp_between(level, reached) <= xp,
        forall|higher: int| higher > settled(level, xp).0 ==> xp_between(level, higher) > xp,
    decreases xp,
{
    if xp >= level_up_xp(level) {
        let rest = xp - level_up_xp(level);
        lemma_settled_is_highest(level + 1, rest);
        let top = settled(level, xp).0;
        assert(top == settled(level + 1, rest).0);
        lemma_xp_between_first(level, top);
        assert forall|reached: int| level < reached <= top implies xp_between(level, reached) <= xp by {
            lemma_xp_between_first(level, reached);
            if reached > level + 1 {
                assert(xp_between(level + 1, reached) <= rest);
            } else {
                assert(xp_between(level + 1, level + 1) == 0);
            }
        }
        assert forall|higher: int| higher > top implies xp_between(level, higher) > xp by {
            lemma_xp_between_first(level, higher);
            assert(xp_between(level + 1, higher) > rest);
        }
    } else {
        assert(xp_between(level, level) == 0);
        assert forall|higher: int| higher > level implies xp_between(level, higher) > xp by {
            lemma_xp_between_first(level, higher);
            lemma_xp_between_nonnegative(level + 1, higher);
        }
    }
}

proof fn lemma_xp_between_nonnegative(from: int, to: int)
    requires
        from >= 0,
    ensures
        xp_between(from, to) >= 0,
    decreases to - from,
{
    if to > from {
        lemma_xp_between_nonnegative(from, to - 1);
        assert(level_up_xp(to - 1) >= 0) by (nonlinear_arith)
            requires
                to - 1 >= 0,
        ;
    }
}

/// Taking levels one after the other ends where the experience left
/// does not pay for another level, at a level no lower than the first.
pub proof fn lemma_settled_stops(level: int, xp: int)
    ensures
        settled(level, xp).0 >= level,
        settled(level, xp).1 < level_up_xp(settled(level, xp).0),
    decreases
            (if level < -1 {
                -1 - level
            } else {
                0
            }),
            xp,
{
    if xp >= level_up_xp(level) {
        lemma_settled_stops(level + 1, xp - level_up_xp(level));
    }
}

/// Announcing levels changes nothing of the session but the log.
pub proof fn lemma_levels_logged_keeps(g: GameView, from: int, to: int)
    ensures
        levels_logged(g, from, to) == (GameView { log: levels_logged(g, from, to).log, ..g }),
    decreases to - from,
{
    if to > from {
        lemma_levels_logged_keeps(g, from, to - 1);
    }
}

} // verus!
