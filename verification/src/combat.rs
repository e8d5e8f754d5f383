//! Attacks, damage and death.

use vstd::prelude::*;
use crate::color::Color;
use crate::game::{fits_i32, full_stat, Game, GameState, GameView, Stat};
use crate::object::{DeathCallback, Fighter, Object, ObjectView};
use crate::text::{
    hit_message,
    hit_text,
    monster_dead_message,
    monster_dead_text,
    no_effect_message,
    no_effect_text,
    remains_message,
    remains_text,
};

verus! {

/// The hit points left after `damage` is taken: only damage above zero
/// counts, and nothing stops the hit points from going below zero.
pub open spec fn hp_after(f: Fighter, damage: int) -> int {
    if damage > 0 {
        f.hp - damage
    } else {
        f.hp as int
    }
}

/// Whether a death of this kind has run already: the player's has, once
/// the game is over. A monster's death leaves no fighter behind, so that
/// there is none to run again.
pub open spec fn death_done(death: Option<DeathCallback>, state: GameState) -> bool {
    death == Some(DeathCallback::Player) && state == GameState::Death
}

/// The death that `damage` brings about while the session is in `state`:
/// the fighter's own, once its hit points are at or below zero, unless
/// it has run already.
pub open spec fn death_of(object: ObjectView, damage: int, state: GameState) -> Option<DeathCallback> {
    match object.fighter {
        Some(f) => if hp_after(f, damage) <= 0 && !death_done(f.death, state) {
            f.death
        } else {
            None
        },
        None => None,
    }
}

/// `object` with its hit points lowered by `damage`.
pub open spec fn wounded(object: ObjectView, damage: int) -> ObjectView {
    match object.fighter {
        Some(f) => ObjectView {
            fighter: Some(Fighter { hp: hp_after(f, damage) as i32, ..f }),
            ..object
        },
        None => object,
    }
}

/// What is left of the player: a corpse that keeps its combat record.
pub open spec fn player_corpse(object: ObjectView) -> ObjectView {
    ObjectView { glyph: '%', color: Color::DarkRed, ..object }
}

/// What is left of a monster: remains that do not block, fight or act.
pub open spec fn monster_corpse(object: ObjectView) -> ObjectView {
    ObjectView {
        glyph: '%',
        color: Color::DarkRed,
        blocks: false,
        fighter: None,
        ai: None,
        name: remains_text(object.name),
        ..object
    }
}

/// The session after the player has died.
pub open spec fn after_player_death(g: GameView) -> GameView {
    GameView { state: GameState::Death, ..g.logged("You died!"@, Color::Red) }
}

/// The session after a monster has died.
pub open spec fn after_monster_death(g: GameView, monster: ObjectView) -> GameView {
    g.logged(monster_dead_text(monster.name, monster.fighter.unwrap().xp as int), Color::Orange)
}

/// `object` after it is dealt `damage` while the session is in `state`,
/// its death included.
pub open spec fn after_damage(object: ObjectView, damage: int, state: GameState) -> ObjectView {
    match death_of(object, damage, state) {
        Some(DeathCallback::Monster) => monster_corpse(wounded(object, damage)),
        Some(DeathCallback::Player) => player_corpse(wounded(object, damage)),
        None => wounded(object, damage),
    }
}

/// The session after `object` is dealt `damage`.
pub open spec fn game_after_damage(g: GameView, object: ObjectView, damage: int) -> GameView {
    match death_of(object, damage, g.state) {
        Some(DeathCallback::Monster) => after_monster_death(g, object),
        Some(DeathCallback::Player) => after_player_death(g),
        None => g,
    }
}

/// The experience that dealing `damage` to `object` yields while the
/// session is in `state`: its own, if it dies.
pub open spec fn xp_from(object: ObjectView, damage: int, state: GameState) -> Option<i32> {
    match death_of(object, damage, state) {
        Some(_) => Some(object.fighter.unwrap().xp),
        None => None,
    }
}

/// Whether `object` can be dealt `damage` within the range of `i32`
/// while the session is in `state`: the hit points left are in range,
/// unless the object dies a monster's death, which leaves no hit points
/// behind.
pub open spec fn damage_fits(object: ObjectView, damage: int, state: GameState) -> bool {
    match object.fighter {
        Some(f) => death_of(object, damage, state) == Some(DeathCallback::Monster) || fits_i32(
            hp_after(f, damage),
        ),
        None => true,
    }
}

/// The damage of an attack: the attacker's effective power less the
/// target's effective defense.
pub open spec fn attack_damage(attacker: ObjectView, target: ObjectView, inventory: Seq<ObjectView>) -> int {
    full_stat(attacker, inventory, Stat::Power) - full_stat(target, inventory, Stat::Defense)
}

/// The experience that the attacker takes from an attack: the target's,
/// if the blow kills and the attacker is the player.
pub open spec fn attack_award(attacker: ObjectView, target: ObjectView, damage: int, state: GameState) -> Option<
    i32,
> {
    if damage > 0 && attacker.is_player() {
        xp_from(target, damage, state)
    } else {
        None
    }
}

/// `object` with `xp` more experience.
pub open spec fn with_xp_gain(object: ObjectView, xp: int) -> ObjectView {
    match object.fighter {
        Some(f) => ObjectView { fighter: Some(Fighter { xp: (f.xp + xp) as i32, ..f }), ..object },
        None => object,
    }
}

/// Whether `object` can gain `xp` experience: it is a fighter and the sum
/// is within the range of `i32`.
pub open spec fn xp_gain_fits(object: ObjectView, xp: int) -> bool {
    match object.fighter {
        Some(f) => fits_i32(f.xp + xp),
        None => false,
    }
}

/// Whether the attack can be carried out within the range of `i32`. An
/// attack that does no harm always can; one that harms can where the
/// damage, the hit points left and the experience gained are in range.
pub open spec fn attack_fits(attacker: ObjectView, target: ObjectView, g: GameView) -> bool {
    let damage = attack_damage(attacker, target, g.inventory);
    &&& damage > 0 ==> fits_i32(damage) && damage_fits(target, damage, g.state)
    &&& match attack_award(attacker, target, damage, g.state) {
        Some(xp) => xp_gain_fits(attacker, xp as int),
        None => true,
    }
}

/// The attacker after the attack.
pub open spec fn attacker_after(attacker: ObjectView, target: ObjectView, g: GameView) -> ObjectView {
    match attack_award(attacker, target, attack_damage(attacker, target, g.inventory), g.state) {
        Some(xp) => with_xp_gain(attacker, xp as int),
        None => attacker,
    }
}

/// The target after the attack: harmed only by damage above zero.
pub open spec fn target_after(attacker: ObjectView, target: ObjectView, g: GameView) -> ObjectView {
    let damage = attack_damage(attacker, target, g.inventory);
    if damage > 0 {
        after_damage(target, damage, g.state)
    } else {
        target
    }
}

/// The session after the attack.
pub open spec fn game_after_attack(g: GameView, attacker: ObjectView, target: ObjectView) -> GameView {
    let damage = attack_damage(attacker, target, g.inventory);
    if damage > 0 {
        game_after_damage(
            g.logged(hit_text(attacker.name, target.name, damage), Color::White),
            target,
            damage,
        )
    } else {
        g.logged(no_effect_text(attacker.name, target.name), Color::White)
    }
}

impl Fighter {
    /// Heals by the given amount, without going over the maximum.
    pub fn heal(&mut self, amount: i32)
        requires
            fits_i32(old(self).hp + amount),
        ensures
            *final(self) == (Fighter {
                hp: if old(self).hp + amount > old(self).base_max_hp {
                    old(self).base_max_hp
                } else {
                    (old(self).hp + amount) as i32
                },
                ..*old(self)
            }),
    {
        self.hp = self.hp + amount;
        if self.hp > self.base_max_hp {
            self.hp = self.base_max_hp;
        }
    }
}

/// Ends the game: the player turns into a corpse, and keeps its combat
/// record.
pub fn player_death(player: &mut Object, game: &mut Game)
    ensures
        final(player)@ == player_corpse(old(player)@),
        final(game)@ == after_player_death(old(game)@),
{
    game.log.add(String::from_str("You died!"), Color::Red);
    game.state = GameState::Death;
    player.glyph = '%';
    player.color = Color::DarkRed;
}

/// Turns a monster into remains that do not block, cannot be attacked
/// and do not move.
pub fn monster_death(monster: &mut Object, game: &mut Game)
    requires
        old(monster).fighter is Some,
    ensures
        final(monster)@ == monster_corpse(old(monster)@),
        final(game)@ == after_monster_death(old(game)@, old(monster)@),
{
    let xp = match &monster.fighter {
        Some(f) => f.xp,
        None => 0,
    };
    game.log.add(monster_dead_message(monster.name.as_str(), xp), Color::Orange);
    monster.glyph = '%';
    monster.color = Color::DarkRed;
    monster.blocks = false;
    monster.fighter = None;
    monster.ai = None;
    monster.name = remains_message(monster.name.as_str());
}

impl DeathCallback {
    /// Carries out the death of `object`.
    pub fn callback(&self, object: &mut Object, game: &mut Game)
        requires
            *self == DeathCallback::Monster ==> old(object).fighter is Some,
        ensures
            final(object)@ == match *self {
                DeathCallback::Monster => monster_corpse(old(object)@),
                DeathCallback::Player => player_corpse(old(object)@),
            },
            final(game)@ == match *self {
                DeathCallback::Monster => after_monster_death(old(game)@, old(object)@),
                DeathCallback::Player => after_player_death(old(game)@),
            },
    {
        match self {
            DeathCallback::Monster => monster_death(object, game),
            DeathCallback::Player => player_death(object, game),
        }
    }
}

impl Object {
    /// Deals `damage` to the object, if it is a fighter. Damage of zero or
    /// less takes no hit points, yet a fighter whose hit points are at or
    /// below zero dies all the same, unless its death has run already.
    /// Returns the experience that the death is worth.
    pub fn take_damage(&mut self, damage: i32, game: &mut Game) -> (xp: Option<i32>)
        requires
            damage_fits(old(self)@, damage as int, old(game).state),
        ensures
            final(self)@ == after_damage(old(self)@, damage as int, old(game).state),
            final(game)@ == game_after_damage(old(game)@, old(self)@, damage as int),
            xp == xp_from(old(self)@, damage as int, old(game).state),
    {
        let over = game.state == GameState::Death;
        let death = match &mut self.fighter {
            Some(fighter) => {
                let left: i64 = if damage > 0 {
                    fighter.hp as i64 - damage as i64
                } else {
                    fighter.hp as i64
                };
                let death = if left <= 0 {
                    match fighter.death {
                        Some(DeathCallback::Player) => if over {
                            None
                        } else {
                            Some((DeathCallback::Player, fighter.xp))
                        },
                        Some(DeathCallback::Monster) => Some((DeathCallback::Monster, fighter.xp)),
                        None => None,
                    }
                } else {
                    None
                };
                match death {
                    Some((DeathCallback::Monster, _)) => {},
                    _ => {
                        fighter.hp = left as i32;
                    },
                }
                death
            },
            None => None,
        };
        assert(death matches Some((DeathCallback::Monster, _)) ==> self@ == old(self)@);
        assert(!(death matches Some((DeathCallback::Monster, _))) ==> self@ == wounded(
            old(self)@,
            damage as int,
        ));
        match death {
            Some((d, xp)) => {
                d.callback(self, game);
                Some(xp)
            },
            None => None,
        }
    }

    /// Attacks `target`: the damage is this object's effective power less
    /// the target's effective defense, and only damage above zero harms.
    /// The player takes the experience of what it kills.
    pub fn attack(&mut self, target: &mut Object, game: &mut Game)
        requires
            attack_fits(old(self)@, old(target)@, old(game)@),
        ensures
            final(self)@ == attacker_after(old(self)@, old(target)@, old(game)@),
            final(target)@ == target_after(old(self)@, old(target)@, old(game)@),
            final(game)@ == game_after_attack(old(game)@, old(self)@, old(target)@),
    {
        let power = self.full_wide(game, Stat::Power);
        let defense = target.full_wide(game, Stat::Defense);
        if power - defense > 0 {
            let damage = (power - defense) as i32;
            game.log.add(hit_message(self.name.as_str(), target.name.as_str(), damage), Color::White);
            match target.take_damage(damage, game) {
                Some(xp) => {
                    if self.is_player() {
                        match &mut self.fighter {
                            Some(f) => {
                                f.xp = f.xp + xp;
                            },
                            None => {},
                        }
                    }
                },
                None => {},
            }
        } else {
            game.log.add(no_effect_message(self.name.as_str(), target.name.as_str()), Color::White);
        }
    }
}

/// An attack whose power does not exceed the target's defense leaves the
/// target, the attacker and the state of the session as they were, and
/// adds one message to the log, which says that the attack had no
/// effect.
pub proof fn lemma_weak_attack_harmless(attacker: ObjectView, target: ObjectView, g: GameView)
    requires
        full_stat(attacker, g.inventory, Stat::Power) <= full_stat(target, g.inventory, Stat::Defense),
    ensures
        attack_fits(attacker, target, g),
        target_after(attacker, target, g) == target,
        attacker_after(attacker, target, g) == attacker,
        game_after_attack(g, attacker, target) == g.logged(
            no_effect_text(attacker.name, target.name),
            Color::White,
        ),
{
}

/// The death of a fighter runs exactly when its death has not run before
/// and its hit points, less the damage that counts, are at or below
/// zero; the experience handed out is then the fighter's own. Where no
/// death runs, nothing changes but the hit points, and the session stays
/// as it was.
pub proof fn lemma_death_runs_iff(object: ObjectView, damage: int, g: GameView)
    requires
        object.fighter is Some,
    ensures
        xp_from(object, damage, g.state) is Some <==> object.fighter.unwrap().death is Some && !death_done(
            object.fighter.unwrap().death,
            g.state,
        ) && hp_after(object.fighter.unwrap(), damage) <= 0,
        xp_from(object, damage, g.state) is Some ==> xp_from(object, damage, g.state) == Some(
            object.fighter.unwrap().xp,
        ),
        xp_from(object, damage, g.state) is None ==> after_damage(object, damage, g.state) == wounded(
            object,
            damage,
        ) && game_after_damage(g, object, damage) == g,
{
}

/// A fighter with hit points left, and a fighter that dies a monster's
/// death, can be dealt any damage: the hit points left are in range, or
/// none are left behind.
pub proof fn lemma_damage_fits(object: ObjectView, damage: i32, state: GameState)
    requires
        object.fighter is Some,
        object.fighter.unwrap().hp > 0 || object.fighter.unwrap().death == Some(DeathCallback::Monster),
    ensures
        damage_fits(object, damage as int, state),
{
}

/// Damage above zero lowers a fighter's hit points by exactly that much,
/// with no lower bound but that of `i32`.
pub proof fn lemma_damage_is_exact(object: ObjectView, damage: int)
    requires
        damage > 0,
        object.fighter is Some,
        fits_i32(object.fighter.unwrap().hp - damage),
    ensures
        wounded(object, damage).fighter.unwrap().hp == object.fighter.unwrap().hp - damage,
{
}

/// A death runs once. What is left of a monster is no fighter, and once
/// the player has died the game is over: further damage runs no death,
/// yields no experience and leaves the session as it is. It changes
/// nothing of a dead monster, and nothing but the hit points of a dead
/// player.
pub proof fn lemma_death_runs_once(object: ObjectView, damage: int, later: int, g: GameView)
    requires
        death_of(object, damage, g.state) is Some,
    ensures
        xp_from(after_damage(object, damage, g.state), later, game_after_damage(g, object, damage).state)
            is None,
        game_after_damage(game_after_damage(g, object, damage), after_damage(object, damage, g.state), later)
            == game_after_damage(g, object, damage),
        after_damage(
            after_damage(object, damage, g.state),
            later,
            game_after_damage(g, object, damage).state,
        ) == wounded(after_damage(object, damage, g.state), later),
        death_of(object, damage, g.state) == Some(DeathCallback::Monster) ==> wounded(
            after_damage(object, damage, g.state),
            later,
        ) == after_damage(object, damage, g.state),
{
}

} // verus!
