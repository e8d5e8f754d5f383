//! Starting a game and moving from one level to the next.

use vstd::prelude::*;
use crate::color::Color;
use crate::config::{INVENTORY_CAPACITY, PLAYER};
use crate::connect::all_connected_to;
use crate::dungeon::TileMap;
use crate::dungeon::{half, Rect};
use crate::equipment::{equip, first_worn};
use crate::game::{fits_i32, full_stat, Game, GameState, GameView, Stat};
use crate::generate::{center_of, generated, lemma_center_inside, level_ok, make_map};
use crate::log::MessageLog;
use crate::object::{
    DeathCallback,
    Equipment,
    EquipmentView,
    Fighter,
    Item,
    Object,
    ObjectView,
    views,
};
use crate::spawn::{ItemType, MonsterType, Spawn};
use crate::spells::healed;
use crate::text::equipped_text;
use crate::world::{is_hero, World, world_of};

verus! {

/// The player as a new game begins, before a place on the map is found.
pub open spec fn new_player() -> ObjectView {
    ObjectView {
        level: 1,
        fighter: Some(
            Fighter {
                hp: 100,
                base_max_hp: 100,
                base_defense: 1,
                base_power: 2,
                xp: 0,
                death: Some(DeathCallback::Player),
            },
        ),
        ..ObjectView::bare(0, 0, '@', "player"@, Color::White, true)
    }
}

/// The dagger that the player sets out with, worn or not.
pub open spec fn dagger(worn: bool) -> ObjectView {
    ObjectView {
        item: Some(Item::Inert),
        equipment: Some(
            EquipmentView {
                slot: "right hand"@,
                is_equipped: worn,
                power_bonus: 2,
                defense_bonus: 0,
                max_hp_bonus: 0,
            },
        ),
        ..ObjectView::bare(0, 0, '-', "dagger"@, Color::Sky, false)
    }
}

/// Nothing that a level is stocked with goes by the player's name.
pub proof fn lemma_spawn_not_player(spawn: Spawn)
    ensures
        !spawn.object().is_player(),
{
    reveal_strlit("player");
    reveal_strlit("orc");
    reveal_strlit("troll");
    reveal_strlit("healing potion");
    reveal_strlit("scroll of lightning bolt");
    reveal_strlit("scroll of fireball");
    reveal_strlit("scroll of confusion");
    reveal_strlit("sword");
    reveal_strlit("shield");
    match spawn {
        Spawn::Monster { kind, x, y } => {
            match kind {
                MonsterType::Orc => {
                    assert("orc"@.len() != "player"@.len());
                },
                MonsterType::Troll => {
                    assert("troll"@.len() != "player"@.len());
                },
            }
        },
        Spawn::Item { kind, x, y } => {
            match kind {
                ItemType::Heal => {
                    assert("healing potion"@.len() != "player"@.len());
                },
                ItemType::Lightning => {
                    assert("scroll of lightning bolt"@.len() != "player"@.len());
                },
                ItemType::Fireball => {
                    assert("scroll of fireball"@.len() != "player"@.len());
                },
                ItemType::Confuse => {
                    assert("scroll of confusion"@.len() != "player"@.len());
                },
                ItemType::Sword => {
                    assert("sword"@.len() != "player"@.len());
                },
                ItemType::Shield => {
                    assert("shield"@[0] != "player"@[0]);
                },
            }
        },
    }
}

/// A finished level is a level in play: the player comes first and
/// stands on a walkable tile, as does everything else, and nothing else
/// goes by the player's name.
pub proof fn lemma_level_in_play(
    player_before: ObjectView,
    objects: Seq<ObjectView>,
    g: GameView,
    level: int,
)
    requires
        generated(player_before, objects, g.map, level),
        is_hero(player_before),
        g.inventory.len() <= INVENTORY_CAPACITY,
        forall|i: int| 0 <= i < g.inventory.len() ==> !(#[trigger] g.inventory[i]).is_player(),
    ensures
        (World { objects, game: g }).ok(),
        g.map.is_floor(objects[0].x as int, objects[0].y as int),
        all_connected_to(g.map, (objects[0].x as int, objects[0].y as int)),
{
    let rooms = choose|rooms: Seq<Rect>| level_ok(player_before, objects, g.map, rooms, level);
    let dug = objects.drop_last();
    lemma_center_inside(rooms[0]);
    lemma_center_inside(rooms.last());
    assert(rooms.last() == rooms[rooms.len() - 1]);
    assert(objects[0] == dug[0]);
    assert(g.map.is_floor(center_of(rooms[0]).0, center_of(rooms[0]).1));
    assert(g.map.is_floor(center_of(rooms.last()).0, center_of(rooms.last()).1));
    reveal_strlit("player");
    reveal_strlit("stairs");
    assert("stairs"@[0] != "player"@[0]);
    assert forall|i: int| 0 < i < objects.len() implies !(#[trigger] objects[i]).is_player() by {
        if i < objects.len() - 1 {
            assert(objects[i] == dug[i]);
            let spawn = choose|spawn: Spawn| #[trigger] spawn.likely(level) && dug[i] == spawn.object();
            lemma_spawn_not_player(spawn);
        }
    }
    assert forall|i: int| 0 <= i < objects.len() implies g.map.is_floor(
        (#[trigger] objects[i]).x as int,
        objects[i].y as int,
    ) by {
        if 0 < i < objects.len() - 1 {
            assert(objects[i] == dug[i]);
            let r = choose|r: int|
                0 <= r < rooms.len() && (#[trigger] rooms[r]).interior(dug[i].x as int, dug[i].y as int);
            assert(g.map.is_floor(dug[i].x as int, dug[i].y as int));
        }
    }
}

impl Game {
    /// Begins a game: the player, a first level around the player, a
    /// word of welcome, and a dagger in hand.
    pub fn new() -> (made: (Game, Vec<Object>))
        ensures
            generated(new_player(), views(made.1@), made.0.map, 1),
            made.0@ == (GameView {
                state: GameState::Playing,
                dungeon_level: 1,
                map: made.0.map,
                fov_recompute: true,
                log: seq![
                    (
                        "Welcome stranger! Prepare to perish in the Tombs of the Ancient Kings."@,
                        Color::Red,
                    ),
                    (equipped_text("dagger"@, "right hand"@), Color::LightGreen),
                ],
                inventory: seq![dagger(true)],
            }),
            world_of(made.1@, made.0).in_limits(),
    {
        let mut player = Object::new(0, 0, '@', "player", Color::White, true);
        player.fighter = Some(
            Fighter {
                hp: 100,
                base_max_hp: 100,
                base_defense: 1,
                base_power: 2,
                xp: 0,
                death: Some(DeathCallback::Player),
            },
        );
        player.level = 1;
        let mut objects: Vec<Object> = Vec::new();
        objects.push(player);
        let dungeon_level: i32 = 1;
        let map = make_map(&mut objects, dungeon_level);
        let mut game = Game {
            state: GameState::Playing,
            dungeon_level: dungeon_level,
            map: map,
            fov_recompute: false,
            log: MessageLog::new(),
            inventory: Vec::new(),
        };
        game.initialize_fov();
        game.log.add(
            String::from_str("Welcome stranger! Prepare to perish in the Tombs of the Ancient Kings."),
            Color::Red,
        );
        let mut dagger_object = Object::new(0, 0, '-', "dagger", Color::Sky, false);
        let equipment_component = Equipment {
            slot: String::from_str("right hand"),
            is_equipped: false,
            power_bonus: 2,
            defense_bonus: 0,
            max_hp_bonus: 0,
        };
        dagger_object.equipment = Some(equipment_component);
        dagger_object.item = Some(Item::Inert);
        let dagger_id = game.inventory.len();
        let ghost dagger_view = dagger_object@;
        assert(dagger_view == dagger(false));
        assert(views(game.inventory@).len() == game.inventory@.len());
        game.inventory.push(dagger_object);
        let ghost before = game@;
        proof {
            assert(game.inventory@.len() == 1);
            assert(before.inventory.len() == 1);
            assert(before.inventory[0] == dagger_view);
            assert(before.inventory =~= seq![dagger(false)]);
            assert(before.log =~= seq![
                ("Welcome stranger! Prepare to perish in the Tombs of the Ancient Kings."@, Color::Red),
            ]);
            assert(first_worn(before.inventory, "right hand"@, 0) is None) by {
                assert(first_worn(before.inventory, "right hand"@, 1) is None);
            }
        }
        equip(dagger_id, &mut game);
        proof {
            assert(game@.inventory =~= seq![dagger(true)]);
            assert(game@.log =~= seq![
                ("Welcome stranger! Prepare to perish in the Tombs of the Ancient Kings."@, Color::Red),
                (equipped_text("dagger"@, "right hand"@), Color::LightGreen),
            ]);
            reveal_strlit("player");
            reveal_strlit("dagger");
            assert("dagger"@[0] != "player"@[0]);
            crate::limits::lemma_new_level_in_limits(new_player(), views(objects@), game@, 1);
        }
        (game, objects)
    }

    /// Asks for the field of view to be computed afresh.
    pub fn initialize_fov(&mut self)
        ensures
            final(self)@ == (GameView { fov_recompute: true, ..old(self)@ }),
    {
        self.fov_recompute = true;
    }
}

/// The player after a rest: healed by half of the effective maximum of
/// hit points.
pub open spec fn rested(player: ObjectView, inventory: Seq<ObjectView>) -> ObjectView {
    match player.fighter {
        Some(f) => ObjectView {
            fighter: Some(healed(f, half(full_stat(player, inventory, Stat::MaxHp)))),
            ..player
        },
        None => player,
    }
}

/// Whether the player can go down to the next level within the range of
/// `i32`.
pub open spec fn descent_fits(w: World) -> bool {
    &&& w.objects.len() > 0
    &&& w.game.dungeon_level < i32::MAX
    &&& fits_i32(full_stat(w.objects[PLAYER as int], w.game.inventory, Stat::MaxHp))
    &&& match w.objects[PLAYER as int].fighter {
        Some(f) => fits_i32(f.hp + half(full_stat(w.objects[PLAYER as int], w.game.inventory, Stat::MaxHp))),
        None => true,
    }
}

/// The session after the descent to the level whose map is `map`.
pub open spec fn after_descent(g: GameView, map: TileMap) -> GameView {
    GameView {
        dungeon_level: (g.dungeon_level + 1) as i32,
        map,
        fov_recompute: true,
        ..g.logged("You take a moment to rest, and recover your strength."@, Color::LightViolet).logged(
            "After a rare moment of peace, you descend deeper into the heart of the dungeon..."@,
            Color::Red,
        )
    }
}

impl Game {
    /// Advances to the next level: the player rests, and a new level is
    /// generated around the player, one deeper than the last. Whatever
    /// else the old level held is gone.
    pub fn next_level(&mut self, objects: &mut Vec<Object>)
        requires
            descent_fits(world_of(old(objects)@, *old(self))),
        ensures
            generated(
                rested(views(old(objects)@)[PLAYER as int], old(self)@.inventory),
                views(final(objects)@),
                final(self).map,
                old(self).dungeon_level + 1,
            ),
            final(self)@ == after_descent(old(self)@, final(self).map),
            world_of(old(objects)@, *old(self)).ok() ==> world_of(final(objects)@, *final(self)).ok(),
    {
        assert(views(objects@).len() == objects@.len());
        self.log.add(
            String::from_str("You take a moment to rest, and recover your strength."),
            Color::LightViolet,
        );
        let max_hp = objects[PLAYER].full_max_hp(self);
        match &mut objects[PLAYER].fighter {
            Some(f) => {
                let heal_hp = max_hp / 2;
                f.heal(heal_hp);
            },
            None => {},
        }
        let ghost player = views(objects@)[PLAYER as int];
        assert(player == rested(views(old(objects)@)[PLAYER as int], old(self)@.inventory));
        self.log.add(
            String::from_str(
                "After a rare moment of peace, you descend deeper into the heart of the dungeon...",
            ),
            Color::Red,
        );
        self.dungeon_level = self.dungeon_level + 1;
        self.map = make_map(objects, self.dungeon_level);
        self.initialize_fov();
        proof {
            if world_of(old(objects)@, *old(self)).ok() {
                lemma_level_in_play(player, views(objects@), self@, old(self).dungeon_level + 1);
            }
        }
    }
}

} // verus!
