use roguelike::color::Color;
use roguelike::config::{CONFUSE_NUM_TURNS, CONFUSE_RANGE, INVENTORY_CAPACITY};
use roguelike::dungeon::{create_room, Rect, TileMap};
use roguelike::fov::Visibility;
use roguelike::game::{Game, GameState};
use roguelike::inventory::{
    drop_item, pick_item_up, prompt_for_target, use_item, Target, Targeting,
};
use roguelike::log::MessageLog;
use roguelike::object::{Ai, DeathCallback, Fighter, Item, Object, UseResult};
use roguelike::spawn::{make_item, make_monster, ItemType, MonsterType};
use roguelike::spells::{
    cast_confuse, cast_fireball, cast_heal, cast_lightning, cast_nothing, closest_monster,
};
use roguelike::targeting::{
    monster_at, target_monster, target_tile, MonsterChoice, Pointer, TileChoice,
};

fn game() -> Game {
    let mut map = TileMap::new();
    create_room(Rect::new(0, 0, 30, 30), &mut map);
    Game {
        state: GameState::Playing,
        dungeon_level: 1,
        map,
        fov_recompute: false,
        log: MessageLog::new(),
        inventory: vec![],
    }
}

fn lit() -> Visibility {
    let mut fov = Visibility::new();
    for x in 0..31 {
        for y in 0..31 {
            fov.set(x, y, true);
        }
    }
    fov
}

fn player_at(x: i32, y: i32) -> Object {
    let mut player = Object::new(x, y, '@', "player", Color::White, true);
    player.fighter = Some(Fighter {
        hp: 100,
        base_max_hp: 100,
        base_defense: 1,
        base_power: 2,
        xp: 0,
        death: Some(DeathCallback::Player),
    });
    player.level = 1;
    player
}

fn texts(game: &Game) -> Vec<String> {
    game.log.messages().iter().map(|m| m.0.clone()).collect()
}

fn last(game: &Game) -> (String, Color) {
    game.log.messages().last().unwrap().clone()
}

#[test]
fn heal_at_full_health_is_cancelled() {
    let mut game = game();
    let mut objects = vec![player_at(5, 5)];
    assert_eq!(cast_heal(&mut objects, &mut game), UseResult::Cancelled);
    assert_eq!(objects[0], player_at(5, 5));
    assert_eq!(last(&game), ("You are already at full health.".to_string(), Color::Red));
}

#[test]
fn heal_raises_hp_by_the_fixed_amount() {
    let mut game = game();
    let mut objects = vec![player_at(5, 5)];
    objects[0].fighter.as_mut().unwrap().hp = 30;
    assert_eq!(cast_heal(&mut objects, &mut game), UseResult::Used);
    assert_eq!(objects[0].fighter.unwrap().hp, 70);
    assert_eq!(last(&game), ("Your wounds start to feel better!".to_string(), Color::LightViolet));
}

#[test]
fn potion_heals_up_to_the_maximum() {
    let mut game = game();
    let mut objects = vec![player_at(5, 5)];
    objects[0].fighter.as_mut().unwrap().hp = 90;
    assert_eq!(cast_heal(&mut objects, &mut game), UseResult::Used);
    assert_eq!(objects[0].fighter.unwrap().hp, 100);
}

#[test]
fn heal_without_a_fighter_is_cancelled_silently() {
    let mut game = game();
    let mut objects = vec![Object::new(5, 5, '@', "player", Color::White, true)];
    assert_eq!(cast_heal(&mut objects, &mut game), UseResult::Cancelled);
    assert_eq!(game.log.len(), 0);
}

#[test]
fn closest_monster_picks_the_nearest_in_view() {
    let fov = lit();
    let objects = vec![
        player_at(10, 10),
        make_monster(MonsterType::Orc, 14, 10),
        make_monster(MonsterType::Troll, 12, 11),
        make_item(ItemType::Heal, 10, 11),
        make_monster(MonsterType::Orc, 11, 12),
    ];
    assert_eq!(closest_monster(5, &objects, &fov), Some(2));
    assert_eq!(closest_monster(1, &objects, &fov), None);
    assert_eq!(closest_monster(2, &objects, &fov), None);
    assert_eq!(closest_monster(3, &objects, &fov), Some(2));
    assert_eq!(closest_monster(-1, &objects, &fov), None);
    assert_eq!(closest_monster(-7, &objects, &fov), None);
}

#[test]
fn closest_monster_reaches_no_further_than_the_range() {
    let fov = lit();
    let at_the_range = vec![player_at(10, 10), make_monster(MonsterType::Orc, 15, 10)];
    assert_eq!(closest_monster(5, &at_the_range, &fov), Some(1));
    let slanted = vec![player_at(10, 10), make_monster(MonsterType::Orc, 14, 13)];
    assert_eq!(closest_monster(5, &slanted, &fov), Some(1));
    let just_past = vec![player_at(10, 10), make_monster(MonsterType::Orc, 15, 12)];
    assert_eq!(closest_monster(5, &just_past, &fov), None);
    let a_tile_past = vec![player_at(10, 10), make_monster(MonsterType::Orc, 16, 10)];
    assert_eq!(closest_monster(5, &a_tile_past, &fov), None);
    let underfoot = vec![player_at(10, 10), make_monster(MonsterType::Orc, 10, 10)];
    assert_eq!(closest_monster(0, &underfoot, &fov), Some(1));
    assert_eq!(closest_monster(5, &vec![], &fov), None);
}

#[test]
fn lightning_does_not_reach_past_its_range() {
    let mut game = game();
    let fov = lit();
    let mut objects = vec![player_at(10, 10), make_monster(MonsterType::Orc, 15, 12)];
    assert_eq!(cast_lightning(&mut objects, &mut game, &fov), UseResult::Cancelled);
    assert_eq!(objects[1], make_monster(MonsterType::Orc, 15, 12));
}

#[test]
fn closest_monster_ignores_what_is_out_of_view() {
    let mut fov = Visibility::new();
    fov.set(14, 10, true);
    let objects = vec![
        player_at(10, 10),
        make_monster(MonsterType::Orc, 11, 10),
        make_monster(MonsterType::Orc, 14, 10),
    ];
    assert_eq!(closest_monster(5, &objects, &fov), Some(2));
}

#[test]
fn lightning_strikes_the_nearest_whatever_its_defense() {
    let mut game = game();
    let fov = lit();
    let mut troll = make_monster(MonsterType::Troll, 12, 10);
    troll.fighter.as_mut().unwrap().hp = 50;
    troll.fighter.as_mut().unwrap().base_defense = 1000;
    let mut objects = vec![player_at(10, 10), troll];
    assert_eq!(cast_lightning(&mut objects, &mut game, &fov), UseResult::Used);
    assert_eq!(objects[1].fighter.unwrap().hp, 10);
    assert_eq!(
        last(&game),
        (
            "A lightning bolt strikes the troll with a loud thunder! The damage is 40 hit points."
                .to_string(),
            Color::LightBlue
        )
    );
}

#[test]
fn lightning_kill_gives_the_player_the_experience() {
    let mut game = game();
    let fov = lit();
    let mut objects = vec![player_at(10, 10), make_monster(MonsterType::Orc, 12, 10)];
    assert_eq!(cast_lightning(&mut objects, &mut game, &fov), UseResult::Used);
    assert!(objects[1].fighter.is_none());
    assert_eq!(objects[1].name, "remains of orc");
    assert_eq!(objects[0].fighter.unwrap().xp, 35);
}

#[test]
fn lightning_without_a_target_is_cancelled() {
    let mut game = game();
    let fov = lit();
    let mut objects = vec![player_at(10, 10), make_monster(MonsterType::Orc, 20, 20)];
    assert_eq!(cast_lightning(&mut objects, &mut game, &fov), UseResult::Cancelled);
    assert_eq!(objects[1], make_monster(MonsterType::Orc, 20, 20));
    assert_eq!(last(&game), ("No enemy is close enough to strike.".to_string(), Color::Red));
}

#[test]
fn fireball_burns_fighters_within_the_radius_only() {
    let mut game = game();
    let mut at_centre = make_monster(MonsterType::Troll, 10, 10);
    at_centre.fighter.as_mut().unwrap().hp = 30;
    let mut objects = vec![
        player_at(20, 20),
        at_centre,
        make_monster(MonsterType::Troll, 13, 10),
        make_monster(MonsterType::Troll, 14, 10),
    ];
    assert_eq!(cast_fireball(10, 10, &mut objects, &mut game), UseResult::Used);
    assert_eq!(objects[1].fighter.unwrap().hp, 5);
    assert_eq!(objects[2].fighter.unwrap().hp, 5);
    assert_eq!(objects[3], make_monster(MonsterType::Troll, 14, 10));
    assert_eq!(objects[0], player_at(20, 20));
    assert_eq!(
        texts(&game),
        vec![
            "The fireball explodes, burning everything within 3 tiles!".to_string(),
            "The troll gets burned for 25 hit points.".to_string(),
            "The troll gets burned for 25 hit points.".to_string(),
        ]
    );
}

#[test]
fn fireball_radius_is_a_circle() {
    let mut game = game();
    let mut objects = vec![
        player_at(25, 25),
        make_monster(MonsterType::Troll, 12, 12),
        make_monster(MonsterType::Troll, 12, 13),
        make_monster(MonsterType::Troll, 10, 7),
    ];
    cast_fireball(10, 10, &mut objects, &mut game);
    assert_eq!(objects[1].fighter.unwrap().hp, 5);
    assert_eq!(objects[2].fighter.unwrap().hp, 30);
    assert_eq!(objects[3].fighter.unwrap().hp, 5);
}

#[test]
fn fireball_burns_the_player_too_and_awards_kills() {
    let mut game = game();
    let mut objects = vec![
        player_at(10, 11),
        make_monster(MonsterType::Orc, 10, 10),
        make_item(ItemType::Heal, 10, 10),
        make_monster(MonsterType::Orc, 11, 11),
    ];
    assert_eq!(cast_fireball(10, 10, &mut objects, &mut game), UseResult::Used);
    assert_eq!(objects[0].fighter.unwrap().hp, 75);
    assert_eq!(objects[0].fighter.unwrap().xp, 70);
    assert_eq!(objects[1].name, "remains of orc");
    assert_eq!(objects[3].name, "remains of orc");
    assert_eq!(objects[2], make_item(ItemType::Heal, 10, 10));
}

#[test]
fn a_dead_player_does_not_die_again() {
    let mut game = game();
    let mut objects = vec![player_at(10, 10)];
    objects[0].fighter.as_mut().unwrap().hp = 20;
    cast_fireball(10, 10, &mut objects, &mut game);
    assert_eq!(game.state, GameState::Death);
    assert_eq!(objects[0].fighter.unwrap().hp, -5);
    let died = texts(&game).iter().filter(|t| t.as_str() == "You died!").count();
    assert_eq!(died, 1);
    cast_fireball(10, 10, &mut objects, &mut game);
    assert_eq!(objects[0].fighter.unwrap().hp, -30);
    let died = texts(&game).iter().filter(|t| t.as_str() == "You died!").count();
    assert_eq!(died, 1);
    assert_eq!(game.state, GameState::Death);
    let messages = game.log.len();
    assert_eq!(objects[0].take_damage(1, &mut game), None);
    assert_eq!(objects[0].take_damage(0, &mut game), None);
    assert_eq!(game.log.len(), messages);
    assert_eq!(objects[0].fighter.unwrap().hp, -31);
}

#[test]
fn fireball_that_burns_nobody_is_still_used() {
    let mut game = game();
    let mut objects = vec![player_at(20, 20)];
    assert_eq!(cast_fireball(3, 3, &mut objects, &mut game), UseResult::Used);
    assert_eq!(game.log.len(), 1);
}

#[test]
fn confuse_wraps_the_old_behaviour() {
    let mut game = game();
    let mut objects = vec![player_at(10, 10), make_monster(MonsterType::Orc, 12, 10)];
    assert_eq!(cast_confuse(1, &mut objects, &mut game), UseResult::Used);
    assert_eq!(
        objects[1].ai,
        Some(Ai::Confused { previous_ai: Some(Box::new(Ai::Basic)), num_turns: CONFUSE_NUM_TURNS })
    );
    assert_eq!(
        last(&game),
        (
            "The eyes of the orc look vacant, as he starts to stumble around!".to_string(),
            Color::Green
        )
    );
    cast_confuse(1, &mut objects, &mut game);
    let once = Ai::Confused { previous_ai: Some(Box::new(Ai::Basic)), num_turns: CONFUSE_NUM_TURNS };
    assert_eq!(
        objects[1].ai,
        Some(Ai::Confused { previous_ai: Some(Box::new(once)), num_turns: CONFUSE_NUM_TURNS })
    );
}

#[test]
fn confuse_of_something_without_behaviour_remembers_nothing() {
    let mut game = game();
    let mut objects = vec![player_at(10, 10)];
    cast_confuse(0, &mut objects, &mut game);
    assert_eq!(objects[0].ai, Some(Ai::Confused { previous_ai: None, num_turns: CONFUSE_NUM_TURNS }));
}

#[test]
fn cast_nothing_counts_as_used() {
    assert_eq!(cast_nothing(), UseResult::Used);
}

#[test]
fn item_effects_by_kind() {
    let mut game = game();
    let fov = lit();
    let mut objects = vec![player_at(10, 10), make_monster(MonsterType::Troll, 12, 10)];
    assert_eq!(Item::Heal.use_item(&mut objects, &mut game, &fov, Target::Nowhere), UseResult::Cancelled);
    assert_eq!(Item::Inert.use_item(&mut objects, &mut game, &fov, Target::Nowhere), UseResult::Used);
    assert_eq!(Item::Fireball.use_item(&mut objects, &mut game, &fov, Target::Nowhere), UseResult::Cancelled);
    assert_eq!(Item::Fireball.use_item(&mut objects, &mut game, &fov, Target::Monster(1)), UseResult::Cancelled);
    assert_eq!(Item::Confuse.use_item(&mut objects, &mut game, &fov, Target::Tile(12, 10)), UseResult::Cancelled);
    assert_eq!(objects[1], make_monster(MonsterType::Troll, 12, 10));
    assert_eq!(Item::Confuse.use_item(&mut objects, &mut game, &fov, Target::Monster(1)), UseResult::Used);
    assert_eq!(Item::Fireball.use_item(&mut objects, &mut game, &fov, Target::Tile(12, 10)), UseResult::Used);
    assert_eq!(objects[1].fighter.unwrap().hp, 5);
    assert_eq!(Item::Lightning.use_item(&mut objects, &mut game, &fov, Target::Nowhere), UseResult::Used);
    assert!(objects[1].fighter.is_none());
}

#[test]
fn picking_up_moves_the_item_to_the_inventory() {
    let mut game = game();
    let mut objects = vec![
        player_at(5, 5),
        make_item(ItemType::Heal, 5, 5),
        make_monster(MonsterType::Orc, 8, 8),
        make_item(ItemType::Confuse, 9, 9),
    ];
    pick_item_up(1, &mut objects, &mut game);
    assert_eq!(game.inventory, vec![make_item(ItemType::Heal, 5, 5)]);
    assert_eq!(
        objects,
        vec![player_at(5, 5), make_item(ItemType::Confuse, 9, 9), make_monster(MonsterType::Orc, 8, 8)]
    );
    assert_eq!(last(&game), ("You picked up a healing potion!".to_string(), Color::Green));
}

#[test]
fn picking_up_with_a_full_inventory_leaves_the_item() {
    let mut game = game();
    for _ in 0..INVENTORY_CAPACITY {
        game.inventory.push(make_item(ItemType::Heal, 0, 0));
    }
    let mut objects = vec![player_at(5, 5), make_item(ItemType::Sword, 5, 5)];
    let before = objects.clone();
    pick_item_up(1, &mut objects, &mut game);
    assert_eq!(objects, before);
    assert_eq!(game.inventory.len(), 26);
    assert!(game.inventory.iter().all(|o| o.name == "healing potion"));
    assert_eq!(
        last(&game),
        ("Your inventory is full, cannot pick up sword.".to_string(), Color::Red)
    );
}

#[test]
fn picking_up_the_last_item_that_fits() {
    let mut game = game();
    for _ in 0..INVENTORY_CAPACITY - 1 {
        game.inventory.push(make_item(ItemType::Heal, 0, 0));
    }
    let mut objects = vec![player_at(5, 5), make_item(ItemType::Confuse, 5, 5)];
    pick_item_up(1, &mut objects, &mut game);
    assert_eq!(objects.len(), 1);
    assert_eq!(game.inventory.len(), 26);
}

#[test]
fn what_lies_on_the_floor_marked_as_worn_is_picked_up_not_worn() {
    let mut empty_handed = game();
    let mut game = game();
    let mut worn_sword = make_item(ItemType::Sword, 5, 5);
    worn_sword.equipment.as_mut().unwrap().is_equipped = true;
    let mut objects = vec![player_at(5, 5), make_item(ItemType::Sword, 5, 5), worn_sword.clone(), worn_sword];
    pick_item_up(1, &mut objects, &mut game);
    assert!(game.inventory[0].equipment.as_ref().unwrap().is_equipped);
    pick_item_up(1, &mut objects, &mut game);
    assert!(!game.inventory[1].equipment.as_ref().unwrap().is_equipped);
    let worn = game
        .inventory
        .iter()
        .filter(|o| o.equipment.as_ref().map_or(false, |e| e.is_equipped))
        .count();
    assert_eq!(worn, 1);
    pick_item_up(1, &mut objects, &mut empty_handed);
    assert!(empty_handed.inventory[0].equipment.as_ref().unwrap().is_equipped);
    assert_eq!(
        texts(&empty_handed),
        vec!["You picked up a sword!".to_string(), "Equipped sword on right hand.".to_string()]
    );
}

#[test]
fn equipment_is_put_on_when_picked_up_into_a_free_slot() {
    let mut game = game();
    let mut objects = vec![
        player_at(5, 5),
        make_item(ItemType::Sword, 5, 5),
        make_item(ItemType::Sword, 5, 5),
        make_item(ItemType::Shield, 5, 5),
    ];
    pick_item_up(1, &mut objects, &mut game);
    assert!(game.inventory[0].equipment.as_ref().unwrap().is_equipped);
    assert_eq!(
        texts(&game),
        vec!["You picked up a sword!".to_string(), "Equipped sword on right hand.".to_string()]
    );
    pick_item_up(2, &mut objects, &mut game);
    assert_eq!(game.inventory[1].name, "sword");
    assert!(!game.inventory[1].equipment.as_ref().unwrap().is_equipped);
    pick_item_up(1, &mut objects, &mut game);
    assert_eq!(game.inventory[2].name, "shield");
    assert!(game.inventory[2].equipment.as_ref().unwrap().is_equipped);
    assert_eq!(objects[0].full_power(&game), 5);
    assert_eq!(objects[0].full_defense(&game), 2);
}

#[test]
fn dropping_puts_the_item_at_the_players_feet() {
    let mut game = game();
    let mut objects = vec![player_at(5, 5), make_item(ItemType::Sword, 9, 9)];
    pick_item_up(1, &mut objects, &mut game);
    objects[0].set_pos(7, 8);
    drop_item(0, &mut objects, &mut game);
    assert!(game.inventory.is_empty());
    assert_eq!(objects.len(), 2);
    assert_eq!(objects[1], make_item(ItemType::Sword, 7, 8));
    let messages = texts(&game);
    assert_eq!(
        messages[messages.len() - 2..],
        ["Dequipped sword from right hand.".to_string(), "You dropped a sword.".to_string()]
    );
    assert_eq!(last(&game).1, Color::Yellow);
}

#[test]
fn dropping_keeps_the_order_of_the_rest() {
    let mut game = game();
    game.inventory.push(make_item(ItemType::Heal, 0, 0));
    game.inventory.push(make_item(ItemType::Confuse, 0, 0));
    game.inventory.push(make_item(ItemType::Fireball, 0, 0));
    let mut objects = vec![player_at(5, 5)];
    drop_item(1, &mut objects, &mut game);
    assert_eq!(game.inventory, vec![make_item(ItemType::Heal, 0, 0), make_item(ItemType::Fireball, 0, 0)]);
    assert_eq!(objects[1], make_item(ItemType::Confuse, 5, 5));
}

#[test]
fn using_a_potion_consumes_it() {
    let mut game = game();
    let fov = lit();
    game.inventory.push(make_item(ItemType::Lightning, 0, 0));
    game.inventory.push(make_item(ItemType::Heal, 0, 0));
    let mut objects = vec![player_at(5, 5)];
    objects[0].fighter.as_mut().unwrap().hp = 1;
    use_item(1, &mut objects, &mut game, &fov, Target::Nowhere);
    assert_eq!(game.inventory, vec![make_item(ItemType::Lightning, 0, 0)]);
    assert_eq!(objects[0].fighter.unwrap().hp, 41);
}

#[test]
fn a_cancelled_item_stays_and_says_so() {
    let mut game = game();
    let fov = lit();
    game.inventory.push(make_item(ItemType::Heal, 0, 0));
    game.inventory.push(make_item(ItemType::Fireball, 0, 0));
    let mut objects = vec![player_at(5, 5)];
    use_item(0, &mut objects, &mut game, &fov, Target::Nowhere);
    assert_eq!(game.inventory.len(), 2);
    assert_eq!(
        texts(&game),
        vec!["You are already at full health.".to_string(), "Cancelled".to_string()]
    );
    assert_eq!(last(&game).1, Color::White);
    use_item(1, &mut objects, &mut game, &fov, Target::Nowhere);
    assert_eq!(game.inventory.len(), 2);
    assert_eq!(last(&game).0, "Cancelled");
}

#[test]
fn using_equipment_toggles_it() {
    let mut game = game();
    let fov = lit();
    game.inventory.push(make_item(ItemType::Sword, 0, 0));
    let mut objects = vec![player_at(5, 5)];
    use_item(0, &mut objects, &mut game, &fov, Target::Nowhere);
    assert_eq!(game.inventory.len(), 1);
    assert!(game.inventory[0].equipment.as_ref().unwrap().is_equipped);
    use_item(0, &mut objects, &mut game, &fov, Target::Nowhere);
    assert!(!game.inventory[0].equipment.as_ref().unwrap().is_equipped);
    assert_eq!(game.inventory.len(), 1);
}

#[test]
fn what_is_no_item_cannot_be_used() {
    let mut game = game();
    let fov = lit();
    game.inventory.push(Object::new(0, 0, '<', "stairs", Color::White, false));
    let mut objects = vec![player_at(5, 5)];
    use_item(0, &mut objects, &mut game, &fov, Target::Nowhere);
    assert_eq!(game.inventory.len(), 1);
    assert_eq!(last(&game), ("The stairs cannot be used.".to_string(), Color::White));
}

#[test]
fn fireball_scroll_through_the_inventory() {
    let mut game = game();
    let fov = lit();
    game.inventory.push(make_item(ItemType::Fireball, 0, 0));
    let mut objects = vec![player_at(20, 20), make_monster(MonsterType::Orc, 5, 5)];
    assert_eq!(prompt_for_target(0, &mut game), Targeting::Tile);
    assert_eq!(
        last(&game),
        (
            "Left-click a target tile for the fireball, or right-click to cancel.".to_string(),
            Color::LightCyan
        )
    );
    use_item(0, &mut objects, &mut game, &fov, Target::Tile(5, 6));
    assert!(game.inventory.is_empty());
    assert_eq!(objects[1].name, "remains of orc");
    assert_eq!(objects[0].fighter.unwrap().xp, 35);
}

#[test]
fn prompts_by_kind_of_item() {
    let mut game = game();
    game.inventory.push(make_item(ItemType::Heal, 0, 0));
    game.inventory.push(make_item(ItemType::Lightning, 0, 0));
    game.inventory.push(make_item(ItemType::Confuse, 0, 0));
    game.inventory.push(make_item(ItemType::Sword, 0, 0));
    assert_eq!(prompt_for_target(0, &mut game), Targeting::Unaimed);
    assert_eq!(prompt_for_target(1, &mut game), Targeting::Unaimed);
    assert_eq!(prompt_for_target(3, &mut game), Targeting::Unaimed);
    assert_eq!(game.log.len(), 0);
    assert_eq!(prompt_for_target(2, &mut game), Targeting::Monster { max_range: CONFUSE_RANGE });
    assert_eq!(
        last(&game),
        ("Left-click an enemy to confuse it, or right-click to cancel.".to_string(), Color::LightCyan)
    );
}

fn pointer(cx: i32, cy: i32, left: bool, right: bool) -> Pointer {
    Pointer { cx, cy, lbutton_pressed: left, rbutton_pressed: right }
}

#[test]
fn a_left_click_in_view_chooses_the_tile() {
    let fov = lit();
    let objects = vec![player_at(10, 10)];
    assert_eq!(
        target_tile(pointer(3, 4, true, false), false, &objects, &fov, None),
        TileChoice::Chosen(3, 4)
    );
    assert_eq!(
        target_tile(pointer(3, 4, true, true), true, &objects, &fov, None),
        TileChoice::Chosen(3, 4)
    );
}

#[test]
fn a_click_out_of_view_or_range_chooses_nothing() {
    let fov = lit();
    let objects = vec![player_at(10, 10)];
    assert_eq!(target_tile(pointer(40, 4, true, false), false, &objects, &fov, None), TileChoice::Waiting);
    assert_eq!(target_tile(pointer(3, 45, true, false), false, &objects, &fov, None), TileChoice::Waiting);
    assert_eq!(
        target_tile(pointer(18, 10, true, false), false, &objects, &fov, Some(8)),
        TileChoice::Chosen(18, 10)
    );
    assert_eq!(
        target_tile(pointer(18, 11, true, false), false, &objects, &fov, Some(8)),
        TileChoice::Waiting
    );
    assert_eq!(
        target_tile(pointer(10, 10, true, false), false, &objects, &fov, Some(0)),
        TileChoice::Chosen(10, 10)
    );
    assert_eq!(
        target_tile(pointer(10, 10, true, false), false, &objects, &fov, Some(-1)),
        TileChoice::Waiting
    );
}

#[test]
fn a_right_click_or_escape_cancels() {
    let fov = lit();
    let objects = vec![player_at(10, 10)];
    assert_eq!(target_tile(pointer(3, 4, false, true), false, &objects, &fov, None), TileChoice::Cancelled);
    assert_eq!(target_tile(pointer(3, 4, false, false), true, &objects, &fov, None), TileChoice::Cancelled);
    assert_eq!(target_tile(pointer(3, 4, false, false), false, &objects, &fov, None), TileChoice::Waiting);
    assert_eq!(target_tile(pointer(40, 4, true, true), false, &objects, &fov, None), TileChoice::Cancelled);
}

#[test]
fn a_monster_is_chosen_by_its_tile() {
    let fov = lit();
    let objects = vec![
        player_at(10, 10),
        make_item(ItemType::Heal, 12, 10),
        make_monster(MonsterType::Orc, 12, 10),
        make_monster(MonsterType::Troll, 12, 10),
    ];
    assert_eq!(monster_at(12, 10, &objects), Some(2));
    assert_eq!(monster_at(10, 10, &objects), None);
    assert_eq!(monster_at(11, 10, &objects), None);
    assert_eq!(
        target_monster(pointer(12, 10, true, false), false, &objects, &fov, Some(8)),
        MonsterChoice::Chosen(2)
    );
    assert_eq!(
        target_monster(pointer(10, 10, true, false), false, &objects, &fov, Some(8)),
        MonsterChoice::Waiting
    );
    assert_eq!(
        target_monster(pointer(11, 10, true, false), false, &objects, &fov, Some(8)),
        MonsterChoice::Waiting
    );
    assert_eq!(
        target_monster(pointer(12, 10, false, true), false, &objects, &fov, Some(8)),
        MonsterChoice::Cancelled
    );
    assert_eq!(
        target_monster(pointer(12, 10, false, false), false, &objects, &fov, Some(8)),
        MonsterChoice::Waiting
    );
}
