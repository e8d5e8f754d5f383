use roguelike::color::Color;
use roguelike::command::{
    command_for, handle_keys, item_at, player_on_stairs, run_command, Command, Key, KeyCode,
    PlayerAction,
};
use roguelike::config::{LEVEL_UP_BASE, LEVEL_UP_FACTOR, MAP_HEIGHT, MAP_WIDTH};
use roguelike::dungeon::{create_room, Rect, TileMap};
use roguelike::command::finish_turn;
use roguelike::entry::{
    target_in_range, try_apply_level_up, try_check_level_up, try_drop_item, try_finish_turn,
    try_handle_keys, try_monsters_take_turns, try_use_item,
};
use roguelike::fov::Visibility;
use roguelike::game::{Game, GameState};
use roguelike::inventory::Target;
use roguelike::limits::{in_limits, level_in_play, map_enclosed, map_whole, object_within, on_floor};
use roguelike::log::MessageLog;
use roguelike::object::{DeathCallback, Equipment, Fighter, Item, Object};
use roguelike::presentation::{
    character_sheet, draw_order, get_names_under_mouse, inventory_choice, inventory_options,
    level_up_options, menu_choice,
};
use roguelike::progress::{apply_level_up, check_level_up, level_up_choice, LevelUpChoice};
use roguelike::random::range;
use roguelike::spawn::{
    choose_item, choose_monster, from_dungeon_level, item_chances, item_of, make_item,
    make_monster, monster_chances, monster_of, place_objects, place_spawn, ItemType, MonsterType,
    Spawn,
};

fn room_game() -> Game {
    let mut map = TileMap::new();
    create_room(Rect::new(0, 0, 30, 30), &mut map);
    Game {
        state: GameState::Playing,
        dungeon_level: 1,
        map,
        fov_recompute: false,
        log: MessageLog::new(),
        inventory: vec![],
    }
}

fn lit() -> Visibility {
    let mut fov = Visibility::new();
    for x in 0..MAP_WIDTH {
        for y in 0..MAP_HEIGHT {
            fov.set(x, y, true);
        }
    }
    fov
}

fn hero(x: i32, y: i32) -> Object {
    let mut player = Object::new(x, y, '@', "player", Color::White, true);
    player.fighter = Some(Fighter {
        hp: 100,
        base_max_hp: 100,
        base_defense: 1,
        base_power: 2,
        xp: 0,
        death: Some(DeathCallback::Player),
    });
    player.level = 1;
    player
}

fn key(code: KeyCode) -> Option<Key> {
    Some(Key { code, printable: '\0', alt: false })
}

fn letter(c: char) -> Option<Key> {
    Some(Key { code: KeyCode::Other, printable: c, alt: false })
}

fn log_texts(game: &Game) -> Vec<String> {
    game.log.messages().iter().map(|m| m.0.clone()).collect()
}

#[test]
fn new_game_has_the_player_the_dagger_and_the_welcome() {
    let (game, objects) = Game::new();
    assert_eq!(game.state, GameState::Playing);
    let player = &objects[0];
    assert_eq!(player.glyph, '@');
    assert_eq!(player.color, Color::White);
    assert!(player.blocks);
    assert_eq!(player.level, 1);
    assert_eq!(
        player.fighter,
        Some(Fighter {
            hp: 100,
            base_max_hp: 100,
            base_defense: 1,
            base_power: 2,
            xp: 0,
            death: Some(DeathCallback::Player)
        })
    );
    assert_eq!(game.inventory.len(), 1);
    let dagger = &game.inventory[0];
    assert_eq!(dagger.name, "dagger");
    assert_eq!(dagger.glyph, '-');
    assert_eq!(dagger.item, Some(Item::Inert));
    assert_eq!(
        dagger.equipment,
        Some(Equipment {
            slot: "right hand".to_string(),
            is_equipped: true,
            power_bonus: 2,
            defense_bonus: 0,
            max_hp_bonus: 0
        })
    );
    assert_eq!(player.full_power(&game), 4);
    assert_eq!(
        game.log.messages(),
        &vec![
            (
                "Welcome stranger! Prepare to perish in the Tombs of the Ancient Kings.".to_string(),
                Color::Red
            ),
            ("Equipped dagger on right hand.".to_string(), Color::LightGreen),
        ]
    );
    assert!(in_limits(&objects, &game));
}

#[test]
fn next_level_rests_the_player_and_digs_anew() {
    let (mut game, mut objects) = Game::new();
    objects[0].fighter.as_mut().unwrap().hp = 30;
    game.fov_recompute = false;
    game.next_level(&mut objects);
    assert_eq!(game.dungeon_level, 2);
    assert_eq!(objects[0].fighter.unwrap().hp, 80);
    assert!(game.fov_recompute);
    assert_eq!(objects.last().unwrap().name, "stairs");
    let texts = log_texts(&game);
    assert_eq!(
        texts[texts.len() - 2..],
        [
            "You take a moment to rest, and recover your strength.".to_string(),
            "After a rare moment of peace, you descend deeper into the heart of the dungeon..."
                .to_string(),
        ]
    );
    assert!(level_in_play(&objects, &game));
    objects[0].fighter.as_mut().unwrap().hp = 70;
    game.next_level(&mut objects);
    assert_eq!(objects[0].fighter.unwrap().hp, 100);
    assert_eq!(game.dungeon_level, 3);
}

#[test]
fn initialize_fov_sets_the_flag() {
    let mut game = room_game();
    game.initialize_fov();
    assert!(game.fov_recompute);
    assert_eq!(game.dungeon_level, 1);
}

#[test]
fn level_up_takes_the_threshold_and_keeps_the_rest() {
    let mut game = room_game();
    let mut objects = vec![hero(5, 5)];
    objects[0].fighter.as_mut().unwrap().xp = 550;
    assert_eq!(LEVEL_UP_BASE + 1 * LEVEL_UP_FACTOR, 350);
    assert_eq!(check_level_up(&mut objects, &mut game), 1);
    assert_eq!(objects[0].level, 2);
    assert_eq!(objects[0].fighter.unwrap().xp, 200);
    assert_eq!(
        game.log.messages().last().unwrap(),
        &("Your battle skills grow stronger! You reached level 2!".to_string(), Color::Yellow)
    );
    assert_eq!(check_level_up(&mut objects, &mut game), 0);
    assert_eq!(objects[0].level, 2);
    assert_eq!(objects[0].fighter.unwrap().xp, 200);
    assert_eq!(game.log.len(), 1);
}

#[test]
fn level_up_takes_every_level_that_is_paid_for() {
    let mut game = room_game();
    let mut objects = vec![hero(5, 5)];
    objects[0].fighter.as_mut().unwrap().xp = 850;
    let owed = check_level_up(&mut objects, &mut game);
    assert_eq!(owed, 2);
    assert_eq!(objects[0].level, 3);
    assert_eq!(objects[0].fighter.unwrap().xp, 0);
    assert_eq!(
        log_texts(&game),
        vec![
            "Your battle skills grow stronger! You reached level 2!".to_string(),
            "Your battle skills grow stronger! You reached level 3!".to_string(),
        ]
    );
    for _ in 0..owed {
        apply_level_up(level_up_choice(Some(1)).unwrap(), &mut objects);
    }
    assert_eq!(objects[0].fighter.unwrap().base_power, 4);
    assert_eq!(check_level_up(&mut objects, &mut game), 0);
}

#[test]
fn level_up_repeats_while_the_experience_lasts() {
    let mut game = room_game();
    let mut objects = vec![hero(5, 5)];
    objects[0].fighter.as_mut().unwrap().xp = 350 + 500 + 650 + 10;
    assert_eq!(check_level_up(&mut objects, &mut game), 3);
    assert_eq!(objects[0].level, 4);
    assert_eq!(objects[0].fighter.unwrap().xp, 10);
    assert_eq!(game.log.len(), 3);
}

#[test]
fn level_up_at_exactly_the_threshold() {
    let mut game = room_game();
    let mut objects = vec![hero(5, 5)];
    objects[0].fighter.as_mut().unwrap().xp = 350;
    assert_eq!(check_level_up(&mut objects, &mut game), 1);
    assert_eq!(objects[0].fighter.unwrap().xp, 0);
    objects[0].fighter.as_mut().unwrap().xp = 499;
    assert_eq!(check_level_up(&mut objects, &mut game), 0);
    assert_eq!(objects[0].level, 2);
}

#[test]
fn level_up_from_below_zero_climbs_through_the_cheap_levels() {
    let mut game = room_game();
    let mut objects = vec![hero(5, 5)];
    objects[0].level = -2;
    objects[0].fighter.as_mut().unwrap().xp = 0;
    assert_eq!(check_level_up(&mut objects, &mut game), 2);
    assert_eq!(objects[0].level, 0);
    assert_eq!(objects[0].fighter.unwrap().xp, 50);
    objects[0].level = -2;
    objects[0].fighter.as_mut().unwrap().xp = 150;
    assert_eq!(check_level_up(&mut objects, &mut game), 3);
    assert_eq!(objects[0].level, 1);
    assert_eq!(objects[0].fighter.unwrap().xp, 0);
}

#[test]
fn level_up_choices() {
    assert_eq!(level_up_choice(Some(0)), Some(LevelUpChoice::Constitution));
    assert_eq!(level_up_choice(Some(1)), Some(LevelUpChoice::Strength));
    assert_eq!(level_up_choice(Some(2)), Some(LevelUpChoice::Agility));
    assert_eq!(level_up_choice(Some(3)), None);
    assert_eq!(level_up_choice(None), None);
    let mut objects = vec![hero(5, 5)];
    objects[0].fighter.as_mut().unwrap().hp = 50;
    apply_level_up(LevelUpChoice::Constitution, &mut objects);
    assert_eq!(objects[0].fighter.unwrap().base_max_hp, 120);
    assert_eq!(objects[0].fighter.unwrap().hp, 70);
    apply_level_up(LevelUpChoice::Strength, &mut objects);
    assert_eq!(objects[0].fighter.unwrap().base_power, 3);
    apply_level_up(LevelUpChoice::Agility, &mut objects);
    assert_eq!(objects[0].fighter.unwrap().base_defense, 2);
    assert_eq!(objects[0].fighter.unwrap().xp, 0);
}

#[test]
fn keys_mean_commands_while_playing() {
    let playing = GameState::Playing;
    assert_eq!(command_for(key(KeyCode::Up), playing), Command::Move(0, -1));
    assert_eq!(command_for(key(KeyCode::NumPad8), playing), Command::Move(0, -1));
    assert_eq!(command_for(key(KeyCode::Down), playing), Command::Move(0, 1));
    assert_eq!(command_for(key(KeyCode::NumPad2), playing), Command::Move(0, 1));
    assert_eq!(command_for(key(KeyCode::Left), playing), Command::Move(-1, 0));
    assert_eq!(command_for(key(KeyCode::NumPad4), playing), Command::Move(-1, 0));
    assert_eq!(command_for(key(KeyCode::Right), playing), Command::Move(1, 0));
    assert_eq!(command_for(key(KeyCode::NumPad6), playing), Command::Move(1, 0));
    assert_eq!(command_for(key(KeyCode::Home), playing), Command::Move(-1, -1));
    assert_eq!(command_for(key(KeyCode::NumPad7), playing), Command::Move(-1, -1));
    assert_eq!(command_for(key(KeyCode::PageUp), playing), Command::Move(1, -1));
    assert_eq!(command_for(key(KeyCode::NumPad9), playing), Command::Move(1, -1));
    assert_eq!(command_for(key(KeyCode::End), playing), Command::Move(-1, 1));
    assert_eq!(command_for(key(KeyCode::NumPad1), playing), Command::Move(-1, 1));
    assert_eq!(command_for(key(KeyCode::PageDown), playing), Command::Move(1, 1));
    assert_eq!(command_for(key(KeyCode::NumPad3), playing), Command::Move(1, 1));
    assert_eq!(command_for(key(KeyCode::NumPad5), playing), Command::Wait);
    assert_eq!(command_for(letter('g'), playing), Command::PickUp);
    assert_eq!(command_for(letter('i'), playing), Command::UseItem);
    assert_eq!(command_for(letter('d'), playing), Command::DropItem);
    assert_eq!(command_for(letter('c'), playing), Command::ShowCharacter);
    assert_eq!(command_for(letter('<'), playing), Command::Descend);
    assert_eq!(command_for(letter('x'), playing), Command::Idle);
    assert_eq!(command_for(key(KeyCode::Enter), playing), Command::Idle);
    assert_eq!(command_for(None, playing), Command::Idle);
}

#[test]
fn escape_and_fullscreen_work_in_any_state() {
    for state in [GameState::Playing, GameState::Death] {
        assert_eq!(command_for(key(KeyCode::Escape), state), Command::Exit);
        assert_eq!(
            command_for(Some(Key { code: KeyCode::Enter, printable: '\r', alt: true }), state),
            Command::ToggleFullscreen
        );
    }
    assert_eq!(command_for(key(KeyCode::Up), GameState::Death), Command::Idle);
    assert_eq!(command_for(letter('g'), GameState::Death), Command::Idle);
    assert_eq!(command_for(key(KeyCode::NumPad5), GameState::Death), Command::Idle);
}

#[test]
fn moving_and_waiting_take_the_turn() {
    let mut game = room_game();
    let mut objects = vec![hero(5, 5)];
    assert_eq!(
        handle_keys(key(KeyCode::Right), &mut objects, &mut game),
        (PlayerAction::TookTurn, Command::Move(1, 0))
    );
    assert_eq!(objects[0].pos(), (6, 5));
    assert_eq!(
        handle_keys(key(KeyCode::NumPad5), &mut objects, &mut game),
        (PlayerAction::TookTurn, Command::Wait)
    );
    assert_eq!(
        handle_keys(key(KeyCode::Escape), &mut objects, &mut game),
        (PlayerAction::Exit, Command::Exit)
    );
    assert_eq!(
        handle_keys(letter('i'), &mut objects, &mut game),
        (PlayerAction::DidntTakeTurn, Command::UseItem)
    );
    assert_eq!(handle_keys(None, &mut objects, &mut game), (PlayerAction::DidntTakeTurn, Command::Idle));
    assert_eq!(objects[0].pos(), (6, 5));
}

#[test]
fn picking_up_by_key_takes_the_first_item_underfoot() {
    let mut game = room_game();
    let mut objects = vec![
        hero(5, 5),
        make_monster(MonsterType::Orc, 9, 9),
        make_item(ItemType::Confuse, 5, 5),
        make_item(ItemType::Heal, 5, 5),
    ];
    assert_eq!(item_at(5, 5, &objects), Some(2));
    assert_eq!(item_at(9, 9, &objects), None);
    assert_eq!(run_command(Command::PickUp, &mut objects, &mut game), PlayerAction::DidntTakeTurn);
    assert_eq!(game.inventory, vec![make_item(ItemType::Confuse, 5, 5)]);
    assert_eq!(objects.len(), 3);
    objects[0].set_pos(7, 7);
    assert_eq!(run_command(Command::PickUp, &mut objects, &mut game), PlayerAction::DidntTakeTurn);
    assert_eq!(game.inventory.len(), 1);
}

#[test]
fn stairs_are_taken_only_from_the_stairs() {
    let (mut game, mut objects) = Game::new();
    assert_eq!(
        player_on_stairs(&objects),
        objects[0].pos() == objects.last().unwrap().pos()
    );
    let stairs = objects.last().unwrap().pos();
    if objects[0].pos() != stairs {
        assert_eq!(run_command(Command::Descend, &mut objects, &mut game), PlayerAction::DidntTakeTurn);
        assert_eq!(game.dungeon_level, 1);
    }
    objects[0].set_pos(stairs.0, stairs.1);
    assert!(player_on_stairs(&objects));
    assert_eq!(run_command(Command::Descend, &mut objects, &mut game), PlayerAction::DidntTakeTurn);
    assert_eq!(game.dungeon_level, 2);
}

#[test]
fn range_draws_within_both_ends() {
    let mut seen = [false; 3];
    for _ in 0..300 {
        let r = range(-1, 1);
        assert!(-1 <= r && r <= 1);
        seen[(r + 1) as usize] = true;
    }
    assert_eq!(seen, [true, true, true]);
    assert_eq!(range(7, 7), 7);
    assert_eq!(range(0, 0), 0);
}

#[test]
fn tables_give_the_last_value_that_holds() {
    let table = [(2, 1), (3, 4), (5, 6)];
    assert_eq!(from_dungeon_level(&table, 0), 0);
    assert_eq!(from_dungeon_level(&table, 1), 2);
    assert_eq!(from_dungeon_level(&table, 3), 2);
    assert_eq!(from_dungeon_level(&table, 4), 3);
    assert_eq!(from_dungeon_level(&table, 6), 5);
    assert_eq!(from_dungeon_level(&table, 100), 5);
    assert_eq!(from_dungeon_level(&[], 5), 0);
    assert_eq!(from_dungeon_level(&[(9, 8), (4, 2)], 9), 4);
    assert_eq!(from_dungeon_level(&[(9, 8), (4, 2)], 1), 0);
}

#[test]
fn chances_by_level() {
    let monsters = |level| monster_chances(level).iter().map(|w| (w.weight, w.item)).collect::<Vec<_>>();
    let items = |level| item_chances(level).iter().map(|w| w.weight).collect::<Vec<_>>();
    assert_eq!(monsters(1), vec![(80, 0), (0, 1)]);
    assert_eq!(monsters(3), vec![(80, 0), (15, 1)]);
    assert_eq!(monsters(5), vec![(80, 0), (30, 1)]);
    assert_eq!(monsters(7), vec![(80, 0), (60, 1)]);
    assert_eq!(items(1), vec![35, 0, 0, 0, 0, 0]);
    assert_eq!(items(2), vec![35, 0, 0, 10, 0, 0]);
    assert_eq!(items(4), vec![35, 25, 0, 10, 5, 0]);
    assert_eq!(items(6), vec![35, 25, 25, 10, 5, 0]);
    assert_eq!(items(8), vec![35, 25, 25, 10, 5, 15]);
    let places: Vec<usize> = item_chances(8).iter().map(|w| w.item).collect();
    assert_eq!(places, vec![0, 1, 2, 3, 4, 5]);
    assert_eq!(monster_of(0), MonsterType::Orc);
    assert_eq!(monster_of(1), MonsterType::Troll);
    assert_eq!(item_of(0), ItemType::Heal);
    assert_eq!(item_of(1), ItemType::Lightning);
    assert_eq!(item_of(2), ItemType::Fireball);
    assert_eq!(item_of(3), ItemType::Confuse);
    assert_eq!(item_of(4), ItemType::Sword);
    assert_eq!(item_of(5), ItemType::Shield);
}

#[test]
fn nothing_is_chosen_whose_chance_is_zero() {
    for _ in 0..200 {
        assert_eq!(choose_monster(1), MonsterType::Orc);
        assert_eq!(choose_monster(2), MonsterType::Orc);
        assert_eq!(choose_item(1), ItemType::Heal);
        let item = choose_item(3);
        assert!(item == ItemType::Heal || item == ItemType::Confuse);
        assert_ne!(choose_item(7), ItemType::Shield);
    }
}

#[test]
fn every_kind_turns_up_where_it_may() {
    let mut trolls = 0;
    let mut kinds = [false; 6];
    for _ in 0..2000 {
        if choose_monster(7) == MonsterType::Troll {
            trolls += 1;
        }
        let index = match choose_item(8) {
            ItemType::Heal => 0,
            ItemType::Lightning => 1,
            ItemType::Fireball => 2,
            ItemType::Confuse => 3,
            ItemType::Sword => 4,
            ItemType::Shield => 5,
        };
        kinds[index] = true;
    }
    assert!(trolls > 0 && trolls < 2000);
    assert_eq!(kinds, [true; 6]);
}

#[test]
fn monsters_and_items_as_made() {
    let orc = make_monster(MonsterType::Orc, 3, 4);
    assert_eq!((orc.glyph, orc.name.as_str(), orc.color, orc.blocks), ('o', "orc", Color::DesaturatedGreen, true));
    assert_eq!(
        orc.fighter,
        Some(Fighter {
            hp: 20,
            base_max_hp: 20,
            base_defense: 0,
            base_power: 4,
            xp: 35,
            death: Some(DeathCallback::Monster)
        })
    );
    let troll = make_monster(MonsterType::Troll, 3, 4);
    assert_eq!((troll.glyph, troll.name.as_str(), troll.color), ('T', "troll", Color::DarkerGreen));
    assert_eq!(
        troll.fighter,
        Some(Fighter {
            hp: 30,
            base_max_hp: 30,
            base_defense: 2,
            base_power: 8,
            xp: 100,
            death: Some(DeathCallback::Monster)
        })
    );
    let sword = make_item(ItemType::Sword, 1, 2);
    assert_eq!((sword.glyph, sword.name.as_str(), sword.color, sword.blocks), ('/', "sword", Color::Sky, false));
    assert_eq!(sword.item, Some(Item::Inert));
    assert_eq!(sword.equipment.as_ref().unwrap().power_bonus, 3);
    assert_eq!(sword.equipment.as_ref().unwrap().slot, "right hand");
    let shield = make_item(ItemType::Shield, 1, 2);
    assert_eq!((shield.glyph, shield.color), ('[', Color::DarkerOrange));
    assert_eq!(shield.equipment.as_ref().unwrap().defense_bonus, 1);
    assert_eq!(shield.equipment.as_ref().unwrap().slot, "left hand");
    assert_eq!(make_item(ItemType::Heal, 0, 0).item, Some(Item::Heal));
    assert_eq!(make_item(ItemType::Heal, 0, 0).glyph, '!');
    assert_eq!(make_item(ItemType::Lightning, 0, 0).name, "scroll of lightning bolt");
    assert_eq!(make_item(ItemType::Fireball, 0, 0).name, "scroll of fireball");
    assert_eq!(make_item(ItemType::Confuse, 0, 0).name, "scroll of confusion");
    assert_eq!(make_item(ItemType::Confuse, 0, 0).item, Some(Item::Confuse));
}

#[test]
fn a_spawn_on_a_taken_tile_is_dropped() {
    let game = room_game();
    let mut objects = vec![hero(5, 5)];
    place_spawn(Spawn::Monster { kind: MonsterType::Orc, x: 5, y: 5 }, &game.map, &mut objects);
    assert_eq!(objects.len(), 1);
    place_spawn(Spawn::Monster { kind: MonsterType::Orc, x: 0, y: 5 }, &game.map, &mut objects);
    assert_eq!(objects.len(), 1);
    place_spawn(Spawn::Monster { kind: MonsterType::Troll, x: 6, y: 5 }, &game.map, &mut objects);
    assert_eq!(objects[1], make_monster(MonsterType::Troll, 6, 5));
    place_spawn(Spawn::Item { kind: ItemType::Heal, x: 6, y: 5 }, &game.map, &mut objects);
    assert_eq!(objects.len(), 2);
    place_spawn(Spawn::Item { kind: ItemType::Heal, x: 7, y: 5 }, &game.map, &mut objects);
    place_spawn(Spawn::Item { kind: ItemType::Sword, x: 7, y: 5 }, &game.map, &mut objects);
    assert_eq!(objects.len(), 4);
    assert_eq!(objects[3], make_item(ItemType::Sword, 7, 5));
}

#[test]
fn rooms_are_stocked_within_the_caps() {
    let game = room_game();
    let room = Rect::new(3, 3, 8, 8);
    for level in [1, 4, 6, 9] {
        let (monster_cap, item_cap) = match level {
            1 => (2, 1),
            4 => (3, 2),
            _ => (5, 2),
        };
        for _ in 0..50 {
            let mut objects = vec![hero(1, 1)];
            place_objects(room, &game.map, &mut objects, level);
            assert_eq!(objects[0], hero(1, 1));
            let monsters = objects[1..].iter().filter(|o| o.fighter.is_some()).count();
            let items = objects[1..].iter().filter(|o| o.item.is_some()).count();
            assert_eq!(monsters + items, objects.len() - 1);
            assert!(monsters <= monster_cap);
            assert!(items <= item_cap);
            let first_item = objects[1..].iter().position(|o| o.item.is_some()).unwrap_or(objects.len() - 1);
            assert!(objects[1 + first_item..].iter().all(|o| o.item.is_some()));
            for o in &objects[1..] {
                assert!(3 < o.x && o.x < 11 && 3 < o.y && o.y < 11);
            }
        }
    }
    let mut objects = vec![hero(1, 1)];
    place_objects(room, &game.map, &mut objects, 0);
    assert_eq!(objects.len(), 1);
}

#[test]
fn menu_letters_pick_entries() {
    assert_eq!(menu_choice('a', 3), Some(0));
    assert_eq!(menu_choice('C', 3), Some(2));
    assert_eq!(menu_choice('d', 3), None);
    assert_eq!(menu_choice('z', 26), Some(25));
    assert_eq!(menu_choice('1', 26), None);
    assert_eq!(menu_choice(' ', 26), None);
    assert_eq!(menu_choice('é', 26), None);
    assert_eq!(menu_choice('a', 0), None);
}

#[test]
fn inventory_menu_lists_items_and_slots() {
    let mut game = room_game();
    assert_eq!(inventory_options(&game), vec!["Inventory is empty.".to_string()]);
    assert_eq!(inventory_choice(&game, Some(0)), None);
    game.inventory.push(make_item(ItemType::Heal, 0, 0));
    game.inventory.push(make_item(ItemType::Sword, 0, 0));
    game.inventory.push(make_item(ItemType::Shield, 0, 0));
    roguelike::equipment::equip(1, &mut game);
    assert_eq!(
        inventory_options(&game),
        vec!["healing potion".to_string(), "sword (on right hand)".to_string(), "shield".to_string()]
    );
    assert_eq!(inventory_choice(&game, Some(2)), Some(2));
    assert_eq!(inventory_choice(&game, None), None);
}

#[test]
fn names_under_the_pointer() {
    let mut fov = Visibility::new();
    fov.set(5, 5, true);
    let objects = vec![
        hero(5, 5),
        make_item(ItemType::Heal, 5, 5),
        make_monster(MonsterType::Orc, 6, 5),
        make_item(ItemType::Sword, 5, 5),
    ];
    assert_eq!(get_names_under_mouse(5, 5, &objects, &fov), "player, healing potion, sword");
    assert_eq!(get_names_under_mouse(6, 5, &objects, &fov), "");
    assert_eq!(get_names_under_mouse(7, 7, &objects, &fov), "");
    fov.set(6, 5, true);
    assert_eq!(get_names_under_mouse(6, 5, &objects, &fov), "orc");
}

#[test]
fn draw_order_puts_fighters_on_top() {
    let objects = vec![
        hero(5, 5),
        make_item(ItemType::Heal, 5, 5),
        Object::new(1, 1, '<', "stairs", Color::White, false),
        make_monster(MonsterType::Orc, 6, 5),
        make_item(ItemType::Sword, 5, 5),
    ];
    assert_eq!(draw_order(&objects), vec![2, 1, 4, 0, 3]);
    assert_eq!(objects[0].layer(), 2);
    assert_eq!(objects[1].layer(), 1);
    assert_eq!(objects[2].layer(), 0);
}

#[test]
fn objects_show_in_view_or_when_remembered() {
    let mut game = room_game();
    let mut fov = Visibility::new();
    let mut stairs = Object::new(4, 4, '<', "stairs", Color::White, false);
    let orc = make_monster(MonsterType::Orc, 4, 4);
    assert!(!stairs.is_shown(&game.map, &fov));
    stairs.always_visible = true;
    assert!(!stairs.is_shown(&game.map, &fov));
    game.map.explore(4, 4);
    assert!(stairs.is_shown(&game.map, &fov));
    assert!(!orc.is_shown(&game.map, &fov));
    fov.set(4, 4, true);
    assert!(orc.is_shown(&game.map, &fov));
}

#[test]
fn level_up_menu_and_character_sheet() {
    let mut game = room_game();
    game.inventory.push(make_item(ItemType::Sword, 0, 0));
    roguelike::equipment::equip(0, &mut game);
    let mut objects = vec![hero(5, 5)];
    objects[0].fighter.as_mut().unwrap().xp = 120;
    assert_eq!(
        level_up_options(&objects, &game),
        vec![
            "Constitution (+20 HP, from 100)".to_string(),
            "Strength (+1 attack, from 5)".to_string(),
            "Agility (+1 defense, from 1)".to_string(),
        ]
    );
    assert_eq!(
        character_sheet(&objects, &game),
        Some(
            "Character information\n\nLevel: 1\nExperience: 120\nExperience to level up: 350\n\n\
             Maximum HP: 100\nAttack: 5\nDefense: 1"
                .to_string()
        )
    );
    objects[0].fighter = None;
    assert_eq!(character_sheet(&objects, &game), None);
}

#[test]
fn limits_tell_a_level_in_play() {
    let (game, objects) = Game::new();
    assert!(map_whole(&game.map));
    assert!(map_enclosed(&game.map));
    assert!(level_in_play(&objects, &game));
    assert!(in_limits(&objects, &game));
    let spot = objects[0].pos();
    assert!(on_floor(&game.map, spot.0, spot.1));
    assert!(!on_floor(&game.map, 0, 0));
    assert!(!on_floor(&game.map, -1, 5));
    assert!(!on_floor(&game.map, MAP_WIDTH, 5));

    let mut huge = objects.clone();
    huge[0].fighter.as_mut().unwrap().hp = 1_000_001;
    assert!(level_in_play(&huge, &game));
    assert!(!in_limits(&huge, &game));
    assert!(!object_within(&huge[0]));
    huge[0].fighter.as_mut().unwrap().hp = 1_000_000;
    assert!(in_limits(&huge, &game));
    huge[0].level = -1;
    assert!(!in_limits(&huge, &game));
    huge[0].level = 0;
    assert!(in_limits(&huge, &game));

    let mut nameless = objects.clone();
    nameless[0].name = "hero".to_string();
    assert!(!level_in_play(&nameless, &game));

    let mut twins = objects.clone();
    twins[1].name = "player".to_string();
    assert!(!level_in_play(&twins, &game));

    let mut adrift = objects.clone();
    adrift[1].set_pos(0, 0);
    assert!(!level_in_play(&adrift, &game));

    assert!(!level_in_play(&vec![], &game));

    let mut carried = Game::new().0;
    carried.inventory[0].name = "player".to_string();
    assert!(!level_in_play(&objects, &carried));

    let mut potion = objects.clone();
    potion[0].item = Some(Item::Heal);
    assert!(!level_in_play(&potion, &game));

    let mut open = Game::new().0;
    open.map.dig(0, 7);
    assert!(!map_enclosed(&open.map));
    let mut short = Game::new().0;
    short.map.tiles[3].pop();
    assert!(!map_whole(&short.map));
    short.map.tiles.pop();
    assert!(!map_whole(&short.map));
}

#[test]
fn guarded_entries_refuse_a_world_out_of_limits() {
    let fov = lit();
    let (mut game, mut objects) = Game::new();
    objects[0].fighter.as_mut().unwrap().xp = 5_000_000;
    let before = objects.clone();
    assert_eq!(try_handle_keys(key(KeyCode::NumPad5), &mut objects, &mut game), None);
    assert!(!try_monsters_take_turns(&mut objects, &mut game, &fov));
    assert!(!try_use_item(0, &mut objects, &mut game, &fov, Target::Nowhere));
    assert_eq!(try_check_level_up(&mut objects, &mut game), None);
    assert!(!try_apply_level_up(LevelUpChoice::Strength, &mut objects, &game));
    assert_eq!(objects, before);
    assert_eq!(game.log.len(), 2);
}

#[test]
fn guarded_entries_play_a_world_within_limits() {
    let fov = lit();
    let (mut game, mut objects) = Game::new();
    assert_eq!(
        try_handle_keys(key(KeyCode::NumPad5), &mut objects, &mut game),
        Some((PlayerAction::TookTurn, Command::Wait))
    );
    assert!(try_monsters_take_turns(&mut objects, &mut game, &fov));
    assert_eq!(try_check_level_up(&mut objects, &mut game), Some(0));
    objects[0].fighter.as_mut().unwrap().xp = 400;
    assert_eq!(try_check_level_up(&mut objects, &mut game), Some(1));
    assert!(try_apply_level_up(LevelUpChoice::Agility, &mut objects, &game));
    assert_eq!(objects[0].fighter.unwrap().base_defense, 2);
    assert_eq!(objects[0].fighter.unwrap().xp, 50);
    assert!(try_use_item(0, &mut objects, &mut game, &fov, Target::Nowhere));
    assert!(!game.inventory[0].equipment.as_ref().unwrap().is_equipped);
    assert!(!try_use_item(1, &mut objects, &mut game, &fov, Target::Nowhere));
    let count = objects.len();
    assert!(!try_use_item(0, &mut objects, &mut game, &fov, Target::Monster(count)));
    assert!(target_in_range(Target::Monster(count - 1), &objects));
    assert!(!target_in_range(Target::Monster(count), &objects));
    assert!(target_in_range(Target::Tile(-5, 900), &objects));
    assert!(!try_drop_item(1, &mut objects, &mut game));
    assert!(try_drop_item(0, &mut objects, &mut game));
    assert_eq!(objects.len(), count + 1);
    assert_eq!(objects[count].name, "dagger");
    assert_eq!(objects[count].pos(), objects[0].pos());
}

#[test]
fn monsters_move_only_after_a_turn_taken_while_playing() {
    let fov = lit();
    let mut game = room_game();
    let mut objects = vec![hero(5, 5), make_monster(MonsterType::Orc, 9, 5)];
    assert!(!finish_turn(PlayerAction::DidntTakeTurn, &mut objects, &mut game, &fov));
    assert!(!finish_turn(PlayerAction::Exit, &mut objects, &mut game, &fov));
    assert_eq!(objects[1].pos(), (9, 5));
    assert_eq!(try_finish_turn(PlayerAction::DidntTakeTurn, &mut objects, &mut game, &fov), Some(false));
    assert!(finish_turn(PlayerAction::TookTurn, &mut objects, &mut game, &fov));
    assert_eq!(objects[1].pos(), (8, 5));
    game.state = GameState::Death;
    assert!(!finish_turn(PlayerAction::TookTurn, &mut objects, &mut game, &fov));
    assert_eq!(objects[1].pos(), (8, 5));
    game.state = GameState::Playing;
    objects[1].fighter.as_mut().unwrap().xp = -2_000_000;
    assert_eq!(try_finish_turn(PlayerAction::TookTurn, &mut objects, &mut game, &fov), None);
    assert_eq!(try_finish_turn(PlayerAction::Exit, &mut objects, &mut game, &fov), Some(false));
    assert_eq!(objects[1].pos(), (8, 5));
}

#[test]
fn a_whole_game_stays_within_limits() {
    let fov = lit();
    let (mut game, mut objects) = Game::new();
    let keys = [
        KeyCode::Up,
        KeyCode::Left,
        KeyCode::Down,
        KeyCode::Right,
        KeyCode::Home,
        KeyCode::End,
        KeyCode::PageUp,
        KeyCode::PageDown,
        KeyCode::NumPad5,
    ];
    for turn in 0..400 {
        if game.state != GameState::Playing {
            break;
        }
        for _ in 0..try_check_level_up(&mut objects, &mut game).unwrap() {
            assert!(try_apply_level_up(LevelUpChoice::Constitution, &mut objects, &game));
        }
        let handled = try_handle_keys(key(keys[(turn * 7 + turn / 9) % keys.len()]), &mut objects, &mut game);
        assert_eq!(handled.map(|h| h.0), Some(PlayerAction::TookTurn));
        if game.state == GameState::Playing {
            assert!(try_monsters_take_turns(&mut objects, &mut game, &fov));
        }
        assert!(level_in_play(&objects, &game));
        assert_eq!(objects[0].name, "player");
    }
}
