use roguelike::ai::ai_take_turn;
use roguelike::color::Color;
use roguelike::dungeon::{create_room, Rect, TileMap};
use roguelike::fov::Visibility;
use roguelike::game::{Game, GameState};
use roguelike::log::MessageLog;
use roguelike::object::{Ai, DeathCallback, Fighter, Object};
use roguelike::spawn::{make_monster, MonsterType};
use roguelike::turn::{fighter_at, monsters_take_turns, player_move_or_attack};
use roguelike::world::{is_blocked, move_by, move_towards, mut_two};

fn game() -> Game {
    let mut map = TileMap::new();
    create_room(Rect::new(0, 0, 30, 30), &mut map);
    Game {
        state: GameState::Playing,
        dungeon_level: 1,
        map,
        fov_recompute: false,
        log: MessageLog::new(),
        inventory: vec![],
    }
}

fn lit() -> Visibility {
    let mut fov = Visibility::new();
    for x in 0..31 {
        for y in 0..31 {
            fov.set(x, y, true);
        }
    }
    fov
}

fn player_at(x: i32, y: i32) -> Object {
    let mut player = Object::new(x, y, '@', "player", Color::White, true);
    player.fighter = Some(Fighter {
        hp: 100,
        base_max_hp: 100,
        base_defense: 1,
        base_power: 2,
        xp: 0,
        death: Some(DeathCallback::Player),
    });
    player.level = 1;
    player
}

fn texts(game: &Game) -> Vec<String> {
    game.log.messages().iter().map(|m| m.0.clone()).collect()
}

#[test]
fn mut_two_borrows_both_in_either_order() {
    let mut items = vec![10, 20, 30, 40];
    {
        let (a, b) = mut_two(1, 3, &mut items);
        assert_eq!((*a, *b), (20, 40));
        *a = 21;
        *b = 41;
    }
    {
        let (a, b) = mut_two(2, 0, &mut items);
        assert_eq!((*a, *b), (30, 10));
        *a = 31;
        *b = 11;
    }
    assert_eq!(items, vec![11, 21, 31, 41]);
}

#[test]
fn is_blocked_by_walls_and_by_blocking_objects() {
    let game = game();
    let objects = vec![player_at(5, 5), Object::new(6, 5, '!', "potion", Color::Violet, false)];
    assert!(is_blocked(0, 0, &game.map, &objects));
    assert!(is_blocked(5, 5, &game.map, &objects));
    assert!(!is_blocked(6, 5, &game.map, &objects));
    assert!(!is_blocked(7, 7, &game.map, &objects));
    assert!(is_blocked(30, 7, &game.map, &objects));
}

#[test]
fn move_by_moves_to_a_free_tile() {
    let game = game();
    let mut objects = vec![player_at(5, 5)];
    move_by(0, 1, -1, &mut objects, &game);
    assert_eq!(objects[0].pos(), (6, 4));
}

#[test]
fn move_by_into_a_wall_or_an_object_is_dropped() {
    let game = game();
    let mut objects = vec![player_at(1, 1), make_monster(MonsterType::Orc, 2, 1)];
    move_by(0, -1, 0, &mut objects, &game);
    assert_eq!(objects[0].pos(), (1, 1));
    move_by(0, 1, 0, &mut objects, &game);
    assert_eq!(objects[0].pos(), (1, 1));
    move_by(0, 0, 0, &mut objects, &game);
    assert_eq!(objects[0].pos(), (1, 1));
    move_by(1, 0, 1, &mut objects, &game);
    assert_eq!(objects[1].pos(), (2, 2));
}

#[test]
fn move_towards_takes_the_rounded_unit_step() {
    let game = game();
    let cases = [
        ((10, 10), (20, 10), (11, 10)),
        ((10, 10), (10, 3), (10, 9)),
        ((10, 10), (15, 15), (11, 11)),
        ((10, 10), (20, 12), (11, 10)),
        ((10, 10), (20, 16), (11, 11)),
        ((10, 10), (4, 20), (9, 11)),
        ((10, 10), (9, 20), (10, 11)),
        ((10, 10), (12, 11), (11, 10)),
        ((10, 10), (12, 12), (11, 11)),
        ((10, 10), (10, 10), (10, 10)),
    ];
    for (from, to, expected) in cases {
        let mut objects = vec![Object::new(from.0, from.1, 'o', "orc", Color::Red, false)];
        move_towards(0, to.0, to.1, &mut objects, &game);
        assert_eq!(objects[0].pos(), expected);
    }
}

#[test]
fn move_towards_agrees_with_rounding_the_normalised_vector() {
    let game = game();
    for tx in 1..30 {
        for ty in 1..30 {
            let (ox, oy) = (15, 15);
            if (tx, ty) == (ox, oy) {
                continue;
            }
            let (dx, dy) = ((tx - ox) as f32, (ty - oy) as f32);
            let distance = (dx * dx + dy * dy).sqrt();
            let expected = (ox + (dx / distance).round() as i32, oy + (dy / distance).round() as i32);
            let mut objects = vec![Object::new(ox, oy, 'o', "orc", Color::Red, false)];
            move_towards(0, tx, ty, &mut objects, &game);
            assert_eq!(objects[0].pos(), expected);
        }
    }
}

#[test]
fn basic_monster_out_of_view_does_nothing() {
    let mut game = game();
    let fov = Visibility::new();
    let mut objects = vec![player_at(5, 5), make_monster(MonsterType::Orc, 6, 5)];
    ai_take_turn(1, &mut objects, &mut game, &fov);
    assert_eq!(objects[1], make_monster(MonsterType::Orc, 6, 5));
    assert_eq!(objects[0], player_at(5, 5));
    assert_eq!(game.log.len(), 0);
}

#[test]
fn basic_monster_far_away_steps_closer() {
    let mut game = game();
    let fov = lit();
    let mut objects = vec![player_at(5, 5), make_monster(MonsterType::Orc, 9, 5)];
    ai_take_turn(1, &mut objects, &mut game, &fov);
    assert_eq!(objects[1].pos(), (8, 5));
    assert_eq!(objects[1].ai, Some(Ai::Basic));
    assert_eq!(objects[0], player_at(5, 5));
}

#[test]
fn basic_monster_two_tiles_away_moves_and_does_not_attack() {
    let mut game = game();
    let fov = lit();
    let mut objects = vec![player_at(5, 5), make_monster(MonsterType::Orc, 7, 5)];
    ai_take_turn(1, &mut objects, &mut game, &fov);
    assert_eq!(objects[1].pos(), (6, 5));
    assert_eq!(objects[0].fighter.unwrap().hp, 100);
}

#[test]
fn basic_monster_next_to_the_player_attacks() {
    let mut game = game();
    let fov = lit();
    let mut objects = vec![player_at(5, 5), make_monster(MonsterType::Orc, 6, 6)];
    ai_take_turn(1, &mut objects, &mut game, &fov);
    assert_eq!(objects[1].pos(), (6, 6));
    assert_eq!(objects[0].fighter.unwrap().hp, 97);
    assert_eq!(texts(&game), vec!["orc attacks player for 3 hit points.".to_string()]);
}

#[test]
fn basic_monster_leaves_a_dead_player_alone() {
    let mut game = game();
    let fov = lit();
    let mut dead = player_at(5, 5);
    dead.fighter.as_mut().unwrap().hp = 0;
    let mut objects = vec![dead.clone(), make_monster(MonsterType::Troll, 5, 6)];
    ai_take_turn(1, &mut objects, &mut game, &fov);
    assert_eq!(objects[0], dead);
    assert_eq!(game.log.len(), 0);
}

#[test]
fn object_without_behaviour_takes_no_turn() {
    let mut game = game();
    let fov = lit();
    let mut objects = vec![player_at(5, 5), make_monster(MonsterType::Orc, 6, 5)];
    ai_take_turn(0, &mut objects, &mut game, &fov);
    assert_eq!(objects[0], player_at(5, 5));
    assert_eq!(objects[1], make_monster(MonsterType::Orc, 6, 5));
}

#[test]
fn confused_monster_stumbles_for_its_turns_then_recovers_once() {
    let mut game = game();
    let fov = lit();
    let n = 4;
    let mut monster = make_monster(MonsterType::Orc, 15, 15);
    monster.ai = Some(Ai::Confused { previous_ai: Some(Box::new(Ai::Basic)), num_turns: n });
    let mut objects = vec![player_at(2, 2), monster];
    for turn in 0..n {
        let before = objects[1].pos();
        ai_take_turn(1, &mut objects, &mut game, &fov);
        let after = objects[1].pos();
        assert!((after.0 - before.0).abs() <= 1 && (after.1 - before.1).abs() <= 1);
        assert_eq!(
            objects[1].ai,
            Some(Ai::Confused { previous_ai: Some(Box::new(Ai::Basic)), num_turns: n - turn - 1 })
        );
        assert_eq!(game.log.len(), 0);
    }
    let before = objects[1].pos();
    ai_take_turn(1, &mut objects, &mut game, &fov);
    assert_eq!(objects[1].pos(), before);
    assert_eq!(objects[1].ai, Some(Ai::Basic));
    assert_eq!(texts(&game), vec!["The orc is no longer confused!".to_string()]);
    assert_eq!(game.log.messages()[0].1, Color::Red);
    ai_take_turn(1, &mut objects, &mut game, &fov);
    assert_eq!(objects[1].ai, Some(Ai::Basic));
    assert_eq!(game.log.len(), 1);
}

#[test]
fn confused_monster_with_nothing_to_remember_stays_confused() {
    let mut game = game();
    let fov = lit();
    let mut monster = make_monster(MonsterType::Orc, 15, 15);
    monster.ai = Some(Ai::Confused { previous_ai: None, num_turns: 0 });
    let mut objects = vec![player_at(2, 2), monster];
    ai_take_turn(1, &mut objects, &mut game, &fov);
    assert_eq!(objects[1].ai, Some(Ai::Confused { previous_ai: None, num_turns: 0 }));
    assert_eq!(game.log.len(), 1);
}

#[test]
fn confusion_restores_a_nested_behaviour() {
    let mut game = game();
    let fov = lit();
    let inner = Ai::Confused { previous_ai: Some(Box::new(Ai::Basic)), num_turns: 2 };
    let mut monster = make_monster(MonsterType::Orc, 15, 15);
    monster.ai = Some(Ai::Confused { previous_ai: Some(Box::new(inner.clone())), num_turns: 0 });
    let mut objects = vec![player_at(2, 2), monster];
    ai_take_turn(1, &mut objects, &mut game, &fov);
    assert_eq!(objects[1].ai, Some(inner));
}

#[test]
fn confused_monster_does_not_walk_through_walls() {
    let mut game = game();
    let fov = lit();
    let mut monster = make_monster(MonsterType::Orc, 1, 1);
    monster.ai = Some(Ai::Confused { previous_ai: Some(Box::new(Ai::Basic)), num_turns: 200 });
    let mut objects = vec![player_at(20, 20), monster];
    for _ in 0..200 {
        ai_take_turn(1, &mut objects, &mut game, &fov);
        let (x, y) = objects[1].pos();
        assert!(!game.map.tiles[x as usize][y as usize].blocked);
    }
}

#[test]
fn fighter_at_finds_the_first_fighter() {
    let objects = vec![
        player_at(5, 5),
        Object::new(6, 5, '!', "potion", Color::Violet, false),
        make_monster(MonsterType::Orc, 6, 5),
        make_monster(MonsterType::Troll, 6, 5),
    ];
    assert_eq!(fighter_at(6, 5, &objects), Some(2));
    assert_eq!(fighter_at(5, 5, &objects), Some(0));
    assert_eq!(fighter_at(7, 5, &objects), None);
}

#[test]
fn player_moves_into_free_space_and_asks_for_a_new_view() {
    let mut game = game();
    let mut objects = vec![player_at(5, 5)];
    player_move_or_attack(1, 0, &mut objects, &mut game);
    assert_eq!(objects[0].pos(), (6, 5));
    assert!(game.fov_recompute);
}

#[test]
fn player_blocked_by_a_wall_stays_and_still_asks_for_a_new_view() {
    let mut game = game();
    let mut objects = vec![player_at(1, 1)];
    player_move_or_attack(-1, 0, &mut objects, &mut game);
    assert_eq!(objects[0].pos(), (1, 1));
    assert!(game.fov_recompute);
}

#[test]
fn player_attacks_the_fighter_in_the_way() {
    let mut game = game();
    let mut objects = vec![player_at(5, 5), make_monster(MonsterType::Orc, 5, 6)];
    player_move_or_attack(0, 1, &mut objects, &mut game);
    assert_eq!(objects[0].pos(), (5, 5));
    assert_eq!(objects[1].fighter.unwrap().hp, 18);
    assert!(!game.fov_recompute);
    assert_eq!(texts(&game), vec!["player attacks orc for 2 hit points.".to_string()]);
}

#[test]
fn player_walks_over_remains() {
    let mut game = game();
    let mut orc = make_monster(MonsterType::Orc, 5, 6);
    orc.take_damage(50, &mut game);
    let mut objects = vec![player_at(5, 5), orc];
    player_move_or_attack(0, 1, &mut objects, &mut game);
    assert_eq!(objects[0].pos(), (5, 6));
}

#[test]
fn monsters_take_turns_last_first() {
    let mut game = game();
    let fov = lit();
    let mut objects = vec![
        player_at(5, 5),
        make_monster(MonsterType::Orc, 8, 5),
        make_monster(MonsterType::Orc, 9, 5),
    ];
    monsters_take_turns(&mut objects, &mut game, &fov);
    assert_eq!(objects[1].pos(), (7, 5));
    assert_eq!(objects[2].pos(), (9, 5));
    monsters_take_turns(&mut objects, &mut game, &fov);
    assert_eq!(objects[1].pos(), (6, 5));
    assert_eq!(objects[2].pos(), (8, 5));
}

#[test]
fn monsters_stop_attacking_once_the_player_is_dead() {
    let mut game = game();
    let fov = lit();
    let mut player = player_at(5, 5);
    player.fighter.as_mut().unwrap().hp = 5;
    let mut objects = vec![
        player,
        make_monster(MonsterType::Troll, 4, 5),
        make_monster(MonsterType::Troll, 6, 5),
        make_monster(MonsterType::Troll, 5, 6),
    ];
    monsters_take_turns(&mut objects, &mut game, &fov);
    assert_eq!(objects[0].fighter.unwrap().hp, -2);
    assert_eq!(game.state, GameState::Death);
    assert_eq!(
        texts(&game),
        vec!["troll attacks player for 7 hit points.".to_string(), "You died!".to_string()]
    );
}
