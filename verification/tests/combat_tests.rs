use roguelike::color::Color;
use roguelike::combat::{monster_death, player_death};
use roguelike::dungeon::TileMap;
use roguelike::equipment::{dequip, equip, get_equipped_in_slot, toggle_equip};
use roguelike::game::{Game, GameState};
use roguelike::log::MessageLog;
use roguelike::object::{DeathCallback, Equipment, Fighter, Item, Object};

fn game() -> Game {
    Game {
        state: GameState::Playing,
        dungeon_level: 1,
        map: TileMap::new(),
        fov_recompute: false,
        log: MessageLog::new(),
        inventory: vec![],
    }
}

fn fighter(hp: i32, defense: i32, power: i32, xp: i32, death: Option<DeathCallback>) -> Fighter {
    Fighter { base_max_hp: hp, hp, base_defense: defense, base_power: power, xp, death }
}

fn player() -> Object {
    let mut player = Object::new(0, 0, '@', "player", Color::White, true);
    player.fighter = Some(fighter(100, 1, 2, 0, Some(DeathCallback::Player)));
    player.level = 1;
    player
}

fn orc() -> Object {
    let mut orc = Object::new(1, 0, 'o', "orc", Color::DesaturatedGreen, true);
    orc.fighter = Some(fighter(20, 0, 4, 35, Some(DeathCallback::Monster)));
    orc
}

fn gear(name: &str, slot: &str, power: i32, defense: i32, max_hp: i32) -> Object {
    let mut object = Object::new(0, 0, '/', name, Color::Sky, false);
    object.item = Some(Item::Inert);
    object.equipment = Some(Equipment {
        slot: slot.to_string(),
        is_equipped: false,
        power_bonus: power,
        defense_bonus: defense,
        max_hp_bonus: max_hp,
    });
    object
}

fn last_message(game: &Game) -> (String, Color) {
    game.log.messages().last().unwrap().clone()
}

fn worn(game: &Game, id: usize) -> bool {
    game.inventory[id].equipment.as_ref().unwrap().is_equipped
}

#[test]
fn new_object_is_bare() {
    let o = Object::new(3, 4, 'x', "thing", Color::Green, true);
    assert_eq!(o.pos(), (3, 4));
    assert_eq!(o.glyph, 'x');
    assert_eq!(o.name, "thing");
    assert_eq!(o.color, Color::Green);
    assert!(o.blocks);
    assert!(!o.always_visible);
    assert_eq!(o.level, 0);
    assert!(o.fighter.is_none() && o.ai.is_none() && o.item.is_none() && o.equipment.is_none());
}

#[test]
fn set_pos_moves_only() {
    let mut o = orc();
    o.set_pos(7, 9);
    assert_eq!(o.pos(), (7, 9));
    let mut expected = orc();
    expected.x = 7;
    expected.y = 9;
    assert_eq!(o, expected);
}

#[test]
fn is_player_goes_by_name() {
    assert!(player().is_player());
    assert!(!orc().is_player());
    assert!(Object::new(0, 0, 'o', "player", Color::Red, false).is_player());
}

#[test]
fn distance_is_the_squared_length() {
    let a = Object::new(1, 1, 'a', "a", Color::Red, false);
    let b = Object::new(4, 5, 'b', "b", Color::Red, false);
    assert_eq!(a.distance_to(&b), 25);
    assert_eq!(b.distance_to(&a), 25);
    assert_eq!(a.distance(1, 1), 0);
    assert_eq!(a.distance(1, 3), 4);
    assert_eq!(a.distance(-2, 1), 9);
}

#[test]
fn distance_across_the_whole_range() {
    let a = Object::new(i32::MIN, i32::MIN, 'a', "a", Color::Red, false);
    let span = (u32::MAX as u128) * (u32::MAX as u128);
    assert_eq!(a.distance(i32::MAX, i32::MAX), 2 * span);
}

#[test]
fn heal_stops_at_the_maximum() {
    let mut f = fighter(30, 0, 0, 0, None);
    f.hp = 10;
    f.heal(5);
    assert_eq!(f.hp, 15);
    f.heal(40);
    assert_eq!(f.hp, 30);
    f.heal(0);
    assert_eq!(f.hp, 30);
}

#[test]
fn take_damage_lowers_hp_exactly() {
    let mut game = game();
    let mut o = orc();
    assert_eq!(o.take_damage(7, &mut game), None);
    assert_eq!(o.fighter.unwrap().hp, 13);
    assert_eq!(o.name, "orc");
    assert_eq!(game.log.len(), 0);
}

#[test]
fn take_damage_of_zero_or_less_takes_nothing() {
    let mut game = game();
    let mut o = orc();
    assert_eq!(o.take_damage(0, &mut game), None);
    assert_eq!(o.take_damage(-5, &mut game), None);
    assert_eq!(o, orc());
}

#[test]
fn take_damage_on_a_non_fighter_does_nothing() {
    let mut game = game();
    let mut o = Object::new(0, 0, '!', "potion", Color::Violet, false);
    assert_eq!(o.take_damage(50, &mut game), None);
    assert_eq!(o, Object::new(0, 0, '!', "potion", Color::Violet, false));
    assert_eq!(game.log.len(), 0);
}

#[test]
fn killing_blow_turns_a_monster_into_remains() {
    let mut game = game();
    let mut o = orc();
    assert_eq!(o.take_damage(20, &mut game), Some(35));
    assert_eq!(o.name, "remains of orc");
    assert_eq!(o.glyph, '%');
    assert_eq!(o.color, Color::DarkRed);
    assert!(!o.blocks);
    assert!(o.fighter.is_none());
    assert!(o.ai.is_none());
    assert_eq!(game.state, GameState::Playing);
    assert_eq!(
        last_message(&game),
        ("orc is dead! You gain 35 experience points.".to_string(), Color::Orange)
    );
}

#[test]
fn hp_goes_below_zero_unclamped() {
    let mut game = game();
    let mut p = player();
    assert_eq!(p.take_damage(130, &mut game), Some(0));
    assert_eq!(p.fighter.unwrap().hp, -30);
}

#[test]
fn a_monster_far_below_zero_dies_whatever_the_damage() {
    let mut game = game();
    let mut o = orc();
    o.fighter.as_mut().unwrap().hp = i32::MIN;
    assert_eq!(o.take_damage(i32::MAX, &mut game), Some(35));
    assert!(o.fighter.is_none());
    assert_eq!(o.name, "remains of orc");
}

#[test]
fn an_attack_without_effect_needs_no_range() {
    let mut game = game();
    let mut o = orc();
    o.fighter.as_mut().unwrap().base_power = i32::MIN;
    let mut p = player();
    p.fighter.as_mut().unwrap().base_defense = i32::MAX;
    o.attack(&mut p, &mut game);
    assert_eq!(p.fighter.unwrap().hp, 100);
    assert_eq!(last_message(&game).0, "orc attacks player but it has no effect!");
    assert_eq!(game.log.len(), 1);
}

#[test]
fn a_monster_dies_once() {
    let mut game = game();
    let mut o = orc();
    assert_eq!(o.take_damage(25, &mut game), Some(35));
    let corpse = o.clone();
    let messages = game.log.len();
    assert_eq!(o.take_damage(25, &mut game), None);
    assert_eq!(o, corpse);
    assert_eq!(game.log.len(), messages);
}

#[test]
fn a_fighter_at_zero_dies_even_without_damage() {
    let mut game = game();
    let mut o = orc();
    o.fighter.as_mut().unwrap().hp = 0;
    assert_eq!(o.take_damage(0, &mut game), Some(35));
    assert!(o.fighter.is_none());
}

#[test]
fn a_fighter_without_death_lives_on_below_zero() {
    let mut game = game();
    let mut o = orc();
    o.fighter.as_mut().unwrap().death = None;
    assert_eq!(o.take_damage(30, &mut game), None);
    assert_eq!(o.fighter.unwrap().hp, -10);
    assert_eq!(o.name, "orc");
    assert_eq!(game.log.len(), 0);
}

#[test]
fn player_death_ends_the_game_and_keeps_the_fighter() {
    let mut game = game();
    let mut p = player();
    assert_eq!(p.take_damage(100, &mut game), Some(0));
    assert_eq!(game.state, GameState::Death);
    assert_eq!(p.glyph, '%');
    assert_eq!(p.color, Color::DarkRed);
    assert_eq!(p.name, "player");
    assert!(p.blocks);
    assert_eq!(p.fighter.unwrap().hp, 0);
    assert_eq!(last_message(&game), ("You died!".to_string(), Color::Red));
}

#[test]
fn death_functions_on_their_own() {
    let mut game = game();
    let mut p = player();
    player_death(&mut p, &mut game);
    assert_eq!(game.state, GameState::Death);
    assert_eq!(p.fighter, player().fighter);
    let mut o = orc();
    monster_death(&mut o, &mut game);
    assert_eq!(o.name, "remains of orc");
    let mut t = orc();
    DeathCallback::Monster.callback(&mut t, &mut game);
    assert_eq!(t, o);
}

#[test]
fn attack_deals_power_less_defense() {
    let mut game = game();
    let mut o = orc();
    let mut p = player();
    o.attack(&mut p, &mut game);
    assert_eq!(p.fighter.unwrap().hp, 97);
    assert_eq!(o, orc());
    assert_eq!(
        last_message(&game),
        ("orc attacks player for 3 hit points.".to_string(), Color::White)
    );
}

#[test]
fn attack_without_effect_changes_nothing() {
    let mut game = game();
    let mut o = orc();
    o.fighter.as_mut().unwrap().base_power = 1;
    let before = o.clone();
    let mut p = player();
    o.attack(&mut p, &mut game);
    assert_eq!(p, player());
    assert_eq!(o, before);
    assert_eq!(
        last_message(&game),
        ("orc attacks player but it has no effect!".to_string(), Color::White)
    );
    o.fighter.as_mut().unwrap().base_power = -50;
    o.attack(&mut p, &mut game);
    assert_eq!(p, player());
}

#[test]
fn player_takes_the_xp_of_what_it_kills() {
    let mut game = game();
    let mut p = player();
    p.fighter.as_mut().unwrap().base_power = 30;
    let mut o = orc();
    p.attack(&mut o, &mut game);
    assert!(o.fighter.is_none());
    assert_eq!(p.fighter.unwrap().xp, 35);
    let texts: Vec<String> = game.log.messages().iter().map(|m| m.0.clone()).collect();
    assert_eq!(
        texts,
        vec![
            "player attacks orc for 30 hit points.".to_string(),
            "orc is dead! You gain 35 experience points.".to_string(),
        ]
    );
}

#[test]
fn a_monster_takes_no_xp() {
    let mut game = game();
    let mut o = orc();
    o.fighter.as_mut().unwrap().base_power = 500;
    let mut p = player();
    p.fighter.as_mut().unwrap().xp = 77;
    o.attack(&mut p, &mut game);
    assert_eq!(o.fighter.unwrap().xp, 35);
    assert_eq!(game.state, GameState::Death);
}

#[test]
fn equipment_raises_the_players_statistics_only() {
    let mut game = game();
    game.inventory.push(gear("sword", "right hand", 3, 0, 0));
    game.inventory.push(gear("shield", "left hand", 0, 1, 5));
    game.inventory.push(gear("helmet", "head", 10, 10, 10));
    equip(0, &mut game);
    equip(1, &mut game);
    let p = player();
    assert_eq!(p.full_power(&game), 5);
    assert_eq!(p.full_defense(&game), 2);
    assert_eq!(p.full_max_hp(&game), 105);
    let o = orc();
    assert_eq!(o.full_power(&game), 4);
    assert_eq!(o.full_defense(&game), 0);
    assert_eq!(o.full_max_hp(&game), 20);
    assert_eq!(p.get_all_equipped(&game).len(), 2);
    assert_eq!(p.get_all_equipped(&game)[0].slot, "right hand");
    assert!(o.get_all_equipped(&game).is_empty());
    let potion = Object::new(0, 0, '!', "potion", Color::Violet, false);
    assert_eq!(potion.full_power(&game), 0);
}

#[test]
fn statistics_follow_equipment_at_once() {
    let mut game = game();
    game.inventory.push(gear("sword", "right hand", 3, 0, 0));
    let p = player();
    assert_eq!(p.full_power(&game), 2);
    equip(0, &mut game);
    assert_eq!(p.full_power(&game), 5);
    dequip(0, &mut game);
    assert_eq!(p.full_power(&game), 2);
}

#[test]
fn equip_takes_off_what_holds_the_slot() {
    let mut game = game();
    game.inventory.push(gear("dagger", "right hand", 2, 0, 0));
    game.inventory.push(gear("sword", "right hand", 3, 0, 0));
    equip(0, &mut game);
    assert!(worn(&game, 0));
    assert_eq!(last_message(&game), ("Equipped dagger on right hand.".to_string(), Color::LightGreen));
    equip(1, &mut game);
    assert!(!worn(&game, 0));
    assert!(worn(&game, 1));
    let texts: Vec<String> = game.log.messages().iter().map(|m| m.0.clone()).collect();
    assert_eq!(
        texts,
        vec![
            "Equipped dagger on right hand.".to_string(),
            "Dequipped dagger from right hand.".to_string(),
            "Equipped sword on right hand.".to_string(),
        ]
    );
    assert_eq!(game.log.messages()[1].1, Color::LightYellow);
}

#[test]
fn dequip_of_what_is_not_worn_is_silent() {
    let mut game = game();
    game.inventory.push(gear("dagger", "right hand", 2, 0, 0));
    game.inventory.push(Object::new(0, 0, '!', "potion", Color::Violet, false));
    dequip(0, &mut game);
    dequip(1, &mut game);
    assert_eq!(game.log.len(), 0);
    assert!(!worn(&game, 0));
    equip(1, &mut game);
    assert_eq!(game.log.len(), 0);
}

#[test]
fn toggle_equip_goes_back_and_forth() {
    let mut game = game();
    game.inventory.push(gear("dagger", "right hand", 2, 0, 0));
    toggle_equip(0, &mut game);
    assert!(worn(&game, 0));
    toggle_equip(0, &mut game);
    assert!(!worn(&game, 0));
    assert_eq!(last_message(&game).0, "Dequipped dagger from right hand.");
}

#[test]
fn get_equipped_in_slot_finds_the_first_worn() {
    let mut game = game();
    game.inventory.push(gear("dagger", "right hand", 2, 0, 0));
    game.inventory.push(gear("shield", "left hand", 0, 1, 0));
    assert_eq!(get_equipped_in_slot("left hand", &game.inventory), None);
    equip(1, &mut game);
    assert_eq!(get_equipped_in_slot("left hand", &game.inventory), Some(1));
    assert_eq!(get_equipped_in_slot("right hand", &game.inventory), None);
    assert_eq!(get_equipped_in_slot("", &game.inventory), None);
}

#[test]
fn at_most_one_worn_item_per_slot_after_any_steps() {
    let mut game = game();
    let slots = ["right hand", "left hand", "right hand", "head", "left hand", "right hand"];
    for (i, slot) in slots.iter().enumerate() {
        game.inventory.push(gear(&format!("item{}", i), slot, 1, 1, 1));
    }
    let steps: [(u8, usize); 14] = [
        (0, 0), (0, 2), (0, 1), (2, 4), (0, 5), (1, 2), (2, 0), (0, 3), (2, 3), (2, 3), (0, 4),
        (0, 1), (1, 5), (2, 2),
    ];
    for (kind, id) in steps {
        match kind {
            0 => equip(id, &mut game),
            1 => dequip(id, &mut game),
            _ => toggle_equip(id, &mut game),
        }
        for slot in ["right hand", "left hand", "head"] {
            let count = game
                .inventory
                .iter()
                .filter(|o| o.equipment.as_ref().map_or(false, |e| e.is_equipped && e.slot == slot))
                .count();
            assert!(count <= 1);
        }
    }
    assert!(worn(&game, 2));
    assert!(worn(&game, 1));
    assert!(!worn(&game, 0));
}
