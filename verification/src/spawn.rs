//! What a level is stocked with: the kinds of monsters and items, how
//! likely each is at a given depth, and how a room is filled.

use vstd::prelude::*;
use rand::ThreadRng;
use rand::distributions::{Weighted, WeightedChoice};
use crate::color::Color;
use crate::dungeon::{in_bounds, Rect, TileMap};
use crate::object::{
    Ai,
    DeathCallback,
    Equipment,
    EquipmentView,
    Fighter,
    Item,
    Object,
    ObjectView,
    views,
};
use crate::random::{
    choice_entries,
    drawn_from,
    entries,
    lemma_weight_total_push,
    range,
    sample,
    thread_rng,
    weight_total,
    weighted_choice,
};
use crate::world::{blocked_at, is_blocked};

verus! {

/// The kinds of monsters.
#[derive(Clone, Copy, Debug, PartialEq, Eq, Structural)]
pub enum MonsterType {
    Orc,
    Troll,
}

/// The kinds of items found lying around.
#[derive(Clone, Copy, Debug, PartialEq, Eq, Structural)]
pub enum ItemType {
    Heal,
    Lightning,
    Fireball,
    Confuse,
    Sword,
    Shield,
}

/// The value that a table gives for `level`. Each entry is a value and
/// the level from which it holds; the last entry that holds at `level`
/// decides, and without one the value is zero.
pub open spec fn table_value(table: Seq<(u32, i32)>, level: int) -> u32
    decreases table.len(),
{
    if table.len() == 0 {
        0
    } else if level >= table.last().1 {
        table.last().0
    } else {
        table_value(table.drop_last(), level)
    }
}

/// The most monsters that a room gets at `level`.
pub open spec fn max_monsters(level: int) -> int {
    if level >= 6 {
        5
    } else if level >= 4 {
        3
    } else if level >= 1 {
        2
    } else {
        0
    }
}

/// The most items that a room gets at `level`.
pub open spec fn max_items(level: int) -> int {
    if level >= 4 {
        2
    } else if level >= 1 {
        1
    } else {
        0
    }
}

/// The weight with which a monster of `kind` is chosen at `level`.
pub open spec fn monster_weight(kind: MonsterType, level: int) -> int {
    match kind {
        MonsterType::Orc => 80,
        MonsterType::Troll => if level >= 7 {
            60
        } else if level >= 5 {
            30
        } else if level >= 3 {
            15
        } else {
            0
        },
    }
}

/// The weight with which an item of `kind` is chosen at `level`.
pub open spec fn item_weight(kind: ItemType, level: int) -> int {
    match kind {
        ItemType::Heal => 35,
        ItemType::Lightning => if level >= 4 {
            25
        } else {
            0
        },
        ItemType::Fireball => if level >= 6 {
            25
        } else {
            0
        },
        ItemType::Confuse => if level >= 2 {
            10
        } else {
            0
        },
        ItemType::Sword => if level >= 4 {
            5
        } else {
            0
        },
        ItemType::Shield => if level >= 8 {
            15
        } else {
            0
        },
    }
}

/// A monster of `kind`, fresh and unharmed, at `(x, y)`.
pub open spec fn monster_view(kind: MonsterType, x: i32, y: i32) -> ObjectView {
    match kind {
        MonsterType::Orc => ObjectView {
            fighter: Some(
                Fighter {
                    hp: 20,
                    base_max_hp: 20,
                    base_defense: 0,
                    base_power: 4,
                    xp: 35,
                    death: Some(DeathCallback::Monster),
                },
            ),
            ai: Some(Ai::Basic),
            ..ObjectView::bare(x, y, 'o', "orc"@, Color::DesaturatedGreen, true)
        },
        MonsterType::Troll => ObjectView {
            fighter: Some(
                Fighter {
                    hp: 30,
                    base_max_hp: 30,
                    base_defense: 2,
                    base_power: 8,
                    xp: 100,
                    death: Some(DeathCallback::Monster),
                },
            ),
            ai: Some(Ai::Basic),
            ..ObjectView::bare(x, y, 'T', "troll"@, Color::DarkerGreen, true)
        },
    }
}

/// An item of `kind` at `(x, y)`.
pub open spec fn item_view(kind: ItemType, x: i32, y: i32) -> ObjectView {
    match kind {
        ItemType::Heal => ObjectView {
            item: Some(Item::Heal),
            ..ObjectView::bare(x, y, '!', "healing potion"@, Color::Violet, false)
        },
        ItemType::Lightning => ObjectView {
            item: Some(Item::Lightning),
            ..ObjectView::bare(x, y, '#', "scroll of lightning bolt"@, Color::LightYellow, false)
        },
        ItemType::Fireball => ObjectView {
            item: Some(Item::Fireball),
            ..ObjectView::bare(x, y, '#', "scroll of fireball"@, Color::LightYellow, false)
        },
        ItemType::Confuse => ObjectView {
            item: Some(Item::Confuse),
            ..ObjectView::bare(x, y, '#', "scroll of confusion"@, Color::LightYellow, false)
        },
        ItemType::Sword => ObjectView {
            item: Some(Item::Inert),
            equipment: Some(
                EquipmentView {
                    slot: "right hand"@,
                    is_equipped: false,
                    power_bonus: 3,
                    defense_bonus: 0,
                    max_hp_bonus: 0,
                },
            ),
            ..ObjectView::bare(x, y, '/', "sword"@, Color::Sky, false)
        },
        ItemType::Shield => ObjectView {
            item: Some(Item::Inert),
            equipment: Some(
                EquipmentView {
                    slot: "left hand"@,
                    is_equipped: false,
                    power_bonus: 0,
                    defense_bonus: 1,
                    max_hp_bonus: 0,
                },
            ),
            ..ObjectView::bare(x, y, '[', "shield"@, Color::DarkerOrange, false)
        },
    }
}

/// One attempt to put something into a room.
#[derive(Clone, Copy, Debug, PartialEq, Eq, Structural)]
#[allow(inconsistent_fields)]
pub enum Spawn {
    Monster { kind: MonsterType, x: i32, y: i32 },
    Item { kind: ItemType, x: i32, y: i32 },
}

impl Spawn {
    /// The column of the tile that the attempt picked.
    pub open spec fn x(self) -> i32 {
        match self {
            Spawn::Monster { kind, x, y } => x,
            Spawn::Item { kind, x, y } => x,
        }
    }

    /// The row of the tile that the attempt picked.
    pub open spec fn y(self) -> i32 {
        match self {
            Spawn::Monster { kind, x, y } => y,
            Spawn::Item { kind, x, y } => y,
        }
    }

    /// The object that the attempt puts down.
    pub open spec fn object(self) -> ObjectView {
        match self {
            Spawn::Monster { kind, x, y } => monster_view(kind, x, y),
            Spawn::Item { kind, x, y } => item_view(kind, x, y),
        }
    }

    /// Whether something of this kind turns up at `level` at all.
    pub open spec fn likely(self, level: int) -> bool {
        match self {
            Spawn::Monster { kind, x, y } => monster_weight(kind, level) > 0,
            Spawn::Item { kind, x, y } => item_weight(kind, level) > 0,
        }
    }
}

/// The objects after one attempt: it fails, silently, where the tile is
/// solid or an object that blocks stands on it.
pub open spec fn spawned(objects: Seq<ObjectView>, map: TileMap, spawn: Spawn) -> Seq<ObjectView> {
    if blocked_at(spawn.x() as int, spawn.y() as int, map, objects) {
        objects
    } else {
        objects.push(spawn.object())
    }
}

/// The objects after a sequence of attempts, made in order.
pub open spec fn spawned_all(objects: Seq<ObjectView>, map: TileMap, spawns: Seq<Spawn>) -> Seq<ObjectView>
    decreases spawns.len(),
{
    if spawns.len() == 0 {
        objects
    } else {
        spawned(spawned_all(objects, map, spawns.drop_last()), map, spawns.last())
    }
}

/// What holds of the attempts made for one room: first come `monsters`
/// attempts at monsters, then attempts at items, neither more than the
/// level allows; each picks a tile inside the room and a kind that turns
/// up at the level.
pub open spec fn attempts_ok(spawns: Seq<Spawn>, monsters: int, room: Rect, level: int) -> bool {
    &&& 0 <= monsters <= spawns.len()
    &&& monsters <= max_monsters(level)
    &&& spawns.len() - monsters <= max_items(level)
    &&& forall|i: int|
        0 <= i < spawns.len() ==> {
            &&& (#[trigger] spawns[i]) is Monster <==> i < monsters
            &&& spawns[i].likely(level)
            &&& room.interior(spawns[i].x() as int, spawns[i].y() as int)
        }
}

/// Returns a value that depends on level. The table specifies what value
/// occurs after each level; the default is zero.
pub fn from_dungeon_level(table: &[(u32, i32)], level: i32) -> (value: u32)
    ensures
        value == table_value(table@, level as int),
{
    let mut i: usize = table.len();
    assert(table@.take(i as int) =~= table@);
    while i > 0
        invariant
            i <= table@.len(),
            table_value(table@, level as int) == table_value(table@.take(i as int), level as int),
        decreases i,
    {
        let (value, table_level) = table[i - 1];
        assert(table@.take(i as int).last() == table@[i - 1]);
        assert(table@.take(i as int).drop_last() =~= table@.take(i - 1));
        if level >= table_level {
            return value;
        }
        i = i - 1;
    }
    0
}

proof fn lemma_table_of_one(a: (u32, i32), level: int)
    ensures
        table_value(seq![a], level) == if level >= a.1 {
            a.0
        } else {
            0
        },
{
    assert(seq![a].drop_last() =~= Seq::<(u32, i32)>::empty());
    assert(table_value(Seq::<(u32, i32)>::empty(), level) == 0);
    assert(seq![a].last() == a);
}

proof fn lemma_table_of_two(a: (u32, i32), b: (u32, i32), level: int)
    ensures
        table_value(seq![a, b], level) == if level >= b.1 {
            b.0
        } else if level >= a.1 {
            a.0
        } else {
            0
        },
{
    assert(seq![a, b].drop_last() =~= seq![a]);
    assert(seq![a, b].last() == b);
    lemma_table_of_one(a, level);
}

proof fn lemma_table_of_three(a: (u32, i32), b: (u32, i32), c: (u32, i32), level: int)
    ensures
        table_value(seq![a, b, c], level) == if level >= c.1 {
            c.0
        } else if level >= b.1 {
            b.0
        } else if level >= a.1 {
            a.0
        } else {
            0
        },
{
    assert(seq![a, b, c].drop_last() =~= seq![a, b]);
    assert(seq![a, b, c].last() == c);
    lemma_table_of_two(a, b, level);
}

fn monster_cap(level: i32) -> (cap: i32)
    ensures
        cap == max_monsters(level as int),
{
    let table = [(2u32, 1i32), (3u32, 4i32), (5u32, 6i32)];
    proof {
        assert(table@ =~= seq![(2u32, 1i32), (3u32, 4i32), (5u32, 6i32)]);
        lemma_table_of_three((2u32, 1i32), (3u32, 4i32), (5u32, 6i32), level as int);
    }
    from_dungeon_level(table.as_slice(), level) as i32
}

fn item_cap(level: i32) -> (cap: i32)
    ensures
        cap == max_items(level as int),
{
    let table = [(1u32, 1i32), (2u32, 4i32)];
    proof {
        assert(table@ =~= seq![(1u32, 1i32), (2u32, 4i32)]);
        lemma_table_of_two((1u32, 1i32), (2u32, 4i32), level as int);
    }
    from_dungeon_level(table.as_slice(), level) as i32
}

fn troll_chance(level: i32) -> (weight: u32)
    ensures
        weight == monster_weight(MonsterType::Troll, level as int),
{
    let table = [(15u32, 3i32), (30u32, 5i32), (60u32, 7i32)];
    proof {
        assert(table@ =~= seq![(15u32, 3i32), (30u32, 5i32), (60u32, 7i32)]);
        lemma_table_of_three((15u32, 3i32), (30u32, 5i32), (60u32, 7i32), level as int);
    }
    from_dungeon_level(table.as_slice(), level)
}

fn chance_from(value: u32, first_level: i32, level: i32) -> (weight: u32)
    ensures
        weight == if level >= first_level {
            value
        } else {
            0
        },
{
    let table = [(value, first_level)];
    proof {
        assert(table@ =~= seq![(value, first_level)]);
        lemma_table_of_one((value, first_level), level as int);
    }
    from_dungeon_level(table.as_slice(), level)
}

/// A monster of `kind`, fresh and unharmed, at `(x, y)`.
pub fn make_monster(kind: MonsterType, x: i32, y: i32) -> (monster: Object)
    ensures
        monster@ == monster_view(kind, x, y),
{
    match kind {
        MonsterType::Orc => {
            let mut orc = Object::new(x, y, 'o', "orc", Color::DesaturatedGreen, true);
            orc.fighter = Some(
                Fighter {
                    hp: 20,
                    base_max_hp: 20,
                    base_defense: 0,
                    base_power: 4,
                    xp: 35,
                    death: Some(DeathCallback::Monster),
                },
            );
            orc.ai = Some(Ai::Basic);
            orc
        },
        MonsterType::Troll => {
            let mut troll = Object::new(x, y, 'T', "troll", Color::DarkerGreen, true);
            troll.fighter = Some(
                Fighter {
                    hp: 30,
                    base_max_hp: 30,
                    base_defense: 2,
                    base_power: 8,
                    xp: 100,
                    death: Some(DeathCallback::Monster),
                },
            );
            troll.ai = Some(Ai::Basic);
            troll
        },
    }
}

/// An item of `kind` at `(x, y)`.
pub fn make_item(kind: ItemType, x: i32, y: i32) -> (item: Object)
    ensures
        item@ == item_view(kind, x, y),
{
    match kind {
        ItemType::Heal => {
            let mut object = Object::new(x, y, '!', "healing potion", Color::Violet, false);
            object.item = Some(Item::Heal);
            object
        },
        ItemType::Lightning => {
            let mut object = Object::new(x, y, '#', "scroll of lightning bolt", Color::LightYellow, false);
            object.item = Some(Item::Lightning);
            object
        },
        ItemType::Fireball => {
            let mut object = Object::new(x, y, '#', "scroll of fireball", Color::LightYellow, false);
            object.item = Some(Item::Fireball);
            object
        },
        ItemType::Confuse => {
            let mut object = Object::new(x, y, '#', "scroll of confusion", Color::LightYellow, false);
            object.item = Some(Item::Confuse);
            object
        },
        ItemType::Sword => {
            let equipment_component = Equipment {
                slot: String::from_str("right hand"),
                is_equipped: false,
                power_bonus: 3,
                defense_bonus: 0,
                max_hp_bonus: 0,
            };
            let mut object = Object::new(x, y, '/', "sword", Color::Sky, false);
            object.equipment = Some(equipment_component);
            object.item = Some(Item::Inert);
            object
        },
        ItemType::Shield => {
            let equipment_component = Equipment {
                slot: String::from_str("left hand"),
                is_equipped: false,
                power_bonus: 0,
                defense_bonus: 1,
                max_hp_bonus: 0,
            };
            let mut object = Object::new(x, y, '[', "shield", Color::DarkerOrange, false);
            object.equipment = Some(equipment_component);
            object.item = Some(Item::Inert);
            object
        },
    }
}

/// The kind of monster with the given place in the list of chances.
pub open spec fn monster_at(index: int) -> MonsterType {
    if index == 0 {
        MonsterType::Orc
    } else {
        MonsterType::Troll
    }
}

/// The kind of item with the given place in the list of chances.
pub open spec fn item_at(index: int) -> ItemType {
    if index == 0 {
        ItemType::Heal
    } else if index == 1 {
        ItemType::Lightning
    } else if index == 2 {
        ItemType::Fireball
    } else if index == 3 {
        ItemType::Confuse
    } else if index == 4 {
        ItemType::Sword
    } else {
        ItemType::Shield
    }
}

/// The chances of the kinds of monsters at `level`: the weight of each
/// kind with its place in the list.
pub open spec fn monster_table(level: int) -> Seq<(u32, usize)> {
    Seq::new(2, |i: int| (monster_weight(monster_at(i), level) as u32, i as usize))
}

/// The chances of the kinds of items at `level`: the weight of each kind
/// with its place in the list.
pub open spec fn item_table(level: int) -> Seq<(u32, usize)> {
    Seq::new(6, |i: int| (item_weight(item_at(i), level) as u32, i as usize))
}

fn push_chance(chances: &mut Vec<Weighted<usize>>, weight: u32)
    requires
        old(chances)@.len() < usize::MAX,
    ensures
        entries(final(chances)@) == entries(old(chances)@).push((weight, old(chances)@.len() as usize)),
        weight_total(entries(final(chances)@)) == weight_total(entries(old(chances)@)) + weight,
{
    proof {
        lemma_weight_total_push(entries(chances@), (weight, chances@.len() as usize));
    }
    let item = chances.len();
    chances.push(Weighted { weight, item });
    assert(entries(chances@) =~= entries(old(chances)@).push((weight, old(chances)@.len() as usize)));
}

/// The chances of the kinds of monsters at `level`, in the order of
/// [`monster_at`].
pub fn monster_chances(level: i32) -> (chances: Vec<Weighted<usize>>)
    ensures
        entries(chances@) == monster_table(level as int),
        80 <= weight_total(entries(chances@)) <= 140,
{
    let mut chances: Vec<Weighted<usize>> = Vec::new();
    assert(weight_total(entries(chances@)) == 0);
    push_chance(&mut chances, 80);
    push_chance(&mut chances, troll_chance(level));
    assert(entries(chances@) =~= monster_table(level as int));
    chances
}

/// The chances of the kinds of items at `level`, in the order of
/// [`item_at`].
pub fn item_chances(level: i32) -> (chances: Vec<Weighted<usize>>)
    ensures
        entries(chances@) == item_table(level as int),
        35 <= weight_total(entries(chances@)) <= 115,
{
    let mut chances: Vec<Weighted<usize>> = Vec::new();
    assert(weight_total(entries(chances@)) == 0);
    push_chance(&mut chances, 35);
    push_chance(&mut chances, chance_from(25, 4, level));
    push_chance(&mut chances, chance_from(25, 6, level));
    push_chance(&mut chances, chance_from(10, 2, level));
    push_chance(&mut chances, chance_from(5, 4, level));
    push_chance(&mut chances, chance_from(15, 8, level));
    assert(entries(chances@) =~= item_table(level as int));
    chances
}

/// The kind of monster that the draw `index` stands for.
pub fn monster_of(index: usize) -> (kind: MonsterType)
    ensures
        kind == monster_at(index as int),
{
    if index == 0 {
        MonsterType::Orc
    } else {
        MonsterType::Troll
    }
}

/// The kind of item that the draw `index` stands for.
pub fn item_of(index: usize) -> (kind: ItemType)
    ensures
        kind == item_at(index as int),
{
    if index == 0 {
        ItemType::Heal
    } else if index == 1 {
        ItemType::Lightning
    } else if index == 2 {
        ItemType::Fireball
    } else if index == 3 {
        ItemType::Confuse
    } else if index == 4 {
        ItemType::Sword
    } else {
        ItemType::Shield
    }
}

/// A draw from the chances of the monsters at `level` stands for a kind
/// whose chance is above zero.
pub proof fn lemma_monster_drawn(level: int, index: usize)
    requires
        drawn_from(monster_table(level), index),
    ensures
        monster_weight(monster_at(index as int), level) > 0,
{
    let k = choose|k: int|
        0 <= k < monster_table(level).len() && (#[trigger] monster_table(level)[k]).1 == index
            && monster_table(level)[k].0 > 0;
    assert(k == index);
}

/// A draw from the chances of the items at `level` stands for a kind
/// whose chance is above zero.
pub proof fn lemma_item_drawn(level: int, index: usize)
    requires
        drawn_from(item_table(level), index),
    ensures
        item_weight(item_at(index as int), level) > 0,
{
    let k = choose|k: int|
        0 <= k < item_table(level).len() && (#[trigger] item_table(level)[k]).1 == index && item_table(
            level,
        )[k].0 > 0;
    assert(k == index);
}

/// Draws the kind of a monster at random, by the chances of `level`. No
/// kind comes out whose chance is zero.
pub fn choose_monster(level: i32) -> (kind: MonsterType)
    ensures
        monster_weight(kind, level as int) > 0,
{
    let mut rng = thread_rng();
    let mut chances = monster_chances(level);
    let choice = weighted_choice(&mut chances);
    let index = sample(&choice, &mut rng);
    proof {
        lemma_monster_drawn(level as int, index);
    }
    monster_of(index)
}

/// Draws the kind of an item at random, by the chances of `level`. No
/// kind comes out whose chance is zero.
pub fn choose_item(level: i32) -> (kind: ItemType)
    ensures
        item_weight(kind, level as int) > 0,
{
    let mut rng = thread_rng();
    let mut chances = item_chances(level);
    let choice = weighted_choice(&mut chances);
    let index = sample(&choice, &mut rng);
    proof {
        lemma_item_drawn(level as int, index);
    }
    item_of(index)
}

/// Carries out one attempt: the object is put down unless the tile is
/// solid or taken by an object that blocks.
pub fn place_spawn(spawn: Spawn, map: &TileMap, objects: &mut Vec<Object>)
    requires
        map.wf(),
        in_bounds(spawn.x() as int, spawn.y() as int),
    ensures
        views(final(objects)@) == spawned(views(old(objects)@), *map, spawn),
{
    match spawn {
        Spawn::Monster { kind, x, y } => {
            if !is_blocked(x, y, map, objects) {
                objects.push(make_monster(kind, x, y));
                assert(views(objects@) =~= views(old(objects)@).push(spawn.object()));
            }
        },
        Spawn::Item { kind, x, y } => {
            if !is_blocked(x, y, map, objects) {
                objects.push(make_item(kind, x, y));
                assert(views(objects@) =~= views(old(objects)@).push(spawn.object()));
            }
        },
    }
}

/// Whether a room can be stocked at `level`: where anything may turn up,
/// the room has tiles inside, all of them on the grid.
pub open spec fn room_fits(room: Rect, level: int) -> bool {
    level >= 1 ==> {
        &&& 0 <= room.x1 + 1 <= room.x2 - 1 < crate::config::MAP_WIDTH
        &&& 0 <= room.y1 + 1 <= room.y2 - 1 < crate::config::MAP_HEIGHT
    }
}

/// What holds of a run of attempts of one sort: there are `count` of
/// them, all at monsters or all at items; each picks a tile inside the
/// room and a kind that turns up at the level.
pub open spec fn run_ok(spawns: Seq<Spawn>, count: int, monsters: bool, room: Rect, level: int) -> bool {
    &&& spawns.len() == if count > 0 {
        count
    } else {
        0
    }
    &&& forall|i: int|
        0 <= i < spawns.len() ==> {
            &&& (#[trigger] spawns[i]) is Monster <==> monsters
            &&& spawns[i].likely(level)
            &&& room.interior(spawns[i].x() as int, spawns[i].y() as int)
        }
}

/// Attempts made one run after the other are the attempts of both runs,
/// made in order.
pub proof fn lemma_spawned_all_joined(
    objects: Seq<ObjectView>,
    map: TileMap,
    first: Seq<Spawn>,
    second: Seq<Spawn>,
)
    ensures
        spawned_all(objects, map, first + second) == spawned_all(spawned_all(objects, map, first), map, second),
    decreases second.len(),
{
    if second.len() == 0 {
        assert(first + second =~= first);
    } else {
        lemma_spawned_all_joined(objects, map, first, second.drop_last());
        assert((first + second).drop_last() =~= first + second.drop_last());
        assert((first + second).last() == second.last());
    }
}

fn place_run(
    count: i32,
    monsters: bool,
    choice: &WeightedChoice<usize>,
    rng: &mut ThreadRng,
    room: Rect,
    map: &TileMap,
    objects: &mut Vec<Object>,
    level: i32,
)
    requires
        map.wf(),
        room_fits(room, level as int),
        count > 0 ==> level >= 1,
        choice_entries(*choice) == if monsters {
            monster_table(level as int)
        } else {
            item_table(level as int)
        },
    ensures
        exists|spawns: Seq<Spawn>| #[trigger]
            run_ok(spawns, count as int, monsters, room, level as int) && views(final(objects)@) == spawned_all(
                views(old(objects)@),
                *map,
                spawns,
            ),
{
    let ghost mut spawns: Seq<Spawn> = Seq::empty();
    let mut made: i32 = 0;
    while made < count
        invariant
            map.wf(),
            room_fits(room, level as int),
            count > 0 ==> level >= 1,
            0 <= made,
            count > 0 ==> made <= count,
            count <= 0 ==> made == 0,
            choice_entries(*choice) == if monsters {
                monster_table(level as int)
            } else {
                item_table(level as int)
            },
            run_ok(spawns, made as int, monsters, room, level as int),
            views(objects@) == spawned_all(views(old(objects)@), *map, spawns),
        decreases count - made,
    {
        let x = range(room.x1 + 1, room.x2 - 1);
        let y = range(room.y1 + 1, room.y2 - 1);
        let index = sample(choice, rng);
        let attempt = if monsters {
            proof {
                lemma_monster_drawn(level as int, index);
            }
            Spawn::Monster { kind: monster_of(index), x, y }
        } else {
            proof {
                lemma_item_drawn(level as int, index);
            }
            Spawn::Item { kind: item_of(index), x, y }
        };
        place_spawn(attempt, map, objects);
        proof {
            assert(spawns.push(attempt).drop_last() =~= spawns);
            spawns = spawns.push(attempt);
        }
        made = made + 1;
    }
    assert(run_ok(spawns, count as int, monsters, room, level as int));
}

/// Stocks a room with monsters and items. Their numbers are drawn at
/// random, up to what the level allows; each gets a random tile inside
/// the room and a random kind, and is left out, silently, where the tile
/// is solid or taken by an object that blocks.
pub fn place_objects(room: Rect, map: &TileMap, objects: &mut Vec<Object>, level: i32)
    requires
        map.wf(),
        room_fits(room, level as int),
    ensures
        exists|spawns: Seq<Spawn>, monsters: int| #[trigger]
            attempts_ok(spawns, monsters, room, level as int) && views(final(objects)@) == spawned_all(
                views(old(objects)@),
                *map,
                spawns,
            ),
{
    let mut rng = thread_rng();
    let most_monsters = monster_cap(level);
    let num_monsters = range(0, most_monsters);
    let mut monster_chances = monster_chances(level);
    let monster_choice = weighted_choice(&mut monster_chances);
    let most_items = item_cap(level);
    let mut item_chances = item_chances(level);
    let item_choice = weighted_choice(&mut item_chances);
    place_run(num_monsters, true, &monster_choice, &mut rng, room, map, objects, level);
    let ghost stocked = views(objects@);
    let num_items = range(0, most_items);
    place_run(num_items, false, &item_choice, &mut rng, room, map, objects, level);
    proof {
        let first = choose|spawns: Seq<Spawn>| #[trigger]
            run_ok(spawns, num_monsters as int, true, room, level as int) && stocked == spawned_all(
                views(old(objects)@),
                *map,
                spawns,
            );
        let second = choose|spawns: Seq<Spawn>| #[trigger]
            run_ok(spawns, num_items as int, false, room, level as int) && views(objects@) == spawned_all(
                stocked,
                *map,
                spawns,
            );
        lemma_spawned_all_joined(views(old(objects)@), *map, first, second);
        let all = first + second;
        assert forall|i: int| 0 <= i < all.len() implies {
            &&& (#[trigger] all[i]) is Monster <==> i < first.len()
            &&& all[i].likely(level as int)
            &&& room.interior(all[i].x() as int, all[i].y() as int)
        } by {
            if i < first.len() {
                assert(all[i] == first[i]);
            } else {
                assert(all[i] == second[i - first.len()]);
            }
        }
        assert(attempts_ok(all, first.len() as int, room, level as int));
    }
}

} // verus!
